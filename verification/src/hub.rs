//! Finding and fetching a model file, cache first.
//!
//! The cache has the standard layout `hub/models--owner--name/{refs/main,snapshots/<sha>/...}`. The
//! program around the library reads files and makes requests; each step here says what it does next,
//! given what the last action brought.
use vstd::prelude::*;

use crate::failure::Failure;
use crate::json::{read_fault, read_string};
use crate::text::{begins_with, chars_of, copy_of, trimmed};

verus! {

/// Where models are downloaded from.
pub const HUB_URL: &'static str = "https://huggingface.co";

// ---------------------------------------------------------------------------
// Paths
// ---------------------------------------------------------------------------
/// `part` below `base`: with one slash between them, and on its own where it is absolute.
pub open spec fn joined(base: Seq<char>, part: Seq<char>) -> Seq<char> {
    if crate::text::begins(part, "/"@) || base.len() == 0 {
        part
    } else if base.last() == '/' {
        base + part
    } else {
        base + "/"@ + part
    }
}

/// `part` below `base`.
pub fn join_path(base: &str, part: &str) -> (r: String)
    ensures
        r@ == joined(base@, part@),
{
    let b = chars_of(base);
    if begins_with(part, "/") || b.len() == 0 {
        return copy_of(part);
    }
    let mut r = copy_of(base);
    if b[b.len() - 1] != '/' {
        r.append("/");
    }
    r.append(part);
    r
}

/// The environment variables that say where caches go. Unset and empty mean the same.
#[derive(Debug)]
pub struct CacheEnv {
    pub hf_hub_cache: Option<String>,
    pub hf_home: Option<String>,
    pub xdg_cache_home: Option<String>,
    pub home: Option<String>,
}

/// The value of a variable that is set and not empty.
pub open spec fn set(v: Option<String>) -> Option<Seq<char>> {
    match v {
        Some(s) => if s@.len() > 0 {
            Some(s@)
        } else {
            None
        },
        None => None,
    }
}

/// The cache directory: the first of the four variables that is set decides.
pub open spec fn cache_dir(env: CacheEnv) -> Option<Seq<char>> {
    match set(env.hf_hub_cache) {
        Some(p) => Some(p),
        None => match set(env.hf_home) {
            Some(p) => Some(joined(p, "hub"@)),
            None => match set(env.xdg_cache_home) {
                Some(p) => Some(joined(p, "huggingface/hub"@)),
                None => match set(env.home) {
                    Some(p) => Some(joined(p, ".cache/huggingface/hub"@)),
                    None => None,
                },
            },
        },
    }
}

fn value_of(v: &Option<String>) -> (r: Option<&str>)
    ensures
        set(*v) == (match r {
            Some(s) => Some(s@),
            None => None,
        }),
{
    match v {
        Some(s) => if s.as_str().is_empty() {
            None
        } else {
            Some(s.as_str())
        },
        None => None,
    }
}

/// The cache directory, with the precedence `HF_HUB_CACHE`, `HF_HOME`, `XDG_CACHE_HOME`, `HOME`.
/// Without any of them there is no place to keep a model, so this fails rather than caching relative
/// to the working directory.
pub fn cache_root(env: &CacheEnv) -> (r: Result<String, Failure>)
    ensures
        match cache_dir(*env) {
            Some(p) => r matches Ok(s) && s@ == p,
            None => r matches Err(f) && f@ == seq![
                "none of HF_HUB_CACHE, HF_HOME, XDG_CACHE_HOME or HOME is set; set one so the embedding model has a cache directory"@,
            ],
        },
{
    if let Some(p) = value_of(&env.hf_hub_cache) {
        return Ok(copy_of(p));
    }
    if let Some(p) = value_of(&env.hf_home) {
        return Ok(join_path(p, "hub"));
    }
    if let Some(p) = value_of(&env.xdg_cache_home) {
        return Ok(join_path(p, "huggingface/hub"));
    }
    if let Some(p) = value_of(&env.home) {
        return Ok(join_path(p, ".cache/huggingface/hub"));
    }
    Err(
        Failure::saying(
            "none of HF_HUB_CACHE, HF_HOME, XDG_CACHE_HOME or HOME is set; set one so the embedding model has a cache directory",
        ),
    )
}

/// A model's name as a directory: each slash doubled into dashes.
pub open spec fn dashed(model_id: Seq<char>) -> Seq<char>
    decreases model_id.len(),
{
    if model_id.len() == 0 {
        seq![]
    } else if model_id.last() == '/' {
        dashed(model_id.drop_last()) + seq!['-', '-']
    } else {
        dashed(model_id.drop_last()).push(model_id.last())
    }
}

/// The directory of a model below the cache directory.
pub open spec fn repo_of(root: Seq<char>, model_id: Seq<char>) -> Seq<char> {
    joined(root, "models--"@ + dashed(model_id))
}

fn repo_dir(root: &str, model_id: &str) -> (r: String)
    ensures
        r@ == repo_of(root@, model_id@),
{
    let v = chars_of(model_id);
    let mut d = String::new();
    let mut i: usize = 0;
    while i < v.len()
        invariant
            i <= v@.len(),
            d@ == dashed(v@.take(i as int)),
        decreases v@.len() - i,
    {
        assert(v@.take(i + 1).drop_last() =~= v@.take(i as int));
        if v[i] == '/' {
            d.push('-');
            d.push('-');
            assert(d@ =~= dashed(v@.take(i as int)) + seq!['-', '-']);
        } else {
            d.push(v[i]);
        }
        i = i + 1;
    }
    assert(v@.take(v@.len() as int) =~= v@);
    let mut name = copy_of("models--");
    name.append(d.as_str());
    join_path(root, name.as_str())
}

/// Where a file of a revision lies; the recorded revision may end in a line break.
pub open spec fn snapshot_of(repo: Seq<char>, revision: Seq<char>, file: Seq<char>) -> Seq<char> {
    joined(joined(joined(repo, "snapshots"@), crate::text::trim(revision)), file)
}

/// The path of a file in a model's directory, given what its `refs/main` holds: nothing where there is
/// no such file.
pub fn cached_path(repo: &str, reference: &Option<String>, file: &str) -> (r: Option<String>)
    ensures
        crate::text::opt_text(r) == (match *reference {
            Some(s) => Some(snapshot_of(repo@, s@, file@)),
            None => None,
        }),
{
    match reference {
        Some(s) => {
            let revision = trimmed(s.as_str());
            let a = join_path(repo, "snapshots");
            let b = join_path(a.as_str(), revision.as_str());
            Some(join_path(b.as_str(), file))
        },
        None => None,
    }
}

// ---------------------------------------------------------------------------
// Fetching
// ---------------------------------------------------------------------------
/// Where a fetch stands.
#[derive(Clone, Copy, Debug, PartialEq, Eq, Structural)]
pub enum FetchPhase {
    /// Reading which revision is cached.
    Reading,
    /// Looking whether the cached file is there.
    Probing,
    /// Waiting for the lock on the model's directory.
    Locking,
    /// Asking for the current revision.
    Asking,
    /// Recording the revision.
    Recording,
    /// Downloading the file.
    Downloading,
    Finished,
}

/// A fetch in progress.
#[derive(Debug)]
pub struct Fetch {
    pub model_id: String,
    pub file: String,
    pub repo_dir: String,
    pub phase: FetchPhase,
    /// The lock is held: whoever held it before has probably just downloaded the file.
    pub locked: bool,
    /// Where the file lies or will lie, once the revision is known.
    pub path: String,
}

/// What to do next.
#[derive(Debug)]
pub enum FetchAction {
    /// Read this file.
    ReadReference { path: String },
    /// Look whether this file exists.
    Probe { path: String },
    /// Create this directory and take the lock in it.
    Lock { dir: String },
    /// Request the model's description.
    AskRevision { url: String },
    /// Write the revision to this file.
    RecordRevision { path: String, revision: String },
    /// Request the file and write it to this path.
    Download { url: String, path: String },
    /// The file's path, or that the model has no such file.
    Done(Option<String>),
}

/// What an action brought.
#[derive(Debug)]
pub enum FetchEvent {
    Reference(Option<String>),
    Exists(bool),
    Locked,
    /// The model's description, as it was received.
    Description(String),
    Recorded,
    Downloaded,
    /// The model has no such file.
    NotFound,
}

/// A fetch as plain values.
#[verifier::ext_equal]
pub struct FetchState {
    pub model_id: Seq<char>,
    pub file: Seq<char>,
    pub repo_dir: Seq<char>,
    pub phase: FetchPhase,
    pub locked: bool,
    pub path: Seq<char>,
}

impl View for Fetch {
    type V = FetchState;

    open spec fn view(&self) -> FetchState {
        FetchState {
            model_id: self.model_id@,
            file: self.file@,
            repo_dir: self.repo_dir@,
            phase: self.phase,
            locked: self.locked,
            path: self.path@,
        }
    }
}

/// An action as plain values.
#[verifier::ext_equal]
pub enum Act {
    ReadReference { path: Seq<char> },
    Probe { path: Seq<char> },
    Lock { dir: Seq<char> },
    AskRevision { url: Seq<char> },
    RecordRevision { path: Seq<char>, revision: Seq<char> },
    Download { url: Seq<char>, path: Seq<char> },
    Done { found: Option<Seq<char>> },
}

impl View for FetchAction {
    type V = Act;

    open spec fn view(&self) -> Act {
        match *self {
            FetchAction::ReadReference { path } => Act::ReadReference { path: path@ },
            FetchAction::Probe { path } => Act::Probe { path: path@ },
            FetchAction::Lock { dir } => Act::Lock { dir: dir@ },
            FetchAction::AskRevision { url } => Act::AskRevision { url: url@ },
            FetchAction::RecordRevision { path, revision } => Act::RecordRevision {
                path: path@,
                revision: revision@,
            },
            FetchAction::Download { url, path } => Act::Download { url: url@, path: path@ },
            FetchAction::Done(path) => Act::Done { found: crate::text::opt_text(path) },
        }
    }
}

/// Whether an event answers the action of a phase.
pub open spec fn answers(event: FetchEvent, phase: FetchPhase) -> bool {
    match phase {
        FetchPhase::Reading => event is Reference,
        FetchPhase::Probing => event is Exists,
        FetchPhase::Locking => event is Locked,
        FetchPhase::Asking => event is Description,
        FetchPhase::Recording => event is Recorded,
        FetchPhase::Downloading => event is Downloaded || event is NotFound,
        FetchPhase::Finished => false,
    }
}

/// The URL of a file at the current revision.
pub open spec fn file_url(model_id: Seq<char>, file: Seq<char>) -> Seq<char> {
    HUB_URL@ + "/"@ + model_id + "/resolve/main/"@ + file
}

/// The URL of a model's description.
pub open spec fn model_url(model_id: Seq<char>) -> Seq<char> {
    HUB_URL@ + "/api/models/"@ + model_id
}

/// What a model's description says of its revision.
#[verifier::ext_equal]
pub enum Description {
    Unreadable { why: Seq<char> },
    NoRevision,
    Revision { revision: Seq<char> },
}

/// What a model's description says of its revision: it is the string under `sha`.
pub open spec fn described(text: Seq<char>) -> Description {
    match crate::json::json_fault(text) {
        Some(why) => Description::Unreadable { why },
        None => match crate::json::json_string(text, "/sha"@) {
            Some(revision) => Description::Revision { revision },
            None => Description::NoRevision,
        },
    }
}

/// Where a fetch stands once the revision is known: it is recorded before the file is requested.
pub open spec fn recorded(s: FetchState, revision: Seq<char>) -> (FetchState, Act) {
    (
        FetchState {
            phase: FetchPhase::Recording,
            path: joined(joined(joined(s.repo_dir, "snapshots"@), revision), s.file),
            ..s
        },
        Act::RecordRevision { path: joined(s.repo_dir, "refs/main"@), revision },
    )
}

/// A step of a fetch. The cache is looked at first; a miss takes the lock and looks again, and only a
/// miss under the lock touches the network.
pub open spec fn fetch_step(s: FetchState, event: FetchEvent) -> Result<
    (FetchState, Act),
    Seq<Seq<char>>,
> {
    match event {
        FetchEvent::Reference(Some(revision)) => {
            let path = snapshot_of(s.repo_dir, revision@, s.file);
            Ok((FetchState { phase: FetchPhase::Probing, path, ..s }, Act::Probe { path }))
        },
        FetchEvent::Reference(None) => if s.locked {
            Ok(
                (
                    FetchState { phase: FetchPhase::Asking, ..s },
                    Act::AskRevision { url: model_url(s.model_id) },
                ),
            )
        } else {
            Ok((FetchState { phase: FetchPhase::Locking, ..s }, Act::Lock { dir: s.repo_dir }))
        },
        FetchEvent::Exists(true) => Ok(
            (FetchState { phase: FetchPhase::Finished, ..s }, Act::Done { found: Some(s.path) }),
        ),
        FetchEvent::Exists(false) => if s.locked {
            Ok(
                (
                    FetchState { phase: FetchPhase::Downloading, ..s },
                    Act::Download { url: file_url(s.model_id, s.file), path: s.path },
                ),
            )
        } else {
            Ok((FetchState { phase: FetchPhase::Locking, ..s }, Act::Lock { dir: s.repo_dir }))
        },
        FetchEvent::Locked => Ok(
            (
                FetchState { phase: FetchPhase::Reading, locked: true, ..s },
                Act::ReadReference { path: joined(s.repo_dir, "refs/main"@) },
            ),
        ),
        FetchEvent::Description(text) => match described(text@) {
            Description::Unreadable { why } => Err(seq!["bad model info for "@ + s.model_id, why]),
            Description::NoRevision => Err(seq!["no sha in model info for "@ + s.model_id]),
            Description::Revision { revision } => Ok(recorded(s, revision)),
        },
        FetchEvent::Recorded => Ok(
            (
                FetchState { phase: FetchPhase::Downloading, ..s },
                Act::Download { url: file_url(s.model_id, s.file), path: s.path },
            ),
        ),
        FetchEvent::Downloaded => Ok(
            (FetchState { phase: FetchPhase::Finished, ..s }, Act::Done { found: Some(s.path) }),
        ),
        FetchEvent::NotFound => Ok(
            (FetchState { phase: FetchPhase::Finished, ..s }, Act::Done { found: None }),
        ),
    }
}

/// Starts fetching `file` of `model_id` (`owner/name`): the first action reads the cached revision.
pub fn fetch(model_id: &str, file: &str, env: &CacheEnv) -> (r: Result<(Fetch, FetchAction), Failure>)
    ensures
        match cache_dir(*env) {
            None => r matches Err(f) && f@ == seq![
                "none of HF_HUB_CACHE, HF_HOME, XDG_CACHE_HOME or HOME is set; set one so the embedding model has a cache directory"@,
            ],
            Some(root) => r matches Ok(started) && started.0@ == (FetchState {
                model_id: model_id@,
                file: file@,
                repo_dir: repo_of(root, model_id@),
                phase: FetchPhase::Reading,
                locked: false,
                path: ""@,
            }) && started.1@ == (Act::ReadReference {
                path: joined(repo_of(root, model_id@), "refs/main"@),
            }),
        },
{
    let root = match cache_root(env) {
        Err(e) => return Err(e),
        Ok(p) => p,
    };
    let repo = repo_dir(root.as_str(), model_id);
    let reference = join_path(repo.as_str(), "refs/main");
    let started = Fetch {
        model_id: copy_of(model_id),
        file: copy_of(file),
        repo_dir: repo,
        phase: FetchPhase::Reading,
        locked: false,
        path: copy_of(""),
    };
    Ok((started, FetchAction::ReadReference { path: reference }))
}

fn download_of(f: &Fetch) -> (a: FetchAction)
    ensures
        a@ == (Act::Download { url: file_url(f.model_id@, f.file@), path: f.path@ }),
{
    let mut url = copy_of(HUB_URL);
    url.append("/");
    url.append(f.model_id.as_str());
    url.append("/resolve/main/");
    url.append(f.file.as_str());
    FetchAction::Download { url, path: copy_of(f.path.as_str()) }
}

impl Fetch {
    /// Goes on with a known revision.
    pub fn record(self, revision: String) -> (r: (Fetch, FetchAction))
        ensures
            (r.0@, r.1@) == recorded(self@, revision@),
    {
        let mut f = self;
        let a = join_path(f.repo_dir.as_str(), "snapshots");
        let b = join_path(a.as_str(), revision.as_str());
        let path = join_path(f.repo_dir.as_str(), "refs/main");
        f.path = join_path(b.as_str(), f.file.as_str());
        f.phase = FetchPhase::Recording;
        (f, FetchAction::RecordRevision { path, revision })
    }

    /// The next action, given what the last one brought.
    pub fn step(self, event: FetchEvent) -> (r: Result<(Fetch, FetchAction), Failure>)
        requires
            answers(event, self.phase),
        ensures
            match fetch_step(self@, event) {
                Ok(next) => r matches Ok(n) && n.0@ == next.0 && n.1@ == next.1,
                Err(e) => r matches Err(f) && f@ == e,
            },
    {
        let mut f = self;
        match event {
            FetchEvent::Reference(reference) => {
                match cached_path(f.repo_dir.as_str(), &reference, f.file.as_str()) {
                    Some(path) => {
                        f.path = copy_of(path.as_str());
                        f.phase = FetchPhase::Probing;
                        Ok((f, FetchAction::Probe { path }))
                    },
                    None => if f.locked {
                        let mut url = copy_of(HUB_URL);
                        url.append("/api/models/");
                        url.append(f.model_id.as_str());
                        f.phase = FetchPhase::Asking;
                        Ok((f, FetchAction::AskRevision { url }))
                    } else {
                        let dir = copy_of(f.repo_dir.as_str());
                        f.phase = FetchPhase::Locking;
                        Ok((f, FetchAction::Lock { dir }))
                    },
                }
            },
            FetchEvent::Exists(there) => {
                if there {
                    let path = copy_of(f.path.as_str());
                    f.phase = FetchPhase::Finished;
                    Ok((f, FetchAction::Done(Some(path))))
                } else if f.locked {
                    let action = download_of(&f);
                    f.phase = FetchPhase::Downloading;
                    Ok((f, action))
                } else {
                    let dir = copy_of(f.repo_dir.as_str());
                    f.phase = FetchPhase::Locking;
                    Ok((f, FetchAction::Lock { dir }))
                }
            },
            FetchEvent::Locked => {
                let path = join_path(f.repo_dir.as_str(), "refs/main");
                f.phase = FetchPhase::Reading;
                f.locked = true;
                Ok((f, FetchAction::ReadReference { path }))
            },
            FetchEvent::Description(text) => match read_fault(text.as_str()) {
                Some(why) => {
                    let mut m = copy_of("bad model info for ");
                    m.append(f.model_id.as_str());
                    Err(Failure::caused(m, why))
                },
                None => match read_string(text.as_str(), "/sha") {
                    None => {
                        let mut m = copy_of("no sha in model info for ");
                        m.append(f.model_id.as_str());
                        Err(Failure::new(m))
                    },
                    Some(revision) => Ok(f.record(revision)),
                },
            },
            FetchEvent::Recorded => {
                let action = download_of(&f);
                f.phase = FetchPhase::Downloading;
                Ok((f, action))
            },
            FetchEvent::Downloaded => {
                let path = copy_of(f.path.as_str());
                f.phase = FetchPhase::Finished;
                Ok((f, FetchAction::Done(Some(path))))
            },
            FetchEvent::NotFound => {
                f.phase = FetchPhase::Finished;
                Ok((f, FetchAction::Done(None)))
            },
        }
    }
}

/// Whether an action goes to the network.
pub open spec fn is_request(a: Act) -> bool {
    a is AskRevision || a is Download
}

/// Only a miss under the lock touches the network: a step that makes a request starts from a state that
/// holds the lock.
pub proof fn requests_need_the_lock(s: FetchState, event: FetchEvent)
    requires
        answers(event, s.phase),
        s.phase is Asking || s.phase is Recording || s.phase is Downloading ==> s.locked,
    ensures
        fetch_step(s, event) matches Ok(next) ==> {
            &&& is_request(next.1) ==> s.locked
            &&& next.0.phase is Asking || next.0.phase is Recording || next.0.phase is Downloading
                ==> next.0.locked
        },
{
}

/// Where a fetch stands after some events and what it does next, as long as each of them answered the
/// action before it and no step failed.
pub open spec fn after_events(
    start: FetchState,
    first: Act,
    events: Seq<FetchEvent>,
) -> Option<(FetchState, Act)>
    decreases events.len(),
{
    if events.len() == 0 {
        Some((start, first))
    } else {
        match after_events(start, first, events.drop_last()) {
            Some(s) => if answers(events.last(), s.0.phase) {
                match fetch_step(s.0, events.last()) {
                    Ok(next) => Some(next),
                    Err(_) => None,
                }
            } else {
                None
            },
            None => None,
        }
    }
}

/// However a fetch goes on, it makes no request before it has taken the lock.
pub proof fn no_request_before_the_lock(start: FetchState, first: Act, events: Seq<FetchEvent>)
    requires
        start.phase is Reading,
        !start.locked,
        first is ReadReference,
    ensures
        after_events(start, first, events) matches Some(s) ==> {
            &&& s.0.phase is Asking || s.0.phase is Recording || s.0.phase is Downloading
                ==> s.0.locked
            &&& s.0.locked || is_request(s.1) ==> exists|i: int|
                0 <= i < events.len() && #[trigger] events[i] is Locked
        },
    decreases events.len(),
{
    if events.len() > 0 {
        let front = events.drop_last();
        no_request_before_the_lock(start, first, front);
        if let Some(s) = after_events(start, first, events) {
            let before = after_events(start, first, front)->0;
            requests_need_the_lock(before.0, events.last());
            if before.0.locked {
                let i = choose|i: int| 0 <= i < front.len() && #[trigger] front[i] is Locked;
                assert(events[i] is Locked);
            } else if s.0.locked {
                assert(events[events.len() - 1] is Locked);
            }
        }
    }
}

/// A cached file is served as it is: reading its revision and finding the file end the fetch.
pub proof fn a_cached_file_is_served(s: FetchState, revision: String)
    requires
        s.phase is Reading,
    ensures
        ({
            let path = snapshot_of(s.repo_dir, revision@, s.file);
            let first = fetch_step(s, FetchEvent::Reference(Some(revision)));
            &&& first is Ok
            &&& first->Ok_0.1 == (Act::Probe { path })
            &&& fetch_step(first->Ok_0.0, FetchEvent::Exists(true)) matches Ok(m) && m.1 == (
            Act::Done { found: Some(path) })
        }),
{
}

} // verus!
