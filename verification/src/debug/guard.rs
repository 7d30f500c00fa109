//! Two narrow request guards over the debug pages.
//!
//! The pages have no authentication. One route writes heat, so a submission that another site caused
//! is refused whatever the configuration; and a page of another domain that resolves to this machine
//! shows in the `Host` header, which is checked where allowed hosts are configured.
//!
//! | condition | result |
//! |---|---|
//! | method is GET or HEAD | `Host` check only |
//! | `Sec-Fetch-Site` absent, `same-origin`, `same-site` or `none` | allowed |
//! | other method with `Sec-Fetch-Site` `cross-site` or `cross-origin` | refused |
//! | no allowed hosts, or `*` among them | `Host` check skipped |
//! | `Host` matches an allowed host with or without its port | allowed |
//! | `Host` matches none or is missing | refused |
use vstd::prelude::*;

use crate::text::{
    chars_of, copy_of, cut_at_last, is_blank, same, same_ignoring_case, split_at_char, text_between,
    trimmed,
};

verus! {

broadcast use crate::text::lemma_texts_push;

/// Why a submission from another site is refused.
pub const CROSS_SITE_REASON: &'static str =
    "403 Forbidden: cross-site submissions to the debug UI are not allowed (the Query Tester writes heat; see debug/guard.rs)";

/// Why a request for a foreign host is refused.
pub const FOREIGN_HOST_REASON: &'static str =
    "403 Forbidden: Host header is not in [server] allowed_hosts (DNS rebinding defence; see debug/guard.rs)";

/// Why a request without a host is refused.
pub const NO_HOST_REASON: &'static str =
    "403 Forbidden: request has no Host header to check against allowed_hosts";

/// The parts of a request that the guards see.
#[derive(Debug)]
pub struct RequestParts {
    pub method: String,
    /// Every `Sec-Fetch-Site` header value that is text.
    pub sec_fetch_site: Vec<String>,
    /// The `Host` header value, where it is text.
    pub host: Option<String>,
}

/// Only reads are safe from submissions by other sites.
pub open spec fn reads_only(method: Seq<char>) -> bool {
    method == "GET"@ || method == "HEAD"@
}

/// Whether a method only reads.
pub fn is_read_only(method: &str) -> (r: bool)
    ensures
        r == reads_only(method@),
{
    same(method, "GET") || same(method, "HEAD")
}

// ---------------------------------------------------------------------------
// Sites
// ---------------------------------------------------------------------------
/// The trimmed pieces that are not empty, in order.
pub open spec fn tokens(pieces: Seq<Seq<char>>) -> Seq<Seq<char>>
    decreases pieces.len(),
{
    if pieces.len() == 0 {
        seq![]
    } else {
        let before = tokens(pieces.drop_last());
        let t = crate::text::trim(pieces.last());
        if t.len() > 0 {
            before.push(t)
        } else {
            before
        }
    }
}

/// Every token across repeated headers and comma-separated values.
pub open spec fn site_values(raw: Seq<Seq<char>>) -> Seq<Seq<char>>
    decreases raw.len(),
{
    if raw.len() == 0 {
        seq![]
    } else {
        site_values(raw.drop_last()) + tokens(crate::text::split(raw.last(), ','))
    }
}

/// Every `Sec-Fetch-Site` token across repeated headers and comma-separated values, trimmed. Looking at
/// the first value only would let `same-origin, cross-site` through.
pub fn sec_fetch_site_values(raw: &Vec<String>) -> (r: Vec<String>)
    ensures
        crate::text::texts(r@) == site_values(crate::text::texts(raw@)),
{
    let ghost all = crate::text::texts(raw@);
    let mut r: Vec<String> = Vec::new();
    let mut i: usize = 0;
    assert(all.take(0) =~= seq![]);
    assert(crate::text::texts(r@) =~= seq![]);
    while i < raw.len()
        invariant
            i <= raw@.len(),
            all == crate::text::texts(raw@),
            crate::text::texts(r@) == site_values(all.take(i as int)),
        decreases raw@.len() - i,
    {
        let pieces = split_at_char(raw[i].as_str(), ',');
        let ghost parts = crate::text::texts(pieces@);
        let ghost start = crate::text::texts(r@);
        let mut k: usize = 0;
        assert(parts.take(0) =~= seq![]);
        assert(start + tokens(parts.take(0)) =~= start);
        while k < pieces.len()
            invariant
                k <= pieces@.len(),
                parts == crate::text::texts(pieces@),
                crate::text::texts(r@) == start + tokens(parts.take(k as int)),
            decreases pieces@.len() - k,
        {
            let t = trimmed(pieces[k].as_str());
            proof {
                assert(parts.take(k + 1).drop_last() =~= parts.take(k as int));
                assert(parts.take(k + 1).last() == parts[k as int]);
                let before = tokens(parts.take(k as int));
                assert(start + before.push(t@) =~= (start + before).push(t@));
            }
            if !t.as_str().is_empty() {
                r.push(t);
            }
            k = k + 1;
        }
        proof {
            assert(parts.take(parts.len() as int) =~= parts);
            assert(all.take(i + 1).drop_last() =~= all.take(i as int));
            assert(all.take(i + 1).last() == raw@[i as int]@);
        }
        i = i + 1;
    }
    assert(all.take(all.len() as int) =~= all);
    r
}

/// Whether a token says that another site caused the request, in either spelling and any case.
pub open spec fn hostile(token: Seq<char>) -> bool {
    let t = crate::text::lower(token);
    t == crate::text::lower("cross-site"@) || t == crate::text::lower("cross-origin"@)
}

/// Whether some token says that another site caused the request.
pub open spec fn from_elsewhere(request: RequestParts) -> bool {
    exists|i: int|
        0 <= i < site_values(crate::text::texts(request.sec_fetch_site@)).len() && hostile(
            #[trigger] site_values(crate::text::texts(request.sec_fetch_site@))[i],
        )
}

// ---------------------------------------------------------------------------
// Hosts
// ---------------------------------------------------------------------------
/// Whether the hosts are checked: some are configured, and none is the wildcard.
pub open spec fn checks_hosts(allowed: Seq<Seq<char>>) -> bool {
    allowed.len() > 0 && forall|i: int|
        0 <= i < allowed.len() ==> crate::text::trim(#[trigger] allowed[i]) != "*"@
}

/// Whether the hosts are checked.
pub fn host_check_active(allowed_hosts: &Vec<String>) -> (r: bool)
    ensures
        r == checks_hosts(crate::text::texts(allowed_hosts@)),
{
    let ghost all = crate::text::texts(allowed_hosts@);
    if allowed_hosts.len() == 0 {
        return false;
    }
    let mut i: usize = 0;
    while i < allowed_hosts.len()
        invariant
            i <= allowed_hosts@.len(),
            all == crate::text::texts(allowed_hosts@),
            forall|k: int| 0 <= k < i ==> crate::text::trim(#[trigger] all[k]) != "*"@,
        decreases allowed_hosts@.len() - i,
    {
        let entry = trimmed(allowed_hosts[i].as_str());
        assert(all[i as int] == allowed_hosts@[i as int]@);
        if same(entry.as_str(), "*") {
            return false;
        }
        i = i + 1;
    }
    true
}

/// Whether every character is a decimal digit.
pub open spec fn all_digits(s: Seq<char>) -> bool {
    forall|i: int| 0 <= i < s.len() ==> crate::numbers::is_digit(#[trigger] s[i])
}

/// A host without its port. The brackets of an IPv6 literal stay.
pub open spec fn without_port(host: Seq<char>) -> Seq<char> {
    if host.len() > 0 && host[0] == '[' {
        let k = crate::text::until(host.drop_first(), ']') as int;
        if k < host.len() - 1 {
            host.take(k + 2)
        } else {
            host
        }
    } else {
        match crate::text::cut_last(host, ':') {
            Some((name, port)) => if name.len() > 0 && port.len() > 0 && all_digits(port) {
                name
            } else {
                host
            },
            None => host,
        }
    }
}

/// Strips the port of a host, leaving the brackets of an IPv6 literal intact.
pub fn strip_port(host: &str) -> (r: String)
    ensures
        r@ == without_port(host@),
{
    let v = chars_of(host);
    if v.len() > 0 && v[0] == '[' {
        let k = crate::text::index_of(&v, 1, ']');
        assert(v@.skip(1) =~= host@.drop_first());
        if k < v.len() {
            assert(v@.subrange(0, k + 1) =~= host@.take(k + 1));
            return text_between(&v, 0, k + 1);
        }
        return copy_of(host);
    }
    match cut_at_last(host, ':') {
        Some(p) => {
            let digits = chars_of(p.1.as_str());
            let name = p.0;
            if name.as_str().is_empty() || digits.len() == 0 {
                return copy_of(host);
            }
            let mut i: usize = 0;
            while i < digits.len()
                invariant
                    i <= digits@.len(),
                    digits@ == p.1@,
                    crate::text::cut_last(host@, ':') == Some((name@, digits@)),
                    !(host@.len() > 0 && host@[0] == '['),
                    forall|k: int| 0 <= k < i ==> crate::numbers::is_digit(#[trigger] digits@[k]),
                decreases digits@.len() - i,
            {
                let c = digits[i];
                if !('0' <= c && c <= '9') {
                    assert(!crate::numbers::is_digit(digits@[i as int]));
                    return copy_of(host);
                }
                i = i + 1;
            }
            name
        },
        None => copy_of(host),
    }
}

/// Whether a host matches an allowed one, with or without its port, in any case.
pub open spec fn admits(entry: Seq<char>, host: Seq<char>) -> bool {
    let e = crate::text::trim(entry);
    e.len() > 0 && (crate::text::lower(e) == crate::text::lower(host) || crate::text::lower(e)
        == crate::text::lower(without_port(host)))
}

/// Whether `host` matches an allowed one. Operators write `localhost` where the browser sends
/// `localhost:3000`, so both forms count.
pub fn host_matches(entry: &str, host: &str) -> (r: bool)
    ensures
        r == admits(entry@, host@),
{
    let e = trimmed(entry);
    if e.as_str().is_empty() {
        return false;
    }
    let bare = strip_port(host);
    same_ignoring_case(e.as_str(), host) || same_ignoring_case(e.as_str(), bare.as_str())
}

/// Whether some allowed host matches.
pub open spec fn admitted(allowed: Seq<Seq<char>>, host: Seq<char>) -> bool {
    exists|i: int| 0 <= i < allowed.len() && admits(#[trigger] allowed[i], host)
}

// ---------------------------------------------------------------------------
// The policy
// ---------------------------------------------------------------------------
/// Why a request is refused, or nothing where it is answered.
pub open spec fn refusal(allowed: Seq<Seq<char>>, request: RequestParts) -> Option<Seq<char>> {
    if !reads_only(request.method@) && from_elsewhere(request) {
        Some(CROSS_SITE_REASON@)
    } else if checks_hosts(allowed) {
        match request.host {
            None => Some(NO_HOST_REASON@),
            Some(h) => {
                let host = crate::text::trim(h@);
                if host.len() == 0 {
                    Some(NO_HOST_REASON@)
                } else if admitted(allowed, host) {
                    None
                } else {
                    Some(FOREIGN_HOST_REASON@)
                }
            },
        }
    } else {
        None
    }
}

fn any_hostile(sites: &Vec<String>) -> (r: bool)
    ensures
        r == exists|i: int|
            0 <= i < crate::text::texts(sites@).len() && hostile(
                #[trigger] crate::text::texts(sites@)[i],
            ),
{
    let ghost all = crate::text::texts(sites@);
    let mut i: usize = 0;
    while i < sites.len()
        invariant
            i <= sites@.len(),
            all == crate::text::texts(sites@),
            forall|k: int| 0 <= k < i ==> !hostile(#[trigger] all[k]),
        decreases sites@.len() - i,
    {
        let site = sites[i].as_str();
        assert(all[i as int] == site@);
        if same_ignoring_case(site, "cross-site") || same_ignoring_case(site, "cross-origin") {
            return true;
        }
        i = i + 1;
    }
    false
}

fn any_admits(allowed_hosts: &Vec<String>, host: &str) -> (r: bool)
    ensures
        r == admitted(crate::text::texts(allowed_hosts@), host@),
{
    let ghost all = crate::text::texts(allowed_hosts@);
    let mut i: usize = 0;
    while i < allowed_hosts.len()
        invariant
            i <= allowed_hosts@.len(),
            all == crate::text::texts(allowed_hosts@),
            forall|k: int| 0 <= k < i ==> !admits(#[trigger] all[k], host@),
        decreases allowed_hosts@.len() - i,
    {
        assert(all[i as int] == allowed_hosts@[i as int]@);
        if host_matches(allowed_hosts[i].as_str(), host) {
            return true;
        }
        i = i + 1;
    }
    false
}

/// The whole policy as a function of what the guards see of a request.
pub fn rejection(allowed_hosts: &Vec<String>, request: &RequestParts) -> (r: Option<&'static str>)
    ensures
        refusal(crate::text::texts(allowed_hosts@), *request) == (match r {
            Some(s) => Some(s@),
            None => None,
        }),
{
    if !is_read_only(request.method.as_str()) {
        let sites = sec_fetch_site_values(&request.sec_fetch_site);
        if any_hostile(&sites) {
            return Some(CROSS_SITE_REASON);
        }
    }
    if host_check_active(allowed_hosts) {
        match &request.host {
            None => return Some(NO_HOST_REASON),
            Some(h) => {
                if is_blank(h.as_str()) {
                    return Some(NO_HOST_REASON);
                }
                let host = trimmed(h.as_str());
                if !any_admits(allowed_hosts, host.as_str()) {
                    return Some(FOREIGN_HOST_REASON);
                }
            },
        }
    }
    None
}

/// A submission that another site caused is refused whatever hosts are allowed.
pub proof fn cross_site_submissions_are_refused(allowed: Seq<Seq<char>>, request: RequestParts)
    requires
        !reads_only(request.method@),
        from_elsewhere(request),
    ensures
        refusal(allowed, request) == Some(CROSS_SITE_REASON@),
{
}

/// A read is never refused for the site that caused it, and neither is a request without a hostile
/// token: only the host can be the reason.
pub proof fn the_site_never_blocks_a_read(allowed: Seq<Seq<char>>, request: RequestParts)
    requires
        reads_only(request.method@) || !from_elsewhere(request),
    ensures
        !checks_hosts(allowed) ==> refusal(allowed, request) is None,
{
}

/// Without allowed hosts, or with the wildcard among them, no read is refused.
pub proof fn the_wildcard_turns_the_host_check_off(
    allowed: Seq<Seq<char>>,
    request: RequestParts,
    i: int,
)
    requires
        reads_only(request.method@),
        allowed.len() == 0 || (0 <= i < allowed.len() && crate::text::trim(allowed[i]) == "*"@),
    ensures
        refusal(allowed, request) is None,
{
}

/// With the host check on, a request is answered only for a host that an entry admits.
pub proof fn a_checked_request_names_an_allowed_host(allowed: Seq<Seq<char>>, request: RequestParts)
    requires
        checks_hosts(allowed),
        refusal(allowed, request) is None,
    ensures
        request.host matches Some(h) && admitted(allowed, crate::text::trim(h@)),
{
}

} // verus!
