//! Delivering, listing and cancelling reminders.
//!
//! Storage is read and written by the caller: it hands in the rows that are due, carries out the
//! claims that come back, and reports which of them it won.
use vstd::prelude::*;

use crate::failure::Failure;
use crate::fires::OccurrenceCount;
use crate::reminder_rows::{spec_from_reminder, Reminder, CRON, PATTERN};
use crate::reminders::{human_readable, next_fire, occurrence_count, Plan, ScheduleSpec};
use crate::server::AlexandriaServer;
use crate::text::{copy_of, copy_opt, same};
use crate::time::{minute_local, overdue_by, rfc3339_utc, Instant, Zone};
use crate::tools::{CancelReminderParams, CheckRemindersParams, ListRemindersParams};

verus! {

/// Rows `list_reminders` returns when the caller asks for no specific page size.
pub const DEFAULT_LIST_REMINDERS_LIMIT: i64 = 50;

/// Upper bound on a `list_reminders` page.
pub const MAX_LIST_REMINDERS_LIMIT: i64 = 500;

/// Rows that the read-only summary of due reminders shows.
pub const DUE_REMINDERS_CAP: i64 = 5;

/// Rows read beyond the cap, so that undeliverable rows cannot starve the summary.
pub const DUE_SAMPLE_SLACK: i64 = 10;

/// Whom a reminder is for, as responses say it.
pub open spec fn target_text(project: Option<Seq<char>>) -> Seq<char> {
    match project {
        Some(p) => "project:"@ + p,
        None => "global"@,
    }
}

fn target_of(project: &Option<String>) -> (r: String)
    ensures
        r@ == target_text(crate::text::opt_text(*project)),
{
    match project {
        Some(p) => {
            let mut r = copy_of("project:");
            r.append(p.as_str());
            r
        },
        None => copy_of("global"),
    }
}

/// An optional instant in the form that responses carry.
pub open spec fn opt_rfc3339(t: Option<Instant>) -> Option<Seq<char>> {
    match t {
        Some(t) => Some(crate::time::rfc3339_text(t)),
        None => None,
    }
}

/// An optional instant as clocks in a zone show it.
pub open spec fn opt_local(t: Option<Instant>, zone: Seq<char>) -> Option<Seq<char>> {
    match t {
        Some(t) => Some(crate::time::clock_text(t, zone, crate::time::LOCAL_FORMAT@)),
        None => None,
    }
}

fn opt_utc_text(t: Option<Instant>) -> (r: Option<String>)
    ensures
        crate::text::opt_text(r) == opt_rfc3339(t),
{
    match t {
        Some(t) => Some(rfc3339_utc(t)),
        None => None,
    }
}

fn opt_local_text(t: Option<Instant>, zone: &Zone) -> (r: Option<String>)
    ensures
        crate::text::opt_text(r) == opt_local(t, zone@),
{
    match t {
        Some(t) => Some(minute_local(t, zone)),
        None => None,
    }
}

// ---------------------------------------------------------------------------
// Delivery
// ---------------------------------------------------------------------------
/// Why a due row is passed over. It stays pending, so a later check tries it again.
#[derive(Debug)]
pub enum SkipReason {
    /// There is nothing to record a delivery against.
    NoId,
    /// The row's schedule cannot be reconstructed.
    Unreadable(Failure),
    /// A row without a due time has no age, so it can be neither held nor escalated.
    NoDueTime,
    /// Counting the missed fires failed.
    Coalescing(Failure),
    /// Finding the next fire failed.
    Advancing(Failure),
}

/// What a delivered reminder carries.
#[derive(Debug)]
pub struct Delivery {
    pub id: String,
    pub message: String,
    pub target: String,
    pub escalated: bool,
    pub recurring: bool,
    pub missed_occurrences: u64,
    /// The number of missed occurrences is a lower bound.
    pub missed_occurrences_saturated: bool,
    pub due_at: String,
    pub schedule: String,
    pub note: Option<String>,
    pub prov_project: Option<String>,
    pub prov_session_id: Option<String>,
    pub next_due_at: Option<String>,
    pub timezone: String,
    pub due_at_local: String,
    pub next_due_at_local: Option<String>,
}

/// What to do with a due row.
#[derive(Debug)]
pub enum RowDecision {
    Skip(SkipReason),
    /// Wait for a caller from the row's project.
    Hold,
    /// Claim the row: the write may only land while the row is pending and still due at `expected`.
    /// A won claim delivers.
    Claim { id: String, expected: Instant, new_next: Option<Instant>, delivery: Delivery },
}

/// Whether a row is for another project than the caller's. Names match exactly.
pub open spec fn elsewhere(target: Option<Seq<char>>, project: Option<Seq<char>>) -> bool {
    target is Some && project != target
}

/// Whether a row of age `due` to `now` has waited long enough for its own project: at least the
/// window, so a window of zero hours escalates whatever is due.
pub open spec fn escalates(now: Instant, due: Instant, hours: u64) -> bool {
    crate::time::elapsed_nanos(now, due) >= hours * 3_600_000_000_000
}

/// What comes of a due row.
pub enum Verdict {
    NoId,
    Unreadable { why: Seq<Seq<char>> },
    NoDueTime,
    Held,
    Coalescing { why: Seq<Seq<char>> },
    Advancing { why: Seq<Seq<char>> },
    Due { plan: Plan, due: Instant, escalated: bool, missed: OccurrenceCount, next: Option<Instant> },
}

/// The next time a delivered row is due: a one-shot is done.
pub open spec fn advanced(plan: Plan, now: Instant, zone: Seq<char>) -> Result<
    Option<Instant>,
    Seq<Seq<char>>,
> {
    if plan is Once {
        Ok(None)
    } else {
        crate::reminders::first_fire(plan, now, zone)
    }
}

/// What comes of a row for a caller from `project`: its schedule is read before anything else is
/// decided, a row for another project waits until it escalates, and the fires between its due time
/// and now are counted as missed.
pub open spec fn verdict(
    r: Reminder,
    project: Option<Seq<char>>,
    zone: Seq<char>,
    hours: u64,
    now: Instant,
) -> Verdict {
    if r.id is None {
        Verdict::NoId
    } else {
        match crate::reminder_rows::reminder_read(r) {
            Err(why) => Verdict::Unreadable { why },
            Ok(plan) => match r.next_due_at {
                None => Verdict::NoDueTime,
                Some(due) => {
                    let away = elsewhere(crate::text::opt_text(r.target_project), project);
                    if away && !escalates(now, due, hours) {
                        Verdict::Held
                    } else {
                        match crate::reminders::missed(plan, due, now, zone) {
                            Err(why) => Verdict::Coalescing { why },
                            Ok(missed) => match advanced(plan, now, zone) {
                                Err(why) => Verdict::Advancing { why },
                                Ok(next) => Verdict::Due { plan, due, escalated: away, missed, next },
                            },
                        }
                    }
                },
            },
        }
    }
}

/// Whether a delivery carries what a row and a verdict of `Due` say.
pub open spec fn carries(
    d: Delivery,
    r: Reminder,
    zone: Seq<char>,
    plan: Plan,
    due: Instant,
    escalated: bool,
    missed: OccurrenceCount,
    next: Option<Instant>,
) -> bool {
    &&& Some(d.id@) == crate::text::opt_text(r.id)
    &&& d.message@ == r.message@
    &&& d.target@ == target_text(crate::text::opt_text(r.target_project))
    &&& d.escalated == escalated
    &&& d.recurring == !(plan is Once)
    &&& d.missed_occurrences == missed.count
    &&& d.missed_occurrences_saturated == missed.saturated
    &&& d.due_at@ == crate::time::rfc3339_text(due)
    &&& d.schedule@ == crate::reminders::in_words(plan)
    &&& crate::text::opt_text(d.note) == crate::text::opt_text(r.note)
    &&& crate::text::opt_text(d.prov_project) == crate::text::opt_text(r.prov_project)
    &&& crate::text::opt_text(d.prov_session_id) == crate::text::opt_text(r.prov_session_id)
    &&& crate::text::opt_text(d.next_due_at) == opt_rfc3339(next)
    &&& d.timezone@ == zone
    &&& d.due_at_local@ == crate::time::clock_text(due, zone, crate::time::LOCAL_FORMAT@)
    &&& crate::text::opt_text(d.next_due_at_local) == opt_local(next, zone)
}

/// Whether a decision is the one that a verdict on a row calls for.
pub open spec fn follows(d: RowDecision, v: Verdict, r: Reminder, zone: Seq<char>) -> bool {
    match v {
        Verdict::NoId => d matches RowDecision::Skip(s) && s is NoId,
        Verdict::Unreadable { why } => d matches RowDecision::Skip(SkipReason::Unreadable(f)) && f@
            == why,
        Verdict::NoDueTime => d matches RowDecision::Skip(s) && s is NoDueTime,
        Verdict::Held => d is Hold,
        Verdict::Coalescing { why } => d matches RowDecision::Skip(SkipReason::Coalescing(f)) && f@
            == why,
        Verdict::Advancing { why } => d matches RowDecision::Skip(SkipReason::Advancing(f)) && f@
            == why,
        Verdict::Due { plan, due, escalated, missed, next } => d matches RowDecision::Claim {
            id,
            expected,
            new_next,
            delivery,
        } && Some(id@) == crate::text::opt_text(r.id) && expected == due && new_next == next
            && carries(delivery, r, zone, plan, due, escalated, missed, next),
    }
}

impl AlexandriaServer {
    /// Decides what to do with one due row.
    pub fn check_row(&self, r: &Reminder, params: &CheckRemindersParams, now: Instant) -> (d:
        RowDecision)
        requires
            now.evaluable(),
        ensures
            follows(
                d,
                verdict(
                    *r,
                    crate::text::opt_text(params.project),
                    self.reminders.tz@,
                    self.reminders.escalation_hours,
                    now,
                ),
                *r,
                self.reminders.tz@,
            ),
    {
        let tz = &self.reminders.tz;
        let id = match &r.id {
            None => return RowDecision::Skip(SkipReason::NoId),
            Some(id) => id,
        };
        let spec = match spec_from_reminder(r) {
            Err(e) => return RowDecision::Skip(SkipReason::Unreadable(e)),
            Ok(s) => s,
        };
        let due = match r.next_due_at {
            None => return RowDecision::Skip(SkipReason::NoDueTime),
            Some(t) => t,
        };
        let recurring = match &spec {
            ScheduleSpec::Once { .. } => false,
            _ => true,
        };
        let escalated = match &r.target_project {
            None => false,
            Some(target) => match &params.project {
                None => true,
                Some(project) => !same(project.as_str(), target.as_str()),
            },
        };
        if escalated && !overdue_by(now, due, self.reminders.escalation_hours) {
            return RowDecision::Hold;
        }
        let missed = match occurrence_count(&spec, due, now, tz) {
            Err(e) => return RowDecision::Skip(SkipReason::Coalescing(e)),
            Ok(n) => n,
        };
        let new_next = if recurring {
            match next_fire(&spec, now, tz) {
                Err(e) => return RowDecision::Skip(SkipReason::Advancing(e)),
                Ok(next) => next,
            }
        } else {
            None
        };
        let delivery = Delivery {
            id: copy_of(id.as_str()),
            message: copy_of(r.message.as_str()),
            target: target_of(&r.target_project),
            escalated,
            recurring,
            missed_occurrences: missed.count,
            missed_occurrences_saturated: missed.saturated,
            due_at: rfc3339_utc(due),
            schedule: human_readable(&spec),
            note: copy_opt(&r.note),
            prov_project: copy_opt(&r.prov_project),
            prov_session_id: copy_opt(&r.prov_session_id),
            next_due_at: opt_utc_text(new_next),
            timezone: copy_of(tz.name()),
            due_at_local: minute_local(due, tz),
            next_due_at_local: opt_local_text(new_next, tz),
        };
        RowDecision::Claim { id: copy_of(id.as_str()), expected: due, new_next, delivery }
    }

    /// Decides what to do with each of the due rows. One row never affects another.
    pub fn do_check_reminders(
        &self,
        due: &Vec<Reminder>,
        params: &CheckRemindersParams,
        now: Instant,
    ) -> (r: Vec<RowDecision>)
        requires
            now.evaluable(),
        ensures
            r@.len() == due@.len(),
            forall|i: int|
                0 <= i < due@.len() ==> follows(
                    #[trigger] r@[i],
                    verdict(
                        due@[i],
                        crate::text::opt_text(params.project),
                        self.reminders.tz@,
                        self.reminders.escalation_hours,
                        now,
                    ),
                    due@[i],
                    self.reminders.tz@,
                ),
    {
        let mut r: Vec<RowDecision> = Vec::new();
        let mut i: usize = 0;
        while i < due.len()
            invariant
                now.evaluable(),
                i <= due@.len(),
                r@.len() == i,
                forall|k: int|
                    0 <= k < i ==> follows(
                        #[trigger] r@[k],
                        verdict(
                            due@[k],
                            crate::text::opt_text(params.project),
                            self.reminders.tz@,
                            self.reminders.escalation_hours,
                            now,
                        ),
                        due@[k],
                        self.reminders.tz@,
                    ),
            decreases due@.len() - i,
        {
            let d = self.check_row(&due[i], params, now);
            r.push(d);
            i = i + 1;
        }
        r
    }
}

/// The outcome of a claim write.
#[derive(Clone, Copy, Debug, PartialEq, Eq, Structural)]
pub enum ClaimOutcome {
    /// The write landed: this call owns the delivery.
    Won,
    /// Another check consumed the row, or it was cancelled.
    Lost,
    /// The write failed; the row stays pending.
    Failed,
}

/// The deliveries of the decisions whose claim was won, in order.
pub open spec fn delivered(decisions: Seq<RowDecision>, outcomes: Seq<ClaimOutcome>) -> Seq<Delivery>
    decreases decisions.len(),
{
    if decisions.len() == 0 {
        seq![]
    } else {
        let before = delivered(decisions.drop_last(), outcomes);
        match decisions.last() {
            RowDecision::Claim { delivery, .. } => if decisions.len() <= outcomes.len()
                && outcomes[decisions.len() - 1] == ClaimOutcome::Won {
                before.push(delivery)
            } else {
                before
            },
            _ => before,
        }
    }
}

/// Collects what was delivered: exactly the rows whose claim was won. `outcomes` holds one entry per
/// decision; those of rows that were not claimed are not looked at.
pub fn collect_delivered(decisions: Vec<RowDecision>, outcomes: &Vec<ClaimOutcome>) -> (r: Vec<
    Delivery,
>)
    requires
        decisions@.len() == outcomes@.len(),
    ensures
        r@ == delivered(decisions@, outcomes@),
        forall|k: int|
            0 <= k < decisions@.len() && (#[trigger] decisions@[k]) is Claim && outcomes@[k]
                == ClaimOutcome::Won ==> r@.contains(decisions@[k]->delivery),
        forall|i: int|
            0 <= i < r@.len() ==> exists|k: int|
                0 <= k < decisions@.len() && (#[trigger] decisions@[k]) is Claim && outcomes@[k]
                    == ClaimOutcome::Won && #[trigger] r@[i] == decisions@[k]->delivery,
{
    let ghost all = decisions@;
    let mut rest = decisions;
    let mut r: Vec<Delivery> = Vec::new();
    let mut tail: Vec<Delivery> = Vec::new();
    assert(all.take(all.len() as int) =~= all);
    assert(delivered(all, outcomes@) + tail@.reverse() =~= delivered(all, outcomes@));
    while rest.len() > 0
        invariant
            rest@.len() <= all.len(),
            all.len() == outcomes@.len(),
            rest@ == all.take(rest@.len() as int),
            delivered(all, outcomes@) == delivered(rest@, outcomes@) + tail@.reverse(),
        decreases rest@.len(),
    {
        let k = rest.len() - 1;
        let ghost before = rest@;
        let ghost shown = tail@;
        let last = rest.pop();
        assert(rest@ =~= before.drop_last());
        assert(rest@ =~= all.take(k as int));
        match last {
            Some(RowDecision::Claim { delivery, .. }) => {
                if outcomes[k] == ClaimOutcome::Won {
                    tail.push(delivery);
                    assert(delivered(before, outcomes@) + shown.reverse() =~= delivered(
                        rest@,
                        outcomes@,
                    ) + tail@.reverse());
                }
            },
            _ => {},
        }
    }
    let ghost whole = tail@.reverse();
    assert(delivered(all, outcomes@) =~= whole);
    let ghost n = tail@.len();
    while tail.len() > 0
        invariant
            tail@.len() + r@.len() == n,
            whole.len() == n,
            whole == r@ + tail@.reverse(),
        decreases tail@.len(),
    {
        let ghost shown = tail@;
        let ghost done = r@;
        let d = tail.pop();
        match d {
            Some(d) => {
                r.push(d);
                assert(done + shown.reverse() =~= r@ + tail@.reverse());
            },
            None => {},
        }
    }
    assert(r@ =~= whole);
    proof {
        let at = crate::laws::delivery::every_won_claim_is_delivered(all, outcomes@);
        assert forall|k: int|
            0 <= k < all.len() && (#[trigger] all[k]) is Claim && outcomes@[k]
                == ClaimOutcome::Won implies r@.contains(all[k]->delivery) by {
            let i = choose|i: int| 0 <= i < at.len() && at[i] == k;
            assert(r@[i] == all[at[i]]->delivery);
        }
        assert forall|i: int| 0 <= i < r@.len() implies exists|k: int|
            0 <= k < all.len() && (#[trigger] all[k]) is Claim && outcomes@[k] == ClaimOutcome::Won
                && #[trigger] r@[i] == all[k]->delivery by {
            assert(all[at[i]] is Claim);
        }
    }
    r
}

/// A reminder for no project in particular is never held, and neither is one for the caller's own.
pub proof fn global_and_matching_reminders_are_never_held(
    r: Reminder,
    project: Option<Seq<char>>,
    zone: Seq<char>,
    hours: u64,
    now: Instant,
)
    requires
        r.target_project is None || crate::text::opt_text(r.target_project) == project,
    ensures
        !(verdict(r, project, zone, hours, now) is Held),
        verdict(r, project, zone, hours, now) matches Verdict::Due { escalated, .. } ==> !escalated,
{
}

/// The escalation window is inclusive: exactly `hours` hours after its due time a row escalates. With
/// a window of zero hours no row that is due is held.
pub proof fn escalation_is_inclusive(now: Instant, due: Instant, hours: u64)
    requires
        now.nanos() < 1_000_000_000,
        due.nanos() < 1_000_000_000,
    ensures
        now.secs() == due.secs() + hours * 3600 && now.nanos() == due.nanos() ==> escalates(
            now,
            due,
            hours,
        ),
        hours == 0 && !due.after(now) ==> escalates(now, due, hours),
        hours > 0 && due.after(now) ==> !escalates(now, due, hours),
{
    crate::time::lemma_nanos_range(now);
    crate::time::lemma_nanos_range(due);
}

/// A delivered recurring reminder never comes due again at or before the time of the check, and a
/// delivered one-shot never does.
pub proof fn delivery_moves_forward(
    r: Reminder,
    project: Option<Seq<char>>,
    zone: Seq<char>,
    hours: u64,
    now: Instant,
)
    ensures
        verdict(r, project, zone, hours, now) matches Verdict::Due { plan, next, .. } ==> {
            &&& plan is Once ==> next is None
            &&& next matches Some(t) ==> t.after(now)
        },
{
    if let Ok(plan) = crate::reminder_rows::reminder_read(r) {
        crate::reminders::upcoming_fires_are_later(plan, now, zone, 1);
    }
}

/// What a claim looks at in a stored row.
pub struct RowState {
    pub pending: bool,
    pub next_due_at: Option<Instant>,
}

/// Whether a claim lands: the row is still pending, and due at the time that was read.
pub open spec fn lands(row: RowState, expected: Instant) -> bool {
    row.pending && row.next_due_at == Some(expected)
}

/// A row after a claim: a landed one moves it to its next time, or retires it where there is none.
pub open spec fn claimed(row: RowState, expected: Instant, new_next: Option<Instant>) -> RowState {
    if !lands(row, expected) {
        row
    } else {
        match new_next {
            Some(t) => RowState { pending: true, next_due_at: Some(t) },
            None => RowState { pending: false, ..row },
        }
    }
}

/// Overlapping checks never deliver the same occurrence twice: of two claims that read the same due time,
/// whatever their callers, at most one lands. A row that was cancelled or delivered in the meantime is
/// left as it is.
pub proof fn no_occurrence_is_delivered_twice(
    r: Reminder,
    project: Option<Seq<char>>,
    zone: Seq<char>,
    hours: u64,
    now: Instant,
    row: RowState,
)
    requires
        r.next_due_at matches Some(due) ==> !due.after(now),
    ensures
        verdict(r, project, zone, hours, now) matches Verdict::Due { due, next, .. } ==> {
            &&& lands(row, due) ==> !lands(claimed(row, due, next), due)
            &&& !row.pending ==> claimed(row, due, next) == row
        },
{
    delivery_moves_forward(r, project, zone, hours, now);
}

/// Whether `d` is what decision `k` delivers, its claim having been won.
pub open spec fn won(
    decisions: Seq<RowDecision>,
    outcomes: Seq<ClaimOutcome>,
    k: int,
    d: Delivery,
) -> bool {
    &&& 0 <= k < decisions.len()
    &&& k < outcomes.len()
    &&& outcomes[k] == ClaimOutcome::Won
    &&& decisions[k] is Claim
    &&& decisions[k]->delivery == d
}

/// Whether `d` is what one of the won claims delivers.
pub open spec fn from_a_won_claim(
    decisions: Seq<RowDecision>,
    outcomes: Seq<ClaimOutcome>,
    d: Delivery,
) -> bool {
    exists|k: int| won(decisions, outcomes, k, d)
}

/// At most one delivery comes of each decision, and none of a row that was skipped, held or lost.
pub proof fn only_won_claims_deliver(decisions: Seq<RowDecision>, outcomes: Seq<ClaimOutcome>)
    ensures
        delivered(decisions, outcomes).len() <= decisions.len(),
        forall|i: int|
            0 <= i < delivered(decisions, outcomes).len() ==> from_a_won_claim(
                decisions,
                outcomes,
                #[trigger] delivered(decisions, outcomes)[i],
            ),
    decreases decisions.len(),
{
    let all = delivered(decisions, outcomes);
    if decisions.len() > 0 {
        let front = decisions.drop_last();
        only_won_claims_deliver(front, outcomes);
        let before = delivered(front, outcomes);
        assert forall|i: int| 0 <= i < all.len() implies from_a_won_claim(
            decisions,
            outcomes,
            #[trigger] all[i],
        ) by {
            if i < before.len() {
                assert(all[i] == before[i]);
                assert(from_a_won_claim(front, outcomes, before[i]));
                let k = choose|k: int| won(front, outcomes, k, before[i]);
                assert(won(decisions, outcomes, k, all[i]));
            } else {
                assert(won(decisions, outcomes, decisions.len() - 1, all[i]));
            }
        }
    }
}

// ---------------------------------------------------------------------------
// Listing
// ---------------------------------------------------------------------------
/// What `list_reminders` asks storage for.
#[derive(Debug)]
pub struct ListQuery {
    /// The status to keep, or all of them.
    pub status: Option<String>,
    pub target_project: Option<String>,
    pub limit: i64,
    pub offset: i64,
}

/// The status to filter by: pending unless asked otherwise, and `all` for no filter.
pub open spec fn status_filter(status: Option<Seq<char>>) -> Option<Seq<char>> {
    match status {
        None => Some("pending"@),
        Some(s) => if s == "all"@ {
            None
        } else {
            Some(s)
        },
    }
}

/// The page size: the one asked for, held between 1 and the maximum.
pub open spec fn page_limit(limit: Option<i64>) -> int {
    let n = match limit {
        Some(n) => n as int,
        None => DEFAULT_LIST_REMINDERS_LIMIT as int,
    };
    if n < 1 {
        1
    } else if n > MAX_LIST_REMINDERS_LIMIT {
        MAX_LIST_REMINDERS_LIMIT as int
    } else {
        n
    }
}

/// How many rows to skip: never fewer than none.
pub open spec fn page_offset(offset: Option<i64>) -> int {
    match offset {
        Some(n) => if n < 0 {
            0
        } else {
            n as int
        },
        None => 0,
    }
}

/// What a list request asks storage for.
pub fn list_query(params: &ListRemindersParams) -> (q: ListQuery)
    ensures
        crate::text::opt_text(q.status) == status_filter(crate::text::opt_text(params.status)),
        crate::text::opt_text(q.target_project) == crate::text::opt_text(params.target_project),
        q.limit == page_limit(params.limit),
        q.offset == page_offset(params.offset),
        1 <= q.limit <= MAX_LIST_REMINDERS_LIMIT,
        q.offset >= 0,
{
    let status = match &params.status {
        None => Some(copy_of("pending")),
        Some(s) => if same(s.as_str(), "all") {
            None
        } else {
            Some(copy_of(s.as_str()))
        },
    };
    let asked: i64 = match params.limit {
        Some(n) => n,
        None => DEFAULT_LIST_REMINDERS_LIMIT,
    };
    let limit: i64 = if asked < 1 {
        1
    } else if asked > MAX_LIST_REMINDERS_LIMIT {
        MAX_LIST_REMINDERS_LIMIT
    } else {
        asked
    };
    let offset: i64 = match params.offset {
        Some(n) => if n < 0 {
            0
        } else {
            n
        },
        None => 0,
    };
    ListQuery { status, target_project: copy_opt(&params.target_project), limit, offset }
}

/// A row as `list_reminders` shows it.
#[derive(Debug)]
pub struct ListedReminder {
    pub id: String,
    pub message: String,
    pub target: String,
    pub status: String,
    pub schedule: String,
    pub next_due_at: Option<String>,
    pub next_due_at_local: Option<String>,
    pub recurring: bool,
    pub delivered_count: i64,
    pub last_delivered_at: Option<String>,
    pub note: Option<String>,
    pub prov_project: Option<String>,
    pub prov_session_id: Option<String>,
    pub created_at: Option<String>,
}

/// The schedule of a row in words, or why it has none: a corrupt row is still listed.
pub open spec fn schedule_shown(r: Reminder) -> Seq<char> {
    match crate::reminder_rows::reminder_read(r) {
        Ok(plan) => crate::reminders::in_words(plan),
        Err(e) => "<invalid schedule: "@ + e[0] + ">"@,
    }
}

/// Whether a row repeats, by its stored kind: a corrupt row has no schedule to ask.
pub open spec fn stored_as_recurring(r: Reminder) -> bool {
    r.schedule_kind@ == PATTERN@ || r.schedule_kind@ == CRON@
}

/// Whether a listed row shows what is stored.
pub open spec fn shows(l: ListedReminder, r: Reminder, zone: Seq<char>) -> bool {
    &&& l.id@ == (match r.id {
        Some(id) => id@,
        None => ""@,
    })
    &&& l.message@ == r.message@
    &&& l.target@ == target_text(crate::text::opt_text(r.target_project))
    &&& l.status@ == r.status@
    &&& l.schedule@ == schedule_shown(r)
    &&& crate::text::opt_text(l.next_due_at) == opt_rfc3339(r.next_due_at)
    &&& crate::text::opt_text(l.next_due_at_local) == opt_local(r.next_due_at, zone)
    &&& l.recurring == stored_as_recurring(r)
    &&& l.delivered_count == r.delivered_count
    &&& crate::text::opt_text(l.last_delivered_at) == opt_rfc3339(r.last_delivered_at)
    &&& crate::text::opt_text(l.note) == crate::text::opt_text(r.note)
    &&& crate::text::opt_text(l.prov_project) == crate::text::opt_text(r.prov_project)
    &&& crate::text::opt_text(l.prov_session_id) == crate::text::opt_text(r.prov_session_id)
    &&& crate::text::opt_text(l.created_at) == opt_rfc3339(r.created_at)
}

/// A page of listed reminders.
#[derive(Debug)]
pub struct ListPage {
    pub count: usize,
    pub limit: i64,
    pub offset: i64,
    pub truncated: bool,
    pub next_offset: Option<i64>,
    pub timezone: String,
    pub reminders: Vec<ListedReminder>,
}

/// For every row that can be read, the kind stored with it says whether its schedule repeats.
pub proof fn a_readable_row_repeats_as_stored(r: Reminder)
    ensures
        crate::reminder_rows::reminder_read(r) matches Ok(plan) ==> stored_as_recurring(r) == !(
        plan is Once),
{
    reveal_strlit("once");
    reveal_strlit("pattern");
    reveal_strlit("cron");
    assert("cron"@[0] == 'c' && "once"@[0] == 'o' && "pattern"@[0] == 'p');
}

fn id_or_empty(id: &Option<String>) -> (r: String)
    ensures
        r@ == (match *id {
            Some(id) => id@,
            None => ""@,
        }),
{
    match id {
        Some(id) => copy_of(id.as_str()),
        None => copy_of(""),
    }
}

fn listed(r: &Reminder, tz: &Zone) -> (l: ListedReminder)
    ensures
        shows(l, *r, tz@),
{
    let schedule = match spec_from_reminder(r) {
        Ok(spec) => human_readable(&spec),
        Err(e) => {
            let mut m = copy_of("<invalid schedule: ");
            assert(e@.len() == 1);
            m.append(e.chain[0].as_str());
            m.append(">");
            m
        },
    };
    let kind = r.schedule_kind.as_str();
    ListedReminder {
        id: id_or_empty(&r.id),
        message: copy_of(r.message.as_str()),
        target: target_of(&r.target_project),
        status: copy_of(r.status.as_str()),
        schedule,
        next_due_at: opt_utc_text(r.next_due_at),
        next_due_at_local: opt_local_text(r.next_due_at, tz),
        recurring: same(kind, PATTERN) || same(kind, CRON),
        delivered_count: r.delivered_count,
        last_delivered_at: opt_utc_text(r.last_delivered_at),
        note: copy_opt(&r.note),
        prov_project: copy_opt(&r.prov_project),
        prov_session_id: copy_opt(&r.prov_session_id),
        created_at: opt_utc_text(r.created_at),
    }
}

impl AlexandriaServer {
    /// The page of reminders that storage returned for a query. Nothing is left out for being
    /// unreadable.
    pub fn do_list_reminders(&self, query: &ListQuery, rows: &Vec<Reminder>, truncated: bool) -> (p:
        ListPage)
        requires
            truncated ==> query.offset + query.limit <= i64::MAX,
            query.limit >= 1,
            query.offset >= 0,
        ensures
            p.count == rows@.len(),
            p.limit == query.limit,
            p.offset == query.offset,
            p.truncated == truncated,
            truncated ==> p.next_offset == Some((query.offset + query.limit) as i64),
            !truncated ==> p.next_offset is None,
            p.timezone@ == self.reminders.tz@,
            p.reminders@.len() == rows@.len(),
            forall|i: int|
                0 <= i < rows@.len() ==> shows(
                    #[trigger] p.reminders@[i],
                    rows@[i],
                    self.reminders.tz@,
                ),
    {
        let mut reminders: Vec<ListedReminder> = Vec::new();
        let mut i: usize = 0;
        while i < rows.len()
            invariant
                i <= rows@.len(),
                reminders@.len() == i,
                forall|k: int|
                    0 <= k < i ==> shows(#[trigger] reminders@[k], rows@[k], self.reminders.tz@),
            decreases rows@.len() - i,
        {
            let l = listed(&rows[i], &self.reminders.tz);
            reminders.push(l);
            i = i + 1;
        }
        ListPage {
            count: rows.len(),
            limit: query.limit,
            offset: query.offset,
            truncated,
            next_offset: if truncated {
                Some(query.offset + query.limit)
            } else {
                None
            },
            timezone: copy_of(self.reminders.tz.name()),
            reminders,
        }
    }
}

// ---------------------------------------------------------------------------
// Cancelling
// ---------------------------------------------------------------------------
/// What to do about a request to cancel.
#[derive(Debug)]
pub enum CancelDecision {
    /// No such reminder: a typo or a stale reference.
    Refuse(Failure),
    /// Already cancelled: succeed without moving the time of the first cancel.
    Done,
    /// Mark the row cancelled.
    Cancel,
}

impl AlexandriaServer {
    /// Retires a reminder by its ID, given the row that the ID names. Every status but `cancelled` can be
    /// cancelled; cancelling again is a success that changes nothing.
    pub fn do_cancel_reminder(
        &self,
        params: &CancelReminderParams,
        existing: &Option<Reminder>,
    ) -> (d: CancelDecision)
        ensures
            match *existing {
                None => d matches CancelDecision::Refuse(f) && f@ == seq![
                    "Reminder not found: "@ + params.id@,
                ],
                Some(r) => if r.status@ == "cancelled"@ {
                    d is Done
                } else {
                    d is Cancel
                },
            },
    {
        match existing {
            None => {
                let mut m = copy_of("Reminder not found: ");
                m.append(params.id.as_str());
                CancelDecision::Refuse(Failure::new(m))
            },
            Some(r) => if same(r.status.as_str(), "cancelled") {
                CancelDecision::Done
            } else {
                CancelDecision::Cancel
            },
        }
    }
}

// ---------------------------------------------------------------------------
// The read-only summary
// ---------------------------------------------------------------------------
/// A due reminder as memory responses show it.
#[derive(Debug)]
pub struct DueReminder {
    pub id: String,
    pub message: String,
    pub target: String,
    pub due_at: Option<String>,
}

/// A due reminder as plain text.
#[verifier::ext_equal]
pub struct DueText {
    pub id: Seq<char>,
    pub message: Seq<char>,
    pub target: Seq<char>,
    pub due_at: Option<Seq<char>>,
}

impl View for DueReminder {
    type V = DueText;

    open spec fn view(&self) -> DueText {
        DueText {
            id: self.id@,
            message: self.message@,
            target: self.target@,
            due_at: crate::text::opt_text(self.due_at),
        }
    }
}

/// The texts of a list of due reminders.
pub open spec fn due_texts(v: Seq<DueReminder>) -> Seq<DueText> {
    v.map_values(|d: DueReminder| d@)
}

/// What the summary says of a row.
pub open spec fn due_text(r: Reminder) -> DueText {
    DueText {
        id: match r.id {
            Some(id) => id@,
            None => ""@,
        },
        message: r.message@,
        target: target_text(crate::text::opt_text(r.target_project)),
        due_at: opt_rfc3339(r.next_due_at),
    }
}

/// The summary of the rows that can be read, in their order.
pub open spec fn readable(rows: Seq<Reminder>) -> Seq<DueText>
    decreases rows.len(),
{
    if rows.len() == 0 {
        seq![]
    } else {
        let before = readable(rows.drop_last());
        match crate::reminder_rows::reminder_read(rows.last()) {
            Ok(_) => before.push(due_text(rows.last())),
            Err(_) => before,
        }
    }
}

proof fn lemma_readable_prefix(rows: Seq<Reminder>, k: int)
    requires
        0 <= k <= rows.len(),
    ensures
        readable(rows.take(k)).len() <= readable(rows).len(),
        readable(rows.take(k)) == readable(rows).take(readable(rows.take(k)).len() as int),
    decreases rows.len(),
{
    let p = readable(rows.take(k));
    if k == rows.len() {
        assert(rows.take(k) =~= rows);
        assert(p.take(p.len() as int) =~= p);
    } else {
        lemma_readable_prefix(rows.drop_last(), k);
        assert(rows.drop_last().take(k) =~= rows.take(k));
        assert(readable(rows).take(p.len() as int) =~= readable(rows.drop_last()).take(
            p.len() as int,
        ));
    }
}

/// How many due rows to read for a summary of `cap` rows.
pub fn due_sample_size(cap: usize) -> (n: i64)
    requires
        cap + DUE_SAMPLE_SLACK <= i64::MAX,
    ensures
        n == cap + DUE_SAMPLE_SLACK,
        n == cap + 10,
{
    cap as i64 + DUE_SAMPLE_SLACK
}

/// The read-only summary of due reminders that memory responses carry: the first `cap` rows that can
/// be read. Rows that cannot be read are dropped before the cap is applied.
pub fn due_reminders_summary(rows: &Vec<Reminder>, cap: usize) -> (r: Vec<DueReminder>)
    ensures
        due_texts(r@) == (if readable(rows@).len() <= cap {
            readable(rows@)
        } else {
            readable(rows@).take(cap as int)
        }),
{
    let mut r: Vec<DueReminder> = Vec::new();
    let mut i: usize = 0;
    while i < rows.len() && r.len() < cap
        invariant
            i <= rows@.len(),
            r@.len() <= cap,
            due_texts(r@) == readable(rows@.take(i as int)),
        decreases rows@.len() - i,
    {
        let row = &rows[i];
        assert(rows@.take(i + 1).drop_last() =~= rows@.take(i as int));
        match spec_from_reminder(row) {
            Ok(_) => {
                let d = DueReminder {
                    id: id_or_empty(&row.id),
                    message: copy_of(row.message.as_str()),
                    target: target_of(&row.target_project),
                    due_at: opt_utc_text(row.next_due_at),
                };
                assert(due_texts(r@.push(d)) =~= due_texts(r@).push(d@));
                r.push(d);
            },
            Err(_) => {},
        }
        i = i + 1;
    }
    proof {
        lemma_readable_prefix(rows@, i as int);
        assert(due_texts(r@).len() == r@.len());
        if i == rows@.len() {
            assert(rows@.take(i as int) =~= rows@);
        }
        let all = readable(rows@);
        assert(all.take(all.len() as int) =~= all);
    }
    r
}

} // verus!
