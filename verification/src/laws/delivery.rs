//! What checking, listing and summing up reminders is for.
use vstd::prelude::*;

use crate::delivery::{
    claimed, delivered, due_text, due_texts, follows, page_limit, page_offset, readable, shows,
    status_filter, verdict, ClaimOutcome, DueReminder, DueText, ListedReminder, RowDecision,
    RowState,
};
use crate::reminder_rows::{reminder_read, Reminder};
use crate::text::opt_text;
use crate::time::Instant;

verus! {

/// Every claim that was won delivers, and nothing else does: delivery `i` is that of decision `at[i]`, in
/// the order of the decisions, and no won claim is missing.
pub proof fn every_won_claim_is_delivered(
    decisions: Seq<RowDecision>,
    outcomes: Seq<ClaimOutcome>,
) -> (at: Seq<int>)
    requires
        decisions.len() == outcomes.len(),
    ensures
        at.len() == delivered(decisions, outcomes).len(),
        forall|i: int|
            0 <= i < at.len() ==> {
                &&& 0 <= #[trigger] at[i] < decisions.len()
                &&& outcomes[at[i]] == ClaimOutcome::Won
                &&& decisions[at[i]] is Claim
                &&& delivered(decisions, outcomes)[i] == decisions[at[i]]->delivery
            },
        forall|i: int, j: int| 0 <= i < j < at.len() ==> #[trigger] at[i] < #[trigger] at[j],
        forall|k: int|
            0 <= k < decisions.len() && (#[trigger] decisions[k]) is Claim && outcomes[k]
                == ClaimOutcome::Won ==> at.contains(k),
{
    lemma_won(decisions, outcomes)
}

proof fn lemma_won(decisions: Seq<RowDecision>, outcomes: Seq<ClaimOutcome>) -> (at: Seq<int>)
    requires
        decisions.len() <= outcomes.len(),
    ensures
        at.len() == delivered(decisions, outcomes).len(),
        forall|i: int|
            0 <= i < at.len() ==> {
                &&& 0 <= #[trigger] at[i] < decisions.len()
                &&& outcomes[at[i]] == ClaimOutcome::Won
                &&& decisions[at[i]] is Claim
                &&& delivered(decisions, outcomes)[i] == decisions[at[i]]->delivery
            },
        forall|i: int, j: int| 0 <= i < j < at.len() ==> #[trigger] at[i] < #[trigger] at[j],
        forall|k: int|
            0 <= k < decisions.len() && (#[trigger] decisions[k]) is Claim && outcomes[k]
                == ClaimOutcome::Won ==> at.contains(k),
    decreases decisions.len(),
{
    if decisions.len() == 0 {
        seq![]
    } else {
        let front = decisions.drop_last();
        let before = lemma_won(front, outcomes);
        let last = decisions.len() - 1;
        let at = if decisions[last] is Claim && outcomes[last] == ClaimOutcome::Won {
            before.push(last)
        } else {
            before
        };
        assert forall|i: int| 0 <= i < at.len() implies {
            &&& 0 <= #[trigger] at[i] < decisions.len()
            &&& outcomes[at[i]] == ClaimOutcome::Won
            &&& decisions[at[i]] is Claim
            &&& delivered(decisions, outcomes)[i] == decisions[at[i]]->delivery
        } by {
            if i < before.len() {
                assert(at[i] == before[i]);
                assert(front[before[i]] == decisions[before[i]]);
            }
        }
        assert forall|k: int|
            0 <= k < decisions.len() && (#[trigger] decisions[k]) is Claim && outcomes[k]
                == ClaimOutcome::Won implies at.contains(k) by {
            if k < last {
                assert(front[k] == decisions[k]);
                assert(before.contains(k));
                let i = choose|i: int| 0 <= i < before.len() && before[i] == k;
                assert(at[i] == k);
            } else {
                assert(at[before.len() as int] == k);
            }
        }
        at
    }
}

/// Deliveries of one batch of rows after another are those of both together.
pub proof fn batches_deliver_apart_what_they_deliver_together(
    a: Seq<RowDecision>,
    b: Seq<RowDecision>,
    won_a: Seq<ClaimOutcome>,
    won_b: Seq<ClaimOutcome>,
)
    requires
        a.len() == won_a.len(),
        b.len() == won_b.len(),
    ensures
        delivered(a + b, won_a + won_b) == delivered(a, won_a) + delivered(b, won_b),
    decreases b.len(),
{
    if b.len() == 0 {
        assert(a + b =~= a);
        assert(won_a + won_b =~= won_a);
        assert(delivered(b, won_b) =~= seq![]);
        assert(delivered(a, won_a) + seq![] =~= delivered(a, won_a));
    } else {
        let won = won_b.drop_last();
        batches_deliver_apart_what_they_deliver_together(a, b.drop_last(), won_a, won);
        assert((a + b).drop_last() =~= a + b.drop_last());
        assert((a + b).last() == b.last());
        lemma_outcomes_beyond(a + b.drop_last(), won_a + won, won_a + won_b);
        lemma_outcomes_beyond(b.drop_last(), won, won_b);
        assert((won_a + won_b)[(a + b).len() - 1] == won_b[b.len() - 1]);
        assert(delivered(a + b, won_a + won_b) =~= delivered(a, won_a) + delivered(b, won_b));
    }
}

proof fn lemma_outcomes_beyond(
    decisions: Seq<RowDecision>,
    x: Seq<ClaimOutcome>,
    y: Seq<ClaimOutcome>,
)
    requires
        decisions.len() <= x.len() <= y.len(),
        forall|i: int| 0 <= i < decisions.len() ==> #[trigger] x[i] == y[i],
    ensures
        delivered(decisions, x) == delivered(decisions, y),
    decreases decisions.len(),
{
    if decisions.len() > 0 {
        lemma_outcomes_beyond(decisions.drop_last(), x, y);
        assert(x[decisions.len() - 1] == y[decisions.len() - 1]);
    }
}

/// A due row that can be read is claimed for a caller from its own project, for any caller where it names
/// no project, and for any caller once it is overdue by the window. It is held for everyone else, and only
/// then. `due` is when the row is due; neither time is a leap second.
pub proof fn due_rows_are_claimed_or_held(
    r: Reminder,
    project: Option<Seq<char>>,
    zone: Seq<char>,
    hours: u64,
    now: Instant,
    d: RowDecision,
    due: Instant,
)
    requires
        follows(d, verdict(r, project, zone, hours, now), r, zone),
        r.id is Some,
        r.next_due_at == Some(due),
        reminder_read(r) is Ok,
        now.nanos() < 1_000_000_000,
        due.nanos() < 1_000_000_000,
    ensures
        r.target_project is None ==> d is Claim,
        opt_text(r.target_project) == project ==> d is Claim,
        (now.secs() - due.secs()) * 1_000_000_000 + (now.nanos() - due.nanos()) >= hours
            * 3_600_000_000_000 ==> d is Claim,
        r.target_project is Some && opt_text(r.target_project) != project && (now.secs()
            - due.secs()) * 1_000_000_000 + (now.nanos() - due.nanos()) < hours
            * 3_600_000_000_000 ==> d is Hold,
{
    crate::reminder_rows::a_row_that_reads_holds_a_valid_schedule(r.columns());
    crate::time::lemma_nanos_range(now);
    crate::time::lemma_nanos_range(due);
}

/// What a claim says of its row: which one, that it is due when it was read to be, and when it is due
/// next. A one-shot is not due again; a schedule that repeats is due at its first fire after now, however
/// many it missed.
pub proof fn a_claim_moves_the_row_on(
    r: Reminder,
    project: Option<Seq<char>>,
    zone: Seq<char>,
    hours: u64,
    now: Instant,
    d: RowDecision,
)
    requires
        follows(d, verdict(r, project, zone, hours, now), r, zone),
    ensures
        d matches RowDecision::Claim { id, expected, new_next, delivery } ==> {
            &&& r.id matches Some(stored) && id@ == stored@
            &&& r.next_due_at == Some(expected)
            &&& reminder_read(r) matches Ok(plan) && (if plan is Once {
                new_next is None
            } else {
                crate::reminders::upcoming_fires(plan, now, zone, 1) matches Ok(fires) && new_next
                    == (if fires.len() > 0 {
                    Some(fires[0])
                } else {
                    None
                })
            })
            &&& new_next matches Some(t) ==> t.after(now)
        },
{
    crate::delivery::delivery_moves_forward(r, project, zone, hours, now);
}

/// A claim changes a row only if it is still pending and due when it was read to be. It moves a recurring
/// row to its next time and closes a one-shot, and a second claim of the same time finds nothing.
pub proof fn a_row_is_claimed_once(row: RowState, expected: Instant, next: Option<Instant>)
    ensures
        !row.pending || row.next_due_at != Some(expected) ==> claimed(row, expected, next) == row,
        row.pending && row.next_due_at == Some(expected) ==> {
            let after = claimed(row, expected, next);
            &&& next matches Some(t) ==> after.pending && after.next_due_at == Some(t)
            &&& next is None ==> !after.pending
        },
        next != Some(expected) && row.pending && row.next_due_at == Some(expected) ==> claimed(
            claimed(row, expected, next),
            expected,
            next,
        ) == claimed(row, expected, next),
{
}

/// A delivery carries what the row holds, says whether it was meant for another project, and counts the
/// fires that passed unseen: none for a one-shot.
pub proof fn a_delivery_carries_the_row(
    r: Reminder,
    project: Option<Seq<char>>,
    zone: Seq<char>,
    hours: u64,
    now: Instant,
    d: RowDecision,
)
    requires
        follows(d, verdict(r, project, zone, hours, now), r, zone),
    ensures
        d matches RowDecision::Claim { expected, new_next, delivery, .. } ==> {
            &&& Some(delivery.id@) == opt_text(r.id)
            &&& delivery.message@ == r.message@
            &&& opt_text(delivery.note) == opt_text(r.note)
            &&& opt_text(delivery.prov_project) == opt_text(r.prov_project)
            &&& opt_text(delivery.prov_session_id) == opt_text(r.prov_session_id)
            &&& r.target_project is None ==> delivery.target@ == "global"@
            &&& r.target_project matches Some(p) ==> delivery.target@ == "project:"@ + p@
            &&& delivery.escalated <==> r.target_project is Some && opt_text(r.target_project)
                != project
            &&& delivery.due_at@ == crate::time::rfc3339_text(expected)
            &&& delivery.due_at_local@ == crate::time::clock_text(
                expected,
                zone,
                crate::time::LOCAL_FORMAT@,
            )
            &&& new_next matches Some(t) ==> delivery.next_due_at matches Some(s) && s@
                == crate::time::rfc3339_text(t)
            &&& new_next matches Some(t) ==> delivery.next_due_at_local matches Some(s) && s@
                == crate::time::clock_text(t, zone, crate::time::LOCAL_FORMAT@)
            &&& new_next is None ==> delivery.next_due_at is None && delivery.next_due_at_local
                is None
            &&& delivery.timezone@ == zone
            &&& reminder_read(r) matches Ok(plan) && {
                &&& delivery.recurring == !(plan is Once)
                &&& plan is Once ==> delivery.missed_occurrences == 0
                    && !delivery.missed_occurrences_saturated
                &&& delivery.schedule@ == crate::reminders::in_words(plan)
                &&& crate::reminders::missed(plan, expected, now, zone) matches Ok(n)
                    && delivery.missed_occurrences == n.count
                    && delivery.missed_occurrences_saturated == n.saturated
            }
        },
{
}

/// A row that cannot be read is passed over whoever asks, and so is one without an ID or a due time: it is
/// neither claimed nor held.
pub proof fn rows_that_cannot_be_delivered_are_passed_over(
    r: Reminder,
    project: Option<Seq<char>>,
    zone: Seq<char>,
    hours: u64,
    now: Instant,
    d: RowDecision,
)
    requires
        follows(d, verdict(r, project, zone, hours, now), r, zone),
    ensures
        r.id is None || reminder_read(r) is Err || r.next_due_at is None ==> d is Skip,
        r.id is Some && reminder_read(r) is Ok && r.next_due_at is Some ==> !(d is Skip),
{
    crate::reminder_rows::a_row_that_reads_holds_a_valid_schedule(r.columns());
}

// ---------------------------------------------------------------------------
// Listing
// ---------------------------------------------------------------------------
/// Pending rows are listed unless another status is asked for, and `all` asks for every one. A page holds
/// fifty rows unless another number from one to five hundred is asked for, and starts where it is asked to.
pub proof fn a_list_asks_for_what_was_asked(
    status: Option<Seq<char>>,
    limit: Option<i64>,
    offset: Option<i64>,
)
    ensures
        status is None ==> status_filter(status) == Some("pending"@),
        status matches Some(s) ==> (s == "all"@ ==> status_filter(status) is None) && (s != "all"@
            ==> status_filter(status) == Some(s)),
        limit is None ==> page_limit(limit) == 50,
        limit matches Some(n) ==> (1 <= n <= 500 ==> page_limit(limit) == n) && (n < 1 ==> page_limit(
            limit,
        ) == 1) && (n > 500 ==> page_limit(limit) == 500),
        offset is None ==> page_offset(offset) == 0,
        offset matches Some(n) ==> (n >= 0 ==> page_offset(offset) == n) && (n < 0 ==> page_offset(
            offset,
        ) == 0),
{
}

/// A listed row shows what is stored; a schedule that cannot be read is said to be invalid.
pub proof fn a_listed_row_shows_what_is_stored(l: ListedReminder, r: Reminder, zone: Seq<char>)
    requires
        shows(l, r, zone),
    ensures
        r.id matches Some(id) ==> l.id@ == id@,
        l.message@ == r.message@,
        l.recurring <==> r.schedule_kind@ == "pattern"@ || r.schedule_kind@ == "cron"@,
        l.status@ == r.status@,
        l.delivered_count == r.delivered_count,
        opt_text(l.note) == opt_text(r.note),
        opt_text(l.prov_project) == opt_text(r.prov_project),
        opt_text(l.prov_session_id) == opt_text(r.prov_session_id),
        r.target_project is None ==> l.target@ == "global"@,
        r.target_project matches Some(p) ==> l.target@ == "project:"@ + p@,
        l.next_due_at is Some <==> r.next_due_at is Some,
        l.next_due_at matches Some(s) ==> s@ == crate::time::rfc3339_text(r.next_due_at->0),
        l.next_due_at_local is Some <==> r.next_due_at is Some,
        l.next_due_at_local matches Some(s) ==> s@ == crate::time::clock_text(
            r.next_due_at->0,
            zone,
            crate::time::LOCAL_FORMAT@,
        ),
        l.last_delivered_at is Some <==> r.last_delivered_at is Some,
        l.last_delivered_at matches Some(s) ==> s@ == crate::time::rfc3339_text(
            r.last_delivered_at->0,
        ),
        l.created_at is Some <==> r.created_at is Some,
        l.created_at matches Some(s) ==> s@ == crate::time::rfc3339_text(r.created_at->0),
        reminder_read(r) matches Ok(plan) ==> l.schedule@ == crate::reminders::in_words(plan)
            && l.recurring == !(plan is Once),
        reminder_read(r) is Err ==> crate::text::begins(l.schedule@, "<invalid schedule: "@),
{
    crate::delivery::a_readable_row_repeats_as_stored(r);
    if let Err(e) = reminder_read(r) {
        crate::laws::text::a_beginning_can_be_completed(
            l.schedule@,
            "<invalid schedule: "@,
            e[0] + ">"@,
        );
        assert(l.schedule@ =~= "<invalid schedule: "@ + (e[0] + ">"@));
    }
}

// ---------------------------------------------------------------------------
// The summary
// ---------------------------------------------------------------------------
/// The summary of due reminders holds rows that can be read, in their order and each as it is stored, up
/// to its cap: entry `i` is that of row `at[i]`. A readable row is left out only once the cap is reached,
/// and then it comes after every row that is in.
pub proof fn the_summary_shows_the_first_readable_rows(
    rows: Seq<Reminder>,
    cap: nat,
    r: Seq<DueReminder>,
) -> (at: Seq<int>)
    requires
        due_texts(r) == (if readable(rows).len() <= cap {
            readable(rows)
        } else {
            readable(rows).take(cap as int)
        }),
    ensures
        r.len() <= cap,
        at.len() == r.len(),
        forall|i: int|
            0 <= i < at.len() ==> {
                let row = rows[at[i]];
                &&& 0 <= #[trigger] at[i] < rows.len()
                &&& reminder_read(row) is Ok
                &&& r[i].message@ == row.message@
                &&& row.id matches Some(id) ==> r[i].id@ == id@
                &&& row.target_project is None ==> r[i].target@ == "global"@
                &&& row.target_project matches Some(p) ==> r[i].target@ == "project:"@ + p@
                &&& row.next_due_at is Some <==> r[i].due_at is Some
                &&& r[i].due_at matches Some(s) ==> s@ == crate::time::rfc3339_text(
                    row.next_due_at->0,
                )
            },
        forall|i: int, j: int| 0 <= i < j < at.len() ==> #[trigger] at[i] < #[trigger] at[j],
        forall|k: int|
            0 <= k < rows.len() && reminder_read(#[trigger] rows[k]) is Ok && !at.contains(k)
                ==> at.len() == cap && (forall|i: int| 0 <= i < at.len() ==> #[trigger] at[i] < k),
{
    let all = lemma_readable(rows);
    let texts = due_texts(r);
    assert(texts.len() == r.len());
    let at = if all.len() <= cap {
        all
    } else {
        all.take(cap as int)
    };
    assert forall|i: int| 0 <= i < at.len() implies {
        let row = rows[at[i]];
        &&& 0 <= #[trigger] at[i] < rows.len()
        &&& reminder_read(row) is Ok
        &&& r[i].message@ == row.message@
        &&& row.id matches Some(id) ==> r[i].id@ == id@
        &&& row.target_project is None ==> r[i].target@ == "global"@
        &&& row.target_project matches Some(p) ==> r[i].target@ == "project:"@ + p@
        &&& row.next_due_at is Some <==> r[i].due_at is Some
        &&& r[i].due_at matches Some(s) ==> s@ == crate::time::rfc3339_text(row.next_due_at->0)
    } by {
        assert(at[i] == all[i]);
        assert(texts[i] == r[i]@);
        assert(readable(rows)[i] == due_text(rows[all[i]]));
    }
    assert forall|k: int|
        0 <= k < rows.len() && reminder_read(#[trigger] rows[k]) is Ok && !at.contains(
            k,
        ) implies at.len() == cap && (forall|i: int|
        0 <= i < at.len() ==> #[trigger] at[i] < k) by {
        assert(all.contains(k));
        let x = choose|x: int| 0 <= x < all.len() && all[x] == k;
        if x < at.len() {
            assert(at[x] == k);
        }
        assert forall|i: int| 0 <= i < at.len() implies #[trigger] at[i] < k by {
            assert(all[i] < all[x]);
        }
    }
    at
}

/// Whether a row can be read.
#[verifier::opaque]
spec fn reads(r: Reminder) -> bool {
    reminder_read(r) is Ok
}

/// What a summary tells of a row.
#[verifier::opaque]
spec fn told(r: Reminder) -> DueText {
    due_text(r)
}

proof fn lemma_readable_step(rows: Seq<Reminder>)
    requires
        rows.len() > 0,
    ensures
        readable(rows) == (if reads(rows.last()) {
            readable(rows.drop_last()).push(told(rows.last()))
        } else {
            readable(rows.drop_last())
        }),
{
    reveal(reads);
    reveal(told);
}

proof fn lemma_told(rows: Seq<Reminder>, out: Seq<DueText>) -> (at: Seq<int>)
    requires
        out == readable(rows),
    ensures
        at.len() == out.len(),
        forall|i: int|
            0 <= i < at.len() ==> {
                &&& 0 <= #[trigger] at[i] < rows.len()
                &&& reads(rows[at[i]])
                &&& out[i] == told(rows[at[i]])
            },
        forall|i: int, j: int| 0 <= i < j < at.len() ==> #[trigger] at[i] < #[trigger] at[j],
        forall|k: int| 0 <= k < rows.len() && reads(#[trigger] rows[k]) ==> at.contains(k),
    decreases rows.len(),
{
    if rows.len() == 0 {
        seq![]
    } else {
        let front = rows.drop_last();
        let last = rows.len() - 1;
        lemma_readable_step(rows);
        let before = lemma_told(front, readable(front));
        let at = if reads(rows.last()) {
            before.push(last)
        } else {
            before
        };
        assert forall|i: int| 0 <= i < at.len() implies {
            &&& 0 <= #[trigger] at[i] < rows.len()
            &&& reads(rows[at[i]])
            &&& out[i] == told(rows[at[i]])
        } by {
            if i < before.len() {
                assert(at[i] == before[i]);
                assert(front[before[i]] == rows[before[i]]);
            }
        }
        assert forall|k: int| 0 <= k < rows.len() && reads(#[trigger] rows[k]) implies at.contains(
            k,
        ) by {
            if k < last {
                assert(front[k] == rows[k]);
                assert(before.contains(k));
                let i = choose|i: int| 0 <= i < before.len() && before[i] == k;
                assert(at[i] == k);
            } else {
                assert(at[before.len() as int] == k);
            }
        }
        at
    }
}

proof fn lemma_readable(rows: Seq<Reminder>) -> (at: Seq<int>)
    ensures
        at.len() == readable(rows).len(),
        forall|i: int|
            0 <= i < at.len() ==> {
                &&& 0 <= #[trigger] at[i] < rows.len()
                &&& reminder_read(rows[at[i]]) is Ok
                &&& readable(rows)[i] == due_text(rows[at[i]])
            },
        forall|i: int, j: int| 0 <= i < j < at.len() ==> #[trigger] at[i] < #[trigger] at[j],
        forall|k: int|
            0 <= k < rows.len() && reminder_read(#[trigger] rows[k]) is Ok ==> at.contains(k),
{
    reveal(reads);
    reveal(told);
    lemma_told(rows, readable(rows))
}

} // verus!
