//! What setting a reminder is for: the row holds what was asked, and nothing is kept that cannot come due.
use vstd::prelude::*;

use crate::fires::Weekday;
use crate::reminder_rows::{
    day_read, plan_of, reminder_read, weekdays_read, Reminder, ScheduleColumns,
};
use crate::reminders::{
    cron_read, datetime_read, freq_read, pattern_read, time_read, upcoming_fires, weekday_read,
    Freq, Plan,
};
use crate::set_reminder::{
    asked, days_asked, fulfils, pattern_asked, pattern_days, settled, Asked, SetReminder,
};
use crate::text::{blank, opt_text, texts};
use crate::time::Instant;
use crate::tools::{ReminderPatternParams, SetReminderParams};

verus! {

/// A request is refused that does not give exactly one of the three schedule fields, or whose message or
/// target is blank.
pub proof fn a_request_needs_one_schedule_and_a_message(
    p: SetReminderParams,
    zone: Seq<char>,
    now: Instant,
)
    ensures
        p.due_at is None && p.pattern is None && p.cron is None ==> settled(p, zone, now) is Err,
        p.due_at is Some && p.pattern is Some ==> settled(p, zone, now) is Err,
        p.due_at is Some && p.cron is Some ==> settled(p, zone, now) is Err,
        p.pattern is Some && p.cron is Some ==> settled(p, zone, now) is Err,
        blank(p.message@) ==> settled(p, zone, now) is Err,
        p.target_project matches Some(t) ==> (blank(t@) ==> settled(p, zone, now) is Err),
{
}

/// A request that gives one schedule and a message is granted exactly if the schedule can be read and
/// evaluated, and comes due: a schedule that repeats has to fire after now, a one-shot may be past.
pub proof fn a_request_that_can_come_due_is_granted(
    p: SetReminderParams,
    zone: Seq<char>,
    now: Instant,
)
    requires
        (p.due_at is Some && p.pattern is None && p.cron is None) || (p.due_at is None && p.pattern
            is Some && p.cron is None) || (p.due_at is None && p.pattern is None && p.cron is Some),
        !blank(p.message@),
        p.target_project matches Some(t) ==> !blank(t@),
    ensures
        settled(p, zone, now) is Ok <==> (asked(p, zone) is Ok && upcoming_fires(
            asked(p, zone)->Ok_0.plan,
            now,
            zone,
            3,
        ) is Ok && (asked(p, zone)->Ok_0.plan is Once || upcoming_fires(
            asked(p, zone)->Ok_0.plan,
            now,
            zone,
            3,
        )->Ok_0.len() > 0)),
        settled(p, zone, now) matches Ok(s) ==> {
            &&& asked(p, zone) == Ok::<Asked, Seq<Seq<char>>>(s.0)
            &&& upcoming_fires(s.0.plan, now, zone, 3) == Ok::<Seq<Instant>, Seq<Seq<char>>>(s.1)
        },
{
}

/// The schedule of a request is the one that its field gives.
pub proof fn the_schedule_is_the_one_given(p: SetReminderParams, zone: Seq<char>)
    ensures
        p.due_at matches Some(due) ==> match datetime_read(due@, zone) {
            Ok(t) => asked(p, zone) matches Ok(a) && a.plan == (Plan::Once { due_at: t }),
            Err(_) => asked(p, zone) is Err,
        },
        p.due_at is None ==> (p.pattern matches Some(pattern) ==> asked(p, zone) == pattern_asked(
            pattern,
        )),
        p.due_at is None && p.pattern is None ==> (p.cron matches Some(raw) ==> match cron_read(raw@) {
            Ok(expr) => asked(p, zone) matches Ok(a) && a.plan == (Plan::Cron { expr }),
            Err(_) => asked(p, zone) is Err,
        }),
{
}

/// A pattern is kept with the frequency, the time, the days of the week and, where it is monthly, the day
/// that were given.
pub proof fn a_pattern_is_kept_as_given(p: ReminderPatternParams)
    ensures
        pattern_asked(p) matches Ok(a) ==> {
            &&& a.plan is Pattern
            &&& freq_read(p.freq@) == Ok::<Freq, Seq<Seq<char>>>(a.plan->freq)
            &&& time_read(p.time@) matches Ok(t) && t == a.plan->time
            &&& days_asked(pattern_days(p)) == Ok::<Seq<Weekday>, Seq<Seq<char>>>(a.plan->weekdays)
            &&& a.plan->freq == Freq::Monthly ==> p.day_of_month == Some(a.plan->day_of_month)
            &&& pattern_read(a.plan->freq, a.plan->time, a.plan->weekdays, p.day_of_month) is Ok
        },
        pattern_days(p).len() == (match p.weekdays {
            Some(v) => v@.len(),
            None => 0,
        }),
        p.weekdays matches Some(v) ==> forall|i: int|
            0 <= i < v@.len() ==> #[trigger] pattern_days(p)[i] == v@[i]@,
        freq_read(p.freq@) is Err || time_read(p.time@) is Err || days_asked(pattern_days(p)) is Err
            ==> pattern_asked(p) is Err,
{
}

/// A row holds its schedule in one form only, whatever form it was given in: the columns of its kind and
/// no others, a time as two digits, a colon and two digits, days by their three lower-case letters, and an
/// expression with its seconds.
pub proof fn a_row_holds_its_schedule_in_one_form(p: SetReminderParams, zone: Seq<char>, i: int)
    ensures
        asked(p, zone) matches Ok(a) ==> {
            let c = a.columns;
            match a.plan {
                Plan::Once { due_at } => c.kind == "once"@ && c.due_at == Some(due_at) && c.freq is None
                    && c.time_of_day is None && c.weekdays.len() == 0 && c.day_of_month is None
                    && c.cron_expr is None,
                Plan::Cron { expr } => c.kind == "cron"@ && c.cron_expr == Some(expr) && c.due_at is None
                    && c.freq is None && c.time_of_day is None && c.weekdays.len() == 0
                    && c.day_of_month is None,
                Plan::Pattern { freq, time, weekdays, day_of_month } => {
                    &&& c.kind == "pattern"@
                    &&& c.due_at is None
                    &&& c.cron_expr is None
                    &&& c.freq == Some(
                        match freq {
                            Freq::Daily => "daily"@,
                            Freq::Weekly => "weekly"@,
                            Freq::Monthly => "monthly"@,
                        },
                    )
                    &&& c.time_of_day matches Some(t) && t == time.clock() && t.len() == 5 && t[2] == ':'
                        && time_read(t) == Ok::<crate::reminders::TimeOfDay, Seq<Seq<char>>>(time)
                    &&& freq == Freq::Monthly ==> c.day_of_month == Some(day_of_month as i64)
                    &&& freq != Freq::Monthly ==> c.day_of_month is None
                    &&& c.weekdays.len() == weekdays.len()
                    &&& 0 <= i < weekdays.len() ==> c.weekdays[i] == (match weekdays[i] {
                        Weekday::Mon => "mon"@,
                        Weekday::Tue => "tue"@,
                        Weekday::Wed => "wed"@,
                        Weekday::Thu => "thu"@,
                        Weekday::Fri => "fri"@,
                        Weekday::Sat => "sat"@,
                        Weekday::Sun => "sun"@,
                    })
                },
            }
        },
{
    if let Ok(a) = asked(p, zone) {
        if let Plan::Pattern { freq, time, weekdays, day_of_month } = a.plan {
            crate::reminder_laws::a_pattern_reads_back(p.pattern->0);
            crate::reminder_laws::a_clock_time_reads_back(time);
            crate::reminder_laws::lemma_two_digits(time.hour as nat);
            crate::reminder_laws::lemma_two_digits(time.minute as nat);
            reveal_strlit(":");
            assert(time.clock().len() == 5);
            assert(time.clock()[2] == ':');
        }
    }
}

/// The days of a pattern are those that are named, each once and in the order in which they are first
/// named: day `i` is first named at `at[i]`. One name that is no day refuses them all.
pub proof fn the_days_are_those_named(names: Seq<Seq<char>>) -> (at: Seq<int>)
    ensures
        (exists|k: int| 0 <= k < names.len() && weekday_read(#[trigger] names[k]) is Err)
            <==> days_asked(names) is Err,
        days_asked(names) matches Ok(days) ==> {
            &&& at.len() == days.len()
            &&& forall|i: int|
                0 <= i < at.len() ==> {
                    &&& 0 <= #[trigger] at[i] < names.len()
                    &&& weekday_read(names[at[i]]) == Ok::<Weekday, Seq<Seq<char>>>(days[i])
                }
            &&& forall|i: int, j: int| 0 <= i < j < at.len() ==> #[trigger] at[i] < #[trigger] at[j]
            &&& forall|i: int, j: int|
                0 <= i < j < days.len() ==> #[trigger] days[i] != #[trigger] days[j]
            &&& forall|k: int|
                0 <= k < names.len() ==> days.contains(weekday_read(#[trigger] names[k])->Ok_0)
            &&& forall|i: int, k: int|
                0 <= i < at.len() && 0 <= k < at[i] ==> weekday_read(#[trigger] names[k])->Ok_0
                    != #[trigger] days[i]
        },
    decreases names.len(),
{
    if names.len() == 0 {
        seq![]
    } else {
        let front = names.drop_last();
        let before = the_days_are_those_named(front);
        let last = names.len() - 1;
        if exists|k: int| 0 <= k < names.len() && weekday_read(#[trigger] names[k]) is Err {
            let k = choose|k: int| 0 <= k < names.len() && weekday_read(#[trigger] names[k]) is Err;
            if k < last {
                assert(front[k] == names[k]);
            }
        }
        if days_asked(names) is Err {
            if days_asked(front) is Err {
                let k = choose|k: int|
                    0 <= k < front.len() && weekday_read(#[trigger] front[k]) is Err;
                assert(names[k] == front[k]);
            } else {
                assert(weekday_read(names[last]) is Err);
            }
            seq![]
        } else {
            assert(days_asked(front) is Ok) by {
                if days_asked(front) is Err {
                    assert(days_asked(names) is Err);
                }
            }
            let old = days_asked(front)->Ok_0;
            let days = days_asked(names)->Ok_0;
            let d = weekday_read(names[last])->Ok_0;
            let at = if old.contains(d) {
                before
            } else {
                before.push(last)
            };
            assert forall|i: int| 0 <= i < at.len() implies {
                &&& 0 <= #[trigger] at[i] < names.len()
                &&& weekday_read(names[at[i]]) == Ok::<Weekday, Seq<Seq<char>>>(days[i])
            } by {
                if i < before.len() {
                    assert(at[i] == before[i]);
                    assert(front[before[i]] == names[before[i]]);
                }
            }
            assert forall|k: int| 0 <= k < names.len() implies days.contains(
                weekday_read(#[trigger] names[k])->Ok_0,
            ) by {
                if k < last {
                    assert(front[k] == names[k]);
                    let e = weekday_read(front[k])->Ok_0;
                    assert(old.contains(e));
                    let x = choose|x: int| 0 <= x < old.len() && old[x] == e;
                    assert(days[x] == e);
                } else if old.contains(d) {
                } else {
                    assert(days[old.len() as int] == d);
                }
            }
            assert forall|i: int, j: int| 0 <= i < j < days.len() implies #[trigger] days[i]
                != #[trigger] days[j] by {
                if j == old.len() {
                    assert(old.contains(old[i]));
                }
            }
            assert forall|i: int, k: int|
                0 <= i < at.len() && 0 <= k < at[i] implies weekday_read(#[trigger] names[k])->Ok_0
                != #[trigger] days[i] by {
                assert(front[k] == names[k]);
                if i < before.len() {
                    assert(at[i] == before[i]);
                    assert(weekday_read(front[k])->Ok_0 != old[i]);
                } else {
                    assert(old.contains(weekday_read(front[k])->Ok_0));
                }
            }
            at
        }
    }
}

/// A granted request stores the message, the target and where it comes from as they were given, and the row
/// is due when its schedule first fires; a one-shot at its time even where that is past.
pub proof fn a_granted_request_stores_what_was_asked(
    s: SetReminder,
    p: SetReminderParams,
    zone: Seq<char>,
    now: Instant,
    a: Asked,
    preview: Seq<Instant>,
    i: int,
)
    requires
        settled(p, zone, now) == Ok::<(Asked, Seq<Instant>), Seq<Seq<char>>>((a, preview)),
        fulfils(s, p, zone, a, preview),
    ensures
        s.row.message@ == p.message@,
        opt_text(s.row.target_project) == opt_text(p.target_project),
        opt_text(s.row.prov_project) == opt_text(p.prov_project),
        opt_text(s.row.prov_session_id) == opt_text(p.session_id),
        opt_text(s.row.note) == opt_text(p.note),
        s.row.columns() == a.columns,
        a.plan matches Plan::Once { due_at } ==> s.row.next_due_at == Some(due_at),
        !(a.plan is Once) ==> (upcoming_fires(a.plan, now, zone, 3) matches Ok(fires)
            && fires.len() > 0 && s.row.next_due_at == Some(fires[0])),
        s.row.next_due_at matches Some(t) ==> s.next_due_at matches Some(x) && x@
            == crate::time::rfc3339_text(t),
        s.row.next_due_at matches Some(t) ==> s.next_due_at_local matches Some(x) && x@
            == crate::time::clock_text(t, zone, crate::time::LOCAL_FORMAT@),
        s.next_fire_preview@.len() == preview.len(),
        0 <= i < preview.len() ==> s.next_fire_preview@[i]@ == crate::time::rfc3339_text(preview[i]),
        preview.len() <= 3,
        s.timezone@ == zone,
        s.schedule@ == crate::reminders::in_words(a.plan),
        a.plan matches Plan::Once { due_at } ==> (s.warning is Some <==> !due_at.after(now)),
        a.plan is Pattern ==> s.warning is None,
        a.plan matches Plan::Cron { expr } ==> (s.warning is Some
            <==> crate::fires::restricts_both_days(expr)),
{
    let shown = texts(s.next_fire_preview@);
    assert(shown.len() == s.next_fire_preview@.len());
    if 0 <= i < preview.len() {
        assert(shown[i] == s.next_fire_preview@[i]@);
    }
    match crate::reminders::compiled(a.plan) {
        Ok(expr) => crate::fires::fires_are_strictly_after(expr, now, zone, 3),
        Err(_) => {},
    }
}

// ---------------------------------------------------------------------------
// Rows
// ---------------------------------------------------------------------------
/// A row is read by its kind: a one-shot at its stored time, a cron expression normalized, a pattern from
/// its columns. A row of another kind, or without what its kind needs, is refused.
pub proof fn a_row_is_read_by_its_kind(row: ScheduleColumns)
    ensures
        row.kind == "once"@ ==> match row.due_at {
            Some(due_at) => plan_of(row) == Ok::<Plan, Seq<Seq<char>>>(Plan::Once { due_at }),
            None => plan_of(row) is Err,
        },
        row.kind == "cron"@ ==> match row.cron_expr {
            Some(expr) => match cron_read(expr) {
                Ok(e) => plan_of(row) == Ok::<Plan, Seq<Seq<char>>>(Plan::Cron { expr: e }),
                Err(_) => plan_of(row) is Err,
            },
            None => plan_of(row) is Err,
        },
        row.kind == "pattern"@ ==> (plan_of(row) matches Ok(plan) ==> {
            &&& plan is Pattern
            &&& row.freq is Some && freq_read(row.freq->0) == Ok::<Freq, Seq<Seq<char>>>(plan->freq)
            &&& row.time_of_day is Some
            &&& time_read(row.time_of_day->0) matches Ok(t) && t == plan->time
            &&& weekdays_read(row.weekdays) == Ok::<Seq<Weekday>, Seq<Seq<char>>>(plan->weekdays)
            &&& row.day_of_month matches Some(d) ==> plan->day_of_month == d
        }),
        row.kind == "pattern"@ && (row.freq is None || row.time_of_day is None) ==> plan_of(row)
            is Err,
        row.kind != "once"@ && row.kind != "cron"@ && row.kind != "pattern"@ ==> plan_of(row) is Err,
{
    reveal_strlit("once");
    reveal_strlit("pattern");
    reveal_strlit("cron");
    assert("cron"@[0] == 'c' && "once"@[0] == 'o' && "pattern"@[0] == 'p');
}

/// The stored days of a pattern are read one for one, and one that is no day refuses the row.
pub proof fn stored_days_are_read_one_for_one(names: Seq<Seq<char>>)
    ensures
        (exists|k: int| 0 <= k < names.len() && weekday_read(#[trigger] names[k]) is Err)
            <==> weekdays_read(names) is Err,
        weekdays_read(names) matches Ok(days) ==> days.len() == names.len() && forall|i: int|
            0 <= i < names.len() ==> weekday_read(#[trigger] names[i]) == Ok::<
                Weekday,
                Seq<Seq<char>>,
            >(days[i]),
    decreases names.len(),
{
    if names.len() > 0 {
        let front = names.drop_last();
        let last = names.len() - 1;
        stored_days_are_read_one_for_one(front);
        if exists|k: int| 0 <= k < names.len() && weekday_read(#[trigger] names[k]) is Err {
            let k = choose|k: int| 0 <= k < names.len() && weekday_read(#[trigger] names[k]) is Err;
            if k < last {
                assert(front[k] == names[k]);
            }
        }
        if weekdays_read(names) is Err {
            if weekdays_read(front) is Err {
                let k = choose|k: int|
                    0 <= k < front.len() && weekday_read(#[trigger] front[k]) is Err;
                assert(names[k] == front[k]);
            } else {
                assert(weekday_read(names[last]) is Err);
            }
        } else {
            let days = weekdays_read(names)->Ok_0;
            assert forall|i: int| 0 <= i < names.len() implies weekday_read(#[trigger] names[i])
                == Ok::<Weekday, Seq<Seq<char>>>(days[i]) by {
                if i < last {
                    assert(front[i] == names[i]);
                }
            }
        }
    }
}

/// A stored day of the month is taken as it is from 1 to 31 and refused beyond; only a monthly pattern needs
/// one.
pub proof fn a_stored_day_of_the_month_is_a_day(freq: Freq, day: Option<i64>)
    ensures
        day matches Some(d) ==> (1 <= d <= 31 ==> (day_read(freq, day) matches Ok(n) && n == d)) && (!(
        1 <= d <= 31) ==> day_read(freq, day) is Err),
        day is None ==> (day_read(freq, day) is Err <==> freq == Freq::Monthly),
{
}

/// A row that cannot be read says which row it is and what is wrong with its columns; one that can be read
/// gives the schedule of its columns.
pub proof fn an_unreadable_row_names_itself(r: Reminder)
    ensures
        match plan_of(r.columns()) {
            Ok(plan) => reminder_read(r) == Ok::<Plan, Seq<Seq<char>>>(plan),
            Err(e) => reminder_read(r) == Err::<Plan, Seq<Seq<char>>>(
                seq![
                    "reminder "@ + (match r.id {
                        Some(id) => id@,
                        None => "<no id>"@,
                    }) + ": "@ + crate::text::join(e, ": "@),
                ],
            ),
        },
{
}

} // verus!
