//! The flat storage row of a reminder, and the schedule it holds.
use vstd::prelude::*;

use crate::failure::Failure;
use crate::fires::Weekday;
use crate::numbers::signed_text;
use crate::reminders::{
    normalize_cron, parse_freq, parse_time_of_day, parse_weekday, pattern_to_cron, Freq, Plan,
    ScheduleSpec,
};
use crate::text::{copy_of, quote, same};
use crate::time::Instant;

verus! {

/// `schedule_kind` of a one-shot.
pub const ONCE: &'static str = "once";

/// `schedule_kind` of a named pattern.
pub const PATTERN: &'static str = "pattern";

/// `schedule_kind` of a cron expression.
pub const CRON: &'static str = "cron";

/// A stored reminder.
#[derive(Debug)]
pub struct Reminder {
    pub id: Option<String>,
    pub message: String,
    pub target_project: Option<String>,
    pub prov_project: Option<String>,
    pub prov_session_id: Option<String>,
    pub note: Option<String>,
    pub schedule_kind: String,
    pub due_at: Option<Instant>,
    pub freq: Option<String>,
    pub time_of_day: Option<String>,
    pub weekdays: Vec<String>,
    pub day_of_month: Option<i64>,
    pub cron_expr: Option<String>,
    pub next_due_at: Option<Instant>,
    pub status: String,
    pub created_at: Option<Instant>,
    pub cancelled_at: Option<Instant>,
    pub last_delivered_at: Option<Instant>,
    pub delivered_count: i64,
}

/// The columns of a row that hold its schedule.
#[verifier::ext_equal]
pub struct ScheduleColumns {
    pub kind: Seq<char>,
    pub due_at: Option<Instant>,
    pub freq: Option<Seq<char>>,
    pub time_of_day: Option<Seq<char>>,
    pub weekdays: Seq<Seq<char>>,
    pub day_of_month: Option<i64>,
    pub cron_expr: Option<Seq<char>>,
}

impl Reminder {
    /// The columns that hold the schedule.
    pub open spec fn columns(self) -> ScheduleColumns {
        ScheduleColumns {
            kind: self.schedule_kind@,
            due_at: self.due_at,
            freq: crate::text::opt_text(self.freq),
            time_of_day: crate::text::opt_text(self.time_of_day),
            weekdays: crate::text::texts(self.weekdays@),
            day_of_month: self.day_of_month,
            cron_expr: crate::text::opt_text(self.cron_expr),
        }
    }
}

/// What reading the stored names of week days gives: all of them, or the first that is no day.
pub open spec fn weekdays_read(names: Seq<Seq<char>>) -> Result<Seq<Weekday>, Seq<Seq<char>>>
    decreases names.len(),
{
    if names.len() == 0 {
        Ok(seq![])
    } else {
        match weekdays_read(names.drop_last()) {
            Err(e) => Err(e),
            Ok(days) => match crate::reminders::weekday_read(names.last()) {
                Ok(d) => Ok(days.push(d)),
                Err(e) => Err(
                    seq!["stored weekdays entry "@ + crate::text::quoted(names.last())] + e,
                ),
            },
        }
    }
}

/// The day of the month that a pattern column holds. Junk is rejected for every frequency, a monthly
/// pattern needs a value, and the others get one that they do not use.
pub open spec fn day_read(freq: Freq, day: Option<i64>) -> Result<u32, Seq<Seq<char>>> {
    match day {
        Some(d) => if !(1 <= d <= 31) {
            Err(seq!["day_of_month out of range: "@ + crate::numbers::signed_decimal(d as int)])
        } else {
            Ok(d as u32)
        },
        None => if freq == Freq::Monthly {
            Err(seq!["monthly pattern missing day_of_month"@])
        } else {
            Ok(1)
        },
    }
}

/// The pattern that a row holds.
pub open spec fn pattern_of(row: ScheduleColumns) -> Result<Plan, Seq<Seq<char>>> {
    match row.freq {
        None => Err(seq!["pattern missing freq"@]),
        Some(f) => match crate::reminders::freq_read(f) {
            Err(e) => Err(e),
            Ok(freq) => match row.time_of_day {
                None => Err(seq!["pattern missing time_of_day"@]),
                Some(t) => match crate::reminders::time_read(t) {
                    Err(e) => Err(e),
                    Ok(time) => match weekdays_read(row.weekdays) {
                        Err(e) => Err(e),
                        Ok(weekdays) => match day_read(freq, row.day_of_month) {
                            Err(e) => Err(e),
                            Ok(day_of_month) => match crate::reminders::pattern_read(
                                freq,
                                time,
                                weekdays,
                                if freq == Freq::Monthly {
                                    Some(day_of_month)
                                } else {
                                    None
                                },
                            ) {
                                Err(e) => Err(e),
                                Ok(_) => Ok(Plan::Pattern { freq, time, weekdays, day_of_month }),
                            },
                        },
                    },
                },
            },
        },
    }
}

/// The schedule that a row holds, or why it holds none.
pub open spec fn plan_of(row: ScheduleColumns) -> Result<Plan, Seq<Seq<char>>> {
    if row.kind == ONCE@ {
        match row.due_at {
            None => Err(seq!["once reminder missing due_at"@]),
            Some(due_at) => Ok(Plan::Once { due_at }),
        }
    } else if row.kind == PATTERN@ {
        pattern_of(row)
    } else if row.kind == CRON@ {
        match row.cron_expr {
            None => Err(seq!["cron reminder missing cron_expr"@]),
            Some(expr) => match crate::reminders::cron_read(expr) {
                Err(e) => Err(e),
                Ok(e) => Ok(Plan::Cron { expr: e }),
            },
        }
    } else {
        Err(seq!["unknown schedule_kind "@ + crate::text::quoted(row.kind)])
    }
}

fn read_weekdays(names: &Vec<String>) -> (r: Result<Vec<Weekday>, Failure>)
    ensures
        crate::failure::seen(r) == weekdays_read(crate::text::texts(names@)),
{
    let ghost all = crate::text::texts(names@);
    let mut days: Vec<Weekday> = Vec::new();
    let mut i: usize = 0;
    assert(all.take(0) =~= seq![]);
    while i < names.len()
        invariant
            i <= names@.len(),
            all == crate::text::texts(names@),
            weekdays_read(all.take(i as int)) == Ok::<Seq<Weekday>, Seq<Seq<char>>>(days@),
        decreases names@.len() - i,
    {
        let name = names[i].as_str();
        proof {
            assert(all.take(i + 1).drop_last() =~= all.take(i as int));
            assert(all.take(i + 1).last() == name@);
        }
        match parse_weekday(name) {
            Ok(d) => {
                days.push(d);
            },
            Err(e) => {
                let mut m = copy_of("stored weekdays entry ");
                let q = quote(name);
                m.append(q.as_str());
                let failure = e.context(m);
                proof {
                    lemma_first_bad_day(all, i as int);
                }
                return Err(failure);
            },
        }
        i = i + 1;
    }
    assert(all.take(all.len() as int) =~= all);
    Ok(days)
}

proof fn lemma_first_bad_day(names: Seq<Seq<char>>, i: int)
    requires
        0 <= i < names.len(),
        weekdays_read(names.take(i + 1)) is Err,
    ensures
        weekdays_read(names) == weekdays_read(names.take(i + 1)),
    decreases names.len(),
{
    if i + 1 == names.len() {
        assert(names.take(i + 1) =~= names);
    } else {
        assert(names.drop_last().take(i + 1) =~= names.take(i + 1));
        lemma_first_bad_day(names.drop_last(), i);
    }
}

fn read_day(freq: Freq, day: Option<i64>) -> (r: Result<u32, Failure>)
    ensures
        crate::failure::seen(r) == day_read(freq, day),
{
    match day {
        Some(d) => if !(1 <= d && d <= 31) {
            let mut m = copy_of("day_of_month out of range: ");
            let n = signed_text(d);
            m.append(n.as_str());
            Err(Failure::new(m))
        } else {
            Ok(d as u32)
        },
        None => match freq {
            Freq::Monthly => Err(Failure::saying("monthly pattern missing day_of_month")),
            _ => Ok(1),
        },
    }
}

fn pattern_from_row(r: &Reminder) -> (spec: Result<ScheduleSpec, Failure>)
    ensures
        crate::failure::seen(spec) == pattern_of(r.columns()),
{
    let freq = match &r.freq {
        None => return Err(Failure::saying("pattern missing freq")),
        Some(f) => match parse_freq(f.as_str()) {
            Err(e) => return Err(e),
            Ok(freq) => freq,
        },
    };
    let time = match &r.time_of_day {
        None => return Err(Failure::saying("pattern missing time_of_day")),
        Some(t) => match parse_time_of_day(t.as_str()) {
            Err(e) => return Err(e),
            Ok(time) => time,
        },
    };
    let weekdays = match read_weekdays(&r.weekdays) {
        Err(e) => return Err(e),
        Ok(days) => days,
    };
    let day_of_month = match read_day(freq, r.day_of_month) {
        Err(e) => return Err(e),
        Ok(day) => day,
    };
    let used = match freq {
        Freq::Monthly => Some(day_of_month),
        _ => None,
    };
    match pattern_to_cron(freq, time, &weekdays, used) {
        Err(e) => Err(e),
        Ok(_) => Ok(ScheduleSpec::Pattern { freq, time, weekdays, day_of_month }),
    }
}

/// Kind-specific field extraction.
pub fn spec_from_row(r: &Reminder) -> (spec: Result<ScheduleSpec, Failure>)
    ensures
        crate::failure::seen(spec) == plan_of(r.columns()),
{
    let kind = r.schedule_kind.as_str();
    if same(kind, ONCE) {
        match r.due_at {
            None => Err(Failure::saying("once reminder missing due_at")),
            Some(due_at) => Ok(ScheduleSpec::Once { due_at }),
        }
    } else if same(kind, PATTERN) {
        pattern_from_row(r)
    } else if same(kind, CRON) {
        match &r.cron_expr {
            None => Err(Failure::saying("cron reminder missing cron_expr")),
            Some(expr) => match normalize_cron(expr.as_str()) {
                Err(e) => Err(e),
                Ok(e) => Ok(ScheduleSpec::Cron { expr: e }),
            },
        }
    } else {
        let mut m = copy_of("unknown schedule_kind ");
        let q = quote(kind);
        m.append(q.as_str());
        Err(Failure::new(m))
    }
}

/// How an error names a row.
pub open spec fn row_name(id: Option<Seq<char>>) -> Seq<char> {
    match id {
        Some(id) => id,
        None => "<no id>"@,
    }
}

/// What reading a row back gives: the schedule, or one line that names the row and the reason.
pub open spec fn reminder_read(r: Reminder) -> Result<Plan, Seq<Seq<char>>> {
    match plan_of(r.columns()) {
        Ok(plan) => Ok(plan),
        Err(e) => Err(
            seq![
                "reminder "@ + row_name(crate::text::opt_text(r.id)) + ": "@
                    + crate::failure::flat(e),
            ],
        ),
    }
}

/// Reconstructs a validated spec from the flat storage row. Errors on corrupt or inconsistent rows.
/// Every error names the row, so a caller walking a batch can isolate the single bad row.
pub fn spec_from_reminder(r: &Reminder) -> (spec: Result<ScheduleSpec, Failure>)
    ensures
        crate::failure::seen(spec) == reminder_read(*r),
{
    match spec_from_row(r) {
        Ok(spec) => Ok(spec),
        Err(e) => {
            let mut m = copy_of("reminder ");
            match &r.id {
                Some(id) => m.append(id.as_str()),
                None => m.append("<no id>"),
            }
            m.append(": ");
            let why = e.one_line();
            m.append(why.as_str());
            Err(Failure::new(m))
        },
    }
}

/// A schedule that a row gives is valid and can be evaluated: what is wrong with a row shows when it
/// is read, not later when its next fire is looked for.
pub proof fn a_row_that_reads_holds_a_valid_schedule(row: ScheduleColumns)
    ensures
        plan_of(row) matches Ok(plan) ==> plan.valid() && (plan is Once || crate::reminders::compiled(
            plan,
        ) is Ok),
{
    match row.time_of_day {
        Some(t) => match crate::text::cut(t, ':') {
            Some((h, m)) => {
                crate::numbers::lemma_number_range(h, u32::MAX as int);
                crate::numbers::lemma_number_range(m, u32::MAX as int);
            },
            None => {},
        },
        None => {},
    }
}

} // verus!
