//! Setting a reminder: validation, the row to store, and the response.
use vstd::prelude::*;

use crate::failure::Failure;
use crate::fires::{cron_dom_dow_conflict, Weekday};
use crate::reminder_rows::{ScheduleColumns, CRON, ONCE, PATTERN};
use crate::reminders::{
    human_readable, normalize_cron, parse_datetime, parse_freq, parse_time_of_day, parse_weekday,
    pattern_to_cron, upcoming, Freq, Plan, ScheduleSpec,
};
use crate::server::AlexandriaServer;
use crate::text::{copy_of, copy_opt, copy_texts, is_blank, join_texts, lowered};
use crate::time::{minute_local, rfc3339_utc, Instant, Zone};
use crate::tools::{ReminderPatternParams, SetReminderParams};

verus! {

broadcast use crate::text::lemma_texts_push;

/// A reminder row to be stored.
#[derive(Debug)]
pub struct NewReminder {
    pub message: String,
    pub target_project: Option<String>,
    pub prov_project: Option<String>,
    pub prov_session_id: Option<String>,
    pub note: Option<String>,
    pub schedule_kind: String,
    pub due_at: Option<Instant>,
    pub freq: Option<String>,
    pub time_of_day: Option<String>,
    pub weekdays: Vec<String>,
    pub day_of_month: Option<i64>,
    pub cron_expr: Option<String>,
    pub next_due_at: Option<Instant>,
}

impl NewReminder {
    /// The columns that hold the schedule.
    pub open spec fn columns(self) -> ScheduleColumns {
        ScheduleColumns {
            kind: self.schedule_kind@,
            due_at: self.due_at,
            freq: crate::text::opt_text(self.freq),
            time_of_day: crate::text::opt_text(self.time_of_day),
            weekdays: crate::text::texts(self.weekdays@),
            day_of_month: self.day_of_month,
            cron_expr: crate::text::opt_text(self.cron_expr),
        }
    }
}

/// A validated request: the row to store, and the response to give once it is stored.
#[derive(Debug)]
pub struct SetReminder {
    pub row: NewReminder,
    pub schedule: String,
    pub next_due_at: Option<String>,
    pub next_due_at_local: Option<String>,
    pub next_fire_preview: Vec<String>,
    pub timezone: String,
    pub warning: Option<String>,
}

// ---------------------------------------------------------------------------
// What is refused before the schedule is looked at
// ---------------------------------------------------------------------------
/// The schedule fields that a request gives.
pub open spec fn given(p: SetReminderParams) -> Seq<Seq<char>> {
    let a: Seq<Seq<char>> = if p.due_at is Some {
        seq!["due_at"@]
    } else {
        seq![]
    };
    let b: Seq<Seq<char>> = if p.pattern is Some {
        a.push("pattern"@)
    } else {
        a
    };
    if p.cron is Some {
        b.push("cron"@)
    } else {
        b
    }
}

/// What is wrong with a request apart from its schedule, if anything: not exactly one schedule field,
/// a blank message, or a blank target, which would match no project.
pub open spec fn request_fault(p: SetReminderParams) -> Option<Seq<char>> {
    let fields = given(p);
    if fields.len() != 1 {
        let got = if fields.len() == 0 {
            "none"@
        } else {
            crate::text::join(fields, " + "@)
        };
        Some("provide exactly one of due_at, pattern, or cron (got "@ + got + ")"@)
    } else if crate::text::blank(p.message@) {
        Some(
            "message must not be empty — it is the text delivered to the user when the reminder fires"@,
        )
    } else if p.target_project is Some && crate::text::blank(p.target_project->0@) {
        Some("target_project must be a non-empty project name, or omit it for a global reminder"@)
    } else {
        None
    }
}

fn find_request_fault(p: &SetReminderParams) -> (r: Option<String>)
    ensures
        crate::text::opt_text(r) == request_fault(*p),
{
    let mut fields: Vec<String> = Vec::new();
    if p.due_at.is_some() {
        fields.push(copy_of("due_at"));
    }
    if p.pattern.is_some() {
        fields.push(copy_of("pattern"));
    }
    if p.cron.is_some() {
        fields.push(copy_of("cron"));
    }
    assert(crate::text::texts(fields@) =~= given(*p));
    if fields.len() != 1 {
        let got = if fields.len() == 0 {
            copy_of("none")
        } else {
            join_texts(&fields, " + ")
        };
        let mut m = copy_of("provide exactly one of due_at, pattern, or cron (got ");
        m.append(got.as_str());
        m.append(")");
        return Some(m);
    }
    if is_blank(p.message.as_str()) {
        return Some(
            copy_of(
                "message must not be empty — it is the text delivered to the user when the reminder fires",
            ),
        );
    }
    match &p.target_project {
        Some(project) => if is_blank(project.as_str()) {
            return Some(
                copy_of(
                    "target_project must be a non-empty project name, or omit it for a global reminder",
                ),
            );
        },
        None => {},
    }
    None
}

// ---------------------------------------------------------------------------
// The schedule that is asked for
// ---------------------------------------------------------------------------
/// A schedule, and the columns that store it.
#[verifier::ext_equal]
pub struct Asked {
    pub plan: Plan,
    pub columns: ScheduleColumns,
}

/// The stored name of a day.
pub open spec fn short_name(w: Weekday) -> Seq<char> {
    match w {
        Weekday::Mon => "mon"@,
        Weekday::Tue => "tue"@,
        Weekday::Wed => "wed"@,
        Weekday::Thu => "thu"@,
        Weekday::Fri => "fri"@,
        Weekday::Sat => "sat"@,
        Weekday::Sun => "sun"@,
    }
}

/// The stored names of a list of days.
pub open spec fn short_names(days: Seq<Weekday>) -> Seq<Seq<char>> {
    days.map_values(|d: Weekday| short_name(d))
}

/// The days that a list of names asks for: each once, in the order in which it first comes, or the
/// complaint about the first name that is no day.
pub open spec fn days_asked(names: Seq<Seq<char>>) -> Result<Seq<Weekday>, Seq<Seq<char>>>
    decreases names.len(),
{
    if names.len() == 0 {
        Ok(seq![])
    } else {
        match days_asked(names.drop_last()) {
            Err(e) => Err(e),
            Ok(days) => match crate::reminders::weekday_read(names.last()) {
                Err(e) => Err(e),
                Ok(d) => Ok(
                    if days.contains(d) {
                        days
                    } else {
                        days.push(d)
                    },
                ),
            },
        }
    }
}

/// The names of the days in a pattern; none where the field is left out.
pub open spec fn pattern_days(p: ReminderPatternParams) -> Seq<Seq<char>> {
    match p.weekdays {
        Some(v) => crate::text::texts(v@),
        None => seq![],
    }
}

/// The pattern that is asked for. Validation takes the day of the month as it was given; it is stored
/// for a monthly pattern only.
pub open spec fn pattern_asked(p: ReminderPatternParams) -> Result<Asked, Seq<Seq<char>>> {
    match crate::reminders::freq_read(p.freq@) {
        Err(e) => Err(e),
        Ok(freq) => match crate::reminders::time_read(p.time@) {
            Err(e) => Err(e),
            Ok(time) => match days_asked(pattern_days(p)) {
                Err(e) => Err(e),
                Ok(weekdays) => match crate::reminders::pattern_read(
                    freq,
                    time,
                    weekdays,
                    p.day_of_month,
                ) {
                    Err(e) => Err(e),
                    Ok(_) => {
                        let day = match p.day_of_month {
                            Some(d) => d,
                            None => 1,
                        };
                        Ok(
                            Asked {
                                plan: Plan::Pattern { freq, time, weekdays, day_of_month: day },
                                columns: ScheduleColumns {
                                    kind: PATTERN@,
                                    due_at: None,
                                    freq: Some(crate::text::lower(p.freq@)),
                                    time_of_day: Some(time.clock()),
                                    weekdays: short_names(weekdays),
                                    day_of_month: if freq == Freq::Monthly {
                                        Some(day as i64)
                                    } else {
                                        None
                                    },
                                    cron_expr: None,
                                },
                            },
                        )
                    },
                },
            },
        },
    }
}

/// The schedule that a request asks for, or why it asks for none that can be kept.
pub open spec fn asked(p: SetReminderParams, zone: Seq<char>) -> Result<Asked, Seq<Seq<char>>> {
    match p.due_at {
        Some(due) => match crate::reminders::datetime_read(due@, zone) {
            Err(e) => Err(e),
            Ok(t) => Ok(
                Asked {
                    plan: Plan::Once { due_at: t },
                    columns: ScheduleColumns {
                        kind: ONCE@,
                        due_at: Some(t),
                        freq: None,
                        time_of_day: None,
                        weekdays: seq![],
                        day_of_month: None,
                        cron_expr: None,
                    },
                },
            ),
        },
        None => match p.pattern {
            Some(pattern) => pattern_asked(pattern),
            None => match p.cron {
                None => Err(seq!["cron schedule missing despite exactly-one check"@]),
                Some(raw) => match crate::reminders::cron_read(raw@) {
                    Err(e) => Err(e),
                    Ok(expr) => Ok(
                        Asked {
                            plan: Plan::Cron { expr },
                            columns: ScheduleColumns {
                                kind: CRON@,
                                due_at: None,
                                freq: None,
                                time_of_day: None,
                                weekdays: seq![],
                                day_of_month: None,
                                cron_expr: Some(expr),
                            },
                        },
                    ),
                },
            },
        },
    }
}

fn short_name_of(w: Weekday) -> (r: &'static str)
    ensures
        r@ == short_name(w),
{
    match w {
        Weekday::Mon => "mon",
        Weekday::Tue => "tue",
        Weekday::Wed => "wed",
        Weekday::Thu => "thu",
        Weekday::Fri => "fri",
        Weekday::Sat => "sat",
        Weekday::Sun => "sun",
    }
}

fn short_name_texts(days: &Vec<Weekday>) -> (r: Vec<String>)
    ensures
        crate::text::texts(r@) == short_names(days@),
{
    let mut r: Vec<String> = Vec::new();
    let mut i: usize = 0;
    while i < days.len()
        invariant
            i <= days@.len(),
            crate::text::texts(r@) == short_names(days@.take(i as int)),
        decreases days@.len() - i,
    {
        let t = copy_of(short_name_of(days[i]));
        assert(short_names(days@.take(i + 1)) =~= short_names(days@.take(i as int)).push(t@));
        r.push(t);
        i = i + 1;
    }
    assert(days@.take(days@.len() as int) =~= days@);
    r
}

fn has_day(days: &Vec<Weekday>, d: Weekday) -> (r: bool)
    ensures
        r == days@.contains(d),
{
    let mut i: usize = 0;
    while i < days.len()
        invariant
            i <= days@.len(),
            forall|k: int| 0 <= k < i ==> days@[k] != d,
        decreases days@.len() - i,
    {
        if days[i] == d {
            assert(days@[i as int] == d);
            return true;
        }
        i = i + 1;
    }
    false
}

proof fn lemma_first_bad_name(names: Seq<Seq<char>>, i: int)
    requires
        0 <= i < names.len(),
        days_asked(names.take(i + 1)) is Err,
    ensures
        days_asked(names) == days_asked(names.take(i + 1)),
    decreases names.len(),
{
    if i + 1 == names.len() {
        assert(names.take(i + 1) =~= names);
    } else {
        assert(names.drop_last().take(i + 1) =~= names.take(i + 1));
        lemma_first_bad_name(names.drop_last(), i);
    }
}

fn read_days(names: &Vec<String>) -> (r: Result<Vec<Weekday>, Failure>)
    ensures
        crate::failure::seen(r) == days_asked(crate::text::texts(names@)),
{
    let ghost all = crate::text::texts(names@);
    let mut days: Vec<Weekday> = Vec::new();
    let mut i: usize = 0;
    assert(all.take(0) =~= seq![]);
    while i < names.len()
        invariant
            i <= names@.len(),
            all == crate::text::texts(names@),
            days_asked(all.take(i as int)) == Ok::<Seq<Weekday>, Seq<Seq<char>>>(days@),
        decreases names@.len() - i,
    {
        let name = names[i].as_str();
        proof {
            assert(all.take(i + 1).drop_last() =~= all.take(i as int));
            assert(all.take(i + 1).last() == name@);
        }
        match parse_weekday(name) {
            Err(e) => {
                proof {
                    lemma_first_bad_name(all, i as int);
                }
                return Err(e);
            },
            Ok(d) => {
                if !has_day(&days, d) {
                    days.push(d);
                }
            },
        }
        i = i + 1;
    }
    assert(all.take(all.len() as int) =~= all);
    Ok(days)
}

/// The schedule part of a row.
struct RowFields {
    kind: &'static str,
    due_at: Option<Instant>,
    freq: Option<String>,
    time_of_day: Option<String>,
    weekdays: Vec<String>,
    day_of_month: Option<i64>,
    cron_expr: Option<String>,
}

impl RowFields {
    spec fn columns(self) -> ScheduleColumns {
        ScheduleColumns {
            kind: self.kind@,
            due_at: self.due_at,
            freq: crate::text::opt_text(self.freq),
            time_of_day: crate::text::opt_text(self.time_of_day),
            weekdays: crate::text::texts(self.weekdays@),
            day_of_month: self.day_of_month,
            cron_expr: crate::text::opt_text(self.cron_expr),
        }
    }
}

spec fn asked_view(r: Result<(ScheduleSpec, RowFields), Failure>) -> Result<
    Asked,
    Seq<Seq<char>>,
> {
    match r {
        Ok(a) => Ok(Asked { plan: a.0@, columns: a.1.columns() }),
        Err(e) => Err(e@),
    }
}

fn read_pattern(p: &ReminderPatternParams) -> (r: Result<(ScheduleSpec, RowFields), Failure>)
    ensures
        asked_view(r) == pattern_asked(*p),
{
    let freq = match parse_freq(p.freq.as_str()) {
        Err(e) => return Err(e),
        Ok(f) => f,
    };
    let time = match parse_time_of_day(p.time.as_str()) {
        Err(e) => return Err(e),
        Ok(t) => t,
    };
    let named = match &p.weekdays {
        Some(v) => copy_texts(v),
        None => Vec::new(),
    };
    assert(crate::text::texts(named@) =~= pattern_days(*p));
    let weekdays = match read_days(&named) {
        Err(e) => return Err(e),
        Ok(d) => d,
    };
    match pattern_to_cron(freq, time, &weekdays, p.day_of_month) {
        Err(e) => return Err(e),
        Ok(_) => {},
    }
    let day: u32 = match p.day_of_month {
        Some(d) => d,
        None => 1,
    };
    let stored: Option<i64> = match freq {
        Freq::Monthly => Some(day as i64),
        _ => None,
    };
    let names = short_name_texts(&weekdays);
    let fields = RowFields {
        kind: PATTERN,
        due_at: None,
        freq: Some(lowered(p.freq.as_str())),
        time_of_day: Some(time.clock_text()),
        weekdays: names,
        day_of_month: stored,
        cron_expr: None,
    };
    Ok((ScheduleSpec::Pattern { freq, time, weekdays, day_of_month: day }, fields))
}

fn read_schedule(p: &SetReminderParams, tz: &Zone) -> (r: Result<
    (ScheduleSpec, RowFields),
    Failure,
>)
    ensures
        asked_view(r) == asked(*p, tz@),
{
    match &p.due_at {
        Some(due) => {
            let due_at = match parse_datetime(due.as_str(), tz) {
                Err(e) => return Err(e),
                Ok(t) => t,
            };
            let fields = RowFields {
                kind: ONCE,
                due_at: Some(due_at),
                freq: None,
                time_of_day: None,
                weekdays: Vec::new(),
                day_of_month: None,
                cron_expr: None,
            };
            assert(fields.columns().weekdays =~= seq![]);
            Ok((ScheduleSpec::Once { due_at }, fields))
        },
        None => match &p.pattern {
            Some(pattern) => read_pattern(pattern),
            None => match &p.cron {
                None => Err(Failure::saying("cron schedule missing despite exactly-one check")),
                Some(raw) => {
                    let expr = match normalize_cron(raw.as_str()) {
                        Err(e) => return Err(e),
                        Ok(e) => e,
                    };
                    let fields = RowFields {
                        kind: CRON,
                        due_at: None,
                        freq: None,
                        time_of_day: None,
                        weekdays: Vec::new(),
                        day_of_month: None,
                        cron_expr: Some(copy_of(expr.as_str())),
                    };
                    assert(fields.columns().weekdays =~= seq![]);
                    Ok((ScheduleSpec::Cron { expr }, fields))
                },
            },
        },
    }
}

// ---------------------------------------------------------------------------
// The request as a whole
// ---------------------------------------------------------------------------
/// What a request comes to: a schedule and a preview of its next three fires, or a refusal. A
/// recurring schedule without a future fire could never be delivered, so it is refused; a one-shot in
/// the past fires on the next check.
pub open spec fn settled(p: SetReminderParams, zone: Seq<char>, now: Instant) -> Result<
    (Asked, Seq<Instant>),
    Seq<Seq<char>>,
> {
    match request_fault(p) {
        Some(m) => Err(seq![m]),
        None => match asked(p, zone) {
            Err(e) => Err(e),
            Ok(a) => match crate::reminders::upcoming_fires(a.plan, now, zone, 3) {
                Err(e) => Err(e),
                Ok(preview) => if preview.len() == 0 && !(a.plan is Once) {
                    Err(
                        seq![
                            "schedule "@ + crate::reminders::in_words(a.plan)
                                + " never fires again (check year fields or impossible dates like Feb 30); no reminder created"@,
                        ],
                    )
                } else {
                    Ok((a, preview))
                },
            },
        },
    }
}

/// When the row is next due: a one-shot at its time even where that is past, so the next check finds
/// it.
pub open spec fn first_due(plan: Plan, preview: Seq<Instant>) -> Option<Instant> {
    match plan {
        Plan::Once { due_at } => Some(due_at),
        _ => if preview.len() > 0 {
            Some(preview[0])
        } else {
            None
        },
    }
}

/// What the caller is warned of: a one-shot in the past, or an expression that restricts both the day
/// of the month and the day of the week.
pub open spec fn warning_for(plan: Plan, preview: Seq<Instant>) -> Option<Seq<char>> {
    match plan {
        Plan::Once { due_at } => if preview.len() == 0 {
            Some(
                "due_at "@ + crate::time::rfc3339_text(due_at)
                    + " is in the past; this reminder will fire on the very next check"@,
            )
        } else {
            None
        },
        Plan::Cron { expr } => if crate::fires::restricts_both_days(expr) {
            Some(
                "this expression restricts both day-of-month and day-of-week, which are ANDed (so '0 9 13 * FRI' is Friday the 13th only, not the 13th plus every Friday) — use two reminders for a union."@,
            )
        } else {
            None
        },
        _ => None,
    }
}

/// Instants in the form that responses carry.
pub open spec fn rfc3339_texts(v: Seq<Instant>) -> Seq<Seq<char>> {
    v.map_values(|t: Instant| crate::time::rfc3339_text(t))
}

/// Whether a validated request is the one that `p` asks for.
pub open spec fn fulfils(
    s: SetReminder,
    p: SetReminderParams,
    zone: Seq<char>,
    a: Asked,
    preview: Seq<Instant>,
) -> bool {
    let due = first_due(a.plan, preview);
    &&& s.row.message@ == p.message@
    &&& crate::text::opt_text(s.row.target_project) == crate::text::opt_text(p.target_project)
    &&& crate::text::opt_text(s.row.prov_project) == crate::text::opt_text(p.prov_project)
    &&& crate::text::opt_text(s.row.prov_session_id) == crate::text::opt_text(p.session_id)
    &&& crate::text::opt_text(s.row.note) == crate::text::opt_text(p.note)
    &&& s.row.columns() == a.columns
    &&& s.row.next_due_at == due
    &&& s.schedule@ == crate::reminders::in_words(a.plan)
    &&& crate::text::opt_text(s.next_due_at) == (match due {
        Some(t) => Some(crate::time::rfc3339_text(t)),
        None => None,
    })
    &&& crate::text::opt_text(s.next_due_at_local) == (match due {
        Some(t) => Some(crate::time::clock_text(t, zone, crate::time::LOCAL_FORMAT@)),
        None => None,
    })
    &&& crate::text::texts(s.next_fire_preview@) == rfc3339_texts(preview)
    &&& s.timezone@ == zone
    &&& crate::text::opt_text(s.warning) == warning_for(a.plan, preview)
}

fn preview_texts(v: &Vec<Instant>) -> (r: Vec<String>)
    ensures
        crate::text::texts(r@) == rfc3339_texts(v@),
{
    let mut r: Vec<String> = Vec::new();
    let mut i: usize = 0;
    while i < v.len()
        invariant
            i <= v@.len(),
            crate::text::texts(r@) == rfc3339_texts(v@.take(i as int)),
        decreases v@.len() - i,
    {
        let t = rfc3339_utc(v[i]);
        assert(rfc3339_texts(v@.take(i + 1)) =~= rfc3339_texts(v@.take(i as int)).push(t@));
        r.push(t);
        i = i + 1;
    }
    assert(v@.take(v@.len() as int) =~= v@);
    r
}

fn find_warning(spec: &ScheduleSpec, preview: &Vec<Instant>) -> (r: Option<String>)
    ensures
        crate::text::opt_text(r) == warning_for(spec@, preview@),
{
    match spec {
        ScheduleSpec::Once { due_at } => if preview.len() == 0 {
            let mut m = copy_of("due_at ");
            let t = rfc3339_utc(*due_at);
            m.append(t.as_str());
            m.append(" is in the past; this reminder will fire on the very next check");
            Some(m)
        } else {
            None
        },
        ScheduleSpec::Cron { expr } => if cron_dom_dow_conflict(expr.as_str()) {
            Some(
                copy_of(
                    "this expression restricts both day-of-month and day-of-week, which are ANDed (so '0 9 13 * FRI' is Friday the 13th only, not the 13th plus every Friday) — use two reminders for a union.",
                ),
            )
        } else {
            None
        },
        _ => None,
    }
}

impl AlexandriaServer {
    /// Validates a request for a reminder. All schedule parsing happens here, when the reminder is
    /// set and not when it is delivered, so that a bad expression or an impossible local time is
    /// refused while the user is still there.
    pub fn do_set_reminder(&self, params: &SetReminderParams, now: Instant) -> (r: Result<
        SetReminder,
        Failure,
    >)
        requires
            now.evaluable(),
        ensures
            match settled(*params, self.reminders.tz@, now) {
                Ok(s) => r matches Ok(set) && fulfils(
                    set,
                    *params,
                    self.reminders.tz@,
                    s.0,
                    s.1,
                ),
                Err(e) => r matches Err(f) && f@ == e,
            },
    {
        let tz = &self.reminders.tz;
        match find_request_fault(params) {
            Some(m) => return Err(Failure::new(m)),
            None => {},
        }
        let (spec, fields) = match read_schedule(params, tz) {
            Err(e) => return Err(e),
            Ok(a) => a,
        };
        let preview = match upcoming(&spec, now, tz, 3) {
            Err(e) => return Err(e),
            Ok(p) => p,
        };
        let schedule = human_readable(&spec);
        let recurring = match &spec {
            ScheduleSpec::Once { .. } => false,
            _ => true,
        };
        if recurring && preview.len() == 0 {
            let mut m = copy_of("schedule ");
            m.append(schedule.as_str());
            m.append(
                " never fires again (check year fields or impossible dates like Feb 30); no reminder created",
            );
            return Err(Failure::new(m));
        }
        let warning = find_warning(&spec, &preview);
        let due: Option<Instant> = match &spec {
            ScheduleSpec::Once { due_at } => Some(*due_at),
            _ => if preview.len() > 0 {
                Some(preview[0])
            } else {
                None
            },
        };
        let next_due_at = match due {
            Some(t) => Some(rfc3339_utc(t)),
            None => None,
        };
        let next_due_at_local = match due {
            Some(t) => Some(minute_local(t, tz)),
            None => None,
        };
        let row = NewReminder {
            message: copy_of(params.message.as_str()),
            target_project: copy_opt(&params.target_project),
            prov_project: copy_opt(&params.prov_project),
            prov_session_id: copy_opt(&params.session_id),
            note: copy_opt(&params.note),
            schedule_kind: copy_of(fields.kind),
            due_at: fields.due_at,
            freq: fields.freq,
            time_of_day: fields.time_of_day,
            weekdays: fields.weekdays,
            day_of_month: fields.day_of_month,
            cron_expr: fields.cron_expr,
            next_due_at: due,
        };
        let next_fire_preview = preview_texts(&preview);
        Ok(
            SetReminder {
                row,
                schedule,
                next_due_at,
                next_due_at_local,
                next_fire_preview,
                timezone: copy_of(tz.name()),
                warning,
            },
        )
    }
}

} // verus!
