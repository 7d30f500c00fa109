//! Pure reminder scheduling: spec parsing and validation, next-fire computation, occurrence
//! counting.
use vstd::prelude::*;

use crate::failure::Failure;
use crate::fires::{check_cron, count_fires, fires_after, OccurrenceCount, Weekday};
use crate::numbers::{decimal_text, parse_u32, size_text, two_digit_text};
use crate::text::{copy_of, cut_at, join_texts, lowered, quote, same, trimmed, words_of};
use crate::time::{
    minute_utc, read_rfc3339, read_wall_clock, resolve_local, Instant, LocalTime, Zone,
};

verus! {

broadcast use crate::text::lemma_texts_push;

/// How often a pattern repeats.
#[derive(Debug, Clone, Copy, PartialEq, Eq, Structural)]
pub enum Freq {
    Daily,
    Weekly,
    Monthly,
}

impl View for Freq {
    type V = Freq;

    open spec fn view(&self) -> Freq {
        *self
    }
}

/// A time of day to the minute. Seconds are always zero: reminders have the granularity of a minute.
#[derive(Debug, Clone, Copy, PartialEq, Eq, Structural)]
pub struct TimeOfDay {
    pub hour: u32,
    pub minute: u32,
}

impl View for TimeOfDay {
    type V = TimeOfDay;

    open spec fn view(&self) -> TimeOfDay {
        *self
    }
}

impl TimeOfDay {
    /// Whether a clock can show this time.
    pub open spec fn valid(self) -> bool {
        self.hour < 24 && self.minute < 60
    }

    /// The time in the form `HH:MM`.
    pub open spec fn clock(self) -> Seq<char> {
        crate::numbers::two_digits(self.hour as nat) + ":"@ + crate::numbers::two_digits(
            self.minute as nat,
        )
    }

    /// The time in the form `HH:MM`.
    pub fn clock_text(&self) -> (r: String)
        ensures
            r@ == self.clock(),
    {
        let mut r = two_digit_text(self.hour);
        r.append(":");
        let m = two_digit_text(self.minute);
        r.append(m.as_str());
        r
    }
}

/// A validated reminder schedule.
#[derive(Clone, Debug, PartialEq, Eq)]
pub enum ScheduleSpec {
    Once { due_at: Instant },
    Pattern {
        freq: Freq,
        time: TimeOfDay,
        /// Non-empty exactly for a weekly pattern.
        weekdays: Vec<Weekday>,
        /// 1 to 31, used for a monthly pattern. Short months are skipped.
        day_of_month: u32,
    },
    Cron {
        /// Normalized expression of six or seven fields, seconds first.
        expr: String,
    },
}

/// A schedule as plain values.
#[verifier::ext_equal]
pub enum Plan {
    Once { due_at: Instant },
    Pattern { freq: Freq, time: TimeOfDay, weekdays: Seq<Weekday>, day_of_month: u32 },
    Cron { expr: Seq<char> },
}

impl View for ScheduleSpec {
    type V = Plan;

    open spec fn view(&self) -> Plan {
        match *self {
            ScheduleSpec::Once { due_at } => Plan::Once { due_at },
            ScheduleSpec::Pattern { freq, time, weekdays, day_of_month } => Plan::Pattern {
                freq,
                time,
                weekdays: weekdays@,
                day_of_month,
            },
            ScheduleSpec::Cron { expr } => Plan::Cron { expr: expr@ },
        }
    }
}

impl Plan {
    /// What every validated schedule satisfies.
    pub open spec fn valid(self) -> bool {
        match self {
            Plan::Once { .. } => true,
            Plan::Pattern { freq, time, weekdays, day_of_month } => {
                &&& time.valid()
                &&& weekdays.len() > 0 <==> freq == Freq::Weekly
                &&& 1 <= day_of_month <= 31
            },
            Plan::Cron { expr } => crate::fires::cron_fault(expr) is None,
        }
    }
}

// ---------------------------------------------------------------------------
// Reading names and times
// ---------------------------------------------------------------------------
/// The frequency of a name, in any case.
pub open spec fn freq_named(s: Seq<char>) -> Option<Freq> {
    let name = crate::text::lower(s);
    if name == "daily"@ {
        Some(Freq::Daily)
    } else if name == "weekly"@ {
        Some(Freq::Weekly)
    } else if name == "monthly"@ {
        Some(Freq::Monthly)
    } else {
        None
    }
}

/// What reading a frequency gives.
pub open spec fn freq_read(s: Seq<char>) -> Result<Freq, Seq<Seq<char>>> {
    match freq_named(s) {
        Some(f) => Ok(f),
        None => Err(
            seq![
                "freq must be daily|weekly|monthly, got "@ + crate::text::quoted(
                    crate::text::lower(s),
                ),
            ],
        ),
    }
}

/// Reads the name of a frequency, in any case.
pub fn parse_freq(s: &str) -> (r: Result<Freq, Failure>)
    ensures
        crate::failure::seen(r) == freq_read(s@),
{
    let name = lowered(s);
    if same(name.as_str(), "daily") {
        Ok(Freq::Daily)
    } else if same(name.as_str(), "weekly") {
        Ok(Freq::Weekly)
    } else if same(name.as_str(), "monthly") {
        Ok(Freq::Monthly)
    } else {
        let mut m = copy_of("freq must be daily|weekly|monthly, got ");
        let q = quote(name.as_str());
        m.append(q.as_str());
        Err(Failure::new(m))
    }
}

/// The day of a name, in any case: three letters or all of them.
pub open spec fn weekday_named(s: Seq<char>) -> Option<Weekday> {
    let name = crate::text::lower(s);
    if name == "mon"@ || name == "monday"@ {
        Some(Weekday::Mon)
    } else if name == "tue"@ || name == "tuesday"@ {
        Some(Weekday::Tue)
    } else if name == "wed"@ || name == "wednesday"@ {
        Some(Weekday::Wed)
    } else if name == "thu"@ || name == "thursday"@ {
        Some(Weekday::Thu)
    } else if name == "fri"@ || name == "friday"@ {
        Some(Weekday::Fri)
    } else if name == "sat"@ || name == "saturday"@ {
        Some(Weekday::Sat)
    } else if name == "sun"@ || name == "sunday"@ {
        Some(Weekday::Sun)
    } else {
        None
    }
}

/// What reading a day of the week gives.
pub open spec fn weekday_read(s: Seq<char>) -> Result<Weekday, Seq<Seq<char>>> {
    match weekday_named(s) {
        Some(d) => Ok(d),
        None => Err(
            seq![
                "invalid weekday "@ + crate::text::quoted(crate::text::lower(s))
                    + "; use mon..sun"@,
            ],
        ),
    }
}

/// Reads the name of a day, three letters or in full, in any case. Numbers are rejected: whether
/// Sunday is 0 or 1 differs between cron dialects, and guessing means silent misfires.
pub fn parse_weekday(s: &str) -> (r: Result<Weekday, Failure>)
    ensures
        crate::failure::seen(r) == weekday_read(s@),
{
    let name = lowered(s);
    let n = name.as_str();
    if same(n, "mon") || same(n, "monday") {
        Ok(Weekday::Mon)
    } else if same(n, "tue") || same(n, "tuesday") {
        Ok(Weekday::Tue)
    } else if same(n, "wed") || same(n, "wednesday") {
        Ok(Weekday::Wed)
    } else if same(n, "thu") || same(n, "thursday") {
        Ok(Weekday::Thu)
    } else if same(n, "fri") || same(n, "friday") {
        Ok(Weekday::Fri)
    } else if same(n, "sat") || same(n, "saturday") {
        Ok(Weekday::Sat)
    } else if same(n, "sun") || same(n, "sunday") {
        Ok(Weekday::Sun)
    } else {
        let mut m = copy_of("invalid weekday ");
        let q = quote(n);
        m.append(q.as_str());
        m.append("; use mon..sun");
        Err(Failure::new(m))
    }
}

/// What reading a time of day gives.
pub open spec fn time_read(s: Seq<char>) -> Result<TimeOfDay, Seq<Seq<char>>> {
    match crate::text::cut(s, ':') {
        None => Err(seq!["time must be HH:MM, got "@ + crate::text::quoted(s)]),
        Some((h, m)) => match crate::numbers::number_of(h, u32::MAX as int) {
            Err(e) => Err(seq!["invalid hour in time "@ + crate::text::quoted(s), e.says()]),
            Ok(hour) => match crate::numbers::number_of(m, u32::MAX as int) {
                Err(e) => Err(seq!["invalid minute in time "@ + crate::text::quoted(s), e.says()]),
                Ok(minute) => if hour > 23 || minute > 59 {
                    Err(seq!["time out of range: "@ + crate::text::quoted(s)])
                } else {
                    Ok(TimeOfDay { hour: hour as u32, minute: minute as u32 })
                },
            },
        },
    }
}

fn naming(prefix: &str, s: &str) -> (r: String)
    ensures
        r@ == prefix@ + crate::text::quoted(s@),
{
    let mut m = copy_of(prefix);
    let q = quote(s);
    m.append(q.as_str());
    m
}

/// Reads `HH:MM` (24-hour).
pub fn parse_time_of_day(s: &str) -> (r: Result<TimeOfDay, Failure>)
    ensures
        crate::failure::seen(r) == time_read(s@),
        r matches Ok(t) ==> t.valid(),
{
    let parts = match cut_at(s, ':') {
        None => return Err(Failure::new(naming("time must be HH:MM, got ", s))),
        Some(p) => p,
    };
    let hour = match parse_u32(parts.0.as_str()) {
        Err(e) => {
            return Err(Failure::caused(naming("invalid hour in time ", s), copy_of(e.message())));
        },
        Ok(h) => h,
    };
    let minute = match parse_u32(parts.1.as_str()) {
        Err(e) => {
            return Err(Failure::caused(naming("invalid minute in time ", s), copy_of(e.message())));
        },
        Ok(m) => m,
    };
    if hour > 23 || minute > 59 {
        return Err(Failure::new(naming("time out of range: ", s)));
    }
    Ok(TimeOfDay { hour, minute })
}

// ---------------------------------------------------------------------------
// Cron expressions
// ---------------------------------------------------------------------------
/// The seconds-first form of an expression, or why its number of fields is wrong: five fields get a
/// zero for the seconds, six and seven are trimmed.
pub open spec fn seconds_first(expr: Seq<char>) -> Result<Seq<char>, Seq<char>> {
    let fields = crate::text::words(expr).len();
    if fields == 5 {
        Ok("0 "@ + expr)
    } else if fields == 6 || fields == 7 {
        Ok(crate::text::trim(expr))
    } else {
        Err(
            "cron expression must have 5-7 fields, got "@ + crate::numbers::decimal(fields) + ": "@
                + crate::text::quoted(expr),
        )
    }
}

/// What normalizing an expression gives.
pub open spec fn cron_read(expr: Seq<char>) -> Result<Seq<char>, Seq<Seq<char>>> {
    match seconds_first(expr) {
        Err(m) => Err(seq![m]),
        Ok(e) => match crate::fires::cron_fault(e) {
            None => Ok(e),
            Some(why) => Err(seq!["invalid cron expression "@ + crate::text::quoted(expr), why]),
        },
    }
}

/// The seconds-first form of an expression.
pub fn add_seconds(expr: &str) -> (r: Result<String, String>)
    ensures
        seconds_first(expr@) == (match r {
            Ok(e) => Ok(e@),
            Err(m) => Err(m@),
        }),
{
    let words = words_of(expr);
    let fields = words.len();
    assert(crate::text::words(expr@).len() == fields);
    if fields == 5 {
        let mut e = copy_of("0 ");
        e.append(expr);
        Ok(e)
    } else if fields == 6 || fields == 7 {
        Ok(trimmed(expr))
    } else {
        let mut m = copy_of("cron expression must have 5-7 fields, got ");
        let n = size_text(fields);
        m.append(n.as_str());
        m.append(": ");
        let q = quote(expr);
        m.append(q.as_str());
        Err(m)
    }
}

/// Validates a cron string of five, six or seven fields and normalizes it to the seconds-first
/// form. Five-field input gets `0 ` prepended.
pub fn normalize_cron(expr: &str) -> (r: Result<String, Failure>)
    ensures
        crate::failure::seen(r) == cron_read(expr@),
{
    let e = match add_seconds(expr) {
        Err(m) => return Err(Failure::new(m)),
        Ok(e) => e,
    };
    match check_cron(e.as_str()) {
        None => Ok(e),
        Some(why) => Err(Failure::caused(naming("invalid cron expression ", expr), why)),
    }
}

/// The day as a cron expression writes it.
pub fn weekday_token(w: Weekday) -> (r: &'static str)
    ensures
        r@ == w.token(),
        r@ == (match w {
            Weekday::Mon => "MON"@,
            Weekday::Tue => "TUE"@,
            Weekday::Wed => "WED"@,
            Weekday::Thu => "THU"@,
            Weekday::Fri => "FRI"@,
            Weekday::Sat => "SAT"@,
            Weekday::Sun => "SUN"@,
        }),
{
    match w {
        Weekday::Mon => "MON",
        Weekday::Tue => "TUE",
        Weekday::Wed => "WED",
        Weekday::Thu => "THU",
        Weekday::Fri => "FRI",
        Weekday::Sat => "SAT",
        Weekday::Sun => "SUN",
    }
}

/// The cron expression of a pattern, or which rule on its fields is broken: a weekly pattern needs at
/// least one day of the week, a monthly one a day of the month from 1 to 31, a daily one neither.
pub open spec fn pattern_expr(
    freq: Freq,
    time: TimeOfDay,
    weekdays: Seq<Weekday>,
    day_of_month: Option<u32>,
) -> Result<Seq<char>, Seq<char>> {
    let h = time.hour as nat;
    let m = time.minute as nat;
    match freq {
        Freq::Daily => if weekdays.len() > 0 || day_of_month is Some {
            Err("daily pattern takes no weekdays/day_of_month"@)
        } else {
            Ok(crate::fires::daily_expr(h, m))
        },
        Freq::Weekly => if weekdays.len() == 0 {
            Err("weekly pattern requires at least one weekday"@)
        } else if day_of_month is Some {
            Err("weekly pattern takes no day_of_month"@)
        } else {
            Ok(crate::fires::weekly_expr(h, m, weekdays))
        },
        Freq::Monthly => match day_of_month {
            None => Err("monthly pattern requires day_of_month"@),
            Some(d) => if !(1 <= d <= 31) {
                Err("day_of_month must be 1-31, got "@ + crate::numbers::decimal(d as nat))
            } else if weekdays.len() > 0 {
                Err("monthly pattern takes no weekdays"@)
            } else {
                Ok(crate::fires::monthly_expr(h, m, d as nat))
            },
        },
    }
}

/// What compiling a pattern gives.
pub open spec fn pattern_read(
    freq: Freq,
    time: TimeOfDay,
    weekdays: Seq<Weekday>,
    day_of_month: Option<u32>,
) -> Result<Seq<char>, Seq<Seq<char>>> {
    match pattern_expr(freq, time, weekdays, day_of_month) {
        Err(m) => Err(seq![m]),
        Ok(e) => match crate::fires::cron_fault(e) {
            None => Ok(e),
            Some(why) => Err(seq!["internal error: compiled pattern is invalid cron"@, why]),
        },
    }
}

fn minute_hour(time: TimeOfDay) -> (r: String)
    ensures
        r@ == "0 "@ + crate::numbers::decimal(time.minute as nat) + " "@ + crate::numbers::decimal(
            time.hour as nat,
        ),
{
    let mut e = copy_of("0 ");
    let m = decimal_text(time.minute as u64);
    e.append(m.as_str());
    e.append(" ");
    let h = decimal_text(time.hour as u64);
    e.append(h.as_str());
    e
}

fn token_texts(weekdays: &Vec<Weekday>) -> (r: Vec<String>)
    ensures
        crate::text::texts(r@) == crate::fires::tokens(weekdays@),
{
    let mut r: Vec<String> = Vec::new();
    let mut i: usize = 0;
    while i < weekdays.len()
        invariant
            i <= weekdays@.len(),
            crate::text::texts(r@) == crate::fires::tokens(weekdays@.take(i as int)),
        decreases weekdays@.len() - i,
    {
        let t = copy_of(weekday_token(weekdays[i]));
        assert(crate::fires::tokens(weekdays@.take(i + 1)) =~= crate::fires::tokens(
            weekdays@.take(i as int),
        ).push(t@));
        r.push(t);
        i = i + 1;
    }
    assert(weekdays@.take(weekdays@.len() as int) =~= weekdays@);
    r
}

/// Compiles a named pattern to a normalized (seconds-first) cron expression, and validates the
/// combination of its fields. A pattern at a time that a clock can show always compiles once its
/// fields fit its frequency.
pub fn pattern_to_cron(
    freq: Freq,
    time: TimeOfDay,
    weekdays: &Vec<Weekday>,
    day_of_month: Option<u32>,
) -> (r: Result<String, Failure>)
    ensures
        crate::failure::seen(r) == pattern_read(freq, time, weekdays@, day_of_month),
        time.valid() ==> (r is Ok <==> pattern_expr(freq, time, weekdays@, day_of_month) is Ok),
{
    let mut expr = minute_hour(time);
    match freq {
        Freq::Daily => {
            if weekdays.len() > 0 || day_of_month.is_some() {
                return Err(Failure::saying("daily pattern takes no weekdays/day_of_month"));
            }
            expr.append(" * * *");
        },
        Freq::Weekly => {
            if weekdays.len() == 0 {
                return Err(Failure::saying("weekly pattern requires at least one weekday"));
            }
            if day_of_month.is_some() {
                return Err(Failure::saying("weekly pattern takes no day_of_month"));
            }
            expr.append(" * * ");
            let tokens = token_texts(weekdays);
            let dows = join_texts(&tokens, ",");
            expr.append(dows.as_str());
        },
        Freq::Monthly => {
            let d: u32 = match day_of_month {
                None => return Err(Failure::saying("monthly pattern requires day_of_month")),
                Some(d) => d,
            };
            if !(1 <= d && d <= 31) {
                let mut m = copy_of("day_of_month must be 1-31, got ");
                let n = decimal_text(d as u64);
                m.append(n.as_str());
                return Err(Failure::new(m));
            }
            if weekdays.len() > 0 {
                return Err(Failure::saying("monthly pattern takes no weekdays"));
            }
            expr.append(" ");
            let n = decimal_text(d as u64);
            expr.append(n.as_str());
            expr.append(" * *");
        },
    }
    assert(pattern_expr(freq, time, weekdays@, day_of_month) == Ok::<Seq<char>, Seq<char>>(expr@));
    match check_cron(expr.as_str()) {
        None => Ok(expr),
        Some(why) => Err(
            Failure::caused(copy_of("internal error: compiled pattern is invalid cron"), why),
        ),
    }
}

/// The full name of a day, for human-facing output.
pub open spec fn full_name(w: Weekday) -> Seq<char> {
    match w {
        Weekday::Mon => "Monday"@,
        Weekday::Tue => "Tuesday"@,
        Weekday::Wed => "Wednesday"@,
        Weekday::Thu => "Thursday"@,
        Weekday::Fri => "Friday"@,
        Weekday::Sat => "Saturday"@,
        Weekday::Sun => "Sunday"@,
    }
}

/// The full name of a day.
pub fn weekday_full_name(w: Weekday) -> (r: &'static str)
    ensures
        r@ == full_name(w),
{
    match w {
        Weekday::Mon => "Monday",
        Weekday::Tue => "Tuesday",
        Weekday::Wed => "Wednesday",
        Weekday::Thu => "Thursday",
        Weekday::Fri => "Friday",
        Weekday::Sat => "Saturday",
        Weekday::Sun => "Sunday",
    }
}

// ---------------------------------------------------------------------------
// Datetimes
// ---------------------------------------------------------------------------
/// The wall-clock reading of a text in the first of the four accepted forms that fits it.
pub open spec fn naive_read(s: Seq<char>) -> Option<Instant> {
    match crate::time::wall_clock(s, "%Y-%m-%dT%H:%M:%S"@) {
        Some(t) => Some(t),
        None => match crate::time::wall_clock(s, "%Y-%m-%dT%H:%M"@) {
            Some(t) => Some(t),
            None => match crate::time::wall_clock(s, "%Y-%m-%d %H:%M:%S"@) {
                Some(t) => Some(t),
                None => crate::time::wall_clock(s, "%Y-%m-%d %H:%M"@),
            },
        },
    }
}

/// What a text without an offset gives, once what it reads and what that means in the zone are
/// known: a skipped local time has to be moved, a repeated one to be pinned to an offset.
pub open spec fn local_read(s: Seq<char>, zone: Seq<char>, local: Option<LocalTime>) -> Result<
    Instant,
    Seq<Seq<char>>,
> {
    match local {
        None => Err(
            seq![
                "could not parse datetime "@ + crate::text::quoted(s)
                    + "; use ISO-8601, e.g. 2026-09-10T15:00:00Z"@,
            ],
        ),
        Some(LocalTime::Single(t)) => Ok(t),
        Some(LocalTime::Gap) => Err(
            seq![
                "local time "@ + crate::text::quoted(s) + " does not exist in "@ + zone
                    + " (spring-forward gap); pick a time after the transition"@,
            ],
        ),
        Some(LocalTime::Fold) => Err(
            seq![
                "local time "@ + crate::text::quoted(s) + " is ambiguous in "@ + zone
                    + " (fall-back fold); specify a UTC offset instead"@,
            ],
        ),
    }
}

/// What reading a datetime gives: an explicit offset is honored, and a text without one is read on
/// the clocks of the zone.
pub open spec fn datetime_read(s: Seq<char>, zone: Seq<char>) -> Result<Instant, Seq<Seq<char>>> {
    match crate::time::rfc3339_instant(s) {
        Some(t) => Ok(t),
        None => local_read(
            s,
            zone,
            match naive_read(s) {
                Some(clock) => Some(crate::time::local_time(clock, zone)),
                None => None,
            },
        ),
    }
}

/// What a text without an offset gives, once its meaning in the zone is known.
pub fn settle_local(input: &str, tz: &Zone, local: Option<LocalTime>) -> (r: Result<
    Instant,
    Failure,
>)
    ensures
        crate::failure::seen(r) == local_read(input@, tz@, local),
{
    match local {
        None => {
            let mut m = naming("could not parse datetime ", input);
            m.append("; use ISO-8601, e.g. 2026-09-10T15:00:00Z");
            Err(Failure::new(m))
        },
        Some(LocalTime::Single(t)) => Ok(t),
        Some(LocalTime::Gap) => {
            let mut m = naming("local time ", input);
            m.append(" does not exist in ");
            m.append(tz.name());
            m.append(" (spring-forward gap); pick a time after the transition");
            Err(Failure::new(m))
        },
        Some(LocalTime::Fold) => {
            let mut m = naming("local time ", input);
            m.append(" is ambiguous in ");
            m.append(tz.name());
            m.append(" (fall-back fold); specify a UTC offset instead");
            Err(Failure::new(m))
        },
    }
}

fn read_naive(input: &str) -> (r: Option<Instant>)
    ensures
        r == naive_read(input@),
{
    let a = read_wall_clock(input, "%Y-%m-%dT%H:%M:%S");
    if a.is_some() {
        return a;
    }
    let b = read_wall_clock(input, "%Y-%m-%dT%H:%M");
    if b.is_some() {
        return b;
    }
    let c = read_wall_clock(input, "%Y-%m-%d %H:%M:%S");
    if c.is_some() {
        return c;
    }
    read_wall_clock(input, "%Y-%m-%d %H:%M")
}

/// Reads an ISO-8601 datetime. Explicit offsets are honored; naive timestamps are interpreted in
/// `tz`. Local times that a transition removed or duplicated are refused rather than guessed.
pub fn parse_datetime(input: &str, tz: &Zone) -> (r: Result<Instant, Failure>)
    ensures
        crate::failure::seen(r) == datetime_read(input@, tz@),
{
    match read_rfc3339(input) {
        Some(t) => Ok(t),
        None => {
            let local = match read_naive(input) {
                Some(clock) => Some(resolve_local(clock, tz.name())),
                None => None,
            };
            settle_local(input, tz, local)
        },
    }
}

// ---------------------------------------------------------------------------
// Fires
// ---------------------------------------------------------------------------
/// The valid expression of a recurring schedule.
pub open spec fn compiled(plan: Plan) -> Result<Seq<char>, Seq<Seq<char>>> {
    match plan {
        Plan::Once { .. } => Err(seq!["Once has no recurring schedule"@]),
        Plan::Pattern { freq, time, weekdays, day_of_month } => pattern_read(
            freq,
            time,
            weekdays,
            if freq == Freq::Monthly {
                Some(day_of_month)
            } else {
                None
            },
        ),
        Plan::Cron { expr } => match crate::fires::cron_fault(expr) {
            None => Ok(expr),
            Some(why) => Err(seq![why]),
        },
    }
}

/// Compiles any recurring spec to an expression that the cron crate accepts.
pub fn compiled_schedule(spec: &ScheduleSpec) -> (r: Result<String, Failure>)
    ensures
        crate::failure::seen(r) == compiled(spec@),
        r matches Ok(e) ==> crate::fires::cron_fault(e@) is None,
{
    match spec {
        ScheduleSpec::Once { .. } => Err(Failure::saying("Once has no recurring schedule")),
        ScheduleSpec::Pattern { freq, time, weekdays, day_of_month } => {
            let day = match *freq {
                Freq::Monthly => Some(*day_of_month),
                _ => None,
            };
            pattern_to_cron(*freq, *time, weekdays, day)
        },
        ScheduleSpec::Cron { expr } => match check_cron(expr.as_str()) {
            None => Ok(copy_of(expr.as_str())),
            Some(why) => Err(Failure::new(why)),
        },
    }
}

/// The next `n` fire times of a schedule strictly after an instant, evaluated in a zone.
pub open spec fn upcoming_fires(plan: Plan, from: Instant, zone: Seq<char>, n: nat) -> Result<
    Seq<Instant>,
    Seq<Seq<char>>,
> {
    match plan {
        Plan::Once { due_at } => Ok(
            if due_at.after(from) {
                seq![due_at]
            } else {
                seq![]
            },
        ),
        _ => match compiled(plan) {
            Err(e) => Err(e),
            Ok(expr) => Ok(crate::fires::next_fires(expr, from, zone, n)),
        },
    }
}

/// The first fire of a schedule strictly after an instant, evaluated in a zone.
pub open spec fn first_fire(plan: Plan, after: Instant, zone: Seq<char>) -> Result<
    Option<Instant>,
    Seq<Seq<char>>,
> {
    match upcoming_fires(plan, after, zone, 1) {
        Err(e) => Err(e),
        Ok(fires) => Ok(
            if fires.len() > 0 {
                Some(fires[0])
            } else {
                None
            },
        ),
    }
}

/// Every upcoming fire is strictly after the start.
pub proof fn upcoming_fires_are_later(plan: Plan, from: Instant, zone: Seq<char>, n: nat)
    ensures
        upcoming_fires(plan, from, zone, n) matches Ok(fires) ==> forall|i: int|
            0 <= i < fires.len() ==> (#[trigger] fires[i]).after(from),
{
    match compiled(plan) {
        Ok(expr) => crate::fires::fires_are_strictly_after(expr, from, zone, n),
        Err(_) => {},
    }
}

/// The next fire is the first of the upcoming ones, however many are asked for, so which of the two
/// a caller asks never decides what is stored.
pub proof fn next_fire_is_the_first_upcoming(plan: Plan, from: Instant, zone: Seq<char>, n: nat)
    requires
        n >= 1,
    ensures
        first_fire(plan, from, zone) == (match upcoming_fires(plan, from, zone, n) {
            Err(e) => Err(e),
            Ok(fires) => Ok(
                if fires.len() > 0 {
                    Some(fires[0])
                } else {
                    None
                },
            ),
        }),
{
    match compiled(plan) {
        Ok(expr) => crate::fires::more_fires_keep_the_first(expr, from, zone, 1, n),
        Err(_) => {},
    }
}

/// The next `n` fire times strictly after `from`. A one-shot yields its due time while that is still
/// in the future, else nothing.
pub fn upcoming(spec: &ScheduleSpec, from: Instant, tz: &Zone, n: usize) -> (r: Result<
    Vec<Instant>,
    Failure,
>)
    requires
        spec is Once || from.evaluable(),
    ensures
        crate::failure::seen(r) == upcoming_fires(spec@, from, tz@, n as nat),
        tz@ == "UTC"@ && from.secs() >= crate::fires::WALKS_FROM && !(spec is Once) ==> (r matches Ok(
            fires,
        ) ==> compiled(spec@) is Ok && crate::fires::utc_walk(
            compiled(spec@)->Ok_0,
            from.secs(),
            n as nat,
            fires@,
        )),
{
    match spec {
        ScheduleSpec::Once { due_at } => {
            let mut fires: Vec<Instant> = Vec::new();
            if due_at.is_after(from) {
                fires.push(*due_at);
            }
            assert(fires@ =~= upcoming_fires(spec@, from, tz@, n as nat)->Ok_0);
            Ok(fires)
        },
        _ => {
            let expr = match compiled_schedule(spec) {
                Err(e) => return Err(e),
                Ok(e) => e,
            };
            Ok(fires_after(expr.as_str(), from, tz, n))
        },
    }
}

/// The first fire strictly after `after`, or nothing for a past one-shot and for an expression that
/// never fires again. Recurring schedules are evaluated on the clocks of `tz`.
pub fn next_fire(spec: &ScheduleSpec, after: Instant, tz: &Zone) -> (r: Result<
    Option<Instant>,
    Failure,
>)
    requires
        spec is Once || after.evaluable(),
    ensures
        crate::failure::seen(r) == first_fire(spec@, after, tz@),
        r matches Ok(Some(t)) ==> t.after(after),
        tz@ == "UTC"@ && after.secs() >= crate::fires::WALKS_FROM && !(spec is Once) ==> (r
            matches Ok(Some(t)) ==> {
            &&& compiled(spec@) is Ok
            &&& t.nanos() == 0
            &&& crate::fires::utc_fire(compiled(spec@)->Ok_0, t.secs())
            &&& forall|s: int|
                after.secs() < s < t.secs() ==> !#[trigger] crate::fires::utc_fire(
                    compiled(spec@)->Ok_0,
                    s,
                )
        }),
        tz@ == "UTC"@ && after.secs() >= crate::fires::WALKS_FROM && !(spec is Once) && r == Ok::<
            Option<Instant>,
            Failure,
        >(None) ==> forall|s: int|
            after.secs() < s ==> !#[trigger] crate::fires::utc_fire(compiled(spec@)->Ok_0, s),
{
    proof {
        upcoming_fires_are_later(spec@, after, tz@, 1);
    }
    match upcoming(spec, after, tz, 1) {
        Err(e) => Err(e),
        Ok(fires) => if fires.len() > 0 {
            proof {
                if tz@ == "UTC"@ && after.secs() >= crate::fires::WALKS_FROM && !(spec is Once) {
                    assert(fires@.len() == 1) by {
                        crate::fires::fires_are_strictly_after(
                            compiled(spec@)->Ok_0,
                            after,
                            tz@,
                            1,
                        );
                    }
                    assert(fires@.last() == fires@[0]);
                    assert(crate::fires::falls_on(fires@, fires@[0].secs()));
                    assert forall|s: int| after.secs() < s < fires@[0].secs() implies !
                    #[trigger] crate::fires::utc_fire(compiled(spec@)->Ok_0, s) by {
                        assert(!crate::fires::falls_on(fires@, s));
                    }
                }
            }
            Ok(Some(fires[0]))
        } else {
            Ok(None)
        },
    }
}

/// How many occurrences of a schedule lie strictly after one instant and not after another: none for
/// a one-shot, whose only occurrence is the delivery itself.
pub open spec fn missed(plan: Plan, after: Instant, until: Instant, zone: Seq<char>) -> Result<
    OccurrenceCount,
    Seq<Seq<char>>,
> {
    if plan is Once || !until.after(after) {
        Ok(OccurrenceCount { count: 0, saturated: false })
    } else {
        match compiled(plan) {
            Err(e) => Err(e),
            Ok(expr) => Ok(crate::fires::occurrences(expr, after, until, zone)),
        }
    }
}

/// How many occurrences of a schedule lie in UTC strictly after one instant and not after another, however
/// many.
pub open spec fn utc_missed(plan: Plan, after: Instant, until: Instant) -> Result<
    nat,
    Seq<Seq<char>>,
> {
    if plan is Once || !until.after(after) {
        Ok(0)
    } else {
        match compiled(plan) {
            Err(e) => Err(e),
            Ok(expr) => Ok(crate::fires::utc_count(expr, after, until)),
        }
    }
}

/// The occurrences of two adjoining windows add up to those of both together: one at the seam is counted
/// in the first window and not again in the second, an empty window counts none, and a one-shot counts none
/// in any. Left out are windows of which the first starts before the year zero and the second does not.
pub proof fn occurrences_of_adjoining_windows_add_up(plan: Plan, a: Instant, b: Instant, c: Instant)
    requires
        !a.after(b),
        !b.after(c),
        a.secs() >= crate::fires::WALKS_FROM || b.secs() < crate::fires::WALKS_FROM,
    ensures
        utc_missed(plan, a, c) matches Ok(k) ==> {
            &&& utc_missed(plan, a, b) is Ok
            &&& utc_missed(plan, b, c) is Ok
            &&& utc_missed(plan, a, b)->Ok_0 + utc_missed(plan, b, c)->Ok_0 == k
        },
        plan is Once ==> utc_missed(plan, a, c) == Ok::<nat, Seq<Seq<char>>>(0),
{
    crate::time::instants_are_totally_ordered(a, b);
    crate::time::instants_are_totally_ordered(b, c);
    match compiled(plan) {
        Ok(expr) => crate::fires::adjoining_windows_add_up(expr, a, b, c),
        Err(_) => {},
    }
}

/// Counts occurrences strictly after `after_exclusive` and up to `until_inclusive`, and says whether
/// the count stopped at its bound. In UTC it counts all there are, up to the bound.
pub fn occurrence_count(
    spec: &ScheduleSpec,
    after_exclusive: Instant,
    until_inclusive: Instant,
    tz: &Zone,
) -> (r: Result<OccurrenceCount, Failure>)
    requires
        spec is Once || !until_inclusive.after(after_exclusive) || after_exclusive.evaluable(),
    ensures
        crate::failure::seen(r) == missed(spec@, after_exclusive, until_inclusive, tz@),
        tz@ == "UTC"@ ==> match utc_missed(spec@, after_exclusive, until_inclusive) {
            Ok(n) => r matches Ok(count) && count == crate::fires::capped(n),
            Err(e) => r matches Err(f) && f@ == e,
        },
{
    match spec {
        ScheduleSpec::Once { .. } => return Ok(OccurrenceCount { count: 0, saturated: false }),
        _ => {},
    }
    if !until_inclusive.is_after(after_exclusive) {
        return Ok(OccurrenceCount { count: 0, saturated: false });
    }
    match compiled_schedule(spec) {
        Err(e) => Err(e),
        Ok(expr) => Ok(count_fires(expr.as_str(), after_exclusive, until_inclusive, tz)),
    }
}

/// Counts occurrences strictly after `after_exclusive` and up to `until_inclusive`: how many fires
/// were missed while nobody consumed them. Saturates at `MAX_ITER` walked fires.
pub fn occurrences_between(
    spec: &ScheduleSpec,
    after_exclusive: Instant,
    until_inclusive: Instant,
    tz: &Zone,
) -> (r: Result<u64, Failure>)
    requires
        spec is Once || !until_inclusive.after(after_exclusive) || after_exclusive.evaluable(),
    ensures
        match missed(spec@, after_exclusive, until_inclusive, tz@) {
            Ok(n) => r matches Ok(count) && count == n.count,
            Err(e) => r matches Err(f) && f@ == e,
        },
        tz@ == "UTC"@ ==> match utc_missed(spec@, after_exclusive, until_inclusive) {
            Ok(n) => r matches Ok(count) && count == crate::fires::capped(n).count,
            Err(e) => r matches Err(f) && f@ == e,
        },
{
    match occurrence_count(spec, after_exclusive, until_inclusive, tz) {
        Err(e) => Err(e),
        Ok(n) => Ok(n.count),
    }
}

// ---------------------------------------------------------------------------
// Rendering
// ---------------------------------------------------------------------------
/// The full names of a list of days.
pub open spec fn full_names(days: Seq<Weekday>) -> Seq<Seq<char>> {
    days.map_values(|d: Weekday| full_name(d))
}

/// A schedule in words.
pub open spec fn in_words(plan: Plan) -> Seq<char> {
    match plan {
        Plan::Once { due_at } => "one-shot at "@ + crate::time::minute_text(due_at),
        Plan::Pattern { freq, time, weekdays, day_of_month } => match freq {
            Freq::Daily => "daily at "@ + time.clock(),
            Freq::Weekly => "every "@ + crate::text::join(full_names(weekdays), ", "@) + " at "@
                + time.clock(),
            Freq::Monthly => "monthly on day "@ + crate::numbers::decimal(day_of_month as nat)
                + " at "@ + time.clock(),
        },
        Plan::Cron { expr } => "cron '"@ + expr + "'"@,
    }
}

fn full_name_texts(weekdays: &Vec<Weekday>) -> (r: Vec<String>)
    ensures
        crate::text::texts(r@) == full_names(weekdays@),
{
    let mut r: Vec<String> = Vec::new();
    let mut i: usize = 0;
    while i < weekdays.len()
        invariant
            i <= weekdays@.len(),
            crate::text::texts(r@) == full_names(weekdays@.take(i as int)),
        decreases weekdays@.len() - i,
    {
        let t = copy_of(weekday_full_name(weekdays[i]));
        assert(full_names(weekdays@.take(i + 1)) =~= full_names(weekdays@.take(i as int)).push(t@));
        r.push(t);
        i = i + 1;
    }
    assert(weekdays@.take(weekdays@.len() as int) =~= weekdays@);
    r
}

/// Short human rendering of a schedule.
pub fn human_readable(spec: &ScheduleSpec) -> (r: String)
    ensures
        r@ == in_words(spec@),
{
    match spec {
        ScheduleSpec::Once { due_at } => {
            let mut r = copy_of("one-shot at ");
            let t = minute_utc(*due_at);
            r.append(t.as_str());
            r
        },
        ScheduleSpec::Pattern { freq, time, weekdays, day_of_month } => {
            let hm = time.clock_text();
            match freq {
                Freq::Daily => {
                    let mut r = copy_of("daily at ");
                    r.append(hm.as_str());
                    r
                },
                Freq::Weekly => {
                    let mut r = copy_of("every ");
                    let names = full_name_texts(weekdays);
                    let days = join_texts(&names, ", ");
                    r.append(days.as_str());
                    r.append(" at ");
                    r.append(hm.as_str());
                    r
                },
                Freq::Monthly => {
                    let mut r = copy_of("monthly on day ");
                    let d = decimal_text(*day_of_month as u64);
                    r.append(d.as_str());
                    r.append(" at ");
                    r.append(hm.as_str());
                    r
                },
            }
        },
        ScheduleSpec::Cron { expr } => {
            let mut r = copy_of("cron '");
            r.append(expr.as_str());
            r.append("'");
            r
        },
    }
}

} // verus!
