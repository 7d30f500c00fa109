//! Instants, wall-clock readings and time zones.
//!
//! Calendar arithmetic and the zone tables come from `chrono` and `chrono_tz`; this module holds
//! the values the rest of the library reasons about and the narrow calls that reach those crates.
use vstd::prelude::*;

use chrono::{DateTime, NaiveDateTime, SecondsFormat, TimeZone, Timelike};

use crate::text::copy_of;

verus! {

/// Seconds since the epoch of the earliest instant.
pub const MIN_SECS: i64 = -8334601228800;

/// Seconds since the epoch of the latest instant.
pub const MAX_SECS: i64 = 8210266876799;

/// Nanoseconds past the second stay below this; a leap second uses the upper half.
pub const NANOS_END: u32 = 2_000_000_000;

/// A point in time: whole seconds since the Unix epoch, and nanoseconds past that second.
#[derive(Clone, Copy, Debug, PartialEq, Eq, Structural)]
pub struct Instant {
    secs: i64,
    nanos: u32,
}

impl Instant {
    #[verifier::type_invariant]
    spec fn inv(self) -> bool {
        MIN_SECS <= self.secs <= MAX_SECS && self.nanos < NANOS_END
    }

    /// Whole seconds since the epoch.
    pub closed spec fn secs(self) -> int {
        self.secs as int
    }

    /// Nanoseconds past the second.
    pub closed spec fn nanos(self) -> int {
        self.nanos as int
    }

    /// Whether this instant is later than `other`.
    pub open spec fn after(self, other: Instant) -> bool {
        self.secs() > other.secs() || (self.secs() == other.secs() && self.nanos() > other.nanos())
    }

    /// Whether schedules can be evaluated from this instant: the very end of the range leaves no
    /// later second to look at.
    pub open spec fn evaluable(self) -> bool {
        self.secs() + 2 <= MAX_SECS
    }

    /// The start of a second, counted from the epoch.
    pub closed spec fn second(secs: int) -> Instant {
        Instant { secs: secs as i64, nanos: 0 }
    }

    /// The instant with the given seconds and nanoseconds, where it is in range.
    pub fn new(secs: i64, nanos: u32) -> (r: Option<Instant>)
        ensures
            r is Some <==> MIN_SECS <= secs <= MAX_SECS && nanos < NANOS_END,
            r matches Some(t) ==> t.secs() == secs && t.nanos() == nanos,
    {
        if MIN_SECS <= secs && secs <= MAX_SECS && nanos < NANOS_END {
            Some(Instant { secs, nanos })
        } else {
            None
        }
    }

    /// Whole seconds since the epoch.
    pub fn unix_secs(&self) -> (r: i64)
        ensures
            r == self.secs(),
            MIN_SECS <= r <= MAX_SECS,
    {
        proof {
            use_type_invariant(self);
        }
        self.secs
    }

    /// Nanoseconds past the second.
    pub fn subsec_nanos(&self) -> (r: u32)
        ensures
            r == self.nanos(),
            r < NANOS_END,
    {
        proof {
            use_type_invariant(self);
        }
        self.nanos
    }

    /// Whether this instant is later than `other`.
    pub fn is_after(&self, other: Instant) -> (r: bool)
        ensures
            r == self.after(other),
    {
        self.secs > other.secs || (self.secs == other.secs && self.nanos > other.nanos)
    }

    /// Whether schedules can be evaluated from this instant.
    pub fn is_evaluable(&self) -> (r: bool)
        ensures
            r == self.evaluable(),
    {
        proof {
            use_type_invariant(self);
        }
        self.secs + 2 <= MAX_SECS
    }
}

impl View for Instant {
    type V = Instant;

    open spec fn view(&self) -> Instant {
        *self
    }
}

/// Nanoseconds are never negative.
pub proof fn lemma_nanos_range(t: Instant)
    ensures
        0 <= t.nanos(),
{
}

/// Two instants are the same, or exactly one of them is later.
pub proof fn instants_are_totally_ordered(a: Instant, b: Instant)
    ensures
        a.after(b) || b.after(a) || a == b,
        !(a.after(b) && b.after(a)),
        !a.after(a),
{
}

// ---------------------------------------------------------------------------
// Elapsed time
// ---------------------------------------------------------------------------
/// Second of the day.
pub open spec fn second_of_day(t: Instant) -> int {
    t.secs() % 86400
}

/// Seconds that a leap second adds between two instants: it counts when the other time of day lies
/// past it.
pub open spec fn leap_between(a: Instant, b: Instant) -> int {
    if second_of_day(a) > second_of_day(b) && b.nanos() >= 1_000_000_000 {
        1
    } else if second_of_day(a) < second_of_day(b) && a.nanos() >= 1_000_000_000 {
        -1
    } else {
        0
    }
}

/// Nanoseconds from `b` to `a`.
pub open spec fn elapsed_nanos(a: Instant, b: Instant) -> int {
    (a.secs() - b.secs() + leap_between(a, b)) * 1_000_000_000 + (a.nanos() - b.nanos())
}

fn day_second(secs: i64) -> (r: i64)
    requires
        MIN_SECS <= secs <= MAX_SECS,
    ensures
        r == secs as int % 86400,
{
    // A whole number of days that lifts every instant past zero.
    let lifted: u64 = (secs + 96_500 * 86_400 * 1_000) as u64;
    (lifted % 86_400) as i64
}

/// Whether at least `hours` hours have passed from `since` to `now`.
pub fn overdue_by(now: Instant, since: Instant, hours: u64) -> (r: bool)
    ensures
        r == (elapsed_nanos(now, since) >= hours * 3_600_000_000_000),
{
    let a = now.unix_secs();
    let b = since.unix_secs();
    let x = day_second(a);
    let y = day_second(b);
    let leap: i64 = if x > y && since.subsec_nanos() >= 1_000_000_000 {
        1
    } else if x < y && now.subsec_nanos() >= 1_000_000_000 {
        -1
    } else {
        0
    };
    let whole: i128 = (a - b + leap) as i128;
    let rest: i128 = now.subsec_nanos() as i128 - since.subsec_nanos() as i128;
    let elapsed: i128 = whole * 1_000_000_000 + rest;
    let window: i128 = hours as i128 * 3_600_000_000_000;
    elapsed >= window
}

// ---------------------------------------------------------------------------
// Zones
// ---------------------------------------------------------------------------
/// Whether the time zone tables hold a zone of this name.
pub uninterp spec fn zone_known(name: Seq<char>) -> bool;

/// `chrono_tz::Tz::from_str`: looks a name up in the zone tables, exactly as spelled. The tables
/// hold `UTC`. Which other names they hold is left open.
#[verifier::external_body]
fn is_zone(name: &str) -> (r: bool)
    ensures
        r == zone_known(name@),
        name@ == "UTC"@ ==> r,
{
    name.parse::<chrono_tz::Tz>().is_ok()
}

/// A time zone, held by its name in the zone tables.
#[derive(Debug)]
pub struct Zone {
    name: String,
}

impl View for Zone {
    type V = Seq<char>;

    closed spec fn view(&self) -> Seq<char> {
        self.name@
    }
}

impl Zone {
    #[verifier::type_invariant]
    spec fn inv(self) -> bool {
        zone_known(self.name@)
    }

    /// The zone of this name, where the tables hold one.
    pub fn named(name: &str) -> (r: Option<Zone>)
        ensures
            r is Some <==> zone_known(name@),
            r matches Some(z) ==> z@ == name@,
    {
        if is_zone(name) {
            Some(Zone { name: copy_of(name) })
        } else {
            None
        }
    }

    /// Coordinated universal time.
    pub fn utc() -> (r: Zone)
        ensures
            r@ == "UTC"@,
    {
        let known = is_zone("UTC");
        assert(known);
        Zone { name: copy_of("UTC") }
    }

    /// A copy of this zone.
    pub fn copy(&self) -> (r: Zone)
        ensures
            r@ == self@,
    {
        proof {
            use_type_invariant(self);
        }
        Zone { name: copy_of(self.name.as_str()) }
    }

    /// The zone's name.
    pub fn name(&self) -> (r: &str)
        ensures
            r@ == self@,
            zone_known(r@),
    {
        proof {
            use_type_invariant(self);
        }
        self.name.as_str()
    }
}

// ---------------------------------------------------------------------------
// Reading
// ---------------------------------------------------------------------------
/// The instant that a text in RFC 3339 form names.
pub uninterp spec fn rfc3339_instant(s: Seq<char>) -> Option<Instant>;

/// `chrono::DateTime::parse_from_rfc3339`, moved to UTC: the instant that `s` names, or nothing
/// where `s` is not in RFC 3339 form.
#[verifier::external_body]
pub(crate) fn read_rfc3339(s: &str) -> (r: Option<Instant>)
    ensures
        r == rfc3339_instant(s@),
{
    let dt = DateTime::parse_from_rfc3339(s).ok()?;
    Some(Instant { secs: dt.timestamp(), nanos: dt.timestamp_subsec_nanos() })
}

/// The wall-clock reading that a text gives in a format, held as the instant at which clocks on UTC
/// show it.
pub uninterp spec fn wall_clock(s: Seq<char>, format: Seq<char>) -> Option<Instant>;

/// `chrono::NaiveDateTime::parse_from_str`: the wall-clock reading that `s` gives in `format`, or
/// nothing where it does not match.
#[verifier::external_body]
pub(crate) fn read_wall_clock(s: &str, format: &str) -> (r: Option<Instant>)
    ensures
        r == wall_clock(s@, format@),
{
    let dt = NaiveDateTime::parse_from_str(s, format).ok()?.and_utc();
    Some(Instant { secs: dt.timestamp(), nanos: dt.timestamp_subsec_nanos() })
}

/// What a wall-clock reading means in a zone.
#[derive(Clone, Copy, Debug, PartialEq, Eq, Structural)]
pub enum LocalTime {
    /// Exactly one instant.
    Single(Instant),
    /// No instant: clocks skipped the reading.
    Gap,
    /// Two instants: clocks showed the reading twice.
    Fold,
}

/// What a wall-clock reading means in the zone of a name.
pub uninterp spec fn local_time(clock: Instant, zone: Seq<char>) -> LocalTime;

/// `chrono::TimeZone::from_local_datetime` for `chrono_tz::Tz`: the instants at which clocks in the
/// zone show the reading.
#[verifier::external_body]
pub(crate) fn resolve_local(clock: Instant, zone: &str) -> (r: LocalTime)
    requires
        zone_known(zone@),
    ensures
        r == local_time(clock, zone@),
{
    let day = DateTime::from_timestamp(clock.secs, 0).unwrap().naive_utc();
    let local = day.with_nanosecond(clock.nanos).unwrap();
    match zone.parse::<chrono_tz::Tz>().unwrap().from_local_datetime(&local) {
        chrono::LocalResult::Single(dt) => {
            LocalTime::Single(
                Instant { secs: dt.timestamp(), nanos: dt.timestamp_subsec_nanos() },
            )
        },
        chrono::LocalResult::None => LocalTime::Gap,
        chrono::LocalResult::Ambiguous(_, _) => LocalTime::Fold,
    }
}

// ---------------------------------------------------------------------------
// Writing
// ---------------------------------------------------------------------------
/// An instant in RFC 3339 form, in UTC with a `Z`, to the second.
pub uninterp spec fn rfc3339_text(at: Instant) -> Seq<char>;

/// `chrono::DateTime::to_rfc3339_opts` with whole seconds and a `Z` for UTC.
#[verifier::external_body]
fn write_rfc3339(at: Instant) -> (r: String)
    ensures
        r@ == rfc3339_text(at),
{
    let day = DateTime::from_timestamp(at.secs, 0).unwrap().naive_utc();
    let dt = day.with_nanosecond(at.nanos).unwrap().and_utc();
    dt.to_rfc3339_opts(SecondsFormat::Secs, true)
}

/// `at` in RFC 3339 form: the spelling of every date in tool responses.
pub fn rfc3339_utc(at: Instant) -> (r: String)
    ensures
        r@ == rfc3339_text(at),
{
    write_rfc3339(at)
}

/// The format of a minute in UTC, as pages and one-shot schedules show it.
pub const DT_FORMAT: &'static str = "%Y-%m-%d %H:%M UTC";

/// The format of a minute in a zone, followed by the zone's abbreviation.
pub const LOCAL_FORMAT: &'static str = "%Y-%m-%d %H:%M %Z";

/// An instant as clocks in the zone show it, written in a format.
pub uninterp spec fn clock_text(at: Instant, zone: Seq<char>, format: Seq<char>) -> Seq<char>;

/// `chrono::DateTime::format` after `with_timezone`: the instant as clocks in the zone show it,
/// written in one of this module's two formats, both of which are well formed.
#[verifier::external_body]
pub(crate) fn write_clock(at: Instant, zone: &str, format: &str) -> (r: String)
    requires
        zone_known(zone@),
        format@ == DT_FORMAT@ || format@ == LOCAL_FORMAT@,
    ensures
        r@ == clock_text(at, zone@, format@),
{
    let day = DateTime::from_timestamp(at.secs, 0).unwrap().naive_utc();
    let dt = day.with_nanosecond(at.nanos).unwrap().and_utc();
    dt.with_timezone(&zone.parse::<chrono_tz::Tz>().unwrap()).format(format).to_string()
}

/// An instant as the debug pages show it.
pub open spec fn minute_text(at: Instant) -> Seq<char> {
    clock_text(at, "UTC"@, DT_FORMAT@)
}

/// `at` to the minute, in UTC.
pub fn minute_utc(at: Instant) -> (r: String)
    ensures
        r@ == minute_text(at),
{
    let utc = Zone::utc();
    write_clock(at, utc.name(), DT_FORMAT)
}

/// `at` to the minute, as clocks in the zone show it.
pub fn minute_local(at: Instant, zone: &Zone) -> (r: String)
    ensures
        r@ == clock_text(at, zone@, LOCAL_FORMAT@),
{
    write_clock(at, zone.name(), LOCAL_FORMAT)
}

} // verus!
