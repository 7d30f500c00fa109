//! When a cron expression fires.
//!
//! The expression language and the calendar walk belong to the `cron` crate. This module names the
//! walk's items, and counts and selects among them.
use std::str::FromStr;

use vstd::prelude::*;

use chrono::{DateTime, Timelike};
use cron::{Schedule, TimeUnitSpec};

use crate::time::{Instant, Zone};

verus! {

/// Hard cap on walked occurrences; guards against pathological expressions.
pub const MAX_ITER: usize = 10_000;

/// A day of the week.
#[derive(Clone, Copy, Debug, PartialEq, Eq, Structural)]
pub enum Weekday {
    Mon,
    Tue,
    Wed,
    Thu,
    Fri,
    Sat,
    Sun,
}

impl View for Weekday {
    type V = Weekday;

    open spec fn view(&self) -> Weekday {
        *self
    }
}

impl Weekday {
    /// The name of the day in a cron expression.
    pub open spec fn token(self) -> Seq<char> {
        match self {
            Weekday::Mon => "MON"@,
            Weekday::Tue => "TUE"@,
            Weekday::Wed => "WED"@,
            Weekday::Thu => "THU"@,
            Weekday::Fri => "FRI"@,
            Weekday::Sat => "SAT"@,
            Weekday::Sun => "SUN"@,
        }
    }
}

/// The tokens of a list of days.
pub open spec fn tokens(days: Seq<Weekday>) -> Seq<Seq<char>> {
    days.map_values(|d: Weekday| d.token())
}

/// Every day at a time.
pub open spec fn daily_expr(hour: nat, minute: nat) -> Seq<char> {
    "0 "@ + crate::numbers::decimal(minute) + " "@ + crate::numbers::decimal(hour) + " * * *"@
}

/// On some days of the week at a time.
pub open spec fn weekly_expr(hour: nat, minute: nat, days: Seq<Weekday>) -> Seq<char> {
    "0 "@ + crate::numbers::decimal(minute) + " "@ + crate::numbers::decimal(hour) + " * * "@
        + crate::text::join(tokens(days), ","@)
}

/// On a day of the month at a time.
pub open spec fn monthly_expr(hour: nat, minute: nat, day: nat) -> Seq<char> {
    "0 "@ + crate::numbers::decimal(minute) + " "@ + crate::numbers::decimal(hour) + " "@
        + crate::numbers::decimal(day) + " * *"@
}

// ---------------------------------------------------------------------------
// Calls into the cron crate
// ---------------------------------------------------------------------------
/// Why a text is no cron expression, or nothing where it is one.
pub uninterp spec fn cron_fault(expr: Seq<char>) -> Option<Seq<char>>;

/// `cron::Schedule::from_str`: the parser's complaint, or nothing where it accepts the expression.
/// It accepts a fixed time of day on every day, on a non-empty list of named week days, and on a day
/// of the month from 1 to 31.
#[verifier::external_body]
fn parse_fault(expr: &str) -> (r: Option<String>)
    ensures
        crate::text::opt_text(r) == cron_fault(expr@),
        forall|h: nat, m: nat|
            h < 24 && m < 60 && expr@ == #[trigger] daily_expr(h, m) ==> r is None,
        forall|h: nat, m: nat, days: Seq<Weekday>|
            h < 24 && m < 60 && days.len() > 0 && expr@ == #[trigger] weekly_expr(h, m, days)
                ==> r is None,
        forall|h: nat, m: nat, d: nat|
            h < 24 && m < 60 && 1 <= d <= 31 && expr@ == #[trigger] monthly_expr(h, m, d)
                ==> r is None,
{
    match Schedule::from_str(expr) {
        Ok(_) => None,
        Err(e) => Some(e.to_string()),
    }
}

/// Why `expr` is no cron expression.
pub fn check_cron(expr: &str) -> (r: Option<String>)
    ensures
        crate::text::opt_text(r) == cron_fault(expr@),
        forall|h: nat, m: nat|
            h < 24 && m < 60 && expr@ == #[trigger] daily_expr(h, m) ==> r is None,
        forall|h: nat, m: nat, days: Seq<Weekday>|
            h < 24 && m < 60 && days.len() > 0 && expr@ == #[trigger] weekly_expr(h, m, days)
                ==> r is None,
        forall|h: nat, m: nat, d: nat|
            h < 24 && m < 60 && 1 <= d <= 31 && expr@ == #[trigger] monthly_expr(h, m, d)
                ==> r is None,
{
    parse_fault(expr)
}

/// The `i`-th fire of an expression from an instant on, evaluated in the zone of a name, or nothing
/// where it fires at most `i` times.
pub uninterp spec fn cron_fire(
    expr: Seq<char>,
    after: Instant,
    zone: Seq<char>,
    i: nat,
) -> Option<Instant>;

/// The first second from which walks reach everything that follows: one before the year zero. Years count
/// from there on, and a walk from an earlier year ends at once.
pub const WALKS_FROM: i64 = -62_167_219_201;

/// Whether an expression fires in UTC at the start of a second: the walk from the second before comes
/// to it first.
pub open spec fn utc_fire(expr: Seq<char>, t: int) -> bool {
    &&& crate::time::MIN_SECS < t < crate::time::MAX_SECS
    &&& cron_fire(expr, Instant::second(t - 1), "UTC"@, 0) == Some(Instant::second(t))
}

/// Whether `t` is the second of one of these instants.
pub open spec fn falls_on(items: Seq<Instant>, t: int) -> bool {
    exists|i: int| 0 <= i < items.len() && (#[trigger] items[i]).secs() == t
}

/// Whether a walk of at most `n` items from a second on misses nothing: whole seconds in their order, and
/// up to its last item, or for good where it ends, exactly those at which the expression fires.
pub open spec fn utc_walk(expr: Seq<char>, from: int, n: nat, items: Seq<Instant>) -> bool {
    &&& forall|i: int|
        0 <= i < items.len() ==> (#[trigger] items[i]).nanos() == 0 && items[i].secs() > from
    &&& forall|i: int, j: int|
        0 <= i < j < items.len() ==> (#[trigger] items[i]).secs() < (#[trigger] items[j]).secs()
    &&& forall|t: int|
        from < t && (items.len() < n || (items.len() > 0 && t <= items.last().secs())) ==> (
        #[trigger] utc_fire(expr, t) <==> falls_on(items, t))
}

/// `cron::Schedule::after`: the first `n` items of the walk that starts at `after` in the zone, as
/// instants, fewer only where the walk ends. The order of the items is the walk's own: where clocks
/// go back, a repeated time of day comes twice in a row, first for the earlier pass. In UTC clocks never
/// change: the walk gives the matching seconds after its start in order and leaves none out, so that a
/// walk from a later start is the rest of an earlier one. A walk from before the year zero is empty.
#[verifier::external_body]
fn cron_fires(expr: &str, after: Instant, zone: &str, n: usize) -> (r: Vec<Instant>)
    requires
        cron_fault(expr@) is None,
        crate::time::zone_known(zone@),
        after.evaluable(),
    ensures
        r@.len() <= n,
        forall|i: int|
            0 <= i < r@.len() ==> cron_fire(expr@, after, zone@, i as nat) == Some(
                #[trigger] r@[i],
            ),
        r@.len() < n ==> cron_fire(expr@, after, zone@, r@.len()) is None,
        zone@ == "UTC"@ && after.secs() >= WALKS_FROM ==> utc_walk(
            expr@,
            after.secs(),
            n as nat,
            r@,
        ),
        zone@ == "UTC"@ && after.secs() < WALKS_FROM ==> r@.len() == 0,
{
    let day = DateTime::from_timestamp(after.unix_secs(), 0).unwrap().naive_utc();
    let utc = day.with_nanosecond(after.subsec_nanos()).unwrap().and_utc();
    let from = utc.with_timezone(&zone.parse::<chrono_tz::Tz>().unwrap());
    Schedule::from_str(expr).unwrap().after(&from).take(n).map(
        |dt| Instant::new(dt.timestamp(), dt.timestamp_subsec_nanos()).unwrap(),
    ).collect()
}

/// Whether an expression leaves the day of the month open.
pub uninterp spec fn any_day_of_month(expr: Seq<char>) -> bool;

/// `is_all` of `cron::Schedule::days_of_month`: whether every day of the month is in the set.
#[verifier::external_body]
fn takes_any_day_of_month(expr: &str) -> (r: bool)
    requires
        cron_fault(expr@) is None,
    ensures
        r == any_day_of_month(expr@),
{
    Schedule::from_str(expr).unwrap().days_of_month().is_all()
}

/// Whether an expression leaves the day of the week open.
pub uninterp spec fn any_day_of_week(expr: Seq<char>) -> bool;

/// `is_all` of `cron::Schedule::days_of_week`: whether every day of the week is in the set.
#[verifier::external_body]
fn takes_any_day_of_week(expr: &str) -> (r: bool)
    requires
        cron_fault(expr@) is None,
    ensures
        r == any_day_of_week(expr@),
{
    Schedule::from_str(expr).unwrap().days_of_week().is_all()
}

/// Whether a valid expression restricts both the day of the month and the day of the week, which
/// then both have to match.
pub open spec fn restricts_both_days(expr: Seq<char>) -> bool {
    cron_fault(expr) is None && !any_day_of_month(expr) && !any_day_of_week(expr)
}

/// Whether `expr` restricts both the day of the month and the day of the week.
pub fn cron_dom_dow_conflict(expr: &str) -> (r: bool)
    ensures
        r == restricts_both_days(expr@),
{
    match parse_fault(expr) {
        None => !takes_any_day_of_month(expr) && !takes_any_day_of_week(expr),
        Some(_) => false,
    }
}

// ---------------------------------------------------------------------------
// The walk
// ---------------------------------------------------------------------------
/// The first `n` fires, or all of them where there are fewer.
pub open spec fn walk(expr: Seq<char>, after: Instant, zone: Seq<char>, n: nat) -> Seq<Instant>
    decreases n,
{
    if n == 0 {
        seq![]
    } else {
        let before = walk(expr, after, zone, (n - 1) as nat);
        match cron_fire(expr, after, zone, (n - 1) as nat) {
            Some(t) => if before.len() == n - 1 {
                before.push(t)
            } else {
                before
            },
            None => before,
        }
    }
}

/// A longer walk starts with the shorter one, and a walk that came to its end stays as it is.
pub proof fn lemma_walk_prefix(expr: Seq<char>, after: Instant, zone: Seq<char>, m: nat, n: nat)
    requires
        m <= n,
    ensures
        walk(expr, after, zone, m).len() <= m,
        walk(expr, after, zone, m).len() <= walk(expr, after, zone, n).len(),
        walk(expr, after, zone, m) == walk(expr, after, zone, n).take(
            walk(expr, after, zone, m).len() as int,
        ),
        walk(expr, after, zone, m).len() < m ==> walk(expr, after, zone, n) == walk(
            expr,
            after,
            zone,
            m,
        ),
    decreases n,
{
    let a = walk(expr, after, zone, m);
    let b = walk(expr, after, zone, n);
    if n > 0 {
        if m < n {
            lemma_walk_prefix(expr, after, zone, m, (n - 1) as nat);
            let c = walk(expr, after, zone, (n - 1) as nat);
            lemma_walk_prefix(expr, after, zone, (n - 1) as nat, (n - 1) as nat);
            assert(b.take(a.len() as int) =~= c.take(a.len() as int));
        } else {
            lemma_walk_prefix(expr, after, zone, (n - 1) as nat, (n - 1) as nat);
            assert(b.take(a.len() as int) =~= b);
        }
    } else {
        assert(b.take(a.len() as int) =~= b);
    }
}

proof fn lemma_walk_is(
    expr: Seq<char>,
    after: Instant,
    zone: Seq<char>,
    n: nat,
    items: Seq<Instant>,
    m: nat,
)
    requires
        m <= n,
        items.len() <= n,
        forall|i: int|
            0 <= i < items.len() ==> cron_fire(expr, after, zone, i as nat) == Some(
                #[trigger] items[i],
            ),
        items.len() < n ==> cron_fire(expr, after, zone, items.len()) is None,
    ensures
        m <= items.len() ==> walk(expr, after, zone, m) == items.take(m as int),
        m > items.len() ==> walk(expr, after, zone, m) == items,
    decreases m,
{
    if m > 0 {
        lemma_walk_is(expr, after, zone, n, items, (m - 1) as nat);
        if m <= items.len() {
            assert(cron_fire(expr, after, zone, (m - 1) as nat) == Some(items[m - 1]));
            assert(items.take(m as int) =~= items.take(m - 1).push(items[m - 1]));
        } else {
            assert(items.take(items.len() as int) =~= items);
        }
    } else {
        assert(items.take(0) =~= seq![]);
    }
}

/// The first `n` fires.
fn walked(expr: &str, after: Instant, zone: &Zone, n: usize) -> (r: Vec<Instant>)
    requires
        cron_fault(expr@) is None,
        after.evaluable(),
    ensures
        r@ == walk(expr@, after, zone@, n as nat),
        zone@ == "UTC"@ && after.secs() >= WALKS_FROM ==> utc_walk(
            expr@,
            after.secs(),
            n as nat,
            r@,
        ),
        zone@ == "UTC"@ && after.secs() < WALKS_FROM ==> r@.len() == 0,
{
    let r = cron_fires(expr, after, zone.name(), n);
    proof {
        lemma_walk_is(expr@, after, zone@, n as nat, r@, n as nat);
        assert(r@.take(r@.len() as int) =~= r@);
    }
    r
}

/// The instants of `w` that are later than `t`, in order.
pub open spec fn later_than(w: Seq<Instant>, t: Instant) -> Seq<Instant>
    decreases w.len(),
{
    if w.len() == 0 {
        seq![]
    } else {
        let before = later_than(w.drop_last(), t);
        if w.last().after(t) {
            before.push(w.last())
        } else {
            before
        }
    }
}

/// Whatever is selected is later than the bound, and comes from the list.
pub proof fn lemma_later_than(w: Seq<Instant>, t: Instant)
    ensures
        later_than(w, t).len() <= w.len(),
        forall|i: int|
            0 <= i < later_than(w, t).len() ==> (#[trigger] later_than(w, t)[i]).after(t)
                && w.contains(later_than(w, t)[i]),
        (forall|i: int| 0 <= i < w.len() ==> (#[trigger] w[i]).after(t)) ==> later_than(w, t) == w,
    decreases w.len(),
{
    if w.len() > 0 {
        lemma_later_than(w.drop_last(), t);
        let before = later_than(w.drop_last(), t);
        assert forall|i: int| 0 <= i < later_than(w, t).len() implies (#[trigger] later_than(
            w,
            t,
        )[i]).after(t) && w.contains(later_than(w, t)[i]) by {
            if i < before.len() {
                assert(w.drop_last().contains(before[i]));
                let k = choose|k: int| 0 <= k < w.drop_last().len() && w.drop_last()[k] == before[i];
                assert(w[k] == before[i]);
            } else {
                assert(w[w.len() - 1] == w.last());
            }
        }
        if forall|i: int| 0 <= i < w.len() ==> (#[trigger] w[i]).after(t) {
            assert forall|i: int| 0 <= i < w.drop_last().len() implies (
            #[trigger] w.drop_last()[i]).after(t) by {
                assert(w.drop_last()[i] == w[i]);
            }
            assert(w[w.len() - 1].after(t));
            assert(later_than(w, t) =~= w);
        }
    }
}

proof fn lemma_later_prefix(w: Seq<Instant>, t: Instant, k: int)
    requires
        0 <= k <= w.len(),
    ensures
        later_than(w.take(k), t).len() <= later_than(w, t).len(),
        later_than(w.take(k), t) == later_than(w, t).take(later_than(w.take(k), t).len() as int),
    decreases w.len(),
{
    let p = later_than(w.take(k), t);
    if k == w.len() {
        assert(w.take(k) =~= w);
        assert(p.take(p.len() as int) =~= p);
    } else {
        lemma_later_prefix(w.drop_last(), t, k);
        assert(w.drop_last().take(k) =~= w.take(k));
        let before = later_than(w.drop_last(), t);
        assert(later_than(w, t).take(p.len() as int) =~= before.take(p.len() as int));
    }
}

/// The first `n` instants of `w` that are later than `t`.
pub open spec fn first_later(w: Seq<Instant>, t: Instant, n: nat) -> Seq<Instant> {
    let later = later_than(w, t);
    if later.len() <= n {
        later
    } else {
        later.take(n as int)
    }
}

/// The first `n` fires strictly after `after`. Where clocks go back, the walk can open with repeats of
/// times already past, which are left out.
pub open spec fn next_fires(expr: Seq<char>, after: Instant, zone: Seq<char>, n: nat) -> Seq<
    Instant,
> {
    first_later(walk(expr, after, zone, usize::MAX as nat), after, n)
}

/// The first `n` of the walked fires that are later than `after`, in the order of the walk.
pub fn select_later(walked: &Vec<Instant>, after: Instant, n: usize) -> (r: Vec<Instant>)
    ensures
        r@ == first_later(walked@, after, n as nat),
{
    let mut r: Vec<Instant> = Vec::new();
    let mut k: usize = 0;
    while k < walked.len() && r.len() < n
        invariant
            k <= walked@.len(),
            r@.len() <= n,
            r@ == later_than(walked@.take(k as int), after),
        decreases walked@.len() - k,
    {
        assert(walked@.take(k + 1).drop_last() =~= walked@.take(k as int));
        if walked[k].is_after(after) {
            r.push(walked[k]);
        }
        k = k + 1;
    }
    proof {
        lemma_later_prefix(walked@, after, k as int);
        let later = later_than(walked@, after);
        assert(later.take(later.len() as int) =~= later);
        if r@.len() < n {
            assert(walked@.take(k as int) =~= walked@);
        }
    }
    r
}

/// Every fire that `next_fires` gives is strictly after the start, and there are at most `n`.
pub proof fn fires_are_strictly_after(expr: Seq<char>, after: Instant, zone: Seq<char>, n: nat)
    ensures
        next_fires(expr, after, zone, n).len() <= n,
        forall|i: int|
            0 <= i < next_fires(expr, after, zone, n).len() ==> (#[trigger] next_fires(
                expr,
                after,
                zone,
                n,
            )[i]).after(after),
{
    lemma_later_than(walk(expr, after, zone, usize::MAX as nat), after);
}

/// Asking for more fires keeps the ones already given.
pub proof fn more_fires_keep_the_first(
    expr: Seq<char>,
    after: Instant,
    zone: Seq<char>,
    m: nat,
    n: nat,
)
    requires
        m <= n,
    ensures
        next_fires(expr, after, zone, m).len() <= next_fires(expr, after, zone, n).len(),
        next_fires(expr, after, zone, m) == next_fires(expr, after, zone, n).take(
            next_fires(expr, after, zone, m).len() as int,
        ),
        next_fires(expr, after, zone, m).len() < m ==> next_fires(expr, after, zone, n)
            == next_fires(expr, after, zone, m),
{
    let x = next_fires(expr, after, zone, m);
    let y = next_fires(expr, after, zone, n);
    assert(x =~= y.take(x.len() as int));
}

/// The start of a walk in UTC misses nothing up to where it was cut.
proof fn lemma_utc_start(expr: Seq<char>, after: Instant, m: nat, w: Seq<Instant>, n: nat)
    requires
        utc_walk(expr, after.secs(), m, w),
        w.len() <= m,
        n <= m,
    ensures
        utc_walk(expr, after.secs(), n, first_later(w, after, n)),
{
    lemma_later_than(w, after);
    assert(later_than(w, after) == w);
    let r = first_later(w, after, n);
    assert forall|t: int|
        after.secs() < t && (r.len() < n || (r.len() > 0 && t <= r.last().secs())) implies (
    #[trigger] utc_fire(expr, t) <==> falls_on(r, t)) by {
        if r.len() > 0 && w.len() > 0 {
            assert(r.last() == w[r.len() - 1]);
            if r.len() < w.len() {
                assert(w[r.len() - 1].secs() < w[w.len() - 1].secs());
            }
        }
        if falls_on(w, t) {
            let i = choose|i: int| 0 <= i < w.len() && (#[trigger] w[i]).secs() == t;
            if i >= r.len() {
                assert(w[r.len() - 1].secs() < w[i].secs());
            }
            assert(r[i].secs() == t);
        }
        if falls_on(r, t) {
            let i = choose|i: int| 0 <= i < r.len() && (#[trigger] r[i]).secs() == t;
            assert(w[i].secs() == t);
        }
    }
    assert forall|i: int, j: int| 0 <= i < j < r.len() implies (#[trigger] r[i]).secs() < (
    #[trigger] r[j]).secs() by {
        assert(r[i] == w[i] && r[j] == w[j]);
    }
}

/// The first `n` fires strictly after `after`. In UTC these are the next seconds at which the expression
/// fires, and none is left out.
pub fn fires_after(expr: &str, after: Instant, zone: &Zone, n: usize) -> (r: Vec<Instant>)
    requires
        cron_fault(expr@) is None,
        after.evaluable(),
    ensures
        r@ == next_fires(expr@, after, zone@, n as nat),
        zone@ == "UTC"@ && after.secs() >= WALKS_FROM ==> utc_walk(
            expr@,
            after.secs(),
            n as nat,
            r@,
        ),
{
    let mut m: usize = n;
    loop
        invariant
            n <= m,
            cron_fault(expr@) is None,
            after.evaluable(),
        decreases usize::MAX - m,
    {
        let w = walked(expr, after, zone, m);
        let r = select_later(&w, after, n);
        if r.len() == n || w.len() < m || m == usize::MAX {
            proof {
                let all = walk(expr@, after, zone@, usize::MAX as nat);
                lemma_walk_prefix(expr@, after, zone@, m as nat, usize::MAX as nat);
                lemma_later_prefix(all, after, w@.len() as int);
                if r@.len() < n || m == usize::MAX {
                    assert(all =~= w@);
                } else {
                    assert(r@ =~= next_fires(expr@, after, zone@, n as nat));
                }
                if zone@ == "UTC"@ && after.secs() >= WALKS_FROM {
                    lemma_walk_prefix(expr@, after, zone@, m as nat, m as nat);
                    lemma_utc_start(expr@, after, m as nat, w@, n as nat);
                }
            }
            return r;
        }
        m = if m < MAX_ITER {
            MAX_ITER
        } else if m <= usize::MAX / 2 {
            m * 2
        } else {
            usize::MAX
        };
    }
}

/// How many instants of `w` are later than `after` and not later than `until`.
pub open spec fn count_within(w: Seq<Instant>, after: Instant, until: Instant) -> nat
    decreases w.len(),
{
    if w.len() == 0 {
        0
    } else {
        count_within(w.drop_last(), after, until) + if w.last().after(after) && !w.last().after(
            until,
        ) {
            1nat
        } else {
            0nat
        }
    }
}

/// A count of occurrences, and whether it is only a lower bound.
#[derive(Clone, Copy, Debug, PartialEq, Eq, Structural)]
pub struct OccurrenceCount {
    pub count: u64,
    /// The walk reached its bound before it left the window.
    pub saturated: bool,
}

impl View for OccurrenceCount {
    type V = OccurrenceCount;

    open spec fn view(&self) -> OccurrenceCount {
        *self
    }
}

/// What a walk that was cut at `MAX_ITER` fires says of a window: how many of them are later than `after`
/// and not later than `until`, and whether the cut came before the window's end.
pub open spec fn tally(w: Seq<Instant>, after: Instant, until: Instant) -> OccurrenceCount {
    OccurrenceCount {
        count: count_within(w, after, until) as u64,
        saturated: w.len() == MAX_ITER && !w.last().after(until),
    }
}

/// Occurrences of an expression later than `after` and not later than `until`, among the first
/// `MAX_ITER` fires.
pub open spec fn occurrences(
    expr: Seq<char>,
    after: Instant,
    until: Instant,
    zone: Seq<char>,
) -> OccurrenceCount {
    tally(walk(expr, after, zone, MAX_ITER as nat), after, until)
}

/// A count never exceeds the number of walked items.
pub proof fn lemma_count_within(w: Seq<Instant>, after: Instant, until: Instant)
    ensures
        count_within(w, after, until) <= w.len(),
    decreases w.len(),
{
    if w.len() > 0 {
        lemma_count_within(w.drop_last(), after, until);
    }
}

/// Counting is exact up to the bound and never exceeds it.
pub proof fn occurrences_are_bounded(
    expr: Seq<char>,
    after: Instant,
    until: Instant,
    zone: Seq<char>,
)
    ensures
        occurrences(expr, after, until, zone).count <= MAX_ITER,
        occurrences(expr, after, until, zone).count == count_within(
            walk(expr, after, zone, MAX_ITER as nat),
            after,
            until,
        ),
{
    lemma_walk_prefix(expr, after, zone, MAX_ITER as nat, MAX_ITER as nat);
    lemma_count_within(walk(expr, after, zone, MAX_ITER as nat), after, until);
}

/// Counts the walked fires that are later than `after` and not later than `until`.
pub fn count_walked(walked: &Vec<Instant>, after: Instant, until: Instant) -> (r: OccurrenceCount)
    ensures
        r == tally(walked@, after, until),
        r.count == count_within(walked@, after, until),
{
    let mut count: u64 = 0;
    let mut i: usize = 0;
    while i < walked.len()
        invariant
            i <= walked@.len(),
            count == count_within(walked@.take(i as int), after, until),
            count <= i,
        decreases walked@.len() - i,
    {
        assert(walked@.take(i + 1).drop_last() =~= walked@.take(i as int));
        if walked[i].is_after(after) && !walked[i].is_after(until) {
            count = count + 1;
        }
        i = i + 1;
    }
    assert(walked@.take(walked@.len() as int) =~= walked@);
    let saturated = walked.len() == MAX_ITER && !walked[walked.len() - 1].is_after(until);
    OccurrenceCount { count, saturated }
}

// ---------------------------------------------------------------------------
// Windows in UTC
// ---------------------------------------------------------------------------
/// How many of the seconds after `lo` and up to `hi` an expression fires at in UTC.
pub open spec fn fired(expr: Seq<char>, lo: int, hi: int) -> nat
    decreases hi - lo,
{
    if hi <= lo {
        0
    } else {
        fired(expr, lo, hi - 1) + if utc_fire(expr, hi) {
            1nat
        } else {
            0nat
        }
    }
}

/// The occurrences of an expression in UTC later than `after` and not later than `until`, however many.
pub open spec fn utc_count(expr: Seq<char>, after: Instant, until: Instant) -> nat {
    if after.secs() < WALKS_FROM {
        0
    } else {
        fired(expr, after.secs(), until.secs())
    }
}

/// A count that stops at `MAX_ITER` and then says that it is a lower bound.
pub open spec fn capped(n: nat) -> OccurrenceCount {
    OccurrenceCount {
        count: if n < MAX_ITER {
            n as u64
        } else {
            MAX_ITER as u64
        },
        saturated: n >= MAX_ITER,
    }
}

proof fn lemma_fired_split(expr: Seq<char>, lo: int, mid: int, hi: int)
    requires
        lo <= mid <= hi,
    ensures
        fired(expr, lo, mid) + fired(expr, mid, hi) == fired(expr, lo, hi),
    decreases hi - mid,
{
    if mid < hi {
        lemma_fired_split(expr, lo, mid, hi - 1);
    }
}

proof fn lemma_fired_nothing(expr: Seq<char>, lo: int, hi: int)
    requires
        forall|t: int| lo < t <= hi ==> !#[trigger] utc_fire(expr, t),
    ensures
        fired(expr, lo, hi) == 0,
    decreases hi - lo,
{
    if lo < hi {
        lemma_fired_nothing(expr, lo, hi - 1);
    }
}

proof fn lemma_fired_up_to(expr: Seq<char>, from: int, n: nat, w: Seq<Instant>, k: int)
    requires
        utc_walk(expr, from, n, w),
        1 <= k <= w.len(),
    ensures
        fired(expr, from, w[k - 1].secs()) == k,
    decreases k,
{
    let hi = w[k - 1].secs();
    let lo = if k == 1 {
        from
    } else {
        w[k - 2].secs()
    };
    if k > 1 {
        lemma_fired_up_to(expr, from, n, w, k - 1);
    }
    assert(hi <= w.last().secs());
    assert forall|t: int| lo < t <= hi - 1 implies !#[trigger] utc_fire(expr, t) by {
        if falls_on(w, t) {
            let i = choose|i: int| 0 <= i < w.len() && (#[trigger] w[i]).secs() == t;
            assert(k - 1 <= i || i <= k - 2);
        }
    }
    lemma_fired_nothing(expr, lo, hi - 1);
    assert(falls_on(w, hi));
    assert(utc_fire(expr, hi));
    assert(fired(expr, lo, hi) == 1);
    lemma_fired_split(expr, from, lo, hi);
}

proof fn lemma_counted_in_order(w: Seq<Instant>, after: Instant, until: Instant) -> (c: int)
    requires
        forall|i: int|
            0 <= i < w.len() ==> (#[trigger] w[i]).nanos() == 0 && w[i].secs() > after.secs(),
        forall|i: int, j: int|
            0 <= i < j < w.len() ==> (#[trigger] w[i]).secs() < (#[trigger] w[j]).secs(),
    ensures
        0 <= c <= w.len(),
        count_within(w, after, until) == c,
        forall|i: int| 0 <= i < c ==> (#[trigger] w[i]).secs() <= until.secs(),
        forall|i: int| c <= i < w.len() ==> (#[trigger] w[i]).secs() > until.secs(),
    decreases w.len(),
{
    if w.len() == 0 {
        0
    } else {
        crate::time::lemma_nanos_range(until);
        let front = w.drop_last();
        let c = lemma_counted_in_order(front, after, until);
        assert(w[w.len() - 1] == w.last());
        assert forall|i: int| 0 <= i < front.len() implies #[trigger] w[i] == front[i] by {}
        if w.last().secs() <= until.secs() {
            if c < front.len() {
                assert(w[c].secs() < w[w.len() - 1].secs());
            }
            w.len() as int
        } else {
            c
        }
    }
}

proof fn lemma_utc_tally(expr: Seq<char>, after: Instant, until: Instant, w: Seq<Instant>)
    requires
        w.len() <= MAX_ITER,
        until.after(after),
        after.secs() >= WALKS_FROM ==> utc_walk(expr, after.secs(), MAX_ITER as nat, w),
        after.secs() < WALKS_FROM ==> w.len() == 0,
    ensures
        tally(w, after, until) == capped(utc_count(expr, after, until)),
{
    let from = after.secs();
    let to = until.secs();
    if from >= WALKS_FROM {
        let c = lemma_counted_in_order(w, after, until);
        let last = if c == 0 {
            from
        } else {
            w[c - 1].secs()
        };
        if c > 0 {
            lemma_fired_up_to(expr, from, MAX_ITER as nat, w, c);
        }
        lemma_fired_split(expr, from, last, to);
        if c < w.len() || w.len() < MAX_ITER {
            assert forall|t: int| last < t <= to implies !#[trigger] utc_fire(expr, t) by {
                if c < w.len() {
                    assert(w[c].secs() <= w[w.len() - 1].secs());
                }
                if falls_on(w, t) {
                    let i = choose|i: int| 0 <= i < w.len() && (#[trigger] w[i]).secs() == t;
                    assert(i < c || c <= i);
                    if i < c - 1 {
                        assert(w[i].secs() < w[c - 1].secs());
                    }
                }
            }
            lemma_fired_nothing(expr, last, to);
            if c < w.len() {
                assert(w[w.len() - 1].secs() > to);
            }
        } else {
            crate::time::lemma_nanos_range(until);
            assert(w[w.len() - 1].secs() <= to);
        }
    }
}

/// The fires of two adjoining windows are those of both together: one at the seam belongs to the first
/// window and not to the second. Left out are windows of which the first starts before the year zero and
/// the second does not.
pub proof fn adjoining_windows_add_up(expr: Seq<char>, a: Instant, b: Instant, c: Instant)
    requires
        !a.after(b),
        !b.after(c),
        a.secs() >= WALKS_FROM || b.secs() < WALKS_FROM,
    ensures
        utc_count(expr, a, b) + utc_count(expr, b, c) == utc_count(expr, a, c),
{
    if a.secs() >= WALKS_FROM {
        lemma_fired_split(expr, a.secs(), b.secs(), c.secs());
    }
}

/// Counts the occurrences later than `after` and not later than `until`. In UTC these are all there are,
/// up to the bound.
pub fn count_fires(expr: &str, after: Instant, until: Instant, zone: &Zone) -> (r: OccurrenceCount)
    requires
        cron_fault(expr@) is None,
        after.evaluable(),
    ensures
        r == occurrences(expr@, after, until, zone@),
        zone@ == "UTC"@ && until.after(after) ==> r == capped(utc_count(expr@, after, until)),
{
    let w = walked(expr, after, zone, MAX_ITER);
    proof {
        lemma_walk_prefix(expr@, after, zone@, MAX_ITER as nat, MAX_ITER as nat);
        if zone@ == "UTC"@ && until.after(after) {
            lemma_utc_tally(expr@, after, until, w@);
        }
    }
    count_walked(&w, after, until)
}

} // verus!
