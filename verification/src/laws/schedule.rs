//! What schedules are for: a reminder comes due when it was asked to.
use vstd::prelude::*;

use crate::fires::{
    capped, count_within, fired, later_than, next_fires, tally, tokens, utc_count, utc_fire, walk,
    Weekday,
};
use crate::laws::numbers::a_decimal_reads_back;
use crate::laws::text::{a_cut_parts_the_text, joining_is_undone_by_splitting};
use crate::numbers::{decimal, number_of, NumberFault};
use crate::reminders::{
    cron_read, datetime_read, freq_read, full_name, full_names, in_words, missed, naive_read,
    pattern_expr, time_read, upcoming_fires, weekday_read, Freq, Plan, TimeOfDay,
};
use crate::set_reminder::short_name;
use crate::text::{cut, is_space, join, lemma_join_first, lower, split, trim_start, word_len, words};
use crate::time::{Instant, LocalTime};

verus! {

// ---------------------------------------------------------------------------
// Names
// ---------------------------------------------------------------------------
proof fn lemma_day_names()
    ensures
        forall|w: Weekday| #[trigger] lower(w.token()) == short_name(w),
        forall|w: Weekday| #[trigger] lower(short_name(w)) == short_name(w),
        forall|w: Weekday| #[trigger] lower(full_name(w)).take(3) == short_name(w),
        forall|w: Weekday| #[trigger] full_name(w).len() >= 6,
        forall|w: Weekday| #[trigger] short_name(w).len() == 3,
        lower("Monday"@) == "monday"@,
        lower("Tuesday"@) == "tuesday"@,
        lower("Wednesday"@) == "wednesday"@,
        lower("Thursday"@) == "thursday"@,
        lower("Friday"@) == "friday"@,
        lower("Saturday"@) == "saturday"@,
        lower("Sunday"@) == "sunday"@,
{
    reveal_strlit("MON");
    reveal_strlit("TUE");
    reveal_strlit("WED");
    reveal_strlit("THU");
    reveal_strlit("FRI");
    reveal_strlit("SAT");
    reveal_strlit("SUN");
    reveal_strlit("mon");
    reveal_strlit("tue");
    reveal_strlit("wed");
    reveal_strlit("thu");
    reveal_strlit("fri");
    reveal_strlit("sat");
    reveal_strlit("sun");
    reveal_strlit("Monday");
    reveal_strlit("Tuesday");
    reveal_strlit("Wednesday");
    reveal_strlit("Thursday");
    reveal_strlit("Friday");
    reveal_strlit("Saturday");
    reveal_strlit("Sunday");
    reveal_strlit("monday");
    reveal_strlit("tuesday");
    reveal_strlit("wednesday");
    reveal_strlit("thursday");
    reveal_strlit("friday");
    reveal_strlit("saturday");
    reveal_strlit("sunday");
    assert(lower("Monday"@) =~= "monday"@);
    assert(lower("Tuesday"@) =~= "tuesday"@);
    assert(lower("Wednesday"@) =~= "wednesday"@);
    assert(lower("Thursday"@) =~= "thursday"@);
    assert(lower("Friday"@) =~= "friday"@);
    assert(lower("Saturday"@) =~= "saturday"@);
    assert(lower("Sunday"@) =~= "sunday"@);
    assert forall|w: Weekday| #[trigger] lower(w.token()) == short_name(w) by {
        assert(lower(w.token()) =~= short_name(w));
    }
    assert forall|w: Weekday| #[trigger] lower(short_name(w)) == short_name(w) by {
        assert(lower(short_name(w)) =~= short_name(w));
    }
    assert forall|w: Weekday| #[trigger] lower(full_name(w)).take(3) == short_name(w) by {
        assert(lower(full_name(w)).take(3) =~= short_name(w));
    }
}

/// All the names of a day name the same one: what a cron expression writes is what is stored but for its
/// case, and what is stored is how the full name begins.
pub proof fn the_names_of_a_day_agree(w: Weekday)
    ensures
        lower(w.token()) == short_name(w),
        lower(full_name(w)).take(3) == short_name(w),
        short_name(w).len() == 3,
        w.token().len() == 3,
        weekday_read(w.token()) == Ok::<Weekday, Seq<Seq<char>>>(w),
        weekday_read(short_name(w)) == Ok::<Weekday, Seq<Seq<char>>>(w),
        weekday_read(full_name(w)) == Ok::<Weekday, Seq<Seq<char>>>(w),
{
    lemma_day_names();
    assert(lower(w.token()).len() == w.token().len());
    crate::reminder_laws::a_stored_day_reads_back(w);
    assert(lower(full_name(w)).len() == full_name(w).len());
    lemma_full_name_reads(w);
}

proof fn lemma_full_name_reads(w: Weekday)
    ensures
        weekday_read(full_name(w)) == Ok::<Weekday, Seq<Seq<char>>>(w),
{
    lemma_day_names();
    reveal_strlit("mon");
    reveal_strlit("tue");
    reveal_strlit("wed");
    reveal_strlit("thu");
    reveal_strlit("fri");
    reveal_strlit("sat");
    reveal_strlit("sun");
    reveal_strlit("monday");
    reveal_strlit("tuesday");
    reveal_strlit("wednesday");
    reveal_strlit("thursday");
    reveal_strlit("friday");
    reveal_strlit("saturday");
    reveal_strlit("sunday");
    assert("monday"@[0] == 'm' && "tuesday"@[0] == 't' && "wednesday"@[0] == 'w' && "thursday"@[0]
        == 't' && "friday"@[0] == 'f' && "saturday"@[0] == 's' && "sunday"@[0] == 's');
    assert("tuesday"@[1] == 'u' && "thursday"@[1] == 'h' && "saturday"@[1] == 'a' && "sunday"@[1]
        == 'u');
}

/// A name is read as a day only if it is one of that day's names, in any case.
pub proof fn only_a_days_own_names_are_read(s: Seq<char>)
    ensures
        weekday_read(s) matches Ok(w) ==> lower(s) == short_name(w) || lower(s) == lower(full_name(w)),
{
    lemma_day_names();
}

/// A frequency is read from its own name only, in any case.
pub proof fn only_a_frequencys_own_name_is_read(s: Seq<char>)
    ensures
        lower(s) == "daily"@ <==> freq_read(s) == Ok::<Freq, Seq<Seq<char>>>(Freq::Daily),
        lower(s) == "weekly"@ <==> freq_read(s) == Ok::<Freq, Seq<Seq<char>>>(Freq::Weekly),
        lower(s) == "monthly"@ <==> freq_read(s) == Ok::<Freq, Seq<Seq<char>>>(Freq::Monthly),
{
    reveal_strlit("daily");
    reveal_strlit("weekly");
    reveal_strlit("monthly");
    assert("daily"@.len() == 5 && "weekly"@.len() == 6 && "monthly"@.len() == 7);
}

/// A time of day is read as the hour before its colon and the minute after it, where a clock can show
/// them; everything else is refused.
pub proof fn a_time_is_an_hour_and_a_minute(s: Seq<char>, h: Seq<char>, m: Seq<char>)
    requires
        s == h + seq![':'] + m,
        !h.contains(':'),
    ensures
        match (number_of(h, u32::MAX as int), number_of(m, u32::MAX as int)) {
            (Ok(hour), Ok(minute)) => if hour < 24 && minute < 60 {
                time_read(s) matches Ok(t) && t.hour == hour && t.minute == minute
            } else {
                time_read(s) is Err
            },
            _ => time_read(s) is Err,
        },
{
    crate::text::lemma_until(s, ':');
    let k = crate::text::until(s, ':') as int;
    assert(s[h.len() as int] == ':');
    if k < h.len() {
        assert(s[k] == h[k]);
        assert(h.contains(h[k]));
    }
    assert(s.take(k) =~= h);
    assert(s.skip(k + 1) =~= m);
    crate::numbers::lemma_number_range(h, u32::MAX as int);
    crate::numbers::lemma_number_range(m, u32::MAX as int);
}

/// A text without a colon is no time of day.
pub proof fn a_time_needs_a_colon(s: Seq<char>)
    ensures
        !s.contains(':') ==> time_read(s) is Err,
{
    a_cut_parts_the_text(s, ':');
    if let Some((a, b)) = cut(s, ':') {
        assert(s[a.len() as int] == ':');
    }
}

// ---------------------------------------------------------------------------
// Expressions
// ---------------------------------------------------------------------------
proof fn lemma_word_len_of(w: Seq<char>, s: Seq<char>)
    requires
        forall|i: int| 0 <= i < w.len() ==> !is_space(#[trigger] w[i]),
        s.len() == 0 || is_space(s[0]),
    ensures
        word_len(w + s) == w.len(),
    decreases w.len(),
{
    let t = w + s;
    if w.len() > 0 {
        assert(t[0] == w[0]);
        assert(t.drop_first() =~= w.drop_first() + s);
        lemma_word_len_of(w.drop_first(), s);
    } else {
        assert(t =~= s);
    }
}

proof fn lemma_words_first(w: Seq<char>, s: Seq<char>)
    requires
        w.len() > 0,
        forall|i: int| 0 <= i < w.len() ==> !is_space(#[trigger] w[i]),
    ensures
        words(w) == seq![w],
        words(w + seq![' '] + s) == seq![w] + words(s),
{
    let n = w.len() as int;
    lemma_word_len_of(w, seq![]);
    assert(w + seq![] =~= w);
    assert(trim_start(w) == w);
    assert(w.take(n) =~= w);
    assert(words(w.skip(n)) =~= seq![]);
    assert(words(w) =~= seq![w]);
    let t = w + seq![' '] + s;
    let rest = seq![' '] + s;
    assert(t =~= w + rest);
    lemma_word_len_of(w, rest);
    assert(t[0] == w[0]);
    assert(trim_start(t) == t);
    assert(t.take(n) =~= w);
    assert(t.skip(n) =~= rest);
    assert(rest.drop_first() =~= s);
    assert(trim_start(rest) == trim_start(s));
    assert(words(rest) == words(s));
}

/// Fields joined by spaces are the words of what joins them.
proof fn lemma_fields_are_words(fields: Seq<Seq<char>>)
    requires
        fields.len() > 0,
        forall|i: int| 0 <= i < fields.len() ==> (#[trigger] fields[i]).len() > 0,
        forall|i: int, k: int|
            0 <= i < fields.len() && 0 <= k < fields[i].len() ==> !is_space(#[trigger] fields[i][k]),
    ensures
        words(join(fields, seq![' '])) == fields,
    decreases fields.len(),
{
    let first = fields[0];
    assert forall|k: int| 0 <= k < first.len() implies !is_space(#[trigger] first[k]) by {
        assert(!is_space(fields[0][k]));
    }
    if fields.len() == 1 {
        lemma_words_first(first, seq![]);
        assert(fields =~= seq![first]);
    } else {
        let rest = fields.drop_first();
        assert(seq![first] + rest =~= fields);
        assert forall|i: int| 0 <= i < rest.len() implies (#[trigger] rest[i]).len() > 0 by {
            assert(rest[i] == fields[i + 1]);
        }
        assert forall|i: int, k: int| 0 <= i < rest.len() && 0 <= k < rest[i].len() implies !is_space(
            #[trigger] rest[i][k],
        ) by {
            assert(rest[i] == fields[i + 1]);
            assert(!is_space(fields[i + 1][k]));
        }
        lemma_fields_are_words(rest);
        lemma_join_first(first, rest, seq![' ']);
        lemma_words_first(first, join(rest, seq![' ']));
    }
}

proof fn lemma_six_fields(f: Seq<Seq<char>>)
    requires
        f.len() == 6,
    ensures
        join(f, seq![' ']) == f[0] + seq![' '] + f[1] + seq![' '] + f[2] + seq![' '] + f[3] + seq![
            ' ',
        ] + f[4] + seq![' '] + f[5],
{
    reveal_with_fuel(join, 7);
}

proof fn lemma_decimal_is_a_field(n: nat)
    ensures
        decimal(n).len() > 0,
        forall|k: int|
            0 <= k < decimal(n).len() ==> !is_space(#[trigger] decimal(n)[k]) && decimal(n)[k]
                != ',',
{
    a_decimal_reads_back(n, n as int);
    assert forall|k: int| 0 <= k < decimal(n).len() implies !is_space(#[trigger] decimal(n)[k])
        && decimal(n)[k] != ',' by {
        assert('0' <= decimal(n)[k] <= '9');
    }
}

proof fn lemma_tokens_join(days: Seq<Weekday>)
    requires
        days.len() > 0,
    ensures
        join(tokens(days), ","@).len() > 0,
        forall|k: int|
            0 <= k < join(tokens(days), ","@).len() ==> !is_space(
                #[trigger] join(tokens(days), ","@)[k],
            ),
    decreases days.len(),
{
    let t = tokens(days);
    lemma_token_letters(days.last());
    reveal_strlit(",");
    if days.len() > 1 {
        lemma_tokens_join(days.drop_last());
        assert(t.drop_last() =~= tokens(days.drop_last()));
        let before = join(t.drop_last(), ","@);
        let all = join(t, ","@);
        assert forall|k: int| 0 <= k < all.len() implies !is_space(#[trigger] all[k]) by {
            if k < before.len() {
                assert(all[k] == before[k]);
            } else if k == before.len() {
                assert(all[k] == ',');
            } else {
                assert(all[k] == days.last().token()[k - before.len() - 1]);
            }
        }
    }
}

proof fn lemma_token_letters(w: Weekday)
    ensures
        w.token().len() == 3,
        forall|k: int| 0 <= k < 3 ==> 'A' <= #[trigger] w.token()[k] <= 'Z',
{
    reveal_strlit("MON");
    reveal_strlit("TUE");
    reveal_strlit("WED");
    reveal_strlit("THU");
    reveal_strlit("FRI");
    reveal_strlit("SAT");
    reveal_strlit("SUN");
}

/// The fields of a pattern's expression, read back: it fires in the first second of its minute and its
/// hour. A daily pattern takes every day, a weekly one every day of the month and month but only its days
/// of the week, each in its place, and a monthly one only its day.
pub proof fn a_pattern_compiles_to_its_time_and_days(
    freq: Freq,
    time: TimeOfDay,
    weekdays: Seq<Weekday>,
    day_of_month: Option<u32>,
)
    ensures
        pattern_expr(freq, time, weekdays, day_of_month) matches Ok(e) ==> {
            let f = words(e);
            &&& f.len() == 6
            &&& number_of(f[0], u32::MAX as int) == Ok::<int, NumberFault>(0)
            &&& number_of(f[1], u32::MAX as int) == Ok::<int, NumberFault>(time.minute as int)
            &&& number_of(f[2], u32::MAX as int) == Ok::<int, NumberFault>(time.hour as int)
            &&& f[4] == seq!['*']
            &&& freq == Freq::Daily ==> f[3] == seq!['*'] && f[5] == seq!['*']
            &&& freq == Freq::Monthly ==> f[5] == seq!['*'] && day_of_month is Some && number_of(
                f[3],
                u32::MAX as int,
            ) == Ok::<int, NumberFault>(day_of_month->0 as int)
            &&& freq == Freq::Weekly ==> {
                let days = split(f[5], ',');
                &&& f[3] == seq!['*']
                &&& days.len() == weekdays.len()
                &&& forall|i: int|
                    0 <= i < days.len() ==> weekday_read(#[trigger] days[i]) == Ok::<
                        Weekday,
                        Seq<Seq<char>>,
                    >(weekdays[i])
            }
        },
{
    if let Ok(e) = pattern_expr(freq, time, weekdays, day_of_month) {
        let m = decimal(time.minute as nat);
        let h = decimal(time.hour as nat);
        let star = seq!['*'];
        let zero = seq!['0'];
        a_decimal_reads_back(time.minute as nat, u32::MAX as int);
        a_decimal_reads_back(time.hour as nat, u32::MAX as int);
        a_decimal_reads_back(0, u32::MAX as int);
        lemma_decimal_is_a_field(time.minute as nat);
        lemma_decimal_is_a_field(time.hour as nat);
        assert(decimal(0) =~= zero);
        reveal_strlit("0 ");
        reveal_strlit(" ");
        reveal_strlit(" * * *");
        reveal_strlit(" * * ");
        reveal_strlit(" * *");
        let dows = join(tokens(weekdays), ","@);
        let dom = decimal(day_of_month->0 as nat);
        let fields = match freq {
            Freq::Daily => seq![zero, m, h, star, star, star],
            Freq::Weekly => seq![zero, m, h, star, star, dows],
            Freq::Monthly => seq![zero, m, h, dom, star, star],
        };
        if freq == Freq::Weekly {
            lemma_tokens_join(weekdays);
        }
        if freq == Freq::Monthly {
            lemma_decimal_is_a_field(day_of_month->0 as nat);
            a_decimal_reads_back(day_of_month->0 as nat, u32::MAX as int);
        }
        assert forall|i: int, k: int|
            0 <= i < fields.len() && 0 <= k < fields[i].len() implies !is_space(
            #[trigger] fields[i][k],
        ) by {
            if i == 1 {
                assert(!is_space(m[k]));
            } else if i == 2 {
                assert(!is_space(h[k]));
            } else if i == 3 && freq == Freq::Monthly {
                assert(!is_space(dom[k]));
            } else if i == 5 && freq == Freq::Weekly {
                assert(!is_space(dows[k]));
            }
        }
        lemma_fields_are_words(fields);
        lemma_six_fields(fields);
        assert(e =~= join(fields, seq![' ']));
        if freq == Freq::Weekly {
            let t = tokens(weekdays);
            assert forall|i: int, k: int| 0 <= i < t.len() && 0 <= k < t[i].len() implies #[trigger] t[i][k]
                != ',' by {
                lemma_token_letters(weekdays[i]);
                assert('A' <= weekdays[i].token()[k] <= 'Z');
            }
            reveal_strlit(",");
            assert(","@ =~= seq![',']);
            joining_is_undone_by_splitting(t, ',');
            assert forall|i: int| 0 <= i < t.len() implies weekday_read(#[trigger] t[i]) == Ok::<
                Weekday,
                Seq<Seq<char>>,
            >(weekdays[i]) by {
                the_names_of_a_day_agree(weekdays[i]);
            }
        }
    }
}

/// A pattern is refused exactly if its fields do not fit its frequency.
pub proof fn a_pattern_needs_the_fields_of_its_frequency(
    freq: Freq,
    time: TimeOfDay,
    weekdays: Seq<Weekday>,
    day_of_month: Option<u32>,
)
    ensures
        freq == Freq::Daily ==> (pattern_expr(freq, time, weekdays, day_of_month) is Ok
            <==> weekdays.len() == 0 && day_of_month is None),
        freq == Freq::Weekly ==> (pattern_expr(freq, time, weekdays, day_of_month) is Ok
            <==> weekdays.len() > 0 && day_of_month is None),
        freq == Freq::Monthly ==> (pattern_expr(freq, time, weekdays, day_of_month) is Ok
            <==> weekdays.len() == 0 && day_of_month is Some && 1 <= day_of_month->0 <= 31),
{
}

/// A cron expression keeps its fields: five get a zero for the seconds in front, six and seven stay as they
/// are, and any other number is refused. What the parser refuses is refused.
pub proof fn an_expression_keeps_its_fields(expr: Seq<char>)
    ensures
        words(expr).len() < 5 || words(expr).len() > 7 ==> cron_read(expr) is Err,
        cron_read(expr) matches Ok(e) ==> {
            &&& crate::fires::cron_fault(e) is None
            &&& words(expr).len() == 5 ==> words(e) == seq![seq!['0']] + words(expr)
            &&& words(expr).len() != 5 ==> words(e) == words(expr)
        },
        words(expr).len() == 5 && crate::fires::cron_fault("0 "@ + expr) is None ==> cron_read(expr) is Ok,
        6 <= words(expr).len() <= 7 && crate::fires::cron_fault(crate::text::trim(expr)) is None
            ==> cron_read(expr) is Ok,
{
    crate::reminder_laws::lemma_words_prepend_zero(expr);
    crate::reminder_laws::trimming_keeps_the_words(expr);
}

// ---------------------------------------------------------------------------
// Datetimes
// ---------------------------------------------------------------------------
/// A datetime with an offset means the same instant in every zone. One without is read on the clocks of the
/// zone: it means the instant at which they show it, and is refused where they never do or do twice, or
/// where it is no datetime at all.
pub proof fn a_datetime_is_read_on_the_clocks_of_the_zone(s: Seq<char>, zone: Seq<char>, other: Seq<char>)
    ensures
        crate::time::rfc3339_instant(s) matches Some(t) ==> datetime_read(s, zone) == Ok::<
            Instant,
            Seq<Seq<char>>,
        >(t) && datetime_read(s, other) == datetime_read(s, zone),
        crate::time::rfc3339_instant(s) is None ==> match naive_read(s) {
            None => datetime_read(s, zone) is Err,
            Some(clock) => match crate::time::local_time(clock, zone) {
                LocalTime::Single(t) => datetime_read(s, zone) == Ok::<Instant, Seq<Seq<char>>>(t),
                _ => datetime_read(s, zone) is Err,
            },
        },
{
}

/// A datetime without an offset is read with seconds or without, its date and time parted by a `T` or by a
/// space, and in no other form.
pub proof fn a_clock_time_has_four_forms(s: Seq<char>)
    ensures
        ({
            let full = crate::time::wall_clock(s, "%Y-%m-%dT%H:%M:%S"@);
            let short = crate::time::wall_clock(s, "%Y-%m-%dT%H:%M"@);
            let spaced = crate::time::wall_clock(s, "%Y-%m-%d %H:%M:%S"@);
            let spaced_short = crate::time::wall_clock(s, "%Y-%m-%d %H:%M"@);
            &&& naive_read(s) is Some <==> full is Some || short is Some || spaced is Some
                || spaced_short is Some
            &&& naive_read(s) is Some ==> naive_read(s) == full || naive_read(s) == short || naive_read(
                s,
            ) == spaced || naive_read(s) == spaced_short
        }),
{
}

// ---------------------------------------------------------------------------
// Fires
// ---------------------------------------------------------------------------
proof fn lemma_later_at(w: Seq<Instant>, t: Instant) -> (at: Seq<int>)
    ensures
        at.len() == later_than(w, t).len(),
        forall|i: int|
            0 <= i < at.len() ==> 0 <= #[trigger] at[i] < w.len() && later_than(w, t)[i] == w[at[i]]
                && w[at[i]].after(t),
        forall|i: int, j: int| 0 <= i < j < at.len() ==> #[trigger] at[i] < #[trigger] at[j],
        forall|k: int| 0 <= k < w.len() && (#[trigger] w[k]).after(t) ==> at.contains(k),
    decreases w.len(),
{
    if w.len() == 0 {
        seq![]
    } else {
        let front = w.drop_last();
        let before = lemma_later_at(front, t);
        let last = w.len() - 1;
        let at = if w.last().after(t) {
            before.push(last)
        } else {
            before
        };
        assert forall|i: int| 0 <= i < at.len() implies 0 <= #[trigger] at[i] < w.len()
            && later_than(w, t)[i] == w[at[i]] && w[at[i]].after(t) by {
            if i < before.len() {
                assert(at[i] == before[i]);
                assert(front[before[i]] == w[before[i]]);
            }
        }
        assert forall|k: int| 0 <= k < w.len() && (#[trigger] w[k]).after(t) implies at.contains(k) by {
            if k < last {
                assert(front[k] == w[k]);
                assert(before.contains(k));
                let i = choose|i: int| 0 <= i < before.len() && before[i] == k;
                assert(at[i] == k);
            } else {
                assert(at[before.len() as int] == k);
            }
        }
        at
    }
}

/// The next fires are the first ones of the walk that are later than the start, in the walk's order: the
/// `i`-th is item `at[i]`. One that is later is left out only once there are as many as were asked for,
/// and then it comes after them.
pub proof fn the_next_fires_skip_nothing(
    expr: Seq<char>,
    after: Instant,
    zone: Seq<char>,
    n: nat,
) -> (at: Seq<int>)
    ensures
        ({
            let w = walk(expr, after, zone, usize::MAX as nat);
            let r = next_fires(expr, after, zone, n);
            &&& at.len() == r.len()
            &&& r.len() <= n
            &&& forall|i: int|
                0 <= i < at.len() ==> 0 <= #[trigger] at[i] < w.len() && r[i] == w[at[i]]
                    && r[i].after(after)
            &&& forall|i: int, j: int| 0 <= i < j < at.len() ==> #[trigger] at[i] < #[trigger] at[j]
            &&& forall|k: int|
                0 <= k < w.len() && (#[trigger] w[k]).after(after) && !at.contains(k) ==> r.len() == n
                    && forall|i: int| 0 <= i < at.len() ==> #[trigger] at[i] < k
        }),
{
    let w = walk(expr, after, zone, usize::MAX as nat);
    let r = next_fires(expr, after, zone, n);
    let all = lemma_later_at(w, after);
    let at = if all.len() <= n {
        all
    } else {
        all.take(n as int)
    };
    assert forall|i: int| 0 <= i < at.len() implies 0 <= #[trigger] at[i] < w.len() && r[i]
        == w[at[i]] && r[i].after(after) by {
        assert(at[i] == all[i]);
    }
    assert forall|k: int|
        0 <= k < w.len() && (#[trigger] w[k]).after(after) && !at.contains(k) implies r.len() == n
        && forall|i: int| 0 <= i < at.len() ==> #[trigger] at[i] < k by {
        assert(all.contains(k));
        let x = choose|x: int| 0 <= x < all.len() && all[x] == k;
        if x < at.len() {
            assert(at[x] == k);
        }
        assert forall|i: int| 0 <= i < at.len() implies #[trigger] at[i] < k by {
            assert(all[i] < all[x]);
        }
    }
    at
}

/// A one-shot fires once: at its time, while that is still to come. A schedule that repeats fires as its
/// expression does.
pub proof fn a_one_shot_fires_once(due_at: Instant, from: Instant, zone: Seq<char>, n: nat, expr: Seq<char>)
    ensures
        due_at.after(from) ==> upcoming_fires(Plan::Once { due_at }, from, zone, n) == Ok::<
            Seq<Instant>,
            Seq<Seq<char>>,
        >(seq![due_at]),
        !due_at.after(from) ==> upcoming_fires(Plan::Once { due_at }, from, zone, n) == Ok::<
            Seq<Instant>,
            Seq<Seq<char>>,
        >(seq![]),
        crate::fires::cron_fault(expr) is None ==> upcoming_fires(Plan::Cron { expr }, from, zone, n)
            == Ok::<Seq<Instant>, Seq<Seq<char>>>(next_fires(expr, from, zone, n)),
{
}

/// A pattern fires as its compiled expression does, whatever column it keeps the day in.
pub proof fn a_pattern_fires_as_its_expression(
    freq: Freq,
    time: TimeOfDay,
    weekdays: Seq<Weekday>,
    day_of_month: u32,
    from: Instant,
    zone: Seq<char>,
    n: nat,
)
    ensures
        ({
            let plan = Plan::Pattern { freq, time, weekdays, day_of_month };
            let day = if freq == Freq::Monthly {
                Some(day_of_month)
            } else {
                None
            };
            pattern_expr(freq, time, weekdays, day) matches Ok(e) ==> (crate::fires::cron_fault(e)
                is None ==> upcoming_fires(plan, from, zone, n) == Ok::<
                Seq<Instant>,
                Seq<Seq<char>>,
            >(next_fires(e, from, zone, n)))
        }),
{
}

/// What is counted of a walk is exactly what lies in the window, the end included and the start not: the
/// items at `at`. The count is a lower bound exactly if the walk has ten thousand items and its last one
/// still lies in the window.
pub proof fn a_window_counts_what_lies_in_it(
    w: Seq<Instant>,
    after: Instant,
    until: Instant,
) -> (at: Seq<int>)
    requires
        w.len() <= u64::MAX,
    ensures
        at.len() == tally(w, after, until).count,
        forall|i: int|
            0 <= i < at.len() ==> 0 <= #[trigger] at[i] < w.len() && w[at[i]].after(after)
                && !w[at[i]].after(until),
        forall|i: int, j: int| 0 <= i < j < at.len() ==> #[trigger] at[i] < #[trigger] at[j],
        forall|k: int|
            0 <= k < w.len() && (#[trigger] w[k]).after(after) && !w[k].after(until) ==> at.contains(
                k,
            ),
        tally(w, after, until).saturated <==> w.len() == 10_000 && !w[9_999].after(until),
{
    crate::fires::lemma_count_within(w, after, until);
    lemma_within(w, after, until)
}

proof fn lemma_within(w: Seq<Instant>, after: Instant, until: Instant) -> (at: Seq<int>)
    ensures
        at.len() == count_within(w, after, until),
        forall|i: int|
            0 <= i < at.len() ==> 0 <= #[trigger] at[i] < w.len() && w[at[i]].after(after)
                && !w[at[i]].after(until),
        forall|i: int, j: int| 0 <= i < j < at.len() ==> #[trigger] at[i] < #[trigger] at[j],
        forall|k: int|
            0 <= k < w.len() && (#[trigger] w[k]).after(after) && !w[k].after(until) ==> at.contains(
                k,
            ),
    decreases w.len(),
{
    if w.len() == 0 {
        seq![]
    } else {
        let front = w.drop_last();
        let before = lemma_within(front, after, until);
        let last = w.len() - 1;
        let at = if w.last().after(after) && !w.last().after(until) {
            before.push(last)
        } else {
            before
        };
        assert forall|i: int| 0 <= i < at.len() implies 0 <= #[trigger] at[i] < w.len()
            && w[at[i]].after(after) && !w[at[i]].after(until) by {
            if i < before.len() {
                assert(at[i] == before[i]);
                assert(front[before[i]] == w[before[i]]);
            }
        }
        assert forall|k: int|
            0 <= k < w.len() && (#[trigger] w[k]).after(after) && !w[k].after(
                until,
            ) implies at.contains(k) by {
            if k < last {
                assert(front[k] == w[k]);
                assert(before.contains(k));
                let i = choose|i: int| 0 <= i < before.len() && before[i] == k;
                assert(at[i] == k);
            } else {
                assert(at[before.len() as int] == k);
            }
        }
        at
    }
}

/// In UTC the occurrences in a window are the seconds in it at which the expression fires, the end included
/// and the start not; up to ten thousand of them are counted.
pub proof fn a_window_counts_its_seconds(
    expr: Seq<char>,
    after: Instant,
    until: Instant,
) -> (at: Seq<int>)
    requires
        after.secs() >= crate::fires::WALKS_FROM,
    ensures
        at.len() == utc_count(expr, after, until),
        forall|i: int|
            0 <= i < at.len() ==> after.secs() < #[trigger] at[i] <= until.secs() && utc_fire(
                expr,
                at[i],
            ),
        forall|i: int, j: int| 0 <= i < j < at.len() ==> #[trigger] at[i] < #[trigger] at[j],
        forall|t: int|
            after.secs() < t <= until.secs() && #[trigger] utc_fire(expr, t) ==> at.contains(t),
        at.len() < 10_000 ==> capped(at.len()).count == at.len() && !capped(at.len()).saturated,
        at.len() >= 10_000 ==> capped(at.len()).count == 10_000 && capped(at.len()).saturated,
{
    lemma_fired_at(expr, after.secs(), until.secs())
}

proof fn lemma_fired_at(expr: Seq<char>, lo: int, hi: int) -> (at: Seq<int>)
    ensures
        at.len() == fired(expr, lo, hi),
        forall|i: int| 0 <= i < at.len() ==> lo < #[trigger] at[i] <= hi && utc_fire(expr, at[i]),
        forall|i: int, j: int| 0 <= i < j < at.len() ==> #[trigger] at[i] < #[trigger] at[j],
        forall|t: int| lo < t <= hi && #[trigger] utc_fire(expr, t) ==> at.contains(t),
    decreases hi - lo,
{
    if hi <= lo {
        seq![]
    } else {
        let before = lemma_fired_at(expr, lo, hi - 1);
        let at = if utc_fire(expr, hi) {
            before.push(hi)
        } else {
            before
        };
        assert forall|t: int| lo < t <= hi && #[trigger] utc_fire(expr, t) implies at.contains(t) by {
            if t < hi {
                assert(before.contains(t));
                let i = choose|i: int| 0 <= i < before.len() && before[i] == t;
                assert(at[i] == t);
            } else {
                assert(at[before.len() as int] == t);
            }
        }
        at
    }
}

/// A one-shot misses nothing, and neither does an empty window.
pub proof fn a_one_shot_misses_nothing(plan: Plan, after: Instant, until: Instant, zone: Seq<char>)
    ensures
        plan is Once || !until.after(after) ==> (missed(plan, after, until, zone) matches Ok(n)
            && n.count == 0 && !n.saturated),
        !(plan is Once) && until.after(after) ==> (crate::reminders::compiled(plan) matches Ok(e)
            ==> missed(plan, after, until, zone) == Ok::<
            crate::fires::OccurrenceCount,
            Seq<Seq<char>>,
        >(tally(walk(e, after, zone, 10_000), after, until))),
{
}

// ---------------------------------------------------------------------------
// In words
// ---------------------------------------------------------------------------
/// In words a schedule says when it fires: the time at the end, the days of the week by their full names,
/// the day of the month by its number, and a cron expression as it is.
pub proof fn a_schedule_in_words_says_when(plan: Plan) -> (start: Seq<char>)
    ensures
        plan matches Plan::Once { due_at } ==> in_words(plan) == "one-shot at "@
            + crate::time::minute_text(due_at),
        plan matches Plan::Cron { expr } ==> in_words(plan) == "cron '"@ + expr + "'"@,
        plan matches Plan::Pattern { freq, time, weekdays, day_of_month } ==> {
            &&& in_words(plan) == start + " at "@ + time.clock()
            &&& freq == Freq::Daily ==> start == "daily"@
            &&& freq == Freq::Monthly ==> start == "monthly on day "@ + decimal(
                day_of_month as nat,
            )
            &&& freq == Freq::Weekly ==> start == "every "@ + join(full_names(weekdays), ", "@)
        },
{
    match plan {
        Plan::Pattern { freq, time, weekdays, day_of_month } => {
            let start = match freq {
                Freq::Daily => "daily"@,
                Freq::Weekly => "every "@ + join(full_names(weekdays), ", "@),
                Freq::Monthly => "monthly on day "@ + decimal(day_of_month as nat),
            };
            reveal_strlit("daily at ");
            reveal_strlit("daily");
            reveal_strlit(" at ");
            assert("daily at "@ =~= "daily"@ + " at "@);
            assert(in_words(plan) =~= start + " at "@ + time.clock());
            start
        },
        _ => seq![],
    }
}

} // verus!
