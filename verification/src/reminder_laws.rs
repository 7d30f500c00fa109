//! What holds between setting a reminder and reading it back.
use vstd::prelude::*;

use crate::fires::Weekday;
use crate::numbers::{decimal, digit, digits_from, number_of, two_digits};
use crate::reminder_rows::{plan_of, weekdays_read};
use crate::reminders::{cron_read, freq_read, time_read, weekday_read, Freq, Plan, TimeOfDay};
use crate::set_reminder::{
    asked, days_asked, first_due, pattern_asked, settled, short_name, short_names, warning_for,
};
use crate::text::{cut, is_space, lower, lower_char, trim, trim_end, trim_start, until, word_len, words};
use crate::time::Instant;
use crate::tools::{ReminderPatternParams, SetReminderParams};

verus! {

/// Lowering twice changes nothing more.
pub proof fn lowering_is_idempotent(s: Seq<char>)
    ensures
        lower(lower(s)) == lower(s),
{
    assert forall|i: int| 0 <= i < s.len() implies lower_char(lower_char(#[trigger] s[i]))
        == lower_char(s[i]) by {}
    assert(lower(lower(s)) =~= lower(s));
}

pub proof fn lemma_two_digits(n: nat)
    requires
        n < 60,
    ensures
        two_digits(n) == seq![digit((n / 10) as int), digit((n % 10) as int)],
        number_of(two_digits(n), u32::MAX as int) == Ok::<int, crate::numbers::NumberFault>(
            n as int,
        ),
{
    let a = digit((n / 10) as int);
    let b = digit((n % 10) as int);
    reveal_with_fuel(decimal, 2);
    assert(digit(0) == '0');
    assert(two_digits(n) =~= seq![a, b]);
    let s = seq![a, b];
    assert(s.drop_first() =~= seq![b]);
    assert(seq![b].drop_first() =~= seq![]);
    reveal_with_fuel(digits_from, 3);
}

/// A time that a clock can show is read back from its `HH:MM` form.
pub proof fn a_clock_time_reads_back(t: TimeOfDay)
    requires
        t.valid(),
    ensures
        time_read(t.clock()) == Ok::<TimeOfDay, Seq<Seq<char>>>(t),
{
    let h = two_digits(t.hour as nat);
    let m = two_digits(t.minute as nat);
    lemma_two_digits(t.hour as nat);
    lemma_two_digits(t.minute as nat);
    reveal_strlit(":");
    let s = t.clock();
    assert(s =~= seq![h[0], h[1], ':', m[0], m[1]]);
    assert(s.drop_first().drop_first()[0] == ':');
    reveal_with_fuel(until, 3);
    assert(until(s, ':') == 2);
    assert(s.take(2) =~= h);
    assert(s.skip(3) =~= m);
    assert(cut(s, ':') == Some((h, m)));
}

proof fn lemma_lower_fixed(s: Seq<char>)
    requires
        forall|i: int| 0 <= i < s.len() ==> !('A' <= #[trigger] s[i] <= 'Z'),
    ensures
        lower(s) == s,
{
    assert(lower(s) =~= s);
}

/// The stored name of a day is read back as that day.
pub proof fn a_stored_day_reads_back(w: Weekday)
    ensures
        weekday_read(short_name(w)) == Ok::<Weekday, Seq<Seq<char>>>(w),
{
    reveal_strlit("mon");
    reveal_strlit("tue");
    reveal_strlit("wed");
    reveal_strlit("thu");
    reveal_strlit("fri");
    reveal_strlit("sat");
    reveal_strlit("sun");
    reveal_strlit("monday");
    reveal_strlit("tuesday");
    reveal_strlit("wednesday");
    reveal_strlit("thursday");
    reveal_strlit("friday");
    reveal_strlit("saturday");
    let s = short_name(w);
    lemma_lower_fixed(s);
    assert(s.len() == 3);
    let first = s[0];
    let second = s[1];
    assert("mon"@[0] == 'm' && "tue"@[0] == 't' && "wed"@[0] == 'w' && "thu"@[0] == 't'
        && "fri"@[0] == 'f' && "sat"@[0] == 's' && "sun"@[0] == 's');
    assert("tue"@[1] == 'u' && "thu"@[1] == 'h' && "sat"@[1] == 'a' && "sun"@[1] == 'u');
}

/// The stored names of days are read back as those days.
pub proof fn stored_days_read_back(days: Seq<Weekday>)
    ensures
        weekdays_read(short_names(days)) == Ok::<Seq<Weekday>, Seq<Seq<char>>>(days),
    decreases days.len(),
{
    let names = short_names(days);
    if days.len() > 0 {
        stored_days_read_back(days.drop_last());
        assert(names.drop_last() =~= short_names(days.drop_last()));
        a_stored_day_reads_back(days.last());
        assert(days.drop_last().push(days.last()) =~= days);
    } else {
        assert(names =~= seq![]);
        assert(days =~= seq![]);
    }
}

/// The days of a pattern are stored without repeats.
pub proof fn stored_days_do_not_repeat(names: Seq<Seq<char>>)
    ensures
        days_asked(names) matches Ok(days) ==> days.no_duplicates(),
    decreases names.len(),
{
    if names.len() > 0 {
        stored_days_do_not_repeat(names.drop_last());
    }
}

// ---------------------------------------------------------------------------
// Expressions
// ---------------------------------------------------------------------------
proof fn lemma_trim_start_drop_last(s: Seq<char>)
    requires
        s.len() > 0,
        is_space(s.last()),
    ensures
        trim_start(s.drop_last()) == (if trim_start(s).len() == 0 {
            trim_start(s)
        } else {
            trim_start(s).drop_last()
        }),
        trim_start(s).len() > 0 ==> is_space(trim_start(s).last()),
    decreases s.len(),
{
    if s.len() == 1 {
        assert(s.drop_first() =~= seq![]);
        assert(s.drop_last() =~= seq![]);
        assert(s[0] == s.last());
    } else if is_space(s[0]) {
        assert(s.drop_first().last() == s.last());
        lemma_trim_start_drop_last(s.drop_first());
        assert(s.drop_last().drop_first() =~= s.drop_first().drop_last());
        assert(s.drop_last()[0] == s[0]);
    } else {
        assert(s.drop_last()[0] == s[0]);
    }
}

proof fn lemma_word_len_take(s: Seq<char>, n: int)
    requires
        0 <= n <= s.len(),
    ensures
        n <= word_len(s) ==> word_len(s.take(n)) == n,
        n > word_len(s) ==> word_len(s.take(n)) == word_len(s),
    decreases s.len(),
{
    if n > 0 && !is_space(s[0]) {
        lemma_word_len_take(s.drop_first(), n - 1);
        assert(s.take(n).drop_first() =~= s.drop_first().take(n - 1));
        assert(s.take(n)[0] == s[0]);
    }
}

/// White space at the end of a text does not change its words.
proof fn lemma_words_drop_trailing(s: Seq<char>)
    requires
        s.len() > 0,
        is_space(s.last()),
    ensures
        words(s.drop_last()) == words(s),
    decreases s.len(),
{
    let t = trim_start(s);
    lemma_trim_start_drop_last(s);
    crate::text::lemma_trim_start_len(s);
    let u = trim_start(s.drop_last());
    if t.len() == 0 {
        assert(u.len() == 0);
    } else {
        crate::text::lemma_word_len(t);
        let k = word_len(t) as int;
        assert(k < t.len()) by {
            if k == t.len() {
                assert(!is_space(t[t.len() - 1]));
            }
        }
        assert(u =~= t.take(t.len() - 1));
        lemma_word_len_take(t, t.len() - 1);
        assert(word_len(u) == k);
        assert(u.take(k) =~= t.take(k));
        let rest = t.skip(k);
        assert(rest.last() == t.last());
        assert(u.skip(k) =~= rest.drop_last());
        lemma_words_drop_trailing(rest);
    }
}

proof fn lemma_words_trim_end(s: Seq<char>)
    ensures
        words(trim_end(s)) == words(s),
    decreases s.len(),
{
    if s.len() > 0 && is_space(s.last()) {
        lemma_words_drop_trailing(s);
        lemma_words_trim_end(s.drop_last());
    }
}

/// Trimming a text does not change its words.
pub proof fn trimming_keeps_the_words(s: Seq<char>)
    ensures
        words(trim(s)) == words(s),
{
    lemma_words_trim_end(trim_start(s));
    crate::text::lemma_trim_start_fixed(s);
    assert(words(trim_start(s)) == words(s));
}

/// A word in front of a text, set off by a space, is one more word.
pub proof fn lemma_words_prepend_zero(s: Seq<char>)
    ensures
        words("0 "@ + s) == seq![seq!['0']] + words(s),
{
    reveal_strlit("0 ");
    let t = "0 "@ + s;
    assert(t[0] == '0' && t[1] == ' ');
    assert(trim_start(t) == t);
    assert(t.drop_first()[0] == ' ');
    reveal_with_fuel(word_len, 2);
    assert(word_len(t) == 1);
    assert(t.take(1) =~= seq!['0']);
    let rest = t.skip(1);
    assert(rest[0] == ' ');
    assert(rest.drop_first() =~= s);
    assert(trim_start(rest) == trim_start(s));
    assert(words(rest) == words(s));
}

/// Normalizing an expression that is already normalized changes nothing, unless it ends in white
/// space.
pub proof fn normalizing_is_idempotent(expr: Seq<char>)
    requires
        cron_read(expr) matches Ok(e) ==> trim(e) == e,
    ensures
        cron_read(expr) matches Ok(e) ==> cron_read(e) == Ok::<Seq<char>, Seq<Seq<char>>>(e),
{
    if let Ok(e) = cron_read(expr) {
        if words(expr).len() == 5 {
            lemma_words_prepend_zero(expr);
            assert(words(e).len() == 6);
        } else {
            trimming_keeps_the_words(expr);
            assert(words(e).len() == words(expr).len());
        }
    }
}

// ---------------------------------------------------------------------------
// Rows
// ---------------------------------------------------------------------------
/// A stored pattern is read back as the pattern that was asked for.
pub proof fn a_pattern_reads_back(p: ReminderPatternParams)
    ensures
        pattern_asked(p) matches Ok(a) ==> plan_of(a.columns) == Ok::<Plan, Seq<Seq<char>>>(a.plan)
            && a.plan.valid(),
{
    if let Ok(a) = pattern_asked(p) {
        reveal_strlit("once");
        reveal_strlit("pattern");
        assert("pattern"@.len() != "once"@.len());
        lowering_is_idempotent(p.freq@);
        match cut(p.time@, ':') {
            Some((h, m)) => {
                crate::numbers::lemma_number_range(h, u32::MAX as int);
                crate::numbers::lemma_number_range(m, u32::MAX as int);
            },
            None => {},
        }
        match a.plan {
            Plan::Pattern { freq, time, weekdays, day_of_month } => {
                a_clock_time_reads_back(time);
                stored_days_read_back(weekdays);
                assert(freq_read(crate::text::lower(p.freq@)) == Ok::<Freq, Seq<Seq<char>>>(freq));
            },
            _ => {},
        }
    }
}

/// Reading a stored row gives the schedule that the reminder was set with. A cron expression of five
/// fields is stored with the white space at its end and read without it; for it alone the two differ.
pub proof fn what_is_set_is_read_back(p: SetReminderParams, zone: Seq<char>)
    requires
        asked(p, zone) matches Ok(a) ==> (a.plan matches Plan::Cron { expr } ==> trim(expr) == expr),
    ensures
        asked(p, zone) matches Ok(a) ==> plan_of(a.columns) == Ok::<Plan, Seq<Seq<char>>>(a.plan)
            && a.plan.valid(),
{
    reveal_strlit("once");
    reveal_strlit("pattern");
    reveal_strlit("cron");
    if p.due_at is None {
        match p.pattern {
            Some(pattern) => a_pattern_reads_back(pattern),
            None => match p.cron {
                Some(raw) => {
                    assert("cron"@[0] == 'c' && "once"@[0] == 'o' && "pattern"@[0] == 'p');
                    normalizing_is_idempotent(raw@);
                },
                None => {},
            },
        }
    }
}

/// No reminder is stored without a time at which it is next due, and that time is in the future
/// unless the reminder is a one-shot, whose past time comes with a warning.
pub proof fn what_is_stored_comes_due(p: SetReminderParams, zone: Seq<char>, now: Instant)
    ensures
        settled(p, zone, now) matches Ok(s) ==> {
            let due = first_due(s.0.plan, s.1);
            &&& due is Some
            &&& due->0.after(now) || (s.0.plan is Once && warning_for(s.0.plan, s.1) is Some)
        },
{
    if let Ok(s) = settled(p, zone, now) {
        crate::reminders::upcoming_fires_are_later(s.0.plan, now, zone, 3);
    }
}

} // verus!
