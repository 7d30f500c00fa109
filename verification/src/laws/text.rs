//! What holds of the operations on text.
use vstd::prelude::*;

use crate::text::{
    begins, collapse, cut, cut_last, is_space, join, last_at, lemma_join_first, lemma_trim_start_len,
    lemma_until, lemma_word_len, lines, lower, split, strip_leading, trim,
    trim_end, trim_start, until, without_cr, word_len, words,
};

verus! {

/// Printable ASCII other than the space is no white space; the space, the tab and the characters that end
/// lines and pages are.
pub proof fn printable_characters_are_no_space(c: char)
    ensures
        '!' <= c <= '~' ==> !is_space(c),
        c == ' ' || c == '\t' || c == '\n' || c == '\r' || c == '\u{b}' || c == '\u{c}' || c
            == '\u{a0}' ==> is_space(c),
{
}

/// Trimming takes off white space and nothing else, and all of it: what is left neither starts nor ends
/// with any. It starts at `r.0` and ends before `r.1`.
pub proof fn trimming_takes_off_white_space_only(s: Seq<char>) -> (r: (int, int))
    ensures
        0 <= r.0 <= r.1 <= s.len(),
        trim(s) == s.subrange(r.0, r.1),
        forall|i: int| 0 <= i < r.0 ==> is_space(#[trigger] s[i]),
        forall|i: int| r.1 <= i < s.len() ==> is_space(#[trigger] s[i]),
        trim(s).len() > 0 ==> !is_space(trim(s)[0]) && !is_space(trim(s).last()),
{
    crate::text::lemma_trim_edges(s);
    let a = lemma_trim_start_at(s);
    let b = lemma_trim_end_at(s.skip(a));
    assert(trim(s) =~= s.subrange(a, a + b));
    assert forall|i: int| a + b <= i < s.len() implies is_space(#[trigger] s[i]) by {
        assert(s[i] == s.skip(a)[i - a]);
    }
    (a, a + b)
}

proof fn lemma_trim_start_at(s: Seq<char>) -> (a: int)
    ensures
        0 <= a <= s.len(),
        trim_start(s) == s.skip(a),
        forall|i: int| 0 <= i < a ==> is_space(#[trigger] s[i]),
        a < s.len() ==> !is_space(s[a]),
    decreases s.len(),
{
    if s.len() > 0 && is_space(s[0]) {
        let a = lemma_trim_start_at(s.drop_first());
        assert(s.drop_first().skip(a) =~= s.skip(a + 1));
        assert forall|i: int| 0 <= i < a + 1 implies is_space(#[trigger] s[i]) by {
            if i > 0 {
                assert(s[i] == s.drop_first()[i - 1]);
            }
        }
        a + 1
    } else {
        assert(s.skip(0) =~= s);
        0
    }
}

proof fn lemma_trim_end_at(s: Seq<char>) -> (b: int)
    ensures
        0 <= b <= s.len(),
        trim_end(s) == s.take(b),
        forall|i: int| b <= i < s.len() ==> is_space(#[trigger] s[i]),
    decreases s.len(),
{
    if s.len() > 0 && is_space(s.last()) {
        let b = lemma_trim_end_at(s.drop_last());
        assert(s.drop_last().take(b) =~= s.take(b));
        assert forall|i: int| b <= i < s.len() implies is_space(#[trigger] s[i]) by {
            if i < s.len() - 1 {
                assert(s[i] == s.drop_last()[i]);
            }
        }
        b
    } else {
        assert(s.take(s.len() as int) =~= s);
        s.len() as int
    }
}

/// The pieces between the occurrences of a character hold it nowhere, and joined by it they are the whole
/// text again.
pub proof fn splitting_is_undone_by_joining(s: Seq<char>, c: char)
    ensures
        split(s, c).len() >= 1,
        join(split(s, c), seq![c]) == s,
        forall|i: int, k: int|
            0 <= i < split(s, c).len() && 0 <= k < split(s, c)[i].len() ==> #[trigger] split(
                s,
                c,
            )[i][k] != c,
    decreases s.len(),
{
    let k = until(s, c) as int;
    lemma_until(s, c);
    if k < s.len() {
        let rest = s.skip(k + 1);
        splitting_is_undone_by_joining(rest, c);
        lemma_join_first(s.take(k), split(rest, c), seq![c]);
        assert(s.take(k) + seq![c] + rest =~= s);
        assert forall|i: int, j: int|
            0 <= i < split(s, c).len() && 0 <= j < split(s, c)[i].len() implies #[trigger] split(
            s,
            c,
        )[i][j] != c by {
            if i > 0 {
                assert(split(s, c)[i] == split(rest, c)[i - 1]);
            }
        }
    }
}

proof fn lemma_until_at(s: Seq<char>, c: char, k: int)
    requires
        0 <= k <= s.len(),
        forall|i: int| 0 <= i < k ==> #[trigger] s[i] != c,
        k < s.len() ==> s[k] == c,
    ensures
        until(s, c) == k,
{
    lemma_until(s, c);
    let u = until(s, c) as int;
    if u < k {
        assert(s[u] == c);
    }
    if k < u {
        assert(s[k] != c);
    }
}

/// Parts that do not hold the separator come back from splitting what joins them.
pub proof fn joining_is_undone_by_splitting(parts: Seq<Seq<char>>, c: char)
    requires
        parts.len() >= 1,
        forall|i: int, k: int| 0 <= i < parts.len() && 0 <= k < parts[i].len() ==> #[trigger] parts[i][k] != c,
    ensures
        split(join(parts, seq![c]), c) == parts,
    decreases parts.len(),
{
    let s = join(parts, seq![c]);
    if parts.len() == 1 {
        lemma_until_at(s, c, s.len() as int);
        assert(split(s, c) =~= parts);
    } else {
        let rest = parts.drop_first();
        assert(seq![parts[0]] + rest =~= parts);
        lemma_join_first(parts[0], rest, seq![c]);
        assert forall|i: int, k: int|
            0 <= i < rest.len() && 0 <= k < rest[i].len() implies #[trigger] rest[i][k] != c by {
            assert(rest[i] == parts[i + 1]);
            assert(parts[i + 1][k] != c);
        }
        joining_is_undone_by_splitting(rest, c);
        let n = parts[0].len() as int;
        assert forall|i: int| 0 <= i < n implies #[trigger] s[i] != c by {
            assert(s[i] == parts[0][i]);
        }
        lemma_until_at(s, c, n);
        assert(s.take(n) =~= parts[0]);
        assert(s.skip(n + 1) =~= join(rest, seq![c]));
        assert(split(s, c) =~= parts);
    }
}

/// The text that lines and what ends each of them add up to.
pub open spec fn laid_out(lines: Seq<Seq<char>>, ends: Seq<Seq<char>>) -> Seq<char>
    decreases lines.len(),
{
    if lines.len() == 0 {
        seq![]
    } else {
        laid_out(lines.drop_last(), ends) + lines.last() + ends[lines.len() - 1]
    }
}

proof fn lemma_laid_out(
    p: Seq<Seq<char>>,
    ls: Seq<Seq<char>>,
    ends: Seq<Seq<char>>,
    n: int,
)
    requires
        0 < n <= ls.len(),
        n <= p.len(),
        n <= ends.len(),
        forall|i: int|
            0 <= i < n ==> #[trigger] ls[i] + ends[i] == p[i] + (if i < n - 1 {
                seq!['\n']
            } else {
                seq![]
            }),
    ensures
        laid_out(ls.take(n), ends) == join(p.take(n), seq!['\n']),
    decreases n,
{
    let a = ls.take(n);
    let q = p.take(n);
    assert(a.last() == ls[n - 1]);
    assert(q.last() == p[n - 1]);
    assert(a.drop_last() =~= ls.take(n - 1));
    assert(q.drop_last() =~= p.take(n - 1));
    if n == 1 {
        assert(laid_out(a.drop_last(), ends) =~= seq![]);
        assert(laid_out(a, ends) =~= ls[0] + ends[0]);
        assert(ls[0] + ends[0] =~= p[0]);
    } else {
        lemma_laid_out_ended(p, ls, ends, n - 1);
        assert(laid_out(a, ends) =~= laid_out(ls.take(n - 1), ends) + (ls[n - 1] + ends[n - 1]));
        assert(p[n - 1] + seq![] =~= p[n - 1]);
    }
}

proof fn lemma_laid_out_ended(
    p: Seq<Seq<char>>,
    ls: Seq<Seq<char>>,
    ends: Seq<Seq<char>>,
    n: int,
)
    requires
        0 < n <= ls.len(),
        n <= p.len(),
        n <= ends.len(),
        forall|i: int| 0 <= i < n ==> #[trigger] ls[i] + ends[i] == p[i] + seq!['\n'],
    ensures
        laid_out(ls.take(n), ends) == join(p.take(n), seq!['\n']) + seq!['\n'],
    decreases n,
{
    let a = ls.take(n);
    let q = p.take(n);
    assert(a.last() == ls[n - 1]);
    assert(q.last() == p[n - 1]);
    assert(a.drop_last() =~= ls.take(n - 1));
    assert(q.drop_last() =~= p.take(n - 1));
    if n == 1 {
        assert(laid_out(a.drop_last(), ends) =~= seq![]);
        assert(laid_out(a, ends) =~= ls[0] + ends[0]);
    } else {
        lemma_laid_out_ended(p, ls, ends, n - 1);
        assert(laid_out(a, ends) =~= laid_out(ls.take(n - 1), ends) + (ls[n - 1] + ends[n - 1]));
        assert(laid_out(a, ends) =~= join(q, seq!['\n']) + seq!['\n']);
    }
}

/// Lines hold the whole text but for what ends them: every line is ended by a line feed, with a carriage
/// return before it or without, but the last one may be ended by nothing. No line holds a line feed.
pub proof fn lines_hold_the_text(s: Seq<char>) -> (ends: Seq<Seq<char>>)
    ensures
        ends.len() == lines(s).len(),
        laid_out(lines(s), ends) == s,
        forall|i: int|
            0 <= i < ends.len() ==> #[trigger] ends[i] == seq!['\n'] || ends[i] == seq!['\r', '\n']
                || (i == ends.len() - 1 && ends[i].len() == 0 && lines(s)[i].len() > 0),
        forall|i: int, k: int|
            0 <= i < lines(s).len() && 0 <= k < lines(s)[i].len() ==> #[trigger] lines(s)[i][k]
                != '\n',
        forall|i: int|
            0 <= i < ends.len() && #[trigger] ends[i] == seq!['\n'] ==> lines(s)[i].len() == 0
                || lines(s)[i].last() != '\r',
{
    let p = split(s, '\n');
    splitting_is_undone_by_joining(s, '\n');
    let ls = lines(s);
    let m = p.len() as int;
    let ends = Seq::new(
        ls.len(),
        |i: int|
            if i == m - 1 {
                seq![]
            } else if p[i].len() > 0 && p[i].last() == '\r' {
                seq!['\r', '\n']
            } else {
                seq!['\n']
            },
    );
    assert forall|i: int| 0 <= i < ls.len() && i < m - 1 implies #[trigger] ls[i] + ends[i] == p[i]
        + seq!['\n'] by {
        assert(ls[i] == without_cr(p[i]));
        assert(ls[i] + ends[i] =~= p[i] + seq!['\n']);
    }
    assert forall|i: int, k: int| 0 <= i < ls.len() && 0 <= k < ls[i].len() implies #[trigger] ls[i][k]
        != '\n' by {
        assert(p[i][k] != '\n');
    }
    assert forall|i: int| 0 <= i < ends.len() && #[trigger] ends[i] == seq!['\n'] implies ls[i].len()
        == 0 || ls[i].last() != '\r' by {
        if i == m - 1 {
            assert(ends[i].len() == 0);
        } else if p[i].len() > 0 && p[i].last() == '\r' {
            assert(ends[i].len() == 2);
        }
    }
    assert forall|i: int| 0 <= i < ends.len() implies #[trigger] ends[i] == seq!['\n'] || ends[i]
        == seq!['\r', '\n'] || (i == ends.len() - 1 && ends[i].len() == 0 && ls[i].len() > 0) by {
        if i == m - 1 {
            assert(p.last() == p[m - 1]);
        }
    }
    assert(p.take(m) =~= p);
    if p.last().len() == 0 {
        if m == 1 {
            assert(s =~= seq![]);
            assert(ls.len() == 0);
        } else {
            assert(ls.take(m - 1) =~= ls);
            lemma_laid_out_ended(p, ls, ends, m - 1);
            assert(p.drop_last() =~= p.take(m - 1));
            assert(join(p, seq!['\n']) =~= join(p.take(m - 1), seq!['\n']) + seq!['\n']);
        }
    } else {
        assert(ls.take(m) =~= ls);
        assert(ls[m - 1] + ends[m - 1] =~= p[m - 1] + seq![]);
        lemma_laid_out(p, ls, ends, m);
    }
    ends
}

/// Words are the runs of characters between white space: the `i`-th starts at `r[i].0` and ends before
/// `r[i].1`, at least one white space character lies between two, and nothing else is outside of them.
pub proof fn words_are_what_white_space_parts(s: Seq<char>) -> (r: Seq<(int, int)>)
    ensures
        r.len() == words(s).len(),
        forall|i: int|
            0 <= i < r.len() ==> {
                &&& 0 <= (#[trigger] r[i]).0 < r[i].1 <= s.len()
                &&& words(s)[i] == s.subrange(r[i].0, r[i].1)
            },
        forall|i: int, k: int|
            0 <= i < r.len() && (#[trigger] r[i]).0 <= k < r[i].1 ==> !is_space(#[trigger] s[k]),
        forall|i: int, j: int|
            0 <= i < r.len() && j == i + 1 && j < r.len() ==> (#[trigger] r[i]).1 < (
            #[trigger] r[j]).0,
        forall|k: int|
            0 <= k < s.len() && !is_space(#[trigger] s[k]) ==> exists|i: int|
                0 <= i < r.len() && (#[trigger] r[i]).0 <= k < r[i].1,
    decreases s.len(),
{
    let t = trim_start(s);
    lemma_trim_start_len(s);
    let a = lemma_trim_start_at(s);
    if t.len() == 0 {
        assert(words(s) =~= seq![]);
        seq![]
    } else {
        lemma_word_len(t);
        let n = word_len(t) as int;
        let rest = t.skip(n);
        let q = words_are_what_white_space_parts(rest);
        let shifted = Seq::new(q.len(), |i: int| (q[i].0 + a + n, q[i].1 + a + n));
        let r = seq![(a, a + n)] + shifted;
        assert(rest =~= s.skip(a + n));
        assert(words(s) == seq![t.take(n)] + words(rest));
        assert forall|i: int| 0 <= i < r.len() implies {
            &&& 0 <= (#[trigger] r[i]).0 < r[i].1 <= s.len()
            &&& words(s)[i] == s.subrange(r[i].0, r[i].1)
        } by {
            if i == 0 {
                assert(t.take(n) =~= s.subrange(a, a + n));
            } else {
                assert(r[i] == shifted[i - 1]);
                assert(0 <= q[i - 1].0 < q[i - 1].1 <= rest.len());
                assert(words(rest)[i - 1] == rest.subrange(q[i - 1].0, q[i - 1].1));
                assert(rest.subrange(q[i - 1].0, q[i - 1].1) =~= s.subrange(r[i].0, r[i].1));
            }
        }
        assert forall|i: int, k: int|
            0 <= i < r.len() && (#[trigger] r[i]).0 <= k < r[i].1 implies !is_space(
            #[trigger] s[k],
        ) by {
            if i == 0 {
                assert(s[k] == t[k - a]);
            } else {
                assert(r[i] == shifted[i - 1]);
                assert(0 <= q[i - 1].0 < q[i - 1].1 <= rest.len());
                assert(s[k] == rest[k - a - n]);
            }
        }
        assert forall|i: int, j: int| 0 <= i < r.len() && j == i + 1 && j < r.len() implies (
        #[trigger] r[i]).1 < (#[trigger] r[j]).0 by {
            assert(r[j] == shifted[j - 1]);
            if i == 0 {
                assert(0 <= q[0].0 < q[0].1 <= rest.len());
                assert(rest[0] == t[n]);
                assert(is_space(rest[0]));
                if q[0].0 == 0 {
                    assert(!is_space(rest[0]));
                }
            } else {
                assert(r[i] == shifted[i - 1]);
                assert(q[i - 1].1 < q[j - 1].0);
            }
        }
        assert forall|k: int| 0 <= k < s.len() && !is_space(#[trigger] s[k]) implies exists|i: int|
            0 <= i < r.len() && (#[trigger] r[i]).0 <= k < r[i].1 by {
            if k < a + n {
                assert(r[0] == (a, a + n));
            } else {
                assert(rest[k - a - n] == s[k]);
                let i = choose|i: int|
                    0 <= i < q.len() && (#[trigger] q[i]).0 <= k - a - n < q[i].1;
                assert(r[i + 1] == shifted[i]);
            }
        }
        r
    }
}

/// A text is cut at the first occurrence of a character, or at the last; the two sides and the character
/// are the whole text. It is not cut exactly if it does not hold the character.
pub proof fn a_cut_parts_the_text(s: Seq<char>, c: char)
    ensures
        match cut(s, c) {
            Some((a, b)) => s == a + seq![c] + b && !a.contains(c),
            None => !s.contains(c),
        },
        match cut_last(s, c) {
            Some((a, b)) => s == a + seq![c] + b && !b.contains(c),
            None => !s.contains(c),
        },
{
    lemma_until(s, c);
    let k = until(s, c) as int;
    if k < s.len() {
        assert(s.take(k) + seq![c] + s.skip(k + 1) =~= s);
    }
    let n = last_at(s, c);
    lemma_last_at(s, c);
    if n >= 0 {
        assert(s.take(n) + seq![c] + s.skip(n + 1) =~= s);
        let b = s.skip(n + 1);
        assert forall|i: int| 0 <= i < b.len() implies #[trigger] b[i] != c by {
            assert(b[i] == s[i + n + 1]);
        }
    }
}

proof fn lemma_last_at(s: Seq<char>, c: char)
    ensures
        -1 <= last_at(s, c) < s.len(),
        last_at(s, c) >= 0 ==> s[last_at(s, c)] == c,
        forall|i: int| last_at(s, c) < i < s.len() ==> #[trigger] s[i] != c,
    decreases s.len(),
{
    if s.len() > 0 && s.last() != c {
        lemma_last_at(s.drop_last(), c);
        assert forall|i: int| last_at(s, c) < i < s.len() implies #[trigger] s[i] != c by {
            if i < s.len() - 1 {
                assert(s[i] == s.drop_last()[i]);
            }
        }
    }
}

/// A leading run is taken off whole and nothing after it: `n` characters go.
pub proof fn a_leading_run_is_taken_off(s: Seq<char>, c: char) -> (n: int)
    ensures
        0 <= n <= s.len(),
        strip_leading(s, c) == s.skip(n),
        forall|i: int| 0 <= i < n ==> #[trigger] s[i] == c,
        n < s.len() ==> s[n] != c,
    decreases s.len(),
{
    if s.len() > 0 && s[0] == c {
        let n = a_leading_run_is_taken_off(s.drop_first(), c);
        assert(s.drop_first().skip(n) =~= s.skip(n + 1));
        assert forall|i: int| 0 <= i < n + 1 implies #[trigger] s[i] == c by {
            if i > 0 {
                assert(s[i] == s.drop_first()[i - 1]);
            }
        }
        n + 1
    } else {
        assert(s.skip(0) =~= s);
        0
    }
}

/// Lowering changes ASCII capitals into the small letters of the same name and leaves everything else.
pub proof fn lowering_changes_capitals_only(s: Seq<char>, i: int)
    requires
        0 <= i < s.len(),
    ensures
        lower(s).len() == s.len(),
        'A' <= s[i] <= 'Z' ==> 'a' <= lower(s)[i] <= 'z' && lower(s)[i] as int - 'a' as int == s[i] as int
            - 'A' as int,
        !('A' <= s[i] <= 'Z') ==> lower(s)[i] == s[i],
{
}

/// A text begins with another exactly if the other can be completed to it.
pub proof fn a_beginning_can_be_completed(s: Seq<char>, p: Seq<char>, rest: Seq<char>)
    ensures
        begins(p + rest, p),
        begins(s, p) ==> s == p + s.skip(p.len() as int),
{
    assert((p + rest).take(p.len() as int) =~= p);
    if begins(s, p) {
        assert(p + s.skip(p.len() as int) =~= s);
    }
}

proof fn lemma_word_in_front(w: Seq<char>, rest: Seq<char>)
    requires
        w.len() > 0,
        forall|i: int| 0 <= i < w.len() ==> !is_space(#[trigger] w[i]),
        rest.len() > 0 ==> is_space(rest[0]),
    ensures
        words(w + rest) == seq![w] + words(rest),
{
    let all = w + rest;
    assert(all[0] == w[0]);
    assert(trim_start(all) == all);
    lemma_word_len(all);
    let k = word_len(all) as int;
    if k < w.len() {
        assert(all[k] == w[k]);
    }
    if k > w.len() {
        assert(!is_space(all[w.len() as int]));
        assert(all[w.len() as int] == rest[0]);
    }
    assert(all.take(k) =~= w);
    assert(all.skip(k) =~= rest);
}

/// Putting a text on one line keeps its words, all of them and in order, with one space between two.
pub proof fn one_line_keeps_every_word(s: Seq<char>)
    ensures
        words(collapse(s)) == words(s),
        collapse(s) == join(words(s), " "@),
    decreases s.len(),
{
    reveal_strlit(" ");
    assert(" "@ =~= seq![' ']);
    let t = trim_start(s);
    lemma_trim_start_len(s);
    if t.len() == 0 {
        assert(collapse(s) =~= Seq::<char>::empty());
        assert(trim_start(collapse(s)).len() == 0);
    } else {
        let k = word_len(t) as int;
        lemma_word_len(t);
        let w = t.take(k);
        let rest = t.skip(k);
        one_line_keeps_every_word(rest);
        printable_characters_are_no_space(' ');
        assert forall|i: int| 0 <= i < w.len() implies !is_space(#[trigger] w[i]) by {
            assert(w[i] == t[i]);
        }
        if words(rest).len() == 0 {
            assert(seq![w] + words(rest) =~= seq![w]);
            assert(collapse(s) == w);
            let none = Seq::<char>::empty();
            lemma_word_in_front(w, none);
            assert(w + none =~= w);
            assert(words(none) =~= words(rest));
        } else {
            lemma_join_first(w, words(rest), seq![' ']);
            let tail = seq![' '] + collapse(rest);
            assert(collapse(s) =~= w + tail);
            lemma_word_in_front(w, tail);
            assert(tail.drop_first() =~= collapse(rest));
            assert(trim_start(tail) == trim_start(collapse(rest)));
            assert(words(tail) == words(collapse(rest)));
        }
    }
}

} // verus!
