//! What chunking is for: the document in pieces, with nothing lost.
use vstd::prelude::*;

use crate::chunking::{
    body_len, chunks_of, gap, is_heading, lemma_body_len, lemma_gap, paragraphs, sections, stride,
    window_end, windows, Part,
};
use crate::laws::text::trimming_takes_off_white_space_only;
use crate::text::{blank, is_space, join, lemma_join_first, lines, strip_leading, trim};

verus! {

// ---------------------------------------------------------------------------
// Chunks of parts
// ---------------------------------------------------------------------------
/// Chunks are the parts that hold more than white space, trimmed, under their headings and in their
/// order: the `i`-th comes of part `at[i]`, and every such part is there.
pub proof fn chunks_are_the_parts_with_text(parts: Seq<Part>) -> (at: Seq<int>)
    ensures
        at.len() == chunks_of(parts).len(),
        forall|i: int|
            0 <= i < at.len() ==> {
                let c = chunks_of(parts)[i];
                &&& 0 <= #[trigger] at[i] < parts.len()
                &&& c.content == trim(parts[at[i]].text)
                &&& c.content.len() > 0
                &&& c.heading == parts[at[i]].heading
                &&& c.index == i
            },
        forall|i: int, j: int| 0 <= i < j < at.len() ==> #[trigger] at[i] < #[trigger] at[j],
        forall|k: int|
            0 <= k < parts.len() && trim((#[trigger] parts[k]).text).len() > 0 ==> at.contains(k),
    decreases parts.len(),
{
    if parts.len() == 0 {
        seq![]
    } else {
        let front = parts.drop_last();
        let before = chunks_are_the_parts_with_text(front);
        let last = parts.len() - 1;
        if trim(parts.last().text).len() == 0 {
            assert forall|k: int|
                0 <= k < parts.len() && trim(
                    (#[trigger] parts[k]).text,
                ).len() > 0 implies before.contains(k) by {
                assert(front[k] == parts[k]);
            }
            before
        } else {
            let at = before.push(last);
            assert forall|k: int|
                0 <= k < parts.len() && trim(
                    (#[trigger] parts[k]).text,
                ).len() > 0 implies at.contains(k) by {
                if k < last {
                    assert(front[k] == parts[k]);
                    let i = choose|i: int| 0 <= i < before.len() && before[i] == k;
                    assert(at[i] == k);
                } else {
                    assert(at[before.len() as int] == k);
                }
            }
            at
        }
    }
}

// ---------------------------------------------------------------------------
// Sections
// ---------------------------------------------------------------------------
proof fn lemma_body_lines(lines: Seq<Seq<char>>)
    ensures
        body_len(lines) <= lines.len(),
        forall|i: int|
            0 <= i < body_len(lines) ==> !(lines[i].len() > 0 && #[trigger] lines[i][0] == '#'),
        body_len(lines) < lines.len() ==> lines[body_len(lines) as int].len() > 0
            && lines[body_len(lines) as int][0] == '#',
    decreases lines.len(),
{
    if lines.len() > 0 && !is_heading(lines[0]) {
        lemma_body_lines(lines.drop_first());
        assert forall|i: int| 0 <= i < body_len(lines) implies !(lines[i].len() > 0
            && #[trigger] lines[i][0] == '#') by {
            if i > 0 {
                assert(lines[i] == lines.drop_first()[i - 1]);
                assert(!(lines.drop_first()[i - 1].len() > 0 && lines.drop_first()[i - 1][0]
                    == '#'));
            }
        }
    }
}

/// Sections hold every line of a document, each once and in order: section `k` runs from line `starts[k]`
/// to the line before `starts[k + 1]`. A line that begins with `#` opens a section and names it by what
/// follows the run of `#`; no other line but the first opens one.
pub proof fn sections_hold_every_line(lines: Seq<Seq<char>>) -> (starts: Seq<int>)
    ensures
        starts.len() == sections(lines).len() + 1,
        starts[0] == 0,
        starts.last() == lines.len(),
        forall|k: int|
            0 <= k < sections(lines).len() ==> {
                let p = #[trigger] sections(lines)[k];
                let first = lines[starts[k]];
                &&& 0 <= starts[k] < starts[k + 1] <= lines.len()
                &&& p.text == join(lines.subrange(starts[k], starts[k + 1]), "\n"@)
                &&& p.heading == (if first.len() > 0 && first[0] == '#' {
                    Some(trim(strip_leading(first, '#')))
                } else {
                    None
                })
                &&& k > 0 ==> first.len() > 0 && first[0] == '#'
            },
        forall|k: int, i: int|
            0 <= k < sections(lines).len() && starts[k] < i < starts[k + 1] && lines[i].len() > 0
                ==> (#[trigger] sections(lines)[k]).text.len() >= 0 && #[trigger] lines[i][0] != '#',
    decreases lines.len(),
{
    if lines.len() == 0 {
        seq![0int]
    } else {
        lemma_body_lines(lines.drop_first());
        let n = 1 + body_len(lines.drop_first()) as int;
        let rest = lines.skip(n);
        let q = sections_hold_every_line(rest);
        let starts = Seq::new(
            q.len() + 1,
            |i: int|
                if i == 0 {
                    0
                } else {
                    q[i - 1] + n
                },
        );
        let all = sections(lines);
        let tail = sections(rest);
        assert(all == seq![all[0]] + tail);
        assert(starts.last() == q.last() + n);
        assert forall|k: int| 0 <= k < all.len() implies {
            let p = #[trigger] all[k];
            let first = lines[starts[k]];
            &&& 0 <= starts[k] < starts[k + 1] <= lines.len()
            &&& p.text == join(lines.subrange(starts[k], starts[k + 1]), "\n"@)
            &&& p.heading == (if first.len() > 0 && first[0] == '#' {
                Some(trim(strip_leading(first, '#')))
            } else {
                None
            })
            &&& k > 0 ==> first.len() > 0 && first[0] == '#'
        } by {
            if k == 0 {
                assert(lines.subrange(0, n) =~= lines.take(n));
            } else {
                let p = tail[k - 1];
                assert(all[k] == p);
                assert(0 <= q[k - 1] < q[k] <= rest.len());
                assert(lines[starts[k]] == rest[q[k - 1]]);
                assert(lines.subrange(starts[k], starts[k + 1]) =~= rest.subrange(q[k - 1], q[k]));
                if k == 1 {
                    assert(lines[n] == lines.drop_first()[n - 1]);
                }
            }
        }
        assert forall|k: int, i: int|
            0 <= k < all.len() && starts[k] < i < starts[k + 1] && lines[i].len() > 0 implies (
        #[trigger] all[k]).text.len() >= 0 && #[trigger] lines[i][0] != '#' by {
            if k == 0 {
                assert(lines[i] == lines.drop_first()[i - 1]);
                assert(!(lines.drop_first()[i - 1].len() > 0 && lines.drop_first()[i - 1][0]
                    == '#'));
            } else {
                assert(all[k] == tail[k - 1]);
                assert(lines[i] == rest[i - n]);
                assert(rest[i - n][0] != '#');
            }
        }
        starts
    }
}

/// The texts of some parts.
pub open spec fn part_texts(parts: Seq<Part>) -> Seq<Seq<char>> {
    parts.map_values(|p: Part| p.text)
}

proof fn lemma_join_both(a: Seq<Seq<char>>, b: Seq<Seq<char>>, sep: Seq<char>)
    requires
        a.len() > 0,
        b.len() > 0,
    ensures
        join(a + b, sep) == join(a, sep) + sep + join(b, sep),
    decreases b.len(),
{
    assert((a + b).last() == b.last());
    if b.len() == 1 {
        assert((a + b).drop_last() =~= a);
    } else {
        assert((a + b).drop_last() =~= a + b.drop_last());
        lemma_join_both(a, b.drop_last(), sep);
        assert(join(a + b, sep) =~= join(a, sep) + sep + join(b, sep));
    }
}

/// The sections of a document put together again are its lines: nothing is lost, added or moved.
pub proof fn sections_put_together_are_the_document(lines: Seq<Seq<char>>)
    requires
        lines.len() > 0,
    ensures
        join(part_texts(sections(lines)), "\n"@) == join(lines, "\n"@),
        sections(lines).len() > 0,
    decreases lines.len(),
{
    lemma_body_len(lines.drop_first());
    let n = 1 + body_len(lines.drop_first()) as int;
    let rest = lines.skip(n);
    let all = sections(lines);
    let texts = part_texts(all);
    if rest.len() == 0 {
        assert(sections(rest) =~= seq![]);
        assert(lines.take(n) =~= lines);
        assert(texts =~= seq![join(lines, "\n"@)]);
    } else {
        sections_put_together_are_the_document(rest);
        assert(texts =~= seq![join(lines.take(n), "\n"@)] + part_texts(sections(rest)));
        lemma_join_first(join(lines.take(n), "\n"@), part_texts(sections(rest)), "\n"@);
        assert(lines.take(n) + rest =~= lines);
        lemma_join_both(lines.take(n), rest, "\n"@);
    }
}

proof fn lemma_join_holds(parts: Seq<Seq<char>>, sep: Seq<char>, k: int) -> (r: (
    Seq<char>,
    Seq<char>,
))
    requires
        0 <= k < parts.len(),
    ensures
        join(parts, sep) == r.0 + parts[k] + r.1,
    decreases parts.len(),
{
    let all = join(parts, sep);
    if parts.len() == 1 {
        assert(all =~= seq![] + parts[k] + seq![]);
        (seq![], seq![])
    } else if k == parts.len() - 1 {
        let a = join(parts.drop_last(), sep) + sep;
        assert(all =~= a + parts[k] + seq![]);
        (a, seq![])
    } else {
        let r = lemma_join_holds(parts.drop_last(), sep, k);
        let b = r.1 + sep + parts.last();
        assert(parts.drop_last()[k] == parts[k]);
        assert(all =~= r.0 + parts[k] + b);
        (r.0, b)
    }
}

/// What neither starts nor ends with white space is kept whole when a text around it is trimmed.
pub proof fn trimming_keeps_what_is_inside(a: Seq<char>, p: Seq<char>, b: Seq<char>) -> (r: (
    Seq<char>,
    Seq<char>,
))
    requires
        p.len() > 0,
        !is_space(p[0]),
        !is_space(p.last()),
    ensures
        trim(a + p + b) == r.0 + p + r.1,
{
    let s = a + p + b;
    let w = trimming_takes_off_white_space_only(s);
    let lo = a.len() as int;
    let hi = lo + p.len() as int;
    assert(s[lo] == p[0]);
    assert(s[hi - 1] == p.last());
    if w.0 > lo {
        assert(is_space(s[lo]));
    }
    if w.1 < hi {
        assert(is_space(s[hi - 1]));
    }
    let x = s.subrange(w.0, lo);
    let y = s.subrange(hi, w.1);
    assert(s.subrange(w.0, w.1) =~= x + p + y);
    (x, y)
}

/// Every line of a document that is not blank lies in one of its chunks by heading: in chunk `r.0`, between
/// `r.1` and `r.2`.
pub proof fn every_line_lies_in_a_chunk(text: Seq<char>, i: int) -> (r: (
    int,
    Seq<char>,
    Seq<char>,
))
    requires
        0 <= i < lines(text).len(),
        !blank(lines(text)[i]),
    ensures
        0 <= r.0 < chunks_of(sections(lines(text))).len(),
        chunks_of(sections(lines(text)))[r.0].content == r.1 + trim(lines(text)[i]) + r.2,
{
    let ls = lines(text);
    let parts = sections(ls);
    let chunks = chunks_of(parts);
    let starts = sections_hold_every_line(ls);
    let k = lemma_section_of(ls, starts, i);
    let inside = ls.subrange(starts[k], starts[k + 1]);
    assert(parts[k].text == join(inside, "\n"@));
    let line = ls[i];
    assert(inside[i - starts[k]] == line);
    let r = lemma_join_holds(inside, "\n"@, i - starts[k]);
    let w = trimming_takes_off_white_space_only(line);
    let bare = trim(line);
    let x = line.take(w.0);
    let y = line.skip(w.1);
    assert(line =~= x + bare + y);
    assert(parts[k].text =~= (r.0 + x) + bare + (y + r.1));
    let t = trimming_keeps_what_is_inside(r.0 + x, bare, y + r.1);
    let at = chunks_are_the_parts_with_text(parts);
    assert(trim(parts[k].text).len() > 0);
    assert(at.contains(k));
    let c = choose|c: int| 0 <= c < at.len() && at[c] == k;
    assert(chunks[c].content == trim(parts[at[c]].text));
    (c, t.0, t.1)
}

proof fn lemma_section_of(ls: Seq<Seq<char>>, starts: Seq<int>, i: int) -> (k: int)
    requires
        starts.len() >= 1,
        starts[0] == 0,
        starts.last() == ls.len(),
        0 <= i < ls.len(),
    ensures
        0 <= k < starts.len() - 1,
        starts[k] <= i < starts[k + 1],
    decreases starts.len(),
{
    let n = starts.len() - 1;
    if n == 0 {
        assert(false);
        0
    } else {
        lemma_step(starts, i, 0)
    }
}

proof fn lemma_step(starts: Seq<int>, i: int, k: int) -> (r: int)
    requires
        0 <= k < starts.len() - 1,
        starts[k] <= i < starts.last(),
    ensures
        0 <= r < starts.len() - 1,
        starts[r] <= i < starts[r + 1],
    decreases starts.len() - k,
{
    if i < starts[k + 1] {
        k
    } else if k + 2 < starts.len() {
        lemma_step(starts, i, k + 1)
    } else {
        assert(starts[k + 1] == starts.last());
        k
    }
}

// ---------------------------------------------------------------------------
// Paragraphs
// ---------------------------------------------------------------------------
/// Paragraphs put together again with a blank line between each two are the document, and no paragraph
/// holds a blank line: no two line feeds in a row.
pub proof fn paragraphs_put_together_are_the_document(s: Seq<char>)
    ensures
        paragraphs(s).len() >= 1,
        join(part_texts(paragraphs(s)), seq!['\n', '\n']) == s,
        forall|k: int, i: int|
            0 <= k < paragraphs(s).len() && 0 <= i < (#[trigger] paragraphs(s)[k]).text.len() - 1
                && #[trigger] paragraphs(s)[k].text[i] == '\n' ==> paragraphs(s)[k].text[i + 1]
                != '\n',
        forall|k: int|
            0 <= k < paragraphs(s).len() ==> (#[trigger] paragraphs(s)[k]).heading is None,
    decreases s.len(),
{
    let k = gap(s) as int;
    let sep = seq!['\n', '\n'];
    lemma_gap(s);
    lemma_gap_at(s);
    let all = paragraphs(s);
    if k < s.len() {
        let rest = s.skip(k + 2);
        paragraphs_put_together_are_the_document(rest);
        let tail = paragraphs(rest);
        assert(part_texts(all) =~= seq![s.take(k)] + part_texts(tail));
        lemma_join_first(s.take(k), part_texts(tail), sep);
        assert(s.take(k) + sep + rest =~= s);
        assert forall|j: int, i: int|
            0 <= j < all.len() && 0 <= i < (#[trigger] all[j]).text.len() - 1
                && #[trigger] all[j].text[i] == '\n' implies all[j].text[i + 1] != '\n' by {
            if j > 0 {
                assert(all[j] == tail[j - 1]);
                assert(tail[j - 1].text[i] == '\n');
            } else {
                assert(s[i] == '\n');
            }
        }
    } else {
        assert(part_texts(all) =~= seq![s]);
    }
}

proof fn lemma_gap_at(s: Seq<char>)
    ensures
        gap(s) < s.len() ==> s[gap(s) as int] == '\n' && s[gap(s) as int + 1] == '\n',
        forall|i: int| 0 <= i < gap(s) && i + 1 < s.len() && #[trigger] s[i] == '\n' ==> s[i + 1] != '\n',
    decreases s.len(),
{
    if s.len() >= 2 && !(s[0] == '\n' && s[1] == '\n') {
        let t = s.drop_first();
        lemma_gap(t);
        lemma_gap_at(t);
        assert forall|i: int|
            0 <= i < gap(s) && i + 1 < s.len() && #[trigger] s[i] == '\n' implies s[i + 1]
            != '\n' by {
            if i > 0 {
                assert(t[i - 1] == s[i]);
                assert(t[i] == s[i + 1]);
            }
        }
        if gap(t) < t.len() {
            assert(t[gap(t) as int] == s[gap(s) as int]);
            assert(t[gap(t) as int + 1] == s[gap(s) as int + 1]);
        }
    }
}

// ---------------------------------------------------------------------------
// Windows
// ---------------------------------------------------------------------------
/// Windows are spaced evenly: window `k` starts `k` strides in, where a stride is the size less the
/// overlap and at least one character. Each is as long as the size, or as far as the text goes; the first
/// that reaches the end is the last.
pub proof fn windows_are_spaced_evenly(s: Seq<char>, size: int, overlap: int, start: int, k: int)
    requires
        size >= 0,
        overlap >= 0,
        0 <= start < s.len(),
    ensures
        ({
            let w = windows(s, size, stride(size, overlap), start);
            let step = if size - overlap > 1 {
                size - overlap
            } else {
                1
            };
            let from = start + k * step;
            &&& w.len() >= 1
            &&& 0 <= k < w.len() ==> {
                &&& 0 <= from < s.len()
                &&& w[k].text == s.subrange(
                    from,
                    if from + size < s.len() {
                        from + size
                    } else {
                        s.len() as int
                    },
                )
                &&& w[k].heading is None
                &&& k < w.len() - 1 ==> from + size < s.len()
                &&& k == w.len() - 1 ==> from + size >= s.len() || from + step >= s.len()
            }
        }),
    decreases s.len() - start,
{
    let step = stride(size, overlap);
    let w = windows(s, size, step, start);
    let end = window_end(s.len() as int, size, start);
    assert(0 * step == 0);
    if end < s.len() {
        let next = start + step;
        let rest = windows(s, size, step, next);
        assert(w =~= seq![w[0]] + rest);
        if next < s.len() {
            windows_are_spaced_evenly(s, size, overlap, next, k - 1);
            assert(next + (k - 1) * step == start + k * step) by (nonlinear_arith)
                requires
                    next == start + step,
            ;
            if 0 < k < w.len() {
                assert(w[k] == rest[k - 1]);
            }
        }
    }
}

} // verus!
