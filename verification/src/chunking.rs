//! Document chunking strategies for import.
use vstd::prelude::*;

use crate::text::{
    chars_of, join_texts, lines_of, stripped_leading, text_between, trimmed,
};

verus! {

/// A single chunk with its content and optional heading context.
#[derive(Debug, Clone)]
pub struct Chunk {
    pub content: String,
    pub index: usize,
    pub heading: Option<String>,
}

/// A chunk as plain text.
#[verifier::ext_equal]
pub struct ChunkText {
    pub content: Seq<char>,
    pub index: int,
    pub heading: Option<Seq<char>>,
}

impl View for Chunk {
    type V = ChunkText;

    open spec fn view(&self) -> ChunkText {
        ChunkText {
            content: self.content@,
            index: self.index as int,
            heading: crate::text::opt_text(self.heading),
        }
    }
}

/// The texts of a list of chunks.
pub open spec fn chunk_texts(v: Seq<Chunk>) -> Seq<ChunkText> {
    v.map_values(|c: Chunk| c@)
}

/// A piece of a document before it is trimmed and numbered.
#[verifier::ext_equal]
pub struct Part {
    pub heading: Option<Seq<char>>,
    pub text: Seq<char>,
}

/// The chunks of a document cut into `parts`: each part trimmed, the empty ones dropped, the rest
/// numbered from zero.
pub open spec fn chunks_of(parts: Seq<Part>) -> Seq<ChunkText>
    decreases parts.len(),
{
    if parts.len() == 0 {
        seq![]
    } else {
        let before = chunks_of(parts.drop_last());
        let content = crate::text::trim(parts.last().text);
        if content.len() == 0 {
            before
        } else {
            before.push(
                ChunkText { content, index: before.len() as int, heading: parts.last().heading },
            )
        }
    }
}

/// Chunks are numbered from zero in order, and no chunk is empty or has white space at an end.
pub proof fn chunks_are_numbered_and_trimmed(parts: Seq<Part>)
    ensures
        chunks_of(parts).len() <= parts.len(),
        forall|i: int|
            0 <= i < chunks_of(parts).len() ==> {
                let c = #[trigger] chunks_of(parts)[i];
                &&& c.index == i
                &&& c.content.len() > 0
                &&& crate::text::trim(c.content) == c.content
            },
    decreases parts.len(),
{
    if parts.len() > 0 {
        chunks_are_numbered_and_trimmed(parts.drop_last());
        crate::text::lemma_trim_idempotent(parts.last().text);
    }
}

/// Every part that holds more than white space becomes a chunk, under the part's heading.
pub proof fn every_part_with_text_is_kept(parts: Seq<Part>, k: int)
    requires
        0 <= k < parts.len(),
        !crate::text::blank(parts[k].text),
    ensures
        exists|i: int|
            0 <= i < chunks_of(parts).len() && (#[trigger] chunks_of(parts)[i]).content
                == crate::text::trim(parts[k].text) && chunks_of(parts)[i].heading
                == parts[k].heading,
    decreases parts.len(),
{
    let all = chunks_of(parts);
    let before = chunks_of(parts.drop_last());
    if k == parts.len() - 1 {
        assert(all[before.len() as int].content == crate::text::trim(parts[k].text));
    } else {
        every_part_with_text_is_kept(parts.drop_last(), k);
        let i = choose|i: int|
            0 <= i < before.len() && (#[trigger] before[i]).content == crate::text::trim(
                parts.drop_last()[k].text,
            ) && before[i].heading == parts.drop_last()[k].heading;
        assert(all[i] == before[i]);
    }
}

/// Appends the chunk of one part.
fn push_chunk(chunks: &mut Vec<Chunk>, heading: Option<String>, text: &str, Ghost(parts): Ghost<
    Seq<Part>,
>)
    requires
        chunk_texts(old(chunks)@) == chunks_of(parts),
    ensures
        chunk_texts(final(chunks)@) == chunks_of(
            parts.push(Part { heading: crate::text::opt_text(heading), text: text@ }),
        ),
{
    let content = trimmed(text);
    proof {
        let p = parts.push(Part { heading: crate::text::opt_text(heading), text: text@ });
        assert(p.drop_last() =~= parts);
        assert(chunks@.len() == chunk_texts(chunks@).len());
    }
    if !content.as_str().is_empty() {
        let c = Chunk { content, index: chunks.len(), heading };
        proof {
            assert(chunk_texts(chunks@.push(c)) =~= chunk_texts(chunks@).push(c@));
        }
        chunks.push(c);
    }
}

// ---------------------------------------------------------------------------
// By heading
// ---------------------------------------------------------------------------
/// Whether a line opens a section.
pub open spec fn is_heading(line: Seq<char>) -> bool {
    line.len() > 0 && line[0] == '#'
}

/// The heading that a line announces: the line without its leading `#` and trimmed.
pub open spec fn title(line: Seq<char>) -> Seq<char> {
    crate::text::trim(crate::text::strip_leading(line, '#'))
}

/// Number of lines before the first heading line.
pub open spec fn body_len(lines: Seq<Seq<char>>) -> nat
    decreases lines.len(),
{
    if lines.len() == 0 || is_heading(lines[0]) {
        0
    } else {
        1 + body_len(lines.drop_first())
    }
}

pub proof fn lemma_body_len(lines: Seq<Seq<char>>)
    ensures
        body_len(lines) <= lines.len(),
    decreases lines.len(),
{
    if lines.len() > 0 && !is_heading(lines[0]) {
        lemma_body_len(lines.drop_first());
    }
}

/// The sections of a document: each runs from a heading line, which belongs to it, up to the next;
/// the lines before the first heading form a section without one.
pub open spec fn sections(lines: Seq<Seq<char>>) -> Seq<Part>
    decreases lines.len(),
{
    if lines.len() == 0 {
        seq![]
    } else {
        proof {
            lemma_body_len(lines.drop_first());
        }
        let k = 1 + body_len(lines.drop_first());
        let heading = if is_heading(lines[0]) {
            Some(title(lines[0]))
        } else {
            None
        };
        seq![Part { heading, text: crate::text::join(lines.take(k as int), "\n"@) }] + sections(
            lines.skip(k as int),
        )
    }
}

/// Splits a document by markdown headings (`#`, `##`, etc.). Each section becomes a chunk, with the
/// heading preserved.
pub fn chunk_by_heading(text: &str) -> (r: Vec<Chunk>)
    ensures
        chunk_texts(r@) == chunks_of(sections(crate::text::lines(text@))),
        forall|i: int|
            0 <= i < crate::text::lines(text@).len() && !crate::text::blank(
                #[trigger] crate::text::lines(text@)[i],
            ) ==> exists|k: int, at: int|
                0 <= k < r@.len() && #[trigger] crate::text::stands_at(
                    r@[k].content@,
                    crate::text::trim(crate::text::lines(text@)[i]),
                    at,
                ),
{
    let lines = lines_of(text);
    let ghost all = crate::text::texts(lines@);
    let mut chunks: Vec<Chunk> = Vec::new();
    let ghost mut done: Seq<Part> = seq![];
    let mut i: usize = 0;
    proof {
        assert(all.skip(0) =~= all);
        assert(done + sections(all) =~= sections(all));
        assert(chunk_texts(chunks@) =~= chunks_of(done));
    }
    while i < lines.len()
        invariant
            i <= lines@.len(),
            all == crate::text::texts(lines@),
            chunk_texts(chunks@) == chunks_of(done),
            done + sections(all.skip(i as int)) == sections(all),
        decreases lines@.len() - i,
    {
        let first = lines[i].as_str();
        let ghost rest = all.skip(i as int);
        assert(rest[0] == first@);
        let c = chars_of(first);
        let heading = if c.len() > 0 && c[0] == '#' {
            let bare = stripped_leading(first, '#');
            Some(trimmed(bare.as_str()))
        } else {
            None
        };
        let mut section: Vec<String> = Vec::new();
        let head = crate::text::copy_of(first);
        proof {
            crate::text::lemma_texts_push(section@, head);
            assert(crate::text::texts(section@) =~= seq![]);
        }
        section.push(head);
        let mut j: usize = i + 1;
        assert(all.subrange(i as int, j as int) =~= seq![first@]);
        assert(rest.drop_first() =~= all.skip(j as int));
        while j < lines.len()
            invariant_except_break
                i < j <= lines@.len(),
                all == crate::text::texts(lines@),
                crate::text::texts(section@) == all.subrange(i as int, j as int),
                body_len(all.skip(i + 1)) == (j - i - 1) + body_len(all.skip(j as int)),
            ensures
                i < j <= lines@.len(),
                crate::text::texts(section@) == all.subrange(i as int, j as int),
                body_len(all.skip(i + 1)) == j - i - 1,
            decreases lines@.len() - j,
        {
            let line = lines[j].as_str();
            assert(all.skip(j as int)[0] == line@);
            let d = chars_of(line);
            if d.len() > 0 && d[0] == '#' {
                break ;
            }
            let copy = crate::text::copy_of(line);
            proof {
                crate::text::lemma_texts_push(section@, copy);
                assert(all.subrange(i as int, j + 1) =~= all.subrange(i as int, j as int).push(
                    line@,
                ));
                assert(all.skip(j as int).drop_first() =~= all.skip(j + 1));
            }
            section.push(copy);
            j = j + 1;
        }
        let body = join_texts(&section, "\n");
        let ghost part = Part { heading: crate::text::opt_text(heading), text: body@ };
        push_chunk(&mut chunks, heading, body.as_str(), Ghost(done));
        proof {
            assert(rest.take(j - i) =~= all.subrange(i as int, j as int));
            assert(rest.skip(j - i) =~= all.skip(j as int));
            assert(sections(rest) == seq![part] + sections(all.skip(j as int)));
            assert(done.push(part) + sections(all.skip(j as int)) =~= done + (seq![part] + sections(
                all.skip(j as int),
            )));
            done = done.push(part);
        }
        i = j;
    }
    proof {
        assert(sections(all.skip(i as int)) =~= seq![]);
        assert(done + seq![] =~= done);
        assert forall|l: int|
            0 <= l < all.len() && !crate::text::blank(#[trigger] all[l]) implies exists|
            k: int,
            at: int,
        |
            0 <= k < chunks@.len() && #[trigger] crate::text::stands_at(
                chunks@[k].content@,
                crate::text::trim(all[l]),
                at,
            ) by {
            let (k, before, after) = crate::laws::chunking::every_line_lies_in_a_chunk(text@, l);
            let content = chunk_texts(chunks@)[k].content;
            let bare = crate::text::trim(all[l]);
            let at = before.len() as int;
            assert(content.subrange(at, at + bare.len()) =~= bare);
            assert(chunks@[k].content@ == content);
            assert(crate::text::stands_at(chunks@[k].content@, bare, at));
        }
    }
    chunks
}

// ---------------------------------------------------------------------------
// By paragraph
// ---------------------------------------------------------------------------
/// Number of characters before the first blank line, that is before two line feeds in a row, or all
/// of them.
pub open spec fn gap(s: Seq<char>) -> nat
    decreases s.len(),
{
    if s.len() < 2 {
        s.len()
    } else if s[0] == '\n' && s[1] == '\n' {
        0
    } else {
        1 + gap(s.drop_first())
    }
}

pub proof fn lemma_gap(s: Seq<char>)
    ensures
        gap(s) < s.len() ==> gap(s) + 2 <= s.len(),
        gap(s) <= s.len(),
    decreases s.len(),
{
    if s.len() >= 2 && !(s[0] == '\n' && s[1] == '\n') {
        lemma_gap(s.drop_first());
    }
}

/// The pieces of a document between its blank lines.
pub open spec fn paragraphs(s: Seq<char>) -> Seq<Part>
    decreases s.len(),
{
    let k = gap(s) as int;
    if k < s.len() {
        proof {
            lemma_gap(s);
        }
        seq![Part { heading: None, text: s.take(k) }] + paragraphs(s.skip(k + 2))
    } else {
        seq![Part { heading: None, text: s }]
    }
}

/// Splits a document by paragraphs (double newline separated).
pub fn chunk_by_paragraph(text: &str) -> (r: Vec<Chunk>)
    ensures
        chunk_texts(r@) == chunks_of(paragraphs(text@)),
{
    let v = chars_of(text);
    let mut chunks: Vec<Chunk> = Vec::new();
    let ghost mut done: Seq<Part> = seq![];
    let mut i: usize = 0;
    proof {
        assert(v@.skip(0) =~= v@);
        assert(done + paragraphs(v@) =~= paragraphs(v@));
        assert(chunk_texts(chunks@) =~= chunks_of(done));
    }
    loop
        invariant
            i <= v@.len(),
            v@ == text@,
            chunk_texts(chunks@) == chunks_of(done),
            done + paragraphs(v@.skip(i as int)) == paragraphs(v@),
        decreases v@.len() - i,
    {
        let ghost rest = v@.skip(i as int);
        let mut k: usize = i;
        while k < v.len() && !(k + 1 < v.len() && v[k] == '\n' && v[k + 1] == '\n')
            invariant
                i <= k <= v@.len(),
                rest == v@.skip(i as int),
                gap(rest) == (k - i) + gap(v@.skip(k as int)),
            decreases v@.len() - k,
        {
            assert(v@.skip(k as int).drop_first() =~= v@.skip(k + 1));
            k = k + 1;
        }
        assert(gap(rest) == k - i);
        let piece = text_between(&v, i, k);
        let ghost part = Part { heading: None, text: piece@ };
        push_chunk(&mut chunks, None, piece.as_str(), Ghost(done));
        proof {
            lemma_gap(rest);
            assert(piece@ =~= rest.take(k - i));
        }
        if k == v.len() {
            proof {
                assert(piece@ =~= rest);
                assert(done.push(part) =~= done + seq![part]);
            }
            return chunks;
        }
        proof {
            assert(rest.skip(k - i + 2) =~= v@.skip(k + 2));
            assert(done.push(part) + paragraphs(v@.skip(k + 2)) =~= done + (seq![part]
                + paragraphs(v@.skip(k + 2))));
            done = done.push(part);
        }
        i = k + 2;
    }
}

// ---------------------------------------------------------------------------
// By size
// ---------------------------------------------------------------------------
/// How far apart windows start: the size less the overlap, and at least one character.
pub open spec fn stride(size: int, overlap: int) -> int {
    if size - overlap > 1 {
        size - overlap
    } else {
        1
    }
}

/// Where a window that starts at `start` ends.
pub open spec fn window_end(len: int, size: int, start: int) -> int {
    if start + size < len {
        start + size
    } else {
        len
    }
}

/// The windows of `s` from `start` on: each `size` characters long, `step` characters after the
/// one before, up to the first that reaches the end.
pub open spec fn windows(s: Seq<char>, size: int, step: int, start: int) -> Seq<Part>
    decreases
            if start < s.len() {
                s.len() - start
            } else {
                0
            },
{
    if start < 0 || step <= 0 || start >= s.len() {
        seq![]
    } else {
        let end = window_end(s.len() as int, size, start);
        let first = seq![Part { heading: None, text: s.subrange(start, end) }];
        if end == s.len() {
            first
        } else {
            first + windows(s, size, step, start + step)
        }
    }
}

/// No window is longer than the size, and every character from `start` on lies in a window: the
/// windows overlap or touch, and the last one reaches the end.
pub proof fn windows_cover_the_text(s: Seq<char>, size: int, overlap: int, start: int, p: int)
    requires
        size > 0,
        overlap >= 0,
        0 <= start <= p < s.len(),
    ensures
        ({
            let w = windows(s, size, stride(size, overlap), start);
            &&& forall|k: int| 0 <= k < w.len() ==> (#[trigger] w[k]).text.len() <= size
            &&& exists|k: int|
                0 <= k < w.len() && ({
                    let at = start + k * stride(size, overlap);
                    at <= p < at + (#[trigger] w[k]).text.len() && w[k].text[p - at] == s[p]
                })
        }),
    decreases s.len() - start,
{
    let step = stride(size, overlap);
    let w = windows(s, size, step, start);
    let end = window_end(s.len() as int, size, start);
    if end < s.len() {
        let rest = windows(s, size, step, start + step);
        assert(w =~= seq![w[0]] + rest);
        let q = if p >= start + step {
            p
        } else {
            start + step
        };
        windows_cover_the_text(s, size, overlap, start + step, q);
        assert forall|k: int| 0 <= k < w.len() implies (#[trigger] w[k]).text.len() <= size by {
            if k > 0 {
                assert(w[k] == rest[k - 1]);
            }
        }
        if p < end {
            assert(0 * step == 0);
            assert(w[0].text[p - start] == s[p]);
        } else {
            let k = choose|k: int|
                0 <= k < rest.len() && ({
                    let at = start + step + k * step;
                    at <= p < at + (#[trigger] rest[k]).text.len() && rest[k].text[p - at] == s[p]
                });
            assert(w[k + 1] == rest[k]);
            assert((k + 1) * step == step + k * step) by (nonlinear_arith);
        }
    } else {
        assert(0 * step == 0);
        assert(w[0].text[p - start] == s[p]);
    }
}

/// Splits a document into fixed-size chunks with overlap.
pub fn chunk_by_fixed_size(text: &str, chunk_size: usize, overlap: usize) -> (r: Vec<Chunk>)
    ensures
        chunk_texts(r@) == chunks_of(
            windows(text@, chunk_size as int, stride(chunk_size as int, overlap as int), 0),
        ),
{
    let v = chars_of(text);
    let mut chunks: Vec<Chunk> = Vec::new();
    let step: usize = if chunk_size > overlap && chunk_size - overlap > 1 {
        chunk_size - overlap
    } else {
        1
    };
    let ghost size = chunk_size as int;
    let ghost mut done: Seq<Part> = seq![];
    let mut start: usize = 0;
    proof {
        assert(done + windows(v@, size, step as int, 0) =~= windows(v@, size, step as int, 0));
        assert(chunk_texts(chunks@) =~= chunks_of(done));
    }
    while start < v.len()
        invariant
            start <= v@.len(),
            v@ == text@,
            size == chunk_size,
            step == stride(size, overlap as int),
            step <= chunk_size || step == 1,
            chunk_texts(chunks@) == chunks_of(done),
            done + windows(v@, size, step as int, start as int) == windows(v@, size, step as int, 0),
        decreases v@.len() - start,
    {
        let end = if chunk_size < v.len() - start {
            start + chunk_size
        } else {
            v.len()
        };
        let piece = text_between(&v, start, end);
        let ghost part = Part { heading: None, text: piece@ };
        push_chunk(&mut chunks, None, piece.as_str(), Ghost(done));
        if end == v.len() {
            assert(done.push(part) =~= done + seq![part]);
            return chunks;
        }
        proof {
            let rest = windows(v@, size, step as int, start + step);
            assert(done.push(part) + rest =~= done + (seq![part] + rest));
            done = done.push(part);
        }
        start = start + step;
    }
    assert(done + seq![] =~= done);
    chunks
}

} // verus!
