//! Text primitives over sequences of characters.
//!
//! Every function here states its result as a function of the characters of its input, so the
//! modules above can speak of text without ever mentioning bytes or encodings.
use vstd::prelude::*;

verus! {

/// `String::push` appends one character.
pub assume_specification[ String::push ](s: &mut String, c: char)
    ensures
        final(s)@ == old(s)@.push(c),
;

/// A text between double quotes with its special characters escaped.
pub uninterp spec fn quoted(s: Seq<char>) -> Seq<char>;

/// The `Debug` form of `str`: the text between double quotes, with the characters that would not
/// print as themselves escaped.
#[verifier::external_body]
fn debug_form(s: &str) -> (r: String)
    ensures
        r@ == quoted(s@),
{
    format!("{s:?}")
}

/// `s` between double quotes, with its special characters escaped.
pub fn quote(s: &str) -> (r: String)
    ensures
        r@ == quoted(s@),
{
    debug_form(s)
}

/// The characters with the Unicode `White_Space` property.
pub open spec fn is_space(c: char) -> bool {
    let n = c as u32;
    ||| 0x9 <= n <= 0xd
    ||| n == 0x20
    ||| n == 0x85
    ||| n == 0xa0
    ||| n == 0x1680
    ||| 0x2000 <= n <= 0x200a
    ||| n == 0x2028
    ||| n == 0x2029
    ||| n == 0x202f
    ||| n == 0x205f
    ||| n == 0x3000
}

/// Whether `c` is white space.
pub fn char_is_space(c: char) -> (r: bool)
    ensures
        r == is_space(c),
{
    let n: u32 = c as u32;
    (0x9 <= n && n <= 0xd) || n == 0x20 || n == 0x85 || n == 0xa0 || n == 0x1680 || (0x2000 <= n
        && n <= 0x200a) || n == 0x2028 || n == 0x2029 || n == 0x202f || n == 0x205f || n == 0x3000
}

/// The characters of a text.
pub fn chars_of(s: &str) -> (r: Vec<char>)
    ensures
        r@ == s@,
{
    let mut r: Vec<char> = Vec::new();
    for c in it: s.chars()
        invariant
            r@ == s@.take(it.index()),
            it.seq() == s@,
    {
        r.push(c);
        assert(s@.take(it.index() + 1) =~= s@.take(it.index()).push(s@[it.index()]));
    }
    assert(s@.take(s@.len() as int) =~= s@);
    r
}

/// The text made of the characters of `v` from `lo` up to `hi`.
pub fn text_between(v: &Vec<char>, lo: usize, hi: usize) -> (r: String)
    requires
        lo <= hi <= v@.len(),
    ensures
        r@ == v@.subrange(lo as int, hi as int),
{
    let mut r = String::new();
    let mut i: usize = lo;
    while i < hi
        invariant
            lo <= i <= hi <= v@.len(),
            r@ == v@.subrange(lo as int, i as int),
        decreases hi - i,
    {
        r.push(v[i]);
        assert(v@.subrange(lo as int, i + 1) =~= v@.subrange(lo as int, i as int).push(
            v@[i as int],
        ));
        i = i + 1;
    }
    r
}

/// A copy of `s`.
pub fn copy_of(s: &str) -> (r: String)
    ensures
        r@ == s@,
{
    s.to_owned()
}

/// Whether two texts have the same characters.
pub fn same(a: &str, b: &str) -> (r: bool)
    ensures
        r == (a@ == b@),
{
    a.to_owned() == b.to_owned()
}

// ---------------------------------------------------------------------------
// Lists of texts
// ---------------------------------------------------------------------------
/// The texts of a list of strings.
pub open spec fn texts(v: Seq<String>) -> Seq<Seq<char>> {
    v.map_values(|s: String| s@)
}

/// Pushing a string pushes its text.
pub broadcast proof fn lemma_texts_push(v: Seq<String>, s: String)
    ensures
        #[trigger] texts(v.push(s)) == texts(v).push(s@),
{
    assert(texts(v.push(s)) =~= texts(v).push(s@));
}

/// A prefix of a list has a prefix of its texts.
pub proof fn lemma_texts_take(v: Seq<String>, n: int)
    requires
        0 <= n < v.len(),
    ensures
        texts(v.take(n + 1)) == texts(v.take(n)).push(v[n]@),
{
    assert(texts(v.take(n + 1)) =~= texts(v.take(n)).push(v[n]@));
}

/// The text of an optional string.
pub open spec fn opt_text(o: Option<String>) -> Option<Seq<char>> {
    match o {
        Some(s) => Some(s@),
        None => None,
    }
}

/// A copy of an optional string.
pub fn copy_opt(o: &Option<String>) -> (r: Option<String>)
    ensures
        opt_text(r) == opt_text(*o),
{
    match o {
        Some(s) => Some(copy_of(s.as_str())),
        None => None,
    }
}

/// A copy of a list of strings.
pub fn copy_texts(v: &Vec<String>) -> (r: Vec<String>)
    ensures
        texts(r@) == texts(v@),
{
    let mut r: Vec<String> = Vec::new();
    let mut i: usize = 0;
    while i < v.len()
        invariant
            i <= v@.len(),
            texts(r@) == texts(v@.take(i as int)),
        decreases v@.len() - i,
    {
        let s = copy_of(v[i].as_str());
        proof {
            lemma_texts_push(r@, s);
            lemma_texts_take(v@, i as int);
        }
        r.push(s);
        i = i + 1;
    }
    assert(v@.take(v@.len() as int) =~= v@);
    r
}

/// `parts` with `sep` between each two neighbours.
pub open spec fn join(parts: Seq<Seq<char>>, sep: Seq<char>) -> Seq<char>
    decreases parts.len(),
{
    if parts.len() == 0 {
        seq![]
    } else if parts.len() == 1 {
        parts[0]
    } else {
        join(parts.drop_last(), sep) + sep + parts.last()
    }
}

/// `parts` joined by `sep`.
pub fn join_texts(parts: &Vec<String>, sep: &str) -> (r: String)
    ensures
        r@ == join(texts(parts@), sep@),
{
    let mut r = String::new();
    let mut i: usize = 0;
    while i < parts.len()
        invariant
            i <= parts@.len(),
            r@ == join(texts(parts@.take(i as int)), sep@),
        decreases parts@.len() - i,
    {
        proof {
            lemma_texts_take(parts@, i as int);
            let t = texts(parts@.take(i + 1));
            assert(t.drop_last() =~= texts(parts@.take(i as int)));
            assert(t.last() == parts@[i as int]@);
        }
        if i > 0 {
            r.append(sep);
        }
        r.append(parts[i].as_str());
        i = i + 1;
    }
    assert(parts@.take(parts@.len() as int) =~= parts@);
    r
}

// ---------------------------------------------------------------------------
// Trimming
// ---------------------------------------------------------------------------
/// `s` without its leading white space.
pub open spec fn trim_start(s: Seq<char>) -> Seq<char>
    decreases s.len(),
{
    if s.len() > 0 && is_space(s[0]) {
        trim_start(s.drop_first())
    } else {
        s
    }
}

/// `s` without its trailing white space.
pub open spec fn trim_end(s: Seq<char>) -> Seq<char>
    decreases s.len(),
{
    if s.len() > 0 && is_space(s.last()) {
        trim_end(s.drop_last())
    } else {
        s
    }
}

/// `s` without the white space at its two ends.
pub open spec fn trim(s: Seq<char>) -> Seq<char> {
    trim_end(trim_start(s))
}

/// What is left after trimming neither starts nor ends with white space.
pub proof fn lemma_trim_edges(s: Seq<char>)
    ensures
        trim(s).len() > 0 ==> !is_space(trim(s)[0]) && !is_space(trim(s).last()),
{
    lemma_trim_start_edge(s);
    lemma_trim_end_edge(trim_start(s));
}

proof fn lemma_trim_start_edge(s: Seq<char>)
    ensures
        trim_start(s).len() > 0 ==> !is_space(trim_start(s)[0]),
    decreases s.len(),
{
    if s.len() > 0 && is_space(s[0]) {
        lemma_trim_start_edge(s.drop_first());
    }
}

proof fn lemma_trim_end_edge(s: Seq<char>)
    ensures
        trim_end(s).len() > 0 ==> !is_space(trim_end(s).last()) && trim_end(s)[0] == s[0],
        trim_end(s).len() <= s.len(),
    decreases s.len(),
{
    if s.len() > 0 && is_space(s.last()) {
        lemma_trim_end_edge(s.drop_last());
    }
}

/// Trimming the start twice changes nothing more.
pub proof fn lemma_trim_start_fixed(s: Seq<char>)
    ensures
        trim_start(trim_start(s)) == trim_start(s),
{
    lemma_trim_start_edge(s);
}

/// Trimming twice changes nothing more.
pub proof fn lemma_trim_idempotent(s: Seq<char>)
    ensures
        trim(trim(s)) == trim(s),
{
    lemma_trim_edges(s);
}

/// `s` trimmed.
pub fn trimmed(s: &str) -> (r: String)
    ensures
        r@ == trim(s@),
{
    let v = chars_of(s);
    let mut lo: usize = 0;
    assert(v@.skip(0) =~= v@);
    while lo < v.len() && char_is_space(v[lo])
        invariant
            lo <= v@.len(),
            trim_start(v@.skip(lo as int)) == trim_start(v@),
        decreases v@.len() - lo,
    {
        assert(v@.skip(lo as int).drop_first() =~= v@.skip(lo + 1));
        lo = lo + 1;
    }
    let mut hi: usize = v.len();
    assert(v@.subrange(lo as int, hi as int) =~= v@.skip(lo as int));
    while hi > lo && char_is_space(v[hi - 1])
        invariant
            lo <= hi <= v@.len(),
            trim_end(v@.subrange(lo as int, hi as int)) == trim(v@),
        decreases hi - lo,
    {
        assert(v@.subrange(lo as int, hi as int).drop_last() =~= v@.subrange(lo as int, hi - 1));
        hi = hi - 1;
    }
    text_between(&v, lo, hi)
}

/// Whether a text is empty or all white space.
pub open spec fn blank(s: Seq<char>) -> bool {
    trim(s).len() == 0
}

/// Whether `t` stands in `s` at a position.
pub open spec fn stands_at(s: Seq<char>, t: Seq<char>, at: int) -> bool {
    0 <= at <= s.len() - t.len() && s.subrange(at, at + t.len()) == t
}

/// Whether `s` is empty or all white space.
pub fn is_blank(s: &str) -> (r: bool)
    ensures
        r == blank(s@),
{
    trimmed(s).as_str().is_empty()
}

// ---------------------------------------------------------------------------
// Words and separators
// ---------------------------------------------------------------------------
/// Length of the leading run of characters that are not white space.
pub open spec fn word_len(s: Seq<char>) -> nat
    decreases s.len(),
{
    if s.len() > 0 && !is_space(s[0]) {
        1 + word_len(s.drop_first())
    } else {
        0
    }
}

pub proof fn lemma_word_len(s: Seq<char>)
    ensures
        word_len(s) <= s.len(),
        forall|i: int| 0 <= i < word_len(s) ==> !is_space(#[trigger] s[i]),
        word_len(s) < s.len() ==> is_space(s[word_len(s) as int]),
    decreases s.len(),
{
    if s.len() > 0 && !is_space(s[0]) {
        lemma_word_len(s.drop_first());
        assert forall|i: int| 0 <= i < word_len(s) implies !is_space(#[trigger] s[i]) by {
            if i > 0 {
                assert(s[i] == s.drop_first()[i - 1]);
            }
        }
    }
}

pub proof fn lemma_trim_start_len(s: Seq<char>)
    ensures
        trim_start(s).len() <= s.len(),
        trim_start(s).len() > 0 ==> word_len(trim_start(s)) > 0,
    decreases s.len(),
{
    if s.len() > 0 && is_space(s[0]) {
        lemma_trim_start_len(s.drop_first());
    }
}

/// The maximal runs of characters that are not white space, in order.
pub open spec fn words(s: Seq<char>) -> Seq<Seq<char>>
    decreases s.len(),
{
    let t = trim_start(s);
    if t.len() == 0 {
        seq![]
    } else {
        proof {
            lemma_trim_start_len(s);
            lemma_word_len(t);
        }
        seq![t.take(word_len(t) as int)] + words(t.skip(word_len(t) as int))
    }
}

/// The words of `s`.
pub fn words_of(s: &str) -> (r: Vec<String>)
    ensures
        texts(r@) == words(s@),
{
    let v = chars_of(s);
    let mut r: Vec<String> = Vec::new();
    let mut i: usize = 0;
    assert(v@.skip(0) =~= v@);
    assert(texts(r@) + words(v@) =~= words(v@));
    while i < v.len()
        invariant
            i <= v@.len(),
            texts(r@) + words(v@.skip(i as int)) == words(v@),
        decreases v@.len() - i,
    {
        let mut lo: usize = i;
        while lo < v.len() && char_is_space(v[lo])
            invariant
                i <= lo <= v@.len(),
                trim_start(v@.skip(lo as int)) == trim_start(v@.skip(i as int)),
            decreases v@.len() - lo,
        {
            assert(v@.skip(lo as int).drop_first() =~= v@.skip(lo + 1));
            lo = lo + 1;
        }
        let ghost t = v@.skip(lo as int);
        assert(t == trim_start(v@.skip(i as int)));
        let mut hi: usize = lo;
        assert(v@.subrange(lo as int, hi as int) =~= t.take(0));
        while hi < v.len() && !char_is_space(v[hi])
            invariant
                lo <= hi <= v@.len(),
                t == v@.skip(lo as int),
                word_len(t) == (hi - lo) + word_len(v@.skip(hi as int)),
            decreases v@.len() - hi,
        {
            assert(v@.skip(hi as int).drop_first() =~= v@.skip(hi + 1));
            hi = hi + 1;
        }
        assert(word_len(t) == hi - lo);
        if lo < hi {
            let w = text_between(&v, lo, hi);
            proof {
                lemma_texts_push(r@, w);
                assert(w@ =~= t.take(hi - lo));
                assert(t.skip(hi - lo) =~= v@.skip(hi as int));
                assert(words(v@.skip(i as int)) == seq![w@] + words(v@.skip(hi as int)));
                assert(texts(r@).push(w@) + words(v@.skip(hi as int)) =~= texts(r@) + (seq![w@]
                    + words(v@.skip(hi as int))));
            }
            r.push(w);
        } else {
            proof {
                lemma_trim_start_len(v@.skip(i as int));
                assert(t.len() == 0);
                assert(words(v@.skip(hi as int)) =~= seq![]);
            }
        }
        proof {
            lemma_trim_start_len(v@.skip(i as int));
        }
        // A non-empty rest always loses white space or a word.
        assert(hi > i);
        i = hi;
    }
    assert(words(v@.skip(i as int)) =~= seq![]);
    assert(texts(r@) + seq![] =~= texts(r@));
    r
}

/// `s` with each run of white space replaced by one space and the ends trimmed.
pub open spec fn collapse(s: Seq<char>) -> Seq<char> {
    join(words(s), seq![' '])
}

/// Whether a text is on one line and holds no white space to collapse: it neither starts nor ends with
/// any, all there is are spaces, and no two of them are neighbours.
pub open spec fn one_line(s: Seq<char>) -> bool {
    &&& s.len() > 0 ==> !is_space(s[0]) && !is_space(s.last())
    &&& forall|i: int| 0 <= i < s.len() && is_space(#[trigger] s[i]) ==> s[i] == ' '
    &&& forall|i: int, j: int|
        0 <= i < s.len() && j == i + 1 && j < s.len() ==> !(is_space(#[trigger] s[i]) && is_space(
            #[trigger] s[j],
        ))
}

/// The first of several parts can be split off from what they are joined to.
pub proof fn lemma_join_first(first: Seq<char>, rest: Seq<Seq<char>>, sep: Seq<char>)
    requires
        rest.len() > 0,
    ensures
        join(seq![first] + rest, sep) == first + sep + join(rest, sep),
    decreases rest.len(),
{
    let all = seq![first] + rest;
    assert(all.last() == rest.last());
    if rest.len() == 1 {
        assert(all.drop_last() =~= seq![first]);
        assert(join(all.drop_last(), sep) == first);
    } else {
        assert(all.drop_last() =~= seq![first] + rest.drop_last());
        lemma_join_first(first, rest.drop_last(), sep);
        assert(join(all, sep) =~= first + sep + join(rest, sep));
    }
}

/// A collapsed text is on one line.
pub proof fn lemma_collapse_is_one_line(s: Seq<char>)
    ensures
        one_line(collapse(s)),
        words(s).len() > 0 ==> collapse(s).len() > 0,
    decreases s.len(),
{
    let t = trim_start(s);
    lemma_trim_start_len(s);
    if t.len() > 0 {
        let k = word_len(t) as int;
        lemma_word_len(t);
        let w = t.take(k);
        let rest = words(t.skip(k));
        lemma_collapse_is_one_line(t.skip(k));
        if rest.len() == 0 {
            assert(seq![w] + rest =~= seq![w]);
            assert(collapse(s) == w);
        } else {
            lemma_join_first(w, rest, seq![' ']);
            let tail = collapse(t.skip(k));
            let c = collapse(s);
            assert(c == w + seq![' '] + tail);
            assert(c.last() == tail.last());
            assert forall|i: int| 0 <= i < c.len() && is_space(#[trigger] c[i]) implies c[i]
                == ' ' by {
                if i > k {
                    assert(c[i] == tail[i - k - 1]);
                }
            }
            assert forall|i: int, j: int|
                0 <= i < c.len() && j == i + 1 && j < c.len() implies !(is_space(#[trigger] c[i])
                && is_space(#[trigger] c[j])) by {
                if i > k {
                    assert(c[i] == tail[i - k - 1]);
                    assert(c[j] == tail[j - k - 1]);
                } else if i == k {
                    assert(c[j] == tail[0]);
                }
            }
        }
    }
}

/// A text that is on one line stays as it is.
pub proof fn lemma_one_line_is_kept(s: Seq<char>)
    requires
        one_line(s),
    ensures
        collapse(s) == s,
    decreases s.len(),
{
    if s.len() > 0 {
        let k = word_len(s) as int;
        lemma_word_len(s);
        assert(trim_start(s) == s);
        let w = s.take(k);
        if k == s.len() {
            assert(s.skip(k).len() == 0);
            assert(words(s.skip(k)) =~= seq![]);
            assert(w =~= s);
            assert(words(s) =~= seq![s]);
        } else {
            let rest = s.skip(k);
            let next = s.skip(k + 1);
            assert(k < s.len() - 1);
            assert(!is_space(s[k + 1]));
            assert(rest.drop_first() =~= next);
            assert(next[0] == s[k + 1]);
            assert(trim_start(next) == next);
            assert(trim_start(rest) == next);
            assert(words(rest) == words(next));
            assert(next.last() == s.last());
            assert forall|i: int, j: int|
                0 <= i < next.len() && j == i + 1 && j < next.len() implies !(is_space(
                #[trigger] next[i],
            ) && is_space(#[trigger] next[j])) by {
                assert(next[i] == s[i + k + 1]);
                assert(next[j] == s[j + k + 1]);
            }
            lemma_one_line_is_kept(next);
            lemma_join_first(w, words(next), seq![' ']);
            assert(w + seq![' '] + next =~= s);
        }
    }
}

/// `s` on one line: its words with one space between each two.
pub fn collapsed(s: &str) -> (r: String)
    ensures
        r@ == collapse(s@),
{
    let w = words_of(s);
    proof {
        reveal_strlit(" ");
        assert(" "@ =~= seq![' ']);
    }
    join_texts(&w, " ")
}

/// Number of characters before the first `c`, or all of them.
pub open spec fn until(s: Seq<char>, c: char) -> nat
    decreases s.len(),
{
    if s.len() == 0 || s[0] == c {
        0
    } else {
        1 + until(s.drop_first(), c)
    }
}

pub proof fn lemma_until(s: Seq<char>, c: char)
    ensures
        until(s, c) <= s.len(),
        forall|i: int| 0 <= i < until(s, c) ==> #[trigger] s[i] != c,
        until(s, c) < s.len() ==> s[until(s, c) as int] == c,
    decreases s.len(),
{
    if s.len() > 0 && s[0] != c {
        lemma_until(s.drop_first(), c);
        assert forall|i: int| 0 <= i < until(s, c) implies #[trigger] s[i] != c by {
            if i > 0 {
                assert(s[i] == s.drop_first()[i - 1]);
            }
        }
    }
}

/// Index of the first `c` in `v` at or after `from`, or the length.
pub fn index_of(v: &Vec<char>, from: usize, c: char) -> (r: usize)
    requires
        from <= v@.len(),
    ensures
        from <= r <= v@.len(),
        r - from == until(v@.skip(from as int), c),
{
    let mut i: usize = from;
    while i < v.len() && v[i] != c
        invariant
            from <= i <= v@.len(),
            until(v@.skip(from as int), c) == (i - from) + until(v@.skip(i as int), c),
        decreases v@.len() - i,
    {
        assert(v@.skip(i as int).drop_first() =~= v@.skip(i + 1));
        i = i + 1;
    }
    i
}

/// The pieces of `s` between its occurrences of `c`; always at least one.
pub open spec fn split(s: Seq<char>, c: char) -> Seq<Seq<char>>
    decreases s.len(),
{
    let k = until(s, c) as int;
    if k < s.len() {
        seq![s.take(k)] + split(s.skip(k + 1), c)
    } else {
        seq![s]
    }
}

pub proof fn lemma_split_len(s: Seq<char>, c: char)
    ensures
        split(s, c).len() >= 1,
    decreases s.len(),
{
    let k = until(s, c) as int;
    if k < s.len() {
        lemma_split_len(s.skip(k + 1), c);
    }
}

/// `s` split at every `c`.
pub fn split_at_char(s: &str, c: char) -> (r: Vec<String>)
    ensures
        texts(r@) == split(s@, c),
        r@.len() >= 1,
{
    let v = chars_of(s);
    let mut r: Vec<String> = Vec::new();
    let mut i: usize = 0;
    assert(v@.skip(0) =~= v@);
    assert(texts(r@) + split(v@, c) =~= split(v@, c));
    loop
        invariant
            i <= v@.len(),
            v@ == s@,
            texts(r@) + split(v@.skip(i as int), c) == split(v@, c),
        decreases v@.len() - i,
    {
        let k = index_of(&v, i, c);
        let piece = text_between(&v, i, k);
        let ghost rest = v@.skip(i as int);
        proof {
            lemma_until(rest, c);
            lemma_texts_push(r@, piece);
            assert(piece@ =~= rest.take(k - i));
        }
        if k == v.len() {
            proof {
                assert(piece@ =~= rest);
                assert(texts(r@).push(piece@) =~= texts(r@) + seq![rest]);
                lemma_split_len(v@, c);
            }
            r.push(piece);
            return r;
        }
        proof {
            assert(rest.skip(k - i + 1) =~= v@.skip(k + 1));
            assert(split(rest, c) == seq![piece@] + split(v@.skip(k + 1), c));
            assert(texts(r@).push(piece@) + split(v@.skip(k + 1), c) =~= texts(r@) + (seq![piece@]
                + split(v@.skip(k + 1), c)));
        }
        r.push(piece);
        i = k + 1;
    }
}

/// A piece without the carriage return at its end, where it has one.
pub open spec fn without_cr(s: Seq<char>) -> Seq<char> {
    if s.len() > 0 && s.last() == '\r' {
        s.drop_last()
    } else {
        s
    }
}

/// The lines of `s`: the pieces between line feeds, each ended piece without the carriage
/// return before its line feed, and no empty line after a final line feed.
pub open spec fn lines(s: Seq<char>) -> Seq<Seq<char>> {
    let p = split(s, '\n');
    let n = (if p.last().len() == 0 { p.len() - 1 } else { p.len() as int }) as nat;
    Seq::new(n, |i: int| if i == p.len() - 1 { p[i] } else { without_cr(p[i]) })
}

/// The lines of `s`.
pub fn lines_of(s: &str) -> (r: Vec<String>)
    ensures
        texts(r@) == lines(s@),
{
    let p = split_at_char(s, '\n');
    let ghost ps = texts(p@);
    let mut r: Vec<String> = Vec::new();
    let mut i: usize = 0;
    while i < p.len() - 1
        invariant
            i <= p@.len() - 1,
            ps == texts(p@),
            r@.len() == i,
            forall|j: int| 0 <= j < i ==> texts(r@)[j] == without_cr(#[trigger] ps[j]),
        decreases p@.len() - i,
    {
        let v = chars_of(p[i].as_str());
        let n = v.len();
        assert(ps[i as int] == v@);
        let line = if n > 0 && v[n - 1] == '\r' {
            text_between(&v, 0, n - 1)
        } else {
            text_between(&v, 0, n)
        };
        assert(line@ =~= without_cr(ps[i as int]));
        proof {
            lemma_texts_push(r@, line);
        }
        r.push(line);
        i = i + 1;
    }
    let last = p[i].as_str();
    assert(ps.last() == last@);
    if !last.is_empty() {
        let line = copy_of(last);
        proof {
            lemma_texts_push(r@, line);
        }
        r.push(line);
    }
    assert(texts(r@) =~= lines(s@));
    r
}

/// The two sides of the first `c`, or nothing where `c` does not occur.
pub open spec fn cut(s: Seq<char>, c: char) -> Option<(Seq<char>, Seq<char>)> {
    let k = until(s, c) as int;
    if k < s.len() {
        Some((s.take(k), s.skip(k + 1)))
    } else {
        None
    }
}

/// `s` cut at its first `c`.
pub fn cut_at(s: &str, c: char) -> (r: Option<(String, String)>)
    ensures
        cut(s@, c) == (match r {
            Some(p) => Some((p.0@, p.1@)),
            None => None,
        }),
{
    let v = chars_of(s);
    assert(v@.skip(0) =~= v@);
    let k = index_of(&v, 0, c);
    if k == v.len() {
        return None;
    }
    let a = text_between(&v, 0, k);
    let b = text_between(&v, k + 1, v.len());
    assert(a@ =~= v@.take(k as int));
    assert(b@ =~= v@.skip(k + 1));
    Some((a, b))
}

/// Position of the last `c`, or -1 where `c` does not occur.
pub open spec fn last_at(s: Seq<char>, c: char) -> int
    decreases s.len(),
{
    if s.len() == 0 {
        -1
    } else if s.last() == c {
        s.len() - 1
    } else {
        last_at(s.drop_last(), c)
    }
}

/// The two sides of the last `c`, or nothing where `c` does not occur.
pub open spec fn cut_last(s: Seq<char>, c: char) -> Option<(Seq<char>, Seq<char>)> {
    let k = last_at(s, c);
    if k >= 0 {
        Some((s.take(k), s.skip(k + 1)))
    } else {
        None
    }
}

/// `s` cut at its last `c`.
pub fn cut_at_last(s: &str, c: char) -> (r: Option<(String, String)>)
    ensures
        cut_last(s@, c) == (match r {
            Some(p) => Some((p.0@, p.1@)),
            None => None,
        }),
{
    let v = chars_of(s);
    let mut k: usize = v.len();
    assert(v@.take(v@.len() as int) =~= v@);
    while k > 0 && v[k - 1] != c
        invariant
            k <= v@.len(),
            last_at(v@, c) == last_at(v@.take(k as int), c),
        decreases k,
    {
        assert(v@.take(k as int).drop_last() =~= v@.take(k - 1));
        k = k - 1;
    }
    if k == 0 {
        return None;
    }
    assert(last_at(v@, c) == k - 1);
    let a = text_between(&v, 0, k - 1);
    let b = text_between(&v, k, v.len());
    assert(a@ =~= v@.take(k - 1));
    assert(b@ =~= v@.skip(k as int));
    Some((a, b))
}

// ---------------------------------------------------------------------------
// Prefixes and case
// ---------------------------------------------------------------------------
/// Whether `s` begins with `p`.
pub open spec fn begins(s: Seq<char>, p: Seq<char>) -> bool {
    p.len() <= s.len() && s.take(p.len() as int) == p
}

/// Whether `s` begins with `p`.
pub fn begins_with(s: &str, p: &str) -> (r: bool)
    ensures
        r == begins(s@, p@),
{
    let v = chars_of(s);
    let w = chars_of(p);
    if w.len() > v.len() {
        return false;
    }
    let mut i: usize = 0;
    while i < w.len()
        invariant
            i <= w@.len() <= v@.len(),
            v@.take(i as int) == w@.take(i as int),
            v@ == s@,
            w@ == p@,
        decreases w@.len() - i,
    {
        if v[i] != w[i] {
            assert(s@.take(p@.len() as int)[i as int] != p@[i as int]);
            return false;
        }
        assert(v@.take(i + 1) =~= v@.take(i as int).push(v@[i as int]));
        assert(w@.take(i + 1) =~= w@.take(i as int).push(w@[i as int]));
        i = i + 1;
    }
    assert(w@.take(w@.len() as int) =~= w@);
    true
}

/// `s` without its leading run of `c`.
pub open spec fn strip_leading(s: Seq<char>, c: char) -> Seq<char>
    decreases s.len(),
{
    if s.len() > 0 && s[0] == c {
        strip_leading(s.drop_first(), c)
    } else {
        s
    }
}

/// `s` without its leading run of `c`.
pub fn stripped_leading(s: &str, c: char) -> (r: String)
    ensures
        r@ == strip_leading(s@, c),
{
    let v = chars_of(s);
    let mut i: usize = 0;
    assert(v@.skip(0) =~= v@);
    while i < v.len() && v[i] == c
        invariant
            i <= v@.len(),
            strip_leading(v@, c) == strip_leading(v@.skip(i as int), c),
        decreases v@.len() - i,
    {
        assert(v@.skip(i as int).drop_first() =~= v@.skip(i + 1));
        i = i + 1;
    }
    assert(v@.subrange(i as int, v@.len() as int) =~= v@.skip(i as int));
    text_between(&v, i, v.len())
}

/// `c` with an ASCII capital made small.
pub open spec fn lower_char(c: char) -> char {
    if 'A' <= c <= 'Z' {
        (c as u32 + 32) as char
    } else {
        c
    }
}

/// `s` with its ASCII capitals made small.
pub open spec fn lower(s: Seq<char>) -> Seq<char> {
    s.map_values(|c: char| lower_char(c))
}

/// `c` with an ASCII capital made small.
pub fn lowered_char(c: char) -> (r: char)
    ensures
        r == lower_char(c),
{
    if 'A' <= c && c <= 'Z' {
        let b: u8 = (c as u32 + 32) as u8;
        b as char
    } else {
        c
    }
}

/// `s` with its ASCII capitals made small.
pub fn lowered(s: &str) -> (r: String)
    ensures
        r@ == lower(s@),
{
    let v = chars_of(s);
    let mut r = String::new();
    let mut i: usize = 0;
    while i < v.len()
        invariant
            i <= v@.len(),
            r@ == lower(v@.take(i as int)),
        decreases v@.len() - i,
    {
        let c = lowered_char(v[i]);
        r.push(c);
        assert(lower(v@.take(i + 1)) =~= lower(v@.take(i as int)).push(c));
        i = i + 1;
    }
    assert(v@.take(v@.len() as int) =~= v@);
    r
}

/// Whether two texts are equal but for the case of ASCII letters.
pub fn same_ignoring_case(a: &str, b: &str) -> (r: bool)
    ensures
        r == (lower(a@) == lower(b@)),
{
    let x = lowered(a);
    let y = lowered(b);
    same(x.as_str(), y.as_str())
}

/// The first `n` characters of `s`, or all of them.
pub open spec fn first_chars(s: Seq<char>, n: nat) -> Seq<char> {
    if s.len() <= n {
        s
    } else {
        s.take(n as int)
    }
}

/// The first `n` characters of `s`.
pub fn take_chars(s: &str, n: usize) -> (r: String)
    ensures
        r@ == first_chars(s@, n as nat),
{
    let v = chars_of(s);
    let hi = if v.len() <= n {
        v.len()
    } else {
        n
    };
    assert(v@.subrange(0, hi as int) =~= first_chars(s@, n as nat));
    text_between(&v, 0, hi)
}

} // verus!
