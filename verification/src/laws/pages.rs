//! What the pages share: every text is shown as it is and none of it is read as markup.
use vstd::prelude::*;

use crate::debug::html::{
    badges, dt_text, escape, or_absent, percent, NOT_FOUND_STATUS, UNAVAILABLE_STATUS,
};
use crate::time::Instant;

verus! {

/// Texts are escaped piece by piece.
pub proof fn escaping_goes_piece_by_piece(a: Seq<char>, b: Seq<char>)
    ensures
        escape(a + b) == escape(a) + escape(b),
    decreases b.len(),
{
    if b.len() == 0 {
        assert(a + b =~= a);
        assert(escape(b) =~= Seq::<char>::empty());
        assert(escape(a) + escape(b) =~= escape(a));
    } else {
        escaping_goes_piece_by_piece(a, b.drop_last());
        assert((a + b).drop_last() =~= a + b.drop_last());
        assert((a + b).last() == b.last());
        assert(escape(a + b) =~= escape(a) + escape(b));
    }
}

/// The five characters that HTML reads are written as references to them, each to its own; any text
/// without them is shown unchanged.
pub proof fn only_markup_is_escaped(plain: Seq<char>)
    requires
        forall|i: int|
            0 <= i < plain.len() ==> #[trigger] plain[i] != '<' && plain[i] != '>' && plain[i] != '&'
                && plain[i] != '"' && plain[i] != '\'',
    ensures
        escape(plain) == plain,
        escape(seq!['<']) == "&#60;"@,
        escape(seq!['>']) == "&#62;"@,
        escape(seq!['&']) == "&#38;"@,
        escape(seq!['"']) == "&#34;"@,
        escape(seq!['\'']) == "&#39;"@,
    decreases plain.len(),
{
    if plain.len() > 0 {
        let front = plain.drop_last();
        assert forall|i: int| 0 <= i < front.len() implies #[trigger] front[i] != '<' && front[i] != '>'
            && front[i] != '&' && front[i] != '"' && front[i] != '\'' by {
            assert(front[i] == plain[i]);
        }
        only_markup_is_escaped(front);
        assert(escape(plain) =~= front.push(plain.last()));
        assert(front.push(plain.last()) =~= plain);
    } else {
        assert(escape(plain) =~= plain);
    }
    lemma_one('<');
    lemma_one('>');
    lemma_one('&');
    lemma_one('"');
    lemma_one('\'');
}

proof fn lemma_one(c: char)
    ensures
        escape(seq![c]) == crate::debug::html::escaped_char(c),
{
    let s = seq![c];
    reveal_with_fuel(escape, 2);
    assert(s.drop_last() =~= Seq::<char>::empty());
    assert(escape(s.drop_last()) =~= Seq::<char>::empty());
    assert(escape(s) =~= crate::debug::html::escaped_char(c));
}

/// Letters, digits and `-`, `.`, `_` and `~` stand for themselves in an address, and a slash does where
/// it parts a path. Any other byte is written as a percent sign and two hexadecimal digits.
pub proof fn an_address_spells_out_what_is_reserved(b: u8, rest: Seq<u8>, slash: bool)
    ensures
        ({
            let own = ('a' as u8) <= b <= ('z' as u8) || ('A' as u8) <= b <= ('Z' as u8) || ('0' as u8)
                <= b <= ('9' as u8) || b == ('-' as u8) || b == ('.' as u8) || b == ('_' as u8) || b == (
            '~' as u8) || (slash && b == ('/' as u8));
            let all = percent(seq![b] + rest, slash);
            &&& own ==> all == seq![b as char] + percent(rest, slash)
            &&& !own ==> {
                &&& all.len() == 3 + percent(rest, slash).len()
                &&& all[0] == '%'
                &&& all.skip(3) == percent(rest, slash)
                &&& exists|h: int, l: int|
                    0 <= h < 16 && 0 <= l < 16 && b == h * 16 + l && all[1]
                        == #[trigger] "0123456789ABCDEF"@[h] && all[2]
                        == #[trigger] "0123456789ABCDEF"@[l]
            }
        }),
{
    let s = seq![b] + rest;
    assert(s.drop_first() =~= rest);
    assert(s[0] == b);
    let all = percent(s, slash);
    let tail = percent(rest, slash);
    assert(all == crate::debug::html::percent_byte(b, slash) + tail);
    if !(crate::debug::html::unreserved(b) || (slash && b == 0x2f)) {
        assert(all.skip(3) =~= tail);
        reveal_strlit("0123456789ABCDEF");
        let h = b as int / 16;
        let l = b as int % 16;
        assert(all[1] == "0123456789ABCDEF"@[h]);
        assert(all[2] == "0123456789ABCDEF"@[l]);
    }
}

/// Badges stand one after the other, each around its own text.
pub proof fn badges_stand_one_after_the_other(first: Seq<Seq<char>>, text: Seq<char>)
    ensures
        badges(first.push(text)) == badges(first) + ("<span class=\"badge\">"@ + escape(text)
            + "</span>"@),
        badges(Seq::empty()).len() == 0,
{
    assert(first.push(text).drop_last() =~= first);
}

/// What is absent is shown as a dash, and what is there as it is.
pub proof fn what_is_absent_is_a_dash(text: Seq<char>, at: Instant)
    ensures
        or_absent(None) == "—"@,
        or_absent(Some(text)) == text,
        dt_text(None) == "—"@,
        dt_text(Some(at)) == crate::time::minute_text(at),
{
}

/// A page that lacks its record says so by its status.
pub proof fn a_missing_record_shows_in_the_status()
    ensures
        NOT_FOUND_STATUS == 404,
        UNAVAILABLE_STATUS == 500,
{
}

} // verus!
