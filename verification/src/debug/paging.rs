//! Paging by offset: the summary line and where the neighbouring pages start.
use vstd::prelude::*;

use crate::debug::html::{escaped, pager_html};
use crate::numbers::{parse_usize, size_text};
use crate::text::copy_of;

verus! {

/// A number parameter; what is missing or no number gives the default.
pub open spec fn number_or(raw: Option<Seq<char>>, default: usize) -> int {
    match raw {
        Some(s) => match crate::numbers::number_of(s, usize::MAX as int) {
            Ok(n) => n,
            Err(_) => default as int,
        },
        None => default as int,
    }
}

/// A number parameter. A hand-typed value that is no number is a typo, not a reason to refuse.
pub fn read_number(raw: &Option<String>, default: usize) -> (r: usize)
    ensures
        r == number_or(crate::text::opt_text(*raw), default),
{
    match raw {
        Some(s) => match parse_usize(s.as_str()) {
            Ok(n) => n,
            Err(_) => default,
        },
        None => default,
    }
}

/// The summary of a page of `rows` rows from `offset` on.
pub open spec fn showing(offset: int, rows: int, total: int, noun: Seq<char>) -> Seq<char> {
    "Showing "@ + crate::numbers::decimal(
        (if rows == 0 {
            0
        } else {
            offset + 1
        }) as nat,
    ) + "–"@ + crate::numbers::decimal((offset + rows) as nat) + " of "@ + crate::numbers::decimal(
        total as nat,
    ) + " "@ + noun
}

/// The summary of a page.
pub fn showing_text(offset: usize, rows: usize, total: usize, noun: &str) -> (r: String)
    requires
        offset + rows <= usize::MAX,
    ensures
        r@ == showing(offset as int, rows as int, total as int, noun@),
{
    let from: usize = if rows == 0 {
        0
    } else {
        offset + 1
    };
    let mut r = copy_of("Showing ");
    let a = size_text(from);
    r.append(a.as_str());
    r.append("–");
    let b = size_text(offset + rows);
    r.append(b.as_str());
    r.append(" of ");
    let c = size_text(total);
    r.append(c.as_str());
    r.append(" ");
    r.append(noun);
    r
}

/// Where the page before starts, or nothing on the first page.
pub open spec fn prev_offset(offset: int, limit: int) -> Option<int> {
    if offset > 0 {
        Some(
            if offset > limit {
                offset - limit
            } else {
                0
            },
        )
    } else {
        None
    }
}

/// Where the page after starts, or nothing on the last page.
pub open spec fn next_offset(offset: int, limit: int, rows: int, total: int) -> Option<int> {
    if offset + rows < total {
        Some(offset + limit)
    } else {
        None
    }
}

/// Going to the next page and back leads to where one was.
pub proof fn prev_undoes_next(offset: int, limit: int, rows: int, total: int)
    requires
        offset >= 0,
        limit > 0,
    ensures
        next_offset(offset, limit, rows, total) matches Some(n) ==> prev_offset(n, limit) == Some(
            offset,
        ),
{
}

/// The pager of a list, or its summary alone where there is no other page.
pub open spec fn foot(prev_href: Seq<char>, next_href: Seq<char>, summary: Seq<char>) -> Seq<char> {
    if prev_href.len() == 0 && next_href.len() == 0 {
        "<p>"@ + crate::debug::html::escape(summary) + "</p>"@
    } else {
        crate::debug::html::pager(prev_href, next_href, summary)
    }
}

/// The pager of a list, or its summary alone.
pub fn foot_html(prev_href: &str, next_href: &str, summary: &str) -> (r: String)
    ensures
        r@ == foot(prev_href@, next_href@, summary@),
{
    if prev_href.is_empty() && next_href.is_empty() {
        let mut r = copy_of("<p>");
        let s = escaped(summary);
        r.append(s.as_str());
        r.append("</p>");
        r
    } else {
        pager_html(prev_href, next_href, summary)
    }
}

} // verus!
