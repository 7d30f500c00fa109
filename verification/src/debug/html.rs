//! What the debug pages share: escaping, timestamps, the layout, the pager and the error page.
use vstd::prelude::*;

use crate::debug::assets::HTMX_URL;
use crate::text::{chars_of, copy_of, same};
use crate::time::{minute_utc, Instant};

verus! {

// ---------------------------------------------------------------------------
// Escaping
// ---------------------------------------------------------------------------
/// A character as it stands in HTML text and attributes.
pub open spec fn escaped_char(c: char) -> Seq<char> {
    if c == '<' {
        "&#60;"@
    } else if c == '>' {
        "&#62;"@
    } else if c == '&' {
        "&#38;"@
    } else if c == '"' {
        "&#34;"@
    } else if c == '\'' {
        "&#39;"@
    } else {
        seq![c]
    }
}

/// A text as it stands in HTML text and attributes.
pub open spec fn escape(s: Seq<char>) -> Seq<char>
    decreases s.len(),
{
    if s.len() == 0 {
        seq![]
    } else {
        escape(s.drop_last()) + escaped_char(s.last())
    }
}

/// Whether a character could open a tag or close an attribute.
pub open spec fn is_markup(c: char) -> bool {
    c == '<' || c == '>' || c == '"' || c == '\''
}

/// An escaped text holds nothing that could open a tag or close an attribute.
pub proof fn an_escaped_text_is_inert(s: Seq<char>)
    ensures
        forall|i: int| 0 <= i < escape(s).len() ==> !is_markup(#[trigger] escape(s)[i]),
    decreases s.len(),
{
    if s.len() > 0 {
        an_escaped_text_is_inert(s.drop_last());
        reveal_strlit("&#60;");
        reveal_strlit("&#62;");
        reveal_strlit("&#38;");
        reveal_strlit("&#34;");
        reveal_strlit("&#39;");
        let a = escape(s.drop_last());
        let b = escaped_char(s.last());
        assert forall|i: int| 0 <= i < escape(s).len() implies !is_markup(
            #[trigger] escape(s)[i],
        ) by {
            if i < a.len() {
                assert(escape(s)[i] == a[i]);
            } else {
                assert(escape(s)[i] == b[i - a.len()]);
            }
        }
    }
}

/// `s` as it stands in HTML text and attributes.
pub fn escaped(s: &str) -> (r: String)
    ensures
        r@ == escape(s@),
{
    let v = chars_of(s);
    let mut r = String::new();
    let mut i: usize = 0;
    while i < v.len()
        invariant
            i <= v@.len(),
            r@ == escape(v@.take(i as int)),
        decreases v@.len() - i,
    {
        let c = v[i];
        assert(v@.take(i + 1).drop_last() =~= v@.take(i as int));
        if c == '<' {
            r.append("&#60;");
        } else if c == '>' {
            r.append("&#62;");
        } else if c == '&' {
            r.append("&#38;");
        } else if c == '"' {
            r.append("&#34;");
        } else if c == '\'' {
            r.append("&#39;");
        } else {
            let ghost before = r@;
            r.push(c);
            assert(r@ =~= before + seq![c]);
        }
        i = i + 1;
    }
    assert(v@.take(v@.len() as int) =~= v@);
    r
}

/// A hexadecimal digit, upper case.
pub open spec fn hex_digit(n: int) -> char {
    if n < 10 {
        ('0' as int + n) as char
    } else {
        ('A' as int + (n - 10)) as char
    }
}

/// Whether a byte stands for itself in every part of a URL.
pub open spec fn unreserved(b: u8) -> bool {
    ||| 0x41 <= b <= 0x5a
    ||| 0x61 <= b <= 0x7a
    ||| 0x30 <= b <= 0x39
    ||| b == 0x2d
    ||| b == 0x5f
    ||| b == 0x2e
    ||| b == 0x7e
}

/// A byte as it stands in a URL; a slash stands for itself where `slash` says so.
pub open spec fn percent_byte(b: u8, slash: bool) -> Seq<char> {
    if unreserved(b) || (slash && b == 0x2f) {
        seq![b as char]
    } else {
        seq!['%', hex_digit(b as int / 16), hex_digit(b as int % 16)]
    }
}

/// Bytes as they stand in a URL.
pub open spec fn percent(bytes: Seq<u8>, slash: bool) -> Seq<char>
    decreases bytes.len(),
{
    if bytes.len() == 0 {
        seq![]
    } else {
        percent_byte(bytes[0], slash) + percent(bytes.drop_first(), slash)
    }
}

/// The value of a hexadecimal digit.
pub open spec fn hex_value(c: char) -> int {
    if '0' <= c <= '9' {
        c as int - '0' as int
    } else {
        c as int - 'A' as int + 10
    }
}

/// The bytes that a percent-encoded text stands for.
pub open spec fn unpercent(s: Seq<char>) -> Seq<u8>
    decreases s.len(),
{
    if s.len() == 0 {
        seq![]
    } else if s[0] == '%' && s.len() >= 3 {
        seq![(hex_value(s[1]) * 16 + hex_value(s[2])) as u8] + unpercent(s.skip(3))
    } else {
        seq![s[0] as u8] + unpercent(s.drop_first())
    }
}

/// Decoding a percent-encoded text gives the bytes back, so a link carries its values unchanged.
pub proof fn percent_encoding_is_undone(bytes: Seq<u8>, slash: bool)
    ensures
        unpercent(percent(bytes, slash)) == bytes,
    decreases bytes.len(),
{
    if bytes.len() > 0 {
        let rest = bytes.drop_first();
        percent_encoding_is_undone(rest, slash);
        let b = bytes[0];
        let p = percent_byte(b, slash);
        let s = percent(bytes, slash);
        assert(s =~= p + percent(rest, slash));
        if unreserved(b) || (slash && b == 0x2f) {
            assert(s[0] == b as char);
            assert(s[0] != '%');
            assert(s.drop_first() =~= percent(rest, slash));
            assert(seq![s[0] as u8] + rest =~= bytes);
        } else {
            assert(s[0] == '%' && s[1] == p[1] && s[2] == p[2]);
            assert(s.skip(3) =~= percent(rest, slash));
            assert(hex_value(p[1]) == b as int / 16);
            assert(hex_value(p[2]) == b as int % 16);
            assert(seq![b] + rest =~= bytes);
        }
    } else {
        assert(unpercent(seq![]) =~= seq![]);
    }
}

/// A query component holds only unreserved characters and percent signs.
pub proof fn an_encoded_value_holds_no_separator(bytes: Seq<u8>)
    ensures
        forall|i: int|
            0 <= i < percent(bytes, false).len() ==> {
                let c = #[trigger] percent(bytes, false)[i];
                c == '%' || (c as u32 <= 0x7f && unreserved(c as u8))
            },
    decreases bytes.len(),
{
    if bytes.len() > 0 {
        an_encoded_value_holds_no_separator(bytes.drop_first());
        let p = percent_byte(bytes[0], false);
        let rest = percent(bytes.drop_first(), false);
        let s = percent(bytes, false);
        assert forall|i: int| 0 <= i < s.len() implies {
            let c = #[trigger] s[i];
            c == '%' || (c as u32 <= 0x7f && unreserved(c as u8))
        } by {
            if i < p.len() {
                assert(s[i] == p[i]);
            } else {
                assert(s[i] == rest[i - p.len()]);
            }
        }
    }
}

fn hex_char(n: u8) -> (c: char)
    requires
        n < 16,
    ensures
        c == hex_digit(n as int),
{
    if n < 10 {
        (48 + n) as char
    } else {
        (65 + (n - 10)) as char
    }
}

fn percent_text(s: &str, slash: bool) -> (r: String)
    ensures
        r@ == percent(vstd::utf8::encode_utf8(s@), slash),
{
    let bytes = s.as_bytes();
    let mut r = String::new();
    let mut i: usize = 0;
    let ghost all = bytes@;
    assert(all.skip(0) =~= all);
    assert(r@ + percent(all, slash) =~= percent(all, slash));
    while i < bytes.len()
        invariant
            i <= bytes@.len(),
            all == bytes@,
            r@ + percent(all.skip(i as int), slash) == percent(all, slash),
        decreases bytes@.len() - i,
    {
        let b = bytes[i];
        let ghost before = r@;
        let ghost rest = all.skip(i + 1);
        assert(all.skip(i as int).drop_first() =~= rest);
        if (0x41 <= b && b <= 0x5a) || (0x61 <= b && b <= 0x7a) || (0x30 <= b && b <= 0x39) || b
            == 0x2d || b == 0x5f || b == 0x2e || b == 0x7e || (slash && b == 0x2f) {
            r.push(b as char);
        } else {
            r.push('%');
            r.push(hex_char(b / 16));
            r.push(hex_char(b % 16));
        }
        assert(r@ =~= before + percent_byte(b, slash));
        assert(r@ + percent(rest, slash) =~= before + (percent_byte(b, slash) + percent(
            rest,
            slash,
        )));
        i = i + 1;
    }
    assert(r@ + seq![] =~= r@);
    r
}

/// A text as it stands in a path.
pub open spec fn url(s: Seq<char>) -> Seq<char> {
    percent(vstd::utf8::encode_utf8(s), true)
}

/// A text as it stands in a query component.
pub open spec fn query_value(s: Seq<char>) -> Seq<char> {
    percent(vstd::utf8::encode_utf8(s), false)
}

/// `s` as it stands in a path: slashes stand for themselves.
pub fn url_encoded(s: &str) -> (r: String)
    ensures
        r@ == url(s@),
{
    percent_text(s, true)
}

/// Percent-encodes one query component: everything outside `A-Za-z0-9-_.~`, byte by byte, upper case.
pub fn encode_query_value(s: &str) -> (r: String)
    ensures
        r@ == query_value(s@),
{
    percent_text(s, false)
}

// ---------------------------------------------------------------------------
// Values
// ---------------------------------------------------------------------------
/// What stands for an absent value on every page.
pub const ABSENT: &'static str = "—";

/// An optional timestamp.
pub open spec fn dt_text(dt: Option<Instant>) -> Seq<char> {
    match dt {
        Some(t) => crate::time::minute_text(t),
        None => ABSENT@,
    }
}

/// An optional timestamp in the one format of every page.
pub fn format_dt(dt: Option<Instant>) -> (r: String)
    ensures
        r@ == dt_text(dt),
{
    match dt {
        Some(t) => minute_utc(t),
        None => copy_of(ABSENT),
    }
}

/// An optional text, or what stands for an absent one.
pub open spec fn or_absent(o: Option<Seq<char>>) -> Seq<char> {
    match o {
        Some(s) => s,
        None => ABSENT@,
    }
}

/// An optional text, or what stands for an absent one.
pub fn text_or_absent(o: &Option<String>) -> (r: String)
    ensures
        r@ == or_absent(crate::text::opt_text(*o)),
{
    match o {
        Some(s) => copy_of(s.as_str()),
        None => copy_of(ABSENT),
    }
}

/// A table cell.
pub open spec fn cell(s: Seq<char>) -> Seq<char> {
    "<td>"@ + escape(s) + "</td>"@
}

/// A table cell.
pub fn cell_html(s: &str) -> (r: String)
    ensures
        r@ == cell(s@),
{
    let mut r = copy_of("<td>");
    let e = escaped(s);
    r.append(e.as_str());
    r.append("</td>");
    r
}

/// A badge.
pub open spec fn badge(s: Seq<char>) -> Seq<char> {
    "<span class=\"badge\">"@ + escape(s) + "</span>"@
}

/// A badge.
pub fn badge_html(s: &str) -> (r: String)
    ensures
        r@ == badge(s@),
{
    let mut r = copy_of("<span class=\"badge\">");
    let e = escaped(s);
    r.append(e.as_str());
    r.append("</span>");
    r
}

/// Badges, one after the other.
pub open spec fn badges(v: Seq<Seq<char>>) -> Seq<char>
    decreases v.len(),
{
    if v.len() == 0 {
        seq![]
    } else {
        badges(v.drop_last()) + badge(v.last())
    }
}

/// Badges, one after the other.
pub fn badges_html(v: &Vec<String>) -> (r: String)
    ensures
        r@ == badges(crate::text::texts(v@)),
{
    let ghost all = crate::text::texts(v@);
    let mut r = String::new();
    let mut i: usize = 0;
    assert(all.take(0) =~= seq![]);
    while i < v.len()
        invariant
            i <= v@.len(),
            all == crate::text::texts(v@),
            r@ == badges(all.take(i as int)),
        decreases v@.len() - i,
    {
        let b = badge_html(v[i].as_str());
        assert(all.take(i + 1).drop_last() =~= all.take(i as int));
        assert(all.take(i + 1).last() == v@[i as int]@);
        r.append(b.as_str());
        i = i + 1;
    }
    assert(all.take(all.len() as int) =~= all);
    r
}

/// A link to a record below a path: the ID is encoded in the address and verbatim as the text.
pub open spec fn record_link(path: Seq<char>, id: Seq<char>) -> Seq<char> {
    "<a class=\"link\" href=\""@ + path + url(id) + "\">"@ + escape(id) + "</a>"@
}

/// A link to a record below a path.
pub fn record_link_html(path: &str, id: &str) -> (r: String)
    ensures
        r@ == record_link(path@, id@),
{
    let mut r = copy_of("<a class=\"link\" href=\"");
    r.append(path);
    let u = url_encoded(id);
    r.append(u.as_str());
    r.append("\">");
    let e = escaped(id);
    r.append(e.as_str());
    r.append("</a>");
    r
}

// ---------------------------------------------------------------------------
// Layout
// ---------------------------------------------------------------------------
/// An entry of the navigation; the page's own is marked.
pub open spec fn nav_link(nav: Seq<char>, key: Seq<char>, href: Seq<char>, label: Seq<char>) -> Seq<
    char,
> {
    "<a href=\""@ + href + (if nav == key {
        "\" class=\"active\">"@
    } else {
        "\">"@
    }) + label + "</a>"@
}

fn nav_link_html(nav: &str, key: &str, href: &str, label: &str) -> (r: String)
    ensures
        r@ == nav_link(nav@, key@, href@, label@),
{
    let mut r = copy_of("<a href=\"");
    r.append(href);
    if same(nav, key) {
        r.append("\" class=\"active\">");
    } else {
        r.append("\">");
    }
    r.append(label);
    r.append("</a>");
    r
}

/// The navigation.
pub open spec fn nav_bar(nav: Seq<char>) -> Seq<char> {
    nav_link(nav, "dashboard"@, "/debug"@, "Dashboard"@) + nav_link(
        nav,
        "memories"@,
        "/debug/memories"@,
        "Memories"@,
    ) + nav_link(nav, "clusters"@, "/debug/clusters"@, "Clusters"@) + nav_link(
        nav,
        "sessions"@,
        "/debug/sessions"@,
        "Sessions"@,
    ) + nav_link(nav, "maintenance"@, "/debug/maintenance"@, "Maintenance"@) + nav_link(
        nav,
        "query"@,
        "/debug/query"@,
        "Query Tester"@,
    )
}

fn nav_bar_html(nav: &str) -> (r: String)
    ensures
        r@ == nav_bar(nav@),
{
    let mut r = nav_link_html(nav, "dashboard", "/debug", "Dashboard");
    let a = nav_link_html(nav, "memories", "/debug/memories", "Memories");
    r.append(a.as_str());
    let b = nav_link_html(nav, "clusters", "/debug/clusters", "Clusters");
    r.append(b.as_str());
    let c = nav_link_html(nav, "sessions", "/debug/sessions", "Sessions");
    r.append(c.as_str());
    let d = nav_link_html(nav, "maintenance", "/debug/maintenance", "Maintenance");
    r.append(d.as_str());
    let e = nav_link_html(nav, "query", "/debug/query", "Query Tester");
    r.append(e.as_str());
    r
}

/// A whole page around its body.
pub open spec fn layout(nav: Seq<char>, body: Seq<char>) -> Seq<char> {
    "<!DOCTYPE html><html lang=\"en\"><head><meta charset=\"utf-8\"><title>Alexandria Debug</title><script src=\""@
        + HTMX_URL@ + "\" defer></script></head><body><nav>"@ + nav_bar(nav) + "</nav><main>"@ + body
        + "</main></body></html>"@
}

/// A whole page around its body.
pub fn layout_html(nav: &str, body: &str) -> (r: String)
    ensures
        r@ == layout(nav@, body@),
{
    let mut r = copy_of(
        "<!DOCTYPE html><html lang=\"en\"><head><meta charset=\"utf-8\"><title>Alexandria Debug</title><script src=\"",
    );
    r.append(HTMX_URL);
    r.append("\" defer></script></head><body><nav>");
    let n = nav_bar_html(nav);
    r.append(n.as_str());
    r.append("</nav><main>");
    r.append(body);
    r.append("</main></body></html>");
    r
}

// ---------------------------------------------------------------------------
// Pager
// ---------------------------------------------------------------------------
/// A link of the pager; none where the address is empty.
pub open spec fn pager_link(href: Seq<char>, label: Seq<char>) -> Seq<char> {
    if href.len() == 0 {
        ""@
    } else {
        "<a class=\"link\" href=\""@ + escape(href) + "\">"@ + label + "</a>"@
    }
}

fn pager_link_html(href: &str, label: &str) -> (r: String)
    ensures
        r@ == pager_link(href@, label@),
{
    if href.is_empty() {
        return copy_of("");
    }
    let mut r = copy_of("<a class=\"link\" href=\"");
    let e = escaped(href);
    r.append(e.as_str());
    r.append("\">");
    r.append(label);
    r.append("</a>");
    r
}

/// The pager: the previous page, the summary and the next page side by side, or nothing where there is
/// no other page.
pub open spec fn pager(prev_href: Seq<char>, next_href: Seq<char>, summary: Seq<char>) -> Seq<char> {
    if prev_href.len() == 0 && next_href.len() == 0 {
        ""@
    } else {
        "<div class=\"pagination\">"@ + pager_link(prev_href, "← Prev"@) + "<span>"@ + escape(summary)
            + "</span>"@ + pager_link(next_href, "Next →"@) + "</div>"@
    }
}

/// The pager of a list.
pub fn pager_html(prev_href: &str, next_href: &str, summary: &str) -> (r: String)
    ensures
        r@ == pager(prev_href@, next_href@, summary@),
{
    if prev_href.is_empty() && next_href.is_empty() {
        return copy_of("");
    }
    let mut r = copy_of("<div class=\"pagination\">");
    let p = pager_link_html(prev_href, "← Prev");
    r.append(p.as_str());
    r.append("<span>");
    let s = escaped(summary);
    r.append(s.as_str());
    r.append("</span>");
    let n = pager_link_html(next_href, "Next →");
    r.append(n.as_str());
    r.append("</div>");
    r
}

// ---------------------------------------------------------------------------
// Errors
// ---------------------------------------------------------------------------
/// The error page.
#[derive(Debug)]
pub struct ErrorTemplate {
    pub nav: &'static str,
    pub message: String,
}

impl ErrorTemplate {
    /// The page as text.
    pub open spec fn html(self) -> Seq<char> {
        layout(
            self.nav@,
            "<h1>Error</h1><p class=\"error\">"@ + escape(self.message@) + "</p>"@,
        )
    }

    /// Renders the page.
    pub fn render(&self) -> (r: String)
        ensures
            r@ == self.html(),
    {
        let mut body = copy_of("<h1>Error</h1><p class=\"error\">");
        let m = escaped(self.message.as_str());
        body.append(m.as_str());
        body.append("</p>");
        layout_html(self.nav, body.as_str())
    }
}

/// The status of a detail page whose record could not be read.
pub const UNAVAILABLE_STATUS: u16 = 500;

/// The status of a detail page whose record does not exist.
pub const NOT_FOUND_STATUS: u16 = 404;

/// An answer: its status and its text.
#[derive(Debug)]
pub struct Answer {
    pub status: u16,
    pub body: String,
}

/// The error page of a section.
pub open spec fn error_html(nav: Seq<char>, message: Seq<char>) -> Seq<char> {
    layout(nav, "<h1>Error</h1><p class=\"error\">"@ + escape(message) + "</p>"@)
}

/// A failure of the data layer as a page, with status 200.
pub fn error_page(nav: &'static str, message: &str) -> (r: Answer)
    ensures
        r.status == 200,
        r.body@ == error_html(nav@, message@),
{
    let page = ErrorTemplate { nav, message: copy_of(message) };
    Answer { status: 200, body: page.render() }
}

/// A record that does not exist.
pub fn not_found(nav: &'static str, message: &str) -> (r: Answer)
    ensures
        r.status == NOT_FOUND_STATUS,
        r.body@ == error_html(nav@, message@),
{
    let page = error_page(nav, message);
    Answer { status: NOT_FOUND_STATUS, body: page.body }
}

/// A record that could not be read. `context` names what was being loaded.
pub fn unavailable(nav: &'static str, context: &str, err: &str) -> (r: Answer)
    ensures
        r.status == UNAVAILABLE_STATUS,
        r.body@ == error_html(
            nav@,
            "storage error while loading "@ + context@ + ": "@ + err@,
        ),
{
    let mut m = copy_of("storage error while loading ");
    m.append(context);
    m.append(": ");
    m.append(err);
    let page = error_page(nav, m.as_str());
    Answer { status: UNAVAILABLE_STATUS, body: page.body }
}

} // verus!
