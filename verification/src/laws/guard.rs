//! What guarding the debug pages is for: no submission from another site, and no foreign host.
use vstd::prelude::*;

use crate::debug::guard::{
    admits, checks_hosts, from_elsewhere, hostile, refusal, site_values, tokens, without_port,
    RequestParts,
};
use crate::laws::text::a_cut_parts_the_text;
use crate::text::{cut_last, lower, split, texts, trim, until};

verus! {

proof fn lemma_tokens(pieces: Seq<Seq<char>>)
    ensures
        forall|k: int|
            0 <= k < pieces.len() && trim(#[trigger] pieces[k]).len() > 0 ==> tokens(pieces).contains(
                trim(pieces[k]),
            ),
        forall|t: Seq<char>| #[trigger]
            tokens(pieces).contains(t) ==> exists|k: int|
                0 <= k < pieces.len() && trim(#[trigger] pieces[k]) == t,
    decreases pieces.len(),
{
    if pieces.len() > 0 {
        let front = pieces.drop_last();
        lemma_tokens(front);
        let before = tokens(front);
        let all = tokens(pieces);
        assert forall|k: int|
            0 <= k < pieces.len() && trim(#[trigger] pieces[k]).len() > 0 implies all.contains(
            trim(pieces[k]),
        ) by {
            if k < front.len() {
                assert(front[k] == pieces[k]);
                let x = choose|x: int| 0 <= x < before.len() && before[x] == trim(front[k]);
                assert(all[x] == before[x]);
            } else {
                assert(all[before.len() as int] == trim(pieces[k]));
            }
        }
        assert forall|t: Seq<char>| #[trigger] all.contains(t) implies exists|k: int|
            0 <= k < pieces.len() && trim(#[trigger] pieces[k]) == t by {
            let x = choose|x: int| 0 <= x < all.len() && all[x] == t;
            if x < before.len() {
                assert(before[x] == t);
                assert(before.contains(t));
                let k = choose|k: int| 0 <= k < front.len() && trim(#[trigger] front[k]) == t;
                assert(pieces[k] == front[k]);
            } else {
                assert(trim(pieces[pieces.len() - 1]) == t);
            }
        }
    }
}

proof fn lemma_site_values(raw: Seq<Seq<char>>)
    ensures
        forall|i: int, k: int|
            0 <= i < raw.len() && 0 <= k < split(raw[i], ',').len() && trim(
                #[trigger] split(raw[i], ',')[k],
            ).len() > 0 ==> site_values(raw).contains(trim(split(raw[i], ',')[k])),
        forall|t: Seq<char>| #[trigger]
            site_values(raw).contains(t) ==> exists|i: int, k: int|
                0 <= i < raw.len() && 0 <= k < split(raw[i], ',').len() && trim(
                    #[trigger] split(raw[i], ',')[k],
                ) == t,
    decreases raw.len(),
{
    if raw.len() > 0 {
        let front = raw.drop_last();
        lemma_site_values(front);
        let before = site_values(front);
        let pieces = split(raw.last(), ',');
        lemma_tokens(pieces);
        let all = site_values(raw);
        assert forall|i: int, k: int|
            0 <= i < raw.len() && 0 <= k < split(raw[i], ',').len() && trim(
                #[trigger] split(raw[i], ',')[k],
            ).len() > 0 implies all.contains(trim(split(raw[i], ',')[k])) by {
            let t = trim(split(raw[i], ',')[k]);
            if i < front.len() {
                assert(front[i] == raw[i]);
                assert(trim(split(front[i], ',')[k]).len() > 0);
                let x = choose|x: int| 0 <= x < before.len() && before[x] == t;
                assert(all[x] == t);
            } else {
                assert(trim(pieces[k]).len() > 0);
                let x = choose|x: int| 0 <= x < tokens(pieces).len() && tokens(pieces)[x] == t;
                assert(all[before.len() + x] == t);
            }
        }
        assert forall|t: Seq<char>| #[trigger] all.contains(t) implies exists|i: int, k: int|
            0 <= i < raw.len() && 0 <= k < split(raw[i], ',').len() && trim(
                #[trigger] split(raw[i], ',')[k],
            ) == t by {
            let x = choose|x: int| 0 <= x < all.len() && all[x] == t;
            if x < before.len() {
                assert(before[x] == t);
                assert(before.contains(t));
                let (i, k) = choose|i: int, k: int|
                    0 <= i < front.len() && 0 <= k < split(front[i], ',').len() && trim(
                        #[trigger] split(front[i], ',')[k],
                    ) == t;
                assert(split(raw[i], ',')[k] == split(front[i], ',')[k]);
            } else {
                assert(tokens(pieces)[x - before.len()] == t);
                assert(tokens(pieces).contains(t));
                let k = choose|k: int| 0 <= k < pieces.len() && trim(#[trigger] pieces[k]) == t;
                assert(split(raw[raw.len() - 1], ',')[k] == pieces[k]);
            }
        }
    }
}

/// Anything but a read is refused where any part of any `Sec-Fetch-Site` header, parted by commas, says
/// that another site or origin caused it, in any case and with white space around it.
pub proof fn a_submission_from_elsewhere_is_refused(
    allowed: Seq<Seq<char>>,
    request: RequestParts,
    i: int,
    k: int,
)
    requires
        request.method@ != "GET"@,
        request.method@ != "HEAD"@,
        0 <= i < request.sec_fetch_site@.len(),
        0 <= k < split(request.sec_fetch_site@[i]@, ',').len(),
        ({
            let site = lower(trim(split(request.sec_fetch_site@[i]@, ',')[k]));
            site == "cross-site"@ || site == "cross-origin"@
        }),
    ensures
        refusal(allowed, request) is Some,
{
    let raw = texts(request.sec_fetch_site@);
    assert(raw[i] == request.sec_fetch_site@[i]@);
    let t = trim(split(raw[i], ',')[k]);
    reveal_strlit("cross-site");
    reveal_strlit("cross-origin");
    assert(lower(t).len() == t.len());
    lemma_site_values(raw);
    assert(site_values(raw).contains(t));
    let x = choose|x: int| 0 <= x < site_values(raw).len() && site_values(raw)[x] == t;
    assert(lower("cross-site"@) =~= "cross-site"@);
    assert(lower("cross-origin"@) =~= "cross-origin"@);
    assert(hostile(site_values(raw)[x]));
    assert(from_elsewhere(request));
}

/// Where no host check is on, a read is always answered, and anything else is answered that no header says
/// another site caused.
pub proof fn what_no_other_site_caused_is_answered(allowed: Seq<Seq<char>>, request: RequestParts)
    requires
        allowed.len() == 0 || exists|i: int|
            0 <= i < allowed.len() && trim(#[trigger] allowed[i]) == "*"@,
        request.method@ == "GET"@ || request.method@ == "HEAD"@ || (forall|i: int, k: int|
            0 <= i < request.sec_fetch_site@.len() && 0 <= k < split(
                request.sec_fetch_site@[i]@,
                ',',
            ).len() ==> lower(trim(#[trigger] split(request.sec_fetch_site@[i]@, ',')[k]))
                != "cross-site"@ && lower(trim(split(request.sec_fetch_site@[i]@, ',')[k]))
                != "cross-origin"@),
    ensures
        refusal(allowed, request) is None,
{
    if !(request.method@ == "GET"@ || request.method@ == "HEAD"@) && from_elsewhere(request) {
        let raw = texts(request.sec_fetch_site@);
        lemma_site_values(raw);
        let x = choose|x: int|
            0 <= x < site_values(raw).len() && hostile(#[trigger] site_values(raw)[x]);
        let t = site_values(raw)[x];
        assert(site_values(raw).contains(t));
        let (i, k) = choose|i: int, k: int|
            0 <= i < raw.len() && 0 <= k < split(raw[i], ',').len() && trim(
                #[trigger] split(raw[i], ',')[k],
            ) == t;
        assert(raw[i] == request.sec_fetch_site@[i]@);
        reveal_strlit("cross-site");
        reveal_strlit("cross-origin");
        assert(lower("cross-site"@) =~= "cross-site"@);
        assert(lower("cross-origin"@) =~= "cross-origin"@);
        assert(lower(trim(split(request.sec_fetch_site@[i]@, ',')[k])) != "cross-site"@);
    }
}

/// With hosts configured and no wildcard among them, a read is answered exactly if its host is one of
/// them, in any case and with or without its port.
pub proof fn a_checked_host_has_to_be_listed(allowed: Seq<Seq<char>>, request: RequestParts)
    requires
        request.method@ == "GET"@ || request.method@ == "HEAD"@,
        allowed.len() > 0,
        forall|i: int| 0 <= i < allowed.len() ==> trim(#[trigger] allowed[i]) != "*"@,
    ensures
        request.host is None ==> refusal(allowed, request) is Some,
        request.host matches Some(h) ==> (trim(h@).len() == 0 ==> refusal(allowed, request) is Some),
        request.host matches Some(h) ==> (trim(h@).len() > 0 ==> (refusal(allowed, request) is None
            <==> exists|i: int|
            0 <= i < allowed.len() && trim(#[trigger] allowed[i]).len() > 0 && (lower(
                trim(allowed[i]),
            ) == lower(trim(h@)) || lower(trim(allowed[i])) == lower(without_port(trim(h@)))))),
{
    assert(checks_hosts(allowed));
    if let Some(h) = request.host {
        let host = trim(h@);
        if exists|i: int|
            0 <= i < allowed.len() && trim(#[trigger] allowed[i]).len() > 0 && (lower(
                trim(allowed[i]),
            ) == lower(host) || lower(trim(allowed[i])) == lower(without_port(host))) {
            let i = choose|i: int|
                0 <= i < allowed.len() && trim(#[trigger] allowed[i]).len() > 0 && (lower(
                    trim(allowed[i]),
                ) == lower(host) || lower(trim(allowed[i])) == lower(without_port(host)));
            assert(admits(allowed[i], host));
        }
        if crate::debug::guard::admitted(allowed, host) {
            let i = choose|i: int| 0 <= i < allowed.len() && admits(#[trigger] allowed[i], host);
            assert(trim(allowed[i]).len() > 0);
        }
    }
}

/// A port is a colon and digits at the end of a host; without it the name is left, and a host without a
/// port is left as it is. In an address in brackets the port is what follows them.
pub proof fn a_port_is_taken_off(name: Seq<char>, port: Seq<char>, inner: Seq<char>, rest: Seq<char>)
    requires
        name.len() > 0,
        name[0] != '[',
        port.len() > 0,
        forall|i: int| 0 <= i < port.len() ==> '0' <= #[trigger] port[i] <= '9',
        !inner.contains(']'),
    ensures
        without_port(name + seq![':'] + port) == name,
        !name.contains(':') ==> without_port(name) == name,
        without_port(seq!['['] + inner + seq![']'] + rest) == seq!['['] + inner + seq![']'],
{
    let host = name + seq![':'] + port;
    a_cut_parts_the_text(host, ':');
    a_cut_parts_the_text(name, ':');
    assert(host[0] == name[0]);
    assert(host[name.len() as int] == ':');
    assert(host.contains(':'));
    let (a, b) = cut_last(host, ':')->0;
    assert(host == a + seq![':'] + b);
    assert(host.len() == a.len() + 1 + b.len());
    if a.len() < name.len() {
        let at = name.len() - a.len() - 1;
        assert((a + seq![':'] + b)[name.len() as int] == b[at]);
        assert(b.contains(b[at]));
    }
    if a.len() > name.len() {
        let at = a.len() - name.len() - 1;
        assert((a + seq![':'] + b)[a.len() as int] == ':');
        assert((name + seq![':'] + port)[a.len() as int] == port[at]);
    }
    assert(a.len() == name.len());
    assert forall|i: int| 0 <= i < a.len() implies a[i] == name[i] by {
        assert((a + seq![':'] + b)[i] == a[i]);
        assert((name + seq![':'] + port)[i] == name[i]);
    }
    assert(a =~= name);
    assert forall|i: int| 0 <= i < b.len() implies b[i] == port[i] by {
        assert((a + seq![':'] + b)[i + a.len() + 1] == b[i]);
        assert((name + seq![':'] + port)[i + a.len() + 1] == port[i]);
    }
    assert(b =~= port);
    if let Some((x, y)) = cut_last(name, ':') {
        assert((x + seq![':'] + y)[x.len() as int] == ':');
        assert(name.contains(name[x.len() as int]));
    }
    let v6 = seq!['['] + inner + seq![']'] + rest;
    let tail = v6.drop_first();
    crate::text::lemma_until(tail, ']');
    let k = until(tail, ']') as int;
    assert(tail[inner.len() as int] == ']');
    if k < inner.len() {
        assert(tail[k] == inner[k]);
        assert(inner.contains(inner[k]));
    }
    assert(v6.take(k + 2) =~= seq!['['] + inner + seq![']']);
}

} // verus!
