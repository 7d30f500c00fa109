//! Scores that order like similarities, and ranking by them.
//!
//! A similarity is a floating-point number outside the library. Inside it is a score: an integer in
//! the same order.
use vstd::prelude::*;

verus! {

/// The score of whatever is not a number: below every similarity.
pub const NOT_A_NUMBER: i64 = i64::MIN;

/// The score of the similarity -1.
pub const MINUS_ONE: i64 = -0x3f80_0000;

/// The score of a single-precision number, given its bits: the magnitude, negated for a negative
/// number. Both zeros have the score zero.
pub open spec fn score(bits: u32) -> i64 {
    let magnitude = bits as int % 0x8000_0000;
    if magnitude > 0x7f80_0000 {
        NOT_A_NUMBER
    } else if bits >= 0x8000_0000u32 {
        (-magnitude) as i64
    } else {
        magnitude as i64
    }
}

/// The score of the single-precision number with these bits.
pub fn score_of_bits(bits: u32) -> (r: i64)
    ensures
        r == score(bits),
{
    let magnitude: i64 = (bits % 0x8000_0000) as i64;
    if magnitude > 0x7f80_0000 {
        NOT_A_NUMBER
    } else if bits >= 0x8000_0000 {
        -magnitude
    } else {
        magnitude
    }
}

/// Among non-negative numbers a greater bit pattern has the greater score, and every negative number
/// other than zero scores below them.
pub proof fn scores_follow_the_number_line(a: u32, b: u32)
    requires
        a <= 0x7f80_0000,
        b <= 0x7f80_0000,
    ensures
        a < b <==> score(a) < score(b),
        score((a + 0x8000_0000) as u32) == -score(a),
        a > 0 ==> score((a + 0x8000_0000) as u32) < score(b),
{
}

/// Whether a score is at least another one. Nothing reaches or is reached that is not a number.
pub open spec fn reaches(a: i64, b: i64) -> bool {
    a != NOT_A_NUMBER && b != NOT_A_NUMBER && a >= b
}

/// Whether a score is at least another one.
pub fn does_reach(a: i64, b: i64) -> (r: bool)
    ensures
        r == reaches(a, b),
{
    a != NOT_A_NUMBER && b != NOT_A_NUMBER && a >= b
}

/// Whether a score is below another one; what is not a number is below nothing.
pub open spec fn short_of(a: i64, b: i64) -> bool {
    a != NOT_A_NUMBER && b != NOT_A_NUMBER && a < b
}

/// Whether a score is below another one.
pub fn is_short_of(a: i64, b: i64) -> (r: bool)
    ensures
        r == short_of(a, b),
{
    a != NOT_A_NUMBER && b != NOT_A_NUMBER && a < b
}

// ---------------------------------------------------------------------------
// Ranking
// ---------------------------------------------------------------------------
/// `r` with `k` put in front of every entry that scores less than `k`, from the back.
pub open spec fn placed(r: Seq<int>, scores: Seq<i64>, k: int) -> Seq<int>
    decreases r.len(),
{
    if r.len() == 0 || scores[r.last()] >= scores[k] {
        r.push(k)
    } else {
        placed(r.drop_last(), scores, k).push(r.last())
    }
}

/// The positions below `n`, best score first; of equal scores the earlier position comes first.
pub open spec fn order(scores: Seq<i64>, n: nat) -> Seq<int>
    decreases n,
{
    if n == 0 {
        seq![]
    } else {
        placed(order(scores, (n - 1) as nat), scores, n - 1)
    }
}

/// The first `limit` entries of `s`.
pub open spec fn first_of<A>(s: Seq<A>, limit: nat) -> Seq<A> {
    if s.len() <= limit {
        s
    } else {
        s.take(limit as int)
    }
}

/// The `limit` best positions.
pub open spec fn ranking(scores: Seq<i64>, limit: nat) -> Seq<int> {
    first_of(order(scores, scores.len()), limit)
}

/// Whether position `i` ranks before position `j`.
pub open spec fn before(scores: Seq<i64>, i: int, j: int) -> bool {
    scores[i] > scores[j] || (scores[i] == scores[j] && i < j)
}

proof fn lemma_placed(r: Seq<int>, scores: Seq<i64>, k: int)
    requires
        forall|i: int| 0 <= i < r.len() ==> 0 <= #[trigger] r[i] < k,
        forall|i: int, j: int| 0 <= i < j < r.len() ==> before(scores, #[trigger] r[i], #[trigger] r[j]),
        0 <= k < scores.len(),
    ensures
        placed(r, scores, k).len() == r.len() + 1,
        forall|i: int|
            0 <= i < r.len() + 1 ==> 0 <= #[trigger] placed(r, scores, k)[i] <= k,
        forall|i: int, j: int|
            0 <= i < j < r.len() + 1 ==> before(
                scores,
                #[trigger] placed(r, scores, k)[i],
                #[trigger] placed(r, scores, k)[j],
            ),
        forall|x: int| #[trigger]
            placed(r, scores, k).contains(x) <==> r.contains(x) || x == k,
    decreases r.len(),
{
    let p = placed(r, scores, k);
    if r.len() == 0 || scores[r.last()] >= scores[k] {
        assert forall|i: int, j: int| 0 <= i < j < r.len() + 1 implies before(
            scores,
            #[trigger] p[i],
            #[trigger] p[j],
        ) by {
            if j == r.len() {
                if i < r.len() - 1 {
                    assert(before(scores, r[i], r[r.len() - 1]));
                }
            }
        }
        assert forall|x: int| #[trigger] p.contains(x) <==> r.contains(x) || x == k by {
            if r.contains(x) {
                let i = choose|i: int| 0 <= i < r.len() && r[i] == x;
                assert(p[i] == x);
            }
            if x == k {
                assert(p[r.len() as int] == k);
            }
        }
    } else {
        let front = r.drop_last();
        let q = placed(front, scores, k);
        lemma_placed(front, scores, k);
        assert forall|i: int| 0 <= i < q.len() implies before(
            scores,
            #[trigger] q[i],
            r.last(),
        ) by {
            assert(q.contains(q[i]));
            if q[i] != k {
                let m = choose|m: int| 0 <= m < front.len() && front[m] == q[i];
                assert(before(scores, r[m], r[r.len() - 1]));
            }
        }
        assert forall|x: int| #[trigger] p.contains(x) <==> r.contains(x) || x == k by {
            if r.contains(x) {
                let i = choose|i: int| 0 <= i < r.len() && r[i] == x;
                if i < r.len() - 1 {
                    assert(front[i] == x);
                    assert(q.contains(x));
                    let m = choose|m: int| 0 <= m < q.len() && q[m] == x;
                    assert(p[m] == x);
                } else {
                    assert(p[q.len() as int] == x);
                }
            }
            if x == k {
                assert(q.contains(k));
                let m = choose|m: int| 0 <= m < q.len() && q[m] == k;
                assert(p[m] == k);
            }
            if p.contains(x) {
                let i = choose|i: int| 0 <= i < p.len() && p[i] == x;
                if i < q.len() {
                    assert(q.contains(q[i]));
                    if x != k {
                        let m = choose|m: int| 0 <= m < front.len() && front[m] == x;
                        assert(r[m] == x);
                    }
                } else {
                    assert(r[r.len() - 1] == x);
                }
            }
        }
    }
}

/// The order holds every position once, and each entry ranks before all that follow it.
pub proof fn order_is_sorted(scores: Seq<i64>, n: nat)
    requires
        n <= scores.len(),
    ensures
        order(scores, n).len() == n,
        forall|i: int| 0 <= i < n ==> 0 <= #[trigger] order(scores, n)[i] < n,
        forall|i: int, j: int|
            0 <= i < j < n ==> before(
                scores,
                #[trigger] order(scores, n)[i],
                #[trigger] order(scores, n)[j],
            ),
        forall|x: int| #[trigger] order(scores, n).contains(x) <==> 0 <= x < n,
    decreases n,
{
    if n > 0 {
        order_is_sorted(scores, (n - 1) as nat);
        lemma_placed(order(scores, (n - 1) as nat), scores, n - 1);
    }
}

/// The ranking holds the best positions and no others: whatever is left out ranks after everything
/// that is in.
pub proof fn ranking_keeps_the_best(scores: Seq<i64>, limit: nat, i: int, x: int)
    requires
        0 <= i < ranking(scores, limit).len(),
        0 <= x < scores.len(),
        !ranking(scores, limit).contains(x),
    ensures
        before(scores, ranking(scores, limit)[i], x),
{
    order_is_sorted(scores, scores.len());
    let all = order(scores, scores.len());
    assert(all.contains(x));
    let j = choose|j: int| 0 <= j < all.len() && all[j] == x;
    let r = ranking(scores, limit);
    if j < r.len() {
        assert(r[j] == x);
    }
    assert(before(scores, all[i], all[j]));
}

proof fn lemma_placed_take(r: Seq<int>, scores: Seq<i64>, k: int, limit: nat)
    requires
        forall|i: int, j: int|
            0 <= i < j < r.len() ==> scores[#[trigger] r[i]] >= scores[#[trigger] r[j]],
    ensures
        placed(r, scores, k).len() == r.len() + 1,
        first_of(placed(r, scores, k), limit) == first_of(
            placed(first_of(r, limit), scores, k),
            limit,
        ),
    decreases r.len(),
{
    let p = placed(r, scores, k);
    if r.len() > limit {
        let t = r.take(limit as int);
        if scores[r.last()] >= scores[k] {
            if limit > 0 {
                assert(scores[r[limit - 1]] >= scores[r[r.len() - 1]]);
                assert(t.last() == r[limit - 1]);
            }
            assert(first_of(placed(t, scores, k), limit) =~= t);
            assert(first_of(p, limit) =~= t);
        } else {
            let front = r.drop_last();
            lemma_placed_take(front, scores, k, limit);
            assert(first_of(front, limit) =~= t);
            assert(first_of(p, limit) =~= first_of(placed(front, scores, k), limit));
        }
    } else if r.len() > 0 && !(scores[r.last()] >= scores[k]) {
        lemma_placed_take(r.drop_last(), scores, k, limit);
    }
}

/// Positions as integers.
pub open spec fn positions(v: Seq<usize>) -> Seq<int> {
    v.map_values(|i: usize| i as int)
}

/// Puts position `k` into a list of the best positions so far.
fn place(best: &mut Vec<usize>, scores: &Vec<i64>, k: usize)
    requires
        k < scores@.len(),
        forall|i: int| 0 <= i < old(best)@.len() ==> (#[trigger] old(best)@[i]) < scores@.len(),
    ensures
        positions(final(best)@) == placed(positions(old(best)@), scores@, k as int),
        forall|i: int| 0 <= i < final(best)@.len() ==> (#[trigger] final(best)@[i]) < scores@.len(),
{
    let ghost start = best@;
    let mut at: usize = best.len();
    let ghost mut tail: Seq<int> = seq![];
    assert(start.take(at as int) =~= start);
    assert(placed(positions(start), scores@, k as int) + tail =~= placed(
        positions(start),
        scores@,
        k as int,
    ));
    while at > 0 && scores[best[at - 1]] < scores[k]
        invariant
            at <= best@.len(),
            best@ == start,
            k < scores@.len(),
            forall|i: int| 0 <= i < start.len() ==> (#[trigger] start[i]) < scores@.len(),
            tail == positions(start.skip(at as int)),
            placed(positions(start), scores@, k as int) == placed(
                positions(start.take(at as int)),
                scores@,
                k as int,
            ) + tail,
        decreases at,
    {
        proof {
            let t = positions(start.take(at as int));
            assert(t.drop_last() =~= positions(start.take(at - 1)));
            assert(t.last() == start[at - 1] as int);
            let p = placed(t.drop_last(), scores@, k as int);
            assert(p.push(t.last()) + tail =~= p + positions(start.skip(at - 1)));
            tail = positions(start.skip(at - 1));
        }
        at = at - 1;
    }
    best.insert(at, k);
    proof {
        let t = positions(start.take(at as int));
        if at > 0 {
            assert(t.last() == start[at - 1] as int);
        }
        assert(positions(best@) =~= t.push(k as int) + tail);
    }
}

/// The `limit` best positions, best first; of equal scores the earlier position comes first.
pub fn rank_by_similarity(scores: &Vec<i64>, limit: usize) -> (r: Vec<usize>)
    ensures
        positions(r@) == ranking(scores@, limit as nat),
        r@.len() <= limit,
        forall|i: int| 0 <= i < r@.len() ==> (#[trigger] r@[i]) < scores@.len(),
{
    let mut best: Vec<usize> = Vec::new();
    let mut k: usize = 0;
    assert(positions(best@) =~= first_of(order(scores@, 0), limit as nat));
    while k < scores.len()
        invariant
            k <= scores@.len(),
            best@.len() <= limit,
            positions(best@) == first_of(order(scores@, k as nat), limit as nat),
            forall|i: int| 0 <= i < best@.len() ==> (#[trigger] best@[i]) < scores@.len(),
        decreases scores@.len() - k,
    {
        proof {
            order_is_sorted(scores@, k as nat);
            lemma_placed_take(order(scores@, k as nat), scores@, k as int, limit as nat);
        }
        let ghost p0 = positions(best@);
        place(&mut best, scores, k);
        proof {
            lemma_placed_take(p0, scores@, k as int, limit as nat);
            assert(positions(best@).len() == best@.len());
        }
        if best.len() > limit {
            let ghost b = best@;
            best.truncate(limit);
            assert(positions(best@) =~= positions(b).take(limit as int));
        }
        k = k + 1;
    }
    best
}

} // verus!
