//! What holds of a ranking.
use vstd::prelude::*;

use crate::ranking::{order, order_is_sorted, ranking};

verus! {

/// A ranking holds as many positions as the limit allows, each once and in range. A greater score comes
/// first, and of equal scores the earlier position. Whatever is left out belongs behind everything that
/// is in, and nothing is left out while there is room.
pub proof fn a_ranking_is_the_best_in_order(scores: Seq<i64>, limit: nat)
    ensures
        ranking(scores, limit).len() == (if scores.len() <= limit {
            scores.len()
        } else {
            limit
        }),
        forall|i: int|
            0 <= i < ranking(scores, limit).len() ==> 0 <= #[trigger] ranking(scores, limit)[i]
                < scores.len(),
        forall|i: int, j: int|
            0 <= i < j < ranking(scores, limit).len() ==> {
                let a = #[trigger] ranking(scores, limit)[i];
                let b = #[trigger] ranking(scores, limit)[j];
                scores[a] > scores[b] || (scores[a] == scores[b] && a < b)
            },
        forall|i: int, x: int|
            0 <= i < ranking(scores, limit).len() && 0 <= x < scores.len() && !ranking(
                scores,
                limit,
            ).contains(x) ==> {
                let a = #[trigger] ranking(scores, limit)[i];
                scores[a] > #[trigger] scores[x] || (scores[a] == scores[x] && a < x)
            },
        ranking(scores, limit).len() < limit ==> forall|x: int|
            0 <= x < scores.len() ==> #[trigger] ranking(scores, limit).contains(x),
{
    order_is_sorted(scores, scores.len());
    let o = order(scores, scores.len());
    let r = ranking(scores, limit);
    assert forall|i: int| 0 <= i < r.len() implies r[i] == o[i] by {}
    assert forall|i: int| 0 <= i < r.len() implies 0 <= #[trigger] r[i] < scores.len() by {
        assert(r[i] == o[i]);
    }
    assert forall|i: int, j: int| 0 <= i < j < r.len() implies {
        let a = #[trigger] r[i];
        let b = #[trigger] r[j];
        scores[a] > scores[b] || (scores[a] == scores[b] && a < b)
    } by {
        assert(r[i] == o[i] && r[j] == o[j]);
        assert(crate::ranking::before(scores, o[i], o[j]));
    }
    assert forall|i: int, x: int|
        0 <= i < r.len() && 0 <= x < scores.len() && !r.contains(x) implies {
        let a = #[trigger] r[i];
        scores[a] > #[trigger] scores[x] || (scores[a] == scores[x] && a < x)
    } by {
        crate::ranking::ranking_keeps_the_best(scores, limit, i, x);
    }
}

/// Scores compare as the numbers that they stand for: a score reaches another exactly if it is at least
/// as great, it is short of another exactly if it is less, and what is not a number does neither.
pub proof fn scores_compare_as_numbers(a: i64, b: i64)
    ensures
        a != i64::MIN && b != i64::MIN ==> (crate::ranking::reaches(a, b) <==> a >= b),
        a != i64::MIN && b != i64::MIN ==> (crate::ranking::short_of(a, b) <==> a < b),
        a == i64::MIN || b == i64::MIN ==> !crate::ranking::reaches(a, b)
            && !crate::ranking::short_of(a, b),
{
}

/// The score of a number that is not negative is its bit pattern, so that scores order as numbers do; the
/// sign negates it, and the patterns past infinity are no numbers.
pub proof fn scores_are_signed_magnitudes(bits: u32)
    ensures
        bits <= 0x7f80_0000 ==> crate::ranking::score(bits) == bits,
        0x8000_0000 <= bits <= 0xff80_0000 ==> crate::ranking::score(bits) == 0x8000_0000 - bits,
        0x7f80_0000 < bits < 0x8000_0000 || 0xff80_0000 < bits ==> crate::ranking::score(bits)
            == i64::MIN,
{
}

} // verus!
