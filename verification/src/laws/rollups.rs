//! What the rollups are for: true counts, and the most used tags.
use vstd::prelude::*;

use crate::debug::rollups::{
    band, distinct, in_band, the_tags_used_most_are_shown, times, top, uses, HeatBand,
};
use crate::laws::ranking::a_ranking_is_the_best_in_order;

verus! {

/// A tag is counted as often as it occurs.
pub proof fn a_tag_is_counted_as_often_as_it_occurs(tags: Seq<Seq<char>>, tag: Seq<char>)
    ensures
        times(tags, tag) == tags.to_multiset().count(tag),
    decreases tags.len(),
{
    tags.to_multiset_ensures();
    if tags.len() > 0 {
        let front = tags.drop_last();
        a_tag_is_counted_as_often_as_it_occurs(front, tag);
        front.to_multiset_ensures();
        assert(front.push(tags.last()) =~= tags);
    } else {
        assert(tags =~= Seq::<Seq<char>>::empty());
        assert(tags.to_multiset().count(tag) == 0);
    }
}

proof fn lemma_distinct_holds(tags: Seq<Seq<char>>, tag: Seq<char>)
    ensures
        distinct(tags).contains(tag) <==> tags.contains(tag),
    decreases tags.len(),
{
    if tags.len() > 0 {
        let front = tags.drop_last();
        let d = distinct(tags);
        let earlier = distinct(front);
        lemma_distinct_holds(front, tag);
        if tags.contains(tag) {
            let k = choose|k: int| 0 <= k < tags.len() && tags[k] == tag;
            if k < front.len() {
                assert(front[k] == tag);
                let x = choose|x: int| 0 <= x < earlier.len() && earlier[x] == tag;
                assert(d[x] == tag);
            } else if !earlier.contains(tag) {
                assert(d[earlier.len() as int] == tag);
            }
        }
        if d.contains(tag) {
            let x = choose|x: int| 0 <= x < d.len() && d[x] == tag;
            if x < earlier.len() {
                assert(earlier[x] == tag);
                let k = choose|k: int| 0 <= k < front.len() && front[k] == tag;
                assert(tags[k] == tag);
            } else {
                assert(tags[tags.len() - 1] == tag);
            }
        }
    }
}

/// Ten tags are shown, or all where there are no more, each with the number of its uses: a tag that is
/// left out is used no more often than any of ten others.
pub proof fn the_ten_tags_used_most_are_shown(tags: Seq<Seq<char>>, i: int, tag: Seq<char>)
    requires
        tags.len() <= i64::MAX,
        0 <= i < top(tags).len(),
    ensures
        top(tags).len() <= 10,
        top(tags)[i].1 == tags.to_multiset().count(top(tags)[i].0),
        forall|j: int|
            i < j < top(tags).len() ==> (#[trigger] top(tags)[j]).1 <= top(tags)[i].1 && top(tags)[j].0
                != top(tags)[i].0,
        tags.contains(tag) && (forall|k: int|
            0 <= k < top(tags).len() ==> (#[trigger] top(tags)[k]).0 != tag) ==> top(tags).len() == 10
            && tags.to_multiset().count(tag) <= top(tags)[i].1,
{
    let shown = top(tags);
    the_tags_used_most_are_shown(tags, i, i, tag);
    a_tag_is_counted_as_often_as_it_occurs(tags, shown[i].0);
    a_tag_is_counted_as_often_as_it_occurs(tags, tag);
    assert forall|j: int| i < j < shown.len() implies (#[trigger] shown[j]).1 <= shown[i].1
        && shown[j].0 != shown[i].0 by {
        the_tags_used_most_are_shown(tags, i, j, tag);
    }
    if tags.contains(tag) && (forall|k: int|
        0 <= k < shown.len() ==> (#[trigger] shown[k]).0 != tag) {
        lemma_distinct_holds(tags, tag);
        a_ranking_is_the_best_in_order(uses(tags), 10);
        let chosen = crate::ranking::ranking(uses(tags), 10);
        let x = choose|x: int| 0 <= x < distinct(tags).len() && distinct(tags)[x] == tag;
        if chosen.contains(x) {
            let k = choose|k: int| 0 <= k < chosen.len() && chosen[k] == x;
            assert(shown[k].0 == tag);
        }
    }
}

/// A memory is cold below a heat of a quarter, cool below a half, warm below one, and hot from there on.
/// Heats stand by the bits of their single-precision values.
pub proof fn heats_fall_into_four_bands(heat: i64)
    ensures
        heat < 0x3e80_0000 <==> band(heat) == HeatBand::Cold,
        0x3e80_0000 <= heat < 0x3f00_0000 <==> band(heat) == HeatBand::Cool,
        0x3f00_0000 <= heat < 0x3f80_0000 <==> band(heat) == HeatBand::Warm,
        0x3f80_0000 <= heat <==> band(heat) == HeatBand::Hot,
{
}

/// A band counts the memories that lie in it, as many as a list of just those holds.
pub proof fn a_band_counts_what_lies_in_it(heats: Seq<i64>, b: HeatBand)
    ensures
        in_band(heats, b) == heats.filter(|h: i64| band(h) == b).len(),
    decreases heats.len(),
{
    reveal(Seq::filter);
    if heats.len() > 0 {
        a_band_counts_what_lies_in_it(heats.drop_last(), b);
    }
}

} // verus!
