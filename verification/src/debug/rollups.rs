//! What the dashboard sums up of the active memories: the tags they use most, and how warm they are.
use vstd::prelude::*;

use crate::ranking::rank_by_similarity;
use crate::text::{copy_of, same};

verus! {

broadcast use crate::text::lemma_texts_push;

// ---------------------------------------------------------------------------
// Tags
// ---------------------------------------------------------------------------
/// How many tags the dashboard shows.
pub const TOP_TAGS: usize = 10;

/// A tag and how often it is used.
#[derive(Debug)]
pub struct TagCount {
    pub tag: String,
    pub uses: usize,
}

/// A tag and its number of uses.
pub type TagEntry = (Seq<char>, nat);

/// The tags and numbers of a list.
pub open spec fn tag_entries(v: Seq<TagCount>) -> Seq<TagEntry> {
    v.map_values(|t: TagCount| (t.tag@, t.uses as nat))
}

/// Every tag once, in the order in which the tags first occur.
pub open spec fn distinct(tags: Seq<Seq<char>>) -> Seq<Seq<char>>
    decreases tags.len(),
{
    if tags.len() == 0 {
        seq![]
    } else {
        let earlier = distinct(tags.drop_last());
        if earlier.contains(tags.last()) {
            earlier
        } else {
            earlier.push(tags.last())
        }
    }
}

/// How often a tag occurs.
pub open spec fn times(tags: Seq<Seq<char>>, tag: Seq<char>) -> nat
    decreases tags.len(),
{
    if tags.len() == 0 {
        0
    } else {
        times(tags.drop_last(), tag) + (if tags.last() == tag {
            1nat
        } else {
            0
        })
    }
}

/// How often each of the distinct tags occurs.
pub open spec fn uses(tags: Seq<Seq<char>>) -> Seq<i64> {
    distinct(tags).map_values(|t: Seq<char>| times(tags, t) as i64)
}

/// The tags used most with their numbers, the most used first; of equally used tags the one that
/// occurs first comes first.
pub open spec fn top(tags: Seq<Seq<char>>) -> Seq<TagEntry> {
    crate::ranking::ranking(uses(tags), TOP_TAGS as nat).map_values(
        |k: int| (distinct(tags)[k], times(tags, distinct(tags)[k])),
    )
}

proof fn lemma_distinct(tags: Seq<Seq<char>>)
    ensures
        distinct(tags).no_duplicates(),
        forall|t: Seq<char>| #[trigger] distinct(tags).contains(t) <==> tags.contains(t),
    decreases tags.len(),
{
    let d = distinct(tags);
    if tags.len() > 0 {
        let front = tags.drop_last();
        let earlier = distinct(front);
        lemma_distinct(front);
        assert forall|t: Seq<char>| #[trigger] d.contains(t) <==> tags.contains(t) by {
            if tags.contains(t) {
                let i = choose|i: int| 0 <= i < tags.len() && tags[i] == t;
                if i < front.len() {
                    assert(front[i] == t);
                    assert(earlier.contains(t));
                    let k = choose|k: int| 0 <= k < earlier.len() && earlier[k] == t;
                    assert(d[k] == t);
                } else if !earlier.contains(t) {
                    assert(d[earlier.len() as int] == t);
                }
            }
            if d.contains(t) {
                let k = choose|k: int| 0 <= k < d.len() && d[k] == t;
                if k < earlier.len() {
                    assert(earlier.contains(t));
                    let i = choose|i: int| 0 <= i < front.len() && front[i] == t;
                    assert(tags[i] == t);
                } else {
                    assert(tags[tags.len() - 1] == t);
                }
            }
        }
    }
}

proof fn lemma_times(tags: Seq<Seq<char>>, tag: Seq<char>)
    ensures
        times(tags, tag) <= tags.len(),
        !tags.contains(tag) ==> times(tags, tag) == 0,
    decreases tags.len(),
{
    if tags.len() > 0 {
        let front = tags.drop_last();
        lemma_times(front, tag);
        if front.contains(tag) {
            let i = choose|i: int| 0 <= i < front.len() && front[i] == tag;
            assert(tags[i] == tag);
        }
        if tags.last() == tag {
            assert(tags[tags.len() - 1] == tag);
        }
    }
}

/// Where a name stands in a list, or the list's length.
fn place_of(names: &Vec<String>, name: &str) -> (r: usize)
    ensures
        r <= names@.len(),
        r < names@.len() ==> names@[r as int]@ == name@,
        r == names@.len() ==> !crate::text::texts(names@).contains(name@),
{
    let mut k: usize = 0;
    while k < names.len()
        invariant
            k <= names@.len(),
            forall|j: int| 0 <= j < k ==> (#[trigger] names@[j])@ != name@,
        decreases names@.len() - k,
    {
        if same(names[k].as_str(), name) {
            return k;
        }
        k = k + 1;
    }
    proof {
        let t = crate::text::texts(names@);
        assert forall|j: int| 0 <= j < t.len() implies t[j] != name@ by {
            assert(t[j] == names@[j]@);
        }
    }
    k
}

/// The tags used most, given the tags of the memories, those of one memory after those of the other.
pub fn top_tags(tags: &Vec<String>) -> (r: Vec<TagCount>)
    requires
        tags@.len() <= i64::MAX,
    ensures
        tag_entries(r@) == top(crate::text::texts(tags@)),
{
    let ghost all = crate::text::texts(tags@);
    let mut names: Vec<String> = Vec::new();
    let mut counts: Vec<i64> = Vec::new();
    let mut i: usize = 0;
    assert(crate::text::texts(names@) =~= distinct(all.take(0)));
    while i < tags.len()
        invariant
            i <= tags@.len() <= i64::MAX,
            all == crate::text::texts(tags@),
            crate::text::texts(names@) == distinct(all.take(i as int)),
            counts@.len() == names@.len(),
            forall|k: int|
                0 <= k < counts@.len() ==> #[trigger] counts@[k] == times(
                    all.take(i as int),
                    names@[k]@,
                ),
        decreases tags@.len() - i,
    {
        let ghost seen = all.take(i as int);
        let ghost tag = tags@[i as int]@;
        let k = place_of(&names, tags[i].as_str());
        proof {
            assert(all.take(i + 1).drop_last() =~= seen);
            assert(all.take(i + 1).last() == tag);
            lemma_distinct(seen);
            lemma_times(seen, tag);
        }
        if k < names.len() {
            proof {
                let t = crate::text::texts(names@);
                assert(t[k as int] == tag);
                assert forall|j: int| 0 <= j < names@.len() && j != k implies (
                #[trigger] names@[j])@ != tag by {
                    assert(t[j] == names@[j]@);
                }
            }
            let n = counts[k];
            counts.set(k, n + 1);
        } else {
            proof {
                let t = crate::text::texts(names@);
                assert forall|j: int| 0 <= j < names@.len() implies (#[trigger] names@[j])@
                    != tag by {
                    assert(t[j] == names@[j]@);
                    assert(t.contains(t[j]));
                }
            }
            names.push(copy_of(tags[i].as_str()));
            counts.push(1);
        }
        i = i + 1;
    }
    assert(all.take(all.len() as int) =~= all);
    assert forall|k: int| 0 <= k < names@.len() implies distinct(all)[k] == (#[trigger] names@[k])@
        && counts@[k] == times(all, distinct(all)[k]) by {
        assert(crate::text::texts(names@)[k] == names@[k]@);
    }
    assert(counts@ =~= uses(all));
    let best = rank_by_similarity(&counts, TOP_TAGS);
    let ghost chosen = crate::ranking::ranking(uses(all), TOP_TAGS as nat);
    let mut r: Vec<TagCount> = Vec::new();
    let mut j: usize = 0;
    while j < best.len()
        invariant
            j <= best@.len(),
            best@.len() == chosen.len(),
            crate::ranking::positions(best@) == chosen,
            all.len() <= usize::MAX,
            counts@.len() == names@.len(),
            forall|k: int| 0 <= k < best@.len() ==> (#[trigger] best@[k]) < counts@.len(),
            forall|k: int|
                0 <= k < names@.len() ==> distinct(all)[k] == (#[trigger] names@[k])@ && counts@[k]
                    == times(all, distinct(all)[k]),
            r@.len() == j,
            forall|k: int|
                0 <= k < j ==> (#[trigger] r@[k]).tag@ == distinct(all)[chosen[k]] && r@[k].uses
                    == times(all, distinct(all)[chosen[k]]),
        decreases best@.len() - j,
    {
        let at = best[j];
        proof {
            assert(crate::ranking::positions(best@)[j as int] == at as int);
            assert(distinct(all)[at as int] == names@[at as int]@);
            lemma_times(all, distinct(all)[at as int]);
        }
        r.push(TagCount { tag: copy_of(names[at].as_str()), uses: counts[at] as usize });
        j = j + 1;
    }
    assert(tag_entries(r@) =~= top(all));
    r
}

/// No tag is shown twice, the shown ones go from the most used down, and no tag that is left out is
/// used more often than one that is shown.
pub proof fn the_tags_used_most_are_shown(tags: Seq<Seq<char>>, i: int, j: int, tag: Seq<char>)
    requires
        tags.len() <= i64::MAX,
        0 <= i < top(tags).len(),
    ensures
        top(tags).len() <= TOP_TAGS,
        tags.contains(top(tags)[i].0),
        top(tags)[i].1 == times(tags, top(tags)[i].0),
        i < j < top(tags).len() ==> top(tags)[i].0 != top(tags)[j].0,
        i < j < top(tags).len() ==> top(tags)[i].1 >= top(tags)[j].1,
        (forall|k: int| 0 <= k < top(tags).len() ==> (#[trigger] top(tags)[k]).0 != tag)
            ==> times(tags, tag) <= top(tags)[i].1,
{
    let names = distinct(tags);
    let scores = uses(tags);
    let all = crate::ranking::order(scores, scores.len());
    let chosen = crate::ranking::ranking(scores, TOP_TAGS as nat);
    crate::ranking::order_is_sorted(scores, scores.len());
    lemma_distinct(tags);
    assert(chosen[i] == all[i]);
    assert(names.contains(names[chosen[i]]));
    assert forall|k: int| 0 <= k < names.len() implies #[trigger] scores[k] == times(
        tags,
        names[k],
    ) by {
        lemma_times(tags, names[k]);
    }
    if i < j < chosen.len() {
        assert(chosen[j] == all[j]);
        assert(crate::ranking::before(scores, all[i], all[j]));
        assert(scores[all[i]] == times(tags, names[all[i]]));
        assert(scores[all[j]] == times(tags, names[all[j]]));
    }
    if forall|k: int| 0 <= k < top(tags).len() ==> (#[trigger] top(tags)[k]).0 != tag {
        lemma_times(tags, tag);
        if tags.contains(tag) {
            assert(names.contains(tag));
            let x = choose|x: int| 0 <= x < names.len() && names[x] == tag;
            if chosen.contains(x) {
                let k = choose|k: int| 0 <= k < chosen.len() && chosen[k] == x;
                assert(top(tags)[k].0 == tag);
            }
            crate::ranking::ranking_keeps_the_best(scores, TOP_TAGS as nat, i, x);
            assert(scores[x] == times(tags, names[x]));
            assert(scores[chosen[i]] == times(tags, names[chosen[i]]));
        }
    }
}

/// A list of tags, copied.
pub fn copy_tags(v: &Vec<TagCount>) -> (r: Vec<TagCount>)
    ensures
        tag_entries(r@) == tag_entries(v@),
{
    let mut r: Vec<TagCount> = Vec::new();
    let mut i: usize = 0;
    while i < v.len()
        invariant
            i <= v@.len(),
            r@.len() == i,
            forall|k: int|
                0 <= k < i ==> (#[trigger] r@[k]).tag@ == v@[k].tag@ && r@[k].uses == v@[k].uses,
        decreases v@.len() - i,
    {
        r.push(TagCount { tag: copy_of(v[i].tag.as_str()), uses: v[i].uses });
        i = i + 1;
    }
    assert(tag_entries(r@) =~= tag_entries(v@));
    r
}

// ---------------------------------------------------------------------------
// Heat
// ---------------------------------------------------------------------------
/// The score of a heat of 0.25.
pub const QUARTER: i64 = 0x3e80_0000;

/// The score of a heat of 0.5.
pub const HALF: i64 = 0x3f00_0000;

/// The score of a heat of 1, which a memory starts with.
pub const ONE: i64 = 0x3f80_0000;

/// How warm a memory is.
#[derive(Debug, Clone, Copy, PartialEq, Eq, Structural)]
pub enum HeatBand {
    /// Below a quarter.
    Cold,
    /// From a quarter to below a half.
    Cool,
    /// From a half to below one.
    Warm,
    /// One and above.
    Hot,
}

/// The band of a heat, which is given as a score. What is no number is cold.
pub open spec fn band(heat: i64) -> HeatBand {
    if heat < QUARTER {
        HeatBand::Cold
    } else if heat < HALF {
        HeatBand::Cool
    } else if heat < ONE {
        HeatBand::Warm
    } else {
        HeatBand::Hot
    }
}

/// The band of a heat.
pub fn heat_band(heat: i64) -> (r: HeatBand)
    ensures
        r == band(heat),
{
    if heat < QUARTER {
        HeatBand::Cold
    } else if heat < HALF {
        HeatBand::Cool
    } else if heat < ONE {
        HeatBand::Warm
    } else {
        HeatBand::Hot
    }
}

/// How many heats lie in a band.
pub open spec fn in_band(heats: Seq<i64>, b: HeatBand) -> nat
    decreases heats.len(),
{
    if heats.len() == 0 {
        0
    } else {
        in_band(heats.drop_last(), b) + (if band(heats.last()) == b {
            1nat
        } else {
            0
        })
    }
}

/// How many memories lie in each band.
#[derive(Debug, Clone, Copy, PartialEq, Eq, Structural)]
pub struct HeatBands {
    pub cold: usize,
    pub cool: usize,
    pub warm: usize,
    pub hot: usize,
}

/// Every memory is counted in one band, and in one only.
pub proof fn every_memory_is_counted_once(heats: Seq<i64>)
    ensures
        in_band(heats, HeatBand::Cold) + in_band(heats, HeatBand::Cool) + in_band(
            heats,
            HeatBand::Warm,
        ) + in_band(heats, HeatBand::Hot) == heats.len(),
    decreases heats.len(),
{
    if heats.len() > 0 {
        every_memory_is_counted_once(heats.drop_last());
    }
}

/// How the heats are distributed over the bands.
pub fn heat_distribution(heats: &Vec<i64>) -> (r: HeatBands)
    ensures
        r.cold == in_band(heats@, HeatBand::Cold),
        r.cool == in_band(heats@, HeatBand::Cool),
        r.warm == in_band(heats@, HeatBand::Warm),
        r.hot == in_band(heats@, HeatBand::Hot),
        r.cold + r.cool + r.warm + r.hot == heats@.len(),
{
    let mut r = HeatBands { cold: 0, cool: 0, warm: 0, hot: 0 };
    let mut i: usize = 0;
    while i < heats.len()
        invariant
            i <= heats@.len(),
            r.cold == in_band(heats@.take(i as int), HeatBand::Cold),
            r.cool == in_band(heats@.take(i as int), HeatBand::Cool),
            r.warm == in_band(heats@.take(i as int), HeatBand::Warm),
            r.hot == in_band(heats@.take(i as int), HeatBand::Hot),
        decreases heats@.len() - i,
    {
        proof {
            assert(heats@.take(i + 1).drop_last() =~= heats@.take(i as int));
            every_memory_is_counted_once(heats@.take(i as int));
        }
        match heat_band(heats[i]) {
            HeatBand::Cold => {
                r.cold = r.cold + 1;
            },
            HeatBand::Cool => {
                r.cool = r.cool + 1;
            },
            HeatBand::Warm => {
                r.warm = r.warm + 1;
            },
            HeatBand::Hot => {
                r.hot = r.hot + 1;
            },
        }
        i = i + 1;
    }
    proof {
        assert(heats@.take(heats@.len() as int) =~= heats@);
        every_memory_is_counted_once(heats@);
    }
    r
}

} // verus!
