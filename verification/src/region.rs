//! Named rectangular regions of the world.

use crate::geometry::Rect;
use vstd::prelude::*;

verus! {

/// A named area: a property, a place to be in, a place to travel to.
pub struct Region {
    pub name: String,
    pub range: Rect,
}

/// The mathematical model of a [`Region`].
pub struct RegionView {
    pub name: Seq<char>,
    pub range: Rect,
}

impl View for Region {
    type V = RegionView;

    open spec fn view(&self) -> RegionView {
        RegionView { name: self.name@, range: self.range }
    }
}

impl DeepView for Region {
    type V = RegionView;

    open spec fn deep_view(&self) -> RegionView {
        self@
    }
}

/// The index of the first region called `name`, if there is one.
pub open spec fn region_named(regions: Seq<RegionView>, name: Seq<char>) -> Option<int>
    decreases regions.len(),
{
    if regions.len() == 0 {
        None
    } else {
        match region_named(regions.drop_last(), name) {
            Some(i) => Some(i),
            None => if regions.last().name == name {
                Some(regions.len() - 1)
            } else {
                None
            },
        }
    }
}

/// What [`region_named`] finds: the first index whose region has the name.
pub proof fn lemma_region_named(regions: Seq<RegionView>, name: Seq<char>)
    ensures
        match region_named(regions, name) {
            Some(i) => 0 <= i < regions.len() && regions[i].name == name && forall|j: int|
                0 <= j < i ==> regions[j].name != name,
            None => forall|j: int| 0 <= j < regions.len() ==> regions[j].name != name,
        },
    decreases regions.len(),
{
    if regions.len() > 0 {
        let front = regions.drop_last();
        lemma_region_named(front, name);
        assert(forall|j: int| 0 <= j < front.len() ==> front[j] == regions[j]);
    }
}

/// Finds the first region called `name`.
pub fn find_region(regions: &Vec<Region>, name: &String) -> (r: Option<usize>)
    ensures
        match r {
            Some(i) => region_named(regions.deep_view(), name@) == Some(i as int),
            None => region_named(regions.deep_view(), name@) is None,
        },
{
    let n: usize = regions.len();
    let mut i: usize = 0;
    assert(regions.deep_view().take(0) =~= Seq::empty());
    while i < n
        invariant
            n == regions.len(),
            i <= n,
            region_named(regions.deep_view().take(i as int), name@) is None,
        decreases n - i,
    {
        assert(regions.deep_view().take(i + 1).drop_last() =~= regions.deep_view().take(i as int));
        if regions[i].name == *name {
            proof {
                lemma_region_named_extends(regions.deep_view(), name@, i + 1);
            }
            return Some(i);
        }
        i = i + 1;
    }
    assert(regions.deep_view().take(n as int) =~= regions.deep_view());
    None
}

/// A region found among the first `k` regions is the one found among all.
proof fn lemma_region_named_extends(regions: Seq<RegionView>, name: Seq<char>, k: int)
    requires
        0 <= k <= regions.len(),
        region_named(regions.take(k), name) is Some,
    ensures
        region_named(regions, name) == region_named(regions.take(k), name),
    decreases regions.len() - k,
{
    if k < regions.len() {
        assert(regions.take(k + 1).drop_last() =~= regions.take(k));
        lemma_region_named_extends(regions, name, k + 1);
    } else {
        assert(regions.take(k) =~= regions);
    }
}

} // verus!
