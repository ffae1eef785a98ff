//! Keeping house and getting hungry: inventories are put in order, satiety
//! runs down with time, the hungry who hold food decide to eat, and who
//! starves leaves the world.

use crate::action::{Action, ActionView};
use crate::character::{Character, CharacterView, LOW_SATIETY};
use crate::item::Item;
use vstd::prelude::*;

verus! {

/// How many items of `kind` the entries hold, all entries of that kind
/// taken together.
pub open spec fn total(items: Seq<(Item, u32)>, kind: Item) -> nat
    decreases items.len(),
{
    if items.len() == 0 {
        0
    } else if items.last().0 == kind {
        total(items.drop_last(), kind) + items.last().1 as nat
    } else {
        total(items.drop_last(), kind)
    }
}

/// The one entry that stands for all items of `kind`: none where there is
/// no such item, else their number, as far as a `u32` counts.
pub open spec fn stack(items: Seq<(Item, u32)>, kind: Item) -> Seq<(Item, u32)> {
    let count = total(items, kind);
    if count == 0 {
        Seq::empty()
    } else if count > u32::MAX {
        seq![(kind, u32::MAX)]
    } else {
        seq![(kind, count as u32)]
    }
}

/// The inventory in order: one entry for each kind that is held, plants
/// before meat, and no entry that counts nothing.
pub open spec fn consolidated(items: Seq<(Item, u32)>) -> Seq<(Item, u32)> {
    stack(items, Item::Plant) + stack(items, Item::Meat)
}

/// Every character with its inventory in order.
pub open spec fn inventories_updated(characters: Seq<CharacterView>) -> Seq<CharacterView> {
    characters.map_values(|c: CharacterView| CharacterView { items: consolidated(c.items), ..c })
}

/// Whether an entry is something to eat: it counts at least one item, of a
/// kind that nourishes.
pub open spec fn edible(entry: (Item, u32)) -> bool {
    entry.1 > 0 && entry.0.nutrition() > 0
}

/// The index of the first entry that is something to eat, if there is one.
pub open spec fn first_edible(items: Seq<(Item, u32)>) -> Option<int>
    decreases items.len(),
{
    if items.len() == 0 {
        None
    } else {
        match first_edible(items.drop_last()) {
            Some(k) => Some(k),
            None => if edible(items.last()) {
                Some(items.len() - 1)
            } else {
                None
            },
        }
    }
}

/// Whether a character does not live through a tick that lasts `dt`: its
/// satiety falls below zero.
pub open spec fn starves(c: CharacterView, dt: int) -> bool {
    c.saturation - dt < 0
}

/// The character after a tick that lasted `dt` has made it hungrier. Once
/// its satiety is below [`LOW_SATIETY`], a character that holds something
/// to eat decides to eat.
pub open spec fn hungrier(c: CharacterView, dt: int) -> CharacterView {
    CharacterView {
        saturation: c.saturation - dt,
        actions: if c.saturation - dt < LOW_SATIETY && first_edible(c.items) is Some {
            c.actions.push(ActionView::Eat)
        } else {
            c.actions
        },
        ..c
    }
}

/// The characters after a tick that lasted `dt` has made them hungrier:
/// those that starve are gone, the others keep their order.
pub open spec fn saturation_updated(characters: Seq<CharacterView>, dt: int) -> Seq<
    CharacterView,
> {
    characters.filter(|c: CharacterView| !starves(c, dt)).map_values(
        |c: CharacterView| hungrier(c, dt),
    )
}

/// What [`first_edible`] finds: the first index whose entry is something to
/// eat.
pub proof fn lemma_first_edible(items: Seq<(Item, u32)>)
    ensures
        match first_edible(items) {
            Some(k) => 0 <= k < items.len() && edible(items[k]) && forall|j: int|
                0 <= j < k ==> !edible(#[trigger] items[j]),
            None => forall|j: int| 0 <= j < items.len() ==> !edible(#[trigger] items[j]),
        },
    decreases items.len(),
{
    if items.len() > 0 {
        let front = items.drop_last();
        lemma_first_edible(front);
        assert(forall|j: int| 0 <= j < front.len() ==> front[j] == items[j]);
    }
}

/// An entry found among the first `k` entries is the one found among all.
proof fn lemma_first_edible_extends(items: Seq<(Item, u32)>, k: int)
    requires
        0 <= k <= items.len(),
        first_edible(items.take(k)) is Some,
    ensures
        first_edible(items) == first_edible(items.take(k)),
    decreases items.len() - k,
{
    if k < items.len() {
        assert(items.take(k + 1).drop_last() =~= items.take(k));
        lemma_first_edible_extends(items, k + 1);
    } else {
        assert(items.take(k) =~= items);
    }
}

/// Finds the first entry that is something to eat: see [`first_edible`].
pub fn find_edible(items: &Vec<(Item, u32)>) -> (r: Option<usize>)
    ensures
        match r {
            Some(k) => k < items.len() && first_edible(items.deep_view()) == Some(k as int),
            None => first_edible(items.deep_view()) is None,
        },
{
    let n: usize = items.len();
    let mut k: usize = 0;
    assert(items.deep_view().take(0) =~= Seq::empty());
    while k < n
        invariant
            n == items.len(),
            k <= n,
            first_edible(items.deep_view().take(k as int)) is None,
        decreases n - k,
    {
        assert(items.deep_view().take(k + 1).drop_last() =~= items.deep_view().take(k as int));
        if items[k].1 > 0 && items[k].0.saturation() > 0 {
            proof {
                lemma_first_edible_extends(items.deep_view(), k + 1);
            }
            return Some(k);
        }
        k = k + 1;
    }
    assert(items.deep_view().take(n as int) =~= items.deep_view());
    None
}

/// How many items of `kind` the entries hold, as far as a `u32` counts.
fn count_kind(items: &Vec<(Item, u32)>, kind: Item) -> (r: u32)
    ensures
        r == if total(items.deep_view(), kind) > u32::MAX {
            u32::MAX as nat
        } else {
            total(items.deep_view(), kind)
        },
{
    let n: usize = items.len();
    let mut count: u32 = 0;
    let mut k: usize = 0;
    assert(items.deep_view().take(0) =~= Seq::empty());
    while k < n
        invariant
            n == items.len(),
            k <= n,
            count == if total(items.deep_view().take(k as int), kind) > u32::MAX {
                u32::MAX as nat
            } else {
                total(items.deep_view().take(k as int), kind)
            },
        decreases n - k,
    {
        assert(items.deep_view().take(k + 1).drop_last() =~= items.deep_view().take(k as int));
        if items[k].0 == kind {
            count = count.saturating_add(items[k].1);
        }
        k = k + 1;
    }
    assert(items.deep_view().take(n as int) =~= items.deep_view());
    count
}

/// Puts an inventory in order: see [`consolidated`].
pub fn consolidate(items: &mut Vec<(Item, u32)>)
    ensures
        final(items).deep_view() == consolidated(old(items).deep_view()),
{
    let plants: u32 = count_kind(items, Item::Plant);
    let meat: u32 = count_kind(items, Item::Meat);
    items.clear();
    if plants > 0 {
        items.push((Item::Plant, plants));
    }
    if meat > 0 {
        items.push((Item::Meat, meat));
    }
    assert(items.deep_view() =~= consolidated(old(items).deep_view()));
}

/// Puts every character's inventory in order: see [`consolidated`].
pub fn inventory_update(characters: &mut Vec<Character>)
    ensures
        final(characters).deep_view() == inventories_updated(old(characters).deep_view()),
{
    let n: usize = characters.len();
    let ghost start: Seq<CharacterView> = characters.deep_view();
    let mut i: usize = 0;
    while i < n
        invariant
            n == characters.len(),
            start == old(characters).deep_view(),
            start.len() == n,
            i <= n,
            forall|j: int|
                0 <= j < i ==> characters[j]@ == (CharacterView {
                    items: consolidated(start[j].items),
                    ..start[j]
                }),
            forall|j: int| i <= j < n ==> characters[j]@ == start[j],
        decreases n - i,
    {
        consolidate(&mut characters[i].items);
        i = i + 1;
    }
    assert(characters.deep_view() =~= inventories_updated(start));
}

/// Makes the character at index `i`, which does not starve, hungrier: see
/// [`hungrier`].
fn decay(characters: &mut Vec<Character>, i: usize, dt: u32)
    requires
        i < old(characters).len(),
        !starves(old(characters)[i as int]@, dt as int),
    ensures
        final(characters).len() == old(characters).len(),
        final(characters)[i as int]@ == hungrier(old(characters)[i as int]@, dt as int),
        forall|j: int|
            0 <= j < old(characters).len() && j != i ==> final(characters)[j] == old(
                characters,
            )[j],
{
    let ghost c: CharacterView = characters[i as int]@;
    let left: i64 = characters[i].saturation - dt as i64;
    characters[i].saturation = left;
    if left < LOW_SATIETY && find_edible(&characters[i].items).is_some() {
        characters[i].actions.push(Action::Eat);
        assert(characters[i as int].actions.deep_view() =~= c.actions.push(ActionView::Eat));
    }
}

/// The hunger step of a tick that lasted `dt` microseconds: see
/// [`saturation_updated`]. Who starves is removed at once, with all that it
/// had queued.
pub fn update_saturation(characters: &mut Vec<Character>, dt: u32)
    ensures
        final(characters).deep_view() == saturation_updated(
            old(characters).deep_view(),
            dt as int,
        ),
{
    let ghost start: Seq<CharacterView> = characters.deep_view();
    let ghost lives = |c: CharacterView| !starves(c, dt as int);
    let ghost n: int = start.len() as int;
    let ghost mut k: int = 0;
    let mut i: usize = 0;
    assert(start.take(0).filter(lives) =~= Seq::empty()) by {
        reveal(Seq::filter);
    }
    assert(characters.deep_view() =~= start.take(0).filter(lives).map_values(
        |c: CharacterView| hungrier(c, dt as int),
    ) + start.skip(0));
    while i < characters.len()
        invariant
            start == old(characters).deep_view(),
            n == start.len(),
            lives == |c: CharacterView| !starves(c, dt as int),
            0 <= k <= n,
            characters.len() == i + (n - k),
            i == start.take(k).filter(lives).len(),
            characters.deep_view() == start.take(k).filter(lives).map_values(
                |c: CharacterView| hungrier(c, dt as int),
            ) + start.skip(k),
        decreases n - k,
    {
        let ghost before: Seq<CharacterView> = characters.deep_view();
        let ghost done: Seq<CharacterView> = start.take(k).filter(lives).map_values(
            |c: CharacterView| hungrier(c, dt as int),
        );
        proof {
            reveal(Seq::filter);
            assert(start.take(k + 1).drop_last() =~= start.take(k));
            assert(before[i as int] == start.skip(k)[0]);
        }
        if characters[i].saturation < dt as i64 {
            characters.remove(i);
            assert(characters.deep_view() =~= before.remove(i as int));
            assert(before.remove(i as int) =~= done + start.skip(k + 1));
        } else {
            decay(characters, i, dt);
            assert(characters.deep_view() =~= before.update(
                i as int,
                hungrier(start[k], dt as int),
            ));
            assert(before.update(i as int, hungrier(start[k], dt as int)) =~= done.push(
                hungrier(start[k], dt as int),
            ) + start.skip(k + 1));
            assert(start.take(k + 1).filter(lives).map_values(
                |c: CharacterView| hungrier(c, dt as int),
            ) =~= done.push(hungrier(start[k], dt as int)));
            i = i + 1;
        }
        proof {
            k = k + 1;
        }
    }
    assert(start.take(n) =~= start);
    assert(characters.deep_view() =~= saturation_updated(start, dt as int));
}

} // verus!
