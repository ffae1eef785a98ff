//! Carrying out what the characters have queued: eating, harvesting and
//! talking, character after character, each queue in its order.

use crate::action::{Action, ActionView};
use crate::character::{Character, CharacterView};
use crate::geometry::{within_range, Point};
use crate::item::Item;
use crate::plant::Plant;
use crate::saturation::{find_edible, first_edible, lemma_first_edible};
use vstd::prelude::*;

verus! {

/// Whether somebody standing at `at` harvests the plant: the plant is
/// grown and closer than its harvest range.
pub open spec fn harvestable(plant: Plant, at: Point) -> bool {
    plant.is_grown() && within_range(plant.position, at, plant.harvest_range() as int)
}

/// How many of the plants somebody standing at `at` harvests.
pub open spec fn harvest_count(plants: Seq<Plant>, at: Point) -> nat {
    plants.filter(|p: Plant| harvestable(p, at)).len()
}

/// The plants after somebody standing at `at` has harvested: every plant
/// that it harvests is a bare patch again, every other plant is as it was.
pub open spec fn field_harvested(plants: Seq<Plant>, at: Point) -> Seq<Plant> {
    plants.map_values(
        |p: Plant| if harvestable(p, at) {
            p.harvested()
        } else {
            p
        },
    )
}

/// `count` entries of one plant each.
pub open spec fn crop(count: nat) -> Seq<(Item, u32)> {
    Seq::new(count, |k: int| (Item::Plant, 1u32))
}

/// Satiety after a meal, which never takes it past what an `i64` holds.
pub open spec fn sated(saturation: int, nutrition: int) -> int {
    if saturation + nutrition > i64::MAX {
        i64::MAX as int
    } else {
        saturation + nutrition
    }
}

/// The character after eating: the first entry that is something to eat
/// counts one item less, and the character is sated by what one item of
/// that kind gives. A character with nothing to eat is as it was.
pub open spec fn eaten(c: CharacterView) -> CharacterView {
    match first_edible(c.items) {
        Some(k) => CharacterView {
            items: c.items.update(k, (c.items[k].0, (c.items[k].1 - 1) as u32)),
            saturation: sated(c.saturation, c.items[k].0.nutrition()),
            ..c
        },
        None => c,
    }
}

/// The character after harvesting among `plants`: it holds one more entry
/// of one plant for every plant that it harvests.
pub open spec fn reaped(c: CharacterView, plants: Seq<Plant>) -> CharacterView {
    CharacterView { items: c.items + crop(harvest_count(plants, c.position)), ..c }
}

/// The character and the plants after the character has done `action`.
pub open spec fn resolved_action(c: CharacterView, plants: Seq<Plant>, action: ActionView) -> (
    CharacterView,
    Seq<Plant>,
) {
    match action {
        ActionView::Eat => (eaten(c), plants),
        ActionView::Harvest => (reaped(c, plants), field_harvested(plants, c.position)),
        ActionView::Talk(speech) => (CharacterView { speech, ..c }, plants),
    }
}

/// The character and the plants after the character has done `actions`,
/// one after another.
pub open spec fn resolved_queue(c: CharacterView, plants: Seq<Plant>, actions: Seq<ActionView>) -> (
    CharacterView,
    Seq<Plant>,
)
    decreases actions.len(),
{
    if actions.len() == 0 {
        (c, plants)
    } else {
        let before = resolved_queue(c, plants, actions.drop_last());
        resolved_action(before.0, before.1, actions.last())
    }
}

/// The character and the plants after the character has done all that it had
/// queued; its queue is empty afterwards.
pub open spec fn resolved_character(c: CharacterView, plants: Seq<Plant>) -> (
    CharacterView,
    Seq<Plant>,
) {
    let after = resolved_queue(c, plants, c.actions);
    (CharacterView { actions: Seq::empty(), ..after.0 }, after.1)
}

/// The characters and the plants after every character has done all that it
/// had queued, character after character.
pub open spec fn resolved_world(characters: Seq<CharacterView>, plants: Seq<Plant>) -> (
    Seq<CharacterView>,
    Seq<Plant>,
)
    decreases characters.len(),
{
    if characters.len() == 0 {
        (Seq::empty(), plants)
    } else {
        let before = resolved_world(characters.drop_last(), plants);
        let last = resolved_character(characters.last(), before.1);
        (before.0.push(last.0), last.1)
    }
}

/// Lets the character at index `i` eat: see [`eaten`].
fn eat(characters: &mut Vec<Character>, i: usize)
    requires
        i < old(characters).len(),
    ensures
        final(characters).len() == old(characters).len(),
        final(characters)[i as int]@ == eaten(old(characters)[i as int]@),
        forall|j: int|
            0 <= j < old(characters).len() && j != i ==> final(characters)[j] == old(
                characters,
            )[j],
{
    let ghost c: CharacterView = characters[i as int]@;
    proof {
        lemma_first_edible(c.items);
    }
    match find_edible(&characters[i].items) {
        Some(k) => {
            let kind: Item = characters[i].items[k].0;
            let count: u32 = characters[i].items[k].1;
            characters[i].items[k] = (kind, count - 1);
            assert(characters[i as int].items.deep_view() =~= c.items.update(
                k as int,
                (kind, (count - 1) as u32),
            ));
            let gain: i64 = kind.saturation();
            let now: i64 = characters[i].saturation;
            characters[i].saturation = if now > i64::MAX - gain {
                i64::MAX
            } else {
                now + gain
            };
        },
        None => {},
    }
}

/// Lets the character at index `i` harvest: see [`reaped`] and
/// [`field_harvested`].
fn harvest(characters: &mut Vec<Character>, i: usize, plants: &mut Vec<Plant>)
    requires
        i < old(characters).len(),
    ensures
        final(characters).len() == old(characters).len(),
        final(characters)[i as int]@ == reaped(old(characters)[i as int]@, old(plants)@),
        forall|j: int|
            0 <= j < old(characters).len() && j != i ==> final(characters)[j] == old(
                characters,
            )[j],
        final(plants)@ == field_harvested(old(plants)@, old(characters)[i as int].position),
{
    let ghost c: CharacterView = characters[i as int]@;
    let ghost field: Seq<Plant> = plants@;
    let at: Point = characters[i].position;
    let ghost ripe = |p: Plant| harvestable(p, at);
    let n: usize = plants.len();
    let mut k: usize = 0;
    assert(field.take(0).filter(ripe) =~= Seq::empty()) by {
        reveal(Seq::filter);
    }
    assert(characters[i as int].items.deep_view() =~= c.items + crop(0));
    while k < n
        invariant
            i < characters.len(),
            characters.len() == old(characters).len(),
            c == old(characters)[i as int]@,
            at == c.position,
            field == old(plants)@,
            ripe == |p: Plant| harvestable(p, at),
            n == field.len(),
            plants@.len() == n,
            k <= n,
            forall|j: int|
                0 <= j < old(characters).len() && j != i ==> characters[j] == old(characters)[j],
            characters[i as int]@ == (CharacterView {
                items: c.items + crop(field.take(k as int).filter(ripe).len()),
                ..c
            }),
            forall|j: int|
                0 <= j < k ==> plants@[j] == (if harvestable(field[j], at) {
                    field[j].harvested()
                } else {
                    field[j]
                }),
            forall|j: int| k <= j < n ==> plants@[j] == field[j],
        decreases n - k,
    {
        let ghost held: Seq<(Item, u32)> = characters[i as int].items.deep_view();
        let ghost so_far: nat = field.take(k as int).filter(ripe).len();
        proof {
            reveal(Seq::filter);
            assert(field.take(k + 1).drop_last() =~= field.take(k as int));
        }
        if plants[k].is_grown() && plants[k].position.within(&at, plants[k].harvest_range()) {
            characters[i].items.push((Item::Plant, 1));
            plants[k].growth = 0;
            assert(characters[i as int].items.deep_view() =~= held.push((Item::Plant, 1u32)));
            assert(held.push((Item::Plant, 1u32)) =~= c.items + crop(so_far + 1));
        }
        k = k + 1;
    }
    assert(field.take(n as int) =~= field);
    assert(plants@ =~= field_harvested(field, at));
}

/// Lets the character at index `i` do all that it has queued: see
/// [`resolved_character`].
fn resolve(characters: &mut Vec<Character>, i: usize, plants: &mut Vec<Plant>)
    requires
        i < old(characters).len(),
    ensures
        final(characters).len() == old(characters).len(),
        final(characters)[i as int]@ == resolved_character(
            old(characters)[i as int]@,
            old(plants)@,
        ).0,
        forall|j: int|
            0 <= j < old(characters).len() && j != i ==> final(characters)[j] == old(
                characters,
            )[j],
        final(plants)@ == resolved_character(old(characters)[i as int]@, old(plants)@).1,
{
    let ghost c: CharacterView = characters[i as int]@;
    let ghost field: Seq<Plant> = plants@;
    let mut queue: Vec<Action> = Vec::new();
    assert(queue.deep_view() =~= Seq::empty());
    std::mem::swap(&mut queue, &mut characters[i].actions);
    let n: usize = queue.len();
    let mut k: usize = 0;
    assert(c.actions.take(0) =~= Seq::empty());
    while k < n
        invariant
            i < characters.len(),
            characters.len() == old(characters).len(),
            c == old(characters)[i as int]@,
            field == old(plants)@,
            queue.deep_view() == c.actions,
            n == queue.len(),
            k <= n,
            forall|j: int|
                0 <= j < old(characters).len() && j != i ==> characters[j] == old(characters)[j],
            characters[i as int]@ == (CharacterView {
                actions: Seq::empty(),
                ..resolved_queue(c, field, c.actions.take(k as int)).0
            }),
            resolved_queue(c, field, c.actions.take(k as int)).0.actions == c.actions,
            plants@ == resolved_queue(c, field, c.actions.take(k as int)).1,
        decreases n - k,
    {
        let ghost before = resolved_queue(c, field, c.actions.take(k as int));
        proof {
            assert(c.actions.take(k + 1).drop_last() =~= c.actions.take(k as int));
            assert(c.actions.take(k + 1).last() == queue[k as int]@);
            lemma_first_edible(before.0.items);
        }
        match &queue[k] {
            Action::Eat => {
                eat(characters, i);
            },
            Action::Harvest => {
                harvest(characters, i, plants);
            },
            Action::Talk(speech) => {
                characters[i].speech = speech.clone();
            },
        }
        k = k + 1;
    }
    assert(c.actions.take(n as int) =~= c.actions);
}

/// Carries out what every character has queued, character after character,
/// and empties the queues: see [`resolved_world`].
pub fn handle_actions(characters: &mut Vec<Character>, plants: &mut Vec<Plant>)
    ensures
        final(characters).deep_view() == resolved_world(
            old(characters).deep_view(),
            old(plants)@,
        ).0,
        final(plants)@ == resolved_world(old(characters).deep_view(), old(plants)@).1,
{
    let n: usize = characters.len();
    let ghost start: Seq<CharacterView> = characters.deep_view();
    let ghost field: Seq<Plant> = plants@;
    let mut i: usize = 0;
    assert(start.take(0) =~= Seq::empty());
    while i < n
        invariant
            n == characters.len(),
            start == old(characters).deep_view(),
            field == old(plants)@,
            start.len() == n,
            i <= n,
            resolved_world(start.take(i as int), field).0.len() == i,
            forall|j: int|
                0 <= j < i ==> characters[j]@ == resolved_world(start.take(i as int), field).0[j],
            forall|j: int| i <= j < n ==> characters[j]@ == start[j],
            plants@ == resolved_world(start.take(i as int), field).1,
        decreases n - i,
    {
        assert(start.take(i + 1).drop_last() =~= start.take(i as int));
        resolve(characters, i, plants);
        i = i + 1;
    }
    assert(start.take(n as int) =~= start);
    assert(characters.deep_view() =~= resolved_world(start, field).0);
}

} // verus!
