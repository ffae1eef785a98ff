//! Laws that hold of the steps of a tick, each proved from the definitions
//! of the steps.

use crate::behavior::{farmed, traveled};
use crate::character::CharacterView;
use crate::dispatch::{cooled, dispatched_requests, due, requests_among};
use crate::geometry::Point;
use crate::history::listened;
use crate::integrate::waiting;
use crate::item::Item;
use crate::npc::{NPCStateView, CHAT_COOLDOWN};
use crate::plant::{grown_field, grown_field_after, Plant, GROWTH_FULL, GROWTH_STEP};
use crate::region::RegionView;
use crate::resolve::{eaten, field_harvested, harvestable};
use crate::saturation::{first_edible, hungrier, lemma_first_edible};
use crate::world::census;
use vstd::prelude::*;

verus! {

/// How many items the entries hold, all kinds taken together.
pub open spec fn held(items: Seq<(Item, u32)>) -> nat
    decreases items.len(),
{
    if items.len() == 0 {
        0
    } else {
        held(items.drop_last()) + items.last().1 as nat
    }
}

/// Growth is steady and bounded: a plant that grows for `ticks` ticks
/// without being harvested has grown by `ticks` steps, but never past
/// [`GROWTH_FULL`]; where it stands does not change.
pub proof fn lemma_growth_after_ticks(plants: Seq<Plant>, ticks: nat, i: int)
    requires
        0 <= i < plants.len(),
        plants[i].growth <= GROWTH_FULL,
    ensures
        grown_field_after(plants, ticks).len() == plants.len(),
        grown_field_after(plants, ticks)[i].position == plants[i].position,
        grown_field_after(plants, ticks)[i].growth == if plants[i].growth + ticks * GROWTH_STEP
            > GROWTH_FULL {
            GROWTH_FULL as int
        } else {
            plants[i].growth + ticks * GROWTH_STEP
        },
    decreases ticks,
{
    if ticks > 0 {
        lemma_growth_after_ticks(plants, (ticks - 1) as nat, i);
        let before = grown_field_after(plants, (ticks - 1) as nat);
        assert(grown_field_after(plants, ticks) == grown_field(before));
        assert(grown_field(before)[i] == before[i].grown_by(GROWTH_STEP as int));
    }
}

/// A seed is fully grown after exactly as many ticks as steps make up
/// [`GROWTH_FULL`], and stays so.
pub proof fn lemma_seed_grows(position: Point, ticks: nat)
    ensures
        grown_field_after(seq![Plant::seed(position)], ticks)[0].growth == if ticks * GROWTH_STEP
            > GROWTH_FULL {
            GROWTH_FULL as int
        } else {
            (ticks * GROWTH_STEP) as int
        },
{
    lemma_growth_after_ticks(seq![Plant::seed(position)], ticks, 0);
}

/// A harvest takes growth away and never adds any: a plant that is
/// harvested is a bare patch afterwards, with a growth of exactly zero, and
/// every other plant is as it was.
pub proof fn lemma_harvest_growth(plants: Seq<Plant>, at: Point, i: int)
    requires
        0 <= i < plants.len(),
    ensures
        field_harvested(plants, at).len() == plants.len(),
        field_harvested(plants, at)[i].position == plants[i].position,
        0 <= field_harvested(plants, at)[i].growth <= plants[i].growth,
        harvestable(plants[i], at) ==> field_harvested(plants, at)[i].growth == 0,
        !harvestable(plants[i], at) ==> field_harvested(plants, at)[i] == plants[i],
{
}

/// Whether `agent` is the identifier of a due agent among the first `n`
/// characters.
pub open spec fn due_agent(characters: Seq<CharacterView>, n: int, agent: u64) -> bool {
    exists|i: int| 0 <= i < n && #[trigger] due(characters[i]) && characters[i].id == agent
}

/// Whether `agent` is the identifier of an agent that waited for no answer
/// before the dispatch and waits for one after it.
pub open spec fn asked_anew(characters: Seq<CharacterView>, dt: int, agent: u64) -> bool {
    exists|i: int|
        0 <= i < characters.len() && #[trigger] due(characters[i]) && !waiting(characters[i])
            && waiting(cooled(characters[i], dt)) && characters[i].id == agent
}

/// The requests among the first `n` characters go to due agents, in the
/// order of their identifiers.
proof fn lemma_requests_among(
    characters: Seq<CharacterView>,
    regions: Seq<RegionView>,
    n: int,
    next_id: u64,
)
    requires
        census(characters, next_id),
        0 <= n <= characters.len(),
    ensures
        forall|k: int|
            0 <= k < requests_among(characters, regions, n).len() ==> due_agent(
                characters,
                n,
                (#[trigger] requests_among(characters, regions, n)[k]).agent,
            ),
        forall|a: int, b: int|
            0 <= a < b < requests_among(characters, regions, n).len() ==> (
            #[trigger] requests_among(characters, regions, n)[a]).agent < (
            #[trigger] requests_among(characters, regions, n)[b]).agent,
    decreases n,
{
    if n > 0 {
        lemma_requests_among(characters, regions, n - 1, next_id);
        let before = requests_among(characters, regions, n - 1);
        let now = requests_among(characters, regions, n);
        assert forall|k: int| 0 <= k < now.len() implies due_agent(
            characters,
            n,
            (#[trigger] now[k]).agent,
        ) by {
            if k < before.len() {
                assert(due_agent(characters, n - 1, before[k].agent));
                let i = choose|i: int|
                    0 <= i < n - 1 && #[trigger] due(characters[i]) && characters[i].id
                        == before[k].agent;
                assert(due(characters[i]) && characters[i].id == now[k].agent);
            } else {
                assert(due(characters[n - 1]) && characters[n - 1].id == now[k].agent);
            }
        }
        assert forall|a: int, b: int| 0 <= a < b < now.len() implies (#[trigger] now[a]).agent < (
        #[trigger] now[b]).agent by {
            if b == before.len() {
                assert(due_agent(characters, n - 1, before[a].agent));
                let i = choose|i: int|
                    0 <= i < n - 1 && #[trigger] due(characters[i]) && characters[i].id
                        == before[a].agent;
                assert(characters[i].id < characters[n - 1].id);
            }
        }
    }
}

/// No agent ever has two requests out. Where the characters are in order,
/// the requests of a dispatch go to agents that waited for no answer and
/// wait for one from then on; no two of them go to the same agent; and none
/// goes to an agent that still waits for an answer.
pub proof fn lemma_one_request_per_agent(
    characters: Seq<CharacterView>,
    regions: Seq<RegionView>,
    dt: int,
    next_id: u64,
)
    requires
        census(characters, next_id),
    ensures
        forall|k: int|
            0 <= k < dispatched_requests(characters, regions).len() ==> asked_anew(
                characters,
                dt,
                (#[trigger] dispatched_requests(characters, regions)[k]).agent,
            ),
        forall|a: int, b: int|
            0 <= a < b < dispatched_requests(characters, regions).len() ==> (
            #[trigger] dispatched_requests(characters, regions)[a]).agent != (
            #[trigger] dispatched_requests(characters, regions)[b]).agent,
        forall|i: int, k: int|
            0 <= i < characters.len() && waiting(#[trigger] characters[i]) && 0 <= k
                < dispatched_requests(characters, regions).len() ==> (
            #[trigger] dispatched_requests(characters, regions)[k]).agent != characters[i].id,
{
    let n = characters.len() as int;
    let requests = dispatched_requests(characters, regions);
    lemma_requests_among(characters, regions, n, next_id);
    assert forall|k: int| 0 <= k < requests.len() implies asked_anew(
        characters,
        dt,
        (#[trigger] requests[k]).agent,
    ) by {
        assert(due_agent(characters, n, requests[k].agent));
        let i = choose|i: int|
            0 <= i < n && #[trigger] due(characters[i]) && characters[i].id == requests[k].agent;
        assert(due(characters[i]) && !waiting(characters[i]) && waiting(
            cooled(characters[i], dt),
        ));
    }
    assert forall|i: int, k: int|
        0 <= i < characters.len() && waiting(#[trigger] characters[i]) && 0 <= k
            < requests.len() implies (#[trigger] requests[k]).agent != characters[i].id by {
        assert(due_agent(characters, n, requests[k].agent));
        let j = choose|j: int|
            0 <= j < n && #[trigger] due(characters[j]) && characters[j].id == requests[k].agent;
        if j < i {
            assert(characters[j].id < characters[i].id);
        } else if i < j {
            assert(characters[i].id < characters[j].id);
        }
    }
}

/// A cooldown that has run out is set back when the request goes out, not
/// when the answer comes in. An agent that is due leaves the dispatch with
/// a full cooldown and waits; a cooldown is at or below zero after a
/// dispatch only where it ran out in this very tick or where the agent still
/// waits for an answer.
pub proof fn lemma_cooldown_reset(c: CharacterView, dt: int)
    requires
        c.npc is Some,
        dt >= 0,
    ensures
        due(c) ==> cooled(c, dt).npc.unwrap().chat_cooldown == CHAT_COOLDOWN && waiting(
            cooled(c, dt),
        ),
        !due(c) ==> cooled(c, dt).npc.unwrap().pending == c.npc.unwrap().pending,
        cooled(c, dt).npc.unwrap().chat_cooldown <= 0 ==> c.npc.unwrap().chat_cooldown > 0
            || waiting(c),
{
}

/// An agent whose cooldown runs out in one tick, while it waits for no
/// answer, has a full cooldown after the next.
pub proof fn lemma_cooldown_across_dispatch(c: CharacterView, first: int, second: int)
    requires
        c.npc is Some,
        first >= 0,
        second >= 0,
        !waiting(c),
        c.npc.unwrap().chat_cooldown > 0,
        cooled(c, first).npc.unwrap().chat_cooldown <= 0,
    ensures
        due(cooled(c, first)),
        cooled(cooled(c, first), second).npc.unwrap().chat_cooldown == CHAT_COOLDOWN,
{
}

/// Counting one item less in an entry takes one item off the whole.
proof fn lemma_held_update(items: Seq<(Item, u32)>, k: int)
    requires
        0 <= k < items.len(),
        items[k].1 > 0,
    ensures
        held(items.update(k, (items[k].0, (items[k].1 - 1) as u32))) == held(items) - 1,
    decreases items.len(),
{
    let less = items.update(k, (items[k].0, (items[k].1 - 1) as u32));
    if k == items.len() - 1 {
        assert(less.drop_last() =~= items.drop_last());
    } else {
        lemma_held_update(items.drop_last(), k);
        assert(less.drop_last() =~= items.drop_last().update(
            k,
            (items[k].0, (items[k].1 - 1) as u32),
        ));
    }
}

/// Eating never adds to what a character holds, and a character with
/// nothing to eat is left as it was. A character that does eat holds one
/// item less and is no less sated than before.
pub proof fn lemma_eat(c: CharacterView)
    ensures
        held(eaten(c).items) <= held(c.items),
        first_edible(c.items) is None ==> eaten(c) == c,
        first_edible(c.items) is Some ==> held(eaten(c).items) == held(c.items) - 1,
        c.saturation <= i64::MAX ==> eaten(c).saturation >= c.saturation,
{
    lemma_first_edible(c.items);
    match first_edible(c.items) {
        Some(k) => {
            lemma_held_update(c.items, k);
        },
        None => {},
    }
}

/// Memory only grows: what an agent remembered before it took note of its
/// surroundings it remembers afterwards, in the same order and before
/// anything new; and its story is never touched.
pub proof fn lemma_history_append_only(c: CharacterView, all: Seq<CharacterView>)
    requires
        c.npc is Some,
    ensures
        listened(c, all).npc is Some,
        c.npc.unwrap().history.is_prefix_of(listened(c, all).npc.unwrap().history),
        listened(c, all).npc.unwrap().backstory == c.npc.unwrap().backstory,
{
    let before = c.npc.unwrap().history;
    let after = listened(c, all).npc.unwrap().history;
    assert(before =~= after.subrange(0, before.len() as int));
}

/// Of the steps that run on their own, only arriving changes what an agent
/// is busy with: a traveler that has arrived, or has nowhere to go, idles.
/// Dispatch, farming, hunger and memory leave the state alone.
pub proof fn lemma_state_changes_by_arrival_only(
    c: CharacterView,
    all: Seq<CharacterView>,
    plants: Seq<Plant>,
    regions: Seq<RegionView>,
    dt: int,
)
    requires
        c.npc is Some,
    ensures
        cooled(c, dt).npc.unwrap().state == c.npc.unwrap().state,
        farmed(c, plants, regions, dt).npc.unwrap().state == c.npc.unwrap().state,
        hungrier(c, dt).npc.unwrap().state == c.npc.unwrap().state,
        listened(c, all).npc.unwrap().state == c.npc.unwrap().state,
        traveled(c, regions, dt).npc.unwrap().state == c.npc.unwrap().state || (
        c.npc.unwrap().state is Traveling && traveled(c, regions, dt).npc.unwrap().state
            == NPCStateView::Idle),
{
}

} // verus!
