//! The world: everyone and everything in it, and the tick that moves it on.
//!
//! A tick runs its steps in a fixed order: the player's input, the dispatch
//! of decision requests, the answers that have come in, farming, traveling,
//! growth, housekeeping, hunger, memory, and at last the deeds queued on the
//! way. Memory comes before the deeds are done, so that agents remember them;
//! the deeds come last, so that every step before them sees the world as the
//! last tick left it.

use crate::action::ActionView;
use crate::behavior::{
    farmers_updated, input_applied, player_input, speech_submitted, submit_speech,
    travelers_updated, update_farmers, update_travelers, PlayerIntent,
};
use crate::character::{Character, CharacterView};
use crate::context::{DecisionRequest, DecisionRequestView};
use crate::dispatch::{dispatched_characters, dispatched_requests, update_npcs};
use crate::geometry::Rect;
use crate::history::{histories_updated, update_history};
use crate::integrate::{
    handle_npc_dialog_requests, integrated, integrated_all, noticed_all, outcomes_view,
    DecisionError, LogicError, Reply, ReplyView,
};
use crate::plant::{fill_rect_with_plants, grown_field, planted_grid, update_plants, Plant};
use crate::region::{Region, RegionView};
use crate::resolve::{handle_actions, resolved_character, resolved_queue, resolved_world};
use crate::saturation::{
    hungrier, inventories_updated, inventory_update, saturation_updated, starves,
    update_saturation,
};
use vstd::prelude::*;

verus! {

/// The world.
pub struct World {
    characters: Vec<Character>,
    plants: Vec<Plant>,
    regions: Vec<Region>,
    next_id: u64,
}

/// The mathematical model of a [`World`].
pub struct WorldView {
    pub characters: Seq<CharacterView>,
    pub plants: Seq<Plant>,
    pub regions: Seq<RegionView>,
    /// The identifier that the next character gets.
    pub next_id: u64,
}

/// Why somebody or something could not enter the world.
#[derive(Clone, Copy, Debug, PartialEq, Eq, Structural)]
pub enum SpawnError {
    /// Another one of its kind goes by the same name.
    NameTaken,
    /// The world has run out of identifiers.
    Exhausted,
}

/// What a tick hands to the caller.
#[derive(Debug)]
pub struct TickOutput {
    /// The decision requests to send, without waiting for their answers.
    pub requests: Vec<DecisionRequest>,
    /// What was wrong with the calls that the answers held, to be logged.
    pub warnings: Vec<LogicError>,
}

/// Whether the characters are in order: identifiers grow along the
/// sequence and lie below `next_id`, and no two characters share a name.
pub open spec fn census(characters: Seq<CharacterView>, next_id: u64) -> bool {
    &&& forall|i: int| 0 <= i < characters.len() ==> (#[trigger] characters[i]).id < next_id
    &&& forall|i: int, j: int|
        0 <= i < j < characters.len() ==> (#[trigger] characters[i]).id < (
        #[trigger] characters[j]).id
    &&& forall|i: int, j: int|
        0 <= i < j < characters.len() ==> (#[trigger] characters[i]).name != (
        #[trigger] characters[j]).name
}

/// Whether two sequences hold the same characters by identifier and name.
pub open spec fn same_census(a: Seq<CharacterView>, b: Seq<CharacterView>) -> bool {
    &&& a.len() == b.len()
    &&& forall|i: int|
        0 <= i < a.len() ==> (#[trigger] a[i]).id == b[i].id && a[i].name == b[i].name
}

/// Whether no two regions share a name.
pub open spec fn distinct_regions(regions: Seq<RegionView>) -> bool {
    forall|i: int, j: int|
        0 <= i < j < regions.len() ==> (#[trigger] regions[i]).name != (
        #[trigger] regions[j]).name
}

impl WorldView {
    /// Whether the world is in order: see [`census`] and
    /// [`distinct_regions`].
    pub open spec fn wf(self) -> bool {
        census(self.characters, self.next_id) && distinct_regions(self.regions)
    }
}

/// The characters after the steps of a tick that come before the deeds
/// are done.
pub open spec fn before_resolution(
    w: WorldView,
    intent: PlayerIntent,
    completed: Seq<(u64, Result<ReplyView, DecisionError>)>,
    dt: int,
) -> Seq<CharacterView> {
    let steered = input_applied(w.characters, intent, dt);
    let asked = dispatched_characters(steered, dt);
    let answered = integrated_all(asked, completed);
    let farmed = farmers_updated(answered, w.plants, w.regions, dt);
    let traveled = travelers_updated(farmed, w.regions, dt);
    let tidy = inventories_updated(traveled);
    let hungry = saturation_updated(tidy, dt);
    histories_updated(hungry)
}

/// The world after a tick that lasted `dt`, in which the player asked for
/// `intent` and the answers `completed` came in.
pub open spec fn ticked(
    w: WorldView,
    intent: PlayerIntent,
    completed: Seq<(u64, Result<ReplyView, DecisionError>)>,
    dt: int,
) -> WorldView {
    let done = resolved_world(
        before_resolution(w, intent, completed, dt),
        grown_field(w.plants),
    );
    WorldView { characters: done.0, plants: done.1, ..w }
}

/// The requests that a tick hands out: those of the agents that are due
/// once the player's input is in.
pub open spec fn tick_requests(w: WorldView, intent: PlayerIntent, dt: int) -> Seq<
    DecisionRequestView,
> {
    dispatched_requests(input_applied(w.characters, intent, dt), w.regions)
}

/// The warnings that a tick hands out: those of the answers that came in.
pub open spec fn tick_warnings(
    w: WorldView,
    intent: PlayerIntent,
    completed: Seq<(u64, Result<ReplyView, DecisionError>)>,
    dt: int,
) -> Seq<LogicError> {
    noticed_all(dispatched_characters(input_applied(w.characters, intent, dt), dt), completed)
}

/// Characters that are the same by identifier and name are in order
/// together.
pub proof fn lemma_same_census(a: Seq<CharacterView>, b: Seq<CharacterView>, next_id: u64)
    requires
        same_census(a, b),
        census(a, next_id),
    ensures
        census(b, next_id),
{
    assert forall|i: int| 0 <= i < b.len() implies (#[trigger] b[i]).id < next_id by {
        assert(a[i].id == b[i].id);
    }
    assert forall|i: int, j: int| 0 <= i < j < b.len() implies (#[trigger] b[i]).id < (
    #[trigger] b[j]).id && b[i].name != b[j].name by {
        assert(a[i].id == b[i].id && a[j].id == b[j].id);
        assert(a[i].name == b[i].name && a[j].name == b[j].name);
    }
}

/// Characters picked out of characters in order are in order, and each
/// of them was among those.
proof fn lemma_filter_census(
    s: Seq<CharacterView>,
    pred: spec_fn(CharacterView) -> bool,
    next_id: u64,
)
    requires
        census(s, next_id),
    ensures
        census(s.filter(pred), next_id),
        forall|k: int|
            0 <= k < s.filter(pred).len() ==> exists|j: int|
                0 <= j < s.len() && #[trigger] s[j] == (#[trigger] s.filter(pred)[k]),
    decreases s.len(),
{
    reveal(Seq::filter);
    if s.len() > 0 {
        let front = s.drop_last();
        let kept = front.filter(pred);
        assert(forall|i: int| 0 <= i < front.len() ==> front[i] == s[i]);
        assert(census(front, next_id));
        lemma_filter_census(front, pred, next_id);
        let out = s.filter(pred);
        assert forall|k: int| 0 <= k < out.len() implies exists|j: int|
            0 <= j < s.len() && #[trigger] s[j] == (#[trigger] out[k]) by {
            if k < kept.len() {
                let j = choose|j: int| 0 <= j < front.len() && #[trigger] front[j] == kept[k];
                assert(s[j] == out[k]);
            } else {
                assert(s[s.len() - 1] == out[k]);
            }
        }
        assert forall|i: int, j: int| 0 <= i < j < out.len() implies (#[trigger] out[i]).id < (
        #[trigger] out[j]).id && out[i].name != out[j].name by {
            if j == kept.len() {
                let m = choose|m: int| 0 <= m < front.len() && #[trigger] front[m] == kept[i];
                assert(s[m] == out[i]);
                assert(s[s.len() - 1] == out[j]);
            }
        }
        assert forall|i: int| 0 <= i < out.len() implies (#[trigger] out[i]).id < next_id by {
            let m = choose|m: int| 0 <= m < s.len() && #[trigger] s[m] == out[i];
        }
    }
}

/// Hunger keeps the characters in order.
proof fn lemma_saturation_census(characters: Seq<CharacterView>, dt: int, next_id: u64)
    requires
        census(characters, next_id),
    ensures
        census(saturation_updated(characters, dt), next_id),
{
    let lives = |c: CharacterView| !starves(c, dt);
    lemma_filter_census(characters, lives, next_id);
    let kept = characters.filter(lives);
    lemma_same_census(kept, kept.map_values(|c: CharacterView| hungrier(c, dt)), next_id);
}

/// The answers that come in change nobody's identifier or name.
proof fn lemma_integrated_census(
    characters: Seq<CharacterView>,
    completed: Seq<(u64, Result<ReplyView, DecisionError>)>,
)
    ensures
        same_census(characters, integrated_all(characters, completed)),
    decreases completed.len(),
{
    if completed.len() > 0 {
        lemma_integrated_census(characters, completed.drop_last());
        let before = integrated_all(characters, completed.drop_last());
        let after = integrated(before, completed.last().0, completed.last().1);
        assert(same_census(before, after));
    }
}

/// Doing deeds changes nobody's identifier or name.
proof fn lemma_queue_census(c: CharacterView, plants: Seq<Plant>, actions: Seq<ActionView>)
    ensures
        resolved_queue(c, plants, actions).0.id == c.id,
        resolved_queue(c, plants, actions).0.name == c.name,
    decreases actions.len(),
{
    if actions.len() > 0 {
        lemma_queue_census(c, plants, actions.drop_last());
    }
}

/// Doing the queued deeds changes nobody's identifier or name.
proof fn lemma_resolved_census(characters: Seq<CharacterView>, plants: Seq<Plant>)
    ensures
        same_census(characters, resolved_world(characters, plants).0),
    decreases characters.len(),
{
    if characters.len() > 0 {
        let front = characters.drop_last();
        lemma_resolved_census(front, plants);
        let before = resolved_world(front, plants);
        lemma_queue_census(characters.last(), before.1, characters.last().actions);
        let last = resolved_character(characters.last(), before.1);
        let after = resolved_world(characters, plants).0;
        assert(after == before.0.push(last.0));
        assert forall|i: int| 0 <= i < characters.len() implies (#[trigger] characters[i]).id
            == after[i].id && characters[i].name == after[i].name by {
            if i < front.len() {
                assert(front[i] == characters[i]);
            }
        }
    }
}

/// A tick keeps a world in order.
pub proof fn lemma_tick_keeps_order(
    w: WorldView,
    intent: PlayerIntent,
    completed: Seq<(u64, Result<ReplyView, DecisionError>)>,
    dt: int,
)
    requires
        w.wf(),
    ensures
        ticked(w, intent, completed, dt).wf(),
{
    let steered = input_applied(w.characters, intent, dt);
    lemma_same_census(w.characters, steered, w.next_id);
    let asked = dispatched_characters(steered, dt);
    lemma_same_census(steered, asked, w.next_id);
    let answered = integrated_all(asked, completed);
    lemma_integrated_census(asked, completed);
    lemma_same_census(asked, answered, w.next_id);
    let farmed = farmers_updated(answered, w.plants, w.regions, dt);
    lemma_same_census(answered, farmed, w.next_id);
    let traveled = travelers_updated(farmed, w.regions, dt);
    lemma_same_census(farmed, traveled, w.next_id);
    let tidy = inventories_updated(traveled);
    lemma_same_census(traveled, tidy, w.next_id);
    let hungry = saturation_updated(tidy, dt);
    lemma_saturation_census(tidy, dt, w.next_id);
    let heard = histories_updated(hungry);
    lemma_same_census(hungry, heard, w.next_id);
    lemma_resolved_census(heard, grown_field(w.plants));
    lemma_same_census(heard, resolved_world(heard, grown_field(w.plants)).0, w.next_id);
}

impl View for World {
    type V = WorldView;

    closed spec fn view(&self) -> WorldView {
        WorldView {
            characters: self.characters.deep_view(),
            plants: self.plants@,
            regions: self.regions.deep_view(),
            next_id: self.next_id,
        }
    }
}

impl World {
    /// Whether the world is in order. Every world that this module hands
    /// out is.
    pub open spec fn wf(&self) -> bool {
        self@.wf()
    }

    /// An empty world.
    pub fn new() -> (r: World)
        ensures
            r.wf(),
            r@ == (WorldView {
                characters: Seq::empty(),
                plants: Seq::empty(),
                regions: Seq::empty(),
                next_id: 0,
            }),
    {
        let r = World {
            characters: Vec::new(),
            plants: Vec::new(),
            regions: Vec::new(),
            next_id: 0,
        };
        assert(r.characters.deep_view() =~= Seq::empty());
        assert(r.regions.deep_view() =~= Seq::empty());
        r
    }

    /// An empty world whose first character gets the identifier `first`,
    /// for a world that carries on where another left off.
    pub fn starting_at(first: u64) -> (r: World)
        ensures
            r.wf(),
            r@ == (WorldView {
                characters: Seq::empty(),
                plants: Seq::empty(),
                regions: Seq::empty(),
                next_id: first,
            }),
    {
        let r = World {
            characters: Vec::new(),
            plants: Vec::new(),
            regions: Vec::new(),
            next_id: first,
        };
        assert(r.characters.deep_view() =~= Seq::empty());
        assert(r.regions.deep_view() =~= Seq::empty());
        r
    }

    /// Everyone in the world, in the order they entered it.
    pub fn characters(&self) -> (r: &Vec<Character>)
        ensures
            r.deep_view() == self@.characters,
    {
        &self.characters
    }

    /// Every plant in the world.
    pub fn plants(&self) -> (r: &Vec<Plant>)
        ensures
            r@ == self@.plants,
    {
        &self.plants
    }

    /// Every region of the world.
    pub fn regions(&self) -> (r: &Vec<Region>)
        ensures
            r.deep_view() == self@.regions,
    {
        &self.regions
    }

    /// The place among the characters of the one with the identifier `id`.
    pub fn find_character(&self, id: u64) -> (r: Option<usize>)
        ensures
            match r {
                Some(i) => i < self@.characters.len() && self@.characters[i as int].id == id,
                None => forall|i: int|
                    0 <= i < self@.characters.len() ==> (#[trigger] self@.characters[i]).id != id,
            },
    {
        let n: usize = self.characters.len();
        let mut i: usize = 0;
        while i < n
            invariant
                n == self.characters.len(),
                i <= n,
                forall|j: int| 0 <= j < i ==> (#[trigger] self.characters.deep_view()[j]).id != id,
            decreases n - i,
        {
            if self.characters[i].id == id {
                return Some(i);
            }
            i = i + 1;
        }
        None
    }

    /// Adds a region, unless one of its name is there already.
    pub fn spawn_region(&mut self, region: Region) -> (r: Result<(), SpawnError>)
        requires
            old(self).wf(),
        ensures
            final(self).wf(),
            match r {
                Ok(_) => {
                    &&& forall|i: int|
                        0 <= i < old(self)@.regions.len() ==> (#[trigger] old(
                            self,
                        )@.regions[i]).name != region@.name
                    &&& final(self)@ == (WorldView {
                        regions: old(self)@.regions.push(region@),
                        ..old(self)@
                    })
                },
                Err(e) => {
                    &&& e == SpawnError::NameTaken
                    &&& exists|i: int|
                        0 <= i < old(self)@.regions.len() && (#[trigger] old(
                            self,
                        )@.regions[i]).name == region@.name
                    &&& final(self)@ == old(self)@
                },
            },
    {
        let n: usize = self.regions.len();
        let mut i: usize = 0;
        while i < n
            invariant
                n == self.regions.len(),
                *self == *old(self),
                old(self).wf(),
                i <= n,
                forall|j: int|
                    0 <= j < i ==> (#[trigger] self.regions.deep_view()[j]).name != region@.name,
            decreases n - i,
        {
            if self.regions[i].name == region.name {
                assert(self.regions.deep_view()[i as int].name == region@.name);
                return Err(SpawnError::NameTaken);
            }
            i = i + 1;
        }
        let ghost before: Seq<RegionView> = self.regions.deep_view();
        self.regions.push(region);
        assert(self.regions.deep_view() =~= before.push(region@));
        Ok(())
    }

    /// Adds a plant.
    pub fn spawn_plant(&mut self, plant: Plant)
        requires
            old(self).wf(),
        ensures
            final(self).wf(),
            final(self)@ == (WorldView { plants: old(self)@.plants.push(plant), ..old(self)@ }),
    {
        self.plants.push(plant);
    }

    /// Plants seeds all over `rect`: one every
    /// [`PLANT_SPACING`](crate::plant::PLANT_SPACING) along both axes.
    pub fn fill_rect_with_plants(&mut self, rect: &Rect)
        requires
            old(self).wf(),
        ensures
            final(self).wf(),
            final(self)@ == (WorldView {
                plants: old(self)@.plants + planted_grid(*rect),
                ..old(self)@
            }),
    {
        fill_rect_with_plants(&mut self.plants, rect);
    }

    /// Adds a character under a fresh identifier, which is returned, unless
    /// a character of its name is there already. The identifier that
    /// `character` came with is not kept.
    pub fn spawn_character(&mut self, character: Character) -> (r: Result<u64, SpawnError>)
        requires
            old(self).wf(),
        ensures
            final(self).wf(),
            match r {
                Ok(id) => {
                    &&& id == old(self)@.next_id
                    &&& id < u64::MAX
                    &&& forall|i: int|
                        0 <= i < old(self)@.characters.len() ==> (#[trigger] old(
                            self,
                        )@.characters[i]).name != character@.name
                    &&& final(self)@ == (WorldView {
                        characters: old(self)@.characters.push(
                            CharacterView { id, ..character@ },
                        ),
                        next_id: (id + 1) as u64,
                        ..old(self)@
                    })
                },
                Err(e) => {
                    &&& final(self)@ == old(self)@
                    &&& e == SpawnError::Exhausted <==> old(self)@.next_id == u64::MAX
                    &&& e == SpawnError::NameTaken ==> exists|i: int|
                        0 <= i < old(self)@.characters.len() && (#[trigger] old(
                            self,
                        )@.characters[i]).name == character@.name
                },
            },
    {
        if self.next_id == u64::MAX {
            return Err(SpawnError::Exhausted);
        }
        let n: usize = self.characters.len();
        let mut i: usize = 0;
        while i < n
            invariant
                n == self.characters.len(),
                *self == *old(self),
                old(self).wf(),
                old(self)@.next_id != u64::MAX,
                i <= n,
                forall|j: int|
                    0 <= j < i ==> (#[trigger] self.characters.deep_view()[j]).name
                        != character@.name,
            decreases n - i,
        {
            if self.characters[i].name == character.name {
                assert(self.characters.deep_view()[i as int].name == character@.name);
                return Err(SpawnError::NameTaken);
            }
            i = i + 1;
        }
        let ghost before: Seq<CharacterView> = self.characters.deep_view();
        let id: u64 = self.next_id;
        let mut newcomer: Character = character;
        newcomer.id = id;
        self.characters.push(newcomer);
        self.next_id = id + 1;
        assert(self.characters.deep_view() =~= before.push(CharacterView { id, ..character@ }));
        Ok(id)
    }

    /// Queues `text` as what the player's character says next.
    pub fn submit_speech(&mut self, text: &String)
        requires
            old(self).wf(),
        ensures
            final(self).wf(),
            final(self)@ == (WorldView {
                characters: speech_submitted(old(self)@.characters, text@),
                ..old(self)@
            }),
    {
        proof {
            lemma_same_census(
                self@.characters,
                speech_submitted(self@.characters, text@),
                self.next_id,
            );
        }
        submit_speech(&mut self.characters, text);
    }

    /// Moves the world on by one tick of `dt` microseconds: see [`ticked`].
    ///
    /// `completed` holds the answers that have come in since the last tick,
    /// each with the identifier of the agent that the request was sent for.
    /// The requests handed back are to be sent without waiting; their
    /// answers go into a later tick.
    pub fn tick(
        &mut self,
        intent: &PlayerIntent,
        completed: &Vec<(u64, Result<Reply, DecisionError>)>,
        dt: u32,
    ) -> (out: TickOutput)
        requires
            old(self).wf(),
        ensures
            final(self).wf(),
            final(self)@ == ticked(old(self)@, *intent, outcomes_view(completed@), dt as int),
            out.requests.deep_view() == tick_requests(old(self)@, *intent, dt as int),
            out.warnings@ == tick_warnings(
                old(self)@,
                *intent,
                outcomes_view(completed@),
                dt as int,
            ),
    {
        proof {
            lemma_tick_keeps_order(self@, *intent, outcomes_view(completed@), dt as int);
        }
        player_input(&mut self.characters, intent, dt);
        let requests: Vec<DecisionRequest> = update_npcs(&mut self.characters, &self.regions, dt);
        let warnings: Vec<LogicError> = handle_npc_dialog_requests(
            &mut self.characters,
            completed,
        );
        update_farmers(&mut self.characters, &self.plants, &self.regions, dt);
        update_travelers(&mut self.characters, &self.regions, dt);
        update_plants(&mut self.plants);
        inventory_update(&mut self.characters);
        update_saturation(&mut self.characters, dt);
        update_history(&mut self.characters);
        handle_actions(&mut self.characters, &mut self.plants);
        TickOutput { requests, warnings }
    }
}

} // verus!
