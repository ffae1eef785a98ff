//! Characters: everyone who lives in the world, agent or not.
//!
//! Satiety is counted in millionths of a unit.

use crate::action::{Action, ActionView};
use crate::geometry::Point;
use crate::item::Item;
use crate::npc::{NPCView, NPC};
use vstd::prelude::*;

verus! {

/// The satiety a character starts with: a hundred units.
pub const INITIAL_SATIETY: i64 = 100_000_000;

/// The satiety below which a character that holds food eats: thirty units.
pub const LOW_SATIETY: i64 = 30_000_000;

/// Somebody who lives in the world.
#[derive(Debug)]
pub struct Character {
    /// The identifier the world gave the character. Never reused.
    pub id: u64,
    pub name: String,
    pub position: Point,
    /// What the character holds: kinds of item and how many of each.
    pub items: Vec<(Item, u32)>,
    /// How sated the character is. It starves when this falls below zero.
    pub saturation: i64,
    /// What the character has queued to do this tick, in order.
    pub actions: Vec<Action>,
    /// What the character last said, for display.
    pub speech: String,
    /// Whether the player steers the character.
    pub player: bool,
    /// The agent's part, where the character is an agent.
    pub npc: Option<NPC>,
}

/// The mathematical model of a [`Character`].
pub struct CharacterView {
    pub id: u64,
    pub name: Seq<char>,
    pub position: Point,
    pub items: Seq<(Item, u32)>,
    pub saturation: int,
    pub actions: Seq<ActionView>,
    pub speech: Seq<char>,
    pub player: bool,
    pub npc: Option<NPCView>,
}

impl View for Character {
    type V = CharacterView;

    open spec fn view(&self) -> CharacterView {
        CharacterView {
            id: self.id,
            name: self.name@,
            position: self.position,
            items: self.items.deep_view(),
            saturation: self.saturation as int,
            actions: self.actions.deep_view(),
            speech: self.speech@,
            player: self.player,
            npc: self.npc.deep_view(),
        }
    }
}

impl DeepView for Character {
    type V = CharacterView;

    open spec fn deep_view(&self) -> CharacterView {
        self@
    }
}

impl CharacterView {
    /// A nameless character at the origin that holds nothing, has nothing
    /// to do and is fully sated.
    pub open spec fn fresh() -> CharacterView {
        CharacterView {
            id: 0,
            name: Seq::empty(),
            position: Point { x: 0, y: 0 },
            items: Seq::empty(),
            saturation: INITIAL_SATIETY as int,
            actions: Seq::empty(),
            speech: Seq::empty(),
            player: false,
            npc: None,
        }
    }
}

impl Default for Character {
    fn default() -> (r: Character)
        ensures
            r@ == CharacterView::fresh(),
    {
        let r = Character {
            id: 0,
            name: String::new(),
            position: Point { x: 0, y: 0 },
            items: Vec::new(),
            saturation: INITIAL_SATIETY,
            actions: Vec::new(),
            speech: String::new(),
            player: false,
            npc: None,
        };
        assert(r.items.deep_view() =~= Seq::empty());
        assert(r.actions.deep_view() =~= Seq::empty());
        r
    }
}

} // verus!
