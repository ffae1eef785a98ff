//! Agents: characters whose behaviour is driven by decisions made elsewhere.
//!
//! Time is counted in microseconds.

use crate::action::{Action, ActionView};
use vstd::prelude::*;
use vstd::string::*;

verus! {

/// The time an agent waits between two decision requests: eighty seconds.
pub const CHAT_COOLDOWN: i64 = 80_000_000;

/// What an agent is busy with.
#[derive(Debug)]
pub enum NPCState {
    /// Standing still, seeking nothing.
    Idle,
    /// Seeking grown plants and harvesting them.
    Farming,
    /// Walking to the region of this name.
    Traveling(String),
}

/// The mathematical model of an [`NPCState`].
pub enum NPCStateView {
    Idle,
    Farming,
    Traveling(Seq<char>),
}

impl View for NPCState {
    type V = NPCStateView;

    open spec fn view(&self) -> NPCStateView {
        match self {
            NPCState::Idle => NPCStateView::Idle,
            NPCState::Farming => NPCStateView::Farming,
            NPCState::Traveling(destination) => NPCStateView::Traveling(destination@),
        }
    }
}

impl DeepView for NPCState {
    type V = NPCStateView;

    open spec fn deep_view(&self) -> NPCStateView {
        self@
    }
}

impl Clone for NPCState {
    fn clone(&self) -> (r: NPCState)
        ensures
            r == *self,
    {
        match self {
            NPCState::Idle => NPCState::Idle,
            NPCState::Farming => NPCState::Farming,
            NPCState::Traveling(destination) => NPCState::Traveling(destination.clone()),
        }
    }
}

/// How an agent is told what it is busy with.
pub open spec fn narration(state: NPCStateView) -> Seq<char> {
    match state {
        NPCStateView::Idle => "You are currently idle."@,
        NPCStateView::Farming => "You are currently farming."@,
        NPCStateView::Traveling(destination) => "You are currently traveling to "@ + destination
            + ". "@,
    }
}

impl NPCState {
    /// How an agent is told what it is busy with.
    pub fn get_context(&self) -> (r: String)
        ensures
            r@ == narration(self@),
    {
        match self {
            NPCState::Idle => String::from_str("You are currently idle."),
            NPCState::Farming => String::from_str("You are currently farming."),
            NPCState::Traveling(destination) => {
                let mut out: String = String::from_str("You are currently traveling to ");
                out.append(destination.as_str());
                out.append(". ");
                out
            },
        }
    }
}

/// The part of a character that makes it an agent.
#[derive(Debug)]
pub struct NPC {
    /// Who the agent is, in words. Never changed after creation.
    pub backstory: String,
    /// The time left until the agent may ask for its next decision.
    pub chat_cooldown: i64,
    /// What the agent has seen others do, in the order it saw it.
    pub history: Vec<(String, Action)>,
    /// What the agent is busy with.
    pub state: NPCState,
    /// The name of the region the agent may harvest in, if it is bound to one.
    pub property: Option<String>,
    /// Whether a decision request of this agent is still unanswered.
    pub pending: bool,
}

/// The mathematical model of an [`NPC`].
pub struct NPCView {
    pub backstory: Seq<char>,
    pub chat_cooldown: int,
    pub history: Seq<(Seq<char>, ActionView)>,
    pub state: NPCStateView,
    pub property: Option<Seq<char>>,
    pub pending: bool,
}

impl View for NPC {
    type V = NPCView;

    open spec fn view(&self) -> NPCView {
        NPCView {
            backstory: self.backstory@,
            chat_cooldown: self.chat_cooldown as int,
            history: self.history.deep_view(),
            state: self.state@,
            property: self.property.deep_view(),
            pending: self.pending,
        }
    }
}

impl DeepView for NPC {
    type V = NPCView;

    open spec fn deep_view(&self) -> NPCView {
        self@
    }
}

impl NPCView {
    /// An agent without a story, idle, bound to no property, half a
    /// cooldown away from its first request.
    pub open spec fn fresh() -> NPCView {
        NPCView {
            backstory: Seq::empty(),
            chat_cooldown: CHAT_COOLDOWN / 2,
            history: Seq::empty(),
            state: NPCStateView::Idle,
            property: None,
            pending: false,
        }
    }
}

impl Default for NPC {
    fn default() -> (r: NPC)
        ensures
            r@ == NPCView::fresh(),
    {
        let r = NPC {
            backstory: String::new(),
            chat_cooldown: CHAT_COOLDOWN / 2,
            history: Vec::new(),
            state: NPCState::Idle,
            property: None,
            pending: false,
        };
        assert(r.history.deep_view() =~= Seq::empty());
        r
    }
}

} // verus!
