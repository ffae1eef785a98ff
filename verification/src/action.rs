//! What a character can do in a tick, and how each deed is told afterwards.

use vstd::prelude::*;
use vstd::std_specs::cmp::PartialEqSpecImpl;
use vstd::string::*;

verus! {

/// Something a character has queued to do this tick.
#[derive(Debug, Eq, Hash)]
pub enum Action {
    Eat,
    Harvest,
    Talk(String),
}

/// The mathematical model of an [`Action`].
pub enum ActionView {
    Eat,
    Harvest,
    Talk(Seq<char>),
}

impl View for Action {
    type V = ActionView;

    open spec fn view(&self) -> ActionView {
        match self {
            Action::Eat => ActionView::Eat,
            Action::Harvest => ActionView::Harvest,
            Action::Talk(speech) => ActionView::Talk(speech@),
        }
    }
}

impl DeepView for Action {
    type V = ActionView;

    open spec fn deep_view(&self) -> ActionView {
        self@
    }
}

impl PartialEq for Action {
    fn eq(&self, other: &Action) -> (r: bool) {
        match (self, other) {
            (Action::Eat, Action::Eat) => true,
            (Action::Harvest, Action::Harvest) => true,
            (Action::Talk(a), Action::Talk(b)) => *a == *b,
            _ => false,
        }
    }
}

impl PartialEqSpecImpl for Action {
    open spec fn obeys_eq_spec() -> bool {
        true
    }

    open spec fn eq_spec(&self, other: &Action) -> bool {
        self@ == other@
    }
}

impl Clone for Action {
    fn clone(&self) -> (r: Action)
        ensures
            r == *self,
    {
        match self {
            Action::Eat => Action::Eat,
            Action::Harvest => Action::Harvest,
            Action::Talk(speech) => Action::Talk(speech.clone()),
        }
    }
}

/// The sentence that tells of `action` done by `actor`. Each ends in a
/// space, so that sentences can follow one another directly.
pub open spec fn narrative(actor: Seq<char>, action: ActionView) -> Seq<char> {
    match action {
        ActionView::Eat => actor + " eats something. "@,
        ActionView::Harvest => actor + " harvests. "@,
        ActionView::Talk(speech) => actor + " says \""@ + speech + "\". "@,
    }
}

impl Action {
    /// The sentence that tells of this action done by `actor`.
    pub fn get_context(&self, actor: &str) -> (r: String)
        ensures
            r@ == narrative(actor@, self@),
    {
        let mut out: String = String::from_str(actor);
        match self {
            Action::Eat => {
                out.append(" eats something. ");
            },
            Action::Harvest => {
                out.append(" harvests. ");
            },
            Action::Talk(speech) => {
                out.append(" says \"");
                out.append(speech.as_str());
                out.append("\". ");
            },
        }
        out
    }
}

} // verus!
