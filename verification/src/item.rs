//! The kinds of item a character can hold.
//!
//! Satiety is counted in millionths of a unit, so that one unit lost per
//! second is one millionth lost per microsecond.

use vstd::prelude::*;
use vstd::string::*;

verus! {

/// Satiety gained from eating one plant: ten units.
pub const PLANT_NUTRITION: i64 = 10_000_000;

/// Satiety gained from eating one piece of meat: twenty units.
pub const MEAT_NUTRITION: i64 = 20_000_000;

/// A kind of item.
#[derive(Clone, Copy, Debug, PartialEq, Eq, Hash, Structural)]
pub enum Item {
    Plant,
    Meat,
}

impl View for Item {
    type V = Item;

    open spec fn view(&self) -> Item {
        *self
    }
}

impl DeepView for Item {
    type V = Item;

    open spec fn deep_view(&self) -> Item {
        *self
    }
}

impl Item {
    /// The satiety that eating one item of this kind gives.
    pub open spec fn nutrition(self) -> int {
        match self {
            Item::Plant => PLANT_NUTRITION as int,
            Item::Meat => MEAT_NUTRITION as int,
        }
    }

    /// The name of the kind, as shown to the player.
    pub open spec fn label(self) -> Seq<char> {
        match self {
            Item::Plant => "Plant"@,
            Item::Meat => "Meat"@,
        }
    }

    /// The satiety that eating one item of this kind gives.
    pub fn saturation(&self) -> (r: i64)
        ensures
            r == self.nutrition(),
            r > 0,
    {
        match self {
            Item::Plant => PLANT_NUTRITION,
            Item::Meat => MEAT_NUTRITION,
        }
    }

    /// The name of the kind, as shown to the player.
    pub fn name(&self) -> (r: String)
        ensures
            r@ == self.label(),
    {
        match self {
            Item::Plant => String::from_str("Plant"),
            Item::Meat => String::from_str("Meat"),
        }
    }
}

} // verus!
