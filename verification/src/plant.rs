//! Harvestable plants: growth, growth stage, harvest range and planting.
//!
//! Growth is counted in thousandths: `0` is a bare patch and
//! [`GROWTH_FULL`] a plant ready to harvest.

use crate::geometry::{Point, Rect};
use vstd::prelude::*;

verus! {

/// The growth of a fully grown plant.
pub const GROWTH_FULL: u32 = 1000;

/// What a plant grows by in one tick.
pub const GROWTH_STEP: u32 = 1;

/// The number of growth stages above the bare patch.
pub const GROWTH_STAGES: u32 = 3;

/// From how far a fully grown plant can be harvested: fifty world units.
pub const HARVEST_RANGE: u32 = 50_000;

/// The distance between neighbouring plants of a planted field: sixty world
/// units.
pub const PLANT_SPACING: i32 = 60_000;

/// A harvestable plant.
#[derive(Clone, Copy, Debug, PartialEq, Eq, Structural)]
pub struct Plant {
    pub position: Point,
    pub growth: u32,
}

impl View for Plant {
    type V = Plant;

    open spec fn view(&self) -> Plant {
        *self
    }
}

impl DeepView for Plant {
    type V = Plant;

    open spec fn deep_view(&self) -> Plant {
        *self
    }
}

impl Default for Plant {
    fn default() -> (r: Plant)
        ensures
            r == Plant::seed(Point { x: 0, y: 0 }),
    {
        Plant { position: Point { x: 0, y: 0 }, growth: 0 }
    }
}

impl Plant {
    /// A plant that has not grown yet, at `position`.
    pub open spec fn seed(position: Point) -> Plant {
        Plant { position, growth: 0 }
    }

    /// Whether the plant is ready to harvest.
    pub open spec fn spec_is_grown(&self) -> bool {
        self.growth >= GROWTH_FULL
    }

    /// The growth stage, from `0` for a bare patch to [`GROWTH_STAGES`] for a
    /// fully grown plant.
    pub open spec fn spec_get_growth_stage(&self) -> u32 {
        if self.growth >= GROWTH_FULL {
            GROWTH_STAGES
        } else {
            (self.growth * GROWTH_STAGES / (GROWTH_FULL as int)) as u32
        }
    }

    /// From how far the plant can be harvested: a share of [`HARVEST_RANGE`]
    /// that grows with the stage, and all of it once the plant is grown.
    pub open spec fn spec_harvest_range(&self) -> u32 {
        (HARVEST_RANGE * self.spec_get_growth_stage() / (GROWTH_STAGES as int)) as u32
    }

    /// The plant after growing by `amount`, which never takes it past
    /// [`GROWTH_FULL`].
    pub open spec fn grown_by(self, amount: int) -> Plant {
        Plant {
            growth: if self.growth + amount > GROWTH_FULL {
                GROWTH_FULL
            } else {
                (self.growth + amount) as u32
            },
            ..self
        }
    }

    /// The plant after a harvest: back to a bare patch.
    pub open spec fn harvested(self) -> Plant {
        Plant { growth: 0, ..self }
    }

    /// Whether the plant is ready to harvest.
    #[verifier::when_used_as_spec(spec_is_grown)]
    pub fn is_grown(&self) -> (r: bool)
        ensures
            r == self.spec_is_grown(),
    {
        self.growth >= GROWTH_FULL
    }

    /// The growth stage of the plant.
    #[verifier::when_used_as_spec(spec_get_growth_stage)]
    pub fn get_growth_stage(&self) -> (r: u32)
        ensures
            r == self.spec_get_growth_stage(),
            r <= GROWTH_STAGES,
    {
        if self.growth >= GROWTH_FULL {
            GROWTH_STAGES
        } else {
            self.growth * GROWTH_STAGES / GROWTH_FULL
        }
    }

    /// From how far the plant can be harvested.
    #[verifier::when_used_as_spec(spec_harvest_range)]
    pub fn harvest_range(&self) -> (r: u32)
        ensures
            r == self.spec_harvest_range(),
            r <= HARVEST_RANGE,
            self.spec_is_grown() ==> r == HARVEST_RANGE,
    {
        HARVEST_RANGE * self.get_growth_stage() / GROWTH_STAGES
    }

    /// Grows the plant by `amount`, stopping at [`GROWTH_FULL`].
    pub fn grow(&mut self, amount: u32)
        ensures
            *final(self) == old(self).grown_by(amount as int),
    {
        if amount >= GROWTH_FULL || self.growth >= GROWTH_FULL - amount {
            self.growth = GROWTH_FULL;
        } else {
            self.growth = self.growth + amount;
        }
    }
}

/// Every plant after one tick of growth.
pub open spec fn grown_field(plants: Seq<Plant>) -> Seq<Plant> {
    plants.map_values(|p: Plant| p.grown_by(GROWTH_STEP as int))
}

/// Every plant after `ticks` ticks of growth.
pub open spec fn grown_field_after(plants: Seq<Plant>, ticks: nat) -> Seq<Plant>
    decreases ticks,
{
    if ticks == 0 {
        plants
    } else {
        grown_field(grown_field_after(plants, (ticks - 1) as nat))
    }
}

/// Lets every plant grow by one tick's worth.
pub fn update_plants(plants: &mut Vec<Plant>)
    ensures
        final(plants)@ == grown_field(old(plants)@),
{
    let n: usize = plants.len();
    let mut i: usize = 0;
    while i < n
        invariant
            i <= n,
            plants@.len() == n,
            old(plants)@.len() == n,
            forall|j: int|
                0 <= j < i ==> plants@[j] == old(plants)@[j].grown_by(GROWTH_STEP as int),
            forall|j: int| i <= j < n ==> plants@[j] == old(plants)@[j],
        decreases n - i,
    {
        plants[i].grow(GROWTH_STEP);
        i = i + 1;
    }
    assert(plants@ =~= grown_field(old(plants)@));
}

/// How many grid lines fit from `low` to `high`, both ends included.
pub open spec fn grid_count(low: int, high: int) -> nat {
    if low > high {
        0
    } else {
        ((high - low) / (PLANT_SPACING as int) + 1) as nat
    }
}

/// The seeds planted along the grid line at `x`, from the low edge of `rect`
/// upward.
pub open spec fn grid_column(rect: Rect, x: int) -> Seq<Plant> {
    Seq::new(
        grid_count(rect.min.y as int, rect.max.y as int),
        |j: int| Plant::seed(Point { x: x as i32, y: (rect.min.y + j * PLANT_SPACING) as i32 }),
    )
}

/// The seeds of the first `columns` grid lines of `rect`, line after line.
pub open spec fn grid_columns(rect: Rect, columns: nat) -> Seq<Plant>
    decreases columns,
{
    if columns == 0 {
        Seq::empty()
    } else {
        grid_columns(rect, (columns - 1) as nat) + grid_column(
            rect,
            rect.min.x + (columns - 1) * PLANT_SPACING,
        )
    }
}

/// The seeds that cover `rect`: one every [`PLANT_SPACING`] along both
/// axes, starting in the low corner, the border included.
pub open spec fn planted_grid(rect: Rect) -> Seq<Plant> {
    grid_columns(rect, grid_count(rect.min.x as int, rect.max.x as int))
}

/// Plants seeds all over `rect`: see [`planted_grid`].
pub fn fill_rect_with_plants(plants: &mut Vec<Plant>, rect: &Rect)
    ensures
        final(plants)@ == old(plants)@ + planted_grid(*rect),
{
    let ghost columns: nat = grid_count(rect.min.x as int, rect.max.x as int);
    let ghost rows: nat = grid_count(rect.min.y as int, rect.max.y as int);
    let mut x: i64 = rect.min.x as i64;
    let ghost mut column: nat = 0;
    assert(plants@ =~= old(plants)@ + grid_columns(*rect, 0));
    while x <= rect.max.x as i64
        invariant
            columns == grid_count(rect.min.x as int, rect.max.x as int),
            rows == grid_count(rect.min.y as int, rect.max.y as int),
            x == rect.min.x + column * PLANT_SPACING,
            column <= columns,
            x > rect.max.x ==> column == columns,
            plants@ == old(plants)@ + grid_columns(*rect, column),
        decreases rect.max.x + PLANT_SPACING - x,
    {
        let ghost before: Seq<Plant> = plants@;
        let mut y: i64 = rect.min.y as i64;
        let ghost mut row: nat = 0;
        assert(plants@ =~= before + grid_column(*rect, x as int).take(0));
        while y <= rect.max.y as i64
            invariant
                rows == grid_count(rect.min.y as int, rect.max.y as int),
                rect.min.x <= x <= rect.max.x,
                y == rect.min.y + row * PLANT_SPACING,
                row <= rows,
                y > rect.max.y ==> row == rows,
                plants@ == before + grid_column(*rect, x as int).take(row as int),
            decreases rect.max.y + PLANT_SPACING - y,
        {
            plants.push(Plant { position: Point { x: x as i32, y: y as i32 }, growth: 0 });
            assert(plants@ =~= before + grid_column(*rect, x as int).take(row as int + 1));
            y = y + PLANT_SPACING as i64;
            proof {
                row = row + 1;
            }
        }
        assert(grid_column(*rect, x as int).take(rows as int) =~= grid_column(*rect, x as int));
        assert(plants@ =~= old(plants)@ + grid_columns(*rect, column + 1));
        x = x + PLANT_SPACING as i64;
        proof {
            column = column + 1;
        }
    }
}

} // verus!
