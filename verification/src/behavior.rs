//! How characters move: the player by its keys, a farming agent toward the
//! nearest grown plant it may harvest, a traveling agent toward its
//! destination.

use crate::action::{Action, ActionView};
use crate::character::{Character, CharacterView};
use crate::geometry::{clamp_coordinate, distance_squared, moved_toward, within_range, Point};
use crate::npc::{NPCState, NPCStateView, NPCView};
use crate::plant::Plant;
use crate::region::{find_region, lemma_region_named, region_named, Region, RegionView};
use vstd::prelude::*;

verus! {

/// How fast characters walk: a hundred and fifty world units a second.
pub const CHARACTER_SPEED: u64 = 150;

/// How far a character walks in `dt` microseconds, in thousandths of a
/// world unit.
pub open spec fn stride(dt: int) -> int {
    dt * CHARACTER_SPEED / 1000
}

/// How far a character walks in `dt` microseconds.
pub fn stride_of(dt: u32) -> (r: u64)
    ensures
        r == stride(dt as int),
{
    dt as u64 * CHARACTER_SPEED / 1000
}

/// Whether some region holds both points.
pub open spec fn share_region(regions: Seq<RegionView>, a: Point, b: Point) -> bool {
    exists|k: int|
        0 <= k < regions.len() && (#[trigger] regions[k]).range.contains(a)
            && regions[k].range.contains(b)
}

/// Whether the region called `name` holds the point.
pub open spec fn in_region_named(regions: Seq<RegionView>, name: Seq<char>, p: Point) -> bool {
    region_named(regions, name) matches Some(k) && regions[k].range.contains(p)
}

/// Whether an agent at `at` may go for the plant: the plant is grown, and
/// it stands on the agent's property, or, for an agent bound to no
/// property, in a region that the agent stands in too.
pub open spec fn farmable(
    property: Option<Seq<char>>,
    at: Point,
    plant: Plant,
    regions: Seq<RegionView>,
) -> bool {
    plant.is_grown() && match property {
        Some(name) => in_region_named(regions, name, plant.position),
        None => share_region(regions, at, plant.position),
    }
}

/// The index of the plant to go for among the first `n` plants: the
/// nearest that the agent may go for, and of equally near ones the first.
pub open spec fn nearest_among(
    property: Option<Seq<char>>,
    at: Point,
    plants: Seq<Plant>,
    regions: Seq<RegionView>,
    n: int,
) -> Option<int>
    decreases n,
{
    if n <= 0 {
        None
    } else {
        let best = nearest_among(property, at, plants, regions, n - 1);
        if farmable(property, at, plants[n - 1], regions) && (best is None || distance_squared(
            plants[n - 1].position,
            at,
        ) < distance_squared(plants[best.unwrap()].position, at)) {
            Some(n - 1)
        } else {
            best
        }
    }
}

/// The index of the plant that an agent at `at` goes for.
pub open spec fn target_plant(
    property: Option<Seq<char>>,
    at: Point,
    plants: Seq<Plant>,
    regions: Seq<RegionView>,
) -> Option<int> {
    nearest_among(property, at, plants, regions, plants.len() as int)
}

/// The character after the farming step of a tick that lasted `dt`.
///
/// Only a farming agent with a plant to go for does anything: it walks one
/// stride toward the plant, and queues a harvest where the plant was within
/// its harvest range before the stride.
pub open spec fn farmed(
    c: CharacterView,
    plants: Seq<Plant>,
    regions: Seq<RegionView>,
    dt: int,
) -> CharacterView {
    match c.npc {
        Some(npc) => if npc.state is Farming {
            match target_plant(npc.property, c.position, plants, regions) {
                Some(t) => CharacterView {
                    position: moved_toward(c.position, plants[t].position, stride(dt)),
                    actions: if within_range(
                        plants[t].position,
                        c.position,
                        plants[t].harvest_range() as int,
                    ) {
                        c.actions.push(ActionView::Harvest)
                    } else {
                        c.actions
                    },
                    ..c
                },
                None => c,
            }
        } else {
            c
        },
        None => c,
    }
}

/// The character after the traveling step of a tick that lasted `dt`.
///
/// Only a traveling agent does anything. Inside its destination it has
/// arrived and idles. Outside it walks one stride toward the centre of the
/// destination. Where no region has the destination's name there is nowhere
/// to walk to, and the agent idles.
pub open spec fn traveled(c: CharacterView, regions: Seq<RegionView>, dt: int) -> CharacterView {
    match c.npc {
        Some(npc) => match npc.state {
            NPCStateView::Traveling(destination) => match region_named(regions, destination) {
                Some(k) => if regions[k].range.contains(c.position) {
                    CharacterView { npc: Some(NPCView { state: NPCStateView::Idle, ..npc }), ..c }
                } else {
                    CharacterView {
                        position: moved_toward(c.position, regions[k].range.center(), stride(dt)),
                        ..c
                    }
                },
                None => CharacterView {
                    npc: Some(NPCView { state: NPCStateView::Idle, ..npc }),
                    ..c
                },
            },
            _ => c,
        },
        None => c,
    }
}

/// What the player asks of its character in a tick.
#[derive(Clone, Copy, Debug, PartialEq, Eq, Structural)]
pub struct PlayerIntent {
    pub left: bool,
    pub right: bool,
    pub up: bool,
    pub down: bool,
    pub harvest: bool,
}

/// The direction along one axis that two opposite keys ask for.
pub open spec fn axis(backward: bool, forward: bool) -> int {
    (if forward { 1int } else { 0int }) - (if backward { 1int } else { 0int })
}

/// The character after it has followed the player's intent for `dt`: one
/// stride along each axis that a key asks for, and a harvest queued where
/// the player asks for one.
pub open spec fn steered(c: CharacterView, intent: PlayerIntent, dt: int) -> CharacterView {
    CharacterView {
        position: Point {
            x: clamp_coordinate(c.position.x + axis(intent.left, intent.right) * stride(dt)),
            y: clamp_coordinate(c.position.y + axis(intent.down, intent.up) * stride(dt)),
        },
        actions: if intent.harvest {
            c.actions.push(ActionView::Harvest)
        } else {
            c.actions
        },
        ..c
    }
}

/// How many of the characters the player steers.
pub open spec fn player_count(characters: Seq<CharacterView>) -> nat {
    characters.filter(|c: CharacterView| c.player).len()
}

/// Every character after the input step of a tick that lasted `dt`. The
/// intent is followed where exactly one character is the player's.
pub open spec fn input_applied(
    characters: Seq<CharacterView>,
    intent: PlayerIntent,
    dt: int,
) -> Seq<CharacterView> {
    if player_count(characters) == 1 {
        characters.map_values(
            |c: CharacterView| if c.player {
                steered(c, intent, dt)
            } else {
                c
            },
        )
    } else {
        characters
    }
}

/// Every character after the player has submitted `text` to say: each
/// character of the player queues it.
pub open spec fn speech_submitted(characters: Seq<CharacterView>, text: Seq<char>) -> Seq<
    CharacterView,
> {
    characters.map_values(
        |c: CharacterView| if c.player {
            CharacterView { actions: c.actions.push(ActionView::Talk(text)), ..c }
        } else {
            c
        },
    )
}

/// Every character after the farming step of a tick that lasted `dt`.
pub open spec fn farmers_updated(
    characters: Seq<CharacterView>,
    plants: Seq<Plant>,
    regions: Seq<RegionView>,
    dt: int,
) -> Seq<CharacterView> {
    characters.map_values(|c: CharacterView| farmed(c, plants, regions, dt))
}

/// Every character after the traveling step of a tick that lasted `dt`.
pub open spec fn travelers_updated(
    characters: Seq<CharacterView>,
    regions: Seq<RegionView>,
    dt: int,
) -> Seq<CharacterView> {
    characters.map_values(|c: CharacterView| traveled(c, regions, dt))
}

/// What [`target_plant`] picks: a plant the agent may go for, no farther
/// than any other such plant, and nearer than every such plant before it.
pub proof fn lemma_nearest_among(
    property: Option<Seq<char>>,
    at: Point,
    plants: Seq<Plant>,
    regions: Seq<RegionView>,
    n: int,
)
    requires
        0 <= n <= plants.len(),
    ensures
        match nearest_among(property, at, plants, regions, n) {
            Some(t) => {
                &&& 0 <= t < n
                &&& farmable(property, at, plants[t], regions)
                &&& forall|j: int|
                    0 <= j < n && farmable(property, at, #[trigger] plants[j], regions)
                        ==> distance_squared(plants[t].position, at) <= distance_squared(
                        plants[j].position,
                        at,
                    )
                &&& forall|j: int|
                    0 <= j < t && farmable(property, at, #[trigger] plants[j], regions)
                        ==> distance_squared(plants[t].position, at) < distance_squared(
                        plants[j].position,
                        at,
                    )
            },
            None => forall|j: int|
                0 <= j < n ==> !farmable(property, at, #[trigger] plants[j], regions),
        },
    decreases n,
{
    if n > 0 {
        lemma_nearest_among(property, at, plants, regions, n - 1);
    }
}

/// Whether some region holds both points.
fn regions_share(regions: &Vec<Region>, a: &Point, b: &Point) -> (r: bool)
    ensures
        r == share_region(regions.deep_view(), *a, *b),
{
    let n: usize = regions.len();
    let mut k: usize = 0;
    while k < n
        invariant
            n == regions.len(),
            k <= n,
            forall|j: int|
                0 <= j < k ==> !((#[trigger] regions.deep_view()[j]).range.contains(*a)
                    && regions.deep_view()[j].range.contains(*b)),
        decreases n - k,
    {
        if regions[k].range.contains(*a) && regions[k].range.contains(*b) {
            assert(regions.deep_view()[k as int].range.contains(*a));
            return true;
        }
        k = k + 1;
    }
    false
}

/// Whether an agent with this property, standing at `at`, may go for the
/// plant: see [`farmable`].
fn may_farm(property: &Option<String>, at: &Point, plant: &Plant, regions: &Vec<Region>) -> (r:
    bool)
    ensures
        r == farmable(property.deep_view(), *at, *plant, regions.deep_view()),
{
    if !plant.is_grown() {
        return false;
    }
    match property {
        Some(name) => {
            proof {
                lemma_region_named(regions.deep_view(), name@);
            }
            match find_region(regions, name) {
                Some(k) => regions[k].range.contains(plant.position),
                None => false,
            }
        },
        None => regions_share(regions, at, &plant.position),
    }
}

/// The plant that an agent with this property, standing at `at`, goes
/// for: see [`target_plant`].
pub fn nearest_grown_plant(
    property: &Option<String>,
    at: &Point,
    plants: &Vec<Plant>,
    regions: &Vec<Region>,
) -> (r: Option<usize>)
    ensures
        match r {
            Some(t) => t < plants.len() && target_plant(
                property.deep_view(),
                *at,
                plants@,
                regions.deep_view(),
            ) == Some(t as int),
            None => target_plant(property.deep_view(), *at, plants@, regions.deep_view()) is None,
        },
{
    let n: usize = plants.len();
    let mut best: Option<usize> = None;
    let mut best_distance: u128 = 0;
    let mut k: usize = 0;
    while k < n
        invariant
            n == plants.len(),
            k <= n,
            match best {
                Some(t) => nearest_among(
                    property.deep_view(),
                    *at,
                    plants@,
                    regions.deep_view(),
                    k as int,
                ) == Some(t as int) && t < k && best_distance == distance_squared(
                    plants[t as int].position,
                    *at,
                ),
                None => nearest_among(
                    property.deep_view(),
                    *at,
                    plants@,
                    regions.deep_view(),
                    k as int,
                ) is None,
            },
        decreases n - k,
    {
        if may_farm(property, at, &plants[k], regions) {
            let d: u128 = plants[k].position.distance_squared(at);
            if best.is_none() || d < best_distance {
                best = Some(k);
                best_distance = d;
            }
        }
        k = k + 1;
    }
    best
}

/// The farming step for the character at index `i`: see [`farmed`].
fn farm(
    characters: &mut Vec<Character>,
    i: usize,
    plants: &Vec<Plant>,
    regions: &Vec<Region>,
    dt: u32,
)
    requires
        i < old(characters).len(),
    ensures
        final(characters).len() == old(characters).len(),
        final(characters)[i as int]@ == farmed(
            old(characters)[i as int]@,
            plants@,
            regions.deep_view(),
            dt as int,
        ),
        forall|j: int|
            0 <= j < old(characters).len() && j != i ==> final(characters)[j] == old(
                characters,
            )[j],
{
    let ghost c: CharacterView = characters[i as int]@;
    let target: Option<usize> = match &characters[i].npc {
        Some(npc) => match npc.state {
            NPCState::Farming => nearest_grown_plant(
                &npc.property,
                &characters[i].position,
                plants,
                regions,
            ),
            _ => None,
        },
        None => None,
    };
    match target {
        Some(t) => {
            let at: Point = characters[i].position;
            let goal: Point = plants[t].position;
            if goal.within(&at, plants[t].harvest_range()) {
                characters[i].actions.push(Action::Harvest);
                assert(characters[i as int].actions.deep_view() =~= c.actions.push(
                    ActionView::Harvest,
                ));
            }
            characters[i].position = at.step_toward(&goal, stride_of(dt));
        },
        None => {},
    }
}

/// The farming step of a tick that lasted `dt` microseconds: see [`farmed`].
pub fn update_farmers(
    characters: &mut Vec<Character>,
    plants: &Vec<Plant>,
    regions: &Vec<Region>,
    dt: u32,
)
    ensures
        final(characters).deep_view() == farmers_updated(
            old(characters).deep_view(),
            plants@,
            regions.deep_view(),
            dt as int,
        ),
{
    let n: usize = characters.len();
    let ghost start: Seq<CharacterView> = characters.deep_view();
    let mut i: usize = 0;
    while i < n
        invariant
            n == characters.len(),
            start == old(characters).deep_view(),
            start.len() == n,
            i <= n,
            forall|j: int|
                0 <= j < i ==> characters[j]@ == farmed(
                    start[j],
                    plants@,
                    regions.deep_view(),
                    dt as int,
                ),
            forall|j: int| i <= j < n ==> characters[j]@ == start[j],
        decreases n - i,
    {
        farm(characters, i, plants, regions, dt);
        i = i + 1;
    }
    assert(characters.deep_view() =~= farmers_updated(
        start,
        plants@,
        regions.deep_view(),
        dt as int,
    ));
}

/// Where a traveling agent is headed.
enum Heading {
    /// The character does not travel.
    Nowhere,
    /// No region has the destination's name.
    Lost,
    /// The region at this index.
    Region(usize),
}

/// The traveling step for the character at index `i`: see [`traveled`].
fn travel(characters: &mut Vec<Character>, i: usize, regions: &Vec<Region>, dt: u32)
    requires
        i < old(characters).len(),
    ensures
        final(characters).len() == old(characters).len(),
        final(characters)[i as int]@ == traveled(
            old(characters)[i as int]@,
            regions.deep_view(),
            dt as int,
        ),
        forall|j: int|
            0 <= j < old(characters).len() && j != i ==> final(characters)[j] == old(
                characters,
            )[j],
{
    let heading: Heading = match &characters[i].npc {
        Some(npc) => match &npc.state {
            NPCState::Traveling(destination) => {
                proof {
                    lemma_region_named(regions.deep_view(), destination@);
                }
                match find_region(regions, destination) {
                    Some(k) => Heading::Region(k),
                    None => Heading::Lost,
                }
            },
            _ => Heading::Nowhere,
        },
        None => Heading::Nowhere,
    };
    let at: Point = characters[i].position;
    let arrived: bool = match heading {
        Heading::Nowhere => false,
        Heading::Lost => true,
        Heading::Region(k) => regions[k].range.contains(at),
    };
    if arrived {
        match &mut characters[i].npc {
            Some(npc) => {
                npc.state = NPCState::Idle;
            },
            None => {},
        }
    } else {
        match heading {
            Heading::Region(k) => {
                let goal: Point = regions[k].range.center();
                characters[i].position = at.step_toward(&goal, stride_of(dt));
            },
            _ => {},
        }
    }
}

/// The traveling step of a tick that lasted `dt` microseconds: see
/// [`traveled`].
pub fn update_travelers(characters: &mut Vec<Character>, regions: &Vec<Region>, dt: u32)
    ensures
        final(characters).deep_view() == travelers_updated(
            old(characters).deep_view(),
            regions.deep_view(),
            dt as int,
        ),
{
    let n: usize = characters.len();
    let ghost start: Seq<CharacterView> = characters.deep_view();
    let mut i: usize = 0;
    while i < n
        invariant
            n == characters.len(),
            start == old(characters).deep_view(),
            start.len() == n,
            i <= n,
            forall|j: int|
                0 <= j < i ==> characters[j]@ == traveled(start[j], regions.deep_view(), dt as int),
            forall|j: int| i <= j < n ==> characters[j]@ == start[j],
        decreases n - i,
    {
        travel(characters, i, regions, dt);
        i = i + 1;
    }
    assert(characters.deep_view() =~= travelers_updated(start, regions.deep_view(), dt as int));
}

/// One coordinate after a stride along an axis.
fn steer_coordinate(from: i32, backward: bool, forward: bool, step: u64) -> (r: i32)
    ensures
        r == clamp_coordinate(from + axis(backward, forward) * step),
{
    let direction: i128 = if forward == backward {
        0
    } else if forward {
        1
    } else {
        -1
    };
    let moved: i128 = from as i128 + direction * (step as i128);
    if moved < i32::MIN as i128 {
        i32::MIN
    } else if moved > i32::MAX as i128 {
        i32::MAX
    } else {
        moved as i32
    }
}

/// How many of the characters the player steers.
fn count_players(characters: &Vec<Character>) -> (r: usize)
    ensures
        r == player_count(characters.deep_view()),
{
    let n: usize = characters.len();
    let ghost all: Seq<CharacterView> = characters.deep_view();
    let ghost steers = |c: CharacterView| c.player;
    let mut count: usize = 0;
    let mut k: usize = 0;
    assert(all.take(0).filter(steers) =~= Seq::empty()) by {
        reveal(Seq::filter);
    }
    while k < n
        invariant
            n == characters.len(),
            all == characters.deep_view(),
            steers == |c: CharacterView| c.player,
            k <= n,
            count <= k,
            count == all.take(k as int).filter(steers).len(),
        decreases n - k,
    {
        proof {
            reveal(Seq::filter);
            assert(all.take(k + 1).drop_last() =~= all.take(k as int));
        }
        if characters[k].player {
            count = count + 1;
        }
        k = k + 1;
    }
    assert(all.take(n as int) =~= all);
    count
}

/// The input step of a tick that lasted `dt` microseconds: see
/// [`input_applied`].
pub fn player_input(characters: &mut Vec<Character>, intent: &PlayerIntent, dt: u32)
    ensures
        final(characters).deep_view() == input_applied(
            old(characters).deep_view(),
            *intent,
            dt as int,
        ),
{
    if count_players(characters) != 1 {
        return ;
    }
    let n: usize = characters.len();
    let ghost start: Seq<CharacterView> = characters.deep_view();
    let step: u64 = stride_of(dt);
    let mut i: usize = 0;
    while i < n
        invariant
            n == characters.len(),
            start == old(characters).deep_view(),
            start.len() == n,
            step == stride(dt as int),
            i <= n,
            forall|j: int|
                0 <= j < i ==> characters[j]@ == (if start[j].player {
                    steered(start[j], *intent, dt as int)
                } else {
                    start[j]
                }),
            forall|j: int| i <= j < n ==> characters[j]@ == start[j],
        decreases n - i,
    {
        if characters[i].player {
            let at: Point = characters[i].position;
            characters[i].position = Point {
                x: steer_coordinate(at.x, intent.left, intent.right, step),
                y: steer_coordinate(at.y, intent.down, intent.up, step),
            };
            if intent.harvest {
                characters[i].actions.push(Action::Harvest);
                assert(characters[i as int].actions.deep_view() =~= start[i as int].actions.push(
                    ActionView::Harvest,
                ));
            }
        }
        i = i + 1;
    }
    assert(characters.deep_view() =~= input_applied(start, *intent, dt as int));
}

/// Queues `text` as what each character of the player says next: see
/// [`speech_submitted`].
pub fn submit_speech(characters: &mut Vec<Character>, text: &String)
    ensures
        final(characters).deep_view() == speech_submitted(old(characters).deep_view(), text@),
{
    let n: usize = characters.len();
    let ghost start: Seq<CharacterView> = characters.deep_view();
    let mut i: usize = 0;
    while i < n
        invariant
            n == characters.len(),
            start == old(characters).deep_view(),
            start.len() == n,
            i <= n,
            forall|j: int|
                0 <= j < i ==> characters[j]@ == (if start[j].player {
                    CharacterView {
                        actions: start[j].actions.push(ActionView::Talk(text@)),
                        ..start[j]
                    }
                } else {
                    start[j]
                }),
            forall|j: int| i <= j < n ==> characters[j]@ == start[j],
        decreases n - i,
    {
        if characters[i].player {
            characters[i].actions.push(Action::Talk(text.clone()));
            assert(characters[i as int].actions.deep_view() =~= start[i as int].actions.push(
                ActionView::Talk(text@),
            ));
        }
        i = i + 1;
    }
    assert(characters.deep_view() =~= speech_submitted(start, text@));
}

} // verus!
