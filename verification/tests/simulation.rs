use villagers::action::Action;
use villagers::behavior::{
    nearest_grown_plant, player_input, stride_of, submit_speech, update_farmers,
    update_travelers, PlayerIntent,
};
use villagers::character::{Character, INITIAL_SATIETY, LOW_SATIETY};
use villagers::geometry::{Point, Rect};
use villagers::history::{overhear, update_history};
use villagers::integrate::{DecisionError, LogicError, Reply, ToolCall};
use villagers::item::Item;
use villagers::npc::{NPCState, CHAT_COOLDOWN, NPC};
use villagers::plant::Plant;
use villagers::region::Region;
use villagers::resolve::handle_actions;
use villagers::saturation::{consolidate, find_edible, inventory_update, update_saturation};
use villagers::world::{SpawnError, World};

const SECOND: u32 = 1_000_000;

fn person(id: u64, name: &str, x: i32, y: i32) -> Character {
    Character { id, name: name.to_string(), position: Point { x, y }, ..Character::default() }
}

fn npc_in(id: u64, name: &str, x: i32, y: i32, state: NPCState) -> Character {
    Character {
        npc: Some(NPC { state, chat_cooldown: CHAT_COOLDOWN, ..NPC::default() }),
        ..person(id, name, x, y)
    }
}

fn grown(x: i32, y: i32) -> Plant {
    Plant { position: Point { x, y }, growth: 1000 }
}

fn field() -> Vec<Region> {
    vec![Region { name: "Field".to_string(), range: Rect::new(0, 0, 1_000_000, 1_000_000) }]
}

fn still() -> PlayerIntent {
    PlayerIntent { left: false, right: false, up: false, down: false, harvest: false }
}

#[test]
fn a_stride_is_a_hundred_and_fifty_units_a_second() {
    assert_eq!(stride_of(SECOND), 150_000);
    assert_eq!(stride_of(16_667), 2_500);
    assert_eq!(stride_of(0), 0);
    assert_eq!(stride_of(u32::MAX), 644_245_094);
}

#[test]
fn a_farmer_goes_for_the_nearest_grown_plant() {
    let plants = vec![
        grown(900_000, 0),
        Plant { position: Point { x: 10_000, y: 0 }, growth: 999 },
        grown(300_000, 400_000),
        grown(2_000_000, 0),
        grown(0, 500_000),
    ];
    let at = Point { x: 0, y: 0 };
    assert_eq!(nearest_grown_plant(&None, &at, &plants, &field()), Some(2));
    assert_eq!(nearest_grown_plant(&None, &at, &plants, &Vec::new()), None);
    assert_eq!(nearest_grown_plant(&None, &Point { x: -1, y: 0 }, &plants, &field()), None);
}

#[test]
fn of_equally_near_plants_the_first_is_the_target() {
    let plants = vec![grown(0, 500_000), grown(300_000, 400_000), grown(500_000, 0)];
    assert_eq!(nearest_grown_plant(&None, &Point { x: 0, y: 0 }, &plants, &field()), Some(0));
}

#[test]
fn a_farmer_with_a_property_farms_there_only() {
    let regions = vec![
        Region { name: "Field".to_string(), range: Rect::new(0, 0, 1_000_000, 1_000_000) },
        Region { name: "Home".to_string(), range: Rect::new(2_000_000, 0, 3_000_000, 1_000_000) },
    ];
    let plants = vec![grown(10_000, 10_000), grown(2_500_000, 500_000), grown(2_100_000, 0)];
    let at = Point { x: 0, y: 0 };
    let home = Some("Home".to_string());
    assert_eq!(nearest_grown_plant(&home, &at, &plants, &regions), Some(2));
    assert_eq!(nearest_grown_plant(&Some("Nowhere".to_string()), &at, &plants, &regions), None);
    assert_eq!(nearest_grown_plant(&None, &at, &plants, &regions), Some(0));
}

#[test]
fn a_farmer_walks_to_its_plant_and_harvests_once_in_range() {
    let plants = vec![grown(300_000, 400_000)];
    let mut characters = vec![
        npc_in(1, "Theo", 0, 0, NPCState::Farming),
        npc_in(2, "Jeff", 0, 0, NPCState::Idle),
        person(3, "James", 0, 0),
        npc_in(4, "Bill", 270_000, 360_000, NPCState::Farming),
        npc_in(5, "Anna", 270_001, 360_000, NPCState::Farming),
    ];
    update_farmers(&mut characters, &plants, &field(), SECOND);
    assert_eq!(characters[0].position, Point { x: 90_000, y: 120_000 });
    assert!(characters[0].actions.is_empty());
    assert_eq!(characters[1].position, Point { x: 0, y: 0 });
    assert_eq!(characters[2].position, Point { x: 0, y: 0 });
    // at a distance of exactly fifty units the plant is still out of range
    assert!(characters[3].actions.is_empty());
    assert_eq!(characters[3].position, Point { x: 360_000, y: 480_000 });
    assert_eq!(characters[4].actions, vec![Action::Harvest]);
}

#[test]
fn a_traveler_walks_to_the_centre_and_idles_on_arrival() {
    let regions = field();
    let mut characters = vec![
        npc_in(1, "Theo", 500_000, -1_500_000, NPCState::Traveling("Field".to_string())),
        npc_in(2, "Jeff", 0, 0, NPCState::Traveling("Field".to_string())),
        npc_in(3, "Bill", 5, 5, NPCState::Traveling("Atlantis".to_string())),
        npc_in(4, "Anna", -5, -5, NPCState::Farming),
    ];
    update_travelers(&mut characters, &regions, SECOND);
    assert_eq!(characters[0].position, Point { x: 500_000, y: -1_350_000 });
    assert!(matches!(characters[0].npc.as_ref().unwrap().state, NPCState::Traveling(_)));
    assert_eq!(characters[1].position, Point { x: 0, y: 0 });
    assert!(matches!(characters[1].npc.as_ref().unwrap().state, NPCState::Idle));
    assert_eq!(characters[2].position, Point { x: 5, y: 5 });
    assert!(matches!(characters[2].npc.as_ref().unwrap().state, NPCState::Idle));
    assert!(matches!(characters[3].npc.as_ref().unwrap().state, NPCState::Farming));
    for _ in 0..8 {
        update_travelers(&mut characters, &regions, SECOND);
    }
    assert_eq!(characters[0].position, Point { x: 500_000, y: -150_000 });
    update_travelers(&mut characters, &regions, SECOND);
    assert_eq!(characters[0].position, Point { x: 500_000, y: 0 });
    assert!(matches!(characters[0].npc.as_ref().unwrap().state, NPCState::Traveling(_)));
    update_travelers(&mut characters, &regions, SECOND);
    assert_eq!(characters[0].position, Point { x: 500_000, y: 0 });
    assert!(matches!(characters[0].npc.as_ref().unwrap().state, NPCState::Idle));
}

#[test]
fn the_player_moves_by_its_keys() {
    let mut characters = vec![person(1, "Theo", 0, 0), person(2, "James", 10, 20)];
    characters[1].player = true;
    let intent = PlayerIntent { left: false, right: true, up: false, down: true, harvest: true };
    player_input(&mut characters, &intent, SECOND);
    assert_eq!(characters[1].position, Point { x: 150_010, y: -149_980 });
    assert_eq!(characters[1].actions, vec![Action::Harvest]);
    assert_eq!(characters[0].position, Point { x: 0, y: 0 });
    assert!(characters[0].actions.is_empty());
    let intent = PlayerIntent { left: true, right: true, up: true, down: false, harvest: false };
    player_input(&mut characters, &intent, 2 * SECOND);
    assert_eq!(characters[1].position, Point { x: 150_010, y: 150_020 });
    assert_eq!(characters[1].actions, vec![Action::Harvest]);
}

#[test]
fn input_needs_exactly_one_player() {
    let intent = PlayerIntent { left: true, right: false, up: false, down: false, harvest: true };
    let mut nobody = vec![person(1, "Theo", 0, 0)];
    player_input(&mut nobody, &intent, SECOND);
    assert_eq!(nobody[0].position, Point { x: 0, y: 0 });
    assert!(nobody[0].actions.is_empty());
    let mut two = vec![person(1, "A", 0, 0), person(2, "B", 0, 0)];
    two[0].player = true;
    two[1].player = true;
    player_input(&mut two, &intent, SECOND);
    assert_eq!(two[0].position, Point { x: 0, y: 0 });
    assert!(two[1].actions.is_empty());
}

#[test]
fn the_player_stops_at_the_edge_of_the_plane() {
    let mut characters = vec![person(1, "James", i32::MIN + 5, i32::MAX - 5)];
    characters[0].player = true;
    let intent = PlayerIntent { left: true, right: false, up: true, down: false, harvest: false };
    player_input(&mut characters, &intent, u32::MAX);
    assert_eq!(characters[0].position, Point { x: i32::MIN, y: i32::MAX });
}

#[test]
fn submitted_speech_is_queued_for_the_player() {
    let mut characters = vec![person(1, "Theo", 0, 0), person(2, "James", 0, 0)];
    characters[1].player = true;
    submit_speech(&mut characters, &"Good day".to_string());
    assert!(characters[0].actions.is_empty());
    assert_eq!(characters[1].actions, vec![Action::Talk("Good day".to_string())]);
}

#[test]
fn an_inventory_is_put_in_order() {
    let mut items = vec![
        (Item::Meat, 2),
        (Item::Plant, 1),
        (Item::Plant, 0),
        (Item::Meat, 0),
        (Item::Plant, 4),
    ];
    consolidate(&mut items);
    assert_eq!(items, vec![(Item::Plant, 5), (Item::Meat, 2)]);
    let mut items = vec![(Item::Plant, 0), (Item::Meat, 3), (Item::Plant, 0)];
    consolidate(&mut items);
    assert_eq!(items, vec![(Item::Meat, 3)]);
    let mut items = vec![(Item::Plant, u32::MAX), (Item::Plant, 7)];
    consolidate(&mut items);
    assert_eq!(items, vec![(Item::Plant, u32::MAX)]);
    let mut items: Vec<(Item, u32)> = vec![(Item::Meat, 0)];
    consolidate(&mut items);
    assert!(items.is_empty());
}

#[test]
fn every_inventory_is_put_in_order() {
    let mut characters = vec![person(1, "A", 0, 0), person(2, "B", 0, 0)];
    characters[0].items = vec![(Item::Plant, 1), (Item::Plant, 1)];
    characters[1].items = vec![(Item::Meat, 0)];
    inventory_update(&mut characters);
    assert_eq!(characters[0].items, vec![(Item::Plant, 2)]);
    assert!(characters[1].items.is_empty());
}

#[test]
fn the_first_entry_to_eat_is_found() {
    assert_eq!(find_edible(&vec![(Item::Plant, 0), (Item::Meat, 1), (Item::Plant, 2)]), Some(1));
    assert_eq!(find_edible(&vec![(Item::Plant, 0), (Item::Meat, 0)]), None);
    assert_eq!(find_edible(&Vec::new()), None);
}

#[test]
fn the_hungry_who_hold_food_eat_and_are_sated() {
    let mut characters = vec![person(1, "Theo", 0, 0)];
    characters[0].items = vec![(Item::Plant, 1)];
    assert_eq!(characters[0].saturation, INITIAL_SATIETY);
    assert_eq!(INITIAL_SATIETY, 100_000_000);
    assert_eq!(LOW_SATIETY, 30_000_000);
    let mut plants: Vec<Plant> = Vec::new();
    for _ in 0..70 {
        update_saturation(&mut characters, SECOND);
        assert!(characters[0].actions.is_empty());
    }
    assert_eq!(characters[0].saturation, 30_000_000);
    update_saturation(&mut characters, SECOND);
    assert_eq!(characters[0].saturation, 29_000_000);
    assert_eq!(characters[0].actions, vec![Action::Eat]);
    handle_actions(&mut characters, &mut plants);
    assert_eq!(characters[0].saturation, 39_000_000);
    assert_eq!(characters[0].items, vec![(Item::Plant, 0)]);
    assert!(characters[0].actions.is_empty());
    inventory_update(&mut characters);
    assert!(characters[0].items.is_empty());
    update_saturation(&mut characters, SECOND);
    assert!(characters[0].actions.is_empty());
}

#[test]
fn the_hungry_without_food_do_not_eat() {
    let mut characters = vec![person(1, "Theo", 0, 0)];
    characters[0].saturation = 10_000_000;
    characters[0].items = vec![(Item::Plant, 0)];
    update_saturation(&mut characters, SECOND);
    assert!(characters[0].actions.is_empty());
    assert_eq!(characters[0].saturation, 9_000_000);
}

#[test]
fn who_starves_leaves_the_world() {
    let mut characters = vec![person(1, "A", 0, 0), person(2, "B", 0, 0), person(3, "C", 0, 0)];
    characters[0].saturation = 0;
    characters[1].saturation = 1;
    characters[1].actions = vec![Action::Harvest];
    characters[2].saturation = -1;
    update_saturation(&mut characters, 1);
    assert_eq!(characters.len(), 1);
    assert_eq!(characters[0].id, 2);
    assert_eq!(characters[0].saturation, 0);
    assert_eq!(characters[0].actions, vec![Action::Harvest]);
    update_saturation(&mut characters, 0);
    assert_eq!(characters.len(), 1);
    update_saturation(&mut characters, 1);
    assert!(characters.is_empty());
}

#[test]
fn eating_takes_the_first_food_and_is_nothing_without_food() {
    let mut characters = vec![person(1, "A", 0, 0), person(2, "B", 0, 0)];
    characters[0].items = vec![(Item::Plant, 0), (Item::Meat, 2), (Item::Plant, 3)];
    characters[0].saturation = 5;
    characters[0].actions = vec![Action::Eat, Action::Eat, Action::Eat];
    characters[1].items = vec![(Item::Meat, 0)];
    characters[1].actions = vec![Action::Eat];
    let mut plants = vec![grown(0, 0)];
    handle_actions(&mut characters, &mut plants);
    assert_eq!(characters[0].items, vec![(Item::Plant, 0), (Item::Meat, 0), (Item::Plant, 2)]);
    assert_eq!(characters[0].saturation, 5 + 20_000_000 + 20_000_000 + 10_000_000);
    assert_eq!(characters[1].items, vec![(Item::Meat, 0)]);
    assert_eq!(characters[1].saturation, INITIAL_SATIETY);
    assert!(characters[0].actions.is_empty() && characters[1].actions.is_empty());
    assert_eq!(plants, vec![grown(0, 0)]);
}

#[test]
fn satiety_stops_at_what_the_number_holds() {
    let mut characters = vec![person(1, "A", 0, 0)];
    characters[0].items = vec![(Item::Meat, 1)];
    characters[0].saturation = i64::MAX - 3;
    characters[0].actions = vec![Action::Eat];
    handle_actions(&mut characters, &mut Vec::new());
    assert_eq!(characters[0].saturation, i64::MAX);
    assert_eq!(characters[0].items, vec![(Item::Meat, 0)]);
}

#[test]
fn a_harvest_takes_every_grown_plant_in_range() {
    let mut plants = vec![
        grown(30_000, 39_999),
        Plant { position: Point { x: 0, y: 0 }, growth: 999 },
        grown(30_000, 40_000),
        grown(-49_999, 0),
        grown(0, 0),
    ];
    let mut characters = vec![person(1, "A", 0, 0), person(2, "B", 0, 0)];
    characters[0].items = vec![(Item::Meat, 1)];
    characters[0].actions = vec![Action::Harvest, Action::Harvest];
    characters[1].actions = vec![Action::Harvest];
    handle_actions(&mut characters, &mut plants);
    assert_eq!(
        characters[0].items,
        vec![(Item::Meat, 1), (Item::Plant, 1), (Item::Plant, 1), (Item::Plant, 1)]
    );
    assert!(characters[1].items.is_empty());
    assert_eq!(
        plants,
        vec![
            Plant { position: Point { x: 30_000, y: 39_999 }, growth: 0 },
            Plant { position: Point { x: 0, y: 0 }, growth: 999 },
            grown(30_000, 40_000),
            Plant { position: Point { x: -49_999, y: 0 }, growth: 0 },
            Plant { position: Point { x: 0, y: 0 }, growth: 0 },
        ]
    );
}

#[test]
fn talking_shows_the_last_line() {
    let mut characters = vec![person(1, "A", 0, 0)];
    characters[0].speech = "old".to_string();
    characters[0].actions = vec![Action::Talk("one".to_string()), Action::Talk("two".to_string())];
    handle_actions(&mut characters, &mut Vec::new());
    assert_eq!(characters[0].speech, "two");
    assert!(characters[0].actions.is_empty());
    handle_actions(&mut characters, &mut Vec::new());
    assert_eq!(characters[0].speech, "two");
}

#[test]
fn agents_take_note_of_what_happens_near_them() {
    let mut characters = vec![
        npc_in(1, "Theo", 0, 0, NPCState::Idle),
        person(2, "James", 599_999, 0),
        person(3, "Far", 600_000, 0),
        npc_in(4, "Jeff", 0, 10, NPCState::Idle),
    ];
    characters[0].actions = vec![Action::Eat];
    characters[1].actions = vec![Action::Harvest, Action::Talk("Hi".to_string())];
    characters[2].actions = vec![Action::Harvest];
    characters[3].npc.as_mut().unwrap().history = vec![("Old".to_string(), Action::Eat)];
    let heard = overhear(&characters, &Point { x: 0, y: 0 });
    assert_eq!(
        heard,
        vec![
            ("Theo".to_string(), Action::Eat),
            ("James".to_string(), Action::Harvest),
            ("James".to_string(), Action::Talk("Hi".to_string())),
        ]
    );
    update_history(&mut characters);
    assert_eq!(characters[0].npc.as_ref().unwrap().history, heard);
    let mut expected = vec![("Old".to_string(), Action::Eat)];
    expected.extend(heard.clone());
    assert_eq!(characters[3].npc.as_ref().unwrap().history, expected);
    assert_eq!(characters[1].actions.len(), 2);
    update_history(&mut characters);
    assert_eq!(characters[0].npc.as_ref().unwrap().history.len(), 6);
}

#[test]
fn memory_keeps_what_it_held_and_the_story_is_never_touched() {
    let mut characters = vec![npc_in(1, "Theo", 0, 0, NPCState::Idle), person(2, "James", 10, 0)];
    let before = vec![("Old".to_string(), Action::Eat), ("Old".to_string(), Action::Eat)];
    characters[0].npc.as_mut().unwrap().history = before.clone();
    characters[0].npc.as_mut().unwrap().backstory = "A farmer.".to_string();
    characters[1].actions = vec![Action::Harvest];
    update_history(&mut characters);
    let npc = characters[0].npc.as_ref().unwrap();
    assert_eq!(npc.history.len(), 3);
    assert_eq!(npc.history[..2], before[..]);
    assert_eq!(npc.history[2], ("James".to_string(), Action::Harvest));
    assert_eq!(npc.backstory, "A farmer.");
}

#[test]
fn only_arriving_changes_what_an_agent_is_busy_with() {
    let regions = field();
    let plants = vec![grown(300_000, 400_000)];
    let mut characters = vec![
        npc_in(1, "Theo", 0, 0, NPCState::Farming),
        npc_in(2, "Jeff", 0, 0, NPCState::Idle),
        npc_in(3, "Bill", -200_000, 500_000, NPCState::Traveling("Field".to_string())),
    ];
    update_farmers(&mut characters, &plants, &regions, SECOND);
    update_saturation(&mut characters, SECOND);
    update_history(&mut characters);
    assert!(matches!(characters[0].npc.as_ref().unwrap().state, NPCState::Farming));
    assert!(matches!(characters[1].npc.as_ref().unwrap().state, NPCState::Idle));
    assert!(matches!(characters[2].npc.as_ref().unwrap().state, NPCState::Traveling(_)));
    update_travelers(&mut characters, &regions, SECOND);
    assert!(matches!(characters[0].npc.as_ref().unwrap().state, NPCState::Farming));
    assert!(matches!(characters[1].npc.as_ref().unwrap().state, NPCState::Idle));
    assert!(matches!(characters[2].npc.as_ref().unwrap().state, NPCState::Traveling(_)));
    assert_eq!(characters[2].position, Point { x: -50_000, y: 500_000 });
    for _ in 0..2 {
        update_travelers(&mut characters, &regions, SECOND);
    }
    assert_eq!(characters[2].position, Point { x: 100_000, y: 500_000 });
    assert!(matches!(characters[2].npc.as_ref().unwrap().state, NPCState::Idle));
}

#[test]
fn names_are_unique_in_a_world() {
    let mut world = World::new();
    assert_eq!(world.spawn_character(person(77, "Theo", 0, 0)), Ok(0));
    assert_eq!(world.spawn_character(person(77, "Jeff", 0, 0)), Ok(1));
    assert_eq!(world.spawn_character(person(5, "Theo", 9, 9)), Err(SpawnError::NameTaken));
    assert_eq!(world.characters().len(), 2);
    assert_eq!(world.characters()[0].id, 0);
    assert_eq!(world.characters()[1].name, "Jeff");
    assert_eq!(world.find_character(1), Some(1));
    assert_eq!(world.find_character(77), None);
    let farm = || Region { name: "Farm".to_string(), range: Rect::new(0, 0, 1, 1) };
    assert_eq!(world.spawn_region(farm()), Ok(()));
    assert_eq!(world.spawn_region(farm()), Err(SpawnError::NameTaken));
    assert_eq!(world.regions().len(), 1);
}

#[test]
fn a_world_can_run_out_of_identifiers() {
    let mut world = World::starting_at(u64::MAX - 1);
    assert_eq!(world.spawn_character(person(0, "A", 0, 0)), Ok(u64::MAX - 1));
    assert_eq!(world.spawn_character(person(0, "B", 0, 0)), Err(SpawnError::Exhausted));
    assert_eq!(world.spawn_character(person(0, "A", 0, 0)), Err(SpawnError::Exhausted));
    assert_eq!(world.characters().len(), 1);
}

#[test]
fn a_world_is_planted() {
    let mut world = World::new();
    world.spawn_plant(grown(1, 2));
    world.fill_rect_with_plants(&Rect::new(0, 0, 60_000, 0));
    assert_eq!(
        world.plants(),
        &vec![grown(1, 2), Plant { position: Point { x: 0, y: 0 }, growth: 0 }, Plant { position: Point { x: 60_000, y: 0 }, growth: 0 }]
    );
}

#[test]
fn a_tick_runs_its_steps_in_order() {
    let mut world = World::new();
    world.spawn_region(Region { name: "Field".to_string(), range: Rect::new(0, 0, 1_000_000, 1_000_000) }).unwrap();
    world.spawn_plant(grown(20_000, 0));
    world.spawn_plant(Plant { position: Point { x: 500_000, y: 500_000 }, growth: 998 });
    let mut theo = npc_in(0, "Theo", 0, 0, NPCState::Farming);
    theo.npc.as_mut().unwrap().chat_cooldown = 0;
    let theo = world.spawn_character(theo).unwrap();
    let mut james = person(0, "James", 100_000, 0);
    james.player = true;
    let james = world.spawn_character(james).unwrap();
    world.submit_speech(&"Hello".to_string());

    let out = world.tick(&still(), &Vec::new(), SECOND / 10);
    assert_eq!(out.requests.len(), 1);
    assert_eq!(out.requests[0].agent, theo);
    // the request was made before anything else happened in the tick
    assert_eq!(
        out.requests[0].messages[1].content,
        "You see James near you. You are currently in Field. You are currently farming."
    );
    assert!(out.warnings.is_empty());
    let t = &world.characters()[0];
    let npc = t.npc.as_ref().unwrap();
    assert!(npc.pending);
    assert_eq!(npc.chat_cooldown, CHAT_COOLDOWN);
    // the farmer walked up to the plant, harvested it, and remembers all of it
    assert_eq!(t.position, Point { x: 15_000, y: 0 });
    assert_eq!(t.items, vec![(Item::Plant, 1)]);
    assert_eq!(
        npc.history,
        vec![
            ("Theo".to_string(), Action::Harvest),
            ("James".to_string(), Action::Talk("Hello".to_string())),
        ]
    );
    assert_eq!(t.saturation, 99_900_000);
    assert!(t.actions.is_empty());
    let j = &world.characters()[1];
    assert_eq!(j.id, james);
    assert_eq!(j.speech, "Hello");
    assert!(j.actions.is_empty());
    // the plant grew before it was harvested; the other one just grew
    assert_eq!(world.plants()[0].growth, 0);
    assert_eq!(world.plants()[1].growth, 999);

    let answer = Ok(Reply {
        content: Some("Theo: Fine crop".to_string()),
        tool_calls: vec![ToolCall { name: "set_task".to_string(), arguments: "{\"task\":\"resting\"}".to_string() }],
    });
    let out = world.tick(&still(), &vec![(theo, answer)], SECOND / 10);
    assert!(out.requests.is_empty());
    assert_eq!(out.warnings, vec![LogicError::UnknownTask]);
    let t = &world.characters()[0];
    let npc = t.npc.as_ref().unwrap();
    assert!(!npc.pending);
    assert!(matches!(npc.state, NPCState::Idle));
    assert_eq!(npc.chat_cooldown, CHAT_COOLDOWN - 100_000);
    assert_eq!(t.speech, "Fine crop");
    assert_eq!(t.position, Point { x: 15_000, y: 0 });
    assert_eq!(npc.history.len(), 3);
    assert_eq!(npc.history[2], ("Theo".to_string(), Action::Talk("Fine crop".to_string())));
    assert_eq!(world.plants()[0].growth, 1);
    assert!(world.plants()[1].is_grown());
}

#[test]
fn a_failed_request_is_tried_again_a_cooldown_later() {
    let mut world = World::new();
    let mut theo = npc_in(0, "Theo", 0, 0, NPCState::Idle);
    theo.npc.as_mut().unwrap().chat_cooldown = 0;
    theo.saturation = i64::MAX;
    let theo = world.spawn_character(theo).unwrap();
    assert_eq!(world.tick(&still(), &Vec::new(), SECOND).requests.len(), 1);
    let out = world.tick(&still(), &vec![(theo, Err(DecisionError::Transport))], SECOND);
    assert!(out.requests.is_empty() && out.warnings.is_empty());
    assert!(!world.characters()[0].npc.as_ref().unwrap().pending);
    let mut asked = 0;
    let mut ticks = 0;
    while asked == 0 {
        asked = world.tick(&still(), &Vec::new(), SECOND).requests.len();
        ticks += 1;
    }
    // seventy-nine seconds of the cooldown were left; the request goes out
    // in the tick after the one in which it runs out
    assert_eq!(ticks, 80);
    assert_eq!(asked, 1);
}

#[test]
fn a_starving_character_is_gone_by_the_next_tick() {
    let mut world = World::new();
    let mut theo = npc_in(0, "Theo", 0, 0, NPCState::Idle);
    theo.saturation = 1_000_000;
    world.spawn_character(theo).unwrap();
    world.spawn_character(person(0, "James", 0, 0)).unwrap();
    world.tick(&still(), &Vec::new(), SECOND);
    assert_eq!(world.characters().len(), 2);
    assert_eq!(world.characters()[0].saturation, 0);
    world.tick(&still(), &Vec::new(), SECOND);
    assert_eq!(world.characters().len(), 1);
    assert_eq!(world.characters()[0].name, "James");
    assert_eq!(world.find_character(0), None);
    assert_eq!(world.find_character(1), Some(0));
    assert_eq!(world.spawn_character(person(0, "Theo", 0, 0)), Ok(2));
}
