use villagers::action::Action;
use villagers::geometry::{floor_sqrt, Point, Rect};
use villagers::item::{Item, MEAT_NUTRITION, PLANT_NUTRITION};
use villagers::npc::NPCState;
use villagers::plant::{
    fill_rect_with_plants, update_plants, Plant, GROWTH_FULL, HARVEST_RANGE, PLANT_SPACING,
};
use villagers::region::{find_region, Region};
use villagers::text::{join_names, strip_prefix, trim};

fn names_of(names: &[&str]) -> Vec<String> {
    names.iter().map(|n| n.to_string()).collect()
}

#[test]
fn list_of_no_names_is_empty() {
    assert_eq!(join_names(&names_of(&[])), "");
}

#[test]
fn list_of_one_name_is_the_name() {
    assert_eq!(join_names(&names_of(&["Alice"])), "Alice");
}

#[test]
fn list_of_two_names_joins_with_and() {
    assert_eq!(join_names(&names_of(&["Alice", "Bob"])), "Alice and Bob");
}

#[test]
fn list_of_three_names_has_a_comma_before_and() {
    assert_eq!(join_names(&names_of(&["Alice", "Bob", "Carol"])), "Alice, Bob, and Carol");
}

#[test]
fn list_of_four_names() {
    assert_eq!(
        join_names(&names_of(&["Alice", "Bob", "Carol", "Dan"])),
        "Alice, Bob, Carol, and Dan"
    );
}

#[test]
fn trim_removes_white_space_at_both_ends_only() {
    assert_eq!(trim("  \t a b \n"), "a b");
    assert_eq!(trim("a b"), "a b");
    assert_eq!(trim(" \n "), "");
    assert_eq!(trim(""), "");
    assert_eq!(trim("\u{a0}é \u{2003}"), "é");
}

#[test]
fn strip_prefix_wants_the_exact_prefix() {
    assert_eq!(strip_prefix("Theo: Hello", "Theo: "), Some("Hello".to_string()));
    assert_eq!(strip_prefix("Theo: ", "Theo: "), Some(String::new()));
    assert_eq!(strip_prefix("Theo:Hello", "Theo: "), None);
    assert_eq!(strip_prefix(" Theo: Hello", "Theo: "), None);
    assert_eq!(strip_prefix("Th", "Theo: "), None);
    assert_eq!(strip_prefix("Zoë: né", "Zoë: "), Some("né".to_string()));
}

#[test]
fn narrative_of_each_action() {
    assert_eq!(Action::Eat.get_context("Theo"), "Theo eats something. ");
    assert_eq!(Action::Harvest.get_context("Theo"), "Theo harvests. ");
    assert_eq!(Action::Talk("Hi".to_string()).get_context("Theo"), "Theo says \"Hi\". ");
}

#[test]
fn actions_are_equal_by_value() {
    assert_eq!(Action::Talk("a".to_string()), Action::Talk("a".to_string()));
    assert_ne!(Action::Talk("a".to_string()), Action::Talk("b".to_string()));
    assert_ne!(Action::Eat, Action::Harvest);
    assert_eq!(Action::Talk("a".to_string()).clone(), Action::Talk("a".to_string()));
}

#[test]
fn narration_of_each_state() {
    assert_eq!(NPCState::Idle.get_context(), "You are currently idle.");
    assert_eq!(NPCState::Farming.get_context(), "You are currently farming.");
    assert_eq!(
        NPCState::Traveling("Bill's Farm".to_string()).get_context(),
        "You are currently traveling to Bill's Farm. "
    );
}

#[test]
fn items_nourish_and_have_names() {
    assert_eq!(Item::Plant.saturation(), 10_000_000);
    assert_eq!(Item::Meat.saturation(), 20_000_000);
    assert_eq!(PLANT_NUTRITION, 10_000_000);
    assert_eq!(MEAT_NUTRITION, 20_000_000);
    assert_eq!(Item::Plant.name(), "Plant");
    assert_eq!(Item::Meat.name(), "Meat");
}

#[test]
fn distance_is_euclidean() {
    let a = Point { x: 0, y: 0 };
    let b = Point { x: 3_000, y: -4_000 };
    assert_eq!(a.distance_squared(&b), 25_000_000);
    assert!(a.within(&b, 5_001));
    assert!(!a.within(&b, 5_000));
    let far = Point { x: i32::MAX, y: i32::MAX };
    let near = Point { x: i32::MIN, y: i32::MIN };
    assert_eq!(far.distance_squared(&near), 2 * (u32::MAX as u128) * (u32::MAX as u128));
}

#[test]
fn floor_sqrt_brackets_its_argument() {
    assert_eq!(floor_sqrt(0), 0);
    assert_eq!(floor_sqrt(1), 1);
    assert_eq!(floor_sqrt(24), 4);
    assert_eq!(floor_sqrt(25), 5);
    assert_eq!(floor_sqrt(26), 5);
    assert_eq!(floor_sqrt(u128::MAX), u64::MAX);
    assert_eq!(floor_sqrt(1u128 << 64), 1u64 << 32);
}

#[test]
fn step_toward_moves_along_the_line() {
    let from = Point { x: 0, y: 0 };
    let to = Point { x: 3_000, y: 4_000 };
    assert_eq!(from.step_toward(&to, 2_500), Point { x: 1_500, y: 2_000 });
    assert_eq!(from.step_toward(&to, 0), from);
    let back = Point { x: -3_000, y: -4_000 };
    assert_eq!(from.step_toward(&back, 2_500), Point { x: -1_500, y: -2_000 });
}

#[test]
fn step_toward_overshoots_and_rounds_toward_zero() {
    let from = Point { x: 0, y: 0 };
    let to = Point { x: 3_000, y: 4_000 };
    assert_eq!(from.step_toward(&to, 10_000), Point { x: 6_000, y: 8_000 });
    let slanted = Point { x: 10, y: -10 };
    // the distance is 14, so a step of 5 moves by 50 / 14 = 3 along each axis
    assert_eq!(from.step_toward(&slanted, 5), Point { x: 3, y: -3 });
}

#[test]
fn step_toward_stays_where_there_is_nowhere_to_go() {
    let here = Point { x: 7, y: -7 };
    assert_eq!(here.step_toward(&here, 1_000), here);
}

#[test]
fn step_toward_stops_at_the_edge_of_the_plane() {
    let from = Point { x: i32::MAX - 10, y: 0 };
    let to = Point { x: i32::MAX, y: 0 };
    assert_eq!(from.step_toward(&to, u64::MAX), Point { x: i32::MAX, y: 0 });
}

#[test]
fn rect_holds_its_border() {
    let r = Rect::new(140_000, 600_000, -700_000, 0);
    assert_eq!(r.min, Point { x: -700_000, y: 0 });
    assert_eq!(r.max, Point { x: 140_000, y: 600_000 });
    assert!(r.contains(Point { x: -700_000, y: 0 }));
    assert!(r.contains(Point { x: 140_000, y: 600_000 }));
    assert!(r.contains(Point { x: 0, y: 300_000 }));
    assert!(!r.contains(Point { x: 140_001, y: 300_000 }));
    assert!(!r.contains(Point { x: 0, y: -1 }));
}

#[test]
fn rect_center_rounds_down() {
    assert_eq!(Rect::new(-700_000, 0, 140_000, 600_000).center(), Point { x: -280_000, y: 300_000 });
    assert_eq!(Rect::new(0, 0, 1, 3).center(), Point { x: 0, y: 1 });
    assert_eq!(Rect::new(-3, -1, 0, 0).center(), Point { x: -2, y: -1 });
    assert_eq!(
        Rect::new(i32::MAX, i32::MIN, i32::MAX, i32::MIN).center(),
        Point { x: i32::MAX, y: i32::MIN }
    );
}

#[test]
fn a_seed_is_grown_after_a_thousand_ticks() {
    let mut plants = vec![Plant::default()];
    for _ in 0..999 {
        update_plants(&mut plants);
    }
    assert_eq!(plants[0].growth, 999);
    assert!(!plants[0].is_grown());
    update_plants(&mut plants);
    assert_eq!(plants[0].growth, GROWTH_FULL);
    assert!(plants[0].is_grown());
    for _ in 0..500 {
        update_plants(&mut plants);
    }
    assert_eq!(plants[0].growth, 1000);
}

#[test]
fn growth_never_passes_full() {
    let mut plant = Plant { position: Point { x: 1, y: 2 }, growth: 990 };
    plant.grow(20);
    assert_eq!(plant.growth, 1000);
    plant.grow(u32::MAX);
    assert_eq!(plant.growth, 1000);
    let mut plant = Plant { position: Point { x: 1, y: 2 }, growth: 10 };
    plant.grow(u32::MAX);
    assert_eq!(plant, Plant { position: Point { x: 1, y: 2 }, growth: 1000 });
}

#[test]
fn growth_stage_and_harvest_range() {
    let at = Point { x: 0, y: 0 };
    let stages: Vec<(u32, u32, u32)> = vec![
        (0, 0, 0),
        (333, 0, 0),
        (334, 1, 16_666),
        (666, 1, 16_666),
        (667, 2, 33_333),
        (999, 2, 33_333),
        (1000, 3, 50_000),
    ];
    for (growth, stage, range) in stages {
        let plant = Plant { position: at, growth };
        assert_eq!(plant.get_growth_stage(), stage);
        assert_eq!(plant.harvest_range(), range);
    }
    assert_eq!(HARVEST_RANGE, 50_000);
}

#[test]
fn a_field_is_planted_on_a_grid() {
    let mut plants = vec![Plant { position: Point { x: 5, y: 5 }, growth: 7 }];
    fill_rect_with_plants(&mut plants, &Rect::new(0, 0, 120_000, 60_001));
    let seeds: Vec<Point> = plants.iter().skip(1).map(|p| p.position).collect();
    assert_eq!(
        seeds,
        vec![
            Point { x: 0, y: 0 },
            Point { x: 0, y: 60_000 },
            Point { x: 60_000, y: 0 },
            Point { x: 60_000, y: 60_000 },
            Point { x: 120_000, y: 0 },
            Point { x: 120_000, y: 60_000 },
        ]
    );
    assert_eq!(plants[0], Plant { position: Point { x: 5, y: 5 }, growth: 7 });
    assert!(plants.iter().skip(1).all(|p| p.growth == 0));
    assert_eq!(PLANT_SPACING, 60_000);
}

#[test]
fn an_empty_rect_gets_no_seeds() {
    let mut plants: Vec<Plant> = Vec::new();
    fill_rect_with_plants(&mut plants, &Rect { min: Point { x: 1, y: 0 }, max: Point { x: 0, y: 10 } });
    assert!(plants.is_empty());
    fill_rect_with_plants(&mut plants, &Rect::new(3, 4, 3, 4));
    assert_eq!(plants, vec![Plant { position: Point { x: 3, y: 4 }, growth: 0 }]);
}

#[test]
fn the_farm_of_the_village_gets_its_plants() {
    let mut plants: Vec<Plant> = Vec::new();
    fill_rect_with_plants(&mut plants, &Rect::new(-700_000, 0, 140_000, 600_000));
    assert_eq!(plants.len(), 15 * 11);
    assert_eq!(plants[0].position, Point { x: -700_000, y: 0 });
    assert_eq!(plants[164].position, Point { x: 140_000, y: 600_000 });
}

#[test]
fn the_first_region_of_a_name_is_found() {
    let regions = vec![
        Region { name: "A".to_string(), range: Rect::new(0, 0, 1, 1) },
        Region { name: "B".to_string(), range: Rect::new(0, 0, 2, 2) },
        Region { name: "B".to_string(), range: Rect::new(0, 0, 3, 3) },
    ];
    assert_eq!(find_region(&regions, &"A".to_string()), Some(0));
    assert_eq!(find_region(&regions, &"B".to_string()), Some(1));
    assert_eq!(find_region(&regions, &"C".to_string()), None);
}
