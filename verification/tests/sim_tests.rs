use gridsim::grid::{GameMap, MapClass};
use gridsim::math::vec2;
use gridsim::sim::{Entity, EntityClass, Game, ItemData, PlayerData, SideEffect};

fn player(x: i32, y: i32, health: i64) -> Entity {
    Entity { pos: vec2(x, y), health, class: EntityClass::Player(PlayerData {}) }
}

fn item(x: i32, y: i32, health: i64) -> Entity {
    Entity { pos: vec2(x, y), health, class: EntityClass::Item(ItemData {}) }
}

fn floor_map(size: usize) -> GameMap {
    let mut m = GameMap::new(size);
    let mut cy: i32 = 0;
    while (cy as usize) < size {
        let mut cx: i32 = 0;
        while (cx as usize) < size {
            assert!(m.set_class_at(vec2(cx * 1_000_000, cy * 1_000_000), MapClass::Floor));
            cx += 1;
        }
        cy += 1;
    }
    m
}

#[test]
fn distance_squared_exact_values() {
    let a = vec2(0, 0);
    let b = vec2(1_000_000, 0);
    assert_eq!(a.distance_sq(b), 1_000_000_000_000);
    let c = vec2(3, 4);
    assert_eq!(a.distance_sq(c), 25);
    assert_eq!(c.length_sq(), 25);
}

#[test]
fn distance_symmetric_and_zero_on_self() {
    let a = vec2(123_456, -789);
    let b = vec2(-42, 65_536);
    assert_eq!(a.distance_sq(b), b.distance_sq(a));
    assert_eq!(a.distance_sq(a), 0);
    assert_eq!(b.distance_sq(b), 0);
}

#[test]
fn vector_subtraction_componentwise() {
    let d = vec2(5, 7).sub(vec2(2, 10));
    assert_eq!(d.x, 3);
    assert_eq!(d.y, -3);
}

#[test]
fn new_map_is_unset_everywhere() {
    let m = GameMap::new(4);
    assert_eq!(m.class_at(vec2(0, 0)), Some(MapClass::Unset));
    assert_eq!(m.class_at(vec2(3_999_999, 3_999_999)), Some(MapClass::Unset));
}

#[test]
fn class_at_rejects_outside_positions() {
    let m = GameMap::new(4);
    assert_eq!(m.class_at(vec2(-1, 0)), None);
    assert_eq!(m.class_at(vec2(0, -1)), None);
    assert_eq!(m.class_at(vec2(4_000_000, 0)), None);
    assert_eq!(m.class_at(vec2(0, 4_000_000)), None);
}

#[test]
fn set_class_at_hits_only_inside_the_grid() {
    let mut m = GameMap::new(4);
    assert!(m.set_class_at(vec2(2_500_000, 1_500_000), MapClass::Wall));
    assert_eq!(m.class_at(vec2(2_000_001, 1_999_999)), Some(MapClass::Wall));
    assert_eq!(m.class_at(vec2(1_999_999, 1_500_000)), Some(MapClass::Unset));
    assert!(!m.set_class_at(vec2(-1, 0), MapClass::Floor));
    assert!(!m.set_class_at(vec2(5_000_000, 0), MapClass::Floor));
}

#[test]
fn walkable_classes_permit_occupancy() {
    let mut m = GameMap::new(6);
    let p = vec2(1_000_000, 1_000_000);
    assert!(!m.validate_move(p));
    m.set_class_at(p, MapClass::Water);
    assert!(m.validate_move(p));
    m.set_class_at(p, MapClass::Floor);
    assert!(m.validate_move(p));
    m.set_class_at(p, MapClass::OpenDoor);
    assert!(m.validate_move(p));
    m.set_class_at(p, MapClass::Wall);
    assert!(!m.validate_move(p));
    m.set_class_at(p, MapClass::ClosedDoor);
    assert!(!m.validate_move(p));
    assert!(!m.validate_move(vec2(-500_000, 0)));
    assert!(!m.validate_move(vec2(6_000_000, 0)));
}

#[test]
fn validate_move_is_stable_under_repeated_calls() {
    let mut m = GameMap::new(4);
    m.set_class_at(vec2(0, 0), MapClass::Floor);
    let first = m.validate_move(vec2(500_000, 500_000));
    for _ in 0..10 {
        assert_eq!(m.validate_move(vec2(500_000, 500_000)), first);
    }
}

#[test]
fn player_decides_attacks_in_snapshot_order() {
    let m = GameMap::new(4);
    let snapshot = vec![
        player(0, 0, 1_000_000),
        player(1_000_000, 0, 1_000_000),
        player(3_000_000, 0, 1_000_000),
        player(0, 1_500_000, 1_000_000),
    ];
    let mut me = snapshot[0];
    let effects = me.update(0, &snapshot, &m);
    // Entity 2 is 3.0 away, out of range; entities 1 and 3 are in range.
    assert_eq!(effects.len(), 2);
    assert_eq!(
        effects[0],
        SideEffect::Attack { entity0: 0, entity1: 1, strength: 250_000 }
    );
    assert_eq!(
        effects[1],
        SideEffect::Attack { entity0: 0, entity1: 3, strength: 250_000 }
    );
}

#[test]
fn monsters_and_items_decide_nothing() {
    let m = GameMap::new(4);
    let snapshot = vec![item(0, 0, 1_000_000), player(0, 0, 1_000_000)];
    let mut it = snapshot[0];
    let effects = it.update(0, &snapshot, &m);
    assert!(effects.is_empty());
    assert_eq!(it.pos, vec2(0, 0));
}

#[test]
fn attack_effect_reduces_target_health() {
    let mut game = Game { map: GameMap::new(4), entities: vec![item(0, 0, 600_000)] };
    game.apply_side_effect(SideEffect::Attack { entity0: 0, entity1: 0, strength: 250_000 });
    assert_eq!(game.entities[0].health, 350_000);
}

#[test]
fn map_attack_breaks_wall_to_floor() {
    let mut m = GameMap::new(4);
    m.set_class_at(vec2(1_000_000, 0), MapClass::Wall);
    let mut game = Game { map: m, entities: vec![] };
    game.apply_side_effect(SideEffect::MapAttack {
        entity0: 0,
        map_pos: vec2(1_500_000, 0),
        strength: 250_000,
    });
    assert_eq!(game.map.class_at(vec2(1_000_000, 0)), Some(MapClass::Floor));
}

#[test]
fn map_attack_leaves_other_terrain_and_outside_strikes_alone() {
    let mut m = GameMap::new(4);
    m.set_class_at(vec2(0, 0), MapClass::Water);
    let mut game = Game { map: m, entities: vec![] };
    game.apply_side_effect(SideEffect::MapAttack {
        entity0: 0,
        map_pos: vec2(0, 0),
        strength: 250_000,
    });
    assert_eq!(game.map.class_at(vec2(0, 0)), Some(MapClass::Water));
    game.apply_side_effect(SideEffect::MapAttack {
        entity0: 0,
        map_pos: vec2(-1_000_000, 0),
        strength: 250_000,
    });
    assert_eq!(game.map.class_at(vec2(0, 0)), Some(MapClass::Water));
}

#[test]
fn reap_removes_zero_health_keeps_smallest_positive() {
    // Health exactly 0 is reaped; one millionth of a point survives.
    let mut game = Game {
        map: GameMap::new(4),
        entities: vec![item(0, 0, 0), item(1_000_000, 0, 1)],
    };
    let running = game.update();
    assert_eq!(game.entities.len(), 1);
    assert_eq!(game.entities[0].health, 1);
    assert_eq!(game.entities[0].pos, vec2(1_000_000, 0));
    assert!(!running);
}

#[test]
fn two_players_wear_each_other_down_in_four_ticks() {
    let mut game = Game {
        map: GameMap::new(4),
        entities: vec![player(0, 0, 1_000_000), player(1_000_000, 0, 1_000_000)],
    };
    // The unset grid denies every move, so both stand still and trade
    // quarter-point attacks each tick.
    assert!(game.update());
    assert_eq!(game.entities[0].health, 750_000);
    assert_eq!(game.entities[1].health, 750_000);
    assert!(game.update());
    assert_eq!(game.entities[0].health, 500_000);
    assert!(game.update());
    assert_eq!(game.entities[0].health, 250_000);
    // Fourth tick: both reach exactly zero and are reaped together.
    let running = game.update();
    assert!(!running);
    assert_eq!(game.entities.len(), 0);
}

#[test]
fn wall_blocks_movement() {
    let mut m = GameMap::new(8);
    m.set_class_at(vec2(5_000_000, 5_000_000), MapClass::Wall);
    let mut game = Game {
        map: m,
        entities: vec![player(5_000_000, 5_000_000, 1_000_000)],
    };
    // The step to x = 5.1 lands in the wall cell, so the player stays put.
    let running = game.update();
    assert_eq!(game.entities[0].pos, vec2(5_000_000, 5_000_000));
    assert!(!running);
}

#[test]
fn floor_permits_movement() {
    let mut m = GameMap::new(8);
    m.set_class_at(vec2(5_000_000, 5_000_000), MapClass::Floor);
    let mut game = Game {
        map: m,
        entities: vec![player(5_000_000, 5_000_000, 1_000_000)],
    };
    game.update();
    assert_eq!(game.entities[0].pos, vec2(5_100_000, 5_000_000));
}

#[test]
fn decisions_read_the_snapshot_not_live_movement() {
    // The mover (index 0) starts just out of the victim's range and steps
    // into range during its own decide. The victim (index 1) decides
    // afterwards, but observes the mover's snapshot position, so only the
    // mover lands an attack this tick.
    let mut game = Game {
        map: floor_map(8),
        entities: vec![
            player(2_050_000, 0, 1_000_000),
            player(4_100_000, 0, 1_000_000),
        ],
    };
    assert!(game.update());
    assert_eq!(game.entities[0].pos, vec2(2_150_000, 0));
    assert_eq!(game.entities[0].health, 1_000_000);
    assert_eq!(game.entities[1].health, 750_000);
}

#[test]
fn repeated_ticks_from_equal_states_agree() {
    let build = || Game {
        map: GameMap::new(4),
        entities: vec![player(0, 0, 1_000_000), player(1_000_000, 0, 1_000_000)],
    };
    let mut a = build();
    let mut b = build();
    for _ in 0..4 {
        assert_eq!(a.update(), b.update());
        assert_eq!(a.entities, b.entities);
    }
}

#[test]
fn indexed_update_trades_attacks_on_live_state() {
    let mut game = Game {
        map: GameMap::new(4),
        entities: vec![player(0, 0, 1_000_000), player(1_000_000, 0, 1_000_000)],
    };
    let running = game.update_indexed();
    assert!(running);
    assert_eq!(game.entities[0].health, 750_000);
    assert_eq!(game.entities[1].health, 750_000);
    // Positions never change in the one-pass driver.
    assert_eq!(game.entities[0].pos, vec2(0, 0));
}

#[test]
fn indexed_update_reaps_the_dead() {
    let mut game = Game {
        map: GameMap::new(4),
        entities: vec![player(0, 0, 250_000), player(1_000_000, 0, 250_000)],
    };
    let running = game.update_indexed();
    assert!(!running);
    assert_eq!(game.entities.len(), 0);
}

#[test]
fn fresh_game_is_empty_and_stops_at_once() {
    let mut game = Game::new();
    assert_eq!(game.entities.len(), 0);
    assert_eq!(game.map.size, 1024);
    assert_eq!(game.map.class_at(vec2(0, 0)), Some(MapClass::Unset));
    assert!(!game.update());
}

#[test]
fn run_terminates() {
    gridsim::run();
}
