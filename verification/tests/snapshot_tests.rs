//! Snapshot publication and saturating coordinate arithmetic.

use tankers::config::{Bounds, Config};
use tankers::math::{sat_add64, Vec2};
use tankers::snapshot::Protobufferable;
use tankers::tank::Tank;
use tankers::world::World;

fn config() -> Config {
    let bounds = Bounds { min_x: 0, max_x: 10_000, min_y: 0, max_y: 10_000 };
    Config::new(100, 100, bounds, 1000, 9, 10).unwrap()
}

#[test]
fn world_serializes_every_tank_with_id_and_position() {
    let mut world = World::new(config());
    world.register_player(10);
    world.register_player(11);
    let snap = world.serialize();
    assert_eq!(snap.tanks.len(), 2);
    for state in &snap.tanks {
        let t = world.tank_for_player(state.player_id).unwrap();
        assert_eq!(state.position, t.pos());
    }
}

#[test]
fn tank_serializes_to_its_state() {
    let t = Tank::new(3, Vec2::new(7, -8));
    let s = t.serialize();
    assert_eq!(s.player_id, 3);
    assert_eq!(s.position, Vec2::new(7, -8));
}

#[test]
fn coordinate_arithmetic_saturates_instead_of_wrapping() {
    assert_eq!(sat_add64(i64::MAX, 1), i64::MAX);
    assert_eq!(sat_add64(i64::MAX, i64::MAX), i64::MAX);
    assert_eq!(sat_add64(i64::MIN, -1), i64::MIN);
    assert_eq!(sat_add64(40, 2), 42);
    assert_eq!(sat_add64(-40, 2), -38);
}

#[test]
fn a_tank_at_the_world_edge_stays_in_range() {
    let cfg = config();
    let mut t = Tank::new(1, Vec2::new(i64::MAX - 10, 0));
    t.apply_controls(&[tankers::action::KeyPress::Right], cfg.accel_per_tick).unwrap();
    t.tick(&cfg);
    assert_eq!(t.pos().x, i64::MAX);
    assert_eq!(t.vel().x, 90);
}
