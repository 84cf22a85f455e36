//! World and tank behavior: spawning, control application, kinematics.

use tankers::action::{ActionError, KeyPress, PlayerAction};
use tankers::config::{Bounds, Config};
use tankers::intake::ActionIntake;
use tankers::math::Vec2;
use tankers::tank::Tank;
use tankers::world::World;

fn bounds() -> Bounds {
    Bounds { min_x: 0, max_x: 10_000, min_y: 0, max_y: 10_000 }
}

// tick 100 ms, base acceleration 1000 units/s -> 100 units per tick,
// damping 9/10 per tick.
fn config() -> Config {
    Config::new(100, 100, bounds(), 1000, 9, 10).unwrap()
}

#[test]
fn up_moves_strictly_above_down() {
    let cfg = config();
    let mut up_tank = Tank::new(1, Vec2::new(0, 0));
    let mut down_tank = Tank::new(2, Vec2::new(0, 0));
    up_tank.apply_controls(&[KeyPress::Up], cfg.accel_per_tick).unwrap();
    down_tank.apply_controls(&[KeyPress::Down], cfg.accel_per_tick).unwrap();
    up_tank.tick(&cfg);
    down_tank.tick(&cfg);
    // 100 units of thrust damped by 9/10: 90 units of velocity.
    assert_eq!(up_tank.vel(), Vec2::new(0, -90));
    assert_eq!(up_tank.pos(), Vec2::new(0, -90));
    assert_eq!(down_tank.vel(), Vec2::new(0, 90));
    assert_eq!(down_tank.pos(), Vec2::new(0, 90));
    assert!(up_tank.pos().y < down_tank.pos().y);
}

#[test]
fn all_four_directions_keep_one_sign_convention() {
    let cfg = config();
    let cases = [
        (KeyPress::Up, 0i64, -90i64),
        (KeyPress::Down, 0, 90),
        (KeyPress::Left, -90, 0),
        (KeyPress::Right, 90, 0),
    ];
    for (key, dx, dy) in cases {
        let mut t = Tank::new(9, Vec2::new(0, 0));
        t.apply_controls(&[key], cfg.accel_per_tick).unwrap();
        t.tick(&cfg);
        assert_eq!(t.pos(), Vec2::new(dx, dy));
    }
}

#[test]
fn opposite_controls_do_not_cancel_instantly() {
    let cfg = config();
    let mut t = Tank::new(1, Vec2::new(0, 0));
    t.apply_controls(&[KeyPress::Up], cfg.accel_per_tick).unwrap();
    t.tick(&cfg);
    let v1 = t.vel().y;
    assert_eq!(v1, -90);
    t.apply_controls(&[KeyPress::Down], cfg.accel_per_tick).unwrap();
    t.tick(&cfg);
    let v2 = t.vel().y;
    // (-90 + 100) damped by 9/10: 9 units. Closer to rest, not at it.
    assert_eq!(v2, 9);
    assert!(v2.abs() < v1.abs());
    assert!(v2 != 0);
}

#[test]
fn velocity_decays_and_acceleration_is_consumed() {
    let cfg = config();
    let mut t = Tank::new(1, Vec2::new(0, 0));
    t.apply_controls(&[KeyPress::Up], cfg.accel_per_tick).unwrap();
    t.tick(&cfg);
    assert_eq!(t.vel(), Vec2::new(0, -90));
    // No new controls: the old thrust must not apply again.
    t.tick(&cfg);
    assert_eq!(t.vel(), Vec2::new(0, -81));
    assert_eq!(t.pos(), Vec2::new(0, -171));
}

#[test]
fn unknown_control_is_rejected_with_prefix_applied() {
    let cfg = config();
    let mut t = Tank::new(1, Vec2::new(0, 0));
    let r = t.apply_controls(
        &[KeyPress::Up, KeyPress::Unknown, KeyPress::Down],
        cfg.accel_per_tick,
    );
    assert_eq!(r, Err(ActionError::UnknownControl));
    t.tick(&cfg);
    // Only the Up before the unknown signal counted.
    assert_eq!(t.vel(), Vec2::new(0, -90));
}

#[test]
fn registering_distinct_players_yields_one_tank_each() {
    let big = Bounds { min_x: 0, max_x: 1_000_000_000, min_y: 0, max_y: 1_000_000_000 };
    let cfg = Config::new(100, 100, big, 1000, 9, 10).unwrap();
    let mut world = World::new(cfg);
    let n: u128 = 100;
    for id in 0..n {
        world.register_player(id);
    }
    assert_eq!(world.tanks().len(), 100);
    for id in 0..n {
        let t = world.tank_for_player(id).expect("registered player must have a tank");
        assert_eq!(t.player(), id);
        assert_eq!(t.vel(), Vec2::new(0, 0));
        let p = t.pos();
        assert!(0 <= p.x && p.x < 1_000_000_000);
        assert!(0 <= p.y && p.y < 1_000_000_000);
    }
    // With a billion-by-billion spawn rectangle, two of a hundred random
    // spawns sharing a position is negligible.
    let mut positions: Vec<(i64, i64)> =
        world.tanks().iter().map(|t| (t.pos().x, t.pos().y)).collect();
    positions.sort();
    positions.dedup();
    assert_eq!(positions.len(), 100);
}

#[test]
fn duplicate_registration_never_duplicates_a_player() {
    let mut world = World::new(config());
    world.register_player(42);
    world.register_player(42);
    assert_eq!(world.tanks().len(), 1);
}

#[test]
fn action_for_unknown_player_is_skipped() {
    let mut world = World::new(config());
    world.register_player(1);
    world.register_player(2);
    let before: Vec<(u128, Vec2)> =
        world.tanks().iter().map(|t| (t.player(), t.pos())).collect();

    let mut intake = ActionIntake::new();
    intake.submit(999, PlayerAction::new(vec![KeyPress::Up]));
    let batch = intake.drain_all();
    world.apply_player_actions(&batch);

    assert_eq!(world.tanks().len(), 2);
    let after: Vec<(u128, Vec2)> =
        world.tanks().iter().map(|t| (t.player(), t.pos())).collect();
    assert_eq!(before, after);

    // The direct call reports the failure instead of panicking.
    let r = world.apply_player_action(999, &PlayerAction::new(vec![KeyPress::Up]));
    assert_eq!(r, Err(ActionError::UnknownPlayer));
}

#[test]
fn unregister_removes_only_that_player() {
    let mut world = World::new(config());
    world.register_player(1);
    world.register_player(2);
    world.unregister_player(1);
    assert_eq!(world.tanks().len(), 1);
    assert!(world.tank_for_player(1).is_none());
    assert!(world.tank_for_player(2).is_some());
    // Unknown ids are a safe no-op.
    world.unregister_player(77);
    assert_eq!(world.tanks().len(), 1);
}
