//! Configuration validation: every rejection, and the derived constants.

use tankers::config::{Bounds, Config, ConfigError};
use tankers::registry::ConnectionRegistry;

fn bounds() -> Bounds {
    Bounds { min_x: -50, max_x: 50, min_y: 0, max_y: 100 }
}

#[test]
fn per_tick_acceleration_is_derived_once() {
    let cfg = Config::new(100, 200, bounds(), 1000, 9, 10).unwrap();
    assert_eq!(cfg.tick_interval_ms, 100);
    assert_eq!(cfg.publish_interval_ms, 200);
    assert_eq!(cfg.accel_per_tick, 100);
    assert_eq!(cfg.damp_num, 9);
    assert_eq!(cfg.damp_den, 10);
}

#[test]
fn zero_tick_interval_is_fatal() {
    assert_eq!(
        Config::new(0, 100, bounds(), 1000, 9, 10),
        Err(ConfigError::ZeroTickInterval)
    );
}

#[test]
fn zero_publish_interval_is_fatal() {
    assert_eq!(
        Config::new(100, 0, bounds(), 1000, 9, 10),
        Err(ConfigError::ZeroPublishInterval)
    );
}

#[test]
fn empty_spawn_bounds_are_fatal() {
    let flat = Bounds { min_x: 0, max_x: 0, min_y: 0, max_y: 100 };
    assert_eq!(
        Config::new(100, 100, flat, 1000, 9, 10),
        Err(ConfigError::EmptySpawnBounds)
    );
}

#[test]
fn damping_must_be_a_proper_fraction() {
    assert_eq!(
        Config::new(100, 100, bounds(), 1000, 0, 10),
        Err(ConfigError::BadDamping)
    );
    assert_eq!(
        Config::new(100, 100, bounds(), 1000, 11, 10),
        Err(ConfigError::BadDamping)
    );
}

#[test]
fn thrust_that_rounds_to_nothing_is_fatal() {
    // 5 units/s over a 100 ms tick is less than one world unit.
    assert_eq!(
        Config::new(100, 100, bounds(), 5, 9, 10),
        Err(ConfigError::ZeroAcceleration)
    );
}

#[test]
fn thrust_beyond_the_coordinate_range_is_fatal() {
    assert_eq!(
        Config::new(u64::MAX, 100, bounds(), u64::MAX, 9, 10),
        Err(ConfigError::AccelerationTooLarge)
    );
}

#[test]
fn registry_queues_are_deduplicated_and_drained() {
    let mut reg = ConnectionRegistry::new();
    reg.register(1);
    reg.register(2);
    reg.register(1);
    reg.unregister(3);
    reg.unregister(3);
    let (joins, leaves) = reg.drain();
    assert_eq!(joins, vec![1, 2]);
    assert_eq!(leaves, vec![3]);
    let (joins, leaves) = reg.drain();
    assert!(joins.is_empty() && leaves.is_empty());
}
