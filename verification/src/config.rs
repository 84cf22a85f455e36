//! Server configuration.
//!
//! All per-tick constants are derived once at startup and threaded
//! through as an explicit [`Config`] value. A bad configuration is a
//! fatal startup error; a validated `Config` is well-formed for the
//! whole run.

use vstd::prelude::*;

use crate::math::Vec2;

verus! {

/// The rectangle inside which new tanks spawn, in world units.
/// Both intervals are half-open: a spawned coordinate `c` satisfies
/// `min <= c < max`.
#[derive(Clone, Copy, Debug, PartialEq, Eq, Structural)]
pub struct Bounds {
    pub min_x: i64,
    pub max_x: i64,
    pub min_y: i64,
    pub max_y: i64,
}

impl Bounds {
    pub open spec fn wf(self) -> bool {
        self.min_x < self.max_x && self.min_y < self.max_y
    }

    pub open spec fn contains(self, p: Vec2) -> bool {
        self.min_x <= p.x < self.max_x && self.min_y <= p.y < self.max_y
    }
}

/// A reason why a configuration is rejected at startup.
#[derive(Clone, Copy, Debug, PartialEq, Eq, Structural)]
pub enum ConfigError {
    ZeroTickInterval,
    ZeroPublishInterval,
    EmptySpawnBounds,
    BadDamping,
    ZeroAcceleration,
    AccelerationTooLarge,
}

/// The per-tick acceleration derived from a per-second force magnitude
/// and the tick length.
pub open spec fn derived_accel(base_acceleration: u64, tick_interval_ms: u64) -> int {
    (base_acceleration * tick_interval_ms) / 1000
}

/// Validated server configuration with its derived per-tick constants.
///
/// The integrator multiplies each velocity component by
/// `damp_num / damp_den` once per tick (truncating toward zero), the
/// linear damping of the simulation.
#[derive(Clone, Copy, Debug, PartialEq, Eq, Structural)]
pub struct Config {
    pub tick_interval_ms: u64,
    pub publish_interval_ms: u64,
    pub spawn_bounds: Bounds,
    pub accel_per_tick: i64,
    pub damp_num: u32,
    pub damp_den: u32,
}

impl Config {
    pub open spec fn wf(self) -> bool {
        &&& self.tick_interval_ms >= 1
        &&& self.publish_interval_ms >= 1
        &&& self.spawn_bounds.wf()
        &&& self.accel_per_tick >= 1
        &&& 1 <= self.damp_num <= self.damp_den
    }

    /// Holds exactly when `Config::new` accepts these inputs.
    pub open spec fn acceptable(
        tick_interval_ms: u64,
        publish_interval_ms: u64,
        spawn_bounds: Bounds,
        base_acceleration: u64,
        damp_num: u32,
        damp_den: u32,
    ) -> bool {
        &&& tick_interval_ms >= 1
        &&& publish_interval_ms >= 1
        &&& spawn_bounds.wf()
        &&& 1 <= damp_num <= damp_den
        &&& 1 <= derived_accel(base_acceleration, tick_interval_ms) <= i64::MAX
    }

    /// Validates the startup options and derives the per-tick constants.
    pub fn new(
        tick_interval_ms: u64,
        publish_interval_ms: u64,
        spawn_bounds: Bounds,
        base_acceleration: u64,
        damp_num: u32,
        damp_den: u32,
    ) -> (r: Result<Config, ConfigError>)
        ensures
            r.is_ok() <==> Self::acceptable(
                tick_interval_ms,
                publish_interval_ms,
                spawn_bounds,
                base_acceleration,
                damp_num,
                damp_den,
            ),
            match r {
                Ok(c) => c == (Config {
                    tick_interval_ms,
                    publish_interval_ms,
                    spawn_bounds,
                    accel_per_tick: derived_accel(base_acceleration, tick_interval_ms) as i64,
                    damp_num,
                    damp_den,
                }) && c.wf(),
                Err(e) => {
                    &&& (e == ConfigError::ZeroTickInterval <==> tick_interval_ms == 0)
                    &&& (e == ConfigError::ZeroPublishInterval <==> tick_interval_ms >= 1
                        && publish_interval_ms == 0)
                    &&& (e == ConfigError::EmptySpawnBounds <==> tick_interval_ms >= 1
                        && publish_interval_ms >= 1 && !spawn_bounds.wf())
                    &&& (e == ConfigError::BadDamping <==> tick_interval_ms >= 1
                        && publish_interval_ms >= 1 && spawn_bounds.wf()
                        && !(1 <= damp_num <= damp_den))
                    &&& (e == ConfigError::ZeroAcceleration <==> tick_interval_ms >= 1
                        && publish_interval_ms >= 1 && spawn_bounds.wf()
                        && 1 <= damp_num <= damp_den
                        && derived_accel(base_acceleration, tick_interval_ms) == 0)
                    &&& (e == ConfigError::AccelerationTooLarge <==> tick_interval_ms >= 1
                        && publish_interval_ms >= 1 && spawn_bounds.wf()
                        && 1 <= damp_num <= damp_den
                        && derived_accel(base_acceleration, tick_interval_ms) > i64::MAX)
                },
            },
    {
        if tick_interval_ms == 0 {
            return Err(ConfigError::ZeroTickInterval);
        }
        if publish_interval_ms == 0 {
            return Err(ConfigError::ZeroPublishInterval);
        }
        if !(spawn_bounds.min_x < spawn_bounds.max_x && spawn_bounds.min_y < spawn_bounds.max_y) {
            return Err(ConfigError::EmptySpawnBounds);
        }
        if damp_num == 0 || damp_num > damp_den {
            return Err(ConfigError::BadDamping);
        }
        proof {
            let b = base_acceleration as int;
            let t = tick_interval_ms as int;
            assert(b * t <= u64::MAX as int * u64::MAX as int) by (nonlinear_arith)
                requires
                    0 <= b <= u64::MAX as int,
                    0 <= t <= u64::MAX as int,
            ;
        }
        let accel_wide: u128 = (base_acceleration as u128 * tick_interval_ms as u128) / 1000;
        if accel_wide == 0 {
            return Err(ConfigError::ZeroAcceleration);
        }
        if accel_wide > i64::MAX as u128 {
            return Err(ConfigError::AccelerationTooLarge);
        }
        Ok(Config {
            tick_interval_ms,
            publish_interval_ms,
            spawn_bounds,
            accel_per_tick: accel_wide as i64,
            damp_num,
            damp_den,
        })
    }
}

} // verus!
