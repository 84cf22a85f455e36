//! The player-owned entity and its kinematics.
//!
//! A [`Tank`] carries a position, a velocity and the acceleration
//! accumulated from control input since the last tick. One simulation
//! tick integrates the kinematic state: the accumulated acceleration is
//! folded into the velocity, the velocity is damped by the configured
//! factor and added to the position, and the acceleration is consumed.

use vstd::prelude::*;

use crate::action::ActionError;
use crate::action::KeyPress;
use crate::action::controls_ok;
use crate::config::Config;
use crate::math::Vec2;
use crate::math::sat64;
use crate::math::sat_add64;

verus! {

/// The authoritative simulation state of one player's tank.
#[derive(Clone, Copy, Debug)]
pub struct Tank {
    pub player_id: u128,
    pub position: Vec2,
    pub velocity: Vec2,
    pub acceleration: Option<Vec2>,
}

/// The unit direction a control signal accelerates along. The vertical
/// axis grows downward, so `Up` points toward smaller `y`.
pub open spec fn dir_x(k: KeyPress) -> int {
    match k {
        KeyPress::Left => -1,
        KeyPress::Right => 1,
        _ => 0,
    }
}

/// The vertical component of a control signal's direction.
pub open spec fn dir_y(k: KeyPress) -> int {
    match k {
        KeyPress::Up => -1,
        KeyPress::Down => 1,
        _ => 0,
    }
}

/// The acceleration a tank has accumulated, with none meaning zero.
pub open spec fn accel_x(t: Tank) -> int {
    match t.acceleration {
        Some(a) => a.x as int,
        None => 0,
    }
}

/// The vertical component of the accumulated acceleration.
pub open spec fn accel_y(t: Tank) -> int {
    match t.acceleration {
        Some(a) => a.y as int,
        None => 0,
    }
}

/// One recognized control signal folded into the accumulated
/// acceleration, saturating at the coordinate range.
pub open spec fn apply_one_control(t: Tank, k: KeyPress, a: int) -> Tank {
    Tank {
        acceleration: Some(
            Vec2 {
                x: sat64(accel_x(t) + dir_x(k) * a) as i64,
                y: sat64(accel_y(t) + dir_y(k) * a) as i64,
            },
        ),
        ..t
    }
}

/// A control sequence folded into a tank, left to right, stopping at the
/// first unrecognized signal; everything before it is applied.
pub open spec fn apply_controls_spec(t: Tank, cs: Seq<KeyPress>, a: int) -> Tank
    decreases cs.len(),
{
    if cs.len() == 0 {
        t
    } else if cs[0] == KeyPress::Unknown {
        t
    } else {
        apply_controls_spec(apply_one_control(t, cs[0], a), cs.drop_first(), a)
    }
}

/// Linear damping: `x` scaled by `num / den`, truncating toward zero.
pub open spec fn damp(x: int, num: int, den: int) -> int {
    if x >= 0 {
        (x * num) / den
    } else {
        -(((-x) * num) / den)
    }
}

/// The next velocity component: accumulated acceleration folded in, then
/// the damping factor applied, saturating at the coordinate range.
pub open spec fn next_velocity(v: int, c: int, cfg: Config) -> int {
    sat64(damp(v + c, cfg.damp_num as int, cfg.damp_den as int))
}

/// One simulation tick of a single tank: velocity picks up the
/// accumulated acceleration and is damped, the position advances by the
/// new velocity, and the acceleration is consumed.
pub open spec fn tick_tank_spec(t: Tank, cfg: Config) -> Tank {
    let vx = next_velocity(t.velocity.x as int, accel_x(t), cfg);
    let vy = next_velocity(t.velocity.y as int, accel_y(t), cfg);
    Tank {
        player_id: t.player_id,
        position: Vec2 {
            x: sat64(t.position.x + vx) as i64,
            y: sat64(t.position.y + vy) as i64,
        },
        velocity: Vec2 { x: vx as i64, y: vy as i64 },
        acceleration: None,
    }
}

/// Computes `sat64(damp(s, num, den))` for a sum `s` of two coordinates.
fn damped64(s: i128, num: u32, den: u32) -> (r: i64)
    requires
        -(u64::MAX as i128) - 1 <= s <= u64::MAX as i128,
        1 <= num <= den,
    ensures
        r as int == sat64(damp(s as int, num as int, den as int)),
{
    proof {
        let m = if s as int >= 0 { s as int } else { -(s as int) };
        assert(m * num <= (u64::MAX as int + 1) * u32::MAX as int) by (nonlinear_arith)
            requires
                0 <= m <= u64::MAX as int + 1,
                0 <= num <= u32::MAX as int,
        ;
        assert((m * num) / (den as int) <= m * num) by (nonlinear_arith)
            requires
                m * num >= 0,
                den >= 1,
        ;
    }
    if s >= 0 {
        let scaled: u128 = (s as u128) * (num as u128);
        let q: u128 = scaled / (den as u128);
        if q > i64::MAX as u128 {
            i64::MAX
        } else {
            q as i64
        }
    } else {
        let scaled: u128 = ((-s) as u128) * (num as u128);
        let q: u128 = scaled / (den as u128);
        if q >= 9223372036854775808u128 {
            i64::MIN
        } else {
            -(q as i64)
        }
    }
}

/// Applying controls only accumulates acceleration: owner, position and
/// velocity stay as they were until the next tick.
pub proof fn lemma_apply_controls_same_motion(t: Tank, cs: Seq<KeyPress>, a: int)
    ensures
        apply_controls_spec(t, cs, a).player_id == t.player_id,
        apply_controls_spec(t, cs, a).position == t.position,
        apply_controls_spec(t, cs, a).velocity == t.velocity,
    decreases cs.len(),
{
    if cs.len() > 0 && cs[0] != KeyPress::Unknown {
        lemma_apply_controls_same_motion(apply_one_control(t, cs[0], a), cs.drop_first(), a);
    }
}

/// Basic facts about one damping step on a non-negative magnitude: the
/// result is non-negative, never grows past the input, and survives as
/// at least one unit whenever the scaled input reaches the denominator.
proof fn lemma_damp_bounds(x: int, num: int, den: int)
    requires
        0 <= x,
        1 <= num <= den,
    ensures
        0 <= damp(x, num, den) <= x,
        x * num >= den ==> damp(x, num, den) >= 1,
{
    let q = (x * num) / den;
    let r = (x * num) % den;
    vstd::arithmetic::div_mod::lemma_fundamental_div_mod(x * num, den);
    vstd::arithmetic::div_mod::lemma_mod_bound(x * num, den);
    assert(q >= 0 && q <= x && (x * num >= den ==> q >= 1)) by (nonlinear_arith)
        requires
            den * q + r == x * num,
            0 <= r < den,
            1 <= num <= den,
            0 <= x,
    ;
}

/// A resting tank given a single control and ticked once moves strictly
/// along that control's direction, and only along it: `Up` strictly
/// decreases the y-coordinate, `Down` strictly increases it, `Left` and
/// `Right` act the same way on the x-axis. In particular the `Up`
/// outcome ends at a strictly smaller y-coordinate than the `Down`
/// outcome. Degenerate inputs are excluded: the per-tick thrust must
/// survive damping (`accel_per_tick * damp_num >= damp_den`) and the
/// start position must be far enough from the coordinate limits that the
/// move does not saturate.
pub proof fn lemma_single_control_moves(t: Tank, cfg: Config)
    requires
        cfg.wf(),
        t.velocity.is_zero(),
        t.acceleration is None,
        cfg.accel_per_tick * cfg.damp_num >= cfg.damp_den,
        i64::MIN + cfg.accel_per_tick <= t.position.x <= i64::MAX - cfg.accel_per_tick,
        i64::MIN + cfg.accel_per_tick <= t.position.y <= i64::MAX - cfg.accel_per_tick,
    ensures
        ({
            let a = cfg.accel_per_tick as int;
            let up = tick_tank_spec(apply_one_control(t, KeyPress::Up, a), cfg);
            let down = tick_tank_spec(apply_one_control(t, KeyPress::Down, a), cfg);
            let left = tick_tank_spec(apply_one_control(t, KeyPress::Left, a), cfg);
            let right = tick_tank_spec(apply_one_control(t, KeyPress::Right, a), cfg);
            &&& up.position.y < t.position.y < down.position.y
            &&& left.position.x < t.position.x < right.position.x
            &&& up.position.y < down.position.y
            &&& up.velocity.y < 0 < down.velocity.y
            &&& left.velocity.x < 0 < right.velocity.x
            &&& up.position.x == t.position.x && down.position.x == t.position.x
            &&& left.position.y == t.position.y && right.position.y == t.position.y
        }),
{
    let a = cfg.accel_per_tick as int;
    let num = cfg.damp_num as int;
    let den = cfg.damp_den as int;
    lemma_damp_bounds(0, num, den);
    lemma_damp_bounds(a, num, den);
    let b = damp(a, num, den);
    assert(damp(-a, num, den) == -b);
    assert(1 <= b <= a);
}

/// Opposite controls across two consecutive ticks do not cancel
/// instantaneously: a resting tank accelerated `Up`, ticked, then
/// accelerated `Down` and ticked again ends with a vertical velocity
/// strictly closer to rest than after the first tick, but not yet back
/// at it — damped integration accumulates instead of cancelling in one
/// step. Configurations whose thrust rounds away to nothing under the
/// damping are excluded by the two product bounds.
pub proof fn lemma_opposite_controls_round_trip(t: Tank, cfg: Config)
    requires
        cfg.wf(),
        t.velocity.is_zero(),
        t.acceleration is None,
        cfg.damp_num < cfg.damp_den,
        cfg.accel_per_tick * cfg.damp_num * (cfg.damp_den - cfg.damp_num) >= cfg.damp_den
            * cfg.damp_den,
        cfg.accel_per_tick * cfg.damp_num * cfg.damp_num >= cfg.damp_den * (cfg.damp_den
            + cfg.damp_num),
    ensures
        ({
            let a = cfg.accel_per_tick as int;
            let t1 = tick_tank_spec(apply_one_control(t, KeyPress::Up, a), cfg);
            let t2 = tick_tank_spec(apply_one_control(t1, KeyPress::Down, a), cfg);
            &&& t1.velocity.y < 0
            &&& 0 < t2.velocity.y < -(t1.velocity.y as int)
        }),
{
    let a = cfg.accel_per_tick as int;
    let num = cfg.damp_num as int;
    let den = cfg.damp_den as int;

    assert(a * num >= den) by (nonlinear_arith)
        requires
            a * num * (den - num) >= den * den,
            1 <= num < den,
            a >= 1,
    ;
    lemma_damp_bounds(0, num, den);
    lemma_damp_bounds(a, num, den);
    let b = damp(a, num, den);
    let rb = (a * num) % den;
    vstd::arithmetic::div_mod::lemma_fundamental_div_mod(a * num, den);
    vstd::arithmetic::div_mod::lemma_mod_bound(a * num, den);
    assert(b < a) by (nonlinear_arith)
        requires
            den * b + rb == a * num,
            0 <= rb < den,
            1 <= num < den,
            a >= 1,
    ;
    let s = a - b;
    lemma_damp_bounds(s, num, den);
    let c = damp(s, num, den);
    let rc = (s * num) % den;
    vstd::arithmetic::div_mod::lemma_fundamental_div_mod(s * num, den);
    vstd::arithmetic::div_mod::lemma_mod_bound(s * num, den);
    assert(s * num >= den) by (nonlinear_arith)
        requires
            den * b + rb == a * num,
            0 <= rb < den,
            s == a - b,
            a * num * (den - num) >= den * den,
            1 <= num < den,
            a >= 1,
    ;
    assert(c < b) by (nonlinear_arith)
        requires
            den * b + rb == a * num,
            0 <= rb < den,
            den * c + rc == s * num,
            0 <= rc < den,
            s == a - b,
            a * num * num >= den * (den + num),
            1 <= num < den,
            a >= 1,
            0 <= c,
            0 <= b,
    ;
    let t1 = tick_tank_spec(apply_one_control(t, KeyPress::Up, a), cfg);
    assert(t1.velocity.y as int == -b);
    assert(t1.velocity.x == 0);
    let t2 = tick_tank_spec(apply_one_control(t1, KeyPress::Down, a), cfg);
    assert(t2.velocity.y as int == c);
}

impl Tank {
    /// A freshly spawned tank: at rest at `pos`, no pending acceleration.
    pub fn new(player_id: u128, pos: Vec2) -> (t: Tank)
        ensures
            t == (Tank {
                player_id,
                position: pos,
                velocity: Vec2 { x: 0i64, y: 0i64 },
                acceleration: None,
            }),
    {
        Tank { player_id, position: pos, velocity: Vec2::zero(), acceleration: None }
    }

    pub fn player(&self) -> (r: u128)
        ensures
            r == self.player_id,
    {
        self.player_id
    }

    pub fn pos(&self) -> (r: Vec2)
        ensures
            r == self.position,
    {
        self.position
    }

    pub fn vel(&self) -> (r: Vec2)
        ensures
            r == self.velocity,
    {
        self.velocity
    }

    /// Folds a control sequence into the accumulated acceleration, left
    /// to right. An unrecognized signal stops the fold and is reported;
    /// the recognized prefix before it stays applied.
    #[verifier::loop_isolation(false)]
    pub fn apply_controls(&mut self, controls: &[KeyPress], accel: i64) -> (r: Result<
        (),
        ActionError,
    >)
        requires
            accel >= 0,
        ensures
            *final(self) == apply_controls_spec(*old(self), controls@, accel as int),
            r.is_ok() <==> controls_ok(controls@),
            r is Err ==> r == Err::<(), ActionError>(ActionError::UnknownControl),
    {
        let ghost orig: Tank = *self;
        let ghost a: int = accel as int;
        let n = controls.len();
        proof {
            assert(controls@.skip(0) =~= controls@);
        }
        for i in 0..n
            invariant
                n == controls@.len(),
                apply_controls_spec(orig, controls@, a) == apply_controls_spec(
                    *self,
                    controls@.skip(i as int),
                    a,
                ),
                forall|j: int| 0 <= j < i ==> controls@[j] != KeyPress::Unknown,
        {
            let k = controls[i];
            let ghost before: Tank = *self;
            proof {
                assert(controls@.skip(i as int)[0] == controls@[i as int]);
            }
            match k {
                KeyPress::Unknown => {
                    proof {
                        assert(apply_controls_spec(*self, controls@.skip(i as int), a) == *self);
                    }
                    return Err(ActionError::UnknownControl);
                },
                _ => {
                    let (dx, dy): (i64, i64) = match k {
                        KeyPress::Up => (0, -1),
                        KeyPress::Down => (0, 1),
                        KeyPress::Left => (-1, 0),
                        KeyPress::Right => (1, 0),
                        KeyPress::Unknown => (0, 0),
                    };
                    let (cx, cy): (i64, i64) = match self.acceleration {
                        Some(acc) => (acc.x, acc.y),
                        None => (0, 0),
                    };
                    let step_x = if dx == 0 {
                        cx
                    } else if dx == 1 {
                        sat_add64(cx, accel)
                    } else {
                        sat_add64(cx, -accel)
                    };
                    let step_y = if dy == 0 {
                        cy
                    } else if dy == 1 {
                        sat_add64(cy, accel)
                    } else {
                        sat_add64(cy, -accel)
                    };
                    proof {
                        assert(dx as int == dir_x(k));
                        assert(dy as int == dir_y(k));
                        assert(step_x as int == sat64(accel_x(before) + dir_x(k) * a));
                        assert(step_y as int == sat64(accel_y(before) + dir_y(k) * a));
                    }
                    self.acceleration = Some(Vec2 { x: step_x, y: step_y });
                    proof {
                        assert(*self == apply_one_control(before, k, a));
                        assert(controls@.skip(i as int).drop_first() =~= controls@.skip(
                            i as int + 1,
                        ));
                        assert(apply_controls_spec(before, controls@.skip(i as int), a)
                            == apply_controls_spec(*self, controls@.skip(i as int + 1), a));
                    }
                },
            }
        }
        proof {
            assert(controls@.skip(n as int) =~= Seq::<KeyPress>::empty());
        }
        Ok(())
    }

    /// Advances this tank's kinematics by exactly one tick.
    pub fn tick(&mut self, cfg: &Config)
        requires
            cfg.wf(),
        ensures
            *final(self) == tick_tank_spec(*old(self), *cfg),
    {
        let (cx, cy): (i64, i64) = match self.acceleration {
            Some(acc) => (acc.x, acc.y),
            None => (0, 0),
        };
        let vx = damped64(self.velocity.x as i128 + cx as i128, cfg.damp_num, cfg.damp_den);
        let vy = damped64(self.velocity.y as i128 + cy as i128, cfg.damp_num, cfg.damp_den);
        let px = sat_add64(self.position.x, vx);
        let py = sat_add64(self.position.y, vy);
        self.velocity = Vec2 { x: vx, y: vy };
        self.position = Vec2 { x: px, y: py };
        self.acceleration = None;
    }
}

} // verus!
