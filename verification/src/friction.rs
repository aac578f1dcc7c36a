//! Ground friction: while an entity has been grounded for long enough, its
//! planar velocity decays towards zero, by a fixed amount per second or by
//! a fraction of the current speed.

use crate::ground::Grounded;
use crate::math::abs_of;
use crate::math::lemma_mul_bounds;
use crate::math::lemma_tdiv_bounds;
use crate::math::sgn;
use crate::math::tdiv;
use crate::math::tdiv_i128;
use crate::math::DT_LIMIT;
use crate::math::SCALE;
use crate::math::VEC_LIMIT;
use crate::vector::Vec3;
use crate::vector::V3;
use vstd::prelude::*;

verus! {

/// The way friction is applied.
#[derive(Clone, Copy, Debug, PartialEq, Eq, Structural)]
pub enum FrictionMode {
    /// The velocity is reduced by a fixed amount each second.
    Linear,
    /// The velocity is reduced by a fraction of the current velocity each
    /// second: the decay never overshoots past zero by construction.
    Percent,
}

/// Per-entity friction settings: how much speed is lost per second, in
/// which mode, and how long after grounding the decay starts.
#[derive(Clone, Copy, Debug)]
pub struct GroundFriction3D {
    /// The amount of friction speed loss per second.
    pub friction: i64,
    /// The way friction is applied.
    pub friction_mode: FrictionMode,
    /// The time to wait after touching the ground before applying friction.
    pub ground_time_before_apply: i64,
}

impl GroundFriction3D {
    /// Build a friction settings component.
    pub fn new(friction: i64, friction_mode: FrictionMode, ground_time_before_apply: i64) -> (r:
        GroundFriction3D)
        ensures
            r.friction == friction,
            r.friction_mode == friction_mode,
            r.ground_time_before_apply == ground_time_before_apply,
    {
        GroundFriction3D { friction, friction_mode, ground_time_before_apply }
    }
}

/// The friction amount is a decay rate: nonnegative and small enough for
/// the arithmetic to stay exact.
pub open spec fn friction_cfg_wf(cfg: GroundFriction3D) -> bool {
    0 <= cfg.friction <= VEC_LIMIT
}

/// One axis of friction: the velocity moves towards zero by `f`, clamping
/// exactly at zero, never overshooting past it.
pub open spec fn spec_friction_single(v: int, f: int) -> int {
    if abs_of(v) <= f {
        0int
    } else if v > 0 {
        v - f
    } else {
        v + f
    }
}

/// The decay amount of one percent-mode step: the fraction `c` (fixed
/// point) of the current magnitude.
pub open spec fn spec_percent_decrement(v: int, c: int) -> int {
    tdiv(abs_of(v) * c, SCALE as int)
}

/// One axis of one percent-mode friction step.
pub open spec fn spec_percent_friction(v: int, c: int) -> int {
    spec_friction_single(v, spec_percent_decrement(v, c))
}

/// The fixed-point decay coefficient of one tick: `friction * dt`.
pub open spec fn spec_decay_coefficient(friction: int, dt: int) -> int {
    tdiv(friction * dt, SCALE as int)
}

/// The velocity after one friction tick: untouched unless the entity is
/// grounded and past the grace delay; then each planar axis decays in the
/// configured mode, and the vertical axis is kept.
pub open spec fn spec_apply_friction(
    g: Grounded,
    cfg: GroundFriction3D,
    v: V3,
    now: int,
    dt: int,
) -> V3 {
    if g.ground && now - g.since >= cfg.ground_time_before_apply {
        let c = spec_decay_coefficient(cfg.friction as int, dt);
        match cfg.friction_mode {
            FrictionMode::Linear => V3 {
                x: spec_friction_single(v.x, c),
                y: v.y,
                z: spec_friction_single(v.z, c),
            },
            FrictionMode::Percent => V3 {
                x: spec_percent_friction(v.x, c),
                y: v.y,
                z: spec_percent_friction(v.z, c),
            },
        }
    } else {
        v
    }
}

/// Linear friction never flips the sign of a velocity: it shrinks the
/// magnitude by at most `f` and clamps exactly at zero.
pub proof fn lemma_linear_friction_no_sign_change(v: int, f: int)
    requires
        0 <= f,
    ensures
        abs_of(spec_friction_single(v, f)) <= abs_of(v),
        spec_friction_single(v, f) == 0 || sgn(spec_friction_single(v, f)) == sgn(v),
        abs_of(v) <= f ==> spec_friction_single(v, f) == 0,
        f < abs_of(v) ==> abs_of(spec_friction_single(v, f)) == abs_of(v) - f,
{
}

/// One percent-mode step, for a decay fraction below one: the sign is
/// kept, the magnitude never grows, and a nonzero velocity stays nonzero.
pub proof fn lemma_percent_friction_step(v: int, c: int)
    requires
        0 <= c < SCALE,
    ensures
        abs_of(spec_percent_friction(v, c)) <= abs_of(v),
        v != 0 ==> spec_percent_friction(v, c) != 0 && sgn(spec_percent_friction(v, c)) == sgn(v),
        v == 0 ==> spec_percent_friction(v, c) == 0,
{
    let m = abs_of(v);
    let dec = spec_percent_decrement(v, c);
    assert(m * c >= 0) by (nonlinear_arith)
        requires
            m >= 0,
            c >= 0,
    ;
    lemma_tdiv_bounds(m * c, SCALE as int);
    if v != 0 {
        assert(m >= 1);
        assert(m * c < m * (SCALE as int)) by (nonlinear_arith)
            requires
                m >= 1,
                c < SCALE as int,
        ;
        assert(dec * (SCALE as int) <= m * c);
        assert(dec < m);
    }
}

/// Percent-mode friction applied `k` times over.
pub open spec fn spec_percent_iterate(v: int, c: int, k: nat) -> int
    decreases k,
{
    if k == 0 {
        v
    } else {
        spec_percent_friction(spec_percent_iterate(v, c, (k - 1) as nat), c)
    }
}

/// However many ticks percent-mode friction runs for, with a decay
/// fraction below one, the velocity keeps its sign and never reaches zero
/// unless it started there; its magnitude never grows.
pub proof fn lemma_percent_friction_never_reaches_zero(v: int, c: int, k: nat)
    requires
        0 <= c < SCALE,
    ensures
        abs_of(spec_percent_iterate(v, c, k)) <= abs_of(v),
        v != 0 ==> spec_percent_iterate(v, c, k) != 0 && sgn(spec_percent_iterate(v, c, k)) == sgn(
            v,
        ),
        v == 0 ==> spec_percent_iterate(v, c, k) == 0,
    decreases k,
{
    if k > 0 {
        lemma_percent_friction_never_reaches_zero(v, c, (k - 1) as nat);
        lemma_percent_friction_step(spec_percent_iterate(v, c, (k - 1) as nat), c);
    }
}

/// One axis of friction: move `v` towards zero by `f`, clamping at zero.
pub fn apply_friction_single(v: i64, f: i64) -> (r: i64)
    requires
        0 <= f,
    ensures
        r as int == spec_friction_single(v as int, f as int),
{
    if v >= 0 {
        if v <= f {
            0
        } else {
            v - f
        }
    } else {
        if v >= -f {
            0
        } else {
            v + f
        }
    }
}

/// One entity as the friction stage sees it: ground state, settings, and
/// the next-frame velocity to decay.
pub struct FrictionBody {
    pub grounded: Grounded,
    pub friction: GroundFriction3D,
    pub velocity: Vec3,
}

/// Applies friction according to the `GroundFriction3D` settings of each
/// entity that also carries a `Grounded` state and a velocity.
pub struct GroundFrictionSystem;

/// One axis of one percent-mode step, for an already computed coefficient.
fn percent_friction_axis(v: i64, c: i64) -> (r: i64)
    requires
        0 <= c,
    ensures
        r as int == spec_percent_friction(v as int, c as int),
{
    let m: i128 = if v < 0 {
        -(v as i128)
    } else {
        v as i128
    };
    proof {
        lemma_mul_bounds(m as int, c as int, i64::MAX as int + 1, i64::MAX as int);
        lemma_tdiv_bounds(m as int * c as int, SCALE as int);
        assert(m as int * c as int >= 0) by (nonlinear_arith)
            requires
                m >= 0,
                c >= 0,
        ;
    }
    let dec: i128 = tdiv_i128(m * (c as i128), SCALE as i128);
    if m <= dec {
        0
    } else if v > 0 {
        v - (dec as i64)
    } else {
        v + (dec as i64)
    }
}

impl GroundFrictionSystem {
    /// One entity's friction tick: the velocity is decayed when the entity
    /// is grounded past the grace delay; nothing else is touched.
    pub fn friction_tick(&self, body: &mut FrictionBody, now: i64, dt: i64)
        requires
            friction_cfg_wf(old(body).friction),
            0 <= dt <= DT_LIMIT,
        ensures
            final(body).velocity@ == spec_apply_friction(
                old(body).grounded,
                old(body).friction,
                old(body).velocity@,
                now as int,
                dt as int,
            ),
            final(body).grounded == old(body).grounded,
            final(body).friction == old(body).friction,
    {
        let apply = body.grounded.ground && (now as i128) - (body.grounded.since as i128) >= (
        body.friction.ground_time_before_apply as i128);
        if apply {
            proof {
                lemma_mul_bounds(
                    body.friction.friction as int,
                    dt as int,
                    VEC_LIMIT as int,
                    DT_LIMIT as int,
                );
                lemma_tdiv_bounds(body.friction.friction as int * dt as int, SCALE as int);
                assert(body.friction.friction as int * dt as int >= 0) by (nonlinear_arith)
                    requires
                        body.friction.friction as int >= 0,
                        dt as int >= 0,
                ;
            }
            let c: i128 = tdiv_i128((body.friction.friction as i128) * (dt as i128), SCALE as i128);
            let c64: i64 = c as i64;
            match body.friction.friction_mode {
                FrictionMode::Linear => {
                    body.velocity = Vec3 {
                        x: apply_friction_single(body.velocity.x, c64),
                        y: body.velocity.y,
                        z: apply_friction_single(body.velocity.z, c64),
                    };
                },
                FrictionMode::Percent => {
                    body.velocity = Vec3 {
                        x: percent_friction_axis(body.velocity.x, c64),
                        y: body.velocity.y,
                        z: percent_friction_axis(body.velocity.z, c64),
                    };
                },
            }
        }
    }

    /// Run the friction stage over every entity in order.
    pub fn run(&self, bodies: &mut Vec<FrictionBody>, now: i64, dt: i64)
        requires
            0 <= dt <= DT_LIMIT,
            forall|i: int|
                0 <= i < old(bodies)@.len() ==> friction_cfg_wf(
                    (#[trigger] old(bodies)@[i]).friction,
                ),
        ensures
            final(bodies)@.len() == old(bodies)@.len(),
            forall|i: int|
                0 <= i < old(bodies)@.len() ==> {
                    let b = #[trigger] old(bodies)@[i];
                    let a = final(bodies)@[i];
                    a.velocity@ == spec_apply_friction(
                        b.grounded,
                        b.friction,
                        b.velocity@,
                        now as int,
                        dt as int,
                    ) && a.grounded == b.grounded && a.friction == b.friction
                },
    {
        let ghost orig = bodies@;
        let mut idx: usize = 0;
        while idx < bodies.len()
            invariant
                0 <= idx <= orig.len(),
                bodies@.len() == orig.len(),
                0 <= dt <= DT_LIMIT,
                forall|i: int| 0 <= i < orig.len() ==> friction_cfg_wf((#[trigger] orig[i]).friction),
                forall|i: int| idx <= i < orig.len() ==> bodies@[i] == #[trigger] orig[i],
                forall|i: int|
                    0 <= i < idx ==> {
                        let b = #[trigger] orig[i];
                        let a = bodies@[i];
                        a.velocity@ == spec_apply_friction(
                            b.grounded,
                            b.friction,
                            b.velocity@,
                            now as int,
                            dt as int,
                        ) && a.grounded == b.grounded && a.friction == b.friction
                    },
            decreases orig.len() - idx,
        {
            proof {
                assert(bodies@[idx as int] == orig[idx as int]);
            }
            let body = &mut bodies[idx];
            self.friction_tick(body, now, dt);
            idx += 1;
        }
    }
}

} // verus!
