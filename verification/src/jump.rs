//! Jump control: edge-triggered (or auto-repeating) jumps with a shared
//! input debounce, a per-entity cooldown, and a timing-bonus curve over the
//! offset between ground contact and the physical key press.

use crate::curve::lemma_step_lookup_in;
use crate::curve::step_lookup;
use crate::curve::StepCurve;
use crate::ground::Grounded;
use crate::math::lemma_mul_bounds;
use crate::math::lemma_tdiv_bounds;
use crate::math::tdiv;
use crate::math::tdiv_i128;
use crate::math::SCALE;
use crate::math::TIME_LIMIT;
use crate::math::VEC_LIMIT;
use crate::vector::v3_bounded;
use crate::vector::Vec3;
use vstd::prelude::*;

verus! {

/// Default per-entity jump cooldown: a third of a second.
pub const DEFAULT_JUMP_COOLDOWN: i64 = 333;

/// Default shared input debounce: a tenth of a second.
pub const DEFAULT_INPUT_COOLDOWN: i64 = 100;

/// Largest timing-bonus multiplier the arithmetic accepts: a factor of a
/// thousand.
pub const MULTIPLIER_LIMIT: i64 = 1_000_000;

/// Per-entity jump settings and state.
#[derive(Clone, Debug)]
pub struct Jump {
    /// False: apply an upward force. True: overwrite the vertical velocity.
    pub absolute: bool,
    /// Only jump while grounded.
    pub check_ground: bool,
    /// The force to add, or the vertical velocity to set.
    pub jump_force: i64,
    /// Jump again while the key is held, instead of edge-triggering.
    pub auto_jump: bool,
    /// Least time between two jumps of this entity.
    pub jump_cooldown: i64,
    /// Least time between two accepted presses of the shared input.
    pub input_cooldown: i64,
    /// Multiplier over the contact/press offset; the offset can be
    /// negative (pressed before landing). Absent: multiplier one.
    pub jump_timing_boost: Option<StepCurve<i64>>,
    /// When this entity last jumped.
    pub last_jump: i64,
    /// The contact/press offset of the last jump.
    pub last_jump_offset: i64,
}

impl Jump {
    /// Jump settings with the default cooldowns, no bonus curve, and no
    /// jump on record.
    pub fn new(absolute: bool, check_ground: bool, jump_force: i64, auto_jump: bool) -> (r: Jump)
        ensures
            r.absolute == absolute,
            r.check_ground == check_ground,
            r.jump_force == jump_force,
            r.auto_jump == auto_jump,
            r.jump_cooldown == DEFAULT_JUMP_COOLDOWN,
            r.input_cooldown == DEFAULT_INPUT_COOLDOWN,
            r.jump_timing_boost is None,
            r.last_jump == 0,
            r.last_jump_offset == 0,
    {
        Jump {
            absolute,
            check_ground,
            jump_force,
            auto_jump,
            jump_cooldown: DEFAULT_JUMP_COOLDOWN,
            input_cooldown: DEFAULT_INPUT_COOLDOWN,
            jump_timing_boost: Option::None,
            last_jump: 0,
            last_jump_offset: 0,
        }
    }
}

/// The jump stage: shared input state plus the per-entity pass.
#[derive(Debug)]
pub struct JumpSystem {
    /// The last time the stage accepted a jump input (shared debounce).
    pub last_logical_press: i64,
    /// Was the jump key held during the previous tick?
    pub input_hold: bool,
    /// The last time the jump key was physically pressed.
    pub last_physical_press: i64,
}

impl Default for JumpSystem {
    /// The stage starts with no press on record and the key up.
    fn default() -> (r: JumpSystem)
        ensures
            r.last_logical_press == 0,
            !r.input_hold,
            r.last_physical_press == 0,
    {
        JumpSystem { last_logical_press: 0, input_hold: false, last_physical_press: 0 }
    }
}

/// One entity as the jump stage sees it: its settings and state, its
/// ground state if it has one, and its force and velocity sinks.
pub struct JumpBody {
    pub jump: Jump,
    pub grounded: Option<Grounded>,
    pub force: Vec3,
    pub velocity: Vec3,
}

/// Settings and state within the range the arithmetic covers.
pub open spec fn jump_body_wf(b: JumpBody) -> bool {
    &&& -VEC_LIMIT <= b.jump.jump_force <= VEC_LIMIT
    &&& 0 <= b.jump.last_jump <= TIME_LIMIT
    &&& v3_bounded(b.force@, VEC_LIMIT as int)
    &&& match b.jump.jump_timing_boost {
        Option::Some(c) => forall|i: int|
            0 <= i < c.pieces@.len() ==> -MULTIPLIER_LIMIT <= (#[trigger] c.pieces@[i]).1
                <= MULTIPLIER_LIMIT,
        Option::None => true,
    }
    &&& match b.grounded {
        Option::Some(g) => 0 <= g.since <= TIME_LIMIT,
        Option::None => true,
    }
}

/// The timing multiplier for a given offset: the curve's value there, or
/// one (the scale) with no curve or outside its covered domain.
pub open spec fn spec_multiplier(j: Jump, offset: int) -> int {
    match j.jump_timing_boost {
        Option::None => SCALE as int,
        Option::Some(c) => match step_lookup(c.pieces@, offset) {
            Option::None => SCALE as int,
            Option::Some(m) => m as int,
        },
    }
}

/// The timestamp the offset is measured from: the grounding time when
/// ground is checked, else the current time.
pub open spec fn spec_grounded_since(now: i64, b: JumpBody) -> int {
    if b.jump.check_ground {
        match b.grounded {
            Option::Some(g) => g.since as int,
            Option::None => now as int,
        }
    } else {
        now as int
    }
}

/// One entity's jump pass: the shared debounce and the body after the
/// tick. Mirrors, in order: the edge trigger, the shared input cooldown
/// (whose acceptance is recorded even when a later gate skips), the ground
/// requirement, the per-entity cooldown, and the jump itself, which
/// either adds an upward force of `jump_force` times the timing multiplier
/// or overwrites the vertical velocity with `jump_force` (the multiplier
/// deliberately applies only to the force path). A jump clears the ground
/// flag so the stale probe cannot trigger again this tick.
pub open spec fn spec_jump_entity(
    now: i64,
    was_held: bool,
    phys: i64,
    logical: i64,
    b: JumpBody,
) -> (i64, JumpBody) {
    if was_held && !b.jump.auto_jump {
        (logical, b)
    } else if now - logical < b.jump.input_cooldown {
        (logical, b)
    } else if b.jump.check_ground && !(match b.grounded {
        Option::Some(g) => g.ground,
        Option::None => false,
    }) {
        (now, b)
    } else if now - b.jump.last_jump > b.jump.jump_cooldown {
        let offset = spec_grounded_since(now, b) - phys;
        let mult = spec_multiplier(b.jump, offset);
        let jump2 = Jump {
            last_jump: now,
            last_jump_offset: offset as i64,
            ..b.jump
        };
        let grounded2 = match b.grounded {
            Option::Some(g) => Option::Some(Grounded { ground: false, ..g }),
            Option::None => Option::None,
        };
        if !b.jump.absolute {
            let gain = tdiv(b.jump.jump_force * mult, SCALE as int);
            (
                now,
                JumpBody {
                    jump: jump2,
                    grounded: grounded2,
                    force: Vec3 {
                        x: b.force.x,
                        y: (b.force.y + gain) as i64,
                        z: b.force.z,
                    },
                    velocity: b.velocity,
                },
            )
        } else {
            (
                now,
                JumpBody {
                    jump: jump2,
                    grounded: grounded2,
                    force: b.force,
                    velocity: Vec3 { x: b.velocity.x, y: b.jump.jump_force, z: b.velocity.z },
                },
            )
        }
    } else {
        (now, b)
    }
}

/// The jump pass over the first `i` entities, threading the shared
/// debounce from one entity to the next.
pub open spec fn spec_jump_fold_upto(
    now: i64,
    was_held: bool,
    phys: i64,
    logical: i64,
    bodies: Seq<JumpBody>,
    i: int,
) -> (i64, Seq<JumpBody>)
    decreases i,
{
    if i <= 0 {
        (logical, bodies)
    } else {
        let prev = spec_jump_fold_upto(now, was_held, phys, logical, bodies, i - 1);
        let step = spec_jump_entity(now, was_held, phys, prev.0, prev.1[i - 1]);
        (step.0, prev.1.update(i - 1, step.1))
    }
}

/// A press within the per-entity jump cooldown does nothing: the jump
/// state, the force and the velocity of the entity all stay as they were,
/// whatever the other gates say.
pub proof fn lemma_jump_cooldown_blocks(now: i64, was_held: bool, phys: i64, logical: i64, b: JumpBody)
    requires
        now - b.jump.last_jump <= b.jump.jump_cooldown,
    ensures
        ({
            let r = spec_jump_entity(now, was_held, phys, logical, b);
            r.1.jump == b.jump && r.1.force == b.force && r.1.velocity == b.velocity
                && r.1.grounded == b.grounded
        }),
{
}

impl JumpSystem {
    /// One entity's jump pass for this tick. `was_held` is whether the key
    /// was already held when the tick began.
    pub fn jump_entity_tick(&mut self, body: &mut JumpBody, now: i64, was_held: bool)
        requires
            jump_body_wf(*old(body)),
            0 <= now <= TIME_LIMIT,
            0 <= old(self).last_physical_press <= TIME_LIMIT,
        ensures
            ({
                let r = spec_jump_entity(
                    now,
                    was_held,
                    old(self).last_physical_press,
                    old(self).last_logical_press,
                    *old(body),
                );
                final(self).last_logical_press == r.0 && *final(body) == r.1
            }),
            final(self).input_hold == old(self).input_hold,
            final(self).last_physical_press == old(self).last_physical_press,
    {
        if was_held && !body.jump.auto_jump {
            return ;
        }
        if (now as i128) - (self.last_logical_press as i128) < (body.jump.input_cooldown as i128) {
            return ;
        }
        self.last_logical_press = now;
        let grounded_since: i64 = if body.jump.check_ground {
            match &body.grounded {
                Option::Some(g) => {
                    if !g.ground {
                        return ;
                    }
                    g.since
                },
                Option::None => {
                    return ;
                },
            }
        } else {
            now
        };
        if (now as i128) - (body.jump.last_jump as i128) > (body.jump.jump_cooldown as i128) {
            body.jump.last_jump = now;
            let offset: i64 = grounded_since - self.last_physical_press;
            body.jump.last_jump_offset = offset;
            let multiplier: i64 = match &body.jump.jump_timing_boost {
                Option::Some(curve) => {
                    proof {
                        lemma_step_lookup_in(curve.pieces@, offset as int);
                    }
                    match curve.eval(offset) {
                        Option::Some(m) => *m,
                        Option::None => SCALE,
                    }
                },
                Option::None => SCALE,
            };
            if !body.jump.absolute {
                proof {
                    lemma_mul_bounds(
                        body.jump.jump_force as int,
                        multiplier as int,
                        VEC_LIMIT as int,
                        MULTIPLIER_LIMIT as int,
                    );
                    lemma_tdiv_bounds(
                        body.jump.jump_force as int * multiplier as int,
                        SCALE as int,
                    );
                }
                let gain = tdiv_i128(
                    (body.jump.jump_force as i128) * (multiplier as i128),
                    SCALE as i128,
                );
                body.force.y = body.force.y + (gain as i64);
            } else {
                body.velocity.y = body.jump.jump_force;
            }
            match &mut body.grounded {
                Option::Some(g) => {
                    g.ground = false;
                },
                Option::None => {},
            }
        }
    }

    /// The jump stage for one tick. While the key is down, the physical
    /// press time is stamped on the down edge and every entity gets its
    /// pass, sharing one debounce; releasing the key only clears the held
    /// flag.
    pub fn run(&mut self, bodies: &mut Vec<JumpBody>, now: i64, jump_down: bool)
        requires
            0 <= now <= TIME_LIMIT,
            0 <= old(self).last_physical_press <= TIME_LIMIT,
            jump_down ==> forall|i: int|
                0 <= i < old(bodies)@.len() ==> jump_body_wf(#[trigger] old(bodies)@[i]),
        ensures
            !jump_down ==> !final(self).input_hold && final(self).last_logical_press == old(
                self,
            ).last_logical_press && final(self).last_physical_press == old(self).last_physical_press
                && final(bodies)@ == old(bodies)@,
            jump_down ==> {
                let phys = if old(self).input_hold {
                    old(self).last_physical_press
                } else {
                    now
                };
                let r = spec_jump_fold_upto(
                    now,
                    old(self).input_hold,
                    phys,
                    old(self).last_logical_press,
                    old(bodies)@,
                    old(bodies)@.len() as int,
                );
                &&& final(self).input_hold
                &&& final(self).last_physical_press == phys
                &&& final(self).last_logical_press == r.0
                &&& final(bodies)@ == r.1
            },
    {
        if !jump_down {
            // the jump key was released
            self.input_hold = false;
            return ;
        }
        let was_held = self.input_hold;
        if !was_held {
            // the key was just pressed: record the time
            self.last_physical_press = now;
            self.input_hold = true;
        }
        let ghost orig = bodies@;
        let ghost phys = self.last_physical_press;
        let ghost logical0 = self.last_logical_press;
        let mut idx: usize = 0;
        while idx < bodies.len()
            invariant
                0 <= idx <= orig.len(),
                bodies@.len() == orig.len(),
                0 <= now <= TIME_LIMIT,
                forall|i: int| 0 <= i < orig.len() ==> jump_body_wf(#[trigger] orig[i]),
                forall|i: int| idx <= i < orig.len() ==> bodies@[i] == #[trigger] orig[i],
                self.input_hold,
                self.last_physical_press == phys,
                0 <= phys <= TIME_LIMIT,
                ({
                    let r = spec_jump_fold_upto(now, was_held, phys, logical0, orig, idx as int);
                    self.last_logical_press == r.0 && bodies@ == r.1
                }),
            decreases orig.len() - idx,
        {
            proof {
                let r = spec_jump_fold_upto(now, was_held, phys, logical0, orig, idx as int);
                assert(bodies@[idx as int] == r.1[idx as int]);
                assert(r.1[idx as int] == orig[idx as int]);
            }
            let body = &mut bodies[idx];
            self.jump_entity_tick(body, now, was_held);
            idx += 1;
        }
        proof {
            assert(bodies@ =~= spec_jump_fold_upto(
                now,
                was_held,
                phys,
                logical0,
                orig,
                orig.len() as int,
            ).1);
        }
    }
}

} // verus!
