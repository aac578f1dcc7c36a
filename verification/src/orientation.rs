//! Mouse-driven orientation: mouse deltas accumulate into yaw and pitch,
//! the pitch is clamped short of vertical, and the two accumulators drive
//! the visual transform (pitch) and the physics body (yaw) separately.

use crate::math::lemma_mul_bounds;
use vstd::prelude::*;

verus! {

/// The pitch accumulator is clamped to this many fixed-point degrees on
/// either side of level: 89.5 degrees, just short of vertical, to avoid
/// gimbal lock and looking past straight up or down.
pub const PITCH_LIMIT: i64 = 89_500;

/// Largest raw mouse delta accepted in one event.
pub const DELTA_LIMIT: i64 = 100_000;

/// Largest sensitivity accepted, in fixed-point degrees per count.
pub const SENS_LIMIT: i64 = 1_000_000;

/// Largest yaw one event can add: `DELTA_LIMIT * SENS_LIMIT`.
pub const YAW_EVENT_STEP: i64 = 100_000_000_000;

/// Largest yaw accumulator a run may start from.
pub const YAW_ACCUM_LIMIT: i64 = 100_000_000_000_000_000;

/// Most mouse events accepted in one tick.
pub const EVENTS_LIMIT: usize = 10_000;

/// Per-entity view angles: accumulated yaw (`mouse_accum_x`) and pitch
/// (`mouse_accum_y`), in fixed-point degrees.
#[derive(Clone, Copy, Debug)]
pub struct RotationControl {
    pub mouse_accum_x: i64,
    pub mouse_accum_y: i64,
}

impl Default for RotationControl {
    /// Level view, facing the zero yaw.
    fn default() -> (r: RotationControl)
        ensures
            r.mouse_accum_x == 0,
            r.mouse_accum_y == 0,
    {
        RotationControl { mouse_accum_x: 0, mouse_accum_y: 0 }
    }
}

impl RotationControl {
    /// The pitch angle the visual transform takes: the negated pitch
    /// accumulator, a pure rotation about the lateral axis.
    pub fn transform_pitch(&self) -> (r: i64)
        requires
            i64::MIN < self.mouse_accum_y,
        ensures
            r == -self.mouse_accum_y,
    {
        -self.mouse_accum_y
    }

    /// The yaw angle the physics body takes, for both the current and the
    /// next simulated frame: a pure rotation about the vertical axis.
    pub fn body_yaw(&self) -> (r: i64)
        ensures
            r == self.mouse_accum_x,
    {
        self.mouse_accum_x
    }
}

/// One relative mouse motion event.
#[derive(Clone, Copy, Debug)]
pub struct MouseMotion {
    pub dx: i64,
    pub dy: i64,
}

/// The pitch accumulator folded back into its clamp range.
pub open spec fn spec_pitch_clamp(v: int) -> int {
    if v < -PITCH_LIMIT {
        -PITCH_LIMIT as int
    } else if v > PITCH_LIMIT {
        PITCH_LIMIT as int
    } else {
        v
    }
}

/// One mouse event folded into the accumulators: yaw moves against the
/// horizontal delta, pitch with the vertical delta and is clamped exactly
/// at the limit, never beyond it.
pub open spec fn spec_rotation_step(
    ctrl: RotationControl,
    e: MouseMotion,
    sx: i64,
    sy: i64,
) -> RotationControl {
    RotationControl {
        mouse_accum_x: (ctrl.mouse_accum_x - e.dx * sx) as i64,
        mouse_accum_y: spec_pitch_clamp(ctrl.mouse_accum_y + e.dy * sy) as i64,
    }
}

/// The first `i` events folded into the accumulators in order.
pub open spec fn spec_rotation_fold_upto(
    ctrl: RotationControl,
    events: Seq<MouseMotion>,
    sx: i64,
    sy: i64,
    i: int,
) -> RotationControl
    decreases i,
{
    if i <= 0 {
        ctrl
    } else {
        spec_rotation_step(spec_rotation_fold_upto(ctrl, events, sx, sy, i - 1), events[i - 1], sx, sy)
    }
}

/// However many deltas are fed in, after at least one event the pitch
/// accumulator lies exactly within the clamp range: it lands on the
/// boundary, never past it.
pub proof fn lemma_pitch_clamped(
    ctrl: RotationControl,
    events: Seq<MouseMotion>,
    sx: i64,
    sy: i64,
    i: int,
)
    requires
        1 <= i,
    ensures
        -PITCH_LIMIT <= spec_rotation_fold_upto(ctrl, events, sx, sy, i).mouse_accum_y
            <= PITCH_LIMIT,
    decreases i,
{
}

/// Reads accumulated mouse deltas and writes view angles: the visual
/// transform takes the (clamped) pitch, the physics body the yaw.
pub struct FPSRotationRhusicsSystem {
    /// Yaw moved per horizontal count, fixed-point degrees.
    pub sensitivity_x: i64,
    /// Pitch moved per vertical count, fixed-point degrees.
    pub sensitivity_y: i64,
}

impl FPSRotationRhusicsSystem {
    /// A rotation stage with the given mouse sensitivities.
    pub fn new(sensitivity_x: i64, sensitivity_y: i64) -> (r: FPSRotationRhusicsSystem)
        ensures
            r.sensitivity_x == sensitivity_x,
            r.sensitivity_y == sensitivity_y,
    {
        FPSRotationRhusicsSystem { sensitivity_x, sensitivity_y }
    }

    /// Fold one mouse event into one entity's accumulators.
    pub fn rotation_event(&self, ctrl: &mut RotationControl, e: MouseMotion)
        requires
            -SENS_LIMIT <= self.sensitivity_x <= SENS_LIMIT,
            -SENS_LIMIT <= self.sensitivity_y <= SENS_LIMIT,
            -DELTA_LIMIT <= e.dx <= DELTA_LIMIT,
            -DELTA_LIMIT <= e.dy <= DELTA_LIMIT,
            -(i64::MAX - YAW_EVENT_STEP) <= old(ctrl).mouse_accum_x <= i64::MAX - YAW_EVENT_STEP,
        ensures
            *final(ctrl) == spec_rotation_step(*old(ctrl), e, self.sensitivity_x, self.sensitivity_y),
            -PITCH_LIMIT <= final(ctrl).mouse_accum_y <= PITCH_LIMIT,
    {
        proof {
            lemma_mul_bounds(
                e.dx as int,
                self.sensitivity_x as int,
                DELTA_LIMIT as int,
                SENS_LIMIT as int,
            );
            lemma_mul_bounds(
                e.dy as int,
                self.sensitivity_y as int,
                DELTA_LIMIT as int,
                SENS_LIMIT as int,
            );
        }
        let nx: i128 = (ctrl.mouse_accum_x as i128) - (e.dx as i128) * (self.sensitivity_x as i128);
        ctrl.mouse_accum_x = nx as i64;
        let ny: i128 = (ctrl.mouse_accum_y as i128) + (e.dy as i128) * (self.sensitivity_y as i128);
        let clamped: i128 = if ny < -(PITCH_LIMIT as i128) {
            -(PITCH_LIMIT as i128)
        } else if ny > (PITCH_LIMIT as i128) {
            PITCH_LIMIT as i128
        } else {
            ny
        };
        ctrl.mouse_accum_y = clamped as i64;
    }

    /// The orientation stage for one tick: with the window focused and the
    /// cursor captured, every entity folds in every event in order;
    /// otherwise the deltas are ignored entirely.
    pub fn run(
        &self,
        controls: &mut Vec<RotationControl>,
        events: &Vec<MouseMotion>,
        focused: bool,
        cursor_hidden: bool,
    )
        requires
            focused && cursor_hidden ==> {
                &&& -SENS_LIMIT <= self.sensitivity_x <= SENS_LIMIT
                &&& -SENS_LIMIT <= self.sensitivity_y <= SENS_LIMIT
                &&& events@.len() <= EVENTS_LIMIT
                &&& forall|j: int|
                    0 <= j < events@.len() ==> -DELTA_LIMIT <= (#[trigger] events@[j]).dx
                        <= DELTA_LIMIT && -DELTA_LIMIT <= events@[j].dy <= DELTA_LIMIT
                &&& forall|i: int|
                    0 <= i < old(controls)@.len() ==> -YAW_ACCUM_LIMIT <= (#[trigger] old(
                        controls,
                    )@[i]).mouse_accum_x <= YAW_ACCUM_LIMIT
            },
        ensures
            final(controls)@.len() == old(controls)@.len(),
            !(focused && cursor_hidden) ==> final(controls)@ == old(controls)@,
            focused && cursor_hidden ==> forall|i: int|
                0 <= i < old(controls)@.len() ==> final(controls)@[i] == spec_rotation_fold_upto(
                    #[trigger] old(controls)@[i],
                    events@,
                    self.sensitivity_x,
                    self.sensitivity_y,
                    events@.len() as int,
                ),
    {
        if !(focused && cursor_hidden) {
            return ;
        }
        let ghost orig = controls@;
        let mut idx: usize = 0;
        while idx < controls.len()
            invariant
                0 <= idx <= orig.len(),
                controls@.len() == orig.len(),
                -SENS_LIMIT <= self.sensitivity_x <= SENS_LIMIT,
                -SENS_LIMIT <= self.sensitivity_y <= SENS_LIMIT,
                events@.len() <= EVENTS_LIMIT,
                forall|j: int|
                    0 <= j < events@.len() ==> -DELTA_LIMIT <= (#[trigger] events@[j]).dx
                        <= DELTA_LIMIT && -DELTA_LIMIT <= events@[j].dy <= DELTA_LIMIT,
                forall|i: int|
                    0 <= i < orig.len() ==> -YAW_ACCUM_LIMIT <= (#[trigger] orig[i]).mouse_accum_x
                        <= YAW_ACCUM_LIMIT,
                forall|i: int| idx <= i < orig.len() ==> controls@[i] == #[trigger] orig[i],
                forall|i: int|
                    0 <= i < idx ==> controls@[i] == spec_rotation_fold_upto(
                        #[trigger] orig[i],
                        events@,
                        self.sensitivity_x,
                        self.sensitivity_y,
                        events@.len() as int,
                    ),
            decreases orig.len() - idx,
        {
            proof {
                assert(controls@[idx as int] == orig[idx as int]);
            }
            let ctrl = &mut controls[idx];
            let ghost start = *ctrl;
            let mut j: usize = 0;
            while j < events.len()
                invariant
                    0 <= j <= events@.len(),
                    events@.len() <= EVENTS_LIMIT,
                    -SENS_LIMIT <= self.sensitivity_x <= SENS_LIMIT,
                    -SENS_LIMIT <= self.sensitivity_y <= SENS_LIMIT,
                    forall|k: int|
                        0 <= k < events@.len() ==> -DELTA_LIMIT <= (#[trigger] events@[k]).dx
                            <= DELTA_LIMIT && -DELTA_LIMIT <= events@[k].dy <= DELTA_LIMIT,
                    -YAW_ACCUM_LIMIT <= start.mouse_accum_x <= YAW_ACCUM_LIMIT,
                    *ctrl == spec_rotation_fold_upto(
                        start,
                        events@,
                        self.sensitivity_x,
                        self.sensitivity_y,
                        j as int,
                    ),
                    -YAW_ACCUM_LIMIT - (j as int) * YAW_EVENT_STEP <= ctrl.mouse_accum_x
                        <= YAW_ACCUM_LIMIT + (j as int) * YAW_EVENT_STEP,
                decreases events@.len() - j,
            {
                let e = events[j];
                proof {
                    assert((j as int) * YAW_EVENT_STEP <= EVENTS_LIMIT as int * YAW_EVENT_STEP)
                        by (nonlinear_arith)
                        requires
                            0 <= j as int <= EVENTS_LIMIT as int,
                            YAW_EVENT_STEP > 0,
                    ;
                    assert(((j + 1) as int) * YAW_EVENT_STEP == (j as int) * YAW_EVENT_STEP
                        + YAW_EVENT_STEP) by (nonlinear_arith);
                    lemma_mul_bounds(
                        events@[j as int].dx as int,
                        self.sensitivity_x as int,
                        DELTA_LIMIT as int,
                        SENS_LIMIT as int,
                    );
                }
                self.rotation_event(ctrl, e);
                j += 1;
            }
            idx += 1;
        }
    }
}

} // verus!
