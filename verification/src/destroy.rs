//! Timed destruction: entities marked with an absolute deadline or a
//! countdown timer are flagged for deletion once their time is up.

use crate::math::DT_LIMIT;
use crate::math::TIME_LIMIT;
use vstd::prelude::*;

verus! {

/// Delete the entity once the absolute simulation time passes `time`.
#[derive(Clone, Copy, Debug)]
pub struct DestroyAtTime {
    pub time: i64,
}

/// Delete the entity once `timer` has counted down to zero.
#[derive(Clone, Copy, Debug)]
pub struct DestroyInTime {
    pub timer: i64,
}

/// Flags entities whose deadline or countdown has run out. The deletion
/// itself belongs to the entity store; this stage only decides.
pub struct TimedDestroySystem;

impl TimedDestroySystem {
    /// Which deadline-tagged entities to delete: those whose time has
    /// passed.
    pub fn run_at(&self, rows: &Vec<DestroyAtTime>, now: i64) -> (out: Vec<bool>)
        ensures
            out@.len() == rows@.len(),
            forall|i: int| 0 <= i < rows@.len() ==> out@[i] == (now > (#[trigger] rows@[i]).time),
    {
        let mut out: Vec<bool> = Vec::new();
        let mut idx: usize = 0;
        while idx < rows.len()
            invariant
                0 <= idx <= rows@.len(),
                out@.len() == idx,
                forall|i: int| 0 <= i < idx ==> out@[i] == (now > (#[trigger] rows@[i]).time),
            decreases rows@.len() - idx,
        {
            out.push(now > rows[idx].time);
            idx += 1;
        }
        out
    }

    /// Which countdown-tagged entities to delete: those whose timer has
    /// run out, before this tick's time is taken off every timer.
    pub fn run_in(&self, rows: &mut Vec<DestroyInTime>, dt: i64) -> (out: Vec<bool>)
        requires
            0 <= dt <= DT_LIMIT,
            forall|i: int|
                0 <= i < old(rows)@.len() ==> -TIME_LIMIT <= (#[trigger] old(rows)@[i]).timer
                    <= TIME_LIMIT,
        ensures
            out@.len() == old(rows)@.len(),
            final(rows)@.len() == old(rows)@.len(),
            forall|i: int|
                0 <= i < old(rows)@.len() ==> out@[i] == ((#[trigger] old(rows)@[i]).timer <= 0)
                    && final(rows)@[i].timer == old(rows)@[i].timer - dt,
    {
        let ghost orig = rows@;
        let mut out: Vec<bool> = Vec::new();
        let mut idx: usize = 0;
        while idx < rows.len()
            invariant
                0 <= idx <= orig.len(),
                rows@.len() == orig.len(),
                0 <= dt <= DT_LIMIT,
                forall|i: int|
                    0 <= i < orig.len() ==> -TIME_LIMIT <= (#[trigger] orig[i]).timer <= TIME_LIMIT,
                forall|i: int| idx <= i < orig.len() ==> rows@[i] == #[trigger] orig[i],
                out@.len() == idx,
                forall|i: int|
                    0 <= i < idx ==> out@[i] == ((#[trigger] orig[i]).timer <= 0)
                        && rows@[i].timer == orig[i].timer - dt,
            decreases orig.len() - idx,
        {
            proof {
                assert(rows@[idx as int] == orig[idx as int]);
            }
            let row = &mut rows[idx];
            out.push(row.timer <= 0);
            row.timer = row.timer - dt;
            idx += 1;
        }
        out
    }
}

} // verus!
