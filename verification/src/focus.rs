//! Focus distances in motor steps and in nanometres.
//!
//! One step of the focus drive is 50 nm, a twentieth of a micrometre. A
//! distance in nanometres that is no whole number of steps is cut towards
//! zero.

use vstd::prelude::*;

verus! {

/// The size of one step of the focus drive, in nanometres.
pub const STEP_SIZE_NM: i64 = 50;

/// The distance that `steps` steps make, in nanometres.
pub open spec fn nm_of_steps(steps: int) -> int {
    steps * STEP_SIZE_NM
}

/// The whole steps in a distance of `nm` nanometres: what is left over is
/// dropped, on either side of zero.
pub open spec fn steps_of_nm(nm: int) -> int {
    if nm >= 0 {
        nm / (STEP_SIZE_NM as int)
    } else {
        -((-nm) / (STEP_SIZE_NM as int))
    }
}

/// The distance that `steps` steps make, in nanometres, unless it is too
/// large for the result.
pub fn steps_to_nm(steps: i64) -> (nm: Option<i64>)
    ensures
        nm == if i64::MIN <= nm_of_steps(steps as int) <= i64::MAX {
            Some(nm_of_steps(steps as int) as i64)
        } else {
            None
        },
{
    steps.checked_mul(STEP_SIZE_NM)
}

/// The whole steps in a distance of `nm` nanometres.
pub fn nm_to_steps(nm: i64) -> (steps: i64)
    ensures
        steps == steps_of_nm(nm as int),
{
    nm / STEP_SIZE_NM
}

/// Steps that were turned into nanometres come back as they were.
pub proof fn lemma_steps_round_trip(steps: int)
    ensures
        steps_of_nm(nm_of_steps(steps)) == steps,
{
}

/// A distance that was turned into steps comes back less than one step away,
/// and never further from zero than it was.
pub proof fn lemma_nm_round_trip(nm: int)
    ensures
        nm >= 0 ==> nm - STEP_SIZE_NM < nm_of_steps(steps_of_nm(nm)) <= nm,
        nm < 0 ==> nm <= nm_of_steps(steps_of_nm(nm)) < nm + STEP_SIZE_NM,
{
}

} // verus!
