//! The exact part of the orbit bookkeeping: what can go wrong, how long an
//! orbit has been running, and how the points of its drawn path are spread
//! over the full turn.
//!
//! Clock readings are whole nanoseconds, so the time since an orbit's epoch
//! is an exact difference. The orbit itself is floating-point arithmetic and
//! is worked out by the program around this library.

use vstd::prelude::*;

verus! {

/// What the physics can refuse to compute.
#[derive(Clone, Copy, Debug, PartialEq, Eq, Structural)]
pub enum PhysicsError {
    /// Two positions coincide, or another divisor of a formula is zero:
    /// the quotient would be no finite number.
    DegenerateInput,
    /// The trajectory is not a closed ellipse: its eccentricity is not
    /// below one.
    UnsupportedOrbitShape,
    /// The body whose orbit was asked for has no orbit any more.
    StaleOrbitReference,
}

/// The time that has passed at the clock reading `now` since the epoch of
/// a body's orbit, both in nanoseconds.
///
/// `epoch` is the epoch of the orbit that was looked up for the body, or
/// `None` where the body has no orbit any more: that is a stale reference,
/// and no time is given. The clock does not run backwards, so an epoch is
/// never later than `now`.
pub fn elapsed_since(epoch: Option<u128>, now: u128) -> (elapsed: Result<u128, PhysicsError>)
    requires
        epoch is Some ==> epoch->0 <= now,
    ensures
        epoch is None ==> elapsed == Err::<u128, PhysicsError>(PhysicsError::StaleOrbitReference),
        epoch is Some ==> elapsed == Ok::<u128, PhysicsError>((now - epoch->0) as u128),
{
    match epoch {
        Some(epoch) => Ok(now - epoch),
        None => Err(PhysicsError::StaleOrbitReference),
    }
}

/// The number of equal steps of true anomaly between the `points` points of
/// a drawn orbit. The path is closed: its last point lies on its first, so
/// the full turn is cut into one step fewer than there are points.
///
/// Fewer than two points close no path, and there is no step to take.
pub fn path_steps(points: u32) -> (steps: Option<u32>)
    ensures
        points >= 2 ==> steps == Some((points - 1) as u32),
        points < 2 ==> steps is None,
{
    if points >= 2 {
        Some(points - 1)
    } else {
        None
    }
}

/// The place of each of the `points` points of a drawn orbit on the full
/// turn: point `i` lies `i` of the `points - 1` equal steps from the first,
/// given as the pair of the two counts.
///
/// The path has as many points as were asked for, each one step beyond the
/// one before it, and it is closed: the first point has taken no step and
/// the last has taken all of them, which brings it back onto the first.
/// Fewer than two points close no path, and the plan is empty.
pub fn path_turns(points: u32) -> (turns: Vec<(u32, u32)>)
    ensures
        points < 2 ==> turns@.len() == 0,
        points >= 2 ==> turns@.len() == points,
        forall|i: int| 0 <= i < turns@.len() ==> turns@[i] == (i as u32, (points - 1) as u32),
        forall|i: int, j: int|
            0 <= i < turns@.len() && j == i + 1 && j < turns@.len() ==> (#[trigger] turns@[j]).0
                == (#[trigger] turns@[i]).0 + 1,
        points >= 2 ==> turns@.first().0 == 0 && turns@.last().0 == turns@.last().1,
{
    let mut turns: Vec<(u32, u32)> = Vec::new();
    match path_steps(points) {
        None => {},
        Some(steps) => {
            let mut i: u32 = 0;
            while i < steps
                invariant
                    steps == points - 1,
                    i <= steps,
                    turns@.len() == i,
                    forall|k: int| 0 <= k < i ==> turns@[k] == (k as u32, steps),
                decreases steps - i,
            {
                turns.push((i, steps));
                i = i + 1;
            }
            turns.push((steps, steps));
        },
    }
    turns
}

} // verus!
