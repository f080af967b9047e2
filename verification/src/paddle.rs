//! The paddle controller: one step left or right per frame, kept inside the
//! playfield.

use vstd::prelude::*;

verus! {

/// How far the paddle moves in one frame.
pub const PADDLE_STEP: i8 = 8;

/// The leftmost horizontal position the paddle may take.
pub const PADDLE_MIN_X: i64 = -335;

/// The rightmost horizontal position the paddle may take.
pub const PADDLE_MAX_X: i64 = 335;

/// The height at which the paddle travels.
pub const PADDLE_Y: i64 = -300;

/// The paddle, with the length of its step.
#[derive(Clone, Copy, Debug, PartialEq, Eq)]
pub struct Paddle(i8);

/// `value` brought into the interval from `min` to `max`: a value at or below
/// `min` becomes `min`, one at or above `max` becomes `max`.
pub open spec fn clamped(value: int, min: int, max: int) -> int {
    if value > min {
        if value < max {
            value
        } else {
            max
        }
    } else {
        min
    }
}

/// The direction that the held keys ask for: one unit to the left, one to the
/// right, none when neither or both are held.
pub open spec fn axis(left: bool, right: bool) -> int {
    (if right { 1int } else { 0int }) - (if left { 1int } else { 0int })
}

/// The paddle's next horizontal position, if the keys move it at all: the
/// current position plus the signed step, kept inside the playfield.
pub open spec fn next_position(x: int, left: bool, right: bool, step: int) -> Option<int> {
    let shift = axis(left, right) * step;
    if shift != 0 {
        Some(clamped(x + shift, PADDLE_MIN_X as int, PADDLE_MAX_X as int))
    } else {
        None
    }
}

/// Where the paddle stands after `frames` frames with only the right key held,
/// starting from `x`.
pub open spec fn after_right_held(x: int, frames: nat) -> int
    decreases frames,
{
    if frames == 0 {
        x
    } else {
        let before = after_right_held(x, (frames - 1) as nat);
        match next_position(before, false, true, PADDLE_STEP as int) {
            Some(next) => next,
            None => before,
        }
    }
}

impl Paddle {
    /// The length of this paddle's step.
    pub closed spec fn step(self) -> int {
        self.0 as int
    }

    /// The paddle as the game places it.
    pub fn new() -> (paddle: Paddle)
        ensures
            paddle.step() == PADDLE_STEP,
    {
        Paddle(PADDLE_STEP)
    }

    /// The length of this paddle's step.
    pub fn step_size(&self) -> (step: i8)
        ensures
            step == self.step(),
    {
        self.0
    }
}

/// Brings `value` into the interval from `min` to `max`.
pub fn clamp(value: i64, min: i64, max: i64) -> (r: i64)
    ensures
        r == clamped(value as int, min as int, max as int),
{
    if value > min {
        if value < max {
            value
        } else {
            max
        }
    } else {
        min
    }
}

/// One frame of the paddle controller. Given which keys are held and where the
/// paddle stands, says where it goes next, as a horizontal and a vertical
/// position, or `None` when the keys do not move it. Horizontally it goes one
/// signed step on, kept inside the playfield; vertically it stays at `PADDLE_Y`.
pub fn move_paddle(left: bool, right: bool, paddle: &Paddle, x: i64) -> (next: Option<(i64, i64)>)
    ensures
        next matches Some(target) ==> next_position(x as int, left, right, paddle.step()) == Some(
            target.0 as int,
        ) && target.1 == PADDLE_Y,
        next is None ==> next_position(x as int, left, right, paddle.step()) is None,
        next matches Some(target) ==> PADDLE_MIN_X <= target.0 <= PADDLE_MAX_X,
{
    let step: i64 = paddle.0 as i64;
    let shift: i64 = if right && !left {
        step
    } else if left && !right {
        -step
    } else {
        0
    };
    assert(shift == axis(left, right) * paddle.step()) by (nonlinear_arith)
        requires
            (axis(left, right) == 1 && shift == paddle.step()) || (axis(left, right) == -1 && shift
                == -paddle.step()) || (axis(left, right) == 0 && shift == 0),
    ;
    if shift == 0 {
        return None;
    }
    let target = match x.checked_add(shift) {
        Some(sum) => clamp(sum, PADDLE_MIN_X, PADDLE_MAX_X),
        None => if shift > 0 {
            PADDLE_MAX_X
        } else {
            PADDLE_MIN_X
        },
    };
    Some((target, PADDLE_Y))
}

/// Once the right key has been held for at least one frame, the paddle stands
/// between the two bounds, wherever it started: each frame takes it one step to
/// the right of where the first frame left it, and it stops exactly at the
/// right bound.
pub proof fn lemma_right_held_stays_in_field(x: int, frames: nat)
    requires
        frames >= 1,
    ensures
        PADDLE_MIN_X <= after_right_held(x, frames) <= PADDLE_MAX_X,
        after_right_held(x, frames) == clamped(
            clamped(x + PADDLE_STEP, PADDLE_MIN_X as int, PADDLE_MAX_X as int) + PADDLE_STEP * (
            frames - 1),
            PADDLE_MIN_X as int,
            PADDLE_MAX_X as int,
        ),
    decreases frames,
{
    if frames == 1 {
        assert(after_right_held(x, 0) == x);
    } else {
        lemma_right_held_stays_in_field(x, (frames - 1) as nat);
    }
}

/// A paddle that stands at the right bound stays there while the right key is held.
pub proof fn lemma_right_bound_holds(frames: nat)
    ensures
        after_right_held(PADDLE_MAX_X as int, frames) == PADDLE_MAX_X,
    decreases frames,
{
    if frames > 0 {
        lemma_right_bound_holds((frames - 1) as nat);
    }
}

} // verus!
