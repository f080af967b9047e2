//! A brick and the notification that a hit on it produces.

use vstd::prelude::*;

verus! {

/// Hit-points of a brick that has just been placed.
pub const INITIAL_HIT_POINTS: i8 = 3;

/// A brick, with the hit-points it has left.
#[derive(Clone, Copy, Debug, PartialEq, Eq, Structural)]
pub struct Brick(pub i8);

/// Tells the listeners that the ball hit a brick, and whether the brick went.
#[derive(Clone, Copy, Debug, PartialEq, Eq, Structural)]
pub struct BallHitEvent {
    pub destroyed_entity: bool,
}

impl Brick {
    /// Whether the next recognized contact removes the brick.
    pub open spec fn breaks_on_hit(self) -> bool {
        self.0 <= 1
    }

    /// The brick after one recognized contact: one hit-point less, never below zero
    /// for a brick that stood.
    pub open spec fn after_hit(self) -> Brick {
        if self.0 >= 1 {
            Brick((self.0 - 1) as i8)
        } else {
            self
        }
    }

    /// A brick as it is placed, with all its hit-points.
    pub fn new() -> (b: Brick)
        ensures
            b.0 == INITIAL_HIT_POINTS,
    {
        Brick(INITIAL_HIT_POINTS)
    }

    /// Takes one recognized contact: the counter goes down by one, and the
    /// notification says whether that was the brick's last hit-point.
    pub fn hit(&mut self) -> (event: BallHitEvent)
        ensures
            *final(self) == old(self).after_hit(),
            event.destroyed_entity == old(self).breaks_on_hit(),
    {
        let destroyed = self.0 <= 1;
        if self.0 >= 1 {
            self.0 = self.0 - 1;
        }
        BallHitEvent { destroyed_entity: destroyed }
    }
}

} // verus!
