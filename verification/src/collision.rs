//! The collision resolver: what a frame's contact events do to the bricks.
//!
//! A contact counts for a brick only when the pair has stopped touching and the
//! brick's collider is the second of the pair. Each such contact costs the brick
//! one hit-point and sends one notification; the contact that takes the last
//! hit-point removes the brick from the field.

use vstd::prelude::*;
use crate::brick::{BallHitEvent, Brick};
use crate::collision_laws::lemma_hit_points_only_fall;

verus! {

/// Names a collider of the physics world: a slot and the generation that filled it.
#[derive(Clone, Copy, Debug, PartialEq, Eq, Structural)]
pub struct ColliderHandle {
    pub index: u64,
    pub generation: u64,
}

/// Names an entity of the scene: a slot and the generation that filled it.
#[derive(Clone, Copy, Debug, PartialEq, Eq, Structural)]
pub struct EntityId {
    pub id: u32,
    pub generation: u32,
}

/// Two colliders began to touch, or ceased to.
#[derive(Clone, Copy, Debug, PartialEq, Eq, Structural)]
pub enum ContactEvent {
    Started(ColliderHandle, ColliderHandle),
    Stopped(ColliderHandle, ColliderHandle),
}

/// A brick on the field, with the entity that shows it and the collider that
/// the physics world knows it by.
#[derive(Clone, Copy, Debug, PartialEq, Eq, Structural)]
pub struct TrackedBrick {
    pub entity: EntityId,
    pub collider: ColliderHandle,
    pub brick: Brick,
}

/// What the resolver hands on: the notifications to send, in the order of the
/// contacts, and the entities to take out of the scene.
#[derive(Clone, Debug, PartialEq, Eq)]
pub struct CollisionOutcome {
    pub notifications: Vec<BallHitEvent>,
    pub despawned: Vec<EntityId>,
}

/// The field and the resolver's output, as mathematical sequences.
pub ghost struct Resolution {
    pub bricks: Seq<TrackedBrick>,
    pub notifications: Seq<BallHitEvent>,
    pub despawned: Seq<EntityId>,
}

impl ContactEvent {
    /// The collider that the event is looked up by: the second of a pair that
    /// stopped touching. A pair that started touching is looked up by none.
    pub open spec fn struck(self) -> Option<ColliderHandle> {
        match self {
            ContactEvent::Stopped(_, second) => Some(second),
            ContactEvent::Started(_, _) => None,
        }
    }
}

impl TrackedBrick {
    /// Whether the event is a contact recognized for this brick.
    pub open spec fn recognizes(self, event: ContactEvent) -> bool {
        event.struck() == Some(self.collider)
    }

    /// The same brick after one recognized contact.
    pub open spec fn after_hit(self) -> TrackedBrick {
        TrackedBrick { entity: self.entity, collider: self.collider, brick: self.brick.after_hit() }
    }
}

/// Every brick of the field has a hit-point left.
pub open spec fn all_standing(bricks: Seq<TrackedBrick>) -> bool {
    forall|i: int| 0 <= i < bricks.len() ==> (#[trigger] bricks[i]).brick.0 >= 1
}

impl Resolution {
    /// A field that nothing has touched yet.
    pub open spec fn quiet(bricks: Seq<TrackedBrick>) -> Resolution {
        Resolution { bricks, notifications: Seq::empty(), despawned: Seq::empty() }
    }

    /// Adds what a contact on `target` does to one more brick: a brick with
    /// another collider stays as it is; a brick with this collider sends a
    /// notification and either loses a hit-point or, on its last one, leaves.
    pub open spec fn meet(self, brick: TrackedBrick, target: ColliderHandle) -> Resolution {
        if brick.collider != target {
            Resolution {
                bricks: self.bricks.push(brick),
                notifications: self.notifications,
                despawned: self.despawned,
            }
        } else if brick.brick.breaks_on_hit() {
            Resolution {
                bricks: self.bricks,
                notifications: self.notifications.push(BallHitEvent { destroyed_entity: true }),
                despawned: self.despawned.push(brick.entity),
            }
        } else {
            Resolution {
                bricks: self.bricks.push(brick.after_hit()),
                notifications: self.notifications.push(BallHitEvent { destroyed_entity: false }),
                despawned: self.despawned,
            }
        }
    }
}

/// The field after a contact on `target`: every brick meets it in turn, in the
/// field's order.
pub open spec fn strike(bricks: Seq<TrackedBrick>, target: ColliderHandle) -> Resolution
    decreases bricks.len(),
{
    if bricks.len() == 0 {
        Resolution::quiet(Seq::empty())
    } else {
        strike(bricks.drop_last(), target).meet(bricks.last(), target)
    }
}

/// What one event does to the field: a strike on its second collider if the
/// pair stopped touching, nothing otherwise.
pub open spec fn on_event(bricks: Seq<TrackedBrick>, event: ContactEvent) -> Resolution {
    match event.struck() {
        Some(target) => strike(bricks, target),
        None => Resolution::quiet(bricks),
    }
}

/// What a frame's events do to the field, taken in the order they were queued:
/// each event meets the field that the events before it left.
pub open spec fn resolve(bricks: Seq<TrackedBrick>, events: Seq<ContactEvent>) -> Resolution
    decreases events.len(),
{
    if events.len() == 0 {
        Resolution::quiet(bricks)
    } else {
        let before = resolve(bricks, events.drop_last());
        let step = on_event(before.bricks, events.last());
        Resolution {
            bricks: step.bricks,
            notifications: before.notifications + step.notifications,
            despawned: before.despawned + step.despawned,
        }
    }
}

/// Applies one contact event to the field.
pub fn resolve_contact(event: ContactEvent, bricks: &mut Vec<TrackedBrick>) -> (outcome:
    CollisionOutcome)
    ensures
        final(bricks)@ == on_event(old(bricks)@, event).bricks,
        outcome.notifications@ == on_event(old(bricks)@, event).notifications,
        outcome.despawned@ == on_event(old(bricks)@, event).despawned,
{
    let mut notifications: Vec<BallHitEvent> = Vec::new();
    let mut despawned: Vec<EntityId> = Vec::new();
    match event {
        ContactEvent::Started(_, _) => {},
        ContactEvent::Stopped(_, target) => {
            let mut kept: Vec<TrackedBrick> = Vec::new();
            let mut i: usize = 0;
            while i < bricks.len()
                invariant
                    i <= bricks.len(),
                    *bricks == *old(bricks),
                    kept@ == strike(bricks@.take(i as int), target).bricks,
                    notifications@ == strike(bricks@.take(i as int), target).notifications,
                    despawned@ == strike(bricks@.take(i as int), target).despawned,
                decreases bricks.len() - i,
            {
                let mut current = bricks[i];
                proof {
                    assert(bricks@.take(i + 1).drop_last() == bricks@.take(i as int));
                    assert(bricks@.take(i + 1).last() == current);
                }
                if current.collider == target {
                    let event = current.brick.hit();
                    if event.destroyed_entity {
                        despawned.push(current.entity);
                    } else {
                        kept.push(current);
                    }
                    notifications.push(event);
                } else {
                    kept.push(current);
                }
                i += 1;
            }
            assert(bricks@.take(i as int) == bricks@);
            *bricks = kept;
        },
    }
    CollisionOutcome { notifications, despawned }
}

/// Drains a frame's contact events, in the order they were queued, into the
/// field: the bricks that stand afterwards stay in `bricks`, and the outcome
/// lists the notifications to send and the entities to remove. A field whose
/// bricks all had a hit-point left is such a field afterwards.
pub fn handle_collision_event(events: &Vec<ContactEvent>, bricks: &mut Vec<TrackedBrick>) -> (outcome:
    CollisionOutcome)
    ensures
        final(bricks)@ == resolve(old(bricks)@, events@).bricks,
        outcome.notifications@ == resolve(old(bricks)@, events@).notifications,
        outcome.despawned@ == resolve(old(bricks)@, events@).despawned,
        all_standing(old(bricks)@) ==> all_standing(final(bricks)@),
{
    let mut notifications: Vec<BallHitEvent> = Vec::new();
    let mut despawned: Vec<EntityId> = Vec::new();
    let mut i: usize = 0;
    while i < events.len()
        invariant
            i <= events.len(),
            bricks@ == resolve(old(bricks)@, events@.take(i as int)).bricks,
            notifications@ == resolve(old(bricks)@, events@.take(i as int)).notifications,
            despawned@ == resolve(old(bricks)@, events@.take(i as int)).despawned,
        decreases events.len() - i,
    {
        proof {
            assert(events@.take(i + 1).drop_last() == events@.take(i as int));
            assert(events@.take(i + 1).last() == events@[i as int]);
        }
        let mut step = resolve_contact(events[i], bricks);
        notifications.append(&mut step.notifications);
        despawned.append(&mut step.despawned);
        i += 1;
    }
    proof {
        assert(events@.take(i as int) == events@);
        if all_standing(old(bricks)@) {
            lemma_hit_points_only_fall(old(bricks)@, events@);
        }
    }
    CollisionOutcome { notifications, despawned }
}

} // verus!
