//! What holds of every frame of the collision resolver.
//!
//! The bricks do not bear on one another: what becomes of a brick depends only
//! on its own hit-points and on how many of the frame's events are recognized
//! contacts on its collider.

use vstd::prelude::*;
use crate::brick::{Brick, INITIAL_HIT_POINTS};
use crate::collision::{
    all_standing,
    on_event,
    resolve,
    strike,
    ColliderHandle,
    ContactEvent,
    EntityId,
    Resolution,
    TrackedBrick,
};
use crate::score::score_after;

verus! {

/// How many of the events are recognized contacts on `collider`: pairs that
/// stopped touching with `collider` as their second element.
pub open spec fn contacts(events: Seq<ContactEvent>, collider: ColliderHandle) -> nat
    decreases events.len(),
{
    if events.len() == 0 {
        0
    } else {
        contacts(events.drop_last(), collider) + if events.last().struck() == Some(collider) {
            1nat
        } else {
            0nat
        }
    }
}

/// No two bricks of the field share a collider.
pub open spec fn distinct_colliders(bricks: Seq<TrackedBrick>) -> bool {
    forall|i: int, j: int|
        0 <= i < j < bricks.len() ==> (#[trigger] bricks[i]).collider != (#[trigger] bricks[j]).collider
}

impl TrackedBrick {
    /// The brick after `hits` recognized contacts: that many hit-points less,
    /// or gone once they reach the hit-points it had.
    pub open spec fn worn(self, hits: nat) -> Option<TrackedBrick> {
        if hits < self.brick.0 {
            Some(
                TrackedBrick {
                    entity: self.entity,
                    collider: self.collider,
                    brick: Brick((self.brick.0 - hits) as i8),
                },
            )
        } else {
            None
        }
    }

    /// What the frame's events leave of this brick.
    pub open spec fn fate(self, events: Seq<ContactEvent>) -> Option<TrackedBrick> {
        self.worn(contacts(events, self.collider))
    }

    /// How many of the frame's events hit this brick: its contacts, as long as
    /// it stood to take them.
    pub open spec fn hits_taken(self, events: Seq<ContactEvent>) -> nat {
        let count = contacts(events, self.collider);
        if count < self.brick.0 {
            count
        } else {
            self.brick.0 as nat
        }
    }
}

/// The bricks that a frame leaves standing, each with what is left of it, in
/// the field's order.
pub open spec fn survivors(bricks: Seq<TrackedBrick>, events: Seq<ContactEvent>) -> Seq<TrackedBrick>
    decreases bricks.len(),
{
    if bricks.len() == 0 {
        Seq::empty()
    } else {
        let rest = survivors(bricks.drop_last(), events);
        match bricks.last().fate(events) {
            Some(left) => rest.push(left),
            None => rest,
        }
    }
}

/// The number of recognized brick contacts in a frame: the hits that the
/// bricks took, all bricks together.
pub open spec fn recognized(bricks: Seq<TrackedBrick>, events: Seq<ContactEvent>) -> nat
    decreases bricks.len(),
{
    if bricks.len() == 0 {
        0
    } else {
        recognized(bricks.drop_last(), events) + bricks.last().hits_taken(events)
    }
}

/// Whether a brick of the field that shows as `entity` falls in the frame.
pub open spec fn falls(bricks: Seq<TrackedBrick>, events: Seq<ContactEvent>, entity: EntityId) -> bool {
    exists|i: int|
        0 <= i < bricks.len() && (#[trigger] bricks[i]).entity == entity && bricks[i].fate(events)
            is None
}

proof fn lemma_strike_push(bricks: Seq<TrackedBrick>, brick: TrackedBrick, target: ColliderHandle)
    ensures
        strike(bricks.push(brick), target) == strike(bricks, target).meet(brick, target),
{
    assert(bricks.push(brick).drop_last() =~= bricks);
}

proof fn lemma_contacts_push(events: Seq<ContactEvent>, event: ContactEvent, collider: ColliderHandle)
    ensures
        contacts(events.push(event), collider) == contacts(events, collider) + if event.struck()
            == Some(collider) {
            1nat
        } else {
            0nat
        },
{
    assert(events.push(event).drop_last() =~= events);
}

proof fn lemma_all_standing_prefix(bricks: Seq<TrackedBrick>)
    requires
        all_standing(bricks),
        bricks.len() > 0,
    ensures
        all_standing(bricks.drop_last()),
{
    assert forall|i: int| 0 <= i < bricks.drop_last().len() implies (#[trigger] bricks.drop_last()[i]).brick.0
        >= 1 by {
        assert(bricks.drop_last()[i] == bricks[i]);
    }
}

proof fn lemma_no_events(bricks: Seq<TrackedBrick>)
    requires
        all_standing(bricks),
    ensures
        survivors(bricks, Seq::empty()) == bricks,
        recognized(bricks, Seq::empty()) == 0,
    decreases bricks.len(),
{
    if bricks.len() > 0 {
        lemma_all_standing_prefix(bricks);
        lemma_no_events(bricks.drop_last());
        let last = bricks.last();
        assert(last == bricks[bricks.len() - 1]);
        assert(contacts(Seq::empty(), last.collider) == 0);
        assert(last.fate(Seq::empty()) == Some(last));
        assert(bricks.drop_last().push(last) =~= bricks);
    } else {
        assert(bricks =~= Seq::empty());
    }
}

proof fn lemma_unrecognized_event(
    bricks: Seq<TrackedBrick>,
    events: Seq<ContactEvent>,
    event: ContactEvent,
)
    requires
        event.struck() is None,
    ensures
        survivors(bricks, events.push(event)) == survivors(bricks, events),
        recognized(bricks, events.push(event)) == recognized(bricks, events),
    decreases bricks.len(),
{
    if bricks.len() > 0 {
        lemma_unrecognized_event(bricks.drop_last(), events, event);
        lemma_contacts_push(events, event, bricks.last().collider);
    }
}

proof fn lemma_strike_survivors(
    bricks: Seq<TrackedBrick>,
    events: Seq<ContactEvent>,
    first: ColliderHandle,
    target: ColliderHandle,
)
    requires
        all_standing(bricks),
    ensures
        ({
            let longer = events.push(ContactEvent::Stopped(first, target));
            let step = strike(survivors(bricks, events), target);
            &&& step.bricks == survivors(bricks, longer)
            &&& step.notifications.len() == recognized(bricks, longer) - recognized(bricks, events)
            &&& step.bricks.len() + step.despawned.len() == survivors(bricks, events).len()
        }),
    decreases bricks.len(),
{
    if bricks.len() > 0 {
        let event = ContactEvent::Stopped(first, target);
        let previous = bricks.drop_last();
        let last = bricks.last();
        assert(last == bricks[bricks.len() - 1]);
        lemma_all_standing_prefix(bricks);
        lemma_strike_survivors(previous, events, first, target);
        lemma_contacts_push(events, event, last.collider);
        match last.fate(events) {
            Some(left) => {
                lemma_strike_push(survivors(previous, events), left, target);
            },
            None => {},
        }
    }
}

/// A frame wears each brick by its own contacts and by nothing else. The
/// bricks that stand after the frame are those with fewer recognized contacts
/// than hit-points, each with that many hit-points less; the notifications are
/// as many as the recognized brick contacts; and every brick either still
/// stands or is listed for removal.
pub proof fn lemma_resolve_wears(bricks: Seq<TrackedBrick>, events: Seq<ContactEvent>)
    requires
        all_standing(bricks),
    ensures
        resolve(bricks, events).bricks == survivors(bricks, events),
        resolve(bricks, events).notifications.len() == recognized(bricks, events),
        resolve(bricks, events).bricks.len() + resolve(bricks, events).despawned.len()
            == bricks.len(),
    decreases events.len(),
{
    if events.len() == 0 {
        lemma_no_events(bricks);
        assert(events =~= Seq::empty());
    } else {
        let earlier = events.drop_last();
        let event = events.last();
        lemma_resolve_wears(bricks, earlier);
        assert(earlier.push(event) =~= events);
        match event {
            ContactEvent::Stopped(first, target) => {
                lemma_strike_survivors(bricks, earlier, first, target);
            },
            ContactEvent::Started(_, _) => {
                lemma_unrecognized_event(bricks, earlier, event);
            },
        }
    }
}

/// What a frame leaves of a brick stands among the survivors.
pub proof fn lemma_survivor_stays(bricks: Seq<TrackedBrick>, events: Seq<ContactEvent>, i: int)
    requires
        0 <= i < bricks.len(),
        bricks[i].fate(events) is Some,
    ensures
        survivors(bricks, events).contains(bricks[i].fate(events)->0),
    decreases bricks.len(),
{
    let rest = survivors(bricks.drop_last(), events);
    let left = bricks[i].fate(events)->0;
    if i == bricks.len() - 1 {
        assert(rest.push(left)[rest.len() as int] == left);
    } else {
        lemma_survivor_stays(bricks.drop_last(), events, i);
        let at = choose|at: int| 0 <= at < rest.len() && rest[at] == left;
        match bricks.last().fate(events) {
            Some(other) => {
                assert(rest.push(other)[at] == left);
            },
            None => {},
        }
    }
}

/// Every survivor is what the frame left of some brick of the field.
pub proof fn lemma_survivor_origin(bricks: Seq<TrackedBrick>, events: Seq<ContactEvent>, at: int) -> (i:
    int)
    requires
        0 <= at < survivors(bricks, events).len(),
    ensures
        0 <= i < bricks.len(),
        bricks[i].fate(events) == Some(survivors(bricks, events)[at]),
    decreases bricks.len(),
{
    let rest = survivors(bricks.drop_last(), events);
    if at < rest.len() {
        let i = lemma_survivor_origin(bricks.drop_last(), events, at);
        assert(bricks.drop_last()[i] == bricks[i]);
        i
    } else {
        bricks.len() - 1
    }
}

/// What becomes of a brick placed with all its hit-points, on a field where no
/// other brick shares its collider: after `k` recognized contacts, `k` below
/// the initial hit-points, it stands with that many hit-points less; once the
/// contacts reach the initial hit-points, and not before, no brick with its
/// collider stands any more and its entity is listed for removal.
pub proof fn lemma_fresh_brick_counts_down(
    bricks: Seq<TrackedBrick>,
    events: Seq<ContactEvent>,
    i: int,
)
    requires
        all_standing(bricks),
        distinct_colliders(bricks),
        0 <= i < bricks.len(),
        bricks[i].brick.0 == INITIAL_HIT_POINTS,
    ensures
        ({
            let k = contacts(events, bricks[i].collider);
            let after = resolve(bricks, events);
            &&& k < INITIAL_HIT_POINTS ==> after.bricks.contains(
                TrackedBrick {
                    entity: bricks[i].entity,
                    collider: bricks[i].collider,
                    brick: Brick((INITIAL_HIT_POINTS - k) as i8),
                },
            )
            &&& k >= INITIAL_HIT_POINTS ==> after.despawned.contains(bricks[i].entity)
            &&& k >= INITIAL_HIT_POINTS <==> (forall|at: int|
                0 <= at < after.bricks.len() ==> (#[trigger] after.bricks[at]).collider
                    != bricks[i].collider)
        }),
{
    let k = contacts(events, bricks[i].collider);
    let after = resolve(bricks, events);
    lemma_resolve_wears(bricks, events);
    lemma_despawned_are_fallen(bricks, events, bricks[i].entity);
    if k < INITIAL_HIT_POINTS {
        lemma_survivor_stays(bricks, events, i);
        let at = choose|at: int| 0 <= at < after.bricks.len() && after.bricks[at] == bricks[i].fate(events)->0;
        assert(after.bricks[at].collider == bricks[i].collider);
    } else {
        assert forall|at: int| 0 <= at < after.bricks.len() implies (#[trigger] after.bricks[at]).collider
            != bricks[i].collider by {
            let origin = lemma_survivor_origin(bricks, events, at);
            if origin < i {
                assert(bricks[origin].collider != bricks[i].collider);
            } else if origin > i {
                assert(bricks[i].collider != bricks[origin].collider);
            }
        }
    }
}

proof fn lemma_strike_despawned(bricks: Seq<TrackedBrick>, target: ColliderHandle, entity: EntityId)
    ensures
        strike(bricks, target).despawned.contains(entity) <==> exists|i: int|
            0 <= i < bricks.len() && (#[trigger] bricks[i]).entity == entity && bricks[i].collider
                == target && bricks[i].brick.breaks_on_hit(),
    decreases bricks.len(),
{
    let gone = strike(bricks, target).despawned;
    if bricks.len() > 0 {
        let previous = bricks.drop_last();
        let last = bricks.last();
        let before = strike(previous, target).despawned;
        lemma_strike_despawned(previous, target, entity);
        let last_goes = last.collider == target && last.brick.breaks_on_hit();
        if gone.contains(entity) {
            let at = choose|at: int| 0 <= at < gone.len() && gone[at] == entity;
            if last_goes && at == before.len() {
                assert(bricks[bricks.len() - 1].entity == entity);
            } else {
                assert(before[at] == entity);
                let i = choose|i: int|
                    0 <= i < previous.len() && (#[trigger] previous[i]).entity == entity
                        && previous[i].collider == target && previous[i].brick.breaks_on_hit();
                assert(bricks[i] == previous[i]);
            }
        }
        if exists|i: int|
            0 <= i < bricks.len() && (#[trigger] bricks[i]).entity == entity && bricks[i].collider
                == target && bricks[i].brick.breaks_on_hit() {
            let i = choose|i: int|
                0 <= i < bricks.len() && (#[trigger] bricks[i]).entity == entity
                    && bricks[i].collider == target && bricks[i].brick.breaks_on_hit();
            if i == bricks.len() - 1 {
                assert(gone[before.len() as int] == entity);
            } else {
                assert(previous[i] == bricks[i]);
                let at = choose|at: int| 0 <= at < before.len() && before[at] == entity;
                assert(gone[at] == entity);
            }
        }
    }
}

proof fn lemma_fate_shrinks(brick: TrackedBrick, events: Seq<ContactEvent>, event: ContactEvent)
    ensures
        brick.fate(events) is None ==> brick.fate(events.push(event)) is None,
{
    lemma_contacts_push(events, event, brick.collider);
}

/// The entities that a frame lists for removal are those of the bricks whose
/// recognized contacts reached their hit-points, and no others.
pub proof fn lemma_despawned_are_fallen(
    bricks: Seq<TrackedBrick>,
    events: Seq<ContactEvent>,
    entity: EntityId,
)
    requires
        all_standing(bricks),
    ensures
        resolve(bricks, events).despawned.contains(entity) <==> falls(bricks, events, entity),
    decreases events.len(),
{
    let gone = resolve(bricks, events).despawned;
    if events.len() == 0 {
        assert forall|i: int| 0 <= i < bricks.len() implies (#[trigger] bricks[i]).fate(events) is Some by {
            assert(bricks[i].brick.0 >= 1);
        }
    } else {
        let earlier = events.drop_last();
        let event = events.last();
        assert(earlier.push(event) =~= events);
        lemma_despawned_are_fallen(bricks, earlier, entity);
        lemma_resolve_wears(bricks, earlier);
        let standing = survivors(bricks, earlier);
        let before = resolve(bricks, earlier).despawned;
        let step = on_event(standing, event).despawned;
        assert(gone == before + step);
        if gone.contains(entity) {
            let at = choose|at: int| 0 <= at < gone.len() && gone[at] == entity;
            if at < before.len() {
                assert(before[at] == entity);
                let i = choose|i: int|
                    0 <= i < bricks.len() && (#[trigger] bricks[i]).entity == entity && bricks[i].fate(
                        earlier,
                    ) is None;
                lemma_fate_shrinks(bricks[i], earlier, event);
            } else {
                assert(step[at - before.len()] == entity);
                let target = event.struck()->0;
                lemma_strike_despawned(standing, target, entity);
                let s = choose|s: int|
                    0 <= s < standing.len() && (#[trigger] standing[s]).entity == entity
                        && standing[s].collider == target && standing[s].brick.breaks_on_hit();
                let i = lemma_survivor_origin(bricks, earlier, s);
                lemma_contacts_push(earlier, event, bricks[i].collider);
                assert(bricks[i].entity == entity && bricks[i].fate(events) is None);
            }
        }
        if falls(bricks, events, entity) {
            let i = choose|i: int|
                0 <= i < bricks.len() && (#[trigger] bricks[i]).entity == entity && bricks[i].fate(
                    events,
                ) is None;
            if bricks[i].fate(earlier) is None {
                let at = choose|at: int| 0 <= at < before.len() && before[at] == entity;
                assert(gone[at] == entity);
            } else {
                lemma_contacts_push(earlier, event, bricks[i].collider);
                let target = event.struck()->0;
                let left = bricks[i].fate(earlier)->0;
                lemma_survivor_stays(bricks, earlier, i);
                let s = choose|s: int| 0 <= s < standing.len() && standing[s] == left;
                lemma_strike_despawned(standing, target, entity);
                assert(standing[s].entity == entity && standing[s].collider == target
                    && standing[s].brick.breaks_on_hit());
                let at = choose|at: int| 0 <= at < step.len() && step[at] == entity;
                assert(gone[before.len() + at] == entity);
            }
        }
    }
}

/// Only the second collider of a pair is looked up. A pair that stopped
/// touching leaves the whole field as it was, and sends nothing, when no brick
/// has the pair's second collider: also when a brick has its first.
pub proof fn lemma_first_collider_ignored(
    bricks: Seq<TrackedBrick>,
    first: ColliderHandle,
    second: ColliderHandle,
)
    requires
        forall|i: int| 0 <= i < bricks.len() ==> (#[trigger] bricks[i]).collider != second,
    ensures
        on_event(bricks, ContactEvent::Stopped(first, second)) == Resolution::quiet(bricks),
    decreases bricks.len(),
{
    if bricks.len() > 0 {
        let previous = bricks.drop_last();
        assert forall|i: int| 0 <= i < previous.len() implies (#[trigger] previous[i]).collider
            != second by {
            assert(previous[i] == bricks[i]);
        }
        lemma_first_collider_ignored(previous, first, second);
        assert(bricks[bricks.len() - 1].collider != second);
        assert(previous.push(bricks.last()) =~= bricks);
    } else {
        assert(bricks =~= Seq::empty());
    }
}

/// A brick whose collider is never the second of a pair that stopped touching
/// keeps all its hit-points through the frame, however often its collider is
/// the first of a pair.
pub proof fn lemma_first_collider_never_counts(
    bricks: Seq<TrackedBrick>,
    events: Seq<ContactEvent>,
    i: int,
)
    requires
        all_standing(bricks),
        0 <= i < bricks.len(),
        forall|j: int|
            0 <= j < events.len() ==> (#[trigger] events[j]).struck() != Some(bricks[i].collider),
    ensures
        contacts(events, bricks[i].collider) == 0,
        resolve(bricks, events).bricks.contains(bricks[i]),
{
    lemma_uncontacted(events, bricks[i].collider);
    lemma_resolve_wears(bricks, events);
    assert(bricks[i].fate(events) == Some(bricks[i]));
    lemma_survivor_stays(bricks, events, i);
}

proof fn lemma_uncontacted(events: Seq<ContactEvent>, collider: ColliderHandle)
    requires
        forall|j: int| 0 <= j < events.len() ==> (#[trigger] events[j]).struck() != Some(collider),
    ensures
        contacts(events, collider) == 0,
    decreases events.len(),
{
    if events.len() > 0 {
        let earlier = events.drop_last();
        assert forall|j: int| 0 <= j < earlier.len() implies (#[trigger] earlier[j]).struck() != Some(
            collider,
        ) by {
            assert(earlier[j] == events[j]);
        }
        lemma_uncontacted(earlier, collider);
        assert(events.last() == events[events.len() - 1]);
    }
}

/// Two frames in a row do what one frame with the events of both would do.
pub proof fn lemma_frames_compose(
    bricks: Seq<TrackedBrick>,
    first: Seq<ContactEvent>,
    second: Seq<ContactEvent>,
)
    ensures
        ({
            let one = resolve(bricks, first);
            let two = resolve(one.bricks, second);
            let both = resolve(bricks, first + second);
            &&& both.bricks == two.bricks
            &&& both.notifications == one.notifications + two.notifications
            &&& both.despawned == one.despawned + two.despawned
        }),
    decreases second.len(),
{
    let one = resolve(bricks, first);
    if second.len() == 0 {
        assert(first + second =~= first);
        assert(one.notifications + Seq::<crate::brick::BallHitEvent>::empty() =~= one.notifications);
        assert(one.despawned + Seq::<EntityId>::empty() =~= one.despawned);
    } else {
        lemma_frames_compose(bricks, first, second.drop_last());
        assert((first + second).drop_last() =~= first + second.drop_last());
        assert((first + second).last() == second.last());
        let earlier = resolve(one.bricks, second.drop_last());
        let step = on_event(earlier.bricks, second.last());
        assert((one.notifications + earlier.notifications) + step.notifications =~= one.notifications
            + (earlier.notifications + step.notifications));
        assert((one.despawned + earlier.despawned) + step.despawned =~= one.despawned + (
        earlier.despawned + step.despawned));
    }
}

/// The score presenter sees as many notifications in a frame as the frame has
/// recognized brick contacts, and the score goes up by one if there is any and
/// stays otherwise: never by more, however many bricks were hit.
pub proof fn lemma_frame_scores_once(
    score: nat,
    bricks: Seq<TrackedBrick>,
    events: Seq<ContactEvent>,
)
    requires
        all_standing(bricks),
    ensures
        resolve(bricks, events).notifications.len() == recognized(bricks, events),
        score_after(score, resolve(bricks, events).notifications.len()) == if recognized(
            bricks,
            events,
        ) >= 1 {
            score + 1
        } else {
            score
        },
        score <= score_after(score, resolve(bricks, events).notifications.len()) <= score + 1,
{
    lemma_resolve_wears(bricks, events);
}

/// A field of standing bricks is a field of standing bricks after the frame,
/// and no brick has more hit-points than it had: every survivor is a brick of
/// the field with as many hit-points less as it had recognized contacts.
pub proof fn lemma_hit_points_only_fall(bricks: Seq<TrackedBrick>, events: Seq<ContactEvent>)
    requires
        all_standing(bricks),
    ensures
        all_standing(resolve(bricks, events).bricks),
        forall|at: int|
            0 <= at < resolve(bricks, events).bricks.len() ==> exists|i: int|
                0 <= i < bricks.len() && (#[trigger] bricks[i]).entity == (#[trigger] resolve(
                    bricks,
                    events,
                ).bricks[at]).entity && bricks[i].collider == resolve(bricks, events).bricks[at].collider
                    && resolve(bricks, events).bricks[at].brick.0 == bricks[i].brick.0 - contacts(
                    events,
                    bricks[i].collider,
                ),
{
    lemma_resolve_wears(bricks, events);
    let after = resolve(bricks, events).bricks;
    assert forall|at: int| 0 <= at < after.len() implies (#[trigger] after[at]).brick.0 >= 1 && exists|
        i: int,
    |
        0 <= i < bricks.len() && (#[trigger] bricks[i]).entity == after[at].entity
            && bricks[i].collider == after[at].collider && after[at].brick.0 == bricks[i].brick.0
            - contacts(events, bricks[i].collider) by {
        let i = lemma_survivor_origin(bricks, events, at);
        assert(bricks[i].entity == after[at].entity);
    }
}

/// A brick that no other brick shares its entity with is not listed for
/// removal as long as its recognized contacts stay below its hit-points.
pub proof fn lemma_standing_brick_not_removed(
    bricks: Seq<TrackedBrick>,
    events: Seq<ContactEvent>,
    i: int,
)
    requires
        all_standing(bricks),
        0 <= i < bricks.len(),
        forall|j: int| 0 <= j < bricks.len() && j != i ==> (#[trigger] bricks[j]).entity != bricks[i].entity,
        contacts(events, bricks[i].collider) < bricks[i].brick.0,
    ensures
        !resolve(bricks, events).despawned.contains(bricks[i].entity),
{
    lemma_despawned_are_fallen(bricks, events, bricks[i].entity);
}

} // verus!
