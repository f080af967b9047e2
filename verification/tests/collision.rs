use blocksmash::brick::{BallHitEvent, Brick, INITIAL_HIT_POINTS};
use blocksmash::collision::{
    handle_collision_event, resolve_contact, ColliderHandle, ContactEvent, EntityId, TrackedBrick,
};
use blocksmash::score::{update_score, Score};

fn collider(index: u64) -> ColliderHandle {
    ColliderHandle { index, generation: 0 }
}

fn entity(id: u32) -> EntityId {
    EntityId { id, generation: 0 }
}

fn fresh(id: u32, index: u64) -> TrackedBrick {
    TrackedBrick { entity: entity(id), collider: collider(index), brick: Brick::new() }
}

const BALL: u64 = 99;

#[test]
fn new_brick_has_three_hit_points() {
    assert_eq!(INITIAL_HIT_POINTS, 3);
    assert_eq!(Brick::new(), Brick(3));
}

#[test]
fn brick_counts_down_and_breaks_on_third_hit() {
    let mut brick = Brick::new();
    assert_eq!(brick.hit(), BallHitEvent { destroyed_entity: false });
    assert_eq!(brick, Brick(2));
    assert_eq!(brick.hit(), BallHitEvent { destroyed_entity: false });
    assert_eq!(brick, Brick(1));
    assert_eq!(brick.hit(), BallHitEvent { destroyed_entity: true });
    assert_eq!(brick, Brick(0));
}

#[test]
fn brick_without_hit_points_breaks_and_is_not_raised() {
    let mut brick = Brick(0);
    assert_eq!(brick.hit(), BallHitEvent { destroyed_entity: true });
    assert_eq!(brick, Brick(0));
    let mut below = Brick(-4);
    assert_eq!(below.hit(), BallHitEvent { destroyed_entity: true });
    assert_eq!(below, Brick(-4));
}

#[test]
fn stopped_contact_on_second_collider_decrements() {
    let mut bricks = vec![fresh(1, 10)];
    let events = vec![ContactEvent::Stopped(collider(BALL), collider(10))];
    let outcome = handle_collision_event(&events, &mut bricks);
    assert_eq!(
        bricks,
        vec![TrackedBrick { entity: entity(1), collider: collider(10), brick: Brick(2) }]
    );
    assert_eq!(outcome.notifications, vec![BallHitEvent { destroyed_entity: false }]);
    assert!(outcome.despawned.is_empty());
}

#[test]
fn brick_as_first_collider_is_never_decremented() {
    let mut bricks = vec![fresh(1, 10)];
    let events = vec![
        ContactEvent::Stopped(collider(10), collider(BALL)),
        ContactEvent::Stopped(collider(10), collider(BALL)),
        ContactEvent::Stopped(collider(10), collider(11)),
    ];
    let outcome = handle_collision_event(&events, &mut bricks);
    assert_eq!(bricks, vec![fresh(1, 10)]);
    assert!(outcome.notifications.is_empty());
    assert!(outcome.despawned.is_empty());
}

#[test]
fn started_contact_is_ignored() {
    let mut bricks = vec![fresh(1, 10)];
    let events = vec![
        ContactEvent::Started(collider(BALL), collider(10)),
        ContactEvent::Started(collider(10), collider(BALL)),
    ];
    let outcome = handle_collision_event(&events, &mut bricks);
    assert_eq!(bricks, vec![fresh(1, 10)]);
    assert!(outcome.notifications.is_empty());
    assert!(outcome.despawned.is_empty());
}

#[test]
fn unmatched_events_are_discarded() {
    let mut bricks = vec![fresh(1, 10), fresh(2, 11)];
    let events = vec![
        ContactEvent::Stopped(collider(BALL), collider(12)),
        ContactEvent::Stopped(collider(BALL), ColliderHandle { index: 10, generation: 1 }),
    ];
    let outcome = handle_collision_event(&events, &mut bricks);
    assert_eq!(bricks, vec![fresh(1, 10), fresh(2, 11)]);
    assert!(outcome.notifications.is_empty());
    assert!(outcome.despawned.is_empty());
}

#[test]
fn empty_frame_changes_nothing() {
    let mut bricks = vec![fresh(1, 10)];
    let outcome = handle_collision_event(&Vec::new(), &mut bricks);
    assert_eq!(bricks, vec![fresh(1, 10)]);
    assert!(outcome.notifications.is_empty());
    assert!(outcome.despawned.is_empty());
}

#[test]
fn third_contact_removes_the_brick() {
    let mut bricks = vec![fresh(1, 10), fresh(2, 11)];
    let hit = ContactEvent::Stopped(collider(BALL), collider(10));
    let outcome = handle_collision_event(&vec![hit, hit, hit], &mut bricks);
    assert_eq!(bricks, vec![fresh(2, 11)]);
    assert_eq!(
        outcome.notifications,
        vec![
            BallHitEvent { destroyed_entity: false },
            BallHitEvent { destroyed_entity: false },
            BallHitEvent { destroyed_entity: true },
        ]
    );
    assert_eq!(outcome.despawned, vec![entity(1)]);
}

#[test]
fn removed_brick_is_not_matched_again() {
    let mut bricks = vec![fresh(1, 10)];
    let hit = ContactEvent::Stopped(collider(BALL), collider(10));
    let outcome = handle_collision_event(&vec![hit, hit, hit, hit, hit], &mut bricks);
    assert!(bricks.is_empty());
    assert_eq!(outcome.notifications.len(), 3);
    assert_eq!(outcome.despawned, vec![entity(1)]);
    let later = handle_collision_event(&vec![hit], &mut bricks);
    assert!(later.notifications.is_empty());
    assert!(later.despawned.is_empty());
}

#[test]
fn contacts_in_one_frame_hit_each_brick_in_queue_order() {
    let mut bricks = vec![
        fresh(1, 10),
        TrackedBrick { entity: entity(2), collider: collider(11), brick: Brick(1) },
        fresh(3, 12),
    ];
    let events = vec![
        ContactEvent::Stopped(collider(BALL), collider(12)),
        ContactEvent::Stopped(collider(BALL), collider(11)),
        ContactEvent::Started(collider(BALL), collider(10)),
        ContactEvent::Stopped(collider(BALL), collider(10)),
        ContactEvent::Stopped(collider(BALL), collider(11)),
    ];
    let outcome = handle_collision_event(&events, &mut bricks);
    assert_eq!(
        bricks,
        vec![
            TrackedBrick { entity: entity(1), collider: collider(10), brick: Brick(2) },
            TrackedBrick { entity: entity(3), collider: collider(12), brick: Brick(2) },
        ]
    );
    assert_eq!(
        outcome.notifications,
        vec![
            BallHitEvent { destroyed_entity: false },
            BallHitEvent { destroyed_entity: true },
            BallHitEvent { destroyed_entity: false },
        ]
    );
    assert_eq!(outcome.despawned, vec![entity(2)]);
}

#[test]
fn bricks_sharing_a_collider_are_all_hit() {
    let mut bricks = vec![
        TrackedBrick { entity: entity(1), collider: collider(10), brick: Brick(1) },
        fresh(2, 10),
    ];
    let outcome =
        resolve_contact(ContactEvent::Stopped(collider(BALL), collider(10)), &mut bricks);
    assert_eq!(
        bricks,
        vec![TrackedBrick { entity: entity(2), collider: collider(10), brick: Brick(2) }]
    );
    assert_eq!(
        outcome.notifications,
        vec![BallHitEvent { destroyed_entity: true }, BallHitEvent { destroyed_entity: false }]
    );
    assert_eq!(outcome.despawned, vec![entity(1)]);
}

#[test]
fn single_contact_started_leaves_field() {
    let mut bricks = vec![fresh(1, 10)];
    let outcome =
        resolve_contact(ContactEvent::Started(collider(BALL), collider(10)), &mut bricks);
    assert_eq!(bricks, vec![fresh(1, 10)]);
    assert!(outcome.notifications.is_empty());
    assert!(outcome.despawned.is_empty());
}

#[test]
fn two_frames_equal_one_frame_with_both_queues() {
    let hit_a = ContactEvent::Stopped(collider(BALL), collider(10));
    let hit_b = ContactEvent::Stopped(collider(BALL), collider(11));
    let first = vec![hit_a, hit_b, hit_a];
    let second = vec![hit_a, hit_b];

    let mut split = vec![fresh(1, 10), fresh(2, 11)];
    let one = handle_collision_event(&first, &mut split);
    let two = handle_collision_event(&second, &mut split);

    let mut joined = vec![fresh(1, 10), fresh(2, 11)];
    let mut all = first.clone();
    all.extend(second.iter().copied());
    let both = handle_collision_event(&all, &mut joined);

    assert_eq!(split, joined);
    let mut notifications = one.notifications.clone();
    notifications.extend(two.notifications.iter().copied());
    assert_eq!(notifications, both.notifications);
    let mut despawned = one.despawned.clone();
    despawned.extend(two.despawned.iter().copied());
    assert_eq!(despawned, both.despawned);
    assert_eq!(joined, vec![TrackedBrick { entity: entity(2), collider: collider(11), brick: Brick(1) }]);
}

#[test]
fn score_rises_once_per_frame_with_simultaneous_hits() {
    let mut bricks = vec![fresh(1, 10), fresh(2, 11), fresh(3, 12)];
    let events = vec![
        ContactEvent::Stopped(collider(BALL), collider(10)),
        ContactEvent::Stopped(collider(BALL), collider(11)),
        ContactEvent::Stopped(collider(BALL), collider(12)),
    ];
    let outcome = handle_collision_event(&events, &mut bricks);
    assert_eq!(outcome.notifications.len(), 3);
    let mut score = Score(0);
    let text = update_score(&outcome.notifications, &mut score);
    assert_eq!(score, Score(1));
    assert_eq!(text, Some(String::from("Score: 1")));
}

#[test]
fn three_frames_take_a_brick_from_three_to_gone() {
    let mut bricks = vec![fresh(1, 10)];
    let mut score = Score(0);
    let frame = vec![ContactEvent::Stopped(collider(BALL), collider(10))];

    let outcome = handle_collision_event(&frame, &mut bricks);
    update_score(&outcome.notifications, &mut score);
    assert_eq!(score, Score(1));
    assert_eq!(bricks, vec![TrackedBrick { entity: entity(1), collider: collider(10), brick: Brick(2) }]);
    assert!(outcome.despawned.is_empty());

    let outcome = handle_collision_event(&frame, &mut bricks);
    update_score(&outcome.notifications, &mut score);
    assert_eq!(score, Score(2));
    assert_eq!(bricks, vec![TrackedBrick { entity: entity(1), collider: collider(10), brick: Brick(1) }]);
    assert!(outcome.despawned.is_empty());

    let outcome = handle_collision_event(&frame, &mut bricks);
    let text = update_score(&outcome.notifications, &mut score);
    assert_eq!(score, Score(3));
    assert_eq!(text, Some(String::from("Score: 3")));
    assert!(bricks.is_empty());
    assert_eq!(outcome.despawned, vec![entity(1)]);
    assert_eq!(outcome.notifications, vec![BallHitEvent { destroyed_entity: true }]);
}
