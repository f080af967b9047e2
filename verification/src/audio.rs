//! Which sound answers a hit.

use vstd::prelude::*;
use crate::brick::BallHitEvent;

verus! {

/// The clip for a notification: one sound for a brick that went, another for a
/// brick that stands.
pub open spec fn clip_for(event: BallHitEvent) -> Seq<char> {
    if event.destroyed_entity {
        "audio/destroy.mp3"@
    } else {
        "audio/hit.mp3"@
    }
}

/// The asset path of the clip to play for one notification.
pub fn hit_clip(event: &BallHitEvent) -> (clip: &'static str)
    ensures
        clip@ == clip_for(*event),
{
    if event.destroyed_entity {
        "audio/destroy.mp3"
    } else {
        "audio/hit.mp3"
    }
}

/// The clips to play for a frame's notifications, one for each, in their order.
pub fn play_hit_audio(events: &Vec<BallHitEvent>) -> (clips: Vec<&'static str>)
    ensures
        clips.len() == events.len(),
        forall|i: int| 0 <= i < events.len() ==> (#[trigger] clips[i])@ == clip_for(events[i]),
{
    let mut clips: Vec<&'static str> = Vec::new();
    let mut i: usize = 0;
    while i < events.len()
        invariant
            i <= events.len(),
            clips.len() == i,
            forall|j: int| 0 <= j < i ==> (#[trigger] clips[j])@ == clip_for(events[j]),
        decreases events.len() - i,
    {
        clips.push(hit_clip(&events[i]));
        i += 1;
    }
    clips
}

} // verus!
