//! The score presenter: the counter on screen and the text that shows it.

use vstd::prelude::*;
use crate::brick::BallHitEvent;

verus! {

/// The distance of the overlay from the window's upper edge.
pub const OVERLAY_TOP_MARGIN: i64 = 20;

/// The distance of the overlay from the window's left edge.
pub const OVERLAY_LEFT: i32 = 35;

/// The size of the overlay's font.
pub const OVERLAY_FONT_SIZE: u32 = 20;

/// The score: how many frames brought at least one hit.
#[derive(Clone, Copy, Debug, PartialEq, Eq, Structural)]
pub struct Score(pub usize);

/// The text overlay as it is first drawn.
#[derive(Debug)]
pub struct ScoreOverlay {
    /// Offset from the window's bottom edge.
    pub bottom: i64,
    /// Offset from the window's left edge.
    pub left: i32,
    pub font: &'static str,
    pub font_size: u32,
    pub text: String,
    pub score: Score,
}

/// The character that writes a digit.
pub open spec fn digit_char(d: nat) -> char
    recommends
        d < 10,
{
    if d == 0 {
        '0'
    } else if d == 1 {
        '1'
    } else if d == 2 {
        '2'
    } else if d == 3 {
        '3'
    } else if d == 4 {
        '4'
    } else if d == 5 {
        '5'
    } else if d == 6 {
        '6'
    } else if d == 7 {
        '7'
    } else if d == 8 {
        '8'
    } else {
        '9'
    }
}

/// A number written in decimal, without leading zeros.
pub open spec fn decimal(n: nat) -> Seq<char>
    decreases n,
{
    if n < 10 {
        seq![digit_char(n)]
    } else {
        decimal(n / 10).push(digit_char(n % 10))
    }
}

/// The overlay's text for a score.
pub open spec fn score_text(value: nat) -> Seq<char> {
    "Score: "@ + decimal(value)
}

/// The score after a frame that brought `notifications` notifications: one
/// more if there was any, however many there were.
pub open spec fn score_after(score: nat, notifications: nat) -> nat {
    if notifications >= 1 {
        score + 1
    } else {
        score
    }
}

/// Writes the overlay's text with `format!`, which prints the number in
/// decimal behind the fixed label.
#[verifier::external_body]
fn render_score(value: usize) -> (text: String)
    ensures
        text@ == score_text(value as nat),
{
    format!("Score: {:?}", value)
}

/// The overlay at startup: score zero, written out, anchored `OVERLAY_TOP_MARGIN`
/// below the top of a window of the given height.
pub fn setup_text(window_height: i32) -> (overlay: ScoreOverlay)
    ensures
        overlay.bottom == window_height - OVERLAY_TOP_MARGIN,
        overlay.left == OVERLAY_LEFT,
        overlay.font@ == "font/blocks.ttf"@,
        overlay.font_size == OVERLAY_FONT_SIZE,
        overlay.text@ == score_text(0),
        overlay.score == Score(0),
{
    ScoreOverlay {
        bottom: window_height as i64 - OVERLAY_TOP_MARGIN,
        left: OVERLAY_LEFT,
        font: "font/blocks.ttf",
        font_size: OVERLAY_FONT_SIZE,
        text: render_score(0),
        score: Score(0),
    }
}

/// One frame of the score presenter. If the frame brought any notification the
/// score goes up by one, whatever the notifications say and however many they
/// are, and the new text comes back; if it brought none, nothing changes.
pub fn update_score(events: &Vec<BallHitEvent>, score: &mut Score) -> (text: Option<String>)
    requires
        events.len() >= 1 ==> old(score).0 < usize::MAX,
    ensures
        final(score).0 == score_after(old(score).0 as nat, events.len() as nat),
        events.len() == 0 ==> text is None,
        events.len() >= 1 ==> text is Some && text->0@ == score_text(final(score).0 as nat),
{
    if events.len() >= 1 {
        score.0 = score.0 + 1;
        Some(render_score(score.0))
    } else {
        None
    }
}

/// The overlay starts out reading "Score: 0".
pub proof fn lemma_initial_text()
    ensures
        score_text(0) == "Score: 0"@,
{
    reveal_strlit("Score: ");
    reveal_strlit("Score: 0");
    assert(score_text(0) =~= "Score: 0"@);
}

} // verus!
