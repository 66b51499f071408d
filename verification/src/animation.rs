//! Sprite sheet animations: frame ranges, frame advance and looping.
use crate::timer::{fresh_timer, ticked, FrameTimer};
use vstd::prelude::*;

verus! {

/// A basic sprite sheet animation: the frames `start..end` of a texture atlas, each shown for a
/// period of the frame timer, looping or not.
#[derive(Copy, Clone, Debug, PartialEq, Eq, Structural)]
pub struct SpriteSheetAnimation {
    /// First frame of the animation.
    pub start: usize,
    /// One past the last frame of the animation.
    pub end: usize,
    /// The timer that paces the frames.
    pub frame_timer: FrameTimer,
    /// Whether the animation loops. Looping animations never finish.
    pub repeat: bool,
}

impl Default for SpriteSheetAnimation {
    fn default() -> (a: SpriteSheetAnimation)
        ensures
            a == (SpriteSheetAnimation {
                start: 0,
                end: 0,
                frame_timer: fresh_timer(0, false),
                repeat: false,
            }),
    {
        SpriteSheetAnimation { start: 0, end: 0, frame_timer: FrameTimer::new(0, false), repeat: false }
    }
}

/// Fired at certain points of an animation.
#[derive(Copy, Clone, Debug, PartialEq, Eq, Hash, Structural)]
pub enum AnimationEvent {
    /// The animation of this entity finished.
    Finished(u64),
}

/// The frame after `index` when a frame period elapsed, and whether the animation finished.
pub open spec fn next_frame(index: usize, animation: SpriteSheetAnimation) -> (usize, bool) {
    if index + 1 >= animation.end {
        if animation.repeat {
            (animation.start, false)
        } else {
            ((animation.end - 1) as usize, true)
        }
    } else {
        ((index + 1) as usize, false)
    }
}

/// The arithmetic of stepping a shown frame stays within range: the next index fits, and an
/// animation that does not loop has a last frame to stay on.
pub open spec fn frame_step_fits(index: Option<usize>, animation: SpriteSheetAnimation) -> bool {
    index matches Some(i) ==> i < usize::MAX && (animation.end > 0 || animation.repeat)
}

/// Advances the frame timer of `entity`'s animation by `delta` nanoseconds and, when a frame
/// period ended, its sprite (if it shows a texture atlas): to the next frame, back to the first
/// after the last when looping, or staying on the last frame and reporting that the animation
/// finished.
pub fn sprite_sheet_animation(
    entity: u64,
    index: &mut Option<usize>,
    animation: &mut SpriteSheetAnimation,
    delta: u64,
) -> (event: Option<AnimationEvent>)
    requires
        ticked(old(animation).frame_timer, delta).times_finished_this_tick > 0 ==> frame_step_fits(
            *old(index),
            *old(animation),
        ),
    ensures
        *final(animation) == (SpriteSheetAnimation {
            frame_timer: ticked(old(animation).frame_timer, delta),
            ..*old(animation)
        }),
        (match *old(index) {
            Some(i) => if final(animation).frame_timer.times_finished_this_tick > 0 {
                let n = next_frame(i, *old(animation));
                *final(index) == Some(n.0) && event == (if n.1 {
                    Some(AnimationEvent::Finished(entity))
                } else {
                    None
                })
            } else {
                *final(index) == Some(i) && event is None
            },
            None => *final(index) is None && event is None,
        }),
{
    animation.frame_timer.tick(delta);
    let i = match *index {
        Some(i) => i,
        None => return None,
    };
    if animation.frame_timer.just_finished() {
        let next = i + 1;
        if next >= animation.end {
            if animation.repeat {
                *index = Some(animation.start);
                None
            } else {
                *index = Some(animation.end - 1);
                Some(AnimationEvent::Finished(entity))
            }
        } else {
            *index = Some(next);
            None
        }
    } else {
        None
    }
}

/// The sprite index when an animation starts: kept if it lies within `start..=end`, otherwise
/// the animation's first frame.
pub fn set_initial_sprite_index(index: usize, animation: &SpriteSheetAnimation) -> (r: usize)
    ensures
        r == (if index < animation.start || index > animation.end {
            animation.start
        } else {
            index
        }),
{
    if index < animation.start || index > animation.end {
        animation.start
    } else {
        index
    }
}

/// An animation whose frames are valid stays within its frames while it plays.
pub proof fn lemma_frames_stay_in_range(index: usize, animation: SpriteSheetAnimation)
    requires
        animation.start < animation.end,
        animation.start <= index < animation.end,
    ensures
        animation.start <= next_frame(index, animation).0 < animation.end,
        animation.repeat ==> !next_frame(index, animation).1,
{
}

/// Frames play one after another: before the last frame the animation moves to the very next
/// frame; from the last frame a looping animation starts over from its first frame, and one that
/// does not loop stays on its last frame and reports that it finished, which is the only time it
/// does.
pub proof fn lemma_frames_play_in_order(index: usize, animation: SpriteSheetAnimation)
    requires
        animation.start < animation.end,
        animation.start <= index < animation.end,
    ensures
        index + 1 < animation.end ==> next_frame(index, animation) == ((index + 1) as usize, false),
        index + 1 == animation.end && animation.repeat ==> next_frame(index, animation) == (
            animation.start,
            false,
        ),
        index + 1 == animation.end && !animation.repeat ==> next_frame(index, animation) == (
            index,
            true,
        ),
        next_frame(index, animation).1 <==> (index + 1 == animation.end && !animation.repeat),
{
}

} // verus!
