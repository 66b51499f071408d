//! Wind: grass sways through the frames of its sprite sheet, one step every gust.
use crate::timer::{fresh_timer, ticked, FrameTimer};
use vstd::prelude::*;

verus! {

/// Time between gusts of wind, in nanoseconds: 0.2 s as the engine reads it from a
/// single-precision float.
pub const WIND_PERIOD: u64 = 200_000_003;

/// The repeating timer between gusts.
pub fn wind_timer() -> (t: FrameTimer)
    ensures
        t == fresh_timer(WIND_PERIOD, true),
{
    FrameTimer::new(WIND_PERIOD, true)
}

/// What a gust does to a blade of grass, as chance decides.
#[derive(Copy, Clone, Debug, PartialEq, Eq, Hash, Structural)]
pub enum GrassSway {
    /// Sway one frame further, up to the sheet's last frame.
    Forward,
    /// Sway one frame back, down to the first frame.
    Back,
    /// Stay.
    Still,
}

/// The arithmetic of a sway stays within range: swaying forward needs a frame to sway to and
/// room for the next index, swaying back an index that the engine's `i32` step can hold.
pub open spec fn sway_fits(index: usize, frame_count: usize, sway: GrassSway) -> bool {
    &&& sway == GrassSway::Forward ==> frame_count > 0 && index < usize::MAX
    &&& sway == GrassSway::Back ==> (index as i32) > i32::MIN
}

/// The frame a blade of grass shows after a gust.
pub open spec fn swayed_frame(index: usize, frame_count: usize, sway: GrassSway) -> usize {
    match sway {
        GrassSway::Forward => if index + 1 < frame_count - 1 {
            (index + 1) as usize
        } else {
            (frame_count - 1) as usize
        },
        GrassSway::Back => if (index as i32) - 1 > 0 {
            ((index as i32) - 1) as usize
        } else {
            0
        },
        GrassSway::Still => index,
    }
}

/// Advances the wind timer of a blade of grass by `delta` nanoseconds; at each gust the grass
/// sways as `sway` says, within the `frame_count` frames of its sprite sheet.
pub fn animate_grass(
    timer: &mut FrameTimer,
    index: &mut usize,
    frame_count: usize,
    delta: u64,
    sway: GrassSway,
)
    requires
        ticked(*old(timer), delta).finished ==> sway_fits(*old(index), frame_count, sway),
    ensures
        *final(timer) == ticked(*old(timer), delta),
        *final(index) == (if final(timer).finished {
            swayed_frame(*old(index), frame_count, sway)
        } else {
            *old(index)
        }),
{
    timer.tick(delta);
    if timer.finished() {
        match sway {
            GrassSway::Forward => {
                let next = *index + 1;
                let last = frame_count - 1;
                *index = if next < last {
                    next
                } else {
                    last
                };
            },
            GrassSway::Back => {
                let back: i32 = (*index as i32) - 1;
                *index = if back > 0 {
                    back as usize
                } else {
                    0
                };
            },
            GrassSway::Still => {},
        }
    }
}

} // verus!
