//! Graveyard-wide actions: undo, restart and pause.
use crate::history::HistoryCommands;
use crate::willo::WilloState;
use vstd::prelude::*;

verus! {

/// Actions other than grave actions that can be performed during the gameplay state.
#[derive(Copy, Clone, Debug, PartialEq, Eq, Hash, Structural)]
pub enum GraveyardAction {
    Undo,
    Restart,
    Pause,
}

/// The graveyard action input of one frame.
#[derive(Copy, Clone, Debug, PartialEq, Eq, Default, Structural)]
pub struct GraveyardInput {
    /// Undo was pressed this frame.
    pub undo_just_pressed: bool,
    /// Undo is held.
    pub undo_pressed: bool,
    /// Restart was pressed this frame.
    pub restart_just_pressed: bool,
    /// The hold-to-rewind timer finished a period this frame.
    pub hold_timer_just_finished: bool,
}

/// What happens to the hold-to-rewind timer.
#[derive(Copy, Clone, Debug, PartialEq, Eq, Structural)]
pub enum RewindHold {
    /// Start a new hold timer at the slowest rewind speed.
    Start,
    /// Keep accelerating and ticking the existing hold timer.
    Continue,
    /// Leave the hold timer alone.
    Untouched,
}

/// Willo's reaction to the undo and restart input of one frame: while Willo is waiting or dead,
/// a fresh undo rewinds and starts the hold timer; a held undo keeps rewinding each time the
/// hold timer finishes; a restart resets. Any of these brings Willo back to waiting.
pub fn graveyard_input(willo: WilloState, input: GraveyardInput) -> (r: (
    WilloState,
    Option<HistoryCommands>,
    RewindHold,
))
    ensures
        r == (if willo == WilloState::Waiting || willo == WilloState::Dead {
            if input.undo_just_pressed {
                (WilloState::Waiting, Some(HistoryCommands::Rewind), RewindHold::Start)
            } else if input.undo_pressed {
                if input.hold_timer_just_finished {
                    (WilloState::Waiting, Some(HistoryCommands::Rewind), RewindHold::Continue)
                } else {
                    (willo, None, RewindHold::Continue)
                }
            } else if input.restart_just_pressed {
                (WilloState::Waiting, Some(HistoryCommands::Reset), RewindHold::Untouched)
            } else {
                (willo, None, RewindHold::Untouched)
            }
        } else {
            (willo, None, RewindHold::Untouched)
        }),
{
    if willo == WilloState::Waiting || willo == WilloState::Dead {
        if input.undo_just_pressed {
            (WilloState::Waiting, Some(HistoryCommands::Rewind), RewindHold::Start)
        } else if input.undo_pressed {
            if input.hold_timer_just_finished {
                (WilloState::Waiting, Some(HistoryCommands::Rewind), RewindHold::Continue)
            } else {
                (willo, None, RewindHold::Continue)
            }
        } else if input.restart_just_pressed {
            (WilloState::Waiting, Some(HistoryCommands::Reset), RewindHold::Untouched)
        } else {
            (willo, None, RewindHold::Untouched)
        }
    } else {
        (willo, None, RewindHold::Untouched)
    }
}

} // verus!
