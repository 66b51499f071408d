//! Willo, the player character: state and animation state.
use crate::animation::SpriteSheetAnimation;
use crate::arrow_block::MovementTile;
use crate::exorcism::ExorcismEvent;
use crate::gravestone::{movement_of, GraveId, GravestoneMovementQueries};
use crate::history::HistoryCommands;
use crate::sokoban::{Direction, PushEvent};
use crate::timer::{fresh_timer, reset_timer, ticked, FrameTimer};
use crate::volatile::Volatile;
use vstd::prelude::*;

verus! {

/// How long each frame of Willo's animations shows, in nanoseconds.
pub const WILLO_FRAME_TIME: u64 = 150_000_000;

/// Event that fires whenever Willo moves.
///
/// Only fires once per direction, so it fires twice during most moves.
#[derive(Copy, Clone, Debug, PartialEq, Eq, Hash, Structural)]
pub struct WilloMovementEvent {
    /// The direction of the step.
    pub direction: Direction,
}

/// Willo's state.
#[derive(Copy, Clone, Debug, PartialEq, Eq, Hash, Structural)]
pub enum WilloState {
    /// Willo is idle, waiting for input.
    Waiting,
    /// Willo is dead and cannot accept input.
    Dead,
    /// Willo is performing the first part of a grave action, defined by the rank.
    RankMove(GraveId),
    /// Willo is performing the second part of a grave action, defined by the file.
    FileMove(GraveId),
}

impl Default for WilloState {
    fn default() -> (s: WilloState)
        ensures
            s == WilloState::Waiting,
    {
        WilloState::Waiting
    }
}

} // verus!

verus! {

/// The possible states of Willo's animation.
#[derive(Copy, Clone, Debug, PartialEq, Eq, Hash, Structural)]
pub enum WilloAnimationState {
    /// Willo is idle, and facing a particular direction.
    Idle(Direction),
    /// Willo is pushing a gravestone in a particular direction.
    Push(Direction),
    /// Willo is dying.
    Dying,
    /// Willo is invisible (post-death).
    Hidden,
}

impl Default for WilloAnimationState {
    fn default() -> (s: WilloAnimationState)
        ensures
            s == WilloAnimationState::Idle(Direction::Down),
    {
        WilloAnimationState::Idle(Direction::Down)
    }
}

/// The animation state that follows `s` once its animation finishes.
pub open spec fn following_animation(s: WilloAnimationState) -> WilloAnimationState {
    match s {
        WilloAnimationState::Dying | WilloAnimationState::Hidden => WilloAnimationState::Hidden,
        WilloAnimationState::Push(d) => WilloAnimationState::Idle(d),
        _ => WilloAnimationState::Idle(Direction::Down),
    }
}

/// Frames of Willo's sprite sheet for an animation state.
pub open spec fn willo_frames(s: WilloAnimationState) -> (usize, usize) {
    match s {
        WilloAnimationState::Push(Direction::Up) | WilloAnimationState::Push(Direction::UpLeft)
        | WilloAnimationState::Push(Direction::UpRight) => (1, 2),
        WilloAnimationState::Push(Direction::Down) | WilloAnimationState::Push(Direction::DownLeft)
        | WilloAnimationState::Push(Direction::DownRight) => (11, 12),
        WilloAnimationState::Push(Direction::Left) => (21, 22),
        WilloAnimationState::Push(Direction::Right) => (31, 32),
        WilloAnimationState::Idle(Direction::Up) | WilloAnimationState::Idle(Direction::UpLeft)
        | WilloAnimationState::Idle(Direction::UpRight) => (40, 47),
        WilloAnimationState::Idle(Direction::Zero) | WilloAnimationState::Push(Direction::Zero)
        | WilloAnimationState::Idle(Direction::Down) | WilloAnimationState::Idle(Direction::DownLeft)
        | WilloAnimationState::Idle(Direction::DownRight) => (50, 57),
        WilloAnimationState::Idle(Direction::Left) => (60, 67),
        WilloAnimationState::Idle(Direction::Right) => (70, 77),
        WilloAnimationState::Dying => (80, 105),
        WilloAnimationState::Hidden => (3, 4),
    }
}

impl WilloAnimationState {
    /// The state that follows this one in Willo's animation graph.
    pub fn next(&self) -> (s: WilloAnimationState)
        ensures
            s == following_animation(*self),
    {
        match self {
            WilloAnimationState::Dying | WilloAnimationState::Hidden => WilloAnimationState::Hidden,
            WilloAnimationState::Push(d) => WilloAnimationState::Idle(*d),
            _ => WilloAnimationState::Idle(Direction::Down),
        }
    }

    /// The sprite sheet animation of this state: its frames, 150 ms per frame, looping only
    /// when idle facing down.
    pub fn to_animation(&self) -> (a: SpriteSheetAnimation)
        ensures
            a.start == willo_frames(*self).0,
            a.end == willo_frames(*self).1,
            a.frame_timer == fresh_timer(WILLO_FRAME_TIME, true),
            a.repeat == (*self == WilloAnimationState::Idle(Direction::Down)),
    {
        let (start, end): (usize, usize) = match self {
            WilloAnimationState::Push(Direction::Up)
            | WilloAnimationState::Push(Direction::UpLeft)
            | WilloAnimationState::Push(Direction::UpRight) => (1, 2),
            WilloAnimationState::Push(Direction::Down)
            | WilloAnimationState::Push(Direction::DownLeft)
            | WilloAnimationState::Push(Direction::DownRight) => (11, 12),
            WilloAnimationState::Push(Direction::Left) => (21, 22),
            WilloAnimationState::Push(Direction::Right) => (31, 32),
            WilloAnimationState::Idle(Direction::Up)
            | WilloAnimationState::Idle(Direction::UpLeft)
            | WilloAnimationState::Idle(Direction::UpRight) => (40, 47),
            WilloAnimationState::Idle(Direction::Zero)
            | WilloAnimationState::Push(Direction::Zero)
            | WilloAnimationState::Idle(Direction::Down)
            | WilloAnimationState::Idle(Direction::DownLeft)
            | WilloAnimationState::Idle(Direction::DownRight) => (50, 57),
            WilloAnimationState::Idle(Direction::Left) => (60, 67),
            WilloAnimationState::Idle(Direction::Right) => (70, 77),
            WilloAnimationState::Dying => (80, 105),
            WilloAnimationState::Hidden => (3, 4),
        };
        let repeat = match self {
            WilloAnimationState::Idle(Direction::Down) => true,
            _ => false,
        };
        SpriteSheetAnimation {
            start,
            end,
            frame_timer: FrameTimer::new(WILLO_FRAME_TIME, true),
            repeat,
        }
    }
}

/// Every state of Willo's animation graph leads, within two steps, to a state that no longer
/// changes: idle facing down loops, and a finished death stays hidden.
pub proof fn lemma_willo_animation_settles(s: WilloAnimationState)
    ensures
        ({
            let t = following_animation(following_animation(s));
            following_animation(t) == t || t == WilloAnimationState::Idle(Direction::Down)
                || following_animation(t) == WilloAnimationState::Idle(Direction::Down)
        }),
        following_animation(WilloAnimationState::Hidden) == WilloAnimationState::Hidden,
        willo_frames(s).0 < willo_frames(s).1,
{
}

/// Once a frame of an animation finished: Willo's animation moves on to the following state,
/// whose animation starts at its first frame.
pub fn animation_finisher(state: WilloAnimationState) -> (r: (
    WilloAnimationState,
    SpriteSheetAnimation,
    usize,
))
    ensures
        r.0 == following_animation(state),
        r.1.start == willo_frames(r.0).0 && r.1.end == willo_frames(r.0).1,
        r.2 == r.1.start,
{
    let next = state.next();
    let animation = next.to_animation();
    (next, animation, animation.start)
}

/// Willo's animation after the push events of a frame: pushing in the direction of the last
/// push that Willo performed, unchanged when Willo pushed nothing.
pub open spec fn push_animation(
    willo_entity: u64,
    events: Seq<PushEvent>,
    current: WilloAnimationState,
) -> WilloAnimationState
    decreases events.len(),
{
    if events.len() == 0 {
        current
    } else if events.last().pusher == willo_entity {
        WilloAnimationState::Push(events.last().direction)
    } else {
        push_animation(willo_entity, events.drop_last(), current)
    }
}

/// Shows Willo pushing after Willo pushed something.
pub fn push_sugar(willo_entity: u64, events: &Vec<PushEvent>, current: WilloAnimationState) -> (r:
    WilloAnimationState)
    ensures
        r == push_animation(willo_entity, events@, current),
{
    let mut state = current;
    let mut i: usize = 0;
    while i < events.len()
        invariant
            0 <= i <= events.len(),
            state == push_animation(willo_entity, events@.take(i as int), current),
        decreases events.len() - i,
    {
        assert(events@.take(i + 1).drop_last() =~= events@.take(i as int));
        if events[i].pusher == willo_entity {
            state = WilloAnimationState::Push(events[i].direction);
        }
        i += 1;
    }
    assert(events@.take(events.len() as int) =~= events@);
    state
}

/// Willo stands idle facing down after a rewind or reset.
pub fn history_sugar(commands: &Vec<HistoryCommands>, current: WilloAnimationState) -> (r:
    WilloAnimationState)
    ensures
        r == (if exists|i: int|
            0 <= i < commands.len() && (commands[i] == HistoryCommands::Rewind || commands[i]
                == HistoryCommands::Reset) {
            WilloAnimationState::Idle(Direction::Down)
        } else {
            current
        }),
{
    let mut state = current;
    let mut i: usize = 0;
    while i < commands.len()
        invariant
            0 <= i <= commands.len(),
            state == (if exists|j: int|
                0 <= j < i && (commands[j] == HistoryCommands::Rewind || commands[j]
                    == HistoryCommands::Reset) {
                WilloAnimationState::Idle(Direction::Down)
            } else {
                current
            }),
        decreases commands.len() - i,
    {
        match commands[i] {
            HistoryCommands::Rewind | HistoryCommands::Reset => {
                state = WilloAnimationState::Idle(Direction::Down);
            },
            _ => {},
        }
        i += 1;
    }
    state
}

/// What Willo does when the movement timer finishes during a grave action: the rank move
/// follows the row move of the gravestone's movement tile and continues with the file move;
/// the file move follows the column move and ends the action.
pub open spec fn tile_move(state: WilloState, movement: Option<MovementTile>) -> (
    Option<Direction>,
    WilloState,
    bool,
) {
    match state {
        WilloState::RankMove(key) => (
            match movement {
                Some(t) => Some(t.row_move),
                None => None,
            },
            WilloState::FileMove(key),
            true,
        ),
        WilloState::FileMove(key) => (
            match movement {
                Some(t) => Some(t.column_move),
                None => None,
            },
            WilloState::Waiting,
            true,
        ),
        _ => (None, state, false),
    }
}

/// What moving Willo by the movement tiles does once the movement timer finished: the direction
/// to move Willo in (if any), the new state, the new animation state, and whether the movement
/// timer restarts.
pub open spec fn tile_step(
    willo_state: WilloState,
    animation: WilloAnimationState,
    queries: GravestoneMovementQueries,
) -> (Option<Direction>, WilloState, WilloAnimationState, bool) {
    let key = match willo_state {
        WilloState::RankMove(k) | WilloState::FileMove(k) => k,
        _ => GraveId::North,
    };
    let m = tile_move(willo_state, movement_of(queries.gravestones@, queries.movement_tiles@, key));
    (m.0, m.1, match m.0 {
        Some(d) => WilloAnimationState::Idle(d),
        None => animation,
    }, m.2)
}

/// Time between Willo's movements, in nanoseconds: 0.14 s as the engine reads it from a
/// single-precision float.
pub const MOVEMENT_TIME: u64 = 140_000_001;

/// The timer that spaces out the movements Willo performs.
#[derive(Copy, Clone, Debug, PartialEq, Eq, Structural)]
pub struct MovementTimer(pub FrameTimer);

impl Default for MovementTimer {
    fn default() -> (t: MovementTimer)
        ensures
            t == MovementTimer(fresh_timer(MOVEMENT_TIME, false)),
    {
        MovementTimer(FrameTimer::new(MOVEMENT_TIME, false))
    }
}

/// One step of a grave action by the movement tiles, once the movement timer finished.
fn tile_step_now(
    willo_state: WilloState,
    animation: WilloAnimationState,
    queries: &GravestoneMovementQueries,
) -> (r: (Option<Direction>, WilloState, WilloAnimationState, bool))
    ensures
        r == tile_step(willo_state, animation, *queries),
{
    match willo_state {
        WilloState::RankMove(key) => {
            match queries.find_movement(&key) {
                Some(movement_tile) => {
                    let direction = *movement_tile.row_move();
                    (
                        Some(direction),
                        WilloState::FileMove(key),
                        WilloAnimationState::Idle(direction),
                        true,
                    )
                },
                None => (None, WilloState::FileMove(key), animation, true),
            }
        },
        WilloState::FileMove(key) => {
            match queries.find_movement(&key) {
                Some(movement_tile) => {
                    let direction = *movement_tile.column_move();
                    (
                        Some(direction),
                        WilloState::Waiting,
                        WilloAnimationState::Idle(direction),
                        true,
                    )
                },
                None => (None, WilloState::Waiting, animation, true),
            }
        },
        _ => (None, willo_state, animation, false),
    }
}

/// Advances Willo's movement timer by `delta` nanoseconds and, once it finished, moves Willo by
/// the movement tile under the gravestone of the current grave action: the rank move follows
/// the tile's row move, the file move its column move; each step restarts the timer.
///
/// Returns the direction to move Willo in (if any), the new state and the new animation state.
pub fn move_willo_by_tiles(
    willo_state: WilloState,
    animation: WilloAnimationState,
    queries: &GravestoneMovementQueries,
    timer: &mut MovementTimer,
    delta: u64,
) -> (r: (Option<Direction>, WilloState, WilloAnimationState))
    ensures
        ({
            let t = ticked(old(timer).0, delta);
            let step = tile_step(willo_state, animation, *queries);
            if t.finished {
                &&& r == (step.0, step.1, step.2)
                &&& final(timer).0 == (if step.3 {
                    reset_timer(t)
                } else {
                    t
                })
            } else {
                &&& r == (None::<Direction>, willo_state, animation)
                &&& final(timer).0 == t
            }
        }),
{
    timer.0.tick(delta);
    if !timer.0.finished() {
        return (None, willo_state, animation);
    }
    let (direction, state, next_animation, restart) = tile_step_now(willo_state, animation, queries);
    if restart {
        timer.0.reset();
    }
    (direction, state, next_animation)
}

/// Willo dies when it stops being solid (it sublimated on an exorcism tile), unless already
/// dead. Returns the new state and the exorcism event, when Willo just died.
pub fn check_death(willo: WilloState, volatile: Volatile) -> (r: (WilloState, Option<ExorcismEvent>))
    ensures
        r == (if volatile != Volatile::Solid && willo != WilloState::Dead {
            (WilloState::Dead, Some(ExorcismEvent))
        } else {
            (willo, None)
        }),
{
    if !volatile.is_solid() && willo != WilloState::Dead {
        (WilloState::Dead, Some(ExorcismEvent))
    } else {
        (willo, None)
    }
}

/// Willo starts dying when exorcised.
pub fn play_exorcism_animation() -> (s: WilloAnimationState)
    ensures
        s == WilloAnimationState::Dying,
{
    WilloAnimationState::Dying
}

/// A grave action takes two steps of the movement timer: Willo first moves along the row move
/// of the gravestone's movement tile, then along its column move, and then waits again; without
/// a movement tile the steps pass without moving.
pub proof fn lemma_grave_action_moves_by_its_tile(
    key: GraveId,
    animation: WilloAnimationState,
    queries: GravestoneMovementQueries,
)
    ensures
        ({
            let first = tile_step(WilloState::RankMove(key), animation, queries);
            let second = tile_step(first.1, first.2, queries);
            let tile = movement_of(queries.gravestones@, queries.movement_tiles@, key);
            &&& first.1 == WilloState::FileMove(key)
            &&& second.1 == WilloState::Waiting
            &&& first.3 && second.3
            &&& match tile {
                Some(t) => first.0 == Some(t.row_move) && second.0 == Some(t.column_move),
                None => first.0 is None && second.0 is None,
            }
        }),
{
}

} // verus!
