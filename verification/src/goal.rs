//! Goal tiles: a goal is met while a gravestone stands on it, and the level is won when every goal
//! is met. Each goal has a ghost whose animation idles, turns, blinks, cheers when its goal is
//! met and then vanishes.
use crate::grid::GridCoords;
use crate::level::LevelSelection;
use crate::timer::{fresh_timer, ticked, FrameTimer};
use core::ops::Range;
use vstd::prelude::*;

verus! {

/// A goal tile and whether it is currently satisfied.
#[derive(Copy, Clone, Debug, PartialEq, Eq, Hash, Default, Structural)]
pub struct Goal {
    pub met: bool,
}

/// A change of a goal's state.
#[derive(Copy, Clone, Debug, PartialEq, Eq, Hash, Structural)]
pub enum GoalEvent {
    /// The goal became met by the gravestone `stone_entity`.
    Met { goal_entity: u64, stone_entity: u64 },
    /// The goal is no longer met.
    UnMet { goal_entity: u64 },
}

/// A goal tile entity: its id, state and position.
#[derive(Copy, Clone, Debug, PartialEq, Eq, Hash, Structural)]
pub struct GoalTile {
    pub entity: u64,
    pub goal: Goal,
    pub grid_coords: GridCoords,
}

/// The first gravestone, in query order, standing on `c`.
pub open spec fn first_stone_at(stones: Seq<(u64, GridCoords)>, c: GridCoords) -> Option<u64>
    decreases stones.len(),
{
    if stones.len() == 0 {
        None
    } else if stones[0].1 == c {
        Some(stones[0].0)
    } else {
        first_stone_at(stones.subrange(1, stones.len() as int), c)
    }
}

/// The event a goal raises when it is checked against the gravestones, if its state changes.
pub open spec fn goal_event(g: GoalTile, stones: Seq<(u64, GridCoords)>) -> Option<GoalEvent> {
    match first_stone_at(stones, g.grid_coords) {
        Some(stone) => if g.goal.met {
            None
        } else {
            Some(GoalEvent::Met { goal_entity: g.entity, stone_entity: stone })
        },
        None => if g.goal.met {
            Some(GoalEvent::UnMet { goal_entity: g.entity })
        } else {
            None
        },
    }
}

/// The events raised by checking the goals in order.
pub open spec fn goal_events(goals: Seq<GoalTile>, stones: Seq<(u64, GridCoords)>) -> Seq<
    GoalEvent,
>
    decreases goals.len(),
{
    if goals.len() == 0 {
        Seq::empty()
    } else {
        let rest = goal_events(goals.drop_last(), stones);
        match goal_event(goals.last(), stones) {
            Some(e) => rest.push(e),
            None => rest,
        }
    }
}

/// Whether a gravestone stands on every goal.
pub open spec fn all_goals_met(goals: Seq<GoalTile>, stones: Seq<(u64, GridCoords)>) -> bool {
    forall|i: int| 0 <= i < goals.len() ==> first_stone_at(stones, #[trigger] goals[i].grid_coords)
        is Some
}

/// The outcome of checking the goals.
#[derive(Clone, Debug, PartialEq, Eq)]
pub struct GoalCheck {
    /// The goals' state changes, in goal order.
    pub events: Vec<GoalEvent>,
    /// Whether the level is won.
    pub level_met: bool,
    /// The level to go to, when the level is won and the current level's index is known.
    pub transition_to: Option<LevelSelection>,
}

/// The first gravestone standing on `c`.
fn find_stone_at(stones: &Vec<(u64, GridCoords)>, c: GridCoords) -> (r: Option<u64>)
    ensures
        r == first_stone_at(stones@, c),
{
    let mut i: usize = 0;
    assert(stones@.subrange(0, stones.len() as int) =~= stones@);
    while i < stones.len()
        invariant
            0 <= i <= stones.len(),
            first_stone_at(stones@.subrange(i as int, stones.len() as int), c) == first_stone_at(
                stones@,
                c,
            ),
        decreases stones.len() - i,
    {
        let ghost rest = stones@.subrange(i as int, stones.len() as int);
        assert(rest.subrange(1, rest.len() as int) =~= stones@.subrange(
            i + 1,
            stones.len() as int,
        ));
        if stones[i].1 == c {
            return Some(stones[i].0);
        }
        i = i + 1;
    }
    assert(stones@.subrange(i as int, stones.len() as int) =~= Seq::<(u64, GridCoords)>::empty());
    None
}

/// Checks every goal against the gravestones: a goal is met while some gravestone stands on
/// it, and raises an event when that changes. The level is won when every goal is met; then the
/// game goes on to the level after `current_level`, when that is known. With no goal loaded
/// nothing is checked, so that a level is never won for lack of goals.
pub fn check_goal(
    goals: &mut Vec<GoalTile>,
    stones: &Vec<(u64, GridCoords)>,
    current_level: Option<usize>,
) -> (r: GoalCheck)
    requires
        current_level matches Some(i) ==> i < usize::MAX,
    ensures
        old(goals).len() == 0 ==> *final(goals) == *old(goals) && r.events@ == Seq::<
            GoalEvent,
        >::empty() && !r.level_met && r.transition_to is None,
        old(goals).len() > 0 ==> r.events@ == goal_events(old(goals)@, stones@) && r.level_met
            == all_goals_met(old(goals)@, stones@),
        final(goals).len() == old(goals).len(),
        old(goals).len() > 0 ==> forall|i: int|
            0 <= i < old(goals).len() ==> #[trigger] final(goals)[i] == (GoalTile {
                goal: Goal { met: first_stone_at(stones@, old(goals)[i].grid_coords) is Some },
                ..old(goals)[i]
            }),
        r.transition_to == (if r.level_met {
            match current_level {
                Some(i) => Some(LevelSelection::Index((i + 1) as usize)),
                None => None,
            }
        } else {
            None
        }),
{
    if goals.len() == 0 {
        return GoalCheck { events: Vec::new(), level_met: false, transition_to: None };
    }
    let ghost start = goals@;
    let mut events: Vec<GoalEvent> = Vec::new();
    let mut level_met = true;
    let mut i: usize = 0;
    while i < goals.len()
        invariant
            0 <= i <= goals.len(),
            goals.len() == start.len(),
            forall|j: int| i <= j < goals.len() ==> #[trigger] goals[j] == start[j],
            forall|j: int|
                0 <= j < i ==> #[trigger] goals[j] == (GoalTile {
                    goal: Goal { met: first_stone_at(stones@, start[j].grid_coords) is Some },
                    ..start[j]
                }),
            events@ == goal_events(start.subrange(0, i as int), stones@),
            level_met == all_goals_met(start.subrange(0, i as int), stones@),
        decreases goals.len() - i,
    {
        let g = goals[i];
        let found = find_stone_at(stones, g.grid_coords);
        proof {
            let pre = start.subrange(0, i + 1);
            assert(pre.drop_last() =~= start.subrange(0, i as int));
            assert(pre.last() == g);
            assert forall|j: int| 0 <= j < i implies #[trigger] pre[j] == start.subrange(
                0,
                i as int,
            )[j] by {}
            assert(all_goals_met(pre, stones@) == (all_goals_met(start.subrange(0, i as int), stones@)
                && first_stone_at(stones@, g.grid_coords) is Some)) by {
                if all_goals_met(pre, stones@) {
                    assert(first_stone_at(stones@, pre[i as int].grid_coords) is Some);
                    assert forall|j: int| 0 <= j < i implies first_stone_at(
                        stones@,
                        #[trigger] start.subrange(0, i as int)[j].grid_coords,
                    ) is Some by {
                        assert(first_stone_at(stones@, pre[j].grid_coords) is Some);
                    }
                }
            }
        }
        match found {
            Some(stone_entity) => {
                if !g.goal.met {
                    events.push(GoalEvent::Met { goal_entity: g.entity, stone_entity });
                }
            },
            None => {
                level_met = false;
                if g.goal.met {
                    events.push(GoalEvent::UnMet { goal_entity: g.entity });
                }
            },
        }
        goals.set(i, GoalTile { goal: Goal { met: found.is_some() }, ..g });
        i = i + 1;
    }
    assert(start.subrange(0, i as int) =~= start);
    let transition_to = if level_met {
        match current_level {
            Some(l) => Some(LevelSelection::Index(l + 1)),
            None => None,
        }
    } else {
        None
    };
    GoalCheck { events, level_met, transition_to }
}

/// Which hand a turning goal ghost raises.
#[derive(Copy, Clone, Debug, PartialEq, Eq, Hash, Structural)]
pub enum HandDirection {
    Right,
    Left,
}

/// The abstract state of a goal ghost's animation.
#[derive(Copy, Clone, Debug, PartialEq, Eq, Hash, Structural)]
pub enum GoalAnimationState {
    /// Floating in place.
    Idle,
    /// Turning towards one hand, for `frames` frames so far.
    Turn { hand: HandDirection, frames: usize },
    /// Blinking, for `frames` frames so far.
    Blinking { frames: usize },
    /// Cheering because its goal is met, at frame `frame` of the cheer.
    Happy { frame: usize },
    /// Gone after cheering.
    Vanished,
}

impl Default for GoalAnimationState {
    fn default() -> (s: GoalAnimationState)
        ensures
            s == GoalAnimationState::Idle,
    {
        GoalAnimationState::Idle
    }
}

/// How goal ghosts look and behave.
#[derive(Debug, PartialEq, Eq)]
pub struct GoalGhostSettings {
    /// Frames an idle ghost goes without turning: it turns at a uniformly chosen point of this
    /// range.
    pub no_turn_length: Range<usize>,
    /// Frames a turn lasts.
    pub turn_length: Range<usize>,
    /// Frames an idle ghost goes without blinking.
    pub no_blink_length: Range<usize>,
    /// Frames a blink lasts.
    pub blink_length: Range<usize>,
    /// Duration of one animation frame, in nanoseconds.
    pub frame_duration: u64,
    /// Number of frames of the idle loop.
    pub idle_frame_count: usize,
    /// Number of frames of the cheer.
    pub happy_frame_count: usize,
    /// Sprite shown once the ghost vanished.
    pub none_frame_index: usize,
    /// Columns of the ghost's sprite sheet.
    pub num_columns: usize,
    /// Rows of the ghost's sprite sheet.
    pub num_rows: usize,
    /// Handle id of the ghost's texture atlas, once created.
    pub atlas: Option<u64>,
}

impl Default for GoalGhostSettings {
    fn default() -> (s: GoalGhostSettings)
        ensures
            s.no_turn_length.start == 32 && s.no_turn_length.end == 64,
            s.turn_length.start == 12 && s.turn_length.end == 20,
            s.no_blink_length.start == 50 && s.no_blink_length.end == 100,
            s.blink_length.start == 0 && s.blink_length.end == 1,
            s.frame_duration == 150_000_000,
            s.idle_frame_count == 8,
            s.happy_frame_count == 10,
            s.none_frame_index == 8,
            s.num_columns == 10,
            s.num_rows == 5,
            s.atlas is None,
    {
        GoalGhostSettings {
            no_turn_length: Range { start: 32, end: 64 },
            turn_length: Range { start: 12, end: 20 },
            no_blink_length: Range { start: 50, end: 100 },
            blink_length: Range { start: 0, end: 1 },
            frame_duration: 150_000_000,
            idle_frame_count: 8,
            happy_frame_count: 10,
            none_frame_index: 8,
            num_columns: 10,
            num_rows: 5,
            atlas: None,
        }
    }
}

/// The animation of the ghost of goal `goal_entity`.
#[derive(Copy, Clone, Debug, PartialEq, Eq, Hash, Structural)]
pub struct GoalGhostAnimation {
    pub goal_entity: u64,
    pub frame_timer: FrameTimer,
    /// Column of the idle loop the ghost is at.
    pub column: usize,
    pub frames_since_blink: usize,
    pub frames_since_turn: usize,
    pub state: GoalAnimationState,
}

impl GoalGhostAnimation {
    /// A fresh idle ghost for `goal_entity`.
    pub fn new(goal_entity: u64, frame_timer: FrameTimer) -> (a: GoalGhostAnimation)
        ensures
            a == (GoalGhostAnimation {
                goal_entity,
                frame_timer,
                column: 0,
                frames_since_blink: 0,
                frames_since_turn: 0,
                state: GoalAnimationState::Idle,
            }),
    {
        GoalGhostAnimation {
            goal_entity,
            frame_timer,
            column: 0,
            frames_since_blink: 0,
            frames_since_turn: 0,
            state: GoalAnimationState::default(),
        }
    }
}

/// What an idle ghost decided this frame.
#[derive(Copy, Clone, Debug, PartialEq, Eq, Hash, Structural)]
pub enum IdleRoll {
    Stay,
    Turn(HandDirection),
    Blink,
}

/// The chance outcomes of one animation frame: what an idle ghost does, and whether a turn or
/// blink in progress ends.
#[derive(Copy, Clone, Debug, PartialEq, Eq, Hash, Structural)]
pub struct GhostRoll {
    pub idle: IdleRoll,
    pub ends: bool,
}

/// One animation frame of a ghost: the sprite shown and the ghost's next state (its timer
/// left as is).
pub open spec fn ghost_frame(a: GoalGhostAnimation, s: GoalGhostSettings, roll: GhostRoll) -> (
    GoalGhostAnimation,
    usize,
) {
    let column = ((a.column + 1) % (s.idle_frame_count as int)) as usize;
    match a.state {
        GoalAnimationState::Idle => (
            GoalGhostAnimation {
                state: match roll.idle {
                    IdleRoll::Turn(hand) => GoalAnimationState::Turn { hand, frames: 0 },
                    IdleRoll::Blink => GoalAnimationState::Blinking { frames: 0 },
                    IdleRoll::Stay => GoalAnimationState::Idle,
                },
                frames_since_turn: (a.frames_since_turn + 1) as usize,
                frames_since_blink: (a.frames_since_blink + 1) as usize,
                column,
                ..a
            },
            a.column,
        ),
        GoalAnimationState::Turn { hand, frames } => (
            GoalGhostAnimation {
                state: if roll.ends {
                    GoalAnimationState::Idle
                } else {
                    GoalAnimationState::Turn { hand, frames: (frames + 1) as usize }
                },
                frames_since_turn: 0,
                column,
                ..a
            },
            (if hand == HandDirection::Right {
                s.num_columns + a.column
            } else {
                s.num_columns * 2 + a.column
            }) as usize,
        ),
        GoalAnimationState::Blinking { frames } => (
            GoalGhostAnimation {
                state: if roll.ends {
                    GoalAnimationState::Idle
                } else {
                    GoalAnimationState::Blinking { frames: (frames + 1) as usize }
                },
                frames_since_blink: 0,
                column,
                ..a
            },
            (s.num_columns * 3 + a.column) as usize,
        ),
        GoalAnimationState::Happy { frame } => (
            GoalGhostAnimation {
                state: if frame + 1 < s.happy_frame_count {
                    GoalAnimationState::Happy { frame: (frame + 1) as usize }
                } else {
                    GoalAnimationState::Vanished
                },
                column,
                ..a
            },
            if a.column >= s.num_columns {
                a.column
            } else {
                (s.num_columns * 4 + frame) as usize
            },
        ),
        GoalAnimationState::Vanished => (
            GoalGhostAnimation { column, ..a },
            s.none_frame_index,
        ),
    }
}

/// The arithmetic of a ghost's frame stays within `usize`, and the idle loop has frames.
pub open spec fn ghost_frame_fits(a: GoalGhostAnimation, s: GoalGhostSettings, roll: GhostRoll) -> bool {
    &&& a.column < usize::MAX
    &&& s.idle_frame_count > 0
    &&& match a.state {
        GoalAnimationState::Idle => a.frames_since_turn < usize::MAX && a.frames_since_blink
            < usize::MAX,
        GoalAnimationState::Turn { hand, frames } => (!roll.ends ==> frames < usize::MAX) && if hand
            == HandDirection::Right {
            s.num_columns + a.column <= usize::MAX
        } else {
            s.num_columns * 2 + a.column <= usize::MAX
        },
        GoalAnimationState::Blinking { frames } => (!roll.ends ==> frames < usize::MAX)
            && s.num_columns * 3 + a.column <= usize::MAX,
        GoalAnimationState::Happy { frame } => s.happy_frame_count > 0 && (a.column
            < s.num_columns ==> s.num_columns * 4 + frame <= usize::MAX),
        GoalAnimationState::Vanished => true,
    }
}

/// Advances a goal ghost's frame timer by `delta` nanoseconds of frame time; when a frame
/// elapsed, shows the ghost's next sprite and moves its animation on, by the chance outcomes
/// `roll`.
pub fn goal_ghost_animation(
    animation: &mut GoalGhostAnimation,
    sprite_index: &mut usize,
    settings: &GoalGhostSettings,
    delta: u64,
    roll: GhostRoll,
)
    requires
        ticked(old(animation).frame_timer, delta).finished ==> ghost_frame_fits(
            *old(animation),
            *settings,
            roll,
        ),
    ensures
        ({
            let a = GoalGhostAnimation {
                frame_timer: ticked(old(animation).frame_timer, delta),
                ..*old(animation)
            };
            if a.frame_timer.finished {
                *final(animation) == ghost_frame(a, *settings, roll).0 && *final(sprite_index)
                    == ghost_frame(a, *settings, roll).1
            } else {
                *final(animation) == a && *final(sprite_index) == *old(sprite_index)
            }
        }),
{
    animation.frame_timer.tick(delta);
    if !animation.frame_timer.finished() {
        return;
    }
    match animation.state {
        GoalAnimationState::Idle => {
            *sprite_index = animation.column;
            animation.state = match roll.idle {
                IdleRoll::Turn(hand) => GoalAnimationState::Turn { hand, frames: 0 },
                IdleRoll::Blink => GoalAnimationState::Blinking { frames: 0 },
                IdleRoll::Stay => GoalAnimationState::Idle,
            };
            animation.frames_since_turn = animation.frames_since_turn + 1;
            animation.frames_since_blink = animation.frames_since_blink + 1;
        },
        GoalAnimationState::Turn { hand, frames } => {
            let index_offset = if hand == HandDirection::Right {
                settings.num_columns
            } else {
                settings.num_columns * 2
            };
            *sprite_index = index_offset + animation.column;
            if roll.ends {
                animation.state = GoalAnimationState::Idle;
            } else {
                animation.state = GoalAnimationState::Turn { hand, frames: frames + 1 };
            }
            animation.frames_since_turn = 0;
        },
        GoalAnimationState::Blinking { frames } => {
            let index_offset = settings.num_columns * 3;
            *sprite_index = index_offset + animation.column;
            if roll.ends {
                animation.state = GoalAnimationState::Idle;
            } else {
                animation.state = GoalAnimationState::Blinking { frames: frames + 1 };
            }
            animation.frames_since_blink = 0;
        },
        GoalAnimationState::Happy { frame } => {
            if animation.column >= settings.num_columns {
                *sprite_index = animation.column;
            } else {
                *sprite_index = settings.num_columns * 4 + frame;
            }
            if frame < settings.happy_frame_count - 1 {
                animation.state = GoalAnimationState::Happy { frame: frame + 1 };
            } else {
                animation.state = GoalAnimationState::Vanished;
            }
        },
        GoalAnimationState::Vanished => {
            *sprite_index = settings.none_frame_index;
        },
    }
    animation.column = (animation.column + 1) % settings.idle_frame_count;
}

/// A ghost's animation state after one frame per roll of `rolls`.
pub open spec fn ghost_frames(a: GoalGhostAnimation, s: GoalGhostSettings, rolls: Seq<GhostRoll>) -> GoalGhostAnimation
    decreases rolls.len(),
{
    if rolls.len() == 0 {
        a
    } else {
        ghost_frames(ghost_frame(a, s, rolls[0]).0, s, rolls.subrange(1, rolls.len() as int))
    }
}

/// A cheering ghost plays the rest of its cheer and then has vanished, whatever chance brings:
/// from frame `f` of the cheer, after the remaining frames of the cheer it is gone.
pub proof fn lemma_cheering_ghost_vanishes(
    a: GoalGhostAnimation,
    s: GoalGhostSettings,
    rolls: Seq<GhostRoll>,
    f: usize,
)
    requires
        a.state == (GoalAnimationState::Happy { frame: f }),
        f < s.happy_frame_count,
        rolls.len() >= s.happy_frame_count - f,
    ensures
        ghost_frames(a, s, rolls).state == GoalAnimationState::Vanished,
    decreases rolls.len(),
{
    let next = ghost_frame(a, s, rolls[0]).0;
    let rest = rolls.subrange(1, rolls.len() as int);
    if f + 1 < s.happy_frame_count {
        lemma_cheering_ghost_vanishes(next, s, rest, (f + 1) as usize);
    } else {
        lemma_vanished_ghost_stays(next, s, rest);
    }
}

/// A vanished ghost stays vanished and shows the vanished sprite.
pub proof fn lemma_vanished_ghost_stays(a: GoalGhostAnimation, s: GoalGhostSettings, rolls: Seq<GhostRoll>)
    requires
        a.state == GoalAnimationState::Vanished,
    ensures
        ghost_frames(a, s, rolls).state == GoalAnimationState::Vanished,
        forall|r: GhostRoll| #[trigger] ghost_frame(a, s, r).1 == s.none_frame_index,
    decreases rolls.len(),
{
    if rolls.len() > 0 {
        lemma_vanished_ghost_stays(ghost_frame(a, s, rolls[0]).0, s, rolls.subrange(1, rolls.len() as int));
    }
}

/// Turning and blinking end whenever chance says so: the ghost is idle again after such a frame.
pub proof fn lemma_turn_and_blink_end_on_roll(a: GoalGhostAnimation, s: GoalGhostSettings, roll: GhostRoll)
    requires
        a.state is Turn || a.state is Blinking,
        roll.ends,
    ensures
        ghost_frame(a, s, roll).0.state == GoalAnimationState::Idle,
{
}

/// The state a ghost of `goal_entity` is put in by `events`: the last event of its goal decides,
/// cheering when the goal became met and idling when it became unmet.
pub open spec fn state_after_goal_events(
    state: GoalAnimationState,
    goal_entity: u64,
    events: Seq<GoalEvent>,
) -> GoalAnimationState
    decreases events.len(),
{
    if events.len() == 0 {
        state
    } else {
        match events.last() {
            GoalEvent::Met { goal_entity: g, .. } if g == goal_entity => GoalAnimationState::Happy {
                frame: 0,
            },
            GoalEvent::UnMet { goal_entity: g } if g == goal_entity => GoalAnimationState::Idle,
            _ => state_after_goal_events(state, goal_entity, events.drop_last()),
        }
    }
}

/// Makes every ghost react to its goal's events: it cheers when the goal became met and idles
/// when it became unmet.
pub fn goal_ghost_event_sugar(animations: &mut Vec<GoalGhostAnimation>, events: &Vec<GoalEvent>)
    ensures
        final(animations).len() == old(animations).len(),
        forall|i: int|
            0 <= i < old(animations).len() ==> #[trigger] final(animations)[i] == (GoalGhostAnimation {
                state: state_after_goal_events(
                    old(animations)[i].state,
                    old(animations)[i].goal_entity,
                    events@,
                ),
                ..old(animations)[i]
            }),
{
    let ghost start = animations@;
    let mut k: usize = 0;
    while k < events.len()
        invariant
            0 <= k <= events.len(),
            animations.len() == start.len(),
            forall|i: int|
                0 <= i < start.len() ==> #[trigger] animations[i] == (GoalGhostAnimation {
                    state: state_after_goal_events(
                        start[i].state,
                        start[i].goal_entity,
                        events@.subrange(0, k as int),
                    ),
                    ..start[i]
                }),
        decreases events.len() - k,
    {
        let event = events[k];
        proof {
            let pre = events@.subrange(0, k + 1);
            assert(pre.drop_last() =~= events@.subrange(0, k as int));
            assert(pre.last() == event);
        }
        let mut i: usize = 0;
        while i < animations.len()
            invariant
                0 <= i <= animations.len(),
                animations.len() == start.len(),
                event == events@[k as int],
                k < events.len(),
                events@.subrange(0, k + 1).drop_last() == events@.subrange(0, k as int),
                events@.subrange(0, k + 1).last() == event,
                forall|j: int|
                    i <= j < start.len() ==> #[trigger] animations[j] == (GoalGhostAnimation {
                        state: state_after_goal_events(
                            start[j].state,
                            start[j].goal_entity,
                            events@.subrange(0, k as int),
                        ),
                        ..start[j]
                    }),
                forall|j: int|
                    0 <= j < i ==> #[trigger] animations[j] == (GoalGhostAnimation {
                        state: state_after_goal_events(
                            start[j].state,
                            start[j].goal_entity,
                            events@.subrange(0, k + 1),
                        ),
                        ..start[j]
                    }),
            decreases animations.len() - i,
        {
            let a = animations[i];
            match event {
                GoalEvent::Met { goal_entity, .. } => {
                    if goal_entity == a.goal_entity {
                        animations.set(i, GoalGhostAnimation { state: GoalAnimationState::Happy { frame: 0 }, ..a });
                    }
                },
                GoalEvent::UnMet { goal_entity } => {
                    if goal_entity == a.goal_entity {
                        animations.set(i, GoalGhostAnimation { state: GoalAnimationState::Idle, ..a });
                    }
                },
            }
            i = i + 1;
        }
        k = k + 1;
    }
    assert(events@.subrange(0, k as int) =~= events@);
}

/// A ghost for every goal just added, each idling with a repeating frame timer.
pub fn spawn_goal_ghosts(goals: &Vec<u64>, settings: &GoalGhostSettings) -> (ghosts: Vec<
    GoalGhostAnimation,
>)
    ensures
        ghosts.len() == goals.len(),
        forall|i: int|
            0 <= i < goals.len() ==> #[trigger] ghosts[i] == (GoalGhostAnimation {
                goal_entity: goals[i],
                frame_timer: fresh_timer(settings.frame_duration, true),
                column: 0,
                frames_since_blink: 0,
                frames_since_turn: 0,
                state: GoalAnimationState::Idle,
            }),
{
    let mut ghosts: Vec<GoalGhostAnimation> = Vec::new();
    let mut i: usize = 0;
    while i < goals.len()
        invariant
            0 <= i <= goals.len(),
            ghosts.len() == i,
            forall|j: int|
                0 <= j < i ==> #[trigger] ghosts[j] == (GoalGhostAnimation {
                    goal_entity: goals[j],
                    frame_timer: fresh_timer(settings.frame_duration, true),
                    column: 0,
                    frames_since_blink: 0,
                    frames_since_turn: 0,
                    state: GoalAnimationState::Idle,
                }),
        decreases goals.len() - i,
    {
        ghosts.push(
            GoalGhostAnimation::new(goals[i], FrameTimer::new(settings.frame_duration, true)),
        );
        i = i + 1;
    }
    ghosts
}

/// The goals after a check against `stones`: each met exactly when a gravestone stands on it.
pub open spec fn checked_goals(goals: Seq<GoalTile>, stones: Seq<(u64, GridCoords)>) -> Seq<GoalTile> {
    goals.map_values(
        |g: GoalTile| GoalTile { goal: Goal { met: first_stone_at(stones, g.grid_coords) is Some }, ..g },
    )
}

/// Checking goals settles them: checking again against the same gravestones raises no event
/// and leaves the goals and the level's outcome as they are.
pub proof fn lemma_goal_check_settles(goals: Seq<GoalTile>, stones: Seq<(u64, GridCoords)>)
    ensures
        goal_events(checked_goals(goals, stones), stones) == Seq::<GoalEvent>::empty(),
        checked_goals(checked_goals(goals, stones), stones) == checked_goals(goals, stones),
        all_goals_met(checked_goals(goals, stones), stones) == all_goals_met(goals, stones),
    decreases goals.len(),
{
    let c = checked_goals(goals, stones);
    if goals.len() > 0 {
        lemma_goal_check_settles(goals.drop_last(), stones);
        assert(checked_goals(goals.drop_last(), stones) =~= c.drop_last());
    }
    assert(checked_goals(c, stones) =~= c);
    assert(goal_events(c, stones) =~= Seq::<GoalEvent>::empty());
    assert forall|i: int| 0 <= i < goals.len() implies (first_stone_at(
        stones,
        #[trigger] c[i].grid_coords,
    ) is Some) == (first_stone_at(stones, goals[i].grid_coords) is Some) by {}
    if all_goals_met(goals, stones) {
        assert forall|i: int| 0 <= i < c.len() implies first_stone_at(
            stones,
            #[trigger] c[i].grid_coords,
        ) is Some by {
            assert(first_stone_at(stones, goals[i].grid_coords) is Some);
        }
    }
    if all_goals_met(c, stones) {
        assert forall|i: int| 0 <= i < goals.len() implies first_stone_at(
            stones,
            #[trigger] goals[i].grid_coords,
        ) is Some by {
            assert(first_stone_at(stones, c[i].grid_coords) is Some);
        }
    }
}

} // verus!
