use willos_graveyard::goal::{
    check_goal, goal_ghost_animation, goal_ghost_event_sugar, spawn_goal_ghosts, GhostRoll, Goal,
    GoalAnimationState, GoalEvent, GoalGhostAnimation, GoalGhostSettings, GoalTile, HandDirection,
    IdleRoll,
};
use willos_graveyard::grid::GridCoords;
use willos_graveyard::level::LevelSelection;
use willos_graveyard::timer::FrameTimer;

fn goal(entity: u64, x: i32, y: i32, met: bool) -> GoalTile {
    GoalTile { entity, goal: Goal { met }, grid_coords: GridCoords::new(x, y) }
}

#[test]
fn goals_met_by_gravestones_win_the_level() {
    let mut goals = vec![goal(1, 0, 0, false), goal(2, 3, 3, false)];
    let stones = vec![(10, GridCoords::new(3, 3)), (11, GridCoords::new(0, 0))];

    let r = check_goal(&mut goals, &stones, Some(4));

    assert_eq!(
        r.events,
        vec![
            GoalEvent::Met { goal_entity: 1, stone_entity: 11 },
            GoalEvent::Met { goal_entity: 2, stone_entity: 10 },
        ]
    );
    assert!(r.level_met);
    assert_eq!(r.transition_to, Some(LevelSelection::Index(5)));
    assert!(goals.iter().all(|g| g.goal.met));

    // checking again changes nothing and raises no event
    let again = check_goal(&mut goals, &stones, Some(4));
    assert!(again.events.is_empty());
    assert!(again.level_met);
}

#[test]
fn a_goal_left_unmet_raises_unmet_and_blocks_the_level() {
    let mut goals = vec![goal(1, 0, 0, true), goal(2, 3, 3, true)];
    let stones = vec![(10, GridCoords::new(3, 3))];

    let r = check_goal(&mut goals, &stones, Some(0));

    assert_eq!(r.events, vec![GoalEvent::UnMet { goal_entity: 1 }]);
    assert!(!r.level_met);
    assert_eq!(r.transition_to, None);
    assert_eq!(goals[0].goal, Goal { met: false });
    assert_eq!(goals[1].goal, Goal { met: true });
}

#[test]
fn no_goals_never_wins() {
    let mut goals: Vec<GoalTile> = vec![];
    let r = check_goal(&mut goals, &vec![(10, GridCoords::new(3, 3))], Some(0));
    assert!(r.events.is_empty());
    assert!(!r.level_met);
    assert_eq!(r.transition_to, None);
}

#[test]
fn won_level_without_known_index_goes_nowhere() {
    let mut goals = vec![goal(1, 0, 0, false)];
    let r = check_goal(&mut goals, &vec![(10, GridCoords::new(0, 0))], None);
    assert!(r.level_met);
    assert_eq!(r.transition_to, None);
}

#[test]
fn default_ghost_settings() {
    let s = GoalGhostSettings::default();
    assert_eq!(s.no_turn_length, 32..64);
    assert_eq!(s.turn_length, 12..20);
    assert_eq!(s.no_blink_length, 50..100);
    assert_eq!(s.blink_length, 0..1);
    assert_eq!(s.frame_duration, 150_000_000);
    assert_eq!((s.idle_frame_count, s.happy_frame_count, s.none_frame_index), (8, 10, 8));
    assert_eq!((s.num_columns, s.num_rows), (10, 5));
    assert_eq!(s.atlas, None);
}

fn ghost() -> GoalGhostAnimation {
    let s = GoalGhostSettings::default();
    GoalGhostAnimation::new(1, FrameTimer::new(s.frame_duration, true))
}

const STAY: GhostRoll = GhostRoll { idle: IdleRoll::Stay, ends: false };

#[test]
fn ghost_waits_for_its_frame_timer() {
    let s = GoalGhostSettings::default();
    let mut a = ghost();
    let mut sprite = 99;
    goal_ghost_animation(&mut a, &mut sprite, &s, 100_000_000, STAY);
    assert_eq!(sprite, 99);
    assert_eq!(a.column, 0);
    goal_ghost_animation(&mut a, &mut sprite, &s, 100_000_000, STAY);
    assert_eq!(sprite, 0);
    assert_eq!(a.column, 1);
    assert_eq!(a.frames_since_turn, 1);
}

#[test]
fn ghost_turns_blinks_and_returns_to_idle() {
    let s = GoalGhostSettings::default();
    let mut a = ghost();
    let mut sprite = 0;
    let frame = s.frame_duration;

    goal_ghost_animation(&mut a, &mut sprite, &s, frame, GhostRoll { idle: IdleRoll::Turn(HandDirection::Left), ends: false });
    assert_eq!(a.state, GoalAnimationState::Turn { hand: HandDirection::Left, frames: 0 });
    goal_ghost_animation(&mut a, &mut sprite, &s, frame, STAY);
    // left turns show the third row of the sheet
    assert_eq!(sprite, 20 + 1);
    assert_eq!(a.state, GoalAnimationState::Turn { hand: HandDirection::Left, frames: 1 });
    goal_ghost_animation(&mut a, &mut sprite, &s, frame, GhostRoll { idle: IdleRoll::Stay, ends: true });
    assert_eq!(a.state, GoalAnimationState::Idle);
    assert_eq!(a.frames_since_turn, 0);

    goal_ghost_animation(&mut a, &mut sprite, &s, frame, GhostRoll { idle: IdleRoll::Blink, ends: false });
    assert_eq!(a.state, GoalAnimationState::Blinking { frames: 0 });
    goal_ghost_animation(&mut a, &mut sprite, &s, frame, GhostRoll { idle: IdleRoll::Stay, ends: true });
    assert_eq!(sprite, 30 + 4);
    assert_eq!(a.state, GoalAnimationState::Idle);
}

#[test]
fn happy_ghost_cheers_then_vanishes() {
    let s = GoalGhostSettings::default();
    let mut animations = vec![ghost(), GoalGhostAnimation::new(2, FrameTimer::new(s.frame_duration, true))];
    goal_ghost_event_sugar(&mut animations, &vec![GoalEvent::Met { goal_entity: 1, stone_entity: 5 }]);
    assert_eq!(animations[0].state, GoalAnimationState::Happy { frame: 0 });
    assert_eq!(animations[1].state, GoalAnimationState::Idle);

    let mut a = animations[0];
    let mut sprite = 0;
    for f in 0..s.happy_frame_count {
        goal_ghost_animation(&mut a, &mut sprite, &s, s.frame_duration, STAY);
        assert_eq!(sprite, 40 + f);
    }
    assert_eq!(a.state, GoalAnimationState::Vanished);
    goal_ghost_animation(&mut a, &mut sprite, &s, s.frame_duration, STAY);
    assert_eq!(sprite, s.none_frame_index);
    assert_eq!(a.state, GoalAnimationState::Vanished);
}

#[test]
fn unmet_goal_calms_its_ghost_and_last_event_wins() {
    let mut animations = vec![ghost()];
    goal_ghost_event_sugar(
        &mut animations,
        &vec![
            GoalEvent::Met { goal_entity: 1, stone_entity: 5 },
            GoalEvent::UnMet { goal_entity: 1 },
        ],
    );
    assert_eq!(animations[0].state, GoalAnimationState::Idle);
}

#[test]
fn every_new_goal_gets_a_ghost() {
    let s = GoalGhostSettings::default();
    let ghosts = spawn_goal_ghosts(&vec![4, 9], &s);
    assert_eq!(ghosts.len(), 2);
    assert_eq!(ghosts[1].goal_entity, 9);
    assert_eq!(ghosts[0].state, GoalAnimationState::Idle);
    assert_eq!(ghosts[0].frame_timer, FrameTimer::new(s.frame_duration, true));
}
