use bevy::platform::collections::HashMap;
use willos_graveyard::arrow_block::{ArrowBlock, Column, MovementTile, Row};
use willos_graveyard::collision::{flush_sokoban_commands, EntityCollisionGeographicMap, SokobanEntity};
use willos_graveyard::exorcism::{death_card, spawn_death_card, DeathCardAction, ExorcismEvent};
use willos_graveyard::gravestone::{
    choose_gravestone_body, gravestone_body_at, gravestone_body_weights, gravestone_input, spawn_gravestone_body, GraveId,
    Gravestone,
    GravestoneMovementQueries, PlacedMovementTile,
};
use willos_graveyard::graveyard::{graveyard_input, GraveyardInput, RewindHold};
use willos_graveyard::grid::GridCoords;
use willos_graveyard::history::{flush_history_commands, History, HistoryCommands};
use willos_graveyard::key_controls::{update_control_display, ControlImage, ControlKey, ControlNode};
use willos_graveyard::movement_table::{move_willo_by_table, movement_table_update};
use willos_graveyard::ui::InputBinding;
use willos_graveyard::sokoban::{Direction, OutOfBoundsDirection, PushEvent, SokobanBlock, SokobanCommand, SokobanCommands};
use willos_graveyard::volatile::Volatile;
use willos_graveyard::willo::{
    animation_finisher, check_death, history_sugar, move_willo_by_tiles, play_exorcism_animation,
    push_sugar, MovementTimer, WilloAnimationState, WilloState, MOVEMENT_TIME,
};
use willos_graveyard::wind::{animate_grass, wind_timer, GrassSway, WIND_PERIOD};

fn entity(e: u64, x: i32, y: i32, block: SokobanBlock, push_tracker: bool) -> SokobanEntity {
    SokobanEntity { entity: e, grid_coords: GridCoords::new(x, y), block, push_tracker }
}

#[test]
fn collision_map_pushes_chains_and_reports_trackers() {
    let mut world = vec![
        entity(0, 1, 1, SokobanBlock::Dynamic, true),
        entity(1, 1, 2, SokobanBlock::Dynamic, true),
        entity(2, 2, 2, SokobanBlock::Dynamic, false),
        entity(3, 1, 5, SokobanBlock::Static, false),
    ];
    let mut commands = SokobanCommands::new();
    commands.move_block(0, Direction::Up);
    commands.move_block(2, Direction::Left);
    let events = flush_sokoban_commands(&mut world, &commands.commands);
    assert_eq!(world[0].grid_coords, GridCoords::new(0, 2));
    assert_eq!(world[1].grid_coords, GridCoords::new(1, 3));
    assert_eq!(world[2].grid_coords, GridCoords::new(1, 2));
    assert_eq!(events, vec![PushEvent { pusher: 0, direction: Direction::Up, pushed: vec![1] }]);
}

#[test]
fn static_blocks_stop_the_whole_chain() {
    let mut world = vec![
        entity(0, 0, 0, SokobanBlock::Dynamic, true),
        entity(1, 1, 0, SokobanBlock::Dynamic, true),
        entity(2, 2, 0, SokobanBlock::Static, false),
    ];
    let events = flush_sokoban_commands(&mut world, &vec![SokobanCommand::Move { entity: 0, direction: Direction::Right }]);
    assert_eq!(world[0].grid_coords, GridCoords::new(0, 0));
    assert_eq!(world[1].grid_coords, GridCoords::new(1, 0));
    assert!(events.is_empty());
}

#[test]
fn directions_add_and_convert() {
    assert_eq!(Direction::Up.add(Direction::Left), Direction::UpLeft);
    assert_eq!(Direction::Up.try_add(Direction::Down), Ok(Direction::Zero));
    assert_eq!(Direction::UpLeft.try_add(Direction::Left), Err(OutOfBoundsDirection));
    let mut d = Direction::Right;
    d.add_assign(Direction::Down);
    assert_eq!(d, Direction::DownRight);
    let v = Direction::DownLeft.to_ivec2();
    assert_eq!((v.x, v.y), (-1, -1));
    assert_eq!(Direction::try_from(&v), Ok(Direction::DownLeft));
    assert_eq!(Direction::Right.variant_index(), 8);
}

#[test]
fn arrow_blocks_read_their_identifier() {
    let up = ArrowBlock::<Row>::from_identifier("UpArrow");
    assert_eq!(up.direction, Direction::Up);
    let left = ArrowBlock::<Row>::from_identifier("Left");
    assert_eq!(left.direction, Direction::Left);
    let right = ArrowBlock::<Column>::from_identifier("ArrowRight");
    assert_eq!(right.direction, Direction::Right);

    let map = up.fold_direction_into(&GridCoords::new(3, 7), HashMap::default());
    let map = left.fold_direction_into(&GridCoords::new(9, 7), map);
    assert_eq!(map.get(&7), Some(&Direction::UpLeft));
    let map = right.fold_direction_into(&GridCoords::new(3, 7), map);
    assert_eq!(map.get(&3), Some(&Direction::Right));
    assert_eq!(MovementTile::new(Direction::Up, Direction::Down).tileset_index(), 24);
}

#[test]
fn checked_fold_refuses_sums_off_the_grid() {
    let up = ArrowBlock::<Row>::from_identifier("ArrowUp");
    let map = up.try_fold_direction_into(&GridCoords::new(0, 2), HashMap::default()).unwrap();
    assert_eq!(map.get(&2), Some(&Direction::Up));
    let map = up.try_fold_direction_into(&GridCoords::new(0, 2), map).unwrap_err();
    assert_eq!(map.get(&2), Some(&Direction::Up));
    assert_eq!(map.len(), 1);
}

#[test]
fn graves_read_their_identifier() {
    assert_eq!(GraveId::from_identifier("W"), GraveId::North);
    assert_eq!(GraveId::from_identifier("A"), GraveId::West);
    assert_eq!(GraveId::from_identifier("S"), GraveId::South);
    assert_eq!(GraveId::from_identifier("D"), GraveId::East);
}

#[test]
fn gravestone_bodies_favour_the_first() {
    assert_eq!(gravestone_body_weights(3), vec![9, 4, 1]);
    for _ in 0..50 {
        let i = choose_gravestone_body(2, 6);
        assert!((2..6).contains(&i));
    }
    assert_eq!(gravestone_body_at(2, 6, 0), 2);
    assert_eq!(gravestone_body_at(2, 6, 3), 5);
}

#[test]
fn grave_actions_start_moves_only_when_waiting() {
    let (state, command) = gravestone_input(WilloState::Waiting, &vec![GraveId::West]);
    assert_eq!(state, WilloState::RankMove(GraveId::West));
    assert_eq!(command, Some(HistoryCommands::Record));
    let (state, command) = gravestone_input(WilloState::Dead, &vec![GraveId::West]);
    assert_eq!((state, command), (WilloState::Dead, None));
}

#[test]
fn graveyard_actions_rewind_and_restart() {
    let none = GraveyardInput {
        undo_just_pressed: false,
        undo_pressed: false,
        restart_just_pressed: false,
        hold_timer_just_finished: false,
    };
    let (state, command, hold) =
        graveyard_input(WilloState::Dead, GraveyardInput { undo_just_pressed: true, undo_pressed: true, ..none });
    assert_eq!((state, command, hold), (WilloState::Waiting, Some(HistoryCommands::Rewind), RewindHold::Start));
    let (state, command, _) =
        graveyard_input(WilloState::Waiting, GraveyardInput { restart_just_pressed: true, ..none });
    assert_eq!((state, command), (WilloState::Waiting, Some(HistoryCommands::Reset)));
    let (_, command, hold) = graveyard_input(
        WilloState::Waiting,
        GraveyardInput { undo_pressed: true, hold_timer_just_finished: true, ..none },
    );
    assert_eq!((command, hold), (Some(HistoryCommands::Rewind), RewindHold::Continue));
}

#[test]
fn history_records_rewinds_and_resets() {
    let mut entries = vec![(History::new(), 1u32)];
    flush_history_commands(&mut entries, &vec![HistoryCommands::Record]);
    entries[0].1 = 2;
    flush_history_commands(&mut entries, &vec![HistoryCommands::Record]);
    entries[0].1 = 3;
    flush_history_commands(&mut entries, &vec![HistoryCommands::Rewind]);
    assert_eq!(entries[0].1, 2);
    assert_eq!(entries[0].0, History(vec![1]));
    entries[0].1 = 5;
    flush_history_commands(&mut entries, &vec![HistoryCommands::Reset]);
    assert_eq!(entries[0].1, 1);
    assert_eq!(entries[0].0, History(vec![1, 5]));
    flush_history_commands(&mut entries, &vec![HistoryCommands::Rewind]);
    assert_eq!(entries[0].1, 5);
}

fn tile_queries() -> GravestoneMovementQueries {
    GravestoneMovementQueries {
        gravestones: vec![Gravestone {
            grid_coords: GridCoords::new(4, 4),
            grave_id: GraveId::North,
            volatile: Volatile::Solid,
        }],
        movement_tiles: vec![PlacedMovementTile {
            grid_coords: GridCoords::new(4, 4),
            movement_tile: MovementTile::new(Direction::Up, Direction::Left),
        }],
    }
}

#[test]
fn willo_moves_by_rank_then_file() {
    let queries = tile_queries();
    let idle = WilloAnimationState::Idle(Direction::Down);
    let mut timer = MovementTimer::default();
    // the timer has not finished yet: nothing happens
    let waiting = move_willo_by_tiles(WilloState::RankMove(GraveId::North), idle, &queries, &mut timer, 100_000_000);
    assert_eq!(waiting, (None, WilloState::RankMove(GraveId::North), idle));
    let (d, state, animation) =
        move_willo_by_tiles(WilloState::RankMove(GraveId::North), idle, &queries, &mut timer, MOVEMENT_TIME);
    assert_eq!((d, state, animation), (Some(Direction::Up), WilloState::FileMove(GraveId::North), WilloAnimationState::Idle(Direction::Up)));
    // every step restarts the timer
    assert_eq!(timer.0.elapsed, 0);
    assert!(!timer.0.finished());
    let (d, state, _) = move_willo_by_tiles(state, animation, &queries, &mut timer, MOVEMENT_TIME);
    assert_eq!((d, state), (Some(Direction::Left), WilloState::Waiting));
}

#[test]
fn table_moves_willo_by_its_ranks_and_files() {
    // the table's cells lie right of and below its anchor
    let gravestones = vec![Gravestone {
        grid_coords: GridCoords::new(1 + 2, -1 - 1),
        grave_id: GraveId::East,
        volatile: Volatile::Solid,
    }];
    let table = movement_table_update(GridCoords::new(0, 0), &gravestones);
    assert_eq!(table.table[1][2], Some(GraveId::East));
    let idle = WilloAnimationState::Idle(Direction::Down);
    let mut timer = MovementTimer::default();
    let (moves, state, _) = move_willo_by_table(&table, WilloState::RankMove(GraveId::East), idle, &mut timer, MOVEMENT_TIME);
    assert_eq!((moves, state), (vec![Direction::Left], WilloState::FileMove(GraveId::East)));
    let (moves, _, _) = move_willo_by_table(&table, state, idle, &mut timer, 1);
    assert!(moves.is_empty());
    let (moves, state, _) = move_willo_by_table(&table, state, idle, &mut timer, MOVEMENT_TIME);
    assert_eq!((moves, state), (vec![Direction::Down], WilloState::Waiting));
}

#[test]
fn willo_animation_sugar() {
    let current = WilloAnimationState::Idle(Direction::Down);
    let events = vec![
        PushEvent { pusher: 3, direction: Direction::Left, pushed: vec![4] },
        PushEvent { pusher: 1, direction: Direction::Up, pushed: vec![5] },
    ];
    assert_eq!(push_sugar(1, &events, current), WilloAnimationState::Push(Direction::Up));
    assert_eq!(push_sugar(2, &events, current), current);
    assert_eq!(
        history_sugar(&vec![HistoryCommands::Rewind], WilloAnimationState::Push(Direction::Left)),
        WilloAnimationState::Idle(Direction::Down)
    );
    let (next, animation, index) = animation_finisher(WilloAnimationState::Push(Direction::Left));
    assert_eq!(next, WilloAnimationState::Idle(Direction::Left));
    assert_eq!((animation.start, animation.end, index), (60, 67, 60));
    assert_eq!(check_death(WilloState::Waiting, Volatile::Sublimated), (WilloState::Dead, Some(ExorcismEvent)));
    assert_eq!(check_death(WilloState::Dead, Volatile::Sublimated), (WilloState::Dead, None));
    assert_eq!(check_death(WilloState::Waiting, Volatile::Solid), (WilloState::Waiting, None));
}

#[test]
fn death_card_rises_and_falls_with_willo() {
    let mut last = WilloState::Waiting;
    let actions = spawn_death_card(
        &vec![WilloState::Dead, WilloState::Dead, WilloState::Waiting, WilloState::Waiting],
        &mut last,
    );
    assert_eq!(
        actions,
        vec![DeathCardAction::Spawn(death_card()), DeathCardAction::Keep, DeathCardAction::Despawn, DeathCardAction::Keep]
    );
    match actions[0] {
        DeathCardAction::Spawn(card) => {
            assert_eq!(card.text, "EXORCISED\n\nR to restart\nZ to undo");
            assert_eq!(card.rise_time, 600_000_000);
        }
        _ => panic!("the card should rise"),
    }
    assert_eq!(last, WilloState::Waiting);
}

#[test]
fn grass_sways_within_its_frames() {
    let mut timer = wind_timer();
    let mut index = 2;
    animate_grass(&mut timer, &mut index, 4, WIND_PERIOD / 2 + 1, GrassSway::Forward);
    assert_eq!(index, 2);
    animate_grass(&mut timer, &mut index, 4, WIND_PERIOD / 2 + 1, GrassSway::Forward);
    assert_eq!(index, 3);
    animate_grass(&mut timer, &mut index, 4, WIND_PERIOD, GrassSway::Forward);
    assert_eq!(index, 3);
    animate_grass(&mut timer, &mut index, 4, WIND_PERIOD, GrassSway::Back);
    assert_eq!(index, 2);
    let mut zero = 0;
    animate_grass(&mut timer, &mut zero, 4, WIND_PERIOD, GrassSway::Back);
    assert_eq!(zero, 0);
}

#[test]
fn key_controls_list_each_keys_arrows() {
    let mut table = [[None; 4]; 4];
    table[0][1] = Some(ControlKey::W);
    table[2][3] = Some(ControlKey::W);
    let rows = update_control_display(&table);
    assert_eq!(rows.len(), 6);
    assert_eq!(
        rows[0],
        vec![
            ControlNode::Image(ControlImage::Key(ControlKey::W)),
            ControlNode::Text("="),
            ControlNode::Image(ControlImage::Arrow(Direction::Up)),
            ControlNode::Image(ControlImage::Arrow(Direction::Left)),
            ControlNode::Image(ControlImage::Arrow(Direction::Down)),
            ControlNode::Image(ControlImage::Arrow(Direction::Right)),
        ]
    );
    assert_eq!(rows[1].len(), 2);
    assert_eq!(rows[4], vec![ControlNode::Text("R"), ControlNode::Text("="), ControlNode::Text("restart")]);
    assert_eq!(rows[5], vec![ControlNode::Text("Z"), ControlNode::Text("="), ControlNode::Text("undo")]);
}

#[test]
fn collision_map_answers_by_entity_and_by_place() {
    let entries = vec![
        (4, GridCoords::new(1, 1), SokobanBlock::new_static()),
        (5, GridCoords::new(1, 1), SokobanBlock::new_dynamic()),
        (6, GridCoords::new(2, 1), SokobanBlock::Dynamic),
    ];
    let map = EntityCollisionGeographicMap::from_entries(&entries);
    assert_eq!(map.get_coordinate(5), Some(GridCoords::new(1, 1)));
    assert_eq!(map.get_block(4), Some(SokobanBlock::Static));
    assert_eq!(map.get_coordinate_and_block(6), Some((GridCoords::new(2, 1), SokobanBlock::Dynamic)));
    assert_eq!(map.get_coordinate(7), None);
    let here = map.get_entities_at_coords(GridCoords::new(1, 1)).unwrap();
    assert!(here.contains(&4) && here.contains(&5) && here.len() == 2);
    assert!(map.get_entities_at_coords(GridCoords::new(0, 0)).map_or(true, |s| s.is_empty()));
}

#[test]
fn gravestone_body_and_key_icon() {
    let (body, icon) = spawn_gravestone_body(0, 11, &vec![InputBinding::Other, InputBinding::Key(32)]);
    assert!(body < 11);
    assert_eq!(icon, Some(32));
    let (_, icon) = spawn_gravestone_body(0, 11, &vec![InputBinding::Other]);
    assert_eq!(icon, None);
}

#[test]
fn exorcism_plays_the_dying_animation() {
    assert_eq!(play_exorcism_animation(), WilloAnimationState::Dying);
}
