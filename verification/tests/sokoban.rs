use willos_graveyard::collision::{flush_sokoban_commands, SokobanEntity};
use willos_graveyard::collision_grid::{self, push_grid_coords_recursively};
use willos_graveyard::grid::{GridCoords, IVec2};
use willos_graveyard::sokoban::{Direction, PushEvent, SokobanBlock, SokobanCommands};

#[test]
fn push_dynamic_into_empty() {
    let pusher: u64 = 0;

    let mut collision_map = vec![vec![None; 3]; 3];
    collision_map[1][1] = Some((pusher, SokobanBlock::Dynamic));

    let mut expected_collision_map = vec![vec![None; 3]; 3];
    expected_collision_map[2][1] = Some((pusher, SokobanBlock::Dynamic));

    assert_eq!(
        push_grid_coords_recursively(collision_map, IVec2::new(1, 1), Direction::Up),
        (expected_collision_map, Some(vec![pusher]))
    );
}

#[test]
fn push_dynamic_into_static() {
    let pusher: u64 = 0;
    let wall: u64 = 1;

    let mut collision_map = vec![vec![None; 3]; 3];
    collision_map[2][1] = Some((pusher, SokobanBlock::Dynamic));
    collision_map[1][1] = Some((wall, SokobanBlock::Static));

    assert_eq!(
        push_grid_coords_recursively(collision_map.clone(), IVec2::new(1, 2), Direction::Down),
        (collision_map, None)
    );
}

#[test]
fn push_dynamic_into_boundary() {
    let pusher: u64 = 0;

    let mut collision_map = vec![vec![None; 3]; 3];
    collision_map[0][0] = Some((pusher, SokobanBlock::Dynamic));

    assert_eq!(
        push_grid_coords_recursively(collision_map.clone(), IVec2::new(0, 0), Direction::Left),
        (collision_map, None)
    );
}

#[test]
fn push_dynamic_into_dynamic_into_empty() {
    let pusher: u64 = 0;
    let pushed: u64 = 1;

    let mut collision_map = vec![vec![None; 3]; 3];
    collision_map[1][0] = Some((pusher, SokobanBlock::Dynamic));
    collision_map[1][1] = Some((pushed, SokobanBlock::Dynamic));

    let mut expected_collision_map = vec![vec![None; 3]; 3];
    expected_collision_map[1][1] = Some((pusher, SokobanBlock::Dynamic));
    expected_collision_map[1][2] = Some((pushed, SokobanBlock::Dynamic));

    assert_eq!(
        push_grid_coords_recursively(collision_map, IVec2::new(0, 1), Direction::Right),
        (expected_collision_map, Some(vec![pushed, pusher]))
    );
}

#[test]
fn push_dynamic_into_dynamic_into_static() {
    let pusher: u64 = 0;
    let pushed: u64 = 1;
    let wall: u64 = 2;

    let mut collision_map = vec![vec![None; 3]; 3];
    collision_map[2][0] = Some((pusher, SokobanBlock::Dynamic));
    collision_map[2][1] = Some((pushed, SokobanBlock::Dynamic));
    collision_map[2][2] = Some((wall, SokobanBlock::Static));

    assert_eq!(
        push_grid_coords_recursively(collision_map.clone(), IVec2::new(0, 2), Direction::Right),
        (collision_map, None)
    );
}

#[test]
fn push_dynamic_into_dynamic_into_boundary() {
    let pusher: u64 = 0;
    let pushed: u64 = 1;

    let mut collision_map = vec![vec![None; 3]; 3];
    collision_map[1][1] = Some((pusher, SokobanBlock::Dynamic));
    collision_map[2][1] = Some((pushed, SokobanBlock::Dynamic));

    assert_eq!(
        push_grid_coords_recursively(collision_map.clone(), IVec2::new(1, 1), Direction::Up),
        (collision_map, None)
    );
}

fn block(entity: u64, x: i32, y: i32, push_tracker: bool) -> SokobanEntity {
    SokobanEntity {
        entity,
        grid_coords: GridCoords::new(x, y),
        block: SokobanBlock::Dynamic,
        push_tracker,
    }
}

#[test]
fn push_with_sokoban_commands() {
    let (block_a, block_b, block_c): (u64, u64, u64) = (0, 1, 2);
    let mut world = vec![
        block(block_a, 1, 1, false),
        block(block_b, 1, 2, false),
        block(block_c, 2, 2, false),
    ];

    let mut commands = SokobanCommands::new();
    commands.move_block(block_a, Direction::Up);
    commands.move_block(block_c, Direction::Left);

    flush_sokoban_commands(&mut world, &commands.commands);

    assert_eq!(world[0].grid_coords, GridCoords::new(0, 2));
    assert_eq!(world[1].grid_coords, GridCoords::new(1, 3));
    assert_eq!(world[2].grid_coords, GridCoords::new(1, 2));
}

#[test]
fn push_tracker_sends_events() {
    let (block_a, block_b, block_c): (u64, u64, u64) = (0, 1, 2);
    let mut world = vec![
        block(block_a, 1, 1, true),
        block(block_b, 1, 2, false),
        block(block_c, 2, 2, false),
    ];

    let mut commands = SokobanCommands::new();
    commands.move_block(block_a, Direction::Up);
    commands.move_block(block_c, Direction::Left);

    let events = flush_sokoban_commands(&mut world, &commands.commands);

    assert_eq!(events.len(), 1);
    assert_eq!(
        events[0],
        PushEvent {
            pusher: block_a,
            direction: Direction::Up,
            pushed: vec![block_b],
        }
    );
}

#[test]
fn grid_push_with_sokoban_commands() {
    let mut world = vec![block(0, 1, 1, false), block(1, 1, 2, false), block(2, 2, 2, false)];
    let mut commands = SokobanCommands::new();
    commands.move_block(0, Direction::Up);
    commands.move_block(2, Direction::Left);
    let events = collision_grid::flush_sokoban_commands(&mut world, 3, 4, &commands.commands);
    assert_eq!(world[0].grid_coords, GridCoords::new(0, 2));
    assert_eq!(world[1].grid_coords, GridCoords::new(1, 3));
    assert_eq!(world[2].grid_coords, GridCoords::new(1, 2));
    assert!(events.is_empty());
}

#[test]
fn grid_push_tracker_sends_events() {
    let mut world = vec![block(0, 1, 1, true), block(1, 1, 2, false), block(2, 2, 2, false)];
    let mut commands = SokobanCommands::new();
    commands.move_block(0, Direction::Up);
    commands.move_block(2, Direction::Left);
    let events = collision_grid::flush_sokoban_commands(&mut world, 3, 4, &commands.commands);
    assert_eq!(events, vec![PushEvent { pusher: 0, direction: Direction::Up, pushed: vec![1] }]);
}

#[test]
fn static_block_neither_moves_nor_pushes() {
    let mut world = vec![
        SokobanEntity { entity: 0, grid_coords: GridCoords::new(0, 0), block: SokobanBlock::Static, push_tracker: true },
        block(1, 1, 0, false),
        SokobanEntity { entity: 2, grid_coords: GridCoords::new(0, 2), block: SokobanBlock::Static, push_tracker: true },
    ];
    let mut commands = SokobanCommands::new();
    commands.move_block(0, Direction::Right);
    commands.move_block(2, Direction::Up);
    let events = flush_sokoban_commands(&mut world, &commands.commands);
    assert_eq!(world[0].grid_coords, GridCoords::new(0, 0));
    assert_eq!(world[1].grid_coords, GridCoords::new(1, 0));
    assert_eq!(world[2].grid_coords, GridCoords::new(0, 2));
    assert!(events.is_empty());
}

#[test]
fn push_events_list_the_whole_chain_in_world_order() {
    let mut world = vec![block(7, 3, 0, false), block(5, 2, 0, true), block(9, 1, 0, true)];
    let mut commands = SokobanCommands::new();
    commands.move_block(9, Direction::Right);
    let events = flush_sokoban_commands(&mut world, &commands.commands);
    assert_eq!(world[0].grid_coords, GridCoords::new(4, 0));
    assert_eq!(world[1].grid_coords, GridCoords::new(3, 0));
    assert_eq!(world[2].grid_coords, GridCoords::new(2, 0));
    assert_eq!(
        events,
        vec![
            PushEvent { pusher: 5, direction: Direction::Right, pushed: vec![7] },
            PushEvent { pusher: 9, direction: Direction::Right, pushed: vec![7, 5] },
        ]
    );
}
