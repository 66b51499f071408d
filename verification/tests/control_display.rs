use willos_graveyard::arrow_block::MovementTile;
use willos_graveyard::control_display::{
    spawn_control_display, update_grave_action_buttons, ControlAction, ControlButton,
    ControlDisplayAssets,
};
use willos_graveyard::gravestone::{
    GraveId, Gravestone, GravestoneMovementQueries, PlacedMovementTile,
};
use willos_graveyard::graveyard::GraveyardAction;
use willos_graveyard::grid::GridCoords;
use willos_graveyard::sokoban::Direction;
use willos_graveyard::ui::{IconButton, UiAtlasImage};
use willos_graveyard::volatile::Volatile;

fn asset_setup() -> ControlDisplayAssets {
    ControlDisplayAssets {
        movement_table_actions_layout: 1,
        movement_table_actions: 2,
        graveyard_actions_layout: 3,
        graveyard_actions: 4,
    }
}

fn hash_movement_to_grid_coords(movement_tile: &MovementTile) -> GridCoords {
    GridCoords::new(
        9 - movement_tile.row_move().variant_index() as i32,
        movement_tile.column_move().variant_index() as i32,
    )
}

/// A gravestone of `grave_id` standing on a movement tile.
fn pair(queries: &mut GravestoneMovementQueries, grave_id: GraveId, tile: MovementTile) {
    queries.gravestones.push(Gravestone {
        grid_coords: hash_movement_to_grid_coords(&tile),
        grave_id,
        volatile: Volatile::Solid,
    });
    queries.movement_tiles.push(PlacedMovementTile {
        grid_coords: hash_movement_to_grid_coords(&tile),
        movement_tile: tile,
    });
}

fn new_valid() -> GravestoneMovementQueries {
    let mut queries = GravestoneMovementQueries { gravestones: vec![], movement_tiles: vec![] };
    pair(&mut queries, GraveId::Northwest, MovementTile::new(Direction::Up, Direction::Left));
    pair(&mut queries, GraveId::North, MovementTile::new(Direction::Up, Direction::Up));
    pair(&mut queries, GraveId::Northeast, MovementTile::new(Direction::Up, Direction::Right));
    pair(&mut queries, GraveId::West, MovementTile::new(Direction::Left, Direction::Left));
    pair(&mut queries, GraveId::South, MovementTile::new(Direction::Down, Direction::Down));
    pair(&mut queries, GraveId::East, MovementTile::new(Direction::Right, Direction::Right));
    queries
}

fn get_icon_button_for_action(buttons: &[ControlButton], action: ControlAction) -> IconButton {
    buttons.iter().find(|b| b.action == action).map(|b| b.icon).unwrap()
}

fn movement_icon(assets: &ControlDisplayAssets, index: usize) -> IconButton {
    IconButton::AtlasImageIcon(UiAtlasImage {
        image: assets.movement_table_actions,
        texture_atlas: assets.movement_table_actions_layout,
        index,
    })
}

fn graveyard_icon(assets: &ControlDisplayAssets, index: usize) -> IconButton {
    IconButton::AtlasImageIcon(UiAtlasImage {
        image: assets.graveyard_actions,
        texture_atlas: assets.graveyard_actions_layout,
        index,
    })
}

#[test]
fn plugin_spawns_all_buttons() {
    let assets = asset_setup();
    let queries = new_valid();
    let mut buttons = spawn_control_display(&mut false, &assets);
    update_grave_action_buttons(&queries, &mut buttons, &assets);

    let grave = |g| get_icon_button_for_action(&buttons, ControlAction::Grave(g));
    assert_eq!(grave(GraveId::Northwest), movement_icon(&assets, 22));
    assert_eq!(grave(GraveId::North), movement_icon(&assets, 20));
    assert_eq!(grave(GraveId::Northeast), movement_icon(&assets, 26));
    assert_eq!(grave(GraveId::West), movement_icon(&assets, 40));
    assert_eq!(grave(GraveId::South), movement_icon(&assets, 60));
    assert_eq!(grave(GraveId::East), movement_icon(&assets, 80));

    let graveyard = |a| get_icon_button_for_action(&buttons, ControlAction::Graveyard(a));
    assert_eq!(graveyard(GraveyardAction::Undo), graveyard_icon(&assets, 0));
    assert_eq!(graveyard(GraveyardAction::Restart), graveyard_icon(&assets, 1));
    assert_eq!(graveyard(GraveyardAction::Pause), graveyard_icon(&assets, 2));
}

#[test]
fn grave_id_buttons_change_according_to_movement_table() {
    let assets = asset_setup();
    let mut queries = new_valid();
    let mut buttons = spawn_control_display(&mut false, &assets);
    update_grave_action_buttons(&queries, &mut buttons, &assets);

    // check initial values of a couple buttons
    assert_eq!(
        get_icon_button_for_action(&buttons, ControlAction::Grave(GraveId::North)),
        movement_icon(&assets, 20)
    );
    assert_eq!(
        get_icon_button_for_action(&buttons, ControlAction::Grave(GraveId::West)),
        movement_icon(&assets, 40)
    );

    // change the movement table and check those buttons again
    let target_movement_tile = MovementTile::new(Direction::Up, Direction::Down);
    let north = queries.gravestones.iter().position(|g| g.grave_id == GraveId::North).unwrap();
    queries.gravestones[north].grid_coords = hash_movement_to_grid_coords(&target_movement_tile);
    queries.movement_tiles.push(PlacedMovementTile {
        grid_coords: hash_movement_to_grid_coords(&target_movement_tile),
        movement_tile: target_movement_tile,
    });
    queries.gravestones.retain(|g| g.grave_id != GraveId::West);

    update_grave_action_buttons(&queries, &mut buttons, &assets);

    assert_eq!(
        get_icon_button_for_action(&buttons, ControlAction::Grave(GraveId::North)),
        movement_icon(&assets, 24)
    );
    assert_eq!(
        get_icon_button_for_action(&buttons, ControlAction::Grave(GraveId::West)),
        IconButton::NoIcon
    );
}

#[test]
fn fresh_control_display_has_no_grave_icons() {
    let assets = asset_setup();
    let buttons = spawn_control_display(&mut false, &assets);
    assert_eq!(buttons.len(), 9);
    assert!(buttons[..6].iter().all(|b| b.icon == IconButton::NoIcon));
}

#[test]
fn control_display_spawns_only_once() {
    let assets = asset_setup();
    let mut spawned = false;
    assert_eq!(spawn_control_display(&mut spawned, &assets).len(), 9);
    assert!(spawned);
    assert!(spawn_control_display(&mut spawned, &assets).is_empty());
}
