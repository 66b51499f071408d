use willos_graveyard::grid::GridCoords;
use willos_graveyard::layer::{GraveyardLayer, LayerEntityDoesNotExist};
use willos_graveyard::out_of_bounds::spawn_level_boundaries;

#[test]
fn walls_ring_the_level() {
    // a level of 2 by 1 tiles of 32 pixels
    let walls = spawn_level_boundaries(64, 32);
    assert_eq!(
        walls,
        vec![
            GridCoords::new(-1, -1),
            GridCoords::new(-1, 1),
            GridCoords::new(0, -1),
            GridCoords::new(0, 1),
            GridCoords::new(1, -1),
            GridCoords::new(1, 1),
            GridCoords::new(2, -1),
            GridCoords::new(2, 1),
            GridCoords::new(-1, 0),
            GridCoords::new(2, 0),
        ]
    );
}

#[test]
fn partial_tiles_round_towards_zero() {
    assert_eq!(spawn_level_boundaries(95, 31).len(), spawn_level_boundaries(64, 0).len());
    assert_eq!(spawn_level_boundaries(-31, -31), spawn_level_boundaries(0, 0));
    assert_eq!(spawn_level_boundaries(0, 0).len(), 4);
    // a level narrower than nothing gets no bottom or top wall
    assert_eq!(spawn_level_boundaries(-96, 32), vec![GridCoords::new(-1, 0), GridCoords::new(-3, 0)]);
    assert_eq!(spawn_level_boundaries(i32::MIN, 0).len(), 0);
}

#[test]
fn layer_identifiers() {
    assert_eq!(GraveyardLayer::Background.as_identifier(), "Background");
    assert_eq!(GraveyardLayer::BorderBackground.as_identifier(), "BorderBG");
    assert_eq!(GraveyardLayer::BackgroundEntities.as_identifier(), "Background_Entities");
    assert_eq!(GraveyardLayer::IntGrid.as_identifier(), "IntGrid");
    assert_eq!(GraveyardLayer::Entities.as_identifier(), "Entities");
    assert_eq!(GraveyardLayer::Foreground.as_identifier(), "ForeGround");
}

#[test]
fn layer_entity_is_found_by_identifier() {
    let layers = vec![
        (1, "IntGrid".to_string()),
        (2, "Entities".to_string()),
        (3, "Entities".to_string()),
    ];
    assert_eq!(GraveyardLayer::Entities.spawn_bundles_on(&layers), Ok(2));
    assert_eq!(GraveyardLayer::IntGrid.spawn_bundles_on(&layers), Ok(1));
    assert_eq!(
        GraveyardLayer::Foreground.spawn_bundles_on(&layers),
        Err(LayerEntityDoesNotExist(GraveyardLayer::Foreground))
    );
}
