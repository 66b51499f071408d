use willos_graveyard::grid::GridCoords;
use willos_graveyard::volatile::{sublimation, Volatile, VolatileEntity};

/// `n` volatiles stacked in a column, entity `i` at `(0, i)`.
fn stacked(volatiles: &[Volatile]) -> Vec<VolatileEntity> {
    volatiles
        .iter()
        .enumerate()
        .map(|(i, v)| VolatileEntity {
            entity: i as u64,
            grid_coords: GridCoords::new(0, i as i32),
            volatile: *v,
            moved: false,
        })
        .collect()
}

fn move_to(volatiles: &mut Vec<VolatileEntity>, i: usize, coords: GridCoords) {
    volatiles[i].grid_coords = coords;
    volatiles[i].moved = true;
}

#[test]
fn solid_moving_onto_solid_sublimates_both() {
    let mut volatiles = stacked(&[Volatile::Solid, Volatile::Solid]);
    assert!(volatiles.iter().all(|v| v.volatile == Volatile::Solid));

    let below = volatiles[0].grid_coords;
    move_to(&mut volatiles, 0, GridCoords::new(below.x, below.y + 1));
    sublimation(&mut volatiles);

    assert!(volatiles.iter().all(|v| v.volatile == Volatile::Sublimated));
}

#[test]
fn solid_moving_not_on_solid_doesnt_sublimate() {
    let mut volatiles = stacked(&[Volatile::Solid, Volatile::Solid]);

    let below = volatiles[0].grid_coords;
    move_to(&mut volatiles, 0, GridCoords::new(below.x, below.y - 1));
    sublimation(&mut volatiles);

    assert!(volatiles.iter().all(|v| v.volatile == Volatile::Solid));
}

#[test]
fn sublimated_moving_onto_solid_doesnt_sublimate() {
    let mut volatiles = stacked(&[Volatile::Sublimated, Volatile::Solid]);

    let below = volatiles[0].grid_coords;
    move_to(&mut volatiles, 0, GridCoords::new(below.x, below.y + 1));
    sublimation(&mut volatiles);

    assert_eq!(volatiles[0].volatile, Volatile::Sublimated);
    assert_eq!(volatiles[1].volatile, Volatile::Solid);
}

#[test]
fn solid_moving_onto_sublimated_doesnt_sublimate() {
    let mut volatiles = stacked(&[Volatile::Solid, Volatile::Sublimated]);

    let below = volatiles[0].grid_coords;
    move_to(&mut volatiles, 0, GridCoords::new(below.x, below.y + 1));
    sublimation(&mut volatiles);

    assert_eq!(volatiles[0].volatile, Volatile::Solid);
    assert_eq!(volatiles[1].volatile, Volatile::Sublimated);
}

#[test]
fn sublimated_moving_onto_sublimated_keeps_sublimated() {
    let mut volatiles = stacked(&[Volatile::Sublimated, Volatile::Sublimated]);

    let below = volatiles[0].grid_coords;
    move_to(&mut volatiles, 0, GridCoords::new(below.x, below.y + 1));
    sublimation(&mut volatiles);

    assert!(volatiles.iter().all(|v| v.volatile == Volatile::Sublimated));
}

#[test]
fn solids_moving_into_eachother_sublimates_both() {
    let mut volatiles = stacked(&[Volatile::Solid, Volatile::Solid]);

    move_to(&mut volatiles, 0, GridCoords::new(10, 10));
    move_to(&mut volatiles, 1, GridCoords::new(10, 10));
    sublimation(&mut volatiles);

    assert!(volatiles.iter().all(|v| v.volatile == Volatile::Sublimated));
}

#[test]
fn solid_and_sublimated_moving_into_eachother_doesnt_sublimate() {
    let mut volatiles = stacked(&[Volatile::Sublimated, Volatile::Solid]);

    move_to(&mut volatiles, 0, GridCoords::new(10, 10));
    move_to(&mut volatiles, 1, GridCoords::new(10, 10));
    sublimation(&mut volatiles);

    assert_eq!(volatiles[0].volatile, Volatile::Sublimated);
    assert_eq!(volatiles[1].volatile, Volatile::Solid);
}

#[test]
fn sublimateds_moving_eachother_keeps_sublimated() {
    let mut volatiles = stacked(&[Volatile::Sublimated, Volatile::Sublimated]);

    move_to(&mut volatiles, 0, GridCoords::new(10, 10));
    move_to(&mut volatiles, 1, GridCoords::new(10, 10));
    sublimation(&mut volatiles);

    assert!(volatiles.iter().all(|v| v.volatile == Volatile::Sublimated));
}

#[test]
fn solids_moving_onto_solid_sublimates_movers() {
    let mut volatiles = stacked(&[Volatile::Solid, Volatile::Solid, Volatile::Solid]);

    move_to(&mut volatiles, 0, GridCoords::new(0, 1));
    move_to(&mut volatiles, 2, GridCoords::new(0, 1));
    sublimation(&mut volatiles);

    assert_eq!(volatiles[0].volatile, Volatile::Sublimated);
    assert_eq!(volatiles[1].volatile, Volatile::Solid);
    assert_eq!(volatiles[2].volatile, Volatile::Sublimated);
}

#[test]
fn solid_and_sublimated_moving_onto_solid_sublimates_remaining() {
    let mut volatiles = stacked(&[Volatile::Sublimated, Volatile::Solid, Volatile::Solid]);

    move_to(&mut volatiles, 0, GridCoords::new(0, 1));
    move_to(&mut volatiles, 2, GridCoords::new(0, 1));
    sublimation(&mut volatiles);

    assert!(volatiles.iter().all(|v| v.volatile == Volatile::Sublimated));
}

#[test]
fn lone_solid_stays_solid() {
    let mut volatiles = stacked(&[Volatile::Solid, Volatile::Solid]);

    move_to(&mut volatiles, 1, GridCoords::new(5, 5));
    sublimation(&mut volatiles);

    assert!(volatiles.iter().all(|v| v.volatile == Volatile::Solid));
}

#[test]
fn volatile_helpers() {
    let mut v = Volatile::default();
    assert!(v.is_solid());
    v.sublimate();
    assert!(!v.is_solid());
    assert_eq!(v, Volatile::Sublimated);
}
