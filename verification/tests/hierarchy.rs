use spacelab::cargo::{CargoError, Item};
use spacelab::hierarchy::{
    BodyKind, BodyState, Docking, Flight, HoldError, MovementMode, SpawnError, World,
};
use spacelab::space::{Point, Velocity};

fn flight_of(world: &World, id: usize) -> Flight {
    match world.state(id).expect("a body").kind {
        BodyKind::Vessel(f) => f,
        other => panic!("not a vessel: {:?}", other),
    }
}

#[test]
fn new_world_has_nothing() {
    let world = World::new();
    assert_eq!(world.len(), 0);
    assert_eq!(world.primary(), None);
    assert_eq!(world.pending(), 0);
    assert_eq!(world.state(0), None);
    assert_eq!(world.name(0), None);
}

#[test]
fn solar_system_is_star_planet_station() {
    let mut world = World::new();
    let (star, planet, station) = world.spawn_solar_system();
    assert_eq!((star, planet, station), (0, 1, 2));
    assert_eq!(world.len(), 3);
    assert_eq!(world.name(star), Some("Sol"));
    assert_eq!(world.name(planet), Some("Earth"));
    assert_eq!(world.name(station), Some("ISS"));
    assert_eq!(
        world.state(star),
        Some(BodyState {
            kind: BodyKind::Star,
            parent: None,
            speed: 0,
            bearing: 0,
            facing: 0,
            position: Point { x: 0, y: 0 },
        })
    );
    assert_eq!(
        world.state(planet),
        Some(BodyState {
            kind: BodyKind::Planet,
            parent: Some(star),
            speed: 1_000,
            bearing: 0,
            facing: 0,
            position: Point { x: 100_000_000, y: 0 },
        })
    );
    assert_eq!(
        world.state(station),
        Some(BodyState {
            kind: BodyKind::Station,
            parent: Some(planet),
            speed: 10_000,
            bearing: 0,
            facing: 0,
            position: Point { x: 125_000_000, y: 0 },
        })
    );
    assert_eq!(world.primary(), None);
}

#[test]
fn solar_system_can_follow_other_bodies() {
    let mut world = World::new();
    let ship = world.spawn_ship();
    let (star, planet, station) = world.spawn_solar_system();
    assert_eq!((ship, star, planet, station), (0, 1, 2, 3));
    assert_eq!(world.state(planet).unwrap().parent, Some(1));
    assert_eq!(world.state(station).unwrap().parent, Some(2));
}

#[test]
fn ship_starts_free_at_rest_and_primary() {
    let mut world = World::new();
    world.spawn_solar_system();
    let ship = world.spawn_ship();
    assert_eq!(ship, 3);
    assert_eq!(world.name(ship), Some("Ship"));
    assert_eq!(world.primary(), Some(ship));
    let state = world.state(ship).unwrap();
    assert_eq!(state.parent, None);
    assert_eq!(state.speed, 0);
    assert_eq!(state.bearing, 0);
    assert_eq!(state.facing, 0);
    assert_eq!(state.position, Point { x: 50_000_000, y: 0 });
    assert_eq!(
        flight_of(&world, ship),
        Flight {
            docking: Docking::Undocked,
            mode: MovementMode::PhysicsDriven,
            velocity: Velocity { x: 0, y: 0 },
        }
    );
    assert_eq!(world.manifest(ship), Some(vec![]));
}

#[test]
fn only_the_first_vessel_is_primary() {
    let mut world = World::new();
    let first = world.spawn_vessel("First", Point::new(1, 2));
    let second = world.spawn_vessel("Second", Point::new(3, 4));
    assert_eq!(world.primary(), Some(first));
    assert_ne!(first, second);
    assert_eq!(world.state(second).unwrap().position, Point { x: 3, y: 4 });
}

#[test]
fn spawn_body_refuses_a_vessel_kind() {
    let mut world = World::new();
    let flight = Flight {
        docking: Docking::Undocked,
        mode: MovementMode::PhysicsDriven,
        velocity: Velocity::zero(),
    };
    assert_eq!(
        world.spawn_body("Rogue", BodyKind::Vessel(flight), None, 0, Point::origin()),
        Err(SpawnError::NotCelestial)
    );
    assert_eq!(world.len(), 0);
}

#[test]
fn spawn_body_refuses_a_missing_parent() {
    let mut world = World::new();
    assert_eq!(
        world.spawn_body("Moon", BodyKind::Planet, Some(0), 5, Point::origin()),
        Err(SpawnError::NoSuchParent)
    );
    let star = world.spawn_body("Sun", BodyKind::Star, None, 0, Point::origin());
    assert_eq!(star, Ok(0));
    assert_eq!(
        world.spawn_body("Moon", BodyKind::Planet, Some(1), 5, Point::origin()),
        Err(SpawnError::NoSuchParent)
    );
    assert_eq!(world.len(), 1);
}

#[test]
fn spawn_body_refuses_a_vessel_as_parent() {
    let mut world = World::new();
    let ship = world.spawn_ship();
    assert_eq!(
        world.spawn_body("Pod", BodyKind::Station, Some(ship), 0, Point::origin()),
        Err(SpawnError::ParentIsVessel)
    );
    assert_eq!(world.len(), 1);
}

#[test]
fn spawn_body_takes_a_negative_speed() {
    let mut world = World::new();
    let star = world.spawn_body("Sun", BodyKind::Star, None, 0, Point::origin()).unwrap();
    let moon = world
        .spawn_body("Moon", BodyKind::Planet, Some(star), -250, Point::new(-7, 9))
        .unwrap();
    let state = world.state(moon).unwrap();
    assert_eq!(state.speed, -250);
    assert_eq!(state.parent, Some(star));
    assert_eq!(state.position, Point { x: -7, y: 9 });
}

#[test]
fn set_position_moves_one_body() {
    let mut world = World::new();
    let (star, planet, _) = world.spawn_solar_system();
    assert!(world.set_position(planet, Point::new(-3, 4)));
    assert_eq!(world.state(planet).unwrap().position, Point { x: -3, y: 4 });
    assert_eq!(world.state(star).unwrap().position, Point { x: 0, y: 0 });
    assert!(!world.set_position(17, Point::new(1, 1)));
}

#[test]
fn set_velocity_is_for_vessels() {
    let mut world = World::new();
    let (star, _, _) = world.spawn_solar_system();
    let ship = world.spawn_ship();
    assert!(world.set_velocity(ship, Velocity { x: 12, y: -5 }));
    assert_eq!(flight_of(&world, ship).velocity, Velocity { x: 12, y: -5 });
    assert!(!world.set_velocity(star, Velocity { x: 1, y: 1 }));
    assert!(!world.set_velocity(99, Velocity { x: 1, y: 1 }));
}

#[test]
fn orbit_center_is_the_parent_or_the_origin() {
    let mut world = World::new();
    let (star, planet, station) = world.spawn_solar_system();
    assert!(world.set_position(star, Point::new(5, 6)));
    assert_eq!(world.orbit_center(star), Some(Point { x: 0, y: 0 }));
    assert_eq!(world.orbit_center(planet), Some(Point { x: 5, y: 6 }));
    assert_eq!(world.orbit_center(station), Some(Point { x: 100_000_000, y: 0 }));
    assert_eq!(world.orbit_center(3), None);
}

#[test]
fn cargo_goes_through_the_world() {
    let mut world = World::new();
    let (star, _, _) = world.spawn_solar_system();
    let ship = world.spawn_ship();
    let ore = || Item::new("Iron Ore", "Some iron ore");
    assert_eq!(world.store(ship, ore(), 1), Ok(()));
    assert_eq!(world.store(ship, ore(), 1), Ok(()));
    assert_eq!(world.remove(ship, ore(), 1), Ok(()));
    assert_eq!(world.quantity(ship, &ore()), Some(1));
    assert_eq!(world.manifest(ship), Some(vec![(ore(), 1)]));
    assert_eq!(
        world.remove(ship, ore(), 2),
        Err(HoldError::Cargo(CargoError::InsufficientQuantity { held: 1 }))
    );
    assert_eq!(world.quantity(ship, &ore()), Some(0));
    assert_eq!(world.store(ship, ore(), u64::MAX), Ok(()));
    assert_eq!(
        world.store(ship, ore(), 1),
        Err(HoldError::Cargo(CargoError::QuantityOverflow))
    );
    assert_eq!(world.store(star, ore(), 1), Err(HoldError::NoSuchVessel));
    assert_eq!(world.remove(star, ore(), 1), Err(HoldError::NoSuchVessel));
    assert_eq!(world.store(42, ore(), 1), Err(HoldError::NoSuchVessel));
    assert_eq!(world.remove(42, ore(), 0), Err(HoldError::NoSuchVessel));
    assert_eq!(world.quantity(star, &ore()), None);
    assert_eq!(world.manifest(star), None);
}

#[test]
fn each_vessel_has_its_own_hold() {
    let mut world = World::new();
    let first = world.spawn_vessel("First", Point::origin());
    let second = world.spawn_vessel("Second", Point::origin());
    let ore = || Item::new("Iron Ore", "Some iron ore");
    assert_eq!(world.store(first, ore(), 3), Ok(()));
    assert_eq!(world.quantity(first, &ore()), Some(3));
    assert_eq!(world.quantity(second, &ore()), Some(0));
}

#[test]
fn bodies_are_found_by_name() {
    let mut world = World::new();
    world.spawn_solar_system();
    let ship = world.spawn_ship();
    let twin = world.spawn_vessel("Ship", Point::new(1, 1));
    assert_eq!(world.find("Sol"), Some(0));
    assert_eq!(world.find("Earth"), Some(1));
    assert_eq!(world.find("ISS"), Some(2));
    assert_eq!(world.find("Ship"), Some(ship));
    assert_ne!(world.find("Ship"), Some(twin));
    assert_eq!(world.find("Mars"), None);
    assert_eq!(world.find(""), None);
    assert_eq!(World::new().find("Sol"), None);
}

#[test]
fn traversal_order_puts_parents_first() {
    let mut world = World::new();
    let early = world.spawn_vessel("Early", Point::origin());
    let (star, planet, station) = world.spawn_solar_system();
    let late = world.spawn_vessel("Late", Point::new(124_000_000, 0));
    assert_eq!(world.traversal_order(), vec![star, planet, station, early, late]);
    assert_eq!(world.dock(late), spacelab::docking::DockOutcome::Docked(station));
    let order = world.traversal_order();
    assert_eq!(order, vec![star, planet, station, early, late]);
    for (k, id) in order.iter().enumerate() {
        if let Some(parent) = world.state(*id).unwrap().parent {
            assert!(order[..k].contains(&parent));
        }
    }
    assert!(World::new().traversal_order().is_empty());
}
