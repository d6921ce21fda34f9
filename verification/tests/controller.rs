use spacelab::controller::{
    steer, Action, ActionSet, ActionState, ControlError, ROTATE_STEP, STRAFE_GAIN, THRUST_GAIN,
};
use spacelab::docking::DockOutcome;
use spacelab::hierarchy::{BodyKind, BodyState, Docking, Flight, MovementMode, World};
use spacelab::space::{add_scaled, damp, Heading, Point, Velocity, TURN};
use spacelab::ui::UiState;

fn flight_of(world: &World, id: usize) -> Flight {
    match world.state(id).expect("a body").kind {
        BodyKind::Vessel(f) => f,
        other => panic!("not a vessel: {:?}", other),
    }
}

fn holding(set: ActionSet) -> ActionState {
    ActionState { held: set, fresh: ActionSet::default() }
}

fn pressing(set: ActionSet) -> ActionState {
    ActionState { held: ActionSet::default(), fresh: set }
}

fn world_with_ship() -> (World, usize) {
    let mut world = World::new();
    world.spawn_solar_system();
    let ship = world.spawn_ship();
    (world, ship)
}

#[test]
fn the_constants_of_the_controller() {
    assert_eq!(THRUST_GAIN, 100);
    assert_eq!(STRAFE_GAIN, 10);
    assert_eq!(ROTATE_STEP, 31_416);
}

#[test]
fn action_state_answers_for_each_action() {
    let state = ActionState {
        held: ActionSet { thrust: true, left: true, ..ActionSet::default() },
        fresh: ActionSet { dock: true, ..ActionSet::default() },
    };
    assert!(state.pressed(Action::Thrust));
    assert!(state.pressed(Action::Left));
    assert!(!state.pressed(Action::Brake));
    assert!(!state.pressed(Action::RotateLeft));
    assert!(!state.pressed(Action::RotateRight));
    assert!(!state.pressed(Action::Right));
    assert!(!state.pressed(Action::Dock));
    assert!(!state.pressed(Action::Cargo));
    assert!(state.just_pressed(Action::Dock));
    assert!(!state.just_pressed(Action::Thrust));
    assert!(!state.just_pressed(Action::Cargo));
    let all = ActionSet {
        thrust: true,
        brake: true,
        rotate_left: true,
        rotate_right: true,
        left: true,
        right: true,
        dock: true,
        cargo: true,
    };
    for action in [
        Action::Thrust,
        Action::Brake,
        Action::RotateLeft,
        Action::RotateRight,
        Action::Left,
        Action::Right,
        Action::Dock,
        Action::Cargo,
    ] {
        assert!(all.contains(action));
        assert!(!ActionSet::default().contains(action));
    }
}

#[test]
fn thrust_adds_a_tenth_of_the_heading() {
    let (mut world, ship) = world_with_ship();
    let mut ui = UiState::new();
    let thrust = holding(ActionSet { thrust: true, ..ActionSet::default() });
    assert_eq!(world.handle_actions(&mut ui, ship, &thrust, Heading::new(0, 1_000)), Ok(()));
    assert_eq!(flight_of(&world, ship).velocity, Velocity { x: 0, y: 100_000 });
    assert_eq!(world.handle_actions(&mut ui, ship, &thrust, Heading::new(0, 1_000)), Ok(()));
    assert_eq!(flight_of(&world, ship).velocity, Velocity { x: 0, y: 200_000 });
    assert_eq!(world.handle_actions(&mut ui, ship, &thrust, Heading::new(-600, 800)), Ok(()));
    assert_eq!(flight_of(&world, ship).velocity, Velocity { x: -60_000, y: 280_000 });
}

#[test]
fn strafing_adds_a_hundredth_sideways() {
    let (mut world, ship) = world_with_ship();
    let mut ui = UiState::new();
    let left = holding(ActionSet { left: true, ..ActionSet::default() });
    let right = holding(ActionSet { right: true, ..ActionSet::default() });
    assert_eq!(world.handle_actions(&mut ui, ship, &left, Heading::new(0, 1_000)), Ok(()));
    assert_eq!(flight_of(&world, ship).velocity, Velocity { x: -10_000, y: 0 });
    assert_eq!(world.handle_actions(&mut ui, ship, &right, Heading::new(0, 1_000)), Ok(()));
    assert_eq!(flight_of(&world, ship).velocity, Velocity { x: 0, y: 0 });
    assert_eq!(world.handle_actions(&mut ui, ship, &right, Heading::new(600, 800)), Ok(()));
    assert_eq!(flight_of(&world, ship).velocity, Velocity { x: 8_000, y: -6_000 });
    assert_eq!(world.handle_actions(&mut ui, ship, &left, Heading::new(1_000, 0)), Ok(()));
    assert_eq!(flight_of(&world, ship).velocity, Velocity { x: 8_000, y: 4_000 });
}

#[test]
fn brake_scales_to_ninety_five_percent() {
    let (mut world, ship) = world_with_ship();
    let mut ui = UiState::new();
    assert!(world.set_velocity(ship, Velocity { x: 1_000_000, y: -2_000_000 }));
    let brake = holding(ActionSet { brake: true, ..ActionSet::default() });
    assert_eq!(world.handle_actions(&mut ui, ship, &brake, Heading::new(0, 1_000)), Ok(()));
    assert_eq!(flight_of(&world, ship).velocity, Velocity { x: 950_000, y: -1_900_000 });
    assert_eq!(world.handle_actions(&mut ui, ship, &brake, Heading::new(0, 1_000)), Ok(()));
    assert_eq!(flight_of(&world, ship).velocity, Velocity { x: 902_500, y: -1_805_000 });
}

#[test]
fn damp_rounds_towards_zero() {
    assert_eq!(damp(0), 0);
    assert_eq!(damp(1), 0);
    assert_eq!(damp(-1), 0);
    assert_eq!(damp(20), 19);
    assert_eq!(damp(-20), -19);
    assert_eq!(damp(21), 19);
    assert_eq!(damp(-21), -19);
    assert_eq!(damp(39), 37);
    assert_eq!(damp(-39), -37);
    assert_eq!(damp(1_000_001), 950_000);
    assert_eq!(damp(-1_000_001), -950_000);
    assert_eq!(damp(i64::MAX), 8_762_203_435_012_037_016);
    assert_eq!(damp(i64::MIN), -8_762_203_435_012_037_017);
}

#[test]
fn add_scaled_saturates() {
    assert_eq!(add_scaled(5, 7, 100), 705);
    assert_eq!(add_scaled(5, -7, 100), -695);
    assert_eq!(add_scaled(i64::MAX - 10, 1, 100), i64::MAX);
    assert_eq!(add_scaled(i64::MIN + 10, -1, 100), i64::MIN);
    assert_eq!(add_scaled(i64::MAX, i64::MIN, 1), -1);
    assert_eq!(add_scaled(0, i64::MIN, i64::MIN), i64::MAX);
    assert_eq!(add_scaled(0, i64::MIN, i64::MAX), i64::MIN);
}

#[test]
fn velocity_stops_at_the_ends_of_its_range() {
    let (mut world, ship) = world_with_ship();
    let mut ui = UiState::new();
    assert!(world.set_velocity(ship, Velocity { x: i64::MAX - 5, y: i64::MIN + 5 }));
    let thrust = holding(ActionSet { thrust: true, ..ActionSet::default() });
    assert_eq!(world.handle_actions(&mut ui, ship, &thrust, Heading::new(1, -1)), Ok(()));
    assert_eq!(flight_of(&world, ship).velocity, Velocity { x: i64::MAX, y: i64::MIN });
}

#[test]
fn strafes_thrust_and_brake_come_in_that_order() {
    let (mut world, ship) = world_with_ship();
    let mut ui = UiState::new();
    let all = holding(ActionSet {
        left: true,
        right: true,
        thrust: true,
        brake: true,
        ..ActionSet::default()
    });
    assert!(world.set_velocity(ship, Velocity { x: 40, y: 0 }));
    assert_eq!(world.handle_actions(&mut ui, ship, &all, Heading::new(300, 400)), Ok(()));
    assert_eq!(flight_of(&world, ship).velocity, Velocity { x: 28_538, y: 38_000 });
    assert!(world.set_velocity(ship, Velocity { x: i64::MAX, y: 0 }));
    assert_eq!(world.handle_actions(&mut ui, ship, &all, Heading::new(0, -1_000)), Ok(()));
    assert_eq!(
        flight_of(&world, ship).velocity,
        Velocity { x: 8_762_203_435_012_027_516, y: -95_000 }
    );
}

#[test]
fn rotation_spins_by_a_hundredth_of_a_half_turn() {
    let (mut world, ship) = world_with_ship();
    let mut ui = UiState::new();
    let left = holding(ActionSet { rotate_left: true, ..ActionSet::default() });
    let right = holding(ActionSet { rotate_right: true, ..ActionSet::default() });
    assert_eq!(world.handle_actions(&mut ui, ship, &left, Heading::new(0, 1_000)), Ok(()));
    assert_eq!(world.state(ship).unwrap().facing, 31_416);
    assert_eq!(world.handle_actions(&mut ui, ship, &right, Heading::new(0, 1_000)), Ok(()));
    assert_eq!(world.state(ship).unwrap().facing, 0);
    assert_eq!(world.handle_actions(&mut ui, ship, &right, Heading::new(0, 1_000)), Ok(()));
    assert_eq!(world.state(ship).unwrap().facing, TURN - 31_416);
    assert_eq!(world.state(ship).unwrap().facing, 6_251_769);
    let both = holding(ActionSet {
        rotate_left: true,
        rotate_right: true,
        ..ActionSet::default()
    });
    assert_eq!(world.handle_actions(&mut ui, ship, &both, Heading::new(0, 1_000)), Ok(()));
    assert_eq!(world.state(ship).unwrap().facing, 6_251_769);
    assert_eq!(world.state(ship).unwrap().bearing, 0);
    assert_eq!(flight_of(&world, ship).velocity, Velocity { x: 0, y: 0 });
}

#[test]
fn steering_touches_velocity_and_facing_only() {
    let flight = Flight {
        docking: Docking::Undocked,
        mode: MovementMode::PhysicsDriven,
        velocity: Velocity { x: 1, y: 2 },
    };
    let body = BodyState {
        kind: BodyKind::Vessel(flight),
        parent: None,
        speed: 0,
        bearing: 17,
        facing: 6_283_000,
        position: Point { x: 3, y: 4 },
    };
    let held = ActionSet { thrust: true, rotate_left: true, ..ActionSet::default() };
    let after = steer(body, &held, Heading::new(1_000, 0));
    assert_eq!(
        after,
        BodyState {
            kind: BodyKind::Vessel(Flight { velocity: Velocity { x: 100_001, y: 2 }, ..flight }),
            facing: 31_231,
            ..body
        }
    );
    assert_eq!(steer(body, &ActionSet::default(), Heading::new(1_000, 0)), body);
    let rock = BodyState { kind: BodyKind::Planet, ..body };
    assert_eq!(steer(rock, &held, Heading::new(1_000, 0)), rock);
}

#[test]
fn docked_vessel_does_not_answer_to_thrust() {
    let mut world = World::new();
    let a = world
        .spawn_body("A", BodyKind::Station, None, 10_000, Point::new(30_000_000, 0))
        .unwrap();
    let ship = world.spawn_vessel("Ship", Point::origin());
    assert!(world.set_velocity(ship, Velocity { x: 11, y: 22 }));
    assert_eq!(world.dock(ship), DockOutcome::Docked(a));
    let before = world.state(ship).unwrap();
    let mut ui = UiState::new();
    let everything = ActionState {
        held: ActionSet {
            thrust: true,
            brake: true,
            rotate_left: true,
            rotate_right: false,
            left: true,
            right: false,
            dock: true,
            cargo: true,
        },
        fresh: ActionSet { cargo: true, thrust: true, ..ActionSet::default() },
    };
    assert_eq!(world.handle_actions(&mut ui, ship, &everything, Heading::new(0, 1_000)), Ok(()));
    assert_eq!(world.state(ship).unwrap(), before);
    assert_eq!(flight_of(&world, ship).velocity, Velocity { x: 11, y: 22 });
    assert_eq!(ui, UiState { space: true, cargo: false });
    assert_eq!(world.pending(), 0);
}

#[test]
fn cargo_action_flips_the_panel_of_a_free_vessel() {
    let (mut world, ship) = world_with_ship();
    let mut ui = UiState::new();
    let cargo = pressing(ActionSet { cargo: true, ..ActionSet::default() });
    assert_eq!(world.handle_actions(&mut ui, ship, &cargo, Heading::new(0, 1_000)), Ok(()));
    assert!(ui.cargo);
    assert_eq!(world.handle_actions(&mut ui, ship, &cargo, Heading::new(0, 1_000)), Ok(()));
    assert!(!ui.cargo);
    let held_only = holding(ActionSet { cargo: true, dock: true, ..ActionSet::default() });
    assert_eq!(world.handle_actions(&mut ui, ship, &held_only, Heading::new(0, 1_000)), Ok(()));
    assert!(!ui.cargo);
    assert_eq!(world.pending(), 0);
}

#[test]
fn dock_action_asks_when_free_and_lets_go_when_docked() {
    let mut world = World::new();
    let a = world
        .spawn_body("A", BodyKind::Station, None, 10_000, Point::new(30_000_000, 0))
        .unwrap();
    let ship = world.spawn_vessel("Ship", Point::origin());
    let mut ui = UiState::new();
    let dock = pressing(ActionSet { dock: true, ..ActionSet::default() });
    assert_eq!(world.handle_actions(&mut ui, ship, &dock, Heading::new(0, 1_000)), Ok(()));
    assert_eq!(world.pending(), 1);
    assert_eq!(world.dock_to_nearest(&ui), vec![DockOutcome::Docked(a)]);
    assert_eq!(world.handle_actions(&mut ui, ship, &dock, Heading::new(0, 1_000)), Ok(()));
    assert_eq!(world.pending(), 0);
    assert_eq!(flight_of(&world, ship).docking, Docking::Undocked);
    assert_eq!(flight_of(&world, ship).mode, MovementMode::PhysicsDriven);
    assert_eq!(world.state(ship).unwrap().parent, None);
    assert_eq!(world.state(ship).unwrap().speed, 0);
}

#[test]
fn a_handle_that_names_no_vessel_is_an_error() {
    let mut world = World::new();
    let (star, _, station) = world.spawn_solar_system();
    let mut ui = UiState::new();
    let input = ActionState {
        held: ActionSet { thrust: true, ..ActionSet::default() },
        fresh: ActionSet { cargo: true, dock: true, ..ActionSet::default() },
    };
    let before = world.state(station).unwrap();
    assert_eq!(
        world.handle_actions(&mut ui, station, &input, Heading::new(0, 1_000)),
        Err(ControlError::NoSuchVessel)
    );
    assert_eq!(
        world.handle_actions(&mut ui, star, &input, Heading::new(0, 1_000)),
        Err(ControlError::NoSuchVessel)
    );
    assert_eq!(
        world.handle_actions(&mut ui, 3, &input, Heading::new(0, 1_000)),
        Err(ControlError::NoSuchVessel)
    );
    assert_eq!(world.state(station).unwrap(), before);
    assert_eq!(ui, UiState::new());
    assert_eq!(world.pending(), 0);
}

#[test]
fn nothing_is_handled_while_the_simulation_stands_still() {
    let (mut world, ship) = world_with_ship();
    let before = world.state(ship).unwrap();
    let mut ui = UiState { space: false, cargo: false };
    let input = ActionState {
        held: ActionSet { thrust: true, rotate_left: true, ..ActionSet::default() },
        fresh: ActionSet { cargo: true, dock: true, ..ActionSet::default() },
    };
    assert_eq!(world.handle_actions(&mut ui, ship, &input, Heading::new(0, 1_000)), Ok(()));
    assert_eq!(world.state(ship).unwrap(), before);
    assert_eq!(ui, UiState { space: false, cargo: false });
    assert_eq!(world.pending(), 0);
}
