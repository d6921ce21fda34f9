//! The vessel controller: what the player's actions do to a vessel in one
//! tick.
//!
//! A free vessel is steered: strafing and thrust add to its velocity along
//! its heading, the brake scales the velocity down, and the two rotations
//! spin it. A docked vessel does not answer to any of these. The dock
//! action asks for docking when the vessel is free and lets go when it is
//! docked.

use vstd::prelude::*;
use crate::hierarchy::{BodyKind, BodyState, DockEvent, Docking, Flight, World, WorldView};
use crate::space::{turned, wrap_angle, Heading, TURN};
use crate::ui::UiState;

verus! {

/// Thrust adds a tenth of the forward unit vector to the velocity each
/// tick: a hundred millionths for each thousandth of heading.
pub const THRUST_GAIN: i64 = 100;

/// Strafing adds a hundredth of the sideways unit vector to the velocity
/// each tick: ten millionths for each thousandth of heading.
pub const STRAFE_GAIN: i64 = 10;

/// A rotation spins the vessel by a hundredth of a half turn each tick, in
/// microradians.
pub const ROTATE_STEP: i64 = 31_416;

/// The abstract actions of the player.
#[derive(Clone, Copy, Debug, PartialEq, Eq, Hash)]
pub enum Action {
    Thrust,
    Brake,
    RotateLeft,
    RotateRight,
    Left,
    Right,
    Dock,
    Cargo,
}

/// A set of actions.
#[derive(Clone, Copy, Debug, Default, PartialEq, Eq)]
pub struct ActionSet {
    pub thrust: bool,
    pub brake: bool,
    pub rotate_left: bool,
    pub rotate_right: bool,
    pub left: bool,
    pub right: bool,
    pub dock: bool,
    pub cargo: bool,
}

/// The actions of one tick: those that are held down, and those that were
/// pressed in this very tick.
#[derive(Clone, Copy, Debug, Default, PartialEq, Eq)]
pub struct ActionState {
    pub held: ActionSet,
    pub fresh: ActionSet,
}

/// Why the controller did nothing.
#[derive(Clone, Copy, Debug, PartialEq, Eq)]
pub enum ControlError {
    /// The handle names no vessel.
    NoSuchVessel,
}

impl ActionSet {
    pub open spec fn has(self, action: Action) -> bool {
        match action {
            Action::Thrust => self.thrust,
            Action::Brake => self.brake,
            Action::RotateLeft => self.rotate_left,
            Action::RotateRight => self.rotate_right,
            Action::Left => self.left,
            Action::Right => self.right,
            Action::Dock => self.dock,
            Action::Cargo => self.cargo,
        }
    }

    /// Whether the set has `action`.
    pub fn contains(&self, action: Action) -> (b: bool)
        ensures
            b == self.has(action),
    {
        match action {
            Action::Thrust => self.thrust,
            Action::Brake => self.brake,
            Action::RotateLeft => self.rotate_left,
            Action::RotateRight => self.rotate_right,
            Action::Left => self.left,
            Action::Right => self.right,
            Action::Dock => self.dock,
            Action::Cargo => self.cargo,
        }
    }
}

impl ActionState {
    /// Whether `action` is held down.
    pub fn pressed(&self, action: Action) -> (b: bool)
        ensures
            b == self.held.has(action),
    {
        self.held.contains(action)
    }

    /// Whether `action` was pressed in this tick.
    pub fn just_pressed(&self, action: Action) -> (b: bool)
        ensures
            b == self.fresh.has(action),
    {
        self.fresh.contains(action)
    }
}

/// A vessel after the held actions of one tick, in this order: strafe
/// left, strafe right, thrust, brake, rotate left, rotate right. Left of a
/// heading `(x, y)` is `(-y, x)`, right of it is `(y, -x)`. A body that is
/// no vessel is not steered.
pub open spec fn steered(b: BodyState, held: ActionSet, h: Heading) -> BodyState {
    match b.kind {
        BodyKind::Vessel(f) => {
            let v0 = f.velocity;
            let v1 = if held.left {
                v0.pushed(STRAFE_GAIN * (-h.y), STRAFE_GAIN * h.x)
            } else {
                v0
            };
            let v2 = if held.right {
                v1.pushed(STRAFE_GAIN * h.y, STRAFE_GAIN * (-h.x))
            } else {
                v1
            };
            let v3 = if held.thrust {
                v2.pushed(THRUST_GAIN * h.x, THRUST_GAIN * h.y)
            } else {
                v2
            };
            let v4 = if held.brake {
                v3.braked()
            } else {
                v3
            };
            let a1 = if held.rotate_left {
                wrap_angle(b.facing + ROTATE_STEP) as u32
            } else {
                b.facing
            };
            let a2 = if held.rotate_right {
                wrap_angle(a1 - ROTATE_STEP) as u32
            } else {
                a1
            };
            BodyState { kind: BodyKind::Vessel(Flight { velocity: v4, ..f }), facing: a2, ..b }
        },
        _ => b,
    }
}

impl WorldView {
    /// The world after the controller handled the actions of one tick for
    /// vessel `v`. Nothing changes while the simulation stands still or
    /// where `v` names no vessel.
    pub open spec fn after_actions(
        self,
        ui: UiState,
        v: usize,
        input: ActionState,
        h: Heading,
    ) -> WorldView {
        if !ui.space || !self.is_vessel(v) {
            self
        } else if self.flight(v).docking is Docked {
            if input.fresh.dock {
                self.after_undock(v)
            } else {
                self
            }
        } else {
            let moved = self.with_state(
                v,
                steered(self.bodies[v as int].state, input.held, h),
            );
            if input.fresh.dock {
                WorldView { requests: moved.requests.push(DockEvent { vessel: v }), ..moved }
            } else {
                moved
            }
        }
    }

    /// The interface state after the controller handled the actions of one
    /// tick for vessel `v`: the cargo panel flips when a free vessel gets
    /// the cargo action.
    pub open spec fn ui_after_actions(self, ui: UiState, v: usize, input: ActionState) -> UiState {
        if ui.space && self.is_vessel(v) && self.flight(v).docking is Undocked
            && input.fresh.cargo {
            ui.cargo_flipped()
        } else {
            ui
        }
    }
}

/// Applies the held actions of one tick to a vessel.
pub fn steer(b: BodyState, held: &ActionSet, h: Heading) -> (r: BodyState)
    ensures
        r == steered(b, *held, h),
{
    let f = match b.kind {
        BodyKind::Vessel(f) => f,
        _ => {
            return b;
        },
    };
    let hx: i64 = h.x as i64;
    let hy: i64 = h.y as i64;
    let mut v = f.velocity;
    if held.left {
        v = v.push(-hy, hx, STRAFE_GAIN);
    }
    if held.right {
        v = v.push(hy, -hx, STRAFE_GAIN);
    }
    if held.thrust {
        v = v.push(hx, hy, THRUST_GAIN);
    }
    if held.brake {
        v = v.brake();
    }
    let mut facing: u32 = b.facing;
    if held.rotate_left {
        facing = turned(facing, ROTATE_STEP);
    }
    if held.rotate_right {
        facing = turned(facing, -ROTATE_STEP);
    }
    BodyState { kind: BodyKind::Vessel(Flight { velocity: v, ..f }), facing, ..b }
}

/// Steering a free vessel keeps the world in order.
pub proof fn lemma_steer_keeps_wf(w: WorldView, v: usize, held: ActionSet, h: Heading)
    requires
        w.wf(),
        w.is_vessel(v),
    ensures
        w.with_state(v, steered(w.bodies[v as int].state, held, h)).wf(),
{
    let after = w.with_state(v, steered(w.bodies[v as int].state, held, h));
    let b = w.bodies[v as int].state;
    assert(w.body_ok(v as int));
    vstd::arithmetic::div_mod::lemma_mod_bound(b.facing + ROTATE_STEP, TURN as int);
    vstd::arithmetic::div_mod::lemma_mod_bound(b.facing - ROTATE_STEP, TURN as int);
    vstd::arithmetic::div_mod::lemma_mod_bound(
        wrap_angle(b.facing + ROTATE_STEP) - ROTATE_STEP,
        TURN as int,
    );
    assert forall|i: int| 0 <= i < after.bodies.len() implies #[trigger] after.body_ok(i) by {
        assert(w.body_ok(i));
    }
}

/// The controller keeps the world in order.
pub proof fn lemma_actions_keep_wf(
    w: WorldView,
    ui: UiState,
    v: usize,
    input: ActionState,
    h: Heading,
)
    requires
        w.wf(),
    ensures
        w.after_actions(ui, v, input, h).wf(),
{
    let after = w.after_actions(ui, v, input, h);
    if ui.space && w.is_vessel(v) {
        if w.flight(v).docking is Docked {
            if input.fresh.dock {
                crate::docking::lemma_docking_keeps_wf(w, v, Docking::Undocked);
            }
        } else {
            lemma_steer_keeps_wf(w, v, input.held, h);
            let moved = w.with_state(
                v,
                steered(w.bodies[v as int].state, input.held, h),
            );
            assert forall|i: int| 0 <= i < after.bodies.len() implies #[trigger] after.body_ok(
                i,
            ) by {
                assert(moved.body_ok(i));
            }
        }
    }
}

impl World {
    /// Handles the actions of one tick for the vessel `vessel`.
    ///
    /// A free vessel is steered by the held actions along `heading`, the
    /// cargo action flips the cargo panel, and the dock action queues a
    /// dock request. A docked vessel ignores all of these but the dock
    /// action, which lets it go. While the simulation stands still nothing
    /// happens. Fails, and does nothing, where `vessel` names no vessel.
    pub fn handle_actions(
        &mut self,
        ui: &mut UiState,
        vessel: usize,
        input: &ActionState,
        heading: Heading,
    ) -> (r: Result<(), ControlError>)
        requires
            old(self).wf(),
        ensures
            final(self).wf(),
            r is Ok <==> old(self)@.is_vessel(vessel),
            final(self)@ == old(self)@.after_actions(*old(ui), vessel, *input, heading),
            *final(ui) == old(self)@.ui_after_actions(*old(ui), vessel, *input),
            old(self)@.is_vessel(vessel) && old(self)@.flight(vessel).docking is Docked
                ==> final(self)@.flight(vessel).velocity == old(self)@.flight(vessel).velocity,
            old(self)@.is_vessel(vessel) && old(self)@.flight(vessel).docking is Docked
                ==> final(self)@.bodies[vessel as int].state.facing
                == old(self)@.bodies[vessel as int].state.facing,
    {
        let b = match self.state(vessel) {
            Some(b) => b,
            None => {
                return Err(ControlError::NoSuchVessel);
            },
        };
        let f = match b.kind {
            BodyKind::Vessel(f) => f,
            _ => {
                return Err(ControlError::NoSuchVessel);
            },
        };
        if !ui.space {
            return Ok(());
        }
        match f.docking {
            Docking::Undocked => {
                proof {
                    lemma_steer_keeps_wf(self@, vessel, input.held, heading);
                }
                self.set_state(vessel, steer(b, &input.held, heading));
                if input.fresh.cargo {
                    ui.toggle_cargo();
                }
                if input.fresh.dock {
                    let ghost moved = self@;
                    self.push_request(DockEvent { vessel });
                    proof {
                        let after = self@;
                        assert forall|i: int| 0 <= i < after.bodies.len() implies #[trigger]
                            after.body_ok(i) by {
                            assert(moved.body_ok(i));
                        }
                    }
                }
            },
            Docking::Docked(_) => {
                if input.fresh.dock {
                    self.undock(vessel);
                }
            },
        }
        Ok(())
    }
}

/// The actions of a tick in which the dock action is pressed and nothing
/// else is touched.
pub open spec fn dock_pressed() -> ActionState {
    let none = ActionSet {
        thrust: false,
        brake: false,
        rotate_left: false,
        rotate_right: false,
        left: false,
        right: false,
        dock: false,
        cargo: false,
    };
    ActionState { held: none, fresh: ActionSet { dock: true, ..none } }
}

impl WorldView {
    /// The world one tick after the dock action was pressed for vessel `v`
    /// while the simulation runs: the controller has seen the press, and
    /// the requests that waited have been processed.
    pub open spec fn after_dock_press(self, v: usize, h: Heading) -> WorldView {
        let pressed = self.after_actions(UiState { space: true, cargo: false }, v, dock_pressed(), h);
        pressed.drained().after_requests(pressed.requests)
    }

    /// The world after the dock action was pressed `n` times for vessel
    /// `v`, a tick apart.
    pub open spec fn after_dock_presses(self, v: usize, h: Heading, n: nat) -> WorldView
        decreases n,
    {
        if n == 0 {
            self
        } else {
            self.after_dock_presses(v, h, (n - 1) as nat).after_dock_press(v, h)
        }
    }
}

/// While the simulation runs, a press of the dock action with nothing
/// held leaves every body as it is and only adds to the queue or lets
/// the vessel go.
proof fn lemma_press_keeps_reach(w: WorldView, v: usize, h: Heading)
    requires
        w.wf(),
        w.out_of_reach(v),
    ensures
        w.after_actions(UiState { space: true, cargo: false }, v, dock_pressed(), h).wf(),
        w.after_actions(UiState { space: true, cargo: false }, v, dock_pressed(), h).out_of_reach(
            v,
        ),
        w.after_actions(UiState { space: true, cargo: false }, v, dock_pressed(), h).bodies
            == w.bodies,
{
    let after = w.after_actions(UiState { space: true, cargo: false }, v, dock_pressed(), h);
    assert(w.body_ok(v as int));
    assert(steered(w.bodies[v as int].state, dock_pressed().held, h)
        == w.bodies[v as int].state);
    assert(after.bodies =~= w.bodies);
    assert forall|i: int| 0 <= i < after.bodies.len() implies #[trigger] after.body_ok(i) by {
        assert(w.body_ok(i));
    }
    assert forall|s: usize| !#[trigger] after.candidate(v, s) by {
        assert(!w.candidate(v, s));
    }
}

/// A vessel that is farther than the capture radius from every station
/// stays free, however often the dock action is pressed: after any number
/// of presses it is as it was.
pub proof fn lemma_out_of_reach_never_docks(w: WorldView, v: usize, h: Heading, n: nat)
    requires
        w.wf(),
        w.out_of_reach(v),
    ensures
        w.after_dock_presses(v, h, n).wf(),
        w.after_dock_presses(v, h, n).out_of_reach(v),
        w.after_dock_presses(v, h, n).flight(v).docking is Undocked,
        w.after_dock_presses(v, h, n).bodies[v as int] == w.bodies[v as int],
    decreases n,
{
    if n > 0 {
        let before = w.after_dock_presses(v, h, (n - 1) as nat);
        lemma_out_of_reach_never_docks(w, v, h, (n - 1) as nat);
        lemma_press_keeps_reach(before, v, h);
        let pressed = before.after_actions(
            UiState { space: true, cargo: false },
            v,
            dock_pressed(),
            h,
        );
        assert forall|i: int| 0 <= i < pressed.drained().bodies.len() implies #[trigger]
            pressed.drained().body_ok(i) by {
            assert(pressed.body_ok(i));
        }
        assert forall|s: usize| !#[trigger] pressed.drained().candidate(v, s) by {
            assert(!pressed.candidate(v, s));
        }
        crate::docking::lemma_requests_keep_reach(pressed.drained(), v, pressed.requests);
    }
}

} // verus!
