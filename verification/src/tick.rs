//! One tick of the simulation: the phases in their order.
//!
//! First the dock requests of the tick before are processed, next the
//! controller handles the player's actions for the primary vessel, and last
//! the orbit integrator advances every body. The physics integrator, which
//! is not part of this library, moves the free vessels between the last two
//! phases; it touches nothing that the orbit integrator reads, so the three
//! phases can be run in one call.

use vstd::prelude::*;
use crate::controller::{ActionState, ControlError};
use crate::docking::DockOutcome;
use crate::hierarchy::{World, WorldView};
use crate::orbit::lemma_orbit_keeps_wf;
use crate::space::Heading;
use crate::ui::UiState;

verus! {

/// What happened in a tick.
pub struct TickReport {
    /// How each dock request that waited ended, in the order of the
    /// requests.
    pub docking: Vec<DockOutcome>,
    /// Whether the controller found the primary vessel.
    pub control: Result<(), ControlError>,
}

impl WorldView {
    /// The world after the dock requests of a tick were processed.
    pub open spec fn after_dock_phase(self, ui: UiState) -> WorldView {
        if ui.space {
            self.drained().after_requests(self.requests)
        } else {
            self
        }
    }

    /// The world after the controller's phase of a tick.
    pub open spec fn after_control_phase(
        self,
        ui: UiState,
        input: ActionState,
        h: Heading,
    ) -> WorldView {
        match self.primary {
            Some(v) => self.after_actions(ui, v, input, h),
            None => self,
        }
    }

    /// The world after the orbit integrator's phase of a tick.
    pub open spec fn after_orbit_phase(self, ui: UiState) -> WorldView {
        if ui.space {
            self.after_orbit()
        } else {
            self
        }
    }

    /// The world one tick later.
    pub open spec fn after_tick(self, ui: UiState, input: ActionState, h: Heading) -> WorldView {
        self.after_dock_phase(ui).after_control_phase(ui, input, h).after_orbit_phase(ui)
    }

    /// The interface state one tick later.
    pub open spec fn ui_after_tick(self, ui: UiState, input: ActionState) -> UiState {
        match self.primary {
            Some(v) => self.after_dock_phase(ui).ui_after_actions(ui, v, input),
            None => ui,
        }
    }
}

impl World {
    /// Runs one tick: dock requests, controller, orbits, in this order.
    /// While the simulation stands still nothing changes. Without a
    /// primary vessel the controller's phase is left out and the report
    /// says so; the other phases run.
    pub fn tick(&mut self, ui: &mut UiState, input: &ActionState, heading: Heading) -> (report:
        TickReport)
        requires
            old(self).wf(),
        ensures
            final(self).wf(),
            final(self)@ == old(self)@.after_tick(*old(ui), *input, heading),
            *final(ui) == old(self)@.ui_after_tick(*old(ui), *input),
            !old(ui).space ==> final(self)@ == old(self)@ && *final(ui) == *old(ui),
            old(ui).space ==> report.docking@ == old(self)@.drained().outcomes(
                old(self)@.requests,
            ),
            !old(ui).space ==> report.docking@.len() == 0,
            report.control is Ok <==> old(self)@.primary is Some,
    {
        let docking = self.dock_to_nearest(ui);
        proof {
            if ui.space {
                assert forall|k: int| 0 <= k < old(self)@.drained().bodies.len() implies
                    #[trigger] old(self)@.drained().body_ok(k) by {
                    assert(old(self)@.body_ok(k));
                }
                crate::docking::lemma_requests_keep_wf(
                    old(self)@.drained(),
                    old(self)@.requests,
                );
            }
        }
        let control = match self.primary() {
            Some(vessel) => self.handle_actions(ui, vessel, input, heading),
            None => Err(ControlError::NoSuchVessel),
        };
        self.draw_orbiting(ui);
        TickReport { docking, control }
    }
}

/// While the simulation stands still a tick changes nothing.
pub proof fn lemma_paused_tick_is_idle(w: WorldView, ui: UiState, input: ActionState, h: Heading)
    requires
        !ui.space,
    ensures
        w.after_tick(ui, input, h) == w,
        w.ui_after_tick(ui, input) == ui,
{
}

/// A tick keeps the world in order.
pub proof fn lemma_tick_keeps_wf(w: WorldView, ui: UiState, input: ActionState, h: Heading)
    requires
        w.wf(),
    ensures
        w.after_tick(ui, input, h).wf(),
{
    let docked = w.after_dock_phase(ui);
    assert(docked.wf()) by {
        if ui.space {
            assert forall|k: int| 0 <= k < w.drained().bodies.len() implies #[trigger]
                w.drained().body_ok(k) by {
                assert(w.body_ok(k));
            }
            crate::docking::lemma_requests_keep_wf(w.drained(), w.requests);
        }
    }
    let steered = docked.after_control_phase(ui, input, h);
    assert(steered.wf()) by {
        match docked.primary {
            Some(v) => {
                crate::controller::lemma_actions_keep_wf(docked, ui, v, input, h);
            },
            None => {},
        }
    }
    if ui.space {
        lemma_orbit_keeps_wf(steered);
    }
}

} // verus!
