//! The two flags that the interface shares with the simulation.

use vstd::prelude::*;

verus! {

/// Whether the simulation runs and whether the cargo panel shows.
#[derive(Clone, Copy, Debug, Default, PartialEq, Eq, Structural)]
pub struct UiState {
    /// The simulation runs; cleared, every phase of a tick stands still.
    pub space: bool,
    /// The cargo panel shows.
    pub cargo: bool,
}

/// What the pointer does to a button.
#[derive(Clone, Copy, Debug, PartialEq, Eq, Structural)]
pub enum Interaction {
    Clicked,
    Hovered,
    Idle,
}

/// The colour of the cargo button.
#[derive(Clone, Copy, Debug, PartialEq, Eq, Structural)]
pub enum ButtonColor {
    Red,
    Green,
}

impl UiState {
    /// The simulation running, the cargo panel closed.
    pub fn new() -> (ui: UiState)
        ensures
            ui == (UiState { space: true, cargo: false }),
    {
        UiState { space: true, cargo: false }
    }

    /// This state with the cargo panel flipped.
    pub open spec fn cargo_flipped(self) -> UiState {
        UiState { cargo: !self.cargo, ..self }
    }

    /// Shows the cargo panel if it is hidden and hides it if it shows.
    pub fn toggle_cargo(&mut self)
        ensures
            *final(self) == old(self).cargo_flipped(),
    {
        self.cargo = !self.cargo;
    }
}

/// Flips the cargo panel when the cargo button reports a click. `None`
/// stands for a frame in which the button reported nothing new.
pub fn handle_ui_click(ui: &mut UiState, interaction: Option<Interaction>) -> (changed: bool)
    ensures
        changed == (interaction == Some(Interaction::Clicked)),
        changed ==> *final(ui) == old(ui).cargo_flipped(),
        !changed ==> *final(ui) == *old(ui),
{
    match interaction {
        Some(Interaction::Clicked) => {
            ui.toggle_cargo();
            true
        },
        _ => false,
    }
}

/// The colour the cargo button takes after the interface state changed:
/// red while the panel shows, green while it is hidden. Nothing where the
/// state did not change.
pub fn handle_cargo_button_color(ui: &UiState, changed: bool) -> (color: Option<ButtonColor>)
    ensures
        color == (if !changed {
            None
        } else if ui.cargo {
            Some(ButtonColor::Red)
        } else {
            Some(ButtonColor::Green)
        }),
{
    if changed {
        if ui.cargo {
            Some(ButtonColor::Red)
        } else {
            Some(ButtonColor::Green)
        }
    } else {
        None
    }
}

} // verus!
