//! The orbit integrator: each tick sweeps every body around its parent by
//! the body's orbital speed.

use vstd::prelude::*;
use crate::hierarchy::{BodyState, BodyView, World, WorldView};
use crate::space::{lemma_counter_turn_cancels, lemma_turns_add, turned, wrap_angle, TURN};
use crate::ui::UiState;

verus! {

/// A body one tick later: its bearing has advanced by its speed, and
/// nothing else has changed.
pub open spec fn orbit_step(s: BodyState) -> BodyState {
    BodyState { bearing: wrap_angle(s.bearing + s.speed) as u32, ..s }
}

/// A body `n` ticks later.
pub open spec fn orbit_steps(s: BodyState, n: nat) -> BodyState
    decreases n,
{
    if n == 0 {
        s
    } else {
        orbit_step(orbit_steps(s, (n - 1) as nat))
    }
}

impl WorldView {
    /// The world one tick of the orbit integrator later.
    pub open spec fn after_orbit(self) -> WorldView {
        WorldView {
            bodies: Seq::new(
                self.bodies.len(),
                |i: int| BodyView { state: orbit_step(self.bodies[i].state), ..self.bodies[i] },
            ),
            ..self
        }
    }
}

impl BodyState {
    /// Sweeps the body around its parent's origin by its orbital speed:
    /// bearing and facing both turn by the speed.
    pub fn rotate_around_parent(self) -> (r: BodyState)
        ensures
            r == (BodyState {
                bearing: wrap_angle(self.bearing + self.speed) as u32,
                facing: wrap_angle(self.facing + self.speed) as u32,
                ..self
            }),
            r.bearing < TURN,
            r.facing < TURN,
    {
        BodyState {
            bearing: turned(self.bearing, self.speed as i64),
            facing: turned(self.facing, self.speed as i64),
            ..self
        }
    }

    /// Spins the body about itself by `delta` microradians.
    pub fn rotate_local(self, delta: i64) -> (r: BodyState)
        ensures
            r == (BodyState { facing: wrap_angle(self.facing + delta) as u32, ..self }),
            r.facing < TURN,
    {
        BodyState { facing: turned(self.facing, delta), ..self }
    }

    /// One tick of orbit: the body is swept around its parent by its speed
    /// and spun back by as much, so that it faces where it faced.
    pub fn orbited(self) -> (r: BodyState)
        requires
            self.facing < TURN,
        ensures
            r == orbit_step(self),
            r.facing == self.facing,
            r.bearing < TURN,
    {
        let swept = self.rotate_around_parent();
        let r = swept.rotate_local(-(self.speed as i64));
        proof {
            lemma_counter_turn_cancels(self.facing as int, self.speed as int);
        }
        r
    }
}

impl World {
    /// Advances every body along its orbit by one tick, or does nothing
    /// while the simulation stands still.
    pub fn draw_orbiting(&mut self, ui: &UiState)
        requires
            old(self).wf(),
        ensures
            final(self).wf(),
            ui.space ==> final(self)@ == old(self)@.after_orbit(),
            !ui.space ==> final(self)@ == old(self)@,
    {
        if !ui.space {
            return ;
        }
        let n: usize = self.len();
        let mut i: usize = 0;
        while i < n
            invariant
                i <= n,
                n == old(self)@.bodies.len(),
                self@.bodies.len() == n,
                self@.primary == old(self)@.primary,
                self@.requests == old(self)@.requests,
                old(self)@.wf(),
                forall|j: int|
                    0 <= j < i ==> #[trigger] self@.bodies[j] == old(self)@.after_orbit().bodies[j],
                forall|j: int| i <= j < n ==> #[trigger] self@.bodies[j] == old(self)@.bodies[j],
            decreases n - i,
        {
            let s = self.state(i).unwrap();
            proof {
                assert(old(self)@.body_ok(i as int));
            }
            self.set_state(i, s.orbited());
            i = i + 1;
        }
        proof {
            let before = old(self)@;
            let after = self@;
            assert(after.bodies =~= before.after_orbit().bodies);
            lemma_orbit_keeps_wf(before);
        }
    }
}

/// A tick of the orbit integrator keeps the world in order.
pub proof fn lemma_orbit_keeps_wf(w: WorldView)
    requires
        w.wf(),
    ensures
        w.after_orbit().wf(),
{
    let after = w.after_orbit();
    assert forall|i: int| 0 <= i < after.bodies.len() implies #[trigger] after.body_ok(i) by {
        assert(w.body_ok(i));
    }
}

/// After `n` ticks the position of a body has turned around its parent by
/// `n` times its orbital speed, counted within one full turn, and the body
/// faces where it faced at the start.
pub proof fn lemma_orbit_cumulative(s: BodyState, n: nat)
    requires
        s.bearing < TURN,
    ensures
        orbit_steps(s, n).bearing == wrap_angle(s.bearing + n * s.speed),
        orbit_steps(s, n).facing == s.facing,
        orbit_steps(s, n) == (BodyState { bearing: orbit_steps(s, n).bearing, ..s }),
    decreases n,
{
    if n == 0 {
        vstd::arithmetic::div_mod::lemma_small_mod(s.bearing as nat, TURN as nat);
    } else {
        let m = (n - 1) as nat;
        lemma_orbit_cumulative(s, m);
        lemma_turns_add(s.bearing as int, m * s.speed, s.speed as int);
        assert(m * s.speed + s.speed == n * s.speed) by (nonlinear_arith)
            requires
                m == n - 1,
        ;
        vstd::arithmetic::div_mod::lemma_mod_bound(s.bearing + n * s.speed, TURN as int);
    }
}

/// After `n` ticks of the orbit integrator every body of the world is
/// where `n` ticks of its own orbit take it.
pub open spec fn after_orbits(w: WorldView, n: nat) -> WorldView
    decreases n,
{
    if n == 0 {
        w
    } else {
        after_orbits(w, (n - 1) as nat).after_orbit()
    }
}

/// In a world that has run for `n` ticks, each body has turned around its
/// parent by `n` times its speed and faces where it faced.
pub proof fn lemma_world_orbit_cumulative(w: WorldView, n: nat, i: int)
    requires
        w.wf(),
        0 <= i < w.bodies.len(),
    ensures
        after_orbits(w, n).wf(),
        after_orbits(w, n).bodies.len() == w.bodies.len(),
        after_orbits(w, n).bodies[i].state == orbit_steps(w.bodies[i].state, n),
        after_orbits(w, n).bodies[i].state.bearing == wrap_angle(
            w.bodies[i].state.bearing + n * w.bodies[i].state.speed,
        ),
        after_orbits(w, n).bodies[i].state.facing == w.bodies[i].state.facing,
    decreases n,
{
    assert(w.body_ok(i));
    lemma_orbit_cumulative(w.bodies[i].state, n);
    if n > 0 {
        lemma_world_orbit_cumulative(w, (n - 1) as nat, i);
        lemma_orbit_keeps_wf(after_orbits(w, (n - 1) as nat));
    }
}

} // verus!
