//! Docking: a vessel that asks to dock is hung under the nearest station
//! within the capture radius, and a docked vessel can be let go again.
//!
//! Both directions go through one transition function on [`Docking`] and
//! one place, [`World::set_docking`], that changes the parent link.

use vstd::prelude::*;
use crate::hierarchy::{BodyKind, BodyState, DockEvent, Docking, Flight, MovementMode};
use crate::hierarchy::{World, WorldView};
use crate::space::{capture_distance, dist_sq, in_capture_range};
use crate::ui::UiState;

verus! {

/// What can happen to the docking state of a vessel.
#[derive(Clone, Copy, Debug, PartialEq, Eq)]
pub enum DockSignal {
    /// The station with this index has the vessel within its capture radius.
    Capture(usize),
    /// The vessel lets go.
    Release,
}

/// How a dock request ended.
#[derive(Clone, Copy, Debug, PartialEq, Eq)]
pub enum DockOutcome {
    /// The vessel now hangs under the station with this index.
    Docked(usize),
    /// No station was within the capture radius; nothing changed.
    OutOfRange,
    /// The vessel was docked already; nothing changed.
    AlreadyDocked,
    /// The request named no vessel; nothing changed.
    NoSuchVessel,
}

impl Docking {
    /// The state after a signal: a free vessel is captured, a docked one is
    /// released, and every other signal leaves the state as it is.
    pub open spec fn next(self, signal: DockSignal) -> Docking {
        match (self, signal) {
            (Docking::Undocked, DockSignal::Capture(s)) => Docking::Docked(s),
            (Docking::Docked(_), DockSignal::Release) => Docking::Undocked,
            _ => self,
        }
    }

    /// The transition function of the docking state machine.
    pub fn step(self, signal: DockSignal) -> (d: Docking)
        ensures
            d == self.next(signal),
    {
        match self {
            Docking::Undocked => match signal {
                DockSignal::Capture(s) => Docking::Docked(s),
                DockSignal::Release => self,
            },
            Docking::Docked(_) => match signal {
                DockSignal::Capture(_) => self,
                DockSignal::Release => Docking::Undocked,
            },
        }
    }
}

impl WorldView {
    /// Whether station `s` could take vessel `v`: it is a station, and the
    /// two are no farther apart than the capture radius.
    pub open spec fn candidate(self, v: usize, s: usize) -> bool {
        self.is_station(s) && in_capture_range(
            self.bodies[s as int].state.position,
            self.bodies[v as int].state.position,
        )
    }

    /// The squared distance from vessel `v` to body `s`.
    pub open spec fn range_sq(self, v: usize, s: usize) -> int {
        dist_sq(self.bodies[s as int].state.position, self.bodies[v as int].state.position)
    }

    /// Whether `s` is the station that takes vessel `v`: a candidate such
    /// that no candidate is nearer and none as near has a lower index.
    pub open spec fn is_nearest(self, v: usize, s: usize) -> bool {
        &&& self.candidate(v, s)
        &&& forall|t: usize| #[trigger]
            self.candidate(v, t) ==> self.range_sq(v, s) < self.range_sq(v, t) || (self.range_sq(
                v,
                s,
            ) == self.range_sq(v, t) && s <= t)
    }

    /// The station that takes vessel `v`, if any is within reach.
    pub open spec fn nearest_station(self, v: usize) -> Option<usize> {
        if exists|s: usize| self.is_nearest(v, s) {
            Some(choose|s: usize| self.is_nearest(v, s))
        } else {
            None
        }
    }

    /// The state of vessel `v` once its docking state is `d`: parent link,
    /// movement mode and orbital speed follow the docking state.
    pub open spec fn docking_state(self, v: usize, d: Docking) -> BodyState {
        let b = self.bodies[v as int].state;
        let f = self.flight(v);
        match d {
            Docking::Undocked => BodyState {
                kind: BodyKind::Vessel(
                    Flight { docking: d, mode: MovementMode::PhysicsDriven, ..f },
                ),
                parent: None,
                speed: 0,
                ..b
            },
            Docking::Docked(s) => BodyState {
                kind: BodyKind::Vessel(Flight { docking: d, mode: MovementMode::OrbitDriven, ..f }),
                parent: Some(s),
                speed: self.bodies[s as int].state.speed,
                ..b
            },
        }
    }

    /// This world with the docking state of vessel `v` set to `d`.
    pub open spec fn with_docking(self, v: usize, d: Docking) -> WorldView {
        self.with_state(v, self.docking_state(v, d))
    }

    /// How a dock request of `v` ends.
    pub open spec fn dock_outcome(self, v: usize) -> DockOutcome {
        if !self.is_vessel(v) {
            DockOutcome::NoSuchVessel
        } else if self.flight(v).docking is Docked {
            DockOutcome::AlreadyDocked
        } else {
            match self.nearest_station(v) {
                Some(s) => DockOutcome::Docked(s),
                None => DockOutcome::OutOfRange,
            }
        }
    }

    /// The world after a dock request of `v` was processed.
    pub open spec fn after_dock_request(self, v: usize) -> WorldView {
        match self.dock_outcome(v) {
            DockOutcome::Docked(s) => self.with_docking(
                v,
                self.flight(v).docking.next(DockSignal::Capture(s)),
            ),
            _ => self,
        }
    }

    /// The world after vessel `v` let go of its station; the same world
    /// where `v` is no docked vessel.
    pub open spec fn after_undock(self, v: usize) -> WorldView {
        if self.is_vessel(v) && self.flight(v).docking is Docked {
            self.with_docking(v, self.flight(v).docking.next(DockSignal::Release))
        } else {
            self
        }
    }

    /// The world after the requests `reqs` were processed in order.
    pub open spec fn after_requests(self, reqs: Seq<DockEvent>) -> WorldView
        decreases reqs.len(),
    {
        if reqs.len() == 0 {
            self
        } else {
            self.after_requests(reqs.drop_last()).after_dock_request(reqs.last().vessel)
        }
    }

    /// How each of the requests `reqs`, processed in order, ends.
    pub open spec fn outcomes(self, reqs: Seq<DockEvent>) -> Seq<DockOutcome>
        decreases reqs.len(),
    {
        if reqs.len() == 0 {
            Seq::empty()
        } else {
            self.outcomes(reqs.drop_last()).push(
                self.after_requests(reqs.drop_last()).dock_outcome(reqs.last().vessel),
            )
        }
    }

    /// This world with the queue of dock requests emptied.
    pub open spec fn drained(self) -> WorldView {
        WorldView { requests: Seq::empty(), ..self }
    }

    /// Vessel `v` is free and farther than the capture radius from every
    /// station.
    pub open spec fn out_of_reach(self, v: usize) -> bool {
        &&& self.is_vessel(v)
        &&& self.flight(v).docking is Undocked
        &&& forall|s: usize| !#[trigger] self.candidate(v, s)
    }
}

/// At most one station is the nearest.
pub proof fn lemma_nearest_unique(w: WorldView, v: usize, a: usize, b: usize)
    requires
        w.is_nearest(v, a),
        w.is_nearest(v, b),
    ensures
        a == b,
{
    assert(w.candidate(v, a));
    assert(w.candidate(v, b));
}

/// The nearest station, where there is one, is a station within the
/// capture radius, and no station within the radius is nearer.
pub proof fn lemma_nearest_station(w: WorldView, v: usize)
    ensures
        w.nearest_station(v) matches Some(s) ==> w.is_nearest(v, s),
        w.nearest_station(v) is None ==> forall|s: usize| !#[trigger] w.is_nearest(v, s),
{
}

impl World {
    /// Finds the station that takes vessel `vessel`: among the stations
    /// within the capture radius the nearest one, and among equally near
    /// ones the one with the lowest index.
    /// Nothing where `vessel` names no body.
    pub fn nearest_station(&self, vessel: usize) -> (r: Option<usize>)
        ensures
            self@.has(vessel) ==> r == self@.nearest_station(vessel),
            !self@.has(vessel) ==> r is None,
    {
        let here = match self.state(vessel) {
            Some(b) => b.position,
            None => {
                return None;
            },
        };
        let n: usize = self.len();
        let mut best: Option<(usize, u64)> = None;
        let mut i: usize = 0;
        while i < n
            invariant
                i <= n,
                n == self@.bodies.len(),
                self@.has(vessel),
                here == self@.bodies[vessel as int].state.position,
                best is None ==> forall|t: usize| t < i ==> !#[trigger] self@.candidate(vessel, t),
                best matches Some((s, d)) ==> {
                    &&& s < i
                    &&& self@.candidate(vessel, s)
                    &&& d == self@.range_sq(vessel, s)
                    &&& forall|t: usize|
                        t < i && #[trigger] self@.candidate(vessel, t) ==> d < self@.range_sq(
                            vessel,
                            t,
                        ) || (d == self@.range_sq(vessel, t) && s <= t)
                },
            decreases n - i,
        {
            let body = self.state(i).unwrap();
            match body.kind {
                BodyKind::Station => {
                    match capture_distance(body.position, here) {
                        Some(d) => {
                            match best {
                                Some((_, least)) => {
                                    if d < least {
                                        best = Some((i, d));
                                    }
                                },
                                None => {
                                    best = Some((i, d));
                                },
                            }
                        },
                        None => {},
                    }
                },
                _ => {},
            }
            i = i + 1;
        }
        match best {
            Some((s, _)) => {
                proof {
                    assert(self@.is_nearest(vessel, s));
                    let c = choose|c: usize| self@.is_nearest(vessel, c);
                    lemma_nearest_unique(self@, vessel, s, c);
                }
                Some(s)
            },
            None => None,
        }
    }

    /// Sets the docking state of a vessel, and with it the parent link,
    /// the movement mode and the orbital speed. This is the one place where
    /// an edge of the hierarchy changes.
    pub(crate) fn set_docking(&mut self, vessel: usize, d: Docking)
        requires
            old(self).wf(),
            old(self)@.is_vessel(vessel),
            d matches Docking::Docked(s) ==> old(self)@.is_station(s),
        ensures
            final(self).wf(),
            final(self)@ == old(self)@.with_docking(vessel, d),
    {
        let b = self.state(vessel).unwrap();
        let next = match b.kind {
            BodyKind::Vessel(f) => match d {
                Docking::Undocked => BodyState {
                    kind: BodyKind::Vessel(
                        Flight { docking: d, mode: MovementMode::PhysicsDriven, ..f },
                    ),
                    parent: None,
                    speed: 0,
                    ..b
                },
                Docking::Docked(s) => BodyState {
                    kind: BodyKind::Vessel(
                        Flight { docking: d, mode: MovementMode::OrbitDriven, ..f },
                    ),
                    parent: Some(s),
                    speed: self.state(s).unwrap().speed,
                    ..b
                },
            },
            _ => b,
        };
        self.set_state(vessel, next);
        proof {
            lemma_docking_keeps_wf(old(self)@, vessel, d);
        }
    }

    /// Lets a docked vessel go: it leaves its station, is free again and is
    /// handed back to the physics integrator. Says whether the vessel was
    /// docked; nothing changes where it was not.
    pub fn undock(&mut self, vessel: usize) -> (released: bool)
        requires
            old(self).wf(),
        ensures
            final(self).wf(),
            final(self)@ == old(self)@.after_undock(vessel),
            released == (old(self)@.is_vessel(vessel) && old(self)@.flight(vessel).docking
                is Docked),
    {
        match self.state(vessel) {
            Some(b) => match b.kind {
                BodyKind::Vessel(f) => match f.docking {
                    Docking::Docked(_) => {
                        self.set_docking(vessel, f.docking.step(DockSignal::Release));
                        true
                    },
                    Docking::Undocked => false,
                },
                _ => false,
            },
            None => false,
        }
    }

    /// Processes one dock request.
    pub fn dock(&mut self, vessel: usize) -> (outcome: DockOutcome)
        requires
            old(self).wf(),
        ensures
            final(self).wf(),
            final(self)@ == old(self)@.after_dock_request(vessel),
            outcome == old(self)@.dock_outcome(vessel),
    {
        match self.state(vessel) {
            Some(b) => match b.kind {
                BodyKind::Vessel(f) => match f.docking {
                    Docking::Docked(_) => DockOutcome::AlreadyDocked,
                    Docking::Undocked => match self.nearest_station(vessel) {
                        Some(s) => {
                            proof {
                                lemma_nearest_station(self@, vessel);
                            }
                            self.set_docking(vessel, f.docking.step(DockSignal::Capture(s)));
                            DockOutcome::Docked(s)
                        },
                        None => DockOutcome::OutOfRange,
                    },
                },
                _ => DockOutcome::NoSuchVessel,
            },
            None => DockOutcome::NoSuchVessel,
        }
    }

    /// Processes every dock request that waits, in the order in which they
    /// came, and empties the queue whatever the outcomes. While the
    /// simulation stands still nothing is processed and the queue stays.
    pub fn dock_to_nearest(&mut self, ui: &UiState) -> (outcomes: Vec<DockOutcome>)
        requires
            old(self).wf(),
        ensures
            final(self).wf(),
            ui.space ==> final(self)@ == old(self)@.drained().after_requests(old(self)@.requests),
            ui.space ==> outcomes@ == old(self)@.drained().outcomes(old(self)@.requests),
            !ui.space ==> final(self)@ == old(self)@ && outcomes@.len() == 0,
    {
        let mut outcomes: Vec<DockOutcome> = Vec::new();
        if !ui.space {
            return outcomes;
        }
        let reqs = self.take_requests();
        let ghost start = old(self)@.drained();
        proof {
            assert forall|k: int| 0 <= k < start.bodies.len() implies #[trigger] start.body_ok(
                k,
            ) by {
                assert(old(self)@.body_ok(k));
            }
        }
        let mut i: usize = 0;
        while i < reqs.len()
            invariant
                i <= reqs@.len(),
                reqs@ == old(self)@.requests,
                start == old(self)@.drained(),
                self.wf(),
                self@ == start.after_requests(reqs@.take(i as int)),
                outcomes@ == start.outcomes(reqs@.take(i as int)),
            decreases reqs@.len() - i,
        {
            let outcome = self.dock(reqs[i].vessel);
            outcomes.push(outcome);
            proof {
                assert(reqs@.take(i + 1).drop_last() =~= reqs@.take(i as int));
            }
            i = i + 1;
        }
        proof {
            assert(reqs@.take(i as int) =~= reqs@);
        }
        outcomes
    }
}

/// Setting the docking state of a vessel keeps the world in order, as
/// long as a vessel is docked to a station only.
pub proof fn lemma_docking_keeps_wf(w: WorldView, v: usize, d: Docking)
    requires
        w.wf(),
        w.is_vessel(v),
        d matches Docking::Docked(s) ==> w.is_station(s),
    ensures
        w.with_docking(v, d).wf(),
{
    let after = w.with_docking(v, d);
    assert forall|i: int| 0 <= i < after.bodies.len() implies #[trigger] after.body_ok(i) by {
        assert(w.body_ok(i));
    }
}

/// Processing a dock request of any vessel keeps the world in order.
pub proof fn lemma_dock_request_keeps_wf(w: WorldView, u: usize)
    requires
        w.wf(),
    ensures
        w.after_dock_request(u).wf(),
{
    lemma_nearest_station(w, u);
    match w.dock_outcome(u) {
        DockOutcome::Docked(s) => {
            lemma_docking_keeps_wf(w, u, Docking::Docked(s));
        },
        _ => {},
    }
}

/// Processing any run of dock requests keeps the world in order.
pub proof fn lemma_requests_keep_wf(w: WorldView, reqs: Seq<DockEvent>)
    requires
        w.wf(),
    ensures
        w.after_requests(reqs).wf(),
        w.after_requests(reqs).primary == w.primary,
        w.after_requests(reqs).requests == w.requests,
        w.after_requests(reqs).bodies.len() == w.bodies.len(),
    decreases reqs.len(),
{
    if reqs.len() > 0 {
        lemma_requests_keep_wf(w, reqs.drop_last());
        lemma_dock_request_keeps_wf(w.after_requests(reqs.drop_last()), reqs.last().vessel);
    }
}

/// A vessel that is farther than the capture radius from every station is
/// untouched by a dock request, its own or another vessel's, and stays out
/// of reach.
pub proof fn lemma_dock_request_keeps_reach(w: WorldView, v: usize, u: usize)
    requires
        w.wf(),
        w.out_of_reach(v),
    ensures
        w.after_dock_request(u).wf(),
        w.after_dock_request(u).out_of_reach(v),
        w.after_dock_request(u).bodies[v as int] == w.bodies[v as int],
{
    lemma_dock_request_keeps_wf(w, u);
    lemma_nearest_station(w, u);
    let after = w.after_dock_request(u);
    if u == v {
        match w.nearest_station(v) {
            Some(s) => {
                assert(w.candidate(v, s));
            },
            None => {},
        }
    } else {
        assert forall|s: usize| !#[trigger] after.candidate(v, s) by {
            assert(!w.candidate(v, s));
        }
    }
}

/// A vessel that is farther than the capture radius from every station is
/// untouched by any run of dock requests.
pub proof fn lemma_requests_keep_reach(w: WorldView, v: usize, reqs: Seq<DockEvent>)
    requires
        w.wf(),
        w.out_of_reach(v),
    ensures
        w.after_requests(reqs).wf(),
        w.after_requests(reqs).out_of_reach(v),
        w.after_requests(reqs).bodies[v as int] == w.bodies[v as int],
    decreases reqs.len(),
{
    if reqs.len() > 0 {
        lemma_requests_keep_reach(w, v, reqs.drop_last());
        lemma_dock_request_keeps_reach(w.after_requests(reqs.drop_last()), v, reqs.last().vessel);
    }
}

/// A vessel docked to the station that is nearest to it, let go and
/// docked again without having moved, is back under the same station and
/// the world is as it was.
pub proof fn lemma_redock_same_station(w: WorldView, v: usize, s: usize)
    requires
        w.wf(),
        w.is_vessel(v),
        w.flight(v).docking == Docking::Docked(s),
        w.nearest_station(v) == Some(s),
    ensures
        w.after_undock(v).flight(v).docking is Undocked,
        w.after_undock(v).bodies[v as int].state.parent is None,
        w.after_undock(v).after_dock_request(v).flight(v).docking == Docking::Docked(s),
        w.after_undock(v).after_dock_request(v).bodies[v as int].state.parent == Some(s),
        w.after_undock(v).after_dock_request(v) == w,
{
    let free = w.after_undock(v);
    assert(w.body_ok(v as int));
    lemma_nearest_station(w, v);
    assert(w.is_nearest(v, s));
    assert(free.is_nearest(v, s)) by {
        assert(free.candidate(v, s));
        assert forall|t: usize| #[trigger] free.candidate(v, t) implies free.range_sq(v, s)
            < free.range_sq(v, t) || (free.range_sq(v, s) == free.range_sq(v, t) && s <= t) by {
            assert(w.candidate(v, t));
        }
    }
    lemma_nearest_station(free, v);
    lemma_nearest_unique(free, v, s, free.nearest_station(v)->0);
    let back = free.after_dock_request(v);
    assert(back.bodies =~= w.bodies);
}

/// A free vessel that docks and lets go again without having moved is as
/// it was before it docked.
pub proof fn lemma_dock_undock_round_trip(w: WorldView, v: usize)
    requires
        w.wf(),
        w.is_vessel(v),
        w.flight(v).docking is Undocked,
    ensures
        w.after_dock_request(v).after_undock(v) == w,
{
    assert(w.body_ok(v as int));
    lemma_nearest_station(w, v);
    let back = w.after_dock_request(v).after_undock(v);
    assert(back.bodies =~= w.bodies);
}

} // verus!
