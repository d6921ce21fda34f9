//! The celestial hierarchy: an arena of bodies, each with an optional parent.
//!
//! A body is addressed by its index in the arena, which never changes. The
//! parent links form a forest: a star, planet or station hangs under a body
//! made before it, and a vessel hangs under the station it is docked to or
//! under nothing.

use vstd::prelude::*;
use crate::cargo::{empty_ledger, held, ledger_wf, removed, stored};
use crate::cargo::{CargoError, CargoHold, Item, ItemKey, Ledger};
use crate::space::{Point, Velocity, TURN, UNIT};

verus! {

/// Whether a vessel flies free or hangs under a station.
#[derive(Clone, Copy, Debug, PartialEq, Eq)]
pub enum Docking {
    Undocked,
    /// Docked to the station with this index.
    Docked(usize),
}

/// What moves a vessel each tick.
#[derive(Clone, Copy, Debug, PartialEq, Eq)]
pub enum MovementMode {
    /// Its own velocity, resolved by the physics integrator.
    PhysicsDriven,
    /// The orbit of the station it is docked to.
    OrbitDriven,
}

/// What only a vessel has.
#[derive(Clone, Copy, Debug, PartialEq, Eq)]
pub struct Flight {
    pub docking: Docking,
    pub mode: MovementMode,
    pub velocity: Velocity,
}

/// The role of a body.
#[derive(Clone, Copy, Debug, PartialEq, Eq)]
pub enum BodyKind {
    Star,
    Planet,
    Station,
    Vessel(Flight),
}

/// Everything about a body but its name and its cargo.
#[derive(Clone, Copy, Debug, PartialEq, Eq)]
pub struct BodyState {
    pub kind: BodyKind,
    /// The body this one hangs under, if any.
    pub parent: Option<usize>,
    /// Orbital speed in microradians per tick; zero for a body that does
    /// not orbit.
    pub speed: i32,
    /// How far the body's position has turned around its parent's origin,
    /// in `0 .. TURN`.
    pub bearing: u32,
    /// The body's own orientation, in `0 .. TURN`.
    pub facing: u32,
    /// Where the body was last reported to be, in world coordinates.
    pub position: Point,
}

/// A request of a vessel to dock, waiting to be processed.
#[derive(Clone, Copy, Debug, PartialEq, Eq)]
pub struct DockEvent {
    pub vessel: usize,
}

/// Why a body could not be made.
#[derive(Clone, Copy, Debug, PartialEq, Eq)]
pub enum SpawnError {
    /// The kind was that of a vessel; vessels are made by `spawn_vessel`.
    NotCelestial,
    /// The arena has no body with the parent's index.
    NoSuchParent,
    /// The parent is a vessel, and nothing hangs under a vessel.
    ParentIsVessel,
}

/// Why an operation on a vessel's hold did not go through.
#[derive(Clone, Copy, Debug, PartialEq, Eq)]
pub enum HoldError {
    /// The index names no vessel.
    NoSuchVessel,
    /// The hold refused.
    Cargo(CargoError),
}

struct Body {
    name: String,
    state: BodyState,
    cargo: CargoHold,
}

/// The arena of bodies, the primary vessel, and the dock requests that wait.
pub struct World {
    bodies: Vec<Body>,
    primary: Option<usize>,
    requests: Vec<DockEvent>,
}

/// A body as contracts see it.
pub ghost struct BodyView {
    pub name: Seq<char>,
    pub state: BodyState,
    pub cargo: Ledger,
}

/// The world as contracts see it.
pub ghost struct WorldView {
    pub bodies: Seq<BodyView>,
    pub primary: Option<usize>,
    pub requests: Seq<DockEvent>,
}

/// The flight of a vessel that has just been made: free, at rest.
pub open spec fn fresh_flight() -> Flight {
    Flight {
        docking: Docking::Undocked,
        mode: MovementMode::PhysicsDriven,
        velocity: Velocity { x: 0, y: 0 },
    }
}

/// A body that has just been made: bearing and facing zero, hold empty.
pub open spec fn fresh_body(
    name: Seq<char>,
    kind: BodyKind,
    parent: Option<usize>,
    speed: i32,
    position: Point,
) -> BodyView {
    BodyView {
        name,
        state: BodyState { kind, parent, speed, bearing: 0, facing: 0, position },
        cargo: empty_ledger(),
    }
}

impl WorldView {
    /// Whether `id` names a body.
    pub open spec fn has(self, id: usize) -> bool {
        id < self.bodies.len()
    }

    pub open spec fn is_station(self, id: usize) -> bool {
        self.has(id) && self.bodies[id as int].state.kind is Station
    }

    pub open spec fn is_vessel(self, id: usize) -> bool {
        self.has(id) && self.bodies[id as int].state.kind is Vessel
    }

    /// The flight of the vessel `id`; arbitrary where `id` names no vessel.
    pub open spec fn flight(self, id: usize) -> Flight {
        self.bodies[id as int].state.kind->Vessel_0
    }

    /// What has to hold of body `i`.
    pub open spec fn body_ok(self, i: int) -> bool {
        let b = self.bodies[i];
        &&& b.state.bearing < TURN
        &&& b.state.facing < TURN
        &&& ledger_wf(b.cargo)
        &&& match b.state.kind {
            BodyKind::Vessel(f) => match f.docking {
                Docking::Undocked => {
                    &&& b.state.parent is None
                    &&& f.mode is PhysicsDriven
                    &&& b.state.speed == 0
                },
                Docking::Docked(s) => {
                    &&& b.state.parent == Some(s)
                    &&& f.mode is OrbitDriven
                    &&& self.is_station(s)
                    &&& b.state.speed == self.bodies[s as int].state.speed
                },
            },
            _ => {
                &&& b.cargo == empty_ledger()
                &&& b.state.parent matches Some(p) ==> p < i && !self.is_vessel(p)
            },
        }
    }

    /// The invariant of the world: every body is in order, and the primary
    /// vessel, if there is one, is a vessel.
    pub open spec fn wf(self) -> bool {
        &&& forall|i: int| 0 <= i < self.bodies.len() ==> #[trigger] self.body_ok(i)
        &&& self.primary matches Some(p) ==> self.is_vessel(p)
    }

    /// This world with the state of body `id` replaced.
    pub open spec fn with_state(self, id: usize, s: BodyState) -> WorldView {
        WorldView {
            bodies: self.bodies.update(id as int, BodyView { state: s, ..self.bodies[id as int] }),
            ..self
        }
    }

    /// This world with the cargo of body `id` replaced.
    pub open spec fn with_cargo(self, id: usize, cargo: Ledger) -> WorldView {
        WorldView {
            bodies: self.bodies.update(id as int, BodyView { cargo, ..self.bodies[id as int] }),
            ..self
        }
    }

    /// This world with one more body at the end of the arena.
    pub open spec fn with_body(self, b: BodyView) -> WorldView {
        WorldView { bodies: self.bodies.push(b), ..self }
    }

    /// Why `spawn_body` would refuse, if it would.
    pub open spec fn spawn_refusal(self, kind: BodyKind, parent: Option<usize>) -> Option<
        SpawnError,
    > {
        if kind is Vessel {
            Some(SpawnError::NotCelestial)
        } else if parent is Some && !self.has(parent->0) {
            Some(SpawnError::NoSuchParent)
        } else if parent is Some && self.is_vessel(parent->0) {
            Some(SpawnError::ParentIsVessel)
        } else {
            None
        }
    }

    /// The body `n` parent links above body `id`, if the chain is that
    /// long.
    pub open spec fn ancestor(self, id: usize, n: nat) -> Option<usize>
        decreases n,
    {
        if n == 0 {
            Some(id)
        } else {
            match self.ancestor(id, (n - 1) as nat) {
                Some(a) => if self.has(a) {
                    self.bodies[a as int].state.parent
                } else {
                    None
                },
                None => None,
            }
        }
    }

    /// How many of the first `n` bodies are vessels.
    pub open spec fn vessels_below(self, n: nat) -> nat
        decreases n,
    {
        if n == 0 {
            0
        } else {
            self.vessels_below((n - 1) as nat) + if self.bodies[n - 1].state.kind is Vessel {
                1nat
            } else {
                0nat
            }
        }
    }

    /// Whether `order` lists every body once, each after its parent.
    pub open spec fn parents_first(self, order: Seq<usize>) -> bool {
        &&& order.len() == self.bodies.len()
        &&& forall|k: int| 0 <= k < order.len() ==> self.has(#[trigger] order[k])
        &&& forall|k: int, l: int| 0 <= k < l < order.len() ==> order[k] != order[l]
        &&& forall|id: usize|
            self.has(id) ==> exists|k: int| 0 <= k < order.len() && #[trigger] order[k] == id
        &&& forall|k: int|
            0 <= k < order.len() && self.bodies[(#[trigger] order[k]) as int].state.parent
                is Some ==> exists|j: int|
                0 <= j < k && #[trigger] order[j] == self.bodies[order[k] as int].state.parent->0
    }

    /// A number that falls along every parent link: the index of a star,
    /// planet or station, and the size of the arena for a vessel.
    pub open spec fn rank(self, id: usize) -> int {
        if self.is_vessel(id) {
            self.bodies.len() as int
        } else {
            id as int
        }
    }

    /// The point a body orbits: where its parent is, or the world origin
    /// for a body without one.
    pub open spec fn orbit_center(self, id: usize) -> Point {
        match self.bodies[id as int].state.parent {
            Some(p) => self.bodies[p as int].state.position,
            None => Point { x: 0, y: 0 },
        }
    }
}

impl View for Body {
    type V = BodyView;

    closed spec fn view(&self) -> BodyView {
        BodyView { name: self.name@, state: self.state, cargo: self.cargo@ }
    }
}

impl View for World {
    type V = WorldView;

    closed spec fn view(&self) -> WorldView {
        WorldView {
            bodies: Seq::new(self.bodies@.len(), |i: int| self.bodies@[i]@),
            primary: self.primary,
            requests: self.requests@,
        }
    }
}

impl World {
    /// Whether the invariant of the world holds.
    pub open spec fn wf(&self) -> bool {
        self@.wf()
    }

    /// A world without bodies.
    pub fn new() -> (w: World)
        ensures
            w.wf(),
            w@.bodies.len() == 0,
            w@.primary is None,
            w@.requests.len() == 0,
    {
        World { bodies: Vec::new(), primary: None, requests: Vec::new() }
    }

    /// How many bodies the arena has.
    pub fn len(&self) -> (n: usize)
        ensures
            n == self@.bodies.len(),
    {
        self.bodies.len()
    }

    /// The state of body `id`.
    pub fn state(&self, id: usize) -> (s: Option<BodyState>)
        ensures
            s == (if self@.has(id) {
                Some(self@.bodies[id as int].state)
            } else {
                None
            }),
    {
        if id < self.bodies.len() {
            Some(self.bodies[id].state)
        } else {
            None
        }
    }

    /// The name of body `id`.
    pub fn name(&self, id: usize) -> (s: Option<&str>)
        ensures
            self@.has(id) ==> s is Some && s->0@ == self@.bodies[id as int].name,
            !self@.has(id) ==> s is None,
    {
        if id < self.bodies.len() {
            Some(self.bodies[id].name.as_str())
        } else {
            None
        }
    }

    /// The first body that goes by `name`, if any does.
    pub fn find(&self, name: &str) -> (r: Option<usize>)
        ensures
            r matches Some(id) ==> self@.has(id) && self@.bodies[id as int].name == name@,
            r matches Some(id) ==> forall|j: int| 0 <= j < id ==> self@.bodies[j].name != name@,
            r is None ==> forall|j: int|
                0 <= j < self@.bodies.len() ==> self@.bodies[j].name != name@,
    {
        let wanted: String = name.to_owned();
        let n: usize = self.bodies.len();
        let mut i: usize = 0;
        while i < n
            invariant
                i <= n,
                n == self@.bodies.len(),
                wanted@ == name@,
                forall|j: int| 0 <= j < i ==> self@.bodies[j].name != name@,
            decreases n - i,
        {
            if self.bodies[i].name == wanted {
                return Some(i);
            }
            i = i + 1;
        }
        None
    }

    /// The vessel that takes the player's input, if one has been made.
    pub fn primary(&self) -> (p: Option<usize>)
        ensures
            p == self@.primary,
    {
        self.primary
    }

    /// How many dock requests wait.
    pub fn pending(&self) -> (n: usize)
        ensures
            n == self@.requests.len(),
    {
        self.requests.len()
    }

    /// Replaces the state of body `id`.
    pub(crate) fn set_state(&mut self, id: usize, s: BodyState)
        requires
            old(self)@.has(id),
        ensures
            final(self)@ == old(self)@.with_state(id, s),
    {
        self.bodies[id].state = s;
        assert(self@.bodies =~= old(self)@.with_state(id, s).bodies);
    }

    /// Queues a dock request.
    pub(crate) fn push_request(&mut self, e: DockEvent)
        ensures
            final(self)@ == (WorldView {
                requests: old(self)@.requests.push(e),
                ..old(self)@
            }),
    {
        self.requests.push(e);
        assert(self@.bodies =~= old(self)@.bodies);
    }

    /// Empties the queue of dock requests and hands them out in the order
    /// in which they came.
    pub(crate) fn take_requests(&mut self) -> (taken: Vec<DockEvent>)
        ensures
            taken@ == old(self)@.requests,
            final(self)@ == (WorldView { requests: Seq::empty(), ..old(self)@ }),
    {
        let mut taken: Vec<DockEvent> = Vec::new();
        std::mem::swap(&mut taken, &mut self.requests);
        assert(self@.bodies =~= old(self)@.bodies);
        taken
    }

    /// Makes a star, a planet or a station. A parent has to exist already
    /// and must not be a vessel.
    pub fn spawn_body(
        &mut self,
        name: &str,
        kind: BodyKind,
        parent: Option<usize>,
        speed: i32,
        position: Point,
    ) -> (r: Result<usize, SpawnError>)
        requires
            old(self).wf(),
        ensures
            final(self).wf(),
            r is Ok <==> old(self)@.spawn_refusal(kind, parent) is None,
            r is Ok ==> r->Ok_0 == old(self)@.bodies.len() && final(self)@ == old(self)@.with_body(
                fresh_body(name@, kind, parent, speed, position),
            ),
            r is Err ==> old(self)@.spawn_refusal(kind, parent) == Some(r->Err_0) && final(self)@
                == old(self)@,
    {
        match kind {
            BodyKind::Vessel(_) => {
                return Err(SpawnError::NotCelestial);
            },
            _ => {},
        }
        match parent {
            Some(p) => {
                if p >= self.bodies.len() {
                    return Err(SpawnError::NoSuchParent);
                }
                match self.bodies[p].state.kind {
                    BodyKind::Vessel(_) => {
                        return Err(SpawnError::ParentIsVessel);
                    },
                    _ => {},
                }
            },
            None => {},
        }
        let id: usize = self.bodies.len();
        let state = BodyState { kind, parent, speed, bearing: 0, facing: 0, position };
        self.bodies.push(Body { name: name.to_owned(), state, cargo: CargoHold::new() });
        proof {
            let before = old(self)@;
            let after = before.with_body(fresh_body(name@, kind, parent, speed, position));
            assert(self@.bodies =~= after.bodies);
            assert forall|i: int| 0 <= i < after.bodies.len() implies #[trigger] after.body_ok(
                i,
            ) by {
                if i < before.bodies.len() {
                    assert(before.body_ok(i));
                }
            }
        }
        Ok(id)
    }

    /// Makes a vessel: free, at rest, facing along bearing zero, with an
    /// empty hold. The first vessel made becomes the primary one.
    pub fn spawn_vessel(&mut self, name: &str, position: Point) -> (id: usize)
        requires
            old(self).wf(),
        ensures
            final(self).wf(),
            id == old(self)@.bodies.len(),
            final(self)@.bodies == old(self)@.bodies.push(
                fresh_body(name@, BodyKind::Vessel(fresh_flight()), None, 0, position),
            ),
            final(self)@.requests == old(self)@.requests,
            final(self)@.primary == (if old(self)@.primary is Some {
                old(self)@.primary
            } else {
                Some(id)
            }),
    {
        let id: usize = self.bodies.len();
        let flight = Flight {
            docking: Docking::Undocked,
            mode: MovementMode::PhysicsDriven,
            velocity: Velocity::zero(),
        };
        let state = BodyState {
            kind: BodyKind::Vessel(flight),
            parent: None,
            speed: 0,
            bearing: 0,
            facing: 0,
            position,
        };
        self.bodies.push(Body { name: name.to_owned(), state, cargo: CargoHold::new() });
        if self.primary.is_none() {
            self.primary = Some(id);
        }
        proof {
            let before = old(self)@;
            let after = self@;
            assert(after.bodies =~= before.bodies.push(
                fresh_body(name@, BodyKind::Vessel(fresh_flight()), None, 0, position),
            ));
            assert forall|i: int| 0 <= i < after.bodies.len() implies #[trigger] after.body_ok(
                i,
            ) by {
                if i < before.bodies.len() {
                    assert(before.body_ok(i));
                }
            }
        }
        id
    }

    /// Records where body `id` is now. Says whether there is such a body.
    pub fn set_position(&mut self, id: usize, position: Point) -> (found: bool)
        requires
            old(self).wf(),
        ensures
            final(self).wf(),
            found == old(self)@.has(id),
            found ==> final(self)@ == old(self)@.with_state(
                id,
                BodyState { position, ..old(self)@.bodies[id as int].state },
            ),
            !found ==> final(self)@ == old(self)@,
    {
        if id < self.bodies.len() {
            let s = self.bodies[id].state;
            let moved = BodyState { position, ..s };
            self.set_state(id, moved);
            proof {
                let before = old(self)@;
                let after = self@;
                assert forall|i: int| 0 <= i < after.bodies.len() implies #[trigger] after.body_ok(
                    i,
                ) by {
                    assert(before.body_ok(i));
                }
            }
            true
        } else {
            false
        }
    }

    /// Makes the home system: the star Sol at the origin, the planet Earth
    /// a hundred units out, orbiting Sol by a thousand microradians a tick,
    /// and the station ISS twenty-five units beyond Earth, orbiting Earth
    /// by ten thousand. Hands back the three indices.
    pub fn spawn_solar_system(&mut self) -> (ids: (usize, usize, usize))
        requires
            old(self).wf(),
        ensures
            final(self).wf(),
            ids.0 == old(self)@.bodies.len(),
            ids.1 == ids.0 + 1,
            ids.2 == ids.0 + 2,
            final(self)@ == old(self)@.with_body(
                fresh_body("Sol"@, BodyKind::Star, None, 0, Point { x: 0, y: 0 }),
            ).with_body(
                fresh_body(
                    "Earth"@,
                    BodyKind::Planet,
                    Some(ids.0),
                    1_000,
                    Point { x: 100_000_000, y: 0 },
                ),
            ).with_body(
                fresh_body(
                    "ISS"@,
                    BodyKind::Station,
                    Some(ids.1),
                    10_000,
                    Point { x: 125_000_000, y: 0 },
                ),
            ),
    {
        let star = match self.spawn_body("Sol", BodyKind::Star, None, 0, Point::origin()) {
            Ok(id) => id,
            Err(_) => {
                proof {
                    assert(false);
                }
                0
            },
        };
        let planet = match self.spawn_body(
            "Earth",
            BodyKind::Planet,
            Some(star),
            1_000,
            Point::new(100 * UNIT, 0),
        ) {
            Ok(id) => id,
            Err(_) => {
                proof {
                    assert(false);
                }
                0
            },
        };
        let station = match self.spawn_body(
            "ISS",
            BodyKind::Station,
            Some(planet),
            10_000,
            Point::new(125 * UNIT, 0),
        ) {
            Ok(id) => id,
            Err(_) => {
                proof {
                    assert(false);
                }
                0
            },
        };
        (star, planet, station)
    }

    /// Makes the player's ship: a vessel fifty units out on the first axis.
    pub fn spawn_ship(&mut self) -> (id: usize)
        requires
            old(self).wf(),
        ensures
            final(self).wf(),
            id == old(self)@.bodies.len(),
            final(self)@.bodies == old(self)@.bodies.push(
                fresh_body(
                    "Ship"@,
                    BodyKind::Vessel(fresh_flight()),
                    None,
                    0,
                    Point { x: 50_000_000, y: 0 },
                ),
            ),
            final(self)@.requests == old(self)@.requests,
            final(self)@.primary == (if old(self)@.primary is Some {
                old(self)@.primary
            } else {
                Some(id)
            }),
    {
        self.spawn_vessel("Ship", Point::new(50 * UNIT, 0))
    }

    /// How many of `item` the vessel `vessel` carries; nothing where
    /// `vessel` names no vessel.
    pub fn quantity(&self, vessel: usize, item: &Item) -> (q: Option<u64>)
        ensures
            q == (if self@.is_vessel(vessel) {
                Some(held(self@.bodies[vessel as int].cargo, item@) as u64)
            } else {
                None
            }),
    {
        if vessel < self.bodies.len() {
            match self.bodies[vessel].state.kind {
                BodyKind::Vessel(_) => Some(self.bodies[vessel].cargo.quantity(item)),
                _ => None,
            }
        } else {
            None
        }
    }

    /// The hold of the vessel `vessel` as rows of item and quantity, one
    /// row for each entry, in no particular order; nothing where `vessel`
    /// names no vessel.
    pub fn manifest(&self, vessel: usize) -> (rows: Option<Vec<(Item, u64)>>)
        ensures
            rows is Some <==> self@.is_vessel(vessel),
            rows is Some ==> forall|i: int|
                0 <= i < rows->0@.len() ==> self@.bodies[vessel as int].cargo.contains_pair(
                    (#[trigger] rows->0@[i]).0@,
                    rows->0@[i].1,
                ),
            rows is Some ==> forall|k: ItemKey|
                self@.bodies[vessel as int].cargo.dom().contains(k) ==> exists|i: int|
                    0 <= i < rows->0@.len() && (#[trigger] rows->0@[i]).0@ == k,
            rows is Some ==> forall|i: int, j: int|
                0 <= i < j < rows->0@.len() ==> (#[trigger] rows->0@[i]).0@ != (
                #[trigger] rows->0@[j]).0@,
    {
        if vessel < self.bodies.len() {
            match self.bodies[vessel].state.kind {
                BodyKind::Vessel(_) => Some(self.bodies[vessel].cargo.manifest()),
                _ => None,
            }
        } else {
            None
        }
    }

    /// Loads `quantity` of `item` into the hold of the vessel `vessel`.
    /// Fails, and loads nothing, where `vessel` names no vessel or the
    /// total would pass `u64::MAX`.
    pub fn store(&mut self, vessel: usize, item: Item, quantity: u64) -> (r: Result<
        (),
        HoldError,
    >)
        requires
            old(self).wf(),
        ensures
            final(self).wf(),
            r is Ok <==> old(self)@.is_vessel(vessel) && held(
                old(self)@.bodies[vessel as int].cargo,
                item@,
            ) + quantity <= u64::MAX,
            r is Ok ==> final(self)@ == old(self)@.with_cargo(
                vessel,
                stored(old(self)@.bodies[vessel as int].cargo, item@, quantity),
            ),
            r is Err ==> final(self)@ == old(self)@,
            r is Err ==> r->Err_0 == (if old(self)@.is_vessel(vessel) {
                HoldError::Cargo(CargoError::QuantityOverflow)
            } else {
                HoldError::NoSuchVessel
            }),
    {
        if vessel >= self.bodies.len() {
            return Err(HoldError::NoSuchVessel);
        }
        match self.bodies[vessel].state.kind {
            BodyKind::Vessel(_) => {},
            _ => {
                return Err(HoldError::NoSuchVessel);
            },
        }
        proof {
            assert(old(self)@.body_ok(vessel as int));
        }
        let r = self.bodies[vessel].cargo.store(item, quantity);
        proof {
            let before = old(self)@;
            let after = self@;
            assert(after.bodies =~= before.with_cargo(
                vessel,
                after.bodies[vessel as int].cargo,
            ).bodies);
            if r is Err {
                assert(after.bodies =~= before.bodies);
            }
            assert forall|i: int| 0 <= i < after.bodies.len() implies #[trigger] after.body_ok(
                i,
            ) by {
                assert(before.body_ok(i));
            }
        }
        match r {
            Ok(()) => Ok(()),
            Err(e) => Err(HoldError::Cargo(e)),
        }
    }

    /// Unloads `quantity` of `item` from the hold of the vessel `vessel`.
    /// Where the hold has less, all of the item goes and the call fails
    /// with what the hold had. Fails, and changes nothing, where `vessel`
    /// names no vessel.
    pub fn remove(&mut self, vessel: usize, item: Item, quantity: u64) -> (r: Result<
        (),
        HoldError,
    >)
        requires
            old(self).wf(),
        ensures
            final(self).wf(),
            r is Ok <==> old(self)@.is_vessel(vessel) && quantity <= held(
                old(self)@.bodies[vessel as int].cargo,
                item@,
            ),
            old(self)@.is_vessel(vessel) ==> final(self)@ == old(self)@.with_cargo(
                vessel,
                removed(old(self)@.bodies[vessel as int].cargo, item@, quantity),
            ),
            !old(self)@.is_vessel(vessel) ==> final(self)@ == old(self)@,
            r is Err ==> r->Err_0 == (if old(self)@.is_vessel(vessel) {
                HoldError::Cargo(
                    CargoError::InsufficientQuantity {
                        held: held(old(self)@.bodies[vessel as int].cargo, item@) as u64,
                    },
                )
            } else {
                HoldError::NoSuchVessel
            }),
    {
        if vessel >= self.bodies.len() {
            return Err(HoldError::NoSuchVessel);
        }
        match self.bodies[vessel].state.kind {
            BodyKind::Vessel(_) => {},
            _ => {
                return Err(HoldError::NoSuchVessel);
            },
        }
        proof {
            assert(old(self)@.body_ok(vessel as int));
        }
        let r = self.bodies[vessel].cargo.remove(item, quantity);
        proof {
            let before = old(self)@;
            let after = self@;
            assert(after.bodies =~= before.with_cargo(
                vessel,
                after.bodies[vessel as int].cargo,
            ).bodies);
            assert forall|i: int| 0 <= i < after.bodies.len() implies #[trigger] after.body_ok(
                i,
            ) by {
                assert(before.body_ok(i));
            }
        }
        match r {
            Ok(()) => Ok(()),
            Err(e) => Err(HoldError::Cargo(e)),
        }
    }

    /// Records the velocity that the physics integrator left the vessel
    /// `vessel` with. Says whether there is such a vessel.
    pub fn set_velocity(&mut self, vessel: usize, velocity: Velocity) -> (found: bool)
        requires
            old(self).wf(),
        ensures
            final(self).wf(),
            found == old(self)@.is_vessel(vessel),
            found ==> final(self)@ == old(self)@.with_state(
                vessel,
                BodyState {
                    kind: BodyKind::Vessel(Flight { velocity, ..old(self)@.flight(vessel) }),
                    ..old(self)@.bodies[vessel as int].state
                },
            ),
            !found ==> final(self)@ == old(self)@,
    {
        if vessel >= self.bodies.len() {
            return false;
        }
        let s = self.bodies[vessel].state;
        match s.kind {
            BodyKind::Vessel(f) => {
                self.set_state(
                    vessel,
                    BodyState { kind: BodyKind::Vessel(Flight { velocity, ..f }), ..s },
                );
                proof {
                    let before = old(self)@;
                    let after = self@;
                    assert forall|i: int| 0 <= i < after.bodies.len() implies #[trigger]
                        after.body_ok(i) by {
                        assert(before.body_ok(i));
                    }
                }
                true
            },
            _ => false,
        }
    }

    /// The bodies in an order in which transforms can be resolved: every
    /// body once, and each after its parent. Stars, planets and stations
    /// come first, by index, and the vessels after them.
    pub fn traversal_order(&self) -> (order: Vec<usize>)
        requires
            self.wf(),
        ensures
            self@.parents_first(order@),
    {
        let n: usize = self.bodies.len();
        let ghost w = self@;
        let mut order: Vec<usize> = Vec::new();
        let mut i: usize = 0;
        while i < n
            invariant
                i <= n,
                n == w.bodies.len(),
                w == self@,
                w.wf(),
                order@.len() + w.vessels_below(i as nat) == i,
                forall|k: int|
                    0 <= k < order@.len() ==> (#[trigger] order@[k]) < i && !w.is_vessel(order@[k]),
                forall|k: int, l: int| 0 <= k < l < order@.len() ==> order@[k] < order@[l],
                forall|id: usize|
                    id < i && !w.is_vessel(id) ==> exists|k: int|
                        0 <= k < order@.len() && #[trigger] order@[k] == id,
            decreases n - i,
        {
            let ghost before = order@;
            match self.bodies[i].state.kind {
                BodyKind::Vessel(_) => {},
                _ => {
                    order.push(i);
                },
            }
            proof {
                assert forall|id: usize| id < i + 1 && !w.is_vessel(id) implies exists|k: int|
                    0 <= k < order@.len() && #[trigger] order@[k] == id by {
                    if id < i {
                        let k = choose|k: int| 0 <= k < before.len() && #[trigger] before[k] == id;
                        assert(order@[k] == id);
                    } else {
                        assert(order@[order@.len() - 1] == id);
                    }
                }
            }
            i = i + 1;
        }
        let ghost first = order@;
        let mut i: usize = 0;
        while i < n
            invariant
                i <= n,
                n == w.bodies.len(),
                w == self@,
                w.wf(),
                first.len() + w.vessels_below(n as nat) == n,
                order@.len() == first.len() + w.vessels_below(i as nat),
                forall|k: int| 0 <= k < first.len() ==> order@[k] == first[k],
                forall|k: int|
                    0 <= k < first.len() ==> (#[trigger] first[k]) < n && !w.is_vessel(first[k]),
                forall|k: int, l: int| 0 <= k < l < first.len() ==> first[k] < first[l],
                forall|id: usize|
                    id < n && !w.is_vessel(id) ==> exists|k: int|
                        0 <= k < first.len() && #[trigger] first[k] == id,
                forall|k: int|
                    first.len() <= k < order@.len() ==> (#[trigger] order@[k]) < i && w.is_vessel(
                        order@[k],
                    ),
                forall|k: int, l: int|
                    first.len() <= k < l < order@.len() ==> order@[k] < order@[l],
                forall|id: usize|
                    id < i && w.is_vessel(id) ==> exists|k: int|
                        first.len() <= k < order@.len() && #[trigger] order@[k] == id,
            decreases n - i,
        {
            let ghost before = order@;
            match self.bodies[i].state.kind {
                BodyKind::Vessel(_) => {
                    order.push(i);
                },
                _ => {},
            }
            proof {
                assert forall|id: usize| id < i + 1 && w.is_vessel(id) implies exists|k: int|
                    first.len() <= k < order@.len() && #[trigger] order@[k] == id by {
                    if id < i {
                        let k = choose|k: int|
                            first.len() <= k < before.len() && #[trigger] before[k] == id;
                        assert(order@[k] == id);
                    } else {
                        assert(order@[order@.len() - 1] == id);
                    }
                }
            }
            i = i + 1;
        }
        proof {
            let o = order@;
            assert forall|k: int| 0 <= k < o.len() implies w.has(#[trigger] o[k]) by {
                if k < first.len() {
                    assert(o[k] == first[k]);
                    assert(first[k] < n);
                }
            }
            assert forall|id: usize| w.has(id) implies exists|k: int|
                0 <= k < o.len() && #[trigger] o[k] == id by {
                if w.is_vessel(id) {
                    let k = choose|k: int| first.len() <= k < o.len() && #[trigger] o[k] == id;
                    assert(o[k] == id);
                } else {
                    let k = choose|k: int| 0 <= k < first.len() && #[trigger] first[k] == id;
                    assert(o[k] == id);
                }
            }
            assert forall|k: int|
                0 <= k < o.len() && w.bodies[(#[trigger] o[k]) as int].state.parent
                    is Some implies exists|j: int|
                0 <= j < k && #[trigger] o[j] == w.bodies[o[k] as int].state.parent->0 by {
                let p = w.bodies[o[k] as int].state.parent->0;
                assert(w.body_ok(o[k] as int));
                if k < first.len() {
                    assert(o[k] == first[k]);
                    assert(!w.is_vessel(first[k]));
                }
                match w.bodies[o[k] as int].state.kind {
                    BodyKind::Vessel(f) => {
                        assert(f.docking is Docked);
                        assert(w.is_station(p));
                    },
                    _ => {
                        assert(p < o[k]);
                    },
                }
                assert(p < n && !w.is_vessel(p));
                let j = choose|j: int| 0 <= j < first.len() && #[trigger] first[j] == p;
                assert(o[j] == p);
                if k < first.len() && j >= k {
                    if j > k {
                        assert(first[k] < first[j]);
                    }
                }
            }
            assert forall|k: int, l: int| 0 <= k < l < o.len() implies o[k] != o[l] by {
                if l < first.len() {
                    assert(first[k] < first[l]);
                } else if k < first.len() {
                    assert(o[k] == first[k]);
                    assert(!w.is_vessel(first[k]));
                    assert(w.is_vessel(o[l]));
                }
            }
        }
        order
    }

    /// The point that body `id` orbits: where its parent is, or the world
    /// origin for a body without one.
    pub fn orbit_center(&self, id: usize) -> (c: Option<Point>)
        requires
            self.wf(),
        ensures
            c == (if self@.has(id) {
                Some(self@.orbit_center(id))
            } else {
                None
            }),
    {
        if id < self.bodies.len() {
            proof {
                assert(self@.body_ok(id as int));
            }
            match self.bodies[id].state.parent {
                Some(p) => Some(self.bodies[p].state.position),
                None => Some(Point::origin()),
            }
        } else {
            None
        }
    }
}

/// The parent links form a forest: every body above another has a lower
/// rank, so no chain of parent links comes back to where it began.
pub proof fn lemma_no_cycle(w: WorldView, id: usize, n: nat)
    requires
        w.wf(),
        w.has(id),
        n >= 1,
    ensures
        w.ancestor(id, n) matches Some(a) ==> w.has(a) && w.rank(a) < w.rank(id) && a != id,
    decreases n,
{
    if n == 1 {
        assert(w.ancestor(id, 0) == Some(id));
        assert(w.body_ok(id as int));
    } else {
        lemma_no_cycle(w, id, (n - 1) as nat);
        match w.ancestor(id, (n - 1) as nat) {
            Some(a) => {
                assert(w.body_ok(a as int));
            },
            None => {},
        }
    }
}

} // verus!
