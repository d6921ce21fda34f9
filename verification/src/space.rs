//! Lengths, angles and velocities as integers.

use vstd::prelude::*;

verus! {

/// Microradians in one full turn.
pub const TURN: u32 = 6_283_185;

/// Millionths in one distance unit.
pub const UNIT: i64 = 1_000_000;

/// The greatest distance at which a station takes a vessel, in millionths
/// of a distance unit: fifty units.
pub const CAPTURE_RADIUS: u64 = 50_000_000;

/// A place in the plane, each coordinate in millionths of a distance unit.
#[derive(Clone, Copy, Debug, PartialEq, Eq, Structural)]
pub struct Point {
    pub x: i64,
    pub y: i64,
}

/// Displacement per tick, each component in millionths of a distance unit.
#[derive(Clone, Copy, Debug, PartialEq, Eq, Structural)]
pub struct Velocity {
    pub x: i64,
    pub y: i64,
}

/// The direction a vessel points in, as the components of its forward unit
/// vector in thousandths.
#[derive(Clone, Copy, Debug, PartialEq, Eq, Structural)]
pub struct Heading {
    pub x: i32,
    pub y: i32,
}

/// An angle brought back into `0 .. TURN`.
pub open spec fn wrap_angle(a: int) -> int {
    a % (TURN as int)
}

/// The square of the distance between two points.
pub open spec fn dist_sq(a: Point, b: Point) -> int {
    (a.x - b.x) * (a.x - b.x) + (a.y - b.y) * (a.y - b.y)
}

/// Whether two points are no farther apart than the capture radius.
pub open spec fn in_capture_range(a: Point, b: Point) -> bool {
    dist_sq(a, b) <= CAPTURE_RADIUS * CAPTURE_RADIUS
}

/// A value held to the range of `i64`.
pub open spec fn clamp_i64(v: int) -> int {
    if v < i64::MIN {
        i64::MIN as int
    } else if v > i64::MAX {
        i64::MAX as int
    } else {
        v
    }
}

/// Nineteen twentieths of a velocity component, rounded towards zero.
pub open spec fn damped(c: int) -> int {
    if c >= 0 {
        (c * 19) / 20
    } else {
        -(((-c) * 19) / 20)
    }
}

impl Point {
    pub fn new(x: i64, y: i64) -> (p: Point)
        ensures
            p == (Point { x, y }),
    {
        Point { x, y }
    }

    /// The world origin.
    pub fn origin() -> (p: Point)
        ensures
            p == (Point { x: 0, y: 0 }),
    {
        Point { x: 0, y: 0 }
    }
}

impl Heading {
    pub fn new(x: i32, y: i32) -> (h: Heading)
        ensures
            h == (Heading { x, y }),
    {
        Heading { x, y }
    }
}

impl Velocity {
    /// At rest.
    pub fn zero() -> (v: Velocity)
        ensures
            v == (Velocity { x: 0, y: 0 }),
    {
        Velocity { x: 0, y: 0 }
    }

    /// This velocity with `(dx, dy)` added, each component held to the range
    /// of `i64`.
    pub open spec fn pushed(self, dx: int, dy: int) -> Velocity {
        Velocity { x: clamp_i64(self.x + dx) as i64, y: clamp_i64(self.y + dy) as i64 }
    }

    /// This velocity scaled to nineteen twentieths.
    pub open spec fn braked(self) -> Velocity {
        Velocity { x: damped(self.x as int) as i64, y: damped(self.y as int) as i64 }
    }

    /// Adds `gain` times the vector `(hx, hy)`, saturating at the ends of
    /// `i64`.
    pub fn push(self, hx: i64, hy: i64, gain: i64) -> (v: Velocity)
        ensures
            v == self.pushed(gain * hx, gain * hy),
    {
        Velocity { x: add_scaled(self.x, hx, gain), y: add_scaled(self.y, hy, gain) }
    }

    /// Scales both components to nineteen twentieths, rounding towards zero.
    pub fn brake(self) -> (v: Velocity)
        ensures
            v == self.braked(),
    {
        Velocity { x: damp(self.x), y: damp(self.y) }
    }
}

/// `base + gain * h`, saturating at the ends of `i64`.
pub fn add_scaled(base: i64, h: i64, gain: i64) -> (r: i64)
    ensures
        r == clamp_i64(base + gain * h),
{
    assert(-0x4000_0000_0000_0000_0000_0000_0000_0000 <= gain * h
        <= 0x4000_0000_0000_0000_0000_0000_0000_0000) by (nonlinear_arith)
        requires
            -0x8000_0000_0000_0000 <= gain <= 0x8000_0000_0000_0000,
            -0x8000_0000_0000_0000 <= h <= 0x8000_0000_0000_0000,
    ;
    let step: i128 = (gain as i128) * (h as i128);
    let sum: i128 = (base as i128) + step;
    if sum < i64::MIN as i128 {
        i64::MIN
    } else if sum > i64::MAX as i128 {
        i64::MAX
    } else {
        sum as i64
    }
}

/// Nineteen twentieths of `c`, rounded towards zero.
pub fn damp(c: i64) -> (r: i64)
    ensures
        r == damped(c as int),
{
    if c >= 0 {
        let wide: u128 = (c as u128) * 19;
        let q: u128 = wide / 20;
        q as i64
    } else {
        let mag: u128 = (-(c as i128)) as u128;
        let wide: u128 = mag * 19;
        let q: u128 = wide / 20;
        (-(q as i128)) as i64
    }
}

/// Turning back by the angle one has turned by undoes the turn, whatever
/// the angle: a body that is swept along its orbit by `delta` and spun by
/// `-delta` about itself faces where it faced.
pub proof fn lemma_counter_turn_cancels(angle: int, delta: int)
    requires
        0 <= angle < TURN,
    ensures
        wrap_angle(wrap_angle(angle + delta) - delta) == angle,
{
    let full = TURN as int;
    let q = (angle + delta) / full;
    vstd::arithmetic::div_mod::lemma_fundamental_div_mod(angle + delta, full);
    assert(wrap_angle(angle + delta) - delta == (-q) * full + angle);
    vstd::arithmetic::div_mod::lemma_fundamental_div_mod_converse(
        wrap_angle(angle + delta) - delta,
        full,
        -q,
        angle,
    );
}

/// Turning in two goes is turning by the sum.
pub proof fn lemma_turns_add(angle: int, first: int, second: int)
    ensures
        wrap_angle(wrap_angle(angle + first) + second) == wrap_angle(angle + first + second),
{
    let full = TURN as int;
    let q = (angle + first) / full;
    vstd::arithmetic::div_mod::lemma_fundamental_div_mod(angle + first, full);
    let inner = wrap_angle(angle + first) + second;
    let p = inner / full;
    vstd::arithmetic::div_mod::lemma_fundamental_div_mod(inner, full);
    assert(angle + first + second == (q + p) * full + inner % full) by (nonlinear_arith)
        requires
            angle + first == full * q + (angle + first) % full,
            inner == (angle + first) % full + second,
            inner == full * p + inner % full,
    ;
    vstd::arithmetic::div_mod::lemma_mod_bound(inner, full);
    vstd::arithmetic::div_mod::lemma_fundamental_div_mod_converse(
        angle + first + second,
        full,
        q + p,
        inner % full,
    );
}

/// The angle `angle` turned by `delta`, both in microradians, brought back
/// into `0 .. TURN`.
pub fn turned(angle: u32, delta: i64) -> (r: u32)
    ensures
        r == wrap_angle(angle + delta),
        r < TURN,
{
    let full: i128 = TURN as i128;
    let sum: i128 = (angle as i128) + (delta as i128);
    if sum >= 0 {
        (sum % full) as u32
    } else {
        let back: i128 = (-sum) % full;
        proof {
            let q = (-sum) / (full as int);
            vstd::arithmetic::div_mod::lemma_fundamental_div_mod(-sum, full as int);
            if back == 0 {
                vstd::arithmetic::div_mod::lemma_fundamental_div_mod_converse(
                    sum as int,
                    full as int,
                    -q,
                    0,
                );
            } else {
                vstd::arithmetic::div_mod::lemma_fundamental_div_mod_converse(
                    sum as int,
                    full as int,
                    -q - 1,
                    full - back,
                );
            }
        }
        if back == 0 {
            0
        } else {
            (full - back) as u32
        }
    }
}

/// The squared distance between two points when they are no farther apart
/// than the capture radius, and nothing when they are.
pub fn capture_distance(a: Point, b: Point) -> (r: Option<u64>)
    ensures
        r is Some <==> in_capture_range(a, b),
        r is Some ==> r->0 == dist_sq(a, b),
{
    let reach: i128 = CAPTURE_RADIUS as i128;
    let dx: i128 = (a.x as i128) - (b.x as i128);
    let dy: i128 = (a.y as i128) - (b.y as i128);
    let ax: i128 = if dx < 0 { -dx } else { dx };
    let ay: i128 = if dy < 0 { -dy } else { dy };
    assert(ax * ax == dx * dx) by (nonlinear_arith)
        requires
            ax == dx || ax == -dx,
    ;
    assert(ay * ay == dy * dy) by (nonlinear_arith)
        requires
            ay == dy || ay == -dy,
    ;
    assert(ax * ax >= 0 && ay * ay >= 0) by (nonlinear_arith);
    if ax > reach {
        assert(ax * ax > reach * reach) by (nonlinear_arith)
            requires
                ax > reach,
                reach >= 0,
        ;
        None
    } else if ay > reach {
        assert(ay * ay > reach * reach) by (nonlinear_arith)
            requires
                ay > reach,
                reach >= 0,
        ;
        None
    } else {
        assert(ax * ax <= reach * reach) by (nonlinear_arith)
            requires
                0 <= ax <= reach,
        ;
        assert(ay * ay <= reach * reach) by (nonlinear_arith)
            requires
                0 <= ay <= reach,
        ;
        let sq: i128 = ax * ax + ay * ay;
        if sq <= reach * reach {
            Some(sq as u64)
        } else {
            None
        }
    }
}

} // verus!
