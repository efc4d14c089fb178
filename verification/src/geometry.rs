//! Fixed-point vectors and the fixed dimensions of the arena.

use vstd::prelude::*;

verus! {

/// Side of the square grid, in cells.
pub const WORLD_SIZE: u32 = 41;

/// Thousandths in one world unit.
pub const UNIT: i64 = 1000;

/// Half of the side of the world, in thousandths.
pub const HALF_WORLD: i64 = 20500;

/// Radius of a player, in thousandths.
pub const PLAYER_RADIUS: i64 = 500;

/// Radius of a projectile, in thousandths.
pub const PROJECTILE_RADIUS: i64 = 25;

/// Half of the side of a barrier tile, in thousandths.
pub const HALF_TILE: i64 = 500;

/// Component of a unit vector along a diagonal: the thousandths in one
/// over the square root of two, rounded down.
pub const DIAGONAL: i64 = 707;

/// Largest magnitude of a coordinate that the simulation handles.
pub const COORD_LIMIT: i64 = 1_000_000_000_000;

/// A point or a displacement in the plane, in thousandths of a world unit.
#[derive(Clone, Copy, Debug, PartialEq, Eq, Structural)]
pub struct Vec2 {
    pub x: i64,
    pub y: i64,
}

/// The magnitude of an integer.
pub open spec fn magnitude(v: int) -> int {
    if v < 0 { -v } else { v }
}

/// The sign of an integer: -1, 0 or 1.
pub open spec fn sign(v: int) -> int {
    if v < 0 { -1 } else if v > 0 { 1 } else { 0 }
}

/// `v` held within `[low, high]`.
pub open spec fn clamped(v: int, low: int, high: int) -> int {
    if v < low { low } else if v > high { high } else { v }
}

/// Whether `r` is the square root of `n`, rounded down.
pub open spec fn is_floor_sqrt(n: int, r: int) -> bool {
    0 <= r && r * r <= n && n < (r + 1) * (r + 1)
}

/// Whether both coordinates of `v` lie within `limit` of zero.
pub open spec fn within(v: Vec2, limit: int) -> bool {
    -limit <= v.x <= limit && -limit <= v.y <= limit
}

/// `v` scaled to length `UNIT`, each component rounded toward zero, where
/// `len` is the length of `v` in thousandths of its own unit; the zero
/// vector where `len` is zero.
pub open spec fn normalized(v: Vec2, len: int) -> Vec2 {
    if len == 0 {
        Vec2 { x: 0, y: 0 }
    } else {
        Vec2 {
            x: (sign(v.x as int) * ((magnitude(v.x as int) * 1_000_000) / len)) as i64,
            y: (sign(v.y as int) * ((magnitude(v.y as int) * 1_000_000) / len)) as i64,
        }
    }
}

/// `component` times `factor` thousandths, rounded toward zero.
pub open spec fn scaled(component: int, factor: int) -> int {
    sign(component) * ((magnitude(component) * factor) / 1000)
}

/// `v` times `factor` thousandths, each component rounded toward zero.
pub open spec fn scaled_vec(v: Vec2, factor: int) -> Vec2 {
    Vec2 { x: scaled(v.x as int, factor) as i64, y: scaled(v.y as int, factor) as i64 }
}

/// A bound on the magnitude of `scaled`.
pub proof fn scaled_bound(component: int, factor: int)
    requires
        -1000 <= component <= 1000,
        0 <= factor,
    ensures
        -factor <= scaled(component, factor) <= factor,
{
    let m = magnitude(component);
    assert(0 <= (m * factor) / 1000 <= factor) by (nonlinear_arith)
        requires
            0 <= m <= 1000,
            0 <= factor,
    ;
}

/// Scales a component of a unit vector by `factor` thousandths.
pub fn scale(component: i64, factor: i64) -> (r: i64)
    requires
        -1000 <= component <= 1000,
        0 <= factor <= 5_000_000_000_000_000,
    ensures
        r == scaled(component as int, factor as int),
        -factor <= r <= factor,
{
    let m: i64 = abs_i64(component);
    assert(0 <= m * factor <= 5_000_000_000_000_000_000) by (nonlinear_arith)
        requires
            0 <= m <= 1000,
            0 <= factor <= 5_000_000_000_000_000,
    ;
    let q: i64 = (m * factor) / 1000;
    proof {
        scaled_bound(component as int, factor as int);
    }
    if component < 0 {
        -q
    } else if component > 0 {
        q
    } else {
        0
    }
}

/// Scales a unit vector by `factor` thousandths.
pub fn scale_vec(v: Vec2, factor: i64) -> (r: Vec2)
    requires
        within(v, 1000),
        0 <= factor <= 5_000_000_000_000_000,
    ensures
        r == scaled_vec(v, factor as int),
        within(r, factor as int),
{
    Vec2 { x: scale(v.x, factor), y: scale(v.y, factor) }
}

/// The magnitude of `v`.
pub fn abs_i64(v: i64) -> (r: i64)
    requires
        v > i64::MIN,
    ensures
        r == magnitude(v as int),
{
    if v < 0 { -v } else { v }
}

/// Holds `v` within `[low, high]`.
pub fn clamp_i64(v: i64, low: i64, high: i64) -> (r: i64)
    ensures
        r == clamped(v as int, low as int, high as int),
{
    if v < low { low } else if v > high { high } else { v }
}

/// Squaring keeps the order of two numbers that are not negative.
proof fn square_monotone(a: int, b: int)
    requires
        0 <= a <= b,
    ensures
        a * a <= b * b,
{
    assert(a * a <= b * b) by (nonlinear_arith)
        requires 0 <= a <= b;
}

/// The square root of `n`, rounded down, found by bisection.
pub fn floor_sqrt(n: u64) -> (r: u64)
    ensures
        is_floor_sqrt(n as int, r as int),
{
    let mut low: u64 = 0;
    let mut high: u64 = 4294967296;
    assert(4294967296int * 4294967296int > u64::MAX) by (nonlinear_arith);
    while high - low > 1
        invariant
            low < high <= 4294967296,
            low * low <= n,
            n < high * high,
        decreases high - low,
    {
        let mid: u64 = low + (high - low) / 2;
        proof {
            square_monotone(mid as int, 4294967295);
            assert(4294967295int * 4294967295int <= u64::MAX) by (nonlinear_arith);
        }
        if mid * mid <= n {
            low = mid;
        } else {
            high = mid;
        }
    }
    low
}

/// The square root of `n`, rounded down.
pub open spec fn floor_root(n: int) -> int {
    choose|r: int| is_floor_sqrt(n, r)
}

/// A number has one rounded-down square root.
pub proof fn floor_root_unique(n: int, a: int, b: int)
    requires
        is_floor_sqrt(n, a),
        is_floor_sqrt(n, b),
    ensures
        a == b,
        a == floor_root(n),
{
    if a < b {
        square_monotone(a + 1, b);
    }
    if b < a {
        square_monotone(b + 1, a);
    }
    let c = floor_root(n);
    if a < c {
        square_monotone(a + 1, c);
    }
    if c < a {
        square_monotone(c + 1, a);
    }
}

/// The length of `v` in thousandths of its own unit, rounded down.
pub open spec fn length_of(v: Vec2) -> int {
    floor_root((v.x * v.x + v.y * v.y) * 1_000_000)
}

/// Largest magnitude of a component of a vector that can be scaled to a unit.
pub const NORMALIZE_LIMIT: i64 = 1_000_000;

/// Scales `v` to unit length, or gives the zero vector for the zero vector.
pub fn normalize_or_zero(v: Vec2) -> (r: Vec2)
    requires
        within(v, NORMALIZE_LIMIT as int),
    ensures
        r == normalized(v, length_of(v)),
        within(r, UNIT as int),
{
    let ax: i64 = abs_i64(v.x);
    let ay: i64 = abs_i64(v.y);
    assert(ax * ax <= 1_000_000_000_000 && ay * ay <= 1_000_000_000_000 && ax * ax == v.x * v.x
        && ay * ay == v.y * v.y) by (nonlinear_arith)
        requires
            0 <= ax <= 1_000_000,
            0 <= ay <= 1_000_000,
            ax == v.x || ax == -v.x,
            ay == v.y || ay == -v.y,
    ;
    let sx: u64 = (ax as u64) * (ax as u64);
    let sy: u64 = (ay as u64) * (ay as u64);
    assert(sx == ax * ax && sy == ay * ay);
    let square: u64 = (sx + sy) * 1_000_000;
    let len: u64 = floor_sqrt(square);
    proof {
        floor_root_unique((v.x * v.x + v.y * v.y) * 1_000_000, len as int, len as int);
    }
    if len == 0 {
        return Vec2 { x: 0, y: 0 };
    }
    proof {
        assert((1000 * ax) * (1000 * ax) <= square && (1000 * ay) * (1000 * ay) <= square)
            by (nonlinear_arith)
            requires
                square == (ax * ax + ay * ay) * 1_000_000,
        ;
        if 1000 * ax > len {
            square_monotone(len as int + 1, 1000 * ax);
        }
        if 1000 * ay > len {
            square_monotone(len as int + 1, 1000 * ay);
        }
        if len > 4294967295 {
            square_monotone(4294967296, len as int);
            assert(4294967296int * 4294967296int > u64::MAX) by (nonlinear_arith);
        }
    }
    let qx: i64 = (ax * 1_000_000) / (len as i64);
    let qy: i64 = (ay * 1_000_000) / (len as i64);
    assert(0 <= qx <= 1000 && 0 <= qy <= 1000) by (nonlinear_arith)
        requires
            0 <= 1000 * ax <= len,
            0 <= 1000 * ay <= len,
            len > 0,
            qx == (ax * 1_000_000) / (len as int),
            qy == (ay * 1_000_000) / (len as int),
    ;
    let x: i64 = if v.x < 0 { -qx } else if v.x > 0 { qx } else { 0 };
    let y: i64 = if v.y < 0 { -qy } else if v.y > 0 { qy } else { 0 };
    assert(x == sign(v.x as int) * qx && y == sign(v.y as int) * qy);
    Vec2 { x, y }
}

} // verus!
