//! The per-tick input word of one player: how it is packed and read.

use vstd::prelude::*;
use crate::geometry::{
    floor_root_unique, is_floor_sqrt, length_of, normalized, Vec2, DIAGONAL, UNIT,
};

verus! {

/// Bit set while the player steers up.
pub const INPUT_UP: u32 = 1;

/// Bit set while the player steers down.
pub const INPUT_DOWN: u32 = 2;

/// Bit set while the player steers left.
pub const INPUT_LEFT: u32 = 4;

/// Bit set while the player steers right.
pub const INPUT_RIGHT: u32 = 8;

/// Bit set while the player holds the trigger.
pub const INPUT_SHOOT: u32 = 16;

/// Bit set while the player clicks to place a barrier.
pub const INPUT_CLICK: u32 = 32;

/// Offset that moves a cursor coordinate from the centred world into the grid.
pub const GRID_OFFSET: i64 = 20;

/// What one player wants in one tick, before it is packed.
#[derive(Clone, Copy, Debug, PartialEq, Eq, Structural)]
pub struct Intent {
    pub up: bool,
    pub down: bool,
    pub left: bool,
    pub right: bool,
    pub shoot: bool,
    pub click: bool,
    /// Whole part of the cursor's world coordinates; read only with `click`.
    pub cursor_x: i32,
    pub cursor_y: i32,
}

/// Where the cursor points in the world, in thousandths.
#[derive(Clone, Copy, Debug, PartialEq, Eq, Structural)]
pub struct MousePosition(pub Vec2);

impl Default for MousePosition {
    fn default() -> (cursor: Self)
        ensures
            cursor == MousePosition(Vec2 { x: 0, y: 0 }),
    {
        MousePosition(Vec2 { x: 0, y: 0 })
    }
}

/// The whole world units in a coordinate given in thousandths, rounded
/// toward zero and held within what 32 bits can carry.
pub open spec fn whole_part(coordinate: int) -> int {
    let whole = if coordinate < 0 { -((-coordinate) / 1000) } else { coordinate / 1000 };
    if whole < i32::MIN {
        i32::MIN as int
    } else if whole > i32::MAX {
        i32::MAX as int
    } else {
        whole
    }
}

/// The whole part of a cursor coordinate, as `Intent` carries it.
pub fn cursor_whole(coordinate: i64) -> (r: i32)
    ensures
        r == whole_part(coordinate as int),
{
    let whole: i64 = if coordinate == i64::MIN {
        -9223372036854775
    } else if coordinate < 0 {
        -((-coordinate) / 1000)
    } else {
        coordinate / 1000
    };
    if whole < -2147483648 {
        i32::MIN
    } else if whole > 2147483647 {
        i32::MAX
    } else {
        whole as i32
    }
}

/// The low eight bits of `value`, as a number in `0..256`.
pub open spec fn low_byte(value: int) -> int {
    value % 256
}

/// The grid cell that a cursor coordinate is sent as.
pub open spec fn cell_of(cursor: int) -> int {
    low_byte(cursor + GRID_OFFSET)
}

/// 1 where `b` holds, else 0.
pub open spec fn bit(b: bool) -> int {
    if b { 1 } else { 0 }
}

/// The input word of `intent`. A click carries the two cells and
/// silences steering and trigger.
pub open spec fn packed(intent: Intent) -> int {
    if intent.click {
        32 + 64 * cell_of(intent.cursor_x as int) + 16384 * cell_of(intent.cursor_y as int)
    } else {
        bit(intent.up) + 2 * bit(intent.down) + 4 * bit(intent.left) + 8 * bit(intent.right)
            + 16 * bit(intent.shoot)
    }
}

/// Where the steering bits of `input` point along one axis: the bit
/// `forward` against the bit `backward`.
pub open spec fn axis(input: u32, forward: u32, backward: u32) -> int {
    bit(input & forward != 0) - bit(input & backward != 0)
}

/// The unit vector of the steering `(dx, dy)`, each in `-1..=1`.
pub open spec fn steering(dx: int, dy: int) -> Vec2 {
    if dx != 0 && dy != 0 {
        Vec2 { x: (dx * DIAGONAL) as i64, y: (dy * DIAGONAL) as i64 }
    } else {
        Vec2 { x: (dx * UNIT) as i64, y: (dy * UNIT) as i64 }
    }
}

/// The steering of `input` before it is scaled to a unit: one unit along
/// each axis that it steers on.
pub open spec fn raw_steering(input: u32) -> Vec2 {
    Vec2 {
        x: (axis(input, INPUT_RIGHT, INPUT_LEFT) * UNIT) as i64,
        y: (axis(input, INPUT_UP, INPUT_DOWN) * UNIT) as i64,
    }
}

/// The direction that `input` steers in.
pub open spec fn direction_of(input: u32) -> Vec2 {
    steering(axis(input, INPUT_RIGHT, INPUT_LEFT), axis(input, INPUT_UP, INPUT_DOWN))
}

/// Whether `input` holds the trigger.
pub open spec fn shooting(input: u32) -> bool {
    input & INPUT_SHOOT != 0
}

/// The cell that `input` clicks on, if it clicks.
pub open spec fn click_of(input: u32) -> Option<(u8, u8)> {
    if input & INPUT_CLICK != 0 {
        Some((((input >> 6) & 63) as u8, ((input >> 14) & 63) as u8))
    } else {
        None
    }
}

/// Keeps the low eight bits of `value`.
pub fn convert_i32_to_u8(value: i32) -> (r: u8)
    ensures
        r == low_byte(value as int),
{
    let low: i32 = value & 255;
    assert(0 <= low < 256 && low == (value as int) % 256) by (bit_vector)
        requires low == value & 255;
    low as u8
}

/// Packs the intent of one player into its input word.
pub fn encode_input(intent: Intent) -> (bits: u32)
    ensures
        bits == packed(intent),
{
    if intent.click {
        let shifted_x: i64 = intent.cursor_x as i64 + GRID_OFFSET;
        let shifted_y: i64 = intent.cursor_y as i64 + GRID_OFFSET;
        let low_x: i64 = shifted_x & 255;
        let low_y: i64 = shifted_y & 255;
        assert(0 <= low_x < 256 && low_x == (shifted_x as int) % 256) by (bit_vector)
            requires low_x == shifted_x & 255;
        assert(0 <= low_y < 256 && low_y == (shifted_y as int) % 256) by (bit_vector)
            requires low_y == shifted_y & 255;
        let cell_x: u32 = low_x as u32;
        let cell_y: u32 = low_y as u32;
        INPUT_CLICK + 64 * cell_x + 16384 * cell_y
    } else {
        let mut bits: u32 = 0;
        if intent.up {
            bits = bits + INPUT_UP;
        }
        if intent.down {
            bits = bits + INPUT_DOWN;
        }
        if intent.left {
            bits = bits + INPUT_LEFT;
        }
        if intent.right {
            bits = bits + INPUT_RIGHT;
        }
        if intent.shoot {
            bits = bits + INPUT_SHOOT;
        }
        bits
    }
}

/// The unit vector that the steering bits of `input` point in; opposite
/// bits cancel, and no steering gives the zero vector.
pub fn direction(input: u32) -> (r: Vec2)
    ensures
        r == direction_of(input),
{
    let mut dx: i64 = 0;
    let mut dy: i64 = 0;
    if input & INPUT_UP != 0 {
        dy = dy + 1;
    }
    if input & INPUT_DOWN != 0 {
        dy = dy - 1;
    }
    if input & INPUT_LEFT != 0 {
        dx = dx - 1;
    }
    if input & INPUT_RIGHT != 0 {
        dx = dx + 1;
    }
    if dx != 0 && dy != 0 {
        Vec2 { x: dx * DIAGONAL, y: dy * DIAGONAL }
    } else {
        Vec2 { x: dx * UNIT, y: dy * UNIT }
    }
}

/// Whether the trigger bit of `input` is set.
pub fn is_shooting(input: u32) -> (r: bool)
    ensures
        r == shooting(input),
{
    input & INPUT_SHOOT != 0
}

/// The clicked cell, six bits of each coordinate, if the click bit is set.
pub fn get_click_position(input: u32) -> (r: Option<(u8, u8)>)
    ensures
        r == click_of(input),
{
    if input & INPUT_CLICK != 0 {
        let cell_x: u32 = (input >> 6) & 63;
        let cell_y: u32 = (input >> 14) & 63;
        assert(cell_x < 64) by (bit_vector)
            requires cell_x == (input >> 6) & 63;
        assert(cell_y < 64) by (bit_vector)
            requires cell_y == (input >> 14) & 63;
        Some((cell_x as u8, cell_y as u8))
    } else {
        None
    }
}

/// Reading a packed intent gives back its steering, trigger and click:
/// without a click the direction is that of the four steering keys and the
/// trigger is as it was pressed; with a click there is no steering and no
/// shot, and each cell comes back in its low six bits.
pub proof fn decode_encode_roundtrip(intent: Intent)
    ensures
        0 <= packed(intent) <= u32::MAX,
        !intent.click ==> {
            &&& direction_of(packed(intent) as u32) == steering(
                bit(intent.right) - bit(intent.left),
                bit(intent.up) - bit(intent.down),
            )
            &&& shooting(packed(intent) as u32) == intent.shoot
            &&& click_of(packed(intent) as u32) == None::<(u8, u8)>
        },
        intent.click ==> {
            &&& direction_of(packed(intent) as u32) == (Vec2 { x: 0, y: 0 })
            &&& !shooting(packed(intent) as u32)
            &&& click_of(packed(intent) as u32) == Some(
                (
                    (cell_of(intent.cursor_x as int) % 64) as u8,
                    (cell_of(intent.cursor_y as int) % 64) as u8,
                ),
            )
        },
{
    if intent.click {
        let cx: u32 = cell_of(intent.cursor_x as int) as u32;
        let cy: u32 = cell_of(intent.cursor_y as int) as u32;
        let bits: u32 = (32 + 64 * cx + 16384 * cy) as u32;
        assert(bits & 1 == 0 && bits & 2 == 0 && bits & 4 == 0 && bits & 8 == 0 && bits & 16 == 0
            && bits & 32 != 0 && (bits >> 6) & 63 == cx % 64 && (bits >> 14) & 63 == cy % 64)
            by (bit_vector)
            requires
                cx < 256,
                cy < 256,
                bits == 32 + 64 * cx + 16384 * cy,
        ;
    } else {
        let u: u32 = bit(intent.up) as u32;
        let d: u32 = bit(intent.down) as u32;
        let l: u32 = bit(intent.left) as u32;
        let r: u32 = bit(intent.right) as u32;
        let s: u32 = bit(intent.shoot) as u32;
        let bits: u32 = (u + 2 * d + 4 * l + 8 * r + 16 * s) as u32;
        assert((bits & 1 != 0) == (u == 1) && (bits & 2 != 0) == (d == 1) && (bits & 4 != 0) == (l
            == 1) && (bits & 8 != 0) == (r == 1) && (bits & 16 != 0) == (s == 1) && bits & 32 == 0)
            by (bit_vector)
            requires
                u <= 1,
                d <= 1,
                l <= 1,
                r <= 1,
                s <= 1,
                bits == u + 2 * d + 4 * l + 8 * r + 16 * s,
        ;
    }
}

/// The direction of an input is its steering scaled to a unit by its
/// Euclidean length, and the zero vector where it does not steer.
pub proof fn direction_is_normalized(input: u32)
    ensures
        direction_of(input) == normalized(raw_steering(input), length_of(raw_steering(input))),
{
    let v = raw_steering(input);
    let square = (v.x * v.x + v.y * v.y) * 1_000_000;
    assert(v.x * v.x == (if v.x == 0 { 0int } else { 1_000_000 }) && v.y * v.y == (if v.y == 0 {
        0int
    } else {
        1_000_000
    })) by (nonlinear_arith)
        requires
            v.x == 0 || v.x == 1000 || v.x == -1000,
            v.y == 0 || v.y == 1000 || v.y == -1000,
    ;
    if v.x != 0 && v.y != 0 {
        assert(is_floor_sqrt(2_000_000_000_000, 1_414_213)) by (nonlinear_arith);
        floor_root_unique(square, 1_414_213, 1_414_213);
        assert((1000int * 1_000_000) / 1_414_213 == 707);
    } else if v.x != 0 || v.y != 0 {
        assert(is_floor_sqrt(1_000_000_000_000, 1_000_000)) by (nonlinear_arith);
        floor_root_unique(square, 1_000_000, 1_000_000);
        assert((1000int * 1_000_000) / 1_000_000 == 1000);
        assert((0int * 1_000_000) / 1_000_000 == 0);
    } else {
        assert(is_floor_sqrt(0, 0));
        floor_root_unique(square, 0, 0);
    }
}

} // verus!
