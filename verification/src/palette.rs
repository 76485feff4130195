//! The sixteen-entry colour table that turns a shade into an RGB triple.

use vstd::prelude::*;

verus! {

/// Number of shades: an iteration count is reduced modulo this before it is
/// stored in a row.
pub const SHADES: u32 = 16;

/// The colour of shade `k`. Shade 0 and everything from 16 up is black.
pub open spec fn palette(k: int) -> (u8, u8, u8) {
    if k == 1 {
        (66, 30, 15)
    } else if k == 2 {
        (25, 7, 26)
    } else if k == 3 {
        (9, 1, 47)
    } else if k == 4 {
        (4, 4, 73)
    } else if k == 5 {
        (0, 7, 100)
    } else if k == 6 {
        (12, 44, 138)
    } else if k == 7 {
        (24, 82, 177)
    } else if k == 8 {
        (57, 125, 209)
    } else if k == 9 {
        (134, 181, 229)
    } else if k == 10 {
        (211, 236, 248)
    } else if k == 11 {
        (241, 233, 191)
    } else if k == 12 {
        (248, 201, 95)
    } else if k == 13 {
        (255, 170, 0)
    } else if k == 14 {
        (204, 128, 0)
    } else if k == 15 {
        (153, 87, 0)
    } else {
        (0, 0, 0)
    }
}

/// Red component of the colour of shade `x`.
pub fn get_r(x: u8) -> (r: u8)
    ensures
        r == palette(x as int).0,
{
    match x {
        1 => 66,
        2 => 25,
        3 => 9,
        4 => 4,
        5 => 0,
        6 => 12,
        7 => 24,
        8 => 57,
        9 => 134,
        10 => 211,
        11 => 241,
        12 => 248,
        13 => 255,
        14 => 204,
        15 => 153,
        _ => 0,
    }
}

/// Green component of the colour of shade `x`.
pub fn get_g(x: u8) -> (g: u8)
    ensures
        g == palette(x as int).1,
{
    match x {
        1 => 30,
        2 => 7,
        3 => 1,
        4 => 4,
        5 => 7,
        6 => 44,
        7 => 82,
        8 => 125,
        9 => 181,
        10 => 236,
        11 => 233,
        12 => 201,
        13 => 170,
        14 => 128,
        15 => 87,
        _ => 0,
    }
}

/// Blue component of the colour of shade `x`.
pub fn get_b(x: u8) -> (b: u8)
    ensures
        b == palette(x as int).2,
{
    match x {
        1 => 15,
        2 => 26,
        3 => 47,
        4 => 73,
        5 => 100,
        6 => 138,
        7 => 177,
        8 => 209,
        9 => 229,
        10 => 248,
        11 => 191,
        12 => 95,
        13 => 0,
        14 => 0,
        15 => 0,
        _ => 0,
    }
}

/// The RGB triple of shade `x`.
pub fn color(x: u8) -> (c: (u8, u8, u8))
    ensures
        c == palette(x as int),
{
    (get_r(x), get_g(x), get_b(x))
}

/// Reduces a raw iteration count to a shade. Counts that differ by a
/// multiple of sixteen get the same shade, so the shade does not tell how
/// many palette cycles a point took to escape.
pub fn shade_of(count: u32) -> (s: u8)
    ensures
        s == count % 16,
        s < 16,
{
    (count % SHADES) as u8
}

} // verus!
