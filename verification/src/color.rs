use vstd::prelude::*;

use crate::vec3::Vec3;
use vstd::arithmetic::div_mod::lemma_div_by_multiple;
use vstd::arithmetic::div_mod::lemma_div_is_ordered;

verus! {

/// An 8-bit RGB colour triple, the pixel format of the rendered buffer.
#[derive(Clone, Copy, PartialEq, Eq, Structural, Debug)]
pub struct Color {
    pub red: u8,
    pub green: u8,
    pub blue: u8,
}

impl Color {
    pub fn new(red: u8, green: u8, blue: u8) -> (c: Color)
        ensures
            c.red == red,
            c.green == green,
            c.blue == blue,
    {
        Color { red, green, blue }
    }
}

impl Default for Color {
    /// The sentinel background colour: pure black.
    fn default() -> (c: Color)
        ensures
            c.red == 0,
            c.green == 0,
            c.blue == 0,
    {
        Color { red: 0, green: 0, blue: 0 }
    }
}

/// The display level of a fixed-point surface-normal component `num / den`
/// in `[-1, 1]`: the component scaled by 128 and shifted by 127, so that -1
/// sits at the bottom of the byte range and +1 at 255.  Written over a
/// non-negative dividend: `(num + den) * 128 / den - 1` equals
/// `num * 128 / den + 127` exactly.
pub open spec fn shade_level(num: int, den: int) -> int {
    ((num + den) * 128) / den - 1
}

pub open spec fn clamp_byte(v: int) -> int {
    if v < 0 {
        0
    } else if v > 255 {
        255
    } else {
        v
    }
}

/// Map one fixed-point surface-normal component to its display byte.
pub fn shade_component(num: i64, den: i64) -> (b: u8)
    requires
        0 < den <= 1_000_000_000,
        -den <= num <= den,
    ensures
        b == clamp_byte(shade_level(num as int, den as int)),
{
    let m: u64 = (num + den) as u64;
    let q: u64 = (m * 128) / (den as u64);
    proof {
        assert(m * 128 <= 256 * (den as u64)) by (nonlinear_arith)
            requires
                m <= 2 * (den as u64);
        lemma_div_is_ordered((m * 128) as int, 256 * (den as int), den as int);
        lemma_div_by_multiple(256, den as int);
    }
    if q == 0 {
        0u8
    } else {
        (q - 1) as u8
    }
}

/// Map a fixed-point surface normal to a colour, channel by channel.
pub fn normal_to_color(normal: &Vec3, den: i64) -> (c: Color)
    requires
        0 < den <= 1_000_000_000,
        -den <= normal.x <= den,
        -den <= normal.y <= den,
        -den <= normal.z <= den,
    ensures
        c.red == clamp_byte(shade_level(normal.x as int, den as int)),
        c.green == clamp_byte(shade_level(normal.y as int, den as int)),
        c.blue == clamp_byte(shade_level(normal.z as int, den as int)),
{
    Color {
        red: shade_component(normal.x, den),
        green: shade_component(normal.y, den),
        blue: shade_component(normal.z, den),
    }
}

/// Shade one pixel from the outcome of an intersection query: a hit
/// contributes its surface normal, a miss is background and maps to the
/// sentinel colour, pure black.
pub fn shade_hit(hit: Option<Vec3>, den: i64) -> (c: Color)
    requires
        0 < den <= 1_000_000_000,
        hit matches Some(n) ==> -den <= n.x <= den && -den <= n.y <= den && -den <= n.z
            <= den,
    ensures
        hit matches Some(n) ==> c.red == clamp_byte(shade_level(n.x as int, den as int))
            && c.green == clamp_byte(shade_level(n.y as int, den as int)) && c.blue
            == clamp_byte(shade_level(n.z as int, den as int)),
        hit is None ==> c == (Color { red: 0u8, green: 0u8, blue: 0u8 }),
{
    match hit {
        Some(n) => normal_to_color(&n, den),
        None => Color { red: 0, green: 0, blue: 0 },
    }
}

} // verus!
