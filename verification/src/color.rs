//! An RGBA color and its integer and hex-string forms.

use vstd::prelude::*;

verus! {

/// An RGBA color, one byte per component.
#[derive(Debug, Default, Clone, Copy, PartialEq, Eq, Structural)]
pub struct Color {
    /// Red component
    pub r: u8,
    /// Green component
    pub g: u8,
    /// Blue component
    pub b: u8,
    /// Alpha (opacity) component
    pub a: u8,
}

/// The 32-bit RGBA form of a color: red in the most significant byte.
pub open spec fn color_int(c: Color) -> u32 {
    (0x1000000 * c.r + 0x10000 * c.g + 0x100 * c.b + c.a) as u32
}

/// Whether `c` is an ASCII hexadecimal digit.
pub open spec fn is_hex_digit(c: char) -> bool {
    (48 <= c as u32 && c as u32 <= 57) || (97 <= c as u32 && c as u32 <= 102) || (65 <= c as u32
        && c as u32 <= 70)
}

/// The value of an ASCII hexadecimal digit.
pub open spec fn hex_val(c: char) -> u32 {
    if 48 <= c as u32 && c as u32 <= 57 {
        (c as u32 - 48) as u32
    } else if 97 <= c as u32 && c as u32 <= 102 {
        (c as u32 - 87) as u32
    } else if 65 <= c as u32 && c as u32 <= 70 {
        (c as u32 - 55) as u32
    } else {
        0
    }
}

impl Color {
    /// A color from RGB components, fully opaque.
    pub fn from_rgb(red: u8, green: u8, blue: u8) -> (c: Self)
        ensures
            c == (Color { r: red, g: green, b: blue, a: 0xff }),
    {
        Self { r: red, g: green, b: blue, a: 0xff }
    }

    /// A color from RGBA components.
    pub fn from_rgba(red: u8, green: u8, blue: u8, alpha: u8) -> (c: Self)
        ensures
            c == (Color { r: red, g: green, b: blue, a: alpha }),
    {
        Self { r: red, g: green, b: blue, a: alpha }
    }

    /// The color whose 32-bit RGBA form is `value`.
    pub fn from_integer(value: u32) -> (c: Self)
        ensures
            c.r == value / 0x1000000,
            c.g == (value / 0x10000) % 0x100,
            c.b == (value / 0x100) % 0x100,
            c.a == value % 0x100,
            color_int(c) == value,
    {
        let c = Self {
            r: (value / 0x1000000) as u8,
            g: ((value / 0x10000) % 0x100) as u8,
            b: ((value / 0x100) % 0x100) as u8,
            a: (value % 0x100) as u8,
        };
        proof {
            let x = value as int;
            vstd::arithmetic::div_mod::lemma_fundamental_div_mod(x, 0x100);
            vstd::arithmetic::div_mod::lemma_fundamental_div_mod(x / 0x100, 0x100);
            vstd::arithmetic::div_mod::lemma_fundamental_div_mod(x / 0x10000, 0x100);
            vstd::arithmetic::div_mod::lemma_div_denominator(x, 0x100, 0x100);
            vstd::arithmetic::div_mod::lemma_div_denominator(x, 0x10000, 0x100);
            assert(0x10000 * 0x100 == 0x1000000) by (nonlinear_arith);
        }
        c
    }

    /// The 32-bit RGBA form of the color.
    pub fn to_integer(self) -> (r: u32)
        ensures
            r == color_int(self),
    {
        0x1000000 * (self.r as u32) + 0x10000 * (self.g as u32) + 0x100 * (self.b as u32)
            + self.a as u32
    }

    /// The color a `#RRGGBB` hex string denotes, fully opaque.
    pub fn from_hex(hex: &str) -> (c: Self)
        requires
            hex@.len() == 7,
            hex@[0] == '#',
            forall|i: int| 1 <= i < 7 ==> is_hex_digit(#[trigger] hex@[i]),
        ensures
            c.r == 16 * hex_val(hex@[1]) + hex_val(hex@[2]),
            c.g == 16 * hex_val(hex@[3]) + hex_val(hex@[4]),
            c.b == 16 * hex_val(hex@[5]) + hex_val(hex@[6]),
            c.a == 0xff,
    {
        let r: u8 = 16 * hex_digit(hex.get_char(1)) + hex_digit(hex.get_char(2));
        let g: u8 = 16 * hex_digit(hex.get_char(3)) + hex_digit(hex.get_char(4));
        let b: u8 = 16 * hex_digit(hex.get_char(5)) + hex_digit(hex.get_char(6));
        Self { r, g, b, a: 0xff }
    }

    /// The four components as a tuple, for shader integer vectors.
    pub fn to_ivec4(self) -> (r: (u8, u8, u8, u8))
        ensures
            r == (self.r, self.g, self.b, self.a),
    {
        (self.r, self.g, self.b, self.a)
    }
}

/// The value of one ASCII hexadecimal digit.
fn hex_digit(c: char) -> (r: u8)
    requires
        is_hex_digit(c),
    ensures
        r == hex_val(c),
{
    let u: u32 = c as u32;
    if u >= 97 {
        (u - 87) as u8
    } else if u >= 65 {
        (u - 55) as u8
    } else {
        (u - 48) as u8
    }
}

} // verus!
