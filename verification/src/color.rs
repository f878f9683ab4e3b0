//! RGBA colours and their SVG renderings.
use vstd::prelude::*;
use crate::decimal::{dec_digits, hex_byte, hex_char, push_decimal, push_hex_byte, digit_str};

verus! {

/// An 8-bit-per-channel RGBA colour.
#[derive(Clone, Copy, Debug, PartialEq, Eq, Structural)]
pub struct Color {
    pub r: u8,
    pub g: u8,
    pub b: u8,
    pub a: u8,
}

impl Color {
    /// Opaque black.
    pub fn black() -> (c: Color)
        ensures
            c == (Color { r: 0, g: 0, b: 0, a: 255 }),
    {
        Color { r: 0, g: 0, b: 0, a: 255 }
    }

    /// Opaque white.
    pub fn white() -> (c: Color)
        ensures
            c == (Color { r: 255, g: 255, b: 255, a: 255 }),
    {
        Color { r: 255, g: 255, b: 255, a: 255 }
    }

    /// An opaque colour.
    pub fn rgb(r: u8, g: u8, b: u8) -> (c: Color)
        ensures
            c == (Color { r, g, b, a: 255 }),
    {
        Color { r, g, b, a: 255 }
    }

    /// A colour with an explicit alpha channel.
    pub fn rgba(r: u8, g: u8, b: u8, a: u8) -> (c: Color)
        ensures
            c == (Color { r, g, b, a }),
    {
        Color { r, g, b, a }
    }
}

/// Thousandths of the opacity `a / 255`, rounded to the nearest integer
/// (`1000 * a / 255 = 200 * a / 51` is never exactly halfway).
pub open spec fn alpha_thousandths(a: u8) -> int {
    (400 * a + 51) / 102
}

/// `a / 255` written with three decimals, for a translucent alpha (`a < 255`).
pub open spec fn alpha_text(a: u8) -> Seq<char> {
    let m = alpha_thousandths(a);
    seq!['0', '.', hex_char(m / 100), hex_char((m / 10) % 10), hex_char(m % 10)]
}

/// The SVG colour text: `#rrggbb` for an opaque colour, otherwise
/// `rgba(r,g,b,alpha)` with the alpha as a fraction with three decimals.
pub open spec fn color_hex_text(c: Color) -> Seq<char> {
    if c.a == 255 {
        seq!['#'] + hex_byte(c.r) + hex_byte(c.g) + hex_byte(c.b)
    } else {
        seq!['r', 'g', 'b', 'a', '('] + dec_digits(c.r as nat) + seq![','] + dec_digits(c.g as nat)
            + seq![','] + dec_digits(c.b as nat) + seq![','] + alpha_text(c.a) + seq![')']
    }
}

/// Renders a colour as SVG paint text.
pub fn color_to_hex(c: Color) -> (s: String)
    ensures
        s@ == color_hex_text(c),
{
    let mut s = String::new();
    if c.a == 255 {
        proof { reveal_strlit("#"); }
        s.append("#");
        push_hex_byte(&mut s, c.r);
        push_hex_byte(&mut s, c.g);
        push_hex_byte(&mut s, c.b);
    } else {
        proof {
            reveal_strlit("rgba(");
            reveal_strlit(",");
            reveal_strlit("0.");
            reveal_strlit(")");
        }
        s.append("rgba(");
        push_decimal(&mut s, c.r as u64);
        s.append(",");
        push_decimal(&mut s, c.g as u64);
        s.append(",");
        push_decimal(&mut s, c.b as u64);
        s.append(",");
        let m: u64 = (400 * (c.a as u64) + 51) / 102;
        assert(m < 1000);
        s.append("0.");
        s.append(digit_str(m / 100));
        s.append(digit_str((m / 10) % 10));
        s.append(digit_str(m % 10));
        s.append(")");
    }
    s
}

} // verus!
