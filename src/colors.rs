//! Conversions between `#RRGGBB` colour text and byte channels.
use vstd::prelude::*;
use crate::num::Num;
use crate::text::{hex_color, hex_color_text};

verus! {

/// Writes the three channels as `#RRGGBB`, two upper-case hex digits each.
pub fn rgb_to_hex(r: u8, g: u8, b: u8) -> (s: String)
    ensures
        s@ == hex_color_text(r as nat, g as nat, b as nat),
        s@.len() == 7,
{
    proof {
        reveal_with_fuel(crate::text::hex_digits, 3);
    }
    hex_color(r as u16, g as u16, b as u16)
}


/// The value of a hexadecimal digit (either case), if `c` is one.
pub open spec fn hex_value(c: char) -> Option<nat> {
    if '0' <= c && c <= '9' {
        Some((c as nat - '0' as nat) as nat)
    } else if 'a' <= c && c <= 'f' {
        Some((c as nat - 'a' as nat + 10) as nat)
    } else if 'A' <= c && c <= 'F' {
        Some((c as nat - 'A' as nat + 10) as nat)
    } else {
        None
    }
}

/// Whether the two hexadecimal digits at `i` and `i + 1` are valid.
pub open spec fn channel_ok(s: Seq<char>, i: int) -> bool {
    hex_value(s[i]) is Some && hex_value(s[i + 1]) is Some
}

/// The byte written by the two hexadecimal digits at `i` and `i + 1`.
pub open spec fn channel_at(s: Seq<char>, i: int) -> nat {
    16 * hex_value(s[i])->0 + hex_value(s[i + 1])->0
}

/// Whether `s` has the shape of a colour: `#` and seven characters in all.
pub open spec fn color_shaped(s: Seq<char>) -> bool {
    s.len() == 7 && s[0] == '#'
}

/// Whether `s` is a well-formed `#RRGGBB` colour.
pub open spec fn color_ok(s: Seq<char>) -> bool {
    color_shaped(s) && channel_ok(s, 1) && channel_ok(s, 3) && channel_ok(s, 5)
}

/// The message for a text that is not a well-formed colour: the first check
/// that fails names it.
pub open spec fn color_error(s: Seq<char>) -> Seq<char> {
    if !color_shaped(s) {
        "Invalid hex color format"@
    } else if !channel_ok(s, 1) {
        "Invalid red component"@
    } else if !channel_ok(s, 3) {
        "Invalid green component"@
    } else {
        "Invalid blue component"@
    }
}

fn hex_digit_value(c: char) -> (r: Option<u8>)
    ensures
        r is Some <==> hex_value(c) is Some,
        r is Some ==> r->0 as nat == hex_value(c)->0,
{
    if '0' <= c && c <= '9' {
        Some((c as u32 - '0' as u32) as u8)
    } else if 'a' <= c && c <= 'f' {
        Some((c as u32 - 'a' as u32 + 10) as u8)
    } else if 'A' <= c && c <= 'F' {
        Some((c as u32 - 'A' as u32 + 10) as u8)
    } else {
        None
    }
}

fn channel(hex: &str, i: usize) -> (r: Option<u8>)
    requires
        i < 6,
        hex@.len() == 7,
    ensures
        r is Some <==> channel_ok(hex@, i as int),
        r is Some ==> r->0 as nat == channel_at(hex@, i as int),
{
    let hi = hex_digit_value(hex.get_char(i));
    let lo = hex_digit_value(hex.get_char(i + 1));
    match (hi, lo) {
        (Some(h), Some(l)) => Some(h * 16 + l),
        _ => None,
    }
}

/// Reads a `#RRGGBB` colour (hex digits of either case) into its channels.
pub fn hex_to_rgb(hex: &str) -> (r: Result<(u8, u8, u8), &'static str>)
    ensures
        match r {
            Ok((red, green, blue)) => color_ok(hex@)
                && red as nat == channel_at(hex@, 1)
                && green as nat == channel_at(hex@, 3)
                && blue as nat == channel_at(hex@, 5),
            Err(e) => !color_ok(hex@) && e@ == color_error(hex@),
        },
{
    if hex.unicode_len() != 7 || hex.get_char(0) != '#' {
        return Err("Invalid hex color format");
    }
    let red = match channel(hex, 1) {
        Some(v) => v,
        None => { return Err("Invalid red component"); },
    };
    let green = match channel(hex, 3) {
        Some(v) => v,
        None => { return Err("Invalid green component"); },
    };
    let blue = match channel(hex, 5) {
        Some(v) => v,
        None => { return Err("Invalid blue component"); },
    };
    Ok((red, green, blue))
}

/// A channel scaled by `k` millionths, rounded down and capped at 255.
pub open spec fn scaled_channel(c: nat, k: int) -> nat {
    let v = (c * k) / 1000000;
    if v > 255 {
        255
    } else if v < 0 {
        0
    } else {
        v as nat
    }
}

/// The colour `#RRGGBB` of `hex` with each channel scaled by `k` millionths.
pub open spec fn scaled_color_text(hex: Seq<char>, k: int) -> Seq<char> {
    hex_color_text(
        scaled_channel(channel_at(hex, 1), k),
        scaled_channel(channel_at(hex, 3), k),
        scaled_channel(channel_at(hex, 5), k),
    )
}

fn scale_channel(c: u8, k: i64) -> (r: u8)
    requires
        0 <= k <= 2000000,
    ensures
        r as nat == scaled_channel(c as nat, k as int),
{
    assert(c as i64 * k <= 255 * 2000000) by (nonlinear_arith)
        requires
            0 <= c <= 255,
            0 <= k <= 2000000,
    ;
    assert(c as i64 * k >= 0) by (nonlinear_arith)
        requires
            0 <= c,
            0 <= k,
    ;
    let v: i64 = (c as i64 * k) / 1000000;
    if v > 255 {
        255
    } else {
        v as u8
    }
}

fn scale_color(color_hex: &str, k: i64) -> (r: Result<String, &'static str>)
    requires
        0 <= k <= 2000000,
    ensures
        match r {
            Ok(s) => color_ok(color_hex@) && s@ == scaled_color_text(color_hex@, k as int),
            Err(e) => !color_ok(color_hex@) && e@ == color_error(color_hex@),
        },
{
    match hex_to_rgb(color_hex) {
        Ok((red, green, blue)) => {
            let r = scale_channel(red, k);
            let g = scale_channel(green, k);
            let b = scale_channel(blue, k);
            Ok(rgb_to_hex(r, g, b))
        },
        Err(e) => Err(e),
    }
}

/// Whether a fraction lies in `[0, 1]`.
pub open spec fn fraction_ok(fraction: Num) -> bool {
    0 <= fraction.micros <= 1000000
}

/// Darkens a colour: each channel times `1 - fraction`, rounded down.
pub fn darker(color_hex: &str, fraction: Num) -> (r: Result<String, &'static str>)
    ensures
        match r {
            Ok(s) => fraction_ok(fraction) && color_ok(color_hex@) && s@ == scaled_color_text(
                color_hex@,
                1000000 - fraction.micros,
            ),
            Err(e) => if !fraction_ok(fraction) {
                e@ == "Fraction must be between 0.0 and 1.0"@
            } else {
                !color_ok(color_hex@) && e@ == color_error(color_hex@)
            },
        },
{
    if fraction.micros < 0 || fraction.micros > 1000000 {
        return Err("Fraction must be between 0.0 and 1.0");
    }
    scale_color(color_hex, 1000000 - fraction.micros)
}

/// Lightens a colour: each channel times `1 + fraction`, rounded down and
/// capped at 255.
pub fn lighter(color_hex: &str, fraction: Num) -> (r: Result<String, &'static str>)
    ensures
        match r {
            Ok(s) => fraction_ok(fraction) && color_ok(color_hex@) && s@ == scaled_color_text(
                color_hex@,
                1000000 + fraction.micros,
            ),
            Err(e) => if !fraction_ok(fraction) {
                e@ == "Fraction must be between 0.0 and 1.0"@
            } else {
                !color_ok(color_hex@) && e@ == color_error(color_hex@)
            },
        },
{
    if fraction.micros < 0 || fraction.micros > 1000000 {
        return Err("Fraction must be between 0.0 and 1.0");
    }
    scale_color(color_hex, 1000000 + fraction.micros)
}

} // verus!
