//! Color parsing: hexadecimal color notation to 8-bit RGBA components.

use vstd::prelude::*;

use crate::numeral::{parse_unsigned, parsed_unsigned};

verus! {

/// The value of `digits` read as a hexadecimal `u32`, or `None` when
/// `u32::from_str_radix(digits, 16)` fails.
pub open spec fn hex_u32_value(digits: Seq<char>) -> Option<u32> {
    match parsed_unsigned(digits, 16, u32::MAX as nat) {
        Some(v) => Some(v as u32),
        None => None,
    }
}

/// Read `digits` as a hexadecimal `u32`, as `u32::from_str_radix(digits, 16)`
/// does: an optional `+` followed by at least one hexadecimal digit of either
/// case, with a value that fits in a `u32`.
fn parse_hex_u32(digits: &str) -> (r: Option<u32>)
    ensures
        r == hex_u32_value(digits@),
{
    parse_unsigned(digits, 16, 0xffff_ffffu32)
}

/// The digits of a hex color: the text without one leading `#`.
pub open spec fn hex_digits(hex: Seq<char>) -> Seq<char> {
    if hex.len() > 0 && hex[0] == '#' {
        hex.subrange(1, hex.len() as int)
    } else {
        hex
    }
}

/// The 8-bit RGBA components encoded by the hexadecimal value `value` written
/// with `digit_count` digits: `RRGGBB` (opaque) or `RRGGBBAA`; other lengths
/// encode no color.
pub open spec fn color_components(value: u32, digit_count: nat) -> Option<(u8, u8, u8, u8)> {
    if digit_count == 6 {
        Some((((value >> 16u32) & 0xffu32) as u8, ((value >> 8u32) & 0xffu32) as u8, (value & 0xffu32) as u8, 255u8))
    } else if digit_count == 8 {
        Some((
            ((value >> 24u32) & 0xffu32) as u8,
            ((value >> 16u32) & 0xffu32) as u8,
            ((value >> 8u32) & 0xffu32) as u8,
            (value & 0xffu32) as u8,
        ))
    } else {
        None
    }
}

/// The components of a hexadecimal value written with `digit_count` digits.
pub fn components_of_hex_value(value: u32, digit_count: usize) -> (r: Option<(u8, u8, u8, u8)>)
    ensures
        r == color_components(value, digit_count as nat),
{
    if digit_count == 6 {
        Some((((value >> 16u32) & 0xffu32) as u8, ((value >> 8u32) & 0xffu32) as u8, (value & 0xffu32) as u8, 255u8))
    } else if digit_count == 8 {
        Some((
            ((value >> 24u32) & 0xffu32) as u8,
            ((value >> 16u32) & 0xffu32) as u8,
            ((value >> 8u32) & 0xffu32) as u8,
            (value & 0xffu32) as u8,
        ))
    } else {
        None
    }
}

/// Parse a hex color like `"#ff8800"`, `"ff8800"` or `"#ff880080"` into
/// 8-bit RGBA components (alpha 255 for six digits). `None` when the digits
/// do not parse as hexadecimal or are not six or eight characters long.
pub fn parse_hex_color(hex: &str) -> (r: Option<(u8, u8, u8, u8)>)
    ensures
        hex_u32_value(hex_digits(hex@)) is None ==> r is None,
        hex_u32_value(hex_digits(hex@)) matches Some(v) ==> r == color_components(v, hex_digits(hex@).len()),
{
    let n = hex.unicode_len();
    let digits = if n > 0 && hex.get_char(0) == '#' {
        hex.substring_char(1, n)
    } else {
        hex
    };
    match parse_hex_u32(digits) {
        Some(value) => components_of_hex_value(value, digits.unicode_len()),
        None => None,
    }
}

/// Law: six digits give an opaque color whose components are the three
/// byte pairs, and eight digits add the alpha pair.
pub proof fn law_hex_components(value: u32)
    ensures
        color_components(value, 6) matches Some((r, g, b, a)) && a == 255 && r as u32 * 65536 + g as u32 * 256
            + b as u32 == value % 0x100_0000,
        color_components(value, 8) matches Some((r, g, b, a)) && r as u32 * 0x100_0000 + g as u32 * 0x1_0000
            + b as u32 * 0x100 + a as u32 == value,
{
    assert((((value >> 16u32) & 0xffu32) as u8) as u32 * 65536 + (((value >> 8u32) & 0xffu32) as u8) as u32 * 256
        + ((value & 0xffu32) as u8) as u32 == value % 0x100_0000) by (bit_vector);
    assert((((value >> 24u32) & 0xffu32) as u8) as u32 * 0x100_0000 + (((value >> 16u32) & 0xffu32) as u8) as u32
        * 0x1_0000 + (((value >> 8u32) & 0xffu32) as u8) as u32 * 0x100 + ((value & 0xffu32) as u8) as u32
        == value) by (bit_vector);
}

} // verus!
