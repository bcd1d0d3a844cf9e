//! Reading unsigned numbers from text.
use vstd::prelude::*;

verus! {

pub open spec fn hex_digit(c: char) -> bool {
    ('0' <= c && c <= '9') || ('a' <= c && c <= 'f') || ('A' <= c && c <= 'F')
}

pub open spec fn hex_digit_value(c: char) -> int {
    if '0' <= c && c <= '9' {
        c as int - '0' as int
    } else if 'a' <= c && c <= 'f' {
        c as int - 'a' as int + 10
    } else {
        c as int - 'A' as int + 10
    }
}

pub open spec fn decimal_digit(c: char) -> bool {
    '0' <= c && c <= '9'
}

pub open spec fn all_hex_digits(s: Seq<char>) -> bool {
    forall|i: int| 0 <= i < s.len() ==> hex_digit(#[trigger] s[i])
}

pub open spec fn all_decimal_digits(s: Seq<char>) -> bool {
    forall|i: int| 0 <= i < s.len() ==> decimal_digit(#[trigger] s[i])
}

/// The number that the hexadecimal digits `s` write.
pub open spec fn hex_value(s: Seq<char>) -> int
    decreases s.len(),
{
    if s.len() == 0 {
        0
    } else {
        hex_value(s.drop_last()) * 16 + hex_digit_value(s.last())
    }
}

/// The number that the decimal digits `s` write.
pub open spec fn decimal_value(s: Seq<char>) -> int
    decreases s.len(),
{
    if s.len() == 0 {
        0
    } else {
        decimal_value(s.drop_last()) * 10 + (s.last() as int - '0' as int)
    }
}

/// The digits of a number text, past an optional leading plus sign.
pub open spec fn unsigned_digits(s: Seq<char>) -> Seq<char> {
    if s.len() > 0 && s[0] == '+' {
        s.drop_first()
    } else {
        s
    }
}

/// `s` writes a hexadecimal number that fits in 32 bits.
pub open spec fn hex_u32_ok(s: Seq<char>) -> bool {
    let d = unsigned_digits(s);
    d.len() > 0 && all_hex_digits(d) && hex_value(d) <= u32::MAX
}

/// `s` writes a decimal number that fits in 8 bits.
pub open spec fn decimal_u8_ok(s: Seq<char>) -> bool {
    let d = unsigned_digits(s);
    d.len() > 0 && all_decimal_digits(d) && decimal_value(d) <= u8::MAX
}

/// Relies on `u32::from_str_radix` with radix 16: it accepts an optional `+`
/// followed by one or more hexadecimal digits of either case whose value fits
/// in a `u32`, and returns that value.
#[verifier::external_body]
pub(crate) fn parse_hex_u32(s: &str) -> (r: Option<u32>)
    ensures
        r is Some <==> hex_u32_ok(s@),
        r matches Some(v) ==> v == hex_value(unsigned_digits(s@)),
{
    u32::from_str_radix(s, 16).ok()
}

/// Relies on `u8::from_str`: it accepts an optional `+` followed by one or
/// more decimal digits whose value fits in a `u8`, and returns that value.
#[verifier::external_body]
pub(crate) fn parse_decimal_u8(s: &str) -> (r: Option<u8>)
    ensures
        r is Some <==> decimal_u8_ok(s@),
        r matches Some(v) ==> v == decimal_value(unsigned_digits(s@)),
{
    s.parse::<u8>().ok()
}

} // verus!
