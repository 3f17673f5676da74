//! The 8-bit additive checksum of a payload, and its two hexadecimal digits.

use vstd::prelude::*;

use crate::parse::{need, skip, ErrorKind, Needed, Parsed, ParsedView};

verus! {

/// Sum of all bytes of `bytes`, as a natural number.
pub open spec fn byte_sum(bytes: Seq<u8>) -> nat
    decreases bytes.len(),
{
    if bytes.len() == 0 {
        0
    } else {
        byte_sum(bytes.drop_last()) + bytes.last() as nat
    }
}

/// The checksum of a payload: the sum of its bytes modulo 256.
pub open spec fn spec_checksum(bytes: Seq<u8>) -> u8 {
    (byte_sum(bytes) % 256) as u8
}

/// Compute a checksum of `bytes`: modulo-256 sum of each byte in `bytes`.
pub fn compute_checksum(bytes: &[u8]) -> (sum: u8)
    ensures
        sum == spec_checksum(bytes@),
{
    let mut sum: u8 = 0;
    let mut i: usize = 0;
    while i < bytes.len()
        invariant
            i <= bytes@.len(),
            sum == spec_checksum(bytes@.take(i as int)),
        decreases bytes@.len() - i,
    {
        proof {
            let next = bytes@.take(i + 1);
            assert(next.drop_last() == bytes@.take(i as int));
            assert(next.last() == bytes@[i as int]);
        }
        sum = sum.wrapping_add(bytes[i]);
        i += 1;
    }
    assert(bytes@.take(i as int) == bytes@);
    sum
}

/// Value of a hexadecimal digit, in either case; `None` for any other byte.
pub open spec fn spec_hex_value(digit: u8) -> Option<u8> {
    if 0x30 <= digit <= 0x39 {
        Some((digit - 0x30) as u8)
    } else if 0x61 <= digit <= 0x66 {
        Some((digit - 0x61 + 10) as u8)
    } else if 0x41 <= digit <= 0x46 {
        Some((digit - 0x41 + 10) as u8)
    } else {
        None
    }
}

/// Value of a hexadecimal digit, in either case.
pub fn hex_value(digit: u8) -> (value: Option<u8>)
    ensures
        value == spec_hex_value(digit),
        value matches Some(v) ==> v < 16,
{
    if 0x30 <= digit && digit <= 0x39 {
        Some(digit - 0x30)
    } else if 0x61 <= digit && digit <= 0x66 {
        Some(digit - 0x61 + 10)
    } else if 0x41 <= digit && digit <= 0x46 {
        Some(digit - 0x41 + 10)
    } else {
        None
    }
}

/// The lower-case hexadecimal digit of a value below 16.
pub open spec fn spec_hex_digit(value: u8) -> u8
    recommends
        value < 16,
{
    if value < 10 {
        (0x30 + value) as u8
    } else {
        (0x61 + value - 10) as u8
    }
}

/// The lower-case hexadecimal digit of a value below 16.
pub fn hex_digit(value: u8) -> (digit: u8)
    requires
        value < 16,
    ensures
        digit == spec_hex_digit(value),
        spec_hex_value(digit) == Some(value),
{
    if value < 10 {
        0x30 + value
    } else {
        0x61 + (value - 10)
    }
}

/// The two lower-case hexadecimal digits of a byte, high digit first.
pub open spec fn spec_hex(value: u8) -> Seq<u8> {
    seq![spec_hex_digit(value / 16), spec_hex_digit(value % 16)]
}

/// What `checksum` makes of `input`: a byte from its first two bytes, read as
/// hexadecimal digits.
pub open spec fn spec_parse_checksum(input: Seq<u8>) -> ParsedView<u8> {
    if input.len() < 2 {
        ParsedView::Incomplete(need(2))
    } else {
        match (spec_hex_value(input[0]), spec_hex_value(input[1])) {
            (Some(high), Some(low)) => ParsedView::Done(input.skip(2), (high * 16 + low) as u8),
            _ => ParsedView::Error(ErrorKind::MalformedChecksum),
        }
    }
}

/// Parses the two hexadecimal digits of a checksum from the start of `input`.
pub fn checksum<'a>(input: &'a [u8]) -> (parsed: Parsed<'a, u8>)
    ensures
        parsed@ == spec_parse_checksum(input@),
{
    if input.len() < 2 {
        return Parsed::Incomplete(Needed::Size(2));
    }
    match (hex_value(input[0]), hex_value(input[1])) {
        (Some(high), Some(low)) => Parsed::Done(skip(input, 2), high * 16 + low),
        _ => Parsed::Error(ErrorKind::MalformedChecksum),
    }
}

/// The digits that `spec_hex` writes are read back as the byte they stand for.
pub proof fn hex_round_trip(value: u8, tail: Seq<u8>)
    ensures
        spec_parse_checksum(spec_hex(value) + tail) == ParsedView::<u8>::Done(tail, value),
{
    let input = spec_hex(value) + tail;
    assert(input[0] == spec_hex_digit(value / 16));
    assert(input[1] == spec_hex_digit(value % 16));
    assert(input.skip(2) =~= tail);
}

} // verus!
