//! The two small binary options: the validity interval and the sequence number.
use vstd::prelude::*;

verus! {

/// The little-endian `u16` held in the first two bytes of `b`.
pub open spec fn le_u16_of(b: Seq<u8>) -> Option<u16> {
    if b.len() >= 2 {
        Some((b[0] as int + 256 * b[1] as int) as u16)
    } else {
        None
    }
}

/// The validity interval, in milliseconds, that a 16-bit field announces:
/// with bit 0 set it counts 4-second units, else tenths of a second.
pub open spec fn validity_millis(field: u16) -> nat {
    if field % 2 == 1 {
        field as nat * 4000
    } else {
        field as nat * 100
    }
}

/// Reads a little-endian `u16` from the first two bytes of `b`.
pub fn read_u16_le(b: &[u8]) -> (r: Option<u16>)
    ensures
        r == le_u16_of(b@),
{
    if b.len() >= 2 {
        Some(b[0] as u16 + 256 * (b[1] as u16))
    } else {
        None
    }
}

/// The validity interval, in milliseconds, that a 16-bit field announces.
pub fn decode_validity(field: u16) -> (r: u64)
    ensures
        r == validity_millis(field),
{
    if field % 2 == 1 {
        field as u64 * 4000
    } else {
        field as u64 * 100
    }
}

} // verus!
