//! Fixed-width integers read from a byte buffer at a given position.
//!
//! The reads themselves are done by the `byteorder` crate on a
//! `std::io::Cursor`; this module states what they return.

use vstd::prelude::*;
use byteorder::{BigEndian, LittleEndian, ReadBytesExt};
use std::io::Cursor;

verus! {

/// The unsigned integer that the `n` bytes of `s` from `at` on spell in
/// big-endian order (most significant byte first).
pub open spec fn be_uint(s: Seq<u8>, at: int, n: nat) -> nat
    decreases n,
{
    if n == 0 {
        0
    } else {
        256 * be_uint(s, at, (n - 1) as nat) + s[at + n - 1] as nat
    }
}

/// The unsigned integer that the `n` bytes of `s` from `at` on spell in
/// little-endian order (least significant byte first).
pub open spec fn le_uint(s: Seq<u8>, at: int, n: nat) -> nat
    decreases n,
{
    if n == 0 {
        0
    } else {
        s[at] as nat + 256 * le_uint(s, at + 1, (n - 1) as nat)
    }
}

/// Whether `n` bytes can be read from a buffer of `len` bytes at `at`.
pub open spec fn in_bounds(len: nat, at: int, n: nat) -> bool {
    0 <= at && at + n <= len
}

/// An integer of `n` bytes is below `256^n`, here for the widths in use.
pub proof fn lemma_uint_bounds(s: Seq<u8>, at: int)
    ensures
        be_uint(s, at, 1) < 0x100,
        be_uint(s, at, 2) < 0x1_0000,
        be_uint(s, at, 3) < 0x100_0000,
        be_uint(s, at, 4) < 0x1_0000_0000,
        le_uint(s, at, 1) < 0x100,
        le_uint(s, at, 2) < 0x1_0000,
        le_uint(s, at, 3) < 0x100_0000,
        le_uint(s, at, 4) < 0x1_0000_0000,
{
    reveal_with_fuel(be_uint, 5);
    reveal_with_fuel(le_uint, 5);
}

/// Calls `byteorder::ReadBytesExt::read_u8` on a cursor over `buf` placed
/// at `at`. Claimed: it succeeds exactly where the buffer holds a byte
/// at `at`, and then returns that byte.
#[verifier::external_body]
pub(crate) fn read_u8(buf: &[u8], at: usize) -> (r: Result<u8, std::io::Error>)
    ensures
        r is Ok <==> in_bounds(buf@.len(), at as int, 1),
        r matches Ok(v) ==> v == buf@[at as int],
{
    let mut rdr = Cursor::new(buf);
    rdr.set_position(at as u64);
    rdr.read_u8()
}

/// Calls `byteorder::ReadBytesExt::read_u16::<LittleEndian>` on a cursor
/// over `buf` placed at `at`. Claimed: it succeeds exactly where the buffer
/// holds two bytes from `at` on, and then returns their little-endian value.
#[verifier::external_body]
pub(crate) fn read_u16_le(buf: &[u8], at: usize) -> (r: Result<u16, std::io::Error>)
    ensures
        r is Ok <==> in_bounds(buf@.len(), at as int, 2),
        r matches Ok(v) ==> v == le_uint(buf@, at as int, 2),
{
    let mut rdr = Cursor::new(buf);
    rdr.set_position(at as u64);
    rdr.read_u16::<LittleEndian>()
}

/// Calls `byteorder::ReadBytesExt::read_u16::<BigEndian>` on a cursor over
/// `buf` placed at `at`. Claimed: it succeeds exactly where the buffer holds
/// two bytes from `at` on, and then returns their big-endian value.
#[verifier::external_body]
pub(crate) fn read_u16_be(buf: &[u8], at: usize) -> (r: Result<u16, std::io::Error>)
    ensures
        r is Ok <==> in_bounds(buf@.len(), at as int, 2),
        r matches Ok(v) ==> v == be_uint(buf@, at as int, 2),
{
    let mut rdr = Cursor::new(buf);
    rdr.set_position(at as u64);
    rdr.read_u16::<BigEndian>()
}

/// Calls `byteorder::ReadBytesExt::read_u32::<LittleEndian>` on a cursor
/// over `buf` placed at `at`. Claimed: it succeeds exactly where the buffer
/// holds four bytes from `at` on, and then returns their little-endian value.
#[verifier::external_body]
pub(crate) fn read_u32_le(buf: &[u8], at: usize) -> (r: Result<u32, std::io::Error>)
    ensures
        r is Ok <==> in_bounds(buf@.len(), at as int, 4),
        r matches Ok(v) ==> v == le_uint(buf@, at as int, 4),
{
    let mut rdr = Cursor::new(buf);
    rdr.set_position(at as u64);
    rdr.read_u32::<LittleEndian>()
}

/// Calls `byteorder::ReadBytesExt::read_uint::<BigEndian>` on a cursor over
/// `buf` placed at `at`. Claimed: it succeeds exactly where the buffer holds
/// `nbytes` bytes from `at` on, and then returns their big-endian value.
/// The outside function panics unless `nbytes` is between 1 and 8.
#[verifier::external_body]
pub(crate) fn read_uint_be(buf: &[u8], at: usize, nbytes: usize) -> (r: Result<u64, std::io::Error>)
    requires
        1 <= nbytes <= 8,
    ensures
        r is Ok <==> in_bounds(buf@.len(), at as int, nbytes as nat),
        r matches Ok(v) ==> v == be_uint(buf@, at as int, nbytes as nat),
{
    let mut rdr = Cursor::new(buf);
    rdr.set_position(at as u64);
    rdr.read_uint::<BigEndian>(nbytes)
}

} // verus!
