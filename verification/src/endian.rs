//! Big-endian scalars: what their bytes are, and the reads and writes that
//! move them between a byte buffer and a value.
//!
//! The reads and writes are those of the `byteorder` crate, on the standard
//! library's `Write for Vec<u8>`, which appends to the vector and so takes
//! every write, and `Read for &[u8]`, which copies from the front of the
//! slice and moves the slice past what it copied.

use byteorder::{BigEndian, ReadBytesExt, WriteBytesExt};
use vstd::prelude::*;

verus! {

/// The four bytes of `v`, most significant first.
pub open spec fn be_u32(v: u32) -> Seq<u8> {
    seq![
        (v / 0x100_0000) as u8,
        (v / 0x1_0000 % 0x100) as u8,
        (v / 0x100 % 0x100) as u8,
        (v % 0x100) as u8,
    ]
}

/// The number whose big-endian bytes are the first four of `b`.
pub open spec fn u32_from_be(b: Seq<u8>) -> u32
    recommends
        b.len() >= 4,
{
    (b[0] * 0x100_0000 + b[1] * 0x1_0000 + b[2] * 0x100 + b[3]) as u32
}

/// The eight bytes of `v`, most significant first.
pub open spec fn be_u64(v: u64) -> Seq<u8> {
    be_u32((v / 0x1_0000_0000) as u32) + be_u32((v % 0x1_0000_0000) as u32)
}

/// The number whose big-endian bytes are the first eight of `b`.
pub open spec fn u64_from_be(b: Seq<u8>) -> u64
    recommends
        b.len() >= 8,
{
    (u32_from_be(b) * 0x1_0000_0000 + u32_from_be(b.skip(4))) as u64
}

/// The two's-complement bit pattern of `v`, read as an unsigned number.
pub open spec fn i32_bits(v: i32) -> u32 {
    if v >= 0 {
        v as u32
    } else {
        (v + 0x1_0000_0000) as u32
    }
}

/// The signed number whose two's-complement bit pattern is `u`.
pub open spec fn i32_from_bits(u: u32) -> i32 {
    if u < 0x8000_0000 {
        u as i32
    } else {
        (u - 0x1_0000_0000) as i32
    }
}

/// The two's-complement bit pattern of `v`, read as an unsigned number.
pub open spec fn i64_bits(v: i64) -> u64 {
    if v >= 0 {
        v as u64
    } else {
        (v + 0x1_0000_0000_0000_0000) as u64
    }
}

/// The signed number whose two's-complement bit pattern is `u`.
pub open spec fn i64_from_bits(u: u64) -> i64 {
    if u < 0x8000_0000_0000_0000 {
        u as i64
    } else {
        (u - 0x1_0000_0000_0000_0000) as i64
    }
}

/// Reading back the bytes of a 32-bit number gives the number, whatever
/// follows them.
pub proof fn lemma_u32_be_inverse(v: u32, rest: Seq<u8>)
    ensures
        be_u32(v).len() == 4,
        u32_from_be(be_u32(v) + rest) == v,
{
    let b = be_u32(v) + rest;
    assert(b[0] == v / 0x100_0000 && b[1] == v / 0x1_0000 % 0x100 && b[2] == v / 0x100 % 0x100
        && b[3] == v % 0x100) by {
        assert(v / 0x100_0000 < 0x100) by (bit_vector);
    }
    assert(v == (v / 0x100_0000) * 0x100_0000 + (v / 0x1_0000 % 0x100) * 0x1_0000 + (v / 0x100
        % 0x100) * 0x100 + v % 0x100) by (bit_vector);
}

/// Reading back the bytes of a 64-bit number gives the number, whatever
/// follows them.
pub proof fn lemma_u64_be_inverse(v: u64, rest: Seq<u8>)
    ensures
        be_u64(v).len() == 8,
        u64_from_be(be_u64(v) + rest) == v,
{
    let hi = (v / 0x1_0000_0000) as u32;
    let lo = (v % 0x1_0000_0000) as u32;
    let all = be_u64(v) + rest;
    lemma_u32_be_inverse(hi, be_u32(lo) + rest);
    assert(all == be_u32(hi) + (be_u32(lo) + rest));
    lemma_u32_be_inverse(lo, rest);
    assert(all.skip(4) == be_u32(lo) + rest);
}

/// The bit pattern of a signed 32-bit number reads back as the number.
pub proof fn lemma_i32_bits_inverse(v: i32)
    ensures
        i32_from_bits(i32_bits(v)) == v,
{
}

/// The bit pattern of a signed 64-bit number reads back as the number.
pub proof fn lemma_i64_bits_inverse(v: i64)
    ensures
        i64_from_bits(i64_bits(v)) == v,
{
}

/// `byteorder::WriteBytesExt::write_u8` on a byte vector: appends the byte
/// and succeeds.
#[verifier::external_body]
pub(crate) fn put_u8(out: &mut Vec<u8>, v: u8) -> (r: Result<(), byteorder::Error>)
    ensures
        r is Ok,
        final(out)@ == old(out)@.push(v),
{
    out.write_u8(v)
}

/// `byteorder::WriteBytesExt::write_u32::<BigEndian>` on a byte vector:
/// appends the four bytes of `v`, most significant first, and succeeds.
#[verifier::external_body]
pub(crate) fn put_u32(out: &mut Vec<u8>, v: u32) -> (r: Result<(), byteorder::Error>)
    ensures
        r is Ok,
        final(out)@ == old(out)@ + be_u32(v),
{
    out.write_u32::<BigEndian>(v)
}

/// `byteorder::WriteBytesExt::write_i32::<BigEndian>` on a byte vector:
/// appends the four bytes of the two's-complement pattern of `v`, most
/// significant first, and succeeds.
#[verifier::external_body]
pub(crate) fn put_i32(out: &mut Vec<u8>, v: i32) -> (r: Result<(), byteorder::Error>)
    ensures
        r is Ok,
        final(out)@ == old(out)@ + be_u32(i32_bits(v)),
{
    out.write_i32::<BigEndian>(v)
}

/// `byteorder::WriteBytesExt::write_u64::<BigEndian>` on a byte vector:
/// appends the eight bytes of `v`, most significant first, and succeeds.
#[verifier::external_body]
pub(crate) fn put_u64(out: &mut Vec<u8>, v: u64) -> (r: Result<(), byteorder::Error>)
    ensures
        r is Ok,
        final(out)@ == old(out)@ + be_u64(v),
{
    out.write_u64::<BigEndian>(v)
}

/// `byteorder::WriteBytesExt::write_i64::<BigEndian>` on a byte vector:
/// appends the eight bytes of the two's-complement pattern of `v`, most
/// significant first, and succeeds.
#[verifier::external_body]
pub(crate) fn put_i64(out: &mut Vec<u8>, v: i64) -> (r: Result<(), byteorder::Error>)
    ensures
        r is Ok,
        final(out)@ == old(out)@ + be_u64(i64_bits(v)),
{
    out.write_i64::<BigEndian>(v)
}

/// `byteorder::ReadBytesExt::read_u8` on a byte slice: takes the first byte
/// off the slice, or fails where the slice is empty.
#[verifier::external_body]
pub(crate) fn get_u8(input: &mut &[u8]) -> (r: Result<u8, byteorder::Error>)
    ensures
        old(input)@.len() >= 1 ==> r == Ok::<u8, byteorder::Error>(old(input)@[0])
            && final(input)@ == old(input)@.skip(1),
        old(input)@.len() < 1 ==> r is Err,
{
    input.read_u8()
}

/// `byteorder::ReadBytesExt::read_u32::<BigEndian>` on a byte slice: takes
/// the first four bytes off the slice and reads them most significant
/// first, or fails where fewer than four are left.
#[verifier::external_body]
pub(crate) fn get_u32(input: &mut &[u8]) -> (r: Result<u32, byteorder::Error>)
    ensures
        old(input)@.len() >= 4 ==> r == Ok::<u32, byteorder::Error>(u32_from_be(old(input)@))
            && final(input)@ == old(input)@.skip(4),
        old(input)@.len() < 4 ==> r is Err,
{
    input.read_u32::<BigEndian>()
}

/// `byteorder::ReadBytesExt::read_i32::<BigEndian>` on a byte slice: as
/// `read_u32`, the pattern read as a two's-complement number.
#[verifier::external_body]
pub(crate) fn get_i32(input: &mut &[u8]) -> (r: Result<i32, byteorder::Error>)
    ensures
        old(input)@.len() >= 4 ==> r == Ok::<i32, byteorder::Error>(
            i32_from_bits(u32_from_be(old(input)@)),
        ) && final(input)@ == old(input)@.skip(4),
        old(input)@.len() < 4 ==> r is Err,
{
    input.read_i32::<BigEndian>()
}

/// `byteorder::ReadBytesExt::read_u64::<BigEndian>` on a byte slice: takes
/// the first eight bytes off the slice and reads them most significant
/// first, or fails where fewer than eight are left.
#[verifier::external_body]
pub(crate) fn get_u64(input: &mut &[u8]) -> (r: Result<u64, byteorder::Error>)
    ensures
        old(input)@.len() >= 8 ==> r == Ok::<u64, byteorder::Error>(u64_from_be(old(input)@))
            && final(input)@ == old(input)@.skip(8),
        old(input)@.len() < 8 ==> r is Err,
{
    input.read_u64::<BigEndian>()
}

/// `byteorder::ReadBytesExt::read_i64::<BigEndian>` on a byte slice: as
/// `read_u64`, the pattern read as a two's-complement number.
#[verifier::external_body]
pub(crate) fn get_i64(input: &mut &[u8]) -> (r: Result<i64, byteorder::Error>)
    ensures
        old(input)@.len() >= 8 ==> r == Ok::<i64, byteorder::Error>(
            i64_from_bits(u64_from_be(old(input)@)),
        ) && final(input)@ == old(input)@.skip(8),
        old(input)@.len() < 8 ==> r is Err,
{
    input.read_i64::<BigEndian>()
}

} // verus!
