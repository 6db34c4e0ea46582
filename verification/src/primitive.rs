//! Little-endian integers: their byte-level meaning, and reading them from a
//! cursor and appending them to a buffer.

use crate::error::{ParseError, ParseErrorModel};
use crate::stream::{decoded, Stream};
use byteorder::{ByteOrder, LittleEndian};
use vstd::prelude::*;

verus! {

/// The unsigned 16-bit integer that the first two bytes of `s` spell, least
/// significant byte first.
#[verifier::opaque]
pub open spec fn le_u16(s: Seq<u8>) -> u16 {
    (s[0] as int + 256 * (s[1] as int)) as u16
}

/// The unsigned 32-bit integer that the first four bytes of `s` spell, least
/// significant byte first.
#[verifier::opaque]
pub open spec fn le_u32(s: Seq<u8>) -> u32 {
    (s[0] as int + 256 * (s[1] as int) + 65536 * (s[2] as int) + 16777216 * (s[3] as int)) as u32
}

/// Reading of 16 bits as a two's complement number.
pub open spec fn as_signed16(u: u16) -> i16 {
    if u < 0x8000 {
        u as i16
    } else {
        (u - 0x1_0000) as i16
    }
}

/// Reading of 32 bits as a two's complement number.
pub open spec fn as_signed32(u: u32) -> i32 {
    if u < 0x8000_0000 {
        u as i32
    } else {
        (u - 0x1_0000_0000) as i32
    }
}

/// The 16 bits that stand for `v` in two's complement.
pub open spec fn as_unsigned16(v: i16) -> u16 {
    if v >= 0 {
        v as u16
    } else {
        (v + 0x1_0000) as u16
    }
}

/// The 32 bits that stand for `v` in two's complement.
pub open spec fn as_unsigned32(v: i32) -> u32 {
    if v >= 0 {
        v as u32
    } else {
        (v + 0x1_0000_0000) as u32
    }
}

/// The two bytes of `v`, least significant first.
#[verifier::opaque]
pub open spec fn u16_bytes(v: u16) -> Seq<u8> {
    seq![(v % 256) as u8, (v / 256) as u8]
}

/// The four bytes of `v`, least significant first.
#[verifier::opaque]
pub open spec fn u32_bytes(v: u32) -> Seq<u8> {
    seq![
        (v % 256) as u8,
        ((v / 256) % 256) as u8,
        ((v / 65536) % 256) as u8,
        (v / 16777216) as u8,
    ]
}

/// Parser of one byte.
pub open spec fn spec_u8(s: Seq<u8>) -> Result<(u8, int), ParseErrorModel> {
    if s.len() >= 1 {
        Ok((s[0], 1))
    } else {
        Err(ParseErrorModel::Io)
    }
}

/// Parser of one signed byte.
pub open spec fn spec_i8(s: Seq<u8>) -> Result<(i8, int), ParseErrorModel> {
    if s.len() >= 1 {
        Ok((if s[0] < 0x80 { s[0] as i8 } else { (s[0] - 0x100) as i8 }, 1))
    } else {
        Err(ParseErrorModel::Io)
    }
}

/// Parser of a little-endian unsigned 16-bit integer.
pub open spec fn spec_u16(s: Seq<u8>) -> Result<(u16, int), ParseErrorModel> {
    if s.len() >= 2 {
        Ok((le_u16(s), 2))
    } else {
        Err(ParseErrorModel::Io)
    }
}

/// Parser of a little-endian signed 16-bit integer.
pub open spec fn spec_i16(s: Seq<u8>) -> Result<(i16, int), ParseErrorModel> {
    if s.len() >= 2 {
        Ok((as_signed16(le_u16(s)), 2))
    } else {
        Err(ParseErrorModel::Io)
    }
}

/// Parser of a little-endian unsigned 32-bit integer.
pub open spec fn spec_u32(s: Seq<u8>) -> Result<(u32, int), ParseErrorModel> {
    if s.len() >= 4 {
        Ok((le_u32(s), 4))
    } else {
        Err(ParseErrorModel::Io)
    }
}

/// Parser of a little-endian signed 32-bit integer.
pub open spec fn spec_i32(s: Seq<u8>) -> Result<(i32, int), ParseErrorModel> {
    if s.len() >= 4 {
        Ok((as_signed32(le_u32(s)), 4))
    } else {
        Err(ParseErrorModel::Io)
    }
}

/// Decoding the bytes of an unsigned 16-bit integer gives it back.
pub proof fn lemma_u16_round_trip(v: u16, rest: Seq<u8>)
    ensures
        le_u16(u16_bytes(v) + rest) == v,
        (u16_bytes(v) + rest).skip(2) == rest,
        u16_bytes(v).len() == 2,
{
    reveal(le_u16);
    reveal(u16_bytes);
    assert((u16_bytes(v) + rest).skip(2) =~= rest);
}

/// Decoding the bytes of an unsigned 32-bit integer gives it back.
pub proof fn lemma_u32_round_trip(v: u32, rest: Seq<u8>)
    ensures
        le_u32(u32_bytes(v) + rest) == v,
        (u32_bytes(v) + rest).skip(4) == rest,
        u32_bytes(v).len() == 4,
{
    reveal(le_u32);
    reveal(u32_bytes);
    assert((u32_bytes(v) + rest).skip(4) =~= rest);
}

/// The two's complement readings are inverse to each other.
pub proof fn lemma_signed_round_trip(a: i16, b: i32)
    ensures
        as_signed16(as_unsigned16(a)) == a,
        as_signed32(as_unsigned32(b)) == b,
{
}

/// `ByteOrder::read_u16` of `byteorder`, for `LittleEndian`: the integer whose
/// little-endian bytes are the first two of `buf`. It panics on a shorter
/// slice, which the precondition rules out.
#[verifier::external_body]
pub(crate) fn le_read_u16(buf: &[u8]) -> (v: u16)
    requires
        buf@.len() >= 2,
    ensures
        v == le_u16(buf@),
{
    LittleEndian::read_u16(buf)
}

/// `ByteOrder::read_i16` of `byteorder`, for `LittleEndian`: the first two
/// bytes of `buf` read as a little-endian two's complement number. It panics
/// on a shorter slice, which the precondition rules out.
#[verifier::external_body]
fn le_read_i16(buf: &[u8]) -> (v: i16)
    requires
        buf@.len() >= 2,
    ensures
        v == as_signed16(le_u16(buf@)),
{
    LittleEndian::read_i16(buf)
}

/// `ByteOrder::read_u32` of `byteorder`, for `LittleEndian`: the integer whose
/// little-endian bytes are the first four of `buf`. It panics on a shorter
/// slice, which the precondition rules out.
#[verifier::external_body]
fn le_read_u32(buf: &[u8]) -> (v: u32)
    requires
        buf@.len() >= 4,
    ensures
        v == le_u32(buf@),
{
    LittleEndian::read_u32(buf)
}

/// `ByteOrder::read_i32` of `byteorder`, for `LittleEndian`: the first four
/// bytes of `buf` read as a little-endian two's complement number. It panics
/// on a shorter slice, which the precondition rules out.
#[verifier::external_body]
fn le_read_i32(buf: &[u8]) -> (v: i32)
    requires
        buf@.len() >= 4,
    ensures
        v == as_signed32(le_u32(buf@)),
{
    LittleEndian::read_i32(buf)
}

/// `ByteOrder::write_u16` of `byteorder`, for `LittleEndian`, on a buffer of
/// two bytes: the bytes of `v`, least significant first.
#[verifier::external_body]
fn le_bytes_u16(v: u16) -> (b: [u8; 2])
    ensures
        b@ == u16_bytes(v),
{
    let mut b = [0u8; 2];
    LittleEndian::write_u16(&mut b, v);
    b
}

/// `ByteOrder::write_i16` of `byteorder`, for `LittleEndian`, on a buffer of
/// two bytes: the bytes of the two's complement of `v`, least significant
/// first.
#[verifier::external_body]
fn le_bytes_i16(v: i16) -> (b: [u8; 2])
    ensures
        b@ == u16_bytes(as_unsigned16(v)),
{
    let mut b = [0u8; 2];
    LittleEndian::write_i16(&mut b, v);
    b
}

/// `ByteOrder::write_u32` of `byteorder`, for `LittleEndian`, on a buffer of
/// four bytes: the bytes of `v`, least significant first.
#[verifier::external_body]
fn le_bytes_u32(v: u32) -> (b: [u8; 4])
    ensures
        b@ == u32_bytes(v),
{
    let mut b = [0u8; 4];
    LittleEndian::write_u32(&mut b, v);
    b
}

/// `ByteOrder::write_i32` of `byteorder`, for `LittleEndian`, on a buffer of
/// four bytes: the bytes of the two's complement of `v`, least significant
/// first.
#[verifier::external_body]
fn le_bytes_i32(v: i32) -> (b: [u8; 4])
    ensures
        b@ == u32_bytes(as_unsigned32(v)),
{
    let mut b = [0u8; 4];
    LittleEndian::write_i32(&mut b, v);
    b
}

/// Appends `bytes` to `out`.
pub fn put_bytes(out: &mut Vec<u8>, bytes: &[u8])
    ensures
        final(out)@ == old(out)@ + bytes@,
{
    let n = bytes.len();
    let mut i: usize = 0;
    while i < n
        invariant
            i <= n,
            n == bytes@.len(),
            out@ == old(out)@ + bytes@.take(i as int),
        decreases n - i,
    {
        out.push(bytes[i]);
        i = i + 1;
        assert(out@ =~= old(out)@ + bytes@.take(i as int));
    }
    assert(bytes@.take(n as int) =~= bytes@);
}

/// Appends one byte.
pub fn put_u8(out: &mut Vec<u8>, v: u8)
    ensures
        final(out)@ == old(out)@ + seq![v],
{
    out.push(v);
    assert(out@ =~= old(out)@ + seq![v]);
}

/// The byte that stands for `v` in two's complement.
pub open spec fn as_unsigned8(v: i8) -> u8 {
    if v >= 0 {
        v as u8
    } else {
        (v + 0x100) as u8
    }
}

/// Appends one signed byte in two's complement.
pub fn put_i8(out: &mut Vec<u8>, v: i8)
    ensures
        final(out)@ == old(out)@ + seq![as_unsigned8(v)],
{
    let b: u8 = if v >= 0 {
        v as u8
    } else {
        (v as i16 + 0x100) as u8
    };
    put_u8(out, b);
}

/// Appends `v` as two little-endian bytes.
pub fn put_u16(out: &mut Vec<u8>, v: u16)
    ensures
        final(out)@ == old(out)@ + u16_bytes(v),
{
    let b = le_bytes_u16(v);
    put_bytes(out, b.as_slice());
}

/// Appends `v` as two little-endian bytes in two's complement.
pub fn put_i16(out: &mut Vec<u8>, v: i16)
    ensures
        final(out)@ == old(out)@ + u16_bytes(as_unsigned16(v)),
{
    let b = le_bytes_i16(v);
    put_bytes(out, b.as_slice());
}

/// Appends `v` as four little-endian bytes.
pub fn put_u32(out: &mut Vec<u8>, v: u32)
    ensures
        final(out)@ == old(out)@ + u32_bytes(v),
{
    let b = le_bytes_u32(v);
    put_bytes(out, b.as_slice());
}

/// Appends `v` as four little-endian bytes in two's complement.
pub fn put_i32(out: &mut Vec<u8>, v: i32)
    ensures
        final(out)@ == old(out)@ + u32_bytes(as_unsigned32(v)),
{
    let b = le_bytes_i32(v);
    put_bytes(out, b.as_slice());
}

impl<'a> Stream<'a> {
    /// Reads one byte.
    pub fn read_u8(&mut self) -> (r: Result<u8, ParseError>)
        ensures
            decoded(*old(self), *final(self), r, spec_u8(old(self).rest())),
    {
        match self.read_slice(1) {
            Ok(b) => Ok(b[0]),
            Err(e) => Err(e),
        }
    }

    /// Reads one signed byte.
    pub fn read_i8(&mut self) -> (r: Result<i8, ParseError>)
        ensures
            decoded(*old(self), *final(self), r, spec_i8(old(self).rest())),
    {
        match self.read_slice(1) {
            Ok(b) => {
                let u = b[0];
                if u < 0x80 {
                    Ok(u as i8)
                } else {
                    Ok((u as i16 - 0x100) as i8)
                }
            },
            Err(e) => Err(e),
        }
    }

    /// Reads a little-endian unsigned 16-bit integer.
    pub fn read_u16(&mut self) -> (r: Result<u16, ParseError>)
        ensures
            decoded(*old(self), *final(self), r, spec_u16(old(self).rest())),
    {
        reveal(le_u16);
        match self.read_slice(2) {
            Ok(b) => Ok(le_read_u16(b)),
            Err(e) => Err(e),
        }
    }

    /// Reads a little-endian signed 16-bit integer.
    pub fn read_i16(&mut self) -> (r: Result<i16, ParseError>)
        ensures
            decoded(*old(self), *final(self), r, spec_i16(old(self).rest())),
    {
        reveal(le_u16);
        match self.read_slice(2) {
            Ok(b) => Ok(le_read_i16(b)),
            Err(e) => Err(e),
        }
    }

    /// Reads a little-endian unsigned 32-bit integer.
    pub fn read_u32(&mut self) -> (r: Result<u32, ParseError>)
        ensures
            decoded(*old(self), *final(self), r, spec_u32(old(self).rest())),
    {
        reveal(le_u32);
        match self.read_slice(4) {
            Ok(b) => Ok(le_read_u32(b)),
            Err(e) => Err(e),
        }
    }

    /// Reads a little-endian signed 32-bit integer.
    pub fn read_i32(&mut self) -> (r: Result<i32, ParseError>)
        ensures
            decoded(*old(self), *final(self), r, spec_i32(old(self).rest())),
    {
        reveal(le_u32);
        match self.read_slice(4) {
            Ok(b) => Ok(le_read_i32(b)),
            Err(e) => Err(e),
        }
    }
}

/// Decoding the bytes of a signed 16-bit integer gives it back.
pub proof fn lemma_i16_round_trip(v: i16, rest: Seq<u8>)
    ensures
        spec_i16(u16_bytes(as_unsigned16(v)) + rest) == Ok::<(i16, int), ParseErrorModel>((v, 2)),
        (u16_bytes(as_unsigned16(v)) + rest).skip(2) == rest,
        u16_bytes(as_unsigned16(v)).len() == 2,
{
    lemma_u16_round_trip(as_unsigned16(v), rest);
}

/// Decoding the bytes of a signed 32-bit integer gives it back.
pub proof fn lemma_i32_round_trip(v: i32, rest: Seq<u8>)
    ensures
        spec_i32(u32_bytes(as_unsigned32(v)) + rest) == Ok::<(i32, int), ParseErrorModel>((v, 4)),
        (u32_bytes(as_unsigned32(v)) + rest).skip(4) == rest,
        u32_bytes(as_unsigned32(v)).len() == 4,
{
    lemma_u32_round_trip(as_unsigned32(v), rest);
}

} // verus!
