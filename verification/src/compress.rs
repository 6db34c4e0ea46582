//! The compressed subsection: two length fields and a raw deflate stream that
//! is not framed by any length of its own.

use crate::codec::count_field;
use crate::error::{ParseError, ParseErrorModel};
use crate::primitive::{lemma_u32_round_trip, put_bytes, put_u32, spec_u32, u32_bytes};
use crate::section::lemma_bytes_deep_view;
use crate::stream::{decoded, lemma_advanced_rest, Stream};
use vstd::prelude::*;

verus! {

broadcast use {lemma_advanced_rest, lemma_bytes_deep_view};

/// How an attempt to inflate ended.
#[derive(Debug, Clone, Copy, PartialEq, Eq)]
pub enum InflateStatus {
    /// The decompressor stopped for want of input or of room.
    Unfinished,
    /// The decompressor could make no progress.
    NoProgress,
    /// The stream was read to its end.
    Finished,
    /// The input is no deflate stream.
    Corrupt,
}

/// What inflating `input` into a buffer of `size` bytes yields: how it ended,
/// the number of input bytes taken, and the bytes produced.
pub uninterp spec fn inflated(input: Seq<u8>, size: nat) -> (InflateStatus, nat, Seq<u8>);

/// What deflating `data` into a buffer of `capacity` bytes yields.
pub uninterp spec fn deflated(data: Seq<u8>, capacity: nat) -> Seq<u8>;

/// `Decompress::decompress` of `flate2`, on a fresh raw decompressor, a zeroed
/// buffer of `size` bytes and `FlushDecompress::Finish`, with `total_in` and
/// `total_out` read afterwards. The result holds the status, or `Corrupt` for
/// the error, the input bytes taken, and the part of the buffer that was
/// written. The decompressor takes no more than it is given and writes no
/// more than the buffer holds.
#[verifier::external_body]
fn inflate(input: &[u8], size: usize) -> (r: (InflateStatus, usize, Vec<u8>))
    ensures
        (r.0, r.1 as nat, r.2@) == inflated(input@, size as nat),
        r.1 <= input@.len(),
        r.2@.len() <= size,
{
    let mut out = vec![0u8; size];
    let mut d = flate2::Decompress::new(false);
    let status = match d.decompress(input, &mut out, flate2::FlushDecompress::Finish) {
        Ok(flate2::Status::Ok) => InflateStatus::Unfinished,
        Ok(flate2::Status::BufError) => InflateStatus::NoProgress,
        Ok(flate2::Status::StreamEnd) => InflateStatus::Finished,
        Err(_) => InflateStatus::Corrupt,
    };
    out.truncate(d.total_out() as usize);
    (status, d.total_in() as usize, out)
}

/// `Compress::compress` of `flate2`, on a fresh raw compressor of the best
/// level, a zeroed buffer of `capacity` bytes and `FlushCompress::Finish`,
/// with `total_out` read afterwards: the part of the buffer that was written.
/// A buffer beyond `isize::MAX` bytes cannot be allocated, which the
/// precondition rules out.
#[verifier::external_body]
fn deflate(data: &[u8], capacity: usize) -> (r: Vec<u8>)
    requires
        capacity <= usize::MAX / 2,
    ensures
        r@ == deflated(data@, capacity as nat),
{
    let mut out = vec![0u8; capacity];
    let mut c = flate2::Compress::new(flate2::Compression::best(), false);
    let _ = c.compress(data, &mut out, flate2::FlushCompress::Finish);
    out.truncate(c.total_out() as usize);
    out
}

/// Room given to the compressor for `len` bytes of input: enough for input
/// that does not compress at all, and no more than can be allocated.
pub open spec fn deflate_capacity(len: nat) -> nat {
    let wanted = len + len / 8 + 64;
    if wanted <= usize::MAX / 2 {
        wanted
    } else {
        (usize::MAX / 2) as nat
    }
}

/// What is made of an attempt to inflate `size` bytes: the payload, where the
/// stream was read to its end and gave exactly `size` bytes; a decompression
/// error otherwise.
pub open spec fn spec_accept(outcome: (InflateStatus, nat, Seq<u8>), size: nat) -> Result<
    (Seq<u8>, int),
    ParseErrorModel,
> {
    if outcome.0 == InflateStatus::Finished && outcome.2.len() == size {
        Ok((outcome.2, outcome.1 as int))
    } else {
        Err(ParseErrorModel::Decompress)
    }
}

/// Parser of a compressed subsection: the declared size, its duplicate, and
/// the deflate stream, which ends where the decompressor stops.
pub open spec fn spec_compressed(s: Seq<u8>) -> Result<(Seq<u8>, int), ParseErrorModel> {
    match spec_u32(s) {
        Err(e) => Err(e),
        Ok((size, n0)) => {
            let s1 = s.skip(n0);
            match spec_u32(s1) {
                Err(e) => Err(e),
                Ok((_, n1)) => {
                    let s2 = s1.skip(n1);
                    match spec_accept(inflated(s2, size as nat), size as nat) {
                        Err(e) => Err(e),
                        Ok((payload, n2)) => Ok((payload, n0 + n1 + n2)),
                    }
                },
            }
        },
    }
}

/// The wire form of a compressed subsection with the given payload.
pub open spec fn spec_compressed_bytes(payload: Seq<u8>) -> Seq<u8> {
    u32_bytes(count_field(payload.len())) + u32_bytes(count_field(payload.len())) + deflated(
        payload,
        deflate_capacity(payload.len()),
    )
}

/// Judges an attempt to inflate `size` bytes that ended with `status`, took
/// `consumed` bytes of input and produced `produced`: the payload and the
/// bytes taken where the stream was read to its end and gave exactly `size`
/// bytes, a decompression error otherwise.
pub fn accept_inflated(status: InflateStatus, consumed: usize, produced: Vec<u8>, size: u32) -> (r:
    Result<(Vec<u8>, usize), ParseError>)
    ensures
        match spec_accept((status, consumed as nat, produced@), size as nat) {
            Ok((payload, n)) => r matches Ok(x) && x.0@ == payload && x.1 == n,
            Err(e) => r matches Err(x) && x.deep_view() == e,
        },
{
    match status {
        InflateStatus::Finished => {
            if produced.len() == size as usize {
                Ok((produced, consumed))
            } else {
                Err(ParseError::Decompress)
            }
        },
        _ => Err(ParseError::Decompress),
    }
}

/// Reads a compressed subsection: inflates the bytes after the two length
/// fields into a buffer of the declared size, moves on by what the
/// decompressor took, and hands out the payload.
pub fn open_compressed_subsection(data: &mut Stream) -> (r: Result<Vec<u8>, ParseError>)
    ensures
        decoded(*old(data), *final(data), r, spec_compressed(old(data).rest())),
{
    let mut cur = *data;
    let size = cur.read_u32()?;
    let _ = cur.read_u32()?;
    let ghost body = cur.rest();
    let n = cur.remain();
    let mut look = cur;
    let input = look.read_slice(n)?;
    assert(input@ =~= body);
    let (status, consumed, produced) = inflate(input, size as usize);
    let (payload, taken) = accept_inflated(status, consumed, produced, size)?;
    cur.skip(taken)?;
    *data = cur;
    Ok(payload)
}

/// Appends a compressed subsection with the given payload: its length twice,
/// then what the compressor makes of it.
pub fn put_compressed(out: &mut Vec<u8>, payload: &Vec<u8>)
    ensures
        final(out)@ == old(out)@ + spec_compressed_bytes(payload@),
{
    let len = payload.len();
    let declared: u32 = if len <= 0xffff_ffff {
        len as u32
    } else {
        0xffff_ffff
    };
    let limit = usize::MAX / 2;
    let capacity = match len.checked_add(len / 8) {
        Some(a) => match a.checked_add(64) {
            Some(b) => if b <= limit {
                b
            } else {
                limit
            },
            None => limit,
        },
        None => limit,
    };
    let packed = deflate(payload.as_slice(), capacity);
    put_subsection(out, declared, packed.as_slice());
}

/// Appends a compressed subsection from its parts: the declared length of
/// the payload twice, then the compressed bytes.
pub fn put_subsection(out: &mut Vec<u8>, declared: u32, packed: &[u8])
    ensures
        final(out)@ == old(out)@ + (u32_bytes(declared) + u32_bytes(declared) + packed@),
{
    put_u32(out, declared);
    put_u32(out, declared);
    put_bytes(out, packed);
    assert(out@ =~= old(out)@ + (u32_bytes(declared) + u32_bytes(declared) + packed@));
}

/// The decompressor gives back the payload from what the compressor made of
/// it, reads that to its end, and stops there whatever follows.
pub open spec fn inflates_back(payload: Seq<u8>) -> bool {
    let packed = deflated(payload, deflate_capacity(payload.len()));
    forall|rest: Seq<u8>|
        #[trigger] inflated(packed + rest, payload.len()) == (
            InflateStatus::Finished,
            packed.len(),
            payload,
        )
}

/// A payload accepted from a compressed subsection is exactly as long as the
/// first length field declares; and where the decompressor gives any other
/// number of bytes, the subsection is refused with a decompression error.
pub proof fn lemma_size_agreement(s: Seq<u8>)
    ensures
        spec_compressed(s) matches Ok((payload, n)) ==> spec_u32(s) matches Ok((size, _))
            && payload.len() == size,
        s.len() >= 8 && inflated(s.skip(4).skip(4), spec_u32(s)->Ok_0.0 as nat).2.len() != spec_u32(
            s,
        )->Ok_0.0 ==> spec_compressed(s) == Err::<(Seq<u8>, int), ParseErrorModel>(
            ParseErrorModel::Decompress,
        ),
{
}

/// A compressed subsection decodes to the payload it was made from, provided
/// that the payload fits the length fields and that the decompressor gives it
/// back.
pub proof fn lemma_compressed_round_trip(payload: Seq<u8>, rest: Seq<u8>)
    requires
        payload.len() <= u32::MAX,
        inflates_back(payload),
    ensures
        spec_compressed(spec_compressed_bytes(payload) + rest) == Ok::<
            (Seq<u8>, int),
            ParseErrorModel,
        >((payload, spec_compressed_bytes(payload).len() as int)),
{
    let size = count_field(payload.len());
    let b0 = u32_bytes(size);
    let packed = deflated(payload, deflate_capacity(payload.len()));
    let r1 = packed + rest;
    let r0 = b0 + r1;
    crate::codec::lemma_concat4(b0, b0, packed, rest);
    lemma_u32_round_trip(size, r0);
    lemma_u32_round_trip(size, r1);
    assert(inflated(packed + rest, payload.len()) == (
        InflateStatus::Finished,
        packed.len(),
        payload,
    ));
}

} // verus!
