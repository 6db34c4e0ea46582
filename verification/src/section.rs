//! Section framing: the tag that opens a section, the zero-terminated
//! identifier that follows it, and opaque runs of bytes.

use crate::error::{ParseError, ParseErrorModel};
use crate::primitive::{put_bytes, put_u8};
use crate::stream::{decoded, first_nul, lemma_advanced_rest, lemma_first_nul, Stream};
use vstd::prelude::*;
use vstd::slice::slice_to_vec;
use vstd::string::StringSliceAdditionalSpecFns;

verus! {

broadcast use lemma_advanced_rest;

/// What `String::from_utf8_lossy` makes of `bytes`: their text as UTF-8, with
/// U+FFFD in place of what is not UTF-8.
pub uninterp spec fn utf8_lossy(bytes: Seq<u8>) -> Seq<char>;

/// `String::from_utf8_lossy` of std, made an owned string.
#[verifier::external_body]
fn lossy_text(bytes: &[u8]) -> (r: String)
    ensures
        r@ == utf8_lossy(bytes@),
{
    String::from_utf8_lossy(bytes).into_owned()
}

/// The deep view of a byte vector is its view.
pub broadcast proof fn lemma_bytes_deep_view(v: Vec<u8>)
    ensures
        #[trigger] v.deep_view() == v@,
{
    assert(v.deep_view() =~= v@);
}

/// The bytes of a section tag.
pub open spec fn tag_bytes(tag: &str) -> Seq<u8> {
    tag.spec_bytes()
}

/// Why `s` does not open with `tag`, if it does not: too short to hold the
/// tag, or other bytes in its place.
pub open spec fn spec_tag(s: Seq<u8>, tag: &str) -> Option<ParseErrorModel> {
    let t = tag_bytes(tag);
    if s.len() < t.len() {
        Some(ParseErrorModel::Io)
    } else if s.take(t.len() as int) == t {
        None
    } else {
        Some(ParseErrorModel::InvalidSection(tag@, utf8_lossy(s.take(t.len() as int))))
    }
}

/// `s` opens with the bytes of `tag`.
pub open spec fn starts_with_tag(s: Seq<u8>, tag: &str) -> bool {
    spec_tag(s, tag) is None
}

/// Parser of a zero-terminated identifier: the bytes before the first zero
/// byte, and that byte consumed with them.
pub open spec fn spec_ident(s: Seq<u8>) -> Result<(Seq<u8>, int), ParseErrorModel> {
    let k = first_nul(s);
    if k < s.len() {
        Ok((s.take(k), k + 1))
    } else {
        Err(ParseErrorModel::Encoding)
    }
}

/// The wire form of an identifier: its bytes and a zero byte.
pub open spec fn spec_ident_bytes(id: Seq<u8>) -> Seq<u8> {
    id + seq![0u8]
}

/// Parser of an opaque run of `n` bytes.
pub open spec fn spec_blob(s: Seq<u8>, n: nat) -> Result<(Seq<u8>, int), ParseErrorModel> {
    if s.len() < n {
        Err(ParseErrorModel::Io)
    } else {
        Ok((s.take(n as int), n as int))
    }
}

/// Parser of all bytes that are left.
pub open spec fn spec_tail(s: Seq<u8>) -> Result<(Seq<u8>, int), ParseErrorModel> {
    Ok((s, s.len() as int))
}

fn same_bytes(a: &[u8], b: &[u8]) -> (r: bool)
    ensures
        r == (a@ == b@),
{
    if a.len() != b.len() {
        return false;
    }
    let n = a.len();
    let mut i: usize = 0;
    while i < n
        invariant
            i <= n,
            n == a@.len(),
            n == b@.len(),
            forall|j: int| 0 <= j < i ==> a@[j] == b@[j],
        decreases n - i,
    {
        if a[i] != b[i] {
            return false;
        }
        i = i + 1;
    }
    assert(a@ =~= b@);
    true
}

/// Opens a section: reads as many bytes as `tag` has and holds them against
/// it. Bytes that differ are reported with the tag and their lenient text,
/// and the cursor stays where it stood.
pub fn open_section(data: &mut Stream, tag: &'static str) -> (r: Result<(), ParseError>)
    ensures
        match spec_tag(old(data).rest(), tag) {
            None => r is Ok && final(data).advanced(*old(data), tag_bytes(tag).len() as int),
            Some(e) => r matches Err(x) && x.deep_view() == e && *final(data) == *old(data),
        },
{
    let expected = tag.as_bytes();
    let mut cur = *data;
    let found = cur.read_slice(expected.len())?;
    if same_bytes(found, expected) {
        *data = cur;
        Ok(())
    } else {
        Err(ParseError::InvalidSection(tag, lossy_text(found)))
    }
}

/// Whether the unread bytes open with `tag`. The cursor stays where it is.
pub fn peek_tag(data: &Stream, tag: &'static str) -> (r: bool)
    ensures
        r == starts_with_tag(data.rest(), tag),
{
    let expected = tag.as_bytes();
    let mut look = *data;
    match look.read_slice(expected.len()) {
        Ok(found) => same_bytes(found, expected),
        Err(_) => false,
    }
}

/// Appends the bytes of `tag`.
pub fn put_tag(out: &mut Vec<u8>, tag: &'static str)
    ensures
        final(out)@ == old(out)@ + tag_bytes(tag),
{
    put_bytes(out, tag.as_bytes());
}

/// Reads a zero-terminated identifier.
pub fn read_ident(data: &mut Stream) -> (r: Result<Vec<u8>, ParseError>)
    ensures
        decoded(*old(data), *final(data), r, spec_ident(old(data).rest())),
{
    broadcast use lemma_bytes_deep_view;

    let id = data.read_cstr()?;
    Ok(slice_to_vec(id))
}

/// Appends an identifier and the zero byte that ends it.
pub fn put_ident(out: &mut Vec<u8>, id: &Vec<u8>)
    ensures
        final(out)@ == old(out)@ + spec_ident_bytes(id.deep_view()),
{
    broadcast use lemma_bytes_deep_view;

    put_bytes(out, id.as_slice());
    put_u8(out, 0);
    assert(out@ =~= old(out)@ + spec_ident_bytes(id.deep_view()));
}

/// Reads an opaque run of `n` bytes.
pub fn read_blob(data: &mut Stream, n: usize) -> (r: Result<Vec<u8>, ParseError>)
    ensures
        decoded(*old(data), *final(data), r, spec_blob(old(data).rest(), n as nat)),
{
    broadcast use lemma_bytes_deep_view;

    let b = data.read_slice(n)?;
    Ok(slice_to_vec(b))
}

/// Reads all bytes that are left.
pub fn read_tail(data: &mut Stream) -> (r: Result<Vec<u8>, ParseError>)
    ensures
        decoded(*old(data), *final(data), r, spec_tail(old(data).rest())),
{
    broadcast use lemma_bytes_deep_view;

    let n = data.remain();
    let b = data.read_slice(n)?;
    assert(old(data).rest().take(n as int) =~= old(data).rest());
    Ok(slice_to_vec(b))
}

/// Appends an opaque run of bytes.
pub fn put_blob(out: &mut Vec<u8>, blob: &Vec<u8>)
    ensures
        final(out)@ == old(out)@ + blob.deep_view(),
{
    broadcast use lemma_bytes_deep_view;

    put_bytes(out, blob.as_slice());
}

/// An identifier that holds no zero byte, and so ends where its terminator
/// stands.
pub open spec fn valid_ident(id: Seq<u8>) -> bool {
    forall|i: int| 0 <= i < id.len() ==> id[i] != 0
}

/// Bytes that open with a tag are accepted as that section, and the tag is
/// all that is taken.
pub proof fn lemma_tag_round_trip(tag: &str, rest: Seq<u8>)
    ensures
        spec_tag(tag_bytes(tag) + rest, tag) is None,
        (tag_bytes(tag) + rest).skip(tag_bytes(tag).len() as int) == rest,
{
    let t = tag_bytes(tag);
    assert((t + rest).take(t.len() as int) =~= t);
    assert((t + rest).skip(t.len() as int) =~= rest);
}

/// Bytes as long as a tag that differ from it anywhere are refused as a
/// section mismatch, never as a lack of bytes.
pub proof fn lemma_tag_mismatch(s: Seq<u8>, tag: &str, i: int)
    requires
        s.len() >= tag_bytes(tag).len(),
        0 <= i < tag_bytes(tag).len(),
        s[i] != tag_bytes(tag)[i],
    ensures
        spec_tag(s, tag) == Some(
            ParseErrorModel::InvalidSection(tag@, utf8_lossy(s.take(tag_bytes(tag).len() as int))),
        ),
{
    let t = tag_bytes(tag);
    assert(s.take(t.len() as int)[i] == s[i]);
}

/// An identifier without zero byte decodes to itself.
pub proof fn lemma_ident_round_trip(id: Seq<u8>, rest: Seq<u8>)
    requires
        valid_ident(id),
    ensures
        spec_ident(spec_ident_bytes(id) + rest) == Ok::<(Seq<u8>, int), ParseErrorModel>(
            (id, spec_ident_bytes(id).len() as int),
        ),
        (spec_ident_bytes(id) + rest).skip(spec_ident_bytes(id).len() as int) == rest,
{
    let s = spec_ident_bytes(id) + rest;
    assert forall|j: int| 0 <= j < id.len() implies s[j] != 0 by {
        assert(s[j] == id[j]);
    }
    assert(s[id.len() as int] == 0);
    lemma_first_nul(s, id.len() as int);
    assert(s.take(id.len() as int) =~= id);
    assert(s.skip(id.len() as int + 1) =~= rest);
}

/// An opaque run decodes to itself.
pub proof fn lemma_blob_round_trip(b: Seq<u8>, rest: Seq<u8>)
    ensures
        spec_blob(b + rest, b.len()) == Ok::<(Seq<u8>, int), ParseErrorModel>(
            (b, b.len() as int),
        ),
        (b + rest).skip(b.len() as int) == rest,
{
    assert((b + rest).take(b.len() as int) =~= b);
    assert((b + rest).skip(b.len() as int) =~= rest);
}

} // verus!
