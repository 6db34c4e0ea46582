//! The text field of the format: a 32-bit header, one of three wire shapes,
//! and the heuristic that tells the two wide shapes apart.

use crate::codec::{lemma_split, Encodable, RoundTrip};
use crate::error::{ParseError, ParseErrorModel};
use crate::primitive::{
    le_u16, le_u32, lemma_u32_round_trip, put_bytes, put_u16, put_u32, u16_bytes, u32_bytes,
};
use crate::stream::{decoded, lemma_advanced_rest, Stream};
use vstd::prelude::*;
use vstd::slice::slice_subrange;

verus! {

broadcast use lemma_advanced_rest;

/// Header bit that selects the wide shapes.
pub const WIDE_FLAG: u32 = 0x8000_0000;

/// Largest character count a header can hold.
pub const MAX_COUNT: u32 = 0x7fff_ffff;

/// The one byte that Windows-1251 leaves undefined.
pub const CP1251_UNDEFINED: u8 = 0x98;

/// What decoding `bytes` as Windows-1251 yields: the text, and whether the
/// decoder met a byte that it had to replace.
pub uninterp spec fn cp1251_decoded(bytes: Seq<u8>) -> (Seq<char>, bool);

/// What encoding `text` as Windows-1251 yields: the bytes, with a numeric
/// character reference for every character that the code page lacks, and
/// whether there was such a character.
pub uninterp spec fn cp1251_encoded(text: Seq<char>) -> (Seq<u8>, bool);

/// The UTF-16 code units of one character: itself below U+10000, a surrogate
/// pair from there on.
pub open spec fn utf16_of_char(c: char) -> Seq<u16> {
    let n = c as u32 as int;
    if n < 0x1_0000 {
        seq![n as u16]
    } else {
        seq![(0xD800 + (n - 0x1_0000) / 0x400) as u16, (0xDC00 + (n - 0x1_0000) % 0x400) as u16]
    }
}

/// The UTF-16 code units of a text.
pub open spec fn utf16_units(text: Seq<char>) -> Seq<u16>
    decreases text.len(),
{
    if text.len() == 0 {
        Seq::empty()
    } else {
        utf16_of_char(text[0]) + utf16_units(text.skip(1))
    }
}

/// The text that `units` encode, if they are well-formed UTF-16.
#[verifier::opaque]
pub open spec fn utf16_decoded(units: Seq<u16>) -> Option<Seq<char>> {
    if exists|t: Seq<char>| utf16_units(t) == units {
        Some(choose|t: Seq<char>| utf16_units(t) == units)
    } else {
        None
    }
}

/// Every even-indexed byte of `b`: the low bytes of its 16-bit pairs.
pub open spec fn even_bytes(b: Seq<u8>) -> Seq<u8> {
    Seq::new((b.len() / 2) as nat, |i: int| b[2 * i])
}

/// The little-endian 16-bit units that the pairs of `b` spell.
pub open spec fn le_units(b: Seq<u8>) -> Seq<u16> {
    Seq::new((b.len() / 2) as nat, |i: int| le_u16(b.subrange(2 * i, 2 * i + 2)))
}

/// Each byte of `b` followed by a zero byte.
pub open spec fn padded(b: Seq<u8>) -> Seq<u8> {
    Seq::new(
        2 * b.len(),
        |i: int|
            if i % 2 == 0 {
                b[i / 2]
            } else {
                0u8
            },
    )
}

/// The units of `u` as little-endian byte pairs.
pub open spec fn units_bytes(u: Seq<u16>) -> Seq<u8> {
    Seq::new(
        2 * u.len(),
        |i: int|
            if i % 2 == 0 {
                (u[i / 2] % 256) as u8
            } else {
                (u[i / 2] / 256) as u8
            },
    )
}

/// Whether a field of `count` characters is within what this machine can
/// decode: the decoder sizes its buffer at three bytes of text per character,
/// rounded up to a power of two.
pub open spec fn decodable_count(count: int) -> bool {
    6 * count <= usize::MAX
}

/// The count that a header holds for a body of `len` characters: `len`, or the
/// largest count where `len` is beyond it.
pub open spec fn header_count(len: nat) -> u32 {
    if len <= MAX_COUNT {
        len as u32
    } else {
        MAX_COUNT
    }
}

/// A decoded text field. The variant records the wire shape that the text came
/// in, so that writing it reproduces that shape.
#[derive(Debug, PartialEq, Eq)]
pub enum FOTString {
    /// One byte per character, plain header.
    Ascii(String),
    /// One code-page byte and one zero byte per character, wide header.
    Win1251(String),
    /// UTF-16, little-endian, wide header.
    Utf16(String),
}

/// Mathematical counterpart of [`FOTString`].
pub enum FOTStringModel {
    Ascii(Seq<char>),
    Win1251(Seq<char>),
    Utf16(Seq<char>),
}

impl FOTStringModel {
    /// The decoded text, whatever its wire shape.
    pub open spec fn text(self) -> Seq<char> {
        match self {
            FOTStringModel::Ascii(t) => t,
            FOTStringModel::Win1251(t) => t,
            FOTStringModel::Utf16(t) => t,
        }
    }

    /// The number of wire characters: code-page bytes for the first two
    /// shapes, UTF-16 code units for the third.
    pub open spec fn wire_chars(self) -> nat {
        match self {
            FOTStringModel::Ascii(t) => t.len(),
            FOTStringModel::Win1251(t) => t.len(),
            FOTStringModel::Utf16(t) => utf16_units(t).len(),
        }
    }

    /// Length of the wire form as computed from the shape and the character
    /// count alone: the header and one or two bytes per character.
    pub open spec fn serialized_length(self) -> nat {
        match self {
            FOTStringModel::Ascii(_) => 4 + self.wire_chars(),
            _ => 4 + 2 * self.wire_chars(),
        }
    }

    /// The code page gives every character of the text exactly one byte.
    /// This always holds of the UTF-16 shape, which has no use for the code
    /// page.
    pub open spec fn one_byte_per_char(self) -> bool {
        match self {
            FOTStringModel::Ascii(t) => cp1251_encoded(t).0.len() == t.len(),
            FOTStringModel::Win1251(t) => cp1251_encoded(t).0.len() == t.len(),
            FOTStringModel::Utf16(_) => true,
        }
    }
}

impl DeepView for FOTString {
    type V = FOTStringModel;

    open spec fn deep_view(&self) -> FOTStringModel {
        match self {
            FOTString::Ascii(t) => FOTStringModel::Ascii(t@),
            FOTString::Win1251(t) => FOTStringModel::Win1251(t@),
            FOTString::Utf16(t) => FOTStringModel::Utf16(t@),
        }
    }
}

/// The bytes are text of the code page: none of them is the byte that the
/// code page leaves undefined, the decoder replaces none, and it gives one
/// character for each. The decoder at hand passes the undefined byte through
/// as U+0098 without a word, which is why that byte is looked for apart.
pub open spec fn cp1251_defined(bytes: Seq<u8>) -> bool {
    &&& !bytes.contains(CP1251_UNDEFINED)
    &&& !cp1251_decoded(bytes).1
    &&& cp1251_decoded(bytes).0.len() == bytes.len()
}

/// The wide body `raw` read by the heuristic: as code-page text when its low
/// bytes are all defined in the code page, else as UTF-16.
pub open spec fn spec_wide_body(raw: Seq<u8>) -> Result<FOTStringModel, ParseErrorModel> {
    let low = even_bytes(raw);
    if cp1251_defined(low) {
        Ok(FOTStringModel::Win1251(cp1251_decoded(low).0))
    } else {
        match utf16_decoded(le_units(raw)) {
            Some(t) => Ok(FOTStringModel::Utf16(t)),
            None => Err(ParseErrorModel::Encoding),
        }
    }
}

/// Parser of a text field.
#[verifier::opaque]
pub open spec fn spec_string(s: Seq<u8>) -> Result<(FOTStringModel, int), ParseErrorModel> {
    if s.len() < 4 {
        Err(ParseErrorModel::Io)
    } else {
        let header = le_u32(s);
        let body = s.skip(4);
        if header >= WIDE_FLAG {
            let count = header - WIDE_FLAG;
            if body.len() < 2 * count || !decodable_count(count) {
                Err(ParseErrorModel::Io)
            } else {
                match spec_wide_body(body.take(2 * count)) {
                    Ok(v) => Ok((v, 4 + 2 * count)),
                    Err(e) => Err(e),
                }
            }
        } else {
            if body.len() < header || !decodable_count(header as int) {
                Err(ParseErrorModel::Io)
            } else {
                let text = cp1251_decoded(body.take(header as int)).0;
                if text.len() == header {
                    Ok((FOTStringModel::Ascii(text), 4 + header))
                } else {
                    Err(ParseErrorModel::Encoding)
                }
            }
        }
    }
}

/// The wire form of a text field.
pub open spec fn spec_string_bytes(v: FOTStringModel) -> Seq<u8> {
    match v {
        FOTStringModel::Ascii(t) => {
            let b = cp1251_encoded(t).0;
            u32_bytes(header_count(b.len())) + b
        },
        FOTStringModel::Win1251(t) => {
            let b = cp1251_encoded(t).0;
            u32_bytes((WIDE_FLAG + header_count(b.len())) as u32) + padded(b)
        },
        FOTStringModel::Utf16(t) => {
            let u = utf16_units(t);
            u32_bytes((WIDE_FLAG + header_count(u.len())) as u32) + units_bytes(u)
        },
    }
}

/// `Encoding::decode_without_bom_handling` of `encoding_rs`, on
/// `WINDOWS_1251`: the decoded text and the flag that tells whether a byte
/// had to be replaced. It panics only where the size of the buffer to
/// allocate overflows: three bytes of text per byte of input, rounded up to
/// a power of two, are the most it asks for, and the precondition keeps that
/// within `usize`.
#[verifier::external_body]
fn cp1251_decode(bytes: &[u8]) -> (r: (String, bool))
    requires
        decodable_count(bytes@.len() as int),
    ensures
        (r.0@, r.1) == cp1251_decoded(bytes@),
{
    let (text, replaced) = encoding_rs::WINDOWS_1251.decode_without_bom_handling(bytes);
    (text.into_owned(), replaced)
}

/// `Encoding::encode` of `encoding_rs`, on `WINDOWS_1251`: the encoded bytes
/// and the flag that tells whether a character had to be replaced. It sizes
/// its buffer at the length of the text and ten bytes more, rounded up to a
/// power of two, which overflows only for a text within ten bytes of the
/// largest allocation there can be.
#[verifier::external_body]
fn cp1251_encode(text: &str) -> (r: (Vec<u8>, bool))
    ensures
        (r.0@, r.1) == cp1251_encoded(text@),
{
    let (bytes, _, unmappable) = encoding_rs::WINDOWS_1251.encode(text);
    (bytes.into_owned(), unmappable)
}

/// `Utf16String::from_vec` of `widestring`, followed by its `to_string`: the
/// text whose UTF-16 code units are `units`, or nothing where `units` are not
/// well-formed UTF-16.
#[verifier::external_body]
fn utf16_to_text(units: Vec<u16>) -> (r: Option<String>)
    ensures
        match r {
            Some(t) => utf16_units(t@) == units@,
            None => forall|t: Seq<char>| #[trigger] utf16_units(t) != units@,
        },
{
    match widestring::Utf16String::from_vec(units) {
        Ok(s) => Some(s.to_string()),
        Err(_) => None,
    }
}

/// `Utf16String::from_str` of `widestring`, followed by its `into_vec`: the
/// UTF-16 code units of `text`.
#[verifier::external_body]
fn text_to_utf16(text: &str) -> (r: Vec<u16>)
    ensures
        r@ == utf16_units(text@),
{
    widestring::Utf16String::from_str(text).into_vec()
}

/// A character is a Unicode scalar value: a code point that is no surrogate.
proof fn lemma_char_range(c: char)
    ensures
        (c as u32) <= 0xD7FF || 0xE000 <= (c as u32) <= 0x10_FFFF,
{
}

/// The code units of a character tell the character, and where they end.
proof fn lemma_utf16_char_injective(c: char, d: char, x: Seq<u16>, y: Seq<u16>)
    requires
        utf16_of_char(c) + x == utf16_of_char(d) + y,
    ensures
        c == d,
        x == y,
{
    lemma_char_range(c);
    lemma_char_range(d);
    let uc = utf16_of_char(c);
    let ud = utf16_of_char(d);
    let whole = uc + x;
    let nc = c as u32;
    let nd = d as u32;
    assert(whole[0] == uc[0]);
    assert(whole[0] == ud[0]);
    if nc >= 0x1_0000 {
        assert(nd >= 0x1_0000);
        assert(whole[1] == uc[1]);
        assert(whole[1] == ud[1]);
    }
    assert(nc == nd);
    vstd::utf8::char_u32_cast(c, nc);
    vstd::utf8::char_u32_cast(d, nd);
    assert(x =~= whole.skip(uc.len() as int));
    assert(y =~= whole.skip(ud.len() as int));
}

/// Two texts with the same UTF-16 code units are the same text.
pub proof fn lemma_utf16_injective(a: Seq<char>, b: Seq<char>)
    requires
        utf16_units(a) == utf16_units(b),
    ensures
        a == b,
    decreases a.len(),
{
    if a.len() == 0 {
        if b.len() != 0 {
            assert(utf16_units(b).len() >= utf16_of_char(b[0]).len());
        }
        assert(a =~= b);
    } else if b.len() == 0 {
        assert(utf16_units(a).len() >= utf16_of_char(a[0]).len());
    } else {
        lemma_utf16_char_injective(
            a[0],
            b[0],
            utf16_units(a.skip(1)),
            utf16_units(b.skip(1)),
        );
        lemma_utf16_injective(a.skip(1), b.skip(1));
        assert(a =~= seq![a[0]] + a.skip(1));
        assert(b =~= seq![b[0]] + b.skip(1));
    }
}

/// Decoding the UTF-16 code units of a text gives the text back.
pub proof fn lemma_utf16_round_trip(text: Seq<char>)
    ensures
        utf16_decoded(utf16_units(text)) == Some(text),
{
    reveal(utf16_decoded);
    let units = utf16_units(text);
    let t = choose|t: Seq<char>| utf16_units(t) == units;
    lemma_utf16_injective(t, text);
}

fn has_undefined(bytes: &[u8]) -> (r: bool)
    ensures
        r == bytes@.contains(CP1251_UNDEFINED),
{
    let n = bytes.len();
    let mut i: usize = 0;
    while i < n
        invariant
            i <= n,
            n == bytes@.len(),
            forall|j: int| 0 <= j < i ==> bytes@[j] != CP1251_UNDEFINED,
        decreases n - i,
    {
        if bytes[i] == CP1251_UNDEFINED {
            return true;
        }
        i = i + 1;
    }
    false
}

fn even_indexed(raw: &[u8]) -> (r: Vec<u8>)
    ensures
        r@ == even_bytes(raw@),
{
    let n = raw.len() / 2;
    let mut r: Vec<u8> = Vec::new();
    let mut i: usize = 0;
    while i < n
        invariant
            i <= n,
            n == raw@.len() / 2,
            2 * n <= raw@.len() <= usize::MAX,
            r@.len() == i,
            forall|j: int| 0 <= j < i ==> r@[j] == raw@[2 * j],
        decreases n - i,
    {
        r.push(raw[2 * i]);
        i = i + 1;
    }
    assert(r@ =~= even_bytes(raw@));
    r
}

fn units_of(raw: &[u8]) -> (r: Vec<u16>)
    ensures
        r@ == le_units(raw@),
{
    let n = raw.len() / 2;
    let mut r: Vec<u16> = Vec::new();
    let mut i: usize = 0;
    while i < n
        invariant
            i <= n,
            n == raw@.len() / 2,
            2 * n <= raw@.len() <= usize::MAX,
            r@.len() == i,
            forall|j: int| 0 <= j < i ==> r@[j] == le_u16(raw@.subrange(2 * j, 2 * j + 2)),
        decreases n - i,
    {
        let pair = slice_subrange(raw, 2 * i, 2 * i + 2);
        r.push(crate::primitive::le_read_u16(pair));
        i = i + 1;
    }
    assert(r@ =~= le_units(raw@));
    r
}

fn put_padded(out: &mut Vec<u8>, bytes: &[u8])
    ensures
        final(out)@ == old(out)@ + padded(bytes@),
{
    let n = bytes.len();
    let mut i: usize = 0;
    assert(out@ =~= old(out)@ + padded(bytes@.take(0)));
    while i < n
        invariant
            i <= n,
            n == bytes@.len(),
            out@ == old(out)@ + padded(bytes@.take(i as int)),
        decreases n - i,
    {
        out.push(bytes[i]);
        out.push(0u8);
        i = i + 1;
        assert(out@ =~= old(out)@ + padded(bytes@.take(i as int)));
    }
    assert(bytes@.take(n as int) =~= bytes@);
}

fn put_units(out: &mut Vec<u8>, units: &[u16])
    ensures
        final(out)@ == old(out)@ + units_bytes(units@),
{
    reveal(u16_bytes);
    let n = units.len();
    let mut i: usize = 0;
    assert(out@ =~= old(out)@ + units_bytes(units@.take(0)));
    while i < n
        invariant
            i <= n,
            n == units@.len(),
            out@ == old(out)@ + units_bytes(units@.take(i as int)),
        decreases n - i,
    {
        put_u16(out, units[i]);
        i = i + 1;
        proof {
            reveal(u16_bytes);
        }
        assert(out@ =~= old(out)@ + units_bytes(units@.take(i as int)));
    }
    assert(units@.take(n as int) =~= units@);
}

fn count_of(len: usize) -> (c: u32)
    ensures
        c == header_count(len as nat),
{
    if len <= 0x7fff_ffff {
        len as u32
    } else {
        0x7fff_ffff
    }
}

/// What is made of the code page's reading of a plain body of `count` bytes:
/// the text in the plain shape, where it holds one character for each byte; an
/// encoding error otherwise.
pub fn accept_plain(text: String, count: usize) -> (r: Result<FOTString, ParseError>)
    ensures
        r == if text@.len() == count {
            Ok::<FOTString, ParseError>(FOTString::Ascii(text))
        } else {
            Err::<FOTString, ParseError>(ParseError::Encoding)
        },
{
    if text.as_str().unicode_len() == count {
        Ok(FOTString::Ascii(text))
    } else {
        Err(ParseError::Encoding)
    }
}

/// What is made of the code page's reading of the `count` low bytes of a wide
/// body: the text in the code-page shape, where the decoder replaced nothing,
/// none of the bytes is the one that the code page leaves undefined, and the
/// text holds one character for each byte; nothing otherwise, which sends the
/// body on to be read as UTF-16.
pub fn accept_code_page(text: String, replaced: bool, undefined: bool, count: usize) -> (r: Option<
    FOTString,
>)
    ensures
        r == if !replaced && !undefined && text@.len() == count {
            Some(FOTString::Win1251(text))
        } else {
            None::<FOTString>
        },
{
    if !replaced && !undefined && text.as_str().unicode_len() == count {
        Some(FOTString::Win1251(text))
    } else {
        None
    }
}

/// What is made of the reading of a wide body as UTF-16: the text in the
/// UTF-16 shape, or an encoding error where the body is not well-formed.
pub fn accept_utf16(text: Option<String>) -> (r: Result<FOTString, ParseError>)
    ensures
        r == match text {
            Some(t) => Ok::<FOTString, ParseError>(FOTString::Utf16(t)),
            None => Err::<FOTString, ParseError>(ParseError::Encoding),
        },
{
    match text {
        Some(t) => Ok(FOTString::Utf16(t)),
        None => Err(ParseError::Encoding),
    }
}

/// Appends a plain text field whose body is `bytes`: the header with their
/// count, then the bytes.
pub fn put_plain_text(out: &mut Vec<u8>, bytes: &[u8])
    ensures
        final(out)@ == old(out)@ + (u32_bytes(header_count(bytes@.len())) + bytes@),
{
    put_u32(out, count_of(bytes.len()));
    put_bytes(out, bytes);
    assert(out@ =~= old(out)@ + (u32_bytes(header_count(bytes@.len())) + bytes@));
}

/// Appends a wide text field of code-page bytes: the wide header with their
/// count, then each byte with a zero byte after it.
pub fn put_code_page_text(out: &mut Vec<u8>, bytes: &[u8])
    ensures
        final(out)@ == old(out)@ + (u32_bytes((WIDE_FLAG + header_count(bytes@.len())) as u32)
            + padded(bytes@)),
{
    put_u32(out, WIDE_FLAG + count_of(bytes.len()));
    put_padded(out, bytes);
    assert(out@ =~= old(out)@ + (u32_bytes((WIDE_FLAG + header_count(bytes@.len())) as u32)
        + padded(bytes@)));
}

/// Appends a wide text field of UTF-16 code units: the wide header with their
/// count, then each unit as two little-endian bytes.
pub fn put_utf16_text(out: &mut Vec<u8>, units: &[u16])
    ensures
        final(out)@ == old(out)@ + (u32_bytes((WIDE_FLAG + header_count(units@.len())) as u32)
            + units_bytes(units@)),
{
    put_u32(out, WIDE_FLAG + count_of(units.len()));
    put_units(out, units);
    assert(out@ =~= old(out)@ + (u32_bytes((WIDE_FLAG + header_count(units@.len())) as u32)
        + units_bytes(units@)));
}

impl FOTString {
    /// The decoded text, whatever its wire shape.
    pub fn as_str(&self) -> (s: &str)
        ensures
            s@ == self.deep_view().text(),
    {
        match self {
            FOTString::Ascii(t) => t.as_str(),
            FOTString::Win1251(t) => t.as_str(),
            FOTString::Utf16(t) => t.as_str(),
        }
    }

    /// A copy of the field.
    pub fn duplicate(&self) -> (r: FOTString)
        ensures
            r.deep_view() == self.deep_view(),
    {
        match self {
            FOTString::Ascii(t) => FOTString::Ascii(t.clone()),
            FOTString::Win1251(t) => FOTString::Win1251(t.clone()),
            FOTString::Utf16(t) => FOTString::Utf16(t.clone()),
        }
    }

    /// Length of the wire form as computed from the shape and the character
    /// count alone, without encoding anything but the UTF-16 shape; the
    /// largest `usize` where the length is beyond it.
    pub fn serialized_length(&self) -> (n: usize)
        ensures
            n == if self.deep_view().serialized_length() <= usize::MAX {
                self.deep_view().serialized_length()
            } else {
                usize::MAX as nat
            },
    {
        let (chars, width): (usize, usize) = match self {
            FOTString::Ascii(t) => (t.as_str().unicode_len(), 1),
            FOTString::Win1251(t) => (t.as_str().unicode_len(), 2),
            FOTString::Utf16(t) => (text_to_utf16(t.as_str()).len(), 2),
        };
        match chars.checked_mul(width) {
            Some(body) => match body.checked_add(4) {
                Some(n) => n,
                None => usize::MAX,
            },
            None => usize::MAX,
        }
    }

    /// Decodes a text field at the cursor.
    pub fn read(data: &mut Stream) -> (r: Result<FOTString, ParseError>)
        ensures
            decoded(*old(data), *final(data), r, spec_string(old(data).rest())),
    {
        reveal(spec_string);
        reveal(utf16_decoded);
        let mut cur = *data;
        let header = cur.read_u32()?;
        if header >= WIDE_FLAG {
            let count = (header - WIDE_FLAG) as usize;
            let raw = cur.read_slice(2 * count)?;
            if count > usize::MAX / 6 {
                return Err(ParseError::Io);
            }
            let low = even_indexed(raw);
            let (text, replaced) = cp1251_decode(low.as_slice());
            let undefined = has_undefined(low.as_slice());
            match accept_code_page(text, replaced, undefined, count) {
                Some(field) => {
                    *data = cur;
                    Ok(field)
                },
                None => {
                    let units = units_of(raw);
                    let ghost shown = units@;
                    let text = utf16_to_text(units);
                    proof {
                        if text is Some {
                            let c = choose|c: Seq<char>| utf16_units(c) == shown;
                            lemma_utf16_injective(c, text->Some_0@);
                        }
                    }
                    let field = accept_utf16(text)?;
                    *data = cur;
                    Ok(field)
                },
            }
        } else {
            let count = header as usize;
            let raw = cur.read_slice(count)?;
            if count > usize::MAX / 6 {
                return Err(ParseError::Io);
            }
            let (text, _) = cp1251_decode(raw);
            let field = accept_plain(text, count)?;
            *data = cur;
            Ok(field)
        }
    }
}

impl Encodable for FOTString {
    open spec fn spec_parse(s: Seq<u8>) -> Result<(FOTStringModel, int), ParseErrorModel> {
        spec_string(s)
    }

    open spec fn spec_bytes(v: FOTStringModel) -> Seq<u8> {
        spec_string_bytes(v)
    }

    fn parse(data: &mut Stream) -> (r: Result<Self, ParseError>) {
        FOTString::read(data)
    }

    fn write(&self, out: &mut Vec<u8>) {
        match self {
            FOTString::Ascii(t) => {
                let (bytes, _) = cp1251_encode(t.as_str());
                put_plain_text(out, bytes.as_slice());
            },
            FOTString::Win1251(t) => {
                let (bytes, _) = cp1251_encode(t.as_str());
                put_code_page_text(out, bytes.as_slice());
            },
            FOTString::Utf16(t) => {
                let units = text_to_utf16(t.as_str());
                put_utf16_text(out, units.as_slice());
            },
        }
    }
}

/// Taking the low bytes of zero-padded bytes gives the bytes back.
pub proof fn lemma_even_of_padded(b: Seq<u8>)
    ensures
        even_bytes(padded(b)) == b,
        padded(b).len() == 2 * b.len(),
{
    assert(even_bytes(padded(b)) =~= b);
}

/// Reading the byte pairs of 16-bit units gives the units back.
pub proof fn lemma_units_of_bytes(u: Seq<u16>)
    ensures
        le_units(units_bytes(u)) == u,
        units_bytes(u).len() == 2 * u.len(),
{
    reveal(le_u16);
    let b = units_bytes(u);
    assert forall|i: int| 0 <= i < u.len() implies le_units(b)[i] == u[i] by {
        let pair = b.subrange(2 * i, 2 * i + 2);
        assert(pair[0] == b[2 * i]);
        assert(pair[1] == b[2 * i + 1]);
    }
    assert(le_units(b) =~= u);
}

impl RoundTrip for FOTString {
    /// The text comes back from its own wire form: the count fits the header
    /// and the machine, the code page gives the text back where the shape
    /// uses it, and where the shape is UTF-16 the low bytes of the code units
    /// are not all defined in the code page, so that the heuristic does not
    /// take them for code-page text.
    open spec fn valid(v: FOTStringModel) -> bool {
        match v {
            FOTStringModel::Ascii(t) => {
                let b = cp1251_encoded(t).0;
                b.len() <= MAX_COUNT && decodable_count(b.len() as int) && cp1251_decoded(b).0
                    == t && t.len() == b.len()
            },
            FOTStringModel::Win1251(t) => {
                let b = cp1251_encoded(t).0;
                b.len() <= MAX_COUNT && decodable_count(b.len() as int) && cp1251_defined(b)
                    && cp1251_decoded(b).0 == t
            },
            FOTStringModel::Utf16(t) => {
                let u = utf16_units(t);
                u.len() <= MAX_COUNT && decodable_count(u.len() as int) && !cp1251_defined(
                    even_bytes(units_bytes(u)),
                )
            },
        }
    }

    proof fn lemma_round_trip(v: FOTStringModel, rest: Seq<u8>) {
        reveal(spec_string);
        match v {
            FOTStringModel::Ascii(t) => {
                let b = cp1251_encoded(t).0;
                let h = header_count(b.len());
                assert(spec_string_bytes(v) + rest =~= u32_bytes(h) + (b + rest));
                lemma_u32_round_trip(h, b + rest);
                lemma_split(b, rest);
            },
            FOTStringModel::Win1251(t) => {
                let b = cp1251_encoded(t).0;
                let h = (WIDE_FLAG + header_count(b.len())) as u32;
                let body = padded(b);
                assert(spec_string_bytes(v) + rest =~= u32_bytes(h) + (body + rest));
                lemma_u32_round_trip(h, body + rest);
                lemma_split(body, rest);
                lemma_even_of_padded(b);
            },
            FOTStringModel::Utf16(t) => {
                let u = utf16_units(t);
                let h = (WIDE_FLAG + header_count(u.len())) as u32;
                let body = units_bytes(u);
                assert(spec_string_bytes(v) + rest =~= u32_bytes(h) + (body + rest));
                lemma_u32_round_trip(h, body + rest);
                lemma_split(body, rest);
                lemma_units_of_bytes(u);
                lemma_utf16_round_trip(t);
            },
        }
    }
}

/// The length that `serialized_length` computes for a decoded text field is
/// the number of bytes that the field was decoded from.
pub proof fn lemma_decoded_length(s: Seq<u8>)
    ensures
        spec_string(s) matches Ok((v, n)) ==> v.serialized_length() == n,
{
    reveal(spec_string);
    reveal(utf16_decoded);
}

/// Writing a text field gives as many bytes as `serialized_length` computes
/// from its shape and character count, provided that the code page gives
/// every character of the text one byte.
pub proof fn lemma_serialized_length(v: FOTStringModel)
    requires
        v.one_byte_per_char(),
    ensures
        spec_string_bytes(v).len() == v.serialized_length(),
{
    reveal(u32_bytes);
}

/// In a valid text field the code page gives every character one byte, so
/// that the field is written in as many bytes as `serialized_length`
/// computes.
pub proof fn lemma_valid_length(v: FOTStringModel)
    requires
        FOTString::valid(v),
    ensures
        v.one_byte_per_char(),
        spec_string_bytes(v).len() == v.serialized_length(),
{
    lemma_serialized_length(v);
}

/// The heuristic for a wide body: code-page text where the low bytes are all
/// defined in the code page, UTF-16 text where they are not and the pairs are
/// well-formed UTF-16, and an encoding error where neither holds.
pub proof fn lemma_wide_heuristic(raw: Seq<u8>)
    ensures
        cp1251_defined(even_bytes(raw)) ==> spec_wide_body(raw) == Ok::<
            FOTStringModel,
            ParseErrorModel,
        >(FOTStringModel::Win1251(cp1251_decoded(even_bytes(raw)).0)),
        !cp1251_defined(even_bytes(raw)) ==> (forall|t: Seq<char>|
            utf16_units(t) == le_units(raw) ==> spec_wide_body(raw) == Ok::<
                FOTStringModel,
                ParseErrorModel,
            >(FOTStringModel::Utf16(t))),
        !cp1251_defined(even_bytes(raw)) && (forall|t: Seq<char>|
            utf16_units(t) != le_units(raw)) ==> spec_wide_body(raw) == Err::<
            FOTStringModel,
            ParseErrorModel,
        >(ParseErrorModel::Encoding),
{
    reveal(utf16_decoded);
    if !cp1251_defined(even_bytes(raw)) {
        assert forall|t: Seq<char>| utf16_units(t) == le_units(raw) implies spec_wide_body(raw)
            == Ok::<FOTStringModel, ParseErrorModel>(FOTStringModel::Utf16(t)) by {
            let c = choose|c: Seq<char>| utf16_units(c) == le_units(raw);
            lemma_utf16_injective(c, t);
        }
    }
}

impl<'a> Stream<'a> {
    /// Reads a text field.
    pub fn read_string(&mut self) -> (r: Result<FOTString, ParseError>)
        ensures
            decoded(*old(self), *final(self), r, spec_string(old(self).rest())),
    {
        FOTString::read(self)
    }
}

} // verus!
