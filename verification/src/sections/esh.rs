//! The table of tagged values: each record is a key, a numeric type tag, a
//! declared payload length, and a payload whose shape the tag decides.

use crate::codec::{
    array_to_words, count_field, lemma_concat3, lemma_concat4, lemma_round_trip_n, lemma_split,
    parse_array, spec_bytes_all, spec_map, spec_parse_n, words_to_array, write_array, Encodable,
    RoundTrip,
};
use crate::error::{ParseError, ParseErrorModel};
use crate::primitive::{
    as_unsigned32, lemma_i32_round_trip, lemma_u16_round_trip, lemma_u32_round_trip, put_i32,
    put_u16, put_u32, put_u8, spec_i32, spec_i8, spec_u16, spec_u32, u16_bytes, u32_bytes,
};
use crate::section::{
    lemma_blob_round_trip, lemma_ident_round_trip, lemma_tag_round_trip, open_section, put_blob,
    put_ident, put_tag, read_blob, read_ident, spec_blob, spec_ident, spec_ident_bytes, spec_tag,
    tag_bytes, valid_ident,
};
use crate::stream::{decoded, lemma_advanced_rest, Stream};
use crate::text::{spec_string, spec_string_bytes, FOTString, FOTStringModel};
use vstd::prelude::*;

verus! {

broadcast use lemma_advanced_rest;

/// Tag that opens a table of tagged values.
pub const ESH_TAG: &'static str = "<esh>\0";

/// Tag of a one-byte boolean.
pub const TAG_BOOL: u32 = 1;

/// Tag of a 32-bit float.
pub const TAG_FLOAT: u32 = 2;

/// Tag of a 32-bit signed integer.
pub const TAG_I32: u32 = 3;

/// Tag of a text field.
pub const TAG_STRING: u32 = 4;

/// Tag of a color: three 32-bit values.
pub const TAG_COLOR: u32 = 5;

/// Tag of the name of a sprite, a text field.
pub const TAG_SPRITE: u32 = 8;

/// Tag of the name of a type, a text field.
pub const TAG_TYPE: u32 = 9;

/// Tag of a run of bytes of the declared length.
pub const TAG_BIN: u32 = 11;

/// Tag of a link: an entity and flags, 16 bits each.
pub const TAG_LINK: u32 = 12;

/// Tag of a frame: twelve 32-bit floats.
pub const TAG_FRAME: u32 = 13;

/// Tag of a rectangle: four 32-bit values.
pub const TAG_RECT: u32 = 14;

/// Tag of the name of a zone, a text field.
pub const TAG_ZONE_NAME: u32 = 21;

/// The tag has a payload shape of its own.
pub open spec fn known_tag(tag: u32) -> bool {
    tag == TAG_BOOL || tag == TAG_FLOAT || tag == TAG_I32 || tag == TAG_STRING || tag == TAG_COLOR
        || tag == TAG_SPRITE || tag == TAG_TYPE || tag == TAG_BIN || tag == TAG_LINK || tag
        == TAG_FRAME || tag == TAG_RECT || tag == TAG_ZONE_NAME
}

/// One tagged value. Floating-point payloads are held as their 32 bits.
#[derive(Debug, PartialEq, Eq)]
pub enum EshValue {
    Bool(bool),
    /// The bits of a 32-bit float.
    Float(u32),
    I32(i32),
    String(FOTString),
    Color([u32; 3]),
    Sprite(FOTString),
    Type(FOTString),
    Bin(Vec<u8>),
    Link { flags: u16, entity: u16 },
    /// The bits of twelve 32-bit floats.
    Frame([u32; 12]),
    Rect([u32; 4]),
    ZoneName(FOTString),
    /// A value under a tag without a shape of its own: the tag and the
    /// payload, kept as found.
    Unknown(u32, Vec<u8>),
}

/// Mathematical counterpart of [`EshValue`].
pub enum EshValueModel {
    Bool(bool),
    Float(u32),
    I32(i32),
    String(FOTStringModel),
    Color(Seq<u32>),
    Sprite(FOTStringModel),
    Type(FOTStringModel),
    Bin(Seq<u8>),
    Link { flags: u16, entity: u16 },
    Frame(Seq<u32>),
    Rect(Seq<u32>),
    ZoneName(FOTStringModel),
    Unknown(u32, Seq<u8>),
}

impl DeepView for EshValue {
    type V = EshValueModel;

    open spec fn deep_view(&self) -> EshValueModel {
        match self {
            EshValue::Bool(b) => EshValueModel::Bool(*b),
            EshValue::Float(x) => EshValueModel::Float(*x),
            EshValue::I32(x) => EshValueModel::I32(*x),
            EshValue::String(t) => EshValueModel::String(t.deep_view()),
            EshValue::Color(c) => EshValueModel::Color(c.deep_view()),
            EshValue::Sprite(t) => EshValueModel::Sprite(t.deep_view()),
            EshValue::Type(t) => EshValueModel::Type(t.deep_view()),
            EshValue::Bin(b) => EshValueModel::Bin(b.deep_view()),
            EshValue::Link { flags, entity } => EshValueModel::Link {
                flags: *flags,
                entity: *entity,
            },
            EshValue::Frame(f) => EshValueModel::Frame(f.deep_view()),
            EshValue::Rect(r) => EshValueModel::Rect(r.deep_view()),
            EshValue::ZoneName(t) => EshValueModel::ZoneName(t.deep_view()),
            EshValue::Unknown(tag, b) => EshValueModel::Unknown(*tag, b.deep_view()),
        }
    }
}

/// Parser of the two 16-bit fields of a link: the entity, then the flags.
pub open spec fn spec_link(s: Seq<u8>) -> Result<(EshValueModel, int), ParseErrorModel> {
    match spec_u16(s) {
        Err(e) => Err(e),
        Ok((entity, n0)) => match spec_u16(s.skip(n0)) {
            Err(e) => Err(e),
            Ok((flags, n1)) => Ok((EshValueModel::Link { flags, entity }, n0 + n1)),
        },
    }
}

/// Parser of the payload of a tagged value. A tag with a shape of its own
/// decides what is read, whatever `len` says; under any other tag, and for a
/// blob, `len` bytes are taken as they are.
pub open spec fn spec_payload(tag: u32, len: u32, s: Seq<u8>) -> Result<
    (EshValueModel, int),
    ParseErrorModel,
> {
    if tag == TAG_BOOL {
        spec_map(spec_i8(s), |b: i8| EshValueModel::Bool(b != 0))
    } else if tag == TAG_FLOAT {
        spec_map(spec_u32(s), |x: u32| EshValueModel::Float(x))
    } else if tag == TAG_I32 {
        spec_map(spec_i32(s), |x: i32| EshValueModel::I32(x))
    } else if tag == TAG_STRING {
        spec_map(spec_string(s), |t: FOTStringModel| EshValueModel::String(t))
    } else if tag == TAG_COLOR {
        spec_map(spec_parse_n::<u32>(s, 3), |c: Seq<u32>| EshValueModel::Color(c))
    } else if tag == TAG_SPRITE {
        spec_map(spec_string(s), |t: FOTStringModel| EshValueModel::Sprite(t))
    } else if tag == TAG_TYPE {
        spec_map(spec_string(s), |t: FOTStringModel| EshValueModel::Type(t))
    } else if tag == TAG_BIN {
        spec_map(spec_blob(s, len as nat), |b: Seq<u8>| EshValueModel::Bin(b))
    } else if tag == TAG_LINK {
        spec_link(s)
    } else if tag == TAG_FRAME {
        spec_map(spec_parse_n::<u32>(s, 12), |f: Seq<u32>| EshValueModel::Frame(f))
    } else if tag == TAG_RECT {
        spec_map(spec_parse_n::<u32>(s, 4), |r: Seq<u32>| EshValueModel::Rect(r))
    } else if tag == TAG_ZONE_NAME {
        spec_map(spec_string(s), |t: FOTStringModel| EshValueModel::ZoneName(t))
    } else {
        spec_map(spec_blob(s, len as nat), |b: Seq<u8>| EshValueModel::Unknown(tag, b))
    }
}

/// The tag that a value is written under.
pub open spec fn spec_tag_of(v: EshValueModel) -> u32 {
    match v {
        EshValueModel::Bool(_) => TAG_BOOL,
        EshValueModel::Float(_) => TAG_FLOAT,
        EshValueModel::I32(_) => TAG_I32,
        EshValueModel::String(_) => TAG_STRING,
        EshValueModel::Color(_) => TAG_COLOR,
        EshValueModel::Sprite(_) => TAG_SPRITE,
        EshValueModel::Type(_) => TAG_TYPE,
        EshValueModel::Bin(_) => TAG_BIN,
        EshValueModel::Link { .. } => TAG_LINK,
        EshValueModel::Frame(_) => TAG_FRAME,
        EshValueModel::Rect(_) => TAG_RECT,
        EshValueModel::ZoneName(_) => TAG_ZONE_NAME,
        EshValueModel::Unknown(tag, _) => tag,
    }
}

/// The payload length that a value is written with: the constant of its
/// shape, the computed length of its text field, or the length of its blob.
pub open spec fn spec_declared_len(v: EshValueModel) -> u32 {
    match v {
        EshValueModel::Bool(_) => 1,
        EshValueModel::Float(_) => 4,
        EshValueModel::I32(_) => 4,
        EshValueModel::String(t) => count_field(t.serialized_length()),
        EshValueModel::Color(_) => 12,
        EshValueModel::Sprite(t) => count_field(t.serialized_length()),
        EshValueModel::Type(t) => count_field(t.serialized_length()),
        EshValueModel::Bin(b) => count_field(b.len()),
        EshValueModel::Link { .. } => 4,
        EshValueModel::Frame(_) => 48,
        EshValueModel::Rect(_) => 16,
        EshValueModel::ZoneName(t) => count_field(t.serialized_length()),
        EshValueModel::Unknown(_, b) => count_field(b.len()),
    }
}

/// The wire form of the payload of a value.
pub open spec fn spec_payload_bytes(v: EshValueModel) -> Seq<u8> {
    match v {
        EshValueModel::Bool(b) => seq![if b { 1u8 } else { 0u8 }],
        EshValueModel::Float(x) => u32_bytes(x),
        EshValueModel::I32(x) => u32_bytes(as_unsigned32(x)),
        EshValueModel::String(t) => spec_string_bytes(t),
        EshValueModel::Color(c) => spec_bytes_all::<u32>(c),
        EshValueModel::Sprite(t) => spec_string_bytes(t),
        EshValueModel::Type(t) => spec_string_bytes(t),
        EshValueModel::Bin(b) => b,
        EshValueModel::Link { flags, entity } => u16_bytes(entity) + u16_bytes(flags),
        EshValueModel::Frame(f) => spec_bytes_all::<u32>(f),
        EshValueModel::Rect(r) => spec_bytes_all::<u32>(r),
        EshValueModel::ZoneName(t) => spec_string_bytes(t),
        EshValueModel::Unknown(_, b) => b,
    }
}

fn declared_len(n: usize) -> (c: u32)
    ensures
        c == count_field(n as nat),
        n == usize::MAX ==> c == u32::MAX,
{
    if n <= 0xffff_ffff {
        n as u32
    } else {
        0xffff_ffff
    }
}

fn text_len(t: &FOTString) -> (c: u32)
    ensures
        c == count_field(t.deep_view().serialized_length()),
{
    declared_len(t.serialized_length())
}

impl EshValue {
    /// Decodes the payload that goes with `tag` and the declared length `len`.
    pub fn parse_payload(data: &mut Stream, tag: u32, len: u32) -> (r: Result<
        EshValue,
        ParseError,
    >)
        ensures
            decoded(*old(data), *final(data), r, spec_payload(tag, len, old(data).rest())),
    {
        if tag == TAG_BOOL {
            let b = data.read_i8()?;
            Ok(EshValue::Bool(b != 0))
        } else if tag == TAG_FLOAT {
            let x = data.read_u32()?;
            Ok(EshValue::Float(x))
        } else if tag == TAG_I32 {
            let x = data.read_i32()?;
            Ok(EshValue::I32(x))
        } else if tag == TAG_STRING {
            let t = data.read_string()?;
            Ok(EshValue::String(t))
        } else if tag == TAG_COLOR {
            let c = parse_array::<u32>(data, 3)?;
            Ok(EshValue::Color(words_to_array::<3>(&c)))
        } else if tag == TAG_SPRITE {
            let t = data.read_string()?;
            Ok(EshValue::Sprite(t))
        } else if tag == TAG_TYPE {
            let t = data.read_string()?;
            Ok(EshValue::Type(t))
        } else if tag == TAG_BIN {
            let b = read_blob(data, len as usize)?;
            Ok(EshValue::Bin(b))
        } else if tag == TAG_LINK {
            let mut cur = *data;
            let entity = cur.read_u16()?;
            let flags = cur.read_u16()?;
            *data = cur;
            Ok(EshValue::Link { flags, entity })
        } else if tag == TAG_FRAME {
            let f = parse_array::<u32>(data, 12)?;
            Ok(EshValue::Frame(words_to_array::<12>(&f)))
        } else if tag == TAG_RECT {
            let c = parse_array::<u32>(data, 4)?;
            Ok(EshValue::Rect(words_to_array::<4>(&c)))
        } else if tag == TAG_ZONE_NAME {
            let t = data.read_string()?;
            Ok(EshValue::ZoneName(t))
        } else {
            let b = read_blob(data, len as usize)?;
            Ok(EshValue::Unknown(tag, b))
        }
    }

    /// The tag that the value is written under.
    pub fn tag(&self) -> (t: u32)
        ensures
            t == spec_tag_of(self.deep_view()),
    {
        match self {
            EshValue::Bool(_) => TAG_BOOL,
            EshValue::Float(_) => TAG_FLOAT,
            EshValue::I32(_) => TAG_I32,
            EshValue::String(_) => TAG_STRING,
            EshValue::Color(_) => TAG_COLOR,
            EshValue::Sprite(_) => TAG_SPRITE,
            EshValue::Type(_) => TAG_TYPE,
            EshValue::Bin(_) => TAG_BIN,
            EshValue::Link { .. } => TAG_LINK,
            EshValue::Frame(_) => TAG_FRAME,
            EshValue::Rect(_) => TAG_RECT,
            EshValue::ZoneName(_) => TAG_ZONE_NAME,
            EshValue::Unknown(tag, _) => *tag,
        }
    }

    /// The payload length that the value is written with.
    pub fn declared_len(&self) -> (n: u32)
        ensures
            n == spec_declared_len(self.deep_view()),
    {
        match self {
            EshValue::Bool(_) => 1,
            EshValue::Float(_) => 4,
            EshValue::I32(_) => 4,
            EshValue::String(t) => text_len(t),
            EshValue::Color(_) => 12,
            EshValue::Sprite(t) => text_len(t),
            EshValue::Type(t) => text_len(t),
            EshValue::Bin(b) => declared_len(b.len()),
            EshValue::Link { .. } => 4,
            EshValue::Frame(_) => 48,
            EshValue::Rect(_) => 16,
            EshValue::ZoneName(t) => text_len(t),
            EshValue::Unknown(_, b) => declared_len(b.len()),
        }
    }

    /// Appends the payload of the value.
    pub fn write_payload(&self, out: &mut Vec<u8>)
        ensures
            final(out)@ == old(out)@ + spec_payload_bytes(self.deep_view()),
    {
        match self {
            EshValue::Bool(b) => {
                put_u8(
                    out,
                    if *b {
                        1
                    } else {
                        0
                    },
                );
            },
            EshValue::Float(x) => {
                put_u32(out, *x);
            },
            EshValue::I32(x) => {
                put_i32(out, *x);
            },
            EshValue::String(t) => {
                t.write(out);
            },
            EshValue::Color(c) => {
                write_array::<u32>(&array_to_words::<3>(c), out);
            },
            EshValue::Sprite(t) => {
                t.write(out);
            },
            EshValue::Type(t) => {
                t.write(out);
            },
            EshValue::Bin(b) => {
                put_blob(out, b);
            },
            EshValue::Link { flags, entity } => {
                put_u16(out, *entity);
                put_u16(out, *flags);
                assert(out@ =~= old(out)@ + (u16_bytes(*entity) + u16_bytes(*flags)));
            },
            EshValue::Frame(f) => {
                write_array::<u32>(&array_to_words::<12>(f), out);
            },
            EshValue::Rect(r) => {
                write_array::<u32>(&array_to_words::<4>(r), out);
            },
            EshValue::ZoneName(t) => {
                t.write(out);
            },
            EshValue::Unknown(_, b) => {
                put_blob(out, b);
            },
        }
    }
}

impl Encodable for EshValue {
    open spec fn spec_parse(s: Seq<u8>) -> Result<(EshValueModel, int), ParseErrorModel> {
        match spec_u32(s) {
            Err(e) => Err(e),
            Ok((tag, n0)) => {
                let s1 = s.skip(n0);
                match spec_u32(s1) {
                    Err(e) => Err(e),
                    Ok((len, n1)) => {
                        let s2 = s1.skip(n1);
                        match spec_payload(tag, len, s2) {
                            Err(e) => Err(e),
                            Ok((v, n2)) => Ok((v, n0 + n1 + n2)),
                        }
                    },
                }
            },
        }
    }

    open spec fn spec_bytes(v: EshValueModel) -> Seq<u8> {
        u32_bytes(spec_tag_of(v)) + u32_bytes(spec_declared_len(v)) + spec_payload_bytes(v)
    }

    fn parse(data: &mut Stream) -> (r: Result<Self, ParseError>) {
        let mut cur = *data;
        let tag = cur.read_u32()?;
        let len = cur.read_u32()?;
        let value = EshValue::parse_payload(&mut cur, tag, len)?;
        *data = cur;
        Ok(value)
    }

    fn write(&self, out: &mut Vec<u8>) {
        put_u32(out, self.tag());
        put_u32(out, self.declared_len());
        self.write_payload(out);
    }
}

/// One record of the table: a key and its value.
#[derive(Debug, PartialEq, Eq)]
pub struct EshEntry {
    pub name: FOTString,
    pub value: EshValue,
}

/// Mathematical counterpart of [`EshEntry`].
pub struct EshEntryModel {
    pub name: FOTStringModel,
    pub value: EshValueModel,
}

impl DeepView for EshEntry {
    type V = EshEntryModel;

    open spec fn deep_view(&self) -> EshEntryModel {
        EshEntryModel { name: self.name.deep_view(), value: self.value.deep_view() }
    }
}

impl Encodable for EshEntry {
    open spec fn spec_parse(s: Seq<u8>) -> Result<(EshEntryModel, int), ParseErrorModel> {
        match spec_string(s) {
            Err(e) => Err(e),
            Ok((name, n0)) => match EshValue::spec_parse(s.skip(n0)) {
                Err(e) => Err(e),
                Ok((value, n1)) => Ok((EshEntryModel { name, value }, n0 + n1)),
            },
        }
    }

    open spec fn spec_bytes(v: EshEntryModel) -> Seq<u8> {
        spec_string_bytes(v.name) + EshValue::spec_bytes(v.value)
    }

    fn parse(data: &mut Stream) -> (r: Result<Self, ParseError>) {
        let mut cur = *data;
        let name = cur.read_string()?;
        let value = EshValue::parse(&mut cur)?;
        *data = cur;
        Ok(EshEntry { name, value })
    }

    fn write(&self, out: &mut Vec<u8>) {
        self.name.write(out);
        self.value.write(out);
    }
}

/// A table of tagged values.
#[derive(Debug, PartialEq, Eq)]
pub struct Esh {
    /// Identifier that follows the tag, without its terminator.
    pub magic: Vec<u8>,
    pub values: Vec<EshEntry>,
}

/// Mathematical counterpart of [`Esh`].
pub struct EshModel {
    pub magic: Seq<u8>,
    pub values: Seq<EshEntryModel>,
}

impl DeepView for Esh {
    type V = EshModel;

    open spec fn deep_view(&self) -> EshModel {
        EshModel { magic: self.magic.deep_view(), values: self.values.deep_view() }
    }
}

impl Esh {
    /// Decodes a table of tagged values at the cursor.
    pub fn read(data: &mut Stream) -> (r: Result<Esh, ParseError>)
        ensures
            decoded(*old(data), *final(data), r, Self::spec_parse(old(data).rest())),
    {
        let mut cur = *data;
        open_section(&mut cur, ESH_TAG)?;
        let magic = read_ident(&mut cur)?;
        let values = Vec::<EshEntry>::parse(&mut cur)?;
        *data = cur;
        Ok(Esh { magic, values })
    }
}

impl Encodable for Esh {
    open spec fn spec_parse(s: Seq<u8>) -> Result<(EshModel, int), ParseErrorModel> {
        match spec_tag(s, ESH_TAG) {
            Some(e) => Err(e),
            None => {
                let n0 = tag_bytes(ESH_TAG).len() as int;
                let s1 = s.skip(n0);
                match spec_ident(s1) {
                    Err(e) => Err(e),
                    Ok((magic, n1)) => {
                        let s2 = s1.skip(n1);
                        match Vec::<EshEntry>::spec_parse(s2) {
                            Err(e) => Err(e),
                            Ok((values, n2)) => Ok((EshModel { magic, values }, n0 + n1 + n2)),
                        }
                    },
                }
            },
        }
    }

    open spec fn spec_bytes(v: EshModel) -> Seq<u8> {
        tag_bytes(ESH_TAG) + spec_ident_bytes(v.magic) + Vec::<EshEntry>::spec_bytes(v.values)
    }

    fn parse(data: &mut Stream) -> (r: Result<Self, ParseError>) {
        Esh::read(data)
    }

    fn write(&self, out: &mut Vec<u8>) {
        put_tag(out, ESH_TAG);
        put_ident(out, &self.magic);
        self.values.write(out);
    }
}

/// Under a tag without a shape of its own, the payload is the declared number
/// of bytes, kept under that tag; it takes exactly that many bytes, and fails
/// only for want of them.
pub proof fn lemma_unknown_tag(tag: u32, len: u32, s: Seq<u8>)
    requires
        !known_tag(tag),
    ensures
        s.len() >= len ==> spec_payload(tag, len, s) == Ok::<(EshValueModel, int), ParseErrorModel>(
            (EshValueModel::Unknown(tag, s.take(len as int)), len as int),
        ),
        s.len() < len ==> spec_payload(tag, len, s) == Err::<
            (EshValueModel, int),
            ParseErrorModel,
        >(ParseErrorModel::Io),
{
}

/// The payload of a valid value decodes, under the tag and the length that
/// the value is written with, to the value.
pub proof fn lemma_payload_round_trip(v: EshValueModel, rest: Seq<u8>)
    requires
        EshValue::valid(v),
    ensures
        spec_payload(spec_tag_of(v), spec_declared_len(v), spec_payload_bytes(v) + rest) == Ok::<
            (EshValueModel, int),
            ParseErrorModel,
        >((v, spec_payload_bytes(v).len() as int)),
{
    match v {
        EshValueModel::Bool(b) => {},
        EshValueModel::Float(x) => {
            lemma_u32_round_trip(x, rest);
        },
        EshValueModel::I32(x) => {
            lemma_i32_round_trip(x, rest);
        },
        EshValueModel::String(t) => {
            FOTString::lemma_round_trip(t, rest);
        },
        EshValueModel::Color(c) => {
            lemma_round_trip_n::<u32>(c, rest);
        },
        EshValueModel::Sprite(t) => {
            FOTString::lemma_round_trip(t, rest);
        },
        EshValueModel::Type(t) => {
            FOTString::lemma_round_trip(t, rest);
        },
        EshValueModel::Bin(b) => {
            lemma_blob_round_trip(b, rest);
        },
        EshValueModel::Link { flags, entity } => {
            let b0 = u16_bytes(entity);
            let b1 = u16_bytes(flags);
            lemma_concat3(b0, b1, rest);
            lemma_u16_round_trip(entity, b1 + rest);
            lemma_u16_round_trip(flags, rest);
        },
        EshValueModel::Frame(f) => {
            lemma_round_trip_n::<u32>(f, rest);
        },
        EshValueModel::Rect(r) => {
            lemma_round_trip_n::<u32>(r, rest);
        },
        EshValueModel::ZoneName(t) => {
            FOTString::lemma_round_trip(t, rest);
        },
        EshValueModel::Unknown(tag, b) => {
            lemma_blob_round_trip(b, rest);
        },
    }
}

impl RoundTrip for EshValue {
    /// Text that is valid, arrays of the length of their shape, blobs whose
    /// length fits the length field, and no tag with a shape of its own on a
    /// value kept as unknown.
    open spec fn valid(v: EshValueModel) -> bool {
        match v {
            EshValueModel::String(t) => FOTString::valid(t),
            EshValueModel::Color(c) => c.len() == 3,
            EshValueModel::Sprite(t) => FOTString::valid(t),
            EshValueModel::Type(t) => FOTString::valid(t),
            EshValueModel::Bin(b) => b.len() <= u32::MAX,
            EshValueModel::Frame(f) => f.len() == 12,
            EshValueModel::Rect(r) => r.len() == 4,
            EshValueModel::ZoneName(t) => FOTString::valid(t),
            EshValueModel::Unknown(tag, b) => !known_tag(tag) && b.len() <= u32::MAX,
            _ => true,
        }
    }

    proof fn lemma_round_trip(v: EshValueModel, rest: Seq<u8>) {
        let b0 = u32_bytes(spec_tag_of(v));
        let b1 = u32_bytes(spec_declared_len(v));
        let b2 = spec_payload_bytes(v);
        let r1 = b2 + rest;
        let r0 = b1 + r1;
        lemma_concat4(b0, b1, b2, rest);
        lemma_u32_round_trip(spec_tag_of(v), r0);
        lemma_u32_round_trip(spec_declared_len(v), r1);
        lemma_payload_round_trip(v, rest);
    }
}

impl RoundTrip for EshEntry {
    open spec fn valid(v: EshEntryModel) -> bool {
        FOTString::valid(v.name) && EshValue::valid(v.value)
    }

    proof fn lemma_round_trip(v: EshEntryModel, rest: Seq<u8>) {
        let b0 = spec_string_bytes(v.name);
        let b1 = EshValue::spec_bytes(v.value);
        let r0 = b1 + rest;
        lemma_concat3(b0, b1, rest);
        FOTString::lemma_round_trip(v.name, r0);
        lemma_split(b0, r0);
        EshValue::lemma_round_trip(v.value, rest);
    }
}

impl RoundTrip for Esh {
    open spec fn valid(v: EshModel) -> bool {
        valid_ident(v.magic) && Vec::<EshEntry>::valid(v.values)
    }

    proof fn lemma_round_trip(v: EshModel, rest: Seq<u8>) {
        let b0 = tag_bytes(ESH_TAG);
        let b1 = spec_ident_bytes(v.magic);
        let b2 = Vec::<EshEntry>::spec_bytes(v.values);
        let r1 = b2 + rest;
        let r0 = b1 + r1;
        lemma_concat4(b0, b1, b2, rest);
        lemma_tag_round_trip(ESH_TAG, r0);
        lemma_ident_round_trip(v.magic, r1);
        Vec::<EshEntry>::lemma_round_trip(v.values, rest);
    }
}

} // verus!
