//! The save header: an identifier, a version byte, five text fields, eight
//! sub-records and six integers.

use crate::codec::{
    all_valid, lemma_concat3, lemma_concat6, lemma_concat7, lemma_round_trip_n,
    lemma_round_trip_optional, lemma_split, parse_array,
    parse_optional, spec_bytes_all, spec_optional, spec_optional_bytes, spec_parse_n, write_array,
    write_optional, Encodable, RoundTrip,
};
use crate::error::{ParseError, ParseErrorModel};
use crate::primitive::{as_unsigned8, lemma_i32_round_trip, put_i8, put_u8, spec_i8, spec_u8};
use crate::section::{
    lemma_blob_round_trip, lemma_ident_round_trip, lemma_tag_round_trip, open_section, put_blob,
    put_ident, put_tag, read_blob, read_ident, spec_blob, spec_ident, spec_ident_bytes, spec_tag,
    tag_bytes, valid_ident,
};
use crate::stream::{decoded, lemma_advanced_rest, Stream};
use crate::text::FOTString;
use crate::text::FOTStringModel;
use vstd::prelude::*;

verus! {

broadcast use lemma_advanced_rest;

/// Tag that opens a save header.
pub const SAVEH_TAG: &'static str = "<saveh>\0";

/// Size of the opaque run that opens each sub-record.
pub const TEST_HEADER_LEN: usize = 8;

/// Number of text fields in a save header.
pub const SAVEH_STRINGS: usize = 5;

/// Number of sub-records in a save header.
pub const SAVEH_RECORDS: usize = 8;

/// Number of integers that end a save header.
pub const SAVEH_INTS: usize = 6;

/// The part of a sub-record that may be absent.
#[derive(Debug, PartialEq, Eq)]
pub struct TestSub {
    pub values: Vec<i32>,
    pub flag: u8,
}

/// Mathematical counterpart of [`TestSub`].
pub struct TestSubModel {
    pub values: Seq<i32>,
    pub flag: u8,
}

impl DeepView for TestSub {
    type V = TestSubModel;

    open spec fn deep_view(&self) -> TestSubModel {
        TestSubModel { values: self.values.deep_view(), flag: self.flag }
    }
}

impl Encodable for TestSub {
    open spec fn spec_parse(s: Seq<u8>) -> Result<(TestSubModel, int), ParseErrorModel> {
        match Vec::<i32>::spec_parse(s) {
            Err(e) => Err(e),
            Ok((values, n0)) => match spec_u8(s.skip(n0)) {
                Err(e) => Err(e),
                Ok((flag, n1)) => Ok((TestSubModel { values, flag }, n0 + n1)),
            },
        }
    }

    open spec fn spec_bytes(v: TestSubModel) -> Seq<u8> {
        Vec::<i32>::spec_bytes(v.values) + seq![v.flag]
    }

    fn parse(data: &mut Stream) -> (r: Result<Self, ParseError>) {
        let mut cur = *data;
        let values = Vec::<i32>::parse(&mut cur)?;
        let flag = cur.read_u8()?;
        *data = cur;
        Ok(TestSub { values, flag })
    }

    fn write(&self, out: &mut Vec<u8>) {
        self.values.write(out);
        put_u8(out, self.flag);
    }
}

/// A sub-record of the save header. Its meaning is not known; it is kept
/// field by field.
#[derive(Debug, PartialEq, Eq)]
pub struct Test {
    /// The opaque run that opens the sub-record, kept as found.
    pub skipped: Vec<u8>,
    pub f1: i32,
    pub f2: i32,
    pub f4: Option<TestSub>,
    /// The counted run of bytes that ends the sub-record.
    pub blob: Vec<u8>,
}

/// Mathematical counterpart of [`Test`].
pub struct TestModel {
    pub skipped: Seq<u8>,
    pub f1: i32,
    pub f2: i32,
    pub f4: Option<TestSubModel>,
    pub blob: Seq<u8>,
}

impl DeepView for Test {
    type V = TestModel;

    open spec fn deep_view(&self) -> TestModel {
        TestModel {
            skipped: self.skipped.deep_view(),
            f1: self.f1,
            f2: self.f2,
            f4: self.f4.deep_view(),
            blob: self.blob.deep_view(),
        }
    }
}

impl Test {
    /// Decodes a sub-record at the cursor.
    pub fn read(data: &mut Stream) -> (r: Result<Test, ParseError>)
        ensures
            decoded(*old(data), *final(data), r, Self::spec_parse(old(data).rest())),
    {
        let mut cur = *data;
        let skipped = read_blob(&mut cur, TEST_HEADER_LEN)?;
        let f1 = cur.read_i32()?;
        let f2 = cur.read_i32()?;
        let f4 = parse_optional::<TestSub>(&mut cur)?;
        let blob = Vec::<u8>::parse(&mut cur)?;
        *data = cur;
        Ok(Test { skipped, f1, f2, f4, blob })
    }
}

impl Encodable for Test {
    open spec fn spec_parse(s: Seq<u8>) -> Result<(TestModel, int), ParseErrorModel> {
        match spec_blob(s, TEST_HEADER_LEN as nat) {
            Err(e) => Err(e),
            Ok((skipped, n0)) => {
                let s1 = s.skip(n0);
                match i32::spec_parse(s1) {
                    Err(e) => Err(e),
                    Ok((f1, n1)) => {
                        let s2 = s1.skip(n1);
                        match i32::spec_parse(s2) {
                            Err(e) => Err(e),
                            Ok((f2, n2)) => {
                                let s3 = s2.skip(n2);
                                match spec_optional::<TestSub>(s3) {
                                    Err(e) => Err(e),
                                    Ok((f4, n3)) => {
                                        let s4 = s3.skip(n3);
                                        match Vec::<u8>::spec_parse(s4) {
                                            Err(e) => Err(e),
                                            Ok((blob, n4)) => Ok(
                                                (
                                                    TestModel { skipped, f1, f2, f4, blob },
                                                    n0 + n1 + n2 + n3 + n4,
                                                ),
                                            ),
                                        }
                                    },
                                }
                            },
                        }
                    },
                }
            },
        }
    }

    open spec fn spec_bytes(v: TestModel) -> Seq<u8> {
        v.skipped + i32::spec_bytes(v.f1) + i32::spec_bytes(v.f2) + spec_optional_bytes::<TestSub>(
            v.f4,
        ) + Vec::<u8>::spec_bytes(v.blob)
    }

    fn parse(data: &mut Stream) -> (r: Result<Self, ParseError>) {
        Test::read(data)
    }

    fn write(&self, out: &mut Vec<u8>) {
        put_blob(out, &self.skipped);
        self.f1.write(out);
        self.f2.write(out);
        write_optional::<TestSub>(&self.f4, out);
        self.blob.write(out);
    }
}

/// A save header.
#[derive(Debug, PartialEq, Eq)]
pub struct Saveh {
    /// Identifier that follows the tag, without its terminator.
    pub magic: Vec<u8>,
    pub version: i8,
    /// The five text fields.
    pub strings: Vec<FOTString>,
    /// The eight sub-records.
    pub tmp: Vec<Test>,
    /// The six integers.
    pub ints: Vec<u32>,
}

/// Mathematical counterpart of [`Saveh`].
pub struct SavehModel {
    pub magic: Seq<u8>,
    pub version: i8,
    pub strings: Seq<FOTStringModel>,
    pub tmp: Seq<TestModel>,
    pub ints: Seq<u32>,
}

impl DeepView for Saveh {
    type V = SavehModel;

    open spec fn deep_view(&self) -> SavehModel {
        SavehModel {
            magic: self.magic.deep_view(),
            version: self.version,
            strings: self.strings.deep_view(),
            tmp: self.tmp.deep_view(),
            ints: self.ints.deep_view(),
        }
    }
}

impl Saveh {
    /// Decodes a save header at the cursor.
    pub fn read(data: &mut Stream) -> (r: Result<Saveh, ParseError>)
        ensures
            decoded(*old(data), *final(data), r, Self::spec_parse(old(data).rest())),
    {
        let mut cur = *data;
        open_section(&mut cur, SAVEH_TAG)?;
        let magic = read_ident(&mut cur)?;
        let version = cur.read_i8()?;
        let strings = parse_array::<FOTString>(&mut cur, SAVEH_STRINGS)?;
        let tmp = parse_array::<Test>(&mut cur, SAVEH_RECORDS)?;
        let ints = parse_array::<u32>(&mut cur, SAVEH_INTS)?;
        *data = cur;
        Ok(Saveh { magic, version, strings, tmp, ints })
    }
}

impl Encodable for Saveh {
    open spec fn spec_parse(s: Seq<u8>) -> Result<(SavehModel, int), ParseErrorModel> {
        match spec_tag(s, SAVEH_TAG) {
            Some(e) => Err(e),
            None => {
                let n0 = tag_bytes(SAVEH_TAG).len() as int;
                let s1 = s.skip(n0);
                match spec_ident(s1) {
                    Err(e) => Err(e),
                    Ok((magic, n1)) => {
                        let s2 = s1.skip(n1);
                        match spec_i8(s2) {
                            Err(e) => Err(e),
                            Ok((version, n2)) => {
                                let s3 = s2.skip(n2);
                                match spec_parse_n::<FOTString>(s3, SAVEH_STRINGS as nat) {
                                    Err(e) => Err(e),
                                    Ok((strings, n3)) => {
                                        let s4 = s3.skip(n3);
                                        match spec_parse_n::<Test>(s4, SAVEH_RECORDS as nat) {
                                            Err(e) => Err(e),
                                            Ok((tmp, n4)) => {
                                                let s5 = s4.skip(n4);
                                                match spec_parse_n::<u32>(s5, SAVEH_INTS as nat) {
                                                    Err(e) => Err(e),
                                                    Ok((ints, n5)) => Ok(
                                                        (
                                                            SavehModel {
                                                                magic,
                                                                version,
                                                                strings,
                                                                tmp,
                                                                ints,
                                                            },
                                                            n0 + n1 + n2 + n3 + n4 + n5,
                                                        ),
                                                    ),
                                                }
                                            },
                                        }
                                    },
                                }
                            },
                        }
                    },
                }
            },
        }
    }

    open spec fn spec_bytes(v: SavehModel) -> Seq<u8> {
        tag_bytes(SAVEH_TAG) + spec_ident_bytes(v.magic) + seq![as_unsigned8(v.version)]
            + spec_bytes_all::<FOTString>(v.strings) + spec_bytes_all::<Test>(v.tmp)
            + spec_bytes_all::<u32>(v.ints)
    }

    fn parse(data: &mut Stream) -> (r: Result<Self, ParseError>) {
        Saveh::read(data)
    }

    fn write(&self, out: &mut Vec<u8>) {
        put_tag(out, SAVEH_TAG);
        put_ident(out, &self.magic);
        put_i8(out, self.version);
        write_array::<FOTString>(&self.strings, out);
        write_array::<Test>(&self.tmp, out);
        write_array::<u32>(&self.ints, out);
    }
}

impl RoundTrip for TestSub {
    open spec fn valid(v: TestSubModel) -> bool {
        Vec::<i32>::valid(v.values)
    }

    proof fn lemma_round_trip(v: TestSubModel, rest: Seq<u8>) {
        let b0 = Vec::<i32>::spec_bytes(v.values);
        let r0 = seq![v.flag] + rest;
        lemma_concat3(b0, seq![v.flag], rest);
        Vec::<i32>::lemma_round_trip(v.values, r0);
        lemma_split(b0, r0);
    }
}

impl RoundTrip for Test {
    open spec fn valid(v: TestModel) -> bool {
        &&& v.skipped.len() == TEST_HEADER_LEN
        &&& (v.f4 matches Some(sub) ==> TestSub::valid(sub))
        &&& Vec::<u8>::valid(v.blob)
    }

    proof fn lemma_round_trip(v: TestModel, rest: Seq<u8>) {
        let b0 = v.skipped;
        let b1 = i32::spec_bytes(v.f1);
        let b2 = i32::spec_bytes(v.f2);
        let b3 = spec_optional_bytes::<TestSub>(v.f4);
        let b4 = Vec::<u8>::spec_bytes(v.blob);
        let r3 = b4 + rest;
        let r2 = b3 + r3;
        let r1 = b2 + r2;
        let r0 = b1 + r1;
        lemma_concat6(b0, b1, b2, b3, b4, rest);
        let s = Self::spec_bytes(v) + rest;
        assert(s == b0 + r0);
        lemma_blob_round_trip(b0, r0);
        assert(spec_blob(s, TEST_HEADER_LEN as nat) == Ok::<(Seq<u8>, int), ParseErrorModel>(
            (b0, b0.len() as int),
        ));
        let s1 = s.skip(b0.len() as int);
        assert(s1 == r0);
        lemma_i32_round_trip(v.f1, r1);
        let s2 = s1.skip(4);
        assert(s2 == r1);
        lemma_i32_round_trip(v.f2, r2);
        let s3 = s2.skip(4);
        assert(s3 == r2);
        lemma_round_trip_optional::<TestSub>(v.f4, r3);
        lemma_split(b3, r3);
        let s4 = s3.skip(b3.len() as int);
        assert(s4 == r3);
        Vec::<u8>::lemma_round_trip(v.blob, rest);
        assert(Self::spec_bytes(v).len() == b0.len() + 4 + 4 + b3.len() + b4.len());
    }
}

impl RoundTrip for Saveh {
    open spec fn valid(v: SavehModel) -> bool {
        &&& valid_ident(v.magic)
        &&& v.strings.len() == SAVEH_STRINGS
        &&& all_valid::<FOTString>(v.strings)
        &&& v.tmp.len() == SAVEH_RECORDS
        &&& all_valid::<Test>(v.tmp)
        &&& v.ints.len() == SAVEH_INTS
    }

    proof fn lemma_round_trip(v: SavehModel, rest: Seq<u8>) {
        let b0 = tag_bytes(SAVEH_TAG);
        let b1 = spec_ident_bytes(v.magic);
        let b2 = seq![as_unsigned8(v.version)];
        let b3 = spec_bytes_all::<FOTString>(v.strings);
        let b4 = spec_bytes_all::<Test>(v.tmp);
        let b5 = spec_bytes_all::<u32>(v.ints);
        let r4 = b5 + rest;
        let r3 = b4 + r4;
        let r2 = b3 + r3;
        let r1 = b2 + r2;
        let r0 = b1 + r1;
        lemma_concat7(b0, b1, b2, b3, b4, b5, rest);
        lemma_tag_round_trip(SAVEH_TAG, r0);
        lemma_ident_round_trip(v.magic, r1);
        lemma_split(b2, r2);
        lemma_round_trip_n::<FOTString>(v.strings, r3);
        lemma_split(b3, r3);
        lemma_round_trip_n::<Test>(v.tmp, r4);
        lemma_split(b4, r4);
        lemma_round_trip_n::<u32>(v.ints, rest);
    }
}

} // verus!
