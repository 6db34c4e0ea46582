//! The image record: an identifier, two dimensions, an image that may be
//! absent, and an opaque run of bytes.

use crate::codec::{
    lemma_concat3, lemma_concat7, lemma_round_trip_optional, lemma_split, parse_optional, spec_optional, spec_optional_bytes,
    write_optional, Encodable, RoundTrip,
};
use crate::error::{ParseError, ParseErrorModel};
use crate::primitive::{put_u8, spec_u8};
use crate::section::{
    lemma_ident_round_trip, lemma_tag_round_trip, open_section, put_ident, put_tag, read_ident,
    spec_ident, spec_ident_bytes, spec_tag, tag_bytes, valid_ident,
};
use crate::stream::{lemma_advanced_rest, Stream};
use vstd::prelude::*;

verus! {

broadcast use lemma_advanced_rest;

/// Tag that opens an image record.
pub const ZAR_TAG: &'static str = "<zar>\0";

/// The image of an image record.
#[derive(Debug, PartialEq, Eq)]
pub struct ZarSub {
    pub img: Vec<i32>,
    pub flag: u8,
}

/// Mathematical counterpart of [`ZarSub`].
pub struct ZarSubModel {
    pub img: Seq<i32>,
    pub flag: u8,
}

impl DeepView for ZarSub {
    type V = ZarSubModel;

    open spec fn deep_view(&self) -> ZarSubModel {
        ZarSubModel { img: self.img.deep_view(), flag: self.flag }
    }
}

impl Encodable for ZarSub {
    open spec fn spec_parse(s: Seq<u8>) -> Result<(ZarSubModel, int), ParseErrorModel> {
        match Vec::<i32>::spec_parse(s) {
            Err(e) => Err(e),
            Ok((img, n0)) => match spec_u8(s.skip(n0)) {
                Err(e) => Err(e),
                Ok((flag, n1)) => Ok((ZarSubModel { img, flag }, n0 + n1)),
            },
        }
    }

    open spec fn spec_bytes(v: ZarSubModel) -> Seq<u8> {
        Vec::<i32>::spec_bytes(v.img) + seq![v.flag]
    }

    fn parse(data: &mut Stream) -> (r: Result<Self, ParseError>) {
        let mut cur = *data;
        let img = Vec::<i32>::parse(&mut cur)?;
        let flag = cur.read_u8()?;
        *data = cur;
        Ok(ZarSub { img, flag })
    }

    fn write(&self, out: &mut Vec<u8>) {
        self.img.write(out);
        put_u8(out, self.flag);
    }
}

/// An image record.
#[derive(Debug, PartialEq, Eq)]
pub struct Zar {
    /// Identifier that follows the tag, without its terminator.
    pub magic: Vec<u8>,
    pub h: i32,
    pub w: i32,
    pub data: Option<ZarSub>,
    /// The opaque run that ends the record, kept as found.
    pub unknown: Vec<u8>,
}

/// Mathematical counterpart of [`Zar`].
pub struct ZarModel {
    pub magic: Seq<u8>,
    pub h: i32,
    pub w: i32,
    pub data: Option<ZarSubModel>,
    pub unknown: Seq<u8>,
}

impl DeepView for Zar {
    type V = ZarModel;

    open spec fn deep_view(&self) -> ZarModel {
        ZarModel {
            magic: self.magic.deep_view(),
            h: self.h,
            w: self.w,
            data: self.data.deep_view(),
            unknown: self.unknown.deep_view(),
        }
    }
}

impl Encodable for Zar {
    open spec fn spec_parse(s: Seq<u8>) -> Result<(ZarModel, int), ParseErrorModel> {
        match spec_tag(s, ZAR_TAG) {
            Some(e) => Err(e),
            None => {
                let n0 = tag_bytes(ZAR_TAG).len() as int;
                let s1 = s.skip(n0);
                match spec_ident(s1) {
                    Err(e) => Err(e),
                    Ok((magic, n1)) => {
                        let s2 = s1.skip(n1);
                        match i32::spec_parse(s2) {
                            Err(e) => Err(e),
                            Ok((h, n2)) => {
                                let s3 = s2.skip(n2);
                                match i32::spec_parse(s3) {
                                    Err(e) => Err(e),
                                    Ok((w, n3)) => {
                                        let s4 = s3.skip(n3);
                                        match spec_optional::<ZarSub>(s4) {
                                            Err(e) => Err(e),
                                            Ok((data, n4)) => {
                                                let s5 = s4.skip(n4);
                                                match Vec::<u8>::spec_parse(s5) {
                                                    Err(e) => Err(e),
                                                    Ok((unknown, n5)) => Ok(
                                                        (
                                                            ZarModel { magic, h, w, data, unknown },
                                                            n0 + n1 + n2 + n3 + n4 + n5,
                                                        ),
                                                    ),
                                                }
                                            },
                                        }
                                    },
                                }
                            },
                        }
                    },
                }
            },
        }
    }

    open spec fn spec_bytes(v: ZarModel) -> Seq<u8> {
        tag_bytes(ZAR_TAG) + spec_ident_bytes(v.magic) + i32::spec_bytes(v.h) + i32::spec_bytes(
            v.w,
        ) + spec_optional_bytes::<ZarSub>(v.data) + Vec::<u8>::spec_bytes(v.unknown)
    }

    fn parse(data: &mut Stream) -> (r: Result<Self, ParseError>) {
        let mut cur = *data;
        open_section(&mut cur, ZAR_TAG)?;
        let magic = read_ident(&mut cur)?;
        let h = cur.read_i32()?;
        let w = cur.read_i32()?;
        let sub = parse_optional::<ZarSub>(&mut cur)?;
        let unknown = Vec::<u8>::parse(&mut cur)?;
        *data = cur;
        Ok(Zar { magic, h, w, data: sub, unknown })
    }

    fn write(&self, out: &mut Vec<u8>) {
        put_tag(out, ZAR_TAG);
        put_ident(out, &self.magic);
        self.h.write(out);
        self.w.write(out);
        write_optional::<ZarSub>(&self.data, out);
        self.unknown.write(out);
    }
}

impl RoundTrip for ZarSub {
    open spec fn valid(v: ZarSubModel) -> bool {
        Vec::<i32>::valid(v.img)
    }

    proof fn lemma_round_trip(v: ZarSubModel, rest: Seq<u8>) {
        let b0 = Vec::<i32>::spec_bytes(v.img);
        let r0 = seq![v.flag] + rest;
        lemma_concat3(b0, seq![v.flag], rest);
        Vec::<i32>::lemma_round_trip(v.img, r0);
        lemma_split(b0, r0);
    }
}

impl RoundTrip for Zar {
    open spec fn valid(v: ZarModel) -> bool {
        &&& valid_ident(v.magic)
        &&& (v.data matches Some(sub) ==> ZarSub::valid(sub))
        &&& Vec::<u8>::valid(v.unknown)
    }

    proof fn lemma_round_trip(v: ZarModel, rest: Seq<u8>) {
        let b0 = tag_bytes(ZAR_TAG);
        let b1 = spec_ident_bytes(v.magic);
        let b2 = i32::spec_bytes(v.h);
        let b3 = i32::spec_bytes(v.w);
        let b4 = spec_optional_bytes::<ZarSub>(v.data);
        let b5 = Vec::<u8>::spec_bytes(v.unknown);
        let r4 = b5 + rest;
        let r3 = b4 + r4;
        let r2 = b3 + r3;
        let r1 = b2 + r2;
        let r0 = b1 + r1;
        lemma_concat7(b0, b1, b2, b3, b4, b5, rest);
        lemma_tag_round_trip(ZAR_TAG, r0);
        lemma_ident_round_trip(v.magic, r1);
        i32::lemma_round_trip(v.h, r2);
        lemma_split(b2, r2);
        i32::lemma_round_trip(v.w, r3);
        lemma_split(b3, r3);
        lemma_round_trip_optional::<ZarSub>(v.data, r4);
        lemma_split(b4, r4);
        Vec::<u8>::lemma_round_trip(v.unknown, rest);
    }
}

} // verus!
