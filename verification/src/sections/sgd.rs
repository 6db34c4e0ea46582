//! The replica table: an identifier, an opaque header, a list of names and a
//! list of lists of replicas.

use crate::codec::{lemma_concat6, lemma_split, Encodable, RoundTrip};
use crate::error::{ParseError, ParseErrorModel};
use crate::section::{
    lemma_blob_round_trip, lemma_ident_round_trip, lemma_tag_round_trip, open_section, put_blob,
    put_ident, put_tag, read_blob, read_ident, spec_blob, spec_ident, spec_ident_bytes, spec_tag,
    tag_bytes, valid_ident,
};
use crate::stream::{decoded, lemma_advanced_rest, Stream};
use crate::text::{FOTString, FOTStringModel};
use vstd::prelude::*;

verus! {

broadcast use lemma_advanced_rest;

/// Tag that opens a replica table.
pub const SDG_TAG: &'static str = "<sgd>\0";

/// Size of the opaque header of a replica table.
pub const SDG_HEADER_LEN: usize = 0x48;

/// A replica table.
#[derive(Debug, PartialEq, Eq)]
pub struct SDG {
    /// Identifier that follows the tag, without its terminator.
    pub magic: Vec<u8>,
    /// The opaque header, kept as found.
    pub unknown: Vec<u8>,
    pub names: Vec<FOTString>,
    pub replicas: Vec<Vec<FOTString>>,
}

/// Mathematical counterpart of [`SDG`].
pub struct SDGModel {
    pub magic: Seq<u8>,
    pub unknown: Seq<u8>,
    pub names: Seq<FOTStringModel>,
    pub replicas: Seq<Seq<FOTStringModel>>,
}

impl DeepView for SDG {
    type V = SDGModel;

    open spec fn deep_view(&self) -> SDGModel {
        SDGModel {
            magic: self.magic.deep_view(),
            unknown: self.unknown.deep_view(),
            names: self.names.deep_view(),
            replicas: self.replicas.deep_view(),
        }
    }
}

impl SDG {
    /// Decodes a replica table at the cursor.
    pub fn read(data: &mut Stream) -> (r: Result<SDG, ParseError>)
        ensures
            decoded(*old(data), *final(data), r, Self::spec_parse(old(data).rest())),
    {
        let mut cur = *data;
        open_section(&mut cur, SDG_TAG)?;
        let magic = read_ident(&mut cur)?;
        let unknown = read_blob(&mut cur, SDG_HEADER_LEN)?;
        let names = Vec::<FOTString>::parse(&mut cur)?;
        let replicas = Vec::<Vec<FOTString>>::parse(&mut cur)?;
        *data = cur;
        Ok(SDG { magic, unknown, names, replicas })
    }
}

impl Encodable for SDG {
    open spec fn spec_parse(s: Seq<u8>) -> Result<(SDGModel, int), ParseErrorModel> {
        match spec_tag(s, SDG_TAG) {
            Some(e) => Err(e),
            None => {
                let n0 = tag_bytes(SDG_TAG).len() as int;
                let s1 = s.skip(n0);
                match spec_ident(s1) {
                    Err(e) => Err(e),
                    Ok((magic, n1)) => {
                        let s2 = s1.skip(n1);
                        match spec_blob(s2, SDG_HEADER_LEN as nat) {
                            Err(e) => Err(e),
                            Ok((unknown, n2)) => {
                                let s3 = s2.skip(n2);
                                match Vec::<FOTString>::spec_parse(s3) {
                                    Err(e) => Err(e),
                                    Ok((names, n3)) => {
                                        let s4 = s3.skip(n3);
                                        match Vec::<Vec<FOTString>>::spec_parse(s4) {
                                            Err(e) => Err(e),
                                            Ok((replicas, n4)) => Ok(
                                                (
                                                    SDGModel { magic, unknown, names, replicas },
                                                    n0 + n1 + n2 + n3 + n4,
                                                ),
                                            ),
                                        }
                                    },
                                }
                            },
                        }
                    },
                }
            },
        }
    }

    open spec fn spec_bytes(v: SDGModel) -> Seq<u8> {
        tag_bytes(SDG_TAG) + spec_ident_bytes(v.magic) + v.unknown + Vec::<FOTString>::spec_bytes(
            v.names,
        ) + Vec::<Vec<FOTString>>::spec_bytes(v.replicas)
    }

    fn parse(data: &mut Stream) -> (r: Result<Self, ParseError>) {
        SDG::read(data)
    }

    fn write(&self, out: &mut Vec<u8>) {
        put_tag(out, SDG_TAG);
        put_ident(out, &self.magic);
        put_blob(out, &self.unknown);
        self.names.write(out);
        self.replicas.write(out);
    }
}

impl RoundTrip for SDG {
    open spec fn valid(v: SDGModel) -> bool {
        &&& valid_ident(v.magic)
        &&& v.unknown.len() == SDG_HEADER_LEN
        &&& Vec::<FOTString>::valid(v.names)
        &&& Vec::<Vec<FOTString>>::valid(v.replicas)
    }

    proof fn lemma_round_trip(v: SDGModel, rest: Seq<u8>) {
        let b0 = tag_bytes(SDG_TAG);
        let b1 = spec_ident_bytes(v.magic);
        let b2 = v.unknown;
        let b3 = Vec::<FOTString>::spec_bytes(v.names);
        let b4 = Vec::<Vec<FOTString>>::spec_bytes(v.replicas);
        let r3 = b4 + rest;
        let r2 = b3 + r3;
        let r1 = b2 + r2;
        let r0 = b1 + r1;
        lemma_concat6(b0, b1, b2, b3, b4, rest);
        lemma_tag_round_trip(SDG_TAG, r0);
        lemma_ident_round_trip(v.magic, r1);
        lemma_blob_round_trip(b2, r2);
        Vec::<FOTString>::lemma_round_trip(v.names, r3);
        lemma_split(b3, r3);
        Vec::<Vec<FOTString>>::lemma_round_trip(v.replicas, rest);
    }
}

} // verus!
