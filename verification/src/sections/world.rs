//! The world record: an identifier and a compressed subsection that holds a
//! path, a replica table, an entity collection and an opaque rest.

use crate::codec::{lemma_concat4, lemma_split, Encodable, RoundTrip};
use crate::compress::{
    inflates_back, lemma_compressed_round_trip, open_compressed_subsection, put_compressed,
    spec_compressed, spec_compressed_bytes,
};
use crate::error::{ParseError, ParseErrorModel};
use crate::section::{
    lemma_bytes_deep_view, lemma_ident_round_trip, lemma_tag_round_trip, open_section, put_blob,
    put_ident, put_tag, read_ident, read_tail, spec_ident, spec_ident_bytes, spec_tag, tag_bytes,
    valid_ident,
};
use crate::sections::sgd::{SDGModel, SDG};
use crate::sections::ssg::{SSGModel, SSG};
use crate::stream::{decoded, lemma_advanced_rest, Stream};
use crate::text::{spec_string, spec_string_bytes, FOTString, FOTStringModel};
use vstd::prelude::*;

verus! {

broadcast use {lemma_advanced_rest, lemma_bytes_deep_view};

/// Tag that opens a world record.
pub const WORLD_TAG: &'static str = "<world>\0";

/// A world record.
#[derive(Debug, PartialEq, Eq)]
pub struct World {
    /// Identifier that follows the tag, without its terminator.
    pub magic: Vec<u8>,
    pub path: FOTString,
    pub sdg: SDG,
    pub ssg: SSG,
    /// What the payload holds after the entity collection, kept as found.
    pub tail: Vec<u8>,
}

/// Mathematical counterpart of [`World`].
pub struct WorldModel {
    pub magic: Seq<u8>,
    pub path: FOTStringModel,
    pub sdg: SDGModel,
    pub ssg: SSGModel,
    pub tail: Seq<u8>,
}

impl DeepView for World {
    type V = WorldModel;

    open spec fn deep_view(&self) -> WorldModel {
        WorldModel {
            magic: self.magic.deep_view(),
            path: self.path.deep_view(),
            sdg: self.sdg.deep_view(),
            ssg: self.ssg.deep_view(),
            tail: self.tail.deep_view(),
        }
    }
}

/// Parser of the inflated payload of a world record, which it takes whole.
pub open spec fn spec_world_payload(magic: Seq<u8>, p: Seq<u8>) -> Result<
    WorldModel,
    ParseErrorModel,
> {
    match spec_string(p) {
        Err(e) => Err(e),
        Ok((path, n0)) => {
            let p1 = p.skip(n0);
            match SDG::spec_parse(p1) {
                Err(e) => Err(e),
                Ok((sdg, n1)) => {
                    let p2 = p1.skip(n1);
                    match SSG::spec_parse(p2) {
                        Err(e) => Err(e),
                        Ok((ssg, n2)) => Ok(
                            WorldModel { magic, path, sdg, ssg, tail: p2.skip(n2) },
                        ),
                    }
                },
            }
        },
    }
}

/// The payload of a world record before it is compressed.
pub open spec fn spec_world_payload_bytes(v: WorldModel) -> Seq<u8> {
    spec_string_bytes(v.path) + SDG::spec_bytes(v.sdg) + SSG::spec_bytes(v.ssg) + v.tail
}

impl World {
    /// Decodes a world record at the cursor.
    pub fn read(data: &mut Stream) -> (r: Result<World, ParseError>)
        ensures
            decoded(*old(data), *final(data), r, Self::spec_parse(old(data).rest())),
    {
        let mut cur = *data;
        open_section(&mut cur, WORLD_TAG)?;
        let magic = read_ident(&mut cur)?;
        let payload = open_compressed_subsection(&mut cur)?;
        let mut inner = Stream::new(payload.as_slice());
        let path = inner.read_string()?;
        let sdg = SDG::read(&mut inner)?;
        let ssg = SSG::read(&mut inner)?;
        let tail = read_tail(&mut inner)?;
        *data = cur;
        Ok(World { magic, path, sdg, ssg, tail })
    }

    /// The payload of the record before it is compressed.
    pub fn payload(&self) -> (p: Vec<u8>)
        ensures
            p@ == spec_world_payload_bytes(self.deep_view()),
    {
        let mut p: Vec<u8> = Vec::new();
        self.path.write(&mut p);
        self.sdg.write(&mut p);
        self.ssg.write(&mut p);
        put_blob(&mut p, &self.tail);
        assert(p@ =~= spec_world_payload_bytes(self.deep_view()));
        p
    }
}

impl Encodable for World {
    open spec fn spec_parse(s: Seq<u8>) -> Result<(WorldModel, int), ParseErrorModel> {
        match spec_tag(s, WORLD_TAG) {
            Some(e) => Err(e),
            None => {
                let n0 = tag_bytes(WORLD_TAG).len() as int;
                let s1 = s.skip(n0);
                match spec_ident(s1) {
                    Err(e) => Err(e),
                    Ok((magic, n1)) => {
                        let s2 = s1.skip(n1);
                        match spec_compressed(s2) {
                            Err(e) => Err(e),
                            Ok((payload, n2)) => match spec_world_payload(magic, payload) {
                                Err(e) => Err(e),
                                Ok(v) => Ok((v, n0 + n1 + n2)),
                            },
                        }
                    },
                }
            },
        }
    }

    open spec fn spec_bytes(v: WorldModel) -> Seq<u8> {
        tag_bytes(WORLD_TAG) + spec_ident_bytes(v.magic) + spec_compressed_bytes(
            spec_world_payload_bytes(v),
        )
    }

    fn parse(data: &mut Stream) -> (r: Result<Self, ParseError>) {
        World::read(data)
    }

    fn write(&self, out: &mut Vec<u8>) {
        let payload = self.payload();
        put_tag(out, WORLD_TAG);
        put_ident(out, &self.magic);
        put_compressed(out, &payload);
    }
}

/// The payload of a valid world record decodes to the record.
pub proof fn lemma_world_payload_round_trip(v: WorldModel)
    requires
        FOTString::valid(v.path),
        SDG::valid(v.sdg),
        SSG::valid(v.ssg),
    ensures
        spec_world_payload(v.magic, spec_world_payload_bytes(v)) == Ok::<
            WorldModel,
            ParseErrorModel,
        >(v),
{
    let b0 = spec_string_bytes(v.path);
    let b1 = SDG::spec_bytes(v.sdg);
    let b2 = SSG::spec_bytes(v.ssg);
    let r1 = b2 + v.tail;
    let r0 = b1 + r1;
    lemma_concat4(b0, b1, b2, v.tail);
    FOTString::lemma_round_trip(v.path, r0);
    lemma_split(b0, r0);
    SDG::lemma_round_trip(v.sdg, r1);
    lemma_split(b1, r1);
    SSG::lemma_round_trip(v.ssg, v.tail);
    lemma_split(b2, v.tail);
}

impl RoundTrip for World {
    /// The parts are valid, the payload fits the length fields, and the
    /// decompressor gives the payload back from what the compressor made of
    /// it.
    open spec fn valid(v: WorldModel) -> bool {
        &&& valid_ident(v.magic)
        &&& FOTString::valid(v.path)
        &&& SDG::valid(v.sdg)
        &&& SSG::valid(v.ssg)
        &&& spec_world_payload_bytes(v).len() <= u32::MAX
        &&& inflates_back(spec_world_payload_bytes(v))
    }

    proof fn lemma_round_trip(v: WorldModel, rest: Seq<u8>) {
        let b0 = tag_bytes(WORLD_TAG);
        let b1 = spec_ident_bytes(v.magic);
        let p = spec_world_payload_bytes(v);
        let b2 = spec_compressed_bytes(p);
        let r1 = b2 + rest;
        let r0 = b1 + r1;
        lemma_concat4(b0, b1, b2, rest);
        lemma_tag_round_trip(WORLD_TAG, r0);
        lemma_ident_round_trip(v.magic, r1);
        lemma_compressed_round_trip(p, rest);
        lemma_world_payload_round_trip(v);
    }
}

} // verus!
