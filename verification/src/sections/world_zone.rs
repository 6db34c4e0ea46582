//! The zone record: an identifier and the opaque rest of the section.

use crate::codec::Encodable;
use crate::error::{ParseError, ParseErrorModel};
use crate::section::{
    lemma_ident_round_trip, lemma_tag_round_trip, open_section, put_blob, put_ident, put_tag,
    read_ident, read_tail, spec_ident, spec_ident_bytes, spec_tag, spec_tail, tag_bytes,
    valid_ident,
};
use crate::stream::{decoded, lemma_advanced_rest, Stream};
use vstd::prelude::*;

verus! {

broadcast use lemma_advanced_rest;

/// Tag that opens a zone record.
pub const WORLD_ZONE_TAG: &'static str = "<world_zone>\0";

/// A zone record.
#[derive(Debug, PartialEq, Eq)]
pub struct WorldZone {
    /// Identifier that follows the tag, without its terminator.
    pub magic: Vec<u8>,
    /// Everything after the identifier, kept as found.
    pub data: Vec<u8>,
}

/// Mathematical counterpart of [`WorldZone`].
pub struct WorldZoneModel {
    pub magic: Seq<u8>,
    pub data: Seq<u8>,
}

impl DeepView for WorldZone {
    type V = WorldZoneModel;

    open spec fn deep_view(&self) -> WorldZoneModel {
        WorldZoneModel { magic: self.magic.deep_view(), data: self.data.deep_view() }
    }
}

impl WorldZone {
    /// Decodes a zone record that takes up the rest of the cursor.
    pub fn read(data: &mut Stream) -> (r: Result<WorldZone, ParseError>)
        ensures
            decoded(*old(data), *final(data), r, Self::spec_parse(old(data).rest())),
    {
        let mut cur = *data;
        open_section(&mut cur, WORLD_ZONE_TAG)?;
        let magic = read_ident(&mut cur)?;
        let tail = read_tail(&mut cur)?;
        *data = cur;
        Ok(WorldZone { magic, data: tail })
    }
}

impl Encodable for WorldZone {
    open spec fn spec_parse(s: Seq<u8>) -> Result<(WorldZoneModel, int), ParseErrorModel> {
        match spec_tag(s, WORLD_ZONE_TAG) {
            Some(e) => Err(e),
            None => {
                let n0 = tag_bytes(WORLD_ZONE_TAG).len() as int;
                let s1 = s.skip(n0);
                match spec_ident(s1) {
                    Err(e) => Err(e),
                    Ok((magic, n1)) => {
                        let s2 = s1.skip(n1);
                        match spec_tail(s2) {
                            Err(e) => Err(e),
                            Ok((data, n2)) => Ok((WorldZoneModel { magic, data }, n0 + n1 + n2)),
                        }
                    },
                }
            },
        }
    }

    open spec fn spec_bytes(v: WorldZoneModel) -> Seq<u8> {
        tag_bytes(WORLD_ZONE_TAG) + spec_ident_bytes(v.magic) + v.data
    }

    fn parse(data: &mut Stream) -> (r: Result<Self, ParseError>) {
        WorldZone::read(data)
    }

    fn write(&self, out: &mut Vec<u8>) {
        put_tag(out, WORLD_ZONE_TAG);
        put_ident(out, &self.magic);
        put_blob(out, &self.data);
    }
}

/// A zone record whose identifier holds no zero byte decodes, from its wire
/// form and nothing after it, to itself.
pub proof fn lemma_world_zone_round_trip(v: WorldZoneModel)
    requires
        valid_ident(v.magic),
    ensures
        WorldZone::spec_parse(WorldZone::spec_bytes(v)) == Ok::<
            (WorldZoneModel, int),
            ParseErrorModel,
        >((v, WorldZone::spec_bytes(v).len() as int)),
{
    let b0 = tag_bytes(WORLD_ZONE_TAG);
    let b1 = spec_ident_bytes(v.magic);
    let r1 = v.data;
    let r0 = b1 + r1;
    crate::codec::lemma_concat3(b0, b1, r1);
    lemma_tag_round_trip(WORLD_ZONE_TAG, r0);
    lemma_ident_round_trip(v.magic, r1);
}

} // verus!
