//! The entity file: an identifier and a counted list of text fields.

use crate::codec::{lemma_concat3, Encodable, RoundTrip};
use crate::error::{ParseError, ParseErrorModel};
use crate::section::{
    lemma_ident_round_trip, lemma_tag_round_trip, open_section, put_ident, put_tag, read_ident,
    spec_ident, spec_ident_bytes, spec_tag, tag_bytes, valid_ident,
};
use crate::stream::{decoded, lemma_advanced_rest, Stream};
use crate::text::{FOTString, FOTStringModel};
use vstd::prelude::*;

verus! {

broadcast use lemma_advanced_rest;

/// Tag that opens an entity file.
pub const ENTITY_FILE_TAG: &'static str = "<entity_file>\0";

/// An entity file.
#[derive(Debug, PartialEq, Eq)]
pub struct EntityFile {
    /// Identifier that follows the tag, without its terminator.
    pub magic: Vec<u8>,
    /// The entries.
    pub data: Vec<FOTString>,
}

/// Mathematical counterpart of [`EntityFile`].
pub struct EntityFileModel {
    pub magic: Seq<u8>,
    pub data: Seq<FOTStringModel>,
}

impl DeepView for EntityFile {
    type V = EntityFileModel;

    open spec fn deep_view(&self) -> EntityFileModel {
        EntityFileModel { magic: self.magic.deep_view(), data: self.data.deep_view() }
    }
}

impl EntityFile {
    /// Decodes an entity file at the cursor.
    pub fn read(data: &mut Stream) -> (r: Result<EntityFile, ParseError>)
        ensures
            decoded(*old(data), *final(data), r, Self::spec_parse(old(data).rest())),
    {
        let mut cur = *data;
        open_section(&mut cur, ENTITY_FILE_TAG)?;
        let magic = read_ident(&mut cur)?;
        let entries = Vec::<FOTString>::parse(&mut cur)?;
        *data = cur;
        Ok(EntityFile { magic, data: entries })
    }
}

impl Encodable for EntityFile {
    open spec fn spec_parse(s: Seq<u8>) -> Result<(EntityFileModel, int), ParseErrorModel> {
        match spec_tag(s, ENTITY_FILE_TAG) {
            Some(e) => Err(e),
            None => {
                let n0 = tag_bytes(ENTITY_FILE_TAG).len() as int;
                let s1 = s.skip(n0);
                match spec_ident(s1) {
                    Err(e) => Err(e),
                    Ok((magic, n1)) => {
                        let s2 = s1.skip(n1);
                        match Vec::<FOTString>::spec_parse(s2) {
                            Err(e) => Err(e),
                            Ok((data, n2)) => Ok((EntityFileModel { magic, data }, n0 + n1 + n2)),
                        }
                    },
                }
            },
        }
    }

    open spec fn spec_bytes(v: EntityFileModel) -> Seq<u8> {
        tag_bytes(ENTITY_FILE_TAG) + spec_ident_bytes(v.magic) + Vec::<FOTString>::spec_bytes(
            v.data,
        )
    }

    fn parse(data: &mut Stream) -> (r: Result<Self, ParseError>) {
        EntityFile::read(data)
    }

    fn write(&self, out: &mut Vec<u8>) {
        put_tag(out, ENTITY_FILE_TAG);
        put_ident(out, &self.magic);
        self.data.write(out);
    }
}

impl RoundTrip for EntityFile {
    open spec fn valid(v: EntityFileModel) -> bool {
        valid_ident(v.magic) && Vec::<FOTString>::valid(v.data)
    }

    proof fn lemma_round_trip(v: EntityFileModel, rest: Seq<u8>) {
        let b0 = tag_bytes(ENTITY_FILE_TAG);
        let b1 = spec_ident_bytes(v.magic);
        let b2 = Vec::<FOTString>::spec_bytes(v.data);
        let r1 = b2 + rest;
        let r0 = b1 + r1;
        lemma_concat3(b0, b1, r1);
        lemma_concat3(b0 + b1, b2, rest);
        lemma_tag_round_trip(ENTITY_FILE_TAG, r0);
        lemma_ident_round_trip(v.magic, r1);
        Vec::<FOTString>::lemma_round_trip(v.data, rest);
    }
}

} // verus!
