//! The entity collection: an opaque header, an entity file, and a run of
//! entries of which each may carry a table of tagged values.

use crate::codec::{
    all_valid, lemma_concat4, lemma_concat7, lemma_round_trip_n, lemma_split,
    parse_array, spec_bytes_all, spec_parse_n, write_array, Encodable, RoundTrip,
};
use crate::error::{ParseError, ParseErrorModel};
use crate::primitive::{
    as_unsigned16, as_unsigned32, lemma_i16_round_trip, lemma_i32_round_trip,
    lemma_u32_round_trip, put_i16, put_i32, put_u32, spec_i16, spec_i32, spec_u32, u16_bytes,
    u32_bytes,
};
use crate::section::{
    lemma_blob_round_trip, lemma_tag_round_trip, open_section, put_blob, put_tag, read_blob,
    spec_blob, spec_tag, tag_bytes,
};
use crate::sections::entity_file::{EntityFile, EntityFileModel};
use crate::sections::esh::{Esh, EshModel};
use crate::stream::{decoded, lemma_advanced_rest, Stream};
use vstd::prelude::*;

verus! {

broadcast use lemma_advanced_rest;

/// Tag that opens an entity collection.
pub const SSG_TAG: &'static str = "<SSG>\0";

/// Size of the opaque header of an entity collection.
pub const SSG_HEADER_LEN: usize = 0x16;

/// Flag of an entry that carries no table.
pub const NO_TABLE: i16 = -1;

/// One entry of an entity collection.
#[derive(Debug, PartialEq, Eq)]
pub struct SSGEntry {
    pub id: i32,
    pub flag: i16,
    /// The table of the entry; present where `flag` is not [`NO_TABLE`].
    pub data: Option<Esh>,
}

/// Mathematical counterpart of [`SSGEntry`].
pub struct SSGEntryModel {
    pub id: i32,
    pub flag: i16,
    pub data: Option<EshModel>,
}

impl DeepView for SSGEntry {
    type V = SSGEntryModel;

    open spec fn deep_view(&self) -> SSGEntryModel {
        SSGEntryModel { id: self.id, flag: self.flag, data: self.data.deep_view() }
    }
}

impl Encodable for SSGEntry {
    open spec fn spec_parse(s: Seq<u8>) -> Result<(SSGEntryModel, int), ParseErrorModel> {
        match spec_i32(s) {
            Err(e) => Err(e),
            Ok((id, n0)) => {
                let s1 = s.skip(n0);
                match spec_i16(s1) {
                    Err(e) => Err(e),
                    Ok((flag, n1)) => if flag == NO_TABLE {
                        Ok((SSGEntryModel { id, flag, data: None }, n0 + n1))
                    } else {
                        match Esh::spec_parse(s1.skip(n1)) {
                            Err(e) => Err(e),
                            Ok((table, n2)) => Ok(
                                (SSGEntryModel { id, flag, data: Some(table) }, n0 + n1 + n2),
                            ),
                        }
                    },
                }
            },
        }
    }

    open spec fn spec_bytes(v: SSGEntryModel) -> Seq<u8> {
        u32_bytes(as_unsigned32(v.id)) + u16_bytes(as_unsigned16(v.flag)) + (if v.flag
            != NO_TABLE {
            match v.data {
                Some(table) => Esh::spec_bytes(table),
                None => Seq::empty(),
            }
        } else {
            Seq::empty()
        })
    }

    fn parse(data: &mut Stream) -> (r: Result<Self, ParseError>) {
        let mut cur = *data;
        let id = cur.read_i32()?;
        let flag = cur.read_i16()?;
        if flag == NO_TABLE {
            *data = cur;
            Ok(SSGEntry { id, flag, data: None })
        } else {
            let table = Esh::read(&mut cur)?;
            *data = cur;
            Ok(SSGEntry { id, flag, data: Some(table) })
        }
    }

    fn write(&self, out: &mut Vec<u8>) {
        put_i32(out, self.id);
        put_i16(out, self.flag);
        if self.flag != NO_TABLE {
            if let Some(table) = &self.data {
                table.write(out);
            }
        }
        assert(out@ =~= old(out)@ + Self::spec_bytes(self.deep_view()));
    }
}

/// The number of entries that follow a count field of `count`: one less than
/// the count, and none where the count is below one.
pub open spec fn entries_after(count: i16) -> nat {
    if count >= 1 {
        (count - 1) as nat
    } else {
        0
    }
}

/// The count field that goes with `len` entries: one more than `len`, or the
/// largest 16-bit count where that is beyond it.
pub open spec fn entry_count_field(len: nat) -> i16 {
    if len + 1 <= i16::MAX {
        (len + 1) as i16
    } else {
        i16::MAX
    }
}

/// An entity collection.
#[derive(Debug, PartialEq, Eq)]
pub struct SSG {
    /// The opaque header, kept as found.
    pub unknown: Vec<u8>,
    pub entity_file: EntityFile,
    /// An opaque field between the count and the entries.
    pub unknown1: u32,
    pub values: Vec<SSGEntry>,
}

/// Mathematical counterpart of [`SSG`].
pub struct SSGModel {
    pub unknown: Seq<u8>,
    pub entity_file: EntityFileModel,
    pub unknown1: u32,
    pub values: Seq<SSGEntryModel>,
}

impl DeepView for SSG {
    type V = SSGModel;

    open spec fn deep_view(&self) -> SSGModel {
        SSGModel {
            unknown: self.unknown.deep_view(),
            entity_file: self.entity_file.deep_view(),
            unknown1: self.unknown1,
            values: self.values.deep_view(),
        }
    }
}

impl SSG {
    /// Decodes an entity collection at the cursor.
    pub fn read(data: &mut Stream) -> (r: Result<SSG, ParseError>)
        ensures
            decoded(*old(data), *final(data), r, Self::spec_parse(old(data).rest())),
    {
        let mut cur = *data;
        open_section(&mut cur, SSG_TAG)?;
        let unknown = read_blob(&mut cur, SSG_HEADER_LEN)?;
        let entity_file = EntityFile::read(&mut cur)?;
        let count = cur.read_i16()?;
        let unknown1 = cur.read_u32()?;
        let n: usize = if count >= 1 {
            (count - 1) as usize
        } else {
            0
        };
        let values = parse_array::<SSGEntry>(&mut cur, n)?;
        *data = cur;
        Ok(SSG { unknown, entity_file, unknown1, values })
    }
}

impl Encodable for SSG {
    open spec fn spec_parse(s: Seq<u8>) -> Result<(SSGModel, int), ParseErrorModel> {
        match spec_tag(s, SSG_TAG) {
            Some(e) => Err(e),
            None => {
                let n0 = tag_bytes(SSG_TAG).len() as int;
                let s1 = s.skip(n0);
                match spec_blob(s1, SSG_HEADER_LEN as nat) {
                    Err(e) => Err(e),
                    Ok((unknown, n1)) => {
                        let s2 = s1.skip(n1);
                        match EntityFile::spec_parse(s2) {
                            Err(e) => Err(e),
                            Ok((entity_file, n2)) => {
                                let s3 = s2.skip(n2);
                                match spec_i16(s3) {
                                    Err(e) => Err(e),
                                    Ok((count, n3)) => {
                                        let s4 = s3.skip(n3);
                                        match spec_u32(s4) {
                                            Err(e) => Err(e),
                                            Ok((unknown1, n4)) => {
                                                let s5 = s4.skip(n4);
                                                match spec_parse_n::<SSGEntry>(
                                                    s5,
                                                    entries_after(count),
                                                ) {
                                                    Err(e) => Err(e),
                                                    Ok((values, n5)) => Ok(
                                                        (
                                                            SSGModel {
                                                                unknown,
                                                                entity_file,
                                                                unknown1,
                                                                values,
                                                            },
                                                            n0 + n1 + n2 + n3 + n4 + n5,
                                                        ),
                                                    ),
                                                }
                                            },
                                        }
                                    },
                                }
                            },
                        }
                    },
                }
            },
        }
    }

    open spec fn spec_bytes(v: SSGModel) -> Seq<u8> {
        tag_bytes(SSG_TAG) + v.unknown + EntityFile::spec_bytes(v.entity_file) + u16_bytes(
            as_unsigned16(entry_count_field(v.values.len())),
        ) + u32_bytes(v.unknown1) + spec_bytes_all::<SSGEntry>(v.values)
    }

    fn parse(data: &mut Stream) -> (r: Result<Self, ParseError>) {
        SSG::read(data)
    }

    fn write(&self, out: &mut Vec<u8>) {
        put_tag(out, SSG_TAG);
        put_blob(out, &self.unknown);
        self.entity_file.write(out);
        let n = self.values.len();
        let count: i16 = if n < 0x7fff {
            (n + 1) as i16
        } else {
            0x7fff
        };
        put_i16(out, count);
        put_u32(out, self.unknown1);
        write_array::<SSGEntry>(&self.values, out);
    }
}

impl RoundTrip for SSGEntry {
    /// The entry carries a table exactly where its flag says so, and the
    /// table is valid.
    open spec fn valid(v: SSGEntryModel) -> bool {
        &&& (v.flag == NO_TABLE) == (v.data is None)
        &&& (v.data matches Some(table) ==> Esh::valid(table))
    }

    proof fn lemma_round_trip(v: SSGEntryModel, rest: Seq<u8>) {
        let b0 = u32_bytes(as_unsigned32(v.id));
        let b1 = u16_bytes(as_unsigned16(v.flag));
        match v.data {
            None => {
                let b2 = Seq::<u8>::empty();
                lemma_concat4(b0, b1, b2, rest);
                assert(b2 + rest =~= rest);
                lemma_i32_round_trip(v.id, b1 + rest);
                lemma_i16_round_trip(v.flag, rest);
                assert((b0 + b1 + b2).len() == b0.len() + b1.len());
            },
            Some(table) => {
                let b2 = Esh::spec_bytes(table);
                let r1 = b2 + rest;
                lemma_concat4(b0, b1, b2, rest);
                lemma_i32_round_trip(v.id, b1 + r1);
                lemma_i16_round_trip(v.flag, r1);
                Esh::lemma_round_trip(table, rest);
            },
        }
    }
}

impl RoundTrip for SSG {
    open spec fn valid(v: SSGModel) -> bool {
        &&& v.unknown.len() == SSG_HEADER_LEN
        &&& EntityFile::valid(v.entity_file)
        &&& v.values.len() + 1 <= i16::MAX
        &&& all_valid::<SSGEntry>(v.values)
    }

    proof fn lemma_round_trip(v: SSGModel, rest: Seq<u8>) {
        let count = entry_count_field(v.values.len());
        let b0 = tag_bytes(SSG_TAG);
        let b1 = v.unknown;
        let b2 = EntityFile::spec_bytes(v.entity_file);
        let b3 = u16_bytes(as_unsigned16(count));
        let b4 = u32_bytes(v.unknown1);
        let b5 = spec_bytes_all::<SSGEntry>(v.values);
        let r4 = b5 + rest;
        let r3 = b4 + r4;
        let r2 = b3 + r3;
        let r1 = b2 + r2;
        let r0 = b1 + r1;
        lemma_concat7(b0, b1, b2, b3, b4, b5, rest);
        lemma_tag_round_trip(SSG_TAG, r0);
        lemma_blob_round_trip(b1, r1);
        EntityFile::lemma_round_trip(v.entity_file, r2);
        lemma_split(b2, r2);
        lemma_i16_round_trip(count, r3);
        lemma_u32_round_trip(v.unknown1, r4);
        lemma_round_trip_n::<SSGEntry>(v.values, rest);
    }
}

} // verus!
