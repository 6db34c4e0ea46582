//! The campaign record: an opaque header of fixed size, the name of the world
//! file, and an opaque rest.

use crate::codec::Encodable;
use crate::error::{ParseError, ParseErrorModel};
use crate::section::{
    lemma_tag_round_trip, open_section, put_blob, put_tag, read_tail, spec_tag, tag_bytes,
};
use crate::stream::{lemma_advanced_rest, Stream};
use crate::text::{spec_string, FOTString, FOTStringModel};
use vstd::prelude::*;

verus! {

broadcast use lemma_advanced_rest;

/// Tag that opens a campaign record.
pub const CAMPAIGN_TAG: &'static str = "<campaign>\0";

/// Size of the opaque header that stands between the tag and the name of the
/// world file.
pub const CAMPAIGN_HEADER_LEN: usize = 0x22BA;

/// A campaign record.
#[derive(Debug, PartialEq, Eq)]
pub struct Campaign {
    /// Everything after the tag, kept as found: the opaque header, the name of
    /// the world file and what follows it.
    pub raw: Vec<u8>,
    /// The name of the world file, as read out of `raw`.
    pub world_file: FOTString,
}

/// Mathematical counterpart of [`Campaign`].
pub struct CampaignModel {
    pub raw: Seq<u8>,
    pub world_file: FOTStringModel,
}

impl DeepView for Campaign {
    type V = CampaignModel;

    open spec fn deep_view(&self) -> CampaignModel {
        CampaignModel { raw: self.raw.deep_view(), world_file: self.world_file.deep_view() }
    }
}

/// The name of the world file that the bytes after a campaign tag hold.
pub open spec fn spec_world_file(raw: Seq<u8>) -> Result<FOTStringModel, ParseErrorModel> {
    if raw.len() < CAMPAIGN_HEADER_LEN {
        Err(ParseErrorModel::Io)
    } else {
        match spec_string(raw.skip(CAMPAIGN_HEADER_LEN as int)) {
            Err(e) => Err(e),
            Ok((name, _)) => Ok(name),
        }
    }
}

impl Encodable for Campaign {
    open spec fn spec_parse(s: Seq<u8>) -> Result<(CampaignModel, int), ParseErrorModel> {
        match spec_tag(s, CAMPAIGN_TAG) {
            Some(e) => Err(e),
            None => {
                let raw = s.skip(tag_bytes(CAMPAIGN_TAG).len() as int);
                match spec_world_file(raw) {
                    Err(e) => Err(e),
                    Ok(world_file) => Ok((CampaignModel { raw, world_file }, s.len() as int)),
                }
            },
        }
    }

    open spec fn spec_bytes(v: CampaignModel) -> Seq<u8> {
        tag_bytes(CAMPAIGN_TAG) + v.raw
    }

    /// Decodes a campaign record that takes up the rest of the cursor.
    fn parse(data: &mut Stream) -> (r: Result<Self, ParseError>) {
        let mut cur = *data;
        open_section(&mut cur, CAMPAIGN_TAG)?;
        let mut look = cur;
        look.skip(CAMPAIGN_HEADER_LEN)?;
        let world_file = look.read_string()?;
        let raw = read_tail(&mut cur)?;
        *data = cur;
        Ok(Campaign { raw, world_file })
    }

    fn write(&self, out: &mut Vec<u8>) {
        put_tag(out, CAMPAIGN_TAG);
        put_blob(out, &self.raw);
    }
}

/// A campaign record whose name of the world file is the one that its bytes
/// hold decodes, from its wire form and nothing after it, to itself.
pub proof fn lemma_campaign_round_trip(v: CampaignModel)
    requires
        spec_world_file(v.raw) == Ok::<FOTStringModel, ParseErrorModel>(v.world_file),
    ensures
        Campaign::spec_parse(Campaign::spec_bytes(v)) == Ok::<(CampaignModel, int), ParseErrorModel>(
            (v, Campaign::spec_bytes(v).len() as int),
        ),
{
    lemma_tag_round_trip(CAMPAIGN_TAG, v.raw);
}

} // verus!
