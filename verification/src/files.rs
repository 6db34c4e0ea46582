//! The two kinds of file that an archive holds, each made of the structural
//! records.

use crate::codec::{lemma_concat3, lemma_split, Encodable, RoundTrip};
use crate::error::{ParseError, ParseErrorModel};
use crate::sections::campaign::{
    lemma_campaign_round_trip, spec_world_file, Campaign, CampaignModel,
};
use crate::sections::saveh::{Saveh, SavehModel};
use crate::sections::world::{World, WorldModel};
use crate::stream::{lemma_advanced_rest, Stream};
use crate::text::FOTStringModel;
use vstd::prelude::*;

verus! {

broadcast use lemma_advanced_rest;

/// A campaign file: one campaign record.
#[derive(Debug, PartialEq, Eq)]
pub struct Cam {
    pub campaign: Campaign,
}

/// Mathematical counterpart of [`Cam`].
pub struct CamModel {
    pub campaign: CampaignModel,
}

impl DeepView for Cam {
    type V = CamModel;

    open spec fn deep_view(&self) -> CamModel {
        CamModel { campaign: self.campaign.deep_view() }
    }
}

impl Encodable for Cam {
    open spec fn spec_parse(s: Seq<u8>) -> Result<(CamModel, int), ParseErrorModel> {
        match Campaign::spec_parse(s) {
            Err(e) => Err(e),
            Ok((campaign, n)) => Ok((CamModel { campaign }, n)),
        }
    }

    open spec fn spec_bytes(v: CamModel) -> Seq<u8> {
        Campaign::spec_bytes(v.campaign)
    }

    fn parse(data: &mut Stream) -> (r: Result<Self, ParseError>) {
        let campaign = Campaign::parse(data)?;
        Ok(Cam { campaign })
    }

    fn write(&self, out: &mut Vec<u8>) {
        self.campaign.write(out);
    }
}

/// A save file: a save header followed by a world.
#[derive(Debug, PartialEq, Eq)]
pub struct Sav {
    pub saveh: Saveh,
    pub world: World,
}

/// Mathematical counterpart of [`Sav`].
pub struct SavModel {
    pub saveh: SavehModel,
    pub world: WorldModel,
}

impl DeepView for Sav {
    type V = SavModel;

    open spec fn deep_view(&self) -> SavModel {
        SavModel { saveh: self.saveh.deep_view(), world: self.world.deep_view() }
    }
}

impl Encodable for Sav {
    open spec fn spec_parse(s: Seq<u8>) -> Result<(SavModel, int), ParseErrorModel> {
        match Saveh::spec_parse(s) {
            Err(e) => Err(e),
            Ok((saveh, n0)) => match World::spec_parse(s.skip(n0)) {
                Err(e) => Err(e),
                Ok((world, n1)) => Ok((SavModel { saveh, world }, n0 + n1)),
            },
        }
    }

    open spec fn spec_bytes(v: SavModel) -> Seq<u8> {
        Saveh::spec_bytes(v.saveh) + World::spec_bytes(v.world)
    }

    fn parse(data: &mut Stream) -> (r: Result<Self, ParseError>) {
        let mut cur = *data;
        let saveh = Saveh::read(&mut cur)?;
        let world = World::read(&mut cur)?;
        *data = cur;
        Ok(Sav { saveh, world })
    }

    fn write(&self, out: &mut Vec<u8>) {
        self.saveh.write(out);
        self.world.write(out);
    }
}

/// A campaign file whose record is consistent decodes, from its wire form and
/// nothing after it, to itself.
pub proof fn lemma_cam_round_trip(v: CamModel)
    requires
        spec_world_file(v.campaign.raw) == Ok::<FOTStringModel, ParseErrorModel>(
            v.campaign.world_file,
        ),
    ensures
        Cam::spec_parse(Cam::spec_bytes(v)) == Ok::<(CamModel, int), ParseErrorModel>(
            (v, Cam::spec_bytes(v).len() as int),
        ),
{
    lemma_campaign_round_trip(v.campaign);
}

impl RoundTrip for Sav {
    open spec fn valid(v: SavModel) -> bool {
        Saveh::valid(v.saveh) && World::valid(v.world)
    }

    proof fn lemma_round_trip(v: SavModel, rest: Seq<u8>) {
        let b0 = Saveh::spec_bytes(v.saveh);
        let b1 = World::spec_bytes(v.world);
        let r0 = b1 + rest;
        lemma_concat3(b0, b1, rest);
        Saveh::lemma_round_trip(v.saveh, r0);
        lemma_split(b0, r0);
        World::lemma_round_trip(v.world, rest);
    }
}

} // verus!
