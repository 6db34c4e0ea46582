//! The archive: an identifier and a counted list of named files, each of
//! which is told apart by the tag it opens with.

use crate::codec::{count_field, lemma_concat4, lemma_split, Encodable, RoundTrip};
use crate::error::{ParseError, ParseErrorModel};
use crate::primitive::{lemma_u32_round_trip, put_u32, spec_u32, u32_bytes};
use crate::section::{
    lemma_blob_round_trip, lemma_bytes_deep_view, lemma_ident_round_trip, lemma_tag_round_trip,
    open_section, peek_tag, put_blob, put_ident, put_tag, read_ident, read_tail, spec_blob,
    spec_ident, spec_ident_bytes, spec_tag, starts_with_tag, tag_bytes, valid_ident,
};
use crate::sections::campaign::{Campaign, CampaignModel, CAMPAIGN_TAG};
use crate::sections::saveh::{Saveh, SavehModel, SAVEH_TAG};
use crate::sections::world::{World, WorldModel};
use crate::stream::{decoded, lemma_advanced_rest, Stream};
use crate::text::{spec_string, spec_string_bytes, FOTString, FOTStringModel};
use vstd::prelude::*;
use vstd::slice::slice_to_vec;

verus! {

broadcast use {lemma_advanced_rest, lemma_bytes_deep_view};

/// Tag that opens an archive.
pub const CAMPAIGN_SAVE_TAG: &'static str = "<campaign_save>\0";

/// A file of the archive that holds a save header and a world.
#[derive(Debug, PartialEq, Eq)]
pub struct CampaignWorld {
    /// The name of the file in the archive.
    pub file_name: FOTString,
    pub saveh: Saveh,
    pub world: World,
    /// What the file holds after the world, kept as found.
    pub tail: Vec<u8>,
}

/// Mathematical counterpart of [`CampaignWorld`].
pub struct CampaignWorldModel {
    pub file_name: FOTStringModel,
    pub saveh: SavehModel,
    pub world: WorldModel,
    pub tail: Seq<u8>,
}

impl DeepView for CampaignWorld {
    type V = CampaignWorldModel;

    open spec fn deep_view(&self) -> CampaignWorldModel {
        CampaignWorldModel {
            file_name: self.file_name.deep_view(),
            saveh: self.saveh.deep_view(),
            world: self.world.deep_view(),
            tail: self.tail.deep_view(),
        }
    }
}

/// What a file of the archive was recognised as.
#[derive(Debug, PartialEq, Eq)]
pub enum CampaignContent {
    /// A save header followed by a world.
    World(CampaignWorld),
    /// A campaign record.
    Campaign(Campaign),
    /// Neither: the file is known by its bytes alone.
    Other,
}

/// Mathematical counterpart of [`CampaignContent`].
pub enum CampaignContentModel {
    World(CampaignWorldModel),
    Campaign(CampaignModel),
    Other,
}

impl DeepView for CampaignContent {
    type V = CampaignContentModel;

    open spec fn deep_view(&self) -> CampaignContentModel {
        match self {
            CampaignContent::World(w) => CampaignContentModel::World(w.deep_view()),
            CampaignContent::Campaign(c) => CampaignContentModel::Campaign(c.deep_view()),
            CampaignContent::Other => CampaignContentModel::Other,
        }
    }
}

/// Parser of a file that holds a save header and a world, which it takes
/// whole.
pub open spec fn spec_campaign_world(file_name: FOTStringModel, span: Seq<u8>) -> Result<
    CampaignWorldModel,
    ParseErrorModel,
> {
    match Saveh::spec_parse(span) {
        Err(e) => Err(e),
        Ok((saveh, n0)) => {
            let s1 = span.skip(n0);
            match World::spec_parse(s1) {
                Err(e) => Err(e),
                Ok((world, n1)) => Ok(
                    CampaignWorldModel { file_name, saveh, world, tail: s1.skip(n1) },
                ),
            }
        },
    }
}

/// What the bytes `span` of the file `path` are recognised as: by the tag
/// they open with, and then by the parser that goes with that tag, whose
/// failure is the failure of the whole.
#[verifier::opaque]
pub open spec fn spec_content(path: FOTStringModel, span: Seq<u8>) -> Result<
    CampaignContentModel,
    ParseErrorModel,
> {
    if starts_with_tag(span, SAVEH_TAG) {
        match spec_campaign_world(path, span) {
            Err(e) => Err(e),
            Ok(w) => Ok(CampaignContentModel::World(w)),
        }
    } else if starts_with_tag(span, CAMPAIGN_TAG) {
        match Campaign::spec_parse(span) {
            Err(e) => Err(e),
            Ok((c, _)) => Ok(CampaignContentModel::Campaign(c)),
        }
    } else {
        Ok(CampaignContentModel::Other)
    }
}

impl CampaignContent {
    /// Recognises the bytes `span` of the file `path`.
    pub fn dispatch(path: &FOTString, span: &[u8]) -> (r: Result<CampaignContent, ParseError>)
        ensures
            match spec_content(path.deep_view(), span@) {
                Ok(c) => r matches Ok(x) && x.deep_view() == c,
                Err(e) => r matches Err(x) && x.deep_view() == e,
            },
    {
        reveal(spec_content);
        let mut inner = Stream::new(span);
        if peek_tag(&inner, SAVEH_TAG) {
            let saveh = Saveh::read(&mut inner)?;
            let world = World::read(&mut inner)?;
            let tail = read_tail(&mut inner)?;
            Ok(
                CampaignContent::World(
                    CampaignWorld { file_name: path.duplicate(), saveh, world, tail },
                ),
            )
        } else if peek_tag(&inner, CAMPAIGN_TAG) {
            let campaign = Campaign::parse(&mut inner)?;
            Ok(CampaignContent::Campaign(campaign))
        } else {
            Ok(CampaignContent::Other)
        }
    }
}

/// One named file of the archive: its name, its bytes exactly as long as
/// declared, and what they were recognised as.
#[derive(Debug, PartialEq, Eq)]
pub struct CampaignFile {
    pub path: FOTString,
    pub data: Vec<u8>,
    pub content: CampaignContent,
}

/// Mathematical counterpart of [`CampaignFile`].
pub struct CampaignFileModel {
    pub path: FOTStringModel,
    pub data: Seq<u8>,
    pub content: CampaignContentModel,
}

impl DeepView for CampaignFile {
    type V = CampaignFileModel;

    open spec fn deep_view(&self) -> CampaignFileModel {
        CampaignFileModel {
            path: self.path.deep_view(),
            data: self.data.deep_view(),
            content: self.content.deep_view(),
        }
    }
}

impl Encodable for CampaignFile {
    open spec fn spec_parse(s: Seq<u8>) -> Result<(CampaignFileModel, int), ParseErrorModel> {
        match spec_string(s) {
            Err(e) => Err(e),
            Ok((path, n0)) => {
                let s1 = s.skip(n0);
                match spec_u32(s1) {
                    Err(e) => Err(e),
                    Ok((len, n1)) => {
                        let s2 = s1.skip(n1);
                        match spec_blob(s2, len as nat) {
                            Err(e) => Err(e),
                            Ok((data, n2)) => match spec_content(path, data) {
                                Err(e) => Err(e),
                                Ok(content) => Ok(
                                    (CampaignFileModel { path, data, content }, n0 + n1 + n2),
                                ),
                            },
                        }
                    },
                }
            },
        }
    }

    open spec fn spec_bytes(v: CampaignFileModel) -> Seq<u8> {
        spec_string_bytes(v.path) + u32_bytes(count_field(v.data.len())) + v.data
    }

    /// Decodes one file of the archive. However many of its bytes the parser
    /// of its content takes, the cursor moves past exactly as many as the
    /// file declares.
    fn parse(data: &mut Stream) -> (r: Result<Self, ParseError>) {
        let mut cur = *data;
        let path = cur.read_string()?;
        let len = cur.read_u32()?;
        let span = cur.read_slice(len as usize)?;
        let content = CampaignContent::dispatch(&path, span)?;
        *data = cur;
        Ok(CampaignFile { path, data: slice_to_vec(span), content })
    }

    fn write(&self, out: &mut Vec<u8>) {
        self.path.write(out);
        let n = self.data.len();
        let declared: u32 = if n <= 0xffff_ffff {
            n as u32
        } else {
            0xffff_ffff
        };
        put_u32(out, declared);
        put_blob(out, &self.data);
    }
}

/// The files of `files` that hold a save header and a world, in order.
pub open spec fn spec_worlds(files: Seq<CampaignFileModel>) -> Seq<CampaignWorldModel>
    decreases files.len(),
{
    if files.len() == 0 {
        Seq::empty()
    } else {
        match files.last().content {
            CampaignContentModel::World(w) => spec_worlds(files.drop_last()).push(w),
            _ => spec_worlds(files.drop_last()),
        }
    }
}

/// Index of the last file of `files` that is a campaign record.
pub open spec fn last_campaign(files: Seq<CampaignFileModel>) -> Option<int>
    decreases files.len(),
{
    if files.len() == 0 {
        None
    } else if files.last().content is Campaign {
        Some(files.len() - 1)
    } else {
        last_campaign(files.drop_last())
    }
}

/// Index of the last file that is a campaign record.
pub fn find_campaign(files: &Vec<CampaignFile>) -> (r: Option<usize>)
    ensures
        match last_campaign(files.deep_view()) {
            Some(i) => r matches Some(k) && k as int == i && k < files@.len(),
            None => r is None,
        },
{
    let ghost all = files.deep_view();
    let mut i: usize = files.len();
    assert(all.take(i as int) =~= all);
    while i > 0
        invariant
            i <= files@.len(),
            all == files.deep_view(),
            all.len() == files@.len(),
            last_campaign(all) == last_campaign(all.take(i as int)),
        decreases i,
    {
        let ghost part = all.take(i as int);
        assert(part.last() == files@[i - 1].deep_view());
        assert(part.drop_last() =~= all.take(i - 1));
        match &files[i - 1].content {
            CampaignContent::Campaign(_) => {
                return Some(i - 1);
            },
            _ => {},
        }
        i = i - 1;
    }
    None
}

/// An archive.
///
/// `campaign` is the index in `files` of the campaign record that the archive
/// is about: the last one, where it holds several.
#[derive(Debug, PartialEq, Eq)]
pub struct CampaignSave {
    /// Identifier that follows the tag, without its terminator.
    pub magic: Vec<u8>,
    pub files: Vec<CampaignFile>,
    pub campaign: usize,
}

/// Mathematical counterpart of [`CampaignSave`].
pub struct CampaignSaveModel {
    pub magic: Seq<u8>,
    pub files: Seq<CampaignFileModel>,
    pub campaign: int,
}

impl DeepView for CampaignSave {
    type V = CampaignSaveModel;

    open spec fn deep_view(&self) -> CampaignSaveModel {
        CampaignSaveModel {
            magic: self.magic.deep_view(),
            files: self.files.deep_view(),
            campaign: self.campaign as int,
        }
    }
}

impl CampaignSaveModel {
    /// The campaign record that the archive is about, where `campaign` points
    /// at one.
    pub open spec fn save(self) -> Option<CampaignModel> {
        if 0 <= self.campaign < self.files.len() {
            match self.files[self.campaign].content {
                CampaignContentModel::Campaign(c) => Some(c),
                _ => None,
            }
        } else {
            None
        }
    }
}

impl CampaignSave {
    /// Decodes an archive at the cursor.
    pub fn read(data: &mut Stream) -> (r: Result<CampaignSave, ParseError>)
        ensures
            decoded(*old(data), *final(data), r, Self::spec_parse(old(data).rest())),
    {
        let mut cur = *data;
        open_section(&mut cur, CAMPAIGN_SAVE_TAG)?;
        let magic = read_ident(&mut cur)?;
        let files = Vec::<CampaignFile>::parse(&mut cur)?;
        match find_campaign(&files) {
            Some(campaign) => {
                *data = cur;
                Ok(CampaignSave { magic, files, campaign })
            },
            None => Err(ParseError::MissingCampaign),
        }
    }

    /// The files that hold a save header and a world, in the order of the
    /// archive.
    pub fn worlds(&self) -> (r: Vec<&CampaignWorld>)
        ensures
            r.deep_view() == spec_worlds(self.deep_view().files),
    {
        let ghost all = self.files.deep_view();
        let mut r: Vec<&CampaignWorld> = Vec::new();
        let n = self.files.len();
        let mut i: usize = 0;
        assert(r.deep_view() =~= spec_worlds(all.take(0)));
        while i < n
            invariant
                i <= n,
                n == self.files@.len(),
                all == self.files.deep_view(),
                all.len() == n,
                r.deep_view() == spec_worlds(all.take(i as int)),
            decreases n - i,
        {
            let ghost before = r.deep_view();
            let ghost part = all.take(i + 1);
            assert(part.last() == self.files@[i as int].deep_view());
            assert(part.drop_last() =~= all.take(i as int));
            match &self.files[i].content {
                CampaignContent::World(w) => {
                    r.push(w);
                    assert(r.deep_view() =~= before.push(w.deep_view()));
                },
                _ => {},
            }
            i = i + 1;
        }
        assert(all.take(n as int) =~= all);
        r
    }

    /// The campaign record that the archive is about.
    pub fn save(&self) -> (r: Option<&Campaign>)
        ensures
            match self.deep_view().save() {
                Some(c) => r matches Some(x) && x.deep_view() == c,
                None => r is None,
            },
    {
        if self.campaign < self.files.len() {
            match &self.files[self.campaign].content {
                CampaignContent::Campaign(c) => Some(c),
                _ => None,
            }
        } else {
            None
        }
    }
}

impl Encodable for CampaignSave {
    open spec fn spec_parse(s: Seq<u8>) -> Result<(CampaignSaveModel, int), ParseErrorModel> {
        match spec_tag(s, CAMPAIGN_SAVE_TAG) {
            Some(e) => Err(e),
            None => {
                let n0 = tag_bytes(CAMPAIGN_SAVE_TAG).len() as int;
                let s1 = s.skip(n0);
                match spec_ident(s1) {
                    Err(e) => Err(e),
                    Ok((magic, n1)) => {
                        let s2 = s1.skip(n1);
                        match Vec::<CampaignFile>::spec_parse(s2) {
                            Err(e) => Err(e),
                            Ok((files, n2)) => match last_campaign(files) {
                                None => Err(ParseErrorModel::MissingCampaign),
                                Some(campaign) => Ok(
                                    (CampaignSaveModel { magic, files, campaign }, n0 + n1 + n2),
                                ),
                            },
                        }
                    },
                }
            },
        }
    }

    open spec fn spec_bytes(v: CampaignSaveModel) -> Seq<u8> {
        tag_bytes(CAMPAIGN_SAVE_TAG) + spec_ident_bytes(v.magic) + Vec::<CampaignFile>::spec_bytes(
            v.files,
        )
    }

    fn parse(data: &mut Stream) -> (r: Result<Self, ParseError>) {
        CampaignSave::read(data)
    }

    fn write(&self, out: &mut Vec<u8>) {
        put_tag(out, CAMPAIGN_SAVE_TAG);
        put_ident(out, &self.magic);
        self.files.write(out);
    }
}

/// Decoding a file of the archive moves on by the length of its name, the
/// four bytes of the length field and exactly the declared length, whatever
/// the parser of its content took of the bytes; and the bytes kept are as
/// many as declared.
pub proof fn lemma_entry_alignment(s: Seq<u8>)
    ensures
        CampaignFile::spec_parse(s) matches Ok((file, n)) ==> spec_string(s) matches Ok((_, n0))
            && spec_u32(s.skip(n0)) matches Ok((declared, _)) && n == n0 + 4 + declared
            && file.data.len() == declared,
{
}

impl RoundTrip for CampaignFile {
    /// The name is valid, the bytes fit the length field, and the content is
    /// what the bytes are recognised as.
    open spec fn valid(v: CampaignFileModel) -> bool {
        &&& FOTString::valid(v.path)
        &&& v.data.len() <= u32::MAX
        &&& spec_content(v.path, v.data) == Ok::<CampaignContentModel, ParseErrorModel>(v.content)
    }

    proof fn lemma_round_trip(v: CampaignFileModel, rest: Seq<u8>) {
        let b0 = spec_string_bytes(v.path);
        let b1 = u32_bytes(count_field(v.data.len()));
        let b2 = v.data;
        let r1 = b2 + rest;
        let r0 = b1 + r1;
        lemma_concat4(b0, b1, b2, rest);
        FOTString::lemma_round_trip(v.path, r0);
        lemma_split(b0, r0);
        lemma_u32_round_trip(count_field(v.data.len()), r1);
        lemma_blob_round_trip(b2, rest);
    }
}

impl RoundTrip for CampaignSave {
    /// The files are valid, and `campaign` is the index of the last campaign
    /// record among them.
    open spec fn valid(v: CampaignSaveModel) -> bool {
        &&& valid_ident(v.magic)
        &&& Vec::<CampaignFile>::valid(v.files)
        &&& last_campaign(v.files) == Some(v.campaign)
    }

    proof fn lemma_round_trip(v: CampaignSaveModel, rest: Seq<u8>) {
        let b0 = tag_bytes(CAMPAIGN_SAVE_TAG);
        let b1 = spec_ident_bytes(v.magic);
        let b2 = Vec::<CampaignFile>::spec_bytes(v.files);
        let r1 = b2 + rest;
        let r0 = b1 + r1;
        lemma_concat4(b0, b1, b2, rest);
        lemma_tag_round_trip(CAMPAIGN_SAVE_TAG, r0);
        lemma_ident_round_trip(v.magic, r1);
        Vec::<CampaignFile>::lemma_round_trip(v.files, rest);
    }
}

} // verus!
