//! Transcripts of meetings, in the user's own drive and in the folders of channels.
use crate::api::calendar;
use crate::api::channels;
use crate::api::channels::{ChannelDrive, ChannelDriveV, ChannelPlace, ChannelPlaceV};
use crate::api::client;
use crate::api::teams;
use crate::api::teams::{TeamInfo, TeamInfoV};
use crate::json;
use crate::json::{Json, JsonV};
use crate::order;
use crate::order::StampV;
use crate::text;
use crate::web;
use vstd::prelude::*;

verus! {

/// The name of the folders that hold them.
pub const TRANSCRIPTS_FOLDER: &'static str = "Recordings";

/// The most that one request asks for.
pub const TRANSCRIPTS_MAX_LIMIT: usize = 50;

/// The most drives of channels that are visited.
pub const MAX_CHANNEL_DRIVES: usize = 50;

/// A limit within what a request may ask for.
pub open spec fn clamped(limit: int) -> int {
    if limit < 1 {
        1
    } else if limit > TRANSCRIPTS_MAX_LIMIT {
        TRANSCRIPTS_MAX_LIMIT as int
    } else {
        limit
    }
}

/// A limit within what a request may ask for.
pub fn clamp_limit(limit: usize) -> (r: usize)
    ensures
        r == clamped(limit as int),
        1 <= r <= TRANSCRIPTS_MAX_LIMIT,
{
    if limit < 1 {
        1
    } else if limit > TRANSCRIPTS_MAX_LIMIT {
        TRANSCRIPTS_MAX_LIMIT
    } else {
        limit
    }
}

/// The path of the folder in the user's own drive.
pub open spec fn own_path(limit: int) -> Seq<char> {
    "/me/drive/root:/Recordings:/children?$top="@ + text::decimal(clamped(limit) as nat)
}

/// The path of the folder in the user's own drive.
pub fn transcripts_children_path(limit: usize) -> (r: String)
    ensures
        r@ == own_path(limit as int),
{
    text::join2(
        "/me/drive/root:/Recordings:/children?$top=",
        text::to_decimal(clamp_limit(limit) as u64).as_str(),
    )
}

/// The path of a search in a drive, the user's own or that of a channel. Single
/// quotes in the query are doubled.
pub open spec fn search_path(drive_id: Option<Seq<char>>, query: Seq<char>, limit: int) -> Seq<
    char,
> {
    (match drive_id {
        Some(d) => "/drives/"@ + d + "/root"@,
        None => "/me/drive"@,
    }) + "/search(q='"@ + web::encoded(
        text::replaced(text::trimmed(query), '\'', "''"@),
    ) + "')?$top="@ + text::decimal(clamped(limit) as nat)
}

/// The path of a search in a drive, the user's own or that of a channel.
pub fn transcripts_search_path(drive_id: Option<&str>, query: &str, limit: usize) -> (r: String)
    ensures
        r@ == search_path(text::opt_str(drive_id), query@, limit as int),
{
    let t = text::trim(query);
    let q = text::replace_char(t.as_str(), '\'', "''");
    let mut s = match drive_id {
        Some(d) => text::join3("/drives/", d, "/root"),
        None => "/me/drive".to_string(),
    };
    s.append("/search(q='");
    s.append(web::encode(q.as_str()).as_str());
    s.append("')?$top=");
    s.append(text::to_decimal(clamp_limit(limit) as u64).as_str());
    s
}

/// The path of a channel's folder.
pub open spec fn files_folder(team_id: Seq<char>, channel_id: Seq<char>) -> Seq<char> {
    "/teams/"@ + team_id + "/channels/"@ + channel_id + "/filesFolder"@
}

/// The path of a channel's folder.
pub fn channel_files_folder_path(team_id: &str, channel_id: &str) -> (r: String)
    ensures
        r@ == files_folder(team_id@, channel_id@),
{
    let mut s = text::join3("/teams/", team_id, "/channels/");
    s.append(channel_id);
    s.append("/filesFolder");
    s
}

/// The path of the items of a folder.
pub open spec fn children_path(drive_id: Seq<char>, item_id: Seq<char>, limit: int) -> Seq<char> {
    "/drives/"@ + drive_id + "/items/"@ + item_id + "/children?$top="@ + text::decimal(
        clamped(limit) as nat,
    )
}

/// The path of the items of a folder.
pub fn folder_children_path(drive_id: &str, item_id: &str, limit: usize) -> (r: String)
    ensures
        r@ == children_path(drive_id@, item_id@, limit as int),
{
    let mut s = text::join3("/drives/", drive_id, "/items/");
    s.append(item_id);
    s.append("/children?$top=");
    s.append(text::to_decimal(clamp_limit(limit) as u64).as_str());
    s
}

/// What an item says of its file.
pub struct FileFacet {
    pub mime_type: Option<String>,
}

/// The model of [`FileFacet`].
pub struct FileFacetV {
    pub mime_type: Option<Seq<char>>,
}

impl View for FileFacet {
    type V = FileFacetV;

    open spec fn view(&self) -> FileFacetV {
        FileFacetV {
            mime_type: text::opt_text(self.mime_type),
        }
    }
}

/// An optional [`FileFacet`] by its model.
pub open spec fn opt_file_facet(o: Option<FileFacet>) -> Option<FileFacetV> {
    match o {
        Some(x) => Some(x@),
        None => None,
    }
}

/// How a JSON value reads as a [`FileFacet`]; nothing where it does not.
pub open spec fn file_facet_of(v: JsonV) -> Option<FileFacetV> {
    if !json::record_form(v, 0, 1) {
        None
    } else {
        match json::opt_text_member(json::member_of(v, "mimeType"@, 0)) {
            Some(mime_type) => Some(FileFacetV { mime_type }),
            None => None,
        }
    }
}

/// Reads a [`FileFacet`].
pub fn read_file_facet(v: &Json) -> (r: Option<FileFacet>)
    ensures
        match r {
            Some(x) => file_facet_of(v@) == Some(x@),
            None => file_facet_of(v@) is None,
        },
{
    if !json::has_record_form(v, 0, 1) {
        return None;
    }
    let mime_type = match json::read_opt_text(json::member(v, "mimeType", 0)) {
        Some(x) => x,
        None => {
            return None;
        },
    };
    Some(FileFacet { mime_type })
}

/// How an optional member reads as a [`FileFacet`].
pub open spec fn opt_file_facet_member(m: Option<JsonV>) -> Option<Option<FileFacetV>> {
    match m {
        None => Some(None),
        Some(JsonV::Null) => Some(None),
        Some(j) => match file_facet_of(j) {
            Some(x) => Some(Some(x)),
            None => None,
        },
    }
}

fn read_opt_file_facet(m: Option<&Json>) -> (r: Option<Option<FileFacet>>)
    ensures
        match r {
            Some(o) => opt_file_facet_member(json::opt_json(m)) == Some(opt_file_facet(o)),
            None => opt_file_facet_member(json::opt_json(m)) is None,
        },
{
    match m {
        None => Some(None),
        Some(j) => if j.is_null() {
            Some(None)
        } else {
            match read_file_facet(j) {
                Some(x) => Some(Some(x)),
                None => None,
            }
        },
    }
}
/// Where an item lives.
pub struct ParentRef {
    pub drive_id: Option<String>,
}

/// The model of [`ParentRef`].
pub struct ParentRefV {
    pub drive_id: Option<Seq<char>>,
}

impl View for ParentRef {
    type V = ParentRefV;

    open spec fn view(&self) -> ParentRefV {
        ParentRefV {
            drive_id: text::opt_text(self.drive_id),
        }
    }
}

/// An optional [`ParentRef`] by its model.
pub open spec fn opt_parent_ref(o: Option<ParentRef>) -> Option<ParentRefV> {
    match o {
        Some(x) => Some(x@),
        None => None,
    }
}

/// How a JSON value reads as a [`ParentRef`]; nothing where it does not.
pub open spec fn parent_ref_of(v: JsonV) -> Option<ParentRefV> {
    if !json::record_form(v, 0, 1) {
        None
    } else {
        match json::opt_text_member(json::member_of(v, "driveId"@, 0)) {
            Some(drive_id) => Some(ParentRefV { drive_id }),
            None => None,
        }
    }
}

/// Reads a [`ParentRef`].
pub fn read_parent_ref(v: &Json) -> (r: Option<ParentRef>)
    ensures
        match r {
            Some(x) => parent_ref_of(v@) == Some(x@),
            None => parent_ref_of(v@) is None,
        },
{
    if !json::has_record_form(v, 0, 1) {
        return None;
    }
    let drive_id = match json::read_opt_text(json::member(v, "driveId", 0)) {
        Some(x) => x,
        None => {
            return None;
        },
    };
    Some(ParentRef { drive_id })
}

/// How an optional member reads as a [`ParentRef`].
pub open spec fn opt_parent_ref_member(m: Option<JsonV>) -> Option<Option<ParentRefV>> {
    match m {
        None => Some(None),
        Some(JsonV::Null) => Some(None),
        Some(j) => match parent_ref_of(j) {
            Some(x) => Some(Some(x)),
            None => None,
        },
    }
}

fn read_opt_parent_ref(m: Option<&Json>) -> (r: Option<Option<ParentRef>>)
    ensures
        match r {
            Some(o) => opt_parent_ref_member(json::opt_json(m)) == Some(opt_parent_ref(o)),
            None => opt_parent_ref_member(json::opt_json(m)) is None,
        },
{
    match m {
        None => Some(None),
        Some(j) => if j.is_null() {
            Some(None)
        } else {
            match read_parent_ref(j) {
                Some(x) => Some(Some(x)),
                None => None,
            }
        },
    }
}
/// An item of a drive as the service sends it.
pub struct DriveItem {
    pub id: Option<String>,
    pub name: Option<String>,
    pub size: Option<u64>,
    pub web_url: Option<String>,
    pub created: Option<String>,
    pub modified: Option<String>,
    pub file: Option<FileFacet>,
    pub folder: bool,
    pub parent: Option<ParentRef>,
}

/// The model of [`DriveItem`].
pub struct DriveItemV {
    pub id: Option<Seq<char>>,
    pub name: Option<Seq<char>>,
    pub size: Option<u64>,
    pub web_url: Option<Seq<char>>,
    pub created: Option<Seq<char>>,
    pub modified: Option<Seq<char>>,
    pub file: Option<FileFacetV>,
    pub folder: bool,
    pub parent: Option<ParentRefV>,
}

impl View for DriveItem {
    type V = DriveItemV;

    open spec fn view(&self) -> DriveItemV {
        DriveItemV {
            id: text::opt_text(self.id),
            name: text::opt_text(self.name),
            size: self.size,
            web_url: text::opt_text(self.web_url),
            created: text::opt_text(self.created),
            modified: text::opt_text(self.modified),
            file: opt_file_facet(self.file),
            folder: self.folder,
            parent: opt_parent_ref(self.parent),
        }
    }
}

/// A list of [`DriveItem`] by their models.
pub open spec fn drive_item_views(v: Seq<DriveItem>) -> Seq<DriveItemV> {
    Seq::new(v.len(), |i: int| v[i]@)
}

/// How a JSON value reads as a [`DriveItem`]; nothing where it does not.
pub open spec fn drive_item_of(v: JsonV) -> Option<DriveItemV> {
    if !json::record_form(v, 0, 9) {
        None
    } else {
        match (
            json::opt_text_member(json::member_of(v, "id"@, 0)),
            json::opt_text_member(json::member_of(v, "name"@, 1)),
            json::opt_u64_member(json::member_of(v, "size"@, 2)),
            json::opt_text_member(json::member_of(v, "webUrl"@, 3)),
            json::opt_text_member(json::member_of(v, "createdDateTime"@, 4)),
            json::opt_text_member(json::member_of(v, "lastModifiedDateTime"@, 5)),
            opt_file_facet_member(json::member_of(v, "file"@, 6)),
            Some(json::opt_any_member(json::member_of(v, "folder"@, 7)) is Some),
            opt_parent_ref_member(json::member_of(v, "parentReference"@, 8)),
        ) {
            (
                Some(id),
                Some(name),
                Some(size),
                Some(web_url),
                Some(created),
                Some(modified),
                Some(file),
                Some(folder),
                Some(parent),
            ) => Some(
                DriveItemV { id, name, size, web_url, created, modified, file, folder, parent },
            ),
            _ => None,
        }
    }
}

/// Reads a [`DriveItem`].
pub fn read_drive_item(v: &Json) -> (r: Option<DriveItem>)
    ensures
        match r {
            Some(x) => drive_item_of(v@) == Some(x@),
            None => drive_item_of(v@) is None,
        },
{
    if !json::has_record_form(v, 0, 9) {
        return None;
    }
    let id = match json::read_opt_text(json::member(v, "id", 0)) {
        Some(x) => x,
        None => {
            return None;
        },
    };
    let name = match json::read_opt_text(json::member(v, "name", 1)) {
        Some(x) => x,
        None => {
            return None;
        },
    };
    let size = match json::read_opt_u64(json::member(v, "size", 2)) {
        Some(x) => x,
        None => {
            return None;
        },
    };
    let web_url = match json::read_opt_text(json::member(v, "webUrl", 3)) {
        Some(x) => x,
        None => {
            return None;
        },
    };
    let created = match json::read_opt_text(json::member(v, "createdDateTime", 4)) {
        Some(x) => x,
        None => {
            return None;
        },
    };
    let modified = match json::read_opt_text(json::member(v, "lastModifiedDateTime", 5)) {
        Some(x) => x,
        None => {
            return None;
        },
    };
    let file = match read_opt_file_facet(json::member(v, "file", 6)) {
        Some(x) => x,
        None => {
            return None;
        },
    };
    let folder = match Some(json::read_opt_any(json::member(v, "folder", 7)).is_some()) {
        Some(x) => x,
        None => {
            return None;
        },
    };
    let parent = match read_opt_parent_ref(json::member(v, "parentReference", 8)) {
        Some(x) => x,
        None => {
            return None;
        },
    };
    Some(DriveItem { id, name, size, web_url, created, modified, file, folder, parent })
}

/// How a list of JSON values reads as a list of [`DriveItem`]: all of them or none.
pub open spec fn drive_item_list(a: Seq<JsonV>) -> Option<Seq<DriveItemV>>
    decreases a.len(),
{
    if a.len() == 0 {
        Some(Seq::empty())
    } else {
        match (drive_item_list(a.drop_last()), drive_item_of(a.last())) {
            (Some(l), Some(x)) => Some(l.push(x)),
            _ => None,
        }
    }
}

proof fn lemma_drive_item_list_prefix(a: Seq<JsonV>, i: int)
    requires
        0 <= i <= a.len(),
        drive_item_list(a.take(i)) is None,
    ensures
        drive_item_list(a) is None,
    decreases a.len() - i,
{
    if i < a.len() {
        assert(a.take(i + 1).drop_last() =~= a.take(i));
        lemma_drive_item_list_prefix(a, i + 1);
    } else {
        assert(a.take(i) =~= a);
    }
}

fn read_drive_item_list(a: &Vec<Json>) -> (r: Option<Vec<DriveItem>>)
    ensures
        match r {
            Some(l) => drive_item_list(json::items_view(a@)) == Some(drive_item_views(l@)),
            None => drive_item_list(json::items_view(a@)) is None,
        },
{
    let ghost all = json::items_view(a@);
    let mut out: Vec<DriveItem> = Vec::new();
    let mut i: usize = 0;
    proof {
        assert(all.take(0) =~= Seq::empty());
        assert(drive_item_views(out@) =~= Seq::empty());
    }
    while i < a.len()
        invariant
            i <= a@.len(),
            all == json::items_view(a@),
            drive_item_list(all.take(i as int)) == Some(drive_item_views(out@)),
        decreases a@.len() - i,
    {
        proof {
            assert(all.take(i + 1).drop_last() =~= all.take(i as int));
            assert(all.take(i + 1).last() == a@[i as int]@);
        }
        match read_drive_item(&a[i]) {
            Some(x) => {
                let ghost before = out@;
                out.push(x);
                proof {
                    assert(drive_item_views(out@) =~= drive_item_views(before).push(x@));
                }
            },
            None => {
                proof {
                    lemma_drive_item_list_prefix(all, i + 1);
                }
                return None;
            },
        }
        i = i + 1;
    }
    proof {
        assert(all.take(i as int) =~= all);
    }
    Some(out)
}

/// How a list member reads that may be left out.
pub open spec fn drive_item_list_default(m: Option<JsonV>) -> Option<Seq<DriveItemV>> {
    match m {
        None => Some(Seq::empty()),
        Some(JsonV::Arr(a)) => drive_item_list(a),
        _ => None,
    }
}

fn read_drive_item_list_default(m: Option<&Json>) -> (r: Option<Vec<DriveItem>>)
    ensures
        match r {
            Some(l) => drive_item_list_default(json::opt_json(m)) == Some(drive_item_views(l@)),
            None => drive_item_list_default(json::opt_json(m)) is None,
        },
{
    match m {
        None => {
            let out: Vec<DriveItem> = Vec::new();
            proof {
                assert(drive_item_views(out@) =~= Seq::empty());
            }
            Some(out)
        },
        Some(Json::Arr(a)) => {
            proof {
                json::lemma_arr_view(*a);
            }
            read_drive_item_list(a)
        },
        _ => None,
    }
}
/// The reply to a request for a folder's items or to a search.
pub struct DriveChildrenResponse {
    pub value: Vec<DriveItem>,
}

/// The model of [`DriveChildrenResponse`].
pub struct DriveChildrenResponseV {
    pub value: Seq<DriveItemV>,
}

impl View for DriveChildrenResponse {
    type V = DriveChildrenResponseV;

    open spec fn view(&self) -> DriveChildrenResponseV {
        DriveChildrenResponseV {
            value: drive_item_views(self.value@),
        }
    }
}

/// How a JSON value reads as a [`DriveChildrenResponse`]; nothing where it does not.
pub open spec fn drive_children_response_of(v: JsonV) -> Option<DriveChildrenResponseV> {
    if !json::record_form(v, 0, 1) {
        None
    } else {
        match drive_item_list_default(json::member_of(v, "value"@, 0)) {
            Some(value) => Some(DriveChildrenResponseV { value }),
            None => None,
        }
    }
}

/// Reads a [`DriveChildrenResponse`].
pub fn read_drive_children_response(v: &Json) -> (r: Option<DriveChildrenResponse>)
    ensures
        match r {
            Some(x) => drive_children_response_of(v@) == Some(x@),
            None => drive_children_response_of(v@) is None,
        },
{
    if !json::has_record_form(v, 0, 1) {
        return None;
    }
    let value = match read_drive_item_list_default(json::member(v, "value", 0)) {
        Some(x) => x,
        None => {
            return None;
        },
    };
    Some(DriveChildrenResponse { value })
}

/// Where a transcript lives.
#[derive(Clone, Debug, PartialEq, Eq)]
pub enum TranscriptSource {
    /// In the user's own drive.
    OneDrive,
    /// In the folder of a channel.
    Channel { team: String, channel: String },
}

/// The model of [`TranscriptSource`].
pub enum TranscriptSourceV {
    OneDrive,
    Channel { team: Seq<char>, channel: Seq<char> },
}

impl View for TranscriptSource {
    type V = TranscriptSourceV;

    open spec fn view(&self) -> TranscriptSourceV {
        match *self {
            TranscriptSource::OneDrive => TranscriptSourceV::OneDrive,
            TranscriptSource::Channel { team, channel } => TranscriptSourceV::Channel {
                team: team@,
                channel: channel@,
            },
        }
    }
}

impl TranscriptSource {
    /// The source to show in a list.
    pub fn label(&self) -> (r: String)
        ensures
            r@ == match self@ {
                TranscriptSourceV::OneDrive => "OneDrive"@,
                TranscriptSourceV::Channel { team, channel } => team + " > #"@ + channel,
            },
    {
        match self {
            TranscriptSource::OneDrive => "OneDrive".to_string(),
            TranscriptSource::Channel { team, channel } => text::join3(
                team.as_str(),
                " > #",
                channel.as_str(),
            ),
        }
    }

    fn copied(&self) -> (r: TranscriptSource)
        ensures
            r@ == self@,
    {
        match self {
            TranscriptSource::OneDrive => TranscriptSource::OneDrive,
            TranscriptSource::Channel { team, channel } => TranscriptSource::Channel {
                team: team.clone(),
                channel: channel.clone(),
            },
        }
    }
}

/// What is shown of a transcript.
pub struct TranscriptInfo {
    pub id: String,
    pub name: String,
    pub size: u64,
    pub mime: Option<String>,
    pub web_url: Option<String>,
    pub drive_id: Option<String>,
    pub created: Option<String>,
    pub modified: Option<String>,
    pub source: TranscriptSource,
}

/// The model of [`TranscriptInfo`].
pub struct TranscriptInfoV {
    pub id: Seq<char>,
    pub name: Seq<char>,
    pub size: u64,
    pub mime: Option<Seq<char>>,
    pub web_url: Option<Seq<char>>,
    pub drive_id: Option<Seq<char>>,
    pub created: Option<Seq<char>>,
    pub modified: Option<Seq<char>>,
    pub source: TranscriptSourceV,
}

impl View for TranscriptInfo {
    type V = TranscriptInfoV;

    open spec fn view(&self) -> TranscriptInfoV {
        TranscriptInfoV {
            id: self.id@,
            name: self.name@,
            size: self.size,
            mime: text::opt_text(self.mime),
            web_url: text::opt_text(self.web_url),
            drive_id: text::opt_text(self.drive_id),
            created: text::opt_text(self.created),
            modified: text::opt_text(self.modified),
            source: self.source@,
        }
    }
}
/// A list of [`TranscriptInfo`] by their models.
pub open spec fn transcript_info_views(v: Seq<TranscriptInfo>) -> Seq<TranscriptInfoV> {
    Seq::new(v.len(), |i: int| v[i]@)
}

/// The part of a name after its last dot, in lower case; a name without a dot has
/// none.
pub open spec fn extension(name: Seq<char>) -> Option<Seq<char>> {
    if name.contains('.') {
        Some(text::lowered(text::after_last(name, '.')))
    } else {
        None
    }
}

/// True of the name and the type of a transcript.
pub open spec fn transcript_name(name: Seq<char>, mime: Option<Seq<char>>) -> bool {
    (mime matches Some(m) && text::lowered(m) == "text/vtt"@) || extension(name) == Some("vtt"@)
}

/// True of the name and the type of a transcript.
pub fn is_transcript(name: &str, mime: Option<&str>) -> (r: bool)
    ensures
        r == transcript_name(name@, text::opt_str(mime)),
{
    if let Some(m) = mime {
        let low = text::lower(m);
        if text::same(low.as_str(), "text/vtt") {
            return true;
        }
    }
    if !text::contains_char(name, '.') {
        return false;
    }
    let last = text::take_after_last(name, '.');
    let ext = text::lower(last.as_str());
    text::same(ext.as_str(), "vtt")
}

/// What is shown of an item: nothing of a folder, of one without an id, and of
/// another kind of file.
pub open spec fn transcript_row(item: DriveItemV, source: TranscriptSourceV) -> Option<
    TranscriptInfoV,
> {
    match (calendar::unless_blank(item.id), item.file) {
        (Some(id), Some(file)) => {
            let name = teams::or_text(item.name, "[unnamed]"@);
            if item.folder || !transcript_name(name, file.mime_type) {
                None
            } else {
                Some(
                    TranscriptInfoV {
                        id,
                        name,
                        size: match item.size {
                            Some(n) => n,
                            None => 0u64,
                        },
                        mime: file.mime_type,
                        web_url: item.web_url,
                        drive_id: match item.parent {
                            Some(x) => x.drive_id,
                            None => None,
                        },
                        created: item.created,
                        modified: item.modified,
                        source,
                    },
                )
            }
        },
        _ => None,
    }
}

/// What is shown of an item.
pub fn transcript_from_item(
    item: &DriveItem,
    source: &TranscriptSource,
) -> (r: Option<TranscriptInfo>)
    ensures
        match r {
            Some(x) => transcript_row(item@, source@) == Some(x@),
            None => transcript_row(item@, source@) is None,
        },
{
    let id = match calendar::filter_blank(&item.id) {
        Some(id) => id,
        None => {
            return None;
        },
    };
    let file = match &item.file {
        Some(f) => f,
        None => {
            return None;
        },
    };
    let name = teams::text_or(&item.name, "[unnamed]");
    if item.folder || !is_transcript(name.as_str(), as_str_opt(&file.mime_type)) {
        return None;
    }
    let size: u64 = match item.size {
        Some(n) => n,
        None => 0,
    };
    let drive_id = match &item.parent {
        Some(x) => text::copy_opt(&x.drive_id),
        None => None,
    };
    Some(
        TranscriptInfo {
            id,
            name,
            size,
            mime: text::copy_opt(&file.mime_type),
            web_url: text::copy_opt(&item.web_url),
            drive_id,
            created: text::copy_opt(&item.created),
            modified: text::copy_opt(&item.modified),
            source: source.copied(),
        },
    )
}

fn as_str_opt(o: &Option<String>) -> (r: Option<&str>)
    ensures
        text::opt_str(r) == text::opt_text(*o),
{
    match o {
        Some(s) => Some(s.as_str()),
        None => None,
    }
}
/// What is shown of the items, in order.
pub open spec fn transcript_rows(v: Seq<DriveItemV>, source: TranscriptSourceV) -> Seq<
    TranscriptInfoV,
>
    decreases v.len(),
{
    if v.len() == 0 {
        Seq::empty()
    } else {
        match transcript_row(v.last(), source) {
            Some(x) => transcript_rows(v.drop_last(), source).push(x),
            None => transcript_rows(v.drop_last(), source),
        }
    }
}

/// What is shown of the items, in order.
pub fn transcript_infos(v: &Vec<DriveItem>, source: &TranscriptSource) -> (r: Vec<TranscriptInfo>)
    ensures
        transcript_info_views(r@) == transcript_rows(drive_item_views(v@), source@),
{
    let ghost all = drive_item_views(v@);
    let mut out: Vec<TranscriptInfo> = Vec::new();
    let mut i: usize = 0;
    proof {
        assert(all.take(0) =~= Seq::empty());
        assert(transcript_info_views(out@) =~= Seq::empty());
    }
    while i < v.len()
        invariant
            i <= v@.len(),
            all == drive_item_views(v@),
            transcript_info_views(out@) == transcript_rows(all.take(i as int), source@),
        decreases v@.len() - i,
    {
        proof {
            assert(all.take(i + 1).drop_last() =~= all.take(i as int));
            assert(all.take(i + 1).last() == v@[i as int]@);
        }
        match transcript_from_item(&v[i], source) {
            Some(x) => {
                let ghost before = out@;
                out.push(x);
                proof {
                    assert(transcript_info_views(out@) =~= transcript_info_views(before).push(x@));
                }
            },
            None => {},
        }
        i = i + 1;
    }
    proof {
        assert(all.take(i as int) =~= all);
    }
    out
}

/// What is shown of a reply, by its JSON value: nothing where it is of another
/// form.
pub open spec fn transcripts_in(v: JsonV, source: TranscriptSourceV) -> Seq<TranscriptInfoV> {
    match drive_children_response_of(v) {
        Some(x) => transcript_rows(x.value, source),
        None => Seq::empty(),
    }
}

/// What is shown of a reply, by its JSON value.
pub fn read_transcripts(v: &Json, source: &TranscriptSource) -> (r: Vec<TranscriptInfo>)
    ensures
        transcript_info_views(r@) == transcripts_in(v@, source@),
{
    match read_drive_children_response(v) {
        Some(x) => transcript_infos(&x.value, source),
        None => {
            let none: Vec<TranscriptInfo> = Vec::new();
            proof {
                assert(transcript_info_views(none@) =~= Seq::empty());
            }
            none
        },
    }
}

/// What is shown of a reply.
pub fn parse_transcripts_response(
    value: &serde_json::Value,
    source: TranscriptSource,
) -> (r: Vec<TranscriptInfo>)
    ensures
        transcript_info_views(r@) == transcripts_in(json::held_json(*value), source@),
{
    let v = json::from_value(value);
    read_transcripts(&v, &source)
}

// -- Newest first --

/// What decides the place of an entry in the list.
pub open spec fn stamp_of(r: TranscriptInfoV) -> StampV {
    StampV { modified: r.modified, created: r.created, name: r.name }
}

/// The stamps of entries.
pub open spec fn by_stamp() -> spec_fn(TranscriptInfoV) -> StampV {
    |r: TranscriptInfoV| stamp_of(r)
}

fn stands_before(a: &TranscriptInfo, b: &TranscriptInfo) -> (r: bool)
    ensures
        r == order::newer(stamp_of(a@), stamp_of(b@)),
{
    order::is_newer(&a.modified, &a.created, &a.name, &b.modified, &b.created, &b.name)
}

/// Puts the newest first; entries that are equal in this keep their order.
pub fn sort_newest(files: &mut Vec<TranscriptInfo>)
    ensures
        transcript_info_views(final(files)@) == order::newest_first(
            transcript_info_views(old(files)@),
            by_stamp(),
        ),
        order::is_newest_first(transcript_info_views(final(files)@), by_stamp()),
{
    let ghost all = transcript_info_views(files@);
    let n: usize = files.len();
    let mut i: usize = 0;
    proof {
        assert(all.take(0) =~= Seq::empty());
        assert(all.skip(0) =~= all);
        assert(order::newest_first(all.take(0), by_stamp()) + all.skip(0) =~= all);
    }
    while i < n
        invariant
            i <= n,
            n == all.len(),
            files@.len() == n,
            transcript_info_views(files@) == order::newest_first(all.take(i as int), by_stamp())
                + all.skip(i as int),
        decreases n - i,
    {
        let ghost low = order::newest_first(all.take(i as int), by_stamp());
        let ghost rest = all.skip(i + 1);
        let ghost before = transcript_info_views(files@);
        proof {
            order::law_newest_first_sorts(all.take(i as int), by_stamp());
            assert(low.len() == i);
            assert(before[i as int] == all[i as int]);
        }
        let x = files.remove(i);
        proof {
            assert(transcript_info_views(files@) =~= before.remove(i as int));
            assert(before.remove(i as int) =~= low + rest);
        }
        let mut at: usize = i;
        while at > 0 && stands_before(&x, &files[at - 1])
            invariant
                at <= i,
                i < n,
                low.len() == i,
                files@.len() == n - 1,
                transcript_info_views(files@) == low + rest,
                forall|k: int|
                    at <= k < i ==> order::newer(stamp_of(x@), stamp_of(#[trigger] low[k])),
            decreases at,
        {
            proof {
                assert(low[at - 1] == (low + rest)[at - 1]);
                assert((low + rest)[at - 1] == files@[at - 1]@);
            }
            at = at - 1;
        }
        proof {
            if at > 0 {
                assert(low[at - 1] == (low + rest)[at - 1]);
                assert((low + rest)[at - 1] == files@[at - 1]@);
            }
            order::lemma_insert_at(low, x@, by_stamp(), at as int);
        }
        let ghost without = files@;
        files.insert(at, x);
        proof {
            assert(
                transcript_info_views(files@) =~= transcript_info_views(without).insert(
                    at as int,
                    x@,
                )
            );
            assert((low + rest).insert(at as int, x@) =~= low.insert(at as int, x@) + rest);
            assert(all.take(i + 1).drop_last() =~= all.take(i as int));
            assert(all.take(i + 1).last() == x@);
        }
        i = i + 1;
    }
    proof {
        assert(all.take(n as int) =~= all);
        assert(order::newest_first(all, by_stamp()) + all.skip(n as int) =~= order::newest_first(
            all,
            by_stamp(),
        ));
        order::law_newest_first_sorts(all, by_stamp());
    }
}

/// True of the text of a failure that means a missing folder, by its status.
pub fn is_not_found(error: &str) -> (r: bool)
    ensures
        r == client::tells_status(error@, "404"@),
{
    client::names_status(error, "404")
}

// -- Looking through all drives --

/// What a scan waits for.
#[derive(Clone, Copy, Debug, PartialEq, Eq, Structural)]
pub enum ScanStage {
    /// The reply of the user's own drive.
    OneDrive,
    /// The teams of the user, with their channels.
    Teams,
    /// The folder of the next channel.
    Folder,
    /// The items of the next channel's folder.
    Contents,
    /// The entries of the next channel.
    Entries,
    /// Nothing: the entries are there.
    Done,
    /// Nothing: the scan failed.
    Failed,
}

/// The state of a scan of all drives: a list of all transcripts, or a search.
pub struct TranscriptScan {
    pub limit: usize,
    /// What is searched for; a list has none.
    pub query: Option<String>,
    pub stage: ScanStage,
    /// Whether a drive has answered.
    pub answered: bool,
    pub found: Vec<TranscriptInfo>,
    pub channels: Vec<ChannelPlace>,
    /// How many channels were asked for their folder.
    pub asked: usize,
    pub drives: Vec<ChannelDrive>,
    /// How many drives were visited.
    pub visited: usize,
    /// The request to make; empty where none is made.
    pub path: String,
    /// What to show where the scan failed.
    pub error: String,
}

/// The model of [`TranscriptScan`].
pub struct TranscriptScanV {
    pub limit: usize,
    pub query: Option<Seq<char>>,
    pub stage: ScanStage,
    pub answered: bool,
    pub found: Seq<TranscriptInfoV>,
    pub channels: Seq<ChannelPlaceV>,
    pub asked: usize,
    pub drives: Seq<ChannelDriveV>,
    pub visited: usize,
    pub path: Seq<char>,
    pub error: Seq<char>,
}

impl View for TranscriptScan {
    type V = TranscriptScanV;

    open spec fn view(&self) -> TranscriptScanV {
        TranscriptScanV {
            limit: self.limit,
            query: text::opt_text(self.query),
            stage: self.stage,
            answered: self.answered,
            found: transcript_info_views(self.found@),
            channels: channels::channel_place_views(self.channels@),
            asked: self.asked,
            drives: channels::channel_drive_views(self.drives@),
            visited: self.visited,
            path: self.path@,
            error: self.error@,
        }
    }
}

/// A reply by its view: the bytes, or the text of the failure.
pub open spec fn reply_view(r: Result<Vec<u8>, String>) -> Result<Seq<u8>, Seq<char>> {
    match r {
        Ok(b) => Ok(b@),
        Err(e) => Err(e@),
    }
}

/// A scan that starts.
pub open spec fn new_scan(limit: usize, query: Option<Seq<char>>) -> TranscriptScanV {
    TranscriptScanV {
        limit: clamped(limit as int) as usize,
        query,
        stage: ScanStage::OneDrive,
        answered: false,
        found: Seq::empty(),
        channels: Seq::empty(),
        asked: 0,
        drives: Seq::empty(),
        visited: 0,
        path: match query {
            None => own_path(clamped(limit as int)),
            Some(q) => search_path(None, q, clamped(limit as int)),
        },
        error: ""@,
    }
}

/// A scan that failed.
pub open spec fn failed(v: TranscriptScanV, error: Seq<char>) -> TranscriptScanV {
    TranscriptScanV { stage: ScanStage::Failed, path: ""@, error, ..v }
}

/// A scan that has visited every drive: the newest entries, as many as were asked
/// for. A list that no drive answered fails.
pub open spec fn finished(v: TranscriptScanV) -> TranscriptScanV {
    if v.query is None && !v.answered {
        failed(v, "no drive answered the transcripts list"@)
    } else {
        let sorted = order::newest_first(v.found, by_stamp());
        TranscriptScanV {
            stage: ScanStage::Done,
            path: ""@,
            found: if v.limit < sorted.len() {
                sorted.take(v.limit as int)
            } else {
                sorted
            },
            ..v
        }
    }
}

/// A scan that visits the next drive, if there is one.
pub open spec fn visiting(v: TranscriptScanV) -> TranscriptScanV {
    if v.visited < v.drives.len() {
        let d = v.drives[v.visited as int];
        match v.query {
            None => TranscriptScanV {
                stage: ScanStage::Contents,
                path: children_path(d.drive_id, d.folder_id, v.limit as int),
                ..v
            },
            Some(q) => TranscriptScanV {
                stage: ScanStage::Entries,
                path: search_path(Some(d.drive_id), q, v.limit as int),
                ..v
            },
        }
    } else {
        finished(v)
    }
}

/// A scan that asks the next channel for its folder, while there is one and not
/// too many drives are known.
pub open spec fn asking(v: TranscriptScanV) -> TranscriptScanV {
    if v.asked < v.channels.len() && v.drives.len() < MAX_CHANNEL_DRIVES {
        let c = v.channels[v.asked as int];
        TranscriptScanV {
            stage: ScanStage::Folder,
            path: files_folder(c.team_id, c.channel_id),
            ..v
        }
    } else {
        visiting(v)
    }
}

/// A scan after the reply of the user's own drive. A list passes over a failure and
/// over a reply that does not parse; a missing folder counts as an answer. A search
/// ends with either.
pub open spec fn after_one_drive(
    v: TranscriptScanV,
    reply: Result<Seq<u8>, Seq<char>>,
) -> TranscriptScanV {
    match reply {
        Err(e) => match v.query {
            Some(_) => failed(v, e),
            None => TranscriptScanV {
                stage: ScanStage::Teams,
                path: ""@,
                answered: v.answered || client::tells_status(e, "404"@),
                ..v
            },
        },
        Ok(b) => match json::json_bytes(b) {
            None => match v.query {
                Some(_) => failed(v, "Failed to parse transcripts search response"@),
                None => TranscriptScanV { stage: ScanStage::Teams, path: ""@, ..v },
            },
            Some(j) => TranscriptScanV {
                stage: ScanStage::Teams,
                path: ""@,
                answered: true,
                found: v.found + transcripts_in(j, TranscriptSourceV::OneDrive),
                ..v
            },
        },
    }
}

/// A scan after the teams; without them no channel is visited.
pub open spec fn after_teams(v: TranscriptScanV, teams: Option<Seq<TeamInfoV>>) -> TranscriptScanV {
    asking(
        TranscriptScanV {
            channels: match teams {
                Some(l) => channels::places_of(l),
                None => Seq::empty(),
            },
            asked: 0,
            drives: Seq::empty(),
            visited: 0,
            ..v
        },
    )
}

/// The drive of a channel, by the reply with its folder; nothing where the reply
/// does not say it.
pub open spec fn drive_in(
    reply: Result<Seq<u8>, Seq<char>>,
    place: ChannelPlaceV,
) -> Option<ChannelDriveV> {
    match reply {
        Err(_) => None,
        Ok(b) => match json::json_bytes(b) {
            None => None,
            Some(j) => match drive_item_of(j) {
                None => None,
                Some(folder) => match (folder.parent, folder.id) {
                    (Some(parent), Some(folder_id)) => match parent.drive_id {
                        Some(drive_id) => Some(
                            ChannelDriveV {
                                team: place.team,
                                channel: place.channel,
                                drive_id,
                                folder_id,
                            },
                        ),
                        None => None,
                    },
                    _ => None,
                },
            },
        },
    }
}

/// A scan after the reply with a channel's folder.
pub open spec fn after_folder(
    v: TranscriptScanV,
    reply: Result<Seq<u8>, Seq<char>>,
) -> TranscriptScanV {
    asking(
        TranscriptScanV {
            drives: match drive_in(reply, v.channels[v.asked as int]) {
                Some(d) => v.drives.push(d),
                None => v.drives,
            },
            asked: (v.asked + 1) as usize,
            ..v
        },
    )
}

/// The first item from a place on that is the folder with the entries.
pub open spec fn folder_from(items: Seq<DriveItemV>, from: int) -> Option<DriveItemV>
    decreases items.len() - from,
{
    if from < 0 || from >= items.len() {
        None
    } else if items[from].folder && items[from].name == Some(TRANSCRIPTS_FOLDER@) {
        Some(items[from])
    } else {
        folder_from(items, from + 1)
    }
}

/// A scan that goes on to the next drive.
pub open spec fn passed(v: TranscriptScanV) -> TranscriptScanV {
    visiting(TranscriptScanV { visited: (v.visited + 1) as usize, ..v })
}

/// A scan after the reply with the items of a channel's folder.
pub open spec fn after_contents(
    v: TranscriptScanV,
    reply: Result<Seq<u8>, Seq<char>>,
) -> TranscriptScanV {
    match reply {
        Err(_) => passed(v),
        Ok(b) => match json::json_bytes(b) {
            None => passed(v),
            Some(j) => match drive_children_response_of(j) {
                None => passed(v),
                Some(items) => {
                    let w = TranscriptScanV { answered: true, ..v };
                    match folder_from(items.value, 0) {
                        None => passed(w),
                        Some(folder) => match folder.id {
                            None => passed(w),
                            Some(id) => TranscriptScanV {
                                stage: ScanStage::Entries,
                                path: children_path(
                                    v.drives[v.visited as int].drive_id,
                                    id,
                                    v.limit as int,
                                ),
                                ..w
                            },
                        },
                    }
                },
            },
        },
    }
}

/// A scan after the reply with the entries of a channel.
pub open spec fn after_entries(
    v: TranscriptScanV,
    reply: Result<Seq<u8>, Seq<char>>,
) -> TranscriptScanV {
    match reply {
        Err(_) => passed(v),
        Ok(b) => match json::json_bytes(b) {
            None => passed(v),
            Some(j) => {
                let d = v.drives[v.visited as int];
                passed(
                    TranscriptScanV {
                        found: v.found + transcripts_in(
                            j,
                            TranscriptSourceV::Channel { team: d.team, channel: d.channel },
                        ),
                        ..v
                    },
                )
            },
        },
    }
}

/// A scan after a reply.
pub open spec fn after_reply(
    v: TranscriptScanV,
    reply: Result<Seq<u8>, Seq<char>>,
) -> TranscriptScanV {
    match v.stage {
        ScanStage::OneDrive => after_one_drive(v, reply),
        ScanStage::Folder => after_folder(v, reply),
        ScanStage::Contents => after_contents(v, reply),
        ScanStage::Entries => after_entries(v, reply),
        _ => v,
    }
}

/// What holds of every scan. In the end the newest entry is first, and there are
/// no more than were asked for. A list fails exactly where no drive has answered.
pub open spec fn scan_ok(v: TranscriptScanV) -> bool {
    &&& 1 <= v.limit <= TRANSCRIPTS_MAX_LIMIT
    &&& v.asked <= v.channels.len()
    &&& v.visited <= v.drives.len() <= MAX_CHANNEL_DRIVES
    &&& v.stage is Folder ==> v.asked < v.channels.len() && v.drives.len() < MAX_CHANNEL_DRIVES
        && v.visited == 0
    &&& v.stage is Contents || v.stage is Entries ==> v.visited < v.drives.len()
    &&& v.stage is Contents ==> v.query is None
    &&& v.stage is Done ==> v.found.len() <= v.limit && order::is_newest_first(
        v.found,
        by_stamp(),
    )
    &&& v.query is None && v.stage is Done ==> v.answered
    &&& v.query is None && v.stage is Failed ==> !v.answered
}

proof fn lemma_finished_ok(v: TranscriptScanV)
    requires
        1 <= v.limit <= TRANSCRIPTS_MAX_LIMIT,
        v.asked <= v.channels.len(),
        v.visited <= v.drives.len() <= MAX_CHANNEL_DRIVES,
    ensures
        scan_ok(finished(v)),
{
    order::law_newest_first_sorts(v.found, by_stamp());
    let sorted = order::newest_first(v.found, by_stamp());
    if v.limit < sorted.len() {
        let first = sorted.take(v.limit as int);
        assert forall|i: int, j: int| 0 <= i < j < first.len() implies !order::newer(
            by_stamp()(#[trigger] first[j]),
            by_stamp()(#[trigger] first[i]),
        ) by {
            assert(first[i] == sorted[i] && first[j] == sorted[j]);
        }
    }
}

/// Every scan stays in order, whatever the replies are: it visits a bounded number
/// of drives, and ends with the newest entry first and no more entries than were
/// asked for.
pub proof fn law_scan_in_order(
    limit: usize,
    query: Option<Seq<char>>,
    v: TranscriptScanV,
    reply: Result<Seq<u8>, Seq<char>>,
    teams: Option<Seq<TeamInfoV>>,
)
    requires
        scan_ok(v),
        v.channels.len() <= usize::MAX,
    ensures
        scan_ok(new_scan(limit, query)),
        scan_ok(after_reply(v, reply)),
        v.stage is Teams ==> scan_ok(after_teams(v, teams)),
{
    lemma_finished_ok(v);
    lemma_finished_ok(TranscriptScanV { answered: true, ..v });
    if v.stage is Teams {
        let places = match teams {
            Some(l) => channels::places_of(l),
            None => Seq::empty(),
        };
        lemma_finished_ok(
            TranscriptScanV { channels: places, asked: 0, drives: Seq::empty(), visited: 0, ..v },
        );
    }
    if v.stage is Folder {
        let drives = match drive_in(reply, v.channels[v.asked as int]) {
            Some(d) => v.drives.push(d),
            None => v.drives,
        };
        lemma_finished_ok(TranscriptScanV { drives, asked: (v.asked + 1) as usize, ..v });
    }
    if v.stage is Contents || v.stage is Entries {
        let next = (v.visited + 1) as usize;
        lemma_finished_ok(TranscriptScanV { visited: next, ..v });
        lemma_finished_ok(TranscriptScanV { visited: next, answered: true, ..v });
        if let Ok(b) = reply {
            if let Some(j) = json::json_bytes(b) {
                let d = v.drives[v.visited as int];
                let found = v.found + transcripts_in(
                    j,
                    TranscriptSourceV::Channel { team: d.team, channel: d.channel },
                );
                lemma_finished_ok(TranscriptScanV { found, visited: next, ..v });
            }
        }
    }
}

/// How far a scan is from its end: which steps are left, and how many channels
/// and drives are left to ask.
pub open spec fn distance(v: TranscriptScanV) -> (nat, nat, nat) {
    (
        match v.stage {
            ScanStage::OneDrive => 4,
            ScanStage::Teams => 3,
            ScanStage::Folder => 2,
            ScanStage::Contents => 1,
            ScanStage::Entries => 1,
            ScanStage::Done => 0,
            ScanStage::Failed => 0,
        },
        if v.stage is Folder {
            (v.channels.len() - v.asked) as nat
        } else {
            (v.drives.len() - v.visited) as nat
        },
        if v.stage is Contents {
            1
        } else {
            0
        },
    )
}

/// True when one distance is below another.
pub open spec fn nearer(a: (nat, nat, nat), b: (nat, nat, nat)) -> bool {
    a.0 < b.0 || (a.0 == b.0 && (a.1 < b.1 || (a.1 == b.1 && a.2 < b.2)))
}

/// Every reply brings a scan nearer to its end, so every scan ends.
pub proof fn law_scan_ends(
    v: TranscriptScanV,
    reply: Result<Seq<u8>, Seq<char>>,
    teams: Option<Seq<TeamInfoV>>,
)
    requires
        scan_ok(v),
        v.channels.len() <= usize::MAX,
        !(v.stage is Done),
        !(v.stage is Failed),
    ensures
        if v.stage is Teams {
            nearer(distance(after_teams(v, teams)), distance(v))
        } else {
            nearer(distance(after_reply(v, reply)), distance(v))
        },
{
}

/// True of a reply that counts as an answer to a list: the items of a channel's
/// folder, and of the user's own drive any JSON text and that it has no such folder.
pub open spec fn answers(stage: ScanStage, reply: Result<Seq<u8>, Seq<char>>) -> bool {
    match (stage, reply) {
        (ScanStage::OneDrive, Ok(b)) => json::json_bytes(b) is Some,
        (ScanStage::OneDrive, Err(e)) => client::tells_status(e, "404"@),
        (ScanStage::Contents, Ok(b)) => match json::json_bytes(b) {
            Some(j) => drive_children_response_of(j) is Some,
            None => false,
        },
        _ => false,
    }
}

/// A list counts every answer, and it fails only in the end, where there was none:
/// no single drive's failure ends it.
pub proof fn law_list_fails_without_answer(
    v: TranscriptScanV,
    reply: Result<Seq<u8>, Seq<char>>,
    teams: Option<Seq<TeamInfoV>>,
)
    requires
        v.query is None,
        !(v.stage is Failed),
    ensures
        after_reply(v, reply).answered == (v.answered || answers(v.stage, reply)),
        after_reply(v, reply).stage is Failed ==> !v.answered && !answers(v.stage, reply),
        after_teams(v, teams).answered == v.answered,
        after_teams(v, teams).stage is Failed ==> !v.answered,
        v.stage is OneDrive ==> after_reply(v, reply).stage is Teams,
{
}

fn start_scan(limit: usize, query: Option<String>) -> (r: TranscriptScan)
    ensures
        r@ == new_scan(limit, text::opt_text(query)),
        scan_ok(r@),
{
    let limit = clamp_limit(limit);
    let path = match &query {
        None => transcripts_children_path(limit),
        Some(q) => transcripts_search_path(None, q.as_str(), limit),
    };
    let r = TranscriptScan {
        limit,
        query,
        stage: ScanStage::OneDrive,
        answered: false,
        found: Vec::new(),
        channels: Vec::new(),
        asked: 0,
        drives: Vec::new(),
        visited: 0,
        path,
        error: "".to_string(),
    };
    proof {
        assert(transcript_info_views(r.found@) =~= Seq::empty());
        assert(channels::channel_place_views(r.channels@) =~= Seq::empty());
        assert(channels::channel_drive_views(r.drives@) =~= Seq::empty());
    }
    r
}

/// Starts a list of all transcripts: those of the user's own drive and of the channels.
pub fn list_transcripts_data(limit: usize) -> (r: TranscriptScan)
    ensures
        r@ == new_scan(limit, None),
        scan_ok(r@),
{
    start_scan(limit, None)
}

/// Starts a search for transcripts; the error is the text to show.
pub fn search_transcripts_data(query: &str, limit: usize) -> (r: Result<TranscriptScan, String>)
    ensures
        match r {
            Ok(s) => !text::blank(query@) && s@ == new_scan(limit, Some(query@)) && scan_ok(s@),
            Err(e) => text::blank(query@) && e@ == "empty query"@,
        },
{
    if text::is_blank(query) {
        return Err("empty query".to_string());
    }
    Ok(start_scan(limit, Some(query.to_string())))
}

impl TranscriptScan {
    fn fail(&mut self, error: String)
        ensures
            final(self)@ == failed(old(self)@, error@),
    {
        self.stage = ScanStage::Failed;
        self.path = "".to_string();
        self.error = error;
    }

    fn finish(&mut self)
        ensures
            final(self)@ == finished(old(self)@),
    {
        if self.query.is_none() && !self.answered {
            self.fail("no drive answered the transcripts list".to_string());
            return;
        }
        self.stage = ScanStage::Done;
        self.path = "".to_string();
        sort_newest(&mut self.found);
        let ghost sorted = self.found@;
        let n: usize = self.limit;
        self.found.truncate(n);
        proof {
            let all = transcript_info_views(sorted);
            if n < all.len() {
                assert(transcript_info_views(self.found@) =~= all.take(n as int));
            } else {
                assert(transcript_info_views(self.found@) =~= all);
            }
        }
    }

    fn visit(&mut self)
        requires
            1 <= old(self)@.limit <= TRANSCRIPTS_MAX_LIMIT,
        ensures
            final(self)@ == visiting(old(self)@),
    {
        if self.visited < self.drives.len() {
            let d = &self.drives[self.visited];
            assert(self@.drives[self.visited as int] == d@);
            match &self.query {
                None => {
                    self.path = folder_children_path(
                        d.drive_id.as_str(),
                        d.folder_id.as_str(),
                        self.limit,
                    );
                    self.stage = ScanStage::Contents;
                },
                Some(q) => {
                    self.path = transcripts_search_path(
                        Some(d.drive_id.as_str()),
                        q.as_str(),
                        self.limit,
                    );
                    self.stage = ScanStage::Entries;
                },
            }
        } else {
            self.finish();
        }
    }

    fn ask(&mut self)
        requires
            1 <= old(self)@.limit <= TRANSCRIPTS_MAX_LIMIT,
        ensures
            final(self)@ == asking(old(self)@),
    {
        if self.asked < self.channels.len() && self.drives.len() < MAX_CHANNEL_DRIVES {
            let c = &self.channels[self.asked];
            assert(self@.channels[self.asked as int] == c@);
            self.path = channel_files_folder_path(c.team_id.as_str(), c.channel_id.as_str());
            self.stage = ScanStage::Folder;
        } else {
            self.visit();
        }
    }

    fn pass(&mut self)
        requires
            1 <= old(self)@.limit <= TRANSCRIPTS_MAX_LIMIT,
            old(self)@.visited < old(self)@.drives.len(),
        ensures
            final(self)@ == passed(old(self)@),
    {
        let n: usize = self.drives.len();
        assert(self.visited < n);
        self.visited = self.visited + 1;
        self.visit();
    }

    fn add(&mut self, v: &Json, source: &TranscriptSource)
        ensures
            final(self)@ == (TranscriptScanV {
                found: old(self)@.found + transcripts_in(v@, source@),
                ..old(self)@
            }),
    {
        let mut rows = read_transcripts(v, source);
        let ghost before = self.found@;
        let ghost more = rows@;
        self.found.append(&mut rows);
        proof {
            assert(
                transcript_info_views(self.found@) =~= transcript_info_views(before)
                    + transcript_info_views(more)
            );
        }
    }

    /// Takes the teams of the user, or nothing where they could not be fetched.
    pub fn take_teams(&mut self, teams: Option<Vec<TeamInfo>>)
        requires
            scan_ok(old(self)@),
            old(self)@.stage is Teams,
        ensures
            final(self)@ == after_teams(
                old(self)@,
                channels::opt_teams(teams),
            ),
            scan_ok(final(self)@),
    {
        let n: usize = self.channels.len();
        proof {
            assert(self@.channels.len() == n);
            law_scan_in_order(
                self@.limit,
                None,
                self@,
                Err(""@),
                channels::opt_teams(teams),
            );
        }
        self.channels = match teams {
            Some(l) => channels::channel_places(&l),
            None => Vec::new(),
        };
        self.asked = 0;
        self.drives = Vec::new();
        self.visited = 0;
        proof {
            assert(channels::channel_drive_views(self.drives@) =~= Seq::empty());
            if teams is None {
                assert(channels::channel_place_views(self.channels@) =~= Seq::empty());
            }
        }
        self.ask();
    }

    /// Takes the reply to the request.
    pub fn take_reply(&mut self, reply: Result<Vec<u8>, String>)
        requires
            scan_ok(old(self)@),
        ensures
            final(self)@ == after_reply(old(self)@, reply_view(reply)),
            scan_ok(final(self)@),
    {
        let n: usize = self.channels.len();
        proof {
            assert(self@.channels.len() == n);
            law_scan_in_order(self@.limit, None, self@, reply_view(reply), None);
        }
        match self.stage {
            ScanStage::OneDrive => {
                self.take_one_drive(reply);
            },
            ScanStage::Folder => {
                self.take_folder(reply);
            },
            ScanStage::Contents => {
                self.take_contents(reply);
            },
            ScanStage::Entries => {
                self.take_entries(reply);
            },
            _ => {},
        }
    }

    fn take_one_drive(&mut self, reply: Result<Vec<u8>, String>)
        ensures
            final(self)@ == after_one_drive(old(self)@, reply_view(reply)),
    {
        match reply {
            Err(e) => if self.query.is_some() {
                self.fail(e);
            } else {
                self.stage = ScanStage::Teams;
                self.path = "".to_string();
                self.answered = self.answered || is_not_found(e.as_str());
            },
            Ok(b) => match json::parse_json_bytes(b.as_slice()) {
                None => if self.query.is_some() {
                    self.fail("Failed to parse transcripts search response".to_string());
                } else {
                    self.stage = ScanStage::Teams;
                    self.path = "".to_string();
                },
                Some(j) => {
                    self.add(&j, &TranscriptSource::OneDrive);
                    self.answered = true;
                    self.stage = ScanStage::Teams;
                    self.path = "".to_string();
                },
            },
        }
    }

    fn take_folder(&mut self, reply: Result<Vec<u8>, String>)
        requires
            1 <= old(self)@.limit <= TRANSCRIPTS_MAX_LIMIT,
            old(self)@.asked < old(self)@.channels.len(),
        ensures
            final(self)@ == after_folder(old(self)@, reply_view(reply)),
    {
        let n: usize = self.channels.len();
        assert(self.asked < n);
        assert(self@.channels[self.asked as int] == self.channels@[self.asked as int]@);
        let found = read_drive(reply, &self.channels[self.asked]);
        match found {
            Some(d) => {
                let ghost before = self.drives@;
                self.drives.push(d);
                proof {
                    assert(channels::channel_drive_views(self.drives@)
                        =~= channels::channel_drive_views(before).push(d@));
                }
            },
            None => {},
        }
        self.asked = self.asked + 1;
        self.ask();
    }

    fn take_contents(&mut self, reply: Result<Vec<u8>, String>)
        requires
            1 <= old(self)@.limit <= TRANSCRIPTS_MAX_LIMIT,
            old(self)@.visited < old(self)@.drives.len(),
        ensures
            final(self)@ == after_contents(old(self)@, reply_view(reply)),
    {
        let items = match read_items(reply) {
            Some(x) => x,
            None => {
                self.pass();
                return;
            },
        };
        self.answered = true;
        match find_folder(&items) {
            Some(id) => {
                assert(self@.drives[self.visited as int] == self.drives@[self.visited as int]@);
                self.path = folder_children_path(
                    self.drives[self.visited].drive_id.as_str(),
                    id.as_str(),
                    self.limit,
                );
                self.stage = ScanStage::Entries;
            },
            None => {
                self.pass();
            },
        }
    }

    fn take_entries(&mut self, reply: Result<Vec<u8>, String>)
        requires
            1 <= old(self)@.limit <= TRANSCRIPTS_MAX_LIMIT,
            old(self)@.visited < old(self)@.drives.len(),
        ensures
            final(self)@ == after_entries(old(self)@, reply_view(reply)),
    {
        if let Ok(b) = reply {
            if let Some(j) = json::parse_json_bytes(b.as_slice()) {
                assert(self@.drives[self.visited as int] == self.drives@[self.visited as int]@);
                let source = TranscriptSource::Channel {
                    team: self.drives[self.visited].team.clone(),
                    channel: self.drives[self.visited].channel.clone(),
                };
                self.add(&j, &source);
            }
        }
        self.pass();
    }
}

/// The drive of a channel, by the reply with its folder.
fn read_drive(reply: Result<Vec<u8>, String>, place: &ChannelPlace) -> (r: Option<ChannelDrive>)
    ensures
        match r {
            Some(d) => drive_in(reply_view(reply), place@) == Some(d@),
            None => drive_in(reply_view(reply), place@) is None,
        },
{
    let b = match reply {
        Ok(b) => b,
        Err(_) => {
            return None;
        },
    };
    let j = match json::parse_json_bytes(b.as_slice()) {
        Some(j) => j,
        None => {
            return None;
        },
    };
    let folder = match read_drive_item(&j) {
        Some(f) => f,
        None => {
            return None;
        },
    };
    match (&folder.parent, &folder.id) {
        (Some(parent), Some(folder_id)) => match &parent.drive_id {
            Some(drive_id) => Some(
                ChannelDrive {
                    team: place.team.clone(),
                    channel: place.channel.clone(),
                    drive_id: drive_id.clone(),
                    folder_id: folder_id.clone(),
                },
            ),
            None => None,
        },
        _ => None,
    }
}

fn read_items(reply: Result<Vec<u8>, String>) -> (r: Option<DriveChildrenResponse>)
    ensures
        match r {
            Some(x) => reply_view(reply) matches Ok(b) && json::json_bytes(b) matches Some(j)
                && drive_children_response_of(j) == Some(x@),
            None => reply_view(reply) matches Ok(b) ==> (json::json_bytes(b) matches Some(j)
                ==> drive_children_response_of(j) is None),
        },
{
    match reply {
        Ok(b) => match json::parse_json_bytes(b.as_slice()) {
            Some(j) => read_drive_children_response(&j),
            None => None,
        },
        Err(_) => None,
    }
}

/// The id of the folder with the entries.
fn find_folder(items: &DriveChildrenResponse) -> (r: Option<String>)
    ensures
        text::opt_text(r) == match folder_from(items@.value, 0) {
            Some(f) => f.id,
            None => None,
        },
{
    let ghost all = items@.value;
    let mut i: usize = 0;
    while i < items.value.len()
        invariant
            i <= items.value@.len(),
            all == drive_item_views(items.value@),
            folder_from(all, 0) == folder_from(all, i as int),
        decreases items.value@.len() - i,
    {
        assert(all[i as int] == items.value@[i as int]@);
        let named = match &items.value[i].name {
            Some(n) => text::same(n.as_str(), TRANSCRIPTS_FOLDER),
            None => false,
        };
        if items.value[i].folder && named {
            return text::copy_opt(&items.value[i].id);
        }
        i = i + 1;
    }
    None
}

// -- What is read --

/// What is read of a [`FileFacet`] stands in the members of these names, and it is read
/// where they hold what they should.
pub proof fn law_file_facet_reads_its_members(v: JsonV)
    requires
        v is Obj,
    ensures
        match file_facet_of(v) {
            Some(x) => {
                &&& x.mime_type == json::str_of(json::get_of(v, "mimeType"@))
            },
            None => !(json::opt_text_member(json::get_of(v, "mimeType"@)) is Some),
        },
{
}

/// What is read of a [`ParentRef`] stands in the members of these names, and it is read
/// where they hold what they should.
pub proof fn law_parent_ref_reads_its_members(v: JsonV)
    requires
        v is Obj,
    ensures
        match parent_ref_of(v) {
            Some(x) => {
                &&& x.drive_id == json::str_of(json::get_of(v, "driveId"@))
            },
            None => !(json::opt_text_member(json::get_of(v, "driveId"@)) is Some),
        },
{
}

/// What is read of a [`DriveItem`] stands in the members of these names, and it is read
/// where they hold what they should.
pub proof fn law_drive_item_reads_its_members(v: JsonV)
    requires
        v is Obj,
    ensures
        match drive_item_of(v) {
            Some(x) => {
                &&& x.id == json::str_of(json::get_of(v, "id"@))
                &&& x.name == json::str_of(json::get_of(v, "name"@))
                &&& x.size == json::u64_of(json::get_of(v, "size"@))
                &&& x.web_url == json::str_of(json::get_of(v, "webUrl"@))
                &&& x.created == json::str_of(json::get_of(v, "createdDateTime"@))
                &&& x.modified == json::str_of(json::get_of(v, "lastModifiedDateTime"@))
                &&& (json::get_of(v, "file"@) is None
                    || json::get_of(v, "file"@) == Some(JsonV::Null)) ==> x.file is None
                &&& json::get_of(v, "file"@) matches Some(w) ==> w != JsonV::Null ==> x.file is Some
                    && file_facet_of(w) == x.file
                &&& x.folder <==> json::get_of(v, "folder"@) is Some
                    && json::get_of(v, "folder"@) != Some(JsonV::Null)
                &&& (json::get_of(v, "parentReference"@) is None
                    || json::get_of(v, "parentReference"@) == Some(JsonV::Null))
                    ==> x.parent is None
                &&& json::get_of(v, "parentReference"@) matches Some(w) ==> w != JsonV::Null
                    ==> x.parent is Some && parent_ref_of(w) == x.parent
            },
            None => !(json::opt_text_member(json::get_of(v, "id"@)) is Some
                && json::opt_text_member(json::get_of(v, "name"@)) is Some
                && json::opt_u64_member(json::get_of(v, "size"@)) is Some
                && json::opt_text_member(json::get_of(v, "webUrl"@)) is Some
                && json::opt_text_member(json::get_of(v, "createdDateTime"@)) is Some
                && json::opt_text_member(json::get_of(v, "lastModifiedDateTime"@)) is Some
                && opt_file_facet_member(json::get_of(v, "file"@)) is Some
                && opt_parent_ref_member(json::get_of(v, "parentReference"@)) is Some),
        },
{
}

// The entries of a list, in their order.
proof fn lemma_drive_item_list_entries(a: Seq<JsonV>)
    ensures
        drive_item_list(a) matches Some(l) ==> l.len() == a.len() && forall|i: int|
            0 <= i < a.len() ==> drive_item_of(a[i]) == Some(#[trigger] l[i]),
    decreases a.len(),
{
    if a.len() > 0 {
        lemma_drive_item_list_entries(a.drop_last());
        if let Some(l) = drive_item_list(a) {
            assert forall|i: int| 0 <= i < a.len() implies drive_item_of(a[i])
                == Some(#[trigger] l[i]) by {
                if i < a.len() - 1 {
                    let before = drive_item_list(a.drop_last())->0;
                    assert(l[i] == before[i]);
                    assert(a.drop_last()[i] == a[i]);
                }
            }
        }
    }
}

/// What is read of a [`DriveChildrenResponse`] stands in the members of these names, and it is read
/// where they hold what they should.
pub proof fn law_drive_children_response_reads_its_members(v: JsonV)
    requires
        v is Obj,
    ensures
        match drive_children_response_of(v) {
            Some(x) => {
                &&& json::get_of(v, "value"@) is None ==> x.value.len() == 0
                &&& json::get_of(v, "value"@) is Some
                    ==> (json::arr_of(json::get_of(v, "value"@)) matches Some(a)
                    && x.value.len() == a.len() && forall|i: int| 0 <= i < a.len()
                    ==> drive_item_of(a[i]) == Some(#[trigger] x.value[i]))
            },
            None => !(drive_item_list_default(json::get_of(v, "value"@)) is Some),
        },
{
    if let Some(JsonV::Arr(a)) = json::get_of(v, "value"@) {
        lemma_drive_item_list_entries(a);
    }
}

// -- What a scan finds --

/// At most fifty are asked for, and at least one.
pub proof fn law_limit_is_kept_within_bounds(limit: int)
    ensures
        limit < 1 ==> clamped(limit) == 1,
        1 <= limit <= 50 ==> clamped(limit) == limit,
        limit > 50 ==> clamped(limit) == 50,
{
}

/// A transcript is told by its kind, or by the end of its name, in either case of its
/// letters.
pub proof fn law_transcripts_by_kind_or_name(stem: Seq<char>, ending: Seq<char>,
    mime: Option<Seq<char>>)
    requires
        !ending.contains('.'),
    ensures
        ({
            let name = stem + Seq::empty().push('.') + ending;
            transcript_name(name, mime) <==> (mime matches Some(m) && text::lowered(m)
                == "text/vtt"@) || text::lowered(ending) == "vtt"@
        }),
        !ending.contains('.') && mime is None ==> !transcript_name(ending, mime),
{
    let name = stem + Seq::empty().push('.') + ending;
    text::law_parts_at_a_character(stem, ending, '.');
    assert(name[stem.len() as int] == '.');
    assert(name.contains('.'));
}

/// What is shown of a transcript is what the drive says of it, and where it was found.
pub proof fn law_transcript_is_shown_as_it_is(item: DriveItemV, source: TranscriptSourceV)
    ensures
        transcript_row(item, source) matches Some(r) ==> {
            &&& item.id == Some(r.id) && !text::blank(r.id)
            &&& !item.folder
            &&& item.name matches Some(n) ==> r.name == n
            &&& item.name is None ==> r.name == "[unnamed]"@
            &&& item.size matches Some(n) ==> r.size == n
            &&& item.size is None ==> r.size == 0
            &&& item.file matches Some(f) && r.mime == f.mime_type
            &&& r.web_url == item.web_url
            &&& item.parent matches Some(p) ==> r.drive_id == p.drive_id
            &&& item.parent is None ==> r.drive_id is None
            &&& r.created == item.created
            &&& r.modified == item.modified
            &&& r.source == source
        },
        item.folder ==> transcript_row(item, source) is None,
        item.file is None ==> transcript_row(item, source) is None,
        item.id is None ==> transcript_row(item, source) is None,
{
}

/// What is found in a folder is listed in its order.
pub proof fn law_transcripts_keep_the_order_of_their_folder(a: Seq<DriveItemV>, b: Seq<DriveItemV>,
    source: TranscriptSourceV)
    ensures
        transcript_rows(a + b, source) == transcript_rows(a, source) + transcript_rows(b, source),
    decreases b.len(),
{
    if b.len() == 0 {
        assert(a + b =~= a);
        assert(transcript_rows(a, source) + transcript_rows(b, source)
            =~= transcript_rows(a, source));
    } else {
        law_transcripts_keep_the_order_of_their_folder(a, b.drop_last(), source);
        assert((a + b).drop_last() =~= a + b.drop_last());
        assert((a + b).last() == b.last());
        assert(transcript_rows(a + b, source) =~= transcript_rows(a, source)
            + transcript_rows(b, source));
    }
}

/// A scan looks at one's own drive first, by listing or by searching, and then at the
/// drives of channels.
pub proof fn law_scan_begins_at_home(limit: usize, query: Seq<char>)
    ensures
        new_scan(limit, None).stage is OneDrive,
        new_scan(limit, None).path == "/me/drive/root:/Recordings:/children?$top="@ + text::decimal(
            clamped(limit as int) as nat,
        ),
        new_scan(limit, Some(query)).stage is OneDrive,
        new_scan(limit, Some(query)).path == "/me/drive"@ + "/search(q='"@ + web::encoded(
            text::replaced(text::trimmed(query), '\'', "''"@),
        ) + "')?$top="@ + text::decimal(clamped(limit as int) as nat),
        new_scan(limit, None).found.len() == 0,
        new_scan(limit, None).limit == clamped(limit as int),
        !new_scan(limit, None).answered,
{
    assert(1 <= clamped(limit as int) <= 50);
    assert(clamped(clamped(limit as int)) == clamped(limit as int));
}

/// Paths name the drive and the folder that are asked for.
pub proof fn law_paths_name_drive_and_folder(
    drive_id: Seq<char>,
    item_id: Seq<char>,
    team_id: Seq<char>,
    channel_id: Seq<char>,
    query: Seq<char>,
    limit: int,
)
    ensures
        children_path(drive_id, item_id, limit) == "/drives/"@ + drive_id + "/items/"@ + item_id
            + "/children?$top="@ + text::decimal(clamped(limit) as nat),
        files_folder(team_id, channel_id) == "/teams/"@ + team_id + "/channels/"@ + channel_id
            + "/filesFolder"@,
        search_path(Some(drive_id), query, limit) == "/drives/"@ + drive_id + "/root"@
            + "/search(q='"@ + web::encoded(
            text::replaced(text::trimmed(query), '\'', "''"@),
        ) + "')?$top="@ + text::decimal(clamped(limit) as nat),
{
}

/// What a drive answers is kept behind what was found before; a search whose first answer
/// is missing has failed, a list goes on.
pub proof fn law_answers_are_kept(v: TranscriptScanV, b: Seq<u8>, j: JsonV, e: Seq<char>)
    ensures
        v.stage is OneDrive && json::json_bytes(b) == Some(j) ==> ({
            let w = after_reply(v, Ok(b));
            &&& w.stage is Teams
            &&& w.answered
            &&& w.found == v.found + transcripts_in(j, TranscriptSourceV::OneDrive)
        }),
        v.stage is OneDrive && v.query is Some ==> after_reply(v, Err(e)).stage is Failed
            && after_reply(v, Err(e)).error == e,
        v.stage is OneDrive && v.query is None ==> after_reply(v, Err(e)).stage is Teams
            && after_reply(v, Err(e)).found == v.found,
        drive_children_response_of(j) is None
            ==> transcripts_in(j, TranscriptSourceV::OneDrive).len() == 0,
        drive_children_response_of(j) matches Some(x)
            ==> transcripts_in(j, TranscriptSourceV::OneDrive) == transcript_rows(
            x.value,
            TranscriptSourceV::OneDrive,
        ),
{
}

/// A finished list holds what was found, the newest first, and no more than was asked
/// for; one that no drive answered has failed.
pub proof fn law_newest_are_given(v: TranscriptScanV)
    ensures
        v.query is None && !v.answered ==> finished(v).stage is Failed,
        v.query is Some || v.answered ==> ({
            let w = finished(v);
            let all = order::newest_first(v.found, by_stamp());
            &&& w.stage is Done
            &&& w.found.is_prefix_of(all)
            &&& w.found.len() == if v.limit < v.found.len() {
                v.limit as nat
            } else {
                v.found.len()
            }
        }),
        forall|r: TranscriptInfoV|
            (#[trigger] by_stamp()(r)).modified == r.modified && by_stamp()(r).created == r.created
                && by_stamp()(r).name == r.name,
{
    let all = order::newest_first(v.found, by_stamp());
    order::law_newest_first_sorts(v.found, by_stamp());
    let w = finished(v);
    if v.query is Some || v.answered {
        assert(w.found =~= all.subrange(0, w.found.len() as int));
    }
}

/// The channels of the teams are asked one by one for their folders, up to 50 drives,
/// which are then looked through one by one.
pub proof fn law_channels_are_asked_in_turn(v: TranscriptScanV)
    ensures
        v.asked < v.channels.len() && v.drives.len() < 50 ==> asking(v).stage is Folder
            && asking(v).path == "/teams/"@ + v.channels[v.asked as int].team_id + "/channels/"@
            + v.channels[v.asked as int].channel_id + "/filesFolder"@,
        !(v.asked < v.channels.len() && v.drives.len() < 50) && v.visited < v.drives.len()
            && v.query is None ==> asking(v).stage is Contents && asking(v).path == children_path(
            v.drives[v.visited as int].drive_id,
            v.drives[v.visited as int].folder_id,
            v.limit as int,
        ),
        !(v.asked < v.channels.len() && v.drives.len() < 50) && v.visited < v.drives.len() ==> (
        v.query matches Some(q) ==> asking(v).stage is Entries && asking(v).path == search_path(
            Some(v.drives[v.visited as int].drive_id),
            q,
            v.limit as int,
        )),
{
}

/// The drive of a channel is that of its folder, and stands with the channel's own names.
pub proof fn law_drive_is_that_of_the_folder(b: Seq<u8>, j: JsonV, folder: DriveItemV,
    place: ChannelPlaceV)
    requires
        json::json_bytes(b) == Some(j),
        drive_item_of(j) == Some(folder),
    ensures
        drive_in(Ok(b), place) matches Some(d) ==> {
            &&& d.team == place.team
            &&& d.channel == place.channel
            &&& folder.id == Some(d.folder_id)
            &&& folder.parent matches Some(p) && p.drive_id == Some(d.drive_id)
        },
        folder.id is Some && (folder.parent matches Some(p) && p.drive_id is Some) ==> drive_in(
            Ok(b),
            place,
        ) is Some,
        drive_in(Err(Seq::empty()), place) is None,
{
}

/// The folder that is looked through is the first one of that name.
pub proof fn law_first_folder_of_the_name(items: Seq<DriveItemV>, i: int)
    requires
        0 <= i < items.len(),
        items[i].folder,
        items[i].name == Some("Recordings"@),
        forall|j: int|
            0 <= j < i ==> !((#[trigger] items[j]).folder && items[j].name == Some("Recordings"@)),
    ensures
        folder_from(items, 0) == Some(items[i]),
{
    lemma_folder_from(items, 0, i);
}

proof fn lemma_folder_from(items: Seq<DriveItemV>, from: int, i: int)
    requires
        0 <= from <= i < items.len(),
        items[i].folder,
        items[i].name == Some("Recordings"@),
        forall|j: int|
            0 <= j < i ==> !((#[trigger] items[j]).folder && items[j].name == Some("Recordings"@)),
    ensures
        folder_from(items, from) == Some(items[i]),
    decreases i - from,
{
    if from < i {
        lemma_folder_from(items, from + 1, i);
    }
}

/// What a channel's folder holds is kept behind what was found before, under the names of
/// the channel, and the next drive is looked through.
pub proof fn law_entries_are_kept_by_channel(v: TranscriptScanV, b: Seq<u8>, j: JsonV)
    requires
        v.stage is Entries,
        v.visited + 1 < v.drives.len() <= 50,
        json::json_bytes(b) == Some(j),
    ensures
        ({
            let w = after_reply(v, Ok(b));
            let d = v.drives[v.visited as int];
            &&& w.found == v.found + transcripts_in(
                j,
                TranscriptSourceV::Channel { team: d.team, channel: d.channel },
            )
            &&& w.visited == v.visited + 1
        }),
        after_reply(v, Err(Seq::empty())).found == v.found,
{
}

} // verus!
