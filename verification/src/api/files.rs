//! Shared files of chats and channels: listing, uploading, versions and links.
use crate::api::teams;
use crate::api::teams::{TeamInfo, TeamInfoV};
use crate::encoding;
use crate::json;
use crate::json::{Fields, FieldsV, Items, Json, JsonV};
use crate::text;
use crate::web;
use vstd::utf8::{encode_utf8, is_ascii_chars};
use vstd::prelude::*;

verus! {

/// What an item says of its file.
pub struct FileFacet {
    pub mime_type: Option<String>,
}

/// The model of [`FileFacet`].
pub struct FileFacetV {
    pub mime_type: Option<Seq<char>>,
}

impl View for FileFacet {
    type V = FileFacetV;

    open spec fn view(&self) -> FileFacetV {
        FileFacetV {
            mime_type: text::opt_text(self.mime_type),
        }
    }
}

/// An optional [`FileFacet`] by its model.
pub open spec fn opt_file_facet(o: Option<FileFacet>) -> Option<FileFacetV> {
    match o {
        Some(x) => Some(x@),
        None => None,
    }
}

/// How a JSON value reads as a [`FileFacet`]; nothing where it does not.
pub open spec fn file_facet_of(v: JsonV) -> Option<FileFacetV> {
    if !json::record_form(v, 1, 1) {
        None
    } else {
        match json::opt_text_member(json::member_of(v, "mimeType"@, 0)) {
            Some(mime_type) => Some(FileFacetV { mime_type }),
            None => None,
        }
    }
}

/// Reads a [`FileFacet`].
pub fn read_file_facet(v: &Json) -> (r: Option<FileFacet>)
    ensures
        match r {
            Some(x) => file_facet_of(v@) == Some(x@),
            None => file_facet_of(v@) is None,
        },
{
    if !json::has_record_form(v, 1, 1) {
        return None;
    }
    let mime_type = match json::read_opt_text(json::member(v, "mimeType", 0)) {
        Some(x) => x,
        None => {
            return None;
        },
    };
    Some(FileFacet { mime_type })
}

/// How an optional member reads as a [`FileFacet`].
pub open spec fn opt_file_facet_member(m: Option<JsonV>) -> Option<Option<FileFacetV>> {
    match m {
        None => Some(None),
        Some(JsonV::Null) => Some(None),
        Some(j) => match file_facet_of(j) {
            Some(x) => Some(Some(x)),
            None => None,
        },
    }
}

fn read_opt_file_facet(m: Option<&Json>) -> (r: Option<Option<FileFacet>>)
    ensures
        match r {
            Some(o) => opt_file_facet_member(json::opt_json(m)) == Some(opt_file_facet(o)),
            None => opt_file_facet_member(json::opt_json(m)) is None,
        },
{
    match m {
        None => Some(None),
        Some(j) => if j.is_null() {
            Some(None)
        } else {
            match read_file_facet(j) {
                Some(x) => Some(Some(x)),
                None => None,
            }
        },
    }
}
/// Where an item lives.
pub struct ParentRef {
    pub drive_id: Option<String>,
}

/// The model of [`ParentRef`].
pub struct ParentRefV {
    pub drive_id: Option<Seq<char>>,
}

impl View for ParentRef {
    type V = ParentRefV;

    open spec fn view(&self) -> ParentRefV {
        ParentRefV {
            drive_id: text::opt_text(self.drive_id),
        }
    }
}

/// An optional [`ParentRef`] by its model.
pub open spec fn opt_parent_ref(o: Option<ParentRef>) -> Option<ParentRefV> {
    match o {
        Some(x) => Some(x@),
        None => None,
    }
}

/// How a JSON value reads as a [`ParentRef`]; nothing where it does not.
pub open spec fn parent_ref_of(v: JsonV) -> Option<ParentRefV> {
    if !json::record_form(v, 1, 1) {
        None
    } else {
        match json::opt_text_member(json::member_of(v, "driveId"@, 0)) {
            Some(drive_id) => Some(ParentRefV { drive_id }),
            None => None,
        }
    }
}

/// Reads a [`ParentRef`].
pub fn read_parent_ref(v: &Json) -> (r: Option<ParentRef>)
    ensures
        match r {
            Some(x) => parent_ref_of(v@) == Some(x@),
            None => parent_ref_of(v@) is None,
        },
{
    if !json::has_record_form(v, 1, 1) {
        return None;
    }
    let drive_id = match json::read_opt_text(json::member(v, "driveId", 0)) {
        Some(x) => x,
        None => {
            return None;
        },
    };
    Some(ParentRef { drive_id })
}

/// How an optional member reads as a [`ParentRef`].
pub open spec fn opt_parent_ref_member(m: Option<JsonV>) -> Option<Option<ParentRefV>> {
    match m {
        None => Some(None),
        Some(JsonV::Null) => Some(None),
        Some(j) => match parent_ref_of(j) {
            Some(x) => Some(Some(x)),
            None => None,
        },
    }
}

fn read_opt_parent_ref(m: Option<&Json>) -> (r: Option<Option<ParentRef>>)
    ensures
        match r {
            Some(o) => opt_parent_ref_member(json::opt_json(m)) == Some(opt_parent_ref(o)),
            None => opt_parent_ref_member(json::opt_json(m)) is None,
        },
{
    match m {
        None => Some(None),
        Some(j) => if j.is_null() {
            Some(None)
        } else {
            match read_parent_ref(j) {
                Some(x) => Some(Some(x)),
                None => None,
            }
        },
    }
}
/// An item of a drive as the service sends it.
pub struct DriveItem {
    pub id: String,
    pub name: Option<String>,
    pub size: Option<u64>,
    pub etag: Option<String>,
    pub web_url: Option<String>,
    pub web_dav_url: Option<String>,
    pub download_url: Option<String>,
    pub created: Option<String>,
    pub modified: Option<String>,
    pub file: Option<FileFacet>,
    pub folder: bool,
    pub parent: Option<ParentRef>,
}

/// The model of [`DriveItem`].
pub struct DriveItemV {
    pub id: Seq<char>,
    pub name: Option<Seq<char>>,
    pub size: Option<u64>,
    pub etag: Option<Seq<char>>,
    pub web_url: Option<Seq<char>>,
    pub web_dav_url: Option<Seq<char>>,
    pub download_url: Option<Seq<char>>,
    pub created: Option<Seq<char>>,
    pub modified: Option<Seq<char>>,
    pub file: Option<FileFacetV>,
    pub folder: bool,
    pub parent: Option<ParentRefV>,
}

impl View for DriveItem {
    type V = DriveItemV;

    open spec fn view(&self) -> DriveItemV {
        DriveItemV {
            id: self.id@,
            name: text::opt_text(self.name),
            size: self.size,
            etag: text::opt_text(self.etag),
            web_url: text::opt_text(self.web_url),
            web_dav_url: text::opt_text(self.web_dav_url),
            download_url: text::opt_text(self.download_url),
            created: text::opt_text(self.created),
            modified: text::opt_text(self.modified),
            file: opt_file_facet(self.file),
            folder: self.folder,
            parent: opt_parent_ref(self.parent),
        }
    }
}

/// A list of [`DriveItem`] by their models.
pub open spec fn drive_item_views(v: Seq<DriveItem>) -> Seq<DriveItemV> {
    Seq::new(v.len(), |i: int| v[i]@)
}

/// How a JSON value reads as a [`DriveItem`]; nothing where it does not.
pub open spec fn drive_item_of(v: JsonV) -> Option<DriveItemV> {
    if !json::record_form(v, 12, 12) {
        None
    } else {
        match (
            json::str_of(json::member_of(v, "id"@, 0)),
            json::opt_text_member(json::member_of(v, "name"@, 1)),
            json::opt_u64_member(json::member_of(v, "size"@, 2)),
            json::opt_text_member(json::member_of(v, "eTag"@, 3)),
            json::opt_text_member(json::member_of(v, "webUrl"@, 4)),
            json::opt_text_member(json::member_of(v, "webDavUrl"@, 5)),
            json::opt_text_member(json::member_of(v, "@microsoft.graph.downloadUrl"@, 6)),
            json::opt_text_member(json::member_of(v, "createdDateTime"@, 7)),
            json::opt_text_member(json::member_of(v, "lastModifiedDateTime"@, 8)),
            opt_file_facet_member(json::member_of(v, "file"@, 9)),
            Some(json::opt_any_member(json::member_of(v, "folder"@, 10)) is Some),
            opt_parent_ref_member(json::member_of(v, "parentReference"@, 11)),
        ) {
            (
                Some(id),
                Some(name),
                Some(size),
                Some(etag),
                Some(web_url),
                Some(web_dav_url),
                Some(download_url),
                Some(created),
                Some(modified),
                Some(file),
                Some(folder),
                Some(parent),
            ) => Some(
                DriveItemV {
                    id,
                    name,
                    size,
                    etag,
                    web_url,
                    web_dav_url,
                    download_url,
                    created,
                    modified,
                    file,
                    folder,
                    parent,
                },
            ),
            _ => None,
        }
    }
}

/// Reads a [`DriveItem`].
pub fn read_drive_item(v: &Json) -> (r: Option<DriveItem>)
    ensures
        match r {
            Some(x) => drive_item_of(v@) == Some(x@),
            None => drive_item_of(v@) is None,
        },
{
    if !json::has_record_form(v, 12, 12) {
        return None;
    }
    let id = match json::as_text(json::member(v, "id", 0)) {
        Some(x) => x,
        None => {
            return None;
        },
    };
    let name = match json::read_opt_text(json::member(v, "name", 1)) {
        Some(x) => x,
        None => {
            return None;
        },
    };
    let size = match json::read_opt_u64(json::member(v, "size", 2)) {
        Some(x) => x,
        None => {
            return None;
        },
    };
    let etag = match json::read_opt_text(json::member(v, "eTag", 3)) {
        Some(x) => x,
        None => {
            return None;
        },
    };
    let web_url = match json::read_opt_text(json::member(v, "webUrl", 4)) {
        Some(x) => x,
        None => {
            return None;
        },
    };
    let web_dav_url = match json::read_opt_text(json::member(v, "webDavUrl", 5)) {
        Some(x) => x,
        None => {
            return None;
        },
    };
    let download_url = match json::read_opt_text(json::member(
        v, "@microsoft.graph.downloadUrl", 6),
    ) {
        Some(x) => x,
        None => {
            return None;
        },
    };
    let created = match json::read_opt_text(json::member(v, "createdDateTime", 7)) {
        Some(x) => x,
        None => {
            return None;
        },
    };
    let modified = match json::read_opt_text(json::member(v, "lastModifiedDateTime", 8)) {
        Some(x) => x,
        None => {
            return None;
        },
    };
    let file = match read_opt_file_facet(json::member(v, "file", 9)) {
        Some(x) => x,
        None => {
            return None;
        },
    };
    let folder = match Some(json::read_opt_any(json::member(v, "folder", 10)).is_some()) {
        Some(x) => x,
        None => {
            return None;
        },
    };
    let parent = match read_opt_parent_ref(json::member(v, "parentReference", 11)) {
        Some(x) => x,
        None => {
            return None;
        },
    };
    Some(
        DriveItem {
            id,
            name,
            size,
            etag,
            web_url,
            web_dav_url,
            download_url,
            created,
            modified,
            file,
            folder,
            parent,
        },
    )
}

/// How a list of JSON values reads as a list of [`DriveItem`]: all of them or none.
pub open spec fn drive_item_list(a: Seq<JsonV>) -> Option<Seq<DriveItemV>>
    decreases a.len(),
{
    if a.len() == 0 {
        Some(Seq::empty())
    } else {
        match (drive_item_list(a.drop_last()), drive_item_of(a.last())) {
            (Some(l), Some(x)) => Some(l.push(x)),
            _ => None,
        }
    }
}

proof fn lemma_drive_item_list_prefix(a: Seq<JsonV>, i: int)
    requires
        0 <= i <= a.len(),
        drive_item_list(a.take(i)) is None,
    ensures
        drive_item_list(a) is None,
    decreases a.len() - i,
{
    if i < a.len() {
        assert(a.take(i + 1).drop_last() =~= a.take(i));
        lemma_drive_item_list_prefix(a, i + 1);
    } else {
        assert(a.take(i) =~= a);
    }
}

fn read_drive_item_list(a: &Vec<Json>) -> (r: Option<Vec<DriveItem>>)
    ensures
        match r {
            Some(l) => drive_item_list(json::items_view(a@)) == Some(drive_item_views(l@)),
            None => drive_item_list(json::items_view(a@)) is None,
        },
{
    let ghost all = json::items_view(a@);
    let mut out: Vec<DriveItem> = Vec::new();
    let mut i: usize = 0;
    proof {
        assert(all.take(0) =~= Seq::empty());
        assert(drive_item_views(out@) =~= Seq::empty());
    }
    while i < a.len()
        invariant
            i <= a@.len(),
            all == json::items_view(a@),
            drive_item_list(all.take(i as int)) == Some(drive_item_views(out@)),
        decreases a@.len() - i,
    {
        proof {
            assert(all.take(i + 1).drop_last() =~= all.take(i as int));
            assert(all.take(i + 1).last() == a@[i as int]@);
        }
        match read_drive_item(&a[i]) {
            Some(x) => {
                let ghost before = out@;
                out.push(x);
                proof {
                    assert(drive_item_views(out@) =~= drive_item_views(before).push(x@));
                }
            },
            None => {
                proof {
                    lemma_drive_item_list_prefix(all, i + 1);
                }
                return None;
            },
        }
        i = i + 1;
    }
    proof {
        assert(all.take(i as int) =~= all);
    }
    Some(out)
}

/// How a required list member reads.
pub open spec fn drive_item_list_member(m: Option<JsonV>) -> Option<Seq<DriveItemV>> {
    match m {
        Some(JsonV::Arr(a)) => drive_item_list(a),
        _ => None,
    }
}

fn read_drive_item_list_member(m: Option<&Json>) -> (r: Option<Vec<DriveItem>>)
    ensures
        match r {
            Some(l) => drive_item_list_member(json::opt_json(m)) == Some(drive_item_views(l@)),
            None => drive_item_list_member(json::opt_json(m)) is None,
        },
{
    match m {
        Some(Json::Arr(a)) => {
            proof {
                json::lemma_arr_view(*a);
            }
            read_drive_item_list(a)
        },
        _ => None,
    }
}
/// The reply to a request for a folder's items.
pub struct DriveChildrenResponse {
    pub value: Vec<DriveItem>,
}

/// The model of [`DriveChildrenResponse`].
pub struct DriveChildrenResponseV {
    pub value: Seq<DriveItemV>,
}

impl View for DriveChildrenResponse {
    type V = DriveChildrenResponseV;

    open spec fn view(&self) -> DriveChildrenResponseV {
        DriveChildrenResponseV {
            value: drive_item_views(self.value@),
        }
    }
}

/// How a JSON value reads as a [`DriveChildrenResponse`]; nothing where it does not.
pub open spec fn drive_children_response_of(v: JsonV) -> Option<DriveChildrenResponseV> {
    if !json::record_form(v, 1, 1) {
        None
    } else {
        match drive_item_list_member(json::member_of(v, "value"@, 0)) {
            Some(value) => Some(DriveChildrenResponseV { value }),
            None => None,
        }
    }
}

/// Reads a [`DriveChildrenResponse`].
pub fn read_drive_children_response(v: &Json) -> (r: Option<DriveChildrenResponse>)
    ensures
        match r {
            Some(x) => drive_children_response_of(v@) == Some(x@),
            None => drive_children_response_of(v@) is None,
        },
{
    if !json::has_record_form(v, 1, 1) {
        return None;
    }
    let value = match read_drive_item_list_member(json::member(v, "value", 0)) {
        Some(x) => x,
        None => {
            return None;
        },
    };
    Some(DriveChildrenResponse { value })
}
/// An attachment of a message.
pub struct GraphAttachment {
    pub content_type: Option<String>,
    pub content_url: Option<String>,
    pub name: Option<String>,
}

/// The model of [`GraphAttachment`].
pub struct GraphAttachmentV {
    pub content_type: Option<Seq<char>>,
    pub content_url: Option<Seq<char>>,
    pub name: Option<Seq<char>>,
}

impl View for GraphAttachment {
    type V = GraphAttachmentV;

    open spec fn view(&self) -> GraphAttachmentV {
        GraphAttachmentV {
            content_type: text::opt_text(self.content_type),
            content_url: text::opt_text(self.content_url),
            name: text::opt_text(self.name),
        }
    }
}

/// A list of [`GraphAttachment`] by their models.
pub open spec fn graph_attachment_views(v: Seq<GraphAttachment>) -> Seq<GraphAttachmentV> {
    Seq::new(v.len(), |i: int| v[i]@)
}

/// How a JSON value reads as a [`GraphAttachment`]; nothing where it does not.
pub open spec fn graph_attachment_of(v: JsonV) -> Option<GraphAttachmentV> {
    if !json::record_form(v, 3, 3) {
        None
    } else {
        match (
            json::opt_text_member(json::member_of(v, "contentType"@, 0)),
            json::opt_text_member(json::member_of(v, "contentUrl"@, 1)),
            json::opt_text_member(json::member_of(v, "name"@, 2)),
        ) {
            (Some(content_type), Some(content_url), Some(name)) => Some(
                GraphAttachmentV { content_type, content_url, name },
            ),
            _ => None,
        }
    }
}

/// Reads a [`GraphAttachment`].
pub fn read_graph_attachment(v: &Json) -> (r: Option<GraphAttachment>)
    ensures
        match r {
            Some(x) => graph_attachment_of(v@) == Some(x@),
            None => graph_attachment_of(v@) is None,
        },
{
    if !json::has_record_form(v, 3, 3) {
        return None;
    }
    let content_type = match json::read_opt_text(json::member(v, "contentType", 0)) {
        Some(x) => x,
        None => {
            return None;
        },
    };
    let content_url = match json::read_opt_text(json::member(v, "contentUrl", 1)) {
        Some(x) => x,
        None => {
            return None;
        },
    };
    let name = match json::read_opt_text(json::member(v, "name", 2)) {
        Some(x) => x,
        None => {
            return None;
        },
    };
    Some(GraphAttachment { content_type, content_url, name })
}

/// How a list of JSON values reads as a list of [`GraphAttachment`]: all of them or none.
pub open spec fn graph_attachment_list(a: Seq<JsonV>) -> Option<Seq<GraphAttachmentV>>
    decreases a.len(),
{
    if a.len() == 0 {
        Some(Seq::empty())
    } else {
        match (graph_attachment_list(a.drop_last()), graph_attachment_of(a.last())) {
            (Some(l), Some(x)) => Some(l.push(x)),
            _ => None,
        }
    }
}

proof fn lemma_graph_attachment_list_prefix(a: Seq<JsonV>, i: int)
    requires
        0 <= i <= a.len(),
        graph_attachment_list(a.take(i)) is None,
    ensures
        graph_attachment_list(a) is None,
    decreases a.len() - i,
{
    if i < a.len() {
        assert(a.take(i + 1).drop_last() =~= a.take(i));
        lemma_graph_attachment_list_prefix(a, i + 1);
    } else {
        assert(a.take(i) =~= a);
    }
}

fn read_graph_attachment_list(a: &Vec<Json>) -> (r: Option<Vec<GraphAttachment>>)
    ensures
        match r {
            Some(l) => graph_attachment_list(json::items_view(a@)) == Some(
                graph_attachment_views(l@),
            ),
            None => graph_attachment_list(json::items_view(a@)) is None,
        },
{
    let ghost all = json::items_view(a@);
    let mut out: Vec<GraphAttachment> = Vec::new();
    let mut i: usize = 0;
    proof {
        assert(all.take(0) =~= Seq::empty());
        assert(graph_attachment_views(out@) =~= Seq::empty());
    }
    while i < a.len()
        invariant
            i <= a@.len(),
            all == json::items_view(a@),
            graph_attachment_list(all.take(i as int)) == Some(graph_attachment_views(out@)),
        decreases a@.len() - i,
    {
        proof {
            assert(all.take(i + 1).drop_last() =~= all.take(i as int));
            assert(all.take(i + 1).last() == a@[i as int]@);
        }
        match read_graph_attachment(&a[i]) {
            Some(x) => {
                let ghost before = out@;
                out.push(x);
                proof {
                    assert(
                        graph_attachment_views(out@) =~= graph_attachment_views(before).push(x@)
                    );
                }
            },
            None => {
                proof {
                    lemma_graph_attachment_list_prefix(all, i + 1);
                }
                return None;
            },
        }
        i = i + 1;
    }
    proof {
        assert(all.take(i as int) =~= all);
    }
    Some(out)
}

/// How a list member reads that may be left out.
pub open spec fn graph_attachment_list_default(m: Option<JsonV>) -> Option<Seq<GraphAttachmentV>> {
    match m {
        None => Some(Seq::empty()),
        Some(JsonV::Arr(a)) => graph_attachment_list(a),
        _ => None,
    }
}

fn read_graph_attachment_list_default(m: Option<&Json>) -> (r: Option<Vec<GraphAttachment>>)
    ensures
        match r {
            Some(l) => graph_attachment_list_default(json::opt_json(m)) == Some(
                graph_attachment_views(l@),
            ),
            None => graph_attachment_list_default(json::opt_json(m)) is None,
        },
{
    match m {
        None => {
            let out: Vec<GraphAttachment> = Vec::new();
            proof {
                assert(graph_attachment_views(out@) =~= Seq::empty());
            }
            Some(out)
        },
        Some(Json::Arr(a)) => {
            proof {
                json::lemma_arr_view(*a);
            }
            read_graph_attachment_list(a)
        },
        _ => None,
    }
}
/// A user.
pub struct MessageUser {
    pub display_name: Option<String>,
}

/// The model of [`MessageUser`].
pub struct MessageUserV {
    pub display_name: Option<Seq<char>>,
}

impl View for MessageUser {
    type V = MessageUserV;

    open spec fn view(&self) -> MessageUserV {
        MessageUserV {
            display_name: text::opt_text(self.display_name),
        }
    }
}

/// An optional [`MessageUser`] by its model.
pub open spec fn opt_message_user(o: Option<MessageUser>) -> Option<MessageUserV> {
    match o {
        Some(x) => Some(x@),
        None => None,
    }
}

/// How a JSON value reads as a [`MessageUser`]; nothing where it does not.
pub open spec fn message_user_of(v: JsonV) -> Option<MessageUserV> {
    if !json::record_form(v, 1, 1) {
        None
    } else {
        match json::opt_text_member(json::member_of(v, "displayName"@, 0)) {
            Some(display_name) => Some(MessageUserV { display_name }),
            None => None,
        }
    }
}

/// Reads a [`MessageUser`].
pub fn read_message_user(v: &Json) -> (r: Option<MessageUser>)
    ensures
        match r {
            Some(x) => message_user_of(v@) == Some(x@),
            None => message_user_of(v@) is None,
        },
{
    if !json::has_record_form(v, 1, 1) {
        return None;
    }
    let display_name = match json::read_opt_text(json::member(v, "displayName", 0)) {
        Some(x) => x,
        None => {
            return None;
        },
    };
    Some(MessageUser { display_name })
}

/// How an optional member reads as a [`MessageUser`].
pub open spec fn opt_message_user_member(m: Option<JsonV>) -> Option<Option<MessageUserV>> {
    match m {
        None => Some(None),
        Some(JsonV::Null) => Some(None),
        Some(j) => match message_user_of(j) {
            Some(x) => Some(Some(x)),
            None => None,
        },
    }
}

fn read_opt_message_user(m: Option<&Json>) -> (r: Option<Option<MessageUser>>)
    ensures
        match r {
            Some(o) => opt_message_user_member(json::opt_json(m)) == Some(opt_message_user(o)),
            None => opt_message_user_member(json::opt_json(m)) is None,
        },
{
    match m {
        None => Some(None),
        Some(j) => if j.is_null() {
            Some(None)
        } else {
            match read_message_user(j) {
                Some(x) => Some(Some(x)),
                None => None,
            }
        },
    }
}
/// Who sent a message.
pub struct MessageFrom {
    pub user: Option<MessageUser>,
}

/// The model of [`MessageFrom`].
pub struct MessageFromV {
    pub user: Option<MessageUserV>,
}

impl View for MessageFrom {
    type V = MessageFromV;

    open spec fn view(&self) -> MessageFromV {
        MessageFromV {
            user: opt_message_user(self.user),
        }
    }
}

/// An optional [`MessageFrom`] by its model.
pub open spec fn opt_message_from(o: Option<MessageFrom>) -> Option<MessageFromV> {
    match o {
        Some(x) => Some(x@),
        None => None,
    }
}

/// How a JSON value reads as a [`MessageFrom`]; nothing where it does not.
pub open spec fn message_from_of(v: JsonV) -> Option<MessageFromV> {
    if !json::record_form(v, 0, 1) {
        None
    } else {
        match opt_message_user_member(json::member_of(v, "user"@, 0)) {
            Some(user) => Some(MessageFromV { user }),
            None => None,
        }
    }
}

/// Reads a [`MessageFrom`].
pub fn read_message_from(v: &Json) -> (r: Option<MessageFrom>)
    ensures
        match r {
            Some(x) => message_from_of(v@) == Some(x@),
            None => message_from_of(v@) is None,
        },
{
    if !json::has_record_form(v, 0, 1) {
        return None;
    }
    let user = match read_opt_message_user(json::member(v, "user", 0)) {
        Some(x) => x,
        None => {
            return None;
        },
    };
    Some(MessageFrom { user })
}

/// How an optional member reads as a [`MessageFrom`].
pub open spec fn opt_message_from_member(m: Option<JsonV>) -> Option<Option<MessageFromV>> {
    match m {
        None => Some(None),
        Some(JsonV::Null) => Some(None),
        Some(j) => match message_from_of(j) {
            Some(x) => Some(Some(x)),
            None => None,
        },
    }
}

fn read_opt_message_from(m: Option<&Json>) -> (r: Option<Option<MessageFrom>>)
    ensures
        match r {
            Some(o) => opt_message_from_member(json::opt_json(m)) == Some(opt_message_from(o)),
            None => opt_message_from_member(json::opt_json(m)) is None,
        },
{
    match m {
        None => Some(None),
        Some(j) => if j.is_null() {
            Some(None)
        } else {
            match read_message_from(j) {
                Some(x) => Some(Some(x)),
                None => None,
            }
        },
    }
}
/// A message with its attachments.
pub struct GraphChatMessage {
    pub from: Option<MessageFrom>,
    pub attachments: Vec<GraphAttachment>,
}

/// The model of [`GraphChatMessage`].
pub struct GraphChatMessageV {
    pub from: Option<MessageFromV>,
    pub attachments: Seq<GraphAttachmentV>,
}

impl View for GraphChatMessage {
    type V = GraphChatMessageV;

    open spec fn view(&self) -> GraphChatMessageV {
        GraphChatMessageV {
            from: opt_message_from(self.from),
            attachments: graph_attachment_views(self.attachments@),
        }
    }
}

/// A list of [`GraphChatMessage`] by their models.
pub open spec fn graph_chat_message_views(v: Seq<GraphChatMessage>) -> Seq<GraphChatMessageV> {
    Seq::new(v.len(), |i: int| v[i]@)
}

/// How a JSON value reads as a [`GraphChatMessage`]; nothing where it does not.
pub open spec fn graph_chat_message_of(v: JsonV) -> Option<GraphChatMessageV> {
    if !json::record_form(v, 0, 2) {
        None
    } else {
        match (
            opt_message_from_member(json::member_of(v, "from"@, 0)),
            graph_attachment_list_default(json::member_of(v, "attachments"@, 1)),
        ) {
            (Some(from), Some(attachments)) => Some(GraphChatMessageV { from, attachments }),
            _ => None,
        }
    }
}

/// Reads a [`GraphChatMessage`].
pub fn read_graph_chat_message(v: &Json) -> (r: Option<GraphChatMessage>)
    ensures
        match r {
            Some(x) => graph_chat_message_of(v@) == Some(x@),
            None => graph_chat_message_of(v@) is None,
        },
{
    if !json::has_record_form(v, 0, 2) {
        return None;
    }
    let from = match read_opt_message_from(json::member(v, "from", 0)) {
        Some(x) => x,
        None => {
            return None;
        },
    };
    let attachments = match read_graph_attachment_list_default(json::member(v, "attachments", 1)) {
        Some(x) => x,
        None => {
            return None;
        },
    };
    Some(GraphChatMessage { from, attachments })
}

/// How a list of JSON values reads as a list of [`GraphChatMessage`]: all of them or none.
pub open spec fn graph_chat_message_list(a: Seq<JsonV>) -> Option<Seq<GraphChatMessageV>>
    decreases a.len(),
{
    if a.len() == 0 {
        Some(Seq::empty())
    } else {
        match (graph_chat_message_list(a.drop_last()), graph_chat_message_of(a.last())) {
            (Some(l), Some(x)) => Some(l.push(x)),
            _ => None,
        }
    }
}

proof fn lemma_graph_chat_message_list_prefix(a: Seq<JsonV>, i: int)
    requires
        0 <= i <= a.len(),
        graph_chat_message_list(a.take(i)) is None,
    ensures
        graph_chat_message_list(a) is None,
    decreases a.len() - i,
{
    if i < a.len() {
        assert(a.take(i + 1).drop_last() =~= a.take(i));
        lemma_graph_chat_message_list_prefix(a, i + 1);
    } else {
        assert(a.take(i) =~= a);
    }
}

fn read_graph_chat_message_list(a: &Vec<Json>) -> (r: Option<Vec<GraphChatMessage>>)
    ensures
        match r {
            Some(l) => graph_chat_message_list(json::items_view(a@)) == Some(
                graph_chat_message_views(l@),
            ),
            None => graph_chat_message_list(json::items_view(a@)) is None,
        },
{
    let ghost all = json::items_view(a@);
    let mut out: Vec<GraphChatMessage> = Vec::new();
    let mut i: usize = 0;
    proof {
        assert(all.take(0) =~= Seq::empty());
        assert(graph_chat_message_views(out@) =~= Seq::empty());
    }
    while i < a.len()
        invariant
            i <= a@.len(),
            all == json::items_view(a@),
            graph_chat_message_list(all.take(i as int)) == Some(graph_chat_message_views(out@)),
        decreases a@.len() - i,
    {
        proof {
            assert(all.take(i + 1).drop_last() =~= all.take(i as int));
            assert(all.take(i + 1).last() == a@[i as int]@);
        }
        match read_graph_chat_message(&a[i]) {
            Some(x) => {
                let ghost before = out@;
                out.push(x);
                proof {
                    assert(
                        graph_chat_message_views(out@) =~= graph_chat_message_views(before).push(x@)
                    );
                }
            },
            None => {
                proof {
                    lemma_graph_chat_message_list_prefix(all, i + 1);
                }
                return None;
            },
        }
        i = i + 1;
    }
    proof {
        assert(all.take(i as int) =~= all);
    }
    Some(out)
}

/// How a required list member reads.
pub open spec fn graph_chat_message_list_member(m: Option<JsonV>) -> Option<
    Seq<GraphChatMessageV>,
> {
    match m {
        Some(JsonV::Arr(a)) => graph_chat_message_list(a),
        _ => None,
    }
}

fn read_graph_chat_message_list_member(m: Option<&Json>) -> (r: Option<Vec<GraphChatMessage>>)
    ensures
        match r {
            Some(l) => graph_chat_message_list_member(json::opt_json(m)) == Some(
                graph_chat_message_views(l@),
            ),
            None => graph_chat_message_list_member(json::opt_json(m)) is None,
        },
{
    match m {
        Some(Json::Arr(a)) => {
            proof {
                json::lemma_arr_view(*a);
            }
            read_graph_chat_message_list(a)
        },
        _ => None,
    }
}
/// The reply to a request for messages.
pub struct ChatMessagesResponse {
    pub value: Vec<GraphChatMessage>,
}

/// The model of [`ChatMessagesResponse`].
pub struct ChatMessagesResponseV {
    pub value: Seq<GraphChatMessageV>,
}

impl View for ChatMessagesResponse {
    type V = ChatMessagesResponseV;

    open spec fn view(&self) -> ChatMessagesResponseV {
        ChatMessagesResponseV {
            value: graph_chat_message_views(self.value@),
        }
    }
}

/// How a JSON value reads as a [`ChatMessagesResponse`]; nothing where it does not.
pub open spec fn chat_messages_response_of(v: JsonV) -> Option<ChatMessagesResponseV> {
    if !json::record_form(v, 1, 1) {
        None
    } else {
        match graph_chat_message_list_member(json::member_of(v, "value"@, 0)) {
            Some(value) => Some(ChatMessagesResponseV { value }),
            None => None,
        }
    }
}

/// Reads a [`ChatMessagesResponse`].
pub fn read_chat_messages_response(v: &Json) -> (r: Option<ChatMessagesResponse>)
    ensures
        match r {
            Some(x) => chat_messages_response_of(v@) == Some(x@),
            None => chat_messages_response_of(v@) is None,
        },
{
    if !json::has_record_form(v, 1, 1) {
        return None;
    }
    let value = match read_graph_chat_message_list_member(json::member(v, "value", 0)) {
        Some(x) => x,
        None => {
            return None;
        },
    };
    Some(ChatMessagesResponse { value })
}

// -- Files --

/// What is shown of a shared file or folder.
pub struct SharedFile {
    pub id: String,
    pub name: String,
    pub size: u64,
    pub mime: Option<String>,
    pub web_url: Option<String>,
    pub download_url: Option<String>,
    pub drive_id: Option<String>,
    pub created: Option<String>,
    pub modified: Option<String>,
    /// Who sent it, for a file of a chat.
    pub sender: Option<String>,
    /// Folders can be opened with their drive and their id.
    pub is_folder: bool,
    /// The link that was created for it; lists leave it empty.
    pub share_url: Option<String>,
}

/// The model of [`SharedFile`].
pub struct SharedFileV {
    pub id: Seq<char>,
    pub name: Seq<char>,
    pub size: u64,
    pub mime: Option<Seq<char>>,
    pub web_url: Option<Seq<char>>,
    pub download_url: Option<Seq<char>>,
    pub drive_id: Option<Seq<char>>,
    pub created: Option<Seq<char>>,
    pub modified: Option<Seq<char>>,
    pub sender: Option<Seq<char>>,
    pub is_folder: bool,
    pub share_url: Option<Seq<char>>,
}

impl View for SharedFile {
    type V = SharedFileV;

    open spec fn view(&self) -> SharedFileV {
        SharedFileV {
            id: self.id@,
            name: self.name@,
            size: self.size,
            mime: text::opt_text(self.mime),
            web_url: text::opt_text(self.web_url),
            download_url: text::opt_text(self.download_url),
            drive_id: text::opt_text(self.drive_id),
            created: text::opt_text(self.created),
            modified: text::opt_text(self.modified),
            sender: text::opt_text(self.sender),
            is_folder: self.is_folder,
            share_url: text::opt_text(self.share_url),
        }
    }
}
/// A list of [`SharedFile`] by their models.
pub open spec fn shared_file_views(v: Seq<SharedFile>) -> Seq<SharedFileV> {
    Seq::new(v.len(), |i: int| v[i]@)
}

/// What is shown of an item.
pub open spec fn shared_row(item: DriveItemV, sender: Option<Seq<char>>) -> SharedFileV {
    SharedFileV {
        id: item.id,
        name: teams::or_text(item.name, "[unnamed]"@),
        size: match item.size {
            Some(n) => n,
            None => 0u64,
        },
        mime: match item.file {
            Some(f) => f.mime_type,
            None => None,
        },
        web_url: item.web_url,
        download_url: item.download_url,
        drive_id: match item.parent {
            Some(p) => p.drive_id,
            None => None,
        },
        created: item.created,
        modified: item.modified,
        sender,
        is_folder: item.folder,
        share_url: None,
    }
}

/// What is shown of an item.
pub fn shared_from_item(item: &DriveItem, sender: Option<String>) -> (r: SharedFile)
    ensures
        r@ == shared_row(item@, text::opt_text(sender)),
{
    let size: u64 = match item.size {
        Some(n) => n,
        None => 0,
    };
    let mime = match &item.file {
        Some(f) => text::copy_opt(&f.mime_type),
        None => None,
    };
    let drive_id = match &item.parent {
        Some(p) => text::copy_opt(&p.drive_id),
        None => None,
    };
    SharedFile {
        id: item.id.clone(),
        name: teams::text_or(&item.name, "[unnamed]"),
        size,
        mime,
        web_url: text::copy_opt(&item.web_url),
        download_url: text::copy_opt(&item.download_url),
        drive_id,
        created: text::copy_opt(&item.created),
        modified: text::copy_opt(&item.modified),
        sender,
        is_folder: item.folder,
        share_url: None,
    }
}

/// True of an item that a list shows: files always, folders if they are asked
/// for.
pub fn keep_item(item: &DriveItem, include_folders: bool) -> (r: bool)
    ensures
        r == (include_folders || !item.folder),
{
    include_folders || !item.folder
}

/// What a list of a folder's items shows of one.
pub open spec fn child_row(item: DriveItemV, include_folders: bool) -> Option<SharedFileV> {
    if include_folders || !item.folder {
        Some(shared_row(item, None))
    } else {
        None
    }
}

fn child_file(item: &DriveItem, include_folders: bool) -> (r: Option<SharedFile>)
    ensures
        match r {
            Some(x) => child_row(item@, include_folders) == Some(x@),
            None => child_row(item@, include_folders) is None,
        },
{
    if keep_item(item, include_folders) {
        Some(shared_from_item(item, None))
    } else {
        None
    }
}
/// What is shown of a folder's items, in order: all of them, or the files.
pub open spec fn child_rows(v: Seq<DriveItemV>, include_folders: bool) -> Seq<SharedFileV>
    decreases v.len(),
{
    if v.len() == 0 {
        Seq::empty()
    } else {
        match child_row(v.last(), include_folders) {
            Some(x) => child_rows(v.drop_last(), include_folders).push(x),
            None => child_rows(v.drop_last(), include_folders),
        }
    }
}

/// What is shown of a folder's items, in order: all of them, or the files.
pub fn child_files(v: &Vec<DriveItem>, include_folders: bool) -> (r: Vec<SharedFile>)
    ensures
        shared_file_views(r@) == child_rows(drive_item_views(v@), include_folders),
{
    let ghost all = drive_item_views(v@);
    let mut out: Vec<SharedFile> = Vec::new();
    let mut i: usize = 0;
    proof {
        assert(all.take(0) =~= Seq::empty());
        assert(shared_file_views(out@) =~= Seq::empty());
    }
    while i < v.len()
        invariant
            i <= v@.len(),
            all == drive_item_views(v@),
            shared_file_views(out@) == child_rows(all.take(i as int), include_folders),
        decreases v@.len() - i,
    {
        proof {
            assert(all.take(i + 1).drop_last() =~= all.take(i as int));
            assert(all.take(i + 1).last() == v@[i as int]@);
        }
        match child_file(&v[i], include_folders) {
            Some(x) => {
                let ghost before = out@;
                out.push(x);
                proof {
                    assert(shared_file_views(out@) =~= shared_file_views(before).push(x@));
                }
            },
            None => {},
        }
        i = i + 1;
    }
    proof {
        assert(all.take(i as int) =~= all);
    }
    out
}

/// The files of a folder, by the JSON value of the reply; nothing where it is of
/// another form.
pub open spec fn children_of(v: JsonV, include_folders: bool) -> Option<Seq<SharedFileV>> {
    match drive_children_response_of(v) {
        Some(x) => Some(child_rows(x.value, include_folders)),
        None => None,
    }
}

/// The files of a folder, by the JSON value of the reply.
pub fn read_children(v: &Json, include_folders: bool) -> (r: Option<Vec<SharedFile>>)
    ensures
        match r {
            Some(l) => children_of(v@, include_folders) == Some(shared_file_views(l@)),
            None => children_of(v@, include_folders) is None,
        },
{
    match read_drive_children_response(v) {
        Some(x) => Some(child_files(&x.value, include_folders)),
        None => None,
    }
}

/// The files and folders of a folder; the error is the text to show.
pub fn list_folder_children_data(body: &[u8]) -> (r: Result<Vec<SharedFile>, String>)
    ensures
        match r {
            Ok(l) => json::json_bytes(body@) matches Some(v) && children_of(v, true) == Some(
                shared_file_views(l@),
            ),
            Err(e) => (json::json_bytes(body@) matches Some(v) ==> children_of(v, true) is None)
                && e@ == "Failed to parse drive children response"@,
        },
{
    if let Some(v) = json::parse_json_bytes(body) {
        if let Some(l) = read_children(&v, true) {
            return Ok(l);
        }
    }
    Err("Failed to parse drive children response".to_string())
}

/// The id of a shared address: `u!` and the address in the Base64 of URLs, which
/// decodes to the bytes of the address.
pub fn encode_share_id(url: &str) -> (r: String)
    ensures
        r@ == "u!"@ + encoding::base64url_of(encode_utf8(url@)),
        encoding::base64url_bytes(r@.skip(2)) == Some(encode_utf8(url@)),
{
    let b64 = encoding::base64url_encode(url.as_bytes());
    let r = text::join2("u!", b64.as_str());
    proof {
        reveal_strlit("u!");
        assert(r@.skip(2) =~= b64@);
    }
    r
}

/// True of the id of a channel, which ends in another way than that of a chat.
pub fn is_channel_id(id: &str) -> (r: bool)
    ensures
        r == "@thread.tacv2"@.is_suffix_of(text::trimmed(id@)),
{
    let t = text::trim(id);
    text::ends_with(t.as_str(), "@thread.tacv2")
}

/// Where the files of a conversation are looked for.
#[derive(Clone, Copy, Debug, PartialEq, Eq, Structural)]
pub enum FileSource {
    /// The folder of the channel.
    ChannelFolder,
    /// The attachments of the chat's messages.
    ChatMessages,
}

/// Where the files of a conversation are looked for first, and where if that
/// fails.
pub fn file_sources(chat_id: &str) -> (r: (FileSource, FileSource))
    ensures
        r == if "@thread.tacv2"@.is_suffix_of(text::trimmed(chat_id@)) {
            (FileSource::ChannelFolder, FileSource::ChatMessages)
        } else {
            (FileSource::ChatMessages, FileSource::ChannelFolder)
        },
{
    if is_channel_id(chat_id) {
        (FileSource::ChannelFolder, FileSource::ChatMessages)
    } else {
        (FileSource::ChatMessages, FileSource::ChannelFolder)
    }
}

/// A number of at least one.
pub open spec fn at_least_one(n: int) -> int {
    if n < 1 {
        1
    } else {
        n
    }
}

fn max_one(n: usize) -> (r: usize)
    ensures
        r == at_least_one(n as int),
{
    if n < 1 {
        1
    } else {
        n
    }
}

/// The path of the messages of a chat.
pub fn chat_messages_path(chat_id: &str, limit: usize) -> (r: String)
    ensures
        r@ == "/me/chats/"@ + chat_id@ + "/messages?$top="@ + text::decimal(
            at_least_one(limit as int) as nat,
        ),
{
    let mut s = text::join3("/me/chats/", chat_id, "/messages?$top=");
    s.append(text::to_decimal(max_one(limit) as u64).as_str());
    s
}

/// The path of the items of a folder.
pub fn folder_children_path(drive_id: &str, item_id: &str, limit: usize) -> (r: String)
    ensures
        r@ == "/drives/"@ + drive_id@ + "/items/"@ + item_id@ + "/children?$top="@ + text::decimal(
            at_least_one(limit as int) as nat,
        ),
{
    let mut s = text::join3("/drives/", drive_id, "/items/");
    s.append(item_id);
    s.append("/children?$top=");
    s.append(text::to_decimal(max_one(limit) as u64).as_str());
    s
}

/// The path of a shared item.
pub fn share_path(share_id: &str) -> (r: String)
    ensures
        r@ == "/shares/"@ + share_id@ + "/driveItem"@,
{
    let mut s = String::new();
    s.append("/shares/");
    s.append(share_id);
    s.append("/driveItem");
    proof {
        assert(s@ =~= "/shares/"@ + share_id@ + "/driveItem"@);
    }
    s
}
/// The path of a channel's folder.
pub fn files_folder_path(team_id: &str, channel_id: &str) -> (r: String)
    ensures
        r@ == "/teams/"@ + team_id@ + "/channels/"@ + channel_id@ + "/filesFolder"@,
{
    let mut s = String::new();
    s.append("/teams/");
    s.append(team_id);
    s.append("/channels/");
    s.append(channel_id);
    s.append("/filesFolder");
    proof {
        assert(s@ =~= "/teams/"@ + team_id@ + "/channels/"@ + channel_id@ + "/filesFolder"@);
    }
    s
}

/// The drive that a folder lives on.
pub open spec fn drive_of(folder: DriveItemV) -> Option<Seq<char>> {
    match folder.parent {
        Some(p) => p.drive_id,
        None => None,
    }
}

/// The drive that a channel's folder lives on; the error is the text to show.
pub fn folder_drive(folder: &DriveItem) -> (r: Result<String, String>)
    ensures
        match r {
            Ok(d) => drive_of(folder@) == Some(d@),
            Err(e) => drive_of(folder@) is None && e@
                == "filesFolder response missing parent driveId"@,
        },
{
    if let Some(p) = &folder.parent {
        if let Some(d) = &p.drive_id {
            return Ok(d.clone());
        }
    }
    Err("filesFolder response missing parent driveId".to_string())
}

// -- Files of a chat --

/// A file that a message refers to.
pub struct Reference {
    pub sender: Option<String>,
    pub url: String,
    pub name: Option<String>,
}

/// The model of [`Reference`].
pub struct ReferenceV {
    pub sender: Option<Seq<char>>,
    pub url: Seq<char>,
    pub name: Option<Seq<char>>,
}

impl View for Reference {
    type V = ReferenceV;

    open spec fn view(&self) -> ReferenceV {
        ReferenceV {
            sender: text::opt_text(self.sender),
            url: self.url@,
            name: text::opt_text(self.name),
        }
    }
}
/// A list of [`Reference`] by their models.
pub open spec fn reference_views(v: Seq<Reference>) -> Seq<ReferenceV> {
    Seq::new(v.len(), |i: int| v[i]@)
}

/// Who sent a message.
pub open spec fn sender_name(m: GraphChatMessageV) -> Option<Seq<char>> {
    match m.from {
        Some(f) => match f.user {
            Some(u) => u.display_name,
            None => None,
        },
        None => None,
    }
}

/// Who sent a message.
pub fn sender_of(m: &GraphChatMessage) -> (r: Option<String>)
    ensures
        text::opt_text(r) == sender_name(m@),
{
    match &m.from {
        Some(f) => match &f.user {
            Some(u) => text::copy_opt(&u.display_name),
            None => None,
        },
        None => None,
    }
}

/// The file that an attachment refers to, where it refers to one.
pub open spec fn reference_row(a: GraphAttachmentV, sender: Option<Seq<char>>) -> Option<
    ReferenceV,
> {
    match a.content_url {
        Some(u) => if a.content_type == Some("reference"@) && u.len() > 0 {
            Some(ReferenceV { sender, url: u, name: a.name })
        } else {
            None
        },
        None => None,
    }
}

fn reference_of(a: &GraphAttachment, sender: &Option<String>) -> (r: Option<Reference>)
    ensures
        match r {
            Some(x) => reference_row(a@, text::opt_text(*sender)) == Some(x@),
            None => reference_row(a@, text::opt_text(*sender)) is None,
        },
{
    match &a.content_type {
        Some(t) => if !text::same(t.as_str(), "reference") {
            return None;
        },
        None => {
            return None;
        },
    }
    match &a.content_url {
        Some(u) => if u.as_str().is_empty() {
            None
        } else {
            Some(
                Reference {
                    sender: text::copy_opt(sender),
                    url: u.clone(),
                    name: text::copy_opt(&a.name),
                },
            )
        },
        None => None,
    }
}
/// The files that the attachments of a message refer to, in order.
pub open spec fn reference_rows(v: Seq<GraphAttachmentV>, sender: Option<Seq<char>>) -> Seq<
    ReferenceV,
>
    decreases v.len(),
{
    if v.len() == 0 {
        Seq::empty()
    } else {
        match reference_row(v.last(), sender) {
            Some(x) => reference_rows(v.drop_last(), sender).push(x),
            None => reference_rows(v.drop_last(), sender),
        }
    }
}

/// The files that the attachments of a message refer to, in order.
pub fn references_of_message(
    v: &Vec<GraphAttachment>,
    sender: &Option<String>,
) -> (r: Vec<Reference>)
    ensures
        reference_views(r@) == reference_rows(graph_attachment_views(v@), text::opt_text(*sender)),
{
    let ghost all = graph_attachment_views(v@);
    let mut out: Vec<Reference> = Vec::new();
    let mut i: usize = 0;
    proof {
        assert(all.take(0) =~= Seq::empty());
        assert(reference_views(out@) =~= Seq::empty());
    }
    while i < v.len()
        invariant
            i <= v@.len(),
            all == graph_attachment_views(v@),
            reference_views(out@) == reference_rows(all.take(i as int), text::opt_text(*sender)),
        decreases v@.len() - i,
    {
        proof {
            assert(all.take(i + 1).drop_last() =~= all.take(i as int));
            assert(all.take(i + 1).last() == v@[i as int]@);
        }
        match reference_of(&v[i], sender) {
            Some(x) => {
                let ghost before = out@;
                out.push(x);
                proof {
                    assert(reference_views(out@) =~= reference_views(before).push(x@));
                }
            },
            None => {},
        }
        i = i + 1;
    }
    proof {
        assert(all.take(i as int) =~= all);
    }
    out
}

/// The files that messages refer to, in order.
pub open spec fn all_references(v: Seq<GraphChatMessageV>) -> Seq<ReferenceV>
    decreases v.len(),
{
    if v.len() == 0 {
        Seq::empty()
    } else {
        all_references(v.drop_last()) + reference_rows(v.last().attachments, sender_name(v.last()))
    }
}

/// The files that messages refer to, in order.
pub fn references(msgs: &Vec<GraphChatMessage>) -> (r: Vec<Reference>)
    ensures
        reference_views(r@) == all_references(graph_chat_message_views(msgs@)),
{
    let ghost all = graph_chat_message_views(msgs@);
    let mut out: Vec<Reference> = Vec::new();
    let mut i: usize = 0;
    proof {
        assert(all.take(0) =~= Seq::empty());
        assert(reference_views(out@) =~= Seq::empty());
    }
    while i < msgs.len()
        invariant
            i <= msgs@.len(),
            all == graph_chat_message_views(msgs@),
            reference_views(out@) == all_references(all.take(i as int)),
        decreases msgs@.len() - i,
    {
        proof {
            assert(all.take(i + 1).drop_last() =~= all.take(i as int));
            assert(all.take(i + 1).last() == msgs@[i as int]@);
        }
        let sender = sender_of(&msgs[i]);
        let mut found = references_of_message(&msgs[i].attachments, &sender);
        let ghost before = out@;
        let ghost more = found@;
        out.append(&mut found);
        proof {
            assert(reference_views(out@) =~= reference_views(before) + reference_views(more));
        }
        i = i + 1;
    }
    proof {
        assert(all.take(i as int) =~= all);
    }
    out
}

/// True when a list has a file with this id.
pub open spec fn has_file(files: Seq<SharedFileV>, id: Seq<char>) -> bool {
    exists|i: int| 0 <= i < files.len() && (#[trigger] files[i]).id == id
}

/// What is shown of an item that a message refers to; without a name of its own,
/// the one in the message.
pub open spec fn resolved_row(item: DriveItemV, reference: ReferenceV) -> SharedFileV {
    let row = shared_row(item, reference.sender);
    SharedFileV {
        name: if row.name == "[unnamed]"@ {
            teams::or_text(reference.name, row.name)
        } else {
            row.name
        },
        ..row
    }
}

/// The files of a chat after one more reference: by the item that it led to, if
/// it led to one that is shown and not there yet.
pub open spec fn with_reference(
    files: Seq<SharedFileV>,
    reference: ReferenceV,
    item: Option<DriveItemV>,
    include_folders: bool,
) -> Seq<SharedFileV> {
    match item {
        Some(it) => if (include_folders || !it.folder) && !has_file(files, it.id) {
            files.push(resolved_row(it, reference))
        } else {
            files
        },
        None => files,
    }
}

/// True of files of which no two have the same id.
pub open spec fn distinct_files(files: Seq<SharedFileV>) -> bool {
    forall|i: int, j: int|
        0 <= i < j < files.len() ==> (#[trigger] files[i]).id != (#[trigger] files[j]).id
}

/// No file is listed twice.
pub proof fn law_files_listed_once(
    files: Seq<SharedFileV>,
    reference: ReferenceV,
    item: Option<DriveItemV>,
    include_folders: bool,
)
    requires
        distinct_files(files),
    ensures
        distinct_files(with_reference(files, reference, item, include_folders)),
        files.is_prefix_of(with_reference(files, reference, item, include_folders)),
{
    let after = with_reference(files, reference, item, include_folders);
    assert(files =~= after.subrange(0, files.len() as int));
}

fn lists_file(files: &Vec<SharedFile>, id: &str) -> (r: bool)
    ensures
        r == has_file(shared_file_views(files@), id@),
{
    let ghost all = shared_file_views(files@);
    let mut i: usize = 0;
    while i < files.len()
        invariant
            i <= files@.len(),
            all == shared_file_views(files@),
            forall|j: int| 0 <= j < i ==> (#[trigger] all[j]).id != id@,
        decreases files@.len() - i,
    {
        if text::same(files[i].id.as_str(), id) {
            assert(all[i as int].id == id@);
            return true;
        }
        i = i + 1;
    }
    false
}

/// Adds the item that a reference led to, if it led to one that is shown and not
/// there yet.
pub fn add_reference(
    files: &mut Vec<SharedFile>,
    reference: &Reference,
    item: Option<&DriveItem>,
    include_folders: bool,
)
    ensures
        shared_file_views(final(files)@) == with_reference(
            shared_file_views(old(files)@),
            reference@,
            match item {
                Some(it) => Some(it@),
                None => None,
            },
            include_folders,
        ),
{
    if let Some(it) = item {
        if keep_item(it, include_folders) && !lists_file(files, it.id.as_str()) {
            let mut file = shared_from_item(it, text::copy_opt(&reference.sender));
            if text::same(file.name.as_str(), "[unnamed]") {
                if let Some(n) = &reference.name {
                    file.name = n.clone();
                }
            }
            let ghost before = files@;
            proof {
                assert(file@ == resolved_row(it@, reference@));
            }
            files.push(file);
            proof {
                assert(shared_file_views(files@) =~= shared_file_views(before).push(file@));
            }
        }
    }
}

/// The messages of a reply; nothing where it is of another form.
pub open spec fn messages_in(body: Seq<u8>) -> Option<Seq<GraphChatMessageV>> {
    match json::json_bytes(body) {
        Some(v) => match chat_messages_response_of(v) {
            Some(x) => Some(x.value),
            None => None,
        },
        None => None,
    }
}

fn parse_messages(body: &[u8]) -> (r: Option<Vec<GraphChatMessage>>)
    ensures
        match r {
            Some(l) => messages_in(body@) == Some(graph_chat_message_views(l@)),
            None => messages_in(body@) is None,
        },
{
    match json::parse_json_bytes(body) {
        Some(v) => match read_chat_messages_response(&v) {
            Some(x) => Some(x.value),
            None => None,
        },
        None => None,
    }
}

/// The item of a reply; nothing where it is of another form.
pub open spec fn item_in(body: Seq<u8>) -> Option<DriveItemV> {
    match json::json_bytes(body) {
        Some(v) => drive_item_of(v),
        None => None,
    }
}

/// The item of a reply; nothing where it is of another form.
pub fn parse_item(body: &[u8]) -> (r: Option<DriveItem>)
    ensures
        match r {
            Some(x) => item_in(body@) == Some(x@),
            None => item_in(body@) is None,
        },
{
    match json::parse_json_bytes(body) {
        Some(v) => read_drive_item(&v),
        None => None,
    }
}

/// The items of a folder; nothing where the reply is of another form.
pub open spec fn items_in(body: Seq<u8>) -> Option<Seq<DriveItemV>> {
    match json::json_bytes(body) {
        Some(v) => match drive_children_response_of(v) {
            Some(x) => Some(x.value),
            None => None,
        },
        None => None,
    }
}

fn parse_items(body: &[u8]) -> (r: Option<Vec<DriveItem>>)
    ensures
        match r {
            Some(l) => items_in(body@) == Some(drive_item_views(l@)),
            None => items_in(body@) is None,
        },
{
    match json::parse_json_bytes(body) {
        Some(v) => match read_drive_children_response(&v) {
            Some(x) => Some(x.value),
            None => None,
        },
        None => None,
    }
}

// -- Listing the files of a conversation --

/// What a listing waits for.
#[derive(Clone, Copy, Debug, PartialEq, Eq, Structural)]
pub enum ListStage {
    /// The messages of the chat.
    Messages,
    /// The item that the next reference leads to.
    Shares,
    /// The teams of the user, with their channels.
    Teams,
    /// The folder of the channel.
    Folder,
    /// The items of the folder.
    Children,
    /// Nothing: the files are there.
    Done,
    /// Nothing: both ways failed.
    Failed,
}

/// The state of a listing of the files of a conversation.
pub struct FileListing {
    pub chat_id: String,
    pub limit: usize,
    pub include_folders: bool,
    /// Where else the files are looked for if this way fails.
    pub fallback: Option<FileSource>,
    pub stage: ListStage,
    /// The references of the messages.
    pub refs: Vec<Reference>,
    /// How many references were followed.
    pub at: usize,
    pub files: Vec<SharedFile>,
    /// The request to make; empty where none is made.
    pub path: String,
    /// What to show where both ways failed.
    pub error: String,
}

/// The model of [`FileListing`].
pub struct FileListingV {
    pub chat_id: Seq<char>,
    pub limit: usize,
    pub include_folders: bool,
    pub fallback: Option<FileSource>,
    pub stage: ListStage,
    pub refs: Seq<ReferenceV>,
    pub at: usize,
    pub files: Seq<SharedFileV>,
    pub path: Seq<char>,
    pub error: Seq<char>,
}

impl View for FileListing {
    type V = FileListingV;

    open spec fn view(&self) -> FileListingV {
        FileListingV {
            chat_id: self.chat_id@,
            limit: self.limit,
            include_folders: self.include_folders,
            fallback: self.fallback,
            stage: self.stage,
            refs: reference_views(self.refs@),
            at: self.at,
            files: shared_file_views(self.files@),
            path: self.path@,
            error: self.error@,
        }
    }
}

/// A reply by its view: the bytes, or the text of the failure.
pub open spec fn reply_view(r: Result<Vec<u8>, String>) -> Result<Seq<u8>, Seq<char>> {
    match r {
        Ok(b) => Ok(b@),
        Err(e) => Err(e@),
    }
}

/// A listing that looks for files in one place.
pub open spec fn looking(
    v: FileListingV,
    source: FileSource,
    fallback: Option<FileSource>,
) -> FileListingV {
    FileListingV {
        fallback,
        stage: match source {
            FileSource::ChatMessages => ListStage::Messages,
            FileSource::ChannelFolder => ListStage::Teams,
        },
        refs: Seq::empty(),
        at: 0,
        files: Seq::empty(),
        path: match source {
            FileSource::ChatMessages => "/me/chats/"@ + v.chat_id + "/messages?$top="@
                + text::decimal(at_least_one(v.limit as int) as nat),
            FileSource::ChannelFolder => ""@,
        },
        error: ""@,
        ..v
    }
}

/// A listing that starts.
pub open spec fn new_listing(
    chat_id: Seq<char>,
    limit: usize,
    include_folders: bool,
) -> FileListingV {
    let v = FileListingV {
        chat_id,
        limit,
        include_folders,
        fallback: None,
        stage: ListStage::Failed,
        refs: Seq::empty(),
        at: 0,
        files: Seq::empty(),
        path: ""@,
        error: ""@,
    };
    if "@thread.tacv2"@.is_suffix_of(text::trimmed(chat_id)) {
        looking(v, FileSource::ChannelFolder, Some(FileSource::ChatMessages))
    } else {
        looking(v, FileSource::ChatMessages, Some(FileSource::ChannelFolder))
    }
}

/// A listing whose way failed: it takes the other way, or ends.
pub open spec fn failed(v: FileListingV, error: Seq<char>) -> FileListingV {
    match v.fallback {
        Some(s) => looking(v, s, None),
        None => FileListingV { stage: ListStage::Failed, path: ""@, error, ..v },
    }
}

/// A listing that follows the next reference, if there is one.
pub open spec fn following(v: FileListingV) -> FileListingV {
    if v.at < v.refs.len() {
        FileListingV {
            stage: ListStage::Shares,
            path: "/shares/"@ + ("u!"@ + encoding::base64url_of(
                encode_utf8(v.refs[v.at as int].url),
            )) + "/driveItem"@,
            ..v
        }
    } else {
        FileListingV { stage: ListStage::Done, path: ""@, ..v }
    }
}

/// A listing after the reply with the messages.
pub open spec fn after_messages(
    v: FileListingV,
    reply: Result<Seq<u8>, Seq<char>>,
) -> FileListingV {
    match reply {
        Err(e) => failed(v, e),
        Ok(b) => match messages_in(b) {
            None => failed(v, "Failed to parse chat messages response"@),
            Some(msgs) => following(FileListingV { refs: all_references(msgs), at: 0, ..v }),
        },
    }
}

/// A listing after the reply with the item of a reference; one that could not be
/// fetched or read is passed over.
pub open spec fn after_share(v: FileListingV, reply: Result<Seq<u8>, Seq<char>>) -> FileListingV {
    let item = match reply {
        Err(_) => None,
        Ok(b) => item_in(b),
    };
    following(
        FileListingV {
            files: with_reference(v.files, v.refs[v.at as int], item, v.include_folders),
            at: (v.at + 1) as usize,
            ..v
        },
    )
}

/// A listing after the teams.
pub open spec fn after_teams(
    v: FileListingV,
    teams: Result<Seq<TeamInfoV>, Seq<char>>,
) -> FileListingV {
    match teams {
        Err(e) => failed(v, e),
        Ok(l) => match teams::team_of_channel(l, v.chat_id) {
            Err(e) => failed(v, e),
            Ok(team) => FileListingV {
                stage: ListStage::Folder,
                path: "/teams/"@ + team + "/channels/"@ + v.chat_id + "/filesFolder"@,
                ..v
            },
        },
    }
}

/// A listing after the reply with the folder.
pub open spec fn after_folder(v: FileListingV, reply: Result<Seq<u8>, Seq<char>>) -> FileListingV {
    match reply {
        Err(e) => failed(v, e),
        Ok(b) => match item_in(b) {
            None => failed(v, "Failed to parse filesFolder response"@),
            Some(folder) => match drive_of(folder) {
                None => failed(v, "filesFolder response missing parent driveId"@),
                Some(drive) => FileListingV {
                    stage: ListStage::Children,
                    path: "/drives/"@ + drive + "/items/"@ + folder.id + "/children?$top="@
                        + text::decimal(at_least_one(v.limit as int) as nat),
                    ..v
                },
            },
        },
    }
}

/// The files of a folder, each listed once.
pub open spec fn with_children(
    files: Seq<SharedFileV>,
    items: Seq<DriveItemV>,
    include_folders: bool,
) -> Seq<SharedFileV>
    decreases items.len(),
{
    if items.len() == 0 {
        files
    } else {
        let before = with_children(files, items.drop_last(), include_folders);
        match child_row(items.last(), include_folders) {
            Some(row) => if has_file(before, row.id) {
                before
            } else {
                before.push(row)
            },
            None => before,
        }
    }
}

/// A listing after the reply with the items of the folder.
pub open spec fn after_children(
    v: FileListingV,
    reply: Result<Seq<u8>, Seq<char>>,
) -> FileListingV {
    match reply {
        Err(e) => failed(v, e),
        Ok(b) => match items_in(b) {
            None => failed(v, "Failed to parse drive children response"@),
            Some(items) => FileListingV {
                files: with_children(v.files, items, v.include_folders),
                stage: ListStage::Done,
                path: ""@,
                ..v
            },
        },
    }
}

/// A listing after a reply.
pub open spec fn after_reply(v: FileListingV, reply: Result<Seq<u8>, Seq<char>>) -> FileListingV {
    match v.stage {
        ListStage::Messages => after_messages(v, reply),
        ListStage::Shares => after_share(v, reply),
        ListStage::Folder => after_folder(v, reply),
        ListStage::Children => after_children(v, reply),
        _ => v,
    }
}

/// What holds of every listing: no file is listed twice, folders are listed only
/// where they were asked for, and a reference is waited for only while there is
/// one.
pub open spec fn listing_ok(v: FileListingV) -> bool {
    &&& distinct_files(v.files)
    &&& forall|i: int|
        0 <= i < v.files.len() ==> (v.include_folders || !(#[trigger] v.files[i]).is_folder)
    &&& v.at <= v.refs.len()
    &&& v.stage is Shares ==> v.at < v.refs.len()
    &&& v.stage is Messages || v.stage is Teams || v.stage is Folder || v.stage is Children
        ==> v.files.len() == 0
}

proof fn lemma_children_once(
    files: Seq<SharedFileV>,
    items: Seq<DriveItemV>,
    include_folders: bool,
)
    requires
        distinct_files(files),
        forall|i: int|
            0 <= i < files.len() ==> (include_folders || !(#[trigger] files[i]).is_folder),
    ensures
        distinct_files(with_children(files, items, include_folders)),
        forall|i: int|
            #![trigger with_children(files, items, include_folders)[i]]
            0 <= i < with_children(files, items, include_folders).len() ==> (include_folders
                || !with_children(files, items, include_folders)[i].is_folder),
    decreases items.len(),
{
    if items.len() > 0 {
        lemma_children_once(files, items.drop_last(), include_folders);
    }
}

/// Every listing stays in order, whatever the replies are: no file is listed
/// twice, and no folder that was not asked for.
pub proof fn law_listing_in_order(
    chat_id: Seq<char>,
    limit: usize,
    include_folders: bool,
    v: FileListingV,
    reply: Result<Seq<u8>, Seq<char>>,
    teams: Result<Seq<TeamInfoV>, Seq<char>>,
)
    requires
        listing_ok(v),
    ensures
        listing_ok(new_listing(chat_id, limit, include_folders)),
        listing_ok(after_reply(v, reply)),
        v.stage is Teams ==> listing_ok(after_teams(v, teams)),
{
    if let Ok(b) = reply {
        if let Some(items) = items_in(b) {
            lemma_children_once(v.files, items, v.include_folders);
        }
    }
    if v.stage is Shares {
        let item = match reply {
            Err(_) => None,
            Ok(b) => item_in(b),
        };
        law_files_listed_once(v.files, v.refs[v.at as int], item, v.include_folders);
    }
}

/// How far a listing is from its end: whether another way is left, which steps
/// are left on this one, and how many references are left to follow.
pub open spec fn distance(v: FileListingV) -> (nat, nat, nat) {
    (
        if v.fallback is Some {
            1
        } else {
            0
        },
        match v.stage {
            ListStage::Messages => 2,
            ListStage::Shares => 1,
            ListStage::Teams => 3,
            ListStage::Folder => 2,
            ListStage::Children => 1,
            ListStage::Done => 0,
            ListStage::Failed => 0,
        },
        (v.refs.len() - v.at) as nat,
    )
}

/// True when one distance is below another.
pub open spec fn nearer(a: (nat, nat, nat), b: (nat, nat, nat)) -> bool {
    a.0 < b.0 || (a.0 == b.0 && (a.1 < b.1 || (a.1 == b.1 && a.2 < b.2)))
}

/// Every reply brings a listing nearer to its end, so every listing ends.
pub proof fn law_listing_ends(
    v: FileListingV,
    reply: Result<Seq<u8>, Seq<char>>,
    teams: Result<Seq<TeamInfoV>, Seq<char>>,
)
    requires
        listing_ok(v),
        !(v.stage is Done),
        !(v.stage is Failed),
        v.refs.len() <= usize::MAX,
    ensures
        if v.stage is Teams {
            nearer(distance(after_teams(v, teams)), distance(v))
        } else {
            nearer(distance(after_reply(v, reply)), distance(v))
        },
{
}

/// Starts a listing of the files of a conversation, without folders.
pub fn list_chat_files_data(chat_id: &str, limit: usize) -> (r: FileListing)
    ensures
        r@ == new_listing(chat_id@, limit, false),
        listing_ok(r@),
{
    list_chat_files_data_opts(chat_id, limit, false)
}

/// Starts a listing of the files of a conversation, with folders if they are
/// asked for.
pub fn list_chat_files_data_opts(chat_id: &str, limit: usize, include_folders: bool) -> (r:
    FileListing)
    ensures
        r@ == new_listing(chat_id@, limit, include_folders),
        listing_ok(r@),
{
    let (first, second) = file_sources(chat_id);
    let refs: Vec<Reference> = Vec::new();
    let files: Vec<SharedFile> = Vec::new();
    let mut r = FileListing {
        chat_id: chat_id.to_string(),
        limit,
        include_folders,
        fallback: None,
        stage: ListStage::Failed,
        refs,
        at: 0,
        files,
        path: "".to_string(),
        error: "".to_string(),
    };
    r.look(first, Some(second));
    r
}

impl FileListing {
    fn look(&mut self, source: FileSource, fallback: Option<FileSource>)
        ensures
            final(self)@ == looking(old(self)@, source, fallback),
    {
        self.fallback = fallback;
        self.refs = Vec::new();
        self.at = 0;
        self.files = Vec::new();
        self.error = "".to_string();
        match source {
            FileSource::ChatMessages => {
                self.stage = ListStage::Messages;
                self.path = chat_messages_path(self.chat_id.as_str(), self.limit);
            },
            FileSource::ChannelFolder => {
                self.stage = ListStage::Teams;
                self.path = "".to_string();
            },
        }
        proof {
            assert(reference_views(self.refs@) =~= Seq::empty());
            assert(shared_file_views(self.files@) =~= Seq::empty());
        }
    }

    fn fail(&mut self, error: String)
        ensures
            final(self)@ == failed(old(self)@, error@),
    {
        match self.fallback {
            Some(s) => {
                self.look(s, None);
            },
            None => {
                self.stage = ListStage::Failed;
                self.path = "".to_string();
                self.error = error;
            },
        }
    }

    fn follow(&mut self)
        ensures
            final(self)@ == following(old(self)@),
    {
        if self.at < self.refs.len() {
            let id = encode_share_id(self.refs[self.at].url.as_str());
            assert(self@.refs[self.at as int] == self.refs@[self.at as int]@);
            self.stage = ListStage::Shares;
            self.path = share_path(id.as_str());
        } else {
            self.stage = ListStage::Done;
            self.path = "".to_string();
        }
    }

    /// Takes the teams of the user.
    pub fn take_teams(&mut self, teams: Result<Vec<TeamInfo>, String>)
        requires
            listing_ok(old(self)@),
            old(self)@.stage is Teams,
        ensures
            final(self)@ == after_teams(
                old(self)@,
                match teams {
                    Ok(l) => Ok(teams::team_info_views(l@)),
                    Err(e) => Err(e@),
                },
            ),
            listing_ok(final(self)@),
    {
        match teams {
            Err(e) => {
                self.fail(e);
            },
            Ok(l) => match teams::find_team_for_channel(&l, self.chat_id.as_str()) {
                Err(e) => {
                    self.fail(e);
                },
                Ok(team) => {
                    self.stage = ListStage::Folder;
                    self.path = files_folder_path(team.as_str(), self.chat_id.as_str());
                },
            },
        }
    }

    /// Takes the reply to the request.
    pub fn take_reply(&mut self, reply: Result<Vec<u8>, String>)
        requires
            listing_ok(old(self)@),
        ensures
            final(self)@ == after_reply(old(self)@, reply_view(reply)),
            listing_ok(final(self)@),
    {
        proof {
            law_listing_in_order(
                self@.chat_id,
                self@.limit,
                self@.include_folders,
                self@,
                reply_view(reply),
                Err(""@),
            );
        }
        match self.stage {
            ListStage::Messages => {
                self.take_messages(reply);
            },
            ListStage::Shares => {
                self.take_share(reply);
            },
            ListStage::Folder => {
                self.take_folder(reply);
            },
            ListStage::Children => {
                self.take_children(reply);
            },
            _ => {},
        }
    }

    fn take_messages(&mut self, reply: Result<Vec<u8>, String>)
        ensures
            final(self)@ == after_messages(old(self)@, reply_view(reply)),
    {
        match reply {
            Err(e) => {
                self.fail(e);
            },
            Ok(b) => match parse_messages(b.as_slice()) {
                None => {
                    self.fail("Failed to parse chat messages response".to_string());
                },
                Some(msgs) => {
                    self.refs = references(&msgs);
                    self.at = 0;
                    self.follow();
                },
            },
        }
    }

    fn take_share(&mut self, reply: Result<Vec<u8>, String>)
        requires
            old(self)@.at < old(self)@.refs.len(),
        ensures
            final(self)@ == after_share(old(self)@, reply_view(reply)),
    {
        let n: usize = self.refs.len();
        assert(self.at < n);
        let item = match reply {
            Err(_) => None,
            Ok(b) => parse_item(b.as_slice()),
        };
        assert(self@.refs[self.at as int] == self.refs@[self.at as int]@);
        match item {
            Some(it) => {
                add_reference(
                    &mut self.files,
                    &self.refs[self.at],
                    Some(&it),
                    self.include_folders,
                );
            },
            None => {},
        }
        self.at = self.at + 1;
        self.follow();
    }

    fn take_folder(&mut self, reply: Result<Vec<u8>, String>)
        ensures
            final(self)@ == after_folder(old(self)@, reply_view(reply)),
    {
        match reply {
            Err(e) => {
                self.fail(e);
            },
            Ok(b) => match parse_item(b.as_slice()) {
                None => {
                    self.fail("Failed to parse filesFolder response".to_string());
                },
                Some(folder) => match folder_drive(&folder) {
                    Err(e) => {
                        self.fail(e);
                    },
                    Ok(drive) => {
                        self.stage = ListStage::Children;
                        self.path = folder_children_path(
                            drive.as_str(),
                            folder.id.as_str(),
                            self.limit,
                        );
                    },
                },
            },
        }
    }

    fn take_children(&mut self, reply: Result<Vec<u8>, String>)
        ensures
            final(self)@ == after_children(old(self)@, reply_view(reply)),
    {
        match reply {
            Err(e) => {
                self.fail(e);
            },
            Ok(b) => match parse_items(b.as_slice()) {
                None => {
                    self.fail("Failed to parse drive children response".to_string());
                },
                Some(items) => {
                    add_children(&mut self.files, &items, self.include_folders);
                    self.stage = ListStage::Done;
                    self.path = "".to_string();
                },
            },
        }
    }
}

fn add_children(files: &mut Vec<SharedFile>, items: &Vec<DriveItem>, include_folders: bool)
    ensures
        shared_file_views(final(files)@) == with_children(
            shared_file_views(old(files)@),
            drive_item_views(items@),
            include_folders,
        ),
{
    let ghost start = shared_file_views(files@);
    let ghost all = drive_item_views(items@);
    let mut i: usize = 0;
    proof {
        assert(all.take(0) =~= Seq::empty());
    }
    while i < items.len()
        invariant
            i <= items@.len(),
            all == drive_item_views(items@),
            shared_file_views(files@) == with_children(start, all.take(i as int), include_folders),
        decreases items@.len() - i,
    {
        proof {
            assert(all.take(i + 1).drop_last() =~= all.take(i as int));
            assert(all.take(i + 1).last() == items@[i as int]@);
        }
        match child_file(&items[i], include_folders) {
            Some(file) => {
                if !lists_file(files, file.id.as_str()) {
                    let ghost before = files@;
                    files.push(file);
                    proof {
                        assert(shared_file_views(files@) =~= shared_file_views(before).push(file@));
                    }
                }
            },
            None => {},
        }
        i = i + 1;
    }
    proof {
        assert(all.take(i as int) =~= all);
    }
}

// -- Contents and versions --

/// The path of a file's content.
pub fn download_file_data(drive_id: &str, item_id: &str) -> (r: String)
    ensures
        r@ == "/drives/"@ + drive_id@ + "/items/"@ + item_id@ + "/content"@,
{
    let mut s = String::new();
    s.append("/drives/");
    s.append(drive_id);
    s.append("/items/");
    s.append(item_id);
    s.append("/content");
    proof {
        assert(s@ =~= "/drives/"@ + drive_id@ + "/items/"@ + item_id@ + "/content"@);
    }
    s
}
/// The path of a file's versions.
pub fn versions_path(drive_id: &str, item_id: &str) -> (r: String)
    ensures
        r@ == "/drives/"@ + drive_id@ + "/items/"@ + item_id@ + "/versions"@,
{
    let mut s = String::new();
    s.append("/drives/");
    s.append(drive_id);
    s.append("/items/");
    s.append(item_id);
    s.append("/versions");
    proof {
        assert(s@ =~= "/drives/"@ + drive_id@ + "/items/"@ + item_id@ + "/versions"@);
    }
    s
}
/// The path that makes an old version the current one.
pub fn restore_file_version_data(drive_id: &str, item_id: &str, version_id: &str) -> (r: String)
    ensures
        r@ == "/drives/"@ + drive_id@ + "/items/"@ + item_id@ + "/versions/"@ + version_id@
            + "/restoreVersion"@,
{
    let mut s = String::new();
    s.append("/drives/");
    s.append(drive_id);
    s.append("/items/");
    s.append(item_id);
    s.append("/versions/");
    s.append(version_id);
    s.append("/restoreVersion");
    proof {
        assert(
            s@ =~= "/drives/"@ + drive_id@ + "/items/"@ + item_id@ + "/versions/"@ + version_id@
                + "/restoreVersion"@
        );
    }
    s
}
/// The path of an old version's content.
pub fn download_file_version_data(drive_id: &str, item_id: &str, version_id: &str) -> (r: String)
    ensures
        r@ == "/drives/"@ + drive_id@ + "/items/"@ + item_id@ + "/versions/"@ + version_id@
            + "/content"@,
{
    let mut s = String::new();
    s.append("/drives/");
    s.append(drive_id);
    s.append("/items/");
    s.append(item_id);
    s.append("/versions/");
    s.append(version_id);
    s.append("/content");
    proof {
        assert(
            s@ =~= "/drives/"@ + drive_id@ + "/items/"@ + item_id@ + "/versions/"@ + version_id@
                + "/content"@
        );
    }
    s
}
/// Who changed a file.
pub struct ModifiedBy {
    pub user: Option<MessageUser>,
}

/// The model of [`ModifiedBy`].
pub struct ModifiedByV {
    pub user: Option<MessageUserV>,
}

impl View for ModifiedBy {
    type V = ModifiedByV;

    open spec fn view(&self) -> ModifiedByV {
        ModifiedByV {
            user: opt_message_user(self.user),
        }
    }
}

/// An optional [`ModifiedBy`] by its model.
pub open spec fn opt_modified_by(o: Option<ModifiedBy>) -> Option<ModifiedByV> {
    match o {
        Some(x) => Some(x@),
        None => None,
    }
}

/// How a JSON value reads as a [`ModifiedBy`]; nothing where it does not.
pub open spec fn modified_by_of(v: JsonV) -> Option<ModifiedByV> {
    if !json::record_form(v, 1, 1) {
        None
    } else {
        match opt_message_user_member(json::member_of(v, "user"@, 0)) {
            Some(user) => Some(ModifiedByV { user }),
            None => None,
        }
    }
}

/// Reads a [`ModifiedBy`].
pub fn read_modified_by(v: &Json) -> (r: Option<ModifiedBy>)
    ensures
        match r {
            Some(x) => modified_by_of(v@) == Some(x@),
            None => modified_by_of(v@) is None,
        },
{
    if !json::has_record_form(v, 1, 1) {
        return None;
    }
    let user = match read_opt_message_user(json::member(v, "user", 0)) {
        Some(x) => x,
        None => {
            return None;
        },
    };
    Some(ModifiedBy { user })
}

/// How an optional member reads as a [`ModifiedBy`].
pub open spec fn opt_modified_by_member(m: Option<JsonV>) -> Option<Option<ModifiedByV>> {
    match m {
        None => Some(None),
        Some(JsonV::Null) => Some(None),
        Some(j) => match modified_by_of(j) {
            Some(x) => Some(Some(x)),
            None => None,
        },
    }
}

fn read_opt_modified_by(m: Option<&Json>) -> (r: Option<Option<ModifiedBy>>)
    ensures
        match r {
            Some(o) => opt_modified_by_member(json::opt_json(m)) == Some(opt_modified_by(o)),
            None => opt_modified_by_member(json::opt_json(m)) is None,
        },
{
    match m {
        None => Some(None),
        Some(j) => if j.is_null() {
            Some(None)
        } else {
            match read_modified_by(j) {
                Some(x) => Some(Some(x)),
                None => None,
            }
        },
    }
}
/// A version of a file as the service sends it.
pub struct DriveItemVersion {
    pub id: String,
    pub size: Option<u64>,
    pub modified: Option<String>,
    pub modified_by: Option<ModifiedBy>,
}

/// The model of [`DriveItemVersion`].
pub struct DriveItemVersionV {
    pub id: Seq<char>,
    pub size: Option<u64>,
    pub modified: Option<Seq<char>>,
    pub modified_by: Option<ModifiedByV>,
}

impl View for DriveItemVersion {
    type V = DriveItemVersionV;

    open spec fn view(&self) -> DriveItemVersionV {
        DriveItemVersionV {
            id: self.id@,
            size: self.size,
            modified: text::opt_text(self.modified),
            modified_by: opt_modified_by(self.modified_by),
        }
    }
}

/// A list of [`DriveItemVersion`] by their models.
pub open spec fn drive_item_version_views(v: Seq<DriveItemVersion>) -> Seq<DriveItemVersionV> {
    Seq::new(v.len(), |i: int| v[i]@)
}

/// How a JSON value reads as a [`DriveItemVersion`]; nothing where it does not.
pub open spec fn drive_item_version_of(v: JsonV) -> Option<DriveItemVersionV> {
    if !json::record_form(v, 4, 4) {
        None
    } else {
        match (
            json::str_of(json::member_of(v, "id"@, 0)),
            json::opt_u64_member(json::member_of(v, "size"@, 1)),
            json::opt_text_member(json::member_of(v, "lastModifiedDateTime"@, 2)),
            opt_modified_by_member(json::member_of(v, "lastModifiedBy"@, 3)),
        ) {
            (Some(id), Some(size), Some(modified), Some(modified_by)) => Some(
                DriveItemVersionV { id, size, modified, modified_by },
            ),
            _ => None,
        }
    }
}

/// Reads a [`DriveItemVersion`].
pub fn read_drive_item_version(v: &Json) -> (r: Option<DriveItemVersion>)
    ensures
        match r {
            Some(x) => drive_item_version_of(v@) == Some(x@),
            None => drive_item_version_of(v@) is None,
        },
{
    if !json::has_record_form(v, 4, 4) {
        return None;
    }
    let id = match json::as_text(json::member(v, "id", 0)) {
        Some(x) => x,
        None => {
            return None;
        },
    };
    let size = match json::read_opt_u64(json::member(v, "size", 1)) {
        Some(x) => x,
        None => {
            return None;
        },
    };
    let modified = match json::read_opt_text(json::member(v, "lastModifiedDateTime", 2)) {
        Some(x) => x,
        None => {
            return None;
        },
    };
    let modified_by = match read_opt_modified_by(json::member(v, "lastModifiedBy", 3)) {
        Some(x) => x,
        None => {
            return None;
        },
    };
    Some(DriveItemVersion { id, size, modified, modified_by })
}

/// How a list of JSON values reads as a list of [`DriveItemVersion`]: all of them or none.
pub open spec fn drive_item_version_list(a: Seq<JsonV>) -> Option<Seq<DriveItemVersionV>>
    decreases a.len(),
{
    if a.len() == 0 {
        Some(Seq::empty())
    } else {
        match (drive_item_version_list(a.drop_last()), drive_item_version_of(a.last())) {
            (Some(l), Some(x)) => Some(l.push(x)),
            _ => None,
        }
    }
}

proof fn lemma_drive_item_version_list_prefix(a: Seq<JsonV>, i: int)
    requires
        0 <= i <= a.len(),
        drive_item_version_list(a.take(i)) is None,
    ensures
        drive_item_version_list(a) is None,
    decreases a.len() - i,
{
    if i < a.len() {
        assert(a.take(i + 1).drop_last() =~= a.take(i));
        lemma_drive_item_version_list_prefix(a, i + 1);
    } else {
        assert(a.take(i) =~= a);
    }
}

fn read_drive_item_version_list(a: &Vec<Json>) -> (r: Option<Vec<DriveItemVersion>>)
    ensures
        match r {
            Some(l) => drive_item_version_list(json::items_view(a@)) == Some(
                drive_item_version_views(l@),
            ),
            None => drive_item_version_list(json::items_view(a@)) is None,
        },
{
    let ghost all = json::items_view(a@);
    let mut out: Vec<DriveItemVersion> = Vec::new();
    let mut i: usize = 0;
    proof {
        assert(all.take(0) =~= Seq::empty());
        assert(drive_item_version_views(out@) =~= Seq::empty());
    }
    while i < a.len()
        invariant
            i <= a@.len(),
            all == json::items_view(a@),
            drive_item_version_list(all.take(i as int)) == Some(drive_item_version_views(out@)),
        decreases a@.len() - i,
    {
        proof {
            assert(all.take(i + 1).drop_last() =~= all.take(i as int));
            assert(all.take(i + 1).last() == a@[i as int]@);
        }
        match read_drive_item_version(&a[i]) {
            Some(x) => {
                let ghost before = out@;
                out.push(x);
                proof {
                    assert(
                        drive_item_version_views(out@) =~= drive_item_version_views(before).push(x@)
                    );
                }
            },
            None => {
                proof {
                    lemma_drive_item_version_list_prefix(all, i + 1);
                }
                return None;
            },
        }
        i = i + 1;
    }
    proof {
        assert(all.take(i as int) =~= all);
    }
    Some(out)
}

/// How a required list member reads.
pub open spec fn drive_item_version_list_member(m: Option<JsonV>) -> Option<
    Seq<DriveItemVersionV>,
> {
    match m {
        Some(JsonV::Arr(a)) => drive_item_version_list(a),
        _ => None,
    }
}

fn read_drive_item_version_list_member(m: Option<&Json>) -> (r: Option<Vec<DriveItemVersion>>)
    ensures
        match r {
            Some(l) => drive_item_version_list_member(json::opt_json(m)) == Some(
                drive_item_version_views(l@),
            ),
            None => drive_item_version_list_member(json::opt_json(m)) is None,
        },
{
    match m {
        Some(Json::Arr(a)) => {
            proof {
                json::lemma_arr_view(*a);
            }
            read_drive_item_version_list(a)
        },
        _ => None,
    }
}
/// The reply to a request for versions.
pub struct VersionsResponse {
    pub value: Vec<DriveItemVersion>,
}

/// The model of [`VersionsResponse`].
pub struct VersionsResponseV {
    pub value: Seq<DriveItemVersionV>,
}

impl View for VersionsResponse {
    type V = VersionsResponseV;

    open spec fn view(&self) -> VersionsResponseV {
        VersionsResponseV {
            value: drive_item_version_views(self.value@),
        }
    }
}

/// How a JSON value reads as a [`VersionsResponse`]; nothing where it does not.
pub open spec fn versions_response_of(v: JsonV) -> Option<VersionsResponseV> {
    if !json::record_form(v, 1, 1) {
        None
    } else {
        match drive_item_version_list_member(json::member_of(v, "value"@, 0)) {
            Some(value) => Some(VersionsResponseV { value }),
            None => None,
        }
    }
}

/// Reads a [`VersionsResponse`].
pub fn read_versions_response(v: &Json) -> (r: Option<VersionsResponse>)
    ensures
        match r {
            Some(x) => versions_response_of(v@) == Some(x@),
            None => versions_response_of(v@) is None,
        },
{
    if !json::has_record_form(v, 1, 1) {
        return None;
    }
    let value = match read_drive_item_version_list_member(json::member(v, "value", 0)) {
        Some(x) => x,
        None => {
            return None;
        },
    };
    Some(VersionsResponse { value })
}
/// What is shown of a version of a file.
pub struct FileVersion {
    pub id: String,
    pub size: u64,
    pub modified: Option<String>,
    pub modified_by: Option<String>,
}

/// The model of [`FileVersion`].
pub struct FileVersionV {
    pub id: Seq<char>,
    pub size: u64,
    pub modified: Option<Seq<char>>,
    pub modified_by: Option<Seq<char>>,
}

impl View for FileVersion {
    type V = FileVersionV;

    open spec fn view(&self) -> FileVersionV {
        FileVersionV {
            id: self.id@,
            size: self.size,
            modified: text::opt_text(self.modified),
            modified_by: text::opt_text(self.modified_by),
        }
    }
}
/// A list of [`FileVersion`] by their models.
pub open spec fn file_version_views(v: Seq<FileVersion>) -> Seq<FileVersionV> {
    Seq::new(v.len(), |i: int| v[i]@)
}

/// What is shown of a version.
pub open spec fn version_row(v: DriveItemVersionV) -> FileVersionV {
    FileVersionV {
        id: v.id,
        size: match v.size {
            Some(n) => n,
            None => 0u64,
        },
        modified: v.modified,
        modified_by: match v.modified_by {
            Some(b) => match b.user {
                Some(u) => u.display_name,
                None => None,
            },
            None => None,
        },
    }
}

/// What is shown of a version.
pub fn version_from_item(v: &DriveItemVersion) -> (r: FileVersion)
    ensures
        r@ == version_row(v@),
{
    let size: u64 = match v.size {
        Some(n) => n,
        None => 0,
    };
    let modified_by = match &v.modified_by {
        Some(b) => match &b.user {
            Some(u) => text::copy_opt(&u.display_name),
            None => None,
        },
        None => None,
    };
    FileVersion { id: v.id.clone(), size, modified: text::copy_opt(&v.modified), modified_by }
}
/// What is shown of the versions, in order.
pub open spec fn version_rows(v: Seq<DriveItemVersionV>) -> Seq<FileVersionV> {
    Seq::new(v.len(), |i: int| version_row(v[i]))
}

/// What is shown of the versions, in order.
pub fn file_versions(v: &Vec<DriveItemVersion>) -> (r: Vec<FileVersion>)
    ensures
        file_version_views(r@) == version_rows(drive_item_version_views(v@)),
{
    let mut out: Vec<FileVersion> = Vec::new();
    let mut i: usize = 0;
    while i < v.len()
        invariant
            i <= v@.len(),
            out@.len() == i,
            forall|j: int| 0 <= j < i ==> (#[trigger] out@[j])@ == version_row(v@[j]@),
        decreases v@.len() - i,
    {
        out.push(version_from_item(&v[i]));
        i = i + 1;
    }
    proof {
        assert(file_version_views(out@) =~= version_rows(drive_item_version_views(v@)));
    }
    out
}
/// The versions of a file, by the JSON value of the reply; nothing where it is of another form.
pub open spec fn versions_of(v: JsonV) -> Option<Seq<FileVersionV>> {
    match versions_response_of(v) {
        Some(x) => Some(version_rows(x.value)),
        None => None,
    }
}

/// The versions of a file, by the JSON value of the reply.
pub fn read_versions(v: &Json) -> (r: Option<Vec<FileVersion>>)
    ensures
        match r {
            Some(l) => versions_of(v@) == Some(file_version_views(l@)),
            None => versions_of(v@) is None,
        },
{
    match read_versions_response(v) {
        Some(x) => Some(file_versions(&x.value)),
        None => None,
    }
}

/// The versions of a file, by the body of the reply.
pub fn list_file_versions_data(body: &[u8]) -> (r: Result<Vec<FileVersion>, String>)
    ensures
        match r {
            Ok(l) => json::json_bytes(body@) matches Some(v) && versions_of(v) == Some(
                file_version_views(l@),
            ),
            Err(e) => (json::json_bytes(body@) matches Some(v) ==> versions_of(v) is None) && e@
                == "Failed to parse versions response"@,
        },
{
    if let Some(v) = json::parse_json_bytes(body) {
        if let Some(l) = read_versions(&v) {
            return Ok(l);
        }
    }
    Err("Failed to parse versions response".to_string())
}

// -- Upload --

/// An upload holds fewer bytes than this.
pub const MAX_SIMPLE_UPLOAD: u64 = 4_194_304;

/// Refuses uploads that are too large; the error is the text to show.
pub fn check_upload_size(len: u64) -> (r: Result<(), String>)
    ensures
        match r {
            Ok(_) => len < 4_194_304,
            Err(e) => len >= 4_194_304 && e@ == "File is "@ + text::decimal(len as nat)
                + " bytes; simple upload supports <4 MB only (upload sessions not implemented)"@,
        },
{
    if len >= MAX_SIMPLE_UPLOAD {
        let n = text::to_decimal(len);
        return Err(
            text::join3(
                "File is ",
                n.as_str(),
                " bytes; simple upload supports <4 MB only (upload sessions not implemented)",
            ),
        );
    }
    Ok(())
}

/// The path to which a file for a chat is uploaded: in the sender's folder of
/// chat files.
pub fn chat_upload_path(filename: &str) -> (r: String)
    ensures
        r@ == "/me/drive/root:/"@ + web::encoded("Microsoft Teams Chat Files"@) + "/"@
            + web::encoded(filename@) + ":/content"@,
{
    let mut s = "/me/drive/root:/".to_string();
    s.append(web::encode("Microsoft Teams Chat Files").as_str());
    s.append("/");
    s.append(web::encode(filename).as_str());
    s.append(":/content");
    s
}

/// The path to which a file for a channel is uploaded.
pub fn channel_upload_path(drive_id: &str, folder_id: &str, filename: &str) -> (r: String)
    ensures
        r@ == "/drives/"@ + drive_id@ + "/items/"@ + folder_id@ + ":/"@ + web::encoded(filename@)
            + ":/content"@,
{
    let mut s = text::join3("/drives/", drive_id, "/items/");
    s.append(folder_id);
    s.append(":/");
    s.append(web::encode(filename).as_str());
    s.append(":/content");
    s
}

/// The path to which a message of a chat is posted.
pub fn chat_post_path(chat_id: &str) -> (r: String)
    ensures
        r@ == "/me/chats/"@ + chat_id@ + "/messages"@,
{
    let mut s = String::new();
    s.append("/me/chats/");
    s.append(chat_id);
    s.append("/messages");
    proof {
        assert(s@ =~= "/me/chats/"@ + chat_id@ + "/messages"@);
    }
    s
}
/// The path to which a message of a channel is posted.
pub fn channel_post_path(team_id: &str, channel_id: &str) -> (r: String)
    ensures
        r@ == "/teams/"@ + team_id@ + "/channels/"@ + channel_id@ + "/messages"@,
{
    let mut s = String::new();
    s.append("/teams/");
    s.append(team_id);
    s.append("/channels/");
    s.append(channel_id);
    s.append("/messages");
    proof {
        assert(s@ =~= "/teams/"@ + team_id@ + "/channels/"@ + channel_id@ + "/messages"@);
    }
    s
}

/// True of a hexadecimal digit.
pub open spec fn is_hex_char(c: char) -> bool {
    ('0' <= c <= '9') || ('a' <= c <= 'f') || ('A' <= c <= 'F')
}

/// True when a GUID stands at `i`: groups of 8, 4, 4, 4 and 12 digits.
pub open spec fn guid_at(s: Seq<char>, i: int) -> bool {
    &&& 0 <= i
    &&& i + 36 <= s.len()
    &&& forall|k: int|
        0 <= k < 36 ==> if k == 8 || k == 13 || k == 18 || k == 23 {
            s[i + k] == '-'
        } else {
            is_hex_char(#[trigger] s[i + k])
        }
}

fn stands_guid(v: &Vec<char>, at: usize) -> (r: bool)
    requires
        at + 36 <= v@.len(),
    ensures
        r == guid_at(v@, at as int),
{
    let n: usize = v.len();
    let mut k: usize = 0;
    while k < 36
        invariant
            k <= 36,
            at + 36 <= n,
            n == v@.len(),
            forall|j: int|
                0 <= j < k ==> if j == 8 || j == 13 || j == 18 || j == 23 {
                    v@[at + j] == '-'
                } else {
                    is_hex_char(#[trigger] v@[at + j])
                },
        decreases 36 - k,
    {
        let c = v[at + k];
        let ok = if k == 8 || k == 13 || k == 18 || k == 23 {
            c == '-'
        } else {
            (c >= '0' && c <= '9') || (c >= 'a' && c <= 'f') || (c >= 'A' && c <= 'F')
        };
        if !ok {
            proof {
                let j = k as int;
                assert(v@[at + j] == c);
                assert(!guid_at(v@, at as int));
            }
            return false;
        }
        k = k + 1;
    }
    true
}

/// The first GUID in a tag.
pub fn guid_from_etag(etag: &str) -> (r: Option<String>)
    ensures
        match r {
            Some(g) => exists|i: int|
                #[trigger] guid_at(etag@, i) && g@ == etag@.subrange(i, i + 36) && forall|j: int|
                    0 <= j < i ==> !#[trigger] guid_at(etag@, j),
            None => forall|i: int| !#[trigger] guid_at(etag@, i),
        },
{
    let v = text::chars_of(etag);
    let n: usize = v.len();
    let mut i: usize = 0;
    while n - i >= 36
        invariant
            i <= n,
            n == v@.len(),
            v@ == etag@,
            forall|j: int| 0 <= j < i ==> !#[trigger] guid_at(etag@, j),
        decreases n - i,
    {
        if stands_guid(&v, i) {
            assert(guid_at(etag@, i as int));
            return Some(text::text_of(&v, i, i + 36));
        }
        i = i + 1;
    }
    None
}

/// Why an uploaded file cannot be posted.
pub enum UploadError {
    /// The reply is not an item.
    Unreadable,
    /// The tag of the reply holds no GUID.
    NoGuid(String),
    /// The reply says no address.
    NoAddress,
}

/// The address of an uploaded file.
pub open spec fn upload_address(item: DriveItemV) -> Option<Seq<char>> {
    match item.web_dav_url {
        Some(u) => Some(u),
        None => item.web_url,
    }
}

/// The attachment that refers to an uploaded file.
pub open spec fn attachment_payload(
    id: Seq<char>,
    url: Seq<char>,
    filename: Seq<char>,
) -> JsonV {
    FieldsV::new().text("id"@, id).text("contentType"@, "reference"@).text(
        "contentUrl"@,
        url,
    ).text("name"@, filename).obj()
}

/// The id and the address under which an uploaded file is attached.
pub struct UploadedFile {
    pub id: String,
    pub url: String,
}

/// True of the first GUID in a text.
pub open spec fn is_first_guid(s: Seq<char>, g: Seq<char>) -> bool {
    exists|i: int|
        #[trigger] guid_at(s, i) && g == s.subrange(i, i + 36) && forall|j: int|
            0 <= j < i ==> !#[trigger] guid_at(s, j)
}

/// Says under which id and address an uploaded file is attached.
pub fn uploaded_file(item: &DriveItem) -> (r: Result<UploadedFile, UploadError>)
    ensures
        ({
            let tag = teams::or_text(item@.etag, Seq::empty());
            match r {
                Ok(u) => is_first_guid(tag, u.id@) && upload_address(item@) == Some(u.url@),
                Err(UploadError::NoGuid(t)) => t@ == tag && forall|i: int|
                    !#[trigger] guid_at(tag, i),
                Err(UploadError::NoAddress) => upload_address(item@) is None && exists|i: int|
                    #[trigger] guid_at(tag, i),
                Err(UploadError::Unreadable) => false,
            }
        }),
{
    proof {
        reveal_strlit("");
        assert(""@ =~= Seq::empty());
    }
    let tag = teams::text_or(&item.etag, "");
    let id = match guid_from_etag(tag.as_str()) {
        Some(g) => g,
        None => {
            return Err(UploadError::NoGuid(tag));
        },
    };
    let url = match &item.web_dav_url {
        Some(u) => u.clone(),
        None => match &item.web_url {
            Some(u) => u.clone(),
            None => {
                return Err(UploadError::NoAddress);
            },
        },
    };
    Ok(UploadedFile { id, url })
}

/// The attachment that refers to an uploaded file.
pub fn reference_attachment(item: &DriveItem, filename: &str) -> (r: Result<Json, UploadError>)
    ensures
        ({
            let tag = teams::or_text(item@.etag, Seq::empty());
            match r {
                Ok(a) => upload_address(item@) matches Some(u) && exists|g: Seq<char>|
                    #[trigger] is_first_guid(tag, g) && a@ == attachment_payload(g, u, filename@),
                Err(UploadError::NoGuid(t)) => t@ == tag && forall|i: int|
                    !#[trigger] guid_at(tag, i),
                Err(UploadError::NoAddress) => upload_address(item@) is None && exists|i: int|
                    #[trigger] guid_at(tag, i),
                Err(UploadError::Unreadable) => false,
            }
        }),
{
    match uploaded_file(item) {
        Ok(u) => Ok(attachment_for(u.id.as_str(), u.url.as_str(), filename)),
        Err(e) => Err(e),
    }
}

fn attachment_for(id: &str, url: &str, filename: &str) -> (r: Json)
    ensures
        r@ == attachment_payload(id@, url@, filename@),
{
    let mut o = Fields::new();
    o.text("id", id);
    o.text("contentType", "reference");
    o.text("contentUrl", url);
    o.text("name", filename);
    o.obj()
}

/// The message that posts an uploaded file.
pub open spec fn file_message(id: Seq<char>, url: Seq<char>, filename: Seq<char>) -> JsonV {
    FieldsV::new().put(
        "body"@,
        FieldsV::new().text("contentType"@, "html"@).text(
            "content"@,
            "<attachment id=\""@ + id + "\"></attachment>"@,
        ).obj(),
    ).put(
        "attachments"@,
        JsonV::Arr(Seq::empty().push(attachment_payload(id, url, filename))),
    ).obj()
}

/// The message that posts an uploaded file.
pub fn reference_message(file: &UploadedFile, filename: &str) -> (r: Json)
    ensures
        r@ == file_message(file.id@, file.url@, filename@),
{
    let mut body = Fields::new();
    body.text("contentType", "html");
    body.text(
        "content",
        text::join3("<attachment id=\"", file.id.as_str(), "\"></attachment>").as_str(),
    );
    let mut list = Items::new();
    list.push(attachment_for(file.id.as_str(), file.url.as_str(), filename));
    let mut o = Fields::new();
    o.put("body", body.obj());
    o.put("attachments", list.arr());
    o.obj()
}

/// Where an upload starts.
pub enum UploadStart {
    /// A file for a chat: where its bytes go, and where the message goes.
    Chat { put_path: String, post_path: String },
    /// A file for a channel, whose team and folder are looked up first.
    Channel,
}

/// Decides where an upload starts; the error is the text to show.
pub fn upload_file_data(len: u64, filename: Option<&str>, chat_id: &str) -> (r: Result<
    UploadStart,
    String,
>)
    ensures
        match r {
            Ok(start) => {
                &&& len < 4_194_304
                &&& text::opt_str(filename) matches Some(f)
                &&& f.len() > 0
                &&& match start {
                    UploadStart::Channel => "@thread.tacv2"@.is_suffix_of(text::trimmed(chat_id@)),
                    UploadStart::Chat { put_path, post_path } => {
                        &&& !"@thread.tacv2"@.is_suffix_of(text::trimmed(chat_id@))
                        &&& put_path@ == "/me/drive/root:/"@ + web::encoded(
                            "Microsoft Teams Chat Files"@,
                        ) + "/"@ + web::encoded(f) + ":/content"@
                        &&& post_path@ == "/me/chats/"@ + chat_id@ + "/messages"@
                    },
                }
            },
            Err(e) => if len >= 4_194_304 {
                e@ == "File is "@ + text::decimal(len as nat)
                    + " bytes; simple upload supports <4 MB only (upload sessions not implemented)"@
            } else {
                (text::opt_str(filename) matches Some(f) ==> f.len() == 0) && e@
                    == "Local path has no file name"@
            },
        },
{
    if let Err(e) = check_upload_size(len) {
        return Err(e);
    }
    let name = match filename {
        Some(f) => f,
        None => {
            return Err("Local path has no file name".to_string());
        },
    };
    if name.is_empty() {
        return Err("Local path has no file name".to_string());
    }
    if is_channel_id(chat_id) {
        Ok(UploadStart::Channel)
    } else {
        Ok(
            UploadStart::Chat {
                put_path: chat_upload_path(name),
                post_path: chat_post_path(chat_id),
            },
        )
    }
}

/// Where the bytes of a file for a channel go, by the reply with the channel's
/// folder; the error is the text to show.
pub fn channel_put_path(folder_reply: &[u8], filename: &str) -> (r: Result<String, String>)
    ensures
        match r {
            Ok(p) => item_in(folder_reply@) matches Some(folder) && drive_of(folder) matches Some(d)
                && p@ == "/drives/"@ + d + "/items/"@ + folder.id + ":/"@ + web::encoded(filename@)
                + ":/content"@,
            Err(e) => match item_in(folder_reply@) {
                None => e@ == "Failed to parse filesFolder response"@,
                Some(folder) => drive_of(folder) is None && e@
                    == "filesFolder response missing parent driveId"@,
            },
        },
{
    let folder = match parse_item(folder_reply) {
        Some(f) => f,
        None => {
            return Err("Failed to parse filesFolder response".to_string());
        },
    };
    match folder_drive(&folder) {
        Ok(d) => Ok(channel_upload_path(d.as_str(), folder.id.as_str(), filename)),
        Err(e) => Err(e),
    }
}

/// A file that was uploaded, with the message that posts it.
pub struct PostedFile {
    pub file: SharedFile,
    pub message: Json,
}

/// The file that was uploaded and the message that posts it, by the reply to the
/// upload.
pub fn posted_upload(reply: &[u8], filename: &str) -> (r: Result<PostedFile, UploadError>)
    ensures
        match r {
            Ok(p) => item_in(reply@) matches Some(item) && upload_address(item) matches Some(u)
                && p.file@ == shared_row(item, None) && exists|g: Seq<char>|
                #[trigger] is_first_guid(teams::or_text(item.etag, Seq::empty()), g) && p.message@
                    == file_message(g, u, filename@),
            Err(UploadError::Unreadable) => item_in(reply@) is None,
            Err(UploadError::NoGuid(t)) => item_in(reply@) matches Some(item) && t@
                == teams::or_text(item.etag, Seq::empty()) && forall|i: int|
                !#[trigger] guid_at(t@, i),
            Err(UploadError::NoAddress) => item_in(reply@) matches Some(item) && upload_address(
                item,
            )
                is None && exists|i: int|
                #[trigger] guid_at(teams::or_text(item.etag, Seq::empty()), i),
        },
{
    let item = match parse_item(reply) {
        Some(x) => x,
        None => {
            return Err(UploadError::Unreadable);
        },
    };
    match uploaded_file(&item) {
        Ok(u) => {
            let message = reference_message(&u, filename);
            let file = shared_from_item(&item, None);
            Ok(PostedFile { file, message })
        },
        Err(e) => Err(e),
    }
}

// -- Sharing links --

/// A link to a file that shows it and does not change it.
pub struct SharedLink {
    pub url: String,
    pub scope: Option<String>,
}

/// The model of [`SharedLink`].
pub struct SharedLinkV {
    pub url: Seq<char>,
    pub scope: Option<Seq<char>>,
}

impl View for SharedLink {
    type V = SharedLinkV;

    open spec fn view(&self) -> SharedLinkV {
        SharedLinkV {
            url: self.url@,
            scope: text::opt_text(self.scope),
        }
    }
}
/// A link as the service sends it.
pub struct CreateLinkInner {
    pub web_url: Option<String>,
    pub scope: Option<String>,
}

/// The model of [`CreateLinkInner`].
pub struct CreateLinkInnerV {
    pub web_url: Option<Seq<char>>,
    pub scope: Option<Seq<char>>,
}

impl View for CreateLinkInner {
    type V = CreateLinkInnerV;

    open spec fn view(&self) -> CreateLinkInnerV {
        CreateLinkInnerV {
            web_url: text::opt_text(self.web_url),
            scope: text::opt_text(self.scope),
        }
    }
}

/// An optional [`CreateLinkInner`] by its model.
pub open spec fn opt_create_link_inner(o: Option<CreateLinkInner>) -> Option<CreateLinkInnerV> {
    match o {
        Some(x) => Some(x@),
        None => None,
    }
}

/// How a JSON value reads as a [`CreateLinkInner`]; nothing where it does not.
pub open spec fn create_link_inner_of(v: JsonV) -> Option<CreateLinkInnerV> {
    if !json::record_form(v, 2, 2) {
        None
    } else {
        match (
            json::opt_text_member(json::member_of(v, "webUrl"@, 0)),
            json::opt_text_member(json::member_of(v, "scope"@, 1)),
        ) {
            (Some(web_url), Some(scope)) => Some(CreateLinkInnerV { web_url, scope }),
            _ => None,
        }
    }
}

/// Reads a [`CreateLinkInner`].
pub fn read_create_link_inner(v: &Json) -> (r: Option<CreateLinkInner>)
    ensures
        match r {
            Some(x) => create_link_inner_of(v@) == Some(x@),
            None => create_link_inner_of(v@) is None,
        },
{
    if !json::has_record_form(v, 2, 2) {
        return None;
    }
    let web_url = match json::read_opt_text(json::member(v, "webUrl", 0)) {
        Some(x) => x,
        None => {
            return None;
        },
    };
    let scope = match json::read_opt_text(json::member(v, "scope", 1)) {
        Some(x) => x,
        None => {
            return None;
        },
    };
    Some(CreateLinkInner { web_url, scope })
}

/// How an optional member reads as a [`CreateLinkInner`].
pub open spec fn opt_create_link_inner_member(m: Option<JsonV>) -> Option<
    Option<CreateLinkInnerV>,
> {
    match m {
        None => Some(None),
        Some(JsonV::Null) => Some(None),
        Some(j) => match create_link_inner_of(j) {
            Some(x) => Some(Some(x)),
            None => None,
        },
    }
}

fn read_opt_create_link_inner(m: Option<&Json>) -> (r: Option<Option<CreateLinkInner>>)
    ensures
        match r {
            Some(o) => opt_create_link_inner_member(json::opt_json(m)) == Some(
                opt_create_link_inner(o),
            ),
            None => opt_create_link_inner_member(json::opt_json(m)) is None,
        },
{
    match m {
        None => Some(None),
        Some(j) => if j.is_null() {
            Some(None)
        } else {
            match read_create_link_inner(j) {
                Some(x) => Some(Some(x)),
                None => None,
            }
        },
    }
}
/// The reply to a request for a link.
pub struct CreateLinkResponse {
    pub link: Option<CreateLinkInner>,
}

/// The model of [`CreateLinkResponse`].
pub struct CreateLinkResponseV {
    pub link: Option<CreateLinkInnerV>,
}

impl View for CreateLinkResponse {
    type V = CreateLinkResponseV;

    open spec fn view(&self) -> CreateLinkResponseV {
        CreateLinkResponseV {
            link: opt_create_link_inner(self.link),
        }
    }
}

/// How a JSON value reads as a [`CreateLinkResponse`]; nothing where it does not.
pub open spec fn create_link_response_of(v: JsonV) -> Option<CreateLinkResponseV> {
    if !json::record_form(v, 1, 1) {
        None
    } else {
        match opt_create_link_inner_member(json::member_of(v, "link"@, 0)) {
            Some(link) => Some(CreateLinkResponseV { link }),
            None => None,
        }
    }
}

/// Reads a [`CreateLinkResponse`].
pub fn read_create_link_response(v: &Json) -> (r: Option<CreateLinkResponse>)
    ensures
        match r {
            Some(x) => create_link_response_of(v@) == Some(x@),
            None => create_link_response_of(v@) is None,
        },
{
    if !json::has_record_form(v, 1, 1) {
        return None;
    }
    let link = match read_opt_create_link_inner(json::member(v, "link", 0)) {
        Some(x) => x,
        None => {
            return None;
        },
    };
    Some(CreateLinkResponse { link })
}

/// The scope of a name in lower case: anyone, or else the organization.
pub open spec fn scope_of(name: Seq<char>) -> Seq<char> {
    if name == "anonymous"@ || name == "anyone"@ {
        "anonymous"@
    } else {
        "organization"@
    }
}

/// The scope of a link: `anonymous` for that name or for `anyone`, in any case,
/// and `organization` for everything else.
pub fn normalize_link_scope(scope: &str) -> (r: &'static str)
    ensures
        r@ == scope_of(text::unicode_lower(text::trimmed(scope@))),
        is_ascii_chars(text::trimmed(scope@)) ==> r@ == scope_of(
            text::lowered(text::trimmed(scope@)),
        ),
{
    let t = text::trim(scope);
    let low = text::to_lowercase(t.as_str());
    if text::same(low.as_str(), "anonymous") || text::same(low.as_str(), "anyone") {
        "anonymous"
    } else {
        "organization"
    }
}

/// The body that asks for a link.
pub fn create_link_body(scope: &str) -> (r: Json)
    ensures
        r@ == FieldsV::new().text("type"@, "view"@).text(
            "scope"@,
            scope_of(text::unicode_lower(text::trimmed(scope@))),
        ).obj(),
        is_ascii_chars(text::trimmed(scope@)) ==> r@ == FieldsV::new().text("type"@, "view"@).text(
            "scope"@,
            scope_of(text::lowered(text::trimmed(scope@))),
        ).obj(),
{
    let mut o = Fields::new();
    o.text("type", "view");
    o.text("scope", normalize_link_scope(scope));
    o.obj()
}

/// The path that asks for a link.
pub fn create_link_path(drive_id: &str, item_id: &str) -> (r: String)
    ensures
        r@ == "/drives/"@ + drive_id@ + "/items/"@ + item_id@ + "/createLink"@,
{
    let mut s = String::new();
    s.append("/drives/");
    s.append(drive_id);
    s.append("/items/");
    s.append(item_id);
    s.append("/createLink");
    proof {
        assert(s@ =~= "/drives/"@ + drive_id@ + "/items/"@ + item_id@ + "/createLink"@);
    }
    s
}

/// The link of a reply, or the text to show.
pub open spec fn link_of(v: JsonV) -> Result<SharedLinkV, Seq<char>> {
    match create_link_response_of(v) {
        None => Err("Failed to parse createLink response"@),
        Some(x) => match x.link {
            None => Err("createLink response has no link object"@),
            Some(l) => match l.web_url {
                Some(u) => if u.len() > 0 {
                    Ok(SharedLinkV { url: u, scope: l.scope })
                } else {
                    Err("createLink response link has no webUrl"@)
                },
                None => Err("createLink response link has no webUrl"@),
            },
        },
    }
}

/// Takes the link out of a reply, by its JSON value.
pub fn read_link(v: &Json) -> (r: Result<SharedLink, String>)
    ensures
        match r {
            Ok(l) => link_of(v@) == Ok::<SharedLinkV, Seq<char>>(l@),
            Err(e) => link_of(v@) == Err::<SharedLinkV, Seq<char>>(e@),
        },
{
    let resp = match read_create_link_response(v) {
        Some(x) => x,
        None => {
            return Err("Failed to parse createLink response".to_string());
        },
    };
    match &resp.link {
        None => Err("createLink response has no link object".to_string()),
        Some(l) => match &l.web_url {
            Some(u) => if u.as_str().is_empty() {
                Err("createLink response link has no webUrl".to_string())
            } else {
                Ok(SharedLink { url: u.clone(), scope: text::copy_opt(&l.scope) })
            },
            None => Err("createLink response link has no webUrl".to_string()),
        },
    }
}

/// Takes the link out of a reply.
pub fn parse_create_link(body: &serde_json::Value) -> (r: Result<SharedLink, String>)
    ensures
        match r {
            Ok(l) => link_of(json::held_json(*body)) == Ok::<SharedLinkV, Seq<char>>(l@),
            Err(e) => link_of(json::held_json(*body)) == Err::<SharedLinkV, Seq<char>>(e@),
        },
{
    let v = json::from_value(body);
    read_link(&v)
}

/// Takes the link out of the bytes of a reply; the error is the text to show.
pub fn read_create_link_reply(body: &[u8]) -> (r: Result<SharedLink, String>)
    ensures
        match json::json_bytes(body@) {
            Some(v) => match r {
                Ok(l) => link_of(v) == Ok::<SharedLinkV, Seq<char>>(l@),
                Err(e) => link_of(v) == Err::<SharedLinkV, Seq<char>>(e@),
            },
            None => r matches Err(e) && e@ == "Failed to read createLink response"@,
        },
{
    match json::value_from_bytes(body) {
        Some(v) => parse_create_link(&v),
        None => Err("Failed to read createLink response".to_string()),
    }
}

// -- What the commands show --

/// What is shown of the type and the origin of a file.
pub open spec fn origin_shown(x: SharedFileV) -> Seq<char> {
    (match x.mime {
            Some(t) => "  Type: "@ + t + "\n"@,
            None => Seq::empty(),
        })
        + (match x.sender {
            Some(t) => "  From: "@ + t + "\n"@,
            None => Seq::empty(),
        })
        + (match x.web_url {
            Some(t) => "  URL:  "@ + t + "\n"@,
            None => Seq::empty(),
        })
}

fn show_origin(x: &SharedFile) -> (r: String)
    ensures
        r@ == origin_shown(x@),
{
    let mut s = String::new();
    match &x.mime {
        Some(t) => {
            s.append("  Type: ");
            s.append(t.as_str());
            s.append("\n");
        },
        None => {},
    }
    match &x.sender {
        Some(t) => {
            s.append("  From: ");
            s.append(t.as_str());
            s.append("\n");
        },
        None => {},
    }
    match &x.web_url {
        Some(t) => {
            s.append("  URL:  ");
            s.append(t.as_str());
            s.append("\n");
        },
        None => {},
    }
    proof {
        assert(s@ =~= origin_shown(x@));
    }
    s
}

/// What is shown of a file.
pub open spec fn file_shown(x: SharedFileV) -> Seq<char> {
    x.name
        + (if x.is_folder {
            "/"@
        } else {
            Seq::empty()
        }) + "\n  ID:   "@ + x.id + "\n"@
        + (match x.drive_id {
            Some(t) => "  Drive: "@ + t + "\n"@,
            None => Seq::empty(),
        }) + "  Size: "@ + text::decimal(x.size as nat) + " bytes\n"@ + origin_shown(x) + "\n"@
}

fn show_file(x: &SharedFile) -> (r: String)
    ensures
        r@ == file_shown(x@),
{
    let mut s = String::new();
    s.append(x.name.as_str());
    if x.is_folder {
        s.append("/");
    }
    s.append("\n  ID:   ");
    s.append(x.id.as_str());
    s.append("\n");
    match &x.drive_id {
        Some(t) => {
            s.append("  Drive: ");
            s.append(t.as_str());
            s.append("\n");
        },
        None => {},
    }
    s.append("  Size: ");
    s.append(text::to_decimal(x.size).as_str());
    s.append(" bytes\n");
    s.append(show_origin(x).as_str());
    s.append("\n");
    proof {
        assert(s@ =~= file_shown(x@));
    }
    s
}

/// What is shown of a list, entry by entry.
pub open spec fn files_shown(v: Seq<SharedFileV>) -> Seq<char>
    decreases v.len(),
{
    if v.len() == 0 {
        Seq::empty()
    } else {
        files_shown(v.drop_last()) + file_shown(v.last())
    }
}

fn show_files(v: &Vec<SharedFile>) -> (r: String)
    ensures
        r@ == files_shown(shared_file_views(v@)),
{
    let ghost all = shared_file_views(v@);
    let mut s = String::new();
    let mut i: usize = 0;
    proof {
        assert(all.take(0) =~= Seq::empty());
        assert(s@ =~= Seq::empty());
    }
    while i < v.len()
        invariant
            i <= v@.len(),
            all == shared_file_views(v@),
            s@ == files_shown(all.take(i as int)),
        decreases v@.len() - i,
    {
        proof {
            assert(all.take(i + 1).drop_last() =~= all.take(i as int));
            assert(all.take(i + 1).last() == v@[i as int]@);
        }
        s.append(show_file(&v[i]).as_str());
        i = i + 1;
    }
    proof {
        assert(all.take(i as int) =~= all);
    }
    s
}

/// The list of shared files.
pub fn list_files(v: &Vec<SharedFile>) -> (r: String)
    ensures
        r@ == "\nShared Files:\n------------------------------------------------------------\n"@
            + (if v@.len() == 0 {
            "  (no shared files found)\n"@
        } else {
            files_shown(shared_file_views(v@))
        }),
{
    let mut s = String::new();
    s.append("\nShared Files:\n------------------------------------------------------------\n");
    if v.len() == 0 {
        s.append("  (no shared files found)\n");
    } else {
        s.append(show_files(v).as_str());
    }
    proof {
        assert(s@ =~= "\nShared Files:\n------------------------------------------------------------\n"@
            + (if v@.len() == 0 {
            "  (no shared files found)\n"@
        } else {
            files_shown(shared_file_views(v@))
        }));
    }
    s
}

// -- What is read --

/// What is read of a [`FileFacet`] stands in the members of these names, and it is read
/// where they hold what they should.
pub proof fn law_file_facet_reads_its_members(v: JsonV)
    requires
        v is Obj,
    ensures
        match file_facet_of(v) {
            Some(x) => {
                &&& x.mime_type == json::str_of(json::get_of(v, "mimeType"@))
            },
            None => !(json::opt_text_member(json::get_of(v, "mimeType"@)) is Some),
        },
{
}

/// What is read of a [`ParentRef`] stands in the members of these names, and it is read
/// where they hold what they should.
pub proof fn law_parent_ref_reads_its_members(v: JsonV)
    requires
        v is Obj,
    ensures
        match parent_ref_of(v) {
            Some(x) => {
                &&& x.drive_id == json::str_of(json::get_of(v, "driveId"@))
            },
            None => !(json::opt_text_member(json::get_of(v, "driveId"@)) is Some),
        },
{
}

/// What is read of a [`DriveItem`] stands in the members of these names, and it is read
/// where they hold what they should.
pub proof fn law_drive_item_reads_its_members(v: JsonV)
    requires
        v is Obj,
    ensures
        match drive_item_of(v) {
            Some(x) => {
                &&& json::str_of(json::get_of(v, "id"@)) == Some(x.id)
                &&& x.name == json::str_of(json::get_of(v, "name"@))
                &&& x.size == json::u64_of(json::get_of(v, "size"@))
                &&& x.etag == json::str_of(json::get_of(v, "eTag"@))
                &&& x.web_url == json::str_of(json::get_of(v, "webUrl"@))
                &&& x.web_dav_url == json::str_of(json::get_of(v, "webDavUrl"@))
                &&& x.download_url == json::str_of(json::get_of(v, "@microsoft.graph.downloadUrl"@))
                &&& x.created == json::str_of(json::get_of(v, "createdDateTime"@))
                &&& x.modified == json::str_of(json::get_of(v, "lastModifiedDateTime"@))
                &&& (json::get_of(v, "file"@) is None
                    || json::get_of(v, "file"@) == Some(JsonV::Null)) ==> x.file is None
                &&& json::get_of(v, "file"@) matches Some(w) ==> w != JsonV::Null ==> x.file is Some
                    && file_facet_of(w) == x.file
                &&& x.folder <==> json::get_of(v, "folder"@) is Some
                    && json::get_of(v, "folder"@) != Some(JsonV::Null)
                &&& (json::get_of(v, "parentReference"@) is None
                    || json::get_of(v, "parentReference"@) == Some(JsonV::Null))
                    ==> x.parent is None
                &&& json::get_of(v, "parentReference"@) matches Some(w) ==> w != JsonV::Null
                    ==> x.parent is Some && parent_ref_of(w) == x.parent
            },
            None => !(json::str_of(json::get_of(v, "id"@)) is Some
                && json::opt_text_member(json::get_of(v, "name"@)) is Some
                && json::opt_u64_member(json::get_of(v, "size"@)) is Some
                && json::opt_text_member(json::get_of(v, "eTag"@)) is Some
                && json::opt_text_member(json::get_of(v, "webUrl"@)) is Some
                && json::opt_text_member(json::get_of(v, "webDavUrl"@)) is Some
                && json::opt_text_member(json::get_of(v, "@microsoft.graph.downloadUrl"@)) is Some
                && json::opt_text_member(json::get_of(v, "createdDateTime"@)) is Some
                && json::opt_text_member(json::get_of(v, "lastModifiedDateTime"@)) is Some
                && opt_file_facet_member(json::get_of(v, "file"@)) is Some
                && opt_parent_ref_member(json::get_of(v, "parentReference"@)) is Some),
        },
{
}

// The entries of a list, in their order.
proof fn lemma_drive_item_list_entries(a: Seq<JsonV>)
    ensures
        drive_item_list(a) matches Some(l) ==> l.len() == a.len() && forall|i: int|
            0 <= i < a.len() ==> drive_item_of(a[i]) == Some(#[trigger] l[i]),
    decreases a.len(),
{
    if a.len() > 0 {
        lemma_drive_item_list_entries(a.drop_last());
        if let Some(l) = drive_item_list(a) {
            assert forall|i: int| 0 <= i < a.len() implies drive_item_of(a[i])
                == Some(#[trigger] l[i]) by {
                if i < a.len() - 1 {
                    let before = drive_item_list(a.drop_last())->0;
                    assert(l[i] == before[i]);
                    assert(a.drop_last()[i] == a[i]);
                }
            }
        }
    }
}

/// What is read of a [`DriveChildrenResponse`] stands in the members of these names, and it is read
/// where they hold what they should.
pub proof fn law_drive_children_response_reads_its_members(v: JsonV)
    requires
        v is Obj,
    ensures
        match drive_children_response_of(v) {
            Some(x) => {
                &&& (json::arr_of(json::get_of(v, "value"@)) matches Some(a)
                    && x.value.len() == a.len() && forall|i: int| 0 <= i < a.len()
                    ==> drive_item_of(a[i]) == Some(#[trigger] x.value[i]))
            },
            None => !(drive_item_list_member(json::get_of(v, "value"@)) is Some),
        },
{
    if let Some(JsonV::Arr(a)) = json::get_of(v, "value"@) {
        lemma_drive_item_list_entries(a);
    }
}

/// What is read of a [`GraphAttachment`] stands in the members of these names, and it is read
/// where they hold what they should.
pub proof fn law_graph_attachment_reads_its_members(v: JsonV)
    requires
        v is Obj,
    ensures
        match graph_attachment_of(v) {
            Some(x) => {
                &&& x.content_type == json::str_of(json::get_of(v, "contentType"@))
                &&& x.content_url == json::str_of(json::get_of(v, "contentUrl"@))
                &&& x.name == json::str_of(json::get_of(v, "name"@))
            },
            None => !(json::opt_text_member(json::get_of(v, "contentType"@)) is Some
                && json::opt_text_member(json::get_of(v, "contentUrl"@)) is Some
                && json::opt_text_member(json::get_of(v, "name"@)) is Some),
        },
{
}

/// What is read of a [`MessageUser`] stands in the members of these names, and it is read
/// where they hold what they should.
pub proof fn law_message_user_reads_its_members(v: JsonV)
    requires
        v is Obj,
    ensures
        match message_user_of(v) {
            Some(x) => {
                &&& x.display_name == json::str_of(json::get_of(v, "displayName"@))
            },
            None => !(json::opt_text_member(json::get_of(v, "displayName"@)) is Some),
        },
{
}

/// What is read of a [`MessageFrom`] stands in the members of these names, and it is read
/// where they hold what they should.
pub proof fn law_message_from_reads_its_members(v: JsonV)
    requires
        v is Obj,
    ensures
        match message_from_of(v) {
            Some(x) => {
                &&& (json::get_of(v, "user"@) is None
                    || json::get_of(v, "user"@) == Some(JsonV::Null)) ==> x.user is None
                &&& json::get_of(v, "user"@) matches Some(w) ==> w != JsonV::Null ==> x.user is Some
                    && message_user_of(w) == x.user
            },
            None => !(opt_message_user_member(json::get_of(v, "user"@)) is Some),
        },
{
}

// The entries of a list, in their order.
proof fn lemma_graph_attachment_list_entries(a: Seq<JsonV>)
    ensures
        graph_attachment_list(a) matches Some(l) ==> l.len() == a.len() && forall|i: int|
            0 <= i < a.len() ==> graph_attachment_of(a[i]) == Some(#[trigger] l[i]),
    decreases a.len(),
{
    if a.len() > 0 {
        lemma_graph_attachment_list_entries(a.drop_last());
        if let Some(l) = graph_attachment_list(a) {
            assert forall|i: int| 0 <= i < a.len() implies graph_attachment_of(a[i])
                == Some(#[trigger] l[i]) by {
                if i < a.len() - 1 {
                    let before = graph_attachment_list(a.drop_last())->0;
                    assert(l[i] == before[i]);
                    assert(a.drop_last()[i] == a[i]);
                }
            }
        }
    }
}

/// What is read of a [`GraphChatMessage`] stands in the members of these names, and it is read
/// where they hold what they should.
pub proof fn law_graph_chat_message_reads_its_members(v: JsonV)
    requires
        v is Obj,
    ensures
        match graph_chat_message_of(v) {
            Some(x) => {
                &&& (json::get_of(v, "from"@) is None
                    || json::get_of(v, "from"@) == Some(JsonV::Null)) ==> x.from is None
                &&& json::get_of(v, "from"@) matches Some(w) ==> w != JsonV::Null ==> x.from is Some
                    && message_from_of(w) == x.from
                &&& json::get_of(v, "attachments"@) is None ==> x.attachments.len() == 0
                &&& json::get_of(v, "attachments"@) is Some
                    ==> (json::arr_of(json::get_of(v, "attachments"@)) matches Some(a)
                    && x.attachments.len() == a.len() && forall|i: int| 0 <= i < a.len()
                    ==> graph_attachment_of(a[i]) == Some(#[trigger] x.attachments[i]))
            },
            None => !(opt_message_from_member(json::get_of(v, "from"@)) is Some
                && graph_attachment_list_default(json::get_of(v, "attachments"@)) is Some),
        },
{
    if let Some(JsonV::Arr(a)) = json::get_of(v, "attachments"@) {
        lemma_graph_attachment_list_entries(a);
    }
}

// The entries of a list, in their order.
proof fn lemma_graph_chat_message_list_entries(a: Seq<JsonV>)
    ensures
        graph_chat_message_list(a) matches Some(l) ==> l.len() == a.len() && forall|i: int|
            0 <= i < a.len() ==> graph_chat_message_of(a[i]) == Some(#[trigger] l[i]),
    decreases a.len(),
{
    if a.len() > 0 {
        lemma_graph_chat_message_list_entries(a.drop_last());
        if let Some(l) = graph_chat_message_list(a) {
            assert forall|i: int| 0 <= i < a.len() implies graph_chat_message_of(a[i])
                == Some(#[trigger] l[i]) by {
                if i < a.len() - 1 {
                    let before = graph_chat_message_list(a.drop_last())->0;
                    assert(l[i] == before[i]);
                    assert(a.drop_last()[i] == a[i]);
                }
            }
        }
    }
}

/// What is read of a [`ChatMessagesResponse`] stands in the members of these names, and it is read
/// where they hold what they should.
pub proof fn law_chat_messages_response_reads_its_members(v: JsonV)
    requires
        v is Obj,
    ensures
        match chat_messages_response_of(v) {
            Some(x) => {
                &&& (json::arr_of(json::get_of(v, "value"@)) matches Some(a)
                    && x.value.len() == a.len() && forall|i: int| 0 <= i < a.len()
                    ==> graph_chat_message_of(a[i]) == Some(#[trigger] x.value[i]))
            },
            None => !(graph_chat_message_list_member(json::get_of(v, "value"@)) is Some),
        },
{
    if let Some(JsonV::Arr(a)) = json::get_of(v, "value"@) {
        lemma_graph_chat_message_list_entries(a);
    }
}

/// What is read of a [`ModifiedBy`] stands in the members of these names, and it is read
/// where they hold what they should.
pub proof fn law_modified_by_reads_its_members(v: JsonV)
    requires
        v is Obj,
    ensures
        match modified_by_of(v) {
            Some(x) => {
                &&& (json::get_of(v, "user"@) is None
                    || json::get_of(v, "user"@) == Some(JsonV::Null)) ==> x.user is None
                &&& json::get_of(v, "user"@) matches Some(w) ==> w != JsonV::Null ==> x.user is Some
                    && message_user_of(w) == x.user
            },
            None => !(opt_message_user_member(json::get_of(v, "user"@)) is Some),
        },
{
}

/// What is read of a [`DriveItemVersion`] stands in the members of these names, and it is read
/// where they hold what they should.
pub proof fn law_drive_item_version_reads_its_members(v: JsonV)
    requires
        v is Obj,
    ensures
        match drive_item_version_of(v) {
            Some(x) => {
                &&& json::str_of(json::get_of(v, "id"@)) == Some(x.id)
                &&& x.size == json::u64_of(json::get_of(v, "size"@))
                &&& x.modified == json::str_of(json::get_of(v, "lastModifiedDateTime"@))
                &&& (json::get_of(v, "lastModifiedBy"@) is None
                    || json::get_of(v, "lastModifiedBy"@) == Some(JsonV::Null))
                    ==> x.modified_by is None
                &&& json::get_of(v, "lastModifiedBy"@) matches Some(w) ==> w != JsonV::Null
                    ==> x.modified_by is Some && modified_by_of(w) == x.modified_by
            },
            None => !(json::str_of(json::get_of(v, "id"@)) is Some
                && json::opt_u64_member(json::get_of(v, "size"@)) is Some
                && json::opt_text_member(json::get_of(v, "lastModifiedDateTime"@)) is Some
                && opt_modified_by_member(json::get_of(v, "lastModifiedBy"@)) is Some),
        },
{
}

// The entries of a list, in their order.
proof fn lemma_drive_item_version_list_entries(a: Seq<JsonV>)
    ensures
        drive_item_version_list(a) matches Some(l) ==> l.len() == a.len() && forall|i: int|
            0 <= i < a.len() ==> drive_item_version_of(a[i]) == Some(#[trigger] l[i]),
    decreases a.len(),
{
    if a.len() > 0 {
        lemma_drive_item_version_list_entries(a.drop_last());
        if let Some(l) = drive_item_version_list(a) {
            assert forall|i: int| 0 <= i < a.len() implies drive_item_version_of(a[i])
                == Some(#[trigger] l[i]) by {
                if i < a.len() - 1 {
                    let before = drive_item_version_list(a.drop_last())->0;
                    assert(l[i] == before[i]);
                    assert(a.drop_last()[i] == a[i]);
                }
            }
        }
    }
}

/// What is read of a [`VersionsResponse`] stands in the members of these names, and it is read
/// where they hold what they should.
pub proof fn law_versions_response_reads_its_members(v: JsonV)
    requires
        v is Obj,
    ensures
        match versions_response_of(v) {
            Some(x) => {
                &&& (json::arr_of(json::get_of(v, "value"@)) matches Some(a)
                    && x.value.len() == a.len() && forall|i: int| 0 <= i < a.len()
                    ==> drive_item_version_of(a[i]) == Some(#[trigger] x.value[i]))
            },
            None => !(drive_item_version_list_member(json::get_of(v, "value"@)) is Some),
        },
{
    if let Some(JsonV::Arr(a)) = json::get_of(v, "value"@) {
        lemma_drive_item_version_list_entries(a);
    }
}

/// What is read of a [`CreateLinkInner`] stands in the members of these names, and it is read
/// where they hold what they should.
pub proof fn law_create_link_inner_reads_its_members(v: JsonV)
    requires
        v is Obj,
    ensures
        match create_link_inner_of(v) {
            Some(x) => {
                &&& x.web_url == json::str_of(json::get_of(v, "webUrl"@))
                &&& x.scope == json::str_of(json::get_of(v, "scope"@))
            },
            None => !(json::opt_text_member(json::get_of(v, "webUrl"@)) is Some
                && json::opt_text_member(json::get_of(v, "scope"@)) is Some),
        },
{
}

/// What is read of a [`CreateLinkResponse`] stands in the members of these names, and it is read
/// where they hold what they should.
pub proof fn law_create_link_response_reads_its_members(v: JsonV)
    requires
        v is Obj,
    ensures
        match create_link_response_of(v) {
            Some(x) => {
                &&& (json::get_of(v, "link"@) is None
                    || json::get_of(v, "link"@) == Some(JsonV::Null)) ==> x.link is None
                &&& json::get_of(v, "link"@) matches Some(w) ==> w != JsonV::Null ==> x.link is Some
                    && create_link_inner_of(w) == x.link
            },
            None => !(opt_create_link_inner_member(json::get_of(v, "link"@)) is Some),
        },
{
}

// -- What is listed and sent --

/// What is shown of a file is what the drive says of it: nothing of one stands for
/// another.
pub proof fn law_file_is_shown_as_it_is(item: DriveItemV, sender: Option<Seq<char>>)
    ensures
        ({
            let r = shared_row(item, sender);
            &&& r.id == item.id
            &&& item.name matches Some(n) ==> r.name == n
            &&& item.name is None ==> r.name == "[unnamed]"@
            &&& item.size matches Some(n) ==> r.size == n
            &&& item.size is None ==> r.size == 0
            &&& item.file matches Some(f) ==> r.mime == f.mime_type
            &&& item.file is None ==> r.mime is None
            &&& r.web_url == item.web_url
            &&& r.download_url == item.download_url
            &&& item.parent matches Some(p) ==> r.drive_id == p.drive_id
            &&& item.parent is None ==> r.drive_id is None
            &&& r.created == item.created
            &&& r.modified == item.modified
            &&& r.sender == sender
            &&& r.is_folder == item.folder
            &&& r.share_url is None
        }),
{
}

/// The files of a folder are listed in its order.
pub proof fn law_folder_keeps_its_order(a: Seq<DriveItemV>, b: Seq<DriveItemV>,
    include_folders: bool)
    ensures
        child_rows(a + b, include_folders) == child_rows(a, include_folders)
            + child_rows(b, include_folders),
    decreases b.len(),
{
    if b.len() == 0 {
        assert(a + b =~= a);
        assert(child_rows(a, include_folders) + child_rows(b, include_folders)
            =~= child_rows(a, include_folders));
    } else {
        law_folder_keeps_its_order(a, b.drop_last(), include_folders);
        assert((a + b).drop_last() =~= a + b.drop_last());
        assert((a + b).last() == b.last());
        assert(child_rows(a + b, include_folders) =~= child_rows(a, include_folders)
            + child_rows(b, include_folders));
    }
}

/// A file is listed, and a folder where that was asked for.
pub proof fn law_folders_are_listed_on_request(x: DriveItemV, include_folders: bool)
    ensures
        include_folders || !x.folder
            ==> child_rows(Seq::empty().push(x), include_folders)
            == Seq::empty().push(shared_row(x, None)),
        !(include_folders || !x.folder)
            ==> child_rows(Seq::empty().push(x), include_folders).len() == 0,
{
    let one = Seq::empty().push(x);
    assert(one.drop_last() =~= Seq::empty());
    assert(child_rows(one.drop_last(), include_folders) =~= Seq::empty());
}

/// The attachments of a message are followed in their order.
pub proof fn law_attachments_keep_their_order(a: Seq<GraphAttachmentV>, b: Seq<GraphAttachmentV>,
    sender: Option<Seq<char>>)
    ensures
        reference_rows(a + b, sender) == reference_rows(a, sender) + reference_rows(b, sender),
    decreases b.len(),
{
    if b.len() == 0 {
        assert(a + b =~= a);
        assert(reference_rows(a, sender) + reference_rows(b, sender) =~= reference_rows(a, sender));
    } else {
        law_attachments_keep_their_order(a, b.drop_last(), sender);
        assert((a + b).drop_last() =~= a + b.drop_last());
        assert((a + b).last() == b.last());
        assert(reference_rows(a + b, sender) =~= reference_rows(a, sender)
            + reference_rows(b, sender));
    }
}

/// The attachments of messages are followed message by message.
pub proof fn law_messages_are_followed_in_order(a: Seq<GraphChatMessageV>,
    b: Seq<GraphChatMessageV>)
    ensures
        all_references(a + b) == all_references(a) + all_references(b),
    decreases b.len(),
{
    if b.len() == 0 {
        assert(a + b =~= a);
        assert(all_references(a) + all_references(b) =~= all_references(a));
    } else {
        law_messages_are_followed_in_order(a, b.drop_last());
        assert((a + b).drop_last() =~= a + b.drop_last());
        assert((a + b).last() == b.last());
        assert(all_references(a + b) =~= all_references(a) + all_references(b));
    }
}

/// Files are shown one after the other, in the order of the list.
pub proof fn law_files_are_shown_in_order(a: Seq<SharedFileV>, b: Seq<SharedFileV>)
    ensures
        files_shown(a + b) == files_shown(a) + files_shown(b),
    decreases b.len(),
{
    if b.len() == 0 {
        assert(a + b =~= a);
        assert(files_shown(a) + files_shown(b) =~= files_shown(a));
    } else {
        law_files_are_shown_in_order(a, b.drop_last());
        assert((a + b).drop_last() =~= a + b.drop_last());
        assert((a + b).last() == b.last());
        assert(files_shown(a + b) =~= files_shown(a) + files_shown(b));
    }
}

/// An attachment is followed where it is a reference with an address, and stands with the
/// address, its name and who sent it.
pub proof fn law_references_are_followed(a: GraphAttachmentV, sender: Option<Seq<char>>)
    ensures
        reference_row(a, sender) is Some <==> a.content_type == Some("reference"@) && (a.content_url
            matches Some(u) && u.len() > 0),
        reference_row(a, sender) matches Some(r) ==> Some(r.url) == a.content_url
            && r.name == a.name
            && r.sender == sender,
        reference_rows(Seq::empty().push(a), sender).len() == if reference_row(a, sender) is Some {
            1nat
        } else {
            0nat
        },
{
    let one = Seq::empty().push(a);
    assert(one.drop_last() =~= Seq::empty());
    assert(reference_rows(one.drop_last(), sender) =~= Seq::empty());
}

/// The file of a reference is added once, behind the others; one that was not found, or a
/// folder that nobody asked for, changes nothing. A file without a name goes by that of
/// the reference.
pub proof fn law_found_file_is_added_once(
    files: Seq<SharedFileV>,
    reference: ReferenceV,
    item: DriveItemV,
    include_folders: bool,
)
    ensures
        with_reference(files, reference, None, include_folders) == files,
        has_file(files, item.id) ==> with_reference(files, reference, Some(item), include_folders)
            == files,
        item.folder && !include_folders ==> with_reference(
            files,
            reference,
            Some(item),
            include_folders,
        ) == files,
        !has_file(files, item.id) && (include_folders || !item.folder) ==> ({
            let l = with_reference(files, reference, Some(item), include_folders);
            &&& l.len() == files.len() + 1
            &&& l.drop_last() == files
            &&& l.last().id == item.id
            &&& l.last().sender == reference.sender
            &&& l.last().web_url == item.web_url
        }),
        item.name matches Some(n)
            ==> (n != "[unnamed]"@ ==> resolved_row(item, reference).name == n),
        item.name is None ==> (reference.name matches Some(n) ==> resolved_row(item, reference).name
            == n),
{
    let l = with_reference(files, reference, Some(item), include_folders);
    if !has_file(files, item.id) && (include_folders || !item.folder) {
        assert(l.drop_last() =~= files);
    }
}

/// A conversation of a channel is looked up in the channel's folder first, any other in
/// its messages; the other way is tried where the first fails, and then no more.
pub proof fn law_two_ways_to_look(chat_id: Seq<char>, limit: usize, include_folders: bool,
    e: Seq<char>)
    ensures
        ({
            let v = new_listing(chat_id, limit, include_folders);
            let w = failed(v, e);
            let x = failed(w, e);
            &&& "@thread.tacv2"@.is_suffix_of(text::trimmed(chat_id)) ==> v.stage is Teams
                && w.stage is Messages
            &&& !"@thread.tacv2"@.is_suffix_of(text::trimmed(chat_id)) ==> v.stage is Messages
                && w.stage is Teams
            &&& x.stage is Failed && x.error == e
            &&& v.chat_id == chat_id && w.chat_id == chat_id
            &&& v.files.len() == 0 && w.files.len() == 0
            &&& v.stage is Messages ==> v.path == "/me/chats/"@ + chat_id + "/messages?$top="@
                + text::decimal(
                if limit < 1 {
                    1nat
                } else {
                    limit as nat
                },
            )
        }),
{
}

/// Each reply leads to the next question: messages to their references, one by one, and
/// the folder of a channel to what is in it.
pub proof fn law_replies_lead_on(v: FileListingV, b: Seq<u8>, folder: DriveItemV, drive: Seq<char>)
    ensures
        v.stage is Messages ==> (messages_in(b) matches Some(m) ==> {
            let w = after_reply(v, Ok(b));
            &&& w.refs == all_references(m)
            &&& w.at == 0
            &&& all_references(m).len() > 0 ==> w.stage is Shares && w.path == "/shares/"@ + ("u!"@
                + encoding::base64url_of(encode_utf8(all_references(m)[0].url))) + "/driveItem"@
            &&& all_references(m).len() == 0 ==> w.stage is Done
        }),
        v.stage is Folder && item_in(b) == Some(folder) && drive_of(folder) == Some(drive) ==> ({
            let w = after_reply(v, Ok(b));
            w.stage is Children && w.path == "/drives/"@ + drive + "/items/"@ + folder.id
                + "/children?$top="@ + text::decimal(
                if v.limit < 1 {
                    1nat
                } else {
                    v.limit as nat
                },
            )
        }),
        v.stage is Children ==> (items_in(b) matches Some(items) ==> after_reply(v, Ok(b)).stage
            is Done && after_reply(v, Ok(b)).files == with_children(
            v.files,
            items,
            v.include_folders,
        )),
{
}

/// The files of a folder follow those that are there, each once, in the folder's order.
pub proof fn law_children_follow_once(
    files: Seq<SharedFileV>,
    items: Seq<DriveItemV>,
    item: DriveItemV,
    include_folders: bool,
)
    ensures
        ({
            let before = with_children(files, items, include_folders);
            let after = with_children(files, items.push(item), include_folders);
            &&& has_file(before, item.id) ==> after == before
            &&& item.folder && !include_folders ==> after == before
            &&& !has_file(before, item.id) && (include_folders || !item.folder) ==> after
                == before.push(shared_row(item, None))
            &&& with_children(files, Seq::empty(), include_folders) == files
        }),
{
    assert(items.push(item).drop_last() =~= items);
}

/// The versions of a file are listed as they came, each with its own size, time and
/// author.
pub proof fn law_versions_are_listed_as_they_came(v: Seq<DriveItemVersionV>, i: int)
    requires
        0 <= i < v.len(),
    ensures
        version_rows(v).len() == v.len(),
        version_rows(v)[i].id == v[i].id,
        version_rows(v)[i].modified == v[i].modified,
        v[i].size matches Some(n) ==> version_rows(v)[i].size == n,
        v[i].size is None ==> version_rows(v)[i].size == 0,
        v[i].modified_by is None ==> version_rows(v)[i].modified_by is None,
        v[i].modified_by matches Some(b) ==> (b.user matches Some(u) ==> version_rows(
            v,
        )[i].modified_by == u.display_name),
{
}

/// A file is attached by the address for writing where there is one, else by the one for
/// reading.
pub proof fn law_attached_by_its_address(item: DriveItemV)
    ensures
        item.web_dav_url is Some ==> upload_address(item) == item.web_dav_url,
        item.web_dav_url is None ==> upload_address(item) == item.web_url,
{
}

/// A link is for anyone only where that was asked for, under either name.
pub proof fn law_links_stay_inside(name: Seq<char>)
    ensures
        scope_of("anonymous"@) == "anonymous"@,
        scope_of("anyone"@) == "anonymous"@,
        name != "anonymous"@ && name != "anyone"@ ==> scope_of(name) == "organization"@,
{
}

/// The link that is given is the one that was made, with its scope; without an address
/// there is none.
pub proof fn law_made_link_is_given(v: JsonV)
    ensures
        link_of(v) matches Ok(l) ==> l.url.len() > 0 && (create_link_response_of(v) matches Some(x)
            && x.link matches Some(k) && k.web_url == Some(l.url) && k.scope == l.scope),
        create_link_response_of(v) is None ==> link_of(v) == Err::<SharedLinkV, Seq<char>>(
            "Failed to parse createLink response"@,
        ),
        create_link_response_of(v) matches Some(x) ==> (x.link is None ==> link_of(v) == Err::<
            SharedLinkV,
            Seq<char>,
        >("createLink response has no link object"@)),
        create_link_response_of(v) matches Some(x) ==> (x.link matches Some(k) ==> (k.web_url
            matches Some(u) ==> (u.len() > 0 ==> link_of(v) is Ok))),
{
}

/// A file is shown by its name, a folder with a slash behind it, and its id follows.
pub proof fn law_file_is_shown_by_its_name(x: SharedFileV)
    ensures
        x.is_folder ==> (x.name + "/"@ + "\n  ID:   "@ + x.id + "\n"@).is_prefix_of(file_shown(x)),
        !x.is_folder ==> (x.name + "\n  ID:   "@ + x.id + "\n"@).is_prefix_of(file_shown(x)),
{
    let s = file_shown(x);
    let a = x.name + "/"@ + "\n  ID:   "@ + x.id + "\n"@;
    let b = x.name + "\n  ID:   "@ + x.id + "\n"@;
    if x.is_folder {
        assert(s.subrange(0, a.len() as int) =~= a);
    } else {
        assert(x.name + Seq::empty() =~= x.name);
        assert(s.subrange(0, b.len() as int) =~= b);
    }
}

/// An attachment is a reference to the file, by its id, address and name.
pub proof fn law_attachment_names_its_file(id: Seq<char>, url: Seq<char>, filename: Seq<char>)
    ensures
        ({
            let b = attachment_payload(id, url, filename);
            &&& json::str_of(json::get_of(b, "id"@)) == Some(id)
            &&& json::str_of(json::get_of(b, "contentType"@)) == Some("reference"@)
            &&& json::str_of(json::get_of(b, "contentUrl"@)) == Some(url)
            &&& json::str_of(json::get_of(b, "name"@)) == Some(filename)
        }),
{
    broadcast use json::group_members;

    assert("id"@.len() == 2) by {
        reveal_strlit("id");
    }
    assert("contentType"@.len() == 11) by {
        reveal_strlit("contentType");
    }
    assert("contentUrl"@.len() == 10) by {
        reveal_strlit("contentUrl");
    }
    assert("name"@.len() == 4) by {
        reveal_strlit("name");
    }
}

/// A message with a file holds the one attachment, and points at it by the same id.
pub proof fn law_file_message_holds_its_attachment(id: Seq<char>, url: Seq<char>,
    filename: Seq<char>)
    ensures
        ({
            let b = file_message(id, url, filename);
            &&& json::str_of(json::get2_of(b, "body"@, "contentType"@)) == Some("html"@)
            &&& json::str_of(json::get2_of(b, "body"@, "content"@))
                == Some("<attachment id=\""@ + id + "\"></attachment>"@)
            &&& json::arr_of(json::get_of(b, "attachments"@)) matches Some(a) && a.len() == 1
                && json::str_of(json::get_of(a[0], "id"@)) == Some(id) && json::str_of(
                json::get_of(a[0], "contentUrl"@),
            ) == Some(url) && json::str_of(json::get_of(a[0], "name"@)) == Some(filename)
                && json::str_of(json::get_of(a[0], "contentType"@)) == Some("reference"@)
        }),
{
    broadcast use json::group_members;

    assert("body"@.len() == 4) by {
        reveal_strlit("body");
    }
    assert("contentType"@.len() == 11 && "contentType"@[0] == 'c') by {
        reveal_strlit("contentType");
    }
    assert("content"@.len() == 7) by {
        reveal_strlit("content");
    }
    assert("attachments"@.len() == 11 && "attachments"@[0] == 'a') by {
        reveal_strlit("attachments");
    }
    law_attachment_names_its_file(id, url, filename);
}

/// The list that is shown is that of the answer that was read.
pub proof fn law_list_of_versions_is_read(v: JsonV)
    ensures
        versions_of(v) is Some <==> versions_response_of(v) is Some,
        versions_of(v) matches Some(l)
            ==> (versions_response_of(v) matches Some(x) && l == version_rows(x.value)),
{
}

/// A shared file that was found is added, one that was not is passed over, and the next
/// reference is followed.
pub proof fn law_shares_are_followed_one_by_one(v: FileListingV, b: Seq<u8>, e: Seq<char>)
    requires
        v.stage is Shares,
        v.at < v.refs.len(),
        v.at < 1_000_000,
    ensures
        after_reply(v, Ok(b)).at == v.at + 1,
        after_reply(v, Err(e)).at == v.at + 1,
        after_reply(v, Err(e)).files == v.files,
        after_reply(v, Ok(b)).files == with_reference(
            v.files,
            v.refs[v.at as int],
            item_in(b),
            v.include_folders,
        ),
        v.at + 1 < v.refs.len() ==> after_reply(v, Ok(b)).stage is Shares,
        v.at + 1 == v.refs.len() ==> after_reply(v, Ok(b)).stage is Done && after_reply(
            v,
            Err(e),
        ).stage is Done,
{
}

/// The team of a channel leads to the channel's folder; without one the listing fails or
/// goes the other way.
pub proof fn law_team_leads_to_the_folder(v: FileListingV, l: Seq<TeamInfoV>, team: Seq<char>)
    ensures
        teams::team_of_channel(l, v.chat_id) == Ok::<Seq<char>, Seq<char>>(team) ==> after_teams(
            v,
            Ok(l),
        ).stage is Folder && after_teams(v, Ok(l)).path == "/teams/"@ + team + "/channels/"@
            + v.chat_id + "/filesFolder"@,
        teams::team_of_channel(l, v.chat_id) matches Err(e)
            ==> after_teams(v, Ok(l)) == failed(v, e),
{
}

/// Who sent a message is the user whom it names.
pub proof fn law_sender_is_the_named_user(m: GraphChatMessageV)
    ensures
        m.from is None ==> sender_name(m) is None,
        m.from matches Some(f) ==> (f.user matches Some(u) ==> sender_name(m) == u.display_name),
        m.from matches Some(f) ==> (f.user is None ==> sender_name(m) is None),
{
}

/// An id in a tag is thirty-six characters: hexadecimal digits in groups of eight, four,
/// four, four and twelve, with hyphens between them.
pub proof fn law_ids_have_five_groups(s: Seq<char>, i: int, k: int)
    requires
        guid_at(s, i),
        0 <= k < 36,
    ensures
        s[i + 8] == '-' && s[i + 13] == '-' && s[i + 18] == '-' && s[i + 23] == '-',
        k != 8 && k != 13 && k != 18 && k != 23 ==> ('0' <= s[i + k] <= '9') || ('a' <= s[i + k]
            <= 'f') || ('A' <= s[i + k] <= 'F'),
        0 <= i && i + 36 <= s.len(),
{
    assert(s[i + 8] == s[i + 8int]);
    assert(is_hex_char(s[i + 0]) && s[i + 8] == '-');
    assert(s[i + 13] == '-');
    assert(s[i + 18] == '-');
    assert(s[i + 23] == '-');
}

/// The files of a folder are those of the answer that was read.
pub proof fn law_children_are_read(v: JsonV, include_folders: bool)
    ensures
        children_of(v, include_folders) is Some <==> drive_children_response_of(v) is Some,
        drive_children_response_of(v) matches Some(x) ==> children_of(v, include_folders) == Some(
            child_rows(x.value, include_folders),
        ),
{
}

/// The id of a tag is the first that stands in it.
pub proof fn law_first_id_of_a_tag(s: Seq<char>, g: Seq<char>, i: int)
    requires
        is_first_guid(s, g),
        guid_at(s, i),
        forall|j: int| 0 <= j < i ==> !#[trigger] guid_at(s, j),
    ensures
        g == s.subrange(i, i + 36),
{
    let k = choose|k: int|
        #[trigger] guid_at(s, k) && g == s.subrange(k, k + 36) && forall|j: int|
            0 <= j < k ==> !#[trigger] guid_at(s, j);
    assert(k == i);
}

} // verus!
