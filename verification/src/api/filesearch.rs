//! Searches for files and for people.
use crate::api::calendar;
use crate::api::files;
use crate::api::files::{SharedFile, SharedFileV};
use crate::api::teams;
use crate::api::teams::{TeamMemberInfo, TeamMemberInfoV};
use crate::json;
use crate::json::{Json, JsonV};
use crate::text;
use crate::web;
use vstd::prelude::*;

verus! {

/// What a found item says of its file.
pub struct SearchFileFacet {
    pub mime_type: Option<String>,
}

/// The model of [`SearchFileFacet`].
pub struct SearchFileFacetV {
    pub mime_type: Option<Seq<char>>,
}

impl View for SearchFileFacet {
    type V = SearchFileFacetV;

    open spec fn view(&self) -> SearchFileFacetV {
        SearchFileFacetV {
            mime_type: text::opt_text(self.mime_type),
        }
    }
}

/// An optional [`SearchFileFacet`] by its model.
pub open spec fn opt_search_file_facet(o: Option<SearchFileFacet>) -> Option<SearchFileFacetV> {
    match o {
        Some(x) => Some(x@),
        None => None,
    }
}

/// How a JSON value reads as a [`SearchFileFacet`]; nothing where it does not.
pub open spec fn search_file_facet_of(v: JsonV) -> Option<SearchFileFacetV> {
    if !json::record_form(v, 0, 1) {
        None
    } else {
        match json::opt_text_member(json::member_of(v, "mimeType"@, 0)) {
            Some(mime_type) => Some(SearchFileFacetV { mime_type }),
            None => None,
        }
    }
}

/// Reads a [`SearchFileFacet`].
pub fn read_search_file_facet(v: &Json) -> (r: Option<SearchFileFacet>)
    ensures
        match r {
            Some(x) => search_file_facet_of(v@) == Some(x@),
            None => search_file_facet_of(v@) is None,
        },
{
    if !json::has_record_form(v, 0, 1) {
        return None;
    }
    let mime_type = match json::read_opt_text(json::member(v, "mimeType", 0)) {
        Some(x) => x,
        None => {
            return None;
        },
    };
    Some(SearchFileFacet { mime_type })
}

/// How an optional member reads as a [`SearchFileFacet`].
pub open spec fn opt_search_file_facet_member(m: Option<JsonV>) -> Option<
    Option<SearchFileFacetV>,
> {
    match m {
        None => Some(None),
        Some(JsonV::Null) => Some(None),
        Some(j) => match search_file_facet_of(j) {
            Some(x) => Some(Some(x)),
            None => None,
        },
    }
}

fn read_opt_search_file_facet(m: Option<&Json>) -> (r: Option<Option<SearchFileFacet>>)
    ensures
        match r {
            Some(o) => opt_search_file_facet_member(json::opt_json(m)) == Some(
                opt_search_file_facet(o),
            ),
            None => opt_search_file_facet_member(json::opt_json(m)) is None,
        },
{
    match m {
        None => Some(None),
        Some(j) => if j.is_null() {
            Some(None)
        } else {
            match read_search_file_facet(j) {
                Some(x) => Some(Some(x)),
                None => None,
            }
        },
    }
}
/// Where a found item lives.
pub struct SearchParentRef {
    pub drive_id: Option<String>,
}

/// The model of [`SearchParentRef`].
pub struct SearchParentRefV {
    pub drive_id: Option<Seq<char>>,
}

impl View for SearchParentRef {
    type V = SearchParentRefV;

    open spec fn view(&self) -> SearchParentRefV {
        SearchParentRefV {
            drive_id: text::opt_text(self.drive_id),
        }
    }
}

/// An optional [`SearchParentRef`] by its model.
pub open spec fn opt_search_parent_ref(o: Option<SearchParentRef>) -> Option<SearchParentRefV> {
    match o {
        Some(x) => Some(x@),
        None => None,
    }
}

/// How a JSON value reads as a [`SearchParentRef`]; nothing where it does not.
pub open spec fn search_parent_ref_of(v: JsonV) -> Option<SearchParentRefV> {
    if !json::record_form(v, 0, 1) {
        None
    } else {
        match json::opt_text_member(json::member_of(v, "driveId"@, 0)) {
            Some(drive_id) => Some(SearchParentRefV { drive_id }),
            None => None,
        }
    }
}

/// Reads a [`SearchParentRef`].
pub fn read_search_parent_ref(v: &Json) -> (r: Option<SearchParentRef>)
    ensures
        match r {
            Some(x) => search_parent_ref_of(v@) == Some(x@),
            None => search_parent_ref_of(v@) is None,
        },
{
    if !json::has_record_form(v, 0, 1) {
        return None;
    }
    let drive_id = match json::read_opt_text(json::member(v, "driveId", 0)) {
        Some(x) => x,
        None => {
            return None;
        },
    };
    Some(SearchParentRef { drive_id })
}

/// How an optional member reads as a [`SearchParentRef`].
pub open spec fn opt_search_parent_ref_member(m: Option<JsonV>) -> Option<
    Option<SearchParentRefV>,
> {
    match m {
        None => Some(None),
        Some(JsonV::Null) => Some(None),
        Some(j) => match search_parent_ref_of(j) {
            Some(x) => Some(Some(x)),
            None => None,
        },
    }
}

fn read_opt_search_parent_ref(m: Option<&Json>) -> (r: Option<Option<SearchParentRef>>)
    ensures
        match r {
            Some(o) => opt_search_parent_ref_member(json::opt_json(m)) == Some(
                opt_search_parent_ref(o),
            ),
            None => opt_search_parent_ref_member(json::opt_json(m)) is None,
        },
{
    match m {
        None => Some(None),
        Some(j) => if j.is_null() {
            Some(None)
        } else {
            match read_search_parent_ref(j) {
                Some(x) => Some(Some(x)),
                None => None,
            }
        },
    }
}
/// A found item as the service sends it.
pub struct DriveSearchItem {
    pub id: Option<String>,
    pub name: Option<String>,
    pub size: Option<u64>,
    pub web_url: Option<String>,
    pub download_url: Option<String>,
    pub created: Option<String>,
    pub modified: Option<String>,
    pub file: Option<SearchFileFacet>,
    pub folder: bool,
    pub parent: Option<SearchParentRef>,
}

/// The model of [`DriveSearchItem`].
pub struct DriveSearchItemV {
    pub id: Option<Seq<char>>,
    pub name: Option<Seq<char>>,
    pub size: Option<u64>,
    pub web_url: Option<Seq<char>>,
    pub download_url: Option<Seq<char>>,
    pub created: Option<Seq<char>>,
    pub modified: Option<Seq<char>>,
    pub file: Option<SearchFileFacetV>,
    pub folder: bool,
    pub parent: Option<SearchParentRefV>,
}

impl View for DriveSearchItem {
    type V = DriveSearchItemV;

    open spec fn view(&self) -> DriveSearchItemV {
        DriveSearchItemV {
            id: text::opt_text(self.id),
            name: text::opt_text(self.name),
            size: self.size,
            web_url: text::opt_text(self.web_url),
            download_url: text::opt_text(self.download_url),
            created: text::opt_text(self.created),
            modified: text::opt_text(self.modified),
            file: opt_search_file_facet(self.file),
            folder: self.folder,
            parent: opt_search_parent_ref(self.parent),
        }
    }
}

/// A list of [`DriveSearchItem`] by their models.
pub open spec fn drive_search_item_views(v: Seq<DriveSearchItem>) -> Seq<DriveSearchItemV> {
    Seq::new(v.len(), |i: int| v[i]@)
}

/// How a JSON value reads as a [`DriveSearchItem`]; nothing where it does not.
pub open spec fn drive_search_item_of(v: JsonV) -> Option<DriveSearchItemV> {
    if !json::record_form(v, 0, 10) {
        None
    } else {
        match (
            json::opt_text_member(json::member_of(v, "id"@, 0)),
            json::opt_text_member(json::member_of(v, "name"@, 1)),
            json::opt_u64_member(json::member_of(v, "size"@, 2)),
            json::opt_text_member(json::member_of(v, "webUrl"@, 3)),
            json::opt_text_member(json::member_of(v, "@microsoft.graph.downloadUrl"@, 4)),
            json::opt_text_member(json::member_of(v, "createdDateTime"@, 5)),
            json::opt_text_member(json::member_of(v, "lastModifiedDateTime"@, 6)),
            opt_search_file_facet_member(json::member_of(v, "file"@, 7)),
            Some(json::opt_any_member(json::member_of(v, "folder"@, 8)) is Some),
            opt_search_parent_ref_member(json::member_of(v, "parentReference"@, 9)),
        ) {
            (
                Some(id),
                Some(name),
                Some(size),
                Some(web_url),
                Some(download_url),
                Some(created),
                Some(modified),
                Some(file),
                Some(folder),
                Some(parent),
            ) => Some(
                DriveSearchItemV {
                    id,
                    name,
                    size,
                    web_url,
                    download_url,
                    created,
                    modified,
                    file,
                    folder,
                    parent,
                },
            ),
            _ => None,
        }
    }
}

/// Reads a [`DriveSearchItem`].
pub fn read_drive_search_item(v: &Json) -> (r: Option<DriveSearchItem>)
    ensures
        match r {
            Some(x) => drive_search_item_of(v@) == Some(x@),
            None => drive_search_item_of(v@) is None,
        },
{
    if !json::has_record_form(v, 0, 10) {
        return None;
    }
    let id = match json::read_opt_text(json::member(v, "id", 0)) {
        Some(x) => x,
        None => {
            return None;
        },
    };
    let name = match json::read_opt_text(json::member(v, "name", 1)) {
        Some(x) => x,
        None => {
            return None;
        },
    };
    let size = match json::read_opt_u64(json::member(v, "size", 2)) {
        Some(x) => x,
        None => {
            return None;
        },
    };
    let web_url = match json::read_opt_text(json::member(v, "webUrl", 3)) {
        Some(x) => x,
        None => {
            return None;
        },
    };
    let download_url = match json::read_opt_text(json::member(
        v, "@microsoft.graph.downloadUrl", 4),
    ) {
        Some(x) => x,
        None => {
            return None;
        },
    };
    let created = match json::read_opt_text(json::member(v, "createdDateTime", 5)) {
        Some(x) => x,
        None => {
            return None;
        },
    };
    let modified = match json::read_opt_text(json::member(v, "lastModifiedDateTime", 6)) {
        Some(x) => x,
        None => {
            return None;
        },
    };
    let file = match read_opt_search_file_facet(json::member(v, "file", 7)) {
        Some(x) => x,
        None => {
            return None;
        },
    };
    let folder = match Some(json::read_opt_any(json::member(v, "folder", 8)).is_some()) {
        Some(x) => x,
        None => {
            return None;
        },
    };
    let parent = match read_opt_search_parent_ref(json::member(v, "parentReference", 9)) {
        Some(x) => x,
        None => {
            return None;
        },
    };
    Some(
        DriveSearchItem {
            id,
            name,
            size,
            web_url,
            download_url,
            created,
            modified,
            file,
            folder,
            parent,
        },
    )
}

/// How a list of JSON values reads as a list of [`DriveSearchItem`]: all of them or none.
pub open spec fn drive_search_item_list(a: Seq<JsonV>) -> Option<Seq<DriveSearchItemV>>
    decreases a.len(),
{
    if a.len() == 0 {
        Some(Seq::empty())
    } else {
        match (drive_search_item_list(a.drop_last()), drive_search_item_of(a.last())) {
            (Some(l), Some(x)) => Some(l.push(x)),
            _ => None,
        }
    }
}

proof fn lemma_drive_search_item_list_prefix(a: Seq<JsonV>, i: int)
    requires
        0 <= i <= a.len(),
        drive_search_item_list(a.take(i)) is None,
    ensures
        drive_search_item_list(a) is None,
    decreases a.len() - i,
{
    if i < a.len() {
        assert(a.take(i + 1).drop_last() =~= a.take(i));
        lemma_drive_search_item_list_prefix(a, i + 1);
    } else {
        assert(a.take(i) =~= a);
    }
}

fn read_drive_search_item_list(a: &Vec<Json>) -> (r: Option<Vec<DriveSearchItem>>)
    ensures
        match r {
            Some(l) => drive_search_item_list(json::items_view(a@)) == Some(
                drive_search_item_views(l@),
            ),
            None => drive_search_item_list(json::items_view(a@)) is None,
        },
{
    let ghost all = json::items_view(a@);
    let mut out: Vec<DriveSearchItem> = Vec::new();
    let mut i: usize = 0;
    proof {
        assert(all.take(0) =~= Seq::empty());
        assert(drive_search_item_views(out@) =~= Seq::empty());
    }
    while i < a.len()
        invariant
            i <= a@.len(),
            all == json::items_view(a@),
            drive_search_item_list(all.take(i as int)) == Some(drive_search_item_views(out@)),
        decreases a@.len() - i,
    {
        proof {
            assert(all.take(i + 1).drop_last() =~= all.take(i as int));
            assert(all.take(i + 1).last() == a@[i as int]@);
        }
        match read_drive_search_item(&a[i]) {
            Some(x) => {
                let ghost before = out@;
                out.push(x);
                proof {
                    assert(
                        drive_search_item_views(out@) =~= drive_search_item_views(before).push(x@)
                    );
                }
            },
            None => {
                proof {
                    lemma_drive_search_item_list_prefix(all, i + 1);
                }
                return None;
            },
        }
        i = i + 1;
    }
    proof {
        assert(all.take(i as int) =~= all);
    }
    Some(out)
}

/// How a list member reads that may be left out.
pub open spec fn drive_search_item_list_default(m: Option<JsonV>) -> Option<Seq<DriveSearchItemV>> {
    match m {
        None => Some(Seq::empty()),
        Some(JsonV::Arr(a)) => drive_search_item_list(a),
        _ => None,
    }
}

fn read_drive_search_item_list_default(m: Option<&Json>) -> (r: Option<Vec<DriveSearchItem>>)
    ensures
        match r {
            Some(l) => drive_search_item_list_default(json::opt_json(m)) == Some(
                drive_search_item_views(l@),
            ),
            None => drive_search_item_list_default(json::opt_json(m)) is None,
        },
{
    match m {
        None => {
            let out: Vec<DriveSearchItem> = Vec::new();
            proof {
                assert(drive_search_item_views(out@) =~= Seq::empty());
            }
            Some(out)
        },
        Some(Json::Arr(a)) => {
            proof {
                json::lemma_arr_view(*a);
            }
            read_drive_search_item_list(a)
        },
        _ => None,
    }
}
/// The reply to a search for files.
pub struct DriveSearchResponse {
    pub value: Vec<DriveSearchItem>,
}

/// The model of [`DriveSearchResponse`].
pub struct DriveSearchResponseV {
    pub value: Seq<DriveSearchItemV>,
}

impl View for DriveSearchResponse {
    type V = DriveSearchResponseV;

    open spec fn view(&self) -> DriveSearchResponseV {
        DriveSearchResponseV {
            value: drive_search_item_views(self.value@),
        }
    }
}

/// How a JSON value reads as a [`DriveSearchResponse`]; nothing where it does not.
pub open spec fn drive_search_response_of(v: JsonV) -> Option<DriveSearchResponseV> {
    if !json::record_form(v, 0, 1) {
        None
    } else {
        match drive_search_item_list_default(json::member_of(v, "value"@, 0)) {
            Some(value) => Some(DriveSearchResponseV { value }),
            None => None,
        }
    }
}

/// Reads a [`DriveSearchResponse`].
pub fn read_drive_search_response(v: &Json) -> (r: Option<DriveSearchResponse>)
    ensures
        match r {
            Some(x) => drive_search_response_of(v@) == Some(x@),
            None => drive_search_response_of(v@) is None,
        },
{
    if !json::has_record_form(v, 0, 1) {
        return None;
    }
    let value = match read_drive_search_item_list_default(json::member(v, "value", 0)) {
        Some(x) => x,
        None => {
            return None;
        },
    };
    Some(DriveSearchResponse { value })
}
/// A found user as the service sends it.
pub struct PeopleSearchUser {
    pub id: Option<String>,
    pub display_name: Option<String>,
    pub mail: Option<String>,
    pub upn: Option<String>,
}

/// The model of [`PeopleSearchUser`].
pub struct PeopleSearchUserV {
    pub id: Option<Seq<char>>,
    pub display_name: Option<Seq<char>>,
    pub mail: Option<Seq<char>>,
    pub upn: Option<Seq<char>>,
}

impl View for PeopleSearchUser {
    type V = PeopleSearchUserV;

    open spec fn view(&self) -> PeopleSearchUserV {
        PeopleSearchUserV {
            id: text::opt_text(self.id),
            display_name: text::opt_text(self.display_name),
            mail: text::opt_text(self.mail),
            upn: text::opt_text(self.upn),
        }
    }
}

/// A list of [`PeopleSearchUser`] by their models.
pub open spec fn people_search_user_views(v: Seq<PeopleSearchUser>) -> Seq<PeopleSearchUserV> {
    Seq::new(v.len(), |i: int| v[i]@)
}

/// How a JSON value reads as a [`PeopleSearchUser`]; nothing where it does not.
pub open spec fn people_search_user_of(v: JsonV) -> Option<PeopleSearchUserV> {
    if !json::record_form(v, 0, 4) {
        None
    } else {
        match (
            json::opt_text_member(json::member_of(v, "id"@, 0)),
            json::opt_text_member(json::member_of(v, "displayName"@, 1)),
            json::opt_text_member(json::member_of(v, "mail"@, 2)),
            json::opt_text_member(json::member_of(v, "userPrincipalName"@, 3)),
        ) {
            (Some(id), Some(display_name), Some(mail), Some(upn)) => Some(
                PeopleSearchUserV { id, display_name, mail, upn },
            ),
            _ => None,
        }
    }
}

/// Reads a [`PeopleSearchUser`].
pub fn read_people_search_user(v: &Json) -> (r: Option<PeopleSearchUser>)
    ensures
        match r {
            Some(x) => people_search_user_of(v@) == Some(x@),
            None => people_search_user_of(v@) is None,
        },
{
    if !json::has_record_form(v, 0, 4) {
        return None;
    }
    let id = match json::read_opt_text(json::member(v, "id", 0)) {
        Some(x) => x,
        None => {
            return None;
        },
    };
    let display_name = match json::read_opt_text(json::member(v, "displayName", 1)) {
        Some(x) => x,
        None => {
            return None;
        },
    };
    let mail = match json::read_opt_text(json::member(v, "mail", 2)) {
        Some(x) => x,
        None => {
            return None;
        },
    };
    let upn = match json::read_opt_text(json::member(v, "userPrincipalName", 3)) {
        Some(x) => x,
        None => {
            return None;
        },
    };
    Some(PeopleSearchUser { id, display_name, mail, upn })
}

/// How a list of JSON values reads as a list of [`PeopleSearchUser`]: all of them or none.
pub open spec fn people_search_user_list(a: Seq<JsonV>) -> Option<Seq<PeopleSearchUserV>>
    decreases a.len(),
{
    if a.len() == 0 {
        Some(Seq::empty())
    } else {
        match (people_search_user_list(a.drop_last()), people_search_user_of(a.last())) {
            (Some(l), Some(x)) => Some(l.push(x)),
            _ => None,
        }
    }
}

proof fn lemma_people_search_user_list_prefix(a: Seq<JsonV>, i: int)
    requires
        0 <= i <= a.len(),
        people_search_user_list(a.take(i)) is None,
    ensures
        people_search_user_list(a) is None,
    decreases a.len() - i,
{
    if i < a.len() {
        assert(a.take(i + 1).drop_last() =~= a.take(i));
        lemma_people_search_user_list_prefix(a, i + 1);
    } else {
        assert(a.take(i) =~= a);
    }
}

fn read_people_search_user_list(a: &Vec<Json>) -> (r: Option<Vec<PeopleSearchUser>>)
    ensures
        match r {
            Some(l) => people_search_user_list(json::items_view(a@)) == Some(
                people_search_user_views(l@),
            ),
            None => people_search_user_list(json::items_view(a@)) is None,
        },
{
    let ghost all = json::items_view(a@);
    let mut out: Vec<PeopleSearchUser> = Vec::new();
    let mut i: usize = 0;
    proof {
        assert(all.take(0) =~= Seq::empty());
        assert(people_search_user_views(out@) =~= Seq::empty());
    }
    while i < a.len()
        invariant
            i <= a@.len(),
            all == json::items_view(a@),
            people_search_user_list(all.take(i as int)) == Some(people_search_user_views(out@)),
        decreases a@.len() - i,
    {
        proof {
            assert(all.take(i + 1).drop_last() =~= all.take(i as int));
            assert(all.take(i + 1).last() == a@[i as int]@);
        }
        match read_people_search_user(&a[i]) {
            Some(x) => {
                let ghost before = out@;
                out.push(x);
                proof {
                    assert(
                        people_search_user_views(out@) =~= people_search_user_views(before).push(x@)
                    );
                }
            },
            None => {
                proof {
                    lemma_people_search_user_list_prefix(all, i + 1);
                }
                return None;
            },
        }
        i = i + 1;
    }
    proof {
        assert(all.take(i as int) =~= all);
    }
    Some(out)
}

/// How a list member reads that may be left out.
pub open spec fn people_search_user_list_default(m: Option<JsonV>) -> Option<
    Seq<PeopleSearchUserV>,
> {
    match m {
        None => Some(Seq::empty()),
        Some(JsonV::Arr(a)) => people_search_user_list(a),
        _ => None,
    }
}

fn read_people_search_user_list_default(m: Option<&Json>) -> (r: Option<Vec<PeopleSearchUser>>)
    ensures
        match r {
            Some(l) => people_search_user_list_default(json::opt_json(m)) == Some(
                people_search_user_views(l@),
            ),
            None => people_search_user_list_default(json::opt_json(m)) is None,
        },
{
    match m {
        None => {
            let out: Vec<PeopleSearchUser> = Vec::new();
            proof {
                assert(people_search_user_views(out@) =~= Seq::empty());
            }
            Some(out)
        },
        Some(Json::Arr(a)) => {
            proof {
                json::lemma_arr_view(*a);
            }
            read_people_search_user_list(a)
        },
        _ => None,
    }
}
/// The reply to a search for people.
pub struct PeopleSearchResponse {
    pub value: Vec<PeopleSearchUser>,
}

/// The model of [`PeopleSearchResponse`].
pub struct PeopleSearchResponseV {
    pub value: Seq<PeopleSearchUserV>,
}

impl View for PeopleSearchResponse {
    type V = PeopleSearchResponseV;

    open spec fn view(&self) -> PeopleSearchResponseV {
        PeopleSearchResponseV {
            value: people_search_user_views(self.value@),
        }
    }
}

/// How a JSON value reads as a [`PeopleSearchResponse`]; nothing where it does not.
pub open spec fn people_search_response_of(v: JsonV) -> Option<PeopleSearchResponseV> {
    if !json::record_form(v, 0, 1) {
        None
    } else {
        match people_search_user_list_default(json::member_of(v, "value"@, 0)) {
            Some(value) => Some(PeopleSearchResponseV { value }),
            None => None,
        }
    }
}

/// Reads a [`PeopleSearchResponse`].
pub fn read_people_search_response(v: &Json) -> (r: Option<PeopleSearchResponse>)
    ensures
        match r {
            Some(x) => people_search_response_of(v@) == Some(x@),
            None => people_search_response_of(v@) is None,
        },
{
    if !json::has_record_form(v, 0, 1) {
        return None;
    }
    let value = match read_people_search_user_list_default(json::member(v, "value", 0)) {
        Some(x) => x,
        None => {
            return None;
        },
    };
    Some(PeopleSearchResponse { value })
}

/// The most results of a search.
pub const FIND_MAX_LIMIT: usize = 25;

/// A limit within what a search allows.
pub open spec fn clamped(limit: int) -> int {
    if limit < 1 {
        1
    } else if limit > FIND_MAX_LIMIT {
        FIND_MAX_LIMIT as int
    } else {
        limit
    }
}

/// A limit within what a search allows.
pub fn clamp_limit(limit: usize) -> (r: usize)
    ensures
        r == clamped(limit as int),
        1 <= r <= FIND_MAX_LIMIT,
{
    if limit < 1 {
        1
    } else if limit > FIND_MAX_LIMIT {
        FIND_MAX_LIMIT
    } else {
        limit
    }
}

/// The path of a search for files. Single quotes in the query are doubled.
pub fn drive_search_path(query: &str, limit: usize) -> (r: String)
    ensures
        r@ == "/me/drive/root/search(q='"@ + web::encoded(
            text::replaced(text::trimmed(query@), '\'', "''"@),
        ) + "')?$top="@ + text::decimal(clamped(limit as int) as nat),
{
    let t = text::trim(query);
    let q = text::replace_char(t.as_str(), '\'', "''");
    let mut s = "/me/drive/root/search(q='".to_string();
    s.append(web::encode(q.as_str()).as_str());
    s.append("')?$top=");
    s.append(text::to_decimal(clamp_limit(limit) as u64).as_str());
    s
}

/// The path of a search for people. Double quotes in the query are dropped.
pub fn people_search_path(query: &str, limit: usize) -> (r: String)
    ensures
        r@ == "/users?$search=\"displayName:"@ + web::encoded(
            text::replaced(text::trimmed(query@), '"', ""@),
        ) + "\"&$select=id,displayName,mail,userPrincipalName&$top="@ + text::decimal(
            clamped(limit as int) as nat,
        ),
{
    let t = text::trim(query);
    let q = text::replace_char(t.as_str(), '"', "");
    let mut s = "/users?$search=\"displayName:".to_string();
    s.append(web::encode(q.as_str()).as_str());
    s.append("\"&$select=id,displayName,mail,userPrincipalName&$top=");
    s.append(text::to_decimal(clamp_limit(limit) as u64).as_str());
    s
}

/// What is shown of a found item; nothing of one without an id.
pub open spec fn found_file(item: DriveSearchItemV) -> Option<SharedFileV> {
    match calendar::unless_blank(item.id) {
        None => None,
        Some(id) => Some(
            SharedFileV {
                id,
                name: teams::or_text(item.name, "[unnamed]"@),
                size: match item.size {
                    Some(n) => n,
                    None => 0u64,
                },
                mime: match item.file {
                    Some(f) => f.mime_type,
                    None => None,
                },
                web_url: item.web_url,
                download_url: item.download_url,
                drive_id: match item.parent {
                    Some(p) => p.drive_id,
                    None => None,
                },
                created: item.created,
                modified: item.modified,
                sender: None,
                is_folder: item.folder,
                share_url: None,
            },
        ),
    }
}

/// What is shown of a found item.
pub fn shared_from_hit(item: &DriveSearchItem) -> (r: Option<SharedFile>)
    ensures
        match r {
            Some(x) => found_file(item@) == Some(x@),
            None => found_file(item@) is None,
        },
{
    let id = match calendar::filter_blank(&item.id) {
        Some(id) => id,
        None => {
            return None;
        },
    };
    let size: u64 = match item.size {
        Some(n) => n,
        None => 0,
    };
    let mime = match &item.file {
        Some(f) => text::copy_opt(&f.mime_type),
        None => None,
    };
    let drive_id = match &item.parent {
        Some(p) => text::copy_opt(&p.drive_id),
        None => None,
    };
    Some(
        SharedFile {
            id,
            name: teams::text_or(&item.name, "[unnamed]"),
            size,
            mime,
            web_url: text::copy_opt(&item.web_url),
            download_url: text::copy_opt(&item.download_url),
            drive_id,
            created: text::copy_opt(&item.created),
            modified: text::copy_opt(&item.modified),
            sender: None,
            is_folder: item.folder,
            share_url: None,
        },
    )
}

/// What is shown of a found user; nothing of one without an id. A blank mail
/// address gives way to the user's principal name.
pub open spec fn found_user(u: PeopleSearchUserV) -> Option<TeamMemberInfoV> {
    match calendar::unless_blank(u.id) {
        None => None,
        Some(id) => Some(
            TeamMemberInfoV {
                id,
                display_name: teams::or_text(u.display_name, id),
                user_id: Some(id),
                email: match calendar::unless_blank(u.mail) {
                    Some(m) => Some(m),
                    None => u.upn,
                },
                roles: Seq::empty(),
                is_owner: false,
            },
        ),
    }
}

/// What is shown of a found user.
pub fn member_from_user(u: &PeopleSearchUser) -> (r: Option<TeamMemberInfo>)
    ensures
        match r {
            Some(x) => found_user(u@) == Some(x@),
            None => found_user(u@) is None,
        },
{
    let id = match calendar::filter_blank(&u.id) {
        Some(id) => id,
        None => {
            return None;
        },
    };
    let email = match calendar::filter_blank(&u.mail) {
        Some(m) => Some(m),
        None => text::copy_opt(&u.upn),
    };
    let roles: Vec<String> = Vec::new();
    proof {
        assert(text::texts(roles@) =~= Seq::empty());
    }
    Some(
        TeamMemberInfo {
            display_name: teams::text_or(&u.display_name, id.as_str()),
            user_id: Some(id.clone()),
            id,
            email,
            roles,
            is_owner: false,
        },
    )
}
/// What is shown of the found items, in order.
pub open spec fn found_file_rows(v: Seq<DriveSearchItemV>) -> Seq<SharedFileV>
    decreases v.len(),
{
    if v.len() == 0 {
        Seq::empty()
    } else {
        match found_file(v.last()) {
            Some(x) => found_file_rows(v.drop_last()).push(x),
            None => found_file_rows(v.drop_last()),
        }
    }
}

/// What is shown of the found items, in order.
pub fn found_files(v: &Vec<DriveSearchItem>) -> (r: Vec<SharedFile>)
    ensures
        files::shared_file_views(r@) == found_file_rows(drive_search_item_views(v@)),
{
    let ghost all = drive_search_item_views(v@);
    let mut out: Vec<SharedFile> = Vec::new();
    let mut i: usize = 0;
    proof {
        assert(all.take(0) =~= Seq::empty());
        assert(files::shared_file_views(out@) =~= Seq::empty());
    }
    while i < v.len()
        invariant
            i <= v@.len(),
            all == drive_search_item_views(v@),
            files::shared_file_views(out@) == found_file_rows(all.take(i as int)),
        decreases v@.len() - i,
    {
        proof {
            assert(all.take(i + 1).drop_last() =~= all.take(i as int));
            assert(all.take(i + 1).last() == v@[i as int]@);
        }
        match shared_from_hit(&v[i]) {
            Some(x) => {
                let ghost before = out@;
                out.push(x);
                proof {
                    assert(
                        files::shared_file_views(out@) =~= files::shared_file_views(before).push(x@)
                    );
                }
            },
            None => {},
        }
        i = i + 1;
    }
    proof {
        assert(all.take(i as int) =~= all);
    }
    out
}
/// What is shown of the found users, in order.
pub open spec fn found_user_rows(v: Seq<PeopleSearchUserV>) -> Seq<TeamMemberInfoV>
    decreases v.len(),
{
    if v.len() == 0 {
        Seq::empty()
    } else {
        match found_user(v.last()) {
            Some(x) => found_user_rows(v.drop_last()).push(x),
            None => found_user_rows(v.drop_last()),
        }
    }
}

/// What is shown of the found users, in order.
pub fn found_members(v: &Vec<PeopleSearchUser>) -> (r: Vec<TeamMemberInfo>)
    ensures
        teams::team_member_info_views(r@) == found_user_rows(people_search_user_views(v@)),
{
    let ghost all = people_search_user_views(v@);
    let mut out: Vec<TeamMemberInfo> = Vec::new();
    let mut i: usize = 0;
    proof {
        assert(all.take(0) =~= Seq::empty());
        assert(teams::team_member_info_views(out@) =~= Seq::empty());
    }
    while i < v.len()
        invariant
            i <= v@.len(),
            all == people_search_user_views(v@),
            teams::team_member_info_views(out@) == found_user_rows(all.take(i as int)),
        decreases v@.len() - i,
    {
        proof {
            assert(all.take(i + 1).drop_last() =~= all.take(i as int));
            assert(all.take(i + 1).last() == v@[i as int]@);
        }
        match member_from_user(&v[i]) {
            Some(x) => {
                let ghost before = out@;
                out.push(x);
                proof {
                    assert(
                        teams::team_member_info_views(out@)
                            =~= teams::team_member_info_views(before).push(
                            x@,
                        )
                    );
                }
            },
            None => {},
        }
        i = i + 1;
    }
    proof {
        assert(all.take(i as int) =~= all);
    }
    out
}

/// The files of a reply, by its JSON value: none where it is of another form.
pub open spec fn files_found(v: JsonV) -> Seq<SharedFileV> {
    match drive_search_response_of(v) {
        Some(x) => found_file_rows(x.value),
        None => Seq::empty(),
    }
}

/// The files of a reply, by its JSON value.
pub fn read_found_files(v: &Json) -> (r: Vec<SharedFile>)
    ensures
        files::shared_file_views(r@) == files_found(v@),
{
    match read_drive_search_response(v) {
        Some(x) => found_files(&x.value),
        None => {
            let none: Vec<SharedFile> = Vec::new();
            proof {
                assert(files::shared_file_views(none@) =~= Seq::empty());
            }
            none
        },
    }
}

/// The files of a reply.
pub fn parse_drive_search_response(value: &serde_json::Value) -> (r: Vec<SharedFile>)
    ensures
        files::shared_file_views(r@) == files_found(json::held_json(*value)),
{
    let v = json::from_value(value);
    read_found_files(&v)
}

/// The files that the bytes of a reply show; the error is the text to show.
pub fn read_drive_search_reply(body: &[u8]) -> (r: Result<Vec<SharedFile>, String>)
    ensures
        match r {
            Ok(l) => json::json_bytes(body@) matches Some(v) && files::shared_file_views(l@)
                == files_found(v),
            Err(e) => json::json_bytes(body@) is None && e@
                == "Failed to parse drive search response"@,
        },
{
    match json::value_from_bytes(body) {
        Some(v) => Ok(parse_drive_search_response(&v)),
        None => Err("Failed to parse drive search response".to_string()),
    }
}

/// The people of a reply, by its JSON value: none where it is of another form.
pub open spec fn people_found(v: JsonV) -> Seq<TeamMemberInfoV> {
    match people_search_response_of(v) {
        Some(x) => found_user_rows(x.value),
        None => Seq::empty(),
    }
}

/// The people of a reply, by its JSON value.
pub fn read_found_people(v: &Json) -> (r: Vec<TeamMemberInfo>)
    ensures
        teams::team_member_info_views(r@) == people_found(v@),
{
    match read_people_search_response(v) {
        Some(x) => found_members(&x.value),
        None => {
            let none: Vec<TeamMemberInfo> = Vec::new();
            proof {
                assert(teams::team_member_info_views(none@) =~= Seq::empty());
            }
            none
        },
    }
}

/// The people of a reply.
pub fn parse_people_search_response(value: &serde_json::Value) -> (r: Vec<TeamMemberInfo>)
    ensures
        teams::team_member_info_views(r@) == people_found(json::held_json(*value)),
{
    let v = json::from_value(value);
    read_found_people(&v)
}

/// The people that the bytes of a reply show; the error is the text to show.
pub fn read_people_search_reply(body: &[u8]) -> (r: Result<Vec<TeamMemberInfo>, String>)
    ensures
        match r {
            Ok(l) => json::json_bytes(body@) matches Some(v) && teams::team_member_info_views(l@)
                == people_found(v),
            Err(e) => json::json_bytes(body@) is None && e@
                == "Failed to parse people search response"@,
        },
{
    match json::value_from_bytes(body) {
        Some(v) => Ok(parse_people_search_response(&v)),
        None => Err("Failed to parse people search response".to_string()),
    }
}

/// The path of a search for files; the error is the text to show.
pub fn search_files_data(query: &str, limit: usize) -> (r: Result<String, String>)
    ensures
        match r {
            Ok(p) => !text::blank(query@) && p@ == "/me/drive/root/search(q='"@ + web::encoded(
                text::replaced(text::trimmed(query@), '\'', "''"@),
            ) + "')?$top="@ + text::decimal(clamped(limit as int) as nat),
            Err(e) => text::blank(query@) && e@ == "empty query"@,
        },
{
    if text::is_blank(query) {
        return Err("empty query".to_string());
    }
    Ok(drive_search_path(query, limit))
}

/// The path of a search for people; the error is the text to show.
pub fn search_people_data(query: &str, limit: usize) -> (r: Result<String, String>)
    ensures
        match r {
            Ok(p) => !text::blank(query@) && p@ == "/users?$search=\"displayName:"@ + web::encoded(
                text::replaced(text::trimmed(query@), '"', ""@),
            ) + "\"&$select=id,displayName,mail,userPrincipalName&$top="@ + text::decimal(
                clamped(limit as int) as nat,
            ),
            Err(e) => text::blank(query@) && e@ == "empty query"@,
        },
{
    if text::is_blank(query) {
        return Err("empty query".to_string());
    }
    Ok(people_search_path(query, limit))
}

// -- What the commands show --

/// What is shown of a found file.
pub open spec fn hit_shown(x: SharedFileV) -> Seq<char> {
    x.name
        + (if x.is_folder {
            "/"@
        } else {
            Seq::empty()
        }) + "\n"@
        + (match x.web_url {
            Some(t) => "  "@ + t + "\n"@,
            None => Seq::empty(),
        })
}

fn show_hit(x: &SharedFile) -> (r: String)
    ensures
        r@ == hit_shown(x@),
{
    let mut s = String::new();
    s.append(x.name.as_str());
    if x.is_folder {
        s.append("/");
    }
    s.append("\n");
    match &x.web_url {
        Some(t) => {
            s.append("  ");
            s.append(t.as_str());
            s.append("\n");
        },
        None => {},
    }
    proof {
        assert(s@ =~= hit_shown(x@));
    }
    s
}

/// What is shown of a list, entry by entry.
pub open spec fn hits_shown(v: Seq<SharedFileV>) -> Seq<char>
    decreases v.len(),
{
    if v.len() == 0 {
        Seq::empty()
    } else {
        hits_shown(v.drop_last()) + hit_shown(v.last())
    }
}

fn show_hits(v: &Vec<SharedFile>) -> (r: String)
    ensures
        r@ == hits_shown(files::shared_file_views(v@)),
{
    let ghost all = files::shared_file_views(v@);
    let mut s = String::new();
    let mut i: usize = 0;
    proof {
        assert(all.take(0) =~= Seq::empty());
        assert(s@ =~= Seq::empty());
    }
    while i < v.len()
        invariant
            i <= v@.len(),
            all == files::shared_file_views(v@),
            s@ == hits_shown(all.take(i as int)),
        decreases v@.len() - i,
    {
        proof {
            assert(all.take(i + 1).drop_last() =~= all.take(i as int));
            assert(all.take(i + 1).last() == v@[i as int]@);
        }
        s.append(show_hit(&v[i]).as_str());
        i = i + 1;
    }
    proof {
        assert(all.take(i as int) =~= all);
    }
    s
}

/// The found files, behind the line that names the query.
pub fn search_files(v: &Vec<SharedFile>) -> (r: String)
    ensures
        r@ == (if v@.len() == 0 {
            "  (no files found)\n"@
        } else {
            hits_shown(files::shared_file_views(v@))
        }),
{
    let mut s = String::new();
    if v.len() == 0 {
        s.append("  (no files found)\n");
    } else {
        s.append(show_hits(v).as_str());
    }
    proof {
        assert(s@ =~= (if v@.len() == 0 {
            "  (no files found)\n"@
        } else {
            hits_shown(files::shared_file_views(v@))
        }));
    }
    s
}

/// What is shown of a found person.
pub open spec fn person_shown(x: TeamMemberInfoV) -> Seq<char> {
    x.display_name + " — "@ + (match x.email { Some(t) => t, None => "(no email)"@ }) + "\n"@
}

fn show_person(x: &TeamMemberInfo) -> (r: String)
    ensures
        r@ == person_shown(x@),
{
    let mut s = String::new();
    s.append(x.display_name.as_str());
    s.append(" — ");
    match &x.email {
        Some(t) => {
            s.append(t.as_str());
        },
        None => {
            s.append("(no email)");
        },
    }
    s.append("\n");
    proof {
        assert(s@ =~= person_shown(x@));
    }
    s
}

/// What is shown of a list, entry by entry.
pub open spec fn persons_shown(v: Seq<TeamMemberInfoV>) -> Seq<char>
    decreases v.len(),
{
    if v.len() == 0 {
        Seq::empty()
    } else {
        persons_shown(v.drop_last()) + person_shown(v.last())
    }
}

fn show_persons(v: &Vec<TeamMemberInfo>) -> (r: String)
    ensures
        r@ == persons_shown(teams::team_member_info_views(v@)),
{
    let ghost all = teams::team_member_info_views(v@);
    let mut s = String::new();
    let mut i: usize = 0;
    proof {
        assert(all.take(0) =~= Seq::empty());
        assert(s@ =~= Seq::empty());
    }
    while i < v.len()
        invariant
            i <= v@.len(),
            all == teams::team_member_info_views(v@),
            s@ == persons_shown(all.take(i as int)),
        decreases v@.len() - i,
    {
        proof {
            assert(all.take(i + 1).drop_last() =~= all.take(i as int));
            assert(all.take(i + 1).last() == v@[i as int]@);
        }
        s.append(show_person(&v[i]).as_str());
        i = i + 1;
    }
    proof {
        assert(all.take(i as int) =~= all);
    }
    s
}

/// The found people, behind the line that names the query.
pub fn search_people(v: &Vec<TeamMemberInfo>) -> (r: String)
    ensures
        r@ == (if v@.len() == 0 {
            "  (no people found)\n"@
        } else {
            persons_shown(teams::team_member_info_views(v@))
        }),
{
    let mut s = String::new();
    if v.len() == 0 {
        s.append("  (no people found)\n");
    } else {
        s.append(show_persons(v).as_str());
    }
    proof {
        assert(s@ =~= (if v@.len() == 0 {
            "  (no people found)\n"@
        } else {
            persons_shown(teams::team_member_info_views(v@))
        }));
    }
    s
}

// -- What is read --

/// What is read of a [`SearchFileFacet`] stands in the members of these names, and it is read
/// where they hold what they should.
pub proof fn law_search_file_facet_reads_its_members(v: JsonV)
    requires
        v is Obj,
    ensures
        match search_file_facet_of(v) {
            Some(x) => {
                &&& x.mime_type == json::str_of(json::get_of(v, "mimeType"@))
            },
            None => !(json::opt_text_member(json::get_of(v, "mimeType"@)) is Some),
        },
{
}

/// What is read of a [`SearchParentRef`] stands in the members of these names, and it is read
/// where they hold what they should.
pub proof fn law_search_parent_ref_reads_its_members(v: JsonV)
    requires
        v is Obj,
    ensures
        match search_parent_ref_of(v) {
            Some(x) => {
                &&& x.drive_id == json::str_of(json::get_of(v, "driveId"@))
            },
            None => !(json::opt_text_member(json::get_of(v, "driveId"@)) is Some),
        },
{
}

/// What is read of a [`DriveSearchItem`] stands in the members of these names, and it is read
/// where they hold what they should.
pub proof fn law_drive_search_item_reads_its_members(v: JsonV)
    requires
        v is Obj,
    ensures
        match drive_search_item_of(v) {
            Some(x) => {
                &&& x.id == json::str_of(json::get_of(v, "id"@))
                &&& x.name == json::str_of(json::get_of(v, "name"@))
                &&& x.size == json::u64_of(json::get_of(v, "size"@))
                &&& x.web_url == json::str_of(json::get_of(v, "webUrl"@))
                &&& x.download_url == json::str_of(json::get_of(v, "@microsoft.graph.downloadUrl"@))
                &&& x.created == json::str_of(json::get_of(v, "createdDateTime"@))
                &&& x.modified == json::str_of(json::get_of(v, "lastModifiedDateTime"@))
                &&& (json::get_of(v, "file"@) is None
                    || json::get_of(v, "file"@) == Some(JsonV::Null)) ==> x.file is None
                &&& json::get_of(v, "file"@) matches Some(w) ==> w != JsonV::Null ==> x.file is Some
                    && search_file_facet_of(w) == x.file
                &&& x.folder <==> json::get_of(v, "folder"@) is Some
                    && json::get_of(v, "folder"@) != Some(JsonV::Null)
                &&& (json::get_of(v, "parentReference"@) is None
                    || json::get_of(v, "parentReference"@) == Some(JsonV::Null))
                    ==> x.parent is None
                &&& json::get_of(v, "parentReference"@) matches Some(w) ==> w != JsonV::Null
                    ==> x.parent is Some && search_parent_ref_of(w) == x.parent
            },
            None => !(json::opt_text_member(json::get_of(v, "id"@)) is Some
                && json::opt_text_member(json::get_of(v, "name"@)) is Some
                && json::opt_u64_member(json::get_of(v, "size"@)) is Some
                && json::opt_text_member(json::get_of(v, "webUrl"@)) is Some
                && json::opt_text_member(json::get_of(v, "@microsoft.graph.downloadUrl"@)) is Some
                && json::opt_text_member(json::get_of(v, "createdDateTime"@)) is Some
                && json::opt_text_member(json::get_of(v, "lastModifiedDateTime"@)) is Some
                && opt_search_file_facet_member(json::get_of(v, "file"@)) is Some
                && opt_search_parent_ref_member(json::get_of(v, "parentReference"@)) is Some),
        },
{
}

// The entries of a list, in their order.
proof fn lemma_drive_search_item_list_entries(a: Seq<JsonV>)
    ensures
        drive_search_item_list(a) matches Some(l) ==> l.len() == a.len() && forall|i: int|
            0 <= i < a.len() ==> drive_search_item_of(a[i]) == Some(#[trigger] l[i]),
    decreases a.len(),
{
    if a.len() > 0 {
        lemma_drive_search_item_list_entries(a.drop_last());
        if let Some(l) = drive_search_item_list(a) {
            assert forall|i: int| 0 <= i < a.len() implies drive_search_item_of(a[i])
                == Some(#[trigger] l[i]) by {
                if i < a.len() - 1 {
                    let before = drive_search_item_list(a.drop_last())->0;
                    assert(l[i] == before[i]);
                    assert(a.drop_last()[i] == a[i]);
                }
            }
        }
    }
}

/// What is read of a [`DriveSearchResponse`] stands in the members of these names, and it is read
/// where they hold what they should.
pub proof fn law_drive_search_response_reads_its_members(v: JsonV)
    requires
        v is Obj,
    ensures
        match drive_search_response_of(v) {
            Some(x) => {
                &&& json::get_of(v, "value"@) is None ==> x.value.len() == 0
                &&& json::get_of(v, "value"@) is Some
                    ==> (json::arr_of(json::get_of(v, "value"@)) matches Some(a)
                    && x.value.len() == a.len() && forall|i: int| 0 <= i < a.len()
                    ==> drive_search_item_of(a[i]) == Some(#[trigger] x.value[i]))
            },
            None => !(drive_search_item_list_default(json::get_of(v, "value"@)) is Some),
        },
{
    if let Some(JsonV::Arr(a)) = json::get_of(v, "value"@) {
        lemma_drive_search_item_list_entries(a);
    }
}

/// What is read of a [`PeopleSearchUser`] stands in the members of these names, and it is read
/// where they hold what they should.
pub proof fn law_people_search_user_reads_its_members(v: JsonV)
    requires
        v is Obj,
    ensures
        match people_search_user_of(v) {
            Some(x) => {
                &&& x.id == json::str_of(json::get_of(v, "id"@))
                &&& x.display_name == json::str_of(json::get_of(v, "displayName"@))
                &&& x.mail == json::str_of(json::get_of(v, "mail"@))
                &&& x.upn == json::str_of(json::get_of(v, "userPrincipalName"@))
            },
            None => !(json::opt_text_member(json::get_of(v, "id"@)) is Some
                && json::opt_text_member(json::get_of(v, "displayName"@)) is Some
                && json::opt_text_member(json::get_of(v, "mail"@)) is Some
                && json::opt_text_member(json::get_of(v, "userPrincipalName"@)) is Some),
        },
{
}

// The entries of a list, in their order.
proof fn lemma_people_search_user_list_entries(a: Seq<JsonV>)
    ensures
        people_search_user_list(a) matches Some(l) ==> l.len() == a.len() && forall|i: int|
            0 <= i < a.len() ==> people_search_user_of(a[i]) == Some(#[trigger] l[i]),
    decreases a.len(),
{
    if a.len() > 0 {
        lemma_people_search_user_list_entries(a.drop_last());
        if let Some(l) = people_search_user_list(a) {
            assert forall|i: int| 0 <= i < a.len() implies people_search_user_of(a[i])
                == Some(#[trigger] l[i]) by {
                if i < a.len() - 1 {
                    let before = people_search_user_list(a.drop_last())->0;
                    assert(l[i] == before[i]);
                    assert(a.drop_last()[i] == a[i]);
                }
            }
        }
    }
}

/// What is read of a [`PeopleSearchResponse`] stands in the members of these names, and it is read
/// where they hold what they should.
pub proof fn law_people_search_response_reads_its_members(v: JsonV)
    requires
        v is Obj,
    ensures
        match people_search_response_of(v) {
            Some(x) => {
                &&& json::get_of(v, "value"@) is None ==> x.value.len() == 0
                &&& json::get_of(v, "value"@) is Some
                    ==> (json::arr_of(json::get_of(v, "value"@)) matches Some(a)
                    && x.value.len() == a.len() && forall|i: int| 0 <= i < a.len()
                    ==> people_search_user_of(a[i]) == Some(#[trigger] x.value[i]))
            },
            None => !(people_search_user_list_default(json::get_of(v, "value"@)) is Some),
        },
{
    if let Some(JsonV::Arr(a)) = json::get_of(v, "value"@) {
        lemma_people_search_user_list_entries(a);
    }
}

// -- What is found --

/// At most twenty-five are asked for, and at least one.
pub proof fn law_limit_is_kept_within_bounds(limit: int)
    ensures
        limit < 1 ==> clamped(limit) == 1,
        1 <= limit <= 25 ==> clamped(limit) == limit,
        limit > 25 ==> clamped(limit) == 25,
{
}

/// What is shown of a file is what the drive says of it; one without an id is left out.
pub proof fn law_found_file_is_shown_as_it_is(item: DriveSearchItemV)
    ensures
        item.id is None ==> found_file(item) is None,
        item.id matches Some(i) ==> (text::blank(i) ==> found_file(item) is None),
        item.id matches Some(i) ==> (!text::blank(i) ==> found_file(item) is Some),
        found_file(item) matches Some(r) ==> {
            &&& item.id == Some(r.id)
            &&& item.name matches Some(n) ==> r.name == n
            &&& item.name is None ==> r.name == "[unnamed]"@
            &&& item.size matches Some(n) ==> r.size == n
            &&& item.size is None ==> r.size == 0
            &&& item.file matches Some(f) ==> r.mime == f.mime_type
            &&& item.file is None ==> r.mime is None
            &&& r.web_url == item.web_url
            &&& r.download_url == item.download_url
            &&& item.parent matches Some(p) ==> r.drive_id == p.drive_id
            &&& r.created == item.created
            &&& r.modified == item.modified
            &&& r.sender is None
            &&& r.is_folder == item.folder
        },
{
}

/// A person is shown by their name, else by the id, with the address for mail, else the
/// name that they log in with; nobody found is an owner.
pub proof fn law_found_person_is_shown_as_they_are(u: PeopleSearchUserV)
    ensures
        u.id is None ==> found_user(u) is None,
        u.id matches Some(i) ==> (!text::blank(i) ==> found_user(u) is Some),
        found_user(u) matches Some(r) ==> {
            &&& u.id == Some(r.id)
            &&& r.user_id == u.id
            &&& u.display_name matches Some(n) ==> r.display_name == n
            &&& u.display_name is None ==> r.display_name == r.id
            &&& u.mail matches Some(m) ==> (!text::blank(m) ==> r.email == Some(m))
            &&& u.mail is None ==> r.email == u.upn
            &&& r.roles.len() == 0 && !r.is_owner
        },
{
}

/// What is found is what was read of the answer, and nothing where it does not read.
pub proof fn law_found_is_what_was_read(v: JsonV)
    ensures
        drive_search_response_of(v) matches Some(x) ==> files_found(v) == found_file_rows(x.value),
        drive_search_response_of(v) is None ==> files_found(v).len() == 0,
        people_search_response_of(v) matches Some(x) ==> people_found(v) == found_user_rows(
            x.value,
        ),
        people_search_response_of(v) is None ==> people_found(v).len() == 0,
{
}

/// Files are listed in the order in which they were found.
pub proof fn law_found_files_keep_their_order(a: Seq<DriveSearchItemV>, b: Seq<DriveSearchItemV>)
    ensures
        found_file_rows(a + b) == found_file_rows(a) + found_file_rows(b),
    decreases b.len(),
{
    if b.len() == 0 {
        assert(a + b =~= a);
        assert(found_file_rows(a) + found_file_rows(b) =~= found_file_rows(a));
    } else {
        law_found_files_keep_their_order(a, b.drop_last());
        assert((a + b).drop_last() =~= a + b.drop_last());
        assert((a + b).last() == b.last());
        assert(found_file_rows(a + b) =~= found_file_rows(a) + found_file_rows(b));
    }
}

/// People are listed in the order in which they were found.
pub proof fn law_found_people_keep_their_order(a: Seq<PeopleSearchUserV>, b: Seq<PeopleSearchUserV>)
    ensures
        found_user_rows(a + b) == found_user_rows(a) + found_user_rows(b),
    decreases b.len(),
{
    if b.len() == 0 {
        assert(a + b =~= a);
        assert(found_user_rows(a) + found_user_rows(b) =~= found_user_rows(a));
    } else {
        law_found_people_keep_their_order(a, b.drop_last());
        assert((a + b).drop_last() =~= a + b.drop_last());
        assert((a + b).last() == b.last());
        assert(found_user_rows(a + b) =~= found_user_rows(a) + found_user_rows(b));
    }
}

/// Files are shown one after the other, in the order of the list.
pub proof fn law_found_files_are_shown_in_order(a: Seq<SharedFileV>, b: Seq<SharedFileV>)
    ensures
        hits_shown(a + b) == hits_shown(a) + hits_shown(b),
    decreases b.len(),
{
    if b.len() == 0 {
        assert(a + b =~= a);
        assert(hits_shown(a) + hits_shown(b) =~= hits_shown(a));
    } else {
        law_found_files_are_shown_in_order(a, b.drop_last());
        assert((a + b).drop_last() =~= a + b.drop_last());
        assert((a + b).last() == b.last());
        assert(hits_shown(a + b) =~= hits_shown(a) + hits_shown(b));
    }
}

/// People are shown one after the other, in the order of the list.
pub proof fn law_found_people_are_shown_in_order(a: Seq<TeamMemberInfoV>, b: Seq<TeamMemberInfoV>)
    ensures
        persons_shown(a + b) == persons_shown(a) + persons_shown(b),
    decreases b.len(),
{
    if b.len() == 0 {
        assert(a + b =~= a);
        assert(persons_shown(a) + persons_shown(b) =~= persons_shown(a));
    } else {
        law_found_people_are_shown_in_order(a, b.drop_last());
        assert((a + b).drop_last() =~= a + b.drop_last());
        assert((a + b).last() == b.last());
        assert(persons_shown(a + b) =~= persons_shown(a) + persons_shown(b));
    }
}

/// A file is shown by its name, a folder with a slash behind it; a person by their name and
/// address.
pub proof fn law_lines_of_found(x: SharedFileV, p: TeamMemberInfoV, m: Seq<char>)
    ensures
        !x.is_folder ==> (x.name + "\n"@).is_prefix_of(hit_shown(x)),
        x.is_folder ==> (x.name + "/"@ + "\n"@).is_prefix_of(hit_shown(x)),
        p.email == Some(m) ==> person_shown(p) == p.display_name + " — "@ + m + "\n"@,
        p.email is None ==> person_shown(p) == p.display_name + " — "@ + "(no email)"@ + "\n"@,
{
    let h = hit_shown(x);
    let a = x.name + "\n"@;
    let b = x.name + "/"@ + "\n"@;
    if x.is_folder {
        assert(h.subrange(0, b.len() as int) =~= b);
    } else {
        assert(x.name + Seq::empty() =~= x.name);
        assert(h.subrange(0, a.len() as int) =~= a);
    }
}

} // verus!
