//! Notebooks, their sections and pages, and what is appended to a page.
use crate::api::teams;
use crate::bytes;
use crate::encoding;
use crate::json;
use crate::json::{Json, JsonV};
use crate::order;
use crate::text;
use crate::web;
use vstd::utf8::*;
use vstd::prelude::*;

verus! {

/// A notebook as the service sends it.
pub struct WireNotebook {
    pub id: String,
    pub display_name: Option<String>,
}

/// The model of [`WireNotebook`].
pub struct WireNotebookV {
    pub id: Seq<char>,
    pub display_name: Option<Seq<char>>,
}

impl View for WireNotebook {
    type V = WireNotebookV;

    open spec fn view(&self) -> WireNotebookV {
        WireNotebookV {
            id: self.id@,
            display_name: text::opt_text(self.display_name),
        }
    }
}

/// A list of [`WireNotebook`] by their models.
pub open spec fn wire_notebook_views(v: Seq<WireNotebook>) -> Seq<WireNotebookV> {
    Seq::new(v.len(), |i: int| v[i]@)
}

/// How a JSON value reads as a [`WireNotebook`]; nothing where it does not.
pub open spec fn wire_notebook_of(v: JsonV) -> Option<WireNotebookV> {
    if !json::record_form(v, 2, 2) {
        None
    } else {
        match (
            json::str_of(json::member_of(v, "id"@, 0)),
            json::opt_text_member(json::member_of(v, "displayName"@, 1)),
        ) {
            (Some(id), Some(display_name)) => Some(WireNotebookV { id, display_name }),
            _ => None,
        }
    }
}

/// Reads a [`WireNotebook`].
pub fn read_wire_notebook(v: &Json) -> (r: Option<WireNotebook>)
    ensures
        match r {
            Some(x) => wire_notebook_of(v@) == Some(x@),
            None => wire_notebook_of(v@) is None,
        },
{
    if !json::has_record_form(v, 2, 2) {
        return None;
    }
    let id = match json::as_text(json::member(v, "id", 0)) {
        Some(x) => x,
        None => {
            return None;
        },
    };
    let display_name = match json::read_opt_text(json::member(v, "displayName", 1)) {
        Some(x) => x,
        None => {
            return None;
        },
    };
    Some(WireNotebook { id, display_name })
}

/// How a list of JSON values reads as a list of [`WireNotebook`]: all of them or none.
pub open spec fn wire_notebook_list(a: Seq<JsonV>) -> Option<Seq<WireNotebookV>>
    decreases a.len(),
{
    if a.len() == 0 {
        Some(Seq::empty())
    } else {
        match (wire_notebook_list(a.drop_last()), wire_notebook_of(a.last())) {
            (Some(l), Some(x)) => Some(l.push(x)),
            _ => None,
        }
    }
}

proof fn lemma_wire_notebook_list_prefix(a: Seq<JsonV>, i: int)
    requires
        0 <= i <= a.len(),
        wire_notebook_list(a.take(i)) is None,
    ensures
        wire_notebook_list(a) is None,
    decreases a.len() - i,
{
    if i < a.len() {
        assert(a.take(i + 1).drop_last() =~= a.take(i));
        lemma_wire_notebook_list_prefix(a, i + 1);
    } else {
        assert(a.take(i) =~= a);
    }
}

fn read_wire_notebook_list(a: &Vec<Json>) -> (r: Option<Vec<WireNotebook>>)
    ensures
        match r {
            Some(l) => wire_notebook_list(json::items_view(a@)) == Some(wire_notebook_views(l@)),
            None => wire_notebook_list(json::items_view(a@)) is None,
        },
{
    let ghost all = json::items_view(a@);
    let mut out: Vec<WireNotebook> = Vec::new();
    let mut i: usize = 0;
    proof {
        assert(all.take(0) =~= Seq::empty());
        assert(wire_notebook_views(out@) =~= Seq::empty());
    }
    while i < a.len()
        invariant
            i <= a@.len(),
            all == json::items_view(a@),
            wire_notebook_list(all.take(i as int)) == Some(wire_notebook_views(out@)),
        decreases a@.len() - i,
    {
        proof {
            assert(all.take(i + 1).drop_last() =~= all.take(i as int));
            assert(all.take(i + 1).last() == a@[i as int]@);
        }
        match read_wire_notebook(&a[i]) {
            Some(x) => {
                let ghost before = out@;
                out.push(x);
                proof {
                    assert(wire_notebook_views(out@) =~= wire_notebook_views(before).push(x@));
                }
            },
            None => {
                proof {
                    lemma_wire_notebook_list_prefix(all, i + 1);
                }
                return None;
            },
        }
        i = i + 1;
    }
    proof {
        assert(all.take(i as int) =~= all);
    }
    Some(out)
}

/// How a required list member reads.
pub open spec fn wire_notebook_list_member(m: Option<JsonV>) -> Option<Seq<WireNotebookV>> {
    match m {
        Some(JsonV::Arr(a)) => wire_notebook_list(a),
        _ => None,
    }
}

fn read_wire_notebook_list_member(m: Option<&Json>) -> (r: Option<Vec<WireNotebook>>)
    ensures
        match r {
            Some(l) => wire_notebook_list_member(json::opt_json(m)) == Some(
                wire_notebook_views(l@),
            ),
            None => wire_notebook_list_member(json::opt_json(m)) is None,
        },
{
    match m {
        Some(Json::Arr(a)) => {
            proof {
                json::lemma_arr_view(*a);
            }
            read_wire_notebook_list(a)
        },
        _ => None,
    }
}
/// The reply to a request for notebooks.
pub struct NotebooksResponse {
    pub value: Vec<WireNotebook>,
}

/// The model of [`NotebooksResponse`].
pub struct NotebooksResponseV {
    pub value: Seq<WireNotebookV>,
}

impl View for NotebooksResponse {
    type V = NotebooksResponseV;

    open spec fn view(&self) -> NotebooksResponseV {
        NotebooksResponseV {
            value: wire_notebook_views(self.value@),
        }
    }
}

/// How a JSON value reads as a [`NotebooksResponse`]; nothing where it does not.
pub open spec fn notebooks_response_of(v: JsonV) -> Option<NotebooksResponseV> {
    if !json::record_form(v, 1, 1) {
        None
    } else {
        match wire_notebook_list_member(json::member_of(v, "value"@, 0)) {
            Some(value) => Some(NotebooksResponseV { value }),
            None => None,
        }
    }
}

/// Reads a [`NotebooksResponse`].
pub fn read_notebooks_response(v: &Json) -> (r: Option<NotebooksResponse>)
    ensures
        match r {
            Some(x) => notebooks_response_of(v@) == Some(x@),
            None => notebooks_response_of(v@) is None,
        },
{
    if !json::has_record_form(v, 1, 1) {
        return None;
    }
    let value = match read_wire_notebook_list_member(json::member(v, "value", 0)) {
        Some(x) => x,
        None => {
            return None;
        },
    };
    Some(NotebooksResponse { value })
}
/// A section as the service sends it.
pub struct WireSection {
    pub id: String,
    pub display_name: Option<String>,
}

/// The model of [`WireSection`].
pub struct WireSectionV {
    pub id: Seq<char>,
    pub display_name: Option<Seq<char>>,
}

impl View for WireSection {
    type V = WireSectionV;

    open spec fn view(&self) -> WireSectionV {
        WireSectionV {
            id: self.id@,
            display_name: text::opt_text(self.display_name),
        }
    }
}

/// A list of [`WireSection`] by their models.
pub open spec fn wire_section_views(v: Seq<WireSection>) -> Seq<WireSectionV> {
    Seq::new(v.len(), |i: int| v[i]@)
}

/// How a JSON value reads as a [`WireSection`]; nothing where it does not.
pub open spec fn wire_section_of(v: JsonV) -> Option<WireSectionV> {
    if !json::record_form(v, 2, 2) {
        None
    } else {
        match (
            json::str_of(json::member_of(v, "id"@, 0)),
            json::opt_text_member(json::member_of(v, "displayName"@, 1)),
        ) {
            (Some(id), Some(display_name)) => Some(WireSectionV { id, display_name }),
            _ => None,
        }
    }
}

/// Reads a [`WireSection`].
pub fn read_wire_section(v: &Json) -> (r: Option<WireSection>)
    ensures
        match r {
            Some(x) => wire_section_of(v@) == Some(x@),
            None => wire_section_of(v@) is None,
        },
{
    if !json::has_record_form(v, 2, 2) {
        return None;
    }
    let id = match json::as_text(json::member(v, "id", 0)) {
        Some(x) => x,
        None => {
            return None;
        },
    };
    let display_name = match json::read_opt_text(json::member(v, "displayName", 1)) {
        Some(x) => x,
        None => {
            return None;
        },
    };
    Some(WireSection { id, display_name })
}

/// How a list of JSON values reads as a list of [`WireSection`]: all of them or none.
pub open spec fn wire_section_list(a: Seq<JsonV>) -> Option<Seq<WireSectionV>>
    decreases a.len(),
{
    if a.len() == 0 {
        Some(Seq::empty())
    } else {
        match (wire_section_list(a.drop_last()), wire_section_of(a.last())) {
            (Some(l), Some(x)) => Some(l.push(x)),
            _ => None,
        }
    }
}

proof fn lemma_wire_section_list_prefix(a: Seq<JsonV>, i: int)
    requires
        0 <= i <= a.len(),
        wire_section_list(a.take(i)) is None,
    ensures
        wire_section_list(a) is None,
    decreases a.len() - i,
{
    if i < a.len() {
        assert(a.take(i + 1).drop_last() =~= a.take(i));
        lemma_wire_section_list_prefix(a, i + 1);
    } else {
        assert(a.take(i) =~= a);
    }
}

fn read_wire_section_list(a: &Vec<Json>) -> (r: Option<Vec<WireSection>>)
    ensures
        match r {
            Some(l) => wire_section_list(json::items_view(a@)) == Some(wire_section_views(l@)),
            None => wire_section_list(json::items_view(a@)) is None,
        },
{
    let ghost all = json::items_view(a@);
    let mut out: Vec<WireSection> = Vec::new();
    let mut i: usize = 0;
    proof {
        assert(all.take(0) =~= Seq::empty());
        assert(wire_section_views(out@) =~= Seq::empty());
    }
    while i < a.len()
        invariant
            i <= a@.len(),
            all == json::items_view(a@),
            wire_section_list(all.take(i as int)) == Some(wire_section_views(out@)),
        decreases a@.len() - i,
    {
        proof {
            assert(all.take(i + 1).drop_last() =~= all.take(i as int));
            assert(all.take(i + 1).last() == a@[i as int]@);
        }
        match read_wire_section(&a[i]) {
            Some(x) => {
                let ghost before = out@;
                out.push(x);
                proof {
                    assert(wire_section_views(out@) =~= wire_section_views(before).push(x@));
                }
            },
            None => {
                proof {
                    lemma_wire_section_list_prefix(all, i + 1);
                }
                return None;
            },
        }
        i = i + 1;
    }
    proof {
        assert(all.take(i as int) =~= all);
    }
    Some(out)
}

/// How a required list member reads.
pub open spec fn wire_section_list_member(m: Option<JsonV>) -> Option<Seq<WireSectionV>> {
    match m {
        Some(JsonV::Arr(a)) => wire_section_list(a),
        _ => None,
    }
}

fn read_wire_section_list_member(m: Option<&Json>) -> (r: Option<Vec<WireSection>>)
    ensures
        match r {
            Some(l) => wire_section_list_member(json::opt_json(m)) == Some(wire_section_views(l@)),
            None => wire_section_list_member(json::opt_json(m)) is None,
        },
{
    match m {
        Some(Json::Arr(a)) => {
            proof {
                json::lemma_arr_view(*a);
            }
            read_wire_section_list(a)
        },
        _ => None,
    }
}
/// The reply to a request for sections.
pub struct SectionsResponse {
    pub value: Vec<WireSection>,
}

/// The model of [`SectionsResponse`].
pub struct SectionsResponseV {
    pub value: Seq<WireSectionV>,
}

impl View for SectionsResponse {
    type V = SectionsResponseV;

    open spec fn view(&self) -> SectionsResponseV {
        SectionsResponseV {
            value: wire_section_views(self.value@),
        }
    }
}

/// How a JSON value reads as a [`SectionsResponse`]; nothing where it does not.
pub open spec fn sections_response_of(v: JsonV) -> Option<SectionsResponseV> {
    if !json::record_form(v, 1, 1) {
        None
    } else {
        match wire_section_list_member(json::member_of(v, "value"@, 0)) {
            Some(value) => Some(SectionsResponseV { value }),
            None => None,
        }
    }
}

/// Reads a [`SectionsResponse`].
pub fn read_sections_response(v: &Json) -> (r: Option<SectionsResponse>)
    ensures
        match r {
            Some(x) => sections_response_of(v@) == Some(x@),
            None => sections_response_of(v@) is None,
        },
{
    if !json::has_record_form(v, 1, 1) {
        return None;
    }
    let value = match read_wire_section_list_member(json::member(v, "value", 0)) {
        Some(x) => x,
        None => {
            return None;
        },
    };
    Some(SectionsResponse { value })
}
/// A page as the service sends it.
pub struct WirePage {
    pub id: String,
    pub title: Option<String>,
    pub last_modified: Option<String>,
}

/// The model of [`WirePage`].
pub struct WirePageV {
    pub id: Seq<char>,
    pub title: Option<Seq<char>>,
    pub last_modified: Option<Seq<char>>,
}

impl View for WirePage {
    type V = WirePageV;

    open spec fn view(&self) -> WirePageV {
        WirePageV {
            id: self.id@,
            title: text::opt_text(self.title),
            last_modified: text::opt_text(self.last_modified),
        }
    }
}

/// A list of [`WirePage`] by their models.
pub open spec fn wire_page_views(v: Seq<WirePage>) -> Seq<WirePageV> {
    Seq::new(v.len(), |i: int| v[i]@)
}

/// How a JSON value reads as a [`WirePage`]; nothing where it does not.
pub open spec fn wire_page_of(v: JsonV) -> Option<WirePageV> {
    if !json::record_form(v, 3, 3) {
        None
    } else {
        match (
            json::str_of(json::member_of(v, "id"@, 0)),
            json::opt_text_member(json::member_of(v, "title"@, 1)),
            json::opt_text_member(json::member_of(v, "lastModifiedDateTime"@, 2)),
        ) {
            (Some(id), Some(title), Some(last_modified)) => Some(
                WirePageV { id, title, last_modified },
            ),
            _ => None,
        }
    }
}

/// Reads a [`WirePage`].
pub fn read_wire_page(v: &Json) -> (r: Option<WirePage>)
    ensures
        match r {
            Some(x) => wire_page_of(v@) == Some(x@),
            None => wire_page_of(v@) is None,
        },
{
    if !json::has_record_form(v, 3, 3) {
        return None;
    }
    let id = match json::as_text(json::member(v, "id", 0)) {
        Some(x) => x,
        None => {
            return None;
        },
    };
    let title = match json::read_opt_text(json::member(v, "title", 1)) {
        Some(x) => x,
        None => {
            return None;
        },
    };
    let last_modified = match json::read_opt_text(json::member(v, "lastModifiedDateTime", 2)) {
        Some(x) => x,
        None => {
            return None;
        },
    };
    Some(WirePage { id, title, last_modified })
}

/// How a list of JSON values reads as a list of [`WirePage`]: all of them or none.
pub open spec fn wire_page_list(a: Seq<JsonV>) -> Option<Seq<WirePageV>>
    decreases a.len(),
{
    if a.len() == 0 {
        Some(Seq::empty())
    } else {
        match (wire_page_list(a.drop_last()), wire_page_of(a.last())) {
            (Some(l), Some(x)) => Some(l.push(x)),
            _ => None,
        }
    }
}

proof fn lemma_wire_page_list_prefix(a: Seq<JsonV>, i: int)
    requires
        0 <= i <= a.len(),
        wire_page_list(a.take(i)) is None,
    ensures
        wire_page_list(a) is None,
    decreases a.len() - i,
{
    if i < a.len() {
        assert(a.take(i + 1).drop_last() =~= a.take(i));
        lemma_wire_page_list_prefix(a, i + 1);
    } else {
        assert(a.take(i) =~= a);
    }
}

fn read_wire_page_list(a: &Vec<Json>) -> (r: Option<Vec<WirePage>>)
    ensures
        match r {
            Some(l) => wire_page_list(json::items_view(a@)) == Some(wire_page_views(l@)),
            None => wire_page_list(json::items_view(a@)) is None,
        },
{
    let ghost all = json::items_view(a@);
    let mut out: Vec<WirePage> = Vec::new();
    let mut i: usize = 0;
    proof {
        assert(all.take(0) =~= Seq::empty());
        assert(wire_page_views(out@) =~= Seq::empty());
    }
    while i < a.len()
        invariant
            i <= a@.len(),
            all == json::items_view(a@),
            wire_page_list(all.take(i as int)) == Some(wire_page_views(out@)),
        decreases a@.len() - i,
    {
        proof {
            assert(all.take(i + 1).drop_last() =~= all.take(i as int));
            assert(all.take(i + 1).last() == a@[i as int]@);
        }
        match read_wire_page(&a[i]) {
            Some(x) => {
                let ghost before = out@;
                out.push(x);
                proof {
                    assert(wire_page_views(out@) =~= wire_page_views(before).push(x@));
                }
            },
            None => {
                proof {
                    lemma_wire_page_list_prefix(all, i + 1);
                }
                return None;
            },
        }
        i = i + 1;
    }
    proof {
        assert(all.take(i as int) =~= all);
    }
    Some(out)
}

/// How a required list member reads.
pub open spec fn wire_page_list_member(m: Option<JsonV>) -> Option<Seq<WirePageV>> {
    match m {
        Some(JsonV::Arr(a)) => wire_page_list(a),
        _ => None,
    }
}

fn read_wire_page_list_member(m: Option<&Json>) -> (r: Option<Vec<WirePage>>)
    ensures
        match r {
            Some(l) => wire_page_list_member(json::opt_json(m)) == Some(wire_page_views(l@)),
            None => wire_page_list_member(json::opt_json(m)) is None,
        },
{
    match m {
        Some(Json::Arr(a)) => {
            proof {
                json::lemma_arr_view(*a);
            }
            read_wire_page_list(a)
        },
        _ => None,
    }
}
/// The reply to a request for pages.
pub struct PagesResponse {
    pub value: Vec<WirePage>,
}

/// The model of [`PagesResponse`].
pub struct PagesResponseV {
    pub value: Seq<WirePageV>,
}

impl View for PagesResponse {
    type V = PagesResponseV;

    open spec fn view(&self) -> PagesResponseV {
        PagesResponseV {
            value: wire_page_views(self.value@),
        }
    }
}

/// How a JSON value reads as a [`PagesResponse`]; nothing where it does not.
pub open spec fn pages_response_of(v: JsonV) -> Option<PagesResponseV> {
    if !json::record_form(v, 1, 1) {
        None
    } else {
        match wire_page_list_member(json::member_of(v, "value"@, 0)) {
            Some(value) => Some(PagesResponseV { value }),
            None => None,
        }
    }
}

/// Reads a [`PagesResponse`].
pub fn read_pages_response(v: &Json) -> (r: Option<PagesResponse>)
    ensures
        match r {
            Some(x) => pages_response_of(v@) == Some(x@),
            None => pages_response_of(v@) is None,
        },
{
    if !json::has_record_form(v, 1, 1) {
        return None;
    }
    let value = match read_wire_page_list_member(json::member(v, "value", 0)) {
        Some(x) => x,
        None => {
            return None;
        },
    };
    Some(PagesResponse { value })
}
/// What is shown of a notebook.
pub struct NotebookInfo {
    pub id: String,
    pub name: String,
}

/// The model of [`NotebookInfo`].
pub struct NotebookInfoV {
    pub id: Seq<char>,
    pub name: Seq<char>,
}

impl View for NotebookInfo {
    type V = NotebookInfoV;

    open spec fn view(&self) -> NotebookInfoV {
        NotebookInfoV {
            id: self.id@,
            name: self.name@,
        }
    }
}
/// A list of [`NotebookInfo`] by their models.
pub open spec fn notebook_info_views(v: Seq<NotebookInfo>) -> Seq<NotebookInfoV> {
    Seq::new(v.len(), |i: int| v[i]@)
}
/// What is shown of a page in a list.
pub struct PageInfo {
    pub id: String,
    pub title: String,
    pub updated: Option<String>,
}

/// The model of [`PageInfo`].
pub struct PageInfoV {
    pub id: Seq<char>,
    pub title: Seq<char>,
    pub updated: Option<Seq<char>>,
}

impl View for PageInfo {
    type V = PageInfoV;

    open spec fn view(&self) -> PageInfoV {
        PageInfoV {
            id: self.id@,
            title: self.title@,
            updated: text::opt_text(self.updated),
        }
    }
}
/// A list of [`PageInfo`] by their models.
pub open spec fn page_info_views(v: Seq<PageInfo>) -> Seq<PageInfoV> {
    Seq::new(v.len(), |i: int| v[i]@)
}
/// What is shown of a section, with its pages.
pub struct SectionInfo {
    pub id: String,
    pub name: String,
    pub pages: Vec<PageInfo>,
}

/// The model of [`SectionInfo`].
pub struct SectionInfoV {
    pub id: Seq<char>,
    pub name: Seq<char>,
    pub pages: Seq<PageInfoV>,
}

impl View for SectionInfo {
    type V = SectionInfoV;

    open spec fn view(&self) -> SectionInfoV {
        SectionInfoV {
            id: self.id@,
            name: self.name@,
            pages: page_info_views(self.pages@),
        }
    }
}
/// A list of [`SectionInfo`] by their models.
pub open spec fn section_info_views(v: Seq<SectionInfo>) -> Seq<SectionInfoV> {
    Seq::new(v.len(), |i: int| v[i]@)
}
/// The content of a page.
pub struct NotePage {
    pub id: String,
    pub title: String,
    pub html: String,
}

/// The model of [`NotePage`].
pub struct NotePageV {
    pub id: Seq<char>,
    pub title: Seq<char>,
    pub html: Seq<char>,
}

impl View for NotePage {
    type V = NotePageV;

    open spec fn view(&self) -> NotePageV {
        NotePageV {
            id: self.id@,
            title: self.title@,
            html: self.html@,
        }
    }
}

/// The start of the paths of notes: those of a group, or else the user's own.
pub open spec fn base_of(group_id: Option<Seq<char>>) -> Result<Seq<char>, Seq<char>> {
    match group_id {
        None => Ok("/me"@),
        Some(g) => {
            let t = text::trimmed(g);
            if t.len() == 0 {
                Ok("/me"@)
            } else if t.contains('/') || text::has_space(t) {
                Err("group_id must not contain '/' or whitespace"@)
            } else {
                Ok("/groups/"@ + t)
            }
        },
    }
}

/// A text or an error by their views.
pub open spec fn text_result(r: Result<String, String>) -> Result<Seq<char>, Seq<char>> {
    match r {
        Ok(s) => Ok(s@),
        Err(e) => Err(e@),
    }
}

/// The start of the paths of notes; the error is the text to show.
pub fn notes_base(group_id: Option<&str>) -> (r: Result<String, String>)
    ensures
        text_result(r) == base_of(text::opt_str(group_id)),
{
    match group_id {
        None => Ok("/me".to_string()),
        Some(g) => {
            let t = text::trim(g);
            if t.as_str().is_empty() {
                Ok("/me".to_string())
            } else if text::contains_char(t.as_str(), '/') || text::contains_space(t.as_str()) {
                Err("group_id must not contain '/' or whitespace".to_string())
            } else {
                Ok(text::join2("/groups/", t.as_str()))
            }
        },
    }
}

/// An id without the space around it, which must not be empty.
pub open spec fn id_of(what: Seq<char>, id: Seq<char>) -> Result<Seq<char>, Seq<char>> {
    if text::trimmed(id).len() == 0 {
        Err("empty "@ + what)
    } else {
        Ok(text::trimmed(id))
    }
}

/// An id without the space around it; the error is the text to show.
pub fn require_id(what: &str, id: &str) -> (r: Result<String, String>)
    ensures
        text_result(r) == id_of(what@, id@),
{
    let t = text::trim(id);
    if t.as_str().is_empty() {
        return Err(text::join2("empty ", what));
    }
    Ok(t)
}

// -- Page titles --

/// The title of a page: the trimmed text between its first opening `title` tag and
/// the closing one behind it, both in any ASCII case. Nothing where it has none, or a
/// blank one.
pub open spec fn title_in(html: Seq<char>) -> Option<Seq<char>> {
    match text::find_in(text::lowered(html), "<title>"@) {
        None => None,
        Some(i) => {
            let rest = html.skip(i + 7);
            match text::find_in(text::lowered(rest), "</title>"@) {
                None => None,
                Some(j) => if text::blank(rest.take(j)) {
                    None
                } else {
                    Some(text::trimmed(rest.take(j)))
                },
            }
        },
    }
}

/// The title of a page: the text of its first `title` element, whose tags may be
/// in any case.
pub fn page_title(html: &str) -> (r: Option<String>)
    ensures
        text::opt_text(r) == title_in(html@),
{
    let v = text::chars_of(html);
    let n: usize = v.len();
    let low = text::lower(html);
    let i: usize = match text::find(low.as_str(), "<title>") {
        Some(i) => i,
        None => {
            return None;
        },
    };
    proof {
        reveal_strlit("<title>");
    }
    assert(i + 7 <= n);
    let rest = text::text_of(&v, i + 7, n);
    proof {
        assert(rest@ =~= html@.skip(i + 7));
    }
    let rest_low = text::lower(rest.as_str());
    let w = text::chars_of(rest.as_str());
    let j: usize = match text::find(rest_low.as_str(), "</title>") {
        Some(j) => j,
        None => {
            return None;
        },
    };
    let title = text::text_of(&w, 0, j);
    proof {
        assert(title@ =~= rest@.take(j as int));
    }
    if text::is_blank(title.as_str()) {
        None
    } else {
        Some(text::trim(title.as_str()))
    }
}

/// The plain text of a page: without its tags, which leave a space, and with the
/// common entities decoded.
pub fn strip_html(html: &str) -> (r: String)
    ensures
        r@ == web::visible_text(html@, " "@),
{
    web::strip_tags(html, " ")
}

/// The text of a page as one line.
pub fn page_text(html: &str) -> (r: String)
    ensures
        r@ == web::collapsed(web::visible_text(html@, " "@)),
{
    web::collapse(strip_html(html).as_str())
}

/// The title to show of a page.
pub fn shown_title(page: &NotePage) -> (r: String)
    ensures
        r@ == if page@.title.len() == 0 {
            "(untitled)"@
        } else {
            page@.title
        },
{
    if page.title.as_str().is_empty() {
        "(untitled)".to_string()
    } else {
        page.title.clone()
    }
}

/// What is read of a page.
pub fn read_note_page_data(page_id: &str, html: String) -> (r: Result<NotePage, String>)
    ensures
        match r {
            Ok(p) => id_of("page_id"@, page_id@) == Ok::<Seq<char>, Seq<char>>(p@.id) && p@.html
                == html@ && p@.title == teams::or_text(
                title_in(html@),
                ""@,
            ),
            Err(e) => id_of("page_id"@, page_id@) == Err::<Seq<char>, Seq<char>>(e@),
        },
{
    match require_id("page_id", page_id) {
        Ok(id) => {
            let found = page_title(html.as_str());
            let title = teams::text_or(&found, "");
            Ok(NotePage { id, title, html })
        },
        Err(e) => Err(e),
    }
}

// -- Lists --

/// What is shown of a notebook.
pub open spec fn notebook_row(n: WireNotebookV) -> NotebookInfoV {
    NotebookInfoV { id: n.id, name: teams::or_text(n.display_name, n.id) }
}

fn notebook_info(n: &WireNotebook) -> (r: NotebookInfo)
    ensures
        r@ == notebook_row(n@),
{
    NotebookInfo { id: n.id.clone(), name: teams::text_or(&n.display_name, n.id.as_str()) }
}
/// What is shown of the notebooks, in order.
pub open spec fn notebook_rows(v: Seq<WireNotebookV>) -> Seq<NotebookInfoV> {
    Seq::new(v.len(), |i: int| notebook_row(v[i]))
}

/// What is shown of the notebooks, in order.
pub fn notebook_infos(v: &Vec<WireNotebook>) -> (r: Vec<NotebookInfo>)
    ensures
        notebook_info_views(r@) == notebook_rows(wire_notebook_views(v@)),
{
    let mut out: Vec<NotebookInfo> = Vec::new();
    let mut i: usize = 0;
    while i < v.len()
        invariant
            i <= v@.len(),
            out@.len() == i,
            forall|j: int| 0 <= j < i ==> (#[trigger] out@[j])@ == notebook_row(v@[j]@),
        decreases v@.len() - i,
    {
        out.push(notebook_info(&v[i]));
        i = i + 1;
    }
    proof {
        assert(notebook_info_views(out@) =~= notebook_rows(wire_notebook_views(v@)));
    }
    out
}
/// The notebooks of a user or a group, by the JSON value of the reply; nothing where it
/// is of another form.
pub open spec fn notebooks_of(v: JsonV) -> Option<Seq<NotebookInfoV>> {
    match notebooks_response_of(v) {
        Some(x) => Some(notebook_rows(x.value)),
        None => None,
    }
}

/// The notebooks of a user or a group, by the JSON value of the reply.
pub fn read_notebooks(v: &Json) -> (r: Option<Vec<NotebookInfo>>)
    ensures
        match r {
            Some(l) => notebooks_of(v@) == Some(notebook_info_views(l@)),
            None => notebooks_of(v@) is None,
        },
{
    match read_notebooks_response(v) {
        Some(x) => Some(notebook_infos(&x.value)),
        None => None,
    }
}

/// The notebooks of a user or a group, by the body of the reply.
pub fn list_notebooks_data(body: &[u8]) -> (r: Result<Vec<NotebookInfo>, String>)
    ensures
        match r {
            Ok(l) => json::json_bytes(body@) matches Some(v) && notebooks_of(v) == Some(
                notebook_info_views(l@),
            ),
            Err(e) => (json::json_bytes(body@) matches Some(v) ==> notebooks_of(v) is None) && e@
                == "Failed to parse notebooks response"@,
        },
{
    if let Some(v) = json::parse_json_bytes(body) {
        if let Some(l) = read_notebooks(&v) {
            return Ok(l);
        }
    }
    Err("Failed to parse notebooks response".to_string())
}

/// The sections of a notebook, by the body of the reply.
pub fn parse_sections(body: &[u8]) -> (r: Result<Vec<WireSection>, String>)
    ensures
        match r {
            Ok(l) => json::json_bytes(body@) matches Some(v) && sections_response_of(v) == Some(
                SectionsResponseV { value: wire_section_views(l@) },
            ),
            Err(e) => (json::json_bytes(body@) matches Some(v) ==> sections_response_of(v) is None)
                && e@ == "Failed to parse sections response"@,
        },
{
    if let Some(v) = json::parse_json_bytes(body) {
        if let Some(x) = read_sections_response(&v) {
            return Ok(x.value);
        }
    }
    Err("Failed to parse sections response".to_string())
}

/// What is shown of a page in a list.
pub open spec fn page_row(p: WirePageV) -> PageInfoV {
    PageInfoV { id: p.id, title: teams::or_text(p.title, p.id), updated: p.last_modified }
}

fn page_info(p: &WirePage) -> (r: PageInfo)
    ensures
        r@ == page_row(p@),
{
    PageInfo {
        id: p.id.clone(),
        title: teams::text_or(&p.title, p.id.as_str()),
        updated: text::copy_opt(&p.last_modified),
    }
}
/// What is shown of the pages, in order.
pub open spec fn page_rows(v: Seq<WirePageV>) -> Seq<PageInfoV> {
    Seq::new(v.len(), |i: int| page_row(v[i]))
}

/// What is shown of the pages, in order.
pub fn page_infos(v: &Vec<WirePage>) -> (r: Vec<PageInfo>)
    ensures
        page_info_views(r@) == page_rows(wire_page_views(v@)),
{
    let mut out: Vec<PageInfo> = Vec::new();
    let mut i: usize = 0;
    while i < v.len()
        invariant
            i <= v@.len(),
            out@.len() == i,
            forall|j: int| 0 <= j < i ==> (#[trigger] out@[j])@ == page_row(v@[j]@),
        decreases v@.len() - i,
    {
        out.push(page_info(&v[i]));
        i = i + 1;
    }
    proof {
        assert(page_info_views(out@) =~= page_rows(wire_page_views(v@)));
    }
    out
}
/// The pages of a section, by the JSON value of the reply; nothing where it is of another form.
pub open spec fn pages_of(v: JsonV) -> Option<Seq<PageInfoV>> {
    match pages_response_of(v) {
        Some(x) => Some(page_rows(x.value)),
        None => None,
    }
}

/// The pages of a section, by the JSON value of the reply.
pub fn read_pages(v: &Json) -> (r: Option<Vec<PageInfo>>)
    ensures
        match r {
            Some(l) => pages_of(v@) == Some(page_info_views(l@)),
            None => pages_of(v@) is None,
        },
{
    match read_pages_response(v) {
        Some(x) => Some(page_infos(&x.value)),
        None => None,
    }
}

/// The pages of a section, by the body of the reply.
pub fn parse_pages(body: &[u8]) -> (r: Result<Vec<PageInfo>, String>)
    ensures
        match r {
            Ok(l) => json::json_bytes(body@) matches Some(v) && pages_of(v) == Some(
                page_info_views(l@),
            ),
            Err(e) => (json::json_bytes(body@) matches Some(v) ==> pages_of(v) is None) && e@
                == "Failed to parse pages response"@,
        },
{
    if let Some(v) = json::parse_json_bytes(body) {
        if let Some(l) = read_pages(&v) {
            return Ok(l);
        }
    }
    Err("Failed to parse pages response".to_string())
}

/// What is shown of a section, by the reply to the request for its pages; a
/// section whose pages could not be fetched has none.
pub open spec fn section_row(s: WireSectionV, reply: Option<Seq<u8>>) -> Option<SectionInfoV> {
    let pages = match reply {
        None => Some(Seq::empty()),
        Some(b) => match json::json_bytes(b) {
            Some(v) => pages_of(v),
            None => None,
        },
    };
    match pages {
        Some(pages) => Some(
            SectionInfoV { id: s.id, name: teams::or_text(s.display_name, s.id), pages },
        ),
        None => None,
    }
}

/// What is shown of a section; the error is the text to show.
pub fn section_info(s: &WireSection, reply: Option<&[u8]>) -> (r: Result<SectionInfo, String>)
    ensures
        match r {
            Ok(x) => section_row(s@, encoding::opt_slice(reply)) == Some(x@),
            Err(e) => section_row(s@, encoding::opt_slice(reply)) is None && e@
                == "Failed to parse pages response"@,
        },
{
    let pages = match reply {
        None => {
            let none: Vec<PageInfo> = Vec::new();
            proof {
                assert(page_info_views(none@) =~= Seq::empty());
            }
            none
        },
        Some(b) => match parse_pages(b) {
            Ok(l) => l,
            Err(e) => {
                return Err(e);
            },
        },
    };
    Ok(
        SectionInfo {
            id: s.id.clone(),
            name: teams::text_or(&s.display_name, s.id.as_str()),
            pages,
        },
    )
}

/// The sections of a notebook with their pages, each by the reply to the request that
/// it takes; nothing where a reply
/// is of another form.
pub open spec fn sections_with_pages(
    items: Seq<WireSectionV>,
    replies: Seq<Option<Seq<u8>>>,
) -> Option<Seq<SectionInfoV>>
    decreases items.len(),
{
    if items.len() == 0 {
        Some(Seq::empty())
    } else {
        match (sections_with_pages(items.drop_last(), replies), section_row(
            items.last(),
            replies[items.len() - 1],
        )) {
            (Some(l), Some(x)) => Some(l.push(x)),
            _ => None,
        }
    }
}

proof fn lemma_sections_with_pages_prefix(
    items: Seq<WireSectionV>,
    replies: Seq<Option<Seq<u8>>>,
    i: int,
)
    requires
        0 <= i <= items.len(),
        sections_with_pages(items.take(i), replies) is None,
    ensures
        sections_with_pages(items, replies) is None,
    decreases items.len() - i,
{
    if i < items.len() {
        assert(items.take(i + 1).drop_last() =~= items.take(i));
        lemma_sections_with_pages_prefix(items, replies, i + 1);
    } else {
        assert(items.take(i) =~= items);
    }
}

/// The sections of a notebook with their pages; the error is the text to show. A
/// request that failed has no reply.
pub fn list_notebook_sections_data(
    items: &Vec<WireSection>,
    replies: &Vec<Option<Vec<u8>>>,
) -> (r: Result<Vec<SectionInfo>, String>)
    requires
        replies@.len() == items@.len(),
    ensures
        match r {
            Ok(l) => sections_with_pages(wire_section_views(items@),
                encoding::reply_views(replies@)) == Some(
                section_info_views(l@),
            ),
            Err(e) => sections_with_pages(wire_section_views(items@),
                encoding::reply_views(replies@)) is None && e@
                == "Failed to parse pages response"@,
        },
{
    let ghost all = wire_section_views(items@);
    let ghost given = encoding::reply_views(replies@);
    let mut out: Vec<SectionInfo> = Vec::new();
    let mut i: usize = 0;
    proof {
        assert(all.take(0) =~= Seq::empty());
        assert(section_info_views(out@) =~= Seq::empty());
    }
    while i < items.len()
        invariant
            i <= items@.len(),
            replies@.len() == items@.len(),
            all == wire_section_views(items@),
            given == encoding::reply_views(replies@),
            sections_with_pages(all.take(i as int), given) == Some(section_info_views(out@)),
        decreases items@.len() - i,
    {
        proof {
            assert(all.take(i + 1).drop_last() =~= all.take(i as int));
            assert(all.take(i + 1).last() == items@[i as int]@);
            assert(given[i as int] == encoding::opt_bytes(replies@[i as int]));
        }
        let reply = match &replies[i] {
            Some(b) => Some(b.as_slice()),
            None => None,
        };
        match section_info(&items[i], reply) {
            Ok(x) => {
                let ghost before = out@;
                out.push(x);
                proof {
                    assert(section_info_views(out@) =~= section_info_views(before).push(x@));
                }
            },
            Err(e) => {
                proof {
                    lemma_sections_with_pages_prefix(all, given, i + 1);
                }
                return Err(e);
            },
        }
        i = i + 1;
    }
    proof {
        assert(all.take(i as int) =~= all);
    }
    Ok(out)
}

// -- Paths --

/// The path of the notebooks; the error is the text to show.
pub fn notebooks_path(group_id: Option<&str>) -> (r: Result<String, String>)
    ensures
        text_result(r) == match base_of(text::opt_str(group_id)) {
            Ok(b) => Ok(b + "/onenote/notebooks"@),
            Err(e) => Err(e),
        },
{
    match notes_base(group_id) {
        Ok(b) => Ok(text::join2(b.as_str(), "/onenote/notebooks")),
        Err(e) => Err(e),
    }
}

/// The path below an id of a list of notes.
pub open spec fn below(
    base: Result<Seq<char>, Seq<char>>,
    kind: Seq<char>,
    id: Seq<char>,
    rest: Seq<char>,
) -> Result<Seq<char>, Seq<char>> {
    match base {
        Ok(b) => Ok(b + kind + id + rest),
        Err(e) => Err(e),
    }
}

fn path_below(base: &str, kind: &str, id: &str, rest: &str) -> (r: String)
    ensures
        r@ == base@ + kind@ + id@ + rest@,
{
    let mut s = text::join3(base, kind, id);
    s.append(rest);
    s
}

/// The path of a notebook's sections; the error is the text to show.
pub fn sections_path(notebook_id: &str, group_id: Option<&str>) -> (r: Result<String, String>)
    ensures
        text_result(r) == match id_of("notebook_id"@, notebook_id@) {
            Ok(id) => below(
                base_of(text::opt_str(group_id)),
                "/onenote/notebooks/"@,
                id,
                "/sections"@,
            ),
            Err(e) => Err(e),
        },
{
    let id = match require_id("notebook_id", notebook_id) {
        Ok(id) => id,
        Err(e) => {
            return Err(e);
        },
    };
    match notes_base(group_id) {
        Ok(b) => Ok(path_below(b.as_str(), "/onenote/notebooks/", id.as_str(), "/sections")),
        Err(e) => Err(e),
    }
}

/// The path of a section's pages; the error is the text to show.
pub fn pages_path(section_id: &str, group_id: Option<&str>) -> (r: Result<String, String>)
    ensures
        text_result(r) == below(
            base_of(text::opt_str(group_id)),
            "/onenote/sections/"@,
            section_id@,
            "/pages"@,
        ),
{
    match notes_base(group_id) {
        Ok(b) => Ok(path_below(b.as_str(), "/onenote/sections/", section_id, "/pages")),
        Err(e) => Err(e),
    }
}

/// The path of a page's content, or the text to show.
pub open spec fn content_path(page_id: Seq<char>, group_id: Option<Seq<char>>) -> Result<
    Seq<char>,
    Seq<char>,
> {
    match id_of("page_id"@, page_id) {
        Ok(id) => below(base_of(group_id), "/onenote/pages/"@, id, "/content"@),
        Err(e) => Err(e),
    }
}

/// The path of a page's content; the error is the text to show.
pub fn page_content_path(page_id: &str, group_id: Option<&str>) -> (r: Result<String, String>)
    ensures
        text_result(r) == content_path(page_id@, text::opt_str(group_id)),
{
    let id = match require_id("page_id", page_id) {
        Ok(id) => id,
        Err(e) => {
            return Err(e);
        },
    };
    match notes_base(group_id) {
        Ok(b) => Ok(path_below(b.as_str(), "/onenote/pages/", id.as_str(), "/content")),
        Err(e) => Err(e),
    }
}

// -- Appending --

/// A text as the content of a paragraph.
pub fn escape_para(text: &str) -> (r: String)
    ensures
        r@ == web::escaped(text@, false),
{
    web::escape(text, false)
}

/// The commands that append a paragraph to a page.
pub open spec fn commands_payload(text: Seq<char>) -> JsonV {
    JsonV::Arr(
        seq![
            JsonV::Obj(
                seq![
                    ("action"@, JsonV::Str("append"@)),
                    ("content"@, JsonV::Str("<p>"@ + web::escaped(text, false) + "</p>"@)),
                    ("position"@, JsonV::Str("after"@)),
                    ("target"@, JsonV::Str("body"@)),
                ],
            ),
        ],
    )
}

proof fn lemma_first_less(a: Seq<char>, b: Seq<char>)
    requires
        a.len() > 0,
        b.len() > 0,
        is_ascii_chars(a),
        is_ascii_chars(b),
        a[0] < b[0],
    ensures
        order::text_less(a, b),
{
    is_ascii_chars_encode_utf8(a);
    is_ascii_chars_encode_utf8(b);
    assert(encode_utf8(a)[0] == a[0] as u8 && encode_utf8(b)[0] == b[0] as u8);
}

/// The text of the commands that append a paragraph to a page. It reads back as
/// those commands.
pub fn append_commands(text: &str) -> (r: String)
    ensures
        r@ == json::written_json(commands_payload(text@)),
        json::json_text(r@) == Some(commands_payload(text@)),
{
    let escaped = escape_para(text);
    let content = text::join3("<p>", escaped.as_str(), "</p>");
    let mut members: Vec<(String, String)> = Vec::new();
    members.push(("action".to_string(), "append".to_string()));
    members.push(("content".to_string(), content));
    members.push(("position".to_string(), "after".to_string()));
    members.push(("target".to_string(), "body".to_string()));
    proof {
        reveal_strlit("action");
        reveal_strlit("content");
        reveal_strlit("position");
        reveal_strlit("target");
        lemma_first_less("action"@, "content"@);
        lemma_first_less("action"@, "position"@);
        lemma_first_less("action"@, "target"@);
        lemma_first_less("content"@, "position"@);
        lemma_first_less("content"@, "target"@);
        lemma_first_less("position"@, "target"@);
        assert(json::rising_names(members@));
    }
    let ghost held = JsonV::Obj(json::text_members(members@));
    let command = json::value_of_texts(members);
    let mut list: Vec<serde_json::Value> = Vec::new();
    list.push(command);
    let ghost items = list@;
    let commands = json::value_of_items(list);
    proof {
        let o = json::text_members(members@);
        assert(o =~= seq![
            ("action"@, JsonV::Str("append"@)),
            ("content"@, JsonV::Str("<p>"@ + web::escaped(text@, false) + "</p>"@)),
            ("position"@, JsonV::Str("after"@)),
            ("target"@, JsonV::Str("body"@)),
        ]);
        assert(Seq::new(items.len(), |i: int| json::held_json(items[i])) =~= seq![held]);
        assert forall|i: int| 0 <= i < o.len() implies json::rereadable(
            (#[trigger] o[i]).1,
            125,
        ) by {}
        assert(json::rereadable(held, 126));
        assert(json::rereadable(JsonV::Arr(seq![held]), 127));
    }
    json::value_to_text(&commands)
}

/// The body of a request that carries commands: one part of a form, between the
/// lines that hold the boundary.
pub open spec fn form_text(boundary: Seq<char>, commands: Seq<char>) -> Seq<char> {
    "--"@ + boundary + "\r\n"@
        + "Content-Disposition: form-data; name=\"Commands\"\r\nContent-Type: application/json\r\n\r\n"@
        + commands + "\r\n--"@ + boundary + "--\r\n"@
}

/// The content type and the body of a request that carries commands. The boundary
/// should not occur in them.
pub fn multipart_commands(boundary: &str, commands: &str) -> (r: (String, Vec<u8>))
    ensures
        r.0@ == "multipart/form-data; boundary="@ + boundary@,
        r.1@ == encode_utf8(form_text(boundary@, commands@)),
{
    let mut s = text::join3("--", boundary, "\r\n");
    s.append(
        "Content-Disposition: form-data; name=\"Commands\"\r\nContent-Type: application/json\r\n\r\n",
    );
    s.append(commands);
    s.append("\r\n--");
    s.append(boundary);
    s.append("--\r\n");
    let data = s.as_str().as_bytes();
    let n: usize = data.len();
    let body = bytes::copy_range(data, 0, n);
    proof {
        assert(body@ =~= data@);
    }
    (text::join2("multipart/form-data; boundary=", boundary), body)
}

/// A request that changes a page.
pub struct PagePatch {
    pub path: String,
    pub content_type: String,
    pub body: Vec<u8>,
}

/// The request that appends a paragraph to a page, or the text to show.
pub open spec fn append_path(
    page_id: Seq<char>,
    text: Seq<char>,
    group_id: Option<Seq<char>>,
) -> Result<
    Seq<char>,
    Seq<char>,
> {
    match id_of("page_id"@, page_id) {
        Ok(id) => if text::blank(text) {
            Err("empty text"@)
        } else {
            below(base_of(group_id), "/onenote/pages/"@, id, "/content"@)
        },
        Err(e) => Err(e),
    }
}

/// The request that appends a paragraph to a page; the error is the text to show.
pub fn append_note_paragraph_data(
    page_id: &str,
    text: &str,
    group_id: Option<&str>,
    boundary: &str,
) -> (r: Result<PagePatch, String>)
    ensures
        match r {
            Ok(p) => append_path(page_id@, text@, text::opt_str(group_id)) == Ok::<
                Seq<char>,
                Seq<char>,
            >(p.path@) && p.content_type@ == "multipart/form-data; boundary="@ + boundary@
                && p.body@
                == encode_utf8(
                form_text(boundary@, json::written_json(commands_payload(text@))),
            ),
            Err(e) => append_path(page_id@, text@, text::opt_str(group_id)) == Err::<
                Seq<char>,
                Seq<char>,
            >(e@),
        },
{
    let id = match require_id("page_id", page_id) {
        Ok(id) => id,
        Err(e) => {
            return Err(e);
        },
    };
    if text::is_blank(text) {
        return Err("empty text".to_string());
    }
    let base = match notes_base(group_id) {
        Ok(b) => b,
        Err(e) => {
            return Err(e);
        },
    };
    let path = path_below(base.as_str(), "/onenote/pages/", id.as_str(), "/content");
    let (content_type, body) = multipart_commands(boundary, append_commands(text).as_str());
    Ok(PagePatch { path, content_type, body })
}

// -- What the command shows --

/// What the notes command does.
pub enum NotesAction {
    /// Append a paragraph to a page, then show the page.
    Append { page: String, text: String },
    /// Show a page.
    Page(String),
    /// Show the sections of a notebook.
    Notebook(String),
    /// List the notebooks.
    List,
}

/// Chooses what the notes command does: a page comes before a notebook, and a
/// notebook before the list. A paragraph needs a page.
pub fn notes(notebook: Option<&str>, page: Option<&str>, append: Option<&str>) -> (r: Result<
    NotesAction,
    String,
>)
    ensures
        match r {
            Ok(NotesAction::Append { page: p, text }) => text::opt_str(page) == Some(p@)
                && text::opt_str(append) == Some(text@) && !text::blank(p@),
            Ok(NotesAction::Page(p)) => text::opt_str(page) == Some(p@) && append is None,
            Ok(NotesAction::Notebook(n)) => text::opt_str(notebook) == Some(n@) && page is None
                && append is None,
            Ok(NotesAction::List) => page is None && append is None && notebook is None,
            Err(e) => append is Some && (page matches Some(x) ==> text::blank(x@)) && e@
                == "--append requires --page <id>"@,
        },
{
    if append.is_some() {
        let blank = match page {
            Some(p) => text::is_blank(p),
            None => true,
        };
        if blank {
            return Err("--append requires --page <id>".to_string());
        }
    }
    match page {
        Some(p) => match append {
            Some(t) => Ok(NotesAction::Append { page: p.to_string(), text: t.to_string() }),
            None => Ok(NotesAction::Page(p.to_string())),
        },
        None => match notebook {
            Some(n) => Ok(NotesAction::Notebook(n.to_string())),
            None => Ok(NotesAction::List),
        },
    }
}

// -- What the commands show --

/// What is shown of a notebook.
pub open spec fn notebook_shown(x: NotebookInfoV) -> Seq<char> {
    "  "@ + text::filled(x.name, 30) + " "@ + x.id + "\n"@
}

fn show_notebook(x: &NotebookInfo) -> (r: String)
    ensures
        r@ == notebook_shown(x@),
{
    let mut s = String::new();
    s.append("  ");
    s.append(text::fill(x.name.as_str(), 30).as_str());
    s.append(" ");
    s.append(x.id.as_str());
    s.append("\n");
    proof {
        assert(s@ =~= notebook_shown(x@));
    }
    s
}

/// What is shown of a list, entry by entry.
pub open spec fn notebooks_shown(v: Seq<NotebookInfoV>) -> Seq<char>
    decreases v.len(),
{
    if v.len() == 0 {
        Seq::empty()
    } else {
        notebooks_shown(v.drop_last()) + notebook_shown(v.last())
    }
}

fn show_notebooks(v: &Vec<NotebookInfo>) -> (r: String)
    ensures
        r@ == notebooks_shown(notebook_info_views(v@)),
{
    let ghost all = notebook_info_views(v@);
    let mut s = String::new();
    let mut i: usize = 0;
    proof {
        assert(all.take(0) =~= Seq::empty());
        assert(s@ =~= Seq::empty());
    }
    while i < v.len()
        invariant
            i <= v@.len(),
            all == notebook_info_views(v@),
            s@ == notebooks_shown(all.take(i as int)),
        decreases v@.len() - i,
    {
        proof {
            assert(all.take(i + 1).drop_last() =~= all.take(i as int));
            assert(all.take(i + 1).last() == v@[i as int]@);
        }
        s.append(show_notebook(&v[i]).as_str());
        i = i + 1;
    }
    proof {
        assert(all.take(i as int) =~= all);
    }
    s
}

/// The list of notebooks.
pub fn list_notebooks(v: &Vec<NotebookInfo>) -> (r: String)
    ensures
        r@ == "\nOneNote Notebooks:\n------------------------------------------------------------\n"@
            + (if v@.len() == 0 {
            "  (no notebooks found)\n"@
        } else {
            notebooks_shown(notebook_info_views(v@))
        }),
{
    let mut s = String::new();
    s.append(
        "\nOneNote Notebooks:\n------------------------------------------------------------\n",
    );
    if v.len() == 0 {
        s.append("  (no notebooks found)\n");
    } else {
        s.append(show_notebooks(v).as_str());
    }
    proof {
        assert(s@ =~= "\nOneNote Notebooks:\n------------------------------------------------------------\n"@
            + (if v@.len() == 0 {
            "  (no notebooks found)\n"@
        } else {
            notebooks_shown(notebook_info_views(v@))
        }));
    }
    s
}

/// What is shown of a page in a list.
pub open spec fn page_shown(x: PageInfoV) -> Seq<char> {
    "  "@ + text::filled(x.title, 30) + " "@ + x.id + "\n"@
}

fn show_page(x: &PageInfo) -> (r: String)
    ensures
        r@ == page_shown(x@),
{
    let mut s = String::new();
    s.append("  ");
    s.append(text::fill(x.title.as_str(), 30).as_str());
    s.append(" ");
    s.append(x.id.as_str());
    s.append("\n");
    proof {
        assert(s@ =~= page_shown(x@));
    }
    s
}

/// What is shown of a list, entry by entry.
pub open spec fn pages_shown(v: Seq<PageInfoV>) -> Seq<char>
    decreases v.len(),
{
    if v.len() == 0 {
        Seq::empty()
    } else {
        pages_shown(v.drop_last()) + page_shown(v.last())
    }
}

fn show_pages(v: &Vec<PageInfo>) -> (r: String)
    ensures
        r@ == pages_shown(page_info_views(v@)),
{
    let ghost all = page_info_views(v@);
    let mut s = String::new();
    let mut i: usize = 0;
    proof {
        assert(all.take(0) =~= Seq::empty());
        assert(s@ =~= Seq::empty());
    }
    while i < v.len()
        invariant
            i <= v@.len(),
            all == page_info_views(v@),
            s@ == pages_shown(all.take(i as int)),
        decreases v@.len() - i,
    {
        proof {
            assert(all.take(i + 1).drop_last() =~= all.take(i as int));
            assert(all.take(i + 1).last() == v@[i as int]@);
        }
        s.append(show_page(&v[i]).as_str());
        i = i + 1;
    }
    proof {
        assert(all.take(i as int) =~= all);
    }
    s
}

/// What is shown of a section, with its pages.
pub open spec fn section_shown(x: SectionInfoV) -> Seq<char> {
    "Section: "@ + x.name + " ("@ + text::decimal(x.pages.len()) + " pages)\n"@
        + pages_shown(x.pages) + "\n"@
}

fn show_section(x: &SectionInfo) -> (r: String)
    ensures
        r@ == section_shown(x@),
{
    let mut s = String::new();
    s.append("Section: ");
    s.append(x.name.as_str());
    s.append(" (");
    s.append(text::to_decimal(x.pages.len() as u64).as_str());
    s.append(" pages)\n");
    s.append(show_pages(&x.pages).as_str());
    s.append("\n");
    proof {
        assert(s@ =~= section_shown(x@));
    }
    s
}

/// What is shown of a list, entry by entry.
pub open spec fn sections_shown(v: Seq<SectionInfoV>) -> Seq<char>
    decreases v.len(),
{
    if v.len() == 0 {
        Seq::empty()
    } else {
        sections_shown(v.drop_last()) + section_shown(v.last())
    }
}

fn show_sections(v: &Vec<SectionInfo>) -> (r: String)
    ensures
        r@ == sections_shown(section_info_views(v@)),
{
    let ghost all = section_info_views(v@);
    let mut s = String::new();
    let mut i: usize = 0;
    proof {
        assert(all.take(0) =~= Seq::empty());
        assert(s@ =~= Seq::empty());
    }
    while i < v.len()
        invariant
            i <= v@.len(),
            all == section_info_views(v@),
            s@ == sections_shown(all.take(i as int)),
        decreases v@.len() - i,
    {
        proof {
            assert(all.take(i + 1).drop_last() =~= all.take(i as int));
            assert(all.take(i + 1).last() == v@[i as int]@);
        }
        s.append(show_section(&v[i]).as_str());
        i = i + 1;
    }
    proof {
        assert(all.take(i as int) =~= all);
    }
    s
}

/// The sections of a notebook.
pub fn show_notebook_sections(notebook_id: &str, sections: &Vec<SectionInfo>) -> (r: String)
    ensures
        r@ == "\nNotebook "@ + notebook_id@
            + ":\n------------------------------------------------------------\n"@
            + (if sections@.len() == 0 {
            "  (no sections found)\n"@
        } else {
            sections_shown(section_info_views(sections@))
        }),
{
    let mut s = text::join3(
        "\nNotebook ",
        notebook_id,
        ":\n------------------------------------------------------------\n",
    );
    if sections.len() == 0 {
        s.append("  (no sections found)\n");
    } else {
        s.append(show_sections(sections).as_str());
    }
    s
}

/// A page: its title and its text.
pub fn show_note_page(page: &NotePage) -> (r: String)
    ensures
        r@ == "\n"@ + (if page@.title.len() == 0 {
            "(untitled)"@
        } else {
            page@.title
        }) + ":\n------------------------------------------------------------\n"@
            + web::collapsed(web::visible_text(page@.html, " "@)) + "\n"@,
{
    let mut s = text::join3(
        "\n",
        shown_title(page).as_str(),
        ":\n------------------------------------------------------------\n",
    );
    s.append(page_text(page.html.as_str()).as_str());
    s.append("\n");
    s
}

// -- What is read --

/// What is read of a [`WireNotebook`] stands in the members of these names, and it is read
/// where they hold what they should.
pub proof fn law_wire_notebook_reads_its_members(v: JsonV)
    requires
        v is Obj,
    ensures
        match wire_notebook_of(v) {
            Some(x) => {
                &&& json::str_of(json::get_of(v, "id"@)) == Some(x.id)
                &&& x.display_name == json::str_of(json::get_of(v, "displayName"@))
            },
            None => !(json::str_of(json::get_of(v, "id"@)) is Some
                && json::opt_text_member(json::get_of(v, "displayName"@)) is Some),
        },
{
}

// The entries of a list, in their order.
proof fn lemma_wire_notebook_list_entries(a: Seq<JsonV>)
    ensures
        wire_notebook_list(a) matches Some(l) ==> l.len() == a.len() && forall|i: int|
            0 <= i < a.len() ==> wire_notebook_of(a[i]) == Some(#[trigger] l[i]),
    decreases a.len(),
{
    if a.len() > 0 {
        lemma_wire_notebook_list_entries(a.drop_last());
        if let Some(l) = wire_notebook_list(a) {
            assert forall|i: int| 0 <= i < a.len() implies wire_notebook_of(a[i])
                == Some(#[trigger] l[i]) by {
                if i < a.len() - 1 {
                    let before = wire_notebook_list(a.drop_last())->0;
                    assert(l[i] == before[i]);
                    assert(a.drop_last()[i] == a[i]);
                }
            }
        }
    }
}

/// What is read of a [`NotebooksResponse`] stands in the members of these names, and it is read
/// where they hold what they should.
pub proof fn law_notebooks_response_reads_its_members(v: JsonV)
    requires
        v is Obj,
    ensures
        match notebooks_response_of(v) {
            Some(x) => {
                &&& (json::arr_of(json::get_of(v, "value"@)) matches Some(a)
                    && x.value.len() == a.len() && forall|i: int| 0 <= i < a.len()
                    ==> wire_notebook_of(a[i]) == Some(#[trigger] x.value[i]))
            },
            None => !(wire_notebook_list_member(json::get_of(v, "value"@)) is Some),
        },
{
    if let Some(JsonV::Arr(a)) = json::get_of(v, "value"@) {
        lemma_wire_notebook_list_entries(a);
    }
}

/// What is read of a [`WireSection`] stands in the members of these names, and it is read
/// where they hold what they should.
pub proof fn law_wire_section_reads_its_members(v: JsonV)
    requires
        v is Obj,
    ensures
        match wire_section_of(v) {
            Some(x) => {
                &&& json::str_of(json::get_of(v, "id"@)) == Some(x.id)
                &&& x.display_name == json::str_of(json::get_of(v, "displayName"@))
            },
            None => !(json::str_of(json::get_of(v, "id"@)) is Some
                && json::opt_text_member(json::get_of(v, "displayName"@)) is Some),
        },
{
}

// The entries of a list, in their order.
proof fn lemma_wire_section_list_entries(a: Seq<JsonV>)
    ensures
        wire_section_list(a) matches Some(l) ==> l.len() == a.len() && forall|i: int|
            0 <= i < a.len() ==> wire_section_of(a[i]) == Some(#[trigger] l[i]),
    decreases a.len(),
{
    if a.len() > 0 {
        lemma_wire_section_list_entries(a.drop_last());
        if let Some(l) = wire_section_list(a) {
            assert forall|i: int| 0 <= i < a.len() implies wire_section_of(a[i])
                == Some(#[trigger] l[i]) by {
                if i < a.len() - 1 {
                    let before = wire_section_list(a.drop_last())->0;
                    assert(l[i] == before[i]);
                    assert(a.drop_last()[i] == a[i]);
                }
            }
        }
    }
}

/// What is read of a [`SectionsResponse`] stands in the members of these names, and it is read
/// where they hold what they should.
pub proof fn law_sections_response_reads_its_members(v: JsonV)
    requires
        v is Obj,
    ensures
        match sections_response_of(v) {
            Some(x) => {
                &&& (json::arr_of(json::get_of(v, "value"@)) matches Some(a)
                    && x.value.len() == a.len() && forall|i: int| 0 <= i < a.len()
                    ==> wire_section_of(a[i]) == Some(#[trigger] x.value[i]))
            },
            None => !(wire_section_list_member(json::get_of(v, "value"@)) is Some),
        },
{
    if let Some(JsonV::Arr(a)) = json::get_of(v, "value"@) {
        lemma_wire_section_list_entries(a);
    }
}

/// What is read of a [`WirePage`] stands in the members of these names, and it is read
/// where they hold what they should.
pub proof fn law_wire_page_reads_its_members(v: JsonV)
    requires
        v is Obj,
    ensures
        match wire_page_of(v) {
            Some(x) => {
                &&& json::str_of(json::get_of(v, "id"@)) == Some(x.id)
                &&& x.title == json::str_of(json::get_of(v, "title"@))
                &&& x.last_modified == json::str_of(json::get_of(v, "lastModifiedDateTime"@))
            },
            None => !(json::str_of(json::get_of(v, "id"@)) is Some
                && json::opt_text_member(json::get_of(v, "title"@)) is Some
                && json::opt_text_member(json::get_of(v, "lastModifiedDateTime"@)) is Some),
        },
{
}

// The entries of a list, in their order.
proof fn lemma_wire_page_list_entries(a: Seq<JsonV>)
    ensures
        wire_page_list(a) matches Some(l) ==> l.len() == a.len() && forall|i: int|
            0 <= i < a.len() ==> wire_page_of(a[i]) == Some(#[trigger] l[i]),
    decreases a.len(),
{
    if a.len() > 0 {
        lemma_wire_page_list_entries(a.drop_last());
        if let Some(l) = wire_page_list(a) {
            assert forall|i: int| 0 <= i < a.len() implies wire_page_of(a[i])
                == Some(#[trigger] l[i]) by {
                if i < a.len() - 1 {
                    let before = wire_page_list(a.drop_last())->0;
                    assert(l[i] == before[i]);
                    assert(a.drop_last()[i] == a[i]);
                }
            }
        }
    }
}

/// What is read of a [`PagesResponse`] stands in the members of these names, and it is read
/// where they hold what they should.
pub proof fn law_pages_response_reads_its_members(v: JsonV)
    requires
        v is Obj,
    ensures
        match pages_response_of(v) {
            Some(x) => {
                &&& (json::arr_of(json::get_of(v, "value"@)) matches Some(a)
                    && x.value.len() == a.len() && forall|i: int| 0 <= i < a.len()
                    ==> wire_page_of(a[i]) == Some(#[trigger] x.value[i]))
            },
            None => !(wire_page_list_member(json::get_of(v, "value"@)) is Some),
        },
{
    if let Some(JsonV::Arr(a)) = json::get_of(v, "value"@) {
        lemma_wire_page_list_entries(a);
    }
}

// -- What is listed and sent --

/// Notebooks, sections and pages go by their own names, else by their ids, in the order in
/// which they came.
pub proof fn law_notes_are_listed_as_they_came(
    n: Seq<WireNotebookV>,
    p: Seq<WirePageV>,
    i: int,
)
    ensures
        notebook_rows(n).len() == n.len(),
        page_rows(p).len() == p.len(),
        0 <= i < n.len() ==> {
            &&& notebook_rows(n)[i].id == n[i].id
            &&& n[i].display_name matches Some(t) ==> notebook_rows(n)[i].name == t
            &&& n[i].display_name is None ==> notebook_rows(n)[i].name == n[i].id
        },
        0 <= i < p.len() ==> {
            &&& page_rows(p)[i].id == p[i].id
            &&& p[i].title matches Some(t) ==> page_rows(p)[i].title == t
            &&& p[i].title is None ==> page_rows(p)[i].title == p[i].id
            &&& page_rows(p)[i].updated == p[i].last_modified
        },
{
}

/// A section stands with the pages that were told of it, and with none where none could be
/// had.
pub proof fn law_section_has_its_pages(s: WireSectionV, body: Seq<u8>, v: JsonV, l: Seq<PageInfoV>)
    ensures
        section_row(s, None) matches Some(x) && x.id == s.id && x.pages.len() == 0,
        json::json_bytes(body) == Some(v) && pages_of(v) == Some(l) ==> (section_row(s, Some(body))
            matches Some(x) && x.id == s.id && x.pages == l),
        json::json_bytes(body) is None ==> section_row(s, Some(body)) is None,
        s.display_name matches Some(n) ==> section_row(s, None)->0.name == n,
        s.display_name is None ==> section_row(s, None)->0.name == s.id,
{
}

/// The sections stand in the order in which they came, each with the reply of its own
/// place.
pub proof fn law_sections_by_place(items: Seq<WireSectionV>, replies: Seq<Option<Seq<u8>>>)
    ensures
        sections_with_pages(items, replies) matches Some(l) ==> l.len() == items.len() && forall|
            i: int,
        |
            0 <= i < items.len() ==> Some(#[trigger] l[i]) == section_row(items[i], replies[i]),
    decreases items.len(),
{
    if items.len() > 0 {
        let t = items.drop_last();
        law_sections_by_place(t, replies);
        if let Some(l) = sections_with_pages(items, replies) {
            assert forall|i: int| 0 <= i < items.len() implies Some(#[trigger] l[i]) == section_row(
                items[i],
                replies[i],
            ) by {
                if i < items.len() - 1 {
                    assert(t[i] == items[i]);
                    assert(l[i] == sections_with_pages(t, replies)->0[i]);
                }
            }
        }
    }
}

/// Notes are one's own, unless a group is named; a name that could leave its place in a
/// path is refused.
pub proof fn law_notes_are_own_or_of_a_group(g: Seq<char>)
    ensures
        base_of(None) == Ok::<Seq<char>, Seq<char>>("/me"@),
        text::blank(g) ==> base_of(Some(g)) == Ok::<Seq<char>, Seq<char>>("/me"@),
        !text::blank(g) && !text::trimmed(g).contains('/') && !text::has_space(text::trimmed(g))
            ==> base_of(Some(g)) == Ok::<Seq<char>, Seq<char>>("/groups/"@ + text::trimmed(g)),
        !text::blank(g) && (text::trimmed(g).contains('/') || text::has_space(text::trimmed(g)))
            ==> base_of(Some(g)) is Err,
{
    text::lemma_trimmed_empty(g);
}

/// An id without the blanks around it is used; a blank one is refused, and the error says
/// which it is.
pub proof fn law_ids_are_trimmed(what: Seq<char>, id: Seq<char>)
    ensures
        text::blank(id) ==> id_of(what, id) == Err::<Seq<char>, Seq<char>>("empty "@ + what),
        !text::blank(id) ==> id_of(what, id) == Ok::<Seq<char>, Seq<char>>(text::trimmed(id)),
{
    text::lemma_trimmed_empty(id);
}

/// The content of a page stands below its id; text is appended at the same place, unless
/// it is blank.
pub proof fn law_page_content_stands_below_its_id(
    page_id: Seq<char>,
    text: Seq<char>,
    group_id: Option<Seq<char>>,
    base: Seq<char>,
)
    requires
        !text::blank(page_id),
        base_of(group_id) == Ok::<Seq<char>, Seq<char>>(base),
    ensures
        content_path(page_id, group_id) == Ok::<Seq<char>, Seq<char>>(
            base + "/onenote/pages/"@ + text::trimmed(page_id) + "/content"@,
        ),
        !text::blank(text) ==> append_path(page_id, text, group_id) == content_path(
            page_id,
            group_id,
        ),
        text::blank(text) ==> append_path(page_id, text, group_id) == Err::<Seq<char>, Seq<char>>(
            "empty text"@,
        ),
{
    text::lemma_trimmed_empty(page_id);
}

/// The title of a page is what stands between its tags, without the blanks around it.
pub proof fn law_title_stands_between_its_tags(html: Seq<char>, i: int, j: int)
    requires
        text::find_in(text::lowered(html), "<title>"@) == Some(i),
        text::find_in(text::lowered(html.skip(i + 7)), "</title>"@) == Some(j),
    ensures
        !text::blank(html.skip(i + 7).take(j)) ==> title_in(html) == Some(
            text::trimmed(html.skip(i + 7).take(j)),
        ),
        text::blank(html.skip(i + 7).take(j)) ==> title_in(html) is None,
{
}

/// A form holds one part between its boundaries, which are those that were given.
pub proof fn law_form_holds_its_commands(boundary: Seq<char>, commands: Seq<char>)
    ensures
        ("--"@ + boundary + "\r\n"@).is_prefix_of(form_text(boundary, commands)),
        (commands + "\r\n--"@ + boundary + "--\r\n"@).is_suffix_of(form_text(boundary, commands)),
{
    let f = form_text(boundary, commands);
    let a = "--"@ + boundary + "\r\n"@;
    let b = commands + "\r\n--"@ + boundary + "--\r\n"@;
    assert(f.subrange(0, a.len() as int) =~= a);
    assert(f.subrange(f.len() - b.len(), f.len() as int) =~= b);
}

/// Text is appended at the end of the body, as a paragraph in which it stands escaped.
pub proof fn law_text_is_appended_to_the_body(text: Seq<char>)
    ensures
        ({
            let b = commands_payload(text);
            &&& b matches JsonV::Arr(a) && a.len() == 1
                && json::str_of(json::get_of(a[0], "action"@))
                == Some("append"@) && json::str_of(json::get_of(a[0], "target"@)) == Some("body"@)
                && json::str_of(json::get_of(a[0], "position"@)) == Some("after"@)
                && json::str_of(json::get_of(a[0], "content"@)) == Some(
                "<p>"@ + web::escaped(text, false) + "</p>"@,
            )
        }),
{
    broadcast use json::group_members;

    assert("action"@.len() == 6) by {
        reveal_strlit("action");
    }
    assert("content"@.len() == 7) by {
        reveal_strlit("content");
    }
    assert("position"@.len() == 8) by {
        reveal_strlit("position");
    }
    assert("target"@.len() == 6 && "target"@[0] == 't') by {
        reveal_strlit("target");
    }
    assert("action"@[0] == 'a') by {
        reveal_strlit("action");
    }
    reveal_with_fuel(json::lookup, 5);
}

/// Notebooks are shown one after the other, in the order of the list.
pub proof fn law_notebooks_are_shown_in_order(a: Seq<NotebookInfoV>, b: Seq<NotebookInfoV>)
    ensures
        notebooks_shown(a + b) == notebooks_shown(a) + notebooks_shown(b),
    decreases b.len(),
{
    if b.len() == 0 {
        assert(a + b =~= a);
        assert(notebooks_shown(a) + notebooks_shown(b) =~= notebooks_shown(a));
    } else {
        law_notebooks_are_shown_in_order(a, b.drop_last());
        assert((a + b).drop_last() =~= a + b.drop_last());
        assert((a + b).last() == b.last());
        assert(notebooks_shown(a + b) =~= notebooks_shown(a) + notebooks_shown(b));
    }
}

/// Pages are shown one after the other, in the order of the list.
pub proof fn law_pages_are_shown_in_order(a: Seq<PageInfoV>, b: Seq<PageInfoV>)
    ensures
        pages_shown(a + b) == pages_shown(a) + pages_shown(b),
    decreases b.len(),
{
    if b.len() == 0 {
        assert(a + b =~= a);
        assert(pages_shown(a) + pages_shown(b) =~= pages_shown(a));
    } else {
        law_pages_are_shown_in_order(a, b.drop_last());
        assert((a + b).drop_last() =~= a + b.drop_last());
        assert((a + b).last() == b.last());
        assert(pages_shown(a + b) =~= pages_shown(a) + pages_shown(b));
    }
}

/// Sections are shown one after the other, in the order of the list.
pub proof fn law_sections_are_shown_in_order(a: Seq<SectionInfoV>, b: Seq<SectionInfoV>)
    ensures
        sections_shown(a + b) == sections_shown(a) + sections_shown(b),
    decreases b.len(),
{
    if b.len() == 0 {
        assert(a + b =~= a);
        assert(sections_shown(a) + sections_shown(b) =~= sections_shown(a));
    } else {
        law_sections_are_shown_in_order(a, b.drop_last());
        assert((a + b).drop_last() =~= a + b.drop_last());
        assert((a + b).last() == b.last());
        assert(sections_shown(a + b) =~= sections_shown(a) + sections_shown(b));
    }
}

/// The lists that are shown are those of the answers that were read.
pub proof fn law_lists_of_notes_are_read(v: JsonV)
    ensures
        notebooks_of(v) is Some <==> notebooks_response_of(v) is Some,
        notebooks_of(v) matches Some(l)
            ==> (notebooks_response_of(v) matches Some(x) && l == notebook_rows(x.value)),
        pages_of(v) is Some <==> pages_response_of(v) is Some,
        pages_of(v) matches Some(l)
            ==> (pages_response_of(v) matches Some(x) && l == page_rows(x.value)),
{
}

/// Notes are shown by their names, then by their ids; a section with the number of its
/// pages.
pub proof fn law_lines_of_notes(n: NotebookInfoV, p: PageInfoV, s: SectionInfoV)
    ensures
        notebook_shown(n) == "  "@ + text::filled(n.name, 30) + " "@ + n.id + "\n"@,
        page_shown(p) == "  "@ + text::filled(p.title, 30) + " "@ + p.id + "\n"@,
        ("Section: "@ + s.name + " ("@ + text::decimal(s.pages.len()) + " pages)\n"@ + pages_shown(
            s.pages,
        )).is_prefix_of(section_shown(s)),
{
    let q = "Section: "@ + s.name + " ("@ + text::decimal(s.pages.len()) + " pages)\n"@
        + pages_shown(s.pages);
    assert(section_shown(s).subrange(0, q.len() as int) =~= q);
}

} // verus!
