//! The tabs of a channel.
use crate::api::teams;
use crate::json;
use crate::json::{Json, JsonV};
use crate::text;
use vstd::prelude::*;

verus! {

/// Where the content of a tab is.
pub struct WireTabConfig {
    pub content_url: Option<String>,
    pub website_url: Option<String>,
}

/// The model of [`WireTabConfig`].
pub struct WireTabConfigV {
    pub content_url: Option<Seq<char>>,
    pub website_url: Option<Seq<char>>,
}

impl View for WireTabConfig {
    type V = WireTabConfigV;

    open spec fn view(&self) -> WireTabConfigV {
        WireTabConfigV {
            content_url: text::opt_text(self.content_url),
            website_url: text::opt_text(self.website_url),
        }
    }
}

/// An optional [`WireTabConfig`] by its model.
pub open spec fn opt_wire_tab_config(o: Option<WireTabConfig>) -> Option<WireTabConfigV> {
    match o {
        Some(x) => Some(x@),
        None => None,
    }
}

/// How a JSON value reads as a [`WireTabConfig`]; nothing where it does not.
pub open spec fn wire_tab_config_of(v: JsonV) -> Option<WireTabConfigV> {
    if !json::record_form(v, 2, 2) {
        None
    } else {
        match (
            json::opt_text_member(json::member_of(v, "contentUrl"@, 0)),
            json::opt_text_member(json::member_of(v, "websiteUrl"@, 1)),
        ) {
            (Some(content_url), Some(website_url)) => Some(
                WireTabConfigV { content_url, website_url },
            ),
            _ => None,
        }
    }
}

/// Reads a [`WireTabConfig`].
pub fn read_wire_tab_config(v: &Json) -> (r: Option<WireTabConfig>)
    ensures
        match r {
            Some(x) => wire_tab_config_of(v@) == Some(x@),
            None => wire_tab_config_of(v@) is None,
        },
{
    if !json::has_record_form(v, 2, 2) {
        return None;
    }
    let content_url = match json::read_opt_text(json::member(v, "contentUrl", 0)) {
        Some(x) => x,
        None => {
            return None;
        },
    };
    let website_url = match json::read_opt_text(json::member(v, "websiteUrl", 1)) {
        Some(x) => x,
        None => {
            return None;
        },
    };
    Some(WireTabConfig { content_url, website_url })
}

/// How an optional member reads as a [`WireTabConfig`].
pub open spec fn opt_wire_tab_config_member(m: Option<JsonV>) -> Option<Option<WireTabConfigV>> {
    match m {
        None => Some(None),
        Some(JsonV::Null) => Some(None),
        Some(j) => match wire_tab_config_of(j) {
            Some(x) => Some(Some(x)),
            None => None,
        },
    }
}

fn read_opt_wire_tab_config(m: Option<&Json>) -> (r: Option<Option<WireTabConfig>>)
    ensures
        match r {
            Some(o) => opt_wire_tab_config_member(json::opt_json(m)) == Some(
                opt_wire_tab_config(o),
            ),
            None => opt_wire_tab_config_member(json::opt_json(m)) is None,
        },
{
    match m {
        None => Some(None),
        Some(j) => if j.is_null() {
            Some(None)
        } else {
            match read_wire_tab_config(j) {
                Some(x) => Some(Some(x)),
                None => None,
            }
        },
    }
}
/// A tab as the service sends it.
pub struct WireTab {
    pub id: String,
    pub display_name: Option<String>,
    pub web_url: Option<String>,
    pub teams_app_id: Option<String>,
    pub configuration: Option<WireTabConfig>,
}

/// The model of [`WireTab`].
pub struct WireTabV {
    pub id: Seq<char>,
    pub display_name: Option<Seq<char>>,
    pub web_url: Option<Seq<char>>,
    pub teams_app_id: Option<Seq<char>>,
    pub configuration: Option<WireTabConfigV>,
}

impl View for WireTab {
    type V = WireTabV;

    open spec fn view(&self) -> WireTabV {
        WireTabV {
            id: self.id@,
            display_name: text::opt_text(self.display_name),
            web_url: text::opt_text(self.web_url),
            teams_app_id: text::opt_text(self.teams_app_id),
            configuration: opt_wire_tab_config(self.configuration),
        }
    }
}

/// A list of [`WireTab`] by their models.
pub open spec fn wire_tab_views(v: Seq<WireTab>) -> Seq<WireTabV> {
    Seq::new(v.len(), |i: int| v[i]@)
}

/// How a JSON value reads as a [`WireTab`]; nothing where it does not.
pub open spec fn wire_tab_of(v: JsonV) -> Option<WireTabV> {
    if !json::record_form(v, 5, 5) {
        None
    } else {
        match (
            json::str_of(json::member_of(v, "id"@, 0)),
            json::opt_text_member(json::member_of(v, "displayName"@, 1)),
            json::opt_text_member(json::member_of(v, "webUrl"@, 2)),
            json::opt_text_member(json::member_of(v, "teamsAppId"@, 3)),
            opt_wire_tab_config_member(json::member_of(v, "configuration"@, 4)),
        ) {
            (
                Some(id),
                Some(display_name),
                Some(web_url),
                Some(teams_app_id),
                Some(configuration),
            ) => Some(
                WireTabV { id, display_name, web_url, teams_app_id, configuration },
            ),
            _ => None,
        }
    }
}

/// Reads a [`WireTab`].
pub fn read_wire_tab(v: &Json) -> (r: Option<WireTab>)
    ensures
        match r {
            Some(x) => wire_tab_of(v@) == Some(x@),
            None => wire_tab_of(v@) is None,
        },
{
    if !json::has_record_form(v, 5, 5) {
        return None;
    }
    let id = match json::as_text(json::member(v, "id", 0)) {
        Some(x) => x,
        None => {
            return None;
        },
    };
    let display_name = match json::read_opt_text(json::member(v, "displayName", 1)) {
        Some(x) => x,
        None => {
            return None;
        },
    };
    let web_url = match json::read_opt_text(json::member(v, "webUrl", 2)) {
        Some(x) => x,
        None => {
            return None;
        },
    };
    let teams_app_id = match json::read_opt_text(json::member(v, "teamsAppId", 3)) {
        Some(x) => x,
        None => {
            return None;
        },
    };
    let configuration = match read_opt_wire_tab_config(json::member(v, "configuration", 4)) {
        Some(x) => x,
        None => {
            return None;
        },
    };
    Some(WireTab { id, display_name, web_url, teams_app_id, configuration })
}

/// How a list of JSON values reads as a list of [`WireTab`]: all of them or none.
pub open spec fn wire_tab_list(a: Seq<JsonV>) -> Option<Seq<WireTabV>>
    decreases a.len(),
{
    if a.len() == 0 {
        Some(Seq::empty())
    } else {
        match (wire_tab_list(a.drop_last()), wire_tab_of(a.last())) {
            (Some(l), Some(x)) => Some(l.push(x)),
            _ => None,
        }
    }
}

proof fn lemma_wire_tab_list_prefix(a: Seq<JsonV>, i: int)
    requires
        0 <= i <= a.len(),
        wire_tab_list(a.take(i)) is None,
    ensures
        wire_tab_list(a) is None,
    decreases a.len() - i,
{
    if i < a.len() {
        assert(a.take(i + 1).drop_last() =~= a.take(i));
        lemma_wire_tab_list_prefix(a, i + 1);
    } else {
        assert(a.take(i) =~= a);
    }
}

fn read_wire_tab_list(a: &Vec<Json>) -> (r: Option<Vec<WireTab>>)
    ensures
        match r {
            Some(l) => wire_tab_list(json::items_view(a@)) == Some(wire_tab_views(l@)),
            None => wire_tab_list(json::items_view(a@)) is None,
        },
{
    let ghost all = json::items_view(a@);
    let mut out: Vec<WireTab> = Vec::new();
    let mut i: usize = 0;
    proof {
        assert(all.take(0) =~= Seq::empty());
        assert(wire_tab_views(out@) =~= Seq::empty());
    }
    while i < a.len()
        invariant
            i <= a@.len(),
            all == json::items_view(a@),
            wire_tab_list(all.take(i as int)) == Some(wire_tab_views(out@)),
        decreases a@.len() - i,
    {
        proof {
            assert(all.take(i + 1).drop_last() =~= all.take(i as int));
            assert(all.take(i + 1).last() == a@[i as int]@);
        }
        match read_wire_tab(&a[i]) {
            Some(x) => {
                let ghost before = out@;
                out.push(x);
                proof {
                    assert(wire_tab_views(out@) =~= wire_tab_views(before).push(x@));
                }
            },
            None => {
                proof {
                    lemma_wire_tab_list_prefix(all, i + 1);
                }
                return None;
            },
        }
        i = i + 1;
    }
    proof {
        assert(all.take(i as int) =~= all);
    }
    Some(out)
}

/// How a required list member reads.
pub open spec fn wire_tab_list_member(m: Option<JsonV>) -> Option<Seq<WireTabV>> {
    match m {
        Some(JsonV::Arr(a)) => wire_tab_list(a),
        _ => None,
    }
}

fn read_wire_tab_list_member(m: Option<&Json>) -> (r: Option<Vec<WireTab>>)
    ensures
        match r {
            Some(l) => wire_tab_list_member(json::opt_json(m)) == Some(wire_tab_views(l@)),
            None => wire_tab_list_member(json::opt_json(m)) is None,
        },
{
    match m {
        Some(Json::Arr(a)) => {
            proof {
                json::lemma_arr_view(*a);
            }
            read_wire_tab_list(a)
        },
        _ => None,
    }
}
/// The reply to a request for tabs.
pub struct TabsResponse {
    pub value: Vec<WireTab>,
}

/// The model of [`TabsResponse`].
pub struct TabsResponseV {
    pub value: Seq<WireTabV>,
}

impl View for TabsResponse {
    type V = TabsResponseV;

    open spec fn view(&self) -> TabsResponseV {
        TabsResponseV {
            value: wire_tab_views(self.value@),
        }
    }
}

/// How a JSON value reads as a [`TabsResponse`]; nothing where it does not.
pub open spec fn tabs_response_of(v: JsonV) -> Option<TabsResponseV> {
    if !json::record_form(v, 1, 1) {
        None
    } else {
        match wire_tab_list_member(json::member_of(v, "value"@, 0)) {
            Some(value) => Some(TabsResponseV { value }),
            None => None,
        }
    }
}

/// Reads a [`TabsResponse`].
pub fn read_tabs_response(v: &Json) -> (r: Option<TabsResponse>)
    ensures
        match r {
            Some(x) => tabs_response_of(v@) == Some(x@),
            None => tabs_response_of(v@) is None,
        },
{
    if !json::has_record_form(v, 1, 1) {
        return None;
    }
    let value = match read_wire_tab_list_member(json::member(v, "value", 0)) {
        Some(x) => x,
        None => {
            return None;
        },
    };
    Some(TabsResponse { value })
}
/// What is shown of a tab: what it is, and where it can be opened.
pub struct TabInfo {
    pub id: String,
    pub name: String,
    pub app_id: Option<String>,
    pub content_url: Option<String>,
    pub website_url: Option<String>,
}

/// The model of [`TabInfo`].
pub struct TabInfoV {
    pub id: Seq<char>,
    pub name: Seq<char>,
    pub app_id: Option<Seq<char>>,
    pub content_url: Option<Seq<char>>,
    pub website_url: Option<Seq<char>>,
}

impl View for TabInfo {
    type V = TabInfoV;

    open spec fn view(&self) -> TabInfoV {
        TabInfoV {
            id: self.id@,
            name: self.name@,
            app_id: text::opt_text(self.app_id),
            content_url: text::opt_text(self.content_url),
            website_url: text::opt_text(self.website_url),
        }
    }
}
/// A list of [`TabInfo`] by their models.
pub open spec fn tab_info_views(v: Seq<TabInfo>) -> Seq<TabInfoV> {
    Seq::new(v.len(), |i: int| v[i]@)
}

/// What is shown of a tab: without a name its id, and the address of its
/// configuration before its own.
pub open spec fn tab_row(t: WireTabV) -> TabInfoV {
    TabInfoV {
        id: t.id,
        name: teams::or_text(t.display_name, t.id),
        app_id: t.teams_app_id,
        content_url: match t.configuration {
            Some(c) => c.content_url,
            None => None,
        },
        website_url: match t.configuration {
            Some(c) => match c.website_url {
                Some(u) => Some(u),
                None => t.web_url,
            },
            None => t.web_url,
        },
    }
}

/// What is shown of a tab.
pub fn tab_from_wire(t: &WireTab) -> (r: TabInfo)
    ensures
        r@ == tab_row(t@),
{
    let (content_url, website_url) = match &t.configuration {
        Some(c) => {
            let site = match &c.website_url {
                Some(u) => Some(u.clone()),
                None => text::copy_opt(&t.web_url),
            };
            (text::copy_opt(&c.content_url), site)
        },
        None => (None, text::copy_opt(&t.web_url)),
    };
    TabInfo {
        id: t.id.clone(),
        name: teams::text_or(&t.display_name, t.id.as_str()),
        app_id: text::copy_opt(&t.teams_app_id),
        content_url,
        website_url,
    }
}
/// What is shown of the tabs, in order.
pub open spec fn tab_rows(v: Seq<WireTabV>) -> Seq<TabInfoV> {
    Seq::new(v.len(), |i: int| tab_row(v[i]))
}

/// What is shown of the tabs, in order.
pub fn tab_infos(v: &Vec<WireTab>) -> (r: Vec<TabInfo>)
    ensures
        tab_info_views(r@) == tab_rows(wire_tab_views(v@)),
{
    let mut out: Vec<TabInfo> = Vec::new();
    let mut i: usize = 0;
    while i < v.len()
        invariant
            i <= v@.len(),
            out@.len() == i,
            forall|j: int| 0 <= j < i ==> (#[trigger] out@[j])@ == tab_row(v@[j]@),
        decreases v@.len() - i,
    {
        out.push(tab_from_wire(&v[i]));
        i = i + 1;
    }
    proof {
        assert(tab_info_views(out@) =~= tab_rows(wire_tab_views(v@)));
    }
    out
}
/// The tabs of a channel, by the JSON value of the reply; nothing where it is of another form.
pub open spec fn tabs_of(v: JsonV) -> Option<Seq<TabInfoV>> {
    match tabs_response_of(v) {
        Some(x) => Some(tab_rows(x.value)),
        None => None,
    }
}

/// The tabs of a channel, by the JSON value of the reply.
pub fn read_tabs(v: &Json) -> (r: Option<Vec<TabInfo>>)
    ensures
        match r {
            Some(l) => tabs_of(v@) == Some(tab_info_views(l@)),
            None => tabs_of(v@) is None,
        },
{
    match read_tabs_response(v) {
        Some(x) => Some(tab_infos(&x.value)),
        None => None,
    }
}

/// The tabs of a channel, by the body of the reply.
pub fn list_tabs_data(body: &[u8]) -> (r: Result<Vec<TabInfo>, String>)
    ensures
        match r {
            Ok(l) => json::json_bytes(body@) matches Some(v) && tabs_of(v) == Some(
                tab_info_views(l@),
            ),
            Err(e) => (json::json_bytes(body@) matches Some(v) ==> tabs_of(v) is None) && e@
                == "Failed to parse tabs response"@,
        },
{
    if let Some(v) = json::parse_json_bytes(body) {
        if let Some(l) = read_tabs(&v) {
            return Ok(l);
        }
    }
    Err("Failed to parse tabs response".to_string())
}

/// The id of a channel without the white space around it; the error is the text
/// to show.
pub fn checked_channel_id(channel_id: &str) -> (r: Result<String, String>)
    ensures
        match r {
            Ok(id) => !text::blank(channel_id@) && id@ == text::trimmed(channel_id@),
            Err(e) => text::blank(channel_id@) && e@ == "empty channel_id"@,
        },
{
    if text::is_blank(channel_id) {
        return Err("empty channel_id".to_string());
    }
    Ok(text::trim(channel_id))
}
/// The path of a channel's tabs.
pub fn tabs_path(team_id: &str, channel_id: &str) -> (r: String)
    ensures
        r@ == "/teams/"@ + team_id@ + "/channels/"@ + channel_id@ + "/tabs"@,
{
    let mut s = String::new();
    s.append("/teams/");
    s.append(team_id);
    s.append("/channels/");
    s.append(channel_id);
    s.append("/tabs");
    proof {
        assert(s@ =~= "/teams/"@ + team_id@ + "/channels/"@ + channel_id@ + "/tabs"@);
    }
    s
}

// -- What the commands show --

/// The address to show of a tab.
pub open spec fn address_shown(x: TabInfoV) -> Seq<char> {
    match x.website_url {
        Some(u) => "    "@ + u + "\n"@,
        None => match x.content_url {
            Some(u) => "    "@ + u + "\n"@,
            None => Seq::empty(),
        },
    }
}

fn show_address(x: &TabInfo) -> (r: String)
    ensures
        r@ == address_shown(x@),
{
    match &x.website_url {
        Some(u) => text::join3("    ", u.as_str(), "\n"),
        None => match &x.content_url {
            Some(u) => text::join3("    ", u.as_str(), "\n"),
            None => {
                let s = String::new();
                proof {
                    assert(s@ =~= Seq::empty());
                }
                s
            },
        },
    }
}

/// What is shown of a tab.
pub open spec fn tab_shown(x: TabInfoV) -> Seq<char> {
    "  "@ + text::filled(x.name, 30) + " "@ + x.id + "\n"@ + address_shown(x)
}

fn show_tab(x: &TabInfo) -> (r: String)
    ensures
        r@ == tab_shown(x@),
{
    let mut s = String::new();
    s.append("  ");
    s.append(text::fill(x.name.as_str(), 30).as_str());
    s.append(" ");
    s.append(x.id.as_str());
    s.append("\n");
    s.append(show_address(x).as_str());
    proof {
        assert(s@ =~= tab_shown(x@));
    }
    s
}

/// What is shown of a list, entry by entry.
pub open spec fn tabs_shown(v: Seq<TabInfoV>) -> Seq<char>
    decreases v.len(),
{
    if v.len() == 0 {
        Seq::empty()
    } else {
        tabs_shown(v.drop_last()) + tab_shown(v.last())
    }
}

fn show_tabs(v: &Vec<TabInfo>) -> (r: String)
    ensures
        r@ == tabs_shown(tab_info_views(v@)),
{
    let ghost all = tab_info_views(v@);
    let mut s = String::new();
    let mut i: usize = 0;
    proof {
        assert(all.take(0) =~= Seq::empty());
        assert(s@ =~= Seq::empty());
    }
    while i < v.len()
        invariant
            i <= v@.len(),
            all == tab_info_views(v@),
            s@ == tabs_shown(all.take(i as int)),
        decreases v@.len() - i,
    {
        proof {
            assert(all.take(i + 1).drop_last() =~= all.take(i as int));
            assert(all.take(i + 1).last() == v@[i as int]@);
        }
        s.append(show_tab(&v[i]).as_str());
        i = i + 1;
    }
    proof {
        assert(all.take(i as int) =~= all);
    }
    s
}

/// The tabs of a channel.
pub fn list_tabs(v: &Vec<TabInfo>) -> (r: String)
    ensures
        r@ == "\nChannel Tabs:\n------------------------------------------------------------\n"@
            + (if v@.len() == 0 {
            "  (no tabs found)\n"@
        } else {
            tabs_shown(tab_info_views(v@))
        }),
{
    let mut s = String::new();
    s.append("\nChannel Tabs:\n------------------------------------------------------------\n");
    if v.len() == 0 {
        s.append("  (no tabs found)\n");
    } else {
        s.append(show_tabs(v).as_str());
    }
    proof {
        assert(s@ =~= "\nChannel Tabs:\n------------------------------------------------------------\n"@
            + (if v@.len() == 0 {
            "  (no tabs found)\n"@
        } else {
            tabs_shown(tab_info_views(v@))
        }));
    }
    s
}

// -- What is read --

/// What is read of a [`WireTabConfig`] stands in the members of these names, and it is read
/// where they hold what they should.
pub proof fn law_wire_tab_config_reads_its_members(v: JsonV)
    requires
        v is Obj,
    ensures
        match wire_tab_config_of(v) {
            Some(x) => {
                &&& x.content_url == json::str_of(json::get_of(v, "contentUrl"@))
                &&& x.website_url == json::str_of(json::get_of(v, "websiteUrl"@))
            },
            None => !(json::opt_text_member(json::get_of(v, "contentUrl"@)) is Some
                && json::opt_text_member(json::get_of(v, "websiteUrl"@)) is Some),
        },
{
}

/// What is read of a [`WireTab`] stands in the members of these names, and it is read
/// where they hold what they should.
pub proof fn law_wire_tab_reads_its_members(v: JsonV)
    requires
        v is Obj,
    ensures
        match wire_tab_of(v) {
            Some(x) => {
                &&& json::str_of(json::get_of(v, "id"@)) == Some(x.id)
                &&& x.display_name == json::str_of(json::get_of(v, "displayName"@))
                &&& x.web_url == json::str_of(json::get_of(v, "webUrl"@))
                &&& x.teams_app_id == json::str_of(json::get_of(v, "teamsAppId"@))
                &&& (json::get_of(v, "configuration"@) is None
                    || json::get_of(v, "configuration"@) == Some(JsonV::Null))
                    ==> x.configuration is None
                &&& json::get_of(v, "configuration"@) matches Some(w) ==> w != JsonV::Null
                    ==> x.configuration is Some && wire_tab_config_of(w) == x.configuration
            },
            None => !(json::str_of(json::get_of(v, "id"@)) is Some
                && json::opt_text_member(json::get_of(v, "displayName"@)) is Some
                && json::opt_text_member(json::get_of(v, "webUrl"@)) is Some
                && json::opt_text_member(json::get_of(v, "teamsAppId"@)) is Some
                && opt_wire_tab_config_member(json::get_of(v, "configuration"@)) is Some),
        },
{
}

// The entries of a list, in their order.
proof fn lemma_wire_tab_list_entries(a: Seq<JsonV>)
    ensures
        wire_tab_list(a) matches Some(l) ==> l.len() == a.len() && forall|i: int|
            0 <= i < a.len() ==> wire_tab_of(a[i]) == Some(#[trigger] l[i]),
    decreases a.len(),
{
    if a.len() > 0 {
        lemma_wire_tab_list_entries(a.drop_last());
        if let Some(l) = wire_tab_list(a) {
            assert forall|i: int| 0 <= i < a.len() implies wire_tab_of(a[i])
                == Some(#[trigger] l[i]) by {
                if i < a.len() - 1 {
                    let before = wire_tab_list(a.drop_last())->0;
                    assert(l[i] == before[i]);
                    assert(a.drop_last()[i] == a[i]);
                }
            }
        }
    }
}

/// What is read of a [`TabsResponse`] stands in the members of these names, and it is read
/// where they hold what they should.
pub proof fn law_tabs_response_reads_its_members(v: JsonV)
    requires
        v is Obj,
    ensures
        match tabs_response_of(v) {
            Some(x) => {
                &&& (json::arr_of(json::get_of(v, "value"@)) matches Some(a)
                    && x.value.len() == a.len() && forall|i: int| 0 <= i < a.len()
                    ==> wire_tab_of(a[i]) == Some(#[trigger] x.value[i]))
            },
            None => !(wire_tab_list_member(json::get_of(v, "value"@)) is Some),
        },
{
    if let Some(JsonV::Arr(a)) = json::get_of(v, "value"@) {
        lemma_wire_tab_list_entries(a);
    }
}

// -- What is listed --

/// A tab goes by its own name, else by its id. Its address is the one that it was set up
/// with, else its own.
pub proof fn law_tabs_are_listed_as_they_came(v: Seq<WireTabV>, i: int)
    requires
        0 <= i < v.len(),
    ensures
        tab_rows(v).len() == v.len(),
        ({
            let t = v[i];
            let r = tab_rows(v)[i];
            &&& r.id == t.id
            &&& t.display_name matches Some(n) ==> r.name == n
            &&& t.display_name is None ==> r.name == t.id
            &&& r.app_id == t.teams_app_id
            &&& t.configuration is None ==> r.content_url is None && r.website_url == t.web_url
            &&& t.configuration matches Some(c) ==> r.content_url == c.content_url
            &&& t.configuration matches Some(c) ==> (c.website_url is Some ==> r.website_url
                == c.website_url)
            &&& t.configuration matches Some(c) ==> (c.website_url is None ==> r.website_url
                == t.web_url)
        }),
{
}

/// The address that is shown is that of the website, else that of the content, else none.
pub proof fn law_tab_shows_its_address(x: TabInfoV)
    ensures
        x.website_url matches Some(u) ==> address_shown(x) == "    "@ + u + "\n"@,
        x.website_url is None ==> (x.content_url matches Some(u) ==> address_shown(x) == "    "@ + u
            + "\n"@),
        x.website_url is None && x.content_url is None ==> address_shown(x).len() == 0,
{
}

/// Tabs are shown one after the other, in the order of the list.
pub proof fn law_tabs_are_shown_in_order(a: Seq<TabInfoV>, b: Seq<TabInfoV>)
    ensures
        tabs_shown(a + b) == tabs_shown(a) + tabs_shown(b),
    decreases b.len(),
{
    if b.len() == 0 {
        assert(a + b =~= a);
        assert(tabs_shown(a) + tabs_shown(b) =~= tabs_shown(a));
    } else {
        law_tabs_are_shown_in_order(a, b.drop_last());
        assert((a + b).drop_last() =~= a + b.drop_last());
        assert((a + b).last() == b.last());
        assert(tabs_shown(a + b) =~= tabs_shown(a) + tabs_shown(b));
    }
}

/// The list that is shown is that of the answer that was read.
pub proof fn law_list_of_tabs_is_read(v: JsonV)
    ensures
        tabs_of(v) is Some <==> tabs_response_of(v) is Some,
        tabs_of(v) matches Some(l)
            ==> (tabs_response_of(v) matches Some(x) && l == tab_rows(x.value)),
{
}

/// A tab is shown by its name, then by its id, then by its address.
pub proof fn law_tab_line(x: TabInfoV)
    ensures
        tab_shown(x) == "  "@ + text::filled(x.name, 30) + " "@ + x.id + "\n"@ + address_shown(x),
{
}

} // verus!
