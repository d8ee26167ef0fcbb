//! Teams, their channels and members, reactions, and creating a team.
use crate::api::calendar;
use crate::encoding;
use crate::json;
use crate::json::{Fields, FieldsV, Items, Json, JsonV};
use crate::text;
use crate::web;
use vstd::prelude::*;

verus! {

/// A team as the service sends it.
pub struct Team {
    pub id: String,
    pub display_name: Option<String>,
}

/// The model of [`Team`].
pub struct TeamV {
    pub id: Seq<char>,
    pub display_name: Option<Seq<char>>,
}

impl View for Team {
    type V = TeamV;

    open spec fn view(&self) -> TeamV {
        TeamV {
            id: self.id@,
            display_name: text::opt_text(self.display_name),
        }
    }
}

/// A list of [`Team`] by their models.
pub open spec fn team_views(v: Seq<Team>) -> Seq<TeamV> {
    Seq::new(v.len(), |i: int| v[i]@)
}

/// How a JSON value reads as a [`Team`]; nothing where it does not.
pub open spec fn team_of(v: JsonV) -> Option<TeamV> {
    if !json::record_form(v, 2, 2) {
        None
    } else {
        match (
            json::str_of(json::member_of(v, "id"@, 0)),
            json::opt_text_member(json::member_of(v, "displayName"@, 1)),
        ) {
            (Some(id), Some(display_name)) => Some(TeamV { id, display_name }),
            _ => None,
        }
    }
}

/// Reads a [`Team`].
pub fn read_team(v: &Json) -> (r: Option<Team>)
    ensures
        match r {
            Some(x) => team_of(v@) == Some(x@),
            None => team_of(v@) is None,
        },
{
    if !json::has_record_form(v, 2, 2) {
        return None;
    }
    let id = match json::as_text(json::member(v, "id", 0)) {
        Some(x) => x,
        None => {
            return None;
        },
    };
    let display_name = match json::read_opt_text(json::member(v, "displayName", 1)) {
        Some(x) => x,
        None => {
            return None;
        },
    };
    Some(Team { id, display_name })
}

/// How a list of JSON values reads as a list of [`Team`]: all of them or none.
pub open spec fn team_list(a: Seq<JsonV>) -> Option<Seq<TeamV>>
    decreases a.len(),
{
    if a.len() == 0 {
        Some(Seq::empty())
    } else {
        match (team_list(a.drop_last()), team_of(a.last())) {
            (Some(l), Some(x)) => Some(l.push(x)),
            _ => None,
        }
    }
}

proof fn lemma_team_list_prefix(a: Seq<JsonV>, i: int)
    requires
        0 <= i <= a.len(),
        team_list(a.take(i)) is None,
    ensures
        team_list(a) is None,
    decreases a.len() - i,
{
    if i < a.len() {
        assert(a.take(i + 1).drop_last() =~= a.take(i));
        lemma_team_list_prefix(a, i + 1);
    } else {
        assert(a.take(i) =~= a);
    }
}

fn read_team_list(a: &Vec<Json>) -> (r: Option<Vec<Team>>)
    ensures
        match r {
            Some(l) => team_list(json::items_view(a@)) == Some(team_views(l@)),
            None => team_list(json::items_view(a@)) is None,
        },
{
    let ghost all = json::items_view(a@);
    let mut out: Vec<Team> = Vec::new();
    let mut i: usize = 0;
    proof {
        assert(all.take(0) =~= Seq::empty());
        assert(team_views(out@) =~= Seq::empty());
    }
    while i < a.len()
        invariant
            i <= a@.len(),
            all == json::items_view(a@),
            team_list(all.take(i as int)) == Some(team_views(out@)),
        decreases a@.len() - i,
    {
        proof {
            assert(all.take(i + 1).drop_last() =~= all.take(i as int));
            assert(all.take(i + 1).last() == a@[i as int]@);
        }
        match read_team(&a[i]) {
            Some(x) => {
                let ghost before = out@;
                out.push(x);
                proof {
                    assert(team_views(out@) =~= team_views(before).push(x@));
                }
            },
            None => {
                proof {
                    lemma_team_list_prefix(all, i + 1);
                }
                return None;
            },
        }
        i = i + 1;
    }
    proof {
        assert(all.take(i as int) =~= all);
    }
    Some(out)
}

/// How a required list member reads.
pub open spec fn team_list_member(m: Option<JsonV>) -> Option<Seq<TeamV>> {
    match m {
        Some(JsonV::Arr(a)) => team_list(a),
        _ => None,
    }
}

fn read_team_list_member(m: Option<&Json>) -> (r: Option<Vec<Team>>)
    ensures
        match r {
            Some(l) => team_list_member(json::opt_json(m)) == Some(team_views(l@)),
            None => team_list_member(json::opt_json(m)) is None,
        },
{
    match m {
        Some(Json::Arr(a)) => {
            proof {
                json::lemma_arr_view(*a);
            }
            read_team_list(a)
        },
        _ => None,
    }
}
/// The reply to a request for the joined teams.
pub struct TeamsResponse {
    pub value: Vec<Team>,
}

/// The model of [`TeamsResponse`].
pub struct TeamsResponseV {
    pub value: Seq<TeamV>,
}

impl View for TeamsResponse {
    type V = TeamsResponseV;

    open spec fn view(&self) -> TeamsResponseV {
        TeamsResponseV {
            value: team_views(self.value@),
        }
    }
}

/// How a JSON value reads as a [`TeamsResponse`]; nothing where it does not.
pub open spec fn teams_response_of(v: JsonV) -> Option<TeamsResponseV> {
    if !json::record_form(v, 1, 1) {
        None
    } else {
        match team_list_member(json::member_of(v, "value"@, 0)) {
            Some(value) => Some(TeamsResponseV { value }),
            None => None,
        }
    }
}

/// Reads a [`TeamsResponse`].
pub fn read_teams_response(v: &Json) -> (r: Option<TeamsResponse>)
    ensures
        match r {
            Some(x) => teams_response_of(v@) == Some(x@),
            None => teams_response_of(v@) is None,
        },
{
    if !json::has_record_form(v, 1, 1) {
        return None;
    }
    let value = match read_team_list_member(json::member(v, "value", 0)) {
        Some(x) => x,
        None => {
            return None;
        },
    };
    Some(TeamsResponse { value })
}
/// A channel as the service sends it.
pub struct Channel {
    pub id: String,
    pub display_name: Option<String>,
    pub description: Option<String>,
    pub membership_type: Option<String>,
    pub web_url: Option<String>,
}

/// The model of [`Channel`].
pub struct ChannelV {
    pub id: Seq<char>,
    pub display_name: Option<Seq<char>>,
    pub description: Option<Seq<char>>,
    pub membership_type: Option<Seq<char>>,
    pub web_url: Option<Seq<char>>,
}

impl View for Channel {
    type V = ChannelV;

    open spec fn view(&self) -> ChannelV {
        ChannelV {
            id: self.id@,
            display_name: text::opt_text(self.display_name),
            description: text::opt_text(self.description),
            membership_type: text::opt_text(self.membership_type),
            web_url: text::opt_text(self.web_url),
        }
    }
}

/// A list of [`Channel`] by their models.
pub open spec fn channel_views(v: Seq<Channel>) -> Seq<ChannelV> {
    Seq::new(v.len(), |i: int| v[i]@)
}

/// How a JSON value reads as a [`Channel`]; nothing where it does not.
pub open spec fn channel_of(v: JsonV) -> Option<ChannelV> {
    if !json::record_form(v, 5, 5) {
        None
    } else {
        match (
            json::str_of(json::member_of(v, "id"@, 0)),
            json::opt_text_member(json::member_of(v, "displayName"@, 1)),
            json::opt_text_member(json::member_of(v, "description"@, 2)),
            json::opt_text_member(json::member_of(v, "membershipType"@, 3)),
            json::opt_text_member(json::member_of(v, "webUrl"@, 4)),
        ) {
            (
                Some(id),
                Some(display_name),
                Some(description),
                Some(membership_type),
                Some(web_url),
            ) => Some(
                ChannelV { id, display_name, description, membership_type, web_url },
            ),
            _ => None,
        }
    }
}

/// Reads a [`Channel`].
pub fn read_channel(v: &Json) -> (r: Option<Channel>)
    ensures
        match r {
            Some(x) => channel_of(v@) == Some(x@),
            None => channel_of(v@) is None,
        },
{
    if !json::has_record_form(v, 5, 5) {
        return None;
    }
    let id = match json::as_text(json::member(v, "id", 0)) {
        Some(x) => x,
        None => {
            return None;
        },
    };
    let display_name = match json::read_opt_text(json::member(v, "displayName", 1)) {
        Some(x) => x,
        None => {
            return None;
        },
    };
    let description = match json::read_opt_text(json::member(v, "description", 2)) {
        Some(x) => x,
        None => {
            return None;
        },
    };
    let membership_type = match json::read_opt_text(json::member(v, "membershipType", 3)) {
        Some(x) => x,
        None => {
            return None;
        },
    };
    let web_url = match json::read_opt_text(json::member(v, "webUrl", 4)) {
        Some(x) => x,
        None => {
            return None;
        },
    };
    Some(Channel { id, display_name, description, membership_type, web_url })
}

/// How a list of JSON values reads as a list of [`Channel`]: all of them or none.
pub open spec fn channel_list(a: Seq<JsonV>) -> Option<Seq<ChannelV>>
    decreases a.len(),
{
    if a.len() == 0 {
        Some(Seq::empty())
    } else {
        match (channel_list(a.drop_last()), channel_of(a.last())) {
            (Some(l), Some(x)) => Some(l.push(x)),
            _ => None,
        }
    }
}

proof fn lemma_channel_list_prefix(a: Seq<JsonV>, i: int)
    requires
        0 <= i <= a.len(),
        channel_list(a.take(i)) is None,
    ensures
        channel_list(a) is None,
    decreases a.len() - i,
{
    if i < a.len() {
        assert(a.take(i + 1).drop_last() =~= a.take(i));
        lemma_channel_list_prefix(a, i + 1);
    } else {
        assert(a.take(i) =~= a);
    }
}

fn read_channel_list(a: &Vec<Json>) -> (r: Option<Vec<Channel>>)
    ensures
        match r {
            Some(l) => channel_list(json::items_view(a@)) == Some(channel_views(l@)),
            None => channel_list(json::items_view(a@)) is None,
        },
{
    let ghost all = json::items_view(a@);
    let mut out: Vec<Channel> = Vec::new();
    let mut i: usize = 0;
    proof {
        assert(all.take(0) =~= Seq::empty());
        assert(channel_views(out@) =~= Seq::empty());
    }
    while i < a.len()
        invariant
            i <= a@.len(),
            all == json::items_view(a@),
            channel_list(all.take(i as int)) == Some(channel_views(out@)),
        decreases a@.len() - i,
    {
        proof {
            assert(all.take(i + 1).drop_last() =~= all.take(i as int));
            assert(all.take(i + 1).last() == a@[i as int]@);
        }
        match read_channel(&a[i]) {
            Some(x) => {
                let ghost before = out@;
                out.push(x);
                proof {
                    assert(channel_views(out@) =~= channel_views(before).push(x@));
                }
            },
            None => {
                proof {
                    lemma_channel_list_prefix(all, i + 1);
                }
                return None;
            },
        }
        i = i + 1;
    }
    proof {
        assert(all.take(i as int) =~= all);
    }
    Some(out)
}

/// How a required list member reads.
pub open spec fn channel_list_member(m: Option<JsonV>) -> Option<Seq<ChannelV>> {
    match m {
        Some(JsonV::Arr(a)) => channel_list(a),
        _ => None,
    }
}

fn read_channel_list_member(m: Option<&Json>) -> (r: Option<Vec<Channel>>)
    ensures
        match r {
            Some(l) => channel_list_member(json::opt_json(m)) == Some(channel_views(l@)),
            None => channel_list_member(json::opt_json(m)) is None,
        },
{
    match m {
        Some(Json::Arr(a)) => {
            proof {
                json::lemma_arr_view(*a);
            }
            read_channel_list(a)
        },
        _ => None,
    }
}
/// The reply to a request for channels.
pub struct ChannelsResponse {
    pub value: Vec<Channel>,
}

/// The model of [`ChannelsResponse`].
pub struct ChannelsResponseV {
    pub value: Seq<ChannelV>,
}

impl View for ChannelsResponse {
    type V = ChannelsResponseV;

    open spec fn view(&self) -> ChannelsResponseV {
        ChannelsResponseV {
            value: channel_views(self.value@),
        }
    }
}

/// How a JSON value reads as a [`ChannelsResponse`]; nothing where it does not.
pub open spec fn channels_response_of(v: JsonV) -> Option<ChannelsResponseV> {
    if !json::record_form(v, 1, 1) {
        None
    } else {
        match channel_list_member(json::member_of(v, "value"@, 0)) {
            Some(value) => Some(ChannelsResponseV { value }),
            None => None,
        }
    }
}

/// Reads a [`ChannelsResponse`].
pub fn read_channels_response(v: &Json) -> (r: Option<ChannelsResponse>)
    ensures
        match r {
            Some(x) => channels_response_of(v@) == Some(x@),
            None => channels_response_of(v@) is None,
        },
{
    if !json::has_record_form(v, 1, 1) {
        return None;
    }
    let value = match read_channel_list_member(json::member(v, "value", 0)) {
        Some(x) => x,
        None => {
            return None;
        },
    };
    Some(ChannelsResponse { value })
}
/// A member as the service sends it.
pub struct Member {
    pub id: String,
    pub display_name: Option<String>,
    pub user_id: Option<String>,
    pub email: Option<String>,
    pub roles: Vec<String>,
}

/// The model of [`Member`].
pub struct MemberV {
    pub id: Seq<char>,
    pub display_name: Option<Seq<char>>,
    pub user_id: Option<Seq<char>>,
    pub email: Option<Seq<char>>,
    pub roles: Seq<Seq<char>>,
}

impl View for Member {
    type V = MemberV;

    open spec fn view(&self) -> MemberV {
        MemberV {
            id: self.id@,
            display_name: text::opt_text(self.display_name),
            user_id: text::opt_text(self.user_id),
            email: text::opt_text(self.email),
            roles: text::texts(self.roles@),
        }
    }
}

/// A list of [`Member`] by their models.
pub open spec fn member_views(v: Seq<Member>) -> Seq<MemberV> {
    Seq::new(v.len(), |i: int| v[i]@)
}

/// How a JSON value reads as a [`Member`]; nothing where it does not.
pub open spec fn member_of(v: JsonV) -> Option<MemberV> {
    if !json::record_form(v, 4, 5) {
        None
    } else {
        match (
            json::str_of(json::member_of(v, "id"@, 0)),
            json::opt_text_member(json::member_of(v, "displayName"@, 1)),
            json::opt_text_member(json::member_of(v, "userId"@, 2)),
            json::opt_text_member(json::member_of(v, "email"@, 3)),
            json::texts_default(json::member_of(v, "roles"@, 4)),
        ) {
            (Some(id), Some(display_name), Some(user_id), Some(email), Some(roles)) => Some(
                MemberV { id, display_name, user_id, email, roles },
            ),
            _ => None,
        }
    }
}

/// Reads a [`Member`].
pub fn read_member(v: &Json) -> (r: Option<Member>)
    ensures
        match r {
            Some(x) => member_of(v@) == Some(x@),
            None => member_of(v@) is None,
        },
{
    if !json::has_record_form(v, 4, 5) {
        return None;
    }
    let id = match json::as_text(json::member(v, "id", 0)) {
        Some(x) => x,
        None => {
            return None;
        },
    };
    let display_name = match json::read_opt_text(json::member(v, "displayName", 1)) {
        Some(x) => x,
        None => {
            return None;
        },
    };
    let user_id = match json::read_opt_text(json::member(v, "userId", 2)) {
        Some(x) => x,
        None => {
            return None;
        },
    };
    let email = match json::read_opt_text(json::member(v, "email", 3)) {
        Some(x) => x,
        None => {
            return None;
        },
    };
    let roles = match json::read_texts_default(json::member(v, "roles", 4)) {
        Some(x) => x,
        None => {
            return None;
        },
    };
    Some(Member { id, display_name, user_id, email, roles })
}

/// How a list of JSON values reads as a list of [`Member`]: all of them or none.
pub open spec fn member_list(a: Seq<JsonV>) -> Option<Seq<MemberV>>
    decreases a.len(),
{
    if a.len() == 0 {
        Some(Seq::empty())
    } else {
        match (member_list(a.drop_last()), member_of(a.last())) {
            (Some(l), Some(x)) => Some(l.push(x)),
            _ => None,
        }
    }
}

proof fn lemma_member_list_prefix(a: Seq<JsonV>, i: int)
    requires
        0 <= i <= a.len(),
        member_list(a.take(i)) is None,
    ensures
        member_list(a) is None,
    decreases a.len() - i,
{
    if i < a.len() {
        assert(a.take(i + 1).drop_last() =~= a.take(i));
        lemma_member_list_prefix(a, i + 1);
    } else {
        assert(a.take(i) =~= a);
    }
}

fn read_member_list(a: &Vec<Json>) -> (r: Option<Vec<Member>>)
    ensures
        match r {
            Some(l) => member_list(json::items_view(a@)) == Some(member_views(l@)),
            None => member_list(json::items_view(a@)) is None,
        },
{
    let ghost all = json::items_view(a@);
    let mut out: Vec<Member> = Vec::new();
    let mut i: usize = 0;
    proof {
        assert(all.take(0) =~= Seq::empty());
        assert(member_views(out@) =~= Seq::empty());
    }
    while i < a.len()
        invariant
            i <= a@.len(),
            all == json::items_view(a@),
            member_list(all.take(i as int)) == Some(member_views(out@)),
        decreases a@.len() - i,
    {
        proof {
            assert(all.take(i + 1).drop_last() =~= all.take(i as int));
            assert(all.take(i + 1).last() == a@[i as int]@);
        }
        match read_member(&a[i]) {
            Some(x) => {
                let ghost before = out@;
                out.push(x);
                proof {
                    assert(member_views(out@) =~= member_views(before).push(x@));
                }
            },
            None => {
                proof {
                    lemma_member_list_prefix(all, i + 1);
                }
                return None;
            },
        }
        i = i + 1;
    }
    proof {
        assert(all.take(i as int) =~= all);
    }
    Some(out)
}

/// How a required list member reads.
pub open spec fn member_list_member(m: Option<JsonV>) -> Option<Seq<MemberV>> {
    match m {
        Some(JsonV::Arr(a)) => member_list(a),
        _ => None,
    }
}

fn read_member_list_member(m: Option<&Json>) -> (r: Option<Vec<Member>>)
    ensures
        match r {
            Some(l) => member_list_member(json::opt_json(m)) == Some(member_views(l@)),
            None => member_list_member(json::opt_json(m)) is None,
        },
{
    match m {
        Some(Json::Arr(a)) => {
            proof {
                json::lemma_arr_view(*a);
            }
            read_member_list(a)
        },
        _ => None,
    }
}
/// The reply to a request for members.
pub struct MembersResponse {
    pub value: Vec<Member>,
}

/// The model of [`MembersResponse`].
pub struct MembersResponseV {
    pub value: Seq<MemberV>,
}

impl View for MembersResponse {
    type V = MembersResponseV;

    open spec fn view(&self) -> MembersResponseV {
        MembersResponseV {
            value: member_views(self.value@),
        }
    }
}

/// How a JSON value reads as a [`MembersResponse`]; nothing where it does not.
pub open spec fn members_response_of(v: JsonV) -> Option<MembersResponseV> {
    if !json::record_form(v, 1, 1) {
        None
    } else {
        match member_list_member(json::member_of(v, "value"@, 0)) {
            Some(value) => Some(MembersResponseV { value }),
            None => None,
        }
    }
}

/// Reads a [`MembersResponse`].
pub fn read_members_response(v: &Json) -> (r: Option<MembersResponse>)
    ensures
        match r {
            Some(x) => members_response_of(v@) == Some(x@),
            None => members_response_of(v@) is None,
        },
{
    if !json::has_record_form(v, 1, 1) {
        return None;
    }
    let value = match read_member_list_member(json::member(v, "value", 0)) {
        Some(x) => x,
        None => {
            return None;
        },
    };
    Some(MembersResponse { value })
}

// -- Teams and channels --

/// What a list of channels shows of one.
pub struct ChannelInfo {
    pub id: String,
    pub name: String,
    pub description: Option<String>,
    pub membership_type: Option<String>,
    pub web_url: Option<String>,
}

/// The model of [`ChannelInfo`].
pub struct ChannelInfoV {
    pub id: Seq<char>,
    pub name: Seq<char>,
    pub description: Option<Seq<char>>,
    pub membership_type: Option<Seq<char>>,
    pub web_url: Option<Seq<char>>,
}

impl View for ChannelInfo {
    type V = ChannelInfoV;

    open spec fn view(&self) -> ChannelInfoV {
        ChannelInfoV {
            id: self.id@,
            name: self.name@,
            description: text::opt_text(self.description),
            membership_type: text::opt_text(self.membership_type),
            web_url: text::opt_text(self.web_url),
        }
    }
}
/// A list of [`ChannelInfo`] by their models.
pub open spec fn channel_info_views(v: Seq<ChannelInfo>) -> Seq<ChannelInfoV> {
    Seq::new(v.len(), |i: int| v[i]@)
}
/// What a list of teams shows of one.
pub struct TeamInfo {
    pub id: String,
    pub name: String,
    pub channels: Vec<ChannelInfo>,
}

/// The model of [`TeamInfo`].
pub struct TeamInfoV {
    pub id: Seq<char>,
    pub name: Seq<char>,
    pub channels: Seq<ChannelInfoV>,
}

impl View for TeamInfo {
    type V = TeamInfoV;

    open spec fn view(&self) -> TeamInfoV {
        TeamInfoV {
            id: self.id@,
            name: self.name@,
            channels: channel_info_views(self.channels@),
        }
    }
}
/// A list of [`TeamInfo`] by their models.
pub open spec fn team_info_views(v: Seq<TeamInfo>) -> Seq<TeamInfoV> {
    Seq::new(v.len(), |i: int| v[i]@)
}

/// A text, or another one where it is missing.
pub open spec fn or_text(o: Option<Seq<char>>, other: Seq<char>) -> Seq<char> {
    match o {
        Some(s) => s,
        None => other,
    }
}

/// A text, or a copy of another one where it is missing.
pub fn text_or(o: &Option<String>, other: &str) -> (r: String)
    ensures
        r@ == or_text(text::opt_text(*o), other@),
{
    match o {
        Some(s) => s.clone(),
        None => other.to_string(),
    }
}

/// What a list of channels shows of a channel; without a name, its id.
pub open spec fn channel_row(c: ChannelV) -> ChannelInfoV {
    ChannelInfoV {
        id: c.id,
        name: or_text(c.display_name, c.id),
        description: c.description,
        membership_type: c.membership_type,
        web_url: c.web_url,
    }
}

/// What a list of channels shows of a channel.
pub fn channel_info(c: &Channel) -> (r: ChannelInfo)
    ensures
        r@ == channel_row(c@),
{
    ChannelInfo {
        id: c.id.clone(),
        name: text_or(&c.display_name, c.id.as_str()),
        description: text::copy_opt(&c.description),
        membership_type: text::copy_opt(&c.membership_type),
        web_url: text::copy_opt(&c.web_url),
    }
}
/// What a list of channels shows of the channels, in order.
pub open spec fn channel_rows(v: Seq<ChannelV>) -> Seq<ChannelInfoV> {
    Seq::new(v.len(), |i: int| channel_row(v[i]))
}

/// What a list of channels shows of the channels, in order.
pub fn channel_infos(v: &Vec<Channel>) -> (r: Vec<ChannelInfo>)
    ensures
        channel_info_views(r@) == channel_rows(channel_views(v@)),
{
    let mut out: Vec<ChannelInfo> = Vec::new();
    let mut i: usize = 0;
    while i < v.len()
        invariant
            i <= v@.len(),
            out@.len() == i,
            forall|j: int| 0 <= j < i ==> (#[trigger] out@[j])@ == channel_row(v@[j]@),
        decreases v@.len() - i,
    {
        out.push(channel_info(&v[i]));
        i = i + 1;
    }
    proof {
        assert(channel_info_views(out@) =~= channel_rows(channel_views(v@)));
    }
    out
}
/// The channels of a team, by the JSON value of the reply; nothing where it is of another form.
pub open spec fn channels_of(v: JsonV) -> Option<Seq<ChannelInfoV>> {
    match channels_response_of(v) {
        Some(x) => Some(channel_rows(x.value)),
        None => None,
    }
}

/// The channels of a team, by the JSON value of the reply.
pub fn read_channels(v: &Json) -> (r: Option<Vec<ChannelInfo>>)
    ensures
        match r {
            Some(l) => channels_of(v@) == Some(channel_info_views(l@)),
            None => channels_of(v@) is None,
        },
{
    match read_channels_response(v) {
        Some(x) => Some(channel_infos(&x.value)),
        None => None,
    }
}

/// The channels of a team, by the body of the reply.
pub fn parse_channels(body: &[u8]) -> (r: Result<Vec<ChannelInfo>, String>)
    ensures
        match r {
            Ok(l) => json::json_bytes(body@) matches Some(v) && channels_of(v) == Some(
                channel_info_views(l@),
            ),
            Err(e) => (json::json_bytes(body@) matches Some(v) ==> channels_of(v) is None) && e@
                == "Failed to parse channels response"@,
        },
{
    if let Some(v) = json::parse_json_bytes(body) {
        if let Some(l) = read_channels(&v) {
            return Ok(l);
        }
    }
    Err("Failed to parse channels response".to_string())
}
/// A channel that was created, by the JSON value of the reply; nothing where it is of another form.
pub open spec fn created_channel_of(v: JsonV) -> Option<ChannelInfoV> {
    match channel_of(v) {
        Some(x) => Some(channel_row(x)),
        None => None,
    }
}

/// A channel that was created, by the JSON value of the reply.
pub fn read_created_channel(v: &Json) -> (r: Option<ChannelInfo>)
    ensures
        match r {
            Some(x) => created_channel_of(v@) == Some(x@),
            None => created_channel_of(v@) is None,
        },
{
    match read_channel(v) {
        Some(x) => Some(channel_info(&x)),
        None => None,
    }
}

/// A channel that was created, by the body of the reply.
pub fn parse_created_channel(body: &[u8]) -> (r: Result<ChannelInfo, String>)
    ensures
        match r {
            Ok(x) => json::json_bytes(body@) matches Some(v) && created_channel_of(v) == Some(x@),
            Err(e) => (json::json_bytes(body@) matches Some(v) ==> created_channel_of(v) is None)
                && e@
                == "Failed to parse created channel response"@,
        },
{
    if let Some(v) = json::parse_json_bytes(body) {
        if let Some(x) = read_created_channel(&v) {
            return Ok(x);
        }
    }
    Err("Failed to parse created channel response".to_string())
}

/// The teams of a reply; the error is the text to show.
pub fn parse_teams(body: &[u8]) -> (r: Result<Vec<Team>, String>)
    ensures
        match r {
            Ok(l) => json::json_bytes(body@) matches Some(v) && teams_response_of(v) == Some(
                TeamsResponseV { value: team_views(l@) },
            ),
            Err(e) => (json::json_bytes(body@) matches Some(v) ==> teams_response_of(v) is None)
                && e@ == "Failed to parse joinedTeams response"@,
        },
{
    if let Some(v) = json::parse_json_bytes(body) {
        if let Some(x) = read_teams_response(&v) {
            return Ok(x.value);
        }
    }
    Err("Failed to parse joinedTeams response".to_string())
}

/// The channels that a list of teams shows for a team, by the reply to the
/// request for them: none where that request failed, and an error where the
/// reply is of another form.
pub fn team_channels(reply: Option<&[u8]>) -> (r: Result<Vec<ChannelInfo>, String>)
    ensures
        match reply {
            None => r matches Ok(l) && l@.len() == 0,
            Some(body) => match r {
                Ok(l) => json::json_bytes(body@) matches Some(v) && channels_of(v) == Some(
                    channel_info_views(l@),
                ),
                Err(e) => (json::json_bytes(body@) matches Some(v) ==> channels_of(v) is None)
                    && e@ == "Failed to parse channels response"@,
            },
        },
{
    match reply {
        Some(body) => parse_channels(body),
        None => Ok(Vec::new()),
    }
}

/// What a list of teams shows of a team; without a name, its id.
pub fn team_info(team: &Team, channels: Vec<ChannelInfo>) -> (r: TeamInfo)
    ensures
        r@ == (TeamInfoV {
            id: team.id@,
            name: or_text(text::opt_text(team.display_name), team.id@),
            channels: channel_info_views(channels@),
        }),
{
    TeamInfo {
        id: team.id.clone(),
        name: text_or(&team.display_name, team.id.as_str()),
        channels,
    }
}

/// What a list of teams shows of a team, by the reply to the request for its
/// channels; nothing where the reply is of another form.
pub open spec fn team_row(team: TeamV, reply: Option<Seq<u8>>) -> Option<TeamInfoV> {
    let channels = match reply {
        None => Some(Seq::empty()),
        Some(b) => match json::json_bytes(b) {
            Some(v) => channels_of(v),
            None => None,
        },
    };
    match channels {
        Some(channels) => Some(
            TeamInfoV { id: team.id, name: or_text(team.display_name, team.id), channels },
        ),
        None => None,
    }
}

fn team_with_channels(team: &Team, reply: Option<&[u8]>) -> (r: Result<TeamInfo, String>)
    ensures
        match r {
            Ok(x) => team_row(team@, encoding::opt_slice(reply)) == Some(x@),
            Err(e) => team_row(team@, encoding::opt_slice(reply)) is None && e@
                == "Failed to parse channels response"@,
        },
{
    match team_channels(reply) {
        Ok(channels) => {
            proof {
                if reply is None {
                    assert(channel_info_views(channels@) =~= Seq::empty());
                }
            }
            Ok(team_info(team, channels))
        },
        Err(e) => Err(e),
    }
}

/// The teams of a user with their channels, each by the reply to the request that it
/// takes; nothing where a reply
/// is of another form.
pub open spec fn teams_with_channels(items: Seq<TeamV>, replies: Seq<Option<Seq<u8>>>) -> Option<
    Seq<TeamInfoV>,
>
    decreases items.len(),
{
    if items.len() == 0 {
        Some(Seq::empty())
    } else {
        match (teams_with_channels(items.drop_last(), replies), team_row(
            items.last(),
            replies[items.len() - 1],
        )) {
            (Some(l), Some(x)) => Some(l.push(x)),
            _ => None,
        }
    }
}

proof fn lemma_teams_with_channels_prefix(items: Seq<TeamV>, replies: Seq<Option<Seq<u8>>>, i: int)
    requires
        0 <= i <= items.len(),
        teams_with_channels(items.take(i), replies) is None,
    ensures
        teams_with_channels(items, replies) is None,
    decreases items.len() - i,
{
    if i < items.len() {
        assert(items.take(i + 1).drop_last() =~= items.take(i));
        lemma_teams_with_channels_prefix(items, replies, i + 1);
    } else {
        assert(items.take(i) =~= items);
    }
}

/// The teams of a user with their channels; the error is the text to show. A request
/// that failed has no reply.
pub fn list_teams_data(
    items: &Vec<Team>,
    replies: &Vec<Option<Vec<u8>>>,
) -> (r: Result<Vec<TeamInfo>, String>)
    requires
        replies@.len() == items@.len(),
    ensures
        match r {
            Ok(l) => teams_with_channels(team_views(items@), encoding::reply_views(replies@))
                == Some(
                team_info_views(l@),
            ),
            Err(e) => teams_with_channels(team_views(items@),
                encoding::reply_views(replies@)) is None && e@
                == "Failed to parse channels response"@,
        },
{
    let ghost all = team_views(items@);
    let ghost given = encoding::reply_views(replies@);
    let mut out: Vec<TeamInfo> = Vec::new();
    let mut i: usize = 0;
    proof {
        assert(all.take(0) =~= Seq::empty());
        assert(team_info_views(out@) =~= Seq::empty());
    }
    while i < items.len()
        invariant
            i <= items@.len(),
            replies@.len() == items@.len(),
            all == team_views(items@),
            given == encoding::reply_views(replies@),
            teams_with_channels(all.take(i as int), given) == Some(team_info_views(out@)),
        decreases items@.len() - i,
    {
        proof {
            assert(all.take(i + 1).drop_last() =~= all.take(i as int));
            assert(all.take(i + 1).last() == items@[i as int]@);
            assert(given[i as int] == encoding::opt_bytes(replies@[i as int]));
        }
        let reply = match &replies[i] {
            Some(b) => Some(b.as_slice()),
            None => None,
        };
        match team_with_channels(&items[i], reply) {
            Ok(x) => {
                let ghost before = out@;
                out.push(x);
                proof {
                    assert(team_info_views(out@) =~= team_info_views(before).push(x@));
                }
            },
            Err(e) => {
                proof {
                    lemma_teams_with_channels_prefix(all, given, i + 1);
                }
                return Err(e);
            },
        }
        i = i + 1;
    }
    proof {
        assert(all.take(i as int) =~= all);
    }
    Ok(out)
}

/// What is shown of a team that was just created; without a name, the one that
/// was asked for.
pub fn created_team_info(team: &Team, fallback_name: &str, channels: Vec<ChannelInfo>) -> (r:
    TeamInfo)
    ensures
        r@ == (TeamInfoV {
            id: team.id@,
            name: or_text(
                calendar::unless_blank(text::opt_text(team.display_name)),
                text::trimmed(fallback_name@),
            ),
            channels: channel_info_views(channels@),
        }),
{
    let name = match calendar::filter_blank(&team.display_name) {
        Some(n) => n,
        None => text::trim(fallback_name),
    };
    TeamInfo { id: team.id.clone(), name, channels }
}

/// A team that was just created, by the replies with the team and with its
/// channels; nothing where the first is of another form. Without a readable reply
/// it has no channels.
pub open spec fn created_team(
    team_reply: Seq<u8>,
    channels_reply: Option<Seq<u8>>,
    fallback_name: Seq<char>,
) -> Option<TeamInfoV> {
    let channels = match channels_reply {
        None => Seq::empty(),
        Some(b) => match json::json_bytes(b) {
            Some(v) => match channels_of(v) {
                Some(l) => l,
                None => Seq::empty(),
            },
            None => Seq::empty(),
        },
    };
    match json::json_bytes(team_reply) {
        Some(v) => match team_of(v) {
            Some(t) => Some(
                TeamInfoV {
                    id: t.id,
                    name: or_text(
                        calendar::unless_blank(t.display_name),
                        text::trimmed(fallback_name),
                    ),
                    channels,
                },
            ),
            None => None,
        },
        None => None,
    }
}

/// A team that was just created, with its channels; the error is the text to show.
pub fn fetch_team_with_channels(
    team_reply: &[u8],
    channels_reply: Option<&[u8]>,
    fallback_name: &str,
) -> (r: Result<TeamInfo, String>)
    ensures
        match r {
            Ok(x) => created_team(
                team_reply@,
                encoding::opt_slice(channels_reply),
                fallback_name@,
            ) == Some(x@),
            Err(e) => created_team(
                team_reply@,
                encoding::opt_slice(channels_reply),
                fallback_name@,
            ) is None && e@ == "Failed to parse created team response"@,
        },
{
    let channels = match team_channels(channels_reply) {
        Ok(l) => l,
        Err(_) => Vec::new(),
    };
    proof {
        if channels@.len() == 0 {
            assert(channel_info_views(channels@) =~= Seq::empty());
        }
    }
    if let Some(v) = json::parse_json_bytes(team_reply) {
        if let Some(t) = read_team(&v) {
            return Ok(created_team_info(&t, fallback_name, channels));
        }
    }
    Err("Failed to parse created team response".to_string())
}

/// True when a team has a channel.
pub open spec fn has_channel(t: TeamInfoV, channel_id: Seq<char>) -> bool {
    exists|i: int| 0 <= i < t.channels.len() && (#[trigger] t.channels[i]).id == channel_id
}

fn team_has_channel(t: &TeamInfo, channel_id: &str) -> (r: bool)
    ensures
        r == has_channel(t@, channel_id@),
{
    let ghost all = t@.channels;
    let mut i: usize = 0;
    while i < t.channels.len()
        invariant
            i <= t.channels@.len(),
            all == channel_info_views(t.channels@),
            forall|j: int| 0 <= j < i ==> (#[trigger] all[j]).id != channel_id@,
        decreases t.channels@.len() - i,
    {
        if text::same(t.channels[i].id.as_str(), channel_id) {
            assert(all[i as int].id == channel_id@);
            return true;
        }
        i = i + 1;
    }
    false
}

/// The id of the first team from a place on that has a channel.
pub open spec fn team_from(teams: Seq<TeamInfoV>, channel_id: Seq<char>, from: int) -> Option<
    Seq<char>,
>
    decreases teams.len() - from,
{
    if from < 0 || from >= teams.len() {
        None
    } else if has_channel(teams[from], channel_id) {
        Some(teams[from].id)
    } else {
        team_from(teams, channel_id, from + 1)
    }
}

/// The id of the first team that has a channel, or the text to show.
pub open spec fn team_of_channel(teams: Seq<TeamInfoV>, channel_id: Seq<char>) -> Result<
    Seq<char>,
    Seq<char>,
> {
    match team_from(teams, channel_id, 0) {
        Some(id) => Ok(id),
        None => Err("No joined team contains channel "@ + channel_id),
    }
}

/// Finds the first team that has a channel; the error is the text to show.
pub fn find_team_for_channel(teams: &Vec<TeamInfo>, channel_id: &str) -> (r: Result<String, String>)
    ensures
        match r {
            Ok(id) => team_of_channel(team_info_views(teams@), channel_id@) == Ok::<
                Seq<char>,
                Seq<char>,
            >(id@),
            Err(e) => team_of_channel(team_info_views(teams@), channel_id@) == Err::<
                Seq<char>,
                Seq<char>,
            >(e@),
        },
{
    let ghost all = team_info_views(teams@);
    let mut i: usize = 0;
    while i < teams.len()
        invariant
            i <= teams@.len(),
            all == team_info_views(teams@),
            team_from(all, channel_id@, 0) == team_from(all, channel_id@, i as int),
        decreases teams@.len() - i,
    {
        assert(all[i as int] == teams@[i as int]@);
        if team_has_channel(&teams[i], channel_id) {
            return Ok(teams[i].id.clone());
        }
        i = i + 1;
    }
    Err(text::join2("No joined team contains channel ", channel_id))
}

/// A Graph request with a body.
pub struct GraphPost {
    pub path: String,
    pub body: Json,
}

/// The path of a team's channels.
pub fn create_channel_path(team_id: &str) -> (r: String)
    ensures
        r@ == "/teams/"@ + team_id@ + "/channels"@,
{
    let mut s = String::new();
    s.append("/teams/");
    s.append(team_id);
    s.append("/channels");
    proof {
        assert(s@ =~= "/teams/"@ + team_id@ + "/channels"@);
    }
    s
}
/// The path of a team.
pub fn team_path(team_id: &str) -> (r: String)
    ensures
        r@ == "/teams/"@ + team_id@,
{
    let mut s = String::new();
    s.append("/teams/");
    s.append(team_id);
    proof {
        assert(s@ =~= "/teams/"@ + team_id@);
    }
    s
}

/// The fields of a body with a description, unless that is blank.
pub open spec fn with_description(f: FieldsV, description: Option<Seq<char>>) -> FieldsV {
    match calendar::unless_blank(description) {
        Some(d) => f.text("description"@, d),
        None => f,
    }
}

fn add_description(o: &mut Fields, description: Option<&str>)
    ensures
        final(o)@ == with_description(old(o)@, text::opt_str(description)),
{
    if let Some(d) = description {
        if !text::is_blank(d) {
            o.text("description", d);
        }
    }
}

/// The body that creates a channel.
pub fn create_channel_body(name: &str, description: Option<&str>) -> (r: Json)
    ensures
        r@ == with_description(
            FieldsV::new().text("displayName"@, name@),
            text::opt_str(description),
        ).obj(),
{
    let mut o = Fields::new();
    o.text("displayName", name);
    add_description(&mut o, description);
    o.obj()
}

/// Why a channel cannot be created.
pub open spec fn create_channel_error(team_id: Seq<char>, name: Seq<char>) -> Option<Seq<char>> {
    match web::id_error("team_id"@, team_id) {
        Some(e) => Some(e),
        None => if text::blank(name) {
            Some("empty name"@)
        } else {
            None
        },
    }
}

/// The request that creates a channel; the error is the text to show.
pub fn create_channel_data(team_id: &str, name: &str, description: Option<&str>) -> (r: Result<
    GraphPost,
    String,
>)
    ensures
        match r {
            Ok(q) => {
                &&& create_channel_error(team_id@, name@) is None
                &&& q.path@ == "/teams/"@ + team_id@ + "/channels"@
                &&& q.body@ == with_description(
                    FieldsV::new().text("displayName"@, name@),
                    text::opt_str(description),
                ).obj()
            },
            Err(e) => create_channel_error(team_id@, name@) == Some(e@),
        },
{
    match web::check_id("team_id", team_id) {
        Ok(_) => {},
        Err(e) => {
            return Err(e);
        },
    }
    if text::is_blank(name) {
        return Err("empty name".to_string());
    }
    Ok(
        GraphPost {
            path: create_channel_path(team_id),
            body: create_channel_body(name, description),
        },
    )
}

// -- Members --

/// One entry of a roster. The id is the one of the membership, not of the user.
pub struct TeamMemberInfo {
    pub id: String,
    pub display_name: String,
    pub user_id: Option<String>,
    pub email: Option<String>,
    pub roles: Vec<String>,
    pub is_owner: bool,
}

/// The model of [`TeamMemberInfo`].
pub struct TeamMemberInfoV {
    pub id: Seq<char>,
    pub display_name: Seq<char>,
    pub user_id: Option<Seq<char>>,
    pub email: Option<Seq<char>>,
    pub roles: Seq<Seq<char>>,
    pub is_owner: bool,
}

impl View for TeamMemberInfo {
    type V = TeamMemberInfoV;

    open spec fn view(&self) -> TeamMemberInfoV {
        TeamMemberInfoV {
            id: self.id@,
            display_name: self.display_name@,
            user_id: text::opt_text(self.user_id),
            email: text::opt_text(self.email),
            roles: text::texts(self.roles@),
            is_owner: self.is_owner,
        }
    }
}
/// A list of [`TeamMemberInfo`] by their models.
pub open spec fn team_member_info_views(v: Seq<TeamMemberInfo>) -> Seq<TeamMemberInfoV> {
    Seq::new(v.len(), |i: int| v[i]@)
}

/// What a roster shows of a member: without a name its id, and whether it has the
/// role of an owner.
pub open spec fn member_row(m: MemberV) -> TeamMemberInfoV {
    TeamMemberInfoV {
        id: m.id,
        display_name: or_text(m.display_name, m.id),
        user_id: m.user_id,
        email: m.email,
        roles: m.roles,
        is_owner: m.roles.contains("owner"@),
    }
}

fn has_role(roles: &Vec<String>, role: &str) -> (r: bool)
    ensures
        r == text::texts(roles@).contains(role@),
{
    let ghost all = text::texts(roles@);
    let mut i: usize = 0;
    while i < roles.len()
        invariant
            i <= roles@.len(),
            all == text::texts(roles@),
            forall|j: int| 0 <= j < i ==> #[trigger] all[j] != role@,
        decreases roles@.len() - i,
    {
        if text::same(roles[i].as_str(), role) {
            assert(all[i as int] == role@);
            return true;
        }
        i = i + 1;
    }
    false
}

/// A copy of a list of texts.
pub fn copy_texts(v: &Vec<String>) -> (r: Vec<String>)
    ensures
        text::texts(r@) == text::texts(v@),
{
    let mut out: Vec<String> = Vec::new();
    let mut i: usize = 0;
    while i < v.len()
        invariant
            i <= v@.len(),
            out@.len() == i,
            forall|j: int| 0 <= j < i ==> (#[trigger] out@[j])@ == v@[j]@,
        decreases v@.len() - i,
    {
        out.push(v[i].clone());
        i = i + 1;
    }
    proof {
        assert(text::texts(out@) =~= text::texts(v@));
    }
    out
}

/// What a roster shows of a member.
pub fn member_info(m: &Member) -> (r: TeamMemberInfo)
    ensures
        r@ == member_row(m@),
{
    TeamMemberInfo {
        id: m.id.clone(),
        display_name: text_or(&m.display_name, m.id.as_str()),
        user_id: text::copy_opt(&m.user_id),
        email: text::copy_opt(&m.email),
        roles: copy_texts(&m.roles),
        is_owner: has_role(&m.roles, "owner"),
    }
}
/// What a roster shows of the members, in order.
pub open spec fn member_rows(v: Seq<MemberV>) -> Seq<TeamMemberInfoV> {
    Seq::new(v.len(), |i: int| member_row(v[i]))
}

/// What a roster shows of the members, in order.
pub fn member_infos(v: &Vec<Member>) -> (r: Vec<TeamMemberInfo>)
    ensures
        team_member_info_views(r@) == member_rows(member_views(v@)),
{
    let mut out: Vec<TeamMemberInfo> = Vec::new();
    let mut i: usize = 0;
    while i < v.len()
        invariant
            i <= v@.len(),
            out@.len() == i,
            forall|j: int| 0 <= j < i ==> (#[trigger] out@[j])@ == member_row(v@[j]@),
        decreases v@.len() - i,
    {
        out.push(member_info(&v[i]));
        i = i + 1;
    }
    proof {
        assert(team_member_info_views(out@) =~= member_rows(member_views(v@)));
    }
    out
}
/// The roster of a team, by the JSON value of the reply; nothing where it is of another form.
pub open spec fn members_of(v: JsonV) -> Option<Seq<TeamMemberInfoV>> {
    match members_response_of(v) {
        Some(x) => Some(member_rows(x.value)),
        None => None,
    }
}

/// The roster of a team, by the JSON value of the reply.
pub fn read_members(v: &Json) -> (r: Option<Vec<TeamMemberInfo>>)
    ensures
        match r {
            Some(l) => members_of(v@) == Some(team_member_info_views(l@)),
            None => members_of(v@) is None,
        },
{
    match read_members_response(v) {
        Some(x) => Some(member_infos(&x.value)),
        None => None,
    }
}

/// The roster of a team, by the body of the reply.
pub fn list_team_members_data(body: &[u8]) -> (r: Result<Vec<TeamMemberInfo>, String>)
    ensures
        match r {
            Ok(l) => json::json_bytes(body@) matches Some(v) && members_of(v) == Some(
                team_member_info_views(l@),
            ),
            Err(e) => (json::json_bytes(body@) matches Some(v) ==> members_of(v) is None) && e@
                == "Failed to parse team members response"@,
        },
{
    if let Some(v) = json::parse_json_bytes(body) {
        if let Some(l) = read_members(&v) {
            return Ok(l);
        }
    }
    Err("Failed to parse team members response".to_string())
}
/// A member that was added, by the JSON value of the reply; nothing where it is of another form.
pub open spec fn added_member_of(v: JsonV) -> Option<TeamMemberInfoV> {
    match member_of(v) {
        Some(x) => Some(member_row(x)),
        None => None,
    }
}

/// A member that was added, by the JSON value of the reply.
pub fn read_added_member(v: &Json) -> (r: Option<TeamMemberInfo>)
    ensures
        match r {
            Some(x) => added_member_of(v@) == Some(x@),
            None => added_member_of(v@) is None,
        },
{
    match read_member(v) {
        Some(x) => Some(member_info(&x)),
        None => None,
    }
}

/// A member that was added, by the body of the reply.
pub fn parse_added_member(body: &[u8]) -> (r: Result<TeamMemberInfo, String>)
    ensures
        match r {
            Ok(x) => json::json_bytes(body@) matches Some(v) && added_member_of(v) == Some(x@),
            Err(e) => (json::json_bytes(body@) matches Some(v) ==> added_member_of(v) is None) && e@
                == "Failed to parse added team member response"@,
        },
{
    if let Some(v) = json::parse_json_bytes(body) {
        if let Some(x) = read_added_member(&v) {
            return Ok(x);
        }
    }
    Err("Failed to parse added team member response".to_string())
}
/// The path of a team's members.
pub fn members_path(team_id: &str) -> (r: String)
    ensures
        r@ == "/teams/"@ + text::trimmed(team_id@) + "/members"@,
{
    let mut s = String::new();
    s.append("/teams/");
    s.append(text::trim(team_id).as_str());
    s.append("/members");
    proof {
        assert(s@ =~= "/teams/"@ + text::trimmed(team_id@) + "/members"@);
    }
    s
}
/// The path of one membership.
pub fn member_path(team_id: &str, member_id: &str) -> (r: String)
    ensures
        r@ == "/teams/"@ + text::trimmed(team_id@) + "/members/"@ + text::trimmed(member_id@),
{
    let mut s = String::new();
    s.append("/teams/");
    s.append(text::trim(team_id).as_str());
    s.append("/members/");
    s.append(text::trim(member_id).as_str());
    proof {
        assert(
            s@ =~= "/teams/"@ + text::trimmed(team_id@) + "/members/"@ + text::trimmed(member_id@)
        );
    }
    s
}

/// The body that adds a member.
pub open spec fn add_member_payload(user: Seq<char>, owner: bool) -> JsonV {
    FieldsV::new().text("@odata.type"@, "#microsoft.graph.aadUserConversationMember"@).put(
        "roles"@,
        if owner {
            JsonV::Arr(Seq::empty().push(JsonV::Str("owner"@)))
        } else {
            JsonV::Arr(Seq::empty())
        },
    ).text(
        "user@odata.bind"@,
        "https://graph.microsoft.com/v1.0/users('"@ + user + "')"@,
    ).obj()
}

fn membership(user: &str, owner: bool) -> (r: Json)
    ensures
        r@ == add_member_payload(user@, owner),
{
    let mut roles = Items::new();
    if owner {
        roles.push(Json::text("owner"));
    }
    let mut o = Fields::new();
    o.text("@odata.type", "#microsoft.graph.aadUserConversationMember");
    o.put("roles", roles.arr());
    o.text(
        "user@odata.bind",
        text::join3("https://graph.microsoft.com/v1.0/users('", user, "')").as_str(),
    );
    o.obj()
}

/// The body that adds a user to a team, as an owner or not.
pub fn add_member_body(user: &str, owner: bool) -> (r: Json)
    ensures
        r@ == add_member_payload(text::trimmed(user@), owner),
{
    let u = text::trim(user);
    membership(u.as_str(), owner)
}

/// Why a team cannot be joined.
pub open spec fn join_error(team_id: Seq<char>) -> Option<Seq<char>> {
    let id = text::trimmed(team_id);
    if id.len() == 0 {
        Some("empty team_id"@)
    } else if id.contains('/') || id.contains('?') || id.contains('#') {
        Some("invalid team_id (path separator)"@)
    } else {
        None
    }
}

/// The id of a team that is to be joined; the error is the text to show.
pub fn join_team_id(team_id: &str) -> (r: Result<String, String>)
    ensures
        match r {
            Ok(id) => join_error(team_id@) is None && id@ == text::trimmed(team_id@),
            Err(e) => join_error(team_id@) == Some(e@),
        },
{
    let id = text::trim(team_id);
    if id.as_str().is_empty() {
        return Err("empty team_id".to_string());
    }
    if text::contains_char(id.as_str(), '/') || text::contains_char(id.as_str(), '?')
        || text::contains_char(id.as_str(), '#') {
        return Err("invalid team_id (path separator)".to_string());
    }
    Ok(id)
}

/// The request with which a user joins a team as a plain member; the error is
/// the text to show.
pub fn join_team_data(team_id: &str, user_id: &str) -> (r: Result<GraphPost, String>)
    ensures
        match r {
            Ok(q) => join_error(team_id@) is None && q.path@ == "/teams/"@ + text::trimmed(team_id@)
                + "/members"@ && q.body@ == add_member_payload(user_id@, false),
            Err(e) => join_error(team_id@) == Some(e@),
        },
{
    match join_team_id(team_id) {
        Ok(id) => Ok(
            GraphPost {
                path: text::join3("/teams/", id.as_str(), "/members"),
                body: membership(user_id, false),
            },
        ),
        Err(e) => Err(e),
    }
}

/// Why a member cannot be added.
pub open spec fn add_member_error(team_id: Seq<char>, user: Seq<char>) -> Option<Seq<char>> {
    match web::id_error("team_id"@, team_id) {
        Some(e) => Some(e),
        None => if text::blank(user) {
            Some("empty user"@)
        } else {
            None
        },
    }
}

/// The request that adds a user to a team; the error is the text to show.
pub fn add_team_member_data(team_id: &str, user: &str, owner: bool) -> (r: Result<
    GraphPost,
    String,
>)
    ensures
        match r {
            Ok(q) => add_member_error(team_id@, user@) is None && q.path@ == "/teams/"@
                + text::trimmed(team_id@) + "/members"@ && q.body@ == add_member_payload(
                text::trimmed(user@),
                owner,
            ),
            Err(e) => add_member_error(team_id@, user@) == Some(e@),
        },
{
    match web::check_id("team_id", team_id) {
        Ok(_) => {},
        Err(e) => {
            return Err(e);
        },
    }
    if text::is_blank(user) {
        return Err("empty user".to_string());
    }
    Ok(GraphPost { path: members_path(team_id), body: add_member_body(user, owner) })
}

/// The path of a team's members; the error is the text to show.
pub fn roster_path(team_id: &str) -> (r: Result<String, String>)
    ensures
        match r {
            Ok(p) => web::id_error("team_id"@, team_id@) is None && p@ == "/teams/"@
                + text::trimmed(team_id@) + "/members"@,
            Err(e) => web::id_error("team_id"@, team_id@) == Some(e@),
        },
{
    match web::check_id("team_id", team_id) {
        Ok(_) => Ok(members_path(team_id)),
        Err(e) => Err(e),
    }
}

/// The first of two errors.
pub open spec fn first_error(a: Option<Seq<char>>, b: Option<Seq<char>>) -> Option<Seq<char>> {
    match a {
        Some(e) => Some(e),
        None => b,
    }
}

/// The path that removes a membership; the error is the text to show.
pub fn remove_team_member_data(team_id: &str, member_id: &str) -> (r: Result<String, String>)
    ensures
        match r {
            Ok(p) => first_error(
                web::id_error("team_id"@, team_id@),
                web::id_error("member_id"@, member_id@),
            ) is None && p@ == "/teams/"@ + text::trimmed(team_id@) + "/members/"@ + text::trimmed(
                member_id@,
            ),
            Err(e) => first_error(
                web::id_error("team_id"@, team_id@),
                web::id_error("member_id"@, member_id@),
            ) == Some(e@),
        },
{
    match web::check_id("team_id", team_id) {
        Ok(_) => {},
        Err(e) => {
            return Err(e);
        },
    }
    match web::check_id("member_id", member_id) {
        Ok(_) => Ok(member_path(team_id, member_id)),
        Err(e) => Err(e),
    }
}

// -- Reactions --

/// The path that sets a reaction to a message.
pub fn channel_set_reaction_path(team_id: &str, channel_id: &str, message_id: &str) -> (r: String)
    ensures
        r@ == "/teams/"@ + text::trimmed(team_id@) + "/channels/"@ + text::trimmed(channel_id@)
            + "/messages/"@ + text::trimmed(message_id@) + "/setReaction"@,
{
    let mut s = String::new();
    s.append("/teams/");
    s.append(text::trim(team_id).as_str());
    s.append("/channels/");
    s.append(text::trim(channel_id).as_str());
    s.append("/messages/");
    s.append(text::trim(message_id).as_str());
    s.append("/setReaction");
    proof {
        assert(
            s@ =~= "/teams/"@ + text::trimmed(team_id@) + "/channels/"@ + text::trimmed(channel_id@)
                + "/messages/"@ + text::trimmed(message_id@) + "/setReaction"@
        );
    }
    s
}
/// The path that takes back a reaction to a message.
pub fn channel_unset_reaction_path(team_id: &str, channel_id: &str, message_id: &str) -> (r: String)
    ensures
        r@ == "/teams/"@ + text::trimmed(team_id@) + "/channels/"@ + text::trimmed(channel_id@)
            + "/messages/"@ + text::trimmed(message_id@) + "/unsetReaction"@,
{
    let mut s = String::new();
    s.append("/teams/");
    s.append(text::trim(team_id).as_str());
    s.append("/channels/");
    s.append(text::trim(channel_id).as_str());
    s.append("/messages/");
    s.append(text::trim(message_id).as_str());
    s.append("/unsetReaction");
    proof {
        assert(
            s@ =~= "/teams/"@ + text::trimmed(team_id@) + "/channels/"@ + text::trimmed(channel_id@)
                + "/messages/"@ + text::trimmed(message_id@) + "/unsetReaction"@
        );
    }
    s
}
/// The path that sets a reaction to a reply.
pub fn channel_reply_set_reaction_path(
    team_id: &str,
    channel_id: &str,
    message_id: &str,
    reply_id: &str,
) -> (r: String)
    ensures
        r@ == "/teams/"@ + text::trimmed(team_id@) + "/channels/"@ + text::trimmed(channel_id@)
            + "/messages/"@ + text::trimmed(message_id@) + "/replies/"@ + text::trimmed(reply_id@)
            + "/setReaction"@,
{
    let mut s = String::new();
    s.append("/teams/");
    s.append(text::trim(team_id).as_str());
    s.append("/channels/");
    s.append(text::trim(channel_id).as_str());
    s.append("/messages/");
    s.append(text::trim(message_id).as_str());
    s.append("/replies/");
    s.append(text::trim(reply_id).as_str());
    s.append("/setReaction");
    proof {
        assert(
            s@ =~= "/teams/"@ + text::trimmed(team_id@) + "/channels/"@ + text::trimmed(channel_id@)
                + "/messages/"@ + text::trimmed(message_id@) + "/replies/"@
                + text::trimmed(reply_id@) + "/setReaction"@
        );
    }
    s
}
/// The path that takes back a reaction to a reply.
pub fn channel_reply_unset_reaction_path(
    team_id: &str,
    channel_id: &str,
    message_id: &str,
    reply_id: &str,
) -> (r: String)
    ensures
        r@ == "/teams/"@ + text::trimmed(team_id@) + "/channels/"@ + text::trimmed(channel_id@)
            + "/messages/"@ + text::trimmed(message_id@) + "/replies/"@ + text::trimmed(reply_id@)
            + "/unsetReaction"@,
{
    let mut s = String::new();
    s.append("/teams/");
    s.append(text::trim(team_id).as_str());
    s.append("/channels/");
    s.append(text::trim(channel_id).as_str());
    s.append("/messages/");
    s.append(text::trim(message_id).as_str());
    s.append("/replies/");
    s.append(text::trim(reply_id).as_str());
    s.append("/unsetReaction");
    proof {
        assert(
            s@ =~= "/teams/"@ + text::trimmed(team_id@) + "/channels/"@ + text::trimmed(channel_id@)
                + "/messages/"@ + text::trimmed(message_id@) + "/replies/"@
                + text::trimmed(reply_id@) + "/unsetReaction"@
        );
    }
    s
}

/// The body of a reaction: the emoji itself.
pub fn channel_react_body(emoji: &str) -> (r: Json)
    ensures
        r@ == FieldsV::new().text("reactionType"@, text::trimmed(emoji@)).obj(),
{
    let e = text::trim(emoji);
    let mut o = Fields::new();
    o.text("reactionType", e.as_str());
    o.obj()
}

/// Why a reaction cannot be sent.
pub open spec fn reaction_error(
    team_id: Seq<char>,
    channel_id: Seq<char>,
    message_id: Seq<char>,
    emoji: Seq<char>,
    supported: bool,
    reply_id: Option<Seq<char>>,
) -> Option<Seq<char>> {
    first_error(
        web::id_error("team_id"@, team_id),
        first_error(
            web::id_error("channel_id"@, channel_id),
            first_error(
                web::id_error("message_id"@, message_id),
                if !supported {
                    Some("unsupported reaction emoji: "@ + emoji)
                } else {
                    match reply_id {
                        Some(r) => web::id_error("reply_id"@, r),
                        None => None,
                    }
                },
            ),
        ),
    )
}

/// The path of a reaction.
pub open spec fn reaction_path(
    team_id: Seq<char>,
    channel_id: Seq<char>,
    message_id: Seq<char>,
    reply_id: Option<Seq<char>>,
    action: Seq<char>,
) -> Seq<char> {
    let m = "/teams/"@ + text::trimmed(team_id) + "/channels/"@ + text::trimmed(channel_id)
        + "/messages/"@ + text::trimmed(message_id);
    match reply_id {
        Some(r) => m + "/replies/"@ + text::trimmed(r) + action,
        None => m + action,
    }
}

fn check_reaction(
    team_id: &str,
    channel_id: &str,
    message_id: &str,
    emoji: &str,
    supported: bool,
    reply_id: Option<&str>,
) -> (r: Result<(), String>)
    ensures
        match r {
            Ok(_) => reaction_error(
                team_id@,
                channel_id@,
                message_id@,
                emoji@,
                supported,
                text::opt_str(reply_id),
            ) is None,
            Err(e) => reaction_error(
                team_id@,
                channel_id@,
                message_id@,
                emoji@,
                supported,
                text::opt_str(reply_id),
            ) == Some(e@),
        },
{
    match web::check_id("team_id", team_id) {
        Ok(_) => {},
        Err(e) => {
            return Err(e);
        },
    }
    match web::check_id("channel_id", channel_id) {
        Ok(_) => {},
        Err(e) => {
            return Err(e);
        },
    }
    match web::check_id("message_id", message_id) {
        Ok(_) => {},
        Err(e) => {
            return Err(e);
        },
    }
    if !supported {
        return Err(text::join2("unsupported reaction emoji: ", emoji));
    }
    match reply_id {
        Some(r) => web::check_id("reply_id", r),
        None => Ok(()),
    }
}

/// The request that sets a reaction to a message of a channel, or a reply to one.
/// Whether the emoji is one that can be sent is for the caller to say; the error
/// is the text to show.
pub fn set_channel_reaction_data(
    team_id: &str,
    channel_id: &str,
    message_id: &str,
    emoji: &str,
    supported: bool,
    reply_id: Option<&str>,
) -> (r: Result<GraphPost, String>)
    ensures
        match r {
            Ok(q) => {
                &&& reaction_error(
                    team_id@,
                    channel_id@,
                    message_id@,
                    emoji@,
                    supported,
                    text::opt_str(reply_id),
                ) is None
                &&& q.path@ == reaction_path(
                    team_id@,
                    channel_id@,
                    message_id@,
                    text::opt_str(reply_id),
                    "/setReaction"@,
                )
                &&& q.body@ == FieldsV::new().text("reactionType"@, text::trimmed(emoji@)).obj()
            },
            Err(e) => reaction_error(
                team_id@,
                channel_id@,
                message_id@,
                emoji@,
                supported,
                text::opt_str(reply_id),
            ) == Some(e@),
        },
{
    match check_reaction(team_id, channel_id, message_id, emoji, supported, reply_id) {
        Ok(_) => {},
        Err(e) => {
            return Err(e);
        },
    }
    let path = match reply_id {
        Some(r) => channel_reply_set_reaction_path(team_id, channel_id, message_id, r),
        None => channel_set_reaction_path(team_id, channel_id, message_id),
    };
    Ok(GraphPost { path, body: channel_react_body(emoji) })
}

/// The request that takes back a reaction to a message of a channel, or a reply to one.
/// Whether the emoji is one that can be sent is for the caller to say; the error
/// is the text to show.
pub fn unset_channel_reaction_data(
    team_id: &str,
    channel_id: &str,
    message_id: &str,
    emoji: &str,
    supported: bool,
    reply_id: Option<&str>,
) -> (r: Result<GraphPost, String>)
    ensures
        match r {
            Ok(q) => {
                &&& reaction_error(
                    team_id@,
                    channel_id@,
                    message_id@,
                    emoji@,
                    supported,
                    text::opt_str(reply_id),
                ) is None
                &&& q.path@ == reaction_path(
                    team_id@,
                    channel_id@,
                    message_id@,
                    text::opt_str(reply_id),
                    "/unsetReaction"@,
                )
                &&& q.body@ == FieldsV::new().text("reactionType"@, text::trimmed(emoji@)).obj()
            },
            Err(e) => reaction_error(
                team_id@,
                channel_id@,
                message_id@,
                emoji@,
                supported,
                text::opt_str(reply_id),
            ) == Some(e@),
        },
{
    match check_reaction(team_id, channel_id, message_id, emoji, supported, reply_id) {
        Ok(_) => {},
        Err(e) => {
            return Err(e);
        },
    }
    let path = match reply_id {
        Some(r) => channel_reply_unset_reaction_path(team_id, channel_id, message_id, r),
        None => channel_unset_reaction_path(team_id, channel_id, message_id),
    };
    Ok(GraphPost { path, body: channel_react_body(emoji) })
}

// -- Creating a team --

/// The seconds between two polls of the operation.
pub const TEAM_CREATE_POLL_SECS: u64 = 3;

/// The seconds after which polling is given up.
pub const TEAM_CREATE_TIMEOUT_SECS: u64 = 120;

/// The path that creates a team.
pub fn create_team_path() -> (r: &'static str)
    ensures
        r@ == "/teams"@,
{
    "/teams"
}

/// The template of a plain team.
pub fn standard_team_template() -> (r: &'static str)
    ensures
        r@ == "https://graph.microsoft.com/v1.0/teamsTemplates('standard')"@,
{
    "https://graph.microsoft.com/v1.0/teamsTemplates('standard')"
}

/// The body that creates a team: its template, its name, its owner, and its
/// description unless that is blank.
pub fn create_team_body(name: &str, description: Option<&str>, owner: &str) -> (r: Json)
    ensures
        r@ == with_description(
            FieldsV::new().text(
                "template@odata.bind"@,
                "https://graph.microsoft.com/v1.0/teamsTemplates('standard')"@,
            ).text("displayName"@, name@).put(
                "members"@,
                JsonV::Arr(
                    Seq::empty().push(add_member_payload(text::trimmed(owner@), true)),
                ),
            ),
            text::opt_str(description),
        ).obj(),
{
    let mut members = Items::new();
    members.push(add_member_body(owner, true));
    let mut o = Fields::new();
    o.text("template@odata.bind", standard_team_template());
    o.text("displayName", name);
    o.put("members", members.arr());
    add_description(&mut o, description);
    o.obj()
}

/// What the service says of an operation that is under way.
pub struct TeamsAsyncOperation {
    pub status: String,
    pub target_resource_id: Option<String>,
    pub target_resource_location: Option<String>,
    pub error: Option<serde_json::Value>,
}

/// The model of [`TeamsAsyncOperation`].
pub struct TeamsAsyncOperationV {
    pub status: Seq<char>,
    pub target_resource_id: Option<Seq<char>>,
    pub target_resource_location: Option<Seq<char>>,
    pub error: Option<JsonV>,
}

impl View for TeamsAsyncOperation {
    type V = TeamsAsyncOperationV;

    open spec fn view(&self) -> TeamsAsyncOperationV {
        TeamsAsyncOperationV {
            status: self.status@,
            target_resource_id: text::opt_text(self.target_resource_id),
            target_resource_location: text::opt_text(self.target_resource_location),
            error: json::opt_held(self.error),
        }
    }
}

/// How a JSON value reads as a [`TeamsAsyncOperation`]; nothing where it does not.
pub open spec fn teams_async_operation_of(v: JsonV) -> Option<TeamsAsyncOperationV> {
    if !json::record_form(v, 4, 4) {
        None
    } else {
        match (
            json::str_of(json::member_of(v, "status"@, 0)),
            json::opt_text_member(json::member_of(v, "targetResourceId"@, 1)),
            json::opt_text_member(json::member_of(v, "targetResourceLocation"@, 2)),
        ) {
            (Some(status), Some(id), Some(location)) => Some(
                TeamsAsyncOperationV {
                    status,
                    target_resource_id: id,
                    target_resource_location: location,
                    error: json::opt_any_member(json::member_of(v, "error"@, 3)),
                },
            ),
            _ => None,
        }
    }
}

/// Reads a [`TeamsAsyncOperation`].
pub fn read_operation(value: &serde_json::Value) -> (r: Option<TeamsAsyncOperation>)
    ensures
        match r {
            Some(x) => teams_async_operation_of(json::held_json(*value)) == Some(x@),
            None => teams_async_operation_of(json::held_json(*value)) is None,
        },
{
    let v = json::from_value(value);
    if !json::has_record_form(&v, 4, 4) {
        return None;
    }
    let status = match json::as_text(json::member(&v, "status", 0)) {
        Some(x) => x,
        None => {
            return None;
        },
    };
    let target_resource_id = match json::read_opt_text(json::member(&v, "targetResourceId", 1)) {
        Some(x) => x,
        None => {
            return None;
        },
    };
    let target_resource_location = match json::read_opt_text(
        json::member(&v, "targetResourceLocation", 2),
    ) {
        Some(x) => x,
        None => {
            return None;
        },
    };
    let error = match json::member_value(value, "error", 3) {
        Some(e) => {
            let seen = json::from_value(&e);
            if seen.is_null() {
                None
            } else {
                Some(e)
            }
        },
        None => None,
    };
    Some(TeamsAsyncOperation { status, target_resource_id, target_resource_location, error })
}

/// True of the status of a success, in any case.
pub fn operation_succeeded(status: &str) -> (r: bool)
    ensures
        r == (text::lowered(status@) == text::lowered("succeeded"@)),
{
    text::same_ignoring_case(status, "succeeded")
}

/// True of the status of a failure, in any case. Every other one is still under
/// way.
pub fn operation_failed(status: &str) -> (r: bool)
    ensures
        r == (text::lowered(status@) == text::lowered("failed"@)),
{
    text::same_ignoring_case(status, "failed")
}

/// The team id in the location of a resource: between its first and its last
/// quote, or behind its last slash.
pub open spec fn id_in_location(location: Seq<char>) -> Option<Seq<char>> {
    let loc = text::trimmed(location);
    if loc.len() == 0 {
        None
    } else {
        match (text::first_index(loc, '\''), text::last_index(loc, '\'')) {
            (Some(start), Some(end)) => if end > start + 1 {
                Some(loc.subrange(start + 1, end))
            } else {
                None
            },
            _ => {
                let id = text::trimmed_of(text::trimmed(text::after_last(loc, '/')), "()"@);
                if id.len() == 0 {
                    None
                } else {
                    Some(id)
                }
            },
        }
    }
}

/// The id of the team that an operation made.
pub open spec fn team_id_of(op: TeamsAsyncOperationV) -> Option<Seq<char>> {
    match calendar::unless_blank(op.target_resource_id) {
        Some(id) => Some(text::trimmed(id)),
        None => match op.target_resource_location {
            Some(l) => id_in_location(l),
            None => None,
        },
    }
}

fn location_id(location: &str) -> (r: Option<String>)
    ensures
        text::opt_text(r) == id_in_location(location@),
{
    let loc = text::trim(location);
    if loc.as_str().is_empty() {
        return None;
    }
    let v = text::chars_of(loc.as_str());
    let n: usize = v.len();
    proof {
        text::lemma_index_from(v@, '\'', 0);
        text::lemma_last_index_before(v@, '\'', v@.len() as int);
    }
    match (text::char_index_from(&v, '\'', 0), text::char_last_index(&v, '\'')) {
        (Some(start), Some(end)) => {
            if end > start && end - start > 1 {
                Some(text::text_of(&v, start + 1, end))
            } else {
                None
            }
        },
        _ => {
            let last = text::take_after_last(loc.as_str(), '/');
            let tight = text::trim(last.as_str());
            let id = text::trim_chars(tight.as_str(), "()");
            if id.as_str().is_empty() {
                None
            } else {
                Some(id)
            }
        },
    }
}

/// The id of the team that an operation made: the one it names, else the one in
/// the location that it names.
pub fn operation_team_id(op: &TeamsAsyncOperation) -> (r: Option<String>)
    ensures
        text::opt_text(r) == team_id_of(op@),
{
    if let Some(id) = &op.target_resource_id {
        if !text::is_blank(id.as_str()) {
            return Some(text::trim(id.as_str()));
        }
    }
    match &op.target_resource_location {
        Some(l) => location_id(l.as_str()),
        None => None,
    }
}

/// The address of an operation: absolute ones stay, paths are under Graph.
pub open spec fn operation_address(header: Seq<char>) -> Seq<char> {
    let h = text::trimmed(header);
    if "http://"@.is_prefix_of(h) || "https://"@.is_prefix_of(h) {
        h
    } else {
        "https://graph.microsoft.com/v1.0"@ + h
    }
}

/// The address of the operation that a `Content-Location` header names.
pub fn operation_url(content_location: &str) -> (r: String)
    ensures
        r@ == operation_address(content_location@),
{
    let h = text::trim(content_location);
    if text::starts_with(h.as_str(), "http://") || text::starts_with(h.as_str(), "https://") {
        h
    } else {
        text::join2("https://graph.microsoft.com/v1.0", h.as_str())
    }
}

/// A created team, and what it took.
pub struct TeamCreateResult {
    pub team: TeamInfo,
    pub polls: u32,
    pub elapsed_ms: u64,
}

/// The body that creates a team for a user, its name without white space around
/// it; the error is the text to show.
pub fn create_team_data(name: &str, description: Option<&str>, owner: &str) -> (r: Result<
    Json,
    String,
>)
    ensures
        match r {
            Ok(b) => !text::blank(name@) && b@ == with_description(
                FieldsV::new().text(
                    "template@odata.bind"@,
                    "https://graph.microsoft.com/v1.0/teamsTemplates('standard')"@,
                ).text("displayName"@, text::trimmed(name@)).put(
                    "members"@,
                    JsonV::Arr(
                        Seq::empty().push(add_member_payload(text::trimmed(owner@), true)),
                    ),
                ),
                text::opt_str(description),
            ).obj(),
            Err(e) => text::blank(name@) && e@ == "empty name"@,
        },
{
    if text::is_blank(name) {
        return Err("empty name".to_string());
    }
    let t = text::trim(name);
    Ok(create_team_body(t.as_str(), description, owner))
}

/// What the reply to the creation of a team comes to.
pub enum CreateReply {
    /// The team is there: its reply names it.
    Created,
    /// The operation at this address is to be polled.
    Poll(String),
    /// The text to show.
    Refused(String),
}

/// Says what the reply to the creation of a team comes to, by its status and by
/// its `Content-Location` header.
pub fn after_create(status: u16, content_location: &str) -> (r: CreateReply)
    ensures
        if status != 202 {
            r is Created
        } else if text::blank(content_location@) {
            r matches CreateReply::Refused(e) && e@ == "202 without Content-Location"@
        } else {
            r matches CreateReply::Poll(u) && u@ == operation_address(content_location@)
        },
{
    if status != 202 {
        return CreateReply::Created;
    }
    if text::is_blank(content_location) {
        return CreateReply::Refused("202 without Content-Location".to_string());
    }
    CreateReply::Poll(operation_url(content_location))
}

/// Says whether to poll once more, by the seconds that have passed; the error is
/// the text to show.
pub fn may_poll(elapsed_secs: u64, polls: u32) -> (r: Result<(), String>)
    ensures
        match r {
            Ok(_) => elapsed_secs < 120,
            Err(e) => elapsed_secs >= 120 && e@
                == "team create timed out after 120s ("@ + text::decimal(polls as nat)
                + " polls); the team may still be creating"@,
        },
{
    if elapsed_secs >= TEAM_CREATE_TIMEOUT_SECS {
        let n = text::to_decimal(polls as u64);
        return Err(
            text::join3(
                "team create timed out after 120s (",
                n.as_str(),
                " polls); the team may still be creating",
            ),
        );
    }
    Ok(())
}

/// The id of the team in the bytes of the reply to its creation; the error is the
/// text to show.
pub fn created_team_id(body: &[u8]) -> (r: Result<String, String>)
    ensures
        match r {
            Ok(id) => json::json_bytes(body@) matches Some(v) && team_of(v) matches Some(t)
                && t.id == id@,
            Err(e) => (json::json_bytes(body@) matches Some(v) ==> team_of(v) is None) && e@
                == "Failed to parse created team response"@,
        },
{
    if let Some(v) = json::parse_json_bytes(body) {
        if let Some(t) = read_team(&v) {
            return Ok(t.id);
        }
    }
    Err("Failed to parse created team response".to_string())
}

/// The operation in the bytes of a reply to a poll; the error is the text to show.
pub fn read_operation_reply(body: &[u8]) -> (r: Result<TeamsAsyncOperation, String>)
    ensures
        match r {
            Ok(op) => json::json_bytes(body@) matches Some(v) && teams_async_operation_of(v)
                == Some(op@),
            Err(e) => (json::json_bytes(body@) matches Some(v) ==> teams_async_operation_of(v)
                is None) && e@ == "Failed to parse team operation response"@,
        },
{
    if let Some(v) = json::value_from_bytes(body) {
        if let Some(op) = read_operation(&v) {
            return Ok(op);
        }
    }
    Err("Failed to parse team operation response".to_string())
}

/// The id in a profile; nothing where it has none.
pub open spec fn profile_id(body: Seq<u8>) -> Option<Seq<char>> {
    match json::json_bytes(body) {
        Some(JsonV::Obj(o)) => json::str_of(json::lookup(o, "id"@)),
        _ => None,
    }
}

/// The id of the signed-in user, by the bytes of the profile; the error is the text to
/// show.
pub fn own_id(body: &[u8]) -> (r: Result<String, String>)
    ensures
        match r {
            Ok(id) => profile_id(body@) == Some(id@),
            Err(e) => profile_id(body@) is None && e@ == "profile has no id"@,
        },
{
    match json::parse_json_bytes(body) {
        Some(Json::Obj(o)) => {
            let v = Json::Obj(o);
            match json::as_text(json::member(&v, "id", 0)) {
                Some(id) => Ok(id),
                None => Err("profile has no id".to_string()),
            }
        },
        _ => Err("profile has no id".to_string()),
    }
}

/// What a poll comes to.
pub enum PollOutcome {
    /// The team with this id was made.
    Created(String),
    /// The text to show.
    Failed(String),
    /// The operation is still under way.
    Pending,
}

/// Says what a poll comes to.
pub fn after_poll(op: &TeamsAsyncOperation) -> (r: PollOutcome)
    ensures
        if text::lowered(op.status@) == text::lowered("succeeded"@) {
            match team_id_of(op@) {
                Some(id) => r matches PollOutcome::Created(x) && x@ == id,
                None => r matches PollOutcome::Failed(e) && e@
                    == "operation succeeded without team id"@,
            }
        } else if text::lowered(op.status@) == text::lowered("failed"@) {
            r matches PollOutcome::Failed(e) && e@ == "team create failed: "@ + match op.error {
                Some(x) => json::written_json(json::held_json(x)),
                None => "failed"@,
            }
        } else {
            r is Pending
        },
{
    if operation_succeeded(op.status.as_str()) {
        return match operation_team_id(op) {
            Some(id) => PollOutcome::Created(id),
            None => PollOutcome::Failed("operation succeeded without team id".to_string()),
        };
    }
    if operation_failed(op.status.as_str()) {
        let detail = match &op.error {
            Some(x) => json::value_to_text(x),
            None => "failed".to_string(),
        };
        return PollOutcome::Failed(text::join2("team create failed: ", detail.as_str()));
    }
    PollOutcome::Pending
}

// -- What the commands show --

/// What is shown of a channel.
pub open spec fn channel_shown(x: ChannelInfoV) -> Seq<char> {
    "  "@ + text::filled(x.name, 30) + " "@ + x.id + "\n"@
}

fn show_channel(x: &ChannelInfo) -> (r: String)
    ensures
        r@ == channel_shown(x@),
{
    let mut s = String::new();
    s.append("  ");
    s.append(text::fill(x.name.as_str(), 30).as_str());
    s.append(" ");
    s.append(x.id.as_str());
    s.append("\n");
    proof {
        assert(s@ =~= channel_shown(x@));
    }
    s
}

/// What is shown of a list, entry by entry.
pub open spec fn channels_shown(v: Seq<ChannelInfoV>) -> Seq<char>
    decreases v.len(),
{
    if v.len() == 0 {
        Seq::empty()
    } else {
        channels_shown(v.drop_last()) + channel_shown(v.last())
    }
}

fn show_channels(v: &Vec<ChannelInfo>) -> (r: String)
    ensures
        r@ == channels_shown(channel_info_views(v@)),
{
    let ghost all = channel_info_views(v@);
    let mut s = String::new();
    let mut i: usize = 0;
    proof {
        assert(all.take(0) =~= Seq::empty());
        assert(s@ =~= Seq::empty());
    }
    while i < v.len()
        invariant
            i <= v@.len(),
            all == channel_info_views(v@),
            s@ == channels_shown(all.take(i as int)),
        decreases v@.len() - i,
    {
        proof {
            assert(all.take(i + 1).drop_last() =~= all.take(i as int));
            assert(all.take(i + 1).last() == v@[i as int]@);
        }
        s.append(show_channel(&v[i]).as_str());
        i = i + 1;
    }
    proof {
        assert(all.take(i as int) =~= all);
    }
    s
}

/// What is shown of a team.
pub open spec fn team_shown(x: TeamInfoV) -> Seq<char> {
    "Team: "@ + x.name + " ("@ + text::decimal(x.channels.len()) + " channels)\n"@
        + channels_shown(x.channels) + "\n"@
}

fn show_team(x: &TeamInfo) -> (r: String)
    ensures
        r@ == team_shown(x@),
{
    let mut s = String::new();
    s.append("Team: ");
    s.append(x.name.as_str());
    s.append(" (");
    s.append(text::to_decimal(x.channels.len() as u64).as_str());
    s.append(" channels)\n");
    s.append(show_channels(&x.channels).as_str());
    s.append("\n");
    proof {
        assert(s@ =~= team_shown(x@));
    }
    s
}

/// What is shown of a list, entry by entry.
pub open spec fn teams_shown(v: Seq<TeamInfoV>) -> Seq<char>
    decreases v.len(),
{
    if v.len() == 0 {
        Seq::empty()
    } else {
        teams_shown(v.drop_last()) + team_shown(v.last())
    }
}

fn show_teams(v: &Vec<TeamInfo>) -> (r: String)
    ensures
        r@ == teams_shown(team_info_views(v@)),
{
    let ghost all = team_info_views(v@);
    let mut s = String::new();
    let mut i: usize = 0;
    proof {
        assert(all.take(0) =~= Seq::empty());
        assert(s@ =~= Seq::empty());
    }
    while i < v.len()
        invariant
            i <= v@.len(),
            all == team_info_views(v@),
            s@ == teams_shown(all.take(i as int)),
        decreases v@.len() - i,
    {
        proof {
            assert(all.take(i + 1).drop_last() =~= all.take(i as int));
            assert(all.take(i + 1).last() == v@[i as int]@);
        }
        s.append(show_team(&v[i]).as_str());
        i = i + 1;
    }
    proof {
        assert(all.take(i as int) =~= all);
    }
    s
}

/// The teams of a user, with their channels.
pub fn list_teams(v: &Vec<TeamInfo>) -> (r: String)
    ensures
        r@ == "\nTeams and Channels:\n------------------------------------------------------------\n"@
            + (if v@.len() == 0 {
            "  (no teams found)\n"@
        } else {
            teams_shown(team_info_views(v@))
        }),
{
    let mut s = String::new();
    s.append(
        "\nTeams and Channels:\n------------------------------------------------------------\n",
    );
    if v.len() == 0 {
        s.append("  (no teams found)\n");
    } else {
        s.append(show_teams(v).as_str());
    }
    proof {
        assert(s@ =~= "\nTeams and Channels:\n------------------------------------------------------------\n"@
            + (if v@.len() == 0 {
            "  (no teams found)\n"@
        } else {
            teams_shown(team_info_views(v@))
        }));
    }
    s
}

/// What is shown of a member.
pub open spec fn member_shown(x: TeamMemberInfoV) -> Seq<char> {
    "  "@ + text::filled(x.display_name, 24) + " "@
        + text::filled(if x.is_owner { "owner"@ } else { "member"@ }, 7) + " "@ + x.id + "  "@
        + (match x.email {
            Some(t) => t,
            None => "-"@,
        }) + "\n"@
}

fn show_member(x: &TeamMemberInfo) -> (r: String)
    ensures
        r@ == member_shown(x@),
{
    let mut s = String::new();
    s.append("  ");
    s.append(text::fill(x.display_name.as_str(), 24).as_str());
    s.append(" ");
    s.append(text::fill(if x.is_owner { "owner" } else { "member" }, 7).as_str());
    s.append(" ");
    s.append(x.id.as_str());
    s.append("  ");
    match &x.email {
        Some(t) => {
            s.append(t.as_str());
        },
        None => {
            s.append("-");
        },
    }
    s.append("\n");
    proof {
        assert(s@ =~= member_shown(x@));
    }
    s
}

/// What is shown of a list, entry by entry.
pub open spec fn members_shown(v: Seq<TeamMemberInfoV>) -> Seq<char>
    decreases v.len(),
{
    if v.len() == 0 {
        Seq::empty()
    } else {
        members_shown(v.drop_last()) + member_shown(v.last())
    }
}

/// The members that a list shows: all of them, or the owners.
pub open spec fn members_kept(v: Seq<TeamMemberInfoV>, owners_only: bool) -> Seq<TeamMemberInfoV>
    decreases v.len(),
{
    if v.len() == 0 {
        Seq::empty()
    } else if owners_only && !v.last().is_owner {
        members_kept(v.drop_last(), owners_only)
    } else {
        members_kept(v.drop_last(), owners_only).push(v.last())
    }
}

fn show_members(v: &Vec<TeamMemberInfo>, owners_only: bool) -> (r: (usize, String))
    ensures
        r.0 == members_kept(team_member_info_views(v@), owners_only).len(),
        r.1@ == members_shown(members_kept(team_member_info_views(v@), owners_only)),
{
    let ghost all = team_member_info_views(v@);
    let mut s = String::new();
    let mut n: usize = 0;
    let mut i: usize = 0;
    proof {
        assert(all.take(0) =~= Seq::empty());
        assert(s@ =~= Seq::empty());
    }
    while i < v.len()
        invariant
            n <= i <= v@.len(),
            all == team_member_info_views(v@),
            n == members_kept(all.take(i as int), owners_only).len(),
            s@ == members_shown(members_kept(all.take(i as int), owners_only)),
        decreases v@.len() - i,
    {
        proof {
            assert(all.take(i + 1).drop_last() =~= all.take(i as int));
            assert(all.take(i + 1).last() == v@[i as int]@);
        }
        if !owners_only || v[i].is_owner {
            let ghost kept = members_kept(all.take(i as int), owners_only);
            s.append(show_member(&v[i]).as_str());
            n = n + 1;
            proof {
                assert(kept.push(v@[i as int]@).drop_last() =~= kept);
            }
        }
        i = i + 1;
    }
    proof {
        assert(all.take(i as int) =~= all);
    }
    (n, s)
}

/// The members of a team: all of them, or the owners. The header names how many
/// members there are in all.
pub open spec fn members_list(
    team_id: Seq<char>,
    members: Seq<TeamMemberInfoV>,
    owners_only: bool,
) -> Seq<char> {
    let kept = members_kept(members, owners_only);
    "\nTeam "@ + text::trimmed(team_id) + " members ("@ + text::decimal(members.len()) + (
    if owners_only {
        " owners"@
    } else {
        Seq::empty()
    }) + "):\n------------------------------------------------------------\n"@
        + (if kept.len() == 0 {
        "  (none)\n"@
    } else {
        members_shown(kept)
    })
}

/// The members of a team that are shown.
pub fn list_team_members(
    team_id: &str,
    members: &Vec<TeamMemberInfo>,
    owners_only: bool,
) -> (r: String)
    ensures
        r@ == members_list(team_id@, team_member_info_views(members@), owners_only),
{
    let mut s = "\nTeam ".to_string();
    s.append(text::trim(team_id).as_str());
    s.append(" members (");
    s.append(text::to_decimal(members.len() as u64).as_str());
    if owners_only {
        s.append(" owners");
    }
    s.append("):\n------------------------------------------------------------\n");
    let (n, rows) = show_members(members, owners_only);
    if n == 0 {
        s.append("  (none)\n");
    } else {
        s.append(rows.as_str());
    }
    proof {
        assert(s@ =~= members_list(team_id@, team_member_info_views(members@), owners_only));
    }
    s
}

// -- What is read --

/// What is read of a [`Team`] stands in the members of these names, and it is read
/// where they hold what they should.
pub proof fn law_team_reads_its_members(v: JsonV)
    requires
        v is Obj,
    ensures
        match team_of(v) {
            Some(x) => {
                &&& json::str_of(json::get_of(v, "id"@)) == Some(x.id)
                &&& x.display_name == json::str_of(json::get_of(v, "displayName"@))
            },
            None => !(json::str_of(json::get_of(v, "id"@)) is Some
                && json::opt_text_member(json::get_of(v, "displayName"@)) is Some),
        },
{
}

// The entries of a list, in their order.
proof fn lemma_team_list_entries(a: Seq<JsonV>)
    ensures
        team_list(a) matches Some(l) ==> l.len() == a.len() && forall|i: int|
            0 <= i < a.len() ==> team_of(a[i]) == Some(#[trigger] l[i]),
    decreases a.len(),
{
    if a.len() > 0 {
        lemma_team_list_entries(a.drop_last());
        if let Some(l) = team_list(a) {
            assert forall|i: int| 0 <= i < a.len() implies team_of(a[i])
                == Some(#[trigger] l[i]) by {
                if i < a.len() - 1 {
                    let before = team_list(a.drop_last())->0;
                    assert(l[i] == before[i]);
                    assert(a.drop_last()[i] == a[i]);
                }
            }
        }
    }
}

/// What is read of a [`TeamsResponse`] stands in the members of these names, and it is read
/// where they hold what they should.
pub proof fn law_teams_response_reads_its_members(v: JsonV)
    requires
        v is Obj,
    ensures
        match teams_response_of(v) {
            Some(x) => {
                &&& (json::arr_of(json::get_of(v, "value"@)) matches Some(a)
                    && x.value.len() == a.len() && forall|i: int| 0 <= i < a.len()
                    ==> team_of(a[i]) == Some(#[trigger] x.value[i]))
            },
            None => !(team_list_member(json::get_of(v, "value"@)) is Some),
        },
{
    if let Some(JsonV::Arr(a)) = json::get_of(v, "value"@) {
        lemma_team_list_entries(a);
    }
}

/// What is read of a [`Channel`] stands in the members of these names, and it is read
/// where they hold what they should.
pub proof fn law_channel_reads_its_members(v: JsonV)
    requires
        v is Obj,
    ensures
        match channel_of(v) {
            Some(x) => {
                &&& json::str_of(json::get_of(v, "id"@)) == Some(x.id)
                &&& x.display_name == json::str_of(json::get_of(v, "displayName"@))
                &&& x.description == json::str_of(json::get_of(v, "description"@))
                &&& x.membership_type == json::str_of(json::get_of(v, "membershipType"@))
                &&& x.web_url == json::str_of(json::get_of(v, "webUrl"@))
            },
            None => !(json::str_of(json::get_of(v, "id"@)) is Some
                && json::opt_text_member(json::get_of(v, "displayName"@)) is Some
                && json::opt_text_member(json::get_of(v, "description"@)) is Some
                && json::opt_text_member(json::get_of(v, "membershipType"@)) is Some
                && json::opt_text_member(json::get_of(v, "webUrl"@)) is Some),
        },
{
}

// The entries of a list, in their order.
proof fn lemma_channel_list_entries(a: Seq<JsonV>)
    ensures
        channel_list(a) matches Some(l) ==> l.len() == a.len() && forall|i: int|
            0 <= i < a.len() ==> channel_of(a[i]) == Some(#[trigger] l[i]),
    decreases a.len(),
{
    if a.len() > 0 {
        lemma_channel_list_entries(a.drop_last());
        if let Some(l) = channel_list(a) {
            assert forall|i: int| 0 <= i < a.len() implies channel_of(a[i])
                == Some(#[trigger] l[i]) by {
                if i < a.len() - 1 {
                    let before = channel_list(a.drop_last())->0;
                    assert(l[i] == before[i]);
                    assert(a.drop_last()[i] == a[i]);
                }
            }
        }
    }
}

/// What is read of a [`ChannelsResponse`] stands in the members of these names, and it is read
/// where they hold what they should.
pub proof fn law_channels_response_reads_its_members(v: JsonV)
    requires
        v is Obj,
    ensures
        match channels_response_of(v) {
            Some(x) => {
                &&& (json::arr_of(json::get_of(v, "value"@)) matches Some(a)
                    && x.value.len() == a.len() && forall|i: int| 0 <= i < a.len()
                    ==> channel_of(a[i]) == Some(#[trigger] x.value[i]))
            },
            None => !(channel_list_member(json::get_of(v, "value"@)) is Some),
        },
{
    if let Some(JsonV::Arr(a)) = json::get_of(v, "value"@) {
        lemma_channel_list_entries(a);
    }
}

/// What is read of a [`Member`] stands in the members of these names, and it is read
/// where they hold what they should.
pub proof fn law_member_reads_its_members(v: JsonV)
    requires
        v is Obj,
    ensures
        match member_of(v) {
            Some(x) => {
                &&& json::str_of(json::get_of(v, "id"@)) == Some(x.id)
                &&& x.display_name == json::str_of(json::get_of(v, "displayName"@))
                &&& x.user_id == json::str_of(json::get_of(v, "userId"@))
                &&& x.email == json::str_of(json::get_of(v, "email"@))
                &&& json::texts_default(json::get_of(v, "roles"@)) == Some(x.roles)
            },
            None => !(json::str_of(json::get_of(v, "id"@)) is Some
                && json::opt_text_member(json::get_of(v, "displayName"@)) is Some
                && json::opt_text_member(json::get_of(v, "userId"@)) is Some
                && json::opt_text_member(json::get_of(v, "email"@)) is Some
                && json::texts_default(json::get_of(v, "roles"@)) is Some),
        },
{
}

// The entries of a list, in their order.
proof fn lemma_member_list_entries(a: Seq<JsonV>)
    ensures
        member_list(a) matches Some(l) ==> l.len() == a.len() && forall|i: int|
            0 <= i < a.len() ==> member_of(a[i]) == Some(#[trigger] l[i]),
    decreases a.len(),
{
    if a.len() > 0 {
        lemma_member_list_entries(a.drop_last());
        if let Some(l) = member_list(a) {
            assert forall|i: int| 0 <= i < a.len() implies member_of(a[i])
                == Some(#[trigger] l[i]) by {
                if i < a.len() - 1 {
                    let before = member_list(a.drop_last())->0;
                    assert(l[i] == before[i]);
                    assert(a.drop_last()[i] == a[i]);
                }
            }
        }
    }
}

/// What is read of a [`MembersResponse`] stands in the members of these names, and it is read
/// where they hold what they should.
pub proof fn law_members_response_reads_its_members(v: JsonV)
    requires
        v is Obj,
    ensures
        match members_response_of(v) {
            Some(x) => {
                &&& (json::arr_of(json::get_of(v, "value"@)) matches Some(a)
                    && x.value.len() == a.len() && forall|i: int| 0 <= i < a.len()
                    ==> member_of(a[i]) == Some(#[trigger] x.value[i]))
            },
            None => !(member_list_member(json::get_of(v, "value"@)) is Some),
        },
{
    if let Some(JsonV::Arr(a)) = json::get_of(v, "value"@) {
        lemma_member_list_entries(a);
    }
}

/// What is read of a [`TeamsAsyncOperation`] stands in the members of these names, and it is read
/// where they hold what they should.
pub proof fn law_teams_async_operation_reads_its_members(v: JsonV)
    requires
        v is Obj,
    ensures
        match teams_async_operation_of(v) {
            Some(x) => {
                &&& json::str_of(json::get_of(v, "status"@)) == Some(x.status)
                &&& x.target_resource_id == json::str_of(json::get_of(v, "targetResourceId"@))
                &&& x.target_resource_location
                    == json::str_of(json::get_of(v, "targetResourceLocation"@))
                &&& x.error == if json::get_of(v, "error"@)
                    == Some(JsonV::Null) { None } else { json::get_of(v, "error"@) }
            },
            None => !(json::str_of(json::get_of(v, "status"@)) is Some
                && json::opt_text_member(json::get_of(v, "targetResourceId"@)) is Some
                && json::opt_text_member(json::get_of(v, "targetResourceLocation"@)) is Some),
        },
{
}

// -- What is listed and sent --

/// A channel goes by its own name, else by its id, and everything else of it stays.
pub proof fn law_channels_are_listed_as_they_came(v: Seq<ChannelV>, i: int)
    requires
        0 <= i < v.len(),
    ensures
        channel_rows(v).len() == v.len(),
        channel_rows(v)[i].id == v[i].id,
        v[i].display_name matches Some(n) ==> channel_rows(v)[i].name == n,
        v[i].display_name is None ==> channel_rows(v)[i].name == v[i].id,
        channel_rows(v)[i].description == v[i].description,
        channel_rows(v)[i].membership_type == v[i].membership_type,
        channel_rows(v)[i].web_url == v[i].web_url,
{
}

/// A member goes by their own name, else by the id, and is an owner where their roles say
/// so.
pub proof fn law_members_are_listed_as_they_came(v: Seq<MemberV>, i: int)
    requires
        0 <= i < v.len(),
    ensures
        member_rows(v).len() == v.len(),
        member_rows(v)[i].id == v[i].id,
        v[i].display_name matches Some(n) ==> member_rows(v)[i].display_name == n,
        v[i].display_name is None ==> member_rows(v)[i].display_name == v[i].id,
        member_rows(v)[i].user_id == v[i].user_id,
        member_rows(v)[i].email == v[i].email,
        member_rows(v)[i].roles == v[i].roles,
        member_rows(v)[i].is_owner <==> exists|k: int|
            0 <= k < v[i].roles.len() && #[trigger] v[i].roles[k] == "owner"@,
{
}

/// A team stands with the channels that were told of it, and with none where none could
/// be had; an answer that does not read makes the whole list unreadable.
pub proof fn law_team_has_its_channels(team: TeamV, body: Seq<u8>, v: JsonV, l: Seq<ChannelInfoV>)
    ensures
        team_row(team, None) matches Some(x) && x.id == team.id && x.channels.len() == 0,
        json::json_bytes(body) == Some(v) && channels_of(v) == Some(l) ==> (team_row(
            team,
            Some(body),
        ) matches Some(x) && x.id == team.id && x.channels == l),
        json::json_bytes(body) is None ==> team_row(team, Some(body)) is None,
        team.display_name matches Some(n) ==> team_row(team, None)->0.name == n,
        team.display_name is None ==> team_row(team, None)->0.name == team.id,
{
}

/// The teams stand in the order in which they came, each with the reply of its own place.
pub proof fn law_teams_by_place(items: Seq<TeamV>, replies: Seq<Option<Seq<u8>>>)
    ensures
        teams_with_channels(items, replies) matches Some(l) ==> l.len() == items.len() && forall|
            i: int,
        |
            0 <= i < items.len() ==> Some(#[trigger] l[i]) == team_row(items[i], replies[i]),
        teams_with_channels(items, replies) is None ==> exists|i: int|
            0 <= i < items.len() && #[trigger] team_row(items[i], replies[i]) is None,
    decreases items.len(),
{
    if items.len() > 0 {
        let t = items.drop_last();
        let n = items.len() - 1;
        law_teams_by_place(t, replies);
        if let Some(l) = teams_with_channels(items, replies) {
            assert forall|i: int| 0 <= i < items.len() implies Some(#[trigger] l[i]) == team_row(
                items[i],
                replies[i],
            ) by {
                if i < n {
                    assert(t[i] == items[i]);
                    assert(l[i] == teams_with_channels(t, replies)->0[i]);
                }
            }
        } else if teams_with_channels(t, replies) is None {
            let i = choose|i: int|
                0 <= i < t.len() && #[trigger] team_row(t[i], replies[i]) is None;
            assert(team_row(items[i], replies[i]) is None);
        } else {
            assert(team_row(items[n], replies[n]) is None);
        }
    }
}

/// The team of a channel is the first that holds it; where none does, the error names the
/// channel.
pub proof fn law_team_of_a_channel_holds_it(teams: Seq<TeamInfoV>, channel_id: Seq<char>, i: int)
    requires
        0 <= i < teams.len(),
        has_channel(teams[i], channel_id),
        forall|j: int| 0 <= j < i ==> !has_channel(#[trigger] teams[j], channel_id),
    ensures
        team_of_channel(teams, channel_id) == Ok::<Seq<char>, Seq<char>>(teams[i].id),
        team_of_channel(Seq::empty(), channel_id) == Err::<Seq<char>, Seq<char>>(
            "No joined team contains channel "@ + channel_id,
        ),
{
    lemma_team_from(teams, channel_id, 0, i);
}

proof fn lemma_team_from(teams: Seq<TeamInfoV>, channel_id: Seq<char>, from: int, i: int)
    requires
        0 <= from <= i < teams.len(),
        has_channel(teams[i], channel_id),
        forall|j: int| 0 <= j < i ==> !has_channel(#[trigger] teams[j], channel_id),
    ensures
        team_from(teams, channel_id, from) == Some(teams[i].id),
    decreases i - from,
{
    if from < i {
        lemma_team_from(teams, channel_id, from + 1, i);
    }
}

/// A team that was made goes by the name that it was given, else by the one that was asked
/// for.
pub proof fn law_made_team_has_its_name(
    reply: Seq<u8>,
    v: JsonV,
    t: TeamV,
    channels_reply: Option<Seq<u8>>,
    name: Seq<char>,
)
    requires
        json::json_bytes(reply) == Some(v),
        team_of(v) == Some(t),
    ensures
        created_team(reply, channels_reply, name) matches Some(x) && x.id == t.id,
        t.display_name is None ==> created_team(reply, channels_reply, name)->0.name
            == text::trimmed(name),
        t.display_name matches Some(n) ==> (!text::blank(n) ==> created_team(
            reply,
            channels_reply,
            name,
        )->0.name == n),
        channels_reply is None ==> created_team(reply, channels_reply, name)->0.channels.len() == 0,
{
}

/// A team may be joined by an id that is not blank and could not leave its place in a
/// path.
pub proof fn law_joinable_teams(team_id: Seq<char>)
    ensures
        join_error(team_id) is None <==> !text::blank(team_id) && !text::trimmed(
            team_id,
        ).contains('/') && !text::trimmed(team_id).contains('?') && !text::trimmed(
            team_id,
        ).contains('#'),
        text::blank(team_id) ==> join_error(team_id) == Some("empty team_id"@),
{
    text::lemma_trimmed_empty(team_id);
}

/// A member is added where the team's id may stand in a path and somebody is named; a
/// channel is made where it has a name.
pub proof fn law_what_adding_needs(team_id: Seq<char>, name: Seq<char>)
    ensures
        add_member_error(team_id, name) is None <==> web::id_error("team_id"@, team_id) is None
            && !text::blank(name),
        create_channel_error(team_id, name) is None <==> web::id_error("team_id"@, team_id) is None
            && !text::blank(name),
        web::id_error("team_id"@, team_id) is Some ==> add_member_error(team_id, name)
            == web::id_error("team_id"@, team_id) && create_channel_error(team_id, name)
            == web::id_error("team_id"@, team_id),
        web::id_error("team_id"@, team_id) is None && text::blank(name) ==> add_member_error(
            team_id,
            name,
        ) == Some("empty user"@) && create_channel_error(team_id, name) == Some("empty name"@),
{
}

/// A reaction is sent where every id may stand in a path and the emoji is one that is
/// supported; the first that is wrong is told.
pub proof fn law_what_a_reaction_needs(
    team_id: Seq<char>,
    channel_id: Seq<char>,
    message_id: Seq<char>,
    emoji: Seq<char>,
    supported: bool,
    reply_id: Option<Seq<char>>,
)
    ensures
        reaction_error(team_id, channel_id, message_id, emoji, supported, reply_id) is None <==> {
            &&& web::id_error("team_id"@, team_id) is None
            &&& web::id_error("channel_id"@, channel_id) is None
            &&& web::id_error("message_id"@, message_id) is None
            &&& supported
            &&& reply_id matches Some(r) ==> web::id_error("reply_id"@, r) is None
        },
        web::id_error("team_id"@, team_id) is None && web::id_error("channel_id"@, channel_id)
            is None && web::id_error("message_id"@, message_id) is None && !supported
            ==> reaction_error(team_id, channel_id, message_id, emoji, supported, reply_id) == Some(
            "unsupported reaction emoji: "@ + emoji,
        ),
{
}

/// A reaction goes to the message of its channel, or to the reply below it.
pub proof fn law_reaction_goes_to_its_message(
    team_id: Seq<char>,
    channel_id: Seq<char>,
    message_id: Seq<char>,
    reply_id: Seq<char>,
    action: Seq<char>,
)
    ensures
        reaction_path(team_id, channel_id, message_id, None, action) == "/teams/"@ + text::trimmed(
            team_id,
        ) + "/channels/"@ + text::trimmed(channel_id) + "/messages/"@ + text::trimmed(message_id)
            + action,
        reaction_path(team_id, channel_id, message_id, Some(reply_id), action) == "/teams/"@
            + text::trimmed(team_id) + "/channels/"@ + text::trimmed(channel_id) + "/messages/"@
            + text::trimmed(message_id) + "/replies/"@ + text::trimmed(reply_id) + action,
{
}

/// The id in a location stands between quotes.
pub proof fn law_id_stands_between_quotes(head: Seq<char>, id: Seq<char>, tail: Seq<char>)
    requires
        id.len() > 0,
        !head.contains('\''),
        !tail.contains('\''),
        text::trimmed(head + "'"@ + id + "'"@ + tail) == head + "'"@ + id + "'"@ + tail,
    ensures
        id_in_location(head + "'"@ + id + "'"@ + tail) == Some(id),
{
    assert("'"@.len() == 1 && "'"@[0] == '\'') by {
        reveal_strlit("'");
    }
    let s = head + "'"@ + id + "'"@ + tail;
    let a = head.len() as int;
    let b = a + 1 + id.len();
    text::lemma_index_from(s, '\'', 0);
    text::lemma_last_index_before(s, '\'', s.len() as int);
    assert(s[a] == '\'' && s[b] == '\'');
    assert forall|j: int| 0 <= j < a implies #[trigger] s[j] != '\'' by {
        assert(s[j] == head[j]);
        assert(head.contains(head[j]));
    }
    assert forall|j: int| b < j < s.len() implies #[trigger] s[j] != '\'' by {
        assert(s[j] == tail[j - b - 1]);
        assert(tail.contains(tail[j - b - 1]));
    }
    assert(s.subrange(a + 1, b) =~= id);
}

/// The team of a finished operation is the one that it names, else the one in its
/// location.
pub proof fn law_operation_names_its_team(op: TeamsAsyncOperationV, location: Seq<char>)
    ensures
        op.target_resource_id matches Some(id) ==> (!text::blank(id) ==> team_id_of(op) == Some(
            text::trimmed(id),
        )),
        op.target_resource_id is None && op.target_resource_location == Some(location)
            ==> team_id_of(op) == id_in_location(location),
        op.target_resource_id is None && op.target_resource_location is None ==> team_id_of(op)
            is None,
{
    if let Some(id) = op.target_resource_id {
        text::lemma_trimmed_ends(id);
    }
}

/// An operation is asked about at its own address; one that is only a path is one of the
/// service.
pub proof fn law_operation_address(header: Seq<char>)
    ensures
        "http://"@.is_prefix_of(text::trimmed(header)) || "https://"@.is_prefix_of(
            text::trimmed(header),
        ) ==> operation_address(header) == text::trimmed(header),
        !"http://"@.is_prefix_of(text::trimmed(header)) && !"https://"@.is_prefix_of(
            text::trimmed(header),
        ) ==> operation_address(header) == "https://graph.microsoft.com/v1.0"@ + text::trimmed(
            header,
        ),
{
}

/// Where only owners are wanted, owners are kept and nobody else; else everybody is.
pub proof fn law_owners_are_kept(v: Seq<TeamMemberInfoV>, x: TeamMemberInfoV, owners_only: bool)
    ensures
        members_kept(v.push(x), owners_only) == if owners_only && !x.is_owner {
            members_kept(v, owners_only)
        } else {
            members_kept(v, owners_only).push(x)
        },
        members_kept(v, false) == v,
        forall|i: int| 0 <= i < members_kept(v, true).len()
            ==> (#[trigger] members_kept(v, true)[i]).is_owner,
    decreases v.len(),
{
    assert(v.push(x).drop_last() =~= v);
    if v.len() > 0 {
        law_owners_are_kept(v.drop_last(), v.last(), owners_only);
        assert(v.drop_last().push(v.last()) =~= v);
    } else {
        assert(members_kept(v, false) =~= v);
    }
}

/// Channels are shown one after the other, in the order of the list.
pub proof fn law_channels_are_shown_in_order(a: Seq<ChannelInfoV>, b: Seq<ChannelInfoV>)
    ensures
        channels_shown(a + b) == channels_shown(a) + channels_shown(b),
    decreases b.len(),
{
    if b.len() == 0 {
        assert(a + b =~= a);
        assert(channels_shown(a) + channels_shown(b) =~= channels_shown(a));
    } else {
        law_channels_are_shown_in_order(a, b.drop_last());
        assert((a + b).drop_last() =~= a + b.drop_last());
        assert((a + b).last() == b.last());
        assert(channels_shown(a + b) =~= channels_shown(a) + channels_shown(b));
    }
}

/// Teams are shown one after the other, in the order of the list.
pub proof fn law_teams_are_shown_in_order(a: Seq<TeamInfoV>, b: Seq<TeamInfoV>)
    ensures
        teams_shown(a + b) == teams_shown(a) + teams_shown(b),
    decreases b.len(),
{
    if b.len() == 0 {
        assert(a + b =~= a);
        assert(teams_shown(a) + teams_shown(b) =~= teams_shown(a));
    } else {
        law_teams_are_shown_in_order(a, b.drop_last());
        assert((a + b).drop_last() =~= a + b.drop_last());
        assert((a + b).last() == b.last());
        assert(teams_shown(a + b) =~= teams_shown(a) + teams_shown(b));
    }
}

/// Members are shown one after the other, in the order of the list.
pub proof fn law_members_are_shown_in_order(a: Seq<TeamMemberInfoV>, b: Seq<TeamMemberInfoV>)
    ensures
        members_shown(a + b) == members_shown(a) + members_shown(b),
    decreases b.len(),
{
    if b.len() == 0 {
        assert(a + b =~= a);
        assert(members_shown(a) + members_shown(b) =~= members_shown(a));
    } else {
        law_members_are_shown_in_order(a, b.drop_last());
        assert((a + b).drop_last() =~= a + b.drop_last());
        assert((a + b).last() == b.last());
        assert(members_shown(a + b) =~= members_shown(a) + members_shown(b));
    }
}

/// The member that is added is the user that was named, as an owner only where that was
/// asked for.
pub proof fn law_added_member_is_the_user(user: Seq<char>, owner: bool)
    ensures
        ({
            let b = add_member_payload(user, owner);
            &&& json::str_of(json::get_of(b, "@odata.type"@))
                == Some("#microsoft.graph.aadUserConversationMember"@)
            &&& json::str_of(json::get_of(b, "user@odata.bind"@))
                == Some("https://graph.microsoft.com/v1.0/users('"@ + user + "')"@)
            &&& owner ==> json::arr_of(json::get_of(b, "roles"@))
                == Some(Seq::empty().push(JsonV::Str("owner"@)))
            &&& !owner ==> json::arr_of(json::get_of(b, "roles"@)) == Some(Seq::<JsonV>::empty())
        }),
{
    broadcast use json::group_members;

    assert("@odata.type"@.len() == 11) by {
        reveal_strlit("@odata.type");
    }
    assert("roles"@.len() == 5) by {
        reveal_strlit("roles");
    }
    assert("user@odata.bind"@.len() == 15) by {
        reveal_strlit("user@odata.bind");
    }
}

/// A description is added where one was given that is not blank.
pub proof fn law_description_is_added_where_given(f: FieldsV, d: Seq<char>)
    requires
        json::get_of(f.obj(), "description"@) is None,
    ensures
        ({
            let b = with_description(f, Some(d)).obj();
            &&& !text::blank(d) ==> json::str_of(json::get_of(b, "description"@)) == Some(d)
            &&& text::blank(d) ==> json::get_of(b, "description"@) is None
            &&& json::get_of(with_description(f, None).obj(), "description"@) is None
        }),
{
    broadcast use json::group_members;

}

/// The lists that are shown are those of the answers that were read.
pub proof fn law_lists_of_teams_are_read(v: JsonV)
    ensures
        channels_of(v) is Some <==> channels_response_of(v) is Some,
        channels_of(v) matches Some(l)
            ==> (channels_response_of(v) matches Some(x) && l == channel_rows(x.value)),
        members_of(v) is Some <==> members_response_of(v) is Some,
        members_of(v) matches Some(l)
            ==> (members_response_of(v) matches Some(x) && l == member_rows(x.value)),
        created_channel_of(v) is Some <==> channel_of(v) is Some,
        created_channel_of(v) matches Some(l)
            ==> (channel_of(v) matches Some(x) && l == channel_row(x)),
        added_member_of(v) is Some <==> member_of(v) is Some,
        added_member_of(v) matches Some(l) ==> (member_of(v) matches Some(x) && l == member_row(x)),
{
}

/// A member is shown by name, as an owner or not, and a team with the number of its
/// channels.
pub proof fn law_lines_of_teams(x: TeamMemberInfoV, t: TeamInfoV, c: ChannelInfoV)
    ensures
        x.is_owner ==> ("  "@ + text::filled(x.display_name, 24) + " "@ + text::filled("owner"@, 7)
            + " "@ + x.id).is_prefix_of(member_shown(x)),
        !x.is_owner ==> ("  "@ + text::filled(x.display_name, 24) + " "@ + text::filled(
            "member"@,
            7,
        ) + " "@ + x.id).is_prefix_of(member_shown(x)),
        ("Team: "@ + t.name + " ("@ + text::decimal(t.channels.len()) + " channels)\n"@
            + channels_shown(t.channels)).is_prefix_of(team_shown(t)),
        channel_shown(c) == "  "@ + text::filled(c.name, 30) + " "@ + c.id + "\n"@,
{
    let role = if x.is_owner {
        "owner"@
    } else {
        "member"@
    };
    let p = "  "@ + text::filled(x.display_name, 24) + " "@ + text::filled(role, 7) + " "@ + x.id;
    let m = member_shown(x);
    assert(m.subrange(0, p.len() as int) =~= p);
    let q = "Team: "@ + t.name + " ("@ + text::decimal(t.channels.len()) + " channels)\n"@
        + channels_shown(t.channels);
    assert(team_shown(t).subrange(0, q.len() as int) =~= q);
}

/// A profile names its id.
pub proof fn law_profile_names_its_id(body: Seq<u8>, v: JsonV)
    requires
        json::json_bytes(body) == Some(v),
    ensures
        profile_id(body) == json::str_of(json::get_of(v, "id"@)),
{
}

/// A list of members is headed by its team and by how many there are, and shows those that
/// are wanted.
pub proof fn law_member_list_is_headed_by_its_team(
    team_id: Seq<char>,
    members: Seq<TeamMemberInfoV>,
    owners_only: bool,
)
    ensures
        ("\nTeam "@ + text::trimmed(team_id) + " members ("@ + text::decimal(
            members.len(),
        )).is_prefix_of(members_list(team_id, members, owners_only)),
        members_kept(members, owners_only).len() > 0 ==> members_shown(
            members_kept(members, owners_only),
        ).is_suffix_of(members_list(team_id, members, owners_only)),
        members_kept(members, owners_only).len() == 0 ==> ("  (none)\n"@).is_suffix_of(
            members_list(team_id, members, owners_only),
        ),
{
    let s = members_list(team_id, members, owners_only);
    let p = "\nTeam "@ + text::trimmed(team_id) + " members ("@ + text::decimal(members.len());
    let kept = members_kept(members, owners_only);
    let t = if kept.len() == 0 {
        "  (none)\n"@
    } else {
        members_shown(kept)
    };
    assert(s.subrange(0, p.len() as int) =~= p);
    assert(s.subrange(s.len() - t.len(), s.len() as int) =~= t);
}

/// A location without quotes ends in the id.
pub proof fn law_id_ends_its_location(head: Seq<char>, id: Seq<char>)
    requires
        id.len() > 0,
        forall|i: int|
            0 <= i < id.len() ==> #[trigger] id[i] != '/' && id[i] != '\'' && id[i] != '(' && id[i]
                != ')' && !text::is_space(id[i]),
        !head.contains('\''),
        head.len() == 0 || !text::is_space(head[0]),
    ensures
        id_in_location(head + "/"@ + id) == Some(id),
{
    assert("/"@.len() == 1 && "/"@[0] == '/') by {
        reveal_strlit("/");
    }
    let set = "()"@;
    assert(set.len() == 2 && set[0] == '(' && set[1] == ')') by {
        reveal_strlit("()");
    }
    let s = head + "/"@ + id;
    assert(!text::is_space(s[0]));
    assert(s.last() == id[id.len() - 1]);
    text::lemma_trimmed_tight(s);
    text::lemma_index_from(s, '\'', 0);
    text::lemma_last_index_before(s, '\'', s.len() as int);
    assert forall|j: int| 0 <= j < s.len() implies #[trigger] s[j] != '\'' by {
        if j < head.len() {
            assert(s[j] == head[j]);
            assert(head.contains(head[j]));
        } else if j > head.len() {
            assert(s[j] == id[j - head.len() - 1]);
        }
    }
    assert(!id.contains('/')) by {
        if id.contains('/') {
            let k = choose|k: int| 0 <= k < id.len() && id[k] == '/';
            assert(id[k] != '/');
        }
    }
    assert(s =~= head + Seq::empty().push('/') + id);
    text::law_parts_at_a_character(head, id, '/');
    assert(!text::is_space(id[0]) && !text::is_space(id[id.len() - 1]));
    text::lemma_trimmed_tight(id);
    assert(!set.contains(id[0]) && !set.contains(id[id.len() - 1])) by {
        assert(id[0] != '(' && id[0] != ')');
        assert(id[id.len() - 1] != '(' && id[id.len() - 1] != ')');
    }
}

} // verus!
