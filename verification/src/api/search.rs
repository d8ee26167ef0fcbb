//! A search for messages.
use crate::api::calendar;
use crate::api::teams;
use crate::json;
use crate::json::{Fields, FieldsV, Items, Json, JsonV};
use crate::text;
use vstd::prelude::*;

verus! {

/// A name and an address.
pub struct Email {
    pub name: Option<String>,
    pub address: Option<String>,
}

/// The model of [`Email`].
pub struct EmailV {
    pub name: Option<Seq<char>>,
    pub address: Option<Seq<char>>,
}

impl View for Email {
    type V = EmailV;

    open spec fn view(&self) -> EmailV {
        EmailV {
            name: text::opt_text(self.name),
            address: text::opt_text(self.address),
        }
    }
}

/// An optional [`Email`] by its model.
pub open spec fn opt_email(o: Option<Email>) -> Option<EmailV> {
    match o {
        Some(x) => Some(x@),
        None => None,
    }
}

/// How a JSON value reads as a [`Email`]; nothing where it does not.
pub open spec fn email_of(v: JsonV) -> Option<EmailV> {
    if !json::record_form(v, 0, 2) {
        None
    } else {
        match (
            json::opt_text_member(json::member_of(v, "name"@, 0)),
            json::opt_text_member(json::member_of(v, "address"@, 1)),
        ) {
            (Some(name), Some(address)) => Some(EmailV { name, address }),
            _ => None,
        }
    }
}

/// Reads a [`Email`].
pub fn read_email(v: &Json) -> (r: Option<Email>)
    ensures
        match r {
            Some(x) => email_of(v@) == Some(x@),
            None => email_of(v@) is None,
        },
{
    if !json::has_record_form(v, 0, 2) {
        return None;
    }
    let name = match json::read_opt_text(json::member(v, "name", 0)) {
        Some(x) => x,
        None => {
            return None;
        },
    };
    let address = match json::read_opt_text(json::member(v, "address", 1)) {
        Some(x) => x,
        None => {
            return None;
        },
    };
    Some(Email { name, address })
}

/// How an optional member reads as a [`Email`].
pub open spec fn opt_email_member(m: Option<JsonV>) -> Option<Option<EmailV>> {
    match m {
        None => Some(None),
        Some(JsonV::Null) => Some(None),
        Some(j) => match email_of(j) {
            Some(x) => Some(Some(x)),
            None => None,
        },
    }
}

fn read_opt_email(m: Option<&Json>) -> (r: Option<Option<Email>>)
    ensures
        match r {
            Some(o) => opt_email_member(json::opt_json(m)) == Some(opt_email(o)),
            None => opt_email_member(json::opt_json(m)) is None,
        },
{
    match m {
        None => Some(None),
        Some(j) => if j.is_null() {
            Some(None)
        } else {
            match read_email(j) {
                Some(x) => Some(Some(x)),
                None => None,
            }
        },
    }
}
/// Who sent a message.
pub struct Sender {
    pub email: Option<Email>,
}

/// The model of [`Sender`].
pub struct SenderV {
    pub email: Option<EmailV>,
}

impl View for Sender {
    type V = SenderV;

    open spec fn view(&self) -> SenderV {
        SenderV {
            email: opt_email(self.email),
        }
    }
}

/// An optional [`Sender`] by its model.
pub open spec fn opt_sender(o: Option<Sender>) -> Option<SenderV> {
    match o {
        Some(x) => Some(x@),
        None => None,
    }
}

/// How a JSON value reads as a [`Sender`]; nothing where it does not.
pub open spec fn sender_of(v: JsonV) -> Option<SenderV> {
    if !json::record_form(v, 0, 1) {
        None
    } else {
        match opt_email_member(json::member_of(v, "emailAddress"@, 0)) {
            Some(email) => Some(SenderV { email }),
            None => None,
        }
    }
}

/// Reads a [`Sender`].
pub fn read_sender(v: &Json) -> (r: Option<Sender>)
    ensures
        match r {
            Some(x) => sender_of(v@) == Some(x@),
            None => sender_of(v@) is None,
        },
{
    if !json::has_record_form(v, 0, 1) {
        return None;
    }
    let email = match read_opt_email(json::member(v, "emailAddress", 0)) {
        Some(x) => x,
        None => {
            return None;
        },
    };
    Some(Sender { email })
}

/// How an optional member reads as a [`Sender`].
pub open spec fn opt_sender_member(m: Option<JsonV>) -> Option<Option<SenderV>> {
    match m {
        None => Some(None),
        Some(JsonV::Null) => Some(None),
        Some(j) => match sender_of(j) {
            Some(x) => Some(Some(x)),
            None => None,
        },
    }
}

fn read_opt_sender(m: Option<&Json>) -> (r: Option<Option<Sender>>)
    ensures
        match r {
            Some(o) => opt_sender_member(json::opt_json(m)) == Some(opt_sender(o)),
            None => opt_sender_member(json::opt_json(m)) is None,
        },
{
    match m {
        None => Some(None),
        Some(j) => if j.is_null() {
            Some(None)
        } else {
            match read_sender(j) {
                Some(x) => Some(Some(x)),
                None => None,
            }
        },
    }
}
/// The channel of a message.
pub struct ChannelIdent {
    pub team_id: Option<String>,
    pub channel_id: Option<String>,
}

/// The model of [`ChannelIdent`].
pub struct ChannelIdentV {
    pub team_id: Option<Seq<char>>,
    pub channel_id: Option<Seq<char>>,
}

impl View for ChannelIdent {
    type V = ChannelIdentV;

    open spec fn view(&self) -> ChannelIdentV {
        ChannelIdentV {
            team_id: text::opt_text(self.team_id),
            channel_id: text::opt_text(self.channel_id),
        }
    }
}

/// An optional [`ChannelIdent`] by its model.
pub open spec fn opt_channel_ident(o: Option<ChannelIdent>) -> Option<ChannelIdentV> {
    match o {
        Some(x) => Some(x@),
        None => None,
    }
}

/// How a JSON value reads as a [`ChannelIdent`]; nothing where it does not.
pub open spec fn channel_ident_of(v: JsonV) -> Option<ChannelIdentV> {
    if !json::record_form(v, 0, 2) {
        None
    } else {
        match (
            json::opt_text_member(json::member_of(v, "teamId"@, 0)),
            json::opt_text_member(json::member_of(v, "channelId"@, 1)),
        ) {
            (Some(team_id), Some(channel_id)) => Some(ChannelIdentV { team_id, channel_id }),
            _ => None,
        }
    }
}

/// Reads a [`ChannelIdent`].
pub fn read_channel_ident(v: &Json) -> (r: Option<ChannelIdent>)
    ensures
        match r {
            Some(x) => channel_ident_of(v@) == Some(x@),
            None => channel_ident_of(v@) is None,
        },
{
    if !json::has_record_form(v, 0, 2) {
        return None;
    }
    let team_id = match json::read_opt_text(json::member(v, "teamId", 0)) {
        Some(x) => x,
        None => {
            return None;
        },
    };
    let channel_id = match json::read_opt_text(json::member(v, "channelId", 1)) {
        Some(x) => x,
        None => {
            return None;
        },
    };
    Some(ChannelIdent { team_id, channel_id })
}

/// How an optional member reads as a [`ChannelIdent`].
pub open spec fn opt_channel_ident_member(m: Option<JsonV>) -> Option<Option<ChannelIdentV>> {
    match m {
        None => Some(None),
        Some(JsonV::Null) => Some(None),
        Some(j) => match channel_ident_of(j) {
            Some(x) => Some(Some(x)),
            None => None,
        },
    }
}

fn read_opt_channel_ident(m: Option<&Json>) -> (r: Option<Option<ChannelIdent>>)
    ensures
        match r {
            Some(o) => opt_channel_ident_member(json::opt_json(m)) == Some(opt_channel_ident(o)),
            None => opt_channel_ident_member(json::opt_json(m)) is None,
        },
{
    match m {
        None => Some(None),
        Some(j) => if j.is_null() {
            Some(None)
        } else {
            match read_channel_ident(j) {
                Some(x) => Some(Some(x)),
                None => None,
            }
        },
    }
}
/// A message that was found.
pub struct Resource {
    pub id: Option<String>,
    pub created: Option<String>,
    pub subject: Option<String>,
    pub from: Option<Sender>,
    pub chat_id: Option<String>,
    pub channel: Option<ChannelIdent>,
}

/// The model of [`Resource`].
pub struct ResourceV {
    pub id: Option<Seq<char>>,
    pub created: Option<Seq<char>>,
    pub subject: Option<Seq<char>>,
    pub from: Option<SenderV>,
    pub chat_id: Option<Seq<char>>,
    pub channel: Option<ChannelIdentV>,
}

impl View for Resource {
    type V = ResourceV;

    open spec fn view(&self) -> ResourceV {
        ResourceV {
            id: text::opt_text(self.id),
            created: text::opt_text(self.created),
            subject: text::opt_text(self.subject),
            from: opt_sender(self.from),
            chat_id: text::opt_text(self.chat_id),
            channel: opt_channel_ident(self.channel),
        }
    }
}

/// An optional [`Resource`] by its model.
pub open spec fn opt_resource(o: Option<Resource>) -> Option<ResourceV> {
    match o {
        Some(x) => Some(x@),
        None => None,
    }
}

/// How a JSON value reads as a [`Resource`]; nothing where it does not.
pub open spec fn resource_of(v: JsonV) -> Option<ResourceV> {
    if !json::record_form(v, 0, 6) {
        None
    } else {
        match (
            json::opt_text_member(json::member_of(v, "id"@, 0)),
            json::opt_text_member(json::member_of(v, "createdDateTime"@, 1)),
            json::opt_text_member(json::member_of(v, "subject"@, 2)),
            opt_sender_member(json::member_of(v, "from"@, 3)),
            json::opt_text_member(json::member_of(v, "chatId"@, 4)),
            opt_channel_ident_member(json::member_of(v, "channelIdentity"@, 5)),
        ) {
            (
                Some(id),
                Some(created),
                Some(subject),
                Some(from),
                Some(chat_id),
                Some(channel),
            ) => Some(
                ResourceV { id, created, subject, from, chat_id, channel },
            ),
            _ => None,
        }
    }
}

/// Reads a [`Resource`].
pub fn read_resource(v: &Json) -> (r: Option<Resource>)
    ensures
        match r {
            Some(x) => resource_of(v@) == Some(x@),
            None => resource_of(v@) is None,
        },
{
    if !json::has_record_form(v, 0, 6) {
        return None;
    }
    let id = match json::read_opt_text(json::member(v, "id", 0)) {
        Some(x) => x,
        None => {
            return None;
        },
    };
    let created = match json::read_opt_text(json::member(v, "createdDateTime", 1)) {
        Some(x) => x,
        None => {
            return None;
        },
    };
    let subject = match json::read_opt_text(json::member(v, "subject", 2)) {
        Some(x) => x,
        None => {
            return None;
        },
    };
    let from = match read_opt_sender(json::member(v, "from", 3)) {
        Some(x) => x,
        None => {
            return None;
        },
    };
    let chat_id = match json::read_opt_text(json::member(v, "chatId", 4)) {
        Some(x) => x,
        None => {
            return None;
        },
    };
    let channel = match read_opt_channel_ident(json::member(v, "channelIdentity", 5)) {
        Some(x) => x,
        None => {
            return None;
        },
    };
    Some(Resource { id, created, subject, from, chat_id, channel })
}

/// How an optional member reads as a [`Resource`].
pub open spec fn opt_resource_member(m: Option<JsonV>) -> Option<Option<ResourceV>> {
    match m {
        None => Some(None),
        Some(JsonV::Null) => Some(None),
        Some(j) => match resource_of(j) {
            Some(x) => Some(Some(x)),
            None => None,
        },
    }
}

fn read_opt_resource(m: Option<&Json>) -> (r: Option<Option<Resource>>)
    ensures
        match r {
            Some(o) => opt_resource_member(json::opt_json(m)) == Some(opt_resource(o)),
            None => opt_resource_member(json::opt_json(m)) is None,
        },
{
    match m {
        None => Some(None),
        Some(j) => if j.is_null() {
            Some(None)
        } else {
            match read_resource(j) {
                Some(x) => Some(Some(x)),
                None => None,
            }
        },
    }
}
/// A hit as the service sends it.
pub struct Hit {
    pub summary: Option<String>,
    pub resource: Option<Resource>,
}

/// The model of [`Hit`].
pub struct HitV {
    pub summary: Option<Seq<char>>,
    pub resource: Option<ResourceV>,
}

impl View for Hit {
    type V = HitV;

    open spec fn view(&self) -> HitV {
        HitV {
            summary: text::opt_text(self.summary),
            resource: opt_resource(self.resource),
        }
    }
}

/// A list of [`Hit`] by their models.
pub open spec fn hit_views(v: Seq<Hit>) -> Seq<HitV> {
    Seq::new(v.len(), |i: int| v[i]@)
}

/// How a JSON value reads as a [`Hit`]; nothing where it does not.
pub open spec fn hit_of(v: JsonV) -> Option<HitV> {
    if !json::record_form(v, 0, 2) {
        None
    } else {
        match (
            json::opt_text_member(json::member_of(v, "summary"@, 0)),
            opt_resource_member(json::member_of(v, "resource"@, 1)),
        ) {
            (Some(summary), Some(resource)) => Some(HitV { summary, resource }),
            _ => None,
        }
    }
}

/// Reads a [`Hit`].
pub fn read_hit(v: &Json) -> (r: Option<Hit>)
    ensures
        match r {
            Some(x) => hit_of(v@) == Some(x@),
            None => hit_of(v@) is None,
        },
{
    if !json::has_record_form(v, 0, 2) {
        return None;
    }
    let summary = match json::read_opt_text(json::member(v, "summary", 0)) {
        Some(x) => x,
        None => {
            return None;
        },
    };
    let resource = match read_opt_resource(json::member(v, "resource", 1)) {
        Some(x) => x,
        None => {
            return None;
        },
    };
    Some(Hit { summary, resource })
}

/// How a list of JSON values reads as a list of [`Hit`]: all of them or none.
pub open spec fn hit_list(a: Seq<JsonV>) -> Option<Seq<HitV>>
    decreases a.len(),
{
    if a.len() == 0 {
        Some(Seq::empty())
    } else {
        match (hit_list(a.drop_last()), hit_of(a.last())) {
            (Some(l), Some(x)) => Some(l.push(x)),
            _ => None,
        }
    }
}

proof fn lemma_hit_list_prefix(a: Seq<JsonV>, i: int)
    requires
        0 <= i <= a.len(),
        hit_list(a.take(i)) is None,
    ensures
        hit_list(a) is None,
    decreases a.len() - i,
{
    if i < a.len() {
        assert(a.take(i + 1).drop_last() =~= a.take(i));
        lemma_hit_list_prefix(a, i + 1);
    } else {
        assert(a.take(i) =~= a);
    }
}

fn read_hit_list(a: &Vec<Json>) -> (r: Option<Vec<Hit>>)
    ensures
        match r {
            Some(l) => hit_list(json::items_view(a@)) == Some(hit_views(l@)),
            None => hit_list(json::items_view(a@)) is None,
        },
{
    let ghost all = json::items_view(a@);
    let mut out: Vec<Hit> = Vec::new();
    let mut i: usize = 0;
    proof {
        assert(all.take(0) =~= Seq::empty());
        assert(hit_views(out@) =~= Seq::empty());
    }
    while i < a.len()
        invariant
            i <= a@.len(),
            all == json::items_view(a@),
            hit_list(all.take(i as int)) == Some(hit_views(out@)),
        decreases a@.len() - i,
    {
        proof {
            assert(all.take(i + 1).drop_last() =~= all.take(i as int));
            assert(all.take(i + 1).last() == a@[i as int]@);
        }
        match read_hit(&a[i]) {
            Some(x) => {
                let ghost before = out@;
                out.push(x);
                proof {
                    assert(hit_views(out@) =~= hit_views(before).push(x@));
                }
            },
            None => {
                proof {
                    lemma_hit_list_prefix(all, i + 1);
                }
                return None;
            },
        }
        i = i + 1;
    }
    proof {
        assert(all.take(i as int) =~= all);
    }
    Some(out)
}

/// How a list member reads that may be left out.
pub open spec fn hit_list_default(m: Option<JsonV>) -> Option<Seq<HitV>> {
    match m {
        None => Some(Seq::empty()),
        Some(JsonV::Arr(a)) => hit_list(a),
        _ => None,
    }
}

fn read_hit_list_default(m: Option<&Json>) -> (r: Option<Vec<Hit>>)
    ensures
        match r {
            Some(l) => hit_list_default(json::opt_json(m)) == Some(hit_views(l@)),
            None => hit_list_default(json::opt_json(m)) is None,
        },
{
    match m {
        None => {
            let out: Vec<Hit> = Vec::new();
            proof {
                assert(hit_views(out@) =~= Seq::empty());
            }
            Some(out)
        },
        Some(Json::Arr(a)) => {
            proof {
                json::lemma_arr_view(*a);
            }
            read_hit_list(a)
        },
        _ => None,
    }
}
/// A page of hits as the service sends it.
pub struct HitsContainer {
    pub hits: Vec<Hit>,
    pub total: Option<i64>,
    pub more: bool,
}

/// The model of [`HitsContainer`].
pub struct HitsContainerV {
    pub hits: Seq<HitV>,
    pub total: Option<i64>,
    pub more: bool,
}

impl View for HitsContainer {
    type V = HitsContainerV;

    open spec fn view(&self) -> HitsContainerV {
        HitsContainerV {
            hits: hit_views(self.hits@),
            total: self.total,
            more: self.more,
        }
    }
}

/// A list of [`HitsContainer`] by their models.
pub open spec fn hits_container_views(v: Seq<HitsContainer>) -> Seq<HitsContainerV> {
    Seq::new(v.len(), |i: int| v[i]@)
}

/// How a JSON value reads as a [`HitsContainer`]; nothing where it does not.
pub open spec fn hits_container_of(v: JsonV) -> Option<HitsContainerV> {
    if !json::record_form(v, 2, 3) {
        None
    } else {
        match (
            hit_list_default(json::member_of(v, "hits"@, 0)),
            json::opt_i64_member(json::member_of(v, "total"@, 1)),
            json::bool_default(json::member_of(v, "moreResultsAvailable"@, 2)),
        ) {
            (Some(hits), Some(total), Some(more)) => Some(HitsContainerV { hits, total, more }),
            _ => None,
        }
    }
}

/// Reads a [`HitsContainer`].
pub fn read_hits_container(v: &Json) -> (r: Option<HitsContainer>)
    ensures
        match r {
            Some(x) => hits_container_of(v@) == Some(x@),
            None => hits_container_of(v@) is None,
        },
{
    if !json::has_record_form(v, 2, 3) {
        return None;
    }
    let hits = match read_hit_list_default(json::member(v, "hits", 0)) {
        Some(x) => x,
        None => {
            return None;
        },
    };
    let total = match json::read_opt_i64(json::member(v, "total", 1)) {
        Some(x) => x,
        None => {
            return None;
        },
    };
    let more = match json::read_bool_default(json::member(v, "moreResultsAvailable", 2)) {
        Some(x) => x,
        None => {
            return None;
        },
    };
    Some(HitsContainer { hits, total, more })
}

/// How a list of JSON values reads as a list of [`HitsContainer`]: all of them or none.
pub open spec fn hits_container_list(a: Seq<JsonV>) -> Option<Seq<HitsContainerV>>
    decreases a.len(),
{
    if a.len() == 0 {
        Some(Seq::empty())
    } else {
        match (hits_container_list(a.drop_last()), hits_container_of(a.last())) {
            (Some(l), Some(x)) => Some(l.push(x)),
            _ => None,
        }
    }
}

proof fn lemma_hits_container_list_prefix(a: Seq<JsonV>, i: int)
    requires
        0 <= i <= a.len(),
        hits_container_list(a.take(i)) is None,
    ensures
        hits_container_list(a) is None,
    decreases a.len() - i,
{
    if i < a.len() {
        assert(a.take(i + 1).drop_last() =~= a.take(i));
        lemma_hits_container_list_prefix(a, i + 1);
    } else {
        assert(a.take(i) =~= a);
    }
}

fn read_hits_container_list(a: &Vec<Json>) -> (r: Option<Vec<HitsContainer>>)
    ensures
        match r {
            Some(l) => hits_container_list(json::items_view(a@)) == Some(hits_container_views(l@)),
            None => hits_container_list(json::items_view(a@)) is None,
        },
{
    let ghost all = json::items_view(a@);
    let mut out: Vec<HitsContainer> = Vec::new();
    let mut i: usize = 0;
    proof {
        assert(all.take(0) =~= Seq::empty());
        assert(hits_container_views(out@) =~= Seq::empty());
    }
    while i < a.len()
        invariant
            i <= a@.len(),
            all == json::items_view(a@),
            hits_container_list(all.take(i as int)) == Some(hits_container_views(out@)),
        decreases a@.len() - i,
    {
        proof {
            assert(all.take(i + 1).drop_last() =~= all.take(i as int));
            assert(all.take(i + 1).last() == a@[i as int]@);
        }
        match read_hits_container(&a[i]) {
            Some(x) => {
                let ghost before = out@;
                out.push(x);
                proof {
                    assert(hits_container_views(out@) =~= hits_container_views(before).push(x@));
                }
            },
            None => {
                proof {
                    lemma_hits_container_list_prefix(all, i + 1);
                }
                return None;
            },
        }
        i = i + 1;
    }
    proof {
        assert(all.take(i as int) =~= all);
    }
    Some(out)
}

/// How a list member reads that may be left out.
pub open spec fn hits_container_list_default(m: Option<JsonV>) -> Option<Seq<HitsContainerV>> {
    match m {
        None => Some(Seq::empty()),
        Some(JsonV::Arr(a)) => hits_container_list(a),
        _ => None,
    }
}

fn read_hits_container_list_default(m: Option<&Json>) -> (r: Option<Vec<HitsContainer>>)
    ensures
        match r {
            Some(l) => hits_container_list_default(json::opt_json(m)) == Some(
                hits_container_views(l@),
            ),
            None => hits_container_list_default(json::opt_json(m)) is None,
        },
{
    match m {
        None => {
            let out: Vec<HitsContainer> = Vec::new();
            proof {
                assert(hits_container_views(out@) =~= Seq::empty());
            }
            Some(out)
        },
        Some(Json::Arr(a)) => {
            proof {
                json::lemma_arr_view(*a);
            }
            read_hits_container_list(a)
        },
        _ => None,
    }
}
/// The pages for one request.
pub struct SearchRespValue {
    pub hits_containers: Vec<HitsContainer>,
}

/// The model of [`SearchRespValue`].
pub struct SearchRespValueV {
    pub hits_containers: Seq<HitsContainerV>,
}

impl View for SearchRespValue {
    type V = SearchRespValueV;

    open spec fn view(&self) -> SearchRespValueV {
        SearchRespValueV {
            hits_containers: hits_container_views(self.hits_containers@),
        }
    }
}

/// A list of [`SearchRespValue`] by their models.
pub open spec fn search_resp_value_views(v: Seq<SearchRespValue>) -> Seq<SearchRespValueV> {
    Seq::new(v.len(), |i: int| v[i]@)
}

/// How a JSON value reads as a [`SearchRespValue`]; nothing where it does not.
pub open spec fn search_resp_value_of(v: JsonV) -> Option<SearchRespValueV> {
    if !json::record_form(v, 0, 1) {
        None
    } else {
        match hits_container_list_default(json::member_of(v, "hitsContainers"@, 0)) {
            Some(hits_containers) => Some(SearchRespValueV { hits_containers }),
            None => None,
        }
    }
}

/// Reads a [`SearchRespValue`].
pub fn read_search_resp_value(v: &Json) -> (r: Option<SearchRespValue>)
    ensures
        match r {
            Some(x) => search_resp_value_of(v@) == Some(x@),
            None => search_resp_value_of(v@) is None,
        },
{
    if !json::has_record_form(v, 0, 1) {
        return None;
    }
    let hits_containers = match read_hits_container_list_default(json::member(
        v, "hitsContainers", 0),
    ) {
        Some(x) => x,
        None => {
            return None;
        },
    };
    Some(SearchRespValue { hits_containers })
}

/// How a list of JSON values reads as a list of [`SearchRespValue`]: all of them or none.
pub open spec fn search_resp_value_list(a: Seq<JsonV>) -> Option<Seq<SearchRespValueV>>
    decreases a.len(),
{
    if a.len() == 0 {
        Some(Seq::empty())
    } else {
        match (search_resp_value_list(a.drop_last()), search_resp_value_of(a.last())) {
            (Some(l), Some(x)) => Some(l.push(x)),
            _ => None,
        }
    }
}

proof fn lemma_search_resp_value_list_prefix(a: Seq<JsonV>, i: int)
    requires
        0 <= i <= a.len(),
        search_resp_value_list(a.take(i)) is None,
    ensures
        search_resp_value_list(a) is None,
    decreases a.len() - i,
{
    if i < a.len() {
        assert(a.take(i + 1).drop_last() =~= a.take(i));
        lemma_search_resp_value_list_prefix(a, i + 1);
    } else {
        assert(a.take(i) =~= a);
    }
}

fn read_search_resp_value_list(a: &Vec<Json>) -> (r: Option<Vec<SearchRespValue>>)
    ensures
        match r {
            Some(l) => search_resp_value_list(json::items_view(a@)) == Some(
                search_resp_value_views(l@),
            ),
            None => search_resp_value_list(json::items_view(a@)) is None,
        },
{
    let ghost all = json::items_view(a@);
    let mut out: Vec<SearchRespValue> = Vec::new();
    let mut i: usize = 0;
    proof {
        assert(all.take(0) =~= Seq::empty());
        assert(search_resp_value_views(out@) =~= Seq::empty());
    }
    while i < a.len()
        invariant
            i <= a@.len(),
            all == json::items_view(a@),
            search_resp_value_list(all.take(i as int)) == Some(search_resp_value_views(out@)),
        decreases a@.len() - i,
    {
        proof {
            assert(all.take(i + 1).drop_last() =~= all.take(i as int));
            assert(all.take(i + 1).last() == a@[i as int]@);
        }
        match read_search_resp_value(&a[i]) {
            Some(x) => {
                let ghost before = out@;
                out.push(x);
                proof {
                    assert(
                        search_resp_value_views(out@) =~= search_resp_value_views(before).push(x@)
                    );
                }
            },
            None => {
                proof {
                    lemma_search_resp_value_list_prefix(all, i + 1);
                }
                return None;
            },
        }
        i = i + 1;
    }
    proof {
        assert(all.take(i as int) =~= all);
    }
    Some(out)
}

/// How a list member reads that may be left out.
pub open spec fn search_resp_value_list_default(m: Option<JsonV>) -> Option<Seq<SearchRespValueV>> {
    match m {
        None => Some(Seq::empty()),
        Some(JsonV::Arr(a)) => search_resp_value_list(a),
        _ => None,
    }
}

fn read_search_resp_value_list_default(m: Option<&Json>) -> (r: Option<Vec<SearchRespValue>>)
    ensures
        match r {
            Some(l) => search_resp_value_list_default(json::opt_json(m)) == Some(
                search_resp_value_views(l@),
            ),
            None => search_resp_value_list_default(json::opt_json(m)) is None,
        },
{
    match m {
        None => {
            let out: Vec<SearchRespValue> = Vec::new();
            proof {
                assert(search_resp_value_views(out@) =~= Seq::empty());
            }
            Some(out)
        },
        Some(Json::Arr(a)) => {
            proof {
                json::lemma_arr_view(*a);
            }
            read_search_resp_value_list(a)
        },
        _ => None,
    }
}
/// The reply to a search.
pub struct SearchResp {
    pub value: Vec<SearchRespValue>,
}

/// The model of [`SearchResp`].
pub struct SearchRespV {
    pub value: Seq<SearchRespValueV>,
}

impl View for SearchResp {
    type V = SearchRespV;

    open spec fn view(&self) -> SearchRespV {
        SearchRespV {
            value: search_resp_value_views(self.value@),
        }
    }
}

/// How a JSON value reads as a [`SearchResp`]; nothing where it does not.
pub open spec fn search_resp_of(v: JsonV) -> Option<SearchRespV> {
    if !json::record_form(v, 0, 1) {
        None
    } else {
        match search_resp_value_list_default(json::member_of(v, "value"@, 0)) {
            Some(value) => Some(SearchRespV { value }),
            None => None,
        }
    }
}

/// Reads a [`SearchResp`].
pub fn read_search_resp(v: &Json) -> (r: Option<SearchResp>)
    ensures
        match r {
            Some(x) => search_resp_of(v@) == Some(x@),
            None => search_resp_of(v@) is None,
        },
{
    if !json::has_record_form(v, 0, 1) {
        return None;
    }
    let value = match read_search_resp_value_list_default(json::member(v, "value", 0)) {
        Some(x) => x,
        None => {
            return None;
        },
    };
    Some(SearchResp { value })
}
/// What is shown of a hit, and where it can be opened: in its chat, or in its
/// channel.
pub struct SearchHitInfo {
    pub message_id: String,
    pub chat_id: String,
    pub team_id: Option<String>,
    pub channel_id: Option<String>,
    pub sender: String,
    pub timestamp: String,
    pub preview: String,
    pub subject: Option<String>,
}

/// The model of [`SearchHitInfo`].
pub struct SearchHitInfoV {
    pub message_id: Seq<char>,
    pub chat_id: Seq<char>,
    pub team_id: Option<Seq<char>>,
    pub channel_id: Option<Seq<char>>,
    pub sender: Seq<char>,
    pub timestamp: Seq<char>,
    pub preview: Seq<char>,
    pub subject: Option<Seq<char>>,
}

impl View for SearchHitInfo {
    type V = SearchHitInfoV;

    open spec fn view(&self) -> SearchHitInfoV {
        SearchHitInfoV {
            message_id: self.message_id@,
            chat_id: self.chat_id@,
            team_id: text::opt_text(self.team_id),
            channel_id: text::opt_text(self.channel_id),
            sender: self.sender@,
            timestamp: self.timestamp@,
            preview: self.preview@,
            subject: text::opt_text(self.subject),
        }
    }
}
/// A list of [`SearchHitInfo`] by their models.
pub open spec fn search_hit_info_views(v: Seq<SearchHitInfo>) -> Seq<SearchHitInfoV> {
    Seq::new(v.len(), |i: int| v[i]@)
}
/// One page of hits.
pub struct SearchPage {
    pub hits: Vec<SearchHitInfo>,
    pub total: Option<i64>,
    pub more: bool,
}

/// The model of [`SearchPage`].
pub struct SearchPageV {
    pub hits: Seq<SearchHitInfoV>,
    pub total: Option<i64>,
    pub more: bool,
}

impl View for SearchPage {
    type V = SearchPageV;

    open spec fn view(&self) -> SearchPageV {
        SearchPageV {
            hits: search_hit_info_views(self.hits@),
            total: self.total,
            more: self.more,
        }
    }
}

/// The most hits of a page.
pub const SEARCH_MAX_SIZE: usize = 25;

/// The first of two optional texts.
pub open spec fn first_text(a: Option<Seq<char>>, b: Option<Seq<char>>) -> Option<Seq<char>> {
    match a {
        Some(s) => Some(s),
        None => b,
    }
}

/// The sender of a found message: by name, else by address, else nobody.
pub open spec fn sender_text(from: Option<SenderV>) -> Seq<char> {
    match from {
        Some(s) => match s.email {
            Some(e) => teams::or_text(
                first_text(calendar::unless_blank(e.name), calendar::unless_blank(e.address)),
                Seq::empty(),
            ),
            None => Seq::empty(),
        },
        None => Seq::empty(),
    }
}

/// What is shown of a hit; nothing of one without a message or without a
/// conversation to open.
pub open spec fn hit_row(h: HitV) -> Option<SearchHitInfoV> {
    match h.resource {
        None => None,
        Some(m) => {
            let channel_id = match m.channel {
                Some(c) => calendar::unless_blank(c.channel_id),
                None => None,
            };
            match (
                calendar::unless_blank(m.id),
                first_text(calendar::unless_blank(m.chat_id), channel_id),
            ) {
                (Some(message_id), Some(chat_id)) => Some(
                    SearchHitInfoV {
                        message_id,
                        chat_id,
                        team_id: match m.channel {
                            Some(c) => calendar::unless_blank(c.team_id),
                            None => None,
                        },
                        channel_id,
                        sender: sender_text(m.from),
                        timestamp: teams::or_text(m.created, Seq::empty()),
                        preview: teams::or_text(h.summary, Seq::empty()),
                        subject: calendar::unless_blank(m.subject),
                    },
                ),
                _ => None,
            }
        },
    }
}

fn or_nothing(o: &Option<String>) -> (r: String)
    ensures
        r@ == teams::or_text(text::opt_text(*o), Seq::empty()),
{
    proof {
        reveal_strlit("");
        assert(""@ =~= Seq::empty());
    }
    teams::text_or(o, "")
}

fn shown_sender(from: &Option<Sender>) -> (r: String)
    ensures
        r@ == sender_text(opt_sender(*from)),
{
    let found = match from {
        Some(s) => match &s.email {
            Some(e) => match calendar::filter_blank(&e.name) {
                Some(n) => Some(n),
                None => calendar::filter_blank(&e.address),
            },
            None => None,
        },
        None => None,
    };
    or_nothing(&found)
}

/// What is shown of a hit; nothing of one that cannot be opened.
pub fn hit_info(h: &Hit) -> (r: Option<SearchHitInfo>)
    ensures
        match r {
            Some(x) => hit_row(h@) == Some(x@),
            None => hit_row(h@) is None,
        },
{
    let m = match &h.resource {
        Some(m) => m,
        None => {
            return None;
        },
    };
    let message_id = match calendar::filter_blank(&m.id) {
        Some(id) => id,
        None => {
            return None;
        },
    };
    let (team_id, channel_id) = match &m.channel {
        Some(c) => (calendar::filter_blank(&c.team_id), calendar::filter_blank(&c.channel_id)),
        None => (None, None),
    };
    let chat_id = match calendar::filter_blank(&m.chat_id) {
        Some(id) => id,
        None => match &channel_id {
            Some(id) => id.clone(),
            None => {
                return None;
            },
        },
    };
    Some(
        SearchHitInfo {
            message_id,
            chat_id,
            team_id,
            channel_id,
            sender: shown_sender(&m.from),
            timestamp: or_nothing(&m.created),
            preview: or_nothing(&h.summary),
            subject: calendar::filter_blank(&m.subject),
        },
    )
}
/// What is shown of the hits that can be opened, in order.
pub open spec fn hit_rows(v: Seq<HitV>) -> Seq<SearchHitInfoV>
    decreases v.len(),
{
    if v.len() == 0 {
        Seq::empty()
    } else {
        match hit_row(v.last()) {
            Some(x) => hit_rows(v.drop_last()).push(x),
            None => hit_rows(v.drop_last()),
        }
    }
}

/// What is shown of the hits that can be opened, in order.
pub fn hit_infos(v: &Vec<Hit>) -> (r: Vec<SearchHitInfo>)
    ensures
        search_hit_info_views(r@) == hit_rows(hit_views(v@)),
{
    let ghost all = hit_views(v@);
    let mut out: Vec<SearchHitInfo> = Vec::new();
    let mut i: usize = 0;
    proof {
        assert(all.take(0) =~= Seq::empty());
        assert(search_hit_info_views(out@) =~= Seq::empty());
    }
    while i < v.len()
        invariant
            i <= v@.len(),
            all == hit_views(v@),
            search_hit_info_views(out@) == hit_rows(all.take(i as int)),
        decreases v@.len() - i,
    {
        proof {
            assert(all.take(i + 1).drop_last() =~= all.take(i as int));
            assert(all.take(i + 1).last() == v@[i as int]@);
        }
        match hit_info(&v[i]) {
            Some(x) => {
                let ghost before = out@;
                out.push(x);
                proof {
                    assert(search_hit_info_views(out@) =~= search_hit_info_views(before).push(x@));
                }
            },
            None => {},
        }
        i = i + 1;
    }
    proof {
        assert(all.take(i as int) =~= all);
    }
    out
}

/// The first page of the first request that has one.
pub open spec fn first_container(v: Seq<SearchRespValueV>) -> Option<HitsContainerV>
    decreases v.len(),
{
    if v.len() == 0 {
        None
    } else if v[0].hits_containers.len() > 0 {
        Some(v[0].hits_containers[0])
    } else {
        first_container(v.skip(1))
    }
}

/// The page that a reply shows, by its JSON value: an empty one where the reply
/// is of another form.
pub open spec fn search_page(v: JsonV) -> SearchPageV {
    let value = match search_resp_of(v) {
        Some(x) => x.value,
        None => Seq::empty(),
    };
    match first_container(value) {
        Some(c) => SearchPageV { hits: hit_rows(c.hits), total: c.total, more: c.more },
        None => SearchPageV { hits: Seq::empty(), total: None, more: false },
    }
}

fn empty_page() -> (r: SearchPage)
    ensures
        r@ == (SearchPageV { hits: Seq::empty(), total: None, more: false }),
{
    let hits: Vec<SearchHitInfo> = Vec::new();
    proof {
        assert(search_hit_info_views(hits@) =~= Seq::empty());
    }
    SearchPage { hits, total: None, more: false }
}

/// The page that a reply shows, by its JSON value.
pub fn read_search_page(v: &Json) -> (r: SearchPage)
    ensures
        r@ == search_page(v@),
{
    let resp = match read_search_resp(v) {
        Some(x) => x,
        None => {
            return empty_page();
        },
    };
    let ghost all = search_resp_value_views(resp.value@);
    let mut i: usize = 0;
    proof {
        assert(all.skip(0) =~= all);
    }
    while i < resp.value.len()
        invariant
            i <= resp.value@.len(),
            all == search_resp_value_views(resp.value@),
            search_resp_of(v@) == Some(resp@),
            first_container(all) == first_container(all.skip(i as int)),
        decreases resp.value@.len() - i,
    {
        proof {
            assert(all.skip(i as int)[0] == resp.value@[i as int]@);
            assert(all.skip(i as int).skip(1) =~= all.skip(i + 1));
        }
        if resp.value[i].hits_containers.len() > 0 {
            let c = &resp.value[i].hits_containers[0];
            return SearchPage { hits: hit_infos(&c.hits), total: c.total, more: c.more };
        }
        i = i + 1;
    }
    empty_page()
}

/// The page that a reply shows. A reply of another form shows an empty page.
pub fn parse_search_response(value: &serde_json::Value) -> (r: SearchPage)
    ensures
        r@ == search_page(json::held_json(*value)),
{
    let v = json::from_value(value);
    read_search_page(&v)
}

/// The page that the bytes of a reply show; the error is the text to show.
pub fn read_search_reply(body: &[u8]) -> (r: Result<SearchPage, String>)
    ensures
        match r {
            Ok(p) => json::json_bytes(body@) matches Some(v) && p@ == search_page(v),
            Err(e) => json::json_bytes(body@) is None && e@ == "Failed to parse search response"@,
        },
{
    match json::value_from_bytes(body) {
        Some(v) => Ok(parse_search_response(&v)),
        None => Err("Failed to parse search response".to_string()),
    }
}

/// A page size within what the service allows.
pub fn clamp_size(size: usize) -> (r: usize)
    ensures
        1 <= r <= 25,
        r == if size < 1 {
            1
        } else if size > 25 {
            25int
        } else {
            size as int
        },
{
    if size < 1 {
        1
    } else if size > SEARCH_MAX_SIZE {
        SEARCH_MAX_SIZE
    } else {
        size
    }
}

/// The body of a search.
pub open spec fn search_payload(query: Seq<char>, from: int, size: int) -> JsonV {
    FieldsV::new().put(
        "requests"@,
        JsonV::Arr(
            Seq::empty().push(
                FieldsV::new().put(
                    "entityTypes"@,
                    JsonV::Arr(Seq::empty().push(JsonV::Str("chatMessage"@))),
                ).put("query"@, FieldsV::new().text("queryString"@, query).obj()).num(
                    "from"@,
                    from,
                ).num("size"@, size).obj(),
            ),
        ),
    ).obj()
}

/// The body of a search for one page of hits.
pub fn search_body(query: &str, from: usize, size: usize) -> (r: Json)
    ensures
        r@ == search_payload(
            query@,
            from as int,
            if size < 1 {
                1
            } else if size > 25 {
                25int
            } else {
                size as int
            },
        ),
{
    let mut types = Items::new();
    types.push(Json::text("chatMessage"));
    let mut q = Fields::new();
    q.text("queryString", query);
    let mut item = Fields::new();
    item.put("entityTypes", types.arr());
    item.put("query", q.obj());
    item.num("from", from as u64);
    item.num("size", clamp_size(size) as u64);
    let mut requests = Items::new();
    requests.push(item.obj());
    let mut o = Fields::new();
    o.put("requests", requests.arr());
    o.obj()
}

/// The body of a search; the error is the text to show.
pub fn search_messages_data(query: &str, from: usize, size: usize) -> (r: Result<Json, String>)
    ensures
        match r {
            Ok(b) => !text::blank(query@) && b@ == search_payload(
                query@,
                from as int,
                if size < 1 {
                    1
                } else if size > 25 {
                    25int
                } else {
                    size as int
                },
            ),
            Err(e) => text::blank(query@) && e@ == "empty query"@,
        },
{
    if text::is_blank(query) {
        return Err("empty query".to_string());
    }
    Ok(search_body(query, from, size))
}

/// Where the next page starts, while there is more. An empty page ends the
/// search.
pub fn next_from(from: usize, page: &SearchPage) -> (r: Option<usize>)
    requires
        from + page.hits@.len() <= usize::MAX,
    ensures
        r == (if page.more && page.hits@.len() > 0 {
            Some((from + page.hits@.len()) as usize)
        } else {
            None
        }),
        r matches Some(n) ==> n > from,
{
    if page.more && page.hits.len() > 0 {
        Some(from + page.hits.len())
    } else {
        None
    }
}

// -- What the commands show --

/// What is shown of a found message.
pub open spec fn hit_shown(x: SearchHitInfoV) -> Seq<char> {
    x.sender + " — "@ + x.timestamp + "\n  chat: "@ + x.chat_id + "\n  msg:  "@ + x.message_id
        + "\n  "@ + x.preview + "\n\n"@
}

fn show_hit(x: &SearchHitInfo) -> (r: String)
    ensures
        r@ == hit_shown(x@),
{
    let mut s = String::new();
    s.append(x.sender.as_str());
    s.append(" — ");
    s.append(x.timestamp.as_str());
    s.append("\n  chat: ");
    s.append(x.chat_id.as_str());
    s.append("\n  msg:  ");
    s.append(x.message_id.as_str());
    s.append("\n  ");
    s.append(x.preview.as_str());
    s.append("\n\n");
    proof {
        assert(s@ =~= hit_shown(x@));
    }
    s
}

/// What is shown of a list, entry by entry.
pub open spec fn hits_shown(v: Seq<SearchHitInfoV>) -> Seq<char>
    decreases v.len(),
{
    if v.len() == 0 {
        Seq::empty()
    } else {
        hits_shown(v.drop_last()) + hit_shown(v.last())
    }
}

fn show_hits(v: &Vec<SearchHitInfo>) -> (r: String)
    ensures
        r@ == hits_shown(search_hit_info_views(v@)),
{
    let ghost all = search_hit_info_views(v@);
    let mut s = String::new();
    let mut i: usize = 0;
    proof {
        assert(all.take(0) =~= Seq::empty());
        assert(s@ =~= Seq::empty());
    }
    while i < v.len()
        invariant
            i <= v@.len(),
            all == search_hit_info_views(v@),
            s@ == hits_shown(all.take(i as int)),
        decreases v@.len() - i,
    {
        proof {
            assert(all.take(i + 1).drop_last() =~= all.take(i as int));
            assert(all.take(i + 1).last() == v@[i as int]@);
        }
        s.append(show_hit(&v[i]).as_str());
        i = i + 1;
    }
    proof {
        assert(all.take(i as int) =~= all);
    }
    s
}

/// The found messages, behind the line that names the query.
pub open spec fn page_shown(page: SearchPageV) -> Seq<char> {
    if page.hits.len() == 0 {
        "  (no messages found)\n"@
    } else {
        hits_shown(page.hits) + (match page.total {
            Some(n) => "(showing "@ + text::decimal(page.hits.len()) + " of "@
                + text::signed_decimal(n as int) + ")\n"@,
            None => Seq::empty(),
        }) + (if page.more {
            "(more available — page with --from)\n"@
        } else {
            Seq::empty()
        })
    }
}

/// The found messages, behind the line that names the query.
pub fn search_messages(page: &SearchPage) -> (r: String)
    ensures
        r@ == page_shown(page@),
{
    if page.hits.len() == 0 {
        return "  (no messages found)\n".to_string();
    }
    let mut s = show_hits(&page.hits);
    if let Some(n) = page.total {
        s.append("(showing ");
        s.append(text::to_decimal(page.hits.len() as u64).as_str());
        s.append(" of ");
        s.append(text::to_signed_decimal(n).as_str());
        s.append(")\n");
    }
    if page.more {
        s.append("(more available — page with --from)\n");
    }
    proof {
        assert(s@ =~= page_shown(page@));
    }
    s
}

// -- What is read --

/// What is read of a [`Email`] stands in the members of these names, and it is read
/// where they hold what they should.
pub proof fn law_email_reads_its_members(v: JsonV)
    requires
        v is Obj,
    ensures
        match email_of(v) {
            Some(x) => {
                &&& x.name == json::str_of(json::get_of(v, "name"@))
                &&& x.address == json::str_of(json::get_of(v, "address"@))
            },
            None => !(json::opt_text_member(json::get_of(v, "name"@)) is Some
                && json::opt_text_member(json::get_of(v, "address"@)) is Some),
        },
{
}

/// What is read of a [`Sender`] stands in the members of these names, and it is read
/// where they hold what they should.
pub proof fn law_sender_reads_its_members(v: JsonV)
    requires
        v is Obj,
    ensures
        match sender_of(v) {
            Some(x) => {
                &&& (json::get_of(v, "emailAddress"@) is None
                    || json::get_of(v, "emailAddress"@) == Some(JsonV::Null)) ==> x.email is None
                &&& json::get_of(v, "emailAddress"@) matches Some(w) ==> w != JsonV::Null
                    ==> x.email is Some && email_of(w) == x.email
            },
            None => !(opt_email_member(json::get_of(v, "emailAddress"@)) is Some),
        },
{
}

/// What is read of a [`ChannelIdent`] stands in the members of these names, and it is read
/// where they hold what they should.
pub proof fn law_channel_ident_reads_its_members(v: JsonV)
    requires
        v is Obj,
    ensures
        match channel_ident_of(v) {
            Some(x) => {
                &&& x.team_id == json::str_of(json::get_of(v, "teamId"@))
                &&& x.channel_id == json::str_of(json::get_of(v, "channelId"@))
            },
            None => !(json::opt_text_member(json::get_of(v, "teamId"@)) is Some
                && json::opt_text_member(json::get_of(v, "channelId"@)) is Some),
        },
{
}

/// What is read of a [`Resource`] stands in the members of these names, and it is read
/// where they hold what they should.
pub proof fn law_resource_reads_its_members(v: JsonV)
    requires
        v is Obj,
    ensures
        match resource_of(v) {
            Some(x) => {
                &&& x.id == json::str_of(json::get_of(v, "id"@))
                &&& x.created == json::str_of(json::get_of(v, "createdDateTime"@))
                &&& x.subject == json::str_of(json::get_of(v, "subject"@))
                &&& (json::get_of(v, "from"@) is None
                    || json::get_of(v, "from"@) == Some(JsonV::Null)) ==> x.from is None
                &&& json::get_of(v, "from"@) matches Some(w) ==> w != JsonV::Null ==> x.from is Some
                    && sender_of(w) == x.from
                &&& x.chat_id == json::str_of(json::get_of(v, "chatId"@))
                &&& (json::get_of(v, "channelIdentity"@) is None
                    || json::get_of(v, "channelIdentity"@) == Some(JsonV::Null))
                    ==> x.channel is None
                &&& json::get_of(v, "channelIdentity"@) matches Some(w) ==> w != JsonV::Null
                    ==> x.channel is Some && channel_ident_of(w) == x.channel
            },
            None => !(json::opt_text_member(json::get_of(v, "id"@)) is Some
                && json::opt_text_member(json::get_of(v, "createdDateTime"@)) is Some
                && json::opt_text_member(json::get_of(v, "subject"@)) is Some
                && opt_sender_member(json::get_of(v, "from"@)) is Some
                && json::opt_text_member(json::get_of(v, "chatId"@)) is Some
                && opt_channel_ident_member(json::get_of(v, "channelIdentity"@)) is Some),
        },
{
}

/// What is read of a [`Hit`] stands in the members of these names, and it is read
/// where they hold what they should.
pub proof fn law_hit_reads_its_members(v: JsonV)
    requires
        v is Obj,
    ensures
        match hit_of(v) {
            Some(x) => {
                &&& x.summary == json::str_of(json::get_of(v, "summary"@))
                &&& (json::get_of(v, "resource"@) is None
                    || json::get_of(v, "resource"@) == Some(JsonV::Null)) ==> x.resource is None
                &&& json::get_of(v, "resource"@) matches Some(w) ==> w != JsonV::Null
                    ==> x.resource is Some && resource_of(w) == x.resource
            },
            None => !(json::opt_text_member(json::get_of(v, "summary"@)) is Some
                && opt_resource_member(json::get_of(v, "resource"@)) is Some),
        },
{
}

// The entries of a list, in their order.
proof fn lemma_hit_list_entries(a: Seq<JsonV>)
    ensures
        hit_list(a) matches Some(l) ==> l.len() == a.len() && forall|i: int|
            0 <= i < a.len() ==> hit_of(a[i]) == Some(#[trigger] l[i]),
    decreases a.len(),
{
    if a.len() > 0 {
        lemma_hit_list_entries(a.drop_last());
        if let Some(l) = hit_list(a) {
            assert forall|i: int| 0 <= i < a.len() implies hit_of(a[i])
                == Some(#[trigger] l[i]) by {
                if i < a.len() - 1 {
                    let before = hit_list(a.drop_last())->0;
                    assert(l[i] == before[i]);
                    assert(a.drop_last()[i] == a[i]);
                }
            }
        }
    }
}

/// What is read of a [`HitsContainer`] stands in the members of these names, and it is read
/// where they hold what they should.
pub proof fn law_hits_container_reads_its_members(v: JsonV)
    requires
        v is Obj,
    ensures
        match hits_container_of(v) {
            Some(x) => {
                &&& json::get_of(v, "hits"@) is None ==> x.hits.len() == 0
                &&& json::get_of(v, "hits"@) is Some
                    ==> (json::arr_of(json::get_of(v, "hits"@)) matches Some(a)
                    && x.hits.len() == a.len() && forall|i: int| 0 <= i < a.len()
                    ==> hit_of(a[i]) == Some(#[trigger] x.hits[i]))
                &&& json::opt_i64_member(json::get_of(v, "total"@)) == Some(x.total)
                &&& json::bool_default(json::get_of(v, "moreResultsAvailable"@)) == Some(x.more)
            },
            None => !(hit_list_default(json::get_of(v, "hits"@)) is Some
                && json::opt_i64_member(json::get_of(v, "total"@)) is Some
                && json::bool_default(json::get_of(v, "moreResultsAvailable"@)) is Some),
        },
{
    if let Some(JsonV::Arr(a)) = json::get_of(v, "hits"@) {
        lemma_hit_list_entries(a);
    }
}

// The entries of a list, in their order.
proof fn lemma_hits_container_list_entries(a: Seq<JsonV>)
    ensures
        hits_container_list(a) matches Some(l) ==> l.len() == a.len() && forall|i: int|
            0 <= i < a.len() ==> hits_container_of(a[i]) == Some(#[trigger] l[i]),
    decreases a.len(),
{
    if a.len() > 0 {
        lemma_hits_container_list_entries(a.drop_last());
        if let Some(l) = hits_container_list(a) {
            assert forall|i: int| 0 <= i < a.len() implies hits_container_of(a[i])
                == Some(#[trigger] l[i]) by {
                if i < a.len() - 1 {
                    let before = hits_container_list(a.drop_last())->0;
                    assert(l[i] == before[i]);
                    assert(a.drop_last()[i] == a[i]);
                }
            }
        }
    }
}

/// What is read of a [`SearchRespValue`] stands in the members of these names, and it is read
/// where they hold what they should.
pub proof fn law_search_resp_value_reads_its_members(v: JsonV)
    requires
        v is Obj,
    ensures
        match search_resp_value_of(v) {
            Some(x) => {
                &&& json::get_of(v, "hitsContainers"@) is None ==> x.hits_containers.len() == 0
                &&& json::get_of(v, "hitsContainers"@) is Some
                    ==> (json::arr_of(json::get_of(v, "hitsContainers"@)) matches Some(a)
                    && x.hits_containers.len() == a.len() && forall|i: int| 0 <= i < a.len()
                    ==> hits_container_of(a[i]) == Some(#[trigger] x.hits_containers[i]))
            },
            None => !(hits_container_list_default(json::get_of(v, "hitsContainers"@)) is Some),
        },
{
    if let Some(JsonV::Arr(a)) = json::get_of(v, "hitsContainers"@) {
        lemma_hits_container_list_entries(a);
    }
}

// The entries of a list, in their order.
proof fn lemma_search_resp_value_list_entries(a: Seq<JsonV>)
    ensures
        search_resp_value_list(a) matches Some(l) ==> l.len() == a.len() && forall|i: int|
            0 <= i < a.len() ==> search_resp_value_of(a[i]) == Some(#[trigger] l[i]),
    decreases a.len(),
{
    if a.len() > 0 {
        lemma_search_resp_value_list_entries(a.drop_last());
        if let Some(l) = search_resp_value_list(a) {
            assert forall|i: int| 0 <= i < a.len() implies search_resp_value_of(a[i])
                == Some(#[trigger] l[i]) by {
                if i < a.len() - 1 {
                    let before = search_resp_value_list(a.drop_last())->0;
                    assert(l[i] == before[i]);
                    assert(a.drop_last()[i] == a[i]);
                }
            }
        }
    }
}

/// What is read of a [`SearchResp`] stands in the members of these names, and it is read
/// where they hold what they should.
pub proof fn law_search_resp_reads_its_members(v: JsonV)
    requires
        v is Obj,
    ensures
        match search_resp_of(v) {
            Some(x) => {
                &&& json::get_of(v, "value"@) is None ==> x.value.len() == 0
                &&& json::get_of(v, "value"@) is Some
                    ==> (json::arr_of(json::get_of(v, "value"@)) matches Some(a)
                    && x.value.len() == a.len() && forall|i: int| 0 <= i < a.len()
                    ==> search_resp_value_of(a[i]) == Some(#[trigger] x.value[i]))
            },
            None => !(search_resp_value_list_default(json::get_of(v, "value"@)) is Some),
        },
{
    if let Some(JsonV::Arr(a)) = json::get_of(v, "value"@) {
        lemma_search_resp_value_list_entries(a);
    }
}

// -- What is found --

/// A hit is listed where it names its message and its conversation: a chat, else a
/// channel. What is shown of it is what it says.
pub proof fn law_hits_name_message_and_conversation(h: HitV, m: ResourceV)
    requires
        h.resource == Some(m),
    ensures
        m.id is None ==> hit_row(h) is None,
        m.chat_id is None && m.channel is None ==> hit_row(h) is None,
        hit_row(h) matches Some(x) ==> {
            &&& m.id == Some(x.message_id)
            &&& m.chat_id matches Some(c) ==> (!text::blank(c) ==> x.chat_id == c)
            &&& m.chat_id is None ==> x.channel_id == Some(x.chat_id)
            &&& m.channel is None ==> x.team_id is None && x.channel_id is None
            &&& m.channel matches Some(c) ==> (c.team_id matches Some(t) ==> (!text::blank(t)
                ==> x.team_id == Some(t)))
            &&& m.channel matches Some(c) ==> (c.channel_id matches Some(t) ==> (!text::blank(t)
                ==> x.channel_id == Some(t)))
            &&& m.created matches Some(t) ==> x.timestamp == t
            &&& h.summary matches Some(t) ==> x.preview == t
            &&& m.subject matches Some(t) ==> (!text::blank(t) ==> x.subject == Some(t))
            &&& m.from matches Some(f) ==> (f.email matches Some(e) ==> (e.name matches Some(n)
                ==> (!text::blank(n) ==> x.sender == n)))
            &&& m.from matches Some(f) ==> (f.email matches Some(e) ==> (e.name is None ==> (
            e.address matches Some(a) ==> (!text::blank(a) ==> x.sender == a))))
        },
        (m.id matches Some(i) && !text::blank(i)) && (m.chat_id matches Some(c) && !text::blank(c))
            ==> hit_row(h) is Some,
{
}

/// What counts is the first container there is, whatever stands before it empty.
pub proof fn law_first_container_counts(v: Seq<SearchRespValueV>, i: int)
    requires
        0 <= i < v.len(),
        v[i].hits_containers.len() > 0,
        forall|j: int| 0 <= j < i ==> (#[trigger] v[j]).hits_containers.len() == 0,
    ensures
        first_container(v) == Some(v[i].hits_containers[0]),
    decreases i,
{
    if i > 0 {
        assert(v[0].hits_containers.len() == 0);
        let t = v.skip(1);
        assert(t[i - 1] == v[i]);
        assert forall|j: int| 0 <= j < i - 1 implies (#[trigger] t[j]).hits_containers.len()
            == 0 by {
            assert(t[j] == v[j + 1]);
        }
        law_first_container_counts(t, i - 1);
    }
}

/// A page holds the hits of its container, the number of all, and whether there are more.
pub proof fn law_page_is_that_of_its_container(v: JsonV, x: SearchRespV, c: HitsContainerV)
    ensures
        search_resp_of(v) == Some(x) && first_container(x.value) == Some(c) ==> search_page(v).hits
            == hit_rows(c.hits) && search_page(v).total == c.total && search_page(v).more == c.more,
        search_resp_of(v) is None ==> search_page(v).hits.len() == 0 && search_page(v).total is None
            && !search_page(v).more,
        search_resp_of(v) == Some(x) && first_container(x.value) is None ==> search_page(
            v,
        ).hits.len() == 0,
{
}

/// Hits are listed in the order in which they came.
pub proof fn law_hits_keep_their_order(a: Seq<HitV>, b: Seq<HitV>)
    ensures
        hit_rows(a + b) == hit_rows(a) + hit_rows(b),
    decreases b.len(),
{
    if b.len() == 0 {
        assert(a + b =~= a);
        assert(hit_rows(a) + hit_rows(b) =~= hit_rows(a));
    } else {
        law_hits_keep_their_order(a, b.drop_last());
        assert((a + b).drop_last() =~= a + b.drop_last());
        assert((a + b).last() == b.last());
        assert(hit_rows(a + b) =~= hit_rows(a) + hit_rows(b));
    }
}

/// Hits are shown one after the other, in the order of the list.
pub proof fn law_hits_are_shown_in_order(a: Seq<SearchHitInfoV>, b: Seq<SearchHitInfoV>)
    ensures
        hits_shown(a + b) == hits_shown(a) + hits_shown(b),
    decreases b.len(),
{
    if b.len() == 0 {
        assert(a + b =~= a);
        assert(hits_shown(a) + hits_shown(b) =~= hits_shown(a));
    } else {
        law_hits_are_shown_in_order(a, b.drop_last());
        assert((a + b).drop_last() =~= a + b.drop_last());
        assert((a + b).last() == b.last());
        assert(hits_shown(a + b) =~= hits_shown(a) + hits_shown(b));
    }
}

/// A search asks for messages that match the query, from a place and as many as given.
pub proof fn law_search_asks_for_the_query(query: Seq<char>, from: int, size: int)
    requires
        0 <= from <= u64::MAX,
        0 <= size <= u64::MAX,
    ensures
        ({
            let b = search_payload(query, from, size);
            &&& json::arr_of(json::get_of(b, "requests"@)) matches Some(a) && a.len() == 1
                && json::str_of(json::get2_of(a[0], "query"@, "queryString"@)) == Some(query)
                && json::u64_of(json::get_of(a[0], "from"@)) == Some(from as u64)
                && json::u64_of(json::get_of(a[0], "size"@)) == Some(size as u64)
                && json::arr_of(json::get_of(a[0], "entityTypes"@)) == Some(
                Seq::empty().push(JsonV::Str("chatMessage"@)),
            )
        }),
{
    broadcast use json::group_members;

    assert("requests"@.len() == 8) by {
        reveal_strlit("requests");
    }
    assert("entityTypes"@.len() == 11 && "entityTypes"@[0] == 'e') by {
        reveal_strlit("entityTypes");
    }
    assert("query"@.len() == 5) by {
        reveal_strlit("query");
    }
    assert("queryString"@.len() == 11 && "queryString"@[0] == 'q') by {
        reveal_strlit("queryString");
    }
    assert("from"@.len() == 4 && "from"@[0] == 'f') by {
        reveal_strlit("from");
    }
    assert("size"@.len() == 4 && "size"@[0] == 's') by {
        reveal_strlit("size");
    }
}

/// A hit is shown by its sender and its time, then by its conversation and its message; a
/// page says how many there are and whether there are more.
pub proof fn law_lines_of_hits(x: SearchHitInfoV, p: SearchPageV, n: i64)
    ensures
        (x.sender + " — "@ + x.timestamp + "\n  chat: "@ + x.chat_id + "\n  msg:  "@ + x.message_id
            + "\n  "@ + x.preview).is_prefix_of(hit_shown(x)),
        p.hits.len() == 0 ==> page_shown(p) == "  (no messages found)\n"@,
        p.hits.len() > 0 && p.total is None && !p.more ==> page_shown(p) == hits_shown(p.hits),
        p.hits.len() > 0 && p.total is None && p.more ==> page_shown(p) == hits_shown(p.hits)
            + "(more available — page with --from)\n"@,
{
    let q = x.sender + " — "@ + x.timestamp + "\n  chat: "@ + x.chat_id + "\n  msg:  "@
        + x.message_id + "\n  "@ + x.preview;
    assert(hit_shown(x).subrange(0, q.len() as int) =~= q);
    let h = hits_shown(p.hits);
    assert(h + Seq::empty() =~= h);
    assert(h + Seq::empty() + Seq::empty() =~= h);
}

} // verus!
