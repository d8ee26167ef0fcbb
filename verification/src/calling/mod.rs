//! Calls: signalling, relaying, media and recording.
use crate::json;
use crate::json::{Json, JsonV};
use crate::text;
use vstd::prelude::*;

pub mod audio;
pub mod call_flow;
pub mod call_test;
pub mod macav;
pub mod recording;
pub mod sdp_compress;
pub mod signaling;
pub mod turn;

verus! {

/// Links provided in a call invitation for signaling actions.
#[derive(Debug, Clone)]
pub struct CallLinks {
    pub acceptance: Option<String>,
    pub end: Option<String>,
    pub media_answer: Option<String>,
    pub p2p_fork_notification: Option<String>,
}

/// The model of [`CallLinks`].
pub struct CallLinksV {
    pub acceptance: Option<Seq<char>>,
    pub end: Option<Seq<char>>,
    pub media_answer: Option<Seq<char>>,
    pub p2p_fork_notification: Option<Seq<char>>,
}

impl View for CallLinks {
    type V = CallLinksV;

    open spec fn view(&self) -> CallLinksV {
        CallLinksV {
            acceptance: text::opt_text(self.acceptance),
            end: text::opt_text(self.end),
            media_answer: text::opt_text(self.media_answer),
            p2p_fork_notification: text::opt_text(self.p2p_fork_notification),
        }
    }
}

/// An optional [`CallLinks`] by its model.
pub open spec fn opt_call_links(o: Option<CallLinks>) -> Option<CallLinksV> {
    match o {
        Some(x) => Some(x@),
        None => None,
    }
}

/// How a JSON value reads as a [`CallLinks`]; nothing where it does not.
pub open spec fn call_links_of(v: JsonV) -> Option<CallLinksV> {
    if !json::record_form(v, 4, 4) {
        None
    } else {
        match (
            json::opt_text_member(json::member_of(v, "acceptance"@, 0)),
            json::opt_text_member(json::member_of(v, "end"@, 1)),
            json::opt_text_member(json::member_of(v, "mediaAnswer"@, 2)),
            json::opt_text_member(json::member_of(v, "p2pForkNotification"@, 3)),
        ) {
            (Some(acceptance), Some(end), Some(media_answer), Some(p2p_fork_notification)) => Some(
                CallLinksV { acceptance, end, media_answer, p2p_fork_notification },
            ),
            _ => None,
        }
    }
}

/// Reads a [`CallLinks`].
pub fn read_call_links(v: &Json) -> (r: Option<CallLinks>)
    ensures
        match r {
            Some(x) => call_links_of(v@) == Some(x@),
            None => call_links_of(v@) is None,
        },
{
    if !json::has_record_form(v, 4, 4) {
        return None;
    }
    let acceptance = match json::read_opt_text(json::member(v, "acceptance", 0)) {
        Some(x) => x,
        None => {
            return None;
        },
    };
    let end = match json::read_opt_text(json::member(v, "end", 1)) {
        Some(x) => x,
        None => {
            return None;
        },
    };
    let media_answer = match json::read_opt_text(json::member(v, "mediaAnswer", 2)) {
        Some(x) => x,
        None => {
            return None;
        },
    };
    let p2p_fork_notification = match json::read_opt_text(json::member(
        v, "p2pForkNotification", 3),
    ) {
        Some(x) => x,
        None => {
            return None;
        },
    };
    Some(CallLinks { acceptance, end, media_answer, p2p_fork_notification })
}

/// How an optional member reads as a [`CallLinks`].
pub open spec fn opt_call_links_member(m: Option<JsonV>) -> Option<Option<CallLinksV>> {
    match m {
        None => Some(None),
        Some(JsonV::Null) => Some(None),
        Some(j) => match call_links_of(j) {
            Some(x) => Some(Some(x)),
            None => None,
        },
    }
}

fn read_opt_call_links(m: Option<&Json>) -> (r: Option<Option<CallLinks>>)
    ensures
        match r {
            Some(o) => opt_call_links_member(json::opt_json(m)) == Some(opt_call_links(o)),
            None => opt_call_links_member(json::opt_json(m)) is None,
        },
{
    match m {
        None => Some(None),
        Some(j) => if j.is_null() {
            Some(None)
        } else {
            match read_call_links(j) {
                Some(x) => Some(Some(x)),
                None => None,
            }
        },
    }
}
/// Media content (SDP blob) of a call invitation.
#[derive(Debug, Clone)]
pub struct MediaContent {
    pub blob: Option<String>,
    pub content_type: Option<String>,
}

/// The model of [`MediaContent`].
pub struct MediaContentV {
    pub blob: Option<Seq<char>>,
    pub content_type: Option<Seq<char>>,
}

impl View for MediaContent {
    type V = MediaContentV;

    open spec fn view(&self) -> MediaContentV {
        MediaContentV {
            blob: text::opt_text(self.blob),
            content_type: text::opt_text(self.content_type),
        }
    }
}

/// An optional [`MediaContent`] by its model.
pub open spec fn opt_media_content(o: Option<MediaContent>) -> Option<MediaContentV> {
    match o {
        Some(x) => Some(x@),
        None => None,
    }
}

/// How a JSON value reads as a [`MediaContent`]; nothing where it does not.
pub open spec fn media_content_of(v: JsonV) -> Option<MediaContentV> {
    if !json::record_form(v, 2, 2) {
        None
    } else {
        match (
            json::opt_text_member(json::member_of(v, "blob"@, 0)),
            json::opt_text_member(json::member_of(v, "contentType"@, 1)),
        ) {
            (Some(blob), Some(content_type)) => Some(MediaContentV { blob, content_type }),
            _ => None,
        }
    }
}

/// Reads a [`MediaContent`].
pub fn read_media_content(v: &Json) -> (r: Option<MediaContent>)
    ensures
        match r {
            Some(x) => media_content_of(v@) == Some(x@),
            None => media_content_of(v@) is None,
        },
{
    if !json::has_record_form(v, 2, 2) {
        return None;
    }
    let blob = match json::read_opt_text(json::member(v, "blob", 0)) {
        Some(x) => x,
        None => {
            return None;
        },
    };
    let content_type = match json::read_opt_text(json::member(v, "contentType", 1)) {
        Some(x) => x,
        None => {
            return None;
        },
    };
    Some(MediaContent { blob, content_type })
}

/// How an optional member reads as a [`MediaContent`].
pub open spec fn opt_media_content_member(m: Option<JsonV>) -> Option<Option<MediaContentV>> {
    match m {
        None => Some(None),
        Some(JsonV::Null) => Some(None),
        Some(j) => match media_content_of(j) {
            Some(x) => Some(Some(x)),
            None => None,
        },
    }
}

fn read_opt_media_content(m: Option<&Json>) -> (r: Option<Option<MediaContent>>)
    ensures
        match r {
            Some(o) => opt_media_content_member(json::opt_json(m)) == Some(opt_media_content(o)),
            None => opt_media_content_member(json::opt_json(m)) is None,
        },
{
    match m {
        None => Some(None),
        Some(j) => if j.is_null() {
            Some(None)
        } else {
            match read_media_content(j) {
                Some(x) => Some(Some(x)),
                None => None,
            }
        },
    }
}
/// Participant identity.
#[derive(Debug, Clone)]
pub struct Participant {
    pub id: Option<String>,
    pub display_name: Option<String>,
    pub endpoint_id: Option<String>,
    pub language_id: Option<String>,
}

/// The model of [`Participant`].
pub struct ParticipantV {
    pub id: Option<Seq<char>>,
    pub display_name: Option<Seq<char>>,
    pub endpoint_id: Option<Seq<char>>,
    pub language_id: Option<Seq<char>>,
}

impl View for Participant {
    type V = ParticipantV;

    open spec fn view(&self) -> ParticipantV {
        ParticipantV {
            id: text::opt_text(self.id),
            display_name: text::opt_text(self.display_name),
            endpoint_id: text::opt_text(self.endpoint_id),
            language_id: text::opt_text(self.language_id),
        }
    }
}

/// An optional [`Participant`] by its model.
pub open spec fn opt_participant(o: Option<Participant>) -> Option<ParticipantV> {
    match o {
        Some(x) => Some(x@),
        None => None,
    }
}

/// A list of [`Participant`] by their models.
pub open spec fn participant_views(v: Seq<Participant>) -> Seq<ParticipantV> {
    Seq::new(v.len(), |i: int| v[i]@)
}

/// How a JSON value reads as a [`Participant`]; nothing where it does not.
pub open spec fn participant_of(v: JsonV) -> Option<ParticipantV> {
    if !json::record_form(v, 4, 4) {
        None
    } else {
        match (
            json::opt_text_member(json::member_of(v, "id"@, 0)),
            json::opt_text_member(json::member_of(v, "displayName"@, 1)),
            json::opt_text_member(json::member_of(v, "endpointId"@, 2)),
            json::opt_text_member(json::member_of(v, "languageId"@, 3)),
        ) {
            (Some(id), Some(display_name), Some(endpoint_id), Some(language_id)) => Some(
                ParticipantV { id, display_name, endpoint_id, language_id },
            ),
            _ => None,
        }
    }
}

/// Reads a [`Participant`].
pub fn read_participant(v: &Json) -> (r: Option<Participant>)
    ensures
        match r {
            Some(x) => participant_of(v@) == Some(x@),
            None => participant_of(v@) is None,
        },
{
    if !json::has_record_form(v, 4, 4) {
        return None;
    }
    let id = match json::read_opt_text(json::member(v, "id", 0)) {
        Some(x) => x,
        None => {
            return None;
        },
    };
    let display_name = match json::read_opt_text(json::member(v, "displayName", 1)) {
        Some(x) => x,
        None => {
            return None;
        },
    };
    let endpoint_id = match json::read_opt_text(json::member(v, "endpointId", 2)) {
        Some(x) => x,
        None => {
            return None;
        },
    };
    let language_id = match json::read_opt_text(json::member(v, "languageId", 3)) {
        Some(x) => x,
        None => {
            return None;
        },
    };
    Some(Participant { id, display_name, endpoint_id, language_id })
}

/// How an optional member reads as a [`Participant`].
pub open spec fn opt_participant_member(m: Option<JsonV>) -> Option<Option<ParticipantV>> {
    match m {
        None => Some(None),
        Some(JsonV::Null) => Some(None),
        Some(j) => match participant_of(j) {
            Some(x) => Some(Some(x)),
            None => None,
        },
    }
}

fn read_opt_participant(m: Option<&Json>) -> (r: Option<Option<Participant>>)
    ensures
        match r {
            Some(o) => opt_participant_member(json::opt_json(m)) == Some(opt_participant(o)),
            None => opt_participant_member(json::opt_json(m)) is None,
        },
{
    match m {
        None => Some(None),
        Some(j) => if j.is_null() {
            Some(None)
        } else {
            match read_participant(j) {
                Some(x) => Some(Some(x)),
                None => None,
            }
        },
    }
}

/// How a list of JSON values reads as a list of [`Participant`]: all of them or none.
pub open spec fn participant_list(a: Seq<JsonV>) -> Option<Seq<ParticipantV>>
    decreases a.len(),
{
    if a.len() == 0 {
        Some(Seq::empty())
    } else {
        match (participant_list(a.drop_last()), participant_of(a.last())) {
            (Some(l), Some(x)) => Some(l.push(x)),
            _ => None,
        }
    }
}

proof fn lemma_participant_list_prefix(a: Seq<JsonV>, i: int)
    requires
        0 <= i <= a.len(),
        participant_list(a.take(i)) is None,
    ensures
        participant_list(a) is None,
    decreases a.len() - i,
{
    if i < a.len() {
        assert(a.take(i + 1).drop_last() =~= a.take(i));
        lemma_participant_list_prefix(a, i + 1);
    } else {
        assert(a.take(i) =~= a);
    }
}

fn read_participant_list(a: &Vec<Json>) -> (r: Option<Vec<Participant>>)
    ensures
        match r {
            Some(l) => participant_list(json::items_view(a@)) == Some(participant_views(l@)),
            None => participant_list(json::items_view(a@)) is None,
        },
{
    let ghost all = json::items_view(a@);
    let mut out: Vec<Participant> = Vec::new();
    let mut i: usize = 0;
    proof {
        assert(all.take(0) =~= Seq::empty());
        assert(participant_views(out@) =~= Seq::empty());
    }
    while i < a.len()
        invariant
            i <= a@.len(),
            all == json::items_view(a@),
            participant_list(all.take(i as int)) == Some(participant_views(out@)),
        decreases a@.len() - i,
    {
        proof {
            assert(all.take(i + 1).drop_last() =~= all.take(i as int));
            assert(all.take(i + 1).last() == a@[i as int]@);
        }
        match read_participant(&a[i]) {
            Some(x) => {
                let ghost before = out@;
                out.push(x);
                proof {
                    assert(participant_views(out@) =~= participant_views(before).push(x@));
                }
            },
            None => {
                proof {
                    lemma_participant_list_prefix(all, i + 1);
                }
                return None;
            },
        }
        i = i + 1;
    }
    proof {
        assert(all.take(i as int) =~= all);
    }
    Some(out)
}

/// How an optional list member reads.
pub open spec fn opt_participant_list_member(m: Option<JsonV>) -> Option<
    Option<Seq<ParticipantV>>,
> {
    match m {
        None => Some(None),
        Some(JsonV::Null) => Some(None),
        Some(JsonV::Arr(a)) => match participant_list(a) {
            Some(l) => Some(Some(l)),
            None => None,
        },
        _ => None,
    }
}

fn read_opt_participant_list(m: Option<&Json>) -> (r: Option<Option<Vec<Participant>>>)
    ensures
        match r {
            Some(Some(l)) => opt_participant_list_member(json::opt_json(m)) == Some(
                Some(participant_views(l@)),
            ),
            Some(None) => opt_participant_list_member(json::opt_json(m)) == Some(
                None::<Seq<ParticipantV>>,
            ),
            None => opt_participant_list_member(json::opt_json(m)) is None,
        },
{
    match m {
        None => Some(None),
        Some(Json::Null) => Some(None),
        Some(Json::Arr(a)) => {
            proof {
                json::lemma_arr_view(*a);
            }
            match read_participant_list(a) {
                Some(l) => Some(Some(l)),
                None => None,
            }
        },
        _ => None,
    }
}
/// Participants block of an invitation.
#[derive(Debug, Clone)]
pub struct Participants {
    pub from: Option<Participant>,
    pub to: Option<Vec<Participant>>,
}

/// The model of [`Participants`].
pub struct ParticipantsV {
    pub from: Option<ParticipantV>,
    pub to: Option<Seq<ParticipantV>>,
}

impl View for Participants {
    type V = ParticipantsV;

    open spec fn view(&self) -> ParticipantsV {
        ParticipantsV {
            from: opt_participant(self.from),
            to: match self.to { Some(a) => Some(participant_views(a@)), None => None },
        }
    }
}

/// An optional [`Participants`] by its model.
pub open spec fn opt_participants(o: Option<Participants>) -> Option<ParticipantsV> {
    match o {
        Some(x) => Some(x@),
        None => None,
    }
}

/// How a JSON value reads as a [`Participants`]; nothing where it does not.
pub open spec fn participants_of(v: JsonV) -> Option<ParticipantsV> {
    if !json::record_form(v, 2, 2) {
        None
    } else {
        match (
            opt_participant_member(json::member_of(v, "from"@, 0)),
            opt_participant_list_member(json::member_of(v, "to"@, 1)),
        ) {
            (Some(from), Some(to)) => Some(ParticipantsV { from, to }),
            _ => None,
        }
    }
}

/// Reads a [`Participants`].
pub fn read_participants(v: &Json) -> (r: Option<Participants>)
    ensures
        match r {
            Some(x) => participants_of(v@) == Some(x@),
            None => participants_of(v@) is None,
        },
{
    if !json::has_record_form(v, 2, 2) {
        return None;
    }
    let from = match read_opt_participant(json::member(v, "from", 0)) {
        Some(x) => x,
        None => {
            return None;
        },
    };
    let to = match read_opt_participant_list(json::member(v, "to", 1)) {
        Some(x) => x,
        None => {
            return None;
        },
    };
    Some(Participants { from, to })
}

/// How an optional member reads as a [`Participants`].
pub open spec fn opt_participants_member(m: Option<JsonV>) -> Option<Option<ParticipantsV>> {
    match m {
        None => Some(None),
        Some(JsonV::Null) => Some(None),
        Some(j) => match participants_of(j) {
            Some(x) => Some(Some(x)),
            None => None,
        },
    }
}

fn read_opt_participants(m: Option<&Json>) -> (r: Option<Option<Participants>>)
    ensures
        match r {
            Some(o) => opt_participants_member(json::opt_json(m)) == Some(opt_participants(o)),
            None => opt_participants_member(json::opt_json(m)) is None,
        },
{
    match m {
        None => Some(None),
        Some(j) => if j.is_null() {
            Some(None)
        } else {
            match read_participants(j) {
                Some(x) => Some(Some(x)),
                None => None,
            }
        },
    }
}
/// Conversation request links.
#[derive(Debug, Clone)]
pub struct ConversationLinks {
    pub conversation_end: Option<String>,
    pub conversation_update: Option<String>,
    pub local_participant_update: Option<String>,
}

/// The model of [`ConversationLinks`].
pub struct ConversationLinksV {
    pub conversation_end: Option<Seq<char>>,
    pub conversation_update: Option<Seq<char>>,
    pub local_participant_update: Option<Seq<char>>,
}

impl View for ConversationLinks {
    type V = ConversationLinksV;

    open spec fn view(&self) -> ConversationLinksV {
        ConversationLinksV {
            conversation_end: text::opt_text(self.conversation_end),
            conversation_update: text::opt_text(self.conversation_update),
            local_participant_update: text::opt_text(self.local_participant_update),
        }
    }
}

/// An optional [`ConversationLinks`] by its model.
pub open spec fn opt_conversation_links(o: Option<ConversationLinks>) -> Option<
    ConversationLinksV,
> {
    match o {
        Some(x) => Some(x@),
        None => None,
    }
}

/// How a JSON value reads as a [`ConversationLinks`]; nothing where it does not.
pub open spec fn conversation_links_of(v: JsonV) -> Option<ConversationLinksV> {
    if !json::record_form(v, 3, 3) {
        None
    } else {
        match (
            json::opt_text_member(json::member_of(v, "conversationEnd"@, 0)),
            json::opt_text_member(json::member_of(v, "conversationUpdate"@, 1)),
            json::opt_text_member(json::member_of(v, "localParticipantUpdate"@, 2)),
        ) {
            (
                Some(conversation_end),
                Some(conversation_update),
                Some(local_participant_update),
            ) => Some(
                ConversationLinksV {
                    conversation_end,
                    conversation_update,
                    local_participant_update,
                },
            ),
            _ => None,
        }
    }
}

/// Reads a [`ConversationLinks`].
pub fn read_conversation_links(v: &Json) -> (r: Option<ConversationLinks>)
    ensures
        match r {
            Some(x) => conversation_links_of(v@) == Some(x@),
            None => conversation_links_of(v@) is None,
        },
{
    if !json::has_record_form(v, 3, 3) {
        return None;
    }
    let conversation_end = match json::read_opt_text(json::member(v, "conversationEnd", 0)) {
        Some(x) => x,
        None => {
            return None;
        },
    };
    let conversation_update = match json::read_opt_text(json::member(v, "conversationUpdate", 1)) {
        Some(x) => x,
        None => {
            return None;
        },
    };
    let local_participant_update = match json::read_opt_text(json::member(
        v, "localParticipantUpdate", 2),
    ) {
        Some(x) => x,
        None => {
            return None;
        },
    };
    Some(ConversationLinks { conversation_end, conversation_update, local_participant_update })
}

/// How an optional member reads as a [`ConversationLinks`].
pub open spec fn opt_conversation_links_member(m: Option<JsonV>) -> Option<
    Option<ConversationLinksV>,
> {
    match m {
        None => Some(None),
        Some(JsonV::Null) => Some(None),
        Some(j) => match conversation_links_of(j) {
            Some(x) => Some(Some(x)),
            None => None,
        },
    }
}

fn read_opt_conversation_links(m: Option<&Json>) -> (r: Option<Option<ConversationLinks>>)
    ensures
        match r {
            Some(o) => opt_conversation_links_member(json::opt_json(m)) == Some(
                opt_conversation_links(o),
            ),
            None => opt_conversation_links_member(json::opt_json(m)) is None,
        },
{
    match m {
        None => Some(None),
        Some(j) => if j.is_null() {
            Some(None)
        } else {
            match read_conversation_links(j) {
                Some(x) => Some(Some(x)),
                None => None,
            }
        },
    }
}
/// Conversation request of an invitation.
#[derive(Debug, Clone)]
pub struct ConversationRequest {
    pub links: Option<ConversationLinks>,
}

/// The model of [`ConversationRequest`].
pub struct ConversationRequestV {
    pub links: Option<ConversationLinksV>,
}

impl View for ConversationRequest {
    type V = ConversationRequestV;

    open spec fn view(&self) -> ConversationRequestV {
        ConversationRequestV {
            links: opt_conversation_links(self.links),
        }
    }
}

/// An optional [`ConversationRequest`] by its model.
pub open spec fn opt_conversation_request(o: Option<ConversationRequest>) -> Option<
    ConversationRequestV,
> {
    match o {
        Some(x) => Some(x@),
        None => None,
    }
}

/// How a JSON value reads as a [`ConversationRequest`]; nothing where it does not.
pub open spec fn conversation_request_of(v: JsonV) -> Option<ConversationRequestV> {
    if !json::record_form(v, 1, 1) {
        None
    } else {
        match opt_conversation_links_member(json::member_of(v, "links"@, 0)) {
            Some(links) => Some(ConversationRequestV { links }),
            None => None,
        }
    }
}

/// Reads a [`ConversationRequest`].
pub fn read_conversation_request(v: &Json) -> (r: Option<ConversationRequest>)
    ensures
        match r {
            Some(x) => conversation_request_of(v@) == Some(x@),
            None => conversation_request_of(v@) is None,
        },
{
    if !json::has_record_form(v, 1, 1) {
        return None;
    }
    let links = match read_opt_conversation_links(json::member(v, "links", 0)) {
        Some(x) => x,
        None => {
            return None;
        },
    };
    Some(ConversationRequest { links })
}

/// How an optional member reads as a [`ConversationRequest`].
pub open spec fn opt_conversation_request_member(m: Option<JsonV>) -> Option<
    Option<ConversationRequestV>,
> {
    match m {
        None => Some(None),
        Some(JsonV::Null) => Some(None),
        Some(j) => match conversation_request_of(j) {
            Some(x) => Some(Some(x)),
            None => None,
        },
    }
}

fn read_opt_conversation_request(m: Option<&Json>) -> (r: Option<Option<ConversationRequest>>)
    ensures
        match r {
            Some(o) => opt_conversation_request_member(json::opt_json(m)) == Some(
                opt_conversation_request(o),
            ),
            None => opt_conversation_request_member(json::opt_json(m)) is None,
        },
{
    match m {
        None => Some(None),
        Some(j) => if j.is_null() {
            Some(None)
        } else {
            match read_conversation_request(j) {
                Some(x) => Some(Some(x)),
                None => None,
            }
        },
    }
}
/// Debug content with call, endpoint and operation ids.
#[derive(Debug, Clone)]
pub struct DebugContent {
    pub call_id: Option<String>,
    pub endpoint_id: Option<String>,
    pub operation_id: Option<String>,
}

/// The model of [`DebugContent`].
pub struct DebugContentV {
    pub call_id: Option<Seq<char>>,
    pub endpoint_id: Option<Seq<char>>,
    pub operation_id: Option<Seq<char>>,
}

impl View for DebugContent {
    type V = DebugContentV;

    open spec fn view(&self) -> DebugContentV {
        DebugContentV {
            call_id: text::opt_text(self.call_id),
            endpoint_id: text::opt_text(self.endpoint_id),
            operation_id: text::opt_text(self.operation_id),
        }
    }
}

/// An optional [`DebugContent`] by its model.
pub open spec fn opt_debug_content(o: Option<DebugContent>) -> Option<DebugContentV> {
    match o {
        Some(x) => Some(x@),
        None => None,
    }
}

/// How a JSON value reads as a [`DebugContent`]; nothing where it does not.
pub open spec fn debug_content_of(v: JsonV) -> Option<DebugContentV> {
    if !json::record_form(v, 3, 3) {
        None
    } else {
        match (
            json::opt_text_member(json::member_of(v, "callId"@, 0)),
            json::opt_text_member(json::member_of(v, "endpointId"@, 1)),
            json::opt_text_member(json::member_of(v, "operationId"@, 2)),
        ) {
            (Some(call_id), Some(endpoint_id), Some(operation_id)) => Some(
                DebugContentV { call_id, endpoint_id, operation_id },
            ),
            _ => None,
        }
    }
}

/// Reads a [`DebugContent`].
pub fn read_debug_content(v: &Json) -> (r: Option<DebugContent>)
    ensures
        match r {
            Some(x) => debug_content_of(v@) == Some(x@),
            None => debug_content_of(v@) is None,
        },
{
    if !json::has_record_form(v, 3, 3) {
        return None;
    }
    let call_id = match json::read_opt_text(json::member(v, "callId", 0)) {
        Some(x) => x,
        None => {
            return None;
        },
    };
    let endpoint_id = match json::read_opt_text(json::member(v, "endpointId", 1)) {
        Some(x) => x,
        None => {
            return None;
        },
    };
    let operation_id = match json::read_opt_text(json::member(v, "operationId", 2)) {
        Some(x) => x,
        None => {
            return None;
        },
    };
    Some(DebugContent { call_id, endpoint_id, operation_id })
}

/// How an optional member reads as a [`DebugContent`].
pub open spec fn opt_debug_content_member(m: Option<JsonV>) -> Option<Option<DebugContentV>> {
    match m {
        None => Some(None),
        Some(JsonV::Null) => Some(None),
        Some(j) => match debug_content_of(j) {
            Some(x) => Some(Some(x)),
            None => None,
        },
    }
}

fn read_opt_debug_content(m: Option<&Json>) -> (r: Option<Option<DebugContent>>)
    ensures
        match r {
            Some(o) => opt_debug_content_member(json::opt_json(m)) == Some(opt_debug_content(o)),
            None => opt_debug_content_member(json::opt_json(m)) is None,
        },
{
    match m {
        None => Some(None),
        Some(j) => if j.is_null() {
            Some(None)
        } else {
            match read_debug_content(j) {
                Some(x) => Some(Some(x)),
                None => None,
            }
        },
    }
}
/// The core call invitation of a push.
#[derive(Debug, Clone)]
pub struct CallInvitation {
    pub call_modalities: Option<Vec<String>>,
    pub links: Option<CallLinks>,
    pub media_content: Option<MediaContent>,
}

/// The model of [`CallInvitation`].
pub struct CallInvitationV {
    pub call_modalities: Option<Seq<Seq<char>>>,
    pub links: Option<CallLinksV>,
    pub media_content: Option<MediaContentV>,
}

impl View for CallInvitation {
    type V = CallInvitationV;

    open spec fn view(&self) -> CallInvitationV {
        CallInvitationV {
            call_modalities: match self.call_modalities {
                Some(a) => Some(text::texts(a@)),
                None => None,
            },
            links: opt_call_links(self.links),
            media_content: opt_media_content(self.media_content),
        }
    }
}

/// An optional [`CallInvitation`] by its model.
pub open spec fn opt_call_invitation(o: Option<CallInvitation>) -> Option<CallInvitationV> {
    match o {
        Some(x) => Some(x@),
        None => None,
    }
}

/// How a JSON value reads as a [`CallInvitation`]; nothing where it does not.
pub open spec fn call_invitation_of(v: JsonV) -> Option<CallInvitationV> {
    if !json::record_form(v, 3, 3) {
        None
    } else {
        match (
            json::opt_texts_member(json::member_of(v, "callModalities"@, 0)),
            opt_call_links_member(json::member_of(v, "links"@, 1)),
            opt_media_content_member(json::member_of(v, "mediaContent"@, 2)),
        ) {
            (Some(call_modalities), Some(links), Some(media_content)) => Some(
                CallInvitationV { call_modalities, links, media_content },
            ),
            _ => None,
        }
    }
}

/// Reads a [`CallInvitation`].
pub fn read_call_invitation(v: &Json) -> (r: Option<CallInvitation>)
    ensures
        match r {
            Some(x) => call_invitation_of(v@) == Some(x@),
            None => call_invitation_of(v@) is None,
        },
{
    if !json::has_record_form(v, 3, 3) {
        return None;
    }
    let call_modalities = match json::read_opt_texts(json::member(v, "callModalities", 0)) {
        Some(x) => x,
        None => {
            return None;
        },
    };
    let links = match read_opt_call_links(json::member(v, "links", 1)) {
        Some(x) => x,
        None => {
            return None;
        },
    };
    let media_content = match read_opt_media_content(json::member(v, "mediaContent", 2)) {
        Some(x) => x,
        None => {
            return None;
        },
    };
    Some(CallInvitation { call_modalities, links, media_content })
}

/// How an optional member reads as a [`CallInvitation`].
pub open spec fn opt_call_invitation_member(m: Option<JsonV>) -> Option<Option<CallInvitationV>> {
    match m {
        None => Some(None),
        Some(JsonV::Null) => Some(None),
        Some(j) => match call_invitation_of(j) {
            Some(x) => Some(Some(x)),
            None => None,
        },
    }
}

fn read_opt_call_invitation(m: Option<&Json>) -> (r: Option<Option<CallInvitation>>)
    ensures
        match r {
            Some(o) => opt_call_invitation_member(json::opt_json(m)) == Some(
                opt_call_invitation(o),
            ),
            None => opt_call_invitation_member(json::opt_json(m)) is None,
        },
{
    match m {
        None => Some(None),
        Some(j) => if j.is_null() {
            Some(None)
        } else {
            match read_call_invitation(j) {
                Some(x) => Some(Some(x)),
                None => None,
            }
        },
    }
}
/// Top-level envelope of a pushed call notification.
#[derive(Debug, Clone)]
pub struct CallNotification {
    pub call_invitation: Option<CallInvitation>,
    pub participants: Option<Participants>,
    pub conversation_request: Option<ConversationRequest>,
    pub debug_content: Option<DebugContent>,
}

/// The model of [`CallNotification`].
pub struct CallNotificationV {
    pub call_invitation: Option<CallInvitationV>,
    pub participants: Option<ParticipantsV>,
    pub conversation_request: Option<ConversationRequestV>,
    pub debug_content: Option<DebugContentV>,
}

impl View for CallNotification {
    type V = CallNotificationV;

    open spec fn view(&self) -> CallNotificationV {
        CallNotificationV {
            call_invitation: opt_call_invitation(self.call_invitation),
            participants: opt_participants(self.participants),
            conversation_request: opt_conversation_request(self.conversation_request),
            debug_content: opt_debug_content(self.debug_content),
        }
    }
}

/// An optional [`CallNotification`] by its model.
pub open spec fn opt_call_notification(o: Option<CallNotification>) -> Option<CallNotificationV> {
    match o {
        Some(x) => Some(x@),
        None => None,
    }
}

/// How a JSON value reads as a [`CallNotification`]; nothing where it does not.
pub open spec fn call_notification_of(v: JsonV) -> Option<CallNotificationV> {
    if !json::record_form(v, 4, 4) {
        None
    } else {
        match (
            opt_call_invitation_member(json::member_of(v, "callInvitation"@, 0)),
            opt_participants_member(json::member_of(v, "participants"@, 1)),
            opt_conversation_request_member(json::member_of(v, "conversationRequest"@, 2)),
            opt_debug_content_member(json::member_of(v, "debugContent"@, 3)),
        ) {
            (
                Some(call_invitation),
                Some(participants),
                Some(conversation_request),
                Some(debug_content),
            ) => Some(
                CallNotificationV {
                    call_invitation,
                    participants,
                    conversation_request,
                    debug_content,
                },
            ),
            _ => None,
        }
    }
}

/// Reads a [`CallNotification`].
pub fn read_call_notification(v: &Json) -> (r: Option<CallNotification>)
    ensures
        match r {
            Some(x) => call_notification_of(v@) == Some(x@),
            None => call_notification_of(v@) is None,
        },
{
    if !json::has_record_form(v, 4, 4) {
        return None;
    }
    let call_invitation = match read_opt_call_invitation(json::member(v, "callInvitation", 0)) {
        Some(x) => x,
        None => {
            return None;
        },
    };
    let participants = match read_opt_participants(json::member(v, "participants", 1)) {
        Some(x) => x,
        None => {
            return None;
        },
    };
    let conversation_request = match read_opt_conversation_request(json::member(
        v, "conversationRequest", 2),
    ) {
        Some(x) => x,
        None => {
            return None;
        },
    };
    let debug_content = match read_opt_debug_content(json::member(v, "debugContent", 3)) {
        Some(x) => x,
        None => {
            return None;
        },
    };
    Some(CallNotification { call_invitation, participants, conversation_request, debug_content })
}

/// Simple call lifecycle state.
#[derive(Debug, Clone, Copy, PartialEq, Eq, Structural)]
pub enum CallState {
    Idle,
    Ringing,
    Accepting,
    Connected,
    Ended,
}

/// Where a pushed event keeps its call notification.
pub enum PushedCall {
    /// The event holds it, as far as it reads.
    Here(Option<CallNotification>),
    /// It is spelled out in a text of its own.
    Nested(String),
    /// The event holds none.
    Nothing,
}

/// The model of [`PushedCall`].
pub enum PushedCallV {
    Here(Option<CallNotificationV>),
    Nested(Seq<char>),
    Nothing,
}

impl View for PushedCall {
    type V = PushedCallV;

    open spec fn view(&self) -> PushedCallV {
        match self {
            PushedCall::Here(n) => PushedCallV::Here(opt_call_notification(*n)),
            PushedCall::Nested(s) => PushedCallV::Nested(s@),
            PushedCall::Nothing => PushedCallV::Nothing,
        }
    }
}

/// A call notification is the event itself, or its body: as an object, or as
/// JSON text inside a string.
pub open spec fn pushed_call(v: JsonV) -> PushedCallV {
    if json::get_of(v, "callInvitation"@) is Some {
        PushedCallV::Here(call_notification_of(v))
    } else {
        match json::get_of(v, "body"@) {
            Some(JsonV::Str(s)) => PushedCallV::Nested(s),
            Some(b) => if json::get_of(b, "callInvitation"@) is Some {
                PushedCallV::Here(call_notification_of(b))
            } else {
                PushedCallV::Nothing
            },
            None => PushedCallV::Nothing,
        }
    }
}

/// Finds the call notification of a pushed event.
pub fn find_pushed_call(v: &Json) -> (r: PushedCall)
    ensures
        r@ == pushed_call(v@),
{
    if v.get("callInvitation").is_some() {
        return PushedCall::Here(read_call_notification(v));
    }
    match v.get("body") {
        Some(Json::Str(s)) => PushedCall::Nested(s.clone()),
        Some(b) => if b.get("callInvitation").is_some() {
            PushedCall::Here(read_call_notification(b))
        } else {
            PushedCall::Nothing
        },
        None => PushedCall::Nothing,
    }
}

/// The call notification in the text of an event.
pub open spec fn notification_in(text: Seq<char>) -> Option<CallNotificationV>
    decreases text.len(),
{
    match json::json_text(text) {
        Some(v) => match pushed_call(v) {
            PushedCallV::Here(n) => n,
            PushedCallV::Nested(s) => if s.len() < text.len() {
                notification_in(s)
            } else {
                None
            },
            PushedCallV::Nothing => None,
        },
        None => None,
    }
}

/// Parses a call notification from the JSON text of a pushed event.
pub fn parse_call_notification(json_str: &str) -> (r: Option<CallNotification>)
    ensures
        opt_call_notification(r) == notification_in(json_str@),
    decreases json_str@.len(),
{
    match json::parse_json(json_str) {
        Some(v) => match find_pushed_call(&v) {
            PushedCall::Here(n) => n,
            PushedCall::Nested(s) => {
                proof {
                    assert(json::str_of(json::get_of(v@, "body"@)) == Some(s@));
                }
                parse_call_notification(s.as_str())
            },
            PushedCall::Nothing => None,
        },
        None => None,
    }
}

// -- What is read --

/// What is read of a [`CallLinks`] stands in the members of these names, and it is read
/// where they hold what they should.
pub proof fn law_call_links_reads_its_members(v: JsonV)
    requires
        v is Obj,
    ensures
        match call_links_of(v) {
            Some(x) => {
                &&& x.acceptance == json::str_of(json::get_of(v, "acceptance"@))
                &&& x.end == json::str_of(json::get_of(v, "end"@))
                &&& x.media_answer == json::str_of(json::get_of(v, "mediaAnswer"@))
                &&& x.p2p_fork_notification == json::str_of(json::get_of(v, "p2pForkNotification"@))
            },
            None => !(json::opt_text_member(json::get_of(v, "acceptance"@)) is Some
                && json::opt_text_member(json::get_of(v, "end"@)) is Some
                && json::opt_text_member(json::get_of(v, "mediaAnswer"@)) is Some
                && json::opt_text_member(json::get_of(v, "p2pForkNotification"@)) is Some),
        },
{
}

/// What is read of a [`MediaContent`] stands in the members of these names, and it is read
/// where they hold what they should.
pub proof fn law_media_content_reads_its_members(v: JsonV)
    requires
        v is Obj,
    ensures
        match media_content_of(v) {
            Some(x) => {
                &&& x.blob == json::str_of(json::get_of(v, "blob"@))
                &&& x.content_type == json::str_of(json::get_of(v, "contentType"@))
            },
            None => !(json::opt_text_member(json::get_of(v, "blob"@)) is Some
                && json::opt_text_member(json::get_of(v, "contentType"@)) is Some),
        },
{
}

/// What is read of a [`Participant`] stands in the members of these names, and it is read
/// where they hold what they should.
pub proof fn law_participant_reads_its_members(v: JsonV)
    requires
        v is Obj,
    ensures
        match participant_of(v) {
            Some(x) => {
                &&& x.id == json::str_of(json::get_of(v, "id"@))
                &&& x.display_name == json::str_of(json::get_of(v, "displayName"@))
                &&& x.endpoint_id == json::str_of(json::get_of(v, "endpointId"@))
                &&& x.language_id == json::str_of(json::get_of(v, "languageId"@))
            },
            None => !(json::opt_text_member(json::get_of(v, "id"@)) is Some
                && json::opt_text_member(json::get_of(v, "displayName"@)) is Some
                && json::opt_text_member(json::get_of(v, "endpointId"@)) is Some
                && json::opt_text_member(json::get_of(v, "languageId"@)) is Some),
        },
{
}

// The entries of a list, in their order.
proof fn lemma_participant_list_entries(a: Seq<JsonV>)
    ensures
        participant_list(a) matches Some(l) ==> l.len() == a.len() && forall|i: int|
            0 <= i < a.len() ==> participant_of(a[i]) == Some(#[trigger] l[i]),
    decreases a.len(),
{
    if a.len() > 0 {
        lemma_participant_list_entries(a.drop_last());
        if let Some(l) = participant_list(a) {
            assert forall|i: int| 0 <= i < a.len() implies participant_of(a[i])
                == Some(#[trigger] l[i]) by {
                if i < a.len() - 1 {
                    let before = participant_list(a.drop_last())->0;
                    assert(l[i] == before[i]);
                    assert(a.drop_last()[i] == a[i]);
                }
            }
        }
    }
}

/// What is read of a [`Participants`] stands in the members of these names, and it is read
/// where they hold what they should.
pub proof fn law_participants_reads_its_members(v: JsonV)
    requires
        v is Obj,
    ensures
        match participants_of(v) {
            Some(x) => {
                &&& (json::get_of(v, "from"@) is None
                    || json::get_of(v, "from"@) == Some(JsonV::Null)) ==> x.from is None
                &&& json::get_of(v, "from"@) matches Some(w) ==> w != JsonV::Null ==> x.from is Some
                    && participant_of(w) == x.from
                &&& x.to is None <==> json::get_of(v, "to"@) is None
                    || json::get_of(v, "to"@) == Some(JsonV::Null)
                &&& x.to matches Some(l)
                    ==> (json::arr_of(json::get_of(v, "to"@)) matches Some(a) && l.len() == a.len()
                    && forall|i: int| 0 <= i < a.len()
                    ==> participant_of(a[i]) == Some(#[trigger] l[i]))
            },
            None => !(opt_participant_member(json::get_of(v, "from"@)) is Some
                && opt_participant_list_member(json::get_of(v, "to"@)) is Some),
        },
{
    if let Some(JsonV::Arr(a)) = json::get_of(v, "to"@) {
        lemma_participant_list_entries(a);
    }
}

/// What is read of a [`ConversationLinks`] stands in the members of these names, and it is read
/// where they hold what they should.
pub proof fn law_conversation_links_reads_its_members(v: JsonV)
    requires
        v is Obj,
    ensures
        match conversation_links_of(v) {
            Some(x) => {
                &&& x.conversation_end == json::str_of(json::get_of(v, "conversationEnd"@))
                &&& x.conversation_update == json::str_of(json::get_of(v, "conversationUpdate"@))
                &&& x.local_participant_update
                    == json::str_of(json::get_of(v, "localParticipantUpdate"@))
            },
            None => !(json::opt_text_member(json::get_of(v, "conversationEnd"@)) is Some
                && json::opt_text_member(json::get_of(v, "conversationUpdate"@)) is Some
                && json::opt_text_member(json::get_of(v, "localParticipantUpdate"@)) is Some),
        },
{
}

/// What is read of a [`ConversationRequest`] stands in the members of these names, and it is read
/// where they hold what they should.
pub proof fn law_conversation_request_reads_its_members(v: JsonV)
    requires
        v is Obj,
    ensures
        match conversation_request_of(v) {
            Some(x) => {
                &&& (json::get_of(v, "links"@) is None
                    || json::get_of(v, "links"@) == Some(JsonV::Null)) ==> x.links is None
                &&& json::get_of(v, "links"@) matches Some(w) ==> w != JsonV::Null
                    ==> x.links is Some && conversation_links_of(w) == x.links
            },
            None => !(opt_conversation_links_member(json::get_of(v, "links"@)) is Some),
        },
{
}

/// What is read of a [`DebugContent`] stands in the members of these names, and it is read
/// where they hold what they should.
pub proof fn law_debug_content_reads_its_members(v: JsonV)
    requires
        v is Obj,
    ensures
        match debug_content_of(v) {
            Some(x) => {
                &&& x.call_id == json::str_of(json::get_of(v, "callId"@))
                &&& x.endpoint_id == json::str_of(json::get_of(v, "endpointId"@))
                &&& x.operation_id == json::str_of(json::get_of(v, "operationId"@))
            },
            None => !(json::opt_text_member(json::get_of(v, "callId"@)) is Some
                && json::opt_text_member(json::get_of(v, "endpointId"@)) is Some
                && json::opt_text_member(json::get_of(v, "operationId"@)) is Some),
        },
{
}

/// What is read of a [`CallInvitation`] stands in the members of these names, and it is read
/// where they hold what they should.
pub proof fn law_call_invitation_reads_its_members(v: JsonV)
    requires
        v is Obj,
    ensures
        match call_invitation_of(v) {
            Some(x) => {
                &&& json::opt_texts_member(json::get_of(v, "callModalities"@))
                    == Some(x.call_modalities)
                &&& (json::get_of(v, "links"@) is None
                    || json::get_of(v, "links"@) == Some(JsonV::Null)) ==> x.links is None
                &&& json::get_of(v, "links"@) matches Some(w) ==> w != JsonV::Null
                    ==> x.links is Some && call_links_of(w) == x.links
                &&& (json::get_of(v, "mediaContent"@) is None
                    || json::get_of(v, "mediaContent"@) == Some(JsonV::Null))
                    ==> x.media_content is None
                &&& json::get_of(v, "mediaContent"@) matches Some(w) ==> w != JsonV::Null
                    ==> x.media_content is Some && media_content_of(w) == x.media_content
            },
            None => !(json::opt_texts_member(json::get_of(v, "callModalities"@)) is Some
                && opt_call_links_member(json::get_of(v, "links"@)) is Some
                && opt_media_content_member(json::get_of(v, "mediaContent"@)) is Some),
        },
{
}

/// What is read of a [`CallNotification`] stands in the members of these names, and it is read
/// where they hold what they should.
pub proof fn law_call_notification_reads_its_members(v: JsonV)
    requires
        v is Obj,
    ensures
        match call_notification_of(v) {
            Some(x) => {
                &&& (json::get_of(v, "callInvitation"@) is None
                    || json::get_of(v, "callInvitation"@) == Some(JsonV::Null))
                    ==> x.call_invitation is None
                &&& json::get_of(v, "callInvitation"@) matches Some(w) ==> w != JsonV::Null
                    ==> x.call_invitation is Some && call_invitation_of(w) == x.call_invitation
                &&& (json::get_of(v, "participants"@) is None
                    || json::get_of(v, "participants"@) == Some(JsonV::Null))
                    ==> x.participants is None
                &&& json::get_of(v, "participants"@) matches Some(w) ==> w != JsonV::Null
                    ==> x.participants is Some && participants_of(w) == x.participants
                &&& (json::get_of(v, "conversationRequest"@) is None
                    || json::get_of(v, "conversationRequest"@) == Some(JsonV::Null))
                    ==> x.conversation_request is None
                &&& json::get_of(v, "conversationRequest"@) matches Some(w) ==> w != JsonV::Null
                    ==> x.conversation_request is Some
                    && conversation_request_of(w) == x.conversation_request
                &&& (json::get_of(v, "debugContent"@) is None
                    || json::get_of(v, "debugContent"@) == Some(JsonV::Null))
                    ==> x.debug_content is None
                &&& json::get_of(v, "debugContent"@) matches Some(w) ==> w != JsonV::Null
                    ==> x.debug_content is Some && debug_content_of(w) == x.debug_content
            },
            None => !(opt_call_invitation_member(json::get_of(v, "callInvitation"@)) is Some
                && opt_participants_member(json::get_of(v, "participants"@)) is Some
                && opt_conversation_request_member(json::get_of(v, "conversationRequest"@)) is Some
                && opt_debug_content_member(json::get_of(v, "debugContent"@)) is Some),
        },
{
}

/// A pushed message announces a call itself, or in its body; a body of text is to be
/// read as such a message in its turn, and anything else announces none.
pub proof fn law_call_is_announced_here_or_in_the_body(v: JsonV, body: JsonV, s: Seq<char>)
    ensures
        json::get_of(v, "callInvitation"@) is Some ==> pushed_call(v) == PushedCallV::Here(
            call_notification_of(v),
        ),
        json::get_of(v, "callInvitation"@) is None && json::get_of(v, "body"@) == Some(
            JsonV::Str(s),
        ) ==> pushed_call(v) == PushedCallV::Nested(s),
        json::get_of(v, "callInvitation"@) is None && json::get_of(v, "body"@) == Some(body)
            && json::get_of(body, "callInvitation"@) is Some && !(body is Str) ==> pushed_call(v)
            == PushedCallV::Here(call_notification_of(body)),
        json::get_of(v, "callInvitation"@) is None && json::get_of(v, "body"@) is None
            ==> pushed_call(v) == PushedCallV::Nothing,
        json::get_of(v, "callInvitation"@) is None && json::get_of(v, "body"@) == Some(body)
            && json::get_of(body, "callInvitation"@) is None && !(body is Str) ==> pushed_call(v)
            == PushedCallV::Nothing,
{
}

/// A call that is announced in the text of a body is found there.
pub proof fn law_nested_call_is_found(text: Seq<char>, v: JsonV, inner: Seq<char>)
    requires
        json::json_text(text) == Some(v),
        json::get_of(v, "callInvitation"@) is None,
        json::get_of(v, "body"@) == Some(JsonV::Str(inner)),
        inner.len() < text.len(),
    ensures
        notification_in(text) == notification_in(inner),
{
}

} // verus!
