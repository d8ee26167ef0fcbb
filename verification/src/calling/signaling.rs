//! Call signalling: request bodies, headers and URLs for placing, answering
//! and ending calls, and the reading of their responses.
use crate::json;
use crate::json::{Fields, FieldsV, Items, Json, JsonV};
use crate::text;
use super::{CallNotification, CallNotificationV};
use vstd::utf8::*;
use vstd::prelude::*;

verus! {

/// The client that requests name.
pub const SKYPE_CLIENT_HEADER: &'static str =
    "SkypeSpaces/1415/teams-cli/TsCallingVersion=2025.49.01.15";

pub const TEAMS_PARTITION: &'static str = "amer03";

pub const TEAMS_REGION: &'static str = "amer";

pub const TEAMS_RING: &'static str = "general";

/// Echo bot MRI (Call Quality Tester).
pub const ECHO_BOT_MRI: &'static str = "28:cf28171e-fcfd-47e4-a1d6-79460b0b3ca0";

/// Echo bot OID, the part of its MRI behind the prefix.
pub const ECHO_BOT_OID: &'static str = "cf28171e-fcfd-47e4-a1d6-79460b0b3ca0";

/// Teams cloud region for the `ms-teams-*` request headers; the AMER cloud by
/// default.
#[derive(Debug, Clone, PartialEq, Eq)]
pub struct TeamsRegion {
    pub partition: String,
    pub region: String,
    pub ring: String,
}

impl Default for TeamsRegion {
    fn default() -> (r: TeamsRegion)
        ensures
            r.partition@ == "amer03"@,
            r.region@ == "amer"@,
            r.ring@ == "general"@,
    {
        TeamsRegion {
            partition: TEAMS_PARTITION.to_string(),
            region: TEAMS_REGION.to_string(),
            ring: TEAMS_RING.to_string(),
        }
    }
}

/// The chosen text, or the default one.
pub open spec fn chosen(o: Option<String>, d: Seq<char>) -> Seq<char> {
    match o {
        Some(s) => s@,
        None => d,
    }
}

impl TeamsRegion {
    /// Region with per-field overrides over the AMER default.
    pub fn with_overrides(
        partition: Option<String>,
        region: Option<String>,
        ring: Option<String>,
    ) -> (r: TeamsRegion)
        ensures
            r.partition@ == chosen(partition, "amer03"@),
            r.region@ == chosen(region, "amer"@),
            r.ring@ == chosen(ring, "general"@),
    {
        TeamsRegion {
            partition: match partition {
                Some(s) => s,
                None => TEAMS_PARTITION.to_string(),
            },
            region: match region {
                Some(s) => s,
                None => TEAMS_REGION.to_string(),
            },
            ring: match ring {
                Some(s) => s,
                None => TEAMS_RING.to_string(),
            },
        }
    }
}

/// The region headers.
pub open spec fn region_headers(r: TeamsRegion) -> Seq<(Seq<char>, Seq<char>)> {
    Seq::empty().push(("ms-teams-partition"@, r.partition@)).push(
        ("ms-teams-region"@, r.region@),
    ).push(("ms-teams-ring"@, r.ring@))
}

/// The `ms-teams-*` headers of a region.
pub fn teams_headers(region: &TeamsRegion) -> (r: Vec<(String, String)>)
    ensures
        text::pairs(r@) == region_headers(*region),
{
    let mut h: Vec<(String, String)> = text::no_pairs();
    text::add_pair(&mut h, "ms-teams-partition", region.partition.as_str());
    text::add_pair(&mut h, "ms-teams-region", region.region.as_str());
    text::add_pair(&mut h, "ms-teams-ring", region.ring.as_str());
    h
}

/// Response from phase 1 (create conversation).
#[derive(Debug)]
pub struct ConversationCreated {
    /// URL to POST phase 2 to (the conversationController).
    pub conversation_controller: String,
    /// The exact addParticipant URL from the response links (if present).
    pub add_participant_url: Option<String>,
    /// Full response body for debugging.
    pub response_body: String,
}

/// Response from phase 2 (join with SDP).
#[derive(Debug)]
pub struct ConversationJoined {
    /// Active URL of the call controller.
    pub cc_active_url: Option<String>,
    /// Full response body for debugging.
    pub response_body: String,
}

/// Parameters for the two-phase conversation call placement.
pub struct ConversationCallParams<'a> {
    pub ic3_token: &'a str,
    pub trouter_surl: &'a str,
    pub caller_mri: &'a str,
    pub caller_display_name: &'a str,
    pub endpoint_id: &'a str,
    pub participant_id: &'a str,
    pub thread_id: &'a str,
    pub chain_id: &'a str,
    pub message_id: &'a str,
    /// Object id of the caller, the GUID part of "8:orgid:{guid}".
    pub caller_oid: &'a str,
    pub tenant_id: &'a str,
    /// Teams cloud region for the `ms-teams-*` headers on every request.
    pub region: &'a TeamsRegion,
}

// -- Callback URLs --

/// FNV-1a over 32 bits.
pub open spec fn fnv1a(data: Seq<u8>) -> u32
    decreases data.len(),
{
    if data.len() == 0 {
        0x811c9dc5u32
    } else {
        (((fnv1a(data.drop_last()) ^ (data.last() as u32)) * 0x01000193) % 0x1_0000_0000) as u32
    }
}

/// The callback URL for a path: the hash tells the paths of an endpoint apart.
pub open spec fn callback_url(
    surl: Seq<char>,
    endpoint_id: Seq<char>,
    path: Seq<char>,
) -> Seq<char> {
    surl + "callAgent/"@ + endpoint_id + "/"@ + text::hex8(
        fnv1a(encode_utf8(endpoint_id) + encode_utf8(path)),
    ) + "/"@ + path
}

fn fnv_step(h: u32, b: u8) -> (r: u32)
    ensures
        r == (((h ^ (b as u32)) * 0x01000193) % 0x1_0000_0000) as u32,
{
    let x: u32 = h ^ (b as u32);
    ((x as u64 * 0x01000193u64) % 0x1_0000_0000u64) as u32
}

fn fnv_bytes(start: u32, data: &[u8], Ghost(before): Ghost<Seq<u8>>) -> (r: u32)
    requires
        start == fnv1a(before),
    ensures
        r == fnv1a(before + data@),
{
    let mut h: u32 = start;
    let mut i: usize = 0;
    proof {
        assert(before + data@.take(0) =~= before);
    }
    while i < data.len()
        invariant
            i <= data@.len(),
            h == fnv1a(before + data@.take(i as int)),
        decreases data@.len() - i,
    {
        proof {
            assert((before + data@.take(i + 1)).drop_last() =~= before + data@.take(i as int));
            assert((before + data@.take(i + 1)).last() == data@[i as int]);
        }
        h = fnv_step(h, data[i]);
        i = i + 1;
    }
    proof {
        assert(data@.take(i as int) =~= data@);
    }
    h
}

/// Builds the callback URL for a path.
pub fn trouter_callback(trouter_surl: &str, endpoint_id: &str, path: &str) -> (r: String)
    ensures
        r@ == callback_url(trouter_surl@, endpoint_id@, path@),
{
    let a: u32 = fnv_bytes(0x811c9dc5u32, endpoint_id.as_bytes(), Ghost(Seq::empty()));
    proof {
        assert(Seq::<u8>::empty() + encode_utf8(endpoint_id@) =~= encode_utf8(endpoint_id@));
    }
    let h: u32 = fnv_bytes(a, path.as_bytes(), Ghost(encode_utf8(endpoint_id@)));
    let mut s = trouter_surl.to_string();
    s.append("callAgent/");
    s.append(endpoint_id);
    s.append("/");
    let hash = text::to_hex8(h);
    s.append(hash.as_str());
    s.append("/");
    s.append(path);
    s
}

/// The callback URL of a call for a path.
pub open spec fn callback_of(p: ConversationCallParams<'_>, path: Seq<char>) -> Seq<char> {
    callback_url(p.trouter_surl@, p.endpoint_id@, path)
}

fn callback(p: &ConversationCallParams<'_>, path: &str) -> (r: String)
    ensures
        r@ == callback_of(*p, path@),
{
    trouter_callback(p.trouter_surl, p.endpoint_id, path)
}

/// The length of the cause id in bytes: eight, or all of a shorter message id.
pub open spec fn cause_len(message_id: Seq<char>) -> int {
    let n = encode_utf8(message_id).len() as int;
    if n < 8 {
        n
    } else {
        8
    }
}

/// True of a message id whose cause id ends between two characters.
pub open spec fn has_cause_id(message_id: Seq<char>) -> bool {
    is_char_boundary(encode_utf8(message_id), cause_len(message_id))
}

/// The cause id: the first eight bytes of the message id.
pub open spec fn cause_id(message_id: Seq<char>) -> Seq<char> {
    decode_utf8(encode_utf8(message_id).take(cause_len(message_id)))
}

/// A message id in ASCII has a cause id: its first eight characters.
pub proof fn law_ascii_cause_id(message_id: Seq<char>)
    requires
        is_ascii_chars(message_id),
    ensures
        has_cause_id(message_id),
        cause_id(message_id) == message_id.take(
            if message_id.len() < 8 {
                message_id.len() as int
            } else {
                8
            },
        ),
{
    let b = encode_utf8(message_id);
    let n = cause_len(message_id);
    is_ascii_chars_encode_utf8(message_id);
    encode_utf8_valid_utf8(message_id);
    let head = message_id.take(n);
    assert(is_ascii_chars(head)) by {
        assert forall|i: int| 0 <= i < head.len() implies 0 <= #[trigger] head[i] as nat && (
        head[i] as nat) < 128 by {
            assert(head[i] == message_id[i]);
        }
    }
    is_ascii_chars_encode_utf8(head);
    assert(encode_utf8(head) =~= b.take(n));
    encode_utf8_decode_utf8(head);
    is_char_boundary_start_end_of_seq(b);
    if n < b.len() {
        is_char_boundary_iff_not_is_continuation_byte(b, n);
    }
}

fn cause_text<'a>(message_id: &'a str) -> (r: &'a str)
    requires
        has_cause_id(message_id@),
    ensures
        r@ == cause_id(message_id@),
{
    let n: usize = message_id.as_bytes().len();
    let k: usize = if n < 8 {
        n
    } else {
        8
    };
    let (head, _) = message_id.split_at(k);
    proof {
        assert(encode_utf8(message_id@).subrange(0, k as int) =~= encode_utf8(message_id@).take(
            k as int,
        ));
        encode_utf8_decode_utf8(head@);
    }
    head
}

// -- Request bodies --

/// Where roster changes are reported to.
pub open spec fn roster_v(p: ConversationCallParams<'_>) -> JsonV {
    FieldsV::new()
        .text("type"@, "Delta"@)
        .text("rosterUpdate"@, callback_of(p, "conversation/rosterUpdate/"@)).obj()
}

fn roster(p: &ConversationCallParams<'_>) -> (r: Json)
    ensures
        r@ == roster_v(*p),
{
    let mut o = Fields::new();
    o.text("type", "Delta");
    o.text("rosterUpdate", callback(p, "conversation/rosterUpdate/").as_str());
    o.obj()
}

/// The properties of a new conversation.
pub open spec fn properties_v(meetup: bool) -> JsonV {
    FieldsV::new()
        .flag("allowConversationWithoutHost"@, true)
        .flag("enableGroupCallEventMessages"@, true)
        .flag("enableGroupCallUpgradeMessage"@, false)
        .flag("enableGroupCallMeetupGeneration"@, meetup).obj()
}

fn properties(meetup: bool) -> (r: Json)
    ensures
        r@ == properties_v(meetup),
{
    let mut o = Fields::new();
    o.flag("allowConversationWithoutHost", true);
    o.flag("enableGroupCallEventMessages", true);
    o.flag("enableGroupCallUpgradeMessage", false);
    o.flag("enableGroupCallMeetupGeneration", meetup);
    o.obj()
}

/// The links of a conversation that is only created.
pub open spec fn plain_links_v(p: ConversationCallParams<'_>) -> JsonV {
    FieldsV::new()
        .text("conversationEnd"@, callback_of(p, "conversation/conversationEnd/"@))
        .text("conversationUpdate"@, callback_of(p, "conversation/conversationUpdate/"@))
        .text("localParticipantUpdate"@, callback_of(p, "conversation/localParticipantUpdate/"@))
        .text("addParticipantSuccess"@, callback_of(p, "conversation/addParticipantSuccess/"@))
        .text("addParticipantFailure"@, callback_of(p, "conversation/addParticipantFailure/"@))
        .text("receiveMessage"@, callback_of(p, "conversation/receiveMessage/"@)).obj()
}

fn plain_links(p: &ConversationCallParams<'_>) -> (r: Json)
    ensures
        r@ == plain_links_v(*p),
{
    let mut o = Fields::new();
    o.text("conversationEnd", callback(p, "conversation/conversationEnd/").as_str());
    o.text("conversationUpdate", callback(p, "conversation/conversationUpdate/").as_str());
    o.text("localParticipantUpdate", callback(p, "conversation/localParticipantUpdate/").as_str());
    o.text("addParticipantSuccess", callback(p, "conversation/addParticipantSuccess/").as_str());
    o.text("addParticipantFailure", callback(p, "conversation/addParticipantFailure/").as_str());
    o.text("receiveMessage", callback(p, "conversation/receiveMessage/").as_str());
    o.obj()
}

/// The links of a conversation that is joined at once.
pub open spec fn joining_links_v(p: ConversationCallParams<'_>) -> JsonV {
    FieldsV::new()
        .text("conversationEnd"@, callback_of(p, "conversation/conversationEnd/"@))
        .text("conversationUpdate"@, callback_of(p, "conversation/conversationUpdate/"@))
        .text("localParticipantUpdate"@, callback_of(p, "conversation/localParticipantUpdate/"@))
        .text("addParticipantSuccess"@, callback_of(p, "conversation/addParticipantSuccess/"@))
        .text("addParticipantFailure"@, callback_of(p, "conversation/addParticipantFailure/"@))
        .text("addModalitySuccess"@, callback_of(p, "conversation/addModalitySuccess/"@))
        .text("addModalityFailure"@, callback_of(p, "conversation/addModalityFailure/"@))
        .text("confirmUnmute"@, callback_of(p, "conversation/confirmUnmute/"@))
        .text("receiveMessage"@, callback_of(p, "conversation/receiveMessage/"@)).obj()
}

fn joining_links(p: &ConversationCallParams<'_>) -> (r: Json)
    ensures
        r@ == joining_links_v(*p),
{
    let mut o = Fields::new();
    o.text("conversationEnd", callback(p, "conversation/conversationEnd/").as_str());
    o.text("conversationUpdate", callback(p, "conversation/conversationUpdate/").as_str());
    o.text("localParticipantUpdate", callback(p, "conversation/localParticipantUpdate/").as_str());
    o.text("addParticipantSuccess", callback(p, "conversation/addParticipantSuccess/").as_str());
    o.text("addParticipantFailure", callback(p, "conversation/addParticipantFailure/").as_str());
    o.text("addModalitySuccess", callback(p, "conversation/addModalitySuccess/").as_str());
    o.text("addModalityFailure", callback(p, "conversation/addModalityFailure/").as_str());
    o.text("confirmUnmute", callback(p, "conversation/confirmUnmute/").as_str());
    o.text("receiveMessage", callback(p, "conversation/receiveMessage/").as_str());
    o.obj()
}

/// The caller as a participant.
pub open spec fn caller_v(p: ConversationCallParams<'_>) -> JsonV {
    FieldsV::new()
        .text("id"@, p.caller_mri@)
        .text("displayName"@, p.caller_display_name@)
        .text("endpointId"@, p.endpoint_id@)
        .text("participantId"@, p.participant_id@)
        .text("languageId"@, "en-US"@).obj()
}

fn caller(p: &ConversationCallParams<'_>) -> (r: Json)
    ensures
        r@ == caller_v(*p),
{
    let mut o = Fields::new();
    o.text("id", p.caller_mri);
    o.text("displayName", p.caller_display_name);
    o.text("endpointId", p.endpoint_id);
    o.text("participantId", p.participant_id);
    o.text("languageId", "en-US");
    o.obj()
}

/// The chat thread of a call.
pub open spec fn group_chat_v(p: ConversationCallParams<'_>) -> JsonV {
    FieldsV::new()
        .text("threadId"@, p.thread_id@)
        .put("messageId"@, JsonV::Null).obj()
}

fn group_chat(p: &ConversationCallParams<'_>) -> (r: Json)
    ensures
        r@ == group_chat_v(*p),
{
    let mut o = Fields::new();
    o.text("threadId", p.thread_id);
    o.put("messageId", Json::Null);
    o.obj()
}

/// The state of the calling endpoint.
pub open spec fn endpoint_state_v(preheat: bool) -> JsonV {
    let extra = FieldsV::new().text("infoShownInReportMode"@, "FullInformation"@).obj();
    let properties = if preheat {
        FieldsV::new().num("preheatProperties"@, 1).put("additionalEndpointProperties"@, extra)
    } else {
        FieldsV::new().put("additionalEndpointProperties"@, extra)
    };
    FieldsV::new().num("endpointStateSequenceNumber"@, 0).put(
        "endpointProperties"@,
        properties.obj(),
    ).obj()
}

fn endpoint_state(preheat: bool) -> (r: Json)
    ensures
        r@ == endpoint_state_v(preheat),
{
    let mut extra = Fields::new();
    extra.text("infoShownInReportMode", "FullInformation");
    let mut properties = Fields::new();
    if preheat {
        properties.num("preheatProperties", 1);
    }
    properties.put("additionalEndpointProperties", extra.obj());
    let mut o = Fields::new();
    o.num("endpointStateSequenceNumber", 0);
    o.put("endpointProperties", properties.obj());
    o.obj()
}

/// The metadata of the calling endpoint.
pub open spec fn endpoint_metadata_v() -> JsonV {
    FieldsV::new().num("holographicCapabilities"@, 3).obj()
}

fn endpoint_metadata() -> (r: Json)
    ensures
        r@ == endpoint_metadata_v(),
{
    let mut o = Fields::new();
    o.num("holographicCapabilities", 3);
    o.obj()
}

/// The content for tracing a call.
pub open spec fn debug_content_v(p: ConversationCallParams<'_>) -> JsonV {
    FieldsV::new()
        .text("ecsEtag"@, "\"0\""@)
        .text("causeId"@, cause_id(p.message_id@)).obj()
}

fn debug_content(p: &ConversationCallParams<'_>) -> (r: Json)
    requires
        has_cause_id(p.message_id@),
    ensures
        r@ == debug_content_v(*p),
{
    let mut o = Fields::new();
    o.text("ecsEtag", "\"0\"");
    o.text("causeId", cause_text(p.message_id));
    o.obj()
}

/// The modalities of a call.
pub open spec fn modalities_v(video: bool, screen: bool) -> JsonV {
    let audio = Seq::empty().push(JsonV::Str("Audio"@));
    let seen = if video {
        audio.push(JsonV::Str("Video"@))
    } else {
        audio
    };
    JsonV::Arr(
        if screen {
            seen.push(JsonV::Str("ScreenViewer"@))
        } else {
            seen
        },
    )
}

fn modalities(video: bool, screen: bool) -> (r: Json)
    ensures
        r@ == modalities_v(video, screen),
{
    let mut a = Items::new();
    a.push(Json::text("Audio"));
    if video {
        a.push(Json::text("Video"));
    }
    if screen {
        a.push(Json::text("ScreenViewer"));
    }
    a.arr()
}

/// The invitation to a call: audio, or all modalities, with the SDP offer.
pub open spec fn call_invitation_v(
    p: ConversationCallParams<'_>,
    sdp_offer: Seq<char>,
    all: bool,
) -> JsonV {
    FieldsV::new()
        .put("callModalities"@, modalities_v(all, all))
        .put("replaces"@, JsonV::Null)
        .put("transferor"@, JsonV::Null)
        .put(
            "links"@,
            FieldsV::new()
                .text("progress"@, callback_of(p, "call/progress/"@))
                .text("mediaAnswer"@, callback_of(p, "call/mediaAnswer/"@))
                .text("acceptance"@, callback_of(p, "call/acceptance/"@))
                .text("redirection"@, callback_of(p, "call/redirection/"@))
                .text("end"@, callback_of(p, "call/end/"@)).obj(),
        )
        .put(
            "clientContentForMediaController"@,
            FieldsV::new()
                .text("controlVideoStreaming"@, callback_of(p, "call/controlVideoStreaming/"@))
                .text("csrcInfo"@, callback_of(p, "call/csrcInfo/"@))
                .text("dominantSpeakerInfo"@, callback_of(p, "call/dominantSpeakerInfo/"@)).obj(),
        )
        .put(
            "pstnContent"@,
            FieldsV::new()
                .text("emergencyCallCountry"@, ""@)
                .text("platformName"@, "teams-cli"@)
                .flag("publicApiCall"@, false).obj(),
        )
        .put(
            "mediaContent"@,
            FieldsV::new()
                .text("contentType"@, "application/sdp"@)
                .text("blob"@, sdp_offer).obj(),
        ).obj()
}

fn call_invitation(p: &ConversationCallParams<'_>, sdp_offer: &str, all: bool) -> (r: Json)
    ensures
        r@ == call_invitation_v(*p, sdp_offer@, all),
{
    let mut o = Fields::new();
    o.put("callModalities", modalities(all, all));
    o.put("replaces", Json::Null);
    o.put("transferor", Json::Null);
    let mut links = Fields::new();
    links.text("progress", callback(p, "call/progress/").as_str());
    links.text("mediaAnswer", callback(p, "call/mediaAnswer/").as_str());
    links.text("acceptance", callback(p, "call/acceptance/").as_str());
    links.text("redirection", callback(p, "call/redirection/").as_str());
    links.text("end", callback(p, "call/end/").as_str());
    o.put("links", links.obj());
    let mut client_content_for_media_controller = Fields::new();
    client_content_for_media_controller.text(
        "controlVideoStreaming",
        callback(p, "call/controlVideoStreaming/").as_str(),
    );
    client_content_for_media_controller.text("csrcInfo", callback(p, "call/csrcInfo/").as_str());
    client_content_for_media_controller.text(
        "dominantSpeakerInfo",
        callback(p, "call/dominantSpeakerInfo/").as_str(),
    );
    o.put("clientContentForMediaController", client_content_for_media_controller.obj());
    let mut pstn_content = Fields::new();
    pstn_content.text("emergencyCallCountry", "");
    pstn_content.text("platformName", "teams-cli");
    pstn_content.flag("publicApiCall", false);
    o.put("pstnContent", pstn_content.obj());
    let mut media_content = Fields::new();
    media_content.text("contentType", "application/sdp");
    media_content.text("blob", sdp_offer);
    o.put("mediaContent", media_content.obj());
    o.obj()
}

/// Phase 1: the request that creates a conversation.
pub open spec fn create_conversation_v(p: ConversationCallParams<'_>) -> JsonV {
    FieldsV::new()
        .put(
            "conversationRequest"@,
            FieldsV::new()
                .put("subject"@, JsonV::Null)
                .put("roster"@, roster_v(p))
                .put("properties"@, properties_v(true))
                .put("links"@, plain_links_v(p)).obj(),
        )
        .put("groupContext"@, JsonV::Null)
        .put("groupChat"@, group_chat_v(p))
        .put(
            "participants"@,
            FieldsV::new()
                .put("from"@, caller_v(p)).obj(),
        )
        .put("capabilities"@, JsonV::Null)
        .num("endpointCapabilities"@, 73463)
        .num("clientEndpointCapabilities"@, 9336554)
        .put("endpointMetadata"@, endpoint_metadata_v())
        .put("meetingInfo"@, JsonV::Null)
        .put("endpointState"@, endpoint_state_v(false))
        .put("debugContent"@, debug_content_v(p)).obj()
}

pub fn create_conversation(p: &ConversationCallParams<'_>) -> (r: Json)
    requires
        has_cause_id(p.message_id@),
    ensures
        r@ == create_conversation_v(*p),
{
    let mut o = Fields::new();
    let mut conversation_request = Fields::new();
    conversation_request.put("subject", Json::Null);
    conversation_request.put("roster", roster(p));
    conversation_request.put("properties", properties(true));
    conversation_request.put("links", plain_links(p));
    o.put("conversationRequest", conversation_request.obj());
    o.put("groupContext", Json::Null);
    o.put("groupChat", group_chat(p));
    let mut participants = Fields::new();
    participants.put("from", caller(p));
    o.put("participants", participants.obj());
    o.put("capabilities", Json::Null);
    o.num("endpointCapabilities", 73463);
    o.num("clientEndpointCapabilities", 9336554);
    o.put("endpointMetadata", endpoint_metadata());
    o.put("meetingInfo", Json::Null);
    o.put("endpointState", endpoint_state(false));
    o.put("debugContent", debug_content(p));
    o.obj()
}

/// Phase 2: the request that joins a conversation with an SDP offer.
pub open spec fn join_conversation_with_sdp_v(
    p: ConversationCallParams<'_>,
    sdp_offer: Seq<char>,
) -> JsonV {
    FieldsV::new()
        .put(
            "conversationRequest"@,
            FieldsV::new()
                .put("conversationType"@, JsonV::Null)
                .text("subject"@, ""@)
                .flag("suppressDialout"@, true)
                .put("roster"@, roster_v(p))
                .put("properties"@, properties_v(true))
                .put("links"@, joining_links_v(p)).obj(),
        )
        .put("groupContext"@, JsonV::Null)
        .put("groupChat"@, group_chat_v(p))
        .put(
            "participants"@,
            FieldsV::new()
                .put("from"@, caller_v(p))
                .put("to"@, JsonV::Arr(Seq::empty())).obj(),
        )
        .put("capabilities"@, JsonV::Null)
        .num("endpointCapabilities"@, 73463)
        .num("clientEndpointCapabilities"@, 9336554)
        .put("endpointMetadata"@, endpoint_metadata_v())
        .put(
            "meetingInfo"@,
            FieldsV::new()
                .text("organizerId"@, p.caller_oid@)
                .text("tenantId"@, p.tenant_id@).obj(),
        )
        .put("endpointState"@, endpoint_state_v(true))
        .put("callInvitation"@, call_invitation_v(p, sdp_offer, false))
        .put("debugContent"@, debug_content_v(p)).obj()
}

pub fn join_conversation_with_sdp(p: &ConversationCallParams<'_>, sdp_offer: &str) -> (r: Json)
    requires
        has_cause_id(p.message_id@),
    ensures
        r@ == join_conversation_with_sdp_v(*p, sdp_offer@),
{
    let mut o = Fields::new();
    let mut conversation_request = Fields::new();
    conversation_request.put("conversationType", Json::Null);
    conversation_request.text("subject", "");
    conversation_request.flag("suppressDialout", true);
    conversation_request.put("roster", roster(p));
    conversation_request.put("properties", properties(true));
    conversation_request.put("links", joining_links(p));
    o.put("conversationRequest", conversation_request.obj());
    o.put("groupContext", Json::Null);
    o.put("groupChat", group_chat(p));
    let mut participants = Fields::new();
    participants.put("from", caller(p));
    participants.put("to", Items::new().arr());
    o.put("participants", participants.obj());
    o.put("capabilities", Json::Null);
    o.num("endpointCapabilities", 73463);
    o.num("clientEndpointCapabilities", 9336554);
    o.put("endpointMetadata", endpoint_metadata());
    let mut meeting_info = Fields::new();
    meeting_info.text("organizerId", p.caller_oid);
    meeting_info.text("tenantId", p.tenant_id);
    o.put("meetingInfo", meeting_info.obj());
    o.put("endpointState", endpoint_state(true));
    o.put("callInvitation", call_invitation(p, sdp_offer, false));
    o.put("debugContent", debug_content(p));
    o.obj()
}

/// The request that calls the Echo bot in one step.
pub open spec fn create_echo_call_v(p: ConversationCallParams<'_>, sdp_offer: Seq<char>) -> JsonV {
    FieldsV::new()
        .put(
            "conversationRequest"@,
            FieldsV::new()
                .put("conversationType"@, JsonV::Null)
                .text("subject"@, ""@)
                .flag("suppressDialout"@, true)
                .put("roster"@, roster_v(p))
                .put("properties"@, properties_v(false))
                .put("links"@, joining_links_v(p)).obj(),
        )
        .text("scenario"@, "UserInitiatedTestCall"@)
        .put("groupContext"@, JsonV::Null)
        .put("groupChat"@, group_chat_v(p))
        .put(
            "participants"@,
            FieldsV::new()
                .put("from"@, caller_v(p))
                .put("to"@, JsonV::Arr(Seq::empty())).obj(),
        )
        .put("capabilities"@, JsonV::Null)
        .num("endpointCapabilities"@, 73463)
        .num("clientEndpointCapabilities"@, 9336554)
        .put("endpointMetadata"@, endpoint_metadata_v())
        .put("meetingInfo"@, JsonV::Null)
        .put("endpointState"@, endpoint_state_v(false))
        .put("callInvitation"@, call_invitation_v(p, sdp_offer, true))
        .put("debugContent"@, debug_content_v(p)).obj()
}

pub fn create_echo_call(p: &ConversationCallParams<'_>, sdp_offer: &str) -> (r: Json)
    requires
        has_cause_id(p.message_id@),
    ensures
        r@ == create_echo_call_v(*p, sdp_offer@),
{
    let mut o = Fields::new();
    let mut conversation_request = Fields::new();
    conversation_request.put("conversationType", Json::Null);
    conversation_request.text("subject", "");
    conversation_request.flag("suppressDialout", true);
    conversation_request.put("roster", roster(p));
    conversation_request.put("properties", properties(false));
    conversation_request.put("links", joining_links(p));
    o.put("conversationRequest", conversation_request.obj());
    o.text("scenario", "UserInitiatedTestCall");
    o.put("groupContext", Json::Null);
    o.put("groupChat", group_chat(p));
    let mut participants = Fields::new();
    participants.put("from", caller(p));
    participants.put("to", Items::new().arr());
    o.put("participants", participants.obj());
    o.put("capabilities", Json::Null);
    o.num("endpointCapabilities", 73463);
    o.num("clientEndpointCapabilities", 9336554);
    o.put("endpointMetadata", endpoint_metadata());
    o.put("meetingInfo", Json::Null);
    o.put("endpointState", endpoint_state(false));
    o.put("callInvitation", call_invitation(p, sdp_offer, true));
    o.put("debugContent", debug_content(p));
    o.obj()
}

/// The request that calls a user in one step; the callee rings.
pub open spec fn create_1to1_call_v(p: ConversationCallParams<'_>, sdp_offer: Seq<char>) -> JsonV {
    FieldsV::new()
        .put(
            "conversationRequest"@,
            FieldsV::new()
                .put("conversationType"@, JsonV::Null)
                .text("subject"@, ""@)
                .flag("suppressDialout"@, false)
                .put("roster"@, roster_v(p))
                .put("properties"@, properties_v(false))
                .put("links"@, joining_links_v(p)).obj(),
        )
        .put("groupContext"@, JsonV::Null)
        .put("groupChat"@, group_chat_v(p))
        .put(
            "participants"@,
            FieldsV::new()
                .put("from"@, caller_v(p))
                .put("to"@, JsonV::Arr(Seq::empty())).obj(),
        )
        .put("capabilities"@, JsonV::Null)
        .num("endpointCapabilities"@, 73463)
        .num("clientEndpointCapabilities"@, 9336554)
        .put("endpointMetadata"@, endpoint_metadata_v())
        .put("meetingInfo"@, JsonV::Null)
        .put("endpointState"@, endpoint_state_v(false))
        .put("callInvitation"@, call_invitation_v(p, sdp_offer, true))
        .put("debugContent"@, debug_content_v(p)).obj()
}

pub fn create_1to1_call(p: &ConversationCallParams<'_>, sdp_offer: &str) -> (r: Json)
    requires
        has_cause_id(p.message_id@),
    ensures
        r@ == create_1to1_call_v(*p, sdp_offer@),
{
    let mut o = Fields::new();
    let mut conversation_request = Fields::new();
    conversation_request.put("conversationType", Json::Null);
    conversation_request.text("subject", "");
    conversation_request.flag("suppressDialout", false);
    conversation_request.put("roster", roster(p));
    conversation_request.put("properties", properties(false));
    conversation_request.put("links", joining_links(p));
    o.put("conversationRequest", conversation_request.obj());
    o.put("groupContext", Json::Null);
    o.put("groupChat", group_chat(p));
    let mut participants = Fields::new();
    participants.put("from", caller(p));
    participants.put("to", Items::new().arr());
    o.put("participants", participants.obj());
    o.put("capabilities", Json::Null);
    o.num("endpointCapabilities", 73463);
    o.num("clientEndpointCapabilities", 9336554);
    o.put("endpointMetadata", endpoint_metadata());
    o.put("meetingInfo", Json::Null);
    o.put("endpointState", endpoint_state(false));
    o.put("callInvitation", call_invitation(p, sdp_offer, true));
    o.put("debugContent", debug_content(p));
    o.obj()
}

/// The request that adds the Echo bot to a conversation.
pub open spec fn invite_echo_bot_v(
    p: ConversationCallParams<'_>,
    participant_id: Seq<char>,
) -> JsonV {
    FieldsV::new()
        .flag("disableUnmute"@, false)
        .put(
            "participants"@,
            FieldsV::new()
                .put("from"@, caller_v(p))
                .put("to"@, JsonV::Arr(Seq::empty().push(FieldsV::new()
                        .text("id"@, ECHO_BOT_MRI@)
                        .text("participantId"@, participant_id).obj()))).obj(),
        )
        .put("participantInvitationData"@, FieldsV::new().obj())
        .put("replacementDetails"@, JsonV::Null)
        .put("groupContext"@, JsonV::Null)
        .put("groupChat"@, group_chat_v(p))
        .put(
            "links"@,
            FieldsV::new()
                .text(
                    "addParticipantSuccess"@,
                    callback_of(p, "conversation/addParticipantSuccess/"@),
                )
                .text("addParticipantFailure"@,
                    callback_of(p, "conversation/addParticipantFailure/"@)).obj(
                ),
        ).obj()
}

pub fn invite_echo_bot(p: &ConversationCallParams<'_>, participant_id: &str) -> (r: Json)
    ensures
        r@ == invite_echo_bot_v(*p, participant_id@),
{
    let mut o = Fields::new();
    o.flag("disableUnmute", false);
    let mut participants = Fields::new();
    participants.put("from", caller(p));
    let mut to_items = Items::new();
    let mut item = Fields::new();
    item.text("id", ECHO_BOT_MRI);
    item.text("participantId", participant_id);
    to_items.push(item.obj());
    participants.put("to", to_items.arr());
    o.put("participants", participants.obj());
    o.put("participantInvitationData", Fields::new().obj());
    o.put("replacementDetails", Json::Null);
    o.put("groupContext", Json::Null);
    o.put("groupChat", group_chat(p));
    let mut links = Fields::new();
    links.text(
        "addParticipantSuccess",
        callback(p, "conversation/addParticipantSuccess/").as_str(),
    );
    links.text(
        "addParticipantFailure",
        callback(p, "conversation/addParticipantFailure/").as_str(),
    );
    o.put("links", links.obj());
    o.obj()
}

/// The request that adds a callee to a conversation and rings.
pub open spec fn invite_user_v(
    p: ConversationCallParams<'_>,
    callee_mri: Seq<char>,
    participant_id: Seq<char>,
    include_video: bool,
) -> JsonV {
    FieldsV::new()
        .flag("disableUnmute"@, false)
        .put(
            "participants"@,
            FieldsV::new()
                .put("from"@, caller_v(p))
                .put("to"@, JsonV::Arr(Seq::empty().push(FieldsV::new()
                        .text("id"@, callee_mri)
                        .text("participantId"@, participant_id).obj()))).obj(),
        )
        .put(
            "participantInvitationData"@,
            FieldsV::new()
                .put("callModalities"@, modalities_v(include_video, false))
                .text("callDirection"@, "Outgoing"@).obj(),
        )
        .put(
            "callInvitation"@,
            FieldsV::new()
                .put("callModalities"@, modalities_v(include_video, false))
                .put("replaces"@, JsonV::Null)
                .put("transferor"@, JsonV::Null).obj(),
        )
        .put("replacementDetails"@, JsonV::Null)
        .put("groupContext"@, JsonV::Null)
        .put("groupChat"@, group_chat_v(p))
        .put(
            "links"@,
            FieldsV::new()
                .text(
                    "addParticipantSuccess"@,
                    callback_of(p, "conversation/addParticipantSuccess/"@),
                )
                .text("addParticipantFailure"@,
                    callback_of(p, "conversation/addParticipantFailure/"@)).obj(
                ),
        ).obj()
}

pub fn invite_user(
    p: &ConversationCallParams<'_>,
    callee_mri: &str,
    participant_id: &str,
    include_video: bool,
) -> (r: Json)
    ensures
        r@ == invite_user_v(*p, callee_mri@, participant_id@, include_video),
{
    let mut o = Fields::new();
    o.flag("disableUnmute", false);
    let mut participants = Fields::new();
    participants.put("from", caller(p));
    let mut to_items = Items::new();
    let mut item = Fields::new();
    item.text("id", callee_mri);
    item.text("participantId", participant_id);
    to_items.push(item.obj());
    participants.put("to", to_items.arr());
    o.put("participants", participants.obj());
    let mut participant_invitation_data = Fields::new();
    participant_invitation_data.put("callModalities", modalities(include_video, false));
    participant_invitation_data.text("callDirection", "Outgoing");
    o.put("participantInvitationData", participant_invitation_data.obj());
    let mut call_invitation = Fields::new();
    call_invitation.put("callModalities", modalities(include_video, false));
    call_invitation.put("replaces", Json::Null);
    call_invitation.put("transferor", Json::Null);
    o.put("callInvitation", call_invitation.obj());
    o.put("replacementDetails", Json::Null);
    o.put("groupContext", Json::Null);
    o.put("groupChat", group_chat(p));
    let mut links = Fields::new();
    links.text(
        "addParticipantSuccess",
        callback(p, "conversation/addParticipantSuccess/").as_str(),
    );
    links.text(
        "addParticipantFailure",
        callback(p, "conversation/addParticipantFailure/").as_str(),
    );
    o.put("links", links.obj());
    o.obj()
}

/// The callback links of a call leg.
pub open spec fn cc_call_links_v(p: ConversationCallParams<'_>) -> JsonV {
    FieldsV::new()
        .put(
            "links"@,
            FieldsV::new()
                .text("mediaAcknowledgement"@, callback_of(p, "call/mediaAcknowledgement/"@))
                .text("rejection"@, callback_of(p, "call/rejection/"@))
                .text("acknowledgement"@, callback_of(p, "call/acknowledgement/"@))
                .text("mediaRenegotiation"@, callback_of(p, "call/mediaRenegotiation/"@))
                .text("replacement"@, callback_of(p, "call/replacement/"@))
                .text("progress"@, callback_of(p, "call/progress/"@))
                .text("mediaAnswer"@, callback_of(p, "call/mediaAnswer/"@))
                .text("newMediaOffer"@, callback_of(p, "call/newMediaOffer/"@))
                .text("redirection"@, callback_of(p, "call/redirection/"@))
                .text("balanceUpdate"@, callback_of(p, "call/balanceUpdate/"@))
                .text("acceptance"@, callback_of(p, "call/acceptance/"@))
                .text("controlVideoStreaming"@, callback_of(p, "call/controlVideoStreaming/"@))
                .text("dominantSpeakerInfo"@, callback_of(p, "call/dominantSpeakerInfo/"@))
                .text("csrcInfo"@, callback_of(p, "call/csrcInfo/"@))
                .text("end"@, callback_of(p, "call/end/"@))
                .text("retargetCompletion"@, callback_of(p, "call/retargetCompletion/"@))
                .text("transfer"@, callback_of(p, "call/transfer/"@))
                .text("transferAcceptance"@, callback_of(p, "call/transferAcceptance/"@))
                .text("transferCompletion"@, callback_of(p, "call/transferCompletion/"@))
                .text("holdCompletion"@, callback_of(p, "call/holdCompletion/"@))
                .text("resumeCompletion"@, callback_of(p, "call/resumeCompletion/"@))
                .text("call"@, callback_of(p, "call/updateMediaDescriptions"@))
                .text("monitorCompletion"@, callback_of(p, "call/monitorCompletion/"@)).obj(),
        )
        .put(
            "clientContentForMediaController"@,
            FieldsV::new()
                .text("controlVideoStreaming"@, callback_of(p, "call/controlVideoStreaming/"@))
                .text("csrcInfo"@, callback_of(p, "call/csrcInfo/"@)).obj(),
        ).obj()
}

fn cc_call_links(p: &ConversationCallParams<'_>) -> (r: Json)
    ensures
        r@ == cc_call_links_v(*p),
{
    let mut o = Fields::new();
    let mut links = Fields::new();
    links.text("mediaAcknowledgement", callback(p, "call/mediaAcknowledgement/").as_str());
    links.text("rejection", callback(p, "call/rejection/").as_str());
    links.text("acknowledgement", callback(p, "call/acknowledgement/").as_str());
    links.text("mediaRenegotiation", callback(p, "call/mediaRenegotiation/").as_str());
    links.text("replacement", callback(p, "call/replacement/").as_str());
    links.text("progress", callback(p, "call/progress/").as_str());
    links.text("mediaAnswer", callback(p, "call/mediaAnswer/").as_str());
    links.text("newMediaOffer", callback(p, "call/newMediaOffer/").as_str());
    links.text("redirection", callback(p, "call/redirection/").as_str());
    links.text("balanceUpdate", callback(p, "call/balanceUpdate/").as_str());
    links.text("acceptance", callback(p, "call/acceptance/").as_str());
    links.text("controlVideoStreaming", callback(p, "call/controlVideoStreaming/").as_str());
    links.text("dominantSpeakerInfo", callback(p, "call/dominantSpeakerInfo/").as_str());
    links.text("csrcInfo", callback(p, "call/csrcInfo/").as_str());
    links.text("end", callback(p, "call/end/").as_str());
    links.text("retargetCompletion", callback(p, "call/retargetCompletion/").as_str());
    links.text("transfer", callback(p, "call/transfer/").as_str());
    links.text("transferAcceptance", callback(p, "call/transferAcceptance/").as_str());
    links.text("transferCompletion", callback(p, "call/transferCompletion/").as_str());
    links.text("holdCompletion", callback(p, "call/holdCompletion/").as_str());
    links.text("resumeCompletion", callback(p, "call/resumeCompletion/").as_str());
    links.text("call", callback(p, "call/updateMediaDescriptions").as_str());
    links.text("monitorCompletion", callback(p, "call/monitorCompletion/").as_str());
    o.put("links", links.obj());
    let mut client_content_for_media_controller = Fields::new();
    client_content_for_media_controller.text(
        "controlVideoStreaming",
        callback(p, "call/controlVideoStreaming/").as_str(),
    );
    client_content_for_media_controller.text("csrcInfo", callback(p, "call/csrcInfo/").as_str());
    o.put("clientContentForMediaController", client_content_for_media_controller.obj());
    o.obj()
}

/// Phase 3a: the acknowledgement of an accepted call.
pub open spec fn acknowledge_call_acceptance_v(p: ConversationCallParams<'_>) -> JsonV {
    FieldsV::new()
        .put("callAcceptanceAcknowledgement"@, cc_call_links_v(p)).obj()
}

pub fn acknowledge_call_acceptance(p: &ConversationCallParams<'_>) -> (r: Json)
    ensures
        r@ == acknowledge_call_acceptance_v(*p),
{
    let mut o = Fields::new();
    o.put("callAcceptanceAcknowledgement", cc_call_links(p));
    o.obj()
}

/// Phase 3b: the request that registers the callbacks of a call leg.
pub open spec fn register_cc_callbacks_v(p: ConversationCallParams<'_>) -> JsonV {
    FieldsV::new()
        .put("callAcceptanceAcknowledgement"@, cc_call_links_v(p))
        .put("callParticipantUpdate"@, cc_call_links_v(p)).obj()
}

pub fn register_cc_callbacks(p: &ConversationCallParams<'_>) -> (r: Json)
    ensures
        r@ == register_cc_callbacks_v(*p),
{
    let mut o = Fields::new();
    o.put("callAcceptanceAcknowledgement", cc_call_links(p));
    o.put("callParticipantUpdate", cc_call_links(p));
    o.obj()
}

/// A controller's URL with a segment behind its path, slashes at the path's
/// end dropped, before its query.
pub open spec fn url_with(controller: Seq<char>, segment: Seq<char>) -> Seq<char> {
    match text::first_index(controller, '?') {
        Some(i) => text::without_trailing(controller.take(i), '/') + segment + controller.skip(i),
        None => text::without_trailing(controller, '/') + segment,
    }
}

/// Puts a segment behind the path of a controller's URL.
pub fn url_with_segment(controller: &str, segment: &str) -> (r: String)
    ensures
        r@ == url_with(controller@, segment@),
{
    let v = text::chars_of(controller);
    let n: usize = v.len();
    match text::char_index_from(&v, '?', 0) {
        Some(i) => {
            let path = text::text_of(&v, 0, i);
            let query = text::text_of(&v, i, n);
            proof {
                assert(v@.subrange(0, i as int) =~= v@.take(i as int));
                assert(v@.subrange(i as int, n as int) =~= v@.skip(i as int));
            }
            let bare = text::drop_trailing(path.as_str(), '/');
            text::join3(bare.as_str(), segment, query.as_str())
        },
        None => {
            let bare = text::drop_trailing(controller, '/');
            text::join2(bare.as_str(), segment)
        },
    }
}

/// The URL that participants are added at.
pub fn derive_add_url(conversation_controller: &str) -> (r: String)
    ensures
        r@ == url_with(conversation_controller@, "/add"@),
{
    url_with_segment(conversation_controller, "/add")
}

/// The headers of a signalling request.
pub open spec fn request_headers(
    p: ConversationCallParams<'_>,
    message_id: Seq<char>,
    migration: bool,
) -> Seq<(Seq<char>, Seq<char>)> {
    let h = Seq::empty().push(("Authorization"@, "Bearer "@ + p.ic3_token@)).push(
        ("Content-Type"@, "application/json"@),
    ).push(("x-microsoft-skype-chain-id"@, p.chain_id@)).push(
        ("x-microsoft-skype-message-id"@, message_id),
    ).push(("x-microsoft-skype-client"@, SKYPE_CLIENT_HEADER@)).push(
        ("Referer"@, "https://teams.microsoft.com/"@),
    ).push(("ms-teams-partition"@, p.region.partition@)).push(
        ("ms-teams-region"@, p.region.region@),
    ).push(("ms-teams-ring"@, p.region.ring@));
    if migration {
        h.push(("x-ms-migration"@, "True"@))
    } else {
        h
    }
}

/// The headers of a signalling request: those that add a participant carry a
/// message id of their own, and requests to a conversation are marked as
/// migrated.
pub fn signaling_headers(p: &ConversationCallParams<'_>, message_id: &str, migration: bool) -> (r:
    Vec<(String, String)>)
    ensures
        text::pairs(r@) == request_headers(*p, message_id@, migration),
{
    let mut h: Vec<(String, String)> = text::no_pairs();
    let bearer = text::join2("Bearer ", p.ic3_token);
    text::add_pair(&mut h, "Authorization", bearer.as_str());
    text::add_pair(&mut h, "Content-Type", "application/json");
    text::add_pair(&mut h, "x-microsoft-skype-chain-id", p.chain_id);
    text::add_pair(&mut h, "x-microsoft-skype-message-id", message_id);
    text::add_pair(&mut h, "x-microsoft-skype-client", SKYPE_CLIENT_HEADER);
    text::add_pair(&mut h, "Referer", "https://teams.microsoft.com/");
    text::add_pair(&mut h, "ms-teams-partition", p.region.partition.as_str());
    text::add_pair(&mut h, "ms-teams-region", p.region.region.as_str());
    text::add_pair(&mut h, "ms-teams-ring", p.region.ring.as_str());
    if migration {
        text::add_pair(&mut h, "x-ms-migration", "True");
    }
    h
}

// -- Responses --

/// The controller of a new conversation: a member of the response or of its
/// inner response, else the `Location` header.
pub open spec fn controller_of(resp: JsonV, location: Option<Seq<char>>) -> Option<Seq<char>> {
    let member = match json::get_of(resp, "conversationController"@) {
        Some(v) => Some(v),
        None => json::get2_of(resp, "conversationResponse"@, "conversationController"@),
    };
    match json::str_of(member) {
        Some(s) => Some(s),
        None => location,
    }
}

/// What the response to a new conversation says.
pub open spec fn is_created(
    resp: JsonV,
    location: Option<Seq<char>>,
    body: Seq<char>,
    c: ConversationCreated,
) -> bool {
    &&& controller_of(resp, location) == Some(c.conversation_controller@)
    &&& text::opt_text(c.add_participant_url) == json::str_of(
        json::get2_of(resp, "links"@, "addParticipant"@),
    )
    &&& c.response_body@ == body
}

/// What the response to a call placed in one step says of the call.
pub open spec fn is_joined(resp: JsonV, body: Seq<char>, j: ConversationJoined) -> bool {
    &&& text::opt_text(j.cc_active_url) == json::str_of(
        json::get2_of(resp, "links"@, "active"@),
    )
    &&& j.response_body@ == body
}

/// Why the response to a new conversation was refused.
#[derive(Debug, Clone, Copy, PartialEq, Eq, Structural)]
pub enum CreatedError {
    /// The response is not JSON.
    NotJson,
    /// No conversation controller is named.
    NoController,
}

/// Reads the response to a new conversation.
pub fn read_created(resp: &Json, location: Option<&str>, body: &str) -> (r: Option<
    ConversationCreated,
>)
    ensures
        match r {
            Some(c) => is_created(resp@, text::opt_str(location), body@, c),
            None => controller_of(resp@, text::opt_str(location)) is None,
        },
{
    let member = match resp.get("conversationController") {
        Some(v) => Some(v),
        None => resp.get2("conversationResponse", "conversationController"),
    };
    let controller = match json::as_text(member) {
        Some(s) => Some(s),
        None => match location {
            Some(l) => Some(l.to_string()),
            None => None,
        },
    };
    match controller {
        Some(conversation_controller) => Some(
            ConversationCreated {
                conversation_controller,
                add_participant_url: json::as_text(resp.get2("links", "addParticipant")),
                response_body: body.to_string(),
            },
        ),
        None => None,
    }
}

/// Parses the response to a new conversation.
pub fn parse_created(body: &str, location: Option<&str>) -> (r: Result<
    ConversationCreated,
    CreatedError,
>)
    ensures
        match json::json_text(body@) {
            None => r == Err::<ConversationCreated, CreatedError>(CreatedError::NotJson),
            Some(v) => match r {
                Ok(c) => is_created(v, text::opt_str(location), body@, c),
                Err(e) => e == CreatedError::NoController && controller_of(
                    v,
                    text::opt_str(location),
                ) is None,
            },
        },
{
    match json::parse_json(body) {
        Some(v) => match read_created(&v, location, body) {
            Some(c) => Ok(c),
            None => Err(CreatedError::NoController),
        },
        None => Err(CreatedError::NotJson),
    }
}

/// Reads the call of a response to a call placed in one step.
pub fn read_joined(resp: &Json, body: &str) -> (r: ConversationJoined)
    ensures
        is_joined(resp@, body@, r),
{
    ConversationJoined {
        cc_active_url: json::as_text(resp.get2("links", "active")),
        response_body: body.to_string(),
    }
}

/// Parses the response to a call placed in one step.
pub fn parse_one_step_call(body: &str, location: Option<&str>) -> (r: Result<
    (ConversationCreated, ConversationJoined),
    CreatedError,
>)
    ensures
        match json::json_text(body@) {
            None => r == Err::<(ConversationCreated, ConversationJoined), CreatedError>(
                CreatedError::NotJson,
            ),
            Some(v) => match r {
                Ok((c, j)) => is_created(v, text::opt_str(location), body@, c) && is_joined(
                    v,
                    body@,
                    j,
                ),
                Err(e) => e == CreatedError::NoController && controller_of(
                    v,
                    text::opt_str(location),
                ) is None,
            },
        },
{
    match json::parse_json(body) {
        Some(v) => match read_created(&v, location, body) {
            Some(c) => Ok((c, read_joined(&v, body))),
            None => Err(CreatedError::NoController),
        },
        None => Err(CreatedError::NotJson),
    }
}

/// The outcome of joining a conversation: the active URL stands in a header.
pub fn joined_from_header(cluster_context: Option<&str>, body: &str) -> (r: ConversationJoined)
    ensures
        text::opt_text(r.cc_active_url) == text::opt_str(cluster_context),
        r.response_body@ == body@,
{
    ConversationJoined {
        cc_active_url: match cluster_context {
            Some(s) => Some(s.to_string()),
            None => None,
        },
        response_body: body.to_string(),
    }
}

// -- Answering an incoming call --

/// Which link of an invitation a request goes to.
#[derive(Debug, Clone, Copy, PartialEq, Eq, Structural)]
pub enum CallLink {
    Acceptance,
    MediaAnswer,
    End,
}

/// What an invitation lacks.
#[derive(Debug, Clone, Copy, PartialEq, Eq, Structural)]
pub enum LinkError {
    NoInvitation,
    NoLinks,
    NoUrl,
}

/// The URL of a link of an invitation.
pub open spec fn link_url(n: CallNotificationV, link: CallLink) -> Result<Seq<char>, LinkError> {
    match n.call_invitation {
        None => Err(LinkError::NoInvitation),
        Some(i) => match i.links {
            None => Err(LinkError::NoLinks),
            Some(l) => match (match link {
                CallLink::Acceptance => l.acceptance,
                CallLink::MediaAnswer => l.media_answer,
                CallLink::End => l.end,
            }) {
                Some(u) => Ok(u),
                None => Err(LinkError::NoUrl),
            },
        },
    }
}

/// Finds the URL of a link of an invitation.
pub fn find_link(notification: &CallNotification, link: CallLink) -> (r: Result<String, LinkError>)
    ensures
        match r {
            Ok(u) => link_url(notification@, link) == Ok::<Seq<char>, LinkError>(u@),
            Err(e) => link_url(notification@, link) == Err::<Seq<char>, LinkError>(e),
        },
{
    match &notification.call_invitation {
        None => Err(LinkError::NoInvitation),
        Some(i) => match &i.links {
            None => Err(LinkError::NoLinks),
            Some(l) => {
                let url = match link {
                    CallLink::Acceptance => text::copy_opt(&l.acceptance),
                    CallLink::MediaAnswer => text::copy_opt(&l.media_answer),
                    CallLink::End => text::copy_opt(&l.end),
                };
                match url {
                    Some(u) => Ok(u),
                    None => Err(LinkError::NoUrl),
                }
            },
        },
    }
}

/// The body that accepts a call.
pub open spec fn accept_call_v() -> JsonV {
    FieldsV::new()
        .put("acceptedCallModalities"@, JsonV::Arr(Seq::empty().push(JsonV::Str("Audio"@))))
        .put(
            "endpointMetadata"@,
            FieldsV::new()
                .flag("isCallMediaCaptured"@, false)
                .flag("isMicrophoneOn"@, false).obj(),
        ).obj()
}

/// The body that accepts a call.
pub fn accept_call() -> (r: Json)
    ensures
        r@ == accept_call_v(),
{
    let mut o = Fields::new();
    let mut accepted_call_modalities_items = Items::new();
    accepted_call_modalities_items.push(Json::text("Audio"));
    o.put("acceptedCallModalities", accepted_call_modalities_items.arr());
    let mut endpoint_metadata = Fields::new();
    endpoint_metadata.flag("isCallMediaCaptured", false);
    endpoint_metadata.flag("isMicrophoneOn", false);
    o.put("endpointMetadata", endpoint_metadata.obj());
    o.obj()
}

/// The body that answers with media.
pub open spec fn send_media_answer_v(sdp_answer: Seq<char>) -> JsonV {
    FieldsV::new()
        .put(
            "mediaContent"@,
            FieldsV::new()
                .text("blob"@, sdp_answer)
                .text("contentType"@, "application/sdp"@).obj(),
        ).obj()
}

/// The body that answers with media.
pub fn send_media_answer(sdp_answer: &str) -> (r: Json)
    ensures
        r@ == send_media_answer_v(sdp_answer@),
{
    let mut o = Fields::new();
    let mut media_content = Fields::new();
    media_content.text("blob", sdp_answer);
    media_content.text("contentType", "application/sdp");
    o.put("mediaContent", media_content.obj());
    o.obj()
}

/// The body that ends a call: an empty object.
pub fn end_call() -> (r: Json)
    ensures
        r@ == FieldsV::new().obj(),
{
    Fields::new().obj()
}

// -- The Echo bot --

/// The 1:1 thread of a caller and the Echo bot.
pub open spec fn echo_thread(caller_oid: Seq<char>) -> Seq<char> {
    "19:"@ + caller_oid + "_"@ + ECHO_BOT_OID@ + "@unq.gbl.spaces"@
}

/// Builds the 1:1 thread id for a call to the Echo bot.
pub fn echo_thread_id(caller_oid: &str) -> (r: String)
    ensures
        r@ == echo_thread(caller_oid@),
{
    let mut s = "19:".to_string();
    s.append(caller_oid);
    s.append("_");
    s.append(ECHO_BOT_OID);
    s.append("@unq.gbl.spaces");
    s
}

// -- What the requests say --

/// Audio is always asked for and comes first; video and the screen are asked for
/// exactly where they are wanted.
pub proof fn law_modalities_as_wanted(video: bool, screen: bool)
    ensures
        modalities_v(video, screen) matches JsonV::Arr(a) && {
            &&& a.len() > 0 && a[0] == JsonV::Str("Audio"@)
            &&& a.contains(JsonV::Str("Video"@)) <==> video
            &&& a.contains(JsonV::Str("ScreenViewer"@)) <==> screen
            &&& forall|i: int|
                0 <= i < a.len() ==> #[trigger] a[i] == JsonV::Str("Audio"@) || a[i] == JsonV::Str(
                    "Video"@,
                ) || a[i] == JsonV::Str("ScreenViewer"@)
            &&& a.no_duplicates()
        },
{
    reveal_strlit("Audio");
    reveal_strlit("Video");
    reveal_strlit("ScreenViewer");
    assert("Audio"@[0] == 'A' && "Video"@[0] == 'V' && "ScreenViewer"@.len() == 12);
    assert("Audio"@.len() == 5 && "Video"@.len() == 5);
    let a = modalities_v(video, screen)->Arr_0;
    if video {
        assert(a[1] == JsonV::Str("Video"@));
    }
    if screen {
        assert(a[a.len() - 1] == JsonV::Str("ScreenViewer"@));
    }
}

/// A new conversation is opened by the caller, in the thread of the call. Nobody is
/// called yet: there is no invitation.
pub proof fn law_new_conversation_is_the_callers(p: ConversationCallParams<'_>)
    ensures
        ({
            let b = create_conversation_v(p);
            &&& json::str_of(json::get3_of(b, "participants"@, "from"@, "id"@))
                == Some(p.caller_mri@)
            &&& json::str_of(json::get3_of(b, "participants"@, "from"@, "displayName"@))
                == Some(p.caller_display_name@)
            &&& json::str_of(json::get3_of(b, "participants"@, "from"@, "endpointId"@))
                == Some(p.endpoint_id@)
            &&& json::str_of(json::get3_of(b, "participants"@, "from"@, "participantId"@))
                == Some(p.participant_id@)
            &&& json::str_of(json::get3_of(b, "participants"@, "from"@, "languageId"@))
                == Some("en-US"@)
            &&& json::str_of(json::get2_of(b, "groupChat"@, "threadId"@)) == Some(p.thread_id@)
            &&& json::get2_of(b, "groupChat"@, "messageId"@) == Some(JsonV::Null)
            &&& json::get_of(b, "endpointCapabilities"@) == Some(json::num_v(73463))
            &&& json::get_of(b, "clientEndpointCapabilities"@) == Some(json::num_v(9336554))
            &&& json::get2_of(b, "endpointMetadata"@, "holographicCapabilities"@)
                == Some(json::num_v(3))
            &&& json::str_of(json::get2_of(b, "debugContent"@, "causeId"@))
                == Some(cause_id(p.message_id@))
            &&& json::get2_of(b, "endpointState"@, "endpointStateSequenceNumber"@)
                == Some(json::num_v(0))
            &&& json::get2_of(b, "conversationRequest"@, "links"@) == Some(plain_links_v(p))
            &&& json::get2_of(b, "conversationRequest"@, "roster"@) == Some(roster_v(p))
            &&& json::get3_of(b, "conversationRequest"@, "properties"@,
                "enableGroupCallMeetupGeneration"@) == Some(JsonV::Bool(true))
            &&& json::get_of(b, "callInvitation"@) is None
            &&& json::get_of(b, "meetingInfo"@) == Some(JsonV::Null)
            &&& json::get2_of(b, "conversationRequest"@, "subject"@) == Some(JsonV::Null)
        }),
{
    broadcast use json::group_members;

    assert("id"@.len() == 2) by {
        reveal_strlit("id");
    }
    assert("displayName"@.len() == 11 && "displayName"@[0] == 'd') by {
        reveal_strlit("displayName");
    }
    assert("endpointId"@.len() == 10 && "endpointId"@[0] == 'e') by {
        reveal_strlit("endpointId");
    }
    assert("participantId"@.len() == 13 && "participantId"@[0] == 'p') by {
        reveal_strlit("participantId");
    }
    assert("languageId"@.len() == 10 && "languageId"@[0] == 'l') by {
        reveal_strlit("languageId");
    }
    assert("threadId"@.len() == 8) by {
        reveal_strlit("threadId");
    }
    assert("messageId"@.len() == 9 && "messageId"@[0] == 'm') by {
        reveal_strlit("messageId");
    }
    assert("ecsEtag"@.len() == 7 && "ecsEtag"@[0] == 'e') by {
        reveal_strlit("ecsEtag");
    }
    assert("causeId"@.len() == 7 && "causeId"@[0] == 'c') by {
        reveal_strlit("causeId");
    }
    assert("holographicCapabilities"@.len() == 23) by {
        reveal_strlit("holographicCapabilities");
    }
    assert("infoShownInReportMode"@.len() == 21) by {
        reveal_strlit("infoShownInReportMode");
    }
    assert("preheatProperties"@.len() == 17) by {
        reveal_strlit("preheatProperties");
    }
    assert("additionalEndpointProperties"@.len() == 28 && "additionalEndpointProperties"@[0] == 'a'
        && "additionalEndpointProperties"@[1] == 'd') by {
        reveal_strlit("additionalEndpointProperties");
    }
    assert("endpointStateSequenceNumber"@.len() == 27) by {
        reveal_strlit("endpointStateSequenceNumber");
    }
    assert("endpointProperties"@.len() == 18) by {
        reveal_strlit("endpointProperties");
    }
    assert("conversationRequest"@.len() == 19) by {
        reveal_strlit("conversationRequest");
    }
    assert("subject"@.len() == 7 && "subject"@[0] == 's') by {
        reveal_strlit("subject");
    }
    assert("roster"@.len() == 6) by {
        reveal_strlit("roster");
    }
    assert("properties"@.len() == 10 && "properties"@[0] == 'p') by {
        reveal_strlit("properties");
    }
    assert("links"@.len() == 5) by {
        reveal_strlit("links");
    }
    assert("groupContext"@.len() == 12 && "groupContext"@[0] == 'g') by {
        reveal_strlit("groupContext");
    }
    assert("groupChat"@.len() == 9 && "groupChat"@[0] == 'g') by {
        reveal_strlit("groupChat");
    }
    assert("participants"@.len() == 12 && "participants"@[0] == 'p') by {
        reveal_strlit("participants");
    }
    assert("from"@.len() == 4) by {
        reveal_strlit("from");
    }
    assert("capabilities"@.len() == 12 && "capabilities"@[0] == 'c') by {
        reveal_strlit("capabilities");
    }
    assert("endpointCapabilities"@.len() == 20) by {
        reveal_strlit("endpointCapabilities");
    }
    assert("clientEndpointCapabilities"@.len() == 26) by {
        reveal_strlit("clientEndpointCapabilities");
    }
    assert("endpointMetadata"@.len() == 16) by {
        reveal_strlit("endpointMetadata");
    }
    assert("meetingInfo"@.len() == 11 && "meetingInfo"@[0] == 'm') by {
        reveal_strlit("meetingInfo");
    }
    assert("endpointState"@.len() == 13 && "endpointState"@[0] == 'e') by {
        reveal_strlit("endpointState");
    }
    assert("debugContent"@.len() == 12 && "debugContent"@[0] == 'd') by {
        reveal_strlit("debugContent");
    }
    assert("allowConversationWithoutHost"@.len() == 28 && "allowConversationWithoutHost"@[0] == 'a'
        && "allowConversationWithoutHost"@[1] == 'l') by {
        reveal_strlit("allowConversationWithoutHost");
    }
    assert("enableGroupCallEventMessages"@.len() == 28
        && "enableGroupCallEventMessages"@[0] == 'e') by {
        reveal_strlit("enableGroupCallEventMessages");
    }
    assert("enableGroupCallUpgradeMessage"@.len() == 29) by {
        reveal_strlit("enableGroupCallUpgradeMessage");
    }
    assert("enableGroupCallMeetupGeneration"@.len() == 31) by {
        reveal_strlit("enableGroupCallMeetupGeneration");
    }
    assert("callInvitation"@.len() == 14) by {
        reveal_strlit("callInvitation");
    }
}

/// Joining a conversation brings the caller in with their own media offer, for audio
/// alone, and rings nobody.
pub proof fn law_joining_offers_media(p: ConversationCallParams<'_>, sdp_offer: Seq<char>)
    ensures
        ({
            let b = join_conversation_with_sdp_v(p, sdp_offer);
            &&& json::str_of(json::get3_of(b, "participants"@, "from"@, "id"@))
                == Some(p.caller_mri@)
            &&& json::str_of(json::get3_of(b, "participants"@, "from"@, "displayName"@))
                == Some(p.caller_display_name@)
            &&& json::str_of(json::get3_of(b, "participants"@, "from"@, "endpointId"@))
                == Some(p.endpoint_id@)
            &&& json::str_of(json::get3_of(b, "participants"@, "from"@, "participantId"@))
                == Some(p.participant_id@)
            &&& json::str_of(json::get3_of(b, "participants"@, "from"@, "languageId"@))
                == Some("en-US"@)
            &&& json::str_of(json::get2_of(b, "groupChat"@, "threadId"@)) == Some(p.thread_id@)
            &&& json::get2_of(b, "groupChat"@, "messageId"@) == Some(JsonV::Null)
            &&& json::get_of(b, "endpointCapabilities"@) == Some(json::num_v(73463))
            &&& json::get_of(b, "clientEndpointCapabilities"@) == Some(json::num_v(9336554))
            &&& json::get2_of(b, "endpointMetadata"@, "holographicCapabilities"@)
                == Some(json::num_v(3))
            &&& json::str_of(json::get2_of(b, "debugContent"@, "causeId"@))
                == Some(cause_id(p.message_id@))
            &&& json::get2_of(b, "endpointState"@, "endpointStateSequenceNumber"@)
                == Some(json::num_v(0))
            &&& json::arr_of(json::get2_of(b, "participants"@, "to"@)) matches Some(a)
                && a.len() == 0
            &&& json::get2_of(b, "conversationRequest"@, "suppressDialout"@)
                == Some(JsonV::Bool(true))
            &&& json::get2_of(b, "conversationRequest"@, "links"@) == Some(joining_links_v(p))
            &&& json::get2_of(b, "conversationRequest"@, "roster"@) == Some(roster_v(p))
            &&& json::get3_of(b, "conversationRequest"@, "properties"@,
                "enableGroupCallMeetupGeneration"@) == Some(JsonV::Bool(true))
            &&& json::str_of(json::get3_of(b, "callInvitation"@, "mediaContent"@, "blob"@))
                == Some(sdp_offer)
            &&& json::str_of(json::get3_of(b, "callInvitation"@, "mediaContent"@, "contentType"@))
                == Some("application/sdp"@)
            &&& json::get2_of(b, "callInvitation"@, "callModalities"@)
                == Some(modalities_v(false, false))
            &&& json::get2_of(b, "callInvitation"@, "replaces"@) == Some(JsonV::Null)
            &&& json::str_of(json::get2_of(b, "meetingInfo"@, "organizerId"@))
                == Some(p.caller_oid@)
            &&& json::str_of(json::get2_of(b, "meetingInfo"@, "tenantId"@)) == Some(p.tenant_id@)
            &&& json::get3_of(b, "endpointState"@, "endpointProperties"@, "preheatProperties"@)
                == Some(json::num_v(1))
        }),
{
    broadcast use json::group_members;

    assert("id"@.len() == 2 && "id"@[0] == 'i') by {
        reveal_strlit("id");
    }
    assert("displayName"@.len() == 11 && "displayName"@[0] == 'd') by {
        reveal_strlit("displayName");
    }
    assert("endpointId"@.len() == 10 && "endpointId"@[0] == 'e') by {
        reveal_strlit("endpointId");
    }
    assert("participantId"@.len() == 13 && "participantId"@[0] == 'p'
        && "participantId"@[1] == 'a') by {
        reveal_strlit("participantId");
    }
    assert("languageId"@.len() == 10 && "languageId"@[0] == 'l') by {
        reveal_strlit("languageId");
    }
    assert("threadId"@.len() == 8 && "threadId"@[0] == 't' && "threadId"@[1] == 'h') by {
        reveal_strlit("threadId");
    }
    assert("messageId"@.len() == 9 && "messageId"@[0] == 'm') by {
        reveal_strlit("messageId");
    }
    assert("ecsEtag"@.len() == 7 && "ecsEtag"@[0] == 'e') by {
        reveal_strlit("ecsEtag");
    }
    assert("causeId"@.len() == 7 && "causeId"@[0] == 'c') by {
        reveal_strlit("causeId");
    }
    assert("holographicCapabilities"@.len() == 23) by {
        reveal_strlit("holographicCapabilities");
    }
    assert("infoShownInReportMode"@.len() == 21 && "infoShownInReportMode"@[0] == 'i') by {
        reveal_strlit("infoShownInReportMode");
    }
    assert("preheatProperties"@.len() == 17) by {
        reveal_strlit("preheatProperties");
    }
    assert("additionalEndpointProperties"@.len() == 28 && "additionalEndpointProperties"@[0] == 'a'
        && "additionalEndpointProperties"@[1] == 'd') by {
        reveal_strlit("additionalEndpointProperties");
    }
    assert("endpointStateSequenceNumber"@.len() == 27) by {
        reveal_strlit("endpointStateSequenceNumber");
    }
    assert("endpointProperties"@.len() == 18) by {
        reveal_strlit("endpointProperties");
    }
    assert("conversationRequest"@.len() == 19 && "conversationRequest"@[0] == 'c') by {
        reveal_strlit("conversationRequest");
    }
    assert("conversationType"@.len() == 16 && "conversationType"@[0] == 'c') by {
        reveal_strlit("conversationType");
    }
    assert("subject"@.len() == 7 && "subject"@[0] == 's') by {
        reveal_strlit("subject");
    }
    assert("suppressDialout"@.len() == 15) by {
        reveal_strlit("suppressDialout");
    }
    assert("roster"@.len() == 6) by {
        reveal_strlit("roster");
    }
    assert("properties"@.len() == 10 && "properties"@[0] == 'p') by {
        reveal_strlit("properties");
    }
    assert("links"@.len() == 5) by {
        reveal_strlit("links");
    }
    assert("groupContext"@.len() == 12 && "groupContext"@[0] == 'g') by {
        reveal_strlit("groupContext");
    }
    assert("groupChat"@.len() == 9 && "groupChat"@[0] == 'g') by {
        reveal_strlit("groupChat");
    }
    assert("participants"@.len() == 12 && "participants"@[0] == 'p'
        && "participants"@[1] == 'a') by {
        reveal_strlit("participants");
    }
    assert("from"@.len() == 4 && "from"@[0] == 'f') by {
        reveal_strlit("from");
    }
    assert("to"@.len() == 2 && "to"@[0] == 't') by {
        reveal_strlit("to");
    }
    assert("capabilities"@.len() == 12 && "capabilities"@[0] == 'c') by {
        reveal_strlit("capabilities");
    }
    assert("endpointCapabilities"@.len() == 20 && "endpointCapabilities"@[1] == 'n') by {
        reveal_strlit("endpointCapabilities");
    }
    assert("clientEndpointCapabilities"@.len() == 26) by {
        reveal_strlit("clientEndpointCapabilities");
    }
    assert("endpointMetadata"@.len() == 16 && "endpointMetadata"@[0] == 'e') by {
        reveal_strlit("endpointMetadata");
    }
    assert("meetingInfo"@.len() == 11 && "meetingInfo"@[0] == 'm' && "meetingInfo"@[2] == 'e') by {
        reveal_strlit("meetingInfo");
    }
    assert("organizerId"@.len() == 11 && "organizerId"@[0] == 'o') by {
        reveal_strlit("organizerId");
    }
    assert("tenantId"@.len() == 8 && "tenantId"@[0] == 't' && "tenantId"@[1] == 'e') by {
        reveal_strlit("tenantId");
    }
    assert("endpointState"@.len() == 13 && "endpointState"@[0] == 'e') by {
        reveal_strlit("endpointState");
    }
    assert("callInvitation"@.len() == 14 && "callInvitation"@[4] == 'I') by {
        reveal_strlit("callInvitation");
    }
    assert("debugContent"@.len() == 12 && "debugContent"@[0] == 'd') by {
        reveal_strlit("debugContent");
    }
    assert("allowConversationWithoutHost"@.len() == 28 && "allowConversationWithoutHost"@[0] == 'a'
        && "allowConversationWithoutHost"@[1] == 'l') by {
        reveal_strlit("allowConversationWithoutHost");
    }
    assert("enableGroupCallEventMessages"@.len() == 28
        && "enableGroupCallEventMessages"@[0] == 'e') by {
        reveal_strlit("enableGroupCallEventMessages");
    }
    assert("enableGroupCallUpgradeMessage"@.len() == 29) by {
        reveal_strlit("enableGroupCallUpgradeMessage");
    }
    assert("enableGroupCallMeetupGeneration"@.len() == 31
        && "enableGroupCallMeetupGeneration"@[0] == 'e') by {
        reveal_strlit("enableGroupCallMeetupGeneration");
    }
    assert("callModalities"@.len() == 14 && "callModalities"@[4] == 'M') by {
        reveal_strlit("callModalities");
    }
    assert("replaces"@.len() == 8 && "replaces"@[0] == 'r') by {
        reveal_strlit("replaces");
    }
    assert("transferor"@.len() == 10 && "transferor"@[0] == 't') by {
        reveal_strlit("transferor");
    }
    assert("progress"@.len() == 8 && "progress"@[0] == 'p') by {
        reveal_strlit("progress");
    }
    assert("mediaAnswer"@.len() == 11 && "mediaAnswer"@[0] == 'm' && "mediaAnswer"@[2] == 'd') by {
        reveal_strlit("mediaAnswer");
    }
    assert("acceptance"@.len() == 10 && "acceptance"@[0] == 'a') by {
        reveal_strlit("acceptance");
    }
    assert("redirection"@.len() == 11 && "redirection"@[0] == 'r') by {
        reveal_strlit("redirection");
    }
    assert("end"@.len() == 3) by {
        reveal_strlit("end");
    }
    assert("clientContentForMediaController"@.len() == 31
        && "clientContentForMediaController"@[0] == 'c') by {
        reveal_strlit("clientContentForMediaController");
    }
    assert("controlVideoStreaming"@.len() == 21 && "controlVideoStreaming"@[0] == 'c') by {
        reveal_strlit("controlVideoStreaming");
    }
    assert("csrcInfo"@.len() == 8 && "csrcInfo"@[0] == 'c') by {
        reveal_strlit("csrcInfo");
    }
    assert("dominantSpeakerInfo"@.len() == 19 && "dominantSpeakerInfo"@[0] == 'd') by {
        reveal_strlit("dominantSpeakerInfo");
    }
    assert("pstnContent"@.len() == 11 && "pstnContent"@[0] == 'p') by {
        reveal_strlit("pstnContent");
    }
    assert("emergencyCallCountry"@.len() == 20 && "emergencyCallCountry"@[1] == 'm') by {
        reveal_strlit("emergencyCallCountry");
    }
    assert("platformName"@.len() == 12 && "platformName"@[0] == 'p'
        && "platformName"@[1] == 'l') by {
        reveal_strlit("platformName");
    }
    assert("publicApiCall"@.len() == 13 && "publicApiCall"@[0] == 'p'
        && "publicApiCall"@[1] == 'u') by {
        reveal_strlit("publicApiCall");
    }
    assert("mediaContent"@.len() == 12 && "mediaContent"@[0] == 'm') by {
        reveal_strlit("mediaContent");
    }
    assert("contentType"@.len() == 11 && "contentType"@[0] == 'c') by {
        reveal_strlit("contentType");
    }
    assert("blob"@.len() == 4 && "blob"@[0] == 'b') by {
        reveal_strlit("blob");
    }
}

/// A call to the Echo bot is marked as a test call, offers all media, and dials nobody
/// out.
pub proof fn law_echo_call_is_a_test_call(p: ConversationCallParams<'_>, sdp_offer: Seq<char>)
    ensures
        ({
            let b = create_echo_call_v(p, sdp_offer);
            &&& json::str_of(json::get3_of(b, "participants"@, "from"@, "id"@))
                == Some(p.caller_mri@)
            &&& json::str_of(json::get3_of(b, "participants"@, "from"@, "displayName"@))
                == Some(p.caller_display_name@)
            &&& json::str_of(json::get3_of(b, "participants"@, "from"@, "endpointId"@))
                == Some(p.endpoint_id@)
            &&& json::str_of(json::get3_of(b, "participants"@, "from"@, "participantId"@))
                == Some(p.participant_id@)
            &&& json::str_of(json::get3_of(b, "participants"@, "from"@, "languageId"@))
                == Some("en-US"@)
            &&& json::str_of(json::get2_of(b, "groupChat"@, "threadId"@)) == Some(p.thread_id@)
            &&& json::get2_of(b, "groupChat"@, "messageId"@) == Some(JsonV::Null)
            &&& json::get_of(b, "endpointCapabilities"@) == Some(json::num_v(73463))
            &&& json::get_of(b, "clientEndpointCapabilities"@) == Some(json::num_v(9336554))
            &&& json::get2_of(b, "endpointMetadata"@, "holographicCapabilities"@)
                == Some(json::num_v(3))
            &&& json::str_of(json::get2_of(b, "debugContent"@, "causeId"@))
                == Some(cause_id(p.message_id@))
            &&& json::get2_of(b, "endpointState"@, "endpointStateSequenceNumber"@)
                == Some(json::num_v(0))
            &&& json::arr_of(json::get2_of(b, "participants"@, "to"@)) matches Some(a)
                && a.len() == 0
            &&& json::get2_of(b, "conversationRequest"@, "suppressDialout"@)
                == Some(JsonV::Bool(true))
            &&& json::get2_of(b, "conversationRequest"@, "links"@) == Some(joining_links_v(p))
            &&& json::get2_of(b, "conversationRequest"@, "roster"@) == Some(roster_v(p))
            &&& json::get3_of(b, "conversationRequest"@, "properties"@,
                "enableGroupCallMeetupGeneration"@) == Some(JsonV::Bool(false))
            &&& json::str_of(json::get3_of(b, "callInvitation"@, "mediaContent"@, "blob"@))
                == Some(sdp_offer)
            &&& json::str_of(json::get3_of(b, "callInvitation"@, "mediaContent"@, "contentType"@))
                == Some("application/sdp"@)
            &&& json::get2_of(b, "callInvitation"@, "callModalities"@)
                == Some(modalities_v(true, true))
            &&& json::get2_of(b, "callInvitation"@, "replaces"@) == Some(JsonV::Null)
            &&& json::str_of(json::get_of(b, "scenario"@)) == Some("UserInitiatedTestCall"@)
            &&& json::get_of(b, "meetingInfo"@) == Some(JsonV::Null)
            &&& json::get3_of(b, "endpointState"@, "endpointProperties"@,
                "preheatProperties"@) is None
        }),
{
    broadcast use json::group_members;

    assert("id"@.len() == 2 && "id"@[0] == 'i') by {
        reveal_strlit("id");
    }
    assert("displayName"@.len() == 11 && "displayName"@[0] == 'd') by {
        reveal_strlit("displayName");
    }
    assert("endpointId"@.len() == 10 && "endpointId"@[0] == 'e') by {
        reveal_strlit("endpointId");
    }
    assert("participantId"@.len() == 13 && "participantId"@[0] == 'p'
        && "participantId"@[1] == 'a') by {
        reveal_strlit("participantId");
    }
    assert("languageId"@.len() == 10 && "languageId"@[0] == 'l') by {
        reveal_strlit("languageId");
    }
    assert("threadId"@.len() == 8 && "threadId"@[0] == 't') by {
        reveal_strlit("threadId");
    }
    assert("messageId"@.len() == 9 && "messageId"@[0] == 'm') by {
        reveal_strlit("messageId");
    }
    assert("ecsEtag"@.len() == 7 && "ecsEtag"@[0] == 'e') by {
        reveal_strlit("ecsEtag");
    }
    assert("causeId"@.len() == 7 && "causeId"@[0] == 'c') by {
        reveal_strlit("causeId");
    }
    assert("holographicCapabilities"@.len() == 23) by {
        reveal_strlit("holographicCapabilities");
    }
    assert("infoShownInReportMode"@.len() == 21 && "infoShownInReportMode"@[0] == 'i') by {
        reveal_strlit("infoShownInReportMode");
    }
    assert("preheatProperties"@.len() == 17) by {
        reveal_strlit("preheatProperties");
    }
    assert("additionalEndpointProperties"@.len() == 28 && "additionalEndpointProperties"@[0] == 'a'
        && "additionalEndpointProperties"@[1] == 'd') by {
        reveal_strlit("additionalEndpointProperties");
    }
    assert("endpointStateSequenceNumber"@.len() == 27) by {
        reveal_strlit("endpointStateSequenceNumber");
    }
    assert("endpointProperties"@.len() == 18) by {
        reveal_strlit("endpointProperties");
    }
    assert("conversationRequest"@.len() == 19 && "conversationRequest"@[0] == 'c') by {
        reveal_strlit("conversationRequest");
    }
    assert("conversationType"@.len() == 16 && "conversationType"@[0] == 'c') by {
        reveal_strlit("conversationType");
    }
    assert("subject"@.len() == 7 && "subject"@[0] == 's') by {
        reveal_strlit("subject");
    }
    assert("suppressDialout"@.len() == 15) by {
        reveal_strlit("suppressDialout");
    }
    assert("roster"@.len() == 6) by {
        reveal_strlit("roster");
    }
    assert("properties"@.len() == 10 && "properties"@[0] == 'p') by {
        reveal_strlit("properties");
    }
    assert("links"@.len() == 5) by {
        reveal_strlit("links");
    }
    assert("scenario"@.len() == 8 && "scenario"@[0] == 's') by {
        reveal_strlit("scenario");
    }
    assert("groupContext"@.len() == 12 && "groupContext"@[0] == 'g') by {
        reveal_strlit("groupContext");
    }
    assert("groupChat"@.len() == 9 && "groupChat"@[0] == 'g') by {
        reveal_strlit("groupChat");
    }
    assert("participants"@.len() == 12 && "participants"@[0] == 'p'
        && "participants"@[1] == 'a') by {
        reveal_strlit("participants");
    }
    assert("from"@.len() == 4 && "from"@[0] == 'f') by {
        reveal_strlit("from");
    }
    assert("to"@.len() == 2 && "to"@[0] == 't') by {
        reveal_strlit("to");
    }
    assert("capabilities"@.len() == 12 && "capabilities"@[0] == 'c') by {
        reveal_strlit("capabilities");
    }
    assert("endpointCapabilities"@.len() == 20 && "endpointCapabilities"@[1] == 'n') by {
        reveal_strlit("endpointCapabilities");
    }
    assert("clientEndpointCapabilities"@.len() == 26) by {
        reveal_strlit("clientEndpointCapabilities");
    }
    assert("endpointMetadata"@.len() == 16 && "endpointMetadata"@[0] == 'e') by {
        reveal_strlit("endpointMetadata");
    }
    assert("meetingInfo"@.len() == 11 && "meetingInfo"@[0] == 'm' && "meetingInfo"@[2] == 'e') by {
        reveal_strlit("meetingInfo");
    }
    assert("endpointState"@.len() == 13 && "endpointState"@[0] == 'e') by {
        reveal_strlit("endpointState");
    }
    assert("callInvitation"@.len() == 14 && "callInvitation"@[4] == 'I') by {
        reveal_strlit("callInvitation");
    }
    assert("debugContent"@.len() == 12 && "debugContent"@[0] == 'd') by {
        reveal_strlit("debugContent");
    }
    assert("allowConversationWithoutHost"@.len() == 28 && "allowConversationWithoutHost"@[0] == 'a'
        && "allowConversationWithoutHost"@[1] == 'l') by {
        reveal_strlit("allowConversationWithoutHost");
    }
    assert("enableGroupCallEventMessages"@.len() == 28
        && "enableGroupCallEventMessages"@[0] == 'e') by {
        reveal_strlit("enableGroupCallEventMessages");
    }
    assert("enableGroupCallUpgradeMessage"@.len() == 29) by {
        reveal_strlit("enableGroupCallUpgradeMessage");
    }
    assert("enableGroupCallMeetupGeneration"@.len() == 31
        && "enableGroupCallMeetupGeneration"@[0] == 'e') by {
        reveal_strlit("enableGroupCallMeetupGeneration");
    }
    assert("callModalities"@.len() == 14 && "callModalities"@[4] == 'M') by {
        reveal_strlit("callModalities");
    }
    assert("replaces"@.len() == 8 && "replaces"@[0] == 'r') by {
        reveal_strlit("replaces");
    }
    assert("transferor"@.len() == 10 && "transferor"@[0] == 't') by {
        reveal_strlit("transferor");
    }
    assert("progress"@.len() == 8 && "progress"@[0] == 'p') by {
        reveal_strlit("progress");
    }
    assert("mediaAnswer"@.len() == 11 && "mediaAnswer"@[0] == 'm' && "mediaAnswer"@[2] == 'd') by {
        reveal_strlit("mediaAnswer");
    }
    assert("acceptance"@.len() == 10 && "acceptance"@[0] == 'a') by {
        reveal_strlit("acceptance");
    }
    assert("redirection"@.len() == 11 && "redirection"@[0] == 'r') by {
        reveal_strlit("redirection");
    }
    assert("end"@.len() == 3) by {
        reveal_strlit("end");
    }
    assert("clientContentForMediaController"@.len() == 31
        && "clientContentForMediaController"@[0] == 'c') by {
        reveal_strlit("clientContentForMediaController");
    }
    assert("controlVideoStreaming"@.len() == 21 && "controlVideoStreaming"@[0] == 'c') by {
        reveal_strlit("controlVideoStreaming");
    }
    assert("csrcInfo"@.len() == 8 && "csrcInfo"@[0] == 'c') by {
        reveal_strlit("csrcInfo");
    }
    assert("dominantSpeakerInfo"@.len() == 19 && "dominantSpeakerInfo"@[0] == 'd') by {
        reveal_strlit("dominantSpeakerInfo");
    }
    assert("pstnContent"@.len() == 11 && "pstnContent"@[0] == 'p') by {
        reveal_strlit("pstnContent");
    }
    assert("emergencyCallCountry"@.len() == 20 && "emergencyCallCountry"@[1] == 'm') by {
        reveal_strlit("emergencyCallCountry");
    }
    assert("platformName"@.len() == 12 && "platformName"@[0] == 'p'
        && "platformName"@[1] == 'l') by {
        reveal_strlit("platformName");
    }
    assert("publicApiCall"@.len() == 13 && "publicApiCall"@[0] == 'p'
        && "publicApiCall"@[1] == 'u') by {
        reveal_strlit("publicApiCall");
    }
    assert("mediaContent"@.len() == 12 && "mediaContent"@[0] == 'm') by {
        reveal_strlit("mediaContent");
    }
    assert("contentType"@.len() == 11 && "contentType"@[0] == 'c') by {
        reveal_strlit("contentType");
    }
    assert("blob"@.len() == 4 && "blob"@[0] == 'b') by {
        reveal_strlit("blob");
    }
}

/// A call to a user offers all media and dials out; it is no test call.
pub proof fn law_direct_call_dials_out(p: ConversationCallParams<'_>, sdp_offer: Seq<char>)
    ensures
        ({
            let b = create_1to1_call_v(p, sdp_offer);
            &&& json::str_of(json::get3_of(b, "participants"@, "from"@, "id"@))
                == Some(p.caller_mri@)
            &&& json::str_of(json::get3_of(b, "participants"@, "from"@, "displayName"@))
                == Some(p.caller_display_name@)
            &&& json::str_of(json::get3_of(b, "participants"@, "from"@, "endpointId"@))
                == Some(p.endpoint_id@)
            &&& json::str_of(json::get3_of(b, "participants"@, "from"@, "participantId"@))
                == Some(p.participant_id@)
            &&& json::str_of(json::get3_of(b, "participants"@, "from"@, "languageId"@))
                == Some("en-US"@)
            &&& json::str_of(json::get2_of(b, "groupChat"@, "threadId"@)) == Some(p.thread_id@)
            &&& json::get2_of(b, "groupChat"@, "messageId"@) == Some(JsonV::Null)
            &&& json::get_of(b, "endpointCapabilities"@) == Some(json::num_v(73463))
            &&& json::get_of(b, "clientEndpointCapabilities"@) == Some(json::num_v(9336554))
            &&& json::get2_of(b, "endpointMetadata"@, "holographicCapabilities"@)
                == Some(json::num_v(3))
            &&& json::str_of(json::get2_of(b, "debugContent"@, "causeId"@))
                == Some(cause_id(p.message_id@))
            &&& json::get2_of(b, "endpointState"@, "endpointStateSequenceNumber"@)
                == Some(json::num_v(0))
            &&& json::arr_of(json::get2_of(b, "participants"@, "to"@)) matches Some(a)
                && a.len() == 0
            &&& json::get2_of(b, "conversationRequest"@, "suppressDialout"@)
                == Some(JsonV::Bool(false))
            &&& json::get2_of(b, "conversationRequest"@, "links"@) == Some(joining_links_v(p))
            &&& json::get2_of(b, "conversationRequest"@, "roster"@) == Some(roster_v(p))
            &&& json::get3_of(b, "conversationRequest"@, "properties"@,
                "enableGroupCallMeetupGeneration"@) == Some(JsonV::Bool(false))
            &&& json::str_of(json::get3_of(b, "callInvitation"@, "mediaContent"@, "blob"@))
                == Some(sdp_offer)
            &&& json::str_of(json::get3_of(b, "callInvitation"@, "mediaContent"@, "contentType"@))
                == Some("application/sdp"@)
            &&& json::get2_of(b, "callInvitation"@, "callModalities"@)
                == Some(modalities_v(true, true))
            &&& json::get2_of(b, "callInvitation"@, "replaces"@) == Some(JsonV::Null)
            &&& json::get_of(b, "scenario"@) is None
            &&& json::get_of(b, "meetingInfo"@) == Some(JsonV::Null)
            &&& json::get3_of(b, "endpointState"@, "endpointProperties"@,
                "preheatProperties"@) is None
        }),
{
    broadcast use json::group_members;

    assert("id"@.len() == 2 && "id"@[0] == 'i') by {
        reveal_strlit("id");
    }
    assert("displayName"@.len() == 11 && "displayName"@[0] == 'd') by {
        reveal_strlit("displayName");
    }
    assert("endpointId"@.len() == 10 && "endpointId"@[0] == 'e') by {
        reveal_strlit("endpointId");
    }
    assert("participantId"@.len() == 13 && "participantId"@[0] == 'p'
        && "participantId"@[1] == 'a') by {
        reveal_strlit("participantId");
    }
    assert("languageId"@.len() == 10 && "languageId"@[0] == 'l') by {
        reveal_strlit("languageId");
    }
    assert("threadId"@.len() == 8 && "threadId"@[0] == 't') by {
        reveal_strlit("threadId");
    }
    assert("messageId"@.len() == 9 && "messageId"@[0] == 'm') by {
        reveal_strlit("messageId");
    }
    assert("ecsEtag"@.len() == 7 && "ecsEtag"@[0] == 'e') by {
        reveal_strlit("ecsEtag");
    }
    assert("causeId"@.len() == 7 && "causeId"@[0] == 'c') by {
        reveal_strlit("causeId");
    }
    assert("holographicCapabilities"@.len() == 23) by {
        reveal_strlit("holographicCapabilities");
    }
    assert("infoShownInReportMode"@.len() == 21 && "infoShownInReportMode"@[0] == 'i') by {
        reveal_strlit("infoShownInReportMode");
    }
    assert("preheatProperties"@.len() == 17) by {
        reveal_strlit("preheatProperties");
    }
    assert("additionalEndpointProperties"@.len() == 28 && "additionalEndpointProperties"@[0] == 'a'
        && "additionalEndpointProperties"@[1] == 'd') by {
        reveal_strlit("additionalEndpointProperties");
    }
    assert("endpointStateSequenceNumber"@.len() == 27) by {
        reveal_strlit("endpointStateSequenceNumber");
    }
    assert("endpointProperties"@.len() == 18) by {
        reveal_strlit("endpointProperties");
    }
    assert("conversationRequest"@.len() == 19 && "conversationRequest"@[0] == 'c') by {
        reveal_strlit("conversationRequest");
    }
    assert("conversationType"@.len() == 16 && "conversationType"@[0] == 'c') by {
        reveal_strlit("conversationType");
    }
    assert("subject"@.len() == 7 && "subject"@[0] == 's') by {
        reveal_strlit("subject");
    }
    assert("suppressDialout"@.len() == 15) by {
        reveal_strlit("suppressDialout");
    }
    assert("roster"@.len() == 6) by {
        reveal_strlit("roster");
    }
    assert("properties"@.len() == 10 && "properties"@[0] == 'p') by {
        reveal_strlit("properties");
    }
    assert("links"@.len() == 5) by {
        reveal_strlit("links");
    }
    assert("groupContext"@.len() == 12 && "groupContext"@[0] == 'g') by {
        reveal_strlit("groupContext");
    }
    assert("groupChat"@.len() == 9 && "groupChat"@[0] == 'g') by {
        reveal_strlit("groupChat");
    }
    assert("participants"@.len() == 12 && "participants"@[0] == 'p'
        && "participants"@[1] == 'a') by {
        reveal_strlit("participants");
    }
    assert("from"@.len() == 4 && "from"@[0] == 'f') by {
        reveal_strlit("from");
    }
    assert("to"@.len() == 2 && "to"@[0] == 't') by {
        reveal_strlit("to");
    }
    assert("capabilities"@.len() == 12 && "capabilities"@[0] == 'c') by {
        reveal_strlit("capabilities");
    }
    assert("endpointCapabilities"@.len() == 20 && "endpointCapabilities"@[1] == 'n') by {
        reveal_strlit("endpointCapabilities");
    }
    assert("clientEndpointCapabilities"@.len() == 26) by {
        reveal_strlit("clientEndpointCapabilities");
    }
    assert("endpointMetadata"@.len() == 16 && "endpointMetadata"@[0] == 'e') by {
        reveal_strlit("endpointMetadata");
    }
    assert("meetingInfo"@.len() == 11 && "meetingInfo"@[0] == 'm' && "meetingInfo"@[2] == 'e') by {
        reveal_strlit("meetingInfo");
    }
    assert("endpointState"@.len() == 13 && "endpointState"@[0] == 'e') by {
        reveal_strlit("endpointState");
    }
    assert("callInvitation"@.len() == 14 && "callInvitation"@[4] == 'I') by {
        reveal_strlit("callInvitation");
    }
    assert("debugContent"@.len() == 12 && "debugContent"@[0] == 'd') by {
        reveal_strlit("debugContent");
    }
    assert("allowConversationWithoutHost"@.len() == 28 && "allowConversationWithoutHost"@[0] == 'a'
        && "allowConversationWithoutHost"@[1] == 'l') by {
        reveal_strlit("allowConversationWithoutHost");
    }
    assert("enableGroupCallEventMessages"@.len() == 28
        && "enableGroupCallEventMessages"@[0] == 'e') by {
        reveal_strlit("enableGroupCallEventMessages");
    }
    assert("enableGroupCallUpgradeMessage"@.len() == 29) by {
        reveal_strlit("enableGroupCallUpgradeMessage");
    }
    assert("enableGroupCallMeetupGeneration"@.len() == 31
        && "enableGroupCallMeetupGeneration"@[0] == 'e') by {
        reveal_strlit("enableGroupCallMeetupGeneration");
    }
    assert("callModalities"@.len() == 14 && "callModalities"@[4] == 'M') by {
        reveal_strlit("callModalities");
    }
    assert("replaces"@.len() == 8 && "replaces"@[0] == 'r') by {
        reveal_strlit("replaces");
    }
    assert("transferor"@.len() == 10 && "transferor"@[0] == 't') by {
        reveal_strlit("transferor");
    }
    assert("progress"@.len() == 8 && "progress"@[0] == 'p') by {
        reveal_strlit("progress");
    }
    assert("mediaAnswer"@.len() == 11 && "mediaAnswer"@[0] == 'm' && "mediaAnswer"@[2] == 'd') by {
        reveal_strlit("mediaAnswer");
    }
    assert("acceptance"@.len() == 10 && "acceptance"@[0] == 'a') by {
        reveal_strlit("acceptance");
    }
    assert("redirection"@.len() == 11 && "redirection"@[0] == 'r') by {
        reveal_strlit("redirection");
    }
    assert("end"@.len() == 3) by {
        reveal_strlit("end");
    }
    assert("clientContentForMediaController"@.len() == 31
        && "clientContentForMediaController"@[0] == 'c') by {
        reveal_strlit("clientContentForMediaController");
    }
    assert("controlVideoStreaming"@.len() == 21 && "controlVideoStreaming"@[0] == 'c') by {
        reveal_strlit("controlVideoStreaming");
    }
    assert("csrcInfo"@.len() == 8 && "csrcInfo"@[0] == 'c') by {
        reveal_strlit("csrcInfo");
    }
    assert("dominantSpeakerInfo"@.len() == 19 && "dominantSpeakerInfo"@[0] == 'd') by {
        reveal_strlit("dominantSpeakerInfo");
    }
    assert("pstnContent"@.len() == 11 && "pstnContent"@[0] == 'p') by {
        reveal_strlit("pstnContent");
    }
    assert("emergencyCallCountry"@.len() == 20 && "emergencyCallCountry"@[1] == 'm') by {
        reveal_strlit("emergencyCallCountry");
    }
    assert("platformName"@.len() == 12 && "platformName"@[0] == 'p'
        && "platformName"@[1] == 'l') by {
        reveal_strlit("platformName");
    }
    assert("publicApiCall"@.len() == 13 && "publicApiCall"@[0] == 'p'
        && "publicApiCall"@[1] == 'u') by {
        reveal_strlit("publicApiCall");
    }
    assert("mediaContent"@.len() == 12 && "mediaContent"@[0] == 'm') by {
        reveal_strlit("mediaContent");
    }
    assert("contentType"@.len() == 11 && "contentType"@[0] == 'c') by {
        reveal_strlit("contentType");
    }
    assert("blob"@.len() == 4 && "blob"@[0] == 'b') by {
        reveal_strlit("blob");
    }
    assert("scenario"@.len() == 8 && "scenario"@[0] == 's') by {
        reveal_strlit("scenario");
    }
}

/// The invitation of the Echo bot comes from the caller and goes to the bot alone.
pub proof fn law_bot_is_invited_by_the_caller(p: ConversationCallParams<'_>,
    participant_id: Seq<char>)
    ensures
        ({
            let b = invite_echo_bot_v(p, participant_id);
            &&& json::str_of(json::get3_of(b, "participants"@, "from"@, "id"@))
                == Some(p.caller_mri@)
            &&& json::str_of(json::get3_of(b, "participants"@, "from"@, "displayName"@))
                == Some(p.caller_display_name@)
            &&& json::str_of(json::get3_of(b, "participants"@, "from"@, "endpointId"@))
                == Some(p.endpoint_id@)
            &&& json::str_of(json::get3_of(b, "participants"@, "from"@, "participantId"@))
                == Some(p.participant_id@)
            &&& json::str_of(json::get3_of(b, "participants"@, "from"@, "languageId"@))
                == Some("en-US"@)
            &&& json::str_of(json::get2_of(b, "groupChat"@, "threadId"@)) == Some(p.thread_id@)
            &&& json::get2_of(b, "groupChat"@, "messageId"@) == Some(JsonV::Null)
            &&& json::arr_of(json::get2_of(b, "participants"@, "to"@)) matches Some(a)
                && a.len() == 1 && json::str_of(json::get_of(a[0], "id"@))
                == Some("28:cf28171e-fcfd-47e4-a1d6-79460b0b3ca0"@)
                && json::str_of(json::get_of(a[0], "participantId"@)) == Some(participant_id)
            &&& json::get_of(b, "disableUnmute"@) == Some(JsonV::Bool(false))
            &&& json::get_of(b, "callInvitation"@) is None
        }),
{
    broadcast use json::group_members;

    assert("id"@.len() == 2 && "id"@[0] == 'i') by {
        reveal_strlit("id");
    }
    assert("displayName"@.len() == 11) by {
        reveal_strlit("displayName");
    }
    assert("endpointId"@.len() == 10 && "endpointId"@[0] == 'e') by {
        reveal_strlit("endpointId");
    }
    assert("participantId"@.len() == 13 && "participantId"@[0] == 'p') by {
        reveal_strlit("participantId");
    }
    assert("languageId"@.len() == 10 && "languageId"@[0] == 'l') by {
        reveal_strlit("languageId");
    }
    assert("threadId"@.len() == 8) by {
        reveal_strlit("threadId");
    }
    assert("messageId"@.len() == 9 && "messageId"@[0] == 'm') by {
        reveal_strlit("messageId");
    }
    assert("ecsEtag"@.len() == 7 && "ecsEtag"@[0] == 'e') by {
        reveal_strlit("ecsEtag");
    }
    assert("causeId"@.len() == 7 && "causeId"@[0] == 'c') by {
        reveal_strlit("causeId");
    }
    assert("holographicCapabilities"@.len() == 23) by {
        reveal_strlit("holographicCapabilities");
    }
    assert("infoShownInReportMode"@.len() == 21 && "infoShownInReportMode"@[0] == 'i') by {
        reveal_strlit("infoShownInReportMode");
    }
    assert("preheatProperties"@.len() == 17) by {
        reveal_strlit("preheatProperties");
    }
    assert("additionalEndpointProperties"@.len() == 28) by {
        reveal_strlit("additionalEndpointProperties");
    }
    assert("endpointStateSequenceNumber"@.len() == 27) by {
        reveal_strlit("endpointStateSequenceNumber");
    }
    assert("endpointProperties"@.len() == 18 && "endpointProperties"@[0] == 'e') by {
        reveal_strlit("endpointProperties");
    }
    assert("disableUnmute"@.len() == 13 && "disableUnmute"@[0] == 'd') by {
        reveal_strlit("disableUnmute");
    }
    assert("participants"@.len() == 12 && "participants"@[0] == 'p') by {
        reveal_strlit("participants");
    }
    assert("from"@.len() == 4) by {
        reveal_strlit("from");
    }
    assert("to"@.len() == 2 && "to"@[0] == 't') by {
        reveal_strlit("to");
    }
    assert("participantInvitationData"@.len() == 25) by {
        reveal_strlit("participantInvitationData");
    }
    assert("replacementDetails"@.len() == 18 && "replacementDetails"@[0] == 'r') by {
        reveal_strlit("replacementDetails");
    }
    assert("groupContext"@.len() == 12 && "groupContext"@[0] == 'g') by {
        reveal_strlit("groupContext");
    }
    assert("groupChat"@.len() == 9 && "groupChat"@[0] == 'g') by {
        reveal_strlit("groupChat");
    }
    assert("links"@.len() == 5) by {
        reveal_strlit("links");
    }
    assert("addParticipantSuccess"@.len() == 21 && "addParticipantSuccess"@[0] == 'a'
        && "addParticipantSuccess"@[14] == 'S') by {
        reveal_strlit("addParticipantSuccess");
    }
    assert("addParticipantFailure"@.len() == 21 && "addParticipantFailure"@[0] == 'a'
        && "addParticipantFailure"@[14] == 'F') by {
        reveal_strlit("addParticipantFailure");
    }
    assert("callInvitation"@.len() == 14) by {
        reveal_strlit("callInvitation");
    }
}

/// The invitation of a user comes from the caller and goes to the callee alone, who is
/// rung as an outgoing call. Video is asked for exactly where it is wanted, and the
/// screen never.
pub proof fn law_callee_is_invited_by_the_caller(
    p: ConversationCallParams<'_>,
    callee_mri: Seq<char>,
    participant_id: Seq<char>,
    include_video: bool,
)
    ensures
        ({
            let b = invite_user_v(p, callee_mri, participant_id, include_video);
            &&& json::str_of(json::get3_of(b, "participants"@, "from"@, "id"@))
                == Some(p.caller_mri@)
            &&& json::str_of(json::get3_of(b, "participants"@, "from"@, "displayName"@))
                == Some(p.caller_display_name@)
            &&& json::str_of(json::get3_of(b, "participants"@, "from"@, "endpointId"@))
                == Some(p.endpoint_id@)
            &&& json::str_of(json::get3_of(b, "participants"@, "from"@, "participantId"@))
                == Some(p.participant_id@)
            &&& json::str_of(json::get3_of(b, "participants"@, "from"@, "languageId"@))
                == Some("en-US"@)
            &&& json::str_of(json::get2_of(b, "groupChat"@, "threadId"@)) == Some(p.thread_id@)
            &&& json::get2_of(b, "groupChat"@, "messageId"@) == Some(JsonV::Null)
            &&& json::arr_of(json::get2_of(b, "participants"@, "to"@)) matches Some(a)
                && a.len() == 1 && json::str_of(json::get_of(a[0], "id"@)) == Some(callee_mri)
                && json::str_of(json::get_of(a[0], "participantId"@)) == Some(participant_id)
            &&& json::get_of(b, "disableUnmute"@) == Some(JsonV::Bool(false))
            &&& json::str_of(json::get2_of(b, "participantInvitationData"@, "callDirection"@))
                == Some("Outgoing"@)
            &&& json::get2_of(b, "participantInvitationData"@, "callModalities"@)
                == Some(modalities_v(include_video, false))
            &&& json::get2_of(b, "callInvitation"@, "callModalities"@)
                == Some(modalities_v(include_video, false))
            &&& json::get2_of(b, "callInvitation"@, "replaces"@) == Some(JsonV::Null)
            &&& json::get2_of(b, "callInvitation"@, "transferor"@) == Some(JsonV::Null)
        }),
{
    broadcast use json::group_members;

    assert("id"@.len() == 2 && "id"@[0] == 'i') by {
        reveal_strlit("id");
    }
    assert("displayName"@.len() == 11) by {
        reveal_strlit("displayName");
    }
    assert("endpointId"@.len() == 10 && "endpointId"@[0] == 'e') by {
        reveal_strlit("endpointId");
    }
    assert("participantId"@.len() == 13 && "participantId"@[0] == 'p') by {
        reveal_strlit("participantId");
    }
    assert("languageId"@.len() == 10 && "languageId"@[0] == 'l') by {
        reveal_strlit("languageId");
    }
    assert("threadId"@.len() == 8 && "threadId"@[0] == 't') by {
        reveal_strlit("threadId");
    }
    assert("messageId"@.len() == 9 && "messageId"@[0] == 'm') by {
        reveal_strlit("messageId");
    }
    assert("ecsEtag"@.len() == 7 && "ecsEtag"@[0] == 'e') by {
        reveal_strlit("ecsEtag");
    }
    assert("causeId"@.len() == 7 && "causeId"@[0] == 'c') by {
        reveal_strlit("causeId");
    }
    assert("holographicCapabilities"@.len() == 23) by {
        reveal_strlit("holographicCapabilities");
    }
    assert("infoShownInReportMode"@.len() == 21 && "infoShownInReportMode"@[0] == 'i') by {
        reveal_strlit("infoShownInReportMode");
    }
    assert("preheatProperties"@.len() == 17) by {
        reveal_strlit("preheatProperties");
    }
    assert("additionalEndpointProperties"@.len() == 28) by {
        reveal_strlit("additionalEndpointProperties");
    }
    assert("endpointStateSequenceNumber"@.len() == 27) by {
        reveal_strlit("endpointStateSequenceNumber");
    }
    assert("endpointProperties"@.len() == 18 && "endpointProperties"@[0] == 'e') by {
        reveal_strlit("endpointProperties");
    }
    assert("disableUnmute"@.len() == 13 && "disableUnmute"@[0] == 'd') by {
        reveal_strlit("disableUnmute");
    }
    assert("participants"@.len() == 12 && "participants"@[0] == 'p') by {
        reveal_strlit("participants");
    }
    assert("from"@.len() == 4) by {
        reveal_strlit("from");
    }
    assert("to"@.len() == 2 && "to"@[0] == 't') by {
        reveal_strlit("to");
    }
    assert("participantInvitationData"@.len() == 25) by {
        reveal_strlit("participantInvitationData");
    }
    assert("callModalities"@.len() == 14 && "callModalities"@[4] == 'M') by {
        reveal_strlit("callModalities");
    }
    assert("callDirection"@.len() == 13 && "callDirection"@[0] == 'c') by {
        reveal_strlit("callDirection");
    }
    assert("callInvitation"@.len() == 14 && "callInvitation"@[4] == 'I') by {
        reveal_strlit("callInvitation");
    }
    assert("replaces"@.len() == 8 && "replaces"@[0] == 'r') by {
        reveal_strlit("replaces");
    }
    assert("transferor"@.len() == 10 && "transferor"@[0] == 't') by {
        reveal_strlit("transferor");
    }
    assert("replacementDetails"@.len() == 18 && "replacementDetails"@[0] == 'r') by {
        reveal_strlit("replacementDetails");
    }
    assert("groupContext"@.len() == 12 && "groupContext"@[0] == 'g') by {
        reveal_strlit("groupContext");
    }
    assert("groupChat"@.len() == 9 && "groupChat"@[0] == 'g') by {
        reveal_strlit("groupChat");
    }
    assert("links"@.len() == 5) by {
        reveal_strlit("links");
    }
    assert("addParticipantSuccess"@.len() == 21 && "addParticipantSuccess"@[0] == 'a'
        && "addParticipantSuccess"@[14] == 'S') by {
        reveal_strlit("addParticipantSuccess");
    }
    assert("addParticipantFailure"@.len() == 21 && "addParticipantFailure"@[0] == 'a'
        && "addParticipantFailure"@[14] == 'F') by {
        reveal_strlit("addParticipantFailure");
    }
}

/// Every event of a new conversation is reported to the callback of its name.
pub proof fn law_conversation_links_name_callbacks(p: ConversationCallParams<'_>)
    ensures
        ({
            let b = plain_links_v(p);
            &&& json::str_of(json::get_of(b, "conversationEnd"@))
                == Some(callback_of(p, "conversation/conversationEnd/"@))
            &&& json::str_of(json::get_of(b, "conversationUpdate"@))
                == Some(callback_of(p, "conversation/conversationUpdate/"@))
            &&& json::str_of(json::get_of(b, "localParticipantUpdate"@))
                == Some(callback_of(p, "conversation/localParticipantUpdate/"@))
            &&& json::str_of(json::get_of(b, "addParticipantSuccess"@))
                == Some(callback_of(p, "conversation/addParticipantSuccess/"@))
            &&& json::str_of(json::get_of(b, "addParticipantFailure"@))
                == Some(callback_of(p, "conversation/addParticipantFailure/"@))
            &&& json::str_of(json::get_of(b, "receiveMessage"@))
                == Some(callback_of(p, "conversation/receiveMessage/"@))
        }),
{
    broadcast use json::group_members;

    assert("conversationEnd"@.len() == 15) by {
        reveal_strlit("conversationEnd");
    }
    assert("conversationUpdate"@.len() == 18) by {
        reveal_strlit("conversationUpdate");
    }
    assert("localParticipantUpdate"@.len() == 22) by {
        reveal_strlit("localParticipantUpdate");
    }
    assert("addParticipantSuccess"@.len() == 21 && "addParticipantSuccess"@[14] == 'S') by {
        reveal_strlit("addParticipantSuccess");
    }
    assert("addParticipantFailure"@.len() == 21 && "addParticipantFailure"@[14] == 'F') by {
        reveal_strlit("addParticipantFailure");
    }
    assert("receiveMessage"@.len() == 14) by {
        reveal_strlit("receiveMessage");
    }
}

/// Every event of a joined conversation is reported to the callback of its name.
pub proof fn law_joining_links_name_callbacks(p: ConversationCallParams<'_>)
    ensures
        ({
            let b = joining_links_v(p);
            &&& json::str_of(json::get_of(b, "conversationEnd"@))
                == Some(callback_of(p, "conversation/conversationEnd/"@))
            &&& json::str_of(json::get_of(b, "conversationUpdate"@))
                == Some(callback_of(p, "conversation/conversationUpdate/"@))
            &&& json::str_of(json::get_of(b, "localParticipantUpdate"@))
                == Some(callback_of(p, "conversation/localParticipantUpdate/"@))
            &&& json::str_of(json::get_of(b, "addParticipantSuccess"@))
                == Some(callback_of(p, "conversation/addParticipantSuccess/"@))
            &&& json::str_of(json::get_of(b, "addParticipantFailure"@))
                == Some(callback_of(p, "conversation/addParticipantFailure/"@))
            &&& json::str_of(json::get_of(b, "receiveMessage"@))
                == Some(callback_of(p, "conversation/receiveMessage/"@))
            &&& json::str_of(json::get_of(b, "addModalitySuccess"@))
                == Some(callback_of(p, "conversation/addModalitySuccess/"@))
            &&& json::str_of(json::get_of(b, "addModalityFailure"@))
                == Some(callback_of(p, "conversation/addModalityFailure/"@))
            &&& json::str_of(json::get_of(b, "confirmUnmute"@))
                == Some(callback_of(p, "conversation/confirmUnmute/"@))
        }),
{
    broadcast use json::group_members;

    assert("conversationEnd"@.len() == 15) by {
        reveal_strlit("conversationEnd");
    }
    assert("conversationUpdate"@.len() == 18 && "conversationUpdate"@[0] == 'c') by {
        reveal_strlit("conversationUpdate");
    }
    assert("localParticipantUpdate"@.len() == 22) by {
        reveal_strlit("localParticipantUpdate");
    }
    assert("addParticipantSuccess"@.len() == 21 && "addParticipantSuccess"@[14] == 'S') by {
        reveal_strlit("addParticipantSuccess");
    }
    assert("addParticipantFailure"@.len() == 21 && "addParticipantFailure"@[14] == 'F') by {
        reveal_strlit("addParticipantFailure");
    }
    assert("addModalitySuccess"@.len() == 18 && "addModalitySuccess"@[0] == 'a'
        && "addModalitySuccess"@[11] == 'S') by {
        reveal_strlit("addModalitySuccess");
    }
    assert("addModalityFailure"@.len() == 18 && "addModalityFailure"@[0] == 'a'
        && "addModalityFailure"@[11] == 'F') by {
        reveal_strlit("addModalityFailure");
    }
    assert("confirmUnmute"@.len() == 13) by {
        reveal_strlit("confirmUnmute");
    }
    assert("receiveMessage"@.len() == 14) by {
        reveal_strlit("receiveMessage");
    }
}

/// Every event of a call that is offered is reported to the callback of its name.
pub proof fn law_invitation_links_name_callbacks(p: ConversationCallParams<'_>,
    sdp_offer: Seq<char>, all: bool)
    ensures
        ({
            let b = call_invitation_v(p, sdp_offer, all);
            &&& json::str_of(json::get2_of(b, "links"@, "progress"@))
                == Some(callback_of(p, "call/progress/"@))
            &&& json::str_of(json::get2_of(b, "links"@, "mediaAnswer"@))
                == Some(callback_of(p, "call/mediaAnswer/"@))
            &&& json::str_of(json::get2_of(b, "links"@, "acceptance"@))
                == Some(callback_of(p, "call/acceptance/"@))
            &&& json::str_of(json::get2_of(b, "links"@, "redirection"@))
                == Some(callback_of(p, "call/redirection/"@))
            &&& json::str_of(json::get2_of(b, "links"@, "end"@))
                == Some(callback_of(p, "call/end/"@))
        }),
{
    broadcast use json::group_members;

    assert("callModalities"@.len() == 14) by {
        reveal_strlit("callModalities");
    }
    assert("replaces"@.len() == 8 && "replaces"@[0] == 'r') by {
        reveal_strlit("replaces");
    }
    assert("transferor"@.len() == 10 && "transferor"@[0] == 't') by {
        reveal_strlit("transferor");
    }
    assert("links"@.len() == 5) by {
        reveal_strlit("links");
    }
    assert("progress"@.len() == 8 && "progress"@[0] == 'p') by {
        reveal_strlit("progress");
    }
    assert("mediaAnswer"@.len() == 11 && "mediaAnswer"@[0] == 'm') by {
        reveal_strlit("mediaAnswer");
    }
    assert("acceptance"@.len() == 10 && "acceptance"@[0] == 'a') by {
        reveal_strlit("acceptance");
    }
    assert("redirection"@.len() == 11 && "redirection"@[0] == 'r') by {
        reveal_strlit("redirection");
    }
    assert("end"@.len() == 3) by {
        reveal_strlit("end");
    }
    assert("clientContentForMediaController"@.len() == 31) by {
        reveal_strlit("clientContentForMediaController");
    }
    assert("controlVideoStreaming"@.len() == 21) by {
        reveal_strlit("controlVideoStreaming");
    }
    assert("csrcInfo"@.len() == 8 && "csrcInfo"@[0] == 'c') by {
        reveal_strlit("csrcInfo");
    }
    assert("dominantSpeakerInfo"@.len() == 19) by {
        reveal_strlit("dominantSpeakerInfo");
    }
    assert("pstnContent"@.len() == 11 && "pstnContent"@[0] == 'p') by {
        reveal_strlit("pstnContent");
    }
    assert("emergencyCallCountry"@.len() == 20) by {
        reveal_strlit("emergencyCallCountry");
    }
    assert("platformName"@.len() == 12 && "platformName"@[0] == 'p') by {
        reveal_strlit("platformName");
    }
    assert("publicApiCall"@.len() == 13) by {
        reveal_strlit("publicApiCall");
    }
    assert("mediaContent"@.len() == 12 && "mediaContent"@[0] == 'm') by {
        reveal_strlit("mediaContent");
    }
    assert("contentType"@.len() == 11 && "contentType"@[0] == 'c') by {
        reveal_strlit("contentType");
    }
    assert("blob"@.len() == 4) by {
        reveal_strlit("blob");
    }
}

/// The acknowledgement of a call's acceptance names the callbacks of the call, and the
/// registration of callbacks names them for the acknowledgement and for updates.
pub proof fn law_acknowledgement_registers_callbacks(p: ConversationCallParams<'_>)
    ensures
        ({
            let b = register_cc_callbacks_v(p);
            &&& json::get_of(b, "callAcceptanceAcknowledgement"@) == Some(cc_call_links_v(p))
            &&& json::get_of(b, "callParticipantUpdate"@) == Some(cc_call_links_v(p))
            &&& json::get_of(acknowledge_call_acceptance_v(p), "callAcceptanceAcknowledgement"@)
                == Some(cc_call_links_v(p))
            &&& json::get_of(acknowledge_call_acceptance_v(p), "callParticipantUpdate"@) is None
        }),
{
    broadcast use json::group_members;

    assert("callAcceptanceAcknowledgement"@.len() == 29) by {
        reveal_strlit("callAcceptanceAcknowledgement");
    }
    assert("callParticipantUpdate"@.len() == 21) by {
        reveal_strlit("callParticipantUpdate");
    }
}

/// An answer carries the media that was given, as SDP; accepting a call accepts audio
/// alone.
pub proof fn law_answer_carries_its_media(sdp_answer: Seq<char>)
    ensures
        ({
            let b = send_media_answer_v(sdp_answer);
            &&& json::str_of(json::get2_of(b, "mediaContent"@, "blob"@)) == Some(sdp_answer)
            &&& json::str_of(json::get2_of(b, "mediaContent"@, "contentType"@))
                == Some("application/sdp"@)
            &&& json::arr_of(json::get_of(accept_call_v(), "acceptedCallModalities"@))
                matches Some(a) && a.len() == 1 && a[0] == JsonV::Str("Audio"@)
            &&& json::get2_of(accept_call_v(), "endpointMetadata"@, "isMicrophoneOn"@)
                == Some(JsonV::Bool(false))
            &&& json::get2_of(accept_call_v(), "endpointMetadata"@, "isCallMediaCaptured"@)
                == Some(JsonV::Bool(false))
        }),
{
    broadcast use json::group_members;

    assert("mediaContent"@.len() == 12) by {
        reveal_strlit("mediaContent");
    }
    assert("blob"@.len() == 4) by {
        reveal_strlit("blob");
    }
    assert("contentType"@.len() == 11) by {
        reveal_strlit("contentType");
    }
    assert("acceptedCallModalities"@.len() == 22) by {
        reveal_strlit("acceptedCallModalities");
    }
    assert("endpointMetadata"@.len() == 16) by {
        reveal_strlit("endpointMetadata");
    }
    assert("isCallMediaCaptured"@.len() == 19) by {
        reveal_strlit("isCallMediaCaptured");
    }
    assert("isMicrophoneOn"@.len() == 14) by {
        reveal_strlit("isMicrophoneOn");
    }
}

/// A signalling request carries the caller's token, the ids of the call and of the
/// message, and the region; it is marked as migrated exactly where it should be.
pub proof fn law_signalling_headers(p: ConversationCallParams<'_>, message_id: Seq<char>,
    migration: bool)
    ensures
        ({
            let h = request_headers(p, message_id, migration);
            &&& text::paired(h, "Authorization"@) == Some("Bearer "@ + p.ic3_token@)
            &&& text::paired(h, "Content-Type"@) == Some("application/json"@)
            &&& text::paired(h, "x-microsoft-skype-chain-id"@) == Some(p.chain_id@)
            &&& text::paired(h, "x-microsoft-skype-message-id"@) == Some(message_id)
            &&& text::paired(h, "x-microsoft-skype-client"@)
                == Some("SkypeSpaces/1415/teams-cli/TsCallingVersion=2025.49.01.15"@)
            &&& text::paired(h, "Referer"@) == Some("https://teams.microsoft.com/"@)
            &&& text::paired(h, "ms-teams-partition"@) == Some(p.region.partition@)
            &&& text::paired(h, "ms-teams-region"@) == Some(p.region.region@)
            &&& text::paired(h, "ms-teams-ring"@) == Some(p.region.ring@)
            &&& migration <==> text::paired(h, "x-ms-migration"@) == Some("True"@)
            &&& !migration ==> text::paired(h, "x-ms-migration"@) is None
        }),
{
    broadcast use text::group_pairs;

    assert("x-ms-migration"@.len() == 14) by {
        reveal_strlit("x-ms-migration");
    }
    assert("Authorization"@.len() == 13 && "Authorization"@[0] == 'A') by {
        reveal_strlit("Authorization");
    }
    assert("Content-Type"@.len() == 12) by {
        reveal_strlit("Content-Type");
    }
    assert("x-microsoft-skype-chain-id"@.len() == 26) by {
        reveal_strlit("x-microsoft-skype-chain-id");
    }
    assert("x-microsoft-skype-message-id"@.len() == 28) by {
        reveal_strlit("x-microsoft-skype-message-id");
    }
    assert("x-microsoft-skype-client"@.len() == 24) by {
        reveal_strlit("x-microsoft-skype-client");
    }
    assert("Referer"@.len() == 7) by {
        reveal_strlit("Referer");
    }
    assert("ms-teams-partition"@.len() == 18) by {
        reveal_strlit("ms-teams-partition");
    }
    assert("ms-teams-region"@.len() == 15) by {
        reveal_strlit("ms-teams-region");
    }
    assert("ms-teams-ring"@.len() == 13 && "ms-teams-ring"@[0] == 'm') by {
        reveal_strlit("ms-teams-ring");
    }
}

/// A callback stands under the caller's own address and endpoint, and its path comes
/// last.
pub proof fn law_callback_has_its_path(surl: Seq<char>, endpoint_id: Seq<char>, path: Seq<char>)
    ensures
        (surl + "callAgent/"@ + endpoint_id + "/"@).is_prefix_of(
            callback_url(surl, endpoint_id, path),
        ),
        ("/"@ + path).is_suffix_of(callback_url(surl, endpoint_id, path)),
{
    reveal_strlit("callAgent/");
    reveal_strlit("/");
    let head = surl + "callAgent/"@ + endpoint_id + "/"@;
    let hash = text::hex8(fnv1a(encode_utf8(endpoint_id) + encode_utf8(path)));
    let whole = callback_url(surl, endpoint_id, path);
    assert(whole == head + hash + "/"@ + path);
    assert(whole.take(head.len() as int) =~= head);
    assert(whole.skip(whole.len() - path.len() - 1) =~= "/"@ + path);
    assert(whole.subrange(whole.len() - path.len() - 1, whole.len() as int) =~= "/"@ + path);
}

/// The controller of a conversation is named by the response itself, before its inner
/// response and before the `Location` header.
pub proof fn law_controller_is_named(resp: JsonV, location: Option<Seq<char>>, url: Seq<char>)
    ensures
        json::str_of(json::get_of(resp, "conversationController"@)) == Some(url) ==> controller_of(
            resp,
            location,
        ) == Some(url),
        json::get_of(resp, "conversationController"@) is None && json::str_of(
            json::get2_of(resp, "conversationResponse"@, "conversationController"@),
        ) == Some(url) ==> controller_of(resp, location) == Some(url),
        json::get_of(resp, "conversationController"@) is None && json::get_of(
            resp,
            "conversationResponse"@,
        ) is None ==> controller_of(resp, location) == location,
{
}

/// A segment is put behind the path of a URL, and its query stays behind that.
pub proof fn law_segment_before_query(path: Seq<char>, query: Seq<char>, segment: Seq<char>)
    requires
        !path.contains('?'),
        path.len() > 0,
        path.last() != '/',
    ensures
        url_with(path, segment) == path + segment,
        url_with(path + "?"@ + query, segment) == path + segment + "?"@ + query,
{
    reveal_strlit("?");
    let whole = path + "?"@ + query;
    let k = path.len() as int;
    text::lemma_index_from(path, '?', 0);
    text::lemma_index_from(whole, '?', 0);
    assert(whole[k] == '?');
    assert forall|j: int| 0 <= j < k implies whole[j] != '?' by {
        assert(whole[j] == path[j]);
        assert(path.contains(path[j]));
    }
    if let Some(i) = text::first_index(path, '?') {
        assert(path.contains(path[i]));
    }
    assert(text::first_index(whole, '?') == Some(k));
    assert(whole.take(k) =~= path);
    assert(whole.skip(k) =~= "?"@ + query);
    assert(path + segment + ("?"@ + query) =~= path + segment + "?"@ + query);
}

/// A request goes to the link of its name, where the invitation has it.
pub proof fn law_link_of_its_name(
    n: CallNotificationV,
    i: crate::calling::CallInvitationV,
    l: crate::calling::CallLinksV,
)
    requires
        n.call_invitation == Some(i),
        i.links == Some(l),
    ensures
        l.acceptance matches Some(u) ==> link_url(n, CallLink::Acceptance) == Ok::<_, LinkError>(u),
        l.media_answer matches Some(u) ==> link_url(n, CallLink::MediaAnswer) == Ok::<
            _,
            LinkError,
        >(u),
        l.end matches Some(u) ==> link_url(n, CallLink::End) == Ok::<_, LinkError>(u),
        l.acceptance is None ==> link_url(n, CallLink::Acceptance) is Err,
        l.media_answer is None ==> link_url(n, CallLink::MediaAnswer) is Err,
        l.end is None ==> link_url(n, CallLink::End) is Err,
{
}

/// Every event of a call is reported to the callback of its name; that of the call itself
/// is the update of its media.
pub proof fn law_call_links_name_callbacks(p: ConversationCallParams<'_>)
    ensures
        ({
            let b = cc_call_links_v(p);
            &&& json::str_of(json::get2_of(b, "links"@, "mediaAcknowledgement"@))
                == Some(callback_of(p, "call/mediaAcknowledgement/"@))
            &&& json::str_of(json::get2_of(b, "links"@, "rejection"@))
                == Some(callback_of(p, "call/rejection/"@))
            &&& json::str_of(json::get2_of(b, "links"@, "acknowledgement"@))
                == Some(callback_of(p, "call/acknowledgement/"@))
            &&& json::str_of(json::get2_of(b, "links"@, "mediaRenegotiation"@))
                == Some(callback_of(p, "call/mediaRenegotiation/"@))
            &&& json::str_of(json::get2_of(b, "links"@, "replacement"@))
                == Some(callback_of(p, "call/replacement/"@))
            &&& json::str_of(json::get2_of(b, "links"@, "progress"@))
                == Some(callback_of(p, "call/progress/"@))
            &&& json::str_of(json::get2_of(b, "links"@, "mediaAnswer"@))
                == Some(callback_of(p, "call/mediaAnswer/"@))
            &&& json::str_of(json::get2_of(b, "links"@, "newMediaOffer"@))
                == Some(callback_of(p, "call/newMediaOffer/"@))
            &&& json::str_of(json::get2_of(b, "links"@, "redirection"@))
                == Some(callback_of(p, "call/redirection/"@))
            &&& json::str_of(json::get2_of(b, "links"@, "balanceUpdate"@))
                == Some(callback_of(p, "call/balanceUpdate/"@))
            &&& json::str_of(json::get2_of(b, "links"@, "acceptance"@))
                == Some(callback_of(p, "call/acceptance/"@))
            &&& json::str_of(json::get2_of(b, "links"@, "controlVideoStreaming"@))
                == Some(callback_of(p, "call/controlVideoStreaming/"@))
            &&& json::str_of(json::get2_of(b, "links"@, "dominantSpeakerInfo"@))
                == Some(callback_of(p, "call/dominantSpeakerInfo/"@))
            &&& json::str_of(json::get2_of(b, "links"@, "csrcInfo"@))
                == Some(callback_of(p, "call/csrcInfo/"@))
            &&& json::str_of(json::get2_of(b, "links"@, "end"@))
                == Some(callback_of(p, "call/end/"@))
            &&& json::str_of(json::get2_of(b, "links"@, "retargetCompletion"@))
                == Some(callback_of(p, "call/retargetCompletion/"@))
            &&& json::str_of(json::get2_of(b, "links"@, "transfer"@))
                == Some(callback_of(p, "call/transfer/"@))
            &&& json::str_of(json::get2_of(b, "links"@, "transferAcceptance"@))
                == Some(callback_of(p, "call/transferAcceptance/"@))
            &&& json::str_of(json::get2_of(b, "links"@, "transferCompletion"@))
                == Some(callback_of(p, "call/transferCompletion/"@))
            &&& json::str_of(json::get2_of(b, "links"@, "holdCompletion"@))
                == Some(callback_of(p, "call/holdCompletion/"@))
            &&& json::str_of(json::get2_of(b, "links"@, "resumeCompletion"@))
                == Some(callback_of(p, "call/resumeCompletion/"@))
            &&& json::str_of(json::get2_of(b, "links"@, "monitorCompletion"@))
                == Some(callback_of(p, "call/monitorCompletion/"@))
            &&& json::str_of(json::get2_of(b, "links"@, "call"@))
                == Some(callback_of(p, "call/updateMediaDescriptions"@))
        }),
{
    broadcast use json::group_members;

    assert("links"@.len() == 5) by {
        reveal_strlit("links");
    }
    assert("mediaAcknowledgement"@.len() == 20) by {
        reveal_strlit("mediaAcknowledgement");
    }
    assert("rejection"@.len() == 9) by {
        reveal_strlit("rejection");
    }
    assert("acknowledgement"@.len() == 15) by {
        reveal_strlit("acknowledgement");
    }
    assert("mediaRenegotiation"@.len() == 18 && "mediaRenegotiation"@[0] == 'm') by {
        reveal_strlit("mediaRenegotiation");
    }
    assert("replacement"@.len() == 11 && "replacement"@[0] == 'r' && "replacement"@[2] == 'p') by {
        reveal_strlit("replacement");
    }
    assert("progress"@.len() == 8 && "progress"@[0] == 'p') by {
        reveal_strlit("progress");
    }
    assert("mediaAnswer"@.len() == 11 && "mediaAnswer"@[0] == 'm') by {
        reveal_strlit("mediaAnswer");
    }
    assert("newMediaOffer"@.len() == 13 && "newMediaOffer"@[0] == 'n') by {
        reveal_strlit("newMediaOffer");
    }
    assert("redirection"@.len() == 11 && "redirection"@[0] == 'r' && "redirection"@[2] == 'd') by {
        reveal_strlit("redirection");
    }
    assert("balanceUpdate"@.len() == 13 && "balanceUpdate"@[0] == 'b') by {
        reveal_strlit("balanceUpdate");
    }
    assert("acceptance"@.len() == 10) by {
        reveal_strlit("acceptance");
    }
    assert("controlVideoStreaming"@.len() == 21) by {
        reveal_strlit("controlVideoStreaming");
    }
    assert("dominantSpeakerInfo"@.len() == 19) by {
        reveal_strlit("dominantSpeakerInfo");
    }
    assert("csrcInfo"@.len() == 8 && "csrcInfo"@[0] == 'c') by {
        reveal_strlit("csrcInfo");
    }
    assert("end"@.len() == 3) by {
        reveal_strlit("end");
    }
    assert("retargetCompletion"@.len() == 18 && "retargetCompletion"@[0] == 'r') by {
        reveal_strlit("retargetCompletion");
    }
    assert("transfer"@.len() == 8 && "transfer"@[0] == 't') by {
        reveal_strlit("transfer");
    }
    assert("transferAcceptance"@.len() == 18 && "transferAcceptance"@[0] == 't'
        && "transferAcceptance"@[8] == 'A') by {
        reveal_strlit("transferAcceptance");
    }
    assert("transferCompletion"@.len() == 18 && "transferCompletion"@[0] == 't'
        && "transferCompletion"@[8] == 'C') by {
        reveal_strlit("transferCompletion");
    }
    assert("holdCompletion"@.len() == 14) by {
        reveal_strlit("holdCompletion");
    }
    assert("resumeCompletion"@.len() == 16) by {
        reveal_strlit("resumeCompletion");
    }
    assert("call"@.len() == 4) by {
        reveal_strlit("call");
    }
    assert("monitorCompletion"@.len() == 17) by {
        reveal_strlit("monitorCompletion");
    }
    assert("clientContentForMediaController"@.len() == 31) by {
        reveal_strlit("clientContentForMediaController");
    }
}

/// The hash in a callback address goes by bytes: each is mixed in before the product is
/// taken, from the first to the last.
pub proof fn law_hash_goes_by_bytes(data: Seq<u8>, b: u8)
    ensures
        fnv1a(Seq::empty()) == 2_166_136_261,
        fnv1a(data.push(b)) as int == ((fnv1a(data) ^ (b as u32)) * 16_777_619) % 4_294_967_296,
{
    assert(data.push(b).drop_last() =~= data);
}

/// The headers of a region name its partition, its region and its ring.
pub proof fn law_region_headers(r: TeamsRegion)
    ensures
        text::paired(region_headers(r), "ms-teams-partition"@) == Some(r.partition@),
        text::paired(region_headers(r), "ms-teams-region"@) == Some(r.region@),
        text::paired(region_headers(r), "ms-teams-ring"@) == Some(r.ring@),
        region_headers(r).len() == 3,
{
    broadcast use text::group_pairs;

    assert("ms-teams-partition"@.len() == 18) by {
        reveal_strlit("ms-teams-partition");
    }
    assert("ms-teams-region"@.len() == 15) by {
        reveal_strlit("ms-teams-region");
    }
    assert("ms-teams-ring"@.len() == 13) by {
        reveal_strlit("ms-teams-ring");
    }
}

/// What is kept of a conversation that was made or joined is what the answer names.
pub proof fn law_made_conversation_is_kept(
    resp: JsonV,
    location: Option<Seq<char>>,
    body: Seq<char>,
    c: ConversationCreated,
    j: ConversationJoined,
)
    ensures
        is_created(resp, location, body, c) ==> {
            &&& controller_of(resp, location) == Some(c.conversation_controller@)
            &&& json::str_of(json::get2_of(resp, "links"@, "addParticipant"@)) matches Some(u) ==> (
            c.add_participant_url matches Some(a) && a@ == u)
            &&& json::str_of(json::get2_of(resp, "links"@, "addParticipant"@)) is None
                ==> c.add_participant_url is None
            &&& c.response_body@ == body
        },
        is_joined(resp, body, j) ==> {
            &&& json::str_of(json::get2_of(resp, "links"@, "active"@)) matches Some(u) ==> (
            j.cc_active_url matches Some(a) && a@ == u)
            &&& json::str_of(json::get2_of(resp, "links"@, "active"@)) is None ==> j.cc_active_url
                is None
            &&& j.response_body@ == body
        },
{
}

/// Slashes at the end of a controller's path make no difference to where a segment goes.
pub proof fn law_slashes_make_no_difference(path: Seq<char>, query: Seq<char>, segment: Seq<char>)
    requires
        !path.contains('?'),
    ensures
        url_with(path.push('/'), segment) == url_with(path, segment),
        url_with(path.push('/') + "?"@ + query, segment) == url_with(
            path + "?"@ + query,
            segment,
        ),
{
    assert("?"@.len() == 1 && "?"@[0] == '?') by {
        reveal_strlit("?");
    }
    let longer = path.push('/');
    assert(longer.drop_last() =~= path);
    assert(!longer.contains('?')) by {
        if longer.contains('?') {
            let i = choose|i: int| 0 <= i < longer.len() && longer[i] == '?';
            assert(path.contains(path[i]));
        }
    }
    lemma_parts_at_query(path, query);
    lemma_parts_at_query(longer, query);
}

proof fn lemma_parts_at_query(path: Seq<char>, query: Seq<char>)
    requires
        !path.contains('?'),
        "?"@.len() == 1,
        "?"@[0] == '?',
    ensures
        text::first_index(path, '?') is None,
        text::first_index(path + "?"@ + query, '?') == Some(path.len() as int),
        (path + "?"@ + query).take(path.len() as int) == path,
        (path + "?"@ + query).skip(path.len() as int) == "?"@ + query,
{
    let whole = path + "?"@ + query;
    let k = path.len() as int;
    text::lemma_index_from(path, '?', 0);
    text::lemma_index_from(whole, '?', 0);
    assert(whole[k] == '?');
    assert forall|j: int| 0 <= j < k implies whole[j] != '?' by {
        assert(whole[j] == path[j]);
        assert(path.contains(path[j]));
    }
    if let Some(i) = text::first_index(path, '?') {
        assert(path.contains(path[i]));
    }
    assert(whole.take(k) =~= path);
    assert(whole.skip(k) =~= "?"@ + query);
}

} // verus!
