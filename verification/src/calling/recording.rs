//! Call recording by a recorder bot: the requests that add the bot and drive
//! it, and finding the recorder service that a call was given.
use crate::bytes;
use crate::dates;
use crate::encoding;
use crate::json;
use crate::json::{Fields, FieldsV, Items, Json, JsonV};
use crate::text;
use super::call_test;
use super::signaling;
use super::signaling::trouter_callback;
use vstd::utf8::*;
use vstd::prelude::*;

verus! {

/// The recorder bot's MRI.
pub const RECORDER_BOT_MRI: &'static str = "28:bdd75849-e0a6-4cce-8fc1-d7c0d4da43e5";

/// The recorder service to fall back to.
pub const RECORDER_SERVICE_BASE: &'static str =
    "https://api.flightproxy.teams.microsoft.com/api/v2/ep/aks-prod-usea-p08-api.callrecorder.teams.cloud.microsoft:23444";

/// Seconds between the start of transcription and of recording.
pub const TRANSCRIPTION_TO_RECORDING_DELAY_SECS: u64 = 2;

/// Parameters needed for the recording flow.
pub struct RecordingParams<'a> {
    pub caller_mri: &'a str,
    pub participant_id: &'a str,
    pub endpoint_id: &'a str,
    pub chain_id: &'a str,
    pub message_id: &'a str,
    pub thread_id: &'a str,
    pub display_name: &'a str,
    pub trouter_surl: &'a str,
    pub ic3_token: &'a str,
    pub recorder_token: &'a str,
    pub skype_token: &'a str,
    /// The conversation id of the recorder.
    pub conversation_id: &'a str,
    /// The URL that participants are added at.
    pub add_participant_url: &'a str,
}

/// Active recording session info needed to stop recording.
pub struct RecordingSession {
    pub recorder_base: String,
    pub conversation_id: String,
    pub recorder_token: String,
    pub skype_token: String,
    pub chain_id: String,
    pub caller_mri: String,
    pub participant_id: String,
}

// -- Request bodies --

/// The feature flags of the recorder.
pub open spec fn feature_fields() -> FieldsV {
    FieldsV::new()
        .flag("enablePPTSharing"@, true)
        .flag("intermediateLiveCaptions"@, false)
        .flag("actionItemsEnabled"@, false)
        .flag("enableEmailAndMeetingLanguageModel"@, true)
        .flag("ceoSummit"@, false)
        .flag("useUnmixedAudio"@, true)
        .flag("enableTranscriptMeetingChaptering"@, false)
}

fn features() -> (r: Fields)
    ensures
        r@ == feature_fields(),
{
    let mut o = Fields::new();
    o.flag("enablePPTSharing", true);
    o.flag("intermediateLiveCaptions", false);
    o.flag("actionItemsEnabled", false);
    o.flag("enableEmailAndMeetingLanguageModel", true);
    o.flag("ceoSummit", false);
    o.flag("useUnmixedAudio", true);
    o.flag("enableTranscriptMeetingChaptering", false);
    o
}

/// Base recorder feature flags, shared by the bot's invitation and the start
/// of recording.
pub fn recorder_features() -> (r: Json)
    ensures
        r@ == feature_fields().obj(),
{
    features().obj()
}

/// Recording-specific features: the base flags and the recording mode.
pub fn recording_features() -> (r: Json)
    ensures
        r@ == feature_fields().text("recordingMode"@, "Normal"@).obj(),
{
    let mut o = features();
    o.text("recordingMode", "Normal");
    o.obj()
}

/// Step 1: the request that adds the recorder bot to a call.
pub open spec fn add_recorder_bot_v(
    p: RecordingParams<'_>,
    bot_participant_id: Seq<char>,
) -> JsonV {
    FieldsV::new()
        .flag("disableUnmute"@, false)
        .put(
            "participants"@,
            FieldsV::new()
                .put(
                    "from"@,
                    FieldsV::new()
                        .text("id"@, p.caller_mri@)
                        .text("displayName"@, p.display_name@)
                        .text("endpointId"@, p.endpoint_id@)
                        .text("participantId"@, p.participant_id@)
                        .text("languageId"@, "en-US"@).obj(),
                )
                .put("to"@, JsonV::Arr(Seq::empty().push(FieldsV::new()
                        .text("id"@, RECORDER_BOT_MRI@)
                        .text("participantId"@, bot_participant_id).obj()))).obj(),
        )
        .put(
            "participantInvitationData"@,
            FieldsV::new()
                .put(
                    "botData"@,
                    FieldsV::new()
                        .text("meetingTitle"@, ""@)
                        .text("clientInfo"@, "Teams-R4"@)
                        .text("callId"@, p.chain_id@)
                        .text("threadId"@, p.thread_id@)
                        .put("recorderFeatures"@, feature_fields().obj())
                        .text("mode"@, "RecordingAndTranscription"@)
                        .put("iCalUid"@, JsonV::Null)
                        .text("consumerType"@, "Teams"@)
                        .text("spokenLanguage"@, "en-us"@)
                        .text("initiatorUserToken"@, p.recorder_token@)
                        .put("exchangeId"@, JsonV::Null)
                        .text("meetingOrganizer"@, p.display_name@).obj(),
                ).obj(),
        )
        .put("replacementDetails"@, JsonV::Null)
        .put(
            "links"@,
            FieldsV::new()
                .text(
                    "addParticipantSuccess"@,
                    signaling::callback_url(
                        p.trouter_surl@,
                        p.endpoint_id@,
                        "conversation/addParticipantSuccess/"@,
                    ),
                )
                .text("addParticipantFailure"@,
                    signaling::callback_url(p.trouter_surl@, p.endpoint_id@,
                    "conversation/addParticipantFailure/"@)).obj(
                ),
        )
        .put("debugContent"@, FieldsV::new().obj()).obj()
}

/// Step 1: the request that adds the recorder bot to a call.
pub fn add_recorder_bot(p: &RecordingParams<'_>, bot_participant_id: &str) -> (r: Json)
    ensures
        r@ == add_recorder_bot_v(*p, bot_participant_id@),
{
    let mut o = Fields::new();
    o.flag("disableUnmute", false);
    let mut participants = Fields::new();
    let mut from = Fields::new();
    from.text("id", p.caller_mri);
    from.text("displayName", p.display_name);
    from.text("endpointId", p.endpoint_id);
    from.text("participantId", p.participant_id);
    from.text("languageId", "en-US");
    participants.put("from", from.obj());
    let mut to_items = Items::new();
    let mut item = Fields::new();
    item.text("id", RECORDER_BOT_MRI);
    item.text("participantId", bot_participant_id);
    to_items.push(item.obj());
    participants.put("to", to_items.arr());
    o.put("participants", participants.obj());
    let mut participant_invitation_data = Fields::new();
    let mut bot_data = Fields::new();
    bot_data.text("meetingTitle", "");
    bot_data.text("clientInfo", "Teams-R4");
    bot_data.text("callId", p.chain_id);
    bot_data.text("threadId", p.thread_id);
    bot_data.put("recorderFeatures", recorder_features());
    bot_data.text("mode", "RecordingAndTranscription");
    bot_data.put("iCalUid", Json::Null);
    bot_data.text("consumerType", "Teams");
    bot_data.text("spokenLanguage", "en-us");
    bot_data.text("initiatorUserToken", p.recorder_token);
    bot_data.put("exchangeId", Json::Null);
    bot_data.text("meetingOrganizer", p.display_name);
    participant_invitation_data.put("botData", bot_data.obj());
    o.put("participantInvitationData", participant_invitation_data.obj());
    o.put("replacementDetails", Json::Null);
    let mut links = Fields::new();
    links.text(
        "addParticipantSuccess",
        trouter_callback(p.trouter_surl, p.endpoint_id,
            "conversation/addParticipantSuccess/").as_str(
        ),
    );
    links.text(
        "addParticipantFailure",
        trouter_callback(p.trouter_surl, p.endpoint_id,
            "conversation/addParticipantFailure/").as_str(
        ),
    );
    o.put("links", links.obj());
    o.put("debugContent", Fields::new().obj());
    o.obj()
}

/// Step 2: the command that starts transcription.
pub open spec fn transcription_command_v(p: RecordingParams<'_>, timestamp: Seq<char>) -> JsonV {
    FieldsV::new()
        .text("timestamp"@, timestamp)
        .text("participantMri"@, p.caller_mri@)
        .text("participantLegId"@, p.participant_id@)
        .text("action"@, "start"@)
        .text("mode"@, "transcription"@)
        .put("processingModes"@, JsonV::Arr(Seq::empty().push(JsonV::Str("closedCaptions"@))))
        .text("participantSkypeToken"@, ""@).obj()
}

/// Step 2: the command that starts transcription.
pub fn transcription_command(p: &RecordingParams<'_>, timestamp: &str) -> (r: Json)
    ensures
        r@ == transcription_command_v(*p, timestamp@),
{
    let mut o = Fields::new();
    o.text("timestamp", timestamp);
    o.text("participantMri", p.caller_mri);
    o.text("participantLegId", p.participant_id);
    o.text("action", "start");
    o.text("mode", "transcription");
    let mut processing_modes_items = Items::new();
    processing_modes_items.push(Json::text("closedCaptions"));
    o.put("processingModes", processing_modes_items.arr());
    o.text("participantSkypeToken", "");
    o.obj()
}

/// The file name of a recording that starts at a date.
pub open spec fn file_name_of(date: Seq<char>) -> Seq<char> {
    "Meeting in \"av-test\"-"@ + date + "-Meeting Recording"@
}

fn recording_file_name(date: &str) -> (r: String)
    ensures
        r@ == file_name_of(date@),
{
    text::join3("Meeting in \"av-test\"-", date, "-Meeting Recording")
}

/// Step 3: the command that starts recording.
pub open spec fn recording_command_v(
    p: RecordingParams<'_>,
    timestamp: Seq<char>,
    date: Seq<char>,
    correlation_id: Seq<char>,
) -> JsonV {
    FieldsV::new()
        .text("timestamp"@, timestamp)
        .text("participantMri"@, p.caller_mri@)
        .text("participantLegId"@, p.participant_id@)
        .text("action"@, "start"@)
        .put(
            "processingModes"@,
            JsonV::Arr(
                Seq::empty().push(JsonV::Str("recording"@)).push(JsonV::Str("realTimeTranscript"@)),
            ),
        )
        .put(
            "actionParameters"@,
            FieldsV::new()
                .put("recordingFeatures"@, feature_fields().text("recordingMode"@, "Normal"@).obj())
                .put("recordingStorageSettings"@, JsonV::Arr(Seq::empty().push(FieldsV::new()
                        .text("StorageType"@, "OnedriveForBusiness"@)
                        .text("StorageLocation"@, "Recordings"@)
                        .text("FileName"@, file_name_of(date))
                        .put("GroupId"@, JsonV::Null).obj())))
                .text("correlationId"@, correlation_id)
                .text("meetingTitle"@, "Meeting in \"av-test\""@)
                .text("spokenLanguage"@, "en-us"@)
                .text("type"@, "start"@).obj(),
        )
        .text("participantSkypeToken"@, ""@).obj()
}

/// Step 3: the command that starts recording.
pub fn recording_command(
    p: &RecordingParams<'_>,
    timestamp: &str,
    date: &str,
    correlation_id: &str,
) -> (r: Json)
    ensures
        r@ == recording_command_v(*p, timestamp@, date@, correlation_id@),
{
    let mut o = Fields::new();
    o.text("timestamp", timestamp);
    o.text("participantMri", p.caller_mri);
    o.text("participantLegId", p.participant_id);
    o.text("action", "start");
    let mut processing_modes_items = Items::new();
    processing_modes_items.push(Json::text("recording"));
    processing_modes_items.push(Json::text("realTimeTranscript"));
    o.put("processingModes", processing_modes_items.arr());
    let mut action_parameters = Fields::new();
    action_parameters.put("recordingFeatures", recording_features());
    let mut recording_storage_settings_items = Items::new();
    let mut item = Fields::new();
    item.text("StorageType", "OnedriveForBusiness");
    item.text("StorageLocation", "Recordings");
    item.text("FileName", recording_file_name(date).as_str());
    item.put("GroupId", Json::Null);
    recording_storage_settings_items.push(item.obj());
    action_parameters.put("recordingStorageSettings", recording_storage_settings_items.arr());
    action_parameters.text("correlationId", correlation_id);
    action_parameters.text("meetingTitle", "Meeting in \"av-test\"");
    action_parameters.text("spokenLanguage", "en-us");
    action_parameters.text("type", "start");
    o.put("actionParameters", action_parameters.obj());
    o.text("participantSkypeToken", "");
    o.obj()
}

/// The command that stops recording.
pub open spec fn stop_recording_command_v(s: RecordingSession, timestamp: Seq<char>) -> JsonV {
    FieldsV::new()
        .text("timestamp"@, timestamp)
        .text("participantMri"@, s.caller_mri@)
        .text("participantLegId"@, s.participant_id@)
        .text("action"@, "stop"@)
        .put(
            "processingModes"@,
            JsonV::Arr(
                Seq::empty().push(JsonV::Str("recording"@)).push(JsonV::Str("realTimeTranscript"@)),
            ),
        )
        .text("participantSkypeToken"@, ""@).obj()
}

/// The command that stops recording.
pub fn stop_recording_command(s: &RecordingSession, timestamp: &str) -> (r: Json)
    ensures
        r@ == stop_recording_command_v(*s, timestamp@),
{
    let mut o = Fields::new();
    o.text("timestamp", timestamp);
    o.text("participantMri", s.caller_mri.as_str());
    o.text("participantLegId", s.participant_id.as_str());
    o.text("action", "stop");
    let mut processing_modes_items = Items::new();
    processing_modes_items.push(Json::text("recording"));
    processing_modes_items.push(Json::text("realTimeTranscript"));
    o.put("processingModes", processing_modes_items.arr());
    o.text("participantSkypeToken", "");
    o.obj()
}

/// The command that stops transcription.
pub open spec fn stop_transcription_command_v(s: RecordingSession, timestamp: Seq<char>) -> JsonV {
    FieldsV::new()
        .text("timestamp"@, timestamp)
        .text("participantMri"@, s.caller_mri@)
        .text("participantLegId"@, s.participant_id@)
        .text("action"@, "stop"@)
        .text("mode"@, "transcription"@)
        .put("processingModes"@, JsonV::Arr(Seq::empty().push(JsonV::Str("closedCaptions"@))))
        .text("participantSkypeToken"@, ""@).obj()
}

/// The command that stops transcription.
pub fn stop_transcription_command(s: &RecordingSession, timestamp: &str) -> (r: Json)
    ensures
        r@ == stop_transcription_command_v(*s, timestamp@),
{
    let mut o = Fields::new();
    o.text("timestamp", timestamp);
    o.text("participantMri", s.caller_mri.as_str());
    o.text("participantLegId", s.participant_id.as_str());
    o.text("action", "stop");
    o.text("mode", "transcription");
    let mut processing_modes_items = Items::new();
    processing_modes_items.push(Json::text("closedCaptions"));
    o.put("processingModes", processing_modes_items.arr());
    o.text("participantSkypeToken", "");
    o.obj()
}

// -- Time stamps --

/// The RFC 3339 form, in milliseconds and with `Z`, of a time in milliseconds
/// since the epoch; nothing for a time that no calendar date stands for.
pub uninterp spec fn rfc3339_millis(ms: i64) -> Option<Seq<char>>;

/// The compact form (`20260924T090000`) of such a time.
pub uninterp spec fn compact_date(ms: i64) -> Option<Seq<char>>;

/// True of the times of the years 1970 to 9999.
pub open spec fn is_common_time(ms: i64) -> bool {
    0 <= ms < 253_402_300_800_000
}

/// The RFC 3339 form of a common time.
pub open spec fn common_rfc3339(ms: i64) -> Seq<char> {
    dates::iso8601((ms / 1000) as nat).drop_last() + "."@ + dates::padded((ms % 1000) as nat, 3)
        + "Z"@
}

/// The compact form of a common time.
pub open spec fn common_compact(ms: i64) -> Seq<char> {
    let d = dates::date_of(ms / 86_400_000);
    let rem = (ms / 1000 % 86400) as nat;
    dates::padded(d.year as nat, 4) + dates::padded(d.month as nat, 2) + dates::padded(
        d.day as nat,
        2,
    ) + "T"@ + dates::padded(rem / 3600, 2) + dates::padded(rem % 3600 / 60, 2) + dates::padded(
        rem % 60,
        2,
    )
}

/// `chrono`'s `DateTime::from_timestamp_millis` and `to_rfc3339_opts` with
/// milliseconds and `Z`: the date and the time of day in UTC, for the years that
/// have four digits. Nothing is claimed of the other years' form.
#[verifier::external_body]
fn format_rfc3339(ms: i64) -> (r: Option<String>)
    ensures
        text::opt_text(r) == rfc3339_millis(ms),
        is_common_time(ms) ==> text::opt_text(r) == Some(common_rfc3339(ms)),
{
    let at = chrono::DateTime::from_timestamp_millis(ms)?;
    Some(at.to_rfc3339_opts(chrono::SecondsFormat::Millis, true))
}

/// `chrono`'s `DateTime::from_timestamp_millis` and `format` with
/// `%Y%m%dT%H%M%S`: the digits of the date and of the time of day in UTC, for the
/// years that have four digits. Nothing is claimed of the other years' form.
#[verifier::external_body]
fn format_compact(ms: i64) -> (r: Option<String>)
    ensures
        text::opt_text(r) == compact_date(ms),
        is_common_time(ms) ==> text::opt_text(r) == Some(common_compact(ms)),
{
    let at = chrono::DateTime::from_timestamp_millis(ms)?;
    Some(at.format("%Y%m%dT%H%M%S").to_string())
}

/// An optional JSON value by its model.
pub open spec fn opt_view(o: Option<Json>) -> Option<JsonV> {
    match o {
        Some(j) => Some(j@),
        None => None,
    }
}

/// The command that starts transcription at a time in milliseconds.
pub fn start_transcription_at(p: &RecordingParams<'_>, now_ms: i64) -> (r: Option<Json>)
    ensures
        opt_view(r) == match rfc3339_millis(now_ms) {
            Some(t) => Some(transcription_command_v(*p, t)),
            None => None,
        },
        is_common_time(now_ms) ==> opt_view(r) == Some(
            transcription_command_v(*p, common_rfc3339(now_ms)),
        ),
{
    match format_rfc3339(now_ms) {
        Some(t) => Some(transcription_command(p, t.as_str())),
        None => None,
    }
}

/// The command that starts recording at a time in milliseconds.
pub fn start_recording_at(p: &RecordingParams<'_>, now_ms: i64, correlation_id: &str) -> (r: Option<
    Json,
>)
    ensures
        opt_view(r) == match (rfc3339_millis(now_ms), compact_date(now_ms)) {
            (Some(t), Some(d)) => Some(recording_command_v(*p, t, d, correlation_id@)),
            _ => None,
        },
        is_common_time(now_ms) ==> opt_view(r) == Some(
            recording_command_v(
                *p,
                common_rfc3339(now_ms),
                common_compact(now_ms),
                correlation_id@,
            ),
        ),
{
    match (format_rfc3339(now_ms), format_compact(now_ms)) {
        (Some(t), Some(d)) => Some(
            recording_command(p, t.as_str(), d.as_str(), correlation_id),
        ),
        _ => None,
    }
}

/// The commands that stop an active session: recording first, then
/// transcription.
pub fn stop_call_recording(s: &RecordingSession, now_ms: i64) -> (r: Option<(Json, Json)>)
    ensures
        match rfc3339_millis(now_ms) {
            Some(t) => r matches Some((a, b)) && a@ == stop_recording_command_v(*s, t) && b@
                == stop_transcription_command_v(*s, t),
            None => r is None,
        },
        is_common_time(now_ms) ==> (r matches Some((a, b)) && a@ == stop_recording_command_v(
            *s,
            common_rfc3339(now_ms),
        ) && b@ == stop_transcription_command_v(*s, common_rfc3339(now_ms))),
{
    match format_rfc3339(now_ms) {
        Some(t) => Some(
            (stop_recording_command(s, t.as_str()), stop_transcription_command(s, t.as_str())),
        ),
        None => None,
    }
}

// -- URLs and headers --

/// The command URL of a recorder.
pub open spec fn command_url_of(base: Seq<char>, conversation_id: Seq<char>) -> Seq<char> {
    base + "/v2/oncommand/"@ + conversation_id
}

/// The command URL of a recorder.
pub fn command_url(recorder_base: &str, conversation_id: &str) -> (r: String)
    ensures
        r@ == command_url_of(recorder_base@, conversation_id@),
{
    text::join3(recorder_base, "/v2/oncommand/", conversation_id)
}

/// The headers of the request that adds the recorder bot, under a message id
/// of its own.
pub open spec fn bot_headers_of(p: RecordingParams<'_>, message_id: Seq<char>) -> Seq<
    (Seq<char>, Seq<char>),
> {
    Seq::empty().push(("Authorization"@, "Bearer "@ + p.ic3_token@)).push(
        ("Content-Type"@, "application/json"@),
    ).push(("x-microsoft-skype-chain-id"@, p.chain_id@)).push(
        ("x-microsoft-skype-message-id"@, message_id),
    ).push(("x-microsoft-skype-client"@, signaling::SKYPE_CLIENT_HEADER@)).push(
        ("ms-teams-partition"@, signaling::TEAMS_PARTITION@),
    ).push(("ms-teams-region"@, signaling::TEAMS_REGION@)).push(
        ("ms-teams-ring"@, signaling::TEAMS_RING@),
    ).push(("x-ms-migration"@, "True"@))
}

/// The headers of the request that adds the recorder bot.
pub fn bot_headers(p: &RecordingParams<'_>, message_id: &str) -> (r: Vec<(String, String)>)
    ensures
        text::pairs(r@) == bot_headers_of(*p, message_id@),
{
    let mut h: Vec<(String, String)> = text::no_pairs();
    let bearer = text::join2("Bearer ", p.ic3_token);
    text::add_pair(&mut h, "Authorization", bearer.as_str());
    text::add_pair(&mut h, "Content-Type", "application/json");
    text::add_pair(&mut h, "x-microsoft-skype-chain-id", p.chain_id);
    text::add_pair(&mut h, "x-microsoft-skype-message-id", message_id);
    text::add_pair(&mut h, "x-microsoft-skype-client", signaling::SKYPE_CLIENT_HEADER);
    text::add_pair(&mut h, "ms-teams-partition", signaling::TEAMS_PARTITION);
    text::add_pair(&mut h, "ms-teams-region", signaling::TEAMS_REGION);
    text::add_pair(&mut h, "ms-teams-ring", signaling::TEAMS_RING);
    text::add_pair(&mut h, "x-ms-migration", "True");
    h
}

/// The headers of a command to the recorder.
pub open spec fn command_headers_of(
    recorder_token: Seq<char>,
    skype_token: Seq<char>,
    chain_id: Seq<char>,
) -> Seq<(Seq<char>, Seq<char>)> {
    Seq::empty().push(("Authorization"@, "Bearer "@ + recorder_token)).push(
        ("x-skypetoken"@, skype_token),
    ).push(("x-microsoft-skype-chain-id"@, chain_id)).push(
        ("Content-Type"@, "application/json"@),
    )
}

/// The headers of a command to the recorder.
pub fn command_headers(recorder_token: &str, skype_token: &str, chain_id: &str) -> (r: Vec<
    (String, String),
>)
    ensures
        text::pairs(r@) == command_headers_of(recorder_token@, skype_token@, chain_id@),
{
    let mut h: Vec<(String, String)> = text::no_pairs();
    let bearer = text::join2("Bearer ", recorder_token);
    text::add_pair(&mut h, "Authorization", bearer.as_str());
    text::add_pair(&mut h, "x-skypetoken", skype_token);
    text::add_pair(&mut h, "x-microsoft-skype-chain-id", chain_id);
    text::add_pair(&mut h, "Content-Type", "application/json");
    h
}

/// The URL that a bot is added at.
pub fn derive_add_participant_url_for_bot(conversation_controller: &str) -> (r: String)
    ensures
        r@ == signaling::url_with(conversation_controller@, "/addParticipant"@),
{
    signaling::url_with_segment(conversation_controller, "/addParticipant")
}

// -- Conversation ids --

/// Sixteen bytes as a GUID: the first three groups are little-endian.
pub open spec fn guid_text(b: Seq<u8>) -> Seq<char> {
    text::hex2(b[3]) + text::hex2(b[2]) + text::hex2(b[1]) + text::hex2(b[0]) + "-"@ + text::hex2(
        b[5],
    ) + text::hex2(b[4]) + "-"@ + text::hex2(b[7]) + text::hex2(b[6]) + "-"@ + text::hex2(b[8])
        + text::hex2(b[9]) + "-"@ + text::hex2(b[10]) + text::hex2(b[11]) + text::hex2(b[12])
        + text::hex2(b[13]) + text::hex2(b[14]) + text::hex2(b[15])
}

/// The GUID that decoded bytes spell, where there are sixteen.
pub open spec fn guid_of(decoded: Option<Seq<u8>>) -> Option<Seq<char>> {
    match decoded {
        Some(b) => if b.len() == 16 {
            Some(guid_text(b))
        } else {
            None
        },
        None => None,
    }
}

/// Spells sixteen bytes as a GUID.
pub fn guid_from_bytes(b: &Vec<u8>) -> (r: Option<String>)
    ensures
        text::opt_text(r) == guid_of(Some(b@)),
{
    if b.len() != 16 {
        return None;
    }
    let mut s: String = String::new();
    text::push_hex2(&mut s, b[3]);
    proof {
        assert(s@ =~= text::hex2(b@[3]));
    }
    text::push_hex2(&mut s, b[2]);
    text::push_hex2(&mut s, b[1]);
    text::push_hex2(&mut s, b[0]);
    s.append("-");
    text::push_hex2(&mut s, b[5]);
    text::push_hex2(&mut s, b[4]);
    s.append("-");
    text::push_hex2(&mut s, b[7]);
    text::push_hex2(&mut s, b[6]);
    s.append("-");
    text::push_hex2(&mut s, b[8]);
    text::push_hex2(&mut s, b[9]);
    s.append("-");
    text::push_hex2(&mut s, b[10]);
    text::push_hex2(&mut s, b[11]);
    text::push_hex2(&mut s, b[12]);
    text::push_hex2(&mut s, b[13]);
    text::push_hex2(&mut s, b[14]);
    text::push_hex2(&mut s, b[15]);
    Some(s)
}

/// Decodes a GUID in URL-safe Base64.
pub fn decode_base64_uuid(b64: &str) -> (r: Option<String>)
    ensures
        text::opt_text(r) == guid_of(encoding::base64url_bytes(b64@)),
{
    match encoding::base64url_decode(b64) {
        Some(b) => guid_from_bytes(&b),
        None => None,
    }
}

/// The path segment behind `/conv/`; nothing where it is missing or empty.
pub open spec fn conversation_segment(url: Seq<char>) -> Option<Seq<char>> {
    match text::find_in(url, "/conv/"@) {
        Some(i) => {
            let seg = text::before_any(url.skip(i + 6), "/?"@);
            if seg.len() == 0 {
                None
            } else {
                Some(seg)
            }
        },
        None => None,
    }
}

/// The conversation id of a controller's URL: the segment behind `/conv/`, as a
/// GUID where it spells one.
pub open spec fn conversation_id(url: Seq<char>) -> Option<Seq<char>> {
    match conversation_segment(url) {
        Some(seg) => match guid_of(encoding::base64url_bytes(seg)) {
            Some(g) => Some(g),
            None => Some(seg),
        },
        None => None,
    }
}

fn find_segment(url: &str) -> (r: Option<String>)
    ensures
        text::opt_text(r) == conversation_segment(url@),
{
    proof {
        reveal_strlit("/conv/");
    }
    match text::find(url, "/conv/") {
        Some(i) => {
            let v = text::chars_of(url);
            let n: usize = v.len();
            let rest = text::text_of(&v, i + 6, n);
            proof {
                assert(v@.subrange(i + 6, n as int) =~= v@.skip(i + 6));
            }
            let seg = text::take_before_any(rest.as_str(), "/?");
            if seg.as_str().is_empty() {
                None
            } else {
                Some(seg)
            }
        },
        None => None,
    }
}

/// Extracts the conversation id of a controller's URL.
pub fn extract_conversation_id(url: &str) -> (r: Option<String>)
    ensures
        text::opt_text(r) == conversation_id(url@),
{
    match find_segment(url) {
        Some(seg) => match decode_base64_uuid(seg.as_str()) {
            Some(g) => Some(g),
            None => Some(seg),
        },
        None => None,
    }
}

// -- Finding the recorder --

/// True of the bytes of a UUID.
pub open spec fn is_uuid(w: Seq<u8>) -> bool {
    &&& w.len() == 36
    &&& forall|j: int|
        0 <= j < 36 ==> if j == 8 || j == 13 || j == 18 || j == 23 {
            #[trigger] w[j] == 45u8
        } else {
            is_hex_byte(w[j])
        }
}

/// True of the ASCII code of a hexadecimal digit.
pub open spec fn is_hex_byte(b: u8) -> bool {
    48 <= b <= 57 || 65 <= b <= 70 || 97 <= b <= 102
}

/// The start of the first UUID whose first dash stands at or after `k`.
pub open spec fn uuid_from(w: Seq<u8>, k: int) -> Option<int>
    decreases w.len() - k,
{
    if k < 0 || k >= w.len() {
        None
    } else if w[k] == 45u8 && k >= 8 && k + 28 <= w.len() && is_uuid(w.subrange(k - 8, k + 28)) {
        Some(k - 8)
    } else {
        uuid_from(w, k + 1)
    }
}

/// ASCII bytes as text.
pub open spec fn ascii_text(w: Seq<u8>) -> Seq<char> {
    Seq::new(w.len(), |j: int| w[j] as char)
}

/// The bytes around the first mention of the recorder: 200 before it, 400 from
/// it on.
pub open spec fn recorder_window(data: Seq<u8>) -> Option<Seq<u8>> {
    match text::find_in(data, encode_utf8("callrecorder"@)) {
        Some(c) => Some(
            data.subrange(
                if c < 200 {
                    0
                } else {
                    c - 200
                },
                if c + 400 < data.len() {
                    c + 400
                } else {
                    data.len() as int
                },
            ),
        ),
        None => None,
    }
}

/// The first UUID near the recorder.
pub open spec fn uuid_near_recorder(payload: Seq<char>) -> Option<Seq<char>> {
    match recorder_window(encode_utf8(payload)) {
        Some(w) => match uuid_from(w, 0) {
            Some(i) => Some(ascii_text(w.subrange(i, i + 36))),
            None => None,
        },
        None => None,
    }
}

/// What follows the first command path, up to the end of its segment.
pub open spec fn command_id(payload: Seq<char>) -> Seq<char> {
    match text::find_in(payload, "/v2/oncommand/"@) {
        Some(i) => text::before_any(payload.skip(i + 14), "\"/? "@),
        None => Seq::empty(),
    }
}

/// The recorder's conversation id in a payload: that of a command URL, else a
/// UUID near the recorder.
pub open spec fn recorder_conversation(payload: Seq<char>) -> Option<Seq<char>> {
    if command_id(payload).len() > 0 {
        Some(command_id(payload))
    } else {
        uuid_near_recorder(payload)
    }
}

fn check_uuid(w: &[u8], at: usize) -> (r: bool)
    requires
        at + 36 <= w@.len(),
    ensures
        r == is_uuid(w@.subrange(at as int, at + 36)),
{
    let ghost u = w@.subrange(at as int, at + 36);
    let n: usize = w.len();
    let mut j: usize = 0;
    while j < 36
        invariant
            j <= 36,
            at + 36 <= w@.len(),
            n == w@.len(),
            u == w@.subrange(at as int, at + 36),
            forall|k: int|
                0 <= k < j ==> if k == 8 || k == 13 || k == 18 || k == 23 {
                    #[trigger] u[k] == 45u8
                } else {
                    is_hex_byte(u[k])
                },
        decreases 36 - j,
    {
        let b: u8 = w[at + j];
        proof {
            assert(u[j as int] == b);
        }
        let ok = if j == 8 || j == 13 || j == 18 || j == 23 {
            b == 45
        } else {
            (48 <= b && b <= 57) || (65 <= b && b <= 70) || (97 <= b && b <= 102)
        };
        if !ok {
            return false;
        }
        j = j + 1;
    }
    true
}

fn find_uuid(w: &[u8]) -> (r: Option<usize>)
    ensures
        match r {
            Some(i) => uuid_from(w@, 0) == Some(i as int) && i + 36 <= w@.len() && is_uuid(
                w@.subrange(i as int, i + 36),
            ),
            None => uuid_from(w@, 0) is None,
        },
{
    let mut k: usize = 0;
    while k < w.len()
        invariant
            uuid_from(w@, 0) == uuid_from(w@, k as int),
        decreases w@.len() - k,
    {
        if w[k] == 45 && k >= 8 && w.len() - k >= 28 && check_uuid(w, k - 8) {
            return Some(k - 8);
        }
        k = k + 1;
    }
    None
}

fn text_from_ascii(w: &[u8], at: usize) -> (r: String)
    requires
        at + 36 <= w@.len(),
        is_uuid(w@.subrange(at as int, at + 36)),
    ensures
        r@ == ascii_text(w@.subrange(at as int, at + 36)),
{
    let n: usize = w.len();
    let ghost u = w@.subrange(at as int, at + 36);
    let mut s: String = String::new();
    let mut j: usize = 0;
    while j < 36
        invariant
            j <= 36,
            at + 36 <= w@.len(),
            n == w@.len(),
            u == w@.subrange(at as int, at + 36),
            s@ == ascii_text(u.take(j as int)),
        decreases 36 - j,
    {
        s.push(w[at + j] as char);
        proof {
            assert(s@ =~= ascii_text(u.take(j + 1)));
        }
        j = j + 1;
    }
    proof {
        assert(u.take(36) =~= u);
    }
    s
}

fn find_uuid_near_recorder(payload: &str) -> (r: Option<String>)
    ensures
        text::opt_text(r) == uuid_near_recorder(payload@),
{
    let data = payload.as_bytes();
    let n: usize = data.len();
    match bytes::find_bytes(data, "callrecorder".as_bytes()) {
        Some(c) => {
            let from: usize = if c < 200 {
                0
            } else {
                c - 200
            };
            let to: usize = if n - c > 400 {
                c + 400
            } else {
                n
            };
            let w = bytes::copy_range(data, from, to);
            match find_uuid(w.as_slice()) {
                Some(i) => Some(text_from_ascii(w.as_slice(), i)),
                None => None,
            }
        },
        None => None,
    }
}

/// Finds the recorder's conversation id in the text of a payload.
pub fn extract_recorder_conv_id(payload: &str) -> (r: Option<String>)
    ensures
        text::opt_text(r) == recorder_conversation(payload@),
{
    proof {
        reveal_strlit("/v2/oncommand/");
    }
    if let Some(i) = text::find(payload, "/v2/oncommand/") {
        let v = text::chars_of(payload);
        let n: usize = v.len();
        let rest = text::text_of(&v, i + 14, n);
        proof {
            assert(v@.subrange(i + 14, n as int) =~= v@.skip(i + 14));
        }
        let id = text::take_before_any(rest.as_str(), "\"/? ");
        if !id.as_str().is_empty() {
            return Some(id);
        }
    }
    find_uuid_near_recorder(payload)
}

/// The recorder service that a payload's text mentions: the host from
/// `aks-prod-` on, with its port.
pub open spec fn recorder_base(payload: Seq<char>) -> Option<Seq<char>> {
    match text::find_in(payload, "callrecorder.teams.cloud.microsoft"@) {
        Some(i) => match text::find_last(payload.take(i), "aks-prod-"@, i) {
            Some(h) => match text::first_of(payload, "/\" "@, i) {
                Some(e) => Some(
                    "https://api.flightproxy.teams.microsoft.com/api/v2/ep/"@ + payload.subrange(
                        h,
                        e,
                    ),
                ),
                None => None,
            },
            None => None,
        },
        None => None,
    }
}

fn find_recorder_base(payload: &str) -> (r: Option<String>)
    ensures
        text::opt_text(r) == recorder_base(payload@),
{
    match text::find(payload, "callrecorder.teams.cloud.microsoft") {
        Some(i) => {
            let v = text::chars_of(payload);
            let before = text::text_of(&v, 0, i);
            let head = text::chars_of(before.as_str());
            proof {
                assert(head@ =~= v@.take(i as int));
            }
            match text::search_last(&head, &text::chars_of("aks-prod-")) {
                Some(h) => match text::stop_index(&v, &text::chars_of("/\" "), i) {
                    Some(e) => {
                        let host = text::text_of(&v, h, e);
                        Some(
                            text::join2(
                                "https://api.flightproxy.teams.microsoft.com/api/v2/ep/",
                                host.as_str(),
                            ),
                        )
                    },
                    None => None,
                },
                None => None,
            }
        },
        None => None,
    }
}

/// The first endpoint of a participant.
pub open spec fn first_endpoint(p: JsonV) -> Option<JsonV> {
    match json::get_of(p, "endpoints"@) {
        Some(JsonV::Arr(a)) => if a.len() > 0 {
            Some(a[0])
        } else {
            None
        },
        Some(e) => json::get_of(e, "0"@),
        None => None,
    }
}

/// The controller of a participant: of its first endpoint, else its own.
pub open spec fn participant_controller(p: JsonV) -> Option<Seq<char>> {
    let inner = match first_endpoint(p) {
        Some(e) => json::get_of(e, "conversationController"@),
        None => None,
    };
    json::str_of(
        match inner {
            Some(c) => Some(c),
            None => json::get_of(p, "conversationController"@),
        },
    )
}

/// The conversation id of the recorder bot, for a participant that is the bot.
pub open spec fn bot_conversation(p: JsonV) -> Option<Seq<char>> {
    if json::str_of(json::get_of(p, "id"@)) == Some(RECORDER_BOT_MRI@) {
        match participant_controller(p) {
            Some(c) => conversation_id(c),
            None => None,
        }
    } else {
        None
    }
}

/// The conversation id of the first recorder bot that has one.
pub open spec fn first_bot_conversation(participants: Seq<JsonV>, i: int) -> Option<Seq<char>>
    decreases participants.len() - i,
{
    if i < 0 || i >= participants.len() {
        None
    } else {
        match bot_conversation(participants[i]) {
            Some(c) => Some(c),
            None => first_bot_conversation(participants, i + 1),
        }
    }
}

/// The recorder among the participants of a payload.
pub open spec fn bot_recorder(v: JsonV) -> Option<(Seq<char>, Seq<char>)> {
    match json::arr_of(json::get_of(v, "participants"@)) {
        Some(a) => match first_bot_conversation(a, 0) {
            Some(c) => Some((RECORDER_SERVICE_BASE@, c)),
            None => None,
        },
        None => None,
    }
}

/// The recorder service and its conversation id in a payload with the given
/// text: as the text mentions them, else those of the bot's participant.
pub open spec fn recorder_in(v: JsonV, written: Seq<char>) -> Option<(Seq<char>, Seq<char>)> {
    match (recorder_base(written), recorder_conversation(written)) {
        (Some(b), Some(c)) => Some((b, c)),
        _ => bot_recorder(v),
    }
}

pub open spec fn opt_pair(o: Option<(String, String)>) -> Option<(Seq<char>, Seq<char>)> {
    match o {
        Some((a, b)) => Some((a@, b@)),
        None => None,
    }
}

fn read_controller(p: &Json) -> (r: Option<String>)
    ensures
        text::opt_text(r) == participant_controller(p@),
{
    let endpoint = match p.get("endpoints") {
        Some(Json::Arr(a)) => {
            proof {
                json::lemma_arr_view(*a);
            }
            if a.len() > 0 {
                Some(&a[0])
            } else {
                None
            }
        },
        Some(e) => e.get("0"),
        None => None,
    };
    let inner = match endpoint {
        Some(e) => e.get("conversationController"),
        None => None,
    };
    json::as_text(
        match inner {
            Some(c) => Some(c),
            None => p.get("conversationController"),
        },
    )
}

fn read_bot(p: &Json) -> (r: Option<String>)
    ensures
        text::opt_text(r) == bot_conversation(p@),
{
    match json::as_text(p.get("id")) {
        Some(id) => if text::same(id.as_str(), RECORDER_BOT_MRI) {
            match read_controller(p) {
                Some(c) => extract_conversation_id(c.as_str()),
                None => None,
            }
        } else {
            None
        },
        None => None,
    }
}

fn find_bot(v: &Json) -> (r: Option<(String, String)>)
    ensures
        opt_pair(r) == bot_recorder(v@),
{
    match v.get("participants") {
        Some(Json::Arr(a)) => {
            proof {
                json::lemma_arr_view(*a);
            }
            let ghost all = json::items_view(a@);
            let mut i: usize = 0;
            while i < a.len()
                invariant
                    i <= a@.len(),
                    all == json::items_view(a@),
                    json::arr_of(json::get_of(v@, "participants"@)) == Some(all),
                    first_bot_conversation(all, 0) == first_bot_conversation(all, i as int),
                decreases a@.len() - i,
            {
                if let Some(c) = read_bot(&a[i]) {
                    return Some((RECORDER_SERVICE_BASE.to_string(), c));
                }
                i = i + 1;
            }
            None
        },
        _ => None,
    }
}

/// Finds the recorder service and its conversation id in a payload with the
/// given text.
pub fn find_recorder(v: &Json, written: &str) -> (r: Option<(String, String)>)
    ensures
        opt_pair(r) == recorder_in(v@, written@),
{
    if let Some(b) = find_recorder_base(written) {
        if let Some(c) = extract_recorder_conv_id(written) {
            return Some((b, c));
        }
    }
    find_bot(v)
}

/// Extracts the recorder service and its conversation id from a payload.
pub fn extract_recorder_from_payload(payload: &serde_json::Value) -> (r: Option<(String, String)>)
    ensures
        opt_pair(r) == recorder_in(
            json::held_json(*payload),
            json::written_json(json::held_json(*payload)),
        ),
{
    let written = json::value_to_text(payload);
    find_recorder(&json::from_value(payload), written.as_str())
}

// -- The recording flow --

/// The URL to add the bot at: the one that was named, else a derived one.
pub fn choose_add_url(named: Option<&str>, conversation_controller: &str) -> (r: String)
    ensures
        r@ == match named {
            Some(u) => u@,
            None => signaling::url_with(conversation_controller@, "/addParticipant"@),
        },
{
    match named {
        Some(u) => u.to_string(),
        None => derive_add_participant_url_for_bot(conversation_controller),
    }
}

/// The conversation id to use until the recorder's own is known.
pub fn placeholder_conversation(conversation_controller: &str) -> (r: String)
    ensures
        r@ == match conversation_id(conversation_controller@) {
            Some(c) => c,
            None => "unknown"@,
        },
{
    match extract_conversation_id(conversation_controller) {
        Some(c) => c,
        None => "unknown".to_string(),
    }
}

/// How the recording flow goes on.
pub enum RecordingStep {
    /// Wait for the bot to announce the recorder.
    WaitForRecorder,
    /// Start transcription, then recording, at this service and conversation.
    Start(String, String),
    /// The recorder cannot be found.
    Failed,
}

/// The recorder in the text of a response.
pub open spec fn recorder_in_response(body: Seq<char>) -> Option<(Seq<char>, Seq<char>)> {
    match json::json_text(body) {
        Some(v) => recorder_in(v, json::written_json(v)),
        None => None,
    }
}

/// Takes the response to the request that added the bot.
pub fn start_call_recording(add_response: &str) -> (r: RecordingStep)
    ensures
        match recorder_in_response(add_response@) {
            Some((b, c)) => r matches RecordingStep::Start(x, y) && x@ == b && y@ == c,
            None => r is WaitForRecorder,
        },
{
    match json::value_from_text(add_response) {
        Some(v) => match extract_recorder_from_payload(&v) {
            Some((b, c)) => RecordingStep::Start(b, c),
            None => RecordingStep::WaitForRecorder,
        },
        None => RecordingStep::WaitForRecorder,
    }
}

/// Takes what waiting for the recorder has found.
pub fn after_wait(found: Option<(String, String)>) -> (r: RecordingStep)
    ensures
        match found {
            Some((b, c)) => r == RecordingStep::Start(b, c),
            None => r is Failed,
        },
{
    match found {
        Some((b, c)) => RecordingStep::Start(b, c),
        None => RecordingStep::Failed,
    }
}

/// The session of a recording that has started.
pub fn recording_session(p: &RecordingParams<'_>, base: String, conversation: String) -> (r:
    RecordingSession)
    ensures
        r.recorder_base == base,
        r.conversation_id == conversation,
        r.recorder_token@ == p.recorder_token@,
        r.skype_token@ == p.skype_token@,
        r.chain_id@ == p.chain_id@,
        r.caller_mri@ == p.caller_mri@,
        r.participant_id@ == p.participant_id@,
{
    RecordingSession {
        recorder_base: base,
        conversation_id: conversation,
        recorder_token: p.recorder_token.to_string(),
        skype_token: p.skype_token.to_string(),
        chain_id: p.chain_id.to_string(),
        caller_mri: p.caller_mri.to_string(),
        participant_id: p.participant_id.to_string(),
    }
}

/// What to do with a frame while the recorder is awaited.
pub enum RecorderStep {
    /// Send the heartbeat back and wait on.
    Heartbeat,
    /// Wait on.
    Skip,
    /// Acknowledge at the URL, where there is one; the recorder is found, or
    /// the wait goes on.
    Payload(Option<String>, Option<(String, String)>),
}

/// The URL at which an accepted call is acknowledged.
pub open spec fn acknowledgement_url(v: JsonV) -> Option<Seq<char>> {
    json::str_of(
        match json::get3_of(v, "callAcceptance"@, "links"@, "acknowledgement"@) {
            Some(u) => Some(u),
            None => json::get2_of(v, "links"@, "acknowledgement"@),
        },
    )
}

/// True of a payload's text that has to do with the recorder.
pub open spec fn mentions_recorder(written: Seq<char>) -> bool {
    ||| text::contains_text(written, RECORDER_BOT_MRI@)
    ||| text::contains_text(written, "callrecorder"@)
    ||| text::contains_text(written, "addParticipantSuccess"@)
}

/// The recorder in a payload that mentions it.
pub open spec fn awaited_recorder(v: JsonV, written: Seq<char>) -> Option<(Seq<char>, Seq<char>)> {
    if mentions_recorder(written) {
        recorder_in(v, written)
    } else {
        None
    }
}

/// True of a frame that is passed over unread.
pub open spec fn is_passed_over(frame: Seq<char>) -> bool {
    "5:"@.is_prefix_of(frame) && !text::contains_text(frame, "callAgent"@)
}

/// Reads what a payload with the given text says to a flow that awaits the
/// recorder.
pub fn read_recorder_payload(v: &Json, written: &str) -> (r: (
    Option<String>,
    Option<(String, String)>,
))
    ensures
        text::opt_text(r.0) == acknowledgement_url(v@),
        opt_pair(r.1) == awaited_recorder(v@, written@),
{
    let ack = json::as_text(
        match v.get3("callAcceptance", "links", "acknowledgement") {
            Some(u) => Some(u),
            None => v.get2("links", "acknowledgement"),
        },
    );
    let found = if text::contains(written, RECORDER_BOT_MRI) || text::contains(
        written,
        "callrecorder",
    ) || text::contains(written, "addParticipantSuccess") {
        find_recorder(v, written)
    } else {
        None
    };
    (ack, found)
}

/// Takes a frame while the recorder is awaited.
pub fn wait_for_recorder_info(frame: &str) -> (r: RecorderStep)
    ensures
        if call_test::is_heartbeat(frame@) {
            r is Heartbeat
        } else if is_passed_over(frame@) {
            r is Skip
        } else {
            match call_test::call_payload(frame@) {
                Some(v) => r matches RecorderStep::Payload(ack, found) && text::opt_text(ack)
                    == acknowledgement_url(v) && opt_pair(found) == awaited_recorder(
                    v,
                    json::written_json(v),
                ),
                None => r is Skip,
            }
        },
{
    if text::starts_with(frame, "2::") {
        return RecorderStep::Heartbeat;
    }
    if text::starts_with(frame, "5:") && !text::contains(frame, "callAgent") {
        return RecorderStep::Skip;
    }
    match call_test::extract_call_payload(frame) {
        Some(v) => {
            let written = json::value_to_text(&v);
            let (ack, found) = read_recorder_payload(&json::from_value(&v), written.as_str());
            RecorderStep::Payload(ack, found)
        },
        None => RecorderStep::Skip,
    }
}

// -- What the commands say --

/// The command that ends a recording says stop, names who recorded and when, and the two
/// modes that end.
pub proof fn law_recording_ends_with_stop(s: RecordingSession, timestamp: Seq<char>)
    ensures
        ({
            let b = stop_recording_command_v(s, timestamp);
            &&& json::str_of(json::get_of(b, "action"@)) == Some("stop"@)
            &&& json::str_of(json::get_of(b, "timestamp"@)) == Some(timestamp)
            &&& json::str_of(json::get_of(b, "participantMri"@)) == Some(s.caller_mri@)
            &&& json::str_of(json::get_of(b, "participantLegId"@)) == Some(s.participant_id@)
            &&& json::arr_of(json::get_of(b, "processingModes"@)) == Some(
                Seq::empty().push(JsonV::Str("recording"@)).push(JsonV::Str("realTimeTranscript"@)),
            )
            &&& json::str_of(json::get_of(b, "participantSkypeToken"@)) == Some(""@)
            &&& json::get_of(b, "mode"@) is None
            &&& "stop"@ != "start"@
        }),
{
    broadcast use json::group_members;

    assert("timestamp"@.len() == 9) by {
        reveal_strlit("timestamp");
    }
    assert("participantMri"@.len() == 14) by {
        reveal_strlit("participantMri");
    }
    assert("participantLegId"@.len() == 16) by {
        reveal_strlit("participantLegId");
    }
    assert("action"@.len() == 6) by {
        reveal_strlit("action");
    }
    assert("processingModes"@.len() == 15) by {
        reveal_strlit("processingModes");
    }
    assert("participantSkypeToken"@.len() == 21) by {
        reveal_strlit("participantSkypeToken");
    }
    assert("mode"@.len() == 4) by {
        reveal_strlit("mode");
    }
    assert("stop"@.len() == 4 && "start"@.len() == 5) by {
        reveal_strlit("stop");
        reveal_strlit("start");
    }
}

/// The command that ends a transcription says stop, names who asked and when, and captions
/// as what ends.
pub proof fn law_transcription_ends_with_stop(s: RecordingSession, timestamp: Seq<char>)
    ensures
        ({
            let b = stop_transcription_command_v(s, timestamp);
            &&& json::str_of(json::get_of(b, "action"@)) == Some("stop"@)
            &&& json::str_of(json::get_of(b, "timestamp"@)) == Some(timestamp)
            &&& json::str_of(json::get_of(b, "participantMri"@)) == Some(s.caller_mri@)
            &&& json::str_of(json::get_of(b, "participantLegId"@)) == Some(s.participant_id@)
            &&& json::str_of(json::get_of(b, "mode"@)) == Some("transcription"@)
            &&& json::arr_of(json::get_of(b, "processingModes"@)) == Some(
                Seq::empty().push(JsonV::Str("closedCaptions"@)),
            )
            &&& json::str_of(json::get_of(b, "participantSkypeToken"@)) == Some(""@)
        }),
{
    broadcast use json::group_members;

    assert("timestamp"@.len() == 9) by {
        reveal_strlit("timestamp");
    }
    assert("participantMri"@.len() == 14) by {
        reveal_strlit("participantMri");
    }
    assert("participantLegId"@.len() == 16) by {
        reveal_strlit("participantLegId");
    }
    assert("action"@.len() == 6) by {
        reveal_strlit("action");
    }
    assert("mode"@.len() == 4) by {
        reveal_strlit("mode");
    }
    assert("processingModes"@.len() == 15) by {
        reveal_strlit("processingModes");
    }
    assert("participantSkypeToken"@.len() == 21) by {
        reveal_strlit("participantSkypeToken");
    }
}

/// The command that begins a transcription says start, names who asked and when, and
/// captions as what begins.
pub proof fn law_transcription_begins_with_start(p: RecordingParams<'_>, timestamp: Seq<char>)
    ensures
        ({
            let b = transcription_command_v(p, timestamp);
            &&& json::str_of(json::get_of(b, "action"@)) == Some("start"@)
            &&& json::str_of(json::get_of(b, "timestamp"@)) == Some(timestamp)
            &&& json::str_of(json::get_of(b, "participantMri"@)) == Some(p.caller_mri@)
            &&& json::str_of(json::get_of(b, "participantLegId"@)) == Some(p.participant_id@)
            &&& json::str_of(json::get_of(b, "mode"@)) == Some("transcription"@)
            &&& json::arr_of(json::get_of(b, "processingModes"@)) == Some(
                Seq::empty().push(JsonV::Str("closedCaptions"@)),
            )
            &&& json::str_of(json::get_of(b, "participantSkypeToken"@)) == Some(""@)
        }),
{
    broadcast use json::group_members;

    assert("timestamp"@.len() == 9) by {
        reveal_strlit("timestamp");
    }
    assert("participantMri"@.len() == 14) by {
        reveal_strlit("participantMri");
    }
    assert("participantLegId"@.len() == 16) by {
        reveal_strlit("participantLegId");
    }
    assert("action"@.len() == 6) by {
        reveal_strlit("action");
    }
    assert("mode"@.len() == 4) by {
        reveal_strlit("mode");
    }
    assert("processingModes"@.len() == 15) by {
        reveal_strlit("processingModes");
    }
    assert("participantSkypeToken"@.len() == 21) by {
        reveal_strlit("participantSkypeToken");
    }
}

/// The command that begins a recording says start, names who records and when, the two
/// modes that begin, and where the file goes: under the recordings of the user's own
/// drive, by a name with the date.
pub proof fn law_recording_begins_with_start(p: RecordingParams<'_>, timestamp: Seq<char>,
    date: Seq<char>, correlation_id: Seq<char>)
    ensures
        ({
            let b = recording_command_v(p, timestamp, date, correlation_id);
            &&& json::str_of(json::get_of(b, "action"@)) == Some("start"@)
            &&& json::str_of(json::get_of(b, "timestamp"@)) == Some(timestamp)
            &&& json::str_of(json::get_of(b, "participantMri"@)) == Some(p.caller_mri@)
            &&& json::str_of(json::get_of(b, "participantLegId"@)) == Some(p.participant_id@)
            &&& json::get_of(b, "mode"@) is None
            &&& json::arr_of(json::get_of(b, "processingModes"@)) == Some(
                Seq::empty().push(JsonV::Str("recording"@)).push(JsonV::Str("realTimeTranscript"@)),
            )
            &&& json::str_of(json::get_of(b, "participantSkypeToken"@)) == Some(""@)
            &&& json::str_of(json::get2_of(b, "actionParameters"@, "correlationId"@))
                == Some(correlation_id)
            &&& json::str_of(json::get2_of(b, "actionParameters"@, "type"@)) == Some("start"@)
            &&& json::str_of(json::get2_of(b, "actionParameters"@, "spokenLanguage"@))
                == Some("en-us"@)
            &&& json::str_of(json::get2_of(b, "actionParameters"@, "meetingTitle"@))
                == Some("Meeting in \"av-test\""@)
            &&& json::arr_of(json::get2_of(b, "actionParameters"@, "recordingStorageSettings"@))
                matches Some(a)
                && a.len() == 1 && json::str_of(json::get_of(a[0], "StorageType"@)) == Some(
                "OnedriveForBusiness"@,
            ) && json::str_of(json::get_of(a[0], "StorageLocation"@)) == Some("Recordings"@)
                && json::str_of(json::get_of(a[0], "FileName"@)) == Some(
                "Meeting in \"av-test\"-"@ + date + "-Meeting Recording"@,
            ) && json::get_of(a[0], "GroupId"@) == Some(JsonV::Null)
            &&& json::get2_of(b, "actionParameters"@, "recordingFeatures"@)
                == Some(feature_fields().text("recordingMode"@, "Normal"@).obj())
        }),
{
    broadcast use json::group_members;

    assert("timestamp"@.len() == 9) by {
        reveal_strlit("timestamp");
    }
    assert("participantMri"@.len() == 14 && "participantMri"@[0] == 'p') by {
        reveal_strlit("participantMri");
    }
    assert("participantLegId"@.len() == 16 && "participantLegId"@[0] == 'p') by {
        reveal_strlit("participantLegId");
    }
    assert("action"@.len() == 6) by {
        reveal_strlit("action");
    }
    assert("processingModes"@.len() == 15 && "processingModes"@[0] == 'p') by {
        reveal_strlit("processingModes");
    }
    assert("actionParameters"@.len() == 16 && "actionParameters"@[0] == 'a') by {
        reveal_strlit("actionParameters");
    }
    assert("recordingFeatures"@.len() == 17) by {
        reveal_strlit("recordingFeatures");
    }
    assert("recordingMode"@.len() == 13 && "recordingMode"@[0] == 'r') by {
        reveal_strlit("recordingMode");
    }
    assert("recordingStorageSettings"@.len() == 24) by {
        reveal_strlit("recordingStorageSettings");
    }
    assert("StorageType"@.len() == 11) by {
        reveal_strlit("StorageType");
    }
    assert("StorageLocation"@.len() == 15 && "StorageLocation"@[0] == 'S') by {
        reveal_strlit("StorageLocation");
    }
    assert("FileName"@.len() == 8) by {
        reveal_strlit("FileName");
    }
    assert("GroupId"@.len() == 7) by {
        reveal_strlit("GroupId");
    }
    assert("correlationId"@.len() == 13 && "correlationId"@[0] == 'c') by {
        reveal_strlit("correlationId");
    }
    assert("meetingTitle"@.len() == 12) by {
        reveal_strlit("meetingTitle");
    }
    assert("spokenLanguage"@.len() == 14 && "spokenLanguage"@[0] == 's') by {
        reveal_strlit("spokenLanguage");
    }
    assert("type"@.len() == 4 && "type"@[0] == 't') by {
        reveal_strlit("type");
    }
    assert("participantSkypeToken"@.len() == 21) by {
        reveal_strlit("participantSkypeToken");
    }
    assert("mode"@.len() == 4 && "mode"@[0] == 'm') by {
        reveal_strlit("mode");
    }
}

/// What a recorder is asked for: slides, the language model of the meeting and unmixed
/// audio; no live captions, action items, summit mode or chapters.
pub proof fn law_recorder_features()
    ensures
        ({
            let b = feature_fields().obj();
            &&& json::get_of(b, "enablePPTSharing"@) == Some(JsonV::Bool(true))
            &&& json::get_of(b, "enableEmailAndMeetingLanguageModel"@) == Some(JsonV::Bool(true))
            &&& json::get_of(b, "useUnmixedAudio"@) == Some(JsonV::Bool(true))
            &&& json::get_of(b, "intermediateLiveCaptions"@) == Some(JsonV::Bool(false))
            &&& json::get_of(b, "actionItemsEnabled"@) == Some(JsonV::Bool(false))
            &&& json::get_of(b, "ceoSummit"@) == Some(JsonV::Bool(false))
            &&& json::get_of(b, "enableTranscriptMeetingChaptering"@) == Some(JsonV::Bool(false))
        }),
{
    broadcast use json::group_members;

    assert("enablePPTSharing"@.len() == 16) by {
        reveal_strlit("enablePPTSharing");
    }
    assert("intermediateLiveCaptions"@.len() == 24) by {
        reveal_strlit("intermediateLiveCaptions");
    }
    assert("actionItemsEnabled"@.len() == 18) by {
        reveal_strlit("actionItemsEnabled");
    }
    assert("enableEmailAndMeetingLanguageModel"@.len() == 34) by {
        reveal_strlit("enableEmailAndMeetingLanguageModel");
    }
    assert("ceoSummit"@.len() == 9) by {
        reveal_strlit("ceoSummit");
    }
    assert("useUnmixedAudio"@.len() == 15) by {
        reveal_strlit("useUnmixedAudio");
    }
    assert("enableTranscriptMeetingChaptering"@.len() == 33) by {
        reveal_strlit("enableTranscriptMeetingChaptering");
    }
}

/// The recorder is invited by the caller, to the call's own chain and thread, with the
/// token of the user who records.
pub proof fn law_recorder_bot_is_invited_by_the_caller(p: RecordingParams<'_>,
    bot_participant_id: Seq<char>)
    ensures
        ({
            let b = add_recorder_bot_v(p, bot_participant_id);
            &&& json::str_of(json::get3_of(b, "participants"@, "from"@, "id"@))
                == Some(p.caller_mri@)
            &&& json::str_of(json::get3_of(b, "participants"@, "from"@, "displayName"@))
                == Some(p.display_name@)
            &&& json::str_of(json::get3_of(b, "participants"@, "from"@, "endpointId"@))
                == Some(p.endpoint_id@)
            &&& json::str_of(json::get3_of(b, "participants"@, "from"@, "participantId"@))
                == Some(p.participant_id@)
            &&& json::str_of(json::get3_of(b, "participants"@, "from"@, "languageId"@))
                == Some("en-US"@)
            &&& json::arr_of(json::get2_of(b, "participants"@, "to"@)) matches Some(a)
                && a.len() == 1
                && json::str_of(json::get_of(a[0], "id"@)) == Some(
                "28:bdd75849-e0a6-4cce-8fc1-d7c0d4da43e5"@,
            ) && json::str_of(json::get_of(a[0], "participantId"@)) == Some(bot_participant_id)
            &&& json::get_of(b, "disableUnmute"@) == Some(JsonV::Bool(false))
            &&& json::get2_of(b, "participantInvitationData"@, "botData"@) matches Some(d)
                && json::str_of(json::get_of(d, "callId"@)) == Some(p.chain_id@)
                && json::str_of(json::get_of(d, "threadId"@)) == Some(p.thread_id@)
                && json::str_of(json::get_of(d, "mode"@)) == Some("RecordingAndTranscription"@)
                && json::str_of(json::get_of(d, "initiatorUserToken"@)) == Some(p.recorder_token@)
                && json::str_of(json::get_of(d, "meetingOrganizer"@)) == Some(p.display_name@)
                && json::str_of(json::get_of(d, "meetingTitle"@)) == Some(""@)
                && json::str_of(json::get_of(d, "clientInfo"@)) == Some("Teams-R4"@)
                && json::str_of(json::get_of(d, "consumerType"@)) == Some("Teams"@)
                && json::str_of(json::get_of(d, "spokenLanguage"@)) == Some("en-us"@)
                && json::get_of(d, "iCalUid"@) == Some(JsonV::Null)
                && json::get_of(d, "exchangeId"@) == Some(JsonV::Null)
                && json::get_of(d, "recorderFeatures"@) == Some(feature_fields().obj())
            &&& json::str_of(json::get2_of(b, "links"@, "addParticipantSuccess"@))
                == Some(signaling::callback_url(p.trouter_surl@, p.endpoint_id@,
                "conversation/addParticipantSuccess/"@))
            &&& json::str_of(json::get2_of(b, "links"@, "addParticipantFailure"@))
                == Some(signaling::callback_url(p.trouter_surl@, p.endpoint_id@,
                "conversation/addParticipantFailure/"@))
            &&& json::get_of(b, "replacementDetails"@) == Some(JsonV::Null)
            &&& json::get_of(b, "debugContent"@) == Some(FieldsV::new().obj())
        }),
{
    broadcast use json::group_members;

    assert("disableUnmute"@.len() == 13 && "disableUnmute"@[0] == 'd') by {
        reveal_strlit("disableUnmute");
    }
    assert("participants"@.len() == 12 && "participants"@[0] == 'p') by {
        reveal_strlit("participants");
    }
    assert("from"@.len() == 4 && "from"@[0] == 'f') by {
        reveal_strlit("from");
    }
    assert("id"@.len() == 2 && "id"@[0] == 'i') by {
        reveal_strlit("id");
    }
    assert("displayName"@.len() == 11) by {
        reveal_strlit("displayName");
    }
    assert("endpointId"@.len() == 10 && "endpointId"@[0] == 'e' && "endpointId"@[1] == 'n') by {
        reveal_strlit("endpointId");
    }
    assert("participantId"@.len() == 13 && "participantId"@[0] == 'p') by {
        reveal_strlit("participantId");
    }
    assert("languageId"@.len() == 10 && "languageId"@[0] == 'l') by {
        reveal_strlit("languageId");
    }
    assert("to"@.len() == 2 && "to"@[0] == 't') by {
        reveal_strlit("to");
    }
    assert("participantInvitationData"@.len() == 25) by {
        reveal_strlit("participantInvitationData");
    }
    assert("botData"@.len() == 7 && "botData"@[0] == 'b') by {
        reveal_strlit("botData");
    }
    assert("meetingTitle"@.len() == 12 && "meetingTitle"@[0] == 'm') by {
        reveal_strlit("meetingTitle");
    }
    assert("clientInfo"@.len() == 10 && "clientInfo"@[0] == 'c') by {
        reveal_strlit("clientInfo");
    }
    assert("callId"@.len() == 6) by {
        reveal_strlit("callId");
    }
    assert("threadId"@.len() == 8) by {
        reveal_strlit("threadId");
    }
    assert("recorderFeatures"@.len() == 16 && "recorderFeatures"@[0] == 'r') by {
        reveal_strlit("recorderFeatures");
    }
    assert("mode"@.len() == 4 && "mode"@[0] == 'm') by {
        reveal_strlit("mode");
    }
    assert("iCalUid"@.len() == 7 && "iCalUid"@[0] == 'i') by {
        reveal_strlit("iCalUid");
    }
    assert("consumerType"@.len() == 12 && "consumerType"@[0] == 'c') by {
        reveal_strlit("consumerType");
    }
    assert("spokenLanguage"@.len() == 14) by {
        reveal_strlit("spokenLanguage");
    }
    assert("initiatorUserToken"@.len() == 18 && "initiatorUserToken"@[0] == 'i') by {
        reveal_strlit("initiatorUserToken");
    }
    assert("exchangeId"@.len() == 10 && "exchangeId"@[0] == 'e' && "exchangeId"@[1] == 'x') by {
        reveal_strlit("exchangeId");
    }
    assert("meetingOrganizer"@.len() == 16 && "meetingOrganizer"@[0] == 'm') by {
        reveal_strlit("meetingOrganizer");
    }
    assert("replacementDetails"@.len() == 18 && "replacementDetails"@[0] == 'r') by {
        reveal_strlit("replacementDetails");
    }
    assert("links"@.len() == 5) by {
        reveal_strlit("links");
    }
    assert("addParticipantSuccess"@.len() == 21 && "addParticipantSuccess"@[14] == 'S') by {
        reveal_strlit("addParticipantSuccess");
    }
    assert("addParticipantFailure"@.len() == 21 && "addParticipantFailure"@[14] == 'F') by {
        reveal_strlit("addParticipantFailure");
    }
    assert("debugContent"@.len() == 12 && "debugContent"@[0] == 'd') by {
        reveal_strlit("debugContent");
    }
}

/// The recorder is asked for with the calling token and on the call's own chain.
pub proof fn law_bot_headers(p: RecordingParams<'_>, message_id: Seq<char>)
    ensures
        ({
            let h = bot_headers_of(p, message_id);
            &&& text::paired(h, "Authorization"@) == Some("Bearer "@ + p.ic3_token@)
            &&& text::paired(h, "Content-Type"@) == Some("application/json"@)
            &&& text::paired(h, "x-microsoft-skype-chain-id"@) == Some(p.chain_id@)
            &&& text::paired(h, "x-microsoft-skype-message-id"@) == Some(message_id)
            &&& text::paired(h, "x-microsoft-skype-client"@)
                == Some("SkypeSpaces/1415/teams-cli/TsCallingVersion=2025.49.01.15"@)
            &&& text::paired(h, "ms-teams-partition"@) == Some("amer03"@)
            &&& text::paired(h, "ms-teams-region"@) == Some("amer"@)
            &&& text::paired(h, "ms-teams-ring"@) == Some("general"@)
            &&& text::paired(h, "x-ms-migration"@) == Some("True"@)
        }),
{
    broadcast use text::group_pairs;

    assert("Authorization"@.len() == 13 && "Authorization"@[0] == 'A') by {
        reveal_strlit("Authorization");
    }
    assert("Content-Type"@.len() == 12) by {
        reveal_strlit("Content-Type");
    }
    assert("x-microsoft-skype-chain-id"@.len() == 26) by {
        reveal_strlit("x-microsoft-skype-chain-id");
    }
    assert("x-microsoft-skype-message-id"@.len() == 28) by {
        reveal_strlit("x-microsoft-skype-message-id");
    }
    assert("x-microsoft-skype-client"@.len() == 24) by {
        reveal_strlit("x-microsoft-skype-client");
    }
    assert("ms-teams-partition"@.len() == 18) by {
        reveal_strlit("ms-teams-partition");
    }
    assert("ms-teams-region"@.len() == 15) by {
        reveal_strlit("ms-teams-region");
    }
    assert("ms-teams-ring"@.len() == 13 && "ms-teams-ring"@[0] == 'm') by {
        reveal_strlit("ms-teams-ring");
    }
    assert("x-ms-migration"@.len() == 14) by {
        reveal_strlit("x-ms-migration");
    }
}

/// A command carries the recorder's token and the token of the user, each under its own
/// name.
pub proof fn law_command_headers(recorder_token: Seq<char>, skype_token: Seq<char>,
    chain_id: Seq<char>)
    ensures
        ({
            let h = command_headers_of(recorder_token, skype_token, chain_id);
            &&& text::paired(h, "Authorization"@) == Some("Bearer "@ + recorder_token)
            &&& text::paired(h, "x-skypetoken"@) == Some(skype_token)
            &&& text::paired(h, "Content-Type"@) == Some("application/json"@)
            &&& text::paired(h, "x-microsoft-skype-chain-id"@) == Some(chain_id)
        }),
{
    broadcast use text::group_pairs;

    assert("Authorization"@.len() == 13) by {
        reveal_strlit("Authorization");
    }
    assert("x-skypetoken"@.len() == 12 && "x-skypetoken"@[0] == 'x') by {
        reveal_strlit("x-skypetoken");
    }
    assert("Content-Type"@.len() == 12 && "Content-Type"@[0] == 'C') by {
        reveal_strlit("Content-Type");
    }
    assert("x-microsoft-skype-chain-id"@.len() == 26) by {
        reveal_strlit("x-microsoft-skype-chain-id");
    }
}

// -- Where a recorder is found --

/// The text of a conversation id has its bytes in the order of its groups: the first three
/// groups from their last byte to their first, the others as they stand.
pub proof fn law_groups_of_an_id(b: Seq<u8>)
    requires
        b.len() == 16,
    ensures
        ({
            let g = guid_text(b);
            &&& g.len() == 36
            &&& g.subrange(0, 2) == text::hex2(b[3]) && g.subrange(2, 4) == text::hex2(b[2])
            &&& g.subrange(4, 6) == text::hex2(b[1]) && g.subrange(6, 8) == text::hex2(b[0])
            &&& g[8] == '-' && g[13] == '-' && g[18] == '-' && g[23] == '-'
            &&& g.subrange(9, 11) == text::hex2(b[5]) && g.subrange(11, 13) == text::hex2(b[4])
            &&& g.subrange(14, 16) == text::hex2(b[7]) && g.subrange(16, 18) == text::hex2(b[6])
            &&& g.subrange(19, 21) == text::hex2(b[8]) && g.subrange(21, 23) == text::hex2(b[9])
            &&& g.subrange(24, 26) == text::hex2(b[10]) && g.subrange(26, 28) == text::hex2(b[11])
            &&& g.subrange(28, 30) == text::hex2(b[12]) && g.subrange(30, 32) == text::hex2(b[13])
            &&& g.subrange(32, 34) == text::hex2(b[14]) && g.subrange(34, 36) == text::hex2(b[15])
        }),
        guid_of(Some(b)) == Some(guid_text(b)),
        guid_of(Some(b.drop_last())) is None,
        guid_of(None) is None,
{
    assert("-"@.len() == 1 && "-"@[0] == '-') by {
        reveal_strlit("-");
    }
    let first = text::hex2(b[3]) + text::hex2(b[2]) + text::hex2(b[1]) + text::hex2(b[0]) + "-"@;
    let second = text::hex2(b[5]) + text::hex2(b[4]) + "-"@ + text::hex2(b[7]) + text::hex2(b[6])
        + "-"@;
    let third = text::hex2(b[8]) + text::hex2(b[9]) + "-"@;
    let last = text::hex2(b[10]) + text::hex2(b[11]) + text::hex2(b[12]) + text::hex2(b[13])
        + text::hex2(b[14]) + text::hex2(b[15]);
    let g = guid_text(b);
    assert(g =~= first + second + third + last);
    lemma_first_group(b, first);
    lemma_second_group(b, second);
    lemma_last_group(b, last);
    assert(g.subrange(0, 9) =~= first);
    assert(g.subrange(9, 19) =~= second);
    assert(g.subrange(19, 24) =~= third);
    assert(g.subrange(24, 36) =~= last);
    assert(g.subrange(0, 2) =~= g.subrange(0, 9).subrange(0, 2));
    assert(g.subrange(2, 4) =~= g.subrange(0, 9).subrange(2, 4));
    assert(g.subrange(4, 6) =~= g.subrange(0, 9).subrange(4, 6));
    assert(g.subrange(6, 8) =~= g.subrange(0, 9).subrange(6, 8));
    assert(g[8] == g.subrange(0, 9)[8]);
    assert(g.subrange(9, 11) =~= g.subrange(9, 19).subrange(0, 2));
    assert(g.subrange(11, 13) =~= g.subrange(9, 19).subrange(2, 4));
    assert(g[13] == g.subrange(9, 19)[4]);
    assert(g.subrange(14, 16) =~= g.subrange(9, 19).subrange(5, 7));
    assert(g.subrange(16, 18) =~= g.subrange(9, 19).subrange(7, 9));
    assert(g[18] == g.subrange(9, 19)[9]);
    assert(third.subrange(0, 2) =~= text::hex2(b[8]));
    assert(third.subrange(2, 4) =~= text::hex2(b[9]));
    assert(g.subrange(19, 21) =~= g.subrange(19, 24).subrange(0, 2));
    assert(g.subrange(21, 23) =~= g.subrange(19, 24).subrange(2, 4));
    assert(g[23] == g.subrange(19, 24)[4]);
    assert(g.subrange(24, 26) =~= g.subrange(24, 36).subrange(0, 2));
    assert(g.subrange(26, 28) =~= g.subrange(24, 36).subrange(2, 4));
    assert(g.subrange(28, 30) =~= g.subrange(24, 36).subrange(4, 6));
    assert(g.subrange(30, 32) =~= g.subrange(24, 36).subrange(6, 8));
    assert(g.subrange(32, 34) =~= g.subrange(24, 36).subrange(8, 10));
    assert(g.subrange(34, 36) =~= g.subrange(24, 36).subrange(10, 12));
}

proof fn lemma_first_group(b: Seq<u8>, first: Seq<char>)
    requires
        first == text::hex2(b[3]) + text::hex2(b[2]) + text::hex2(b[1]) + text::hex2(b[0]) + "-"@,
        "-"@.len() == 1,
    ensures
        first.len() == 9,
        first.subrange(0, 2) == text::hex2(b[3]),
        first.subrange(2, 4) == text::hex2(b[2]),
        first.subrange(4, 6) == text::hex2(b[1]),
        first.subrange(6, 8) == text::hex2(b[0]),
        first[8] == "-"@[0],
{
    assert(first.subrange(0, 2) =~= text::hex2(b[3]));
    assert(first.subrange(2, 4) =~= text::hex2(b[2]));
    assert(first.subrange(4, 6) =~= text::hex2(b[1]));
    assert(first.subrange(6, 8) =~= text::hex2(b[0]));
}

proof fn lemma_second_group(b: Seq<u8>, second: Seq<char>)
    requires
        second == text::hex2(b[5]) + text::hex2(b[4]) + "-"@ + text::hex2(b[7]) + text::hex2(b[6])
            + "-"@,
        "-"@.len() == 1,
    ensures
        second.len() == 10,
        second.subrange(0, 2) == text::hex2(b[5]),
        second.subrange(2, 4) == text::hex2(b[4]),
        second[4] == "-"@[0],
        second.subrange(5, 7) == text::hex2(b[7]),
        second.subrange(7, 9) == text::hex2(b[6]),
        second[9] == "-"@[0],
{
    assert(second.subrange(0, 2) =~= text::hex2(b[5]));
    assert(second.subrange(2, 4) =~= text::hex2(b[4]));
    assert(second.subrange(5, 7) =~= text::hex2(b[7]));
    assert(second.subrange(7, 9) =~= text::hex2(b[6]));
}

proof fn lemma_last_group(b: Seq<u8>, last: Seq<char>)
    requires
        last == text::hex2(b[10]) + text::hex2(b[11]) + text::hex2(b[12]) + text::hex2(b[13])
            + text::hex2(b[14]) + text::hex2(b[15]),
    ensures
        last.len() == 12,
        last.subrange(0, 2) == text::hex2(b[10]),
        last.subrange(2, 4) == text::hex2(b[11]),
        last.subrange(4, 6) == text::hex2(b[12]),
        last.subrange(6, 8) == text::hex2(b[13]),
        last.subrange(8, 10) == text::hex2(b[14]),
        last.subrange(10, 12) == text::hex2(b[15]),
{
    assert(last.subrange(0, 2) =~= text::hex2(b[10]));
    assert(last.subrange(2, 4) =~= text::hex2(b[11]));
    assert(last.subrange(4, 6) =~= text::hex2(b[12]));
    assert(last.subrange(6, 8) =~= text::hex2(b[13]));
    assert(last.subrange(8, 10) =~= text::hex2(b[14]));
    assert(last.subrange(10, 12) =~= text::hex2(b[15]));
}

// What stands before the first stop behind a mark.
proof fn lemma_up_to_stop(id: Seq<char>, tail: Seq<char>, stops: Seq<char>)
    requires
        forall|i: int| 0 <= i < id.len() ==> !stops.contains(#[trigger] id[i]),
        tail.len() > 0 ==> stops.contains(tail[0]),
    ensures
        text::before_any(id + tail, stops) == id,
{
    let rest = id + tail;
    text::law_before_any_holds_none(rest, stops);
    let b = text::before_any(rest, stops);
    assert(b == rest.subrange(0, b.len() as int));
    if b.len() < id.len() {
        assert(rest[b.len() as int] == id[b.len() as int]);
    }
    if b.len() > id.len() {
        assert(b[id.len() as int] == tail[0]);
    }
    assert(b =~= id);
}

/// The conversation stands in its address behind its mark, up to the next slash or the
/// query; where it encodes sixteen bytes it is the id that they spell.
pub proof fn law_conversation_stands_behind_its_mark(
    head: Seq<char>,
    id: Seq<char>,
    tail: Seq<char>,
)
    requires
        text::find_in(head + "/conv/"@ + id + tail, "/conv/"@) == Some(head.len() as int),
        id.len() > 0,
        !id.contains('/'),
        !id.contains('?'),
        tail.len() > 0 ==> tail[0] == '/' || tail[0] == '?',
    ensures
        ({
            let url = head + "/conv/"@ + id + tail;
            &&& guid_of(encoding::base64url_bytes(id)) is None ==> conversation_id(url) == Some(id)
            &&& encoding::base64url_bytes(id) matches Some(b)
                ==> (b.len() == 16 ==> conversation_id(
                url,
            ) == Some(guid_text(b)))
        }),
{
    let url = head + "/conv/"@ + id + tail;
    assert("/conv/"@.len() == 6) by {
        reveal_strlit("/conv/");
    }
    let stops = "/?"@;
    assert(stops.len() == 2 && stops[0] == '/' && stops[1] == '?') by {
        reveal_strlit("/?");
    }
    assert(stops.contains(stops[0]) && stops.contains(stops[1]));
    assert forall|i: int| 0 <= i < id.len() implies !stops.contains(#[trigger] id[i]) by {
        assert(id.contains(id[i]));
    }
    assert(url.skip(head.len() as int + 6) =~= id + tail);
    lemma_up_to_stop(id, tail, stops);
}

/// A command is found behind its mark, up to the end of its text or of its path.
pub proof fn law_command_stands_behind_its_mark(head: Seq<char>, id: Seq<char>, tail: Seq<char>)
    requires
        text::find_in(head + "/v2/oncommand/"@ + id + tail, "/v2/oncommand/"@) == Some(
            head.len() as int,
        ),
        id.len() > 0,
        !id.contains('/') && !id.contains('?') && !id.contains('"') && !id.contains(' '),
        tail.len() > 0 ==> tail[0] == '/' || tail[0] == '?' || tail[0] == '"' || tail[0] == ' ',
    ensures
        recorder_conversation(head + "/v2/oncommand/"@ + id + tail) == Some(id),
{
    let s = head + "/v2/oncommand/"@ + id + tail;
    assert("/v2/oncommand/"@.len() == 14) by {
        reveal_strlit("/v2/oncommand/");
    }
    let stops = "\"/? "@;
    assert(stops.len() == 4 && stops[0] == '"' && stops[1] == '/' && stops[2] == '?' && stops[3]
        == ' ') by {
        reveal_strlit("\"/? ");
    }
    assert(stops.contains(stops[0]) && stops.contains(stops[1]) && stops.contains(stops[2])
        && stops.contains(stops[3]));
    assert forall|i: int| 0 <= i < id.len() implies !stops.contains(#[trigger] id[i]) by {
        assert(id.contains(id[i]));
    }
    assert(s.skip(head.len() as int + 14) =~= id + tail);
    lemma_up_to_stop(id, tail, stops);
}

/// Without a command, the conversation is an id near the recorder's name, where there is
/// one.
pub proof fn law_id_near_the_recorder(payload: Seq<char>)
    requires
        !text::contains_text(payload, "/v2/oncommand/"@),
    ensures
        recorder_conversation(payload) == uuid_near_recorder(payload),
        recorder_window(encode_utf8(payload)) is None ==> recorder_conversation(payload) is None,
{
    text::lemma_contains_find(payload, "/v2/oncommand/"@);
}

/// An id of this form is thirty-six characters of hexadecimal digits in five groups; the
/// one that is found is one of that form, and stands in the window.
pub proof fn law_found_id_is_one(w: Seq<u8>, k: int)
    requires
        0 <= k,
    ensures
        uuid_from(w, k) matches Some(i) ==> 0 <= i && i + 36 <= w.len() && is_uuid(
            w.subrange(i, i + 36),
        ) && k <= i + 8,
        forall|u: Seq<u8>| #[trigger]
            is_uuid(u) ==> u.len() == 36 && u[8] == 45 && u[13] == 45 && u[18] == 45 && u[23] == 45,
    decreases w.len() - k,
{
    if k < w.len() && !(w[k] == 45u8 && k >= 8 && k + 28 <= w.len() && is_uuid(
        w.subrange(k - 8, k + 28),
    )) {
        law_found_id_is_one(w, k + 1);
    }
}

/// What is found near the recorder's name lies at most two hundred bytes before it and four
/// hundred from its beginning on.
pub proof fn law_window_lies_round_the_name(data: Seq<u8>, c: int)
    requires
        text::find_in(data, encode_utf8("callrecorder"@)) == Some(c),
        0 <= c <= data.len(),
    ensures
        recorder_window(data) matches Some(w) && w.len() <= 600
            && (c >= 200 && c + 400 <= data.len()
            ==> w == data.subrange(c - 200, c + 400)) && (c < 200 && c + 400 <= data.len() ==> w
            == data.subrange(0, c + 400)) && (c < 200 && c + 400 > data.len() ==> w == data),
{
    assert(data.subrange(0, data.len() as int) =~= data);
}

/// Only the recorder's own entry among the participants counts, and the first of them that
/// has a conversation.
pub proof fn law_recorder_is_found_among_participants(
    participants: Seq<JsonV>,
    i: int,
    c: Seq<char>,
)
    requires
        0 <= i < participants.len(),
        bot_conversation(participants[i]) == Some(c),
        forall|j: int| 0 <= j < i ==> bot_conversation(#[trigger] participants[j]) is None,
    ensures
        first_bot_conversation(participants, 0) == Some(c),
        json::str_of(json::get_of(participants[i], "id"@)) == Some(
            "28:bdd75849-e0a6-4cce-8fc1-d7c0d4da43e5"@,
        ),
{
    lemma_first_bot(participants, 0, i);
}

proof fn lemma_first_bot(participants: Seq<JsonV>, from: int, i: int)
    requires
        0 <= from <= i < participants.len(),
        bot_conversation(participants[i]) is Some,
        forall|j: int| 0 <= j < i ==> bot_conversation(#[trigger] participants[j]) is None,
    ensures
        first_bot_conversation(participants, from) == bot_conversation(participants[i]),
    decreases i - from,
{
    if from < i {
        lemma_first_bot(participants, from + 1, i);
    }
}

/// The conversation of a participant is named at its first endpoint, else beside it.
pub proof fn law_controller_of_a_participant(p: JsonV, e: JsonV, a: Seq<JsonV>, c: JsonV)
    ensures
        json::get_of(p, "endpoints"@) == Some(JsonV::Arr(a)) && a.len() > 0 && json::get_of(
            a[0],
            "conversationController"@,
        ) == Some(c) ==> participant_controller(p) == json::str_of(Some(c)),
        json::get_of(p, "endpoints"@) is None ==> participant_controller(p) == json::str_of(
            json::get_of(p, "conversationController"@),
        ),
        json::get_of(p, "endpoints"@) == Some(e) && !(e is Arr) && json::get2_of(
            e,
            "0"@,
            "conversationController"@,
        ) == Some(c) ==> participant_controller(p) == json::str_of(Some(c)),
{
}

/// A recorder that the text names by address and conversation is that one; else it is the
/// one among the participants, at the service's own address.
pub proof fn law_named_recorder_comes_first(v: JsonV, written: Seq<char>, b: Seq<char>,
    c: Seq<char>)
    ensures
        recorder_base(written) == Some(b) && recorder_conversation(written) == Some(c)
            ==> recorder_in(v, written) == Some((b, c)),
        recorder_base(written) is None || recorder_conversation(written) is None ==> recorder_in(
            v,
            written,
        ) == bot_recorder(v),
        bot_recorder(v) matches Some(p) ==> p.0
            == "https://api.flightproxy.teams.microsoft.com/api/v2/ep/aks-prod-usea-p08-api.callrecorder.teams.cloud.microsoft:23444"@,
        json::arr_of(json::get_of(v, "participants"@)) is None ==> bot_recorder(v) is None,
        json::arr_of(json::get_of(v, "participants"@)) matches Some(a) ==> (first_bot_conversation(
            a,
            0,
        ) == Some(c) ==> (bot_recorder(v) matches Some(p) && p.1 == c)),
{
}

/// The address of a recorder is the one that the text names, behind the proxy's.
pub proof fn law_recorder_address_is_proxied(payload: Seq<char>)
    ensures
        recorder_base(payload) matches Some(b) ==> {
            &&& "https://api.flightproxy.teams.microsoft.com/api/v2/ep/"@.is_prefix_of(b)
            &&& text::contains_text(payload, "callrecorder.teams.cloud.microsoft"@)
        },
        !text::contains_text(payload, "callrecorder.teams.cloud.microsoft"@) ==> recorder_base(
            payload,
        ) is None,
{
    text::lemma_contains_find(payload, "callrecorder.teams.cloud.microsoft"@);
    if let Some(b) = recorder_base(payload) {
        let p = "https://api.flightproxy.teams.microsoft.com/api/v2/ep/"@;
        assert(b.subrange(0, p.len() as int) =~= p);
    }
}

/// An event is waited for that speaks of the recorder; any other is passed over.
pub proof fn law_awaited_event_speaks_of_the_recorder(v: JsonV, written: Seq<char>)
    ensures
        text::contains_text(written, "callrecorder"@) ==> awaited_recorder(v, written)
            == recorder_in(v, written),
        text::contains_text(written, "28:bdd75849-e0a6-4cce-8fc1-d7c0d4da43e5"@)
            ==> awaited_recorder(v, written) == recorder_in(v, written),
        text::contains_text(written, "addParticipantSuccess"@) ==> awaited_recorder(v, written)
            == recorder_in(v, written),
        !text::contains_text(written, "callrecorder"@) && !text::contains_text(
            written,
            "28:bdd75849-e0a6-4cce-8fc1-d7c0d4da43e5"@,
        ) && !text::contains_text(written, "addParticipantSuccess"@)
            ==> awaited_recorder(v, written)
            is None,
        !"5:"@.is_prefix_of(written) ==> !is_passed_over(written),
        text::contains_text(written, "callAgent"@) ==> !is_passed_over(written),
        "5:"@.is_prefix_of(written) && !text::contains_text(written, "callAgent"@)
            ==> is_passed_over(written),
{
}

/// The acknowledgement is named with the acceptance, else beside it.
pub proof fn law_acknowledgement_is_named(v: JsonV, u: Seq<char>)
    ensures
        json::get3_of(v, "callAcceptance"@, "links"@, "acknowledgement"@) == Some(JsonV::Str(u))
            ==> acknowledgement_url(v) == Some(u),
        json::get3_of(v, "callAcceptance"@, "links"@, "acknowledgement"@) is None && json::get2_of(
            v,
            "links"@,
            "acknowledgement"@,
        ) == Some(JsonV::Str(u)) ==> acknowledgement_url(v) == Some(u),
        json::get3_of(v, "callAcceptance"@, "links"@, "acknowledgement"@) is None && json::get2_of(
            v,
            "links"@,
            "acknowledgement"@,
        ) is None ==> acknowledgement_url(v) is None,
{
}

/// The time of a command is that of its second, with three digits of milliseconds; its
/// short form has the digits of the date and of the time on both sides of a T.
pub proof fn law_times_of_commands(ms: i64)
    requires
        is_common_time(ms),
    ensures
        ({
            let s = (ms as int / 1000) as nat;
            let iso = dates::iso8601(s);
            &&& common_rfc3339(ms) == iso.take(iso.len() - 1) + "."@ + dates::padded(
                (ms as int % 1000) as nat,
                3,
            ) + "Z"@
            &&& common_compact(ms).len() >= 15
        }),
        is_common_time(0) && !is_common_time((-1int) as i64) && is_common_time(253_402_300_799_999)
            && !is_common_time(253_402_300_800_000),
{
    let iso = dates::iso8601((ms as int / 1000) as nat);
    assert(iso.drop_last() =~= iso.take(iso.len() - 1));
    let d = dates::date_of(ms as int / 86_400_000);
    let rem = (ms as int / 1000 % 86400) as nat;
    dates::law_padding_is_zeros(d.year as nat, 4);
    dates::law_padding_is_zeros(d.month as nat, 2);
    dates::law_padding_is_zeros(d.day as nat, 2);
    dates::law_padding_is_zeros(rem / 3600, 2);
    dates::law_padding_is_zeros(rem % 3600 / 60, 2);
    dates::law_padding_is_zeros(rem % 60, 2);
    assert("T"@.len() == 1) by {
        reveal_strlit("T");
    }
}

/// A command goes to the conversation at the recorder's address.
pub proof fn law_command_goes_to_its_conversation(base: Seq<char>, id: Seq<char>)
    ensures
        base.is_prefix_of(command_url_of(base, id)),
        id.is_suffix_of(command_url_of(base, id)),
        command_url_of(base, id).len() == base.len() + 14 + id.len(),
        command_url_of(base, id).subrange(base.len() as int, base.len() as int + 14)
            == "/v2/oncommand/"@,
{
    assert("/v2/oncommand/"@.len() == 14) by {
        reveal_strlit("/v2/oncommand/");
    }
    let u = command_url_of(base, id);
    assert(u.subrange(0, base.len() as int) =~= base);
    assert(u.subrange(base.len() as int, base.len() as int + 14) =~= "/v2/oncommand/"@);
    assert(u.subrange(u.len() - id.len(), u.len() as int) =~= id);
}

/// The recorder in a response is the one in the value that it holds.
pub proof fn law_recorder_in_a_response(body: Seq<char>, v: JsonV)
    ensures
        json::json_text(body) == Some(v) ==> recorder_in_response(body) == recorder_in(
            v,
            json::written_json(v),
        ),
        json::json_text(body) is None ==> recorder_in_response(body) is None,
{
}

} // verus!
