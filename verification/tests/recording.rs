//! The recorder of a call.
use base64::Engine;
use teams_cli::calling::recording::{
    choose_add_url, command_headers, command_url, extract_conversation_id,
    extract_recorder_conv_id, placeholder_conversation, recording_session, start_recording_at,
    start_transcription_at, stop_call_recording, RecordingParams,
};
use teams_cli::json::Json;

fn to_value(j: &Json) -> serde_json::Value {
    match j {
        Json::Null => serde_json::Value::Null,
        Json::Bool(b) => serde_json::Value::Bool(*b),
        Json::Num(n) => serde_json::from_str(&n.text).unwrap(),
        Json::Str(s) => serde_json::Value::String(s.clone()),
        Json::Arr(a) => serde_json::Value::Array(a.iter().map(to_value).collect()),
        Json::Obj(o) => {
            serde_json::Value::Object(o.iter().map(|(k, v)| (k.clone(), to_value(v))).collect())
        }
    }
}

#[test]
fn test_extract_conversation_id() {
    let url = "https://amer03-1.conv.skype.com/conv/abc123-def-456";
    assert_eq!(
        extract_conversation_id(url),
        Some("abc123-def-456".to_string())
    );

    let url2 = "https://amer03-1.conv.skype.com/conv/abc123/something";
    assert_eq!(extract_conversation_id(url2), Some("abc123".to_string()));
}

fn params() -> RecordingParams<'static> {
    RecordingParams {
        caller_mri: "8:orgid:me",
        participant_id: "P",
        endpoint_id: "E",
        chain_id: "C",
        message_id: "M",
        thread_id: "19:x@thread.v2",
        display_name: "Me",
        trouter_surl: "https://t/",
        ic3_token: "IC3",
        recorder_token: "REC",
        skype_token: "SK",
        conversation_id: "conv",
        add_participant_url: "https://add",
    }
}

#[test]
fn conversation_ids_are_decoded_where_they_spell_one() {
    let id = base64::engine::general_purpose::URL_SAFE_NO_PAD
        .encode([0x33, 0x22, 0x11, 0x00, 0x55, 0x44, 0x77, 0x66, 0x88, 0x99, 0xaa, 0xbb, 0xcc, 0xdd, 0xee, 0xff]);
    assert_eq!(
        extract_conversation_id(&format!("https://h/conv/{}?x", id)).as_deref(),
        Some("00112233-4455-6677-8899-aabbccddeeff")
    );
    assert_eq!(extract_conversation_id("https://h/conv/"), None);
    assert_eq!(extract_conversation_id("https://h/x"), None);
    assert_eq!(
        placeholder_conversation("https://h/conv/abc-def"),
        "abc-def"
    );
}

#[test]
fn recorders_are_found_in_payloads() {
    assert_eq!(
        extract_recorder_conv_id("x https://r/v2/oncommand/id-1?y").as_deref(),
        Some("id-1")
    );
    assert_eq!(
        extract_recorder_conv_id("callrecorder 550e8400-e29b-41d4-a716-446655440000").as_deref(),
        Some("550e8400-e29b-41d4-a716-446655440000")
    );
    assert_eq!(extract_recorder_conv_id("nothing"), None);
}

#[test]
fn recorder_commands_carry_their_time() {
    let j = start_transcription_at(&params(), 0).unwrap();
    assert!(to_value(&j).to_string().contains("1970-01-01T00:00:00.000Z"));
    let j = start_recording_at(&params(), 1_790_208_061_007, "corr").unwrap();
    assert!(to_value(&j).to_string().contains("2026-09-24T00:01:01.007Z"));
    assert!(to_value(&j).to_string().contains("20260924T000101"));
    assert!(start_transcription_at(&params(), 253_402_300_799_999).is_some());
    assert!(start_transcription_at(&params(), i64::MAX).is_none());
    assert_eq!(command_url("https://r", "id"), "https://r/v2/oncommand/id");
    let h = command_headers("REC", "SK", "C");
    assert_eq!(h[0], ("Authorization".to_string(), "Bearer REC".to_string()));
    let s = recording_session(&params(), "https://r".to_string(), "id".to_string());
    assert!(stop_call_recording(&s, 0).is_some());
    assert!(stop_call_recording(&s, i64::MAX).is_none());
    assert_eq!(
        choose_add_url(None, "https://h/conv/1?x"),
        "https://h/conv/1/addParticipant?x"
    );
    assert_eq!(choose_add_url(Some("https://named"), "https://h"), "https://named");
}
