//! Planning a call, and how it is answered.
use base64::Engine;
use flate2::write::GzEncoder;
use std::io::Write;
use teams_cli::auth::StoredToken;
use teams_cli::calling::call_test::{
    check_call_end, check_session_rejection, choose_audio_source, decompress_gzip_base64,
    derive_epconv_url, extract_call_payload, extract_callee_oid_from_thread,
    extract_json_from_frame, extract_mri_from_skype_token, find_end_url, first_usable_line,
    frame_or_silence, has_zipped_body, invite_step, mri_from_claims, payload_of_event, plan_call,
    profile_texts, read_acceptance, read_me_response, remote_sdp_text, rtp_packet_facts,
    run_call_test, setup_media_leg, sort_datagram, wait_for_call_acceptance, write_wav,
    AcceptanceStep, AudioSource, CallPlanError, CallRequest, Datagram, InviteStep, MediaLegError,
    RecvStats, SectionChecks, SendClock, SendStats, SAMPLES_PER_PACKET,
};
use teams_cli::calling::signaling::{echo_thread_id, ECHO_BOT_OID};
use teams_cli::calling::turn::{IpAddress, SocketAddress};
use teams_cli::json::{parse_json, Json};

fn parsed(text: &str) -> Json {
    parse_json(text).unwrap()
}


fn value(text: &str) -> serde_json::Value {
    serde_json::from_str(text).unwrap()
}


fn skype_token(claims: &str) -> String {
    format!("h.{}.s", base64::engine::general_purpose::URL_SAFE_NO_PAD.encode(claims))
}

fn gzip_base64(text: &str) -> String {
    let mut e = GzEncoder::new(Vec::new(), flate2::Compression::default());
    e.write_all(text.as_bytes()).unwrap();
    base64::engine::general_purpose::STANDARD.encode(e.finish().unwrap())
}

fn stored(token: &str) -> Option<StoredToken> {
    Some(StoredToken::new(token.to_string(), Some(100), 0))
}

fn request() -> CallRequest {
    CallRequest {
        skype_token: stored(&skype_token(r#"{"skypeid":"orgid:me"}"#)),
        ic3_token: stored("i"),
        recorder_token: stored("r"),
        has_region_gtms: true,
        tenant_id: Some("T".to_string()),
        record: false,
        echo: false,
        thread_override: None,
        test_thread: Some("19:test@thread.v2".to_string()),
        now: 1,
    }
}

fn refusal(q: &CallRequest) -> CallPlanError {
    run_call_test(q).err().unwrap()
}

#[test]
fn calls_are_planned_in_order() {
    let p = run_call_test(&request()).ok().unwrap();
    assert_eq!(p.caller_mri, "8:orgid:me");
    assert_eq!(p.caller_oid, "me");
    assert_eq!(p.thread_id, "19:test@thread.v2");
    assert_eq!(p.tenant_id, "T");
    assert!(p.callee_mri.is_none() && !p.is_1to1_call);
    assert!(matches!(invite_step(&p, false, true), InviteStep::Nobody));
    assert!(matches!(invite_step(&p, true, true), InviteStep::EchoBot));

    let mut q = request();
    q.thread_override = Some("19:me_you@unq.gbl.spaces".to_string());
    let p = run_call_test(&q).ok().unwrap();
    assert_eq!(p.callee_mri.as_deref(), Some("8:orgid:you"));
    assert!(p.is_1to1_call);
    assert!(matches!(invite_step(&p, false, true), InviteStep::User(m, true) if m == "8:orgid:you"));

    q.echo = true;
    let p = run_call_test(&q).ok().unwrap();
    assert_eq!(p.thread_id, echo_thread_id("me"));
    assert!(p.callee_mri.is_none() && p.is_1to1_call);
}

#[test]
fn plans_fail_at_the_first_thing_missing() {
    let mut q = request();
    q.tenant_id = None;
    assert_eq!(refusal(&q), CallPlanError::NoTenant);
    q.test_thread = Some(String::new());
    assert_eq!(refusal(&q), CallPlanError::EmptyThread);
    q.test_thread = None;
    assert_eq!(refusal(&q), CallPlanError::NoThread);
    q.skype_token = stored(&skype_token(r#"{"skypeid":"live:me"}"#));
    assert_eq!(refusal(&q), CallPlanError::UnexpectedMri);
    q.skype_token = stored("opaque");
    assert_eq!(refusal(&q), CallPlanError::NoCallerMri);
    assert_eq!(plan_call(&q, None).err().unwrap(), CallPlanError::NoCallerMri);
    q.has_region_gtms = false;
    assert_eq!(refusal(&q), CallPlanError::NoRegionGtms);
    q.record = true;
    q.recorder_token = Some(StoredToken::new("r".to_string(), Some(1), 0));
    assert_eq!(refusal(&q), CallPlanError::RecorderTokenExpired);
    q.recorder_token = None;
    assert_eq!(refusal(&q), CallPlanError::NoRecorderToken);
    q.ic3_token = Some(StoredToken::new("i".to_string(), Some(1), 0));
    assert_eq!(refusal(&q), CallPlanError::Ic3TokenExpired);
    q.ic3_token = None;
    assert_eq!(refusal(&q), CallPlanError::NoIc3Token);
    q.now = 100;
    assert_eq!(refusal(&q), CallPlanError::SkypeTokenExpired);
    q.skype_token = None;
    assert_eq!(refusal(&q), CallPlanError::NoSkypeToken);
}

#[test]
fn callees_are_the_other_party() {
    let callee = |t: &str, me: &str| extract_callee_oid_from_thread(t, me);
    assert_eq!(callee("19:a_b@unq.gbl.spaces", "a").unwrap(), "b");
    assert_eq!(callee("19:a_b@unq.gbl.spaces", "b").unwrap(), "a");
    assert_eq!(callee("19:a_b@unq.gbl.spaces", "c").unwrap(), "b");
    assert!(callee("19:a_b_c@unq.gbl.spaces", "a").is_none());
    assert!(callee("19:ab@unq.gbl.spaces", "a").is_none());
    assert!(callee("19:a_b@thread.v2", "a").is_none());
    assert_eq!(callee(&echo_thread_id("me"), "me").unwrap(), ECHO_BOT_OID);
}

#[test]
fn callers_are_read_from_tokens() {
    let mri = |c: &str| extract_mri_from_skype_token(&skype_token(c));
    assert_eq!(mri(r#"{"skypeid":"orgid:x"}"#).unwrap(), "8:orgid:x");
    assert_eq!(mri(r#"{"skypeid":"teamsvisitor:x"}"#).unwrap(), "8:teamsvisitor:x");
    assert_eq!(mri(r#"{"skypeid":"live:x"}"#).unwrap(), "live:x");
    assert_eq!(mri(r#"{"oid":"x"}"#).unwrap(), "8:orgid:x");
    assert!(mri("{}").is_none());
    assert!(extract_mri_from_skype_token("nodots").is_none());
    assert!(extract_mri_from_skype_token("a.!!.c").is_none());
    assert_eq!(mri_from_claims(&parsed(r#"{"skypeid":7,"oid":"y"}"#)).unwrap(), "8:orgid:y");
    let padded = format!("h.{}.s", base64::engine::general_purpose::STANDARD.encode(r#"{"oid":"?>"}"#));
    assert_eq!(extract_mri_from_skype_token(&padded).unwrap(), "8:orgid:?>");
}

#[test]
fn conversation_services_are_derived() {
    let url = |t: &str, c: Option<&str>| derive_epconv_url(&parsed(t), c);
    assert_eq!(url("{}", Some("https://set")).unwrap(), "https://set");
    assert_eq!(
        url(r#"{"calling_conversationServiceUrl":"https://n"}"#, None).unwrap(),
        "https://n"
    );
    assert_eq!(
        url(r#"{"calling_potentialCallRequestUrl":"https://h/api/v2/cc/v1/potentialcall"}"#, None)
            .unwrap(),
        "https://h/api/v2/epconv"
    );
    assert_eq!(
        url(r#"{"calling_potentialCallRequestUrl":"https://h/cc/v1/potentialcall"}"#, None).unwrap(),
        "https://h/epconv"
    );
    assert!(url("{}", None).is_none());
}

#[test]
fn payloads_are_found_in_frames() {
    assert_eq!(extract_json_from_frame("3:::{}").unwrap(), "{}");
    assert_eq!(extract_json_from_frame("5::x").unwrap(), "x");
    assert!(extract_json_from_frame("2::").is_none());
    let zipped = gzip_base64(r#"{"callEnd":{}}"#);
    assert_eq!(decompress_gzip_base64(&zipped).unwrap(), r#"{"callEnd":{}}"#);
    assert!(decompress_gzip_base64("AAAA").is_none());
    assert!(decompress_gzip_base64("?").is_none());
    let frame = format!(
        r#"3:::{{"headers":{{"X-Microsoft-Skype-Content-Encoding":"GZip"}},"body":"{}"}}"#,
        zipped
    );
    assert_eq!(extract_call_payload(&frame).unwrap(), value(r#"{"callEnd":{}}"#));
    assert_eq!(
        extract_call_payload(r#"3:::{"body":"{\"a\":1}"}"#).unwrap(),
        value(r#"{"a":1}"#)
    );
    assert_eq!(
        extract_call_payload(r#"3:::{"data":{"body":{"b":2}}}"#).unwrap(),
        value(r#"{"b":2}"#)
    );
    assert_eq!(
        extract_call_payload(r#"5:::{"body":{"b":2}}"#).unwrap(),
        value(r#"{"body":{"b":2}}"#)
    );
    assert!(extract_call_payload("3:::nope").is_none());
    assert!(!has_zipped_body(&parsed(r#"{"headers":{}}"#)));
    assert_eq!(payload_of_event(value(r#"{"body":3}"#), true), value(r#"{"body":3}"#));
}

#[test]
fn refusals_are_spelled_out() {
    assert_eq!(
        check_call_end(&parsed(
            r#"{"callEnd":{"code":0,"subCode":5,"phrase":"bye","reason":"done","resultCategories":["A",1,"B"]}}"#
        ))
        .unwrap(),
        "Call ended: bye (code=0, subCode=5, reason=done, categories=A,B)"
    );
    assert_eq!(
        check_call_end(&parsed(r#"{"callEnd":{"resultCategories":"C"}}"#)).unwrap(),
        "Call ended: unknown (code=0, subCode=0, reason=, categories=C)"
    );
    assert!(check_call_end(&parsed("{}")).is_none());
    assert_eq!(
        check_session_rejection(&parsed(
            r#"{"sessionRejection":{"code":480,"phrase":"no","resultCategories":"X","diagnosticContext":"d"}}"#
        ))
        .unwrap(),
        "Call rejected: no (code=480, subCode=0) resultCategories=X diag=d"
    );
    assert!(check_session_rejection(&parsed("{}")).is_none());
}

#[test]
fn answers_carry_media_and_links() {
    let a = read_acceptance(&parsed(
        r#"{"callAcceptance":{"mediaContent":{"blob":"v=0"},"links":{"callLeg":"https://l?x","acknowledgement":"https://a"}}}"#,
    ))
    .unwrap();
    assert_eq!(a.sdp_blob.as_deref(), Some("v=0"));
    assert_eq!(a.acknowledgement_url.as_deref(), Some("https://a"));
    assert!(a.rejection_reason.is_none());
    assert_eq!(find_end_url(&a).unwrap(), "https://l/end?x");
    let a = read_acceptance(&parsed(r#"{"callAcceptance":{"links":{"end":"https://e"}}}"#)).unwrap();
    assert_eq!(
        a.rejection_reason.as_deref(),
        Some("Call accepted without SDP \u{2014} media setup impossible")
    );
    assert_eq!(find_end_url(&a).unwrap(), "https://e");
    let a = read_acceptance(&parsed(
        r#"{"mediaAnswer":{"mediaContent":{"blob":"b"}},"links":{"callLeg":"https://l"}}"#,
    ))
    .unwrap();
    assert_eq!(a.sdp_blob.as_deref(), Some("b"));
    assert_eq!(find_end_url(&a).unwrap(), "https://l/end");
    assert!(read_acceptance(&parsed("{}")).is_none());
    assert!(matches!(wait_for_call_acceptance("2::"), AcceptanceStep::Heartbeat));
    assert!(matches!(wait_for_call_acceptance("3:::{}"), AcceptanceStep::Wait));
    assert!(matches!(
        wait_for_call_acceptance(r#"3:::{"body":{"sessionRejection":{}}}"#),
        AcceptanceStep::Answered(a) if a.rejection_reason.is_some()
    ));
}

fn addr(d: u8) -> SocketAddress {
    SocketAddress { ip: IpAddress::V4([10, 0, 0, d]), port: 9 }
}

fn checks(local: bool, remote: &[bool], checked: Option<u8>, fallback: Option<u8>) -> SectionChecks {
    SectionChecks {
        local_crypto: local,
        remote_crypto: remote.to_vec(),
        context: true,
        checked: checked.map(addr),
        fallback: fallback.map(addr),
    }
}

#[test]
fn legs_take_the_first_usable_line() {
    let audio = checks(true, &[false, true, true], None, Some(1));
    let leg = setup_media_leg(true, &audio, &None).ok().unwrap();
    assert_eq!((leg.audio_remote, leg.audio_crypto), (addr(1), 1));
    assert!(leg.video_crypto.is_none() && leg.video_remote.is_none());
    let video = Some(checks(true, &[true], Some(2), Some(3)));
    let leg = setup_media_leg(true, &audio, &video).ok().unwrap();
    assert_eq!((leg.video_crypto, leg.video_remote), (Some(0), Some(addr(2))));
    let err = |ok: bool, a: &SectionChecks, v: Option<SectionChecks>| {
        setup_media_leg(ok, a, &v).err().unwrap()
    };
    assert_eq!(err(false, &audio, None), MediaLegError::RemoteSdp);
    assert_eq!(err(true, &checks(false, &[], None, None), None), MediaLegError::LocalAudioCrypto);
    assert_eq!(err(true, &checks(true, &[false], None, None), None), MediaLegError::NoAudioCrypto);
    assert_eq!(
        err(true, &audio, Some(checks(false, &[], None, None))),
        MediaLegError::LocalVideoCrypto
    );
    assert_eq!(
        err(true, &audio, Some(checks(true, &[], None, None))),
        MediaLegError::NoVideoCrypto
    );
    assert_eq!(
        err(true, &checks(true, &[true], None, None), None),
        MediaLegError::NoAudioCandidate
    );
    let without = |local: bool| {
        let mut c = checks(local, &[true], None, None);
        c.context = false;
        c
    };
    // The audio's context comes before all that is asked of video.
    assert_eq!(
        err(true, &without(true), Some(checks(false, &[], None, None))),
        MediaLegError::AudioContext
    );
    assert_eq!(err(true, &without(false), None), MediaLegError::LocalAudioCrypto);
    assert_eq!(
        err(true, &checks(true, &[true], None, None), Some(without(true))),
        MediaLegError::VideoContext
    );
    assert!(first_usable_line(&vec![]).is_none());
    assert_eq!(remote_sdp_text("??", b"dict"), "??");
    assert_eq!(remote_sdp_text(" v=0 ", b"dict"), "v=0");
}

#[test]
fn counters_follow_the_packets() {
    let mut clock = SendClock { seq: u16::MAX, timestamp: u32::MAX };
    clock.advance();
    assert_eq!(clock, SendClock { seq: 0, timestamp: 159 });
    let mut sent = SendStats::new(7);
    assert!(!sent.reports_as_sender());
    sent.on_sent(160, 320);
    assert!(sent.reports_as_sender());
    assert_eq!(
        sent,
        SendStats { ssrc: 7, packets_sent: 1, bytes_sent: 160, last_rtp_timestamp: 320 }
    );
    let mut heard = RecvStats::new();
    heard.on_packet(5, 11);
    heard.on_packet(3, 12);
    heard.on_sender_report(0x1122_3344_5566_7788);
    assert_eq!(
        heard,
        RecvStats {
            packets_received: 2,
            highest_seq: 5,
            last_sr_ntp: 0x3344_5566,
            remote_ssrc: 11,
        }
    );
    assert_eq!(rtp_packet_facts(&[0, 0, 0, 0, 1, 2, 3, 4, 9, 9], 8), (2, 0x0102_0304));
    assert_eq!(rtp_packet_facts(&[0, 0], 12), (0, 0));
}

#[test]
fn datagrams_are_sorted() {
    assert_eq!(sort_datagram(20, true, true, false, false), Datagram::CheckRequest);
    assert_eq!(sort_datagram(20, true, false, true, true), Datagram::OtherStun);
    assert_eq!(sort_datagram(19, true, true, true, true), Datagram::Control);
    assert_eq!(sort_datagram(50, false, false, false, true), Datagram::Media);
    assert_eq!(sort_datagram(50, false, false, false, false), Datagram::Unreadable);
    assert_eq!(choose_audio_source(true, true), AudioSource::Loopback);
    assert_eq!(choose_audio_source(false, true), AudioSource::Microphone);
    assert_eq!(choose_audio_source(false, false), AudioSource::Tone);
    assert_eq!(frame_or_silence(None), vec![0i16; SAMPLES_PER_PACKET]);
    assert_eq!(frame_or_silence(Some(vec![1, 2])), vec![1, 2]);
}

#[test]
fn wav_files_hold_one_channel() {
    let f = write_wav(&[1, -1, i16::MIN], 8000);
    let mut want = Vec::new();
    want.extend_from_slice(b"RIFF");
    want.extend_from_slice(&42u32.to_le_bytes());
    want.extend_from_slice(b"WAVEfmt ");
    want.extend_from_slice(&16u32.to_le_bytes());
    want.extend_from_slice(&1u16.to_le_bytes());
    want.extend_from_slice(&1u16.to_le_bytes());
    want.extend_from_slice(&8000u32.to_le_bytes());
    want.extend_from_slice(&16000u32.to_le_bytes());
    want.extend_from_slice(&2u16.to_le_bytes());
    want.extend_from_slice(&16u16.to_le_bytes());
    want.extend_from_slice(b"data");
    want.extend_from_slice(&6u32.to_le_bytes());
    want.extend_from_slice(&[1, 0, 0xFF, 0xFF, 0, 0x80]);
    assert_eq!(f, want);
}

#[test]
fn profiles_have_a_name_and_a_mail() {
    let me = read_me_response(&parsed(r#"{"displayName":"D","mail":"m@x"}"#));
    assert_eq!(profile_texts(&me), ("D".to_string(), "m@x".to_string()));
    let (name, mail) = profile_texts(&None);
    let empty = read_me_response(&parsed("{}"));
    assert_eq!(profile_texts(&empty), (name, mail));
    assert!(read_me_response(&parsed(r#"{"mail":3}"#)).is_none());
}
