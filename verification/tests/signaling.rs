//! Requests and replies that set up a call.
use teams_cli::calling::parse_call_notification;
use teams_cli::calling::signaling::{
    accept_call, create_1to1_call, create_conversation, create_echo_call, derive_add_url, end_call,
    find_link, invite_user, join_conversation_with_sdp, joined_from_header, parse_created,
    parse_one_step_call, send_media_answer, signaling_headers, teams_headers, url_with_segment,
    CallLink, ConversationCallParams, CreatedError, LinkError, TeamsRegion,
};
use teams_cli::json::Json;

fn to_value(j: &Json) -> serde_json::Value {
    match j {
        Json::Null => serde_json::Value::Null,
        Json::Bool(b) => serde_json::Value::Bool(*b),
        Json::Num(n) => serde_json::from_str(&n.text).unwrap(),
        Json::Str(s) => serde_json::Value::String(s.clone()),
        Json::Arr(a) => serde_json::Value::Array(a.iter().map(to_value).collect()),
        Json::Obj(o) => {
            serde_json::Value::Object(o.iter().map(|(k, v)| (k.clone(), to_value(v))).collect())
        }
    }
}

struct Headers(Vec<(String, String)>);

impl Headers {
    fn get(&self, name: &str) -> Option<&str> {
        self.0.iter().find(|(n, _)| n == name).map(|(_, v)| v.as_str())
    }
}

fn headers_for(region: &TeamsRegion) -> Headers {
    Headers(teams_headers(region))
}

#[test]
fn default_region_headers_are_amer() {
    let h = headers_for(&TeamsRegion::default());
    assert_eq!(h.get("ms-teams-partition").unwrap(), "amer03");
    assert_eq!(h.get("ms-teams-region").unwrap(), "amer");
    assert_eq!(h.get("ms-teams-ring").unwrap(), "general");
}

#[test]
fn custom_region_headers_override_default() {
    let eu = TeamsRegion {
        partition: "euwe01".to_string(),
        region: "euwe".to_string(),
        ring: "general".to_string(),
    };
    let h = headers_for(&eu);
    assert_eq!(h.get("ms-teams-partition").unwrap(), "euwe01");
    assert_eq!(h.get("ms-teams-region").unwrap(), "euwe");
    assert_eq!(h.get("ms-teams-ring").unwrap(), "general");
}

#[test]
fn overrides_apply_per_field_over_default() {
    let r = TeamsRegion::with_overrides(None, Some("euwe".to_string()), None);
    assert_eq!(r.partition, "amer03");
    assert_eq!(r.region, "euwe");
    assert_eq!(r.ring, "general");

    let all_none = TeamsRegion::with_overrides(None, None, None);
    assert_eq!(all_none, TeamsRegion::default());
}

#[test]
fn params_region_threads_into_headers() {
    let eu =
        TeamsRegion::with_overrides(Some("euwe01".to_string()), Some("euwe".to_string()), None);
    let params = ConversationCallParams {
        ic3_token: "",
        trouter_surl: "",
        caller_mri: "",
        caller_display_name: "",
        endpoint_id: "",
        participant_id: "",
        thread_id: "",
        chain_id: "",
        message_id: "",
        caller_oid: "",
        tenant_id: "",
        region: &eu,
    };
    let h = headers_for(params.region);
    assert_eq!(h.get("ms-teams-partition").unwrap(), "euwe01");
    assert_eq!(h.get("ms-teams-region").unwrap(), "euwe");
    assert_eq!(h.get("ms-teams-ring").unwrap(), "general");
}

fn params<'a>(region: &'a TeamsRegion) -> ConversationCallParams<'a> {
    ConversationCallParams {
        ic3_token: "IC3",
        trouter_surl: "https://t/",
        caller_mri: "8:orgid:me",
        caller_display_name: "Me",
        endpoint_id: "E",
        participant_id: "P",
        thread_id: "19:x@thread.v2",
        chain_id: "C",
        message_id: "M",
        caller_oid: "me",
        tenant_id: "T",
        region,
    }
}

#[test]
fn requests_carry_token_chain_and_region() {
    let region = TeamsRegion::default();
    let h = Headers(signaling_headers(&params(&region), "M2", true));
    assert_eq!(h.get("Authorization"), Some("Bearer IC3"));
    assert_eq!(h.get("x-microsoft-skype-message-id"), Some("M2"));
    assert_eq!(h.get("ms-teams-ring"), Some("general"));
    assert_eq!(h.get("x-ms-migration"), Some("True"));
    let h = Headers(signaling_headers(&params(&region), "M2", false));
    assert_eq!(h.get("x-ms-migration"), None);
}

#[test]
fn call_bodies_carry_the_offer() {
    let region = TeamsRegion::default();
    let p = params(&region);
    for j in [
        create_1to1_call(&p, "v=0 offer"),
        create_echo_call(&p, "v=0 offer"),
        join_conversation_with_sdp(&p, "v=0 offer"),
    ] {
        assert!(to_value(&j).to_string().contains("v=0 offer"));
    }
    assert!(!to_value(&create_conversation(&p)).to_string().contains("v=0"));
    assert!(to_value(&invite_user(&p, "8:orgid:you", "P2", true)).to_string().contains("8:orgid:you"));
    assert_eq!(to_value(&end_call()).to_string(), "{}");
}

#[test]
fn segments_go_behind_the_path() {
    assert_eq!(derive_add_url("https://h/c/1/?x=1"), "https://h/c/1/add?x=1");
    assert_eq!(derive_add_url("https://h/c/1"), "https://h/c/1/add");
    assert_eq!(url_with_segment("https://h/c///", "/z"), "https://h/c/z");
}

#[test]
fn created_conversations_name_their_controller() {
    let c = parse_created(
        r#"{"conversationController":"https://c","links":{"addParticipant":"https://a"}}"#,
        None,
    )
    .unwrap();
    assert_eq!(c.conversation_controller, "https://c");
    assert_eq!(c.add_participant_url.as_deref(), Some("https://a"));
    let c = parse_created(
        r#"{"conversationResponse":{"conversationController":"https://inner"}}"#,
        Some("https://l"),
    )
    .unwrap();
    assert_eq!(c.conversation_controller, "https://inner");
    assert_eq!(parse_created("{}", Some("https://l")).unwrap().conversation_controller, "https://l");
    assert_eq!(parse_created("{}", None).unwrap_err(), CreatedError::NoController);
    assert_eq!(parse_created("x", Some("https://l")).unwrap_err(), CreatedError::NotJson);
    let (_, j) = parse_one_step_call(
        r#"{"conversationController":"https://c","links":{"active":"https://now"}}"#,
        None,
    )
    .unwrap();
    assert_eq!(j.cc_active_url.as_deref(), Some("https://now"));
    assert_eq!(joined_from_header(Some("https://h"), "b").cc_active_url.as_deref(), Some("https://h"));
}

#[test]
fn invitations_are_answered_at_their_links() {
    let n = parse_call_notification(
        r#"{"callInvitation":{"links":{"acceptance":"https://acc","end":"https://end"}}}"#,
    )
    .unwrap();
    assert_eq!(find_link(&n, CallLink::Acceptance).unwrap(), "https://acc");
    assert_eq!(find_link(&n, CallLink::End).unwrap(), "https://end");
    assert_eq!(find_link(&n, CallLink::MediaAnswer).unwrap_err(), LinkError::NoUrl);
    assert_eq!(
        to_value(&send_media_answer("v=0"))["mediaContent"]["blob"],
        "v=0"
    );
    assert_eq!(to_value(&accept_call())["acceptedCallModalities"][0], "Audio");
}
