//! Teams, their channels and members, reactions, and creating a team.
use teams_cli::api::teams::{
    add_member_body, after_poll, channel_info, channel_react_body,
    channel_reply_set_reaction_path, channel_reply_unset_reaction_path, channel_set_reaction_path,
    channel_unset_reaction_path, create_channel_body, create_channel_path, create_team_body,
    create_team_data, create_team_path, fetch_team_with_channels, find_team_for_channel,
    list_team_members, list_team_members_data, list_teams, list_teams_data, may_poll, member_info,
    member_path, members_path, operation_failed, operation_succeeded, operation_team_id,
    operation_url, parse_teams, read_channel, read_members_response, read_operation,
    standard_team_template, PollOutcome, TEAM_CREATE_POLL_SECS, TEAM_CREATE_TIMEOUT_SECS,
};
use teams_cli::json::{parse_json, Json};
use teams_cli::web::check_id;

fn to_value(j: &Json) -> serde_json::Value {
    match j {
        Json::Null => serde_json::Value::Null,
        Json::Bool(b) => serde_json::Value::Bool(*b),
        Json::Num(n) => serde_json::from_str(&n.text).unwrap(),
        Json::Str(s) => serde_json::Value::String(s.clone()),
        Json::Arr(a) => serde_json::Value::Array(a.iter().map(to_value).collect()),
        Json::Obj(o) => {
            serde_json::Value::Object(o.iter().map(|(k, v)| (k.clone(), to_value(v))).collect())
        }
    }
}

fn value(text: &str) -> serde_json::Value {
    serde_json::from_str(text).unwrap()
}

fn parsed(text: &str) -> Json {
    parse_json(text).unwrap()
}

#[test]
fn teams_id_guard_rejects_path_breaking() {
    for bad in ["", "   ", "a/b", "a?b", "a#b", "a b", "a\tb"] {
        assert!(check_id("team_id", bad).is_err(), "id {:?}", bad);
        assert!(check_id("member_id", bad).is_err(), "id {:?}", bad);
    }
    assert!(check_id("team_id", "550e8400-e29b-41d4-a716-446655440000").is_ok());
    assert!(check_id("team_id", "f09c6c30-1234-abcd-ef00-1234567890ab").is_ok());
    assert!(check_id("member_id", "aWQ9abcDEF123==").is_ok());
}

#[test]
fn paths_pin_graph_shapes() {
    assert_eq!(members_path("  t1 "), "/teams/t1/members");
    assert_eq!(member_path("t1", "m9"), "/teams/t1/members/m9");
}

#[test]
fn react_paths_pin_docs_shapes() {
    assert_eq!(
        channel_set_reaction_path("t1", "19:ch@thread.tacv2", "m1"),
        "/teams/t1/channels/19:ch@thread.tacv2/messages/m1/setReaction"
    );
    assert_eq!(
        channel_unset_reaction_path("t1", "19:ch@thread.tacv2", "m1"),
        "/teams/t1/channels/19:ch@thread.tacv2/messages/m1/unsetReaction"
    );
    assert_eq!(
        channel_reply_set_reaction_path("t1", "19:ch@thread.tacv2", "m1", "r2"),
        "/teams/t1/channels/19:ch@thread.tacv2/messages/m1/replies/r2/setReaction"
    );
    assert_eq!(
        channel_reply_unset_reaction_path("t1", "19:ch@thread.tacv2", "m1", "r2"),
        "/teams/t1/channels/19:ch@thread.tacv2/messages/m1/replies/r2/unsetReaction"
    );
}

#[test]
fn react_body_carries_unicode_reaction_type() {
    assert_eq!(
        to_value(&channel_react_body("👍")),
        value(r#"{ "reactionType": "👍" }"#)
    );
    assert_eq!(
        to_value(&channel_react_body("  ❤️ ")),
        value(r#"{ "reactionType": "❤️" }"#)
    );
}

#[test]
fn add_body_pins_odata_shape() {
    let member = to_value(&add_member_body("user@example.com", false));
    assert_eq!(
        member["@odata.type"],
        "#microsoft.graph.aadUserConversationMember"
    );
    assert_eq!(member["roles"], value(r#"[]"#));
    assert_eq!(
        member["user@odata.bind"],
        "https://graph.microsoft.com/v1.0/users('user@example.com')"
    );
    let owner = to_value(&add_member_body("  oid-1 ", true));
    assert_eq!(owner["roles"], value(r#"["owner"]"#));
    assert_eq!(
        owner["user@odata.bind"],
        "https://graph.microsoft.com/v1.0/users('oid-1')"
    );
}

#[test]
fn members_parse_owner_flag_and_fallbacks() {
    let body = read_members_response(&parsed(r#"{"value":[
            {"id":"M1","displayName":"Doe, Jane","userId":"oid-1","email":"j@x.example","roles":["owner"]},
            {"id":"M2","displayName":"","userId":"oid-2","email":null,"roles":[]},
            {"id":"M3"}]}"#)).unwrap();
    let infos: Vec<_> = body.value.iter().map(member_info).collect();
    assert_eq!(infos.len(), 3);
    assert!(infos[0].is_owner);
    assert_eq!(infos[0].roles, vec!["owner"]);
    assert_eq!(infos[0].display_name, "Doe, Jane");
    assert_eq!(infos[0].user_id.as_deref(), Some("oid-1"));
    assert!(!infos[1].is_owner);
    assert_eq!(infos[1].display_name, ""); // blank kept: UI caller-fallback owns names
    assert!(infos[1].email.is_none());
    assert_eq!(infos[2].display_name, "M3"); // missing -> membership id
    assert!(!infos[2].is_owner); // missing roles -> member
}

#[test]
fn create_path_names_team_channels() {
    assert_eq!(
        create_channel_path("team-1"),
        "/teams/team-1/channels"
    );
}

#[test]
fn create_body_carries_display_name_and_optional_description() {
    let with = to_value(&create_channel_body("General 2", Some("Second room")));
    assert_eq!(with["displayName"], "General 2");
    assert_eq!(with["description"], "Second room");
    let bare = to_value(&create_channel_body("Random", None));
    assert_eq!(bare["displayName"], "Random");
    assert!(bare.get("description").is_none());
    let blank = to_value(&create_channel_body("Random", Some("   ")));
    assert!(blank.get("description").is_none());
}

#[test]
fn created_channel_parses_with_name_fallback() {
    let named = read_channel(&parsed(r#"{"id":"19:new@thread.tacv2","displayName":"New room"}"#)).unwrap();
    let info = channel_info(&named);
    assert_eq!(info.id, "19:new@thread.tacv2");
    assert_eq!(info.name, "New room");
    let unnamed = read_channel(&parsed(r#"{"id":"19:anon@thread.tacv2"}"#)).unwrap();
    assert_eq!(channel_info(&unnamed).name, "19:anon@thread.tacv2");
}

#[test]
fn team_create_pins_path_body_and_template() {
    assert_eq!(create_team_path(), "/teams");
    assert_eq!(
        standard_team_template(),
        "https://graph.microsoft.com/v1.0/teamsTemplates('standard')"
    );
    let body = to_value(&create_team_body("  Squad  ", Some("Ship it"), "oid-1"));
    assert_eq!(body["template@odata.bind"], standard_team_template());
    assert_eq!(body["displayName"], "  Squad  ");
    assert_eq!(body["description"], "Ship it");
    let members = body["members"].as_array().unwrap();
    assert_eq!(members.len(), 1);
    assert_eq!(
        members[0]["@odata.type"],
        "#microsoft.graph.aadUserConversationMember"
    );
    assert_eq!(members[0]["roles"], value(r#"["owner"]"#));
    assert_eq!(
        members[0]["user@odata.bind"],
        "https://graph.microsoft.com/v1.0/users('oid-1')"
    );
    let bare = to_value(&create_team_body("Squad", Some("   "), "oid-1"));
    assert!(bare.get("description").is_none());
    let none = to_value(&create_team_body("Squad", None, "oid-1"));
    assert!(none.get("description").is_none());
}

#[test]
fn team_create_poll_timing_constants() {
    assert_eq!(TEAM_CREATE_POLL_SECS, 3);
    assert_eq!(TEAM_CREATE_TIMEOUT_SECS, 120);
    assert!(TEAM_CREATE_TIMEOUT_SECS > TEAM_CREATE_POLL_SECS);
}

#[test]
fn operation_status_classes_pin_terminal_states() {
    assert!(operation_succeeded("succeeded"));
    assert!(operation_succeeded("Succeeded"));
    assert!(!operation_succeeded("inProgress"));
    assert!(!operation_succeeded("failed"));
    assert!(operation_failed("failed"));
    assert!(operation_failed("Failed"));
    assert!(!operation_failed("inProgress"));
    assert!(!operation_failed("succeeded"));
    assert!(!operation_succeeded("notStarted"));
    assert!(!operation_failed("notStarted"));
    assert!(!operation_succeeded("inProgress"));
    assert!(!operation_failed("inProgress"));
}

#[test]
fn operation_team_id_prefers_resource_id_then_location() {
    let op = read_operation(&value(r#"{"status":"succeeded","targetResourceId":"guid-1",
            "targetResourceLocation":"/teams('guid-2')"}"#)).unwrap();
    assert_eq!(operation_team_id(&op).as_deref(), Some("guid-1"));
    let loc = read_operation(&value(r#"{"status":"succeeded","targetResourceLocation":"/teams('guid-9')"}"#)).unwrap();
    assert_eq!(operation_team_id(&loc).as_deref(), Some("guid-9"));
    let bare = read_operation(&value(r#"{"status":"succeeded","targetResourceLocation":"/teams/guid-7"}"#)).unwrap();
    assert_eq!(operation_team_id(&bare).as_deref(), Some("guid-7"));
    let missing = read_operation(&value(r#"{"status":"succeeded"}"#)).unwrap();
    assert_eq!(operation_team_id(&missing), None);
}

#[test]
fn operation_url_keeps_absolute_and_expands_relative() {
    assert_eq!(
        operation_url("https://graph.microsoft.com/v1.0/teams('t')/operations('o')"),
        "https://graph.microsoft.com/v1.0/teams('t')/operations('o')"
    );
    assert_eq!(
        operation_url("  /teams('t')/operations('o') "),
        "https://graph.microsoft.com/v1.0/teams('t')/operations('o')"
    );
}

fn bytes(text: &str) -> Option<Vec<u8>> {
    Some(text.as_bytes().to_vec())
}

#[test]
fn teams_are_listed_with_their_channels() {
    let teams = parse_teams(br#"{"value":[{"id":"T1","displayName":"Eng"},{"id":"T2"}]}"#).ok().unwrap();
    let replies = vec![bytes(r#"{"value":[{"id":"C1","displayName":"general"}]}"#), None];
    let infos = list_teams_data(&teams, &replies).ok().unwrap();
    assert_eq!(infos.len(), 2);
    assert_eq!(infos[0].name, "Eng");
    assert_eq!(infos[0].channels.len(), 1);
    assert_eq!(infos[1].name, "T2");
    assert!(infos[1].channels.is_empty());
    assert_eq!(find_team_for_channel(&infos, "C1").unwrap(), "T1");
    assert_eq!(
        find_team_for_channel(&infos, "C9").unwrap_err(),
        "No joined team contains channel C9"
    );
    let shown = list_teams(&infos);
    assert!(
        shown.ends_with("-\nTeam: Eng (1 channels)\n  general                        C1\n\nTeam: T2 (0 channels)\n\n"),
        "{}",
        shown
    );
    assert!(list_teams(&Vec::new()).ends_with("  (no teams found)\n"));
    let bad = vec![bytes("nope"), None];
    assert_eq!(
        list_teams_data(&teams, &bad).err().unwrap(),
        "Failed to parse channels response"
    );
    assert_eq!(
        parse_teams(b"{}").err().unwrap(),
        "Failed to parse joinedTeams response"
    );
}

#[test]
fn created_teams_fall_back_to_the_asked_name() {
    let t = fetch_team_with_channels(br#"{"id":"T9","displayName":" "}"#, None, " Squad ").ok().unwrap();
    assert_eq!(t.name, "Squad");
    assert!(t.channels.is_empty());
    let t = fetch_team_with_channels(
        br#"{"id":"T9","displayName":"Named"}"#,
        Some(br#"{"value":[{"id":"C"}]}"#),
        "x",
    )
    .ok()
    .unwrap();
    assert_eq!(t.name, "Named");
    assert_eq!(t.channels[0].name, "C");
    let t = fetch_team_with_channels(br#"{"id":"T9"}"#, Some(b"nope"), "x").ok().unwrap();
    assert!(t.channels.is_empty());
    assert_eq!(
        fetch_team_with_channels(b"nope", None, "x").err().unwrap(),
        "Failed to parse created team response"
    );
}

#[test]
fn rosters_are_shown_by_role() {
    let members = list_team_members_data(
        br#"{"value":[{"id":"M1","displayName":"Ava","email":"a@x","roles":["owner"]},{"id":"M2"}]}"#,
    )
    .ok()
    .unwrap();
    let shown = list_team_members(" t1 ", &members, false);
    assert!(
        shown.ends_with(
            "-\n  Ava                      owner   M1  a@x\n  M2                       member  M2  -\n"
        ),
        "{}",
        shown
    );
    assert!(shown.starts_with("\nTeam t1 members (2):\n-"), "{}", shown);
    let none = list_team_members("t1", &Vec::new(), true);
    assert!(none.starts_with("\nTeam t1 members (0 owners):\n-"), "{}", none);
    assert!(none.ends_with("  (none)\n"));
    // The header counts all members, whichever are shown.
    let owners = list_team_members("t1", &members, true);
    assert!(owners.starts_with("\nTeam t1 members (2 owners):\n-"), "{}", owners);
    assert!(owners.ends_with("-\n  Ava                      owner   M1  a@x\n"), "{}", owners);
}

#[test]
fn team_creation_polls_until_it_ends() {
    assert!(create_team_data(" ", None, "o").is_err());
    assert!(create_team_data("Squad", None, "o").is_ok());
    assert!(may_poll(0, 0).is_ok());
    assert!(may_poll(TEAM_CREATE_TIMEOUT_SECS + 1, 1).is_err());
    let done = read_operation(&value(r#"{"status":"succeeded","targetResourceId":"g"}"#)).unwrap();
    assert!(matches!(after_poll(&done), PollOutcome::Created(id) if id == "g"));
    let failed = read_operation(&value(r#"{"status":"failed"}"#)).unwrap();
    assert!(matches!(after_poll(&failed), PollOutcome::Failed(_)));
    let going = read_operation(&value(r#"{"status":"inProgress"}"#)).unwrap();
    assert!(matches!(after_poll(&going), PollOutcome::Pending));
}
