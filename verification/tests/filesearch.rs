//! Searches for files and people.
use teams_cli::api::filesearch::{
    clamp_limit, drive_search_path, parse_drive_search_response, parse_people_search_response,
    people_search_path, search_files, search_files_data, search_people, search_people_data,
};

fn value(text: &str) -> serde_json::Value {
    serde_json::from_str(text).unwrap()
}

#[test]
fn limit_clamps_to_graph_window() {
    assert_eq!(clamp_limit(0), 1);
    assert_eq!(clamp_limit(10), 10);
    assert_eq!(clamp_limit(25), 25);
    assert_eq!(clamp_limit(500), 25);
}

#[test]
fn drive_path_shape_matches_graph_contract() {
    assert_eq!(
        drive_search_path("quarterly plan", 50),
        "/me/drive/root/search(q='quarterly%20plan')?$top=25"
    );
}

#[test]
fn drive_path_escapes_single_quotes() {
    assert_eq!(
        drive_search_path("tom's", 10),
        "/me/drive/root/search(q='tom%27%27s')?$top=10"
    );
}

#[test]
fn people_path_shape_matches_graph_contract() {
    assert_eq!(
        people_search_path("ava", 50),
        "/users?$search=\"displayName:ava\"&$select=id,displayName,mail,userPrincipalName&$top=25"
    );
}

#[test]
fn people_path_drops_embedded_quotes() {
    assert_eq!(
        people_search_path("a\"b", 10),
        "/users?$search=\"displayName:ab\"&$select=id,displayName,mail,userPrincipalName&$top=10"
    );
}

#[test]
fn parse_drive_hits_files_and_folders() {
    let value = value(r#"{
        "value": [
            {"id": "f1", "name": "plan.md", "size": 48211,
             "webUrl": "https://x/plan",
             "file": {"mimeType": "text/markdown"},
             "parentReference": {"driveId": "d1"}},
            {"id": "d9", "name": "Design", "folder": {}},
            {"name": "no-id-skipped"}
        ]
    }"#);
    let files = parse_drive_search_response(&value);
    assert_eq!(files.len(), 2);
    assert_eq!(files[0].name, "plan.md");
    assert_eq!(files[0].size, 48211);
    assert_eq!(files[0].drive_id.as_deref(), Some("d1"));
    assert!(!files[0].is_folder);
    assert!(files[1].is_folder);
}

#[test]
fn parse_drive_tolerates_unknown_shapes() {
    for raw in [
        value(r#"{}"#),
        value(r#"{"value": []}"#),
        value(r#"null"#),
        value(r#""bogus""#),
    ] {
        assert!(parse_drive_search_response(&raw).is_empty());
    }
}

#[test]
fn parse_people_prefers_mail_over_upn() {
    let value = value(r#"{
        "value": [
            {"id": "u1", "displayName": "Ava Lindqvist",
             "mail": "ava@x", "userPrincipalName": "ava.upn@x"},
            {"id": "u2", "displayName": "Tom Becker",
             "mail": null, "userPrincipalName": "tom@x"},
            {"displayName": "no-id-skipped"}
        ]
    }"#);
    let people = parse_people_search_response(&value);
    assert_eq!(people.len(), 2);
    assert_eq!(people[0].email.as_deref(), Some("ava@x"));
    assert_eq!(people[0].user_id.as_deref(), Some("u1"));
    assert!(people[0].roles.is_empty());
    assert!(!people[0].is_owner);
    assert_eq!(people[1].email.as_deref(), Some("tom@x"));
}

#[test]
fn parse_people_tolerates_unknown_shapes() {
    for raw in [
        value(r#"{}"#),
        value(r#"{"value": []}"#),
        value(r#"null"#),
        value(r#""bogus""#),
    ] {
        assert!(parse_people_search_response(&raw).is_empty());
    }
}

#[test]
fn searches_need_a_query() {
    assert_eq!(search_files_data("  ", 5).unwrap_err(), "empty query");
    assert_eq!(search_people_data("", 5).unwrap_err(), "empty query");
    assert_eq!(search_files_data("a", 5).unwrap(), drive_search_path("a", 5));
    assert_eq!(search_people_data("a", 5).unwrap(), people_search_path("a", 5));
}

#[test]
fn found_files_and_people_are_shown() {
    let files = parse_drive_search_response(&value(
        r#"{"value":[{"id":"f","name":"Design","folder":{},"webUrl":"https://x"},{"id":"g"}]}"#,
    ));
    assert_eq!(search_files(&files), "Design/\n  https://x\n[unnamed]\n");
    assert_eq!(search_files(&Vec::new()), "  (no files found)\n");
    let people = parse_people_search_response(&value(
        r#"{"value":[{"id":"u","displayName":"Ava","mail":" "},{"id":"v","mail":"v@x"},{"id":" "}]}"#,
    ));
    assert_eq!(search_people(&people), "Ava — (no email)\nv — v@x\n");
    assert_eq!(search_people(&Vec::new()), "  (no people found)\n");
}
