//! Recordings of meetings in all drives.
use teams_cli::api::recordings::{
    channel_files_folder_path, clamp_limit, folder_children_path, is_not_found, is_video,
    list_recordings_data, parse_recordings_response, recordings_children_path,
    recordings_search_path, search_recordings_data, sort_newest, RecordingInfo, RecordingSource,
    ScanStage,
};
use teams_cli::api::teams::{list_teams_data, parse_teams, TeamInfo};

fn value(text: &str) -> serde_json::Value {
    serde_json::from_str(text).unwrap()
}

#[test]
fn recordings_limit_clamps_to_window() {
    assert_eq!(clamp_limit(0), 1);
    assert_eq!(clamp_limit(25), 25);
    assert_eq!(clamp_limit(50), 50);
    assert_eq!(clamp_limit(500), 50);
}

#[test]
fn recordings_children_path_shape_matches_graph_contract() {
    assert_eq!(
        recordings_children_path(99),
        "/me/drive/root:/Recordings:/children?$top=50"
    );
}

#[test]
fn recordings_search_paths_shape_matches_graph_contract() {
    assert_eq!(
        recordings_search_path(None, "q3 review", 99),
        "/me/drive/search(q='q3%20review')?$top=50"
    );
    assert_eq!(
        recordings_search_path(Some("d9"), "tom's", 10),
        "/drives/d9/root/search(q='tom%27%27s')?$top=10"
    );
}

#[test]
fn recordings_folder_paths_shape_matches_graph_contract() {
    assert_eq!(
        channel_files_folder_path("t1", "c2"),
        "/teams/t1/channels/c2/filesFolder"
    );
    assert_eq!(
        folder_children_path("d1", "i2", 0),
        "/drives/d1/items/i2/children?$top=1"
    );
}

#[test]
fn is_video_matches_mime_then_extension() {
    assert!(is_video("a.mp4", Some("video/mp4")));
    assert!(is_video("a.MOV", None)); // ext fallback
    assert!(is_video("noext", Some("video/quicktime"))); // mime fallback
    assert!(!is_video("notes.pdf", Some("application/pdf")));
    assert!(!is_video("clip.mp4.txt", None)); // trailing ext wins
    assert!(!is_video("noext", None));
}

#[test]
fn parse_keeps_videos_skips_rest() {
    let value = value(r#"{
        "value": [
            {"id": "r1", "name": "Weekly Sync-20260924.mp4", "size": 48211,
             "webUrl": "https://x/r1",
             "@microsoft.graph.downloadUrl": "https://x/dl1",
             "createdDateTime": "2026-09-24T09:00:00Z",
             "lastModifiedDateTime": "2026-09-24T10:00:00Z",
             "file": {"mimeType": "video/mp4"},
             "video": {"durationMillis": 3723000},
             "parentReference": {"driveId": "d1"}},
            {"id": "f9", "name": "Recordings", "folder": {}},
            {"id": "n2", "name": "notes.pdf",
             "file": {"mimeType": "application/pdf"}},
            {"name": "no-id-skipped", "file": {"mimeType": "video/mp4"}}
        ]
    }"#);
    let rows = parse_recordings_response(&value, RecordingSource::OneDrive);
    assert_eq!(rows.len(), 1);
    let r = &rows[0];
    assert_eq!(r.name, "Weekly Sync-20260924.mp4");
    assert_eq!(r.size, 48211);
    assert_eq!(r.drive_id.as_deref(), Some("d1"));
    assert_eq!(r.duration_ms, Some(3723000));
    assert_eq!(r.download_url.as_deref(), Some("https://x/dl1"));
    assert_eq!(r.source.label(), "OneDrive");
}

#[test]
fn recordings_parse_tolerates_unknown_shapes() {
    for raw in [value(r#"{}"#), value(r#"{"value": []}"#), value(r#"null"#), value(r#""bogus""#)] {
        assert!(parse_recordings_response(&raw, RecordingSource::OneDrive).is_empty());
    }
}

#[test]
fn recordings_source_labels_channel_rows() {
    let s = RecordingSource::Channel {
        team: "Engineering".into(),
        channel: "general".into(),
    };
    assert_eq!(s.label(), "Engineering > #general");
}

fn row(name: &str, modified: Option<&str>) -> RecordingInfo {
    RecordingInfo {
        id: name.into(),
        name: name.into(),
        size: 0,
        mime: None,
        web_url: None,
        download_url: None,
        drive_id: None,
        created: None,
        modified: modified.map(str::to_string),
        duration_ms: None,
        source: RecordingSource::OneDrive,
    }
}

#[test]
fn recordings_sort_newest_orders_by_modified_then_name() {
    let mut rows = vec![
        row("b.mp4", Some("2026-09-20T00:00:00Z")),
        row("a.mp4", Some("2026-09-24T00:00:00Z")),
        row("c.mp4", None),
        row("a2.mp4", Some("2026-09-24T00:00:00Z")),
    ];
    sort_newest(&mut rows);
    assert_eq!(
        rows.iter().map(|r| r.name.as_str()).collect::<Vec<_>>(),
        ["a.mp4", "a2.mp4", "b.mp4", "c.mp4"]
    );
}

#[test]
fn recordings_not_found_matches_graph_404_chain() {
    let e = "HTTP 404 for https://graph/x: {\"error\":{\"code\":\"itemNotFound\"}}";
    assert!(is_not_found(e));
    let e = "HTTP 403 for https://graph/x: forbidden";
    assert!(!is_not_found(e));
}

fn ok(text: &str) -> Result<Vec<u8>, String> {
    Ok(text.as_bytes().to_vec())
}

fn some_teams() -> Vec<TeamInfo> {
    let teams = parse_teams(br#"{"value":[{"id":"T1","displayName":"Eng"}]}"#).ok().unwrap();
    let replies = vec![ok(
        r#"{"value":[{"id":"C1","displayName":"general"},{"id":"C2","displayName":"other"}]}"#,
    )
    .ok()];
    list_teams_data(&teams, &replies).ok().unwrap()
}

const OWN: &str = r#"{"value":[
    {"id":"a","name":"old.mp4","file":{},"lastModifiedDateTime":"2026-01-01"},
    {"id":"b","name":"new.mp4","file":{},"lastModifiedDateTime":"2026-03-01"}]}"#;

#[test]
fn recordings_are_listed_from_all_drives() {
    let mut s = list_recordings_data(2);
    assert_eq!(s.path, recordings_children_path(2));
    s.take_reply(ok(OWN));
    assert_eq!(s.stage, ScanStage::Teams);
    s.take_teams(Some(some_teams()));
    assert_eq!(s.stage, ScanStage::Folder);
    assert_eq!(s.path, "/teams/T1/channels/C1/filesFolder");
    s.take_reply(ok(r#"{"id":"F1","parentReference":{"driveId":"D1"}}"#));
    assert_eq!(s.path, "/teams/T1/channels/C2/filesFolder");
    s.take_reply(Err("HTTP 403".to_string()));
    assert_eq!(s.stage, ScanStage::Contents);
    assert_eq!(s.path, "/drives/D1/items/F1/children?$top=2");
    s.take_reply(ok(r#"{"value":[{"id":"x","name":"Recordings"},{"id":"R","name":"Recordings","folder":{}}]}"#));
    assert_eq!(s.stage, ScanStage::Entries);
    assert_eq!(s.path, "/drives/D1/items/R/children?$top=2");
    s.take_reply(ok(
        r#"{"value":[{"id":"c","name":"mid.mp4","file":{},"lastModifiedDateTime":"2026-02-01"}]}"#,
    ));
    assert_eq!(s.stage, ScanStage::Done);
    let names: Vec<&str> = s.found.iter().map(|r| r.name.as_str()).collect();
    assert_eq!(names, ["new.mp4", "mid.mp4"]);
    assert_eq!(s.found[1].source.label(), "Eng > #general");
}

#[test]
fn recordings_list_fails_only_without_any_answer() {
    let mut s = list_recordings_data(5);
    s.take_reply(Err("HTTP 500".to_string()));
    s.take_teams(None);
    assert_eq!(s.stage, ScanStage::Failed);
    assert_eq!(s.error, "no drive answered the recordings list");
    let mut s = list_recordings_data(5);
    s.take_reply(Err("HTTP 404".to_string()));
    s.take_teams(None);
    assert_eq!(s.stage, ScanStage::Done);
    assert!(s.found.is_empty());
    let mut s = list_recordings_data(5);
    s.take_reply(Err("HTTP 403 for https://graph/items/404: forbidden".to_string()));
    s.take_teams(None);
    assert_eq!(s.stage, ScanStage::Failed);
}

#[test]
fn recordings_list_goes_on_after_an_unreadable_reply() {
    let mut s = list_recordings_data(5);
    s.take_reply(ok("nope"));
    assert_eq!(s.stage, ScanStage::Teams);
    assert!(!s.answered);
    s.take_teams(None);
    assert_eq!(s.stage, ScanStage::Failed);
    assert_eq!(s.error, "no drive answered the recordings list");
    let mut s = list_recordings_data(5);
    s.take_reply(ok("nope"));
    s.take_teams(Some(some_teams()));
    s.take_reply(ok(r#"{"id":"F1","parentReference":{"driveId":"D1"}}"#));
    s.take_reply(Err("HTTP 403".to_string()));
    s.take_reply(ok(r#"{"value":[{"id":"R","name":"Recordings","folder":{}}]}"#));
    s.take_reply(ok(r#"{"value":[{"id":"c","name":"mid.mp4","file":{}}]}"#));
    assert_eq!(s.stage, ScanStage::Done);
    assert_eq!(s.found.len(), 1);
    assert_eq!(s.found[0].name, "mid.mp4");
}

#[test]
fn recordings_need_a_dot_before_the_extension() {
    for name in ["mp4", "mov", "M4V", "mp4.txt", "."] {
        assert!(!is_video(name, None), "{name}");
    }
    assert!(is_video(".mp4", None));
}

#[test]
fn recordings_missing_folder_is_told_by_the_status() {
    assert!(is_not_found("HTTP 404 for https://graph/x: gone"));
    assert!(!is_not_found("HTTP 403 for https://graph/items/404: forbidden"));
    assert!(!is_not_found("404"));
    assert!(!is_not_found("HTTP 500 for https://graph/x: HTTP 404"));
    assert!(!is_not_found("HTTP 4040 for x: y"));
    assert!(is_not_found("listing failed: HTTP 404 for https://graph/x: HTTP 500"));
    assert!(is_not_found("HTTP 404"));
}

#[test]
fn recordings_searches_ask_every_drive() {
    assert_eq!(search_recordings_data("  ", 5).err().unwrap(), "empty query");
    let mut s = search_recordings_data("q3", 5).ok().unwrap();
    assert_eq!(s.path, recordings_search_path(None, "q3", 5));
    s.take_reply(ok(OWN));
    s.take_teams(Some(some_teams()));
    s.take_reply(ok(r#"{"id":"F1","parentReference":{"driveId":"D1"}}"#));
    s.take_reply(ok(r#"{"id":"F2"}"#));
    assert_eq!(s.stage, ScanStage::Entries);
    assert_eq!(s.path, recordings_search_path(Some("D1"), "q3", 5));
    s.take_reply(ok("nope"));
    assert_eq!(s.stage, ScanStage::Done);
    assert_eq!(s.found.len(), 2);
    let mut s = search_recordings_data("q3", 5).ok().unwrap();
    s.take_reply(Err("HTTP 404".to_string()));
    assert_eq!(s.stage, ScanStage::Failed);
    assert_eq!(s.error, "HTTP 404");
    let mut s = search_recordings_data("q3", 5).ok().unwrap();
    s.take_reply(ok("nope"));
    assert_eq!(s.error, "Failed to parse recordings search response");
}
