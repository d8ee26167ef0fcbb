//! Transcripts of meetings in all drives.
use teams_cli::api::transcripts::{
    channel_files_folder_path, clamp_limit, folder_children_path, is_not_found, is_transcript,
    list_transcripts_data, parse_transcripts_response, search_transcripts_data, sort_newest,
    transcripts_children_path, transcripts_search_path, ScanStage, TranscriptInfo,
    TranscriptSource,
};
use teams_cli::api::teams::{list_teams_data, parse_teams, TeamInfo};

fn value(text: &str) -> serde_json::Value {
    serde_json::from_str(text).unwrap()
}

#[test]
fn transcripts_limit_clamps_to_window() {
    assert_eq!(clamp_limit(0), 1);
    assert_eq!(clamp_limit(25), 25);
    assert_eq!(clamp_limit(50), 50);
    assert_eq!(clamp_limit(500), 50);
}

#[test]
fn transcripts_children_path_shape_matches_graph_contract() {
    assert_eq!(
        transcripts_children_path(99),
        "/me/drive/root:/Recordings:/children?$top=50"
    );
}

#[test]
fn transcripts_search_paths_shape_matches_graph_contract() {
    assert_eq!(
        transcripts_search_path(None, ".vtt", 99),
        "/me/drive/search(q='.vtt')?$top=50"
    );
    assert_eq!(
        transcripts_search_path(None, "q3 review", 99),
        "/me/drive/search(q='q3%20review')?$top=50"
    );
    assert_eq!(
        transcripts_search_path(Some("d9"), "tom's", 10),
        "/drives/d9/root/search(q='tom%27%27s')?$top=10"
    );
}

#[test]
fn transcripts_folder_paths_shape_matches_graph_contract() {
    assert_eq!(
        channel_files_folder_path("t1", "c2"),
        "/teams/t1/channels/c2/filesFolder"
    );
    assert_eq!(
        folder_children_path("d1", "i2", 0),
        "/drives/d1/items/i2/children?$top=1"
    );
}

#[test]
fn is_transcript_matches_vtt_ext_then_mime() {
    assert!(is_transcript("a.vtt", None)); // ext, mime missing
    assert!(is_transcript("a.vtt", Some("text/vtt")));
    assert!(is_transcript("a.VTT", Some("text/plain"))); // Graph reality
    assert!(is_transcript("noext", Some("text/vtt"))); // mime fallback
    assert!(!is_transcript("clip.mp4", Some("video/mp4")));
    assert!(!is_transcript("notes.docx", None)); // vtt-only: no docx twin
    assert!(!is_transcript("notes.pdf", Some("application/pdf")));
    assert!(!is_transcript("a.vtt.txt", None)); // trailing ext wins
    assert!(!is_transcript("noext", None));
}

#[test]
fn parse_keeps_vtt_skips_rest() {
    let value = value(r#"{
        "value": [
            {"id": "t1", "name": "Weekly Sync-20260924.vtt", "size": 4211,
             "webUrl": "https://x/t1",
             "createdDateTime": "2026-09-24T09:00:00Z",
             "lastModifiedDateTime": "2026-09-24T10:00:00Z",
             "file": {"mimeType": "text/vtt"},
             "parentReference": {"driveId": "d1"}},
            {"id": "r1", "name": "Weekly Sync-20260924.mp4", "size": 48211,
             "file": {"mimeType": "video/mp4"}},
            {"id": "f9", "name": "Recordings", "folder": {}},
            {"id": "n2", "name": "notes.docx",
             "file": {"mimeType": "application/vnd.openxmlformats-officedocument.wordprocessingml.document"}},
            {"name": "no-id-skipped", "file": {"mimeType": "text/vtt"}}
        ]
    }"#);
    let rows = parse_transcripts_response(&value, TranscriptSource::OneDrive);
    assert_eq!(rows.len(), 1);
    let t = &rows[0];
    assert_eq!(t.name, "Weekly Sync-20260924.vtt");
    assert_eq!(t.size, 4211);
    assert_eq!(t.drive_id.as_deref(), Some("d1"));
    assert_eq!(t.source.label(), "OneDrive");
}

#[test]
fn transcripts_parse_tolerates_unknown_shapes() {
    for raw in [value(r#"{}"#), value(r#"{"value": []}"#), value(r#"null"#), value(r#""bogus""#)] {
        assert!(parse_transcripts_response(&raw, TranscriptSource::OneDrive).is_empty());
    }
}

#[test]
fn transcripts_source_labels_channel_rows() {
    let s = TranscriptSource::Channel {
        team: "Engineering".into(),
        channel: "general".into(),
    };
    assert_eq!(s.label(), "Engineering > #general");
}

fn row(name: &str, modified: Option<&str>) -> TranscriptInfo {
    TranscriptInfo {
        id: name.into(),
        name: name.into(),
        size: 0,
        mime: None,
        web_url: None,
        drive_id: None,
        created: None,
        modified: modified.map(str::to_string),
        source: TranscriptSource::OneDrive,
    }
}

#[test]
fn transcripts_sort_newest_orders_by_modified_then_name() {
    let mut rows = vec![
        row("b.vtt", Some("2026-09-20T00:00:00Z")),
        row("a.vtt", Some("2026-09-24T00:00:00Z")),
        row("c.vtt", None),
        row("a2.vtt", Some("2026-09-24T00:00:00Z")),
    ];
    sort_newest(&mut rows);
    assert_eq!(
        rows.iter().map(|r| r.name.as_str()).collect::<Vec<_>>(),
        ["a.vtt", "a2.vtt", "b.vtt", "c.vtt"]
    );
}

#[test]
fn transcripts_not_found_matches_graph_404_chain() {
    let e = "HTTP 404 for https://graph/x: {\"error\":{\"code\":\"itemNotFound\"}}";
    assert!(is_not_found(e));
    let e = "HTTP 403 for https://graph/x: forbidden";
    assert!(!is_not_found(e));
}

fn ok(text: &str) -> Result<Vec<u8>, String> {
    Ok(text.as_bytes().to_vec())
}

fn some_teams() -> Vec<TeamInfo> {
    let teams = parse_teams(br#"{"value":[{"id":"T1","displayName":"Eng"}]}"#).ok().unwrap();
    let replies = vec![ok(
        r#"{"value":[{"id":"C1","displayName":"general"},{"id":"C2","displayName":"other"}]}"#,
    )
    .ok()];
    list_teams_data(&teams, &replies).ok().unwrap()
}

const OWN: &str = r#"{"value":[
    {"id":"a","name":"old.vtt","file":{},"lastModifiedDateTime":"2026-01-01"},
    {"id":"b","name":"new.vtt","file":{},"lastModifiedDateTime":"2026-03-01"}]}"#;

#[test]
fn transcripts_are_listed_from_all_drives() {
    let mut s = list_transcripts_data(2);
    assert_eq!(s.path, transcripts_children_path(2));
    s.take_reply(ok(OWN));
    assert_eq!(s.stage, ScanStage::Teams);
    s.take_teams(Some(some_teams()));
    assert_eq!(s.stage, ScanStage::Folder);
    assert_eq!(s.path, "/teams/T1/channels/C1/filesFolder");
    s.take_reply(ok(r#"{"id":"F1","parentReference":{"driveId":"D1"}}"#));
    assert_eq!(s.path, "/teams/T1/channels/C2/filesFolder");
    s.take_reply(Err("HTTP 403".to_string()));
    assert_eq!(s.stage, ScanStage::Contents);
    assert_eq!(s.path, "/drives/D1/items/F1/children?$top=2");
    s.take_reply(ok(r#"{"value":[{"id":"x","name":"Recordings"},{"id":"R","name":"Recordings","folder":{}}]}"#));
    assert_eq!(s.stage, ScanStage::Entries);
    assert_eq!(s.path, "/drives/D1/items/R/children?$top=2");
    s.take_reply(ok(
        r#"{"value":[{"id":"c","name":"mid.vtt","file":{},"lastModifiedDateTime":"2026-02-01"}]}"#,
    ));
    assert_eq!(s.stage, ScanStage::Done);
    let names: Vec<&str> = s.found.iter().map(|r| r.name.as_str()).collect();
    assert_eq!(names, ["new.vtt", "mid.vtt"]);
    assert_eq!(s.found[1].source.label(), "Eng > #general");
}

#[test]
fn transcripts_list_fails_only_without_any_answer() {
    let mut s = list_transcripts_data(5);
    s.take_reply(Err("HTTP 500".to_string()));
    s.take_teams(None);
    assert_eq!(s.stage, ScanStage::Failed);
    assert_eq!(s.error, "no drive answered the transcripts list");
    let mut s = list_transcripts_data(5);
    s.take_reply(Err("HTTP 404".to_string()));
    s.take_teams(None);
    assert_eq!(s.stage, ScanStage::Done);
    assert!(s.found.is_empty());
    let mut s = list_transcripts_data(5);
    s.take_reply(Err("HTTP 403 for https://graph/items/404: forbidden".to_string()));
    s.take_teams(None);
    assert_eq!(s.stage, ScanStage::Failed);
}

#[test]
fn transcripts_list_goes_on_after_an_unreadable_reply() {
    let mut s = list_transcripts_data(5);
    s.take_reply(ok("nope"));
    assert_eq!(s.stage, ScanStage::Teams);
    assert!(!s.answered);
    s.take_teams(None);
    assert_eq!(s.stage, ScanStage::Failed);
    assert_eq!(s.error, "no drive answered the transcripts list");
    let mut s = list_transcripts_data(5);
    s.take_reply(ok("nope"));
    s.take_teams(Some(some_teams()));
    s.take_reply(ok(r#"{"id":"F1","parentReference":{"driveId":"D1"}}"#));
    s.take_reply(Err("HTTP 403".to_string()));
    s.take_reply(ok(r#"{"value":[{"id":"R","name":"Recordings","folder":{}}]}"#));
    s.take_reply(ok(r#"{"value":[{"id":"c","name":"mid.vtt","file":{}}]}"#));
    assert_eq!(s.stage, ScanStage::Done);
    assert_eq!(s.found.len(), 1);
    assert_eq!(s.found[0].name, "mid.vtt");
}

#[test]
fn transcripts_need_a_dot_before_the_extension() {
    for name in ["vtt", "VTT", "vtt.txt", "."] {
        assert!(!is_transcript(name, None), "{name}");
    }
    assert!(is_transcript(".vtt", None));
}

#[test]
fn transcripts_missing_folder_is_told_by_the_status() {
    assert!(is_not_found("HTTP 404 for https://graph/x: gone"));
    assert!(!is_not_found("HTTP 403 for https://graph/items/404: forbidden"));
    assert!(!is_not_found("404"));
    assert!(!is_not_found("HTTP 500 for https://graph/x: HTTP 404"));
    assert!(!is_not_found("HTTP 4040 for x: y"));
    assert!(is_not_found("listing failed: HTTP 404 for https://graph/x: HTTP 500"));
    assert!(is_not_found("HTTP 404"));
}

#[test]
fn transcripts_searches_ask_every_drive() {
    assert_eq!(search_transcripts_data("  ", 5).err().unwrap(), "empty query");
    let mut s = search_transcripts_data("q3", 5).ok().unwrap();
    assert_eq!(s.path, transcripts_search_path(None, "q3", 5));
    s.take_reply(ok(OWN));
    s.take_teams(Some(some_teams()));
    s.take_reply(ok(r#"{"id":"F1","parentReference":{"driveId":"D1"}}"#));
    s.take_reply(ok(r#"{"id":"F2"}"#));
    assert_eq!(s.stage, ScanStage::Entries);
    assert_eq!(s.path, transcripts_search_path(Some("D1"), "q3", 5));
    s.take_reply(ok("nope"));
    assert_eq!(s.stage, ScanStage::Done);
    assert_eq!(s.found.len(), 2);
    let mut s = search_transcripts_data("q3", 5).ok().unwrap();
    s.take_reply(Err("HTTP 404".to_string()));
    assert_eq!(s.stage, ScanStage::Failed);
    assert_eq!(s.error, "HTTP 404");
    let mut s = search_transcripts_data("q3", 5).ok().unwrap();
    s.take_reply(ok("nope"));
    assert_eq!(s.error, "Failed to parse transcripts search response");
}
