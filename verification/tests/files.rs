//! Shared files: listing, uploading, versions and links.
use base64::Engine;
use teams_cli::api::files::{
    channel_put_path, create_link_body, create_link_path, download_file_data,
    download_file_version_data, encode_share_id, folder_children_path, guid_from_etag,
    is_channel_id, keep_item, list_chat_files_data, list_chat_files_data_opts,
    list_file_versions_data, list_files, list_folder_children_data, normalize_link_scope,
    parse_create_link, posted_upload, read_chat_messages_response, read_drive_children_response,
    read_drive_item, read_versions_response, reference_attachment, restore_file_version_data,
    sender_of, share_path, shared_from_item, upload_file_data, version_from_item, versions_path,
    FileVersion, GraphAttachment, ListStage, SharedFile, UploadError, UploadStart,
    MAX_SIMPLE_UPLOAD,
};
use teams_cli::api::teams::{list_teams_data, parse_teams, TeamInfo};
use teams_cli::json::{parse_json, Json};
use teams_cli::web::encode;

fn to_value(j: &Json) -> serde_json::Value {
    match j {
        Json::Null => serde_json::Value::Null,
        Json::Bool(b) => serde_json::Value::Bool(*b),
        Json::Num(n) => serde_json::from_str(&n.text).unwrap(),
        Json::Str(s) => serde_json::Value::String(s.clone()),
        Json::Arr(a) => serde_json::Value::Array(a.iter().map(to_value).collect()),
        Json::Obj(o) => {
            serde_json::Value::Object(o.iter().map(|(k, v)| (k.clone(), to_value(v))).collect())
        }
    }
}

fn value(text: &str) -> serde_json::Value {
    serde_json::from_str(text).unwrap()
}

fn parsed(text: &str) -> Json {
    parse_json(text).unwrap()
}

#[test]
fn share_id_roundtrips_via_url_safe_base64() {
    let url = "https://contoso.sharepoint.com/personal/a_b/Documents/file.docx";
    let id = encode_share_id(url);
    assert!(id.starts_with("u!"));
    let decoded = base64::engine::general_purpose::URL_SAFE_NO_PAD
        .decode(&id[2..])
        .unwrap();
    assert_eq!(String::from_utf8(decoded).unwrap(), url);
}

#[test]
fn segment_encoding_keeps_unreserved() {
    assert_eq!(encode("aB09-_.~"), "aB09-_.~");
    assert_eq!(encode("a b/c"), "a%20b%2Fc");
    assert_eq!(encode("Microsoft Teams Chat Files"), "Microsoft%20Teams%20Chat%20Files");
}

#[test]
fn guid_scan_finds_first_guid() {
    let etag = "\"c:{3F2504E0-4F89-11D3-9A0C-0305E82C3301},1\"";
    assert_eq!(
        guid_from_etag(etag).as_deref(),
        Some("3F2504E0-4F89-11D3-9A0C-0305E82C3301")
    );
    assert_eq!(guid_from_etag("no-guid-here"), None);
    assert_eq!(guid_from_etag("short"), None);
    assert_eq!(
        guid_from_etag("x550e8400-e29b-41d4-a716-446655440000y").as_deref(),
        Some("550e8400-e29b-41d4-a716-446655440000")
    );
}

#[test]
fn drive_children_parse_skips_folders() {
    let body = read_drive_children_response(&parsed(r#"{"value":[
            {"id":"f1","name":"a.pdf","size":12,"file":{"mimeType":"application/pdf"},
             "webUrl":"https://w/a","@microsoft.graph.downloadUrl":"https://d/a",
             "parentReference":{"driveId":"D1"}},
            {"id":"dir1","name":"sub","folder":{}}
        ]}"#)).unwrap();
    let files: Vec<SharedFile> = body
        .value
        .iter()
        .filter(|it| !it.folder)
        .map(|it| shared_from_item(it, None))
        .collect();
    assert_eq!(files.len(), 1);
    assert_eq!(files[0].id, "f1");
    assert_eq!(files[0].name, "a.pdf");
    assert_eq!(files[0].size, 12);
    assert_eq!(files[0].mime.as_deref(), Some("application/pdf"));
    assert_eq!(files[0].drive_id.as_deref(), Some("D1"));
    assert_eq!(files[0].download_url.as_deref(), Some("https://d/a"));
}

#[test]
fn keep_item_filters_folders_by_default() {
    let file = read_drive_item(&parsed(r#"{"id":"f1","name":"a.pdf","file":{}}"#)).unwrap();
    let folder = read_drive_item(&parsed(r#"{"id":"d1","name":"sub","folder":{}}"#)).unwrap();
    assert!(keep_item(&file, false));
    assert!(keep_item(&file, true));
    assert!(!keep_item(&folder, false));
    assert!(keep_item(&folder, true));
}

#[test]
fn shared_from_item_marks_folder_facet() {
    let folder = read_drive_item(&parsed(r#"{"id":"d1","name":"sub","folder":{"childCount":3}}"#)).unwrap();
    let f = shared_from_item(&folder, None);
    assert!(f.is_folder);
    assert_eq!(f.name, "sub");
    assert_eq!(f.size, 0);
    assert_eq!(f.mime, None);
    let file = read_drive_item(&parsed(r#"{"id":"f1","name":"a.pdf","file":{"mimeType":"application/pdf"}}"#)).unwrap();
    assert!(!shared_from_item(&file, None).is_folder);
}

#[test]
fn folder_children_path_shape() {
    assert_eq!(
        folder_children_path("D1", "root", 20),
        "/drives/D1/items/root/children?$top=20"
    );
    assert_eq!(
        folder_children_path("D1", "abc", 0),
        "/drives/D1/items/abc/children?$top=1"
    );
}

#[test]
fn children_parse_keeps_folders_and_files() {
    let body = read_drive_children_response(&parsed(r#"{"value":[
            {"id":"dir1","name":"sub","folder":{},"parentReference":{"driveId":"D1"}},
            {"id":"f1","name":"a.pdf","size":12,"file":{"mimeType":"application/pdf"},
             "parentReference":{"driveId":"D1"}}
        ]}"#)).unwrap();
    let files: Vec<SharedFile> =
        body.value.iter().map(|it| shared_from_item(it, None)).collect();
    assert_eq!(files.len(), 2);
    assert!(files[0].is_folder);
    assert_eq!(files[0].drive_id.as_deref(), Some("D1"));
    assert!(!files[1].is_folder);
    assert_eq!(files[1].size, 12);
}

#[test]
fn link_scope_normalizes_to_least_privilege() {
    assert_eq!(normalize_link_scope("organization"), "organization");
    assert_eq!(normalize_link_scope("  Organization "), "organization");
    assert_eq!(normalize_link_scope("anonymous"), "anonymous");
    assert_eq!(normalize_link_scope("Anyone"), "anonymous");
    assert_eq!(normalize_link_scope(""), "organization");
    assert_eq!(normalize_link_scope("edit"), "organization");
}

#[test]
fn link_body_is_view_only_with_scope() {
    assert_eq!(
        to_value(&create_link_body("anonymous")),
        value(r#"{"type": "view", "scope": "anonymous"}"#)
    );
    assert_eq!(
        to_value(&create_link_body("bogus")),
        value(r#"{"type": "view", "scope": "organization"}"#)
    );
}

#[test]
fn link_path_addresses_drive_item() {
    assert_eq!(
        create_link_path("D1", "I1"),
        "/drives/D1/items/I1/createLink"
    );
}

#[test]
fn link_parse_extracts_web_url_and_scope() {
    let body: serde_json::Value = serde_json::from_str(
        r#"{"id":"perm-1","link":{"type":"view","scope":"organization",
            "webUrl":"https://contoso.sharepoint.com/:i:/x/ABC"}}"#,
    )
    .unwrap();
    let link = parse_create_link(&body).unwrap();
    assert_eq!(link.url, "https://contoso.sharepoint.com/:i:/x/ABC");
    assert_eq!(link.scope.as_deref(), Some("organization"));
}

#[test]
fn link_parse_rejects_missing_link_or_url() {
    for raw in [
        r#"{"id":"perm-1"}"#,
        r#"{"link":{"type":"view","scope":"organization"}}"#,
        r#"{"link":{"webUrl":""}}"#,
    ] {
        let body: serde_json::Value = serde_json::from_str(raw).unwrap();
        assert!(parse_create_link(&body).is_err(), "raw {}", raw);
    }
}

#[test]
fn list_never_fills_share_url() {
    let item = read_drive_item(&parsed(r#"{"id":"i1","name":"f.docx"}"#)).unwrap();
    assert_eq!(shared_from_item(&item, None).share_url, None);
}

#[test]
fn versions_parse_newest_first_with_author() {
    let body = read_versions_response(&parsed(r#"{"value":[
            {"id":"3.0","size":48211,"lastModifiedDateTime":"2026-09-20T10:00:00Z",
             "lastModifiedBy":{"user":{"displayName":"Priya Nair"}}},
            {"id":"2.0"},
            {"id":"1.0","size":100,"lastModifiedBy":{}}
        ]}"#)).unwrap();
    let vs: Vec<FileVersion> = body.value.iter().map(version_from_item).collect();
    assert_eq!(vs.len(), 3);
    assert_eq!(vs[0].id, "3.0");
    assert_eq!(vs[0].size, 48211);
    assert_eq!(vs[0].modified.as_deref(), Some("2026-09-20T10:00:00Z"));
    assert_eq!(vs[0].modified_by.as_deref(), Some("Priya Nair"));
    assert_eq!(vs[1].size, 0);
    assert_eq!(vs[1].modified_by, None);
    assert_eq!(vs[2].id, "1.0");
    assert_eq!(vs[2].modified_by, None);
}

#[test]
fn chat_message_attachments_filter_reference_only() {
    let body = read_chat_messages_response(&parsed(r#"{"value":[
            {"from":{"user":{"displayName":"A Uzer"}},
             "attachments":[
               {"contentType":"reference","contentUrl":"https://sp/f","name":"f.docx"},
               {"contentType":"messageReference","contentUrl":"https://x","name":"quote"}
             ]},
            {"from":{},"attachments":[]}
        ]}"#)).unwrap();
    assert_eq!(body.value.len(), 2);
    assert_eq!(sender_of(&body.value[0]).as_deref(), Some("A Uzer"));
    let refs: Vec<&GraphAttachment> = body.value[0]
        .attachments
        .iter()
        .filter(|a| a.content_type.as_deref() == Some("reference"))
        .collect();
    assert_eq!(refs.len(), 1);
    assert_eq!(refs[0].content_url.as_deref(), Some("https://sp/f"));
    assert!(sender_of(&body.value[1]).is_none());
}

#[test]
fn reference_attachment_prefers_web_dav() {
    let item = read_drive_item(&parsed(r#"{"id":"i1","eTag":"\"c:{550E8400-E29B-41D4-A716-446655440000},2\"",
            "webUrl":"https://web/f","webDavUrl":"https://dav/f"}"#)).unwrap();
    let v = to_value(&reference_attachment(&item, "f").ok().unwrap());
    assert_eq!(v["id"], "550E8400-E29B-41D4-A716-446655440000");
    assert_eq!(v["contentType"], "reference");
    assert_eq!(v["contentUrl"], "https://dav/f");
    assert_eq!(v["name"], "f");
}

#[test]
fn reference_attachment_requires_guid() {
    let item = read_drive_item(&parsed(r#"{"id":"i1","eTag":"nope"}"#)).unwrap();
    assert!(reference_attachment(&item, "f").is_err());
}

#[test]
fn channel_scope_is_tacv2_suffix() {
    assert!(is_channel_id("19:general@thread.tacv2"));
    assert!(is_channel_id("  19:abc@thread.tacv2  "));
    assert!(!is_channel_id("19:abc@thread.v2"));
    assert!(!is_channel_id("19:meeting_xyz@thread.v2"));
    assert!(!is_channel_id(""));
    assert!(!is_channel_id("19:general@thread.tacv2.evil"));
    assert!(!is_channel_id("general"));
}

fn ok(text: &str) -> Result<Vec<u8>, String> {
    Ok(text.as_bytes().to_vec())
}

const MESSAGES: &str = r#"{"value":[
    {"from":{"user":{"displayName":"Ava"}},
     "attachments":[
       {"contentType":"reference","contentUrl":"https://sp/a","name":"a.docx"},
       {"contentType":"reference","contentUrl":"","name":"empty"},
       {"contentType":"reference","contentUrl":"https://sp/b"}]},
    {"attachments":[{"contentType":"reference","contentUrl":"https://sp/c","name":"c.docx"}]}]}"#;

#[test]
fn chat_files_are_found_by_their_references() {
    let mut l = list_chat_files_data("19:x@thread.v2", 0);
    assert_eq!(l.stage, ListStage::Messages);
    assert_eq!(l.path, "/me/chats/19:x@thread.v2/messages?$top=1");
    l.take_reply(ok(MESSAGES));
    assert_eq!(l.stage, ListStage::Shares);
    assert_eq!(l.path, share_path(&encode_share_id("https://sp/a")));
    l.take_reply(ok(r#"{"id":"i1"}"#));
    assert_eq!(l.path, share_path(&encode_share_id("https://sp/b")));
    l.take_reply(Err("HTTP 403".to_string()));
    assert_eq!(l.path, share_path(&encode_share_id("https://sp/c")));
    l.take_reply(ok(r#"{"id":"i1","name":"again"}"#));
    assert_eq!(l.stage, ListStage::Done);
    assert_eq!(l.files.len(), 1);
    assert_eq!(l.files[0].name, "a.docx");
    assert_eq!(l.files[0].sender.as_deref(), Some("Ava"));
    let shown = list_files(&l.files);
    assert!(
        shown.ends_with("-\na.docx\n  ID:   i1\n  Size: 0 bytes\n  From: Ava\n\n"),
        "{}",
        shown
    );
    assert!(list_files(&Vec::new()).ends_with("  (no shared files found)\n"));
}

fn teams() -> Vec<TeamInfo> {
    let teams = parse_teams(br#"{"value":[{"id":"T1","displayName":"Eng"}]}"#).ok().unwrap();
    let replies = vec![ok(r#"{"value":[{"id":"19:c@thread.tacv2","displayName":"general"}]}"#).ok()];
    list_teams_data(&teams, &replies).ok().unwrap()
}

#[test]
fn channel_files_are_found_in_their_folder() {
    let mut l = list_chat_files_data_opts("19:c@thread.tacv2", 7, true);
    assert_eq!(l.stage, ListStage::Teams);
    l.take_teams(Ok(teams()));
    assert_eq!(l.stage, ListStage::Folder);
    assert_eq!(l.path, "/teams/T1/channels/19:c@thread.tacv2/filesFolder");
    l.take_reply(ok(r#"{"id":"F1","parentReference":{"driveId":"D1"}}"#));
    assert_eq!(l.stage, ListStage::Children);
    assert_eq!(l.path, "/drives/D1/items/F1/children?$top=7");
    l.take_reply(ok(
        r#"{"value":[{"id":"d","name":"sub","folder":{}},{"id":"f","name":"a"},{"id":"f","name":"b"}]}"#,
    ));
    assert_eq!(l.stage, ListStage::Done);
    let names: Vec<&str> = l.files.iter().map(|f| f.name.as_str()).collect();
    assert_eq!(names, ["sub", "a"]);
}

#[test]
fn listings_fall_back_once_and_then_fail() {
    let mut l = list_chat_files_data("19:c@thread.tacv2", 7);
    l.take_teams(Err("offline".to_string()));
    assert_eq!(l.stage, ListStage::Messages);
    l.take_reply(ok("nope"));
    assert_eq!(l.stage, ListStage::Failed);
    assert_eq!(l.error, "Failed to parse chat messages response");
    let mut l = list_chat_files_data("19:x@thread.v2", 7);
    l.take_reply(Err("HTTP 404".to_string()));
    assert_eq!(l.stage, ListStage::Teams);
    l.take_teams(Ok(teams()));
    assert_eq!(l.stage, ListStage::Failed);
    assert_eq!(l.error, "No joined team contains channel 19:x@thread.v2");
    let mut l = list_chat_files_data("19:c@thread.tacv2", 7);
    l.take_teams(Ok(teams()));
    l.take_reply(ok(r#"{"id":"F1"}"#));
    assert_eq!(l.stage, ListStage::Messages);
}

#[test]
fn uploads_are_checked_and_posted() {
    assert_eq!(
        upload_file_data(MAX_SIMPLE_UPLOAD + 1, Some("a"), "c").err().unwrap(),
        "File is 4194305 bytes; simple upload supports <4 MB only (upload sessions not implemented)"
    );
    assert_eq!(
        upload_file_data(4 * 1024 * 1024, Some("a"), "c").err().unwrap(),
        "File is 4194304 bytes; simple upload supports <4 MB only (upload sessions not implemented)"
    );
    assert_eq!(
        upload_file_data(1, None, "c").err().unwrap(),
        "Local path has no file name"
    );
    assert_eq!(
        upload_file_data(1, Some(""), "c").err().unwrap(),
        "Local path has no file name"
    );
    match upload_file_data(MAX_SIMPLE_UPLOAD - 1, Some("a b.txt"), "19:x@thread.v2").ok().unwrap() {
        UploadStart::Chat { put_path, post_path } => {
            assert_eq!(put_path, "/me/drive/root:/Microsoft%20Teams%20Chat%20Files/a%20b.txt:/content");
            assert_eq!(post_path, "/me/chats/19:x@thread.v2/messages");
        }
        UploadStart::Channel => panic!("a chat"),
    }
    assert!(matches!(
        upload_file_data(1, Some("a"), "19:c@thread.tacv2"),
        Ok(UploadStart::Channel)
    ));
    assert_eq!(
        channel_put_path(br#"{"id":"F1","parentReference":{"driveId":"D1"}}"#, "a/b").unwrap(),
        "/drives/D1/items/F1:/a%2Fb:/content"
    );
    assert_eq!(
        channel_put_path(b"x", "a").unwrap_err(),
        "Failed to parse filesFolder response"
    );
    assert_eq!(
        channel_put_path(br#"{"id":"F1"}"#, "a").unwrap_err(),
        "filesFolder response missing parent driveId"
    );
    let posted = posted_upload(
        br#"{"id":"i1","name":"f","eTag":"{550E8400-E29B-41D4-A716-446655440000},2","webUrl":"https://web/f"}"#,
        "f",
    )
    .ok()
    .unwrap();
    assert_eq!(posted.file.id, "i1");
    let m = to_value(&posted.message);
    assert_eq!(m["body"]["contentType"], "html");
    assert_eq!(
        m["body"]["content"],
        "<attachment id=\"550E8400-E29B-41D4-A716-446655440000\"></attachment>"
    );
    assert_eq!(m["attachments"][0]["contentUrl"], "https://web/f");
    assert!(matches!(posted_upload(b"x", "f"), Err(UploadError::Unreadable)));
    assert!(matches!(
        posted_upload(br#"{"id":"i1","eTag":"nope"}"#, "f"),
        Err(UploadError::NoGuid(t)) if t == "nope"
    ));
    assert!(matches!(
        posted_upload(
            br#"{"id":"i1","eTag":"550E8400-E29B-41D4-A716-446655440000"}"#,
            "f"
        ),
        Err(UploadError::NoAddress)
    ));
}

#[test]
fn file_paths_name_drive_item_and_version() {
    assert_eq!(download_file_data("D", "I"), "/drives/D/items/I/content");
    assert_eq!(versions_path("D", "I"), "/drives/D/items/I/versions");
    assert_eq!(
        restore_file_version_data("D", "I", "2.0"),
        "/drives/D/items/I/versions/2.0/restoreVersion"
    );
    assert_eq!(
        download_file_version_data("D", "I", "2.0"),
        "/drives/D/items/I/versions/2.0/content"
    );
    assert_eq!(list_file_versions_data(b"{}").err().unwrap(), "Failed to parse versions response");
    assert_eq!(list_folder_children_data(br#"{"value":[{"id":"d","folder":{}}]}"#).ok().unwrap().len(), 1);
    assert_eq!(
        list_folder_children_data(b"x").err().unwrap(),
        "Failed to parse drive children response"
    );
}

#[test]
fn scopes_in_other_scripts_stay_with_the_organization() {
    assert_eq!(normalize_link_scope(" ANYONE "), "anonymous");
    assert_eq!(normalize_link_scope("ÀNYONE"), "organization");
}
