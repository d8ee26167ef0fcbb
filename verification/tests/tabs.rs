//! Tabs of a channel.
use teams_cli::api::tabs::{
    checked_channel_id, list_tabs, list_tabs_data, read_tabs_response, tab_from_wire, tabs_path, TabInfo,
};
use teams_cli::json::{parse_json, Json};

fn parsed(text: &str) -> Json {
    parse_json(text).unwrap()
}

#[test]
fn fixture_parses_builtin_and_web_tabs() {
    let parsed = read_tabs_response(&parsed(r#"{"value":[
            {"id":"t-posts","displayName":"Posts"},
            {"id":"t-files","displayName":"Files",
             "teamsAppId":"com.microsoft.teamspace.tab.files.sharepoint"},
            {"id":"t-notes","displayName":"Notes",
             "webUrl":"https://example.sharepoint.com/notes",
             "configuration":{"websiteUrl":"https://example.com/notebook"}},
            {"id":"t-web","displayName":"Dashboard",
             "configuration":{"contentUrl":"https://example.com/app"}},
            {"id":"t-bare"}]}"#)).unwrap();
    assert_eq!(parsed.value.len(), 5);
    let tabs: Vec<TabInfo> = parsed.value.iter().map(tab_from_wire).collect();
    assert_eq!(tabs[0].name, "Posts");
    assert!(tabs[0].website_url.is_none());
    assert_eq!(
        tabs[1].app_id.as_deref(),
        Some("com.microsoft.teamspace.tab.files.sharepoint")
    );
    assert_eq!(
        tabs[2].website_url.as_deref(),
        Some("https://example.com/notebook")
    );
    assert_eq!(
        tabs[3].content_url.as_deref(),
        Some("https://example.com/app")
    );
    assert_eq!(tabs[4].name, "t-bare");
}

#[test]
fn web_url_fallback_without_configuration() {
    let parsed = read_tabs_response(&parsed(r#"{"value":[{"id":"t1","displayName":"Wiki",
            "webUrl":"https://example.com/wiki"}]}"#)).unwrap();
    let tabs: Vec<TabInfo> = parsed.value.iter().map(tab_from_wire).collect();
    assert_eq!(
        tabs[0].website_url.as_deref(),
        Some("https://example.com/wiki")
    );
}

#[test]
fn tabs_are_shown_with_an_address() {
    let tabs = list_tabs_data(
        br#"{"value":[{"id":"t1","displayName":"Wiki","configuration":{"contentUrl":"https://c"}},
            {"id":"t2"}]}"#,
    )
    .ok()
    .unwrap();
    let shown = list_tabs(&tabs);
    assert!(
        shown.ends_with("-\n  Wiki                           t1\n    https://c\n  t2                             t2\n"),
        "{}",
        shown
    );
    assert!(list_tabs(&Vec::new()).ends_with("  (no tabs found)\n"));
    assert!(list_tabs_data(b"").is_err());
    assert_eq!(checked_channel_id(" c ").unwrap(), "c");
    assert!(checked_channel_id(" ").is_err());
    assert!(tabs_path("t", "c").starts_with("/teams/t/channels/c/tabs"));
}
