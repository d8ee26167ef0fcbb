//! Searches for messages.
use teams_cli::api::search::{
    clamp_size, next_from, parse_search_response, search_body, search_messages,
    search_messages_data, SearchHitInfo, SearchPage,
};
use teams_cli::json::Json;

fn to_value(j: &Json) -> serde_json::Value {
    match j {
        Json::Null => serde_json::Value::Null,
        Json::Bool(b) => serde_json::Value::Bool(*b),
        Json::Num(n) => serde_json::from_str(&n.text).unwrap(),
        Json::Str(s) => serde_json::Value::String(s.clone()),
        Json::Arr(a) => serde_json::Value::Array(a.iter().map(to_value).collect()),
        Json::Obj(o) => {
            serde_json::Value::Object(o.iter().map(|(k, v)| (k.clone(), to_value(v))).collect())
        }
    }
}

fn value(text: &str) -> serde_json::Value {
    serde_json::from_str(text).unwrap()
}

fn chat_value() -> serde_json::Value {
    value(r#"{
        "value": [{
            "searchTerms": ["ship"],
            "hitsContainers": [{
                "hits": [{
                    "hitId": "H1",
                    "rank": 1,
                    "summary": "...Ship it...",
                    "resource": {
                        "@odata.type": "microsoft.graph.chatMessage",
                        "id": "1758600000000",
                        "createdDateTime": "2026-09-22T09:12:05Z",
                        "subject": "",
                        "from": {"emailAddress": {"name": "Megan Harper", "address": "megan@x"}},
                        "channelIdentity": {},
                        "chatId": "19:chat1@thread.v2"
                    }
                }],
                "total": 1,
                "moreResultsAvailable": false
            }]
        }]
    }"#)
}

#[test]
fn body_shape_matches_graph_contract() {
    let body = to_value(&search_body("ship it", 25, 50));
    assert_eq!(
        body,
        value(r#"{
            "requests": [{
                "entityTypes": ["chatMessage"],
                "query": { "queryString": "ship it" },
                "from": 25,
                "size": 25
            }]
        }"#)
    );
}

#[test]
fn size_clamps_to_graph_window() {
    assert_eq!(clamp_size(0), 1);
    assert_eq!(clamp_size(10), 10);
    assert_eq!(clamp_size(25), 25);
    assert_eq!(clamp_size(500), 25);
}

#[test]
fn parse_chat_hit() {
    let page = parse_search_response(&chat_value());
    assert_eq!(page.hits.len(), 1);
    assert_eq!(page.total, Some(1));
    assert!(!page.more);
    let h = &page.hits[0];
    assert_eq!(h.message_id, "1758600000000");
    assert_eq!(h.chat_id, "19:chat1@thread.v2");
    assert!(h.team_id.is_none());
    assert!(h.channel_id.is_none());
    assert_eq!(h.sender, "Megan Harper");
    assert_eq!(h.timestamp, "2026-09-22T09:12:05Z");
    assert_eq!(h.preview, "...Ship it...");
    assert!(h.subject.is_none()); // blank subject drops
}

#[test]
fn parse_channel_hit_opens_by_channel() {
    let value = value(r#"{
        "value": [{
            "hitsContainers": [{
                "hits": [{
                    "summary": "...lane...",
                    "resource": {
                        "id": "m9",
                        "createdDateTime": "2026-09-22T09:13:05Z",
                        "from": {"emailAddress": {"address": "tom@x"}},
                        "channelIdentity": {"teamId": "t1", "channelId": "19:chan@thread.tacv2"}
                    }
                }],
                "total": 9,
                "moreResultsAvailable": true
            }]
        }]
    }"#);
    let page = parse_search_response(&value);
    assert_eq!(page.hits.len(), 1);
    assert_eq!(page.total, Some(9));
    assert!(page.more);
    let h = &page.hits[0];
    assert_eq!(h.chat_id, "19:chan@thread.tacv2");
    assert_eq!(h.team_id.as_deref(), Some("t1"));
    assert_eq!(h.sender, "tom@x"); // name falls back to address
}

#[test]
fn parse_skips_unopenable_hits() {
    let value = value(r#"{
        "value": [{
            "hitsContainers": [{
                "hits": [
                    {"summary": "no resource"},
                    {"resource": {"chatId": "c1"}}, 
                    {"resource": {"id": "m2"}},     
                    {"resource": {"id": "m3", "chatId": "c3"}}
                ],
                "total": 4,
                "moreResultsAvailable": false
            }]
        }]
    }"#);
    let page = parse_search_response(&value);
    assert_eq!(page.hits.len(), 1);
    assert_eq!(page.hits[0].message_id, "m3");
    assert_eq!(page.hits[0].sender, ""); // missing sender stays empty
}

#[test]
fn search_parse_tolerates_unknown_shapes() {
    for raw in [
        value(r#"{}"#),
        value(r#"{"value": []}"#),
        value(r#"{"value": [{"hitsContainers": []}]}"#),
        value(r#"{"value": [{"hitsContainers": [{"hits": []}]}]}"#),
        value(r#"null"#),
        value(r#""bogus""#),
    ] {
        let page = parse_search_response(&raw);
        assert!(page.hits.is_empty());
        assert!(page.total.is_none());
        assert!(!page.more);
    }
}

#[test]
fn paging_cursor_chains_while_more() {
    let more = SearchPage {
        hits: vec![SearchHitInfo {
            message_id: "m".into(),
            chat_id: "c".into(),
            team_id: None,
            channel_id: None,
            sender: String::new(),
            timestamp: String::new(),
            preview: String::new(),
            subject: None,
        }],
        total: Some(9),
        more: true,
    };
    assert_eq!(next_from(0, &more), Some(1));
    assert_eq!(next_from(25, &more), Some(26));
    let done = SearchPage {
        hits: more.hits,
        total: Some(9),
        more: false,
    };
    assert_eq!(next_from(0, &done), None);
    let empty_more = SearchPage {
        hits: Vec::new(),
        total: None,
        more: true,
    };
    assert_eq!(next_from(0, &empty_more), None); // empty page ends paging
}

#[test]
fn message_searches_need_a_query() {
    assert!(search_messages_data("  ", 0, 10).is_err());
    assert!(search_messages_data("x", 0, 10).is_ok());
}

#[test]
fn found_messages_are_shown_with_counts() {
    let mut page = parse_search_response(&chat_value());
    page.more = true;
    let shown = search_messages(&page);
    assert_eq!(
        shown,
        "Megan Harper — 2026-09-22T09:12:05Z\n  chat: 19:chat1@thread.v2\n  msg:  1758600000000\n  ...Ship it...\n\n(showing 1 of 1)\n(more available — page with --from)\n"
    );
    page.total = Some(-3);
    page.more = false;
    assert!(search_messages(&page).ends_with("(showing 1 of -3)\n"));
    page.hits = Vec::new();
    assert_eq!(search_messages(&page), "  (no messages found)\n");
}
