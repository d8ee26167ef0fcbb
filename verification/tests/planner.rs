//! Plans, buckets and tasks.
use teams_cli::api::planner::{
    buckets_path, check_etag, create_task_body, is_empty_reply, parse_buckets, parse_plans,
    parse_task, parse_tasks, plans_path, set_complete_body, set_task_complete_data, task_path,
    tasks_path,
};
use teams_cli::json::Json;
use teams_cli::web::check_id;

fn to_value(j: &Json) -> serde_json::Value {
    match j {
        Json::Null => serde_json::Value::Null,
        Json::Bool(b) => serde_json::Value::Bool(*b),
        Json::Num(n) => serde_json::from_str(&n.text).unwrap(),
        Json::Str(s) => serde_json::Value::String(s.clone()),
        Json::Arr(a) => serde_json::Value::Array(a.iter().map(to_value).collect()),
        Json::Obj(o) => {
            serde_json::Value::Object(o.iter().map(|(k, v)| (k.clone(), to_value(v))).collect())
        }
    }
}

fn value(text: &str) -> serde_json::Value {
    serde_json::from_str(text).unwrap()
}

#[test]
fn planner_id_guard_rejects_path_breaking() {
    for bad in ["", "   ", "a/b", "a?b", "a#b", "a b", "a\tb"] {
        assert!(check_id("plan_id", bad).is_err(), "id {:?}", bad);
        assert!(plans_path(bad).is_err());
        assert!(buckets_path(bad).is_err());
        assert!(tasks_path(bad, 50).is_err());
        assert!(task_path(bad).is_err());
    }
    assert!(check_id("plan_id", "Ckkc-9r0N0WsmxebQybwRGUACo8z").is_ok());
}

#[test]
fn etag_guard_rejects_empty_and_crlf() {
    assert!(check_etag("").is_err());
    assert!(check_etag("   ").is_err());
    assert!(check_etag("W/\"abc\"\r\nX: y").is_err());
    assert!(check_etag("W/\"JzI4VGVzMUJxdF9HdERxOFB3QTRBQT09\"").is_ok());
}

#[test]
fn paths_match_graph_docs() {
    assert_eq!(
        plans_path("g1").unwrap(),
        "/groups/g1/planner/plans"
    );
    assert_eq!(buckets_path("p1").unwrap(), "/planner/plans/p1/buckets");
    assert_eq!(
        tasks_path("p1", 50).unwrap(),
        "/planner/plans/p1/tasks?$top=50"
    );
    assert_eq!(task_path("t1").unwrap(), "/planner/tasks/t1");
}

#[test]
fn bodies_match_graph_docs() {
    assert_eq!(
        to_value(&set_complete_body(true)),
        value(r#"{ "percentComplete": 100 }"#)
    );
    assert_eq!(
        to_value(&set_complete_body(false)),
        value(r#"{ "percentComplete": 0 }"#)
    );
    assert_eq!(
        to_value(&create_task_body("p1", "b1", "Do it").ok().unwrap()),
        value(r#"{ "planId": "p1", "bucketId": "b1", "title": "Do it" }"#)
    );
    assert!(create_task_body("p1", "b1", "  ").is_err());
    assert!(create_task_body("p/", "b1", "x").is_err());
    assert!(create_task_body("p1", "b/", "x").is_err());
}

#[test]
fn plans_parse_with_title_fallback() {
    let infos = parse_plans(
        br#"{"value":[
            {"id":"P1","title":"Sprint 12"},
            {"id":"P2","title":""},
            {"id":"P3"}]}"#,
    )
    .unwrap();
    assert_eq!(infos.len(), 3);
    assert_eq!(infos[0].title, "Sprint 12");
    assert_eq!(infos[1].title, "P2");
    assert_eq!(infos[2].title, "P3");
}

#[test]
fn buckets_parse_with_name_fallback() {
    let infos = parse_buckets(
        br#"{"value":[
            {"id":"B1","name":"To do","planId":"P1"},
            {"id":"B2"}]}"#,
    )
    .unwrap();
    assert_eq!(infos.len(), 2);
    assert_eq!(infos[0].name, "To do");
    assert_eq!(infos[0].plan_id, "P1");
    assert_eq!(infos[1].name, "B2");
    assert_eq!(infos[1].plan_id, "");
}

#[test]
fn tasks_parse_percent_priority_due_etag() {
    let infos = parse_tasks(
        br#"{"value":[
            {"id":"T1","planId":"P1","bucketId":"B1","title":"Ship it",
             "percentComplete":50,"priority":1,
             "dueDateTime":"2026-10-02T12:00:00Z",
             "@odata.etag":"W/\"etag-1\""},
            {"id":"T2","title":"Done","percentComplete":100,
             "@odata.etag":"W/\"etag-2\""},
            {"id":"T3"}]}"#,
    )
    .unwrap();
    assert_eq!(infos.len(), 3);
    assert_eq!(infos[0].title, "Ship it");
    assert_eq!(infos[0].percent_complete, 50);
    assert!(!infos[0].completed);
    assert_eq!(infos[0].priority, Some(1));
    assert_eq!(infos[0].due.as_deref(), Some("2026-10-02T12:00:00Z"));
    assert_eq!(infos[0].etag, "W/\"etag-1\"");
    assert_eq!(infos[0].bucket_id, "B1");
    assert!(infos[1].completed);
    assert_eq!(infos[1].priority, None);
    assert!(infos[1].due.is_none());
    assert_eq!(infos[2].percent_complete, 0); // missing -> 0, never panic
    assert_eq!(infos[2].title, "");
    assert_eq!(infos[2].etag, "");
    assert!(!infos[2].completed);
}

#[test]
fn single_task_parses() {
    let info = parse_task(
        br#"{"id":"T9","planId":"P1","bucketId":"B1","title":"New",
             "percentComplete":0,"@odata.etag":"W/\"etag-9\""}"#,
    )
    .unwrap();
    assert_eq!(info.id, "T9");
    assert!(!info.completed);
    assert_eq!(info.etag, "W/\"etag-9\"");
}

#[test]
fn garbage_bodies_error() {
    assert!(parse_plans(b"nope").is_err());
    assert!(parse_buckets(b"{}").is_err());
    assert!(parse_tasks(b"[]").is_err());
    assert!(parse_task(b"{}").is_err()); // id required
}

#[test]
fn completing_a_task_needs_its_id_and_tag() {
    assert!(set_task_complete_data("t/", "W/\"x\"", true).is_err());
    assert!(set_task_complete_data("t", " ", true).is_err());
    assert!(set_task_complete_data("t", "W/\"x\"", true).is_ok());
    assert!(is_empty_reply(b""));
    assert!(!is_empty_reply(b"{}"));
}
