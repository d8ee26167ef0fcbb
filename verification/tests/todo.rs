//! Lists of tasks.
use teams_cli::api::todo::{
    complete_todo_task_data, create_todo_task_data, list_info, list_todo_lists,
    list_todo_lists_data, list_todo_tasks, list_todo_tasks_data, read_todo_lists_response,
    read_todo_tasks_response, task_info, todo_tasks_path,
};
use teams_cli::json::{parse_json, Json};
use teams_cli::web::check_id;

fn parsed(text: &str) -> Json {
    parse_json(text).unwrap()
}

#[test]
fn todo_id_guard_rejects_path_breaking() {
    for bad in ["", "   ", "a/b", "a?b", "a#b", "a b", "a\tb"] {
        assert!(check_id("list_id", bad).is_err(), "id {:?}", bad);
    }
    assert!(check_id("list_id", "AAMkAGY-123_=").is_ok());
}

#[test]
fn lists_parse_with_wellknown_and_fallback() {
    let body = read_todo_lists_response(&parsed(r#"{"value":[
            {"id":"L1","displayName":"Tasks","wellknownListName":"defaultList"},
            {"id":"L2","displayName":"","wellknownListName":null},
            {"id":"L3"}]}"#)).unwrap();
    let infos: Vec<_> = body.value.iter().map(list_info).collect();
    assert_eq!(infos.len(), 3);
    assert_eq!(infos[0].name, "Tasks");
    assert_eq!(infos[0].wellknown.as_deref(), Some("defaultList"));
    assert_eq!(infos[1].name, "L2"); // empty displayName falls back to id
    assert!(infos[1].wellknown.is_none());
    assert_eq!(infos[2].name, "L3"); // missing displayName falls back to id
}

#[test]
fn tasks_parse_status_dates_importance() {
    let body = read_todo_tasks_response(&parsed(r#"{"value":[
            {"id":"T1","title":"Buy milk","status":"notStarted","importance":"high",
             "dueDateTime":{"dateTime":"2026-09-23T12:00:00.0000000","timeZone":"UTC"},
             "reminderDateTime":{"dateTime":"2026-09-23T11:00:00.0000000","timeZone":"UTC"}},
            {"id":"T2","title":"Done thing","status":"Completed","importance":"low"},
            {"id":"T3"}]}"#)).unwrap();
    let infos: Vec<_> = body.value.iter().map(task_info).collect();
    assert_eq!(infos.len(), 3);
    assert_eq!(infos[0].title, "Buy milk");
    assert!(!infos[0].completed);
    assert_eq!(infos[0].importance, "high");
    assert_eq!(
        infos[0].due.as_deref(),
        Some("2026-09-23T12:00:00.0000000")
    );
    assert_eq!(
        infos[0].reminder.as_deref(),
        Some("2026-09-23T11:00:00.0000000")
    );
    assert!(infos[1].completed); // case-insensitive
    assert!(infos[1].due.is_none());
    assert_eq!(infos[2].status, "notStarted"); // default
    assert_eq!(infos[2].importance, "normal"); // default
    assert_eq!(infos[2].title, ""); // missing title -> empty, never panic
    assert!(!infos[2].completed);
}

#[test]
fn lists_and_tasks_are_shown() {
    let lists = list_todo_lists_data(
        br#"{"value":[{"id":"L1","displayName":"Tasks","wellknownListName":"defaultList"}]}"#,
    )
    .ok()
    .unwrap();
    assert!(list_todo_lists(&lists).ends_with("-\nTasks [defaultList]\n  ID: L1\n\n"));
    assert!(list_todo_lists(&Vec::new()).ends_with("  (no lists found)\n"));
    let tasks = list_todo_tasks_data(
        br#"{"value":[{"id":"T1","title":"Milk","status":"completed"},
            {"id":"T2","title":"Tea","dueDateTime":{"dateTime":"d","timeZone":"UTC"}}]}"#,
    )
    .ok()
    .unwrap();
    assert!(list_todo_tasks(&tasks)
        .ends_with("-\n[x] Milk\n  ID: T1\n\n[ ] Tea (due d)\n  ID: T2\n\n"));
    assert!(list_todo_tasks(&Vec::new()).ends_with("  (no tasks)\n"));
    assert!(list_todo_lists_data(b"{}").is_err());
    assert!(list_todo_tasks_data(b"{}").is_err());
}

#[test]
fn task_requests_check_ids_and_titles() {
    assert!(todo_tasks_path("a/b", 5).is_err());
    assert!(todo_tasks_path("L1", 5).unwrap().contains("L1"));
    assert!(create_todo_task_data("L1", "  ").is_err());
    assert!(create_todo_task_data("L1", "Milk").is_ok());
    assert!(complete_todo_task_data("L1", "a b").is_err());
    assert!(complete_todo_task_data("L1", "T1").is_ok());
}
