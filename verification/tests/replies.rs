//! Replies that are read from their bytes.
use teams_cli::api::calweek::{read_created_event_reply, EVENTS_PATH};
use teams_cli::api::files::read_create_link_reply;
use teams_cli::api::filesearch::{read_drive_search_reply, read_people_search_reply};
use teams_cli::api::search::read_search_reply;
use teams_cli::api::teams::{
    after_poll, created_team_id, own_id, read_operation_reply, PollOutcome,
};

#[test]
fn search_replies_are_read_from_bytes() {
    let page = read_search_reply(
        br#"{"value":[{"hitsContainers":[{"total":1,"moreResultsAvailable":true,"hits":[]}]}]}"#,
    )
    .ok()
    .unwrap();
    assert_eq!(page.total, Some(1));
    assert!(page.more);
    assert!(read_search_reply(b"{}").ok().unwrap().hits.is_empty());
    assert_eq!(read_search_reply(b"{").err().unwrap(), "Failed to parse search response");
}

#[test]
fn found_files_are_read_from_bytes() {
    let found = read_drive_search_reply(br#"{"value":[{"id":"i1","name":"a.txt","file":{}}]}"#);
    let found = found.ok().unwrap();
    assert_eq!(found.len(), 1);
    assert_eq!(found[0].name, "a.txt");
    assert!(read_drive_search_reply(b"[]").ok().unwrap().is_empty());
    assert_eq!(
        read_drive_search_reply(b"").err().unwrap(),
        "Failed to parse drive search response"
    );
}

#[test]
fn found_people_are_read_from_bytes() {
    let found = read_people_search_reply(br#"{"value":[{"id":"u1","displayName":"Ava"}]}"#);
    let found = found.ok().unwrap();
    assert_eq!(found.len(), 1);
    assert_eq!(found[0].display_name, "Ava");
    assert_eq!(
        read_people_search_reply(b"\xff").err().unwrap(),
        "Failed to parse people search response"
    );
}

#[test]
fn created_links_are_read_from_bytes() {
    let link = read_create_link_reply(br#"{"link":{"webUrl":"https://x/1","scope":"users"}}"#);
    let link = link.ok().unwrap();
    assert_eq!(link.url, "https://x/1");
    assert_eq!(link.scope.as_deref(), Some("users"));
    assert_eq!(
        read_create_link_reply(b"{}").err().unwrap(),
        "createLink response has no link object"
    );
    assert_eq!(
        read_create_link_reply(b"{").err().unwrap(),
        "Failed to read createLink response"
    );
}

#[test]
fn created_events_are_read_from_bytes() {
    assert_eq!(EVENTS_PATH, "/me/calendar/events");
    let m = read_created_event_reply(br#"{"id":"e1","subject":"Sync"}"#).ok().unwrap();
    assert_eq!(m.subject, "Sync");
    assert_eq!(
        read_created_event_reply(b"7").err().unwrap(),
        "Failed to parse calendarView response"
    );
    assert_eq!(
        read_created_event_reply(b"").err().unwrap(),
        "Failed to parse created event response"
    );
}

#[test]
fn created_teams_need_an_id() {
    assert_eq!(created_team_id(br#"{"id":"T1"}"#).ok().unwrap(), "T1");
    for bad in [&b"{}"[..], b"{\"id\":null}", b"{\"id\":7}", b"nope", b""] {
        assert_eq!(
            created_team_id(bad).err().unwrap(),
            "Failed to parse created team response"
        );
    }
}

#[test]
fn operations_are_read_from_bytes() {
    let op = read_operation_reply(br#"{"status":"succeeded","targetResourceId":"T1"}"#);
    assert!(matches!(after_poll(&op.ok().unwrap()), PollOutcome::Created(id) if id == "T1"));
    let op = read_operation_reply(br#"{"status":"failed","error":{"code":"x"}}"#);
    match after_poll(&op.ok().unwrap()) {
        PollOutcome::Failed(e) => assert_eq!(e, "team create failed: {\"code\":\"x\"}"),
        _ => panic!("a failure"),
    }
    for bad in [&b"{}"[..], b"{"] {
        assert_eq!(
            read_operation_reply(bad).err().unwrap(),
            "Failed to parse team operation response"
        );
    }
}

#[test]
fn the_own_id_stands_in_the_profile() {
    assert_eq!(own_id(br#"{"displayName":"Ava","id":"u1"}"#).ok().unwrap(), "u1");
    for bad in [&b"{}"[..], b"{\"id\":1}", b"[\"u1\"]", b"x"] {
        assert_eq!(own_id(bad).err().unwrap(), "profile has no id");
    }
}
