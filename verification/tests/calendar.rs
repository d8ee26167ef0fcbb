//! Meetings of the calendar, links to join them, and the lobby.
use teams_cli::api::calendar::{
    calendar_view_path, classify_link, list_upcoming_meetings, lobby_next, parse_calendar_view,
    parse_join_url, LobbyEvent, LobbyState,
};
use teams_cli::api::calweek::{
    calweek_view_path, cancel_meeting_data, check_event_id, list_week_meetings_data,
    parse_created_event, schedule_event_body, schedule_meeting_data, validate_schedule,
};
use teams_cli::dates::{civil_from_days, unix_to_iso8601};
use teams_cli::json::{as_text, Json};

const VIEW_JSON: &str = r#"{
    "value": [
        {"id": "E1", "subject": "Standup",
         "isOnlineMeeting": true,
         "onlineMeeting": {"joinUrl": "https://teams.microsoft.com/l/meetup-join/19%3ameeting_x%40thread.v2/0"},
         "start": {"dateTime": "2026-09-24T09:00:00.0000000", "timeZone": "UTC"},
         "end": {"dateTime": "2026-09-24T09:15:00.0000000", "timeZone": "UTC"},
         "organizer": {"emailAddress": {"name": "Doe, Jane", "address": "j@x.io"}}},
        {"id": "E2", "subject": "  ",
         "isOnlineMeeting": false,
         "start": {"dateTime": "2026-09-25T12:00:00.0000000", "timeZone": "UTC"},
         "end": null, "organizer": null},
        {"id": "E3"}
    ]
}"#;

const WEEK_JSON: &str = r#"{
    "value": [
        {"id": "W1", "subject": "Mon standup",
         "isOnlineMeeting": true,
         "onlineMeeting": {"joinUrl": "https://teams.microsoft.com/l/meetup-join/x"},
         "start": {"dateTime": "2026-09-28T09:00:00.0000000", "timeZone": "UTC"},
         "end": {"dateTime": "2026-09-28T09:15:00.0000000", "timeZone": "UTC"},
         "organizer": {"emailAddress": {"name": "Doe, Jane", "address": "j@x.io"}}},
        {"id": "W2", "subject": "Fri demo",
         "isOnlineMeeting": false,
         "start": {"dateTime": "2026-10-02T14:00:00.0000000", "timeZone": "UTC"},
         "end": {"dateTime": "2026-10-02T15:00:00.0000000", "timeZone": "UTC"}}
    ]
}"#;

#[test]
fn calendar_parse_fields() {
    let ms = parse_calendar_view(VIEW_JSON).unwrap();
    assert_eq!(ms.len(), 3);
    assert_eq!(ms[0].id, "E1");
    assert_eq!(ms[0].subject, "Standup");
    assert!(ms[0].is_online);
    assert_eq!(
        ms[0].join_url.as_deref(),
        Some("https://teams.microsoft.com/l/meetup-join/19%3ameeting_x%40thread.v2/0")
    );
    assert_eq!(ms[0].start.as_deref(), Some("2026-09-24T09:00:00.0000000"));
    assert_eq!(ms[0].organizer.as_deref(), Some("Doe, Jane"));
    assert_eq!(ms[1].subject, "(no subject)");
    assert!(!ms[1].is_online);
    assert!(ms[1].join_url.is_none());
    assert!(ms[1].end.is_none());
    assert_eq!(ms[2].id, "E3");
    assert_eq!(ms[2].subject, "(no subject)");
    assert!(ms[2].start.is_none());
}

#[test]
fn calendar_parse_rejects_garbage() {
    assert!(parse_calendar_view("not json").is_err());
    assert!(parse_calendar_view("{\"value\": {}}").is_err());
}

#[test]
fn calendar_path_shape() {
    let p = calendar_view_path(1_790_208_000, 7, 25);
    assert!(p.starts_with("/me/calendar/calendarView?"), "{}", p);
    assert!(p.contains("startDateTime=2026-09-24T00%3A00%3A00Z"), "{}", p);
    assert!(p.contains("endDateTime=2026-10-01T00%3A00%3A00Z"), "{}", p);
    assert!(p.contains("$top=25"), "{}", p);
    assert!(p.contains("$orderby=start/dateTime"), "{}", p);
}

#[test]
fn unix_to_iso8601_spot_checks() {
    assert_eq!(unix_to_iso8601(0), "1970-01-01T00:00:00Z");
    assert_eq!(unix_to_iso8601(1_790_208_000), "2026-09-24T00:00:00Z");
    assert_eq!(unix_to_iso8601(1_790_208_000 + 86_400), "2026-09-25T00:00:00Z");
    assert_eq!(unix_to_iso8601(1_709_210_096), "2024-02-29T12:34:56Z");
}

#[test]
fn join_url_meetup_thread() {
    let t = parse_join_url(
        "https://teams.microsoft.com/l/meetup-join/19%3ameeting_abc%40thread.v2/0?context=%7b%7d",
    );
    assert_eq!(t.kind, "thread");
    assert_eq!(t.thread_id.as_deref(), Some("19:meeting_abc@thread.v2"));
}

#[test]
fn join_url_meetup_unencoded() {
    let t = parse_join_url("https://teams.microsoft.com/l/meetup-join/19:meeting_abc@thread.v2/0");
    assert_eq!(t.kind, "thread");
    assert_eq!(t.thread_id.as_deref(), Some("19:meeting_abc@thread.v2"));
}

#[test]
fn join_url_bare_thread_id() {
    let t = parse_join_url("  19:abc_def@thread.v2  ");
    assert_eq!(t.kind, "thread");
    assert_eq!(t.thread_id.as_deref(), Some("19:abc_def@thread.v2"));
}

#[test]
fn join_url_live_meet_id() {
    let t = parse_join_url("https://teams.live.com/meet/9347123456789?p=abc");
    assert_eq!(t.kind, "meeting-id");
    assert_eq!(t.meeting_id.as_deref(), Some("9347123456789"));
}

#[test]
fn join_url_other_https_opens_as_is() {
    let t = parse_join_url("https://example.com/x");
    assert_eq!(t.kind, "url");
    assert_eq!(t.url, "https://example.com/x");
}

#[test]
fn join_url_unknown_shapes() {
    for raw in ["", "   ", "hello", "ftp://x", "19:not a thread id"] {
        let t = parse_join_url(raw);
        assert_eq!(t.kind, "unknown", "input {:?}", raw);
        assert!(t.thread_id.is_none());
    }
}

#[test]
fn lobby_happy_path() {
    let mut s = LobbyState::Idle;
    s = lobby_next(s, LobbyEvent::Start);
    assert_eq!(s, LobbyState::Joining);
    s = lobby_next(s, LobbyEvent::Placed);
    assert_eq!(s, LobbyState::Joining);
    s = lobby_next(s, LobbyEvent::Admit);
    assert_eq!(s, LobbyState::Admitted);
}

#[test]
fn lobby_waiting_room_path() {
    let mut s = lobby_next(LobbyState::Idle, LobbyEvent::Start);
    s = lobby_next(s, LobbyEvent::LobbySignal);
    assert_eq!(s, LobbyState::Lobby);
    s = lobby_next(s, LobbyEvent::Placed);
    assert_eq!(s, LobbyState::Lobby);
    s = lobby_next(s, LobbyEvent::Admit);
    assert_eq!(s, LobbyState::Admitted);
}

#[test]
fn lobby_reject_and_retry() {
    let s = lobby_next(LobbyState::Idle, LobbyEvent::Start);
    let s = lobby_next(s, LobbyEvent::LobbySignal);
    let s = lobby_next(s, LobbyEvent::Reject);
    assert_eq!(s, LobbyState::Failed);
    assert_eq!(lobby_next(s, LobbyEvent::Admit), LobbyState::Failed);
    assert_eq!(lobby_next(s, LobbyEvent::Start), LobbyState::Joining);
    assert_eq!(lobby_next(s, LobbyEvent::Reset), LobbyState::Idle);
}

#[test]
fn lobby_reset_from_anywhere_and_str_roundtrip() {
    for s in [
        LobbyState::Idle,
        LobbyState::Joining,
        LobbyState::Lobby,
        LobbyState::Admitted,
        LobbyState::Failed,
    ] {
        assert_eq!(lobby_next(s, LobbyEvent::Reset), LobbyState::Idle);
        assert_eq!(LobbyState::from_str(s.as_str()), s);
    }
    assert_eq!(LobbyState::from_str("bogus"), LobbyState::Idle);
}

#[test]
fn week_path_pins_window_and_select() {
    let p = calweek_view_path(1_790_553_600, 7, 50);
    assert!(p.starts_with("/me/calendar/calendarView?"), "{}", p);
    assert!(p.contains("startDateTime=2026-09-28T00%3A00%3A00Z"), "{}", p);
    assert!(p.contains("endDateTime=2026-10-05T00%3A00%3A00Z"), "{}", p);
    assert!(p.contains("$top=50"), "{}", p);
    assert!(p.contains("$orderby=start/dateTime"), "{}", p);
    assert!(p.contains("onlineMeeting"), "{}", p);
}

#[test]
fn week_fixture_parses_two_events() {
    let ms = parse_calendar_view(WEEK_JSON).unwrap();
    assert_eq!(ms.len(), 2);
    assert_eq!(ms[0].id, "W1");
    assert!(ms[0].is_online);
    assert_eq!(
        ms[0].join_url.as_deref(),
        Some("https://teams.microsoft.com/l/meetup-join/x")
    );
    assert_eq!(ms[1].id, "W2");
    assert!(!ms[1].is_online);
    assert!(ms[1].join_url.is_none());
}

#[test]
fn created_event_wrap_parses_join_url() {
    let v: serde_json::Value = serde_json::from_str(
        r#"{"id": "C1", "subject": "Sync",
            "isOnlineMeeting": true,
            "onlineMeeting": {"joinUrl": "https://teams.microsoft.com/l/meetup-join/new"},
            "start": {"dateTime": "2026-09-29T10:00:00", "timeZone": "UTC"},
            "end": {"dateTime": "2026-09-29T10:30:00", "timeZone": "UTC"}}"#,
    )
    .unwrap();
    let m = parse_created_event(&v).unwrap();
    assert_eq!(m.id, "C1");
    assert_eq!(m.subject, "Sync");
    assert_eq!(
        m.join_url.as_deref(),
        Some("https://teams.microsoft.com/l/meetup-join/new")
    );
}

fn is_true(j: Option<&Json>) -> bool {
    matches!(j, Some(Json::Bool(true)))
}

#[test]
fn schedule_body_online_requests_teams() {
    let b = schedule_event_body(
        "Sync",
        "2026-09-29T10:00:00",
        "2026-09-29T10:30:00",
        "UTC",
        true,
    );
    assert_eq!(as_text(b.get("subject")).as_deref(), Some("Sync"));
    assert_eq!(
        as_text(b.get2("start", "dateTime")).as_deref(),
        Some("2026-09-29T10:00:00")
    );
    assert_eq!(as_text(b.get2("start", "timeZone")).as_deref(), Some("UTC"));
    assert!(is_true(b.get("isOnlineMeeting")));
    assert_eq!(
        as_text(b.get("onlineMeetingProvider")).as_deref(),
        Some("teamsForBusiness")
    );
}

#[test]
fn schedule_body_offline_omits_online_keys() {
    let b = schedule_event_body(
        "Lunch",
        "2026-09-29T12:00:00",
        "2026-09-29T13:00:00",
        "UTC",
        false,
    );
    assert!(b.get("isOnlineMeeting").is_none());
    assert!(b.get("onlineMeetingProvider").is_none());
}

#[test]
fn validate_schedule_rejects_bad_input() {
    assert!(validate_schedule("", "2026-09-29T10:00:00", "2026-09-29T10:30:00", "UTC").is_err());
    assert!(validate_schedule("  ", "2026-09-29T10:00:00", "2026-09-29T10:30:00", "UTC").is_err());
    assert!(validate_schedule("S", "not-a-date", "2026-09-29T10:30:00", "UTC").is_err());
    assert!(validate_schedule("S", "2026-09-29T10:30:00", "2026-09-29T10:00:00", "UTC").is_err());
    assert!(validate_schedule("S", "2026-09-29T10:00:00", "2026-09-29T10:00:00", "UTC").is_err());
    assert!(validate_schedule("S", "2026-09-29T10:00:00", "2026-09-29T10:30:00", "").is_err());
    assert!(validate_schedule("S", "2026-09-29T10:00:00", "2026-09-29T10:30:00", "U TC").is_err());
    assert!(validate_schedule(
        "S",
        "2026-09-29T10:00:00",
        "2026-09-29T10:30:00",
        "America/New_York"
    )
    .is_ok());
}

#[test]
fn check_event_id_rejects_path_breakers() {
    assert!(check_event_id("").is_err());
    assert!(check_event_id("AAMkAG/a==").is_err());
    assert!(check_event_id("a b").is_err());
    assert!(check_event_id("AAMkAGFj?x").is_err());
    assert!(check_event_id("AAMkAGFjLT0x").is_ok());
}

#[test]
fn meetings_are_shown_with_their_times_and_links() {
    let ms = parse_calendar_view(VIEW_JSON).unwrap();
    let shown = list_upcoming_meetings(&ms);
    assert!(shown.starts_with("\nUpcoming meetings:\n------"), "{}", shown);
    assert!(
        shown.contains(
            "Standup (org: Doe, Jane) [online]\n  When: 2026-09-24T09:00:00.0000000 – 2026-09-24T09:15:00.0000000\n"
        ),
        "{}",
        shown
    );
    assert!(
        shown.contains("(no subject)\n  When: 2026-09-25T12:00:00.0000000\n  Join: (no Teams link)\n\n"),
        "{}",
        shown
    );
    assert!(shown.ends_with("(no subject)\n  When: unscheduled\n  Join: (no Teams link)\n\n"));
    let none = list_upcoming_meetings(&Vec::new());
    assert!(none.ends_with("-\n  (none in the next 7 days)\n"), "{}", none);
}

#[test]
fn dates_cross_months_years_and_leap_days() {
    assert_eq!(civil_from_days(719_468 + 0), (1970, 1, 1));
    assert_eq!(civil_from_days(719_468 + 59), (1970, 3, 1));
    assert_eq!(civil_from_days(719_468 + 364), (1970, 12, 31));
    assert_eq!(civil_from_days(719_468 + 11_016), (2000, 2, 29));
    assert_eq!(civil_from_days(719_468 + 11_017), (2000, 3, 1));
    assert_eq!(civil_from_days(719_468 + 47_540), (2100, 2, 28));
    assert_eq!(civil_from_days(719_468 + 47_541), (2100, 3, 1));
}

#[test]
fn join_links_decode_before_they_are_told_apart() {
    let t = classify_link("https://x", "https://x");
    assert_eq!(t.kind, "url");
    assert_eq!(t.url, "https://x");
    let t = parse_join_url("https://teams.microsoft.com/l/meetup-join/19%3Aa%40thread.v2/0");
    assert_eq!(t.thread_id.as_deref(), Some("19:a@thread.v2"));
}

#[test]
fn week_requests_take_one_to_31_days() {
    assert_eq!(list_week_meetings_data(0, 0, 10).unwrap_err(), "days must be 1..=31");
    assert_eq!(list_week_meetings_data(0, 32, 10).unwrap_err(), "days must be 1..=31");
    let path = list_week_meetings_data(0, 1, 10).unwrap();
    assert_eq!(path, calweek_view_path(0, 1, 10));
    assert!(path.contains("endDateTime=1970-01-02T00%3A00%3A00Z"), "{}", path);
}

#[test]
fn schedule_errors_name_what_is_wrong() {
    let err = |s: &str, a: &str, b: &str, z: &str| validate_schedule(s, a, b, z).unwrap_err();
    let (a, b) = ("2026-09-29T10:00:00", "2026-09-29T10:30:00");
    assert_eq!(err(" ", a, b, "UTC"), "empty subject");
    assert_eq!(
        err("S", "soon", b, "UTC"),
        "start must be a Graph datetime (YYYY-MM-DDTHH:MM:SS)"
    );
    assert_eq!(
        err("S", a, "late", "UTC"),
        "end must be a Graph datetime (YYYY-MM-DDTHH:MM:SS)"
    );
    assert_eq!(err("S", b, a, "UTC"), "end must be after start");
    assert_eq!(err("S", a, b, " "), "empty time_zone");
    assert_eq!(err("S", a, b, "U TC"), "time_zone must not contain whitespace");
    let body = schedule_meeting_data(" Sync ", a, b, "UTC", false).ok().unwrap();
    assert_eq!(as_text(body.get("subject")).as_deref(), Some("Sync"));
    assert!(schedule_meeting_data("", a, b, "UTC", true).is_err());
}

#[test]
fn cancelling_needs_an_id_within_its_segment() {
    assert!(cancel_meeting_data("a b").is_err());
    assert_eq!(
        cancel_meeting_data("AAMkAGFjLT0x").unwrap(),
        "/me/calendar/events/AAMkAGFjLT0x"
    );
}
