//! Schedules, shifts and time off.
use teams_cli::api::schedule::{
    checked_team_id, list_schedule_data, list_shifts, list_shifts_data, list_timeoff_reasons_data,
    list_timesoffs_data, read_reasons_response, read_schedule_response, read_shifts_response,
    read_times_off_response, reason_from_wire, schedule_from_wire, schedule_path, shift_from_wire,
    time_off_from_wire, SchedulePart, ShiftInfo, TimeOffInfo, TimeOffReason,
};
use teams_cli::json::{parse_json, Json};

fn parsed(text: &str) -> Json {
    parse_json(text).unwrap()
}

#[test]
fn checked_team_id_rejects_blank_pre_network() {
    assert!(checked_team_id("").is_err());
    assert!(checked_team_id("   ").is_err());
    assert_eq!(checked_team_id("  t1 ").unwrap(), "t1");
}

#[test]
fn fixture_schedule_shifts_timesoff_reasons_parse() {
    let schedule = read_schedule_response(&parsed(r#"{"enabled":true,"timeZone":"America/New_York","provisionStatus":"Completed"}"#)).unwrap();
    let info = schedule_from_wire(&schedule);
    assert!(info.enabled);
    assert_eq!(info.time_zone.as_deref(), Some("America/New_York"));

    let shifts = read_shifts_response(&parsed(r#"{"value":[
            {"id":"s1","userId":"u1",
             "sharedShift":{"startDateTime":"2026-09-28T09:00:00",
              "endDateTime":"2026-09-28T17:00:00",
              "displayName":"Morning","theme":"blue","notes":"front desk"}},
            {"id":"s2","userId":"u2",
             "draftShift":{"startDateTime":"2026-09-29T09:00:00",
              "endDateTime":"2026-09-29T17:00:00"}}]}"#)).unwrap();
    let rows: Vec<ShiftInfo> = shifts.value.iter().map(shift_from_wire).collect();
    assert_eq!(rows.len(), 2);
    assert_eq!(rows[0].display_name, "Morning");
    assert_eq!(rows[0].theme.as_deref(), Some("blue"));
    assert!(!rows[0].is_draft);
    assert!(rows[1].is_draft);
    assert_eq!(rows[1].display_name, "");

    let offs = read_times_off_response(&parsed(r#"{"value":[
            {"id":"o1","userId":"u1","timeOffReasonId":"r1",
             "sharedTimeOff":{"startDateTime":"2026-09-30T00:00:00",
              "endDateTime":"2026-10-01T00:00:00"}}]}"#)).unwrap();
    let off_rows: Vec<TimeOffInfo> =
        offs.value.iter().map(time_off_from_wire).collect();
    assert_eq!(off_rows.len(), 1);
    assert_eq!(off_rows[0].reason_id.as_deref(), Some("r1"));
    assert!(!off_rows[0].is_draft);

    let reasons = read_reasons_response(&parsed(r#"{"value":[
            {"id":"r1","displayName":"Vacation","code":"V"},
            {"id":"r2"}]}"#)).unwrap();
    let reason_rows: Vec<TimeOffReason> =
        reasons.value.iter().map(reason_from_wire).collect();
    assert_eq!(reason_rows.len(), 2);
    assert_eq!(reason_rows[0].name, "Vacation");
    assert_eq!(reason_rows[1].name, "r2");
}

#[test]
fn shared_slot_wins_over_draft() {
    let shifts = read_shifts_response(&parsed(r#"{"value":[{"id":"s9",
            "sharedShift":{"displayName":"Shared"},
            "draftShift":{"displayName":"Draft"}}]}"#)).unwrap();
    let rows: Vec<ShiftInfo> = shifts.value.iter().map(shift_from_wire).collect();
    assert_eq!(rows[0].display_name, "Shared");
    assert!(!rows[0].is_draft);
}

#[test]
fn schedules_are_shown_with_shifts_and_time_off() {
    let schedule = list_schedule_data(br#"{"enabled":true}"#).ok().unwrap();
    let shifts = list_shifts_data(
        br#"{"value":[{"id":"s","draftShift":{"displayName":"Late","startDateTime":"a"}}]}"#,
    )
    .ok()
    .unwrap();
    let offs = list_timesoffs_data(
        br#"{"value":[{"id":"o","sharedTimeOff":{"startDateTime":"b","endDateTime":"c"}}]}"#,
    )
    .ok()
    .unwrap();
    let shown = list_shifts(&schedule, &shifts, &offs);
    assert!(shown.starts_with("\nTeam Schedule (enabled: true):\n-----"), "{}", shown);
    assert!(shown.ends_with("-\n  Late a -> ? (draft)\n  time-off b -> c \n"), "{}", shown);
    let none = list_shifts(&schedule, &Vec::new(), &Vec::new());
    assert!(none.ends_with("-\n  (no shifts or time-off found)\n"), "{}", none);
}

#[test]
fn schedule_parts_have_their_paths_and_errors() {
    assert_eq!(schedule_path(" t1 ", SchedulePart::Shifts).unwrap(), "/teams/t1/schedule/shifts");
    assert!(schedule_path(" ", SchedulePart::Shifts).is_err());
    assert!(list_schedule_data(b"nope").is_err());
    assert!(list_shifts_data(b"{}").is_err());
    assert!(list_timesoffs_data(b"{}").is_err());
    assert!(list_timeoff_reasons_data(b"{}").is_err());
}
