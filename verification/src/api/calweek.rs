//! The week view of the calendar, and scheduling a meeting.
use crate::api::calendar;
use crate::api::calendar::{MeetingInfo, MeetingInfoV};
use crate::json;
use crate::json::{Fields, FieldsV, Json, JsonV};
use crate::order;
use crate::text;
use crate::web;
use vstd::utf8::encode_utf8;
use vstd::prelude::*;

verus! {

/// The path of the meetings from a second on.
pub fn calweek_view_path(start_secs: u64, days: u64, limit: usize) -> (r: String)
    ensures
        r@ == calendar::view_path(start_secs as nat, week_end(start_secs, days), limit as nat),
{
    let length = calendar::window_seconds(days);
    let end: u64 = if length > u64::MAX - start_secs {
        u64::MAX
    } else {
        start_secs + length
    };
    calendar::window_path(start_secs, end, limit)
}

/// The second at which a window of days ends, as far as it can be counted.
pub open spec fn week_end(start_secs: u64, days: u64) -> nat {
    if start_secs + calendar::window_length(days) > u64::MAX {
        u64::MAX as nat
    } else {
        (start_secs + calendar::window_length(days)) as nat
    }
}

/// The path of the meetings of one to 31 days; the error is the text to show.
pub fn list_week_meetings_data(start_secs: u64, days: u64, limit: usize) -> (r: Result<
    String,
    String,
>)
    ensures
        match r {
            Ok(p) => 1 <= days <= 31 && p@ == calendar::view_path(
                start_secs as nat,
                week_end(start_secs, days),
                limit as nat,
            ),
            Err(e) => !(1 <= days <= 31) && e@ == "days must be 1..=31"@,
        },
{
    if days == 0 || days > 31 {
        return Err("days must be 1..=31".to_string());
    }
    Ok(calweek_view_path(start_secs, days, limit))
}

/// True of a text that has the length of a time and a `T` in it.
pub open spec fn is_datetime(s: Seq<char>) -> bool {
    encode_utf8(s).len() >= 16 && s.contains('T')
}

/// Why a meeting cannot be scheduled; nothing of one that can. Times of the same
/// form order as texts do.
pub open spec fn schedule_error(
    subject: Seq<char>,
    start: Seq<char>,
    end: Seq<char>,
    time_zone: Seq<char>,
) -> Option<Seq<char>> {
    if text::blank(subject) {
        Some("empty subject"@)
    } else if !is_datetime(start) {
        Some("start must be a Graph datetime (YYYY-MM-DDTHH:MM:SS)"@)
    } else if !is_datetime(end) {
        Some("end must be a Graph datetime (YYYY-MM-DDTHH:MM:SS)"@)
    } else if !order::text_less(start, end) {
        Some("end must be after start"@)
    } else if text::blank(time_zone) {
        Some("empty time_zone"@)
    } else if text::has_space(time_zone) {
        Some("time_zone must not contain whitespace"@)
    } else {
        None
    }
}

fn datetime(s: &str) -> (r: bool)
    ensures
        r == is_datetime(s@),
{
    s.as_bytes().len() >= 16 && text::contains_char(s, 'T')
}

/// Checks what a meeting is to be scheduled with; the error is the text to show.
pub fn validate_schedule(subject: &str, start: &str, end: &str, time_zone: &str) -> (r: Result<
    (),
    String,
>)
    ensures
        match r {
            Ok(_) => schedule_error(subject@, start@, end@, time_zone@) is None,
            Err(e) => schedule_error(subject@, start@, end@, time_zone@) == Some(e@),
        },
{
    if text::is_blank(subject) {
        return Err("empty subject".to_string());
    }
    if !datetime(start) {
        return Err("start must be a Graph datetime (YYYY-MM-DDTHH:MM:SS)".to_string());
    }
    if !datetime(end) {
        return Err("end must be a Graph datetime (YYYY-MM-DDTHH:MM:SS)".to_string());
    }
    if !order::less(start, end) {
        return Err("end must be after start".to_string());
    }
    if text::is_blank(time_zone) {
        return Err("empty time_zone".to_string());
    }
    if text::contains_space(time_zone) {
        return Err("time_zone must not contain whitespace".to_string());
    }
    Ok(())
}

/// The body that schedules a meeting, up to what makes it an online one.
pub open spec fn event_fields(
    subject: Seq<char>,
    start: Seq<char>,
    end: Seq<char>,
    time_zone: Seq<char>,
) -> FieldsV {
    FieldsV::new().text("subject"@, subject).put(
        "start"@,
        FieldsV::new().text("dateTime"@, start).text("timeZone"@, time_zone).obj(),
    ).put("end"@, FieldsV::new().text("dateTime"@, end).text("timeZone"@, time_zone).obj())
}

/// The body that schedules a meeting.
pub open spec fn event_body(
    subject: Seq<char>,
    start: Seq<char>,
    end: Seq<char>,
    time_zone: Seq<char>,
    online: bool,
) -> JsonV {
    let f = event_fields(subject, start, end, time_zone);
    if online {
        f.flag("isOnlineMeeting"@, true).text("onlineMeetingProvider"@, "teamsForBusiness"@).obj()
    } else {
        f.obj()
    }
}

/// Builds the body that schedules a meeting; an online one is asked for as a
/// Teams meeting.
pub fn schedule_event_body(
    subject: &str,
    start: &str,
    end: &str,
    time_zone: &str,
    online: bool,
) -> (r: Json)
    ensures
        r@ == event_body(subject@, start@, end@, time_zone@, online),
{
    let mut from = Fields::new();
    from.text("dateTime", start);
    from.text("timeZone", time_zone);
    let mut to = Fields::new();
    to.text("dateTime", end);
    to.text("timeZone", time_zone);
    let mut o = Fields::new();
    o.text("subject", subject);
    o.put("start", from.obj());
    o.put("end", to.obj());
    if online {
        o.flag("isOnlineMeeting", true);
        o.text("onlineMeetingProvider", "teamsForBusiness");
    }
    o.obj()
}

/// The body that schedules a meeting, its subject without white space around it;
/// the error is the text to show.
pub fn schedule_meeting_data(
    subject: &str,
    start: &str,
    end: &str,
    time_zone: &str,
    online: bool,
) -> (r: Result<Json, String>)
    ensures
        match r {
            Ok(b) => schedule_error(subject@, start@, end@, time_zone@) is None && b@ == event_body(
                text::trimmed(subject@),
                start@,
                end@,
                time_zone@,
                online,
            ),
            Err(e) => schedule_error(subject@, start@, end@, time_zone@) == Some(e@),
        },
{
    match validate_schedule(subject, start, end, time_zone) {
        Ok(_) => {
            let t = text::trim(subject);
            Ok(schedule_event_body(t.as_str(), start, end, time_zone, online))
        },
        Err(e) => Err(e),
    }
}

/// The meeting of a created event; nothing where the event is of another form,
/// or nests more deeply than the parser of its list goes.
pub open spec fn created_meeting(v: JsonV) -> Option<MeetingInfoV> {
    if !json::nested_within(v, 125) {
        None
    } else {
        match calendar::calendar_event_of(v) {
            Some(e) => Some(calendar::meeting_of(e)),
            None => None,
        }
    }
}

/// Reads a created event.
pub fn parse_created_event(event: &serde_json::Value) -> (r: Result<MeetingInfo, String>)
    ensures
        match r {
            Ok(m) => created_meeting(json::held_json(*event)) == Some(m@),
            Err(e) => created_meeting(json::held_json(*event)) is None && e@
                == "Failed to parse calendarView response"@,
        },
{
    let v = json::from_value(event);
    if json::nests_within(&v, 125) {
        if let Some(e) = calendar::read_calendar_event(&v) {
            return Ok(calendar::meeting_info(&e));
        }
    }
    Err("Failed to parse calendarView response".to_string())
}

/// Where an event is created.
pub const EVENTS_PATH: &'static str = "/me/calendar/events";

/// Reads the bytes of the reply to the creation of an event; the error is the text to
/// show.
pub fn read_created_event_reply(body: &[u8]) -> (r: Result<MeetingInfo, String>)
    ensures
        match json::json_bytes(body@) {
            Some(v) => match r {
                Ok(m) => created_meeting(v) == Some(m@),
                Err(e) => created_meeting(v) is None && e@
                    == "Failed to parse calendarView response"@,
            },
            None => r matches Err(e) && e@ == "Failed to parse created event response"@,
        },
{
    match json::value_from_bytes(body) {
        Some(v) => parse_created_event(&v),
        None => Err("Failed to parse created event response".to_string()),
    }
}

/// Refuses ids of events that would break out of their path segment.
pub fn check_event_id(id: &str) -> (r: Result<(), String>)
    ensures
        match r {
            Ok(_) => web::id_error("event_id"@, id@) is None,
            Err(e) => web::id_error("event_id"@, id@) == Some(e@),
        },
{
    web::check_id("event_id", id)
}

/// The path that cancels a meeting; the error is the text to show.
pub fn cancel_meeting_data(event_id: &str) -> (r: Result<String, String>)
    ensures
        match r {
            Ok(p) => web::id_error("event_id"@, event_id@) is None && p@ == "/me/calendar/events/"@
                + event_id@,
            Err(e) => web::id_error("event_id"@, event_id@) == Some(e@),
        },
{
    match check_event_id(event_id) {
        Ok(_) => Ok(text::join2("/me/calendar/events/", event_id)),
        Err(e) => Err(e),
    }
}

/// The times of a scheduled meeting are those that were asked for, in the time zone
/// that was: it begins at the start and ends at the end. It is held online exactly
/// where that was asked for.
pub proof fn law_meeting_has_its_times(
    subject: Seq<char>,
    start: Seq<char>,
    end: Seq<char>,
    time_zone: Seq<char>,
    online: bool,
)
    ensures
        ({
            let b = event_body(subject, start, end, time_zone, online);
            &&& json::str_of(json::get_of(b, "subject"@)) == Some(subject)
            &&& json::str_of(json::get2_of(b, "start"@, "dateTime"@)) == Some(start)
            &&& json::str_of(json::get2_of(b, "end"@, "dateTime"@)) == Some(end)
            &&& json::str_of(json::get2_of(b, "start"@, "timeZone"@)) == Some(time_zone)
            &&& json::str_of(json::get2_of(b, "end"@, "timeZone"@)) == Some(time_zone)
            &&& online <==> json::get_of(b, "isOnlineMeeting"@) == Some(JsonV::Bool(true))
            &&& online <==> json::str_of(json::get_of(b, "onlineMeetingProvider"@))
                == Some("teamsForBusiness"@)
            &&& !online ==> json::get_of(b, "isOnlineMeeting"@) is None
        }),
{
    broadcast use json::group_members;

    reveal_strlit("subject");
    reveal_strlit("start");
    reveal_strlit("dateTime");
    reveal_strlit("timeZone");
    reveal_strlit("end");
    reveal_strlit("isOnlineMeeting");
    reveal_strlit("onlineMeetingProvider");
    assert("subject"@.len() == 7);
    assert("start"@.len() == 5);
    assert("dateTime"@.len() == 8 && "dateTime"@[0] == 'd');
    assert("timeZone"@.len() == 8 && "timeZone"@[0] == 't');
    assert("end"@.len() == 3);
    assert("isOnlineMeeting"@.len() == 15);
    assert("onlineMeetingProvider"@.len() == 21);
}

/// A meeting can be scheduled where, and only where, it has a subject, both times are
/// dates with times, the end stands behind the start, and the time zone is one word.
pub proof fn law_schedulable_meetings(
    subject: Seq<char>,
    start: Seq<char>,
    end: Seq<char>,
    time_zone: Seq<char>,
    online: bool,
)
    ensures
        schedule_error(subject, start, end, time_zone) is None <==> {
            &&& !text::blank(subject)
            &&& encode_utf8(start).len() >= 16 && start.contains('T')
            &&& encode_utf8(end).len() >= 16 && end.contains('T')
            &&& order::text_less(start, end)
            &&& !text::blank(time_zone) && !text::has_space(time_zone)
        },
        schedule_error(subject, start, end, time_zone) is None ==> ({
            let b = event_body(subject, start, end, time_zone, online);
            json::str_of(json::get2_of(b, "start"@, "dateTime"@)) matches Some(from)
                && json::str_of(json::get2_of(b, "end"@, "dateTime"@)) matches Some(to)
                && order::text_less(from, to)
        }),
        text::blank(subject) ==> schedule_error(subject, start, end, time_zone) == Some(
            "empty subject"@,
        ),
        schedule_error(subject, start, end, time_zone) == Some("end must be after start"@)
            ==> !order::text_less(start, end),
        !text::blank(subject) && is_datetime(start) && is_datetime(end) && !order::text_less(
            start,
            end,
        ) ==> schedule_error(subject, start, end, time_zone) == Some("end must be after start"@),
{
    law_meeting_has_its_times(subject, start, end, time_zone, online);
    assert("end must be after start"@.len() == 23) by {
        reveal_strlit("end must be after start");
    }
    assert("empty subject"@.len() == 13) by {
        reveal_strlit("empty subject");
    }
    assert("empty time_zone"@.len() == 15) by {
        reveal_strlit("empty time_zone");
    }
    assert("time_zone must not contain whitespace"@.len() == 37) by {
        reveal_strlit("time_zone must not contain whitespace");
    }
    assert("start must be a Graph datetime (YYYY-MM-DDTHH:MM:SS)"@.len() == 52) by {
        reveal_strlit("start must be a Graph datetime (YYYY-MM-DDTHH:MM:SS)");
    }
    assert("end must be a Graph datetime (YYYY-MM-DDTHH:MM:SS)"@.len() == 50) by {
        reveal_strlit("end must be a Graph datetime (YYYY-MM-DDTHH:MM:SS)");
    }
}

/// A view of some days ends as many days after it begins, or where a clock ends.
pub proof fn law_week_ends_after_its_days(start: u64, days: u64)
    ensures
        start + days * 86400 <= u64::MAX ==> week_end(start, days) == start + days * 86400,
        start + days * 86400 > u64::MAX ==> week_end(start, days) == u64::MAX,
{
}

/// A meeting that was made is shown as any other.
pub proof fn law_made_meeting_is_shown(v: JsonV, e: calendar::CalendarEventV)
    ensures
        json::nested_within(v, 125) && calendar::calendar_event_of(v) == Some(e)
            ==> created_meeting(
            v,
        ) == Some(calendar::meeting_of(e)),
        calendar::calendar_event_of(v) is None ==> created_meeting(v) is None,
{
}

} // verus!
