//! Upcoming meetings, links that join a meeting, and the states of joining one.
use crate::dates;
use crate::json;
use crate::json::{Json, JsonV};
use crate::text;
use crate::web;
use vstd::utf8::{decode_utf8, encode_utf8, valid_utf8};
use vstd::prelude::*;

verus! {

/// A time of the calendar and its zone.
pub struct DateTimeTimeZone {
    pub date_time: Option<String>,
    pub time_zone: Option<String>,
}

/// The model of [`DateTimeTimeZone`].
pub struct DateTimeTimeZoneV {
    pub date_time: Option<Seq<char>>,
    pub time_zone: Option<Seq<char>>,
}

impl View for DateTimeTimeZone {
    type V = DateTimeTimeZoneV;

    open spec fn view(&self) -> DateTimeTimeZoneV {
        DateTimeTimeZoneV {
            date_time: text::opt_text(self.date_time),
            time_zone: text::opt_text(self.time_zone),
        }
    }
}

/// An optional [`DateTimeTimeZone`] by its model.
pub open spec fn opt_date_time_time_zone(o: Option<DateTimeTimeZone>) -> Option<DateTimeTimeZoneV> {
    match o {
        Some(x) => Some(x@),
        None => None,
    }
}

/// How a JSON value reads as a [`DateTimeTimeZone`]; nothing where it does not.
pub open spec fn date_time_time_zone_of(v: JsonV) -> Option<DateTimeTimeZoneV> {
    if !json::record_form(v, 2, 2) {
        None
    } else {
        match (
            json::opt_text_member(json::member_of(v, "dateTime"@, 0)),
            json::opt_text_member(json::member_of(v, "timeZone"@, 1)),
        ) {
            (Some(date_time), Some(time_zone)) => Some(DateTimeTimeZoneV { date_time, time_zone }),
            _ => None,
        }
    }
}

/// Reads a [`DateTimeTimeZone`].
pub fn read_date_time_time_zone(v: &Json) -> (r: Option<DateTimeTimeZone>)
    ensures
        match r {
            Some(x) => date_time_time_zone_of(v@) == Some(x@),
            None => date_time_time_zone_of(v@) is None,
        },
{
    if !json::has_record_form(v, 2, 2) {
        return None;
    }
    let date_time = match json::read_opt_text(json::member(v, "dateTime", 0)) {
        Some(x) => x,
        None => {
            return None;
        },
    };
    let time_zone = match json::read_opt_text(json::member(v, "timeZone", 1)) {
        Some(x) => x,
        None => {
            return None;
        },
    };
    Some(DateTimeTimeZone { date_time, time_zone })
}

/// How an optional member reads as a [`DateTimeTimeZone`].
pub open spec fn opt_date_time_time_zone_member(m: Option<JsonV>) -> Option<
    Option<DateTimeTimeZoneV>,
> {
    match m {
        None => Some(None),
        Some(JsonV::Null) => Some(None),
        Some(j) => match date_time_time_zone_of(j) {
            Some(x) => Some(Some(x)),
            None => None,
        },
    }
}

fn read_opt_date_time_time_zone(m: Option<&Json>) -> (r: Option<Option<DateTimeTimeZone>>)
    ensures
        match r {
            Some(o) => opt_date_time_time_zone_member(json::opt_json(m)) == Some(
                opt_date_time_time_zone(o),
            ),
            None => opt_date_time_time_zone_member(json::opt_json(m)) is None,
        },
{
    match m {
        None => Some(None),
        Some(j) => if j.is_null() {
            Some(None)
        } else {
            match read_date_time_time_zone(j) {
                Some(x) => Some(Some(x)),
                None => None,
            }
        },
    }
}
/// What an event says of its online meeting.
pub struct OnlineMeetingInfo {
    pub join_url: Option<String>,
}

/// The model of [`OnlineMeetingInfo`].
pub struct OnlineMeetingInfoV {
    pub join_url: Option<Seq<char>>,
}

impl View for OnlineMeetingInfo {
    type V = OnlineMeetingInfoV;

    open spec fn view(&self) -> OnlineMeetingInfoV {
        OnlineMeetingInfoV {
            join_url: text::opt_text(self.join_url),
        }
    }
}

/// An optional [`OnlineMeetingInfo`] by its model.
pub open spec fn opt_online_meeting_info(o: Option<OnlineMeetingInfo>) -> Option<
    OnlineMeetingInfoV,
> {
    match o {
        Some(x) => Some(x@),
        None => None,
    }
}

/// How a JSON value reads as a [`OnlineMeetingInfo`]; nothing where it does not.
pub open spec fn online_meeting_info_of(v: JsonV) -> Option<OnlineMeetingInfoV> {
    if !json::record_form(v, 1, 1) {
        None
    } else {
        match json::opt_text_member(json::member_of(v, "joinUrl"@, 0)) {
            Some(join_url) => Some(OnlineMeetingInfoV { join_url }),
            None => None,
        }
    }
}

/// Reads a [`OnlineMeetingInfo`].
pub fn read_online_meeting_info(v: &Json) -> (r: Option<OnlineMeetingInfo>)
    ensures
        match r {
            Some(x) => online_meeting_info_of(v@) == Some(x@),
            None => online_meeting_info_of(v@) is None,
        },
{
    if !json::has_record_form(v, 1, 1) {
        return None;
    }
    let join_url = match json::read_opt_text(json::member(v, "joinUrl", 0)) {
        Some(x) => x,
        None => {
            return None;
        },
    };
    Some(OnlineMeetingInfo { join_url })
}

/// How an optional member reads as a [`OnlineMeetingInfo`].
pub open spec fn opt_online_meeting_info_member(m: Option<JsonV>) -> Option<
    Option<OnlineMeetingInfoV>,
> {
    match m {
        None => Some(None),
        Some(JsonV::Null) => Some(None),
        Some(j) => match online_meeting_info_of(j) {
            Some(x) => Some(Some(x)),
            None => None,
        },
    }
}

fn read_opt_online_meeting_info(m: Option<&Json>) -> (r: Option<Option<OnlineMeetingInfo>>)
    ensures
        match r {
            Some(o) => opt_online_meeting_info_member(json::opt_json(m)) == Some(
                opt_online_meeting_info(o),
            ),
            None => opt_online_meeting_info_member(json::opt_json(m)) is None,
        },
{
    match m {
        None => Some(None),
        Some(j) => if j.is_null() {
            Some(None)
        } else {
            match read_online_meeting_info(j) {
                Some(x) => Some(Some(x)),
                None => None,
            }
        },
    }
}
/// A name and an address.
pub struct EmailAddress {
    pub name: Option<String>,
    pub address: Option<String>,
}

/// The model of [`EmailAddress`].
pub struct EmailAddressV {
    pub name: Option<Seq<char>>,
    pub address: Option<Seq<char>>,
}

impl View for EmailAddress {
    type V = EmailAddressV;

    open spec fn view(&self) -> EmailAddressV {
        EmailAddressV {
            name: text::opt_text(self.name),
            address: text::opt_text(self.address),
        }
    }
}

/// An optional [`EmailAddress`] by its model.
pub open spec fn opt_email_address(o: Option<EmailAddress>) -> Option<EmailAddressV> {
    match o {
        Some(x) => Some(x@),
        None => None,
    }
}

/// How a JSON value reads as a [`EmailAddress`]; nothing where it does not.
pub open spec fn email_address_of(v: JsonV) -> Option<EmailAddressV> {
    if !json::record_form(v, 2, 2) {
        None
    } else {
        match (
            json::opt_text_member(json::member_of(v, "name"@, 0)),
            json::opt_text_member(json::member_of(v, "address"@, 1)),
        ) {
            (Some(name), Some(address)) => Some(EmailAddressV { name, address }),
            _ => None,
        }
    }
}

/// Reads a [`EmailAddress`].
pub fn read_email_address(v: &Json) -> (r: Option<EmailAddress>)
    ensures
        match r {
            Some(x) => email_address_of(v@) == Some(x@),
            None => email_address_of(v@) is None,
        },
{
    if !json::has_record_form(v, 2, 2) {
        return None;
    }
    let name = match json::read_opt_text(json::member(v, "name", 0)) {
        Some(x) => x,
        None => {
            return None;
        },
    };
    let address = match json::read_opt_text(json::member(v, "address", 1)) {
        Some(x) => x,
        None => {
            return None;
        },
    };
    Some(EmailAddress { name, address })
}

/// How an optional member reads as a [`EmailAddress`].
pub open spec fn opt_email_address_member(m: Option<JsonV>) -> Option<Option<EmailAddressV>> {
    match m {
        None => Some(None),
        Some(JsonV::Null) => Some(None),
        Some(j) => match email_address_of(j) {
            Some(x) => Some(Some(x)),
            None => None,
        },
    }
}

fn read_opt_email_address(m: Option<&Json>) -> (r: Option<Option<EmailAddress>>)
    ensures
        match r {
            Some(o) => opt_email_address_member(json::opt_json(m)) == Some(opt_email_address(o)),
            None => opt_email_address_member(json::opt_json(m)) is None,
        },
{
    match m {
        None => Some(None),
        Some(j) => if j.is_null() {
            Some(None)
        } else {
            match read_email_address(j) {
                Some(x) => Some(Some(x)),
                None => None,
            }
        },
    }
}
/// Who called a meeting.
pub struct OrganizerInfo {
    pub email_address: Option<EmailAddress>,
}

/// The model of [`OrganizerInfo`].
pub struct OrganizerInfoV {
    pub email_address: Option<EmailAddressV>,
}

impl View for OrganizerInfo {
    type V = OrganizerInfoV;

    open spec fn view(&self) -> OrganizerInfoV {
        OrganizerInfoV {
            email_address: opt_email_address(self.email_address),
        }
    }
}

/// An optional [`OrganizerInfo`] by its model.
pub open spec fn opt_organizer_info(o: Option<OrganizerInfo>) -> Option<OrganizerInfoV> {
    match o {
        Some(x) => Some(x@),
        None => None,
    }
}

/// How a JSON value reads as a [`OrganizerInfo`]; nothing where it does not.
pub open spec fn organizer_info_of(v: JsonV) -> Option<OrganizerInfoV> {
    if !json::record_form(v, 1, 1) {
        None
    } else {
        match opt_email_address_member(json::member_of(v, "emailAddress"@, 0)) {
            Some(email_address) => Some(OrganizerInfoV { email_address }),
            None => None,
        }
    }
}

/// Reads a [`OrganizerInfo`].
pub fn read_organizer_info(v: &Json) -> (r: Option<OrganizerInfo>)
    ensures
        match r {
            Some(x) => organizer_info_of(v@) == Some(x@),
            None => organizer_info_of(v@) is None,
        },
{
    if !json::has_record_form(v, 1, 1) {
        return None;
    }
    let email_address = match read_opt_email_address(json::member(v, "emailAddress", 0)) {
        Some(x) => x,
        None => {
            return None;
        },
    };
    Some(OrganizerInfo { email_address })
}

/// How an optional member reads as a [`OrganizerInfo`].
pub open spec fn opt_organizer_info_member(m: Option<JsonV>) -> Option<Option<OrganizerInfoV>> {
    match m {
        None => Some(None),
        Some(JsonV::Null) => Some(None),
        Some(j) => match organizer_info_of(j) {
            Some(x) => Some(Some(x)),
            None => None,
        },
    }
}

fn read_opt_organizer_info(m: Option<&Json>) -> (r: Option<Option<OrganizerInfo>>)
    ensures
        match r {
            Some(o) => opt_organizer_info_member(json::opt_json(m)) == Some(opt_organizer_info(o)),
            None => opt_organizer_info_member(json::opt_json(m)) is None,
        },
{
    match m {
        None => Some(None),
        Some(j) => if j.is_null() {
            Some(None)
        } else {
            match read_organizer_info(j) {
                Some(x) => Some(Some(x)),
                None => None,
            }
        },
    }
}
/// An event of the calendar.
pub struct CalendarEvent {
    pub id: String,
    pub subject: Option<String>,
    pub is_online_meeting: Option<bool>,
    pub online_meeting: Option<OnlineMeetingInfo>,
    pub start: Option<DateTimeTimeZone>,
    pub end: Option<DateTimeTimeZone>,
    pub organizer: Option<OrganizerInfo>,
    pub web_link: Option<String>,
}

/// The model of [`CalendarEvent`].
pub struct CalendarEventV {
    pub id: Seq<char>,
    pub subject: Option<Seq<char>>,
    pub is_online_meeting: Option<bool>,
    pub online_meeting: Option<OnlineMeetingInfoV>,
    pub start: Option<DateTimeTimeZoneV>,
    pub end: Option<DateTimeTimeZoneV>,
    pub organizer: Option<OrganizerInfoV>,
    pub web_link: Option<Seq<char>>,
}

impl View for CalendarEvent {
    type V = CalendarEventV;

    open spec fn view(&self) -> CalendarEventV {
        CalendarEventV {
            id: self.id@,
            subject: text::opt_text(self.subject),
            is_online_meeting: self.is_online_meeting,
            online_meeting: opt_online_meeting_info(self.online_meeting),
            start: opt_date_time_time_zone(self.start),
            end: opt_date_time_time_zone(self.end),
            organizer: opt_organizer_info(self.organizer),
            web_link: text::opt_text(self.web_link),
        }
    }
}

/// A list of [`CalendarEvent`] by their models.
pub open spec fn calendar_event_views(v: Seq<CalendarEvent>) -> Seq<CalendarEventV> {
    Seq::new(v.len(), |i: int| v[i]@)
}

/// How a JSON value reads as a [`CalendarEvent`]; nothing where it does not.
pub open spec fn calendar_event_of(v: JsonV) -> Option<CalendarEventV> {
    if !json::record_form(v, 8, 8) {
        None
    } else {
        match (
            json::str_of(json::member_of(v, "id"@, 0)),
            json::opt_text_member(json::member_of(v, "subject"@, 1)),
            json::opt_bool_member(json::member_of(v, "isOnlineMeeting"@, 2)),
            opt_online_meeting_info_member(json::member_of(v, "onlineMeeting"@, 3)),
            opt_date_time_time_zone_member(json::member_of(v, "start"@, 4)),
            opt_date_time_time_zone_member(json::member_of(v, "end"@, 5)),
            opt_organizer_info_member(json::member_of(v, "organizer"@, 6)),
            json::opt_text_member(json::member_of(v, "webLink"@, 7)),
        ) {
            (
                Some(id),
                Some(subject),
                Some(is_online_meeting),
                Some(online_meeting),
                Some(start),
                Some(end),
                Some(organizer),
                Some(web_link),
            ) => Some(
                CalendarEventV {
                    id,
                    subject,
                    is_online_meeting,
                    online_meeting,
                    start,
                    end,
                    organizer,
                    web_link,
                },
            ),
            _ => None,
        }
    }
}

/// Reads a [`CalendarEvent`].
pub fn read_calendar_event(v: &Json) -> (r: Option<CalendarEvent>)
    ensures
        match r {
            Some(x) => calendar_event_of(v@) == Some(x@),
            None => calendar_event_of(v@) is None,
        },
{
    if !json::has_record_form(v, 8, 8) {
        return None;
    }
    let id = match json::as_text(json::member(v, "id", 0)) {
        Some(x) => x,
        None => {
            return None;
        },
    };
    let subject = match json::read_opt_text(json::member(v, "subject", 1)) {
        Some(x) => x,
        None => {
            return None;
        },
    };
    let is_online_meeting = match json::read_opt_bool(json::member(v, "isOnlineMeeting", 2)) {
        Some(x) => x,
        None => {
            return None;
        },
    };
    let online_meeting = match read_opt_online_meeting_info(json::member(v, "onlineMeeting", 3)) {
        Some(x) => x,
        None => {
            return None;
        },
    };
    let start = match read_opt_date_time_time_zone(json::member(v, "start", 4)) {
        Some(x) => x,
        None => {
            return None;
        },
    };
    let end = match read_opt_date_time_time_zone(json::member(v, "end", 5)) {
        Some(x) => x,
        None => {
            return None;
        },
    };
    let organizer = match read_opt_organizer_info(json::member(v, "organizer", 6)) {
        Some(x) => x,
        None => {
            return None;
        },
    };
    let web_link = match json::read_opt_text(json::member(v, "webLink", 7)) {
        Some(x) => x,
        None => {
            return None;
        },
    };
    Some(
        CalendarEvent {
            id,
            subject,
            is_online_meeting,
            online_meeting,
            start,
            end,
            organizer,
            web_link,
        },
    )
}

/// How a list of JSON values reads as a list of [`CalendarEvent`]: all of them or none.
pub open spec fn calendar_event_list(a: Seq<JsonV>) -> Option<Seq<CalendarEventV>>
    decreases a.len(),
{
    if a.len() == 0 {
        Some(Seq::empty())
    } else {
        match (calendar_event_list(a.drop_last()), calendar_event_of(a.last())) {
            (Some(l), Some(x)) => Some(l.push(x)),
            _ => None,
        }
    }
}

proof fn lemma_calendar_event_list_prefix(a: Seq<JsonV>, i: int)
    requires
        0 <= i <= a.len(),
        calendar_event_list(a.take(i)) is None,
    ensures
        calendar_event_list(a) is None,
    decreases a.len() - i,
{
    if i < a.len() {
        assert(a.take(i + 1).drop_last() =~= a.take(i));
        lemma_calendar_event_list_prefix(a, i + 1);
    } else {
        assert(a.take(i) =~= a);
    }
}

fn read_calendar_event_list(a: &Vec<Json>) -> (r: Option<Vec<CalendarEvent>>)
    ensures
        match r {
            Some(l) => calendar_event_list(json::items_view(a@)) == Some(calendar_event_views(l@)),
            None => calendar_event_list(json::items_view(a@)) is None,
        },
{
    let ghost all = json::items_view(a@);
    let mut out: Vec<CalendarEvent> = Vec::new();
    let mut i: usize = 0;
    proof {
        assert(all.take(0) =~= Seq::empty());
        assert(calendar_event_views(out@) =~= Seq::empty());
    }
    while i < a.len()
        invariant
            i <= a@.len(),
            all == json::items_view(a@),
            calendar_event_list(all.take(i as int)) == Some(calendar_event_views(out@)),
        decreases a@.len() - i,
    {
        proof {
            assert(all.take(i + 1).drop_last() =~= all.take(i as int));
            assert(all.take(i + 1).last() == a@[i as int]@);
        }
        match read_calendar_event(&a[i]) {
            Some(x) => {
                let ghost before = out@;
                out.push(x);
                proof {
                    assert(calendar_event_views(out@) =~= calendar_event_views(before).push(x@));
                }
            },
            None => {
                proof {
                    lemma_calendar_event_list_prefix(all, i + 1);
                }
                return None;
            },
        }
        i = i + 1;
    }
    proof {
        assert(all.take(i as int) =~= all);
    }
    Some(out)
}

/// How a required list member reads.
pub open spec fn calendar_event_list_member(m: Option<JsonV>) -> Option<Seq<CalendarEventV>> {
    match m {
        Some(JsonV::Arr(a)) => calendar_event_list(a),
        _ => None,
    }
}

fn read_calendar_event_list_member(m: Option<&Json>) -> (r: Option<Vec<CalendarEvent>>)
    ensures
        match r {
            Some(l) => calendar_event_list_member(json::opt_json(m)) == Some(
                calendar_event_views(l@),
            ),
            None => calendar_event_list_member(json::opt_json(m)) is None,
        },
{
    match m {
        Some(Json::Arr(a)) => {
            proof {
                json::lemma_arr_view(*a);
            }
            read_calendar_event_list(a)
        },
        _ => None,
    }
}
/// The reply to a request for a stretch of the calendar.
pub struct CalendarViewResponse {
    pub value: Vec<CalendarEvent>,
}

/// The model of [`CalendarViewResponse`].
pub struct CalendarViewResponseV {
    pub value: Seq<CalendarEventV>,
}

impl View for CalendarViewResponse {
    type V = CalendarViewResponseV;

    open spec fn view(&self) -> CalendarViewResponseV {
        CalendarViewResponseV {
            value: calendar_event_views(self.value@),
        }
    }
}

/// How a JSON value reads as a [`CalendarViewResponse`]; nothing where it does not.
pub open spec fn calendar_view_response_of(v: JsonV) -> Option<CalendarViewResponseV> {
    if !json::record_form(v, 1, 1) {
        None
    } else {
        match calendar_event_list_member(json::member_of(v, "value"@, 0)) {
            Some(value) => Some(CalendarViewResponseV { value }),
            None => None,
        }
    }
}

/// Reads a [`CalendarViewResponse`].
pub fn read_calendar_view_response(v: &Json) -> (r: Option<CalendarViewResponse>)
    ensures
        match r {
            Some(x) => calendar_view_response_of(v@) == Some(x@),
            None => calendar_view_response_of(v@) is None,
        },
{
    if !json::has_record_form(v, 1, 1) {
        return None;
    }
    let value = match read_calendar_event_list_member(json::member(v, "value", 0)) {
        Some(x) => x,
        None => {
            return None;
        },
    };
    Some(CalendarViewResponse { value })
}
/// What a list of meetings shows of one.
pub struct MeetingInfo {
    pub id: String,
    pub subject: String,
    /// The start as the server gives it.
    pub start: Option<String>,
    /// The end as the server gives it.
    pub end: Option<String>,
    /// Where to join, for an event that has such an address.
    pub join_url: Option<String>,
    pub organizer: Option<String>,
    pub is_online: bool,
}

/// The model of [`MeetingInfo`].
pub struct MeetingInfoV {
    pub id: Seq<char>,
    pub subject: Seq<char>,
    pub start: Option<Seq<char>>,
    pub end: Option<Seq<char>>,
    pub join_url: Option<Seq<char>>,
    pub organizer: Option<Seq<char>>,
    pub is_online: bool,
}

impl View for MeetingInfo {
    type V = MeetingInfoV;

    open spec fn view(&self) -> MeetingInfoV {
        MeetingInfoV {
            id: self.id@,
            subject: self.subject@,
            start: text::opt_text(self.start),
            end: text::opt_text(self.end),
            join_url: text::opt_text(self.join_url),
            organizer: text::opt_text(self.organizer),
            is_online: self.is_online,
        }
    }
}
/// A list of [`MeetingInfo`] by their models.
pub open spec fn meeting_info_views(v: Seq<MeetingInfo>) -> Seq<MeetingInfoV> {
    Seq::new(v.len(), |i: int| v[i]@)
}

/// An optional text, where it is not blank.
pub open spec fn unless_blank(o: Option<Seq<char>>) -> Option<Seq<char>> {
    match o {
        Some(s) => if text::blank(s) {
            None
        } else {
            Some(s)
        },
        None => None,
    }
}

/// What a list of meetings shows of an event.
pub open spec fn meeting_of(e: CalendarEventV) -> MeetingInfoV {
    MeetingInfoV {
        id: e.id,
        subject: match unless_blank(e.subject) {
            Some(s) => s,
            None => "(no subject)"@,
        },
        start: match e.start {
            Some(t) => t.date_time,
            None => None,
        },
        end: match e.end {
            Some(t) => t.date_time,
            None => None,
        },
        join_url: match e.online_meeting {
            Some(m) => unless_blank(m.join_url),
            None => None,
        },
        organizer: match e.organizer {
            Some(o) => match o.email_address {
                Some(a) => a.name,
                None => None,
            },
            None => None,
        },
        is_online: e.is_online_meeting == Some(true),
    }
}

/// A copy of an optional text, where it is not blank.
pub fn filter_blank(o: &Option<String>) -> (r: Option<String>)
    ensures
        text::opt_text(r) == unless_blank(text::opt_text(*o)),
{
    match o {
        Some(s) => if text::is_blank(s.as_str()) {
            None
        } else {
            Some(s.clone())
        },
        None => None,
    }
}

fn zoned(t: &Option<DateTimeTimeZone>) -> (r: Option<String>)
    ensures
        text::opt_text(r) == match opt_date_time_time_zone(*t) {
            Some(t) => t.date_time,
            None => None,
        },
{
    match t {
        Some(t) => text::copy_opt(&t.date_time),
        None => None,
    }
}

/// What a list of meetings shows of an event.
pub fn meeting_info(e: &CalendarEvent) -> (r: MeetingInfo)
    ensures
        r@ == meeting_of(e@),
{
    let subject = match filter_blank(&e.subject) {
        Some(s) => s,
        None => "(no subject)".to_string(),
    };
    let join_url = match &e.online_meeting {
        Some(m) => filter_blank(&m.join_url),
        None => None,
    };
    let organizer = match &e.organizer {
        Some(o) => match &o.email_address {
            Some(a) => text::copy_opt(&a.name),
            None => None,
        },
        None => None,
    };
    let is_online = match e.is_online_meeting {
        Some(b) => b,
        None => false,
    };
    MeetingInfo {
        id: e.id.clone(),
        subject,
        start: zoned(&e.start),
        end: zoned(&e.end),
        join_url,
        organizer,
        is_online,
    }
}
/// What a list of meetings shows of the events, in order.
pub open spec fn meeting_rows(v: Seq<CalendarEventV>) -> Seq<MeetingInfoV> {
    Seq::new(v.len(), |i: int| meeting_of(v[i]))
}

/// What a list of meetings shows of the events, in order.
pub fn meeting_infos(v: &Vec<CalendarEvent>) -> (r: Vec<MeetingInfo>)
    ensures
        meeting_info_views(r@) == meeting_rows(calendar_event_views(v@)),
{
    let mut out: Vec<MeetingInfo> = Vec::new();
    let mut i: usize = 0;
    while i < v.len()
        invariant
            i <= v@.len(),
            out@.len() == i,
            forall|j: int| 0 <= j < i ==> (#[trigger] out@[j])@ == meeting_of(v@[j]@),
        decreases v@.len() - i,
    {
        out.push(meeting_info(&v[i]));
        i = i + 1;
    }
    proof {
        assert(meeting_info_views(out@) =~= meeting_rows(calendar_event_views(v@)));
    }
    out
}
/// The meetings of a stretch of the calendar, by the JSON value of the reply; nothing
/// where it is of another form.
pub open spec fn meetings_of(v: JsonV) -> Option<Seq<MeetingInfoV>> {
    match calendar_view_response_of(v) {
        Some(x) => Some(meeting_rows(x.value)),
        None => None,
    }
}

/// The meetings of a stretch of the calendar, by the JSON value of the reply.
pub fn read_meetings(v: &Json) -> (r: Option<Vec<MeetingInfo>>)
    ensures
        match r {
            Some(l) => meetings_of(v@) == Some(meeting_info_views(l@)),
            None => meetings_of(v@) is None,
        },
{
    match read_calendar_view_response(v) {
        Some(x) => Some(meeting_infos(&x.value)),
        None => None,
    }
}

/// The meetings of a stretch of the calendar, by the body of the reply.
pub fn parse_calendar_view(body: &str) -> (r: Result<Vec<MeetingInfo>, String>)
    ensures
        match r {
            Ok(l) => json::json_text(body@) matches Some(v) && meetings_of(v) == Some(
                meeting_info_views(l@),
            ),
            Err(e) => (json::json_text(body@) matches Some(v) ==> meetings_of(v) is None) && e@
                == "Failed to parse calendarView response"@,
        },
{
    if let Some(v) = json::parse_json(body) {
        if let Some(l) = read_meetings(&v) {
            return Ok(l);
        }
    }
    Err("Failed to parse calendarView response".to_string())
}

/// The second at which a window of days ends that starts at `now`.
pub open spec fn window_length(days: u64) -> int {
    if days * 86400 > u64::MAX {
        u64::MAX as int
    } else {
        days * 86400
    }
}

/// The path of a stretch of the calendar.
pub open spec fn view_path(start: nat, end: nat, limit: nat) -> Seq<char> {
    "/me/calendar/calendarView?startDateTime="@ + web::encoded(dates::iso8601(start))
        + "&endDateTime="@ + web::encoded(dates::iso8601(end)) + "&$top="@ + text::decimal(limit)
        + "&$orderby=start/dateTime&$select=id,subject,isOnlineMeeting,onlineMeeting,start,end,organizer,webLink"@
}

/// The path of the stretch of the calendar between two seconds.
pub fn window_path(start: u64, end: u64, limit: usize) -> (r: String)
    ensures
        r@ == view_path(start as nat, end as nat, limit as nat),
{
    let from = dates::unix_to_iso8601(start);
    let to = dates::unix_to_iso8601(end);
    let mut s = "/me/calendar/calendarView?startDateTime=".to_string();
    s.append(web::encode(from.as_str()).as_str());
    s.append("&endDateTime=");
    s.append(web::encode(to.as_str()).as_str());
    s.append("&$top=");
    s.append(text::to_decimal(limit as u64).as_str());
    s.append(
        "&$orderby=start/dateTime&$select=id,subject,isOnlineMeeting,onlineMeeting,start,end,organizer,webLink",
    );
    s
}

/// The seconds of a number of days, as far as they can be counted.
pub fn window_seconds(days: u64) -> (r: u64)
    ensures
        r == window_length(days),
{
    if days > 213503982334601 {
        u64::MAX
    } else {
        days * 86400
    }
}

/// The path of the stretch of the calendar from `now` on.
pub fn calendar_view_path(now: u64, days: u64, limit: usize) -> (r: String)
    requires
        now + window_length(days) <= u64::MAX,
    ensures
        r@ == view_path(now as nat, (now + window_length(days)) as nat, limit as nat),
{
    window_path(now, now + window_seconds(days), limit)
}

// -- Join links --

/// Where a pasted link leads: to a `thread` that can be called, to a `meeting-id`, to
/// another `url`, or to nothing that is known (`unknown`).
pub struct JoinTarget {
    pub kind: String,
    pub thread_id: Option<String>,
    pub meeting_id: Option<String>,
    pub url: String,
}

/// The model of [`JoinTarget`].
pub struct JoinTargetV {
    pub kind: Seq<char>,
    pub thread_id: Option<Seq<char>>,
    pub meeting_id: Option<Seq<char>>,
    pub url: Seq<char>,
}

impl View for JoinTarget {
    type V = JoinTargetV;

    open spec fn view(&self) -> JoinTargetV {
        JoinTargetV {
            kind: self.kind@,
            thread_id: text::opt_text(self.thread_id),
            meeting_id: text::opt_text(self.meeting_id),
            url: self.url@,
        }
    }
}

/// The characters that end an id in a link.
pub open spec fn link_stops() -> Seq<char> {
    "/?&#\"' \t\n"@
}

/// True of the id of a thread.
pub open spec fn is_thread_id(s: Seq<char>) -> bool {
    let t = text::trimmed(s);
    ("19:"@.is_prefix_of(t) || "48:"@.is_prefix_of(t) || "8:"@.is_prefix_of(t)) && !text::has_space(
        t,
    )
}

/// The thread id in a decoded link.
pub open spec fn thread_id_in(link: Seq<char>) -> Option<Seq<char>> {
    match text::find_in(link, "19:"@) {
        Some(i) => {
            let id = text::trimmed_end_of(text::before_any(link.skip(i), link_stops()), ".,)]"@);
            if id.contains('@') {
                Some(id)
            } else {
                None
            }
        },
        None => None,
    }
}

/// The meeting id in a link.
pub open spec fn meeting_id_in(link: Seq<char>) -> Option<Seq<char>> {
    match text::find_in(link, "teams.live.com/meet/"@) {
        Some(i) => {
            let id = text::trimmed(text::before_any(link.skip(i + 20), link_stops()));
            if id.len() == 0 {
                None
            } else {
                Some(id)
            }
        },
        None => None,
    }
}

/// A pasted text without the white space, brackets and quotes around it.
pub open spec fn pasted(raw: Seq<char>) -> Seq<char> {
    text::trimmed(text::trimmed_of(text::trimmed(raw), "<>\"'"@))
}

pub open spec fn target(
    kind: Seq<char>,
    thread_id: Option<Seq<char>>,
    meeting_id: Option<Seq<char>>,
    url: Seq<char>,
) -> JoinTargetV {
    JoinTargetV { kind, thread_id, meeting_id, url }
}

/// True of a link to a meeting of a work account.
pub open spec fn is_meetup_link(decoded: Seq<char>) -> bool {
    let low = text::lowered(decoded);
    text::contains_text(low, "teams.microsoft.com/l/meetup-join"@) || text::contains_text(
        low,
        "teams.microsoft.com/meet"@,
    )
}

/// Where a pasted text leads, by itself and by its decoded form.
pub open spec fn join_target(link: Seq<char>, decoded: Seq<char>) -> JoinTargetV {
    if link.len() == 0 {
        target("unknown"@, None, None, Seq::empty())
    } else if is_thread_id(link) {
        target("thread"@, Some(link), None, link)
    } else if is_meetup_link(decoded) && thread_id_in(decoded) is Some {
        target("thread"@, thread_id_in(decoded), None, link)
    } else if is_meetup_link(decoded) && ("https://"@.is_prefix_of(link) || "http://"@.is_prefix_of(
        link,
    )) {
        target("url"@, None, None, link)
    } else if text::contains_text(text::lowered(decoded), "teams.live.com/meet/"@) && meeting_id_in(
        link,
    ) is Some {
        target("meeting-id"@, None, meeting_id_in(link), link)
    } else if "https://"@.is_prefix_of(link) {
        target("url"@, None, None, link)
    } else {
        target("unknown"@, None, None, link)
    }
}

fn looks_like_thread_id(s: &str) -> (r: bool)
    ensures
        r == is_thread_id(s@),
{
    let t = text::trim(s);
    (text::starts_with(t.as_str(), "19:") || text::starts_with(t.as_str(), "48:")
        || text::starts_with(t.as_str(), "8:")) && !text::contains_space(t.as_str())
}

fn tail_of(s: &str, from: usize) -> (r: String)
    requires
        from <= s@.len(),
    ensures
        r@ == s@.skip(from as int),
{
    let v = text::chars_of(s);
    let r = text::text_of(&v, from, v.len());
    proof {
        assert(r@ =~= s@.skip(from as int));
    }
    r
}

fn extract_thread_id(link: &str) -> (r: Option<String>)
    ensures
        text::opt_text(r) == thread_id_in(link@),
{
    match text::find(link, "19:") {
        Some(i) => {
            let tail = tail_of(link, i);
            let span = text::take_before_any(tail.as_str(), "/?&#\"' \t\n");
            let id = text::trim_end_chars(span.as_str(), ".,)]");
            if text::contains_char(id.as_str(), '@') {
                Some(id)
            } else {
                None
            }
        },
        None => None,
    }
}

fn extract_live_meet_id(link: &str) -> (r: Option<String>)
    ensures
        text::opt_text(r) == meeting_id_in(link@),
{
    proof {
        reveal_strlit("teams.live.com/meet/");
    }
    let v = text::chars_of(link);
    let n: usize = v.len();
    match text::find(link, "teams.live.com/meet/") {
        Some(i) => {
            assert(i + 20 <= n);
            let tail = tail_of(link, i + 20);
            let span = text::take_before_any(tail.as_str(), "/?&#\"' \t\n");
            let id = text::trim(span.as_str());
            if id.as_str().is_empty() {
                None
            } else {
                Some(id)
            }
        },
        None => None,
    }
}

fn make_target(kind: &str, thread_id: Option<String>, meeting_id: Option<String>, url: &str) -> (r:
    JoinTarget)
    ensures
        r@ == target(kind@, text::opt_text(thread_id), text::opt_text(meeting_id), url@),
{
    JoinTarget { kind: kind.to_string(), thread_id, meeting_id, url: url.to_string() }
}

/// Says where a pasted text leads, by itself and by its decoded form.
pub fn classify_link(link: &str, decoded: &str) -> (r: JoinTarget)
    ensures
        r@ == join_target(link@, decoded@),
{
    if link.is_empty() {
        proof {
            assert(link@ =~= Seq::empty());
        }
        return make_target("unknown", None, None, link);
    }
    if looks_like_thread_id(link) {
        return make_target("thread", Some(link.to_string()), None, link);
    }
    let low = text::lower(decoded);
    if text::contains(low.as_str(), "teams.microsoft.com/l/meetup-join") || text::contains(
        low.as_str(),
        "teams.microsoft.com/meet",
    ) {
        let found = extract_thread_id(decoded);
        if found.is_some() {
            return make_target("thread", found, None, link);
        }
        if text::starts_with(link, "https://") || text::starts_with(link, "http://") {
            return make_target("url", None, None, link);
        }
    }
    if text::contains(low.as_str(), "teams.live.com/meet/") {
        let found = extract_live_meet_id(link);
        if found.is_some() {
            return make_target("meeting-id", None, found, link);
        }
    }
    if text::starts_with(link, "https://") {
        return make_target("url", None, None, link);
    }
    make_target("unknown", None, None, link)
}

/// Says where a pasted text leads. Nothing is called.
pub fn parse_join_url(raw: &str) -> (r: JoinTarget)
    ensures
        r@ == join_target(pasted(raw@), web::decoded(pasted(raw@))),
        valid_utf8(web::decoded_bytes(encode_utf8(pasted(raw@)))) ==> r@ == join_target(
            pasted(raw@),
            decode_utf8(web::decoded_bytes(encode_utf8(pasted(raw@)))),
        ),
{
    let a = text::trim(raw);
    let b = text::trim_chars(a.as_str(), "<>\"'");
    let link = text::trim(b.as_str());
    let decoded = web::decode(link.as_str());
    classify_link(link.as_str(), decoded.as_str())
}

/// A bare thread id leads to that thread, and a link that is not known as one to
/// a thread or a meeting never does.
pub proof fn law_join_target(link: Seq<char>, decoded: Seq<char>)
    ensures
        link.len() > 0 && is_thread_id(link) ==> join_target(link, decoded) == target(
            "thread"@,
            Some(link),
            None,
            link,
        ),
        join_target(link, decoded).kind == "unknown"@ ==> join_target(link, decoded).thread_id
            is None && join_target(link, decoded).meeting_id is None,
        join_target(link, decoded).url == link,
{
    reveal_strlit("unknown");
    reveal_strlit("thread");
    reveal_strlit("url");
    reveal_strlit("meeting-id");
    assert("unknown"@.len() == 7 && "thread"@.len() == 6 && "meeting-id"@.len() == 10);
    if link.len() == 0 {
        assert(link =~= Seq::empty());
    }
}

// -- The lobby --

/// The states of joining a meeting.
#[derive(Debug, Clone, Copy, PartialEq, Eq, Structural)]
pub enum LobbyState {
    Idle,
    Joining,
    Lobby,
    Admitted,
    Failed,
}

/// The name of a state.
pub open spec fn lobby_name(s: LobbyState) -> Seq<char> {
    match s {
        LobbyState::Idle => "idle"@,
        LobbyState::Joining => "joining"@,
        LobbyState::Lobby => "lobby"@,
        LobbyState::Admitted => "admitted"@,
        LobbyState::Failed => "failed"@,
    }
}

/// The state of a name; every other text is the one at rest.
pub open spec fn lobby_named(s: Seq<char>) -> LobbyState {
    if s == "joining"@ {
        LobbyState::Joining
    } else if s == "lobby"@ {
        LobbyState::Lobby
    } else if s == "admitted"@ {
        LobbyState::Admitted
    } else if s == "failed"@ {
        LobbyState::Failed
    } else {
        LobbyState::Idle
    }
}

impl LobbyState {
    /// The name of the state.
    pub fn as_str(&self) -> (r: &'static str)
        ensures
            r@ == lobby_name(*self),
    {
        match self {
            LobbyState::Idle => "idle",
            LobbyState::Joining => "joining",
            LobbyState::Lobby => "lobby",
            LobbyState::Admitted => "admitted",
            LobbyState::Failed => "failed",
        }
    }

    /// The state of a name.
    pub fn from_str(s: &str) -> (r: LobbyState)
        ensures
            r == lobby_named(s@),
    {
        if text::same(s, "joining") {
            LobbyState::Joining
        } else if text::same(s, "lobby") {
            LobbyState::Lobby
        } else if text::same(s, "admitted") {
            LobbyState::Admitted
        } else if text::same(s, "failed") {
            LobbyState::Failed
        } else {
            LobbyState::Idle
        }
    }
}

/// A state is the one of its name.
pub proof fn law_lobby_name_round_trip(s: LobbyState)
    ensures
        lobby_named(lobby_name(s)) == s,
{
    reveal_strlit("idle");
    reveal_strlit("joining");
    reveal_strlit("lobby");
    reveal_strlit("admitted");
    reveal_strlit("failed");
    assert("idle"@.len() == 4 && "lobby"@.len() == 5 && "failed"@.len() == 6 && "joining"@.len()
        == 7 && "admitted"@.len() == 8);
}

/// What can happen while a meeting is being joined.
#[derive(Debug, Clone, Copy, PartialEq, Eq, Structural)]
pub enum LobbyEvent {
    /// The user joins.
    Start,
    /// The call leg was placed.
    Placed,
    /// The server holds the caller in the lobby.
    LobbySignal,
    /// The caller was let in.
    Admit,
    /// The caller was turned away, or the leg ended.
    Reject,
    /// Back to rest.
    Reset,
}

/// The state that follows.
pub open spec fn lobby_after(state: LobbyState, event: LobbyEvent) -> LobbyState {
    match event {
        LobbyEvent::Reset => LobbyState::Idle,
        LobbyEvent::Start => if state == LobbyState::Idle || state == LobbyState::Failed {
            LobbyState::Joining
        } else {
            state
        },
        LobbyEvent::Placed => state,
        LobbyEvent::LobbySignal => if state == LobbyState::Joining {
            LobbyState::Lobby
        } else {
            state
        },
        LobbyEvent::Admit => if state == LobbyState::Joining || state == LobbyState::Lobby {
            LobbyState::Admitted
        } else {
            state
        },
        LobbyEvent::Reject => if state == LobbyState::Joining || state == LobbyState::Lobby {
            LobbyState::Failed
        } else {
            state
        },
    }
}

/// The state that follows.
pub fn lobby_next(state: LobbyState, event: LobbyEvent) -> (r: LobbyState)
    ensures
        r == lobby_after(state, event),
{
    if event == LobbyEvent::Reset {
        return LobbyState::Idle;
    }
    match (state, event) {
        (LobbyState::Idle, LobbyEvent::Start) => LobbyState::Joining,
        (LobbyState::Joining, LobbyEvent::LobbySignal) => LobbyState::Lobby,
        (LobbyState::Joining, LobbyEvent::Admit) => LobbyState::Admitted,
        (LobbyState::Joining, LobbyEvent::Reject) => LobbyState::Failed,
        (LobbyState::Lobby, LobbyEvent::Admit) => LobbyState::Admitted,
        (LobbyState::Lobby, LobbyEvent::Reject) => LobbyState::Failed,
        (LobbyState::Failed, LobbyEvent::Start) => LobbyState::Joining,
        (s, _) => s,
    }
}

/// The state after a run of events.
pub open spec fn lobby_run(state: LobbyState, events: Seq<LobbyEvent>) -> LobbyState
    decreases events.len(),
{
    if events.len() == 0 {
        state
    } else {
        lobby_after(lobby_run(state, events.drop_last()), events.last())
    }
}

/// A reset leads to rest from anywhere.
pub proof fn law_lobby_reset(state: LobbyState, events: Seq<LobbyEvent>)
    requires
        events.len() > 0,
        events.last() == LobbyEvent::Reset,
    ensures
        lobby_run(state, events) == LobbyState::Idle,
{
}

/// Once admitted, only a reset leads anywhere else.
pub proof fn law_lobby_admitted_stays(events: Seq<LobbyEvent>)
    requires
        forall|i: int| 0 <= i < events.len() ==> #[trigger] events[i] != LobbyEvent::Reset,
    ensures
        lobby_run(LobbyState::Admitted, events) == LobbyState::Admitted,
    decreases events.len(),
{
    if events.len() > 0 {
        let before = events.drop_last();
        assert forall|i: int| 0 <= i < before.len() implies #[trigger] before[i]
            != LobbyEvent::Reset by {
            assert(before[i] == events[i]);
        }
        law_lobby_admitted_stays(before);
        assert(events.last() == events[events.len() - 1]);
    }
}

/// Nobody is admitted who did not join: from rest or from a failure, admission
/// takes a start first.
pub proof fn law_lobby_needs_start(state: LobbyState, events: Seq<LobbyEvent>)
    requires
        state == LobbyState::Idle || state == LobbyState::Failed,
        forall|i: int| 0 <= i < events.len() ==> #[trigger] events[i] != LobbyEvent::Start,
    ensures
        lobby_run(state, events) == LobbyState::Idle || lobby_run(state, events)
            == LobbyState::Failed,
    decreases events.len(),
{
    if events.len() > 0 {
        let before = events.drop_last();
        assert forall|i: int| 0 <= i < before.len() implies #[trigger] before[i]
            != LobbyEvent::Start by {
            assert(before[i] == events[i]);
        }
        law_lobby_needs_start(state, before);
        assert(events.last() == events[events.len() - 1]);
    }
}

// -- What the commands show --

/// When a meeting takes place.
pub open spec fn when_shown(x: MeetingInfoV) -> Seq<char> {
    match (x.start, x.end) {
        (Some(s), Some(e)) => s + " – "@ + e,
        (Some(s), None) => s,
        _ => "unscheduled"@,
    }
}

fn show_when(x: &MeetingInfo) -> (r: String)
    ensures
        r@ == when_shown(x@),
{
    match (&x.start, &x.end) {
        (Some(s), Some(e)) => text::join3(s.as_str(), " – ", e.as_str()),
        (Some(s), None) => s.clone(),
        _ => "unscheduled".to_string(),
    }
}

/// What is shown of a meeting.
pub open spec fn meeting_shown(x: MeetingInfoV) -> Seq<char> {
    x.subject
        + (match x.organizer {
            Some(t) => " (org: "@ + t + ")"@,
            None => Seq::empty(),
        })
        + (if x.is_online {
            " [online]"@
        } else {
            Seq::empty()
        }) + "\n  When: "@ + when_shown(x) + "\n  Join: "@
        + (match x.join_url {
            Some(t) => t,
            None => "(no Teams link)"@,
        }) + "\n\n"@
}

fn show_meeting(x: &MeetingInfo) -> (r: String)
    ensures
        r@ == meeting_shown(x@),
{
    let mut s = String::new();
    s.append(x.subject.as_str());
    match &x.organizer {
        Some(t) => {
            s.append(" (org: ");
            s.append(t.as_str());
            s.append(")");
        },
        None => {},
    }
    if x.is_online {
        s.append(" [online]");
    }
    s.append("\n  When: ");
    s.append(show_when(x).as_str());
    s.append("\n  Join: ");
    match &x.join_url {
        Some(t) => {
            s.append(t.as_str());
        },
        None => {
            s.append("(no Teams link)");
        },
    }
    s.append("\n\n");
    proof {
        assert(s@ =~= meeting_shown(x@));
    }
    s
}

/// What is shown of a list, entry by entry.
pub open spec fn meetings_shown(v: Seq<MeetingInfoV>) -> Seq<char>
    decreases v.len(),
{
    if v.len() == 0 {
        Seq::empty()
    } else {
        meetings_shown(v.drop_last()) + meeting_shown(v.last())
    }
}

fn show_meetings(v: &Vec<MeetingInfo>) -> (r: String)
    ensures
        r@ == meetings_shown(meeting_info_views(v@)),
{
    let ghost all = meeting_info_views(v@);
    let mut s = String::new();
    let mut i: usize = 0;
    proof {
        assert(all.take(0) =~= Seq::empty());
        assert(s@ =~= Seq::empty());
    }
    while i < v.len()
        invariant
            i <= v@.len(),
            all == meeting_info_views(v@),
            s@ == meetings_shown(all.take(i as int)),
        decreases v@.len() - i,
    {
        proof {
            assert(all.take(i + 1).drop_last() =~= all.take(i as int));
            assert(all.take(i + 1).last() == v@[i as int]@);
        }
        s.append(show_meeting(&v[i]).as_str());
        i = i + 1;
    }
    proof {
        assert(all.take(i as int) =~= all);
    }
    s
}

/// The list of upcoming meetings.
pub fn list_upcoming_meetings(v: &Vec<MeetingInfo>) -> (r: String)
    ensures
        r@ == "\nUpcoming meetings:\n------------------------------------------------------------\n"@
            + (if v@.len() == 0 {
            "  (none in the next 7 days)\n"@
        } else {
            meetings_shown(meeting_info_views(v@))
        }),
{
    let mut s = String::new();
    s.append(
        "\nUpcoming meetings:\n------------------------------------------------------------\n",
    );
    if v.len() == 0 {
        s.append("  (none in the next 7 days)\n");
    } else {
        s.append(show_meetings(v).as_str());
    }
    proof {
        assert(s@ =~= "\nUpcoming meetings:\n------------------------------------------------------------\n"@
            + (if v@.len() == 0 {
            "  (none in the next 7 days)\n"@
        } else {
            meetings_shown(meeting_info_views(v@))
        }));
    }
    s
}

// -- What is read --

/// What is read of a [`DateTimeTimeZone`] stands in the members of these names, and it is read
/// where they hold what they should.
pub proof fn law_date_time_time_zone_reads_its_members(v: JsonV)
    requires
        v is Obj,
    ensures
        match date_time_time_zone_of(v) {
            Some(x) => {
                &&& x.date_time == json::str_of(json::get_of(v, "dateTime"@))
                &&& x.time_zone == json::str_of(json::get_of(v, "timeZone"@))
            },
            None => !(json::opt_text_member(json::get_of(v, "dateTime"@)) is Some
                && json::opt_text_member(json::get_of(v, "timeZone"@)) is Some),
        },
{
}

/// What is read of a [`OnlineMeetingInfo`] stands in the members of these names, and it is read
/// where they hold what they should.
pub proof fn law_online_meeting_info_reads_its_members(v: JsonV)
    requires
        v is Obj,
    ensures
        match online_meeting_info_of(v) {
            Some(x) => {
                &&& x.join_url == json::str_of(json::get_of(v, "joinUrl"@))
            },
            None => !(json::opt_text_member(json::get_of(v, "joinUrl"@)) is Some),
        },
{
}

/// What is read of a [`EmailAddress`] stands in the members of these names, and it is read
/// where they hold what they should.
pub proof fn law_email_address_reads_its_members(v: JsonV)
    requires
        v is Obj,
    ensures
        match email_address_of(v) {
            Some(x) => {
                &&& x.name == json::str_of(json::get_of(v, "name"@))
                &&& x.address == json::str_of(json::get_of(v, "address"@))
            },
            None => !(json::opt_text_member(json::get_of(v, "name"@)) is Some
                && json::opt_text_member(json::get_of(v, "address"@)) is Some),
        },
{
}

/// What is read of a [`OrganizerInfo`] stands in the members of these names, and it is read
/// where they hold what they should.
pub proof fn law_organizer_info_reads_its_members(v: JsonV)
    requires
        v is Obj,
    ensures
        match organizer_info_of(v) {
            Some(x) => {
                &&& (json::get_of(v, "emailAddress"@) is None
                    || json::get_of(v, "emailAddress"@) == Some(JsonV::Null))
                    ==> x.email_address is None
                &&& json::get_of(v, "emailAddress"@) matches Some(w) ==> w != JsonV::Null
                    ==> x.email_address is Some && email_address_of(w) == x.email_address
            },
            None => !(opt_email_address_member(json::get_of(v, "emailAddress"@)) is Some),
        },
{
}

/// What is read of a [`CalendarEvent`] stands in the members of these names, and it is read
/// where they hold what they should.
pub proof fn law_calendar_event_reads_its_members(v: JsonV)
    requires
        v is Obj,
    ensures
        match calendar_event_of(v) {
            Some(x) => {
                &&& json::str_of(json::get_of(v, "id"@)) == Some(x.id)
                &&& x.subject == json::str_of(json::get_of(v, "subject"@))
                &&& json::opt_bool_member(json::get_of(v, "isOnlineMeeting"@))
                    == Some(x.is_online_meeting)
                &&& (json::get_of(v, "onlineMeeting"@) is None
                    || json::get_of(v, "onlineMeeting"@) == Some(JsonV::Null))
                    ==> x.online_meeting is None
                &&& json::get_of(v, "onlineMeeting"@) matches Some(w) ==> w != JsonV::Null
                    ==> x.online_meeting is Some && online_meeting_info_of(w) == x.online_meeting
                &&& (json::get_of(v, "start"@) is None
                    || json::get_of(v, "start"@) == Some(JsonV::Null)) ==> x.start is None
                &&& json::get_of(v, "start"@) matches Some(w) ==> w != JsonV::Null
                    ==> x.start is Some && date_time_time_zone_of(w) == x.start
                &&& (json::get_of(v, "end"@) is None
                    || json::get_of(v, "end"@) == Some(JsonV::Null)) ==> x.end is None
                &&& json::get_of(v, "end"@) matches Some(w) ==> w != JsonV::Null ==> x.end is Some
                    && date_time_time_zone_of(w) == x.end
                &&& (json::get_of(v, "organizer"@) is None
                    || json::get_of(v, "organizer"@) == Some(JsonV::Null)) ==> x.organizer is None
                &&& json::get_of(v, "organizer"@) matches Some(w) ==> w != JsonV::Null
                    ==> x.organizer is Some && organizer_info_of(w) == x.organizer
                &&& x.web_link == json::str_of(json::get_of(v, "webLink"@))
            },
            None => !(json::str_of(json::get_of(v, "id"@)) is Some
                && json::opt_text_member(json::get_of(v, "subject"@)) is Some
                && json::opt_bool_member(json::get_of(v, "isOnlineMeeting"@)) is Some
                && opt_online_meeting_info_member(json::get_of(v, "onlineMeeting"@)) is Some
                && opt_date_time_time_zone_member(json::get_of(v, "start"@)) is Some
                && opt_date_time_time_zone_member(json::get_of(v, "end"@)) is Some
                && opt_organizer_info_member(json::get_of(v, "organizer"@)) is Some
                && json::opt_text_member(json::get_of(v, "webLink"@)) is Some),
        },
{
}

// The entries of a list, in their order.
proof fn lemma_calendar_event_list_entries(a: Seq<JsonV>)
    ensures
        calendar_event_list(a) matches Some(l) ==> l.len() == a.len() && forall|i: int|
            0 <= i < a.len() ==> calendar_event_of(a[i]) == Some(#[trigger] l[i]),
    decreases a.len(),
{
    if a.len() > 0 {
        lemma_calendar_event_list_entries(a.drop_last());
        if let Some(l) = calendar_event_list(a) {
            assert forall|i: int| 0 <= i < a.len() implies calendar_event_of(a[i])
                == Some(#[trigger] l[i]) by {
                if i < a.len() - 1 {
                    let before = calendar_event_list(a.drop_last())->0;
                    assert(l[i] == before[i]);
                    assert(a.drop_last()[i] == a[i]);
                }
            }
        }
    }
}

/// What is read of a [`CalendarViewResponse`] stands in the members of these names, and it is read
/// where they hold what they should.
pub proof fn law_calendar_view_response_reads_its_members(v: JsonV)
    requires
        v is Obj,
    ensures
        match calendar_view_response_of(v) {
            Some(x) => {
                &&& (json::arr_of(json::get_of(v, "value"@)) matches Some(a)
                    && x.value.len() == a.len() && forall|i: int| 0 <= i < a.len()
                    ==> calendar_event_of(a[i]) == Some(#[trigger] x.value[i]))
            },
            None => !(calendar_event_list_member(json::get_of(v, "value"@)) is Some),
        },
{
    if let Some(JsonV::Arr(a)) = json::get_of(v, "value"@) {
        lemma_calendar_event_list_entries(a);
    }
}

// -- What is listed and joined --

/// A meeting is shown with its own subject, times, link and organizer; a blank subject or
/// link is none. It is online only where the event says so.
pub proof fn law_meetings_are_shown_as_they_are(v: Seq<CalendarEventV>, i: int)
    requires
        0 <= i < v.len(),
    ensures
        meeting_rows(v).len() == v.len(),
        ({
            let e = v[i];
            let m = meeting_rows(v)[i];
            &&& m.id == e.id
            &&& e.subject matches Some(s) ==> (!text::blank(s) ==> m.subject == s)
            &&& e.subject matches Some(s) ==> (text::blank(s) ==> m.subject == "(no subject)"@)
            &&& e.subject is None ==> m.subject == "(no subject)"@
            &&& e.start matches Some(t) ==> m.start == t.date_time
            &&& e.start is None ==> m.start is None
            &&& e.end matches Some(t) ==> m.end == t.date_time
            &&& e.end is None ==> m.end is None
            &&& e.online_meeting is None ==> m.join_url is None
            &&& e.online_meeting matches Some(o) ==> (o.join_url matches Some(u) ==> (
            !text::blank(u) ==> m.join_url == Some(u)))
            &&& e.organizer matches Some(o) ==> (o.email_address matches Some(a) ==> m.organizer
                == a.name)
            &&& e.organizer is None ==> m.organizer is None
            &&& m.is_online <==> e.is_online_meeting == Some(true)
        }),
{
}

/// A view of some days is as many days long, unless that is more than a clock can show.
pub proof fn law_window_is_days_long(days: u64)
    ensures
        days <= 213_503_982_334_601 ==> window_length(days) == days * 86400,
        days > 213_503_982_334_601 ==> window_length(days) == 0xFFFF_FFFF_FFFF_FFFF,
{
}

/// What is pasted is a thread where it is the id of one, and anything blank is unknown.
pub proof fn law_threads_are_joined_by_id(id: Seq<char>, decoded: Seq<char>)
    requires
        !text::has_space("19:"@ + id),
    ensures
        join_target("19:"@ + id, decoded).kind == "thread"@,
        join_target("19:"@ + id, decoded).thread_id == Some("19:"@ + id),
        join_target("19:"@ + id, decoded).meeting_id is None,
        join_target("19:"@ + id, decoded).url == "19:"@ + id,
        join_target(Seq::empty(), decoded).kind == "unknown"@,
{
    let t = "19:"@ + id;
    assert("19:"@.len() == 3 && "19:"@[0] == '1') by {
        reveal_strlit("19:");
    }
    assert(t.subrange(0, 3) =~= "19:"@);
    assert(!text::is_space(t[0]));
    assert(!text::is_space(t[t.len() - 1]));
    text::lemma_trimmed_tight(t);
}

/// A link to a meeting leads to the thread in it, else it is opened as it is; a link of a
/// personal meeting leads to its number.
pub proof fn law_links_lead_to_their_meeting(link: Seq<char>, decoded: Seq<char>)
    requires
        link.len() > 0,
        !is_thread_id(link),
    ensures
        ({
            let meetup = text::contains_text(
                text::lowered(decoded),
                "teams.microsoft.com/l/meetup-join"@,
            ) || text::contains_text(text::lowered(decoded), "teams.microsoft.com/meet"@);
            let t = join_target(link, decoded);
            &&& t.url == link
            &&& meetup && thread_id_in(decoded) is Some ==> t.kind == "thread"@ && t.thread_id
                == thread_id_in(decoded) && t.meeting_id is None
            &&& meetup && thread_id_in(decoded) is None && "https://"@.is_prefix_of(link) ==> t.kind
                == "url"@ && t.thread_id is None && t.meeting_id is None
            &&& !meetup && text::contains_text(text::lowered(decoded), "teams.live.com/meet/"@)
                && meeting_id_in(link) is Some ==> t.kind == "meeting-id"@ && t.meeting_id
                == meeting_id_in(link) && t.thread_id is None
            &&& !meetup && !text::contains_text(text::lowered(decoded), "teams.live.com/meet/"@)
                && "https://"@.is_prefix_of(link) ==> t.kind == "url"@
            &&& !meetup && !text::contains_text(text::lowered(decoded), "teams.live.com/meet/"@)
                && !"https://"@.is_prefix_of(link) ==> t.kind == "unknown"@
        }),
{
}

/// The states of a join are known by their names, and a name reads back as its state.
pub proof fn law_states_by_name(s: LobbyState)
    ensures
        lobby_named(lobby_name(s)) == s,
        lobby_name(LobbyState::Idle) == "idle"@,
        lobby_name(LobbyState::Joining) == "joining"@,
        lobby_name(LobbyState::Lobby) == "lobby"@,
        lobby_name(LobbyState::Admitted) == "admitted"@,
        lobby_name(LobbyState::Failed) == "failed"@,
{
    assert("idle"@.len() == 4) by {
        reveal_strlit("idle");
    }
    assert("joining"@.len() == 7) by {
        reveal_strlit("joining");
    }
    assert("lobby"@.len() == 5) by {
        reveal_strlit("lobby");
    }
    assert("admitted"@.len() == 8) by {
        reveal_strlit("admitted");
    }
    assert("failed"@.len() == 6) by {
        reveal_strlit("failed");
    }
}

/// One joins from rest or after a failure; from the door or the lobby one is admitted or
/// turned away, and what happens at any other time changes nothing.
pub proof fn law_lobby_steps(s: LobbyState)
    ensures
        lobby_after(s, LobbyEvent::Reset) == LobbyState::Idle,
        lobby_after(LobbyState::Idle, LobbyEvent::Start) == LobbyState::Joining,
        lobby_after(LobbyState::Failed, LobbyEvent::Start) == LobbyState::Joining,
        lobby_after(LobbyState::Lobby, LobbyEvent::Start) == LobbyState::Lobby,
        lobby_after(LobbyState::Admitted, LobbyEvent::Start) == LobbyState::Admitted,
        lobby_after(s, LobbyEvent::Placed) == s,
        lobby_after(LobbyState::Joining, LobbyEvent::LobbySignal) == LobbyState::Lobby,
        s != LobbyState::Joining ==> lobby_after(s, LobbyEvent::LobbySignal) == s,
        lobby_after(LobbyState::Joining, LobbyEvent::Admit) == LobbyState::Admitted,
        lobby_after(LobbyState::Lobby, LobbyEvent::Admit) == LobbyState::Admitted,
        s != LobbyState::Joining && s != LobbyState::Lobby ==> lobby_after(s, LobbyEvent::Admit)
            == s && lobby_after(s, LobbyEvent::Reject) == s,
        lobby_after(LobbyState::Joining, LobbyEvent::Reject) == LobbyState::Failed,
        lobby_after(LobbyState::Lobby, LobbyEvent::Reject) == LobbyState::Failed,
{
}

/// What happens one after the other is taken one after the other.
pub proof fn law_lobby_runs_on(s: LobbyState, a: Seq<LobbyEvent>, b: Seq<LobbyEvent>)
    ensures
        lobby_run(s, a + b) == lobby_run(lobby_run(s, a), b),
        lobby_run(s, Seq::empty()) == s,
    decreases b.len(),
{
    if b.len() == 0 {
        assert(a + b =~= a);
    } else {
        law_lobby_runs_on(s, a, b.drop_last());
        assert((a + b).drop_last() =~= a + b.drop_last());
        assert((a + b).last() == b.last());
    }
}

/// A view asks for what lies between two times, in that order, at most as many as wanted.
pub proof fn law_view_asks_from_start_to_end(start: nat, end: nat, limit: nat)
    ensures
        ("/me/calendar/calendarView?startDateTime="@ + web::encoded(dates::iso8601(start))
            + "&endDateTime="@ + web::encoded(dates::iso8601(end)) + "&$top="@ + text::decimal(
            limit,
        ) + "&"@).is_prefix_of(view_path(start, end, limit)),
{
    let p = "/me/calendar/calendarView?startDateTime="@ + web::encoded(dates::iso8601(start))
        + "&endDateTime="@ + web::encoded(dates::iso8601(end)) + "&$top="@ + text::decimal(limit);
    let tail =
        "&$orderby=start/dateTime&$select=id,subject,isOnlineMeeting,onlineMeeting,start,end,organizer,webLink"@;
    assert(tail.len() > 0 && tail[0] == '&') by {
        reveal_strlit(
            "&$orderby=start/dateTime&$select=id,subject,isOnlineMeeting,onlineMeeting,start,end,organizer,webLink",
        );
    }
    assert("&"@.len() == 1 && "&"@[0] == '&') by {
        reveal_strlit("&");
    }
    let s = view_path(start, end, limit);
    assert(s == p + tail);
    assert(s.subrange(0, p.len() as int + 1) =~= p + "&"@);
}

/// Meetings are shown one after the other, in the order of the list.
pub proof fn law_meetings_are_shown_in_order(a: Seq<MeetingInfoV>, b: Seq<MeetingInfoV>)
    ensures
        meetings_shown(a + b) == meetings_shown(a) + meetings_shown(b),
    decreases b.len(),
{
    if b.len() == 0 {
        assert(a + b =~= a);
        assert(meetings_shown(a) + meetings_shown(b) =~= meetings_shown(a));
    } else {
        law_meetings_are_shown_in_order(a, b.drop_last());
        assert((a + b).drop_last() =~= a + b.drop_last());
        assert((a + b).last() == b.last());
        assert(meetings_shown(a + b) =~= meetings_shown(a) + meetings_shown(b));
    }
}

/// The list that is shown is that of the answer that was read.
pub proof fn law_list_of_meetings_is_read(v: JsonV)
    ensures
        meetings_of(v) is Some <==> calendar_view_response_of(v) is Some,
        meetings_of(v) matches Some(l)
            ==> (calendar_view_response_of(v) matches Some(x) && l == meeting_rows(x.value)),
{
}

/// A meeting is shown by its subject, its times and its link.
pub proof fn law_meeting_lines(x: MeetingInfoV, s: Seq<char>, e: Seq<char>)
    ensures
        x.subject.is_prefix_of(meeting_shown(x)),
        x.start == Some(s) && x.end == Some(e) ==> when_shown(x) == s + " – "@ + e,
        x.start == Some(s) && x.end is None ==> when_shown(x) == s,
        x.start is None ==> when_shown(x) == "unscheduled"@,
        x.join_url matches Some(u) ==> ("\n  When: "@ + when_shown(x) + "\n  Join: "@ + u
            + "\n\n"@).is_suffix_of(meeting_shown(x)),
        x.join_url is None ==> ("\n  When: "@ + when_shown(x) + "\n  Join: "@ + "(no Teams link)"@
            + "\n\n"@).is_suffix_of(meeting_shown(x)),
{
    let m = meeting_shown(x);
    assert(m.subrange(0, x.subject.len() as int) =~= x.subject);
    let link = match x.join_url {
        Some(t) => t,
        None => "(no Teams link)"@,
    };
    let t = "\n  When: "@ + when_shown(x) + "\n  Join: "@ + link + "\n\n"@;
    assert(m.subrange(m.len() - t.len(), m.len() as int) =~= t);
}

/// What was pasted is taken without blanks, brackets and quotes around it.
pub proof fn law_pasted_link_is_trimmed(raw: Seq<char>)
    ensures
        pasted(raw).len() > 0 ==> !text::is_space(pasted(raw)[0]) && !text::is_space(
            pasted(raw).last(),
        ),
        text::blank(raw) ==> pasted(raw).len() == 0,
{
    text::lemma_trimmed_ends(text::trimmed_of(text::trimmed(raw), "<>\"'"@));
    if text::blank(raw) {
        text::lemma_trimmed_empty(raw);
        assert(text::trimmed(raw) =~= Seq::empty());
    }
}

// What stands before the first stop.
proof fn lemma_up_to_stop(id: Seq<char>, tail: Seq<char>, stops: Seq<char>)
    requires
        forall|i: int| 0 <= i < id.len() ==> !stops.contains(#[trigger] id[i]),
        tail.len() > 0 ==> stops.contains(tail[0]),
    ensures
        text::before_any(id + tail, stops) == id,
{
    let rest = id + tail;
    text::law_before_any_holds_none(rest, stops);
    let b = text::before_any(rest, stops);
    assert(b == rest.subrange(0, b.len() as int));
    if b.len() < id.len() {
        assert(rest[b.len() as int] == id[b.len() as int]);
    }
    if b.len() > id.len() {
        assert(b[id.len() as int] == tail[0]);
    }
    assert(b =~= id);
}

/// The thread in a link is what stands from its number on, up to where a path, a query or
/// the link ends, and must name its server.
pub proof fn law_thread_stands_in_its_link(head: Seq<char>, id: Seq<char>, tail: Seq<char>)
    requires
        text::find_in(head + ("19:"@ + id) + tail, "19:"@) == Some(head.len() as int),
        forall|i: int| 0 <= i < id.len() ==> !link_stops().contains(#[trigger] id[i]),
        tail.len() > 0 ==> link_stops().contains(tail[0]),
        id.len() > 0,
        !".,)]"@.contains(id.last()),
    ensures
        id.contains('@') ==> thread_id_in(head + ("19:"@ + id) + tail) == Some("19:"@ + id),
        !id.contains('@') ==> thread_id_in(head + ("19:"@ + id) + tail) is None,
        link_stops() == "/?&#\"' \t\n"@,
{
    let whole = "19:"@ + id;
    let link = head + whole + tail;
    let stops = link_stops();
    assert("19:"@.len() == 3 && "19:"@[0] == '1' && "19:"@[1] == '9' && "19:"@[2] == ':') by {
        reveal_strlit("19:");
    }
    assert(!stops.contains('1') && !stops.contains('9') && !stops.contains(':')) by {
        reveal_strlit("/?&#\"' \t\n");
    }
    assert(link.skip(head.len() as int) =~= whole + tail);
    assert forall|i: int| 0 <= i < whole.len() implies !stops.contains(#[trigger] whole[i]) by {
        if i >= 3 {
            assert(whole[i] == id[i - 3]);
        }
    }
    lemma_up_to_stop(whole, tail, stops);
    assert(whole.last() == id.last());
    if id.contains('@') {
        let k = choose|k: int| 0 <= k < id.len() && id[k] == '@';
        assert(whole[k + 3] == '@');
    } else if whole.contains('@') {
        let k = choose|k: int| 0 <= k < whole.len() && whole[k] == '@';
        if k >= 3 {
            assert(id[k - 3] == '@');
        }
    }
}

/// The number of a personal meeting stands behind its path, up to the next part.
pub proof fn law_meeting_number_stands_in_its_link(head: Seq<char>, id: Seq<char>, tail: Seq<char>)
    requires
        text::find_in(head + "teams.live.com/meet/"@ + id + tail, "teams.live.com/meet/"@) == Some(
            head.len() as int,
        ),
        forall|i: int|
            0 <= i < id.len() ==> !link_stops().contains(#[trigger] id[i])
                && !text::is_space(id[i]),
        tail.len() > 0 ==> link_stops().contains(tail[0]),
    ensures
        id.len() > 0 ==> meeting_id_in(head + "teams.live.com/meet/"@ + id + tail) == Some(id),
        id.len() == 0 ==> meeting_id_in(head + "teams.live.com/meet/"@ + id + tail) is None,
{
    let mark = "teams.live.com/meet/"@;
    let link = head + mark + id + tail;
    assert(mark.len() == 20) by {
        reveal_strlit("teams.live.com/meet/");
    }
    assert(link.skip(head.len() as int + 20) =~= id + tail);
    lemma_up_to_stop(id, tail, link_stops());
    if id.len() > 0 {
        assert(!text::is_space(id[0]) && !text::is_space(id[id.len() - 1]));
    }
    text::lemma_trimmed_tight(id);
}

} // verus!
