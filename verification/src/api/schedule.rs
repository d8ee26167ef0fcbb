//! A team's schedule: its shifts and its time off.
use crate::api::teams;
use crate::json;
use crate::json::{Json, JsonV};
use crate::text;
use vstd::prelude::*;

verus! {

/// A schedule as the service sends it.
pub struct ScheduleResponse {
    pub enabled: Option<bool>,
    pub time_zone: Option<String>,
    pub provision_status: Option<String>,
}

/// The model of [`ScheduleResponse`].
pub struct ScheduleResponseV {
    pub enabled: Option<bool>,
    pub time_zone: Option<Seq<char>>,
    pub provision_status: Option<Seq<char>>,
}

impl View for ScheduleResponse {
    type V = ScheduleResponseV;

    open spec fn view(&self) -> ScheduleResponseV {
        ScheduleResponseV {
            enabled: self.enabled,
            time_zone: text::opt_text(self.time_zone),
            provision_status: text::opt_text(self.provision_status),
        }
    }
}

/// How a JSON value reads as a [`ScheduleResponse`]; nothing where it does not.
pub open spec fn schedule_response_of(v: JsonV) -> Option<ScheduleResponseV> {
    if !json::record_form(v, 3, 3) {
        None
    } else {
        match (
            json::opt_bool_member(json::member_of(v, "enabled"@, 0)),
            json::opt_text_member(json::member_of(v, "timeZone"@, 1)),
            json::opt_text_member(json::member_of(v, "provisionStatus"@, 2)),
        ) {
            (Some(enabled), Some(time_zone), Some(provision_status)) => Some(
                ScheduleResponseV { enabled, time_zone, provision_status },
            ),
            _ => None,
        }
    }
}

/// Reads a [`ScheduleResponse`].
pub fn read_schedule_response(v: &Json) -> (r: Option<ScheduleResponse>)
    ensures
        match r {
            Some(x) => schedule_response_of(v@) == Some(x@),
            None => schedule_response_of(v@) is None,
        },
{
    if !json::has_record_form(v, 3, 3) {
        return None;
    }
    let enabled = match json::read_opt_bool(json::member(v, "enabled", 0)) {
        Some(x) => x,
        None => {
            return None;
        },
    };
    let time_zone = match json::read_opt_text(json::member(v, "timeZone", 1)) {
        Some(x) => x,
        None => {
            return None;
        },
    };
    let provision_status = match json::read_opt_text(json::member(v, "provisionStatus", 2)) {
        Some(x) => x,
        None => {
            return None;
        },
    };
    Some(ScheduleResponse { enabled, time_zone, provision_status })
}
/// A shift, shared or drafted.
pub struct WireShiftSlot {
    pub start: Option<String>,
    pub end: Option<String>,
    pub display_name: Option<String>,
    pub theme: Option<String>,
    pub notes: Option<String>,
}

/// The model of [`WireShiftSlot`].
pub struct WireShiftSlotV {
    pub start: Option<Seq<char>>,
    pub end: Option<Seq<char>>,
    pub display_name: Option<Seq<char>>,
    pub theme: Option<Seq<char>>,
    pub notes: Option<Seq<char>>,
}

impl View for WireShiftSlot {
    type V = WireShiftSlotV;

    open spec fn view(&self) -> WireShiftSlotV {
        WireShiftSlotV {
            start: text::opt_text(self.start),
            end: text::opt_text(self.end),
            display_name: text::opt_text(self.display_name),
            theme: text::opt_text(self.theme),
            notes: text::opt_text(self.notes),
        }
    }
}

/// An optional [`WireShiftSlot`] by its model.
pub open spec fn opt_wire_shift_slot(o: Option<WireShiftSlot>) -> Option<WireShiftSlotV> {
    match o {
        Some(x) => Some(x@),
        None => None,
    }
}

/// How a JSON value reads as a [`WireShiftSlot`]; nothing where it does not.
pub open spec fn wire_shift_slot_of(v: JsonV) -> Option<WireShiftSlotV> {
    if !json::record_form(v, 5, 5) {
        None
    } else {
        match (
            json::opt_text_member(json::member_of(v, "startDateTime"@, 0)),
            json::opt_text_member(json::member_of(v, "endDateTime"@, 1)),
            json::opt_text_member(json::member_of(v, "displayName"@, 2)),
            json::opt_text_member(json::member_of(v, "theme"@, 3)),
            json::opt_text_member(json::member_of(v, "notes"@, 4)),
        ) {
            (Some(start), Some(end), Some(display_name), Some(theme), Some(notes)) => Some(
                WireShiftSlotV { start, end, display_name, theme, notes },
            ),
            _ => None,
        }
    }
}

/// Reads a [`WireShiftSlot`].
pub fn read_wire_shift_slot(v: &Json) -> (r: Option<WireShiftSlot>)
    ensures
        match r {
            Some(x) => wire_shift_slot_of(v@) == Some(x@),
            None => wire_shift_slot_of(v@) is None,
        },
{
    if !json::has_record_form(v, 5, 5) {
        return None;
    }
    let start = match json::read_opt_text(json::member(v, "startDateTime", 0)) {
        Some(x) => x,
        None => {
            return None;
        },
    };
    let end = match json::read_opt_text(json::member(v, "endDateTime", 1)) {
        Some(x) => x,
        None => {
            return None;
        },
    };
    let display_name = match json::read_opt_text(json::member(v, "displayName", 2)) {
        Some(x) => x,
        None => {
            return None;
        },
    };
    let theme = match json::read_opt_text(json::member(v, "theme", 3)) {
        Some(x) => x,
        None => {
            return None;
        },
    };
    let notes = match json::read_opt_text(json::member(v, "notes", 4)) {
        Some(x) => x,
        None => {
            return None;
        },
    };
    Some(WireShiftSlot { start, end, display_name, theme, notes })
}

/// How an optional member reads as a [`WireShiftSlot`].
pub open spec fn opt_wire_shift_slot_member(m: Option<JsonV>) -> Option<Option<WireShiftSlotV>> {
    match m {
        None => Some(None),
        Some(JsonV::Null) => Some(None),
        Some(j) => match wire_shift_slot_of(j) {
            Some(x) => Some(Some(x)),
            None => None,
        },
    }
}

fn read_opt_wire_shift_slot(m: Option<&Json>) -> (r: Option<Option<WireShiftSlot>>)
    ensures
        match r {
            Some(o) => opt_wire_shift_slot_member(json::opt_json(m)) == Some(
                opt_wire_shift_slot(o),
            ),
            None => opt_wire_shift_slot_member(json::opt_json(m)) is None,
        },
{
    match m {
        None => Some(None),
        Some(j) => if j.is_null() {
            Some(None)
        } else {
            match read_wire_shift_slot(j) {
                Some(x) => Some(Some(x)),
                None => None,
            }
        },
    }
}
/// A shift as the service sends it.
pub struct WireShift {
    pub id: String,
    pub user_id: Option<String>,
    pub shared_shift: Option<WireShiftSlot>,
    pub draft_shift: Option<WireShiftSlot>,
}

/// The model of [`WireShift`].
pub struct WireShiftV {
    pub id: Seq<char>,
    pub user_id: Option<Seq<char>>,
    pub shared_shift: Option<WireShiftSlotV>,
    pub draft_shift: Option<WireShiftSlotV>,
}

impl View for WireShift {
    type V = WireShiftV;

    open spec fn view(&self) -> WireShiftV {
        WireShiftV {
            id: self.id@,
            user_id: text::opt_text(self.user_id),
            shared_shift: opt_wire_shift_slot(self.shared_shift),
            draft_shift: opt_wire_shift_slot(self.draft_shift),
        }
    }
}

/// A list of [`WireShift`] by their models.
pub open spec fn wire_shift_views(v: Seq<WireShift>) -> Seq<WireShiftV> {
    Seq::new(v.len(), |i: int| v[i]@)
}

/// How a JSON value reads as a [`WireShift`]; nothing where it does not.
pub open spec fn wire_shift_of(v: JsonV) -> Option<WireShiftV> {
    if !json::record_form(v, 4, 4) {
        None
    } else {
        match (
            json::str_of(json::member_of(v, "id"@, 0)),
            json::opt_text_member(json::member_of(v, "userId"@, 1)),
            opt_wire_shift_slot_member(json::member_of(v, "sharedShift"@, 2)),
            opt_wire_shift_slot_member(json::member_of(v, "draftShift"@, 3)),
        ) {
            (Some(id), Some(user_id), Some(shared_shift), Some(draft_shift)) => Some(
                WireShiftV { id, user_id, shared_shift, draft_shift },
            ),
            _ => None,
        }
    }
}

/// Reads a [`WireShift`].
pub fn read_wire_shift(v: &Json) -> (r: Option<WireShift>)
    ensures
        match r {
            Some(x) => wire_shift_of(v@) == Some(x@),
            None => wire_shift_of(v@) is None,
        },
{
    if !json::has_record_form(v, 4, 4) {
        return None;
    }
    let id = match json::as_text(json::member(v, "id", 0)) {
        Some(x) => x,
        None => {
            return None;
        },
    };
    let user_id = match json::read_opt_text(json::member(v, "userId", 1)) {
        Some(x) => x,
        None => {
            return None;
        },
    };
    let shared_shift = match read_opt_wire_shift_slot(json::member(v, "sharedShift", 2)) {
        Some(x) => x,
        None => {
            return None;
        },
    };
    let draft_shift = match read_opt_wire_shift_slot(json::member(v, "draftShift", 3)) {
        Some(x) => x,
        None => {
            return None;
        },
    };
    Some(WireShift { id, user_id, shared_shift, draft_shift })
}

/// How a list of JSON values reads as a list of [`WireShift`]: all of them or none.
pub open spec fn wire_shift_list(a: Seq<JsonV>) -> Option<Seq<WireShiftV>>
    decreases a.len(),
{
    if a.len() == 0 {
        Some(Seq::empty())
    } else {
        match (wire_shift_list(a.drop_last()), wire_shift_of(a.last())) {
            (Some(l), Some(x)) => Some(l.push(x)),
            _ => None,
        }
    }
}

proof fn lemma_wire_shift_list_prefix(a: Seq<JsonV>, i: int)
    requires
        0 <= i <= a.len(),
        wire_shift_list(a.take(i)) is None,
    ensures
        wire_shift_list(a) is None,
    decreases a.len() - i,
{
    if i < a.len() {
        assert(a.take(i + 1).drop_last() =~= a.take(i));
        lemma_wire_shift_list_prefix(a, i + 1);
    } else {
        assert(a.take(i) =~= a);
    }
}

fn read_wire_shift_list(a: &Vec<Json>) -> (r: Option<Vec<WireShift>>)
    ensures
        match r {
            Some(l) => wire_shift_list(json::items_view(a@)) == Some(wire_shift_views(l@)),
            None => wire_shift_list(json::items_view(a@)) is None,
        },
{
    let ghost all = json::items_view(a@);
    let mut out: Vec<WireShift> = Vec::new();
    let mut i: usize = 0;
    proof {
        assert(all.take(0) =~= Seq::empty());
        assert(wire_shift_views(out@) =~= Seq::empty());
    }
    while i < a.len()
        invariant
            i <= a@.len(),
            all == json::items_view(a@),
            wire_shift_list(all.take(i as int)) == Some(wire_shift_views(out@)),
        decreases a@.len() - i,
    {
        proof {
            assert(all.take(i + 1).drop_last() =~= all.take(i as int));
            assert(all.take(i + 1).last() == a@[i as int]@);
        }
        match read_wire_shift(&a[i]) {
            Some(x) => {
                let ghost before = out@;
                out.push(x);
                proof {
                    assert(wire_shift_views(out@) =~= wire_shift_views(before).push(x@));
                }
            },
            None => {
                proof {
                    lemma_wire_shift_list_prefix(all, i + 1);
                }
                return None;
            },
        }
        i = i + 1;
    }
    proof {
        assert(all.take(i as int) =~= all);
    }
    Some(out)
}

/// How a required list member reads.
pub open spec fn wire_shift_list_member(m: Option<JsonV>) -> Option<Seq<WireShiftV>> {
    match m {
        Some(JsonV::Arr(a)) => wire_shift_list(a),
        _ => None,
    }
}

fn read_wire_shift_list_member(m: Option<&Json>) -> (r: Option<Vec<WireShift>>)
    ensures
        match r {
            Some(l) => wire_shift_list_member(json::opt_json(m)) == Some(wire_shift_views(l@)),
            None => wire_shift_list_member(json::opt_json(m)) is None,
        },
{
    match m {
        Some(Json::Arr(a)) => {
            proof {
                json::lemma_arr_view(*a);
            }
            read_wire_shift_list(a)
        },
        _ => None,
    }
}
/// The reply to a request for shifts.
pub struct ShiftsResponse {
    pub value: Vec<WireShift>,
}

/// The model of [`ShiftsResponse`].
pub struct ShiftsResponseV {
    pub value: Seq<WireShiftV>,
}

impl View for ShiftsResponse {
    type V = ShiftsResponseV;

    open spec fn view(&self) -> ShiftsResponseV {
        ShiftsResponseV {
            value: wire_shift_views(self.value@),
        }
    }
}

/// How a JSON value reads as a [`ShiftsResponse`]; nothing where it does not.
pub open spec fn shifts_response_of(v: JsonV) -> Option<ShiftsResponseV> {
    if !json::record_form(v, 1, 1) {
        None
    } else {
        match wire_shift_list_member(json::member_of(v, "value"@, 0)) {
            Some(value) => Some(ShiftsResponseV { value }),
            None => None,
        }
    }
}

/// Reads a [`ShiftsResponse`].
pub fn read_shifts_response(v: &Json) -> (r: Option<ShiftsResponse>)
    ensures
        match r {
            Some(x) => shifts_response_of(v@) == Some(x@),
            None => shifts_response_of(v@) is None,
        },
{
    if !json::has_record_form(v, 1, 1) {
        return None;
    }
    let value = match read_wire_shift_list_member(json::member(v, "value", 0)) {
        Some(x) => x,
        None => {
            return None;
        },
    };
    Some(ShiftsResponse { value })
}
/// Time off, shared or drafted.
pub struct WireTimeOffSlot {
    pub start: Option<String>,
    pub end: Option<String>,
}

/// The model of [`WireTimeOffSlot`].
pub struct WireTimeOffSlotV {
    pub start: Option<Seq<char>>,
    pub end: Option<Seq<char>>,
}

impl View for WireTimeOffSlot {
    type V = WireTimeOffSlotV;

    open spec fn view(&self) -> WireTimeOffSlotV {
        WireTimeOffSlotV {
            start: text::opt_text(self.start),
            end: text::opt_text(self.end),
        }
    }
}

/// An optional [`WireTimeOffSlot`] by its model.
pub open spec fn opt_wire_time_off_slot(o: Option<WireTimeOffSlot>) -> Option<WireTimeOffSlotV> {
    match o {
        Some(x) => Some(x@),
        None => None,
    }
}

/// How a JSON value reads as a [`WireTimeOffSlot`]; nothing where it does not.
pub open spec fn wire_time_off_slot_of(v: JsonV) -> Option<WireTimeOffSlotV> {
    if !json::record_form(v, 2, 2) {
        None
    } else {
        match (
            json::opt_text_member(json::member_of(v, "startDateTime"@, 0)),
            json::opt_text_member(json::member_of(v, "endDateTime"@, 1)),
        ) {
            (Some(start), Some(end)) => Some(WireTimeOffSlotV { start, end }),
            _ => None,
        }
    }
}

/// Reads a [`WireTimeOffSlot`].
pub fn read_wire_time_off_slot(v: &Json) -> (r: Option<WireTimeOffSlot>)
    ensures
        match r {
            Some(x) => wire_time_off_slot_of(v@) == Some(x@),
            None => wire_time_off_slot_of(v@) is None,
        },
{
    if !json::has_record_form(v, 2, 2) {
        return None;
    }
    let start = match json::read_opt_text(json::member(v, "startDateTime", 0)) {
        Some(x) => x,
        None => {
            return None;
        },
    };
    let end = match json::read_opt_text(json::member(v, "endDateTime", 1)) {
        Some(x) => x,
        None => {
            return None;
        },
    };
    Some(WireTimeOffSlot { start, end })
}

/// How an optional member reads as a [`WireTimeOffSlot`].
pub open spec fn opt_wire_time_off_slot_member(m: Option<JsonV>) -> Option<
    Option<WireTimeOffSlotV>,
> {
    match m {
        None => Some(None),
        Some(JsonV::Null) => Some(None),
        Some(j) => match wire_time_off_slot_of(j) {
            Some(x) => Some(Some(x)),
            None => None,
        },
    }
}

fn read_opt_wire_time_off_slot(m: Option<&Json>) -> (r: Option<Option<WireTimeOffSlot>>)
    ensures
        match r {
            Some(o) => opt_wire_time_off_slot_member(json::opt_json(m)) == Some(
                opt_wire_time_off_slot(o),
            ),
            None => opt_wire_time_off_slot_member(json::opt_json(m)) is None,
        },
{
    match m {
        None => Some(None),
        Some(j) => if j.is_null() {
            Some(None)
        } else {
            match read_wire_time_off_slot(j) {
                Some(x) => Some(Some(x)),
                None => None,
            }
        },
    }
}
/// Time off as the service sends it.
pub struct WireTimeOff {
    pub id: String,
    pub user_id: Option<String>,
    pub reason_id: Option<String>,
    pub shared_time_off: Option<WireTimeOffSlot>,
    pub draft_time_off: Option<WireTimeOffSlot>,
}

/// The model of [`WireTimeOff`].
pub struct WireTimeOffV {
    pub id: Seq<char>,
    pub user_id: Option<Seq<char>>,
    pub reason_id: Option<Seq<char>>,
    pub shared_time_off: Option<WireTimeOffSlotV>,
    pub draft_time_off: Option<WireTimeOffSlotV>,
}

impl View for WireTimeOff {
    type V = WireTimeOffV;

    open spec fn view(&self) -> WireTimeOffV {
        WireTimeOffV {
            id: self.id@,
            user_id: text::opt_text(self.user_id),
            reason_id: text::opt_text(self.reason_id),
            shared_time_off: opt_wire_time_off_slot(self.shared_time_off),
            draft_time_off: opt_wire_time_off_slot(self.draft_time_off),
        }
    }
}

/// A list of [`WireTimeOff`] by their models.
pub open spec fn wire_time_off_views(v: Seq<WireTimeOff>) -> Seq<WireTimeOffV> {
    Seq::new(v.len(), |i: int| v[i]@)
}

/// How a JSON value reads as a [`WireTimeOff`]; nothing where it does not.
pub open spec fn wire_time_off_of(v: JsonV) -> Option<WireTimeOffV> {
    if !json::record_form(v, 5, 5) {
        None
    } else {
        match (
            json::str_of(json::member_of(v, "id"@, 0)),
            json::opt_text_member(json::member_of(v, "userId"@, 1)),
            json::opt_text_member(json::member_of(v, "timeOffReasonId"@, 2)),
            opt_wire_time_off_slot_member(json::member_of(v, "sharedTimeOff"@, 3)),
            opt_wire_time_off_slot_member(json::member_of(v, "draftTimeOff"@, 4)),
        ) {
            (
                Some(id),
                Some(user_id),
                Some(reason_id),
                Some(shared_time_off),
                Some(draft_time_off),
            ) => Some(
                WireTimeOffV { id, user_id, reason_id, shared_time_off, draft_time_off },
            ),
            _ => None,
        }
    }
}

/// Reads a [`WireTimeOff`].
pub fn read_wire_time_off(v: &Json) -> (r: Option<WireTimeOff>)
    ensures
        match r {
            Some(x) => wire_time_off_of(v@) == Some(x@),
            None => wire_time_off_of(v@) is None,
        },
{
    if !json::has_record_form(v, 5, 5) {
        return None;
    }
    let id = match json::as_text(json::member(v, "id", 0)) {
        Some(x) => x,
        None => {
            return None;
        },
    };
    let user_id = match json::read_opt_text(json::member(v, "userId", 1)) {
        Some(x) => x,
        None => {
            return None;
        },
    };
    let reason_id = match json::read_opt_text(json::member(v, "timeOffReasonId", 2)) {
        Some(x) => x,
        None => {
            return None;
        },
    };
    let shared_time_off = match read_opt_wire_time_off_slot(json::member(v, "sharedTimeOff", 3)) {
        Some(x) => x,
        None => {
            return None;
        },
    };
    let draft_time_off = match read_opt_wire_time_off_slot(json::member(v, "draftTimeOff", 4)) {
        Some(x) => x,
        None => {
            return None;
        },
    };
    Some(WireTimeOff { id, user_id, reason_id, shared_time_off, draft_time_off })
}

/// How a list of JSON values reads as a list of [`WireTimeOff`]: all of them or none.
pub open spec fn wire_time_off_list(a: Seq<JsonV>) -> Option<Seq<WireTimeOffV>>
    decreases a.len(),
{
    if a.len() == 0 {
        Some(Seq::empty())
    } else {
        match (wire_time_off_list(a.drop_last()), wire_time_off_of(a.last())) {
            (Some(l), Some(x)) => Some(l.push(x)),
            _ => None,
        }
    }
}

proof fn lemma_wire_time_off_list_prefix(a: Seq<JsonV>, i: int)
    requires
        0 <= i <= a.len(),
        wire_time_off_list(a.take(i)) is None,
    ensures
        wire_time_off_list(a) is None,
    decreases a.len() - i,
{
    if i < a.len() {
        assert(a.take(i + 1).drop_last() =~= a.take(i));
        lemma_wire_time_off_list_prefix(a, i + 1);
    } else {
        assert(a.take(i) =~= a);
    }
}

fn read_wire_time_off_list(a: &Vec<Json>) -> (r: Option<Vec<WireTimeOff>>)
    ensures
        match r {
            Some(l) => wire_time_off_list(json::items_view(a@)) == Some(wire_time_off_views(l@)),
            None => wire_time_off_list(json::items_view(a@)) is None,
        },
{
    let ghost all = json::items_view(a@);
    let mut out: Vec<WireTimeOff> = Vec::new();
    let mut i: usize = 0;
    proof {
        assert(all.take(0) =~= Seq::empty());
        assert(wire_time_off_views(out@) =~= Seq::empty());
    }
    while i < a.len()
        invariant
            i <= a@.len(),
            all == json::items_view(a@),
            wire_time_off_list(all.take(i as int)) == Some(wire_time_off_views(out@)),
        decreases a@.len() - i,
    {
        proof {
            assert(all.take(i + 1).drop_last() =~= all.take(i as int));
            assert(all.take(i + 1).last() == a@[i as int]@);
        }
        match read_wire_time_off(&a[i]) {
            Some(x) => {
                let ghost before = out@;
                out.push(x);
                proof {
                    assert(wire_time_off_views(out@) =~= wire_time_off_views(before).push(x@));
                }
            },
            None => {
                proof {
                    lemma_wire_time_off_list_prefix(all, i + 1);
                }
                return None;
            },
        }
        i = i + 1;
    }
    proof {
        assert(all.take(i as int) =~= all);
    }
    Some(out)
}

/// How a required list member reads.
pub open spec fn wire_time_off_list_member(m: Option<JsonV>) -> Option<Seq<WireTimeOffV>> {
    match m {
        Some(JsonV::Arr(a)) => wire_time_off_list(a),
        _ => None,
    }
}

fn read_wire_time_off_list_member(m: Option<&Json>) -> (r: Option<Vec<WireTimeOff>>)
    ensures
        match r {
            Some(l) => wire_time_off_list_member(json::opt_json(m)) == Some(
                wire_time_off_views(l@),
            ),
            None => wire_time_off_list_member(json::opt_json(m)) is None,
        },
{
    match m {
        Some(Json::Arr(a)) => {
            proof {
                json::lemma_arr_view(*a);
            }
            read_wire_time_off_list(a)
        },
        _ => None,
    }
}
/// The reply to a request for time off.
pub struct TimesOffResponse {
    pub value: Vec<WireTimeOff>,
}

/// The model of [`TimesOffResponse`].
pub struct TimesOffResponseV {
    pub value: Seq<WireTimeOffV>,
}

impl View for TimesOffResponse {
    type V = TimesOffResponseV;

    open spec fn view(&self) -> TimesOffResponseV {
        TimesOffResponseV {
            value: wire_time_off_views(self.value@),
        }
    }
}

/// How a JSON value reads as a [`TimesOffResponse`]; nothing where it does not.
pub open spec fn times_off_response_of(v: JsonV) -> Option<TimesOffResponseV> {
    if !json::record_form(v, 1, 1) {
        None
    } else {
        match wire_time_off_list_member(json::member_of(v, "value"@, 0)) {
            Some(value) => Some(TimesOffResponseV { value }),
            None => None,
        }
    }
}

/// Reads a [`TimesOffResponse`].
pub fn read_times_off_response(v: &Json) -> (r: Option<TimesOffResponse>)
    ensures
        match r {
            Some(x) => times_off_response_of(v@) == Some(x@),
            None => times_off_response_of(v@) is None,
        },
{
    if !json::has_record_form(v, 1, 1) {
        return None;
    }
    let value = match read_wire_time_off_list_member(json::member(v, "value", 0)) {
        Some(x) => x,
        None => {
            return None;
        },
    };
    Some(TimesOffResponse { value })
}
/// A reason for time off as the service sends it.
pub struct WireReason {
    pub id: String,
    pub display_name: Option<String>,
    pub code: Option<String>,
}

/// The model of [`WireReason`].
pub struct WireReasonV {
    pub id: Seq<char>,
    pub display_name: Option<Seq<char>>,
    pub code: Option<Seq<char>>,
}

impl View for WireReason {
    type V = WireReasonV;

    open spec fn view(&self) -> WireReasonV {
        WireReasonV {
            id: self.id@,
            display_name: text::opt_text(self.display_name),
            code: text::opt_text(self.code),
        }
    }
}

/// A list of [`WireReason`] by their models.
pub open spec fn wire_reason_views(v: Seq<WireReason>) -> Seq<WireReasonV> {
    Seq::new(v.len(), |i: int| v[i]@)
}

/// How a JSON value reads as a [`WireReason`]; nothing where it does not.
pub open spec fn wire_reason_of(v: JsonV) -> Option<WireReasonV> {
    if !json::record_form(v, 3, 3) {
        None
    } else {
        match (
            json::str_of(json::member_of(v, "id"@, 0)),
            json::opt_text_member(json::member_of(v, "displayName"@, 1)),
            json::opt_text_member(json::member_of(v, "code"@, 2)),
        ) {
            (Some(id), Some(display_name), Some(code)) => Some(
                WireReasonV { id, display_name, code },
            ),
            _ => None,
        }
    }
}

/// Reads a [`WireReason`].
pub fn read_wire_reason(v: &Json) -> (r: Option<WireReason>)
    ensures
        match r {
            Some(x) => wire_reason_of(v@) == Some(x@),
            None => wire_reason_of(v@) is None,
        },
{
    if !json::has_record_form(v, 3, 3) {
        return None;
    }
    let id = match json::as_text(json::member(v, "id", 0)) {
        Some(x) => x,
        None => {
            return None;
        },
    };
    let display_name = match json::read_opt_text(json::member(v, "displayName", 1)) {
        Some(x) => x,
        None => {
            return None;
        },
    };
    let code = match json::read_opt_text(json::member(v, "code", 2)) {
        Some(x) => x,
        None => {
            return None;
        },
    };
    Some(WireReason { id, display_name, code })
}

/// How a list of JSON values reads as a list of [`WireReason`]: all of them or none.
pub open spec fn wire_reason_list(a: Seq<JsonV>) -> Option<Seq<WireReasonV>>
    decreases a.len(),
{
    if a.len() == 0 {
        Some(Seq::empty())
    } else {
        match (wire_reason_list(a.drop_last()), wire_reason_of(a.last())) {
            (Some(l), Some(x)) => Some(l.push(x)),
            _ => None,
        }
    }
}

proof fn lemma_wire_reason_list_prefix(a: Seq<JsonV>, i: int)
    requires
        0 <= i <= a.len(),
        wire_reason_list(a.take(i)) is None,
    ensures
        wire_reason_list(a) is None,
    decreases a.len() - i,
{
    if i < a.len() {
        assert(a.take(i + 1).drop_last() =~= a.take(i));
        lemma_wire_reason_list_prefix(a, i + 1);
    } else {
        assert(a.take(i) =~= a);
    }
}

fn read_wire_reason_list(a: &Vec<Json>) -> (r: Option<Vec<WireReason>>)
    ensures
        match r {
            Some(l) => wire_reason_list(json::items_view(a@)) == Some(wire_reason_views(l@)),
            None => wire_reason_list(json::items_view(a@)) is None,
        },
{
    let ghost all = json::items_view(a@);
    let mut out: Vec<WireReason> = Vec::new();
    let mut i: usize = 0;
    proof {
        assert(all.take(0) =~= Seq::empty());
        assert(wire_reason_views(out@) =~= Seq::empty());
    }
    while i < a.len()
        invariant
            i <= a@.len(),
            all == json::items_view(a@),
            wire_reason_list(all.take(i as int)) == Some(wire_reason_views(out@)),
        decreases a@.len() - i,
    {
        proof {
            assert(all.take(i + 1).drop_last() =~= all.take(i as int));
            assert(all.take(i + 1).last() == a@[i as int]@);
        }
        match read_wire_reason(&a[i]) {
            Some(x) => {
                let ghost before = out@;
                out.push(x);
                proof {
                    assert(wire_reason_views(out@) =~= wire_reason_views(before).push(x@));
                }
            },
            None => {
                proof {
                    lemma_wire_reason_list_prefix(all, i + 1);
                }
                return None;
            },
        }
        i = i + 1;
    }
    proof {
        assert(all.take(i as int) =~= all);
    }
    Some(out)
}

/// How a required list member reads.
pub open spec fn wire_reason_list_member(m: Option<JsonV>) -> Option<Seq<WireReasonV>> {
    match m {
        Some(JsonV::Arr(a)) => wire_reason_list(a),
        _ => None,
    }
}

fn read_wire_reason_list_member(m: Option<&Json>) -> (r: Option<Vec<WireReason>>)
    ensures
        match r {
            Some(l) => wire_reason_list_member(json::opt_json(m)) == Some(wire_reason_views(l@)),
            None => wire_reason_list_member(json::opt_json(m)) is None,
        },
{
    match m {
        Some(Json::Arr(a)) => {
            proof {
                json::lemma_arr_view(*a);
            }
            read_wire_reason_list(a)
        },
        _ => None,
    }
}
/// The reply to a request for reasons.
pub struct ReasonsResponse {
    pub value: Vec<WireReason>,
}

/// The model of [`ReasonsResponse`].
pub struct ReasonsResponseV {
    pub value: Seq<WireReasonV>,
}

impl View for ReasonsResponse {
    type V = ReasonsResponseV;

    open spec fn view(&self) -> ReasonsResponseV {
        ReasonsResponseV {
            value: wire_reason_views(self.value@),
        }
    }
}

/// How a JSON value reads as a [`ReasonsResponse`]; nothing where it does not.
pub open spec fn reasons_response_of(v: JsonV) -> Option<ReasonsResponseV> {
    if !json::record_form(v, 1, 1) {
        None
    } else {
        match wire_reason_list_member(json::member_of(v, "value"@, 0)) {
            Some(value) => Some(ReasonsResponseV { value }),
            None => None,
        }
    }
}

/// Reads a [`ReasonsResponse`].
pub fn read_reasons_response(v: &Json) -> (r: Option<ReasonsResponse>)
    ensures
        match r {
            Some(x) => reasons_response_of(v@) == Some(x@),
            None => reasons_response_of(v@) is None,
        },
{
    if !json::has_record_form(v, 1, 1) {
        return None;
    }
    let value = match read_wire_reason_list_member(json::member(v, "value", 0)) {
        Some(x) => x,
        None => {
            return None;
        },
    };
    Some(ReasonsResponse { value })
}
/// A team's schedule.
pub struct ScheduleInfo {
    pub enabled: bool,
    pub time_zone: Option<String>,
    pub provision_status: Option<String>,
}

/// The model of [`ScheduleInfo`].
pub struct ScheduleInfoV {
    pub enabled: bool,
    pub time_zone: Option<Seq<char>>,
    pub provision_status: Option<Seq<char>>,
}

impl View for ScheduleInfo {
    type V = ScheduleInfoV;

    open spec fn view(&self) -> ScheduleInfoV {
        ScheduleInfoV {
            enabled: self.enabled,
            time_zone: text::opt_text(self.time_zone),
            provision_status: text::opt_text(self.provision_status),
        }
    }
}
/// A shift: the shared one, else the drafted one.
pub struct ShiftInfo {
    pub id: String,
    pub user_id: Option<String>,
    pub display_name: String,
    pub start: Option<String>,
    pub end: Option<String>,
    pub theme: Option<String>,
    pub notes: Option<String>,
    pub is_draft: bool,
}

/// The model of [`ShiftInfo`].
pub struct ShiftInfoV {
    pub id: Seq<char>,
    pub user_id: Option<Seq<char>>,
    pub display_name: Seq<char>,
    pub start: Option<Seq<char>>,
    pub end: Option<Seq<char>>,
    pub theme: Option<Seq<char>>,
    pub notes: Option<Seq<char>>,
    pub is_draft: bool,
}

impl View for ShiftInfo {
    type V = ShiftInfoV;

    open spec fn view(&self) -> ShiftInfoV {
        ShiftInfoV {
            id: self.id@,
            user_id: text::opt_text(self.user_id),
            display_name: self.display_name@,
            start: text::opt_text(self.start),
            end: text::opt_text(self.end),
            theme: text::opt_text(self.theme),
            notes: text::opt_text(self.notes),
            is_draft: self.is_draft,
        }
    }
}
/// A list of [`ShiftInfo`] by their models.
pub open spec fn shift_info_views(v: Seq<ShiftInfo>) -> Seq<ShiftInfoV> {
    Seq::new(v.len(), |i: int| v[i]@)
}
/// Time off: the shared one, else the drafted one.
pub struct TimeOffInfo {
    pub id: String,
    pub user_id: Option<String>,
    pub reason_id: Option<String>,
    pub start: Option<String>,
    pub end: Option<String>,
    pub is_draft: bool,
}

/// The model of [`TimeOffInfo`].
pub struct TimeOffInfoV {
    pub id: Seq<char>,
    pub user_id: Option<Seq<char>>,
    pub reason_id: Option<Seq<char>>,
    pub start: Option<Seq<char>>,
    pub end: Option<Seq<char>>,
    pub is_draft: bool,
}

impl View for TimeOffInfo {
    type V = TimeOffInfoV;

    open spec fn view(&self) -> TimeOffInfoV {
        TimeOffInfoV {
            id: self.id@,
            user_id: text::opt_text(self.user_id),
            reason_id: text::opt_text(self.reason_id),
            start: text::opt_text(self.start),
            end: text::opt_text(self.end),
            is_draft: self.is_draft,
        }
    }
}
/// A list of [`TimeOffInfo`] by their models.
pub open spec fn time_off_info_views(v: Seq<TimeOffInfo>) -> Seq<TimeOffInfoV> {
    Seq::new(v.len(), |i: int| v[i]@)
}
/// A reason for time off.
pub struct TimeOffReason {
    pub id: String,
    pub name: String,
    pub code: Option<String>,
}

/// The model of [`TimeOffReason`].
pub struct TimeOffReasonV {
    pub id: Seq<char>,
    pub name: Seq<char>,
    pub code: Option<Seq<char>>,
}

impl View for TimeOffReason {
    type V = TimeOffReasonV;

    open spec fn view(&self) -> TimeOffReasonV {
        TimeOffReasonV {
            id: self.id@,
            name: self.name@,
            code: text::opt_text(self.code),
        }
    }
}
/// A list of [`TimeOffReason`] by their models.
pub open spec fn time_off_reason_views(v: Seq<TimeOffReason>) -> Seq<TimeOffReasonV> {
    Seq::new(v.len(), |i: int| v[i]@)
}

/// A schedule is off unless it says that it is on.
pub open spec fn schedule_row(s: ScheduleResponseV) -> ScheduleInfoV {
    ScheduleInfoV {
        enabled: s.enabled == Some(true),
        time_zone: s.time_zone,
        provision_status: s.provision_status,
    }
}

/// What is shown of a schedule.
pub fn schedule_from_wire(s: &ScheduleResponse) -> (r: ScheduleInfo)
    ensures
        r@ == schedule_row(s@),
{
    let enabled = match s.enabled {
        Some(b) => b,
        None => false,
    };
    ScheduleInfo {
        enabled,
        time_zone: text::copy_opt(&s.time_zone),
        provision_status: text::copy_opt(&s.provision_status),
    }
}

/// What is shown of a shift: of its shared form, else of its draft, else nothing
/// but its id and its user.
pub open spec fn shift_row(s: WireShiftV) -> ShiftInfoV {
    let none = WireShiftSlotV {
        start: None,
        end: None,
        display_name: None,
        theme: None,
        notes: None,
    };
    let slot = match s.shared_shift {
        Some(x) => x,
        None => match s.draft_shift {
            Some(x) => x,
            None => none,
        },
    };
    ShiftInfoV {
        id: s.id,
        user_id: s.user_id,
        display_name: teams::or_text(slot.display_name, Seq::empty()),
        start: slot.start,
        end: slot.end,
        theme: slot.theme,
        notes: slot.notes,
        is_draft: s.shared_shift is None && s.draft_shift is Some,
    }
}

fn shift_of_slot(s: &WireShift, slot: &WireShiftSlot, is_draft: bool) -> (r: ShiftInfo)
    ensures
        r@ == (ShiftInfoV {
            id: s.id@,
            user_id: text::opt_text(s.user_id),
            display_name: teams::or_text(text::opt_text(slot.display_name), Seq::empty()),
            start: text::opt_text(slot.start),
            end: text::opt_text(slot.end),
            theme: text::opt_text(slot.theme),
            notes: text::opt_text(slot.notes),
            is_draft,
        }),
{
    proof {
        reveal_strlit("");
        assert(""@ =~= Seq::empty());
    }
    ShiftInfo {
        id: s.id.clone(),
        user_id: text::copy_opt(&s.user_id),
        display_name: teams::text_or(&slot.display_name, ""),
        start: text::copy_opt(&slot.start),
        end: text::copy_opt(&slot.end),
        theme: text::copy_opt(&slot.theme),
        notes: text::copy_opt(&slot.notes),
        is_draft,
    }
}

/// What is shown of a shift.
pub fn shift_from_wire(s: &WireShift) -> (r: ShiftInfo)
    ensures
        r@ == shift_row(s@),
{
    if let Some(slot) = &s.shared_shift {
        return shift_of_slot(s, slot, false);
    }
    if let Some(slot) = &s.draft_shift {
        return shift_of_slot(s, slot, true);
    }
    let none = WireShiftSlot {
        start: None,
        end: None,
        display_name: None,
        theme: None,
        notes: None,
    };
    shift_of_slot(s, &none, false)
}

/// What is shown of time off: of its shared form, else of its draft.
pub open spec fn time_off_row(t: WireTimeOffV) -> TimeOffInfoV {
    let none = WireTimeOffSlotV { start: None, end: None };
    let slot = match t.shared_time_off {
        Some(x) => x,
        None => match t.draft_time_off {
            Some(x) => x,
            None => none,
        },
    };
    TimeOffInfoV {
        id: t.id,
        user_id: t.user_id,
        reason_id: t.reason_id,
        start: slot.start,
        end: slot.end,
        is_draft: t.shared_time_off is None && t.draft_time_off is Some,
    }
}

fn time_off_of_slot(t: &WireTimeOff, slot: &WireTimeOffSlot, is_draft: bool) -> (r: TimeOffInfo)
    ensures
        r@ == (TimeOffInfoV {
            id: t.id@,
            user_id: text::opt_text(t.user_id),
            reason_id: text::opt_text(t.reason_id),
            start: text::opt_text(slot.start),
            end: text::opt_text(slot.end),
            is_draft,
        }),
{
    TimeOffInfo {
        id: t.id.clone(),
        user_id: text::copy_opt(&t.user_id),
        reason_id: text::copy_opt(&t.reason_id),
        start: text::copy_opt(&slot.start),
        end: text::copy_opt(&slot.end),
        is_draft,
    }
}

/// What is shown of time off.
pub fn time_off_from_wire(t: &WireTimeOff) -> (r: TimeOffInfo)
    ensures
        r@ == time_off_row(t@),
{
    if let Some(slot) = &t.shared_time_off {
        return time_off_of_slot(t, slot, false);
    }
    if let Some(slot) = &t.draft_time_off {
        return time_off_of_slot(t, slot, true);
    }
    let none = WireTimeOffSlot { start: None, end: None };
    time_off_of_slot(t, &none, false)
}

/// What is shown of a reason; without a name, its id.
pub open spec fn reason_row(x: WireReasonV) -> TimeOffReasonV {
    TimeOffReasonV { id: x.id, name: teams::or_text(x.display_name, x.id), code: x.code }
}

/// What is shown of a reason.
pub fn reason_from_wire(x: &WireReason) -> (r: TimeOffReason)
    ensures
        r@ == reason_row(x@),
{
    TimeOffReason {
        id: x.id.clone(),
        name: teams::text_or(&x.display_name, x.id.as_str()),
        code: text::copy_opt(&x.code),
    }
}
/// What is shown of the shifts, in order.
pub open spec fn shift_rows(v: Seq<WireShiftV>) -> Seq<ShiftInfoV> {
    Seq::new(v.len(), |i: int| shift_row(v[i]))
}

/// What is shown of the shifts, in order.
pub fn shift_infos(v: &Vec<WireShift>) -> (r: Vec<ShiftInfo>)
    ensures
        shift_info_views(r@) == shift_rows(wire_shift_views(v@)),
{
    let mut out: Vec<ShiftInfo> = Vec::new();
    let mut i: usize = 0;
    while i < v.len()
        invariant
            i <= v@.len(),
            out@.len() == i,
            forall|j: int| 0 <= j < i ==> (#[trigger] out@[j])@ == shift_row(v@[j]@),
        decreases v@.len() - i,
    {
        out.push(shift_from_wire(&v[i]));
        i = i + 1;
    }
    proof {
        assert(shift_info_views(out@) =~= shift_rows(wire_shift_views(v@)));
    }
    out
}
/// What is shown of the time off, in order.
pub open spec fn time_off_rows(v: Seq<WireTimeOffV>) -> Seq<TimeOffInfoV> {
    Seq::new(v.len(), |i: int| time_off_row(v[i]))
}

/// What is shown of the time off, in order.
pub fn time_off_infos(v: &Vec<WireTimeOff>) -> (r: Vec<TimeOffInfo>)
    ensures
        time_off_info_views(r@) == time_off_rows(wire_time_off_views(v@)),
{
    let mut out: Vec<TimeOffInfo> = Vec::new();
    let mut i: usize = 0;
    while i < v.len()
        invariant
            i <= v@.len(),
            out@.len() == i,
            forall|j: int| 0 <= j < i ==> (#[trigger] out@[j])@ == time_off_row(v@[j]@),
        decreases v@.len() - i,
    {
        out.push(time_off_from_wire(&v[i]));
        i = i + 1;
    }
    proof {
        assert(time_off_info_views(out@) =~= time_off_rows(wire_time_off_views(v@)));
    }
    out
}
/// What is shown of the reasons, in order.
pub open spec fn reason_rows(v: Seq<WireReasonV>) -> Seq<TimeOffReasonV> {
    Seq::new(v.len(), |i: int| reason_row(v[i]))
}

/// What is shown of the reasons, in order.
pub fn time_off_reasons(v: &Vec<WireReason>) -> (r: Vec<TimeOffReason>)
    ensures
        time_off_reason_views(r@) == reason_rows(wire_reason_views(v@)),
{
    let mut out: Vec<TimeOffReason> = Vec::new();
    let mut i: usize = 0;
    while i < v.len()
        invariant
            i <= v@.len(),
            out@.len() == i,
            forall|j: int| 0 <= j < i ==> (#[trigger] out@[j])@ == reason_row(v@[j]@),
        decreases v@.len() - i,
    {
        out.push(reason_from_wire(&v[i]));
        i = i + 1;
    }
    proof {
        assert(time_off_reason_views(out@) =~= reason_rows(wire_reason_views(v@)));
    }
    out
}
/// A team's schedule, by the JSON value of the reply; nothing where it is of another form.
pub open spec fn schedule_of(v: JsonV) -> Option<ScheduleInfoV> {
    match schedule_response_of(v) {
        Some(x) => Some(schedule_row(x)),
        None => None,
    }
}

/// A team's schedule, by the JSON value of the reply.
pub fn read_schedule(v: &Json) -> (r: Option<ScheduleInfo>)
    ensures
        match r {
            Some(x) => schedule_of(v@) == Some(x@),
            None => schedule_of(v@) is None,
        },
{
    match read_schedule_response(v) {
        Some(x) => Some(schedule_from_wire(&x)),
        None => None,
    }
}

/// A team's schedule, by the body of the reply.
pub fn list_schedule_data(body: &[u8]) -> (r: Result<ScheduleInfo, String>)
    ensures
        match r {
            Ok(x) => json::json_bytes(body@) matches Some(v) && schedule_of(v) == Some(x@),
            Err(e) => (json::json_bytes(body@) matches Some(v) ==> schedule_of(v) is None) && e@
                == "Failed to parse schedule response"@,
        },
{
    if let Some(v) = json::parse_json_bytes(body) {
        if let Some(x) = read_schedule(&v) {
            return Ok(x);
        }
    }
    Err("Failed to parse schedule response".to_string())
}
/// The shifts of a team, by the JSON value of the reply; nothing where it is of another form.
pub open spec fn shifts_of(v: JsonV) -> Option<Seq<ShiftInfoV>> {
    match shifts_response_of(v) {
        Some(x) => Some(shift_rows(x.value)),
        None => None,
    }
}

/// The shifts of a team, by the JSON value of the reply.
pub fn read_shifts(v: &Json) -> (r: Option<Vec<ShiftInfo>>)
    ensures
        match r {
            Some(l) => shifts_of(v@) == Some(shift_info_views(l@)),
            None => shifts_of(v@) is None,
        },
{
    match read_shifts_response(v) {
        Some(x) => Some(shift_infos(&x.value)),
        None => None,
    }
}

/// The shifts of a team, by the body of the reply.
pub fn list_shifts_data(body: &[u8]) -> (r: Result<Vec<ShiftInfo>, String>)
    ensures
        match r {
            Ok(l) => json::json_bytes(body@) matches Some(v) && shifts_of(v) == Some(
                shift_info_views(l@),
            ),
            Err(e) => (json::json_bytes(body@) matches Some(v) ==> shifts_of(v) is None) && e@
                == "Failed to parse shifts response"@,
        },
{
    if let Some(v) = json::parse_json_bytes(body) {
        if let Some(l) = read_shifts(&v) {
            return Ok(l);
        }
    }
    Err("Failed to parse shifts response".to_string())
}
/// The time off of a team, by the JSON value of the reply; nothing where it is of another form.
pub open spec fn times_off_of(v: JsonV) -> Option<Seq<TimeOffInfoV>> {
    match times_off_response_of(v) {
        Some(x) => Some(time_off_rows(x.value)),
        None => None,
    }
}

/// The time off of a team, by the JSON value of the reply.
pub fn read_times_off(v: &Json) -> (r: Option<Vec<TimeOffInfo>>)
    ensures
        match r {
            Some(l) => times_off_of(v@) == Some(time_off_info_views(l@)),
            None => times_off_of(v@) is None,
        },
{
    match read_times_off_response(v) {
        Some(x) => Some(time_off_infos(&x.value)),
        None => None,
    }
}

/// The time off of a team, by the body of the reply.
pub fn list_timesoffs_data(body: &[u8]) -> (r: Result<Vec<TimeOffInfo>, String>)
    ensures
        match r {
            Ok(l) => json::json_bytes(body@) matches Some(v) && times_off_of(v) == Some(
                time_off_info_views(l@),
            ),
            Err(e) => (json::json_bytes(body@) matches Some(v) ==> times_off_of(v) is None) && e@
                == "Failed to parse timesOff response"@,
        },
{
    if let Some(v) = json::parse_json_bytes(body) {
        if let Some(l) = read_times_off(&v) {
            return Ok(l);
        }
    }
    Err("Failed to parse timesOff response".to_string())
}
/// The reasons for time off of a team, by the JSON value of the reply; nothing where it
/// is of another form.
pub open spec fn reasons_of(v: JsonV) -> Option<Seq<TimeOffReasonV>> {
    match reasons_response_of(v) {
        Some(x) => Some(reason_rows(x.value)),
        None => None,
    }
}

/// The reasons for time off of a team, by the JSON value of the reply.
pub fn read_reasons(v: &Json) -> (r: Option<Vec<TimeOffReason>>)
    ensures
        match r {
            Some(l) => reasons_of(v@) == Some(time_off_reason_views(l@)),
            None => reasons_of(v@) is None,
        },
{
    match read_reasons_response(v) {
        Some(x) => Some(time_off_reasons(&x.value)),
        None => None,
    }
}

/// The reasons for time off of a team, by the body of the reply.
pub fn list_timeoff_reasons_data(body: &[u8]) -> (r: Result<Vec<TimeOffReason>, String>)
    ensures
        match r {
            Ok(l) => json::json_bytes(body@) matches Some(v) && reasons_of(v) == Some(
                time_off_reason_views(l@),
            ),
            Err(e) => (json::json_bytes(body@) matches Some(v) ==> reasons_of(v) is None) && e@
                == "Failed to parse timeOffReasons response"@,
        },
{
    if let Some(v) = json::parse_json_bytes(body) {
        if let Some(l) = read_reasons(&v) {
            return Ok(l);
        }
    }
    Err("Failed to parse timeOffReasons response".to_string())
}

/// The part of a schedule that a path names.
#[derive(Clone, Copy, Debug, PartialEq, Eq, Structural)]
pub enum SchedulePart {
    Whole,
    Shifts,
    TimesOff,
    Reasons,
}

/// The end of the path of a part of a schedule.
pub open spec fn part_path(p: SchedulePart) -> Seq<char> {
    match p {
        SchedulePart::Whole => "/schedule"@,
        SchedulePart::Shifts => "/schedule/shifts"@,
        SchedulePart::TimesOff => "/schedule/timesOff"@,
        SchedulePart::Reasons => "/schedule/timeOffReasons"@,
    }
}

/// The id of a team without the white space around it; the error is the text to
/// show.
pub fn checked_team_id(team_id: &str) -> (r: Result<String, String>)
    ensures
        match r {
            Ok(id) => !text::blank(team_id@) && id@ == text::trimmed(team_id@),
            Err(e) => text::blank(team_id@) && e@ == "empty team_id"@,
        },
{
    if text::is_blank(team_id) {
        return Err("empty team_id".to_string());
    }
    Ok(text::trim(team_id))
}

/// The path of a part of a team's schedule; the error is the text to show.
pub fn schedule_path(team_id: &str, part: SchedulePart) -> (r: Result<String, String>)
    ensures
        match r {
            Ok(p) => !text::blank(team_id@) && p@ == "/teams/"@ + text::trimmed(team_id@)
                + part_path(part),
            Err(e) => text::blank(team_id@) && e@ == "empty team_id"@,
        },
{
    let id = match checked_team_id(team_id) {
        Ok(id) => id,
        Err(e) => {
            return Err(e);
        },
    };
    let mut s = text::join2("/teams/", id.as_str());
    match part {
        SchedulePart::Whole => {
            s.append("/schedule");
        },
        SchedulePart::Shifts => {
            s.append("/schedule/shifts");
        },
        SchedulePart::TimesOff => {
            s.append("/schedule/timesOff");
        },
        SchedulePart::Reasons => {
            s.append("/schedule/timeOffReasons");
        },
    }
    Ok(s)
}

// -- What the commands show --

/// What is shown of a shift.
pub open spec fn shift_shown(x: ShiftInfoV) -> Seq<char> {
    "  "@ + x.display_name + " "@
        + (match x.start {
            Some(t) => t,
            None => "?"@,
        }) + " -> "@
        + (match x.end {
            Some(t) => t,
            None => "?"@,
        }) + " "@
        + (if x.is_draft {
            "(draft)"@
        } else {
            Seq::empty()
        }) + "\n"@
}

fn show_shift(x: &ShiftInfo) -> (r: String)
    ensures
        r@ == shift_shown(x@),
{
    let mut s = String::new();
    s.append("  ");
    s.append(x.display_name.as_str());
    s.append(" ");
    match &x.start {
        Some(t) => {
            s.append(t.as_str());
        },
        None => {
            s.append("?");
        },
    }
    s.append(" -> ");
    match &x.end {
        Some(t) => {
            s.append(t.as_str());
        },
        None => {
            s.append("?");
        },
    }
    s.append(" ");
    if x.is_draft {
        s.append("(draft)");
    }
    s.append("\n");
    proof {
        assert(s@ =~= shift_shown(x@));
    }
    s
}

/// What is shown of a list, entry by entry.
pub open spec fn shifts_shown(v: Seq<ShiftInfoV>) -> Seq<char>
    decreases v.len(),
{
    if v.len() == 0 {
        Seq::empty()
    } else {
        shifts_shown(v.drop_last()) + shift_shown(v.last())
    }
}

fn show_shifts(v: &Vec<ShiftInfo>) -> (r: String)
    ensures
        r@ == shifts_shown(shift_info_views(v@)),
{
    let ghost all = shift_info_views(v@);
    let mut s = String::new();
    let mut i: usize = 0;
    proof {
        assert(all.take(0) =~= Seq::empty());
        assert(s@ =~= Seq::empty());
    }
    while i < v.len()
        invariant
            i <= v@.len(),
            all == shift_info_views(v@),
            s@ == shifts_shown(all.take(i as int)),
        decreases v@.len() - i,
    {
        proof {
            assert(all.take(i + 1).drop_last() =~= all.take(i as int));
            assert(all.take(i + 1).last() == v@[i as int]@);
        }
        s.append(show_shift(&v[i]).as_str());
        i = i + 1;
    }
    proof {
        assert(all.take(i as int) =~= all);
    }
    s
}

/// What is shown of time off.
pub open spec fn off_shown(x: TimeOffInfoV) -> Seq<char> {
    "  time-off "@
        + (match x.start {
            Some(t) => t,
            None => "?"@,
        }) + " -> "@
        + (match x.end {
            Some(t) => t,
            None => "?"@,
        }) + " "@
        + (if x.is_draft {
            "(draft)"@
        } else {
            Seq::empty()
        }) + "\n"@
}

fn show_off(x: &TimeOffInfo) -> (r: String)
    ensures
        r@ == off_shown(x@),
{
    let mut s = String::new();
    s.append("  time-off ");
    match &x.start {
        Some(t) => {
            s.append(t.as_str());
        },
        None => {
            s.append("?");
        },
    }
    s.append(" -> ");
    match &x.end {
        Some(t) => {
            s.append(t.as_str());
        },
        None => {
            s.append("?");
        },
    }
    s.append(" ");
    if x.is_draft {
        s.append("(draft)");
    }
    s.append("\n");
    proof {
        assert(s@ =~= off_shown(x@));
    }
    s
}

/// What is shown of a list, entry by entry.
pub open spec fn offs_shown(v: Seq<TimeOffInfoV>) -> Seq<char>
    decreases v.len(),
{
    if v.len() == 0 {
        Seq::empty()
    } else {
        offs_shown(v.drop_last()) + off_shown(v.last())
    }
}

fn show_offs(v: &Vec<TimeOffInfo>) -> (r: String)
    ensures
        r@ == offs_shown(time_off_info_views(v@)),
{
    let ghost all = time_off_info_views(v@);
    let mut s = String::new();
    let mut i: usize = 0;
    proof {
        assert(all.take(0) =~= Seq::empty());
        assert(s@ =~= Seq::empty());
    }
    while i < v.len()
        invariant
            i <= v@.len(),
            all == time_off_info_views(v@),
            s@ == offs_shown(all.take(i as int)),
        decreases v@.len() - i,
    {
        proof {
            assert(all.take(i + 1).drop_last() =~= all.take(i as int));
            assert(all.take(i + 1).last() == v@[i as int]@);
        }
        s.append(show_off(&v[i]).as_str());
        i = i + 1;
    }
    proof {
        assert(all.take(i as int) =~= all);
    }
    s
}

/// The schedule of a team: its shifts and the time off.
pub open spec fn schedule_shown(
    schedule: ScheduleInfoV,
    shifts: Seq<ShiftInfoV>,
    offs: Seq<TimeOffInfoV>,
) -> Seq<char> {
    "\nTeam Schedule (enabled: "@ + (if schedule.enabled {
        "true"@
    } else {
        "false"@
    }) + "):\n------------------------------------------------------------\n"@
        + (if shifts.len() == 0 && offs.len() == 0 {
        "  (no shifts or time-off found)\n"@
    } else {
        shifts_shown(shifts) + offs_shown(offs)
    })
}

/// The schedule of a team: its shifts and the time off.
pub fn list_shifts(
    schedule: &ScheduleInfo,
    shifts: &Vec<ShiftInfo>,
    offs: &Vec<TimeOffInfo>,
) -> (r: String)
    ensures
        r@ == schedule_shown(schedule@, shift_info_views(shifts@), time_off_info_views(offs@)),
{
    let mut s = "\nTeam Schedule (enabled: ".to_string();
    if schedule.enabled {
        s.append("true");
    } else {
        s.append("false");
    }
    s.append("):\n------------------------------------------------------------\n");
    if shifts.len() == 0 && offs.len() == 0 {
        s.append("  (no shifts or time-off found)\n");
    } else {
        s.append(show_shifts(shifts).as_str());
        s.append(show_offs(offs).as_str());
    }
    proof {
        assert(s@ =~= schedule_shown(
            schedule@,
            shift_info_views(shifts@),
            time_off_info_views(offs@),
        ));
    }
    s
}

// -- What is read --

/// What is read of a [`ScheduleResponse`] stands in the members of these names, and it is read
/// where they hold what they should.
pub proof fn law_schedule_response_reads_its_members(v: JsonV)
    requires
        v is Obj,
    ensures
        match schedule_response_of(v) {
            Some(x) => {
                &&& json::opt_bool_member(json::get_of(v, "enabled"@)) == Some(x.enabled)
                &&& x.time_zone == json::str_of(json::get_of(v, "timeZone"@))
                &&& x.provision_status == json::str_of(json::get_of(v, "provisionStatus"@))
            },
            None => !(json::opt_bool_member(json::get_of(v, "enabled"@)) is Some
                && json::opt_text_member(json::get_of(v, "timeZone"@)) is Some
                && json::opt_text_member(json::get_of(v, "provisionStatus"@)) is Some),
        },
{
}

/// What is read of a [`WireShiftSlot`] stands in the members of these names, and it is read
/// where they hold what they should.
pub proof fn law_wire_shift_slot_reads_its_members(v: JsonV)
    requires
        v is Obj,
    ensures
        match wire_shift_slot_of(v) {
            Some(x) => {
                &&& x.start == json::str_of(json::get_of(v, "startDateTime"@))
                &&& x.end == json::str_of(json::get_of(v, "endDateTime"@))
                &&& x.display_name == json::str_of(json::get_of(v, "displayName"@))
                &&& x.theme == json::str_of(json::get_of(v, "theme"@))
                &&& x.notes == json::str_of(json::get_of(v, "notes"@))
            },
            None => !(json::opt_text_member(json::get_of(v, "startDateTime"@)) is Some
                && json::opt_text_member(json::get_of(v, "endDateTime"@)) is Some
                && json::opt_text_member(json::get_of(v, "displayName"@)) is Some
                && json::opt_text_member(json::get_of(v, "theme"@)) is Some
                && json::opt_text_member(json::get_of(v, "notes"@)) is Some),
        },
{
}

/// What is read of a [`WireShift`] stands in the members of these names, and it is read
/// where they hold what they should.
pub proof fn law_wire_shift_reads_its_members(v: JsonV)
    requires
        v is Obj,
    ensures
        match wire_shift_of(v) {
            Some(x) => {
                &&& json::str_of(json::get_of(v, "id"@)) == Some(x.id)
                &&& x.user_id == json::str_of(json::get_of(v, "userId"@))
                &&& (json::get_of(v, "sharedShift"@) is None
                    || json::get_of(v, "sharedShift"@) == Some(JsonV::Null))
                    ==> x.shared_shift is None
                &&& json::get_of(v, "sharedShift"@) matches Some(w) ==> w != JsonV::Null
                    ==> x.shared_shift is Some && wire_shift_slot_of(w) == x.shared_shift
                &&& (json::get_of(v, "draftShift"@) is None
                    || json::get_of(v, "draftShift"@) == Some(JsonV::Null))
                    ==> x.draft_shift is None
                &&& json::get_of(v, "draftShift"@) matches Some(w) ==> w != JsonV::Null
                    ==> x.draft_shift is Some && wire_shift_slot_of(w) == x.draft_shift
            },
            None => !(json::str_of(json::get_of(v, "id"@)) is Some
                && json::opt_text_member(json::get_of(v, "userId"@)) is Some
                && opt_wire_shift_slot_member(json::get_of(v, "sharedShift"@)) is Some
                && opt_wire_shift_slot_member(json::get_of(v, "draftShift"@)) is Some),
        },
{
}

// The entries of a list, in their order.
proof fn lemma_wire_shift_list_entries(a: Seq<JsonV>)
    ensures
        wire_shift_list(a) matches Some(l) ==> l.len() == a.len() && forall|i: int|
            0 <= i < a.len() ==> wire_shift_of(a[i]) == Some(#[trigger] l[i]),
    decreases a.len(),
{
    if a.len() > 0 {
        lemma_wire_shift_list_entries(a.drop_last());
        if let Some(l) = wire_shift_list(a) {
            assert forall|i: int| 0 <= i < a.len() implies wire_shift_of(a[i])
                == Some(#[trigger] l[i]) by {
                if i < a.len() - 1 {
                    let before = wire_shift_list(a.drop_last())->0;
                    assert(l[i] == before[i]);
                    assert(a.drop_last()[i] == a[i]);
                }
            }
        }
    }
}

/// What is read of a [`ShiftsResponse`] stands in the members of these names, and it is read
/// where they hold what they should.
pub proof fn law_shifts_response_reads_its_members(v: JsonV)
    requires
        v is Obj,
    ensures
        match shifts_response_of(v) {
            Some(x) => {
                &&& (json::arr_of(json::get_of(v, "value"@)) matches Some(a)
                    && x.value.len() == a.len() && forall|i: int| 0 <= i < a.len()
                    ==> wire_shift_of(a[i]) == Some(#[trigger] x.value[i]))
            },
            None => !(wire_shift_list_member(json::get_of(v, "value"@)) is Some),
        },
{
    if let Some(JsonV::Arr(a)) = json::get_of(v, "value"@) {
        lemma_wire_shift_list_entries(a);
    }
}

/// What is read of a [`WireTimeOffSlot`] stands in the members of these names, and it is read
/// where they hold what they should.
pub proof fn law_wire_time_off_slot_reads_its_members(v: JsonV)
    requires
        v is Obj,
    ensures
        match wire_time_off_slot_of(v) {
            Some(x) => {
                &&& x.start == json::str_of(json::get_of(v, "startDateTime"@))
                &&& x.end == json::str_of(json::get_of(v, "endDateTime"@))
            },
            None => !(json::opt_text_member(json::get_of(v, "startDateTime"@)) is Some
                && json::opt_text_member(json::get_of(v, "endDateTime"@)) is Some),
        },
{
}

/// What is read of a [`WireTimeOff`] stands in the members of these names, and it is read
/// where they hold what they should.
pub proof fn law_wire_time_off_reads_its_members(v: JsonV)
    requires
        v is Obj,
    ensures
        match wire_time_off_of(v) {
            Some(x) => {
                &&& json::str_of(json::get_of(v, "id"@)) == Some(x.id)
                &&& x.user_id == json::str_of(json::get_of(v, "userId"@))
                &&& x.reason_id == json::str_of(json::get_of(v, "timeOffReasonId"@))
                &&& (json::get_of(v, "sharedTimeOff"@) is None
                    || json::get_of(v, "sharedTimeOff"@) == Some(JsonV::Null))
                    ==> x.shared_time_off is None
                &&& json::get_of(v, "sharedTimeOff"@) matches Some(w) ==> w != JsonV::Null
                    ==> x.shared_time_off is Some && wire_time_off_slot_of(w) == x.shared_time_off
                &&& (json::get_of(v, "draftTimeOff"@) is None
                    || json::get_of(v, "draftTimeOff"@) == Some(JsonV::Null))
                    ==> x.draft_time_off is None
                &&& json::get_of(v, "draftTimeOff"@) matches Some(w) ==> w != JsonV::Null
                    ==> x.draft_time_off is Some && wire_time_off_slot_of(w) == x.draft_time_off
            },
            None => !(json::str_of(json::get_of(v, "id"@)) is Some
                && json::opt_text_member(json::get_of(v, "userId"@)) is Some
                && json::opt_text_member(json::get_of(v, "timeOffReasonId"@)) is Some
                && opt_wire_time_off_slot_member(json::get_of(v, "sharedTimeOff"@)) is Some
                && opt_wire_time_off_slot_member(json::get_of(v, "draftTimeOff"@)) is Some),
        },
{
}

// The entries of a list, in their order.
proof fn lemma_wire_time_off_list_entries(a: Seq<JsonV>)
    ensures
        wire_time_off_list(a) matches Some(l) ==> l.len() == a.len() && forall|i: int|
            0 <= i < a.len() ==> wire_time_off_of(a[i]) == Some(#[trigger] l[i]),
    decreases a.len(),
{
    if a.len() > 0 {
        lemma_wire_time_off_list_entries(a.drop_last());
        if let Some(l) = wire_time_off_list(a) {
            assert forall|i: int| 0 <= i < a.len() implies wire_time_off_of(a[i])
                == Some(#[trigger] l[i]) by {
                if i < a.len() - 1 {
                    let before = wire_time_off_list(a.drop_last())->0;
                    assert(l[i] == before[i]);
                    assert(a.drop_last()[i] == a[i]);
                }
            }
        }
    }
}

/// What is read of a [`TimesOffResponse`] stands in the members of these names, and it is read
/// where they hold what they should.
pub proof fn law_times_off_response_reads_its_members(v: JsonV)
    requires
        v is Obj,
    ensures
        match times_off_response_of(v) {
            Some(x) => {
                &&& (json::arr_of(json::get_of(v, "value"@)) matches Some(a)
                    && x.value.len() == a.len() && forall|i: int| 0 <= i < a.len()
                    ==> wire_time_off_of(a[i]) == Some(#[trigger] x.value[i]))
            },
            None => !(wire_time_off_list_member(json::get_of(v, "value"@)) is Some),
        },
{
    if let Some(JsonV::Arr(a)) = json::get_of(v, "value"@) {
        lemma_wire_time_off_list_entries(a);
    }
}

/// What is read of a [`WireReason`] stands in the members of these names, and it is read
/// where they hold what they should.
pub proof fn law_wire_reason_reads_its_members(v: JsonV)
    requires
        v is Obj,
    ensures
        match wire_reason_of(v) {
            Some(x) => {
                &&& json::str_of(json::get_of(v, "id"@)) == Some(x.id)
                &&& x.display_name == json::str_of(json::get_of(v, "displayName"@))
                &&& x.code == json::str_of(json::get_of(v, "code"@))
            },
            None => !(json::str_of(json::get_of(v, "id"@)) is Some
                && json::opt_text_member(json::get_of(v, "displayName"@)) is Some
                && json::opt_text_member(json::get_of(v, "code"@)) is Some),
        },
{
}

// The entries of a list, in their order.
proof fn lemma_wire_reason_list_entries(a: Seq<JsonV>)
    ensures
        wire_reason_list(a) matches Some(l) ==> l.len() == a.len() && forall|i: int|
            0 <= i < a.len() ==> wire_reason_of(a[i]) == Some(#[trigger] l[i]),
    decreases a.len(),
{
    if a.len() > 0 {
        lemma_wire_reason_list_entries(a.drop_last());
        if let Some(l) = wire_reason_list(a) {
            assert forall|i: int| 0 <= i < a.len() implies wire_reason_of(a[i])
                == Some(#[trigger] l[i]) by {
                if i < a.len() - 1 {
                    let before = wire_reason_list(a.drop_last())->0;
                    assert(l[i] == before[i]);
                    assert(a.drop_last()[i] == a[i]);
                }
            }
        }
    }
}

/// What is read of a [`ReasonsResponse`] stands in the members of these names, and it is read
/// where they hold what they should.
pub proof fn law_reasons_response_reads_its_members(v: JsonV)
    requires
        v is Obj,
    ensures
        match reasons_response_of(v) {
            Some(x) => {
                &&& (json::arr_of(json::get_of(v, "value"@)) matches Some(a)
                    && x.value.len() == a.len() && forall|i: int| 0 <= i < a.len()
                    ==> wire_reason_of(a[i]) == Some(#[trigger] x.value[i]))
            },
            None => !(wire_reason_list_member(json::get_of(v, "value"@)) is Some),
        },
{
    if let Some(JsonV::Arr(a)) = json::get_of(v, "value"@) {
        lemma_wire_reason_list_entries(a);
    }
}

// -- What is listed --

/// A shift is shown as it was shared, else as it was drafted; it is a draft only where it
/// was not shared.
pub proof fn law_shared_shift_comes_first(v: Seq<WireShiftV>, i: int)
    requires
        0 <= i < v.len(),
    ensures
        shift_rows(v).len() == v.len(),
        ({
            let s = v[i];
            let r = shift_rows(v)[i];
            &&& r.id == s.id
            &&& r.user_id == s.user_id
            &&& s.shared_shift matches Some(x) ==> r.start == x.start && r.end == x.end && r.theme
                == x.theme && r.notes == x.notes && !r.is_draft
            &&& s.shared_shift is None ==> (s.draft_shift matches Some(x) ==> r.start == x.start
                && r.end == x.end && r.theme == x.theme && r.notes == x.notes && r.is_draft)
            &&& s.shared_shift is None && s.draft_shift is None ==> r.start is None && r.end is None
                && !r.is_draft
            &&& s.shared_shift matches Some(x) ==> (x.display_name matches Some(n)
                ==> r.display_name == n)
        }),
{
}

/// A time off is shown as it was shared, else as it was drafted; it is a draft only where
/// it was not shared.
pub proof fn law_shared_time_off_comes_first(v: Seq<WireTimeOffV>, i: int)
    requires
        0 <= i < v.len(),
    ensures
        time_off_rows(v).len() == v.len(),
        ({
            let s = v[i];
            let r = time_off_rows(v)[i];
            &&& r.id == s.id
            &&& r.user_id == s.user_id
            &&& r.reason_id == s.reason_id
            &&& s.shared_time_off matches Some(x) ==> r.start == x.start && r.end == x.end
                && !r.is_draft
            &&& s.shared_time_off is None ==> (s.draft_time_off matches Some(x) ==> r.start
                == x.start && r.end == x.end && r.is_draft)
            &&& s.shared_time_off is None && s.draft_time_off is None ==> r.start is None && r.end
                is None && !r.is_draft
        }),
{
}

/// Reasons go by their own names, else by their ids; a schedule is in use only where it
/// says so.
pub proof fn law_reasons_are_listed_as_they_came(v: Seq<WireReasonV>, i: int, s: ScheduleResponseV)
    ensures
        reason_rows(v).len() == v.len(),
        0 <= i < v.len() ==> {
            &&& reason_rows(v)[i].id == v[i].id
            &&& v[i].display_name matches Some(n) ==> reason_rows(v)[i].name == n
            &&& v[i].display_name is None ==> reason_rows(v)[i].name == v[i].id
            &&& reason_rows(v)[i].code == v[i].code
        },
        schedule_row(s).enabled <==> s.enabled == Some(true),
        schedule_row(s).time_zone == s.time_zone,
        schedule_row(s).provision_status == s.provision_status,
{
}

/// Each part of a schedule stands at its own path.
pub proof fn law_parts_have_their_paths()
    ensures
        part_path(SchedulePart::Whole) == "/schedule"@,
        part_path(SchedulePart::Shifts) == "/schedule/shifts"@,
        part_path(SchedulePart::TimesOff) == "/schedule/timesOff"@,
        part_path(SchedulePart::Reasons) == "/schedule/timeOffReasons"@,
{
}

/// A shift is shown from its start to its end.
pub proof fn law_shift_is_shown_from_start_to_end(x: ShiftInfoV, s: Seq<char>, e: Seq<char>)
    requires
        x.start == Some(s),
        x.end == Some(e),
    ensures
        ("  "@ + x.display_name + " "@ + s + " -> "@ + e + " "@).is_prefix_of(shift_shown(x)),
{
    let p = "  "@ + x.display_name + " "@ + s + " -> "@ + e + " "@;
    assert(shift_shown(x).subrange(0, p.len() as int) =~= p);
}

/// Shifts are shown one after the other, in the order of the list.
pub proof fn law_shifts_are_shown_in_order(a: Seq<ShiftInfoV>, b: Seq<ShiftInfoV>)
    ensures
        shifts_shown(a + b) == shifts_shown(a) + shifts_shown(b),
    decreases b.len(),
{
    if b.len() == 0 {
        assert(a + b =~= a);
        assert(shifts_shown(a) + shifts_shown(b) =~= shifts_shown(a));
    } else {
        law_shifts_are_shown_in_order(a, b.drop_last());
        assert((a + b).drop_last() =~= a + b.drop_last());
        assert((a + b).last() == b.last());
        assert(shifts_shown(a + b) =~= shifts_shown(a) + shifts_shown(b));
    }
}

/// Times off are shown one after the other, in the order of the list.
pub proof fn law_times_off_are_shown_in_order(a: Seq<TimeOffInfoV>, b: Seq<TimeOffInfoV>)
    ensures
        offs_shown(a + b) == offs_shown(a) + offs_shown(b),
    decreases b.len(),
{
    if b.len() == 0 {
        assert(a + b =~= a);
        assert(offs_shown(a) + offs_shown(b) =~= offs_shown(a));
    } else {
        law_times_off_are_shown_in_order(a, b.drop_last());
        assert((a + b).drop_last() =~= a + b.drop_last());
        assert((a + b).last() == b.last());
        assert(offs_shown(a + b) =~= offs_shown(a) + offs_shown(b));
    }
}

/// What is shown is what was read of the answers.
pub proof fn law_lists_of_a_schedule_are_read(v: JsonV)
    ensures
        schedule_of(v) is Some <==> schedule_response_of(v) is Some,
        schedule_of(v) matches Some(l)
            ==> (schedule_response_of(v) matches Some(x) && l == schedule_row(x)),
        shifts_of(v) is Some <==> shifts_response_of(v) is Some,
        shifts_of(v) matches Some(l)
            ==> (shifts_response_of(v) matches Some(x) && l == shift_rows(x.value)),
        times_off_of(v) is Some <==> times_off_response_of(v) is Some,
        times_off_of(v) matches Some(l)
            ==> (times_off_response_of(v) matches Some(x) && l == time_off_rows(x.value)),
        reasons_of(v) is Some <==> reasons_response_of(v) is Some,
        reasons_of(v) matches Some(l)
            ==> (reasons_response_of(v) matches Some(x) && l == reason_rows(x.value)),
{
}

/// A schedule is shown with its shifts, and then its times off, where there are any.
pub proof fn law_schedule_lines(
    s: ScheduleInfoV,
    shifts: Seq<ShiftInfoV>,
    offs: Seq<TimeOffInfoV>,
)
    ensures
        shifts.len() > 0 || offs.len() > 0 ==> (shifts_shown(shifts) + offs_shown(
            offs,
        )).is_suffix_of(schedule_shown(s, shifts, offs)),
        shifts.len() == 0 && offs.len() == 0
            ==> ("  (no shifts or time-off found)\n"@).is_suffix_of(
            schedule_shown(s, shifts, offs),
        ),
        s.enabled ==> ("\nTeam Schedule (enabled: "@ + "true"@).is_prefix_of(
            schedule_shown(s, shifts, offs),
        ),
        !s.enabled ==> ("\nTeam Schedule (enabled: "@ + "false"@).is_prefix_of(
            schedule_shown(s, shifts, offs),
        ),
{
    let t = schedule_shown(s, shifts, offs);
    let tail = if shifts.len() == 0 && offs.len() == 0 {
        "  (no shifts or time-off found)\n"@
    } else {
        shifts_shown(shifts) + offs_shown(offs)
    };
    assert(t.subrange(t.len() - tail.len(), t.len() as int) =~= tail);
    let a = "\nTeam Schedule (enabled: "@ + "true"@;
    let b = "\nTeam Schedule (enabled: "@ + "false"@;
    if s.enabled {
        assert(t.subrange(0, a.len() as int) =~= a);
    } else {
        assert(t.subrange(0, b.len() as int) =~= b);
    }
}

/// A time off is shown from its start to its end.
pub proof fn law_time_off_is_shown_from_start_to_end(x: TimeOffInfoV, s: Seq<char>, e: Seq<char>)
    requires
        x.start == Some(s),
        x.end == Some(e),
    ensures
        ("  time-off "@ + s + " -> "@ + e + " "@).is_prefix_of(off_shown(x)),
{
    let p = "  time-off "@ + s + " -> "@ + e + " "@;
    assert(off_shown(x).subrange(0, p.len() as int) =~= p);
}

} // verus!
