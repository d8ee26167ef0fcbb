//! Outgoing call tests: planning a call, reading the frames that answer it,
//! and the bookkeeping of its media legs.
use crate::auth;
use crate::auth::StoredToken;
use crate::bytes;
use crate::encoding;
use crate::json;
use crate::json::{Json, JsonV};
use crate::text;
use super::sdp_compress;
use super::signaling;
use super::turn::SocketAddress;
use vstd::utf8::*;
use vstd::prelude::*;

verus! {

// -- Preparing a call --

/// Why a call could not be prepared, in the order of the checks.
#[derive(Debug, Clone, Copy, PartialEq, Eq, Structural)]
pub enum CallPlanError {
    NoSkypeToken,
    SkypeTokenExpired,
    NoIc3Token,
    Ic3TokenExpired,
    NoRecorderToken,
    RecorderTokenExpired,
    NoRegionGtms,
    NoCallerMri,
    UnexpectedMri,
    NoThread,
    EmptyThread,
    NoTenant,
}

/// What is known before a call: the stored credentials and the options.
pub struct CallRequest {
    pub skype_token: Option<StoredToken>,
    pub ic3_token: Option<StoredToken>,
    pub recorder_token: Option<StoredToken>,
    pub has_region_gtms: bool,
    pub tenant_id: Option<String>,
    /// Record the call.
    pub record: bool,
    /// Call the Echo bot.
    pub echo: bool,
    /// Call this thread.
    pub thread_override: Option<String>,
    /// The thread to call where neither is asked for.
    pub test_thread: Option<String>,
    /// The current second.
    pub now: u64,
}

/// A call that can be placed.
pub struct CallPlan {
    pub caller_mri: String,
    pub caller_oid: String,
    pub thread_id: String,
    /// The user to invite; the Echo bot is none.
    pub callee_mri: Option<String>,
    /// The call is placed in one step.
    pub is_1to1_call: bool,
    pub tenant_id: String,
}

/// The model of [`CallPlan`].
pub struct CallPlanV {
    pub caller_mri: Seq<char>,
    pub caller_oid: Seq<char>,
    pub thread_id: Seq<char>,
    pub callee_mri: Option<Seq<char>>,
    pub is_1to1_call: bool,
    pub tenant_id: Seq<char>,
}

impl View for CallPlan {
    type V = CallPlanV;

    open spec fn view(&self) -> CallPlanV {
        CallPlanV {
            caller_mri: self.caller_mri@,
            caller_oid: self.caller_oid@,
            thread_id: self.thread_id@,
            callee_mri: text::opt_text(self.callee_mri),
            is_1to1_call: self.is_1to1_call,
            tenant_id: self.tenant_id@,
        }
    }
}

/// The first thing that is wrong with the stored credentials.
pub open spec fn credential_error(q: CallRequest) -> Option<CallPlanError> {
    if q.skype_token is None {
        Some(CallPlanError::NoSkypeToken)
    } else if auth::expired_at(q.skype_token->0, q.now) {
        Some(CallPlanError::SkypeTokenExpired)
    } else if q.ic3_token is None {
        Some(CallPlanError::NoIc3Token)
    } else if auth::expired_at(q.ic3_token->0, q.now) {
        Some(CallPlanError::Ic3TokenExpired)
    } else if q.record && q.recorder_token is None {
        Some(CallPlanError::NoRecorderToken)
    } else if q.record && auth::expired_at(q.recorder_token->0, q.now) {
        Some(CallPlanError::RecorderTokenExpired)
    } else if !q.has_region_gtms {
        Some(CallPlanError::NoRegionGtms)
    } else {
        None
    }
}

/// The thread of a call and the user to invite: the Echo bot's thread, the
/// asked for one with its other party, or the test channel's.
pub open spec fn call_target(q: CallRequest, caller_oid: Seq<char>) -> Result<
    (Seq<char>, Option<Seq<char>>),
    CallPlanError,
> {
    if q.echo {
        Ok((signaling::echo_thread(caller_oid), None))
    } else {
        match q.thread_override {
            Some(t) => Ok(
                (
                    t@,
                    match callee_oid(t@, caller_oid) {
                        Some(o) => Some("8:orgid:"@ + o),
                        None => None,
                    },
                ),
            ),
            None => match q.test_thread {
                None => Err(CallPlanError::NoThread),
                Some(t) => if t@.len() == 0 {
                    Err(CallPlanError::EmptyThread)
                } else {
                    Ok((t@, None))
                },
            },
        }
    }
}

/// The plan for a call of a known caller.
pub open spec fn call_plan(q: CallRequest, mri: Option<Seq<char>>) -> Result<
    CallPlanV,
    CallPlanError,
> {
    match credential_error(q) {
        Some(e) => Err(e),
        None => match mri {
            None => Err(CallPlanError::NoCallerMri),
            Some(m) => match text::after_prefix(m, "8:orgid:"@) {
                None => Err(CallPlanError::UnexpectedMri),
                Some(oid) => match call_target(q, oid) {
                    Err(e) => Err(e),
                    Ok((thread_id, callee_mri)) => match q.tenant_id {
                        None => Err(CallPlanError::NoTenant),
                        Some(t) => Ok(
                            CallPlanV {
                                caller_mri: m,
                                caller_oid: oid,
                                thread_id,
                                callee_mri,
                                is_1to1_call: q.echo || callee_mri is Some,
                                tenant_id: t@,
                            },
                        ),
                    },
                },
            },
        },
    }
}

pub open spec fn plan_view(r: Result<CallPlan, CallPlanError>) -> Result<
    CallPlanV,
    CallPlanError,
> {
    match r {
        Ok(p) => Ok(p@),
        Err(e) => Err(e),
    }
}

fn check_credentials(q: &CallRequest) -> (r: Option<CallPlanError>)
    ensures
        r == credential_error(*q),
{
    match &q.skype_token {
        None => {
            return Some(CallPlanError::NoSkypeToken);
        },
        Some(t) => if t.is_expired(q.now) {
            return Some(CallPlanError::SkypeTokenExpired);
        },
    }
    match &q.ic3_token {
        None => {
            return Some(CallPlanError::NoIc3Token);
        },
        Some(t) => if t.is_expired(q.now) {
            return Some(CallPlanError::Ic3TokenExpired);
        },
    }
    if q.record {
        match &q.recorder_token {
            None => {
                return Some(CallPlanError::NoRecorderToken);
            },
            Some(t) => if t.is_expired(q.now) {
                return Some(CallPlanError::RecorderTokenExpired);
            },
        }
    }
    if !q.has_region_gtms {
        return Some(CallPlanError::NoRegionGtms);
    }
    None
}

fn choose_target(q: &CallRequest, caller_oid: &str) -> (r: Result<
    (String, Option<String>),
    CallPlanError,
>)
    ensures
        match r {
            Ok((t, c)) => call_target(*q, caller_oid@) == Ok::<
                (Seq<char>, Option<Seq<char>>),
                CallPlanError,
            >((t@, text::opt_text(c))),
            Err(e) => call_target(*q, caller_oid@) == Err::<
                (Seq<char>, Option<Seq<char>>),
                CallPlanError,
            >(e),
        },
{
    if q.echo {
        return Ok((signaling::echo_thread_id(caller_oid), None));
    }
    match &q.thread_override {
        Some(t) => {
            let callee = match extract_callee_oid_from_thread(t.as_str(), caller_oid) {
                Some(o) => Some(text::join2("8:orgid:", o.as_str())),
                None => None,
            };
            Ok((t.clone(), callee))
        },
        None => match &q.test_thread {
            None => Err(CallPlanError::NoThread),
            Some(t) => if t.as_str().is_empty() {
                Err(CallPlanError::EmptyThread)
            } else {
                Ok((t.clone(), None))
            },
        },
    }
}

/// Plans a call of a known caller: checks the credentials, and chooses the
/// thread and the user to invite.
pub fn plan_call(q: &CallRequest, caller_mri: Option<String>) -> (r: Result<
    CallPlan,
    CallPlanError,
>)
    ensures
        plan_view(r) == call_plan(*q, text::opt_text(caller_mri)),
{
    if let Some(e) = check_credentials(q) {
        return Err(e);
    }
    let caller_mri = match caller_mri {
        Some(m) => m,
        None => {
            return Err(CallPlanError::NoCallerMri);
        },
    };
    let caller_oid = match text::strip_prefix(caller_mri.as_str(), "8:orgid:") {
        Some(o) => o,
        None => {
            return Err(CallPlanError::UnexpectedMri);
        },
    };
    match choose_target(q, caller_oid.as_str()) {
        Err(e) => Err(e),
        Ok((thread_id, callee_mri)) => match &q.tenant_id {
            None => Err(CallPlanError::NoTenant),
            Some(t) => {
                let is_1to1_call = q.echo || callee_mri.is_some();
                Ok(
                    CallPlan {
                        caller_mri,
                        caller_oid,
                        thread_id,
                        callee_mri,
                        is_1to1_call,
                        tenant_id: t.clone(),
                    },
                )
            },
        },
    }
}

/// The caller that a request's Skype token names.
pub open spec fn request_caller(q: CallRequest) -> Option<Seq<char>> {
    match q.skype_token {
        Some(t) => token_mri(t.token@),
        None => None,
    }
}

/// Prepares an outgoing call test from the stored credentials and the options.
pub fn run_call_test(q: &CallRequest) -> (r: Result<CallPlan, CallPlanError>)
    ensures
        plan_view(r) == call_plan(*q, request_caller(*q)),
{
    let mri = match &q.skype_token {
        Some(t) => extract_mri_from_skype_token(t.token.as_str()),
        None => None,
    };
    plan_call(q, mri)
}

/// The invitation that follows a placed call.
pub enum InviteStep {
    EchoBot,
    /// Invite a user; with video where the camera is on.
    User(String, bool),
    Nobody,
}

/// Chooses whom to invite: the Echo bot, the callee of a 1:1 thread, or nobody.
pub fn invite_step(plan: &CallPlan, echo: bool, use_camera: bool) -> (r: InviteStep)
    ensures
        echo ==> r is EchoBot,
        !echo ==> match plan.callee_mri {
            Some(m) => r matches InviteStep::User(x, video) && x@ == m@ && video == use_camera,
            None => r is Nobody,
        },
{
    if echo {
        InviteStep::EchoBot
    } else {
        match &plan.callee_mri {
            Some(m) => InviteStep::User(m.clone(), use_camera),
            None => InviteStep::Nobody,
        }
    }
}

/// The members of a 1:1 thread id: what stands between its prefix and suffix.
pub open spec fn thread_inner(thread_id: Seq<char>) -> Option<Seq<char>> {
    match text::after_prefix(thread_id, "19:"@) {
        Some(s) => text::before_suffix(s, "@unq.gbl.spaces"@),
        None => None,
    }
}

/// The party of a 1:1 thread that is not the caller; the second one where
/// neither is.
pub open spec fn callee_oid(thread_id: Seq<char>, caller_oid: Seq<char>) -> Option<Seq<char>> {
    match thread_inner(thread_id) {
        Some(s) => match text::first_index(s, '_') {
            Some(i) => if s.skip(i + 1).contains('_') {
                None
            } else if s.take(i) == caller_oid {
                Some(s.skip(i + 1))
            } else if s.skip(i + 1) == caller_oid {
                Some(s.take(i))
            } else {
                Some(s.skip(i + 1))
            },
            None => None,
        },
        None => None,
    }
}

/// Extracts the callee's object id from a 1:1 thread id,
/// `19:{oid1}_{oid2}@unq.gbl.spaces`.
pub fn extract_callee_oid_from_thread(thread_id: &str, caller_oid: &str) -> (r: Option<String>)
    ensures
        text::opt_text(r) == callee_oid(thread_id@, caller_oid@),
{
    let inner = match text::strip_prefix(thread_id, "19:") {
        Some(s) => match text::strip_suffix(s.as_str(), "@unq.gbl.spaces") {
            Some(t) => t,
            None => {
                return None;
            },
        },
        None => {
            return None;
        },
    };
    let v = text::chars_of(inner.as_str());
    let n: usize = v.len();
    match text::char_index_from(&v, '_', 0) {
        Some(i) => {
            let first = text::text_of(&v, 0, i);
            let second = text::text_of(&v, i + 1, n);
            proof {
                assert(v@.subrange(0, i as int) =~= v@.take(i as int));
                assert(v@.subrange(i + 1, n as int) =~= v@.skip(i + 1));
            }
            if text::contains_char(second.as_str(), '_') {
                return None;
            }
            if text::same(first.as_str(), caller_oid) {
                Some(second)
            } else if text::same(second.as_str(), caller_oid) {
                Some(first)
            } else {
                Some(second)
            }
        },
        None => None,
    }
}

/// The Echo bot is the other party of the thread that is made for calling it,
/// as long as the caller's own id has no underscore.
pub proof fn law_echo_thread_callee(caller_oid: Seq<char>)
    requires
        !caller_oid.contains('_'),
    ensures
        callee_oid(signaling::echo_thread(caller_oid), caller_oid) == Some(
            "cf28171e-fcfd-47e4-a1d6-79460b0b3ca0"@,
        ),
{
    let bot = signaling::ECHO_BOT_OID@;
    let t = signaling::echo_thread(caller_oid);
    reveal_strlit("19:");
    reveal_strlit("_");
    reveal_strlit("cf28171e-fcfd-47e4-a1d6-79460b0b3ca0");
    let suffix = "@unq.gbl.spaces"@;
    let s = caller_oid + "_"@ + bot;
    assert("19:"@.is_prefix_of(t)) by {
        assert(t.subrange(0, 3) =~= "19:"@);
    }
    assert(t.skip(3) =~= s + suffix);
    assert(suffix.is_suffix_of(s + suffix)) by {
        assert((s + suffix).subrange(s.len() as int, (s + suffix).len() as int) =~= suffix);
    }
    assert((s + suffix).take(s.len() as int) =~= s);
    assert(thread_inner(t) == Some(s));
    text::lemma_index_from(s, '_', 0);
    let k = caller_oid.len() as int;
    assert(s[k] == '_');
    assert forall|j: int| 0 <= j < k implies s[j] != '_' by {
        assert(s[j] == caller_oid[j]);
        assert(caller_oid.contains(caller_oid[j]));
    }
    assert(text::first_index(s, '_') == Some(k));
    assert(s.take(k) =~= caller_oid);
    assert(s.skip(k + 1) =~= bot);
    assert(!bot.contains('_'));
}

/// The part of a token between its first dot and the next.
pub open spec fn token_payload(token: Seq<char>) -> Option<Seq<char>> {
    match text::first_index(token, '.') {
        Some(i) => Some(text::before_first(token.skip(i + 1), '.')),
        None => None,
    }
}

/// The bytes of a token's payload: URL-safe Base64 whatever its padding, else
/// standard Base64.
pub open spec fn payload_bytes(payload: Seq<char>) -> Option<Seq<u8>> {
    match encoding::base64url_bytes(text::without_trailing(payload, '=')) {
        Some(b) => Some(b),
        None => encoding::base64_bytes(payload),
    }
}

/// The caller that claims name: the Skype id, behind `8:` where it is an
/// organisation's or a visitor's, else the object id.
pub open spec fn claims_mri(claims: JsonV) -> Option<Seq<char>> {
    match json::str_of(json::get_of(claims, "skypeid"@)) {
        Some(id) => if "orgid:"@.is_prefix_of(id) || "teamsvisitor:"@.is_prefix_of(id) {
            Some("8:"@ + id)
        } else {
            Some(id)
        },
        None => match json::str_of(json::get_of(claims, "oid"@)) {
            Some(oid) => Some("8:orgid:"@ + oid),
            None => None,
        },
    }
}

/// The caller that a Skype token names.
pub open spec fn token_mri(token: Seq<char>) -> Option<Seq<char>> {
    match token_payload(token) {
        Some(p) => match payload_bytes(p) {
            Some(b) => match json::json_bytes(b) {
                Some(v) => claims_mri(v),
                None => None,
            },
            None => None,
        },
        None => None,
    }
}

/// Reads the caller from the claims of a Skype token.
pub fn mri_from_claims(claims: &Json) -> (r: Option<String>)
    ensures
        text::opt_text(r) == claims_mri(claims@),
{
    if let Some(id) = json::as_text(claims.get("skypeid")) {
        if text::starts_with(id.as_str(), "orgid:") || text::starts_with(
            id.as_str(),
            "teamsvisitor:",
        ) {
            return Some(text::join2("8:", id.as_str()));
        }
        return Some(id);
    }
    match json::as_text(claims.get("oid")) {
        Some(oid) => Some(text::join2("8:orgid:", oid.as_str())),
        None => None,
    }
}

fn find_payload(token: &str) -> (r: Option<String>)
    ensures
        text::opt_text(r) == token_payload(token@),
{
    let v = text::chars_of(token);
    let n: usize = v.len();
    match text::char_index_from(&v, '.', 0) {
        Some(i) => {
            let rest = text::text_of(&v, i + 1, n);
            proof {
                assert(v@.subrange(i + 1, n as int) =~= v@.skip(i + 1));
            }
            Some(text::take_before(rest.as_str(), '.'))
        },
        None => None,
    }
}

/// Extracts the user's MRI (`8:orgid:<guid>`) from a Skype token, a JWT.
pub fn extract_mri_from_skype_token(token: &str) -> (r: Option<String>)
    ensures
        text::opt_text(r) == token_mri(token@),
{
    let payload = match find_payload(token) {
        Some(p) => p,
        None => {
            return None;
        },
    };
    let bare = text::drop_trailing(payload.as_str(), '=');
    let decoded = match encoding::base64url_decode(bare.as_str()) {
        Some(b) => Some(b),
        None => encoding::base64_decode(payload.as_str()),
    };
    match decoded {
        Some(b) => match json::value_from_bytes(b.as_slice()) {
            Some(v) => mri_from_claims(&json::from_value(&v)),
            None => None,
        },
        None => None,
    }
}

/// The conversation service of a region: the configured one, the named one, or
/// the one beside the named call request service.
pub open spec fn epconv_url(gtms: JsonV, configured: Option<Seq<char>>) -> Option<Seq<char>> {
    match configured {
        Some(u) => Some(u),
        None => match json::str_of(json::get_of(gtms, "calling_conversationServiceUrl"@)) {
            Some(u) => Some(u),
            None => match json::str_of(
                json::get_of(gtms, "calling_potentialCallRequestUrl"@),
            ) {
                Some(u) => Some(
                    match text::find_in(u, "/api/v2/"@) {
                        Some(i) => u.take(i) + "/api/v2/epconv"@,
                        None => text::replaced_all(u, "/cc/v1/potentialcall"@, "/epconv"@),
                    },
                ),
                None => None,
            },
        },
    }
}

/// Derives the URL of the conversation service from the regional endpoints.
pub fn derive_epconv_url(region_gtms: &Json, configured: Option<&str>) -> (r: Option<String>)
    ensures
        text::opt_text(r) == epconv_url(region_gtms@, text::opt_str(configured)),
{
    if let Some(u) = configured {
        return Some(u.to_string());
    }
    if let Some(u) = json::as_text(region_gtms.get("calling_conversationServiceUrl")) {
        return Some(u);
    }
    match json::as_text(region_gtms.get("calling_potentialCallRequestUrl")) {
        Some(u) => match text::find(u.as_str(), "/api/v2/") {
            Some(i) => {
                let v = text::chars_of(u.as_str());
                let base = text::text_of(&v, 0, i);
                proof {
                    assert(v@.subrange(0, i as int) =~= v@.take(i as int));
                }
                Some(text::join2(base.as_str(), "/api/v2/epconv"))
            },
            None => {
                proof {
                    reveal_strlit("/cc/v1/potentialcall");
                }
                Some(text::replace_all(u.as_str(), "/cc/v1/potentialcall", "/epconv"))
            },
        },
        None => None,
    }
}

// -- Frames --

/// The JSON text of a socket frame: what follows its type.
pub open spec fn frame_json(frame: Seq<char>) -> Option<Seq<char>> {
    if "3:::"@.is_prefix_of(frame) {
        Some(frame.skip(4))
    } else if "5:::"@.is_prefix_of(frame) {
        Some(frame.skip(4))
    } else if "3::"@.is_prefix_of(frame) {
        Some(frame.skip(3))
    } else if "5::"@.is_prefix_of(frame) {
        Some(frame.skip(3))
    } else {
        None
    }
}

/// Extracts the JSON text of a socket frame.
pub fn extract_json_from_frame(frame: &str) -> (r: Option<String>)
    ensures
        text::opt_text(r) == frame_json(frame@),
{
    proof {
        reveal_strlit("3:::");
        reveal_strlit("5:::");
        reveal_strlit("3::");
        reveal_strlit("5::");
    }
    if let Some(s) = text::strip_prefix(frame, "3:::") {
        return Some(s);
    }
    if let Some(s) = text::strip_prefix(frame, "5:::") {
        return Some(s);
    }
    if let Some(s) = text::strip_prefix(frame, "3::") {
        return Some(s);
    }
    text::strip_prefix(frame, "5::")
}

/// The text of Base64 over gzip.
pub open spec fn unzipped_text(b64: Seq<char>) -> Option<Seq<char>> {
    match encoding::base64_bytes(b64) {
        Some(b) => match encoding::gunzipped(b) {
            Some(t) => encoding::utf8_text(t),
            None => None,
        },
        None => None,
    }
}

/// Decodes Base64, then decompresses gzip data to text.
pub fn decompress_gzip_base64(b64: &str) -> (r: Option<String>)
    ensures
        text::opt_text(r) == unzipped_text(b64@),
{
    match encoding::base64_decode(b64) {
        Some(b) => match encoding::gunzip(b.as_slice()) {
            Some(t) => encoding::text_from_utf8(t),
            None => None,
        },
        None => None,
    }
}

/// True of an event whose body is marked as compressed.
pub open spec fn is_zipped(v: JsonV) -> bool {
    match json::str_of(json::get2_of(v, "headers"@, "X-Microsoft-Skype-Content-Encoding"@)) {
        Some(h) => text::lowered(h) == text::lowered("gzip"@),
        None => false,
    }
}

/// True when an event's body is marked as compressed.
pub fn has_zipped_body(v: &Json) -> (r: bool)
    ensures
        r == is_zipped(v@),
{
    match json::as_text(v.get2("headers", "X-Microsoft-Skype-Content-Encoding")) {
        Some(h) => text::same_ignoring_case(h.as_str(), "gzip"),
        None => false,
    }
}

/// What a body holds: an object as it is, a string as the JSON that it spells,
/// decompressed first where it is marked so and can be.
pub open spec fn body_payload(body: Option<JsonV>, zipped: bool) -> Option<JsonV> {
    match body {
        Some(JsonV::Str(s)) => {
            let inner = if zipped {
                match unzipped_text(s) {
                    Some(t) => json::json_text(t),
                    None => None,
                }
            } else {
                None
            };
            match inner {
                Some(p) => Some(p),
                None => json::json_text(s),
            }
        },
        Some(JsonV::Obj(o)) => Some(JsonV::Obj(o)),
        _ => None,
    }
}

/// The payload of an event: of a message, its body or the body of its data
/// where they hold one; of anything else, the event itself.
pub open spec fn event_payload(v: JsonV, message: bool) -> JsonV {
    if message {
        match body_payload(json::get_of(v, "body"@), is_zipped(v)) {
            Some(p) => p,
            None => match body_payload(json::get2_of(v, "data"@, "body"@), is_zipped(v)) {
                Some(p) => p,
                None => v,
            },
        }
    } else {
        v
    }
}

/// The call payload of a frame.
pub open spec fn call_payload(frame: Seq<char>) -> Option<JsonV> {
    match frame_json(frame) {
        Some(t) => match json::json_text(t) {
            Some(v) => Some(event_payload(v, "3::"@.is_prefix_of(frame))),
            None => None,
        },
        None => None,
    }
}

fn read_body(body: Option<serde_json::Value>, zipped: bool) -> (r: Option<serde_json::Value>)
    ensures
        json::opt_held(r) == body_payload(json::opt_held(body), zipped),
{
    match body {
        Some(v) => match json::from_value(&v) {
            Json::Str(s) => {
                if zipped {
                    if let Some(t) = decompress_gzip_base64(s.as_str()) {
                        if let Some(p) = json::value_from_text(t.as_str()) {
                            return Some(p);
                        }
                    }
                }
                json::value_from_text(s.as_str())
            },
            Json::Obj(_) => Some(v),
            _ => None,
        },
        None => None,
    }
}

/// Extracts the payload of an event.
pub fn payload_of_event(v: serde_json::Value, message: bool) -> (r: serde_json::Value)
    ensures
        json::held_json(r) == event_payload(json::held_json(v), message),
{
    if !message {
        return v;
    }
    let zipped = has_zipped_body(&json::from_value(&v));
    if let Some(p) = read_body(json::value_member(&v, "body"), zipped) {
        return p;
    }
    let inner = match json::value_member(&v, "data") {
        Some(d) => json::value_member(&d, "body"),
        None => None,
    };
    match read_body(inner, zipped) {
        Some(p) => p,
        None => v,
    }
}

/// Extracts the call payload of a frame.
pub fn extract_call_payload(frame: &str) -> (r: Option<serde_json::Value>)
    ensures
        json::opt_held(r) == call_payload(frame@),
{
    match extract_json_from_frame(frame) {
        Some(t) => match json::value_from_text(t.as_str()) {
            Some(v) => Some(payload_of_event(v, text::starts_with(frame, "3::"))),
            None => None,
        },
        None => None,
    }
}

// -- How a call is answered --

/// The number of a member, zero where it has none.
pub open spec fn number_or_zero(v: JsonV, name: Seq<char>) -> nat {
    match json::u64_of(json::get_of(v, name)) {
        Some(n) => n as nat,
        None => 0,
    }
}

/// The text of a member, or another one where it has none.
pub open spec fn text_or(v: JsonV, name: Seq<char>, d: Seq<char>) -> Seq<char> {
    match json::str_of(json::get_of(v, name)) {
        Some(s) => s,
        None => d,
    }
}

/// The strings among the items of an array.
pub open spec fn strings_in(a: Seq<JsonV>) -> Seq<Seq<char>>
    decreases a.len(),
{
    if a.len() == 0 {
        Seq::empty()
    } else {
        match a.last() {
            JsonV::Str(s) => strings_in(a.drop_last()).push(s),
            _ => strings_in(a.drop_last()),
        }
    }
}

/// The result categories of a call's end: listed, or one.
pub open spec fn categories_of(v: JsonV) -> Seq<char> {
    match json::get_of(v, "resultCategories"@) {
        Some(JsonV::Arr(a)) => text::joined(strings_in(a), ","@),
        Some(JsonV::Str(s)) => s,
        _ => Seq::empty(),
    }
}

/// What a `callEnd` says.
pub open spec fn call_end_text(v: JsonV) -> Option<Seq<char>> {
    match json::get_of(v, "callEnd"@) {
        Some(e) => Some(
            "Call ended: "@ + text_or(e, "phrase"@, "unknown"@) + " (code="@ + text::decimal(
                number_or_zero(e, "code"@),
            ) + ", subCode="@ + text::decimal(number_or_zero(e, "subCode"@)) + ", reason="@
                + text_or(e, "reason"@, ""@) + ", categories="@ + categories_of(e) + ")"@,
        ),
        None => None,
    }
}

/// `name` and a text behind it, or nothing for an empty text.
pub open spec fn labelled(name: Seq<char>, s: Seq<char>) -> Seq<char> {
    if s.len() == 0 {
        Seq::empty()
    } else {
        name + s
    }
}

/// What a `sessionRejection` says.
pub open spec fn rejection_text(v: JsonV) -> Option<Seq<char>> {
    match json::get_of(v, "sessionRejection"@) {
        Some(e) => Some(
            "Call rejected: "@ + text_or(e, "phrase"@, "unknown"@) + " (code="@ + text::decimal(
                number_or_zero(e, "code"@),
            ) + ", subCode="@ + text::decimal(number_or_zero(e, "subCode"@)) + ")"@ + labelled(
                " resultCategories="@,
                text_or(e, "resultCategories"@, ""@),
            ) + labelled(" diag="@, text_or(e, "diagnosticContext"@, ""@)),
        ),
        None => None,
    }
}

fn read_number(v: &Json, name: &str) -> (r: u64)
    ensures
        r as nat == number_or_zero(v@, name@),
{
    match json::as_number(v.get(name)) {
        Some(n) => n,
        None => 0,
    }
}

fn read_text(v: &Json, name: &str, d: &str) -> (r: String)
    ensures
        r@ == text_or(v@, name@, d@),
{
    match json::as_text(v.get(name)) {
        Some(s) => s,
        None => d.to_string(),
    }
}

fn read_strings(a: &Vec<Json>) -> (r: Vec<String>)
    ensures
        text::texts(r@) == strings_in(json::items_view(a@)),
{
    let ghost all = json::items_view(a@);
    let mut out: Vec<String> = Vec::new();
    let mut i: usize = 0;
    proof {
        assert(all.take(0) =~= Seq::empty());
        assert(text::texts(out@) =~= Seq::empty());
    }
    while i < a.len()
        invariant
            i <= a@.len(),
            all == json::items_view(a@),
            text::texts(out@) == strings_in(all.take(i as int)),
        decreases a@.len() - i,
    {
        proof {
            assert(all.take(i + 1).drop_last() =~= all.take(i as int));
            assert(all.take(i + 1).last() == a@[i as int]@);
        }
        if let Json::Str(s) = &a[i] {
            let ghost before = out@;
            out.push(s.clone());
            proof {
                assert(text::texts(out@) =~= text::texts(before).push(s@));
            }
        }
        i = i + 1;
    }
    proof {
        assert(all.take(i as int) =~= all);
    }
    out
}

/// Describes the end of a call that a payload announces.
pub fn check_call_end(v: &Json) -> (r: Option<String>)
    ensures
        text::opt_text(r) == call_end_text(v@),
{
    match v.get("callEnd") {
        Some(e) => {
            let categories = match e.get("resultCategories") {
                Some(Json::Arr(a)) => {
                    proof {
                        json::lemma_arr_view(*a);
                    }
                    text::join_texts(&read_strings(a), ",")
                },
                Some(Json::Str(s)) => s.clone(),
                _ => String::new(),
            };
            let mut s = "Call ended: ".to_string();
            s.append(read_text(e, "phrase", "unknown").as_str());
            s.append(" (code=");
            s.append(text::to_decimal(read_number(e, "code")).as_str());
            s.append(", subCode=");
            s.append(text::to_decimal(read_number(e, "subCode")).as_str());
            s.append(", reason=");
            s.append(read_text(e, "reason", "").as_str());
            s.append(", categories=");
            s.append(categories.as_str());
            s.append(")");
            Some(s)
        },
        None => None,
    }
}

fn append_labelled(s: &mut String, name: &str, t: &str)
    ensures
        final(s)@ == old(s)@ + labelled(name@, t@),
{
    if !t.is_empty() {
        s.append(name);
        s.append(t);
        proof {
            assert(s@ =~= old(s)@ + (name@ + t@));
        }
    } else {
        proof {
            assert(s@ =~= old(s)@ + Seq::empty());
        }
    }
}

/// Describes the rejection of a call that a payload announces.
pub fn check_session_rejection(v: &Json) -> (r: Option<String>)
    ensures
        text::opt_text(r) == rejection_text(v@),
{
    match v.get("sessionRejection") {
        Some(e) => {
            let mut s = "Call rejected: ".to_string();
            s.append(read_text(e, "phrase", "unknown").as_str());
            s.append(" (code=");
            s.append(text::to_decimal(read_number(e, "code")).as_str());
            s.append(", subCode=");
            s.append(text::to_decimal(read_number(e, "subCode")).as_str());
            s.append(")");
            let categories = read_text(e, "resultCategories", "");
            append_labelled(&mut s, " resultCategories=", categories.as_str());
            let diag = read_text(e, "diagnosticContext", "");
            append_labelled(&mut s, " diag=", diag.as_str());
            Some(s)
        },
        None => None,
    }
}

/// How a call was answered.
#[derive(Debug)]
pub struct CallAcceptanceResponse {
    pub sdp_blob: Option<String>,
    pub end_url: Option<String>,
    pub rejection_reason: Option<String>,
    /// URL to acknowledge at, which keeps the call alive.
    pub acknowledgement_url: Option<String>,
    /// URL of the active call leg.
    pub call_leg_url: Option<String>,
    /// URL for applying channel parameters.
    pub apply_channel_params_url: Option<String>,
}

/// The model of [`CallAcceptanceResponse`].
pub struct CallAcceptanceResponseV {
    pub sdp_blob: Option<Seq<char>>,
    pub end_url: Option<Seq<char>>,
    pub rejection_reason: Option<Seq<char>>,
    pub acknowledgement_url: Option<Seq<char>>,
    pub call_leg_url: Option<Seq<char>>,
    pub apply_channel_params_url: Option<Seq<char>>,
}

impl View for CallAcceptanceResponse {
    type V = CallAcceptanceResponseV;

    open spec fn view(&self) -> CallAcceptanceResponseV {
        CallAcceptanceResponseV {
            sdp_blob: text::opt_text(self.sdp_blob),
            end_url: text::opt_text(self.end_url),
            rejection_reason: text::opt_text(self.rejection_reason),
            acknowledgement_url: text::opt_text(self.acknowledgement_url),
            call_leg_url: text::opt_text(self.call_leg_url),
            apply_channel_params_url: text::opt_text(self.apply_channel_params_url),
        }
    }
}

/// An answer that only says why there is no call.
pub open spec fn rejected_v(reason: Seq<char>) -> CallAcceptanceResponseV {
    CallAcceptanceResponseV {
        sdp_blob: None,
        end_url: None,
        rejection_reason: Some(reason),
        acknowledgement_url: None,
        call_leg_url: None,
        apply_channel_params_url: None,
    }
}

/// The media of an answer.
pub open spec fn answer_blob(v: JsonV) -> Option<Seq<char>> {
    json::str_of(
        match json::get3_of(v, "callAcceptance"@, "mediaContent"@, "blob"@) {
            Some(b) => Some(b),
            None => match json::get2_of(v, "mediaContent"@, "blob"@) {
                Some(b) => Some(b),
                None => json::get3_of(v, "mediaAnswer"@, "mediaContent"@, "blob"@),
            },
        },
    )
}

/// A link of an answer: an acceptance keeps its own.
pub open spec fn answer_link(v: JsonV, name: Seq<char>) -> Option<Seq<char>> {
    json::str_of(
        if json::get_of(v, "callAcceptance"@) is Some {
            json::get3_of(v, "callAcceptance"@, "links"@, name)
        } else {
            json::get2_of(v, "links"@, name)
        },
    )
}

/// How a payload answers a call; nothing where it does not.
pub open spec fn acceptance_of(v: JsonV) -> Option<CallAcceptanceResponseV> {
    match rejection_text(v) {
        Some(reason) => Some(rejected_v(reason)),
        None => match call_end_text(v) {
            Some(reason) => Some(rejected_v(reason)),
            None => match answer_blob(v) {
                Some(blob) => Some(
                    CallAcceptanceResponseV {
                        sdp_blob: Some(blob),
                        end_url: answer_link(v, "end"@),
                        rejection_reason: None,
                        acknowledgement_url: answer_link(v, "acknowledgement"@),
                        call_leg_url: answer_link(v, "callLeg"@),
                        apply_channel_params_url: answer_link(v, "applyChannelParameters"@),
                    },
                ),
                None => if json::get_of(v, "callAcceptance"@) is Some {
                    Some(
                        CallAcceptanceResponseV {
                            end_url: answer_link(v, "end"@),
                            ..rejected_v("Call accepted without SDP — media setup impossible"@)
                        },
                    )
                } else {
                    None
                },
            },
        },
    }
}

/// An answer that may be missing, by its model.
pub open spec fn opt_acceptance(o: Option<CallAcceptanceResponse>) -> Option<
    CallAcceptanceResponseV,
> {
    match o {
        Some(a) => Some(a@),
        None => None,
    }
}

impl CallAcceptanceResponse {
    /// An answer that only says why there is no call.
    pub fn rejected(reason: String) -> (r: CallAcceptanceResponse)
        ensures
            r@ == rejected_v(reason@),
    {
        CallAcceptanceResponse {
            sdp_blob: None,
            end_url: None,
            rejection_reason: Some(reason),
            acknowledgement_url: None,
            call_leg_url: None,
            apply_channel_params_url: None,
        }
    }
}

fn read_blob(v: &Json) -> (r: Option<String>)
    ensures
        text::opt_text(r) == answer_blob(v@),
{
    let found = match v.get3("callAcceptance", "mediaContent", "blob") {
        Some(b) => Some(b),
        None => match v.get2("mediaContent", "blob") {
            Some(b) => Some(b),
            None => v.get3("mediaAnswer", "mediaContent", "blob"),
        },
    };
    json::as_text(found)
}

fn read_link(v: &Json, name: &str) -> (r: Option<String>)
    ensures
        text::opt_text(r) == answer_link(v@, name@),
{
    if v.get("callAcceptance").is_some() {
        json::as_text(v.get3("callAcceptance", "links", name))
    } else {
        json::as_text(v.get2("links", name))
    }
}

/// Reads how a payload answers a call: a rejection first, then an end, then
/// media, then an acceptance without media.
pub fn read_acceptance(v: &Json) -> (r: Option<CallAcceptanceResponse>)
    ensures
        opt_acceptance(r) == acceptance_of(v@),
{
    if let Some(reason) = check_session_rejection(v) {
        return Some(CallAcceptanceResponse::rejected(reason));
    }
    if let Some(reason) = check_call_end(v) {
        return Some(CallAcceptanceResponse::rejected(reason));
    }
    if let Some(blob) = read_blob(v) {
        return Some(
            CallAcceptanceResponse {
                sdp_blob: Some(blob),
                end_url: read_link(v, "end"),
                rejection_reason: None,
                acknowledgement_url: read_link(v, "acknowledgement"),
                call_leg_url: read_link(v, "callLeg"),
                apply_channel_params_url: read_link(v, "applyChannelParameters"),
            },
        );
    }
    if v.get("callAcceptance").is_some() {
        let mut a = CallAcceptanceResponse::rejected(
            "Call accepted without SDP — media setup impossible".to_string(),
        );
        a.end_url = read_link(v, "end");
        return Some(a);
    }
    None
}

/// What to do with a frame while a call waits for its answer.
pub enum AcceptanceStep {
    /// Send the heartbeat back and wait on.
    Heartbeat,
    /// The call is answered.
    Answered(CallAcceptanceResponse),
    /// Wait on.
    Wait,
}

/// True of a heartbeat frame.
pub open spec fn is_heartbeat(frame: Seq<char>) -> bool {
    "2::"@.is_prefix_of(frame)
}

/// The answer in a frame.
pub open spec fn frame_acceptance(frame: Seq<char>) -> Option<CallAcceptanceResponseV> {
    match call_payload(frame) {
        Some(v) => acceptance_of(v),
        None => None,
    }
}

/// Takes a frame while a call waits for its answer.
pub fn wait_for_call_acceptance(frame: &str) -> (r: AcceptanceStep)
    ensures
        if is_heartbeat(frame@) {
            r is Heartbeat
        } else {
            match frame_acceptance(frame@) {
                Some(a) => r matches AcceptanceStep::Answered(x) && x@ == a,
                None => r is Wait,
            }
        },
{
    if text::starts_with(frame, "2::") {
        return AcceptanceStep::Heartbeat;
    }
    match extract_call_payload(frame) {
        Some(v) => match read_acceptance(&json::from_value(&v)) {
            Some(a) => AcceptanceStep::Answered(a),
            None => AcceptanceStep::Wait,
        },
        None => AcceptanceStep::Wait,
    }
}

/// The URL that ends a call leg: `/end` behind the path, before the query.
pub open spec fn leg_end_url(leg: Seq<char>) -> Seq<char> {
    match text::first_index(leg, '?') {
        Some(i) => leg.take(i) + "/end"@ + leg.skip(i),
        None => leg + "/end"@,
    }
}

/// The URL that ends a call: the one that was named, else the leg's.
pub open spec fn end_url_of(a: CallAcceptanceResponseV) -> Option<Seq<char>> {
    match a.end_url {
        Some(u) => Some(u),
        None => match a.call_leg_url {
            Some(u) => Some(leg_end_url(u)),
            None => None,
        },
    }
}

/// Finds the URL that ends an answered call.
pub fn find_end_url(a: &CallAcceptanceResponse) -> (r: Option<String>)
    ensures
        text::opt_text(r) == end_url_of(a@),
{
    if let Some(u) = &a.end_url {
        return Some(u.clone());
    }
    match &a.call_leg_url {
        Some(u) => {
            let v = text::chars_of(u.as_str());
            let n: usize = v.len();
            match text::char_index_from(&v, '?', 0) {
                Some(i) => {
                    let path = text::text_of(&v, 0, i);
                    let query = text::text_of(&v, i, n);
                    proof {
                        assert(v@.subrange(0, i as int) =~= v@.take(i as int));
                        assert(v@.subrange(i as int, n as int) =~= v@.skip(i as int));
                    }
                    Some(text::join3(path.as_str(), "/end", query.as_str()))
                },
                None => Some(text::join2(u.as_str(), "/end")),
            }
        },
        None => None,
    }
}

// -- Media --

/// The remote description of a leg as text: decompressed where it can be.
pub fn remote_sdp_text(remote_sdp: &str, dictionary: &[u8]) -> (r: String)
    ensures
        r@ == match sdp_compress::decompressed(remote_sdp@, dictionary@) {
            Ok(s) => s,
            Err(_) => remote_sdp@,
        },
{
    match sdp_compress::decompress_sdp(remote_sdp, dictionary) {
        Ok(s) => s,
        Err(_) => remote_sdp.to_string(),
    }
}

/// The index of the first usable item.
pub open spec fn first_usable(usable: Seq<bool>, i: int) -> bool {
    0 <= i < usable.len() && usable[i] && forall|j: int| 0 <= j < i ==> !#[trigger] usable[j]
}

/// Finds the first crypto line that can be used.
pub fn first_usable_line(usable: &Vec<bool>) -> (r: Option<usize>)
    ensures
        match r {
            Some(i) => first_usable(usable@, i as int),
            None => forall|j: int| 0 <= j < usable@.len() ==> !#[trigger] usable@[j],
        },
{
    let mut i: usize = 0;
    while i < usable.len()
        invariant
            i <= usable@.len(),
            forall|j: int| 0 <= j < i ==> !#[trigger] usable@[j],
        decreases usable@.len() - i,
    {
        if usable[i] {
            return Some(i);
        }
        i = i + 1;
    }
    None
}

/// Why a media leg could not be set up, in the order of the checks.
#[derive(Debug, Clone, Copy, PartialEq, Eq, Structural)]
pub enum MediaLegError {
    RemoteSdp,
    LocalAudioCrypto,
    NoAudioCrypto,
    AudioContext,
    LocalVideoCrypto,
    NoVideoCrypto,
    VideoContext,
    NoAudioCandidate,
}

/// What was found out about a media section of a leg.
pub struct SectionChecks {
    /// The local crypto line can be used.
    pub local_crypto: bool,
    /// Which remote crypto lines can be used.
    pub remote_crypto: Vec<bool>,
    /// The keys of the local line and of the first usable remote one make a context.
    pub context: bool,
    /// The address that the connectivity checks settled on.
    pub checked: Option<SocketAddress>,
    /// The address to fall back to.
    pub fallback: Option<SocketAddress>,
}

/// Where a media leg sends to.
pub struct MediaLeg {
    pub audio_remote: SocketAddress,
    pub audio_crypto: usize,
    /// The video's remote crypto line, where the remote side has video.
    pub video_crypto: Option<usize>,
    pub video_remote: Option<SocketAddress>,
}

/// The address of a section: the checked one, else the one to fall back to.
pub open spec fn section_address(s: SectionChecks) -> Option<SocketAddress> {
    match s.checked {
        Some(a) => Some(a),
        None => s.fallback,
    }
}

/// True when no crypto line can be used.
pub open spec fn none_usable(usable: Seq<bool>) -> bool {
    forall|j: int| 0 <= j < usable.len() ==> !#[trigger] usable[j]
}

/// The first thing that is wrong with a leg.
pub open spec fn leg_error(
    remote_ok: bool,
    audio: SectionChecks,
    video: Option<SectionChecks>,
) -> Option<MediaLegError> {
    if !remote_ok {
        Some(MediaLegError::RemoteSdp)
    } else if !audio.local_crypto {
        Some(MediaLegError::LocalAudioCrypto)
    } else if none_usable(audio.remote_crypto@) {
        Some(MediaLegError::NoAudioCrypto)
    } else if !audio.context {
        Some(MediaLegError::AudioContext)
    } else if video is Some && !video->0.local_crypto {
        Some(MediaLegError::LocalVideoCrypto)
    } else if video is Some && none_usable(video->0.remote_crypto@) {
        Some(MediaLegError::NoVideoCrypto)
    } else if video is Some && !video->0.context {
        Some(MediaLegError::VideoContext)
    } else if section_address(audio) is None {
        Some(MediaLegError::NoAudioCandidate)
    } else {
        None
    }
}

fn pick_address(s: &SectionChecks) -> (r: Option<SocketAddress>)
    ensures
        r == section_address(*s),
{
    match s.checked {
        Some(a) => Some(a),
        None => s.fallback,
    }
}

/// Sets up a media leg from what was found out about its sections. Audio has to
/// be there; video may be without an address.
pub fn setup_media_leg(
    remote_ok: bool,
    audio: &SectionChecks,
    video: &Option<SectionChecks>,
) -> (r: Result<MediaLeg, MediaLegError>)
    ensures
        match r {
            Ok(leg) => {
                &&& leg_error(remote_ok, *audio, *video) is None
                &&& section_address(*audio) == Some(leg.audio_remote)
                &&& first_usable(audio.remote_crypto@, leg.audio_crypto as int)
                &&& match *video {
                    Some(v) => {
                        &&& leg.video_crypto matches Some(i) && first_usable(
                            v.remote_crypto@,
                            i as int,
                        )
                        &&& leg.video_remote == section_address(v)
                    },
                    None => leg.video_crypto is None && leg.video_remote is None,
                }
            },
            Err(e) => leg_error(remote_ok, *audio, *video) == Some(e),
        },
{
    if !remote_ok {
        return Err(MediaLegError::RemoteSdp);
    }
    if !audio.local_crypto {
        return Err(MediaLegError::LocalAudioCrypto);
    }
    let audio_crypto: usize = match first_usable_line(&audio.remote_crypto) {
        Some(i) => i,
        None => {
            return Err(MediaLegError::NoAudioCrypto);
        },
    };
    assert(!none_usable(audio.remote_crypto@)) by {
        assert(audio.remote_crypto@[audio_crypto as int]);
    }
    if !audio.context {
        return Err(MediaLegError::AudioContext);
    }
    let mut video_crypto: Option<usize> = None;
    let mut video_remote: Option<SocketAddress> = None;
    if let Some(v) = video {
        if !v.local_crypto {
            return Err(MediaLegError::LocalVideoCrypto);
        }
        match first_usable_line(&v.remote_crypto) {
            Some(i) => {
                assert(!none_usable(v.remote_crypto@)) by {
                    assert(v.remote_crypto@[i as int]);
                }
                video_crypto = Some(i);
            },
            None => {
                return Err(MediaLegError::NoVideoCrypto);
            },
        }
        if !v.context {
            return Err(MediaLegError::VideoContext);
        }
        video_remote = pick_address(v);
    }
    match pick_address(audio) {
        Some(audio_remote) => Ok(
            MediaLeg { audio_remote, audio_crypto, video_crypto, video_remote },
        ),
        None => Err(MediaLegError::NoAudioCandidate),
    }
}

/// The counters of a leg's sending side.
#[derive(Debug, Clone, Copy, PartialEq, Eq, Structural)]
pub struct SendStats {
    pub ssrc: u32,
    pub packets_sent: u32,
    pub bytes_sent: u32,
    pub last_rtp_timestamp: u32,
}

/// The counters of a leg's receiving side.
#[derive(Debug, Clone, Copy, PartialEq, Eq, Structural)]
pub struct RecvStats {
    pub packets_received: u32,
    pub highest_seq: u32,
    /// The middle 32 bits of the time stamp of the last sender report.
    pub last_sr_ntp: u32,
    /// The source that the leg hears, zero until a packet names one.
    pub remote_ssrc: u32,
}

/// The sequence number and the time stamp of the next packet.
#[derive(Debug, Clone, Copy, PartialEq, Eq, Structural)]
pub struct SendClock {
    pub seq: u16,
    pub timestamp: u32,
}

/// The samples in one packet.
pub const SAMPLES_PER_PACKET: usize = 160;

/// Where the audio of a packet comes from.
#[derive(Debug, Clone, Copy, PartialEq, Eq, Structural)]
pub enum AudioSource {
    Loopback,
    Microphone,
    Tone,
}

/// Chooses the source of outgoing audio: what was heard, then the microphone,
/// then a test tone.
pub fn choose_audio_source(loopback: bool, microphone: bool) -> (r: AudioSource)
    ensures
        r == if loopback {
            AudioSource::Loopback
        } else if microphone {
            AudioSource::Microphone
        } else {
            AudioSource::Tone
        },
{
    if loopback {
        AudioSource::Loopback
    } else if microphone {
        AudioSource::Microphone
    } else {
        AudioSource::Tone
    }
}

/// The samples of a packet: the frame that is there, else silence.
pub fn frame_or_silence(frame: Option<Vec<i16>>) -> (r: Vec<i16>)
    ensures
        match frame {
            Some(f) => r@ == f@,
            None => r@ == Seq::new(160 as nat, |i: int| 0i16),
        },
{
    match frame {
        Some(f) => f,
        None => {
            let mut v: Vec<i16> = Vec::new();
            let mut i: usize = 0;
            while i < SAMPLES_PER_PACKET
                invariant
                    i <= SAMPLES_PER_PACKET,
                    v@ == Seq::new(i as nat, |j: int| 0i16),
                decreases SAMPLES_PER_PACKET - i,
            {
                v.push(0i16);
                proof {
                    assert(v@ =~= Seq::new((i + 1) as nat, |j: int| 0i16));
                }
                i = i + 1;
            }
            v
        },
    }
}

impl SendClock {
    /// The clock of a leg that has sent nothing.
    pub fn new() -> (r: SendClock)
        ensures
            r == (SendClock { seq: 0, timestamp: 0 }),
    {
        SendClock { seq: 0, timestamp: 0 }
    }

    /// Moves on by one packet: both numbers wrap around.
    pub fn advance(&mut self)
        ensures
            final(self).seq == (old(self).seq + 1) % 0x1_0000,
            final(self).timestamp == (old(self).timestamp + 160) % 0x1_0000_0000,
    {
        self.seq = ((self.seq as u32 + 1) % 0x1_0000) as u16;
        self.timestamp = ((self.timestamp as u64 + 160) % 0x1_0000_0000) as u32;
    }
}

impl SendStats {
    /// The counters of a source that has sent nothing.
    pub fn new(ssrc: u32) -> (r: SendStats)
        ensures
            r == (SendStats { ssrc, packets_sent: 0, bytes_sent: 0, last_rtp_timestamp: 0 }),
    {
        SendStats { ssrc, packets_sent: 0, bytes_sent: 0, last_rtp_timestamp: 0 }
    }

    /// Counts a packet that was sent.
    pub fn on_sent(&mut self, payload_len: u32, timestamp: u32)
        requires
            old(self).packets_sent < u32::MAX,
            old(self).bytes_sent + payload_len <= u32::MAX,
        ensures
            *final(self) == (SendStats {
                ssrc: old(self).ssrc,
                packets_sent: (old(self).packets_sent + 1) as u32,
                bytes_sent: (old(self).bytes_sent + payload_len) as u32,
                last_rtp_timestamp: timestamp,
            }),
    {
        self.packets_sent = self.packets_sent + 1;
        self.bytes_sent = self.bytes_sent + payload_len;
        self.last_rtp_timestamp = timestamp;
    }

    /// True when the leg's reports are sender reports: it has sent something.
    pub fn reports_as_sender(&self) -> (r: bool)
        ensures
            r == (self.packets_sent > 0),
    {
        self.packets_sent > 0
    }
}

impl RecvStats {
    /// The counters of a leg that has received nothing.
    pub fn new() -> (r: RecvStats)
        ensures
            r == (RecvStats {
                packets_received: 0,
                highest_seq: 0,
                last_sr_ntp: 0,
                remote_ssrc: 0,
            }),
    {
        RecvStats { packets_received: 0, highest_seq: 0, last_sr_ntp: 0, remote_ssrc: 0 }
    }

    /// Counts a received packet; the first source that is named stays.
    pub fn on_packet(&mut self, sequence_number: u16, ssrc: u32)
        requires
            old(self).packets_received < u32::MAX,
        ensures
            *final(self) == (RecvStats {
                packets_received: (old(self).packets_received + 1) as u32,
                highest_seq: if sequence_number > old(self).highest_seq {
                    sequence_number as u32
                } else {
                    old(self).highest_seq
                },
                last_sr_ntp: old(self).last_sr_ntp,
                remote_ssrc: if old(self).remote_ssrc == 0 {
                    ssrc
                } else {
                    old(self).remote_ssrc
                },
            }),
    {
        self.packets_received = self.packets_received + 1;
        if sequence_number as u32 > self.highest_seq {
            self.highest_seq = sequence_number as u32;
        }
        if self.remote_ssrc == 0 {
            self.remote_ssrc = ssrc;
        }
    }

    /// Keeps the middle 32 bits of a sender report's time stamp.
    pub fn on_sender_report(&mut self, ntp_timestamp: u64)
        ensures
            *final(self) == (RecvStats {
                last_sr_ntp: ((ntp_timestamp / 0x1_0000) % 0x1_0000_0000) as u32,
                ..*old(self)
            }),
    {
        self.last_sr_ntp = ((ntp_timestamp / 0x1_0000) % 0x1_0000_0000) as u32;
    }
}

/// The payload length and the time stamp of an RTP packet.
pub fn rtp_packet_facts(packet: &[u8], header_size: usize) -> (r: (usize, u32))
    ensures
        r.0 == if packet@.len() >= header_size {
            packet@.len() - header_size
        } else {
            0
        },
        r.1 == if packet@.len() >= 8 {
            bytes::number32(packet@[4], packet@[5], packet@[6], packet@[7])
        } else {
            0
        },
{
    let n: usize = packet.len();
    let len: usize = if n >= header_size {
        n - header_size
    } else {
        0
    };
    let stamp: u32 = if n >= 8 {
        bytes::read_be32(packet, 4)
    } else {
        0
    };
    (len, stamp)
}

/// What a received datagram is.
#[derive(Debug, Clone, Copy, PartialEq, Eq, Structural)]
pub enum Datagram {
    /// A connectivity check: answer it, and send to where it came from.
    CheckRequest,
    /// Another STUN message.
    OtherStun,
    /// A control packet.
    Control,
    /// A media packet.
    Media,
    /// Nothing that can be read.
    Unreadable,
}

/// Sorts a received datagram: STUN by its header, then control packets, then
/// media, by whether they decrypt.
pub fn sort_datagram(
    len: usize,
    is_stun: bool,
    is_request: bool,
    control_ok: bool,
    media_ok: bool,
) -> (r: Datagram)
    ensures
        r == if len >= 20 && is_stun {
            if is_request {
                Datagram::CheckRequest
            } else {
                Datagram::OtherStun
            }
        } else if control_ok {
            Datagram::Control
        } else if media_ok {
            Datagram::Media
        } else {
            Datagram::Unreadable
        },
{
    if len >= 20 && is_stun {
        if is_request {
            Datagram::CheckRequest
        } else {
            Datagram::OtherStun
        }
    } else if control_ok {
        Datagram::Control
    } else if media_ok {
        Datagram::Media
    } else {
        Datagram::Unreadable
    }
}

// -- WAV files --

/// The two bytes of `n`, the low one first.
pub open spec fn le16(n: int) -> Seq<u8> {
    Seq::empty().push((n % 256) as u8).push((n / 256 % 256) as u8)
}

/// The four bytes of `n`, the lowest first.
pub open spec fn le32(n: int) -> Seq<u8> {
    le16(n % 65536) + le16(n / 65536)
}

/// The bytes of samples, two each, the low one first, in two's complement.
pub open spec fn sample_bytes(samples: Seq<i16>) -> Seq<u8>
    decreases samples.len(),
{
    if samples.len() == 0 {
        Seq::empty()
    } else {
        sample_bytes(samples.drop_last()) + le16(samples.last() as int % 65536)
    }
}

/// The length of samples in bytes, as the 32 bits of a WAV header can say it.
pub open spec fn stated_len(samples: Seq<i16>) -> int {
    samples.len() as int * 2 % 0x1_0000_0000
}

/// The header of a WAV file of one channel of 16-bit samples.
pub open spec fn wav_header(data_len: int, sample_rate: int) -> Seq<u8> {
    encode_utf8("RIFF"@) + le32(36 + data_len) + encode_utf8("WAVE"@) + encode_utf8("fmt "@) + le32(
        16,
    ) + le16(1) + le16(1) + le32(sample_rate) + le32(sample_rate * 2) + le16(2) + le16(16)
        + encode_utf8("data"@) + le32(data_len)
}

/// A WAV file: its header, and the samples.
pub open spec fn wav_of(samples: Seq<i16>, sample_rate: int) -> Seq<u8> {
    wav_header(stated_len(samples), sample_rate) + sample_bytes(samples)
}

proof fn lemma_sample_bytes(samples: Seq<i16>)
    ensures
        sample_bytes(samples).len() == 2 * samples.len(),
        forall|i: int|
            0 <= i < samples.len() ==> #[trigger] samples[i] as int % 65536 == sample_bytes(
                samples,
            )[2 * i] + 256 * sample_bytes(samples)[2 * i + 1],
    decreases samples.len(),
{
    if samples.len() > 0 {
        let before = samples.drop_last();
        lemma_sample_bytes(before);
        assert forall|i: int| 0 <= i < samples.len() implies #[trigger] samples[i] as int % 65536
            == sample_bytes(samples)[2 * i] + 256 * sample_bytes(samples)[2 * i + 1] by {
            if i < before.len() {
                assert(before[i] == samples[i]);
            }
        }
    }
}

// Where the lengths stand in the header.
#[verifier::spinoff_prover]
proof fn lemma_wav_header(data_len: int, sample_rate: int)
    ensures
        wav_header(data_len, sample_rate).len() == 44,
        wav_header(data_len, sample_rate).subrange(4, 8) == le32(36 + data_len),
        wav_header(data_len, sample_rate).subrange(40, 44) == le32(data_len),
{
    reveal_strlit("RIFF");
    reveal_strlit("WAVE");
    reveal_strlit("fmt ");
    reveal_strlit("data");
    is_ascii_chars_encode_utf8("RIFF"@);
    is_ascii_chars_encode_utf8("WAVE"@);
    is_ascii_chars_encode_utf8("fmt "@);
    is_ascii_chars_encode_utf8("data"@);
    let w = wav_header(data_len, sample_rate);
    assert(w.subrange(4, 8) =~= le32(36 + data_len));
    assert(w.subrange(40, 44) =~= le32(data_len));
}

/// A WAV file is its header of 44 bytes and two bytes for each sample, from which the
/// sample can be read back; the header names the length of both parts.
#[verifier::spinoff_prover]
pub proof fn law_wav_holds_samples(samples: Seq<i16>, sample_rate: int)
    ensures
        wav_of(samples, sample_rate).len() == 44 + 2 * samples.len(),
        wav_of(samples, sample_rate).subrange(4, 8) == le32(36 + stated_len(samples)),
        wav_of(samples, sample_rate).subrange(40, 44) == le32(stated_len(samples)),
        samples.len() < 0x8000_0000 ==> stated_len(samples) == 2 * samples.len(),
        forall|i: int|
            0 <= i < samples.len() ==> #[trigger] samples[i] as int % 65536 == wav_of(
                samples,
                sample_rate,
            )[44 + 2 * i] + 256 * wav_of(samples, sample_rate)[45 + 2 * i],
{
    lemma_sample_bytes(samples);
    lemma_wav_header(stated_len(samples), sample_rate);
    let h = wav_header(stated_len(samples), sample_rate);
    lemma_behind_header(h, samples);
    assert(wav_of(samples, sample_rate) == h + sample_bytes(samples));
}

// What stands in a header still stands there before the samples, which follow it.
proof fn lemma_behind_header(h: Seq<u8>, samples: Seq<i16>)
    requires
        h.len() == 44,
    ensures
        (h + sample_bytes(samples)).len() == 44 + 2 * samples.len(),
        (h + sample_bytes(samples)).subrange(4, 8) == h.subrange(4, 8),
        (h + sample_bytes(samples)).subrange(40, 44) == h.subrange(40, 44),
        forall|i: int|
            0 <= i < samples.len() ==> #[trigger] samples[i] as int % 65536 == (h + sample_bytes(
                samples,
            ))[44 + 2 * i] + 256 * (h + sample_bytes(samples))[45 + 2 * i],
{
    lemma_sample_bytes(samples);
    let b = sample_bytes(samples);
    let w = h + b;
    assert(w.subrange(4, 8) =~= h.subrange(4, 8));
    assert(w.subrange(40, 44) =~= h.subrange(40, 44));
    assert forall|i: int| 0 <= i < samples.len() implies #[trigger] samples[i] as int % 65536
        == w[44 + 2 * i] + 256 * w[45 + 2 * i] by {
        assert(w[44 + 2 * i] == b[2 * i]);
        assert(w[45 + 2 * i] == b[2 * i + 1]);
    }
}

fn append_le16(buf: &mut Vec<u8>, n: u16)
    ensures
        final(buf)@ == old(buf)@ + le16(n as int),
{
    buf.push((n % 256) as u8);
    buf.push((n / 256) as u8);
    proof {
        assert(buf@ =~= old(buf)@ + le16(n as int));
    }
}

fn append_le32(buf: &mut Vec<u8>, n: u32)
    ensures
        final(buf)@ == old(buf)@ + le32(n as int),
{
    append_le16(buf, (n % 65536) as u16);
    append_le16(buf, (n / 65536) as u16);
    proof {
        assert(buf@ =~= old(buf)@ + le32(n as int));
    }
}

fn write_header(data_len: u32, sample_rate: u32) -> (r: Vec<u8>)
    requires
        data_len + 36 <= u32::MAX,
        sample_rate * 2 <= u32::MAX,
    ensures
        r@ == wav_header(data_len as int, sample_rate as int),
{
    let mut f: Vec<u8> = Vec::new();
    bytes::append_bytes(&mut f, "RIFF".as_bytes());
    proof {
        assert(f@ =~= encode_utf8("RIFF"@));
    }
    append_le32(&mut f, 36 + data_len);
    bytes::append_bytes(&mut f, "WAVE".as_bytes());
    bytes::append_bytes(&mut f, "fmt ".as_bytes());
    append_le32(&mut f, 16);
    append_le16(&mut f, 1);
    append_le16(&mut f, 1);
    append_le32(&mut f, sample_rate);
    append_le32(&mut f, sample_rate * 2);
    append_le16(&mut f, 2);
    append_le16(&mut f, 16);
    bytes::append_bytes(&mut f, "data".as_bytes());
    append_le32(&mut f, data_len);
    f
}

/// Builds a WAV file of one channel.
pub fn write_wav(samples: &[i16], sample_rate: u32) -> (r: Vec<u8>)
    requires
        stated_len(samples@) + 36 <= u32::MAX,
        sample_rate * 2 <= u32::MAX,
    ensures
        r@ == wav_of(samples@, sample_rate as int),
{
    let data_len: u32 = (samples.len() % 0x8000_0000) as u32 * 2;
    assert(data_len == stated_len(samples@));
    let mut f = write_header(data_len, sample_rate);
    let ghost head = f@;
    let mut i: usize = 0;
    proof {
        assert(samples@.take(0) =~= Seq::empty());
        assert(f@ =~= head + sample_bytes(samples@.take(0)));
    }
    while i < samples.len()
        invariant
            i <= samples@.len(),
            f@ == head + sample_bytes(samples@.take(i as int)),
        decreases samples@.len() - i,
    {
        let s: i16 = samples[i];
        let u: u16 = if s >= 0 {
            s as u16
        } else {
            (s as i32 + 65536) as u16
        };
        proof {
            assert(samples@.take(i + 1).drop_last() =~= samples@.take(i as int));
            assert(u as int == s as int % 65536);
        }
        let ghost before = f@;
        append_le16(&mut f, u);
        proof {
            assert(f@ =~= head + sample_bytes(samples@.take(i + 1)));
        }
        i = i + 1;
    }
    proof {
        assert(samples@.take(i as int) =~= samples@);
    }
    f
}
/// The signed-in user, as far as a call shows it.
pub struct MeResponse {
    pub display_name: Option<String>,
    pub mail: Option<String>,
}

/// The model of [`MeResponse`].
pub struct MeResponseV {
    pub display_name: Option<Seq<char>>,
    pub mail: Option<Seq<char>>,
}

impl View for MeResponse {
    type V = MeResponseV;

    open spec fn view(&self) -> MeResponseV {
        MeResponseV {
            display_name: text::opt_text(self.display_name),
            mail: text::opt_text(self.mail),
        }
    }
}

/// How a JSON value reads as a [`MeResponse`]; nothing where it does not.
pub open spec fn me_response_of(v: JsonV) -> Option<MeResponseV> {
    if !json::record_form(v, 2, 2) {
        None
    } else {
        match (
            json::opt_text_member(json::member_of(v, "displayName"@, 0)),
            json::opt_text_member(json::member_of(v, "mail"@, 1)),
        ) {
            (Some(display_name), Some(mail)) => Some(MeResponseV { display_name, mail }),
            _ => None,
        }
    }
}

/// Reads a [`MeResponse`].
pub fn read_me_response(v: &Json) -> (r: Option<MeResponse>)
    ensures
        match r {
            Some(x) => me_response_of(v@) == Some(x@),
            None => me_response_of(v@) is None,
        },
{
    if !json::has_record_form(v, 2, 2) {
        return None;
    }
    let display_name = match json::read_opt_text(json::member(v, "displayName", 0)) {
        Some(x) => x,
        None => {
            return None;
        },
    };
    let mail = match json::read_opt_text(json::member(v, "mail", 1)) {
        Some(x) => x,
        None => {
            return None;
        },
    };
    Some(MeResponse { display_name, mail })
}

/// The name and the address to show for a caller.
pub fn profile_texts(me: &Option<MeResponse>) -> (r: (String, String))
    ensures
        r.0@ == match *me {
            Some(MeResponse { display_name: Some(d), .. }) => d@,
            _ => "(unknown)"@,
        },
        r.1@ == match *me {
            Some(MeResponse { mail: Some(d), .. }) => d@,
            _ => "(unknown)"@,
        },
{
    match me {
        Some(m) => (
            match &m.display_name {
                Some(d) => d.clone(),
                None => "(unknown)".to_string(),
            },
            match &m.mail {
                Some(d) => d.clone(),
                None => "(unknown)".to_string(),
            },
        ),
        None => ("(unknown)".to_string(), "(unknown)".to_string()),
    }
}

// -- What is read --

/// What is read of a [`MeResponse`] stands in the members of these names, and it is read
/// where they hold what they should.
pub proof fn law_me_response_reads_its_members(v: JsonV)
    requires
        v is Obj,
    ensures
        match me_response_of(v) {
            Some(x) => {
                &&& x.display_name == json::str_of(json::get_of(v, "displayName"@))
                &&& x.mail == json::str_of(json::get_of(v, "mail"@))
            },
            None => !(json::opt_text_member(json::get_of(v, "displayName"@)) is Some
                && json::opt_text_member(json::get_of(v, "mail"@)) is Some),
        },
{
}

// -- What a call is planned by --

/// A call can be placed where, and only where, every token that it needs is there and
/// has not run out, and the region is known. A recording needs its own token.
pub proof fn law_call_needs_live_tokens(q: CallRequest)
    ensures
        credential_error(q) is None <==> {
            &&& q.skype_token matches Some(t) && !auth::expired_at(t, q.now)
            &&& q.ic3_token matches Some(t) && !auth::expired_at(t, q.now)
            &&& q.record ==> (q.recorder_token matches Some(t) && !auth::expired_at(t, q.now))
            &&& q.has_region_gtms
        },
        q.skype_token is None ==> credential_error(q) == Some(CallPlanError::NoSkypeToken),
        credential_error(q) == Some(CallPlanError::SkypeTokenExpired) ==> q.skype_token is Some
            && auth::expired_at(q.skype_token->0, q.now),
        credential_error(q) == Some(CallPlanError::NoIc3Token) ==> q.ic3_token is None,
        credential_error(q) == Some(CallPlanError::Ic3TokenExpired) ==> q.ic3_token is Some
            && auth::expired_at(q.ic3_token->0, q.now),
        credential_error(q) == Some(CallPlanError::NoRecorderToken) ==> q.record
            && q.recorder_token is None,
        credential_error(q) == Some(CallPlanError::RecorderTokenExpired) ==> q.record
            && q.recorder_token is Some && auth::expired_at(q.recorder_token->0, q.now),
        credential_error(q) == Some(CallPlanError::NoRegionGtms) ==> !q.has_region_gtms,
        !(credential_error(q) == Some(CallPlanError::NoCallerMri)),
        !(credential_error(q) == Some(CallPlanError::NoTenant)),
{
}

/// The other party of a thread between two people is the one that the caller is not,
/// whichever of the two stands first.
#[verifier::rlimit(40)]
pub proof fn law_callee_is_the_other_party(a: Seq<char>, b: Seq<char>)
    requires
        !a.contains('_'),
        !b.contains('_'),
    ensures
        callee_oid("19:"@ + a + "_"@ + b + "@unq.gbl.spaces"@, a) == Some(b),
        callee_oid("19:"@ + a + "_"@ + b + "@unq.gbl.spaces"@, b) == Some(a),
{
    let s = a + "_"@ + b;
    let suffix = "@unq.gbl.spaces"@;
    let t = "19:"@ + a + "_"@ + b + suffix;
    assert("19:"@.len() == 3) by {
        reveal_strlit("19:");
    }
    assert("_"@.len() == 1 && "_"@[0] == '_') by {
        reveal_strlit("_");
    }
    assert(t.subrange(0, 3) =~= "19:"@);
    assert(t.skip(3) =~= s + suffix);
    assert((s + suffix).subrange(s.len() as int, (s + suffix).len() as int) =~= suffix);
    assert((s + suffix).take(s.len() as int) =~= s);
    assert(thread_inner(t) == Some(s));
    text::lemma_index_from(s, '_', 0);
    assert(s[a.len() as int] == '_');
    assert forall|j: int| 0 <= j < a.len() implies #[trigger] s[j] != '_' by {
        assert(s[j] == a[j]);
        assert(a.contains(a[j]));
    }
    assert(s.take(a.len() as int) =~= a);
    assert(s.skip(a.len() as int + 1) =~= b);
}

/// A thread that is not one between two people has no other party.
pub proof fn law_group_thread_has_no_callee(thread_id: Seq<char>, caller_oid: Seq<char>)
    ensures
        !"19:"@.is_prefix_of(thread_id) ==> callee_oid(thread_id, caller_oid) is None,
        !"@unq.gbl.spaces"@.is_suffix_of(thread_id.skip(3)) ==> callee_oid(thread_id, caller_oid)
            is None,
{
    assert("19:"@.len() == 3) by {
        reveal_strlit("19:");
    }
}

/// A call goes to the thread that was named, else to the configured one, and a call to
/// the Echo bot to the bot's own thread.
pub proof fn law_call_goes_where_it_was_sent(q: CallRequest, caller_oid: Seq<char>)
    ensures
        q.echo ==> call_target(q, caller_oid) == Ok::<
            (Seq<char>, Option<Seq<char>>),
            CallPlanError,
        >((signaling::echo_thread(caller_oid), None)),
        !q.echo ==> (q.thread_override matches Some(t) ==> (call_target(q, caller_oid) matches Ok(
            p,
        ) && p.0 == t@ && (callee_oid(t@, caller_oid) matches Some(o) ==> p.1 == Some(
            "8:orgid:"@ + o,
        )) && (callee_oid(t@, caller_oid) is None ==> p.1 is None))),
        !q.echo && q.thread_override is None && q.test_thread is None ==> call_target(q, caller_oid)
            == Err::<(Seq<char>, Option<Seq<char>>), CallPlanError>(CallPlanError::NoThread),
        !q.echo && q.thread_override is None ==> (q.test_thread matches Some(t) ==> (t@.len() == 0
            ==> call_target(q, caller_oid) == Err::<
            (Seq<char>, Option<Seq<char>>),
            CallPlanError,
        >(CallPlanError::EmptyThread))),
        !q.echo && q.thread_override is None ==> (q.test_thread matches Some(t) ==> (t@.len() > 0
            ==> call_target(q, caller_oid) == Ok::<
            (Seq<char>, Option<Seq<char>>),
            CallPlanError,
        >((t@, None)))),
{
}

/// A plan names the caller by their whole id and by the part behind its prefix, and says
/// whether one person is called.
pub proof fn law_plan_names_the_caller(q: CallRequest, mri: Option<Seq<char>>)
    ensures
        call_plan(q, mri) matches Ok(p) ==> {
            &&& credential_error(q) is None
            &&& mri == Some(p.caller_mri)
            &&& p.caller_mri == "8:orgid:"@ + p.caller_oid
            &&& call_target(q, p.caller_oid) == Ok::<(Seq<char>, Option<Seq<char>>), CallPlanError>(
                (p.thread_id, p.callee_mri),
            )
            &&& p.is_1to1_call <==> (q.echo || p.callee_mri is Some)
            &&& q.tenant_id matches Some(t) && t@ == p.tenant_id
        },
        credential_error(q) matches Some(e)
            ==> call_plan(q, mri) == Err::<CallPlanV, CallPlanError>(
            e,
        ),
        credential_error(q) is None && mri is None ==> call_plan(q, mri) == Err::<
            CallPlanV,
            CallPlanError,
        >(CallPlanError::NoCallerMri),
        credential_error(q) is None ==> (mri matches Some(m) ==> (!"8:orgid:"@.is_prefix_of(m)
            ==> call_plan(q, mri) == Err::<CallPlanV, CallPlanError>(
            CallPlanError::UnexpectedMri,
        ))),
        call_plan(q, mri) == Err::<CallPlanV, CallPlanError>(CallPlanError::NoTenant)
            ==> q.tenant_id is None,
{
    if let Some(m) = mri {
        if "8:orgid:"@.is_prefix_of(m) {
            let n = "8:orgid:"@.len() as int;
            assert(m.subrange(0, n) == "8:orgid:"@);
            assert(m =~= "8:orgid:"@ + m.skip(n));
        }
    }
}

/// The caller is who the token names: a Skype id of an organisation or of a visitor with
/// the number of people before it, another as it is, else the object id.
pub proof fn law_caller_is_who_the_token_names(claims: JsonV, rest: Seq<char>)
    ensures
        json::str_of(json::get_of(claims, "skypeid"@)) == Some("orgid:"@ + rest) ==> claims_mri(
            claims,
        ) == Some("8:"@ + ("orgid:"@ + rest)),
        json::str_of(json::get_of(claims, "skypeid"@)) == Some("teamsvisitor:"@ + rest)
            ==> claims_mri(claims) == Some("8:"@ + ("teamsvisitor:"@ + rest)),
        json::str_of(json::get_of(claims, "skypeid"@)) == Some("8:"@ + rest) ==> claims_mri(claims)
            == Some("8:"@ + rest),
        json::str_of(json::get_of(claims, "skypeid"@)) is None && json::str_of(
            json::get_of(claims, "oid"@),
        ) == Some(rest) ==> claims_mri(claims) == Some("8:orgid:"@ + rest),
        json::str_of(json::get_of(claims, "skypeid"@)) is None && json::str_of(
            json::get_of(claims, "oid"@),
        ) is None ==> claims_mri(claims) is None,
{
    assert("orgid:"@.len() == 6 && "orgid:"@[0] == 'o') by {
        reveal_strlit("orgid:");
    }
    assert("teamsvisitor:"@.len() == 13 && "teamsvisitor:"@[0] == 't') by {
        reveal_strlit("teamsvisitor:");
    }
    assert("8:"@.len() == 2 && "8:"@[0] == '8') by {
        reveal_strlit("8:");
    }
    assert(("orgid:"@ + rest).subrange(0, 6) =~= "orgid:"@);
    assert(("teamsvisitor:"@ + rest).subrange(0, 13) =~= "teamsvisitor:"@);
    let plain = "8:"@ + rest;
    if "orgid:"@.is_prefix_of(plain) {
        assert(plain.subrange(0, 6)[0] == plain[0]);
    }
    if "teamsvisitor:"@.is_prefix_of(plain) {
        assert(plain.subrange(0, 13)[0] == plain[0]);
    }
}

/// The claims of a token stand between its first two points.
pub proof fn law_claims_stand_between_points(head: Seq<char>, claims: Seq<char>, tail: Seq<char>)
    requires
        !head.contains('.'),
        !claims.contains('.'),
    ensures
        token_payload(head + "."@ + claims + "."@ + tail) == Some(claims),
        token_payload(head) is None,
{
    assert("."@.len() == 1 && "."@[0] == '.') by {
        reveal_strlit(".");
    }
    let t = head + "."@ + claims + "."@ + tail;
    let n = head.len() as int;
    text::lemma_index_from(t, '.', 0);
    text::lemma_index_from(head, '.', 0);
    if let Some(i) = text::first_index(head, '.') {
        assert(head.contains(head[i]));
    }
    assert(t[n] == '.');
    assert forall|j: int| 0 <= j < n implies #[trigger] t[j] != '.' by {
        assert(t[j] == head[j]);
        assert(head.contains(head[j]));
    }
    let rest = t.skip(n + 1);
    assert(rest =~= claims + "."@ + tail);
    text::lemma_index_from(rest, '.', 0);
    assert(rest[claims.len() as int] == '.');
    assert forall|j: int| 0 <= j < claims.len() implies #[trigger] rest[j] != '.' by {
        assert(rest[j] == claims[j]);
        assert(claims.contains(claims[j]));
    }
    assert(rest.take(claims.len() as int) =~= claims);
}

/// The calling service is the configured one, else the one that the region names.
pub proof fn law_configured_service_comes_first(
    gtms: JsonV,
    configured: Seq<char>,
    named: Seq<char>,
)
    ensures
        epconv_url(gtms, Some(configured)) == Some(configured),
        json::str_of(json::get_of(gtms, "calling_conversationServiceUrl"@)) == Some(named)
            ==> epconv_url(gtms, None) == Some(named),
        json::str_of(json::get_of(gtms, "calling_conversationServiceUrl"@)) is None
            && json::str_of(json::get_of(gtms, "calling_potentialCallRequestUrl"@)) is None
            ==> epconv_url(gtms, None) is None,
{
}

/// What a frame carries stands behind its number and its colons.
pub proof fn law_frame_carries_what_follows(body: Seq<char>)
    ensures
        frame_json("3:::"@ + body) == Some(body),
        frame_json("5:::"@ + body) == Some(body),
        body.len() > 0 && body[0] != ':' ==> frame_json("3::"@ + body) == Some(body),
        body.len() > 0 && body[0] != ':' ==> frame_json("5::"@ + body) == Some(body),
        frame_json("2::"@ + body) is None,
        is_heartbeat("2::"@ + body),
        !is_heartbeat("3::"@ + body),
        !is_heartbeat("5::"@ + body),
{
    assert("3:::"@.len() == 4 && "3:::"@[0] == '3' && "3:::"@[3] == ':') by {
        reveal_strlit("3:::");
    }
    assert("5:::"@.len() == 4 && "5:::"@[0] == '5' && "5:::"@[3] == ':') by {
        reveal_strlit("5:::");
    }
    assert("3::"@.len() == 3 && "3::"@[0] == '3') by {
        reveal_strlit("3::");
    }
    assert("5::"@.len() == 3 && "5::"@[0] == '5') by {
        reveal_strlit("5::");
    }
    assert("2::"@.len() == 3 && "2::"@[0] == '2') by {
        reveal_strlit("2::");
    }
    let a = "3:::"@ + body;
    let b = "5:::"@ + body;
    let c = "3::"@ + body;
    let d = "5::"@ + body;
    let e = "2::"@ + body;
    assert(a.subrange(0, 4) =~= "3:::"@ && a.skip(4) =~= body);
    assert(b.subrange(0, 4) =~= "5:::"@ && b.skip(4) =~= body && b[0] == '5');
    assert(c.subrange(0, 3) =~= "3::"@ && c.skip(3) =~= body && c[0] == '3');
    assert(d.subrange(0, 3) =~= "5::"@ && d.skip(3) =~= body && d[0] == '5');
    assert(e.subrange(0, 3) =~= "2::"@ && e[0] == '2');
    if body.len() > 0 {
        assert(c[3] == body[0] && d[3] == body[0]);
        assert(c.subrange(0, 4)[3] == c[3] && d.subrange(0, 4)[3] == d[3]);
    }
}

/// A call that was refused or has ended is not accepted, and nothing is to be ended; one
/// that was answered with media is accepted, with the links of the answer.
pub proof fn law_answer_is_told_by_its_members(v: JsonV)
    ensures
        json::get_of(v, "sessionRejection"@) is Some ==> (acceptance_of(v) matches Some(a)
            && a.rejection_reason is Some && a.sdp_blob is None && a.end_url is None
            && a.acknowledgement_url is None && a.call_leg_url is None),
        json::get_of(v, "callEnd"@) is Some ==> (acceptance_of(v) matches Some(a)
            && a.rejection_reason is Some && a.sdp_blob is None && a.end_url is None
            && a.acknowledgement_url is None && a.call_leg_url is None),
        acceptance_of(v) matches Some(a) ==> (a.rejection_reason is None ==> {
            &&& json::get_of(v, "sessionRejection"@) is None
            &&& json::get_of(v, "callEnd"@) is None
            &&& a.sdp_blob is Some && a.sdp_blob == answer_blob(v)
            &&& a.end_url == answer_link(v, "end"@)
            &&& a.acknowledgement_url == answer_link(v, "acknowledgement"@)
            &&& a.call_leg_url == answer_link(v, "callLeg"@)
            &&& a.apply_channel_params_url == answer_link(v, "applyChannelParameters"@)
        }),
        json::get_of(v, "sessionRejection"@) is None && json::get_of(v, "callEnd"@) is None
            && answer_blob(v) is Some ==> (acceptance_of(v) matches Some(a)
            && a.rejection_reason is None),
        json::get_of(v, "sessionRejection"@) is None && json::get_of(v, "callEnd"@) is None
            && answer_blob(v) is None && json::get_of(v, "callAcceptance"@) is None
            ==> acceptance_of(v) is None,
        json::get_of(v, "sessionRejection"@) is None && json::get_of(v, "callEnd"@) is None
            && answer_blob(v) is None && json::get_of(v, "callAcceptance"@) is Some ==> (
        acceptance_of(v) matches Some(a) && a.rejection_reason is Some && a.end_url == answer_link(
            v,
            "end"@,
        )),
{
}

/// The media of an answer stand in the acceptance, else beside it, else in a later
/// answer; its links stand with the acceptance where there is one.
pub proof fn law_answer_parts(v: JsonV, name: Seq<char>, s: Seq<char>)
    ensures
        json::get3_of(v, "callAcceptance"@, "mediaContent"@, "blob"@) == Some(JsonV::Str(s))
            ==> answer_blob(v) == Some(s),
        json::get3_of(v, "callAcceptance"@, "mediaContent"@, "blob"@) is None && json::get2_of(
            v,
            "mediaContent"@,
            "blob"@,
        ) == Some(JsonV::Str(s)) ==> answer_blob(v) == Some(s),
        json::get3_of(v, "callAcceptance"@, "mediaContent"@, "blob"@) is None && json::get2_of(
            v,
            "mediaContent"@,
            "blob"@,
        ) is None && json::get3_of(v, "mediaAnswer"@, "mediaContent"@, "blob"@) == Some(
            JsonV::Str(s),
        ) ==> answer_blob(v) == Some(s),
        json::get3_of(v, "callAcceptance"@, "links"@, name) == Some(JsonV::Str(s))
            && json::get_of(v, "callAcceptance"@) is Some ==> answer_link(v, name) == Some(s),
        json::get_of(v, "callAcceptance"@) is None && json::get2_of(v, "links"@, name) == Some(
            JsonV::Str(s),
        ) ==> answer_link(v, name) == Some(s),
{
}

/// Why a call was refused or ended begins with what happened and the phrase, and names
/// the codes.
pub proof fn law_reason_tells_phrase_and_codes(v: JsonV, e: JsonV, phrase: Seq<char>)
    requires
        json::str_of(json::get_of(e, "phrase"@)) == Some(phrase),
    ensures
        json::get_of(v, "callEnd"@) == Some(e) ==> (call_end_text(v) matches Some(t) && (
        "Call ended: "@ + phrase + " (code="@ + text::decimal(number_or_zero(e, "code"@))
            + ", subCode="@ + text::decimal(number_or_zero(e, "subCode"@))).is_prefix_of(t)),
        json::get_of(v, "sessionRejection"@) == Some(e) ==> (rejection_text(v) matches Some(t) && (
        "Call rejected: "@ + phrase + " (code="@ + text::decimal(number_or_zero(e, "code"@))
            + ", subCode="@ + text::decimal(number_or_zero(e, "subCode"@))).is_prefix_of(t)),
        json::get_of(v, "callEnd"@) is None ==> call_end_text(v) is None,
        json::get_of(v, "sessionRejection"@) is None ==> rejection_text(v) is None,
{
    let c = text::decimal(number_or_zero(e, "code"@));
    let s = text::decimal(number_or_zero(e, "subCode"@));
    let p1 = "Call ended: "@ + phrase + " (code="@ + c + ", subCode="@ + s;
    let p2 = "Call rejected: "@ + phrase + " (code="@ + c + ", subCode="@ + s;
    if json::get_of(v, "callEnd"@) == Some(e) {
        let t = call_end_text(v)->0;
        assert(t.subrange(0, p1.len() as int) =~= p1);
    }
    if json::get_of(v, "sessionRejection"@) == Some(e) {
        let t = rejection_text(v)->0;
        assert(t.subrange(0, p2.len() as int) =~= p2);
    }
}

/// A call is ended at the address that the answer names, else under the address of its
/// leg: behind the path and before the query.
pub proof fn law_call_ends_at_its_leg(a: CallAcceptanceResponseV, path: Seq<char>, query: Seq<char>)
    requires
        !path.contains('?'),
    ensures
        a.end_url is Some ==> end_url_of(a) == a.end_url,
        a.end_url is None && a.call_leg_url == Some(path) ==> end_url_of(a) == Some(path + "/end"@),
        a.end_url is None && a.call_leg_url == Some(path + "?"@ + query) ==> end_url_of(a) == Some(
            path + "/end?"@ + query,
        ),
        a.end_url is None && a.call_leg_url is None ==> end_url_of(a) is None,
{
    assert("?"@.len() == 1 && "?"@[0] == '?') by {
        reveal_strlit("?");
    }
    assert("/end?"@ == "/end"@ + "?"@) by {
        reveal_strlit("/end?");
        reveal_strlit("/end");
        reveal_strlit("?");
        assert("/end?"@ =~= "/end"@ + "?"@);
    }
    let u = path + "?"@ + query;
    text::lemma_index_from(path, '?', 0);
    text::lemma_index_from(u, '?', 0);
    if let Some(i) = text::first_index(path, '?') {
        assert(path.contains(path[i]));
    }
    assert(u[path.len() as int] == '?');
    assert forall|j: int| 0 <= j < path.len() implies #[trigger] u[j] != '?' by {
        assert(u[j] == path[j]);
        assert(path.contains(path[j]));
    }
    assert(u.take(path.len() as int) =~= path);
    assert(u.skip(path.len() as int) =~= "?"@ + query);
    assert(path + "/end"@ + ("?"@ + query) =~= path + "/end?"@ + query);
}

/// A media leg can be set up where, and only where, the other side's description reads,
/// each section has keys of both sides and a context, and audio has an address.
pub proof fn law_media_leg_needs_keys_and_address(
    remote_ok: bool,
    audio: SectionChecks,
    video: Option<SectionChecks>,
)
    ensures
        leg_error(remote_ok, audio, video) is None <==> {
            &&& remote_ok
            &&& audio.local_crypto && audio.context
            &&& exists|i: int| 0 <= i < audio.remote_crypto@.len()
                && #[trigger] audio.remote_crypto@[i]
            &&& video matches Some(x) ==> x.local_crypto && x.context && exists|i: int|
                0 <= i < x.remote_crypto@.len() && #[trigger] x.remote_crypto@[i]
            &&& audio.checked is Some || audio.fallback is Some
        },
        leg_error(remote_ok, audio, video) == Some(MediaLegError::RemoteSdp) <==> !remote_ok,
        leg_error(remote_ok, audio, video) == Some(MediaLegError::NoAudioCandidate)
            ==> audio.checked is None && audio.fallback is None,
        leg_error(remote_ok, audio, video) == Some(MediaLegError::NoVideoCrypto) ==> video is Some,
        leg_error(remote_ok, audio, video) == Some(MediaLegError::LocalVideoCrypto) ==> video
            is Some && !video->0.local_crypto,
        leg_error(remote_ok, audio, video) == Some(MediaLegError::VideoContext) ==> video is Some
            && !video->0.context,
        leg_error(remote_ok, audio, video) == Some(MediaLegError::LocalAudioCrypto)
            ==> !audio.local_crypto,
        leg_error(remote_ok, audio, video) == Some(MediaLegError::AudioContext) ==> !audio.context,
{
}

/// The address that was checked is preferred to the one to fall back to.
pub proof fn law_checked_address_comes_first(s: SectionChecks)
    ensures
        s.checked is Some ==> section_address(s) == s.checked,
        s.checked is None ==> section_address(s) == s.fallback,
{
}

/// The header of a WAV file says that it is one of samples of sixteen bits on one
/// channel, at the given rate.
pub proof fn law_wav_header_says_what_follows(samples: Seq<i16>, rate: int)
    requires
        0 <= rate < 0x8000_0000,
    ensures
        ({
            let w = wav_of(samples, rate);
            &&& w[0] == 82 && w[1] == 73 && w[2] == 70 && w[3] == 70
            &&& w[8] == 87 && w[9] == 65 && w[10] == 86 && w[11] == 69
            &&& w[12] == 102 && w[13] == 109 && w[14] == 116 && w[15] == 32
            &&& w[16] == 16 && w[17] == 0 && w[18] == 0 && w[19] == 0
            &&& w[20] == 1 && w[21] == 0 && w[22] == 1 && w[23] == 0
            &&& w[24] + 0x100 * w[25] + 0x1_0000 * w[26] + 0x100_0000 * w[27] == rate
            &&& w[28] + 0x100 * w[29] + 0x1_0000 * w[30] + 0x100_0000 * w[31] == 2 * rate
            &&& w[32] == 2 && w[33] == 0 && w[34] == 16 && w[35] == 0
            &&& w[36] == 100 && w[37] == 97 && w[38] == 116 && w[39] == 97
        }),
{
    let n = stated_len(samples);
    lemma_header_words(n, rate);
    let h = wav_header(n, rate);
    let w = wav_of(samples, rate);
    assert forall|i: int| 0 <= i < 44 implies #[trigger] w[i] == h[i] by {}
}

proof fn lemma_header_words(n: int, rate: int)
    requires
        0 <= rate < 0x8000_0000,
    ensures
        ({
            let w = wav_header(n, rate);
            &&& w.len() == 44
            &&& w[0] == 82 && w[1] == 73 && w[2] == 70 && w[3] == 70
            &&& w[8] == 87 && w[9] == 65 && w[10] == 86 && w[11] == 69
            &&& w[12] == 102 && w[13] == 109 && w[14] == 116 && w[15] == 32
            &&& w[16] == 16 && w[17] == 0 && w[18] == 0 && w[19] == 0
            &&& w[20] == 1 && w[21] == 0 && w[22] == 1 && w[23] == 0
            &&& w[24] + 0x100 * w[25] + 0x1_0000 * w[26] + 0x100_0000 * w[27] == rate
            &&& w[28] + 0x100 * w[29] + 0x1_0000 * w[30] + 0x100_0000 * w[31] == 2 * rate
            &&& w[32] == 2 && w[33] == 0 && w[34] == 16 && w[35] == 0
            &&& w[36] == 100 && w[37] == 97 && w[38] == 116 && w[39] == 97
        }),
{
    lemma_header_names();
    let a = encode_utf8("RIFF"@);
    let b = encode_utf8("WAVE"@);
    let c = encode_utf8("fmt "@);
    let d = encode_utf8("data"@);
    let w = wav_header(n, rate);
    let front = a + le32(36 + n) + b + c + le32(16) + le16(1) + le16(1);
    let back = le16(2) + le16(16) + d + le32(n);
    let r = le32(rate);
    let q = le32(rate * 2);
    lemma_header_front(n);
    lemma_le32(rate);
    lemma_le32(rate * 2);
    assert(back.len() == 12);
    assert(back[0] == 2 && back[1] == 0 && back[2] == 16 && back[3] == 0);
    assert(back[4] == d[0] && back[5] == d[1] && back[6] == d[2] && back[7] == d[3]);
    assert(w =~= front + r + q + back);
    assert forall|i: int| 0 <= i < 24 implies #[trigger] w[i] == front[i] by {}
    assert forall|i: int| 0 <= i < 12 implies #[trigger] back[i] == w[32 + i] by {}
    assert(w[24] == r[0] && w[25] == r[1] && w[26] == r[2] && w[27] == r[3]);
    assert(w[28] == q[0] && w[29] == q[1] && w[30] == q[2] && w[31] == q[3]);
}

proof fn lemma_header_front(n: int)
    ensures
        ({
            let w = encode_utf8("RIFF"@) + le32(36 + n) + encode_utf8("WAVE"@) + encode_utf8(
                "fmt "@,
            ) + le32(16) + le16(1) + le16(1);
            &&& w.len() == 24
            &&& w[0] == 82 && w[1] == 73 && w[2] == 70 && w[3] == 70
            &&& w[8] == 87 && w[9] == 65 && w[10] == 86 && w[11] == 69
            &&& w[12] == 102 && w[13] == 109 && w[14] == 116 && w[15] == 32
            &&& w[16] == 16 && w[17] == 0 && w[18] == 0 && w[19] == 0
            &&& w[20] == 1 && w[21] == 0 && w[22] == 1 && w[23] == 0
        }),
{
    lemma_header_names();
    lemma_le32(16);
    let a = encode_utf8("RIFF"@);
    let b = encode_utf8("WAVE"@);
    let c = encode_utf8("fmt "@);
    let w = a + le32(36 + n) + b + c + le32(16) + le16(1) + le16(1);
    assert(w.subrange(0, 4) =~= a);
    assert(w.subrange(8, 12) =~= b);
    assert(w.subrange(12, 16) =~= c);
    assert(w.subrange(16, 20) =~= le32(16));
    assert(w[0] == w.subrange(0, 4)[0] && w[1] == w.subrange(0, 4)[1]);
    assert(w[2] == w.subrange(0, 4)[2] && w[3] == w.subrange(0, 4)[3]);
    assert(w[8] == w.subrange(8, 12)[0] && w[9] == w.subrange(8, 12)[1]);
    assert(w[10] == w.subrange(8, 12)[2] && w[11] == w.subrange(8, 12)[3]);
    assert(w[12] == w.subrange(12, 16)[0] && w[13] == w.subrange(12, 16)[1]);
    assert(w[14] == w.subrange(12, 16)[2] && w[15] == w.subrange(12, 16)[3]);
}

// The four names in a header, as bytes.
proof fn lemma_header_names()
    ensures
        encode_utf8("RIFF"@) == Seq::empty().push(82u8).push(73u8).push(70u8).push(70u8),
        encode_utf8("WAVE"@) == Seq::empty().push(87u8).push(65u8).push(86u8).push(69u8),
        encode_utf8("fmt "@) == Seq::empty().push(102u8).push(109u8).push(116u8).push(32u8),
        encode_utf8("data"@) == Seq::empty().push(100u8).push(97u8).push(116u8).push(97u8),
{
    reveal_strlit("RIFF");
    reveal_strlit("WAVE");
    reveal_strlit("fmt ");
    reveal_strlit("data");
    is_ascii_chars_encode_utf8("RIFF"@);
    is_ascii_chars_encode_utf8("WAVE"@);
    is_ascii_chars_encode_utf8("fmt "@);
    is_ascii_chars_encode_utf8("data"@);
}

proof fn lemma_le32(n: int)
    requires
        0 <= n < 0x1_0000_0000,
    ensures
        le32(n).len() == 4,
        le32(n)[0] + 0x100 * le32(n)[1] + 0x1_0000 * le32(n)[2] + 0x100_0000 * le32(n)[3] == n,
        n < 256 ==> le32(n)[0] == n && le32(n)[1] == 0 && le32(n)[2] == 0 && le32(n)[3] == 0,
{
    let lo = n % 65536;
    let hi = n / 65536;
    assert(le32(n)[0] == le16(lo)[0] && le32(n)[1] == le16(lo)[1]);
    assert(le32(n)[2] == le16(hi)[0] && le32(n)[3] == le16(hi)[1]);
}

// -- What an event holds --

/// The payload of a message is its body: an object as it is, a text as what it reads as,
/// unpacked first where it is packed. An event of another kind is its own payload.
pub proof fn law_payload_of_an_event(v: JsonV, o: Seq<(Seq<char>, JsonV)>, s: Seq<char>, p: JsonV)
    ensures
        event_payload(v, false) == v,
        json::get_of(v, "body"@) == Some(JsonV::Obj(o)) ==> event_payload(v, true) == JsonV::Obj(o),
        json::get_of(v, "body"@) == Some(JsonV::Str(s)) && !is_zipped(v) && json::json_text(s)
            == Some(p) ==> event_payload(v, true) == p,
        json::get_of(v, "body"@) == Some(JsonV::Str(s)) && is_zipped(v) && (unzipped_text(s) matches
            Some(t) && json::json_text(t) == Some(p)) ==> event_payload(v, true) == p,
        json::get_of(v, "body"@) is None
            && json::get2_of(v, "data"@, "body"@) == Some(JsonV::Obj(o))
            ==> event_payload(v, true) == JsonV::Obj(o),
        json::get_of(v, "body"@) is None && json::get2_of(v, "data"@, "body"@) is None
            ==> event_payload(v, true) == v,
{
}

/// A body is packed where the header of its encoding says gzip, in either case of its
/// letters.
pub proof fn law_packed_bodies(v: JsonV, h: Seq<char>)
    ensures
        json::str_of(json::get2_of(v, "headers"@, "X-Microsoft-Skype-Content-Encoding"@)) == Some(h)
            ==> (is_zipped(v) <==> text::lowered(h) == text::lowered("gzip"@)),
        json::str_of(json::get2_of(v, "headers"@, "X-Microsoft-Skype-Content-Encoding"@)) is None
            ==> !is_zipped(v),
{
}

/// A message is read with its body, another event as it stands.
pub proof fn law_frames_are_messages_or_events(body: Seq<char>, v: JsonV)
    requires
        json::json_text(body) == Some(v),
    ensures
        call_payload("3:::"@ + body) == Some(event_payload(v, true)),
        call_payload("5:::"@ + body) == Some(v),
{
    law_frame_carries_what_follows(body);
    assert("3::"@.len() == 3 && "3::"@[0] == '3' && "3::"@[1] == ':' && "3::"@[2] == ':') by {
        reveal_strlit("3::");
    }
    assert("3:::"@.len() == 4 && "3:::"@[0] == '3' && "3:::"@[1] == ':' && "3:::"@[2] == ':') by {
        reveal_strlit("3:::");
    }
    assert("5:::"@.len() == 4 && "5:::"@[0] == '5') by {
        reveal_strlit("5:::");
    }
    let a = "3:::"@ + body;
    let b = "5:::"@ + body;
    assert(a.subrange(0, 3) =~= "3::"@);
    assert(b[0] == '5');
    if "3::"@.is_prefix_of(b) {
        assert(b.subrange(0, 3)[0] == b[0]);
    }
}

/// The categories of an end are its texts with commas between them, or the one text.
pub proof fn law_categories_are_joined(v: JsonV, a: Seq<JsonV>, s: Seq<char>, x: Seq<char>)
    ensures
        json::get_of(v, "resultCategories"@) == Some(JsonV::Str(s)) ==> categories_of(v) == s,
        json::get_of(v, "resultCategories"@) is None ==> categories_of(v).len() == 0,
        json::get_of(v, "resultCategories"@) == Some(JsonV::Arr(a)) ==> categories_of(v)
            == text::joined(strings_in(a), ","@),
        strings_in(a.push(JsonV::Str(s))) == strings_in(a).push(s),
        strings_in(a.push(JsonV::Null)) == strings_in(a),
        strings_in(Seq::empty()).len() == 0,
{
    assert(a.push(JsonV::Str(s)).drop_last() =~= a);
    assert(a.push(JsonV::Null).drop_last() =~= a);
}

/// The claims of a token are read without their padding, or with it.
pub proof fn law_claims_are_read(token: Seq<char>, p: Seq<char>, b: Seq<u8>, v: JsonV)
    ensures
        token_payload(token) == Some(p) && payload_bytes(p) == Some(b) && json::json_bytes(b)
            == Some(v) ==> token_mri(token) == claims_mri(v),
        token_payload(token) is None ==> token_mri(token) is None,
        encoding::base64url_bytes(text::without_trailing(p, '=')) == Some(b) ==> payload_bytes(p)
            == Some(b),
        encoding::base64url_bytes(text::without_trailing(p, '=')) is None ==> payload_bytes(p)
            == encoding::base64_bytes(p),
{
}

/// The key that is used is the first that can be.
pub proof fn law_first_usable_key(usable: Seq<bool>, i: int, j: int)
    requires
        first_usable(usable, i),
        0 <= j < usable.len(),
        usable[j],
    ensures
        i <= j && usable[i],
{
}

/// Who calls is whom the token of the request names.
pub proof fn law_caller_by_the_request(q: CallRequest)
    ensures
        q.skype_token matches Some(t) ==> request_caller(q) == token_mri(t.token@),
        q.skype_token is None ==> request_caller(q) is None,
{
}

/// An answer is read of the payload of a frame, and a frame without one holds none.
pub proof fn law_answer_in_a_frame(frame: Seq<char>, v: JsonV)
    ensures
        call_payload(frame) == Some(v) ==> frame_acceptance(frame) == acceptance_of(v),
        call_payload(frame) is None ==> frame_acceptance(frame) is None,
{
}

/// Where the caller is neither party of a thread between two, the second is called; a
/// thread of more than two parties has no other one.
#[verifier::rlimit(40)]
pub proof fn law_stranger_calls_the_second(a: Seq<char>, b: Seq<char>, caller: Seq<char>)
    requires
        !a.contains('_'),
        a != caller,
        b != caller,
    ensures
        !b.contains('_') ==> callee_oid("19:"@ + a + "_"@ + b + "@unq.gbl.spaces"@, caller) == Some(
            b,
        ),
        b.contains('_') ==> callee_oid("19:"@ + a + "_"@ + b + "@unq.gbl.spaces"@, caller) is None,
{
    let s = a + "_"@ + b;
    let suffix = "@unq.gbl.spaces"@;
    let t = "19:"@ + a + "_"@ + b + suffix;
    assert("19:"@.len() == 3) by {
        reveal_strlit("19:");
    }
    assert("_"@.len() == 1 && "_"@[0] == '_') by {
        reveal_strlit("_");
    }
    assert(t.subrange(0, 3) =~= "19:"@);
    assert(t.skip(3) =~= s + suffix);
    assert((s + suffix).subrange(s.len() as int, (s + suffix).len() as int) =~= suffix);
    assert((s + suffix).take(s.len() as int) =~= s);
    assert(thread_inner(t) == Some(s));
    text::lemma_index_from(s, '_', 0);
    assert(s[a.len() as int] == '_');
    assert forall|j: int| 0 <= j < a.len() implies #[trigger] s[j] != '_' by {
        assert(s[j] == a[j]);
        assert(a.contains(a[j]));
    }
    assert(s.take(a.len() as int) =~= a);
    assert(s.skip(a.len() as int + 1) =~= b);
}

/// Where the region names no calling service, it is the one beside the service that it
/// names for calls to come.
pub proof fn law_service_beside_another(gtms: JsonV, u: Seq<char>, i: int)
    requires
        json::str_of(json::get_of(gtms, "calling_conversationServiceUrl"@)) is None,
        json::str_of(json::get_of(gtms, "calling_potentialCallRequestUrl"@)) == Some(u),
    ensures
        text::find_in(u, "/api/v2/"@) == Some(i) ==> epconv_url(gtms, None) == Some(
            u.take(i) + "/api/v2/epconv"@,
        ),
        text::find_in(u, "/api/v2/"@) is None ==> epconv_url(gtms, None) == Some(
            text::replaced_all(u, "/cc/v1/potentialcall"@, "/epconv"@),
        ),
{
}

} // verus!
