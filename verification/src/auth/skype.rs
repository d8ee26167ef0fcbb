//! The exchange of an AAD access token for a Skype token, which most Teams
//! operations ask for.
use crate::json;
use crate::json::{Json, JsonV};
use crate::text;
use vstd::prelude::*;

verus! {

/// The tokens of an authsvc reply.
pub struct AuthzTokens {
    pub skype_token: Option<String>,
    pub expires_in: Option<u64>,
}

/// The model of [`AuthzTokens`].
pub struct AuthzTokensV {
    pub skype_token: Option<Seq<char>>,
    pub expires_in: Option<u64>,
}

impl View for AuthzTokens {
    type V = AuthzTokensV;

    open spec fn view(&self) -> AuthzTokensV {
        AuthzTokensV {
            skype_token: text::opt_text(self.skype_token),
            expires_in: self.expires_in,
        }
    }
}

/// An optional [`AuthzTokens`] by its model.
pub open spec fn opt_authz_tokens(o: Option<AuthzTokens>) -> Option<AuthzTokensV> {
    match o {
        Some(x) => Some(x@),
        None => None,
    }
}

/// How a JSON value reads as a [`AuthzTokens`]; nothing where it does not.
pub open spec fn authz_tokens_of(v: JsonV) -> Option<AuthzTokensV> {
    if !json::record_form(v, 2, 2) {
        None
    } else {
        match (
            json::opt_text_member(json::member_of(v, "skypeToken"@, 0)),
            json::opt_u64_member(json::member_of(v, "expiresIn"@, 1)),
        ) {
            (Some(skype_token), Some(expires_in)) => Some(AuthzTokensV { skype_token, expires_in }),
            _ => None,
        }
    }
}

/// Reads a [`AuthzTokens`].
pub fn read_authz_tokens(v: &Json) -> (r: Option<AuthzTokens>)
    ensures
        match r {
            Some(x) => authz_tokens_of(v@) == Some(x@),
            None => authz_tokens_of(v@) is None,
        },
{
    if !json::has_record_form(v, 2, 2) {
        return None;
    }
    let skype_token = match json::read_opt_text(json::member(v, "skypeToken", 0)) {
        Some(x) => x,
        None => {
            return None;
        },
    };
    let expires_in = match json::read_opt_u64(json::member(v, "expiresIn", 1)) {
        Some(x) => x,
        None => {
            return None;
        },
    };
    Some(AuthzTokens { skype_token, expires_in })
}

/// How an optional member reads as a [`AuthzTokens`].
pub open spec fn opt_authz_tokens_member(m: Option<JsonV>) -> Option<Option<AuthzTokensV>> {
    match m {
        None => Some(None),
        Some(JsonV::Null) => Some(None),
        Some(j) => match authz_tokens_of(j) {
            Some(x) => Some(Some(x)),
            None => None,
        },
    }
}

fn read_opt_authz_tokens(m: Option<&Json>) -> (r: Option<Option<AuthzTokens>>)
    ensures
        match r {
            Some(o) => opt_authz_tokens_member(json::opt_json(m)) == Some(opt_authz_tokens(o)),
            None => opt_authz_tokens_member(json::opt_json(m)) is None,
        },
{
    match m {
        None => Some(None),
        Some(j) => if j.is_null() {
            Some(None)
        } else {
            match read_authz_tokens(j) {
                Some(x) => Some(Some(x)),
                None => None,
            }
        },
    }
}

/// The reply of the Teams authsvc token exchange.
pub struct AuthzResponse {
    pub tokens: Option<AuthzTokens>,
    pub region_gtms: Option<serde_json::Value>,
}

/// The model of [`AuthzResponse`].
pub struct AuthzResponseV {
    pub tokens: Option<AuthzTokensV>,
    pub region_gtms: Option<JsonV>,
}

impl View for AuthzResponse {
    type V = AuthzResponseV;

    open spec fn view(&self) -> AuthzResponseV {
        AuthzResponseV {
            tokens: opt_authz_tokens(self.tokens),
            region_gtms: json::opt_held(self.region_gtms),
        }
    }
}

/// How a JSON value reads as an [`AuthzResponse`]; nothing where it does not.
pub open spec fn authz_response_of(v: JsonV) -> Option<AuthzResponseV> {
    if !json::record_form(v, 2, 2) {
        None
    } else {
        match opt_authz_tokens_member(json::member_of(v, "tokens"@, 0)) {
            Some(tokens) => Some(
                AuthzResponseV {
                    tokens,
                    region_gtms: json::opt_any_member(json::member_of(v, "regionGtms"@, 1)),
                },
            ),
            None => None,
        }
    }
}

/// Reads an [`AuthzResponse`].
pub fn read_authz_response(value: &serde_json::Value) -> (r: Option<AuthzResponse>)
    ensures
        match r {
            Some(x) => authz_response_of(json::held_json(*value)) == Some(x@),
            None => authz_response_of(json::held_json(*value)) is None,
        },
{
    let v = json::from_value(value);
    if !json::has_record_form(&v, 2, 2) {
        return None;
    }
    let tokens = match read_opt_authz_tokens(json::member(&v, "tokens", 0)) {
        Some(t) => t,
        None => {
            return None;
        },
    };
    let found = json::member_value(value, "regionGtms", 1);
    let region_gtms = match found {
        Some(g) => {
            let seen = json::from_value(&g);
            if seen.is_null() {
                None
            } else {
                Some(g)
            }
        },
        None => None,
    };
    Some(AuthzResponse { tokens, region_gtms })
}

/// A Skype token, its life in seconds, and the regional endpoints.
pub struct SkypeReply {
    pub token: String,
    pub expires_in: Option<u64>,
    pub region_gtms: Option<serde_json::Value>,
}

/// The model of [`SkypeReply`].
pub struct SkypeReplyV {
    pub token: Seq<char>,
    pub expires_in: Option<u64>,
    pub region_gtms: Option<JsonV>,
}

impl View for SkypeReply {
    type V = SkypeReplyV;

    open spec fn view(&self) -> SkypeReplyV {
        SkypeReplyV {
            token: self.token@,
            expires_in: self.expires_in,
            region_gtms: json::opt_held(self.region_gtms),
        }
    }
}

/// Why a token exchange gave no Skype token.
#[derive(Clone, Copy, Debug, PartialEq, Eq, Structural)]
pub enum AuthzError {
    /// The reply is not of the expected form.
    Unreadable,
    /// The reply has no tokens.
    NoTokens,
    /// The reply's tokens have no Skype token.
    NoSkypeToken,
}

impl AuthzError {
    /// The error's text.
    pub fn message(&self) -> (r: String)
        ensures
            r@ == match *self {
                AuthzError::Unreadable => "Failed to parse authsvc response"@,
                AuthzError::NoTokens => "authsvc response missing 'tokens' field"@,
                AuthzError::NoSkypeToken => "authsvc response missing 'skypeToken'"@,
            },
    {
        match self {
            AuthzError::Unreadable => "Failed to parse authsvc response".to_string(),
            AuthzError::NoTokens => "authsvc response missing 'tokens' field".to_string(),
            AuthzError::NoSkypeToken => "authsvc response missing 'skypeToken'".to_string(),
        }
    }
}

/// What a token exchange comes to, by the JSON value of its reply.
pub open spec fn skype_reply(v: JsonV) -> Result<SkypeReplyV, AuthzError> {
    match authz_response_of(v) {
        None => Err(AuthzError::Unreadable),
        Some(a) => match a.tokens {
            None => Err(AuthzError::NoTokens),
            Some(t) => match t.skype_token {
                None => Err(AuthzError::NoSkypeToken),
                Some(s) => Ok(
                    SkypeReplyV { token: s, expires_in: t.expires_in, region_gtms: a.region_gtms },
                ),
            },
        },
    }
}

/// What a token exchange comes to, by the bytes of its reply.
pub open spec fn skype_reply_bytes(data: Seq<u8>) -> Result<SkypeReplyV, AuthzError> {
    match json::json_bytes(data) {
        None => Err(AuthzError::Unreadable),
        Some(v) => skype_reply(v),
    }
}

/// Takes the Skype token out of a parsed reply.
pub fn skype_token_of(value: &serde_json::Value) -> (r: Result<SkypeReply, AuthzError>)
    ensures
        match r {
            Ok(x) => skype_reply(json::held_json(*value)) == Ok::<SkypeReplyV, AuthzError>(x@),
            Err(e) => skype_reply(json::held_json(*value)) == Err::<SkypeReplyV, AuthzError>(e),
        },
{
    let authz = match read_authz_response(value) {
        Some(a) => a,
        None => {
            return Err(AuthzError::Unreadable);
        },
    };
    match authz.tokens {
        None => Err(AuthzError::NoTokens),
        Some(t) => match t.skype_token {
            None => Err(AuthzError::NoSkypeToken),
            Some(token) => Ok(
                SkypeReply { token, expires_in: t.expires_in, region_gtms: authz.region_gtms },
            ),
        },
    }
}

/// Takes the Skype token out of the reply to a successful exchange request.
pub fn exchange_skype_token(data: &[u8]) -> (r: Result<SkypeReply, AuthzError>)
    ensures
        match r {
            Ok(x) => skype_reply_bytes(data@) == Ok::<SkypeReplyV, AuthzError>(x@),
            Err(e) => skype_reply_bytes(data@) == Err::<SkypeReplyV, AuthzError>(e),
        },
{
    match json::value_from_bytes(data) {
        Some(v) => skype_token_of(&v),
        None => Err(AuthzError::Unreadable),
    }
}

/// Where a token exchange is requested.
pub open spec fn authz_address(personal: bool) -> Seq<char> {
    if personal {
        "https://teams.live.com/api/auth/v1.0/authz/consumer"@
    } else {
        "https://teams.microsoft.com/api/authsvc/v1.0/authz"@
    }
}

/// Where a token exchange is requested for a personal or a work account.
pub fn authz_url(personal: bool) -> (r: String)
    ensures
        r@ == authz_address(personal),
{
    if personal {
        "https://teams.live.com/api/auth/v1.0/authz/consumer".to_string()
    } else {
        "https://teams.microsoft.com/api/authsvc/v1.0/authz".to_string()
    }
}

/// The error text for a refused exchange.
pub fn refused_exchange(status: u16, body: &str) -> (r: String)
    ensures
        r@ == "Skype token exchange failed (HTTP "@ + text::decimal(status as nat) + "): "@ + body@,
{
    let mut s = "Skype token exchange failed (HTTP ".to_string();
    s.append(text::to_decimal(status as u64).as_str());
    s.append("): ");
    s.append(body);
    s
}

// -- What is read --

/// What is read of a [`AuthzTokens`] stands in the members of these names, and it is read
/// where they hold what they should.
pub proof fn law_authz_tokens_reads_its_members(v: JsonV)
    requires
        v is Obj,
    ensures
        match authz_tokens_of(v) {
            Some(x) => {
                &&& x.skype_token == json::str_of(json::get_of(v, "skypeToken"@))
                &&& x.expires_in == json::u64_of(json::get_of(v, "expiresIn"@))
            },
            None => !(json::opt_text_member(json::get_of(v, "skypeToken"@)) is Some
                && json::opt_u64_member(json::get_of(v, "expiresIn"@)) is Some),
        },
{
}

/// What is read of a [`AuthzResponse`] stands in the members of these names, and it is read
/// where they hold what they should.
pub proof fn law_authz_response_reads_its_members(v: JsonV)
    requires
        v is Obj,
    ensures
        match authz_response_of(v) {
            Some(x) => {
                &&& (json::get_of(v, "tokens"@) is None
                    || json::get_of(v, "tokens"@) == Some(JsonV::Null)) ==> x.tokens is None
                &&& json::get_of(v, "tokens"@) matches Some(w) ==> w != JsonV::Null
                    ==> x.tokens is Some && authz_tokens_of(w) == x.tokens
                &&& x.region_gtms == if json::get_of(v, "regionGtms"@)
                    == Some(JsonV::Null) { None } else { json::get_of(v, "regionGtms"@) }
            },
            None => !(opt_authz_tokens_member(json::get_of(v, "tokens"@)) is Some),
        },
{
}

/// What is kept of a reply is the token, its time and the regions that it names; without
/// tokens, or without the token, it is an error that says so.
pub proof fn law_skype_reply_is_read(v: JsonV)
    ensures
        skype_reply(v) matches Ok(r) ==> (authz_response_of(v) matches Some(a) && a.tokens
            matches Some(t) && t.skype_token == Some(r.token) && r.expires_in == t.expires_in
            && r.region_gtms == a.region_gtms),
        authz_response_of(v) is None ==> skype_reply(v) == Err::<SkypeReplyV, AuthzError>(
            AuthzError::Unreadable,
        ),
        authz_response_of(v) matches Some(a) ==> (a.tokens is None ==> skype_reply(v) == Err::<
            SkypeReplyV,
            AuthzError,
        >(AuthzError::NoTokens)),
        authz_response_of(v) matches Some(a) ==> (a.tokens matches Some(t) ==> (t.skype_token
            is None ==> skype_reply(v) == Err::<SkypeReplyV,
                AuthzError>(AuthzError::NoSkypeToken))),
        authz_response_of(v) matches Some(a) ==> (a.tokens matches Some(t) ==> (t.skype_token
            is Some ==> skype_reply(v) is Ok)),
{
}

/// Personal accounts are exchanged at their own address.
pub proof fn law_accounts_have_their_address()
    ensures
        authz_address(true) == "https://teams.live.com/api/auth/v1.0/authz/consumer"@,
        authz_address(false) == "https://teams.microsoft.com/api/authsvc/v1.0/authz"@,
{
}

/// A reply of bytes is read as the value that they hold.
pub proof fn law_reply_bytes_are_read(data: Seq<u8>, v: JsonV)
    ensures
        json::json_bytes(data) == Some(v) ==> skype_reply_bytes(data) == skype_reply(v),
        json::json_bytes(data) is None
            ==> skype_reply_bytes(data) == Err::<SkypeReplyV, AuthzError>(
            AuthzError::Unreadable,
        ),
{
}

} // verus!
