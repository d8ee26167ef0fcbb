//! Requests to the Teams and Graph services: which token they carry and how, and
//! which replies are errors.
use crate::api::media;
use crate::auth;
use crate::auth::StoredToken;
use crate::config;
use crate::config::Config;
use crate::json;
use crate::json::{Json, JsonV};
use crate::text;
use vstd::prelude::*;

verus! {

/// A client's credentials.
pub struct TeamsClient {
    pub config: Config,
}

/// A request that is ready to be sent: its address and its headers.
pub struct HttpRequest {
    pub url: String,
    pub headers: Vec<(String, String)>,
}

/// How a client starts.
pub enum ClientStart {
    /// The tokens are usable.
    Ready(TeamsClient),
    /// The tokens are to be refreshed, and the configuration to be read anew.
    Refresh,
    /// There is nothing to refresh with; the text to show.
    Refused(String),
}

/// True of a token slot that has to be filled.
pub open spec fn is_stale(slot: Option<StoredToken>, now: u64) -> bool {
    match slot {
        Some(t) => auth::expired_at(t, now),
        None => true,
    }
}

fn stale(slot: &Option<StoredToken>, now: u64) -> (r: bool)
    ensures
        r == is_stale(*slot, now),
{
    match slot {
        Some(t) => t.is_expired(now),
        None => true,
    }
}

/// The token of a slot, or the text to show where it cannot be used.
pub open spec fn usable(slot: Option<StoredToken>, name: Seq<char>, now: u64) -> Result<
    Seq<char>,
    Seq<char>,
> {
    match slot {
        None => Err("No "@ + name + " token. Run 'teams-cli login' first."@),
        Some(t) => if auth::expired_at(t, now) {
            Err(name + " token expired. Run 'teams-cli login'."@)
        } else {
            Ok(t.token@)
        },
    }
}

/// A result by its texts.
pub open spec fn token_view(r: Result<String, String>) -> Result<Seq<char>, Seq<char>> {
    match r {
        Ok(s) => Ok(s@),
        Err(e) => Err(e@),
    }
}

fn use_token(slot: &Option<StoredToken>, name: &str, now: u64) -> (r: Result<String, String>)
    ensures
        token_view(r) == usable(*slot, name@, now),
{
    match slot {
        None => Err(text::join3("No ", name, " token. Run 'teams-cli login' first.")),
        Some(t) => if t.is_expired(now) {
            Err(text::join2(name, " token expired. Run 'teams-cli login'."))
        } else {
            Ok(t.token.clone())
        },
    }
}

/// True of a result that is this request, or the error of the token.
pub open spec fn requests(
    r: Result<HttpRequest, String>,
    token: Result<Seq<char>, Seq<char>>,
    url: Seq<char>,
    headers: spec_fn(Seq<char>) -> Seq<(Seq<char>, Seq<char>)>,
) -> bool {
    match token {
        Ok(t) => r matches Ok(q) && q.url@ == url && text::pairs(q.headers@) == headers(t),
        Err(e) => r matches Err(x) && x@ == e,
    }
}

/// The header of a bearer token.
pub open spec fn bearer(token: Seq<char>) -> Seq<(Seq<char>, Seq<char>)> {
    seq![("Authorization"@, "Bearer "@ + token)]
}

/// The header of the Skype token for Teams services.
pub open spec fn skype_header(token: Seq<char>) -> Seq<(Seq<char>, Seq<char>)> {
    seq![("X-SkypeToken"@, token)]
}

/// The header of the Skype token for the chat service.
pub open spec fn chat_header(token: Seq<char>) -> Seq<(Seq<char>, Seq<char>)> {
    seq![("Authentication"@, "skypetoken="@ + token)]
}

/// The headers of the Skype token for the CSA endpoint.
pub open spec fn csa_headers(token: Seq<char>) -> Seq<(Seq<char>, Seq<char>)> {
    seq![
        ("Authorization"@, "Bearer "@ + token),
        ("x-ms-client-version"@, "1416/1.0.0.2024050301"@),
    ]
}

/// The address of a service in the regional endpoints, or the default one.
pub open spec fn regional(v: Option<JsonV>, name: Seq<char>, default: Seq<char>) -> Seq<char> {
    match v {
        Some(v) => match json::str_of(json::get_of(v, name)) {
            Some(s) => s,
            None => default,
        },
        None => default,
    }
}

/// The address of a service in the regional endpoints, or the default one.
pub fn regional_url(v: Option<&Json>, name: &str, default: &str) -> (r: String)
    ensures
        r@ == regional(json::opt_json(v), name@, default@),
{
    if let Some(v) = v {
        if let Some(s) = json::as_text(v.get(name)) {
            return s;
        }
    }
    default.to_string()
}

impl TeamsClient {
    /// Says how a client starts: with the tokens that it has, or after a
    /// refresh where the access or the Graph token is missing or expired.
    pub fn new(config: Config, now: u64) -> (r: ClientStart)
        ensures
            if is_stale(config.access_token, now) || is_stale(config.graph_token, now) {
                if config.refresh_token is Some {
                    r is Refresh
                } else {
                    r matches ClientStart::Refused(e) && e@
                        == "Token expired and no refresh token. Run 'teams-cli login'."@
                }
            } else {
                r matches ClientStart::Ready(c) && c.config == config
            },
    {
        if stale(&config.access_token, now) || stale(&config.graph_token, now) {
            if config.refresh_token.is_some() {
                ClientStart::Refresh
            } else {
                ClientStart::Refused(
                    "Token expired and no refresh token. Run 'teams-cli login'.".to_string(),
                )
            }
        } else {
            ClientStart::Ready(TeamsClient { config })
        }
    }

    /// The text to show for a refresh that did not succeed: by its error, or
    /// where there was nothing to refresh with.
    pub fn refresh_failure(error: Option<&str>) -> (r: String)
        ensures
            r@ == match error {
                Some(e) => "Token refresh failed: "@ + e@ + ". Run 'teams-cli login'."@,
                None => "No refresh token available. Run 'teams-cli login'."@,
            },
    {
        match error {
            Some(e) => text::join3("Token refresh failed: ", e, ". Run 'teams-cli login'."),
            None => "No refresh token available. Run 'teams-cli login'.".to_string(),
        }
    }

    /// The Graph token, or the text to show.
    pub fn graph_token(&self, now: u64) -> (r: Result<String, String>)
        ensures
            token_view(r) == usable(self.config.graph_token, "Graph"@, now),
    {
        use_token(&self.config.graph_token, "Graph", now)
    }

    /// The Skype token, or the text to show.
    pub fn skype_token(&self, now: u64) -> (r: Result<String, String>)
        ensures
            token_view(r) == usable(self.config.skype_token, "Skype"@, now),
    {
        use_token(&self.config.skype_token, "Skype", now)
    }

    /// A Graph request for a path.
    pub fn graph_get(&self, path: &str, now: u64) -> (r: Result<HttpRequest, String>)
        ensures
            requests(
                r,
                usable(self.config.graph_token, "Graph"@, now),
                "https://graph.microsoft.com/v1.0"@ + path@,
                |t: Seq<char>| bearer(t),
            ),
    {
        let token = match self.graph_token(now) {
            Ok(t) => t,
            Err(e) => {
                return Err(e);
            },
        };
        let mut headers = text::no_pairs();
        text::add_pair(
            &mut headers,
            "Authorization",
            text::join2("Bearer ", token.as_str()).as_str(),
        );
        proof {
            assert(text::pairs(headers@) =~= bearer(token@));
        }
        Ok(HttpRequest { url: text::join2("https://graph.microsoft.com/v1.0", path), headers })
    }

    /// A Graph request with a body for a path.
    pub fn graph_post(&self, path: &str, now: u64) -> (r: Result<HttpRequest, String>)
        ensures
            requests(
                r,
                usable(self.config.graph_token, "Graph"@, now),
                "https://graph.microsoft.com/v1.0"@ + path@,
                |t: Seq<char>| bearer(t),
            ),
    {
        self.graph_get(path, now)
    }

    /// A Teams request for an address.
    pub fn teams_get(&self, url: &str, now: u64) -> (r: Result<HttpRequest, String>)
        ensures
            requests(
                r,
                usable(self.config.skype_token, "Skype"@, now),
                url@,
                |t: Seq<char>| skype_header(t),
            ),
    {
        let token = match self.skype_token(now) {
            Ok(t) => t,
            Err(e) => {
                return Err(e);
            },
        };
        let mut headers = text::no_pairs();
        text::add_pair(&mut headers, "X-SkypeToken", token.as_str());
        proof {
            assert(text::pairs(headers@) =~= skype_header(token@));
        }
        Ok(HttpRequest { url: url.to_string(), headers })
    }

    /// A Teams request with a body for an address.
    pub fn teams_post(&self, url: &str, now: u64) -> (r: Result<HttpRequest, String>)
        ensures
            requests(
                r,
                usable(self.config.skype_token, "Skype"@, now),
                url@,
                |t: Seq<char>| skype_header(t),
            ),
    {
        self.teams_get(url, now)
    }

    /// A request to the CSA endpoint.
    pub fn csa_get(&self, url: &str, now: u64) -> (r: Result<HttpRequest, String>)
        ensures
            requests(
                r,
                usable(self.config.skype_token, "Skype"@, now),
                url@,
                |t: Seq<char>| csa_headers(t),
            ),
    {
        let token = match self.skype_token(now) {
            Ok(t) => t,
            Err(e) => {
                return Err(e);
            },
        };
        let mut headers = text::no_pairs();
        text::add_pair(
            &mut headers,
            "Authorization",
            text::join2("Bearer ", token.as_str()).as_str(),
        );
        text::add_pair(&mut headers, "x-ms-client-version", "1416/1.0.0.2024050301");
        proof {
            assert(text::pairs(headers@) =~= csa_headers(token@));
        }
        Ok(HttpRequest { url: url.to_string(), headers })
    }

    /// A request to the chat service.
    pub fn chat_get(&self, url: &str, now: u64) -> (r: Result<HttpRequest, String>)
        ensures
            requests(
                r,
                usable(self.config.skype_token, "Skype"@, now),
                url@,
                |t: Seq<char>| chat_header(t),
            ),
    {
        let token = match self.skype_token(now) {
            Ok(t) => t,
            Err(e) => {
                return Err(e);
            },
        };
        let mut headers = text::no_pairs();
        text::add_pair(
            &mut headers,
            "Authentication",
            text::join2("skypetoken=", token.as_str()).as_str(),
        );
        proof {
            assert(text::pairs(headers@) =~= chat_header(token@));
        }
        Ok(HttpRequest { url: url.to_string(), headers })
    }

    /// A request with a body to the chat service.
    pub fn chat_post(&self, url: &str, now: u64) -> (r: Result<HttpRequest, String>)
        ensures
            requests(
                r,
                usable(self.config.skype_token, "Skype"@, now),
                url@,
                |t: Seq<char>| chat_header(t),
            ),
    {
        self.chat_get(url, now)
    }

    /// A request for the bytes of an image. Only media hosts get the token, and
    /// only they need one.
    pub fn media_get(&self, url: &str, now: u64) -> (r: Result<HttpRequest, String>)
        ensures
            if media::host(url@) matches Some(h) && media::is_media_host(h) {
                requests(
                    r,
                    usable(self.config.skype_token, "Skype"@, now),
                    url@,
                    |t: Seq<char>| media::token_headers(media::host(url@), t),
                )
            } else {
                r matches Ok(q) && q.url@ == url@ && text::pairs(q.headers@) == Seq::<
                    (Seq<char>, Seq<char>),
                >::empty()
            },
    {
        let mut headers = text::no_pairs();
        if media::needs_auth(url) {
            let token = match self.skype_token(now) {
                Ok(t) => t,
                Err(e) => {
                    return Err(e);
                },
            };
            let list = media::auth_headers(url, token.as_str());
            let ghost want = media::header_views(list@);
            let mut i: usize = 0;
            proof {
                assert(text::pairs(headers@) =~= want.take(0));
            }
            while i < list.len()
                invariant
                    i <= list@.len(),
                    want == media::header_views(list@),
                    text::pairs(headers@) == want.take(i as int),
                decreases list@.len() - i,
            {
                text::add_pair(&mut headers, list[i].0, list[i].1.as_str());
                proof {
                    assert(want.take(i + 1) =~= want.take(i as int).push(want[i as int]));
                }
                i = i + 1;
            }
            proof {
                assert(want.take(i as int) =~= want);
            }
        }
        Ok(HttpRequest { url: url.to_string(), headers })
    }

    /// The address of the chat service.
    pub fn chat_service_url(&self) -> (r: String)
        ensures
            r@ == regional(
                config::region_value(self.config),
                "chatService"@,
                "https://amer.ng.msg.teams.microsoft.com"@,
            ),
    {
        match self.config.get_region_gtms() {
            Some(v) => {
                let j = json::from_value(&v);
                regional_url(Some(&j), "chatService", "https://amer.ng.msg.teams.microsoft.com")
            },
            None => "https://amer.ng.msg.teams.microsoft.com".to_string(),
        }
    }

    /// The address of the chat service aggregator.
    pub fn chatsvcagg_url(&self) -> (r: String)
        ensures
            r@ == regional(
                config::region_value(self.config),
                "chatServiceAggregator"@,
                "https://chatsvcagg.teams.microsoft.com"@,
            ),
    {
        match self.config.get_region_gtms() {
            Some(v) => {
                let j = json::from_value(&v);
                regional_url(
                    Some(&j),
                    "chatServiceAggregator",
                    "https://chatsvcagg.teams.microsoft.com",
                )
            },
            None => "https://chatsvcagg.teams.microsoft.com".to_string(),
        }
    }
}

/// The text to show for a reply that is no success.
pub open spec fn response_error(status: u16, url: Seq<char>, body: Seq<char>) -> Option<Seq<char>> {
    if status == 401 {
        Some(
            "401 Unauthorized for "@ + url
                + ". Token may be invalid -- run 'teams-cli login'."@,
        )
    } else if 200 <= status < 300 {
        None
    } else {
        Some("HTTP "@ + text::decimal(status as nat) + " for "@ + url + ": "@ + body)
    }
}

/// True of the text of a failure that tells a status: the first one that it names is
/// this one. What the reply itself says comes behind that.
pub open spec fn tells_status(error: Seq<char>, status: Seq<char>) -> bool {
    match text::find_in(error, "HTTP "@) {
        Some(i) => {
            let rest = error.skip(i + 5);
            &&& status.is_prefix_of(rest)
            &&& !(rest.len() > status.len() && text::is_digit(rest[status.len() as int]))
        },
        None => false,
    }
}

/// Says whether the text of a failure tells a status.
pub fn names_status(error: &str, status: &str) -> (r: bool)
    ensures
        r == tells_status(error@, status@),
{
    let v = text::chars_of(error);
    let n: usize = v.len();
    let i: usize = match text::find(error, "HTTP ") {
        Some(i) => i,
        None => {
            return false;
        },
    };
    proof {
        reveal_strlit("HTTP ");
    }
    assert(i + 5 <= n);
    let rest = text::text_of(&v, i + 5, n);
    proof {
        assert(rest@ =~= error@.skip(i + 5));
    }
    if !text::starts_with(rest.as_str(), status) {
        return false;
    }
    let w = text::chars_of(rest.as_str());
    let k: usize = text::chars_of(status).len();
    !(k < w.len() && '0' <= w[k] && w[k] <= '9')
}

/// The text of a failure tells the status of the reply and no other, whatever the
/// reply says. That of a refused token tells none, unless the address does.
pub proof fn law_failure_tells_its_status(status: u16, url: Seq<char>, body: Seq<char>, code: nat)
    ensures
        status != 401 ==> (response_error(status, url, body) matches Some(e) ==> (tells_status(
            e,
            text::decimal(code),
        ) <==> code == status)),
        status == 401 && !text::contains_text(url, "HTTP "@) ==> !tells_status(
            response_error(status, url, body)->0,
            text::decimal(code),
        ),
{
    reveal_strlit("HTTP ");
    reveal_strlit(" for ");
    reveal_strlit("401 Unauthorized for ");
    reveal_strlit(". Token may be invalid -- run 'teams-cli login'.");
    if status == 401 {
        if !text::contains_text(url, "HTTP "@) {
            lemma_refusal_names_none(url);
        }
    } else if response_error(status, url, body) is Some {
        let e = response_error(status, url, body)->0;
        let d = text::decimal(status as nat);
        let c = text::decimal(code);
        let rest = e.skip(5);
        text::lemma_decimal_digits(status as nat);
        text::lemma_decimal_digits(code);
        text::lemma_find_from(e, "HTTP "@, 0);
        assert(e.subrange(0, 5) =~= "HTTP "@);
        assert(text::occurs_at(e, "HTTP "@, 0));
        assert(text::find_in(e, "HTTP "@) == Some(0int));
        assert(rest =~= d + " for "@ + url + ": "@ + body);
        assert(rest[d.len() as int] == ' ');
        assert(rest.take(d.len() as int) =~= d);
        if tells_status(e, c) {
            if c.len() < d.len() {
                assert(rest[c.len() as int] == d[c.len() as int]);
            } else if c.len() > d.len() {
                assert(rest.take(c.len() as int)[d.len() as int] == c[d.len() as int]);
            } else {
                assert(rest.take(c.len() as int) =~= c);
                text::law_decimal_is_unique(status as nat, code);
            }
        }
    }
}

/// The text of a failure tells that something is missing exactly where the status
/// does.
pub proof fn law_missing_is_told(status: u16, url: Seq<char>, body: Seq<char>)
    requires
        status == 401 ==> !text::contains_text(url, "HTTP "@),
    ensures
        response_error(status, url, body) matches Some(e) ==> (tells_status(e, "404"@) <==> status
            == 404),
{
    reveal_strlit("404");
    reveal_with_fuel(text::decimal, 3);
    assert(text::decimal(404) =~= "404"@);
    law_failure_tells_its_status(status, url, body, 404);
}

proof fn lemma_refusal_names_none(url: Seq<char>)
    requires
        !text::contains_text(url, "HTTP "@),
    ensures
        text::find_in(response_error(401, url, Seq::empty())->0, "HTTP "@) is None,
{
    reveal_strlit("HTTP ");
    reveal_strlit("401 Unauthorized for ");
    reveal_strlit(". Token may be invalid -- run 'teams-cli login'.");
    let a = "401 Unauthorized for "@;
    let b = ". Token may be invalid -- run 'teams-cli login'."@;
    let p = "HTTP "@;
    let e = a + url + b;
    text::lemma_find_from(e, p, 0);
    assert forall|i: int| !#[trigger] text::occurs_at(e, p, i) by {
        if text::occurs_at(e, p, i) {
            let w = e.subrange(i, i + 5);
            assert(w[0] == 'H' && w[1] == 'T' && w[2] == 'T' && w[3] == 'P' && w[4] == ' ');
            assert(e[i] == 'H');
            let m = a.len() + url.len();
            if i < a.len() {
                assert(e[i] == a[i]);
            } else if i >= m {
                assert(e[i] == b[i - m]);
            } else if i + 5 > m {
                assert(w[m - i] == e[m as int]);
                assert(e[m as int] == b[0]);
            } else {
                let j = i - a.len();
                assert(url.subrange(j, j + 5) =~= w);
                assert(text::occurs_at(url, p, j));
            }
        }
    }
}

/// Checks the status of a reply; the error is the text to show.
pub fn check_response(status: u16, url: &str, body: &str) -> (r: Result<(), String>)
    ensures
        match r {
            Ok(_) => response_error(status, url@, body@) is None,
            Err(e) => response_error(status, url@, body@) == Some(e@),
        },
{
    if status == 401 {
        return Err(
            text::join3(
                "401 Unauthorized for ",
                url,
                ". Token may be invalid -- run 'teams-cli login'.",
            ),
        );
    }
    if status >= 200 && status < 300 {
        return Ok(());
    }
    let mut s = "HTTP ".to_string();
    s.append(text::to_decimal(status as u64).as_str());
    s.append(" for ");
    s.append(url);
    s.append(": ");
    s.append(body);
    Err(s)
}

/// A token that is there and holds is used; one that is missing or ran out is refused,
/// and the refusal names it.
pub proof fn law_tokens_are_used_while_they_hold(
    slot: Option<StoredToken>,
    name: Seq<char>,
    now: u64,
)
    ensures
        (slot matches Some(t) && !auth::expired_at(t, now)) ==> usable(slot, name, now) == Ok::<
            Seq<char>,
            Seq<char>,
        >(slot->0.token@),
        slot is None ==> usable(slot, name, now) == Err::<Seq<char>, Seq<char>>(
            "No "@ + name + " token. Run 'teams-cli login' first."@,
        ),
        (slot matches Some(t) && auth::expired_at(t, now)) ==> usable(slot, name, now) == Err::<
            Seq<char>,
            Seq<char>,
        >(name + " token expired. Run 'teams-cli login'."@),
        usable(slot, name, now) is Ok <==> !is_stale(slot, now),
{
}

/// Each service is sent the token in its own header.
pub proof fn law_each_service_has_its_header(token: Seq<char>)
    ensures
        bearer(token).len() == 1 && bearer(token)[0] == ("Authorization"@, "Bearer "@ + token),
        skype_header(token).len() == 1 && skype_header(token)[0] == ("X-SkypeToken"@, token),
        chat_header(token).len() == 1 && chat_header(token)[0] == (
            "Authentication"@,
            "skypetoken="@ + token,
        ),
        csa_headers(token).len() == 2 && csa_headers(token)[0] == (
            "Authorization"@,
            "Bearer "@ + token,
        ) && csa_headers(token)[1].0 == "x-ms-client-version"@,
{
}

/// The region's own address is used where the region names one.
pub proof fn law_region_names_its_address(v: JsonV, name: Seq<char>, default: Seq<char>)
    ensures
        json::str_of(json::get_of(v, name)) matches Some(s)
            ==> regional(Some(v), name, default) == s,
        json::str_of(json::get_of(v, name)) is None ==> regional(Some(v), name, default) == default,
        regional(None, name, default) == default,
{
}

/// A reply is a success where, and only where, its status lies from 200 to 299; the error
/// names the address that was asked.
pub proof fn law_success_by_status(status: u16, url: Seq<char>, body: Seq<char>)
    ensures
        response_error(status, url, body) is None <==> 200 <= status <= 299,
        status == 401 ==> response_error(status, url, body) == Some(
            "401 Unauthorized for "@ + url + ". Token may be invalid -- run 'teams-cli login'."@,
        ),
        status < 200 || (status >= 300 && status != 401) ==> response_error(status, url, body)
            == Some(
            "HTTP "@ + text::decimal(status as nat) + " for "@ + url + ": "@ + body,
        ),
{
}

/// A request is made with the token where there is one, at the address that was asked for
/// and with the headers of that token; else it is refused with what is wrong.
pub proof fn law_requests_carry_the_token(
    r: Result<HttpRequest, String>,
    t: Seq<char>,
    e: Seq<char>,
    url: Seq<char>,
    headers: spec_fn(Seq<char>) -> Seq<(Seq<char>, Seq<char>)>,
)
    ensures
        requests(r, Ok(t), url, headers) ==> (r matches Ok(q) && q.url@ == url && text::pairs(
            q.headers@,
        ) == headers(t)),
        requests(r, Err(e), url, headers) ==> (r matches Err(x) && x@ == e),
{
}

} // verus!
