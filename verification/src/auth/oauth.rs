//! The OAuth2 login: what a login or a refresh asks for next, what it does with
//! each reply, and the status report.
use super::skype::SkypeReply;
use crate::auth;
use crate::auth::StoredToken;
use crate::config;
use crate::config::Config;
use crate::json;
use crate::text;
use vstd::prelude::*;

verus! {

/// What a token is for.
#[derive(Clone, Copy, Debug, PartialEq, Eq, Structural)]
pub enum Audience {
    /// Teams itself, and the exchange for a Skype token.
    Spaces,
    /// The Graph API.
    Graph,
    /// The push service.
    Ic3,
    /// The recorder service.
    Recorder,
}

/// The scope that is asked for beside `offline_access`.
pub open spec fn scope_text(a: Audience) -> Seq<char> {
    match a {
        Audience::Spaces => "https://api.spaces.skype.com/.default"@,
        Audience::Graph => "https://graph.microsoft.com/.default"@,
        Audience::Ic3 => "https://ic3.teams.office.com/.default"@,
        Audience::Recorder => "4580fd1d-e5a3-4f56-9ad1-aab0e3bf8f76/.default"@,
    }
}

/// The scopes of a token request.
pub fn scopes_for(a: Audience) -> (r: Vec<String>)
    ensures
        text::texts(r@) == seq![scope_text(a), "offline_access"@],
{
    let scope = match a {
        Audience::Spaces => "https://api.spaces.skype.com/.default".to_string(),
        Audience::Graph => "https://graph.microsoft.com/.default".to_string(),
        Audience::Ic3 => "https://ic3.teams.office.com/.default".to_string(),
        Audience::Recorder => "4580fd1d-e5a3-4f56-9ad1-aab0e3bf8f76/.default".to_string(),
    };
    let mut v: Vec<String> = Vec::new();
    v.push(scope);
    v.push("offline_access".to_string());
    proof {
        assert(text::texts(v@) =~= seq![scope_text(a), "offline_access"@]);
    }
    v
}

/// An endpoint of the identity service.
#[derive(Clone, Copy, Debug, PartialEq, Eq, Structural)]
pub enum Endpoint {
    Authorize,
    Token,
    DeviceCode,
}

/// The last part of an endpoint's address.
pub open spec fn endpoint_name(e: Endpoint) -> Seq<char> {
    match e {
        Endpoint::Authorize => "authorize"@,
        Endpoint::Token => "token"@,
        Endpoint::DeviceCode => "devicecode"@,
    }
}

/// The address of an endpoint for a tenant.
pub fn endpoint_url(tenant: &str, e: Endpoint) -> (r: String)
    ensures
        r@ == "https://login.microsoftonline.com/"@ + tenant@ + "/oauth2/v2.0/"@ + endpoint_name(e),
{
    let mut s = "https://login.microsoftonline.com/".to_string();
    s.append(tenant);
    s.append("/oauth2/v2.0/");
    match e {
        Endpoint::Authorize => {
            s.append("authorize");
        },
        Endpoint::Token => {
            s.append("token");
        },
        Endpoint::DeviceCode => {
            s.append("devicecode");
        },
    }
    s
}

// -- Acquiring the tokens --

/// A token, its life in seconds, and the refresh token that came with it.
pub struct TokenReply {
    pub token: String,
    pub expires_in: Option<u64>,
    pub refresh_token: Option<String>,
}

/// What is to be requested next.
#[derive(Clone, Copy, Debug, PartialEq, Eq, Structural)]
pub enum Stage {
    /// The exchange of the access token for a Skype token.
    Skype,
    /// The Graph token.
    Graph,
    /// The IC3 token.
    Ic3,
    /// The recorder token.
    Recorder,
    /// Nothing: the configuration is to be saved.
    Done,
}

/// A login or a refresh after its first token came: the configuration as it
/// stands, and what is still to be requested.
pub struct TokenRun {
    pub config: Config,
    pub login: bool,
    pub stage: Stage,
    pub skype_ok: bool,
    pub graph_ok: bool,
    pub ic3_ok: bool,
    pub recorder_ok: bool,
}

/// The request that follows.
pub enum Request {
    /// Exchange this access token for a Skype token, as a work account.
    Skype(String),
    /// Exchange this refresh token for a token of the audience.
    Acquire(Audience, String),
    /// Save the configuration.
    Save,
}

/// The refresh token with which derived tokens are acquired: a refresh passes
/// over an empty one.
pub open spec fn derived_with(c: Config, login: bool) -> Option<String> {
    match c.refresh_token {
        Some(t) => if login || t@.len() > 0 {
            Some(t)
        } else {
            None
        },
        None => None,
    }
}

/// The stage after one has been answered.
pub open spec fn next_stage(s: Stage, derived: bool) -> Stage {
    match s {
        Stage::Skype => if derived {
            Stage::Graph
        } else {
            Stage::Done
        },
        Stage::Graph => Stage::Ic3,
        Stage::Ic3 => Stage::Recorder,
        Stage::Recorder => Stage::Done,
        Stage::Done => Stage::Done,
    }
}

/// The replies that are still to come.
pub open spec fn stages_left(s: Stage) -> nat {
    match s {
        Stage::Skype => 4,
        Stage::Graph => 3,
        Stage::Ic3 => 2,
        Stage::Recorder => 1,
        Stage::Done => 0,
    }
}

/// Every reply brings a run nearer to its end, whatever it says.
pub proof fn law_run_ends(s: Stage, derived: bool)
    requires
        s != Stage::Done,
    ensures
        stages_left(next_stage(s, derived)) < stages_left(s),
{
}

/// The configuration after the first token came.
pub open spec fn with_tokens(before: Config, after: Config, reply: TokenReply, now: u64) -> bool {
    &&& after == (Config {
        access_token: after.access_token,
        refresh_token: match reply.refresh_token {
            Some(t) => Some(t),
            None => before.refresh_token,
        },
        ..before
    })
    &&& config::holds(after.access_token, reply.token@, reply.expires_in, now)
}

/// The configuration after the reply of a stage.
pub open spec fn with_derived(
    before: Config,
    after: Config,
    stage: Stage,
    token: Seq<char>,
    expires_in: Option<u64>,
    now: u64,
) -> bool {
    match stage {
        Stage::Graph => after == (Config { graph_token: after.graph_token, ..before })
            && config::holds(after.graph_token, token, expires_in, now),
        Stage::Ic3 => after == (Config { ic3_token: after.ic3_token, ..before }) && config::holds(
            after.ic3_token,
            token,
            expires_in,
            now,
        ),
        Stage::Recorder => after == (Config { recorder_token: after.recorder_token, ..before })
            && config::holds(after.recorder_token, token, expires_in, now),
        _ => after == before,
    }
}

impl TokenRun {
    /// Takes the first token of a login or of a refresh.
    pub fn begin(config: Config, login: bool, reply: TokenReply, now: u64) -> (r: TokenRun)
        ensures
            with_tokens(config, r.config, reply, now),
            r.login == login,
            r.stage == Stage::Skype,
            !r.skype_ok && !r.graph_ok && !r.ic3_ok && !r.recorder_ok,
    {
        let mut config = config;
        config.set_access_token(reply.token, reply.expires_in, now);
        if let Some(t) = reply.refresh_token {
            config.set_refresh_token(t);
        }
        TokenRun {
            config,
            login,
            stage: Stage::Skype,
            skype_ok: false,
            graph_ok: false,
            ic3_ok: false,
            recorder_ok: false,
        }
    }

    /// What is to be requested now.
    pub fn request(&self) -> (r: Request)
        ensures
            match self.stage {
                Stage::Skype => match self.config.access_token {
                    Some(t) => r == Request::Skype(t.token),
                    None => r == Request::Save,
                },
                Stage::Done => r == Request::Save,
                _ => match derived_with(self.config, self.login) {
                    Some(t) => r == Request::Acquire(
                        match self.stage {
                            Stage::Graph => Audience::Graph,
                            Stage::Ic3 => Audience::Ic3,
                            _ => Audience::Recorder,
                        },
                        t,
                    ),
                    None => r == Request::Save,
                },
            },
    {
        match self.stage {
            Stage::Skype => match &self.config.access_token {
                Some(t) => Request::Skype(t.token.clone()),
                None => Request::Save,
            },
            Stage::Done => Request::Save,
            Stage::Graph => self.acquire(Audience::Graph),
            Stage::Ic3 => self.acquire(Audience::Ic3),
            Stage::Recorder => self.acquire(Audience::Recorder),
        }
    }

    fn acquire(&self, audience: Audience) -> (r: Request)
        ensures
            r == (match derived_with(self.config, self.login) {
                Some(t) => Request::Acquire(audience, t),
                None => Request::Save,
            }),
    {
        match &self.config.refresh_token {
            Some(t) => if self.login || !t.as_str().is_empty() {
                Request::Acquire(audience, t.clone())
            } else {
                Request::Save
            },
            None => Request::Save,
        }
    }

    /// Takes the outcome of the Skype exchange; a failed one changes nothing.
    pub fn on_skype(&mut self, reply: Option<SkypeReply>, now: u64)
        requires
            old(self).stage == Stage::Skype,
        ensures
            *final(self) == (TokenRun {
                config: final(self).config,
                skype_ok: reply is Some,
                stage: next_stage(
                    Stage::Skype,
                    derived_with(old(self).config, old(self).login) is Some,
                ),
                ..*old(self)
            }),
            match reply {
                None => final(self).config == old(self).config,
                Some(s) => {
                    &&& final(self).config == (Config {
                        skype_token: final(self).config.skype_token,
                        region_gtms: final(self).config.region_gtms,
                        ..old(self).config
                    })
                    &&& config::holds(final(self).config.skype_token, s.token@, s.expires_in, now)
                    &&& match s.region_gtms {
                        Some(g) => text::opt_text(final(self).config.region_gtms) == Some(
                            json::written_json(json::held_json(g)),
                        ),
                        None => final(self).config.region_gtms == old(self).config.region_gtms,
                    }
                },
            },
    {
        let derived = match self.acquire(Audience::Graph) {
            Request::Acquire(_, _) => true,
            _ => false,
        };
        match reply {
            Some(s) => {
                self.config.set_skype_token(s.token, s.expires_in, now);
                if let Some(g) = s.region_gtms {
                    self.config.set_region_gtms(g);
                }
                self.skype_ok = true;
            },
            None => {
                self.skype_ok = false;
            },
        }
        self.stage = if derived {
            Stage::Graph
        } else {
            Stage::Done
        };
    }

    /// Takes the outcome of acquiring a derived token; a failed one changes
    /// nothing.
    pub fn on_acquired(&mut self, reply: Option<TokenReply>, now: u64)
        requires
            old(self).stage == Stage::Graph || old(self).stage == Stage::Ic3 || old(self).stage
                == Stage::Recorder,
        ensures
            *final(self) == (TokenRun {
                config: final(self).config,
                stage: next_stage(old(self).stage, true),
                graph_ok: if old(self).stage == Stage::Graph {
                    reply is Some
                } else {
                    old(self).graph_ok
                },
                ic3_ok: if old(self).stage == Stage::Ic3 {
                    reply is Some
                } else {
                    old(self).ic3_ok
                },
                recorder_ok: if old(self).stage == Stage::Recorder {
                    reply is Some
                } else {
                    old(self).recorder_ok
                },
                ..*old(self)
            }),
            match reply {
                None => final(self).config == old(self).config,
                Some(t) => with_derived(
                    old(self).config,
                    final(self).config,
                    old(self).stage,
                    t.token@,
                    t.expires_in,
                    now,
                ),
            },
    {
        let ok = reply.is_some();
        match self.stage {
            Stage::Graph => {
                if let Some(t) = reply {
                    self.config.set_graph_token(t.token, t.expires_in, now);
                }
                self.graph_ok = ok;
                self.stage = Stage::Ic3;
            },
            Stage::Ic3 => {
                if let Some(t) = reply {
                    self.config.set_ic3_token(t.token, t.expires_in, now);
                }
                self.ic3_ok = ok;
                self.stage = Stage::Recorder;
            },
            _ => {
                if let Some(t) = reply {
                    self.config.set_recorder_token(t.token, t.expires_in, now);
                }
                self.recorder_ok = ok;
                self.stage = Stage::Done;
            },
        }
    }

    /// The text that ends a login: what is missing, in order.
    pub fn summary(&self) -> (r: String)
        ensures
            r@ == login_summary(self.skype_ok, self.graph_ok, self.ic3_ok, self.recorder_ok),
    {
        if self.skype_ok && self.graph_ok && self.ic3_ok && self.recorder_ok {
            return "Login successful.".to_string();
        }
        let mut missing: Vec<String> = Vec::new();
        let ghost none = Seq::<Seq<char>>::empty();
        proof {
            assert(text::texts(missing@) =~= none);
        }
        add_missing(&mut missing, self.skype_ok, "Skype");
        add_missing(&mut missing, self.graph_ok, "Graph");
        add_missing(&mut missing, self.ic3_ok, "IC3");
        add_missing(&mut missing, self.recorder_ok, "Recorder");
        let list = text::join_texts(&missing, ", ");
        text::join3("Login partially successful (missing: ", list.as_str(), ").")
    }
}

fn add_missing(v: &mut Vec<String>, ok: bool, name: &str)
    ensures
        text::texts(final(v)@) == missing_with(text::texts(old(v)@), ok, name@),
{
    let ghost before = v@;
    if !ok {
        v.push(name.to_string());
    }
    proof {
        assert(text::texts(v@) =~= missing_with(text::texts(before), ok, name@));
    }
}

/// The list of missing tokens with one more, unless that one is there.
pub open spec fn missing_with(list: Seq<Seq<char>>, ok: bool, name: Seq<char>) -> Seq<Seq<char>> {
    if ok {
        list
    } else {
        list.push(name)
    }
}

/// The text that ends a login.
pub open spec fn login_summary(skype: bool, graph: bool, ic3: bool, recorder: bool) -> Seq<char> {
    if skype && graph && ic3 && recorder {
        "Login successful."@
    } else {
        "Login partially successful (missing: "@ + text::joined(
            missing_with(
                missing_with(
                    missing_with(missing_with(Seq::empty(), skype, "Skype"@), graph, "Graph"@),
                    ic3,
                    "IC3"@,
                ),
                recorder,
                "Recorder"@,
            ),
            ", "@,
        ) + ")."@
    }
}

/// The refresh token with which a refresh begins; without one there is nothing
/// to refresh.
pub fn refresh(config: &Config) -> (r: Option<String>)
    ensures
        r == config.refresh_token,
{
    config.get_refresh_token()
}

// -- Login --

/// What a login begins with.
#[derive(Clone, Copy, Debug, PartialEq, Eq, Structural)]
pub enum LoginStep {
    /// The access token is valid and nothing needs acquiring.
    AlreadyLoggedIn,
    /// The access token is valid, but derived tokens are missing: refresh.
    RefreshMissing,
    /// The access token has expired: refresh.
    RefreshExpired,
    /// Sign in with a device code.
    DeviceCode,
}

/// What a login begins with.
pub open spec fn login_step(c: Config, force: bool, now: u64) -> LoginStep {
    match c.access_token {
        Some(t) if !force => if !auth::expired_at(t, now) {
            if (c.recorder_token is None || c.ic3_token is None) && c.refresh_token is Some {
                LoginStep::RefreshMissing
            } else {
                LoginStep::AlreadyLoggedIn
            }
        } else if c.refresh_token is Some {
            LoginStep::RefreshExpired
        } else {
            LoginStep::DeviceCode
        },
        _ => LoginStep::DeviceCode,
    }
}

/// Says what a login begins with.
pub fn login(config: &Config, force: bool, now: u64) -> (r: LoginStep)
    ensures
        r == login_step(*config, force, now),
{
    if force {
        return LoginStep::DeviceCode;
    }
    match &config.access_token {
        Some(t) => if !t.is_expired(now) {
            let missing = config.recorder_token.is_none() || config.ic3_token.is_none();
            if missing && config.refresh_token.is_some() {
                LoginStep::RefreshMissing
            } else {
                LoginStep::AlreadyLoggedIn
            }
        } else if config.refresh_token.is_some() {
            LoginStep::RefreshExpired
        } else {
            LoginStep::DeviceCode
        },
        None => LoginStep::DeviceCode,
    }
}

/// The text with which a login ends at its first step, by the step and by
/// whether its refresh succeeded; nothing where the login goes on with a device
/// code.
pub open spec fn login_end(step: LoginStep, refreshed: bool) -> Option<Seq<char>> {
    match step {
        LoginStep::DeviceCode => None,
        LoginStep::RefreshMissing if refreshed => Some(
            "Tokens refreshed (acquired missing derived tokens)."@,
        ),
        LoginStep::RefreshExpired => if refreshed {
            Some("Token refreshed successfully."@)
        } else {
            None
        },
        _ => Some("Already logged in (AAD token valid). Use --force to re-authenticate."@),
    }
}

/// Says how a login ends at its first step, or that it goes on with a device
/// code.
pub fn after_login_step(step: LoginStep, refreshed: bool) -> (r: Option<String>)
    ensures
        text::opt_text(r) == login_end(step, refreshed),
{
    match step {
        LoginStep::DeviceCode => None,
        LoginStep::RefreshExpired => if refreshed {
            Some("Token refreshed successfully.".to_string())
        } else {
            None
        },
        LoginStep::RefreshMissing => if refreshed {
            Some("Tokens refreshed (acquired missing derived tokens).".to_string())
        } else {
            Some(
                "Already logged in (AAD token valid). Use --force to re-authenticate.".to_string(),
            )
        },
        LoginStep::AlreadyLoggedIn => Some(
            "Already logged in (AAD token valid). Use --force to re-authenticate.".to_string(),
        ),
    }
}

/// A login with a valid access token never asks for a device code, unless forced.
pub proof fn law_valid_token_needs_no_code(c: Config, now: u64, refreshed: bool)
    requires
        c.access_token is Some,
        !auth::expired_at(c.access_token->0, now),
    ensures
        login_end(login_step(c, false, now), refreshed) is Some,
        login_step(c, true, now) == LoginStep::DeviceCode,
{
}

/// Forgets the credentials.
pub fn logout(config: &mut Config)
    ensures
        *final(config) == config::cleared(*old(config)),
{
    config.clear_tokens();
}

/// After a logout the status of every token is none, and a login asks for a
/// device code.
pub proof fn law_logout_forgets(c: Config, now: u64)
    ensures
        login_step(config::cleared(c), false, now) == LoginStep::DeviceCode,
        status_lines(config::cleared(c), now) == status_lines(config::no_config(), now),
{
}

// -- Status --

/// The lines on one token.
pub open spec fn token_lines(label: Seq<char>, t: Option<StoredToken>, now: u64) -> Seq<Seq<char>> {
    match t {
        None => seq![label + "none"@],
        Some(t) => if auth::expired_at(t, now) {
            seq![label + "expired"@]
        } else {
            match t.expires_at {
                Some(e) => seq![label + "valid"@, "  expires_at: "@ + text::decimal(e as nat)],
                None => seq![label + "valid"@],
            }
        },
    }
}

/// The line on something that is there or not.
pub open spec fn presence_line(label: Seq<char>, present: bool) -> Seq<Seq<char>> {
    if present {
        seq![label + "present"@]
    } else {
        seq![label + "none"@]
    }
}

/// The lines of the status report.
pub open spec fn status_lines(c: Config, now: u64) -> Seq<Seq<char>> {
    token_lines("AAD token:   "@, c.access_token, now) + presence_line(
        "Refresh tok: "@,
        c.refresh_token is Some,
    ) + token_lines("Graph token: "@, c.graph_token, now) + token_lines(
        "IC3 token:   "@,
        c.ic3_token,
        now,
    ) + token_lines("Recorder tk: "@, c.recorder_token, now) + token_lines(
        "Skype token: "@,
        c.skype_token,
        now,
    ) + presence_line("Region GTMs: "@, c.region_gtms is Some) + (if c.access_token is None {
        seq!["\nRun 'teams-cli login' to authenticate."@]
    } else {
        Seq::empty()
    })
}

fn add_line(v: &mut Vec<String>, line: String)
    ensures
        text::texts(final(v)@) == text::texts(old(v)@).push(line@),
{
    let ghost before = v@;
    let ghost l = line@;
    v.push(line);
    proof {
        assert(text::texts(v@) =~= text::texts(before).push(l));
    }
}

fn add_token_lines(v: &mut Vec<String>, label: &str, t: &Option<StoredToken>, now: u64)
    ensures
        text::texts(final(v)@) == text::texts(old(v)@) + token_lines(label@, *t, now),
{
    let ghost before = text::texts(v@);
    match t {
        None => {
            add_line(v, text::join2(label, "none"));
        },
        Some(t) => {
            if t.is_expired(now) {
                add_line(v, text::join2(label, "expired"));
            } else {
                add_line(v, text::join2(label, "valid"));
                if let Some(e) = t.expires_at {
                    add_line(v, text::join2("  expires_at: ", text::to_decimal(e).as_str()));
                }
            }
        },
    }
    proof {
        assert(text::texts(v@) =~= before + token_lines(label@, *t, now));
    }
}

fn add_presence_line(v: &mut Vec<String>, label: &str, present: bool)
    ensures
        text::texts(final(v)@) == text::texts(old(v)@) + presence_line(label@, present),
{
    let ghost before = text::texts(v@);
    if present {
        add_line(v, text::join2(label, "present"));
    } else {
        add_line(v, text::join2(label, "none"));
    }
    proof {
        assert(text::texts(v@) =~= before + presence_line(label@, present));
    }
}

/// The lines of the status report.
pub fn status(config: &Config, now: u64) -> (r: Vec<String>)
    ensures
        text::texts(r@) == status_lines(*config, now),
{
    let mut v: Vec<String> = Vec::new();
    proof {
        assert(text::texts(v@) + token_lines("AAD token:   "@, config.access_token, now)
            =~= token_lines("AAD token:   "@, config.access_token, now));
    }
    add_token_lines(&mut v, "AAD token:   ", &config.access_token, now);
    add_presence_line(&mut v, "Refresh tok: ", config.refresh_token.is_some());
    add_token_lines(&mut v, "Graph token: ", &config.graph_token, now);
    add_token_lines(&mut v, "IC3 token:   ", &config.ic3_token, now);
    add_token_lines(&mut v, "Recorder tk: ", &config.recorder_token, now);
    add_token_lines(&mut v, "Skype token: ", &config.skype_token, now);
    add_presence_line(&mut v, "Region GTMs: ", config.region_gtms.is_some());
    if config.access_token.is_none() {
        add_line(&mut v, "\nRun 'teams-cli login' to authenticate.".to_string());
    }
    proof {
        assert(text::texts(v@) =~= status_lines(*config, now));
    }
    v
}

/// A run of a login asks for the tokens in this order, and for none that is derived
/// where there is nothing to derive it from.
pub proof fn law_tokens_come_in_order()
    ensures
        next_stage(Stage::Skype, true) == Stage::Graph,
        next_stage(Stage::Skype, false) == Stage::Done,
        forall|derived: bool| next_stage(Stage::Graph, derived) == Stage::Ic3,
        forall|derived: bool| next_stage(Stage::Ic3, derived) == Stage::Recorder,
        forall|derived: bool| next_stage(Stage::Recorder, derived) == Stage::Done,
        forall|derived: bool| next_stage(Stage::Done, derived) == Stage::Done,
{
}

/// A derived token goes to its own place, and nothing else changes.
pub proof fn law_derived_token_has_its_place(
    before: Config,
    after: Config,
    stage: Stage,
    token: Seq<char>,
    expires_in: Option<u64>,
    now: u64,
)
    requires
        with_derived(before, after, stage, token, expires_in, now),
    ensures
        after.access_token == before.access_token,
        after.refresh_token == before.refresh_token,
        after.skype_token == before.skype_token,
        after.tenant_id == before.tenant_id,
        after.region_gtms == before.region_gtms,
        stage != Stage::Graph ==> after.graph_token == before.graph_token,
        stage != Stage::Ic3 ==> after.ic3_token == before.ic3_token,
        stage != Stage::Recorder ==> after.recorder_token == before.recorder_token,
        stage == Stage::Graph ==> (after.graph_token matches Some(t) && t.token@ == token),
        stage == Stage::Ic3 ==> (after.ic3_token matches Some(t) && t.token@ == token),
        stage == Stage::Recorder ==> (after.recorder_token matches Some(t) && t.token@ == token),
{
}

/// The first token is kept with its end; a new refresh token takes the place of the old
/// one, which stays where none came.
pub proof fn law_first_token_is_kept(before: Config, after: Config, reply: TokenReply, now: u64)
    requires
        with_tokens(before, after, reply, now),
    ensures
        after.access_token matches Some(t) && t.token@ == reply.token@ && t.expires_at
            == auth::expiry(now, reply.expires_in),
        reply.refresh_token is Some ==> after.refresh_token == reply.refresh_token,
        reply.refresh_token is None ==> after.refresh_token == before.refresh_token,
        after.graph_token == before.graph_token,
        after.ic3_token == before.ic3_token,
        after.recorder_token == before.recorder_token,
        after.skype_token == before.skype_token,
        after.tenant_id == before.tenant_id,
{
}

/// What a login did: without force it does nothing where the token holds and no derived
/// one is missing; it refreshes where it can, and asks for a code where it must.
pub proof fn law_login_does_what_is_needed(c: Config, now: u64)
    ensures
        login_step(c, true, now) == LoginStep::DeviceCode,
        c.access_token is None ==> login_step(c, false, now) == LoginStep::DeviceCode,
        c.access_token matches Some(t) ==> {
            &&& auth::expired_at(t, now) && c.refresh_token is Some ==> login_step(c, false, now)
                == LoginStep::RefreshExpired
            &&& auth::expired_at(t, now) && c.refresh_token is None ==> login_step(c, false, now)
                == LoginStep::DeviceCode
            &&& !auth::expired_at(t, now) && c.recorder_token is Some && c.ic3_token is Some
                ==> login_step(c, false, now) == LoginStep::AlreadyLoggedIn
            &&& !auth::expired_at(t, now) && c.refresh_token is None ==> login_step(c, false, now)
                == LoginStep::AlreadyLoggedIn
            &&& !auth::expired_at(t, now) && c.refresh_token is Some && (c.recorder_token is None
                || c.ic3_token is None) ==> login_step(c, false, now) == LoginStep::RefreshMissing
        },
{
}

/// A login is over without a code unless it asked for one, or a token that ran out could
/// not be refreshed.
pub proof fn law_login_ends_without_code(step: LoginStep, refreshed: bool)
    ensures
        login_end(step, refreshed) is None <==> step == LoginStep::DeviceCode || (step
            == LoginStep::RefreshExpired && !refreshed),
        login_end(LoginStep::RefreshMissing, true) != login_end(LoginStep::RefreshMissing, false),
        login_end(LoginStep::RefreshMissing, false) == login_end(
            LoginStep::AlreadyLoggedIn,
            refreshed,
        ),
        login_end(LoginStep::RefreshExpired, true) == Some("Token refreshed successfully."@),
{
    assert("Tokens refreshed (acquired missing derived tokens)."@.len() == 51) by {
        reveal_strlit("Tokens refreshed (acquired missing derived tokens).");
    }
    assert("Already logged in (AAD token valid). Use --force to re-authenticate."@.len() == 68) by {
        reveal_strlit("Already logged in (AAD token valid). Use --force to re-authenticate.");
    }
}

/// A summary names what is missing, and is that of a success where nothing is.
pub proof fn law_summary_names_what_is_missing()
    ensures
        login_summary(true, true, true, true) == "Login successful."@,
        login_summary(false, true, true, true) == "Login partially successful (missing: "@
            + "Skype"@ + ")."@,
        login_summary(true, false, true, true) == "Login partially successful (missing: "@
            + "Graph"@ + ")."@,
        login_summary(true, true, false, true) == "Login partially successful (missing: "@ + "IC3"@
            + ")."@,
        login_summary(true, true, true, false) == "Login partially successful (missing: "@
            + "Recorder"@ + ")."@,
        login_summary(false, false, false, false) == "Login partially successful (missing: "@ + (
        "Skype"@ + ", "@ + "Graph"@ + ", "@ + "IC3"@ + ", "@ + "Recorder"@) + ")."@,
{
    let s0 = Seq::<Seq<char>>::empty();
    let s1 = s0.push("Skype"@);
    let s2 = s1.push("Graph"@);
    let s3 = s2.push("IC3"@);
    let s4 = s3.push("Recorder"@);
    assert(s2.drop_last() =~= s1 && s3.drop_last() =~= s2 && s4.drop_last() =~= s3);
    assert(text::joined(s1, ", "@) == "Skype"@);
    assert(text::joined(s2, ", "@) == "Skype"@ + ", "@ + "Graph"@);
    assert(text::joined(s3, ", "@) == "Skype"@ + ", "@ + "Graph"@ + ", "@ + "IC3"@);
}

/// The status says of every token whether it is there and whether it holds, under its own
/// label.
pub proof fn law_status_tells_every_token(c: Config, now: u64)
    ensures
        c.access_token is None ==> status_lines(c, now).contains("AAD token:   "@ + "none"@),
        (c.access_token matches Some(t) && auth::expired_at(t, now)) ==> status_lines(
            c,
            now,
        ).contains("AAD token:   "@ + "expired"@),
        (c.access_token matches Some(t) && !auth::expired_at(t, now)) ==> status_lines(
            c,
            now,
        ).contains("AAD token:   "@ + "valid"@),
        c.graph_token is None ==> status_lines(c, now).contains("Graph token: "@ + "none"@),
        (c.graph_token matches Some(t) && auth::expired_at(t, now)) ==> status_lines(
            c,
            now,
        ).contains("Graph token: "@ + "expired"@),
        (c.graph_token matches Some(t) && !auth::expired_at(t, now)) ==> status_lines(
            c,
            now,
        ).contains("Graph token: "@ + "valid"@),
        c.ic3_token is None ==> status_lines(c, now).contains("IC3 token:   "@ + "none"@),
        (c.ic3_token matches Some(t) && auth::expired_at(t, now)) ==> status_lines(
            c,
            now,
        ).contains("IC3 token:   "@ + "expired"@),
        (c.ic3_token matches Some(t) && !auth::expired_at(t, now)) ==> status_lines(
            c,
            now,
        ).contains("IC3 token:   "@ + "valid"@),
        c.recorder_token is None ==> status_lines(c, now).contains("Recorder tk: "@ + "none"@),
        (c.recorder_token matches Some(t) && auth::expired_at(t, now)) ==> status_lines(
            c,
            now,
        ).contains("Recorder tk: "@ + "expired"@),
        (c.recorder_token matches Some(t) && !auth::expired_at(t, now)) ==> status_lines(
            c,
            now,
        ).contains("Recorder tk: "@ + "valid"@),
        c.skype_token is None ==> status_lines(c, now).contains("Skype token: "@ + "none"@),
        (c.skype_token matches Some(t) && auth::expired_at(t, now)) ==> status_lines(
            c,
            now,
        ).contains("Skype token: "@ + "expired"@),
        (c.skype_token matches Some(t) && !auth::expired_at(t, now)) ==> status_lines(
            c,
            now,
        ).contains("Skype token: "@ + "valid"@),
        c.refresh_token is Some ==> status_lines(c, now).contains("Refresh tok: "@ + "present"@),
        c.refresh_token is None ==> status_lines(c, now).contains("Refresh tok: "@ + "none"@),
        c.region_gtms is Some ==> status_lines(c, now).contains("Region GTMs: "@ + "present"@),
        c.region_gtms is None ==> status_lines(c, now).contains("Region GTMs: "@ + "none"@),
{
    let a = token_lines("AAD token:   "@, c.access_token, now);
    let b = presence_line("Refresh tok: "@, c.refresh_token is Some);
    let d = token_lines("Graph token: "@, c.graph_token, now);
    let e = token_lines("IC3 token:   "@, c.ic3_token, now);
    let f = token_lines("Recorder tk: "@, c.recorder_token, now);
    let g = token_lines("Skype token: "@, c.skype_token, now);
    let h = presence_line("Region GTMs: "@, c.region_gtms is Some);
    let s = status_lines(c, now);
    let n1 = a.len() as int;
    let n2 = n1 + b.len();
    let n3 = n2 + d.len();
    let n4 = n3 + e.len();
    let n5 = n4 + f.len();
    let n6 = n5 + g.len();
    assert(s[0] == a[0]);
    assert(s[n1] == b[0]);
    assert(s[n2] == d[0]);
    assert(s[n3] == e[0]);
    assert(s[n4] == f[0]);
    assert(s[n5] == g[0]);
    assert(s[n6] == h[0]);
}

/// A token is asked for from the service that it is for.
pub proof fn law_scope_names_its_service()
    ensures
        scope_text(Audience::Spaces) == "https://api.spaces.skype.com/.default"@,
        scope_text(Audience::Graph) == "https://graph.microsoft.com/.default"@,
        scope_text(Audience::Ic3) == "https://ic3.teams.office.com/.default"@,
        scope_text(Audience::Recorder) == "4580fd1d-e5a3-4f56-9ad1-aab0e3bf8f76/.default"@,
        endpoint_name(Endpoint::Authorize) == "authorize"@,
        endpoint_name(Endpoint::Token) == "token"@,
        endpoint_name(Endpoint::DeviceCode) == "devicecode"@,
{
}

/// A refresh derives with the refresh token that is kept; an empty one serves only a
/// login.
pub proof fn law_derived_with_the_refresh_token(c: Config)
    ensures
        c.refresh_token is None ==> derived_with(c, true) is None && derived_with(c, false) is None,
        c.refresh_token matches Some(t) ==> {
            &&& derived_with(c, true) == c.refresh_token
            &&& t@.len() > 0 ==> derived_with(c, false) == c.refresh_token
            &&& t@.len() == 0 ==> derived_with(c, false) is None
        },
{
}

} // verus!
