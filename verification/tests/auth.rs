//! Logging in, refreshing and the token exchange.
use teams_cli::auth::oauth::{
    after_login_step, endpoint_url, login, logout, refresh, scopes_for, status, Audience, Endpoint,
    LoginStep, Request, Stage, TokenReply, TokenRun,
};
use teams_cli::auth::skype::{
    authz_url, exchange_skype_token, refused_exchange, skype_token_of, AuthzError,
};
use teams_cli::config::Config;

fn reply(token: &str, refresh: Option<&str>) -> TokenReply {
    TokenReply {
        token: token.to_string(),
        expires_in: Some(60),
        refresh_token: refresh.map(|r| r.to_string()),
    }
}

#[test]
fn runs_ask_for_one_token_after_another() {
    let mut run = TokenRun::begin(Config::default(), true, reply("A", Some("R")), 1000);
    assert!(matches!(run.request(), Request::Skype(t) if t == "A"));
    let skype = exchange_skype_token(
        br#"{"tokens":{"skypeToken":"S","expiresIn":30},"regionGtms":{"chatService":"https://c"}}"#,
    )
    .ok()
    .unwrap();
    run.on_skype(Some(skype), 1000);
    assert!(matches!(run.request(), Request::Acquire(Audience::Graph, r) if r == "R"));
    run.on_acquired(Some(reply("G", None)), 1000);
    assert!(matches!(run.request(), Request::Acquire(Audience::Ic3, _)));
    run.on_acquired(None, 1000);
    assert!(matches!(run.request(), Request::Acquire(Audience::Recorder, _)));
    run.on_acquired(Some(reply("C", None)), 1000);
    assert!(matches!(run.request(), Request::Save));
    assert_eq!(run.stage, Stage::Done);
    assert_eq!(run.summary(), "Login partially successful (missing: IC3).");
    assert_eq!(run.config.skype_token.as_ref().unwrap().expires_at, Some(1030));
    assert_eq!(run.config.graph_token.as_ref().unwrap().token, "G");
    assert!(run.config.ic3_token.is_none());
    assert_eq!(run.config.recorder_token.as_ref().unwrap().token, "C");
    assert_eq!(run.config.region_gtms.as_deref(), Some(r#"{"chatService":"https://c"}"#));
}

#[test]
fn runs_without_a_refresh_token_end_early() {
    let mut run = TokenRun::begin(Config::default(), true, reply("A", None), 0);
    run.on_skype(None, 0);
    assert!(matches!(run.request(), Request::Save));
    assert_eq!(
        run.summary(),
        "Login partially successful (missing: Skype, Graph, IC3, Recorder)."
    );
    let mut run = TokenRun::begin(Config::default(), false, reply("A", Some("")), 0);
    run.on_skype(None, 0);
    assert_eq!(run.stage, Stage::Done);
    let mut run = TokenRun::begin(Config::default(), true, reply("A", Some("")), 0);
    run.on_skype(None, 0);
    assert_eq!(run.stage, Stage::Graph);
}

#[test]
fn requests_name_scope_and_endpoint() {
    assert_eq!(
        scopes_for(Audience::Graph),
        vec!["https://graph.microsoft.com/.default", "offline_access"]
    );
    assert_eq!(scopes_for(Audience::Spaces)[0], "https://api.spaces.skype.com/.default");
    assert_eq!(scopes_for(Audience::Ic3)[0], "https://ic3.teams.office.com/.default");
    assert!(scopes_for(Audience::Recorder)[0].ends_with("/.default"));
    assert_eq!(
        endpoint_url("common", Endpoint::Token),
        "https://login.microsoftonline.com/common/oauth2/v2.0/token"
    );
    assert!(endpoint_url("t", Endpoint::Authorize).ends_with("/authorize"));
    assert!(endpoint_url("t", Endpoint::DeviceCode).ends_with("/devicecode"));
    assert_eq!(authz_url(true), "https://teams.live.com/api/auth/v1.0/authz/consumer");
    assert_eq!(authz_url(false), "https://teams.microsoft.com/api/authsvc/v1.0/authz");
    assert_eq!(refused_exchange(403, "no"), "Skype token exchange failed (HTTP 403): no");
}

#[test]
fn logins_reuse_what_is_valid() {
    let mut c = Config::default();
    assert_eq!(login(&c, false, 0), LoginStep::DeviceCode);
    c.set_access_token("A".to_string(), Some(10), 0);
    assert_eq!(login(&c, false, 5), LoginStep::AlreadyLoggedIn);
    assert_eq!(login(&c, true, 5), LoginStep::DeviceCode);
    assert_eq!(login(&c, false, 10), LoginStep::DeviceCode);
    c.set_refresh_token("R".to_string());
    assert_eq!(refresh(&c).as_deref(), Some("R"));
    assert_eq!(login(&c, false, 5), LoginStep::RefreshMissing);
    assert_eq!(login(&c, false, 10), LoginStep::RefreshExpired);
    c.set_ic3_token("I".to_string(), None, 0);
    c.set_recorder_token("C".to_string(), None, 0);
    assert_eq!(login(&c, false, 5), LoginStep::AlreadyLoggedIn);
    let already = "Already logged in (AAD token valid). Use --force to re-authenticate.";
    assert_eq!(after_login_step(LoginStep::AlreadyLoggedIn, false).unwrap(), already);
    assert_eq!(after_login_step(LoginStep::RefreshMissing, false).unwrap(), already);
    assert_eq!(
        after_login_step(LoginStep::RefreshMissing, true).unwrap(),
        "Tokens refreshed (acquired missing derived tokens)."
    );
    assert_eq!(
        after_login_step(LoginStep::RefreshExpired, true).unwrap(),
        "Token refreshed successfully."
    );
    assert!(after_login_step(LoginStep::RefreshExpired, false).is_none());
    assert!(after_login_step(LoginStep::DeviceCode, true).is_none());
}

#[test]
fn logouts_leave_nothing_behind() {
    let mut c = Config::default();
    c.set_access_token("A".to_string(), Some(10), 0);
    c.set_refresh_token("R".to_string());
    assert_eq!(
        status(&c, 5),
        vec![
            "AAD token:   valid",
            "  expires_at: 10",
            "Refresh tok: present",
            "Graph token: none",
            "IC3 token:   none",
            "Recorder tk: none",
            "Skype token: none",
            "Region GTMs: none",
        ]
    );
    assert_eq!(status(&c, 10)[0], "AAD token:   expired");
    logout(&mut c);
    assert_eq!(status(&c, 5), status(&Config::default(), 5));
    assert_eq!(status(&c, 5).last().unwrap(), "\nRun 'teams-cli login' to authenticate.");
    assert!(refresh(&c).is_none());
    assert_eq!(login(&c, false, 5), LoginStep::DeviceCode);
}

#[test]
fn exchanges_say_what_is_missing() {
    let err = |t: &str| exchange_skype_token(t.as_bytes()).err().unwrap();
    assert_eq!(err("x"), AuthzError::Unreadable);
    assert_eq!(err(r#"{"tokens":3}"#), AuthzError::Unreadable);
    assert_eq!(err("{}"), AuthzError::NoTokens);
    assert_eq!(err(r#"{"tokens":{}}"#), AuthzError::NoSkypeToken);
    assert_eq!(err("x").message(), "Failed to parse authsvc response");
    assert_eq!(err("{}").message(), "authsvc response missing 'tokens' field");
    assert_eq!(AuthzError::NoSkypeToken.message(), "authsvc response missing 'skypeToken'");
    let v: serde_json::Value = serde_json::from_str(r#"{"tokens":{"skypeToken":"S"}}"#).unwrap();
    let r = skype_token_of(&v).ok().unwrap();
    assert_eq!((r.token.as_str(), r.expires_in), ("S", None));
    assert!(r.region_gtms.is_none());
}
