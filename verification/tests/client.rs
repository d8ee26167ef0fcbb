//! Requests, their tokens and their errors.
use teams_cli::api::client::{check_response, names_status, ClientStart, TeamsClient};
use teams_cli::config::Config;

fn config() -> Config {
    let mut c = Config::default();
    c.set_access_token("A".to_string(), Some(100), 0);
    c.set_graph_token("G".to_string(), Some(100), 0);
    c.set_skype_token("S".to_string(), Some(100), 0);
    c
}

fn client() -> TeamsClient {
    match TeamsClient::new(config(), 1) {
        ClientStart::Ready(c) => c,
        _ => panic!("usable tokens"),
    }
}

fn header(name: &str, value: &str) -> (String, String) {
    (name.to_string(), value.to_string())
}

#[test]
fn stale_tokens_are_refreshed_where_they_can_be() {
    assert!(matches!(
        TeamsClient::new(config(), 100),
        ClientStart::Refused(e) if e == "Token expired and no refresh token. Run 'teams-cli login'."
    ));
    let mut c = config();
    c.set_refresh_token("R".to_string());
    assert!(matches!(TeamsClient::new(c.copy(), 100), ClientStart::Refresh));
    c.graph_token = None;
    assert!(matches!(TeamsClient::new(c, 1), ClientStart::Refresh));
    assert_eq!(
        TeamsClient::refresh_failure(Some("x")),
        "Token refresh failed: x. Run 'teams-cli login'."
    );
    assert_eq!(
        TeamsClient::refresh_failure(None),
        "No refresh token available. Run 'teams-cli login'."
    );
}

#[test]
fn requests_carry_the_token_of_their_service() {
    let c = client();
    let q = c.graph_get("/me", 1).unwrap_or_else(|e| panic!("{}", e));
    assert_eq!(q.url, "https://graph.microsoft.com/v1.0/me");
    assert_eq!(q.headers, vec![header("Authorization", "Bearer G")]);
    assert_eq!(c.graph_post("/x", 1).ok().unwrap().url, "https://graph.microsoft.com/v1.0/x");
    let q = c.teams_get("https://t", 1).ok().unwrap();
    assert_eq!(q.headers, vec![header("X-SkypeToken", "S")]);
    assert_eq!(c.teams_post("https://t", 1).ok().unwrap().url, "https://t");
    let q = c.csa_get("https://c", 1).ok().unwrap();
    assert_eq!(q.headers[0], header("Authorization", "Bearer S"));
    assert_eq!(q.headers[1], header("x-ms-client-version", "1416/1.0.0.2024050301"));
    let q = c.chat_get("https://c", 1).ok().unwrap();
    assert_eq!(q.headers, vec![header("Authentication", "skypetoken=S")]);
    assert_eq!(c.chat_post("https://c", 1).ok().unwrap().headers, q.headers);
    assert!(c.media_get("https://example.com/x.png", 1000).ok().unwrap().headers.is_empty());
}

#[test]
fn missing_and_expired_tokens_are_named() {
    let mut c = client();
    assert_eq!(
        c.graph_get("/me", 100).err().unwrap(),
        "Graph token expired. Run 'teams-cli login'."
    );
    assert_eq!(
        c.chat_get("u", 100).err().unwrap(),
        "Skype token expired. Run 'teams-cli login'."
    );
    c.config.graph_token = None;
    c.config.skype_token = None;
    assert_eq!(
        c.graph_token(1).err().unwrap(),
        "No Graph token. Run 'teams-cli login' first."
    );
    assert_eq!(
        c.skype_token(1).err().unwrap(),
        "No Skype token. Run 'teams-cli login' first."
    );
}

#[test]
fn services_default_to_their_public_address() {
    let mut c = client();
    assert_eq!(c.chat_service_url(), "https://amer.ng.msg.teams.microsoft.com");
    assert_eq!(c.chatsvcagg_url(), "https://chatsvcagg.teams.microsoft.com");
    c.config.region_gtms =
        Some(r#"{"chatService":"https://c","chatServiceAggregator":"https://a"}"#.to_string());
    assert_eq!(c.chat_service_url(), "https://c");
    assert_eq!(c.chatsvcagg_url(), "https://a");
}

#[test]
fn replies_fail_by_their_status() {
    assert!(check_response(200, "u", "b").is_ok());
    assert!(check_response(299, "u", "b").is_ok());
    assert_eq!(
        check_response(401, "u", "b").err().unwrap(),
        "401 Unauthorized for u. Token may be invalid -- run 'teams-cli login'."
    );
    assert_eq!(check_response(404, "u", "gone").err().unwrap(), "HTTP 404 for u: gone");
    let failed = check_response(503, "u", "HTTP 404").err().unwrap();
    assert!(names_status(&failed, "503"));
    assert!(!names_status(&failed, "404") && !names_status(&failed, "50"));
    let refused = check_response(401, "u", "HTTP 404").err().unwrap();
    assert!(!names_status(&refused, "404") && !names_status(&refused, "401"));
    assert_eq!(check_response(302, "u", "").err().unwrap(), "HTTP 302 for u: ");
}
