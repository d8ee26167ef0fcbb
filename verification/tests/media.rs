//! Which media needs a token, and which headers carry it.
use teams_cli::api::media::{
    accept_media, auth_headers, fetch_media_data, host_of, needs_auth, MAX_BYTES,
};

#[test]
fn auth_hosts_need_token() {
    assert!(needs_auth(
        "https://amer.ng.msg.teams.microsoft.com/v1/objects/0-abc/views/imgo"
    ));
    assert!(needs_auth(
        "https://us-api.asm.skype.com/v1/objects/0-abc/views/imgo"
    ));
    assert!(needs_auth(
        "https://euno-prod.asyncgw.teams.microsoft.com/v1/objects/0-abc/views/imgpsh_fullsize"
    ));
    assert!(needs_auth("https://msg.skype.com/x"));
    assert!(needs_auth("https://US-API.ASM.SKYPE.COM/v1/objects/0/x"));
}

#[test]
fn public_hosts_skip_auth() {
    assert!(!needs_auth("https://media.giphy.com/media/abc/giphy.gif"));
    assert!(!needs_auth("https://example.com/photo.png"));
    assert!(!needs_auth(
        "https://statics.teams.cdn.microsoft.com/evergreen-assets/p.png"
    ));
}

#[test]
fn evil_hosts_do_not_match() {
    assert!(!needs_auth("https://asm.skype.com.evil.com/x"));
    assert!(!needs_auth(
        "https://amer.ng.msg.teams.microsoft.com.evil.com/x"
    ));
    assert!(!needs_auth("https://notskype.com/x"));
    assert!(!needs_auth("http://amer.ng.msg.teams.microsoft.com/x"));
    assert!(!needs_auth("not a url"));
    assert!(!needs_auth("https://"));
    assert!(needs_auth("https://notams.skype.com/x"));
}

#[test]
fn asm_hosts_take_object_store_scheme() {
    for u in [
        "https://us-api.asm.skype.com/v1/objects/0-eus-d1-abc/views/imgo",
        "https://api.asm.skype.com/v1/objects/0-abc/views/imgo",
        "https://us-prod.asyncgw.teams.microsoft.com/v1/objects/0-abc/views/imgo",
        "https://euno-prod.asyncgw.teams.microsoft.com/v1/objects/0-abc/views/imgpsh_fullsize",
        "https://US-API.ASM.SKYPE.COM/v1/objects/0-abc/views/imgo",
    ] {
        assert_eq!(
            auth_headers(u, "T"),
            vec![("Authorization", "skype_token T".to_string())],
            "ASM scheme for {u}"
        );
    }
}

#[test]
fn chat_hosts_keep_chat_scheme() {
    for u in [
        "https://amer.ng.msg.teams.microsoft.com/v1/objects/0-abc/views/imgo",
        "https://msg.skype.com/x",
        "https://notams.skype.com/x",
    ] {
        assert_eq!(
            auth_headers(u, "T"),
            vec![
                ("Authentication", "skypetoken=T".to_string()),
                ("X-SkypeToken", "T".to_string()),
            ],
            "chat scheme for {u}"
        );
    }
}

#[test]
fn public_and_evil_hosts_send_no_token() {
    for u in [
        "https://media.giphy.com/media/abc/giphy.gif",
        "https://asm.skype.com.evil.com/x",
        "https://us-api.asm.skype.com.evil.com/v1/objects/0/views/imgo",
        "http://us-api.asm.skype.com/x",
        "not a url",
    ] {
        assert!(auth_headers(u, "T").is_empty(), "no token for {u}");
    }
}

#[test]
fn host_parsing_strips_port_and_path() {
    assert_eq!(
        host_of("https://h.example.com:8443/a?b#c").as_deref(),
        Some("h.example.com")
    );
    assert_eq!(host_of("https://H.EXAMPLE.COM/x").as_deref(), Some("h.example.com"));
    assert!(host_of("https://").is_none());
}

#[test]
fn users_and_ports_are_no_part_of_the_host() {
    for u in [
        "https://a.skype.com@evil.com/x",
        "https://a.skype.com:p@evil.com/x",
        "https://u@a.skype.com@evil.com:443/x",
        "https://evil.com\\@a.skype.com/x",
        "https://evil.com/@a.skype.com",
        "https://evil.com?@a.skype.com",
        "https://evil.com#@a.skype.com",
    ] {
        assert_eq!(host_of(u).as_deref(), Some("evil.com"), "{u}");
        assert!(!needs_auth(u));
        assert!(auth_headers(u, "T").is_empty());
    }
    assert_eq!(host_of("https://u:p@a.skype.com:443/x").as_deref(), Some("a.skype.com"));
    assert!(needs_auth("https://u:p@a.skype.com:443/x@evil.com"));
    assert!(host_of("https://u@/x").is_none());
}

#[test]
fn media_over_the_cap_is_refused() {
    let ok = accept_media("https://h/a.png", vec![1, 2, 3], Some("image/png".to_string())).ok().unwrap();
    assert_eq!(ok.data, vec![1, 2, 3]);
    assert_eq!(ok.content_type.as_deref(), Some("image/png"));
    assert!(accept_media("https://h/a.png", vec![0; MAX_BYTES], None).is_ok());
    assert!(accept_media("https://h/a.png", vec![0; MAX_BYTES + 1], None).is_err());
}

#[test]
fn media_is_fetched_from_https_only() {
    assert!(fetch_media_data("").is_err());
    assert!(fetch_media_data("http://h/x").is_err());
    assert_eq!(fetch_media_data(" https://h/x ").unwrap(), "https://h/x");
}
