//! Configuration: profiles, their files, tokens and the cache.
use teams_cli::auth::{copy_token, StoredToken};
use teams_cli::config::{
    active_profile, normalize_profile, sanitize_profile, set_active_profile, Config, ConfigState,
    Fingerprint, DEFAULT_PROFILE,
};

fn stamp(size: u64) -> Option<Fingerprint> {
    Some(Fingerprint { size, seconds: 5, nanos: 6 })
}

#[test]
fn load_cached_matches_load_across_invalidate() {
    let mut state = ConfigState::new();
    Config::invalidate_cache(&mut state);
    let mut disk = Config::default();
    disk.tenant_id = Some("T".to_string());
    disk.save(&mut state, stamp(1));
    let hit = Config::load_cached(&state, stamp(1)).expect("cached");
    assert_eq!(format!("{:?}", disk), format!("{:?}", hit));
    Config::invalidate_cache(&mut state);
    assert!(Config::load_cached(&state, stamp(1)).is_none());
    disk.save(&mut state, stamp(1));
    let reloaded = Config::load_cached(&state, stamp(1)).expect("reload");
    assert_eq!(format!("{:?}", disk), format!("{:?}", reloaded));
}

#[test]
fn profile_paths_separate_default_from_accounts() {
    let file = |p: &str| Config::config_path_for(p);
    assert_eq!(file("default"), "config.toml");
    assert_eq!(file(""), "config.toml");
    assert_eq!(file("  DEFAULT  "), "config.toml");
    let a = file("user-a-id");
    let b = file("user-b-id");
    assert_eq!(a, "config-user-a-id.toml");
    assert_eq!(b, "config-user-b-id.toml");
    assert_ne!(a, b);
    let evil = file("../../etc/x");
    assert_eq!(evil, "config-.._.._etc_x.toml");
    assert!(!evil.contains('/'));
}

#[test]
fn active_profile_round_trips_and_defaults() {
    let mut state = ConfigState::new();
    let prev = active_profile(&state);
    set_active_profile(&mut state, "user-a-id");
    assert_eq!(active_profile(&state), "user-a-id");
    set_active_profile(&mut state, "   ");
    assert_eq!(active_profile(&state), DEFAULT_PROFILE);
    set_active_profile(&mut state, &prev);
    Config::invalidate_cache(&mut state);
    assert_eq!(active_profile(&state), prev);
}

#[test]
fn cached_files_are_read_anew_once_they_change() {
    let mut state = ConfigState::new();
    let mut a = Config::default();
    a.set_refresh_token("ra".to_string());
    let mut b = Config::default();
    b.set_refresh_token("rb".to_string());
    a.save_to(&mut state, " a ", stamp(1));
    b.save_to(&mut state, "b", None);
    assert_eq!(
        Config::load_cached_for(&state, "a", stamp(1)).unwrap().get_refresh_token().unwrap(),
        "ra"
    );
    assert!(Config::load_cached_for(&state, "a", stamp(2)).is_none());
    assert!(Config::load_cached_for(&state, "a", None).is_none());
    assert_eq!(
        Config::load_cached_for(&state, "b", None).unwrap().get_refresh_token().unwrap(),
        "rb"
    );
    Config::invalidate_cache_for(&mut state, "a");
    assert!(Config::load_cached_for(&state, "a", stamp(1)).is_none());
    assert!(Config::load_cached_for(&state, "b", None).is_some());
}

#[test]
fn normal_ids_stay_normal() {
    for id in ["", "  ", " x ", "user", "\u{3000}y\u{3000}"] {
        let once = normalize_profile(id);
        assert_eq!(normalize_profile(&once), once);
        assert!(!once.is_empty());
    }
    assert_eq!(sanitize_profile(""), "_");
    assert_eq!(sanitize_profile(&"ä".repeat(100)), "_".repeat(64));
    assert_eq!(sanitize_profile("a.b_c-d 1"), "a.b_c-d_1");
}

#[test]
fn tokens_are_stored_by_their_slot() {
    let mut c = Config::default();
    c.set_access_token("A".to_string(), Some(10), 100);
    c.set_skype_token("S".to_string(), None, 100);
    c.set_graph_token("G".to_string(), Some(u64::MAX), 100);
    c.set_ic3_token("I".to_string(), Some(0), 100);
    c.set_recorder_token("R".to_string(), Some(1), 100);
    let a = c.get_access_token().unwrap();
    assert_eq!((a.token.as_str(), a.expires_at), ("A", Some(110)));
    assert!(!a.is_expired(109));
    assert!(a.is_expired(110));
    let s = c.get_skype_token().unwrap();
    assert_eq!((s.token.as_str(), s.expires_at), ("S", None));
    assert!(!s.is_expired(u64::MAX));
    assert_eq!(c.get_graph_token().unwrap().expires_at, Some(u64::MAX));
    assert_eq!(c.get_ic3_token().unwrap().token, "I");
    assert_eq!(c.get_recorder_token().unwrap().token, "R");
    c.tenant_id = Some("T".to_string());
    c.clear_tokens();
    assert!(c.get_access_token().is_none());
    assert!(c.get_refresh_token().is_none());
    assert_eq!(c.tenant_id.as_deref(), Some("T"));
    let t = StoredToken::new("x".to_string(), Some(1), 1);
    assert_eq!(copy_token(&Some(t)).unwrap().expires_at, Some(2));
    assert!(copy_token(&None).is_none());
}

#[test]
fn regional_endpoints_survive_storage() {
    let mut c = Config::default();
    assert!(c.get_region_gtms().is_none());
    let v: serde_json::Value =
        serde_json::from_str(r#"{"chatService":"https://c","n":[1,null,true,"\u00e4"]}"#).unwrap();
    c.set_region_gtms(v.clone());
    assert_eq!(c.get_region_gtms().unwrap(), v);
    c.region_gtms = Some("not json".to_string());
    assert!(c.get_region_gtms().is_none());
}
