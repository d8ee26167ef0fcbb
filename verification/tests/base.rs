//! Texts, addresses, JSON, order and bytes.
use teams_cli::bytes::{find_bytes, parse_port, read_be16, read_be32};
use teams_cli::dates::{civil_from_days, unix_to_iso8601};
use teams_cli::json::{from_value, nests_within, parse_json, parse_json_bytes, Json};
use teams_cli::order::{is_newer, less, less_opt};
use teams_cli::text;
use teams_cli::web;

fn value(text: &str) -> serde_json::Value {
    serde_json::from_str(text).unwrap()
}


fn to_value(j: &Json) -> serde_json::Value {
    match j {
        Json::Null => serde_json::Value::Null,
        Json::Bool(b) => serde_json::Value::Bool(*b),
        Json::Num(n) => serde_json::from_str(&n.text).unwrap(),
        Json::Str(s) => serde_json::Value::String(s.clone()),
        Json::Arr(a) => serde_json::Value::Array(a.iter().map(to_value).collect()),
        Json::Obj(o) => {
            serde_json::Value::Object(o.iter().map(|(k, v)| (k.clone(), to_value(v))).collect())
        }
    }
}


#[test]
fn spaces_are_those_of_unicode() {
    for c in (0..=0x10FFFF).filter_map(char::from_u32) {
        assert_eq!(text::is_space_char(c), c.is_whitespace(), "{:?}", c);
    }
    for s in ["", " ", "a", "\t a b\u{2003}", "\u{85}x\u{3000}"] {
        assert_eq!(text::trim(s), s.trim());
        assert_eq!(text::is_blank(s), s.trim().is_empty());
    }
}

#[test]
fn searches_agree_with_std() {
    let words = ["", "a", "aa", "aab", "abaab", "xéy", "b"];
    for s in words {
        for p in words {
            assert_eq!(text::contains(s, p), s.contains(p), "{:?} {:?}", s, p);
            assert_eq!(text::starts_with(s, p), s.starts_with(p));
            assert_eq!(text::ends_with(s, p), s.ends_with(p));
            assert_eq!(text::same(s, p), s == p);
            assert_eq!(text::strip_prefix(s, p).as_deref(), s.strip_prefix(p));
            assert_eq!(text::strip_suffix(s, p).as_deref(), s.strip_suffix(p));
            assert_eq!(less(s, p), s < p);
            if !p.is_empty() {
                assert_eq!(text::replace_all(s, p, "_"), s.replace(p, "_"));
            }
        }
    }
    assert_eq!(text::find("xéab", "ab"), Some(2));
    assert_eq!(text::take_after_last("a/b/c", '/'), "c");
    assert_eq!(text::take_before("a?b?c", '?'), "a");
    assert_eq!(text::take_before_any("ab/c?d", "?/"), "ab");
    assert_eq!(text::drop_trailing("a//", '/'), "a");
    assert_eq!(text::replace_char("a'b", '\'', "''"), "a''b");
}

#[test]
fn numbers_are_written_out() {
    for n in [0u64, 7, 10, 4096, u64::MAX] {
        assert_eq!(text::to_decimal(n), n.to_string());
    }
    for n in [0i64, -1, i64::MIN, i64::MAX] {
        assert_eq!(text::to_signed_decimal(n), n.to_string());
    }
    assert_eq!(text::to_hex8(0xABCDEF), "00abcdef");
    assert_eq!(text::fill("ab", 4), "ab  ");
    assert_eq!(text::fill("abcde", 4), "abcde");
    assert_eq!(text::lower("AbÄ"), "abÄ");
    assert!(text::same_ignoring_case("GZip", "gzIP"));
}

#[test]
fn addresses_decode_to_what_was_encoded() {
    for s in ["", "a b", "ä/?#%", "\u{1F600}", "~._-"] {
        assert_eq!(web::decode(&web::encode(s)), s);
        assert!(web::encode(s).bytes().all(|b| b.is_ascii_graphic()));
    }
    assert_eq!(web::encode("a b/ä"), "a%20b%2F%C3%A4");
    assert_eq!(web::decode("%zz%4"), "%zz%4");
    assert_eq!(web::decode("%FF"), "\u{FFFD}");
    assert_eq!(web::split_words(" a  b\n"), vec!["a", "b"]);
    assert_eq!(web::collapse(" a  b\n"), "a b");
    assert!(web::check_id("chat", "a-b_c").is_ok());
}

#[test]
fn json_is_read_and_kept() {
    let t = r#"{"b":[1,-2,1.5,true,null,"\u00e4"],"a":{}}"#;
    let j = parse_json(t).unwrap();
    assert_eq!(to_value(&j), value(t));
    assert_eq!(to_value(&parse_json_bytes(t.as_bytes()).unwrap()), value(t));
    assert_eq!(to_value(&from_value(&value(t))), value(t));
    assert!(parse_json("{").is_none());
    assert!(parse_json_bytes(&[0xFF]).is_none());
    assert!(j.get("a").is_some() && j.get("c").is_none());
    assert!(j.get2("a", "b").is_none());
    assert!(nests_within(&j, 3));
    assert!(!nests_within(&j, 1));
    assert!(Json::Null.is_null());
}

#[test]
fn newer_files_come_first() {
    let o = |s: &str| Some(s.to_string());
    let n = "n".to_string();
    assert!(is_newer(&o("2026-02"), &None, &n, &o("2026-01"), &None, &n));
    assert!(!is_newer(&o("2026-01"), &None, &n, &o("2026-02"), &None, &n));
    assert!(is_newer(&o("1"), &o("3"), &n, &o("1"), &o("2"), &n));
    assert!(is_newer(&o("1"), &None, &n, &None, &o("9"), &n));
    assert!(less_opt(&None, &o("")));
    assert!(!less_opt(&o("b"), &o("a")));
}

#[test]
fn days_are_dates() {
    assert_eq!(unix_to_iso8601(0), "1970-01-01T00:00:00Z");
    assert_eq!(unix_to_iso8601(951_782_400), "2000-02-29T00:00:00Z");
    assert_eq!(unix_to_iso8601(1_790_208_000 + 3661), "2026-09-24T01:01:01Z");
    assert_eq!(civil_from_days(719468), (1970, 1, 1));
    assert_eq!(civil_from_days(0), (0, 3, 1));
    assert_eq!(civil_from_days(-1), (0, 2, 29));
    assert_eq!(civil_from_days(-146_097), (-400, 3, 1));
    assert!(civil_from_days(i64::MIN).0 < 0);
}

#[test]
fn bytes_are_read_in_network_order() {
    assert_eq!(read_be16(&[9, 1, 2], 1), 0x0102);
    assert_eq!(read_be32(&[1, 2, 3, 4], 0), 0x0102_0304);
    assert_eq!(find_bytes(b"abcabc", b"ca"), Some(2));
    assert_eq!(find_bytes(b"abc", b"x"), None);
    assert_eq!(parse_port("65535"), Some(65535));
    assert_eq!(parse_port("65536"), None);
    assert_eq!(parse_port(""), None);
    assert_eq!(parse_port("+1"), Some(1));
}
