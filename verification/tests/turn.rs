//! TURN messages and allocations.
use teams_cli::calling::turn::{
    add_message_integrity_and_fingerprint, append_attr, build_allocate_request, build_stun_header,
    compute_long_term_key, compute_relay_priority, crc32, decode_xor_address, encode_xor_address,
    first_udp_server, is_channel_data, is_turn_data_message, iter_attrs, parse_data_indication,
    parse_relay_response,
    parse_turn_response, parse_turn_url, read_relay_reply, relay_auth_header, relay_step,
    AllocateStep, IpAddress, RelayConfig, RelayStep,
    SocketAddress, TurnClient, TurnRequestError, TurnResponseError, TurnServer, TurnTransport,
    ALLOCATE_ERROR_RESPONSE, ALLOCATE_REQUEST, ALLOCATE_RESPONSE, ATTR_DATA, ATTR_ERROR_CODE,
    ATTR_FINGERPRINT, ATTR_LIFETIME, ATTR_MESSAGE_INTEGRITY, ATTR_NONCE, ATTR_REALM,
    ATTR_REQUESTED_TRANSPORT, ATTR_USERNAME, ATTR_XOR_PEER_ADDRESS, ATTR_XOR_RELAYED_ADDRESS, FINGERPRINT_XOR,
    MAGIC_COOKIE, STUN_HEADER_SIZE, TRANSPORT_UDP,
};
use teams_cli::json::parse_json;

#[test]
fn data_indications_of_any_length_are_read() {
    for n in 0..24 {
        assert!(parse_data_indication(&vec![0u8; n], &[1; 12]).is_none());
    }
    let peer = SocketAddress { ip: IpAddress::V4([192, 0, 2, 7]), port: 3478 };
    let txn = [1u8; 12];
    let mut data = build_stun_header(0x0017, &txn);
    append_attr(&mut data, ATTR_XOR_PEER_ADDRESS, &encode_xor_address(peer, &txn));
    append_attr(&mut data, ATTR_DATA, b"abc");
    let len = (data.len() - STUN_HEADER_SIZE) as u16;
    data[2..4].copy_from_slice(&len.to_be_bytes());
    let (from, payload) = parse_data_indication(&data, &txn).unwrap();
    assert_eq!(from, peer);
    assert_eq!(payload, b"abc");
}

#[test]
fn test_parse_turn_url_udp() {
    let server = parse_turn_url("turn:example.com:3478").unwrap();
    assert_eq!(server.host, "example.com");
    assert_eq!(server.port, 3478);
    assert_eq!(server.transport, TurnTransport::Udp);
}

#[test]
fn test_parse_turn_url_tcp() {
    let server = parse_turn_url("turn:relay.example.com:443?transport=tcp").unwrap();
    assert_eq!(server.host, "relay.example.com");
    assert_eq!(server.port, 443);
    assert_eq!(server.transport, TurnTransport::Tcp);
}

#[test]
fn test_parse_turn_url_tls() {
    let server = parse_turn_url("turns:relay.example.com:443").unwrap();
    assert_eq!(server.host, "relay.example.com");
    assert_eq!(server.port, 443);
    assert_eq!(server.transport, TurnTransport::Tls);
}

#[test]
fn test_parse_turn_url_default_port() {
    let server = parse_turn_url("turn:example.com").unwrap();
    assert_eq!(server.port, 3478);
}

#[test]
fn test_parse_turn_url_invalid() {
    assert!(parse_turn_url("http://example.com").is_none());
    assert!(parse_turn_url("").is_none());
}

#[test]
fn test_relay_priority_lowest() {
    let relay = compute_relay_priority(65535, 1);
    let host = (126u32 << 24) | (65535u32 << 8) | 255;
    assert!(relay < host);
}

#[test]
fn test_build_allocate_request_basic() {
    let txn = [0x42u8; 12];
    let req = build_allocate_request(&txn, None, None, None);

    assert!(req.len() >= STUN_HEADER_SIZE);
    let msg_type = u16::from_be_bytes([req[0], req[1]]);
    assert_eq!(msg_type, ALLOCATE_REQUEST);
    let magic = u32::from_be_bytes([req[4], req[5], req[6], req[7]]);
    assert_eq!(magic, MAGIC_COOKIE);

    let mut found_transport = false;
    for attr in iter_attrs(&req, req.len()) {
        if attr.kind == ATTR_REQUESTED_TRANSPORT {
            found_transport = true;
            assert_eq!(attr.value[0], TRANSPORT_UDP);
        }
    }
    assert!(found_transport);
}

#[test]
fn test_encode_decode_xor_address_roundtrip() {
    let txn = [0x01u8; 12];
    let addr = SocketAddress { ip: IpAddress::V4([192, 168, 1, 100]), port: 12345 };
    let encoded = encode_xor_address(addr, &txn);
    let decoded = decode_xor_address(&encoded, &txn).unwrap();
    assert_eq!(decoded, addr);
}

#[test]
fn test_is_turn_data_message() {
    let mut msg = vec![0u8; 24];
    msg[0] = 0x00;
    msg[1] = 0x17;
    msg[4] = 0x21;
    msg[5] = 0x12;
    msg[6] = 0xA4;
    msg[7] = 0x42;
    assert!(is_turn_data_message(&msg));

    assert!(!is_turn_data_message(&[0u8; 10]));
}

#[test]
fn test_is_channel_data() {
    let msg = [0x40, 0x00, 0x00, 0x04, 0x01, 0x02, 0x03, 0x04];
    assert!(is_channel_data(&msg));

    let stun = [0x00, 0x01, 0x00, 0x00];
    assert!(!is_channel_data(&stun));
}

#[test]
fn test_relay_config_struct() {
    let config = RelayConfig {
        servers: vec![TurnServer {
            host: "turn.example.com".into(),
            port: 3478,
            transport: TurnTransport::Udp,
        }],
        username: "user".into(),
        credential: "pass".into(),
        ttl: 3600,
    };
    assert_eq!(config.servers.len(), 1);
    assert_eq!(config.ttl, 3600);
}

#[test]
fn test_message_integrity_and_fingerprint() {
    let txn = [0xABu8; 12];
    let req = build_allocate_request(&txn, Some("testuser"), Some("realm"), Some("nonce"));
    let key = compute_long_term_key("testuser", "realm", "testpassword");
    let final_msg = add_message_integrity_and_fingerprint(req, &key);

    let len = final_msg.len();
    let fp_type = u16::from_be_bytes([final_msg[len - 8], final_msg[len - 7]]);
    assert_eq!(fp_type, ATTR_FINGERPRINT);

    let fp_val = u32::from_be_bytes([
        final_msg[len - 4],
        final_msg[len - 3],
        final_msg[len - 2],
        final_msg[len - 1],
    ]);
    let computed_crc = crc32(&final_msg[..len - 8]);
    assert_eq!(fp_val, computed_crc ^ FINGERPRINT_XOR);
}

#[test]
fn test_compute_long_term_key_rfc5389_vector() {
    let key = compute_long_term_key("user", "realm", "pass");
    assert_eq!(key.len(), 16);
    assert_eq!(key_hex(&key), "8493fbc53ba582fb4c044c456bdc40eb");
}

#[test]
fn test_compute_long_term_key_empty() {
    let key = compute_long_term_key("", "", "");
    assert_eq!(key.len(), 16);
    assert_eq!(key_hex(&key), "4501c091b0366d76ea3218b6cfdd8097");
}

fn key_hex(key: &[u8]) -> String {
    key.iter().map(|b| format!("{:02x}", b)).collect()
}

fn addr(d: u8, port: u16) -> SocketAddress {
    SocketAddress { ip: IpAddress::V4([10, 0, 0, d]), port }
}

#[test]
fn addresses_of_both_families_survive_the_mask() {
    let txn = [0xA7u8; 12];
    for a in [
        addr(1, 0),
        addr(255, 65535),
        SocketAddress { ip: IpAddress::V6([0xFE, 0x80, 0, 0, 0, 0, 0, 0, 1, 2, 3, 4, 5, 6, 7, 8]), port: 3478 },
    ] {
        let bytes = encode_xor_address(a, &txn);
        assert_eq!(decode_xor_address(&bytes, &txn).unwrap(), a);
    }
    assert!(decode_xor_address(&[0, 1, 2], &txn).is_none());
    assert!(decode_xor_address(&[0, 9, 0, 0, 0, 0, 0, 0], &txn).is_none());
}

#[test]
fn attributes_are_padded_and_found_again() {
    let mut buf = build_stun_header(ALLOCATE_REQUEST, &[3u8; 12]);
    append_attr(&mut buf, ATTR_USERNAME, b"abcde");
    append_attr(&mut buf, ATTR_REALM, b"");
    append_attr(&mut buf, ATTR_NONCE, b"wxyz");
    let list = iter_attrs(&buf, buf.len());
    let seen: Vec<(u16, Vec<u8>)> = list.into_iter().map(|a| (a.kind, a.value)).collect();
    assert_eq!(
        seen,
        vec![
            (ATTR_USERNAME, b"abcde".to_vec()),
            (ATTR_REALM, Vec::new()),
            (ATTR_NONCE, b"wxyz".to_vec()),
        ]
    );
}

#[test]
fn checksums_match_the_known_value() {
    assert_eq!(crc32(b"123456789"), 0xCBF4_3926);
    assert_eq!(crc32(b""), 0);
}

fn success(txn: &[u8; 12], relay: SocketAddress) -> Vec<u8> {
    let mut m = build_stun_header(ALLOCATE_RESPONSE, txn);
    append_attr(&mut m, ATTR_XOR_RELAYED_ADDRESS, &encode_xor_address(relay, txn));
    append_attr(&mut m, ATTR_LIFETIME, &[0, 0, 1, 0x2C]);
    let n = (m.len() - 20) as u16;
    m[2] = (n >> 8) as u8;
    m[3] = n as u8;
    m
}

fn refusal(txn: &[u8; 12], code: u16, realm: bool) -> Vec<u8> {
    let mut m = build_stun_header(ALLOCATE_ERROR_RESPONSE, txn);
    append_attr(&mut m, ATTR_ERROR_CODE, &[0, 0, (code / 100) as u8, (code % 100) as u8, b'n', b'o']);
    if realm {
        append_attr(&mut m, ATTR_REALM, b"r");
        append_attr(&mut m, ATTR_NONCE, b"n");
    }
    let n = (m.len() - 20) as u16;
    m[2] = (n >> 8) as u8;
    m[3] = n as u8;
    m
}

#[test]
fn allocations_sign_in_after_the_first_refusal() {
    let txn = [1u8; 12];
    let txn2 = [2u8; 12];
    let mut c = TurnClient::new("user", "pass");
    let reply = parse_turn_response(&refusal(&txn, 401, true), ALLOCATE_ERROR_RESPONSE).ok().unwrap();
    let again = match c.on_first_reply(reply, &txn2) {
        AllocateStep::Retry(m) => m,
        _ => panic!("a second request"),
    };
    let kinds: Vec<u16> = iter_attrs(&again, again.len()).iter().map(|a| a.kind).collect();
    assert!(kinds.contains(&ATTR_USERNAME));
    assert!(kinds.contains(&ATTR_MESSAGE_INTEGRITY));
    assert_eq!(*kinds.last().unwrap(), ATTR_FINGERPRINT);
    let relay = addr(9, 5000);
    let reply = parse_turn_response(&success(&txn2, relay), ALLOCATE_RESPONSE).ok().unwrap();
    assert!(matches!(c.on_second_reply(reply), AllocateStep::Done(a) if a == relay));
    assert_eq!(c.relay_addr(), Some(relay));
    assert_eq!(c.lifetime, 300);
    assert_eq!(c.auth_key().unwrap(), compute_long_term_key("user", "r", "pass"));
    assert!(c.create_permission(addr(2, 9), &txn).is_ok());
    assert!(c.channel_bind(addr(2, 9), 0x4000, &txn).is_ok());
    assert!(matches!(
        c.channel_bind(addr(2, 9), 0x3FFF, &txn),
        Err(TurnRequestError::ChannelOutOfRange)
    ));
}

#[test]
fn refusals_without_credentials_end_the_allocation() {
    let txn = [1u8; 12];
    let mut c = TurnClient::new("user", "pass");
    assert!(matches!(
        c.create_permission(addr(2, 9), &txn),
        Err(TurnRequestError::NoRealm)
    ));
    let reply = parse_turn_response(&refusal(&txn, 401, false), ALLOCATE_ERROR_RESPONSE).ok().unwrap();
    assert!(matches!(c.on_first_reply(reply, &txn), AllocateStep::NoRealm));
    let reply = parse_turn_response(&refusal(&txn, 403, true), ALLOCATE_ERROR_RESPONSE).ok().unwrap();
    assert!(matches!(c.on_first_reply(reply, &txn), AllocateStep::Rejected(403, why) if why == "no"));
    assert!(matches!(
        parse_turn_response(&build_stun_header(ALLOCATE_RESPONSE, &txn), ALLOCATE_RESPONSE),
        Err(TurnResponseError::MissingRelayedAddress)
    ));
    assert!(matches!(
        parse_turn_response(&build_stun_header(0x0001, &txn), 0x0001),
        Err(TurnResponseError::UnknownType(0x0001))
    ));
}

#[test]
fn relay_tokens_are_tried_in_two_headers() {
    assert_eq!(relay_step(false, true), RelayStep::Read);
    assert_eq!(relay_step(true, true), RelayStep::Read);
    assert_eq!(relay_step(false, false), RelayStep::TryBearer);
    assert_eq!(relay_step(true, false), RelayStep::Fail);
}

#[test]
fn relay_tokens_name_servers_and_credentials() {
    let body = parse_json(
        r#"{"relays":[],"username":"u","credential":"c","urls":["turn:h:3478","turns:h:443"],"ttl":60}"#,
    )
    .unwrap();
    let c = parse_relay_response(&body).unwrap();
    assert_eq!((c.username.as_str(), c.credential.as_str(), c.ttl), ("u", "c", 60));
    assert_eq!(first_udp_server(&c.servers), Some(0));
    assert!(parse_relay_response(&parse_json("{}").unwrap()).is_none());
    let c = read_relay_reply(
        br#"{"TurnServerCredentials":[{"username":"a","password":"p","urls":["turn:h:3478"]}]}"#,
    )
    .unwrap();
    assert_eq!((c.username.as_str(), c.credential.as_str(), c.ttl), ("a", "p", 3600));
    assert!(read_relay_reply(b"{}").is_none());
    assert!(read_relay_reply(b"nope").is_none());
    let (name, value) = relay_auth_header(true, "T");
    assert_eq!((name.as_str(), value.as_str()), ("Authorization", "Bearer T"));
}
