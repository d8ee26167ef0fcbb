//! Session descriptions, compressed and plain.
use base64::Engine;
use teams_cli::calling::sdp_compress::{
    choose_sdp, compress_sdp, decompress_sdp, raw_deflate, raw_inflate, SdpError,
    COMPRESSION_THRESHOLD,
};

/// Lines that session descriptions of the service have in common.
const SDP_DICTIONARY: &[u8] = b"v=0\r\no=- 0 0 IN IP4 127.0.0.1\r\ns=session\r\nc=IN IP4 52.114.0.\r\nt=0 0\r\na=candidate: 1 UDP 2130706431 52.114.0. typ host\r\n typ relay raddr 10.0.0.1 rport a=rtpmap:0 PCMU/8000\r\n";

#[test]
fn test_plaintext_passthrough() {
    let sdp = "v=0\r\no=- 0 0 IN IP4 10.0.0.1\r\ns=session\r\n";
    let result = decompress_sdp(sdp, SDP_DICTIONARY).unwrap();
    assert_eq!(result, sdp.trim());
}

#[test]
fn test_plaintext_passthrough_with_whitespace() {
    let sdp = "  v=0\r\no=- 0 0 IN IP4 10.0.0.1\r\ns=session\r\n  ";
    let result = decompress_sdp(sdp, SDP_DICTIONARY).unwrap();
    assert!(result.starts_with("v="));
}

#[test]
fn test_compress_below_threshold() {
    let short_sdp = "v=0\r\no=- 0 0 IN IP4 10.0.0.1\r\ns=session\r\n";
    assert!(short_sdp.len() < COMPRESSION_THRESHOLD);
    let result = compress_sdp(short_sdp, SDP_DICTIONARY).unwrap();
    assert!(result.is_none());
}

#[test]
fn test_roundtrip_no_dictionary() {
    let data = b"v=0\r\nsome test data repeated many times\r\n".repeat(50);
    let data_str = String::from_utf8(data).unwrap();

    let compressed = raw_deflate(data_str.as_bytes(), None).unwrap();
    let decompressed = raw_inflate(&compressed, None).unwrap();
    assert_eq!(decompressed, data_str);
}

#[test]
fn test_roundtrip_with_dictionary() {
    let data = b"v=0\r\nsome test data repeated many times\r\n".repeat(50);
    let data_str = String::from_utf8(data).unwrap();

    let compressed = raw_deflate(data_str.as_bytes(), Some(SDP_DICTIONARY)).unwrap();
    let decompressed = raw_inflate(&compressed, Some(SDP_DICTIONARY)).unwrap();
    assert_eq!(decompressed, data_str);
}

#[test]
fn test_compress_decompress_roundtrip() {
    let mut sdp = String::from("v=0\r\n\
        o=- 0 0 IN IP4 52.114.0.1\r\n\
        s=session\r\n\
        c=IN IP4 52.114.0.1\r\n\
        t=0 0\r\n\
        a=x-mediabw:main-video send=2000;recv=2000\r\n\
        m=audio 21730 RTP/SAVP 0 8 101 103 104 111 112 113 114 115 116\r\n\
        a=rtpmap:0 PCMU/8000\r\n\
        a=rtpmap:8 PCMA/8000\r\n\
        a=rtpmap:101 SILK/16000\r\n\
        a=rtpmap:103 SILK/8000\r\n\
        a=ice-ufrag:testufrag\r\n\
        a=ice-pwd:testpassword1234567890\r\n\
        a=candidate:1 1 UDP 2130706431 52.114.0.1 21730 typ host\r\n\
        a=candidate:2 1 UDP 1694498815 52.114.0.2 21731 typ srflx raddr 10.0.0.1 rport 21730\r\n\
        a=crypto:2 AES_CM_128_HMAC_SHA1_80 inline:dGVzdGtleTEyMzQ1Njc4OTAxMjM0NTY3ODkw|2^31\r\n\
        a=sendrecv\r\n\
        a=rtcp-mux\r\n\
        a=label:main-audio\r\n\
        a=x-source:main-audio\r\n");

    for i in 0..30 {
        sdp.push_str(&format!(
            "a=candidate:{} 1 UDP 100 10.0.{}.{} {} typ relay raddr 10.0.0.1 rport 21730\r\n",
            i + 3,
            i / 256,
            i % 256,
            30000 + i
        ));
    }

    assert!(sdp.len() >= COMPRESSION_THRESHOLD);

    let compressed = compress_sdp(&sdp, SDP_DICTIONARY).unwrap().expect("should compress");
    assert!(base64::engine::general_purpose::STANDARD
        .decode(&compressed)
        .is_ok());

    let decompressed = decompress_sdp(&compressed, SDP_DICTIONARY).unwrap();
    assert_eq!(decompressed, sdp);
}

#[test]
fn test_dictionary_improves_compression() {
    let mut sdp = String::from(
        "v=0\r\n\
        o=- 0 0 IN IP4 52.114.0.1\r\n\
        s=session\r\n\
        c=IN IP4 52.114.0.1\r\n\
        t=0 0\r\n",
    );

    for i in 0..50 {
        sdp.push_str(&format!(
            "a=candidate:{} 1 UDP 2130706431 52.114.0.{} {} typ host\r\n",
            i,
            i,
            20000 + i
        ));
    }

    let without_dict = raw_deflate(sdp.as_bytes(), None).unwrap();
    let with_dict = raw_deflate(sdp.as_bytes(), Some(SDP_DICTIONARY)).unwrap();

    assert!(
        with_dict.len() <= without_dict.len(),
        "Dictionary should improve compression: {} vs {} bytes",
        with_dict.len(),
        without_dict.len()
    );
}

#[test]
fn test_invalid_base64_returns_error() {
    let result = decompress_sdp("not-valid-base64!!!", SDP_DICTIONARY);
    assert!(result.is_err());
}

#[test]
fn test_invalid_compressed_data_returns_error() {
    let bogus = base64::engine::general_purpose::STANDARD.encode(b"this is not deflated");
    let result = decompress_sdp(&bogus, SDP_DICTIONARY);
    assert!(result.is_err());
}

#[test]
fn blobs_are_refused_by_what_is_wrong() {
    assert_eq!(decompress_sdp("!!!", SDP_DICTIONARY).unwrap_err(), SdpError::NotBase64);
    let zipped = raw_deflate(b"hello", Some(SDP_DICTIONARY)).unwrap();
    let blob = base64::engine::general_purpose::STANDARD.encode(&zipped);
    assert_eq!(decompress_sdp(&blob, SDP_DICTIONARY).unwrap_err(), SdpError::NotSdp);
    let plain = raw_deflate(b"v=0 without a dictionary", None).unwrap();
    let blob = base64::engine::general_purpose::STANDARD.encode(&plain);
    assert_eq!(
        decompress_sdp(&blob, SDP_DICTIONARY).unwrap(),
        "v=0 without a dictionary"
    );
    assert_eq!(
        choose_sdp(Some("x".to_string()), Some("v=1".to_string())).unwrap(),
        "v=1"
    );
    assert_eq!(choose_sdp(None, None).unwrap_err(), SdpError::Undecodable);
}
