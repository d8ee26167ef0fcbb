//! Camera frames.
use base64::Engine;
use teams_cli::calling::macav::{
    bgra_to_i420, black_iframe_b64, convert_to_i420, dry_run_material, nv12_to_i420, CameraPump,
    I420Frame, PixFmt, RemoteSlot,
};

#[test]
fn pixfmt_parses_avfoundation_names() {
    assert_eq!(PixFmt::parse("i420").unwrap(), PixFmt::I420);
    assert_eq!(PixFmt::parse("420v").unwrap(), PixFmt::Nv12);
    assert_eq!(PixFmt::parse("32BGRA").unwrap(), PixFmt::Bgra);
    assert!(PixFmt::parse("mjpeg").is_err());
    assert_eq!(PixFmt::parse("MJPEG").unwrap_err(), "unsupported pixel format: mjpeg");
}

#[test]
fn nv12_splits_uv_planes() {
    let nv12 = vec![10, 11, 12, 13, 100, 150];
    let i420 = nv12_to_i420(&nv12, 2, 2).unwrap();
    assert_eq!(i420.len(), 6);
    assert_eq!(&i420[..4], &[10, 11, 12, 13]);
    assert_eq!(i420[4], 100); // U
    assert_eq!(i420[5], 150); // V
}

#[test]
fn nv12_rejects_odd_or_short() {
    assert!(nv12_to_i420(&[0u8; 6], 3, 2).is_err());
    assert!(nv12_to_i420(&[0u8; 3], 2, 2).is_err());
}

#[test]
fn bgra_black_and_white_map() {
    let black = vec![0u8, 0, 0, 255].repeat(4);
    let i420 = bgra_to_i420(&black, 2, 2).unwrap();
    assert_eq!(i420.len(), 6);
    assert_eq!(&i420[..4], &[0, 0, 0, 0]);
    assert_eq!(i420[4], 128); // U neutral
    assert_eq!(i420[5], 128); // V neutral

    let white = vec![255u8, 255, 255, 255].repeat(4);
    let i420 = bgra_to_i420(&white, 2, 2).unwrap();
    assert!(i420[..4].iter().all(|&y| y >= 250));
}

#[test]
fn bgra_red_has_warm_chroma() {
    let red = vec![0u8, 0, 255, 255].repeat(4);
    let i420 = bgra_to_i420(&red, 2, 2).unwrap();
    assert!(i420[5] > 128, "V={} U={}", i420[5], i420[4]);
    assert!(i420[4] < 128, "V={} U={}", i420[5], i420[4]);
}

#[test]
fn pump_counts_frames_and_drops() {
    let mut pump = CameraPump::new();
    pump.push(&[0u8; 6], 2, 2, PixFmt::I420);
    assert_eq!(pump.stats().dropped, 1);

    pump.begin(320, 240, 15);
    assert_eq!(pump.stats().dropped, 0);
    let i420 = vec![0u8; 320 * 240 * 3 / 2];
    pump.push(&i420, 320, 240, PixFmt::I420);
    pump.push(&[0u8; 4], 320, 240, PixFmt::I420); // short -> drop
    pump.push(&vec![0u8; 320 * 240 * 3 / 2], 320, 240, PixFmt::Nv12);
    pump.push(&vec![0u8; 320 * 240 * 4], 320, 240, PixFmt::Bgra);

    let s = pump.stats();
    assert!(s.running);
    assert_eq!(s.frames, 3);
    assert_eq!(s.dropped, 1); // short buffer
    assert_eq!(s.last_bytes, 320 * 240 * 3 / 2);
    assert!(pump.latest().is_some());

    pump.end();
    assert!(!pump.stats().running);
    assert!(pump.latest().is_none());
}

#[test]
fn an_ended_pump_only_drops() {
    let mut pump = CameraPump::new();
    pump.begin(2, 2, 15);
    pump.push(&[1u8; 6], 2, 2, PixFmt::I420);
    pump.push(&[1u8; 5], 2, 2, PixFmt::I420);
    pump.end();
    for k in 1..4 {
        pump.push(&[1u8; 6], 2, 2, PixFmt::I420);
        let s = pump.stats();
        assert!(!s.running);
        assert!(pump.latest().is_none());
        assert_eq!((s.width, s.height, s.fps_want), (2, 2, 15));
        assert_eq!((s.frames, s.dropped, s.last_bytes), (1, 1 + k, 0));
    }
    // Only the counter that grows has to have room.
    pump.frames = u64::MAX;
    pump.push(&[1u8; 6], 2, 2, PixFmt::I420);
    assert_eq!(pump.stats().dropped, 5);
}

#[test]
fn remote_slot_take_drains() {
    let mut slot = RemoteSlot::new();
    assert!(!slot.has_frame());
    assert!(slot.take().is_none());
    slot.push(I420Frame {
        width: 2,
        height: 2,
        data: vec![1, 2, 3, 4, 5, 6],
    });
    assert!(slot.has_frame());
    let f = slot.take().unwrap();
    assert_eq!(f.width, 2);
    assert_eq!(f.data, vec![1, 2, 3, 4, 5, 6]);
    assert!(!slot.has_frame());
}

#[test]
fn black_iframe_is_sps_pps_idr() {
    let nals = black_iframe_b64(&vec![vec![0x67, 1, 2], vec![0x68, 3], vec![0x65, 4, 5, 6]]);
    assert_eq!(nals.len(), 3);
    let raw: Vec<Vec<u8>> = nals
        .iter()
        .map(|s| base64::engine::general_purpose::STANDARD.decode(s).unwrap())
        .collect();
    assert_eq!(raw[0][0] & 0x1F, 7); // SPS
    assert_eq!(raw[1][0] & 0x1F, 8); // PPS
    assert_eq!(raw[2][0] & 0x1F, 5); // IDR
}

#[test]
fn converted_frames_have_the_planar_length() {
    for (w, h) in [(2u32, 2u32), (4, 2), (6, 4)] {
        let n = I420Frame::expected_len(w, h);
        assert_eq!(n, (w * h * 3 / 2) as usize);
        for (fmt, len) in [(PixFmt::I420, n), (PixFmt::Nv12, n), (PixFmt::Bgra, (w * h * 4) as usize)] {
            assert_eq!(convert_to_i420(&vec![7u8; len], w, h, fmt).unwrap().len(), n);
        }
    }
    let refused = |data: &[u8], w: u32, h: u32, fmt: PixFmt| {
        convert_to_i420(data, w, h, fmt).unwrap_err()
    };
    assert_eq!(refused(&[0; 3], 2, 2, PixFmt::I420), "i420 too small: 3 bytes, need 6");
    assert_eq!(refused(&[0; 3], 2, 2, PixFmt::Nv12), "nv12 too small: 3 bytes, need 6");
    assert_eq!(refused(&[0; 15], 2, 2, PixFmt::Bgra), "bgra too small: 15 bytes, need 16");
    assert_eq!(refused(&[0; 9], 3, 2, PixFmt::Nv12), "nv12 needs even nonzero dims, got 3x2");
    assert_eq!(refused(&[0; 16], 0, 2, PixFmt::Bgra), "bgra needs even nonzero dims, got 0x2");
    assert_eq!(
        refused(&[], 4294967294, 4294967294, PixFmt::Bgra),
        "bgra too small: 0 bytes, need 73786976226118729744"
    );
}

#[test]
fn dry_run_material_names_its_line() {
    let line = dry_run_material(2, 9);
    assert!(line.contains("2"), "{}", line);
    assert!(line.contains("inline:"), "{}", line);
}
