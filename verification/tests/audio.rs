//! Stream settings, devices and frames.
use std::collections::VecDeque;
use teams_cli::calling::audio::{
    frame_device_samples, level_sample_msecs, mic_test_seconds, named_device_error, pick_config,
    pick_device, take_frames, take_playback, tone_frames, ConfigChoice, ConfigRange, DeviceChoice,
};

fn range(is_i16: bool, channels: u16, min_rate: u32, max_rate: u32) -> ConfigRange {
    ConfigRange { is_i16, channels, min_rate, max_rate }
}

#[test]
fn exact_settings_come_first() {
    let stereo = range(true, 2, 8000, 96000);
    let exact = range(true, 1, 8000, 16000);
    let float = range(false, 1, 8000, 48000);
    assert_eq!(
        pick_config(&vec![float, stereo, exact, exact]),
        Some(ConfigChoice::Exact(2))
    );
    assert_eq!(pick_config(&vec![float, stereo]), Some(ConfigChoice::Mono(1, 48000)));
    assert_eq!(
        pick_config(&vec![range(true, 2, 8000, 44100)]),
        Some(ConfigChoice::Mono(0, 44100))
    );
    assert_eq!(
        pick_config(&vec![range(true, 2, 8000, 22050)]),
        Some(ConfigChoice::Mono(0, 22050))
    );
    assert_eq!(
        pick_config(&vec![range(false, 2, 8000, 192000)]),
        Some(ConfigChoice::Forced(48000))
    );
    assert_eq!(
        pick_config(&vec![range(false, 2, 1000, 4000)]),
        Some(ConfigChoice::Forced(8000))
    );
    assert_eq!(pick_config(&vec![]), None);
    assert_eq!(frame_device_samples(48000), 960);
    assert_eq!(frame_device_samples(44100), 882);
}

#[test]
fn unknown_devices_are_never_rerouted() {
    let names = vec![None, Some("Mic".to_string()), Some("Mic".to_string())];
    assert_eq!(pick_device(&names, None), DeviceChoice::Default);
    assert_eq!(pick_device(&names, Some("")), DeviceChoice::Default);
    assert_eq!(pick_device(&names, Some("Mic")), DeviceChoice::Named(1));
    assert_eq!(pick_device(&names, Some("mic")), DeviceChoice::Unknown);
    assert_eq!(named_device_error("input", Some("mic")), "Unknown audio input device: mic");
    assert_eq!(named_device_error("output", Some("")), "No audio output device found");
    assert_eq!(named_device_error("output", None), "No audio output device found");
}

#[test]
fn durations_stay_in_range() {
    assert_eq!((mic_test_seconds(0), mic_test_seconds(5), mic_test_seconds(60)), (1, 5, 10));
    assert_eq!(
        (level_sample_msecs(0), level_sample_msecs(300), level_sample_msecs(9999)),
        (50, 300, 1000)
    );
    assert_eq!((tone_frames(0), tone_frames(1000), tone_frames(99999)), (5, 50, 500));
}

#[test]
fn frames_keep_every_sample() {
    let mut pending = vec![1i16];
    let frames = take_frames(&mut pending, &[2, 3, 4, 5, 6, 7], 3);
    assert_eq!(frames, vec![vec![1, 2, 3], vec![4, 5, 6]]);
    assert_eq!(pending, vec![7]);
    assert!(take_frames(&mut pending, &[8], 3).is_empty());
    assert_eq!(pending, vec![7, 8]);
}

#[test]
fn playback_is_filled_with_silence() {
    let mut ring: VecDeque<i16> = VecDeque::from(vec![1, 2, 3]);
    assert_eq!(take_playback(&mut ring, 2), vec![1, 2]);
    assert_eq!(take_playback(&mut ring, 3), vec![3, 0, 0]);
    assert!(ring.is_empty());
}
