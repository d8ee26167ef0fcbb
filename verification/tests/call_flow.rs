//! A call from its creation to its end.
use teams_cli::calling::call_flow::{
    choose_picture, spawn_media_leg, CallRun, CallStage, DatagramStep, PacketFate, Report, Section,
};
use teams_cli::calling::call_test::{
    AudioSource, CallAcceptanceResponse, CallPlan, Datagram, MediaLeg, SendClock,
};
use teams_cli::calling::turn::{IpAddress, SocketAddress};

fn plan(callee: Option<&str>, one_to_one: bool) -> CallPlan {
    CallPlan {
        caller_mri: "8:orgid:me".to_string(),
        caller_oid: "me".to_string(),
        thread_id: "19:x".to_string(),
        callee_mri: callee.map(|c| c.to_string()),
        is_1to1_call: one_to_one,
        tenant_id: "T".to_string(),
    }
}

fn answer(ack: bool, leg: bool, end: bool) -> CallAcceptanceResponse {
    let url = |on: bool| if on { Some("https://u".to_string()) } else { None };
    CallAcceptanceResponse {
        sdp_blob: Some("v=0".to_string()),
        end_url: url(end),
        rejection_reason: None,
        acknowledgement_url: url(ack),
        call_leg_url: url(leg),
        apply_channel_params_url: None,
    }
}

#[test]
fn recorded_calls_go_through_every_stage() {
    let mut run = CallRun::new(&plan(Some("8:orgid:you"), false), false, true);
    assert_eq!(run.stage, CallStage::CreateConversation);
    run.on_created(Ok("https://cc".to_string()));
    assert_eq!((run.stage, run.controller.as_str()), (CallStage::Join, "https://cc"));
    run.on_joined(Ok(()));
    assert_eq!(run.stage, CallStage::InviteUser);
    run.on_invited(Ok(()));
    assert_eq!(run.stage, CallStage::Answer);
    run.on_answer(Some(answer(true, true, true)));
    assert_eq!(run.stage, CallStage::Acknowledge);
    assert_eq!(run.remote_sdp(), "v=0");
    run.on_step_done();
    assert_eq!(run.stage, CallStage::Register);
    run.on_step_done();
    assert_eq!(run.stage, CallStage::Media);
    run.on_media(true);
    assert_eq!(run.stage, CallStage::Run);
    run.on_time_over(true);
    assert_eq!(run.stage, CallStage::StopRecording);
    run.on_step_done();
    assert_eq!(run.stage, CallStage::HangUp);
    run.on_step_done();
    assert_eq!(run.stage, CallStage::Done);
}

#[test]
fn short_calls_skip_what_was_not_named() {
    let mut run = CallRun::new(&plan(None, true), true, false);
    assert_eq!(run.stage, CallStage::CreateOneToOne);
    run.on_created(Ok("c".to_string()));
    assert_eq!(run.stage, CallStage::InviteEcho);
    run.on_invited(Ok(()));
    run.on_answer(Some(answer(false, false, false)));
    assert_eq!(run.stage, CallStage::Media);
    run.on_media(true);
    run.on_time_over(true);
    assert_eq!(run.stage, CallStage::Done);
}

#[test]
fn calls_end_where_they_fail() {
    let mut run = CallRun::new(&plan(None, false), false, false);
    run.on_created(Err("no conversation".to_string()));
    assert_eq!((run.stage, run.error.as_str()), (CallStage::Failed, "no conversation"));
    let mut run = CallRun::new(&plan(None, false), false, false);
    run.on_created(Ok("c".to_string()));
    run.on_joined(Err("no join".to_string()));
    assert_eq!((run.stage, run.error.as_str()), (CallStage::Failed, "no join"));
    let mut run = CallRun::new(&plan(None, false), false, false);
    run.on_created(Ok("c".to_string()));
    run.on_joined(Ok(()));
    assert_eq!(run.stage, CallStage::Answer);
    run.on_answer(Some(CallAcceptanceResponse::rejected("busy".to_string())));
    assert_eq!((run.stage, run.reason.as_deref()), (CallStage::Rejected, Some("busy")));
    let mut run = CallRun::new(&plan(Some("8:x"), true), false, false);
    run.on_created(Ok("c".to_string()));
    run.on_invited(Err("no invite".to_string()));
    assert_eq!(run.error, "no invite");
    let mut run = CallRun::new(&plan(None, true), false, false);
    run.on_created(Ok("c".to_string()));
    run.on_answer(None);
    assert_eq!((run.stage, run.reason.as_deref()), (CallStage::Rejected, None));
    let mut run = CallRun::new(&plan(None, true), false, false);
    run.on_created(Ok("c".to_string()));
    run.on_answer(Some(answer(false, false, true)));
    run.on_media(false);
    assert_eq!(run.error, "Failed to set up outgoing media leg");
}

fn addr(d: u8) -> SocketAddress {
    SocketAddress { ip: IpAddress::V4([10, 0, 0, d]), port: 9 }
}

#[test]
fn sections_follow_checks_and_count_packets() {
    let mut s = Section::new(5, addr(1), true);
    assert_eq!(s.on_datagram(addr(2), Datagram::CheckRequest), DatagramStep::AnswerCheck);
    assert_eq!(s.remote, addr(2));
    assert_eq!(s.on_datagram(addr(3), Datagram::Control), DatagramStep::ReadReports);
    assert_eq!(s.on_datagram(addr(3), Datagram::Media), DatagramStep::ReadPacket);
    assert_eq!(s.on_datagram(addr(3), Datagram::OtherStun), DatagramStep::Drop);
    assert_eq!(s.on_datagram(addr(3), Datagram::Unreadable), DatagramStep::Drop);
    assert_eq!(s.remote, addr(2));
    s.on_audio_packet(PacketFate::Unprotected);
    s.on_audio_packet(PacketFate::Lost);
    s.on_audio_packet(PacketFate::Sent(160));
    assert_eq!(s.clock, SendClock { seq: 2, timestamp: 320 });
    assert_eq!((s.sent.packets_sent, s.sent.bytes_sent, s.sent.last_rtp_timestamp), (1, 160, 160));
    s.sent.packets_sent = u32::MAX;
    s.on_audio_packet(PacketFate::Lost);
    assert_eq!((s.clock.seq, s.sent.packets_sent), (3, u32::MAX));
}

#[test]
fn sections_keep_what_they_hear() {
    let mut s = Section::new(5, addr(1), false);
    assert_eq!(s.report(), Report::Receiver);
    s.on_packet(7, 0);
    s.on_packet(9, 21);
    s.on_packet(8, 22);
    s.on_reports(&[1 << 16, 2 << 16]);
    assert_eq!(
        (s.heard.packets_received, s.heard.highest_seq, s.heard.remote_ssrc, s.heard.last_sr_ntp),
        (3, 9, 21, 2)
    );
    s.on_reports(&[]);
    assert_eq!(s.heard.last_sr_ntp, 2);
    s.on_video_packet(&[0, 0, 0, 0, 0, 0, 1, 0, 9, 9, 9, 9, 5, 5], 12, false);
    assert_eq!(s.report(), Report::Receiver);
    s.on_video_packet(&[0, 0, 0, 0, 0, 0, 1, 0, 9, 9, 9, 9, 5, 5], 12, true);
    assert_eq!(s.report(), Report::Sender);
    assert_eq!((s.sent.packets_sent, s.sent.bytes_sent, s.sent.last_rtp_timestamp), (1, 2, 256));
    assert_eq!(s.on_datagram(addr(9), Datagram::CheckRequest), DatagramStep::AnswerCheck);
    assert_eq!(s.remote, addr(1));
}

#[test]
fn pictures_fall_back_to_black() {
    let black = || vec![vec![0u8]];
    let live = || Some(vec![vec![1u8]]);
    assert_eq!(choose_picture(Some(320), live(), black()), vec![vec![1]]);
    assert_eq!(choose_picture(Some(0), live(), black()), black());
    assert_eq!(choose_picture(Some(320), Some(vec![]), black()), black());
    assert_eq!(choose_picture(Some(320), None, black()), black());
    assert_eq!(choose_picture(None, live(), black()), black());
}

#[test]
fn legs_send_video_where_it_can_go() {
    let mut leg = MediaLeg {
        audio_remote: addr(1),
        audio_crypto: 0,
        video_crypto: Some(0),
        video_remote: Some(addr(2)),
    };
    let l = spawn_media_leg(&leg, 1, 2, false, true);
    assert_eq!(l.source, AudioSource::Microphone);
    assert!(l.audio.follows_checks);
    let v = l.video.unwrap();
    assert_eq!((v.remote, v.sent.ssrc, v.follows_checks), (addr(2), 2, false));
    leg.video_remote = None;
    assert!(spawn_media_leg(&leg, 1, 2, true, true).video.is_none());
}
