use crossbeam_channel::{bounded, Receiver};
use green_vita::commands::{command_channel, DecoderCommand};
use green_vita::decode_loop::DecodeResult;
use green_vita::decode_worker::{QueuedAccessUnit, VideoDecodeWorker};
use green_vita::input::VideoMetadataQueue;
use green_vita::media::{AudioReceiver, VideoReceiver};
use green_vita::negotiation::{RtcSessionConfig, StreamOptions};
use green_vita::packet::{RtpExtension, RtpPacket};
use green_vita::session::{ConnectionState, PeerAction, PeerEvent, PumpInputs, SessionControl};
use green_vita::settings::H264Profile;
use green_vita::video::DecodedFrame;
use std::sync::atomic::AtomicU64;
use std::sync::Arc;

const MS: u64 = 1_000_000;
const IDR: [u8; 4] = [0x65, 0x88, 0x84, 0x21];

fn config() -> RtcSessionConfig {
    StreamOptions {
        video_fps: 60,
        video_bitrate_kbps: 15_000,
        video_h264_profile: H264Profile::Baseline,
        periodic_keyframe: false,
        decode_sleep_ms: 13,
        decode_queue_depth: 6,
        remb_auto_shock_enabled: false,
        remb_shock_drop_gap: 2,
        remb_shock_cooldown_secs: 15,
        remb_shock_duration_ms: 100,
    }
    .session_config(48_000, 111)
}

fn session_with(
    config: RtcSessionConfig,
) -> (SessionControl, Receiver<QueuedAccessUnit>, Receiver<DecoderCommand>) {
    let (access_units, units) = bounded(6);
    let (command_sender, commands) = command_channel();
    let worker = VideoDecodeWorker::new(
        access_units,
        command_sender,
        Arc::new(AtomicU64::new(0)),
        Arc::new(AtomicU64::new(0)),
        6,
    );
    let video = VideoReceiver::new(worker, 0);
    let audio = AudioReceiver::new(config.audio_sample_rate, config.audio_payload_type);
    (SessionControl::new(video, audio, config), units, commands)
}

fn open_tracks(session: &mut SessionControl) {
    session.handle_peer_event(PeerEvent::StateChanged { state: ConnectionState::Connected });
    session.handle_peer_event(PeerEvent::VideoTrackOpened { track_id: "v".to_string(), ssrc: 77 });
    session.handle_peer_event(PeerEvent::AudioTrackOpened { track_id: "a".to_string() });
}

fn packet(sequence_number: u16, timestamp: u32, marker: bool, payload: &[u8]) -> RtpPacket {
    RtpPacket {
        payload_type: 111,
        sequence_number,
        timestamp,
        marker,
        extensions: Vec::new(),
        payload: payload.to_vec(),
    }
}

fn inputs(now_ms: u64) -> PumpInputs {
    PumpInputs { now_ns: now_ms * MS, remb_bps: 15_000_000, receiver_present: true, lag_us: 0 }
}

#[test]
fn events_set_the_status() {
    let (mut session, _units, _commands) = session_with(config());
    assert_eq!(session.status(), "Negotiating WebRTC connection");
    assert_eq!(session.connection_state(), ConnectionState::New);
    let states = [
        (ConnectionState::Unspecified, "WebRTC connection: Unspecified"),
        (ConnectionState::New, "WebRTC connection: New"),
        (ConnectionState::Connecting, "WebRTC connection: Connecting"),
        (ConnectionState::Connected, "WebRTC connection: Connected"),
        (ConnectionState::Disconnected, "WebRTC connection: Disconnected"),
        (ConnectionState::Failed, "WebRTC connection: Failed"),
        (ConnectionState::Closed, "WebRTC connection: Closed"),
    ];
    for (state, status) in states {
        assert_eq!(session.handle_peer_event(PeerEvent::StateChanged { state }), PeerAction::Nothing);
        assert_eq!((session.status(), session.connection_state()), (status, state));
    }
    let video = PeerEvent::VideoTrackOpened { track_id: "v".to_string(), ssrc: 1 };
    assert_eq!(session.handle_peer_event(video), PeerAction::Nothing);
    assert_eq!(session.status(), "Receiving video track");
    let audio = PeerEvent::AudioTrackOpened { track_id: "a".to_string() };
    assert_eq!(session.handle_peer_event(audio), PeerAction::Nothing);
    assert_eq!(session.status(), "Receiving audio track");
    assert_eq!(session.handle_peer_event(PeerEvent::CandidateGathered), PeerAction::PassCandidate);
    assert_eq!(session.handle_peer_event(PeerEvent::CandidateFailed), PeerAction::LogCandidateError);
    assert_eq!(
        session.handle_peer_event(PeerEvent::ChannelOpened { channel_id: 4 }),
        PeerAction::GreetChannel { channel_id: 4 }
    );
    assert_eq!(session.handle_peer_event(PeerEvent::Other), PeerAction::Nothing);
}

#[test]
fn packets_go_to_their_track() {
    let (mut session, units, _commands) = session_with(config());
    let mut metadata = VideoMetadataQueue::new();
    let mut keyframe = false;
    open_tracks(&mut session);
    let sample = session
        .receive_packet("v", packet(1, 3_000, true, &IDR), 0, 5 * MS, &mut keyframe, &mut metadata)
        .unwrap();
    assert_eq!(sample.frame, Some((3_000, 5 * MS)));
    assert_eq!(units.len(), 1);
    assert!(metadata.due(35 * MS) && !metadata.due(34 * MS));
    for sequence in 1..4u16 {
        let sample = session.receive_packet(
            "a",
            packet(sequence, sequence as u32 * 960, false, &[sequence as u8]),
            0,
            0,
            &mut keyframe,
            &mut metadata,
        );
        assert!(sample.is_none());
    }
    assert_eq!(session.take_audio_packets(), vec![vec![1], vec![2]]);
    let other =
        session.receive_packet("x", packet(1, 9_000, true, &IDR), 0, 0, &mut keyframe, &mut metadata);
    assert!(other.is_none());
    assert_eq!(units.len(), 1);
    assert!(session.video().received_packet());
    assert!(!keyframe);
}

#[test]
fn a_frame_the_decoder_refuses_gets_no_report() {
    let (mut session, units, _commands) = session_with(config());
    let mut metadata = VideoMetadataQueue::new();
    let mut keyframe = false;
    open_tracks(&mut session);
    drop(units);
    session.receive_packet("v", packet(1, 3_000, true, &IDR), 0, 0, &mut keyframe, &mut metadata);
    assert!(keyframe);
    assert!(!metadata.due(u64::MAX));
    assert_eq!(session.video().total_drops(), 1);
}

#[test]
fn keyframe_requests_keep_their_distance() {
    let (mut session, _units, _commands) = session_with(config());
    assert!(!session.request_keyframe(false, 0));
    let mut granted = Vec::new();
    for now_ms in 0..9_000u64 {
        if session.request_keyframe(true, now_ms * MS) {
            granted.push(now_ms);
        }
    }
    assert_eq!(granted, vec![0, 300, 600, 2_600, 4_300, 4_600, 6_600, 8_300, 8_600]);
}

#[test]
fn the_first_packet_is_watched_for() {
    let (mut session, _units, _commands) = session_with(config());
    assert!(!session.initial_video_keyframe_due(0));
    session.handle_peer_event(PeerEvent::StateChanged { state: ConnectionState::Connected });
    let due: Vec<u64> =
        (100..1_700).filter(|ms| session.initial_video_keyframe_due(ms * MS)).collect();
    assert_eq!(due, vec![600, 1_100, 1_600]);
    open_tracks(&mut session);
    let mut keyframe = false;
    let mut metadata = VideoMetadataQueue::new();
    session.receive_packet("v", packet(1, 3_000, true, &IDR), 0, 0, &mut keyframe, &mut metadata);
    assert!(!session.initial_video_keyframe_due(9_000 * MS));
}

#[test]
fn a_lasting_backlog_is_flushed() {
    let (mut session, _units, _commands) = session_with(config());
    assert!(session.maybe_flush_backlog(200_000, 0).is_none());
    open_tracks(&mut session);
    assert!(session.maybe_flush_backlog(150_000, 1_000 * MS).is_none());
    assert!(session.maybe_flush_backlog(149_999, 1_500 * MS).is_none());
    assert!(session.maybe_flush_backlog(150_000, 2_000 * MS).is_none());
    assert!(session.maybe_flush_backlog(150_000, 2_999 * MS).is_none());
    let flush = session.maybe_flush_backlog(170_000, 3_000 * MS).unwrap();
    assert_eq!((flush.lag_us, flush.drops_since_flush, flush.total_drops), (170_000, 0, 0));
    for now_ms in [3_001u64, 5_000, 12_999] {
        assert!(session.maybe_flush_backlog(170_000, now_ms * MS).is_none());
    }
    assert!(session.maybe_flush_backlog(170_000, 13_000 * MS).is_some());
}

#[test]
fn many_losses_are_a_backlog() {
    let (mut session, units, _commands) = session_with(config());
    let mut keyframe = false;
    let mut metadata = VideoMetadataQueue::new();
    open_tracks(&mut session);
    drop(units);
    for i in 0..25u16 {
        session.receive_packet(
            "v",
            packet(i, 3_000 * (i as u32 + 1), true, &IDR),
            0,
            0,
            &mut keyframe,
            &mut metadata,
        );
    }
    assert!(session.maybe_flush_backlog(0, 0).is_none());
    let flush = session.maybe_flush_backlog(0, 1_000 * MS).unwrap();
    assert_eq!((flush.drops_since_flush, flush.total_drops), (25, 25));
    assert!(session.maybe_flush_backlog(0, 60_000 * MS).is_none());
}

#[test]
fn regular_keyframes_where_that_is_set() {
    let mut periodic = config();
    periodic.periodic_keyframe_enabled = true;
    let (mut session, _units, _commands) = session_with(periodic);
    assert!(!session.periodic_keyframe_due(0));
    open_tracks(&mut session);
    let due: Vec<u64> = (0..600).filter(|ms| session.periodic_keyframe_due(ms * MS)).collect();
    assert_eq!(due, vec![0, 200, 400]);
    let (mut session, _units, _commands) = session_with(config());
    open_tracks(&mut session);
    assert!(!session.periodic_keyframe_due(0));
}

#[test]
fn losses_shock_the_bitrate_where_that_is_set() {
    let mut shocking = config();
    shocking.remb_auto_shock_enabled = true;
    let (mut session, units, _commands) = session_with(shocking);
    let mut keyframe = false;
    let mut metadata = VideoMetadataQueue::new();
    open_tracks(&mut session);
    drop(units);
    assert!(!session.shock_if_due(0));
    for i in 0..4u16 {
        session.receive_packet(
            "v",
            packet(i, 3_000 * (i as u32 + 1), true, &IDR),
            0,
            0,
            &mut keyframe,
            &mut metadata,
        );
        if i == 1 {
            assert!(session.shock_if_due(1_000 * MS));
            assert!(session.video().remb_shock_active());
        }
    }
    assert!(!session.shock_if_due(15_999 * MS));
    let actions = session.pump(&vec![], false, inputs(16_000));
    assert!(actions.shocked);
    assert_eq!(actions.estimate.unwrap().bitrate_bps, 100_000);
    assert!(session.pump(&vec![], false, inputs(16_050)).estimate.is_none());
    let actions = session.pump(&vec![], false, inputs(16_500));
    assert_eq!(actions.estimate.unwrap().bitrate_bps, 15_000_000);
    assert!(!session.video().remb_shock_active());
}

#[test]
fn one_turn_finds_what_is_due() {
    let (mut session, _units, commands) = session_with(config());
    let mut keyframe = false;
    let mut metadata = VideoMetadataQueue::new();
    let actions = session.pump(&vec![], false, inputs(0));
    assert!(actions.estimate.is_none() && actions.feedback.is_none() && actions.window.is_none());
    open_tracks(&mut session);
    let mut noted = packet(1, 3_000, true, &IDR);
    noted.extensions.push(RtpExtension { id: 3, payload: vec![0, 9] });
    session.receive_packet("v", noted, 3, 0, &mut keyframe, &mut metadata);
    let frame = DecodedFrame { texture_index: 1, generation: 4, published_at_ns: 0 };
    let actions = session.pump(&vec![Ok(frame), Ok(frame)], false, inputs(1_000));
    assert!(!actions.ask_keyframe && !actions.initial_keyframe && !actions.periodic_keyframe);
    let estimate = actions.estimate.unwrap();
    assert_eq!((estimate.sender_ssrc, estimate.bitrate_bps, estimate.media_ssrc), (1, 15_000_000, 77));
    let feedback = actions.feedback.unwrap();
    assert_eq!((feedback.sender_ssrc, feedback.fb_pkt_count), (1, 0));
    assert_eq!((feedback.report.media_ssrc, feedback.report.base_sequence_number), (77, 9));
    let window = actions.window.unwrap();
    assert_eq!((window.elapsed_ns, window.received_bytes, window.twcc_stride), (1_000 * MS, 16, 0));
    assert_eq!(session.video().latest_frame(), Some((2, frame)));
    assert_eq!(session.video().request_keyframe().unwrap().media_ssrc, 77);

    let failed: DecodeResult = Err("bad".to_string());
    let actions = session.pump(&vec![failed], false, inputs(1_001));
    assert!(actions.ask_keyframe);
    assert_eq!(commands.try_recv().unwrap(), DecoderCommand::Reset);
    session.set_status(Some((1280, 720)), "perf:1", "hs:ready in:y");
    assert_eq!(
        session.status(),
        "srv:1280x720 enc:? srcfps:0 perf:1 wait:1 drop:0 err:1 hs:ready in:y"
    );
    session.set_status(None, "p", "d");
    assert_eq!(session.status(), "srv:? enc:? srcfps:0 p wait:1 drop:0 err:1 d");
}

#[test]
fn transport_feedback_goes_out_by_time_or_by_count() {
    let (mut session, _units, _commands) = session_with(config());
    let mut keyframe = false;
    let mut metadata = VideoMetadataQueue::new();
    open_tracks(&mut session);
    let mut send = |session: &mut SessionControl, count: u16| {
        for i in 0..count {
            let mut noted = packet(i, 3_000, false, &[]);
            noted.extensions.push(RtpExtension { id: 3, payload: vec![0, i as u8] });
            session.receive_packet("v", noted, 3, 0, &mut keyframe, &mut metadata);
        }
    };
    send(&mut session, 1);
    assert_eq!(session.pump(&vec![], false, inputs(100)).feedback.unwrap().fb_pkt_count, 0);
    send(&mut session, 7);
    assert!(session.pump(&vec![], false, inputs(114)).feedback.is_none());
    send(&mut session, 1);
    assert_eq!(session.pump(&vec![], false, inputs(114)).feedback.unwrap().fb_pkt_count, 1);
    send(&mut session, 1);
    let absent = PumpInputs { receiver_present: false, ..inputs(129) };
    assert!(session.pump(&vec![], false, absent).feedback.is_none());
    assert!(session.pump(&vec![], false, inputs(200)).feedback.is_none());
    send(&mut session, 1);
    assert_eq!(session.pump(&vec![], false, inputs(200)).feedback.unwrap().fb_pkt_count, 2);
}

#[test]
fn a_shock_sends_its_low_estimate_at_once() {
    let (access_units, _units) = bounded(6);
    let (command_sender, _commands) = command_channel();
    let worker = VideoDecodeWorker::new(
        access_units,
        command_sender,
        Arc::new(AtomicU64::new(0)),
        Arc::new(AtomicU64::new(0)),
        6,
    );
    let mut video = VideoReceiver::new(worker, 0);
    video.trigger_remb_shock(0, 100 * MS);
    assert!(video.send_remb(1 * MS, 15_000_000).is_none());
    video.open("v".to_string(), 77);
    assert_eq!(video.send_remb(1_000 * MS, 15_000_000).unwrap().bitrate_bps, 15_000_000);
    video.trigger_remb_shock(1_001 * MS, 100 * MS);
    let mut sent = Vec::new();
    for at in (1_010..=1_600).step_by(10) {
        if let Some(estimate) = video.send_remb(at * MS, 15_000_000) {
            sent.push((at, estimate.bitrate_bps));
        }
    }
    assert_eq!(sent, vec![(1_010, 100_000), (1_510, 15_000_000)]);
    assert!(!video.remb_shock_active());
}
