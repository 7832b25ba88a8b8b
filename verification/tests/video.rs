use crossbeam_channel::{bounded, Receiver};
use green_vita::commands::{command_channel, DecoderCommand};
use green_vita::decode_worker::{source_fps, QueuedAccessUnit, SubmitOutcome, VideoDecodeWorker};
use green_vita::frame::{FrameAssembly, PendingVideoFrame};
use green_vita::h264::{inspect_calls, inspect_h264_access_unit, AccessUnitInfo, NalCall};
use green_vita::packet::{timestamp_is_newer, RtpExtension, RtpPacket};
use green_vita::video_rtp::{
    settle_submission, FrameOutcome, Verdict, VideoRtp, VideoSampleStats,
};
use std::sync::atomic::{AtomicU64, Ordering};
use std::sync::Arc;

const MS: u64 = 1_000_000;

struct Bench {
    worker: VideoDecodeWorker,
    units: Receiver<QueuedAccessUnit>,
    commands: Receiver<DecoderCommand>,
    generation: Arc<AtomicU64>,
    pace: Arc<AtomicU64>,
}

fn bench(depth: usize) -> Bench {
    let (access_units, units) = bounded(depth);
    let (command_sender, commands) = command_channel();
    let generation = Arc::new(AtomicU64::new(9));
    let pace = Arc::new(AtomicU64::new(9));
    let worker = VideoDecodeWorker::new(
        access_units,
        command_sender,
        Arc::clone(&generation),
        Arc::clone(&pace),
        depth,
    );
    Bench { worker, units, commands, generation, pace }
}

fn packet(sequence_number: u16, timestamp: u32, marker: bool, payload: &[u8]) -> RtpPacket {
    RtpPacket {
        payload_type: 102,
        sequence_number,
        timestamp,
        marker,
        extensions: Vec::new(),
        payload: payload.to_vec(),
    }
}

fn push_bits(bits: &mut Vec<bool>, value: u32, count: u32) {
    for i in (0..count).rev() {
        bits.push((value >> i) & 1 == 1);
    }
}

fn push_golomb(bits: &mut Vec<bool>, value: u32) {
    let code = value + 1;
    let length = 32 - code.leading_zeros();
    push_bits(bits, 0, length - 1);
    push_bits(bits, code, length);
}

/// A sequence parameter set of the baseline profile with the given picture size.
fn sps(width: u32, height: u32) -> Vec<u8> {
    let mut bits = Vec::new();
    push_bits(&mut bits, 66, 8);
    push_bits(&mut bits, 0xc0, 8);
    push_bits(&mut bits, 51, 8);
    push_golomb(&mut bits, 0);
    push_golomb(&mut bits, 0);
    push_golomb(&mut bits, 2);
    push_golomb(&mut bits, 1);
    push_bits(&mut bits, 0, 1);
    push_golomb(&mut bits, width / 16 - 1);
    push_golomb(&mut bits, height / 16 - 1);
    push_bits(&mut bits, 1, 1);
    push_bits(&mut bits, 1, 1);
    push_bits(&mut bits, 0, 1);
    push_bits(&mut bits, 0, 1);
    push_bits(&mut bits, 1, 1);
    while bits.len() % 8 != 0 {
        bits.push(false);
    }
    let mut unit = vec![0x67u8];
    for byte in bits.chunks(8) {
        unit.push(byte.iter().fold(0u8, |byte, bit| byte * 2 + u8::from(*bit)));
    }
    unit
}

/// An aggregate packet of several units.
fn aggregate(units: &[Vec<u8>]) -> Vec<u8> {
    let mut payload = vec![0x78u8];
    for unit in units {
        payload.extend_from_slice(&(unit.len() as u16).to_be_bytes());
        payload.extend_from_slice(unit);
    }
    payload
}

fn annexb(units: &[Vec<u8>]) -> Vec<u8> {
    let mut data = Vec::new();
    for unit in units {
        data.extend_from_slice(&[0, 0, 0, 1]);
        data.extend_from_slice(unit);
    }
    data
}

const IDR: [u8; 4] = [0x65, 0x88, 0x84, 0x21];
const SLICE: [u8; 4] = [0x41, 0x9a, 0x21, 0x6c];

#[test]
fn compares_timestamps_round_the_circle() {
    assert!(timestamp_is_newer(1, 0));
    assert!(!timestamp_is_newer(0, 0));
    assert!(timestamp_is_newer(3, u32::MAX));
    assert!(!timestamp_is_newer(u32::MAX, 3));
    assert!(!timestamp_is_newer(0x8000_0000, 0) && !timestamp_is_newer(0, 0x8000_0000));
}

#[test]
fn reads_picture_size_and_keyframe_out_of_an_access_unit() {
    let data = annexb(&[sps(1280, 720), IDR.to_vec()]);
    let info = inspect_h264_access_unit(&data);
    assert!(info.has_idr);
    assert_eq!(info.resolution, Some((1280, 720)));
    let info = inspect_h264_access_unit(&annexb(&[SLICE.to_vec()]));
    assert!(!info.has_idr);
    assert_eq!(info.resolution, None);
    let info = inspect_h264_access_unit(&annexb(&[sps(640, 480), sps(1920, 1088)]));
    assert_eq!(info.resolution, Some((1920, 1088)));
}

#[test]
fn looks_at_completed_units_only() {
    let calls = vec![
        NalCall { complete: false, unit: IDR.to_vec() },
        NalCall { complete: true, unit: sps(320, 240) },
        NalCall { complete: true, unit: vec![0x67, 0xff] },
        NalCall { complete: true, unit: vec![] },
        NalCall { complete: true, unit: vec![0xe5] },
    ];
    let info = inspect_calls(&calls);
    assert!(!info.has_idr);
    assert_eq!(info.resolution, None);
    let info = inspect_calls(&calls[..2].iter().map(|call| NalCall { complete: true, unit: call.unit.clone() }).collect());
    assert!(info.has_idr);
    assert_eq!(info.resolution, Some((320, 240)));
}

#[test]
fn assembles_a_frame_whatever_the_order() {
    let unit = sps(1280, 720);
    let fragments: Vec<Vec<u8>> =
        vec![vec![0x7c, 0x85, 1, 2, 3], vec![0x7c, 0x05, 4, 5], vec![0x7c, 0x45, 6]];
    for order in [[0usize, 1, 2, 3], [3, 1, 0, 2], [2, 3, 1, 0]] {
        let mut packets = vec![packet(65_534, 7, false, &unit)];
        for (i, fragment) in fragments.iter().enumerate() {
            packets.push(packet((65_535 + i) as u16, 7, i == 2, fragment));
        }
        let mut frame = PendingVideoFrame::new(packets[order[0]].clone(), 5);
        for i in &order[1..] {
            frame.insert(packets[*i].clone());
            frame.insert(packets[*i].clone());
        }
        assert_eq!(frame.marker_sequence(), Some(1));
        match frame.assemble(Some(65_534)) {
            FrameAssembly::Complete { data, marker_sequence } => {
                assert_eq!(marker_sequence, 1);
                assert_eq!(data, annexb(&[unit.clone(), vec![0x65, 1, 2, 3, 4, 5, 6]]));
            }
            other => panic!("{:?}", other),
        }
        assert!(matches!(frame.assemble(Some(65_533)), FrameAssembly::Pending));
    }
}

#[test]
fn waits_for_missing_packets_and_for_the_start_of_a_unit() {
    let mut frame = PendingVideoFrame::new(packet(10, 7, false, &SLICE), 5);
    assert!(matches!(frame.assemble(None), FrameAssembly::Pending));
    frame.insert(packet(12, 7, true, &SLICE));
    assert!(matches!(frame.assemble(None), FrameAssembly::Pending));
    frame.insert(packet(11, 7, false, &SLICE));
    assert!(matches!(frame.assemble(None), FrameAssembly::Complete { .. }));
    let middle = PendingVideoFrame::new(packet(10, 7, true, &[0x7c, 0x05, 1]), 5);
    assert!(matches!(middle.assemble(None), FrameAssembly::Pending));
    assert_eq!((middle.timestamp(), middle.first_packet_at_ns()), (7, 5));
}

#[test]
fn rejects_what_is_no_access_unit() {
    let reserved = PendingVideoFrame::new(packet(10, 7, true, &[0x1e, 1, 2]), 5);
    assert!(matches!(reserved.assemble(None), FrameAssembly::Invalid));
    let cut = PendingVideoFrame::new(packet(10, 7, true, &[0x78, 0, 1, 0x41, 0]), 5);
    assert!(matches!(cut.assemble(None), FrameAssembly::Invalid));
    let mut large = PendingVideoFrame::new(packet(0, 7, false, &[0x41; 60_000]), 5);
    for i in 1..36u16 {
        large.insert(packet(i, 7, i == 35, &[0x41; 60_000]));
    }
    assert!(matches!(large.assemble(None), FrameAssembly::Invalid));
}

#[test]
fn hands_a_whole_frame_to_the_decoder() {
    let mut bench = bench(6);
    let mut rtp = VideoRtp::new();
    let mut keyframe = false;
    let payload = aggregate(&[sps(1280, 720), IDR.to_vec()]);
    let stats =
        rtp.receive(&mut bench.worker, packet(5, 900, true, &payload), 0, 30 * MS, &mut keyframe);
    assert_eq!(stats.outcome, FrameOutcome::Submitted { outcome: SubmitOutcome::Sent });
    assert_eq!((stats.dropped, keyframe, stats.resynced), (0, false, false));
    assert_eq!(stats.encoded_resolution, Some((1280, 720)));
    assert_eq!(stats.source_frame_duration_us, None);
    assert_eq!(stats.frame, Some((900, 30 * MS)));
    assert_eq!(stats.assembly_us, Some(0));
    assert!(stats.nack_requests.is_empty());
    let unit = bench.units.try_recv().unwrap();
    assert_eq!(unit.data, annexb(&[sps(1280, 720), IDR.to_vec()]));
    assert_eq!((unit.queued_at_ns, unit.generation), (30 * MS, 0));
    assert_eq!(rtp.total_bytes(), 12 + payload.len() as u64);

    let stats =
        rtp.receive(&mut bench.worker, packet(6, 3_900, false, &SLICE), 0, 40 * MS, &mut keyframe);
    assert_eq!(stats.outcome, FrameOutcome::Incomplete);
    let stats =
        rtp.receive(&mut bench.worker, packet(7, 3_900, true, &SLICE), 0, 45 * MS, &mut keyframe);
    assert_eq!(stats.outcome, FrameOutcome::Submitted { outcome: SubmitOutcome::Sent });
    assert_eq!(stats.source_frame_duration_us, Some(33_333));
    assert_eq!(stats.assembly_us, Some(5_000));
    assert!(!keyframe);
}

#[test]
fn late_packets_are_ignored() {
    let mut bench = bench(6);
    let mut rtp = VideoRtp::new();
    let mut keyframe = false;
    rtp.receive(&mut bench.worker, packet(5, 9_000, true, &IDR), 0, 0, &mut keyframe);
    for timestamp in [9_000, 8_999] {
        let stats =
            rtp.receive(&mut bench.worker, packet(6, timestamp, true, &IDR), 0, 0, &mut keyframe);
        assert_eq!(stats.outcome, FrameOutcome::Incomplete);
    }
    rtp.receive(&mut bench.worker, packet(6, 12_000, false, &SLICE), 0, 0, &mut keyframe);
    let stats =
        rtp.receive(&mut bench.worker, packet(7, 11_999, true, &IDR), 0, 0, &mut keyframe);
    assert_eq!((stats.outcome, stats.dropped), (FrameOutcome::Incomplete, 0));
    assert_eq!(bench.units.len(), 1);
    assert!(!keyframe);
}

#[test]
fn an_empty_packet_fills_its_place() {
    let mut bench = bench(6);
    let mut rtp = VideoRtp::new();
    let mut keyframe = false;
    rtp.receive(&mut bench.worker, packet(5, 9_000, true, &IDR), 0, 0, &mut keyframe);
    bench.units.try_recv().unwrap();
    rtp.receive(&mut bench.worker, packet(6, 9_000, false, &[]), 0, 0, &mut keyframe);
    let stats = rtp.receive(&mut bench.worker, packet(7, 12_000, true, &SLICE), 0, 0, &mut keyframe);
    assert_eq!(stats.outcome, FrameOutcome::Submitted { outcome: SubmitOutcome::Sent });
    rtp.receive(&mut bench.worker, packet(9, 12_000, false, &[]), 0, 0, &mut keyframe);
    let stats = rtp.receive(&mut bench.worker, packet(9, 15_000, true, &SLICE), 0, 0, &mut keyframe);
    assert_eq!(stats.outcome, FrameOutcome::Incomplete);
}

#[test]
fn a_frame_that_never_becomes_whole_is_given_up() {
    let mut bench = bench(6);
    let mut rtp = VideoRtp::new();
    let mut keyframe = false;
    rtp.receive(&mut bench.worker, packet(5, 9_000, false, &SLICE), 0, 0, &mut keyframe);
    let stats = rtp.receive(&mut bench.worker, packet(8, 12_000, true, &SLICE), 0, 0, &mut keyframe);
    assert_eq!(stats.dropped, 1);
    assert!(keyframe);
    assert_eq!(stats.outcome, FrameOutcome::Submitted { outcome: SubmitOutcome::Sent });
    assert!(!rtp.waiting_for_keyframe());
}

#[test]
fn damage_makes_the_stream_wait_for_a_keyframe() {
    let mut bench = bench(6);
    let mut rtp = VideoRtp::new();
    let mut keyframe = false;
    let mut resyncs = Vec::new();
    for i in 0..9u32 {
        let stats = rtp.receive(
            &mut bench.worker,
            packet(10 * i as u16, 3_000 * (i + 1), false, &SLICE),
            0,
            0,
            &mut keyframe,
        );
        resyncs.push(stats.resynced);
    }
    assert_eq!(resyncs, vec![false, false, false, false, false, false, false, false, true]);
    assert!(rtp.waiting_for_keyframe());
    assert_eq!(bench.worker.generation(), 1);
    assert_eq!(bench.generation.load(Ordering::Acquire), 1);

    let stats = rtp.receive(&mut bench.worker, packet(200, 60_000, true, &SLICE), 0, 0, &mut keyframe);
    assert_eq!(stats.outcome, FrameOutcome::AwaitingKeyframe);
    assert_eq!((stats.dropped, stats.resynced), (2, false));
    let stats = rtp.receive(&mut bench.worker, packet(201, 63_000, true, &IDR), 0, 0, &mut keyframe);
    assert_eq!(stats.outcome, FrameOutcome::Submitted { outcome: SubmitOutcome::Sent });
    assert!(!rtp.waiting_for_keyframe());
    assert_eq!(bench.units.try_recv().unwrap().generation, 1);
}

#[test]
fn an_invalid_frame_is_dropped() {
    let mut bench = bench(6);
    let mut rtp = VideoRtp::new();
    let mut keyframe = false;
    let stats = rtp.receive(&mut bench.worker, packet(5, 9_000, true, &[0x1e, 1, 2]), 0, 0, &mut keyframe);
    assert_eq!((stats.outcome, stats.dropped), (FrameOutcome::Invalid, 1));
    assert!(keyframe);
    let stats = rtp.receive(&mut bench.worker, packet(99, 12_000, true, &IDR), 0, 0, &mut keyframe);
    assert_eq!(stats.outcome, FrameOutcome::Submitted { outcome: SubmitOutcome::Sent });
}

#[test]
fn a_picture_that_is_too_large_is_held_back() {
    let mut bench = bench(6);
    let mut rtp = VideoRtp::new();
    let mut keyframe = false;
    let large = aggregate(&[sps(1920, 1088), IDR.to_vec()]);
    let stats = rtp.receive(&mut bench.worker, packet(1, 3_000, true, &large), 0, 0, &mut keyframe);
    assert_eq!((stats.outcome, stats.dropped, stats.resynced), (FrameOutcome::TooLarge, 1, true));
    assert_eq!(stats.encoded_resolution, Some((1920, 1088)));
    assert!(keyframe);
    let stats = rtp.receive(&mut bench.worker, packet(2, 6_000, true, &large), 0, 0, &mut keyframe);
    assert_eq!((stats.outcome, stats.resynced), (FrameOutcome::TooLarge, false));
    let stats = rtp.receive(&mut bench.worker, packet(3, 9_000, true, &IDR), 0, 0, &mut keyframe);
    assert_eq!(stats.outcome, FrameOutcome::StillTooLarge);
    let fits = aggregate(&[sps(1280, 720), IDR.to_vec()]);
    let stats = rtp.receive(&mut bench.worker, packet(4, 12_000, true, &fits), 0, 0, &mut keyframe);
    assert_eq!(stats.outcome, FrameOutcome::Submitted { outcome: SubmitOutcome::Sent });
    assert_eq!(bench.units.len(), 1);
    assert_eq!(bench.worker.generation(), 1);
}

#[test]
fn judges_by_what_a_unit_shows() {
    let mut bench = bench(6);
    let mut rtp = VideoRtp::new();
    let seen = |has_idr: bool, resolution: Option<(u32, u32)>| AccessUnitInfo { has_idr, resolution };
    assert_eq!(rtp.judge(&mut bench.worker, seen(false, None), false), (Verdict::Submit, false));
    rtp.wait_for_keyframe();
    assert_eq!(
        rtp.judge(&mut bench.worker, seen(false, Some((16, 16))), false),
        (Verdict::AwaitingKeyframe, false)
    );
    assert_eq!(
        rtp.judge(&mut bench.worker, seen(true, Some((1280, 721))), false),
        (Verdict::TooLarge, false)
    );
    assert_eq!(
        rtp.judge(&mut bench.worker, seen(true, None), false),
        (Verdict::StillTooLarge, false)
    );
    assert_eq!(
        rtp.judge(&mut bench.worker, seen(true, Some((1280, 720))), false),
        (Verdict::Submit, false)
    );
    assert_eq!(
        rtp.judge(&mut bench.worker, seen(true, Some((1281, 720))), false),
        (Verdict::TooLarge, true)
    );
}

#[test]
fn a_full_queue_asks_for_a_keyframe() {
    let mut bench = bench(6);
    let mut rtp = VideoRtp::new();
    let mut keyframe = false;
    for (i, expected) in [SubmitOutcome::Sent, SubmitOutcome::OverLimit { pending: 1 }].iter().enumerate() {
        let stats = rtp.receive(
            &mut bench.worker,
            packet(i as u16, 3_000 * (i as u32 + 1), true, &IDR),
            0,
            0,
            &mut keyframe,
        );
        assert_eq!(stats.outcome, FrameOutcome::Submitted { outcome: *expected });
        assert_eq!(stats.dropped, i as u32);
        assert_eq!(keyframe, i == 1);
    }
}

#[test]
fn the_queue_opens_with_the_frame_rate() {
    let mut bench = bench(6);
    assert!(bench.worker.admits(0, None) && !bench.worker.admits(1, None));
    assert!(!bench.worker.admits(1, Some(33_333)));
    assert!(bench.worker.admits(5, Some(18_181)) && !bench.worker.admits(6, Some(16_667)));
    assert!(bench.worker.admits(2, Some(25_000)) && !bench.worker.admits(3, Some(25_000)));
    assert_eq!(source_fps(Some(16_667), 30), 59);
    assert_eq!(source_fps(Some(0), 30), 30);
    for i in 0..6 {
        let outcome = bench.worker.submit_access_unit(vec![i], Some(16_667), 1);
        assert!(outcome.accepted() && !outcome.queue_was_full());
    }
    let outcome = bench.worker.submit_access_unit(vec![7], Some(16_667), 1);
    assert_eq!(outcome, SubmitOutcome::OverLimit { pending: 6 });
    assert!(outcome.queue_was_full());
}

#[test]
fn units_are_submitted_behind_those_that_wait() {
    let mut bench = bench(6);
    assert_eq!(bench.worker.submit_behind(0, vec![1], None, 5), SubmitOutcome::Sent);
    assert_eq!(
        bench.worker.submit_behind(1, vec![2], None, 6),
        SubmitOutcome::OverLimit { pending: 1 }
    );
    assert_eq!(bench.worker.submit_behind(5, vec![3], Some(16_667), 7), SubmitOutcome::Sent);
    assert_eq!(
        bench.worker.submit_behind(6, vec![4], Some(15_000), 8),
        SubmitOutcome::OverLimit { pending: 6 }
    );
    assert_eq!(bench.worker.last_source_duration_us(), 15_000);
    let first = bench.units.try_recv().unwrap();
    assert_eq!((first.data, first.queued_at_ns, first.generation), (vec![1], 5, 0));
    assert_eq!(bench.units.try_recv().unwrap().data, vec![3]);
    assert!(bench.units.try_recv().is_err());
}

#[test]
fn a_deep_queue_limit_meets_a_shallow_channel() {
    let (access_units, units) = bounded(1);
    let (command_sender, _commands) = command_channel();
    let mut worker = VideoDecodeWorker::new(
        access_units,
        command_sender,
        Arc::new(AtomicU64::new(0)),
        Arc::new(AtomicU64::new(0)),
        6,
    );
    assert_eq!(worker.submit_access_unit(vec![1], Some(16_667), 1), SubmitOutcome::Sent);
    assert_eq!(worker.submit_access_unit(vec![1], Some(16_667), 1), SubmitOutcome::Full);
    drop(units);
    assert_eq!(worker.submit_access_unit(vec![1], Some(16_667), 1), SubmitOutcome::Disconnected);
}

#[test]
fn a_resync_makes_what_is_queued_stale() {
    let mut bench = bench(6);
    let before = bench.worker.stamp(vec![1], 5);
    bench.worker.begin_resync();
    assert_ne!(before.generation, bench.worker.generation());
    assert!(bench.commands.try_recv().is_err());
    bench.worker.reset_decoder();
    assert_eq!(bench.worker.generation(), 2);
    assert_eq!(bench.commands.try_recv().unwrap(), DecoderCommand::Reset);
    assert_eq!(bench.generation.load(Ordering::Acquire), 2);
    bench.worker.stop();
    assert_eq!(bench.commands.try_recv().unwrap(), DecoderCommand::Stop);
    drop(bench.commands);
    bench.worker.stop();
    assert_eq!(bench.worker.generation(), 2);
}

#[test]
fn the_pace_follows_the_source_within_limits() {
    let mut bench = bench(6);
    assert_eq!(bench.worker.last_source_duration_us(), 16_667);
    assert_eq!(bench.pace.load(Ordering::Relaxed), 16_667);
    for (duration, pace) in [(13_999, 16_667), (14_000, 14_000), (20_001, 14_000), (20_000, 20_000)] {
        bench.worker.submit_access_unit(vec![1], Some(duration), 1);
        assert_eq!(bench.worker.last_source_duration_us(), pace);
        assert_eq!(bench.pace.load(Ordering::Relaxed), pace);
    }
}

#[test]
fn notes_transport_numbers_and_reports_them() {
    let mut bench = bench(6);
    let mut rtp = VideoRtp::new();
    let mut keyframe = false;
    assert!(rtp.take_twcc_report(7).is_none());
    assert_eq!(rtp.twcc_median_stride(), 0);
    for (i, number) in [65_534u16, 1, 2, 12].iter().enumerate() {
        let mut noted = packet(i as u16, 3_000, false, &SLICE);
        noted.extensions.push(RtpExtension { id: 3, payload: number.to_be_bytes().to_vec() });
        noted.extensions.push(RtpExtension { id: 4, payload: vec![1, 2] });
        noted.extensions.push(RtpExtension { id: 3, payload: vec![1] });
        let stats = rtp.receive(&mut bench.worker, noted, 3, i as u64, &mut keyframe);
        assert_eq!((stats.extensions_seen, stats.twcc_samples), (3, 1));
    }
    assert_eq!(rtp.twcc_median_stride(), 3);
    assert_eq!(rtp.twcc_annotation_count(), 4);
    let report = rtp.take_twcc_report(7).unwrap();
    assert_eq!((report.media_ssrc, report.base_sequence_number), (7, 65_534));
    assert_eq!((report.packet_status_count, report.run_length, report.reference_time), (4, 4, 0));
    assert_eq!(report.recv_deltas, vec![1, 1, 1, 1]);
    assert_eq!(rtp.twcc_annotation_count(), 0);
    let mut ignored = packet(9, 3_000, false, &SLICE);
    ignored.extensions.push(RtpExtension { id: 0, payload: vec![1, 2] });
    let stats = rtp.receive(&mut bench.worker, ignored, 0, 0, &mut keyframe);
    assert_eq!((stats.extensions_seen, stats.twcc_samples), (0, 0));
}

#[test]
fn keeps_no_more_transport_numbers_than_a_report_holds() {
    let mut bench = bench(6);
    let mut rtp = VideoRtp::new();
    let mut keyframe = false;
    for i in 0..300u16 {
        let mut noted = packet(i, 3_000, false, &[]);
        noted.extensions.push(RtpExtension { id: 3, payload: i.to_be_bytes().to_vec() });
        rtp.receive(&mut bench.worker, noted, 3, 0, &mut keyframe);
    }
    assert_eq!(rtp.take_twcc_report(7).unwrap().packet_status_count, 200);
}

#[test]
fn averages_the_frame_duration() {
    let mut bench = bench(6);
    let mut rtp = VideoRtp::new();
    let mut keyframe = false;
    for (i, timestamp) in [0u32, 1_500, 3_000, 4_500].iter().enumerate() {
        rtp.receive(&mut bench.worker, packet(i as u16, *timestamp, true, &IDR), 0, 0, &mut keyframe);
    }
    assert_eq!(bench.worker.last_source_duration_us(), 16_666);
    rtp.receive(&mut bench.worker, packet(4, 6_900, true, &IDR), 0, 0, &mut keyframe);
    assert_eq!(bench.worker.last_source_duration_us(), (16_666 * 7 + 26_666) / 8);
}

#[test]
fn what_the_decoder_did_not_take_is_lost() {
    let outcomes = [
        (SubmitOutcome::Sent, false),
        (SubmitOutcome::OverLimit { pending: 3 }, true),
        (SubmitOutcome::Full, true),
        (SubmitOutcome::Disconnected, true),
    ];
    for (outcome, lost) in outcomes {
        let mut stats = VideoSampleStats::default();
        let mut keyframe = false;
        settle_submission(&mut stats, outcome, &mut keyframe);
        assert_eq!(stats.outcome, FrameOutcome::Submitted { outcome });
        assert_eq!((stats.dropped, keyframe), (lost as u32, lost));
        settle_submission(&mut stats, SubmitOutcome::Sent, &mut keyframe);
        assert_eq!((stats.dropped, keyframe), (lost as u32, lost));
    }
}

#[test]
fn a_decoder_that_is_gone_loses_the_frame() {
    let mut bench = bench(6);
    let mut rtp = VideoRtp::new();
    let mut keyframe = false;
    drop(bench.units);
    let stats = rtp.receive(&mut bench.worker, packet(1, 3_000, true, &IDR), 0, 0, &mut keyframe);
    assert_eq!(stats.outcome, FrameOutcome::Submitted { outcome: SubmitOutcome::Disconnected });
    assert_eq!((stats.dropped, keyframe), (1, true));
}

#[test]
fn a_resync_is_shown_to_the_decode_loop() {
    let mut bench = bench(6);
    assert_eq!(bench.generation.load(Ordering::Acquire), 0);
    bench.worker.begin_resync();
    assert_eq!(bench.generation.load(Ordering::Acquire), bench.worker.generation());
    assert_eq!(bench.worker.stamp(vec![], 0).generation, 1);
}
