//! The video receiver: from RTP packets to access units for the decoder.
//!
//! A packet passes through four stages. It is noted for transport feedback, taken in (which may
//! give up a frame that never became whole), assembled with the other packets of its frame, and
//! the frame's access unit is judged: handed to the decoder, or held back until a keyframe
//! comes.

use crate::decode_worker::{source_fps, SubmitOutcome, VideoDecodeWorker};
use crate::feedback::{median_gap, report_arrivals, TwccReport};
use crate::frame::{FrameAssembly, PendingVideoFrame};
use crate::h264::{inspect_h264_access_unit, AccessUnitInfo};
use crate::packet::{timestamp_is_newer, RtpPacket};
use crate::video::{STREAM_HEIGHT, STREAM_WIDTH};
use crate::{decode_worker, feedback, frame, packet};
use vstd::prelude::*;

verus! {

use crate::decode_worker::WorkerView;
use crate::frame::{AssemblyView, PendingView};
use crate::packet::{ExtensionView, PacketView};

/// Ticks per second of the video RTP clock.
pub const VIDEO_RTP_CLOCK_RATE: u64 = 90_000;

/// How much damage a stream of up to 30 frames per second may take before it is resynchronised.
pub const LOW_FPS_DAMAGE_LIMIT: u8 = 8;

/// How much damage a stream of 60 frames per second or more may take.
pub const HIGH_FPS_DAMAGE_LIMIT: u8 = 3;

/// How many packet arrivals are kept for one transport feedback report.
pub const TWCC_MAX_ANNOTATIONS: usize = 200;

/// The RTP header, which is counted with each payload.
pub const RTP_HEADER_BYTES: u64 = 12;

/// The longest frame duration that RTP timestamps can show.
pub const MAX_FRAME_DURATION_US: u64 = 47_721_858_833;

/// What became of a packet's frame.
#[derive(Debug, Clone, Copy, PartialEq, Eq, Structural)]
pub enum FrameOutcome {
    /// No frame became whole.
    Incomplete,
    /// The frame's packets do not make an access unit.
    Invalid,
    /// The picture is larger than the decoder takes.
    TooLarge,
    /// The stream was too large before, and the unit does not show that it has become smaller.
    StillTooLarge,
    /// A keyframe is awaited, and the unit holds none.
    AwaitingKeyframe,
    /// The unit was submitted to the decoder.
    Submitted { outcome: SubmitOutcome },
}

/// What one packet led to.
#[derive(Debug, Clone)]
pub struct VideoSampleStats {
    /// Frames that were lost.
    pub dropped: u32,
    /// Time from the frame before to this one, once there are two.
    pub source_frame_duration_us: Option<u64>,
    /// The picture size that the frame states.
    pub encoded_resolution: Option<(u32, u32)>,
    /// Sequence number ranges to ask for again; none ever are.
    pub nack_requests: Vec<(u16, u16)>,
    /// Header extensions looked at, and those among them that carry a transport number.
    pub extensions_seen: usize,
    pub twcc_samples: usize,
    /// The frame that became whole: its timestamp, and when its first packet came.
    pub frame: Option<(u32, u64)>,
    /// How long the frame's packets took to come.
    pub assembly_us: Option<u64>,
    /// Whether everything queued for the decoder was made stale.
    pub resynced: bool,
    pub outcome: FrameOutcome,
}

/// What one packet led to.
#[verifier::ext_equal]
pub ghost struct StatsView {
    pub dropped: int,
    pub source_frame_duration_us: Option<u64>,
    pub encoded_resolution: Option<(u32, u32)>,
    pub nack_requests: Seq<(u16, u16)>,
    pub extensions_seen: int,
    pub twcc_samples: int,
    pub frame: Option<(u32, u64)>,
    pub assembly_us: Option<u64>,
    pub resynced: bool,
    pub outcome: FrameOutcome,
}

impl View for VideoSampleStats {
    type V = StatsView;

    open spec fn view(&self) -> StatsView {
        StatsView {
            dropped: self.dropped as int,
            source_frame_duration_us: self.source_frame_duration_us,
            encoded_resolution: self.encoded_resolution,
            nack_requests: self.nack_requests@,
            extensions_seen: self.extensions_seen as int,
            twcc_samples: self.twcc_samples as int,
            frame: self.frame,
            assembly_us: self.assembly_us,
            resynced: self.resynced,
            outcome: self.outcome,
        }
    }
}

/// Nothing happened.
pub open spec fn no_stats() -> StatsView {
    StatsView {
        dropped: 0,
        source_frame_duration_us: None,
        encoded_resolution: None,
        nack_requests: Seq::empty(),
        extensions_seen: 0,
        twcc_samples: 0,
        frame: None,
        assembly_us: None,
        resynced: false,
        outcome: FrameOutcome::Incomplete,
    }
}

impl Default for VideoSampleStats {
    fn default() -> (stats: Self)
        ensures
            stats@ == no_stats(),
    {
        VideoSampleStats {
            dropped: 0,
            source_frame_duration_us: None,
            encoded_resolution: None,
            nack_requests: Vec::new(),
            extensions_seen: 0,
            twcc_samples: 0,
            frame: None,
            assembly_us: None,
            resynced: false,
            outcome: FrameOutcome::Incomplete,
        }
    }
}

/// Reassembles the video stream.
pub struct VideoRtp {
    pending: Option<PendingVideoFrame>,
    next_sequence: Option<u16>,
    last_frame_timestamp: Option<u32>,
    source_frame_duration_us: Option<u64>,
    damage_score: u8,
    stream_too_large: bool,
    waiting_for_keyframe: bool,
    stream_clock_anchor: Option<(u64, u32)>,
    total_bytes: u64,
    twcc_annotations: Vec<(u16, u64)>,
}

/// The state of the video receiver.
#[verifier::ext_equal]
pub ghost struct VideoView {
    /// The frame that packets are gathered for.
    pub pending: Option<PendingView>,
    /// The sequence number that the next frame starts with, where that is known.
    pub next_sequence: Option<u16>,
    /// The timestamp of the last whole frame.
    pub last_frame_timestamp: Option<u32>,
    /// The running average of the frame durations.
    pub source_frame_duration_us: Option<u64>,
    pub damage_score: u8,
    /// Whether the last picture size seen was larger than the decoder takes.
    pub stream_too_large: bool,
    pub waiting_for_keyframe: bool,
    pub stream_clock_anchor: Option<(u64, u32)>,
    pub total_bytes: u64,
    /// Transport numbers and arrival times since the last feedback report.
    pub twcc_annotations: Seq<(u16, u64)>,
}

impl View for VideoRtp {
    type V = VideoView;

    closed spec fn view(&self) -> VideoView {
        VideoView {
            pending: match self.pending {
                Some(pending) => Some(pending@),
                None => None,
            },
            next_sequence: self.next_sequence,
            last_frame_timestamp: self.last_frame_timestamp,
            source_frame_duration_us: self.source_frame_duration_us,
            damage_score: self.damage_score,
            stream_too_large: self.stream_too_large,
            waiting_for_keyframe: self.waiting_for_keyframe,
            stream_clock_anchor: self.stream_clock_anchor,
            total_bytes: self.total_bytes,
            twcc_annotations: self.twcc_annotations@,
        }
    }
}

/// A receiver that has seen nothing.
pub open spec fn fresh_video() -> VideoView {
    VideoView {
        pending: None,
        next_sequence: None,
        last_frame_timestamp: None,
        source_frame_duration_us: None,
        damage_score: 0,
        stream_too_large: false,
        waiting_for_keyframe: false,
        stream_clock_anchor: None,
        total_bytes: 0,
        twcc_annotations: Seq::empty(),
    }
}

/// What holds of the video receiver at all times.
pub open spec fn video_wf(state: VideoView) -> bool {
    &&& state.pending matches Some(pending) ==> {
        &&& frame::distinct_sequences(pending.packets)
        &&& state.last_frame_timestamp matches Some(last) ==> packet::is_newer(
            pending.timestamp,
            last,
        )
    }
    &&& state.source_frame_duration_us matches Some(duration) ==> duration <= MAX_FRAME_DURATION_US
    &&& state.damage_score < LOW_FPS_DAMAGE_LIMIT
    &&& state.twcc_annotations.len() <= TWCC_MAX_ANNOTATIONS
}

/// How much damage a stream takes at a frame rate: the low limit up to 30 frames per second, the
/// high one from 60 on, and in between in proportion, rounded down.
pub open spec fn damage_limit(fps: int) -> int {
    if fps <= 30 {
        LOW_FPS_DAMAGE_LIMIT as int
    } else if fps >= 60 {
        HIGH_FPS_DAMAGE_LIMIT as int
    } else {
        LOW_FPS_DAMAGE_LIMIT - ((fps - 30) * (LOW_FPS_DAMAGE_LIMIT - HIGH_FPS_DAMAGE_LIMIT) + 29)
            / 30
    }
}

/// Whether one more damaged frame reaches the limit.
pub open spec fn damage_reaches_limit(state: VideoView) -> bool {
    state.damage_score + 1 >= damage_limit(
        decode_worker::frames_per_second(state.source_frame_duration_us, 30),
    )
}

/// Whether a damaged frame makes the stream be resynchronised.
pub open spec fn damage_resyncs(state: VideoView) -> bool {
    !state.waiting_for_keyframe && damage_reaches_limit(state)
}

/// The receiver after a damaged frame. While a keyframe is awaited damage does not count; when
/// it reaches the limit, the count starts anew and a keyframe is awaited.
pub open spec fn damaged(state: VideoView) -> VideoView {
    if state.waiting_for_keyframe {
        state
    } else if damage_reaches_limit(state) {
        VideoView { waiting_for_keyframe: true, damage_score: 0, ..state }
    } else {
        VideoView { damage_score: (state.damage_score + 1) as u8, ..state }
    }
}

/// The worker after a damaged frame.
pub open spec fn after_damage(state: VideoView, worker: WorkerView) -> WorkerView {
    if damage_resyncs(state) {
        decode_worker::resynced(worker)
    } else {
        worker
    }
}

/// The transport number that an extension carries.
pub open spec fn transport_number(extension: ExtensionView, twcc_ext_id: u8) -> Option<u16> {
    if extension.id == twcc_ext_id && extension.payload.len() >= 2 {
        Some((extension.payload[0] * 256 + extension.payload[1]) as u16)
    } else {
        None
    }
}

/// The transport numbers that a packet's extensions carry, in order.
pub open spec fn transport_numbers(extensions: Seq<ExtensionView>, twcc_ext_id: u8) -> Seq<u16>
    decreases extensions.len(),
{
    if extensions.len() == 0 {
        Seq::empty()
    } else {
        let before = transport_numbers(extensions.drop_last(), twcc_ext_id);
        match transport_number(extensions.last(), twcc_ext_id) {
            Some(number) => before.push(number),
            None => before,
        }
    }
}

/// The annotations after more transport numbers arrived; those beyond the limit are left out.
pub open spec fn annotated(
    annotations: Seq<(u16, u64)>,
    numbers: Seq<u16>,
    now_ns: u64,
) -> Seq<(u16, u64)>
    decreases numbers.len(),
{
    if numbers.len() == 0 {
        annotations
    } else {
        let before = annotated(annotations, numbers.drop_last(), now_ns);
        if before.len() < TWCC_MAX_ANNOTATIONS {
            before.push((numbers.last(), now_ns))
        } else {
            before
        }
    }
}

/// The transport numbers that are noted of a packet: none where no extension was negotiated.
pub open spec fn noted_numbers(packet: PacketView, twcc_ext_id: u8) -> Seq<u16> {
    if twcc_ext_id > 0 {
        transport_numbers(packet.extensions, twcc_ext_id)
    } else {
        Seq::empty()
    }
}

/// The receiver after a packet was noted for transport feedback.
pub open spec fn noted(
    state: VideoView,
    packet: PacketView,
    twcc_ext_id: u8,
    now_ns: u64,
) -> VideoView {
    VideoView {
        twcc_annotations: annotated(
            state.twcc_annotations,
            noted_numbers(packet, twcc_ext_id),
            now_ns,
        ),
        ..state
    }
}

/// The sequence number after a known one.
pub open spec fn following(sequence: Option<u16>) -> Option<u16> {
    match sequence {
        Some(sequence) => Some(packet::sequence_offset(sequence, 1)),
        None => None,
    }
}

/// What taking in a packet comes to.
pub ghost struct Intake {
    pub state: VideoView,
    /// Whether the packet joined the frame that is gathered.
    pub joined: bool,
    /// Whether a frame that never became whole was given up for it.
    pub gave_up: bool,
}

/// The receiver after a packet without a payload: it only fills its place in the sequence.
pub open spec fn padded(state: VideoView, packet: PacketView) -> VideoView {
    VideoView {
        next_sequence: if state.next_sequence == Some(packet.sequence_number) {
            following(state.next_sequence)
        } else {
            state.next_sequence
        },
        ..state
    }
}

/// The receiver with a packet's bytes counted.
pub open spec fn counted(state: VideoView, packet: PacketView) -> VideoView {
    VideoView {
        total_bytes: ((state.total_bytes + RTP_HEADER_BYTES + packet.payload.len())
            % 0x1_0000_0000_0000_0000) as u64,
        ..state
    }
}

/// The receiver after the frame that was gathered was given up. Where its last packet is known,
/// so is the sequence number that the next frame starts with.
pub open spec fn given_up(state: VideoView, frame: PendingView) -> VideoView {
    VideoView {
        pending: None,
        next_sequence: following(frame::first_marker(frame.packets)),
        ..state
    }
}

/// A packet starts a new frame, unless it is not newer than the last whole one.
pub open spec fn started(
    state: VideoView,
    packet: PacketView,
    now_ns: u64,
    gave_up: bool,
) -> Intake {
    match state.last_frame_timestamp {
        Some(last) if !packet::is_newer(packet.timestamp, last) => Intake {
            state,
            joined: false,
            gave_up,
        },
        _ => Intake {
            state: VideoView {
                pending: Some(
                    PendingView {
                        timestamp: packet.timestamp,
                        first_packet_at_ns: now_ns,
                        packets: seq![packet],
                    },
                ),
                ..state
            },
            joined: true,
            gave_up,
        },
    }
}

/// What taking in a packet comes to: it joins the frame of its timestamp, is ignored if its
/// frame is past, or else the frame before is given up and a new one starts.
pub open spec fn taken_in(state: VideoView, packet: PacketView, now_ns: u64) -> Intake {
    if packet.payload.len() == 0 {
        Intake { state: padded(state, packet), joined: false, gave_up: false }
    } else {
        let state = counted(state, packet);
        match state.pending {
            Some(frame) if frame.timestamp == packet.timestamp => Intake {
                state: VideoView {
                    pending: Some(
                        PendingView {
                            packets: frame::with_packet(frame.packets, packet),
                            ..frame
                        },
                    ),
                    ..state
                },
                joined: true,
                gave_up: false,
            },
            Some(frame) if !packet::is_newer(packet.timestamp, frame.timestamp) => Intake {
                state,
                joined: false,
                gave_up: false,
            },
            Some(frame) => started(damaged(given_up(state, frame)), packet, now_ns, true),
            None => started(state, packet, now_ns, false),
        }
    }
}

/// The state in which damage is recorded when a packet makes a frame be given up.
pub open spec fn giving_up(state: VideoView, packet: PacketView) -> VideoView {
    given_up(counted(state, packet), counted(state, packet).pending->0)
}

/// The worker after a packet was taken in.
pub open spec fn worker_after_intake(
    state: VideoView,
    worker: WorkerView,
    packet: PacketView,
    now_ns: u64,
) -> WorkerView {
    if taken_in(state, packet, now_ns).gave_up {
        after_damage(giving_up(state, packet), worker)
    } else {
        worker
    }
}

/// The time between two frames by their timestamps.
pub open spec fn frame_duration_us(last: Option<u32>, timestamp: u32) -> Option<u64> {
    match last {
        Some(last) => Some(
            (packet::timestamp_distance(last, timestamp) * 1_000_000 / VIDEO_RTP_CLOCK_RATE as int)
                as u64,
        ),
        None => None,
    }
}

/// The running average after one more frame duration: seven parts old, one part new.
pub open spec fn averaged(average: Option<u64>, duration: Option<u64>) -> Option<u64> {
    match (average, duration) {
        (Some(average), Some(duration)) => Some(((average * 7 + duration) / 8) as u64),
        (None, Some(duration)) => Some(duration),
        (_, None) => average,
    }
}

/// The receiver after its frame became whole.
pub open spec fn completed(state: VideoView, timestamp: u32, marker_sequence: u16) -> VideoView {
    VideoView {
        pending: None,
        next_sequence: following(Some(marker_sequence)),
        last_frame_timestamp: Some(timestamp),
        source_frame_duration_us: averaged(
            state.source_frame_duration_us,
            frame_duration_us(state.last_frame_timestamp, timestamp),
        ),
        ..state
    }
}

/// The receiver after the packets of its frame turned out not to make an access unit, before
/// the damage is recorded.
pub open spec fn discarded(state: VideoView) -> VideoView {
    VideoView { pending: None, next_sequence: None, ..state }
}

/// Whether a picture is larger than the decoder takes.
pub open spec fn too_large(resolution: Option<(u32, u32)>) -> bool {
    resolution matches Some(size) && (size.0 > STREAM_WIDTH || size.1 > STREAM_HEIGHT)
}

/// What is to be done with an access unit.
#[derive(Debug, Clone, Copy, PartialEq, Eq, Structural)]
pub enum Verdict {
    Submit,
    TooLarge,
    StillTooLarge,
    AwaitingKeyframe,
}

/// What is to be done with an access unit. Too large a picture is never submitted; after one, a
/// unit has to state a smaller size and hold a keyframe; and while a keyframe is awaited, a unit
/// has to hold one.
pub open spec fn verdict(state: VideoView, info: AccessUnitInfo) -> Verdict {
    if too_large(info.resolution) {
        Verdict::TooLarge
    } else if state.stream_too_large && !(info.resolution is Some && info.has_idr) {
        Verdict::StillTooLarge
    } else if state.waiting_for_keyframe && !info.has_idr {
        Verdict::AwaitingKeyframe
    } else {
        Verdict::Submit
    }
}

/// The receiver after an access unit was judged. A submitted keyframe ends the wait and clears
/// the damage; any other submitted unit makes up for one damaged frame, unless a frame was given
/// up for it.
pub open spec fn judged(state: VideoView, info: AccessUnitInfo, gave_up: bool) -> VideoView {
    match verdict(state, info) {
        Verdict::TooLarge => VideoView {
            stream_too_large: true,
            waiting_for_keyframe: true,
            ..state
        },
        Verdict::StillTooLarge => VideoView { waiting_for_keyframe: true, ..state },
        Verdict::AwaitingKeyframe => VideoView { stream_too_large: false, ..state },
        Verdict::Submit => VideoView {
            stream_too_large: false,
            waiting_for_keyframe: false,
            damage_score: if state.waiting_for_keyframe {
                0
            } else if gave_up || state.damage_score == 0 {
                state.damage_score
            } else {
                (state.damage_score - 1) as u8
            },
            ..state
        },
    }
}

/// Whether judging an access unit makes everything queued for the decoder stale: at the first
/// picture that is too large, unless a keyframe is awaited already.
pub open spec fn judging_resyncs(state: VideoView, info: AccessUnitInfo) -> bool {
    verdict(state, info) == Verdict::TooLarge && !state.waiting_for_keyframe
}

/// What an access unit shows of itself.
pub open spec fn unit_info(data: Seq<u8>) -> AccessUnitInfo {
    AccessUnitInfo {
        has_idr: crate::h264::calls_have_idr(crate::h264::annexb_calls(data)),
        resolution: crate::h264::calls_resolution(crate::h264::annexb_calls(data)),
    }
}

/// What receiving a packet comes to.
#[verifier::ext_equal]
pub ghost struct Reception {
    pub state: VideoView,
    pub worker: WorkerView,
    /// Whether a keyframe is to be asked for.
    pub keyframe: bool,
    pub stats: StatsView,
}

/// What a unit that is not submitted comes to.
pub open spec fn outcome_of(verdict: Verdict, submission: SubmitOutcome) -> FrameOutcome {
    match verdict {
        Verdict::Submit => FrameOutcome::Submitted { outcome: submission },
        Verdict::TooLarge => FrameOutcome::TooLarge,
        Verdict::StillTooLarge => FrameOutcome::StillTooLarge,
        Verdict::AwaitingKeyframe => FrameOutcome::AwaitingKeyframe,
    }
}

/// What became of a submitted access unit, and how many units waited before it.
pub ghost struct Submission {
    pub waiting: usize,
    pub outcome: SubmitOutcome,
}

/// Whether a submission that ended in an outcome lost its frame.
pub open spec fn loses_the_frame(outcome: SubmitOutcome) -> bool {
    match outcome {
        SubmitOutcome::Sent => false,
        SubmitOutcome::OverLimit { .. } => true,
        SubmitOutcome::Full => true,
        SubmitOutcome::Disconnected => true,
    }
}

/// The counts after a submission that ended in an outcome.
pub open spec fn settled(stats: StatsView, outcome: SubmitOutcome) -> StatsView {
    StatsView {
        dropped: stats.dropped + if loses_the_frame(outcome) {
            1int
        } else {
            0
        },
        outcome: FrameOutcome::Submitted { outcome },
        ..stats
    }
}

/// What a whole frame comes to: its access unit is judged and, where that is the verdict,
/// submitted. A keyframe is asked for whenever a frame is lost.
pub open spec fn delivered(
    state: VideoView,
    worker: WorkerView,
    data: Seq<u8>,
    info: AccessUnitInfo,
    gave_up: bool,
    now_ns: u64,
    submission: Submission,
    stats: StatsView,
) -> Reception {
    let after = judged(state, info, gave_up);
    let submits = verdict(state, info) == Verdict::Submit;
    let lost = !submits || loses_the_frame(submission.outcome);
    let stale = judging_resyncs(state, info);
    Reception {
        state: after,
        worker: if submits {
            decode_worker::submitted(
                decode_worker::looked_up(worker, submission.waiting),
                data,
                after.source_frame_duration_us,
                now_ns,
                submission.outcome,
            )
        } else if stale {
            decode_worker::resynced(worker)
        } else {
            worker
        },
        keyframe: gave_up || lost,
        stats: StatsView {
            dropped: stats.dropped + if lost {
                1int
            } else {
                0
            },
            encoded_resolution: info.resolution,
            resynced: stats.resynced || stale,
            outcome: outcome_of(verdict(state, info), submission.outcome),
            ..stats
        },
    }
}

/// Time from `from` to `to` in microseconds; none where `to` is the earlier one.
pub open spec fn elapsed_us(from_ns: u64, to_ns: u64) -> u64 {
    if to_ns >= from_ns {
        ((to_ns - from_ns) / 1000) as u64
    } else {
        0
    }
}

/// What an attempt to assemble the gathered frame comes to.
pub open spec fn attempted(
    state: VideoView,
    worker: WorkerView,
    frame: PendingView,
    gave_up: bool,
    now_ns: u64,
    submission: Submission,
    stats: StatsView,
) -> Reception {
    match frame::assembled(frame.packets, state.next_sequence) {
        AssemblyView::Pending => Reception { state, worker, keyframe: gave_up, stats },
        AssemblyView::Invalid => Reception {
            state: damaged(discarded(state)),
            worker: after_damage(discarded(state), worker),
            keyframe: true,
            stats: StatsView {
                dropped: stats.dropped + 1,
                resynced: stats.resynced || damage_resyncs(discarded(state)),
                outcome: FrameOutcome::Invalid,
                ..stats
            },
        },
        AssemblyView::Complete { data, marker_sequence } => delivered(
            completed(state, frame.timestamp, marker_sequence),
            worker,
            data,
            unit_info(data),
            gave_up,
            now_ns,
            submission,
            StatsView {
                source_frame_duration_us: frame_duration_us(
                    state.last_frame_timestamp,
                    frame.timestamp,
                ),
                frame: Some((frame.timestamp, frame.first_packet_at_ns)),
                assembly_us: Some(elapsed_us(frame.first_packet_at_ns, now_ns)),
                ..stats
            },
        ),
    }
}

/// What receiving a packet comes to, `submission` being what became of its frame's access unit
/// if that was submitted.
pub open spec fn received(
    state: VideoView,
    worker: WorkerView,
    packet: PacketView,
    twcc_ext_id: u8,
    now_ns: u64,
    submission: Submission,
) -> Reception {
    let state = noted(state, packet, twcc_ext_id, now_ns);
    let intake = taken_in(state, packet, now_ns);
    let worker = worker_after_intake(state, worker, packet, now_ns);
    let stats = StatsView {
        dropped: if intake.gave_up {
            1
        } else {
            0
        },
        extensions_seen: if twcc_ext_id > 0 {
            packet.extensions.len() as int
        } else {
            0
        },
        twcc_samples: noted_numbers(packet, twcc_ext_id).len() as int,
        resynced: intake.gave_up && damage_resyncs(giving_up(state, packet)),
        ..no_stats()
    };
    if intake.joined {
        attempted(
            intake.state,
            worker,
            intake.state.pending->0,
            intake.gave_up,
            now_ns,
            submission,
            stats,
        )
    } else {
        Reception { state: intake.state, worker, keyframe: intake.gave_up, stats }
    }
}

/// The submission that an outcome tells of, given the worker after it.
pub open spec fn submission_of(outcome: FrameOutcome, worker: WorkerView) -> Submission {
    Submission {
        waiting: worker.lengths.last(),
        outcome: match outcome {
            FrameOutcome::Submitted { outcome } => outcome,
            _ => SubmitOutcome::Sent,
        },
    }
}

/// Whether an outcome agrees with how many units were found to wait: a unit is turned away
/// exactly when as many wait as its frame rate allows.
pub open spec fn fits_the_queue(
    outcome: FrameOutcome,
    before: WorkerView,
    after: WorkerView,
    source_frame_duration_us: Option<u64>,
) -> bool {
    outcome matches FrameOutcome::Submitted { outcome } ==> {
        let pending = after.lengths.last();
        &&& outcome is OverLimit <==> decode_worker::over_limit(
            before,
            source_frame_duration_us,
            pending,
        )
        &&& outcome is OverLimit ==> outcome == (SubmitOutcome::OverLimit { pending })
    }
}

/// Books what became of a submitted access unit: one that did not reach the decoder counts as
/// lost, and a keyframe is asked for.
pub fn settle_submission(
    stats: &mut VideoSampleStats,
    outcome: SubmitOutcome,
    keyframe_requested: &mut bool,
)
    requires
        old(stats).dropped < u32::MAX,
    ensures
        final(stats)@ == settled(old(stats)@, outcome),
        *final(keyframe_requested) == (*old(keyframe_requested) || loses_the_frame(outcome)),
{
    stats.outcome = FrameOutcome::Submitted { outcome };
    if !outcome.accepted() {
        stats.dropped = stats.dropped + 1;
        *keyframe_requested = true;
    }
}

/// What taking in a packet led to.
struct IntakeResult {
    joined: bool,
    gave_up: bool,
    resynced: bool,
}

impl VideoRtp {
    /// What holds of the receiver at all times.
    pub open spec fn wf(self) -> bool {
        video_wf(self@)
    }

    /// A receiver that has seen nothing.
    pub fn new() -> (rtp: Self)
        ensures
            rtp.wf(),
            rtp@ == fresh_video(),
    {
        VideoRtp {
            pending: None,
            next_sequence: None,
            last_frame_timestamp: None,
            source_frame_duration_us: None,
            damage_score: 0,
            stream_too_large: false,
            waiting_for_keyframe: false,
            stream_clock_anchor: None,
            total_bytes: 0,
            twcc_annotations: Vec::new(),
        }
    }

    /// Whether a keyframe is awaited.
    pub fn waiting_for_keyframe(&self) -> (waiting: bool)
        ensures
            waiting == self@.waiting_for_keyframe,
    {
        self.waiting_for_keyframe
    }

    /// Submits nothing more until a keyframe comes.
    pub fn wait_for_keyframe(&mut self)
        requires
            old(self).wf(),
        ensures
            final(self).wf(),
            final(self)@ == (VideoView { waiting_for_keyframe: true, ..old(self)@ }),
    {
        self.waiting_for_keyframe = true;
    }

    /// Records a damaged frame; when the damage reaches the limit for the frame rate, everything
    /// queued for the decoder becomes stale. Tells whether it did.
    pub fn record_damage(&mut self, worker: &mut VideoDecodeWorker) -> (resynced: bool)
        requires
            old(self).wf(),
        ensures
            final(self).wf(),
            final(self)@ == damaged(old(self)@),
            final(worker)@ == after_damage(old(self)@, old(worker)@),
            resynced == damage_resyncs(old(self)@),
    {
        if self.waiting_for_keyframe {
            return false;
        }
        let score: u8 = self.damage_score.saturating_add(1);
        let fps: u64 = source_fps(self.source_frame_duration_us, 30);
        let limit: u8 = if fps <= 30 {
            LOW_FPS_DAMAGE_LIMIT
        } else if fps >= 60 {
            HIGH_FPS_DAMAGE_LIMIT
        } else {
            let steps: u64 = ((fps - 30) * 5 + 29) / 30;
            LOW_FPS_DAMAGE_LIMIT - steps as u8
        };
        assert(limit == damage_limit(
            decode_worker::frames_per_second(self@.source_frame_duration_us, 30),
        ));
        if score < limit {
            self.damage_score = score;
            return false;
        }
        worker.begin_resync();
        self.waiting_for_keyframe = true;
        self.damage_score = 0;
        true
    }

    /// Notes the transport numbers that a packet carries. Gives how many extensions were looked
    /// at and how many carry a number.
    fn note_transport(&mut self, packet: &RtpPacket, twcc_ext_id: u8, now_ns: u64) -> (counts: (
        usize,
        usize,
    ))
        requires
            old(self).wf(),
        ensures
            final(self).wf(),
            final(self)@ == noted(old(self)@, packet@, twcc_ext_id, now_ns),
            final(self).pending == old(self).pending,
            counts.0 == if twcc_ext_id > 0 {
                packet@.extensions.len()
            } else {
                0
            },
            counts.1 == noted_numbers(packet@, twcc_ext_id).len(),
    {
        let ghost extensions = packet@.extensions;
        if twcc_ext_id == 0 {
            return (0, 0);
        }
        let mut samples: usize = 0;
        let mut i: usize = 0;
        assert(extensions.take(0) =~= Seq::empty());
        while i < packet.extensions.len()
            invariant
                i <= packet.extensions@.len(),
                extensions == packet@.extensions,
                samples <= i,
                samples == transport_numbers(extensions.take(i as int), twcc_ext_id).len(),
                video_wf(old(self)@),
                video_wf(self@),
                self.pending == old(self).pending,
                self@ == (VideoView {
                    twcc_annotations: annotated(
                        old(self)@.twcc_annotations,
                        transport_numbers(extensions.take(i as int), twcc_ext_id),
                        now_ns,
                    ),
                    ..old(self)@
                }),
            decreases packet.extensions@.len() - i,
        {
            let extension = &packet.extensions[i];
            let ghost before = transport_numbers(extensions.take(i as int), twcc_ext_id);
            proof {
                assert(extensions.take(i + 1).drop_last() =~= extensions.take(i as int));
                assert(extensions.take(i + 1).last() == extension@);
            }
            if extension.id == twcc_ext_id && extension.payload.len() >= 2 {
                let number: u16 = extension.payload[0] as u16 * 256 + extension.payload[1] as u16;
                assert(transport_number(extension@, twcc_ext_id) == Some(number));
                assert(before.push(number).drop_last() =~= before);
                if self.twcc_annotations.len() < TWCC_MAX_ANNOTATIONS {
                    self.twcc_annotations.push((number, now_ns));
                }
                samples = samples + 1;
            }
            i = i + 1;
        }
        assert(extensions.take(i as int) =~= extensions);
        (packet.extensions.len(), samples)
    }

    /// Starts a frame with a packet, unless it is not newer than the last whole frame.
    fn start(&mut self, packet: RtpPacket, now_ns: u64) -> (joined: bool)
        requires
            old(self).wf(),
        ensures
            final(self).wf(),
            final(self)@ == started(old(self)@, packet@, now_ns, false).state,
            joined == started(old(self)@, packet@, now_ns, false).joined,
    {
        if let Some(last) = self.last_frame_timestamp {
            if !timestamp_is_newer(packet.timestamp, last) {
                return false;
            }
        }
        self.pending = Some(PendingVideoFrame::new(packet, now_ns));
        true
    }

    /// Takes in a packet.
    fn take_in(
        &mut self,
        worker: &mut VideoDecodeWorker,
        packet: RtpPacket,
        now_ns: u64,
    ) -> (result: IntakeResult)
        requires
            old(self).wf(),
        ensures
            final(self).wf(),
            ({
                let intake = taken_in(old(self)@, packet@, now_ns);
                &&& final(self)@ == intake.state
                &&& result.joined == intake.joined
                &&& result.gave_up == intake.gave_up
                &&& result.resynced == (intake.gave_up && damage_resyncs(
                    giving_up(old(self)@, packet@),
                ))
                &&& result.joined ==> final(self)@.pending is Some
            }),
            final(worker)@ == worker_after_intake(old(self)@, old(worker)@, packet@, now_ns),
    {
        if packet.payload.len() == 0 {
            if let Some(sequence) = self.next_sequence {
                if sequence == packet.sequence_number {
                    self.next_sequence = Some(sequence.wrapping_add(1));
                }
            }
            return IntakeResult { joined: false, gave_up: false, resynced: false };
        }
        let size: u64 = RTP_HEADER_BYTES.wrapping_add(packet.payload.len() as u64);
        self.total_bytes = self.total_bytes.wrapping_add(size);
        assert(self@ == counted(old(self)@, packet@));
        match self.pending.take() {
            None => {
                let joined = self.start(packet, now_ns);
                IntakeResult { joined, gave_up: false, resynced: false }
            },
            Some(mut frame) => {
                if frame.timestamp() == packet.timestamp {
                    frame.insert(packet);
                    self.pending = Some(frame);
                    return IntakeResult { joined: true, gave_up: false, resynced: false };
                }
                if !timestamp_is_newer(packet.timestamp, frame.timestamp()) {
                    self.pending = Some(frame);
                    return IntakeResult { joined: false, gave_up: false, resynced: false };
                }
                self.next_sequence = match frame.marker_sequence() {
                    Some(marker) => Some(marker.wrapping_add(1)),
                    None => None,
                };
                assert(self@ == giving_up(old(self)@, packet@));
                let resynced = self.record_damage(worker);
                let joined = self.start(packet, now_ns);
                IntakeResult { joined, gave_up: true, resynced }
            },
        }
    }

    /// Books a whole frame; gives its duration.
    fn complete(&mut self, timestamp: u32, marker_sequence: u16) -> (duration: Option<u64>)
        requires
            old(self).wf(),
        ensures
            final(self).wf(),
            final(self)@ == completed(old(self)@, timestamp, marker_sequence),
            duration == frame_duration_us(old(self)@.last_frame_timestamp, timestamp),
    {
        self.pending = None;
        self.next_sequence = Some(marker_sequence.wrapping_add(1));
        let duration: Option<u64> = match self.last_frame_timestamp {
            Some(last) => {
                let ticks: u64 = timestamp.wrapping_sub(last) as u64;
                Some(ticks * 1_000_000 / VIDEO_RTP_CLOCK_RATE)
            },
            None => None,
        };
        assert(duration matches Some(duration) ==> duration <= MAX_FRAME_DURATION_US);
        if let Some(duration) = duration {
            self.source_frame_duration_us = match self.source_frame_duration_us {
                Some(average) => Some((average * 7 + duration) / 8),
                None => Some(duration),
            };
        }
        self.last_frame_timestamp = Some(timestamp);
        duration
    }

    /// Judges an access unit by what it shows of itself. Gives the verdict, and whether it made
    /// everything queued for the decoder stale.
    pub fn judge(
        &mut self,
        worker: &mut VideoDecodeWorker,
        info: AccessUnitInfo,
        gave_up: bool,
    ) -> (judgement: (Verdict, bool))
        requires
            old(self).wf(),
        ensures
            final(self).wf(),
            judgement.0 == verdict(old(self)@, info),
            judgement.1 == judging_resyncs(old(self)@, info),
            final(self)@ == judged(old(self)@, info, gave_up),
            final(worker)@ == if judging_resyncs(old(self)@, info) {
                decode_worker::resynced(old(worker)@)
            } else {
                old(worker)@
            },
    {
        let sample_too_large = match info.resolution {
            Some((width, height)) => width > STREAM_WIDTH || height > STREAM_HEIGHT,
            None => false,
        };
        if sample_too_large {
            self.stream_too_large = true;
            // Queued work is flushed once; after that a compatible keyframe is awaited.
            let resyncs = !self.waiting_for_keyframe;
            if resyncs {
                worker.begin_resync();
            }
            self.waiting_for_keyframe = true;
            return (Verdict::TooLarge, resyncs);
        }
        if self.stream_too_large {
            if info.resolution.is_none() || !info.has_idr {
                self.waiting_for_keyframe = true;
                return (Verdict::StillTooLarge, false);
            }
            self.stream_too_large = false;
        }
        if self.waiting_for_keyframe {
            // A later keyframe may come without parameter sets; the decoder keeps those.
            if !info.has_idr {
                return (Verdict::AwaitingKeyframe, false);
            }
            self.waiting_for_keyframe = false;
            self.damage_score = 0;
        } else if !gave_up {
            self.damage_score = self.damage_score.saturating_sub(1);
        }
        (Verdict::Submit, false)
    }

    /// Receives a packet. `keyframe_requested` is set when a keyframe is to be asked for and left
    /// alone otherwise.
    pub fn receive(
        &mut self,
        worker: &mut VideoDecodeWorker,
        packet: RtpPacket,
        twcc_ext_id: u8,
        now_ns: u64,
        keyframe_requested: &mut bool,
    ) -> (stats: VideoSampleStats)
        requires
            old(self).wf(),
            old(worker)@.decode_queue_depth >= 1,
        ensures
            final(self).wf(),
            ({
                let reception = received(
                    old(self)@,
                    old(worker)@,
                    packet@,
                    twcc_ext_id,
                    now_ns,
                    submission_of(stats.outcome, final(worker)@),
                );
                &&& final(self)@ == reception.state
                &&& final(worker)@ == reception.worker
                &&& *final(keyframe_requested) == (*old(keyframe_requested) || reception.keyframe)
                &&& stats@ == reception.stats
            }),
            fits_the_queue(
                stats.outcome,
                old(worker)@,
                final(worker)@,
                final(self)@.source_frame_duration_us,
            ),
    {
        let mut stats = VideoSampleStats::default();
        let (extensions_seen, twcc_samples) = self.note_transport(&packet, twcc_ext_id, now_ns);
        stats.extensions_seen = extensions_seen;
        stats.twcc_samples = twcc_samples;

        let intake = self.take_in(worker, packet, now_ns);
        let gave_up = intake.gave_up;
        stats.resynced = intake.resynced;
        if gave_up {
            *keyframe_requested = true;
            stats.dropped = 1;
        }
        if !intake.joined {
            return stats;
        }
        let ghost gathered = self@;
        let (data, marker_sequence, timestamp, first_packet_at_ns) = match &self.pending {
            None => {
                return stats;
            },
            Some(pending) => match pending.assemble(self.next_sequence) {
                FrameAssembly::Pending => {
                    return stats;
                },
                FrameAssembly::Invalid => {
                    self.pending = None;
                    self.next_sequence = None;
                    assert(self@ == discarded(gathered));
                    *keyframe_requested = true;
                    let resynced = self.record_damage(worker);
                    stats.resynced = stats.resynced || resynced;
                    stats.dropped = stats.dropped + 1;
                    stats.outcome = FrameOutcome::Invalid;
                    return stats;
                },
                FrameAssembly::Complete { data, marker_sequence } => (
                    data,
                    marker_sequence,
                    pending.timestamp(),
                    pending.first_packet_at_ns(),
                ),
            },
        };
        stats.frame = Some((timestamp, first_packet_at_ns));
        stats.assembly_us = Some(now_ns.saturating_sub(first_packet_at_ns) / 1000);
        stats.source_frame_duration_us = self.complete(timestamp, marker_sequence);

        let info = inspect_h264_access_unit(data.as_slice());
        assert(info == unit_info(data@));
        stats.encoded_resolution = info.resolution;
        let (verdict, resynced) = self.judge(worker, info, gave_up);
        stats.resynced = stats.resynced || resynced;
        stats.outcome = match verdict {
            Verdict::TooLarge => FrameOutcome::TooLarge,
            Verdict::StillTooLarge => FrameOutcome::StillTooLarge,
            Verdict::AwaitingKeyframe => FrameOutcome::AwaitingKeyframe,
            Verdict::Submit => {
                let outcome = worker.submit_access_unit(
                    data,
                    self.source_frame_duration_us,
                    now_ns,
                );
                settle_submission(&mut stats, outcome, keyframe_requested);
                return stats;
            },
        };
        *keyframe_requested = true;
        stats.dropped = stats.dropped + 1;
        stats
    }

    /// Nothing is held back for later, so nothing expires.
    pub fn flush_expired(
        &mut self,
        worker: &mut VideoDecodeWorker,
        keyframe_requested: &mut bool,
        stats: &mut VideoSampleStats,
    )
        ensures
            final(self)@ == old(self)@,
            final(worker)@ == old(worker)@,
            *final(keyframe_requested) == *old(keyframe_requested),
            *final(stats) == *old(stats),
    {
    }

    /// Forgets the moment that lag is measured from.
    pub fn reset_lag_anchor(&mut self)
        requires
            old(self).wf(),
        ensures
            final(self).wf(),
            final(self)@ == (VideoView { stream_clock_anchor: None, ..old(self)@ }),
    {
        self.stream_clock_anchor = None;
    }

    /// The bytes received so far, round the `u64` circle.
    pub fn total_bytes(&self) -> (bytes: u64)
        ensures
            bytes == self@.total_bytes,
    {
        self.total_bytes
    }

    /// The gap of middle rank between the transport numbers of neighbouring arrivals.
    pub fn twcc_median_stride(&self) -> (stride: u16)
        ensures
            stride == feedback::median(feedback::number_gaps(self@.twcc_annotations)),
    {
        median_gap(&self.twcc_annotations)
    }

    /// How many arrivals the next feedback report covers.
    pub fn twcc_annotation_count(&self) -> (count: usize)
        ensures
            count == self@.twcc_annotations.len(),
    {
        self.twcc_annotations.len()
    }

    /// Takes the arrivals noted so far out into a feedback report; `None` when there are none.
    pub fn take_twcc_report(&mut self, media_ssrc: u32) -> (report: Option<TwccReport>)
        requires
            old(self).wf(),
        ensures
            final(self).wf(),
            final(self)@ == (VideoView { twcc_annotations: Seq::empty(), ..old(self)@ }),
            report is Some <==> old(self)@.twcc_annotations.len() > 0,
            report matches Some(report) ==> report@ == feedback::twcc_report(
                media_ssrc,
                old(self)@.twcc_annotations,
            ),
    {
        if self.twcc_annotations.len() == 0 {
            assert(self@.twcc_annotations =~= Seq::empty());
            return None;
        }
        let report = report_arrivals(media_ssrc, &self.twcc_annotations);
        self.twcc_annotations = Vec::new();
        Some(report)
    }
}

} // verus!
