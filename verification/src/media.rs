//! The receiving ends of the video and audio tracks, with what is sent back to the console.

use crate::audio_rtp::AudioRtp;
use crate::decode_loop::DecodeResult;
use crate::commands::DecoderCommand;
use crate::decode_worker::{source_fps, SubmitOutcome, VideoDecodeWorker};
use crate::feedback::TwccReport;
use crate::input::{QueuedVideoMetadata, VideoMetadataQueue};
use crate::packet::RtpPacket;
use crate::text::{append, append_number, same_text};
use crate::video::DecodedFrame;
use crate::video_rtp::{FrameOutcome, VideoRtp, VideoSampleStats};
use crate::{audio_rtp, decode_worker, feedback, input, text, video_rtp};
use vstd::prelude::*;

verus! {

use crate::audio_rtp::AudioView;
use crate::decode_worker::WorkerView;
use crate::packet::PacketView;
use crate::video_rtp::{Reception, VideoView};

/// How often the stream's state is reported.
pub const STREAM_STATS_INTERVAL_NS: u64 = 1_000_000_000;

/// How often the bitrate estimate is sent.
pub const REMB_INTERVAL_NS: u64 = 500_000_000;

/// How often transport feedback is sent.
pub const TWCC_INTERVAL_NS: u64 = 15_000_000;

/// With this many packets to report on, transport feedback is sent at once, so that a burst does
/// not look like a queue building up.
pub const TWCC_PACKET_THRESHOLD: usize = 8;

/// The bitrate estimate that makes the console purge its queue.
pub const REMB_SHOCK_BPS: u32 = 100_000;

/// The bitrate estimate at the start.
pub const REMB_DEFAULT_BPS: u32 = 15_000_000;

/// The sender under which feedback is sent; nothing else is sent under it.
pub const LOCAL_RTCP_SENDER_SSRC: u32 = 1;

/// Whether render timing is reported for the frames that the decoder took.
pub const SEND_METADATA: bool = true;

/// What is counted of the video.
#[derive(Debug, Clone, Copy)]
pub struct VideoStats {
    pub dropped: u64,
    pub decode_errors: u64,
    pub last_sample_duration_us: Option<u64>,
    pub encoded_resolution: Option<(u32, u32)>,
}

/// The receiving end of the video track.
pub struct VideoReceiver {
    track_id: Option<String>,
    ssrc: Option<u32>,
    rtp: VideoRtp,
    decoder: VideoDecodeWorker,
    latest_frame: Option<(u64, DecodedFrame)>,
    next_frame_id: u64,
    received_packet: bool,
    last_stats_report_ns: u64,
    last_bw_bytes: u64,
    last_remb_at_ns: Option<u64>,
    last_twcc_at_ns: Option<u64>,
    twcc_fb_pkt_count: u8,
    stats: VideoStats,
    remb_shock_until_ns: Option<u64>,
}

/// The state of the video track's receiving end.
#[verifier::ext_equal]
pub ghost struct ReceiverView {
    pub track_id: Option<Seq<char>>,
    pub ssrc: Option<u32>,
    pub rtp: VideoView,
    pub decoder: WorkerView,
    /// The frame decoded last, with its number.
    pub latest_frame: Option<(u64, DecodedFrame)>,
    /// The number of the frame decoded last.
    pub frame_id: u64,
    pub received_packet: bool,
    pub last_stats_report_ns: u64,
    pub last_bw_bytes: u64,
    pub last_remb_at_ns: Option<u64>,
    pub last_twcc_at_ns: Option<u64>,
    pub twcc_fb_pkt_count: u8,
    pub stats: VideoStats,
    pub remb_shock_until_ns: Option<u64>,
}

/// A text that may be there.
pub open spec fn text_of(text: Option<String>) -> Option<Seq<char>> {
    match text {
        Some(text) => Some(text@),
        None => None,
    }
}

impl View for VideoReceiver {
    type V = ReceiverView;

    closed spec fn view(&self) -> ReceiverView {
        ReceiverView {
            track_id: text_of(self.track_id),
            ssrc: self.ssrc,
            rtp: self.rtp@,
            decoder: self.decoder@,
            latest_frame: self.latest_frame,
            frame_id: self.next_frame_id,
            received_packet: self.received_packet,
            last_stats_report_ns: self.last_stats_report_ns,
            last_bw_bytes: self.last_bw_bytes,
            last_remb_at_ns: self.last_remb_at_ns,
            last_twcc_at_ns: self.last_twcc_at_ns,
            twcc_fb_pkt_count: self.twcc_fb_pkt_count,
            stats: self.stats,
            remb_shock_until_ns: self.remb_shock_until_ns,
        }
    }
}

/// A sum, cut off at the largest `u64`.
pub open spec fn capped_sum(a: int, b: int) -> u64 {
    if a + b > u64::MAX {
        u64::MAX
    } else {
        (a + b) as u64
    }
}

/// The counts after a packet.
pub open spec fn stats_after(stats: VideoStats, sample: video_rtp::StatsView) -> VideoStats {
    VideoStats {
        dropped: capped_sum(stats.dropped as int, sample.dropped),
        decode_errors: stats.decode_errors,
        last_sample_duration_us: if sample.source_frame_duration_us is Some {
            sample.source_frame_duration_us
        } else {
            stats.last_sample_duration_us
        },
        encoded_resolution: if sample.encoded_resolution is Some {
            sample.encoded_resolution
        } else {
            stats.encoded_resolution
        },
    }
}

/// Whether the decoder's channel took a frame.
pub open spec fn was_accepted(outcome: FrameOutcome) -> bool {
    outcome == (FrameOutcome::Submitted { outcome: SubmitOutcome::Sent })
}

/// The frames that wait for their render-timing report after a packet: the one that the decoder
/// took is added, by its timestamp and the arrival of its first packet.
pub open spec fn metadata_after(
    queue: Seq<QueuedVideoMetadata>,
    sample: video_rtp::StatsView,
) -> Seq<QueuedVideoMetadata> {
    match sample.frame {
        Some(frame) if was_accepted(sample.outcome) => input::with_metadata(
            queue,
            QueuedVideoMetadata { server_data_key: frame.0, arrival_ns: frame.1 },
        ),
        _ => queue,
    }
}

/// The receiving end after a packet.
pub open spec fn receiver_after(receiver: ReceiverView, reception: Reception) -> ReceiverView {
    ReceiverView {
        received_packet: true,
        rtp: reception.state,
        decoder: reception.worker,
        stats: stats_after(receiver.stats, reception.stats),
        ..receiver
    }
}

/// How many of some decode results are errors.
pub open spec fn error_count(results: Seq<DecodeResult>) -> nat
    decreases results.len(),
{
    if results.len() == 0 {
        0
    } else {
        error_count(results.drop_last()) + if results.last() is Err {
            1nat
        } else {
            0
        }
    }
}

/// The latest frame and its number after some decode results: frames are numbered one after the
/// other, round the `u64` circle.
pub open spec fn frames_after(
    latest: Option<(u64, DecodedFrame)>,
    frame_id: u64,
    results: Seq<DecodeResult>,
) -> (Option<(u64, DecodedFrame)>, u64)
    decreases results.len(),
{
    if results.len() == 0 {
        (latest, frame_id)
    } else {
        let (latest, frame_id) = frames_after(latest, frame_id, results.drop_last());
        match results.last() {
            Ok(frame) => {
                let id = decode_worker::next_generation(frame_id);
                (Some((id, frame)), id)
            },
            Err(_) => (latest, frame_id),
        }
    }
}

/// The receiving end after some decode results. An error makes everything queued stale, drops
/// the decoder and holds units back until a keyframe comes.
pub open spec fn drained(receiver: ReceiverView, results: Seq<DecodeResult>) -> ReceiverView {
    let (latest_frame, frame_id) = frames_after(
        receiver.latest_frame,
        receiver.frame_id,
        results,
    );
    let errors = error_count(results);
    let seen = ReceiverView { latest_frame, frame_id, ..receiver };
    if errors == 0 {
        seen
    } else {
        ReceiverView {
            stats: VideoStats {
                decode_errors: capped_sum(receiver.stats.decode_errors as int, errors as int),
                ..receiver.stats
            },
            decoder: WorkerView {
                commands: receiver.decoder.commands.push(DecoderCommand::Reset),
                ..decode_worker::resynced(receiver.decoder)
            },
            rtp: VideoView { waiting_for_keyframe: true, ..receiver.rtp },
            ..seen
        }
    }
}

/// A request for a keyframe.
#[derive(Debug, Clone, Copy, PartialEq, Eq, Structural)]
pub struct PictureLoss {
    pub sender_ssrc: u32,
    pub media_ssrc: u32,
}

/// A bitrate estimate for one stream.
#[derive(Debug, Clone, Copy, PartialEq, Eq, Structural)]
pub struct BitrateEstimate {
    pub sender_ssrc: u32,
    pub bitrate_bps: u32,
    pub media_ssrc: u32,
}

/// Transport feedback with its running number.
#[derive(Debug, Clone)]
pub struct TransportFeedback {
    pub sender_ssrc: u32,
    pub fb_pkt_count: u8,
    pub report: TwccReport,
}

/// What the bandwidth is reckoned from.
#[derive(Debug, Clone, Copy, PartialEq, Eq, Structural)]
pub struct StatsWindow {
    pub elapsed_ns: u64,
    pub received_bytes: u64,
    pub twcc_stride: u16,
}

/// Whether something that happened `at` some time is less than `interval` ago.
pub open spec fn within(at_ns: Option<u64>, now_ns: u64, interval_ns: u64) -> bool {
    at_ns matches Some(at) && input::since(at, now_ns) < interval_ns
}

/// Whether something that happened `at` some time is less than `interval` ago.
pub fn is_within(at_ns: Option<u64>, now_ns: u64, interval_ns: u64) -> (recent: bool)
    ensures
        recent == within(at_ns, now_ns, interval_ns),
{
    match at_ns {
        Some(at) => now_ns.saturating_sub(at) < interval_ns,
        None => false,
    }
}

/// Whether the low bitrate estimate is being sent.
pub open spec fn in_shock(receiver: ReceiverView, now_ns: u64) -> bool {
    receiver.remb_shock_until_ns matches Some(until) && now_ns < until
}

/// The receiving end after a shock was triggered. The low estimate is due at once, however short a
/// time ago the last one was sent.
pub open spec fn shocked(receiver: ReceiverView, until_ns: u64) -> ReceiverView {
    ReceiverView { remb_shock_until_ns: Some(until_ns), last_remb_at_ns: None, ..receiver }
}

/// The receiving end after a chance to send a bitrate estimate: a shock that is over is
/// forgotten, and an estimate that is sent is noted.
pub open spec fn after_remb(receiver: ReceiverView, now_ns: u64) -> ReceiverView {
    if receiver.ssrc is None {
        receiver
    } else {
        ReceiverView {
            remb_shock_until_ns: if in_shock(receiver, now_ns) {
                receiver.remb_shock_until_ns
            } else {
                None
            },
            last_remb_at_ns: if within(receiver.last_remb_at_ns, now_ns, REMB_INTERVAL_NS) {
                receiver.last_remb_at_ns
            } else {
                Some(now_ns)
            },
            ..receiver
        }
    }
}

/// The bitrate estimate that is to be sent: the low one during a shock, else the one given.
pub open spec fn estimate_to_send(receiver: ReceiverView, now_ns: u64, remb_bps: u32) -> Option<
    BitrateEstimate,
> {
    match receiver.ssrc {
        Some(ssrc) if !within(receiver.last_remb_at_ns, now_ns, REMB_INTERVAL_NS) => Some(
            BitrateEstimate {
                sender_ssrc: LOCAL_RTCP_SENDER_SSRC,
                bitrate_bps: if in_shock(receiver, now_ns) {
                    REMB_SHOCK_BPS
                } else {
                    remb_bps
                },
                media_ssrc: ssrc,
            },
        ),
        _ => None,
    }
}

/// Whether transport feedback is sent: there is something to report, and either the last one is
/// long enough ago or enough packets are to be reported on.
pub open spec fn twcc_due(receiver: ReceiverView, now_ns: u64) -> bool {
    let count = receiver.rtp.twcc_annotations.len();
    &&& receiver.ssrc is Some
    &&& count > 0
    &&& count >= TWCC_PACKET_THRESHOLD || !within(
        receiver.last_twcc_at_ns,
        now_ns,
        TWCC_INTERVAL_NS,
    )
}

/// The receiving end after a chance to send transport feedback.
pub open spec fn after_twcc(
    receiver: ReceiverView,
    now_ns: u64,
    receiver_present: bool,
) -> ReceiverView {
    if twcc_due(receiver, now_ns) {
        ReceiverView {
            rtp: VideoView { twcc_annotations: Seq::empty(), ..receiver.rtp },
            last_twcc_at_ns: Some(now_ns),
            twcc_fb_pkt_count: if receiver_present {
                ((receiver.twcc_fb_pkt_count + 1) % 256) as u8
            } else {
                receiver.twcc_fb_pkt_count
            },
            ..receiver
        }
    } else {
        receiver
    }
}

/// Whether the stream's state is to be reported.
pub open spec fn status_due(receiver: ReceiverView, now_ns: u64) -> bool {
    input::since(receiver.last_stats_report_ns, now_ns) >= STREAM_STATS_INTERVAL_NS
}

/// What the bandwidth since the last report is reckoned from.
pub open spec fn stats_window(receiver: ReceiverView, now_ns: u64) -> Option<StatsWindow> {
    if status_due(receiver, now_ns) {
        Some(
            StatsWindow {
                elapsed_ns: input::since(receiver.last_stats_report_ns, now_ns) as u64,
                received_bytes: if receiver.rtp.total_bytes >= receiver.last_bw_bytes {
                    (receiver.rtp.total_bytes - receiver.last_bw_bytes) as u64
                } else {
                    0
                },
                twcc_stride: feedback::median(
                    feedback::number_gaps(receiver.rtp.twcc_annotations),
                ),
            },
        )
    } else {
        None
    }
}

/// The receiving end after a chance to report its state.
pub open spec fn after_status(receiver: ReceiverView, now_ns: u64) -> ReceiverView {
    if status_due(receiver, now_ns) {
        ReceiverView {
            last_stats_report_ns: now_ns,
            last_bw_bytes: receiver.rtp.total_bytes,
            ..receiver
        }
    } else {
        receiver
    }
}

/// The picture size as it is shown.
pub open spec fn resolution_text(resolution: Option<(u32, u32)>) -> Seq<char> {
    match resolution {
        Some(size) => text::decimal(size.0 as nat) + "x"@ + text::decimal(size.1 as nat),
        None => "?"@,
    }
}

/// The stream's state in one line, with a summary of the pipeline's performance in the middle.
pub open spec fn status_text(receiver: ReceiverView, performance: Seq<char>) -> Seq<char> {
    "enc:"@ + resolution_text(receiver.stats.encoded_resolution) + " srcfps:"@ + text::decimal(
        decode_worker::frames_per_second(receiver.stats.last_sample_duration_us, 0) as nat,
    ) + " "@ + performance + " wait:"@ + text::decimal(
        if receiver.rtp.waiting_for_keyframe {
            1
        } else {
            0
        },
    ) + " drop:"@ + text::decimal(receiver.stats.dropped as nat) + " err:"@ + text::decimal(
        receiver.stats.decode_errors as nat,
    )
}

/// Nothing has happened to a packet yet.
fn rtp_stats_scratch() -> (stats: VideoSampleStats)
    ensures
        stats@ == video_rtp::no_stats(),
{
    VideoSampleStats::default()
}

impl VideoReceiver {
    /// What holds of the receiving end at all times.
    pub open spec fn wf(self) -> bool {
        &&& video_rtp::video_wf(self@.rtp)
        &&& self@.decoder.decode_queue_depth >= 1
    }

    /// The receiving end of a track that has not been opened.
    pub fn new(decoder: VideoDecodeWorker, now_ns: u64) -> (receiver: Self)
        requires
            decoder@.decode_queue_depth >= 1,
        ensures
            receiver.wf(),
            receiver@ == (ReceiverView {
                track_id: None,
                ssrc: None,
                rtp: video_rtp::fresh_video(),
                decoder: decoder@,
                latest_frame: None,
                frame_id: 0,
                received_packet: false,
                last_stats_report_ns: now_ns,
                last_bw_bytes: 0,
                last_remb_at_ns: None,
                last_twcc_at_ns: None,
                twcc_fb_pkt_count: 0,
                stats: VideoStats {
                    dropped: 0,
                    decode_errors: 0,
                    last_sample_duration_us: None,
                    encoded_resolution: None,
                },
                remb_shock_until_ns: None,
            }),
    {
        VideoReceiver {
            track_id: None,
            ssrc: None,
            rtp: VideoRtp::new(),
            decoder,
            latest_frame: None,
            next_frame_id: 0,
            received_packet: false,
            last_stats_report_ns: now_ns,
            last_bw_bytes: 0,
            last_remb_at_ns: None,
            last_twcc_at_ns: None,
            twcc_fb_pkt_count: 0,
            stats: VideoStats {
                dropped: 0,
                decode_errors: 0,
                last_sample_duration_us: None,
                encoded_resolution: None,
            },
            remb_shock_until_ns: None,
        }
    }

    /// Opens the track.
    pub fn open(&mut self, track_id: String, ssrc: u32)
        requires
            old(self).wf(),
        ensures
            final(self).wf(),
            final(self)@ == (ReceiverView {
                track_id: Some(track_id@),
                ssrc: Some(ssrc),
                ..old(self)@
            }),
    {
        self.track_id = Some(track_id);
        self.ssrc = Some(ssrc);
    }

    /// Whether a packet of this track comes here.
    pub fn handles(&self, track_id: &str) -> (handles: bool)
        ensures
            handles == (self@.track_id == Some(track_id@)),
    {
        match &self.track_id {
            Some(own) => same_text(own.as_str(), track_id),
            None => false,
        }
    }

    /// Whether any packet has come.
    pub fn received_packet(&self) -> (received: bool)
        ensures
            received == self@.received_packet,
    {
        self.received_packet
    }

    /// The frame decoded last, with its number.
    pub fn latest_frame(&self) -> (frame: Option<(u64, DecodedFrame)>)
        ensures
            frame == self@.latest_frame,
    {
        self.latest_frame
    }

    /// Receives a packet. A frame that the decoder takes is queued for its render-timing report.
    pub fn receive(
        &mut self,
        packet: RtpPacket,
        twcc_ext_id: u8,
        now_ns: u64,
        keyframe_requested: &mut bool,
        metadata: &mut VideoMetadataQueue,
    ) -> (sample: VideoSampleStats)
        requires
            old(self).wf(),
            old(metadata).wf(),
        ensures
            final(self).wf(),
            final(metadata).wf(),
            ({
                let reception = video_rtp::received(
                    old(self)@.rtp,
                    old(self)@.decoder,
                    packet@,
                    twcc_ext_id,
                    now_ns,
                    video_rtp::submission_of(sample.outcome, final(self)@.decoder),
                );
                &&& video_rtp::fits_the_queue(
                    sample.outcome,
                    old(self)@.decoder,
                    final(self)@.decoder,
                    final(self)@.rtp.source_frame_duration_us,
                )
                &&& sample@ == reception.stats
                &&& final(self)@ == receiver_after(old(self)@, reception)
                &&& *final(keyframe_requested) == (*old(keyframe_requested) || reception.keyframe)
                &&& final(metadata)@ == metadata_after(old(metadata)@, reception.stats)
                &&& final(metadata).reports_sent() == old(metadata).reports_sent()
            }),
    {
        self.received_packet = true;
        let sample = self.rtp.receive(
            &mut self.decoder,
            packet,
            twcc_ext_id,
            now_ns,
            keyframe_requested,
        );
        self.stats.dropped = self.stats.dropped.saturating_add(sample.dropped as u64);
        if sample.source_frame_duration_us.is_some() {
            self.stats.last_sample_duration_us = sample.source_frame_duration_us;
        }
        if sample.encoded_resolution.is_some() {
            self.stats.encoded_resolution = sample.encoded_resolution;
        }
        if let FrameOutcome::Submitted { outcome } = sample.outcome {
            if SEND_METADATA && outcome.accepted() {
                if let Some((timestamp, first_packet_at_ns)) = sample.frame {
                    metadata.queue_video_metadata(timestamp, first_packet_at_ns);
                }
            }
        }
        sample
    }

    /// Takes in what the decoder came to. An error asks for a keyframe.
    pub fn drain_decoder(&mut self, results: &Vec<DecodeResult>, keyframe_requested: &mut bool)
        requires
            old(self).wf(),
        ensures
            final(self).wf(),
            final(self)@ == drained(old(self)@, results@),
            *final(keyframe_requested) == (*old(keyframe_requested) || error_count(results@) > 0),
    {
        let mut expired = rtp_stats_scratch();
        self.rtp.flush_expired(&mut self.decoder, keyframe_requested, &mut expired);
        self.stats.dropped = self.stats.dropped.saturating_add(expired.dropped as u64);
        let mut decode_errors: u64 = 0;
        let mut i: usize = 0;
        assert(results@.take(0) =~= Seq::empty());
        while i < results.len()
            invariant
                i <= results@.len(),
                decode_errors <= i,
                decode_errors == error_count(results@.take(i as int)),
                (self.latest_frame, self.next_frame_id) == frames_after(
                    old(self)@.latest_frame,
                    old(self)@.frame_id,
                    results@.take(i as int),
                ),
                self@ == (ReceiverView {
                    latest_frame: self.latest_frame,
                    frame_id: self.next_frame_id,
                    ..old(self)@
                }),
                *keyframe_requested == (*old(keyframe_requested) || decode_errors > 0),
            decreases results@.len() - i,
        {
            proof {
                assert(results@.take(i + 1).drop_last() =~= results@.take(i as int));
                assert(results@.take(i + 1).last() == results@[i as int]);
            }
            match &results[i] {
                Ok(frame) => {
                    self.next_frame_id = self.next_frame_id.wrapping_add(1);
                    self.latest_frame = Some((self.next_frame_id, *frame));
                },
                Err(_) => {
                    decode_errors = decode_errors.saturating_add(1);
                    *keyframe_requested = true;
                },
            }
            i = i + 1;
        }
        assert(results@.take(i as int) =~= results@);
        if decode_errors > 0 {
            self.stats.decode_errors = self.stats.decode_errors.saturating_add(decode_errors);
            self.decoder.reset_decoder();
            self.rtp.wait_for_keyframe();
        }
    }

    /// Forgets the moment that lag is measured from.
    pub fn reset_lag_anchor(&mut self)
        requires
            old(self).wf(),
        ensures
            final(self).wf(),
            final(self)@ == (ReceiverView {
                rtp: VideoView { stream_clock_anchor: None, ..old(self)@.rtp },
                ..old(self)@
            }),
    {
        self.rtp.reset_lag_anchor();
    }

    /// The request for a keyframe that is to be sent; none before the track was opened.
    pub fn request_keyframe(&self) -> (request: Option<PictureLoss>)
        ensures
            request == match self@.ssrc {
                Some(ssrc) => Some(PictureLoss { sender_ssrc: 0, media_ssrc: ssrc }),
                None => None,
            },
    {
        match self.ssrc {
            Some(ssrc) => Some(PictureLoss { sender_ssrc: 0, media_ssrc: ssrc }),
            None => None,
        }
    }

    /// The bitrate estimate that is to be sent, if one is due: the low one during a shock, else
    /// the one given.
    pub fn send_remb(&mut self, now_ns: u64, remb_bps: u32) -> (estimate: Option<BitrateEstimate>)
        requires
            old(self).wf(),
        ensures
            final(self).wf(),
            final(self)@ == after_remb(old(self)@, now_ns),
            estimate == estimate_to_send(old(self)@, now_ns, remb_bps),
    {
        let ssrc: u32 = match self.ssrc {
            Some(ssrc) => ssrc,
            None => {
                return None;
            },
        };
        let shock = match self.remb_shock_until_ns {
            Some(until) => now_ns < until,
            None => false,
        };
        let bitrate_bps: u32 = if shock {
            REMB_SHOCK_BPS
        } else {
            self.remb_shock_until_ns = None;
            remb_bps
        };
        if is_within(self.last_remb_at_ns, now_ns, REMB_INTERVAL_NS) {
            return None;
        }
        self.last_remb_at_ns = Some(now_ns);
        Some(
            BitrateEstimate {
                sender_ssrc: LOCAL_RTCP_SENDER_SSRC,
                bitrate_bps,
                media_ssrc: ssrc,
            },
        )
    }

    /// Sends the low bitrate estimate for a while, from the next chance to send one on.
    pub fn trigger_remb_shock(&mut self, now_ns: u64, duration_ns: u64)
        requires
            old(self).wf(),
            now_ns + duration_ns <= u64::MAX,
        ensures
            final(self).wf(),
            final(self)@ == shocked(old(self)@, (now_ns + duration_ns) as u64),
    {
        self.remb_shock_until_ns = Some(now_ns + duration_ns);
        self.last_remb_at_ns = None;
    }

    /// Whether a shock has been triggered and is not yet known to be over.
    pub fn remb_shock_active(&self) -> (active: bool)
        ensures
            active == (self@.remb_shock_until_ns is Some),
    {
        self.remb_shock_until_ns.is_some()
    }

    /// The transport feedback that is to be sent, if it is due. Where the peer has no receiver
    /// to send it with, the packets count as reported all the same.
    pub fn send_twcc(&mut self, now_ns: u64, receiver_present: bool) -> (sent: Option<
        TransportFeedback,
    >)
        requires
            old(self).wf(),
        ensures
            final(self).wf(),
            final(self)@ == after_twcc(old(self)@, now_ns, receiver_present),
            sent is Some <==> twcc_due(old(self)@, now_ns) && receiver_present,
            sent matches Some(sent) ==> {
                &&& sent.sender_ssrc == LOCAL_RTCP_SENDER_SSRC
                &&& sent.fb_pkt_count == old(self)@.twcc_fb_pkt_count
                &&& sent.report@ == feedback::twcc_report(
                    old(self)@.ssrc->0,
                    old(self)@.rtp.twcc_annotations,
                )
            },
    {
        let ssrc: u32 = match self.ssrc {
            Some(ssrc) => ssrc,
            None => {
                return None;
            },
        };
        let enough_packets = self.rtp.twcc_annotation_count() >= TWCC_PACKET_THRESHOLD;
        if !enough_packets && is_within(self.last_twcc_at_ns, now_ns, TWCC_INTERVAL_NS) {
            return None;
        }
        if self.rtp.twcc_annotation_count() == 0 {
            return None;
        }
        match self.rtp.take_twcc_report(ssrc) {
            None => None,
            Some(report) => {
                self.last_twcc_at_ns = Some(now_ns);
                if !receiver_present {
                    return None;
                }
                let fb_pkt_count: u8 = self.twcc_fb_pkt_count;
                self.twcc_fb_pkt_count = self.twcc_fb_pkt_count.wrapping_add(1);
                Some(TransportFeedback {
                    sender_ssrc: LOCAL_RTCP_SENDER_SSRC,
                    fb_pkt_count,
                    report,
                })
            },
        }
    }

    /// How many frames were lost so far.
    pub fn total_drops(&self) -> (drops: u64)
        ensures
            drops == self@.stats.dropped,
    {
        self.stats.dropped
    }

    /// Starts a report of the stream's state, if one is due: gives what the bandwidth since the
    /// last one is reckoned from.
    pub fn begin_status(&mut self, now_ns: u64) -> (window: Option<StatsWindow>)
        requires
            old(self).wf(),
        ensures
            final(self).wf(),
            window == stats_window(old(self)@, now_ns),
            final(self)@ == after_status(old(self)@, now_ns),
    {
        let elapsed_ns: u64 = now_ns.saturating_sub(self.last_stats_report_ns);
        if elapsed_ns < STREAM_STATS_INTERVAL_NS {
            return None;
        }
        self.last_stats_report_ns = now_ns;
        let twcc_stride: u16 = self.rtp.twcc_median_stride();
        let total: u64 = self.rtp.total_bytes();
        let received_bytes: u64 = total.saturating_sub(self.last_bw_bytes);
        self.last_bw_bytes = total;
        Some(StatsWindow { elapsed_ns, received_bytes, twcc_stride })
    }

    /// The stream's state in one line, with a summary of the pipeline's performance in the
    /// middle.
    pub fn status_line(&self, performance: &str) -> (line: String)
        ensures
            line@ == status_text(self@, performance@),
    {
        let fps: u64 = source_fps(self.stats.last_sample_duration_us, 0);
        let mut line = String::new();
        append(&mut line, "enc:");
        match self.stats.encoded_resolution {
            Some((width, height)) => {
                append_number(&mut line, width as u64);
                append(&mut line, "x");
                append_number(&mut line, height as u64);
            },
            None => {
                append(&mut line, "?");
            },
        }
        assert(line@ =~= "enc:"@ + resolution_text(self@.stats.encoded_resolution));
        append(&mut line, " srcfps:");
        append_number(&mut line, fps);
        append(&mut line, " ");
        append(&mut line, performance);
        append(&mut line, " wait:");
        append_number(
            &mut line,
            if self.rtp.waiting_for_keyframe() {
                1
            } else {
                0
            },
        );
        append(&mut line, " drop:");
        append_number(&mut line, self.stats.dropped);
        append(&mut line, " err:");
        append_number(&mut line, self.stats.decode_errors);
        line
    }
}

/// The receiving end of the audio track.
pub struct AudioReceiver {
    track_id: Option<String>,
    rtp: AudioRtp,
    packets: Vec<Vec<u8>>,
}

/// The state of the audio track's receiving end.
#[verifier::ext_equal]
pub ghost struct AudioReceiverView {
    pub track_id: Option<Seq<char>>,
    pub rtp: AudioView,
    /// The Opus packets that wait to be played.
    pub packets: Seq<Seq<u8>>,
}

impl View for AudioReceiver {
    type V = AudioReceiverView;

    closed spec fn view(&self) -> AudioReceiverView {
        AudioReceiverView {
            track_id: text_of(self.track_id),
            rtp: self.rtp@,
            packets: audio_rtp::packets_view(self.packets@),
        }
    }
}

impl AudioReceiver {
    /// What holds of the receiving end at all times: no more packets wait than may.
    pub closed spec fn wf(self) -> bool {
        &&& self.rtp.wf()
        &&& self.packets@.len() <= audio_rtp::MAX_PENDING_AUDIO_PACKETS
    }

    /// The receiving end of a track that has not been opened.
    pub fn new(sample_rate: u32, payload_type: u8) -> (receiver: Self)
        requires
            sample_rate > 0,
        ensures
            receiver.wf(),
            receiver@.track_id is None,
            receiver@.packets == Seq::<Seq<u8>>::empty(),
            receiver@.rtp == (AudioView {
                calls: audio_rtp::made(sample_rate),
                sample_rate,
                payload_type,
            }),
    {
        let receiver = AudioReceiver {
            track_id: None,
            rtp: AudioRtp::new(sample_rate, payload_type),
            packets: Vec::new(),
        };
        assert(receiver@.packets =~= Seq::<Seq<u8>>::empty());
        receiver
    }

    /// Opens the track.
    pub fn open(&mut self, track_id: String)
        requires
            old(self).wf(),
        ensures
            final(self).wf(),
            final(self)@ == (AudioReceiverView { track_id: Some(track_id@), ..old(self)@ }),
    {
        self.track_id = Some(track_id);
    }

    /// Whether a packet of this track comes here.
    pub fn handles(&self, track_id: &str) -> (handles: bool)
        ensures
            handles == (self@.track_id == Some(track_id@)),
    {
        match &self.track_id {
            Some(own) => same_text(own.as_str(), track_id),
            None => false,
        }
    }

    /// Receives a packet.
    pub fn receive(&mut self, packet: RtpPacket)
        requires
            old(self).wf(),
        ensures
            final(self).wf(),
            ({
                let (rtp, packets) = audio_rtp::audio_received(
                    old(self)@.rtp,
                    packet@,
                    old(self)@.packets,
                );
                final(self)@ == (AudioReceiverView { rtp, packets, ..old(self)@ })
            }),
    {
        self.rtp.receive(packet, &mut self.packets);
    }

    /// Takes the Opus packets that wait to be played.
    pub fn take_packets(&mut self) -> (packets: Vec<Vec<u8>>)
        requires
            old(self).wf(),
        ensures
            final(self).wf(),
            audio_rtp::packets_view(packets@) == old(self)@.packets,
            final(self)@ == (AudioReceiverView {
                packets: Seq::<Seq<u8>>::empty(),
                ..old(self)@
            }),
    {
        let mut packets: Vec<Vec<u8>> = Vec::new();
        std::mem::swap(&mut packets, &mut self.packets);
        assert(self@.packets =~= Seq::<Seq<u8>>::empty());
        packets
    }
}

} // verus!
