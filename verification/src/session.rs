//! The control of a streaming session: when keyframes are asked for, when the console's backlog
//! is flushed, and what the session's status is.

use crate::decode_loop::DecodeResult;
use crate::media::{
    is_within, AudioReceiver, BitrateEstimate, StatsWindow, TransportFeedback, VideoReceiver,
};
use crate::negotiation::RtcSessionConfig;
use crate::packet::RtpPacket;
use crate::input::VideoMetadataQueue;
use crate::text::{append, append_number};
use crate::video_rtp::VideoSampleStats;
use crate::{audio_rtp, feedback, input, media, video_rtp};
use vstd::prelude::*;

verus! {

use crate::feedback::TwccView;
use crate::media::{AudioReceiverView, ReceiverView};

/// The least time between two requests for a keyframe.
pub const KEYFRAME_REQUEST_COOLDOWN_NS: u64 = 300_000_000;

/// Requests are counted over this time.
pub const KEYFRAME_STORM_WINDOW_NS: u64 = 4_000_000_000;

/// With this many requests in the window recovery is failing, and more of them would only
/// burden the console.
pub const KEYFRAME_STORM_THRESHOLD: usize = 3;

/// The least time between two requests while recovery is failing.
pub const KEYFRAME_STORM_COOLDOWN_NS: u64 = 2_000_000_000;

/// From this lag on the console is taken to have a backlog.
pub const LAG_FLUSH_THRESHOLD_US: u64 = 150_000;

/// How long the signs of a backlog have to last.
pub const LAG_FLUSH_SUSTAIN_NS: u64 = 1_000_000_000;

/// The least time between two flushes.
pub const LAG_FLUSH_MIN_INTERVAL_NS: u64 = 10_000_000_000;

/// From this many lost frames since the last flush on the console is taken to have a backlog.
pub const DROP_FLUSH_THRESHOLD: u64 = 25;

/// How long after the connection the first video packet is waited for.
pub const INITIAL_VIDEO_GRACE_NS: u64 = 500_000_000;

/// How often a keyframe is asked for while no video packet has come.
pub const INITIAL_VIDEO_KEYFRAME_INTERVAL_NS: u64 = 500_000_000;

/// How often a keyframe is asked for where that is set.
pub const PERIODIC_KEYFRAME_INTERVAL_NS: u64 = 200_000_000;

/// The state of the connection to the console.
#[derive(Debug, Clone, Copy, PartialEq, Eq, Structural)]
pub enum ConnectionState {
    Unspecified,
    New,
    Connecting,
    Connected,
    Disconnected,
    Failed,
    Closed,
}

/// The name of a connection state.
pub open spec fn state_name(state: ConnectionState) -> Seq<char> {
    match state {
        ConnectionState::Unspecified => "Unspecified"@,
        ConnectionState::New => "New"@,
        ConnectionState::Connecting => "Connecting"@,
        ConnectionState::Connected => "Connected"@,
        ConnectionState::Disconnected => "Disconnected"@,
        ConnectionState::Failed => "Failed"@,
        ConnectionState::Closed => "Closed"@,
    }
}

impl ConnectionState {
    /// The name of the state.
    pub fn name(self) -> (name: &'static str)
        ensures
            name@ == state_name(self),
    {
        match self {
            ConnectionState::Unspecified => "Unspecified",
            ConnectionState::New => "New",
            ConnectionState::Connecting => "Connecting",
            ConnectionState::Connected => "Connected",
            ConnectionState::Disconnected => "Disconnected",
            ConnectionState::Failed => "Failed",
            ConnectionState::Closed => "Closed",
        }
    }
}

/// What the peer connection reports.
#[derive(Debug, Clone)]
pub enum PeerEvent {
    StateChanged { state: ConnectionState },
    /// A way to reach this client was found.
    CandidateGathered,
    CandidateFailed,
    VideoTrackOpened { track_id: String, ssrc: u32 },
    AudioTrackOpened { track_id: String },
    ChannelOpened { channel_id: u16 },
    Other,
}

/// What is to be done about it.
#[derive(Debug, Clone, Copy, PartialEq, Eq, Structural)]
pub enum PeerAction {
    Nothing,
    /// The candidate is to be passed on to the console.
    PassCandidate,
    LogCandidateError,
    /// The channel is to be greeted.
    GreetChannel { channel_id: u16 },
}

/// A flush of the console's backlog, with what led to it.
#[derive(Debug, Clone, Copy, PartialEq, Eq, Structural)]
pub struct BacklogFlush {
    pub lag_us: u64,
    pub drops_since_flush: u64,
    pub total_drops: u64,
}

/// The control of a session.
pub struct SessionControl {
    video: VideoReceiver,
    audio: AudioReceiver,
    config: RtcSessionConfig,
    connection_state: ConnectionState,
    last_keyframe_request_ns: Option<u64>,
    recent_keyframe_requests_ns: Vec<u64>,
    last_periodic_keyframe_ns: Option<u64>,
    lag_high_since_ns: Option<u64>,
    last_lag_flush_ns: Option<u64>,
    drops_at_last_flush: u64,
    last_shock_ns: Option<u64>,
    drops_at_last_shock: u64,
    initial_video_watchdog_started_at_ns: Option<u64>,
    last_initial_video_keyframe_request_ns: Option<u64>,
    status: String,
}

/// The state of a session.
#[verifier::ext_equal]
pub ghost struct SessionView {
    pub video: ReceiverView,
    pub audio: AudioReceiverView,
    pub config: RtcSessionConfig,
    pub connection_state: ConnectionState,
    pub last_keyframe_request_ns: Option<u64>,
    pub recent_keyframe_requests_ns: Seq<u64>,
    pub last_periodic_keyframe_ns: Option<u64>,
    pub lag_high_since_ns: Option<u64>,
    pub last_lag_flush_ns: Option<u64>,
    pub drops_at_last_flush: u64,
    pub last_shock_ns: Option<u64>,
    pub drops_at_last_shock: u64,
    pub watchdog_started_at_ns: Option<u64>,
    pub last_initial_keyframe_request_ns: Option<u64>,
    pub status: Seq<char>,
}

impl View for SessionControl {
    type V = SessionView;

    closed spec fn view(&self) -> SessionView {
        SessionView {
            video: self.video@,
            audio: self.audio@,
            config: self.config,
            connection_state: self.connection_state,
            last_keyframe_request_ns: self.last_keyframe_request_ns,
            recent_keyframe_requests_ns: self.recent_keyframe_requests_ns@,
            last_periodic_keyframe_ns: self.last_periodic_keyframe_ns,
            lag_high_since_ns: self.lag_high_since_ns,
            last_lag_flush_ns: self.last_lag_flush_ns,
            drops_at_last_flush: self.drops_at_last_flush,
            last_shock_ns: self.last_shock_ns,
            drops_at_last_shock: self.drops_at_last_shock,
            watchdog_started_at_ns: self.initial_video_watchdog_started_at_ns,
            last_initial_keyframe_request_ns: self.last_initial_video_keyframe_request_ns,
            status: self.status@,
        }
    }
}

// Keyframes.

/// The requests that still lie in the window.
pub open spec fn recent_requests(requests: Seq<u64>, now_ns: u64) -> Seq<u64> {
    requests.filter(|at: u64| input::since(at, now_ns) < KEYFRAME_STORM_WINDOW_NS)
}

/// The least time since the last request, given those in the window.
pub open spec fn keyframe_cooldown(recent: Seq<u64>) -> u64 {
    if recent.len() >= KEYFRAME_STORM_THRESHOLD {
        KEYFRAME_STORM_COOLDOWN_NS
    } else {
        KEYFRAME_REQUEST_COOLDOWN_NS
    }
}

/// Whether a request for a keyframe goes out.
pub open spec fn request_granted(session: SessionView, now_ns: u64) -> bool {
    !media::within(
        session.last_keyframe_request_ns,
        now_ns,
        keyframe_cooldown(recent_requests(session.recent_keyframe_requests_ns, now_ns)),
    )
}

/// The session after a keyframe was wanted.
pub open spec fn after_keyframe_wanted(session: SessionView, now_ns: u64) -> SessionView {
    let recent = recent_requests(session.recent_keyframe_requests_ns, now_ns);
    if request_granted(session, now_ns) {
        SessionView {
            recent_keyframe_requests_ns: recent.push(now_ns),
            last_keyframe_request_ns: Some(now_ns),
            ..session
        }
    } else {
        SessionView { recent_keyframe_requests_ns: recent, ..session }
    }
}

/// Whether the watch for the first video packet is on: connected, and none has come.
pub open spec fn watching(session: SessionView) -> bool {
    !session.video.received_packet && session.connection_state == ConnectionState::Connected
}

/// When the watch for the first video packet began.
pub open spec fn watch_start(session: SessionView, now_ns: u64) -> u64 {
    match session.watchdog_started_at_ns {
        Some(at) => at,
        None => now_ns,
    }
}

/// Whether a keyframe is to be asked for because no video packet has come.
pub open spec fn initial_keyframe_due(session: SessionView, now_ns: u64) -> bool {
    &&& watching(session)
    &&& input::since(watch_start(session, now_ns), now_ns) >= INITIAL_VIDEO_GRACE_NS
    &&& !media::within(
        session.last_initial_keyframe_request_ns,
        now_ns,
        INITIAL_VIDEO_KEYFRAME_INTERVAL_NS,
    )
}

/// The session after a look at the watch for the first video packet.
pub open spec fn after_watch(session: SessionView, now_ns: u64) -> SessionView {
    if !watching(session) {
        SessionView {
            watchdog_started_at_ns: None,
            last_initial_keyframe_request_ns: None,
            ..session
        }
    } else {
        SessionView {
            watchdog_started_at_ns: Some(watch_start(session, now_ns)),
            last_initial_keyframe_request_ns: if initial_keyframe_due(session, now_ns) {
                Some(now_ns)
            } else {
                session.last_initial_keyframe_request_ns
            },
            ..session
        }
    }
}

/// Whether a keyframe is to be asked for because that is set to happen regularly.
pub open spec fn periodic_keyframe_is_due(session: SessionView, now_ns: u64) -> bool {
    &&& session.config.periodic_keyframe_enabled
    &&& session.video.ssrc is Some
    &&& !media::within(
        session.last_periodic_keyframe_ns,
        now_ns,
        PERIODIC_KEYFRAME_INTERVAL_NS,
    )
}

// Backlog.

/// How many frames were lost since a count was taken.
pub open spec fn drops_since(session: SessionView, count: u64) -> u64 {
    if session.video.stats.dropped >= count {
        (session.video.stats.dropped - count) as u64
    } else {
        0
    }
}

/// Whether there are signs of a backlog: a high lag, or many lost frames.
pub open spec fn shows_backlog(session: SessionView, lag_us: u64) -> bool {
    lag_us >= LAG_FLUSH_THRESHOLD_US || drops_since(session, session.drops_at_last_flush)
        >= DROP_FLUSH_THRESHOLD
}

/// Since when there have been signs of a backlog.
pub open spec fn backlog_since(session: SessionView, now_ns: u64) -> u64 {
    match session.lag_high_since_ns {
        Some(at) => at,
        None => now_ns,
    }
}

/// Whether the backlog is to be flushed: the signs have lasted, and the last flush is long
/// enough ago.
pub open spec fn flush_due(session: SessionView, lag_us: u64, now_ns: u64) -> bool {
    &&& session.connection_state == ConnectionState::Connected
    &&& shows_backlog(session, lag_us)
    &&& input::since(backlog_since(session, now_ns), now_ns) >= LAG_FLUSH_SUSTAIN_NS
    &&& !media::within(session.last_lag_flush_ns, now_ns, LAG_FLUSH_MIN_INTERVAL_NS)
}

/// The session after a look at the backlog.
pub open spec fn after_backlog(session: SessionView, lag_us: u64, now_ns: u64) -> SessionView {
    if session.connection_state != ConnectionState::Connected {
        session
    } else if !shows_backlog(session, lag_us) {
        SessionView { lag_high_since_ns: None, ..session }
    } else if flush_due(session, lag_us, now_ns) {
        SessionView {
            last_lag_flush_ns: Some(now_ns),
            lag_high_since_ns: None,
            drops_at_last_flush: session.video.stats.dropped,
            video: ReceiverView {
                rtp: video_rtp::VideoView { stream_clock_anchor: None, ..session.video.rtp },
                ..session.video
            },
            ..session
        }
    } else {
        SessionView { lag_high_since_ns: Some(backlog_since(session, now_ns)), ..session }
    }
}

/// Whether the bitrate estimate is to be dropped for a moment.
pub open spec fn shock_due(session: SessionView, now_ns: u64) -> bool {
    &&& session.config.remb_auto_shock_enabled
    &&& drops_since(session, session.drops_at_last_shock) >= session.config.remb_shock_drop_gap
    &&& !media::within(
        session.last_shock_ns,
        now_ns,
        (session.config.remb_shock_cooldown_secs * 1_000_000_000) as u64,
    )
}

/// When a shock that starts now ends.
pub open spec fn shock_end(session: SessionView, now_ns: u64) -> int {
    now_ns + session.config.remb_shock_duration_ms * 1_000_000
}

/// The session after a look at the lost frames.
pub open spec fn after_shock(session: SessionView, now_ns: u64) -> SessionView {
    if shock_due(session, now_ns) {
        SessionView {
            last_shock_ns: Some(now_ns),
            drops_at_last_shock: session.video.stats.dropped,
            video: media::shocked(session.video, shock_end(session, now_ns) as u64),
            ..session
        }
    } else {
        session
    }
}

// Status.

/// What the peer connection reports.
pub ghost enum PeerEventView {
    StateChanged { state: ConnectionState },
    CandidateGathered,
    CandidateFailed,
    VideoTrackOpened { track_id: Seq<char>, ssrc: u32 },
    AudioTrackOpened { track_id: Seq<char> },
    ChannelOpened { channel_id: u16 },
    Other,
}

impl View for PeerEvent {
    type V = PeerEventView;

    open spec fn view(&self) -> PeerEventView {
        match *self {
            PeerEvent::StateChanged { state } => PeerEventView::StateChanged { state },
            PeerEvent::CandidateGathered => PeerEventView::CandidateGathered,
            PeerEvent::CandidateFailed => PeerEventView::CandidateFailed,
            PeerEvent::VideoTrackOpened { track_id, ssrc } => PeerEventView::VideoTrackOpened {
                track_id: track_id@,
                ssrc,
            },
            PeerEvent::AudioTrackOpened { track_id } => PeerEventView::AudioTrackOpened {
                track_id: track_id@,
            },
            PeerEvent::ChannelOpened { channel_id } => PeerEventView::ChannelOpened { channel_id },
            PeerEvent::Other => PeerEventView::Other,
        }
    }
}

/// The session after an event.
pub open spec fn after_event(session: SessionView, event: PeerEventView) -> SessionView {
    match event {
        PeerEventView::StateChanged { state } => SessionView {
            connection_state: state,
            status: "WebRTC connection: "@ + state_name(state),
            ..session
        },
        PeerEventView::VideoTrackOpened { track_id, ssrc } => SessionView {
            video: ReceiverView { track_id: Some(track_id), ssrc: Some(ssrc), ..session.video },
            status: "Receiving video track"@,
            ..session
        },
        PeerEventView::AudioTrackOpened { track_id } => SessionView {
            audio: AudioReceiverView { track_id: Some(track_id), ..session.audio },
            status: "Receiving audio track"@,
            ..session
        },
        _ => session,
    }
}

/// What is to be done about an event.
pub open spec fn event_action(event: PeerEventView) -> PeerAction {
    match event {
        PeerEventView::CandidateGathered => PeerAction::PassCandidate,
        PeerEventView::CandidateFailed => PeerAction::LogCandidateError,
        PeerEventView::ChannelOpened { channel_id } => PeerAction::GreetChannel { channel_id },
        _ => PeerAction::Nothing,
    }
}

/// The session's status line: the size that the console reports, the stream's state, and the
/// state of the protocol.
pub open spec fn session_status(
    server_video_size: Option<(u32, u32)>,
    stream_status: Seq<char>,
    debug_state: Seq<char>,
) -> Seq<char> {
    "srv:"@ + media::resolution_text(server_video_size) + " "@ + stream_status + " "@ + debug_state
}

/// What a turn of the session goes by.
#[derive(Debug, Clone, Copy)]
pub struct PumpInputs {
    pub now_ns: u64,
    /// The bitrate estimate to send.
    pub remb_bps: u32,
    /// Whether the peer has a receiver to send feedback with.
    pub receiver_present: bool,
    /// The lag that is measured.
    pub lag_us: u64,
}

/// What is to be done after a turn of the session.
#[derive(Debug)]
pub struct PumpActions {
    /// A keyframe is wanted because no video packet has come.
    pub initial_keyframe: bool,
    /// A keyframe is to be asked for on all ways.
    pub ask_keyframe: bool,
    /// A keyframe is to be asked for by picture loss indication only.
    pub periodic_keyframe: bool,
    /// The bitrate estimate was dropped for a moment.
    pub shocked: bool,
    pub estimate: Option<BitrateEstimate>,
    pub feedback: Option<TransportFeedback>,
    pub flush: Option<BacklogFlush>,
    /// The stream's state is to be reported.
    pub window: Option<StatsWindow>,
}

/// What a turn of the session comes to.
pub ghost struct Turn {
    pub session: SessionView,
    pub initial_keyframe: bool,
    pub ask_keyframe: bool,
    pub periodic_keyframe: bool,
    pub shocked: bool,
    pub estimate: Option<BitrateEstimate>,
    pub feedback: Option<(u8, TwccView)>,
    pub flush: Option<BacklogFlush>,
    pub window: Option<StatsWindow>,
}

/// The session with the decoder's results taken in.
pub open spec fn with_results(session: SessionView, results: Seq<DecodeResult>) -> SessionView {
    SessionView { video: media::drained(session.video, results), ..session }
}

/// The session after a chance to ask for a keyframe.
pub open spec fn after_request(session: SessionView, wanted: bool, now_ns: u64) -> SessionView {
    if wanted {
        after_keyframe_wanted(session, now_ns)
    } else {
        session
    }
}

/// The session after a chance to ask for a keyframe regularly.
pub open spec fn after_periodic(session: SessionView, now_ns: u64) -> SessionView {
    if periodic_keyframe_is_due(session, now_ns) {
        SessionView { last_periodic_keyframe_ns: Some(now_ns), ..session }
    } else {
        session
    }
}

/// What one turn of the session comes to: its parts one after the other.
pub open spec fn pumped(
    session: SessionView,
    results: Seq<DecodeResult>,
    keyframe_requested: bool,
    inputs: PumpInputs,
) -> Turn {
    let now_ns = inputs.now_ns;
    let drained = with_results(session, results);
    let initial_keyframe = initial_keyframe_due(drained, now_ns);
    let watched = after_watch(drained, now_ns);
    let wanted = keyframe_requested || media::error_count(results) > 0 || initial_keyframe;
    let asked = after_request(watched, wanted, now_ns);
    let refreshed = after_periodic(asked, now_ns);
    let shocked = after_shock(refreshed, now_ns);
    let estimated = SessionView { video: media::after_remb(shocked.video, now_ns), ..shocked };
    let reported = SessionView {
        video: media::after_twcc(estimated.video, now_ns, inputs.receiver_present),
        ..estimated
    };
    let flushed = after_backlog(reported, inputs.lag_us, now_ns);
    Turn {
        session: SessionView { video: media::after_status(flushed.video, now_ns), ..flushed },
        initial_keyframe,
        ask_keyframe: wanted && request_granted(watched, now_ns),
        periodic_keyframe: periodic_keyframe_is_due(asked, now_ns),
        shocked: shock_due(refreshed, now_ns),
        estimate: media::estimate_to_send(shocked.video, now_ns, inputs.remb_bps),
        feedback: if media::twcc_due(estimated.video, now_ns) && inputs.receiver_present {
            Some(
                (
                    estimated.video.twcc_fb_pkt_count,
                    feedback::twcc_report(
                        estimated.video.ssrc->0,
                        estimated.video.rtp.twcc_annotations,
                    ),
                ),
            )
        } else {
            None
        },
        flush: flush_to_send(reported, inputs.lag_us, now_ns),
        window: media::stats_window(flushed.video, now_ns),
    }
}

/// The flush that is to be asked for.
pub open spec fn flush_to_send(session: SessionView, lag_us: u64, now_ns: u64) -> Option<
    BacklogFlush,
> {
    if flush_due(session, lag_us, now_ns) {
        Some(
            BacklogFlush {
                lag_us,
                drops_since_flush: drops_since(session, session.drops_at_last_flush),
                total_drops: session.video.stats.dropped,
            },
        )
    } else {
        None
    }
}

impl SessionControl {
    /// What holds of a session at all times.
    pub closed spec fn wf(self) -> bool {
        self.video.wf() && self.audio.wf()
    }

    /// A session whose connection is being negotiated.
    pub fn new(video: VideoReceiver, audio: AudioReceiver, config: RtcSessionConfig) -> (session:
        Self)
        requires
            video.wf(),
            audio.wf(),
        ensures
            session.wf(),
            session@ == (SessionView {
                video: video@,
                audio: audio@,
                config,
                connection_state: ConnectionState::New,
                last_keyframe_request_ns: None,
                recent_keyframe_requests_ns: Seq::empty(),
                last_periodic_keyframe_ns: None,
                lag_high_since_ns: None,
                last_lag_flush_ns: None,
                drops_at_last_flush: 0,
                last_shock_ns: None,
                drops_at_last_shock: 0,
                watchdog_started_at_ns: None,
                last_initial_keyframe_request_ns: None,
                status: "Negotiating WebRTC connection"@,
            }),
    {
        SessionControl {
            video,
            audio,
            config,
            connection_state: ConnectionState::New,
            last_keyframe_request_ns: None,
            recent_keyframe_requests_ns: Vec::new(),
            last_periodic_keyframe_ns: None,
            lag_high_since_ns: None,
            last_lag_flush_ns: None,
            drops_at_last_flush: 0,
            last_shock_ns: None,
            drops_at_last_shock: 0,
            initial_video_watchdog_started_at_ns: None,
            last_initial_video_keyframe_request_ns: None,
            status: "Negotiating WebRTC connection".to_string(),
        }
    }

    /// The state of the connection.
    pub fn connection_state(&self) -> (state: ConnectionState)
        ensures
            state == self@.connection_state,
    {
        self.connection_state
    }

    /// The status to be shown.
    pub fn status(&self) -> (status: &str)
        ensures
            status@ == self@.status,
    {
        self.status.as_str()
    }

    /// The receiving end of the video track.
    pub fn video(&self) -> (video: &VideoReceiver)
        ensures
            video@ == self@.video,
    {
        &self.video
    }

    /// Takes in an event of the peer connection; gives what is to be done about it.
    pub fn handle_peer_event(&mut self, event: PeerEvent) -> (action: PeerAction)
        requires
            old(self).wf(),
        ensures
            final(self).wf(),
            final(self)@ == after_event(old(self)@, event@),
            action == event_action(event@),
    {
        match event {
            PeerEvent::StateChanged { state } => {
                self.connection_state = state;
                let mut status = String::new();
                append(&mut status, "WebRTC connection: ");
                append(&mut status, state.name());
                assert(status@ =~= "WebRTC connection: "@ + state_name(state));
                self.status = status;
                PeerAction::Nothing
            },
            PeerEvent::CandidateGathered => PeerAction::PassCandidate,
            PeerEvent::CandidateFailed => PeerAction::LogCandidateError,
            PeerEvent::VideoTrackOpened { track_id, ssrc } => {
                self.video.open(track_id, ssrc);
                self.status = "Receiving video track".to_string();
                PeerAction::Nothing
            },
            PeerEvent::AudioTrackOpened { track_id } => {
                self.audio.open(track_id);
                self.status = "Receiving audio track".to_string();
                PeerAction::Nothing
            },
            PeerEvent::ChannelOpened { channel_id } => PeerAction::GreetChannel { channel_id },
            PeerEvent::Other => PeerAction::Nothing,
        }
    }

    /// Receives a packet of a track: video goes to the video track's receiving end, audio to the
    /// audio track's, and anything else is ignored. Gives what a video packet led to.
    pub fn receive_packet(
        &mut self,
        track_id: &str,
        packet: RtpPacket,
        twcc_ext_id: u8,
        now_ns: u64,
        keyframe_requested: &mut bool,
        metadata: &mut VideoMetadataQueue,
    ) -> (sample: Option<VideoSampleStats>)
        requires
            old(self).wf(),
            old(metadata).wf(),
        ensures
            final(self).wf(),
            final(metadata).wf(),
            sample is Some <==> old(self)@.video.track_id == Some(track_id@),
            match sample {
                Some(sample) => {
                    let reception = video_rtp::received(
                        old(self)@.video.rtp,
                        old(self)@.video.decoder,
                        packet@,
                        twcc_ext_id,
                        now_ns,
                        video_rtp::submission_of(sample.outcome, final(self)@.video.decoder),
                    );
                    &&& video_rtp::fits_the_queue(
                        sample.outcome,
                        old(self)@.video.decoder,
                        final(self)@.video.decoder,
                        final(self)@.video.rtp.source_frame_duration_us,
                    )
                    &&& sample@ == reception.stats
                    &&& final(self)@ == (SessionView {
                        video: media::receiver_after(old(self)@.video, reception),
                        ..old(self)@
                    })
                    &&& *final(keyframe_requested) == (*old(keyframe_requested)
                        || reception.keyframe)
                    &&& final(metadata)@ == media::metadata_after(old(metadata)@, reception.stats)
                    &&& final(metadata).reports_sent() == old(metadata).reports_sent()
                },
                None => {
                    &&& *final(keyframe_requested) == *old(keyframe_requested)
                    &&& *final(metadata) == *old(metadata)
                    &&& final(self)@ == if old(self)@.audio.track_id == Some(track_id@) {
                        let (rtp, packets) = audio_rtp::audio_received(
                            old(self)@.audio.rtp,
                            packet@,
                            old(self)@.audio.packets,
                        );
                        SessionView {
                            audio: AudioReceiverView { rtp, packets, ..old(self)@.audio },
                            ..old(self)@
                        }
                    } else {
                        old(self)@
                    }
                },
            },
    {
        if self.video.handles(track_id) {
            let sample = self.video.receive(
                packet,
                twcc_ext_id,
                now_ns,
                keyframe_requested,
                metadata,
            );
            return Some(sample);
        }
        if self.audio.handles(track_id) {
            self.audio.receive(packet);
        }
        None
    }

    /// Takes the Opus packets that wait to be played.
    pub fn take_audio_packets(&mut self) -> (packets: Vec<Vec<u8>>)
        requires
            old(self).wf(),
        ensures
            final(self).wf(),
            audio_rtp::packets_view(packets@) == old(self)@.audio.packets,
            final(self)@ == (SessionView {
                audio: AudioReceiverView { packets: Seq::empty(), ..old(self)@.audio },
                ..old(self)@
            }),
    {
        self.audio.take_packets()
    }

    /// Whether a keyframe is to be asked for because no video packet has come since the
    /// connection was made.
    pub fn initial_video_keyframe_due(&mut self, now_ns: u64) -> (due: bool)
        requires
            old(self).wf(),
        ensures
            final(self).wf(),
            final(self)@ == after_watch(old(self)@, now_ns),
            due == initial_keyframe_due(old(self)@, now_ns),
    {
        if self.video.received_packet() || self.connection_state != ConnectionState::Connected {
            self.initial_video_watchdog_started_at_ns = None;
            self.last_initial_video_keyframe_request_ns = None;
            return false;
        }
        let connected_at: u64 = match self.initial_video_watchdog_started_at_ns {
            Some(at) => at,
            None => now_ns,
        };
        self.initial_video_watchdog_started_at_ns = Some(connected_at);
        if now_ns.saturating_sub(connected_at) < INITIAL_VIDEO_GRACE_NS {
            return false;
        }
        if is_within(
            self.last_initial_video_keyframe_request_ns,
            now_ns,
            INITIAL_VIDEO_KEYFRAME_INTERVAL_NS,
        ) {
            return false;
        }
        self.last_initial_video_keyframe_request_ns = Some(now_ns);
        true
    }

    /// Forgets the requests that have left the window.
    fn retain_recent(&mut self, now_ns: u64)
        requires
            old(self).wf(),
        ensures
            final(self).wf(),
            final(self)@ == (SessionView {
                recent_keyframe_requests_ns: recent_requests(
                    old(self)@.recent_keyframe_requests_ns,
                    now_ns,
                ),
                ..old(self)@
            }),
    {
        reveal(Seq::filter);
        let ghost all = self@.recent_keyframe_requests_ns;
        let mut recent: Vec<u64> = Vec::new();
        let mut i: usize = 0;
        assert(all.take(0) =~= Seq::empty());
        while i < self.recent_keyframe_requests_ns.len()
            invariant
                i <= all.len(),
                all == self.recent_keyframe_requests_ns@,
                *self == *old(self),
                recent@ == recent_requests(all.take(i as int), now_ns),
            decreases all.len() - i,
        {
            reveal(Seq::filter);
            let at: u64 = self.recent_keyframe_requests_ns[i];
            proof {
                assert(all.take(i + 1).drop_last() =~= all.take(i as int));
                assert(all.take(i + 1).last() == at);
            }
            if now_ns.saturating_sub(at) < KEYFRAME_STORM_WINDOW_NS {
                recent.push(at);
            }
            i = i + 1;
        }
        assert(all.take(i as int) =~= all);
        self.recent_keyframe_requests_ns = recent;
    }

    /// Whether a keyframe that is wanted is to be asked for now; when not, too little time has
    /// passed since the last request.
    pub fn request_keyframe(&mut self, requested: bool, now_ns: u64) -> (ask: bool)
        requires
            old(self).wf(),
        ensures
            final(self).wf(),
            ask == (requested && request_granted(old(self)@, now_ns)),
            final(self)@ == if requested {
                after_keyframe_wanted(old(self)@, now_ns)
            } else {
                old(self)@
            },
    {
        if !requested {
            return false;
        }
        self.retain_recent(now_ns);
        let cooldown: u64 = if self.recent_keyframe_requests_ns.len() >= KEYFRAME_STORM_THRESHOLD {
            KEYFRAME_STORM_COOLDOWN_NS
        } else {
            KEYFRAME_REQUEST_COOLDOWN_NS
        };
        if is_within(self.last_keyframe_request_ns, now_ns, cooldown) {
            return false;
        }
        self.recent_keyframe_requests_ns.push(now_ns);
        self.last_keyframe_request_ns = Some(now_ns);
        true
    }

    /// Whether a keyframe is to be asked for because that is set to happen regularly.
    pub fn periodic_keyframe_due(&mut self, now_ns: u64) -> (due: bool)
        requires
            old(self).wf(),
        ensures
            final(self).wf(),
            due == periodic_keyframe_is_due(old(self)@, now_ns),
            final(self)@ == if due {
                SessionView { last_periodic_keyframe_ns: Some(now_ns), ..old(self)@ }
            } else {
                old(self)@
            },
    {
        if !self.config.periodic_keyframe_enabled || self.video.request_keyframe().is_none()
            || is_within(self.last_periodic_keyframe_ns, now_ns, PERIODIC_KEYFRAME_INTERVAL_NS) {
            return false;
        }
        self.last_periodic_keyframe_ns = Some(now_ns);
        true
    }

    /// Drops the bitrate estimate for a moment, if that is set and enough frames were lost since
    /// the last time. Tells whether it did.
    pub fn shock_if_due(&mut self, now_ns: u64) -> (shocked: bool)
        requires
            old(self).wf(),
            shock_end(old(self)@, now_ns) <= u64::MAX,
        ensures
            final(self).wf(),
            shocked == shock_due(old(self)@, now_ns),
            final(self)@ == after_shock(old(self)@, now_ns),
    {
        let total_drops: u64 = self.video.total_drops();
        let new_drops: u64 = total_drops.saturating_sub(self.drops_at_last_shock);
        let cooldown_ns: u64 = self.config.remb_shock_cooldown_secs as u64 * 1_000_000_000;
        if !self.config.remb_auto_shock_enabled || new_drops
            < self.config.remb_shock_drop_gap as u64 || is_within(
            self.last_shock_ns,
            now_ns,
            cooldown_ns,
        ) {
            return false;
        }
        self.last_shock_ns = Some(now_ns);
        self.drops_at_last_shock = total_drops;
        self.video.trigger_remb_shock(
            now_ns,
            self.config.remb_shock_duration_ms as u64 * 1_000_000,
        );
        true
    }

    /// Whether the console's backlog is to be flushed, given the lag that is measured.
    pub fn maybe_flush_backlog(&mut self, lag_us: u64, now_ns: u64) -> (flush: Option<BacklogFlush>)
        requires
            old(self).wf(),
        ensures
            final(self).wf(),
            final(self)@ == after_backlog(old(self)@, lag_us, now_ns),
            flush == flush_to_send(old(self)@, lag_us, now_ns),
    {
        if self.connection_state != ConnectionState::Connected {
            return None;
        }
        let total_drops: u64 = self.video.total_drops();
        let drops_since_flush: u64 = total_drops.saturating_sub(self.drops_at_last_flush);
        if lag_us < LAG_FLUSH_THRESHOLD_US && drops_since_flush < DROP_FLUSH_THRESHOLD {
            self.lag_high_since_ns = None;
            return None;
        }
        let since: u64 = match self.lag_high_since_ns {
            Some(at) => at,
            None => now_ns,
        };
        self.lag_high_since_ns = Some(since);
        if now_ns.saturating_sub(since) < LAG_FLUSH_SUSTAIN_NS {
            return None;
        }
        if is_within(self.last_lag_flush_ns, now_ns, LAG_FLUSH_MIN_INTERVAL_NS) {
            return None;
        }
        self.last_lag_flush_ns = Some(now_ns);
        self.lag_high_since_ns = None;
        self.drops_at_last_flush = total_drops;
        self.video.reset_lag_anchor();
        Some(BacklogFlush { lag_us, drops_since_flush, total_drops })
    }

    /// Sets the status line.
    pub fn set_status(
        &mut self,
        server_video_size: Option<(u32, u32)>,
        performance: &str,
        debug_state: &str,
    )
        requires
            old(self).wf(),
        ensures
            final(self).wf(),
            final(self)@ == (SessionView {
                status: session_status(
                    server_video_size,
                    media::status_text(old(self)@.video, performance@),
                    debug_state@,
                ),
                ..old(self)@
            }),
    {
        let stream_status = self.video.status_line(performance);
        let mut status = String::new();
        append(&mut status, "srv:");
        match server_video_size {
            Some((width, height)) => {
                append_number(&mut status, width as u64);
                append(&mut status, "x");
                append_number(&mut status, height as u64);
            },
            None => {
                append(&mut status, "?");
            },
        }
        assert(status@ =~= "srv:"@ + media::resolution_text(server_video_size));
        append(&mut status, " ");
        append(&mut status, stream_status.as_str());
        append(&mut status, " ");
        append(&mut status, debug_state);
        self.status = status;
    }

    /// One turn of the session, after its events and packets were taken in: the decoder's
    /// results are taken in, and everything that is due is found and noted.
    pub fn pump(
        &mut self,
        results: &Vec<DecodeResult>,
        keyframe_requested: bool,
        inputs: PumpInputs,
    ) -> (actions: PumpActions)
        requires
            old(self).wf(),
            shock_end(old(self)@, inputs.now_ns) <= u64::MAX,
        ensures
            final(self).wf(),
            ({
                let turn = pumped(old(self)@, results@, keyframe_requested, inputs);
                &&& actions.initial_keyframe == turn.initial_keyframe
                &&& actions.ask_keyframe == turn.ask_keyframe
                &&& actions.periodic_keyframe == turn.periodic_keyframe
                &&& actions.shocked == turn.shocked
                &&& actions.estimate == turn.estimate
                &&& actions.feedback is Some <==> turn.feedback is Some
                &&& actions.feedback matches Some(feedback) ==> {
                    &&& feedback.sender_ssrc == media::LOCAL_RTCP_SENDER_SSRC
                    &&& (feedback.fb_pkt_count, feedback.report@) == turn.feedback->0
                }
                &&& actions.flush == turn.flush
                &&& actions.window == turn.window
                &&& final(self)@ == turn.session
            }),
    {
        let now_ns: u64 = inputs.now_ns;
        let mut wanted = keyframe_requested;
        self.video.drain_decoder(results, &mut wanted);
        let initial_keyframe = self.initial_video_keyframe_due(now_ns);
        let ask_keyframe = self.request_keyframe(wanted || initial_keyframe, now_ns);
        let periodic_keyframe = self.periodic_keyframe_due(now_ns);
        let shocked = self.shock_if_due(now_ns);
        let estimate = self.video.send_remb(now_ns, inputs.remb_bps);
        let feedback = self.video.send_twcc(now_ns, inputs.receiver_present);
        let flush = self.maybe_flush_backlog(inputs.lag_us, now_ns);
        let window = self.video.begin_status(now_ns);
        PumpActions {
            initial_keyframe,
            ask_keyframe,
            periodic_keyframe,
            shocked,
            estimate,
            feedback,
            flush,
            window,
        }
    }
}

} // verus!
