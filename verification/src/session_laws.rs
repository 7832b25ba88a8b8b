//! Laws of the session's control.

use crate::commands::DecoderCommand;
use crate::decode_loop::DecodeResult;
use crate::input::QueuedVideoMetadata;
use crate::session::{ConnectionState, PeerAction, PumpInputs};
use crate::video::DecodedFrame;
use crate::video_rtp::FrameOutcome;
use crate::{input, media, session};
use vstd::prelude::*;

verus! {

use crate::media::{AudioReceiverView, ReceiverView};
use crate::session::{PeerEventView, SessionView};
use crate::video_rtp::{Reception, StatsView, VideoView};

/// Two requests for a keyframe are never less than the cooldown apart.
pub proof fn keyframe_requests_keep_their_distance(
    before: SessionView,
    first_ns: u64,
    second_ns: u64,
)
    requires
        first_ns <= second_ns,
        session::request_granted(before, first_ns),
        session::request_granted(session::after_keyframe_wanted(before, first_ns), second_ns),
    ensures
        second_ns - first_ns >= session::KEYFRAME_REQUEST_COOLDOWN_NS,
{
}

/// What holds of the requests that are remembered, when the clock never runs backwards: they are
/// in order, the last is the last one made, all lie in one window, and from the fourth on they
/// are the long cooldown apart.
pub open spec fn requests_in_order(session: SessionView) -> bool {
    let requests = session.recent_keyframe_requests_ns;
    &&& forall|i: int, j: int|
        0 <= i <= j < requests.len() ==> #[trigger] requests[i] <= #[trigger] requests[j]
    &&& requests.len() > 0 ==> session.last_keyframe_request_ns == Some(requests.last())
    &&& forall|i: int|
        0 <= i < requests.len() ==> requests.last() - #[trigger] requests[i]
            < session::KEYFRAME_STORM_WINDOW_NS
    &&& forall|k: int|
        session::KEYFRAME_STORM_THRESHOLD <= k < requests.len() ==> #[trigger] requests[k]
            - requests[k - 1] >= session::KEYFRAME_STORM_COOLDOWN_NS
}

spec fn in_window(now_ns: u64) -> spec_fn(u64) -> bool {
    |at: u64| input::since(at, now_ns) < session::KEYFRAME_STORM_WINDOW_NS
}

/// Of requests in order, those in the window are the last ones.
proof fn lemma_recent_are_last(requests: Seq<u64>, now_ns: u64) -> (dropped: int)
    requires
        forall|i: int, j: int|
            0 <= i <= j < requests.len() ==> #[trigger] requests[i] <= #[trigger] requests[j],
        requests.len() > 0 ==> requests.last() <= now_ns,
    ensures
        0 <= dropped <= requests.len(),
        session::recent_requests(requests, now_ns) == requests.skip(dropped),
        forall|i: int|
            dropped <= i < requests.len() ==> now_ns - #[trigger] requests[i]
                < session::KEYFRAME_STORM_WINDOW_NS,
    decreases requests.len(),
{
    reveal(Seq::filter);
    if requests.len() == 0 {
        assert(session::recent_requests(requests, now_ns) =~= requests.skip(0));
        0
    } else {
        let before = requests.drop_last();
        assert forall|i: int, j: int| 0 <= i <= j < before.len() implies #[trigger] before[i]
            <= #[trigger] before[j] by {
            assert(before[i] == requests[i] && before[j] == requests[j]);
        }
        if before.len() > 0 {
            assert(before.last() == requests[before.len() - 1]);
            assert(requests[before.len() - 1] <= requests[requests.len() - 1]);
        }
        let dropped = lemma_recent_are_last(before, now_ns);
        if in_window(now_ns)(requests.last()) {
            assert(requests.skip(dropped) =~= before.skip(dropped).push(requests.last()));
            assert forall|i: int| dropped <= i < requests.len() implies now_ns
                - #[trigger] requests[i] < session::KEYFRAME_STORM_WINDOW_NS by {
                if i < before.len() {
                    assert(before[i] == requests[i]);
                }
            }
            dropped
        } else {
            if dropped < before.len() {
                assert(before[before.len() - 1] == requests[before.len() - 1]);
                assert(requests[before.len() - 1] <= requests[requests.len() - 1]);
                assert(false);
            }
            assert(before.skip(dropped) =~= Seq::empty());
            assert(requests.skip(requests.len() as int) =~= Seq::empty());
            requests.len() as int
        }
    }
}

/// Requests stay in order.
pub proof fn keyframe_requests_stay_in_order(before: SessionView, now_ns: u64)
    requires
        requests_in_order(before),
        before.last_keyframe_request_ns matches Some(last) ==> last <= now_ns,
    ensures
        requests_in_order(session::after_keyframe_wanted(before, now_ns)),
{
    let requests = before.recent_keyframe_requests_ns;
    let dropped = lemma_recent_are_last(requests, now_ns);
    let recent = requests.skip(dropped);
    let after = session::after_keyframe_wanted(before, now_ns).recent_keyframe_requests_ns;
    assert forall|i: int, j: int| 0 <= i <= j < after.len() implies #[trigger] after[i]
        <= #[trigger] after[j] by {
        if j < recent.len() {
            assert(after[i] == requests[dropped + i] && after[j] == requests[dropped + j]);
        } else if i < recent.len() {
            assert(after[i] == requests[dropped + i]);
            assert(requests[dropped + i] <= requests[requests.len() - 1]);
        }
    }
    assert forall|i: int| 0 <= i < after.len() implies after.last() - #[trigger] after[i]
        < session::KEYFRAME_STORM_WINDOW_NS by {
        if i < recent.len() {
            assert(after[i] == requests[dropped + i]);
            assert(requests[dropped + i] <= requests[requests.len() - 1]);
        }
    }
    assert forall|k: int|
        session::KEYFRAME_STORM_THRESHOLD <= k < after.len() implies #[trigger] after[k]
        - after[k - 1] >= session::KEYFRAME_STORM_COOLDOWN_NS by {
        if k < recent.len() {
            assert(after[k] == requests[dropped + k]);
            assert(after[k - 1] == requests[dropped + k - 1]);
        } else {
            assert(after[k - 1] == requests[requests.len() - 1]);
        }
    }
}

/// However badly recovery goes, no more than four requests for a keyframe fall into one window.
pub proof fn a_window_holds_four_requests_at_most(before: SessionView)
    requires
        requests_in_order(before),
    ensures
        before.recent_keyframe_requests_ns.len() <= 4,
{
    let requests = before.recent_keyframe_requests_ns;
    if requests.len() >= 5 {
        let last = requests.len() - 1;
        assert(requests[last] - requests[last - 1] >= session::KEYFRAME_STORM_COOLDOWN_NS);
        assert(requests[last - 1] - requests[last - 2] >= session::KEYFRAME_STORM_COOLDOWN_NS);
        assert(requests.last() - requests[last - 2] < session::KEYFRAME_STORM_WINDOW_NS);
    }
}

/// Once a video packet has come, the watch for the first one asks for nothing more; before that
/// it asks no sooner than the grace after the watch began, and then at the set interval.
pub proof fn the_watch_keeps_its_distance(before: SessionView, first_ns: u64, second_ns: u64)
    requires
        first_ns <= second_ns,
    ensures
        before.video.received_packet ==> !session::initial_keyframe_due(before, first_ns),
        before.watchdog_started_at_ns is None ==> !session::initial_keyframe_due(before, first_ns),
        session::initial_keyframe_due(before, first_ns) && session::initial_keyframe_due(
            session::after_watch(before, first_ns),
            second_ns,
        ) ==> second_ns - first_ns >= session::INITIAL_VIDEO_KEYFRAME_INTERVAL_NS,
{
}

/// Regular requests for a keyframe keep to their interval.
pub proof fn periodic_keyframes_keep_their_distance(
    before: SessionView,
    first_ns: u64,
    second_ns: u64,
)
    requires
        first_ns <= second_ns,
        session::periodic_keyframe_is_due(before, first_ns),
        session::periodic_keyframe_is_due(session::after_periodic(before, first_ns), second_ns),
    ensures
        second_ns - first_ns >= session::PERIODIC_KEYFRAME_INTERVAL_NS,
{
}

/// Two flushes of the backlog are never less than the set interval apart, whatever happens to
/// the session in between.
pub proof fn flushes_keep_their_distance(
    before: SessionView,
    first_lag_us: u64,
    first_ns: u64,
    after: SessionView,
    second_lag_us: u64,
    second_ns: u64,
)
    requires
        first_ns <= second_ns,
        session::flush_due(before, first_lag_us, first_ns),
        after.last_lag_flush_ns == session::after_backlog(
            before,
            first_lag_us,
            first_ns,
        ).last_lag_flush_ns,
        session::flush_due(after, second_lag_us, second_ns),
    ensures
        second_ns - first_ns >= session::LAG_FLUSH_MIN_INTERVAL_NS,
{
}

/// One reading without signs of a backlog starts the wait for them to last anew: the next one
/// with such signs flushes nothing.
pub proof fn a_calm_reading_starts_the_wait_anew(
    before: SessionView,
    calm_lag_us: u64,
    calm_ns: u64,
    lag_us: u64,
    now_ns: u64,
)
    requires
        before.connection_state == ConnectionState::Connected,
        !session::shows_backlog(before, calm_lag_us),
    ensures
        !session::flush_due(
            session::after_backlog(before, calm_lag_us, calm_ns),
            lag_us,
            now_ns,
        ),
{
}

/// A flush makes up for the frames lost before it: without a high lag and without new losses
/// there are no signs of a backlog after it.
pub proof fn a_flush_settles_the_losses(before: SessionView, lag_us: u64, now_ns: u64)
    requires
        session::flush_due(before, lag_us, now_ns),
    ensures
        !session::shows_backlog(session::after_backlog(before, lag_us, now_ns), 0),
{
}

/// Shocks keep to their cooldown, and each takes as many new losses as are set.
pub proof fn shocks_keep_their_distance(before: SessionView, first_ns: u64, second_ns: u64)
    requires
        first_ns <= second_ns,
        session::shock_due(before, first_ns),
    ensures
        session::shock_due(session::after_shock(before, first_ns), second_ns) ==> {
            &&& second_ns - first_ns >= before.config.remb_shock_cooldown_secs * 1_000_000_000
            &&& before.config.remb_shock_drop_gap == 0
        },
        session::after_shock(before, first_ns).drops_at_last_shock == before.video.stats.dropped,
{
}

/// The first chance to send a bitrate estimate during a shock sends the low one, however short a
/// time before the shock the last one was sent and whatever else happens to the receiving end in
/// between.
pub proof fn a_shock_sends_the_low_estimate_at_once(
    before: ReceiverView,
    until_ns: u64,
    at: ReceiverView,
    now_ns: u64,
    remb_bps: u32,
)
    requires
        at.remb_shock_until_ns == media::shocked(before, until_ns).remb_shock_until_ns,
        at.last_remb_at_ns == media::shocked(before, until_ns).last_remb_at_ns,
        at.ssrc is Some,
        now_ns < until_ns,
    ensures
        media::estimate_to_send(at, now_ns, remb_bps) == Some(
            media::BitrateEstimate {
                sender_ssrc: media::LOCAL_RTCP_SENDER_SSRC,
                bitrate_bps: media::REMB_SHOCK_BPS,
                media_ssrc: at.ssrc->0,
            },
        ),
        media::after_remb(at, now_ns).remb_shock_until_ns == Some(until_ns),
{
}

/// From the moment a session decides on a shock, the low bitrate estimate is sent at the first
/// chance while it lasts; at the first chance after it, the one given.
pub proof fn a_shock_lowers_the_estimate_while_it_lasts(
    before: SessionView,
    start_ns: u64,
    now_ns: u64,
    remb_bps: u32,
)
    requires
        session::shock_due(before, start_ns),
        session::shock_end(before, start_ns) <= u64::MAX,
        before.video.ssrc is Some,
    ensures
        ({
            let estimate = media::estimate_to_send(
                session::after_shock(before, start_ns).video,
                now_ns,
                remb_bps,
            );
            &&& estimate is Some
            &&& (estimate->0).bitrate_bps == if now_ns < session::shock_end(before, start_ns) {
                media::REMB_SHOCK_BPS
            } else {
                remb_bps
            }
        }),
{
}

/// A decoder that failed leads to a request for a keyframe, unless one was made too short a time
/// ago, and holds everything back until a keyframe comes.
pub proof fn a_decode_error_wants_a_keyframe(
    before: SessionView,
    results: Seq<DecodeResult>,
    inputs: PumpInputs,
)
    requires
        media::error_count(results) > 0,
    ensures
        before.last_keyframe_request_ns is None ==> session::pumped(
            before,
            results,
            false,
            inputs,
        ).ask_keyframe,
        session::with_results(before, results).video.rtp.waiting_for_keyframe,
        session::with_results(before, results).video.decoder.generation
            != before.video.decoder.generation,
{
}

// When things are done.

/// Whether something is long enough ago, or never was.
pub open spec fn long_ago(at_ns: Option<u64>, now_ns: u64, interval_ns: int) -> bool {
    at_ns matches Some(at) ==> interval_ns == 0 || now_ns >= at + interval_ns
}

/// A wanted keyframe is asked for when the last request is three tenths of a second ago or more,
/// or two seconds where three or more requests were made in the last four. It is remembered then;
/// requests older than four seconds are forgotten either way.
pub proof fn when_a_keyframe_is_asked_for(before: SessionView, now_ns: u64)
    ensures
        ({
            let recent = before.recent_keyframe_requests_ns.filter(
                |at: u64| now_ns < at + 4_000_000_000,
            );
            let granted = long_ago(
                before.last_keyframe_request_ns,
                now_ns,
                if recent.len() >= 3 {
                    2_000_000_000
                } else {
                    300_000_000
                },
            );
            let after = session::after_keyframe_wanted(before, now_ns);
            &&& session::request_granted(before, now_ns) == granted
            &&& after.last_keyframe_request_ns == if granted {
                Some(now_ns)
            } else {
                before.last_keyframe_request_ns
            }
            &&& after.recent_keyframe_requests_ns == if granted {
                recent.push(now_ns)
            } else {
                recent
            }
            &&& after == (SessionView {
                last_keyframe_request_ns: after.last_keyframe_request_ns,
                recent_keyframe_requests_ns: after.recent_keyframe_requests_ns,
                ..before
            })
        }),
{
    let keeps = |at: u64| now_ns < at + 4_000_000_000;
    assert(keeps =~= in_window(now_ns));
}

/// While the session is connected and no video packet has come, a keyframe is wanted half a second
/// after that began, and again every half second. The beginning is noted at the first look, and
/// everything is forgotten once a packet has come or the connection is gone.
pub proof fn when_the_first_keyframe_is_wanted(before: SessionView, now_ns: u64)
    ensures
        ({
            let watched = before.connection_state == ConnectionState::Connected
                && !before.video.received_packet;
            let due = watched && before.watchdog_started_at_ns is Some && long_ago(
                before.watchdog_started_at_ns,
                now_ns,
                500_000_000,
            ) && long_ago(before.last_initial_keyframe_request_ns, now_ns, 500_000_000);
            let after = session::after_watch(before, now_ns);
            &&& session::initial_keyframe_due(before, now_ns) == due
            &&& watched ==> after.watchdog_started_at_ns == (
            if before.watchdog_started_at_ns is Some {
                before.watchdog_started_at_ns
            } else {
                Some(now_ns)
            }) && after.last_initial_keyframe_request_ns == if due {
                Some(now_ns)
            } else {
                before.last_initial_keyframe_request_ns
            }
            &&& !watched ==> after.watchdog_started_at_ns is None
                && after.last_initial_keyframe_request_ns is None
            &&& after == (SessionView {
                watchdog_started_at_ns: after.watchdog_started_at_ns,
                last_initial_keyframe_request_ns: after.last_initial_keyframe_request_ns,
                ..before
            })
        }),
{
}

/// Where that is set, a keyframe is asked for every fifth of a second while there is a video
/// stream.
pub proof fn when_a_keyframe_is_asked_for_regularly(before: SessionView, now_ns: u64)
    ensures
        ({
            let due = before.config.periodic_keyframe_enabled && before.video.ssrc is Some
                && long_ago(before.last_periodic_keyframe_ns, now_ns, 200_000_000);
            &&& session::periodic_keyframe_is_due(before, now_ns) == due
            &&& session::after_periodic(before, now_ns) == if due {
                SessionView { last_periodic_keyframe_ns: Some(now_ns), ..before }
            } else {
                before
            }
        }),
{
}

/// The console has a backlog when the lag is 150 milliseconds or more, or 25 frames or more were
/// lost since the last flush. It is flushed when that has lasted for a second while connected, and
/// the last flush is ten seconds ago or more; the flush tells the lag and the losses, and the
/// measurement of the lag begins anew.
pub proof fn when_a_backlog_is_flushed(before: SessionView, lag_us: u64, now_ns: u64)
    ensures
        ({
            let dropped = before.video.stats.dropped;
            let behind = lag_us >= 150_000 || dropped >= before.drops_at_last_flush + 25;
            let connected = before.connection_state == ConnectionState::Connected;
            let due = connected && behind && before.lag_high_since_ns is Some && long_ago(
                before.lag_high_since_ns,
                now_ns,
                1_000_000_000,
            ) && long_ago(before.last_lag_flush_ns, now_ns, 10_000_000_000);
            let after = session::after_backlog(before, lag_us, now_ns);
            let flush = session::flush_to_send(before, lag_us, now_ns);
            &&& flush is Some <==> due
            &&& due ==> {
                &&& (flush->0).lag_us == lag_us
                &&& (flush->0).total_drops == dropped
                &&& (flush->0).drops_since_flush == if dropped >= before.drops_at_last_flush {
                    dropped - before.drops_at_last_flush
                } else {
                    0
                }
                &&& after.last_lag_flush_ns == Some(now_ns)
                &&& after.drops_at_last_flush == dropped
                &&& after.lag_high_since_ns is None
                &&& after.video.rtp.stream_clock_anchor is None
            }
            &&& !due ==> {
                &&& after.last_lag_flush_ns == before.last_lag_flush_ns
                &&& after.drops_at_last_flush == before.drops_at_last_flush
                &&& after.video == before.video
            }
            &&& !due && connected && behind ==> after.lag_high_since_ns == Some(
                match before.lag_high_since_ns {
                    Some(at) => at,
                    None => now_ns,
                },
            )
            &&& connected && !behind ==> after.lag_high_since_ns is None
            &&& !connected ==> after == before
        }),
{
}

/// Where that is set, the bitrate estimate is dropped for a moment when as many frames were lost
/// since the last time as are set, and that is as many seconds ago as are set, or more. It lasts
/// as many milliseconds as are set.
pub proof fn when_the_estimate_is_dropped(before: SessionView, now_ns: u64)
    requires
        session::shock_end(before, now_ns) <= u64::MAX,
    ensures
        ({
            let config = before.config;
            let lost = if before.video.stats.dropped >= before.drops_at_last_shock {
                before.video.stats.dropped - before.drops_at_last_shock
            } else {
                0
            };
            let due = config.remb_auto_shock_enabled && lost >= config.remb_shock_drop_gap
                && long_ago(
                before.last_shock_ns,
                now_ns,
                config.remb_shock_cooldown_secs * 1_000_000_000,
            );
            let after = session::after_shock(before, now_ns);
            &&& session::shock_due(before, now_ns) == due
            &&& !due ==> after == before
            &&& due ==> {
                &&& after.last_shock_ns == Some(now_ns)
                &&& after.drops_at_last_shock == before.video.stats.dropped
                &&& after.video.remb_shock_until_ns is Some
                &&& after.video.remb_shock_until_ns->0 == now_ns + config.remb_shock_duration_ms
                    * 1_000_000
                &&& after.video.last_remb_at_ns is None
            }
        }),
{
}

/// An estimate is sent for the video stream every half second: during a shock one of a hundred
/// kilobits per second, else the one given. A shock that is over is forgotten.
pub proof fn when_an_estimate_is_sent(receiver: ReceiverView, now_ns: u64, remb_bps: u32)
    ensures
        ({
            let shocked = receiver.remb_shock_until_ns matches Some(until) && now_ns < until;
            let due = receiver.ssrc is Some && long_ago(
                receiver.last_remb_at_ns,
                now_ns,
                500_000_000,
            );
            let estimate = media::estimate_to_send(receiver, now_ns, remb_bps);
            let after = media::after_remb(receiver, now_ns);
            &&& estimate is Some <==> due
            &&& due ==> {
                &&& (estimate->0).sender_ssrc == 1
                &&& (estimate->0).media_ssrc == receiver.ssrc->0
                &&& (estimate->0).bitrate_bps == if shocked {
                    100_000
                } else {
                    remb_bps
                }
                &&& after.last_remb_at_ns == Some(now_ns)
            }
            &&& !due ==> after.last_remb_at_ns == receiver.last_remb_at_ns
            &&& receiver.ssrc is Some && !shocked ==> after.remb_shock_until_ns is None
            &&& shocked || receiver.ssrc is None ==> after.remb_shock_until_ns
                == receiver.remb_shock_until_ns
            &&& after == (ReceiverView {
                remb_shock_until_ns: after.remb_shock_until_ns,
                last_remb_at_ns: after.last_remb_at_ns,
                ..receiver
            })
        }),
{
}

/// Transport feedback is sent when eight arrivals or more are to be reported, or any and the last
/// report is fifteen milliseconds ago or more. What was reported is not reported again, and the
/// reports that are sent are numbered round the circle of 8 bits.
pub proof fn when_transport_feedback_is_sent(
    receiver: ReceiverView,
    now_ns: u64,
    receiver_present: bool,
)
    ensures
        ({
            let count = receiver.rtp.twcc_annotations.len();
            let due = receiver.ssrc is Some && (count >= 8 || (count > 0 && long_ago(
                receiver.last_twcc_at_ns,
                now_ns,
                15_000_000,
            )));
            let after = media::after_twcc(receiver, now_ns, receiver_present);
            &&& media::twcc_due(receiver, now_ns) == due
            &&& !due ==> after == receiver
            &&& due ==> {
                &&& after.rtp.twcc_annotations.len() == 0
                &&& after.last_twcc_at_ns == Some(now_ns)
                &&& after.twcc_fb_pkt_count == if receiver_present {
                    (receiver.twcc_fb_pkt_count + 1) % 256
                } else {
                    receiver.twcc_fb_pkt_count as int
                }
            }
        }),
{
}

/// The state of the stream is reported every second, with the bytes that came since the last
/// report.
pub proof fn when_the_stream_is_reported(receiver: ReceiverView, now_ns: u64)
    ensures
        ({
            let due = now_ns >= receiver.last_stats_report_ns + 1_000_000_000;
            let window = media::stats_window(receiver, now_ns);
            let after = media::after_status(receiver, now_ns);
            &&& window is Some <==> due
            &&& !due ==> after == receiver
            &&& due ==> {
                &&& (window->0).elapsed_ns == now_ns - receiver.last_stats_report_ns
                &&& (window->0).received_bytes == if receiver.rtp.total_bytes
                    >= receiver.last_bw_bytes {
                    receiver.rtp.total_bytes - receiver.last_bw_bytes
                } else {
                    0
                }
                &&& after == (ReceiverView {
                    last_stats_report_ns: now_ns,
                    last_bw_bytes: receiver.rtp.total_bytes,
                    ..receiver
                })
            }
        }),
{
}

// What is kept of the decoder's results.

/// Each picture that the decoder gives becomes the latest one, under the number after the one
/// before, round the circle of 64 bits; an error leaves it in place and is counted.
pub proof fn results_are_taken_in_order(
    latest: Option<(u64, DecodedFrame)>,
    frame_id: u64,
    results: Seq<DecodeResult>,
    result: DecodeResult,
)
    ensures
        ({
            let before = media::frames_after(latest, frame_id, results);
            let after = media::frames_after(latest, frame_id, results.push(result));
            &&& result matches Ok(frame) ==> {
                &&& after.1 == (before.1 + 1) % 0x1_0000_0000_0000_0000
                &&& after.0 == Some((after.1, frame))
                &&& media::error_count(results.push(result)) == media::error_count(results)
            }
            &&& result is Err ==> after == before && media::error_count(results.push(result))
                == media::error_count(results) + 1
        }),
        media::frames_after(latest, frame_id, Seq::empty()) == (latest, frame_id),
        media::error_count(Seq::empty()) == 0,
{
    assert(results.push(result).drop_last() =~= results);
}

/// Errors of the decoder are counted, up to the largest number there is. However many come at once,
/// the decoder is reset once, everything queued becomes stale once, and units are held back until
/// a keyframe comes. Without an error none of that happens.
pub proof fn errors_reset_the_decoder(receiver: ReceiverView, results: Seq<DecodeResult>)
    ensures
        ({
            let after = media::drained(receiver, results);
            let errors = media::error_count(results);
            &&& errors == 0 ==> after.stats == receiver.stats && after.decoder == receiver.decoder
                && after.rtp == receiver.rtp
            &&& errors > 0 ==> {
                let total = receiver.stats.decode_errors + errors;
                &&& after.stats.decode_errors == if total <= u64::MAX {
                    total
                } else {
                    u64::MAX as int
                }
                &&& after.stats.dropped == receiver.stats.dropped
                &&& after.decoder.commands == receiver.decoder.commands.push(DecoderCommand::Reset)
                &&& after.decoder.generation == (receiver.decoder.generation + 1)
                    % 0x1_0000_0000_0000_0000
                &&& after.decoder.units == receiver.decoder.units
                &&& after.rtp == (VideoView { waiting_for_keyframe: true, ..receiver.rtp })
            }
            &&& after.latest_frame == media::frames_after(
                receiver.latest_frame,
                receiver.frame_id,
                results,
            ).0
            &&& after.frame_id == media::frames_after(
                receiver.latest_frame,
                receiver.frame_id,
                results,
            ).1
        }),
{
}

/// The counts take in what a packet led to: its losses are added, up to the largest number there
/// is, and its duration and picture size replace the ones before where it has any.
pub proof fn counts_take_in_every_packet(receiver: ReceiverView, reception: Reception)
    requires
        reception.stats.dropped >= 0,
    ensures
        ({
            let after = media::receiver_after(receiver, reception);
            let sample = reception.stats;
            let lost = receiver.stats.dropped + sample.dropped;
            &&& after.received_packet
            &&& after.rtp == reception.state
            &&& after.decoder == reception.worker
            &&& after.stats.dropped == if lost <= u64::MAX {
                lost
            } else {
                u64::MAX as int
            }
            &&& after.stats.decode_errors == receiver.stats.decode_errors
            &&& after.stats.last_sample_duration_us == match sample.source_frame_duration_us {
                Some(duration) => Some(duration),
                None => receiver.stats.last_sample_duration_us,
            }
            &&& after.stats.encoded_resolution == match sample.encoded_resolution {
                Some(size) => Some(size),
                None => receiver.stats.encoded_resolution,
            }
            &&& after.latest_frame == receiver.latest_frame
            &&& after.ssrc == receiver.ssrc
        }),
{
}

/// A frame waits for its render-timing report exactly when the decoder's channel took it: under
/// its own timestamp, and with the arrival of its own first packet.
pub proof fn frames_that_were_taken_are_reported(
    queue: Seq<QueuedVideoMetadata>,
    sample: StatsView,
)
    requires
        queue.len() < 240,
    ensures
        ({
            let after = media::metadata_after(queue, sample);
            let taken = sample.outcome matches FrameOutcome::Submitted { outcome } && outcome
                is Sent;
            &&& sample.frame is Some && taken ==> after == queue.push(
                QueuedVideoMetadata {
                    server_data_key: (sample.frame->0).0,
                    arrival_ns: (sample.frame->0).1,
                },
            )
            &&& !taken || sample.frame is None ==> after == queue
        }),
{
}

// What the session tells.

/// What the connection reports shows in the session: its state with its name in the status, and
/// the tracks with their ids. Nothing else changes by it, and other reports change nothing.
pub proof fn reports_show_in_the_session(
    before: SessionView,
    state: ConnectionState,
    track_id: Seq<char>,
    ssrc: u32,
    channel_id: u16,
)
    ensures
        session::after_event(before, PeerEventView::StateChanged { state }) == (SessionView {
            connection_state: state,
            status: "WebRTC connection: "@ + session::state_name(state),
            ..before
        }),
        session::after_event(before, PeerEventView::VideoTrackOpened { track_id, ssrc }) == (
        SessionView {
            video: ReceiverView { track_id: Some(track_id), ssrc: Some(ssrc), ..before.video },
            status: "Receiving video track"@,
            ..before
        }),
        session::after_event(before, PeerEventView::AudioTrackOpened { track_id }) == (SessionView {
            audio: AudioReceiverView { track_id: Some(track_id), ..before.audio },
            status: "Receiving audio track"@,
            ..before
        }),
        session::after_event(before, PeerEventView::ChannelOpened { channel_id }) == before,
        session::after_event(before, PeerEventView::CandidateGathered) == before,
        session::event_action(PeerEventView::ChannelOpened { channel_id }) == (
        PeerAction::GreetChannel { channel_id }),
        session::event_action(PeerEventView::CandidateGathered) is PassCandidate,
        session::event_action(PeerEventView::CandidateFailed) is LogCandidateError,
        session::event_action(PeerEventView::StateChanged { state }) is Nothing,
{
}

/// In one turn of a session a keyframe is asked for only if it was requested, the decoder failed or
/// no video packet has come, and then exactly when the requests before allow it.
pub proof fn a_turn_asks_for_a_keyframe_when_it_is_wanted(
    before: SessionView,
    results: Seq<DecodeResult>,
    keyframe_requested: bool,
    inputs: PumpInputs,
)
    ensures
        ({
            let turn = session::pumped(before, results, keyframe_requested, inputs);
            let wanted = keyframe_requested || media::error_count(results) > 0
                || turn.initial_keyframe;
            &&& turn.ask_keyframe <==> wanted && session::request_granted(before, inputs.now_ns)
            &&& turn.ask_keyframe ==> turn.session.last_keyframe_request_ns == Some(inputs.now_ns)
            &&& !turn.ask_keyframe ==> turn.session.last_keyframe_request_ns
                == before.last_keyframe_request_ns
            &&& turn.periodic_keyframe <==> session::periodic_keyframe_is_due(
                before,
                inputs.now_ns,
            )
            &&& turn.flush is Some ==> turn.session.last_lag_flush_ns == Some(inputs.now_ns)
            &&& turn.feedback matches Some(sent) ==> {
                let annotations = before.video.rtp.twcc_annotations;
                &&& sent.0 == before.video.twcc_fb_pkt_count
                &&& sent.1.media_ssrc == before.video.ssrc->0
                &&& sent.1.base_sequence_number == annotations[0].0
                &&& sent.1.recv_deltas.len() == annotations.len()
                &&& turn.session.video.rtp.twcc_annotations.len() == 0
            }
        }),
{
}

/// A turn of a session drops the bitrate estimate by the losses that it knows of, and sends the low
/// one in the same turn; it reports the stream and flushes the backlog by its own clock.
pub proof fn a_turn_acts_on_what_it_knows(
    before: SessionView,
    results: Seq<DecodeResult>,
    keyframe_requested: bool,
    inputs: PumpInputs,
)
    requires
        session::shock_end(before, inputs.now_ns) <= u64::MAX,
    ensures
        ({
            let turn = session::pumped(before, results, keyframe_requested, inputs);
            let now_ns = inputs.now_ns;
            &&& turn.shocked <==> session::shock_due(before, now_ns)
            &&& turn.shocked && before.video.ssrc is Some ==> turn.estimate is Some && (
            turn.estimate->0).bitrate_bps == if before.config.remb_shock_duration_ms > 0 {
                100_000
            } else {
                inputs.remb_bps
            }
            &&& !turn.shocked ==> turn.estimate == media::estimate_to_send(
                before.video,
                now_ns,
                inputs.remb_bps,
            )
            &&& turn.flush == session::flush_to_send(before, inputs.lag_us, now_ns)
            &&& turn.window is Some <==> now_ns >= before.video.last_stats_report_ns
                + 1_000_000_000
            &&& turn.session.connection_state == before.connection_state
            &&& turn.session.video.latest_frame == media::drained(
                before.video,
                results,
            ).latest_frame
        }),
{
}

} // verus!
