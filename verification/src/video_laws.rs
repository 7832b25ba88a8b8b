//! Laws of the video receiver.

use crate::decode_worker::SubmitOutcome;
use crate::h264::AccessUnitInfo;
use crate::video_rtp::{FrameOutcome, Verdict};
use crate::{decode_worker, frame, packet, video_rtp};
use vstd::prelude::*;

verus! {

use crate::decode_worker::WorkerView;
use crate::frame::{AssemblyView, PendingView};
use crate::packet::PacketView;
use crate::video_rtp::{Reception, StatsView, Submission, VideoView};

/// Whether receiving a packet handed an access unit to the decoder's channel.
pub open spec fn hands_over(before: WorkerView, reception: Reception) -> bool {
    reception.worker.units.len() > before.units.len()
}

/// The access unit that was handed over last.
pub open spec fn handed_over(reception: Reception) -> Seq<u8> {
    reception.worker.units.last().data
}

/// One packet hands at most one access unit over, with the units before it left in place, sends
/// no command, and makes the queue stale at most once, exactly when that is told. The channel
/// answers to every unit.
pub proof fn one_packet_moves_the_decoder_once(
    state: VideoView,
    worker: WorkerView,
    packet: PacketView,
    twcc_ext_id: u8,
    now_ns: u64,
    submission: Submission,
)
    ensures
        ({
            let reception = video_rtp::received(
                state,
                worker,
                packet,
                twcc_ext_id,
                now_ns,
                submission,
            );
            &&& reception.worker.units == worker.units || reception.worker.units.drop_last()
                == worker.units
            &&& worker.units.len() == worker.answers.len() ==> reception.worker.units.len()
                == reception.worker.answers.len()
            &&& reception.worker.commands == worker.commands
            &&& reception.worker.generation == if reception.stats.resynced {
                decode_worker::next_generation(worker.generation)
            } else {
                worker.generation
            }
        }),
{
}

/// While a keyframe is awaited, nothing but a unit with a keyframe is handed to the decoder.
pub proof fn only_a_keyframe_ends_the_wait(
    state: VideoView,
    worker: WorkerView,
    packet: PacketView,
    twcc_ext_id: u8,
    now_ns: u64,
    submission: Submission,
)
    requires
        state.waiting_for_keyframe,
    ensures
        ({
            let reception = video_rtp::received(
                state,
                worker,
                packet,
                twcc_ext_id,
                now_ns,
                submission,
            );
            &&& hands_over(worker, reception) ==> video_rtp::unit_info(
                handed_over(reception),
            ).has_idr
            &&& !reception.state.waiting_for_keyframe ==> reception.stats.outcome is Submitted
        }),
{
}

/// A picture that is larger than the decoder takes is never handed to it. Once one has come, the
/// next unit handed over holds a keyframe and states a size that fits.
pub proof fn too_large_pictures_are_held_back(
    state: VideoView,
    worker: WorkerView,
    packet: PacketView,
    twcc_ext_id: u8,
    now_ns: u64,
    submission: Submission,
)
    ensures
        ({
            let reception = video_rtp::received(
                state,
                worker,
                packet,
                twcc_ext_id,
                now_ns,
                submission,
            );
            hands_over(worker, reception) ==> {
                let info = video_rtp::unit_info(handed_over(reception));
                &&& !video_rtp::too_large(info.resolution)
                &&& state.stream_too_large ==> info.has_idr && info.resolution is Some
            }
        }),
{
}

/// A keyframe is asked for exactly when a frame was lost; one packet loses at most two.
pub proof fn a_lost_frame_asks_for_a_keyframe(
    state: VideoView,
    worker: WorkerView,
    packet: PacketView,
    twcc_ext_id: u8,
    now_ns: u64,
    submission: Submission,
)
    ensures
        ({
            let reception = video_rtp::received(
                state,
                worker,
                packet,
                twcc_ext_id,
                now_ns,
                submission,
            );
            &&& reception.keyframe <==> reception.stats.dropped > 0
            &&& 0 <= reception.stats.dropped <= 2
        }),
{
}

/// Whatever the channel answers but that it took the unit, the frame counts as lost and a keyframe
/// is asked for; so does a unit for which as many wait as may.
pub proof fn a_unit_that_was_not_taken_is_lost(
    state: VideoView,
    worker: WorkerView,
    packet: PacketView,
    twcc_ext_id: u8,
    now_ns: u64,
    submission: Submission,
)
    ensures
        ({
            let reception = video_rtp::received(
                state,
                worker,
                packet,
                twcc_ext_id,
                now_ns,
                submission,
            );
            reception.stats.outcome is Submitted ==> {
                &&& reception.stats.outcome == (FrameOutcome::Submitted {
                    outcome: submission.outcome,
                })
                &&& !(submission.outcome is OverLimit) ==> reception.worker.answers
                    == worker.answers.push(submission.outcome)
                &&& submission.outcome != SubmitOutcome::Sent ==> reception.keyframe
                    && reception.stats.dropped > 0
            }
        }),
{
}

/// Making the queue stale goes with waiting for a keyframe, unless the same packet completed the
/// keyframe that ends the wait.
pub proof fn a_resync_awaits_a_keyframe(
    state: VideoView,
    worker: WorkerView,
    packet: PacketView,
    twcc_ext_id: u8,
    now_ns: u64,
    submission: Submission,
)
    ensures
        ({
            let reception = video_rtp::received(
                state,
                worker,
                packet,
                twcc_ext_id,
                now_ns,
                submission,
            );
            reception.stats.resynced ==> {
                ||| reception.state.waiting_for_keyframe
                ||| reception.stats.outcome is Submitted && (hands_over(worker, reception)
                    ==> video_rtp::unit_info(handed_over(reception)).has_idr)
            }
        }),
{
}

/// Whole frames come in the order of their timestamps: the last whole frame's timestamp stays or
/// moves ahead.
pub proof fn whole_frames_move_ahead(
    state: VideoView,
    worker: WorkerView,
    packet: PacketView,
    twcc_ext_id: u8,
    now_ns: u64,
    submission: Submission,
)
    requires
        video_rtp::video_wf(state),
    ensures
        ({
            let after = video_rtp::received(
                state,
                worker,
                packet,
                twcc_ext_id,
                now_ns,
                submission,
            ).state.last_frame_timestamp;
            &&& state.last_frame_timestamp is Some ==> after is Some
            &&& state.last_frame_timestamp matches Some(last) ==> after == Some(last)
                || packet::is_newer(after->0, last)
        }),
{
}

/// A packet whose frame is past changes nothing but the byte count and the transport notes.
pub proof fn late_packets_are_ignored(
    state: VideoView,
    worker: WorkerView,
    packet: PacketView,
    twcc_ext_id: u8,
    now_ns: u64,
    submission: Submission,
)
    requires
        packet.payload.len() > 0,
        match state.pending {
            Some(frame) => frame.timestamp != packet.timestamp && !packet::is_newer(
                packet.timestamp,
                frame.timestamp,
            ),
            None => state.last_frame_timestamp matches Some(last) && !packet::is_newer(
                packet.timestamp,
                last,
            ),
        },
    ensures
        ({
            let reception = video_rtp::received(
                state,
                worker,
                packet,
                twcc_ext_id,
                now_ns,
                submission,
            );
            &&& reception.state == (VideoView {
                total_bytes: reception.state.total_bytes,
                twcc_annotations: reception.state.twcc_annotations,
                ..state
            })
            &&& reception.worker == worker
            &&& !reception.keyframe
            &&& reception.stats.outcome == FrameOutcome::Incomplete
        }),
{
}

/// The damage limit lies between the two that are set, and no faster stream has a higher one.
pub proof fn damage_limit_falls_with_the_rate(slower: int, faster: int)
    requires
        slower <= faster,
    ensures
        video_rtp::HIGH_FPS_DAMAGE_LIMIT <= video_rtp::damage_limit(slower)
            <= video_rtp::LOW_FPS_DAMAGE_LIMIT,
        video_rtp::damage_limit(faster) <= video_rtp::damage_limit(slower),
{
}

/// A submitted keyframe wipes out all damage, and a unit that is held back leaves it as it was.
pub proof fn a_keyframe_clears_the_damage(state: VideoView, info: AccessUnitInfo, gave_up: bool)
    ensures
        state.waiting_for_keyframe && video_rtp::verdict(state, info) == Verdict::Submit
            ==> info.has_idr && video_rtp::judged(state, info, gave_up).damage_score == 0,
        video_rtp::verdict(state, info) != Verdict::Submit ==> video_rtp::judged(
            state,
            info,
            gave_up,
        ).damage_score == state.damage_score,
{
}

// Going on after a loss.

/// Whether a timestamp lies ahead of another, less than half the circle of 32 bits away.
pub open spec fn ahead(timestamp: u32, other: u32) -> bool {
    0 < (timestamp - other) % 0x1_0000_0000 < 0x8000_0000
}

/// The number with which the stream goes on behind some packets of a frame: the one after that of
/// the first of them with its marker bit set; none where no such packet has come.
pub open spec fn goes_on_with(packets: Seq<PacketView>, next: Option<u16>) -> bool {
    match next {
        Some(next) => exists|i: int|
            0 <= i < packets.len() && (#[trigger] packets[i]).marker && next == (
            packets[i].sequence_number + 1) % 0x1_0000 && forall|j: int|
                0 <= j < i ==> !(#[trigger] packets[j]).marker,
        None => forall|i: int| 0 <= i < packets.len() ==> !(#[trigger] packets[i]).marker,
    }
}

proof fn lemma_goes_on_with(packets: Seq<PacketView>)
    ensures
        goes_on_with(packets, video_rtp::following(frame::first_marker(packets))),
    decreases packets.len(),
{
    if packets.len() > 0 {
        let next = video_rtp::following(frame::first_marker(packets));
        if packets[0].marker {
            assert(next->0 == (packets[0].sequence_number + 1) % 0x1_0000);
        } else {
            let rest = packets.drop_first();
            lemma_goes_on_with(rest);
            match next {
                Some(next) => {
                    let i = choose|i: int|
                        0 <= i < rest.len() && (#[trigger] rest[i]).marker && next == (
                        rest[i].sequence_number + 1) % 0x1_0000 && forall|j: int|
                            0 <= j < i ==> !(#[trigger] rest[j]).marker;
                    assert(packets[i + 1] == rest[i]);
                    assert forall|j: int| 0 <= j < i + 1 implies !(
                    #[trigger] packets[j]).marker by {
                        if j > 0 {
                            assert(rest[j - 1] == packets[j]);
                        }
                    }
                },
                None => {
                    assert forall|i: int| 0 <= i < packets.len() implies !(
                    #[trigger] packets[i]).marker by {
                        if i > 0 {
                            assert(rest[i - 1] == packets[i]);
                        }
                    }
                },
            }
        }
    }
}

/// A packet of a newer frame makes the one that is gathered be given up: it counts as lost, a
/// keyframe is asked for, and none of its packets is kept. The stream goes on behind it: the
/// number that is expected afterwards is the one after the marker that was received of it, and
/// none when none was. (Where the packet makes a frame by itself, the stream goes on behind that
/// one already.)
pub proof fn the_stream_goes_on_behind_a_given_up_frame(
    state: VideoView,
    worker: WorkerView,
    packet: PacketView,
    twcc_ext_id: u8,
    now_ns: u64,
    submission: Submission,
)
    requires
        packet.payload.len() > 0,
        state.pending matches Some(frame) && ahead(packet.timestamp, frame.timestamp),
    ensures
        ({
            let reception = video_rtp::received(
                state,
                worker,
                packet,
                twcc_ext_id,
                now_ns,
                submission,
            );
            let after = reception.state;
            &&& reception.stats.dropped >= 1
            &&& reception.keyframe
            &&& reception.stats.outcome is Incomplete ==> goes_on_with(
                state.pending->0.packets,
                after.next_sequence,
            )
            &&& after.pending matches Some(frame) ==> frame == (PendingView {
                timestamp: packet.timestamp,
                first_packet_at_ns: now_ns,
                packets: seq![packet],
            })
            &&& state.last_frame_timestamp is None || ahead(
                packet.timestamp,
                state.last_frame_timestamp->0,
            ) ==> reception.stats.outcome is Incomplete ==> after.pending is Some
        }),
{
    lemma_goes_on_with(state.pending->0.packets);
}

/// A packet that arrives, when, and what becomes of the access unit if it completes one.
pub ghost struct Arrival {
    pub packet: PacketView,
    pub at_ns: u64,
    pub submission: Submission,
}

/// What receiving some packets one after the other comes to.
pub open spec fn received_all(
    state: VideoView,
    worker: WorkerView,
    arrivals: Seq<Arrival>,
    twcc_ext_id: u8,
) -> Reception
    decreases arrivals.len(),
{
    if arrivals.len() <= 1 {
        video_rtp::received(
            state,
            worker,
            arrivals[0].packet,
            twcc_ext_id,
            arrivals[0].at_ns,
            arrivals[0].submission,
        )
    } else {
        let before = received_all(state, worker, arrivals.drop_last(), twcc_ext_id);
        let last = arrivals.last();
        video_rtp::received(
            before.state,
            before.worker,
            last.packet,
            twcc_ext_id,
            last.at_ns,
            last.submission,
        )
    }
}

/// Whether some packets that arrive are the whole of a frame that the receiver waits for. They
/// have one timestamp, which lies ahead of that of the last whole frame and of the frame that is
/// gathered; their sequence numbers have no gap; the first of them starts a unit and the last one
/// is marked; and the stream is not known to go on elsewhere.
pub open spec fn is_next_frame(state: VideoView, arrivals: Seq<Arrival>) -> bool {
    let run = Seq::new(arrivals.len(), |i: int| arrivals[i].packet);
    &&& frame::gapless_run(run)
    &&& forall|i: int|
        0 <= i < run.len() ==> (#[trigger] run[i]).timestamp == run[0].timestamp
            && run[i].payload.len() > 0
    &&& crate::h264::starts_unit(run[0].payload)
    &&& state.last_frame_timestamp matches Some(last) ==> ahead(run[0].timestamp, last)
    &&& match state.pending {
        None => state.next_sequence is None || state.next_sequence == Some(run[0].sequence_number),
        Some(frame) => ahead(run[0].timestamp, frame.timestamp) && (goes_on_with(
            frame.packets,
            None,
        ) || goes_on_with(frame.packets, Some(run[0].sequence_number))),
    }
}

/// The frame that is gathered after some of its packets have come.
spec fn gathered(arrivals: Seq<Arrival>) -> PendingView {
    PendingView {
        timestamp: arrivals[0].packet.timestamp,
        first_packet_at_ns: arrivals[0].at_ns,
        packets: Seq::new(arrivals.len(), |i: int| arrivals[i].packet),
    }
}

proof fn lemma_next_sequence(packets: Seq<PacketView>, next: u16)
    requires
        goes_on_with(packets, None) || goes_on_with(packets, Some(next)),
    ensures
        ({
            let known = video_rtp::following(frame::first_marker(packets));
            known is None || known == Some(next)
        }),
{
    if goes_on_with(packets, None) {
        frame::lemma_no_marker(packets);
    } else {
        let i = choose|i: int|
            0 <= i < packets.len() && (#[trigger] packets[i]).marker && next == (
            packets[i].sequence_number + 1) % 0x1_0000 && forall|j: int|
                0 <= j < i ==> !(#[trigger] packets[j]).marker;
        frame::lemma_marker_at(packets, i);
    }
}

/// While the packets of the next frame come, all but the last, they are gathered in order.
proof fn lemma_gathering(
    state: VideoView,
    worker: WorkerView,
    arrivals: Seq<Arrival>,
    twcc_ext_id: u8,
    n: int,
)
    requires
        is_next_frame(state, arrivals),
        0 < n < arrivals.len(),
    ensures
        ({
            let after = received_all(state, worker, arrivals.take(n), twcc_ext_id).state;
            &&& after.pending == Some(gathered(arrivals.take(n)))
            &&& after.next_sequence is None || after.next_sequence == Some(
                arrivals[0].packet.sequence_number,
            )
            &&& after.last_frame_timestamp == state.last_frame_timestamp
        }),
    decreases n,
{
    let run = Seq::new(arrivals.len(), |i: int| arrivals[i].packet);
    let some = arrivals.take(n);
    let got = gathered(some).packets;
    assert forall|i: int| 0 <= i < got.len() implies !(#[trigger] got[i]).marker by {
        assert(got[i] == run[i]);
    }
    frame::nothing_is_assembled_without_a_marker(got, None);
    frame::nothing_is_assembled_without_a_marker(got, Some(arrivals[0].packet.sequence_number));
    let last = some.last();
    assert(last.packet == run[n - 1]);
    assert(run[0] == arrivals[0].packet);
    if n == 1 {
        assert(got =~= seq![last.packet]);
        if state.pending is Some {
            lemma_next_sequence(state.pending->0.packets, run[0].sequence_number);
        }
    } else {
        lemma_gathering(state, worker, arrivals, twcc_ext_id, n - 1);
        assert(some.drop_last() =~= arrivals.take(n - 1));
        let before = gathered(arrivals.take(n - 1));
        frame::lemma_run_is_distinct(run);
        assert forall|i: int| 0 <= i < before.packets.len() implies (
        #[trigger] before.packets[i]).sequence_number != last.packet.sequence_number by {
            assert(before.packets[i] == run[i]);
            assert(run[i].sequence_number != run[n - 1].sequence_number);
        }
        frame::a_new_packet_comes_last(before.packets, last.packet);
        assert(before.packets.push(last.packet) =~= got);
    }
}

/// What the last packet of a frame comes to once its packets are assembled.
spec fn settles(
    reception: Reception,
    before: VideoView,
    frame: PendingView,
    unit: Option<Seq<u8>>,
    last_sequence: u16,
    submission: Submission,
) -> bool {
    let after = reception.state;
    &&& after.pending is None
    &&& unit is None ==> reception.stats.outcome is Invalid && after.next_sequence is None
        && after.last_frame_timestamp == before.last_frame_timestamp
    &&& unit is Some ==> {
        &&& !(reception.stats.outcome is Invalid)
        &&& !(reception.stats.outcome is Incomplete)
        &&& reception.stats.frame == Some((frame.timestamp, frame.first_packet_at_ns))
        &&& after.last_frame_timestamp == Some(frame.timestamp)
        &&& after.next_sequence == Some(((last_sequence + 1) % 0x1_0000) as u16)
        &&& reception.stats.outcome is Submitted && !(submission.outcome is OverLimit)
            ==> reception.worker.units.len() > 0 && handed_over(reception) == unit->0
    }
}

proof fn lemma_attempt(
    state: VideoView,
    worker: WorkerView,
    frame: PendingView,
    gave_up: bool,
    now_ns: u64,
    submission: Submission,
    stats: StatsView,
    unit: Option<Seq<u8>>,
    last_sequence: u16,
)
    requires
        frame::assembled(frame.packets, state.next_sequence) == match unit {
            Some(data) => AssemblyView::Complete { data, marker_sequence: last_sequence },
            None => AssemblyView::Invalid,
        },
    ensures
        settles(
            video_rtp::attempted(state, worker, frame, gave_up, now_ns, submission, stats),
            state,
            frame,
            unit,
            last_sequence,
            submission,
        ),
{
    if unit is Some {
        let reception = video_rtp::attempted(
            state,
            worker,
            frame,
            gave_up,
            now_ns,
            submission,
            stats,
        );
        let after = video_rtp::completed(state, frame.timestamp, last_sequence);
        let info = video_rtp::unit_info(unit->0);
        assert(reception.state == video_rtp::judged(after, info, gave_up));
    }
}

/// What taking in the last packet of the next frame comes to.
proof fn lemma_last_intake(
    state: VideoView,
    worker: WorkerView,
    arrivals: Seq<Arrival>,
    twcc_ext_id: u8,
    before: VideoView,
)
    requires
        is_next_frame(state, arrivals),
        if arrivals.len() == 1 {
            before == state
        } else {
            before == received_all(state, worker, arrivals.drop_last(), twcc_ext_id).state
        },
    ensures
        ({
            let last = arrivals.last();
            let noted = video_rtp::noted(before, last.packet, twcc_ext_id, last.at_ns);
            let intake = video_rtp::taken_in(noted, last.packet, last.at_ns);
            &&& intake.joined
            &&& intake.state.pending == Some(gathered(arrivals))
            &&& intake.state.next_sequence is None || intake.state.next_sequence == Some(
                arrivals[0].packet.sequence_number,
            )
            &&& intake.state.last_frame_timestamp == state.last_frame_timestamp
        }),
{
    let n = arrivals.len() as int;
    let run = Seq::new(arrivals.len(), |i: int| arrivals[i].packet);
    let last = arrivals.last();
    assert(run[0] == arrivals[0].packet);
    assert(run[n - 1] == last.packet);
    if n == 1 {
        assert(gathered(arrivals).packets =~= seq![last.packet]);
        if state.pending is Some {
            lemma_next_sequence(state.pending->0.packets, run[0].sequence_number);
        }
    } else {
        lemma_gathering(state, worker, arrivals, twcc_ext_id, n - 1);
        assert(arrivals.drop_last() =~= arrivals.take(n - 1));
        let held = gathered(arrivals.take(n - 1));
        frame::lemma_run_is_distinct(run);
        assert forall|i: int| 0 <= i < held.packets.len() implies (
        #[trigger] held.packets[i]).sequence_number != last.packet.sequence_number by {
            assert(held.packets[i] == run[i]);
            assert(run[i].sequence_number != run[n - 1].sequence_number);
        }
        frame::a_new_packet_comes_last(held.packets, last.packet);
        assert(held.packets.push(last.packet) =~= gathered(arrivals).packets);
    }
}

proof fn lemma_received(
    state: VideoView,
    worker: WorkerView,
    arrival: Arrival,
    twcc_ext_id: u8,
    frame: PendingView,
    unit: Option<Seq<u8>>,
)
    requires
        ({
            let noted = video_rtp::noted(state, arrival.packet, twcc_ext_id, arrival.at_ns);
            let intake = video_rtp::taken_in(noted, arrival.packet, arrival.at_ns);
            &&& intake.joined
            &&& intake.state.pending == Some(frame)
            &&& frame::assembled(frame.packets, intake.state.next_sequence) == match unit {
                Some(data) => AssemblyView::Complete {
                    data,
                    marker_sequence: arrival.packet.sequence_number,
                },
                None => AssemblyView::Invalid,
            }
        }),
    ensures
        ({
            let noted = video_rtp::noted(state, arrival.packet, twcc_ext_id, arrival.at_ns);
            let intake = video_rtp::taken_in(noted, arrival.packet, arrival.at_ns);
            settles(
                video_rtp::received(
                    state,
                    worker,
                    arrival.packet,
                    twcc_ext_id,
                    arrival.at_ns,
                    arrival.submission,
                ),
                intake.state,
                frame,
                unit,
                arrival.packet.sequence_number,
                arrival.submission,
            )
        }),
{
    let noted = video_rtp::noted(state, arrival.packet, twcc_ext_id, arrival.at_ns);
    let intake = video_rtp::taken_in(noted, arrival.packet, arrival.at_ns);
    assert forall|worker: WorkerView, stats: StatsView| #[trigger]
        settles(
            video_rtp::attempted(
                intake.state,
                worker,
                frame,
                intake.gave_up,
                arrival.at_ns,
                arrival.submission,
                stats,
            ),
            intake.state,
            frame,
            unit,
            arrival.packet.sequence_number,
            arrival.submission,
        ) by {
        lemma_attempt(
            intake.state,
            worker,
            frame,
            intake.gave_up,
            arrival.at_ns,
            arrival.submission,
            stats,
            unit,
            arrival.packet.sequence_number,
        );
    }
}

/// The next frame is delivered when the last of its packets has come, whatever was lost before
/// it: a frame that starts with a unit, ends at its marker and has no gap is judged at once, as
/// the access unit that its payloads make in their order, or turns out to make none. Either way
/// nothing is left waiting, and the stream goes on behind it.
pub proof fn the_next_frame_is_delivered(
    state: VideoView,
    worker: WorkerView,
    arrivals: Seq<Arrival>,
    twcc_ext_id: u8,
)
    requires
        is_next_frame(state, arrivals),
    ensures
        ({
            let reception = received_all(state, worker, arrivals, twcc_ext_id);
            let after = reception.state;
            let timestamp = arrivals[0].packet.timestamp;
            let unit = frame::gather(
                Seq::empty(),
                Seq::new(arrivals.len(), |i: int| arrivals[i].packet.payload),
                Seq::empty(),
            );
            &&& after.pending is None
            &&& unit is None ==> reception.stats.outcome is Invalid && after.next_sequence is None
                && after.last_frame_timestamp == state.last_frame_timestamp
            &&& unit is Some ==> {
                &&& !(reception.stats.outcome is Invalid)
                &&& !(reception.stats.outcome is Incomplete)
                &&& reception.stats.frame == Some((timestamp, arrivals[0].at_ns))
                &&& after.last_frame_timestamp == Some(timestamp)
                &&& after.next_sequence == Some(
                    ((arrivals.last().packet.sequence_number + 1) % 0x1_0000) as u16,
                )
                &&& reception.stats.outcome is Submitted && !(
                arrivals.last().submission.outcome is OverLimit) ==> reception.worker.units.len()
                    > 0 && handed_over(reception) == unit->0
            }
        }),
{
    let run = Seq::new(arrivals.len(), |i: int| arrivals[i].packet);
    let last = arrivals.last();
    let unit = frame::gather(
        Seq::empty(),
        Seq::new(arrivals.len(), |i: int| arrivals[i].packet.payload),
        Seq::empty(),
    );
    assert(run[0] == arrivals[0].packet);
    assert(run.last() == last.packet);
    assert(gathered(arrivals).packets =~= run);
    frame::a_gapless_run_is_assembled(run, None);
    frame::a_gapless_run_is_assembled(run, Some(run[0].sequence_number));
    assert(Seq::new(run.len(), |i: int| run[i].payload) =~= Seq::new(
        arrivals.len(),
        |i: int| arrivals[i].packet.payload,
    ));
    let (before, before_worker) = if arrivals.len() == 1 {
        (state, worker)
    } else {
        let reception = received_all(state, worker, arrivals.drop_last(), twcc_ext_id);
        (reception.state, reception.worker)
    };
    lemma_last_intake(state, worker, arrivals, twcc_ext_id, before);
    lemma_received(before, before_worker, last, twcc_ext_id, gathered(arrivals), unit);
}

// What is counted and noted of a packet.

/// A packet without a payload only fills its place: where its number is the expected one, the next
/// one is expected, and nothing else changes but the transport notes.
pub proof fn an_empty_packet_fills_its_place(
    state: VideoView,
    worker: WorkerView,
    packet: PacketView,
    twcc_ext_id: u8,
    now_ns: u64,
    submission: Submission,
)
    requires
        packet.payload.len() == 0,
    ensures
        ({
            let reception = video_rtp::received(
                state,
                worker,
                packet,
                twcc_ext_id,
                now_ns,
                submission,
            );
            let after = reception.state;
            &&& state.next_sequence == Some(packet.sequence_number) ==> after.next_sequence == Some(
                ((packet.sequence_number + 1) % 0x1_0000) as u16,
            )
            &&& state.next_sequence != Some(packet.sequence_number) ==> after.next_sequence
                == state.next_sequence
            &&& after == (VideoView {
                next_sequence: after.next_sequence,
                twcc_annotations: after.twcc_annotations,
                ..state
            })
            &&& reception.worker == worker
            &&& !reception.keyframe
            &&& reception.stats.dropped == 0
            &&& reception.stats.outcome == FrameOutcome::Incomplete
        }),
{
}

/// Every packet with a payload counts with that payload and twelve bytes of header, whatever
/// becomes of it, round the circle of 64 bits.
pub proof fn every_payload_is_counted(
    state: VideoView,
    worker: WorkerView,
    packet: PacketView,
    twcc_ext_id: u8,
    now_ns: u64,
    submission: Submission,
)
    ensures
        video_rtp::received(
            state,
            worker,
            packet,
            twcc_ext_id,
            now_ns,
            submission,
        ).state.total_bytes == if packet.payload.len() > 0 {
            (state.total_bytes + packet.payload.len() + 12) % 0x1_0000_0000_0000_0000
        } else {
            state.total_bytes as int
        },
{
}

/// Whether an extension carries a transport number: it has the id that was negotiated, and two
/// bytes or more, of which the first is the higher.
pub open spec fn carries_number(extension: packet::ExtensionView, id: u8, number: int) -> bool {
    &&& extension.id == id
    &&& extension.payload.len() >= 2
    &&& number == 0x100 * extension.payload[0] + extension.payload[1]
}

/// Whether one of some extensions carries a transport number.
pub open spec fn is_carried(extensions: Seq<packet::ExtensionView>, id: u8, number: int) -> bool {
    exists|i: int| 0 <= i < extensions.len() && #[trigger] carries_number(extensions[i], id, number)
}

proof fn lemma_transport_numbers(extensions: Seq<packet::ExtensionView>, id: u8)
    ensures
        ({
            let numbers = video_rtp::transport_numbers(extensions, id);
            &&& numbers.len() <= extensions.len()
            &&& forall|k: int|
                0 <= k < numbers.len() ==> is_carried(extensions, id, #[trigger] numbers[k] as int)
            &&& forall|i: int, number: int|
                0 <= i < extensions.len() && #[trigger] carries_number(extensions[i], id, number)
                    ==> numbers.contains(number as u16)
        }),
    decreases extensions.len(),
{
    let numbers = video_rtp::transport_numbers(extensions, id);
    if extensions.len() > 0 {
        let before = extensions.drop_last();
        let fewer = video_rtp::transport_numbers(before, id);
        lemma_transport_numbers(before, id);
        assert forall|k: int| 0 <= k < numbers.len() implies is_carried(
            extensions,
            id,
            #[trigger] numbers[k] as int,
        ) by {
            if k < fewer.len() {
                assert(numbers[k] == fewer[k]);
                let i = choose|i: int|
                    0 <= i < before.len() && #[trigger] carries_number(
                        before[i],
                        id,
                        fewer[k] as int,
                    );
                assert(carries_number(extensions[i], id, numbers[k] as int));
            } else {
                assert(carries_number(extensions[extensions.len() - 1], id, numbers[k] as int));
            }
        }
        assert forall|i: int, number: int|
            0 <= i < extensions.len() && #[trigger] carries_number(
                extensions[i],
                id,
                number,
            ) implies numbers.contains(number as u16) by {
            if i < before.len() {
                assert(carries_number(before[i], id, number));
                let k = choose|k: int| 0 <= k < fewer.len() && fewer[k] == number as u16;
                assert(numbers[k] == number as u16);
            } else {
                assert(numbers[fewer.len() as int] == number as u16);
            }
        }
    }
}

proof fn lemma_annotated(annotations: Seq<(u16, u64)>, numbers: Seq<u16>, now_ns: u64)
    requires
        annotations.len() <= 200,
    ensures
        ({
            let after = video_rtp::annotated(annotations, numbers, now_ns);
            let more = if annotations.len() + numbers.len() <= 200 {
                numbers.len() as int
            } else {
                200 - annotations.len()
            };
            &&& after.len() == annotations.len() + more
            &&& forall|i: int| 0 <= i < annotations.len() ==> #[trigger] after[i] == annotations[i]
            &&& forall|i: int|
                annotations.len() <= i < after.len() ==> #[trigger] after[i] == (
                    numbers[i - annotations.len()],
                    now_ns,
                )
        }),
    decreases numbers.len(),
{
    if numbers.len() > 0 {
        lemma_annotated(annotations, numbers.drop_last(), now_ns);
    }
}

/// The transport numbers that a packet carries are noted with the time of its arrival, behind
/// those that were noted before; no more than two hundred are kept, and none where no extension
/// was negotiated. What is noted was carried, and what was carried is noted while there is room.
pub proof fn arrivals_are_noted_as_they_come(
    state: VideoView,
    worker: WorkerView,
    packet: PacketView,
    twcc_ext_id: u8,
    now_ns: u64,
    submission: Submission,
)
    requires
        state.twcc_annotations.len() <= 200,
    ensures
        ({
            let before = state.twcc_annotations;
            let reception = video_rtp::received(
                state,
                worker,
                packet,
                twcc_ext_id,
                now_ns,
                submission,
            );
            let after = reception.state.twcc_annotations;
            &&& before.len() <= after.len() <= 200
            &&& after.take(before.len() as int) == before
            &&& twcc_ext_id == 0 ==> after == before && reception.stats.twcc_samples == 0
                && reception.stats.extensions_seen == 0
            &&& twcc_ext_id != 0 ==> reception.stats.extensions_seen == packet.extensions.len()
            &&& forall|k: int|
                before.len() <= k < after.len() ==> (#[trigger] after[k]).1 == now_ns && is_carried(
                    packet.extensions,
                    twcc_ext_id,
                    after[k].0 as int,
                )
            &&& forall|i: int, number: int|
                0 <= i < packet.extensions.len() && twcc_ext_id != 0 && before.len()
                    + packet.extensions.len() <= 200 && #[trigger] carries_number(
                    packet.extensions[i],
                    twcc_ext_id,
                    number,
                ) ==> after.contains((number as u16, now_ns))
        }),
{
    let before = state.twcc_annotations;
    let numbers = video_rtp::noted_numbers(packet, twcc_ext_id);
    let reception = video_rtp::received(state, worker, packet, twcc_ext_id, now_ns, submission);
    let after = reception.state.twcc_annotations;
    assert(after == video_rtp::annotated(before, numbers, now_ns));
    lemma_annotated(before, numbers, now_ns);
    lemma_transport_numbers(packet.extensions, twcc_ext_id);
    assert(after.take(before.len() as int) =~= before);
    if twcc_ext_id != 0 {
        assert forall|i: int, number: int|
            0 <= i < packet.extensions.len() && before.len() + packet.extensions.len() <= 200
                && #[trigger] carries_number(
                packet.extensions[i],
                twcc_ext_id,
                number,
            ) implies after.contains((number as u16, now_ns)) by {
            let k = choose|k: int| 0 <= k < numbers.len() && numbers[k] == number as u16;
            assert(after[before.len() + k] == (numbers[k], now_ns));
        }
    }
}

// Frame durations.

/// A whole frame tells how long it took from the one before it: its timestamp's distance on the
/// 90 kHz clock, in whole microseconds from below. The running average takes it in with one part
/// in eight, and starts with the first.
pub proof fn frame_durations_follow_the_clock(
    state: VideoView,
    worker: WorkerView,
    packet: PacketView,
    twcc_ext_id: u8,
    now_ns: u64,
    submission: Submission,
)
    requires
        video_rtp::received(
            state,
            worker,
            packet,
            twcc_ext_id,
            now_ns,
            submission,
        ).stats.frame is Some,
        state.source_frame_duration_us matches Some(average) ==> average <= 47_721_858_833,
    ensures
        ({
            let reception = video_rtp::received(
                state,
                worker,
                packet,
                twcc_ext_id,
                now_ns,
                submission,
            );
            let duration = reception.stats.source_frame_duration_us;
            let average = reception.state.source_frame_duration_us;
            &&& reception.stats.frame matches Some(frame) && frame.0 == packet.timestamp
            &&& reception.state.last_frame_timestamp == Some(packet.timestamp)
            &&& state.last_frame_timestamp is None ==> duration is None && average
                == state.source_frame_duration_us
            &&& state.last_frame_timestamp matches Some(last) ==> {
                let ticks = (packet.timestamp - last) % 0x1_0000_0000;
                &&& duration is Some
                &&& 9 * duration->0 <= 100 * ticks < 9 * duration->0 + 9
                &&& average is Some
                &&& state.source_frame_duration_us is None ==> average == duration
                &&& state.source_frame_duration_us matches Some(old) ==> 8 * average->0 <= 7 * old
                    + duration->0 < 8 * average->0 + 8
            }
        }),
{
}

/// A whole frame tells how long its packets took to come, in whole microseconds from below.
pub proof fn assembly_times_are_measured(
    state: VideoView,
    worker: WorkerView,
    packet: PacketView,
    twcc_ext_id: u8,
    now_ns: u64,
    submission: Submission,
)
    ensures
        ({
            let stats = video_rtp::received(
                state,
                worker,
                packet,
                twcc_ext_id,
                now_ns,
                submission,
            ).stats;
            &&& stats.assembly_us is Some <==> stats.frame is Some
            &&& stats.frame matches Some(frame) ==> {
                let waited = if now_ns >= frame.1 {
                    now_ns - frame.1
                } else {
                    0
                };
                stats.assembly_us->0 == waited / 1000
            }
        }),
{
}

// Damage and verdicts.

/// A damaged frame counts once, unless a keyframe is awaited already; when the count reaches the
/// limit for the frame rate, it starts anew, a keyframe is awaited and everything that waits for
/// the decoder becomes stale. The limit falls from eight at 30 frames per second to three at 60,
/// by five in thirty and rounded down.
pub proof fn damage_is_counted_up_to_the_limit(state: VideoView, worker: WorkerView)
    requires
        state.damage_score < 255,
    ensures
        ({
            let after = video_rtp::damaged(state);
            let fps = match state.source_frame_duration_us {
                Some(duration) if duration > 0 => 1_000_000int / duration as int,
                _ => 30,
            };
            let limit = video_rtp::damage_limit(fps);
            &&& fps <= 30 ==> limit == 8
            &&& fps >= 60 ==> limit == 3
            &&& 30 < fps < 60 ==> 30 * (7 - limit) < 5 * (fps - 30) <= 30 * (8 - limit)
            &&& state.waiting_for_keyframe ==> after == state && !video_rtp::damage_resyncs(state)
            &&& !state.waiting_for_keyframe && state.damage_score + 1 < limit ==> after == (
            VideoView { damage_score: (state.damage_score + 1) as u8, ..state })
                && !video_rtp::damage_resyncs(state)
            &&& !state.waiting_for_keyframe && state.damage_score + 1 >= limit ==> after == (
            VideoView { damage_score: 0, waiting_for_keyframe: true, ..state })
                && video_rtp::damage_resyncs(state)
            &&& video_rtp::after_damage(state, worker).generation == if video_rtp::damage_resyncs(
                state,
            ) {
                (worker.generation + 1) % 0x1_0000_0000_0000_0000
            } else {
                worker.generation as int
            }
        }),
{
}

/// A frame that is given up, and one whose packets make no access unit, count as damaged.
pub proof fn lost_frames_are_damage(
    state: VideoView,
    worker: WorkerView,
    packet: PacketView,
    twcc_ext_id: u8,
    now_ns: u64,
    submission: Submission,
)
    ensures
        ({
            let reception = video_rtp::received(
                state,
                worker,
                packet,
                twcc_ext_id,
                now_ns,
                submission,
            );
            let after = reception.state;
            let gave_up = packet.payload.len() > 0 && state.pending is Some && ahead(
                packet.timestamp,
                state.pending->0.timestamp,
            );
            &&& gave_up && reception.stats.outcome is Incomplete ==> after.damage_score
                == video_rtp::damaged(state).damage_score && after.waiting_for_keyframe
                == video_rtp::damaged(state).waiting_for_keyframe
            &&& !gave_up && reception.stats.outcome is Invalid ==> after.damage_score
                == video_rtp::damaged(state).damage_score && after.waiting_for_keyframe
                == video_rtp::damaged(state).waiting_for_keyframe
            &&& !gave_up && reception.stats.outcome is Incomplete ==> after.damage_score
                == state.damage_score && after.waiting_for_keyframe == state.waiting_for_keyframe
        }),
{
}

/// What is done with an access unit goes by three questions, in this order. A picture of more
/// than 1280 by 720 is too large. After such a one, a unit has to state a size and hold a
/// keyframe. While a keyframe is awaited, a unit has to hold one. What passes is submitted, ends
/// the wait, and makes up for one damaged frame, unless one was given up for it; a keyframe that
/// was awaited makes up for all.
pub proof fn units_are_judged_by_size_and_keyframe(
    state: VideoView,
    info: AccessUnitInfo,
    gave_up: bool,
)
    ensures
        ({
            let large = info.resolution matches Some(size) && (size.0 > 1280 || size.1 > 720);
            let shrunk = info.resolution is Some && info.has_idr;
            let verdict = video_rtp::verdict(state, info);
            let after = video_rtp::judged(state, info, gave_up);
            &&& large ==> verdict is TooLarge && after == (VideoView {
                stream_too_large: true,
                waiting_for_keyframe: true,
                ..state
            })
            &&& !large && state.stream_too_large && !shrunk ==> verdict is StillTooLarge && after
                == (VideoView { waiting_for_keyframe: true, ..state })
            &&& !large && (!state.stream_too_large || shrunk) && state.waiting_for_keyframe
                && !info.has_idr ==> verdict is AwaitingKeyframe && after == (VideoView {
                stream_too_large: false,
                ..state
            })
            &&& !large && (!state.stream_too_large || shrunk) && (!state.waiting_for_keyframe
                || info.has_idr) ==> verdict is Submit && after == (VideoView {
                stream_too_large: false,
                waiting_for_keyframe: false,
                damage_score: after.damage_score,
                ..state
            })
            &&& verdict is Submit ==> after.damage_score == if state.waiting_for_keyframe {
                0
            } else if gave_up || state.damage_score == 0 {
                state.damage_score as int
            } else {
                state.damage_score - 1
            }
        }),
{
}

/// Whether a call of the handler was given a whole unit of a type: the type stands in the lowest
/// five bits of its first byte, whose highest bit is not set.
pub open spec fn is_whole_unit(call: crate::h264::NalCallView, unit_type: int) -> bool {
    call.complete && call.unit.len() > 0 && call.unit[0] < 128 && call.unit[0] % 32 == unit_type
}

/// An access unit holds a keyframe exactly when one of its whole units is an IDR slice, type 5.
pub proof fn an_idr_slice_makes_a_keyframe(calls: Seq<crate::h264::NalCallView>)
    ensures
        crate::h264::calls_have_idr(calls) <==> exists|i: int|
            0 <= i < calls.len() && is_whole_unit(#[trigger] calls[i], 5),
{
    if crate::h264::calls_have_idr(calls) {
        let i = choose|i: int|
            0 <= i < calls.len() && (#[trigger] calls[i]).complete && crate::h264::unit_type_of(
                calls[i].unit,
            ) == Some(crate::h264::UNIT_IDR_SLICE);
        assert(is_whole_unit(calls[i], 5));
    }
    if exists|i: int| 0 <= i < calls.len() && is_whole_unit(#[trigger] calls[i], 5) {
        let i = choose|i: int| 0 <= i < calls.len() && is_whole_unit(#[trigger] calls[i], 5);
        assert(crate::h264::unit_type_of(calls[i].unit) == Some(crate::h264::UNIT_IDR_SLICE));
    }
}

/// The size of an access unit is what its whole sequence parameter sets, type 7, state: the last
/// one that comes decides, a unit of another type or one that is not whole says nothing, and
/// without any there is no size.
pub proof fn the_last_parameter_set_states_the_size(
    calls: Seq<crate::h264::NalCallView>,
    call: crate::h264::NalCallView,
)
    ensures
        crate::h264::calls_resolution(Seq::empty()) is None,
        crate::h264::calls_resolution(calls.push(call)) == if is_whole_unit(call, 7) {
            crate::h264::sps_dimensions(call.unit)
        } else {
            crate::h264::calls_resolution(calls)
        },
{
    assert(calls.push(call).drop_last() =~= calls);
}

} // verus!
