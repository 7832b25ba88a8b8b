//! Reassembly of one video frame from its RTP packets.

use crate::h264::{depacketize, is_depacketizable, is_partition_head, new_depacketizer};
use crate::packet::RtpPacket;
use vstd::prelude::*;

verus! {

use crate::h264::{
    bytes_of, depacketizable, h264_depacketized, h264_gathered, h264_length_prefixed, starts_unit,
};
use crate::packet::{sequence_offset, PacketView};

/// An access unit may not grow beyond this many bytes.
pub const MAX_H264_ACCESS_UNIT_BYTES: usize = 2_097_152;

/// The packets that have arrived of one frame.
#[derive(Debug, Clone)]
pub struct PendingVideoFrame {
    timestamp: u32,
    first_packet_at_ns: u64,
    packets: Vec<RtpPacket>,
}

/// What has arrived of one frame, in order of arrival.
#[verifier::ext_equal]
pub ghost struct PendingView {
    pub timestamp: u32,
    pub first_packet_at_ns: u64,
    pub packets: Seq<PacketView>,
}

/// The outcome of an attempt to assemble a frame.
#[derive(Debug, Clone)]
pub enum FrameAssembly {
    /// More packets are needed.
    Pending,
    /// The frame's access unit in Annex B form.
    Complete { data: Vec<u8>, marker_sequence: u16 },
    /// The packets are all there and do not make an access unit.
    Invalid,
}

/// What an attempt to assemble a frame yields.
pub ghost enum AssemblyView {
    Pending,
    Complete { data: Seq<u8>, marker_sequence: u16 },
    Invalid,
}

impl View for PendingVideoFrame {
    type V = PendingView;

    closed spec fn view(&self) -> PendingView {
        PendingView {
            timestamp: self.timestamp,
            first_packet_at_ns: self.first_packet_at_ns,
            packets: Seq::new(self.packets@.len(), |i: int| self.packets@[i]@),
        }
    }
}

impl View for FrameAssembly {
    type V = AssemblyView;

    open spec fn view(&self) -> AssemblyView {
        match *self {
            FrameAssembly::Pending => AssemblyView::Pending,
            FrameAssembly::Complete { data, marker_sequence } => AssemblyView::Complete {
                data: data@,
                marker_sequence,
            },
            FrameAssembly::Invalid => AssemblyView::Invalid,
        }
    }
}

/// Whether a packet with this sequence number has arrived.
pub open spec fn holds_sequence(packets: Seq<PacketView>, sequence: u16) -> bool {
    exists|i: int| 0 <= i < packets.len() && (#[trigger] packets[i]).sequence_number == sequence
}

/// Whether no sequence number occurs twice.
pub open spec fn distinct_sequences(packets: Seq<PacketView>) -> bool {
    forall|i: int, j: int|
        0 <= i < j < packets.len() ==> (#[trigger] packets[i]).sequence_number != (
        #[trigger] packets[j]).sequence_number
}

/// The payload of the packet with this sequence number.
pub open spec fn payload_of(packets: Seq<PacketView>, sequence: u16) -> Seq<u8> {
    packets[choose|i: int|
        0 <= i < packets.len() && (#[trigger] packets[i]).sequence_number == sequence].payload
}

/// The sequence number of the first arrived packet with its marker bit set.
pub open spec fn first_marker(packets: Seq<PacketView>) -> Option<u16>
    decreases packets.len(),
{
    if packets.len() == 0 {
        None
    } else if packets[0].marker {
        Some(packets[0].sequence_number)
    } else {
        first_marker(packets.drop_first())
    }
}

/// The `k`-th of the `n` consecutive sequence numbers that end at the marker's.
pub open spec fn frame_sequence(marker: u16, n: int, k: int) -> u16 {
    sequence_offset(marker, k + 1 - n)
}

/// Whether the arrived packets are a run of consecutive sequence numbers that ends at the
/// marker's.
pub open spec fn consecutive_to(packets: Seq<PacketView>, marker: u16) -> bool {
    forall|k: int|
        0 <= k < packets.len() ==> holds_sequence(
            packets,
            #[trigger] frame_sequence(marker, packets.len() as int, k),
        )
}

/// The payloads in the order of their sequence numbers, the marker's last.
pub open spec fn ordered_payloads(packets: Seq<PacketView>, marker: u16) -> Seq<Seq<u8>> {
    Seq::new(
        packets.len(),
        |k: int| payload_of(packets, frame_sequence(marker, packets.len() as int, k)),
    )
}

/// The bytes that the depacketizer makes of a run of payloads, appended to `data`: `None` as
/// soon as one cannot be read or is rejected, or the size limit is passed.
pub open spec fn gather(gathered: Seq<u8>, payloads: Seq<Seq<u8>>, data: Seq<u8>) -> Option<
    Seq<u8>,
>
    decreases payloads.len(),
{
    if payloads.len() == 0 {
        Some(data)
    } else if !depacketizable(payloads[0]) {
        None
    } else {
        let (unit, held) = h264_depacketized(gathered, payloads[0]);
        match unit {
            None => None,
            Some(unit) => if data.len() + unit.len() > MAX_H264_ACCESS_UNIT_BYTES {
                None
            } else {
                gather(held, payloads.drop_first(), data + unit)
            },
        }
    }
}

/// Whether the arrived packets are a whole frame: a marker has come, every sequence number of
/// the run that ends at it is there, the run starts where the stream goes on (where that is
/// known) and with the start of a unit.
pub open spec fn whole_frame(
    packets: Seq<PacketView>,
    marker: Option<u16>,
    expected_sequence: Option<u16>,
) -> bool {
    match marker {
        None => false,
        Some(marker) => {
            let first = frame_sequence(marker, packets.len() as int, 0);
            &&& consecutive_to(packets, marker)
            &&& expected_sequence matches Some(expected) ==> first == expected
            &&& starts_unit(payload_of(packets, first))
        },
    }
}

/// What an attempt to assemble a frame from `packets` yields.
pub open spec fn assembled(
    packets: Seq<PacketView>,
    expected_sequence: Option<u16>,
) -> AssemblyView {
    match first_marker(packets) {
        Some(marker) if whole_frame(packets, Some(marker), expected_sequence) => {
            match gather(Seq::empty(), ordered_payloads(packets, marker), Seq::empty()) {
                Some(data) => AssemblyView::Complete { data, marker_sequence: marker },
                None => AssemblyView::Invalid,
            }
        },
        _ => AssemblyView::Pending,
    }
}

/// The packets after one more has come: a repeated sequence number changes nothing.
pub open spec fn with_packet(packets: Seq<PacketView>, packet: PacketView) -> Seq<PacketView> {
    if holds_sequence(packets, packet.sequence_number) {
        packets
    } else {
        packets.push(packet)
    }
}

proof fn lemma_payload_of(packets: Seq<PacketView>, i: int)
    requires
        0 <= i < packets.len(),
        distinct_sequences(packets),
    ensures
        payload_of(packets, packets[i].sequence_number) == packets[i].payload,
{
    let j = choose|j: int|
        0 <= j < packets.len() && (#[trigger] packets[j]).sequence_number
            == packets[i].sequence_number;
    assert(packets[i].sequence_number == packets[i].sequence_number);
    assert(0 <= j < packets.len() && packets[j].sequence_number == packets[i].sequence_number);
    if i != j {
        if i < j {
            assert(packets[i].sequence_number != packets[j].sequence_number);
        } else {
            assert(packets[j].sequence_number != packets[i].sequence_number);
        }
    }
}

/// Appends a depacketized unit to an access unit; `false` when that passes the size limit.
pub fn append_unit(data: &mut Vec<u8>, unit: &[u8]) -> (fits: bool)
    ensures
        final(data)@ == old(data)@ + unit@,
        fits == (old(data)@.len() + unit@.len() <= MAX_H264_ACCESS_UNIT_BYTES),
{
    data.extend_from_slice(unit);
    assert(data@ =~= old(data)@ + unit@);
    data.len() <= MAX_H264_ACCESS_UNIT_BYTES
}

impl PendingVideoFrame {
    /// Whether no sequence number is held twice.
    pub open spec fn wf(self) -> bool {
        distinct_sequences(self@.packets)
    }

    /// A frame of which one packet has come.
    pub fn new(packet: RtpPacket, now_ns: u64) -> (frame: Self)
        ensures
            frame.wf(),
            frame@ == (PendingView {
                timestamp: packet.timestamp,
                first_packet_at_ns: now_ns,
                packets: seq![packet@],
            }),
    {
        let timestamp: u32 = packet.timestamp;
        let mut packets: Vec<RtpPacket> = Vec::new();
        packets.push(packet);
        let frame = PendingVideoFrame { timestamp, first_packet_at_ns: now_ns, packets };
        assert(frame@.packets =~= seq![packet@]);
        frame
    }

    /// The RTP timestamp that the frame's packets share.
    pub fn timestamp(&self) -> (timestamp: u32)
        ensures
            timestamp == self@.timestamp,
    {
        self.timestamp
    }

    /// When the first packet came.
    pub fn first_packet_at_ns(&self) -> (at: u64)
        ensures
            at == self@.first_packet_at_ns,
    {
        self.first_packet_at_ns
    }

    /// Takes in a packet unless one with its sequence number is held already.
    pub fn insert(&mut self, packet: RtpPacket)
        requires
            old(self).wf(),
        ensures
            final(self).wf(),
            final(self)@ == (PendingView {
                packets: with_packet(old(self)@.packets, packet@),
                ..old(self)@
            }),
    {
        let mut i: usize = 0;
        while i < self.packets.len()
            invariant
                i <= self.packets@.len(),
                *self == *old(self),
                old(self).wf(),
                forall|k: int|
                    0 <= k < i ==> (#[trigger] self@.packets[k]).sequence_number
                        != packet.sequence_number,
            decreases self.packets@.len() - i,
        {
            assert(self@.packets[i as int] == self.packets@[i as int]@);
            if self.packets[i].sequence_number == packet.sequence_number {
                assert(holds_sequence(self@.packets, packet@.sequence_number));
                return;
            }
            i = i + 1;
        }
        self.packets.push(packet);
        assert(self@.packets =~= old(self)@.packets.push(packet@));
    }

    /// The sequence number of the first arrived packet with its marker bit set.
    pub fn marker_sequence(&self) -> (marker: Option<u16>)
        ensures
            marker == first_marker(self@.packets),
    {
        let mut i: usize = 0;
        let ghost all = self@.packets;
        assert(all.skip(0) =~= all);
        while i < self.packets.len()
            invariant
                i <= self.packets@.len(),
                all == self@.packets,
                first_marker(all) == first_marker(all.skip(i as int)),
            decreases self.packets@.len() - i,
        {
            assert(all.skip(i as int)[0] == self.packets@[i as int]@);
            if self.packets[i].marker {
                return Some(self.packets[i].sequence_number);
            }
            assert(all.skip(i as int).drop_first() =~= all.skip(i + 1));
            i = i + 1;
        }
        None
    }

    /// Where the packet with this sequence number is held.
    fn position(&self, sequence: u16) -> (at: Option<usize>)
        ensures
            at is Some <==> holds_sequence(self@.packets, sequence),
            at matches Some(at) ==> at < self.packets@.len()
                && self.packets@[at as int].sequence_number == sequence,
    {
        let mut i: usize = 0;
        while i < self.packets.len()
            invariant
                i <= self.packets@.len(),
                forall|k: int|
                    0 <= k < i ==> (#[trigger] self@.packets[k]).sequence_number != sequence,
            decreases self.packets@.len() - i,
        {
            assert(self@.packets[i as int] == self.packets@[i as int]@);
            if self.packets[i].sequence_number == sequence {
                return Some(i);
            }
            i = i + 1;
        }
        None
    }

    /// Where the run's packets are held, in the order of their sequence numbers; `None` while
    /// one is missing.
    fn run_positions(&self, marker: u16) -> (run: Option<Vec<usize>>)
        ensures
            run is Some <==> consecutive_to(self@.packets, marker),
            run matches Some(run) ==> {
                &&& run@.len() == self.packets@.len()
                &&& forall|k: int|
                    #![trigger run@[k]]
                    0 <= k < run@.len() ==> run@[k] < self.packets@.len()
                        && self.packets@[run@[k] as int].sequence_number == frame_sequence(
                        marker,
                        run@.len() as int,
                        k,
                    )
            },
    {
        let n: usize = self.packets.len();
        let mut run: Vec<usize> = Vec::new();
        let mut k: usize = 0;
        while k < n
            invariant
                k <= n,
                n == self.packets@.len(),
                run@.len() == k,
                forall|j: int|
                    #![trigger run@[j]]
                    0 <= j < k ==> run@[j] < n && self.packets@[run@[j] as int].sequence_number
                        == frame_sequence(marker, n as int, j),
                forall|j: int|
                    0 <= j < k ==> holds_sequence(
                        self@.packets,
                        #[trigger] frame_sequence(marker, n as int, j),
                    ),
            decreases n - k,
        {
            let back: usize = n - 1 - k;
            let sequence: u16 = marker.wrapping_sub(#[verifier::truncate] (back as u16));
            proof {
                assert(back as u16 == back % 0x1_0000) by (bit_vector);
                assert(sequence == frame_sequence(marker, n as int, k as int));
            }
            match self.position(sequence) {
                Some(at) => {
                    run.push(at);
                },
                None => {
                    assert(self@.packets.len() == n);
                    assert(!holds_sequence(
                        self@.packets,
                        frame_sequence(marker, n as int, k as int),
                    ));
                    return None;
                },
            }
            k = k + 1;
        }
        Some(run)
    }

    /// Tries to assemble the frame. `expected_sequence` is the sequence number at which the
    /// stream goes on, where it is known.
    pub fn assemble(&self, expected_sequence: Option<u16>) -> (assembly: FrameAssembly)
        requires
            self.wf(),
        ensures
            assembly@ == assembled(self@.packets, expected_sequence),
    {
        let ghost packets = self@.packets;
        let marker: u16 = match self.marker_sequence() {
            Some(marker) => marker,
            None => {
                return FrameAssembly::Pending;
            },
        };
        let run = match self.run_positions(marker) {
            Some(run) => run,
            None => {
                return FrameAssembly::Pending;
            },
        };
        let ghost payloads = ordered_payloads(packets, marker);
        proof {
            self.lemma_run_payloads(marker, run@);
        }
        if run.len() == 0 {
            return FrameAssembly::Pending;
        }
        let first = &self.packets[run[0]];
        assert(packets[run@[0] as int] == first@);
        if let Some(expected) = expected_sequence {
            if first.sequence_number != expected {
                return FrameAssembly::Pending;
            }
        }
        assert(payloads[0] == payload_of(packets, frame_sequence(marker, packets.len() as int, 0)));
        if !is_partition_head(first.payload.as_slice()) {
            return FrameAssembly::Pending;
        }
        let mut depacketizer = new_depacketizer();
        let mut data: Vec<u8> = Vec::new();
        let mut k: usize = 0;
        assert(payloads.skip(0) =~= payloads);
        assert(data@ =~= Seq::<u8>::empty());
        while k < run.len()
            invariant
                k <= run@.len(),
                self.wf(),
                packets == self@.packets,
                payloads == ordered_payloads(packets, marker),
                payloads.len() == run@.len(),
                run@.len() == self.packets@.len(),
                first_marker(packets) == Some(marker),
                whole_frame(packets, Some(marker), expected_sequence),
                forall|j: int|
                    #![trigger run@[j]]
                    0 <= j < run@.len() ==> run@[j] < self.packets@.len()
                        && self.packets@[run@[j] as int].payload@ == payloads[j],
                !h264_length_prefixed(depacketizer),
                gather(Seq::empty(), payloads, Seq::empty()) == gather(
                    h264_gathered(depacketizer),
                    payloads.skip(k as int),
                    data@,
                ),
            decreases run@.len() - k,
        {
            let payload = self.packets[run[k]].payload.as_slice();
            assert(payloads.skip(k as int)[0] == payload@);
            if !is_depacketizable(payload) {
                return FrameAssembly::Invalid;
            }
            match depacketize(&mut depacketizer, payload) {
                Some(unit) => {
                    if !append_unit(&mut data, unit.as_slice()) {
                        return FrameAssembly::Invalid;
                    }
                },
                None => {
                    return FrameAssembly::Invalid;
                },
            }
            assert(payloads.skip(k as int).drop_first() =~= payloads.skip(k + 1));
            k = k + 1;
        }
        assert(payloads.skip(k as int).len() == 0);
        FrameAssembly::Complete { data, marker_sequence: marker }
    }

    proof fn lemma_run_payloads(&self, marker: u16, run: Seq<usize>)
        requires
            self.wf(),
            run.len() == self.packets@.len(),
            forall|k: int|
                #![trigger run[k]]
                0 <= k < run.len() ==> run[k] < self.packets@.len()
                    && self.packets@[run[k] as int].sequence_number == frame_sequence(
                    marker,
                    run.len() as int,
                    k,
                ),
        ensures
            forall|k: int|
                #![trigger run[k]]
                0 <= k < run.len() ==> run[k] < self.packets@.len()
                    && self.packets@[run[k] as int].payload@ == ordered_payloads(
                    self@.packets,
                    marker,
                )[k],
    {
        assert forall|k: int| #![trigger run[k]] 0 <= k < run.len() implies run[k]
            < self.packets@.len() && self.packets@[run[k] as int].payload@ == ordered_payloads(
            self@.packets,
            marker,
        )[k] by {
            assert(self@.packets[run[k] as int] == self.packets@[run[k] as int]@);
            lemma_payload_of(self@.packets, run[k] as int);
        }
    }
}

/// Whether two gatherings hold the same packets, whatever the order they came in.
pub open spec fn same_packets(a: Seq<PacketView>, b: Seq<PacketView>) -> bool {
    a.to_multiset() == b.to_multiset()
}

/// Whether at most one packet has its marker bit set.
pub open spec fn one_marker(packets: Seq<PacketView>) -> bool {
    forall|i: int, j: int|
        0 <= i < packets.len() && 0 <= j < packets.len() && (#[trigger] packets[i]).marker && (
        #[trigger] packets[j]).marker ==> packets[i].sequence_number == packets[j].sequence_number
}

proof fn lemma_held_elsewhere(a: Seq<PacketView>, b: Seq<PacketView>, i: int) -> (j: int)
    requires
        same_packets(a, b),
        0 <= i < a.len(),
    ensures
        0 <= j < b.len(),
        b[j] == a[i],
{
    broadcast use vstd::seq_lib::group_to_multiset_ensures;

    assert(a.contains(a[i]));
    assert(a.to_multiset().count(a[i]) > 0);
    assert(b.contains(a[i]));
    choose|j: int| 0 <= j < b.len() && b[j] == a[i]
}

proof fn lemma_first_marker(packets: Seq<PacketView>)
    ensures
        match first_marker(packets) {
            Some(marker) => exists|i: int|
                0 <= i < packets.len() && (#[trigger] packets[i]).marker
                    && packets[i].sequence_number == marker,
            None => forall|i: int| 0 <= i < packets.len() ==> !(#[trigger] packets[i]).marker,
        },
    decreases packets.len(),
{
    if packets.len() > 0 {
        if packets[0].marker {
            assert(packets[0].marker && packets[0].sequence_number == packets[0].sequence_number);
        } else {
            let rest = packets.drop_first();
            lemma_first_marker(rest);
            match first_marker(rest) {
                Some(marker) => {
                    let i = choose|i: int|
                        0 <= i < rest.len() && (#[trigger] rest[i]).marker
                            && rest[i].sequence_number == marker;
                    assert(packets[i + 1] == rest[i]);
                },
                None => {
                    assert forall|i: int| 0 <= i < packets.len() implies !(
                    #[trigger] packets[i]).marker by {
                        if i > 0 {
                            assert(!rest[i - 1].marker);
                        }
                    }
                },
            }
        }
    }
}

proof fn lemma_same_marker(a: Seq<PacketView>, b: Seq<PacketView>)
    requires
        same_packets(a, b),
        one_marker(a),
    ensures
        first_marker(a) == first_marker(b),
{
    lemma_first_marker(a);
    lemma_first_marker(b);
    match first_marker(b) {
        Some(marker) => {
            let j = choose|j: int|
                0 <= j < b.len() && (#[trigger] b[j]).marker && b[j].sequence_number == marker;
            let i = lemma_held_elsewhere(b, a, j);
            assert(a[i].marker);
            let first = choose|i: int|
                0 <= i < a.len() && (#[trigger] a[i]).marker && a[i].sequence_number
                    == first_marker(a)->0;
            assert(a[first].sequence_number == a[i].sequence_number);
        },
        None => {
            if first_marker(a) is Some {
                let i = choose|i: int|
                    0 <= i < a.len() && (#[trigger] a[i]).marker && a[i].sequence_number
                        == first_marker(a)->0;
                let j = lemma_held_elsewhere(a, b, i);
                assert(b[j].marker);
            }
        },
    }
}

proof fn lemma_same_payload(a: Seq<PacketView>, b: Seq<PacketView>, sequence: u16)
    requires
        same_packets(a, b),
        distinct_sequences(a),
        distinct_sequences(b),
    ensures
        holds_sequence(a, sequence) == holds_sequence(b, sequence),
        holds_sequence(a, sequence) ==> payload_of(a, sequence) == payload_of(b, sequence),
{
    if holds_sequence(a, sequence) {
        let i = choose|i: int|
            0 <= i < a.len() && (#[trigger] a[i]).sequence_number == sequence;
        let j = lemma_held_elsewhere(a, b, i);
        assert(b[j].sequence_number == sequence);
        lemma_payload_of(a, i);
        lemma_payload_of(b, j);
    }
    if holds_sequence(b, sequence) {
        let j = choose|j: int|
            0 <= j < b.len() && (#[trigger] b[j]).sequence_number == sequence;
        let i = lemma_held_elsewhere(b, a, j);
        assert(a[i].sequence_number == sequence);
    }
}

/// What a frame assembles to does not depend on the order its packets came in, as long as no
/// sequence number is held twice and at most one packet is marked as the last.
pub proof fn assembly_ignores_arrival_order(
    a: Seq<PacketView>,
    b: Seq<PacketView>,
    expected_sequence: Option<u16>,
)
    requires
        same_packets(a, b),
        distinct_sequences(a),
        distinct_sequences(b),
        one_marker(a),
    ensures
        assembled(a, expected_sequence) == assembled(b, expected_sequence),
{
    broadcast use vstd::seq_lib::group_to_multiset_ensures;

    lemma_same_marker(a, b);
    assert(a.to_multiset().len() == a.len() && b.to_multiset().len() == b.len());
    if let Some(marker) = first_marker(a) {
        let n = a.len() as int;
        assert forall|k: int| 0 <= k < n implies holds_sequence(
            a,
            #[trigger] frame_sequence(marker, n, k),
        ) == holds_sequence(b, frame_sequence(marker, n, k)) by {
            lemma_same_payload(a, b, frame_sequence(marker, n, k));
        }
        assert(consecutive_to(a, marker) == consecutive_to(b, marker));
        if consecutive_to(a, marker) {
            assert forall|k: int| 0 <= k < n implies ordered_payloads(a, marker)[k]
                == ordered_payloads(b, marker)[k] by {
                lemma_same_payload(a, b, frame_sequence(marker, n, k));
            }
            assert(ordered_payloads(a, marker) =~= ordered_payloads(b, marker));
            if n > 0 {
                lemma_same_payload(a, b, frame_sequence(marker, n, 0));
            } else {
                lemma_first_marker(a);
            }
        }
    }
}

/// A packet that comes a second time changes nothing.
pub proof fn repeated_packets_change_nothing(packets: Seq<PacketView>, packet: PacketView)
    ensures
        with_packet(with_packet(packets, packet), packet) == with_packet(packets, packet),
{
    if !holds_sequence(packets, packet.sequence_number) {
        let after = packets.push(packet);
        assert(after[packets.len() as int].sequence_number == packet.sequence_number);
    }
}

/// Without a packet that is marked as the last, no frame is assembled.
pub proof fn nothing_is_assembled_without_a_marker(
    packets: Seq<PacketView>,
    expected_sequence: Option<u16>,
)
    requires
        forall|i: int| 0 <= i < packets.len() ==> !(#[trigger] packets[i]).marker,
    ensures
        assembled(packets, expected_sequence) == AssemblyView::Pending,
{
    lemma_first_marker(packets);
}

// Whole frames.

/// Whether some packets are a frame without a gap, in the order they were sent: each has the
/// sequence number after the one before it, round the circle of 16 bits, and the last one and no
/// other has its marker bit set.
pub open spec fn gapless_run(run: Seq<PacketView>) -> bool {
    &&& 0 < run.len() <= 0x1_0000
    &&& forall|i: int|
        0 <= i < run.len() ==> (#[trigger] run[i]).sequence_number == (run[0].sequence_number + i)
            % 0x1_0000
    &&& forall|i: int| 0 <= i < run.len() - 1 ==> !(#[trigger] run[i]).marker
    &&& run.last().marker
}

pub(crate) proof fn lemma_run_is_distinct(run: Seq<PacketView>)
    requires
        run.len() <= 0x1_0000,
        forall|i: int|
            0 <= i < run.len() ==> (#[trigger] run[i]).sequence_number == (run[0].sequence_number
                + i) % 0x1_0000,
    ensures
        distinct_sequences(run),
{
    assert forall|i: int, j: int| 0 <= i < j < run.len() implies (
    #[trigger] run[i]).sequence_number != (#[trigger] run[j]).sequence_number by {
        let first = run[0].sequence_number as int;
        assert((first + i) % 0x1_0000 != (first + j) % 0x1_0000);
    }
}

pub(crate) proof fn lemma_marker_at(packets: Seq<PacketView>, i: int)
    requires
        0 <= i < packets.len(),
        packets[i].marker,
        forall|j: int| 0 <= j < i ==> !(#[trigger] packets[j]).marker,
    ensures
        first_marker(packets) == Some(packets[i].sequence_number),
    decreases packets.len(),
{
    if i > 0 {
        let rest = packets.drop_first();
        assert(!packets[0].marker);
        assert forall|j: int| 0 <= j < i - 1 implies !(#[trigger] rest[j]).marker by {
            assert(rest[j] == packets[j + 1]);
        }
        lemma_marker_at(rest, i - 1);
    }
}

pub(crate) proof fn lemma_no_marker(packets: Seq<PacketView>)
    requires
        forall|i: int| 0 <= i < packets.len() ==> !(#[trigger] packets[i]).marker,
    ensures
        first_marker(packets) is None,
{
    lemma_first_marker(packets);
}

/// A frame without a gap that starts with a unit is never left waiting, as long as the stream is
/// not known to go on elsewhere: it becomes the access unit that its payloads make in their
/// order, or turns out to be none.
pub proof fn a_gapless_run_is_assembled(run: Seq<PacketView>, expected_sequence: Option<u16>)
    requires
        gapless_run(run),
        starts_unit(run[0].payload),
        expected_sequence is None || expected_sequence == Some(run[0].sequence_number),
    ensures
        assembled(run, expected_sequence) == match gather(
            Seq::empty(),
            Seq::new(run.len(), |i: int| run[i].payload),
            Seq::empty(),
        ) {
            Some(data) => AssemblyView::Complete {
                data,
                marker_sequence: run.last().sequence_number,
            },
            None => AssemblyView::Invalid,
        },
{
    let n = run.len() as int;
    let marker = run.last().sequence_number;
    lemma_run_is_distinct(run);
    lemma_marker_at(run, n - 1);
    assert forall|k: int| 0 <= k < n implies frame_sequence(marker, n, k)
        == run[k].sequence_number by {
        assert(run[n - 1].sequence_number == (run[0].sequence_number + (n - 1)) % 0x1_0000);
        assert(run[k].sequence_number == (run[0].sequence_number + k) % 0x1_0000);
    }
    assert forall|k: int| 0 <= k < n implies holds_sequence(
        run,
        #[trigger] frame_sequence(marker, n, k),
    ) by {
        assert(run[k].sequence_number == frame_sequence(marker, n, k));
    }
    assert forall|k: int| 0 <= k < n implies ordered_payloads(run, marker)[k] == run[k].payload by {
        assert(frame_sequence(marker, n, k) == run[k].sequence_number);
        lemma_payload_of(run, k);
    }
    assert(ordered_payloads(run, marker) =~= Seq::new(run.len(), |i: int| run[i].payload));
    assert(frame_sequence(marker, n, 0) == run[0].sequence_number);
    lemma_payload_of(run, 0);
}

/// Nothing is made of the packets of a frame before all of them are there: one has its marker bit
/// set, as many as have come up to it have come without a gap, the first of them starts a unit,
/// and it has the number that the stream goes on with, where that is known.
pub proof fn a_frame_is_made_of_a_gapless_run(
    packets: Seq<PacketView>,
    expected_sequence: Option<u16>,
)
    requires
        assembled(packets, expected_sequence) != AssemblyView::Pending,
    ensures
        exists|last: int|
            {
                let n = packets.len();
                let end = (#[trigger] packets[last]).sequence_number;
                &&& 0 <= last < n
                &&& packets[last].marker
                &&& assembled(packets, expected_sequence) matches AssemblyView::Complete {
                    marker_sequence,
                    ..
                } ==> marker_sequence == end
                &&& forall|k: int|
                    0 <= k < n ==> #[trigger] holds_sequence(
                        packets,
                        ((end - k) % 0x1_0000) as u16,
                    )
                &&& expected_sequence matches Some(expected) ==> expected == (end + 1 - n) % 0x1_0000
                &&& exists|first: int|
                    0 <= first < n && (#[trigger] packets[first]).sequence_number == (end + 1 - n)
                        % 0x1_0000 && starts_unit(packets[first].payload)
            },
{
    lemma_first_marker(packets);
    let n = packets.len() as int;
    let end = first_marker(packets)->0;
    let last = choose|i: int|
        0 <= i < packets.len() && (#[trigger] packets[i]).marker && packets[i].sequence_number
            == end;
    assert forall|k: int| 0 <= k < n implies #[trigger] holds_sequence(
        packets,
        ((end - k) % 0x1_0000) as u16,
    ) by {
        assert(frame_sequence(end, n, n - 1 - k) == ((end - k) % 0x1_0000) as u16);
    }
    let start = frame_sequence(end, n, 0);
    assert(holds_sequence(packets, start));
    let first = choose|i: int|
        0 <= i < packets.len() && (#[trigger] packets[i]).sequence_number == start;
    assert(payload_of(packets, start) == packets[first].payload);
    assert(packets[last].sequence_number == end);
}

/// An access unit is what the payloads make one after the other, each read with what the one
/// before it left unfinished, and is not larger than two mebibytes; none is made where a payload
/// cannot be read, or makes it larger.
pub proof fn payloads_are_read_one_after_the_other(
    gathered: Seq<u8>,
    payload: Seq<u8>,
    rest: Seq<Seq<u8>>,
    data: Seq<u8>,
)
    ensures
        gather(gathered, Seq::empty(), data) == Some(data),
        gather(gathered, seq![payload] + rest, data) == {
            let (unit, held) = h264_depacketized(gathered, payload);
            if depacketizable(payload) && unit is Some && data.len() + unit->0.len() <= 0x20_0000 {
                gather(held, rest, data + unit->0)
            } else {
                None
            }
        },
{
    let payloads = seq![payload] + rest;
    assert(payloads[0] == payload);
    assert(payloads.drop_first() =~= rest);
}

/// A packet that is new to a frame is put behind the others, and no other changes.
pub proof fn a_new_packet_comes_last(packets: Seq<PacketView>, packet: PacketView)
    ensures
        (forall|i: int|
            0 <= i < packets.len() ==> (#[trigger] packets[i]).sequence_number
                != packet.sequence_number) ==> with_packet(packets, packet) == packets.push(packet),
        (exists|i: int|
            0 <= i < packets.len() && (#[trigger] packets[i]).sequence_number
                == packet.sequence_number) ==> with_packet(packets, packet) == packets,
{
}

} // verus!
