//! The audio receiver: from RTP packets to Opus packets in order.

use crate::packet::RtpPacket;
use bytes::Bytes;
use rtc::rtp::codec::opus::OpusPacket;
use rtc::rtp::{Header, Packet};
use rtc_media::io::sample_builder::SampleBuilder;
use std::time::Duration;
use vstd::prelude::*;

verus! {

use crate::packet::PacketView;

/// How many Opus packets may wait to be played.
pub const MAX_PENDING_AUDIO_PACKETS: usize = 32;

/// How many packets a late one is waited for.
pub const AUDIO_MAX_LATE_PACKETS: u16 = 32;

/// How long a late packet is waited for.
pub const AUDIO_MAX_DELAY_MS: u64 = 80;

/// Puts the packets of an Opus stream in order: a `SampleBuilder<OpusPacket>` of `rtc-media`.
#[verifier::external_body]
pub struct OpusSamples {
    inner: SampleBuilder<OpusPacket>,
}

/// A call of a sample builder.
pub ghost enum OpusCall {
    /// It was made for a clock rate, with the limits on lateness.
    Made { max_late_packets: u16, sample_rate: u32, max_delay_ms: u64 },
    /// A packet was pushed.
    Pushed { packet: PacketView },
    /// A sample was asked for.
    Popped,
}

/// The calls that were made of a sample builder, from its making on.
pub uninterp spec fn opus_calls(samples: OpusSamples) -> Seq<OpusCall>;

/// The sample that `SampleBuilder::pop` gives after the calls before it.
pub uninterp spec fn opus_sample(calls: Seq<OpusCall>) -> Option<Seq<u8>>;

/// How many numbers a sample builder may have passed since its last sample, besides those it
/// holds, for its 16-bit count of places given up to be sure not to overflow.
pub const MAX_SPREAD: u32 = 65_504;

/// The furthest number that was pushed.
#[derive(Debug, Clone, Copy, PartialEq, Eq, Structural)]
pub enum Newest {
    Nothing,
    At { sequence: u16 },
    /// A packet came from so near the far side of the circle of numbers that it is not clear
    /// whether the builder took it to be ahead or behind.
    Unclear,
}

/// How far the numbers of the pushed packets have spread.
#[derive(Debug, Clone, Copy, PartialEq, Eq, Structural)]
pub struct Spread {
    pub newest: Newest,
    /// The numbers passed, one way or the other, since the last sample was built, or more.
    pub places: u32,
    /// The numbers passed since the builder last had no sample ready.
    pub since_empty: u32,
    /// Whether a packet without a payload was pushed.
    pub silent: bool,
}

/// The spread before anything was pushed.
pub open spec fn no_spread() -> Spread {
    Spread { newest: Newest::Nothing, places: 0, since_empty: 0, silent: false }
}

/// A number of places, cut off where it is too large for any use.
pub open spec fn capped_places(places: int) -> u32 {
    if places > MAX_SPREAD {
        (MAX_SPREAD + 1) as u32
    } else {
        places as u32
    }
}

/// How many numbers one lies ahead of another, round the circle.
pub open spec fn numbers_ahead(sequence: u16, newest: u16) -> int {
    if sequence >= newest {
        sequence - newest
    } else {
        sequence - newest + 0x1_0000
    }
}

/// How many numbers are passed on the way to a packet's, at most.
pub open spec fn step(newest: Newest, sequence: u16) -> int {
    match newest {
        Newest::Nothing => 0,
        Newest::Unclear => MAX_SPREAD + 1,
        Newest::At { sequence: newest } => {
            let ahead = numbers_ahead(sequence, newest);
            if ahead <= 32_752 {
                ahead
            } else if ahead <= 32_768 {
                MAX_SPREAD + 1
            } else {
                0x1_0000 - ahead
            }
        },
    }
}

/// The furthest number after a push.
pub open spec fn newest_after(newest: Newest, sequence: u16) -> Newest {
    match newest {
        Newest::Nothing => Newest::At { sequence },
        Newest::Unclear => Newest::Unclear,
        Newest::At { sequence: newest } => {
            let ahead = numbers_ahead(sequence, newest);
            if ahead <= 32_752 {
                Newest::At { sequence }
            } else if ahead <= 32_768 {
                Newest::Unclear
            } else {
                Newest::At { sequence: newest }
            }
        },
    }
}

/// The spread after a push.
pub open spec fn spread_pushed(spread: Spread, packet: PacketView) -> Spread {
    let step = step(spread.newest, packet.sequence_number);
    Spread {
        newest: newest_after(spread.newest, packet.sequence_number),
        places: capped_places(spread.places + step),
        since_empty: capped_places(spread.since_empty + step),
        silent: spread.silent || packet.payload.len() == 0,
    }
}

/// The spread after a sample was asked for. One that comes was built since none was ready.
pub open spec fn spread_popped(spread: Spread, sample: Option<Seq<u8>>) -> Spread {
    if sample is Some {
        Spread { places: spread.since_empty, ..spread }
    } else {
        Spread { since_empty: 0, ..spread }
    }
}

/// The spread after some calls of a sample builder.
pub open spec fn spread_of(calls: Seq<OpusCall>) -> Spread
    decreases calls.len(),
{
    if calls.len() == 0 {
        no_spread()
    } else {
        let before = calls.drop_last();
        match calls.last() {
            OpusCall::Made { .. } => no_spread(),
            OpusCall::Pushed { packet } => spread_pushed(spread_of(before), packet),
            OpusCall::Popped => spread_popped(spread_of(before), opus_sample(before)),
        }
    }
}

/// Whether a packet can be pushed: as long as every packet carries sound any can, and after that
/// those that do not spread the numbers too far.
pub open spec fn can_take(spread: Spread, packet: PacketView) -> bool {
    ||| !spread.silent && packet.payload.len() > 0
    ||| spread.places + step(spread.newest, packet.sequence_number) <= MAX_SPREAD
}

/// Whether a payload that is not empty was pushed.
pub open spec fn was_pushed(calls: Seq<OpusCall>, payload: Seq<u8>) -> bool {
    payload.len() > 0 && exists|i: int|
        0 <= i < calls.len() && (#[trigger] calls[i] matches OpusCall::Pushed { packet }
            && packet.payload == payload)
}

/// The bytes of a sample.
pub open spec fn sample_bytes(sample: Option<Vec<u8>>) -> Option<Seq<u8>> {
    match sample {
        Some(bytes) => Some(bytes@),
        None => None,
    }
}

/// `SampleBuilder::new` and `SampleBuilder::with_max_time_delay`: a builder that was only made.
/// A clock rate of zero is left out, since samples are timed by dividing by it, and so are
/// builders that wait for no packet, or for more than [`AUDIO_MAX_LATE_PACKETS`]: between calls
/// one holds the last place, and no more places than it waits for, which [`push_packet`] rests on.
#[verifier::external_body]
fn new_samples(max_late_packets: u16, sample_rate: u32, max_delay_ms: u64) -> (samples: OpusSamples)
    requires
        sample_rate > 0,
        1 <= max_late_packets <= AUDIO_MAX_LATE_PACKETS,
    ensures
        opus_calls(samples) == seq![
            OpusCall::Made { max_late_packets, sample_rate, max_delay_ms },
        ],
{
    OpusSamples {
        inner: SampleBuilder::new(max_late_packets, OpusPacket, sample_rate)
            .with_max_time_delay(Duration::from_millis(max_delay_ms)),
    }
}

/// `SampleBuilder::push`: takes a packet in. What the builder does with it shows in the samples
/// that it gives later. It counts the places it gave up since the last sample in a `u16`, and
/// adding past 65535 panics where overflow is checked. Left out is what could lead there. Between
/// calls the builder holds at most 32 places; a packet adds no more to them than the numbers
/// between its own and the furthest one; each place is given up once, and the last one stays. So
/// the count is at most 31 and the numbers passed since a sample was built. A packet that carries
/// sound makes a sample when its place is given up, unless one without any stands before it, so
/// where all do the count never gets near.
#[verifier::external_body]
fn push_packet(samples: &mut OpusSamples, packet: RtpPacket)
    requires
        can_take(spread_of(opus_calls(*old(samples))), packet@),
    ensures
        opus_calls(*final(samples)) == opus_calls(*old(samples)).push(
            OpusCall::Pushed { packet: packet@ },
        ),
{
    samples.inner.push(
        Packet {
            header: Header {
                marker: packet.marker,
                payload_type: packet.payload_type,
                sequence_number: packet.sequence_number,
                timestamp: packet.timestamp,
                ..Header::default()
            },
            payload: Bytes::from(packet.payload),
        },
    );
}

/// `SampleBuilder::pop`: the sample that [`opus_sample`] names after the calls so far. An Opus
/// sample is made of one packet, so its bytes are those of a payload that was pushed, and not
/// empty.
#[verifier::external_body]
fn pop_sample(samples: &mut OpusSamples) -> (sample: Option<Vec<u8>>)
    ensures
        opus_calls(*final(samples)) == opus_calls(*old(samples)).push(OpusCall::Popped),
        sample_bytes(sample) == opus_sample(opus_calls(*old(samples))),
        sample matches Some(bytes) ==> was_pushed(opus_calls(*old(samples)), bytes@),
{
    samples.inner.pop().map(|sample| sample.data.to_vec())
}

/// Receives the audio stream.
pub struct AudioRtp {
    samples: OpusSamples,
    spread: Spread,
    sample_rate: u32,
    payload_type: u8,
}

/// The state of the audio receiver.
pub ghost struct AudioView {
    /// The calls that were made of the sample builder.
    pub calls: Seq<OpusCall>,
    pub sample_rate: u32,
    pub payload_type: u8,
}

impl View for AudioRtp {
    type V = AudioView;

    closed spec fn view(&self) -> AudioView {
        AudioView {
            calls: opus_calls(self.samples),
            sample_rate: self.sample_rate,
            payload_type: self.payload_type,
        }
    }
}

/// The contents of a list of Opus packets.
pub open spec fn packets_view(packets: Seq<Vec<u8>>) -> Seq<Seq<u8>> {
    Seq::new(packets.len(), |i: int| packets[i]@)
}

/// Asks for samples until none comes or enough wait: the calls made, and the packets that wait.
pub open spec fn drained(calls: Seq<OpusCall>, waiting: Seq<Seq<u8>>) -> (
    Seq<OpusCall>,
    Seq<Seq<u8>>,
)
    decreases MAX_PENDING_AUDIO_PACKETS - waiting.len(),
{
    if waiting.len() >= MAX_PENDING_AUDIO_PACKETS {
        (calls, waiting)
    } else {
        match opus_sample(calls) {
            None => (calls.push(OpusCall::Popped), waiting),
            Some(sample) => drained(calls.push(OpusCall::Popped), waiting.push(sample)),
        }
    }
}

/// The calls of a sample builder that was only made.
pub open spec fn made(sample_rate: u32) -> Seq<OpusCall> {
    seq![
        OpusCall::Made {
            max_late_packets: AUDIO_MAX_LATE_PACKETS,
            sample_rate,
            max_delay_ms: AUDIO_MAX_DELAY_MS,
        },
    ]
}

/// What receiving a packet comes to: one of another payload type is ignored; else it is pushed
/// and the samples that are ready are taken. Where the builder cannot take it, one that carries
/// sound goes to a new builder, and one that does not is ignored.
pub open spec fn audio_received(
    state: AudioView,
    packet: PacketView,
    waiting: Seq<Seq<u8>>,
) -> (AudioView, Seq<Seq<u8>>) {
    let taken = can_take(spread_of(state.calls), packet);
    if packet.payload_type != state.payload_type || (!taken && packet.payload.len() == 0) {
        (state, waiting)
    } else {
        let before = if taken {
            state.calls
        } else {
            made(state.sample_rate)
        };
        let (calls, waiting) = drained(before.push(OpusCall::Pushed { packet }), waiting);
        (AudioView { calls, ..state }, waiting)
    }
}

/// Whether nothing but packets of the stream's payload type was ever pushed.
pub open spec fn took_its_own(state: AudioView) -> bool {
    forall|i: int|
        0 <= i < state.calls.len() ==> (#[trigger] state.calls[i] matches OpusCall::Pushed {
            packet,
        } ==> packet.payload_type == state.payload_type)
}

/// What a packet does to the spread: the numbers passed on the way to its own, and the furthest
/// number then.
fn take_step(newest: Newest, sequence: u16) -> (taken: (u32, Newest))
    ensures
        taken.0 == step(newest, sequence),
        taken.1 == newest_after(newest, sequence),
{
    match newest {
        Newest::Nothing => (0, Newest::At { sequence }),
        Newest::Unclear => (MAX_SPREAD + 1, Newest::Unclear),
        Newest::At { sequence: furthest } => {
            let ahead: u32 = if sequence >= furthest {
                (sequence - furthest) as u32
            } else {
                sequence as u32 + 0x1_0000 - furthest as u32
            };
            if ahead <= 32_752 {
                (ahead, Newest::At { sequence })
            } else if ahead <= 32_768 {
                (MAX_SPREAD + 1, Newest::Unclear)
            } else {
                (0x1_0000 - ahead, newest)
            }
        },
    }
}

fn cap_places(places: u32) -> (capped: u32)
    ensures
        capped == capped_places(places as int),
{
    if places > MAX_SPREAD {
        MAX_SPREAD + 1
    } else {
        places
    }
}

impl AudioRtp {
    /// What holds of the receiver at all times: nothing but packets of the stream's payload type
    /// was pushed, and it is known how far their numbers have spread.
    pub closed spec fn wf(self) -> bool {
        &&& took_its_own(self@)
        &&& self.spread == spread_of(self@.calls)
        &&& self.spread.places <= MAX_SPREAD + 1
        &&& self.spread.since_empty <= MAX_SPREAD + 1
        &&& self.sample_rate > 0
    }

    /// A receiver for a clock rate and a payload type.
    pub fn new(sample_rate: u32, payload_type: u8) -> (rtp: Self)
        requires
            sample_rate > 0,
        ensures
            rtp.wf(),
            rtp@ == (AudioView { calls: made(sample_rate), sample_rate, payload_type }),
    {
        AudioRtp {
            samples: new_samples(AUDIO_MAX_LATE_PACKETS, sample_rate, AUDIO_MAX_DELAY_MS),
            spread: Spread {
                newest: Newest::Nothing,
                places: 0,
                since_empty: 0,
                silent: false,
            },
            sample_rate,
            payload_type,
        }
    }

    /// Pushes a packet, unless it carries no sound and the builder cannot take it. Tells whether
    /// it did.
    fn push(&mut self, packet: RtpPacket) -> (pushed: bool)
        requires
            old(self).wf(),
            packet@.payload_type == old(self)@.payload_type,
        ensures
            final(self).wf(),
            ({
                let taken = can_take(spread_of(old(self)@.calls), packet@);
                let before = if taken {
                    old(self)@.calls
                } else {
                    made(old(self)@.sample_rate)
                };
                &&& pushed == (taken || packet@.payload.len() > 0)
                &&& final(self)@ == (AudioView {
                    calls: if pushed {
                        before.push(OpusCall::Pushed { packet: packet@ })
                    } else {
                        old(self)@.calls
                    },
                    ..old(self)@
                })
            }),
    {
        let sounds = packet.payload.len() > 0;
        let (step, _) = take_step(self.spread.newest, packet.sequence_number);
        let taken = (!self.spread.silent && sounds) || self.spread.places + step <= MAX_SPREAD;
        if !taken {
            if !sounds {
                return false;
            }
            self.samples = new_samples(
                AUDIO_MAX_LATE_PACKETS,
                self.sample_rate,
                AUDIO_MAX_DELAY_MS,
            );
            self.spread = Spread {
                newest: Newest::Nothing,
                places: 0,
                since_empty: 0,
                silent: false,
            };
        }
        let ghost before = self@.calls;
        let (step, newest) = take_step(self.spread.newest, packet.sequence_number);
        self.spread = Spread {
            newest,
            places: cap_places(self.spread.places + step),
            since_empty: cap_places(self.spread.since_empty + step),
            silent: self.spread.silent || !sounds,
        };
        let ghost call = OpusCall::Pushed { packet: packet@ };
        push_packet(&mut self.samples, packet);
        assert(before.push(call).drop_last() =~= before);
        true
    }

    /// Asks for a sample.
    fn pop(&mut self) -> (sample: Option<Vec<u8>>)
        requires
            old(self).wf(),
        ensures
            final(self).wf(),
            final(self)@ == (AudioView {
                calls: old(self)@.calls.push(OpusCall::Popped),
                ..old(self)@
            }),
            sample_bytes(sample) == opus_sample(old(self)@.calls),
            sample matches Some(bytes) ==> was_pushed(old(self)@.calls, bytes@),
    {
        let ghost before = self@.calls;
        let sample = pop_sample(&mut self.samples);
        if sample.is_some() {
            self.spread.places = self.spread.since_empty;
        } else {
            self.spread.since_empty = 0;
        }
        assert(before.push(OpusCall::Popped).drop_last() =~= before);
        sample
    }

    /// Receives a packet; Opus packets that are ready are added to those that wait.
    pub fn receive(&mut self, packet: RtpPacket, audio_packets: &mut Vec<Vec<u8>>)
        requires
            old(self).wf(),
        ensures
            final(self).wf(),
            (final(self)@, packets_view(final(audio_packets)@)) == audio_received(
                old(self)@,
                packet@,
                packets_view(old(audio_packets)@),
            ),
            took_its_own(final(self)@),
            final(audio_packets)@.take(old(audio_packets)@.len() as int) == old(audio_packets)@,
            forall|i: int|
                old(audio_packets)@.len() <= i < final(audio_packets)@.len() ==> was_pushed(
                    final(self)@.calls,
                    (#[trigger] final(audio_packets)@[i])@,
                ),
            final(audio_packets)@.len() <= if old(audio_packets)@.len()
                >= MAX_PENDING_AUDIO_PACKETS {
                old(audio_packets)@.len()
            } else {
                MAX_PENDING_AUDIO_PACKETS as nat
            },
    {
        assert(audio_packets@.take(audio_packets@.len() as int) =~= audio_packets@);
        if packet.payload_type != self.payload_type {
            return;
        }
        if !self.push(packet) {
            return;
        }
        let ghost wanted = drained(self@.calls, packets_view(audio_packets@));
        let ghost before = audio_packets@;
        let mut more = true;
        while more && audio_packets.len() < MAX_PENDING_AUDIO_PACKETS
            invariant
                self@.payload_type == old(self)@.payload_type,
                self@.sample_rate == old(self)@.sample_rate,
                more ==> wanted == drained(self@.calls, packets_view(audio_packets@)),
                !more ==> wanted == (self@.calls, packets_view(audio_packets@)),
                before == old(audio_packets)@,
                before.len() <= audio_packets@.len(),
                audio_packets@.take(before.len() as int) == before,
                audio_packets@.len() <= if before.len() >= MAX_PENDING_AUDIO_PACKETS {
                    before.len()
                } else {
                    MAX_PENDING_AUDIO_PACKETS as nat
                },
                self.wf(),
                forall|i: int|
                    before.len() <= i < audio_packets@.len() ==> was_pushed(
                        self@.calls,
                        (#[trigger] audio_packets@[i])@,
                    ),
            decreases
                MAX_PENDING_AUDIO_PACKETS - audio_packets@.len() + if more {
                    1int
                } else {
                    0
                },
        {
            let ghost calls = self@.calls;
            let ghost waiting = audio_packets@;
            match self.pop() {
                Some(sample) => {
                    audio_packets.push(sample);
                    assert(packets_view(audio_packets@) =~= packets_view(waiting).push(sample@));
                    assert(audio_packets@.take(before.len() as int) =~= waiting.take(
                        before.len() as int,
                    ));
                },
                None => {
                    more = false;
                },
            }
            proof {
                assert forall|i: int| before.len() <= i < audio_packets@.len() implies was_pushed(
                    self@.calls,
                    (#[trigger] audio_packets@[i])@,
                ) by {
                    if i < waiting.len() {
                        assert(audio_packets@[i] == waiting[i]);
                    }
                    lemma_still_pushed(calls, audio_packets@[i]@);
                }
            }
        }
    }
}

proof fn lemma_still_pushed(calls: Seq<OpusCall>, payload: Seq<u8>)
    requires
        was_pushed(calls, payload),
    ensures
        was_pushed(calls.push(OpusCall::Popped), payload),
{
    let i = choose|i: int|
        0 <= i < calls.len() && (#[trigger] calls[i] matches OpusCall::Pushed { packet }
            && packet.payload == payload);
    assert(calls.push(OpusCall::Popped)[i] == calls[i]);
}

/// Samples are taken as long as any is ready and fewer than 32 wait: those that waited stay in
/// front, and each one that was ready comes behind the one before it.
pub proof fn ready_samples_are_taken_in_order(calls: Seq<OpusCall>, waiting: Seq<Seq<u8>>)
    requires
        waiting.len() <= 32,
    ensures
        ({
            let (made_calls, after) = drained(calls, waiting);
            &&& waiting.len() <= after.len() <= 32
            &&& after.take(waiting.len() as int) == waiting
            &&& waiting.len() == 32 ==> after == waiting && made_calls == calls
            &&& waiting.len() < 32 && opus_sample(calls) is None ==> after == waiting && made_calls
                == calls.push(OpusCall::Popped)
            &&& waiting.len() < 32 && opus_sample(calls) is Some ==> after.len() > waiting.len()
                && after[waiting.len() as int] == opus_sample(calls)->0 && (made_calls, after)
                == drained(calls.push(OpusCall::Popped), waiting.push(opus_sample(calls)->0))
        }),
    decreases 32 - waiting.len(),
{
    let (made_calls, after) = drained(calls, waiting);
    if waiting.len() < 32 && opus_sample(calls) is Some {
        let more = waiting.push(opus_sample(calls)->0);
        ready_samples_are_taken_in_order(calls.push(OpusCall::Popped), more);
        assert(after.take(more.len() as int)[waiting.len() as int] == more.last());
        assert forall|i: int| 0 <= i < waiting.len() implies #[trigger] after[i] == waiting[i] by {
            assert(after.take(more.len() as int)[i] == more[i]);
        }
    }
    assert(after.take(waiting.len() as int) =~= waiting);
}

/// A packet of another payload type than the stream's is ignored; one of the stream's own that
/// carries sound is always handed on to be put in order, and whatever waits stays in front.
pub proof fn sound_of_the_stream_is_put_in_order(
    state: AudioView,
    packet: PacketView,
    waiting: Seq<Seq<u8>>,
)
    requires
        waiting.len() <= 32,
    ensures
        ({
            let (after, ready) = audio_received(state, packet, waiting);
            &&& packet.payload_type != state.payload_type ==> after == state && ready == waiting
            &&& packet.payload_type == state.payload_type && packet.payload.len() > 0
                ==> after.calls.contains(OpusCall::Pushed { packet })
            &&& waiting.len() <= ready.len() <= 32
            &&& ready.take(waiting.len() as int) == waiting
            &&& after.payload_type == state.payload_type
            &&& after.sample_rate == state.sample_rate
        }),
{
    let taken = can_take(spread_of(state.calls), packet);
    let before = if taken {
        state.calls
    } else {
        made(state.sample_rate)
    };
    let pushed = before.push(OpusCall::Pushed { packet });
    ready_samples_are_taken_in_order(pushed, waiting);
    lemma_calls_are_kept(pushed, waiting);
    assert(pushed[before.len() as int] == (OpusCall::Pushed { packet }));
    assert(waiting.take(waiting.len() as int) =~= waiting);
    assert(drained(pushed, waiting).0[before.len() as int] == pushed[before.len() as int]);
}

proof fn lemma_calls_are_kept(calls: Seq<OpusCall>, waiting: Seq<Seq<u8>>)
    ensures
        drained(calls, waiting).0.len() >= calls.len(),
        forall|i: int|
            0 <= i < calls.len() ==> #[trigger] drained(calls, waiting).0[i] == calls[i],
    decreases MAX_PENDING_AUDIO_PACKETS - waiting.len(),
{
    if waiting.len() < MAX_PENDING_AUDIO_PACKETS && opus_sample(calls) is Some {
        let more = calls.push(OpusCall::Popped);
        lemma_calls_are_kept(more, waiting.push(opus_sample(calls)->0));
        assert forall|i: int| 0 <= i < calls.len() implies #[trigger] drained(calls, waiting).0[i]
            == calls[i] by {
            assert(drained(more, waiting.push(opus_sample(calls)->0)).0[i] == more[i]);
        }
    }
}

} // verus!
