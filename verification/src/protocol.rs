//! The console's protocol on the data channels: what is sent on which, and when.

use crate::input::{
    GamepadFrame, InputActivity, InputClock, InputQueue, PointerEvent, PointerFrame,
    VideoMetadataQueue,
};
use crate::media::is_within;
use crate::negotiation::ChannelIds;
use crate::text::append;
use crate::video::{STREAM_HEIGHT, STREAM_WIDTH};
use crate::{input, media};
use vstd::prelude::*;

verus! {

use crate::input::{InputPacketView, InputQueueView};

/// The least time between two gamepad packets. Reports go out at this pace even while nothing
/// changes, which keeps the session alive.
pub const INPUT_MIN_INTERVAL_NS: u64 = 16_000_000;

/// How far the handshake on the message channel has come.
#[derive(Debug, Clone, Copy, PartialEq, Eq, Structural)]
pub enum HandshakeStage {
    WaitingForChannels,
    WaitingForHandshakeAck,
    Ready,
}

/// What a data channel is for.
#[derive(Debug, Clone, Copy, PartialEq, Eq, Structural)]
pub enum ChannelKind {
    Message,
    Input,
    Control,
    Other,
}

/// The name of a channel's purpose.
pub open spec fn kind_name(kind: ChannelKind) -> Seq<char> {
    match kind {
        ChannelKind::Message => "message"@,
        ChannelKind::Input => "input"@,
        ChannelKind::Control => "control"@,
        ChannelKind::Other => "chat/other"@,
    }
}

impl ChannelKind {
    /// The name of the channel's purpose.
    pub fn name(self) -> (name: &'static str)
        ensures
            name@ == kind_name(self),
    {
        match self {
            ChannelKind::Message => "message",
            ChannelKind::Input => "input",
            ChannelKind::Control => "control",
            ChannelKind::Other => "chat/other",
        }
    }
}

/// What a data channel is for, by its id.
pub open spec fn kind_of(channels: ChannelIds, channel_id: u16) -> ChannelKind {
    if channel_id == channels.message {
        ChannelKind::Message
    } else if channel_id == channels.input {
        ChannelKind::Input
    } else if channel_id == channels.control {
        ChannelKind::Control
    } else {
        ChannelKind::Other
    }
}

/// What becomes of a gamepad sample.
#[derive(Debug)]
pub enum GamepadSend {
    /// The input channel is not open; `warn` on the first sample that this happens to.
    NotReady { warn: bool },
    /// The last packet was sent too short a time ago.
    TooSoon,
    /// A packet for the input channel.
    Packet { bytes: Vec<u8> },
}

/// What is sent on a channel that has opened.
#[derive(Debug)]
pub struct ChannelGreeting {
    pub kind: ChannelKind,
    /// The handshake is to be sent on the message channel.
    pub handshake: bool,
    /// The packet that introduces the client on the input channel.
    pub client_metadata: Option<Vec<u8>>,
}

/// The protocol's side of a session.
pub struct XboxRtcProtocol {
    handshake_stage: HandshakeStage,
    input_queue: InputQueue,
    input_channel_ready: bool,
    warned_input_not_ready: bool,
    server_video_size: Option<(u32, u32)>,
    channel_ids: ChannelIds,
    video_fps: u32,
    flush_size_toggle: bool,
    last_input_sent_at_ns: Option<u64>,
    last_gamepad: Option<GamepadFrame>,
}

/// The state of the protocol.
#[verifier::ext_equal]
pub ghost struct ProtocolView {
    pub handshake_stage: HandshakeStage,
    pub input_queue: InputQueueView,
    pub input_channel_ready: bool,
    pub warned_input_not_ready: bool,
    pub server_video_size: Option<(u32, u32)>,
    pub channel_ids: ChannelIds,
    pub video_fps: u32,
    /// Whether the next flush asks for the full picture size.
    pub flush_size_toggle: bool,
    pub last_input_sent_at_ns: Option<u64>,
    pub last_gamepad: Option<GamepadFrame>,
}

impl View for XboxRtcProtocol {
    type V = ProtocolView;

    closed spec fn view(&self) -> ProtocolView {
        ProtocolView {
            handshake_stage: self.handshake_stage,
            input_queue: self.input_queue@,
            input_channel_ready: self.input_channel_ready,
            warned_input_not_ready: self.warned_input_not_ready,
            server_video_size: self.server_video_size,
            channel_ids: self.channel_ids,
            video_fps: self.video_fps,
            flush_size_toggle: self.flush_size_toggle,
            last_input_sent_at_ns: self.last_input_sent_at_ns,
            last_gamepad: self.last_gamepad,
        }
    }
}

/// The name of a handshake stage.
pub open spec fn stage_label(stage: HandshakeStage) -> Seq<char> {
    match stage {
        HandshakeStage::WaitingForChannels => "wait-channels"@,
        HandshakeStage::WaitingForHandshakeAck => "wait-ack"@,
        HandshakeStage::Ready => "ready"@,
    }
}

/// Whether a gamepad sample becomes a packet.
pub open spec fn gamepad_goes_out(protocol: ProtocolView, now_ns: u64) -> bool {
    protocol.input_channel_ready && !media::within(
        protocol.last_input_sent_at_ns,
        now_ns,
        INPUT_MIN_INTERVAL_NS,
    )
}

/// What the handshake on the message channel is: sent once, when the channel opens.
pub open spec fn greets_with_handshake(
    protocol: ProtocolView,
    channel_id: u16,
    channel_present: bool,
) -> bool {
    channel_present && channel_id == protocol.channel_ids.message && protocol.handshake_stage
        == HandshakeStage::WaitingForChannels
}

/// Whether the client is introduced on a channel.
pub open spec fn greets_with_metadata(
    protocol: ProtocolView,
    channel_id: u16,
    channel_present: bool,
) -> bool {
    channel_present && channel_id == protocol.channel_ids.input
}

/// The protocol's state after a channel has opened.
pub open spec fn after_greeting(
    protocol: ProtocolView,
    channel_id: u16,
    channel_present: bool,
) -> ProtocolView {
    let introduced = greets_with_metadata(protocol, channel_id, channel_present);
    ProtocolView {
        handshake_stage: if greets_with_handshake(protocol, channel_id, channel_present) {
            HandshakeStage::WaitingForHandshakeAck
        } else {
            protocol.handshake_stage
        },
        input_queue: if introduced {
            input::idle_queue(input::next_sequence_number(protocol.input_queue.sequence))
        } else {
            protocol.input_queue
        },
        input_channel_ready: introduced || protocol.input_channel_ready,
        ..protocol
    }
}

/// The protocol's state after a message on a data channel.
pub open spec fn after_message(
    protocol: ProtocolView,
    channel_id: u16,
    acknowledged: bool,
    size: Option<(u32, u32)>,
) -> ProtocolView {
    if channel_id != protocol.channel_ids.message {
        protocol
    } else {
        ProtocolView {
            handshake_stage: if acknowledged {
                HandshakeStage::Ready
            } else {
                protocol.handshake_stage
            },
            server_video_size: if size is Some {
                size
            } else {
                protocol.server_video_size
            },
            ..protocol
        }
    }
}

/// The packet that introduces the client.
pub open spec fn introduction(sequence: u32) -> InputPacketView {
    InputPacketView {
        report_type: input::report_bit(input::ReportType::ClientMetadata),
        total_size: input::PACKET_HEADER_BYTES + 1,
        max_touchpoints: 0,
        ..input::empty_packet(sequence)
    }
}

/// The picture size that a flush asks for: by turns slightly less than the full one, and the
/// full one, so that each is a change.
pub open spec fn flush_size(protocol: ProtocolView) -> (u32, u32) {
    if protocol.flush_size_toggle {
        (STREAM_WIDTH, STREAM_HEIGHT)
    } else {
        ((STREAM_WIDTH - 16) as u32, (STREAM_HEIGHT - 8) as u32)
    }
}

impl XboxRtcProtocol {
    /// What holds of the protocol at all times: between calls no input is left over.
    pub open spec fn wf(self) -> bool {
        self@.input_queue == input::idle_queue(self@.input_queue.sequence)
    }

    /// The protocol before any channel has opened.
    pub fn new(channel_ids: ChannelIds, video_fps: u32) -> (protocol: Self)
        ensures
            protocol.wf(),
            protocol@ == (ProtocolView {
                handshake_stage: HandshakeStage::WaitingForChannels,
                input_queue: input::idle_queue(0),
                input_channel_ready: false,
                warned_input_not_ready: false,
                server_video_size: None,
                channel_ids,
                video_fps,
                flush_size_toggle: false,
                last_input_sent_at_ns: None,
                last_gamepad: None,
            }),
    {
        XboxRtcProtocol {
            handshake_stage: HandshakeStage::WaitingForChannels,
            input_queue: InputQueue::default(),
            input_channel_ready: false,
            warned_input_not_ready: false,
            server_video_size: None,
            channel_ids,
            video_fps,
            flush_size_toggle: false,
            last_input_sent_at_ns: None,
            last_gamepad: None,
        }
    }

    /// The channels that are spoken on.
    pub fn channel_ids(&self) -> (channels: ChannelIds)
        ensures
            channels == self@.channel_ids,
    {
        self.channel_ids
    }

    /// The frame rate that the console is asked for.
    pub fn video_fps(&self) -> (fps: u32)
        ensures
            fps == self@.video_fps,
    {
        self.video_fps
    }

    /// How far the handshake has come.
    pub fn handshake_stage(&self) -> (stage: HandshakeStage)
        ensures
            stage == self@.handshake_stage,
    {
        self.handshake_stage
    }

    /// The name of the handshake stage.
    pub fn handshake_label(&self) -> (label: &'static str)
        ensures
            label@ == stage_label(self@.handshake_stage),
    {
        match self.handshake_stage {
            HandshakeStage::WaitingForChannels => "wait-channels",
            HandshakeStage::WaitingForHandshakeAck => "wait-ack",
            HandshakeStage::Ready => "ready",
        }
    }

    /// Takes in a gamepad sample. Samples go out at a fixed pace once the input channel is open;
    /// those in between are left out.
    pub fn send_gamepad_frame(
        &mut self,
        frame: GamepadFrame,
        activity: &mut InputActivity,
        metadata: &mut VideoMetadataQueue,
        clock: InputClock,
    ) -> (sent: GamepadSend)
        requires
            old(self).wf(),
            old(metadata).wf(),
        ensures
            final(self).wf(),
            final(metadata).wf(),
            final(activity)@ == if input::is_active(frame) {
                Some(clock.now_ns)
            } else {
                old(activity)@
            },
            match sent {
                GamepadSend::NotReady { warn } => {
                    &&& !old(self)@.input_channel_ready
                    &&& warn == !old(self)@.warned_input_not_ready
                    &&& final(self)@ == (ProtocolView { warned_input_not_ready: true, ..old(self)@ })
                    &&& *final(metadata) == *old(metadata)
                },
                GamepadSend::TooSoon => {
                    &&& old(self)@.input_channel_ready
                    &&& !gamepad_goes_out(old(self)@, clock.now_ns)
                    &&& final(self)@ == old(self)@
                    &&& *final(metadata) == *old(metadata)
                },
                GamepadSend::Packet { bytes } => {
                    let queue = InputQueueView { gamepads: seq![frame], ..old(self)@.input_queue };
                    &&& gamepad_goes_out(old(self)@, clock.now_ns)
                    &&& bytes@ == input::packet_bytes(
                        input::queued_packet(queue, old(metadata)@, clock),
                        clock.uptime_bits,
                    )
                    &&& final(self)@ == (ProtocolView {
                        last_input_sent_at_ns: Some(clock.now_ns),
                        last_gamepad: Some(frame),
                        input_queue: input::idle_queue(
                            input::next_sequence_number(old(self)@.input_queue.sequence),
                        ),
                        ..old(self)@
                    })
                    &&& final(metadata)@.len() == 0
                    &&& final(metadata).reports_sent() == input::more_reports(
                        old(metadata).reports_sent(),
                        old(metadata)@.len(),
                    )
                },
            },
    {
        activity.note_gamepad_activity(&frame, clock.now_ns);
        if !self.input_channel_ready {
            let warn = !self.warned_input_not_ready;
            self.warned_input_not_ready = true;
            return GamepadSend::NotReady { warn };
        }
        if is_within(self.last_input_sent_at_ns, clock.now_ns, INPUT_MIN_INTERVAL_NS) {
            return GamepadSend::TooSoon;
        }
        self.last_input_sent_at_ns = Some(clock.now_ns);
        let mut frames: Vec<GamepadFrame> = Vec::new();
        frames.push(frame);
        assert(frames@ =~= seq![frame]);
        assert(input::pointer_size(Seq::empty()) == 0);
        match self.input_queue.queue_gamepad_frames(frames, true, metadata, clock) {
            Some(bytes) => {
                self.last_gamepad = Some(frame);
                GamepadSend::Packet { bytes }
            },
            None => GamepadSend::TooSoon,
        }
    }

    /// Takes in a touch: the packet for the input channel, once that is open.
    pub fn send_pointer_event(
        &mut self,
        event: PointerEvent,
        metadata: &mut VideoMetadataQueue,
        clock: InputClock,
    ) -> (sent: Option<Vec<u8>>)
        requires
            old(self).wf(),
            old(metadata).wf(),
        ensures
            final(self).wf(),
            final(metadata).wf(),
            sent is Some <==> old(self)@.input_channel_ready,
            match sent {
                Some(bytes) => {
                    let queue = InputQueueView {
                        pointers: seq![seq![event]],
                        ..old(self)@.input_queue
                    };
                    &&& bytes@ == input::packet_bytes(
                        input::queued_packet(queue, old(metadata)@, clock),
                        clock.uptime_bits,
                    )
                    &&& final(self)@ == (ProtocolView {
                        input_queue: input::idle_queue(
                            input::next_sequence_number(old(self)@.input_queue.sequence),
                        ),
                        ..old(self)@
                    })
                    &&& final(metadata)@.len() == 0
                    &&& final(metadata).reports_sent() == input::more_reports(
                        old(metadata).reports_sent(),
                        old(metadata)@.len(),
                    )
                },
                None => final(self)@ == old(self)@ && *final(metadata) == *old(metadata),
            },
    {
        if !self.input_channel_ready {
            return None;
        }
        let mut events: Vec<PointerEvent> = Vec::new();
        events.push(event);
        proof {
            assert(events@ =~= seq![event]);
            let touches = seq![events@];
            assert(touches.drop_last() =~= Seq::empty());
            assert(input::pointer_size(touches.drop_last()) == 0);
        }
        self.input_queue.queue_pointer_frame(PointerFrame { events }, metadata, clock)
    }

    /// Takes in that a channel has opened; gives what is to be sent on it. `channel_present`
    /// tells whether the peer still has the channel.
    pub fn handle_channel_open(
        &mut self,
        channel_id: u16,
        channel_present: bool,
        clock: InputClock,
    ) -> (greeting: ChannelGreeting)
        requires
            old(self).wf(),
        ensures
            final(self).wf(),
            final(self)@ == after_greeting(old(self)@, channel_id, channel_present),
            greeting.kind == kind_of(old(self)@.channel_ids, channel_id),
            greeting.handshake == greets_with_handshake(old(self)@, channel_id, channel_present),
            greeting.client_metadata is Some <==> greets_with_metadata(
                old(self)@,
                channel_id,
                channel_present,
            ),
            greeting.client_metadata matches Some(bytes) ==> bytes@ == input::packet_bytes(
                introduction(input::next_sequence_number(old(self)@.input_queue.sequence)),
                clock.uptime_bits,
            ),
    {
        let channels = self.channel_ids;
        let kind = if channel_id == channels.message {
            ChannelKind::Message
        } else if channel_id == channels.input {
            ChannelKind::Input
        } else if channel_id == channels.control {
            ChannelKind::Control
        } else {
            ChannelKind::Other
        };
        let handshake = channel_present && channel_id == channels.message && self.handshake_stage
            == HandshakeStage::WaitingForChannels;
        if handshake {
            self.handshake_stage = HandshakeStage::WaitingForHandshakeAck;
        }
        let client_metadata = if channel_present && channel_id == channels.input {
            let packet = self.input_queue.client_metadata_packet(0, clock);
            self.input_channel_ready = true;
            Some(packet)
        } else {
            None
        };
        ChannelGreeting { kind, handshake, client_metadata }
    }

    /// Takes in a message on a data channel: whether it acknowledges the handshake, and the
    /// picture size it reports, if it does. Only the message channel's are heeded.
    pub fn handle_channel_message(
        &mut self,
        channel_id: u16,
        acknowledged: bool,
        size: Option<(u32, u32)>,
    )
        requires
            old(self).wf(),
        ensures
            final(self).wf(),
            final(self)@ == after_message(old(self)@, channel_id, acknowledged, size),
    {
        if channel_id != self.channel_ids.message {
            return;
        }
        if acknowledged {
            self.handshake_stage = HandshakeStage::Ready;
        }
        if size.is_some() {
            self.server_video_size = size;
        }
    }

    /// The picture size to ask for so that the console sets its encoder up anew, which empties
    /// its queue.
    pub fn notify_stream_flush(&mut self) -> (size: (u32, u32))
        requires
            old(self).wf(),
        ensures
            final(self).wf(),
            size == flush_size(old(self)@),
            final(self)@ == (ProtocolView {
                flush_size_toggle: !old(self)@.flush_size_toggle,
                ..old(self)@
            }),
    {
        let size: (u32, u32) = if self.flush_size_toggle {
            (STREAM_WIDTH, STREAM_HEIGHT)
        } else {
            (STREAM_WIDTH - 16, STREAM_HEIGHT - 8)
        };
        self.flush_size_toggle = !self.flush_size_toggle;
        size
    }

    /// The picture size that the console reported last.
    pub fn server_video_size(&self) -> (size: Option<(u32, u32)>)
        ensures
            size == self@.server_video_size,
    {
        self.server_video_size
    }

    /// The state of the protocol for the status line.
    pub fn debug_state(&self) -> (state: String)
        ensures
            state@ == "hs:"@ + stage_label(self@.handshake_stage) + " in:"@
                + if self@.input_channel_ready {
                "y"@
            } else {
                "n"@
            },
    {
        let mut state = String::new();
        append(&mut state, "hs:");
        append(&mut state, self.handshake_label());
        append(&mut state, " in:");
        append(
            &mut state,
            if self.input_channel_ready {
                "y"
            } else {
                "n"
            },
        );
        assert(state@ =~= "hs:"@ + stage_label(self@.handshake_stage) + " in:"@
            + if self@.input_channel_ready {
            "y"@
        } else {
            "n"@
        });
        state
    }
}

/// Two flushes in a row ask for different picture sizes, each one a change from the last, and
/// neither larger than the full one.
pub proof fn flushes_change_the_size(before: ProtocolView)
    ensures
        ({
            let after = ProtocolView { flush_size_toggle: !before.flush_size_toggle, ..before };
            &&& flush_size(before) != flush_size(after)
            &&& flush_size(before).0 <= STREAM_WIDTH && flush_size(before).1 <= STREAM_HEIGHT
        }),
{
}

/// Gamepad packets are never less than the set interval apart.
pub proof fn gamepad_packets_keep_their_distance(
    before: ProtocolView,
    first_ns: u64,
    second_ns: u64,
)
    requires
        first_ns <= second_ns,
        gamepad_goes_out(
            ProtocolView { last_input_sent_at_ns: Some(first_ns), ..before },
            second_ns,
        ),
    ensures
        second_ns - first_ns >= INPUT_MIN_INTERVAL_NS,
{
}

/// The handshake is sent at most once, however often the message channel opens.
pub proof fn the_handshake_is_sent_once(before: ProtocolView, channel_id: u16, again: u16)
    requires
        greets_with_handshake(before, channel_id, true),
    ensures
        !greets_with_handshake(after_greeting(before, channel_id, true), again, true),
{
}

/// A channel is for what its id was negotiated for.
pub proof fn a_channel_is_known_by_its_id(channels: ChannelIds, channel_id: u16)
    requires
        channels.message != channels.input,
        channels.message != channels.control,
        channels.input != channels.control,
    ensures
        kind_of(channels, channel_id) is Message <==> channel_id == channels.message,
        kind_of(channels, channel_id) is Input <==> channel_id == channels.input,
        kind_of(channels, channel_id) is Control <==> channel_id == channels.control,
{
}

/// A gamepad sample goes out once the input channel is open and the last one is sixteen
/// milliseconds ago or more.
pub proof fn when_a_gamepad_sample_goes_out(protocol: ProtocolView, now_ns: u64)
    ensures
        gamepad_goes_out(protocol, now_ns) <==> protocol.input_channel_ready && (
        protocol.last_input_sent_at_ns matches Some(at) ==> now_ns >= at + 16_000_000),
{
}

/// A channel that opens is greeted by what it is for. The message channel gets the handshake, if
/// that was not sent yet, and its answer is waited for. The input channel gets the introduction,
/// under the next packet number round the circle of 32 bits, and is open then. Nothing else
/// changes, and nothing at all for a channel that is not there.
pub proof fn channels_are_greeted_by_what_they_are_for(
    protocol: ProtocolView,
    channel_id: u16,
    present: bool,
)
    ensures
        ({
            let after = after_greeting(protocol, channel_id, present);
            let handshake = present && channel_id == protocol.channel_ids.message
                && protocol.handshake_stage is WaitingForChannels;
            let introduced = present && channel_id == protocol.channel_ids.input;
            &&& greets_with_handshake(protocol, channel_id, present) == handshake
            &&& greets_with_metadata(protocol, channel_id, present) == introduced
            &&& handshake ==> after.handshake_stage is WaitingForHandshakeAck
            &&& !handshake ==> after.handshake_stage == protocol.handshake_stage
            &&& introduced ==> after.input_channel_ready && after.input_queue.sequence == (
            protocol.input_queue.sequence + 1) % 0x1_0000_0000
            &&& !introduced ==> after.input_channel_ready == protocol.input_channel_ready
                && after.input_queue == protocol.input_queue
            &&& after == (ProtocolView {
                handshake_stage: after.handshake_stage,
                input_queue: after.input_queue,
                input_channel_ready: after.input_channel_ready,
                ..protocol
            })
        }),
{
}

/// Only what comes on the message channel is listened to: an answer to the handshake makes the
/// protocol ready, and a picture size replaces the one before.
pub proof fn only_the_message_channel_is_listened_to(
    protocol: ProtocolView,
    channel_id: u16,
    acknowledged: bool,
    size: Option<(u32, u32)>,
)
    ensures
        ({
            let after = after_message(protocol, channel_id, acknowledged, size);
            let heard = channel_id == protocol.channel_ids.message;
            &&& !heard ==> after == protocol
            &&& heard && acknowledged ==> after.handshake_stage is Ready
            &&& heard && !acknowledged ==> after.handshake_stage == protocol.handshake_stage
            &&& heard && size is Some ==> after.server_video_size == size
            &&& heard && size is None ==> after.server_video_size == protocol.server_video_size
            &&& after == (ProtocolView {
                handshake_stage: after.handshake_stage,
                server_video_size: after.server_video_size,
                ..protocol
            })
        }),
{
}

/// A flush asks by turns for 1264 by 712 and for the full 1280 by 720.
pub proof fn the_sizes_that_flushes_ask_for(protocol: ProtocolView)
    ensures
        protocol.flush_size_toggle ==> flush_size(protocol) == (1280u32, 720u32),
        !protocol.flush_size_toggle ==> flush_size(protocol) == (1264u32, 712u32),
{
}

/// The introduction is a packet of its own kind with nothing in it but that no touch points are
/// reported.
pub proof fn the_introduction_holds_no_reports(sequence: u32)
    ensures
        ({
            let packet = introduction(sequence);
            &&& packet.report_type == 8
            &&& packet.sequence == sequence
            &&& packet.total_size == 15
            &&& packet.max_touchpoints == 0
            &&& packet.metadata_frames.len() == 0
            &&& packet.gamepad_frames.len() == 0
            &&& packet.pointer_frames.len() == 0
        }),
{
}

} // verus!
