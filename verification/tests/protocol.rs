use green_vita::input::{
    Axis, GamepadFrame, InputActivity, InputClock, PointerEvent, Trigger, VideoMetadataQueue,
};
use green_vita::negotiation::ChannelIds;
use green_vita::protocol::{ChannelKind, GamepadSend, HandshakeStage, XboxRtcProtocol};

const MS: u64 = 1_000_000;

fn clock(now_ms: u64) -> InputClock {
    InputClock { session_start_ns: 0, now_ns: now_ms * MS, uptime_bits: 0 }
}

fn channels() -> ChannelIds {
    ChannelIds { control: 1, input: 2, message: 3 }
}

fn pressed() -> GamepadFrame {
    let centre = Axis { engaged: false, deflection: 0 };
    let loose = Trigger { engaged: false, level: 0 };
    GamepadFrame {
        gamepad_index: 0,
        nexus: false,
        menu: false,
        view: false,
        a: true,
        b: false,
        x: false,
        y: false,
        dpad_up: false,
        dpad_down: false,
        dpad_left: false,
        dpad_right: false,
        left_shoulder: false,
        right_shoulder: false,
        left_thumb: false,
        right_thumb: false,
        left_thumb_x_axis: centre,
        left_thumb_y_axis: centre,
        right_thumb_x_axis: centre,
        right_thumb_y_axis: centre,
        left_trigger: loose,
        right_trigger: loose,
    }
}

#[test]
fn greets_the_channels() {
    let mut protocol = XboxRtcProtocol::new(channels(), 30);
    assert_eq!(protocol.debug_state(), "hs:wait-channels in:n");
    assert_eq!(protocol.video_fps(), 30);
    let greeting = protocol.handle_channel_open(3, true, clock(0));
    assert_eq!((greeting.kind, greeting.handshake), (ChannelKind::Message, true));
    assert!(greeting.client_metadata.is_none());
    assert_eq!(protocol.debug_state(), "hs:wait-ack in:n");
    assert!(!protocol.handle_channel_open(3, true, clock(0)).handshake);
    let greeting = protocol.handle_channel_open(2, true, clock(0));
    assert_eq!((greeting.kind, greeting.handshake), (ChannelKind::Input, false));
    assert_eq!(greeting.client_metadata.unwrap(), vec![8, 0, 1, 0, 0, 0, 0, 0, 0, 0, 0, 0, 0, 0, 0]);
    protocol.handle_channel_message(2, true, None);
    assert_eq!(protocol.handshake_stage(), HandshakeStage::WaitingForHandshakeAck);
    protocol.handle_channel_message(3, true, None);
    assert_eq!(protocol.debug_state(), "hs:ready in:y");
    assert_eq!(protocol.handle_channel_open(1, true, clock(0)).kind, ChannelKind::Control);
    assert_eq!(protocol.handle_channel_open(0, true, clock(0)).kind, ChannelKind::Other);
    assert_eq!(ChannelKind::Other.name(), "chat/other");
}

#[test]
fn a_channel_that_is_gone_is_not_greeted() {
    let mut protocol = XboxRtcProtocol::new(channels(), 30);
    assert!(!protocol.handle_channel_open(3, false, clock(0)).handshake);
    assert!(protocol.handle_channel_open(2, false, clock(0)).client_metadata.is_none());
    assert_eq!(protocol.handshake_stage(), HandshakeStage::WaitingForChannels);
    assert_eq!(protocol.debug_state(), "hs:wait-channels in:n");
}

#[test]
fn gamepad_samples_keep_their_pace() {
    let mut protocol = XboxRtcProtocol::new(channels(), 30);
    let mut activity = InputActivity::new();
    let mut metadata = VideoMetadataQueue::new();
    for warned in [true, false] {
        let sent = protocol.send_gamepad_frame(pressed(), &mut activity, &mut metadata, clock(0));
        assert!(matches!(sent, GamepadSend::NotReady { warn } if warn == warned));
    }
    assert!(!activity.input_quiet_for(1, 0));
    protocol.handle_channel_open(2, true, clock(0));
    let sent = protocol.send_gamepad_frame(pressed(), &mut activity, &mut metadata, clock(10));
    match sent {
        GamepadSend::Packet { bytes } => {
            assert_eq!(bytes[..6], [2, 0, 2, 0, 0, 0]);
            assert_eq!(bytes[16], 16);
        }
        other => panic!("{:?}", other),
    }
    let sent = protocol.send_gamepad_frame(pressed(), &mut activity, &mut metadata, clock(25));
    assert!(matches!(sent, GamepadSend::TooSoon));
    let sent = protocol.send_gamepad_frame(pressed(), &mut activity, &mut metadata, clock(26));
    assert!(matches!(sent, GamepadSend::Packet { .. }));
}

#[test]
fn touches_go_out_once_the_channel_is_open() {
    let mut protocol = XboxRtcProtocol::new(channels(), 30);
    let mut metadata = VideoMetadataQueue::new();
    let event = PointerEvent {
        contact_major: 1,
        contact_minor: 2,
        pressure: 3,
        twist: 4,
        x: 5,
        y: 6,
        event_type: 7,
    };
    assert!(protocol.send_pointer_event(event, &mut metadata, clock(0)).is_none());
    protocol.handle_channel_open(2, true, clock(0));
    let bytes = protocol.send_pointer_event(event, &mut metadata, clock(0)).unwrap();
    assert_eq!((bytes[0], bytes.len()), (4, 14 + 1 + 1 + 20));
}

#[test]
fn flushes_alternate_the_size() {
    let mut protocol = XboxRtcProtocol::new(channels(), 30);
    assert_eq!(protocol.notify_stream_flush(), (1264, 712));
    assert_eq!(protocol.notify_stream_flush(), (1280, 720));
    assert_eq!(protocol.notify_stream_flush(), (1264, 712));
    assert_eq!(protocol.server_video_size(), None);
    protocol.handle_channel_message(1, false, Some((1920, 1080)));
    assert_eq!(protocol.server_video_size(), None);
    protocol.handle_channel_message(3, false, Some((1920, 1080)));
    protocol.handle_channel_message(3, false, None);
    assert_eq!(protocol.server_video_size(), Some((1920, 1080)));
    assert_eq!(protocol.handshake_stage(), HandshakeStage::WaitingForChannels);
    assert_eq!(protocol.channel_ids(), channels());
}
