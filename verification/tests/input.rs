use green_vita::input::{
    uptime_ms_u32_since, Axis, GamepadFrame, InputActivity, InputClock, InputPacket, InputQueue,
    MetadataFrame, PointerEvent, PointerFrame, ReportType, Trigger, VideoMetadataQueue,
};

const MS: u64 = 1_000_000;

fn neutral() -> GamepadFrame {
    let centre = Axis { engaged: false, deflection: 0 };
    let loose = Trigger { engaged: false, level: 0 };
    GamepadFrame {
        gamepad_index: 0,
        nexus: false,
        menu: false,
        view: false,
        a: false,
        b: false,
        x: false,
        y: false,
        dpad_up: false,
        dpad_down: false,
        dpad_left: false,
        dpad_right: false,
        left_shoulder: false,
        right_shoulder: false,
        left_thumb: false,
        right_thumb: false,
        left_thumb_x_axis: centre,
        left_thumb_y_axis: centre,
        right_thumb_x_axis: centre,
        right_thumb_y_axis: centre,
        left_trigger: loose,
        right_trigger: loose,
    }
}

fn clock(now_ms: u64) -> InputClock {
    InputClock {
        session_start_ns: 1_000 * MS,
        now_ns: now_ms * MS,
        uptime_bits: 1.5f64.to_bits(),
    }
}

fn touch(x: u32) -> PointerEvent {
    PointerEvent {
        contact_major: 0x0102,
        contact_minor: 0x0304,
        pressure: 5,
        twist: 0x0607,
        x,
        y: 0x0b0c_0d0e,
        event_type: 15,
    }
}

#[test]
fn report_types_have_their_bits() {
    let bits: Vec<u16> = [
        ReportType::Empty,
        ReportType::Metadata,
        ReportType::Gamepad,
        ReportType::Pointer,
        ReportType::ClientMetadata,
        ReportType::ServerMetadata,
    ]
    .iter()
    .map(|kind| kind.bits())
    .collect();
    assert_eq!(bits, vec![0, 1, 2, 4, 8, 16]);
}

#[test]
fn an_empty_packet_is_its_header() {
    let packet = InputPacket::new(0x0a0b_0c0d);
    let mut expected = vec![0, 0, 0x0d, 0x0c, 0x0b, 0x0a];
    expected.extend_from_slice(&1.5f64.to_le_bytes());
    assert_eq!(packet.to_bytes(1.5f64.to_bits()), expected);
}

#[test]
fn the_introduction_ends_with_the_touch_points() {
    let bytes = InputPacket::client_metadata(1, 7).to_bytes(0);
    assert_eq!(bytes, vec![8, 0, 1, 0, 0, 0, 0, 0, 0, 0, 0, 0, 0, 0, 7]);
    let mut queue = InputQueue::default();
    assert_eq!(queue.client_metadata_packet(7, clock(0))[..6], [8, 0, 1, 0, 0, 0]);
    assert_eq!(queue.client_metadata_packet(7, clock(0))[..6], [8, 0, 2, 0, 0, 0]);
}

#[test]
fn a_gamepad_sample_on_the_wire() {
    let mut frame = neutral();
    frame.gamepad_index = 3;
    frame.nexus = true;
    frame.a = true;
    frame.right_thumb = true;
    frame.left_thumb_x_axis = Axis { engaged: true, deflection: -2 };
    frame.left_thumb_y_axis = Axis { engaged: true, deflection: 1 };
    frame.right_thumb_x_axis = Axis { engaged: true, deflection: 32_767 };
    frame.right_thumb_y_axis = Axis { engaged: true, deflection: -32_767 };
    frame.left_trigger = Trigger { engaged: true, level: 0x1234 };
    frame.right_trigger = Trigger { engaged: true, level: 65_535 };
    let mut packet = InputPacket::new(1);
    packet.set_data(vec![], vec![frame], vec![]);
    let bytes = packet.to_bytes(0);
    assert_eq!(bytes[0], 2);
    assert_eq!(
        bytes[14..],
        [
            1, 3, 0x12, 0x80, 0xfe, 0xff, 0xff, 0xff, 0xff, 0x7f, 0xff, 0x7f, 0x34, 0x12, 0xff,
            0xff, 1, 0, 0, 0, 0, 0, 0, 1
        ]
    );
}

#[test]
fn every_button_has_its_bit() {
    let press: Vec<(fn(&mut GamepadFrame), u16)> = vec![
        (|frame| frame.nexus = true, 2),
        (|frame| frame.menu = true, 4),
        (|frame| frame.view = true, 8),
        (|frame| frame.a = true, 16),
        (|frame| frame.b = true, 32),
        (|frame| frame.x = true, 64),
        (|frame| frame.y = true, 128),
        (|frame| frame.dpad_up = true, 256),
        (|frame| frame.dpad_down = true, 512),
        (|frame| frame.dpad_left = true, 1024),
        (|frame| frame.dpad_right = true, 2048),
        (|frame| frame.left_shoulder = true, 4096),
        (|frame| frame.right_shoulder = true, 8192),
        (|frame| frame.left_thumb = true, 16384),
        (|frame| frame.right_thumb = true, 32768),
    ];
    for (apply, bit) in press {
        let mut frame = neutral();
        apply(&mut frame);
        let mut packet = InputPacket::new(1);
        packet.set_data(vec![], vec![frame], vec![]);
        let bytes = packet.to_bytes(0);
        assert_eq!(u16::from_le_bytes([bytes[16], bytes[17]]), bit);
    }
}

#[test]
fn a_touch_on_the_wire() {
    let mut packet = InputPacket::new(1);
    packet.set_data(vec![], vec![], vec![PointerFrame { events: vec![touch(0x0708_090a)] }]);
    let bytes = packet.to_bytes(0);
    assert_eq!(bytes[0], 4);
    assert_eq!(
        bytes[14..],
        [
            1, 1, 2, 1, 4, 3, 5, 7, 6, 0, 0, 0, 0, 0x0a, 9, 8, 7, 0x0e, 0x0d, 0x0c, 0x0b, 15
        ]
    );
}

#[test]
fn a_timing_report_on_the_wire() {
    let mut packet = InputPacket::new(1);
    let report = MetadataFrame {
        server_data_key: 0x0102_0304,
        first_frame_packet_arrival_ms: 5,
        frame_submitted_ms: 6,
        frame_decoded_ms: 7,
        frame_rendered_ms: 8,
    };
    packet.set_data(vec![report], vec![], vec![]);
    let bytes = packet.to_bytes(0);
    assert_eq!(bytes[0], 1);
    assert_eq!(
        bytes[14..],
        [
            1, 4, 3, 2, 1, 5, 0, 0, 0, 6, 0, 0, 0, 7, 0, 0, 0, 8, 0, 0, 0, 0, 0, 0, 0, 0, 0, 0, 0
        ]
    );
}

#[test]
fn packets_have_their_reckoned_length() {
    let report = MetadataFrame {
        server_data_key: 1,
        first_frame_packet_arrival_ms: 2,
        frame_submitted_ms: 3,
        frame_decoded_ms: 4,
        frame_rendered_ms: 5,
    };
    let mut packet = InputPacket::new(1);
    packet.set_data(
        vec![report; 300],
        vec![neutral(); 2],
        vec![PointerFrame { events: vec![touch(1); 3] }],
    );
    let bytes = packet.to_bytes(0);
    assert_eq!(bytes.len(), 14 + 1 + 28 * 300 + 1 + 23 * 2 + 1 + 1 + 20 * 3);
    assert_eq!(bytes[0], 7);
    assert_eq!(bytes[14], (300 % 256) as u8);
    assert!(PointerFrame::default().events.is_empty());
}

#[test]
fn input_goes_out_at_once_and_is_numbered() {
    let mut queue = InputQueue::default();
    let mut metadata = VideoMetadataQueue::new();
    assert_eq!(queue.queue_gamepad_frames(vec![], false, &mut metadata, clock(0)), None);
    let forced = queue.queue_gamepad_frames(vec![], true, &mut metadata, clock(0)).unwrap();
    assert_eq!(forced[..6], [0, 0, 1, 0, 0, 0]);
    let sample = queue.queue_gamepad_frames(vec![neutral()], false, &mut metadata, clock(0)).unwrap();
    assert_eq!(sample[..6], [2, 0, 2, 0, 0, 0]);
    let frame = PointerFrame { events: vec![touch(1), touch(2)] };
    let touches = queue.queue_pointer_frame(frame, &mut metadata, clock(0)).unwrap();
    assert_eq!(touches[..6], [4, 0, 3, 0, 0, 0]);
    assert_eq!(touches[14..16], [1, 2]);
    assert_eq!(queue.queue_gamepad_frames(vec![], false, &mut metadata, clock(0)), None);
}

#[test]
fn timing_reports_ride_along_or_go_out_when_due() {
    let mut queue = InputQueue::default();
    let mut metadata = VideoMetadataQueue::new();
    metadata.queue_video_metadata(77, 1_010 * MS);
    metadata.queue_video_metadata(78, 1_020 * MS);
    assert!(!metadata.due(1_039 * MS));
    assert_eq!(queue.queue_gamepad_frames(vec![], false, &mut metadata, clock(1_039)), None);
    assert!(metadata.due(1_040 * MS));
    let packet = queue.queue_gamepad_frames(vec![], false, &mut metadata, clock(1_040)).unwrap();
    assert_eq!(packet[0], 1);
    assert_eq!(packet[14..27], [2, 77, 0, 0, 0, 10, 0, 0, 0, 10, 0, 0, 0]);
    assert_eq!(packet[27..31], [40, 0, 0, 0]);
    assert_eq!(metadata.sent(), 2);
    assert!(!metadata.due(9_999 * MS));
    metadata.queue_video_metadata(79, 1_050 * MS);
    let packet =
        queue.queue_gamepad_frames(vec![neutral()], false, &mut metadata, clock(1_050)).unwrap();
    assert_eq!((packet[0], packet.len()), (3, 14 + 1 + 28 + 1 + 23));
}

#[test]
fn a_full_queue_forgets_its_oldest_report() {
    let mut metadata = VideoMetadataQueue::new();
    for key in 0..250 {
        metadata.queue_video_metadata(key, 1_000 * MS);
    }
    let reports = metadata.drain_video_metadata(clock(2_000));
    assert_eq!(reports.len(), 240);
    assert_eq!((reports[0].server_data_key, reports[239].server_data_key), (10, 249));
    assert_eq!(reports[0].frame_rendered_ms, 1_000);
}

#[test]
fn uptime_is_counted_from_the_session_start() {
    assert_eq!(uptime_ms_u32_since(5 * MS, 4 * MS), 0);
    assert_eq!(uptime_ms_u32_since(5 * MS, 7 * MS + 999_999), 2);
    assert_eq!(uptime_ms_u32_since(0, 4_294_967_297 * MS), 1);
}

#[test]
fn activity_is_any_control_in_use() {
    let mut activity = InputActivity::new();
    assert!(activity.input_quiet_for(u64::MAX, 0));
    activity.note_gamepad_activity(&neutral(), 5);
    assert!(activity.input_quiet_for(u64::MAX, 5));
    let mut frame = neutral();
    frame.right_thumb_y_axis.engaged = true;
    activity.note_gamepad_activity(&frame, 100);
    assert!(!activity.input_quiet_for(50, 149));
    assert!(activity.input_quiet_for(50, 150));
    activity.note_gamepad_activity(&neutral(), 200);
    assert!(activity.input_quiet_for(50, 150));
    let mut pulled = neutral();
    pulled.left_trigger.engaged = true;
    activity.note_gamepad_activity(&pulled, 300);
    assert!(!activity.input_quiet_for(50, 300));
}
