//! Laws of the input channel: what a console that reads the wire finds there.

use crate::input;
use crate::input::{
    GamepadFrame, InputClock, MetadataFrame, PointerEvent, QueuedVideoMetadata, ReportType,
};
use vstd::prelude::*;

verus! {

use crate::input::{InputPacketView, InputQueueView};

// Reading the wire.

/// The number that two bytes state, the lower first.
pub open spec fn read_u16(bytes: Seq<u8>, at: int) -> int {
    bytes[at] + 0x100 * bytes[at + 1]
}

/// The number that four bytes state, the lowest first.
pub open spec fn read_u32(bytes: Seq<u8>, at: int) -> int {
    bytes[at] + 0x100 * bytes[at + 1] + 0x1_0000 * bytes[at + 2] + 0x100_0000 * bytes[at + 3]
}

/// The signed number that two bytes state, the lower first.
pub open spec fn read_i16(bytes: Seq<u8>, at: int) -> int {
    if read_u16(bytes, at) >= 0x8000 {
        read_u16(bytes, at) - 0x1_0000
    } else {
        read_u16(bytes, at)
    }
}

proof fn lemma_two_bytes(value: int)
    requires
        0 <= value < 0x1_0000,
    ensures
        input::le_bytes(value, 2).len() == 2,
        read_u16(input::le_bytes(value, 2), 0) == value,
{
    reveal_with_fuel(input::le_bytes, 3);
    let bytes = input::le_bytes(value, 2);
    assert(bytes[0] == value % 256);
    assert(bytes[1] == value / 256 % 256);
}

proof fn lemma_four_bytes(value: int)
    requires
        0 <= value < 0x1_0000_0000,
    ensures
        input::le_bytes(value, 4).len() == 4,
        read_u32(input::le_bytes(value, 4), 0) == value,
{
    reveal_with_fuel(input::le_bytes, 5);
    let bytes = input::le_bytes(value, 4);
    assert(bytes[0] == value % 256);
    assert(bytes[1] == value / 256 % 256);
    assert(bytes[2] == value / 256 / 256 % 256);
    assert(bytes[3] == value / 256 / 256 / 256 % 256);
}

proof fn lemma_eight_bytes(value: int)
    requires
        0 <= value < 0x1_0000_0000_0000_0000,
    ensures
        input::le_bytes(value, 8).len() == 8,
        read_u32(input::le_bytes(value, 8), 0) + 0x1_0000_0000 * read_u32(
            input::le_bytes(value, 8),
            4,
        ) == value,
{
    reveal_with_fuel(input::le_bytes, 5);
    let low = value % 0x1_0000_0000;
    let high = value / 0x1_0000_0000;
    let bytes = input::le_bytes(value, 8);
    let rest = input::le_bytes(high, 4);
    lemma_four_bytes(high);
    assert(value / 256 / 256 / 256 / 256 == high);
    assert(bytes =~= seq![
        (value % 256) as u8,
        (value / 256 % 256) as u8,
        (value / 256 / 256 % 256) as u8,
        (value / 256 / 256 / 256 % 256) as u8,
    ] + rest);
    assert(read_u32(bytes, 4) == read_u32(rest, 0));
    assert(read_u32(bytes, 0) == low);
}

// Buttons.

proof fn lemma_mask_on_the_wire(frame: GamepadFrame)
    requires
        input::le_bytes(input::button_mask(frame), 2).len() == 2,
    ensures
        read_u16(input::gamepad_bytes(frame), 1) == read_u16(
            input::le_bytes(input::button_mask(frame), 2),
            0,
        ),
{
    let mask = input::le_bytes(input::button_mask(frame), 2);
    let start = seq![frame.gamepad_index] + mask;
    let bytes = input::gamepad_bytes(frame);
    assert(bytes =~= start + (input::stick_bytes(frame) + input::trigger_bytes(frame)
        + input::le_bytes(1, 4) + seq![0u8, 0u8, 0u8, 1u8]));
    assert(bytes[1] == start[1] && bytes[2] == start[2]);
}

proof fn lemma_face_bits(
    mask: u16,
    nexus: bool,
    menu: bool,
    view: bool,
    a: bool,
    b: bool,
    x: bool,
    y: bool,
)
    by (bit_vector)
    requires
        mask == (if nexus {
            2u16
        } else {
            0
        }) + (if menu {
            4u16
        } else {
            0
        }) + (if view {
            8u16
        } else {
            0
        }) + (if a {
            16u16
        } else {
            0
        }) + (if b {
            32u16
        } else {
            0
        }) + (if x {
            64u16
        } else {
            0
        }) + (if y {
            128u16
        } else {
            0
        }),
    ensures
        mask < 256,
        mask % 2 == 0,
        mask / 2 % 2 == 1 <==> nexus,
        mask / 4 % 2 == 1 <==> menu,
        mask / 8 % 2 == 1 <==> view,
        mask / 16 % 2 == 1 <==> a,
        mask / 32 % 2 == 1 <==> b,
        mask / 64 % 2 == 1 <==> x,
        mask / 128 % 2 == 1 <==> y,
{
}

proof fn lemma_other_bits(
    mask: u16,
    dpad_up: bool,
    dpad_down: bool,
    dpad_left: bool,
    dpad_right: bool,
    left_shoulder: bool,
    right_shoulder: bool,
    left_thumb: bool,
    right_thumb: bool,
)
    by (bit_vector)
    requires
        mask == (if dpad_up {
            256u16
        } else {
            0
        }) + (if dpad_down {
            512u16
        } else {
            0
        }) + (if dpad_left {
            1024u16
        } else {
            0
        }) + (if dpad_right {
            2048u16
        } else {
            0
        }) + (if left_shoulder {
            4096u16
        } else {
            0
        }) + (if right_shoulder {
            8192u16
        } else {
            0
        }) + (if left_thumb {
            16384u16
        } else {
            0
        }) + (if right_thumb {
            32768u16
        } else {
            0
        }),
    ensures
        mask % 256 == 0,
        mask / 256 % 2 == 1 <==> dpad_up,
        mask / 512 % 2 == 1 <==> dpad_down,
        mask / 1024 % 2 == 1 <==> dpad_left,
        mask / 2048 % 2 == 1 <==> dpad_right,
        mask / 4096 % 2 == 1 <==> left_shoulder,
        mask / 8192 % 2 == 1 <==> right_shoulder,
        mask / 16384 % 2 == 1 <==> left_thumb,
        mask / 32768 % 2 == 1 <==> right_thumb,
{
}

proof fn lemma_face(frame: GamepadFrame)
    ensures
        ({
            let mask = input::face_mask(frame) as u16;
            &&& mask == input::face_mask(frame)
            &&& mask < 256
            &&& mask % 2 == 0
            &&& mask / 2 % 2 == 1 <==> frame.nexus
            &&& mask / 4 % 2 == 1 <==> frame.menu
            &&& mask / 8 % 2 == 1 <==> frame.view
            &&& mask / 16 % 2 == 1 <==> frame.a
            &&& mask / 32 % 2 == 1 <==> frame.b
            &&& mask / 64 % 2 == 1 <==> frame.x
            &&& mask / 128 % 2 == 1 <==> frame.y
        }),
{
    assert(0 <= input::face_mask(frame) < 256);
    lemma_face_bits(
        input::face_mask(frame) as u16,
        frame.nexus,
        frame.menu,
        frame.view,
        frame.a,
        frame.b,
        frame.x,
        frame.y,
    );
}

proof fn lemma_other(frame: GamepadFrame)
    ensures
        ({
            let mask = input::other_mask(frame) as u16;
            &&& mask == input::other_mask(frame)
            &&& mask % 256 == 0
            &&& mask / 256 % 2 == 1 <==> frame.dpad_up
            &&& mask / 512 % 2 == 1 <==> frame.dpad_down
            &&& mask / 1024 % 2 == 1 <==> frame.dpad_left
            &&& mask / 2048 % 2 == 1 <==> frame.dpad_right
            &&& mask / 4096 % 2 == 1 <==> frame.left_shoulder
            &&& mask / 8192 % 2 == 1 <==> frame.right_shoulder
            &&& mask / 16384 % 2 == 1 <==> frame.left_thumb
            &&& mask / 32768 % 2 == 1 <==> frame.right_thumb
        }),
{
    assert(0 <= input::other_mask(frame) < 0x1_0000);
    lemma_other_bits(
        input::other_mask(frame) as u16,
        frame.dpad_up,
        frame.dpad_down,
        frame.dpad_left,
        frame.dpad_right,
        frame.left_shoulder,
        frame.right_shoulder,
        frame.left_thumb,
        frame.right_thumb,
    );
}

proof fn lemma_halves(face: u16, other: u16, mask: u16)
    by (bit_vector)
    requires
        face < 256,
        face % 2 == 0,
        other % 256 == 0,
        mask == face | other,
    ensures
        mask == face + other,
        mask % 2 == 0,
        mask / 2 % 2 == face / 2 % 2,
        mask / 4 % 2 == face / 4 % 2,
        mask / 8 % 2 == face / 8 % 2,
        mask / 16 % 2 == face / 16 % 2,
        mask / 32 % 2 == face / 32 % 2,
        mask / 64 % 2 == face / 64 % 2,
        mask / 128 % 2 == face / 128 % 2,
        mask / 256 % 2 == other / 256 % 2,
        mask / 512 % 2 == other / 512 % 2,
        mask / 1024 % 2 == other / 1024 % 2,
        mask / 2048 % 2 == other / 2048 % 2,
        mask / 4096 % 2 == other / 4096 % 2,
        mask / 8192 % 2 == other / 8192 % 2,
        mask / 16384 % 2 == other / 16384 % 2,
        mask / 32768 % 2 == other / 32768 % 2,
{
}

/// Each of the fifteen buttons has a bit of its own in the mask on the wire, which is set exactly
/// when that button is pressed, whatever the other buttons are. The lowest bit is never set.
pub proof fn every_button_has_its_bit(frame: GamepadFrame)
    ensures
        ({
            let mask = read_u16(input::gamepad_bytes(frame), 1);
            &&& mask % 2 == 0
            &&& mask / 2 % 2 == 1 <==> frame.nexus
            &&& mask / 4 % 2 == 1 <==> frame.menu
            &&& mask / 8 % 2 == 1 <==> frame.view
            &&& mask / 16 % 2 == 1 <==> frame.a
            &&& mask / 32 % 2 == 1 <==> frame.b
            &&& mask / 64 % 2 == 1 <==> frame.x
            &&& mask / 128 % 2 == 1 <==> frame.y
            &&& mask / 256 % 2 == 1 <==> frame.dpad_up
            &&& mask / 512 % 2 == 1 <==> frame.dpad_down
            &&& mask / 1024 % 2 == 1 <==> frame.dpad_left
            &&& mask / 2048 % 2 == 1 <==> frame.dpad_right
            &&& mask / 4096 % 2 == 1 <==> frame.left_shoulder
            &&& mask / 8192 % 2 == 1 <==> frame.right_shoulder
            &&& mask / 16384 % 2 == 1 <==> frame.left_thumb
            &&& mask / 32768 % 2 == 1 <==> frame.right_thumb
        }),
{
    let face = input::face_mask(frame) as u16;
    let other = input::other_mask(frame) as u16;
    let mask = face | other;
    lemma_face(frame);
    lemma_other(frame);
    lemma_halves(face, other, mask);
    assert(input::button_mask(frame) == mask);
    lemma_two_bytes(mask as int);
    lemma_mask_on_the_wire(frame);
}

// Render timing.

/// The report on each frame of a drained batch states that frame itself: its key, and as arrival
/// and submission the whole milliseconds from the start of the session to its own arrival, round
/// the circle of 32 bits. Every report states the moment of the drain as decoded and rendered.
pub proof fn every_report_states_its_own_frame(
    queue: Seq<QueuedVideoMetadata>,
    session_start_ns: u64,
    now_ns: u64,
    i: int,
)
    requires
        0 <= i < queue.len(),
    ensures
        ({
            let reports = input::timing_reports(queue, session_start_ns, now_ns);
            let arrived = if queue[i].arrival_ns >= session_start_ns {
                queue[i].arrival_ns - session_start_ns
            } else {
                0
            };
            let drained = if now_ns >= session_start_ns {
                now_ns - session_start_ns
            } else {
                0
            };
            &&& reports.len() == queue.len()
            &&& reports[i].server_data_key == queue[i].server_data_key
            &&& reports[i].first_frame_packet_arrival_ms == arrived / 1_000_000 % 0x1_0000_0000
            &&& reports[i].frame_submitted_ms == arrived / 1_000_000 % 0x1_0000_0000
            &&& reports[i].frame_decoded_ms == drained / 1_000_000 % 0x1_0000_0000
            &&& reports[i].frame_rendered_ms == drained / 1_000_000 % 0x1_0000_0000
        }),
{
}

// Reports on the wire.

/// A render-timing report is 28 bytes long: the frame's key and its four times, each in four
/// bytes, and eight bytes that are zero.
pub proof fn a_timing_report_reads_back(frame: MetadataFrame)
    ensures
        ({
            let bytes = input::metadata_bytes(frame);
            &&& bytes.len() == 28
            &&& read_u32(bytes, 0) == frame.server_data_key
            &&& read_u32(bytes, 4) == frame.first_frame_packet_arrival_ms
            &&& read_u32(bytes, 8) == frame.frame_submitted_ms
            &&& read_u32(bytes, 12) == frame.frame_decoded_ms
            &&& read_u32(bytes, 16) == frame.frame_rendered_ms
            &&& read_u32(bytes, 20) == 0
            &&& read_u32(bytes, 24) == 0
        }),
{
    lemma_four_bytes(frame.server_data_key as int);
    lemma_four_bytes(frame.first_frame_packet_arrival_ms as int);
    lemma_four_bytes(frame.frame_submitted_ms as int);
    lemma_four_bytes(frame.frame_decoded_ms as int);
    lemma_four_bytes(frame.frame_rendered_ms as int);
    lemma_four_bytes(0);
}

/// A stick's deflection turned round: up is positive in a sample and negative on the wire. The
/// one deflection without an opposite becomes the largest.
pub open spec fn turned(deflection: i16) -> int {
    if deflection == -32768 {
        32767
    } else {
        -(deflection as int)
    }
}

proof fn lemma_signed(value: i16)
    ensures
        input::le_bytes(input::twos_complement(value), 2).len() == 2,
        read_i16(input::le_bytes(input::twos_complement(value), 2), 0) == value,
{
    lemma_two_bytes(input::twos_complement(value));
}

proof fn lemma_sticks(frame: GamepadFrame)
    ensures
        ({
            let bytes = input::stick_bytes(frame);
            &&& bytes.len() == 8
            &&& read_i16(bytes, 0) == frame.left_thumb_x_axis.deflection
            &&& read_i16(bytes, 2) == turned(frame.left_thumb_y_axis.deflection)
            &&& read_i16(bytes, 4) == frame.right_thumb_x_axis.deflection
            &&& read_i16(bytes, 6) == turned(frame.right_thumb_y_axis.deflection)
        }),
{
    lemma_signed(frame.left_thumb_x_axis.deflection);
    lemma_signed(input::opposite(frame.left_thumb_y_axis.deflection));
    lemma_signed(frame.right_thumb_x_axis.deflection);
    lemma_signed(input::opposite(frame.right_thumb_y_axis.deflection));
}

proof fn lemma_triggers(frame: GamepadFrame)
    ensures
        ({
            let bytes = input::trigger_bytes(frame);
            &&& bytes.len() == 4
            &&& read_u16(bytes, 0) == frame.left_trigger.level
            &&& read_u16(bytes, 2) == frame.right_trigger.level
        }),
{
    lemma_two_bytes(frame.left_trigger.level as int);
    lemma_two_bytes(frame.right_trigger.level as int);
}

/// A gamepad sample is 23 bytes long: the gamepad's index, two bytes of buttons, the left and then
/// the right stick with across before up, the left and then the right trigger, and a one in
/// either byte order.
pub proof fn a_gamepad_sample_reads_back(frame: GamepadFrame)
    ensures
        ({
            let bytes = input::gamepad_bytes(frame);
            &&& bytes.len() == 23
            &&& bytes[0] == frame.gamepad_index
            &&& read_i16(bytes, 3) == frame.left_thumb_x_axis.deflection
            &&& read_i16(bytes, 5) == turned(frame.left_thumb_y_axis.deflection)
            &&& read_i16(bytes, 7) == frame.right_thumb_x_axis.deflection
            &&& read_i16(bytes, 9) == turned(frame.right_thumb_y_axis.deflection)
            &&& read_u16(bytes, 11) == frame.left_trigger.level
            &&& read_u16(bytes, 13) == frame.right_trigger.level
            &&& read_u32(bytes, 15) == 1
            &&& bytes.skip(19) == seq![0u8, 0u8, 0u8, 1u8]
        }),
{
    lemma_sticks(frame);
    lemma_triggers(frame);
    lemma_four_bytes(1);
    input::lemma_le_bytes_len(input::button_mask(frame), 2);
    let sticks = input::stick_bytes(frame);
    let triggers = input::trigger_bytes(frame);
    let bytes = input::gamepad_bytes(frame);
    assert(bytes.skip(3).take(8) =~= sticks);
    assert(bytes.skip(11).take(4) =~= triggers);
    assert(bytes.skip(15).take(4) =~= input::le_bytes(1, 4));
    assert(bytes.skip(19) =~= seq![0u8, 0u8, 0u8, 1u8]);
    assert forall|k: int| 0 <= k < 8 implies #[trigger] sticks[k] == bytes[k + 3] by {}
    assert forall|k: int| 0 <= k < 4 implies #[trigger] triggers[k] == bytes[k + 11] by {}
    assert(read_i16(bytes, 3) == read_i16(sticks, 0));
    assert(read_i16(bytes, 5) == read_i16(sticks, 2));
    assert(read_i16(bytes, 7) == read_i16(sticks, 4));
    assert(read_i16(bytes, 9) == read_i16(sticks, 6));
    assert(read_u16(bytes, 11) == read_u16(triggers, 0));
    assert(read_u16(bytes, 13) == read_u16(triggers, 2));
    assert(read_u32(bytes, 15) == read_u32(input::le_bytes(1, 4), 0));
}

/// A touch is 20 bytes long: the two sizes of its contact, pressure, twist, four bytes that are
/// zero, where it is, and what kind of event it is.
pub proof fn a_touch_reads_back(event: PointerEvent)
    ensures
        ({
            let bytes = input::pointer_bytes(event);
            &&& bytes.len() == 20
            &&& read_u16(bytes, 0) == event.contact_major
            &&& read_u16(bytes, 2) == event.contact_minor
            &&& bytes[4] == event.pressure
            &&& read_u16(bytes, 5) == event.twist
            &&& read_u32(bytes, 7) == 0
            &&& read_u32(bytes, 11) == event.x
            &&& read_u32(bytes, 15) == event.y
            &&& bytes[19] == event.event_type
        }),
{
    lemma_two_bytes(event.contact_major as int);
    lemma_two_bytes(event.contact_minor as int);
    lemma_two_bytes(event.twist as int);
    lemma_four_bytes(0);
    lemma_four_bytes(event.x as int);
    lemma_four_bytes(event.y as int);
}

// Packets on the wire.

proof fn lemma_report_at(frames: Seq<MetadataFrame>, i: int)
    requires
        0 <= i < frames.len(),
    ensures
        input::all_metadata_bytes(frames).subrange(28 * i, 28 * i + 28) == input::metadata_bytes(
            frames[i],
        ),
    decreases frames.len(),
{
    let before = frames.drop_last();
    input::lemma_metadata_len(frames);
    input::lemma_metadata_len(before);
    a_timing_report_reads_back(frames.last());
    let bytes = input::all_metadata_bytes(frames);
    if i < frames.len() - 1 {
        lemma_report_at(before, i);
        assert(bytes.subrange(28 * i, 28 * i + 28) =~= input::all_metadata_bytes(before).subrange(
            28 * i,
            28 * i + 28,
        ));
    } else {
        assert(bytes.subrange(28 * i, 28 * i + 28) =~= input::metadata_bytes(frames.last()));
    }
}

proof fn lemma_sample_at(frames: Seq<GamepadFrame>, i: int)
    requires
        0 <= i < frames.len(),
    ensures
        input::all_gamepad_bytes(frames).subrange(23 * i, 23 * i + 23) == input::gamepad_bytes(
            frames[i],
        ),
    decreases frames.len(),
{
    let before = frames.drop_last();
    input::lemma_gamepads_len(frames);
    input::lemma_gamepads_len(before);
    a_gamepad_sample_reads_back(frames.last());
    let bytes = input::all_gamepad_bytes(frames);
    if i < frames.len() - 1 {
        lemma_sample_at(before, i);
        assert(bytes.subrange(23 * i, 23 * i + 23) =~= input::all_gamepad_bytes(before).subrange(
            23 * i,
            23 * i + 23,
        ));
    } else {
        assert(bytes.subrange(23 * i, 23 * i + 23) =~= input::gamepad_bytes(frames.last()));
    }
}

proof fn lemma_touch_at(events: Seq<PointerEvent>, i: int)
    requires
        0 <= i < events.len(),
    ensures
        input::all_pointer_bytes(events).subrange(20 * i, 20 * i + 20) == input::pointer_bytes(
            events[i],
        ),
    decreases events.len(),
{
    let before = events.drop_last();
    input::lemma_pointers_len(events);
    input::lemma_pointers_len(before);
    a_touch_reads_back(events.last());
    let bytes = input::all_pointer_bytes(events);
    if i < events.len() - 1 {
        lemma_touch_at(before, i);
        assert(bytes.subrange(20 * i, 20 * i + 20) =~= input::all_pointer_bytes(before).subrange(
            20 * i,
            20 * i + 20,
        ));
    } else {
        assert(bytes.subrange(20 * i, 20 * i + 20) =~= input::pointer_bytes(events.last()));
    }
}

/// Where the gamepad samples of a packet begin, behind the header and so many timing reports.
pub open spec fn samples_at(reports: int) -> int {
    if reports > 0 {
        15 + 28 * reports
    } else {
        14
    }
}

/// Where the touches of a packet begin, behind the timing reports and so many samples.
pub open spec fn touches_at(reports: int, samples: int) -> int {
    if samples > 0 {
        samples_at(reports) + 1 + 23 * samples
    } else {
        samples_at(reports)
    }
}

proof fn lemma_packet_parts(packet: InputPacketView, uptime_bits: u64)
    ensures
        ({
            let bytes = input::packet_bytes(packet, uptime_bits);
            let m = packet.metadata_frames.len() as int;
            let g = packet.gamepad_frames.len() as int;
            let p = packet.pointer_frames;
            &&& bytes.len() >= 14
            &&& bytes.subrange(0, 2) == input::le_bytes(packet.report_type as int, 2)
            &&& bytes.subrange(2, 6) == input::le_bytes(packet.sequence as int, 4)
            &&& bytes.subrange(6, 14) == input::le_bytes(uptime_bits as int, 8)
            &&& m > 0 ==> bytes.len() >= samples_at(m) && bytes[14] == m % 256 && bytes.subrange(
                15,
                15 + 28 * m,
            ) == input::all_metadata_bytes(packet.metadata_frames)
            &&& g > 0 ==> bytes.len() >= touches_at(m, g) && bytes[samples_at(m)] == g % 256
                && bytes.subrange(samples_at(m) + 1, samples_at(m) + 1 + 23 * g)
                == input::all_gamepad_bytes(packet.gamepad_frames)
            &&& p.len() > 0 ==> {
                let at = touches_at(m, g);
                &&& bytes.len() >= at + 2 + 20 * p[0].len()
                &&& bytes[at] == 1
                &&& bytes[at + 1] == p[0].len() % 256
                &&& bytes.subrange(at + 2, at + 2 + 20 * p[0].len()) == input::all_pointer_bytes(
                    p[0],
                )
            }
        }),
{
    input::lemma_le_bytes_len(packet.report_type as int, 2);
    input::lemma_le_bytes_len(packet.sequence as int, 4);
    input::lemma_le_bytes_len(uptime_bits as int, 8);
    input::lemma_metadata_len(packet.metadata_frames);
    input::lemma_gamepads_len(packet.gamepad_frames);
    let m = packet.metadata_frames.len() as int;
    let g = packet.gamepad_frames.len() as int;
    let p = packet.pointer_frames;
    let header = input::le_bytes(packet.report_type as int, 2) + input::le_bytes(
        packet.sequence as int,
        4,
    ) + input::le_bytes(uptime_bits as int, 8);
    let reports = if m > 0 {
        input::count_byte(m) + input::all_metadata_bytes(packet.metadata_frames)
    } else {
        Seq::empty()
    };
    let samples = if g > 0 {
        input::count_byte(g) + input::all_gamepad_bytes(packet.gamepad_frames)
    } else {
        Seq::empty()
    };
    let touches = if p.len() > 0 {
        seq![1u8] + input::count_byte(p[0].len() as int) + input::all_pointer_bytes(p[0])
    } else {
        Seq::empty()
    };
    let touch_points = if packet.report_type == input::report_bit(ReportType::ClientMetadata) {
        seq![packet.max_touchpoints]
    } else {
        Seq::empty()
    };
    let bytes = input::packet_bytes(packet, uptime_bits);
    assert(bytes == header + reports + samples + touches + touch_points);
    assert(header.subrange(0, 2) =~= input::le_bytes(packet.report_type as int, 2));
    assert(header.subrange(2, 6) =~= input::le_bytes(packet.sequence as int, 4));
    assert(header.subrange(6, 14) =~= input::le_bytes(uptime_bits as int, 8));
    assert(bytes.subrange(0, 2) =~= header.subrange(0, 2));
    assert(bytes.subrange(2, 6) =~= header.subrange(2, 6));
    assert(bytes.subrange(6, 14) =~= header.subrange(6, 14));
    if m > 0 {
        assert(bytes.subrange(14, 15 + 28 * m) =~= reports);
        assert(bytes[14] == reports[0]);
        assert(bytes.subrange(15, 15 + 28 * m) =~= input::all_metadata_bytes(
            packet.metadata_frames,
        ));
    }
    if g > 0 {
        let at = samples_at(m);
        assert(header.len() + reports.len() == at);
        assert(bytes[at] == samples[0]);
        assert(bytes.subrange(at + 1, at + 1 + 23 * g) =~= input::all_gamepad_bytes(
            packet.gamepad_frames,
        ));
    }
    if p.len() > 0 {
        input::lemma_pointers_len(p[0]);
        let at = touches_at(m, g);
        assert(header.len() + reports.len() + samples.len() == at);
        assert(bytes[at] == touches[0]);
        assert(bytes[at + 1] == touches[1]);
        assert(bytes.subrange(at + 2, at + 2 + 20 * p[0].len()) =~= input::all_pointer_bytes(p[0]));
    }
}

/// What goes out is readable from the front: the kinds of report that it holds, its number, the
/// uptime, and for each kind that it holds a count and then every report in the order it was put
/// in. The number is the one after the last packet's, round the circle of 32 bits. Touches come
/// as one frame.
pub proof fn a_packet_reads_back(
    queue: InputQueueView,
    force_send: bool,
    metadata: Seq<QueuedVideoMetadata>,
    clock: InputClock,
)
    requires
        input::flushed(queue, force_send, metadata, clock).0 is Some,
    ensures
        ({
            let bytes = input::flushed(queue, force_send, metadata, clock).0->0;
            let m = metadata.len() as int;
            let g = queue.gamepads.len() as int;
            let reports = input::timing_reports(metadata, clock.session_start_ns, clock.now_ns);
            &&& bytes.len() >= 14
            &&& read_u16(bytes, 0) == (if m > 0 {
                1int
            } else {
                0
            }) + (if g > 0 {
                2int
            } else {
                0
            }) + (if queue.pointers.len() > 0 {
                4int
            } else {
                0
            })
            &&& read_u32(bytes, 2) == (queue.sequence + 1) % 0x1_0000_0000
            &&& read_u32(bytes, 6) + 0x1_0000_0000 * read_u32(bytes, 10) == clock.uptime_bits
            &&& m > 0 ==> bytes[14] == m % 256
            &&& forall|i: int|
                0 <= i < m ==> bytes.subrange(15 + 28 * i, 43 + 28 * i) == input::metadata_bytes(
                    #[trigger] reports[i],
                )
            &&& g > 0 ==> bytes[samples_at(m)] == g % 256
            &&& forall|i: int|
                0 <= i < g ==> bytes.subrange(
                    samples_at(m) + 1 + 23 * i,
                    samples_at(m) + 24 + 23 * i,
                ) == input::gamepad_bytes(#[trigger] queue.gamepads[i])
            &&& queue.pointers.len() > 0 ==> {
                let at = touches_at(m, g);
                let touches = queue.pointers[0];
                &&& bytes[at] == 1
                &&& bytes[at + 1] == touches.len() % 256
                &&& forall|i: int|
                    0 <= i < touches.len() ==> bytes.subrange(at + 2 + 20 * i, at + 22 + 20 * i)
                        == input::pointer_bytes(#[trigger] touches[i])
            }
        }),
{
    let packet = input::queued_packet(queue, metadata, clock);
    let bytes = input::flushed(queue, force_send, metadata, clock).0->0;
    let m = metadata.len() as int;
    let g = queue.gamepads.len() as int;
    let reports = input::timing_reports(metadata, clock.session_start_ns, clock.now_ns);
    lemma_packet_parts(packet, clock.uptime_bits);
    input::reported_kinds_are_the_kinds_held(packet.sequence, reports, queue.gamepads, queue.pointers);
    lemma_two_bytes(packet.report_type as int);
    lemma_four_bytes(packet.sequence as int);
    lemma_eight_bytes(clock.uptime_bits as int);
    let kind = bytes.subrange(0, 2);
    let number = bytes.subrange(2, 6);
    let uptime = bytes.subrange(6, 14);
    assert(read_u16(bytes, 0) == read_u16(kind, 0));
    assert(read_u32(bytes, 2) == read_u32(number, 0));
    assert(read_u32(bytes, 6) == read_u32(uptime, 0));
    assert(read_u32(bytes, 10) == read_u32(uptime, 4));
    assert forall|i: int| 0 <= i < m implies bytes.subrange(15 + 28 * i, 43 + 28 * i)
        == input::metadata_bytes(#[trigger] reports[i]) by {
        lemma_report_at(reports, i);
        input::lemma_metadata_len(reports);
        let all = input::all_metadata_bytes(reports);
        assert(all.subrange(28 * i, 28 * i + 28) =~= bytes.subrange(15 + 28 * i, 43 + 28 * i));
    }
    assert forall|i: int| 0 <= i < g implies bytes.subrange(
        samples_at(m) + 1 + 23 * i,
        samples_at(m) + 24 + 23 * i,
    ) == input::gamepad_bytes(#[trigger] queue.gamepads[i]) by {
        lemma_sample_at(queue.gamepads, i);
        input::lemma_gamepads_len(queue.gamepads);
        let all = input::all_gamepad_bytes(queue.gamepads);
        assert(all.subrange(23 * i, 23 * i + 23) =~= bytes.subrange(
            samples_at(m) + 1 + 23 * i,
            samples_at(m) + 24 + 23 * i,
        ));
    }
    if queue.pointers.len() > 0 {
        let at = touches_at(m, g);
        let touches = queue.pointers[0];
        assert forall|i: int| 0 <= i < touches.len() implies bytes.subrange(
            at + 2 + 20 * i,
            at + 22 + 20 * i,
        ) == input::pointer_bytes(#[trigger] touches[i]) by {
            lemma_touch_at(touches, i);
            input::lemma_pointers_len(touches);
            let all = input::all_pointer_bytes(touches);
            assert(all.subrange(20 * i, 20 * i + 20) =~= bytes.subrange(
                at + 2 + 20 * i,
                at + 22 + 20 * i,
            ));
        }
    }
}

/// A packet goes out when that is asked for, when there is any input, or when the frame that has
/// waited longest for its report came thirty milliseconds ago or more; and never otherwise. What
/// does not go out is kept.
pub proof fn packets_go_out_when_there_is_something_to_say(
    queue: InputQueueView,
    force_send: bool,
    metadata: Seq<QueuedVideoMetadata>,
    clock: InputClock,
)
    ensures
        ({
            let (packet, after) = input::flushed(queue, force_send, metadata, clock);
            let left = input::metadata_after(queue, force_send, metadata, clock);
            &&& packet is Some <==> (force_send || queue.gamepads.len() > 0
                || queue.pointers.len() > 0 || (metadata.len() > 0 && clock.now_ns
                >= metadata[0].arrival_ns + 30_000_000))
            &&& packet is Some ==> after.gamepads.len() == 0 && after.pointers.len() == 0
                && after.sequence == (queue.sequence + 1) % 0x1_0000_0000 && left.len() == 0
            &&& packet is None ==> after == queue && left == metadata
        }),
{
}

/// The queue of waiting frames holds the latest ones, at most 240, in the order they came, the
/// new one last; at most the oldest is forgotten for it.
pub proof fn only_the_oldest_frame_is_forgotten(
    queue: Seq<QueuedVideoMetadata>,
    queued: QueuedVideoMetadata,
)
    requires
        queue.len() <= 240,
    ensures
        ({
            let after = input::with_metadata(queue, queued);
            let forgotten = if queue.len() == 240 {
                1int
            } else {
                0
            };
            &&& after.len() == queue.len() + 1 - forgotten
            &&& after.last() == queued
            &&& forall|i: int|
                0 <= i < after.len() - 1 ==> #[trigger] after[i] == queue[i + forgotten]
        }),
{
}

/// A sample shows activity exactly when a button is pressed, so that some bit of the mask on the
/// wire is set, or a stick or a trigger is moved out of its rest.
pub proof fn any_control_in_use_is_activity(frame: GamepadFrame)
    ensures
        input::is_active(frame) <==> read_u16(input::gamepad_bytes(frame), 1) != 0
            || frame.left_thumb_x_axis.engaged || frame.left_thumb_y_axis.engaged
            || frame.right_thumb_x_axis.engaged || frame.right_thumb_y_axis.engaged
            || frame.left_trigger.engaged || frame.right_trigger.engaged,
{
    every_button_has_its_bit(frame);
    let pressed = frame.nexus || frame.menu || frame.view || frame.a || frame.b || frame.x
        || frame.y || frame.dpad_up || frame.dpad_down || frame.dpad_left || frame.dpad_right
        || frame.left_shoulder || frame.right_shoulder || frame.left_thumb || frame.right_thumb;
    if !pressed {
        assert(input::button_mask(frame) == 0);
        lemma_two_bytes(0);
        lemma_mask_on_the_wire(frame);
    }
}

} // verus!
