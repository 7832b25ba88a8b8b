//! Wire format of the console's "input" data channel: gamepad, pointer and render-timing
//! reports.

use std::collections::VecDeque;
use vstd::prelude::*;

verus! {

/// The kinds of report that a packet can hold.
#[derive(Debug, Clone, Copy, PartialEq, Eq, Structural)]
pub enum ReportType {
    /// No report at all.
    Empty,
    Metadata,
    Gamepad,
    Pointer,
    ClientMetadata,
    ServerMetadata,
}

/// The bit that stands for a kind of report on the wire.
pub open spec fn report_bit(report_type: ReportType) -> u16 {
    match report_type {
        ReportType::Empty => 0,
        ReportType::Metadata => 1,
        ReportType::Gamepad => 2,
        ReportType::Pointer => 4,
        ReportType::ClientMetadata => 8,
        ReportType::ServerMetadata => 16,
    }
}

impl ReportType {
    /// The bit that stands for the kind of report on the wire.
    pub fn bits(self) -> (bits: u16)
        ensures
            bits == report_bit(self),
    {
        match self {
            ReportType::Empty => 0,
            ReportType::Metadata => 1,
            ReportType::Gamepad => 2,
            ReportType::Pointer => 4,
            ReportType::ClientMetadata => 8,
            ReportType::ServerMetadata => 16,
        }
    }
}

/// Render timing of one frame, keyed by its RTP timestamp. The console paces its pipeline by
/// these.
#[derive(Debug, Clone, Copy, PartialEq, Eq, Structural)]
pub struct MetadataFrame {
    pub server_data_key: u32,
    pub first_frame_packet_arrival_ms: u32,
    pub frame_submitted_ms: u32,
    pub frame_decoded_ms: u32,
    pub frame_rendered_ms: u32,
}

/// A stick axis.
#[derive(Debug, Clone, Copy, PartialEq, Eq, Structural)]
pub struct Axis {
    /// Whether the stick is off its centre at all.
    pub engaged: bool,
    /// The deflection, from -32767 to 32767.
    pub deflection: i16,
}

/// A trigger.
#[derive(Debug, Clone, Copy, PartialEq, Eq, Structural)]
pub struct Trigger {
    /// Whether the trigger is pulled at all.
    pub engaged: bool,
    /// How far it is pulled.
    pub level: u16,
}

/// One sample of a gamepad. Sticks point up and right where their deflection is positive.
#[derive(Debug, Clone, Copy, PartialEq, Eq, Structural)]
pub struct GamepadFrame {
    pub gamepad_index: u8,
    pub nexus: bool,
    pub menu: bool,
    pub view: bool,
    pub a: bool,
    pub b: bool,
    pub x: bool,
    pub y: bool,
    pub dpad_up: bool,
    pub dpad_down: bool,
    pub dpad_left: bool,
    pub dpad_right: bool,
    pub left_shoulder: bool,
    pub right_shoulder: bool,
    pub left_thumb: bool,
    pub right_thumb: bool,
    pub left_thumb_x_axis: Axis,
    pub left_thumb_y_axis: Axis,
    pub right_thumb_x_axis: Axis,
    pub right_thumb_y_axis: Axis,
    pub left_trigger: Trigger,
    pub right_trigger: Trigger,
}

/// One touch of a pointer.
#[derive(Debug, Clone, Copy, PartialEq, Eq, Structural)]
pub struct PointerEvent {
    pub contact_major: u16,
    pub contact_minor: u16,
    pub pressure: u8,
    pub twist: u16,
    pub x: u32,
    pub y: u32,
    pub event_type: u8,
}

/// Touches that are reported together.
#[derive(Debug, Clone)]
pub struct PointerFrame {
    pub events: Vec<PointerEvent>,
}

impl Default for PointerFrame {
    fn default() -> (frame: Self)
        ensures
            frame.events@ == Seq::<PointerEvent>::empty(),
    {
        PointerFrame { events: Vec::new() }
    }
}

// Numbers on the wire.

/// A number in `n` bytes, the lowest first.
pub open spec fn le_bytes(value: int, n: nat) -> Seq<u8>
    decreases n,
{
    if n == 0 {
        Seq::empty()
    } else {
        seq![(value % 256) as u8] + le_bytes(value / 256, (n - 1) as nat)
    }
}

fn push_le<const N: usize>(bytes: &mut Vec<u8>, raw: [u8; N])
    ensures
        final(bytes)@ == old(bytes)@ + raw@,
{
    let mut i: usize = 0;
    while i < N
        invariant
            i <= N,
            bytes@ == old(bytes)@ + raw@.take(i as int),
        decreases N - i,
    {
        bytes.push(raw[i]);
        assert(raw@.take(i + 1) =~= raw@.take(i as int).push(raw@[i as int]));
        i = i + 1;
    }
    assert(raw@.take(N as int) =~= raw@);
}

fn push_u16(bytes: &mut Vec<u8>, value: u16)
    ensures
        final(bytes)@ == old(bytes)@ + le_bytes(value as int, 2),
{
    let raw: [u8; 2] = [(value % 256) as u8, (value / 256) as u8];
    proof {
        reveal_with_fuel(le_bytes, 3);
        assert(raw@ =~= le_bytes(value as int, 2));
    }
    push_le(bytes, raw);
}

fn push_u32(bytes: &mut Vec<u8>, value: u32)
    ensures
        final(bytes)@ == old(bytes)@ + le_bytes(value as int, 4),
{
    let raw: [u8; 4] = [
        (value % 256) as u8,
        (value / 256 % 256) as u8,
        (value / 256 / 256 % 256) as u8,
        (value / 256 / 256 / 256) as u8,
    ];
    proof {
        reveal_with_fuel(le_bytes, 5);
        assert(raw@ =~= le_bytes(value as int, 4));
    }
    push_le(bytes, raw);
}

fn push_u64(bytes: &mut Vec<u8>, value: u64)
    ensures
        final(bytes)@ == old(bytes)@ + le_bytes(value as int, 8),
{
    let mut rest: u64 = value;
    let mut n: u64 = 8;
    assert(old(bytes)@ + le_bytes(value as int, 8) == bytes@ + le_bytes(rest as int, n as nat));
    while n > 0
        invariant
            old(bytes)@ + le_bytes(value as int, 8) == bytes@ + le_bytes(rest as int, n as nat),
        decreases n,
    {
        let ghost before = bytes@;
        bytes.push((rest % 256) as u8);
        assert(before + le_bytes(rest as int, n as nat) =~= bytes@ + le_bytes(
            rest as int / 256,
            (n - 1) as nat,
        ));
        rest = rest / 256;
        n = n - 1;
    }
    assert(bytes@ + le_bytes(rest as int, 0) =~= bytes@);
}

/// A signed 16-bit number as the unsigned one with the same bits.
pub open spec fn twos_complement(value: i16) -> int {
    if value < 0 {
        value + 0x1_0000
    } else {
        value as int
    }
}

fn push_i16(bytes: &mut Vec<u8>, value: i16)
    ensures
        final(bytes)@ == old(bytes)@ + le_bytes(twos_complement(value), 2),
{
    let wide: i32 = if value < 0 {
        value as i32 + 0x1_0000
    } else {
        value as i32
    };
    push_u16(bytes, wide as u16);
}

/// The opposite deflection; the one that has none becomes the largest.
pub open spec fn opposite(deflection: i16) -> i16 {
    if deflection == i16::MIN {
        i16::MAX
    } else {
        (-deflection) as i16
    }
}

fn opposite_of(deflection: i16) -> (negated: i16)
    ensures
        negated == opposite(deflection),
{
    if deflection == i16::MIN {
        i16::MAX
    } else {
        -deflection
    }
}

// Activity of the controls.

/// Whether a sample shows any control in use.
pub open spec fn is_active(frame: GamepadFrame) -> bool {
    ||| frame.nexus
    ||| frame.menu
    ||| frame.view
    ||| frame.a
    ||| frame.b
    ||| frame.x
    ||| frame.y
    ||| frame.dpad_up
    ||| frame.dpad_down
    ||| frame.dpad_left
    ||| frame.dpad_right
    ||| frame.left_shoulder
    ||| frame.right_shoulder
    ||| frame.left_thumb
    ||| frame.right_thumb
    ||| frame.left_thumb_x_axis.engaged
    ||| frame.left_thumb_y_axis.engaged
    ||| frame.right_thumb_x_axis.engaged
    ||| frame.right_thumb_y_axis.engaged
    ||| frame.left_trigger.engaged
    ||| frame.right_trigger.engaged
}

/// When a control was last in use. Sessions are recycled only while the controls are quiet.
#[derive(Debug, Clone, Copy)]
pub struct InputActivity {
    last_active_ns: Option<u64>,
}

impl View for InputActivity {
    type V = Option<u64>;

    closed spec fn view(&self) -> Option<u64> {
        self.last_active_ns
    }
}

impl InputActivity {
    /// No control was ever in use.
    pub fn new() -> (activity: Self)
        ensures
            activity@ is None,
    {
        InputActivity { last_active_ns: None }
    }

    /// Takes note of a sample: one that shows a control in use is remembered with its time.
    pub fn note_gamepad_activity(&mut self, frame: &GamepadFrame, now_ns: u64)
        ensures
            final(self)@ == if is_active(*frame) {
                Some(now_ns)
            } else {
                old(self)@
            },
    {
        let active = frame.nexus || frame.menu || frame.view || frame.a || frame.b || frame.x
            || frame.y || frame.dpad_up || frame.dpad_down || frame.dpad_left || frame.dpad_right
            || frame.left_shoulder || frame.right_shoulder || frame.left_thumb || frame.right_thumb
            || frame.left_thumb_x_axis.engaged || frame.left_thumb_y_axis.engaged
            || frame.right_thumb_x_axis.engaged || frame.right_thumb_y_axis.engaged
            || frame.left_trigger.engaged || frame.right_trigger.engaged;
        if active {
            self.last_active_ns = Some(now_ns);
        }
    }

    /// Whether no control has been in use for at least the given time.
    pub fn input_quiet_for(&self, min_quiet_ns: u64, now_ns: u64) -> (quiet: bool)
        ensures
            quiet == match self@ {
                Some(at) => since(at, now_ns) >= min_quiet_ns,
                None => true,
            },
    {
        match self.last_active_ns {
            Some(at) => now_ns.saturating_sub(at) >= min_quiet_ns,
            None => true,
        }
    }
}

/// The time from `at` to `now`; none when `at` lies ahead.
pub open spec fn since(at_ns: u64, now_ns: u64) -> int {
    if at_ns <= now_ns {
        now_ns - at_ns
    } else {
        0
    }
}

// Render timing.

/// The clock readings that a packet is made with.
#[derive(Debug, Clone, Copy)]
pub struct InputClock {
    /// When the session's uptime began.
    pub session_start_ns: u64,
    pub now_ns: u64,
    /// The uptime in milliseconds, as the bits of a double.
    pub uptime_bits: u64,
}

/// The uptime at a moment, in whole milliseconds round the `u32` circle; 0 before the session.
pub open spec fn uptime_ms_u32(session_start_ns: u64, at_ns: u64) -> u32 {
    (since(session_start_ns, at_ns) / 1_000_000 % 0x1_0000_0000) as u32
}

/// The uptime at a moment, in whole milliseconds round the `u32` circle; 0 before the session.
pub fn uptime_ms_u32_since(session_start_ns: u64, at_ns: u64) -> (uptime: u32)
    ensures
        uptime == uptime_ms_u32(session_start_ns, at_ns),
{
    (at_ns.saturating_sub(session_start_ns) / 1_000_000 % 0x1_0000_0000) as u32
}

/// A frame that waits for its render-timing report.
#[derive(Debug, Clone, Copy, PartialEq, Eq, Structural)]
pub struct QueuedVideoMetadata {
    pub server_data_key: u32,
    pub arrival_ns: u64,
}

/// How many frames may wait for their report; beyond that the oldest is forgotten.
pub const MAX_QUEUED_VIDEO_METADATA: usize = 240;

/// Reports go out on their own once the oldest has waited this long.
pub const METADATA_DUE_NS: u64 = 30_000_000;

/// Frames that wait for their render-timing report; the reports ride along with input packets.
#[derive(Debug)]
pub struct VideoMetadataQueue {
    queue: VecDeque<QueuedVideoMetadata>,
    sent: u64,
}

impl View for VideoMetadataQueue {
    type V = Seq<QueuedVideoMetadata>;

    closed spec fn view(&self) -> Seq<QueuedVideoMetadata> {
        self.queue@
    }
}

/// The queue after one more frame; a full queue first forgets its oldest.
pub open spec fn with_metadata(
    queue: Seq<QueuedVideoMetadata>,
    queued: QueuedVideoMetadata,
) -> Seq<QueuedVideoMetadata> {
    if queue.len() >= MAX_QUEUED_VIDEO_METADATA {
        queue.drop_first().push(queued)
    } else {
        queue.push(queued)
    }
}

/// The report on a frame: it counts as submitted when its first packet came, and as decoded and
/// rendered now.
pub open spec fn timing_report(
    queued: QueuedVideoMetadata,
    session_start_ns: u64,
    now_ns: u64,
) -> MetadataFrame {
    MetadataFrame {
        server_data_key: queued.server_data_key,
        first_frame_packet_arrival_ms: uptime_ms_u32(session_start_ns, queued.arrival_ns),
        frame_submitted_ms: uptime_ms_u32(session_start_ns, queued.arrival_ns),
        frame_decoded_ms: uptime_ms_u32(session_start_ns, now_ns),
        frame_rendered_ms: uptime_ms_u32(session_start_ns, now_ns),
    }
}

/// The reports on all frames of a queue, the oldest first.
pub open spec fn timing_reports(
    queue: Seq<QueuedVideoMetadata>,
    session_start_ns: u64,
    now_ns: u64,
) -> Seq<MetadataFrame> {
    Seq::new(queue.len(), |i: int| timing_report(queue[i], session_start_ns, now_ns))
}

/// A count of reports after some more, round the `u64` circle.
pub open spec fn more_reports(sent: u64, reports: nat) -> u64 {
    ((sent + reports) % 0x1_0000_0000_0000_0000) as u64
}

/// Whether the oldest frame has waited long enough for reports to go out on their own.
pub open spec fn metadata_due(queue: Seq<QueuedVideoMetadata>, now_ns: u64) -> bool {
    queue.len() > 0 && since(queue[0].arrival_ns, now_ns) >= METADATA_DUE_NS
}

impl VideoMetadataQueue {
    /// Whether no more frames wait than may.
    pub open spec fn wf(self) -> bool {
        self@.len() <= MAX_QUEUED_VIDEO_METADATA
    }

    /// How many reports have gone out, round the `u64` circle.
    pub closed spec fn reports_sent(self) -> u64 {
        self.sent
    }

    /// No frame waits.
    pub fn new() -> (queue: Self)
        ensures
            queue.wf(),
            queue@ == Seq::<QueuedVideoMetadata>::empty(),
            queue.reports_sent() == 0,
    {
        VideoMetadataQueue { queue: VecDeque::new(), sent: 0 }
    }

    /// How many reports have gone out, round the `u64` circle.
    pub fn sent(&self) -> (sent: u64)
        ensures
            sent == self.reports_sent(),
    {
        self.sent
    }

    /// Queues a frame that the decoder took.
    pub fn queue_video_metadata(&mut self, server_data_key: u32, arrival_ns: u64)
        requires
            old(self).wf(),
        ensures
            final(self).wf(),
            final(self)@ == with_metadata(
                old(self)@,
                QueuedVideoMetadata { server_data_key, arrival_ns },
            ),
            final(self).reports_sent() == old(self).reports_sent(),
    {
        if self.queue.len() >= MAX_QUEUED_VIDEO_METADATA {
            let _ = self.queue.pop_front();
            assert(self@ =~= old(self)@.drop_first());
        }
        self.queue.push_back(QueuedVideoMetadata { server_data_key, arrival_ns });
    }

    /// Whether the oldest frame has waited long enough for reports to go out on their own.
    pub fn due(&self, now_ns: u64) -> (due: bool)
        ensures
            due == metadata_due(self@, now_ns),
    {
        if self.queue.len() == 0 {
            return false;
        }
        now_ns.saturating_sub(self.queue[0].arrival_ns) >= METADATA_DUE_NS
    }

    /// Takes the reports on all waiting frames.
    pub fn drain_video_metadata(&mut self, clock: InputClock) -> (frames: Vec<MetadataFrame>)
        requires
            old(self).wf(),
        ensures
            final(self).wf(),
            final(self)@ == Seq::<QueuedVideoMetadata>::empty(),
            frames@ == timing_reports(old(self)@, clock.session_start_ns, clock.now_ns),
            final(self).reports_sent() == more_reports(old(self).reports_sent(), old(self)@.len()),
    {
        let ghost all = timing_reports(self@, clock.session_start_ns, clock.now_ns);
        let count: u64 = self.queue.len() as u64;
        let now_ms: u32 = uptime_ms_u32_since(clock.session_start_ns, clock.now_ns);
        let mut frames: Vec<MetadataFrame> = Vec::new();
        while self.queue.len() > 0
            invariant
                self@.len() + frames@.len() == old(self)@.len(),
                self@ == old(self)@.skip(frames@.len() as int),
                self.sent == old(self).sent,
                now_ms == uptime_ms_u32(clock.session_start_ns, clock.now_ns),
                all == timing_reports(old(self)@, clock.session_start_ns, clock.now_ns),
                frames@ == all.take(frames@.len() as int),
            decreases self@.len(),
        {
            let ghost done = frames@.len() as int;
            if let Some(queued) = self.queue.pop_front() {
                let arrival_ms: u32 = uptime_ms_u32_since(
                    clock.session_start_ns,
                    queued.arrival_ns,
                );
                assert(queued == old(self)@[done]);
                frames.push(
                    MetadataFrame {
                        server_data_key: queued.server_data_key,
                        first_frame_packet_arrival_ms: arrival_ms,
                        frame_submitted_ms: arrival_ms,
                        frame_decoded_ms: now_ms,
                        frame_rendered_ms: now_ms,
                    },
                );
                assert(self@ =~= old(self)@.skip(done + 1));
                assert(frames@ =~= all.take(done + 1));
            }
        }
        assert(all.take(all.len() as int) =~= all);
        assert(self@ =~= Seq::<QueuedVideoMetadata>::empty());
        self.sent = self.sent.wrapping_add(count);
        frames
    }
}

// Packets.

/// A batch of reports on its way to the console.
#[derive(Debug, Clone)]
pub struct InputPacket {
    report_type: u16,
    total_size: usize,
    sequence: u32,
    metadata_frames: Vec<MetadataFrame>,
    gamepad_frames: Vec<GamepadFrame>,
    pointer_frames: Vec<PointerFrame>,
    max_touchpoints: u8,
}

/// What a batch of reports holds.
#[verifier::ext_equal]
pub ghost struct InputPacketView {
    pub report_type: u16,
    pub total_size: int,
    pub sequence: u32,
    pub metadata_frames: Seq<MetadataFrame>,
    pub gamepad_frames: Seq<GamepadFrame>,
    pub pointer_frames: Seq<Seq<PointerEvent>>,
    pub max_touchpoints: u8,
}

/// The touches of some pointer frames.
pub open spec fn events_of(frames: Seq<PointerFrame>) -> Seq<Seq<PointerEvent>> {
    Seq::new(frames.len(), |i: int| frames[i].events@)
}

impl View for InputPacket {
    type V = InputPacketView;

    closed spec fn view(&self) -> InputPacketView {
        InputPacketView {
            report_type: self.report_type,
            total_size: self.total_size as int,
            sequence: self.sequence,
            metadata_frames: self.metadata_frames@,
            gamepad_frames: self.gamepad_frames@,
            pointer_frames: events_of(self.pointer_frames@),
            max_touchpoints: self.max_touchpoints,
        }
    }
}

/// The size of a packet's header: kind, sequence number and uptime.
pub const PACKET_HEADER_BYTES: usize = 14;

/// A batch without reports.
pub open spec fn empty_packet(sequence: u32) -> InputPacketView {
    InputPacketView {
        report_type: 0,
        total_size: PACKET_HEADER_BYTES as int,
        sequence,
        metadata_frames: Seq::empty(),
        gamepad_frames: Seq::empty(),
        pointer_frames: Seq::empty(),
        max_touchpoints: 0,
    }
}

/// The bytes that the touches of some pointer frames are reckoned with.
pub open spec fn pointer_size(frames: Seq<Seq<PointerEvent>>) -> int
    decreases frames.len(),
{
    if frames.len() == 0 {
        0
    } else {
        pointer_size(frames.drop_last()) + 1 + frames.last().len() * 20
    }
}

/// The size that a packet is reckoned with: for each kind of report that it holds, one byte and
/// the reports.
pub open spec fn data_size(
    metadata: int,
    gamepads: int,
    pointers: Seq<Seq<PointerEvent>>,
) -> int {
    PACKET_HEADER_BYTES + (if metadata > 0 {
        1 + 28 * metadata
    } else {
        0
    }) + (if gamepads > 0 {
        1 + 23 * gamepads
    } else {
        0
    }) + (if pointers.len() > 0 {
        1 + pointer_size(pointers)
    } else {
        0
    })
}

/// The bit of a kind of report, where the packet holds any.
pub open spec fn bit_where(set: bool, bit: u16) -> u16 {
    if set {
        bit
    } else {
        0
    }
}

/// What a button adds to the mask, where it is pressed.
pub open spec fn bit_if(set: bool, bit: int) -> int {
    if set {
        bit
    } else {
        0
    }
}

/// The packet with reports put in.
pub open spec fn with_data(
    packet: InputPacketView,
    metadata: Seq<MetadataFrame>,
    gamepads: Seq<GamepadFrame>,
    pointers: Seq<Seq<PointerEvent>>,
) -> InputPacketView {
    InputPacketView {
        report_type: packet.report_type | bit_where(
            metadata.len() > 0,
            report_bit(ReportType::Metadata),
        ) | bit_where(gamepads.len() > 0, report_bit(ReportType::Gamepad)) | bit_where(
            pointers.len() > 0,
            report_bit(ReportType::Pointer),
        ),
        total_size: data_size(metadata.len() as int, gamepads.len() as int, pointers),
        metadata_frames: metadata,
        gamepad_frames: gamepads,
        pointer_frames: pointers,
        ..packet
    }
}

/// A render-timing report on the wire: five times and two that are left zero.
pub open spec fn metadata_bytes(frame: MetadataFrame) -> Seq<u8> {
    le_bytes(frame.server_data_key as int, 4) + le_bytes(
        frame.first_frame_packet_arrival_ms as int,
        4,
    ) + le_bytes(frame.frame_submitted_ms as int, 4) + le_bytes(frame.frame_decoded_ms as int, 4)
        + le_bytes(frame.frame_rendered_ms as int, 4) + le_bytes(0, 4) + le_bytes(0, 4)
}

/// The bits of the system and face buttons.
pub open spec fn face_mask(frame: GamepadFrame) -> int {
    bit_if(frame.nexus, 2) + bit_if(frame.menu, 4) + bit_if(frame.view, 8) + bit_if(frame.a, 16)
        + bit_if(frame.b, 32) + bit_if(frame.x, 64) + bit_if(frame.y, 128)
}

/// The bits of the directions, shoulders and stick buttons.
pub open spec fn other_mask(frame: GamepadFrame) -> int {
    bit_if(frame.dpad_up, 256) + bit_if(frame.dpad_down, 512) + bit_if(frame.dpad_left, 1024)
        + bit_if(frame.dpad_right, 2048) + bit_if(frame.left_shoulder, 4096) + bit_if(
        frame.right_shoulder,
        8192,
    ) + bit_if(frame.left_thumb, 16384) + bit_if(frame.right_thumb, 32768)
}

/// The buttons of a sample as a mask.
pub open spec fn button_mask(frame: GamepadFrame) -> int {
    face_mask(frame) + other_mask(frame)
}

/// The sticks of a sample on the wire; up is negative there.
pub open spec fn stick_bytes(frame: GamepadFrame) -> Seq<u8> {
    le_bytes(twos_complement(frame.left_thumb_x_axis.deflection), 2) + le_bytes(
        twos_complement(opposite(frame.left_thumb_y_axis.deflection)),
        2,
    ) + le_bytes(twos_complement(frame.right_thumb_x_axis.deflection), 2) + le_bytes(
        twos_complement(opposite(frame.right_thumb_y_axis.deflection)),
        2,
    )
}

/// The triggers of a sample on the wire.
pub open spec fn trigger_bytes(frame: GamepadFrame) -> Seq<u8> {
    le_bytes(frame.left_trigger.level as int, 2) + le_bytes(frame.right_trigger.level as int, 2)
}

/// A gamepad sample on the wire: index, buttons, sticks, triggers, and a one in either byte
/// order.
pub open spec fn gamepad_bytes(frame: GamepadFrame) -> Seq<u8> {
    seq![frame.gamepad_index] + le_bytes(button_mask(frame), 2) + stick_bytes(frame)
        + trigger_bytes(frame) + le_bytes(1, 4) + seq![0u8, 0u8, 0u8, 1u8]
}

/// A touch on the wire.
pub open spec fn pointer_bytes(event: PointerEvent) -> Seq<u8> {
    le_bytes(event.contact_major as int, 2) + le_bytes(event.contact_minor as int, 2)
        + seq![event.pressure] + le_bytes(event.twist as int, 2) + le_bytes(0, 4) + le_bytes(
        event.x as int,
        4,
    ) + le_bytes(event.y as int, 4) + seq![event.event_type]
}

/// Render-timing reports on the wire, one after the other.
pub open spec fn all_metadata_bytes(frames: Seq<MetadataFrame>) -> Seq<u8>
    decreases frames.len(),
{
    if frames.len() == 0 {
        Seq::empty()
    } else {
        all_metadata_bytes(frames.drop_last()) + metadata_bytes(frames.last())
    }
}

/// Gamepad samples on the wire, one after the other.
pub open spec fn all_gamepad_bytes(frames: Seq<GamepadFrame>) -> Seq<u8>
    decreases frames.len(),
{
    if frames.len() == 0 {
        Seq::empty()
    } else {
        all_gamepad_bytes(frames.drop_last()) + gamepad_bytes(frames.last())
    }
}

/// Touches on the wire, one after the other.
pub open spec fn all_pointer_bytes(events: Seq<PointerEvent>) -> Seq<u8>
    decreases events.len(),
{
    if events.len() == 0 {
        Seq::empty()
    } else {
        all_pointer_bytes(events.drop_last()) + pointer_bytes(events.last())
    }
}

/// A count in one byte.
pub open spec fn count_byte(count: int) -> Seq<u8> {
    seq![(count % 256) as u8]
}

/// A packet on the wire: the header, then for each kind of report that it holds the count and
/// the reports. Of the pointer frames only the first is written.
pub open spec fn packet_bytes(packet: InputPacketView, uptime_bits: u64) -> Seq<u8> {
    le_bytes(packet.report_type as int, 2) + le_bytes(packet.sequence as int, 4) + le_bytes(
        uptime_bits as int,
        8,
    ) + (if packet.metadata_frames.len() > 0 {
        count_byte(packet.metadata_frames.len() as int) + all_metadata_bytes(
            packet.metadata_frames,
        )
    } else {
        Seq::empty()
    }) + (if packet.gamepad_frames.len() > 0 {
        count_byte(packet.gamepad_frames.len() as int) + all_gamepad_bytes(packet.gamepad_frames)
    } else {
        Seq::empty()
    }) + (if packet.pointer_frames.len() > 0 {
        seq![1u8] + count_byte(packet.pointer_frames[0].len() as int) + all_pointer_bytes(
            packet.pointer_frames[0],
        )
    } else {
        Seq::empty()
    }) + (if packet.report_type == report_bit(ReportType::ClientMetadata) {
        seq![packet.max_touchpoints]
    } else {
        Seq::empty()
    })
}

proof fn lemma_pointer_size_grows(frames: Seq<Seq<PointerEvent>>, n: int)
    requires
        0 <= n <= frames.len(),
    ensures
        0 <= pointer_size(frames.take(n)) <= pointer_size(frames),
    decreases frames.len(),
{
    if n < frames.len() {
        lemma_pointer_size_grows(frames.drop_last(), n);
        assert(frames.drop_last().take(n) =~= frames.take(n));
    } else {
        assert(frames.take(n) =~= frames);
        if frames.len() > 0 {
            lemma_pointer_size_grows(frames.drop_last(), n - 1);
        }
    }
}

fn count_in_a_byte(count: usize) -> (byte: u8)
    ensures
        seq![byte] == count_byte(count as int),
{
    (count % 256) as u8
}

impl InputPacket {
    /// A packet without reports.
    pub fn new(sequence: u32) -> (packet: Self)
        ensures
            packet@ == empty_packet(sequence),
    {
        let packet = InputPacket {
            report_type: ReportType::Empty.bits(),
            total_size: PACKET_HEADER_BYTES,
            sequence,
            metadata_frames: Vec::new(),
            gamepad_frames: Vec::new(),
            pointer_frames: Vec::new(),
            max_touchpoints: 0,
        };
        assert(packet@ =~= empty_packet(sequence));
        packet
    }

    /// The packet that introduces the client.
    pub fn client_metadata(sequence: u32, max_touchpoints: u8) -> (packet: Self)
        ensures
            packet@ == (InputPacketView {
                report_type: report_bit(ReportType::ClientMetadata),
                total_size: PACKET_HEADER_BYTES + 1,
                max_touchpoints,
                ..empty_packet(sequence)
            }),
    {
        let mut packet = InputPacket::new(sequence);
        packet.report_type = ReportType::ClientMetadata.bits();
        packet.total_size = 15;
        packet.max_touchpoints = max_touchpoints;
        packet
    }

    /// Puts reports in, in place of those that the packet held.
    pub fn set_data(
        &mut self,
        metadata: Vec<MetadataFrame>,
        gamepads: Vec<GamepadFrame>,
        pointers: Vec<PointerFrame>,
    )
        requires
            data_size(
                metadata@.len() as int,
                gamepads@.len() as int,
                events_of(pointers@),
            ) <= usize::MAX,
        ensures
            final(self)@ == with_data(old(self)@, metadata@, gamepads@, events_of(pointers@)),
    {
        let ghost touches = events_of(pointers@);
        proof {
            lemma_pointer_size_grows(touches, touches.len() as int);
            let kind = self.report_type;
            assert(kind | 0 == kind) by (bit_vector);
            let kind_m = kind | 1;
            assert(kind_m | 0 == kind_m) by (bit_vector);
            let kind_g = kind | 2;
            assert(kind_g | 0 == kind_g) by (bit_vector);
            let kind_mg = kind | 1 | 2;
            assert(kind_mg | 0 == kind_mg) by (bit_vector);
        }
        let mut size: usize = PACKET_HEADER_BYTES;
        if metadata.len() > 0 {
            self.report_type = self.report_type | ReportType::Metadata.bits();
            size = size + 1 + 28 * metadata.len();
        }
        if gamepads.len() > 0 {
            self.report_type = self.report_type | ReportType::Gamepad.bits();
            size = size + 1 + 23 * gamepads.len();
        }
        if pointers.len() > 0 {
            self.report_type = self.report_type | ReportType::Pointer.bits();
            size = size + 1;
            let ghost base = size as int;
            let mut i: usize = 0;
            assert(touches.take(0) =~= Seq::empty());
            while i < pointers.len()
                invariant
                    i <= pointers@.len(),
                    touches == events_of(pointers@),
                    base + pointer_size(touches) <= usize::MAX,
                    size == base + pointer_size(touches.take(i as int)),
                decreases pointers@.len() - i,
            {
                proof {
                    assert(touches.take(i + 1).drop_last() =~= touches.take(i as int));
                    assert(touches.take(i + 1).last() == pointers@[i as int].events@);
                    lemma_pointer_size_grows(touches, i + 1);
                    lemma_pointer_size_grows(touches, i as int);
                }
                size = size + 1 + pointers[i].events.len() * 20;
                i = i + 1;
            }
            assert(touches.take(i as int) =~= touches);
        }
        self.total_size = size;
        self.metadata_frames = metadata;
        self.gamepad_frames = gamepads;
        self.pointer_frames = pointers;
    }

    /// The packet on the wire. `uptime_bits` are the bits of the uptime in milliseconds, a
    /// double.
    pub fn to_bytes(&self, uptime_bits: u64) -> (bytes: Vec<u8>)
        ensures
            bytes@ == packet_bytes(self@, uptime_bits),
    {
        let mut bytes: Vec<u8> = Vec::new();
        push_u16(&mut bytes, self.report_type);
        push_u32(&mut bytes, self.sequence);
        push_u64(&mut bytes, uptime_bits);
        let ghost head = bytes@;
        assert(head =~= le_bytes(self@.report_type as int, 2) + le_bytes(self@.sequence as int, 4)
            + le_bytes(uptime_bits as int, 8));
        if self.metadata_frames.len() > 0 {
            self.write_metadata(&mut bytes);
        } else {
            assert(bytes@ =~= head + Seq::empty());
        }
        let ghost with_metadata = bytes@;
        if self.gamepad_frames.len() > 0 {
            self.write_gamepads(&mut bytes);
        } else {
            assert(bytes@ =~= with_metadata + Seq::empty());
        }
        let ghost with_gamepads = bytes@;
        if self.pointer_frames.len() > 0 {
            self.write_pointers(&mut bytes);
        } else {
            assert(bytes@ =~= with_gamepads + Seq::empty());
        }
        let ghost with_pointers = bytes@;
        if self.report_type == ReportType::ClientMetadata.bits() {
            bytes.push(self.max_touchpoints);
            assert(bytes@ =~= with_pointers + seq![self.max_touchpoints]);
        } else {
            assert(bytes@ =~= with_pointers + Seq::empty());
        }
        bytes
    }

    fn write_metadata(&self, bytes: &mut Vec<u8>)
        ensures
            final(bytes)@ == old(bytes)@ + (count_byte(self@.metadata_frames.len() as int)
                + all_metadata_bytes(self@.metadata_frames)),
    {
        bytes.push(count_in_a_byte(self.metadata_frames.len()));
        let ghost frames = self@.metadata_frames;
        let ghost head = bytes@;
        let mut i: usize = 0;
        assert(frames.take(0) =~= Seq::empty());
        assert(bytes@ =~= head + all_metadata_bytes(frames.take(0)));
        while i < self.metadata_frames.len()
            invariant
                i <= frames.len(),
                frames == self@.metadata_frames,
                bytes@ == head + all_metadata_bytes(frames.take(i as int)),
            decreases frames.len() - i,
        {
            let frame = self.metadata_frames[i];
            let ghost before = bytes@;
            push_u32(bytes, frame.server_data_key);
            push_u32(bytes, frame.first_frame_packet_arrival_ms);
            push_u32(bytes, frame.frame_submitted_ms);
            push_u32(bytes, frame.frame_decoded_ms);
            push_u32(bytes, frame.frame_rendered_ms);
            push_u32(bytes, 0);
            push_u32(bytes, 0);
            proof {
                assert(bytes@ =~= before + metadata_bytes(frame));
                assert(frames.take(i + 1).drop_last() =~= frames.take(i as int));
                assert(bytes@ =~= head + all_metadata_bytes(frames.take(i + 1)));
            }
            i = i + 1;
        }
        assert(frames.take(i as int) =~= frames);
        assert(bytes@ =~= old(bytes)@ + (count_byte(frames.len() as int) + all_metadata_bytes(
            frames,
        )));
    }

    fn write_gamepads(&self, bytes: &mut Vec<u8>)
        ensures
            final(bytes)@ == old(bytes)@ + (count_byte(self@.gamepad_frames.len() as int)
                + all_gamepad_bytes(self@.gamepad_frames)),
    {
        bytes.push(count_in_a_byte(self.gamepad_frames.len()));
        let ghost frames = self@.gamepad_frames;
        let ghost head = bytes@;
        let mut i: usize = 0;
        assert(frames.take(0) =~= Seq::empty());
        assert(bytes@ =~= head + all_gamepad_bytes(frames.take(0)));
        while i < self.gamepad_frames.len()
            invariant
                i <= frames.len(),
                frames == self@.gamepad_frames,
                bytes@ == head + all_gamepad_bytes(frames.take(i as int)),
            decreases frames.len() - i,
        {
            let frame = self.gamepad_frames[i];
            let ghost before = bytes@;
            write_gamepad(&frame, bytes);
            proof {
                assert(frames.take(i + 1).drop_last() =~= frames.take(i as int));
                assert(bytes@ =~= head + all_gamepad_bytes(frames.take(i + 1)));
            }
            i = i + 1;
        }
        assert(frames.take(i as int) =~= frames);
        assert(bytes@ =~= old(bytes)@ + (count_byte(frames.len() as int) + all_gamepad_bytes(
            frames,
        )));
    }

    fn write_pointers(&self, bytes: &mut Vec<u8>)
        requires
            self@.pointer_frames.len() > 0,
        ensures
            final(bytes)@ == old(bytes)@ + (seq![1u8] + count_byte(
                self@.pointer_frames[0].len() as int,
            ) + all_pointer_bytes(self@.pointer_frames[0])),
    {
        bytes.push(1);
        let events = &self.pointer_frames[0].events;
        bytes.push(count_in_a_byte(events.len()));
        let ghost touches = self@.pointer_frames[0];
        let ghost head = bytes@;
        let mut i: usize = 0;
        assert(touches.take(0) =~= Seq::empty());
        assert(bytes@ =~= head + all_pointer_bytes(touches.take(0)));
        while i < events.len()
            invariant
                i <= touches.len(),
                touches == events@,
                bytes@ == head + all_pointer_bytes(touches.take(i as int)),
            decreases touches.len() - i,
        {
            let event = events[i];
            let ghost before = bytes@;
            write_pointer(&event, bytes);
            proof {
                assert(touches.take(i + 1).drop_last() =~= touches.take(i as int));
                assert(bytes@ =~= head + all_pointer_bytes(touches.take(i + 1)));
            }
            i = i + 1;
        }
        assert(touches.take(i as int) =~= touches);
        assert(bytes@ =~= old(bytes)@ + (seq![1u8] + count_byte(touches.len() as int)
            + all_pointer_bytes(touches)));
    }
}

fn mask_bit(set: bool, bit: u16) -> (value: u16)
    ensures
        value == bit_if(set, bit as int),
        value <= bit,
{
    if set {
        bit
    } else {
        0
    }
}

fn face_buttons(input: &GamepadFrame) -> (mask: u16)
    ensures
        mask == face_mask(*input),
        mask <= 254,
{
    let system: u16 = mask_bit(input.nexus, 2) + mask_bit(input.menu, 4) + mask_bit(input.view, 8);
    let face: u16 = mask_bit(input.a, 16) + mask_bit(input.b, 32) + mask_bit(input.x, 64)
        + mask_bit(input.y, 128);
    system + face
}

fn other_buttons(input: &GamepadFrame) -> (mask: u16)
    ensures
        mask == other_mask(*input),
        mask <= 65_280,
{
    let dpad: u16 = mask_bit(input.dpad_up, 256) + mask_bit(input.dpad_down, 512) + mask_bit(
        input.dpad_left,
        1024,
    ) + mask_bit(input.dpad_right, 2048);
    let rest: u16 = mask_bit(input.left_shoulder, 4096) + mask_bit(input.right_shoulder, 8192)
        + mask_bit(input.left_thumb, 16384) + mask_bit(input.right_thumb, 32768);
    dpad + rest
}

fn mask_of(input: &GamepadFrame) -> (mask: u16)
    ensures
        mask == button_mask(*input),
{
    face_buttons(input) + other_buttons(input)
}

fn write_sticks(input: &GamepadFrame, bytes: &mut Vec<u8>)
    ensures
        final(bytes)@ == old(bytes)@ + stick_bytes(*input),
{
    push_i16(bytes, input.left_thumb_x_axis.deflection);
    push_i16(bytes, opposite_of(input.left_thumb_y_axis.deflection));
    push_i16(bytes, input.right_thumb_x_axis.deflection);
    push_i16(bytes, opposite_of(input.right_thumb_y_axis.deflection));
    assert(bytes@ =~= old(bytes)@ + stick_bytes(*input));
}

fn write_triggers(input: &GamepadFrame, bytes: &mut Vec<u8>)
    ensures
        final(bytes)@ == old(bytes)@ + trigger_bytes(*input),
{
    push_u16(bytes, input.left_trigger.level);
    push_u16(bytes, input.right_trigger.level);
    assert(bytes@ =~= old(bytes)@ + trigger_bytes(*input));
}

fn write_gamepad(input: &GamepadFrame, bytes: &mut Vec<u8>)
    ensures
        final(bytes)@ == old(bytes)@ + gamepad_bytes(*input),
{
    bytes.push(input.gamepad_index);
    push_u16(bytes, mask_of(input));
    write_sticks(input, bytes);
    write_triggers(input, bytes);
    push_u32(bytes, 1);
    push_le(bytes, [0u8, 0u8, 0u8, 1u8]);
    assert(bytes@ =~= old(bytes)@ + gamepad_bytes(*input));
}

fn write_pointer(event: &PointerEvent, bytes: &mut Vec<u8>)
    ensures
        final(bytes)@ == old(bytes)@ + pointer_bytes(*event),
{
    push_u16(bytes, event.contact_major);
    push_u16(bytes, event.contact_minor);
    bytes.push(event.pressure);
    push_u16(bytes, event.twist);
    push_u32(bytes, 0);
    push_u32(bytes, event.x);
    push_u32(bytes, event.y);
    bytes.push(event.event_type);
    assert(bytes@ =~= old(bytes)@ + pointer_bytes(*event));
}

// The queue.

/// Batches reports into packets, one per send.
#[derive(Debug)]
pub struct InputQueue {
    sequence: u32,
    gamepads: Vec<GamepadFrame>,
    pointers: Vec<PointerFrame>,
}

/// What is queued, and the sequence number of the last packet.
#[verifier::ext_equal]
pub ghost struct InputQueueView {
    pub sequence: u32,
    pub gamepads: Seq<GamepadFrame>,
    pub pointers: Seq<Seq<PointerEvent>>,
}

impl View for InputQueue {
    type V = InputQueueView;

    closed spec fn view(&self) -> InputQueueView {
        InputQueueView {
            sequence: self.sequence,
            gamepads: self.gamepads@,
            pointers: events_of(self.pointers@),
        }
    }
}

/// A queue with nothing in it.
pub open spec fn idle_queue(sequence: u32) -> InputQueueView {
    InputQueueView { sequence, gamepads: Seq::empty(), pointers: Seq::empty() }
}

/// The sequence number after this one, round the `u32` circle.
pub open spec fn next_sequence_number(sequence: u32) -> u32 {
    if sequence == u32::MAX {
        0
    } else {
        (sequence + 1) as u32
    }
}

/// Whether a packet goes out: when that is asked for, when there is input to report, or when
/// render-timing reports are due.
pub open spec fn sends(
    queue: InputQueueView,
    force_send: bool,
    metadata: Seq<QueuedVideoMetadata>,
    now_ns: u64,
) -> bool {
    force_send || queue.gamepads.len() > 0 || queue.pointers.len() > 0 || metadata_due(
        metadata,
        now_ns,
    )
}

/// The packet that goes out: everything that is queued, and all render-timing reports.
pub open spec fn queued_packet(
    queue: InputQueueView,
    metadata: Seq<QueuedVideoMetadata>,
    clock: InputClock,
) -> InputPacketView {
    with_data(
        empty_packet(next_sequence_number(queue.sequence)),
        timing_reports(metadata, clock.session_start_ns, clock.now_ns),
        queue.gamepads,
        queue.pointers,
    )
}

/// What a queueing comes to: the packet on the wire if one goes out, and the queue afterwards.
pub open spec fn flushed(
    queue: InputQueueView,
    force_send: bool,
    metadata: Seq<QueuedVideoMetadata>,
    clock: InputClock,
) -> (Option<Seq<u8>>, InputQueueView) {
    if sends(queue, force_send, metadata, clock.now_ns) {
        (
            Some(packet_bytes(queued_packet(queue, metadata, clock), clock.uptime_bits)),
            idle_queue(next_sequence_number(queue.sequence)),
        )
    } else {
        (None, queue)
    }
}

/// The render-timing queue after a queueing: emptied if a packet goes out.
pub open spec fn metadata_after(
    queue: InputQueueView,
    force_send: bool,
    metadata: Seq<QueuedVideoMetadata>,
    clock: InputClock,
) -> Seq<QueuedVideoMetadata> {
    if sends(queue, force_send, metadata, clock.now_ns) {
        Seq::empty()
    } else {
        metadata
    }
}

/// The bytes of a packet that may go out.
pub open spec fn wire_bytes(packet: Option<Vec<u8>>) -> Option<Seq<u8>> {
    match packet {
        Some(bytes) => Some(bytes@),
        None => None,
    }
}

impl Default for InputQueue {
    fn default() -> (queue: Self)
        ensures
            queue.wf(),
            queue@ == idle_queue(0),
    {
        let queue = InputQueue { sequence: 0, gamepads: Vec::new(), pointers: Vec::new() };
        assert(queue@ =~= idle_queue(0));
        queue
    }
}

impl InputQueue {
    /// Between calls nothing is left in the queue.
    pub open spec fn wf(self) -> bool {
        self@ == idle_queue(self@.sequence)
    }

    /// Whether a packet with all that is queued can be reckoned with.
    spec fn fits(self) -> bool {
        data_size(
            MAX_QUEUED_VIDEO_METADATA as int,
            self@.gamepads.len() as int,
            self@.pointers,
        ) <= usize::MAX
    }

    /// Queues gamepad samples. Where there are none, a packet goes out only if that is asked for
    /// or render-timing reports are due.
    pub fn queue_gamepad_frames(
        &mut self,
        frames: Vec<GamepadFrame>,
        force_send: bool,
        metadata: &mut VideoMetadataQueue,
        clock: InputClock,
    ) -> (packet: Option<Vec<u8>>)
        requires
            old(self).wf(),
            old(metadata).wf(),
            data_size(MAX_QUEUED_VIDEO_METADATA as int, frames@.len() as int, Seq::empty())
                <= usize::MAX,
        ensures
            final(self).wf(),
            final(metadata).wf(),
            ({
                let queue = InputQueueView { gamepads: frames@, ..old(self)@ };
                &&& (wire_bytes(packet), final(self)@) == flushed(
                    queue,
                    force_send,
                    old(metadata)@,
                    clock,
                )
                &&& final(metadata)@ == metadata_after(queue, force_send, old(metadata)@, clock)
                &&& final(metadata).reports_sent() == if sends(
                    queue,
                    force_send,
                    old(metadata)@,
                    clock.now_ns,
                ) {
                    more_reports(old(metadata).reports_sent(), old(metadata)@.len())
                } else {
                    old(metadata).reports_sent()
                }
            }),
    {
        self.gamepads = frames;
        assert(self@ =~= (InputQueueView { gamepads: frames@, ..old(self)@ }));
        assert(frames@.len() == 0 ==> frames@ =~= Seq::empty());
        self.check_queue_and_packet(force_send, metadata, clock)
    }

    /// Queues touches; a packet goes out at once.
    pub fn queue_pointer_frame(
        &mut self,
        frame: PointerFrame,
        metadata: &mut VideoMetadataQueue,
        clock: InputClock,
    ) -> (packet: Option<Vec<u8>>)
        requires
            old(self).wf(),
            old(metadata).wf(),
            data_size(MAX_QUEUED_VIDEO_METADATA as int, 0, seq![frame.events@]) <= usize::MAX,
        ensures
            final(self).wf(),
            final(metadata).wf(),
            packet is Some,
            (wire_bytes(packet), final(self)@) == flushed(
                InputQueueView { pointers: seq![frame.events@], ..old(self)@ },
                true,
                old(metadata)@,
                clock,
            ),
            final(metadata)@ == Seq::<QueuedVideoMetadata>::empty(),
            final(metadata).reports_sent() == more_reports(
                old(metadata).reports_sent(),
                old(metadata)@.len(),
            ),
    {
        let mut pointers: Vec<PointerFrame> = Vec::new();
        pointers.push(frame);
        self.pointers = pointers;
        assert(self@ =~= (InputQueueView { pointers: seq![frame.events@], ..old(self)@ }));
        self.check_queue_and_packet(true, metadata, clock)
    }

    /// The packet that introduces the client.
    pub fn client_metadata_packet(&mut self, max_touchpoints: u8, clock: InputClock) -> (packet:
        Vec<u8>)
        requires
            old(self).wf(),
        ensures
            final(self).wf(),
            final(self)@ == idle_queue(next_sequence_number(old(self)@.sequence)),
            packet@ == packet_bytes(
                InputPacketView {
                    report_type: report_bit(ReportType::ClientMetadata),
                    total_size: PACKET_HEADER_BYTES + 1,
                    max_touchpoints,
                    ..empty_packet(next_sequence_number(old(self)@.sequence))
                },
                clock.uptime_bits,
            ),
    {
        let sequence: u32 = self.next_sequence();
        InputPacket::client_metadata(sequence, max_touchpoints).to_bytes(clock.uptime_bits)
    }

    fn check_queue_and_packet(
        &mut self,
        force_send: bool,
        metadata: &mut VideoMetadataQueue,
        clock: InputClock,
    ) -> (packet: Option<Vec<u8>>)
        requires
            old(self).fits(),
            old(metadata).wf(),
        ensures
            final(metadata).wf(),
            (wire_bytes(packet), final(self)@) == flushed(
                old(self)@,
                force_send,
                old(metadata)@,
                clock,
            ),
            final(metadata)@ == metadata_after(old(self)@, force_send, old(metadata)@, clock),
            final(metadata).reports_sent() == if sends(
                old(self)@,
                force_send,
                old(metadata)@,
                clock.now_ns,
            ) {
                more_reports(old(metadata).reports_sent(), old(metadata)@.len())
            } else {
                old(metadata).reports_sent()
            },
    {
        if force_send || self.gamepads.len() > 0 || self.pointers.len() > 0 || metadata.due(
            clock.now_ns,
        ) {
            Some(self.drain_packet(metadata, clock))
        } else {
            None
        }
    }

    fn drain_packet(&mut self, metadata: &mut VideoMetadataQueue, clock: InputClock) -> (packet:
        Vec<u8>)
        requires
            old(self).fits(),
            old(metadata).wf(),
        ensures
            final(metadata).wf(),
            final(metadata)@ == Seq::<QueuedVideoMetadata>::empty(),
            final(metadata).reports_sent() == more_reports(
                old(metadata).reports_sent(),
                old(metadata)@.len(),
            ),
            packet@ == packet_bytes(
                queued_packet(old(self)@, old(metadata)@, clock),
                clock.uptime_bits,
            ),
            final(self)@ == idle_queue(next_sequence_number(old(self)@.sequence)),
    {
        let sequence: u32 = self.next_sequence();
        let mut packet = InputPacket::new(sequence);
        let reports = metadata.drain_video_metadata(clock);
        let mut gamepads: Vec<GamepadFrame> = Vec::new();
        let mut pointers: Vec<PointerFrame> = Vec::new();
        std::mem::swap(&mut gamepads, &mut self.gamepads);
        std::mem::swap(&mut pointers, &mut self.pointers);
        packet.set_data(reports, gamepads, pointers);
        assert(self@ =~= idle_queue(sequence));
        packet.to_bytes(clock.uptime_bits)
    }

    fn next_sequence(&mut self) -> (sequence: u32)
        ensures
            sequence == next_sequence_number(old(self)@.sequence),
            final(self)@ == (InputQueueView { sequence, ..old(self)@ }),
    {
        self.sequence = self.sequence.wrapping_add(1);
        self.sequence
    }
}

// Laws.

pub(crate) proof fn lemma_le_bytes_len(value: int, n: nat)
    ensures
        le_bytes(value, n).len() == n,
    decreases n,
{
    if n > 0 {
        lemma_le_bytes_len(value / 256, (n - 1) as nat);
    }
}

pub(crate) proof fn lemma_metadata_len(frames: Seq<MetadataFrame>)
    ensures
        all_metadata_bytes(frames).len() == 28 * frames.len(),
    decreases frames.len(),
{
    if frames.len() > 0 {
        lemma_metadata_len(frames.drop_last());
        let frame = frames.last();
        lemma_le_bytes_len(frame.server_data_key as int, 4);
        lemma_le_bytes_len(frame.first_frame_packet_arrival_ms as int, 4);
        lemma_le_bytes_len(frame.frame_submitted_ms as int, 4);
        lemma_le_bytes_len(frame.frame_decoded_ms as int, 4);
        lemma_le_bytes_len(frame.frame_rendered_ms as int, 4);
        lemma_le_bytes_len(0, 4);
    }
}

pub(crate) proof fn lemma_gamepads_len(frames: Seq<GamepadFrame>)
    ensures
        all_gamepad_bytes(frames).len() == 23 * frames.len(),
    decreases frames.len(),
{
    if frames.len() > 0 {
        lemma_gamepads_len(frames.drop_last());
        let frame = frames.last();
        lemma_le_bytes_len(button_mask(frame), 2);
        lemma_le_bytes_len(twos_complement(frame.left_thumb_x_axis.deflection), 2);
        lemma_le_bytes_len(twos_complement(opposite(frame.left_thumb_y_axis.deflection)), 2);
        lemma_le_bytes_len(twos_complement(frame.right_thumb_x_axis.deflection), 2);
        lemma_le_bytes_len(twos_complement(opposite(frame.right_thumb_y_axis.deflection)), 2);
        lemma_le_bytes_len(frame.left_trigger.level as int, 2);
        lemma_le_bytes_len(frame.right_trigger.level as int, 2);
        lemma_le_bytes_len(1, 4);
        assert(stick_bytes(frame).len() == 8);
        assert(trigger_bytes(frame).len() == 4);
    }
}

pub(crate) proof fn lemma_pointers_len(events: Seq<PointerEvent>)
    ensures
        all_pointer_bytes(events).len() == 20 * events.len(),
    decreases events.len(),
{
    if events.len() > 0 {
        lemma_pointers_len(events.drop_last());
        let event = events.last();
        lemma_le_bytes_len(event.contact_major as int, 2);
        lemma_le_bytes_len(event.contact_minor as int, 2);
        lemma_le_bytes_len(event.twist as int, 2);
        lemma_le_bytes_len(0, 4);
        lemma_le_bytes_len(event.x as int, 4);
        lemma_le_bytes_len(event.y as int, 4);
    }
}

/// A packet is exactly as long on the wire as it is reckoned with, when its reports were put
/// into an empty packet and it holds at most one pointer frame, as every packet of a queue does.
pub proof fn packets_are_as_long_as_reckoned(
    sequence: u32,
    metadata: Seq<MetadataFrame>,
    gamepads: Seq<GamepadFrame>,
    pointers: Seq<Seq<PointerEvent>>,
    uptime_bits: u64,
)
    requires
        pointers.len() <= 1,
    ensures
        ({
            let packet = with_data(empty_packet(sequence), metadata, gamepads, pointers);
            packet_bytes(packet, uptime_bits).len() == packet.total_size
        }),
{
    let packet = with_data(empty_packet(sequence), metadata, gamepads, pointers);
    lemma_le_bytes_len(packet.report_type as int, 2);
    lemma_le_bytes_len(packet.sequence as int, 4);
    lemma_le_bytes_len(uptime_bits as int, 8);
    lemma_metadata_len(metadata);
    lemma_gamepads_len(gamepads);
    assert(packet.report_type != report_bit(ReportType::ClientMetadata)) by {
        reported_kinds_are_the_kinds_held(sequence, metadata, gamepads, pointers);
    }
    if pointers.len() == 1 {
        lemma_pointers_len(pointers[0]);
        assert(pointers.drop_last() =~= Seq::empty());
        assert(pointer_size(pointers.drop_last()) == 0);
    }
}

/// The introduction is fifteen bytes long and ends with the number of touch points.
pub proof fn introductions_end_with_the_touch_points(
    sequence: u32,
    max_touchpoints: u8,
    uptime_bits: u64,
)
    ensures
        ({
            let packet = InputPacketView {
                report_type: report_bit(ReportType::ClientMetadata),
                total_size: PACKET_HEADER_BYTES + 1,
                max_touchpoints,
                ..empty_packet(sequence)
            };
            &&& packet_bytes(packet, uptime_bits).len() == packet.total_size
            &&& packet_bytes(packet, uptime_bits).last() == max_touchpoints
        }),
{
    lemma_le_bytes_len(report_bit(ReportType::ClientMetadata) as int, 2);
    lemma_le_bytes_len(sequence as int, 4);
    lemma_le_bytes_len(uptime_bits as int, 8);
}

/// The kind of a packet made of reports is the sum of the kinds of report that it holds.
pub proof fn reported_kinds_are_the_kinds_held(
    sequence: u32,
    metadata: Seq<MetadataFrame>,
    gamepads: Seq<GamepadFrame>,
    pointers: Seq<Seq<PointerEvent>>,
)
    ensures
        with_data(empty_packet(sequence), metadata, gamepads, pointers).report_type == bit_if(
            metadata.len() > 0,
            1,
        ) + bit_if(gamepads.len() > 0, 2) + bit_if(pointers.len() > 0, 4),
{
    let m = bit_where(metadata.len() > 0, 1);
    let g = bit_where(gamepads.len() > 0, 2);
    let p = bit_where(pointers.len() > 0, 4);
    assert(0u16 | m | g | p == m + g + p) by (bit_vector)
        requires
            m == 0 || m == 1,
            g == 0 || g == 2,
            p == 0 || p == 4,
    ;
}

/// Every packet that goes out has the sequence number after the one before it, and leaves
/// nothing behind, neither input nor render-timing reports.
pub proof fn packets_are_numbered_and_complete(
    queue: InputQueueView,
    force_send: bool,
    metadata: Seq<QueuedVideoMetadata>,
    clock: InputClock,
)
    requires
        sends(queue, force_send, metadata, clock.now_ns),
    ensures
        queued_packet(queue, metadata, clock).sequence == next_sequence_number(queue.sequence),
        queued_packet(queue, metadata, clock).gamepad_frames == queue.gamepads,
        queued_packet(queue, metadata, clock).pointer_frames == queue.pointers,
        queued_packet(queue, metadata, clock).metadata_frames.len() == metadata.len(),
        flushed(queue, force_send, metadata, clock).1 == idle_queue(
            next_sequence_number(queue.sequence),
        ),
        metadata_after(queue, force_send, metadata, clock).len() == 0,
{
}

} // verus!
