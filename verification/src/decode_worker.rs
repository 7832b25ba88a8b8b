//! The producer side of the video decoder: admission of access units and generations.

use crate::commands::{CommandSender, DecoderCommand};
use crossbeam_channel::{Sender, TrySendError};
use std::sync::atomic::{AtomicU64, Ordering};
use std::sync::Arc;
use vstd::prelude::*;

verus! {

/// One compressed access unit is always allowed to wait, whatever the frame rate.
pub const MIN_PENDING_ACCESS_UNITS: usize = 1;

/// The shortest source frame duration that paces the decoder.
pub const MIN_DECODE_INTERVAL_US: u64 = 14_000;

/// The longest source frame duration that paces the decoder.
pub const MAX_DECODE_INTERVAL_US: u64 = 20_000;

/// The pace before the source has shown its own.
pub const DEFAULT_DECODE_INTERVAL_US: u64 = 16_667;

/// An access unit on its way to the decoder.
pub struct QueuedAccessUnit {
    pub data: Vec<u8>,
    pub queued_at_ns: u64,
    pub generation: u64,
}

/// What an access unit on its way to the decoder holds.
pub ghost struct UnitView {
    pub data: Seq<u8>,
    pub queued_at_ns: u64,
    pub generation: u64,
}

impl View for QueuedAccessUnit {
    type V = UnitView;

    open spec fn view(&self) -> UnitView {
        UnitView {
            data: self.data@,
            queued_at_ns: self.queued_at_ns,
            generation: self.generation,
        }
    }
}

/// What became of a submitted access unit.
#[derive(Debug, Clone, Copy, PartialEq, Eq, Structural)]
pub enum SubmitOutcome {
    /// `pending` units were already waiting, as many as the frame rate allows or more.
    OverLimit { pending: usize },
    Sent,
    /// The channel itself was full.
    Full,
    /// The decode loop is gone.
    Disconnected,
}

impl SubmitOutcome {
    /// Whether the unit went to the decoder.
    pub fn accepted(self) -> (accepted: bool)
        ensures
            accepted == (self == SubmitOutcome::Sent),
    {
        match self {
            SubmitOutcome::Sent => true,
            _ => false,
        }
    }

    /// Whether the unit was lost to a full queue.
    pub fn queue_was_full(self) -> (full: bool)
        ensures
            full == (self is OverLimit || self == SubmitOutcome::Full),
    {
        match self {
            SubmitOutcome::OverLimit { .. } => true,
            SubmitOutcome::Full => true,
            _ => false,
        }
    }
}

/// The numbers of waiting units that `Sender::len` gave on this handle, oldest first.
pub uninterp spec fn lengths_read(access_units: Sender<QueuedAccessUnit>) -> Seq<usize>;

/// The access units that `Sender::try_send` was given on this handle, oldest first, whether or
/// not the channel took them.
pub uninterp spec fn units_handed_over(access_units: Sender<QueuedAccessUnit>) -> Seq<UnitView>;

/// What `Sender::try_send` answered on this handle, oldest first.
pub uninterp spec fn unit_answers(access_units: Sender<QueuedAccessUnit>) -> Seq<SubmitOutcome>;

/// The numbers that `AtomicU64::store` was given on this handle of a shared cell, oldest first.
pub uninterp spec fn numbers_stored(cell: Arc<AtomicU64>) -> Seq<u64>;

/// `Sender::len`: how many units wait in the channel at this moment. Nothing is promised of the
/// number but that it is the one that was read, since the decode loop takes units out at any
/// time.
#[verifier::external_body]
fn waiting_units(access_units: &mut Sender<QueuedAccessUnit>) -> (pending: usize)
    ensures
        lengths_read(*final(access_units)) == lengths_read(*old(access_units)).push(pending),
        units_handed_over(*final(access_units)) == units_handed_over(*old(access_units)),
        unit_answers(*final(access_units)) == unit_answers(*old(access_units)),
{
    access_units.len()
}

/// `Sender::try_send`: hands a unit over without blocking. Which of the three answers comes
/// back depends on the decode loop, so none is promised; `OverLimit` is never among them.
#[verifier::external_body]
fn try_send_unit(
    access_units: &mut Sender<QueuedAccessUnit>,
    unit: QueuedAccessUnit,
) -> (outcome: SubmitOutcome)
    ensures
        units_handed_over(*final(access_units)) == units_handed_over(*old(access_units)).push(unit@),
        unit_answers(*final(access_units)) == unit_answers(*old(access_units)).push(outcome),
        lengths_read(*final(access_units)) == lengths_read(*old(access_units)),
        !(outcome is OverLimit),
{
    match access_units.try_send(unit) {
        Ok(()) => SubmitOutcome::Sent,
        Err(TrySendError::Full(_)) => SubmitOutcome::Full,
        Err(TrySendError::Disconnected(_)) => SubmitOutcome::Disconnected,
    }
}

/// `AtomicU64::store`: shows a number to the decode loop, whose thread reads the cell.
#[verifier::external_body]
fn store_number(cell: &mut Arc<AtomicU64>, number: u64)
    ensures
        numbers_stored(*final(cell)) == numbers_stored(*old(cell)).push(number),
{
    cell.store(number, Ordering::Release);
}

/// Frames per second at a frame duration; `unknown` where the duration is not known or zero.
pub open spec fn frames_per_second(duration_us: Option<u64>, unknown: int) -> int {
    match duration_us {
        Some(duration) if duration > 0 => 1_000_000int / (duration as int),
        _ => unknown,
    }
}

/// Frames per second at a frame duration; `unknown` where the duration is not known or zero.
pub fn source_fps(duration_us: Option<u64>, unknown: u64) -> (fps: u64)
    ensures
        fps == frames_per_second(duration_us, unknown as int),
        fps <= 1_000_000 || fps == unknown,
{
    match duration_us {
        Some(duration) => {
            if duration > 0 {
                proof {
                    lemma_quotient_below(1_000_000, duration as int);
                }
                1_000_000 / duration
            } else {
                unknown
            }
        },
        None => unknown,
    }
}

proof fn lemma_quotient_below(a: int, b: int)
    requires
        0 <= a,
        1 <= b,
    ensures
        0 <= a / b <= a,
{
    assert(0 <= a / b <= a) by (nonlinear_arith)
        requires
            0 <= a,
            1 <= b,
    ;
}

/// How far a frame rate lies above 30, at most 25.
pub open spec fn rate_above_thirty(fps: int) -> int {
    if fps <= 30 {
        0
    } else if fps - 30 >= 25 {
        25
    } else {
        fps - 30
    }
}

/// How many access units may wait at a frame rate: one up to 30 frames per second, the whole
/// queue from 55 on, and in between in proportion, rounded to the nearest. The product is cut
/// off at the largest `u64`.
pub open spec fn pending_limit(depth: int, fps: int) -> int {
    let product = rate_above_thirty(fps) * (depth - 1);
    let capped = if product > u64::MAX - 12 {
        u64::MAX as int
    } else {
        product + 12
    };
    1 + capped / 25
}

/// The state of the decoder's producer side.
#[verifier::ext_equal]
pub ghost struct WorkerView {
    /// The units handed to the channel, oldest first.
    pub units: Seq<UnitView>,
    /// What the channel answered to each of them.
    pub answers: Seq<SubmitOutcome>,
    /// How many units waited each time that was looked up, oldest first.
    pub lengths: Seq<usize>,
    /// The commands sent to the decode loop, oldest first.
    pub commands: Seq<DecoderCommand>,
    /// The generations shown to the decode loop, oldest first.
    pub shown_generations: Seq<u64>,
    /// The paces shown to the decode loop, oldest first.
    pub shown_paces: Seq<u64>,
    pub generation: u64,
    pub last_source_duration_us: u64,
    pub decode_queue_depth: usize,
}

/// Feeds access units to the decode loop. The two shared cells show the generation and the pace
/// to the loop's thread, which only reads them.
pub struct VideoDecodeWorker {
    access_units: Sender<QueuedAccessUnit>,
    commands: CommandSender,
    shared_generation: Arc<AtomicU64>,
    shared_source_duration_us: Arc<AtomicU64>,
    generation: u64,
    last_source_duration_us: u64,
    decode_queue_depth: usize,
}

impl View for VideoDecodeWorker {
    type V = WorkerView;

    closed spec fn view(&self) -> WorkerView {
        WorkerView {
            units: units_handed_over(self.access_units),
            answers: unit_answers(self.access_units),
            lengths: lengths_read(self.access_units),
            commands: self.commands@,
            shown_generations: numbers_stored(self.shared_generation),
            shown_paces: numbers_stored(self.shared_source_duration_us),
            generation: self.generation,
            last_source_duration_us: self.last_source_duration_us,
            decode_queue_depth: self.decode_queue_depth,
        }
    }
}

/// Whether the decode loop is shown the worker's generation and pace.
pub open spec fn shows_itself(worker: WorkerView) -> bool {
    &&& worker.shown_generations.len() > 0
    &&& worker.shown_generations.last() == worker.generation
    &&& worker.shown_paces.len() > 0
    &&& worker.shown_paces.last() == worker.last_source_duration_us
}

/// An access unit with the stamp that the worker gives it.
pub open spec fn stamped(worker: WorkerView, data: Seq<u8>, now_ns: u64) -> UnitView {
    UnitView { data, queued_at_ns: now_ns, generation: worker.generation }
}

/// Whether a frame duration lies in the range that paces the decoder.
pub open spec fn sets_the_pace(duration_us: Option<u64>) -> bool {
    duration_us matches Some(duration) && MIN_DECODE_INTERVAL_US <= duration
        <= MAX_DECODE_INTERVAL_US
}

/// The pace after a unit of the given frame duration: that duration where it lies in the range
/// that paces the decoder, else the one before.
pub open spec fn paced_duration(before: u64, duration_us: Option<u64>) -> u64 {
    if sets_the_pace(duration_us) {
        duration_us->0
    } else {
        before
    }
}

/// The next generation number, round the `u64` circle.
pub open spec fn next_generation(generation: u64) -> u64 {
    if generation == u64::MAX {
        0
    } else {
        (generation + 1) as u64
    }
}

/// The worker after it was looked up how many units wait.
pub open spec fn looked_up(worker: WorkerView, pending: usize) -> WorkerView {
    WorkerView { lengths: worker.lengths.push(pending), ..worker }
}

/// The worker after a submission that ended in `outcome`: the pace follows the frame duration,
/// and unless the unit was over the limit it was handed to the channel, stamped, and `outcome`
/// is what the channel answered.
pub open spec fn submitted(
    worker: WorkerView,
    data: Seq<u8>,
    source_frame_duration_us: Option<u64>,
    now_ns: u64,
    outcome: SubmitOutcome,
) -> WorkerView {
    WorkerView {
        units: if outcome is OverLimit {
            worker.units
        } else {
            worker.units.push(stamped(worker, data, now_ns))
        },
        answers: if outcome is OverLimit {
            worker.answers
        } else {
            worker.answers.push(outcome)
        },
        shown_paces: if sets_the_pace(source_frame_duration_us) {
            worker.shown_paces.push(source_frame_duration_us->0)
        } else {
            worker.shown_paces
        },
        last_source_duration_us: paced_duration(
            worker.last_source_duration_us,
            source_frame_duration_us,
        ),
        ..worker
    }
}

/// The worker after everything queued was made stale: the decode loop is shown the next
/// generation.
pub open spec fn resynced(worker: WorkerView) -> WorkerView {
    WorkerView {
        generation: next_generation(worker.generation),
        shown_generations: worker.shown_generations.push(next_generation(worker.generation)),
        ..worker
    }
}

/// Whether a unit of the given frame duration is turned away while `pending` wait.
pub open spec fn over_limit(
    worker: WorkerView,
    source_frame_duration_us: Option<u64>,
    pending: usize,
) -> bool {
    pending >= pending_limit(
        worker.decode_queue_depth as int,
        frames_per_second(source_frame_duration_us, 30),
    )
}

impl VideoDecodeWorker {
    /// A worker at generation 0 and the default pace, which the two shared cells are set to.
    pub fn new(
        access_units: Sender<QueuedAccessUnit>,
        commands: CommandSender,
        shared_generation: Arc<AtomicU64>,
        shared_source_duration_us: Arc<AtomicU64>,
        decode_queue_depth: usize,
    ) -> (worker: Self)
        ensures
            worker@ == (WorkerView {
                units: units_handed_over(access_units),
                answers: unit_answers(access_units),
                lengths: lengths_read(access_units),
                commands: commands@,
                shown_generations: numbers_stored(shared_generation).push(0),
                shown_paces: numbers_stored(shared_source_duration_us).push(
                    DEFAULT_DECODE_INTERVAL_US,
                ),
                generation: 0,
                last_source_duration_us: DEFAULT_DECODE_INTERVAL_US,
                decode_queue_depth,
            }),
            shows_itself(worker@),
    {
        let mut shared_generation = shared_generation;
        let mut shared_source_duration_us = shared_source_duration_us;
        store_number(&mut shared_generation, 0);
        store_number(&mut shared_source_duration_us, DEFAULT_DECODE_INTERVAL_US);
        VideoDecodeWorker {
            access_units,
            commands,
            shared_generation,
            shared_source_duration_us,
            generation: 0,
            last_source_duration_us: DEFAULT_DECODE_INTERVAL_US,
            decode_queue_depth,
        }
    }

    /// The generation that new access units are stamped with.
    pub fn generation(&self) -> (generation: u64)
        ensures
            generation == self@.generation,
    {
        self.generation
    }

    /// The pace the decode loop is given.
    pub fn last_source_duration_us(&self) -> (duration: u64)
        ensures
            duration == self@.last_source_duration_us,
    {
        self.last_source_duration_us
    }

    /// Whether another unit may be queued while `pending` wait.
    pub fn admits(&self, pending: usize, source_frame_duration_us: Option<u64>) -> (admitted: bool)
        requires
            self@.decode_queue_depth >= 1,
        ensures
            admitted == !over_limit(self@, source_frame_duration_us, pending),
    {
        let fps: u64 = source_fps(source_frame_duration_us, 30);
        let above: u64 = if fps <= 30 {
            0
        } else if fps - 30 >= 25 {
            25
        } else {
            fps - 30
        };
        let spare: u64 = (self.decode_queue_depth - MIN_PENDING_ACCESS_UNITS) as u64;
        proof {
            assert(above * spare == rate_above_thirty(
                frames_per_second(source_frame_duration_us, 30),
            ) * (self.decode_queue_depth - 1)) by (nonlinear_arith)
                requires
                    above == rate_above_thirty(frames_per_second(source_frame_duration_us, 30)),
                    spare == self.decode_queue_depth - 1,
            ;
        }
        let capped: u64 = match above.checked_mul(spare) {
            Some(product) => product.saturating_add(12),
            None => u64::MAX,
        };
        let extra: u64 = capped / 25;
        (pending as u64) < 1 + extra
    }

    /// Stamps an access unit with the current generation.
    pub fn stamp(&self, data: Vec<u8>, now_ns: u64) -> (unit: QueuedAccessUnit)
        ensures
            unit@ == stamped(self@, data@, now_ns),
    {
        QueuedAccessUnit { data, queued_at_ns: now_ns, generation: self.generation }
    }

    /// Queues an access unit while `pending` wait, unless that is as many as its frame rate
    /// allows. A frame duration in the pacing range becomes the pace either way. Whether the
    /// channel takes the unit it is given is up to the decode loop.
    pub fn submit_behind(
        &mut self,
        pending: usize,
        data: Vec<u8>,
        source_frame_duration_us: Option<u64>,
        now_ns: u64,
    ) -> (outcome: SubmitOutcome)
        requires
            old(self)@.decode_queue_depth >= 1,
        ensures
            final(self)@ == submitted(
                old(self)@,
                data@,
                source_frame_duration_us,
                now_ns,
                outcome,
            ),
            outcome is OverLimit <==> over_limit(old(self)@, source_frame_duration_us, pending),
            outcome is OverLimit ==> outcome == (SubmitOutcome::OverLimit { pending }),
    {
        if let Some(duration) = source_frame_duration_us {
            if MIN_DECODE_INTERVAL_US <= duration && duration <= MAX_DECODE_INTERVAL_US {
                self.last_source_duration_us = duration;
                store_number(&mut self.shared_source_duration_us, duration);
            }
        }
        if !self.admits(pending, source_frame_duration_us) {
            return SubmitOutcome::OverLimit { pending };
        }
        let unit = self.stamp(data, now_ns);
        try_send_unit(&mut self.access_units, unit)
    }

    /// Queues an access unit unless as many wait in the channel as its frame rate allows:
    /// [`VideoDecodeWorker::submit_behind`] those that wait at this moment. How many that are is
    /// up to the decode loop.
    pub fn submit_access_unit(
        &mut self,
        data: Vec<u8>,
        source_frame_duration_us: Option<u64>,
        now_ns: u64,
    ) -> (outcome: SubmitOutcome)
        requires
            old(self)@.decode_queue_depth >= 1,
        ensures
            ({
                let pending = final(self)@.lengths.last();
                &&& final(self)@ == submitted(
                    looked_up(old(self)@, pending),
                    data@,
                    source_frame_duration_us,
                    now_ns,
                    outcome,
                )
                &&& outcome is OverLimit <==> over_limit(
                    old(self)@,
                    source_frame_duration_us,
                    pending,
                )
                &&& outcome is OverLimit ==> outcome == (SubmitOutcome::OverLimit { pending })
            }),
    {
        let pending: usize = waiting_units(&mut self.access_units);
        assert(self@ == looked_up(old(self)@, pending));
        self.submit_behind(pending, data, source_frame_duration_us, now_ns)
    }

    fn advance_generation(&mut self)
        ensures
            final(self)@ == resynced(old(self)@),
    {
        self.generation = self.generation.wrapping_add(1);
        store_number(&mut self.shared_generation, self.generation);
    }

    /// Makes every queued unit stale and tells the decode loop to drop its decoder.
    pub fn reset_decoder(&mut self)
        ensures
            final(self)@ == (WorkerView {
                commands: old(self)@.commands.push(DecoderCommand::Reset),
                ..resynced(old(self)@)
            }),
    {
        self.advance_generation();
        self.commands.send(DecoderCommand::Reset);
    }

    /// Makes every queued unit stale; the decoder itself is kept.
    pub fn begin_resync(&mut self)
        ensures
            final(self)@ == resynced(old(self)@),
    {
        self.advance_generation();
    }

    /// Tells the decode loop to end.
    pub fn stop(&mut self)
        ensures
            final(self)@ == (WorkerView {
                commands: old(self)@.commands.push(DecoderCommand::Stop),
                ..old(self)@
            }),
    {
        self.commands.send(DecoderCommand::Stop);
    }
}

/// At least one unit may wait, and never more than the queue holds, unless the queue is so deep
/// that the arithmetic is cut off. Up to 30 frames per second only one may, from 55 on as many
/// as the queue holds.
pub proof fn pending_limit_stays_in_the_queue(depth: int, fps: int)
    requires
        1 <= depth <= 700_000_000_000_000_000,
    ensures
        1 <= pending_limit(depth, fps) <= depth,
        fps <= 30 ==> pending_limit(depth, fps) == 1,
        fps >= 55 ==> pending_limit(depth, fps) == depth,
{
    let above = rate_above_thirty(fps);
    let product = above * (depth - 1);
    assert(0 <= product <= 25 * (depth - 1)) by (nonlinear_arith)
        requires
            product == above * (depth - 1),
            0 <= above <= 25,
            1 <= depth,
    ;
    if fps <= 30 {
        assert(product == 0) by (nonlinear_arith)
            requires
                product == above * (depth - 1),
                above == 0,
        ;
    }
    if fps >= 55 {
        assert(product == 25 * (depth - 1)) by (nonlinear_arith)
            requires
                product == above * (depth - 1),
                above == 25,
        ;
    }
}

/// A faster stream may have no fewer units waiting.
pub proof fn pending_limit_grows_with_the_rate(depth: int, slower: int, faster: int)
    requires
        1 <= depth,
        slower <= faster,
    ensures
        pending_limit(depth, slower) <= pending_limit(depth, faster),
{
    let low = rate_above_thirty(slower);
    let high = rate_above_thirty(faster);
    assert(low * (depth - 1) <= high * (depth - 1)) by (nonlinear_arith)
        requires
            low <= high,
            1 <= depth,
    ;
}

/// What was stamped before a resync does not carry the generation that the decode loop is shown
/// after it, and what is stamped then does.
pub proof fn a_resync_makes_queued_units_stale(
    worker: WorkerView,
    before: Seq<u8>,
    after: Seq<u8>,
    now_ns: u64,
)
    ensures
        stamped(worker, before, now_ns).generation != resynced(worker).shown_generations.last(),
        stamped(resynced(worker), after, now_ns).generation == resynced(
            worker,
        ).shown_generations.last(),
{
}

/// The decode loop is always shown the worker's generation and pace.
pub proof fn the_loop_is_shown_what_holds(
    worker: WorkerView,
    data: Seq<u8>,
    source_frame_duration_us: Option<u64>,
    now_ns: u64,
    outcome: SubmitOutcome,
)
    requires
        shows_itself(worker),
    ensures
        shows_itself(resynced(worker)),
        shows_itself(submitted(worker, data, source_frame_duration_us, now_ns, outcome)),
{
}

/// The pace always lies in the range that paces the decoder, if it did before.
pub proof fn the_pace_stays_in_range(before: u64, duration_us: Option<u64>)
    requires
        MIN_DECODE_INTERVAL_US <= before <= MAX_DECODE_INTERVAL_US,
    ensures
        MIN_DECODE_INTERVAL_US <= paced_duration(before, duration_us) <= MAX_DECODE_INTERVAL_US,
{
}

/// Between 30 and 55 frames per second the limit grows evenly from one to the depth of the queue,
/// to the nearest whole unit.
pub proof fn pending_limit_grows_evenly(depth: int, fps: int)
    requires
        1 <= depth <= 700_000_000_000_000_000,
        30 <= fps <= 55,
    ensures
        -25 <= 2 * (25 * (pending_limit(depth, fps) - 1) - (fps - 30) * (depth - 1)) <= 25,
{
    let above = fps - 30;
    let product = above * (depth - 1);
    assert(0 <= product <= 25 * (depth - 1)) by (nonlinear_arith)
        requires
            product == above * (depth - 1),
            0 <= above <= 25,
            1 <= depth,
    ;
}

/// A unit is turned away exactly when as many wait as may at its frame rate, which is that of a
/// stream of 30 frames per second where no duration is known.
pub proof fn a_full_queue_turns_units_away(
    worker: WorkerView,
    source_frame_duration_us: Option<u64>,
    pending: usize,
)
    ensures
        ({
            let fps = match source_frame_duration_us {
                Some(duration) if duration > 0 => 1_000_000int / duration as int,
                _ => 30,
            };
            over_limit(worker, source_frame_duration_us, pending) <==> pending >= pending_limit(
                worker.decode_queue_depth as int,
                fps,
            )
        }),
{
}

/// A unit that is handed to the channel is the last in it, with its own bytes, the time it was
/// queued and the generation that holds; the others stay. A frame duration between 14 and 20
/// milliseconds becomes the pace, and no other does.
pub proof fn a_submitted_unit_is_stamped(
    worker: WorkerView,
    data: Seq<u8>,
    source_frame_duration_us: Option<u64>,
    now_ns: u64,
    outcome: SubmitOutcome,
)
    ensures
        ({
            let after = submitted(worker, data, source_frame_duration_us, now_ns, outcome);
            &&& outcome is OverLimit ==> after.units == worker.units && after.answers
                == worker.answers
            &&& !(outcome is OverLimit) ==> {
                &&& after.units.len() == worker.units.len() + 1
                &&& after.units.drop_last() == worker.units
                &&& after.units.last().data == data
                &&& after.units.last().queued_at_ns == now_ns
                &&& after.units.last().generation == worker.generation
                &&& after.answers == worker.answers.push(outcome)
            }
            &&& after.last_source_duration_us == match source_frame_duration_us {
                Some(duration) if 14_000 <= duration <= 20_000 => duration,
                _ => worker.last_source_duration_us,
            }
            &&& after.generation == worker.generation
            &&& after.commands == worker.commands
            &&& after.decode_queue_depth == worker.decode_queue_depth
        }),
{
    assert(worker.units.push(stamped(worker, data, now_ns)).drop_last() =~= worker.units);
}

/// Making what is queued stale moves the generation on by one, round the circle of 64 bits, shows
/// it to the decode loop, and touches nothing else.
pub proof fn a_resync_moves_the_generation_on(worker: WorkerView)
    ensures
        ({
            let after = resynced(worker);
            &&& after.generation == (worker.generation + 1) % 0x1_0000_0000_0000_0000
            &&& after.shown_generations == worker.shown_generations.push(after.generation)
            &&& after == (WorkerView {
                generation: after.generation,
                shown_generations: after.shown_generations,
                ..worker
            })
        }),
{
}

} // verus!
