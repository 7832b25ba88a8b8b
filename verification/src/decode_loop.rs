//! The decisions of the decode loop. The loop itself waits on channels and drives the hardware;
//! what it does next is decided here.

use crate::commands::DecoderCommand;
use crate::text::append;
use crate::video::DecodedFrame;
use vstd::prelude::*;

verus! {

/// How many times the hardware decoder is tried before a session gives up on it.
pub const DECODER_INIT_ATTEMPTS: usize = 20;

/// How long to wait between two tries.
pub const DECODER_INIT_RETRY_DELAY_MS: u64 = 250;

/// What to do after the hardware decoder could not be set up.
#[derive(Debug, Clone, Copy, PartialEq, Eq, Structural)]
pub enum InitRetry {
    RetryAfterMs { delay_ms: u64 },
    GiveUp,
}

/// What to do after the `attempt`-th try to set up the hardware decoder failed. The session
/// before may still hold it for a while, so all but the last failure lead to another try.
pub fn after_init_failure(attempt: usize) -> (retry: InitRetry)
    ensures
        retry == if attempt < DECODER_INIT_ATTEMPTS {
            InitRetry::RetryAfterMs { delay_ms: DECODER_INIT_RETRY_DELAY_MS }
        } else {
            InitRetry::GiveUp
        },
{
    if attempt < DECODER_INIT_ATTEMPTS {
        InitRetry::RetryAfterMs { delay_ms: DECODER_INIT_RETRY_DELAY_MS }
    } else {
        InitRetry::GiveUp
    }
}

/// What the loop received. Commands go before access units.
#[derive(Debug, Clone, Copy, PartialEq, Eq, Structural)]
pub enum LoopEvent {
    Command { command: DecoderCommand },
    CommandsClosed,
    Unit,
    UnitsClosed,
}

/// What the loop does about it.
#[derive(Debug, Clone, Copy, PartialEq, Eq, Structural)]
pub enum LoopAction {
    DropDecoder,
    DecodeAndSleep { sleep_ms: u64 },
    End,
}

/// What the loop does about what it received: a reset drops the decoder, a unit is decoded and
/// followed by the configured sleep, and everything else ends the loop.
pub fn loop_step(event: LoopEvent, decode_sleep_ms: u32) -> (action: LoopAction)
    ensures
        action == match event {
            LoopEvent::Command { command: DecoderCommand::Reset } => LoopAction::DropDecoder,
            LoopEvent::Unit => LoopAction::DecodeAndSleep { sleep_ms: decode_sleep_ms as u64 },
            _ => LoopAction::End,
        },
{
    match event {
        LoopEvent::Command { command: DecoderCommand::Reset } => LoopAction::DropDecoder,
        LoopEvent::Command { command: DecoderCommand::Stop } => LoopAction::End,
        LoopEvent::CommandsClosed => LoopAction::End,
        LoopEvent::Unit => LoopAction::DecodeAndSleep { sleep_ms: decode_sleep_ms as u64 },
        LoopEvent::UnitsClosed => LoopAction::End,
    }
}

/// What the hardware made of an access unit.
#[derive(Debug, Clone)]
pub enum DecodeOutcome {
    /// A picture came out.
    Picture,
    /// The unit was taken in; no picture yet.
    Buffered,
    Failed { error: String },
    Panicked,
}

/// What happened to the access unit that is being decoded.
#[derive(Debug, Clone)]
pub enum DecodeEvent {
    /// It was taken out of the channel.
    Taken { current_generation: u64, has_decoder: bool },
    DecoderCreated,
    DecoderNotCreated { error: String },
    TargetLocked,
    /// The renderer has no texture for it.
    NoTarget,
    Decoded { current_generation: u64, outcome: DecodeOutcome },
}

/// What to do next with the access unit.
#[derive(Debug, Clone)]
pub enum DecodeAction {
    /// It is stale: forget it.
    Forget,
    CreateDecoder,
    LockTarget,
    Decode,
    /// Count it as skipped.
    Skip,
    /// Publish the texture, then the frame.
    PublishPicture,
    /// Count it as buffered.
    CountBuffered,
    /// Publish an error; with `drop_decoder` the decoder is made anew for the next unit.
    PublishError { message: String, drop_decoder: bool },
}

/// What the hardware made of an access unit.
pub ghost enum OutcomeView {
    Picture,
    Buffered,
    Failed { error: Seq<char> },
    Panicked,
}

/// What happened to the access unit that is being decoded.
pub ghost enum DecodeEventView {
    Taken { current_generation: u64, has_decoder: bool },
    DecoderCreated,
    DecoderNotCreated { error: Seq<char> },
    TargetLocked,
    NoTarget,
    Decoded { current_generation: u64, outcome: OutcomeView },
}

/// What to do next with the access unit.
pub ghost enum DecodeActionView {
    Forget,
    CreateDecoder,
    LockTarget,
    Decode,
    Skip,
    PublishPicture,
    CountBuffered,
    PublishError { message: Seq<char>, drop_decoder: bool },
}

impl View for DecodeOutcome {
    type V = OutcomeView;

    open spec fn view(&self) -> OutcomeView {
        match *self {
            DecodeOutcome::Picture => OutcomeView::Picture,
            DecodeOutcome::Buffered => OutcomeView::Buffered,
            DecodeOutcome::Failed { error } => OutcomeView::Failed { error: error@ },
            DecodeOutcome::Panicked => OutcomeView::Panicked,
        }
    }
}

impl View for DecodeEvent {
    type V = DecodeEventView;

    open spec fn view(&self) -> DecodeEventView {
        match *self {
            DecodeEvent::Taken { current_generation, has_decoder } => DecodeEventView::Taken {
                current_generation,
                has_decoder,
            },
            DecodeEvent::DecoderCreated => DecodeEventView::DecoderCreated,
            DecodeEvent::DecoderNotCreated { error } => DecodeEventView::DecoderNotCreated {
                error: error@,
            },
            DecodeEvent::TargetLocked => DecodeEventView::TargetLocked,
            DecodeEvent::NoTarget => DecodeEventView::NoTarget,
            DecodeEvent::Decoded { current_generation, outcome } => DecodeEventView::Decoded {
                current_generation,
                outcome: outcome@,
            },
        }
    }
}

impl View for DecodeAction {
    type V = DecodeActionView;

    open spec fn view(&self) -> DecodeActionView {
        match *self {
            DecodeAction::Forget => DecodeActionView::Forget,
            DecodeAction::CreateDecoder => DecodeActionView::CreateDecoder,
            DecodeAction::LockTarget => DecodeActionView::LockTarget,
            DecodeAction::Decode => DecodeActionView::Decode,
            DecodeAction::Skip => DecodeActionView::Skip,
            DecodeAction::PublishPicture => DecodeActionView::PublishPicture,
            DecodeAction::CountBuffered => DecodeActionView::CountBuffered,
            DecodeAction::PublishError { message, drop_decoder } =>
                DecodeActionView::PublishError { message: message@, drop_decoder },
        }
    }
}

/// What to do next with an access unit of the given generation. A unit of another generation
/// than the current one is forgotten, before decoding and after it; a decoder that failed is not
/// used again.
pub open spec fn decode_action(unit_generation: u64, event: DecodeEventView) -> DecodeActionView {
    match event {
        DecodeEventView::Taken { current_generation, has_decoder } => {
            if unit_generation != current_generation {
                DecodeActionView::Forget
            } else if has_decoder {
                DecodeActionView::LockTarget
            } else {
                DecodeActionView::CreateDecoder
            }
        },
        DecodeEventView::DecoderCreated => DecodeActionView::LockTarget,
        DecodeEventView::DecoderNotCreated { error } => DecodeActionView::PublishError {
            message: "failed to recreate H264 decoder: "@ + error,
            drop_decoder: false,
        },
        DecodeEventView::TargetLocked => DecodeActionView::Decode,
        DecodeEventView::NoTarget => DecodeActionView::Skip,
        DecodeEventView::Decoded { current_generation, outcome } => {
            if unit_generation != current_generation {
                DecodeActionView::Forget
            } else {
                match outcome {
                    OutcomeView::Picture => DecodeActionView::PublishPicture,
                    OutcomeView::Buffered => DecodeActionView::CountBuffered,
                    OutcomeView::Failed { error } => DecodeActionView::PublishError {
                        message: error,
                        drop_decoder: true,
                    },
                    OutcomeView::Panicked => DecodeActionView::PublishError {
                        message: "H264 decoder panicked and was restarted"@,
                        drop_decoder: true,
                    },
                }
            }
        },
    }
}

/// What to do next with an access unit of the given generation.
pub fn decode_step(unit_generation: u64, event: DecodeEvent) -> (action: DecodeAction)
    ensures
        action@ == decode_action(unit_generation, event@),
{
    match event {
        DecodeEvent::Taken { current_generation, has_decoder } => {
            if unit_generation != current_generation {
                DecodeAction::Forget
            } else if has_decoder {
                DecodeAction::LockTarget
            } else {
                DecodeAction::CreateDecoder
            }
        },
        DecodeEvent::DecoderCreated => DecodeAction::LockTarget,
        DecodeEvent::DecoderNotCreated { error } => {
            let mut message = String::new();
            append(&mut message, "failed to recreate H264 decoder: ");
            append(&mut message, error.as_str());
            assert(message@ =~= "failed to recreate H264 decoder: "@ + error@);
            DecodeAction::PublishError { message, drop_decoder: false }
        },
        DecodeEvent::TargetLocked => DecodeAction::Decode,
        DecodeEvent::NoTarget => DecodeAction::Skip,
        DecodeEvent::Decoded { current_generation, outcome } => {
            if unit_generation != current_generation {
                return DecodeAction::Forget;
            }
            match outcome {
                DecodeOutcome::Picture => DecodeAction::PublishPicture,
                DecodeOutcome::Buffered => DecodeAction::CountBuffered,
                DecodeOutcome::Failed { error } => DecodeAction::PublishError {
                    message: error,
                    drop_decoder: true,
                },
                DecodeOutcome::Panicked => DecodeAction::PublishError {
                    message: "H264 decoder panicked and was restarted".to_string(),
                    drop_decoder: true,
                },
            }
        },
    }
}

/// How long an access unit took from the queue to its picture, in microseconds.
pub fn pipeline_age_us(queued_at_ns: u64, now_ns: u64) -> (age: u64)
    ensures
        age == crate::video_rtp::elapsed_us(queued_at_ns, now_ns),
{
    now_ns.saturating_sub(queued_at_ns) / 1000
}

/// What decoding an access unit came to.
pub type DecodeResult = Result<DecodedFrame, String>;

/// The latest decode result that nobody has taken.
pub struct LatestResult {
    latest: Option<DecodeResult>,
}

impl View for LatestResult {
    type V = Option<DecodeResult>;

    closed spec fn view(&self) -> Option<DecodeResult> {
        self.latest
    }
}

impl LatestResult {
    /// No result.
    pub fn new() -> (slot: Self)
        ensures
            slot@ is None,
    {
        LatestResult { latest: None }
    }

    /// Puts a result in place; `true` when it replaced one that nobody took.
    pub fn publish(&mut self, result: DecodeResult) -> (replaced: bool)
        ensures
            final(self)@ == Some(result),
            replaced == (old(self)@ is Some),
    {
        let replaced = self.latest.is_some();
        self.latest = Some(result);
        replaced
    }

    /// Takes the result out.
    pub fn take(&mut self) -> (result: Option<DecodeResult>)
        ensures
            result == old(self)@,
            final(self)@ is None,
    {
        self.latest.take()
    }
}

/// A stale unit is never decoded and its picture never published, whatever else holds.
pub proof fn stale_units_are_forgotten(
    unit_generation: u64,
    current_generation: u64,
    has_decoder: bool,
    outcome: OutcomeView,
)
    requires
        unit_generation != current_generation,
    ensures
        decode_action(
            unit_generation,
            DecodeEventView::Taken { current_generation, has_decoder },
        ) is Forget,
        decode_action(
            unit_generation,
            DecodeEventView::Decoded { current_generation, outcome },
        ) is Forget,
{
}

/// A unit of the current generation goes its way step by step: a decoder is made where there is
/// none, a texture is taken, the unit is decoded, and its picture is published. Where there is no
/// texture it is skipped; where no picture came out yet that is counted.
pub proof fn a_current_unit_is_decoded_and_shown(generation: u64)
    ensures
        decode_action(
            generation,
            DecodeEventView::Taken { current_generation: generation, has_decoder: true },
        ) is LockTarget,
        decode_action(
            generation,
            DecodeEventView::Taken { current_generation: generation, has_decoder: false },
        ) is CreateDecoder,
        decode_action(generation, DecodeEventView::DecoderCreated) is LockTarget,
        decode_action(generation, DecodeEventView::TargetLocked) is Decode,
        decode_action(generation, DecodeEventView::NoTarget) is Skip,
        decode_action(
            generation,
            DecodeEventView::Decoded {
                current_generation: generation,
                outcome: OutcomeView::Picture,
            },
        ) is PublishPicture,
        decode_action(
            generation,
            DecodeEventView::Decoded {
                current_generation: generation,
                outcome: OutcomeView::Buffered,
            },
        ) is CountBuffered,
{
}

/// A decoder that failed or panicked is made anew and the error is published; one that could not
/// be made is told of, and nothing is dropped.
pub proof fn errors_are_published(generation: u64, error: Seq<char>)
    ensures
        decode_action(
            generation,
            DecodeEventView::Decoded {
                current_generation: generation,
                outcome: OutcomeView::Failed { error },
            },
        ) == (DecodeActionView::PublishError { message: error, drop_decoder: true }),
        decode_action(
            generation,
            DecodeEventView::Decoded {
                current_generation: generation,
                outcome: OutcomeView::Panicked,
            },
        ) == (DecodeActionView::PublishError {
            message: "H264 decoder panicked and was restarted"@,
            drop_decoder: true,
        }),
        decode_action(generation, DecodeEventView::DecoderNotCreated { error }) == (
        DecodeActionView::PublishError {
            message: "failed to recreate H264 decoder: "@ + error,
            drop_decoder: false,
        }),
{
}

} // verus!
