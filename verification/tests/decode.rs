use green_vita::decode_loop::{
    after_init_failure, decode_step, loop_step, pipeline_age_us, DecodeAction, DecodeEvent,
    DecodeOutcome, InitRetry, LatestResult, LoopAction, LoopEvent,
};
use green_vita::commands::DecoderCommand;
use green_vita::video::DecodedFrame;

#[test]
fn the_decoder_is_tried_twenty_times() {
    assert_eq!(after_init_failure(1), InitRetry::RetryAfterMs { delay_ms: 250 });
    assert_eq!(after_init_failure(19), InitRetry::RetryAfterMs { delay_ms: 250 });
    assert_eq!(after_init_failure(20), InitRetry::GiveUp);
}

#[test]
fn the_loop_goes_by_what_it_receives() {
    let reset = LoopEvent::Command { command: DecoderCommand::Reset };
    let stop = LoopEvent::Command { command: DecoderCommand::Stop };
    assert_eq!(loop_step(reset, 13), LoopAction::DropDecoder);
    assert_eq!(loop_step(stop, 13), LoopAction::End);
    assert_eq!(loop_step(LoopEvent::CommandsClosed, 13), LoopAction::End);
    assert_eq!(loop_step(LoopEvent::UnitsClosed, 13), LoopAction::End);
    assert_eq!(loop_step(LoopEvent::Unit, 13), LoopAction::DecodeAndSleep { sleep_ms: 13 });
}

#[test]
fn a_unit_goes_through_the_decoder() {
    let taken = |current_generation, has_decoder| DecodeEvent::Taken { current_generation, has_decoder };
    assert!(matches!(decode_step(3, taken(4, true)), DecodeAction::Forget));
    assert!(matches!(decode_step(3, taken(3, true)), DecodeAction::LockTarget));
    assert!(matches!(decode_step(3, taken(3, false)), DecodeAction::CreateDecoder));
    assert!(matches!(decode_step(3, DecodeEvent::DecoderCreated), DecodeAction::LockTarget));
    assert!(matches!(decode_step(3, DecodeEvent::TargetLocked), DecodeAction::Decode));
    assert!(matches!(decode_step(3, DecodeEvent::NoTarget), DecodeAction::Skip));
    let failed = decode_step(3, DecodeEvent::DecoderNotCreated { error: "busy".to_string() });
    match failed {
        DecodeAction::PublishError { message, drop_decoder } => {
            assert_eq!(message, "failed to recreate H264 decoder: busy");
            assert!(!drop_decoder);
        }
        other => panic!("{:?}", other),
    }
}

#[test]
fn a_decoded_unit_is_published_if_it_is_current() {
    let decoded = |current_generation, outcome| DecodeEvent::Decoded { current_generation, outcome };
    assert!(matches!(decode_step(3, decoded(4, DecodeOutcome::Picture)), DecodeAction::Forget));
    assert!(matches!(decode_step(3, decoded(3, DecodeOutcome::Picture)), DecodeAction::PublishPicture));
    assert!(matches!(decode_step(3, decoded(3, DecodeOutcome::Buffered)), DecodeAction::CountBuffered));
    let failed = DecodeOutcome::Failed { error: "bad".to_string() };
    match decode_step(3, decoded(3, failed)) {
        DecodeAction::PublishError { message, drop_decoder } => {
            assert_eq!((message.as_str(), drop_decoder), ("bad", true));
        }
        other => panic!("{:?}", other),
    }
    match decode_step(3, decoded(3, DecodeOutcome::Panicked)) {
        DecodeAction::PublishError { message, drop_decoder } => {
            assert_eq!(message, "H264 decoder panicked and was restarted");
            assert!(drop_decoder);
        }
        other => panic!("{:?}", other),
    }
    assert_eq!(pipeline_age_us(1_000, 3_999), 2);
    assert_eq!(pipeline_age_us(9, 3), 0);
}

#[test]
fn the_latest_result_replaces_the_one_before() {
    let frame = DecodedFrame { texture_index: 1, generation: 2, published_at_ns: 3 };
    let mut slot = LatestResult::new();
    assert!(slot.take().is_none());
    assert!(!slot.publish(Err("bad".to_string())));
    assert!(slot.publish(Ok(frame)));
    assert_eq!(slot.take(), Some(Ok(frame)));
    assert!(slot.take().is_none());
}
