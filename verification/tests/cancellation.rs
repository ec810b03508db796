use onelastleaf_plugin_sdk::cancellation::{Attempt, Cancellation};
use onelastleaf_plugin_sdk::SdkError;

#[test]
fn cancellation_waiters_observe_the_request_before_action_cleanup() {
    let mut cancellation = Cancellation::new();
    cancellation.cancel();
    assert!(cancellation.cancelled());
    assert!(cancellation.is_cancelled());
    assert!(cancellation.ensure_active().is_err());
}

#[test]
fn finished_contexts_cannot_emit_more_work() {
    let mut cancellation = Cancellation::new();
    cancellation.finish();
    assert!(cancellation.cancelled());
    assert!(!cancellation.is_cancelled());
    assert!(cancellation.ensure_active().is_err());
}

#[test]
fn every_cloned_waiter_is_released() {
    let mut cancellation = Cancellation::new();
    for _ in 0..16 {
        assert!(!cancellation.cancelled());
    }
    // One transition wakes all waiters, and all of them find the state changed.
    assert!(cancellation.cancel());
    for _ in 0..16 {
        assert!(cancellation.cancelled());
    }
}

#[test]
fn a_new_action_is_active() {
    let cancellation = Cancellation::new();
    assert!(!cancellation.cancelled());
    assert!(!cancellation.is_cancelled());
    assert!(cancellation.ensure_active().is_ok());
}

#[test]
fn the_first_of_cancellation_and_completion_decides() {
    let mut cancelled = Cancellation::new();
    assert!(cancelled.cancel());
    assert!(!cancelled.finish());
    assert!(!cancelled.cancel());
    assert!(cancelled.is_cancelled());

    let mut finished = Cancellation::new();
    assert!(finished.finish());
    assert!(!finished.cancel());
    assert!(!finished.finish());
    assert!(!finished.is_cancelled());
    assert!(matches!(finished.ensure_active(), Err(SdkError::Cancelled)));
}

#[test]
fn attempts_report_cancellation_and_failures() {
    assert!(matches!(Attempt::Done(7).outcome("count"), Ok(7)));
    assert!(matches!(
        Attempt::<u8>::Cancelled.outcome("count"),
        Err(SdkError::Cancelled)
    ));
    let failed = Attempt::<u8>::Failed("reset".to_owned()).outcome("count");
    assert_eq!(failed.unwrap_err().message(), "count: reset");
}
