use onelastleaf_plugin_sdk::session::liveness::{
    parent_closed, watch_descriptor, watch_stdin, FailureKind, IoFailure, WatchEvent, WatchStep,
};

fn failure(kind: FailureKind) -> IoFailure {
    IoFailure {
        kind,
        message: "system".to_owned(),
    }
}

#[test]
fn descriptor_watcher_returns_on_eof() {
    assert!(matches!(
        watch_descriptor(WatchEvent::Begun, false),
        WatchStep::Poll
    ));
    assert!(matches!(
        watch_descriptor(WatchEvent::Polled(Ok(1)), false),
        WatchStep::Read
    ));
    assert!(matches!(
        watch_descriptor(WatchEvent::Read(Ok(0)), false),
        WatchStep::Done
    ));
    assert_eq!(watch_stdin(Ok(()), false), Some(Ok(())));
}

#[test]
fn descriptor_watcher_can_be_stopped_without_eof() {
    assert!(matches!(
        watch_descriptor(WatchEvent::Begun, true),
        WatchStep::Done
    ));
    assert!(matches!(
        watch_descriptor(WatchEvent::Polled(Ok(0)), true),
        WatchStep::Done
    ));
    assert!(matches!(
        watch_descriptor(WatchEvent::Polled(Ok(1)), true),
        WatchStep::Done
    ));
    assert!(matches!(
        watch_descriptor(WatchEvent::Read(Ok(1)), true),
        WatchStep::Done
    ));
    assert_eq!(watch_stdin(Ok(()), true), None);
}

#[test]
fn descriptor_watcher_reports_io_failures() {
    for event in [
        WatchEvent::Polled(Err(failure(FailureKind::Other))),
        WatchEvent::Read(Err(failure(FailureKind::Other))),
    ] {
        let WatchStep::Failed(message) = watch_descriptor(event, false) else {
            panic!("a failure did not end the watch");
        };
        assert_eq!(message, "system");
    }
    assert_eq!(
        parent_closed(Ok(Err("system".to_owned()))).unwrap_err().message(),
        "watch parent-liveness pipe: system"
    );
}

#[test]
fn descriptor_watcher_goes_on_after_quiet_and_interrupted_calls() {
    for event in [
        WatchEvent::Polled(Ok(0)),
        WatchEvent::Polled(Err(failure(FailureKind::Interrupted))),
        WatchEvent::Read(Ok(1)),
        WatchEvent::Read(Err(failure(FailureKind::Interrupted))),
        WatchEvent::Read(Err(failure(FailureKind::WouldBlock))),
    ] {
        assert!(matches!(watch_descriptor(event, false), WatchStep::Poll));
    }
    // A wait that cannot block has nothing to wait for again.
    assert!(matches!(
        watch_descriptor(
            WatchEvent::Polled(Err(failure(FailureKind::WouldBlock))),
            false
        ),
        WatchStep::Failed(_)
    ));
}

#[test]
fn the_plugin_ends_with_its_parent() {
    assert!(parent_closed(Ok(Ok(()))).is_ok());
    assert_eq!(
        parent_closed(Err("sender dropped".to_owned())).unwrap_err().message(),
        "wait for parent-liveness watcher: sender dropped"
    );
}
