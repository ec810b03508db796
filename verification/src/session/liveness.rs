//! Watching the pipe that the parent process keeps open while it is alive.

use vstd::prelude::*;

use crate::error::{ErrorView, SdkError};

verus! {

/// Which failures of the system matter to the watcher.
#[derive(Clone, Copy, Debug, PartialEq, Eq, Structural)]
pub enum FailureKind {
    Interrupted,
    WouldBlock,
    Other,
}

/// A failed system call: its kind, and what the system says.
#[derive(Debug)]
pub struct IoFailure {
    pub kind: FailureKind,
    pub message: String,
}

/// What the watcher has learnt.
#[derive(Debug)]
pub enum WatchEvent {
    /// The watch begins.
    Begun,
    /// A bounded wait is over, and this many descriptors have something to read.
    Polled(Result<usize, IoFailure>),
    /// At most one byte was read, and this many were there.
    Read(Result<usize, IoFailure>),
}

/// What the watcher does next.
#[derive(Debug)]
pub enum WatchStep {
    /// Wait, for a bounded time, until there is something to read.
    Poll,
    /// Read one byte.
    Read,
    /// The pipe is closed, or nobody wants to know any more.
    Done,
    /// The pipe cannot be watched.
    Failed(String),
}

/// Whether a wait is simply repeated.
pub open spec fn poll_again(polled: Result<usize, IoFailure>) -> bool {
    match polled {
        Ok(ready) => ready == 0,
        Err(failure) => failure.kind == FailureKind::Interrupted,
    }
}

/// Whether a read says nothing about the end of the pipe.
pub open spec fn read_again(read: Result<usize, IoFailure>) -> bool {
    match read {
        Ok(count) => count != 0,
        Err(failure) => failure.kind != FailureKind::Other,
    }
}

/// Decides how the watch goes on after an event, where `stopped` tells whether
/// somebody has asked it to stop meanwhile.
pub fn watch_descriptor(event: WatchEvent, stopped: bool) -> (result: WatchStep)
    ensures
        match event {
            WatchEvent::Begun => result == if stopped {
                WatchStep::Done
            } else {
                WatchStep::Poll
            },
            WatchEvent::Polled(polled) => if poll_again(polled) {
                result == if stopped {
                    WatchStep::Done
                } else {
                    WatchStep::Poll
                }
            } else {
                match polled {
                    Ok(_) => result == if stopped {
                        WatchStep::Done
                    } else {
                        WatchStep::Read
                    },
                    Err(failure) => result == WatchStep::Failed(failure.message),
                }
            },
            WatchEvent::Read(read) => if read_again(read) {
                result == if stopped {
                    WatchStep::Done
                } else {
                    WatchStep::Poll
                }
            } else {
                match read {
                    Ok(_) => result == WatchStep::Done,
                    Err(failure) => result == WatchStep::Failed(failure.message),
                }
            },
        },
{
    match event {
        WatchEvent::Begun => {},
        WatchEvent::Polled(Ok(ready)) => {
            if ready != 0 {
                return if stopped {
                    WatchStep::Done
                } else {
                    WatchStep::Read
                };
            }
        },
        WatchEvent::Polled(Err(failure)) => {
            if failure.kind != FailureKind::Interrupted {
                return WatchStep::Failed(failure.message);
            }
        },
        WatchEvent::Read(Ok(count)) => {
            if count == 0 {
                return WatchStep::Done;
            }
        },
        WatchEvent::Read(Err(failure)) => {
            if failure.kind == FailureKind::Other {
                return WatchStep::Failed(failure.message);
            }
        },
    }
    if stopped {
        WatchStep::Done
    } else {
        WatchStep::Poll
    }
}

/// What a watch that has ended reports: nothing once it was asked to stop.
pub fn watch_stdin(ended: Result<(), String>, stopped: bool) -> (result: Option<Result<(), String>>)
    ensures
        result == if stopped {
            None
        } else {
            Some(ended)
        },
{
    if stopped {
        None
    } else {
        Some(ended)
    }
}

/// The end of the plugin that the report of the watch brings about.
pub fn parent_closed(report: Result<Result<(), String>, String>) -> (result: Result<(), SdkError>)
    ensures
        match report {
            Ok(Ok(())) => result is Ok,
            Ok(Err(source)) => result is Err && result->Err_0@ == (ErrorView::Runtime {
                operation: "watch parent-liveness pipe"@,
                source: source@,
            }),
            Err(source) => result is Err && result->Err_0@ == (ErrorView::Runtime {
                operation: "wait for parent-liveness watcher"@,
                source: source@,
            }),
        },
{
    match report {
        Ok(Ok(())) => Ok(()),
        Ok(Err(source)) => Err(SdkError::runtime("watch parent-liveness pipe", source)),
        Err(source) => Err(SdkError::runtime("wait for parent-liveness watcher", source)),
    }
}

/// A parent is gone exactly when a read of its pipe yields nothing: every other read
/// and every wait that is over without an error goes on with the watch, and an error
/// ends it unless it only interrupted the call. A watch that is asked to stop asks for
/// no more work.
pub proof fn law_the_end_of_the_pipe_ends_the_watch(
    event: WatchEvent,
    stopped: bool,
    step: WatchStep,
)
    requires
        call_ensures(watch_descriptor, (event, stopped), step),
    ensures
        !stopped ==> match event {
            WatchEvent::Begun => step is Poll,
            WatchEvent::Polled(Ok(ready)) => if ready > 0 {
                step is Read
            } else {
                step is Poll
            },
            WatchEvent::Polled(Err(failure)) => match failure.kind {
                FailureKind::Interrupted => step is Poll,
                _ => step == WatchStep::Failed(failure.message),
            },
            WatchEvent::Read(Ok(count)) => if count > 0 {
                step is Poll
            } else {
                step is Done
            },
            WatchEvent::Read(Err(failure)) => match failure.kind {
                FailureKind::Other => step == WatchStep::Failed(failure.message),
                _ => step is Poll,
            },
        },
        stopped ==> step is Done || step is Failed,
        step is Failed ==> {
            ||| event matches WatchEvent::Polled(Err(failure)) && step == WatchStep::Failed(
                failure.message,
            ) && failure.kind != FailureKind::Interrupted
            ||| event matches WatchEvent::Read(Err(failure)) && step == WatchStep::Failed(
                failure.message,
            ) && failure.kind == FailureKind::Other
        },
{
}

/// The end of the parent ends the plugin without an error, unless the watch itself
/// failed. Once it was asked to stop, a watch reports nothing.
pub proof fn law_reports_end_the_plugin(
    ended: Result<(), String>,
    stopped: bool,
    report: Option<Result<(), String>>,
    result: Result<(), SdkError>,
)
    requires
        call_ensures(watch_stdin, (ended, stopped), report),
        report is Some ==> call_ensures(
            parent_closed,
            (Ok::<Result<(), String>, String>(report->0),),
            result,
        ),
    ensures
        report is Some <==> !stopped,
        report is Some ==> report->0 == ended && (result is Ok <==> ended is Ok),
        report is Some && ended is Err ==> {
            &&& result->Err_0@ matches ErrorView::Runtime { source, .. } && source
                == ended->Err_0@
        },
{
}

} // verus!
