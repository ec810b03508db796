//! The errors of the runtime and their form on the wire.

use vstd::prelude::*;

use crate::protocol::{AnyView, ErrorCode, ProtocolError, ProtocolErrorView};

verus! {

/// Errors reported while configuring or running a plugin.
#[derive(Debug)]
#[non_exhaustive]
pub enum SdkError {
    /// The process environment cannot establish the oll runtime contract.
    Environment(String),
    /// A plugin-supplied argument violates an SDK or protocol invariant.
    InvalidArgument(String),
    /// The gRPC stream or its ordered output channel failed.
    Transport(String),
    /// The peer or action attempted an invalid protocol transition.
    Protocol(String),
    /// oll returned a structured protocol error for a host capability call.
    Host(ProtocolError),
    /// An action failed for a plugin-defined reason.
    Action(String),
    /// oll requested cancellation of the current action.
    Cancelled,
    /// A runtime boundary failed and retained its original error source.
    Runtime {
        /// The operation being performed when the error occurred.
        operation: &'static str,
        /// What the original library or operating-system error says.
        source: String,
    },
}

/// What an [`SdkError`] holds.
pub enum ErrorView {
    Environment(Seq<char>),
    InvalidArgument(Seq<char>),
    Transport(Seq<char>),
    Protocol(Seq<char>),
    Host(ProtocolErrorView),
    Action(Seq<char>),
    Cancelled,
    Runtime { operation: Seq<char>, source: Seq<char> },
}

impl ErrorView {
    /// What the error says to a reader.
    pub open spec fn text(self) -> Seq<char> {
        match self {
            ErrorView::Environment(message) => message,
            ErrorView::InvalidArgument(message) => message,
            ErrorView::Transport(message) => message,
            ErrorView::Protocol(message) => message,
            ErrorView::Host(error) => error.message,
            ErrorView::Action(message) => message,
            ErrorView::Cancelled => "action was cancelled"@,
            ErrorView::Runtime { operation, source } => operation + ": "@ + source,
        }
    }

    /// The code of the error on the wire.
    pub open spec fn code(self) -> ErrorCode {
        match self {
            ErrorView::Environment(_) => ErrorCode::Unavailable,
            ErrorView::InvalidArgument(_) => ErrorCode::InvalidArgument,
            ErrorView::Transport(_) => ErrorCode::Unavailable,
            ErrorView::Protocol(_) => ErrorCode::FailedPrecondition,
            ErrorView::Host(error) => error.code,
            ErrorView::Action(_) => ErrorCode::Internal,
            ErrorView::Cancelled => ErrorCode::Cancelled,
            ErrorView::Runtime { .. } => ErrorCode::Unavailable,
        }
    }

    /// Whether the same request may succeed later.
    pub open spec fn retryable(self) -> bool {
        match self {
            ErrorView::Environment(_) => true,
            ErrorView::Transport(_) => true,
            ErrorView::Runtime { .. } => true,
            ErrorView::Host(error) => error.retryable,
            _ => false,
        }
    }

    /// Whether no key of the metadata of a host error occurs twice.
    pub open spec fn keys_distinct(self) -> bool {
        match self {
            ErrorView::Host(error) => error.keys_distinct(),
            _ => true,
        }
    }

    /// The error on the wire: a host error unchanged, any other by its code, its
    /// text and whether it can be retried.
    pub open spec fn wire(self) -> ProtocolErrorView {
        match self {
            ErrorView::Host(error) => error,
            _ => plain_error(self.code(), self.text(), self.retryable()),
        }
    }
}

/// A structured error without metadata and details.
pub open spec fn plain_error(
    code: ErrorCode,
    message: Seq<char>,
    retryable: bool,
) -> ProtocolErrorView {
    ProtocolErrorView {
        code,
        message,
        retryable,
        metadata: Seq::empty(),
        details: Seq::empty(),
    }
}

impl View for SdkError {
    type V = ErrorView;

    open spec fn view(&self) -> ErrorView {
        match self {
            SdkError::Environment(message) => ErrorView::Environment(message@),
            SdkError::InvalidArgument(message) => ErrorView::InvalidArgument(message@),
            SdkError::Transport(message) => ErrorView::Transport(message@),
            SdkError::Protocol(message) => ErrorView::Protocol(message@),
            SdkError::Host(error) => ErrorView::Host(error@),
            SdkError::Action(message) => ErrorView::Action(message@),
            SdkError::Cancelled => ErrorView::Cancelled,
            SdkError::Runtime { operation, source } => ErrorView::Runtime {
                operation: operation@,
                source: source@,
            },
        }
    }
}

/// Builds a structured error without metadata and details.
pub fn new_plain_error(code: ErrorCode, message: String, retryable: bool) -> (result: ProtocolError)
    ensures
        result@ == plain_error(code, message@, retryable),
        result@.keys_distinct(),
{
    let result: ProtocolError = ProtocolError {
        code,
        message,
        retryable,
        metadata: Vec::new(),
        details: Vec::new(),
    };
    assert(result@.metadata =~= Seq::<(Seq<char>, Seq<char>)>::empty());
    assert(result@.details =~= Seq::<AnyView>::empty());
    result
}

impl SdkError {
    /// A failure of the runtime's surroundings during `operation`.
    pub fn runtime(operation: &'static str, source: String) -> (result: Self)
        ensures
            result@ == (ErrorView::Runtime { operation: operation@, source: source@ }),
    {
        SdkError::Runtime { operation, source }
    }

    /// A violated protocol rule.
    pub fn protocol(message: &str) -> (result: Self)
        ensures
            result@ == ErrorView::Protocol(message@),
    {
        SdkError::Protocol(message.to_owned())
    }

    /// An argument outside its domain.
    pub fn invalid_argument(message: &str) -> (result: Self)
        ensures
            result@ == ErrorView::InvalidArgument(message@),
    {
        SdkError::InvalidArgument(message.to_owned())
    }

    /// What the error says to a reader.
    pub fn message(&self) -> (result: String)
        ensures
            result@ == self@.text(),
    {
        match self {
            SdkError::Environment(message) => message.clone(),
            SdkError::InvalidArgument(message) => message.clone(),
            SdkError::Transport(message) => message.clone(),
            SdkError::Protocol(message) => message.clone(),
            SdkError::Host(error) => error.message.clone(),
            SdkError::Action(message) => message.clone(),
            SdkError::Cancelled => "action was cancelled".to_owned(),
            SdkError::Runtime { operation, source } => {
                let operation: &str = *operation;
                let mut text: String = operation.to_owned();
                text.append(": ");
                text.append(source.as_str());
                text
            },
        }
    }

    /// What the original error said, where a runtime boundary failed.
    pub fn source(&self) -> (result: Option<&str>)
        ensures
            match self@ {
                ErrorView::Runtime { source, .. } => result is Some && result->0@ == source,
                _ => result is None,
            },
    {
        match self {
            SdkError::Runtime { source, .. } => Some(source.as_str()),
            _ => None,
        }
    }

    /// The error as the host receives it.
    pub fn protocol_error(&self) -> (result: ProtocolError)
        ensures
            result@ == self@.wire(),
            self@.keys_distinct() ==> result@.keys_distinct(),
    {
        let (code, retryable): (ErrorCode, bool) = match self {
            SdkError::Host(error) => {
                return error.clone();
            },
            SdkError::InvalidArgument(_) => (ErrorCode::InvalidArgument, false),
            SdkError::Environment(_) => (ErrorCode::Unavailable, true),
            SdkError::Transport(_) => (ErrorCode::Unavailable, true),
            SdkError::Runtime { .. } => (ErrorCode::Unavailable, true),
            SdkError::Protocol(_) => (ErrorCode::FailedPrecondition, false),
            SdkError::Action(_) => (ErrorCode::Internal, false),
            SdkError::Cancelled => (ErrorCode::Cancelled, false),
        };
        new_plain_error(code, self.message(), retryable)
    }
}

/// Of the errors that do not come from the host, those that can be retried are
/// exactly those that reach it as unavailable.
pub proof fn law_retryable_is_unavailable(error: ErrorView)
    requires
        !(error is Host),
    ensures
        error.wire().retryable <==> error.wire().code == ErrorCode::Unavailable,
{
}

/// Every error reaches the host with a code that is set, unless the host itself
/// sent one without.
pub proof fn law_wire_code_is_set(error: ErrorView)
    requires
        !(error is Host),
    ensures
        !error.wire().code.left_open(),
        error.wire().message == error.text(),
{
}

/// Every error reaches the host under the code of its kind and with its own text.
/// What the surroundings caused may be retried, and an error of the host is passed on
/// as it came.
pub proof fn law_errors_reach_the_host_by_their_kind(error: SdkError, sent: ProtocolError)
    requires
        call_ensures(SdkError::protocol_error, (&error,), sent),
    ensures
        match error {
            SdkError::Host(fault) => sent@ == fault@,
            SdkError::Environment(text) => sent.code == ErrorCode::Unavailable && sent.message@
                == text@ && sent.retryable,
            SdkError::Transport(text) => sent.code == ErrorCode::Unavailable && sent.message@
                == text@ && sent.retryable,
            SdkError::Runtime { operation, source } => sent.code == ErrorCode::Unavailable
                && sent.message@ == operation@ + seq![':', ' '] + source@ && sent.retryable,
            SdkError::InvalidArgument(text) => sent.code == ErrorCode::InvalidArgument
                && sent.message@ == text@ && !sent.retryable,
            SdkError::Protocol(text) => sent.code == ErrorCode::FailedPrecondition
                && sent.message@ == text@ && !sent.retryable,
            SdkError::Action(text) => sent.code == ErrorCode::Internal && sent.message@ == text@
                && !sent.retryable,
            SdkError::Cancelled => sent.code == ErrorCode::Cancelled && sent.message@.len() > 0
                && !sent.retryable,
        },
        !(error is Host) ==> sent@.metadata.len() == 0 && sent@.details.len() == 0,
{
    reveal_strlit(": ");
    reveal_strlit("action was cancelled");
    assert(": "@ =~= seq![':', ' ']);
}

/// What an error says to a reader is what the host reads of it.
pub proof fn law_readers_and_the_host_read_the_same(
    error: SdkError,
    text: String,
    sent: ProtocolError,
)
    requires
        call_ensures(SdkError::message, (&error,), text),
        call_ensures(SdkError::protocol_error, (&error,), sent),
    ensures
        text@ == sent.message@,
{
}

} // verus!
