//! Which host calls may be made, and which answers fit them.

use vstd::prelude::*;

use crate::error::{ErrorView, SdkError};
use crate::protocol::{ConfigPath, ErrorCode, HostCall, HostCallResponse, HostCallResult};
use crate::text;
use crate::validation;
use crate::value;

verus! {

/// The host call that an answer has to fit.
#[derive(Clone, Copy, Debug, PartialEq, Eq, Structural)]
pub enum HostCallKind {
    ReadDocument,
    ListDirectory,
    GetDirectoryTree,
    ReadCrdt,
    CommitDocuments,
    GetConfig,
    InvokeConfigFunction,
}

/// The kind of a host call.
pub open spec fn call_kind(call: HostCall) -> HostCallKind {
    match call {
        HostCall::ReadDocument(_) => HostCallKind::ReadDocument,
        HostCall::ListDirectory(_) => HostCallKind::ListDirectory,
        HostCall::GetDirectoryTree(_) => HostCallKind::GetDirectoryTree,
        HostCall::ReadCrdt(_) => HostCallKind::ReadCrdt,
        HostCall::CommitDocuments(_) => HostCallKind::CommitDocuments,
        HostCall::GetConfig(_) => HostCallKind::GetConfig,
        HostCall::InvokeConfigFunction(_) => HostCallKind::InvokeConfigFunction,
    }
}

/// Whether every segment of a path says where it leads.
pub open spec fn path_complete(path: ConfigPath) -> bool {
    forall|index: int|
        0 <= index < path.segments@.len() ==> (#[trigger] path.segments@[index]).kind is Some
}

/// What is wrong with a host call of the session `session_id`.
pub open spec fn call_error(call: HostCall, session_id: Seq<char>) -> Option<ErrorView> {
    match call {
        HostCall::GetConfig(request) => match request.path {
            Some(path) if !path_complete(path) => Some(
                ErrorView::InvalidArgument(
                    "configuration path segments must specify a key or index"@,
                ),
            ),
            _ => None,
        },
        HostCall::InvokeConfigFunction(request) => match request.function {
            None => Some(
                ErrorView::InvalidArgument("configuration function reference is required"@),
            ),
            Some(function) => if function.session_id@ != session_id
                || function.function_id@.len() == 0 {
                Some(
                    ErrorView::InvalidArgument(
                        "configuration function must belong to the active session"@,
                    ),
                )
            } else {
                value::first_value_error(request.arguments@, 0, Some(session_id))
            },
        },
        _ => None,
    }
}

/// The kind of call that a result answers.
pub open spec fn result_kind(result: HostCallResult) -> Option<HostCallKind> {
    match result {
        HostCallResult::ReadDocument(_) => Some(HostCallKind::ReadDocument),
        HostCallResult::ListDirectory(_) => Some(HostCallKind::ListDirectory),
        HostCallResult::GetDirectoryTree(_) => Some(HostCallKind::GetDirectoryTree),
        HostCallResult::ReadCrdt(_) => Some(HostCallKind::ReadCrdt),
        HostCallResult::CommitDocuments(_) => Some(HostCallKind::CommitDocuments),
        HostCallResult::GetConfig(_) => Some(HostCallKind::GetConfig),
        HostCallResult::InvokeConfigFunction(_) => Some(HostCallKind::InvokeConfigFunction),
        HostCallResult::Error(_) => None,
    }
}

/// What is wrong with the answer to a call of this kind.
pub open spec fn response_error(
    kind: HostCallKind,
    response: HostCallResponse,
    session_id: Seq<char>,
) -> Option<ErrorView> {
    match response.result {
        None => Some(ErrorView::Protocol("HostCallResponse result is required"@)),
        Some(HostCallResult::Error(error)) => if validation::error_specified(error@) {
            None
        } else {
            Some(ErrorView::Protocol("ProtocolError code and message must be specified"@))
        },
        Some(result) => if result_kind(result) != Some(kind) {
            Some(
                ErrorView::Protocol("host returned another response kind for HostCallRequest"@),
            )
        } else {
            match result {
                HostCallResult::GetConfig(response) => match response.value {
                    Some(configured) => value::value_error(configured, 0, Some(session_id)),
                    None => None,
                },
                HostCallResult::InvokeConfigFunction(response) => value::first_value_error(
                    response.results@,
                    0,
                    Some(session_id),
                ),
                _ => None,
            }
        },
    }
}

fn complete(path: &ConfigPath) -> (result: bool)
    ensures
        result == path_complete(*path),
{
    for index in 0..path.segments.len()
        invariant
            forall|k: int| 0 <= k < index ==> (#[trigger] path.segments@[k]).kind is Some,
    {
        if path.segments[index].kind.is_none() {
            return false;
        }
    }
    true
}

impl HostCallKind {
    /// Checks a call before it is made.
    pub fn validate(call: &HostCall, session_id: &str) -> (result: Result<Self, SdkError>)
        ensures
            match result {
                Ok(kind) => call_error(*call, session_id@) is None && kind == call_kind(*call),
                Err(error) => call_error(*call, session_id@) == Some(error@),
            },
    {
        match call {
            HostCall::ReadDocument(_) => Ok(HostCallKind::ReadDocument),
            HostCall::ListDirectory(_) => Ok(HostCallKind::ListDirectory),
            HostCall::GetDirectoryTree(_) => Ok(HostCallKind::GetDirectoryTree),
            HostCall::ReadCrdt(_) => Ok(HostCallKind::ReadCrdt),
            HostCall::CommitDocuments(_) => Ok(HostCallKind::CommitDocuments),
            HostCall::GetConfig(request) => {
                let incomplete: bool = match &request.path {
                    Some(path) => !complete(path),
                    None => false,
                };
                if incomplete {
                    return Err(
                        SdkError::invalid_argument(
                            "configuration path segments must specify a key or index",
                        ),
                    );
                }
                Ok(HostCallKind::GetConfig)
            },
            HostCall::InvokeConfigFunction(request) => {
                match &request.function {
                    None => {
                        return Err(
                            SdkError::invalid_argument(
                                "configuration function reference is required",
                            ),
                        );
                    },
                    Some(function) => {
                        if !text::same(function.session_id.as_str(), session_id)
                            || function.function_id.as_str().is_empty() {
                            return Err(
                                SdkError::invalid_argument(
                                    "configuration function must belong to the active session",
                                ),
                            );
                        }
                    },
                }
                match value::validate_session_values(request.arguments.as_slice(), session_id) {
                    Ok(()) => Ok(HostCallKind::InvokeConfigFunction),
                    Err(error) => Err(error),
                }
            },
        }
    }

    /// Checks the answer to a call of this kind.
    pub fn validate_response(self, response: &HostCallResponse, session_id: &str) -> (result:
        Result<(), SdkError>)
        ensures
            match result {
                Ok(()) => response_error(self, *response, session_id@) is None,
                Err(error) => response_error(self, *response, session_id@) == Some(error@),
            },
    {
        match (self, &response.result) {
            (HostCallKind::ReadDocument, Some(HostCallResult::ReadDocument(_))) => Ok(()),
            (HostCallKind::ListDirectory, Some(HostCallResult::ListDirectory(_))) => Ok(()),
            (HostCallKind::GetDirectoryTree, Some(HostCallResult::GetDirectoryTree(_))) => Ok(()),
            (HostCallKind::ReadCrdt, Some(HostCallResult::ReadCrdt(_))) => Ok(()),
            (HostCallKind::CommitDocuments, Some(HostCallResult::CommitDocuments(_))) => Ok(()),
            (
                HostCallKind::GetConfig,
                Some(HostCallResult::GetConfig(response)),
            ) => match &response.value {
                Some(configured) => value::validate(configured, 0, Some(session_id)),
                None => Ok(()),
            },
            (
                HostCallKind::InvokeConfigFunction,
                Some(HostCallResult::InvokeConfigFunction(response)),
            ) => value::validate_session_values(response.results.as_slice(), session_id),
            (_, Some(HostCallResult::Error(error))) => validation::protocol_error(error),
            (_, Some(_)) => Err(
                SdkError::protocol("host returned another response kind for HostCallRequest"),
            ),
            (_, None) => Err(SdkError::protocol("HostCallResponse result is required")),
        }
    }
}

/// An accepted answer either answers the call that was made or is an error that
/// says what happened.
pub proof fn law_accepted_answers_fit_their_call(
    call: HostCall,
    response: HostCallResponse,
    session_id: Seq<char>,
)
    requires
        response_error(call_kind(call), response, session_id) is None,
    ensures
        response.result matches Some(result) && (result_kind(result) == Some(call_kind(call)) || (
        result matches HostCallResult::Error(error) && validation::error_specified(error@))),
{
}

/// Each call is answered by the result of its own name: of results without
/// configuration values, a call accepts exactly the one of the same variant.
pub proof fn law_calls_are_answered_by_their_own_results(
    call: HostCall,
    result: HostCallResult,
    session_id: Seq<char>,
)
    requires
        !(result is Error),
        result matches HostCallResult::GetConfig(configured) ==> configured.value is None,
        result matches HostCallResult::InvokeConfigFunction(returned) ==> returned.results@.len()
            == 0,
    ensures
        response_error(call_kind(call), HostCallResponse { result: Some(result) }, session_id)
            is None <==> {
            ||| call is ReadDocument && result is ReadDocument
            ||| call is ListDirectory && result is ListDirectory
            ||| call is GetDirectoryTree && result is GetDirectoryTree
            ||| call is ReadCrdt && result is ReadCrdt
            ||| call is CommitDocuments && result is CommitDocuments
            ||| call is GetConfig && result is GetConfig
            ||| call is InvokeConfigFunction && result is InvokeConfigFunction
        },
{
}

/// Configuration values come back only to the call that asked for them, and only if
/// each of them may be exchanged in the session.
pub proof fn law_configuration_is_checked_on_its_way_back(
    call: HostCall,
    result: HostCallResult,
    session_id: Seq<char>,
)
    ensures
        result matches HostCallResult::GetConfig(configured) ==> (response_error(
            call_kind(call),
            HostCallResponse { result: Some(result) },
            session_id,
        ) is None <==> call is GetConfig && (configured.value matches Some(configured)
            ==> value::value_error(configured, 0, Some(session_id)) is None)),
        result matches HostCallResult::InvokeConfigFunction(returned) ==> (response_error(
            call_kind(call),
            HostCallResponse { result: Some(result) },
            session_id,
        ) is None <==> call is InvokeConfigFunction && forall|index: int|
            0 <= index < returned.results@.len() ==> value::value_error(
                #[trigger] returned.results@[index],
                0,
                Some(session_id),
            ) is None),
{
    match result {
        HostCallResult::InvokeConfigFunction(returned) => {
            value::law_values_pass_together(returned.results@, 0, Some(session_id));
        },
        _ => {},
    }
}

/// The kind that a checked call is known by accepts the answer to that call and no
/// other, and an answer is taken exactly if it is the result of the same name, with
/// values that may be exchanged in the session, or a structured error with a code and
/// a message.
pub proof fn law_checked_calls_take_only_their_answers(
    call: HostCall,
    session_id: &str,
    kind: HostCallKind,
    response: HostCallResponse,
    result: Result<(), SdkError>,
)
    requires
        call_ensures(
            HostCallKind::validate,
            (&call, session_id),
            Ok::<HostCallKind, SdkError>(kind),
        ),
        call_ensures(HostCallKind::validate_response, (kind, &response, session_id), result),
    ensures
        match result {
            Ok(()) => match (call, response.result) {
                (HostCall::ReadDocument(_), Some(HostCallResult::ReadDocument(_))) => true,
                (HostCall::ListDirectory(_), Some(HostCallResult::ListDirectory(_))) => true,
                (HostCall::GetDirectoryTree(_), Some(HostCallResult::GetDirectoryTree(_))) => true,
                (HostCall::ReadCrdt(_), Some(HostCallResult::ReadCrdt(_))) => true,
                (HostCall::CommitDocuments(_), Some(HostCallResult::CommitDocuments(_))) => true,
                (HostCall::GetConfig(_), Some(HostCallResult::GetConfig(_))) => true,
                (
                    HostCall::InvokeConfigFunction(_),
                    Some(HostCallResult::InvokeConfigFunction(_)),
                ) => true,
                (_, Some(HostCallResult::Error(error))) => error.code != ErrorCode::Unspecified
                    && error.code != ErrorCode::Other(0) && error.message@.len() > 0,
                _ => false,
            },
            Err(error) => match (call, response.result) {
                (HostCall::ReadDocument(_), Some(HostCallResult::ReadDocument(_))) => false,
                (HostCall::ListDirectory(_), Some(HostCallResult::ListDirectory(_))) => false,
                (HostCall::GetDirectoryTree(_), Some(HostCallResult::GetDirectoryTree(_))) => false,
                (HostCall::ReadCrdt(_), Some(HostCallResult::ReadCrdt(_))) => false,
                (HostCall::CommitDocuments(_), Some(HostCallResult::CommitDocuments(_))) => false,
                (
                    HostCall::GetConfig(_),
                    Some(HostCallResult::GetConfig(configured)),
                ) => configured.value matches Some(configured) && value::value_error(
                    configured,
                    0,
                    Some(session_id@),
                ) == Some(error@),
                (
                    HostCall::InvokeConfigFunction(_),
                    Some(HostCallResult::InvokeConfigFunction(returned)),
                ) => exists|index: int|
                    0 <= index < returned.results@.len() && value::value_error(
                        #[trigger] returned.results@[index],
                        0,
                        Some(session_id@),
                    ) == Some(error@),
                (_, Some(HostCallResult::Error(fault))) => error@ is Protocol && !(fault.code
                    != ErrorCode::Unspecified && fault.code != ErrorCode::Other(0)
                    && fault.message@.len() > 0),
                _ => error@ is Protocol,
            },
        },
{
    match response.result {
        Some(HostCallResult::InvokeConfigFunction(returned)) => {
            value::law_the_first_fault_of_a_list_is_reported(
                returned.results@,
                0,
                Some(session_id@),
            );
        },
        _ => {},
    }
}

/// Calls of the document service are never refused. A read of the configuration is
/// refused exactly if a segment of its path leads nowhere, and the call of a
/// configuration function exactly if it names no function of the session or hands
/// over an argument that may not be exchanged in it.
pub proof fn law_calls_are_refused_only_for_their_configuration(
    call: HostCall,
    session_id: &str,
    result: Result<HostCallKind, SdkError>,
)
    requires
        call_ensures(HostCallKind::validate, (&call, session_id), result),
    ensures
        result is Ok <==> match call {
            HostCall::GetConfig(request) => request.path matches Some(path) ==> forall|index: int|
                0 <= index < path.segments@.len() ==> (#[trigger] path.segments@[index]).kind
                    is Some,
            HostCall::InvokeConfigFunction(request) => request.function matches Some(function) && {
                &&& function.session_id@ == session_id@
                &&& function.function_id@.len() > 0
                &&& forall|index: int|
                    0 <= index < request.arguments@.len() ==> value::value_error(
                        #[trigger] request.arguments@[index],
                        0,
                        Some(session_id@),
                    ) is None
            },
            _ => true,
        },
{
    match call {
        HostCall::InvokeConfigFunction(request) => {
            value::law_values_pass_together(request.arguments@, 0, Some(session_id@));
        },
        _ => {},
    }
}

} // verus!
