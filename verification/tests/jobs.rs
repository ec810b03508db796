use sha2::{Digest, Sha256};

use onelastleaf_plugin_sdk::cancellation::{Attempt, Cancellation};
use onelastleaf_plugin_sdk::error::SdkError;
use onelastleaf_plugin_sdk::host::client::HostClient;
use onelastleaf_plugin_sdk::host::upload::{UploadEvent, UploadStep};
use onelastleaf_plugin_sdk::host::{ActionContext, ActionResult, StoredArtifact};
use onelastleaf_plugin_sdk::protocol::{
    ActionInvocation, ArtifactDescriptor, ArtifactStored, ArtifactTransferAccepted,
    CancelJobRequest, ConfigKind, ConfigValue, ErrorCode,
    Invocation, JobCancellationReason, JobState, JobUpdate, Outgoing, Payload, PluginArtifactId,
    PluginJobId, ProtocolError, StartJobRequest, Timestamp, TraceContext,
};
use onelastleaf_plugin_sdk::session::jobs::{
    action_panic, capacity_error, joined, outbound_error, terminal_update, Admission, AdmittedJob,
    CancelAnswer, FinishedAction, JobManager, PanicPayload, CAPACITY_METADATA_KEY, COMPLETE,
};
use onelastleaf_plugin_sdk::Plugin;

const FIRST_JOB: &str = "00000000-0000-4000-8000-000000000001";
const SECOND_JOB: &str = "00000000-0000-4000-8000-000000000002";

fn trace(correlation_id: &str) -> TraceContext {
    TraceContext {
        correlation_id: correlation_id.to_owned(),
        parent_call_id: None,
        call_depth: 0,
        causal_depth: 0,
        task_id: Some("task".to_owned()),
        task_group_id: Some("group".to_owned()),
    }
}

fn start(job_id: &str, action: &str) -> StartJobRequest {
    StartJobRequest {
        job_id: Some(PluginJobId {
            value: job_id.to_owned(),
        }),
        deadline: None,
        invocation: Some(Invocation::Action(ActionInvocation {
            action: action.to_owned(),
            arguments: Vec::new(),
        })),
    }
}

fn cancellation(job_id: &str) -> CancelJobRequest {
    CancelJobRequest {
        job_id: Some(PluginJobId {
            value: job_id.to_owned(),
        }),
        reason: JobCancellationReason::UserRequest,
    }
}

fn manager(actions: &[&str], maximum_concurrent_jobs: usize) -> JobManager<u8> {
    let mut builder = Plugin::builder("org.example.test".to_owned(), "0.1.0".to_owned());
    for action in actions {
        builder = builder
            .action((*action).to_owned(), (*action).to_owned(), 0)
            .unwrap();
    }
    let plugin = builder.build().unwrap();
    JobManager::new(plugin.actions, maximum_concurrent_jobs)
}

fn accept(jobs: &mut JobManager<u8>, message_id: u64, job_id: &str, action: &str) -> AdmittedJob {
    match jobs.start(message_id, trace("start"), start(job_id, action)) {
        Ok(Admission::Accepted(reply, job)) => {
            assert_eq!(reply.reply_to, Some(message_id));
            assert!(matches!(reply.payload, Payload::JobAccepted(_)));
            job
        }
        _ => panic!("the job was not accepted"),
    }
}

fn finished(job_id: &str, output: Result<ActionResult, SdkError>) -> FinishedAction {
    joined(Ok((job_id.to_owned(), output))).ok().unwrap()
}

fn update(messages: Vec<Outgoing>) -> JobUpdate {
    assert_eq!(messages.len(), 1);
    match messages.into_iter().next().unwrap().payload {
        Payload::JobUpdate(update) => update,
        _ => panic!("the job did not end with a JobUpdate"),
    }
}

fn assert_panicking_action_fails(payload: PanicPayload, message: &str) {
    let mut jobs = manager(&["panic"], 1);
    accept(&mut jobs, 1, FIRST_JOB, "panic");
    let messages = jobs.settle(finished(FIRST_JOB, Err(action_panic(payload))));
    let update = update(messages);
    assert_eq!(update.state, JobState::Failed);
    let error = update.error.unwrap();
    assert_eq!(error.code, ErrorCode::Internal);
    assert_eq!(error.message, message);
}

#[test]
fn cancellation_waits_for_cooperative_action_cleanup() {
    let mut jobs = manager(&["wait"], 1);
    accept(&mut jobs, 1, FIRST_JOB, "wait");
    // Nothing is sent until the action has ended; it is only asked to stop.
    let answer = jobs.cancel(2, trace("cancel"), cancellation(FIRST_JOB)).unwrap();
    assert!(matches!(answer, CancelAnswer::Signal(job_id) if job_id == FIRST_JOB));
    let messages = jobs.settle(finished(FIRST_JOB, Ok(ActionResult::empty())));
    assert_eq!(messages.len(), 1);
    let acknowledgement = &messages[0];
    assert_eq!(acknowledgement.reply_to, Some(2));
    assert_eq!(acknowledgement.trace, trace("cancel"));
    assert!(matches!(
        acknowledgement.payload,
        Payload::CancelJobAcknowledged(_)
    ));
}

#[test]
fn inactive_job_cancellation_is_idempotently_acknowledged() {
    let mut jobs = manager(&[], 1);
    for message_id in [7, 8] {
        let answer = jobs
            .cancel(message_id, trace("cancel"), cancellation(FIRST_JOB))
            .unwrap();
        let CancelAnswer::Acknowledge(acknowledgement) = answer else {
            panic!("an inactive job was signalled");
        };
        assert_eq!(acknowledgement.reply_to, Some(message_id));
        assert!(matches!(
            acknowledgement.payload,
            Payload::CancelJobAcknowledged(_)
        ));
    }
}

#[test]
fn cancellation_wins_if_completion_has_not_been_queued() {
    let mut jobs = manager(&["done"], 1);
    accept(&mut jobs, 1, FIRST_JOB, "done");
    let finished = finished(FIRST_JOB, Ok(ActionResult::empty()));

    jobs.cancel(2, trace("cancel"), cancellation(FIRST_JOB)).unwrap();
    let messages = jobs.settle(finished);
    assert_eq!(messages.len(), 1);
    assert!(matches!(
        messages[0].payload,
        Payload::CancelJobAcknowledged(_)
    ));
}

#[test]
fn late_cancellation_does_not_replace_a_queued_terminal_update() {
    let mut jobs = manager(&["done"], 1);
    accept(&mut jobs, 1, FIRST_JOB, "done");
    let messages = jobs.settle(finished(FIRST_JOB, Ok(ActionResult::empty())));
    assert_eq!(messages.len(), 1);
    assert!(matches!(messages[0].payload, Payload::JobUpdate(_)));

    let answer = jobs.cancel(2, trace("cancel"), cancellation(FIRST_JOB)).unwrap();
    let CancelAnswer::Acknowledge(acknowledgement) = answer else {
        panic!("a settled job was signalled");
    };
    assert!(matches!(
        acknowledgement.payload,
        Payload::CancelJobAcknowledged(_)
    ));
}

#[test]
fn action_future_panics_become_failed_terminal_updates() {
    assert_panicking_action_fails(
        PanicPayload::Text("action failure".to_owned()),
        "action task panicked: action failure",
    );
}

#[test]
fn action_handler_panics_become_failed_terminal_updates() {
    assert_panicking_action_fails(
        PanicPayload::Text("handler failure".to_owned()),
        "action task panicked: handler failure",
    );
    assert_panicking_action_fails(
        PanicPayload::Other,
        "action task panicked: non-string panic payload",
    );
}

#[test]
fn malformed_action_errors_are_not_emitted_on_the_wire() {
    let error = outbound_error(&SdkError::Host(ProtocolError::default()));
    assert_eq!(error.code, ErrorCode::Internal);
    assert!(!error.message.is_empty());
}

#[test]
fn configured_capacity_rejects_only_excess_admission() {
    let mut jobs = manager(&["wait"], 1);
    accept(&mut jobs, 1, FIRST_JOB, "wait");
    let answer = jobs
        .start(2, trace("second"), start(SECOND_JOB, "wait"))
        .unwrap();
    let Admission::Rejected(rejected) = answer else {
        panic!("capacity exhaustion did not reject StartJobRequest");
    };
    assert_eq!(rejected.reply_to, Some(2));
    let Payload::ProtocolError(error) = rejected.payload else {
        panic!("capacity exhaustion did not reject StartJobRequest");
    };
    assert_eq!(error.code, ErrorCode::Unavailable);
    assert!(error.retryable);

    jobs.cancel(3, trace("cancel"), cancellation(FIRST_JOB)).unwrap();
    let messages = jobs.settle(finished(FIRST_JOB, Ok(ActionResult::empty())));
    assert_eq!(messages.len(), 1);
    accept(&mut jobs, 4, SECOND_JOB, "wait");
}

#[test]
fn shutdown_aborts_actions_and_settles_pending_job_cancellation() {
    let mut jobs = manager(&["wait"], 1);
    accept(&mut jobs, 1, FIRST_JOB, "wait");
    jobs.cancel(2, trace("cancel"), cancellation(FIRST_JOB)).unwrap();

    let stopped = jobs.shutdown();
    assert!(!jobs.has_active_jobs());
    assert_eq!(stopped.jobs, [FIRST_JOB]);
    assert_eq!(stopped.acknowledgements.len(), 1);
    assert_eq!(stopped.acknowledgements[0].reply_to, Some(2));
    assert!(matches!(
        stopped.acknowledgements[0].payload,
        Payload::CancelJobAcknowledged(_)
    ));
}

#[test]
fn admitted_jobs_carry_what_their_action_needs() {
    let mut jobs = manager(&["first", "second"], 2);
    let deadline = Timestamp {
        seconds: 10,
        nanos: 0,
    };
    let mut request = start(FIRST_JOB, "second");
    request.deadline = Some(deadline);
    request.invocation = Some(Invocation::Action(ActionInvocation {
        action: "second".to_owned(),
        arguments: vec!["a".to_owned(), "b".to_owned()],
    }));
    let Ok(Admission::Accepted(_, job)) = jobs.start(5, trace("start"), request) else {
        panic!("the job was not accepted");
    };
    assert_eq!(job.job_id, FIRST_JOB);
    assert_eq!(job.deadline, Some(deadline));
    assert_eq!(job.trace, trace("start"));
    assert_eq!(job.parent_call_id, 5);
    assert_eq!(job.action, 1);
    assert_eq!(job.arguments, ["a", "b"]);
    assert!(jobs.has_active_jobs());
    assert_eq!(jobs.find_job(FIRST_JOB), Some(0));
    assert_eq!(jobs.find_job(SECOND_JOB), None);
}

fn refusal(jobs: &mut JobManager<u8>, request: StartJobRequest) -> String {
    match jobs.start(9, trace("start"), request) {
        Err(error) => {
            assert!(matches!(error, SdkError::Protocol(_)));
            error.message()
        }
        Ok(_) => panic!("the request was not refused"),
    }
}

#[test]
fn invalid_starts_are_protocol_errors() {
    let mut jobs = manager(&["wait"], 2);
    accept(&mut jobs, 1, FIRST_JOB, "wait");
    let mut request = start(SECOND_JOB, "wait");
    request.job_id = None;
    assert_eq!(refusal(&mut jobs, request), "job ID is required");
    let mut request = start(SECOND_JOB, "wait");
    request.deadline = Some(Timestamp {
        seconds: 0,
        nanos: -1,
    });
    assert_eq!(
        refusal(&mut jobs, request),
        "StartJobRequest deadline must be a valid protobuf Timestamp"
    );
    assert_eq!(
        refusal(&mut jobs, start(FIRST_JOB, "wait")),
        "duplicate active job ID"
    );
    let mut request = start(SECOND_JOB, "wait");
    request.invocation = Some(Invocation::Other(vec![1]));
    assert_eq!(refusal(&mut jobs, request), "unsupported job invocation");
    let mut request = start(SECOND_JOB, "wait");
    request.invocation = None;
    assert_eq!(refusal(&mut jobs, request), "unsupported job invocation");
    assert_eq!(
        refusal(&mut jobs, start(SECOND_JOB, "fly")),
        "unknown action `fly`"
    );
    assert_eq!(jobs.active.len(), 1);
}

#[test]
fn a_finished_job_id_can_be_used_again() {
    let mut jobs = manager(&["done"], 1);
    accept(&mut jobs, 1, FIRST_JOB, "done");
    jobs.settle(finished(FIRST_JOB, Ok(ActionResult::empty())));
    accept(&mut jobs, 2, FIRST_JOB, "done");
}

#[test]
fn invalid_cancellations_are_protocol_errors() {
    let mut jobs = manager(&[], 1);
    for reason in [
        JobCancellationReason::Unspecified,
        JobCancellationReason::Other(0),
    ] {
        let mut request = cancellation(FIRST_JOB);
        request.reason = reason;
        assert_eq!(
            jobs.cancel(1, trace("cancel"), request).unwrap_err().message(),
            "CancelJobRequest reason must not be unspecified"
        );
    }
    let mut request = cancellation(FIRST_JOB);
    request.reason = JobCancellationReason::Other(999);
    assert!(jobs.cancel(1, trace("cancel"), request).is_ok());
    assert_eq!(
        jobs.cancel(1, trace("cancel"), cancellation("job")).unwrap_err().message(),
        "job ID must be a canonical UUID v4"
    );
}

#[test]
fn every_cancellation_is_acknowledged_once_and_in_order() {
    let mut jobs = manager(&["wait"], 2);
    accept(&mut jobs, 1, FIRST_JOB, "wait");
    accept(&mut jobs, 2, SECOND_JOB, "wait");
    for message_id in [3, 4, 5] {
        jobs.cancel(message_id, trace("cancel"), cancellation(FIRST_JOB)).unwrap();
    }
    jobs.cancel(6, trace("cancel"), cancellation(SECOND_JOB)).unwrap();
    let settled = jobs.settle(finished(FIRST_JOB, Err(SdkError::Cancelled)));
    for message in &settled {
        let Payload::CancelJobAcknowledged(acknowledged) = &message.payload else {
            panic!("a cancelled job was not acknowledged");
        };
        assert_eq!(acknowledged.job_id.as_ref().unwrap().value, FIRST_JOB);
    }
    let replies: Vec<Option<u64>> = settled.iter().map(|message| message.reply_to).collect();
    assert_eq!(replies, [Some(3), Some(4), Some(5)]);
    let stopped = jobs.shutdown();
    assert_eq!(stopped.jobs, [SECOND_JOB]);
    assert_eq!(stopped.acknowledgements.len(), 1);
    assert_eq!(stopped.acknowledgements[0].reply_to, Some(6));
}

fn descriptor(artifact_id: &str) -> ArtifactDescriptor {
    ArtifactDescriptor {
        artifact_id: Some(PluginArtifactId {
            value: artifact_id.to_owned(),
        }),
        file_name: "result.txt".to_owned(),
        media_type: "text/plain".to_owned(),
        size_bytes: 0,
        sha256: Sha256::digest([]).to_vec(),
    }
}

/// Stores an empty artifact for a job.
fn store(job_id: &str, artifact_id: &str) -> StoredArtifact {
    let host: HostClient<u8> = HostClient::new("session".to_owned(), 64 * 1024, 10);
    let context = ActionContext::new(
        job_id.to_owned(),
        None,
        trace("upload"),
        Cancellation::new(),
        1,
        &host,
    );
    let id = Some(PluginArtifactId {
        value: artifact_id.to_owned(),
    });
    let accepted = Payload::ArtifactAccepted(ArtifactTransferAccepted {
        artifact_id: id.clone(),
    });
    let confirmed = Payload::ArtifactStored(ArtifactStored { artifact_id: id });
    let (mut upload, _) = context.store_artifact(descriptor(artifact_id)).ok().unwrap();
    for event in [
        UploadEvent::Inspected(Attempt::Done(0)),
        UploadEvent::Read(Attempt::Done(&[])),
        UploadEvent::Rewound(Attempt::Done(())),
        UploadEvent::Replied(Ok(Attempt::Done(accepted))),
        UploadEvent::Replied(Ok(Attempt::Done(confirmed))),
    ] {
        match context.advance(upload, event).ok().unwrap() {
            UploadStep::Continue(next, _) => upload = next,
            UploadStep::Stored(stored) => return stored,
        }
    }
    panic!("the artifact was not stored");
}

fn artifact(job_id: &str) -> StoredArtifact {
    store(job_id, SECOND_JOB)
}

#[test]
fn successful_output_reaches_the_host_complete() {
    let value = ConfigValue {
        kind: Some(ConfigKind::StringValue("output".to_owned())),
    };
    let output = ActionResult::value(value.clone())
        .unwrap()
        .with_artifact(artifact(FIRST_JOB));
    let update = terminal_update(FIRST_JOB, Ok(output));
    assert_eq!(
        update,
        JobUpdate {
            job_id: Some(PluginJobId {
                value: FIRST_JOB.to_owned()
            }),
            state: JobState::Succeeded,
            progress: Some(f64::to_bits(1.0)),
            status_message: None,
            result: Some(value),
            error: None,
            artifacts: vec![descriptor(SECOND_JOB)],
        }
    );
    assert_eq!(COMPLETE, f64::to_bits(1.0));
}

#[test]
fn output_that_may_not_be_sent_fails_the_job() {
    let output = ActionResult::empty().with_artifact(artifact(SECOND_JOB));
    let update = terminal_update(FIRST_JOB, Ok(output));
    assert_eq!(update.state, JobState::Failed);
    assert!(update.result.is_none());
    assert!(update.artifacts.is_empty());
    let error = update.error.unwrap();
    assert_eq!(error.code, ErrorCode::InvalidArgument);
    assert_eq!(
        error.message,
        "job results may reference only artifacts stored by that job"
    );
    assert!(!error.retryable);
}

#[test]
fn well_formed_action_errors_are_sent_unchanged() {
    let error = ProtocolError {
        code: ErrorCode::Other(999),
        message: "future error".to_owned(),
        retryable: true,
        metadata: Vec::new(),
        details: Vec::new(),
    };
    assert_eq!(outbound_error(&SdkError::Host(error.clone())), error);
    let silent = outbound_error(&SdkError::Action(String::new()));
    assert_eq!(silent.code, ErrorCode::Internal);
    assert_eq!(silent.message, "action returned an invalid protocol error");
    assert!(!silent.retryable);
}

#[test]
fn capacity_errors_name_the_limit() {
    let error = capacity_error(256);
    assert_eq!(
        error,
        ProtocolError {
            code: ErrorCode::Unavailable,
            message: "plugin action capacity is currently exhausted".to_owned(),
            retryable: true,
            metadata: vec![("maximum_concurrent_jobs".to_owned(), "256".to_owned())],
            details: Vec::new(),
        }
    );
    assert_eq!(CAPACITY_METADATA_KEY, "maximum_concurrent_jobs");
    for maximum in [0, 9, 10, 4_096, usize::MAX] {
        assert_eq!(capacity_error(maximum).metadata[0].1, maximum.to_string());
    }
}

#[test]
fn lost_action_tasks_end_the_session() {
    let error = joined(Err("task was cancelled".to_owned())).err().unwrap();
    assert!(matches!(error, SdkError::Action(_)));
    assert_eq!(
        error.message(),
        "action supervisor task ended without a result: task was cancelled"
    );
}
