//! Admission, cancellation and completion of jobs.

use vstd::multiset::Multiset;
use vstd::prelude::*;

use crate::error;
use crate::error::{ErrorView, SdkError};
use crate::host;
use crate::host::{ActionResult, StoredArtifact};
use crate::plugin;
use crate::plugin::RegisteredAction;
use crate::protocol::{
    ActionInvocation, AnyView, CancelJobAcknowledged, CancelJobRequest, ConfigValue, ErrorCode,
    Invocation,
    JobAccepted, JobCancellationReason, JobState, JobUpdate, Outgoing, Payload, PluginJobId,
    ProtocolError, ProtocolErrorView, StartJobRequest, Timestamp, TraceContext,
};
use crate::text;
use crate::validation;
use crate::value;

verus! {

pub const CAPACITY_METADATA_KEY: &'static str = "maximum_concurrent_jobs";

/// The finished fraction of a job that has ended: the bits of the number one in
/// the binary64 format.
pub const COMPLETE: u64 = 0x3ff0_0000_0000_0000;

// ---------------------------------------------------------------------------
// State
// ---------------------------------------------------------------------------

/// A cancellation that is acknowledged when the action has ended.
#[derive(Debug)]
pub struct PendingCancellation {
    pub reply_to: u64,
    pub trace: TraceContext,
    pub job_id: PluginJobId,
}

/// A job whose action runs, or has ended and not been settled.
#[derive(Debug)]
pub struct ActiveJob {
    pub job_id: String,
    pub trace: TraceContext,
    pub cancellations: Vec<PendingCancellation>,
}

/// The jobs of a session.
pub struct JobManager<H> {
    pub actions: Vec<RegisteredAction<H>>,
    pub maximum_concurrent_jobs: usize,
    pub active: Vec<ActiveJob>,
}

/// What it takes to run the action of an admitted job.
#[derive(Debug)]
pub struct AdmittedJob {
    pub job_id: String,
    pub deadline: Option<Timestamp>,
    pub trace: TraceContext,
    pub parent_call_id: u64,
    /// The place of the action among those of the plugin.
    pub action: usize,
    pub arguments: Vec<String>,
}

/// The answer to a request to start a job.
#[derive(Debug)]
pub enum Admission {
    /// The job is not started, and the host is told why.
    Rejected(Outgoing),
    /// The host is told that the job is accepted, and its action is started.
    Accepted(Outgoing, AdmittedJob),
}

/// The answer to a request to cancel a job.
#[derive(Debug)]
pub enum CancelAnswer {
    /// The action of this job is asked to stop. The host is answered when it has.
    Signal(String),
    /// No such job is active, and the host is told at once.
    Acknowledge(Outgoing),
}

/// An action that has ended.
pub struct FinishedAction {
    pub job_id: String,
    pub output: Result<ActionResult, SdkError>,
}

/// What is left to do for the jobs of a session that shuts down.
#[derive(Debug)]
pub struct StoppedJobs {
    /// The jobs whose actions are stopped.
    pub jobs: Vec<String>,
    /// What the host is told once they have stopped.
    pub acknowledgements: Vec<Outgoing>,
}

/// What a panicking action left behind.
#[derive(Debug)]
pub enum PanicPayload {
    Text(String),
    Other,
}

/// Whether `index` is the place of the job `job_id`.
pub open spec fn is_job(active: Seq<ActiveJob>, index: int, job_id: Seq<char>) -> bool {
    0 <= index < active.len() && active[index].job_id@ == job_id
}

/// Whether the job `job_id` is active.
pub open spec fn is_active(active: Seq<ActiveJob>, job_id: Seq<char>) -> bool {
    exists|index: int| is_job(active, index, job_id)
}

/// Whether no two active jobs have the same ID.
pub open spec fn jobs_distinct(active: Seq<ActiveJob>) -> bool {
    forall|left: int, right: int|
        0 <= left < right < active.len() ==> (#[trigger] active[left]).job_id@ != (
        #[trigger] active[right]).job_id@
}

/// Whether every pending cancellation names the job it is kept with.
pub open spec fn cancellations_named(active: Seq<ActiveJob>) -> bool {
    forall|index: int, k: int|
        0 <= index < active.len() && 0 <= k < active[index].cancellations@.len() ==> (
        #[trigger] active[index].cancellations@[k]).job_id.value@ == active[index].job_id@
}

/// The acknowledgement of a cancellation.
pub open spec fn acknowledgement(cancellation: PendingCancellation) -> Outgoing {
    Outgoing {
        reply_to: Some(cancellation.reply_to),
        trace: cancellation.trace,
        payload: Payload::CancelJobAcknowledged(
            CancelJobAcknowledged { job_id: Some(cancellation.job_id) },
        ),
    }
}

/// Whether a message acknowledges a cancellation of the job `job_id`.
pub open spec fn acknowledges(message: Outgoing, job_id: Seq<char>) -> bool {
    &&& message.reply_to is Some
    &&& message.payload matches Payload::CancelJobAcknowledged(acknowledged)
        && acknowledged.job_id matches Some(id) && id.value@ == job_id
}

/// The acknowledgements of some cancellations, in the same order.
pub open spec fn acknowledgements(cancellations: Seq<PendingCancellation>) -> Seq<Outgoing> {
    cancellations.map_values(|cancellation: PendingCancellation| acknowledgement(cancellation))
}

/// The acknowledgements that all active jobs owe.
pub open spec fn all_acknowledgements(active: Seq<ActiveJob>) -> Seq<Outgoing>
    decreases active.len(),
{
    if active.len() == 0 {
        Seq::empty()
    } else {
        all_acknowledgements(active.drop_last()) + acknowledgements(active.last().cancellations@)
    }
}

// ---------------------------------------------------------------------------
// Errors and terminal updates
// ---------------------------------------------------------------------------

/// An error as it is sent to the host: unchanged if it says what happened, and
/// replaced as a whole if it does not.
pub open spec fn outbound(error: ErrorView) -> ProtocolErrorView {
    if validation::error_specified(error.wire()) {
        error.wire()
    } else {
        error::plain_error(
            ErrorCode::Internal,
            "action returned an invalid protocol error"@,
            false,
        )
    }
}

/// The error that the host receives for an action that failed.
pub fn outbound_error(error: &SdkError) -> (result: ProtocolError)
    ensures
        result@ == outbound(error@),
        error@.keys_distinct() ==> result@.keys_distinct(),
{
    let error: ProtocolError = error.protocol_error();
    if validation::protocol_error(&error).is_ok() {
        error
    } else {
        error::new_plain_error(
            ErrorCode::Internal,
            "action returned an invalid protocol error".to_owned(),
            false,
        )
    }
}

/// What a panic payload says.
pub open spec fn panic_text(payload: PanicPayload) -> Seq<char> {
    match payload {
        PanicPayload::Text(text) => text@,
        PanicPayload::Other => "non-string panic payload"@,
    }
}

/// The error of an action that panicked.
pub fn action_panic(payload: PanicPayload) -> (result: SdkError)
    ensures
        result@ == ErrorView::Action("action task panicked: "@ + panic_text(payload)),
{
    let mut message: String = "action task panicked: ".to_owned();
    match payload {
        PanicPayload::Text(text) => message.append(text.as_str()),
        PanicPayload::Other => message.append("non-string panic payload"),
    }
    SdkError::Action(message)
}

/// The error of a job that would exceed the capacity of the plugin.
pub open spec fn exhausted(maximum: usize) -> ProtocolErrorView {
    ProtocolErrorView {
        code: ErrorCode::Unavailable,
        message: "plugin action capacity is currently exhausted"@,
        retryable: true,
        metadata: seq![(CAPACITY_METADATA_KEY@, text::decimal(maximum as nat))],
        details: Seq::empty(),
    }
}

/// The error of a job that would exceed the capacity of the plugin.
pub fn capacity_error(maximum: usize) -> (result: ProtocolError)
    ensures
        result@ == exhausted(maximum),
        result@.keys_distinct(),
{
    let mut metadata: Vec<(String, String)> = Vec::new();
    metadata.push((CAPACITY_METADATA_KEY.to_owned(), text::decimal_text(maximum)));
    let result: ProtocolError = ProtocolError {
        code: ErrorCode::Unavailable,
        message: "plugin action capacity is currently exhausted".to_owned(),
        retryable: true,
        metadata,
        details: Vec::new(),
    };
    assert(result@.metadata =~= exhausted(maximum).metadata);
    assert(result@.details =~= Seq::<AnyView>::empty());
    result
}

/// Whether an update reports that a job failed with this error.
pub open spec fn reports_failure(update: JobUpdate, error: ErrorView) -> bool {
    &&& update.state == JobState::Failed
    &&& update.result is None
    &&& update.error matches Some(sent) && sent@ == outbound(error)
    &&& update.artifacts@.len() == 0
}

/// Whether an update reports the output of a job.
pub open spec fn reports(
    update: JobUpdate,
    job_id: Seq<char>,
    output: Result<ActionResult, SdkError>,
) -> bool {
    &&& update.job_id matches Some(id) && id.value@ == job_id
    &&& update.progress == Some(COMPLETE)
    &&& update.status_message is None
    &&& match output {
        Ok(output) => match output.wire_error(job_id) {
            None => {
                &&& update.state == JobState::Succeeded
                &&& update.result == output.output()
                &&& update.error is None
                &&& update.artifacts@ == output.stored().map_values(
                    |artifact: StoredArtifact| artifact.declared(),
                )
            },
            Some(error) => reports_failure(update, error),
        },
        Err(error) => reports_failure(update, error@),
    }
}

fn failure(job_id: &str, error: &SdkError) -> (result: JobUpdate)
    ensures
        reports_failure(result, error@),
        result.job_id matches Some(id) && id.value@ == job_id@,
        result.progress == Some(COMPLETE),
        result.status_message is None,
{
    JobUpdate {
        job_id: Some(PluginJobId { value: job_id.to_owned() }),
        state: JobState::Failed,
        progress: Some(COMPLETE),
        status_message: None,
        result: None,
        error: Some(outbound_error(error)),
        artifacts: Vec::new(),
    }
}

/// The last update of a job: its output, or why there is none.
pub fn terminal_update(job_id: &str, output: Result<ActionResult, SdkError>) -> (result: JobUpdate)
    requires
        output matches Ok(output) ==> output.well_formed(),
    ensures
        reports(result, job_id@, output),
{
    match output {
        Ok(output) => match output.into_wire(job_id) {
            Ok((value, artifacts)) => JobUpdate {
                job_id: Some(PluginJobId { value: job_id.to_owned() }),
                state: JobState::Succeeded,
                progress: Some(COMPLETE),
                status_message: None,
                result: value,
                error: None,
                artifacts,
            },
            Err(error) => failure(job_id, &error),
        },
        Err(error) => failure(job_id, &error),
    }
}

/// The action behind the outcome of its task, which the runtime supervises.
pub fn joined(outcome: Result<(String, Result<ActionResult, SdkError>), String>) -> (result: Result<
    FinishedAction,
    SdkError,
>)
    ensures
        match outcome {
            Ok((job_id, output)) => result == Ok::<FinishedAction, SdkError>(
                FinishedAction { job_id, output },
            ),
            Err(source) => result is Err && result->Err_0@ == ErrorView::Action(
                "action supervisor task ended without a result: "@ + source@,
            ),
        },
{
    match outcome {
        Ok((job_id, output)) => Ok(FinishedAction { job_id, output }),
        Err(source) => {
            let mut message: String =
                "action supervisor task ended without a result: ".to_owned();
            message.append(source.as_str());
            Err(SdkError::Action(message))
        },
    }
}

fn acknowledge(cancellation: PendingCancellation) -> (result: Outgoing)
    ensures
        result == acknowledgement(cancellation),
{
    Outgoing {
        reply_to: Some(cancellation.reply_to),
        trace: cancellation.trace,
        payload: Payload::CancelJobAcknowledged(
            CancelJobAcknowledged { job_id: Some(cancellation.job_id) },
        ),
    }
}

fn acknowledge_all(cancellations: Vec<PendingCancellation>) -> (result: Vec<Outgoing>)
    ensures
        result@ == acknowledgements(cancellations@),
{
    let ghost owed = cancellations@;
    let mut messages: Vec<Outgoing> = Vec::new();
    for cancellation in iter: cancellations
        invariant
            iter.seq() == owed,
            messages@.len() == iter.index(),
            forall|k: int|
                0 <= k < iter.index() ==> #[trigger] messages@[k] == acknowledgement(owed[k]),
    {
        messages.push(acknowledge(cancellation));
    }
    assert(messages@ =~= acknowledgements(owed));
    messages
}

// ---------------------------------------------------------------------------
// Transitions
// ---------------------------------------------------------------------------

impl<H> JobManager<H> {
    /// No job is active twice, never more jobs than the plugin runs at once, and
    /// every job holds only cancellations of its own.
    pub open spec fn well_formed(self) -> bool {
        &&& jobs_distinct(self.active@)
        &&& self.active@.len() <= self.maximum_concurrent_jobs
        &&& cancellations_named(self.active@)
    }

    /// Whether both managers serve the same plugin.
    pub open spec fn same_plugin(self, other: Self) -> bool {
        self.actions == other.actions && self.maximum_concurrent_jobs
            == other.maximum_concurrent_jobs
    }

    /// A manager without jobs.
    pub fn new(actions: Vec<RegisteredAction<H>>, maximum_concurrent_jobs: usize) -> (result: Self)
        ensures
            result.actions == actions,
            result.maximum_concurrent_jobs == maximum_concurrent_jobs,
            result.active@.len() == 0,
            result.well_formed(),
    {
        JobManager { actions, maximum_concurrent_jobs, active: Vec::new() }
    }

    /// Whether any job is active.
    pub fn has_active_jobs(&self) -> (result: bool)
        ensures
            result == (self.active@.len() > 0),
    {
        !self.active.is_empty()
    }

    /// The place of the job `job_id`.
    pub fn find_job(&self, job_id: &str) -> (result: Option<usize>)
        ensures
            match result {
                Some(index) => is_job(self.active@, index as int, job_id@),
                None => !is_active(self.active@, job_id@),
            },
    {
        for index in 0..self.active.len()
            invariant
                forall|k: int| 0 <= k < index ==> !#[trigger] is_job(self.active@, k, job_id@),
        {
            if text::same(self.active[index].job_id.as_str(), job_id) {
                return Some(index);
            }
        }
        None
    }

    /// What is wrong with a request to start a job.
    pub open spec fn start_error(self, request: StartJobRequest) -> Option<ErrorView> {
        if validation::job_id_error(request.job_id) is Some {
            validation::job_id_error(request.job_id)
        } else if request.deadline matches Some(deadline) && !value::timestamp_in_domain(deadline) {
            Some(validation::timestamp_error("StartJobRequest deadline"@))
        } else if is_active(self.active@, request.job_id->0.value@) {
            Some(ErrorView::Protocol("duplicate active job ID"@))
        } else {
            match request.invocation {
                Some(Invocation::Action(invocation)) => if plugin::registered(
                    self.actions@,
                    invocation.action@,
                ) {
                    None
                } else {
                    Some(
                        ErrorView::Protocol("unknown action `"@ + invocation.action@ + "`"@),
                    )
                },
                _ => Some(ErrorView::Protocol("unsupported job invocation"@)),
            }
        }
    }

    /// Whether starting a job is answered by `answer` and turns `self` into
    /// `after`.
    pub open spec fn starts(
        self,
        message_id: u64,
        trace: TraceContext,
        request: StartJobRequest,
        answer: Admission,
        after: Self,
    ) -> bool {
        &&& self.start_error(request) is None
        &&& after.same_plugin(self)
        &&& match answer {
            Admission::Rejected(reply) => {
                &&& self.active@.len() >= self.maximum_concurrent_jobs
                &&& after.active == self.active
                &&& reply.reply_to == Some(message_id)
                &&& reply.trace == trace
                &&& reply.payload matches Payload::ProtocolError(error) && error@ == exhausted(
                    self.maximum_concurrent_jobs,
                )
            },
            Admission::Accepted(reply, job) => {
                let job_id = request.job_id->0.value;
                let invocation = request.invocation->0->Action_0;
                &&& self.active@.len() < self.maximum_concurrent_jobs
                &&& reply == Outgoing {
                    reply_to: Some(message_id),
                    trace,
                    payload: Payload::JobAccepted(
                        JobAccepted { job_id: Some(PluginJobId { value: job_id }) },
                    ),
                }
                &&& job.job_id == job_id
                &&& job.deadline == request.deadline
                &&& job.trace == trace
                &&& job.parent_call_id == message_id
                &&& job.action < self.actions@.len() && self.actions@[job.action as int].name@
                    == invocation.action@
                &&& job.arguments == invocation.arguments
                &&& after.active@.len() == self.active@.len() + 1
                &&& after.active@.drop_last() == self.active@
                &&& after.active@.last().job_id == job_id
                &&& after.active@.last().trace == trace
                &&& after.active@.last().cancellations@.len() == 0
            },
        }
    }

    /// Admits a job, unless the request is not valid or the plugin is busy.
    pub fn start(
        &mut self,
        message_id: u64,
        trace: TraceContext,
        request: StartJobRequest,
    ) -> (result: Result<Admission, SdkError>)
        requires
            old(self).well_formed(),
        ensures
            final(self).well_formed(),
            match result {
                Ok(answer) => old(self).starts(message_id, trace, request, answer, *final(self)),
                Err(error) => {
                    &&& *final(self) == *old(self)
                    &&& old(self).start_error(request) == Some(error@)
                },
            },
    {
        let job_id: String = match validation::job_id(&request.job_id) {
            Ok(job_id) => job_id.clone(),
            Err(error) => {
                return Err(error);
            },
        };
        match validation::optional_timestamp(request.deadline, "StartJobRequest deadline") {
            Ok(()) => {},
            Err(error) => {
                return Err(error);
            },
        }
        if self.find_job(job_id.as_str()).is_some() {
            return Err(SdkError::protocol("duplicate active job ID"));
        }
        let invocation: ActionInvocation = match request.invocation {
            Some(Invocation::Action(invocation)) => invocation,
            _ => {
                return Err(SdkError::protocol("unsupported job invocation"));
            },
        };
        let action: usize = match plugin::find_action(&self.actions, invocation.action.as_str()) {
            Some(action) => action,
            None => {
                let mut message: String = "unknown action `".to_owned();
                message.append(invocation.action.as_str());
                message.append("`");
                return Err(SdkError::Protocol(message));
            },
        };
        if self.active.len() >= self.maximum_concurrent_jobs {
            let reply: Outgoing = Outgoing {
                reply_to: Some(message_id),
                trace,
                payload: Payload::ProtocolError(capacity_error(self.maximum_concurrent_jobs)),
            };
            return Ok(Admission::Rejected(reply));
        }
        let reply: Outgoing = Outgoing {
            reply_to: Some(message_id),
            trace: trace.clone(),
            payload: Payload::JobAccepted(
                JobAccepted { job_id: Some(PluginJobId { value: job_id.clone() }) },
            ),
        };
        let job: AdmittedJob = AdmittedJob {
            job_id: job_id.clone(),
            deadline: request.deadline,
            trace: trace.clone(),
            parent_call_id: message_id,
            action,
            arguments: invocation.arguments,
        };
        self.active.push(ActiveJob { job_id, trace, cancellations: Vec::new() });
        proof {
            assert(self.active@.drop_last() =~= old(self).active@);
            assert forall|left: int, right: int| 0 <= left < right < self.active@.len() implies (
            #[trigger] self.active@[left]).job_id@ != (#[trigger] self.active@[right]).job_id@ by {
                assert(!is_job(old(self).active@, left, job_id@));
            }
            assert forall|index: int, k: int|
                0 <= index < self.active@.len() && 0 <= k
                    < self.active@[index].cancellations@.len() implies (
            #[trigger] self.active@[index].cancellations@[k]).job_id.value@
                == self.active@[index].job_id@ by {
                assert(old(self).active@[index].cancellations@[k].job_id.value@ == old(
                    self,
                ).active@[index].job_id@);
            }
        }
        Ok(Admission::Accepted(reply, job))
    }

    /// What is wrong with a request to cancel a job.
    pub open spec fn cancel_error(request: CancelJobRequest) -> Option<ErrorView> {
        if validation::job_id_error(request.job_id) is Some {
            validation::job_id_error(request.job_id)
        } else if request.reason.left_open() {
            Some(ErrorView::Protocol("CancelJobRequest reason must not be unspecified"@))
        } else {
            None
        }
    }

    /// Whether cancelling a job is answered by `answer` and turns `self` into
    /// `after`.
    pub open spec fn cancels(
        self,
        message_id: u64,
        trace: TraceContext,
        request: CancelJobRequest,
        answer: CancelAnswer,
        after: Self,
    ) -> bool {
        let job_id = request.job_id->0.value;
        let cancellation = PendingCancellation {
            reply_to: message_id,
            trace,
            job_id: PluginJobId { value: job_id },
        };
        &&& Self::cancel_error(request) is None
        &&& after.same_plugin(self)
        &&& match answer {
            CancelAnswer::Signal(signalled) => {
                &&& signalled == job_id
                &&& exists|index: int|
                    #![trigger is_job(self.active@, index, job_id@)]
                    {
                        &&& is_job(self.active@, index, job_id@)
                        &&& after.active@ == self.active@.update(index, after.active@[index])
                        &&& after.active@[index].job_id == self.active@[index].job_id
                        &&& after.active@[index].trace == self.active@[index].trace
                        &&& after.active@[index].cancellations@
                            == self.active@[index].cancellations@.push(cancellation)
                    }
            },
            CancelAnswer::Acknowledge(reply) => {
                &&& !is_active(self.active@, job_id@)
                &&& after.active == self.active
                &&& reply == acknowledgement(cancellation)
            },
        }
    }

    /// Cancels a job if it is active. The cancellation of any other job is
    /// acknowledged as often as it is asked for.
    pub fn cancel(
        &mut self,
        message_id: u64,
        trace: TraceContext,
        request: CancelJobRequest,
    ) -> (result: Result<CancelAnswer, SdkError>)
        requires
            old(self).well_formed(),
        ensures
            final(self).well_formed(),
            match result {
                Ok(answer) => old(self).cancels(message_id, trace, request, answer, *final(self)),
                Err(error) => {
                    &&& *final(self) == *old(self)
                    &&& Self::cancel_error(request) == Some(error@)
                },
            },
    {
        let job_id: String = match validation::job_id(&request.job_id) {
            Ok(job_id) => job_id.clone(),
            Err(error) => {
                return Err(error);
            },
        };
        match validation::cancellation_reason(request.reason) {
            Ok(()) => {},
            Err(error) => {
                return Err(error);
            },
        }
        let cancellation: PendingCancellation = PendingCancellation {
            reply_to: message_id,
            trace,
            job_id: PluginJobId { value: job_id.clone() },
        };
        match self.find_job(job_id.as_str()) {
            Some(index) => {
                self.active[index].cancellations.push(cancellation);
                proof {
                    assert(is_job(old(self).active@, index as int, job_id@));
                    assert(self.active@ =~= old(self).active@.update(
                        index as int,
                        self.active@[index as int],
                    ));
                    assert forall|left: int, right: int|
                        0 <= left < right < self.active@.len() implies (
                    #[trigger] self.active@[left]).job_id@ != (
                    #[trigger] self.active@[right]).job_id@ by {
                        assert(old(self).active@[left].job_id@ != old(self).active@[right].job_id@);
                    }
                    assert forall|other: int, k: int|
                        0 <= other < self.active@.len() && 0 <= k
                            < self.active@[other].cancellations@.len() implies (
                    #[trigger] self.active@[other].cancellations@[k]).job_id.value@
                        == self.active@[other].job_id@ by {
                        if other != index || k < old(self).active@[other].cancellations@.len() {
                            assert(old(self).active@[other].cancellations@[k].job_id.value@ == old(
                                self,
                            ).active@[other].job_id@);
                        }
                    }
                }
                Ok(CancelAnswer::Signal(job_id))
            },
            None => Ok(CancelAnswer::Acknowledge(acknowledge(cancellation))),
        }
    }

    /// Whether an action that ended is answered by `messages` and turns `self`
    /// into `after`.
    pub open spec fn settles(
        self,
        finished: FinishedAction,
        messages: Seq<Outgoing>,
        after: Self,
    ) -> bool {
        &&& after.same_plugin(self)
        &&& exists|index: int|
            #![trigger is_job(self.active@, index, finished.job_id@)]
            {
                let job = self.active@[index];
                &&& is_job(self.active@, index, finished.job_id@)
                &&& after.active@ == self.active@.remove(index)
                &&& if job.cancellations@.len() == 0 {
                    &&& messages.len() == 1
                    &&& messages[0].reply_to is None
                    &&& messages[0].trace == job.trace
                    &&& messages[0].payload matches Payload::JobUpdate(update) && reports(
                        update,
                        finished.job_id@,
                        finished.output,
                    )
                } else {
                    messages == acknowledgements(job.cancellations@)
                }
            }
    }

    /// Ends a job whose action has ended: with its terminal update, or, if it
    /// was cancelled meanwhile, with the acknowledgement of every cancellation.
    pub fn settle(&mut self, finished: FinishedAction) -> (result: Vec<Outgoing>)
        requires
            old(self).well_formed(),
            is_active(old(self).active@, finished.job_id@),
            finished.output matches Ok(output) ==> output.well_formed(),
        ensures
            final(self).well_formed(),
            old(self).settles(finished, result@, *final(self)),
    {
        let mut messages: Vec<Outgoing> = Vec::new();
        match self.find_job(finished.job_id.as_str()) {
            Some(index) => {
                let job: ActiveJob = self.active.remove(index);
                proof {
                    assert(is_job(old(self).active@, index as int, finished.job_id@));
                    lemma_removal_keeps_jobs_distinct(old(self).active@, index as int);
                }
                if job.cancellations.is_empty() {
                    let update: JobUpdate = terminal_update(
                        finished.job_id.as_str(),
                        finished.output,
                    );
                    messages.push(
                        Outgoing {
                            reply_to: None,
                            trace: job.trace,
                            payload: Payload::JobUpdate(update),
                        },
                    );
                } else {
                    messages = acknowledge_all(job.cancellations);
                }
            },
            None => {},
        }
        messages
    }

    /// Whether stopping all jobs is answered by `stopped` and turns `self` into
    /// `after`.
    pub open spec fn shuts_down(self, stopped: StoppedJobs, after: Self) -> bool {
        &&& after.same_plugin(self)
        &&& after.active@.len() == 0
        &&& stopped.jobs@ == self.active@.map_values(|job: ActiveJob| job.job_id)
        &&& stopped.acknowledgements@ == all_acknowledgements(self.active@)
    }

    /// Stops all jobs. The host is told of no output, but every cancellation is
    /// acknowledged.
    pub fn shutdown(&mut self) -> (result: StoppedJobs)
        ensures
            final(self).well_formed(),
            old(self).shuts_down(result, *final(self)),
    {
        let mut active: Vec<ActiveJob> = Vec::new();
        std::mem::swap(&mut active, &mut self.active);
        let ghost stopped = active@;
        let mut jobs: Vec<String> = Vec::new();
        let mut messages: Vec<Outgoing> = Vec::new();
        for job in iter: active
            invariant
                iter.seq() == stopped,
                jobs@.len() == iter.index(),
                forall|k: int| 0 <= k < iter.index() ==> #[trigger] jobs@[k] == stopped[k].job_id,
                messages@ == all_acknowledgements(stopped.take(iter.index() as int)),
        {
            let ghost position = iter.index();
            jobs.push(job.job_id);
            let mut owed: Vec<Outgoing> = acknowledge_all(job.cancellations);
            messages.append(&mut owed);
            assert(stopped.take(position + 1).drop_last() =~= stopped.take(position as int));
        }
        proof {
            assert(jobs@ =~= stopped.map_values(|job: ActiveJob| job.job_id));
            assert(stopped.take(stopped.len() as int) =~= stopped);
        }
        StoppedJobs { jobs, acknowledgements: messages }
    }
}

proof fn lemma_removal_keeps_jobs_distinct(active: Seq<ActiveJob>, index: int)
    requires
        jobs_distinct(active),
        0 <= index < active.len(),
    ensures
        jobs_distinct(active.remove(index)),
        cancellations_named(active) ==> cancellations_named(active.remove(index)),
        !is_active(active.remove(index), active[index].job_id@),
{
    let rest = active.remove(index);
    assert forall|left: int, right: int| 0 <= left < right < rest.len() implies (
    #[trigger] rest[left]).job_id@ != (#[trigger] rest[right]).job_id@ by {
        let from_left = if left < index {
            left
        } else {
            left + 1
        };
        let from_right = if right < index {
            right
        } else {
            right + 1
        };
        assert(active[from_left].job_id@ != active[from_right].job_id@);
    }
    if cancellations_named(active) {
        assert forall|other: int, k: int|
            0 <= other < rest.len() && 0 <= k < rest[other].cancellations@.len() implies (
        #[trigger] rest[other].cancellations@[k]).job_id.value@ == rest[other].job_id@ by {
            let from = if other < index {
                other
            } else {
                other + 1
            };
            assert(active[from].cancellations@[k].job_id.value@ == active[from].job_id@);
        }
    }
    assert forall|other: int| !#[trigger] is_job(rest, other, active[index].job_id@) by {
        if 0 <= other < rest.len() {
            let from = if other < index {
                other
            } else {
                other + 1
            };
            assert(rest[other] == active[from]);
            if from < index {
                assert(active[from].job_id@ != active[index].job_id@);
            } else {
                assert(active[index].job_id@ != active[from].job_id@);
            }
        }
    }
}

// ---------------------------------------------------------------------------
// Laws
// ---------------------------------------------------------------------------

/// No error reaches the host without a code and a message.
pub proof fn law_outbound_errors_say_what_happened(error: ErrorView)
    ensures
        validation::error_specified(outbound(error)),
{
    reveal_strlit("action returned an invalid protocol error");
}

/// No error that reaches the host holds a metadata key twice, unless it comes from
/// the host and did so already.
pub proof fn law_outbound_errors_keep_their_keys(error: ErrorView, maximum: usize)
    requires
        error.keys_distinct(),
    ensures
        outbound(error).keys_distinct(),
        exhausted(maximum).keys_distinct(),
{
}

/// A cancellation that comes before the completion of its job has been queued
/// wins: however the action ended, the host gets acknowledgements and no update,
/// and the acknowledgement of this cancellation is among them.
pub proof fn law_cancellation_wins<H>(
    before: JobManager<H>,
    message_id: u64,
    trace: TraceContext,
    request: CancelJobRequest,
    job_id: String,
    cancelled: JobManager<H>,
    finished: FinishedAction,
    messages: Seq<Outgoing>,
    after: JobManager<H>,
)
    requires
        before.well_formed(),
        before.cancels(message_id, trace, request, CancelAnswer::Signal(job_id), cancelled),
        finished.job_id@ == job_id@,
        cancelled.settles(finished, messages, after),
    ensures
        forall|index: int|
            0 <= index < messages.len() ==> (#[trigger] messages[index]).payload
                is CancelJobAcknowledged,
        messages.contains(
            acknowledgement(
                PendingCancellation {
                    reply_to: message_id,
                    trace,
                    job_id: PluginJobId { value: job_id },
                },
            ),
        ),
{
    let cancellation = PendingCancellation {
        reply_to: message_id,
        trace,
        job_id: PluginJobId { value: job_id },
    };
    let place = choose|index: int|
        #![trigger is_job(before.active@, index, job_id@)]
        {
            &&& is_job(before.active@, index, job_id@)
            &&& cancelled.active@ == before.active@.update(index, cancelled.active@[index])
            &&& cancelled.active@[index].job_id == before.active@[index].job_id
            &&& cancelled.active@[index].cancellations@
                == before.active@[index].cancellations@.push(cancellation)
        };
    assert forall|index: int| is_job(cancelled.active@, index, finished.job_id@) implies index
        == place by {
        assert(is_job(before.active@, index, job_id@));
        if index < place {
            assert(before.active@[index].job_id@ != before.active@[place].job_id@);
        } else if place < index {
            assert(before.active@[place].job_id@ != before.active@[index].job_id@);
        }
    }
    let owed = cancelled.active@[place].cancellations@;
    assert(messages == acknowledgements(owed));
    let last = owed.len() - 1;
    assert(owed[last] == cancellation);
    assert(messages[last] == acknowledgement(cancellation));
}

/// Every job that is settled ends in one of two ways: with a single update, or
/// with acknowledgements that name it and nothing else. It never ends in silence.
pub proof fn law_settlement_tells_the_host<H>(
    before: JobManager<H>,
    finished: FinishedAction,
    messages: Seq<Outgoing>,
    after: JobManager<H>,
)
    requires
        before.well_formed(),
        before.settles(finished, messages, after),
    ensures
        messages.len() > 0,
        (messages.len() == 1 && messages[0].payload is JobUpdate) || (forall|index: int|
            0 <= index < messages.len() ==> acknowledges(
                #[trigger] messages[index],
                finished.job_id@,
            )),
{
    let place = choose|index: int|
        #![trigger is_job(before.active@, index, finished.job_id@)]
        {
            let job = before.active@[index];
            &&& is_job(before.active@, index, finished.job_id@)
            &&& if job.cancellations@.len() == 0 {
                messages.len() == 1 && messages[0].payload is JobUpdate
            } else {
                messages == acknowledgements(job.cancellations@)
            }
        };
    let owed = before.active@[place].cancellations@;
    if owed.len() > 0 {
        assert forall|index: int| 0 <= index < messages.len() implies acknowledges(
            #[trigger] messages[index],
            finished.job_id@,
        ) by {
            assert(before.active@[place].cancellations@[index].job_id.value@ == finished.job_id@);
        }
    }
}

/// Once a job has been settled it is active no longer. Every other job is as
/// active as before.
pub proof fn law_settled_jobs_are_inactive<H>(
    before: JobManager<H>,
    finished: FinishedAction,
    messages: Seq<Outgoing>,
    after: JobManager<H>,
)
    requires
        before.well_formed(),
        before.settles(finished, messages, after),
    ensures
        !is_active(after.active@, finished.job_id@),
        forall|other: Seq<char>|
            other != finished.job_id@ ==> #[trigger] is_active(after.active@, other) == is_active(
                before.active@,
                other,
            ),
{
    let place = choose|index: int|
        #![trigger is_job(before.active@, index, finished.job_id@)]
        is_job(before.active@, index, finished.job_id@) && after.active@ == before.active@.remove(
            index,
        );
    lemma_removal_keeps_jobs_distinct(before.active@, place);
    assert forall|other: Seq<char>| other != finished.job_id@ implies #[trigger] is_active(
        after.active@,
        other,
    ) == is_active(before.active@, other) by {
        if is_active(before.active@, other) {
            let index = choose|index: int| is_job(before.active@, index, other);
            let moved = if index < place {
                index
            } else {
                index - 1
            };
            assert(is_job(after.active@, moved, other));
        }
        if is_active(after.active@, other) {
            let index = choose|index: int| is_job(after.active@, index, other);
            let moved = if index < place {
                index
            } else {
                index + 1
            };
            assert(is_job(before.active@, moved, other));
        }
    }
}

/// A cancellation of a job that is not active, because it was settled or never
/// started, changes nothing and is acknowledged at once, as often as it comes.
pub proof fn law_late_cancellations_are_acknowledged<H>(
    manager: JobManager<H>,
    message_id: u64,
    trace: TraceContext,
    request: CancelJobRequest,
    answer: CancelAnswer,
    after: JobManager<H>,
)
    requires
        manager.cancels(message_id, trace, request, answer, after),
        !is_active(manager.active@, request.job_id->0.value@),
    ensures
        answer is Acknowledge,
        after == manager,
{
}

/// A job beyond the capacity of the plugin is refused with an error that can be
/// retried and changes nothing. Any other valid request is accepted.
pub proof fn law_only_excess_jobs_are_refused<H>(
    manager: JobManager<H>,
    message_id: u64,
    trace: TraceContext,
    request: StartJobRequest,
    answer: Admission,
    after: JobManager<H>,
)
    requires
        manager.starts(message_id, trace, request, answer, after),
    ensures
        answer is Accepted <==> manager.active@.len() < manager.maximum_concurrent_jobs,
        answer matches Admission::Rejected(reply) ==> {
            &&& after == manager
            &&& reply.payload matches Payload::ProtocolError(error) && error@.retryable
                && error@.code == ErrorCode::Unavailable
        },
{
}

/// A nonzero reason for a cancellation or code of an error that this runtime has
/// no name for is as good as one that it knows.
pub proof fn law_unknown_numbers_are_accepted<H>(
    request: CancelJobRequest,
    reason: i32,
    error: ProtocolErrorView,
    code: i32,
)
    requires
        reason != 0,
        request.reason == JobCancellationReason::Other(reason),
        code != 0,
        error.code == ErrorCode::Other(code),
    ensures
        JobManager::<H>::cancel_error(request) == validation::job_id_error(request.job_id),
        validation::error_specified(error) <==> error.message.len() > 0,
{
}

/// The messages that some cancellations reply to.
pub open spec fn replies(cancellations: Seq<PendingCancellation>) -> Multiset<u64>
    decreases cancellations.len(),
{
    if cancellations.len() == 0 {
        Multiset::empty()
    } else {
        replies(cancellations.drop_last()).insert(cancellations.last().reply_to)
    }
}

/// The cancellation requests that the active jobs have not answered yet.
pub open spec fn owed(active: Seq<ActiveJob>) -> Multiset<u64>
    decreases active.len(),
{
    if active.len() == 0 {
        Multiset::empty()
    } else {
        owed(active.drop_last()).add(replies(active.last().cancellations@))
    }
}

/// The cancellation requests that some messages answer.
pub open spec fn answered(messages: Seq<Outgoing>) -> Multiset<u64>
    decreases messages.len(),
{
    if messages.len() == 0 {
        Multiset::empty()
    } else {
        let before = answered(messages.drop_last());
        match (messages.last().payload, messages.last().reply_to) {
            (Payload::CancelJobAcknowledged(_), Some(reply_to)) => before.insert(reply_to),
            _ => before,
        }
    }
}

/// A valid cancellation request is either answered at once or owed an answer.
pub proof fn law_cancellations_are_answered_or_owed<H>(
    before: JobManager<H>,
    message_id: u64,
    trace: TraceContext,
    request: CancelJobRequest,
    answer: CancelAnswer,
    after: JobManager<H>,
)
    requires
        before.cancels(message_id, trace, request, answer, after),
    ensures
        match answer {
            CancelAnswer::Signal(_) => owed(after.active@) == owed(before.active@).insert(
                message_id,
            ),
            CancelAnswer::Acknowledge(reply) => {
                &&& owed(after.active@) == owed(before.active@)
                &&& answered(seq![reply]) == Multiset::empty().insert(message_id)
            },
        },
{
    match answer {
        CancelAnswer::Signal(job_id) => {
            let cancellation = PendingCancellation {
                reply_to: message_id,
                trace,
                job_id: PluginJobId { value: job_id },
            };
            let place = choose|index: int|
                #![trigger is_job(before.active@, index, job_id@)]
                {
                    &&& is_job(before.active@, index, job_id@)
                    &&& after.active@ == before.active@.update(index, after.active@[index])
                    &&& after.active@[index].cancellations@
                        == before.active@[index].cancellations@.push(cancellation)
                };
            let earlier = before.active@[place].cancellations@;
            let now = after.active@[place].cancellations@;
            assert(now.drop_last() =~= earlier);
            lemma_owed_after_update(before.active@, place, after.active@[place]);
            assert forall|value: u64| #[trigger] owed(after.active@).count(value) == owed(
                before.active@,
            ).insert(message_id).count(value) by {
                assert(owed(after.active@).add(replies(earlier)).count(value) == owed(
                    before.active@,
                ).add(replies(now)).count(value));
            }
            assert(owed(after.active@) =~= owed(before.active@).insert(message_id));
        },
        CancelAnswer::Acknowledge(reply) => {
            assert(seq![reply].drop_last() =~= Seq::<Outgoing>::empty());
            assert(answered(Seq::<Outgoing>::empty()) == Multiset::<u64>::empty());
        },
    }
}

/// The settlement of a job pays exactly the answers that the job owes.
pub proof fn law_settlement_pays_what_is_owed<H>(
    before: JobManager<H>,
    finished: FinishedAction,
    messages: Seq<Outgoing>,
    after: JobManager<H>,
)
    requires
        before.settles(finished, messages, after),
    ensures
        owed(after.active@).add(answered(messages)) == owed(before.active@),
{
    let place = choose|index: int|
        #![trigger is_job(before.active@, index, finished.job_id@)]
        {
            let job = before.active@[index];
            &&& is_job(before.active@, index, finished.job_id@)
            &&& after.active@ == before.active@.remove(index)
            &&& if job.cancellations@.len() == 0 {
                messages.len() == 1 && messages[0].payload is JobUpdate
            } else {
                messages == acknowledgements(job.cancellations@)
            }
        };
    let cancellations = before.active@[place].cancellations@;
    lemma_owed_after_removal(before.active@, place);
    if cancellations.len() == 0 {
        assert(messages.drop_last() =~= Seq::<Outgoing>::empty());
        assert(answered(messages.drop_last()) == Multiset::<u64>::empty());
    } else {
        lemma_acknowledgements_answer(cancellations);
    }
}

/// The shutdown of a session pays all the answers that are owed, and a job that
/// is started changes nothing about them.
pub proof fn law_shutdown_pays_what_is_owed<H>(before: JobManager<H>, after: JobManager<H>)
    ensures
        forall|stopped: StoppedJobs| #[trigger]
            before.shuts_down(stopped, after) ==> {
                &&& owed(after.active@) == Multiset::<u64>::empty()
                &&& answered(stopped.acknowledgements@) == owed(before.active@)
            },
        forall|message_id: u64, trace: TraceContext, request: StartJobRequest, answer: Admission|
            #[trigger] before.starts(message_id, trace, request, answer, after) ==> owed(
                after.active@,
            ) == owed(before.active@),
{
    lemma_all_acknowledgements_answer(before.active@);
    assert forall|
        message_id: u64,
        trace: TraceContext,
        request: StartJobRequest,
        answer: Admission,
    | #[trigger] before.starts(message_id, trace, request, answer, after) implies owed(
        after.active@,
    ) == owed(before.active@) by {
        if answer is Accepted {
            assert(replies(after.active@.last().cancellations@) == Multiset::<u64>::empty());
            assert(owed(after.active@) =~= owed(before.active@));
        }
    }
}

proof fn lemma_owed_after_removal(active: Seq<ActiveJob>, index: int)
    requires
        0 <= index < active.len(),
    ensures
        owed(active) == owed(active.remove(index)).add(replies(active[index].cancellations@)),
    decreases active.len(),
{
    let last = active.len() - 1;
    if index == last {
        assert(active.remove(index) =~= active.drop_last());
    } else {
        lemma_owed_after_removal(active.drop_last(), index);
        assert(active.remove(index).drop_last() =~= active.drop_last().remove(index));
        assert(owed(active) =~= owed(active.remove(index)).add(
            replies(active[index].cancellations@),
        ));
    }
}

proof fn lemma_owed_after_update(active: Seq<ActiveJob>, index: int, job: ActiveJob)
    requires
        0 <= index < active.len(),
    ensures
        owed(active.update(index, job)).add(replies(active[index].cancellations@)) == owed(
            active,
        ).add(replies(job.cancellations@)),
{
    let updated = active.update(index, job);
    lemma_owed_after_removal(active, index);
    lemma_owed_after_removal(updated, index);
    assert(updated.remove(index) =~= active.remove(index));
    assert(owed(updated).add(replies(active[index].cancellations@)) =~= owed(active).add(
        replies(job.cancellations@),
    ));
}

proof fn lemma_acknowledgements_answer(cancellations: Seq<PendingCancellation>)
    ensures
        answered(acknowledgements(cancellations)) == replies(cancellations),
    decreases cancellations.len(),
{
    if cancellations.len() > 0 {
        lemma_acknowledgements_answer(cancellations.drop_last());
        assert(acknowledgements(cancellations).drop_last() =~= acknowledgements(
            cancellations.drop_last(),
        ));
        assert(acknowledgements(cancellations).last() == acknowledgement(cancellations.last()));
    }
}

proof fn lemma_answered_by_both(first: Seq<Outgoing>, second: Seq<Outgoing>)
    ensures
        answered(first + second) == answered(first).add(answered(second)),
    decreases second.len(),
{
    if second.len() == 0 {
        assert(first + second =~= first);
        assert(answered(first) =~= answered(first).add(answered(second)));
    } else {
        lemma_answered_by_both(first, second.drop_last());
        assert((first + second).drop_last() =~= first + second.drop_last());
        assert((first + second).last() == second.last());
        assert(answered(first + second) =~= answered(first).add(answered(second)));
    }
}

proof fn lemma_all_acknowledgements_answer(active: Seq<ActiveJob>)
    ensures
        answered(all_acknowledgements(active)) == owed(active),
    decreases active.len(),
{
    if active.len() > 0 {
        let cancellations = active.last().cancellations@;
        lemma_all_acknowledgements_answer(active.drop_last());
        lemma_acknowledgements_answer(cancellations);
        lemma_answered_by_both(
            all_acknowledgements(active.drop_last()),
            acknowledgements(cancellations),
        );
    }
}

/// The place of a job is unique.
proof fn lemma_one_place<H>(manager: JobManager<H>, left: int, right: int, job_id: Seq<char>)
    requires
        manager.well_formed(),
        is_job(manager.active@, left, job_id),
        is_job(manager.active@, right, job_id),
    ensures
        left == right,
{
    if left < right {
        assert(manager.active@[left].job_id@ != manager.active@[right].job_id@);
    } else if right < left {
        assert(manager.active@[right].job_id@ != manager.active@[left].job_id@);
    }
}

/// Where a job that nobody cancelled is settled, the host gets one update of it under
/// its own trace, and every other job stays as it is.
proof fn lemma_uncancelled_jobs_end_with_an_update<H>(
    before: JobManager<H>,
    place: int,
    finished: FinishedAction,
    messages: Seq<Outgoing>,
    after: JobManager<H>,
)
    requires
        before.well_formed(),
        before.settles(finished, messages, after),
        0 <= place < before.active@.len(),
        before.active@[place].job_id@ == finished.job_id@,
        before.active@[place].cancellations@.len() == 0,
    ensures
        after.active@ == before.active@.remove(place),
        messages.len() == 1,
        messages[0].reply_to is None,
        messages[0].trace == before.active@[place].trace,
        messages[0].payload matches Payload::JobUpdate(update) && reports(
            update,
            finished.job_id@,
            finished.output,
        ),
{
    assert(is_job(before.active@, place, finished.job_id@));
    let index = choose|index: int|
        #![trigger is_job(before.active@, index, finished.job_id@)]
        {
            let job = before.active@[index];
            &&& is_job(before.active@, index, finished.job_id@)
            &&& after.active@ == before.active@.remove(index)
            &&& if job.cancellations@.len() == 0 {
                &&& messages.len() == 1
                &&& messages[0].reply_to is None
                &&& messages[0].trace == job.trace
                &&& messages[0].payload matches Payload::JobUpdate(update) && reports(
                    update,
                    finished.job_id@,
                    finished.output,
                )
            } else {
                messages == acknowledgements(job.cancellations@)
            }
        };
    lemma_one_place(before, index, place, finished.job_id@);
}

/// A job that succeeds ends with one update that carries all that its action
/// returned: the structured value, and the declaration of every artifact in the order
/// they were attached. It succeeds exactly if the value may be stored and the
/// artifacts are the job's own and all different, and otherwise nothing of the output
/// is sent.
pub proof fn law_successful_jobs_report_their_whole_output<H>(
    before: JobManager<H>,
    place: int,
    finished: FinishedAction,
    output: ActionResult,
    messages: Seq<Outgoing>,
    after: JobManager<H>,
)
    requires
        before.well_formed(),
        before.settles(finished, messages, after),
        0 <= place < before.active@.len(),
        before.active@[place].job_id@ == finished.job_id@,
        before.active@[place].cancellations@.len() == 0,
        finished.output == Ok::<ActionResult, SdkError>(output),
    ensures
        messages.len() == 1,
        messages[0].reply_to is None,
        messages[0].trace == before.active@[place].trace,
        messages[0].payload matches Payload::JobUpdate(update) && {
            let job_id = finished.job_id@;
            let stored = output.stored();
            let accepted = {
                &&& output.output() matches Some(value) ==> value::value_error(value, 0, None)
                    is None
                &&& forall|index: int|
                    0 <= index < stored.len() ==> (#[trigger] stored[index]).owner()@ == job_id
                &&& forall|left: int, right: int|
                    0 <= left < right < stored.len() ==> (
                    #[trigger] stored[left]).declared().artifact_id->0.value@ != (
                    #[trigger] stored[right]).declared().artifact_id->0.value@
            };
            &&& update.job_id matches Some(id) && id.value@ == job_id
            &&& update.progress == Some(0x3ff0_0000_0000_0000u64)
            &&& update.status_message is None
            &&& accepted ==> {
                &&& update.state == JobState::Succeeded
                &&& output.output() == update.result
                &&& update.error is None
                &&& update.artifacts@.len() == stored.len()
                &&& forall|index: int|
                    0 <= index < stored.len() ==> #[trigger] update.artifacts@[index]
                        == stored[index].declared()
            }
            &&& !accepted ==> {
                &&& update.state == JobState::Failed
                &&& update.result is None
                &&& update.error is Some
                &&& update.artifacts@.len() == 0
            }
        },
{
    lemma_uncancelled_jobs_end_with_an_update(before, place, finished, messages, after);
    let stored = output.stored();
    let job_id = finished.job_id@;
    host::law_sent_artifacts_belong_to_the_job(stored, job_id);
    if host::owned_and_distinct(stored, job_id) {
        assert forall|left: int, right: int| 0 <= left < right < stored.len() implies (
        #[trigger] stored[left]).declared().artifact_id->0.value@ != (
        #[trigger] stored[right]).declared().artifact_id->0.value@ by {
            assert(stored[left].id() != stored[right].id());
        }
    } else {
        if forall|index: int|
            0 <= index < stored.len() ==> (#[trigger] stored[index]).owner()@ == job_id {
            let (left, right) = choose|left: int, right: int|
                0 <= left < right < stored.len() && (#[trigger] stored[left]).id() == (
                #[trigger] stored[right]).id();
            assert(stored[left].declared().artifact_id->0.value@
                == stored[right].declared().artifact_id->0.value@);
        }
    }
}

/// What an action returns as its value is what the host receives: a value that was
/// accepted as a result arrives unchanged in the single update of the job.
pub proof fn law_values_reach_the_host<H>(
    before: JobManager<H>,
    place: int,
    job_id: String,
    value: ConfigValue,
    output: ActionResult,
    messages: Seq<Outgoing>,
    after: JobManager<H>,
)
    requires
        before.well_formed(),
        call_ensures(ActionResult::value, (value,), Ok::<ActionResult, SdkError>(output)),
        before.settles(FinishedAction { job_id, output: Ok(output) }, messages, after),
        0 <= place < before.active@.len(),
        before.active@[place].job_id@ == job_id@,
        before.active@[place].cancellations@.len() == 0,
    ensures
        messages.len() == 1,
        messages[0].payload matches Payload::JobUpdate(update) && {
            &&& update.job_id matches Some(id) && id.value@ == job_id@
            &&& update.state == JobState::Succeeded
            &&& update.result == Some(value)
            &&& update.error is None
            &&& update.artifacts@.len() == 0
        },
{
    law_successful_jobs_report_their_whole_output(
        before,
        place,
        FinishedAction { job_id, output: Ok(output) },
        output,
        messages,
        after,
    );
}

/// The last update of a job, by itself: it succeeds with the whole output or fails
/// with an error, and never carries both.
pub proof fn law_terminal_updates_carry_the_whole_output(
    job_id: &str,
    output: ActionResult,
    update: JobUpdate,
)
    requires
        call_ensures(
            terminal_update,
            (job_id, Ok::<ActionResult, SdkError>(output)),
            update,
        ),
        output.wire_error(job_id@) is None,
    ensures
        update.job_id matches Some(id) && id.value@ == job_id@,
        update.state == JobState::Succeeded,
        update.result == output.output(),
        update.error is None,
        update.artifacts@.len() == output.stored().len(),
        forall|index: int|
            0 <= index < output.stored().len() ==> #[trigger] update.artifacts@[index]
                == output.stored()[index].declared(),
{
}

/// A job whose action fails ends with one update that carries the error of the action
/// as it is for the host, or, where that has no code or no message, an internal error
/// that says so.
pub proof fn law_failed_jobs_report_their_error<H>(
    before: JobManager<H>,
    place: int,
    finished: FinishedAction,
    error: SdkError,
    messages: Seq<Outgoing>,
    after: JobManager<H>,
)
    requires
        before.well_formed(),
        before.settles(finished, messages, after),
        0 <= place < before.active@.len(),
        before.active@[place].job_id@ == finished.job_id@,
        before.active@[place].cancellations@.len() == 0,
        finished.output == Err::<ActionResult, SdkError>(error),
    ensures
        messages.len() == 1,
        messages[0].reply_to is None,
        messages[0].trace == before.active@[place].trace,
        messages[0].payload matches Payload::JobUpdate(update) && {
            let own = error@.wire();
            &&& update.job_id matches Some(id) && id.value@ == finished.job_id@
            &&& update.state == JobState::Failed
            &&& update.result is None
            &&& update.artifacts@.len() == 0
            &&& update.error matches Some(sent) && if own.code != ErrorCode::Unspecified && own.code
                != ErrorCode::Other(0) && own.message.len() > 0 {
                sent@ == own
            } else {
                &&& sent.code == ErrorCode::Internal
                &&& sent.message@.len() > 0
                &&& !sent.retryable
                &&& sent@.metadata.len() == 0
                &&& sent@.details.len() == 0
            }
        },
{
    reveal_strlit("action returned an invalid protocol error");
    lemma_uncancelled_jobs_end_with_an_update(before, place, finished, messages, after);
}

/// A job that was cancelled ends with as many messages as there were cancellations,
/// each of which answers one of them under its number and trace and names the job.
/// Whatever the action returned is not sent.
pub proof fn law_cancelled_jobs_end_with_acknowledgements<H>(
    before: JobManager<H>,
    place: int,
    finished: FinishedAction,
    messages: Seq<Outgoing>,
    after: JobManager<H>,
)
    requires
        before.well_formed(),
        before.settles(finished, messages, after),
        0 <= place < before.active@.len(),
        before.active@[place].job_id@ == finished.job_id@,
        before.active@[place].cancellations@.len() > 0,
    ensures
        after.active@ == before.active@.remove(place),
        messages.len() == before.active@[place].cancellations@.len(),
        forall|index: int|
            0 <= index < messages.len() ==> {
                let cancellation = before.active@[place].cancellations@[index];
                &&& (#[trigger] messages[index]).reply_to == Some(cancellation.reply_to)
                &&& messages[index].trace == cancellation.trace
                &&& messages[index].payload matches Payload::CancelJobAcknowledged(answer)
                    && answer.job_id matches Some(id) && id.value@ == finished.job_id@
            },
{
    assert(is_job(before.active@, place, finished.job_id@));
    let index = choose|index: int|
        #![trigger is_job(before.active@, index, finished.job_id@)]
        {
            let job = before.active@[index];
            &&& is_job(before.active@, index, finished.job_id@)
            &&& after.active@ == before.active@.remove(index)
            &&& job.cancellations@.len() > 0 ==> messages == acknowledgements(job.cancellations@)
        };
    lemma_one_place(before, index, place, finished.job_id@);
    assert forall|index: int| 0 <= index < messages.len() implies {
        let cancellation = before.active@[place].cancellations@[index];
        &&& (#[trigger] messages[index]).reply_to == Some(cancellation.reply_to)
        &&& messages[index].trace == cancellation.trace
        &&& messages[index].payload matches Payload::CancelJobAcknowledged(answer)
            && answer.job_id matches Some(id) && id.value@ == finished.job_id@
    } by {
        assert(before.active@[place].cancellations@[index].job_id.value@ == finished.job_id@);
    }
}

/// A request to start a job is in order exactly if it has a canonical ID that no
/// active job has, a deadline in the years 1 to 9999 if any, and names an action of
/// the plugin.
pub proof fn law_starts_name_a_new_job_and_a_known_action<H>(
    manager: JobManager<H>,
    request: StartJobRequest,
)
    ensures
        manager.start_error(request) is None <==> {
            &&& request.job_id matches Some(id) && validation::is_canonical_uuid_v4(id.value@)
                && forall|index: int|
                0 <= index < manager.active@.len() ==> (
                #[trigger] manager.active@[index]).job_id@ != id.value@
            &&& request.deadline matches Some(deadline) ==> -62_135_596_800 <= deadline.seconds
                <= 253_402_300_799 && 0 <= deadline.nanos <= 999_999_999
            &&& request.invocation matches Some(Invocation::Action(invocation)) && exists|
                index: int,
            |
                0 <= index < manager.actions@.len() && (
                #[trigger] manager.actions@[index]).name@ == invocation.action@
        },
        manager.start_error(request) matches Some(error) ==> error is Protocol,
{
    match request.job_id {
        Some(id) => {
            if is_active(manager.active@, id.value@) {
                let index = choose|index: int| is_job(manager.active@, index, id.value@);
                assert(manager.active@[index].job_id@ == id.value@);
            } else {
                assert forall|index: int| 0 <= index < manager.active@.len() implies (
                #[trigger] manager.active@[index]).job_id@ != id.value@ by {
                    assert(!is_job(manager.active@, index, id.value@));
                }
            }
        },
        None => {},
    }
}

/// An admitted job is the one that was asked for: the host is told that it is
/// accepted, and its action gets the deadline, the trace and the arguments of the
/// request. It joins the active jobs, which stay as they are.
pub proof fn law_admitted_jobs_are_as_requested<H>(
    before: JobManager<H>,
    message_id: u64,
    trace: TraceContext,
    request: StartJobRequest,
    reply: Outgoing,
    job: AdmittedJob,
    after: JobManager<H>,
)
    requires
        before.starts(message_id, trace, request, Admission::Accepted(reply, job), after),
    ensures
        before.active@.len() < before.maximum_concurrent_jobs,
        reply.reply_to == Some(message_id),
        reply.trace == trace,
        reply.payload matches Payload::JobAccepted(accepted) && accepted.job_id == request.job_id,
        request.job_id matches Some(id) && job.job_id == id.value && after.active@.last().job_id
            == id.value,
        job.deadline == request.deadline,
        job.trace == trace,
        job.parent_call_id == message_id,
        request.invocation matches Some(Invocation::Action(invocation)) && job.arguments
            == invocation.arguments && before.actions@[job.action as int].name@
            == invocation.action@,
        job.action < before.actions@.len(),
        after.actions == before.actions,
        after.maximum_concurrent_jobs == before.maximum_concurrent_jobs,
        after.active@.len() == before.active@.len() + 1,
        after.active@.drop_last() == before.active@,
        after.active@.last().trace == trace,
        after.active@.last().cancellations@.len() == 0,
{
}

/// A job is turned away only where as many jobs are active as the plugin runs at
/// once. The host is told the limit in an error that can be retried, and nothing
/// changes.
pub proof fn law_refusals_name_the_limit<H>(
    before: JobManager<H>,
    message_id: u64,
    trace: TraceContext,
    request: StartJobRequest,
    reply: Outgoing,
    after: JobManager<H>,
)
    requires
        before.starts(message_id, trace, request, Admission::Rejected(reply), after),
    ensures
        before.active@.len() >= before.maximum_concurrent_jobs,
        after == before,
        reply.reply_to == Some(message_id),
        reply.trace == trace,
        reply.payload matches Payload::ProtocolError(error) && {
            &&& error.code == ErrorCode::Unavailable
            &&& error.retryable
            &&& error.message@.len() > 0
            &&& error@.metadata.len() == 1
            &&& error@.metadata[0].0 == "maximum_concurrent_jobs"@
            &&& text::numeral_value(error@.metadata[0].1) == before.maximum_concurrent_jobs
            &&& error@.details.len() == 0
        },
{
    reveal_strlit("plugin action capacity is currently exhausted");
    text::law_numerals_stand_for_their_number(before.maximum_concurrent_jobs as nat);
}

/// A request to cancel is in order exactly if it has a canonical job ID and a reason.
pub proof fn law_cancellations_name_job_and_reason<H>(request: CancelJobRequest)
    ensures
        JobManager::<H>::cancel_error(request) is None <==> {
            &&& request.job_id matches Some(id) && validation::is_canonical_uuid_v4(id.value@)
            &&& request.reason != JobCancellationReason::Unspecified
            &&& request.reason != JobCancellationReason::Other(0)
        },
        JobManager::<H>::cancel_error(request) matches Some(error) ==> error is Protocol,
{
}

/// The cancellation of an active job is kept with that job and no other, to be
/// answered when its action has ended, and the action is asked to stop. That of any
/// other job is acknowledged at once under its number and trace.
pub proof fn law_cancellations_reach_their_job<H>(
    before: JobManager<H>,
    message_id: u64,
    trace: TraceContext,
    request: CancelJobRequest,
    answer: CancelAnswer,
    after: JobManager<H>,
)
    requires
        before.well_formed(),
        before.cancels(message_id, trace, request, answer, after),
    ensures
        request.job_id is Some,
        after.actions == before.actions,
        after.maximum_concurrent_jobs == before.maximum_concurrent_jobs,
        after.active@.len() == before.active@.len(),
        answer is Signal <==> exists|index: int|
            0 <= index < before.active@.len() && (#[trigger] before.active@[index]).job_id@
                == request.job_id->0.value@,
        answer matches CancelAnswer::Signal(job_id) ==> job_id == request.job_id->0.value,
        answer matches CancelAnswer::Acknowledge(reply) ==> {
            &&& reply.reply_to == Some(message_id)
            &&& reply.trace == trace
            &&& reply.payload matches Payload::CancelJobAcknowledged(acknowledged)
                && acknowledged.job_id == request.job_id
            &&& after.active == before.active
        },
        forall|index: int|
            0 <= index < before.active@.len() ==> {
                let job = #[trigger] before.active@[index];
                let next = after.active@[index];
                if job.job_id@ == request.job_id->0.value@ {
                    &&& next.job_id == job.job_id
                    &&& next.trace == job.trace
                    &&& next.cancellations@.drop_last() == job.cancellations@
                    &&& next.cancellations@.len() == job.cancellations@.len() + 1
                    &&& next.cancellations@.last().reply_to == message_id
                    &&& next.cancellations@.last().trace == trace
                    &&& Some(next.cancellations@.last().job_id) == request.job_id
                } else {
                    next == job
                }
            },
{
    let id = request.job_id->0.value;
    match answer {
        CancelAnswer::Signal(_) => {
            let cancellation = PendingCancellation {
                reply_to: message_id,
                trace,
                job_id: PluginJobId { value: id },
            };
            let place = choose|index: int|
                #![trigger is_job(before.active@, index, id@)]
                {
                    &&& is_job(before.active@, index, id@)
                    &&& after.active@ == before.active@.update(index, after.active@[index])
                    &&& after.active@[index].job_id == before.active@[index].job_id
                    &&& after.active@[index].trace == before.active@[index].trace
                    &&& after.active@[index].cancellations@
                        == before.active@[index].cancellations@.push(cancellation)
                };
            assert(before.active@[place].job_id@ == id@);
            assert(after.active@[place].cancellations@.drop_last()
                =~= before.active@[place].cancellations@);
            assert forall|index: int| 0 <= index < before.active@.len() implies {
                let job = #[trigger] before.active@[index];
                let next = after.active@[index];
                if job.job_id@ == request.job_id->0.value@ {
                    index == place
                } else {
                    next == job
                }
            } by {
                if before.active@[index].job_id@ == id@ {
                    assert(is_job(before.active@, index, id@));
                    lemma_one_place(before, index, place, id@);
                }
            }
        },
        CancelAnswer::Acknowledge(_) => {
            assert forall|index: int| 0 <= index < before.active@.len() implies (
            #[trigger] before.active@[index]).job_id@ != id@ by {
                assert(!is_job(before.active@, index, id@));
            }
        },
    }
}

/// Whether a message answers this cancellation.
pub open spec fn answers(message: Outgoing, cancellation: PendingCancellation) -> bool {
    &&& message.reply_to == Some(cancellation.reply_to)
    &&& message.trace == cancellation.trace
    &&& message.payload matches Payload::CancelJobAcknowledged(acknowledged)
        && acknowledged.job_id == Some(cancellation.job_id)
}

/// A shutdown stops every job and answers every cancellation that is still open, and
/// says nothing else.
pub proof fn law_shutdowns_stop_all_and_answer_all<H>(
    before: JobManager<H>,
    stopped: StoppedJobs,
    after: JobManager<H>,
)
    requires
        before.shuts_down(stopped, after),
    ensures
        after.active@.len() == 0,
        after.actions == before.actions,
        after.maximum_concurrent_jobs == before.maximum_concurrent_jobs,
        stopped.jobs@.len() == before.active@.len(),
        forall|index: int|
            0 <= index < before.active@.len() ==> #[trigger] stopped.jobs@[index]
                == before.active@[index].job_id,
        forall|index: int, k: int|
            0 <= index < before.active@.len() && 0 <= k
                < before.active@[index].cancellations@.len() ==> exists|place: int|
                0 <= place < stopped.acknowledgements@.len() && answers(
                    #[trigger] stopped.acknowledgements@[place],
                    #[trigger] before.active@[index].cancellations@[k],
                ),
        forall|place: int|
            0 <= place < stopped.acknowledgements@.len() ==> (
            #[trigger] stopped.acknowledgements@[place]).payload is CancelJobAcknowledged,
        answered(stopped.acknowledgements@) == owed(before.active@),
{
    lemma_all_acknowledgements_answer(before.active@);
    assert forall|index: int, k: int|
        0 <= index < before.active@.len() && 0 <= k
            < before.active@[index].cancellations@.len() implies exists|place: int|
        0 <= place < stopped.acknowledgements@.len() && answers(
            #[trigger] stopped.acknowledgements@[place],
            #[trigger] before.active@[index].cancellations@[k],
        ) by {
        lemma_each_cancellation_is_answered(before.active@, index, k);
    }
    lemma_shutdowns_only_acknowledge(before.active@);
}

proof fn lemma_each_cancellation_is_answered(active: Seq<ActiveJob>, index: int, k: int)
    requires
        0 <= index < active.len(),
        0 <= k < active[index].cancellations@.len(),
    ensures
        exists|place: int|
            0 <= place < all_acknowledgements(active).len() && answers(
                #[trigger] all_acknowledgements(active)[place],
                active[index].cancellations@[k],
            ),
    decreases active.len(),
{
    let earlier = all_acknowledgements(active.drop_last());
    let own = acknowledgements(active.last().cancellations@);
    assert(all_acknowledgements(active) == earlier + own);
    if index == active.len() - 1 {
        assert(own[k] == acknowledgement(active[index].cancellations@[k]));
        assert(all_acknowledgements(active)[earlier.len() + k] == own[k]);
        assert(answers(
            all_acknowledgements(active)[earlier.len() + k],
            active[index].cancellations@[k],
        ));
    } else {
        lemma_each_cancellation_is_answered(active.drop_last(), index, k);
        let place = choose|place: int|
            0 <= place < earlier.len() && answers(
                #[trigger] earlier[place],
                active[index].cancellations@[k],
            );
        assert(all_acknowledgements(active)[place] == earlier[place]);
    }
}

proof fn lemma_shutdowns_only_acknowledge(active: Seq<ActiveJob>)
    ensures
        forall|place: int|
            0 <= place < all_acknowledgements(active).len() ==> (
            #[trigger] all_acknowledgements(active)[place]).payload is CancelJobAcknowledged,
    decreases active.len(),
{
    if active.len() > 0 {
        lemma_shutdowns_only_acknowledge(active.drop_last());
        let earlier = all_acknowledgements(active.drop_last());
        let own = acknowledgements(active.last().cancellations@);
        assert forall|place: int| 0 <= place < all_acknowledgements(active).len() implies (
        #[trigger] all_acknowledgements(active)[place]).payload is CancelJobAcknowledged by {
            if place < earlier.len() {
                assert(all_acknowledgements(active)[place] == earlier[place]);
            } else {
                assert(all_acknowledgements(active)[place] == own[place - earlier.len()]);
            }
        }
    }
}

/// A panic fails the job with an error of the action that repeats what the panic
/// said.
pub proof fn law_panics_say_what_happened(payload: PanicPayload, error: SdkError)
    requires
        call_ensures(action_panic, (payload,), error),
    ensures
        error@ matches ErrorView::Action(said) && (payload matches PanicPayload::Text(text) ==> {
            &&& said.len() >= text@.len()
            &&& said.skip(said.len() - text@.len()) == text@
        }) && said.len() > 0,
{
    reveal_strlit("action task panicked: ");
    match payload {
        PanicPayload::Text(text) => {
            let said = "action task panicked: "@ + text@;
            assert(said.skip(said.len() - text@.len()) =~= text@);
        },
        PanicPayload::Other => {},
    }
}

/// The outcome of the task of an action is the outcome of the action, unless the task
/// was lost, which ends the session.
pub proof fn law_tasks_hand_over_their_action(
    job_id: String,
    output: Result<ActionResult, SdkError>,
    source: String,
    finished: Result<FinishedAction, SdkError>,
    lost: Result<FinishedAction, SdkError>,
)
    requires
        call_ensures(
            joined,
            (Ok::<(String, Result<ActionResult, SdkError>), String>((job_id, output)),),
            finished,
        ),
        call_ensures(
            joined,
            (Err::<(String, Result<ActionResult, SdkError>), String>(source),),
            lost,
        ),
    ensures
        finished matches Ok(action) && action.job_id == job_id && action.output == output,
        lost matches Err(error) && error@ is Action,
{
}

/// A request to start a job that is not in order is refused by its first fault: its
/// job ID, its deadline, a job of that ID that is active already, the kind of its
/// invocation, and an action that the plugin does not have.
pub proof fn law_refused_starts_name_their_fault<H>(
    manager: JobManager<H>,
    request: StartJobRequest,
    id: PluginJobId,
)
    ensures
        request.job_id is None ==> manager.start_error(request) == Some(
            ErrorView::Protocol("job ID is required"@),
        ),
        request.job_id == Some(id) && !validation::is_canonical_uuid_v4(id.value@)
            ==> manager.start_error(request) == Some(
            ErrorView::Protocol("job ID must be a canonical UUID v4"@),
        ),
        request.job_id == Some(id) && validation::is_canonical_uuid_v4(id.value@) ==> {
            let deadline_fits = request.deadline matches Some(deadline) ==> -62_135_596_800
                <= deadline.seconds <= 253_402_300_799 && 0 <= deadline.nanos <= 999_999_999;
            let running = exists|index: int|
                0 <= index < manager.active@.len() && (
                #[trigger] manager.active@[index]).job_id@ == id.value@;
            &&& !deadline_fits ==> manager.start_error(request) == Some(
                ErrorView::Protocol(
                    "StartJobRequest deadline"@ + " must be a valid protobuf Timestamp"@,
                ),
            )
            &&& deadline_fits && running ==> manager.start_error(request) == Some(
                ErrorView::Protocol("duplicate active job ID"@),
            )
            &&& deadline_fits && !running && !(request.invocation matches Some(
                Invocation::Action(_),
            )) ==> manager.start_error(request) == Some(
                ErrorView::Protocol("unsupported job invocation"@),
            )
            &&& deadline_fits && !running ==> {
                &&& request.invocation matches Some(Invocation::Action(invocation)) ==> (
                manager.start_error(request) is None || manager.start_error(request) == Some(
                    ErrorView::Protocol("unknown action `"@ + invocation.action@ + "`"@),
                ))
            }
        },
{
    law_starts_name_a_new_job_and_a_known_action(manager, request);
    if is_active(manager.active@, id.value@) {
        let index = choose|index: int| is_job(manager.active@, index, id.value@);
        assert(manager.active@[index].job_id@ == id.value@);
    } else {
        assert forall|index: int| 0 <= index < manager.active@.len() implies (
        #[trigger] manager.active@[index]).job_id@ != id.value@ by {
            assert(!is_job(manager.active@, index, id.value@));
        }
    }
}

} // verus!
