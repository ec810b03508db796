//! What an action can ask of its host, and what it returns.

pub mod artifact;
pub mod call;
pub mod client;
pub mod transfer;
pub mod upload;

use vstd::prelude::*;

use crate::cancellation::{Attempt, Cancellation, CancellationState};
use crate::error::{ErrorView, SdkError};
use crate::foreign;
use crate::protocol;
use crate::protocol::{
    ArtifactDescriptor, ConfigEntry, ConfigFunctionRef, ConfigPath, ConfigValue, GetConfigRequest,
    GetConfigResponse, HostCall, HostCallRequest, HostCallResponse, HostCallResult,
    InvokeConfigFunctionRequest, InvokeConfigFunctionResponse, LogLevel, LogRecord, Outgoing,
    Payload, PluginArtifactId, Timestamp, TraceContext,
};
use crate::text;
use crate::value;
use call::HostCallKind;
use client::HostClient;

verus! {

// ---------------------------------------------------------------------------
// Results
// ---------------------------------------------------------------------------

/// An artifact that oll has acknowledged as durably stored for this job.
#[derive(Debug)]
pub struct StoredArtifact {
    job_id: String,
    descriptor: ArtifactDescriptor,
}

impl StoredArtifact {
    /// The job that stored the artifact.
    pub closed spec fn owner(self) -> String {
        self.job_id
    }

    /// What was declared of the artifact.
    pub closed spec fn declared(self) -> ArtifactDescriptor {
        self.descriptor
    }

    /// Every stored artifact has an ID.
    pub open spec fn well_formed(self) -> bool {
        self.declared().artifact_id is Some
    }

    /// The ID of a stored artifact.
    pub open spec fn id(self) -> Seq<char> {
        self.declared().artifact_id->0.value@
    }

    /// An artifact that the host has confirmed to have stored for a job.
    pub(crate) fn confirmed(job_id: String, descriptor: ArtifactDescriptor) -> (result: Self)
        ensures
            result.owner() == job_id,
            result.declared() == descriptor,
    {
        StoredArtifact { job_id, descriptor }
    }

    /// Returns the exact descriptor verified during the transfer.
    pub fn descriptor(&self) -> (result: &ArtifactDescriptor)
        ensures
            *result == self.declared(),
    {
        &self.descriptor
    }
}

impl Clone for StoredArtifact {
    fn clone(&self) -> (result: Self)
        ensures
            result.owner() == self.owner(),
            result.declared()@ == self.declared()@,
            result.well_formed() == self.well_formed(),
            self.well_formed() ==> result.id() == self.id(),
    {
        StoredArtifact { job_id: self.job_id.clone(), descriptor: self.descriptor.clone() }
    }
}

/// Successful terminal output from an action.
#[derive(Debug)]
pub struct ActionResult {
    result: Option<ConfigValue>,
    artifacts: Vec<StoredArtifact>,
}

/// Whether the second output is a copy of the first.
pub open spec fn same_output(left: Option<ConfigValue>, right: Option<ConfigValue>) -> bool {
    match (left, right) {
        (Some(left), Some(right)) => protocol::same_value(left, right),
        (None, None) => true,
        _ => false,
    }
}

/// Whether the second artifacts are copies of the first, in the same order.
pub open spec fn same_artifacts(left: Seq<StoredArtifact>, right: Seq<StoredArtifact>) -> bool {
    &&& left.len() == right.len()
    &&& forall|index: int|
        0 <= index < left.len() ==> {
            &&& (#[trigger] left[index]).owner() == right[index].owner()
            &&& left[index].declared()@ == right[index].declared()@
        }
}

impl Clone for ActionResult {
    fn clone(&self) -> (result: Self)
        ensures
            same_output(self.output(), result.output()),
            same_artifacts(self.stored(), result.stored()),
            self.well_formed() ==> result.well_formed(),
            self.keys_distinct() ==> result.keys_distinct(),
    {
        let output: Option<ConfigValue> = match &self.result {
            Some(value) => Some(value.clone()),
            None => None,
        };
        let mut artifacts: Vec<StoredArtifact> = Vec::new();
        for index in 0..self.artifacts.len()
            invariant
                artifacts@.len() == index,
                forall|k: int|
                    0 <= k < index ==> {
                        &&& (#[trigger] self.artifacts@[k]).owner() == artifacts@[k].owner()
                        &&& self.artifacts@[k].declared()@ == artifacts@[k].declared()@
                    },
        {
            artifacts.push(self.artifacts[index].clone());
        }
        let result: ActionResult = ActionResult { result: output, artifacts };
        proof {
            if self.well_formed() {
                assert forall|index: int| 0 <= index < result.stored().len() implies (
                #[trigger] result.stored()[index]).well_formed() by {
                    assert(self.stored()[index].well_formed());
                    assert(self.artifacts@[index].declared()@ == artifacts@[index].declared()@);
                }
            }
        }
        result
    }
}

impl Default for ActionResult {
    fn default() -> (result: Self)
        ensures
            result.output() is None,
            result.stored().len() == 0,
    {
        ActionResult { result: None, artifacts: Vec::new() }
    }
}

/// The first artifact reference that a result of `job_id` may not make.
pub open spec fn artifact_error(artifacts: Seq<StoredArtifact>, job_id: Seq<char>) -> Option<
    ErrorView,
>
    decreases artifacts.len(),
{
    if artifacts.len() == 0 {
        None
    } else {
        let earlier = artifacts.drop_last();
        match artifact_error(earlier, job_id) {
            Some(error) => Some(error),
            None => if artifacts.last().owner()@ != job_id {
                Some(
                    ErrorView::InvalidArgument(
                        "job results may reference only artifacts stored by that job"@,
                    ),
                )
            } else if exists|index: int|
                0 <= index < earlier.len() && (#[trigger] earlier[index]).id()
                    == artifacts.last().id() {
                Some(
                    ErrorView::InvalidArgument(
                        "job results must not reference the same artifact more than once"@,
                    ),
                )
            } else {
                None
            },
        }
    }
}

impl ActionResult {
    /// The structured result.
    pub closed spec fn output(self) -> Option<ConfigValue> {
        self.result
    }

    /// The artifacts of the result, in the order they were attached.
    pub closed spec fn stored(self) -> Seq<StoredArtifact> {
        self.artifacts@
    }

    /// Every artifact of a result is a stored one.
    pub open spec fn well_formed(self) -> bool {
        forall|index: int|
            0 <= index < self.stored().len() ==> (#[trigger] self.stored()[index]).well_formed()
    }

    /// Whether no map of the output holds a key twice.
    pub open spec fn keys_distinct(self) -> bool {
        self.output() matches Some(value) ==> protocol::keys_distinct(value)
    }

    /// What keeps the output of the job `job_id` from being sent.
    pub open spec fn wire_error(self, job_id: Seq<char>) -> Option<ErrorView> {
        match self.output() {
            Some(value) if value::value_error(value, 0, None) is Some => value::value_error(
                value,
                0,
                None,
            ),
            _ => artifact_error(self.stored(), job_id),
        }
    }

    /// Creates an empty successful result.
    pub fn empty() -> (result: Self)
        ensures
            result.output() is None,
            result.stored().len() == 0,
            result.well_formed(),
    {
        ActionResult { result: None, artifacts: Vec::new() }
    }

    /// Creates a successful structured result after validating its durable value.
    pub fn value(value: ConfigValue) -> (result: Result<Self, SdkError>)
        ensures
            match result {
                Ok(output) => {
                    &&& value::value_error(value, 0, None) is None
                    &&& output.output() == Some(value)
                    &&& output.stored().len() == 0
                    &&& output.well_formed()
                },
                Err(error) => value::value_error(value, 0, None) == Some(error@),
            },
    {
        match value::validate_serializable(&value) {
            Ok(()) => Ok(ActionResult { result: Some(value), artifacts: Vec::new() }),
            Err(error) => Err(error),
        }
    }

    /// Attaches an artifact previously stored for this job.
    pub fn with_artifact(self, artifact: StoredArtifact) -> (result: Self)
        ensures
            result.output() == self.output(),
            result.stored() == self.stored().push(artifact),
            self.well_formed() && artifact.well_formed() ==> result.well_formed(),
    {
        let mut artifacts: Vec<StoredArtifact> = self.artifacts;
        artifacts.push(artifact);
        let result: ActionResult = ActionResult { result: self.result, artifacts };
        proof {
            if self.well_formed() && artifact.well_formed() {
                assert forall|index: int| 0 <= index < result.stored().len() implies (
                #[trigger] result.stored()[index]).well_formed() by {
                    if index < self.stored().len() {
                        assert(self.stored()[index].well_formed());
                    }
                }
            }
        }
        result
    }

    /// Returns the optional structured result.
    pub fn result(&self) -> (result: Option<&ConfigValue>)
        ensures
            match result {
                Some(value) => self.output() == Some(*value),
                None => self.output() is None,
            },
    {
        self.result.as_ref()
    }

    /// Returns the artifacts acknowledged as stored for this result.
    pub fn artifacts(&self) -> (result: &[StoredArtifact])
        ensures
            result@ == self.stored(),
    {
        self.artifacts.as_slice()
    }

    /// The output as the host receives it: the value, and the descriptors of the
    /// artifacts in the order they were attached.
    pub fn into_wire(self, job_id: &str) -> (result: Result<
        (Option<ConfigValue>, Vec<ArtifactDescriptor>),
        SdkError,
    >)
        requires
            self.well_formed(),
        ensures
            match result {
                Ok((value, descriptors)) => {
                    &&& self.wire_error(job_id@) is None
                    &&& value == self.output()
                    &&& descriptors@ == self.stored().map_values(
                        |artifact: StoredArtifact| artifact.declared(),
                    )
                },
                Err(error) => self.wire_error(job_id@) == Some(error@),
            },
    {
        match &self.result {
            Some(value) => match value::validate_serializable(value) {
                Ok(()) => {},
                Err(error) => {
                    return Err(error);
                },
            },
            None => {},
        }
        let artifacts: Vec<StoredArtifact> = self.artifacts;
        match validate_artifacts(&artifacts, job_id) {
            Ok(()) => {},
            Err(error) => {
                return Err(error);
            },
        }
        let ghost stored = artifacts@;
        let mut descriptors: Vec<ArtifactDescriptor> = Vec::new();
        for artifact in iter: artifacts
            invariant
                iter.seq() == stored,
                descriptors@.len() == iter.index(),
                forall|k: int|
                    0 <= k < iter.index() ==> #[trigger] descriptors@[k] == stored[k].declared(),
        {
            descriptors.push(artifact.descriptor);
        }
        assert(descriptors@ =~= stored.map_values(|artifact: StoredArtifact| artifact.declared()));
        Ok((self.result, descriptors))
    }
}

/// Whether one of the first `count` artifacts has the ID `id`.
fn refers_to(artifacts: &Vec<StoredArtifact>, count: usize, id: &PluginArtifactId) -> (result: bool)
    requires
        count <= artifacts@.len(),
        forall|k: int| 0 <= k < count ==> (#[trigger] artifacts@[k]).well_formed(),
    ensures
        result == exists|k: int|
            0 <= k < count && (#[trigger] artifacts@[k]).id() == id.value@,
{
    for index in 0..count
        invariant
            count <= artifacts@.len(),
            forall|k: int| 0 <= k < count ==> (#[trigger] artifacts@[k]).well_formed(),
            forall|k: int| 0 <= k < index ==> (#[trigger] artifacts@[k]).id() != id.value@,
    {
        match &artifacts[index].descriptor.artifact_id {
            Some(other) => {
                if other.value == id.value {
                    assert(artifacts@[index as int].id() == id.value@);
                    return true;
                }
            },
            None => {},
        }
    }
    false
}

fn validate_artifacts(artifacts: &Vec<StoredArtifact>, job_id: &str) -> (result: Result<
    (),
    SdkError,
>)
    requires
        forall|k: int| 0 <= k < artifacts@.len() ==> (#[trigger] artifacts@[k]).well_formed(),
    ensures
        match result {
            Ok(()) => artifact_error(artifacts@, job_id@) is None,
            Err(error) => artifact_error(artifacts@, job_id@) == Some(error@),
        },
{
    for index in 0..artifacts.len()
        invariant
            forall|k: int| 0 <= k < artifacts@.len() ==> (#[trigger] artifacts@[k]).well_formed(),
            artifact_error(artifacts@.take(index as int), job_id@) is None,
    {
        let ghost upto = artifacts@.take(index + 1);
        proof {
            assert(upto.drop_last() =~= artifacts@.take(index as int));
            assert(forall|k: int|
                0 <= k < index ==> upto.drop_last()[k] == #[trigger] artifacts@[k]);
        }
        let artifact: &StoredArtifact = &artifacts[index];
        if !text::same(artifact.job_id.as_str(), job_id) {
            proof {
                lemma_first_artifact_error_stays(artifacts@, index + 1, job_id@);
            }
            return Err(
                SdkError::invalid_argument(
                    "job results may reference only artifacts stored by that job",
                ),
            );
        }
        let repeated: bool = match &artifact.descriptor.artifact_id {
            Some(id) => refers_to(artifacts, index, id),
            None => false,
        };
        if repeated {
            proof {
                let earlier = choose|k: int|
                    0 <= k < index && (#[trigger] artifacts@[k]).id() == artifact.id();
                assert(upto.drop_last()[earlier].id() == upto.last().id());
                lemma_first_artifact_error_stays(artifacts@, index + 1, job_id@);
            }
            return Err(
                SdkError::invalid_argument(
                    "job results must not reference the same artifact more than once",
                ),
            );
        }
    }
    assert(artifacts@.take(artifacts@.len() as int) =~= artifacts@);
    Ok(())
}

/// The first fault among the first `count` references is the first of all.
proof fn lemma_first_artifact_error_stays(
    artifacts: Seq<StoredArtifact>,
    count: int,
    job_id: Seq<char>,
)
    requires
        0 <= count <= artifacts.len(),
        artifact_error(artifacts.take(count), job_id) is Some,
    ensures
        artifact_error(artifacts, job_id) == artifact_error(artifacts.take(count), job_id),
    decreases artifacts.len(),
{
    if count == artifacts.len() {
        assert(artifacts.take(count) =~= artifacts);
    } else {
        assert(artifacts.drop_last().take(count) =~= artifacts.take(count));
        lemma_first_artifact_error_stays(artifacts.drop_last(), count, job_id);
    }
}

/// Whether all artifacts were stored by `job_id` and no two have the same ID.
pub open spec fn owned_and_distinct(artifacts: Seq<StoredArtifact>, job_id: Seq<char>) -> bool {
    &&& forall|index: int|
        0 <= index < artifacts.len() ==> (#[trigger] artifacts[index]).owner()@ == job_id
    &&& forall|left: int, right: int|
        0 <= left < right < artifacts.len() ==> (#[trigger] artifacts[left]).id() != (
        #[trigger] artifacts[right]).id()
}

/// The artifacts of a result are sent exactly if they belong to the job and no
/// two of them have the same ID.
pub proof fn law_sent_artifacts_belong_to_the_job(
    artifacts: Seq<StoredArtifact>,
    job_id: Seq<char>,
)
    ensures
        artifact_error(artifacts, job_id) is None <==> owned_and_distinct(artifacts, job_id),
    decreases artifacts.len(),
{
    if artifacts.len() > 0 {
        let earlier = artifacts.drop_last();
        law_sent_artifacts_belong_to_the_job(earlier, job_id);
        assert(forall|index: int|
            0 <= index < earlier.len() ==> #[trigger] artifacts[index] == earlier[index]);
        if owned_and_distinct(artifacts, job_id) {
            assert forall|index: int| 0 <= index < earlier.len() implies (
            #[trigger] earlier[index]).owner()@ == job_id by {
                assert(artifacts[index].owner()@ == job_id);
            }
            assert forall|left: int, right: int| 0 <= left < right < earlier.len() implies (
            #[trigger] earlier[left]).id() != (#[trigger] earlier[right]).id() by {
                assert(artifacts[left].id() != artifacts[right].id());
            }
            assert forall|index: int| 0 <= index < earlier.len() implies (
            #[trigger] earlier[index]).id() != artifacts.last().id() by {
                assert(artifacts[index].id() != artifacts[artifacts.len() - 1].id());
            }
        }
    }
}

/// A copy of a result is sent, or kept from being sent, as the result itself.
pub proof fn law_copied_results_are_sent_alike(
    result: ActionResult,
    copy: ActionResult,
    job_id: Seq<char>,
)
    requires
        result.well_formed(),
        same_output(result.output(), copy.output()),
        same_artifacts(result.stored(), copy.stored()),
    ensures
        result.wire_error(job_id) == copy.wire_error(job_id),
{
    match (result.output(), copy.output()) {
        (Some(value), Some(copied)) => {
            value::law_copies_are_judged_alike(value, copied, 0, None);
        },
        _ => {},
    }
    lemma_copied_artifacts_fail_alike(result.stored(), copy.stored(), job_id);
}

proof fn lemma_copied_artifacts_fail_alike(
    artifacts: Seq<StoredArtifact>,
    copies: Seq<StoredArtifact>,
    job_id: Seq<char>,
)
    requires
        forall|index: int|
            0 <= index < artifacts.len() ==> (#[trigger] artifacts[index]).well_formed(),
        same_artifacts(artifacts, copies),
    ensures
        artifact_error(artifacts, job_id) == artifact_error(copies, job_id),
    decreases artifacts.len(),
{
    if artifacts.len() > 0 {
        let earlier = artifacts.drop_last();
        let copied = copies.drop_last();
        let last = artifacts.len() - 1;
        assert forall|index: int| 0 <= index < artifacts.len() implies (
        #[trigger] artifacts[index]).id() == copies[index].id() by {
            assert(artifacts[index].well_formed());
            assert(artifacts[index].declared()@ == copies[index].declared()@);
        }
        assert forall|index: int| 0 <= index < earlier.len() implies {
            &&& (#[trigger] earlier[index]).well_formed()
            &&& earlier[index].owner() == copied[index].owner()
            &&& earlier[index].declared()@ == copied[index].declared()@
        } by {
            assert(earlier[index] == artifacts[index]);
            assert(artifacts[index].well_formed());
        }
        lemma_copied_artifacts_fail_alike(earlier, copied, job_id);
        assert(artifacts[last].owner() == copies[last].owner());
        assert(artifacts[last].id() == copies[last].id());
        let repeated = exists|index: int|
            0 <= index < earlier.len() && (#[trigger] earlier[index]).id() == artifacts.last().id();
        let copy_repeated = exists|index: int|
            0 <= index < copied.len() && (#[trigger] copied[index]).id() == copies.last().id();
        if repeated {
            let index = choose|index: int|
                0 <= index < earlier.len() && (#[trigger] earlier[index]).id()
                    == artifacts.last().id();
            assert(artifacts[index].id() == copies[index].id());
            assert(copied[index].id() == copies.last().id());
        }
        if copy_repeated {
            let index = choose|index: int|
                0 <= index < copied.len() && (#[trigger] copied[index]).id() == copies.last().id();
            assert(artifacts[index].id() == copies[index].id());
            assert(earlier[index].id() == artifacts.last().id());
        }
    }
}

// ---------------------------------------------------------------------------
// Contexts
// ---------------------------------------------------------------------------

/// Per-job access to host calls, cancellation, trace context, and artifacts.
///
/// A context decides what may be sent and what an answer means. The messages it
/// returns are numbered by the sender of the session when they enter the output.
#[derive(Debug)]
pub struct ActionContext {
    pub job_id: String,
    pub deadline: Option<Timestamp>,
    pub trace: TraceContext,
    pub cancellation: Cancellation,
    pub parent_call_id: u64,
    pub session_id: String,
    pub maximum_artifact_chunk_bytes: u64,
    pub maximum_call_depth: u32,
}

/// What is wrong with the answer to a host call of this kind.
pub open spec fn call_failure(
    kind: HostCallKind,
    reply: Attempt<Payload>,
    session_id: Seq<char>,
) -> Option<ErrorView> {
    match client::response_failure(reply) {
        Some(error) => Some(error),
        None => match client::answer_error(reply->Done_0) {
            Some(error) => Some(error),
            None => call::response_error(kind, reply->Done_0->HostResult_0, session_id),
        },
    }
}

/// A clock reading that can be sent.
pub fn clock_reading(now: Timestamp) -> (result: Result<Timestamp, SdkError>)
    ensures
        match result {
            Ok(timestamp) => timestamp == now && value::timestamp_in_domain(now),
            Err(error) => !value::timestamp_in_domain(now) && error@ == ErrorView::Environment(
                "system clock is outside the protobuf Timestamp domain"@,
            ),
        },
{
    if value::valid_timestamp(&now) {
        Ok(now)
    } else {
        Err(
            SdkError::Environment(
                "system clock is outside the protobuf Timestamp domain".to_owned(),
            ),
        )
    }
}

/// Reads the system clock.
pub fn system_timestamp() -> (result: Result<Timestamp, SdkError>)
    ensures
        match result {
            Ok(timestamp) => value::timestamp_in_domain(timestamp) && foreign::clock_reads(
                timestamp,
            ),
            Err(error) => {
                &&& error@ == ErrorView::Environment(
                    "system clock is outside the protobuf Timestamp domain"@,
                )
                &&& exists|now: Timestamp| #[trigger]
                    foreign::clock_reads(now) && !value::timestamp_in_domain(now)
            },
        },
{
    proof {
        assert forall|now: Timestamp| #[trigger]
            call_ensures(foreign::current_time, (), now) implies foreign::clock_reads(now) by {
            foreign::lemma_clock_reads(now);
        }
    }
    clock_reading(foreign::current_time())
}

impl ActionContext {
    /// The error of work that is begun after the action is over.
    pub open spec fn activity_error(self) -> Option<ErrorView> {
        if self.cancellation.state == CancellationState::Active {
            None
        } else {
            Some(ErrorView::Cancelled)
        }
    }

    /// The context of a job that the host has just started.
    pub fn new<W>(
        job_id: String,
        deadline: Option<Timestamp>,
        trace: TraceContext,
        cancellation: Cancellation,
        parent_call_id: u64,
        host: &HostClient<W>,
    ) -> (result: Self)
        ensures
            result.job_id == job_id,
            result.deadline == deadline,
            result.trace == trace,
            result.cancellation == cancellation,
            result.parent_call_id == parent_call_id,
            result.session_id == host.session_id,
            result.maximum_artifact_chunk_bytes == host.maximum_artifact_chunk_bytes,
            result.maximum_call_depth == host.maximum_call_depth,
    {
        ActionContext {
            job_id,
            deadline,
            trace,
            cancellation,
            parent_call_id,
            session_id: host.session_id.clone(),
            maximum_artifact_chunk_bytes: host.maximum_artifact_chunk_bytes(),
            maximum_call_depth: host.maximum_call_depth(),
        }
    }

    /// Returns the immutable host-assigned job ID.
    pub fn job_id(&self) -> (result: &str)
        ensures
            result@ == self.job_id@,
    {
        self.job_id.as_str()
    }

    /// Returns the optional absolute job deadline supplied by oll.
    pub fn deadline(&self) -> (result: Option<&Timestamp>)
        ensures
            match result {
                Some(deadline) => self.deadline == Some(*deadline),
                None => self.deadline is None,
            },
    {
        self.deadline.as_ref()
    }

    /// Returns the immutable root trace context of this job.
    pub fn trace(&self) -> (result: &TraceContext)
        ensures
            *result == self.trace,
    {
        &self.trace
    }

    /// Returns the cooperative cancellation token for this job.
    pub fn cancellation(&self) -> (result: &Cancellation)
        ensures
            *result == self.cancellation,
    {
        &self.cancellation
    }

    /// The trace of a host call: one level below the call that started the job.
    pub open spec fn call_trace(self) -> TraceContext {
        TraceContext {
            parent_call_id: Some(self.parent_call_id),
            call_depth: (self.trace.call_depth + 1) as u32,
            ..self.trace
        }
    }

    /// What keeps a host call from being made.
    pub open spec fn host_call_error(self, call: HostCall) -> Option<ErrorView> {
        if self.activity_error() is Some {
            self.activity_error()
        } else if call::call_error(call, self.session_id@) is Some {
            call::call_error(call, self.session_id@)
        } else if self.trace.call_depth == u32::MAX {
            Some(ErrorView::Protocol("host-call depth overflowed"@))
        } else if self.trace.call_depth + 1 > self.maximum_call_depth {
            Some(ErrorView::Protocol("host call exceeds the negotiated call-depth limit"@))
        } else {
            None
        }
    }

    /// The request that makes a host call.
    pub open spec fn host_call_request(self, call: HostCall) -> Outgoing {
        Outgoing {
            reply_to: None,
            trace: self.call_trace(),
            payload: Payload::HostCall(HostCallRequest { call: Some(call) }),
        }
    }

    /// Begins one raw document or configuration host call: the request to send
    /// and the kind of answer to expect.
    pub fn host_call(&self, call: HostCall) -> (result: Result<(HostCallKind, Outgoing), SdkError>)
        ensures
            match result {
                Ok((kind, request)) => {
                    &&& self.host_call_error(call) is None
                    &&& kind == call::call_kind(call)
                    &&& request == self.host_call_request(call)
                },
                Err(error) => self.host_call_error(call) == Some(error@),
            },
    {
        match self.cancellation.ensure_active() {
            Ok(()) => {},
            Err(error) => {
                return Err(error);
            },
        }
        let kind: HostCallKind = match HostCallKind::validate(&call, self.session_id.as_str()) {
            Ok(kind) => kind,
            Err(error) => {
                return Err(error);
            },
        };
        let mut trace: TraceContext = self.trace.clone();
        trace.parent_call_id = Some(self.parent_call_id);
        trace.call_depth =
        match trace.call_depth.checked_add(1) {
            Some(depth) => depth,
            None => {
                return Err(SdkError::protocol("host-call depth overflowed"));
            },
        };
        if trace.call_depth > self.maximum_call_depth {
            return Err(SdkError::protocol("host call exceeds the negotiated call-depth limit"));
        }
        let payload: Payload = Payload::HostCall(HostCallRequest { call: Some(call) });
        Ok((kind, Outgoing { reply_to: None, trace, payload }))
    }

    /// Ends a host call with what the host replied.
    pub fn host_call_result(&self, kind: HostCallKind, reply: Attempt<Payload>) -> (result: Result<
        HostCallResponse,
        SdkError,
    >)
        ensures
            match result {
                Ok(response) => {
                    &&& call_failure(kind, reply, self.session_id@) is None
                    &&& reply == Attempt::Done(Payload::HostResult(response))
                },
                Err(error) => call_failure(kind, reply, self.session_id@) == Some(error@),
            },
    {
        let payload: Payload = match client::response(reply) {
            Ok(payload) => payload,
            Err(error) => {
                return Err(error);
            },
        };
        let response: HostCallResponse = match client::answer(payload) {
            Ok(response) => response,
            Err(error) => {
                return Err(error);
            },
        };
        match kind.validate_response(&response, self.session_id.as_str()) {
            Ok(()) => Ok(response),
            Err(error) => Err(error),
        }
    }

    /// Begins a read of the plugin's current live configuration at `path`.
    pub fn get_config(&self, path: Option<ConfigPath>) -> (result: Result<Outgoing, SdkError>)
        ensures
            ({
                let call = HostCall::GetConfig(GetConfigRequest { path });
                match result {
                    Ok(request) => self.host_call_error(call) is None && request
                        == self.host_call_request(call),
                    Err(error) => self.host_call_error(call) == Some(error@),
                }
            }),
    {
        match self.host_call(HostCall::GetConfig(GetConfigRequest { path })) {
            Ok((_, request)) => Ok(request),
            Err(error) => Err(error),
        }
    }

    /// Ends a read of the configuration with what the host replied.
    pub fn get_config_result(&self, reply: Attempt<Payload>) -> (result: Result<
        GetConfigResponse,
        SdkError,
    >)
        ensures
            match result {
                Ok(configured) => {
                    &&& call_failure(HostCallKind::GetConfig, reply, self.session_id@) is None
                    &&& reply == Attempt::Done(
                        Payload::HostResult(
                            HostCallResponse {
                                result: Some(HostCallResult::GetConfig(configured)),
                            },
                        ),
                    )
                },
                Err(error) => call_failure(HostCallKind::GetConfig, reply, self.session_id@)
                    == Some(error@),
            },
    {
        let response: HostCallResponse = match self.host_call_result(
            HostCallKind::GetConfig,
            reply,
        ) {
            Ok(response) => response,
            Err(error) => {
                return Err(error);
            },
        };
        match response.result {
            Some(HostCallResult::GetConfig(configured)) => Ok(configured),
            _ => Err(SdkError::protocol("host returned another response kind for GetConfig")),
        }
    }

    /// Begins a call of a configuration function owned by the current plugin
    /// session.
    pub fn invoke_config_function(
        &self,
        function: ConfigFunctionRef,
        arguments: Vec<ConfigValue>,
    ) -> (result: Result<Outgoing, SdkError>)
        ensures
            ({
                let call = HostCall::InvokeConfigFunction(
                    InvokeConfigFunctionRequest { function: Some(function), arguments },
                );
                match result {
                    Ok(request) => self.host_call_error(call) is None && request
                        == self.host_call_request(call),
                    Err(error) => self.host_call_error(call) == Some(error@),
                }
            }),
    {
        let request: InvokeConfigFunctionRequest = InvokeConfigFunctionRequest {
            function: Some(function),
            arguments,
        };
        match self.host_call(HostCall::InvokeConfigFunction(request)) {
            Ok((_, request)) => Ok(request),
            Err(error) => Err(error),
        }
    }

    /// Ends a call of a configuration function with what the host replied.
    pub fn invoke_config_function_result(&self, reply: Attempt<Payload>) -> (result: Result<
        InvokeConfigFunctionResponse,
        SdkError,
    >)
        ensures
            match result {
                Ok(returned) => {
                    &&& call_failure(HostCallKind::InvokeConfigFunction, reply, self.session_id@)
                        is None
                    &&& reply == Attempt::Done(
                        Payload::HostResult(
                            HostCallResponse {
                                result: Some(HostCallResult::InvokeConfigFunction(returned)),
                            },
                        ),
                    )
                },
                Err(error) => call_failure(
                    HostCallKind::InvokeConfigFunction,
                    reply,
                    self.session_id@,
                ) == Some(error@),
            },
    {
        let response: HostCallResponse = match self.host_call_result(
            HostCallKind::InvokeConfigFunction,
            reply,
        ) {
            Ok(response) => response,
            Err(error) => {
                return Err(error);
            },
        };
        match response.result {
            Some(HostCallResult::InvokeConfigFunction(returned)) => Ok(returned),
            _ => Err(
                SdkError::protocol("host returned another response kind for InvokeConfigFunction"),
            ),
        }
    }

    /// What is wrong with a log record, apart from the clock.
    pub open spec fn log_error(
        self,
        level: LogLevel,
        target: Seq<char>,
        fields: Seq<ConfigEntry>,
    ) -> Option<ErrorView> {
        if self.activity_error() is Some {
            self.activity_error()
        } else if level.left_open() {
            Some(ErrorView::InvalidArgument("log level must not be unspecified"@))
        } else if target.len() == 0 {
            Some(ErrorView::InvalidArgument("log target must not be empty"@))
        } else {
            value::first_entry_error(fields, 0, None)
        }
    }

    /// The message that carries a log record of the time `now`.
    pub open spec fn log_message(
        self,
        now: Timestamp,
        level: LogLevel,
        target: String,
        message: String,
        fields: Vec<ConfigEntry>,
    ) -> Outgoing {
        Outgoing {
            reply_to: None,
            trace: self.trace,
            payload: Payload::Log(
                LogRecord { timestamp: Some(now), level, target, message, fields },
            ),
        }
    }

    /// One validated structured log record of the time `now`.
    pub fn log_at(
        &self,
        now: Result<Timestamp, SdkError>,
        level: LogLevel,
        target: String,
        message: String,
        fields: Vec<ConfigEntry>,
    ) -> (result: Result<Outgoing, SdkError>)
        ensures
            match self.log_error(level, target@, fields@) {
                Some(error) => result is Err && result->Err_0@ == error,
                None => match now {
                    Ok(now) => result == Ok::<Outgoing, SdkError>(
                        self.log_message(now, level, target, message, fields),
                    ),
                    Err(error) => result == Err::<Outgoing, SdkError>(error),
                },
            },
    {
        match self.cancellation.ensure_active() {
            Ok(()) => {},
            Err(error) => {
                return Err(error);
            },
        }
        if level.is_unspecified() {
            return Err(SdkError::invalid_argument("log level must not be unspecified"));
        }
        if target.as_str().is_empty() {
            return Err(SdkError::invalid_argument("log target must not be empty"));
        }
        match value::validate_fields(fields.as_slice()) {
            Ok(()) => {},
            Err(error) => {
                return Err(error);
            },
        }
        let timestamp: Option<Timestamp> = match now {
            Ok(now) => Some(now),
            Err(error) => {
                return Err(error);
            },
        };
        Ok(
            Outgoing {
                reply_to: None,
                trace: self.trace.clone(),
                payload: Payload::Log(LogRecord { timestamp, level, target, message, fields }),
            },
        )
    }

    /// One validated structured plugin log record of the present time.
    ///
    /// Which time that is depends on the system clock.
    pub fn log(
        &self,
        level: LogLevel,
        target: String,
        message: String,
        fields: Vec<ConfigEntry>,
    ) -> (result: Result<Outgoing, SdkError>)
        ensures
            match (self.log_error(level, target@, fields@), result) {
                (Some(error), _) => result is Err && result->Err_0@ == error,
                (None, Ok(record)) => exists|now: Timestamp|
                    foreign::clock_reads(now) && value::timestamp_in_domain(now) && record
                        == #[trigger] self.log_message(now, level, target, message, fields),
                (None, Err(error)) => {
                    &&& error@ == ErrorView::Environment(
                        "system clock is outside the protobuf Timestamp domain"@,
                    )
                    &&& exists|now: Timestamp| #[trigger]
                        foreign::clock_reads(now) && !value::timestamp_in_domain(now)
                },
            },
    {
        self.log_at(system_timestamp(), level, target, message, fields)
    }

    /// A request in the name of this job.
    pub fn request(&self, payload: Payload) -> (result: Result<Outgoing, SdkError>)
        ensures
            match result {
                Ok(request) => {
                    &&& self.activity_error() is None
                    &&& request == Outgoing { reply_to: None, trace: self.trace, payload }
                },
                Err(error) => self.activity_error() == Some(error@),
            },
    {
        match self.cancellation.ensure_active() {
            Ok(()) => Ok(Outgoing { reply_to: None, trace: self.trace.clone(), payload }),
            Err(error) => Err(error),
        }
    }
}

/// Once an action is cancelled or has ended, nothing more can be begun in its
/// name: every call, record, request and transfer is refused as cancelled.
pub proof fn law_ended_actions_begin_nothing(
    context: ActionContext,
    call: HostCall,
    level: LogLevel,
    target: Seq<char>,
    fields: Seq<ConfigEntry>,
    descriptor: ArtifactDescriptor,
)
    requires
        context.cancellation.state != CancellationState::Active,
    ensures
        context.host_call_error(call) == Some(ErrorView::Cancelled),
        context.log_error(level, target, fields) == Some(ErrorView::Cancelled),
        context.activity_error() == Some(ErrorView::Cancelled),
        context.transfer_error(descriptor) == Some(ErrorView::Cancelled),
{
}

/// A host call is made exactly if the action is still running, the call is in order
/// and one level more stays within the negotiated depth. The request holds the call,
/// answers nothing and names the call that started the job as its parent.
pub proof fn law_host_calls_are_made_as_asked(
    context: ActionContext,
    call: HostCall,
    result: Result<(HostCallKind, Outgoing), SdkError>,
)
    requires
        call_ensures(ActionContext::host_call, (&context, call), result),
    ensures
        result is Ok <==> {
            &&& context.cancellation.state == CancellationState::Active
            &&& call::call_error(call, context.session_id@) is None
            &&& context.trace.call_depth < context.maximum_call_depth
        },
        result is Err && context.cancellation.state != CancellationState::Active
            ==> result->Err_0@ == ErrorView::Cancelled,
        result matches Ok((kind, request)) ==> {
            &&& request.reply_to is None
            &&& request.payload matches Payload::HostCall(made) && made.call == Some(call)
            &&& request.trace.parent_call_id == Some(context.parent_call_id)
            &&& request.trace.call_depth == context.trace.call_depth + 1
            &&& request.trace.causal_depth == context.trace.causal_depth
            &&& request.trace.correlation_id == context.trace.correlation_id
            &&& request.trace.task_id == context.trace.task_id
            &&& request.trace.task_group_id == context.trace.task_group_id
        },
{
}

/// A host call of the document service ends with the result of its own name as it
/// came, and with no other.
pub proof fn law_host_calls_end_with_their_own_result(
    context: ActionContext,
    asked: HostCall,
    kind: HostCallKind,
    request: Outgoing,
    result: HostCallResult,
    ended: Result<HostCallResponse, SdkError>,
)
    requires
        call_ensures(
            ActionContext::host_call,
            (&context, asked),
            Ok::<(HostCallKind, Outgoing), SdkError>((kind, request)),
        ),
        call_ensures(
            ActionContext::host_call_result,
            (
                &context,
                kind,
                Attempt::Done(Payload::HostResult(HostCallResponse { result: Some(result) })),
            ),
            ended,
        ),
        !(result is Error) && !(result is GetConfig) && !(result is InvokeConfigFunction),
    ensures
        ended == Ok::<HostCallResponse, SdkError>(HostCallResponse { result: Some(result) })
            <==> {
            ||| asked is ReadDocument && result is ReadDocument
            ||| asked is ListDirectory && result is ListDirectory
            ||| asked is GetDirectoryTree && result is GetDirectoryTree
            ||| asked is ReadCrdt && result is ReadCrdt
            ||| asked is CommitDocuments && result is CommitDocuments
        },
        ended is Ok ==> ended == Ok::<HostCallResponse, SdkError>(
            HostCallResponse { result: Some(result) },
        ),
        ended is Err ==> ended->Err_0@ is Protocol,
{
    call::law_calls_are_answered_by_their_own_results(asked, result, context.session_id@);
}

/// A read of the configuration ends with the answer that came for it, if that is one
/// and what it holds may be exchanged in the session.
pub proof fn law_configuration_is_read_as_it_came(
    context: ActionContext,
    result: HostCallResult,
    read: Result<GetConfigResponse, SdkError>,
    returned: Result<InvokeConfigFunctionResponse, SdkError>,
)
    requires
        call_ensures(
            ActionContext::get_config_result,
            (
                &context,
                Attempt::Done(Payload::HostResult(HostCallResponse { result: Some(result) })),
            ),
            read,
        ),
        call_ensures(
            ActionContext::invoke_config_function_result,
            (
                &context,
                Attempt::Done(Payload::HostResult(HostCallResponse { result: Some(result) })),
            ),
            returned,
        ),
    ensures
        match read {
            Ok(configured) => result == HostCallResult::GetConfig(configured) && (
            configured.value matches Some(value) ==> value::value_error(
                value,
                0,
                Some(context.session_id@),
            ) is None),
            Err(_) => !(result matches HostCallResult::GetConfig(configured) && (
            configured.value matches Some(value) ==> value::value_error(
                value,
                0,
                Some(context.session_id@),
            ) is None)),
        },
        match returned {
            Ok(response) => result == HostCallResult::InvokeConfigFunction(response) && forall|
                index: int,
            |
                0 <= index < response.results@.len() ==> value::value_error(
                    #[trigger] response.results@[index],
                    0,
                    Some(context.session_id@),
                ) is None,
            Err(_) => !(result matches HostCallResult::InvokeConfigFunction(response) && forall|
                index: int,
            |
                0 <= index < response.results@.len() ==> value::value_error(
                    #[trigger] response.results@[index],
                    0,
                    Some(context.session_id@),
                ) is None),
        },
{
    match result {
        HostCallResult::InvokeConfigFunction(response) => {
            value::law_values_pass_together(response.results@, 0, Some(context.session_id@));
        },
        _ => {},
    }
}

/// The context of a job knows the job, its deadline, its trace and the call that
/// started it, and what was negotiated with the host.
pub proof fn law_contexts_know_their_job<W>(
    job_id: String,
    deadline: Option<Timestamp>,
    trace: TraceContext,
    cancellation: Cancellation,
    parent_call_id: u64,
    host: HostClient<W>,
    context: ActionContext,
)
    requires
        call_ensures(
            ActionContext::new::<W>,
            (job_id, deadline, trace, cancellation, parent_call_id, &host),
            context,
        ),
    ensures
        context.job_id == job_id,
        context.deadline == deadline,
        context.trace == trace,
        context.cancellation == cancellation,
        context.parent_call_id == parent_call_id,
        context.session_id == host.session_id,
        context.maximum_artifact_chunk_bytes == host.maximum_artifact_chunk_bytes,
        context.maximum_call_depth == host.maximum_call_depth,
{
}

/// Reads of the configuration and calls of its functions go out with the path, the
/// function and the arguments they were given, one level below the job.
pub proof fn law_configuration_is_asked_for_as_given(
    context: ActionContext,
    path: Option<ConfigPath>,
    read: Result<Outgoing, SdkError>,
    function: ConfigFunctionRef,
    arguments: Vec<ConfigValue>,
    called: Result<Outgoing, SdkError>,
)
    requires
        call_ensures(ActionContext::get_config, (&context, path), read),
        call_ensures(ActionContext::invoke_config_function, (&context, function, arguments), called),
    ensures
        read matches Ok(request) ==> {
            &&& request.reply_to is None
            &&& request.trace.parent_call_id == Some(context.parent_call_id)
            &&& request.trace.call_depth == context.trace.call_depth + 1
            &&& request.trace.correlation_id == context.trace.correlation_id
            &&& request.payload matches Payload::HostCall(made) && made.call matches Some(
                HostCall::GetConfig(asked),
            ) && asked.path == path
        },
        read is Ok <==> {
            &&& context.cancellation.state == CancellationState::Active
            &&& context.trace.call_depth < context.maximum_call_depth
            &&& path matches Some(path) ==> forall|index: int|
                0 <= index < path.segments@.len() ==> (#[trigger] path.segments@[index]).kind
                    is Some
        },
        called matches Ok(request) ==> {
            &&& request.reply_to is None
            &&& request.trace.parent_call_id == Some(context.parent_call_id)
            &&& request.trace.call_depth == context.trace.call_depth + 1
            &&& request.trace.correlation_id == context.trace.correlation_id
            &&& request.payload matches Payload::HostCall(made) && made.call matches Some(
                HostCall::InvokeConfigFunction(asked),
            ) && asked.function == Some(function) && asked.arguments == arguments
        },
        called is Ok <==> {
            &&& context.cancellation.state == CancellationState::Active
            &&& context.trace.call_depth < context.maximum_call_depth
            &&& function.session_id@ == context.session_id@
            &&& function.function_id@.len() > 0
            &&& forall|index: int|
                0 <= index < arguments@.len() ==> value::value_error(
                    #[trigger] arguments@[index],
                    0,
                    Some(context.session_id@),
                ) is None
        },
{
    value::law_values_pass_together(arguments@, 0, Some(context.session_id@));
}

/// A request in the name of a job carries its trace and payload and is made exactly
/// while the action runs.
pub proof fn law_requests_are_made_while_the_action_runs(
    context: ActionContext,
    payload: Payload,
    result: Result<Outgoing, SdkError>,
)
    requires
        call_ensures(ActionContext::request, (&context, payload), result),
    ensures
        if context.cancellation.state == CancellationState::Active {
            result matches Ok(request) && request.reply_to is None && request.trace
                == context.trace && request.payload == payload
        } else {
            result is Err && result->Err_0@ == ErrorView::Cancelled
        },
{
}

/// A result holds the value and the artifacts that it was given, and nothing else.
pub proof fn law_results_hold_what_they_were_given(
    value: ConfigValue,
    made: Result<ActionResult, SdkError>,
    result: ActionResult,
    artifact: StoredArtifact,
    extended: ActionResult,
)
    requires
        call_ensures(ActionResult::value, (value,), made),
        call_ensures(ActionResult::with_artifact, (result, artifact), extended),
    ensures
        made is Ok <==> value::value_error(value, 0, None) is None,
        made matches Ok(made) ==> made.output() == Some(value) && made.stored().len() == 0,
        extended.output() == result.output(),
        extended.stored().len() == result.stored().len() + 1,
        extended.stored().drop_last() == result.stored(),
        extended.stored().last() == artifact,
{
    assert(extended.stored().drop_last() =~= result.stored());
}

/// A log record carries what it was given, under the trace of the job, and is
/// stamped with a reading of the system clock. It is refused exactly if the action
/// is over, the level is left open, the target is empty or a field may not be
/// logged, unless the clock reads a time outside the years 1 to 9999.
pub proof fn law_log_records_are_stamped_by_the_clock(
    context: ActionContext,
    level: LogLevel,
    target: String,
    message: String,
    fields: Vec<ConfigEntry>,
    result: Result<Outgoing, SdkError>,
)
    requires
        call_ensures(ActionContext::log, (&context, level, target, message, fields), result),
    ensures
        ({
            let accepted = {
                &&& context.cancellation.state == CancellationState::Active
                &&& level != LogLevel::Unspecified
                &&& level != LogLevel::Other(0)
                &&& target@.len() > 0
                &&& forall|index: int|
                    0 <= index < fields@.len() ==> value::value_error(
                        (#[trigger] fields@[index]).value,
                        0,
                        None,
                    ) is None
            };
            match result {
                Ok(record) => {
                    &&& accepted
                    &&& record.reply_to is None
                    &&& record.trace == context.trace
                    &&& record.payload matches Payload::Log(logged) && {
                        &&& logged.level == level
                        &&& logged.target == target
                        &&& logged.message == message
                        &&& logged.fields == fields
                        &&& logged.timestamp matches Some(now) && foreign::clock_reads(now)
                            && -62_135_596_800 <= now.seconds <= 253_402_300_799 && 0 <= now.nanos
                            <= 999_999_999
                    }
                },
                Err(error) => if !accepted {
                    error@ is InvalidArgument || error@ is Cancelled
                } else {
                    &&& error@ is Environment
                    &&& exists|now: Timestamp| #[trigger]
                        foreign::clock_reads(now) && !(-62_135_596_800 <= now.seconds
                            <= 253_402_300_799)
                },
            }
        }),
{
    value::law_entries_pass_together(fields@, 0, None);
    if value::first_entry_error(fields@, 0, None) is Some {
        value::law_stored_values_fail_as_arguments(fields@, 0);
    }
    if result is Err && context.log_error(level, target@, fields@) is None {
        let now = choose|now: Timestamp| #[trigger]
            foreign::clock_reads(now) && !value::timestamp_in_domain(now);
        foreign::lemma_clock_reads(now);
    }
}

/// The present time is a reading of the system clock.
pub proof fn law_the_present_time_is_read_from_the_clock(result: Result<Timestamp, SdkError>)
    requires
        call_ensures(system_timestamp, (), result),
    ensures
        exists|now: Timestamp| #[trigger]
            foreign::clock_reads(now) && match result {
                Ok(timestamp) => timestamp == now,
                Err(error) => error@ is Environment && !(-62_135_596_800 <= now.seconds
                    <= 253_402_300_799),
            },
{
    match result {
        Ok(timestamp) => {
            assert(foreign::clock_reads(timestamp));
        },
        Err(_) => {
            let now = choose|now: Timestamp| #[trigger]
                foreign::clock_reads(now) && !value::timestamp_in_domain(now);
            foreign::lemma_clock_reads(now);
        },
    }
}

/// A log record holds a key twice only where the fields it was given do.
pub proof fn law_log_records_keep_their_keys(
    context: ActionContext,
    now: Timestamp,
    level: LogLevel,
    target: String,
    message: String,
    fields: Vec<ConfigEntry>,
)
    ensures
        context.log_message(now, level, target, message, fields).payload matches Payload::Log(
            record,
        ) && record.keys_distinct() == protocol::entries_well_keyed(fields@),
{
}

/// A host call that is made names the call that started the job as its parent,
/// stays within the negotiated depth and otherwise keeps the trace of the job.
pub proof fn law_calls_stay_within_the_negotiated_depth(context: ActionContext, call: HostCall)
    requires
        context.host_call_error(call) is None,
    ensures
        ({
            let trace = context.host_call_request(call).trace;
            &&& trace.parent_call_id == Some(context.parent_call_id)
            &&& trace.call_depth == context.trace.call_depth + 1 <= context.maximum_call_depth
            &&& trace.correlation_id == context.trace.correlation_id
            &&& trace.causal_depth == context.trace.causal_depth
            &&& trace.task_id == context.trace.task_id
            &&& trace.task_group_id == context.trace.task_group_id
        }),
{
}

} // verus!
