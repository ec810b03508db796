//! The transfer of one artifact whose source has been validated.
//!
//! Each stage is a type of its own that only the stage before it can make: a
//! validated artifact is announced, an announced one is accepted, an accepted one
//! is sent chunk by chunk, and a completed one is confirmed.

use vstd::prelude::*;

use crate::cancellation::Attempt;
use crate::error::{ErrorView, SdkError};
use crate::host::artifact;
use crate::host::artifact::{ArtifactPlan, ValidatedArtifact, ARTIFACT_IO_BUFFER_BYTES};
use crate::host::{ActionContext, StoredArtifact};
use crate::protocol::{
    ArtifactDescriptor, ArtifactTransferChunk, ArtifactTransferComplete, ArtifactTransferStart,
    Outgoing, Payload, PluginArtifactId, PluginJobId, TraceContext,
};

verus! {

// ---------------------------------------------------------------------------
// Stages
// ---------------------------------------------------------------------------

/// An artifact that the host has accepted and that is on its way.
pub struct ArtifactTransfer {
    descriptor: ArtifactDescriptor,
    artifact_id: PluginArtifactId,
    plan: ArtifactPlan,
    next_chunk: u32,
    remaining: u64,
    source: Ghost<Seq<u8>>,
    sent: Ghost<Seq<u8>>,
}

/// An artifact that has been announced to the host.
pub struct AnnouncedTransfer {
    transfer: ArtifactTransfer,
}

/// An artifact whose bytes have all been sent.
pub struct CompletedTransfer {
    transfer: ArtifactTransfer,
}

impl ArtifactTransfer {
    /// What was declared of the artifact.
    pub closed spec fn declared(self) -> ArtifactDescriptor {
        self.descriptor
    }

    /// The ID of the artifact.
    pub closed spec fn id(self) -> PluginArtifactId {
        self.artifact_id
    }

    /// How the artifact is cut into chunks.
    pub closed spec fn cut(self) -> ArtifactPlan {
        self.plan
    }

    /// The number of chunks sent so far.
    pub closed spec fn chunks_sent(self) -> u32 {
        self.next_chunk
    }

    /// The number of bytes that are yet to be sent.
    pub closed spec fn left(self) -> u64 {
        self.remaining
    }

    /// The bytes that were read from the source when it was validated.
    pub closed spec fn source(self) -> Seq<u8> {
        self.source@
    }

    /// The bytes of the chunks sent so far.
    pub closed spec fn sent(self) -> Seq<u8> {
        self.sent@
    }

    pub open spec fn size(self) -> int {
        self.declared().size_bytes as int
    }

    /// The length of the next chunk.
    pub open spec fn next_length(self) -> int {
        artifact::chunk_length(
            self.size(),
            self.cut().chunk_bytes as int,
            self.chunks_sent() as int,
        )
    }

    /// The source is what was declared, and what is left is what the chunks sent
    /// so far leave of it.
    pub open spec fn well_formed(self) -> bool {
        let chunk = self.cut().chunk_bytes as int;
        let count = self.chunks_sent() as nat;
        &&& artifact::descriptor_error(self.declared()@) is None
        &&& self.declared().artifact_id == Some(self.id())
        &&& artifact::source_matches(self.declared()@, self.source())
        &&& 0 < chunk <= ARTIFACT_IO_BUFFER_BYTES
        &&& self.cut().chunk_count == artifact::chunks_needed(self.size(), chunk)
        &&& self.chunks_sent() <= self.cut().chunk_count
        &&& self.sent().len() == artifact::chunks_length(self.size(), chunk, count)
        &&& self.left() == self.size() - self.sent().len()
    }

    /// Whether all chunks have been sent.
    pub open spec fn complete(self) -> bool {
        self.chunks_sent() == self.cut().chunk_count
    }

    /// Whether a message carries `data` as the next chunk.
    pub open spec fn carries_chunk(
        self,
        trace: TraceContext,
        data: Seq<u8>,
        message: Outgoing,
    ) -> bool {
        &&& message.reply_to is None
        &&& message.trace == trace
        &&& message.payload matches Payload::ArtifactChunk(chunk) && {
            &&& chunk.artifact_id == Some(self.id())
            &&& chunk.chunk_index == self.chunks_sent()
            &&& chunk.data@ == data
        }
    }

    /// Whether sending `data` as the next chunk turns `self` into `after`.
    pub open spec fn sends_chunk(
        self,
        trace: TraceContext,
        data: Seq<u8>,
        message: Outgoing,
        after: ArtifactTransfer,
    ) -> bool {
        &&& !self.complete()
        &&& data.len() == self.next_length()
        &&& self.carries_chunk(trace, data, message)
        &&& after.declared() == self.declared()
        &&& after.id() == self.id()
        &&& after.cut() == self.cut()
        &&& after.source() == self.source()
        &&& after.chunks_sent() == self.chunks_sent() + 1
        &&& after.left() == self.left() - data.len()
        &&& after.sent() == self.sent() + data
    }
}

impl AnnouncedTransfer {
    /// The transfer that begins when the host accepts it.
    pub closed spec fn pending(self) -> ArtifactTransfer {
        self.transfer
    }

    /// Nothing has been sent yet.
    pub open spec fn well_formed(self) -> bool {
        &&& self.pending().well_formed()
        &&& self.pending().chunks_sent() == 0
        &&& self.pending().sent().len() == 0
    }

    /// Whether the host accepts this very transfer.
    pub open spec fn accepted_by(self, reply: Payload) -> bool {
        reply matches Payload::ArtifactAccepted(accepted) && accepted.artifact_id matches Some(id)
            && id.value@ == self.pending().id().value@
    }

    /// The transfer, if the host accepts it.
    pub fn accepted(self, reply: Payload) -> (result: Result<ArtifactTransfer, SdkError>)
        requires
            self.well_formed(),
        ensures
            match result {
                Ok(transfer) => {
                    &&& self.accepted_by(reply)
                    &&& transfer == self.pending()
                    &&& transfer.well_formed()
                },
                Err(error) => !self.accepted_by(reply) && error@ == ErrorView::Protocol(
                    "host did not accept the same artifact transfer"@,
                ),
            },
    {
        match reply {
            Payload::ArtifactAccepted(accepted) => match accepted.artifact_id {
                Some(id) => {
                    if id.value == self.transfer.artifact_id.value {
                        return Ok(self.transfer);
                    }
                },
                None => {},
            },
            _ => {},
        }
        Err(SdkError::protocol("host did not accept the same artifact transfer"))
    }
}

impl CompletedTransfer {
    /// The transfer whose chunks have all been sent.
    pub closed spec fn transferred(self) -> ArtifactTransfer {
        self.transfer
    }

    /// The source was what was declared, and as many bytes have been sent.
    pub open spec fn well_formed(self) -> bool {
        &&& self.transferred().well_formed()
        &&& self.transferred().complete()
        &&& self.transferred().sent().len() == self.transferred().size()
    }

    /// Whether the host confirms that it has stored this very artifact.
    pub open spec fn stored_by(self, reply: Payload) -> bool {
        reply matches Payload::ArtifactStored(stored) && stored.artifact_id matches Some(id)
            && id.value@ == self.transferred().id().value@
    }
}

impl ActionContext {
    /// What keeps an artifact from being transferred once its source is valid.
    pub open spec fn transfer_error(self, descriptor: ArtifactDescriptor) -> Option<ErrorView> {
        if self.activity_error() is Some {
            self.activity_error()
        } else {
            artifact::plan_error(descriptor.size_bytes, self.maximum_artifact_chunk_bytes)
        }
    }

    /// Whether a validated artifact is announced by `request` as `announced`.
    pub open spec fn announces(
        self,
        descriptor: ArtifactDescriptor,
        source: Seq<u8>,
        announced: AnnouncedTransfer,
        request: Outgoing,
    ) -> bool {
        let transfer = announced.pending();
        &&& announced.well_formed()
        &&& transfer.declared() == descriptor
        &&& transfer.source() == source
        &&& transfer.cut().chunk_bytes == artifact::full_chunk(self.maximum_artifact_chunk_bytes)
        &&& request.reply_to is None
        &&& request.trace == self.trace
        &&& request.payload matches Payload::ArtifactStart(start) && {
            &&& start.job_id == Some(PluginJobId { value: self.job_id })
            &&& start.artifact matches Some(artifact) && artifact@ == descriptor@
            &&& start.chunk_count == transfer.cut().chunk_count
        }
    }

    /// Announces an artifact whose source has been validated.
    pub fn start_transfer(&self, validated: ValidatedArtifact) -> (result: Result<
        (AnnouncedTransfer, Outgoing),
        SdkError,
    >)
        requires
            validated.well_formed(),
        ensures
            match result {
                Ok((announced, request)) => {
                    &&& self.transfer_error(validated.declaration().declared()) is None
                    &&& self.announces(
                        validated.declaration().declared(),
                        validated.source(),
                        announced,
                        request,
                    )
                },
                Err(error) => self.transfer_error(validated.declaration().declared()) == Some(
                    error@,
                ),
            },
    {
        match self.cancellation.ensure_active() {
            Ok(()) => {},
            Err(error) => {
                return Err(error);
            },
        }
        let plan: ArtifactPlan = match artifact::artifact_plan(
            validated.descriptor().size_bytes,
            self.maximum_artifact_chunk_bytes,
        ) {
            Ok(plan) => plan,
            Err(error) => {
                return Err(error);
            },
        };
        let start: ArtifactTransferStart = ArtifactTransferStart {
            job_id: Some(PluginJobId { value: self.job_id.clone() }),
            artifact: Some(validated.descriptor().clone()),
            chunk_count: plan.chunk_count,
        };
        let request: Outgoing = match self.request(Payload::ArtifactStart(start)) {
            Ok(request) => request,
            Err(error) => {
                return Err(error);
            },
        };
        let ghost source = validated.source();
        let (descriptor, artifact_id) = validated.into_parts();
        let remaining: u64 = descriptor.size_bytes;
        let transfer: ArtifactTransfer = ArtifactTransfer {
            descriptor,
            artifact_id,
            plan,
            next_chunk: 0,
            remaining,
            source: Ghost(source),
            sent: Ghost(Seq::empty()),
        };
        Ok((AnnouncedTransfer { transfer }, request))
    }

    /// How many bytes of the source the next chunk takes, or nothing once all
    /// chunks have been sent.
    pub fn next_chunk(&self, transfer: &ArtifactTransfer) -> (result: Result<
        Option<usize>,
        SdkError,
    >)
        requires
            transfer.well_formed(),
        ensures
            if transfer.complete() {
                result == Ok::<Option<usize>, SdkError>(None)
            } else {
                match result {
                    Ok(length) => {
                        &&& self.activity_error() is None
                        &&& length matches Some(length) && length == transfer.next_length()
                    },
                    Err(error) => self.activity_error() == Some(error@),
                }
            },
    {
        if transfer.next_chunk == transfer.plan.chunk_count {
            return Ok(None);
        }
        match self.cancellation.ensure_active() {
            Ok(()) => {},
            Err(error) => {
                return Err(error);
            },
        }
        proof {
            lemma_next_chunk(*transfer);
        }
        let length: usize = if transfer.remaining < transfer.plan.chunk_bytes as u64 {
            transfer.remaining as usize
        } else {
            transfer.plan.chunk_bytes
        };
        Ok(Some(length))
    }

    /// The message that carries the next chunk, as it was read from the source.
    pub fn send_chunk(&self, transfer: &mut ArtifactTransfer, data: Attempt<Vec<u8>>) -> (result:
        Result<Outgoing, SdkError>)
        requires
            old(transfer).well_formed(),
            !old(transfer).complete(),
            data matches Attempt::Done(data) ==> data@.len() == old(transfer).next_length(),
        ensures
            final(transfer).well_formed(),
            match result {
                Ok(message) => data matches Attempt::Done(data) && old(transfer).sends_chunk(
                    self.trace,
                    data@,
                    message,
                    *final(transfer),
                ),
                Err(error) => {
                    &&& *final(transfer) == *old(transfer)
                    &&& data.error("read validated artifact source"@) == Some(error@)
                },
            },
    {
        let data: Vec<u8> = match data.outcome("read validated artifact source") {
            Ok(data) => data,
            Err(error) => {
                return Err(error);
            },
        };
        proof {
            lemma_next_chunk(*transfer);
        }
        let length: u64 = data.len() as u64;
        let ghost sent = transfer.sent@ + data@;
        let chunk: ArtifactTransferChunk = ArtifactTransferChunk {
            artifact_id: Some(transfer.artifact_id.clone()),
            chunk_index: transfer.next_chunk,
            data,
        };
        transfer.next_chunk = transfer.next_chunk + 1;
        transfer.remaining = transfer.remaining - length;
        transfer.sent = Ghost(sent);
        Ok(
            Outgoing {
                reply_to: None,
                trace: self.trace.clone(),
                payload: Payload::ArtifactChunk(chunk),
            },
        )
    }

    /// The request that ends the transfer of this artifact.
    pub open spec fn completion(self, artifact_id: PluginArtifactId) -> Outgoing {
        Outgoing {
            reply_to: None,
            trace: self.trace,
            payload: Payload::ArtifactComplete(
                ArtifactTransferComplete { artifact_id: Some(artifact_id) },
            ),
        }
    }

    /// Ends a transfer whose chunks have all been sent.
    pub fn complete_transfer(&self, transfer: ArtifactTransfer) -> (result: Result<
        (CompletedTransfer, Outgoing),
        SdkError,
    >)
        requires
            transfer.well_formed(),
            transfer.complete(),
        ensures
            match result {
                Ok((completed, request)) => {
                    &&& self.activity_error() is None
                    &&& completed.transferred() == transfer
                    &&& completed.well_formed()
                    &&& request == self.completion(transfer.id())
                },
                Err(error) => self.activity_error() == Some(error@),
            },
    {
        proof {
            lemma_complete_transfer(transfer);
        }
        let complete: ArtifactTransferComplete = ArtifactTransferComplete {
            artifact_id: Some(transfer.artifact_id.clone()),
        };
        match self.request(Payload::ArtifactComplete(complete)) {
            Ok(request) => Ok((CompletedTransfer { transfer }, request)),
            Err(error) => Err(error),
        }
    }

    /// The stored artifact, if the host confirms that it has stored this one.
    pub fn finish_transfer(&self, completed: CompletedTransfer, reply: Payload) -> (result: Result<
        StoredArtifact,
        SdkError,
    >)
        requires
            completed.well_formed(),
        ensures
            match result {
                Ok(stored) => {
                    &&& completed.stored_by(reply)
                    &&& stored.owner() == self.job_id
                    &&& stored.declared() == completed.transferred().declared()
                    &&& stored.well_formed()
                    &&& artifact::source_matches(
                        stored.declared()@,
                        completed.transferred().source(),
                    )
                },
                Err(error) => !completed.stored_by(reply) && error@ == ErrorView::Protocol(
                    "host did not confirm the same artifact ID"@,
                ),
            },
    {
        match reply {
            Payload::ArtifactStored(stored) => match stored.artifact_id {
                Some(id) => {
                    if id.value == completed.transfer.artifact_id.value {
                        return Ok(
                            StoredArtifact::confirmed(
                                self.job_id.clone(),
                                completed.transfer.descriptor,
                            ),
                        );
                    }
                },
                None => {},
            },
            _ => {},
        }
        Err(SdkError::protocol("host did not confirm the same artifact ID"))
    }
}

// ---------------------------------------------------------------------------
// Laws
// ---------------------------------------------------------------------------

/// The next chunk is the smaller of a full chunk and what is left, which is
/// something.
proof fn lemma_next_chunk(transfer: ArtifactTransfer)
    requires
        transfer.well_formed(),
        !transfer.complete(),
    ensures
        0 < transfer.next_length() <= transfer.left(),
        transfer.next_length() == if transfer.left() < transfer.cut().chunk_bytes {
            transfer.left() as int
        } else {
            transfer.cut().chunk_bytes as int
        },
        artifact::chunks_length(
            transfer.size(),
            transfer.cut().chunk_bytes as int,
            (transfer.chunks_sent() + 1) as nat,
        ) == transfer.sent().len() + transfer.next_length(),
{
    let chunk = transfer.cut().chunk_bytes as int;
    artifact::lemma_chunks_end_at_the_size(
        transfer.size(),
        chunk,
        transfer.chunks_sent() as int,
    );
    artifact::lemma_chunks_length(transfer.size(), chunk, transfer.chunks_sent() as nat);
}

proof fn lemma_complete_transfer(transfer: ArtifactTransfer)
    requires
        transfer.well_formed(),
        transfer.complete(),
    ensures
        transfer.sent().len() == transfer.size(),
{
    let chunk = transfer.cut().chunk_bytes as int;
    artifact::lemma_chunks_length(transfer.size(), chunk, transfer.chunks_sent() as nat);
    artifact::lemma_chunks_end_at_the_size(
        transfer.size(),
        chunk,
        transfer.chunks_sent() as int,
    );
}

impl ArtifactTransfer {
    /// The next chunk is the smaller of a planned chunk and what is left.
    pub proof fn lemma_next_chunk_is_bounded(self)
        requires
            self.well_formed(),
            !self.complete(),
        ensures
            0 < self.next_length() <= self.left(),
            self.next_length() == if self.left() < self.cut().chunk_bytes {
                self.left() as int
            } else {
                self.cut().chunk_bytes as int
            },
    {
        lemma_next_chunk(self);
    }

    /// A complete transfer has sent as many bytes as were declared.
    pub proof fn lemma_complete_is_all(self)
        requires
            self.well_formed(),
            self.complete(),
        ensures
            self.sent().len() == self.size(),
    {
        lemma_complete_transfer(self);
    }
}

/// Whether a transfer passes through `states` by sending `chunks` in `messages`.
pub open spec fn chunk_run(
    trace: TraceContext,
    states: Seq<ArtifactTransfer>,
    chunks: Seq<Seq<u8>>,
    messages: Seq<Outgoing>,
) -> bool {
    &&& states.len() == chunks.len() + 1
    &&& messages.len() == chunks.len()
    &&& forall|index: int|
        0 <= index < chunks.len() ==> states[index].sends_chunk(
            trace,
            #[trigger] chunks[index],
            messages[index],
            states[index + 1],
        )
}

/// Whether a message carries chunk number `index` of an artifact.
pub open spec fn is_chunk(
    message: Outgoing,
    artifact_id: PluginArtifactId,
    index: int,
    data: Seq<u8>,
) -> bool {
    &&& message.payload matches Payload::ArtifactChunk(chunk) && {
        &&& chunk.artifact_id == Some(artifact_id)
        &&& chunk.chunk_index == index
        &&& chunk.data@ == data
    }
}

/// The chunks of a run that begins with the transfer are numbered from zero and
/// carry what was read for them. They never hold more bytes than the artifact,
/// and exactly as many once the run is complete.
pub proof fn law_chunk_runs_send_the_declared_size(
    trace: TraceContext,
    states: Seq<ArtifactTransfer>,
    chunks: Seq<Seq<u8>>,
    messages: Seq<Outgoing>,
)
    requires
        chunk_run(trace, states, chunks, messages),
        states[0].well_formed(),
        states[0].chunks_sent() == 0,
        states[0].sent().len() == 0,
    ensures
        states.last().well_formed(),
        states.last().chunks_sent() == chunks.len(),
        states.last().declared() == states[0].declared(),
        states.last().id() == states[0].id(),
        states.last().cut() == states[0].cut(),
        states.last().source() == states[0].source(),
        states.last().sent() == artifact::joined(chunks),
        artifact::joined(chunks).len() <= states[0].size(),
        states.last().complete() ==> artifact::joined(chunks).len() == states[0].size(),
        forall|index: int|
            0 <= index < messages.len() ==> is_chunk(
                #[trigger] messages[index],
                states[0].id(),
                index,
                chunks[index],
            ),
    decreases chunks.len(),
{
    if chunks.len() > 0 {
        let count = chunks.len() - 1;
        assert(states[count].sends_chunk(trace, chunks[count], messages[count], states[count + 1]));
        let earlier = chunks.drop_last();
        assert forall|index: int| 0 <= index < earlier.len() implies states.drop_last()[
        index].sends_chunk(
            trace,
            #[trigger] earlier[index],
            messages.drop_last()[index],
            states.drop_last()[index + 1],
        ) by {
            assert(earlier[index] == chunks[index]);
        }
        law_chunk_runs_send_the_declared_size(
            trace,
            states.drop_last(),
            earlier,
            messages.drop_last(),
        );
        assert(states.drop_last().last() == states[count]);
        lemma_next_chunk(states[count]);
        assert forall|index: int| 0 <= index < messages.len() implies is_chunk(
            #[trigger] messages[index],
            states[0].id(),
            index,
            chunks[index],
        ) by {
            if index < count {
                assert(messages.drop_last()[index] == messages[index]);
                assert(earlier[index] == chunks[index]);
            }
        }
    } else {
        assert(states.last().sent() =~= artifact::joined(chunks));
    }
    if states.last().complete() {
        lemma_complete_transfer(states.last());
    }
}

/// Whether the pieces were read one after another from the start of the source.
pub open spec fn read_in_order(source: Seq<u8>, pieces: Seq<Seq<u8>>) -> bool {
    forall|index: int|
        0 <= index < pieces.len() ==> {
            let start = artifact::joined(pieces.take(index)).len() as int;
            #[trigger] pieces[index] == source.subrange(start, start + pieces[index].len())
        }
}

/// A complete run whose chunks are read one after another from the source that
/// was validated sends that source, byte for byte.
pub proof fn law_complete_runs_send_the_source(
    trace: TraceContext,
    states: Seq<ArtifactTransfer>,
    chunks: Seq<Seq<u8>>,
    messages: Seq<Outgoing>,
)
    requires
        chunk_run(trace, states, chunks, messages),
        states[0].well_formed(),
        states[0].chunks_sent() == 0,
        states[0].sent().len() == 0,
        states.last().complete(),
        read_in_order(states[0].source(), chunks),
    ensures
        artifact::joined(chunks) == states[0].source(),
        artifact::source_matches(states[0].declared()@, artifact::joined(chunks)),
{
    law_chunk_runs_send_the_declared_size(trace, states, chunks, messages);
    lemma_pieces_in_order(states[0].source(), chunks);
    assert(states[0].source().take(states[0].source().len() as int) =~= states[0].source());
}

proof fn lemma_pieces_in_order(source: Seq<u8>, pieces: Seq<Seq<u8>>)
    requires
        read_in_order(source, pieces),
        artifact::joined(pieces).len() <= source.len(),
    ensures
        artifact::joined(pieces) == source.take(artifact::joined(pieces).len() as int),
    decreases pieces.len(),
{
    if pieces.len() > 0 {
        let earlier = pieces.drop_last();
        let count = pieces.len() - 1;
        assert forall|index: int| 0 <= index < earlier.len() implies {
            let start = artifact::joined(earlier.take(index)).len() as int;
            #[trigger] earlier[index] == source.subrange(start, start + earlier[index].len())
        } by {
            assert(earlier[index] == pieces[index]);
            assert(earlier.take(index) =~= pieces.take(index));
        }
        lemma_pieces_in_order(source, earlier);
        assert(pieces.take(count) =~= earlier);
        let start = artifact::joined(earlier).len() as int;
        assert(pieces[count] == source.subrange(start, start + pieces[count].len()));
    }
    assert(artifact::joined(pieces) =~= source.take(artifact::joined(pieces).len() as int));
}

} // verus!
