//! The storing of one artifact, from its declaration to the confirmation of the
//! host.
//!
//! The source is read once for size and SHA-256 validation, rewound to its
//! original position, and then streamed in bounded chunks, so that the complete
//! artifact is never held in memory. [`ActionContext::advance`] decides what is
//! done after what.

use vstd::prelude::*;

use crate::cancellation::{Attempt, CancellationState};
use crate::error::{ErrorView, SdkError};
use crate::foreign;
use crate::host::artifact;
use crate::host::artifact::{
    DeclaredArtifact, ReadSource, SourceProgress, SourceValidation, ValidatedArtifact,
    ARTIFACT_IO_BUFFER_BYTES,
};
use crate::host::client;
use crate::host::transfer::{AnnouncedTransfer, ArtifactTransfer, CompletedTransfer};
use crate::host::{ActionContext, StoredArtifact};
use crate::protocol::{ArtifactDescriptor, Outgoing, Payload, PluginArtifactId, ProtocolError};

verus! {

/// How far the storing of an artifact has got.
pub enum ArtifactUpload {
    /// The source is asked for its position.
    Inspecting(DeclaredArtifact),
    /// The source is read for the first time.
    Reading(DeclaredArtifact, SourceValidation),
    /// The source is rewound.
    Rewinding(DeclaredArtifact, ReadSource),
    /// The host is asked to accept the artifact.
    Announcing(AnnouncedTransfer),
    /// The next chunk is read.
    ReadingChunk(ArtifactTransfer),
    /// A chunk is sent.
    SendingChunk(ArtifactTransfer),
    /// The host is asked to confirm the artifact.
    Completing(CompletedTransfer),
}

/// What is to be done for an upload. Each is given up if the action ends first.
#[derive(Debug)]
pub enum UploadAction {
    /// Ask the source for its position.
    Inspect,
    /// Read some bytes of the source, at most this many.
    Read { at_most: usize },
    /// Rewind the source to this position.
    Rewind { start: u64 },
    /// Send this request and wait for the reply.
    Request(Outgoing),
    /// Read exactly this many bytes of the source.
    ReadChunk { length: usize },
    /// Send this message.
    Send(Outgoing),
}

/// What came of it.
pub enum UploadEvent<'a> {
    Inspected(Attempt<u64>),
    Read(Attempt<&'a [u8]>),
    Rewound(Attempt<()>),
    /// The reply of the host, or why the request was not sent.
    Replied(Result<Attempt<Payload>, SdkError>),
    ChunkRead(Attempt<Vec<u8>>),
    /// Why the message was not sent, if it was not.
    Sent(Result<(), SdkError>),
}

/// What follows.
pub enum UploadStep {
    /// The upload goes on with this.
    Continue(ArtifactUpload, UploadAction),
    /// The host has stored the artifact.
    Stored(StoredArtifact),
}

/// What is wrong with the reply to a request.
pub open spec fn reply_error(reply: Result<Attempt<Payload>, SdkError>) -> Option<ErrorView> {
    match reply {
        Ok(reply) => client::response_failure(reply),
        Err(error) => Some(error@),
    }
}

impl ArtifactUpload {
    pub open spec fn well_formed(self) -> bool {
        match self {
            ArtifactUpload::Inspecting(declared) => declared.well_formed(),
            ArtifactUpload::Reading(declared, validation) => declared.well_formed()
                && validation.well_formed(),
            ArtifactUpload::Rewinding(declared, source) => declared.well_formed()
                && source.well_formed(),
            ArtifactUpload::Announcing(announced) => announced.well_formed(),
            ArtifactUpload::ReadingChunk(transfer) => transfer.well_formed()
                && !transfer.complete(),
            ArtifactUpload::SendingChunk(transfer) => transfer.well_formed(),
            ArtifactUpload::Completing(completed) => completed.well_formed(),
        }
    }

    /// Whether the upload asks for `action`.
    pub open spec fn asks_for(self, action: UploadAction) -> bool {
        match self {
            ArtifactUpload::Inspecting(_) => action == UploadAction::Inspect,
            ArtifactUpload::Reading(..) => action == (UploadAction::Read {
                at_most: ARTIFACT_IO_BUFFER_BYTES,
            }),
            ArtifactUpload::Rewinding(_, source) => action == (UploadAction::Rewind {
                start: source.origin(),
            }),
            ArtifactUpload::ReadingChunk(transfer) => action matches UploadAction::ReadChunk {
                length,
            } && length == transfer.next_length(),
            ArtifactUpload::Announcing(_) => action is Request,
            ArtifactUpload::SendingChunk(_) => action is Send,
            ArtifactUpload::Completing(_) => action is Request,
        }
    }

    /// Whether `event` is an outcome of what the upload asks for.
    pub open spec fn awaits(self, event: UploadEvent) -> bool {
        match self {
            ArtifactUpload::Inspecting(_) => event is Inspected,
            ArtifactUpload::Reading(..) => event is Read,
            ArtifactUpload::Rewinding(..) => event is Rewound,
            ArtifactUpload::Announcing(_) => event is Replied,
            ArtifactUpload::ReadingChunk(transfer) => event matches UploadEvent::ChunkRead(data)
                && (data matches Attempt::Done(data) ==> data@.len() == transfer.next_length()),
            ArtifactUpload::SendingChunk(_) => event is Sent,
            ArtifactUpload::Completing(_) => event is Replied,
        }
    }
}

impl ActionContext {
    /// Whether an accepted transfer goes on with `step`: with the next chunk, or,
    /// once there is none, with the request to confirm the artifact.
    pub open spec fn goes_on(self, transfer: ArtifactTransfer, step: UploadStep) -> bool {
        if transfer.complete() {
            &&& step matches UploadStep::Continue(
                ArtifactUpload::Completing(completed),
                UploadAction::Request(request),
            ) && {
                &&& completed.transferred() == transfer
                &&& request == self.completion(transfer.id())
            }
        } else {
            &&& step matches UploadStep::Continue(ArtifactUpload::ReadingChunk(next), _) && next
                == transfer
        }
    }

    /// Why an event ends the upload without an artifact.
    pub open spec fn upload_error(self, upload: ArtifactUpload, event: UploadEvent) -> Option<
        ErrorView,
    > {
        match (upload, event) {
            (ArtifactUpload::Inspecting(_), UploadEvent::Inspected(position)) => position.error(
                "inspect artifact source position"@,
            ),
            (ArtifactUpload::Reading(_, validation), UploadEvent::Read(data)) =>
                validation.read_error(data),
            (ArtifactUpload::Rewinding(declared, source), UploadEvent::Rewound(rewound)) => {
                match source.finish_error(declared.declared()@, rewound) {
                    Some(error) => Some(error),
                    None => self.transfer_error(declared.declared()),
                }
            },
            (ArtifactUpload::Announcing(announced), UploadEvent::Replied(reply)) => {
                match reply_error(reply) {
                    Some(error) => Some(error),
                    None => if announced.accepted_by(reply->Ok_0->Done_0) {
                        self.activity_error()
                    } else {
                        Some(
                            ErrorView::Protocol("host did not accept the same artifact transfer"@),
                        )
                    },
                }
            },
            (ArtifactUpload::ReadingChunk(_), UploadEvent::ChunkRead(data)) => data.error(
                "read validated artifact source"@,
            ),
            (ArtifactUpload::SendingChunk(_), UploadEvent::Sent(sent)) => match sent {
                Ok(()) => self.activity_error(),
                Err(error) => Some(error@),
            },
            (ArtifactUpload::Completing(completed), UploadEvent::Replied(reply)) => {
                match reply_error(reply) {
                    Some(error) => Some(error),
                    None => if completed.stored_by(reply->Ok_0->Done_0) {
                        None
                    } else {
                        Some(ErrorView::Protocol("host did not confirm the same artifact ID"@))
                    },
                }
            },
            _ => None,
        }
    }

    /// Whether an event that does not end the upload leads to `step`.
    pub open spec fn advances(
        self,
        upload: ArtifactUpload,
        event: UploadEvent,
        step: UploadStep,
    ) -> bool {
        match (upload, event) {
            (ArtifactUpload::Inspecting(declared), UploadEvent::Inspected(position)) => {
                &&& step matches UploadStep::Continue(ArtifactUpload::Reading(next, validation), _)
                    && {
                    &&& next == declared
                    &&& position == Attempt::Done(validation.origin())
                    &&& validation.bytes() == Seq::<u8>::empty()
                }
            },
            (ArtifactUpload::Reading(declared, validation), UploadEvent::Read(data)) => {
                &&& data matches Attempt::Done(data) && match step {
                    UploadStep::Continue(ArtifactUpload::Reading(next, after), _) => {
                        &&& next == declared
                        &&& validation.takes(data@, SourceProgress::More(after))
                    },
                    UploadStep::Continue(ArtifactUpload::Rewinding(next, source), _) => {
                        &&& next == declared
                        &&& validation.takes(data@, SourceProgress::Ended(source))
                    },
                    _ => false,
                }
            },
            (ArtifactUpload::Rewinding(declared, source), UploadEvent::Rewound(_)) => {
                &&& step matches UploadStep::Continue(
                    ArtifactUpload::Announcing(announced),
                    UploadAction::Request(request),
                ) && self.announces(declared.declared(), source.bytes(), announced, request)
            },
            (ArtifactUpload::Announcing(announced), UploadEvent::Replied(_)) => self.goes_on(
                announced.pending(),
                step,
            ),
            (ArtifactUpload::ReadingChunk(transfer), UploadEvent::ChunkRead(data)) => {
                &&& data matches Attempt::Done(data) && step matches UploadStep::Continue(
                    ArtifactUpload::SendingChunk(after),
                    UploadAction::Send(message),
                ) && transfer.sends_chunk(self.trace, data@, message, after)
            },
            (ArtifactUpload::SendingChunk(transfer), UploadEvent::Sent(_)) => self.goes_on(
                transfer,
                step,
            ),
            (ArtifactUpload::Completing(completed), UploadEvent::Replied(_)) => {
                &&& step matches UploadStep::Stored(stored) && {
                    &&& stored.owner() == self.job_id
                    &&& stored.declared() == completed.transferred().declared()
                    &&& stored.well_formed()
                }
            },
            _ => false,
        }
    }

    /// Begins to store an artifact by checking what the action declares of it.
    pub fn store_artifact(&self, descriptor: ArtifactDescriptor) -> (result: Result<
        (ArtifactUpload, UploadAction),
        SdkError,
    >)
        ensures
            match result {
                Ok((upload, action)) => {
                    &&& self.activity_error() is None
                    &&& upload matches ArtifactUpload::Inspecting(declared) && declared.declared()
                        == descriptor
                    &&& upload.well_formed()
                    &&& upload.asks_for(action)
                },
                Err(error) => if self.activity_error() is Some {
                    self.activity_error() == Some(error@)
                } else {
                    artifact::descriptor_error(descriptor@) == Some(error@)
                },
            },
    {
        match self.cancellation.ensure_active() {
            Ok(()) => {},
            Err(error) => {
                return Err(error);
            },
        }
        match DeclaredArtifact::declare(descriptor) {
            Ok(declared) => Ok((ArtifactUpload::Inspecting(declared), UploadAction::Inspect)),
            Err(error) => Err(error),
        }
    }

    /// Decides how the storing of an artifact goes on after what it asked for.
    pub fn advance<'a>(&self, upload: ArtifactUpload, event: UploadEvent<'a>) -> (result: Result<
        UploadStep,
        SdkError,
    >)
        requires
            upload.well_formed(),
            upload.awaits(event),
        ensures
            match result {
                Ok(step) => {
                    &&& self.upload_error(upload, event) is None
                    &&& self.advances(upload, event, step)
                    &&& step matches UploadStep::Continue(next, action) ==> next.well_formed()
                        && next.asks_for(action)
                    &&& step matches UploadStep::Stored(stored) ==> upload is Completing
                        && artifact::source_matches(
                        stored.declared()@,
                        upload->Completing_0.transferred().source(),
                    )
                },
                Err(error) => self.upload_error(upload, event) == Some(error@),
            },
    {
        match (upload, event) {
            (ArtifactUpload::Inspecting(declared), UploadEvent::Inspected(position)) => {
                match SourceValidation::begin(position) {
                    Ok(validation) => Ok(
                        UploadStep::Continue(
                            ArtifactUpload::Reading(declared, validation),
                            UploadAction::Read { at_most: ARTIFACT_IO_BUFFER_BYTES },
                        ),
                    ),
                    Err(error) => Err(error),
                }
            },
            (ArtifactUpload::Reading(declared, validation), UploadEvent::Read(data)) => {
                match validation.read(data) {
                    Ok(SourceProgress::More(validation)) => Ok(
                        UploadStep::Continue(
                            ArtifactUpload::Reading(declared, validation),
                            UploadAction::Read { at_most: ARTIFACT_IO_BUFFER_BYTES },
                        ),
                    ),
                    Ok(SourceProgress::Ended(source)) => {
                        let start: u64 = source.start();
                        Ok(
                            UploadStep::Continue(
                                ArtifactUpload::Rewinding(declared, source),
                                UploadAction::Rewind { start },
                            ),
                        )
                    },
                    Err(error) => Err(error),
                }
            },
            (ArtifactUpload::Rewinding(declared, source), UploadEvent::Rewound(rewound)) => {
                let validated: ValidatedArtifact = match source.finish(declared, rewound) {
                    Ok(validated) => validated,
                    Err(error) => {
                        return Err(error);
                    },
                };
                match self.start_transfer(validated) {
                    Ok((announced, request)) => Ok(
                        UploadStep::Continue(
                            ArtifactUpload::Announcing(announced),
                            UploadAction::Request(request),
                        ),
                    ),
                    Err(error) => Err(error),
                }
            },
            (ArtifactUpload::Announcing(announced), UploadEvent::Replied(reply)) => {
                let payload: Payload = match host_reply(reply) {
                    Ok(payload) => payload,
                    Err(error) => {
                        return Err(error);
                    },
                };
                match announced.accepted(payload) {
                    Ok(transfer) => self.go_on(transfer),
                    Err(error) => Err(error),
                }
            },
            (ArtifactUpload::ReadingChunk(transfer), UploadEvent::ChunkRead(data)) => {
                let mut transfer: ArtifactTransfer = transfer;
                match self.send_chunk(&mut transfer, data) {
                    Ok(message) => Ok(
                        UploadStep::Continue(
                            ArtifactUpload::SendingChunk(transfer),
                            UploadAction::Send(message),
                        ),
                    ),
                    Err(error) => Err(error),
                }
            },
            (ArtifactUpload::SendingChunk(transfer), UploadEvent::Sent(sent)) => match sent {
                Ok(()) => self.go_on(transfer),
                Err(error) => Err(error),
            },
            (ArtifactUpload::Completing(completed), UploadEvent::Replied(reply)) => {
                let payload: Payload = match host_reply(reply) {
                    Ok(payload) => payload,
                    Err(error) => {
                        return Err(error);
                    },
                };
                match self.finish_transfer(completed, payload) {
                    Ok(stored) => Ok(UploadStep::Stored(stored)),
                    Err(error) => Err(error),
                }
            },
            // No stage awaits any other event.
            _ => Err(SdkError::Cancelled),
        }
    }

    fn go_on(&self, transfer: ArtifactTransfer) -> (result: Result<UploadStep, SdkError>)
        requires
            transfer.well_formed(),
        ensures
            match result {
                Ok(step) => {
                    &&& self.activity_error() is None
                    &&& self.goes_on(transfer, step)
                    &&& step matches UploadStep::Continue(next, action) && next.well_formed()
                        && next.asks_for(action)
                },
                Err(error) => self.activity_error() == Some(error@),
            },
    {
        match self.next_chunk(&transfer) {
            Ok(Some(length)) => Ok(
                UploadStep::Continue(
                    ArtifactUpload::ReadingChunk(transfer),
                    UploadAction::ReadChunk { length },
                ),
            ),
            Ok(None) => match self.complete_transfer(transfer) {
                Ok((completed, request)) => Ok(
                    UploadStep::Continue(
                        ArtifactUpload::Completing(completed),
                        UploadAction::Request(request),
                    ),
                ),
                Err(error) => Err(error),
            },
            Err(error) => Err(error),
        }
    }
}

fn host_reply(reply: Result<Attempt<Payload>, SdkError>) -> (result: Result<Payload, SdkError>)
    ensures
        match result {
            Ok(payload) => {
                &&& reply_error(reply) is None
                &&& reply matches Ok(Attempt::Done(replied)) && replied == payload
            },
            Err(error) => reply_error(reply) == Some(error@),
        },
{
    match reply {
        Ok(reply) => client::response(reply),
        Err(error) => Err(error),
    }
}

// ---------------------------------------------------------------------------
// Laws
// ---------------------------------------------------------------------------

/// What has been read of the source after this event.
pub open spec fn read_after(read: Seq<u8>, event: UploadEvent) -> Seq<u8> {
    match event {
        UploadEvent::Read(Attempt::Done(data)) => read + data@,
        _ => read,
    }
}

/// What has been handed over to be sent after this action.
pub open spec fn sent_after(sent: Seq<u8>, action: UploadAction) -> Seq<u8> {
    match action {
        UploadAction::Send(message) => match message.payload {
            Payload::ArtifactChunk(chunk) => sent + chunk.data@,
            _ => sent,
        },
        _ => sent,
    }
}

/// The bytes that the first pass over the source read, in order.
pub open spec fn read_bytes(events: Seq<UploadEvent>) -> Seq<u8>
    decreases events.len(),
{
    if events.len() == 0 {
        Seq::empty()
    } else {
        read_after(read_bytes(events.drop_last()), events.last())
    }
}

/// The bytes that were handed over to be sent to the host, in order.
pub open spec fn sent_bytes(actions: Seq<UploadAction>) -> Seq<u8>
    decreases actions.len(),
{
    if actions.len() == 0 {
        Seq::empty()
    } else {
        sent_after(sent_bytes(actions.drop_last()), actions.last())
    }
}

/// Whether the host accepts the upload with this event.
pub open spec fn accepts(upload: ArtifactUpload, event: UploadEvent) -> bool {
    match (upload, event) {
        (
            ArtifactUpload::Announcing(announced),
            UploadEvent::Replied(Ok(Attempt::Done(reply))),
        ) => announced.accepted_by(reply),
        _ => false,
    }
}

/// Whether the host has accepted the upload in this run.
pub open spec fn was_accepted(uploads: Seq<ArtifactUpload>, events: Seq<UploadEvent>) -> bool {
    exists|index: int|
        0 <= index < events.len() && accepts(#[trigger] uploads[index], events[index])
}

/// Whether an upload passes through `uploads`: each event leads to the next state
/// and the next action, in the context of the job at that time.
pub open spec fn upload_run(
    contexts: Seq<ActionContext>,
    uploads: Seq<ArtifactUpload>,
    events: Seq<UploadEvent>,
    actions: Seq<UploadAction>,
) -> bool {
    &&& uploads.len() == events.len() + 1
    &&& contexts.len() == events.len()
    &&& actions.len() == events.len()
    &&& forall|index: int|
        0 <= index < events.len() ==> {
            &&& contexts[index].upload_error(uploads[index], #[trigger] events[index]) is None
            &&& contexts[index].advances(
                uploads[index],
                events[index],
                UploadStep::Continue(uploads[index + 1], actions[index]),
            )
            &&& uploads[index + 1].asks_for(actions[index])
        }
}

/// Whether the state of an upload agrees with what has been read and sent.
pub open spec fn agrees(
    upload: ArtifactUpload,
    descriptor: ArtifactDescriptor,
    read: Seq<u8>,
    sent: Seq<u8>,
    accepted: bool,
) -> bool {
    match upload {
        ArtifactUpload::Inspecting(declared) => {
            declared.declared() == descriptor && read.len() == 0 && sent.len() == 0
        },
        ArtifactUpload::Reading(declared, validation) => {
            declared.declared() == descriptor && validation.bytes() == read && sent.len() == 0
        },
        ArtifactUpload::Rewinding(declared, source) => {
            declared.declared() == descriptor && source.bytes() == read && sent.len() == 0
        },
        ArtifactUpload::Announcing(announced) => {
            &&& announced.pending().declared() == descriptor
            &&& announced.pending().source() == read
            &&& announced.pending().sent().len() == 0
            &&& sent.len() == 0
        },
        ArtifactUpload::ReadingChunk(transfer) => {
            &&& transfer.declared() == descriptor
            &&& transfer.source() == read
            &&& transfer.sent() == sent
            &&& accepted
        },
        ArtifactUpload::SendingChunk(transfer) => {
            &&& transfer.declared() == descriptor
            &&& transfer.source() == read
            &&& transfer.sent() == sent
            &&& accepted
        },
        ArtifactUpload::Completing(completed) => {
            &&& completed.transferred().declared() == descriptor
            &&& completed.transferred().source() == read
            &&& completed.transferred().sent() == sent
            &&& accepted
        },
    }
}

proof fn lemma_agreement_is_kept(
    context: ActionContext,
    upload: ArtifactUpload,
    event: UploadEvent,
    next: ArtifactUpload,
    action: UploadAction,
    descriptor: ArtifactDescriptor,
    read: Seq<u8>,
    sent: Seq<u8>,
    accepted: bool,
)
    requires
        agrees(upload, descriptor, read, sent, accepted),
        context.upload_error(upload, event) is None,
        context.advances(upload, event, UploadStep::Continue(next, action)),
        next.asks_for(action),
    ensures
        agrees(
            next,
            descriptor,
            read_after(read, event),
            sent_after(sent, action),
            accepted || accepts(upload, event),
        ),
{
    match (upload, event) {
        (ArtifactUpload::Inspecting(_), UploadEvent::Inspected(_)) => {
            assert(read =~= Seq::<u8>::empty());
        },
        (ArtifactUpload::Reading(_, _), UploadEvent::Read(data)) => {
            if data->Done_0@.len() == 0 {
                assert(read + data->Done_0@ =~= read);
            }
        },
        (ArtifactUpload::Announcing(announced), UploadEvent::Replied(_)) => {
            assert(announced.pending().sent() =~= sent);
        },
        _ => {},
    }
}

/// At every point of a run, what the upload knows of the source is what was read
/// from it, and what it knows of the transfer is what was handed over.
pub proof fn law_uploads_agree_with_what_was_read_and_sent(
    contexts: Seq<ActionContext>,
    uploads: Seq<ArtifactUpload>,
    events: Seq<UploadEvent>,
    actions: Seq<UploadAction>,
    declared: DeclaredArtifact,
)
    requires
        upload_run(contexts, uploads, events, actions),
        uploads[0] == ArtifactUpload::Inspecting(declared),
    ensures
        agrees(
            uploads.last(),
            declared.declared(),
            read_bytes(events),
            sent_bytes(actions),
            was_accepted(uploads, events),
        ),
    decreases events.len(),
{
    if events.len() > 0 {
        let count = events.len() - 1;
        let uploads_before = uploads.drop_last();
        let events_before = events.drop_last();
        let actions_before = actions.drop_last();
        assert forall|index: int| 0 <= index < events_before.len() implies {
            &&& contexts.drop_last()[index].upload_error(
                uploads_before[index],
                #[trigger] events_before[index],
            ) is None
            &&& contexts.drop_last()[index].advances(
                uploads_before[index],
                events_before[index],
                UploadStep::Continue(uploads_before[index + 1], actions_before[index]),
            )
            &&& uploads_before[index + 1].asks_for(actions_before[index])
        } by {
            assert(events_before[index] == events[index]);
        }
        law_uploads_agree_with_what_was_read_and_sent(
            contexts.drop_last(),
            uploads_before,
            events_before,
            actions_before,
            declared,
        );
        assert(uploads_before.last() == uploads[count]);
        assert(contexts[count].upload_error(uploads[count], events[count]) is None);
        assert(contexts[count].advances(
            uploads[count],
            events[count],
            UploadStep::Continue(uploads[count + 1], actions[count]),
        ));
        assert(uploads[count + 1].asks_for(actions[count]));
        if was_accepted(uploads_before, events_before) {
            let index = choose|index: int|
                0 <= index < events_before.len() && accepts(
                    #[trigger] uploads_before[index],
                    events_before[index],
                );
            assert(accepts(uploads[index], events[index]));
        }
        if accepts(uploads[count], events[count]) {
            assert(was_accepted(uploads, events));
        }
        assert(uploads.last() == uploads[count + 1]);
        lemma_agreement_is_kept(
            contexts[count],
            uploads[count],
            events[count],
            uploads[count + 1],
            actions[count],
            declared.declared(),
            read_bytes(events_before),
            sent_bytes(actions_before),
            was_accepted(uploads_before, events_before),
        );
    }
}

/// Nothing is stored unverified: an upload that ends with a stored artifact has
/// read a source that matches the declaration, was accepted and confirmed by the
/// host, and has handed over exactly as many bytes as were declared. If the
/// second pass over the source yields what the first one did, those bytes are the
/// source.
pub proof fn law_stored_artifacts_were_verified_and_sent(
    contexts: Seq<ActionContext>,
    uploads: Seq<ArtifactUpload>,
    events: Seq<UploadEvent>,
    actions: Seq<UploadAction>,
    declared: DeclaredArtifact,
    context: ActionContext,
    last: UploadEvent,
    stored: StoredArtifact,
)
    requires
        upload_run(contexts, uploads, events, actions),
        uploads[0] == ArtifactUpload::Inspecting(declared),
        uploads.last().well_formed(),
        context.upload_error(uploads.last(), last) is None,
        context.advances(uploads.last(), last, UploadStep::Stored(stored)),
    ensures
        stored.declared() == declared.declared(),
        stored.owner() == context.job_id,
        artifact::source_matches(stored.declared()@, read_bytes(events)),
        was_accepted(uploads, events),
        last matches UploadEvent::Replied(Ok(Attempt::Done(Payload::ArtifactStored(confirmed))))
            && confirmed.artifact_id matches Some(id) && Some(id.value@)
            == stored.declared()@.artifact_id,
        sent_bytes(actions).len() == stored.declared().size_bytes,
        sent_bytes(actions) == read_bytes(events).take(sent_bytes(actions).len() as int)
            ==> sent_bytes(actions) == read_bytes(events),
        read_bytes(events).len() == declared.declared().size_bytes,
        foreign::sha256(read_bytes(events)) == declared.declared().sha256@,
{
    law_uploads_agree_with_what_was_read_and_sent(contexts, uploads, events, actions, declared);
    assert(read_bytes(events).take(read_bytes(events).len() as int) =~= read_bytes(events));
}

/// Nothing is announced that does not match its declaration: whenever an upload goes
/// on to ask the host to accept its artifact, all the bytes read so far are as many as
/// were declared and give the declared SHA-256 digest. The request names the job, the
/// artifact as it was declared and the number of its chunks.
pub proof fn law_announced_artifacts_match_their_source(
    contexts: Seq<ActionContext>,
    uploads: Seq<ArtifactUpload>,
    events: Seq<UploadEvent>,
    actions: Seq<UploadAction>,
    declared: DeclaredArtifact,
    context: ActionContext,
    event: UploadEvent,
    next: ArtifactUpload,
    request: Outgoing,
)
    requires
        upload_run(contexts, uploads, events, actions),
        uploads[0] == ArtifactUpload::Inspecting(declared),
        uploads.last() is Rewinding,
        context.upload_error(uploads.last(), event) is None,
        context.advances(
            uploads.last(),
            event,
            UploadStep::Continue(next, UploadAction::Request(request)),
        ),
    ensures
        event matches UploadEvent::Rewound(Attempt::Done(_)),
        read_bytes(events).len() == declared.declared().size_bytes,
        foreign::sha256(read_bytes(events)) == declared.declared().sha256@,
        sent_bytes(actions).len() == 0,
        request.reply_to is None,
        request.trace == context.trace,
        request.payload matches Payload::ArtifactStart(start) && {
            let size = declared.declared().size_bytes;
            let limit = context.maximum_artifact_chunk_bytes;
            let chunk: int = if limit < 65_536 {
                limit as int
            } else {
                65_536
            };
            &&& start.job_id matches Some(id) && id.value == context.job_id
            &&& start.artifact matches Some(announced) && announced@ == declared.declared()@
            &&& size <= start.chunk_count * chunk
            &&& start.chunk_count > 0 ==> (start.chunk_count - 1) * chunk < size
        },
{
    law_uploads_agree_with_what_was_read_and_sent(contexts, uploads, events, actions, declared);
    let size = declared.declared().size_bytes as int;
    let chunk = artifact::full_chunk(context.maximum_artifact_chunk_bytes);
    let needed = artifact::chunks_needed(size, chunk);
    artifact::lemma_chunks_end_at_the_size(size, chunk, needed);
    if needed > 0 {
        artifact::lemma_chunks_end_at_the_size(size, chunk, needed - 1);
    }
}

/// The storing of an artifact begins exactly if the action is still running and the
/// declaration is accepted, and the first thing to do is to ask the source for its
/// position.
pub proof fn law_uploads_begin_with_an_accepted_declaration(
    context: ActionContext,
    descriptor: ArtifactDescriptor,
    result: Result<(ArtifactUpload, UploadAction), SdkError>,
    validated: Result<PluginArtifactId, SdkError>,
)
    requires
        call_ensures(ActionContext::store_artifact, (&context, descriptor), result),
        call_ensures(artifact::validate_descriptor, (&descriptor,), validated),
    ensures
        result is Ok <==> context.cancellation.state == CancellationState::Active && validated
            is Ok,
        result matches Ok((upload, action)) ==> {
            &&& upload matches ArtifactUpload::Inspecting(declared) && declared.declared()
                == descriptor
            &&& action is Inspect
        },
        result is Err && context.cancellation.state != CancellationState::Active
            ==> result->Err_0@ == ErrorView::Cancelled,
        result is Err && context.cancellation.state == CancellationState::Active
            ==> result->Err_0@ == validated->Err_0@,
{
}

/// Where a source does not have the declared size or digest, the upload ends there,
/// as an invalid argument, and nothing has been sent.
pub proof fn law_mismatched_sources_end_the_upload(
    contexts: Seq<ActionContext>,
    uploads: Seq<ArtifactUpload>,
    events: Seq<UploadEvent>,
    actions: Seq<UploadAction>,
    declared: DeclaredArtifact,
    context: ActionContext,
)
    requires
        upload_run(contexts, uploads, events, actions),
        uploads[0] == ArtifactUpload::Inspecting(declared),
        uploads.last() is Rewinding,
        read_bytes(events).len() != declared.declared().size_bytes || foreign::sha256(
            read_bytes(events),
        ) != declared.declared().sha256@,
    ensures
        context.upload_error(uploads.last(), UploadEvent::Rewound(Attempt::Done(()))) == Some(
            ErrorView::InvalidArgument("artifact size or SHA-256 does not match its source"@),
        ),
        sent_bytes(actions).len() == 0,
{
    law_uploads_agree_with_what_was_read_and_sent(contexts, uploads, events, actions, declared);
}

/// Whether an event is the host accepting the artifact with this ID.
pub open spec fn accepts_id(event: UploadEvent, id: Seq<char>) -> bool {
    event matches UploadEvent::Replied(Ok(Attempt::Done(Payload::ArtifactAccepted(accepted))))
        && accepted.artifact_id matches Some(given) && given.value@ == id
}

/// Each step of an upload does what its stage is for. The source is asked for its
/// position, read in pieces of at most 65536 bytes until it is empty, and rewound to
/// that position. Only when the host has accepted this very artifact is it sent, in
/// chunks that are numbered one after another, hold what was read for them and are no
/// larger than planned. When all of it has been sent the host is asked to confirm it,
/// and only its confirmation of this very artifact makes it a stored one of this job.
pub proof fn law_uploads_go_step_by_step(
    context: ActionContext,
    upload: ArtifactUpload,
    event: UploadEvent,
    step: UploadStep,
)
    requires
        upload.well_formed(),
        upload.awaits(event),
        context.upload_error(upload, event) is None,
        context.advances(upload, event, step),
        step matches UploadStep::Continue(next, action) ==> next.well_formed() && next.asks_for(
            action,
        ),
    ensures
        match upload {
            ArtifactUpload::Inspecting(declared) => {
                &&& step matches UploadStep::Continue(
                    ArtifactUpload::Reading(next, validation),
                    UploadAction::Read { at_most },
                ) && {
                    &&& at_most == 65_536
                    &&& next == declared
                    &&& event matches UploadEvent::Inspected(Attempt::Done(position))
                        && validation.origin() == position
                    &&& validation.bytes().len() == 0
                }
            },
            ArtifactUpload::Reading(declared, validation) => {
                &&& event matches UploadEvent::Read(Attempt::Done(data)) && if data@.len() > 0 {
                    &&& step matches UploadStep::Continue(
                        ArtifactUpload::Reading(next, more),
                        UploadAction::Read { at_most },
                    ) && at_most == 65_536 && next == declared && more.bytes()
                        == validation.bytes() + data@ && more.origin() == validation.origin()
                } else {
                    &&& step matches UploadStep::Continue(
                        ArtifactUpload::Rewinding(next, source),
                        UploadAction::Rewind { start },
                    ) && start == validation.origin() && next == declared && source.bytes()
                        == validation.bytes()
                }
            },
            ArtifactUpload::Rewinding(declared, source) => {
                &&& source.bytes().len() == declared.declared().size_bytes
                &&& foreign::sha256(source.bytes()) == declared.declared().sha256@
                &&& step matches UploadStep::Continue(
                    ArtifactUpload::Announcing(announced),
                    UploadAction::Request(request),
                ) && {
                    let limit = context.maximum_artifact_chunk_bytes;
                    &&& request.payload matches Payload::ArtifactStart(start)
                        && start.chunk_count == announced.pending().cut().chunk_count
                    &&& announced.pending().cut().chunk_bytes == if limit < 65_536 {
                        limit as int
                    } else {
                        65_536
                    }
                    &&& announced.pending().declared() == declared.declared()
                    &&& announced.pending().source() == source.bytes()
                    &&& announced.pending().chunks_sent() == 0
                }
            },
            ArtifactUpload::Announcing(announced) => {
                &&& accepts_id(event, announced.pending().declared().artifact_id->0.value@)
                &&& continues_with(context, announced.pending(), step)
            },
            ArtifactUpload::ReadingChunk(transfer) => {
                &&& event matches UploadEvent::ChunkRead(Attempt::Done(data)) && {
                    &&& 0 < data@.len() <= transfer.cut().chunk_bytes <= 65_536
                    &&& step matches UploadStep::Continue(
                        ArtifactUpload::SendingChunk(next),
                        UploadAction::Send(message),
                    ) && {
                        &&& message.reply_to is None
                        &&& message.trace == context.trace
                        &&& message.payload matches Payload::ArtifactChunk(chunk) && {
                            &&& chunk.artifact_id == transfer.declared().artifact_id
                            &&& chunk.chunk_index == transfer.chunks_sent()
                            &&& chunk.data@ == data@
                        }
                        &&& next.chunks_sent() == transfer.chunks_sent() + 1
                        &&& next.sent() == transfer.sent() + data@
                        &&& next.declared() == transfer.declared()
                        &&& next.source() == transfer.source()
                    }
                }
            },
            ArtifactUpload::SendingChunk(transfer) => {
                &&& event matches UploadEvent::Sent(Ok(_))
                &&& continues_with(context, transfer, step)
            },
            ArtifactUpload::Completing(completed) => {
                let sent = completed.transferred();
                &&& event matches UploadEvent::Replied(
                    Ok(Attempt::Done(Payload::ArtifactStored(confirmed))),
                ) && confirmed.artifact_id matches Some(id) && id.value@
                    == sent.declared().artifact_id->0.value@
                &&& step matches UploadStep::Stored(stored) && {
                    &&& stored.owner() == context.job_id
                    &&& stored.declared() == sent.declared()
                    &&& sent.source().len() == stored.declared().size_bytes
                    &&& foreign::sha256(sent.source()) == stored.declared().sha256@
                    &&& sent.sent().len() == stored.declared().size_bytes
                    &&& sent.chunks_sent() == sent.cut().chunk_count
                }
            },
        },
{
    match (upload, event) {
        (ArtifactUpload::ReadingChunk(transfer), UploadEvent::ChunkRead(_)) => {
            transfer.lemma_next_chunk_is_bounded();
        },
        (ArtifactUpload::SendingChunk(transfer), UploadEvent::Sent(_)) => {
            lemma_transfers_go_on(context, transfer, step);
        },
        (ArtifactUpload::Announcing(announced), UploadEvent::Replied(_)) => {
            lemma_transfers_go_on(context, announced.pending(), step);
        },
        _ => {},
    }
}

/// Whether a transfer goes on with the next chunk, which is as long as what is left
/// but no longer than planned, or, where nothing is left, with the request to confirm
/// the artifact.
pub open spec fn continues_with(
    context: ActionContext,
    transfer: ArtifactTransfer,
    step: UploadStep,
) -> bool {
    let left = transfer.declared().size_bytes - transfer.sent().len();
    if left > 0 {
        &&& step matches UploadStep::Continue(
            ArtifactUpload::ReadingChunk(next),
            UploadAction::ReadChunk { length },
        ) && {
            &&& next == transfer
            &&& length == if left < transfer.cut().chunk_bytes {
                left
            } else {
                transfer.cut().chunk_bytes as int
            }
        }
    } else {
        &&& step matches UploadStep::Continue(
            ArtifactUpload::Completing(completed),
            UploadAction::Request(request),
        ) && {
            &&& completed.transferred() == transfer
            &&& request.reply_to is None
            &&& request.trace == context.trace
            &&& request.payload matches Payload::ArtifactComplete(complete)
                && complete.artifact_id == transfer.declared().artifact_id
        }
    }
}

proof fn lemma_transfers_go_on(
    context: ActionContext,
    transfer: ArtifactTransfer,
    step: UploadStep,
)
    requires
        transfer.well_formed(),
        context.goes_on(transfer, step),
        step matches UploadStep::Continue(next, action) ==> next.well_formed() && next.asks_for(
            action,
        ),
    ensures
        continues_with(context, transfer, step),
{
    if transfer.complete() {
        transfer.lemma_complete_is_all();
    } else {
        transfer.lemma_next_chunk_is_bounded();
    }
}

/// An upload fails only for a reason of its stage: the outside work was given up or
/// failed, the source cannot be counted or does not match, the action is over, the
/// artifact cannot be cut into chunks, or the host refuses it or speaks of another.
/// Otherwise it goes on.
pub proof fn law_uploads_fail_only_for_a_reason(
    context: ActionContext,
    upload: ArtifactUpload,
    event: UploadEvent,
)
    requires
        upload.well_formed(),
        upload.awaits(event),
    ensures
        context.upload_error(upload, event) is None <==> {
            let running = context.cancellation.state == CancellationState::Active;
            match upload {
                ArtifactUpload::Inspecting(_) => event matches UploadEvent::Inspected(
                    Attempt::Done(_),
                ),
                ArtifactUpload::Reading(_, validation) => event matches UploadEvent::Read(
                    Attempt::Done(data),
                ) && validation.bytes().len() + data@.len() <= u64::MAX,
                ArtifactUpload::Rewinding(declared, source) => {
                    let size = declared.declared().size_bytes;
                    let limit = context.maximum_artifact_chunk_bytes;
                    let chunk: int = if limit < 65_536 {
                        limit as int
                    } else {
                        65_536
                    };
                    &&& event matches UploadEvent::Rewound(Attempt::Done(_))
                    &&& source.bytes().len() == size
                    &&& foreign::sha256(source.bytes()) == declared.declared().sha256@
                    &&& running
                    &&& limit > 0
                    &&& size == 0 || size <= u64::MAX - (chunk - 1)
                    &&& size <= u32::MAX * chunk
                },
                ArtifactUpload::Announcing(announced) => running && accepts_id(
                    event,
                    announced.pending().declared().artifact_id->0.value@,
                ),
                ArtifactUpload::ReadingChunk(_) => event matches UploadEvent::ChunkRead(
                    Attempt::Done(_),
                ),
                ArtifactUpload::SendingChunk(_) => running && (event matches UploadEvent::Sent(
                    Ok(_),
                )),
                ArtifactUpload::Completing(completed) => event matches UploadEvent::Replied(
                    Ok(Attempt::Done(Payload::ArtifactStored(confirmed))),
                ) && confirmed.artifact_id matches Some(id) && id.value@
                    == completed.transferred().declared().artifact_id->0.value@,
            }
        },
{
    match upload {
        ArtifactUpload::Rewinding(declared, _) => {
            let size = declared.declared().size_bytes as int;
            let limit = context.maximum_artifact_chunk_bytes;
            let chunk = artifact::full_chunk(limit);
            if limit > 0 {
                artifact::lemma_chunks_end_at_the_size(size, chunk, u32::MAX as int);
            }
        },
        _ => {},
    }
}

/// What keeps an upload from going on is reported as what it is: a host that answers
/// with a structured error by that error, work that was given up as cancelled, work
/// that failed by what it said.
pub proof fn law_failed_uploads_say_why(
    context: ActionContext,
    upload: ArtifactUpload,
    source: String,
    fault: ProtocolError,
    unsent: SdkError,
)
    ensures
        upload is Inspecting ==> {
            &&& context.upload_error(upload, UploadEvent::Inspected(Attempt::Cancelled)) == Some(
                ErrorView::Cancelled,
            )
            &&& context.upload_error(upload, UploadEvent::Inspected(Attempt::Failed(source)))
                matches Some(ErrorView::Runtime { source: said, .. }) && said == source@
        },
        upload is Reading ==> {
            &&& context.upload_error(upload, UploadEvent::Read(Attempt::Cancelled)) == Some(
                ErrorView::Cancelled,
            )
            &&& context.upload_error(upload, UploadEvent::Read(Attempt::Failed(source)))
                matches Some(ErrorView::Runtime { source: said, .. }) && said == source@
        },
        upload is Rewinding ==> {
            &&& context.upload_error(upload, UploadEvent::Rewound(Attempt::Cancelled)) == Some(
                ErrorView::Cancelled,
            )
            &&& context.upload_error(upload, UploadEvent::Rewound(Attempt::Failed(source)))
                matches Some(ErrorView::Runtime { source: said, .. }) && said == source@
        },
        upload is ReadingChunk ==> {
            &&& context.upload_error(upload, UploadEvent::ChunkRead(Attempt::Cancelled)) == Some(
                ErrorView::Cancelled,
            )
            &&& context.upload_error(upload, UploadEvent::ChunkRead(Attempt::Failed(source)))
                matches Some(ErrorView::Runtime { source: said, .. }) && said == source@
        },
        upload is SendingChunk ==> context.upload_error(upload, UploadEvent::Sent(Err(unsent)))
            == Some(unsent@),
        upload is Announcing || upload is Completing ==> {
            &&& context.upload_error(
                upload,
                UploadEvent::Replied(Ok(Attempt::Done(Payload::ProtocolError(fault)))),
            ) == Some(ErrorView::Host(fault@))
            &&& context.upload_error(upload, UploadEvent::Replied(Ok(Attempt::Cancelled))) == Some(
                ErrorView::Cancelled,
            )
            &&& context.upload_error(upload, UploadEvent::Replied(Err(unsent))) == Some(unsent@)
        },
{
}

} // verus!
