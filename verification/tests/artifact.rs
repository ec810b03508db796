use sha2::{Digest, Sha256};

use onelastleaf_plugin_sdk::cancellation::{Attempt, Cancellation};
use onelastleaf_plugin_sdk::host::artifact::{
    artifact_plan, check_source, validate_descriptor, DeclaredArtifact, SourceProgress,
    SourceValidation, ValidatedArtifact, ARTIFACT_IO_BUFFER_BYTES,
};
use onelastleaf_plugin_sdk::host::client::HostClient;
use onelastleaf_plugin_sdk::host::transfer::AnnouncedTransfer;
use onelastleaf_plugin_sdk::host::upload::{UploadAction, UploadEvent, UploadStep};
use onelastleaf_plugin_sdk::protocol::{
    ArtifactDescriptor, ArtifactStored, ArtifactTransferAccepted, ErrorCode, Outgoing, Payload,
    PluginArtifactId, ProtocolError, TraceContext,
};
use onelastleaf_plugin_sdk::{ActionContext, SdkError, StoredArtifact};

const ARTIFACT: &str = "0f337c0c-51d6-44a9-a691-a31fce775ab1";

fn descriptor(file_name: &str, bytes: &[u8]) -> ArtifactDescriptor {
    ArtifactDescriptor {
        artifact_id: Some(PluginArtifactId {
            value: ARTIFACT.to_owned(),
        }),
        file_name: file_name.to_owned(),
        media_type: "text/plain".to_owned(),
        size_bytes: bytes.len() as u64,
        sha256: Sha256::digest(bytes).to_vec(),
    }
}

/// Reads `bytes` to their end and holds them against the descriptor.
fn validate_source(
    descriptor: ArtifactDescriptor,
    bytes: &[u8],
) -> Result<ValidatedArtifact, SdkError> {
    let declared = DeclaredArtifact::declare(descriptor)?;
    let mut validation = SourceValidation::begin(Attempt::Done(0))?;
    for chunk in bytes.chunks(ARTIFACT_IO_BUFFER_BYTES) {
        let SourceProgress::More(next) = validation.read(Attempt::Done(chunk))? else {
            panic!("the source ended early");
        };
        validation = next;
    }
    let SourceProgress::Ended(source) = validation.read(Attempt::Done(&[]))? else {
        panic!("the source did not end");
    };
    assert_eq!(source.start(), 0);
    source.finish(declared, Attempt::Done(()))
}

/// A source with a position, a host, and what both have seen of an upload.
struct Surroundings {
    bytes: Vec<u8>,
    position: usize,
    maximum_read_buffer: usize,
    requests: Vec<Outgoing>,
    sent: Vec<Outgoing>,
}

impl Surroundings {
    fn new(bytes: &[u8]) -> Self {
        Self {
            bytes: bytes.to_vec(),
            position: 0,
            maximum_read_buffer: 0,
            requests: Vec::new(),
            sent: Vec::new(),
        }
    }

    /// Does what the upload asks for until it ends.
    fn store(
        &mut self,
        context: &ActionContext,
        descriptor: ArtifactDescriptor,
    ) -> Result<StoredArtifact, SdkError> {
        let (mut upload, mut action) = context.store_artifact(descriptor)?;
        loop {
            let step = match action {
                UploadAction::Inspect => context.advance(
                    upload,
                    UploadEvent::Inspected(Attempt::Done(self.position as u64)),
                )?,
                UploadAction::Read { at_most } => {
                    self.maximum_read_buffer = self.maximum_read_buffer.max(at_most);
                    let end = self.bytes.len().min(self.position + at_most);
                    let data = &self.bytes[self.position..end];
                    self.position = end;
                    context.advance(upload, UploadEvent::Read(Attempt::Done(data)))?
                }
                UploadAction::Rewind { start } => {
                    self.position = start as usize;
                    context.advance(upload, UploadEvent::Rewound(Attempt::Done(())))?
                }
                UploadAction::Request(request) => {
                    let reply = match &request.payload {
                        Payload::ArtifactStart(_) => accepted(ARTIFACT),
                        _ => stored(ARTIFACT),
                    };
                    self.requests.push(request);
                    context.advance(upload, UploadEvent::Replied(Ok(Attempt::Done(reply))))?
                }
                UploadAction::ReadChunk { length } => {
                    let end = self.position + length;
                    let data = self.bytes[self.position..end].to_vec();
                    self.position = end;
                    context.advance(upload, UploadEvent::ChunkRead(Attempt::Done(data)))?
                }
                UploadAction::Send(message) => {
                    self.sent.push(message);
                    context.advance(upload, UploadEvent::Sent(Ok(())))?
                }
            };
            match step {
                UploadStep::Continue(next, asked) => {
                    upload = next;
                    action = asked;
                }
                UploadStep::Stored(artifact) => return Ok(artifact),
            }
        }
    }

    /// The bytes of the chunks that were sent.
    fn received(&self) -> Vec<u8> {
        let mut received = Vec::new();
        for (index, message) in self.sent.iter().enumerate() {
            let Payload::ArtifactChunk(chunk) = &message.payload else {
                panic!("something else than a chunk was sent");
            };
            assert_eq!(chunk.artifact_id.as_ref().unwrap().value, ARTIFACT);
            assert_eq!(chunk.chunk_index as usize, index);
            assert!(!chunk.data.is_empty());
            received.extend_from_slice(&chunk.data);
        }
        received
    }
}

#[test]
fn empty_artifacts_use_the_canonical_zero_chunk_plan() {
    let plan = artifact_plan(0, 64 * 1024).unwrap();
    assert_eq!(plan.chunk_count, 0);
    assert_eq!(plan.chunk_bytes, 64 * 1024);
}

#[test]
fn source_validation_is_bounded_and_rewinds() {
    let bytes = vec![7_u8; ARTIFACT_IO_BUFFER_BYTES * 3 + 17];
    let mut source = Surroundings::new(&bytes);
    source
        .store(&context(u64::MAX), descriptor("result.txt", &bytes))
        .unwrap();
    assert_eq!(source.maximum_read_buffer, ARTIFACT_IO_BUFFER_BYTES);
    // The transfer has read the rewound source once more, from its start.
    assert_eq!(source.received(), bytes);
}

#[test]
fn empty_source_is_a_valid_zero_byte_artifact() {
    let descriptor = descriptor("empty.txt", &[]);
    validate_descriptor(&descriptor).unwrap();
    assert!(validate_source(descriptor, &[]).is_ok());
}

#[test]
fn descriptors_reject_unsafe_file_names() {
    for file_name in ["", ".", "..", "../secret", "/tmp/secret", "nul\0name"] {
        let descriptor = descriptor(file_name, &[]);
        assert!(validate_descriptor(&descriptor).is_err(), "{file_name:?}");
    }
}

#[test]
fn descriptors_name_their_fault() {
    let fault = |descriptor: ArtifactDescriptor| {
        validate_descriptor(&descriptor).unwrap_err().message()
    };
    let mut anonymous = descriptor("result.txt", &[]);
    anonymous.artifact_id = None;
    assert_eq!(fault(anonymous), "artifact ID must be a canonical UUID v4");
    let mut shouting = descriptor("result.txt", &[]);
    shouting.artifact_id = Some(PluginArtifactId {
        value: ARTIFACT.to_uppercase(),
    });
    assert_eq!(fault(shouting), "artifact ID must be a canonical UUID v4");
    assert_eq!(
        fault(descriptor("a/b", &[])),
        "artifact file name must be one safe UTF-8 basename of at most 191 bytes"
    );
    let mut untyped = descriptor("result.txt", &[]);
    untyped.media_type = String::new();
    assert_eq!(
        fault(untyped),
        "artifact media type and 32-byte SHA-256 are required"
    );
    let mut short = descriptor("result.txt", &[]);
    short.sha256.pop();
    assert_eq!(
        fault(short),
        "artifact media type and 32-byte SHA-256 are required"
    );
}

#[test]
fn file_names_are_measured_in_bytes() {
    assert!(validate_descriptor(&descriptor(&"a".repeat(191), &[])).is_ok());
    assert!(validate_descriptor(&descriptor(&"a".repeat(192), &[])).is_err());
    assert!(validate_descriptor(&descriptor(&"\u{e4}".repeat(95), &[])).is_ok());
    assert!(validate_descriptor(&descriptor(&"\u{e4}".repeat(96), &[])).is_err());
    assert!(validate_descriptor(&descriptor("...", &[])).is_ok());
    assert_eq!(
        validate_descriptor(&descriptor("a", &[])).unwrap().value,
        ARTIFACT
    );
}

#[test]
fn sources_must_match_their_descriptor() {
    let bytes = b"artifact payload";
    let validated = validate_source(descriptor("a", bytes), bytes).ok().unwrap();
    assert_eq!(validated.descriptor(), &descriptor("a", bytes));
    let mismatch = "artifact size or SHA-256 does not match its source";
    let mut longer = descriptor("a", bytes);
    longer.size_bytes += 1;
    let refused = validate_source(longer, bytes).err().unwrap();
    assert_eq!(refused.message(), mismatch);
    let refused = validate_source(descriptor("a", b"artifact PAYLOAD"), bytes);
    assert_eq!(refused.err().unwrap().message(), mismatch);
}

#[test]
fn sizes_and_digests_are_held_against_the_descriptor() {
    let bytes = b"artifact payload";
    let declared = descriptor("a", bytes);
    let digest = Sha256::digest(bytes).to_vec();
    assert!(check_source(&declared, 16, &digest).is_ok());
    assert!(check_source(&declared, 15, &digest).is_err());
    assert!(check_source(&declared, 16, &digest[..31]).is_err());
    let mut other = digest.clone();
    other[31] ^= 1;
    let refused = check_source(&declared, 16, &other).unwrap_err();
    assert!(matches!(refused, SdkError::InvalidArgument(_)));
}

#[test]
fn sources_report_how_they_fail() {
    let begin = || SourceValidation::begin(Attempt::Done(3)).ok().unwrap();
    assert_eq!(
        SourceValidation::begin(Attempt::Failed("broken".to_owned()))
            .err()
            .unwrap()
            .message(),
        "inspect artifact source position: broken"
    );
    let read = begin().read(Attempt::Failed("broken".to_owned()));
    assert_eq!(
        read.err().unwrap().message(),
        "read artifact source for validation: broken"
    );
    let read = begin().read(Attempt::Cancelled);
    assert!(matches!(read.err(), Some(SdkError::Cancelled)));
    let Ok(SourceProgress::Ended(source)) = begin().read(Attempt::Done(&[])) else {
        panic!("the source did not end");
    };
    assert_eq!(source.start(), 3);
    let declared = DeclaredArtifact::declare(descriptor("a", &[])).ok().unwrap();
    let rewound = source.finish(declared, Attempt::Failed("broken".to_owned()));
    assert_eq!(
        rewound.err().unwrap().message(),
        "rewind validated artifact source: broken"
    );
}

#[test]
fn plans_use_the_fewest_chunks() {
    for (size, limit, chunk_bytes, chunk_count) in [
        (1, 1, 1, 1),
        (10, 3, 3, 4),
        (9, 3, 3, 3),
        (65_536, u64::MAX, 65_536, 1),
        (65_537, u64::MAX, 65_536, 2),
        (u64::from(u32::MAX), 1, 1, u32::MAX),
    ] {
        let plan = artifact_plan(size, limit).unwrap();
        assert_eq!(plan.chunk_bytes, chunk_bytes);
        assert_eq!(plan.chunk_count, chunk_count);
    }
}

#[test]
fn plans_say_why_there_is_none() {
    assert_eq!(
        artifact_plan(1, 0).unwrap_err().message(),
        "host advertised a zero artifact chunk limit"
    );
    assert_eq!(
        artifact_plan(u64::MAX, 2).unwrap_err().message(),
        "artifact chunk count overflowed"
    );
    assert_eq!(
        artifact_plan(u64::from(u32::MAX) + 1, 1).unwrap_err().message(),
        "artifact has too many chunks"
    );
    assert!(artifact_plan(0, 0).is_err());
}

fn context(maximum_artifact_chunk_bytes: u64) -> ActionContext {
    let host: HostClient<u8> =
        HostClient::new("session".to_owned(), maximum_artifact_chunk_bytes, 10);
    ActionContext::new(
        "job".to_owned(),
        None,
        TraceContext {
            correlation_id: "correlation".to_owned(),
            parent_call_id: None,
            call_depth: 0,
            causal_depth: 0,
            task_id: None,
            task_group_id: None,
        },
        Cancellation::new(),
        1,
        &host,
    )
}

fn accepted(id: &str) -> Payload {
    Payload::ArtifactAccepted(ArtifactTransferAccepted {
        artifact_id: Some(PluginArtifactId {
            value: id.to_owned(),
        }),
    })
}

fn stored(id: &str) -> Payload {
    Payload::ArtifactStored(ArtifactStored {
        artifact_id: Some(PluginArtifactId {
            value: id.to_owned(),
        }),
    })
}

fn announce(context: &ActionContext, bytes: &[u8]) -> AnnouncedTransfer {
    let validated = validate_source(descriptor("result.txt", bytes), bytes).ok().unwrap();
    context.start_transfer(validated).ok().unwrap().0
}

#[test]
fn an_artifact_is_transferred_chunk_by_chunk() {
    let context = context(4);
    let bytes = b"artifact payload!!";
    let mut source = Surroundings::new(bytes);
    let artifact = source.store(&context, descriptor("result.txt", bytes)).unwrap();
    assert_eq!(artifact.descriptor(), &descriptor("result.txt", bytes));
    assert_eq!(source.received(), bytes);
    assert_eq!(source.sent.len(), 5);
    for message in source.sent.iter().chain(&source.requests) {
        assert_eq!(message.reply_to, None);
        assert_eq!(&message.trace, context.trace());
    }
    assert_eq!(source.requests.len(), 2);
    let Payload::ArtifactStart(start) = &source.requests[0].payload else {
        panic!("the transfer was not announced");
    };
    assert_eq!(start.job_id.as_ref().unwrap().value, "job");
    assert_eq!(start.artifact, Some(descriptor("result.txt", bytes)));
    assert_eq!(start.chunk_count, 5);
    let Payload::ArtifactComplete(complete) = &source.requests[1].payload else {
        panic!("the transfer was not completed");
    };
    assert_eq!(complete.artifact_id.as_ref().unwrap().value, ARTIFACT);
}

#[test]
fn stored_artifacts_can_be_attached_by_their_job() {
    let bytes = b"artifact";
    let artifact = Surroundings::new(bytes)
        .store(&context(4), descriptor("result.txt", bytes))
        .unwrap();
    let output = onelastleaf_plugin_sdk::ActionResult::empty().with_artifact(artifact);
    let (_, descriptors) = output.into_wire("job").unwrap();
    assert_eq!(descriptors, [descriptor("result.txt", bytes)]);
}

#[test]
fn empty_artifacts_send_no_chunk() {
    let mut source = Surroundings::new(&[]);
    source
        .store(&context(4), descriptor("result.txt", &[]))
        .unwrap();
    assert!(source.sent.is_empty());
    assert_eq!(source.requests.len(), 2);
}

#[test]
fn a_source_that_does_not_match_is_never_announced() {
    let mut source = Surroundings::new(b"something else");
    let refused = source.store(&context(4), descriptor("result.txt", b"artifact"));
    assert_eq!(
        refused.unwrap_err().message(),
        "artifact size or SHA-256 does not match its source"
    );
    assert!(source.requests.is_empty());
    assert!(source.sent.is_empty());
}

#[test]
fn hosts_must_speak_of_the_same_artifact() {
    let context = context(64);
    let other = "00000000-0000-4000-8000-000000000001";
    for reply in [
        accepted(other),
        stored(ARTIFACT),
        Payload::ArtifactAccepted(ArtifactTransferAccepted { artifact_id: None }),
    ] {
        let refused = announce(&context, b"bytes").accepted(reply);
        assert_eq!(
            refused.err().unwrap().message(),
            "host did not accept the same artifact transfer"
        );
    }
    for reply in [
        stored(other),
        accepted(ARTIFACT),
        Payload::ArtifactStored(ArtifactStored { artifact_id: None }),
    ] {
        let mut transfer = announce(&context, b"bytes")
            .accepted(accepted(ARTIFACT))
            .ok()
            .unwrap();
        assert_eq!(context.next_chunk(&transfer).unwrap(), Some(5));
        context
            .send_chunk(&mut transfer, Attempt::Done(b"bytes".to_vec()))
            .unwrap();
        assert_eq!(context.next_chunk(&transfer).unwrap(), None);
        let (completed, _) = context.complete_transfer(transfer).ok().unwrap();
        assert_eq!(
            context.finish_transfer(completed, reply).unwrap_err().message(),
            "host did not confirm the same artifact ID"
        );
    }
}

/// The error of an upload of `bytes` whose events up to the last one go well.
fn fault(context: &ActionContext, bytes: &'static [u8], events: Vec<UploadEvent<'_>>) -> String {
    let (mut upload, _) = context
        .store_artifact(descriptor("result.txt", bytes))
        .ok()
        .unwrap();
    for event in events {
        match context.advance(upload, event) {
            Ok(UploadStep::Continue(next, _)) => upload = next,
            Ok(UploadStep::Stored(_)) => panic!("the artifact was stored"),
            Err(error) => return error.message(),
        }
    }
    panic!("the upload did not fail");
}

fn announced(
    bytes: &[u8],
    reply: Result<Attempt<Payload>, SdkError>,
) -> Vec<UploadEvent<'_>> {
    vec![
        UploadEvent::Inspected(Attempt::Done(0)),
        UploadEvent::Read(Attempt::Done(bytes)),
        UploadEvent::Read(Attempt::Done(&[])),
        UploadEvent::Rewound(Attempt::Done(())),
        UploadEvent::Replied(reply),
    ]
}

#[test]
fn uploads_report_how_they_fail() {
    let context = context(64);
    let accept = || Ok(Attempt::Done(accepted(ARTIFACT)));
    assert_eq!(
        fault(
            &context,
            b"bytes",
            vec![UploadEvent::Inspected(Attempt::Cancelled)]
        ),
        "action was cancelled"
    );
    assert_eq!(
        fault(
            &context,
            b"bytes",
            announced(b"bytes", Err(SdkError::Transport("closed".to_owned())))
        ),
        "closed"
    );
    assert_eq!(
        fault(
            &context,
            b"bytes",
            announced(b"bytes", Ok(Attempt::Failed("channel closed".to_owned())))
        ),
        "wait for host response: channel closed"
    );
    let busy = ProtocolError {
        code: ErrorCode::Unavailable,
        message: "busy".to_owned(),
        retryable: true,
        metadata: Vec::new(),
        details: Vec::new(),
    };
    assert_eq!(
        fault(
            &context,
            b"bytes",
            announced(b"bytes", Ok(Attempt::Done(Payload::ProtocolError(busy))))
        ),
        "busy"
    );
    assert_eq!(
        fault(
            &context,
            b"bytes",
            announced(b"bytes", Ok(Attempt::Done(stored(ARTIFACT))))
        ),
        "host did not accept the same artifact transfer"
    );
    let mut unread = announced(b"bytes", accept());
    unread.push(UploadEvent::ChunkRead(Attempt::Failed("broken".to_owned())));
    assert_eq!(
        fault(&context, b"bytes", unread),
        "read validated artifact source: broken"
    );
    let mut unsent = announced(b"bytes", accept());
    unsent.push(UploadEvent::ChunkRead(Attempt::Done(b"bytes".to_vec())));
    unsent.push(UploadEvent::Sent(Err(SdkError::Cancelled)));
    assert_eq!(fault(&context, b"bytes", unsent), "action was cancelled");
}

#[test]
fn cancelled_uploads_stop() {
    let mut context = context(4);
    let transfer = announce(&context, b"bytes")
        .accepted(accepted(ARTIFACT))
        .ok()
        .unwrap();
    let empty = announce(&context, &[]).accepted(accepted(ARTIFACT)).ok().unwrap();
    context.cancellation.cancel();
    assert!(matches!(
        context.next_chunk(&transfer),
        Err(SdkError::Cancelled)
    ));
    let completed = context.complete_transfer(empty);
    assert!(matches!(completed.err(), Some(SdkError::Cancelled)));
    let refused = context.store_artifact(descriptor("result.txt", b"bytes"));
    assert!(matches!(refused.err(), Some(SdkError::Cancelled)));
}

#[test]
fn transfers_need_a_chunk_limit() {
    let validated = validate_source(descriptor("result.txt", b"bytes"), b"bytes").ok().unwrap();
    assert_eq!(
        context(0).start_transfer(validated).err().unwrap().message(),
        "host advertised a zero artifact chunk limit"
    );
}
