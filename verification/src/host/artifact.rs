//! The checks on an artifact before it is transferred, and how it is cut into
//! chunks.

use vstd::prelude::*;

use crate::cancellation::Attempt;
use crate::error::{ErrorView, SdkError};
use crate::foreign;
use crate::protocol::equality;
use crate::protocol::{ArtifactDescriptor, ArtifactView, PluginArtifactId};
use crate::text;
use crate::validation;

verus! {

// A local memory/chunk target, not a total artifact or gRPC envelope limit.
// The negotiated host value remains the hard maximum for each chunk.
pub const ARTIFACT_IO_BUFFER_BYTES: usize = 65_536;

pub const MAXIMUM_ARTIFACT_FILE_NAME_BYTES: usize = 191;

pub const SHA256_DIGEST_BYTES: usize = 32;

// ---------------------------------------------------------------------------
// Descriptors
// ---------------------------------------------------------------------------

/// One path component that names a file wherever it is put, in at most 191
/// bytes of UTF-8.
pub open spec fn is_safe_file_name(name: Seq<char>) -> bool {
    &&& 0 < name.len()
    &&& vstd::utf8::encode_utf8(name).len() <= MAXIMUM_ARTIFACT_FILE_NAME_BYTES
    &&& name != "."@
    &&& name != ".."@
    &&& !name.contains('\0')
    &&& !name.contains('/')
}

/// What is wrong with an artifact descriptor.
pub open spec fn descriptor_error(descriptor: ArtifactView) -> Option<ErrorView> {
    if !(descriptor.artifact_id matches Some(id) && validation::is_canonical_uuid_v4(id)) {
        Some(ErrorView::InvalidArgument("artifact ID must be a canonical UUID v4"@))
    } else if !is_safe_file_name(descriptor.file_name) {
        Some(
            ErrorView::InvalidArgument(
                "artifact file name must be one safe UTF-8 basename of at most 191 bytes"@,
            ),
        )
    } else if descriptor.media_type.len() == 0 || descriptor.sha256.len() != SHA256_DIGEST_BYTES {
        Some(
            ErrorView::InvalidArgument("artifact media type and 32-byte SHA-256 are required"@),
        )
    } else {
        None
    }
}

fn safe_file_name(name: &str) -> (result: bool)
    ensures
        result == is_safe_file_name(name@),
{
    !name.is_empty() && name.as_bytes().len() <= MAXIMUM_ARTIFACT_FILE_NAME_BYTES && !text::same(
        name,
        ".",
    ) && !text::same(name, "..") && !text::contains(name, '\0') && !text::contains(name, '/')
}

/// Checks what an action declares of an artifact and returns the artifact's ID.
pub fn validate_descriptor(descriptor: &ArtifactDescriptor) -> (result: Result<
    PluginArtifactId,
    SdkError,
>)
    ensures
        match result {
            Ok(artifact_id) => descriptor_error(descriptor@) is None && descriptor.artifact_id
                == Some(artifact_id),
            Err(error) => descriptor_error(descriptor@) == Some(error@),
        },
{
    let artifact_id: &PluginArtifactId = match &descriptor.artifact_id {
        Some(id) if validation::canonical_uuid_v4(id.value.as_str()) => id,
        _ => {
            return Err(SdkError::invalid_argument("artifact ID must be a canonical UUID v4"));
        },
    };
    if !safe_file_name(descriptor.file_name.as_str()) {
        return Err(
            SdkError::invalid_argument(
                "artifact file name must be one safe UTF-8 basename of at most 191 bytes",
            ),
        );
    }
    if descriptor.media_type.as_str().is_empty() || descriptor.sha256.len()
        != SHA256_DIGEST_BYTES {
        return Err(
            SdkError::invalid_argument("artifact media type and 32-byte SHA-256 are required"),
        );
    }
    Ok(artifact_id.clone())
}

// ---------------------------------------------------------------------------
// Sources
// ---------------------------------------------------------------------------

/// An artifact whose declaration is in order and whose source is yet to be read.
pub struct DeclaredArtifact {
    descriptor: ArtifactDescriptor,
    artifact_id: PluginArtifactId,
}

impl DeclaredArtifact {
    /// What the action declares of the artifact.
    pub closed spec fn declared(self) -> ArtifactDescriptor {
        self.descriptor
    }

    /// The ID of the artifact.
    pub closed spec fn id(self) -> PluginArtifactId {
        self.artifact_id
    }

    pub open spec fn well_formed(self) -> bool {
        &&& descriptor_error(self.declared()@) is None
        &&& self.declared().artifact_id == Some(self.id())
    }

    /// Checks what an action declares of an artifact.
    pub fn declare(descriptor: ArtifactDescriptor) -> (result: Result<Self, SdkError>)
        ensures
            match result {
                Ok(declared) => declared.declared() == descriptor && declared.well_formed(),
                Err(error) => descriptor_error(descriptor@) == Some(error@),
            },
    {
        match validate_descriptor(&descriptor) {
            Ok(artifact_id) => Ok(DeclaredArtifact { descriptor, artifact_id }),
            Err(error) => Err(error),
        }
    }
}

/// The first pass over an artifact source, which reads it once to its end.
pub struct SourceValidation {
    start: u64,
    size: u64,
    hasher: sha2::Sha256,
}

/// An artifact source that has been read to its end.
pub struct ReadSource {
    start: u64,
    size: u64,
    hasher: sha2::Sha256,
}

/// How far the first pass has got.
pub enum SourceProgress {
    /// There may be more to read.
    More(SourceValidation),
    /// The source has ended.
    Ended(ReadSource),
}

/// An artifact whose source has been read and matches its declaration.
pub struct ValidatedArtifact {
    declared: DeclaredArtifact,
    source: Ghost<Seq<u8>>,
}

/// Whether `bytes` are the artifact that the descriptor declares.
pub open spec fn source_matches(descriptor: ArtifactView, bytes: Seq<u8>) -> bool {
    bytes.len() == descriptor.size_bytes && foreign::sha256(bytes) == descriptor.sha256
}

/// Holds the size and the digest of a source against what was declared of it.
pub fn check_source(descriptor: &ArtifactDescriptor, size: u64, digest: &[u8]) -> (result: Result<
    (),
    SdkError,
>)
    ensures
        match result {
            Ok(()) => size == descriptor.size_bytes && digest@ == descriptor.sha256@,
            Err(error) => {
                &&& size != descriptor.size_bytes || digest@ != descriptor.sha256@
                &&& error@ == ErrorView::InvalidArgument(
                    "artifact size or SHA-256 does not match its source"@,
                )
            },
        },
{
    if size != descriptor.size_bytes || !equality::same_bytes(digest, descriptor.sha256.as_slice()) {
        return Err(
            SdkError::invalid_argument("artifact size or SHA-256 does not match its source"),
        );
    }
    Ok(())
}

impl SourceValidation {
    /// Where in the source the artifact begins.
    pub closed spec fn origin(self) -> u64 {
        self.start
    }

    /// The bytes read so far.
    pub closed spec fn bytes(self) -> Seq<u8> {
        foreign::hashed_bytes(self.hasher)
    }

    /// Every byte read has been counted and hashed.
    pub closed spec fn well_formed(self) -> bool {
        self.size == self.bytes().len()
    }

    /// Starts the pass at the position that the source reports.
    pub fn begin(position: Attempt<u64>) -> (result: Result<Self, SdkError>)
        ensures
            match result {
                Ok(validation) => {
                    &&& position == Attempt::Done(validation.origin())
                    &&& validation.bytes() == Seq::<u8>::empty()
                    &&& validation.well_formed()
                },
                Err(error) => position.error("inspect artifact source position"@) == Some(error@),
            },
    {
        match position.outcome("inspect artifact source position") {
            Ok(start) => Ok(SourceValidation { start, size: 0, hasher: foreign::new_hasher() }),
            Err(error) => Err(error),
        }
    }

    /// What keeps a read of the source from being taken in.
    pub open spec fn read_error(self, data: Attempt<&[u8]>) -> Option<ErrorView> {
        match data {
            Attempt::Done(data) => if self.bytes().len() + data@.len() > u64::MAX {
                Some(ErrorView::InvalidArgument("artifact size overflowed"@))
            } else {
                None
            },
            _ => data.error("read artifact source for validation"@),
        }
    }

    /// Whether the read of `data` leads to `progress`: an empty one is the end of
    /// the source, and any other comes after what was read before.
    pub open spec fn takes(self, data: Seq<u8>, progress: SourceProgress) -> bool {
        match progress {
            SourceProgress::More(after) => {
                &&& data.len() > 0
                &&& after.bytes() == self.bytes() + data
                &&& after.origin() == self.origin()
                &&& after.well_formed()
            },
            SourceProgress::Ended(source) => {
                &&& data.len() == 0
                &&& source.bytes() == self.bytes()
                &&& source.origin() == self.origin()
                &&& source.well_formed()
            },
        }
    }

    /// Takes in one read of the source.
    pub fn read(self, data: Attempt<&[u8]>) -> (result: Result<SourceProgress, SdkError>)
        requires
            self.well_formed(),
        ensures
            match result {
                Ok(progress) => {
                    &&& self.read_error(data) is None
                    &&& data matches Attempt::Done(data) && self.takes(data@, progress)
                },
                Err(error) => self.read_error(data) == Some(error@),
            },
    {
        let data: &[u8] = match data.outcome("read artifact source for validation") {
            Ok(data) => data,
            Err(error) => {
                return Err(error);
            },
        };
        if data.len() == 0 {
            let source: ReadSource = ReadSource {
                start: self.start,
                size: self.size,
                hasher: self.hasher,
            };
            return Ok(SourceProgress::Ended(source));
        }
        let size: u64 = match self.size.checked_add(data.len() as u64) {
            Some(size) => size,
            None => {
                return Err(SdkError::invalid_argument("artifact size overflowed"));
            },
        };
        let mut hasher: sha2::Sha256 = self.hasher;
        foreign::update_hasher(&mut hasher, data);
        Ok(SourceProgress::More(SourceValidation { start: self.start, size, hasher }))
    }
}

impl ReadSource {
    /// Where in the source the artifact begins.
    pub closed spec fn origin(self) -> u64 {
        self.start
    }

    /// All bytes of the source.
    pub closed spec fn bytes(self) -> Seq<u8> {
        foreign::hashed_bytes(self.hasher)
    }

    /// Every byte read has been counted and hashed.
    pub closed spec fn well_formed(self) -> bool {
        self.size == self.bytes().len()
    }

    /// Where in the source the artifact begins.
    pub fn start(&self) -> (result: u64)
        ensures
            result == self.origin(),
    {
        self.start
    }

    /// What keeps the source from being accepted as the declared artifact.
    pub open spec fn finish_error(
        self,
        descriptor: ArtifactView,
        rewound: Attempt<()>,
    ) -> Option<ErrorView> {
        match rewound {
            Attempt::Done(()) => if source_matches(descriptor, self.bytes()) {
                None
            } else {
                Some(
                    ErrorView::InvalidArgument(
                        "artifact size or SHA-256 does not match its source"@,
                    ),
                )
            },
            _ => rewound.error("rewind validated artifact source"@),
        }
    }

    /// Ends the pass, once the source has been rewound to its start, by holding
    /// what was read against the declaration.
    pub fn finish(self, declared: DeclaredArtifact, rewound: Attempt<()>) -> (result: Result<
        ValidatedArtifact,
        SdkError,
    >)
        requires
            self.well_formed(),
            declared.well_formed(),
        ensures
            match result {
                Ok(validated) => {
                    &&& self.finish_error(declared.declared()@, rewound) is None
                    &&& self.bytes().len() == declared.declared().size_bytes
                    &&& foreign::sha256(self.bytes()) == declared.declared().sha256@
                    &&& validated.declaration() == declared
                    &&& validated.source() == self.bytes()
                    &&& validated.well_formed()
                },
                Err(error) => self.finish_error(declared.declared()@, rewound) == Some(error@),
            },
    {
        match rewound.outcome("rewind validated artifact source") {
            Ok(()) => {},
            Err(error) => {
                return Err(error);
            },
        }
        let ghost source = self.bytes();
        let digest: Vec<u8> = foreign::finish_hasher(self.hasher);
        match check_source(&declared.descriptor, self.size, digest.as_slice()) {
            Ok(()) => Ok(ValidatedArtifact { declared, source: Ghost(source) }),
            Err(error) => Err(error),
        }
    }
}

impl ValidatedArtifact {
    /// The declaration that the source matches.
    pub closed spec fn declaration(self) -> DeclaredArtifact {
        self.declared
    }

    /// The bytes that were read from the source.
    pub closed spec fn source(self) -> Seq<u8> {
        self.source@
    }

    /// The source is what the action declared.
    pub open spec fn well_formed(self) -> bool {
        &&& self.declaration().well_formed()
        &&& source_matches(self.declaration().declared()@, self.source())
    }

    /// What was declared of the artifact, and its ID.
    pub(crate) fn into_parts(self) -> (result: (ArtifactDescriptor, PluginArtifactId))
        ensures
            result.0 == self.declaration().declared(),
            result.1 == self.declaration().id(),
    {
        (self.declared.descriptor, self.declared.artifact_id)
    }

    /// What was declared of the artifact.
    pub fn descriptor(&self) -> (result: &ArtifactDescriptor)
        ensures
            *result == self.declaration().declared(),
    {
        &self.declared.descriptor
    }
}

/// Some byte sequences one after another.
pub open spec fn joined(pieces: Seq<Seq<u8>>) -> Seq<u8>
    decreases pieces.len(),
{
    if pieces.len() == 0 {
        Seq::empty()
    } else {
        joined(pieces.drop_last()) + pieces.last()
    }
}

/// Whether a validation passes through `states` by reading `pieces`.
pub open spec fn reads(states: Seq<SourceValidation>, pieces: Seq<Seq<u8>>) -> bool {
    &&& states.len() == pieces.len() + 1
    &&& forall|index: int|
        0 <= index < pieces.len() ==> states[index].takes(
            #[trigger] pieces[index],
            SourceProgress::More(states[index + 1]),
        )
}

/// What a source is judged by is all of its bytes in order, however they were
/// cut into reads.
pub proof fn law_sources_are_judged_as_a_whole(
    states: Seq<SourceValidation>,
    pieces: Seq<Seq<u8>>,
)
    requires
        reads(states, pieces),
        states[0].bytes() == Seq::<u8>::empty(),
    ensures
        states.last().bytes() == joined(pieces),
    decreases pieces.len(),
{
    if pieces.len() > 0 {
        let count = pieces.len() - 1;
        let earlier = pieces.drop_last();
        assert forall|index: int| 0 <= index < earlier.len() implies states.drop_last()[
        index].takes(
            #[trigger] earlier[index],
            SourceProgress::More(states.drop_last()[index + 1]),
        ) by {
            assert(earlier[index] == pieces[index]);
        }
        law_sources_are_judged_as_a_whole(states.drop_last(), earlier);
        assert(states[count].takes(pieces[count], SourceProgress::More(states[count + 1])));
    }
}

// ---------------------------------------------------------------------------
// Chunks
// ---------------------------------------------------------------------------

/// How an artifact is cut into chunks.
#[derive(Clone, Copy, Debug, PartialEq, Eq, Structural)]
pub struct ArtifactPlan {
    /// The size of every chunk but the last.
    pub chunk_bytes: usize,
    pub chunk_count: u32,
}

/// The size of a full chunk under the limit of the host.
pub open spec fn full_chunk(maximum_chunk_bytes: u64) -> int {
    if maximum_chunk_bytes < ARTIFACT_IO_BUFFER_BYTES {
        maximum_chunk_bytes as int
    } else {
        ARTIFACT_IO_BUFFER_BYTES as int
    }
}

/// How many chunks of `chunk` bytes hold `size` bytes.
pub open spec fn chunks_needed(size: int, chunk: int) -> int {
    (size + chunk - 1) / chunk
}

/// What keeps an artifact from being cut into chunks.
pub open spec fn plan_error(size_bytes: u64, maximum_chunk_bytes: u64) -> Option<ErrorView> {
    let chunk = full_chunk(maximum_chunk_bytes);
    if maximum_chunk_bytes == 0 {
        Some(ErrorView::Protocol("host advertised a zero artifact chunk limit"@))
    } else if size_bytes > 0 && size_bytes + (chunk - 1) > u64::MAX {
        Some(ErrorView::InvalidArgument("artifact chunk count overflowed"@))
    } else if chunks_needed(size_bytes as int, chunk) > u32::MAX {
        Some(ErrorView::InvalidArgument("artifact has too many chunks"@))
    } else {
        None
    }
}

/// Cuts an artifact of `size_bytes` into the fewest chunks that respect both the
/// limit of the host and the local buffer.
pub fn artifact_plan(size_bytes: u64, maximum_chunk_bytes: u64) -> (result: Result<
    ArtifactPlan,
    SdkError,
>)
    ensures
        match result {
            Ok(plan) => {
                &&& plan_error(size_bytes, maximum_chunk_bytes) is None
                &&& plan.chunk_bytes == full_chunk(maximum_chunk_bytes)
                &&& plan.chunk_count == chunks_needed(size_bytes as int, plan.chunk_bytes as int)
            },
            Err(error) => plan_error(size_bytes, maximum_chunk_bytes) == Some(error@),
        },
{
    if maximum_chunk_bytes == 0 {
        return Err(SdkError::protocol("host advertised a zero artifact chunk limit"));
    }
    let chunk_bytes: usize = if maximum_chunk_bytes < ARTIFACT_IO_BUFFER_BYTES as u64 {
        maximum_chunk_bytes as usize
    } else {
        ARTIFACT_IO_BUFFER_BYTES
    };
    let count: u64 = if size_bytes == 0 {
        proof {
            vstd::arithmetic::div_mod::lemma_basic_div(chunk_bytes - 1, chunk_bytes as int);
        }
        0
    } else {
        match size_bytes.checked_add(chunk_bytes as u64 - 1) {
            Some(rounded) => rounded / chunk_bytes as u64,
            None => {
                return Err(SdkError::invalid_argument("artifact chunk count overflowed"));
            },
        }
    };
    if count > u32::MAX as u64 {
        return Err(SdkError::invalid_argument("artifact has too many chunks"));
    }
    Ok(ArtifactPlan { chunk_bytes, chunk_count: count as u32 })
}

/// The length of chunk number `index`.
pub open spec fn chunk_length(size: int, chunk: int, index: int) -> int {
    if size - index * chunk < chunk {
        size - index * chunk
    } else {
        chunk
    }
}

/// The length of the first `count` chunks together.
pub open spec fn chunks_length(size: int, chunk: int, count: nat) -> int
    decreases count,
{
    if count == 0 {
        0
    } else {
        chunks_length(size, chunk, (count - 1) as nat) + chunk_length(size, chunk, count - 1)
    }
}

/// Before every chunk that is needed some of the artifact is left, and after the
/// last one nothing is.
pub proof fn lemma_chunks_end_at_the_size(size: int, chunk: int, index: int)
    requires
        0 <= size,
        0 < chunk,
        0 <= index,
    ensures
        index < chunks_needed(size, chunk) ==> index * chunk < size,
        index >= chunks_needed(size, chunk) ==> size <= index * chunk,
        chunks_needed(size, chunk) >= 0,
{
    let needed = chunks_needed(size, chunk);
    vstd::arithmetic::div_mod::lemma_fundamental_div_mod(size + chunk - 1, chunk);
    let rest = (size + chunk - 1) % chunk;
    assert(size + chunk - 1 == chunk * needed + rest);
    assert(0 <= rest < chunk);
    assert(needed >= 0) by (nonlinear_arith)
        requires
            size + chunk - 1 == chunk * needed + rest,
            0 <= rest < chunk,
            0 <= size,
            0 < chunk,
    ;
    if index < needed {
        assert(index * chunk <= (needed - 1) * chunk) by (nonlinear_arith)
            requires
                index <= needed - 1,
                0 < chunk,
        ;
        assert((needed - 1) * chunk == chunk * needed - chunk) by (nonlinear_arith);
    } else {
        assert(needed * chunk <= index * chunk) by (nonlinear_arith)
            requires
                needed <= index,
                0 < chunk,
        ;
        assert(needed * chunk == chunk * needed) by (nonlinear_arith);
    }
}

/// The planned chunks make up the artifact: none is empty, none exceeds the
/// limit of the host, and together they are as long as the artifact.
pub proof fn law_chunks_make_up_the_artifact(size_bytes: u64, maximum_chunk_bytes: u64)
    requires
        plan_error(size_bytes, maximum_chunk_bytes) is None,
    ensures
        ({
            let chunk = full_chunk(maximum_chunk_bytes);
            let count = chunks_needed(size_bytes as int, chunk);
            &&& count >= 0
            &&& forall|index: int|
                0 <= index < count ==> 0 < #[trigger] chunk_length(size_bytes as int, chunk, index)
                    <= maximum_chunk_bytes
            &&& chunks_length(size_bytes as int, chunk, count as nat) == size_bytes
        }),
{
    let size = size_bytes as int;
    let chunk = full_chunk(maximum_chunk_bytes);
    let count = chunks_needed(size, chunk);
    assert forall|index: int| 0 <= index < count implies 0 < #[trigger] chunk_length(
        size,
        chunk,
        index,
    ) <= maximum_chunk_bytes by {
        lemma_chunks_end_at_the_size(size, chunk, index);
    }
    lemma_chunks_end_at_the_size(size, chunk, 0);
    lemma_chunks_length(size, chunk, count as nat);
    lemma_chunks_end_at_the_size(size, chunk, count);
}

/// The first `count` chunks reach up to `count` full chunks or to the end.
pub proof fn lemma_chunks_length(size: int, chunk: int, count: nat)
    requires
        0 <= size,
        0 < chunk,
        count <= chunks_needed(size, chunk),
    ensures
        chunks_length(size, chunk, count) == if count * chunk < size {
            count * chunk
        } else {
            size
        },
    decreases count,
{
    if count > 0 {
        lemma_chunks_length(size, chunk, (count - 1) as nat);
        lemma_chunks_end_at_the_size(size, chunk, count - 1);
        assert(count * chunk == (count - 1) * chunk + chunk) by (nonlinear_arith);
    } else {
        assert(count * chunk == 0) by (nonlinear_arith)
            requires
                count == 0,
        ;
    }
}

/// A source is accepted exactly if it was rewound, has as many bytes as were declared
/// and gives the SHA-256 digest that was declared, however long it is. Any other
/// source is an invalid argument.
pub proof fn law_sources_are_accepted_by_size_and_digest(
    source: ReadSource,
    declared: DeclaredArtifact,
    rewound: Attempt<()>,
    result: Result<ValidatedArtifact, SdkError>,
)
    requires
        source.well_formed(),
        declared.well_formed(),
        call_ensures(ReadSource::finish, (source, declared, rewound), result),
    ensures
        result is Ok <==> {
            &&& rewound is Done
            &&& source.bytes().len() == declared.declared().size_bytes
            &&& foreign::sha256(source.bytes()) == declared.declared().sha256@
        },
        rewound is Done && result is Err ==> result->Err_0@ == ErrorView::InvalidArgument(
            "artifact size or SHA-256 does not match its source"@,
        ),
        rewound is Cancelled ==> result->Err_0@ == ErrorView::Cancelled,
        result matches Ok(validated) ==> validated.source() == source.bytes()
            && validated.declaration() == declared,
{
}

/// A declaration is accepted exactly if it has a canonical ID, a file name that is one
/// path component of at most 191 bytes, a media type and a digest of 32 bytes.
pub proof fn law_declarations_are_complete_and_safe(
    descriptor: ArtifactDescriptor,
    result: Result<PluginArtifactId, SdkError>,
)
    requires
        call_ensures(validate_descriptor, (&descriptor,), result),
    ensures
        result is Ok <==> {
            let name = descriptor.file_name@;
            &&& descriptor.artifact_id matches Some(id) && validation::is_canonical_uuid_v4(
                id.value@,
            )
            &&& name != Seq::<char>::empty()
            &&& vstd::utf8::encode_utf8(name).len() <= 191
            &&& name != seq!['.']
            &&& name != seq!['.', '.']
            &&& forall|index: int|
                0 <= index < name.len() ==> #[trigger] name[index] != '/' && name[index] != '\0'
            &&& descriptor.media_type@ != Seq::<char>::empty()
            &&& descriptor.sha256@.len() == 32
        },
        result matches Ok(id) ==> descriptor.artifact_id == Some(id),
        result is Err ==> result->Err_0@ is InvalidArgument,
{
    reveal_strlit(".");
    reveal_strlit("..");
    let name = descriptor.file_name@;
    assert("."@ =~= seq!['.']);
    assert(".."@ =~= seq!['.', '.']);
    assert(name.len() == 0 <==> name =~= Seq::<char>::empty());
    assert(descriptor.media_type@.len() == 0 <==> descriptor.media_type@ =~= Seq::<char>::empty());
    if forall|index: int|
        0 <= index < name.len() ==> #[trigger] name[index] != '/' && name[index] != '\0' {
        assert(!name.contains('/'));
        assert(!name.contains('\0'));
    }
    if !name.contains('/') && !name.contains('\0') {
        assert forall|index: int| 0 <= index < name.len() implies #[trigger] name[index] != '/'
            && name[index] != '\0' by {
            assert(name.contains(name[index]));
        }
    }
}

/// An artifact is cut into the fewest chunks that are no larger than the host allows
/// and than 65536 bytes. There is no such plan only where the host allows nothing, the
/// size is within a chunk of the largest that can be counted, or the chunks are too
/// many to be numbered.
pub proof fn law_plans_use_the_fewest_chunks(
    size_bytes: u64,
    maximum_chunk_bytes: u64,
    result: Result<ArtifactPlan, SdkError>,
)
    requires
        call_ensures(artifact_plan, (size_bytes, maximum_chunk_bytes), result),
    ensures
        ({
            let chunk: int = if maximum_chunk_bytes < 65_536 {
                maximum_chunk_bytes as int
            } else {
                65_536
            };
            &&& result matches Ok(plan) ==> {
                &&& plan.chunk_bytes == chunk
                &&& 0 < plan.chunk_bytes <= maximum_chunk_bytes
                &&& size_bytes <= plan.chunk_count * chunk
                &&& plan.chunk_count > 0 ==> (plan.chunk_count - 1) * chunk < size_bytes
                &&& plan.chunk_count == 0 <==> size_bytes == 0
            }
            &&& result is Ok <==> {
                &&& maximum_chunk_bytes > 0
                &&& size_bytes <= u64::MAX - (chunk - 1) || size_bytes == 0
                &&& size_bytes <= u32::MAX * chunk
            }
            &&& result is Err && maximum_chunk_bytes == 0 ==> result->Err_0@ is Protocol
            &&& result is Err && maximum_chunk_bytes > 0 ==> result->Err_0@ is InvalidArgument
        }),
{
    let chunk = full_chunk(maximum_chunk_bytes);
    if maximum_chunk_bytes > 0 {
        let size = size_bytes as int;
        let needed = chunks_needed(size, chunk);
        lemma_chunks_end_at_the_size(size, chunk, 0);
        lemma_chunks_end_at_the_size(size, chunk, needed);
        if needed > 0 {
            lemma_chunks_end_at_the_size(size, chunk, needed - 1);
        }
        lemma_chunks_end_at_the_size(size, chunk, u32::MAX as int);
        assert(0 * chunk == 0) by (nonlinear_arith);
    }
}

/// The first pass over a source counts and hashes every byte in order and ends with
/// the first empty read.
pub proof fn law_first_passes_take_every_byte(
    validation: SourceValidation,
    data: &[u8],
    result: Result<SourceProgress, SdkError>,
)
    requires
        validation.well_formed(),
        call_ensures(SourceValidation::read, (validation, Attempt::Done(data)), result),
    ensures
        match result {
            Ok(SourceProgress::More(next)) => data@.len() > 0 && next.bytes() == validation.bytes()
                + data@ && next.origin() == validation.origin(),
            Ok(SourceProgress::Ended(source)) => data@.len() == 0 && source.bytes()
                == validation.bytes() && source.origin() == validation.origin(),
            Err(error) => error@ is InvalidArgument && validation.bytes().len() + data@.len()
                > u64::MAX,
        },
{
}

/// A declaration that is not accepted is refused by its first fault: its ID, its file
/// name, then its media type or digest.
pub proof fn law_refused_declarations_name_their_fault(
    descriptor: ArtifactDescriptor,
    result: Result<PluginArtifactId, SdkError>,
)
    requires
        call_ensures(validate_descriptor, (&descriptor,), result),
        result is Err,
    ensures
        ({
            let named = descriptor.artifact_id matches Some(id) && validation::is_canonical_uuid_v4(
                id.value@,
            );
            let complete = descriptor.media_type@.len() > 0 && descriptor.sha256@.len() == 32;
            &&& !named ==> result->Err_0@ == ErrorView::InvalidArgument(
                "artifact ID must be a canonical UUID v4"@,
            )
            &&& named && complete ==> result->Err_0@ == ErrorView::InvalidArgument(
                "artifact file name must be one safe UTF-8 basename of at most 191 bytes"@,
            )
            &&& named && !complete ==> result->Err_0@ == ErrorView::InvalidArgument(
                "artifact file name must be one safe UTF-8 basename of at most 191 bytes"@,
            ) || result->Err_0@ == ErrorView::InvalidArgument(
                "artifact media type and 32-byte SHA-256 are required"@,
            )
        }),
{
}

} // verus!
