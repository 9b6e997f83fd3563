//! Content-verified artifacts of one checkpoint: its locators, its replay record, and
//! the prepared payload that the record refers to.
//!
//! An artifact is cut into chunks. Each chunk, the whole payload and the list of chunks
//! have digests of their own, and one descriptor holds them all.

use vstd::prelude::*;

use crate::bytes;
use crate::bytes::{
    array_equal, copy_bytes, push_byte, push_bytes, push_len, push_u16, push_u32, push_u64,
    text_bytes,
};
use crate::hash;
use crate::hash::sha256_digest;

verus! {

pub const MANIFEST_ARTIFACT_ENCODING_VERSION: u16 = 1;

pub const MANIFEST_ARTIFACT_MAX_CHUNK_BYTES: usize = 4_194_304;

pub const MANIFEST_ARTIFACT_CHUNKS_PER_BUCKET: u32 = 16;

#[derive(Clone, Copy, Debug, PartialEq, Eq, Hash, PartialOrd, Ord, Structural)]
pub enum ManifestArtifactKind {
    Locator,
    ReplayRecord,
    DurablePreparedPayload,
}

/// Why a replay record is refused.
#[derive(Clone, Debug, PartialEq, Eq)]
pub enum ReplayPrototypeError {
    UnknownRecordKind(u8),
    Refused(String),
}

#[allow(inconsistent_fields)]
#[derive(Clone, Debug, PartialEq, Eq)]
pub enum ManifestArtifactError {
    Replay(ReplayPrototypeError),
    Intent(String),
    UnknownArtifactKind(u8),
    UnknownEncodingVersion(u16),
    InvalidChunkLimit(usize),
    ZeroMutationReceiptNotYetSupported,
    NonZeroMutationReceipt { actual: usize },
    ZeroMutationReceiptTooLarge(usize),
    InvalidZeroMutationReceipt,
    EmptyArtifactPayload(ManifestArtifactKind),
    TooManyChunks(usize),
    TooManyLocatorEntries(usize),
    InvalidChunkPosition { chunk_index: u32, total_chunks: u32 },
    ChunkBucketMismatch { chunk_index: u32, expected: u32, actual: u32 },
    EmptyPersistedChunkPayload(u32),
    ChunkPayloadTooLarge { chunk_index: u32, actual: usize, maximum: usize },
    ChunkCountMismatch { expected: u32, actual: usize },
    ChunkSequenceMismatch(usize),
    ChunkPayloadHashMismatch(u32),
    ArtifactLengthMismatch { expected: u64, actual: u64 },
    ArtifactPayloadDigestMismatch,
    ChunkSetDigestMismatch,
    InvalidLocatorEncoding,
    LocatorCountMismatch { expected: u64, actual: u64 },
    NonCanonicalLocatorOrdering,
    ArtifactSummaryMismatch,
    ArtifactCommitmentMismatch,
    InvalidArtifactSummaryEncoding,
    InvalidArtifactDescriptor,
    ArtifactSummaryCardinalityMismatch,
}

impl ManifestArtifactKind {
    pub open spec fn spec_code(self) -> u8 {
        match self {
            ManifestArtifactKind::Locator => 1,
            ManifestArtifactKind::ReplayRecord => 2,
            ManifestArtifactKind::DurablePreparedPayload => 3,
        }
    }

    #[verifier::when_used_as_spec(spec_code)]
    pub fn code(self) -> (code: u8)
        ensures
            code == self.spec_code(),
    {
        match self {
            ManifestArtifactKind::Locator => 1,
            ManifestArtifactKind::ReplayRecord => 2,
            ManifestArtifactKind::DurablePreparedPayload => 3,
        }
    }

    pub open spec fn of_code(code: u8) -> Result<Self, ManifestArtifactError> {
        if code == 1 {
            Ok(ManifestArtifactKind::Locator)
        } else if code == 2 {
            Ok(ManifestArtifactKind::ReplayRecord)
        } else if code == 3 {
            Ok(ManifestArtifactKind::DurablePreparedPayload)
        } else {
            Err(ManifestArtifactError::UnknownArtifactKind(code))
        }
    }

    pub fn try_from_code(code: u8) -> (result: Result<Self, ManifestArtifactError>)
        ensures
            result == Self::of_code(code),
    {
        match code {
            1 => Ok(ManifestArtifactKind::Locator),
            2 => Ok(ManifestArtifactKind::ReplayRecord),
            3 => Ok(ManifestArtifactKind::DurablePreparedPayload),
            code => Err(ManifestArtifactError::UnknownArtifactKind(code)),
        }
    }
}

#[derive(Clone, Copy, Debug, PartialEq, Eq, Hash)]
pub struct ManifestArtifactDigest(pub [u8; 32]);

impl ManifestArtifactDigest {
    pub fn as_bytes(&self) -> (bytes: &[u8; 32])
        ensures
            *bytes == self.0,
    {
        &self.0
    }

    pub fn same(&self, other: &Self) -> (same: bool)
        ensures
            same == (*self == *other),
    {
        array_equal::<32>(&self.0, &other.0)
    }

    /// The digest of what a preimage has come to.
    fn of(preimage: &[u8]) -> (digest: Self)
        ensures
            digest.0 == hash::sha256(preimage@),
    {
        ManifestArtifactDigest(sha256_digest(preimage))
    }
}

/// One part of what a digest covers, behind its length.
pub open spec fn part(bytes: Seq<u8>) -> Seq<u8> {
    bytes::be_len(bytes.len()) + bytes
}

fn push_part(preimage: &mut Vec<u8>, bytes: &[u8])
    ensures
        final(preimage)@ == old(preimage)@ + part(bytes@),
{
    push_len(preimage, bytes.len());
    push_bytes(preimage, bytes);
    assert(preimage@ =~= old(preimage)@ + part(bytes@));
}

/// The digest of a whole payload.
pub open spec fn payload_digest_of(kind: ManifestArtifactKind, payload: Seq<u8>) -> [u8; 32] {
    hash::sha256(
        bytes::text("psy.rollback.manifest-artifact.v1\0"@) + seq![kind.spec_code()] + part(payload),
    )
}

pub fn artifact_digest(kind: ManifestArtifactKind, payload: &[u8]) -> (digest:
    ManifestArtifactDigest)
    ensures
        digest.0 == payload_digest_of(kind, payload@),
{
    let mut preimage: Vec<u8> = text_bytes("psy.rollback.manifest-artifact.v1\0");
    push_byte(&mut preimage, kind.code());
    push_part(&mut preimage, payload);
    ManifestArtifactDigest::of(&preimage)
}

/// The digest of one chunk, which also covers its place.
pub open spec fn chunk_digest_of(
    kind: ManifestArtifactKind,
    chunk_index: u32,
    total_chunks: u32,
    payload: Seq<u8>,
) -> [u8; 32] {
    hash::sha256(
        bytes::text("psy.rollback.manifest-chunk.v1\0"@) + seq![kind.spec_code()] + part(
            bytes::be32(chunk_index),
        ) + part(bytes::be32(total_chunks)) + part(payload),
    )
}

pub fn chunk_digest(
    kind: ManifestArtifactKind,
    chunk_index: u32,
    total_chunks: u32,
    payload: &[u8],
) -> (digest: ManifestArtifactDigest)
    ensures
        digest.0 == chunk_digest_of(kind, chunk_index, total_chunks, payload@),
{
    let mut index_bytes: Vec<u8> = Vec::new();
    push_u32(&mut index_bytes, chunk_index);
    assert(index_bytes@ =~= bytes::be32(chunk_index));
    let mut total_bytes: Vec<u8> = Vec::new();
    push_u32(&mut total_bytes, total_chunks);
    assert(total_bytes@ =~= bytes::be32(total_chunks));
    let mut preimage: Vec<u8> = text_bytes("psy.rollback.manifest-chunk.v1\0");
    push_byte(&mut preimage, kind.code());
    push_part(&mut preimage, &index_bytes);
    push_part(&mut preimage, &total_bytes);
    push_part(&mut preimage, payload);
    ManifestArtifactDigest::of(&preimage)
}

/// One chunk of an artifact.
#[verifier::ext_equal]
#[derive(Clone, Debug, PartialEq, Eq)]
pub struct ManifestArtifactChunk<B> {
    pub kind: ManifestArtifactKind,
    pub encoding_version: u16,
    pub chunk_index: u32,
    pub total_chunks: u32,
    pub chunk_bucket: u32,
    pub payload: B,
    pub payload_hash: ManifestArtifactDigest,
}

pub type Chunk = ManifestArtifactChunk<Vec<u8>>;

pub type ChunkModel = ManifestArtifactChunk<Seq<u8>>;

impl View for ManifestArtifactChunk<Vec<u8>> {
    type V = ManifestArtifactChunk<Seq<u8>>;

    open spec fn view(&self) -> ManifestArtifactChunk<Seq<u8>> {
        ManifestArtifactChunk {
            kind: self.kind,
            encoding_version: self.encoding_version,
            chunk_index: self.chunk_index,
            total_chunks: self.total_chunks,
            chunk_bucket: self.chunk_bucket,
            payload: self.payload@,
            payload_hash: self.payload_hash,
        }
    }
}

/// The views of a list of chunks.
pub open spec fn chunk_models(chunks: Seq<Chunk>) -> Seq<ChunkModel> {
    chunks.map_values(|chunk: Chunk| chunk@)
}

/// A chunk as it was stored, if its columns are those of one.
pub open spec fn persisted_chunk(
    kind: u8,
    encoding_version: u16,
    chunk_index: u32,
    total_chunks: u32,
    chunk_bucket: u32,
    payload: Seq<u8>,
    payload_hash: [u8; 32],
) -> Result<ChunkModel, ManifestArtifactError> {
    let expected_bucket = chunk_index / MANIFEST_ARTIFACT_CHUNKS_PER_BUCKET;
    match ManifestArtifactKind::of_code(kind) {
        Err(error) => Err(error),
        Ok(kind) => if encoding_version != MANIFEST_ARTIFACT_ENCODING_VERSION {
            Err(ManifestArtifactError::UnknownEncodingVersion(encoding_version))
        } else if total_chunks == 0 || chunk_index >= total_chunks {
            Err(ManifestArtifactError::InvalidChunkPosition { chunk_index, total_chunks })
        } else if chunk_bucket != expected_bucket {
            Err(
                ManifestArtifactError::ChunkBucketMismatch {
                    chunk_index,
                    expected: expected_bucket,
                    actual: chunk_bucket,
                },
            )
        } else if payload.len() == 0 {
            Err(ManifestArtifactError::EmptyPersistedChunkPayload(chunk_index))
        } else if payload.len() > MANIFEST_ARTIFACT_MAX_CHUNK_BYTES {
            Err(
                ManifestArtifactError::ChunkPayloadTooLarge {
                    chunk_index,
                    actual: payload.len() as usize,
                    maximum: MANIFEST_ARTIFACT_MAX_CHUNK_BYTES,
                },
            )
        } else {
            Ok(
                ManifestArtifactChunk {
                    kind,
                    encoding_version,
                    chunk_index,
                    total_chunks,
                    chunk_bucket,
                    payload,
                    payload_hash: ManifestArtifactDigest(payload_hash),
                },
            )
        },
    }
}

impl ManifestArtifactChunk<Vec<u8>> {
    pub fn try_from_persisted(
        kind: u8,
        encoding_version: u16,
        chunk_index: u32,
        total_chunks: u32,
        chunk_bucket: u32,
        payload: Vec<u8>,
        payload_hash: [u8; 32],
    ) -> (result: Result<Self, ManifestArtifactError>)
        ensures
            match result {
                Ok(chunk) => persisted_chunk(
                    kind,
                    encoding_version,
                    chunk_index,
                    total_chunks,
                    chunk_bucket,
                    payload@,
                    payload_hash,
                ) == Ok::<ChunkModel, ManifestArtifactError>(chunk@),
                Err(error) => persisted_chunk(
                    kind,
                    encoding_version,
                    chunk_index,
                    total_chunks,
                    chunk_bucket,
                    payload@,
                    payload_hash,
                ) == Err::<ChunkModel, ManifestArtifactError>(error),
            },
    {
        let kind = ManifestArtifactKind::try_from_code(kind)?;
        if encoding_version != MANIFEST_ARTIFACT_ENCODING_VERSION {
            return Err(ManifestArtifactError::UnknownEncodingVersion(encoding_version));
        }
        if total_chunks == 0 || chunk_index >= total_chunks {
            return Err(ManifestArtifactError::InvalidChunkPosition { chunk_index, total_chunks });
        }
        let expected_bucket: u32 = chunk_index / MANIFEST_ARTIFACT_CHUNKS_PER_BUCKET;
        if chunk_bucket != expected_bucket {
            return Err(
                ManifestArtifactError::ChunkBucketMismatch {
                    chunk_index,
                    expected: expected_bucket,
                    actual: chunk_bucket,
                },
            );
        }
        if payload.len() == 0 {
            return Err(ManifestArtifactError::EmptyPersistedChunkPayload(chunk_index));
        }
        if payload.len() > MANIFEST_ARTIFACT_MAX_CHUNK_BYTES {
            return Err(
                ManifestArtifactError::ChunkPayloadTooLarge {
                    chunk_index,
                    actual: payload.len(),
                    maximum: MANIFEST_ARTIFACT_MAX_CHUNK_BYTES,
                },
            );
        }
        Ok(
            ManifestArtifactChunk {
                kind,
                encoding_version,
                chunk_index,
                total_chunks,
                chunk_bucket,
                payload,
                payload_hash: ManifestArtifactDigest(payload_hash),
            },
        )
    }

    pub fn kind(&self) -> (kind: ManifestArtifactKind)
        ensures
            kind == self@.kind,
    {
        self.kind
    }

    pub fn encoding_version(&self) -> (version: u16)
        ensures
            version == self@.encoding_version,
    {
        self.encoding_version
    }

    pub fn chunk_index(&self) -> (index: u32)
        ensures
            index == self@.chunk_index,
    {
        self.chunk_index
    }

    pub fn total_chunks(&self) -> (total: u32)
        ensures
            total == self@.total_chunks,
    {
        self.total_chunks
    }

    pub fn chunk_bucket(&self) -> (bucket: u32)
        ensures
            bucket == self@.chunk_bucket,
    {
        self.chunk_bucket
    }

    pub fn payload(&self) -> (payload: &[u8])
        ensures
            payload@ == self@.payload,
    {
        self.payload.as_slice()
    }

    pub fn payload_hash(&self) -> (hash: ManifestArtifactDigest)
        ensures
            hash == self@.payload_hash,
    {
        self.payload_hash
    }
}

/// What is known of an artifact without its chunks.
#[derive(Clone, Copy, Debug, PartialEq, Eq)]
pub struct ManifestArtifactDescriptor {
    pub kind: ManifestArtifactKind,
    pub encoding_version: u16,
    pub chunk_count: u32,
    pub item_count: u64,
    pub encoded_bytes: u64,
    pub payload_digest: ManifestArtifactDigest,
    pub chunk_set_digest: ManifestArtifactDigest,
}

/// A descriptor as a summary holds it.
pub open spec fn descriptor_bytes(descriptor: ManifestArtifactDescriptor) -> Seq<u8> {
    seq![descriptor.kind.spec_code()] + bytes::be16(descriptor.encoding_version) + bytes::be32(
        descriptor.chunk_count,
    ) + bytes::be64(descriptor.item_count) + bytes::be64(descriptor.encoded_bytes)
        + descriptor.payload_digest.0@ + descriptor.chunk_set_digest.0@
}

impl ManifestArtifactDescriptor {
    pub fn kind(self) -> (kind: ManifestArtifactKind)
        ensures
            kind == self.kind,
    {
        self.kind
    }

    pub fn encoding_version(self) -> (version: u16)
        ensures
            version == self.encoding_version,
    {
        self.encoding_version
    }

    pub fn chunk_count(self) -> (count: u32)
        ensures
            count == self.chunk_count,
    {
        self.chunk_count
    }

    pub fn item_count(self) -> (count: u64)
        ensures
            count == self.item_count,
    {
        self.item_count
    }

    pub fn encoded_bytes(self) -> (bytes: u64)
        ensures
            bytes == self.encoded_bytes,
    {
        self.encoded_bytes
    }

    pub fn payload_digest(self) -> (digest: ManifestArtifactDigest)
        ensures
            digest == self.payload_digest,
    {
        self.payload_digest
    }

    pub fn chunk_set_digest(self) -> (digest: ManifestArtifactDigest)
        ensures
            digest == self.chunk_set_digest,
    {
        self.chunk_set_digest
    }

    pub fn encode_into(self, out: &mut Vec<u8>)
        ensures
            final(out)@ == old(out)@ + descriptor_bytes(self),
    {
        push_byte(out, self.kind.code());
        push_u16(out, self.encoding_version);
        push_u32(out, self.chunk_count);
        push_u64(out, self.item_count);
        push_u64(out, self.encoded_bytes);
        push_bytes(out, &self.payload_digest.0);
        push_bytes(out, &self.chunk_set_digest.0);
        assert(out@ =~= old(out)@ + descriptor_bytes(self));
    }
}

/// The digests of all chunks, one behind the other.
pub open spec fn hash_bytes(chunks: Seq<ChunkModel>) -> Seq<u8>
    decreases chunks.len(),
{
    if chunks.len() == 0 {
        Seq::empty()
    } else {
        hash_bytes(chunks.drop_last()) + chunks.last().payload_hash.0@
    }
}

/// The payloads of all chunks, one behind the other.
pub open spec fn chunk_payloads(chunks: Seq<ChunkModel>) -> Seq<u8>
    decreases chunks.len(),
{
    if chunks.len() == 0 {
        Seq::empty()
    } else {
        chunk_payloads(chunks.drop_last()) + chunks.last().payload
    }
}

/// What the digest of a list of chunks covers.
pub open spec fn chunk_set_bytes(
    item_count: u64,
    encoded_bytes: u64,
    count: u32,
    hashes: Seq<u8>,
) -> Seq<u8> {
    bytes::be16(MANIFEST_ARTIFACT_ENCODING_VERSION) + bytes::be32(count) + bytes::be64(item_count)
        + bytes::be64(encoded_bytes) + hashes
}

pub open spec fn chunk_set_digest_of(
    kind: ManifestArtifactKind,
    item_count: u64,
    encoded_bytes: u64,
    count: u32,
    hashes: Seq<u8>,
) -> [u8; 32] {
    hash::sha256(
        bytes::text("psy.rollback.manifest-chunk-set.v1\0"@) + seq![kind.spec_code()] + part(
            chunk_set_bytes(item_count, encoded_bytes, count, hashes),
        ),
    )
}

/// The digest of a list of chunks, from the digests of its members.
fn chunk_set_digest(
    kind: ManifestArtifactKind,
    item_count: u64,
    encoded_bytes: u64,
    count: u32,
    hashes: &[u8],
) -> (digest: ManifestArtifactDigest)
    ensures
        digest.0 == chunk_set_digest_of(kind, item_count, encoded_bytes, count, hashes@),
{
    let mut payload: Vec<u8> = Vec::new();
    push_u16(&mut payload, MANIFEST_ARTIFACT_ENCODING_VERSION);
    push_u32(&mut payload, count);
    push_u64(&mut payload, item_count);
    push_u64(&mut payload, encoded_bytes);
    push_bytes(&mut payload, hashes);
    assert(payload@ =~= chunk_set_bytes(item_count, encoded_bytes, count, hashes@));
    let mut preimage: Vec<u8> = text_bytes("psy.rollback.manifest-chunk-set.v1\0");
    push_byte(&mut preimage, kind.code());
    push_part(&mut preimage, &payload);
    ManifestArtifactDigest::of(&preimage)
}

/// Why a chunk does not belong at its place.
pub open spec fn chunk_refusal(
    descriptor: ManifestArtifactDescriptor,
    chunk: ChunkModel,
    position: int,
) -> Option<ManifestArtifactError> {
    if chunk.kind != descriptor.kind || chunk.encoding_version != descriptor.encoding_version
        || chunk.chunk_index != position || chunk.total_chunks != descriptor.chunk_count
        || chunk.chunk_bucket != chunk.chunk_index / MANIFEST_ARTIFACT_CHUNKS_PER_BUCKET {
        Some(ManifestArtifactError::ChunkSequenceMismatch(position as usize))
    } else if chunk_digest_of(chunk.kind, chunk.chunk_index, chunk.total_chunks, chunk.payload)
        != chunk.payload_hash.0 {
        Some(ManifestArtifactError::ChunkPayloadHashMismatch(chunk.chunk_index))
    } else {
        None
    }
}

/// The first refusal among the first `count` chunks.
pub open spec fn first_refusal(
    descriptor: ManifestArtifactDescriptor,
    chunks: Seq<ChunkModel>,
    count: nat,
) -> Option<ManifestArtifactError>
    decreases count,
{
    if count == 0 {
        None
    } else {
        match first_refusal(descriptor, chunks, (count - 1) as nat) {
            Some(error) => Some(error),
            None => chunk_refusal(descriptor, chunks[count - 1], count - 1),
        }
    }
}

proof fn lemma_refusal_stays(
    descriptor: ManifestArtifactDescriptor,
    chunks: Seq<ChunkModel>,
    fewer: nat,
    count: nat,
)
    requires
        fewer <= count,
        first_refusal(descriptor, chunks, fewer) is Some,
    ensures
        first_refusal(descriptor, chunks, count) == first_refusal(descriptor, chunks, fewer),
    decreases count,
{
    if fewer < count {
        lemma_refusal_stays(descriptor, chunks, fewer, (count - 1) as nat);
    }
}

/// The payload that the chunks of a descriptor make, if they are its chunks.
pub open spec fn verified_payload(
    descriptor: ManifestArtifactDescriptor,
    chunks: Seq<ChunkModel>,
) -> Result<Seq<u8>, ManifestArtifactError> {
    let output = chunk_payloads(chunks);
    if chunks.len() != descriptor.chunk_count {
        Err(
            ManifestArtifactError::ChunkCountMismatch {
                expected: descriptor.chunk_count,
                actual: chunks.len() as usize,
            },
        )
    } else {
        match first_refusal(descriptor, chunks, chunks.len()) {
            Some(error) => Err(error),
            None => if output.len() != descriptor.encoded_bytes {
                Err(
                    ManifestArtifactError::ArtifactLengthMismatch {
                        expected: descriptor.encoded_bytes,
                        actual: output.len() as u64,
                    },
                )
            } else if payload_digest_of(descriptor.kind, output) != descriptor.payload_digest.0 {
                Err(ManifestArtifactError::ArtifactPayloadDigestMismatch)
            } else if chunk_set_digest_of(
                descriptor.kind,
                descriptor.item_count,
                descriptor.encoded_bytes,
                descriptor.chunk_count,
                hash_bytes(chunks),
            ) != descriptor.chunk_set_digest.0 {
                Err(ManifestArtifactError::ChunkSetDigestMismatch)
            } else {
                Ok(output)
            },
        }
    }
}

pub open spec fn payload_result(result: Result<Vec<u8>, ManifestArtifactError>) -> Result<
    Seq<u8>,
    ManifestArtifactError,
> {
    match result {
        Ok(payload) => Ok(payload@),
        Err(error) => Err(error),
    }
}

/// Verifies the chunks of an artifact and puts its payload together.
pub fn verify_artifact_chunks(descriptor: ManifestArtifactDescriptor, chunks: &[Chunk]) -> (result:
    Result<Vec<u8>, ManifestArtifactError>)
    ensures
        payload_result(result) == verified_payload(descriptor, chunk_models(chunks@)),
{
    let ghost models = chunk_models(chunks@);
    if chunks.len() as u64 != descriptor.chunk_count as u64 {
        return Err(
            ManifestArtifactError::ChunkCountMismatch {
                expected: descriptor.chunk_count,
                actual: chunks.len(),
            },
        );
    }
    let mut output: Vec<u8> = Vec::new();
    let mut hashes: Vec<u8> = Vec::new();
    assert(models.take(0) =~= Seq::<ChunkModel>::empty());
    assert(output@ =~= chunk_payloads(models.take(0)));
    assert(hashes@ =~= hash_bytes(models.take(0)));
    let mut position: usize = 0;
    while position < chunks.len()
        invariant
            position <= chunks@.len(),
            chunks@.len() == descriptor.chunk_count,
            models == chunk_models(chunks@),
            output@ == chunk_payloads(models.take(position as int)),
            hashes@ == hash_bytes(models.take(position as int)),
            first_refusal(descriptor, models, position as nat) is None,
        decreases chunks@.len() - position,
    {
        let chunk = &chunks[position];
        proof {
            let reached = (position + 1) as nat;
            let next = models.take(position + 1);
            assert(next.drop_last() =~= models.take(position as int));
            assert(next.last() == chunk@);
            assert(models[reached - 1] == chunk@);
            if chunk_refusal(descriptor, chunk@, position as int) is Some {
                lemma_refusal_stays(descriptor, models, reached, models.len());
            }
        }
        if chunk.kind != descriptor.kind || chunk.encoding_version != descriptor.encoding_version
            || chunk.chunk_index as u64 != position as u64 || chunk.total_chunks
            != descriptor.chunk_count || chunk.chunk_bucket != chunk.chunk_index
            / MANIFEST_ARTIFACT_CHUNKS_PER_BUCKET {
            return Err(ManifestArtifactError::ChunkSequenceMismatch(position));
        }
        let expected_hash = chunk_digest(
            chunk.kind,
            chunk.chunk_index,
            chunk.total_chunks,
            &chunk.payload,
        );
        if !expected_hash.same(&chunk.payload_hash) {
            return Err(ManifestArtifactError::ChunkPayloadHashMismatch(chunk.chunk_index));
        }
        push_bytes(&mut output, &chunk.payload);
        push_bytes(&mut hashes, &chunk.payload_hash.0);
        position += 1;
    }
    assert(models.take(chunks@.len() as int) =~= models);
    if output.len() as u64 != descriptor.encoded_bytes {
        return Err(
            ManifestArtifactError::ArtifactLengthMismatch {
                expected: descriptor.encoded_bytes,
                actual: output.len() as u64,
            },
        );
    }
    if !artifact_digest(descriptor.kind, &output).same(&descriptor.payload_digest) {
        return Err(ManifestArtifactError::ArtifactPayloadDigestMismatch);
    }
    let set_digest = chunk_set_digest(
        descriptor.kind,
        descriptor.item_count,
        descriptor.encoded_bytes,
        descriptor.chunk_count,
        &hashes,
    );
    if !set_digest.same(&descriptor.chunk_set_digest) {
        return Err(ManifestArtifactError::ChunkSetDigestMismatch);
    }
    Ok(output)
}

/// An artifact: its descriptor and its chunks.
#[verifier::ext_equal]
#[derive(Clone, Debug, PartialEq, Eq)]
pub struct CanonicalManifestArtifact<C> {
    pub descriptor: ManifestArtifactDescriptor,
    pub chunks: C,
}

pub type Artifact = CanonicalManifestArtifact<Vec<Chunk>>;

pub type ArtifactModel = CanonicalManifestArtifact<Seq<ChunkModel>>;

impl View for CanonicalManifestArtifact<Vec<Chunk>> {
    type V = CanonicalManifestArtifact<Seq<ChunkModel>>;

    open spec fn view(&self) -> CanonicalManifestArtifact<Seq<ChunkModel>> {
        CanonicalManifestArtifact {
            descriptor: self.descriptor,
            chunks: chunk_models(self.chunks@),
        }
    }
}

impl CanonicalManifestArtifact<Vec<Chunk>> {
    pub fn descriptor(&self) -> (descriptor: ManifestArtifactDescriptor)
        ensures
            descriptor == self@.descriptor,
    {
        self.descriptor
    }

    pub fn chunks(&self) -> (chunks: &[Chunk])
        ensures
            chunk_models(chunks@) == self@.chunks,
    {
        self.chunks.as_slice()
    }

    pub fn verify_and_reassemble(&self) -> (result: Result<Vec<u8>, ManifestArtifactError>)
        ensures
            payload_result(result) == verified_payload(self@.descriptor, self@.chunks),
    {
        verify_artifact_chunks(self.descriptor, self.chunks.as_slice())
    }
}

/// How many chunks a payload is cut into.
pub open spec fn chunks_for(len: nat, limit: nat) -> nat {
    ((len + limit - 1) as nat) / limit
}

/// The end of the first `count` chunks.
pub open spec fn chunks_end(len: nat, limit: nat, count: nat) -> nat {
    if count * limit < len {
        count * limit
    } else {
        len
    }
}

/// The chunk at a place.
pub open spec fn chunk_of(
    kind: ManifestArtifactKind,
    payload: Seq<u8>,
    limit: nat,
    index: nat,
) -> ChunkModel {
    let total = chunks_for(payload.len(), limit) as u32;
    let bytes = payload.subrange(
        chunks_end(payload.len(), limit, index) as int,
        chunks_end(payload.len(), limit, index + 1) as int,
    );
    ManifestArtifactChunk {
        kind,
        encoding_version: MANIFEST_ARTIFACT_ENCODING_VERSION,
        chunk_index: index as u32,
        total_chunks: total,
        chunk_bucket: (index as u32 / MANIFEST_ARTIFACT_CHUNKS_PER_BUCKET) as u32,
        payload: bytes,
        payload_hash: ManifestArtifactDigest(chunk_digest_of(kind, index as u32, total, bytes)),
    }
}

pub open spec fn chunks_of(
    kind: ManifestArtifactKind,
    payload: Seq<u8>,
    limit: nat,
    count: nat,
) -> Seq<ChunkModel> {
    Seq::new(count, |i: int| chunk_of(kind, payload, limit, i as nat))
}

/// The artifact of a payload.
pub open spec fn artifact_of(
    kind: ManifestArtifactKind,
    payload: Seq<u8>,
    item_count: u64,
    limit: nat,
) -> ArtifactModel {
    let count = chunks_for(payload.len(), limit);
    let chunks = chunks_of(kind, payload, limit, count);
    CanonicalManifestArtifact {
        descriptor: ManifestArtifactDescriptor {
            kind,
            encoding_version: MANIFEST_ARTIFACT_ENCODING_VERSION,
            chunk_count: count as u32,
            item_count,
            encoded_bytes: payload.len() as u64,
            payload_digest: ManifestArtifactDigest(payload_digest_of(kind, payload)),
            chunk_set_digest: ManifestArtifactDigest(
                chunk_set_digest_of(
                    kind,
                    item_count,
                    payload.len() as u64,
                    count as u32,
                    hash_bytes(chunks),
                ),
            ),
        },
        chunks,
    }
}

pub open spec fn built_artifact(
    kind: ManifestArtifactKind,
    payload: Seq<u8>,
    item_count: u64,
    limit: nat,
) -> Result<ArtifactModel, ManifestArtifactError> {
    if payload.len() == 0 {
        Err(ManifestArtifactError::EmptyArtifactPayload(kind))
    } else if chunks_for(payload.len(), limit) > u32::MAX {
        Err(ManifestArtifactError::TooManyChunks(chunks_for(payload.len(), limit) as usize))
    } else {
        Ok(artifact_of(kind, payload, item_count, limit))
    }
}

/// The last chunk ends where the payload does.
proof fn lemma_chunks_cover(len: nat, limit: nat)
    requires
        len > 0,
        limit > 0,
    ensures
        chunks_for(len, limit) == (len - 1) / (limit as int) + 1,
        chunks_for(len, limit) > 0,
        chunks_end(len, limit, chunks_for(len, limit)) == len,
        forall|i: nat|
            i < chunks_for(len, limit) ==> (#[trigger] chunks_end(len, limit, i)) == i * limit
                && i * limit < len,
{
    let count = chunks_for(len, limit);
    vstd::arithmetic::div_mod::lemma_fundamental_div_mod(len + limit - 1, limit as int);
    vstd::arithmetic::div_mod::lemma_mod_bound(len + limit - 1, limit as int);
    vstd::arithmetic::div_mod::lemma_div_plus_one(len - 1, limit as int);
    assert(len - 1 + limit == len + limit - 1);
    assert(count * limit >= len) by (nonlinear_arith)
        requires
            len + limit - 1 == limit * count + (len + limit - 1) % (limit as int),
            (len + limit - 1) % (limit as int) < limit,
    ;
    assert forall|i: nat| i < count implies (#[trigger] chunks_end(len, limit, i)) == i * limit
        && i * limit < len by {
        assert(i * limit < len) by (nonlinear_arith)
            requires
                i < count,
                limit > 0,
                len + limit - 1 == limit * count + (len + limit - 1) % (limit as int),
                (len + limit - 1) % (limit as int) >= 0,
        ;
    }
    assert(count > 0) by (nonlinear_arith)
        requires
            count * limit >= len,
            len > 0,
    ;
}

/// The first chunks hold the front of the payload.
proof fn lemma_chunks_join(
    kind: ManifestArtifactKind,
    payload: Seq<u8>,
    limit: nat,
    count: nat,
    n: nat,
)
    requires
        n <= count,
    ensures
        chunk_payloads(chunks_of(kind, payload, limit, count).take(n as int)) == payload.subrange(
            0,
            chunks_end(payload.len(), limit, n) as int,
        ),
    decreases n,
{
    let chunks = chunks_of(kind, payload, limit, count);
    if n == 0 {
        assert(chunks.take(0) =~= Seq::<ChunkModel>::empty());
        assert(payload.subrange(0, 0) =~= Seq::<u8>::empty());
        assert(0 * limit == 0) by (nonlinear_arith);
        assert(chunks_end(payload.len(), limit, 0) == 0);
    } else {
        let before = (n - 1) as nat;
        lemma_chunks_join(kind, payload, limit, count, before);
        assert(chunks.take(n as int).drop_last() =~= chunks.take(before as int));
        assert(chunks.take(n as int).last() == chunk_of(kind, payload, limit, before));
        assert(before * limit <= n * limit) by (nonlinear_arith)
            requires
                before <= n,
        ;
        let (a, b) = (
            chunks_end(payload.len(), limit, before) as int,
            chunks_end(payload.len(), limit, n) as int,
        );
        assert(payload.subrange(0, a) + payload.subrange(a, b) =~= payload.subrange(0, b));
    }
}

proof fn lemma_built_chunks_are_sound(
    kind: ManifestArtifactKind,
    payload: Seq<u8>,
    item_count: u64,
    limit: nat,
    n: nat,
)
    requires
        payload.len() > 0,
        limit > 0,
        chunks_for(payload.len(), limit) <= u32::MAX,
        n <= chunks_for(payload.len(), limit),
    ensures
        first_refusal(
            artifact_of(kind, payload, item_count, limit).descriptor,
            artifact_of(kind, payload, item_count, limit).chunks,
            n,
        ) is None,
    decreases n,
{
    if n > 0 {
        lemma_built_chunks_are_sound(kind, payload, item_count, limit, (n - 1) as nat);
    }
}

/// An artifact that was built from a payload verifies, and gives the payload back.
#[verifier::spinoff_prover]
#[verifier::rlimit(40)]
pub proof fn law_artifact_reassembles(
    kind: ManifestArtifactKind,
    payload: Seq<u8>,
    item_count: u64,
    limit: nat,
)
    requires
        limit > 0,
        payload.len() <= u64::MAX,
    ensures
        built_artifact(kind, payload, item_count, limit) matches Ok(artifact) ==> verified_payload(
            artifact.descriptor,
            artifact.chunks,
        ) == Ok::<_, ManifestArtifactError>(payload),
{
    if let Ok(artifact) = built_artifact(kind, payload, item_count, limit) {
        let count = chunks_for(payload.len(), limit);
        lemma_chunks_cover(payload.len(), limit);
        lemma_chunks_join(kind, payload, limit, count, count);
        assert(artifact.chunks.take(count as int) =~= artifact.chunks);
        assert(payload.subrange(0, payload.len() as int) =~= payload);
        lemma_built_chunks_are_sound(kind, payload, item_count, limit, count);
    }
}

pub open spec fn artifact_result(result: Result<Artifact, ManifestArtifactError>) -> Result<
    ArtifactModel,
    ManifestArtifactError,
> {
    match result {
        Ok(artifact) => Ok(artifact@),
        Err(error) => Err(error),
    }
}

/// Cuts a payload into chunks of at most `chunk_limit` bytes.
pub fn build_artifact(
    kind: ManifestArtifactKind,
    payload: &[u8],
    item_count: u64,
    chunk_limit: usize,
) -> (result: Result<Artifact, ManifestArtifactError>)
    requires
        chunk_limit > 0,
    ensures
        artifact_result(result) == built_artifact(
            kind,
            payload@,
            item_count,
            chunk_limit as nat,
        ),
{
    if payload.len() == 0 {
        return Err(ManifestArtifactError::EmptyArtifactPayload(kind));
    }
    proof {
        lemma_chunks_cover(payload@.len(), chunk_limit as nat);
        vstd::arithmetic::div_mod::lemma_div_nonincreasing(
            payload@.len() - 1,
            chunk_limit as int,
        );
    }
    let total: usize = (payload.len() - 1) / chunk_limit + 1;
    if total as u64 > u32::MAX as u64 {
        return Err(ManifestArtifactError::TooManyChunks(total));
    }
    let total_chunks: u32 = total as u32;
    let ghost models = chunks_of(kind, payload@, chunk_limit as nat, total as nat);
    let mut chunks: Vec<Chunk> = Vec::new();
    let mut hashes: Vec<u8> = Vec::new();
    assert(chunk_models(chunks@) =~= models.take(0));
    assert(models.take(0) =~= Seq::<ChunkModel>::empty());
    let mut index: u32 = 0;
    let mut start: usize = 0;
    while index < total_chunks
        invariant
            index <= total_chunks,
            total_chunks == total,
            total == chunks_for(payload@.len(), chunk_limit as nat),
            chunk_limit > 0,
            payload@.len() > 0,
            models == chunks_of(kind, payload@, chunk_limit as nat, total as nat),
            chunk_models(chunks@) == models.take(index as int),
            hashes@ == hash_bytes(models.take(index as int)),
            start == chunks_end(payload@.len(), chunk_limit as nat, index as nat),
        decreases total_chunks - index,
    {
        proof {
            lemma_chunks_cover(payload@.len(), chunk_limit as nat);
            assert((index + 1) * chunk_limit == index * chunk_limit + chunk_limit)
                by (nonlinear_arith);
            assert(chunks_end(payload@.len(), chunk_limit as nat, index as nat) == index
                * chunk_limit);
        }
        let end: usize = if payload.len() - start > chunk_limit {
            start + chunk_limit
        } else {
            payload.len()
        };
        assert(end == chunks_end(payload@.len(), chunk_limit as nat, (index + 1) as nat));
        let bytes = vstd::slice::slice_subrange(payload, start, end);
        let payload_hash = chunk_digest(kind, index, total_chunks, bytes);
        let ghost before = chunks@;
        let chunk = ManifestArtifactChunk {
            kind,
            encoding_version: MANIFEST_ARTIFACT_ENCODING_VERSION,
            chunk_index: index,
            total_chunks,
            chunk_bucket: index / MANIFEST_ARTIFACT_CHUNKS_PER_BUCKET,
            payload: copy_bytes(bytes),
            payload_hash,
        };
        assert(chunk@ =~= models[index as int]);
        let ghost model = chunk@;
        push_bytes(&mut hashes, &payload_hash.0);
        chunks.push(chunk);
        proof {
            let next = models.take(index + 1);
            assert(next.drop_last() =~= models.take(index as int));
            assert(next.last() == model);
            assert(chunk_models(chunks@) =~= chunk_models(before).push(model));
            assert(chunk_models(chunks@) =~= next);
        }
        index += 1;
        start = end;
    }
    assert(models.take(total as int) =~= models);
    let descriptor = ManifestArtifactDescriptor {
        kind,
        encoding_version: MANIFEST_ARTIFACT_ENCODING_VERSION,
        chunk_count: total_chunks,
        item_count,
        encoded_bytes: payload.len() as u64,
        payload_digest: artifact_digest(kind, payload),
        chunk_set_digest: chunk_set_digest(
            kind,
            item_count,
            payload.len() as u64,
            total_chunks,
            &hashes,
        ),
    };
    let artifact = CanonicalManifestArtifact { descriptor, chunks };
    assert(artifact@ =~= artifact_of(kind, payload@, item_count, chunk_limit as nat));
    proof {
        law_artifact_reassembles(kind, payload@, item_count, chunk_limit as nat);
    }
    artifact.verify_and_reassemble()?;
    Ok(artifact)
}

proof fn lemma_no_refusal(
    descriptor: ManifestArtifactDescriptor,
    chunks: Seq<ChunkModel>,
    count: nat,
)
    ensures
        first_refusal(descriptor, chunks, count) is None <==> forall|i: int|
            0 <= i < count ==> chunk_refusal(descriptor, #[trigger] chunks[i], i) is None,
    decreases count,
{
    if count > 0 {
        lemma_no_refusal(descriptor, chunks, (count - 1) as nat);
        assert(chunks[count - 1] == chunks[count - 1]);
    }
}

/// Chunks make up a payload exactly if they are as many as the descriptor says, each is of
/// its kind and encoding, stands at its own index and in the bucket of that index, and has
/// the digest of its kind, place and bytes; and if all bytes together are as many as the
/// descriptor says and have its two digests. The payload is then the bytes of the chunks,
/// one behind the other.
#[verifier::spinoff_prover]
#[verifier::rlimit(40)]
pub proof fn law_payload_is_made_of_its_own_chunks(
    descriptor: ManifestArtifactDescriptor,
    chunks: Seq<ChunkModel>,
)
    ensures
        verified_payload(descriptor, chunks) is Ok <==> {
            let all = chunk_payloads(chunks);
            &&& chunks.len() == descriptor.chunk_count
            &&& forall|i: int|
                0 <= i < chunks.len() ==> {
                    &&& (#[trigger] chunks[i]).kind == descriptor.kind
                    &&& chunks[i].encoding_version == descriptor.encoding_version
                    &&& chunks[i].chunk_index == i
                    &&& chunks[i].total_chunks == descriptor.chunk_count
                    &&& chunks[i].chunk_bucket == i / 16
                    &&& chunks[i].payload_hash.0 == chunk_digest_of(
                        descriptor.kind,
                        i as u32,
                        descriptor.chunk_count,
                        chunks[i].payload,
                    )
                }
            &&& all.len() == descriptor.encoded_bytes
            &&& payload_digest_of(descriptor.kind, all) == descriptor.payload_digest.0
            &&& chunk_set_digest_of(
                descriptor.kind,
                descriptor.item_count,
                descriptor.encoded_bytes,
                descriptor.chunk_count,
                hash_bytes(chunks),
            ) == descriptor.chunk_set_digest.0
        },
        verified_payload(descriptor, chunks) matches Ok(payload) ==> payload == chunk_payloads(
            chunks,
        ),
{
    lemma_no_refusal(descriptor, chunks, chunks.len());
    if chunks.len() == descriptor.chunk_count && first_refusal(descriptor, chunks, chunks.len())
        is None {
        assert forall|i: int| 0 <= i < chunks.len() implies {
            &&& (#[trigger] chunks[i]).kind == descriptor.kind
            &&& chunks[i].encoding_version == descriptor.encoding_version
            &&& chunks[i].chunk_index == i
            &&& chunks[i].total_chunks == descriptor.chunk_count
            &&& chunks[i].chunk_bucket == i / 16
            &&& chunks[i].payload_hash.0 == chunk_digest_of(
                descriptor.kind,
                i as u32,
                descriptor.chunk_count,
                chunks[i].payload,
            )
        } by {
            assert(chunk_refusal(descriptor, chunks[i], i) is None);
        }
    }
}

/// What the three digests of an artifact cover: the payload's its kind and bytes, a
/// chunk's also its place, and the set's the counts and the digests of all chunks.
pub proof fn law_artifact_digests_cover_their_place(
    kind: ManifestArtifactKind,
    index: u32,
    total: u32,
    payload: Seq<u8>,
    items: u64,
    hashes: Seq<u8>,
)
    ensures
        payload_digest_of(kind, payload) == hash::sha256(
            bytes::text("psy.rollback.manifest-artifact.v1\0"@) + seq![kind.spec_code()] + (
            bytes::be_len(payload.len()) + payload),
        ),
        chunk_digest_of(kind, index, total, payload) == hash::sha256(
            bytes::text("psy.rollback.manifest-chunk.v1\0"@) + seq![kind.spec_code()] + (
            bytes::be_len(4) + bytes::be32(index)) + (bytes::be_len(4) + bytes::be32(total)) + (
            bytes::be_len(payload.len()) + payload),
        ),
        chunk_set_digest_of(kind, items, payload.len() as u64, total, hashes) == hash::sha256(
            bytes::text("psy.rollback.manifest-chunk-set.v1\0"@) + seq![kind.spec_code()] + (
            bytes::be_len(22 + hashes.len()) + (bytes::be16(1) + bytes::be32(total) + bytes::be64(
                items,
            ) + bytes::be64(payload.len() as u64) + hashes)),
        ),
{
    bytes::lemma_be_lens();
}

/// An artifact that is built has a descriptor of its own payload and chunks that are
/// stretches of that payload, each as long as the limit and the last one as long as what
/// is left, in order and in the buckets of their indices.
#[verifier::spinoff_prover]
#[verifier::rlimit(40)]
pub proof fn law_built_chunks_are_stretches(
    kind: ManifestArtifactKind,
    payload: Seq<u8>,
    item_count: u64,
    limit: nat,
    i: int,
)
    requires
        limit > 0,
        payload.len() <= u64::MAX,
    ensures
        built_artifact(kind, payload, item_count, limit) matches Ok(artifact) ==> {
            let descriptor = artifact.descriptor;
            &&& descriptor.kind == kind
            &&& descriptor.encoding_version == 1
            &&& descriptor.item_count == item_count
            &&& descriptor.encoded_bytes == payload.len()
            &&& descriptor.chunk_count == artifact.chunks.len()
            &&& payload.len() > 0
            &&& artifact.chunks.len() > 0
            &&& 0 <= i < artifact.chunks.len() ==> {
                let chunk = artifact.chunks[i];
                &&& chunk.kind == kind
                &&& chunk.encoding_version == 1
                &&& chunk.chunk_index == i
                &&& chunk.total_chunks == artifact.chunks.len()
                &&& chunk.chunk_bucket == i / 16
                &&& 0 < chunk.payload.len() <= limit
                &&& i < artifact.chunks.len() - 1 ==> chunk.payload.len() == limit
                &&& i == artifact.chunks.len() - 1 ==> i * limit + chunk.payload.len()
                    == payload.len()
                &&& forall|k: int|
                    0 <= k < chunk.payload.len() ==> #[trigger] chunk.payload[k] == payload[i
                        * limit + k]
            }
        },
        built_artifact(kind, payload, item_count, limit) is Err ==> payload.len() == 0
            || chunks_for(payload.len(), limit) > u32::MAX,
{
    if let Ok(artifact) = built_artifact(kind, payload, item_count, limit) {
        let len = payload.len();
        let count = chunks_for(len, limit);
        lemma_chunks_cover(len, limit);
        if 0 <= i < count {
            let n = i as nat;
            assert(chunks_end(len, limit, n) == n * limit && n * limit < len);
            assert((n + 1) * limit == n * limit + limit) by (nonlinear_arith);
            if n + 1 < count {
                assert(chunks_end(len, limit, n + 1) == (n + 1) * limit);
            } else {
                assert(chunks_end(len, limit, n + 1) == len);
                assert(count * limit == n * limit + limit);
            }
            assert(artifact.chunks[i] == chunk_of(kind, payload, limit, n));
        }
    }
}

/// A stored chunk is taken exactly if its kind is known, it is of the encoding, its index
/// is below its total, its bucket is that of its index, and its payload is neither empty
/// nor too long. It is taken as its columns hold it.
pub proof fn law_persisted_chunk_is_checked(
    kind: u8,
    encoding_version: u16,
    chunk_index: u32,
    total_chunks: u32,
    chunk_bucket: u32,
    payload: Seq<u8>,
    payload_hash: [u8; 32],
)
    ensures
        ({
            let read = persisted_chunk(
                kind,
                encoding_version,
                chunk_index,
                total_chunks,
                chunk_bucket,
                payload,
                payload_hash,
            );
            &&& read is Ok <==> 1 <= kind <= 3 && encoding_version == 1 && chunk_index
                < total_chunks && chunk_bucket == chunk_index / 16 && 1 <= payload.len()
                <= 4_194_304
            &&& read matches Ok(chunk) ==> {
                &&& chunk.kind.spec_code() == kind
                &&& chunk.encoding_version == encoding_version
                &&& chunk.chunk_index == chunk_index
                &&& chunk.total_chunks == total_chunks
                &&& chunk.chunk_bucket == chunk_bucket
                &&& chunk.payload == payload
                &&& chunk.payload_hash.0 == payload_hash
            }
        }),
{
}

/// The byte that stands for a kind of artifact tells the kind, and is read back as it; no
/// other byte is read.
pub proof fn law_artifact_kind_codes(kind: ManifestArtifactKind, code: u8)
    ensures
        kind.spec_code() == 1 <==> kind is Locator,
        kind.spec_code() == 2 <==> kind is ReplayRecord,
        kind.spec_code() == 3 <==> kind is DurablePreparedPayload,
        ManifestArtifactKind::of_code(kind.spec_code()) == Ok::<_, ManifestArtifactError>(kind),
        ManifestArtifactKind::of_code(code) matches Ok(read) ==> read.spec_code() == code,
        ManifestArtifactKind::of_code(code) is Err <==> code == 0 || code > 3,
{
}

} // verus!
