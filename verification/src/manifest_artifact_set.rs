//! The artifacts of one checkpoint and the summary that commits them.
//!
//! The locators of a batch, its replay record and, where the record refers to one, its
//! prepared payload become artifacts. A summary holds their descriptors. A checkpoint
//! that changes nothing has no artifacts: its summary holds the replay record itself.

use vstd::prelude::*;

use crate::bytes;
use crate::bytes::{
    array_equal, array_from, bytes_equal, copy_bytes, push_byte, push_bytes, push_u16, push_u32,
    Cursor,
};
use crate::manifest_artifact;
use crate::manifest_artifact::{
    build_artifact, Artifact, ArtifactModel, CanonicalManifestArtifact, ChunkModel,
    ManifestArtifactDescriptor, ManifestArtifactDigest, ManifestArtifactError, ManifestArtifactKind,
    ReplayPrototypeError, MANIFEST_ARTIFACT_ENCODING_VERSION, MANIFEST_ARTIFACT_MAX_CHUNK_BYTES,
};

verus! {

/// `PSLA`.
pub const LOCATOR_MAGIC: [u8; 4] = [0x50, 0x53, 0x4c, 0x41];

/// `PSAS`.
pub const ARTIFACT_SET_MAGIC: [u8; 4] = [0x50, 0x53, 0x41, 0x53];

/// `PSZR`.
pub const ZERO_MUTATION_RECEIPT_MAGIC: [u8; 4] = [0x50, 0x53, 0x5a, 0x52];

/// `PSFD`.
pub const FULL_DELTA_MAGIC: [u8; 4] = [0x50, 0x53, 0x46, 0x44];

/// How many bytes a descriptor takes in a summary.
pub const DESCRIPTOR_LEN: usize = 87;

/// Which form a replay record has.
#[derive(Clone, Copy, Debug, PartialEq, Eq, Hash, Structural)]
pub enum ReplayRecordKind {
    FullPhysicalDelta,
    PreparedReferencePlusSupplement,
}

impl ReplayRecordKind {
    pub open spec fn spec_code(self) -> u8 {
        match self {
            ReplayRecordKind::FullPhysicalDelta => 1,
            ReplayRecordKind::PreparedReferencePlusSupplement => 2,
        }
    }

    #[verifier::when_used_as_spec(spec_code)]
    pub fn code(self) -> (code: u8)
        ensures
            code == self.spec_code(),
    {
        match self {
            ReplayRecordKind::FullPhysicalDelta => 1,
            ReplayRecordKind::PreparedReferencePlusSupplement => 2,
        }
    }

    pub open spec fn of_code(code: u8) -> Result<Self, ManifestArtifactError> {
        if code == 1 {
            Ok(ReplayRecordKind::FullPhysicalDelta)
        } else if code == 2 {
            Ok(ReplayRecordKind::PreparedReferencePlusSupplement)
        } else {
            Err(ManifestArtifactError::Replay(ReplayPrototypeError::UnknownRecordKind(code)))
        }
    }

    pub fn try_from_code(code: u8) -> (result: Result<Self, ManifestArtifactError>)
        ensures
            result == Self::of_code(code),
    {
        match code {
            1 => Ok(ReplayRecordKind::FullPhysicalDelta),
            2 => Ok(ReplayRecordKind::PreparedReferencePlusSupplement),
            code => Err(
                ManifestArtifactError::Replay(ReplayPrototypeError::UnknownRecordKind(code)),
            ),
        }
    }
}

/// The physical mutations of one checkpoint: the locators of their rows, in their order,
/// with the canonical bytes and the digest of the whole.
#[derive(Clone, Debug, PartialEq, Eq)]
pub struct CanonicalPhysicalMutationBatch {
    pub locators: Vec<Vec<u8>>,
    pub canonical: Vec<u8>,
    pub digest: [u8; 32],
}

#[verifier::ext_equal]
pub struct BatchModel {
    pub locators: Seq<Seq<u8>>,
    pub canonical: Seq<u8>,
    pub digest: [u8; 32],
}

/// The views of a list of locators.
pub open spec fn locator_views(locators: Seq<Vec<u8>>) -> Seq<Seq<u8>> {
    locators.map_values(|locator: Vec<u8>| locator@)
}

impl View for CanonicalPhysicalMutationBatch {
    type V = BatchModel;

    open spec fn view(&self) -> BatchModel {
        BatchModel {
            locators: locator_views(self.locators@),
            canonical: self.canonical@,
            digest: self.digest,
        }
    }
}

/// A replay record that holds its whole batch, with its canonical bytes.
#[derive(Clone, Debug, PartialEq, Eq)]
pub struct FullPhysicalDeltaRecord {
    pub batch: CanonicalPhysicalMutationBatch,
    pub encoded: Vec<u8>,
}

/// What commits a summary, with the counts that it was made with.
#[derive(Clone, Copy, Debug, PartialEq, Eq)]
pub struct ManifestArtifactSetCommitment {
    pub commitment: [u8; 32],
    pub mutation_digest: [u8; 32],
    pub locator_chunk_count: u32,
    pub replay_chunk_count: u32,
    pub durable_payload_chunk_count: u32,
    pub affected_row_count: u64,
}

impl ManifestArtifactSetCommitment {
    pub fn same(&self, other: &Self) -> (same: bool)
        ensures
            same == (*self == *other),
    {
        array_equal::<32>(&self.commitment, &other.commitment) && array_equal::<32>(
            &self.mutation_digest,
            &other.mutation_digest,
        ) && self.locator_chunk_count == other.locator_chunk_count && self.replay_chunk_count
            == other.replay_chunk_count && self.durable_payload_chunk_count
            == other.durable_payload_chunk_count && self.affected_row_count
            == other.affected_row_count
    }

    /// Whether the commitment counts nothing.
    pub open spec fn spec_counts_nothing(self) -> bool {
        self.affected_row_count == 0 && self.locator_chunk_count == 0 && self.replay_chunk_count
            == 0 && self.durable_payload_chunk_count == 0
    }

    fn counts_nothing(&self) -> (nothing: bool)
        ensures
            nothing == self.spec_counts_nothing(),
    {
        self.affected_row_count == 0 && self.locator_chunk_count == 0 && self.replay_chunk_count
            == 0 && self.durable_payload_chunk_count == 0
    }
}

/// `a` sorts before `b`, byte by byte; a proper beginning of `b` does too.
pub open spec fn precedes(a: Seq<u8>, b: Seq<u8>) -> bool
    decreases b.len(),
{
    if b.len() == 0 {
        false
    } else if a.len() == 0 {
        true
    } else {
        a[0] < b[0] || (a[0] == b[0] && precedes(a.drop_first(), b.drop_first()))
    }
}

pub fn sorts_before(a: &[u8], b: &[u8]) -> (before: bool)
    ensures
        before == precedes(a@, b@),
{
    let mut i: usize = 0;
    assert(a@.skip(0) =~= a@);
    assert(b@.skip(0) =~= b@);
    while i < a.len() && i < b.len()
        invariant
            i <= a@.len(),
            i <= b@.len(),
            precedes(a@, b@) == precedes(a@.skip(i as int), b@.skip(i as int)),
        decreases a@.len() - i,
    {
        proof {
            assert(a@.skip(i as int)[0] == a@[i as int]);
            assert(b@.skip(i as int)[0] == b@[i as int]);
            assert(a@.skip(i as int).drop_first() =~= a@.skip(i + 1));
            assert(b@.skip(i as int).drop_first() =~= b@.skip(i + 1));
        }
        if a[i] != b[i] {
            return a[i] < b[i];
        }
        i += 1;
    }
    i < b.len()
}

/// No two locators are equal, and each sorts before the next.
pub open spec fn in_order(locators: Seq<Seq<u8>>) -> bool {
    forall|i: int| 0 < i < locators.len() ==> precedes(locators[i - 1], #[trigger] locators[i])
}

pub open spec fn locator_entries(locators: Seq<Seq<u8>>) -> Seq<u8>
    decreases locators.len(),
{
    if locators.len() == 0 {
        Seq::empty()
    } else {
        locator_entries(locators.drop_last()) + bytes::counted(locators.last())
    }
}

pub open spec fn locator_front(count: u32) -> Seq<u8> {
    LOCATOR_MAGIC@ + bytes::be16(MANIFEST_ARTIFACT_ENCODING_VERSION) + bytes::be32(count)
}

/// The payload of the locator artifact.
pub open spec fn locator_payload(locators: Seq<Seq<u8>>) -> Result<
    Seq<u8>,
    ManifestArtifactError,
> {
    if locators.len() > u32::MAX {
        Err(ManifestArtifactError::TooManyLocatorEntries(locators.len() as usize))
    } else if !in_order(locators) {
        Err(ManifestArtifactError::NonCanonicalLocatorOrdering)
    } else {
        Ok(locator_front(locators.len() as u32) + locator_entries(locators))
    }
}

pub fn encode_locator_artifact(locators: &Vec<Vec<u8>>) -> (result: Result<
    Vec<u8>,
    ManifestArtifactError,
>)
    ensures
        manifest_artifact::payload_result(result) == locator_payload(locator_views(locators@)),
{
    let ghost views = locator_views(locators@);
    if locators.len() as u64 > u32::MAX as u64 {
        return Err(ManifestArtifactError::TooManyLocatorEntries(locators.len()));
    }
    let mut out: Vec<u8> = copy_bytes(&LOCATOR_MAGIC);
    push_u16(&mut out, MANIFEST_ARTIFACT_ENCODING_VERSION);
    push_u32(&mut out, locators.len() as u32);
    let ghost front = locator_front(locators@.len() as u32);
    assert(views.take(0) =~= Seq::<Seq<u8>>::empty());
    assert(out@ =~= front + locator_entries(views.take(0)));
    let mut i: usize = 0;
    while i < locators.len()
        invariant
            i <= locators@.len() <= u32::MAX,
            views == locator_views(locators@),
            front == locator_front(locators@.len() as u32),
            out@ == front + locator_entries(views.take(i as int)),
            forall|k: int| 0 < k < i ==> precedes(views[k - 1], #[trigger] views[k]),
        decreases locators@.len() - i,
    {
        let ghost before = out@;
        if i > 0 && !sorts_before(&locators[i - 1], &locators[i]) {
            assert(!precedes(views[i - 1], views[i as int]));
            return Err(ManifestArtifactError::NonCanonicalLocatorOrdering);
        }
        push_u32(&mut out, #[verifier::truncate] (locators[i].len() as u32));
        push_bytes(&mut out, &locators[i]);
        proof {
            let next = views.take(i + 1);
            assert(next.drop_last() =~= views.take(i as int));
            assert(next.last() == locators@[i as int]@);
            assert(out@ =~= before + bytes::counted(locators@[i as int]@));
            assert(out@ =~= front + locator_entries(next));
        }
        i += 1;
    }
    assert(views.take(locators@.len() as int) =~= views);
    Ok(out)
}

/// The first `count` locators of a payload, and where they end.
pub open spec fn locators_at(payload: Seq<u8>, count: nat) -> Result<
    (Seq<Seq<u8>>, int),
    ManifestArtifactError,
>
    decreases count,
{
    if count == 0 {
        Ok((Seq::empty(), 10))
    } else {
        match locators_at(payload, (count - 1) as nat) {
            Err(error) => Err(error),
            Ok((locators, at)) => match bytes::counted_at(payload, at) {
                None => Err(ManifestArtifactError::InvalidLocatorEncoding),
                Some((locator, end)) => if locators.len() > 0 && !precedes(
                    locators.last(),
                    locator,
                ) {
                    Err(ManifestArtifactError::NonCanonicalLocatorOrdering)
                } else {
                    Ok((locators.push(locator), end))
                },
            },
        }
    }
}

proof fn lemma_locators_fail(payload: Seq<u8>, fewer: nat, count: nat)
    requires
        fewer <= count,
        locators_at(payload, fewer) is Err,
    ensures
        locators_at(payload, count) == locators_at(payload, fewer),
    decreases count,
{
    if fewer < count {
        lemma_locators_fail(payload, fewer, (count - 1) as nat);
    }
}

proof fn lemma_locators_len(payload: Seq<u8>, count: nat)
    ensures
        locators_at(payload, count) matches Ok((locators, _)) ==> locators.len() == count,
    decreases count,
{
    if count > 0 {
        lemma_locators_len(payload, (count - 1) as nat);
    }
}

/// The locators in the payload of a locator artifact.
pub open spec fn decoded_locators(payload: Seq<u8>, expected_rows: u64) -> Result<
    Seq<Seq<u8>>,
    ManifestArtifactError,
> {
    if payload.len() < 10 || payload.subrange(0, 4) != LOCATOR_MAGIC@ {
        Err(ManifestArtifactError::InvalidLocatorEncoding)
    } else if bytes::u16_at(payload, 4) != MANIFEST_ARTIFACT_ENCODING_VERSION {
        Err(ManifestArtifactError::UnknownEncodingVersion(bytes::u16_at(payload, 4)))
    } else if bytes::u32_at(payload, 6) != expected_rows {
        Err(
            ManifestArtifactError::LocatorCountMismatch {
                expected: expected_rows,
                actual: bytes::u32_at(payload, 6) as u64,
            },
        )
    } else {
        match locators_at(payload, bytes::u32_at(payload, 6) as nat) {
            Err(error) => Err(error),
            Ok((locators, end)) => if end != payload.len() {
                Err(ManifestArtifactError::InvalidLocatorEncoding)
            } else {
                Ok(locators)
            },
        }
    }
}

/// Checks the payload of a locator artifact.
pub fn decode_locator_artifact(payload: &[u8], expected_rows: u64) -> (result: Result<
    (),
    ManifestArtifactError,
>)
    ensures
        match decoded_locators(payload@, expected_rows) {
            Ok(_) => result is Ok,
            Err(error) => result == Err::<(), ManifestArtifactError>(error),
        },
{
    let mut cursor = Cursor::new(payload);
    if payload.len() < 10 {
        return Err(ManifestArtifactError::InvalidLocatorEncoding);
    }
    match cursor.take(4) {
        Some(magic) => {
            if !bytes_equal(magic, &LOCATOR_MAGIC) {
                return Err(ManifestArtifactError::InvalidLocatorEncoding);
            }
        },
        None => return Err(ManifestArtifactError::InvalidLocatorEncoding),
    }
    let version: u16 = match cursor.u16() {
        Some(version) => version,
        None => return Err(ManifestArtifactError::InvalidLocatorEncoding),
    };
    if version != MANIFEST_ARTIFACT_ENCODING_VERSION {
        return Err(ManifestArtifactError::UnknownEncodingVersion(version));
    }
    let count: u32 = match cursor.u32() {
        Some(count) => count,
        None => return Err(ManifestArtifactError::InvalidLocatorEncoding),
    };
    if count as u64 != expected_rows {
        return Err(
            ManifestArtifactError::LocatorCountMismatch {
                expected: expected_rows,
                actual: count as u64,
            },
        );
    }
    let mut previous: Option<&[u8]> = None;
    let mut i: u32 = 0;
    while i < count
        invariant
            i <= count,
            cursor.wf(),
            cursor.bytes@ == payload@,
            payload@.len() >= 10,
            payload@.subrange(0, 4) == LOCATOR_MAGIC@,
            bytes::u16_at(payload@, 4) == MANIFEST_ARTIFACT_ENCODING_VERSION,
            bytes::u32_at(payload@, 6) == count,
            count == expected_rows,
            locators_at(payload@, i as nat) matches Ok((locators, at)) && at == cursor.offset
                && locators.len() == i && match previous {
                Some(last) => locators.len() > 0 && last@ == locators.last(),
                None => locators.len() == 0,
            },
        decreases count - i,
    {
        proof {
            let reached = (i + 1) as nat;
            if locators_at(payload@, reached) is Err {
                lemma_locators_fail(payload@, reached, count as nat);
            }
        }
        let locator = match cursor.counted() {
            Some(locator) => locator,
            None => return Err(ManifestArtifactError::InvalidLocatorEncoding),
        };
        match previous {
            Some(last) => {
                if !sorts_before(last, locator) {
                    return Err(ManifestArtifactError::NonCanonicalLocatorOrdering);
                }
            },
            None => {},
        }
        previous = Some(locator);
        i += 1;
    }
    if !cursor.is_empty() {
        return Err(ManifestArtifactError::InvalidLocatorEncoding);
    }
    Ok(())
}

proof fn lemma_locators_read_back(locators: Seq<Seq<u8>>, n: nat, payload: Seq<u8>)
    requires
        in_order(locators),
        forall|i: int| 0 <= i < locators.len() ==> (#[trigger] locators[i]).len() <= u32::MAX,
        n <= locators.len() <= u32::MAX,
        payload == locator_front(locators.len() as u32) + locator_entries(locators),
    ensures
        locators_at(payload, n) == Ok::<_, ManifestArtifactError>(
            (locators.take(n as int), 10 + locator_entries(locators.take(n as int)).len() as int),
        ),
        n < locators.len() ==> {
            let at = 10 + locator_entries(locators.take(n as int)).len() as int;
            bytes::counted_at(payload, at) == Some(
                (locators[n as int], at + 4 + locators[n as int].len() as int),
            )
        },
    decreases n,
{
    bytes::lemma_be_lens();
    if n == 0 {
        assert(locators.take(0) =~= Seq::<Seq<u8>>::empty());
    } else {
        let before = (n - 1) as nat;
        lemma_locators_read_back(locators, before, payload);
        let next = locators.take(n as int);
        assert(next.drop_last() =~= locators.take(before as int));
        assert(next.last() == locators[before as int]);
        assert(next =~= locators.take(before as int).push(locators[before as int]));
        if before > 0 {
            assert(locators.take(before as int).last() == locators[before - 1]);
            assert(precedes(locators[before - 1], locators[before as int]));
        }
    }
    if n < locators.len() {
        lemma_entries_split(locators, n);
        let front = locator_front(locators.len() as u32);
        let at = 10 + locator_entries(locators.take(n as int)).len() as int;
        let locator = locators[n as int];
        let behind = locator_entries(locators).subrange(
            at - 10 + 4 + locator.len(),
            locator_entries(locators).len() as int,
        );
        assert(payload.subrange(at, at + 4 + locator.len()) =~= bytes::counted(locator));
        bytes::lemma_counted(payload, at, locator);
    }
}

/// Every locator stands in the entries behind those before it.
proof fn lemma_entries_split(locators: Seq<Seq<u8>>, n: nat)
    requires
        n < locators.len(),
    ensures
        ({
            let at = locator_entries(locators.take(n as int)).len() as int;
            let end = at + bytes::counted(locators[n as int]).len();
            &&& end <= locator_entries(locators).len()
            &&& locator_entries(locators).subrange(at, end) == bytes::counted(locators[n as int])
        }),
    decreases locators.len(),
{
    let rest = locators.drop_last();
    let at = locator_entries(locators.take(n as int)).len() as int;
    let end = at + bytes::counted(locators[n as int]).len();
    if n == rest.len() {
        assert(locators.take(n as int) =~= rest);
        assert(locator_entries(locators).subrange(at, end) =~= bytes::counted(
            locators[n as int],
        ));
    } else {
        lemma_entries_split(rest, n);
        assert(rest.take(n as int) =~= locators.take(n as int));
        assert(locator_entries(locators).subrange(at, end) =~= locator_entries(rest).subrange(
            at,
            end,
        ));
    }
}

/// The locators of a batch read back from the payload of their artifact.
#[verifier::spinoff_prover]
#[verifier::rlimit(40)]
pub proof fn law_locators_round_trip(locators: Seq<Seq<u8>>)
    requires
        forall|i: int| 0 <= i < locators.len() ==> (#[trigger] locators[i]).len() <= u32::MAX,
    ensures
        locator_payload(locators) matches Ok(payload) ==> decoded_locators(
            payload,
            locators.len() as u64,
        ) == Ok::<_, ManifestArtifactError>(locators),
{
    if let Ok(payload) = locator_payload(locators) {
        let front = locator_front(locators.len() as u32);
        lemma_locators_read_back(locators, locators.len(), payload);
        assert(locators.take(locators.len() as int) =~= locators);
        lemma_locator_front(locators.len() as u32);
        assert(payload.subrange(0, 10) =~= front);
        bytes::lemma_read_in_front(front, payload);
        assert(payload.subrange(0, 4) =~= front.subrange(0, 4));
    }
}

proof fn lemma_locator_front(count: u32)
    ensures
        locator_front(count).len() == 10,
        locator_front(count).subrange(0, 4) == LOCATOR_MAGIC@,
        bytes::u16_at(locator_front(count), 4) == MANIFEST_ARTIFACT_ENCODING_VERSION,
        bytes::u32_at(locator_front(count), 6) == count,
{
    bytes::lemma_be_lens();
    let front = locator_front(count);
    assert(front.subrange(0, 4) =~= LOCATOR_MAGIC@);
    assert(front.subrange(4, 6) =~= bytes::be16(MANIFEST_ARTIFACT_ENCODING_VERSION));
    assert(front.subrange(6, 10) =~= bytes::be32(count));
    bytes::lemma_write_then_read(front, 4);
    bytes::lemma_write_then_read(front, 6);
}

/// What stands before the descriptors of a summary.
pub open spec fn summary_front(
    replay_record_kind: ReplayRecordKind,
    mutation_digest: [u8; 32],
    count: u8,
) -> Seq<u8> {
    ARTIFACT_SET_MAGIC@ + bytes::be16(MANIFEST_ARTIFACT_ENCODING_VERSION) + seq![
        replay_record_kind.spec_code(),
    ] + mutation_digest@ + seq![count]
}

/// The summary of a set of artifacts.
pub open spec fn artifact_set_summary(
    replay_record_kind: ReplayRecordKind,
    mutation_digest: [u8; 32],
    locator: ManifestArtifactDescriptor,
    replay: ManifestArtifactDescriptor,
    durable_payload: Option<ManifestArtifactDescriptor>,
) -> Seq<u8> {
    let two = manifest_artifact::descriptor_bytes(locator) + manifest_artifact::descriptor_bytes(
        replay,
    );
    match durable_payload {
        None => summary_front(replay_record_kind, mutation_digest, 2) + two,
        Some(payload) => summary_front(replay_record_kind, mutation_digest, 3) + two
            + manifest_artifact::descriptor_bytes(payload),
    }
}

pub fn encode_artifact_set_summary(
    replay_record_kind: ReplayRecordKind,
    mutation_digest: [u8; 32],
    locator: ManifestArtifactDescriptor,
    replay: ManifestArtifactDescriptor,
    durable_payload: Option<ManifestArtifactDescriptor>,
) -> (summary: Vec<u8>)
    ensures
        summary@ == artifact_set_summary(
            replay_record_kind,
            mutation_digest,
            locator,
            replay,
            durable_payload,
        ),
{
    let mut out: Vec<u8> = copy_bytes(&ARTIFACT_SET_MAGIC);
    push_u16(&mut out, MANIFEST_ARTIFACT_ENCODING_VERSION);
    push_byte(&mut out, replay_record_kind.code());
    push_bytes(&mut out, &mutation_digest);
    push_byte(
        &mut out,
        match durable_payload {
            Some(_) => 3,
            None => 2,
        },
    );
    locator.encode_into(&mut out);
    replay.encode_into(&mut out);
    match durable_payload {
        Some(payload) => payload.encode_into(&mut out),
        None => {},
    }
    assert(out@ =~= artifact_set_summary(
        replay_record_kind,
        mutation_digest,
        locator,
        replay,
        durable_payload,
    ));
    out
}

/// The descriptor that stands in a summary at `at`.
pub open spec fn descriptor_at(summary: Seq<u8>, at: int) -> Result<
    ManifestArtifactDescriptor,
    ManifestArtifactError,
> {
    if at + DESCRIPTOR_LEN > summary.len() {
        Err(ManifestArtifactError::InvalidArtifactSummaryEncoding)
    } else {
        match ManifestArtifactKind::of_code(bytes::u8_at(summary, at)) {
            Err(error) => Err(error),
            Ok(kind) => if bytes::u16_at(summary, at + 1) != MANIFEST_ARTIFACT_ENCODING_VERSION {
                Err(ManifestArtifactError::UnknownEncodingVersion(bytes::u16_at(summary, at + 1)))
            } else if bytes::u32_at(summary, at + 3) == 0 || bytes::u64_at(summary, at + 15) == 0 {
                Err(ManifestArtifactError::InvalidArtifactDescriptor)
            } else {
                Ok(
                    ManifestArtifactDescriptor {
                        kind,
                        encoding_version: bytes::u16_at(summary, at + 1),
                        chunk_count: bytes::u32_at(summary, at + 3),
                        item_count: bytes::u64_at(summary, at + 7),
                        encoded_bytes: bytes::u64_at(summary, at + 15),
                        payload_digest: ManifestArtifactDigest(bytes::digest_at(summary, at + 23)),
                        chunk_set_digest: ManifestArtifactDigest(
                            bytes::digest_at(summary, at + 55),
                        ),
                    },
                )
            },
        }
    }
}

fn summary_part<T>(read: Option<T>) -> (result: Result<T, ManifestArtifactError>)
    ensures
        result == match read {
            Some(value) => Ok::<T, ManifestArtifactError>(value),
            None => Err(ManifestArtifactError::InvalidArtifactSummaryEncoding),
        },
{
    match read {
        Some(value) => Ok(value),
        None => Err(ManifestArtifactError::InvalidArtifactSummaryEncoding),
    }
}

/// Reads the descriptor that the cursor stands at. A refusal leaves the cursor where it
/// was; a success moves it behind exactly the bytes that the descriptor encodes to.
fn decode_artifact_descriptor(cursor: &mut Cursor<'_>) -> (result: Result<
    ManifestArtifactDescriptor,
    ManifestArtifactError,
>)
    requires
        old(cursor).wf(),
    ensures
        result == descriptor_at(old(cursor).bytes@, old(cursor).offset as int),
        final(cursor).wf(),
        final(cursor).bytes@ == old(cursor).bytes@,
        result is Err ==> final(cursor).offset == old(cursor).offset,
        result matches Ok(descriptor) ==> {
            &&& final(cursor).offset == old(cursor).offset + DESCRIPTOR_LEN
            &&& descriptor_valid(descriptor)
            &&& manifest_artifact::descriptor_bytes(descriptor) == old(cursor).bytes@.subrange(
                old(cursor).offset as int,
                final(cursor).offset as int,
            )
        },
{
    proof {
        law_decoded_descriptor_is_canonical(cursor.bytes@, cursor.offset as int);
    }
    if cursor.bytes.len() - cursor.offset < DESCRIPTOR_LEN {
        return Err(ManifestArtifactError::InvalidArtifactSummaryEncoding);
    }
    let mut reader = Cursor { bytes: cursor.bytes, offset: cursor.offset };
    let kind = ManifestArtifactKind::try_from_code(summary_part(reader.u8())?)?;
    let encoding_version: u16 = summary_part(reader.u16())?;
    if encoding_version != MANIFEST_ARTIFACT_ENCODING_VERSION {
        return Err(ManifestArtifactError::UnknownEncodingVersion(encoding_version));
    }
    let chunk_count: u32 = summary_part(reader.u32())?;
    let item_count: u64 = summary_part(reader.u64())?;
    let encoded_bytes: u64 = summary_part(reader.u64())?;
    if chunk_count == 0 || encoded_bytes == 0 {
        return Err(ManifestArtifactError::InvalidArtifactDescriptor);
    }
    let payload_digest = ManifestArtifactDigest(summary_part(reader.array_32())?);
    let chunk_set_digest = ManifestArtifactDigest(summary_part(reader.array_32())?);
    cursor.offset = reader.offset;
    Ok(
        ManifestArtifactDescriptor {
            kind,
            encoding_version,
            chunk_count,
            item_count,
            encoded_bytes,
            payload_digest,
            chunk_set_digest,
        },
    )
}

/// What the codec makes of an empty batch, by its view.
pub open spec fn empty_view(empty: Result<&CanonicalPhysicalMutationBatch, String>) -> Result<
    BatchModel,
    String,
> {
    match empty {
        Ok(batch) => Ok(batch@),
        Err(refused) => Err(refused),
    }
}

/// The operational actions of a record are known ones, each once, in their order.
pub open spec fn actions_valid(record: Seq<u8>, end: int) -> bool {
    &&& forall|i: int| 26 <= i < end ==> 1 <= #[trigger] record[i] <= 3
    &&& forall|i: int| 26 < i < end ==> record[i - 1] < #[trigger] record[i]
}

fn actions_are_valid(record: &[u8], end: usize) -> (valid: bool)
    requires
        26 <= end <= record@.len(),
    ensures
        valid == actions_valid(record@, end as int),
{
    let mut i: usize = 26;
    while i < end
        invariant
            26 <= i <= end <= record@.len(),
            forall|k: int| 26 <= k < i ==> 1 <= #[trigger] record@[k] <= 3,
            forall|k: int| 26 < k < i ==> record@[k - 1] < #[trigger] record@[k],
        decreases end - i,
    {
        if record[i] < 1 || record[i] > 3 {
            assert(!(1 <= record@[i as int] <= 3));
            return false;
        }
        if i > 26 && record[i - 1] >= record[i] {
            assert(!(record@[i - 1] < record@[i as int]));
            return false;
        }
        i += 1;
    }
    true
}

/// Whether a replay record is one of a checkpoint that changes nothing. It may keep
/// operational actions, but its counts and its batch have to be empty. `empty` is the
/// empty batch.
pub open spec fn zero_record(
    record: Seq<u8>,
    mutation_digest: [u8; 32],
    empty: Result<BatchModel, String>,
) -> Result<(), ManifestArtifactError> {
    let actions_end = 26 + bytes::u16_at(record, 24);
    let batch_start = actions_end + 4;
    if record.len() < 40 || record.subrange(0, 4) != FULL_DELTA_MAGIC@ || bytes::u16_at(record, 4)
        != 1 || bytes::u8_at(record, 6) != ReplayRecordKind::FullPhysicalDelta.spec_code() || !(
    bytes::u8_at(record, 7) == 1 || bytes::u8_at(record, 7) == 2) || bytes::u32_at(record, 16) != 0
        || bytes::u32_at(record, 20) != 0 {
        Err(ManifestArtifactError::InvalidZeroMutationReceipt)
    } else if batch_start > record.len() || !actions_valid(record, actions_end) || batch_start
        + bytes::u32_at(record, actions_end) != record.len() {
        Err(ManifestArtifactError::InvalidZeroMutationReceipt)
    } else {
        match empty {
            Err(refused) => Err(
                ManifestArtifactError::Replay(ReplayPrototypeError::Refused(refused)),
            ),
            Ok(batch) => if record.subrange(batch_start, record.len() as int) != batch.canonical
                || mutation_digest != batch.digest {
                Err(ManifestArtifactError::InvalidZeroMutationReceipt)
            } else {
                Ok(())
            },
        }
    }
}

fn number_at_16(bytes: &[u8], at: usize) -> (value: u16)
    requires
        at + 2 <= bytes@.len(),
    ensures
        value == bytes::u16_at(bytes@, at as int),
{
    let mut cursor = Cursor { bytes, offset: at };
    match cursor.u16() {
        Some(value) => value,
        None => 0,
    }
}

fn number_at_32(bytes: &[u8], at: usize) -> (value: u32)
    requires
        at + 4 <= bytes@.len(),
    ensures
        value == bytes::u32_at(bytes@, at as int),
{
    let mut cursor = Cursor { bytes, offset: at };
    match cursor.u32() {
        Some(value) => value,
        None => 0,
    }
}

pub fn validate_zero_mutation_replay_record(
    record: &[u8],
    mutation_digest: [u8; 32],
    empty: Result<&CanonicalPhysicalMutationBatch, String>,
) -> (result: Result<(), ManifestArtifactError>)
    ensures
        result == zero_record(record@, mutation_digest, empty_view(empty)),
{
    if record.len() < 40 {
        return Err(ManifestArtifactError::InvalidZeroMutationReceipt);
    }
    let magic = vstd::slice::slice_subrange(record, 0, 4);
    if !bytes_equal(magic, &FULL_DELTA_MAGIC) || number_at_16(record, 4) != 1 || record[6]
        != ReplayRecordKind::FullPhysicalDelta.code() || !(record[7] == 1 || record[7] == 2)
        || number_at_32(record, 16) != 0 || number_at_32(record, 20) != 0 {
        return Err(ManifestArtifactError::InvalidZeroMutationReceipt);
    }
    let action_count: usize = number_at_16(record, 24) as usize;
    let actions_end: usize = 26 + action_count;
    let batch_start: usize = actions_end + 4;
    if batch_start > record.len() {
        return Err(ManifestArtifactError::InvalidZeroMutationReceipt);
    }
    if !actions_are_valid(record, actions_end) {
        return Err(ManifestArtifactError::InvalidZeroMutationReceipt);
    }
    let batch_len: u32 = number_at_32(record, actions_end);
    if (record.len() - batch_start) as u64 != batch_len as u64 {
        return Err(ManifestArtifactError::InvalidZeroMutationReceipt);
    }
    let batch = match empty {
        Err(refused) => {
            return Err(ManifestArtifactError::Replay(ReplayPrototypeError::Refused(refused)));
        },
        Ok(batch) => batch,
    };
    let stored = vstd::slice::slice_subrange(record, batch_start, record.len());
    if !bytes_equal(stored, &batch.canonical) || !array_equal::<32>(
        &mutation_digest,
        &batch.digest,
    ) {
        return Err(ManifestArtifactError::InvalidZeroMutationReceipt);
    }
    Ok(())
}

/// What a summary plans: which artifacts belong to it, or the record of a checkpoint
/// that changes nothing.
#[verifier::ext_equal]
#[allow(inconsistent_fields)]
#[derive(Clone, Debug, PartialEq, Eq)]
pub enum DecodedManifestArtifactPlan<B> {
    Chunked {
        replay_record_kind: ReplayRecordKind,
        mutation_digest: [u8; 32],
        locator: ManifestArtifactDescriptor,
        replay_record: ManifestArtifactDescriptor,
        durable_prepared_payload: Option<ManifestArtifactDescriptor>,
    },
    ZeroMutation { mutation_digest: [u8; 32], replay_record: B },
}

pub type ArtifactPlan = DecodedManifestArtifactPlan<Vec<u8>>;

pub type ArtifactPlanModel = DecodedManifestArtifactPlan<Seq<u8>>;

impl View for DecodedManifestArtifactPlan<Vec<u8>> {
    type V = DecodedManifestArtifactPlan<Seq<u8>>;

    open spec fn view(&self) -> DecodedManifestArtifactPlan<Seq<u8>> {
        match *self {
            DecodedManifestArtifactPlan::Chunked {
                replay_record_kind,
                mutation_digest,
                locator,
                replay_record,
                durable_prepared_payload,
            } => DecodedManifestArtifactPlan::Chunked {
                replay_record_kind,
                mutation_digest,
                locator,
                replay_record,
                durable_prepared_payload,
            },
            DecodedManifestArtifactPlan::ZeroMutation { mutation_digest, replay_record } => {
                DecodedManifestArtifactPlan::ZeroMutation {
                    mutation_digest,
                    replay_record: replay_record@,
                }
            },
        }
    }
}

impl DecodedManifestArtifactPlan<Vec<u8>> {
    pub fn mutation_digest(&self) -> (digest: &[u8; 32])
        ensures
            match self@ {
                DecodedManifestArtifactPlan::Chunked { mutation_digest, .. } => *digest
                    == mutation_digest,
                DecodedManifestArtifactPlan::ZeroMutation { mutation_digest, .. } => *digest
                    == mutation_digest,
            },
    {
        match self {
            DecodedManifestArtifactPlan::Chunked { mutation_digest, .. } => mutation_digest,
            DecodedManifestArtifactPlan::ZeroMutation { mutation_digest, .. } => mutation_digest,
        }
    }

    pub fn locator(&self) -> (descriptor: Option<ManifestArtifactDescriptor>)
        ensures
            descriptor == match self@ {
                DecodedManifestArtifactPlan::Chunked { locator, .. } => Some(locator),
                DecodedManifestArtifactPlan::ZeroMutation { .. } => None,
            },
    {
        match self {
            DecodedManifestArtifactPlan::Chunked { locator, .. } => Some(*locator),
            DecodedManifestArtifactPlan::ZeroMutation { .. } => None,
        }
    }

    pub fn replay_record(&self) -> (descriptor: Option<ManifestArtifactDescriptor>)
        ensures
            descriptor == match self@ {
                DecodedManifestArtifactPlan::Chunked { replay_record, .. } => Some(replay_record),
                DecodedManifestArtifactPlan::ZeroMutation { .. } => None,
            },
    {
        match self {
            DecodedManifestArtifactPlan::Chunked { replay_record, .. } => Some(*replay_record),
            DecodedManifestArtifactPlan::ZeroMutation { .. } => None,
        }
    }

    pub fn durable_prepared_payload(&self) -> (descriptor: Option<ManifestArtifactDescriptor>)
        ensures
            descriptor == match self@ {
                DecodedManifestArtifactPlan::Chunked { durable_prepared_payload, .. } => {
                    durable_prepared_payload
                },
                DecodedManifestArtifactPlan::ZeroMutation { .. } => None,
            },
    {
        match self {
            DecodedManifestArtifactPlan::Chunked { durable_prepared_payload, .. } => {
                *durable_prepared_payload
            },
            DecodedManifestArtifactPlan::ZeroMutation { .. } => None,
        }
    }

    pub fn zero_mutation_replay_record(&self) -> (record: Option<&[u8]>)
        ensures
            match (self@, record) {
                (
                    DecodedManifestArtifactPlan::ZeroMutation { replay_record, .. },
                    Some(found),
                ) => found@ == replay_record,
                (DecodedManifestArtifactPlan::Chunked { .. }, None) => true,
                _ => false,
            },
    {
        match self {
            DecodedManifestArtifactPlan::ZeroMutation { replay_record, .. } => Some(
                replay_record.as_slice(),
            ),
            DecodedManifestArtifactPlan::Chunked { .. } => None,
        }
    }
}

/// The descriptors of a plan are those that its commitment counts.
pub open spec fn descriptors_counted(
    locator: ManifestArtifactDescriptor,
    replay_record: ManifestArtifactDescriptor,
    durable_payload: Option<ManifestArtifactDescriptor>,
    mutation_digest: [u8; 32],
    commitment: ManifestArtifactSetCommitment,
) -> bool {
    &&& locator.kind == ManifestArtifactKind::Locator
    &&& replay_record.kind == ManifestArtifactKind::ReplayRecord
    &&& durable_payload matches Some(payload) ==> payload.kind
        == ManifestArtifactKind::DurablePreparedPayload
    &&& locator.item_count == commitment.affected_row_count
    &&& replay_record.item_count == commitment.affected_row_count
    &&& locator.chunk_count == commitment.locator_chunk_count
    &&& replay_record.chunk_count == commitment.replay_chunk_count
    &&& match durable_payload {
        Some(payload) => payload.chunk_count == commitment.durable_payload_chunk_count,
        None => commitment.durable_payload_chunk_count == 0,
    }
    &&& mutation_digest == commitment.mutation_digest
}

/// The plan of a checkpoint that changes nothing.
pub open spec fn zero_plan(
    summary: Seq<u8>,
    commitment: ManifestArtifactSetCommitment,
    empty: Result<BatchModel, String>,
) -> Result<ArtifactPlanModel, ManifestArtifactError> {
    if summary.len() < 43 {
        Err(ManifestArtifactError::InvalidZeroMutationReceipt)
    } else if bytes::u16_at(summary, 4) != MANIFEST_ARTIFACT_ENCODING_VERSION {
        Err(ManifestArtifactError::UnknownEncodingVersion(bytes::u16_at(summary, 4)))
    } else if bytes::u8_at(summary, 6) != ReplayRecordKind::FullPhysicalDelta.spec_code() {
        Err(ManifestArtifactError::InvalidZeroMutationReceipt)
    } else if 43 + bytes::u32_at(summary, 39) > usize::MAX {
        Err(
            ManifestArtifactError::ZeroMutationReceiptTooLarge(
                bytes::u32_at(summary, 39) as usize,
            ),
        )
    } else if summary.len() != 43 + bytes::u32_at(summary, 39) || bytes::digest_at(summary, 7)
        != commitment.mutation_digest || !commitment.spec_counts_nothing() {
        Err(ManifestArtifactError::InvalidZeroMutationReceipt)
    } else {
        let record = summary.subrange(43, summary.len() as int);
        match zero_record(record, bytes::digest_at(summary, 7), empty) {
            Err(error) => Err(error),
            Ok(_) => Ok(
                DecodedManifestArtifactPlan::ZeroMutation {
                    mutation_digest: bytes::digest_at(summary, 7),
                    replay_record: record,
                },
            ),
        }
    }
}

pub open spec fn begins_with(summary: Seq<u8>, magic: [u8; 4]) -> bool {
    summary.len() >= 4 && summary.subrange(0, 4) == magic@
}

/// The plan of a summary of artifacts.
pub open spec fn chunked_plan(summary: Seq<u8>, commitment: ManifestArtifactSetCommitment) -> Result<
    ArtifactPlanModel,
    ManifestArtifactError,
> {
    let mutation_digest = bytes::digest_at(summary, 7);
    let count = bytes::u8_at(summary, 39);
    if !begins_with(summary, ARTIFACT_SET_MAGIC) || summary.len() < 40 {
        Err(ManifestArtifactError::InvalidArtifactSummaryEncoding)
    } else if bytes::u16_at(summary, 4) != MANIFEST_ARTIFACT_ENCODING_VERSION {
        Err(ManifestArtifactError::UnknownEncodingVersion(bytes::u16_at(summary, 4)))
    } else {
        match ReplayRecordKind::of_code(bytes::u8_at(summary, 6)) {
            Err(error) => Err(error),
            Ok(replay_record_kind) => if count != 2 && count != 3 {
                Err(ManifestArtifactError::InvalidArtifactSummaryEncoding)
            } else {
                match descriptor_at(summary, 40) {
                    Err(error) => Err(error),
                    Ok(locator) => match descriptor_at(summary, 127) {
                        Err(error) => Err(error),
                        Ok(replay_record) => if count == 3 && descriptor_at(summary, 214) is Err {
                            Err(descriptor_at(summary, 214)->Err_0)
                        } else {
                            let durable = if count == 3 {
                                Some(descriptor_at(summary, 214)->Ok_0)
                            } else {
                                None
                            };
                            let end: int = if count == 3 {
                                301
                            } else {
                                214
                            };
                            if end != summary.len() || !descriptors_counted(
                                locator,
                                replay_record,
                                durable,
                                mutation_digest,
                                commitment,
                            ) {
                                Err(ManifestArtifactError::ArtifactSummaryCardinalityMismatch)
                            } else {
                                Ok(
                                    DecodedManifestArtifactPlan::Chunked {
                                        replay_record_kind,
                                        mutation_digest,
                                        locator,
                                        replay_record,
                                        durable_prepared_payload: durable,
                                    },
                                )
                            }
                        },
                    },
                }
            },
        }
    }
}

/// The plan that a summary holds. `verified` says whether the commitment is that of the
/// summary, and `empty` is the empty batch.
pub open spec fn decoded_plan(
    summary: Seq<u8>,
    commitment: ManifestArtifactSetCommitment,
    verified: Result<(), String>,
    empty: Result<BatchModel, String>,
) -> Result<ArtifactPlanModel, ManifestArtifactError> {
    match verified {
        Err(refused) => Err(ManifestArtifactError::Intent(refused)),
        Ok(_) => if begins_with(summary, ZERO_MUTATION_RECEIPT_MAGIC) {
            zero_plan(summary, commitment, empty)
        } else {
            chunked_plan(summary, commitment)
        },
    }
}

pub open spec fn plan_result(result: Result<ArtifactPlan, ManifestArtifactError>) -> Result<
    ArtifactPlanModel,
    ManifestArtifactError,
> {
    match result {
        Ok(plan) => Ok(plan@),
        Err(error) => Err(error),
    }
}

fn begins(summary: &[u8], magic: &[u8; 4]) -> (begins: bool)
    ensures
        begins == begins_with(summary@, *magic),
{
    summary.len() >= 4 && bytes_equal(vstd::slice::slice_subrange(summary, 0, 4), magic)
}

fn decode_zero_mutation_plan(
    summary: &[u8],
    commitment: &ManifestArtifactSetCommitment,
    empty: Result<&CanonicalPhysicalMutationBatch, String>,
) -> (result: Result<ArtifactPlan, ManifestArtifactError>)
    ensures
        plan_result(result) == zero_plan(summary@, *commitment, empty_view(empty)),
{
    if summary.len() < 43 {
        return Err(ManifestArtifactError::InvalidZeroMutationReceipt);
    }
    let version: u16 = number_at_16(summary, 4);
    if version != MANIFEST_ARTIFACT_ENCODING_VERSION {
        return Err(ManifestArtifactError::UnknownEncodingVersion(version));
    }
    if summary[6] != ReplayRecordKind::FullPhysicalDelta.code() {
        return Err(ManifestArtifactError::InvalidZeroMutationReceipt);
    }
    let mutation_digest = array_from::<32>(vstd::slice::slice_subrange(summary, 7, 39));
    let replay_len: usize = number_at_32(summary, 39) as usize;
    let expected_len: usize = match replay_len.checked_add(43) {
        Some(expected_len) => expected_len,
        None => return Err(ManifestArtifactError::ZeroMutationReceiptTooLarge(replay_len)),
    };
    if summary.len() != expected_len || !array_equal::<32>(
        &mutation_digest,
        &commitment.mutation_digest,
    ) || !commitment.counts_nothing() {
        return Err(ManifestArtifactError::InvalidZeroMutationReceipt);
    }
    let record = vstd::slice::slice_subrange(summary, 43, summary.len());
    validate_zero_mutation_replay_record(record, mutation_digest, empty)?;
    Ok(
        DecodedManifestArtifactPlan::ZeroMutation {
            mutation_digest,
            replay_record: copy_bytes(record),
        },
    )
}

fn are_counted(
    locator: &ManifestArtifactDescriptor,
    replay_record: &ManifestArtifactDescriptor,
    durable_payload: &Option<ManifestArtifactDescriptor>,
    mutation_digest: &[u8; 32],
    commitment: &ManifestArtifactSetCommitment,
) -> (counted: bool)
    ensures
        counted == descriptors_counted(
            *locator,
            *replay_record,
            *durable_payload,
            *mutation_digest,
            *commitment,
        ),
{
    let durable_counted: bool = match durable_payload {
        Some(payload) => payload.kind == ManifestArtifactKind::DurablePreparedPayload
            && payload.chunk_count == commitment.durable_payload_chunk_count,
        None => commitment.durable_payload_chunk_count == 0,
    };
    locator.kind == ManifestArtifactKind::Locator && replay_record.kind
        == ManifestArtifactKind::ReplayRecord && durable_counted && locator.item_count
        == commitment.affected_row_count && replay_record.item_count
        == commitment.affected_row_count && locator.chunk_count == commitment.locator_chunk_count
        && replay_record.chunk_count == commitment.replay_chunk_count && array_equal::<32>(
        mutation_digest,
        &commitment.mutation_digest,
    )
}

/// Strictly decodes the plan of a summary, which is enough to find and verify every chunk
/// after a restart.
pub fn decode_manifest_artifact_plan(
    summary: &[u8],
    commitment: &ManifestArtifactSetCommitment,
    verified: Result<(), String>,
    empty: Result<&CanonicalPhysicalMutationBatch, String>,
) -> (result: Result<ArtifactPlan, ManifestArtifactError>)
    ensures
        plan_result(result) == decoded_plan(summary@, *commitment, verified, empty_view(empty)),
{
    match verified {
        Err(refused) => return Err(ManifestArtifactError::Intent(refused)),
        Ok(_) => {},
    }
    if begins(summary, &ZERO_MUTATION_RECEIPT_MAGIC) {
        return decode_zero_mutation_plan(summary, commitment, empty);
    }
    if !begins(summary, &ARTIFACT_SET_MAGIC) {
        return Err(ManifestArtifactError::InvalidArtifactSummaryEncoding);
    }
    if summary.len() < 40 {
        return Err(ManifestArtifactError::InvalidArtifactSummaryEncoding);
    }
    let version: u16 = number_at_16(summary, 4);
    if version != MANIFEST_ARTIFACT_ENCODING_VERSION {
        return Err(ManifestArtifactError::UnknownEncodingVersion(version));
    }
    let replay_record_kind = ReplayRecordKind::try_from_code(summary[6])?;
    let mutation_digest = array_from::<32>(vstd::slice::slice_subrange(summary, 7, 39));
    let artifact_count: u8 = summary[39];
    if artifact_count != 2 && artifact_count != 3 {
        return Err(ManifestArtifactError::InvalidArtifactSummaryEncoding);
    }
    let mut cursor = Cursor { bytes: summary, offset: 40 };
    let locator = decode_artifact_descriptor(&mut cursor)?;
    let replay_record = decode_artifact_descriptor(&mut cursor)?;
    let durable_prepared_payload = if artifact_count == 3 {
        Some(decode_artifact_descriptor(&mut cursor)?)
    } else {
        None
    };
    if !cursor.is_empty() || !are_counted(
        &locator,
        &replay_record,
        &durable_prepared_payload,
        &mutation_digest,
        commitment,
    ) {
        return Err(ManifestArtifactError::ArtifactSummaryCardinalityMismatch);
    }
    Ok(
        DecodedManifestArtifactPlan::Chunked {
            replay_record_kind,
            mutation_digest,
            locator,
            replay_record,
            durable_prepared_payload,
        },
    )
}

/// An optional artifact, by its view.
pub open spec fn optional_artifact(artifact: Option<Artifact>) -> Option<ArtifactModel> {
    match artifact {
        Some(artifact) => Some(artifact@),
        None => None,
    }
}

/// The descriptor of an optional artifact.
pub open spec fn optional_descriptor(artifact: Option<ArtifactModel>) -> Option<
    ManifestArtifactDescriptor,
> {
    match artifact {
        Some(artifact) => Some(artifact.descriptor),
        None => None,
    }
}

fn descriptor_of(artifact: &Option<Artifact>) -> (descriptor: Option<ManifestArtifactDescriptor>)
    ensures
        descriptor == optional_descriptor(optional_artifact(*artifact)),
{
    match artifact {
        Some(artifact) => Some(artifact.descriptor),
        None => None,
    }
}

/// The artifacts of one batch and their summary, which is still to be committed.
#[verifier::ext_equal]
#[derive(Clone, Debug, PartialEq, Eq)]
pub struct ManifestArtifactParts<C, B> {
    pub replay_record_kind: ReplayRecordKind,
    pub mutation_digest: [u8; 32],
    pub locator: CanonicalManifestArtifact<C>,
    pub replay_record: CanonicalManifestArtifact<C>,
    pub durable_prepared_payload: Option<CanonicalManifestArtifact<C>>,
    pub canonical_summary: B,
}

pub type ArtifactParts = ManifestArtifactParts<Vec<manifest_artifact::Chunk>, Vec<u8>>;

pub type ArtifactPartsModel = ManifestArtifactParts<Seq<ChunkModel>, Seq<u8>>;

impl View for ManifestArtifactParts<Vec<manifest_artifact::Chunk>, Vec<u8>> {
    type V = ManifestArtifactParts<Seq<ChunkModel>, Seq<u8>>;

    open spec fn view(&self) -> ManifestArtifactParts<Seq<ChunkModel>, Seq<u8>> {
        ManifestArtifactParts {
            replay_record_kind: self.replay_record_kind,
            mutation_digest: self.mutation_digest,
            locator: self.locator@,
            replay_record: self.replay_record@,
            durable_prepared_payload: optional_artifact(self.durable_prepared_payload),
            canonical_summary: self.canonical_summary@,
        }
    }
}

/// The artifacts of a batch, put together with their summary.
pub open spec fn joined_parts(
    replay_record_kind: ReplayRecordKind,
    mutation_digest: [u8; 32],
    locator: ArtifactModel,
    replay_record: ArtifactModel,
    durable: Option<ArtifactModel>,
) -> ArtifactPartsModel {
    ManifestArtifactParts {
        replay_record_kind,
        mutation_digest,
        locator,
        replay_record,
        durable_prepared_payload: durable,
        canonical_summary: artifact_set_summary(
            replay_record_kind,
            mutation_digest,
            locator.descriptor,
            replay_record.descriptor,
            optional_descriptor(durable),
        ),
    }
}

/// The artifacts of a batch, with chunks of at most `limit` bytes.
pub open spec fn built_parts(
    replay_record_kind: ReplayRecordKind,
    batch: BatchModel,
    replay: Seq<u8>,
    durable: Option<Seq<u8>>,
    limit: nat,
) -> Result<ArtifactPartsModel, ManifestArtifactError> {
    let rows = batch.locators.len() as u64;
    if limit == 0 || limit > MANIFEST_ARTIFACT_MAX_CHUNK_BYTES {
        Err(ManifestArtifactError::InvalidChunkLimit(limit as usize))
    } else if batch.locators.len() == 0 {
        Err(ManifestArtifactError::ZeroMutationReceiptNotYetSupported)
    } else {
        match locator_payload(batch.locators) {
            Err(error) => Err(error),
            Ok(payload) => match manifest_artifact::built_artifact(
                ManifestArtifactKind::Locator,
                payload,
                rows,
                limit,
            ) {
                Err(error) => Err(error),
                Ok(locator) => match manifest_artifact::built_artifact(
                    ManifestArtifactKind::ReplayRecord,
                    replay,
                    rows,
                    limit,
                ) {
                    Err(error) => Err(error),
                    Ok(replay_record) => match durable {
                        None => Ok(
                            joined_parts(
                                replay_record_kind,
                                batch.digest,
                                locator,
                                replay_record,
                                None,
                            ),
                        ),
                        Some(durable) => match manifest_artifact::built_artifact(
                            ManifestArtifactKind::DurablePreparedPayload,
                            durable,
                            1,
                            limit,
                        ) {
                            Err(error) => Err(error),
                            Ok(durable) => Ok(
                                joined_parts(
                                    replay_record_kind,
                                    batch.digest,
                                    locator,
                                    replay_record,
                                    Some(durable),
                                ),
                            ),
                        },
                    },
                },
            },
        }
    }
}

pub open spec fn parts_result(result: Result<ArtifactParts, ManifestArtifactError>) -> Result<
    ArtifactPartsModel,
    ManifestArtifactError,
> {
    match result {
        Ok(parts) => Ok(parts@),
        Err(error) => Err(error),
    }
}

/// Bytes that may be missing, by their view.
pub open spec fn optional_bytes(bytes: Option<&[u8]>) -> Option<Seq<u8>> {
    match bytes {
        Some(bytes) => Some(bytes@),
        None => None,
    }
}

impl ManifestArtifactParts<Vec<manifest_artifact::Chunk>, Vec<u8>> {
    fn build(
        replay_record_kind: ReplayRecordKind,
        batch: &CanonicalPhysicalMutationBatch,
        replay_bytes: &[u8],
        durable_payload_bytes: Option<&[u8]>,
        chunk_limit: usize,
    ) -> (result: Result<Self, ManifestArtifactError>)
        ensures
            parts_result(result) == built_parts(
                replay_record_kind,
                batch@,
                replay_bytes@,
                optional_bytes(durable_payload_bytes),
                chunk_limit as nat,
            ),
    {
        if chunk_limit == 0 || chunk_limit > MANIFEST_ARTIFACT_MAX_CHUNK_BYTES {
            return Err(ManifestArtifactError::InvalidChunkLimit(chunk_limit));
        }
        if batch.locators.len() == 0 {
            return Err(ManifestArtifactError::ZeroMutationReceiptNotYetSupported);
        }
        let rows: u64 = batch.locators.len() as u64;
        let locator_bytes = encode_locator_artifact(&batch.locators)?;
        let locator = build_artifact(
            ManifestArtifactKind::Locator,
            &locator_bytes,
            rows,
            chunk_limit,
        )?;
        let replay_record = build_artifact(
            ManifestArtifactKind::ReplayRecord,
            replay_bytes,
            rows,
            chunk_limit,
        )?;
        let durable_prepared_payload = match durable_payload_bytes {
            None => None,
            Some(bytes) => Some(
                build_artifact(
                    ManifestArtifactKind::DurablePreparedPayload,
                    bytes,
                    1,
                    chunk_limit,
                )?,
            ),
        };
        let canonical_summary = encode_artifact_set_summary(
            replay_record_kind,
            batch.digest,
            locator.descriptor,
            replay_record.descriptor,
            descriptor_of(&durable_prepared_payload),
        );
        Ok(
            ManifestArtifactParts {
                replay_record_kind,
                mutation_digest: batch.digest,
                locator,
                replay_record,
                durable_prepared_payload,
                canonical_summary,
            },
        )
    }

    /// The artifacts of a record that holds its whole batch.
    pub fn of_full(record: &FullPhysicalDeltaRecord, chunk_limit: usize) -> (result: Result<
        Self,
        ManifestArtifactError,
    >)
        ensures
            parts_result(result) == built_parts(
                ReplayRecordKind::FullPhysicalDelta,
                record.batch@,
                record.encoded@,
                None,
                chunk_limit as nat,
            ),
    {
        Self::build(
            ReplayRecordKind::FullPhysicalDelta,
            &record.batch,
            &record.encoded,
            None,
            chunk_limit,
        )
    }

    /// The artifacts of a record that refers to a prepared payload. `expanded` is the
    /// batch that the record and the payload make.
    pub fn of_compact(
        record: &[u8],
        expanded: Result<CanonicalPhysicalMutationBatch, String>,
        durable_payload_bytes: &[u8],
        chunk_limit: usize,
    ) -> (result: Result<Self, ManifestArtifactError>)
        ensures
            parts_result(result) == match expanded {
                Err(refused) => Err(
                    ManifestArtifactError::Replay(ReplayPrototypeError::Refused(refused)),
                ),
                Ok(batch) => built_parts(
                    ReplayRecordKind::PreparedReferencePlusSupplement,
                    batch@,
                    record@,
                    Some(durable_payload_bytes@),
                    chunk_limit as nat,
                ),
            },
    {
        match expanded {
            Err(refused) => Err(
                ManifestArtifactError::Replay(ReplayPrototypeError::Refused(refused)),
            ),
            Ok(batch) => Self::build(
                ReplayRecordKind::PreparedReferencePlusSupplement,
                &batch,
                record,
                Some(durable_payload_bytes),
                chunk_limit,
            ),
        }
    }

    /// Seals the artifacts with what commits their summary, and checks the whole.
    pub fn commit(self, commitment: Result<ManifestArtifactSetCommitment, String>) -> (result: Result<
        ArtifactSet,
        ManifestArtifactError,
    >)
        ensures
            set_result(result) == committed_set(self@, commitment),
    {
        let sealed = match commitment {
            Err(refused) => return Err(ManifestArtifactError::Intent(refused)),
            Ok(sealed) => sealed,
        };
        let set = CanonicalManifestArtifactSet {
            replay_record_kind: self.replay_record_kind,
            mutation_digest: self.mutation_digest,
            locator: self.locator,
            replay_record: self.replay_record,
            durable_prepared_payload: self.durable_prepared_payload,
            canonical_summary: self.canonical_summary,
            commitment: sealed,
        };
        assert(set@ == sealed_parts(self@, sealed));
        set.verify_integrity(Ok(sealed))?;
        Ok(set)
    }
}

/// The artifacts of exactly one batch, committed.
#[verifier::ext_equal]
#[derive(Clone, Debug, PartialEq, Eq)]
pub struct CanonicalManifestArtifactSet<C, B> {
    pub replay_record_kind: ReplayRecordKind,
    pub mutation_digest: [u8; 32],
    pub locator: CanonicalManifestArtifact<C>,
    pub replay_record: CanonicalManifestArtifact<C>,
    pub durable_prepared_payload: Option<CanonicalManifestArtifact<C>>,
    pub canonical_summary: B,
    pub commitment: ManifestArtifactSetCommitment,
}

pub type ArtifactSet = CanonicalManifestArtifactSet<Vec<manifest_artifact::Chunk>, Vec<u8>>;

pub type ArtifactSetModel = CanonicalManifestArtifactSet<Seq<ChunkModel>, Seq<u8>>;

impl View for CanonicalManifestArtifactSet<Vec<manifest_artifact::Chunk>, Vec<u8>> {
    type V = CanonicalManifestArtifactSet<Seq<ChunkModel>, Seq<u8>>;

    open spec fn view(&self) -> CanonicalManifestArtifactSet<Seq<ChunkModel>, Seq<u8>> {
        CanonicalManifestArtifactSet {
            replay_record_kind: self.replay_record_kind,
            mutation_digest: self.mutation_digest,
            locator: self.locator@,
            replay_record: self.replay_record@,
            durable_prepared_payload: optional_artifact(self.durable_prepared_payload),
            canonical_summary: self.canonical_summary@,
            commitment: self.commitment,
        }
    }
}

pub open spec fn sealed_parts(
    parts: ArtifactPartsModel,
    commitment: ManifestArtifactSetCommitment,
) -> ArtifactSetModel {
    CanonicalManifestArtifactSet {
        replay_record_kind: parts.replay_record_kind,
        mutation_digest: parts.mutation_digest,
        locator: parts.locator,
        replay_record: parts.replay_record,
        durable_prepared_payload: parts.durable_prepared_payload,
        canonical_summary: parts.canonical_summary,
        commitment,
    }
}

/// Whether a set holds together. `expected` is what commits the summary of its
/// artifacts.
pub open spec fn set_integrity(
    set: ArtifactSetModel,
    expected: Result<ManifestArtifactSetCommitment, String>,
) -> Result<(), ManifestArtifactError> {
    let durable = match set.durable_prepared_payload {
        Some(durable) => manifest_artifact::verified_payload(durable.descriptor, durable.chunks),
        None => Ok(Seq::empty()),
    };
    match manifest_artifact::verified_payload(set.locator.descriptor, set.locator.chunks) {
        Err(error) => Err(error),
        Ok(payload) => match decoded_locators(payload, set.commitment.affected_row_count) {
            Err(error) => Err(error),
            Ok(_) => match manifest_artifact::verified_payload(
                set.replay_record.descriptor,
                set.replay_record.chunks,
            ) {
                Err(error) => Err(error),
                Ok(_) => if durable is Err {
                    Err(durable->Err_0)
                } else if set.canonical_summary != artifact_set_summary(
                    set.replay_record_kind,
                    set.mutation_digest,
                    set.locator.descriptor,
                    set.replay_record.descriptor,
                    optional_descriptor(set.durable_prepared_payload),
                ) {
                    Err(ManifestArtifactError::ArtifactSummaryMismatch)
                } else {
                    match expected {
                        Err(refused) => Err(ManifestArtifactError::Intent(refused)),
                        Ok(expected) => if expected != set.commitment || !descriptors_counted(
                            set.locator.descriptor,
                            set.replay_record.descriptor,
                            optional_descriptor(set.durable_prepared_payload),
                            set.mutation_digest,
                            set.commitment,
                        ) {
                            Err(ManifestArtifactError::ArtifactCommitmentMismatch)
                        } else {
                            Ok(())
                        },
                    }
                },
            },
        },
    }
}

/// The set that parts and their commitment make.
pub open spec fn committed_set(
    parts: ArtifactPartsModel,
    commitment: Result<ManifestArtifactSetCommitment, String>,
) -> Result<ArtifactSetModel, ManifestArtifactError> {
    match commitment {
        Err(refused) => Err(ManifestArtifactError::Intent(refused)),
        Ok(sealed) => match set_integrity(sealed_parts(parts, sealed), Ok(sealed)) {
            Err(error) => Err(error),
            Ok(_) => Ok(sealed_parts(parts, sealed)),
        },
    }
}

pub open spec fn set_result(result: Result<ArtifactSet, ManifestArtifactError>) -> Result<
    ArtifactSetModel,
    ManifestArtifactError,
> {
    match result {
        Ok(set) => Ok(set@),
        Err(error) => Err(error),
    }
}

/// A set from the parts that were built, if they were.
pub open spec fn set_of_parts(
    parts: Result<ArtifactPartsModel, ManifestArtifactError>,
    commitment: Result<ManifestArtifactSetCommitment, String>,
) -> Result<ArtifactSetModel, ManifestArtifactError> {
    match parts {
        Err(error) => Err(error),
        Ok(parts) => committed_set(parts, commitment),
    }
}

impl CanonicalManifestArtifactSet<Vec<manifest_artifact::Chunk>, Vec<u8>> {
    /// The artifacts of a record that holds its whole batch. `commitment` is what commits
    /// the summary of those artifacts.
    pub fn try_from_full(
        record: &FullPhysicalDeltaRecord,
        commitment: Result<ManifestArtifactSetCommitment, String>,
    ) -> (result: Result<Self, ManifestArtifactError>)
        ensures
            set_result(result) == set_of_parts(
                built_parts(
                    ReplayRecordKind::FullPhysicalDelta,
                    record.batch@,
                    record.encoded@,
                    None,
                    MANIFEST_ARTIFACT_MAX_CHUNK_BYTES as nat,
                ),
                commitment,
            ),
    {
        let parts = ManifestArtifactParts::of_full(record, MANIFEST_ARTIFACT_MAX_CHUNK_BYTES)?;
        parts.commit(commitment)
    }

    /// The artifacts of a record that refers to a prepared payload.
    pub fn try_from_compact(
        record: &[u8],
        expanded: Result<CanonicalPhysicalMutationBatch, String>,
        durable_payload_bytes: &[u8],
        commitment: Result<ManifestArtifactSetCommitment, String>,
    ) -> (result: Result<Self, ManifestArtifactError>)
        ensures
            set_result(result) == match expanded {
                Err(refused) => Err(
                    ManifestArtifactError::Replay(ReplayPrototypeError::Refused(refused)),
                ),
                Ok(batch) => set_of_parts(
                    built_parts(
                        ReplayRecordKind::PreparedReferencePlusSupplement,
                        batch@,
                        record@,
                        Some(durable_payload_bytes@),
                        MANIFEST_ARTIFACT_MAX_CHUNK_BYTES as nat,
                    ),
                    commitment,
                ),
            },
    {
        let parts = ManifestArtifactParts::of_compact(
            record,
            expanded,
            durable_payload_bytes,
            MANIFEST_ARTIFACT_MAX_CHUNK_BYTES,
        )?;
        parts.commit(commitment)
    }

    pub fn replay_record_kind(&self) -> (kind: ReplayRecordKind)
        ensures
            kind == self@.replay_record_kind,
    {
        self.replay_record_kind
    }

    pub fn mutation_digest(&self) -> (digest: &[u8; 32])
        ensures
            *digest == self@.mutation_digest,
    {
        &self.mutation_digest
    }

    pub fn locator(&self) -> (artifact: &Artifact)
        ensures
            artifact@ == self@.locator,
    {
        &self.locator
    }

    pub fn replay_record(&self) -> (artifact: &Artifact)
        ensures
            artifact@ == self@.replay_record,
    {
        &self.replay_record
    }

    pub fn durable_prepared_payload(&self) -> (artifact: Option<&Artifact>)
        ensures
            match artifact {
                Some(artifact) => self@.durable_prepared_payload == Some(artifact@),
                None => self@.durable_prepared_payload is None,
            },
    {
        match &self.durable_prepared_payload {
            Some(artifact) => Some(artifact),
            None => None,
        }
    }

    pub fn canonical_summary(&self) -> (summary: &[u8])
        ensures
            summary@ == self@.canonical_summary,
    {
        self.canonical_summary.as_slice()
    }

    pub fn commitment(&self) -> (commitment: ManifestArtifactSetCommitment)
        ensures
            commitment == self@.commitment,
    {
        self.commitment
    }

    /// Checks that the set holds together. `expected` is what commits the summary of its
    /// artifacts.
    pub fn verify_integrity(&self, expected: Result<ManifestArtifactSetCommitment, String>) -> (result:
        Result<(), ManifestArtifactError>)
        ensures
            result == set_integrity(self@, expected),
    {
        let locator = self.locator.verify_and_reassemble()?;
        decode_locator_artifact(&locator, self.commitment.affected_row_count)?;
        let _ = self.replay_record.verify_and_reassemble()?;
        match &self.durable_prepared_payload {
            Some(payload) => {
                let _ = payload.verify_and_reassemble()?;
            },
            None => {},
        }
        let summary = encode_artifact_set_summary(
            self.replay_record_kind,
            self.mutation_digest,
            self.locator.descriptor,
            self.replay_record.descriptor,
            descriptor_of(&self.durable_prepared_payload),
        );
        if !bytes_equal(&summary, &self.canonical_summary) {
            return Err(ManifestArtifactError::ArtifactSummaryMismatch);
        }
        match expected {
            Err(refused) => Err(ManifestArtifactError::Intent(refused)),
            Ok(expected) => if !expected.same(&self.commitment) || !are_counted(
                &self.locator.descriptor,
                &self.replay_record.descriptor,
                &descriptor_of(&self.durable_prepared_payload),
                &self.mutation_digest,
                &self.commitment,
            ) {
                Err(ManifestArtifactError::ArtifactCommitmentMismatch)
            } else {
                Ok(())
            },
        }
    }
}

/// The receipt of a checkpoint that changes nothing. It has no chunk, but commits the
/// replay record and the digest of the empty batch.
#[verifier::ext_equal]
#[derive(Clone, Debug, PartialEq, Eq)]
pub struct CanonicalZeroMutationReceipt<B> {
    pub mutation_digest: [u8; 32],
    pub canonical_summary: B,
    pub commitment: ManifestArtifactSetCommitment,
}

pub type ZeroReceipt = CanonicalZeroMutationReceipt<Vec<u8>>;

pub type ZeroReceiptModel = CanonicalZeroMutationReceipt<Seq<u8>>;

impl View for CanonicalZeroMutationReceipt<Vec<u8>> {
    type V = CanonicalZeroMutationReceipt<Seq<u8>>;

    open spec fn view(&self) -> CanonicalZeroMutationReceipt<Seq<u8>> {
        CanonicalZeroMutationReceipt {
            mutation_digest: self.mutation_digest,
            canonical_summary: self.canonical_summary@,
            commitment: self.commitment,
        }
    }
}

/// The summary of a checkpoint that changes nothing.
pub open spec fn zero_summary(batch: BatchModel, record: Seq<u8>) -> Result<
    Seq<u8>,
    ManifestArtifactError,
> {
    if batch.locators.len() > 0 {
        Err(
            ManifestArtifactError::NonZeroMutationReceipt {
                actual: batch.locators.len() as usize,
            },
        )
    } else if record.len() > u32::MAX || 43 + record.len() > usize::MAX {
        Err(ManifestArtifactError::ZeroMutationReceiptTooLarge(record.len() as usize))
    } else {
        Ok(zero_summary_bytes(batch.digest, record))
    }
}

pub open spec fn zero_summary_bytes(mutation_digest: [u8; 32], record: Seq<u8>) -> Seq<u8> {
    ZERO_MUTATION_RECEIPT_MAGIC@ + bytes::be16(MANIFEST_ARTIFACT_ENCODING_VERSION) + seq![
        ReplayRecordKind::FullPhysicalDelta.spec_code(),
    ] + mutation_digest@ + bytes::counted(record)
}

/// Encodes the summary of a checkpoint that changes nothing.
pub fn zero_mutation_summary(record: &FullPhysicalDeltaRecord) -> (result: Result<
    Vec<u8>,
    ManifestArtifactError,
>)
    ensures
        manifest_artifact::payload_result(result) == zero_summary(record.batch@, record.encoded@),
{
    if record.batch.locators.len() > 0 {
        return Err(
            ManifestArtifactError::NonZeroMutationReceipt { actual: record.batch.locators.len() },
        );
    }
    let replay_len: usize = record.encoded.len();
    if replay_len as u64 > u32::MAX as u64 {
        return Err(ManifestArtifactError::ZeroMutationReceiptTooLarge(replay_len));
    }
    match replay_len.checked_add(43) {
        None => return Err(ManifestArtifactError::ZeroMutationReceiptTooLarge(replay_len)),
        Some(_) => {},
    }
    let mut summary: Vec<u8> = copy_bytes(&ZERO_MUTATION_RECEIPT_MAGIC);
    push_u16(&mut summary, MANIFEST_ARTIFACT_ENCODING_VERSION);
    push_byte(&mut summary, ReplayRecordKind::FullPhysicalDelta.code());
    push_bytes(&mut summary, &record.batch.digest);
    push_u32(&mut summary, replay_len as u32);
    push_bytes(&mut summary, &record.encoded);
    assert(summary@ =~= zero_summary_bytes(record.batch.digest, record.encoded@));
    Ok(summary)
}

/// Whether a receipt holds together. `verified` says whether its commitment is that of
/// its summary, and `empty` is the empty batch.
pub open spec fn receipt_integrity(
    receipt: ZeroReceiptModel,
    verified: Result<(), String>,
    empty: Result<BatchModel, String>,
) -> Result<(), ManifestArtifactError> {
    let summary = receipt.canonical_summary;
    if summary.len() < 43 || summary.subrange(0, 4) != ZERO_MUTATION_RECEIPT_MAGIC@ {
        Err(ManifestArtifactError::InvalidZeroMutationReceipt)
    } else if bytes::u16_at(summary, 4) != MANIFEST_ARTIFACT_ENCODING_VERSION {
        Err(ManifestArtifactError::UnknownEncodingVersion(bytes::u16_at(summary, 4)))
    } else if bytes::u8_at(summary, 6) != ReplayRecordKind::FullPhysicalDelta.spec_code() {
        Err(ManifestArtifactError::InvalidZeroMutationReceipt)
    } else if summary.subrange(7, 39) != receipt.mutation_digest@ {
        Err(ManifestArtifactError::ArtifactSummaryMismatch)
    } else if 43 + bytes::u32_at(summary, 39) > usize::MAX {
        Err(
            ManifestArtifactError::ZeroMutationReceiptTooLarge(
                bytes::u32_at(summary, 39) as usize,
            ),
        )
    } else if summary.len() != 43 + bytes::u32_at(summary, 39) {
        Err(ManifestArtifactError::InvalidZeroMutationReceipt)
    } else {
        match zero_record(
            summary.subrange(43, summary.len() as int),
            receipt.mutation_digest,
            empty,
        ) {
            Err(error) => Err(error),
            Ok(_) => match verified {
                Err(refused) => Err(ManifestArtifactError::Intent(refused)),
                Ok(_) => if !receipt.commitment.spec_counts_nothing() {
                    Err(ManifestArtifactError::InvalidZeroMutationReceipt)
                } else {
                    Ok(())
                },
            },
        }
    }
}

/// The receipt of a record that changes nothing.
pub open spec fn zero_receipt(
    batch: BatchModel,
    record: Seq<u8>,
    commitment: Result<ManifestArtifactSetCommitment, String>,
    verified: Result<(), String>,
    empty: Result<BatchModel, String>,
) -> Result<ZeroReceiptModel, ManifestArtifactError> {
    match zero_summary(batch, record) {
        Err(error) => Err(error),
        Ok(canonical_summary) => match commitment {
            Err(refused) => Err(ManifestArtifactError::Intent(refused)),
            Ok(commitment) => {
                let receipt = CanonicalZeroMutationReceipt {
                    mutation_digest: batch.digest,
                    canonical_summary,
                    commitment,
                };
                match receipt_integrity(receipt, verified, empty) {
                    Err(error) => Err(error),
                    Ok(_) => Ok(receipt),
                }
            },
        },
    }
}

pub open spec fn receipt_result(result: Result<ZeroReceipt, ManifestArtifactError>) -> Result<
    ZeroReceiptModel,
    ManifestArtifactError,
> {
    match result {
        Ok(receipt) => Ok(receipt@),
        Err(error) => Err(error),
    }
}

impl CanonicalZeroMutationReceipt<Vec<u8>> {
    /// The receipt of a record. `commitment` is what commits its summary, `verified` says
    /// whether that commitment is the summary's, and `empty` is the empty batch.
    pub fn try_from_full(
        record: &FullPhysicalDeltaRecord,
        commitment: Result<ManifestArtifactSetCommitment, String>,
        verified: Result<(), String>,
        empty: Result<&CanonicalPhysicalMutationBatch, String>,
    ) -> (result: Result<Self, ManifestArtifactError>)
        ensures
            receipt_result(result) == zero_receipt(
                record.batch@,
                record.encoded@,
                commitment,
                verified,
                empty_view(empty),
            ),
    {
        let canonical_summary = zero_mutation_summary(record)?;
        let commitment = match commitment {
            Err(refused) => return Err(ManifestArtifactError::Intent(refused)),
            Ok(commitment) => commitment,
        };
        let receipt = CanonicalZeroMutationReceipt {
            mutation_digest: record.batch.digest,
            canonical_summary,
            commitment,
        };
        receipt.verify_integrity(verified, empty)?;
        Ok(receipt)
    }

    pub fn mutation_digest(&self) -> (digest: &[u8; 32])
        ensures
            *digest == self@.mutation_digest,
    {
        &self.mutation_digest
    }

    pub fn canonical_summary(&self) -> (summary: &[u8])
        ensures
            summary@ == self@.canonical_summary,
    {
        self.canonical_summary.as_slice()
    }

    pub fn commitment(&self) -> (commitment: ManifestArtifactSetCommitment)
        ensures
            commitment == self@.commitment,
    {
        self.commitment
    }

    pub fn verify_integrity(
        &self,
        verified: Result<(), String>,
        empty: Result<&CanonicalPhysicalMutationBatch, String>,
    ) -> (result: Result<(), ManifestArtifactError>)
        ensures
            result == receipt_integrity(self@, verified, empty_view(empty)),
    {
        let summary = self.canonical_summary.as_slice();
        if summary.len() < 43 || !begins(summary, &ZERO_MUTATION_RECEIPT_MAGIC) {
            return Err(ManifestArtifactError::InvalidZeroMutationReceipt);
        }
        let version: u16 = number_at_16(summary, 4);
        if version != MANIFEST_ARTIFACT_ENCODING_VERSION {
            return Err(ManifestArtifactError::UnknownEncodingVersion(version));
        }
        if summary[6] != ReplayRecordKind::FullPhysicalDelta.code() {
            return Err(ManifestArtifactError::InvalidZeroMutationReceipt);
        }
        if !bytes_equal(vstd::slice::slice_subrange(summary, 7, 39), &self.mutation_digest) {
            return Err(ManifestArtifactError::ArtifactSummaryMismatch);
        }
        let replay_len: usize = number_at_32(summary, 39) as usize;
        let expected_len: usize = match replay_len.checked_add(43) {
            Some(expected_len) => expected_len,
            None => return Err(ManifestArtifactError::ZeroMutationReceiptTooLarge(replay_len)),
        };
        if summary.len() != expected_len {
            return Err(ManifestArtifactError::InvalidZeroMutationReceipt);
        }
        validate_zero_mutation_replay_record(
            vstd::slice::slice_subrange(summary, 43, summary.len()),
            self.mutation_digest,
            empty,
        )?;
        match verified {
            Err(refused) => Err(ManifestArtifactError::Intent(refused)),
            Ok(_) => if !self.commitment.counts_nothing() {
                Err(ManifestArtifactError::InvalidZeroMutationReceipt)
            } else {
                Ok(())
            },
        }
    }
}

/// What a checkpoint leaves: artifacts, or the receipt that nothing changed.
#[derive(Clone, Debug, PartialEq, Eq)]
pub enum CanonicalManifestArtifacts {
    Chunked(ArtifactSet),
    ZeroMutation(ZeroReceipt),
}

impl CanonicalManifestArtifacts {
    /// The outcome of a record that holds its whole batch.
    pub fn try_from_full(
        record: &FullPhysicalDeltaRecord,
        commitment: Result<ManifestArtifactSetCommitment, String>,
        verified: Result<(), String>,
        empty: Result<&CanonicalPhysicalMutationBatch, String>,
    ) -> (result: Result<Self, ManifestArtifactError>)
        ensures
            if record.batch@.locators.len() == 0 {
                match zero_receipt(
                    record.batch@,
                    record.encoded@,
                    commitment,
                    verified,
                    empty_view(empty),
                ) {
                    Ok(receipt) => result matches Ok(CanonicalManifestArtifacts::ZeroMutation(made))
                        && made@ == receipt,
                    Err(error) => result == Err::<CanonicalManifestArtifacts, _>(error),
                }
            } else {
                match set_of_parts(
                    built_parts(
                        ReplayRecordKind::FullPhysicalDelta,
                        record.batch@,
                        record.encoded@,
                        None,
                        MANIFEST_ARTIFACT_MAX_CHUNK_BYTES as nat,
                    ),
                    commitment,
                ) {
                    Ok(set) => result matches Ok(CanonicalManifestArtifacts::Chunked(made)) && made@
                        == set,
                    Err(error) => result == Err::<CanonicalManifestArtifacts, _>(error),
                }
            },
    {
        if record.batch.locators.len() == 0 {
            Ok(
                CanonicalManifestArtifacts::ZeroMutation(
                    CanonicalZeroMutationReceipt::try_from_full(
                        record,
                        commitment,
                        verified,
                        empty,
                    )?,
                ),
            )
        } else {
            Ok(
                CanonicalManifestArtifacts::Chunked(
                    CanonicalManifestArtifactSet::try_from_full(record, commitment)?,
                ),
            )
        }
    }

    /// The outcome of a record that refers to a prepared payload: always artifacts.
    pub fn try_from_compact(
        record: &[u8],
        expanded: Result<CanonicalPhysicalMutationBatch, String>,
        durable_payload_bytes: &[u8],
        commitment: Result<ManifestArtifactSetCommitment, String>,
    ) -> (result: Result<Self, ManifestArtifactError>)
        ensures
            match expanded {
                Err(refused) => result == Err::<CanonicalManifestArtifacts, _>(
                    ManifestArtifactError::Replay(ReplayPrototypeError::Refused(refused)),
                ),
                Ok(batch) => match set_of_parts(
                    built_parts(
                        ReplayRecordKind::PreparedReferencePlusSupplement,
                        batch@,
                        record@,
                        Some(durable_payload_bytes@),
                        MANIFEST_ARTIFACT_MAX_CHUNK_BYTES as nat,
                    ),
                    commitment,
                ) {
                    Ok(set) => result matches Ok(CanonicalManifestArtifacts::Chunked(made)) && made@
                        == set,
                    Err(error) => result == Err::<CanonicalManifestArtifacts, _>(error),
                },
            },
    {
        Ok(
            CanonicalManifestArtifacts::Chunked(
                CanonicalManifestArtifactSet::try_from_compact(
                    record,
                    expanded,
                    durable_payload_bytes,
                    commitment,
                )?,
            ),
        )
    }

    pub fn commitment(&self) -> (commitment: ManifestArtifactSetCommitment)
        ensures
            commitment == match *self {
                CanonicalManifestArtifacts::Chunked(set) => set@.commitment,
                CanonicalManifestArtifacts::ZeroMutation(receipt) => receipt@.commitment,
            },
    {
        match self {
            CanonicalManifestArtifacts::Chunked(set) => set.commitment(),
            CanonicalManifestArtifacts::ZeroMutation(receipt) => receipt.commitment(),
        }
    }

    pub fn canonical_summary(&self) -> (summary: &[u8])
        ensures
            summary@ == match *self {
                CanonicalManifestArtifacts::Chunked(set) => set@.canonical_summary,
                CanonicalManifestArtifacts::ZeroMutation(receipt) => receipt@.canonical_summary,
            },
    {
        match self {
            CanonicalManifestArtifacts::Chunked(set) => set.canonical_summary(),
            CanonicalManifestArtifacts::ZeroMutation(receipt) => receipt.canonical_summary(),
        }
    }

    pub fn chunked(&self) -> (set: Option<&ArtifactSet>)
        ensures
            match (*self, set) {
                (CanonicalManifestArtifacts::Chunked(held), Some(set)) => *set == held,
                (CanonicalManifestArtifacts::ZeroMutation(_), None) => true,
                _ => false,
            },
    {
        match self {
            CanonicalManifestArtifacts::Chunked(set) => Some(set),
            CanonicalManifestArtifacts::ZeroMutation(_) => None,
        }
    }

    pub fn is_zero_mutation(&self) -> (zero: bool)
        ensures
            zero == (*self is ZeroMutation),
    {
        match self {
            CanonicalManifestArtifacts::Chunked(_) => false,
            CanonicalManifestArtifacts::ZeroMutation(_) => true,
        }
    }

    /// Checks what a checkpoint left. `expected` is what commits the summary of its
    /// artifacts; `verified` and `empty` are read for a receipt only.
    pub fn verify_integrity(
        &self,
        expected: Result<ManifestArtifactSetCommitment, String>,
        verified: Result<(), String>,
        empty: Result<&CanonicalPhysicalMutationBatch, String>,
    ) -> (result: Result<(), ManifestArtifactError>)
        ensures
            result == match *self {
                CanonicalManifestArtifacts::Chunked(set) => set_integrity(set@, expected),
                CanonicalManifestArtifacts::ZeroMutation(receipt) => receipt_integrity(
                    receipt@,
                    verified,
                    empty_view(empty),
                ),
            },
    {
        match self {
            CanonicalManifestArtifacts::Chunked(set) => set.verify_integrity(expected),
            CanonicalManifestArtifacts::ZeroMutation(receipt) => receipt.verify_integrity(
                verified,
                empty,
            ),
        }
    }
}

/// The commitment counts the chunks of the artifacts and names their batch.
pub open spec fn commits_parts(
    parts: ArtifactPartsModel,
    commitment: ManifestArtifactSetCommitment,
) -> bool {
    &&& commitment.mutation_digest == parts.mutation_digest
    &&& commitment.locator_chunk_count == parts.locator.descriptor.chunk_count
    &&& commitment.replay_chunk_count == parts.replay_record.descriptor.chunk_count
    &&& commitment.durable_payload_chunk_count == match parts.durable_prepared_payload {
        Some(payload) => payload.descriptor.chunk_count,
        None => 0,
    }
}

/// A batch whose artifacts could be built is committed with what counts its rows and
/// chunks and names its digest, and with nothing else: what was built is not refused
/// afterwards, and its locators read back.
#[verifier::spinoff_prover]
#[verifier::rlimit(40)]
pub proof fn law_built_artifacts_hold_together(
    replay_record_kind: ReplayRecordKind,
    batch: BatchModel,
    replay: Seq<u8>,
    durable: Option<Seq<u8>>,
    limit: nat,
    commitment: ManifestArtifactSetCommitment,
)
    requires
        forall|i: int|
            0 <= i < batch.locators.len() ==> (#[trigger] batch.locators[i]).len() <= u32::MAX,
        replay.len() <= u64::MAX,
        durable matches Some(durable) ==> durable.len() <= u64::MAX,
        locator_payload(batch.locators) matches Ok(payload) ==> payload.len() <= u64::MAX,
        commitment.affected_row_count == batch.locators.len(),
    ensures
        built_parts(replay_record_kind, batch, replay, durable, limit) matches Ok(parts) ==> {
            &&& parts.mutation_digest == batch.digest
            &&& committed_set(parts, Ok(commitment)) == (if commits_parts(parts, commitment) {
                Ok::<_, ManifestArtifactError>(sealed_parts(parts, commitment))
            } else {
                Err(ManifestArtifactError::ArtifactCommitmentMismatch)
            })
            &&& manifest_artifact::verified_payload(parts.locator.descriptor, parts.locator.chunks)
                matches Ok(payload) && decoded_locators(payload, batch.locators.len() as u64)
                == Ok::<_, ManifestArtifactError>(batch.locators)
            &&& manifest_artifact::verified_payload(
                parts.replay_record.descriptor,
                parts.replay_record.chunks,
            ) == Ok::<_, ManifestArtifactError>(replay)
        },
{
    let rows = batch.locators.len() as u64;
    if let Ok(parts) = built_parts(replay_record_kind, batch, replay, durable, limit) {
        let payload = locator_payload(batch.locators)->Ok_0;
        manifest_artifact::law_artifact_reassembles(
            ManifestArtifactKind::Locator,
            payload,
            rows,
            limit,
        );
        manifest_artifact::law_artifact_reassembles(
            ManifestArtifactKind::ReplayRecord,
            replay,
            rows,
            limit,
        );
        law_locators_round_trip(batch.locators);
        match durable {
            Some(durable) => {
                manifest_artifact::law_artifact_reassembles(
                    ManifestArtifactKind::DurablePreparedPayload,
                    durable,
                    1,
                    limit,
                );
            },
            None => {},
        }
    }
}

/// The summary of a committed set decodes, under the set's own commitment, to the plan
/// of that set.
#[verifier::spinoff_prover]
#[verifier::rlimit(40)]
pub proof fn law_committed_summary_decodes(
    set: ArtifactSetModel,
    expected: Result<ManifestArtifactSetCommitment, String>,
    empty: Result<BatchModel, String>,
)
    requires
        set_integrity(set, expected) is Ok,
        descriptor_valid(set.locator.descriptor),
        descriptor_valid(set.replay_record.descriptor),
        set.durable_prepared_payload matches Some(payload) ==> descriptor_valid(payload.descriptor),
    ensures
        decoded_plan(set.canonical_summary, set.commitment, Ok(()), empty) == Ok::<
            ArtifactPlanModel,
            ManifestArtifactError,
        >(
            DecodedManifestArtifactPlan::Chunked {
                replay_record_kind: set.replay_record_kind,
                mutation_digest: set.mutation_digest,
                locator: set.locator.descriptor,
                replay_record: set.replay_record.descriptor,
                durable_prepared_payload: optional_descriptor(set.durable_prepared_payload),
            },
        ),
{
    law_artifact_summary_round_trips(
        set.replay_record_kind,
        set.mutation_digest,
        set.locator.descriptor,
        set.replay_record.descriptor,
        optional_descriptor(set.durable_prepared_payload),
        set.commitment,
        empty,
    );
}

/// A descriptor that reads stands there in exactly the bytes that it encodes to.
pub proof fn law_decoded_descriptor_is_canonical(summary: Seq<u8>, at: int)
    requires
        0 <= at,
    ensures
        descriptor_at(summary, at) matches Ok(descriptor) ==> {
            &&& descriptor_valid(descriptor)
            &&& manifest_artifact::descriptor_bytes(descriptor) == summary.subrange(
                at,
                at + DESCRIPTOR_LEN,
            )
        },
{
    if let Ok(descriptor) = descriptor_at(summary, at) {
        bytes::lemma_be_lens();
        bytes::lemma_read_then_write(summary, at + 1);
        bytes::lemma_read_then_write(summary, at + 3);
        bytes::lemma_read_then_write(summary, at + 7);
        bytes::lemma_read_then_write(summary, at + 15);
        bytes::lemma_read_then_write(summary, at + 23);
        bytes::lemma_read_then_write(summary, at + 55);
        let whole = summary.subrange(at, at + DESCRIPTOR_LEN);
        assert(summary.subrange(at + 1, at + 1 + 2) =~= whole.subrange(1, 3));
        assert(summary.subrange(at + 3, at + 3 + 4) =~= whole.subrange(3, 7));
        assert(summary.subrange(at + 7, at + 7 + 8) =~= whole.subrange(7, 15));
        assert(summary.subrange(at + 15, at + 15 + 8) =~= whole.subrange(15, 23));
        assert(summary.subrange(at + 23, at + 23 + 32) =~= whole.subrange(23, 55));
        assert(summary.subrange(at + 55, at + 55 + 32) =~= whole.subrange(55, 87));
        assert(whole =~= seq![descriptor.kind.spec_code()] + whole.subrange(1, 3) + whole.subrange(
            3,
            7,
        ) + whole.subrange(7, 15) + whole.subrange(15, 23) + whole.subrange(23, 55)
            + whole.subrange(55, 87));
    }
}

/// A descriptor reads back from where it stands.
pub proof fn law_descriptor_reads_back(
    front: Seq<u8>,
    descriptor: ManifestArtifactDescriptor,
    behind: Seq<u8>,
)
    requires
        descriptor_valid(descriptor),
    ensures
        descriptor_at(
            front + manifest_artifact::descriptor_bytes(descriptor) + behind,
            front.len() as int,
        ) == Ok::<_, ManifestArtifactError>(descriptor),
        manifest_artifact::descriptor_bytes(descriptor).len() == DESCRIPTOR_LEN,
{
    bytes::lemma_be_lens();
    let written = manifest_artifact::descriptor_bytes(descriptor);
    let s = front + written + behind;
    let at = front.len() as int;
    assert(written.len() == 87);
    assert(s.subrange(at, at + 87) =~= written);
    assert(written.subrange(1, 3) =~= bytes::be16(descriptor.encoding_version));
    assert(written.subrange(3, 7) =~= bytes::be32(descriptor.chunk_count));
    assert(written.subrange(7, 15) =~= bytes::be64(descriptor.item_count));
    assert(written.subrange(15, 23) =~= bytes::be64(descriptor.encoded_bytes));
    assert(written.subrange(23, 55) =~= descriptor.payload_digest.0@);
    assert(written.subrange(55, 87) =~= descriptor.chunk_set_digest.0@);
    assert(s.subrange(at + 1, at + 1 + 2) =~= written.subrange(1, 3));
    assert(s.subrange(at + 3, at + 3 + 4) =~= written.subrange(3, 7));
    assert(s.subrange(at + 7, at + 7 + 8) =~= written.subrange(7, 15));
    assert(s.subrange(at + 15, at + 15 + 8) =~= written.subrange(15, 23));
    assert(s.subrange(at + 23, at + 23 + 32) =~= written.subrange(23, 55));
    assert(s.subrange(at + 55, at + 55 + 32) =~= written.subrange(55, 87));
    bytes::lemma_write_then_read(s, at + 1);
    bytes::lemma_write_then_read(s, at + 3);
    bytes::lemma_write_then_read(s, at + 7);
    bytes::lemma_write_then_read(s, at + 15);
    bytes::lemma_write_then_read(s, at + 23);
    bytes::lemma_write_then_read(s, at + 55);
    assert(s[at] == descriptor.kind.spec_code());
}

proof fn lemma_summary_front(kind: ReplayRecordKind, mutation_digest: [u8; 32], count: u8)
    ensures
        ({
            let front = summary_front(kind, mutation_digest, count);
            &&& front.len() == 40
            &&& front.subrange(0, 4) == ARTIFACT_SET_MAGIC@
            &&& bytes::u16_at(front, 4) == MANIFEST_ARTIFACT_ENCODING_VERSION
            &&& front[6] == kind.spec_code()
            &&& bytes::digest_at(front, 7) == mutation_digest
            &&& front[39] == count
        }),
{
    bytes::lemma_be_lens();
    let front = summary_front(kind, mutation_digest, count);
    assert(front.subrange(0, 4) =~= ARTIFACT_SET_MAGIC@);
    assert(front.subrange(4, 6) =~= bytes::be16(MANIFEST_ARTIFACT_ENCODING_VERSION));
    assert(front.subrange(7, 39) =~= mutation_digest@);
    bytes::lemma_write_then_read(front, 4);
    bytes::lemma_write_then_read(front, 7);
}

/// A descriptor that a decoder accepts.
pub open spec fn descriptor_valid(descriptor: ManifestArtifactDescriptor) -> bool {
    descriptor.encoding_version == MANIFEST_ARTIFACT_ENCODING_VERSION && descriptor.chunk_count > 0
        && descriptor.encoded_bytes > 0
}

/// The summary of a set of artifacts gives its plan back, for a commitment that counts
/// them.
#[verifier::spinoff_prover]
#[verifier::rlimit(40)]
pub proof fn law_artifact_summary_round_trips(
    replay_record_kind: ReplayRecordKind,
    mutation_digest: [u8; 32],
    locator: ManifestArtifactDescriptor,
    replay_record: ManifestArtifactDescriptor,
    durable: Option<ManifestArtifactDescriptor>,
    commitment: ManifestArtifactSetCommitment,
    empty: Result<BatchModel, String>,
)
    requires
        descriptor_valid(locator),
        descriptor_valid(replay_record),
        durable matches Some(durable) ==> descriptor_valid(durable),
        descriptors_counted(locator, replay_record, durable, mutation_digest, commitment),
    ensures
        decoded_plan(
            artifact_set_summary(
                replay_record_kind,
                mutation_digest,
                locator,
                replay_record,
                durable,
            ),
            commitment,
            Ok(()),
            empty,
        ) == Ok::<ArtifactPlanModel, ManifestArtifactError>(
            DecodedManifestArtifactPlan::Chunked {
                replay_record_kind,
                mutation_digest,
                locator,
                replay_record,
                durable_prepared_payload: durable,
            },
        ),
{
    let summary = artifact_set_summary(
        replay_record_kind,
        mutation_digest,
        locator,
        replay_record,
        durable,
    );
    let count: u8 = if durable is Some {
        3
    } else {
        2
    };
    let front = summary_front(replay_record_kind, mutation_digest, count);
    let first = manifest_artifact::descriptor_bytes(locator);
    let second = manifest_artifact::descriptor_bytes(replay_record);
    let third = match durable {
        Some(payload) => manifest_artifact::descriptor_bytes(payload),
        None => Seq::empty(),
    };
    lemma_summary_front(replay_record_kind, mutation_digest, count);
    law_descriptor_reads_back(front, locator, second + third);
    assert(front + first + (second + third) =~= summary);
    law_descriptor_reads_back(front + first, replay_record, third);
    assert(front + first + second + third =~= summary);
    match durable {
        Some(payload) => {
            law_descriptor_reads_back(front + first + second, payload, Seq::empty());
            assert(front + first + second + third + Seq::<u8>::empty() =~= summary);
        },
        None => {},
    }
    assert(summary.subrange(0, 40) =~= front);
    bytes::lemma_read_in_front(front, summary);
    assert(summary.subrange(0, 4) == ARTIFACT_SET_MAGIC@);
    assert(ARTIFACT_SET_MAGIC@[2] != ZERO_MUTATION_RECEIPT_MAGIC@[2]);
}

/// The summary of a checkpoint that changes nothing gives its record back, where the
/// commitment is that of its batch.
#[verifier::spinoff_prover]
#[verifier::rlimit(40)]
pub proof fn law_zero_summary_round_trips(
    batch: BatchModel,
    record: Seq<u8>,
    commitment: ManifestArtifactSetCommitment,
    verified: Result<(), String>,
    empty: Result<BatchModel, String>,
)
    requires
        commitment.mutation_digest == batch.digest,
    ensures
        zero_receipt(batch, record, Ok(commitment), verified, empty) matches Ok(receipt)
            ==> decoded_plan(receipt.canonical_summary, commitment, verified, empty) == Ok::<
            ArtifactPlanModel,
            ManifestArtifactError,
        >(
            DecodedManifestArtifactPlan::ZeroMutation {
                mutation_digest: batch.digest,
                replay_record: record,
            },
        ),
{
    if let Ok(receipt) = zero_receipt(batch, record, Ok(commitment), verified, empty) {
        bytes::lemma_be_lens();
        let summary = receipt.canonical_summary;
        assert(summary.subrange(7, 39) =~= batch.digest@);
        bytes::lemma_array_of::<32>(batch.digest);
        assert(summary.subrange(39, 43) =~= bytes::be32(record.len() as u32));
        bytes::lemma_write_then_read(summary, 39);
        assert(summary.subrange(43, summary.len() as int) =~= record);
    }
}

/// The locators of a batch are encoded exactly if each sorts before the next, so that none
/// is there twice, and they can be counted. The payload starts with its mark, its version
/// and their number.
pub proof fn law_locators_are_encoded_in_order(locators: Seq<Seq<u8>>)
    ensures
        match locator_payload(locators) {
            Ok(payload) => {
                &&& locators.len() <= u32::MAX
                &&& forall|i: int|
                    0 < i < locators.len() ==> precedes(locators[i - 1], #[trigger] locators[i])
                &&& payload.len() >= 10
                &&& payload.subrange(0, 4) == seq![0x50u8, 0x53, 0x4c, 0x41]
                &&& bytes::u16_at(payload, 4) == 1
                &&& bytes::u32_at(payload, 6) == locators.len()
            },
            Err(error) => if locators.len() > u32::MAX {
                error is TooManyLocatorEntries
            } else {
                error is NonCanonicalLocatorOrdering && exists|i: int|
                    0 < i < locators.len() && !precedes(locators[i - 1], #[trigger] locators[i])
            },
        },
{
    if let Ok(payload) = locator_payload(locators) {
        let front = locator_front(locators.len() as u32);
        lemma_locator_front(locators.len() as u32);
        assert(payload.subrange(0, 10) =~= front);
        bytes::lemma_read_in_front(front, payload);
        assert(payload.subrange(0, 4) =~= seq![0x50u8, 0x53, 0x4c, 0x41]);
    }
}

/// A record is one of a checkpoint that changes nothing exactly if it is a full delta of
/// the first version, of the Coordinator or a realm, counts no row, has only known actions
/// in their order, and ends with exactly the empty batch, whose digest is the one that is
/// asked for.
pub proof fn law_zero_record_changes_nothing(
    record: Seq<u8>,
    mutation_digest: [u8; 32],
    empty: Result<BatchModel, String>,
)
    ensures
        zero_record(record, mutation_digest, empty) is Ok <==> {
            let end = 26 + bytes::u16_at(record, 24);
            &&& record.len() >= 40
            &&& record.subrange(0, 4) == FULL_DELTA_MAGIC@
            &&& bytes::u16_at(record, 4) == 1
            &&& record[6] == 1
            &&& record[7] == 1 || record[7] == 2
            &&& bytes::u32_at(record, 16) == 0
            &&& bytes::u32_at(record, 20) == 0
            &&& end + 4 <= record.len()
            &&& forall|i: int| 26 <= i < end ==> 1 <= #[trigger] record[i] <= 3
            &&& forall|i: int| 26 < i < end ==> record[i - 1] < #[trigger] record[i]
            &&& record.len() == end + 4 + bytes::u32_at(record, end)
            &&& empty matches Ok(batch) && record.subrange(end + 4, record.len() as int)
                == batch.canonical && mutation_digest == batch.digest
        },
{
}

/// A summary plans artifacts only under a verified commitment that names the same
/// mutation digest and counts the chunks and rows of the descriptors, which are those of a
/// locator artifact, a replay record and, if there is a third, a prepared payload.
pub proof fn law_plan_is_counted_by_its_commitment(
    summary: Seq<u8>,
    commitment: ManifestArtifactSetCommitment,
    verified: Result<(), String>,
    empty: Result<BatchModel, String>,
)
    ensures
        decoded_plan(summary, commitment, verified, empty) is Ok ==> verified is Ok,
        decoded_plan(summary, commitment, verified, empty) matches Ok(
            DecodedManifestArtifactPlan::Chunked {
                replay_record_kind,
                mutation_digest,
                locator,
                replay_record,
                durable_prepared_payload,
            },
        ) ==> {
            &&& mutation_digest == commitment.mutation_digest
            &&& mutation_digest == bytes::digest_at(summary, 7)
            &&& summary[6] == replay_record_kind.spec_code()
            &&& locator.kind is Locator
            &&& replay_record.kind is ReplayRecord
            &&& locator.item_count == commitment.affected_row_count
            &&& replay_record.item_count == commitment.affected_row_count
            &&& locator.chunk_count == commitment.locator_chunk_count
            &&& replay_record.chunk_count == commitment.replay_chunk_count
            &&& match durable_prepared_payload {
                Some(payload) => payload.kind is DurablePreparedPayload && payload.chunk_count
                    == commitment.durable_payload_chunk_count && summary.len() == 301
                    && summary[39] == 3,
                None => commitment.durable_payload_chunk_count == 0 && summary.len() == 214
                    && summary[39] == 2,
            }
        },
        decoded_plan(summary, commitment, verified, empty) matches Ok(
            DecodedManifestArtifactPlan::ZeroMutation { mutation_digest, replay_record },
        ) ==> {
            &&& mutation_digest == commitment.mutation_digest
            &&& mutation_digest == bytes::digest_at(summary, 7)
            &&& commitment.affected_row_count == 0
            &&& commitment.locator_chunk_count == 0
            &&& commitment.replay_chunk_count == 0
            &&& commitment.durable_payload_chunk_count == 0
            &&& replay_record == summary.subrange(43, summary.len() as int)
            &&& zero_record(replay_record, mutation_digest, empty) is Ok
        },
{
}

/// The artifacts of a batch are those of its locators, of the record and of the prepared
/// payload, each under its own kind. They are built only if the limit is one, the batch is
/// not empty and its locators are in order.
pub proof fn law_parts_are_of_their_batch(
    replay_record_kind: ReplayRecordKind,
    batch: BatchModel,
    replay: Seq<u8>,
    durable: Option<Seq<u8>>,
    limit: nat,
)
    ensures
        ({
            let built = built_parts(replay_record_kind, batch, replay, durable, limit);
            let rows = batch.locators.len() as u64;
            &&& limit == 0 || limit > 4_194_304 ==> built is Err && built->Err_0
                is InvalidChunkLimit
            &&& 1 <= limit <= 4_194_304 && batch.locators.len() == 0 ==> built is Err
                && built->Err_0 is ZeroMutationReceiptNotYetSupported
            &&& built matches Ok(parts) ==> {
                &&& parts.replay_record_kind == replay_record_kind
                &&& parts.mutation_digest == batch.digest
                &&& locator_payload(batch.locators) matches Ok(payload)
                    && manifest_artifact::built_artifact(
                    ManifestArtifactKind::Locator,
                    payload,
                    rows,
                    limit,
                ) == Ok::<_, ManifestArtifactError>(parts.locator)
                &&& manifest_artifact::built_artifact(
                    ManifestArtifactKind::ReplayRecord,
                    replay,
                    rows,
                    limit,
                ) == Ok::<_, ManifestArtifactError>(parts.replay_record)
                &&& match durable {
                    None => parts.durable_prepared_payload is None,
                    Some(durable) => parts.durable_prepared_payload is Some
                        && manifest_artifact::built_artifact(
                        ManifestArtifactKind::DurablePreparedPayload,
                        durable,
                        1,
                        limit,
                    ) == Ok::<_, ManifestArtifactError>(parts.durable_prepared_payload->0),
                }
            }
        }),
{
}

/// A set holds together only if the chunks of every artifact make up its payload, the
/// locators are as many as the commitment counts, the summary is that of the descriptors,
/// and the commitment is the one that commits it and counts the artifacts.
pub proof fn law_sound_sets_are_whole(
    set: ArtifactSetModel,
    expected: Result<ManifestArtifactSetCommitment, String>,
)
    ensures
        set_integrity(set, expected) is Ok ==> {
            &&& manifest_artifact::verified_payload(
                set.locator.descriptor,
                set.locator.chunks,
            ) matches Ok(payload) && (decoded_locators(
                payload,
                set.commitment.affected_row_count,
            ) matches Ok(locators))
            &&& manifest_artifact::verified_payload(
                set.replay_record.descriptor,
                set.replay_record.chunks,
            ) is Ok
            &&& set.durable_prepared_payload matches Some(durable)
                ==> manifest_artifact::verified_payload(durable.descriptor, durable.chunks) is Ok
            &&& set.canonical_summary == artifact_set_summary(
                set.replay_record_kind,
                set.mutation_digest,
                set.locator.descriptor,
                set.replay_record.descriptor,
                match set.durable_prepared_payload {
                    Some(durable) => Some(durable.descriptor),
                    None => None,
                },
            )
            &&& expected == Ok::<_, String>(set.commitment)
            &&& set.commitment.mutation_digest == set.mutation_digest
            &&& set.commitment.locator_chunk_count == set.locator.descriptor.chunk_count
            &&& set.commitment.replay_chunk_count == set.replay_record.descriptor.chunk_count
            &&& set.commitment.affected_row_count == set.locator.descriptor.item_count
            &&& set.commitment.affected_row_count == set.replay_record.descriptor.item_count
            &&& set.commitment.durable_payload_chunk_count == match set.durable_prepared_payload {
                Some(durable) => durable.descriptor.chunk_count,
                None => 0,
            }
            &&& set.locator.descriptor.kind is Locator
            &&& set.replay_record.descriptor.kind is ReplayRecord
        },
{
}

/// The receipt of a checkpoint that changes nothing is made only of a batch without
/// locators and a record that changes nothing, under a verified commitment that counts
/// nothing. It has the batch's digest, and its summary holds that digest and the record.
pub proof fn law_zero_receipt_counts_nothing(
    batch: BatchModel,
    record: Seq<u8>,
    commitment: Result<ManifestArtifactSetCommitment, String>,
    verified: Result<(), String>,
    empty: Result<BatchModel, String>,
)
    ensures
        batch.locators.len() > 0 ==> zero_receipt(batch, record, commitment, verified, empty) is Err
            && zero_receipt(batch, record, commitment, verified, empty)->Err_0
            is NonZeroMutationReceipt,
        zero_receipt(batch, record, commitment, verified, empty) matches Ok(receipt) ==> {
            let summary = receipt.canonical_summary;
            &&& batch.locators.len() == 0
            &&& verified is Ok
            &&& receipt.mutation_digest == batch.digest
            &&& commitment == Ok::<_, String>(receipt.commitment)
            &&& receipt.commitment.affected_row_count == 0
            &&& receipt.commitment.locator_chunk_count == 0
            &&& receipt.commitment.replay_chunk_count == 0
            &&& receipt.commitment.durable_payload_chunk_count == 0
            &&& summary.len() == 43 + record.len()
            &&& summary.subrange(0, 4) == seq![0x50u8, 0x53, 0x5a, 0x52]
            &&& summary.subrange(7, 39) == batch.digest@
            &&& summary.subrange(43, summary.len() as int) == record
            &&& zero_record(record, batch.digest, empty) is Ok
        },
{
    if let Ok(receipt) = zero_receipt(batch, record, commitment, verified, empty) {
        bytes::lemma_be_lens();
        let summary = receipt.canonical_summary;
        assert(summary.subrange(0, 4) =~= seq![0x50u8, 0x53, 0x5a, 0x52]);
        assert(summary.subrange(7, 39) =~= batch.digest@);
        assert(summary.subrange(43, summary.len() as int) =~= record);
    }
}

/// Where the parts of a summary stand: its mark, the kind of its record, the mutation
/// digest, how many descriptors follow, and those, the locator's first.
pub proof fn law_artifact_summary_layout(
    replay_record_kind: ReplayRecordKind,
    mutation_digest: [u8; 32],
    locator: ManifestArtifactDescriptor,
    replay: ManifestArtifactDescriptor,
    durable_payload: Option<ManifestArtifactDescriptor>,
)
    ensures
        ({
            let summary = artifact_set_summary(
                replay_record_kind,
                mutation_digest,
                locator,
                replay,
                durable_payload,
            );
            &&& summary.subrange(0, 4) == seq![0x50u8, 0x53, 0x41, 0x53]
            &&& summary[6] == replay_record_kind.spec_code()
            &&& summary.subrange(7, 39) == mutation_digest@
            &&& summary[39] == (if durable_payload is Some {
                3u8
            } else {
                2u8
            })
            &&& summary.subrange(40, 127) == manifest_artifact::descriptor_bytes(locator)
            &&& summary.subrange(127, 214) == manifest_artifact::descriptor_bytes(replay)
            &&& match durable_payload {
                Some(payload) => summary.len() == 301 && summary.subrange(214, 301)
                    == manifest_artifact::descriptor_bytes(payload),
                None => summary.len() == 214,
            }
        }),
{
    bytes::lemma_be_lens();
    let summary = artifact_set_summary(
        replay_record_kind,
        mutation_digest,
        locator,
        replay,
        durable_payload,
    );
    assert(summary.subrange(0, 4) =~= seq![0x50u8, 0x53, 0x41, 0x53]);
    assert(summary.subrange(7, 39) =~= mutation_digest@);
    assert(summary.subrange(40, 127) =~= manifest_artifact::descriptor_bytes(locator));
    assert(summary.subrange(127, 214) =~= manifest_artifact::descriptor_bytes(replay));
    if let Some(payload) = durable_payload {
        assert(summary.subrange(214, 301) =~= manifest_artifact::descriptor_bytes(payload));
    }
}

/// Of two different byte strings one sorts before the other, by the first byte in which
/// they differ, or by being the shorter beginning; and none sorts before itself.
pub proof fn law_sorting_goes_by_the_first_difference(a: Seq<u8>, b: Seq<u8>, k: int)
    requires
        0 <= k < a.len(),
        k < b.len(),
        a[k] != b[k],
        forall|i: int| 0 <= i < k ==> a[i] == b[i],
    ensures
        precedes(a, b) <==> a[k] < b[k],
    decreases k,
{
    if k > 0 {
        let (x, y) = (a.drop_first(), b.drop_first());
        assert(x[k - 1] == a[k] && y[k - 1] == b[k]);
        assert forall|i: int| 0 <= i < k - 1 implies x[i] == y[i] by {
            assert(a[i + 1] == b[i + 1]);
        }
        assert(a[0] == b[0]);
        law_sorting_goes_by_the_first_difference(x, y, k - 1);
    }
}

} // verus!
