//! Exact projection of the three closed Coordinator queue sources.
//!
//! Every recoverable envelope is validated against the selected generation
//! assignment and against the close boundary of its source before it becomes a
//! Coordinator input.

use vstd::prelude::*;

use crate::bytes::{array_equal, copy_bytes, ZERO_DIGEST};
use crate::model::{AuthorityScope, NetworkId};

verus! {

#[derive(Clone, Copy, Debug, PartialEq, Eq, Structural)]
pub enum CoordinatorProcessorSourceKind {
    Registration,
    Deploy,
    Guta,
}

/// The number of sources of a Coordinator generation.
pub const SOURCE_COUNT: usize = 3;

/// The sources in their fixed order.
pub open spec fn spec_source_at(index: int) -> CoordinatorProcessorSourceKind {
    if index == 0 {
        CoordinatorProcessorSourceKind::Registration
    } else if index == 1 {
        CoordinatorProcessorSourceKind::Deploy
    } else {
        CoordinatorProcessorSourceKind::Guta
    }
}

pub fn source_at(index: usize) -> (kind: CoordinatorProcessorSourceKind)
    ensures
        kind == spec_source_at(index as int),
{
    if index == 0 {
        CoordinatorProcessorSourceKind::Registration
    } else if index == 1 {
        CoordinatorProcessorSourceKind::Deploy
    } else {
        CoordinatorProcessorSourceKind::Guta
    }
}

/// Who publishes to a queue. Others than the Coordinator's three are told apart by
/// a number only.
#[derive(Clone, Copy, Debug, PartialEq, Eq, Structural)]
pub enum PendingQueuePublisherKind {
    CoordinatorRegistration,
    CoordinatorDeploy,
    CoordinatorGuta,
    Other(u16),
}

pub open spec fn spec_publisher_kind(kind: CoordinatorProcessorSourceKind) -> PendingQueuePublisherKind {
    match kind {
        CoordinatorProcessorSourceKind::Registration => {
            PendingQueuePublisherKind::CoordinatorRegistration
        },
        CoordinatorProcessorSourceKind::Deploy => PendingQueuePublisherKind::CoordinatorDeploy,
        CoordinatorProcessorSourceKind::Guta => PendingQueuePublisherKind::CoordinatorGuta,
    }
}

pub fn publisher_kind(kind: CoordinatorProcessorSourceKind) -> (publisher: PendingQueuePublisherKind)
    ensures
        publisher == spec_publisher_kind(kind),
{
    match kind {
        CoordinatorProcessorSourceKind::Registration => {
            PendingQueuePublisherKind::CoordinatorRegistration
        },
        CoordinatorProcessorSourceKind::Deploy => PendingQueuePublisherKind::CoordinatorDeploy,
        CoordinatorProcessorSourceKind::Guta => PendingQueuePublisherKind::CoordinatorGuta,
    }
}

/// The generation that is captured, with the digest that commits it.
#[derive(Clone, Copy, Debug, PartialEq, Eq)]
pub struct PendingQueueCaptureContext {
    pub network: NetworkId,
    pub authority: AuthorityScope,
    pub activation_digest: [u8; 32],
    pub checkpoint: u64,
    pub pending: u64,
    pub digest: [u8; 32],
}

impl PendingQueueCaptureContext {
    pub fn same(&self, other: &Self) -> (same: bool)
        ensures
            same == (*self == *other),
    {
        self.network == other.network && self.authority == other.authority && array_equal::<32>(
            &self.activation_digest,
            &other.activation_digest,
        ) && self.checkpoint == other.checkpoint && self.pending == other.pending
            && array_equal::<32>(&self.digest, &other.digest)
    }
}

/// How much one publisher may have put into a generation.
#[derive(Clone, Copy, Debug, PartialEq, Eq, Structural)]
pub struct PendingQueueSourceQuota {
    pub publisher_kind: PendingQueuePublisherKind,
    pub max_data_members: u32,
    pub max_data_stored_bytes: u64,
}

/// The stream segment that a generation was assigned to.
#[derive(Debug, PartialEq, Eq)]
pub struct PendingQueueGenerationSegmentAssignment {
    pub context: PendingQueueCaptureContext,
    pub expected_source_count: u8,
    pub source_quotas: Vec<PendingQueueSourceQuota>,
    pub segment_id: u64,
    pub contract_digest: [u8; 32],
    pub digest: [u8; 32],
}

/// What closed a source: the sequence of its seal marker and of its last data.
#[derive(Clone, Copy, Debug, PartialEq, Eq, Structural)]
pub enum PendingQueueBoundaryObservation {
    NatsJetStream { seal_marker_stream_sequence: u64, last_data_stream_sequence: u64 },
    Other,
}

#[derive(Clone, Copy, Debug, PartialEq, Eq)]
pub struct PendingQueueGenerationBoundary {
    pub context: PendingQueueCaptureContext,
    pub close_intent: [u8; 32],
    pub source_identity: [u8; 32],
    pub observation: PendingQueueBoundaryObservation,
    pub digest: [u8; 32],
}

/// What the queue codec reads from an encoded envelope. A body without data is a
/// control message.
#[derive(Debug, PartialEq, Eq)]
pub struct PendingQueuePublishEnvelope {
    pub publisher_kind: PendingQueuePublisherKind,
    pub artifact_identity: [u8; 32],
    pub segment_id: u64,
    pub contract_digest: [u8; 32],
    pub assignment_digest: [u8; 32],
    pub member_ordinal: u32,
    pub previous_subject_sequence: u64,
    pub previous_envelope_digest: [u8; 32],
    pub body: Option<Vec<u8>>,
    pub digest: [u8; 32],
}

/// One captured message: its bytes, what the queue codec reads from them, and
/// whether the Coordinator accepts it as an item.
#[derive(Debug, PartialEq, Eq)]
pub struct CapturedMessage {
    pub encoded: Vec<u8>,
    pub envelope: Result<PendingQueuePublishEnvelope, String>,
    pub accepted: Result<(), String>,
}

/// One captured batch of a source. `stream_sequences` is there where the batch was
/// read from a stream.
#[derive(Debug, PartialEq, Eq)]
pub struct PendingQueueCaptureCandidate {
    pub context: PendingQueueCaptureContext,
    pub source_identity: [u8; 32],
    pub artifact_identity: [u8; 32],
    pub stream_sequences: Option<Vec<u64>>,
    pub items: Vec<CapturedMessage>,
}

/// One closed source, read back from the store. `accepted` is whether the
/// Coordinator accepts what it is projected to.
#[derive(Debug, PartialEq, Eq)]
pub struct CoordinatorProcessorClosedSourceReadback {
    pub kind: CoordinatorProcessorSourceKind,
    pub candidates: Vec<PendingQueueCaptureCandidate>,
    pub boundary: PendingQueueGenerationBoundary,
    pub accepted: Result<(), String>,
}

#[derive(Clone, Debug, PartialEq, Eq)]
pub enum CoordinatorProcessorDurableProjectionError {
    IdentityMismatch,
    MalformedCompleteSource,
    Core(String),
    Envelope(String),
}

/// One input of the Coordinator.
#[verifier::ext_equal]
#[derive(Clone, Debug, PartialEq, Eq)]
pub struct CoordinatorProcessorDurableCapturedItem<B> {
    pub stream_sequence: u64,
    pub envelope_digest: [u8; 32],
    pub payload: B,
}

pub type CapturedItem = CoordinatorProcessorDurableCapturedItem<Vec<u8>>;

pub type CapturedItemModel = CoordinatorProcessorDurableCapturedItem<Seq<u8>>;

impl View for CoordinatorProcessorDurableCapturedItem<Vec<u8>> {
    type V = CoordinatorProcessorDurableCapturedItem<Seq<u8>>;

    open spec fn view(&self) -> CoordinatorProcessorDurableCapturedItem<Seq<u8>> {
        CoordinatorProcessorDurableCapturedItem {
            stream_sequence: self.stream_sequence,
            envelope_digest: self.envelope_digest,
            payload: self.payload@,
        }
    }
}

pub open spec fn item_models(items: Seq<CapturedItem>) -> Seq<CapturedItemModel> {
    Seq::new(items.len(), |i: int| items[i]@)
}

/// All inputs of one source of one generation.
#[verifier::ext_equal]
#[derive(Clone, Debug, PartialEq, Eq)]
pub struct CoordinatorProcessorDurableCapturedSource<I> {
    pub kind: CoordinatorProcessorSourceKind,
    pub context: PendingQueueCaptureContext,
    pub source_identity: [u8; 32],
    pub boundary_digest: [u8; 32],
    pub items: I,
}

pub type CapturedSource = CoordinatorProcessorDurableCapturedSource<Vec<CapturedItem>>;

pub type CapturedSourceModel = CoordinatorProcessorDurableCapturedSource<Seq<CapturedItemModel>>;

impl View for CoordinatorProcessorDurableCapturedSource<Vec<CapturedItem>> {
    type V = CoordinatorProcessorDurableCapturedSource<Seq<CapturedItemModel>>;

    open spec fn view(&self) -> CoordinatorProcessorDurableCapturedSource<Seq<CapturedItemModel>> {
        CoordinatorProcessorDurableCapturedSource {
            kind: self.kind,
            context: self.context,
            source_identity: self.source_identity,
            boundary_digest: self.boundary_digest,
            items: item_models(self.items@),
        }
    }
}

/// How far a source has been projected: the ordinal that comes next, the sequence
/// and the digest of the last envelope, the bytes so far, and the items.
#[verifier::ext_equal]
pub struct Projection {
    pub expected_ordinal: u32,
    pub previous_sequence: u64,
    pub previous_digest: [u8; 32],
    pub encoded_bytes: u64,
    pub items: Seq<CapturedItemModel>,
}

/// Whether an envelope is the next link of its source's chain.
pub open spec fn continues_chain(
    assignment: &PendingQueueGenerationSegmentAssignment,
    publisher: PendingQueuePublisherKind,
    artifact_identity: [u8; 32],
    projection: Projection,
    stream_sequence: u64,
    envelope: PendingQueuePublishEnvelope,
) -> bool {
    &&& stream_sequence != 0
    &&& projection.previous_sequence == 0 || stream_sequence > projection.previous_sequence
    &&& envelope.publisher_kind == publisher
    &&& envelope.artifact_identity == artifact_identity
    &&& envelope.segment_id == assignment.segment_id
    &&& envelope.contract_digest == assignment.contract_digest
    &&& envelope.assignment_digest == assignment.digest
    &&& envelope.member_ordinal == projection.expected_ordinal
    &&& envelope.previous_subject_sequence == projection.previous_sequence
    &&& envelope.previous_envelope_digest == projection.previous_digest
}

/// The projection after one more message, or why the message is refused.
pub open spec fn with_message(
    assignment: &PendingQueueGenerationSegmentAssignment,
    publisher: PendingQueuePublisherKind,
    artifact_identity: [u8; 32],
    projection: Projection,
    stream_sequence: u64,
    message: CapturedMessage,
) -> Result<Projection, CoordinatorProcessorDurableProjectionError> {
    let encoded_bytes = projection.encoded_bytes + message.encoded@.len();
    if encoded_bytes > u64::MAX {
        Err(CoordinatorProcessorDurableProjectionError::MalformedCompleteSource)
    } else {
        match message.envelope {
            Err(refused) => Err(CoordinatorProcessorDurableProjectionError::Envelope(refused)),
            Ok(envelope) => if !continues_chain(
                assignment,
                publisher,
                artifact_identity,
                projection,
                stream_sequence,
                envelope,
            ) || envelope.body is None {
                Err(CoordinatorProcessorDurableProjectionError::MalformedCompleteSource)
            } else if message.accepted is Err {
                Err(CoordinatorProcessorDurableProjectionError::Core(message.accepted->Err_0))
            } else if projection.expected_ordinal == u32::MAX {
                Err(CoordinatorProcessorDurableProjectionError::MalformedCompleteSource)
            } else {
                Ok(
                    Projection {
                        expected_ordinal: (projection.expected_ordinal + 1) as u32,
                        previous_sequence: stream_sequence,
                        previous_digest: envelope.digest,
                        encoded_bytes: encoded_bytes as u64,
                        items: projection.items.push(
                            CoordinatorProcessorDurableCapturedItem {
                                stream_sequence,
                                envelope_digest: envelope.digest,
                                payload: (envelope.body->0)@,
                            },
                        ),
                    },
                )
            },
        }
    }
}

/// The projection after the first `n` messages of a batch.
pub open spec fn with_messages(
    assignment: &PendingQueueGenerationSegmentAssignment,
    publisher: PendingQueuePublisherKind,
    artifact_identity: [u8; 32],
    projection: Projection,
    sequences: Seq<u64>,
    messages: Seq<CapturedMessage>,
    n: nat,
) -> Result<Projection, CoordinatorProcessorDurableProjectionError>
    decreases n,
{
    if n == 0 {
        Ok(projection)
    } else {
        match with_messages(
            assignment,
            publisher,
            artifact_identity,
            projection,
            sequences,
            messages,
            (n - 1) as nat,
        ) {
            Err(error) => Err(error),
            Ok(before) => with_message(
                assignment,
                publisher,
                artifact_identity,
                before,
                sequences[n - 1],
                messages[n - 1],
            ),
        }
    }
}

/// The projection after one more batch, or why the batch is refused.
pub open spec fn with_candidate(
    assignment: &PendingQueueGenerationSegmentAssignment,
    publisher: PendingQueuePublisherKind,
    context: PendingQueueCaptureContext,
    source_identity: [u8; 32],
    projection: Projection,
    candidate: PendingQueueCaptureCandidate,
) -> Result<Projection, CoordinatorProcessorDurableProjectionError> {
    if candidate.context != context || candidate.source_identity != source_identity {
        Err(CoordinatorProcessorDurableProjectionError::IdentityMismatch)
    } else {
        match candidate.stream_sequences {
            None => Err(CoordinatorProcessorDurableProjectionError::MalformedCompleteSource),
            Some(sequences) => if sequences@.len() != candidate.items@.len() {
                Err(CoordinatorProcessorDurableProjectionError::MalformedCompleteSource)
            } else {
                with_messages(
                    assignment,
                    publisher,
                    candidate.artifact_identity,
                    projection,
                    sequences@,
                    candidate.items@,
                    candidate.items@.len(),
                )
            },
        }
    }
}

/// The projection after the first `n` batches of a source.
pub open spec fn with_candidates(
    assignment: &PendingQueueGenerationSegmentAssignment,
    publisher: PendingQueuePublisherKind,
    context: PendingQueueCaptureContext,
    source_identity: [u8; 32],
    candidates: Seq<PendingQueueCaptureCandidate>,
    n: nat,
) -> Result<Projection, CoordinatorProcessorDurableProjectionError>
    decreases n,
{
    if n == 0 {
        Ok(
            Projection {
                expected_ordinal: 1,
                previous_sequence: 0,
                previous_digest: ZERO_DIGEST,
                encoded_bytes: 0,
                items: Seq::empty(),
            },
        )
    } else {
        match with_candidates(
            assignment,
            publisher,
            context,
            source_identity,
            candidates,
            (n - 1) as nat,
        ) {
            Err(error) => Err(error),
            Ok(before) => with_candidate(
                assignment,
                publisher,
                context,
                source_identity,
                before,
                candidates[n - 1],
            ),
        }
    }
}

/// The first quota of a publisher.
pub open spec fn quota_of(
    quotas: Seq<PendingQueueSourceQuota>,
    publisher: PendingQueuePublisherKind,
) -> Option<
    PendingQueueSourceQuota,
>
    decreases quotas.len(),
{
    if quotas.len() == 0 {
        None
    } else if quotas[0].publisher_kind == publisher {
        Some(quotas[0])
    } else {
        quota_of(quotas.drop_first(), publisher)
    }
}

/// Whether a whole projection ends where its source was closed, within its quota.
pub open spec fn ends_at_boundary(
    projection: Projection,
    observation: PendingQueueBoundaryObservation,
    quota: PendingQueueSourceQuota,
) -> bool {
    match observation {
        PendingQueueBoundaryObservation::NatsJetStream {
            seal_marker_stream_sequence,
            last_data_stream_sequence,
        } => {
            &&& last_data_stream_sequence == projection.previous_sequence
            &&& seal_marker_stream_sequence > last_data_stream_sequence
            &&& projection.items.len() <= quota.max_data_members
            &&& projection.encoded_bytes <= quota.max_data_stored_bytes
        },
        PendingQueueBoundaryObservation::Other => false,
    }
}

/// What a closed source is projected to, or why it is refused.
pub open spec fn projected_source(
    context: PendingQueueCaptureContext,
    assignment: &PendingQueueGenerationSegmentAssignment,
    source: CoordinatorProcessorClosedSourceReadback,
) -> Result<CapturedSourceModel, CoordinatorProcessorDurableProjectionError> {
    let publisher = spec_publisher_kind(source.kind);
    let quota = quota_of(assignment.source_quotas@, publisher);
    if source.boundary.context != context || quota is None {
        Err(CoordinatorProcessorDurableProjectionError::IdentityMismatch)
    } else {
        match with_candidates(
            assignment,
            publisher,
            context,
            source.boundary.source_identity,
            source.candidates@,
            source.candidates@.len(),
        ) {
            Err(error) => Err(error),
            Ok(projection) => if !ends_at_boundary(
                projection,
                source.boundary.observation,
                quota->0,
            ) {
                Err(CoordinatorProcessorDurableProjectionError::MalformedCompleteSource)
            } else if source.accepted is Err {
                Err(CoordinatorProcessorDurableProjectionError::Core(source.accepted->Err_0))
            } else {
                Ok(
                    CoordinatorProcessorDurableCapturedSource {
                        kind: source.kind,
                        context,
                        source_identity: source.boundary.source_identity,
                        boundary_digest: source.boundary.digest,
                        items: projection.items,
                    },
                )
            },
        }
    }
}

fn find_quota(quotas: &[PendingQueueSourceQuota], publisher: PendingQueuePublisherKind) -> (quota:
    Option<PendingQueueSourceQuota>)
    ensures
        quota == quota_of(quotas@, publisher),
{
    let mut i: usize = 0;
    assert(quotas@.subrange(0, quotas@.len() as int) =~= quotas@);
    while i < quotas.len()
        invariant
            i <= quotas@.len(),
            quota_of(quotas@, publisher) == quota_of(
                quotas@.subrange(i as int, quotas@.len() as int),
                publisher,
            ),
        decreases quotas@.len() - i,
    {
        let ghost rest = quotas@.subrange(i as int, quotas@.len() as int);
        if quotas[i].publisher_kind == publisher {
            return Some(quotas[i]);
        }
        assert(rest.drop_first() =~= quotas@.subrange(i + 1, quotas@.len() as int));
        i += 1;
    }
    None
}

/// The state of a running projection.
struct Running {
    expected_ordinal: u32,
    previous_sequence: u64,
    previous_digest: [u8; 32],
    encoded_bytes: u64,
    items: Vec<CapturedItem>,
}

impl Running {
    spec fn model(&self) -> Projection {
        Projection {
            expected_ordinal: self.expected_ordinal,
            previous_sequence: self.previous_sequence,
            previous_digest: self.previous_digest,
            encoded_bytes: self.encoded_bytes,
            items: item_models(self.items@),
        }
    }

    fn message(
        &mut self,
        assignment: &PendingQueueGenerationSegmentAssignment,
        publisher: PendingQueuePublisherKind,
        artifact_identity: &[u8; 32],
        stream_sequence: u64,
        message: &CapturedMessage,
    ) -> (result: Result<(), CoordinatorProcessorDurableProjectionError>)
        ensures
            match (
                result,
                with_message(
                    assignment,
                    publisher,
                    *artifact_identity,
                    old(self).model(),
                    stream_sequence,
                    *message,
                ),
            ) {
                (Ok(_), Ok(next)) => final(self).model() == next,
                (Err(error), Err(expected)) => error == expected,
                _ => false,
            },
    {
        let encoded_bytes: u64 = match self.encoded_bytes.checked_add(message.encoded.len() as u64) {
            Some(encoded_bytes) => encoded_bytes,
            None => {
                return Err(CoordinatorProcessorDurableProjectionError::MalformedCompleteSource);
            },
        };
        let envelope = match &message.envelope {
            Err(refused) => {
                return Err(
                    CoordinatorProcessorDurableProjectionError::Envelope(refused.clone()),
                );
            },
            Ok(envelope) => envelope,
        };
        if stream_sequence == 0 || (self.previous_sequence != 0 && stream_sequence
            <= self.previous_sequence) || envelope.publisher_kind != publisher
            || !array_equal::<32>(&envelope.artifact_identity, artifact_identity)
            || envelope.segment_id != assignment.segment_id || !array_equal::<32>(
            &envelope.contract_digest,
            &assignment.contract_digest,
        ) || !array_equal::<32>(&envelope.assignment_digest, &assignment.digest)
            || envelope.member_ordinal != self.expected_ordinal
            || envelope.previous_subject_sequence != self.previous_sequence
            || !array_equal::<32>(&envelope.previous_envelope_digest, &self.previous_digest) {
            return Err(CoordinatorProcessorDurableProjectionError::MalformedCompleteSource);
        }
        let payload = match &envelope.body {
            None => {
                return Err(CoordinatorProcessorDurableProjectionError::MalformedCompleteSource);
            },
            Some(payload) => payload,
        };
        match &message.accepted {
            Err(refused) => {
                return Err(CoordinatorProcessorDurableProjectionError::Core(refused.clone()));
            },
            Ok(_) => {},
        }
        if self.expected_ordinal == u32::MAX {
            return Err(CoordinatorProcessorDurableProjectionError::MalformedCompleteSource);
        }
        let item = CoordinatorProcessorDurableCapturedItem {
            stream_sequence,
            envelope_digest: envelope.digest,
            payload: copy_bytes(payload.as_slice()),
        };
        self.items.push(item);
        assert(item_models(self.items@) =~= item_models(old(self).items@).push(item@));
        self.expected_ordinal = self.expected_ordinal + 1;
        self.previous_sequence = stream_sequence;
        self.previous_digest = envelope.digest;
        self.encoded_bytes = encoded_bytes;
        Ok(())
    }

    fn candidate(
        &mut self,
        assignment: &PendingQueueGenerationSegmentAssignment,
        publisher: PendingQueuePublisherKind,
        context: &PendingQueueCaptureContext,
        source_identity: &[u8; 32],
        candidate: &PendingQueueCaptureCandidate,
    ) -> (result: Result<(), CoordinatorProcessorDurableProjectionError>)
        ensures
            match (
                result,
                with_candidate(
                    assignment,
                    publisher,
                    *context,
                    *source_identity,
                    old(self).model(),
                    *candidate,
                ),
            ) {
                (Ok(_), Ok(next)) => final(self).model() == next,
                (Err(error), Err(expected)) => error == expected,
                _ => false,
            },
    {
        if !candidate.context.same(context) || !array_equal::<32>(
            &candidate.source_identity,
            source_identity,
        ) {
            return Err(CoordinatorProcessorDurableProjectionError::IdentityMismatch);
        }
        let sequences = match &candidate.stream_sequences {
            None => {
                return Err(CoordinatorProcessorDurableProjectionError::MalformedCompleteSource);
            },
            Some(sequences) => sequences,
        };
        if sequences.len() != candidate.items.len() {
            return Err(CoordinatorProcessorDurableProjectionError::MalformedCompleteSource);
        }
        let ghost start = self.model();
        let mut i: usize = 0;
        while i < sequences.len()
            invariant
                i <= sequences@.len(),
                sequences@.len() == candidate.items@.len(),
                with_messages(
                    assignment,
                    publisher,
                    candidate.artifact_identity,
                    start,
                    sequences@,
                    candidate.items@,
                    i as nat,
                ) == Ok::<Projection, CoordinatorProcessorDurableProjectionError>(self.model()),
                candidate.context == *context,
                candidate.source_identity == *source_identity,
                candidate.stream_sequences == Some(*sequences),
                start == old(self).model(),
            decreases sequences@.len() - i,
        {
            match self.message(
                assignment,
                publisher,
                &candidate.artifact_identity,
                sequences[i],
                &candidate.items[i],
            ) {
                Ok(_) => {},
                Err(error) => {
                    proof {
                        lemma_refusal_stays(
                            assignment,
                            publisher,
                            candidate.artifact_identity,
                            start,
                            sequences@,
                            candidate.items@,
                            (i + 1) as nat,
                            sequences@.len(),
                        );
                    }
                    return Err(error);
                },
            }
            i += 1;
        }
        Ok(())
    }
}

/// A batch that is refused at a message is refused whatever follows.
proof fn lemma_refusal_stays(
    assignment: &PendingQueueGenerationSegmentAssignment,
    publisher: PendingQueuePublisherKind,
    artifact_identity: [u8; 32],
    projection: Projection,
    sequences: Seq<u64>,
    messages: Seq<CapturedMessage>,
    n: nat,
    m: nat,
)
    requires
        n <= m,
        with_messages(
            assignment,
            publisher,
            artifact_identity,
            projection,
            sequences,
            messages,
            n,
        ) is Err,
    ensures
        with_messages(
            assignment,
            publisher,
            artifact_identity,
            projection,
            sequences,
            messages,
            m,
        ) == with_messages(
            assignment,
            publisher,
            artifact_identity,
            projection,
            sequences,
            messages,
            n,
        ),
    decreases m - n,
{
    if n < m {
        lemma_refusal_stays(
            assignment,
            publisher,
            artifact_identity,
            projection,
            sequences,
            messages,
            n,
            (m - 1) as nat,
        );
    }
}

/// A source that is refused at a batch is refused whatever follows.
proof fn lemma_source_refusal_stays(
    assignment: &PendingQueueGenerationSegmentAssignment,
    publisher: PendingQueuePublisherKind,
    context: PendingQueueCaptureContext,
    source_identity: [u8; 32],
    candidates: Seq<PendingQueueCaptureCandidate>,
    n: nat,
    m: nat,
)
    requires
        n <= m,
        with_candidates(assignment, publisher, context, source_identity, candidates, n) is Err,
    ensures
        with_candidates(assignment, publisher, context, source_identity, candidates, m)
            == with_candidates(assignment, publisher, context, source_identity, candidates, n),
    decreases m - n,
{
    if n < m {
        lemma_source_refusal_stays(
            assignment,
            publisher,
            context,
            source_identity,
            candidates,
            n,
            (m - 1) as nat,
        );
    }
}

pub open spec fn source_result(
    result: Result<CapturedSource, CoordinatorProcessorDurableProjectionError>,
) -> Result<CapturedSourceModel, CoordinatorProcessorDurableProjectionError> {
    match result {
        Ok(source) => Ok(source@),
        Err(error) => Err(error),
    }
}

/// Projects one closed source to the inputs it holds.
pub fn project_complete_source(
    context: &PendingQueueCaptureContext,
    assignment: &PendingQueueGenerationSegmentAssignment,
    source: &CoordinatorProcessorClosedSourceReadback,
) -> (result: Result<CapturedSource, CoordinatorProcessorDurableProjectionError>)
    ensures
        source_result(result) == projected_source(*context, assignment, *source),
{
    if !source.boundary.context.same(context) {
        return Err(CoordinatorProcessorDurableProjectionError::IdentityMismatch);
    }
    let publisher = publisher_kind(source.kind);
    let quota = match find_quota(assignment.source_quotas.as_slice(), publisher) {
        None => return Err(CoordinatorProcessorDurableProjectionError::IdentityMismatch),
        Some(quota) => quota,
    };
    let ghost identity = source.boundary.source_identity;
    let ghost candidates = source.candidates@;
    let mut running = Running {
        expected_ordinal: 1,
        previous_sequence: 0,
        previous_digest: ZERO_DIGEST,
        encoded_bytes: 0,
        items: Vec::new(),
    };
    assert(item_models(running.items@) =~= Seq::<CapturedItemModel>::empty());
    let mut i: usize = 0;
    while i < source.candidates.len()
        invariant
            i <= candidates.len(),
            candidates == source.candidates@,
            identity == source.boundary.source_identity,
            publisher == spec_publisher_kind(source.kind),
            source.boundary.context == *context,
            quota_of(assignment.source_quotas@, publisher) == Some(quota),
            with_candidates(assignment, publisher, *context, identity, candidates, i as nat)
                == Ok::<Projection, CoordinatorProcessorDurableProjectionError>(running.model()),
        decreases candidates.len() - i,
    {
        match running.candidate(
            assignment,
            publisher,
            context,
            &source.boundary.source_identity,
            &source.candidates[i],
        ) {
            Ok(_) => {},
            Err(error) => {
                proof {
                    lemma_source_refusal_stays(
                        assignment,
                        publisher,
                        *context,
                        identity,
                        candidates,
                        (i + 1) as nat,
                        candidates.len(),
                    );
                }
                return Err(error);
            },
        }
        i += 1;
    }
    let complete: bool = match source.boundary.observation {
        PendingQueueBoundaryObservation::NatsJetStream {
            seal_marker_stream_sequence,
            last_data_stream_sequence,
        } => last_data_stream_sequence == running.previous_sequence && seal_marker_stream_sequence
            > last_data_stream_sequence && running.items.len() as u64
            <= quota.max_data_members as u64 && running.encoded_bytes
            <= quota.max_data_stored_bytes,
        PendingQueueBoundaryObservation::Other => false,
    };
    if !complete {
        return Err(CoordinatorProcessorDurableProjectionError::MalformedCompleteSource);
    }
    match &source.accepted {
        Err(refused) => Err(CoordinatorProcessorDurableProjectionError::Core(refused.clone())),
        Ok(_) => Ok(
            CoordinatorProcessorDurableCapturedSource {
                kind: source.kind,
                context: *context,
                source_identity: source.boundary.source_identity,
                boundary_digest: source.boundary.digest,
                items: running.items,
            },
        ),
    }
}

/// All inputs of one generation, source by source, with the digest that commits it.
#[verifier::ext_equal]
#[derive(Clone, Debug, PartialEq, Eq)]
pub struct CoordinatorProcessorDurableCapturedGeneration<S> {
    pub context: PendingQueueCaptureContext,
    pub registration: S,
    pub deploy: S,
    pub guta: S,
    pub digest: [u8; 32],
}

pub type CapturedGeneration = CoordinatorProcessorDurableCapturedGeneration<CapturedSource>;

pub type CapturedGenerationModel = CoordinatorProcessorDurableCapturedGeneration<
    CapturedSourceModel,
>;

impl View for CoordinatorProcessorDurableCapturedGeneration<CapturedSource> {
    type V = CoordinatorProcessorDurableCapturedGeneration<CapturedSourceModel>;

    open spec fn view(&self) -> CoordinatorProcessorDurableCapturedGeneration<CapturedSourceModel> {
        CoordinatorProcessorDurableCapturedGeneration {
            context: self.context,
            registration: self.registration@,
            deploy: self.deploy@,
            guta: self.guta@,
            digest: self.digest,
        }
    }
}

impl CoordinatorProcessorDurableCapturedGeneration<CapturedSource> {
    pub open spec fn item_count(&self) -> nat {
        self.registration.items@.len() + self.deploy.items@.len() + self.guta.items@.len()
    }

    /// The number of inputs of all sources together.
    pub fn total_items(&self) -> (items: usize)
        requires
            self.item_count() <= usize::MAX,
        ensures
            items == self.item_count(),
    {
        self.registration.items.len() + self.deploy.items.len() + self.guta.items.len()
    }
}

/// The sources are the three of the assigned Coordinator generation, in their fixed
/// order, all closed by one intent.
pub open spec fn complete_generation(
    context: PendingQueueCaptureContext,
    assignment: &PendingQueueGenerationSegmentAssignment,
    sources: Seq<CoordinatorProcessorClosedSourceReadback>,
) -> bool {
    &&& assignment.context == context
    &&& context.authority == AuthorityScope::Coordinator
    &&& assignment.expected_source_count == SOURCE_COUNT
    &&& assignment.source_quotas@.len() == SOURCE_COUNT
    &&& sources.len() == SOURCE_COUNT
    &&& sources[0].kind == spec_source_at(0)
    &&& sources[1].kind == spec_source_at(1)
    &&& sources[2].kind == spec_source_at(2)
    &&& sources[1].boundary.close_intent == sources[0].boundary.close_intent
    &&& sources[2].boundary.close_intent == sources[0].boundary.close_intent
}

/// What three closed sources are projected to. `accepted` is the digest under which
/// the Coordinator accepts the generation, or why it does not.
pub open spec fn projected_generation(
    context: PendingQueueCaptureContext,
    assignment: &PendingQueueGenerationSegmentAssignment,
    sources: Seq<CoordinatorProcessorClosedSourceReadback>,
    accepted: Result<[u8; 32], String>,
) -> Result<CapturedGenerationModel, CoordinatorProcessorDurableProjectionError> {
    if !complete_generation(context, assignment, sources) {
        Err(CoordinatorProcessorDurableProjectionError::IdentityMismatch)
    } else {
        match projected_source(context, assignment, sources[0]) {
            Err(error) => Err(error),
            Ok(registration) => match projected_source(context, assignment, sources[1]) {
                Err(error) => Err(error),
                Ok(deploy) => match projected_source(context, assignment, sources[2]) {
                    Err(error) => Err(error),
                    Ok(guta) => match accepted {
                        Err(refused) => Err(
                            CoordinatorProcessorDurableProjectionError::Core(refused),
                        ),
                        Ok(digest) => Ok(
                            CoordinatorProcessorDurableCapturedGeneration {
                                context,
                                registration,
                                deploy,
                                guta,
                                digest,
                            },
                        ),
                    },
                },
            },
        }
    }
}

pub open spec fn generation_result(
    result: Result<CapturedGeneration, CoordinatorProcessorDurableProjectionError>,
) -> Result<CapturedGenerationModel, CoordinatorProcessorDurableProjectionError> {
    match result {
        Ok(generation) => Ok(generation@),
        Err(error) => Err(error),
    }
}

/// Projects the three closed sources of a generation.
pub fn project_complete_generation(
    context: &PendingQueueCaptureContext,
    assignment: &PendingQueueGenerationSegmentAssignment,
    sources: &[CoordinatorProcessorClosedSourceReadback],
    accepted: Result<[u8; 32], String>,
) -> (result: Result<CapturedGeneration, CoordinatorProcessorDurableProjectionError>)
    ensures
        generation_result(result) == projected_generation(*context, assignment, sources@, accepted),
{
    let coordinator: bool = match context.authority {
        AuthorityScope::Coordinator => true,
        _ => false,
    };
    if !assignment.context.same(context) || !coordinator || assignment.expected_source_count as usize
        != SOURCE_COUNT || assignment.source_quotas.len() != SOURCE_COUNT || sources.len()
        != SOURCE_COUNT || sources[0].kind != source_at(0) || sources[1].kind != source_at(1)
        || sources[2].kind != source_at(2) || !array_equal::<32>(
        &sources[1].boundary.close_intent,
        &sources[0].boundary.close_intent,
    ) || !array_equal::<32>(
        &sources[2].boundary.close_intent,
        &sources[0].boundary.close_intent,
    ) {
        return Err(CoordinatorProcessorDurableProjectionError::IdentityMismatch);
    }
    let registration = project_complete_source(context, assignment, &sources[0])?;
    let deploy = project_complete_source(context, assignment, &sources[1])?;
    let guta = project_complete_source(context, assignment, &sources[2])?;
    match accepted {
        Err(refused) => Err(CoordinatorProcessorDurableProjectionError::Core(refused)),
        Ok(digest) => Ok(
            CoordinatorProcessorDurableCapturedGeneration {
                context: *context,
                registration,
                deploy,
                guta,
                digest,
            },
        ),
    }
}

/// The items of a projection are in stream order without a repeat, and the
/// projection stands at the last of them.
pub open spec fn in_stream_order(projection: Projection) -> bool {
    &&& projection.expected_ordinal == projection.items.len() + 1
    &&& forall|i: int, j: int|
        0 <= i < j < projection.items.len() ==> (#[trigger] projection.items[i]).stream_sequence < (
        #[trigger] projection.items[j]).stream_sequence
    &&& forall|i: int|
        0 <= i < projection.items.len() ==> 0 < (#[trigger] projection.items[i]).stream_sequence
            <= projection.previous_sequence
    &&& if projection.items.len() == 0 {
        projection.previous_sequence == 0
    } else {
        projection.previous_sequence == projection.items.last().stream_sequence
    }
}

proof fn lemma_messages_in_stream_order(
    assignment: &PendingQueueGenerationSegmentAssignment,
    publisher: PendingQueuePublisherKind,
    artifact_identity: [u8; 32],
    projection: Projection,
    sequences: Seq<u64>,
    messages: Seq<CapturedMessage>,
    n: nat,
)
    requires
        in_stream_order(projection),
    ensures
        with_messages(
            assignment,
            publisher,
            artifact_identity,
            projection,
            sequences,
            messages,
            n,
        ) matches Ok(after) ==> in_stream_order(after),
    decreases n,
{
    if n > 0 {
        lemma_messages_in_stream_order(
            assignment,
            publisher,
            artifact_identity,
            projection,
            sequences,
            messages,
            (n - 1) as nat,
        );
    }
}

proof fn lemma_candidates_in_stream_order(
    assignment: &PendingQueueGenerationSegmentAssignment,
    publisher: PendingQueuePublisherKind,
    context: PendingQueueCaptureContext,
    source_identity: [u8; 32],
    candidates: Seq<PendingQueueCaptureCandidate>,
    n: nat,
)
    ensures
        with_candidates(
            assignment,
            publisher,
            context,
            source_identity,
            candidates,
            n,
        ) matches Ok(after) ==> in_stream_order(after),
    decreases n,
{
    if n > 0 {
        lemma_candidates_in_stream_order(
            assignment,
            publisher,
            context,
            source_identity,
            candidates,
            (n - 1) as nat,
        );
        if let Ok(before) = with_candidates(
            assignment,
            publisher,
            context,
            source_identity,
            candidates,
            (n - 1) as nat,
        ) {
            let candidate = candidates[n - 1];
            if let Some(sequences) = candidate.stream_sequences {
                lemma_messages_in_stream_order(
                    assignment,
                    publisher,
                    candidate.artifact_identity,
                    before,
                    sequences@,
                    candidate.items@,
                    candidate.items@.len(),
                );
            }
        }
    }
}

/// The inputs of a projected source are in stream order without a repeat, end at the
/// last data that the close boundary names, and stay within the source's quota.
pub proof fn law_projected_source_ends_at_its_boundary(
    context: PendingQueueCaptureContext,
    assignment: &PendingQueueGenerationSegmentAssignment,
    source: CoordinatorProcessorClosedSourceReadback,
)
    ensures
        projected_source(context, assignment, source) matches Ok(projected) ==> {
            &&& projected.kind == source.kind
            &&& forall|i: int, j: int|
                0 <= i < j < projected.items.len() ==> (#[trigger] projected.items[i]).stream_sequence
                    < (#[trigger] projected.items[j]).stream_sequence
            &&& source.boundary.observation matches PendingQueueBoundaryObservation::NatsJetStream {
                seal_marker_stream_sequence,
                last_data_stream_sequence,
            } && last_data_stream_sequence < seal_marker_stream_sequence
                && last_data_stream_sequence == (if projected.items.len() == 0 {
                0
            } else {
                projected.items.last().stream_sequence
            })
            &&& quota_of(
                assignment.source_quotas@,
                spec_publisher_kind(source.kind),
            ) matches Some(quota) && projected.items.len() <= quota.max_data_members
        },
{
    lemma_candidates_in_stream_order(
        assignment,
        spec_publisher_kind(source.kind),
        context,
        source.boundary.source_identity,
        source.candidates@,
        source.candidates@.len(),
    );
}

/// A captured message with its place in the stream and the artifact of its batch.
pub struct FlowMember {
    pub sequence: u64,
    pub artifact: [u8; 32],
    pub message: CapturedMessage,
}

/// The messages of one batch.
pub open spec fn batch_flow(candidate: PendingQueueCaptureCandidate) -> Seq<FlowMember> {
    Seq::new(
        candidate.items@.len(),
        |j: int|
            FlowMember {
                sequence: (candidate.stream_sequences->0)@[j],
                artifact: candidate.artifact_identity,
                message: candidate.items@[j],
            },
    )
}

/// The messages of the first `n` batches, one after the other.
pub open spec fn flow_of(candidates: Seq<PendingQueueCaptureCandidate>, n: nat) -> Seq<FlowMember>
    decreases n,
{
    if n == 0 {
        Seq::empty()
    } else {
        flow_of(candidates, (n - 1) as nat) + batch_flow(candidates[n - 1])
    }
}

/// The bytes that messages are stored in.
pub open spec fn flow_bytes(flow: Seq<FlowMember>) -> nat
    decreases flow.len(),
{
    if flow.len() == 0 {
        0
    } else {
        flow_bytes(flow.drop_last()) + flow.last().message.encoded@.len()
    }
}

/// The digest of the envelope of the message before the one at a place.
pub open spec fn digest_before(flow: Seq<FlowMember>, k: int) -> [u8; 32] {
    if k == 0 {
        ZERO_DIGEST
    } else {
        flow[k - 1].message.envelope->Ok_0.digest
    }
}

/// The place in the stream of the message before the one at a place.
pub open spec fn sequence_before(flow: Seq<FlowMember>, k: int) -> u64 {
    if k == 0 {
        0
    } else {
        flow[k - 1].sequence
    }
}

/// The message at a place is an accepted data message of the assigned segment, counts
/// its place from one, and names the message before it.
#[verifier::opaque]
pub open spec fn links(
    assignment: &PendingQueueGenerationSegmentAssignment,
    publisher: PendingQueuePublisherKind,
    flow: Seq<FlowMember>,
    k: int,
) -> bool {
    flow[k].message.envelope matches Ok(envelope) && {
        &&& flow[k].sequence > sequence_before(flow, k)
        &&& envelope.publisher_kind == publisher
        &&& envelope.artifact_identity == flow[k].artifact
        &&& envelope.segment_id == assignment.segment_id
        &&& envelope.contract_digest == assignment.contract_digest
        &&& envelope.assignment_digest == assignment.digest
        &&& envelope.member_ordinal == k + 1
        &&& envelope.previous_subject_sequence == sequence_before(flow, k)
        &&& envelope.previous_envelope_digest == digest_before(flow, k)
        &&& envelope.body is Some
        &&& flow[k].message.accepted is Ok
    }
}

/// Every message links to the one before it, and they can be counted.
pub open spec fn linked(
    assignment: &PendingQueueGenerationSegmentAssignment,
    publisher: PendingQueuePublisherKind,
    flow: Seq<FlowMember>,
) -> bool {
    &&& flow.len() < u32::MAX
    &&& flow_bytes(flow) <= u64::MAX
    &&& forall|k: int| 0 <= k < flow.len() ==> #[trigger] links(assignment, publisher, flow, k)
}

/// The input that a message makes.
pub open spec fn flow_item(member: FlowMember) -> CapturedItemModel {
    CoordinatorProcessorDurableCapturedItem {
        stream_sequence: member.sequence,
        envelope_digest: member.message.envelope->Ok_0.digest,
        payload: (member.message.envelope->Ok_0.body->0)@,
    }
}

spec fn flow_state(flow: Seq<FlowMember>) -> Projection {
    Projection {
        expected_ordinal: (flow.len() + 1) as u32,
        previous_sequence: sequence_before(flow, flow.len() as int),
        previous_digest: digest_before(flow, flow.len() as int),
        encoded_bytes: flow_bytes(flow) as u64,
        items: Seq::new(flow.len(), |k: int| flow_item(flow[k])),
    }
}

proof fn lemma_longer_flow(
    assignment: &PendingQueueGenerationSegmentAssignment,
    publisher: PendingQueuePublisherKind,
    flow: Seq<FlowMember>,
    longer: Seq<FlowMember>,
)
    requires
        flow.len() <= longer.len(),
        longer.take(flow.len() as int) == flow,
    ensures
        linked(assignment, publisher, longer) ==> linked(assignment, publisher, flow),
        flow_bytes(flow) <= flow_bytes(longer),
        forall|k: int|
            0 <= k < flow.len() ==> #[trigger] links(assignment, publisher, flow, k) == links(
                assignment,
                publisher,
                longer,
                k,
            ),
    decreases longer.len(),
{
    assert forall|k: int| 0 <= k < flow.len() implies #[trigger] links(
        assignment,
        publisher,
        flow,
        k,
    ) == links(assignment, publisher, longer, k) by {
        assert(flow[k] == longer[k]);
        if k > 0 {
            assert(flow[k - 1] == longer[k - 1]);
        }
        reveal(links);
    }
    if flow.len() == longer.len() {
        assert(longer =~= flow);
    } else {
        let front = longer.drop_last();
        assert(front.take(flow.len() as int) =~= flow);
        lemma_longer_flow(assignment, publisher, flow, front);
    }
}

proof fn lemma_message_links(
    assignment: &PendingQueueGenerationSegmentAssignment,
    publisher: PendingQueuePublisherKind,
    flow: Seq<FlowMember>,
    member: FlowMember,
)
    requires
        linked(assignment, publisher, flow),
    ensures
        ({
            let after = with_message(
                assignment,
                publisher,
                member.artifact,
                flow_state(flow),
                member.sequence,
                member.message,
            );
            &&& after is Ok <==> linked(assignment, publisher, flow.push(member))
            &&& after is Ok ==> after->Ok_0 == flow_state(flow.push(member))
        }),
{
    let more = flow.push(member);
    let n = flow.len() as int;
    assert(more.drop_last() =~= flow);
    assert(more.take(n) =~= flow);
    lemma_longer_flow(assignment, publisher, flow, more);
    if n > 0 {
        assert(more[n - 1] == flow[n - 1]);
    }
    assert(digest_before(more, n) == digest_before(flow, n));
    assert(sequence_before(more, n) == sequence_before(flow, n));
    let after = with_message(
        assignment,
        publisher,
        member.artifact,
        flow_state(flow),
        member.sequence,
        member.message,
    );
    reveal(links);
    if n > 0 {
        assert(links(assignment, publisher, flow, n - 1));
    }
    assert(after is Ok <==> links(assignment, publisher, more, n) && flow_bytes(more) <= u64::MAX
        && more.len() < u32::MAX);
    if after is Ok {
        assert forall|k: int| 0 <= k < more.len() implies #[trigger] links(
            assignment,
            publisher,
            more,
            k,
        ) by {
            if k < n {
                assert(links(assignment, publisher, flow, k));
            }
        }
        assert(after->Ok_0.items =~= flow_state(more).items);
    }
}

proof fn lemma_messages_link(
    assignment: &PendingQueueGenerationSegmentAssignment,
    publisher: PendingQueuePublisherKind,
    flow: Seq<FlowMember>,
    candidate: PendingQueueCaptureCandidate,
    n: nat,
)
    requires
        linked(assignment, publisher, flow),
        n <= candidate.items@.len(),
    ensures
        ({
            let after = with_messages(
                assignment,
                publisher,
                candidate.artifact_identity,
                flow_state(flow),
                (candidate.stream_sequences->0)@,
                candidate.items@,
                n,
            );
            let more = flow + batch_flow(candidate).take(n as int);
            &&& after is Ok <==> linked(assignment, publisher, more)
            &&& after is Ok ==> after->Ok_0 == flow_state(more)
        }),
    decreases n,
{
    let batch = batch_flow(candidate);
    let more = flow + batch.take(n as int);
    if n == 0 {
        assert(more =~= flow);
    } else {
        let before = flow + batch.take(n - 1);
        lemma_messages_link(assignment, publisher, flow, candidate, (n - 1) as nat);
        assert(more =~= before.push(batch[n - 1]));
        if linked(assignment, publisher, before) {
            lemma_message_links(assignment, publisher, before, batch[n - 1]);
        } else {
            assert(more.take(before.len() as int) =~= before);
            lemma_longer_flow(assignment, publisher, before, more);
        }
    }
}

/// A batch belongs to the source: it has the source's generation and identity, and a
/// place in the stream for each of its messages.
pub open spec fn batch_of(
    candidate: PendingQueueCaptureCandidate,
    context: PendingQueueCaptureContext,
    source_identity: [u8; 32],
) -> bool {
    &&& candidate.context == context
    &&& candidate.source_identity == source_identity
    &&& candidate.stream_sequences matches Some(sequences) && sequences@.len()
        == candidate.items@.len()
}

proof fn lemma_candidates_link(
    assignment: &PendingQueueGenerationSegmentAssignment,
    publisher: PendingQueuePublisherKind,
    context: PendingQueueCaptureContext,
    source_identity: [u8; 32],
    candidates: Seq<PendingQueueCaptureCandidate>,
    n: nat,
)
    requires
        n <= candidates.len(),
    ensures
        ({
            let after = with_candidates(
                assignment,
                publisher,
                context,
                source_identity,
                candidates,
                n,
            );
            let flow = flow_of(candidates, n);
            &&& after is Ok <==> linked(assignment, publisher, flow) && forall|b: int|
                0 <= b < n ==> batch_of(#[trigger] candidates[b], context, source_identity)
            &&& after is Ok ==> after->Ok_0 == flow_state(flow)
        }),
    decreases n,
{
    let flow = flow_of(candidates, n);
    if n == 0 {
        assert(flow_state(flow).items =~= Seq::empty());
    } else {
        let before = flow_of(candidates, (n - 1) as nat);
        let candidate = candidates[n - 1];
        lemma_candidates_link(
            assignment,
            publisher,
            context,
            source_identity,
            candidates,
            (n - 1) as nat,
        );
        assert(flow.take(before.len() as int) =~= before);
        lemma_longer_flow(assignment, publisher, before, flow);
        if linked(assignment, publisher, before) {
            lemma_messages_link(assignment, publisher, before, candidate, candidate.items@.len());
            let batch = batch_flow(candidate);
            assert(batch.take(candidate.items@.len() as int) =~= batch);
        }
    }
}

/// If a source is projected, its inputs are, in order, exactly the captured messages of
/// all its batches: the input at a place has the stream sequence of the message at that
/// place, the digest of that message's own envelope, and the data of that envelope's
/// body. What is projected has the kind, identity and boundary of the source.
pub proof fn law_inputs_are_the_captured_messages(
    context: PendingQueueCaptureContext,
    assignment: &PendingQueueGenerationSegmentAssignment,
    source: CoordinatorProcessorClosedSourceReadback,
)
    ensures
        projected_source(context, assignment, source) matches Ok(projected) ==> {
            let flow = flow_of(source.candidates@, source.candidates@.len());
            &&& projected.items.len() == flow.len()
            &&& forall|k: int|
                0 <= k < flow.len() ==> (#[trigger] flow[k]).message.envelope is Ok
                    && flow[k].message.envelope->Ok_0.body is Some
            &&& forall|k: int|
                0 <= k < flow.len() ==> (#[trigger] projected.items[k]).stream_sequence
                    == flow[k].sequence && projected.items[k].envelope_digest
                    == flow[k].message.envelope->Ok_0.digest && projected.items[k].payload
                    == (flow[k].message.envelope->Ok_0.body->0)@
            &&& projected.kind == source.kind
            &&& projected.context == context
            &&& projected.source_identity == source.boundary.source_identity
            &&& projected.boundary_digest == source.boundary.digest
        },
{
    let publisher = spec_publisher_kind(source.kind);
    let candidates = source.candidates@;
    lemma_candidates_link(
        assignment,
        publisher,
        context,
        source.boundary.source_identity,
        candidates,
        candidates.len(),
    );
    if let Ok(projected) = projected_source(context, assignment, source) {
        let flow = flow_of(candidates, candidates.len());
        assert forall|k: int| 0 <= k < flow.len() implies (
        #[trigger] flow[k]).message.envelope is Ok && flow[k].message.envelope->Ok_0.body
            is Some by {
            assert(links(assignment, publisher, flow, k));
            reveal(links);
        }
        assert forall|k: int| 0 <= k < flow.len() implies #[trigger] projected.items[k]
            == flow_item(flow[k]) by {}
    }
}

/// A source is projected exactly if its boundary and every batch are of the generation
/// and the source, the publisher has a quota, every message links to the one before it,
/// the stream ends with the last of them before the seal marker, their number and bytes
/// are within the quota, and the Coordinator accepts the whole.
pub proof fn law_linked_sources_are_projected(
    context: PendingQueueCaptureContext,
    assignment: &PendingQueueGenerationSegmentAssignment,
    source: CoordinatorProcessorClosedSourceReadback,
)
    ensures
        ({
            let publisher = match source.kind {
                CoordinatorProcessorSourceKind::Registration => {
                    PendingQueuePublisherKind::CoordinatorRegistration
                },
                CoordinatorProcessorSourceKind::Deploy => {
                    PendingQueuePublisherKind::CoordinatorDeploy
                },
                CoordinatorProcessorSourceKind::Guta => PendingQueuePublisherKind::CoordinatorGuta,
            };
            let flow = flow_of(source.candidates@, source.candidates@.len());
            let last = sequence_before(flow, flow.len() as int);
            projected_source(context, assignment, source) is Ok <==> {
                &&& source.boundary.context == context
                &&& forall|b: int|
                    0 <= b < source.candidates@.len() ==> batch_of(
                        #[trigger] source.candidates@[b],
                        context,
                        source.boundary.source_identity,
                    )
                &&& linked(assignment, publisher, flow)
                &&& source.boundary.observation
                    matches PendingQueueBoundaryObservation::NatsJetStream {
                    seal_marker_stream_sequence,
                    last_data_stream_sequence,
                } && last_data_stream_sequence == last && seal_marker_stream_sequence > last
                &&& quota_of(assignment.source_quotas@, publisher) matches Some(quota)
                    && flow.len() <= quota.max_data_members && flow_bytes(flow)
                    <= quota.max_data_stored_bytes
                &&& source.accepted is Ok
            }
        }),
{
    let publisher = spec_publisher_kind(source.kind);
    let candidates = source.candidates@;
    lemma_candidates_link(
        assignment,
        publisher,
        context,
        source.boundary.source_identity,
        candidates,
        candidates.len(),
    );
}

/// A publisher's quota is the first that the assignment lists for it.
pub proof fn law_quota_is_the_publishers_own(
    quotas: Seq<PendingQueueSourceQuota>,
    publisher: PendingQueuePublisherKind,
)
    ensures
        match quota_of(quotas, publisher) {
            None => forall|i: int|
                0 <= i < quotas.len() ==> (#[trigger] quotas[i]).publisher_kind != publisher,
            Some(quota) => exists|i: int|
                0 <= i < quotas.len() && #[trigger] quotas[i] == quota && quota.publisher_kind
                    == publisher && forall|k: int|
                    0 <= k < i ==> (#[trigger] quotas[k]).publisher_kind != publisher,
        },
    decreases quotas.len(),
{
    if quotas.len() > 0 {
        if quotas[0].publisher_kind == publisher {
            assert(quotas[0] == quota_of(quotas, publisher)->0);
        } else {
            let rest = quotas.drop_first();
            law_quota_is_the_publishers_own(rest, publisher);
            match quota_of(rest, publisher) {
                None => {
                    assert forall|i: int| 0 <= i < quotas.len() implies (
                    #[trigger] quotas[i]).publisher_kind != publisher by {
                        if i > 0 {
                            assert(rest[i - 1] == quotas[i]);
                        }
                    }
                },
                Some(quota) => {
                    let i = choose|i: int|
                        0 <= i < rest.len() && #[trigger] rest[i] == quota && quota.publisher_kind
                            == publisher && forall|k: int|
                            0 <= k < i ==> (#[trigger] rest[k]).publisher_kind != publisher;
                    assert(quotas[i + 1] == quota);
                    assert forall|k: int| 0 <= k < i + 1 implies (
                    #[trigger] quotas[k]).publisher_kind != publisher by {
                        if k > 0 {
                            assert(rest[k - 1] == quotas[k]);
                        }
                    }
                },
            }
        }
    }
}

/// A generation is projected exactly if it is the Coordinator's own assigned one, its
/// three sources are the registration, the deploy and the guta source in this order,
/// closed by one intent, each of them is projected, and the Coordinator accepts the
/// whole. It holds what each source is projected to, in that source's own place.
pub proof fn law_generation_holds_its_three_sources(
    context: PendingQueueCaptureContext,
    assignment: &PendingQueueGenerationSegmentAssignment,
    sources: Seq<CoordinatorProcessorClosedSourceReadback>,
    accepted: Result<[u8; 32], String>,
)
    ensures
        ({
            let whole = projected_generation(context, assignment, sources, accepted);
            &&& whole is Ok <==> {
                &&& context.authority is Coordinator
                &&& assignment.context == context
                &&& assignment.expected_source_count == 3
                &&& assignment.source_quotas@.len() == 3
                &&& sources.len() == 3
                &&& sources[0].kind is Registration
                &&& sources[1].kind is Deploy
                &&& sources[2].kind is Guta
                &&& forall|i: int, j: int|
                    0 <= i < 3 && 0 <= j < 3 ==> (#[trigger] sources[i]).boundary.close_intent == (
                    #[trigger] sources[j]).boundary.close_intent
                &&& forall|i: int|
                    0 <= i < 3 ==> projected_source(context, assignment, #[trigger] sources[i]) is Ok
                &&& accepted is Ok
            }
            &&& whole matches Ok(generation) ==> {
                &&& generation.context == context
                &&& generation.digest == accepted->Ok_0
                &&& projected_source(context, assignment, sources[0]) == Ok::<
                    _,
                    CoordinatorProcessorDurableProjectionError,
                >(generation.registration)
                &&& projected_source(context, assignment, sources[1]) == Ok::<
                    _,
                    CoordinatorProcessorDurableProjectionError,
                >(generation.deploy)
                &&& projected_source(context, assignment, sources[2]) == Ok::<
                    _,
                    CoordinatorProcessorDurableProjectionError,
                >(generation.guta)
            }
            &&& whole matches Err(error) ==> (error is IdentityMismatch || sources.len() == 3)
        }),
{
    if sources.len() == 3 {
        assert forall|i: int, j: int|
            complete_generation(context, assignment, sources) && 0 <= i < 3 && 0 <= j < 3 implies (
        #[trigger] sources[i]).boundary.close_intent == (#[trigger] sources[j]).boundary.close_intent
            by {
            assert(i == 0 || i == 1 || i == 2);
            assert(j == 0 || j == 1 || j == 2);
        }
        assert forall|i: int|
            projected_generation(context, assignment, sources, accepted) is Ok && 0 <= i
                < 3 implies projected_source(context, assignment, #[trigger] sources[i]) is Ok by {
            assert(i == 0 || i == 1 || i == 2);
        }
    }
}

} // verus!
