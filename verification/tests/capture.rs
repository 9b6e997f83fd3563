//! The capture of the Coordinator's queues and the payload that restores its singletons.

use psy_rollback::coordinator_commit_target_restore::{
    restore_digest, CoordinatorCommitTargetRestoreError, RestorePayload,
};
use psy_rollback::coordinator_processor_capture_open::{
    advance_replay, capture_or_replay, consumer_operation, owner_attempt, owner_reason,
    prepare_factory, projection, CaptureFactory, CaptureOpen, CaptureOpenEvent, CaptureOpenStage,
    CaptureRoundEvent, CaptureRoundStage, CaptureSpec, CoordinatorProcessorDurableCaptureError,
    PipelineView, ReplayEvent, ReplayStage, SealedCoordinatorProcessorDurableCaptureRequest,
};
use psy_rollback::coordinator_processor_durable_capture::{
    project_complete_generation, project_complete_source, publisher_kind, source_at,
    CapturedMessage, CoordinatorProcessorClosedSourceReadback,
    CoordinatorProcessorDurableProjectionError, CoordinatorProcessorSourceKind,
    PendingQueueBoundaryObservation, PendingQueueCaptureCandidate, PendingQueueCaptureContext,
    PendingQueueGenerationBoundary, PendingQueueGenerationSegmentAssignment,
    PendingQueuePublishEnvelope, PendingQueuePublisherKind, PendingQueueSourceQuota, SOURCE_COUNT,
};
use psy_rollback::model::{
    AuthorityScope, CanonicalChainRef, CheckpointRef, CoordinatorCommitSource,
    CoordinatorCommitSourceCommitted, DecodedL2, DecodedPreparedUpdate, FenceWindow, NetworkId,
    QEDL2BlockState, RollbackControlState, RollbackExecutionMode, RollbackFloor, RollbackRequest,
    SourceCell, StoredHead,
};
use sha2::{Digest, Sha256};

const NETWORK: NetworkId = NetworkId { chain_id: 1337 };

fn sha(parts: &[&[u8]]) -> [u8; 32] {
    let mut hasher = Sha256::new();
    for part in parts {
        hasher.update(part);
    }
    hasher.finalize().into()
}

struct Fixture {
    context: PendingQueueCaptureContext,
    assignment: PendingQueueGenerationSegmentAssignment,
    source_identities: [[u8; 32]; 3],
}

fn context() -> PendingQueueCaptureContext {
    PendingQueueCaptureContext {
        network: NETWORK,
        authority: AuthorityScope::Coordinator,
        activation_digest: [3; 32],
        checkpoint: 7,
        pending: 99,
        digest: [0x77; 32],
    }
}

fn fixture() -> Fixture {
    fixture_with_data_limits([127 * 1024 * 1024; 3])
}

fn fixture_with_data_limits(max_data_stored_bytes: [u64; 3]) -> Fixture {
    Fixture {
        context: context(),
        assignment: PendingQueueGenerationSegmentAssignment {
            context: context(),
            expected_source_count: 3,
            source_quotas: (0..3)
                .map(|index| PendingQueueSourceQuota {
                    publisher_kind: publisher_kind(source_at(index)),
                    max_data_members: 100,
                    max_data_stored_bytes: max_data_stored_bytes[index],
                })
                .collect(),
            segment_id: 1,
            contract_digest: [0x21; 32],
            digest: [0x22; 32],
        },
        source_identities: [[0x31; 32], [0x32; 32], [0x33; 32]],
    }
}

fn artifact_identity(fixture: &Fixture, route: usize) -> [u8; 32] {
    sha(&[&fixture.context.digest, &fixture.source_identities[route]])
}

fn data(
    fixture: &Fixture,
    route: usize,
    ordinal: u32,
    previous_sequence: u64,
    previous_digest: [u8; 32],
    payload: &[u8],
) -> PendingQueuePublishEnvelope {
    PendingQueuePublishEnvelope {
        publisher_kind: publisher_kind(source_at(route)),
        artifact_identity: artifact_identity(fixture, route),
        segment_id: 1,
        contract_digest: [0x21; 32],
        assignment_digest: [0x22; 32],
        member_ordinal: ordinal,
        previous_subject_sequence: previous_sequence,
        previous_envelope_digest: previous_digest,
        body: Some(payload.to_vec()),
        digest: sha(&[&[route as u8], &ordinal.to_be_bytes(), &previous_digest, payload]),
    }
}

fn candidate(
    fixture: &Fixture,
    route: usize,
    sequences: &[u64],
    envelopes: Vec<PendingQueuePublishEnvelope>,
) -> PendingQueueCaptureCandidate {
    PendingQueueCaptureCandidate {
        context: fixture.context,
        source_identity: fixture.source_identities[route],
        artifact_identity: artifact_identity(fixture, route),
        stream_sequences: Some(sequences.to_vec()),
        items: envelopes
            .into_iter()
            .map(|envelope| CapturedMessage {
                encoded: [&envelope.digest[..], envelope.body.as_deref().unwrap_or(&[])].concat(),
                envelope: Ok(envelope),
                accepted: Ok(()),
            })
            .collect(),
    }
}

fn boundary(
    fixture: &Fixture,
    route: usize,
    seal_sequence: u64,
    last_data_sequence: u64,
    close_marker: u8,
) -> PendingQueueGenerationBoundary {
    PendingQueueGenerationBoundary {
        context: fixture.context,
        close_intent: [close_marker; 32],
        source_identity: fixture.source_identities[route],
        observation: PendingQueueBoundaryObservation::NatsJetStream {
            seal_marker_stream_sequence: seal_sequence,
            last_data_stream_sequence: last_data_sequence,
        },
        digest: [0x44; 32],
    }
}

fn closed_source(
    fixture: &Fixture,
    kind: CoordinatorProcessorSourceKind,
    route: usize,
    base_sequence: u64,
    payloads: &[&[u8]],
) -> CoordinatorProcessorClosedSourceReadback {
    let mut previous_sequence = 0;
    let mut previous_digest = [0; 32];
    let mut envelopes = Vec::new();
    let mut sequences = Vec::new();
    for (index, payload) in payloads.iter().enumerate() {
        let envelope = data(
            fixture,
            route,
            index as u32 + 1,
            previous_sequence,
            previous_digest,
            payload,
        );
        previous_sequence = base_sequence + index as u64;
        previous_digest = envelope.digest;
        sequences.push(previous_sequence);
        envelopes.push(envelope);
    }
    CoordinatorProcessorClosedSourceReadback {
        kind,
        candidates: if envelopes.is_empty() {
            Vec::new()
        } else {
            vec![candidate(fixture, route, &sequences, envelopes)]
        },
        boundary: boundary(fixture, route, previous_sequence + 1, previous_sequence, 9),
        accepted: Ok(()),
    }
}

fn three_sources(fixture: &Fixture) -> Vec<CoordinatorProcessorClosedSourceReadback> {
    vec![
        closed_source(
            fixture,
            CoordinatorProcessorSourceKind::Registration,
            0,
            10,
            &[b"registration-1", b"registration-2"],
        ),
        closed_source(fixture, CoordinatorProcessorSourceKind::Deploy, 1, 20, &[]),
        closed_source(fixture, CoordinatorProcessorSourceKind::Guta, 2, 30, &[b"guta-1"]),
    ]
}

#[test]
fn three_closed_sources_project_in_fixed_order_with_explicit_empty() {
    let fixture = fixture();
    let generation = project_complete_generation(
        &fixture.context,
        &fixture.assignment,
        &three_sources(&fixture),
        Ok([0x66; 32]),
    )
    .unwrap();
    assert_eq!(generation.total_items(), 3);
    assert_eq!(generation.registration.items.len(), 2);
    assert!(generation.deploy.items.is_empty());
    assert_eq!(generation.guta.items.len(), 1);
    assert_ne!(generation.digest, [0; 32]);
    assert_eq!(generation.registration.items[1].payload, b"registration-2".to_vec());
    assert_eq!(generation.registration.items[1].stream_sequence, 11);
    assert_eq!(generation.guta.items[0].payload, b"guta-1".to_vec());
}

#[test]
fn missing_or_wrongly_ordered_source_is_rejected() {
    let fixture = fixture();
    let sources = vec![
        closed_source(&fixture, CoordinatorProcessorSourceKind::Deploy, 1, 20, &[]),
        closed_source(&fixture, CoordinatorProcessorSourceKind::Registration, 0, 10, &[]),
        closed_source(&fixture, CoordinatorProcessorSourceKind::Guta, 2, 30, &[]),
    ];
    assert_eq!(
        project_complete_generation(&fixture.context, &fixture.assignment, &sources, Ok([1; 32]))
            .unwrap_err(),
        CoordinatorProcessorDurableProjectionError::IdentityMismatch,
    );
    let mut missing = three_sources(&fixture);
    missing.pop();
    assert_eq!(
        project_complete_generation(&fixture.context, &fixture.assignment, &missing, Ok([1; 32]))
            .unwrap_err(),
        CoordinatorProcessorDurableProjectionError::IdentityMismatch,
    );
}

#[test]
fn publisher_kind_chain_and_boundary_are_fail_closed() {
    let fixture = fixture();
    let wrong_kind = closed_source(
        &fixture,
        CoordinatorProcessorSourceKind::Registration,
        2,
        10,
        &[b"wrong-publisher"],
    );
    assert_eq!(
        project_complete_source(&fixture.context, &fixture.assignment, &wrong_kind).unwrap_err(),
        CoordinatorProcessorDurableProjectionError::MalformedCompleteSource,
    );

    let first = data(&fixture, 0, 1, 0, [0; 32], b"first");
    let second = data(&fixture, 0, 2, 9, first.digest, b"second");
    let broken = CoordinatorProcessorClosedSourceReadback {
        kind: CoordinatorProcessorSourceKind::Registration,
        candidates: vec![candidate(&fixture, 0, &[10, 11], vec![first, second])],
        boundary: boundary(&fixture, 0, 12, 11, 9),
        accepted: Ok(()),
    };
    assert_eq!(
        project_complete_source(&fixture.context, &fixture.assignment, &broken).unwrap_err(),
        CoordinatorProcessorDurableProjectionError::MalformedCompleteSource,
    );
}

#[test]
fn cross_source_close_and_assignment_quota_are_enforced() {
    let fixture = fixture();
    let mut sources = vec![
        closed_source(&fixture, CoordinatorProcessorSourceKind::Registration, 0, 10, &[]),
        closed_source(&fixture, CoordinatorProcessorSourceKind::Deploy, 1, 20, &[]),
        closed_source(&fixture, CoordinatorProcessorSourceKind::Guta, 2, 30, &[]),
    ];
    sources[2].boundary = boundary(&fixture, 2, 1, 0, 7);
    assert_eq!(
        project_complete_generation(&fixture.context, &fixture.assignment, &sources, Ok([1; 32]))
            .unwrap_err(),
        CoordinatorProcessorDurableProjectionError::IdentityMismatch,
    );

    let tiny = fixture_with_data_limits([1, 127 * 1024 * 1024, 127 * 1024 * 1024]);
    let oversized = closed_source(
        &tiny,
        CoordinatorProcessorSourceKind::Registration,
        0,
        10,
        &[b"larger-than-one-byte"],
    );
    assert_eq!(
        project_complete_source(&tiny.context, &tiny.assignment, &oversized).unwrap_err(),
        CoordinatorProcessorDurableProjectionError::MalformedCompleteSource,
    );
}

#[test]
fn a_source_ends_where_its_boundary_says() {
    let fixture = fixture();
    let registration = CoordinatorProcessorSourceKind::Registration;
    let project = |source: &CoordinatorProcessorClosedSourceReadback| {
        project_complete_source(&fixture.context, &fixture.assignment, source)
    };
    let mut early = closed_source(&fixture, registration, 0, 10, &[b"one", b"two"]);
    early.boundary = boundary(&fixture, 0, 12, 10, 9);
    assert_eq!(
        project(&early).unwrap_err(),
        CoordinatorProcessorDurableProjectionError::MalformedCompleteSource
    );
    let mut unsealed = closed_source(&fixture, registration, 0, 10, &[b"one"]);
    unsealed.boundary = boundary(&fixture, 0, 10, 10, 9);
    assert_eq!(
        project(&unsealed).unwrap_err(),
        CoordinatorProcessorDurableProjectionError::MalformedCompleteSource
    );
    let mut elsewhere = closed_source(&fixture, registration, 0, 10, &[b"one"]);
    elsewhere.boundary.context.pending += 1;
    assert_eq!(
        project(&elsewhere).unwrap_err(),
        CoordinatorProcessorDurableProjectionError::IdentityMismatch
    );
    let mut unread = closed_source(&fixture, registration, 0, 10, &[b"one"]);
    unread.candidates[0].items[0].envelope = Err("short".to_owned());
    assert_eq!(
        project(&unread).unwrap_err(),
        CoordinatorProcessorDurableProjectionError::Envelope("short".to_owned())
    );
    let mut refused = closed_source(&fixture, registration, 0, 10, &[b"one"]);
    refused.candidates[0].items[0].accepted = Err("empty".to_owned());
    assert_eq!(
        project(&refused).unwrap_err(),
        CoordinatorProcessorDurableProjectionError::Core("empty".to_owned())
    );
    let mut control = closed_source(&fixture, registration, 0, 10, &[b"one"]);
    if let Ok(envelope) = &mut control.candidates[0].items[0].envelope {
        envelope.body = None;
    }
    assert_eq!(
        project(&control).unwrap_err(),
        CoordinatorProcessorDurableProjectionError::MalformedCompleteSource
    );
    let mut without_stream = closed_source(&fixture, registration, 0, 10, &[b"one"]);
    without_stream.candidates[0].stream_sequences = None;
    assert_eq!(
        project(&without_stream).unwrap_err(),
        CoordinatorProcessorDurableProjectionError::MalformedCompleteSource
    );
    assert_eq!(publisher_kind(source_at(2)), PendingQueuePublisherKind::CoordinatorGuta);
    assert_eq!(
        project_complete_generation(
            &fixture.context,
            &fixture.assignment,
            &three_sources(&fixture),
            Err("core".to_owned()),
        )
        .unwrap_err(),
        CoordinatorProcessorDurableProjectionError::Core("core".to_owned())
    );
}

fn factory() -> CaptureFactory {
    CaptureFactory {
        network: NETWORK,
        writer_activation_digest: [3; 32],
        queue_readiness_digest: [4; 32],
    }
}

fn request(attempt: u8) -> SealedCoordinatorProcessorDurableCaptureRequest {
    SealedCoordinatorProcessorDurableCaptureRequest {
        network: NETWORK,
        writer_activation_digest: [3; 32],
        queue_readiness_digest: [4; 32],
        owner_attempt_digest: [attempt; 32],
    }
}

fn pipeline() -> PipelineView {
    PipelineView {
        network: NETWORK,
        authority: AuthorityScope::Coordinator,
        activation_digest: [3; 32],
        blocked: false,
        sealing: true,
        activation: Ok(()),
        context: Ok(context()),
    }
}

#[test]
fn process_attempt_and_source_identity_domain_separate_owner_fences() {
    let fixture = fixture();
    let first_request = request(9);
    let second_request = request(10);
    let registration = artifact_identity(&fixture, 0);
    let deploy = artifact_identity(&fixture, 1);

    let first_registration = owner_attempt(&first_request, &registration);
    assert_eq!(first_registration, owner_attempt(&first_request, &registration));
    assert_ne!(first_registration, owner_attempt(&second_request, &registration));
    assert_ne!(first_registration, owner_attempt(&first_request, &deploy));
    assert_eq!(
        owner_reason(&first_request, &registration),
        owner_reason(&second_request, &registration)
    );
    assert_eq!(
        first_registration,
        sha(&[
            b"psy/rollback/coordinator-processor-capture-owner-attempt/v1",
            &[9; 32],
            &registration,
        ])
    );
    assert_eq!(
        owner_reason(&first_request, &registration),
        sha(&[
            b"psy/rollback/coordinator-processor-capture-owner-reason/v1",
            &[3; 32],
            &[4; 32],
            &registration,
        ])
    );
    assert_eq!(
        consumer_operation(&first_request, &[0x77; 32], &[0x88; 32]),
        sha(&[
            b"psy/rollback/coordinator-processor-capture-consumer-operation/v1",
            &[9; 32],
            &[0x77; 32],
            &[0x88; 32],
        ])
    );
}

/// Opens a capture whose second consumer is missing and whose third owner is held.
fn open(request: SealedCoordinatorProcessorDurableCaptureRequest) -> Vec<CaptureOpen> {
    let mut steps = vec![CaptureOpen::begin(&factory(), request).unwrap()];
    while steps[steps.len() - 1].stage != CaptureOpenStage::Opened {
        let current = steps[steps.len() - 1];
        let event = match current.stage {
            CaptureOpenStage::ReadPipeline => CaptureOpenEvent::Pipeline(Some(pipeline())),
            CaptureOpenStage::ObserveInstance => {
                CaptureOpenEvent::Instance { live: [5; 32], published: [5; 32] }
            }
            CaptureOpenStage::ResumeConsumer { index: 1 } => {
                CaptureOpenEvent::ConsumerMissing { consumer_digest: [0x88; 32] }
            }
            CaptureOpenStage::ResumeConsumer { index }
            | CaptureOpenStage::ProvisionConsumer { index, .. } => {
                CaptureOpenEvent::ConsumerReady { identity: [index as u8; 32] }
            }
            CaptureOpenStage::ClaimOwner { index: 2, .. } => CaptureOpenEvent::OwnerAlreadyHeld,
            _ => CaptureOpenEvent::Done,
        };
        steps.push(current.advance(event).unwrap());
    }
    steps
}

#[test]
fn storage_owner_keeps_ack_tokens_and_pipeline_mutation_private() {
    // The factory is prepared from the pipeline that is current, never from a digest
    // that a caller names.
    assert_eq!(
        prepare_factory(NETWORK, AuthorityScope::Coordinator, [4; 32], Some(pipeline())),
        Ok(factory())
    );
    assert_eq!(
        prepare_factory(NETWORK, AuthorityScope::Coordinator, [4; 32], None),
        Err(CoordinatorProcessorDurableCaptureError::IdentityMismatch)
    );
    let realm = AuthorityScope::Realm { realm_id: 1, realm_sub_id: 0 };
    assert_eq!(
        prepare_factory(NETWORK, realm, [4; 32], Some(pipeline())),
        Err(CoordinatorProcessorDurableCaptureError::IdentityMismatch)
    );
    let mut blocked = pipeline();
    blocked.blocked = true;
    assert_eq!(
        prepare_factory(NETWORK, AuthorityScope::Coordinator, [4; 32], Some(blocked)),
        Err(CoordinatorProcessorDurableCaptureError::IdentityMismatch)
    );

    // Opening reads the close, visits the three sources in their fixed order and
    // revalidates the close. No step acknowledges a message or moves the pipeline.
    let stages: Vec<CaptureOpenStage> = open(request(9)).iter().map(|step| step.stage).collect();
    assert_eq!(stages[1], CaptureOpenStage::ReadClose);
    let resumed: Vec<usize> = stages
        .iter()
        .filter_map(|stage| match stage {
            CaptureOpenStage::ResumeConsumer { index } => Some(*index),
            _ => None,
        })
        .collect();
    assert_eq!(resumed, (0..SOURCE_COUNT).collect::<Vec<_>>());
    assert_eq!(
        &stages[stages.len() - 3..],
        &[
            CaptureOpenStage::RevalidateClose,
            CaptureOpenStage::RevalidatePublisher,
            CaptureOpenStage::Opened,
        ]
    );

    // A source is captured only behind a replay that found it open.
    let mut stage = CaptureRoundStage::ReplayAll;
    let mut captured = Vec::new();
    while !matches!(stage, CaptureRoundStage::Finished { .. }) {
        let event = match stage {
            CaptureRoundStage::ReplayAll => CaptureRoundEvent::Replayed { complete: false },
            CaptureRoundStage::ReplaySource { index } => {
                CaptureRoundEvent::Replayed { complete: index != 1 }
            }
            CaptureRoundStage::CaptureSource { index } => {
                captured.push(index);
                CaptureRoundEvent::Captured
            }
            _ => CaptureRoundEvent::Replayed { complete: true },
        };
        stage = capture_or_replay(stage, event).unwrap();
    }
    assert_eq!(captured, vec![1]);
    assert_eq!(stage, CaptureRoundStage::Finished { complete: true });
    // What ends a replay of all sources ends the round as it is.
    for stage in [CaptureRoundStage::ReplayAll, CaptureRoundStage::ReplayAgain] {
        assert_eq!(
            capture_or_replay(
                stage,
                CaptureRoundEvent::Refused(
                    CoordinatorProcessorDurableCaptureError::IdentityMismatch
                )
            ),
            Err(CoordinatorProcessorDurableCaptureError::IdentityMismatch)
        );
    }
    assert_eq!(
        capture_or_replay(CaptureRoundStage::ReplayAll, CaptureRoundEvent::Captured),
        Err(CoordinatorProcessorDurableCaptureError::OutOfOrder)
    );
    assert_eq!(
        capture_or_replay(
            CaptureRoundStage::ReplayAll,
            CaptureRoundEvent::Replayed { complete: true }
        ),
        Ok(CaptureRoundStage::Finished { complete: true })
    );
}

#[test]
fn an_opening_provisions_and_takes_over_where_it_has_to() {
    let request = request(9);
    let steps = open(request);
    let provisioned: Vec<[u8; 32]> = steps
        .iter()
        .filter_map(|step| match step.stage {
            CaptureOpenStage::ProvisionConsumer { operation, .. } => Some(operation),
            _ => None,
        })
        .collect();
    assert_eq!(provisioned, vec![consumer_operation(&request, &[0x77; 32], &[0x88; 32])]);
    // Every consumer is asked for in batches of at most 1024 messages.
    let resumed: Vec<CaptureSpec> = steps
        .iter()
        .filter(|step| matches!(step.stage, CaptureOpenStage::ResumeConsumer { .. }))
        .filter_map(|step| step.consumer_spec())
        .collect();
    assert_eq!(
        resumed,
        vec![
            CaptureSpec { kind: CoordinatorProcessorSourceKind::Registration, batch_limit: 1024 },
            CaptureSpec { kind: CoordinatorProcessorSourceKind::Deploy, batch_limit: 1024 },
            CaptureSpec { kind: CoordinatorProcessorSourceKind::Guta, batch_limit: 1024 },
        ]
    );
    let taken: Vec<([u8; 32], [u8; 32])> = steps
        .iter()
        .filter_map(|step| match step.stage {
            CaptureOpenStage::TakeOverOwner { attempt, reason, .. } => Some((attempt, reason)),
            _ => None,
        })
        .collect();
    assert_eq!(
        taken,
        vec![(owner_attempt(&request, &[2; 32]), owner_reason(&request, &[2; 32]))]
    );
}

#[test]
fn an_opening_stops_at_the_first_mismatch() {
    let mut other = request(9);
    other.queue_readiness_digest = [5; 32];
    assert_eq!(
        CaptureOpen::begin(&factory(), other),
        Err(CoordinatorProcessorDurableCaptureError::RuntimeCapabilityMismatch)
    );
    let begun = CaptureOpen::begin(&factory(), request(9)).unwrap();
    let refused = |change: &dyn Fn(&mut PipelineView)| {
        let mut view = pipeline();
        change(&mut view);
        begun.advance(CaptureOpenEvent::Pipeline(Some(view))).unwrap_err()
    };
    assert_eq!(
        refused(&|view| view.sealing = false),
        CoordinatorProcessorDurableCaptureError::IdentityMismatch
    );
    assert_eq!(
        refused(&|view| view.activation_digest = [8; 32]),
        CoordinatorProcessorDurableCaptureError::IdentityMismatch
    );
    assert_eq!(
        refused(&|view| view.activation = Err("zero".to_owned())),
        CoordinatorProcessorDurableCaptureError::Backend("zero".to_owned())
    );
    assert_eq!(
        refused(&|view| view.context = Err("context".to_owned())),
        CoordinatorProcessorDurableCaptureError::Backend("context".to_owned())
    );
    assert_eq!(
        begun.advance(CaptureOpenEvent::Done),
        Err(CoordinatorProcessorDurableCaptureError::OutOfOrder)
    );
    assert_eq!(
        begun.advance(CaptureOpenEvent::Failed("driver".to_owned())),
        Err(CoordinatorProcessorDurableCaptureError::Backend("driver".to_owned()))
    );
    let observing = open(request(9))
        .into_iter()
        .find(|step| step.stage == CaptureOpenStage::ObserveInstance)
        .unwrap();
    assert_eq!(
        observing.advance(CaptureOpenEvent::Instance { live: [5; 32], published: [6; 32] }),
        Err(CoordinatorProcessorDurableCaptureError::RuntimeCapabilityMismatch)
    );
}

#[test]
fn a_replay_revalidates_before_it_is_complete() {
    let mut stage = ReplayStage::RevalidateBefore;
    let mut seen = Vec::new();
    while stage != ReplayStage::Complete {
        seen.push(stage);
        let event = match stage {
            ReplayStage::ReadSource { .. } => ReplayEvent::Read(true),
            ReplayStage::Project => ReplayEvent::Projected(Ok(())),
            _ => ReplayEvent::Done,
        };
        stage = advance_replay(stage, event).unwrap();
    }
    assert_eq!(
        seen,
        vec![
            ReplayStage::RevalidateBefore,
            ReplayStage::ReadSource { index: 0 },
            ReplayStage::ReadSource { index: 1 },
            ReplayStage::ReadSource { index: 2 },
            ReplayStage::Project,
            ReplayStage::RevalidatePublisher,
            ReplayStage::RevalidateClose,
        ]
    );
    assert_eq!(
        advance_replay(ReplayStage::ReadSource { index: 1 }, ReplayEvent::Read(false)),
        Ok(ReplayStage::Incomplete)
    );
    let refused = projection(
        CoordinatorProcessorDurableProjectionError::MalformedCompleteSource,
        "malformed".to_owned(),
    );
    assert_eq!(
        refused,
        CoordinatorProcessorDurableCaptureError::Backend("malformed".to_owned())
    );
    assert_eq!(
        advance_replay(ReplayStage::Project, ReplayEvent::Projected(Err(refused.clone()))),
        Err(refused)
    );
    assert_eq!(
        projection(
            CoordinatorProcessorDurableProjectionError::IdentityMismatch,
            "identity".to_owned()
        ),
        CoordinatorProcessorDurableCaptureError::IdentityMismatch
    );
    assert_eq!(
        advance_replay(ReplayStage::Complete, ReplayEvent::Done),
        Err(CoordinatorProcessorDurableCaptureError::OutOfOrder)
    );
}

fn hash(seed: u64) -> [u8; 32] {
    let mut bytes = [0u8; 32];
    for (i, part) in [seed, seed + 1, seed + 2, seed + 3].iter().enumerate() {
        bytes[i * 8..i * 8 + 8].copy_from_slice(&part.to_be_bytes());
    }
    bytes
}

fn canonical(epoch: u64, height: u64, seed: u64) -> CanonicalChainRef {
    let checkpoint = CheckpointRef { height, hash: hash(seed) };
    let mut bytes = [0u8; 65];
    bytes[0] = 1;
    bytes[1..5].copy_from_slice(&NETWORK.chain_id.to_be_bytes());
    bytes[5..13].copy_from_slice(&epoch.to_be_bytes());
    bytes[13..21].copy_from_slice(&height.to_be_bytes());
    bytes[21..53].copy_from_slice(&checkpoint.hash);
    CanonicalChainRef { network: NETWORK, chain_epoch: epoch, checkpoint, canonical: bytes }
}

fn floor(height: u64) -> RollbackFloor {
    RollbackFloor {
        floor: canonical(6, height, 700),
        activation_head_revision: 1,
        digest: [0x51; 32],
        canonical: vec![0x52; 90],
    }
}

fn archiving_head(target: CheckpointRef) -> StoredHead {
    let requested = canonical(7, 10, 1_000);
    StoredHead {
        revision: 9,
        canonical: requested,
        control: RollbackControlState::Archiving(RollbackRequest {
            requested_head: requested.checkpoint,
            target,
            fence: FenceWindow {
                orphan_write_max_us: 20_000,
                delete_fence_us: 20_001,
                new_branch_write_us: 20_002,
            },
            execution_mode: RollbackExecutionMode::InPlace,
            execution_mode_code: 1,
            plan_digest: [0xA5; 32],
        }),
        control_bytes: vec![3, 1, 4, 1, 5],
    }
}

fn block_state(checkpoint_id: u64, next_contract_id: u32) -> QEDL2BlockState {
    QEDL2BlockState {
        checkpoint_id,
        next_add_withdrawal_id: 11,
        next_process_withdrawal_id: 12,
        next_deposit_id: 13,
        total_deposits_claimed_epoch: 14,
        next_user_id: 15,
        end_balance: 16,
        next_contract_id,
    }
}

fn genesis_state() -> QEDL2BlockState {
    QEDL2BlockState {
        checkpoint_id: 0,
        next_add_withdrawal_id: 0,
        next_process_withdrawal_id: 0,
        next_deposit_id: 0,
        total_deposits_claimed_epoch: 0,
        next_user_id: 0,
        end_balance: 0,
        next_contract_id: 0,
    }
}

/// The stored cell of a state and what the storage codec makes of it.
fn stored_l2(
    state: &QEDL2BlockState,
    writetime_us: i64,
) -> (SourceCell, Result<DecodedL2<Vec<u8>>, String>) {
    let canonical =
        [&state.checkpoint_id.to_be_bytes()[..], &state.next_contract_id.to_be_bytes()[..]].concat();
    let mut bytes = vec![0x28, 0xB5];
    bytes.extend_from_slice(&canonical);
    (
        SourceCell { bytes, writetime_us },
        Ok(DecodedL2 { state: *state, rebuilt: canonical.clone(), canonical }),
    )
}

fn committed_source(seed: u64) -> (CoordinatorCommitSource, CoordinatorCommitSourceCommitted) {
    let candidate = canonical(6, 8, seed);
    let slot = sha(&[b"slot", &candidate.canonical]);
    let digest = sha(&[b"source", &candidate.canonical]);
    let mut bytes = [0u8; 106];
    bytes[42..74].copy_from_slice(&slot);
    bytes[74..106].copy_from_slice(&digest);
    (
        CoordinatorCommitSource { candidate, slot, digest },
        CoordinatorCommitSourceCommitted { slot, source_digest: digest, canonical: bytes },
    )
}

fn prepared() -> Result<DecodedPreparedUpdate, String> {
    Ok(DecodedPreparedUpdate {
        checkpoint_id: 8,
        block_state: block_state(8, 42),
        consumed: 400,
        total: 400,
    })
}

fn committed(
    marker: CoordinatorCommitSourceCommitted,
    state: &QEDL2BlockState,
    prepared: Result<DecodedPreparedUpdate, String>,
) -> Result<RestorePayload, CoordinatorCommitTargetRestoreError> {
    let target = canonical(6, 8, 800);
    let (cell, decoded) = stored_l2(state, 7_001);
    RestorePayload::try_from_committed_source(
        &archiving_head(target.checkpoint),
        target,
        [0x11; 32],
        [0x22; 32],
        [0x33; 32],
        [0x44; 32],
        &floor(7),
        &committed_source(800).0,
        marker,
        &cell,
        Ok(()),
        prepared,
        decoded,
    )
}

#[test]
fn committed_target_payload_roundtrips_and_rejects_source_or_materialized_drift() {
    let (_, marker) = committed_source(800);
    let state = block_state(8, 42);
    let payload = committed(marker, &state, prepared()).unwrap();
    let (cell, decoded) = stored_l2(&state, 7_001);
    assert_eq!(
        RestorePayload::decode_canonical(
            payload.canonical_bytes(),
            Ok(canonical(6, 8, 800)),
            Ok(marker),
            decoded,
        ),
        Ok(payload.clone()),
    );
    let parts = RestorePayload::foreign_parts(payload.canonical_bytes()).unwrap();
    assert_eq!(parts.target, canonical(6, 8, 800).canonical.to_vec());
    assert_eq!(parts.marker, Some(marker.canonical.to_vec()));
    assert_eq!(parts.stored_l2, cell.bytes);

    let mut drifted = state;
    drifted.next_contract_id += 1;
    assert_eq!(
        committed(marker, &drifted, prepared()),
        Err(CoordinatorCommitTargetRestoreError::MaterializedTargetMismatch),
    );

    let (_, foreign_marker) = committed_source(801);
    assert_eq!(
        committed(foreign_marker, &state, prepared()),
        Err(CoordinatorCommitTargetRestoreError::TargetSourceMismatch),
    );
}

fn genesis(
    height: u64,
    state: &QEDL2BlockState,
    writetime_us: i64,
) -> Result<RestorePayload, CoordinatorCommitTargetRestoreError> {
    let target = canonical(6, height, 700);
    let (cell, decoded) = stored_l2(state, writetime_us);
    RestorePayload::try_from_genesis_anchor(
        &archiving_head(target.checkpoint),
        target,
        [0x11; 32],
        [0x22; 32],
        [0x33; 32],
        [0x44; 32],
        &floor(height),
        &cell,
        decoded,
        &genesis_state(),
    )
}

fn decode_genesis(bytes: &[u8]) -> Result<RestorePayload, CoordinatorCommitTargetRestoreError> {
    RestorePayload::decode_canonical(
        bytes,
        Ok(canonical(6, 0, 700)),
        Err("no marker".to_owned()),
        stored_l2(&genesis_state(), 0).1,
    )
}

#[test]
fn genesis_target_is_explicit_and_different_observations_conflict_at_one_slot() {
    let first = genesis(0, &genesis_state(), 7_001).unwrap();
    let second = genesis(0, &genesis_state(), 7_002).unwrap();
    assert_eq!(first.slot(), second.slot());
    assert_ne!(first.digest(), second.digest());
    assert_eq!(decode_genesis(first.canonical_bytes()), Ok(first));
    assert_eq!(
        genesis(7, &block_state(7, 41), 7_001),
        Err(CoordinatorCommitTargetRestoreError::FloorTargetMismatch),
    );
}

#[test]
fn no_prefix_and_no_extension_of_a_restore_payload_decodes() {
    let payload = genesis(0, &genesis_state(), 7_001).unwrap();
    let bytes = payload.canonical_bytes().to_vec();
    assert_eq!(decode_genesis(&bytes), Ok(payload));
    for len in 0..bytes.len() {
        assert!(decode_genesis(&bytes[..len]).is_err());
    }
    let mut longer = bytes.clone();
    longer.push(0);
    assert_eq!(
        decode_genesis(&longer),
        Err(CoordinatorCommitTargetRestoreError::TrailingBytes)
    );
}

#[test]
fn strict_decoder_rejects_rehashed_inner_checkpoint_forgery() {
    let payload = genesis(0, &genesis_state(), 7_001).unwrap();
    let mut forged = payload.canonical_bytes().to_vec();
    let latest_checkpoint_offset = forged.len() - 32 - 32 - 8;
    forged[latest_checkpoint_offset + 7] ^= 1;
    let rebuilt = restore_digest(&forged[..forged.len() - 32]);
    let digest_offset = forged.len() - 32;
    forged[digest_offset..].copy_from_slice(&rebuilt);
    assert_eq!(
        decode_genesis(&forged),
        Err(CoordinatorCommitTargetRestoreError::BindingMismatch),
    );
}

#[test]
fn a_restore_payload_names_what_is_wrong() {
    let payload = genesis(0, &genesis_state(), 7_001).unwrap();
    let bytes = payload.canonical_bytes().to_vec();
    let changed = |at: usize| {
        let mut changed = bytes.clone();
        changed[at] ^= 0x40;
        decode_genesis(&changed).unwrap_err()
    };
    assert_eq!(changed(0), CoordinatorCommitTargetRestoreError::InvalidMagic);
    assert_eq!(changed(9), CoordinatorCommitTargetRestoreError::UnknownVersion(0x41));
    assert_eq!(
        changed(bytes.len() - 1),
        CoordinatorCommitTargetRestoreError::DigestMismatch
    );
    assert_eq!(
        decode_genesis(&bytes[..40]),
        Err(CoordinatorCommitTargetRestoreError::Truncated)
    );
    assert_eq!(
        RestorePayload::decode_canonical(
            &bytes,
            Err("reference".to_owned()),
            Err("no marker".to_owned()),
            stored_l2(&genesis_state(), 0).1,
        ),
        Err(CoordinatorCommitTargetRestoreError::CanonicalRef("reference".to_owned()))
    );
    assert_eq!(
        *payload.digest(),
        sha(&[
            b"psy.rollback.coordinator-target-restore-payload.v1\0",
            &((bytes.len() - 32) as u64).to_be_bytes(),
            &bytes[..bytes.len() - 32],
        ])
    );

    let (_, marker) = committed_source(800);
    let state = block_state(8, 42);
    assert_eq!(
        committed(marker, &state, Err("prepared".to_owned())),
        Err(CoordinatorCommitTargetRestoreError::TargetSource("prepared".to_owned()))
    );
    let mut trailing = prepared().unwrap();
    trailing.total += 1;
    assert_eq!(
        committed(marker, &state, Ok(trailing)),
        Err(CoordinatorCommitTargetRestoreError::TrailingPreparedUpdate)
    );
}

#[test]
fn a_restore_payload_is_selected_by_exactly_its_own_scope() {
    let payload = genesis(0, &genesis_state(), 7_001).unwrap();
    let target = canonical(6, 0, 700);
    let head = archiving_head(target.checkpoint);
    let select = |head: &StoredHead, catalog: &[u8; 32]| {
        payload.validate_selected(
            head,
            &target,
            catalog,
            &[0x22; 32],
            &[0x33; 32],
            &[0x44; 32],
        )
    };
    assert_eq!(select(&head, &[0x11; 32]), Ok(()));
    assert_eq!(
        select(&head, &[0x12; 32]),
        Err(CoordinatorCommitTargetRestoreError::BindingMismatch)
    );
    let mut later = head.clone();
    later.revision += 1;
    assert_eq!(
        select(&later, &[0x11; 32]),
        Err(CoordinatorCommitTargetRestoreError::BindingMismatch)
    );
    assert_eq!(payload.catalog_digest(), &[0x11; 32]);
    assert_eq!(payload.archive_store_fingerprint(), &[0x22; 32]);
    assert_eq!(payload.participant_completion_slot(), &[0x33; 32]);
    assert_eq!(payload.participant_completion_digest(), &[0x44; 32]);
}
