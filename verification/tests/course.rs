//! The course of a rollback: maintenance, barriers, deletion and publication.

use psy_rollback::bytes::Cursor;
use psy_rollback::coordinator_processor_full_commit::{
    already_published, check_prepare, exact_predecessor, persist_full_write, plan_kind,
    publish_after_backup, BranchExactWriterState, CommitEvent,
    CoordinatorProcessorFullCommitError, FullWriteStage, PublicationEvidence, PublishStage,
    WritePlanKind,
};
use psy_rollback::coordinator_rollback_delete_completion_store::{
    cql_epoch, fragment_digest, persist_or_recover, read_at, read_selected, revalidate,
    CompletionCoordinate, CompletionReadFailure, CoordinatorRollbackDeleteCompletionStoreError,
    DeleteCompletion, DeleteCompletionQueries, ExecutedDeletion, PersistEvent, PersistStage,
    StoredCompletionRow,
};
use psy_rollback::coordinator_rollback_global_progress::{
    progress_coordinator_global_rollback, CoordinatorRollbackGlobalProgress, GlobalProgressError,
    GlobalProgressEvent, GlobalProgressStage, ProgressHead,
};
use psy_rollback::coordinator_rollback_maintenance::{
    start_maintenance, ArchivePreparation, CoordinatorRollbackArchivePreparation,
    MaintenanceError, MaintenanceStart, PreparationEvent, PreparationStage,
};
use psy_rollback::coordinator_rollback_runtime_publication::{
    active_request, PublicationEvent, PublicationStage, RuntimePublication,
    RuntimePublicationError,
};
use psy_rollback::delete_executor::{
    decode_write_times, delete_query, fence_from_archive, latest_write, ArchivedRow, FenceError,
};
use psy_rollback::event_store::{
    encode_scopes, outcome_counts, requested_row, split_scopes, stored_event, RollbackEvent,
    RollbackEventQueries, RollbackOutcome, TruncatedParticipantSet,
};
use psy_rollback::keyspace::{CqlKeyspaceName, InvalidCqlKeyspaceName, MAX_KEYSPACE_NAME_LEN};
use psy_rollback::lwt::{settle, LwtReadback, LwtVerdict, LwtWrite, Stored};
use psy_rollback::model::{
    AuthorityScope, BranchPendingMapping, CanonicalChainRef, CheckpointRef,
    CoordinatorCommitSource, CoordinatorCommitSourceCommitted, FenceWindow, NetworkId,
    RollbackControlState, RollbackExecutionMode, RollbackRequest, StoredHead, UniquePendingId,
};
use psy_rollback::rollback_participant::{ParticipantPlan, Topology};
use sha2::{Digest, Sha256};

fn sha(parts: &[&[u8]]) -> [u8; 32] {
    let mut hasher = Sha256::new();
    for part in parts {
        hasher.update(part);
    }
    hasher.finalize().into()
}

fn checkpoint(height: u64, seed: u8) -> CheckpointRef {
    CheckpointRef { height, hash: [seed; 32] }
}

fn canonical(epoch: u64, checkpoint: CheckpointRef) -> CanonicalChainRef {
    let mut bytes = [0u8; 65];
    bytes[0] = 1;
    bytes[1..5].copy_from_slice(&1u32.to_be_bytes());
    bytes[5..13].copy_from_slice(&epoch.to_be_bytes());
    bytes[13..21].copy_from_slice(&checkpoint.height.to_be_bytes());
    bytes[21..53].copy_from_slice(&checkpoint.hash);
    CanonicalChainRef {
        network: NetworkId { chain_id: 1 },
        chain_epoch: epoch,
        checkpoint,
        canonical: bytes,
    }
}

fn request() -> RollbackRequest {
    RollbackRequest {
        requested_head: checkpoint(10, 10),
        target: checkpoint(7, 20),
        fence: FenceWindow {
            orphan_write_max_us: 1_000,
            delete_fence_us: 1_001,
            new_branch_write_us: 1_002,
        },
        execution_mode: RollbackExecutionMode::InPlace,
        execution_mode_code: 1,
        plan_digest: [0x11; 32],
    }
}

fn head(revision: i64, control: RollbackControlState, tag: u8) -> StoredHead {
    StoredHead {
        revision,
        canonical: canonical(7, checkpoint(10, 10)),
        control,
        control_bytes: vec![tag; 40],
    }
}

fn target() -> CanonicalChainRef {
    canonical(6, checkpoint(7, 20))
}

fn executed() -> ExecutedDeletion {
    ExecutedDeletion {
        participant_plan_digest: [0x11; 32],
        barrier_digest: [0x12; 32],
        delete_plan_store_fingerprint: [0x13; 32],
        delete_plan_slot: [0x14; 32],
        delete_plan_digest: [0x15; 32],
        target_restore_digest: [0x16; 32],
        post_state_digest: [0x17; 32],
        physical_delete_count: 9,
        restored_singleton_count: 2,
        store_fingerprint: [0x18; 32],
    }
}

fn deleting_head() -> StoredHead {
    head(8, RollbackControlState::Deleting(request()), 5)
}

fn completion() -> DeleteCompletion {
    DeleteCompletion::try_from_fields(deleting_head(), target(), executed()).unwrap()
}

fn decode(
    bytes: &[u8],
) -> Result<DeleteCompletion, CoordinatorRollbackDeleteCompletionStoreError> {
    DeleteCompletion::decode_canonical(bytes, Ok(()), Ok(deleting_head()), Ok(target()))
}

#[test]
fn completion_roundtrips_and_rejects_tamper_and_trailing_bytes() {
    let completion = completion();
    assert_eq!(decode(&completion.canonical_bytes).unwrap(), completion);
    let mut tampered = completion.canonical_bytes.clone();
    tampered[100] ^= 1;
    assert!(decode(&tampered).is_err());
    let mut trailing = completion.canonical_bytes.clone();
    trailing.push(0);
    assert_eq!(
        decode(&trailing).unwrap_err(),
        CoordinatorRollbackDeleteCompletionStoreError::TrailingBytes,
    );
}

#[test]
fn completion_decoder_names_what_is_wrong() {
    let good = completion().canonical_bytes;
    assert_eq!(
        decode(&good[..31]).unwrap_err(),
        CoordinatorRollbackDeleteCompletionStoreError::MalformedRow
    );
    let mut magic = good.clone();
    magic[0] = 0;
    assert_eq!(
        decode(&magic).unwrap_err(),
        CoordinatorRollbackDeleteCompletionStoreError::InvalidMagic
    );
    let mut version = good.clone();
    version[9] = 7;
    assert_eq!(
        decode(&version).unwrap_err(),
        CoordinatorRollbackDeleteCompletionStoreError::UnknownVersion(7)
    );
    assert_eq!(
        decode(&good[..60]).unwrap_err(),
        CoordinatorRollbackDeleteCompletionStoreError::Truncated
    );
    let mut digest = good.clone();
    let last = digest.len() - 1;
    digest[last] ^= 1;
    assert_eq!(
        decode(&digest).unwrap_err(),
        CoordinatorRollbackDeleteCompletionStoreError::DigestMismatch
    );
    assert_eq!(
        DeleteCompletion::decode_canonical(
            &good,
            Err("network".to_owned()),
            Ok(deleting_head()),
            Ok(target())
        )
        .unwrap_err(),
        CoordinatorRollbackDeleteCompletionStoreError::Model("network".to_owned())
    );
}

#[test]
fn a_completion_is_bound_to_its_deletion() {
    let bind = |head: StoredHead, target: CanonicalChainRef, executed: ExecutedDeletion| {
        DeleteCompletion::try_from_fields(head, target, executed).map(|_| ())
    };
    let mismatch = Err(CoordinatorRollbackDeleteCompletionStoreError::BindingMismatch);
    assert_eq!(bind(deleting_head(), target(), executed()), Ok(()));
    assert_eq!(
        bind(head(8, RollbackControlState::Restoring(request()), 5), target(), executed()),
        mismatch
    );
    assert_eq!(
        bind(deleting_head(), canonical(7, checkpoint(7, 20)), executed()),
        mismatch
    );
    assert_eq!(
        bind(
            deleting_head(),
            target(),
            ExecutedDeletion { participant_plan_digest: [9; 32], ..executed() }
        ),
        mismatch
    );
    assert_eq!(
        bind(deleting_head(), target(), ExecutedDeletion { barrier_digest: [0; 32], ..executed() }),
        mismatch
    );
    assert_eq!(
        bind(deleting_head(), target(), ExecutedDeletion { physical_delete_count: 0, ..executed() }),
        mismatch
    );
}

#[test]
fn completion_digest_seals_the_body() {
    let completion = completion();
    let body = completion.canonical_bytes.len() - 32;
    assert_eq!(
        completion.digest(),
        &sha(&[
            b"psy.rollback.coordinator-delete-completion.v1\0",
            &completion.canonical_bytes[..body],
        ])
    );
    assert_eq!(
        fragment_digest(completion.digest(), 7, b"payload"),
        sha(&[
            b"psy.rollback.coordinator-delete-completion-fragment.v1\0",
            completion.digest(),
            &0i32.to_be_bytes(),
            &1i32.to_be_bytes(),
            &7i64.to_be_bytes(),
            &7u64.to_be_bytes(),
            b"payload",
        ])
    );
}

#[test]
fn store_is_immutable_and_has_no_head_publish_api() {
    let keyspace = CqlKeyspaceName::try_new("rollback_archive").unwrap();
    let queries = DeleteCompletionQueries::new(&keyspace);
    assert!(queries.insert.contains(" IF NOT EXISTS"));
    for query in [&queries.insert, &queries.read] {
        for forbidden in ["DELETE FROM", "UPDATE ", "USING TIMESTAMP"] {
            assert!(!query.contains(forbidden), "forbidden {forbidden}");
        }
    }
    assert_ne!(queries.fingerprint(&keyspace), [0; 32]);
}

#[test]
fn completion_codec_rejects_truncation_and_trailing_bytes_before_model_decode() {
    let mut cursor = Cursor::new(b"12345678\0");
    assert_eq!(cursor.take(8).unwrap(), b"12345678");
    assert_eq!(cursor.take(1).unwrap(), b"\0");
    assert!(cursor.take(1).is_none());
}

fn stored_completion(completion: &DeleteCompletion) -> StoredCompletionRow<Vec<u8>> {
    let row_bytes = completion.canonical_bytes.len() as i64;
    StoredCompletionRow {
        fragment_index: Some(0),
        revision: Some(1),
        fragment_count: Some(1),
        row_bytes: Some(row_bytes),
        fragment_payload: Some(completion.canonical_bytes.clone()),
        fragment_digest: Some(
            fragment_digest(completion.digest(), row_bytes, &completion.canonical_bytes).to_vec(),
        ),
        row_digest: Some(completion.digest().to_vec()),
    }
}

fn coordinate(completion: &DeleteCompletion) -> CompletionCoordinate {
    CompletionCoordinate {
        network: NetworkId { chain_id: 1 },
        old_chain_epoch: 6,
        participant_plan_digest: [0x11; 32],
        slot: *completion.slot(),
    }
}

#[test]
fn a_stored_completion_is_read_back_whole() {
    let completion = completion();
    let row = stored_completion(&completion);
    let at = coordinate(&completion);
    let read = |rows: &[StoredCompletionRow<Vec<u8>>], at: &CompletionCoordinate| {
        read_at(rows, at, Ok(()), Ok(deleting_head()), Ok(target()))
    };
    assert_eq!(read(&[], &at), Ok(None));
    assert_eq!(read(&[row.clone()], &at).unwrap().unwrap(), completion);
    assert_eq!(
        read(&[row.clone(), row.clone()], &at).unwrap_err(),
        CoordinatorRollbackDeleteCompletionStoreError::MalformedRow
    );
    let mut broken = row.clone();
    broken.fragment_digest = Some(vec![0; 32]);
    assert_eq!(
        read(&[broken], &at).unwrap_err(),
        CoordinatorRollbackDeleteCompletionStoreError::MalformedRow
    );
    let elsewhere = CompletionCoordinate { slot: [9; 32], ..at };
    assert_eq!(
        read(&[row], &elsewhere).unwrap_err(),
        CoordinatorRollbackDeleteCompletionStoreError::DigestMismatch
    );
    assert_eq!(cql_epoch(5), Ok(5));
    assert_eq!(
        cql_epoch(u64::MAX),
        Err(CoordinatorRollbackDeleteCompletionStoreError::IntegerOutOfCqlRange)
    );
}

#[test]
fn a_completion_is_persisted_or_recovered() {
    let fingerprint = [0x18; 32];
    let step = |stage: PersistStage, event: PersistEvent| {
        persist_or_recover(stage, event, fingerprint, &completion())
    };
    let other = || {
        DeleteCompletion::try_from_fields(
            deleting_head(),
            target(),
            ExecutedDeletion { physical_delete_count: 10, ..executed() },
        )
        .unwrap()
    };
    let failure = || CompletionReadFailure {
        error: CoordinatorRollbackDeleteCompletionStoreError::MalformedRow,
        text: "MalformedRow".to_owned(),
    };
    let recovered =
        step(PersistStage::ReadExisting, PersistEvent::Read(Ok(Some(completion())))).unwrap();
    let receipt = match recovered {
        PersistStage::Persisted(receipt) => receipt,
        _ => panic!("the very completion is recovered"),
    };
    assert_eq!(receipt.completion(), &completion());
    assert_eq!(revalidate(&fingerprint, &receipt, Some(completion())), Ok(()));
    assert_eq!(
        revalidate(&[1; 32], &receipt, Some(completion())),
        Err(CoordinatorRollbackDeleteCompletionStoreError::StoreFingerprintMismatch)
    );
    assert_eq!(
        revalidate(&fingerprint, &receipt, None),
        Err(CoordinatorRollbackDeleteCompletionStoreError::MissingAfterPersist)
    );
    assert_eq!(
        revalidate(&fingerprint, &receipt, Some(other())),
        Err(CoordinatorRollbackDeleteCompletionStoreError::Conflict)
    );
    let error = |result: Result<PersistStage, CoordinatorRollbackDeleteCompletionStoreError>| {
        match result {
            Ok(_) => panic!("the step has to fail"),
            Err(error) => error,
        }
    };
    assert_eq!(
        error(step(PersistStage::ReadExisting, PersistEvent::Read(Ok(Some(other()))))),
        CoordinatorRollbackDeleteCompletionStoreError::Conflict
    );
    assert!(matches!(
        step(PersistStage::ReadExisting, PersistEvent::Read(Ok(None))),
        Ok(PersistStage::Insert)
    ));
    assert!(matches!(
        step(PersistStage::Insert, PersistEvent::Inserted(LwtWrite::Applied)),
        Ok(PersistStage::ReadPersisted)
    ));
    assert!(matches!(
        step(PersistStage::Insert, PersistEvent::Inserted(LwtWrite::NotApplied)),
        Ok(PersistStage::ReadBack(LwtWrite::NotApplied))
    ));
    let refused = || PersistStage::ReadBack(LwtWrite::NotApplied);
    let failed = || PersistStage::ReadBack(LwtWrite::Failed("timeout".to_owned()));
    assert!(matches!(
        step(refused(), PersistEvent::Read(Ok(Some(completion())))),
        Ok(PersistStage::ReadPersisted)
    ));
    assert_eq!(
        error(step(refused(), PersistEvent::Read(Ok(None)))),
        CoordinatorRollbackDeleteCompletionStoreError::Conflict
    );
    assert_eq!(
        error(step(refused(), PersistEvent::Read(Err(failure())))),
        CoordinatorRollbackDeleteCompletionStoreError::MalformedRow
    );
    assert!(matches!(
        step(failed(), PersistEvent::Read(Ok(Some(completion())))),
        Ok(PersistStage::ReadPersisted)
    ));
    assert_eq!(
        error(step(failed(), PersistEvent::Read(Ok(Some(other()))))),
        CoordinatorRollbackDeleteCompletionStoreError::Indeterminate("timeout".to_owned())
    );
    assert_eq!(
        error(step(failed(), PersistEvent::Read(Err(failure())))),
        CoordinatorRollbackDeleteCompletionStoreError::Indeterminate(
            "execute=timeout; read=MalformedRow".to_owned()
        )
    );
    assert_eq!(
        error(step(PersistStage::ReadPersisted, PersistEvent::Read(Ok(None)))),
        CoordinatorRollbackDeleteCompletionStoreError::MissingAfterPersist
    );
    assert!(matches!(
        step(PersistStage::ReadPersisted, PersistEvent::Read(Ok(Some(completion())))),
        Ok(PersistStage::Persisted(_))
    ));
    assert_eq!(
        error(step(PersistStage::ReadPersisted, PersistEvent::Inserted(LwtWrite::Applied))),
        CoordinatorRollbackDeleteCompletionStoreError::OutOfOrder
    );
}

#[test]
fn a_completion_shows_other_codecs_their_parts() {
    let completion = completion();
    let parts = DeleteCompletion::foreign_parts(&completion.canonical_bytes).unwrap();
    assert_eq!(parts.chain_id, completion.target().network.chain_id);
    assert_eq!(parts.revision, completion.deleting_head().revision);
    assert_eq!(parts.head, completion.deleting_head().canonical.canonical.to_vec());
    assert_eq!(parts.control, completion.deleting_head().control_bytes);
    assert_eq!(parts.target, completion.target().canonical.to_vec());
    assert_eq!(DeleteCompletion::foreign_parts(&completion.canonical_bytes[..120]), None);
}

#[test]
fn a_selected_completion_is_the_one_that_was_asked_for() {
    let completion = completion();
    let digest = *completion.digest();
    let at = coordinate(&completion);
    assert!(read_selected(&[0x18; 32], &at, &digest, Some(self::completion())).is_ok());
    assert!(read_selected(&[0x18; 32], &at, &[0; 32], Some(self::completion())).is_err());
    assert!(read_selected(&[0x18; 32], &at, &digest, None).is_err());
}

#[test]
fn lwt_outcomes_settle_in_one_way() {
    let read_failed = || LwtReadback::Failed { error: 7u8, text: "seven".to_owned() };
    assert_eq!(settle::<u8>(LwtWrite::Applied, LwtReadback::NotRead), LwtVerdict::Persisted);
    assert_eq!(
        settle::<u8>(LwtWrite::NotApplied, LwtReadback::Found(Stored::Same)),
        LwtVerdict::Persisted
    );
    assert_eq!(
        settle::<u8>(LwtWrite::NotApplied, LwtReadback::Found(Stored::Absent)),
        LwtVerdict::Conflict
    );
    assert_eq!(settle(LwtWrite::NotApplied, read_failed()), LwtVerdict::ReadFailed(7));
    let failed = || LwtWrite::Failed("timeout".to_owned());
    assert_eq!(settle::<u8>(failed(), LwtReadback::Found(Stored::Same)), LwtVerdict::Persisted);
    assert_eq!(
        settle::<u8>(failed(), LwtReadback::Found(Stored::Other)),
        LwtVerdict::Indeterminate("timeout".to_owned())
    );
    assert_eq!(
        settle(failed(), read_failed()),
        LwtVerdict::Indeterminate("execute=timeout; read=seven".to_owned())
    );
}

fn archived(times: Vec<Option<i64>>) -> ArchivedRow {
    let mut encoded = vec![times.len() as u8];
    for time in times {
        match time {
            Some(value) => {
                encoded.push(1);
                encoded.extend_from_slice(&value.to_be_bytes());
            }
            None => encoded.push(0),
        }
    }
    ArchivedRow {
        source_kind: 1,
        locator: vec![1],
        checkpoint_id: 1,
        image: Some(vec![2]),
        write_times: encoded,
    }
}

#[test]
fn the_fence_clears_the_highest_observed_write() {
    let rows = vec![archived(vec![Some(100), Some(400)]), archived(vec![Some(250)])];
    let fence = fence_from_archive(&rows, 1_000, Ok(())).unwrap().unwrap();
    assert!(fence > 400, "a fence at or below a real write deletes nothing");
    assert_eq!(fence, 1_400);
}

#[test]
fn an_archive_with_no_timestamps_yields_no_fence() {
    let rows = vec![archived(vec![None, None])];
    assert!(fence_from_archive(&rows, 1_000, Ok(())).unwrap().is_none());
}

#[test]
fn an_empty_archive_yields_no_fence() {
    assert!(fence_from_archive(&[], 1_000, Ok(())).unwrap().is_none());
}

#[test]
fn a_zero_gap_still_clears_the_maximum() {
    let rows = vec![archived(vec![Some(999)])];
    let fence = fence_from_archive(&rows, 1, Ok(())).unwrap().unwrap();
    assert!(fence > 999);
}

#[test]
fn a_fence_that_cannot_clear_the_writes_is_refused() {
    let rows = vec![archived(vec![Some(999)])];
    assert_eq!(fence_from_archive(&rows, 0, Ok(())), Err(FenceError::NotAboveWrites));
    let late = vec![archived(vec![Some(i64::MAX)])];
    assert_eq!(fence_from_archive(&late, 1, Ok(())), Err(FenceError::OutOfRange));
    assert_eq!(
        fence_from_archive(&rows, 1, Err("no commit timestamp".to_owned())),
        Err(FenceError::Refused("no commit timestamp".to_owned()))
    );
    assert_eq!(fence_from_archive(&[], 1, Err("unused".to_owned())), Ok(None));
    assert_eq!(latest_write(&rows), Some(999));
    assert_eq!(decode_write_times(&[2, 1, 0, 0, 0, 0, 0, 0, 0, 5, 0]), vec![5]);
    assert_eq!(decode_write_times(&[1, 1, 0, 0]), Vec::<i64>::new());
    assert_eq!(decode_write_times(&[]), Vec::<i64>::new());
}

#[test]
fn a_delete_names_its_fence_and_its_whole_key() {
    assert_eq!(
        delete_query("ks", "rows", &["a".to_owned(), "b".to_owned()]),
        "DELETE FROM ks.rows USING TIMESTAMP ? WHERE a = ? AND b = ?"
    );
}

#[test]
fn accepts_the_identifiers_production_setup_actually_uses() {
    for name in ["psy", "psy_node_1", "_leading_underscore", "a"] {
        assert_eq!(
            CqlKeyspaceName::try_new(name).map(|ks| ks.as_str().to_owned()),
            Ok(name.to_owned()),
        );
    }
}

#[test]
fn rejects_everything_that_would_need_quoting_or_escape_cql() {
    for name in [
        "",
        "1leading_digit",
        "has-hyphen",
        "has space",
        "has\"quote",
        "drop;table",
        "unicod\u{e9}",
        "a.b",
    ] {
        assert_eq!(
            CqlKeyspaceName::try_new(name),
            Err(InvalidCqlKeyspaceName(name.to_owned())),
            "{name:?} must not be accepted",
        );
    }
}

#[test]
fn rejects_names_longer_than_scylla_allows() {
    let longest = "k".repeat(MAX_KEYSPACE_NAME_LEN);
    assert!(CqlKeyspaceName::try_new(&longest).is_ok());
    let too_long = "k".repeat(MAX_KEYSPACE_NAME_LEN + 1);
    assert_eq!(
        CqlKeyspaceName::try_new(&too_long),
        Err(InvalidCqlKeyspaceName(too_long)),
    );
}

#[test]
fn events_keep_their_scopes_and_their_numbers() {
    let scopes = vec![[1u8, 2, 3], [4, 5, 6]];
    assert_eq!(encode_scopes(&scopes), vec![1, 2, 3, 4, 5, 6]);
    assert_eq!(split_scopes::<3>(&[1, 2, 3, 4, 5, 6]), Ok(scopes.clone()));
    assert_eq!(
        split_scopes::<3>(&[1, 2, 3, 4]),
        Err(TruncatedParticipantSet { bytes: 4, scope_bytes: 3 })
    );
    let event = RollbackEvent {
        chain_epoch: u64::MAX,
        previous_epoch: 6,
        head: 10,
        target: 7,
        plan_id: vec![9, 9],
        participant_scopes: scopes,
        outcome_code: 3,
        requested_at_us: 55,
    };
    let row = requested_row(&event);
    assert_eq!(row.chain_epoch, -1);
    assert_eq!((row.archived_rows, row.deleted_rows), (0, 0));
    assert_eq!(stored_event::<3>(&row), Ok((event, 0, 0)));
    assert_eq!(
        outcome_counts(RollbackOutcome::Completed { archived_rows: 4, deleted_rows: 5 }),
        (4, 5)
    );
    assert_eq!(outcome_counts(RollbackOutcome::Started), (0, 0));
    assert_eq!(outcome_counts(RollbackOutcome::Aborted), (0, 0));
}

#[test]
fn completing_an_event_leaves_its_range_alone() {
    let queries = RollbackEventQueries::new("control_nt");
    for column in ["head =", "target =", "plan_id =", "participants =", "previous_epoch ="] {
        assert!(!queries.set_outcome.contains(column));
    }
    assert!(queries.read_recent.ends_with("WHERE network_chain_id = ? LIMIT ?"));
    assert!(queries.create.starts_with("CREATE TABLE IF NOT EXISTS control_nt."));
    assert!(queries.create.ends_with(
        " (
                        network_chain_id BIGINT,
                        chain_epoch BIGINT,
                        previous_epoch BIGINT,
                        head BIGINT,
                        target BIGINT,
                        plan_id BLOB,
                        participants BLOB,
                        outcome SMALLINT,
                        archived_rows BIGINT,
                        deleted_rows BIGINT,
                        requested_at_us BIGINT,
                        PRIMARY KEY ((network_chain_id), chain_epoch)
                    ) WITH CLUSTERING ORDER BY (chain_epoch DESC)"
    ));
}

fn advance(stage: GlobalProgressStage, event: GlobalProgressEvent) -> GlobalProgressStage {
    progress_coordinator_global_rollback(stage, event).unwrap()
}

#[test]
fn coordinator_uses_shared_completions_and_orders_global_barriers() {
    // Of every realm first the archive is selected, then its deletion is read; only
    // behind all of them comes the delete barrier, and behind that the restoring.
    let mut stage = advance(
        GlobalProgressStage::ReadHead,
        GlobalProgressEvent::Head(Some(RollbackControlState::ArchiveBarrierReady(request()))),
    );
    assert_eq!(stage, GlobalProgressStage::BeginDelete);
    stage = advance(stage, GlobalProgressEvent::Deleting { realms: 2 });
    assert_eq!(stage, GlobalProgressStage::ExecuteCoordinatorDelete { realms: 2 });
    stage = advance(stage, GlobalProgressEvent::Done);
    for index in 0..2 {
        assert_eq!(stage, GlobalProgressStage::SelectRealmArchive { index, realms: 2 });
        stage = advance(stage, GlobalProgressEvent::Found(true));
        assert_eq!(stage, GlobalProgressStage::ReadRealmDelete { index, realms: 2 });
        assert_eq!(
            advance(stage, GlobalProgressEvent::Found(false)),
            GlobalProgressStage::Finished {
                progress: CoordinatorRollbackGlobalProgress::AwaitingParticipants {
                    head: ProgressHead::Deleting,
                    completed: index + 1,
                    expected: 3,
                },
            }
        );
        stage = advance(stage, GlobalProgressEvent::Found(true));
    }
    assert_eq!(stage, GlobalProgressStage::PersistDeleteBarrier { realms: 2 });
    stage = advance(stage, GlobalProgressEvent::Done);
    assert_eq!(stage, GlobalProgressStage::BeginRestoring { realms: 2 });
    stage = advance(stage, GlobalProgressEvent::Done);
    assert_eq!(
        stage,
        GlobalProgressStage::Finished {
            progress: CoordinatorRollbackGlobalProgress::Progressed {
                head: ProgressHead::Restoring
            },
        }
    );
}

#[test]
fn verifying_waits_for_every_selected_realm_restore() {
    let mut stage = advance(
        GlobalProgressStage::ReadHead,
        GlobalProgressEvent::Head(Some(RollbackControlState::Restoring(request()))),
    );
    stage = advance(stage, GlobalProgressEvent::Deleting { realms: 2 });
    stage = advance(stage, GlobalProgressEvent::Found(true));
    stage = advance(stage, GlobalProgressEvent::Found(true));
    for _ in 0..4 {
        stage = advance(stage, GlobalProgressEvent::Found(true));
    }
    assert_eq!(stage, GlobalProgressStage::SelectRestore { index: 0, realms: 2, completed: 0 });
    stage = advance(stage, GlobalProgressEvent::Done);
    assert_eq!(stage, GlobalProgressStage::ReadRealmRestore { index: 0, realms: 2, completed: 0 });
    let one_missing = advance(stage, GlobalProgressEvent::Found(false));
    let one_missing = advance(one_missing, GlobalProgressEvent::Done);
    assert_eq!(
        advance(one_missing, GlobalProgressEvent::Found(true)),
        GlobalProgressStage::Finished {
            progress: CoordinatorRollbackGlobalProgress::AwaitingParticipants {
                head: ProgressHead::Initial,
                completed: 1,
                expected: 2,
            },
        }
    );
    stage = advance(stage, GlobalProgressEvent::Found(true));
    stage = advance(stage, GlobalProgressEvent::Done);
    stage = advance(stage, GlobalProgressEvent::Found(true));
    assert_eq!(stage, GlobalProgressStage::PersistAndBeginVerifying { realms: 2 });
    stage = advance(stage, GlobalProgressEvent::Done);
    stage = advance(stage, GlobalProgressEvent::Head(Some(RollbackControlState::Verifying(request()))));
    assert_eq!(
        stage,
        GlobalProgressStage::Finished {
            progress: CoordinatorRollbackGlobalProgress::Progressed { head: ProgressHead::Current },
        }
    );
}

#[test]
fn missing_participants_are_counted_with_the_coordinator() {
    let mut stage = advance(
        GlobalProgressStage::ReadHead,
        GlobalProgressEvent::Head(Some(RollbackControlState::Archiving(request()))),
    );
    assert_eq!(
        progress_coordinator_global_rollback(
            stage,
            GlobalProgressEvent::ParticipantMissing { requested: false }
        ),
        Err(GlobalProgressError::RequestMissing)
    );
    stage = advance(stage, GlobalProgressEvent::ParticipantMissing { requested: true });
    stage = advance(stage, GlobalProgressEvent::Plan { realms: 3 });
    stage = advance(stage, GlobalProgressEvent::Found(true));
    stage = advance(stage, GlobalProgressEvent::Found(false));
    stage = advance(stage, GlobalProgressEvent::Found(true));
    assert_eq!(
        stage,
        GlobalProgressStage::Finished {
            progress: CoordinatorRollbackGlobalProgress::AwaitingParticipants {
                head: ProgressHead::Initial,
                completed: 3,
                expected: 4,
            },
        }
    );
}

#[test]
fn global_progress_fails_with_a_reason() {
    let fail = |stage: GlobalProgressStage, event: GlobalProgressEvent| {
        progress_coordinator_global_rollback(stage, event).unwrap_err()
    };
    assert_eq!(
        fail(GlobalProgressStage::ReadHead, GlobalProgressEvent::Head(None)),
        GlobalProgressError::HeadUninitialized
    );
    assert_eq!(
        fail(GlobalProgressStage::ReadHead, GlobalProgressEvent::Failed("down".to_owned())),
        GlobalProgressError::Backend("down".to_owned())
    );
    let two = GlobalProgressEvent::Found(false);
    assert_eq!(
        fail(GlobalProgressStage::SelectRealmArchive { index: 0, realms: 1 }, two.clone()),
        GlobalProgressError::RealmArchiveDisappeared
    );
    assert_eq!(
        fail(GlobalProgressStage::ReadCoordinatorDelete { realms: 1 }, two.clone()),
        GlobalProgressError::CoordinatorDeleteCompletionMissing
    );
    assert_eq!(
        fail(GlobalProgressStage::ReadDeleteBarrier { realms: 1 }, two.clone()),
        GlobalProgressError::DeleteBarrierMissing
    );
    assert_eq!(
        fail(GlobalProgressStage::RestoreRealmArchive { index: 0, realms: 1 }, two.clone()),
        GlobalProgressError::RealmArchiveMissing
    );
    assert_eq!(
        fail(GlobalProgressStage::RestoreRealmDelete { index: 0, realms: 1 }, two),
        GlobalProgressError::RealmDeleteMissing
    );
    assert_eq!(
        fail(
            GlobalProgressStage::ReadHeadAfterRestore { realms: 1 },
            GlobalProgressEvent::Head(None)
        ),
        GlobalProgressError::HeadDisappeared
    );
    assert_eq!(
        fail(GlobalProgressStage::ReadHead, GlobalProgressEvent::Done),
        GlobalProgressError::OutOfOrder
    );
    assert_eq!(GlobalProgressError::Backend("down".to_owned()).message(), "down");
}

fn participant_plan() -> ParticipantPlan {
    ParticipantPlan { digest: [0x11; 32], target: target(), realms: 2, canonical: vec![1, 2] }
}

fn topology() -> Topology {
    Topology { snapshot: vec![7, 7], validates_plan: true }
}

fn archiving() -> StoredHead {
    head(6, RollbackControlState::Archiving(request()), 4)
}

fn ready() -> PreparationEvent {
    PreparationEvent::Ready {
        archiving_head: archiving(),
        target: target(),
        digest: [0x21; 32],
        entry_count: 12,
        dataset_digest: [0x22; 32],
    }
}

fn reread() -> PreparationEvent {
    PreparationEvent::Reread { plan: participant_plan(), topology: Some(topology()) }
}

#[test]
fn maintenance_has_no_destructive_or_barrier_transition() {
    // From a requested head the preparation enters the archiving, archives the current
    // request, recovers the readiness and returns; no stage of it deletes, restores,
    // crosses a barrier or publishes.
    let requested = head(5, RollbackControlState::Requested(request()), 3);
    let mut preparation = ArchivePreparation::select(
        &requested,
        participant_plan(),
        Some(topology()),
        Ok(archiving()),
        Ok(archiving()),
    )
    .unwrap();
    let mut stages = vec![preparation.stage];
    for event in [
        PreparationEvent::HeadSet { current: archiving(), settled: true },
        reread(),
        PreparationEvent::Head(Some(archiving())),
        PreparationEvent::CompletionMissing,
        PreparationEvent::Done,
        PreparationEvent::Done,
        PreparationEvent::Done,
        ready(),
        PreparationEvent::Execution { digest: [0x23; 32] },
        reread(),
        PreparationEvent::Head(Some(archiving())),
    ] {
        preparation.advance(event).unwrap();
        stages.push(preparation.stage);
    }
    assert_eq!(stages[0], PreparationStage::EnterArchiving);
    assert_eq!(stages[4], PreparationStage::ArchiveCurrentRequest);
    assert_eq!(stages[7], PreparationStage::RecoverReadinessAgain);
    assert_eq!(
        stages[11],
        PreparationStage::Prepared {
            preparation: CoordinatorRollbackArchivePreparation {
                target: target(),
                plan_digest: [0x11; 32],
                readiness_digest: [0x21; 32],
                execution_digest: [0x23; 32],
                entry_count: 12,
                dataset_digest: [0x22; 32],
            },
        }
    );
    assert_eq!(preparation.advance(PreparationEvent::Done), Err(MaintenanceError::OutOfOrder));
    for later in [
        RollbackControlState::ArchiveBarrierReady(request()),
        RollbackControlState::Deleting(request()),
        RollbackControlState::Restoring(request()),
    ] {
        assert_eq!(
            start_maintenance(&Some(head(9, later, 1))),
            Ok(MaintenanceStart::AwaitingDownstream)
        );
    }
    assert_eq!(
        start_maintenance(&Some(head(9, RollbackControlState::Idle, 1))),
        Ok(MaintenanceStart::Normal)
    );
    assert_eq!(start_maintenance(&Some(archiving())), Ok(MaintenanceStart::Prepare));
    assert_eq!(start_maintenance(&None), Err(MaintenanceError::HeadUninitialized));
}

#[test]
fn maintenance_refuses_whatever_has_changed() {
    let select = |initial: StoredHead, topology: Option<Topology>, candidate: StoredHead| {
        ArchivePreparation::select(
            &initial,
            participant_plan(),
            topology,
            Ok(archiving()),
            Ok(candidate),
        )
    };
    let requested = || head(5, RollbackControlState::Requested(request()), 3);
    assert_eq!(
        select(requested(), None, archiving()).unwrap_err(),
        MaintenanceError::TopologyMissing
    );
    let refusing = Topology { validates_plan: false, ..topology() };
    assert_eq!(
        select(requested(), Some(refusing), archiving()).unwrap_err(),
        MaintenanceError::TopologyRefusesPlan
    );
    assert_eq!(
        select(requested(), Some(topology()), requested()).unwrap_err(),
        MaintenanceError::RequestedHeadMismatch
    );
    let other = head(9, RollbackControlState::Archiving(request()), 4);
    assert_eq!(
        select(other, Some(topology()), archiving()).unwrap_err(),
        MaintenanceError::ArchivingHeadMismatch
    );
    let entered = || select(archiving(), Some(topology()), archiving()).unwrap();
    let fail = |mut preparation: ArchivePreparation, event: PreparationEvent| {
        preparation.advance(event).unwrap_err()
    };
    assert_eq!(
        fail(
            select(requested(), Some(topology()), archiving()).unwrap(),
            PreparationEvent::HeadSet { current: archiving(), settled: false }
        ),
        MaintenanceError::HeadChangedWhileEntering
    );
    assert_eq!(
        fail(
            entered(),
            PreparationEvent::Reread { plan: participant_plan(), topology: None }
        ),
        MaintenanceError::TopologyDisappeared
    );
    let moved = Topology { snapshot: vec![8], ..topology() };
    assert_eq!(
        fail(
            entered(),
            PreparationEvent::Reread { plan: participant_plan(), topology: Some(moved) }
        ),
        MaintenanceError::PlanOrTopologyChanged
    );
    let mut at_head = entered();
    at_head.advance(reread()).unwrap();
    assert_eq!(
        fail(at_head, PreparationEvent::Head(Some(requested()))),
        MaintenanceError::HeadChangedAfterEntering
    );
    let mut late = entered();
    for event in [
        reread(),
        PreparationEvent::Head(Some(archiving())),
        ready(),
        PreparationEvent::Execution { digest: [0x23; 32] },
        reread(),
    ] {
        late.advance(event).unwrap();
    }
    assert_eq!(
        fail(late, PreparationEvent::Head(Some(requested()))),
        MaintenanceError::ReadinessChanged
    );
    assert_eq!(
        fail(entered(), PreparationEvent::Failed("down".to_owned())).message(),
        "down"
    );
}

fn verifying() -> StoredHead {
    head(10, RollbackControlState::Verifying(request()), 7)
}

fn all_ready() -> StoredHead {
    head(11, RollbackControlState::AllRealmsReady(request()), 8)
}

fn published() -> StoredHead {
    StoredHead {
        revision: 12,
        canonical: canonical(7, checkpoint(7, 20)),
        control: RollbackControlState::Idle,
        control_bytes: vec![0],
    }
}

fn publication(current: StoredHead) -> RuntimePublication {
    RuntimePublication::select(
        current,
        participant_plan(),
        Some(topology()),
        Ok(verifying()),
        Ok(all_ready()),
    )
    .unwrap()
}

fn reread_publication(head: StoredHead) -> PublicationEvent {
    PublicationEvent::Reread {
        head: Some(head),
        plan: participant_plan(),
        topology: Some(topology()),
    }
}

#[test]
fn publication_selects_every_realm_from_the_plan() {
    let mut publication = publication(verifying());
    let mut step = |event: PublicationEvent| {
        publication.try_publish_restored_runtime(event).unwrap();
        publication.stage
    };
    assert_eq!(step(PublicationEvent::Found(true)), PublicationStage::ReadRestoreBarrier);
    assert_eq!(
        step(PublicationEvent::RestoreBarrier { realm_count: 2 }),
        PublicationStage::ReadCoordinatorReport
    );
    assert_eq!(
        step(PublicationEvent::Found(true)),
        PublicationStage::ReadRealmDirective { index: 0, completed: 0 }
    );
    assert_eq!(
        step(PublicationEvent::Found(true)),
        PublicationStage::ReadRealmReport { index: 0, completed: 0 }
    );
    assert_eq!(
        step(PublicationEvent::Found(true)),
        PublicationStage::ReadRealmDirective { index: 1, completed: 1 }
    );
    assert_eq!(
        step(PublicationEvent::Found(true)),
        PublicationStage::ReadRealmReport { index: 1, completed: 1 }
    );
    assert_eq!(step(PublicationEvent::Found(true)), PublicationStage::RevalidateComplete);
    assert_eq!(step(reread_publication(verifying())), PublicationStage::Publish);
}

#[test]
fn publication_waits_for_a_missing_realm_report() {
    let mut publication = publication(verifying());
    for event in [
        PublicationEvent::Found(true),
        PublicationEvent::RestoreBarrier { realm_count: 2 },
        PublicationEvent::Found(true),
        PublicationEvent::Found(true),
        PublicationEvent::Found(false),
        PublicationEvent::Found(true),
        PublicationEvent::Found(true),
        reread_publication(verifying()),
    ] {
        publication.try_publish_restored_runtime(event).unwrap();
    }
    assert_eq!(
        publication.stage,
        PublicationStage::AwaitingRealmReports { completed: 1, expected: 2 }
    );
}

#[test]
fn a_ready_head_publishes_or_fails_but_does_not_wait() {
    let run = |events: Vec<PublicationEvent>| {
        let mut publication = publication(all_ready());
        let mut last = Ok(());
        for event in events {
            last = publication.try_publish_restored_runtime(event);
        }
        (last, publication.stage)
    };
    let (result, _) = run(vec![
        PublicationEvent::Found(true),
        PublicationEvent::RestoreBarrier { realm_count: 2 },
        PublicationEvent::Found(true),
        PublicationEvent::Found(true),
        PublicationEvent::Found(true),
        PublicationEvent::Found(true),
        PublicationEvent::Found(false),
    ]);
    assert_eq!(result, Err(RuntimePublicationError::ReadyWithoutRealmReport));
}

#[test]
fn publication_refuses_what_it_was_not_selected_for() {
    assert_eq!(
        RuntimePublication::select(
            archiving(),
            participant_plan(),
            Some(topology()),
            Ok(verifying()),
            Ok(all_ready()),
        )
        .unwrap_err(),
        RuntimePublicationError::NotSelectedHead
    );
    assert_eq!(
        RuntimePublication::select(
            verifying(),
            participant_plan(),
            None,
            Ok(verifying()),
            Ok(all_ready())
        )
        .unwrap_err(),
        RuntimePublicationError::TopologyMissing
    );
    let fail = |events: Vec<PublicationEvent>| {
        let mut publication = publication(verifying());
        let mut last = Ok(());
        for event in events {
            last = publication.try_publish_restored_runtime(event);
        }
        last.unwrap_err()
    };
    assert_eq!(
        fail(vec![PublicationEvent::Found(false)]),
        RuntimePublicationError::CoordinatorDirectiveMissing
    );
    assert_eq!(
        fail(vec![
            PublicationEvent::Found(true),
            PublicationEvent::RestoreBarrier { realm_count: 3 }
        ]),
        RuntimePublicationError::RealmCountDiffers
    );
    assert_eq!(
        fail(vec![
            PublicationEvent::Found(true),
            PublicationEvent::RestoreBarrier { realm_count: 2 },
            PublicationEvent::Found(true),
            PublicationEvent::Found(false),
        ]),
        RuntimePublicationError::RealmDirectiveMissing
    );
    assert_eq!(
        active_request(&Some(verifying())),
        Ok(request())
    );
    assert_eq!(
        active_request(&Some(published())),
        Err(RuntimePublicationError::NoActiveRollback)
    );
    assert_eq!(active_request(&None), Err(RuntimePublicationError::HeadMissing));
}

fn mapping(seed: u8) -> BranchPendingMapping {
    BranchPendingMapping {
        canonical: canonical(6, checkpoint(7, seed)),
        pending: UniquePendingId::try_new(9).unwrap(),
        digest: [seed; 32],
    }
}

#[test]
fn composition_keeps_backup_between_full_write_and_head_publish() {
    // The full write persists the source, writes and verifies, and persists the
    // manifest; it never marks anything committed.
    let mut write = FullWriteStage::PersistSource;
    let mut stages = vec![write];
    for event in [
        CommitEvent::Done,
        CommitEvent::Writer(BranchExactWriterState::Active { watermark: mapping(1) }),
        CommitEvent::Done,
        CommitEvent::Done,
        CommitEvent::Writer(BranchExactWriterState::WritesVerified { predecessor: mapping(1) }),
        CommitEvent::Done,
        CommitEvent::Done,
        CommitEvent::Done,
    ] {
        write = persist_full_write(write, event).unwrap();
        stages.push(write);
    }
    assert_eq!(
        stages,
        vec![
            FullWriteStage::PersistSource,
            FullWriteStage::ReadWriter,
            FullWriteStage::PrepareAndVerify { predecessor: mapping(1) },
            FullWriteStage::RequireFreshBarrier,
            FullWriteStage::ReadVerifiedWriter,
            FullWriteStage::PlanSchedule,
            FullWriteStage::WriteAndVerifyFull,
            FullWriteStage::PersistManifest,
            FullWriteStage::Written,
        ]
    );
    // The completion behind the backup comes first, then the head, then the writer.
    let (source, committed) = commit();
    let sealed = published();
    let mut publish = PublishStage::CheckPublished;
    let mut order = Vec::new();
    for event in [
        CommitEvent::Found(PublicationEvidence {
            head: Some(verifying()),
            persisted: None,
            committed: None,
            writer: BranchExactWriterState::Other,
        }),
        CommitEvent::Writer(BranchExactWriterState::WritesVerified { predecessor: mapping(1) }),
        CommitEvent::Done,
        CommitEvent::Done,
        CommitEvent::Done,
        CommitEvent::HeadPublished(published()),
        CommitEvent::Done,
    ] {
        publish = publish_after_backup(publish, event, &sealed, &source).unwrap();
        order.push(publish.clone());
    }
    assert_eq!(
        order,
        vec![
            PublishStage::ReadVerifiedWriter,
            PublishStage::PlanSchedule,
            PublishStage::ReadManifest,
            PublishStage::PersistCompletion,
            PublishStage::PublishHead,
            PublishStage::FinishWriter { head: published() },
            PublishStage::Published { head: published() },
        ]
    );
    // What is published already is not published again.
    let found = PublicationEvidence {
        head: Some(published()),
        persisted: Some(source),
        committed: Some(committed),
        writer: BranchExactWriterState::Active { watermark: mapping(1) },
    };
    assert_eq!(
        publish_after_backup(
            PublishStage::CheckPublished,
            CommitEvent::Found(found.clone()),
            &sealed,
            &source
        ),
        Ok(PublishStage::Published { head: published() })
    );
    assert_eq!(
        publish_after_backup(
            PublishStage::CheckPublished,
            CommitEvent::Found(PublicationEvidence { persisted: None, ..found }),
            &sealed,
            &source
        ),
        Err(CoordinatorProcessorFullCommitError::IdentityMismatch)
    );
}

fn commit() -> (CoordinatorCommitSource, CoordinatorCommitSourceCommitted) {
    let source = CoordinatorCommitSource {
        candidate: canonical(6, checkpoint(7, 1)),
        slot: [1; 32],
        digest: [2; 32],
    };
    let committed = CoordinatorCommitSourceCommitted {
        slot: [1; 32],
        source_digest: [2; 32],
        canonical: [0; 106],
    };
    (source, committed)
}

#[test]
fn a_commit_refuses_other_writers_and_authorities() {
    assert_eq!(check_prepare(AuthorityScope::Coordinator, 8, true), Ok(()));
    assert_eq!(
        check_prepare(AuthorityScope::Realm { realm_id: 1, realm_sub_id: 0 }, 8, true),
        Err(CoordinatorProcessorFullCommitError::IdentityMismatch)
    );
    assert_eq!(
        check_prepare(AuthorityScope::Coordinator, 0, true),
        Err(CoordinatorProcessorFullCommitError::IdentityMismatch)
    );
    assert_eq!(
        check_prepare(AuthorityScope::Coordinator, 8, false),
        Err(CoordinatorProcessorFullCommitError::AwaitingVerifiedWrites)
    );
    assert_eq!(
        exact_predecessor(BranchExactWriterState::WritePrepared { predecessor: mapping(2) }),
        Ok(mapping(2))
    );
    assert_eq!(
        exact_predecessor(BranchExactWriterState::Other),
        Err(CoordinatorProcessorFullCommitError::AwaitingVerifiedWrites)
    );
    assert_eq!(plan_kind(5, None), WritePlanKind::Normal);
    assert_eq!(
        plan_kind(5, Some(9)),
        WritePlanKind::AfterRollback { fence_us: 9, prepared_us: 5 }
    );
    assert_eq!(
        publish_after_backup(
            PublishStage::ReadVerifiedWriter,
            CommitEvent::Writer(BranchExactWriterState::Other),
            &published(),
            &commit().0
        ),
        Err(CoordinatorProcessorFullCommitError::AwaitingVerifiedWrites)
    );
    assert_eq!(
        persist_full_write(FullWriteStage::PersistSource, CommitEvent::Failed("down".to_owned())),
        Err(CoordinatorProcessorFullCommitError::Backend("down".to_owned()))
    );
    assert_eq!(
        persist_full_write(FullWriteStage::Written, CommitEvent::Done),
        Err(CoordinatorProcessorFullCommitError::OutOfOrder)
    );
}

#[test]
fn what_is_published_already_is_recognised_exactly() {
    let (source, committed) = commit();
    let active = BranchExactWriterState::Active { watermark: mapping(1) };
    let sealed = published();
    assert_eq!(
        already_published(
            Some(published()),
            &sealed,
            Some(source),
            Some(committed),
            &active,
            &source
        ),
        Ok(Some(published()))
    );
    assert_eq!(
        already_published(None, &sealed, Some(source), Some(committed), &active, &source),
        Ok(None)
    );
    assert_eq!(
        already_published(
            Some(verifying()),
            &sealed,
            Some(source),
            Some(committed),
            &active,
            &source
        ),
        Ok(None)
    );
    assert_eq!(
        already_published(Some(published()), &sealed, None, Some(committed), &active, &source),
        Err(CoordinatorProcessorFullCommitError::IdentityMismatch)
    );
    let other = CoordinatorCommitSourceCommitted { source_digest: [9; 32], ..committed };
    assert_eq!(
        already_published(Some(published()), &sealed, Some(source), Some(other), &active, &source),
        Err(CoordinatorProcessorFullCommitError::IdentityMismatch)
    );
}
