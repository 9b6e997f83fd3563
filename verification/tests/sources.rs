//! Submissions, floor anchors, reward rows and the commitments over them.

use std::collections::BTreeMap;

use psy_rollback::commitment::{add_be_256, xor_256, MultisetCommitment};
use psy_rollback::coordinator_guta_durable_submission_store::{
    accept_persisted, read_submission, settle_execution, validate_identity,
    CoordinatorGutaDurableSubmissionQueries, CoordinatorGutaDurableSubmissionStoreError,
    Submission,
};
use psy_rollback::coordinator_rollback_archive_plan::CoordinatorRollbackArchivePlan;
use psy_rollback::coordinator_rollback_branch_accumulator::{
    CoordinatorRollbackBranchCatalogDigest, CoordinatorRollbackBranchCatalogSummary,
    VerifiedCoordinatorRollbackSuffixSelection,
};
use psy_rollback::coordinator_rollback_branch_scan::CoordinatorRollbackMappingArchiveSummary;
use psy_rollback::coordinator_rollback_floor_singleton_anchor::{
    anchor_digest, decode_checkpoint, ensure, floor_key, source_bigint, source_blob,
    ActivationSources, AnchorEvent, AnchorReadFailure, AnchorStage,
    CoordinatorRollbackFloorSingletonAnchorError, CoordinatorRollbackFloorSingletonAnchorQueries,
    CoordinatorRollbackFloorSingletonAnchorStoreError, FloorAnchor, ROW_REVISION,
};
use psy_rollback::coordinator_rollback_realm_reward_catalog::{
    catalog_fingerprint, require_before_fence, select_row, source_point, source_point_key,
    source_row_commitment, validate_source_value, CoordinatorRollbackArchivedRealmRewardRow,
    CoordinatorRollbackRealmRewardCatalogError, DecodedNode, RewardArchive, RewardArchiveStage,
    RewardArchiving, RewardCatalogQueries, RewardRow, RewardScan, RewardScanRow, RewardSourceRow,
};
use psy_rollback::keyspace::CqlKeyspaceName;
use psy_rollback::model::{
    AuthorityScope, CanonicalChainRef, CheckpointRef, DecodedL2, FenceWindow, NetworkId,
    QEDL2BlockState, RollbackControlState, RollbackExecutionMode, RollbackFloor, RollbackRequest,
    SourceCell, StoredHead, UniquePendingId,
};
use psy_rollback::registry::Registry;
use sha2::{Digest, Sha256};

fn sha(parts: &[&[u8]]) -> [u8; 32] {
    let mut hasher = Sha256::new();
    for part in parts {
        hasher.update(part);
    }
    hasher.finalize().into()
}

#[test]
fn cql_is_append_only_lwt_with_stable_bind_order() {
    let keyspace = CqlKeyspaceName::try_new("control_nt").unwrap();
    let queries = CoordinatorGutaDurableSubmissionQueries::new(&keyspace);
    assert_eq!(queries.create, "CREATE TABLE IF NOT EXISTS control_nt.branch_exact_coordinator_guta_submission_v1 (submission_slot blob PRIMARY KEY, revision bigint, submission_payload blob)");
    assert_eq!(queries.read, "SELECT revision, submission_payload FROM control_nt.branch_exact_coordinator_guta_submission_v1 WHERE submission_slot = ?");
    assert_eq!(queries.insert, "INSERT INTO control_nt.branch_exact_coordinator_guta_submission_v1 (submission_slot, revision, submission_payload) VALUES (?, ?, ?) IF NOT EXISTS");
    for query in [&queries.create, &queries.read, &queries.insert] {
        assert!(!query.contains("UPDATE "));
        assert!(!query.contains("DELETE FROM"));
        assert!(!query.contains("USING TTL"));
        assert!(!query.contains("USING TIMESTAMP"));
    }
}

fn submission(tag: u8) -> Submission {
    Submission {
        network: NetworkId { chain_id: 1 },
        authority: AuthorityScope::Coordinator,
        slot: [tag; 32],
        canonical: vec![tag; 5],
    }
}

#[test]
fn a_submission_belongs_to_its_network_and_the_coordinator() {
    let network = NetworkId { chain_id: 1 };
    let mismatch = Err(CoordinatorGutaDurableSubmissionStoreError::IdentityMismatch);
    assert_eq!(validate_identity(network, &submission(1)), Ok(()));
    assert_eq!(validate_identity(NetworkId { chain_id: 2 }, &submission(1)), mismatch);
    let realm = Submission {
        authority: AuthorityScope::Realm { realm_id: 1, realm_sub_id: 0 },
        ..submission(1)
    };
    assert_eq!(validate_identity(network, &realm), mismatch);
}

#[test]
fn a_stored_submission_is_checked_column_by_column() {
    let network = NetworkId { chain_id: 1 };
    let read = |row: Option<(Option<i64>, bool)>| read_submission(network, row, Ok(submission(1)));
    assert_eq!(read(None), Ok(None));
    assert_eq!(read(Some((Some(1), true))), Ok(Some(submission(1))));
    assert_eq!(
        read(Some((None, true))),
        Err(CoordinatorGutaDurableSubmissionStoreError::MissingColumn)
    );
    assert_eq!(
        read(Some((Some(2), true))),
        Err(CoordinatorGutaDurableSubmissionStoreError::UnknownRevision)
    );
    assert_eq!(
        read(Some((Some(1), false))),
        Err(CoordinatorGutaDurableSubmissionStoreError::MissingColumn)
    );
    assert_eq!(
        read_submission(network, Some((Some(1), true)), Err("codec".to_owned())),
        Err(CoordinatorGutaDurableSubmissionStoreError::Core("codec".to_owned()))
    );
}

#[test]
fn a_submission_insert_is_settled_by_what_is_read() {
    let failed = || Err("timeout".to_owned());
    let expected = submission(1);
    assert_eq!(settle_execution(Ok(true), Ok(None), &expected), Ok(true));
    assert_eq!(settle_execution(Ok(false), Ok(None), &expected), Ok(false));
    assert_eq!(settle_execution(failed(), Ok(Some(submission(1))), &expected), Ok(false));
    assert_eq!(
        settle_execution(failed(), Ok(Some(submission(2))), &expected),
        Err(CoordinatorGutaDurableSubmissionStoreError::Indeterminate("timeout".to_owned()))
    );
    assert_eq!(
        settle_execution(failed(), Err("down".to_owned()), &expected),
        Err(CoordinatorGutaDurableSubmissionStoreError::Indeterminate(
            "execute=timeout; read=down".to_owned()
        ))
    );
    assert_eq!(accept_persisted(true, Some(submission(1)), &expected), Ok(submission(1)));
    assert_eq!(
        accept_persisted(true, Some(submission(2)), &expected),
        Err(CoordinatorGutaDurableSubmissionStoreError::AppliedStateMismatch)
    );
    assert_eq!(
        accept_persisted(false, Some(submission(2)), &expected),
        Err(CoordinatorGutaDurableSubmissionStoreError::Conflict)
    );
    assert_eq!(
        accept_persisted(false, None, &expected),
        Err(CoordinatorGutaDurableSubmissionStoreError::MissingAfterLwt)
    );
}

fn canonical(chain_id: u32, epoch: u64, height: u64) -> CanonicalChainRef {
    let checkpoint = CheckpointRef { height, hash: [7; 32] };
    let mut bytes = [0u8; 65];
    bytes[1..5].copy_from_slice(&chain_id.to_be_bytes());
    bytes[5..13].copy_from_slice(&epoch.to_be_bytes());
    bytes[13..21].copy_from_slice(&height.to_be_bytes());
    bytes[21..53].copy_from_slice(&checkpoint.hash);
    CanonicalChainRef {
        network: NetworkId { chain_id },
        chain_epoch: epoch,
        checkpoint,
        canonical: bytes,
    }
}

fn floor() -> RollbackFloor {
    RollbackFloor {
        floor: canonical(1337, 6, 7),
        activation_head_revision: 11,
        digest: [0x31; 32],
        canonical: vec![0x32; 90],
    }
}

fn idle_head() -> StoredHead {
    StoredHead {
        revision: 11,
        canonical: canonical(1337, 6, 7),
        control: RollbackControlState::Idle,
        control_bytes: vec![0],
    }
}

fn state(checkpoint: u64, next_contract_id: u32) -> QEDL2BlockState {
    QEDL2BlockState {
        checkpoint_id: checkpoint,
        next_add_withdrawal_id: 11,
        next_process_withdrawal_id: 12,
        next_deposit_id: 13,
        total_deposits_claimed_epoch: 14,
        next_user_id: 15,
        end_balance: 16,
        next_contract_id,
    }
}

/// What the storage codec makes of the cell of a state.
fn decoded(checkpoint: u64, next_contract_id: u32) -> Result<DecodedL2<Vec<u8>>, String> {
    let canonical = [&checkpoint.to_be_bytes()[..], &next_contract_id.to_be_bytes()[..]].concat();
    Ok(DecodedL2 {
        state: state(checkpoint, next_contract_id),
        rebuilt: canonical.clone(),
        canonical,
    })
}

fn l2_cell(checkpoint: u64, next_contract_id: u32, writetime_us: i64) -> SourceCell {
    let mut bytes = vec![0x28, 0xB5];
    bytes.extend_from_slice(&checkpoint.to_be_bytes());
    bytes.extend_from_slice(&next_contract_id.to_be_bytes());
    SourceCell { bytes, writetime_us }
}

fn checkpoint_cell(checkpoint: u64, writetime_us: i64) -> SourceCell {
    SourceCell { bytes: i64::try_from(checkpoint).unwrap().to_be_bytes().to_vec(), writetime_us }
}

fn anchor() -> FloorAnchor {
    FloorAnchor::try_new(
        floor(),
        &l2_cell(7, 41, 1_001),
        &l2_cell(7, 41, 901),
        &checkpoint_cell(7, 1_002),
        decoded(7, 41),
    )
    .unwrap()
}

#[test]
fn floor_anchor_roundtrips_and_binds_exact_sources() {
    let anchor = anchor();
    assert_eq!(
        FloorAnchor::decode_persisted(
            ROW_REVISION,
            anchor.canonical_bytes(),
            Ok(floor()),
            decoded(7, 41)
        ),
        Ok(self::anchor()),
    );
    assert_eq!(anchor.latest_checkpoint(), 7);
    assert_ne!(anchor.digest(), &[0; 32]);
    assert_eq!(
        anchor.validate_target_l2(&l2_cell(7, 41, 902)),
        Err(CoordinatorRollbackFloorSingletonAnchorError::TargetL2Changed),
    );
    let body = anchor.canonical_bytes().len() - 32;
    assert_eq!(
        anchor_digest(&anchor.canonical_bytes()[..body]),
        sha(&[
            b"psy.rollback.coordinator-floor-singleton-anchor.v1\0",
            &anchor.canonical_bytes()[..body]
        ])
    );
}

#[test]
fn floor_anchor_rejects_current_target_or_checkpoint_drift() {
    assert_eq!(
        FloorAnchor::try_new(
            floor(),
            &l2_cell(7, 42, 1_001),
            &l2_cell(7, 41, 901),
            &checkpoint_cell(7, 1_002),
            decoded(7, 42),
        ),
        Err(CoordinatorRollbackFloorSingletonAnchorError::LatestL2TargetMismatch),
    );
    assert_eq!(
        FloorAnchor::try_new(
            floor(),
            &l2_cell(7, 41, 1_001),
            &l2_cell(7, 41, 901),
            &checkpoint_cell(8, 1_002),
            decoded(7, 41),
        ),
        Err(CoordinatorRollbackFloorSingletonAnchorError::CheckpointMismatch),
    );
}

#[test]
fn floor_anchor_decoder_names_what_is_wrong() {
    let anchor = anchor();
    let good = anchor.canonical_bytes().to_vec();
    let decode = |revision: i64, bytes: &[u8]| {
        FloorAnchor::decode_persisted(revision, bytes, Ok(floor()), decoded(7, 41)).unwrap_err()
    };
    assert_eq!(
        decode(2, &good),
        CoordinatorRollbackFloorSingletonAnchorError::InvalidRowRevision(2)
    );
    let mut magic = good.clone();
    magic[0] ^= 1;
    assert_eq!(decode(1, &magic), CoordinatorRollbackFloorSingletonAnchorError::InvalidMagic);
    let mut version = good.clone();
    version[9] = 4;
    assert_eq!(
        decode(1, &version),
        CoordinatorRollbackFloorSingletonAnchorError::UnknownVersion(4)
    );
    assert_eq!(
        decode(1, &good[..good.len() - 1]),
        CoordinatorRollbackFloorSingletonAnchorError::Truncated
    );
    let mut trailing = good.clone();
    trailing.push(0);
    assert_eq!(decode(1, &trailing), CoordinatorRollbackFloorSingletonAnchorError::TrailingBytes);
    let mut digest = good.clone();
    let last = digest.len() - 1;
    digest[last] ^= 1;
    assert_eq!(decode(1, &digest), CoordinatorRollbackFloorSingletonAnchorError::DigestMismatch);
    assert_eq!(
        FloorAnchor::decode_persisted(1, &good, Err("floor".to_owned()), decoded(7, 41)),
        Err(CoordinatorRollbackFloorSingletonAnchorError::Floor("floor".to_owned()))
    );
    assert_eq!(
        FloorAnchor::decode_persisted(1, &good, Ok(floor()), Err("codec".to_owned())),
        Err(CoordinatorRollbackFloorSingletonAnchorError::L2("codec".to_owned()))
    );
    assert_eq!(decode_checkpoint(&7i64.to_be_bytes()), Ok(7));
    assert_eq!(
        decode_checkpoint(&(-1i64).to_be_bytes()),
        Err(CoordinatorRollbackFloorSingletonAnchorError::InvalidCheckpoint)
    );
}

#[test]
fn an_anchor_shows_other_codecs_their_parts() {
    let anchor = anchor();
    assert_eq!(
        FloorAnchor::foreign_parts(anchor.canonical_bytes()),
        Some((floor().canonical, l2_cell(7, 41, 1_001).bytes))
    );
    assert_eq!(FloorAnchor::foreign_parts(&anchor.canonical_bytes()[..20]), None);
}

#[test]
fn anchor_queries_are_append_only_and_exact() {
    let control = CqlKeyspaceName::try_new("psy_floor_anchor_no_tablet").unwrap();
    let state = CqlKeyspaceName::try_new("psy_floor_anchor").unwrap();
    let queries = CoordinatorRollbackFloorSingletonAnchorQueries::new(&control, &state);
    assert!(queries.insert_anchor.contains("IF NOT EXISTS"));
    for query in [
        queries.create_anchor,
        queries.read_anchor,
        queries.insert_anchor,
        queries.read_latest_l2,
        queries.read_target_l2,
        queries.read_latest_checkpoint,
    ] {
        assert!(!query.contains("DELETE"));
        assert!(!query.contains("UPDATE"));
        assert!(!query.contains("USING TIMESTAMP"));
    }
}

fn sources(next_contract_id: u32) -> ActivationSources {
    ActivationSources {
        latest_l2: l2_cell(7, next_contract_id, 1_001),
        target_l2: l2_cell(7, next_contract_id, 901),
        latest_checkpoint: checkpoint_cell(7, 1_002),
        decoded: decoded(7, next_contract_id),
    }
}

fn step(
    stage: AnchorStage,
    event: AnchorEvent,
) -> Result<AnchorStage, CoordinatorRollbackFloorSingletonAnchorStoreError> {
    ensure(stage, event, &idle_head(), &floor())
}

fn refusal(
    result: Result<AnchorStage, CoordinatorRollbackFloorSingletonAnchorStoreError>,
) -> CoordinatorRollbackFloorSingletonAnchorStoreError {
    match result {
        Ok(_) => panic!("the step has to fail"),
        Err(error) => error,
    }
}

#[test]
fn a_new_anchor_is_read_back_over_unchanged_sources() {
    let mut stage = AnchorStage::ValidateHead;
    for event in [
        AnchorEvent::HeadValidated(Ok(())),
        AnchorEvent::Anchor(Ok(None)),
        AnchorEvent::Sources(Ok(sources(41))),
        AnchorEvent::Executed(Ok(())),
        AnchorEvent::Anchor(Ok(Some(anchor()))),
        AnchorEvent::Sources(Ok(sources(41))),
    ] {
        stage = step(stage, event).unwrap();
    }
    match stage {
        AnchorStage::Anchored(found) => assert_eq!(found, anchor()),
        _ => panic!("the floor is anchored"),
    }
    let persisted =
        || AnchorStage::ReadSourcesAgain { expected: anchor(), persisted: anchor() };
    assert_eq!(
        refusal(step(persisted(), AnchorEvent::Sources(Ok(sources(42))))),
        CoordinatorRollbackFloorSingletonAnchorStoreError::SourceChanged
    );
    assert_eq!(
        refusal(step(AnchorStage::ReadPersisted(anchor()), AnchorEvent::Anchor(Ok(None)))),
        CoordinatorRollbackFloorSingletonAnchorStoreError::MissingAfterWrite
    );
}

#[test]
fn an_existing_anchor_is_accepted_over_its_target_only() {
    let found = step(AnchorStage::ReadExisting, AnchorEvent::Anchor(Ok(Some(anchor())))).unwrap();
    assert!(matches!(found, AnchorStage::ReadTarget(_)));
    assert!(matches!(
        step(found, AnchorEvent::Target(Ok(l2_cell(7, 41, 901)))),
        Ok(AnchorStage::Anchored(_))
    ));
    assert_eq!(
        refusal(step(
            AnchorStage::ReadTarget(anchor()),
            AnchorEvent::Target(Ok(l2_cell(7, 41, 902)))
        )),
        CoordinatorRollbackFloorSingletonAnchorStoreError::Anchor(
            CoordinatorRollbackFloorSingletonAnchorError::TargetL2Changed
        )
    );
    let mut other = floor();
    other.digest = [0x33; 32];
    assert_eq!(
        refusal(ensure(
            AnchorStage::ReadExisting,
            AnchorEvent::Anchor(Ok(Some(anchor()))),
            &idle_head(),
            &other
        )),
        CoordinatorRollbackFloorSingletonAnchorStoreError::Anchor(
            CoordinatorRollbackFloorSingletonAnchorError::FloorMismatch
        )
    );
}

#[test]
fn an_anchor_cannot_be_made_behind_the_activation_head() {
    let mut advanced = idle_head();
    advanced.revision = 12;
    assert_eq!(
        refusal(ensure(
            AnchorStage::ReadExisting,
            AnchorEvent::Anchor(Ok(None)),
            &advanced,
            &floor()
        )),
        CoordinatorRollbackFloorSingletonAnchorStoreError::MissingAfterHeadAdvanced
    );
    assert_eq!(
        refusal(step(
            AnchorStage::ValidateHead,
            AnchorEvent::HeadValidated(Err("floor".to_owned()))
        )),
        CoordinatorRollbackFloorSingletonAnchorStoreError::Floor("floor".to_owned())
    );
    assert_eq!(
        refusal(step(AnchorStage::ValidateHead, AnchorEvent::Executed(Ok(())))),
        CoordinatorRollbackFloorSingletonAnchorStoreError::OutOfOrder
    );
}

#[test]
fn a_failed_anchor_insert_is_settled_by_the_exact_anchor_only() {
    let open = || AnchorStage::ReadBack { expected: anchor(), failure: "timeout".to_owned() };
    assert!(matches!(
        step(open(), AnchorEvent::Anchor(Ok(Some(anchor())))),
        Ok(AnchorStage::ReadPersisted(_))
    ));
    let mut other = anchor();
    other.latest_l2_writetime_us += 1;
    assert_eq!(
        refusal(step(open(), AnchorEvent::Anchor(Ok(Some(other))))),
        CoordinatorRollbackFloorSingletonAnchorStoreError::Conflict
    );
    assert_eq!(
        refusal(step(open(), AnchorEvent::Anchor(Ok(None)))),
        CoordinatorRollbackFloorSingletonAnchorStoreError::IndeterminateWrite(
            "timeout".to_owned()
        )
    );
    assert_eq!(
        refusal(step(
            open(),
            AnchorEvent::Anchor(Err(AnchorReadFailure {
                error: CoordinatorRollbackFloorSingletonAnchorStoreError::Driver("x".to_owned()),
                text: "Driver(\"x\")".to_owned(),
            }))
        )),
        CoordinatorRollbackFloorSingletonAnchorStoreError::IndeterminateWrite(
            "execute=timeout; read=Driver(\"x\")".to_owned()
        )
    );
}

#[test]
fn source_cells_need_their_value_and_their_write_time() {
    assert_eq!(
        source_blob(Some((Some(vec![1]), Some(5)))),
        Ok(SourceCell { bytes: vec![1], writetime_us: 5 })
    );
    assert_eq!(
        source_blob(Some((Some(vec![1]), None))),
        Err(CoordinatorRollbackFloorSingletonAnchorStoreError::MissingSource)
    );
    assert_eq!(source_bigint(Some((Some(7), Some(5)))), Ok(checkpoint_cell(7, 5)));
    assert_eq!(
        source_bigint(None),
        Err(CoordinatorRollbackFloorSingletonAnchorStoreError::MissingSource)
    );
    assert_eq!(floor_key(&floor()), Ok((1337, 6)));
    let mut late = floor();
    late.floor.chain_epoch = u64::MAX;
    assert_eq!(
        floor_key(&late),
        Err(CoordinatorRollbackFloorSingletonAnchorStoreError::IntegerOutOfRange)
    );
}

#[test]
fn query_golden_is_full_scan_plus_exact_point_read() {
    let keyspace = CqlKeyspaceName::try_new("state").unwrap();
    let queries = RewardCatalogQueries::new(&keyspace);
    assert_eq!(
        queries.read_all,
        "SELECT obj_id, checkpoint_id, value, WRITETIME(value) FROM state.realm_rewards_tree_node_key_table"
    );
    assert_eq!(
        queries.read_point,
        "SELECT value, WRITETIME(value) FROM state.realm_rewards_tree_node_key_table WHERE obj_id = ? AND checkpoint_id = ?"
    );
    assert_ne!(catalog_fingerprint(&keyspace, &queries), [0; 32]);
    let golden = queries.golden();
    assert_eq!(
        catalog_fingerprint(&keyspace, &queries),
        sha(&[
            b"psy/coordinator-rollback-realm-reward-catalog/v1",
            &5u64.to_be_bytes(),
            b"state",
            &(golden.len() as u64).to_be_bytes(),
            golden.as_bytes(),
        ])
    );
}

#[test]
fn multiset_commitment_is_order_independent_and_count_sensitive() {
    let mut first_xor = [0_u8; 32];
    let mut first_sum = [0_u8; 32];
    let mut second_xor = [0_u8; 32];
    let mut second_sum = [0_u8; 32];
    let a = [0x11; 32];
    let b = [0xF2; 32];
    for value in [a, b] {
        xor_256(&mut first_xor, &value);
        add_be_256(&mut first_sum, value);
    }
    for value in [b, a] {
        xor_256(&mut second_xor, &value);
        add_be_256(&mut second_sum, value);
    }
    assert_eq!(first_xor, second_xor);
    assert_eq!(first_sum, second_sum);
    let once = a;
    let mut twice = [0_u8; 32];
    add_be_256(&mut twice, a);
    add_be_256(&mut twice, a);
    assert_ne!(once, twice);
}

#[test]
fn commitment_arithmetic_carries_and_wraps() {
    let mut sum = [0xFF; 32];
    let mut one = [0u8; 32];
    one[31] = 1;
    add_be_256(&mut sum, one);
    assert_eq!(sum, [0; 32]);
    let mut carried = [0u8; 32];
    carried[31] = 0xFF;
    add_be_256(&mut carried, one);
    let mut expected = [0u8; 32];
    expected[30] = 1;
    assert_eq!(carried, expected);
    let mut commitment = MultisetCommitment::empty();
    commitment.add_member([3; 32]);
    commitment.add_member([3; 32]);
    assert_eq!(commitment.xor, [0; 32]);
    assert_eq!(commitment.sum, [6; 32]);
}

fn node(level: u8, index: u8) -> Vec<u8> {
    vec![0x28, 0xB5, level, index]
}

fn reward_row(
    source_checkpoint: u64,
    realm: u64,
    pending: u64,
    value: Vec<u8>,
    writetime_us: i64,
) -> RewardRow {
    RewardRow {
        catalog_fingerprint: [1; 32],
        network: NetworkId { chain_id: 1 },
        rollback_epoch: 7,
        source_epoch: 6,
        mapping_catalog_fingerprint: [2; 32],
        mapping_catalog_digest: [3; 32],
        mapping_source_digest: [4; 32],
        source_checkpoint,
        source: RewardSourceRow {
            realm,
            pending: UniquePendingId::try_new(pending).unwrap(),
            value,
            writetime_us,
        },
    }
}

#[test]
fn source_commitment_binds_physical_key_value_and_writetime() {
    let first = reward_row(95, 3, 105, node(4, 8), 999);
    let same = reward_row(95, 3, 105, node(4, 8), 999);
    assert_eq!(source_row_commitment(&first), source_row_commitment(&same));
    for changed in [
        reward_row(95, 4, 105, node(4, 8), 999),
        reward_row(95, 3, 106, node(4, 8), 999),
        reward_row(95, 3, 105, node(4, 9), 999),
        reward_row(95, 3, 105, node(4, 8), 998),
    ] {
        assert_ne!(source_row_commitment(&first), source_row_commitment(&changed));
    }
    assert!(validate_source_value(Ok(DecodedNode { canonical: vec![4, 8], rebuilt: vec![4, 8] }))
        .is_ok());
    assert!(validate_source_value(Err("not-zstd".to_owned())).is_err());
    assert_eq!(
        validate_source_value(Ok(DecodedNode { canonical: vec![4, 8], rebuilt: vec![4] })),
        Err(CoordinatorRollbackRealmRewardCatalogError::NonCanonicalSource)
    );
}

fn plan() -> CoordinatorRollbackArchivePlan {
    let request = RollbackRequest {
        requested_head: canonical(1, 7, 100).checkpoint,
        target: CheckpointRef { height: 90, hash: [9; 32] },
        fence: FenceWindow {
            orphan_write_max_us: 1_000,
            delete_fence_us: 1_001,
            new_branch_write_us: 1_002,
        },
        execution_mode: RollbackExecutionMode::InPlace,
        execution_mode_code: 1,
        plan_digest: [0xA5; 32],
    };
    let registry = Registry::try_new(1, Vec::new(), Vec::new()).unwrap();
    CoordinatorRollbackArchivePlan::resolve(request, &registry)
}

fn archiving_head() -> StoredHead {
    StoredHead {
        revision: 5,
        canonical: canonical(1, 7, 100),
        control: RollbackControlState::Archiving(plan().request),
        control_bytes: vec![3],
    }
}

fn summary() -> CoordinatorRollbackBranchCatalogSummary {
    CoordinatorRollbackBranchCatalogSummary {
        catalog_fingerprint: [2; 32],
        source_chain_epoch: 6,
        suffix_rows: 2,
        catalog_digest: CoordinatorRollbackBranchCatalogDigest([3; 32]),
        source_digest: [4; 32],
    }
}

fn selection() -> VerifiedCoordinatorRollbackSuffixSelection {
    VerifiedCoordinatorRollbackSuffixSelection {
        summary: summary(),
        first_checkpoint: 99,
        pendings: vec![105, 106],
        pending_to_checkpoint: BTreeMap::from([(105, 99), (106, 100)]),
    }
}

fn scan_row(pending: i64) -> RewardScanRow {
    RewardScanRow {
        realm: Some(3),
        pending: Some(pending),
        value: Some(node(4, 8)),
        writetime_us: Some(999),
    }
}

fn decoded_node() -> Result<DecodedNode<Vec<u8>>, String> {
    Ok(DecodedNode { canonical: vec![4, 8], rebuilt: vec![4, 8] })
}

#[test]
fn a_reward_row_is_selected_by_its_pending_identity() {
    let select = |row: RewardScanRow| {
        select_row([1; 32], &archiving_head(), &plan(), &selection(), row, decoded_node())
    };
    assert_eq!(
        select(scan_row(106)),
        Ok(Some(reward_row(100, 3, 106, node(4, 8), 999)))
    );
    assert_eq!(select(scan_row(7)), Ok(None));
    assert_eq!(select(scan_row(-1)), Ok(None));
    assert_eq!(
        select(scan_row(0)),
        Err(CoordinatorRollbackRealmRewardCatalogError::IntegerOutOfRange)
    );
    assert_eq!(
        select(RewardScanRow { value: None, ..scan_row(105) }),
        Err(CoordinatorRollbackRealmRewardCatalogError::MissingSourceColumn)
    );
    assert_eq!(
        select(RewardScanRow { realm: Some(-1), ..scan_row(105) }),
        Err(CoordinatorRollbackRealmRewardCatalogError::IntegerOutOfRange)
    );
    assert_eq!(
        select(RewardScanRow { writetime_us: Some(1_001), ..scan_row(105) }),
        Err(CoordinatorRollbackRealmRewardCatalogError::WriteAfterFence {
            writetime_us: 1_001,
            orphan_write_max_us: 1_000,
        })
    );
    assert_eq!(require_before_fence(&plan(), 1_000), Ok(()));
    let pending = UniquePendingId::try_new(105).unwrap();
    assert_eq!(source_point_key(3, pending), Ok((3, 105)));
    assert_eq!(
        source_point_key(u64::MAX, pending),
        Err(CoordinatorRollbackRealmRewardCatalogError::IntegerOutOfRange)
    );
    assert_eq!(source_point(3, pending, None), Ok(None));
    assert_eq!(
        source_point(3, pending, Some((Some(node(4, 8)), Some(999)))),
        Ok(Some(reward_row(99, 3, 105, node(4, 8), 999).source))
    );
}

fn archived_row(tag: u8) -> CoordinatorRollbackArchivedRealmRewardRow {
    CoordinatorRollbackArchivedRealmRewardRow {
        slot: [tag; 32],
        digest: [tag + 1; 32],
        canonical_bytes: 300,
    }
}

#[test]
fn reward_datasets_do_not_depend_on_the_scan_order() {
    let scan = |rows: &[RewardRow]| {
        let mut scan = RewardScan::begin(&archiving_head(), &plan(), &selection(), false).unwrap();
        for row in rows {
            scan.record(row, None).unwrap();
        }
        scan.finish().0
    };
    let rows =
        [reward_row(99, 3, 105, node(4, 8), 999), reward_row(100, 3, 106, node(4, 9), 998)];
    let reversed =
        [reward_row(100, 3, 106, node(4, 9), 998), reward_row(99, 3, 105, node(4, 8), 999)];
    assert_eq!(scan(&rows), scan(&reversed));
    assert_ne!(scan(&rows), scan(&rows[..1]));
    let found = scan(&rows[..1]);
    let member = source_row_commitment(&rows[0]);
    assert_eq!((found.selected_rows, found.source_bytes), (1, 4));
    assert_eq!(found.xor_commitment, member);
    assert_eq!(found.sum_commitment, member);
    assert_eq!(
        found.digest,
        sha(&[
            b"psy/coordinator-rollback-realm-reward-source-dataset/v1",
            &plan().digest().as_bytes(),
            &[3; 32],
            &1u64.to_be_bytes(),
            &4u64.to_be_bytes(),
            &member,
            &member,
        ])
    );
}

#[test]
fn a_reward_row_counts_only_if_its_source_is_unchanged() {
    let row = reward_row(99, 3, 105, node(4, 8), 999);
    let record = |persisted: Result<CoordinatorRollbackArchivedRealmRewardRow, String>,
                  after: Option<RewardSourceRow<Vec<u8>>>| {
        let mut scan = RewardScan::begin(&archiving_head(), &plan(), &selection(), true).unwrap();
        scan.record(&row, Some(RewardArchiving { persisted, after: Ok(after) }))
    };
    let same = reward_row(99, 3, 105, node(4, 8), 999).source;
    let changed = reward_row(99, 3, 105, node(4, 8), 998).source;
    assert_eq!(record(Ok(archived_row(1)), Some(same)), Ok(()));
    assert_eq!(
        record(Ok(archived_row(1)), Some(changed)),
        Err(CoordinatorRollbackRealmRewardCatalogError::SourceChanged)
    );
    assert_eq!(
        record(Ok(archived_row(1)), None),
        Err(CoordinatorRollbackRealmRewardCatalogError::SourceChanged)
    );
    assert_eq!(
        record(Err("archive".to_owned()), None),
        Err(CoordinatorRollbackRealmRewardCatalogError::Archive("archive".to_owned()))
    );
}

#[test]
fn rewards_are_archived_between_two_equal_scans() {
    let mapping = CoordinatorRollbackMappingArchiveSummary {
        catalog: summary(),
        archive_rows: 8,
        archive_bytes: 2_400,
        archive_digest: [5; 32],
    };
    let head = archiving_head();
    let row = reward_row(99, 3, 105, node(4, 8), 999);
    let scan = |archiving: bool, count: usize| {
        let mut scan =
            RewardScan::begin(&archiving_head(), &plan(), &selection(), archiving).unwrap();
        for _ in 0..count {
            let outcome = if archiving {
                Some(RewardArchiving {
                    persisted: Ok(archived_row(1)),
                    after: Ok(Some(reward_row(99, 3, 105, node(4, 8), 999).source)),
                })
            } else {
                None
            };
            scan.record(&row, outcome).unwrap();
        }
        Ok(scan.finish())
    };
    let run = |last: usize| {
        let mut archive = RewardArchive::begin().take_mapping(Ok(mapping)).unwrap();
        for (pass, count) in [(1u8, 1usize), (2, 1), (3, last)] {
            archive = archive.take_head(Ok(Some(head.clone())), &head).unwrap();
            archive = archive.take_selection(Ok(&selection())).unwrap();
            archive = archive.take_scan(scan(pass == 2, count)).unwrap();
        }
        archive.take_head(Ok(Some(head.clone())), &head).unwrap()
    };
    let finished = run(1);
    assert_eq!(finished.stage, RewardArchiveStage::Conclude);
    let summary = finished.archive_verified_suffix().unwrap();
    assert_eq!(summary.selected_rows(), 1);
    assert_eq!(summary.mapping(), mapping);
    assert_eq!(
        run(2).archive_verified_suffix(),
        Err(CoordinatorRollbackRealmRewardCatalogError::SourceChanged)
    );
    let mut moved = archiving_head();
    moved.revision += 1;
    assert!(matches!(
        RewardArchive::begin()
            .take_mapping(Ok(mapping))
            .unwrap()
            .take_head(Ok(Some(moved)), &archiving_head()),
        Err(CoordinatorRollbackRealmRewardCatalogError::HeadChanged)
    ));
}
