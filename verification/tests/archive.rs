//! The archive plan, the archive rows and the copying of a suffix.

use std::collections::BTreeSet;

use psy_rollback::coordinator_rollback_archive_persist::{
    kiv_coordinates, source_key, FragmentReadFailure, FragmentedPersist, KivSuffixArchive,
    PersistStep, SuffixStage,
};
use psy_rollback::coordinator_rollback_archive_plan::{
    CoordinatorRollbackArchiveAction, CoordinatorRollbackArchivePlan,
    CoordinatorRollbackArchivePlanBlocker, CoordinatorRollbackArchivePlanDigest,
    CoordinatorRollbackArchivePlanDigestError,
};
use psy_rollback::coordinator_rollback_archive_scan::{
    accept_persisted_row, read_exact_row, require_own_receipt, revalidate_receipt, source_row, CheckpointKivSourceRow,
    StoredFragmentRow,
};
use psy_rollback::coordinator_rollback_archive_store::{
    all_sources, archived_chain_id, decode_fragment, fragment_digest, reconstruct_fragments,
    require_standard_keyspace, row_digest, store_fingerprint,
    CoordinatorCheckpointPartitionKivSource, CoordinatorRollbackArchiveFragment,
    CoordinatorRollbackArchiveQueries, CoordinatorRollbackArchiveRowDigest,
    CoordinatorRollbackArchiveRowError, CoordinatorRollbackArchiveStoreError,
    CoordinatorRollbackArchiveStoreFingerprint, KivArchiveRow, StoredFragmentColumns,
    ARCHIVE_REVISION, MAX_FRAGMENT_BYTES,
};
use psy_rollback::identity::{ScyllaKeyDomain, ScyllaPhysicalTableId};
use psy_rollback::keyspace::CqlKeyspaceName;
use psy_rollback::lwt::LwtWrite;
use psy_rollback::model::{
    CanonicalChainRef, CheckpointRef, FenceWindow, NetworkId, RollbackControlState,
    RollbackExecutionMode, RollbackRequest, StoredHead,
};
use psy_rollback::registry::{
    DeleteStrategy, DomainPreparedUpdateCoverage, InvalidRegistry, KeyDomainDescriptor,
    PhysicalDescriptor, PsyLogicalTableId, RecoveryAction, Registry, RegistryBlocker,
    RegistryReadiness, RollbackPolicy, ScyllaSchemaFamily, VersionAxis,
};
use sha2::{Digest, Sha256};

/// The tables and key domains that the tests work with.
fn registry() -> Registry {
    let table = |id: ScyllaPhysicalTableId, name: &str, schema_family: ScyllaSchemaFamily| {
        PhysicalDescriptor {
            id,
            logical_owner: PsyLogicalTableId { id: id.stable_id() },
            physical_name: name.to_owned(),
            schema_family,
            delete_candidates: vec![
                DeleteStrategy::Point,
                DeleteStrategy::VersionPartition,
                DeleteStrategy::BoundedRange,
            ],
        }
    };
    let domain = |id: ScyllaKeyDomain,
                  physical_table: ScyllaPhysicalTableId,
                  applicable: bool,
                  readiness: RegistryReadiness,
                  version_axis: VersionAxis,
                  rollback_policy: RollbackPolicy,
                  recovery_action: RecoveryAction| {
        KeyDomainDescriptor {
            id,
            physical_table,
            coordinator_coverage: if applicable {
                DomainPreparedUpdateCoverage::Applicable
            } else {
                DomainPreparedUpdateCoverage::NotApplicable
            },
            readiness,
            version_axis,
            rollback_policy,
            recovery_action,
        }
    };
    Registry::try_new(
        1,
        vec![
            table(ScyllaPhysicalTableId::CheckpointLeaf, "checkpoint_leaf_table", ScyllaSchemaFamily::Kiv),
            table(ScyllaPhysicalTableId::CheckpointRootToCheckpointIdK1, "checkpoint_root_to_checkpoint_id_k1_table", ScyllaSchemaFamily::Blob),
            table(ScyllaPhysicalTableId::CheckpointRootToCheckpointIdK2, "checkpoint_root_to_checkpoint_id_k2_table", ScyllaSchemaFamily::Kiv),
            table(ScyllaPhysicalTableId::CheckpointLeafToCheckpointIdK1, "checkpoint_leaf_to_checkpoint_id_k1_table", ScyllaSchemaFamily::Blob),
            table(ScyllaPhysicalTableId::CheckpointLeafToCheckpointIdK2, "checkpoint_leaf_to_checkpoint_id_k2_table", ScyllaSchemaFamily::Kiv),
            table(ScyllaPhysicalTableId::L2BlockState, "l2_block_state_table", ScyllaSchemaFamily::Kiv),
            table(ScyllaPhysicalTableId::CheckpointIdToRealmRoot, "checkpoint_id_to_realm_root_table", ScyllaSchemaFamily::Kiv),
            table(ScyllaPhysicalTableId::LatestInfo, "latest_info_table", ScyllaSchemaFamily::Kiv),
            table(ScyllaPhysicalTableId::CheckpointedObject, "checkpointed_object_table", ScyllaSchemaFamily::ObjectSingle),
            table(ScyllaPhysicalTableId::CheckpointStateRoots, "checkpoint_state_roots_table", ScyllaSchemaFamily::Kiv),
            table(ScyllaPhysicalTableId::UserLeaf, "user_leaf_table", ScyllaSchemaFamily::ObjectSingle),
            table(ScyllaPhysicalTableId::UserPublicKey, "user_public_key_table", ScyllaSchemaFamily::ObjectSingle),
            table(ScyllaPhysicalTableId::U64Singleton, "u64_singleton_table", ScyllaSchemaFamily::U64),
            table(ScyllaPhysicalTableId::U64CounterSingleton, "u64_counter_singleton_table", ScyllaSchemaFamily::Counter),
            table(ScyllaPhysicalTableId::ContractStateTreeHeight, "contract_state_tree_height_table", ScyllaSchemaFamily::U64),
            table(ScyllaPhysicalTableId::CheckpointIdToPendingId, "checkpoint_id_to_pending_id_table", ScyllaSchemaFamily::U64),
            table(ScyllaPhysicalTableId::PendingIdToCheckpointId, "pending_id_to_checkpoint_id_table", ScyllaSchemaFamily::U64),
            table(ScyllaPhysicalTableId::PendingIdToPendingProcIdU64ToU128, "pending_id_to_pending_proc_id_u64_to_u128_table", ScyllaSchemaFamily::U64ToU128),
            table(ScyllaPhysicalTableId::PendingIdToPendingProcIdU128ToU64, "pending_id_to_pending_proc_id_u128_to_u64_table", ScyllaSchemaFamily::U128ToU64),
            table(ScyllaPhysicalTableId::RealmRewardsTreeNodeKey, "realm_rewards_tree_node_key_table", ScyllaSchemaFamily::ObjectSingle),
            table(ScyllaPhysicalTableId::PublicKeyHashToUserIds, "public_key_hash_to_user_ids_table", ScyllaSchemaFamily::HashToMany),
            table(ScyllaPhysicalTableId::GlobalUserTree, "global_user_tree_table", ScyllaSchemaFamily::MerkleZero),
            table(ScyllaPhysicalTableId::UserContractTree, "user_contract_tree_table", ScyllaSchemaFamily::MerkleSingle),
            table(ScyllaPhysicalTableId::ContractStateTree, "contract_state_tree_table", ScyllaSchemaFamily::MerkleDouble),
            table(ScyllaPhysicalTableId::GlobalCheckpointTree, "global_checkpoint_tree_table", ScyllaSchemaFamily::MerkleZero),
            table(ScyllaPhysicalTableId::GutaRewardTagTree, "guta_reward_tag_tree_table", ScyllaSchemaFamily::TagTree),
            table(ScyllaPhysicalTableId::UserRegistrationTree, "user_registration_tree_table", ScyllaSchemaFamily::MerkleZero),
            table(ScyllaPhysicalTableId::GlobalContractTree, "global_contract_tree_table", ScyllaSchemaFamily::MerkleZero),
            table(ScyllaPhysicalTableId::ContractFunctionTree, "contract_function_tree_table", ScyllaSchemaFamily::MerkleSingle),
            table(ScyllaPhysicalTableId::ContractLeaf, "contract_leaf_table", ScyllaSchemaFamily::ObjectSingle),
            table(ScyllaPhysicalTableId::ContractCodeDefinition, "contract_code_definition_table", ScyllaSchemaFamily::Kiv),
            table(ScyllaPhysicalTableId::CheckpointZkProofAndTransition, "checkpoint_zk_proof_and_transition_table", ScyllaSchemaFamily::Kiv),
            table(ScyllaPhysicalTableId::ImtLeaf, "imt_leaf_table", ScyllaSchemaFamily::ImtLeaf),
            table(ScyllaPhysicalTableId::ImtKeyIndex, "imt_key_index_table", ScyllaSchemaFamily::ImtKeyIndex),
            table(ScyllaPhysicalTableId::ImtNextAppendIndex, "imt_next_append_index_table", ScyllaSchemaFamily::ImtCursor),
        ],
        vec![
            domain(
                ScyllaKeyDomain::CheckpointLeaf,
                ScyllaPhysicalTableId::CheckpointLeaf,
                true,
                RegistryReadiness::Ready,
                VersionAxis::CheckpointPartition,
                RollbackPolicy::ArchiveVersioned,
                RecoveryAction::ArchiveAndSnapshot,
            ),
            domain(
                ScyllaKeyDomain::CheckpointRootByHash,
                ScyllaPhysicalTableId::CheckpointRootToCheckpointIdK1,
                true,
                RegistryReadiness::Ready,
                VersionAxis::RootBirthPartition,
                RollbackPolicy::DerivedBirth,
                RecoveryAction::ArchiveAndRebuild,
            ),
            domain(
                ScyllaKeyDomain::CheckpointRootByCheckpoint,
                ScyllaPhysicalTableId::CheckpointRootToCheckpointIdK2,
                true,
                RegistryReadiness::Ready,
                VersionAxis::CheckpointPartition,
                RollbackPolicy::DerivedBirth,
                RecoveryAction::ArchiveAndRebuild,
            ),
            domain(
                ScyllaKeyDomain::CheckpointLeafByHash,
                ScyllaPhysicalTableId::CheckpointLeafToCheckpointIdK1,
                true,
                RegistryReadiness::Ready,
                VersionAxis::RootBirthPartition,
                RollbackPolicy::DerivedBirth,
                RecoveryAction::ArchiveAndRebuild,
            ),
            domain(
                ScyllaKeyDomain::CheckpointLeafByCheckpoint,
                ScyllaPhysicalTableId::CheckpointLeafToCheckpointIdK2,
                true,
                RegistryReadiness::Ready,
                VersionAxis::CheckpointPartition,
                RollbackPolicy::DerivedBirth,
                RecoveryAction::ArchiveAndRebuild,
            ),
            domain(
                ScyllaKeyDomain::L2BlockState,
                ScyllaPhysicalTableId::L2BlockState,
                true,
                RegistryReadiness::Ready,
                VersionAxis::CheckpointPartition,
                RollbackPolicy::ArchiveVersioned,
                RecoveryAction::ArchiveAndSnapshot,
            ),
            domain(
                ScyllaKeyDomain::UnusedCheckpointRealmRoot,
                ScyllaPhysicalTableId::CheckpointIdToRealmRoot,
                false,
                RegistryReadiness::RetireCandidate,
                VersionAxis::NoActiveAxis,
                RollbackPolicy::RetireUnused,
                RecoveryAction::Retire,
            ),
            domain(
                ScyllaKeyDomain::LatestInfo,
                ScyllaPhysicalTableId::LatestInfo,
                true,
                RegistryReadiness::Ready,
                VersionAxis::Singleton,
                RollbackPolicy::RestoreSingleton,
                RecoveryAction::RestoreFromTargetManifest,
            ),
            domain(
                ScyllaKeyDomain::CheckpointedGlobalUserProof,
                ScyllaPhysicalTableId::CheckpointedObject,
                true,
                RegistryReadiness::Ready,
                VersionAxis::CheckpointClustering,
                RollbackPolicy::ArchiveVersioned,
                RecoveryAction::ArchiveAndSnapshot,
            ),
            domain(
                ScyllaKeyDomain::CheckpointedRewardsProofAtCheckpoint,
                ScyllaPhysicalTableId::CheckpointedObject,
                true,
                RegistryReadiness::Ready,
                VersionAxis::CheckpointClustering,
                RollbackPolicy::ArchiveVersioned,
                RecoveryAction::ArchiveAndSnapshot,
            ),
            domain(
                ScyllaKeyDomain::CheckpointedRewardsProofAtPending,
                ScyllaPhysicalTableId::CheckpointedObject,
                false,
                RegistryReadiness::Blocked(RegistryBlocker::MixedCheckpointPendingAxis),
                VersionAxis::MixedCheckpointPendingClustering,
                RollbackPolicy::ByKeyDomain,
                RecoveryAction::BlockedUntilMigration,
            ),
            domain(
                ScyllaKeyDomain::CheckpointedContractStateProof,
                ScyllaPhysicalTableId::CheckpointedObject,
                false,
                RegistryReadiness::Ready,
                VersionAxis::CheckpointClustering,
                RollbackPolicy::ArchiveVersioned,
                RecoveryAction::ArchiveAndSnapshot,
            ),
            domain(
                ScyllaKeyDomain::CheckpointStateRoots,
                ScyllaPhysicalTableId::CheckpointStateRoots,
                true,
                RegistryReadiness::Ready,
                VersionAxis::CheckpointPartition,
                RollbackPolicy::ArchiveVersioned,
                RecoveryAction::ArchiveAndSnapshot,
            ),
            domain(
                ScyllaKeyDomain::UserLeaf,
                ScyllaPhysicalTableId::UserLeaf,
                false,
                RegistryReadiness::Ready,
                VersionAxis::CheckpointClustering,
                RollbackPolicy::ArchiveVersioned,
                RecoveryAction::ArchiveAndSnapshot,
            ),
            domain(
                ScyllaKeyDomain::UserPublicKey,
                ScyllaPhysicalTableId::UserPublicKey,
                true,
                RegistryReadiness::Ready,
                VersionAxis::CheckpointClustering,
                RollbackPolicy::ArchiveVersioned,
                RecoveryAction::ArchiveAndSnapshot,
            ),
            domain(
                ScyllaKeyDomain::U64Singleton,
                ScyllaPhysicalTableId::U64Singleton,
                true,
                RegistryReadiness::Ready,
                VersionAxis::Singleton,
                RollbackPolicy::RestoreSingleton,
                RecoveryAction::RestoreFromTargetManifest,
            ),
            domain(
                ScyllaKeyDomain::U64Counter,
                ScyllaPhysicalTableId::U64CounterSingleton,
                true,
                RegistryReadiness::Ready,
                VersionAxis::MonotonicCounter,
                RollbackPolicy::PreserveOperational,
                RecoveryAction::PreserveOperational,
            ),
            domain(
                ScyllaKeyDomain::ContractStateTreeHeight,
                ScyllaPhysicalTableId::ContractStateTreeHeight,
                false,
                RegistryReadiness::Ready,
                VersionAxis::ContentBirth,
                RollbackPolicy::DerivedBirth,
                RecoveryAction::RebuildFromAuthoritative,
            ),
            domain(
                ScyllaKeyDomain::CheckpointToPending,
                ScyllaPhysicalTableId::CheckpointIdToPendingId,
                true,
                RegistryReadiness::Blocked(RegistryBlocker::ReusableCheckpointHeightKey),
                VersionAxis::ReusedCheckpointPartition,
                RollbackPolicy::ByKeyDomain,
                RecoveryAction::BlockedUntilMigration,
            ),
            domain(
                ScyllaKeyDomain::PendingToCheckpoint,
                ScyllaPhysicalTableId::PendingIdToCheckpointId,
                true,
                RegistryReadiness::Ready,
                VersionAxis::UniquePendingPartition,
                RollbackPolicy::PreserveOperational,
                RecoveryAction::RotateNamespace,
            ),
            domain(
                ScyllaKeyDomain::PendingToProc,
                ScyllaPhysicalTableId::PendingIdToPendingProcIdU64ToU128,
                true,
                RegistryReadiness::Ready,
                VersionAxis::UniquePendingPartition,
                RollbackPolicy::PreserveOperational,
                RecoveryAction::RotateNamespace,
            ),
            domain(
                ScyllaKeyDomain::ProcToPending,
                ScyllaPhysicalTableId::PendingIdToPendingProcIdU128ToU64,
                true,
                RegistryReadiness::Ready,
                VersionAxis::ProcUuidPartition,
                RollbackPolicy::PreserveOperational,
                RecoveryAction::RotateNamespace,
            ),
            domain(
                ScyllaKeyDomain::RealmRewardNode,
                ScyllaPhysicalTableId::RealmRewardsTreeNodeKey,
                true,
                RegistryReadiness::Blocked(RegistryBlocker::PendingSuffixReadThrough),
                VersionAxis::UniquePendingClustering,
                RollbackPolicy::ByKeyDomain,
                RecoveryAction::BlockedUntilMigration,
            ),
            domain(
                ScyllaKeyDomain::PublicKeyToUser,
                ScyllaPhysicalTableId::PublicKeyHashToUserIds,
                true,
                RegistryReadiness::Ready,
                VersionAxis::ContentBirth,
                RollbackPolicy::DerivedBirth,
                RecoveryAction::RebuildFromAuthoritative,
            ),
            domain(
                ScyllaKeyDomain::GlobalUserMerkle,
                ScyllaPhysicalTableId::GlobalUserTree,
                true,
                RegistryReadiness::Ready,
                VersionAxis::CheckpointClustering,
                RollbackPolicy::ArchiveVersioned,
                RecoveryAction::ArchiveAndSnapshot,
            ),
            domain(
                ScyllaKeyDomain::UserContractMerkle,
                ScyllaPhysicalTableId::UserContractTree,
                false,
                RegistryReadiness::Ready,
                VersionAxis::CheckpointClustering,
                RollbackPolicy::ArchiveVersioned,
                RecoveryAction::ArchiveAndSnapshot,
            ),
            domain(
                ScyllaKeyDomain::ContractStateMerkle,
                ScyllaPhysicalTableId::ContractStateTree,
                false,
                RegistryReadiness::Ready,
                VersionAxis::CheckpointClustering,
                RollbackPolicy::ArchiveVersioned,
                RecoveryAction::ArchiveAndSnapshot,
            ),
            domain(
                ScyllaKeyDomain::GlobalCheckpointMerkle,
                ScyllaPhysicalTableId::GlobalCheckpointTree,
                true,
                RegistryReadiness::Ready,
                VersionAxis::CheckpointClustering,
                RollbackPolicy::ArchiveVersioned,
                RecoveryAction::ArchiveAndSnapshot,
            ),
            domain(
                ScyllaKeyDomain::RewardTagMerkle,
                ScyllaPhysicalTableId::GutaRewardTagTree,
                true,
                RegistryReadiness::Ready,
                VersionAxis::CheckpointClustering,
                RollbackPolicy::ArchiveVersioned,
                RecoveryAction::ArchiveAndSnapshot,
            ),
            domain(
                ScyllaKeyDomain::UserRegistrationMerkle,
                ScyllaPhysicalTableId::UserRegistrationTree,
                true,
                RegistryReadiness::Ready,
                VersionAxis::CheckpointClustering,
                RollbackPolicy::ArchiveVersioned,
                RecoveryAction::ArchiveAndSnapshot,
            ),
            domain(
                ScyllaKeyDomain::GlobalContractMerkle,
                ScyllaPhysicalTableId::GlobalContractTree,
                true,
                RegistryReadiness::Ready,
                VersionAxis::CheckpointClustering,
                RollbackPolicy::ArchiveVersioned,
                RecoveryAction::ArchiveAndSnapshot,
            ),
            domain(
                ScyllaKeyDomain::ContractFunctionMerkle,
                ScyllaPhysicalTableId::ContractFunctionTree,
                true,
                RegistryReadiness::Ready,
                VersionAxis::CheckpointClustering,
                RollbackPolicy::ArchiveVersioned,
                RecoveryAction::ArchiveAndSnapshot,
            ),
            domain(
                ScyllaKeyDomain::ContractLeaf,
                ScyllaPhysicalTableId::ContractLeaf,
                true,
                RegistryReadiness::Ready,
                VersionAxis::CheckpointClustering,
                RollbackPolicy::ArchiveVersioned,
                RecoveryAction::ArchiveAndSnapshot,
            ),
            domain(
                ScyllaKeyDomain::ContractCodeDefinition,
                ScyllaPhysicalTableId::ContractCodeDefinition,
                true,
                RegistryReadiness::Ready,
                VersionAxis::ContentBirth,
                RollbackPolicy::DerivedBirth,
                RecoveryAction::RebuildFromAuthoritative,
            ),
            domain(
                ScyllaKeyDomain::CheckpointZkProof,
                ScyllaPhysicalTableId::CheckpointZkProofAndTransition,
                true,
                RegistryReadiness::Ready,
                VersionAxis::CheckpointPartition,
                RollbackPolicy::ArchiveVersioned,
                RecoveryAction::ArchiveAndSnapshot,
            ),
            domain(
                ScyllaKeyDomain::ImtLeaf,
                ScyllaPhysicalTableId::ImtLeaf,
                false,
                RegistryReadiness::Ready,
                VersionAxis::ImtBirthOrdinaryColumn,
                RollbackPolicy::DerivedBirth,
                RecoveryAction::RebuildFromAuthoritative,
            ),
            domain(
                ScyllaKeyDomain::ImtKeyIndex,
                ScyllaPhysicalTableId::ImtKeyIndex,
                false,
                RegistryReadiness::Ready,
                VersionAxis::ImtBirthOrdinaryColumn,
                RollbackPolicy::DerivedBirth,
                RecoveryAction::RebuildFromAuthoritative,
            ),
            domain(
                ScyllaKeyDomain::ImtCursor,
                ScyllaPhysicalTableId::ImtNextAppendIndex,
                false,
                RegistryReadiness::Ready,
                VersionAxis::MutableCursor,
                RollbackPolicy::RestoreSingleton,
                RecoveryAction::RestoreFromTargetManifest,
            ),
            domain(
                ScyllaKeyDomain::RealmAuthorityObservation,
                ScyllaPhysicalTableId::LatestInfo,
                false,
                RegistryReadiness::Ready,
                VersionAxis::Singleton,
                RollbackPolicy::RestoreSingleton,
                RecoveryAction::RestoreFromTargetManifest,
            ),
        ],
    )
    .unwrap()
}

fn hash(seed: u64) -> [u8; 32] {
    let mut bytes = [0u8; 32];
    for (i, part) in [seed, seed + 1, seed + 2, seed + 3].iter().enumerate() {
        bytes[i * 8..i * 8 + 8].copy_from_slice(&part.to_be_bytes());
    }
    bytes
}

fn checkpoint(height: u64, seed: u64) -> CheckpointRef {
    CheckpointRef { height, hash: hash(seed) }
}

fn canonical(epoch: u64, checkpoint: CheckpointRef) -> CanonicalChainRef {
    let mut bytes = [0u8; 65];
    bytes[0] = 1;
    bytes[1..5].copy_from_slice(&1u32.to_be_bytes());
    bytes[5..13].copy_from_slice(&epoch.to_be_bytes());
    bytes[13..21].copy_from_slice(&checkpoint.height.to_be_bytes());
    bytes[21..53].copy_from_slice(&checkpoint.hash);
    CanonicalChainRef { network: network(), chain_epoch: epoch, checkpoint, canonical: bytes }
}

fn network() -> NetworkId {
    NetworkId { chain_id: 1 }
}

fn fence() -> FenceWindow {
    FenceWindow { orphan_write_max_us: 1_000, delete_fence_us: 1_001, new_branch_write_us: 1_002 }
}

fn request(mode: RollbackExecutionMode) -> RollbackRequest {
    RollbackRequest {
        requested_head: checkpoint(100, 10),
        target: checkpoint(90, 20),
        fence: fence(),
        execution_mode: mode,
        execution_mode_code: match mode {
            RollbackExecutionMode::InPlace => 1,
            RollbackExecutionMode::SnapshotReplay => 2,
        },
        plan_digest: [0xA5; 32],
    }
}

fn plan() -> CoordinatorRollbackArchivePlan {
    CoordinatorRollbackArchivePlan::resolve(request(RollbackExecutionMode::InPlace), &registry())
}

fn row(value: Vec<u8>) -> KivArchiveRow {
    KivArchiveRow::try_checkpoint_zk_proof(network(), 7, &plan(), &registry(), 95, value, 999)
        .unwrap()
}

fn decode(bytes: &[u8]) -> Result<KivArchiveRow, CoordinatorRollbackArchiveRowError> {
    KivArchiveRow::decode_canonical(bytes, &registry(), Ok(()))
}

fn archiving_head(plan: &CoordinatorRollbackArchivePlan) -> StoredHead {
    StoredHead {
        revision: 5,
        canonical: canonical(7, plan.request.requested_head),
        control: RollbackControlState::Archiving(plan.request),
        control_bytes: vec![3, 1, 4],
    }
}

fn sha(parts: &[&[u8]]) -> [u8; 32] {
    let mut hasher = Sha256::new();
    for part in parts {
        hasher.update(part);
    }
    hasher.finalize().into()
}

#[test]
fn coordinator_plan_is_exhaustive_deterministic_and_pre_ponr() {
    let registry = registry();
    let first =
        CoordinatorRollbackArchivePlan::resolve(request(RollbackExecutionMode::InPlace), &registry);
    let second =
        CoordinatorRollbackArchivePlan::resolve(request(RollbackExecutionMode::InPlace), &registry);
    assert_eq!(first, second);
    assert_eq!(first.suffix_start_exclusive(), 90);
    assert_eq!(first.suffix_end_inclusive(), 100);
    assert_eq!(first.global_plan_digest(), [0xA5; 32]);
    assert_eq!(first.digest(), second.digest());

    let planned: BTreeSet<_> = first.domains().iter().map(|domain| domain.key_domain()).collect();
    let blocked: BTreeSet<_> = first
        .blockers()
        .iter()
        .filter_map(|blocker| match blocker {
            CoordinatorRollbackArchivePlanBlocker::RegistryBlocked { key_domain, .. }
            | CoordinatorRollbackArchivePlanBlocker::RetireCandidate { key_domain }
            | CoordinatorRollbackArchivePlanBlocker::UnsupportedDomainContract {
                key_domain, ..
            }
            | CoordinatorRollbackArchivePlanBlocker::RequiredDeleteStrategyMissing {
                key_domain, ..
            } => Some(*key_domain),
            CoordinatorRollbackArchivePlanBlocker::SnapshotReplayNotSupported => None,
        })
        .collect();
    let expected: BTreeSet<_> = registry
        .domains()
        .iter()
        .filter(|descriptor| {
            descriptor.coordinator_coverage != DomainPreparedUpdateCoverage::NotApplicable
        })
        .map(|descriptor| descriptor.id)
        .collect();
    assert!(planned.is_disjoint(&blocked));
    assert_eq!(planned.union(&blocked).copied().collect::<BTreeSet<_>>(), expected);

    assert_eq!(
        first.blockers(),
        &[
            CoordinatorRollbackArchivePlanBlocker::RegistryBlocked {
                key_domain: ScyllaKeyDomain::CheckpointToPending,
                blocker: RegistryBlocker::ReusableCheckpointHeightKey,
            },
            CoordinatorRollbackArchivePlanBlocker::RegistryBlocked {
                key_domain: ScyllaKeyDomain::RealmRewardNode,
                blocker: RegistryBlocker::PendingSuffixReadThrough,
            },
        ]
    );
    assert!(first.require_pre_archive_ready().is_err());
    assert_eq!(first.require_pre_archive_ready().unwrap_err().blockers(), first.blockers());
}

#[test]
fn snapshot_mode_is_explicitly_rejected_and_never_downgraded_to_in_place() {
    let plan = CoordinatorRollbackArchivePlan::resolve(
        request(RollbackExecutionMode::SnapshotReplay),
        &registry(),
    );
    assert_eq!(
        plan.blockers().first(),
        Some(&CoordinatorRollbackArchivePlanBlocker::SnapshotReplayNotSupported)
    );
    assert!(plan.require_pre_archive_ready().is_err());
}

#[test]
fn plan_digest_binds_request_range_hashes_fence_and_global_plan() {
    let registry = registry();
    let baseline =
        CoordinatorRollbackArchivePlan::resolve(request(RollbackExecutionMode::InPlace), &registry);
    let changed_target = CoordinatorRollbackArchivePlan::resolve(
        RollbackRequest {
            target: checkpoint(89, 21),
            ..request(RollbackExecutionMode::InPlace)
        },
        &registry,
    );
    let changed_global = CoordinatorRollbackArchivePlan::resolve(
        RollbackRequest {
            plan_digest: [0x5A; 32],
            ..request(RollbackExecutionMode::InPlace)
        },
        &registry,
    );
    assert_ne!(baseline.digest(), changed_target.digest());
    assert_ne!(baseline.digest(), changed_global.digest());
    assert_ne!(baseline.canonical_bytes(), changed_target.canonical_bytes());
    assert_ne!(baseline.canonical_bytes(), changed_global.canonical_bytes());
}

#[test]
fn ready_actions_never_select_snapshot_only_deletion() {
    let registry = registry();
    let plan =
        CoordinatorRollbackArchivePlan::resolve(request(RollbackExecutionMode::InPlace), &registry);
    for domain in plan.domains() {
        let physical = registry.physical_descriptor(domain.physical_table()).unwrap();
        match domain.action() {
            CoordinatorRollbackArchiveAction::ArchiveCheckpointPartitions
            | CoordinatorRollbackArchiveAction::ArchiveCheckpointPartitionsAndRebuild => {
                assert!(physical.delete_candidates.contains(&DeleteStrategy::VersionPartition));
            }
            CoordinatorRollbackArchiveAction::ArchiveCheckpointClusteringRanges
            | CoordinatorRollbackArchiveAction::ArchiveCheckpointClusteringRangesAndRebuild => {
                assert!(physical.delete_candidates.contains(&DeleteStrategy::BoundedRange));
            }
            CoordinatorRollbackArchiveAction::ArchiveManifestPointRowsAndRebuild => {
                assert!(physical.delete_candidates.contains(&DeleteStrategy::Point));
            }
            CoordinatorRollbackArchiveAction::ArchiveSingletonAndRestoreTarget
            | CoordinatorRollbackArchiveAction::PreserveOperational
            | CoordinatorRollbackArchiveAction::RotateOperationalNamespace => {}
        }
    }
}

#[test]
fn a_domain_without_its_delete_strategy_blocks_the_plan() {
    let mut tables = registry().tables().to_vec();
    let mut domains = registry().domains().to_vec();
    for table in tables.iter_mut() {
        if table.id == ScyllaPhysicalTableId::CheckpointLeaf {
            table.delete_candidates = vec![DeleteStrategy::SnapshotOnly];
        }
    }
    for domain in domains.iter_mut() {
        if domain.id == ScyllaKeyDomain::L2BlockState {
            domain.recovery_action = RecoveryAction::Retire;
        }
        if domain.id == ScyllaKeyDomain::CheckpointZkProof {
            domain.readiness = RegistryReadiness::RetireCandidate;
        }
    }
    let registry = Registry::try_new(1, tables, domains).unwrap();
    let plan =
        CoordinatorRollbackArchivePlan::resolve(request(RollbackExecutionMode::InPlace), &registry);
    assert!(plan.blockers().contains(
        &CoordinatorRollbackArchivePlanBlocker::RequiredDeleteStrategyMissing {
            key_domain: ScyllaKeyDomain::CheckpointLeaf,
            required: DeleteStrategy::VersionPartition,
        }
    ));
    assert!(plan.blockers().contains(
        &CoordinatorRollbackArchivePlanBlocker::UnsupportedDomainContract {
            key_domain: ScyllaKeyDomain::L2BlockState,
            version_axis: VersionAxis::CheckpointPartition,
            rollback_policy: RollbackPolicy::ArchiveVersioned,
            recovery_action: RecoveryAction::Retire,
        }
    ));
    assert!(plan.blockers().contains(&CoordinatorRollbackArchivePlanBlocker::RetireCandidate {
        key_domain: ScyllaKeyDomain::CheckpointZkProof,
    }));
}

#[test]
fn a_plan_without_blockers_is_ready() {
    let mut domains = registry().domains().to_vec();
    domains.retain(|domain| domain.readiness == RegistryReadiness::Ready);
    let registry = Registry::try_new(1, registry().tables().to_vec(), domains).unwrap();
    let plan =
        CoordinatorRollbackArchivePlan::resolve(request(RollbackExecutionMode::InPlace), &registry);
    assert!(plan.blockers().is_empty());
    assert!(plan.require_pre_archive_ready().is_ok());
}

#[test]
fn plan_digest_commits_the_canonical_bytes() {
    let plan = plan();
    let bytes = plan.canonical_bytes();
    assert_eq!(
        plan.digest().as_bytes(),
        sha(&[
            b"psy/coordinator-rollback-archive-plan/v1",
            &(bytes.len() as u64).to_be_bytes(),
            bytes,
        ])
    );
    assert_eq!(
        CoordinatorRollbackArchivePlanDigest::try_from_archive_bytes([0; 32]),
        Err(CoordinatorRollbackArchivePlanDigestError::ZeroDigest)
    );
    assert_eq!(
        CoordinatorRollbackArchivePlanDigest::try_from_archive_bytes([1; 32]),
        Ok(CoordinatorRollbackArchivePlanDigest([1; 32]))
    );
}

#[test]
fn archive_row_roundtrip_and_slot_bind_source_pk_not_content() {
    let first = row(vec![7; MAX_FRAGMENT_BYTES + 31]);
    let second = row(vec![8; MAX_FRAGMENT_BYTES + 31]);
    assert_eq!(first.slot, second.slot);
    assert_ne!(first.digest, second.digest);
    assert_eq!(decode(&first.canonical_bytes).unwrap(), first);
    assert_eq!(first.fragments().unwrap().len(), 2);
}

#[test]
fn all_checkpoint_partition_kiv_domains_use_the_same_exact_contract() {
    let plan = plan();
    for source in all_sources() {
        let row = KivArchiveRow::try_checkpoint_partition_kiv(
            network(),
            7,
            &plan,
            &registry(),
            source,
            95,
            vec![source.key_domain().stable_id() as u8],
            999,
        )
        .unwrap();
        assert_eq!(row.header.key_domain, source.key_domain());
        assert_eq!(row.header.physical_table, source.physical_table());
        assert_eq!(decode(&row.canonical_bytes).unwrap(), row);
    }
}

#[test]
fn structurally_forged_rehashed_slot_is_rejected() {
    let row = row(vec![1, 2, 3]);
    let mut bytes = row.canonical_bytes.clone();
    let slot_start = bytes.len() - 32 - 32;
    bytes[slot_start] ^= 0x80;
    let digest = row_digest(&bytes[..bytes.len() - 32]);
    let len = bytes.len();
    bytes[len - 32..].copy_from_slice(digest.as_bytes());
    assert_eq!(decode(&bytes), Err(CoordinatorRollbackArchiveRowError::RowSlotMismatch));
}

#[test]
fn out_of_suffix_and_post_fence_rows_fail_closed() {
    assert!(matches!(
        KivArchiveRow::try_checkpoint_zk_proof(
            network(),
            7,
            &plan(),
            &registry(),
            90,
            vec![1],
            999
        ),
        Err(CoordinatorRollbackArchiveRowError::SourceOutsideSuffix)
    ));
    assert!(matches!(
        KivArchiveRow::try_checkpoint_zk_proof(
            network(),
            7,
            &plan(),
            &registry(),
            91,
            vec![1],
            1_001
        ),
        Err(CoordinatorRollbackArchiveRowError::WriteAfterOrphanFence { .. })
    ));
}

#[test]
fn a_row_needs_a_planned_domain_of_its_own_table() {
    let mut unplanned = plan();
    unplanned.domains.retain(|domain| domain.key_domain() != ScyllaKeyDomain::CheckpointZkProof);
    assert_eq!(
        KivArchiveRow::try_checkpoint_zk_proof(
            network(),
            7,
            &unplanned,
            &registry(),
            95,
            vec![1],
            999
        ),
        Err(CoordinatorRollbackArchiveRowError::DomainNotPlanned)
    );
    let mut tables = registry().tables().to_vec();
    for table in tables.iter_mut() {
        if table.id == ScyllaPhysicalTableId::CheckpointZkProofAndTransition {
            table.schema_family = ScyllaSchemaFamily::Blob;
        }
    }
    let moved = Registry::try_new(1, tables, registry().domains().to_vec()).unwrap();
    assert_eq!(
        KivArchiveRow::try_checkpoint_zk_proof(network(), 7, &plan(), &moved, 95, vec![1], 999),
        Err(CoordinatorRollbackArchiveRowError::DomainContractMismatch)
    );
}

#[test]
fn archive_row_decoder_names_what_is_wrong() {
    let row = row(vec![1, 2, 3]);
    let good = row.canonical_bytes.clone();
    assert_eq!(decode(&good[..200]), Err(CoordinatorRollbackArchiveRowError::Truncated));
    let reseal = |mut bytes: Vec<u8>| {
        let body = bytes.len() - 32;
        let digest = row_digest(&bytes[..body]);
        bytes[body..].copy_from_slice(digest.as_bytes());
        bytes
    };
    let mut unsealed = good.clone();
    unsealed[20] ^= 1;
    assert_eq!(decode(&unsealed), Err(CoordinatorRollbackArchiveRowError::DigestMismatch));
    let mut magic = good.clone();
    magic[0] ^= 1;
    assert_eq!(decode(&reseal(magic)), Err(CoordinatorRollbackArchiveRowError::InvalidMagic));
    let mut version = good.clone();
    version[9] = 9;
    assert_eq!(decode(&reseal(version)), Err(CoordinatorRollbackArchiveRowError::UnknownVersion(9)));
    assert_eq!(
        KivArchiveRow::decode_canonical(&good, &registry(), Err("unknown network".to_owned())),
        Err(CoordinatorRollbackArchiveRowError::Network("unknown network".to_owned()))
    );
}

#[test]
fn fragment_reconstruction_rejects_missing_extra_and_corrupt() {
    let row = row(vec![3; MAX_FRAGMENT_BYTES + 17]);
    let fragments = row.fragments().unwrap();
    assert_eq!(decode(&reconstruct_fragments(fragments.clone()).unwrap()).unwrap(), row);
    assert_eq!(
        reconstruct_fragments(vec![fragments[0].clone()]),
        Err(CoordinatorRollbackArchiveStoreError::InvalidFragmentSet)
    );
    let mut corrupt = fragments.clone();
    corrupt[1].payload[0] ^= 1;
    assert_eq!(
        reconstruct_fragments(corrupt),
        Err(CoordinatorRollbackArchiveStoreError::InvalidFragmentSet)
    );
    let mut extra = fragments.clone();
    extra.push(fragments[1].clone());
    assert_eq!(
        reconstruct_fragments(extra),
        Err(CoordinatorRollbackArchiveStoreError::InvalidFragmentSet)
    );
}

#[test]
fn fragments_come_together_in_any_order() {
    let row = row(vec![3; MAX_FRAGMENT_BYTES + 17]);
    let mut fragments = row.fragments().unwrap();
    fragments.reverse();
    assert_eq!(reconstruct_fragments(fragments.clone()).unwrap(), row.canonical_bytes);
    // One that is there twice does not stand for one that is missing.
    fragments[0] = fragments[1].clone();
    assert_eq!(
        reconstruct_fragments(fragments),
        Err(CoordinatorRollbackArchiveStoreError::InvalidFragmentSet)
    );
    assert_eq!(
        reconstruct_fragments(Vec::new()),
        Err(CoordinatorRollbackArchiveStoreError::MissingAfterPersist)
    );
}

#[test]
fn fragment_digest_is_the_hash_of_its_place_and_payload() {
    assert_eq!(
        fragment_digest(3, b"payload"),
        sha(&[
            b"psy/coordinator-rollback-archive-fragment/v1",
            &3i32.to_be_bytes(),
            &7u64.to_be_bytes(),
            b"payload",
        ])
    );
}

#[test]
fn stored_fragment_columns_are_checked_one_by_one() {
    let digest = fragment_digest(0, b"payload");
    let columns = StoredFragmentColumns {
        revision: Some(ARCHIVE_REVISION),
        count: Some(1),
        row_bytes: Some(7),
        payload: Some(b"payload".to_vec()),
        payload_digest: Some(digest.to_vec()),
        row_digest: Some(vec![9; 32]),
    };
    assert_eq!(
        decode_fragment(0, columns.clone()),
        Ok(CoordinatorRollbackArchiveFragment {
            index: 0,
            count: 1,
            row_bytes: 7,
            payload: b"payload".to_vec(),
            payload_digest: digest,
            row_digest: CoordinatorRollbackArchiveRowDigest([9; 32]),
        })
    );
    assert_eq!(
        decode_fragment(0, StoredFragmentColumns { revision: Some(2), ..columns.clone() }),
        Err(CoordinatorRollbackArchiveStoreError::InvalidArchiveRevision)
    );
    assert_eq!(
        decode_fragment(0, StoredFragmentColumns { count: None, ..columns.clone() }),
        Err(CoordinatorRollbackArchiveStoreError::MissingArchiveColumn)
    );
    assert_eq!(
        decode_fragment(0, StoredFragmentColumns { payload: None, ..columns.clone() }),
        Err(CoordinatorRollbackArchiveStoreError::MissingArchiveColumn)
    );
    assert_eq!(
        decode_fragment(
            0,
            StoredFragmentColumns { payload_digest: Some(vec![0; 31]), ..columns.clone() }
        ),
        Err(CoordinatorRollbackArchiveStoreError::InvalidDigestLength)
    );
    assert_eq!(
        decode_fragment(1, columns),
        Err(CoordinatorRollbackArchiveStoreError::FragmentDigestMismatch)
    );
}

#[test]
fn cql_is_append_only_lwt_and_source_read_is_exact_kiv_point_read() {
    let archive = CqlKeyspaceName::try_new("rollback_archive").unwrap();
    let source = CqlKeyspaceName::try_new("coordinator_state").unwrap();
    let queries = CoordinatorRollbackArchiveQueries::new(&archive, &source, &registry()).unwrap();
    assert!(queries.create.contains(
        "CREATE TABLE IF NOT EXISTS rollback_archive.coordinator_rollback_suffix_archive_v1"
    ));
    assert!(queries.insert.contains("IF NOT EXISTS"));
    assert!(!queries.insert.contains("USING TIMESTAMP"));
    assert!(!queries.golden().contains("DELETE FROM"));
    assert!(!queries.golden().contains("UPDATE "));
    assert_eq!(queries.read_checkpoint_kiv.len(), 4);
    assert_eq!(
        queries
            .read_checkpoint_kiv
            .iter()
            .find_map(|(kind, query)| {
                (*kind == CoordinatorCheckpointPartitionKivSource::CheckpointZkProof)
                    .then_some(query.as_str())
            })
            .unwrap(),
        "SELECT value, WRITETIME(value) FROM coordinator_state.checkpoint_zk_proof_and_transition_table WHERE obj_id = ?"
    );
    let golden = queries.golden();
    assert_eq!(
        store_fingerprint(&archive, &source, &queries).0,
        sha(&[
            b"psy/coordinator-rollback-archive-store/v1",
            &16u64.to_be_bytes(),
            b"rollback_archive",
            &17u64.to_be_bytes(),
            b"coordinator_state",
            &(golden.len() as u64).to_be_bytes(),
            golden.as_bytes(),
        ])
    );
}

#[test]
fn archive_store_requires_tablet_keyspaces() {
    assert!(require_standard_keyspace(&CqlKeyspaceName::try_new("rollback_archive").unwrap())
        .is_ok());
    assert_eq!(
        require_standard_keyspace(&CqlKeyspaceName::try_new("rollback_archive_nt").unwrap()),
        Err(CoordinatorRollbackArchiveStoreError::TabletKeyspaceRequired)
    );
    assert_eq!(
        require_standard_keyspace(&CqlKeyspaceName::try_new("archive_no_tablet").unwrap()),
        Err(CoordinatorRollbackArchiveStoreError::TabletKeyspaceRequired)
    );
}

#[test]
fn a_persisted_row_is_read_back_before_it_counts() {
    let row = row(vec![3; MAX_FRAGMENT_BYTES + 17]);
    let fragments = row.fragments().unwrap();
    let mut persist = FragmentedPersist::begin(fragments.clone());
    assert_eq!(persist.next_step(), PersistStep::Insert(0));
    persist.inserted(LwtWrite::Applied);
    assert_eq!(persist.next_step(), PersistStep::Insert(1));
    persist.inserted(LwtWrite::NotApplied);
    assert_eq!(persist.next_step(), PersistStep::ReadFragment(1));
    assert_eq!(persist.read_back(Ok(Some(fragments[1].clone()))), Ok(()));
    assert_eq!(persist.next_step(), PersistStep::ReadRow);

    let stored: Vec<StoredFragmentRow<Vec<u8>>> = fragments
        .iter()
        .map(|fragment| StoredFragmentRow {
            index: Some(fragment.index),
            columns: StoredFragmentColumns {
                revision: Some(ARCHIVE_REVISION),
                count: Some(fragment.count),
                row_bytes: Some(fragment.row_bytes),
                payload: Some(fragment.payload.clone()),
                payload_digest: Some(fragment.payload_digest.to_vec()),
                row_digest: Some(fragment.row_digest.as_bytes().to_vec()),
            },
        })
        .collect();
    let read = read_exact_row(stored.clone(), &row, &registry(), Ok(())).unwrap();
    let fingerprint = CoordinatorRollbackArchiveStoreFingerprint([4; 32]);
    let receipt = accept_persisted_row(fingerprint, &row, read).unwrap();
    assert_eq!(receipt.row, row);
    assert_eq!(require_own_receipt(&fingerprint, &receipt), Ok(()));
    assert_eq!(
        require_own_receipt(&CoordinatorRollbackArchiveStoreFingerprint([5; 32]), &receipt),
        Err(CoordinatorRollbackArchiveStoreError::ReceiptBindingMismatch)
    );
    assert_eq!(revalidate_receipt(&receipt, &Some(row.clone())), Ok(()));
    assert_eq!(
        revalidate_receipt(&receipt, &None),
        Err(CoordinatorRollbackArchiveStoreError::ReceiptStale)
    );
    let mut forged = row.clone();
    forged.header.chain_epoch += 1;
    assert_eq!(
        revalidate_receipt(&receipt, &Some(forged.clone())),
        Err(CoordinatorRollbackArchiveStoreError::ReceiptStale)
    );
    assert_eq!(
        accept_persisted_row(fingerprint, &row, Some(forged)).unwrap_err(),
        CoordinatorRollbackArchiveStoreError::Conflict
    );
    assert_eq!(
        accept_persisted_row(fingerprint, &row, None).unwrap_err(),
        CoordinatorRollbackArchiveStoreError::MissingAfterPersist
    );
    assert_eq!(read_exact_row(Vec::new(), &row, &registry(), Ok(())), Ok(None));
    let elsewhere = KivArchiveRow::try_checkpoint_zk_proof(
        network(),
        7,
        &plan(),
        &registry(),
        96,
        vec![1],
        999,
    )
    .unwrap();
    assert_eq!(
        read_exact_row(stored, &elsewhere, &registry(), Ok(())),
        Err(CoordinatorRollbackArchiveStoreError::SelectedRowMismatch)
    );
    assert_eq!(
        accept_persisted_row(fingerprint, &row, Some(elsewhere)).unwrap_err(),
        CoordinatorRollbackArchiveStoreError::Conflict
    );
}

#[test]
fn an_open_fragment_insert_is_settled_by_the_exact_fragment_only() {
    let fragments = row(vec![1, 2, 3]).fragments().unwrap();
    let mut other = fragments[0].clone();
    other.payload[0] ^= 1;
    let start = |write: LwtWrite| {
        let mut persist = FragmentedPersist::begin(fragments.clone());
        persist.inserted(write);
        persist
    };
    assert_eq!(
        start(LwtWrite::NotApplied).read_back(Ok(Some(other.clone()))),
        Err(CoordinatorRollbackArchiveStoreError::Conflict)
    );
    assert_eq!(
        start(LwtWrite::NotApplied).read_back(Ok(None)),
        Err(CoordinatorRollbackArchiveStoreError::Conflict)
    );
    assert_eq!(
        start(LwtWrite::NotApplied).read_back(Err(FragmentReadFailure {
            error: CoordinatorRollbackArchiveStoreError::MissingArchiveColumn,
            text: "MissingArchiveColumn".to_owned(),
        })),
        Err(CoordinatorRollbackArchiveStoreError::MissingArchiveColumn)
    );
    let failed = || LwtWrite::Failed("timeout".to_owned());
    assert_eq!(start(failed()).read_back(Ok(Some(fragments[0].clone()))), Ok(()));
    assert_eq!(
        start(failed()).read_back(Ok(Some(other))),
        Err(CoordinatorRollbackArchiveStoreError::Indeterminate("timeout".to_owned()))
    );
    assert_eq!(
        start(failed()).read_back(Err(FragmentReadFailure {
            error: CoordinatorRollbackArchiveStoreError::Cql("down".to_owned()),
            text: "Cql(\"down\")".to_owned(),
        })),
        Err(CoordinatorRollbackArchiveStoreError::Indeterminate(
            "execute=timeout; read=Cql(\"down\")".to_owned()
        ))
    );
}

#[test]
fn a_suffix_archive_reads_every_checkpoint_of_every_source() {
    let plan = plan();
    let head = archiving_head(&plan);
    let registry = registry();
    let mut archive = KivSuffixArchive::begin(&head, &plan, &registry).unwrap();
    archive = archive.take_head(Ok(Some(head.clone()))).unwrap();
    let mut reads = Vec::new();
    let mut dataset = b"psy/coordinator-rollback-archive-dataset/v1".to_vec();
    dataset.extend_from_slice(&plan.digest().as_bytes());
    let mut last_source = None;
    let mut rows = 0u64;
    let mut bytes = 0u64;
    loop {
        match archive.stage {
            SuffixStage::ReadSource { source, checkpoint } => {
                if last_source != Some(source) {
                    dataset.extend_from_slice(&source.key_domain().stable_id().to_be_bytes());
                    last_source = Some(source);
                }
                reads.push((source, checkpoint));
                if checkpoint % 5 != 0 {
                    archive = archive.take_source(Ok(None)).unwrap();
                    continue;
                }
                let found =
                    CheckpointKivSourceRow { value: vec![checkpoint as u8], writetime_us: 999 };
                archive = archive
                    .take_source(Ok(Some(found.clone())))
                    .unwrap();
                let row = match &archive.stage {
                    SuffixStage::Persist { row, .. } => row.clone(),
                    _ => panic!("a row that is there is persisted next"),
                };
                rows += 1;
                bytes += row.canonical_bytes.len() as u64;
                dataset.extend_from_slice(row.slot.as_bytes());
                dataset.extend_from_slice(row.digest.as_bytes());
                let fingerprint = CoordinatorRollbackArchiveStoreFingerprint([4; 32]);
                let receipt = accept_persisted_row(fingerprint, &row, Some(row.clone()));
                archive = archive.take_receipt(receipt).unwrap();
                archive = archive.take_revalidation(Ok(())).unwrap();
                archive = archive.take_source_again(Ok(Some(found))).unwrap();
            }
            SuffixStage::CheckHeadAgain => {
                archive = archive.take_head(Ok(Some(head.clone()))).unwrap();
            }
            SuffixStage::Finished(summary) => {
                dataset.extend_from_slice(&rows.to_be_bytes());
                dataset.extend_from_slice(&bytes.to_be_bytes());
                assert_eq!(summary.row_count(), rows);
                assert_eq!(summary.canonical_bytes(), bytes);
                assert_eq!(summary.dataset_digest(), sha(&[&dataset]));
                break;
            }
            _ => panic!("no other stage is due"),
        }
    }
    let expected: Vec<_> = all_sources()
        .into_iter()
        .flat_map(|source| (91..=100).map(move |checkpoint| (source, checkpoint)))
        .collect();
    assert_eq!(reads, expected);
    assert_eq!(rows, 8);
}

#[test]
fn a_changed_source_or_head_stops_a_suffix_archive() {
    let plan = plan();
    let head = archiving_head(&plan);
    let registry = registry();
    let begun = || KivSuffixArchive::begin(&head, &plan, &registry).unwrap();
    let mut advanced = head.clone();
    advanced.revision += 1;
    assert_eq!(
        begun().take_head(Ok(Some(advanced))),
        Err(CoordinatorRollbackArchiveStoreError::CanonicalHeadChanged)
    );
    assert_eq!(
        begun().take_head(Ok(None)),
        Err(CoordinatorRollbackArchiveStoreError::CanonicalHeadChanged)
    );
    assert_eq!(
        begun().take_head(Err("down".to_owned())),
        Err(CoordinatorRollbackArchiveStoreError::CanonicalHead("down".to_owned()))
    );
    assert_eq!(
        begun().take_source(Ok(None)),
        Err(CoordinatorRollbackArchiveStoreError::OutOfOrder)
    );
    let found = CheckpointKivSourceRow { value: vec![1], writetime_us: 999 };
    let reading = || begun().take_head(Ok(Some(head.clone()))).unwrap();
    let late = CheckpointKivSourceRow { value: vec![1], writetime_us: 1_001 };
    assert_eq!(
        reading().take_source(Ok(Some(late))),
        Err(CoordinatorRollbackArchiveStoreError::Row(
            CoordinatorRollbackArchiveRowError::WriteAfterOrphanFence {
                writetime_us: 1_001,
                orphan_write_max_us: 1_000,
            }
        ))
    );
    let persisting =
        reading().take_source(Ok(Some(found))).unwrap();
    let row = match &persisting.stage {
        SuffixStage::Persist { row, .. } => row.clone(),
        _ => panic!("a row that is there is persisted next"),
    };
    let fingerprint = CoordinatorRollbackArchiveStoreFingerprint([4; 32]);
    let other = KivArchiveRow::try_checkpoint_zk_proof(
        network(),
        7,
        &plan,
        &registry,
        96,
        vec![1],
        999,
    )
    .unwrap();
    let wrong = reading()
        .take_source(Ok(Some(CheckpointKivSourceRow { value: vec![1], writetime_us: 999 })))
        .unwrap();
    assert_eq!(
        wrong.take_receipt(accept_persisted_row(fingerprint, &other, Some(other.clone()))),
        Err(CoordinatorRollbackArchiveStoreError::Conflict)
    );
    let again = persisting
        .take_receipt(accept_persisted_row(fingerprint, &row, Some(row.clone())))
        .unwrap()
        .take_revalidation(Ok(()))
        .unwrap();
    let changed = CheckpointKivSourceRow { value: vec![1], writetime_us: 998 };
    assert_eq!(
        again.take_source_again(Ok(Some(changed))),
        Err(CoordinatorRollbackArchiveStoreError::SourceChanged)
    );
    let mut idle = head.clone();
    idle.control = RollbackControlState::Idle;
    assert_eq!(
        KivSuffixArchive::begin(&idle, &plan, &registry),
        Err(CoordinatorRollbackArchiveStoreError::NotExactArchivingHead)
    );
}

#[test]
fn archive_columns_hold_where_a_row_stands() {
    let row = row(vec![1, 2, 3]);
    let at = kiv_coordinates(&row).unwrap();
    assert_eq!((at.network_chain_id, at.chain_epoch), (1, 7));
    assert_eq!(at.participant_plan_digest, plan().digest.0);
    assert_eq!(at.slot, row.slot.0);
    assert_eq!(i32::from(at.key_domain), i32::from(row.header.key_domain.stable_id()));
    let mut late = row.clone();
    late.header.chain_epoch = u64::MAX;
    assert_eq!(
        kiv_coordinates(&late),
        Err(CoordinatorRollbackArchiveStoreError::IntegerOutOfCqlRange)
    );
    assert_eq!(source_key(95), Ok(95));
    assert_eq!(
        source_key(u64::MAX),
        Err(CoordinatorRollbackArchiveStoreError::IntegerOutOfCqlRange)
    );
    assert_eq!(archived_chain_id(&row.canonical_bytes), Some(1));
    assert_eq!(archived_chain_id(&row.canonical_bytes[..13]), None);
}

#[test]
fn a_source_row_needs_its_value_and_its_write_time() {
    assert_eq!(
        source_row(Some(vec![1]), Some(5)),
        Ok(CheckpointKivSourceRow { value: vec![1], writetime_us: 5 })
    );
    assert_eq!(
        source_row(None, Some(5)),
        Err(CoordinatorRollbackArchiveStoreError::MissingSourceColumn)
    );
    assert_eq!(
        source_row(Some(vec![1]), None),
        Err(CoordinatorRollbackArchiveStoreError::MissingSourceColumn)
    );
}

#[test]
fn a_registry_lists_everything_once() {
    let tables = registry().tables().to_vec();
    let domains = registry().domains().to_vec();
    let mut twice = domains.clone();
    twice.push(domains[0]);
    assert_eq!(
        Registry::try_new(1, tables.clone(), twice),
        Err(InvalidRegistry::DuplicateDomain)
    );
    let mut twice = tables.clone();
    twice.push(tables[0].clone());
    assert_eq!(
        Registry::try_new(1, twice, domains.clone()),
        Err(InvalidRegistry::DuplicateTable)
    );
    let mut misnamed = tables.clone();
    misnamed[0].physical_name = "what?".to_owned();
    assert_eq!(
        Registry::try_new(1, misnamed, domains.clone()),
        Err(InvalidRegistry::InvalidTableName)
    );
    let many = vec![domains[0]; usize::from(u16::MAX)];
    assert_eq!(
        Registry::try_new(1, tables.clone(), many),
        Err(InvalidRegistry::TooManyDomains)
    );
    let plan = plan();
    for domain in &domains {
        let planned = plan.domains().iter().any(|found| found.key_domain == domain.id);
        let blocked = plan.blockers().iter().any(|blocker| match blocker {
            CoordinatorRollbackArchivePlanBlocker::SnapshotReplayNotSupported => false,
            CoordinatorRollbackArchivePlanBlocker::RegistryBlocked { key_domain, .. }
            | CoordinatorRollbackArchivePlanBlocker::RetireCandidate { key_domain }
            | CoordinatorRollbackArchivePlanBlocker::UnsupportedDomainContract {
                key_domain, ..
            }
            | CoordinatorRollbackArchivePlanBlocker::RequiredDeleteStrategyMissing {
                key_domain,
                ..
            } => *key_domain == domain.id,
        });
        let touched =
            domain.coordinator_coverage != DomainPreparedUpdateCoverage::NotApplicable;
        assert_eq!(planned || blocked, touched);
        assert!(!(planned && blocked));
    }
}
