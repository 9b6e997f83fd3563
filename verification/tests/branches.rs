//! The branch catalog of a discarded suffix and the archive rows of its mappings.

use psy_rollback::coordinator_rollback_archive_persist::mapping_coordinates;
use psy_rollback::coordinator_rollback_archive_plan::CoordinatorRollbackArchivePlan;
use psy_rollback::coordinator_rollback_archive_scan::{
    accept_persisted_mapping_row, revalidate_mapping_receipt, BundleStage,
    CoordinatorRollbackArchivedMappingBundle, MappingBundleArchive,
};
use psy_rollback::coordinator_rollback_archive_store::{
    reconstruct_fragments, CoordinatorRollbackArchiveStoreError,
    CoordinatorRollbackArchiveStoreFingerprint,
};
use psy_rollback::coordinator_rollback_branch_accumulator::{
    CoordinatorRollbackBranchCatalogAccumulator, VerifiedCoordinatorRollbackSuffixSelection,
};
use psy_rollback::coordinator_rollback_branch_catalog::{
    CoordinatorRollbackBranchCatalogError, CoordinatorRollbackMappingSourceKind, MappingBundle,
};
use psy_rollback::coordinator_rollback_branch_scan::{
    catalog_fingerprint, cql_key, legacy_pair, legacy_pending, point_value, require_current_head,
    require_transition, target_forward_row, target_reverse_row, u64_point,
    CoordinatorRollbackBranchCatalogQueries, MappingArchiveFinished,
};
use psy_rollback::coordinator_rollback_branch_transition::{
    verify_target_mapping, BranchExactCheckpointChainConfig, DecodedTransition, LegacyMappingPair,
    PointValue, TargetForwardRow, TargetReverseRow, TransitionEvidence,
};
use psy_rollback::coordinator_rollback_branch_walk::{
    BranchWalk, BranchWalkStage, SuffixPassStage, SuffixPasses,
};
use psy_rollback::coordinator_rollback_mapping_archive_row::{
    mapping_row_digest, CoordinatorRollbackMappingArchiveRowError, MappingArchiveRow,
    MappingForeignParts,
};
use psy_rollback::identity::{ScyllaKeyDomain, ScyllaPhysicalTableId};
use psy_rollback::keyspace::CqlKeyspaceName;
use psy_rollback::model::{
    BranchPendingMapping, CanonicalChainRef, CheckpointRef, FenceWindow, NetworkId,
    RollbackControlState, RollbackExecutionMode, RollbackRequest, StoredHead, UniquePendingId,
};
use psy_rollback::registry::{
    DeleteStrategy, DomainPreparedUpdateCoverage, KeyDomainDescriptor, PhysicalDescriptor,
    PsyLogicalTableId, RecoveryAction, Registry, RegistryBlocker, RegistryReadiness,
    RollbackPolicy, ScyllaSchemaFamily, VersionAxis,
};
use sha2::{Digest, Sha256};

/// The tables and key domains that the tests work with.
fn registry() -> Registry {
    let table = |id: ScyllaPhysicalTableId, name: &str, schema_family: ScyllaSchemaFamily| {
        PhysicalDescriptor {
            id,
            logical_owner: PsyLogicalTableId { id: id.stable_id() },
            physical_name: name.to_owned(),
            schema_family,
            delete_candidates: vec![
                DeleteStrategy::Point,
                DeleteStrategy::VersionPartition,
                DeleteStrategy::BoundedRange,
            ],
        }
    };
    let domain = |id: ScyllaKeyDomain,
                  physical_table: ScyllaPhysicalTableId,
                  applicable: bool,
                  readiness: RegistryReadiness,
                  version_axis: VersionAxis,
                  rollback_policy: RollbackPolicy,
                  recovery_action: RecoveryAction| {
        KeyDomainDescriptor {
            id,
            physical_table,
            coordinator_coverage: if applicable {
                DomainPreparedUpdateCoverage::Applicable
            } else {
                DomainPreparedUpdateCoverage::NotApplicable
            },
            readiness,
            version_axis,
            rollback_policy,
            recovery_action,
        }
    };
    Registry::try_new(
        1,
        vec![
            table(ScyllaPhysicalTableId::CheckpointLeaf, "checkpoint_leaf_table", ScyllaSchemaFamily::Kiv),
            table(ScyllaPhysicalTableId::CheckpointRootToCheckpointIdK1, "checkpoint_root_to_checkpoint_id_k1_table", ScyllaSchemaFamily::Blob),
            table(ScyllaPhysicalTableId::CheckpointRootToCheckpointIdK2, "checkpoint_root_to_checkpoint_id_k2_table", ScyllaSchemaFamily::Kiv),
            table(ScyllaPhysicalTableId::CheckpointLeafToCheckpointIdK1, "checkpoint_leaf_to_checkpoint_id_k1_table", ScyllaSchemaFamily::Blob),
            table(ScyllaPhysicalTableId::CheckpointLeafToCheckpointIdK2, "checkpoint_leaf_to_checkpoint_id_k2_table", ScyllaSchemaFamily::Kiv),
            table(ScyllaPhysicalTableId::L2BlockState, "l2_block_state_table", ScyllaSchemaFamily::Kiv),
            table(ScyllaPhysicalTableId::CheckpointIdToRealmRoot, "checkpoint_id_to_realm_root_table", ScyllaSchemaFamily::Kiv),
            table(ScyllaPhysicalTableId::LatestInfo, "latest_info_table", ScyllaSchemaFamily::Kiv),
            table(ScyllaPhysicalTableId::CheckpointedObject, "checkpointed_object_table", ScyllaSchemaFamily::ObjectSingle),
            table(ScyllaPhysicalTableId::CheckpointStateRoots, "checkpoint_state_roots_table", ScyllaSchemaFamily::Kiv),
            table(ScyllaPhysicalTableId::UserLeaf, "user_leaf_table", ScyllaSchemaFamily::ObjectSingle),
            table(ScyllaPhysicalTableId::UserPublicKey, "user_public_key_table", ScyllaSchemaFamily::ObjectSingle),
            table(ScyllaPhysicalTableId::U64Singleton, "u64_singleton_table", ScyllaSchemaFamily::U64),
            table(ScyllaPhysicalTableId::U64CounterSingleton, "u64_counter_singleton_table", ScyllaSchemaFamily::Counter),
            table(ScyllaPhysicalTableId::ContractStateTreeHeight, "contract_state_tree_height_table", ScyllaSchemaFamily::U64),
            table(ScyllaPhysicalTableId::CheckpointIdToPendingId, "checkpoint_id_to_pending_id_table", ScyllaSchemaFamily::U64),
            table(ScyllaPhysicalTableId::PendingIdToCheckpointId, "pending_id_to_checkpoint_id_table", ScyllaSchemaFamily::U64),
            table(ScyllaPhysicalTableId::PendingIdToPendingProcIdU64ToU128, "pending_id_to_pending_proc_id_u64_to_u128_table", ScyllaSchemaFamily::U64ToU128),
            table(ScyllaPhysicalTableId::PendingIdToPendingProcIdU128ToU64, "pending_id_to_pending_proc_id_u128_to_u64_table", ScyllaSchemaFamily::U128ToU64),
            table(ScyllaPhysicalTableId::RealmRewardsTreeNodeKey, "realm_rewards_tree_node_key_table", ScyllaSchemaFamily::ObjectSingle),
            table(ScyllaPhysicalTableId::PublicKeyHashToUserIds, "public_key_hash_to_user_ids_table", ScyllaSchemaFamily::HashToMany),
            table(ScyllaPhysicalTableId::GlobalUserTree, "global_user_tree_table", ScyllaSchemaFamily::MerkleZero),
            table(ScyllaPhysicalTableId::UserContractTree, "user_contract_tree_table", ScyllaSchemaFamily::MerkleSingle),
            table(ScyllaPhysicalTableId::ContractStateTree, "contract_state_tree_table", ScyllaSchemaFamily::MerkleDouble),
            table(ScyllaPhysicalTableId::GlobalCheckpointTree, "global_checkpoint_tree_table", ScyllaSchemaFamily::MerkleZero),
            table(ScyllaPhysicalTableId::GutaRewardTagTree, "guta_reward_tag_tree_table", ScyllaSchemaFamily::TagTree),
            table(ScyllaPhysicalTableId::UserRegistrationTree, "user_registration_tree_table", ScyllaSchemaFamily::MerkleZero),
            table(ScyllaPhysicalTableId::GlobalContractTree, "global_contract_tree_table", ScyllaSchemaFamily::MerkleZero),
            table(ScyllaPhysicalTableId::ContractFunctionTree, "contract_function_tree_table", ScyllaSchemaFamily::MerkleSingle),
            table(ScyllaPhysicalTableId::ContractLeaf, "contract_leaf_table", ScyllaSchemaFamily::ObjectSingle),
            table(ScyllaPhysicalTableId::ContractCodeDefinition, "contract_code_definition_table", ScyllaSchemaFamily::Kiv),
            table(ScyllaPhysicalTableId::CheckpointZkProofAndTransition, "checkpoint_zk_proof_and_transition_table", ScyllaSchemaFamily::Kiv),
            table(ScyllaPhysicalTableId::ImtLeaf, "imt_leaf_table", ScyllaSchemaFamily::ImtLeaf),
            table(ScyllaPhysicalTableId::ImtKeyIndex, "imt_key_index_table", ScyllaSchemaFamily::ImtKeyIndex),
            table(ScyllaPhysicalTableId::ImtNextAppendIndex, "imt_next_append_index_table", ScyllaSchemaFamily::ImtCursor),
        ],
        vec![
            domain(
                ScyllaKeyDomain::CheckpointLeaf,
                ScyllaPhysicalTableId::CheckpointLeaf,
                true,
                RegistryReadiness::Ready,
                VersionAxis::CheckpointPartition,
                RollbackPolicy::ArchiveVersioned,
                RecoveryAction::ArchiveAndSnapshot,
            ),
            domain(
                ScyllaKeyDomain::CheckpointRootByHash,
                ScyllaPhysicalTableId::CheckpointRootToCheckpointIdK1,
                true,
                RegistryReadiness::Ready,
                VersionAxis::RootBirthPartition,
                RollbackPolicy::DerivedBirth,
                RecoveryAction::ArchiveAndRebuild,
            ),
            domain(
                ScyllaKeyDomain::CheckpointRootByCheckpoint,
                ScyllaPhysicalTableId::CheckpointRootToCheckpointIdK2,
                true,
                RegistryReadiness::Ready,
                VersionAxis::CheckpointPartition,
                RollbackPolicy::DerivedBirth,
                RecoveryAction::ArchiveAndRebuild,
            ),
            domain(
                ScyllaKeyDomain::CheckpointLeafByHash,
                ScyllaPhysicalTableId::CheckpointLeafToCheckpointIdK1,
                true,
                RegistryReadiness::Ready,
                VersionAxis::RootBirthPartition,
                RollbackPolicy::DerivedBirth,
                RecoveryAction::ArchiveAndRebuild,
            ),
            domain(
                ScyllaKeyDomain::CheckpointLeafByCheckpoint,
                ScyllaPhysicalTableId::CheckpointLeafToCheckpointIdK2,
                true,
                RegistryReadiness::Ready,
                VersionAxis::CheckpointPartition,
                RollbackPolicy::DerivedBirth,
                RecoveryAction::ArchiveAndRebuild,
            ),
            domain(
                ScyllaKeyDomain::L2BlockState,
                ScyllaPhysicalTableId::L2BlockState,
                true,
                RegistryReadiness::Ready,
                VersionAxis::CheckpointPartition,
                RollbackPolicy::ArchiveVersioned,
                RecoveryAction::ArchiveAndSnapshot,
            ),
            domain(
                ScyllaKeyDomain::UnusedCheckpointRealmRoot,
                ScyllaPhysicalTableId::CheckpointIdToRealmRoot,
                false,
                RegistryReadiness::RetireCandidate,
                VersionAxis::NoActiveAxis,
                RollbackPolicy::RetireUnused,
                RecoveryAction::Retire,
            ),
            domain(
                ScyllaKeyDomain::LatestInfo,
                ScyllaPhysicalTableId::LatestInfo,
                true,
                RegistryReadiness::Ready,
                VersionAxis::Singleton,
                RollbackPolicy::RestoreSingleton,
                RecoveryAction::RestoreFromTargetManifest,
            ),
            domain(
                ScyllaKeyDomain::CheckpointedGlobalUserProof,
                ScyllaPhysicalTableId::CheckpointedObject,
                true,
                RegistryReadiness::Ready,
                VersionAxis::CheckpointClustering,
                RollbackPolicy::ArchiveVersioned,
                RecoveryAction::ArchiveAndSnapshot,
            ),
            domain(
                ScyllaKeyDomain::CheckpointedRewardsProofAtCheckpoint,
                ScyllaPhysicalTableId::CheckpointedObject,
                true,
                RegistryReadiness::Ready,
                VersionAxis::CheckpointClustering,
                RollbackPolicy::ArchiveVersioned,
                RecoveryAction::ArchiveAndSnapshot,
            ),
            domain(
                ScyllaKeyDomain::CheckpointedRewardsProofAtPending,
                ScyllaPhysicalTableId::CheckpointedObject,
                false,
                RegistryReadiness::Blocked(RegistryBlocker::MixedCheckpointPendingAxis),
                VersionAxis::MixedCheckpointPendingClustering,
                RollbackPolicy::ByKeyDomain,
                RecoveryAction::BlockedUntilMigration,
            ),
            domain(
                ScyllaKeyDomain::CheckpointedContractStateProof,
                ScyllaPhysicalTableId::CheckpointedObject,
                false,
                RegistryReadiness::Ready,
                VersionAxis::CheckpointClustering,
                RollbackPolicy::ArchiveVersioned,
                RecoveryAction::ArchiveAndSnapshot,
            ),
            domain(
                ScyllaKeyDomain::CheckpointStateRoots,
                ScyllaPhysicalTableId::CheckpointStateRoots,
                true,
                RegistryReadiness::Ready,
                VersionAxis::CheckpointPartition,
                RollbackPolicy::ArchiveVersioned,
                RecoveryAction::ArchiveAndSnapshot,
            ),
            domain(
                ScyllaKeyDomain::UserLeaf,
                ScyllaPhysicalTableId::UserLeaf,
                false,
                RegistryReadiness::Ready,
                VersionAxis::CheckpointClustering,
                RollbackPolicy::ArchiveVersioned,
                RecoveryAction::ArchiveAndSnapshot,
            ),
            domain(
                ScyllaKeyDomain::UserPublicKey,
                ScyllaPhysicalTableId::UserPublicKey,
                true,
                RegistryReadiness::Ready,
                VersionAxis::CheckpointClustering,
                RollbackPolicy::ArchiveVersioned,
                RecoveryAction::ArchiveAndSnapshot,
            ),
            domain(
                ScyllaKeyDomain::U64Singleton,
                ScyllaPhysicalTableId::U64Singleton,
                true,
                RegistryReadiness::Ready,
                VersionAxis::Singleton,
                RollbackPolicy::RestoreSingleton,
                RecoveryAction::RestoreFromTargetManifest,
            ),
            domain(
                ScyllaKeyDomain::U64Counter,
                ScyllaPhysicalTableId::U64CounterSingleton,
                true,
                RegistryReadiness::Ready,
                VersionAxis::MonotonicCounter,
                RollbackPolicy::PreserveOperational,
                RecoveryAction::PreserveOperational,
            ),
            domain(
                ScyllaKeyDomain::ContractStateTreeHeight,
                ScyllaPhysicalTableId::ContractStateTreeHeight,
                false,
                RegistryReadiness::Ready,
                VersionAxis::ContentBirth,
                RollbackPolicy::DerivedBirth,
                RecoveryAction::RebuildFromAuthoritative,
            ),
            domain(
                ScyllaKeyDomain::CheckpointToPending,
                ScyllaPhysicalTableId::CheckpointIdToPendingId,
                true,
                RegistryReadiness::Blocked(RegistryBlocker::ReusableCheckpointHeightKey),
                VersionAxis::ReusedCheckpointPartition,
                RollbackPolicy::ByKeyDomain,
                RecoveryAction::BlockedUntilMigration,
            ),
            domain(
                ScyllaKeyDomain::PendingToCheckpoint,
                ScyllaPhysicalTableId::PendingIdToCheckpointId,
                true,
                RegistryReadiness::Ready,
                VersionAxis::UniquePendingPartition,
                RollbackPolicy::PreserveOperational,
                RecoveryAction::RotateNamespace,
            ),
            domain(
                ScyllaKeyDomain::PendingToProc,
                ScyllaPhysicalTableId::PendingIdToPendingProcIdU64ToU128,
                true,
                RegistryReadiness::Ready,
                VersionAxis::UniquePendingPartition,
                RollbackPolicy::PreserveOperational,
                RecoveryAction::RotateNamespace,
            ),
            domain(
                ScyllaKeyDomain::ProcToPending,
                ScyllaPhysicalTableId::PendingIdToPendingProcIdU128ToU64,
                true,
                RegistryReadiness::Ready,
                VersionAxis::ProcUuidPartition,
                RollbackPolicy::PreserveOperational,
                RecoveryAction::RotateNamespace,
            ),
            domain(
                ScyllaKeyDomain::RealmRewardNode,
                ScyllaPhysicalTableId::RealmRewardsTreeNodeKey,
                true,
                RegistryReadiness::Blocked(RegistryBlocker::PendingSuffixReadThrough),
                VersionAxis::UniquePendingClustering,
                RollbackPolicy::ByKeyDomain,
                RecoveryAction::BlockedUntilMigration,
            ),
            domain(
                ScyllaKeyDomain::PublicKeyToUser,
                ScyllaPhysicalTableId::PublicKeyHashToUserIds,
                true,
                RegistryReadiness::Ready,
                VersionAxis::ContentBirth,
                RollbackPolicy::DerivedBirth,
                RecoveryAction::RebuildFromAuthoritative,
            ),
            domain(
                ScyllaKeyDomain::GlobalUserMerkle,
                ScyllaPhysicalTableId::GlobalUserTree,
                true,
                RegistryReadiness::Ready,
                VersionAxis::CheckpointClustering,
                RollbackPolicy::ArchiveVersioned,
                RecoveryAction::ArchiveAndSnapshot,
            ),
            domain(
                ScyllaKeyDomain::UserContractMerkle,
                ScyllaPhysicalTableId::UserContractTree,
                false,
                RegistryReadiness::Ready,
                VersionAxis::CheckpointClustering,
                RollbackPolicy::ArchiveVersioned,
                RecoveryAction::ArchiveAndSnapshot,
            ),
            domain(
                ScyllaKeyDomain::ContractStateMerkle,
                ScyllaPhysicalTableId::ContractStateTree,
                false,
                RegistryReadiness::Ready,
                VersionAxis::CheckpointClustering,
                RollbackPolicy::ArchiveVersioned,
                RecoveryAction::ArchiveAndSnapshot,
            ),
            domain(
                ScyllaKeyDomain::GlobalCheckpointMerkle,
                ScyllaPhysicalTableId::GlobalCheckpointTree,
                true,
                RegistryReadiness::Ready,
                VersionAxis::CheckpointClustering,
                RollbackPolicy::ArchiveVersioned,
                RecoveryAction::ArchiveAndSnapshot,
            ),
            domain(
                ScyllaKeyDomain::RewardTagMerkle,
                ScyllaPhysicalTableId::GutaRewardTagTree,
                true,
                RegistryReadiness::Ready,
                VersionAxis::CheckpointClustering,
                RollbackPolicy::ArchiveVersioned,
                RecoveryAction::ArchiveAndSnapshot,
            ),
            domain(
                ScyllaKeyDomain::UserRegistrationMerkle,
                ScyllaPhysicalTableId::UserRegistrationTree,
                true,
                RegistryReadiness::Ready,
                VersionAxis::CheckpointClustering,
                RollbackPolicy::ArchiveVersioned,
                RecoveryAction::ArchiveAndSnapshot,
            ),
            domain(
                ScyllaKeyDomain::GlobalContractMerkle,
                ScyllaPhysicalTableId::GlobalContractTree,
                true,
                RegistryReadiness::Ready,
                VersionAxis::CheckpointClustering,
                RollbackPolicy::ArchiveVersioned,
                RecoveryAction::ArchiveAndSnapshot,
            ),
            domain(
                ScyllaKeyDomain::ContractFunctionMerkle,
                ScyllaPhysicalTableId::ContractFunctionTree,
                true,
                RegistryReadiness::Ready,
                VersionAxis::CheckpointClustering,
                RollbackPolicy::ArchiveVersioned,
                RecoveryAction::ArchiveAndSnapshot,
            ),
            domain(
                ScyllaKeyDomain::ContractLeaf,
                ScyllaPhysicalTableId::ContractLeaf,
                true,
                RegistryReadiness::Ready,
                VersionAxis::CheckpointClustering,
                RollbackPolicy::ArchiveVersioned,
                RecoveryAction::ArchiveAndSnapshot,
            ),
            domain(
                ScyllaKeyDomain::ContractCodeDefinition,
                ScyllaPhysicalTableId::ContractCodeDefinition,
                true,
                RegistryReadiness::Ready,
                VersionAxis::ContentBirth,
                RollbackPolicy::DerivedBirth,
                RecoveryAction::RebuildFromAuthoritative,
            ),
            domain(
                ScyllaKeyDomain::CheckpointZkProof,
                ScyllaPhysicalTableId::CheckpointZkProofAndTransition,
                true,
                RegistryReadiness::Ready,
                VersionAxis::CheckpointPartition,
                RollbackPolicy::ArchiveVersioned,
                RecoveryAction::ArchiveAndSnapshot,
            ),
            domain(
                ScyllaKeyDomain::ImtLeaf,
                ScyllaPhysicalTableId::ImtLeaf,
                false,
                RegistryReadiness::Ready,
                VersionAxis::ImtBirthOrdinaryColumn,
                RollbackPolicy::DerivedBirth,
                RecoveryAction::RebuildFromAuthoritative,
            ),
            domain(
                ScyllaKeyDomain::ImtKeyIndex,
                ScyllaPhysicalTableId::ImtKeyIndex,
                false,
                RegistryReadiness::Ready,
                VersionAxis::ImtBirthOrdinaryColumn,
                RollbackPolicy::DerivedBirth,
                RecoveryAction::RebuildFromAuthoritative,
            ),
            domain(
                ScyllaKeyDomain::ImtCursor,
                ScyllaPhysicalTableId::ImtNextAppendIndex,
                false,
                RegistryReadiness::Ready,
                VersionAxis::MutableCursor,
                RollbackPolicy::RestoreSingleton,
                RecoveryAction::RestoreFromTargetManifest,
            ),
            domain(
                ScyllaKeyDomain::RealmAuthorityObservation,
                ScyllaPhysicalTableId::LatestInfo,
                false,
                RegistryReadiness::Ready,
                VersionAxis::Singleton,
                RollbackPolicy::RestoreSingleton,
                RecoveryAction::RestoreFromTargetManifest,
            ),
        ],
    )
    .unwrap()
}

fn hash(seed: u64) -> [u8; 32] {
    let mut bytes = [0u8; 32];
    for (i, part) in [seed, seed + 1, seed + 2, seed + 3].iter().enumerate() {
        bytes[i * 8..i * 8 + 8].copy_from_slice(&part.to_be_bytes());
    }
    bytes
}

fn sha(parts: &[&[u8]]) -> [u8; 32] {
    let mut hasher = Sha256::new();
    for part in parts {
        hasher.update(part);
    }
    hasher.finalize().into()
}

fn canonical(network: NetworkId, epoch: u64, checkpoint: CheckpointRef) -> CanonicalChainRef {
    let mut bytes = [0u8; 65];
    bytes[0] = 1;
    bytes[1..5].copy_from_slice(&network.chain_id.to_be_bytes());
    bytes[5..13].copy_from_slice(&epoch.to_be_bytes());
    bytes[13..21].copy_from_slice(&checkpoint.height.to_be_bytes());
    bytes[21..53].copy_from_slice(&checkpoint.hash);
    CanonicalChainRef { network, chain_epoch: epoch, checkpoint, canonical: bytes }
}

const NETWORK: NetworkId = NetworkId { chain_id: 1 };

/// One checkpoint of a chain: its stored transition and what the protocol makes of it.
struct Link {
    value: Vec<u8>,
    decoded: DecodedTransition<Vec<u8>>,
    chain_hash: [u8; 32],
}

fn config() -> BranchExactCheckpointChainConfig {
    BranchExactCheckpointChainConfig {
        genesis_fingerprint: hash(100),
        genesis_transition_hash: hash(200),
        circuit_fingerprint: hash(300),
    }
}

fn transitions(head: u64) -> (Vec<Link>, Vec<CheckpointRef>) {
    let leaf_hash = sha(&[b"leaf"]);
    let mut previous_root = hash(400);
    let mut previous_chain: Option<[u8; 32]> = None;
    let mut links = Vec::new();
    let mut refs = Vec::new();
    for checkpoint_id in 0..=head {
        let new_root = hash(500 + checkpoint_id * 10);
        let old_root = if checkpoint_id == 0 { new_root } else { previous_root };
        let chain_hash = match previous_chain {
            None => sha(&[&new_root, &leaf_hash, &config().genesis_fingerprint]),
            Some(previous) => {
                sha(&[&previous, &new_root, &leaf_hash, &config().circuit_fingerprint])
            }
        };
        let value = [&old_root[..], &new_root[..], &leaf_hash[..], &chain_hash[..]].concat();
        links.push(Link {
            decoded: DecodedTransition {
                genesis_transition_hash: config().genesis_transition_hash,
                circuit_fingerprint: config().circuit_fingerprint,
                carried_leaf_hash: leaf_hash,
                old_root,
                new_root,
                old_leaf_hash: leaf_hash,
                new_leaf_hash: leaf_hash,
                proof_is_empty: checkpoint_id == 0,
                rebuilt: value.clone(),
            },
            value,
            chain_hash,
        });
        refs.push(CheckpointRef { height: checkpoint_id, hash: chain_hash });
        previous_root = new_root;
        previous_chain = Some(chain_hash);
    }
    (links, refs)
}

fn evidence(link: &Link, checkpoint: CheckpointRef) -> TransitionEvidence<Vec<u8>> {
    TransitionEvidence {
        decoded: Ok(link.decoded.clone()),
        genesis_hash: link.chain_hash,
        proof_hash: Ok(link.chain_hash),
        chained_hash: link.chain_hash,
        canonical: canonical(NETWORK, 3, checkpoint).canonical,
    }
}

fn point(link: &Link, writetime_us: i64) -> PointValue<Vec<u8>> {
    PointValue { value: link.value.clone(), writetime_us }
}

fn plan_and_head(
    refs: &[CheckpointRef],
    target: usize,
) -> (CoordinatorRollbackArchivePlan, StoredHead) {
    let request = RollbackRequest {
        requested_head: refs[refs.len() - 1],
        target: refs[target],
        fence: FenceWindow {
            orphan_write_max_us: 10_000,
            delete_fence_us: 10_001,
            new_branch_write_us: 10_002,
        },
        execution_mode: RollbackExecutionMode::InPlace,
        execution_mode_code: 1,
        plan_digest: [9; 32],
    };
    let plan = CoordinatorRollbackArchivePlan::resolve(request, &registry());
    let head = StoredHead {
        revision: 8,
        canonical: canonical(NETWORK, 4, refs[refs.len() - 1]),
        control: RollbackControlState::Archiving(request),
        control_bytes: vec![2, 7, 1],
    };
    (plan, head)
}

fn pending(value: u64) -> UniquePendingId {
    UniquePendingId::try_new(value).unwrap()
}

fn mapping(checkpoint: CheckpointRef, pending: UniquePendingId) -> BranchPendingMapping {
    let canonical = canonical(NETWORK, 3, checkpoint);
    let digest = sha(&[b"mapping", &canonical.canonical, &pending.value.to_be_bytes()]);
    BranchPendingMapping { canonical, pending, digest }
}

fn target_rows(
    mapping: &BranchPendingMapping,
) -> (Vec<TargetForwardRow>, Vec<TargetReverseRow<Vec<u8>>>) {
    (
        vec![TargetForwardRow {
            pending_id: mapping.pending,
            mapping_digest: mapping.digest,
            pending_writetime_us: 9_000,
            digest_writetime_us: 9_000,
        }],
        vec![TargetReverseRow {
            canonical_ref: mapping.canonical.canonical.to_vec(),
            mapping_digest: mapping.digest,
            canonical_writetime_us: 9_000,
            digest_writetime_us: 9_000,
        }],
    )
}

fn legacy(pending: UniquePendingId) -> LegacyMappingPair {
    LegacyMappingPair {
        pending_id: pending,
        forward_writetime_us: 9_000,
        reverse_writetime_us: 9_000,
    }
}

fn anchored(
    head: &StoredHead,
    plan: &CoordinatorRollbackArchivePlan,
    links: &[Link],
    refs: &[CheckpointRef],
) -> CoordinatorRollbackBranchCatalogAccumulator {
    let mut catalog =
        CoordinatorRollbackBranchCatalogAccumulator::try_new(head, plan, config(), [7; 32])
            .unwrap();
    catalog.observe_anchor(1, &point(&links[1], 9_000), &evidence(&links[1], refs[1])).unwrap();
    catalog
}

fn observe(
    catalog: &mut CoordinatorRollbackBranchCatalogAccumulator,
    links: &[Link],
    refs: &[CheckpointRef],
    checkpoint: usize,
    mapping: &BranchPendingMapping,
    forward: &[TargetForwardRow],
    reverse: &[TargetReverseRow<Vec<u8>>],
) -> Result<MappingBundle, CoordinatorRollbackBranchCatalogError> {
    catalog.observe_suffix(
        checkpoint as u64,
        &point(&links[checkpoint], 9_000),
        &evidence(&links[checkpoint], refs[checkpoint]),
        mapping.digest,
        legacy(mapping.pending),
        forward,
        reverse,
    )
}

#[test]
fn suffix_catalog_uses_old_epoch_and_requires_all_four_mapping_directions() {
    let (links, refs) = transitions(4);
    let (plan, head) = plan_and_head(&refs, 1);
    let mut catalog = anchored(&head, &plan, &links, &refs);
    for checkpoint in 2..=4usize {
        let pending = pending(100 + checkpoint as u64);
        let mapping = mapping(refs[checkpoint], pending);
        let (forward, reverse) = target_rows(&mapping);
        assert_eq!(catalog.next_read(), Some(checkpoint as u64));
        let mut bundle =
            observe(&mut catalog, &links, &refs, checkpoint, &mapping, &forward, &reverse).unwrap();
        if checkpoint == 2 {
            assert_eq!(bundle.catalog_fingerprint(), [7; 32]);
            assert_eq!(bundle.rollback_epoch(), 4);
            assert_eq!(bundle.source_epoch(), 3);
            assert_eq!(bundle.checkpoint(), 2);
            assert_eq!(bundle.pending(), pending);
            assert_eq!(
                bundle.sources().iter().map(|source| source.kind()).collect::<Vec<_>>(),
                vec![
                    CoordinatorRollbackMappingSourceKind::LegacyCheckpointToPending,
                    CoordinatorRollbackMappingSourceKind::LegacyPendingToCheckpoint,
                    CoordinatorRollbackMappingSourceKind::BranchExactCanonicalToPending,
                    CoordinatorRollbackMappingSourceKind::BranchExactPendingToCanonical,
                ]
            );
            assert_eq!(
                bundle.sources().iter().map(|source| source.columns().len()).collect::<Vec<_>>(),
                vec![1, 1, 2, 2]
            );

            let original =
                MappingArchiveRow::try_from_verified(&head, &plan, &bundle, 0, Ok(mapping))
                    .unwrap();
            assert_eq!(
                MappingArchiveRow::decode_canonical(
                    original.canonical_bytes(),
                    Ok(()),
                    Ok(mapping)
                )
                .unwrap(),
                original
            );
            let fragments = original.fragments().unwrap();
            let whole = reconstruct_fragments(fragments).unwrap();
            assert_eq!(
                MappingArchiveRow::decode_canonical(&whole, Ok(()), Ok(mapping)).unwrap(),
                original
            );

            bundle.sources[0].columns[0].writetime_us -= 1;
            let same_physical_source =
                MappingArchiveRow::try_from_verified(&head, &plan, &bundle, 0, Ok(mapping))
                    .unwrap();
            assert_eq!(original.slot(), same_physical_source.slot());
            assert_ne!(original.digest(), same_physical_source.digest());

            bundle.sources[0].columns[0].writetime_us = 10_001;
            assert_eq!(
                MappingArchiveRow::try_from_verified(&head, &plan, &bundle, 0, Ok(mapping)),
                Err(CoordinatorRollbackMappingArchiveRowError::WriteAfterOrphanFence {
                    writetime_us: 10_001,
                    orphan_write_max_us: 10_000,
                })
            );

            let mut rehashed = original.canonical_bytes().to_vec();
            let slot_start = rehashed.len() - 64;
            rehashed[slot_start] ^= 0x80;
            let digest = mapping_row_digest(&rehashed[..rehashed.len() - 32]);
            let digest_start = rehashed.len() - 32;
            rehashed[digest_start..].copy_from_slice(&digest.0);
            assert_eq!(
                MappingArchiveRow::decode_canonical(&rehashed, Ok(()), Ok(mapping)),
                Err(CoordinatorRollbackMappingArchiveRowError::RowSlotMismatch)
            );
        }
    }
    assert_eq!(catalog.next_read(), None);
    let selection = catalog.finish_selection().unwrap();
    assert_eq!(selection.pending_rows(), 3);
    for checkpoint in 2..=4 {
        assert_eq!(selection.checkpoint_for_pending(pending(100 + checkpoint)), Some(checkpoint));
    }
    assert_eq!(selection.checkpoint_for_pending(pending(999)), None);
    let summary = selection.summary();
    assert_eq!(summary.source_chain_epoch(), 3);
    assert_eq!(summary.suffix_rows(), 3);
    assert_ne!(summary.catalog_digest().as_bytes(), [0; 32]);
    assert_ne!(summary.source_digest(), [0; 32]);
}

#[test]
fn missing_target_pair_and_pending_reuse_poison_the_stream() {
    let (links, refs) = transitions(3);
    let (plan, head) = plan_and_head(&refs, 1);
    let pending = pending(102);
    let mut catalog = anchored(&head, &plan, &links, &refs);
    assert_eq!(
        observe(&mut catalog, &links, &refs, 2, &mapping(refs[2], pending), &[], &[]),
        Err(CoordinatorRollbackBranchCatalogError::MissingTargetForward)
    );
    assert_eq!(
        catalog.observe_anchor(2, &point(&links[2], 9_000), &evidence(&links[2], refs[2])),
        Err(CoordinatorRollbackBranchCatalogError::Poisoned)
    );
    assert_eq!(catalog.finish(), Err(CoordinatorRollbackBranchCatalogError::Poisoned));

    let mut reused = anchored(&head, &plan, &links, &refs);
    for checkpoint in 2..=3usize {
        let mapping = mapping(refs[checkpoint], pending);
        let (forward, reverse) = target_rows(&mapping);
        let result = observe(&mut reused, &links, &refs, checkpoint, &mapping, &forward, &reverse);
        if checkpoint == 2 {
            result.unwrap();
        } else {
            assert_eq!(
                result,
                Err(CoordinatorRollbackBranchCatalogError::PendingMappedTwice(pending.value))
            );
        }
    }
}

#[test]
fn chain_gap_fence_and_rehashed_target_mapping_fail_closed() {
    let (links, refs) = transitions(3);
    let (plan, head) = plan_and_head(&refs, 1);
    let mut gap = anchored(&head, &plan, &links, &refs);
    assert_eq!(
        observe(&mut gap, &links, &refs, 3, &mapping(refs[3], pending(103)), &[], &[]),
        Err(CoordinatorRollbackBranchCatalogError::CheckpointGap { expected: 2, actual: 3 })
    );

    let mut fenced =
        CoordinatorRollbackBranchCatalogAccumulator::try_new(&head, &plan, config(), [7; 32])
            .unwrap();
    assert_eq!(
        fenced.observe_anchor(1, &point(&links[1], 10_001), &evidence(&links[1], refs[1])),
        Err(CoordinatorRollbackBranchCatalogError::WriteAfterFence {
            writetime_us: 10_001,
            orphan_write_max_us: 10_000,
        })
    );

    let mut rehashed = anchored(&head, &plan, &links, &refs);
    let mapping = mapping(refs[2], pending(102));
    let (mut forward, reverse) = target_rows(&mapping);
    let mut after_fence = forward.clone();
    after_fence[0].pending_writetime_us = 10_001;
    assert_eq!(
        verify_target_mapping(&mapping, &after_fence, &reverse, 10_000),
        Err(CoordinatorRollbackBranchCatalogError::WriteAfterFence {
            writetime_us: 10_001,
            orphan_write_max_us: 10_000,
        })
    );
    forward[0].mapping_digest[0] ^= 1;
    assert_eq!(
        observe(&mut rehashed, &links, &refs, 2, &mapping, &forward, &reverse),
        Err(CoordinatorRollbackBranchCatalogError::TargetForwardConflict)
    );

    let queries = CoordinatorRollbackBranchCatalogQueries::new(
        &CqlKeyspaceName::try_new("canonical").unwrap(),
        &CqlKeyspaceName::try_new("authority").unwrap(),
        &CqlKeyspaceName::try_new("branch_exact").unwrap(),
        "branch_to_pending",
        "pending_to_branch",
    );
    let golden = queries.golden();
    assert!(golden.contains("checkpoint_zk_proof_and_transition_table"));
    assert!(golden.contains("checkpoint_id_to_pending_id_table"));
    assert!(golden.contains("pending_id_to_checkpoint_id_table"));
    assert!(golden.contains("branch_to_pending"));
    assert!(golden.contains("pending_to_branch"));
    assert_eq!(golden.matches("LIMIT 2").count(), 2);
    assert!(!golden.contains("WRITETIME(pending_id)"));
    assert!(!golden.contains("WRITETIME(canonical_ref)"));
    assert_eq!(golden.matches("WRITETIME(mapping_digest)").count(), 2);
}

#[test]
fn a_transition_is_held_to_its_chain() {
    let (links, refs) = transitions(3);
    let (plan, head) = plan_and_head(&refs, 1);
    let refused = |change: &dyn Fn(&mut TransitionEvidence<Vec<u8>>)| {
        let mut catalog = anchored(&head, &plan, &links, &refs);
        let mut evidence = evidence(&links[2], refs[2]);
        change(&mut evidence);
        let mapping = mapping(refs[2], pending(102));
        let (forward, reverse) = target_rows(&mapping);
        catalog
            .observe_suffix(
                2,
                &point(&links[2], 9_000),
                &evidence,
                mapping.digest,
                legacy(mapping.pending),
                &forward,
                &reverse,
            )
            .unwrap_err()
    };
    let decoded = |change: &dyn Fn(&mut DecodedTransition<Vec<u8>>)| {
        refused(&|evidence| {
            let mut state = links[2].decoded.clone();
            change(&mut state);
            evidence.decoded = Ok(state);
        })
    };
    assert_eq!(
        refused(&|evidence| evidence.decoded = Err("short".to_owned())),
        CoordinatorRollbackBranchCatalogError::MalformedTransition {
            checkpoint_id: 2,
            reason: "short".to_owned(),
        }
    );
    assert_eq!(
        decoded(&|state| state.rebuilt.push(0)),
        CoordinatorRollbackBranchCatalogError::NonCanonicalTransition(2)
    );
    assert_eq!(
        decoded(&|state| state.genesis_transition_hash[0] ^= 1),
        CoordinatorRollbackBranchCatalogError::GenesisHashMismatch(2)
    );
    assert_eq!(
        decoded(&|state| state.circuit_fingerprint[0] ^= 1),
        CoordinatorRollbackBranchCatalogError::CircuitFingerprintMismatch(2)
    );
    assert_eq!(
        decoded(&|state| state.carried_leaf_hash[0] ^= 1),
        CoordinatorRollbackBranchCatalogError::LeafHashMismatch(2)
    );
    assert_eq!(
        decoded(&|state| state.old_root[0] ^= 1),
        CoordinatorRollbackBranchCatalogError::PredecessorMismatch(2)
    );
    assert_eq!(
        decoded(&|state| state.proof_is_empty = true),
        CoordinatorRollbackBranchCatalogError::MissingProof(2)
    );
    assert_eq!(
        refused(&|evidence| evidence.proof_hash = Err("no proof".to_owned())),
        CoordinatorRollbackBranchCatalogError::MalformedProof {
            checkpoint_id: 2,
            reason: "no proof".to_owned(),
        }
    );
    assert_eq!(
        refused(&|evidence| evidence.chained_hash[0] ^= 1),
        CoordinatorRollbackBranchCatalogError::ChainMismatch(2)
    );
}

#[test]
fn a_catalog_starts_at_its_target_and_ends_at_its_head() {
    let (links, refs) = transitions(3);
    let (plan, head) = plan_and_head(&refs, 1);
    let mut idle = head.clone();
    idle.control = RollbackControlState::Idle;
    assert_eq!(
        CoordinatorRollbackBranchCatalogAccumulator::try_new(&idle, &plan, config(), [7; 32])
            .err(),
        Some(CoordinatorRollbackBranchCatalogError::NotExactArchivingHead)
    );
    let mut first_epoch = head.clone();
    first_epoch.canonical = canonical(NETWORK, 0, refs[3]);
    assert_eq!(
        CoordinatorRollbackBranchCatalogAccumulator::try_new(
            &first_epoch,
            &plan,
            config(),
            [7; 32]
        )
        .err(),
        Some(CoordinatorRollbackBranchCatalogError::MissingSourceEpoch)
    );

    let mut unanchored =
        CoordinatorRollbackBranchCatalogAccumulator::try_new(&head, &plan, config(), [7; 32])
            .unwrap();
    let mut other = evidence(&links[1], refs[1]);
    other.proof_hash = Ok([0x55; 32]);
    assert_eq!(
        unanchored.observe_anchor(1, &point(&links[1], 9_000), &other),
        Err(CoordinatorRollbackBranchCatalogError::TargetAnchorMismatch)
    );

    let partial = anchored(&head, &plan, &links, &refs);
    assert_eq!(
        partial.finish(),
        Err(CoordinatorRollbackBranchCatalogError::IncompleteCatalog { expected: 4, actual: 2 })
    );
}

#[test]
fn mapping_columns_are_read_whole_or_not_at_all() {
    assert_eq!(cql_key(7), Ok(7));
    assert_eq!(
        cql_key(u64::MAX),
        Err(CoordinatorRollbackBranchCatalogError::IntegerOutOfRange)
    );
    assert_eq!(point_value(None), Ok(None));
    assert_eq!(
        point_value(Some((Some(vec![1]), Some(5)))),
        Ok(Some(PointValue { value: vec![1], writetime_us: 5 }))
    );
    assert_eq!(
        point_value(Some((Some(vec![1]), None))),
        Err(CoordinatorRollbackBranchCatalogError::MissingColumn)
    );
    assert_eq!(u64_point(Some((Some(6), Some(5)))), Ok(Some((6, 5))));
    assert_eq!(
        u64_point(Some((Some(-1), Some(5)))),
        Err(CoordinatorRollbackBranchCatalogError::IntegerOutOfRange)
    );
    assert_eq!(
        u64_point(Some((None, Some(5)))),
        Err(CoordinatorRollbackBranchCatalogError::MissingColumn)
    );
    assert_eq!(
        target_forward_row(Some(102), Some(vec![3; 32]), Some(9_000)),
        Ok(TargetForwardRow {
            pending_id: pending(102),
            mapping_digest: [3; 32],
            pending_writetime_us: 9_000,
            digest_writetime_us: 9_000,
        })
    );
    assert_eq!(
        target_forward_row(Some(0), Some(vec![3; 32]), Some(9_000)),
        Err(CoordinatorRollbackBranchCatalogError::InvalidPending(0))
    );
    assert_eq!(
        target_forward_row(Some(102), Some(vec![3; 31]), Some(9_000)),
        Err(CoordinatorRollbackBranchCatalogError::InvalidDigestLength)
    );
    assert_eq!(
        target_reverse_row(None, Some(vec![3; 32]), Some(9_000)),
        Err(CoordinatorRollbackBranchCatalogError::MissingColumn)
    );
    assert_eq!(
        legacy_pending(2, None),
        Err(CoordinatorRollbackBranchCatalogError::MissingLegacyForward(2))
    );
    assert_eq!(
        legacy_pair(2, pending(102), 9_000, None),
        Err(CoordinatorRollbackBranchCatalogError::MissingLegacyReverse(102))
    );
    assert_eq!(
        legacy_pair(2, pending(102), 9_000, Some((3, 9_000))),
        Err(CoordinatorRollbackBranchCatalogError::LegacyPairMismatch {
            checkpoint: 2,
            pending: 102,
            reverse_checkpoint: 3,
        })
    );
    assert_eq!(
        legacy_pair(2, pending(102), 9_000, Some((2, 9_000))),
        Ok(legacy(pending(102)))
    );
    assert_eq!(
        require_transition(2, None, Ok(vec![])),
        Err(CoordinatorRollbackBranchCatalogError::MissingTransition(2))
    );
    let stored = PointValue { value: vec![9, 9], writetime_us: 4 };
    assert_eq!(
        require_transition(2, Some(stored), Ok(vec![1, 2, 3])),
        Ok(PointValue { value: vec![1, 2, 3], writetime_us: 4 })
    );
}

#[test]
fn target_mappings_are_present_once_and_exact() {
    let (_, refs) = transitions(2);
    let mapping = mapping(refs[2], pending(102));
    let (forward, reverse) = target_rows(&mapping);
    assert_eq!(verify_target_mapping(&mapping, &forward, &reverse, 10_000), Ok(()));
    assert_eq!(
        verify_target_mapping(&mapping, &forward, &[], 10_000),
        Err(CoordinatorRollbackBranchCatalogError::MissingTargetReverse)
    );
    let doubled = [reverse[0].clone(), reverse[0].clone()];
    assert_eq!(
        verify_target_mapping(&mapping, &forward, &doubled, 10_000),
        Err(CoordinatorRollbackBranchCatalogError::TargetReverseConflict)
    );
    let mut foreign = reverse.clone();
    foreign[0].canonical_ref[20] ^= 1;
    assert_eq!(
        verify_target_mapping(&mapping, &forward, &foreign, 10_000),
        Err(CoordinatorRollbackBranchCatalogError::TargetReverseConflict)
    );
}

/// Walks over a branch, reading what the database would answer. While it archives,
/// every bundle counts as persisted.
fn walk(last_pending: u64, archiving: bool) -> (BranchWalk, Vec<MappingBundle>) {
    let (links, refs) = transitions(3);
    let (plan, head) = plan_and_head(&refs, 1);
    let mut bundles = Vec::new();
    let mut walk = BranchWalk::begin(&head, &plan, config(), [7; 32], archiving).unwrap();
    loop {
        let checkpoint = walk.catalog.next_checkpoint;
        let at = checkpoint as usize;
        let mapped = if checkpoint == 3 { last_pending } else { 100 + checkpoint };
        walk = match &walk.stage {
            BranchWalkStage::ReadAnchor => walk
                .take_anchor(
                    Ok(Some(point(&links[1], 9_000))),
                    Ok(links[1].value.clone()),
                    &evidence(&links[1], refs[1]),
                )
                .unwrap(),
            BranchWalkStage::ReadTransition => {
                walk.take_transition(Ok(Some(point(&links[at], 9_000)))).unwrap()
            }
            BranchWalkStage::ReadLegacyForward { .. } => {
                walk.take_legacy_forward(Ok(Some((mapped, 9_000)))).unwrap()
            }
            BranchWalkStage::ReadLegacyReverse { pending, .. } => {
                assert_eq!(pending.value, mapped);
                walk.take_legacy_reverse(Ok(Some((checkpoint, 9_000)))).unwrap()
            }
            BranchWalkStage::VerifyTransition { .. } => walk
                .take_evidence(Ok(links[at].value.clone()), evidence(&links[at], refs[at]))
                .unwrap(),
            BranchWalkStage::ReadTargetForward { canonical: reference, legacy, .. } => {
                assert_eq!(*reference, canonical(NETWORK, 3, refs[at]));
                let (forward, _) = target_rows(&mapping(refs[at], legacy.pending_id));
                walk.take_target_forward(Ok(forward)).unwrap()
            }
            BranchWalkStage::ReadTargetReverse { legacy, .. } => {
                let mapping = mapping(refs[at], legacy.pending_id);
                let (_, reverse) = target_rows(&mapping);
                walk.take_target_reverse(Ok(reverse), mapping.digest).unwrap()
            }
            BranchWalkStage::Persist { bundle } => {
                bundles.push(bundle.clone());
                let persisted = CoordinatorRollbackArchivedMappingBundle {
                    rows: 4,
                    canonical_bytes: 100,
                    digest: [bundles.len() as u8; 32],
                };
                walk.take_persisted(Ok(persisted)).unwrap()
            }
            BranchWalkStage::Finished => return (walk, bundles),
        };
    }
}

fn selection(last_pending: u64) -> VerifiedCoordinatorRollbackSuffixSelection {
    walk(last_pending, false).0.finish().unwrap().0
}

#[test]
fn a_walk_visits_every_checkpoint_and_archives_each_of_them() {
    let (plain, bundles) = walk(103, false);
    assert!(bundles.is_empty());
    let (selected, archived) = plain.finish().unwrap();
    assert_eq!(archived, None);
    assert_eq!(selected.summary(), selection(103).summary());
    assert_eq!(selected.checkpoint_for_pending(pending(103)), Some(3));

    let (archiving, bundles) = walk(103, true);
    assert_eq!(bundles.iter().map(|bundle| bundle.checkpoint()).collect::<Vec<_>>(), vec![2, 3]);
    let (again, archived) = archiving.finish().unwrap();
    assert_eq!(again.summary(), selected.summary());
    let (_, refs) = transitions(3);
    let (plan, _) = plan_and_head(&refs, 1);
    assert_eq!(
        archived,
        Some(MappingArchiveFinished {
            rows: 8,
            bytes: 200,
            digest: sha(&[
                b"psy/coordinator-rollback-mapping-archive-dataset/v1",
                &plan.digest.0,
                &[1; 32],
                &[2; 32],
                &8u64.to_be_bytes(),
                &200u64.to_be_bytes(),
            ]),
        })
    );
}

#[test]
fn a_walk_stops_at_what_is_missing_or_disagrees() {
    let (links, refs) = transitions(3);
    let (plan, head) = plan_and_head(&refs, 1);
    let begin = || BranchWalk::begin(&head, &plan, config(), [7; 32], true).unwrap();
    let anchored = || {
        begin()
            .take_anchor(
                Ok(Some(point(&links[1], 9_000))),
                Ok(links[1].value.clone()),
                &evidence(&links[1], refs[1]),
            )
            .unwrap()
    };
    let forward = || anchored().take_transition(Ok(Some(point(&links[2], 9_000)))).unwrap();
    let reverse = || forward().take_legacy_forward(Ok(Some((102, 9_000)))).unwrap();
    let verify = || reverse().take_legacy_reverse(Ok(Some((2, 9_000)))).unwrap();
    let targets =
        || verify().take_evidence(Ok(links[2].value.clone()), evidence(&links[2], refs[2])).unwrap();

    assert_eq!(
        begin().take_anchor(Ok(None), Ok(vec![]), &evidence(&links[1], refs[1])).err(),
        Some(CoordinatorRollbackBranchCatalogError::MissingTransition(1))
    );
    assert_eq!(
        begin().take_transition(Ok(None)).err(),
        Some(CoordinatorRollbackBranchCatalogError::OutOfOrder)
    );
    assert_eq!(
        anchored().take_transition(Ok(None)).err(),
        Some(CoordinatorRollbackBranchCatalogError::MissingTransition(2))
    );
    assert_eq!(
        forward().take_legacy_forward(Ok(None)).err(),
        Some(CoordinatorRollbackBranchCatalogError::MissingLegacyForward(2))
    );
    assert_eq!(
        reverse().take_legacy_reverse(Ok(Some((3, 9_000)))).err(),
        Some(CoordinatorRollbackBranchCatalogError::LegacyPairMismatch {
            checkpoint: 2,
            pending: 102,
            reverse_checkpoint: 3,
        })
    );
    assert_eq!(
        verify().take_evidence(Err("zstd".to_owned()), evidence(&links[2], refs[2])).err(),
        Some(CoordinatorRollbackBranchCatalogError::MalformedTransition {
            checkpoint_id: 2,
            reason: "zstd".to_owned(),
        })
    );
    let driver = CoordinatorRollbackBranchCatalogError::Driver("driver".to_owned());
    assert_eq!(targets().take_target_forward(Err(driver.clone())).err(), Some(driver));
    let mapping = mapping(refs[2], pending(102));
    let (rows, back) = target_rows(&mapping);
    assert_eq!(
        targets()
            .take_target_forward(Ok(rows.clone()))
            .unwrap()
            .take_target_reverse(Ok(vec![]), mapping.digest)
            .err(),
        Some(CoordinatorRollbackBranchCatalogError::MissingTargetReverse)
    );
    let persisting = targets()
        .take_target_forward(Ok(rows))
        .unwrap()
        .take_target_reverse(Ok(back), mapping.digest)
        .unwrap();
    assert!(matches!(persisting.stage, BranchWalkStage::Persist { .. }));
    assert_eq!(
        persisting.take_persisted(Err("archive".to_owned())).err(),
        Some(CoordinatorRollbackBranchCatalogError::Archive("archive".to_owned()))
    );
    assert_eq!(
        anchored().finish().err(),
        Some(CoordinatorRollbackBranchCatalogError::OutOfOrder)
    );
}

/// Runs all passes over a suffix whose walks select the given last pending identities.
fn passes(
    pendings: &[u64],
    archived: Option<MappingArchiveFinished>,
) -> SuffixPasses<Vec<u64>> {
    let (_, refs) = transitions(3);
    let (_, head) = plan_and_head(&refs, 1);
    let mut passes = SuffixPasses::begin(pendings.len() == 3);
    for (pass, last_pending) in pendings.iter().enumerate() {
        passes = passes.take_head(Ok(Some(head.clone())), &head).unwrap();
        assert_eq!(passes.stage, SuffixPassStage::Walk { pass: pass as u8 + 1 });
        let found = if pass == 1 { archived } else { None };
        passes = passes.take_walk(Ok((selection(*last_pending), found))).unwrap();
    }
    passes = passes.take_head(Ok(Some(head.clone())), &head).unwrap();
    assert_eq!(passes.stage, SuffixPassStage::Conclude);
    passes
}

#[test]
fn an_archived_suffix_is_the_one_that_was_selected() {
    let summary = selection(103).summary();
    assert_eq!(passes(&[103, 103], None).verify_suffix(), Ok(summary));
    assert_eq!(
        passes(&[103, 104], None).verify_suffix(),
        Err(CoordinatorRollbackBranchCatalogError::SourceChanged)
    );
    assert_eq!(
        passes(&[103, 103], None).archive_verified_suffix(),
        Err(CoordinatorRollbackBranchCatalogError::OutOfOrder)
    );

    let finished = MappingArchiveFinished { rows: 8, bytes: 200, digest: [1; 32] };
    let archive = passes(&[103, 103, 103], Some(finished)).archive_verified_suffix().unwrap();
    assert_eq!(archive.catalog(), summary);
    assert_eq!((archive.archive_rows(), archive.archive_bytes()), (8, 200));
    assert_eq!(archive.archive_digest(), [1; 32]);
    assert_eq!(
        passes(&[103, 103, 104], Some(finished)).archive_verified_suffix(),
        Err(CoordinatorRollbackBranchCatalogError::SourceChanged)
    );
    assert_eq!(
        passes(&[103, 103, 103], None).archive_verified_suffix(),
        Err(CoordinatorRollbackBranchCatalogError::ArchiveSummaryMissing)
    );
    let short = MappingArchiveFinished { rows: 7, bytes: 200, digest: [1; 32] };
    assert_eq!(
        passes(&[103, 103, 103], Some(short)).archive_verified_suffix(),
        Err(CoordinatorRollbackBranchCatalogError::ArchiveRowCountMismatch {
            expected: 8,
            actual: 7,
        })
    );

    let (_, refs) = transitions(3);
    let (_, head) = plan_and_head(&refs, 1);
    let mut later = head.clone();
    later.revision += 1;
    assert_eq!(
        SuffixPasses::begin(true).take_head(Ok(Some(later)), &head).err(),
        Some(CoordinatorRollbackBranchCatalogError::HeadChanged)
    );
    let failed = CoordinatorRollbackBranchCatalogError::MissingTransition(1);
    assert_eq!(
        SuffixPasses::begin(true)
            .take_head(Ok(Some(head.clone())), &head)
            .unwrap()
            .take_walk(Err(failed.clone()))
            .err(),
        Some(failed)
    );
}

#[test]
fn mapping_rows_of_all_four_directions_are_archived() {
    let (links, refs) = transitions(3);
    let (plan, head) = plan_and_head(&refs, 1);
    let mut catalog = anchored(&head, &plan, &links, &refs);
    let mapping = mapping(refs[2], pending(102));
    let (forward, reverse) = target_rows(&mapping);
    let bundle = observe(&mut catalog, &links, &refs, 2, &mapping, &forward, &reverse).unwrap();
    let mut slots = Vec::new();
    for source in 0..4 {
        let row =
            MappingArchiveRow::try_from_verified(&head, &plan, &bundle, source, Ok(mapping))
                .unwrap();
        assert_eq!(
            MappingArchiveRow::decode_canonical(row.canonical_bytes(), Ok(()), Ok(mapping)),
            Ok(row.clone())
        );
        assert!(!slots.contains(&row.slot()));
        slots.push(row.slot());
        let mut fragments = row.fragments().unwrap();
        fragments.reverse();
        assert_eq!(reconstruct_fragments(fragments).unwrap(), row.canonical_bytes());
        if source >= 2 {
            // A mapping to another pending identity is not this row's.
            let foreign = BranchPendingMapping { pending: pending(103), ..mapping };
            assert_eq!(
                MappingArchiveRow::try_from_verified(&head, &plan, &bundle, source, Ok(foreign)),
                Err(CoordinatorRollbackMappingArchiveRowError::IdentityMismatch)
            );
            assert_eq!(
                MappingArchiveRow::decode_canonical(row.canonical_bytes(), Ok(()), Ok(foreign)),
                Err(CoordinatorRollbackMappingArchiveRowError::IdentityMismatch)
            );
        }
    }
    assert_eq!(
        MappingArchiveRow::try_from_verified(&head, &plan, &bundle, 4, Ok(mapping)),
        Err(CoordinatorRollbackMappingArchiveRowError::InvalidSourceCount)
    );
    assert_eq!(
        MappingArchiveRow::try_from_verified(
            &head,
            &plan,
            &bundle,
            2,
            Err("malformed".to_owned())
        ),
        Err(CoordinatorRollbackMappingArchiveRowError::Canonical("malformed".to_owned()))
    );
    let expected = [
        None,
        None,
        Some((mapping.canonical.canonical.to_vec(), 102)),
        Some((mapping.canonical.canonical.to_vec(), 102)),
    ];
    for (source, branch) in expected.into_iter().enumerate() {
        let row =
            MappingArchiveRow::try_from_verified(&head, &plan, &bundle, source, Ok(mapping))
                .unwrap();
        assert_eq!(
            MappingArchiveRow::foreign_parts(row.canonical_bytes()),
            Some(MappingForeignParts { chain_id: 1, branch })
        );
        let at = mapping_coordinates(&row).unwrap();
        assert_eq!((at.network_chain_id, at.chain_epoch), (1, 4));
        assert_eq!(at.slot, row.slot().0);
        assert_eq!(i32::from(at.key_domain), i32::from(row.header.key_domain.stable_id()));
    }
    assert_eq!(MappingArchiveRow::foreign_parts(&[0; 200]), None);
    let mut outside = bundle.clone();
    outside.rollback_epoch += 1;
    assert_eq!(
        MappingArchiveRow::try_from_verified(&head, &plan, &outside, 0, Ok(mapping)),
        Err(CoordinatorRollbackMappingArchiveRowError::IdentityMismatch)
    );
    let mut column = bundle.clone();
    column.sources[1].columns[0].value[7] ^= 1;
    assert_eq!(
        MappingArchiveRow::try_from_verified(&head, &plan, &column, 1, Ok(mapping)),
        Err(CoordinatorRollbackMappingArchiveRowError::InvalidColumnSet)
    );
    let mut idle = head.clone();
    idle.control = RollbackControlState::Idle;
    assert_eq!(
        MappingArchiveRow::try_from_verified(&idle, &plan, &bundle, 0, Ok(mapping)),
        Err(CoordinatorRollbackMappingArchiveRowError::NotExactArchivingHead)
    );

    let row =
        MappingArchiveRow::try_from_verified(&head, &plan, &bundle, 0, Ok(mapping)).unwrap();
    let bytes = row.canonical_bytes().to_vec();
    let decode = |bytes: &[u8]| MappingArchiveRow::decode_canonical(bytes, Ok(()), Ok(mapping));
    assert_eq!(
        decode(&bytes[..100]),
        Err(CoordinatorRollbackMappingArchiveRowError::Truncated)
    );
    let mut changed = bytes.clone();
    changed[40] ^= 1;
    assert_eq!(
        decode(&changed),
        Err(CoordinatorRollbackMappingArchiveRowError::DigestMismatch)
    );
    assert_eq!(
        MappingArchiveRow::decode_canonical(&bytes, Err("network".to_owned()), Ok(mapping)),
        Err(CoordinatorRollbackMappingArchiveRowError::Network("network".to_owned()))
    );
}

#[test]
fn the_head_has_to_stay_the_one_that_was_expected() {
    let (_, refs) = transitions(2);
    let (_, head) = plan_and_head(&refs, 1);
    assert_eq!(require_current_head(Ok(Some(head.clone())), &head), Ok(()));
    let mut later = head.clone();
    later.revision += 1;
    assert_eq!(
        require_current_head(Ok(Some(later)), &head),
        Err(CoordinatorRollbackBranchCatalogError::HeadChanged)
    );
    assert_eq!(
        require_current_head(Ok(None), &head),
        Err(CoordinatorRollbackBranchCatalogError::HeadChanged)
    );
    assert_eq!(
        require_current_head(Err("unreachable".to_owned()), &head),
        Err(CoordinatorRollbackBranchCatalogError::Head("unreachable".to_owned()))
    );
}

#[test]
fn the_catalog_fingerprint_commits_its_statements() {
    let names = ["canonical", "authority", "branch_exact"]
        .map(|name| CqlKeyspaceName::try_new(name).unwrap());
    let queries = CoordinatorRollbackBranchCatalogQueries::new(
        &names[0], &names[1], &names[2], "forward", "reverse",
    );
    let golden = queries.golden();
    let mut preimage = b"psy/coordinator-rollback-branch-catalog-store/v1".to_vec();
    for part in ["canonical", "authority", "branch_exact", golden.as_str()] {
        preimage.extend_from_slice(&(part.len() as u64).to_be_bytes());
        preimage.extend_from_slice(part.as_bytes());
    }
    assert_eq!(
        catalog_fingerprint(&names[0], &names[1], &names[2], &queries),
        sha(&[&preimage])
    );
}

#[test]
fn a_bundle_is_archived_source_after_source() {
    let (links, refs) = transitions(3);
    let (plan, head) = plan_and_head(&refs, 1);
    let mut catalog = anchored(&head, &plan, &links, &refs);
    let mapping = mapping(refs[2], pending(102));
    let (forward, reverse) = target_rows(&mapping);
    let bundle = observe(&mut catalog, &links, &refs, 2, &mapping, &forward, &reverse).unwrap();
    let store = CoordinatorRollbackArchiveStoreFingerprint([4; 32]);
    let mut preimage = b"psy/coordinator-rollback-mapping-archive-bundle/v1".to_vec();
    preimage.extend_from_slice(&bundle.catalog_fingerprint());
    preimage.extend_from_slice(&bundle.source_epoch().to_be_bytes());
    preimage.extend_from_slice(&bundle.checkpoint().to_be_bytes());
    preimage.extend_from_slice(&bundle.pending().get().to_be_bytes());
    let mut bytes = 0u64;
    let mut archive = MappingBundleArchive::begin(&head, &plan, &bundle);
    for source in 0..4 {
        assert_eq!(archive.stage, BundleStage::ReadMapping { source_index: source });
        assert_eq!(
            MappingBundleArchive::begin(&head, &plan, &bundle).take_revalidation(Ok(())),
            Err(CoordinatorRollbackArchiveStoreError::OutOfOrder)
        );
        archive = archive.take_mapping(Ok(mapping)).unwrap();
        let row = match &archive.stage {
            BundleStage::Persist { row } => row.clone(),
            _ => panic!("the row of the source is persisted next"),
        };
        bytes += row.canonical_bytes().len() as u64;
        preimage.push(row.header.source_kind.stable_id());
        preimage.extend_from_slice(&row.slot().0);
        preimage.extend_from_slice(&row.digest.0);
        let receipt = accept_persisted_mapping_row(store, &row, Some(row.clone())).unwrap();
        assert_eq!(revalidate_mapping_receipt(&receipt, &Some(row.clone())), Ok(()));
        archive = archive.take_receipt(Ok(receipt)).unwrap();
        archive = archive.take_revalidation(Ok(())).unwrap();
    }
    preimage.extend_from_slice(&4u64.to_be_bytes());
    preimage.extend_from_slice(&bytes.to_be_bytes());
    assert_eq!(
        archive.stage,
        BundleStage::Finished(CoordinatorRollbackArchivedMappingBundle {
            rows: 4,
            canonical_bytes: bytes,
            digest: sha(&[&preimage]),
        })
    );
    let first = MappingBundleArchive::begin(&head, &plan, &bundle).take_mapping(Ok(mapping)).unwrap();
    let other = MappingArchiveRow::try_from_verified(&head, &plan, &bundle, 1, Ok(mapping)).unwrap();
    assert_eq!(
        first.take_receipt(accept_persisted_mapping_row(store, &other, Some(other.clone()))),
        Err(CoordinatorRollbackArchiveStoreError::Conflict)
    );
    let mut idle = head.clone();
    idle.control = RollbackControlState::Idle;
    assert_eq!(
        MappingBundleArchive::begin(&idle, &plan, &bundle).take_mapping(Ok(mapping)),
        Err(CoordinatorRollbackArchiveStoreError::MappingRow(
            CoordinatorRollbackMappingArchiveRowError::NotExactArchivingHead
        ))
    );
    // A body that ends early says so in the words of the row decoder.
    let row = MappingArchiveRow::try_from_verified(&head, &plan, &bundle, 0, Ok(mapping)).unwrap();
    let mut short = row.canonical_bytes().to_vec();
    short[233] = 0xFF;
    let len = short.len();
    let digest = mapping_row_digest(&short[..len - 32]);
    short[len - 32..].copy_from_slice(&digest.0);
    assert_eq!(
        MappingArchiveRow::decode_canonical(&short, Ok(()), Ok(mapping)),
        Err(CoordinatorRollbackMappingArchiveRowError::Decode(
            "invalid Coordinator rollback archive row: Truncated"
        ))
    );
}
