//! Keys and their locators, manifest artifacts, and the rows of indexed trees.

use psy_rollback::identity::{
    ScyllaKeyDomain, ScyllaPhysicalTableId, UnknownScyllaPhysicalTableId,
};
use psy_rollback::imt_family::{
    encode_raw_imt_key_for_sorting, read_cursor_exact_with_writetime,
    read_index_exact_with_writetime, read_leaf_exact_with_writetime, require_orphan_and_fence,
    require_same_writetime, ImtCursorRestorePlan, ImtCursorSnapshot, ImtDerivedValue,
    ImtKeyIndexRow, ImtLeafBoundedRangeDeletePlan, ImtLeafPointDeletePlan, ImtLeafPutBinding,
    ImtPlanError, ImtQueries, ImtQueryKind, MutationOperation, ParsedLeafRow, PrototypeBindValue,
    ResolvedScyllaMutation, SealedPut, StoredLeafRow, StructuredValueSchema,
};
use psy_rollback::imt_write_plan::{PersistedDerivedPut, WritePlan};
use psy_rollback::key::{
    decode_locator_canonical, describe_existing_key, resolve_key_for_rollback,
};
use psy_rollback::keyspace::CqlKeyspaceName;
use psy_rollback::manifest_artifact::{
    artifact_digest, build_artifact, chunk_digest, verify_artifact_chunks, Chunk,
    ManifestArtifactError, ManifestArtifactKind, ReplayPrototypeError,
    MANIFEST_ARTIFACT_CHUNKS_PER_BUCKET, MANIFEST_ARTIFACT_MAX_CHUNK_BYTES,
};
use psy_rollback::manifest_artifact_set::{
    decode_locator_artifact, decode_manifest_artifact_plan, encode_locator_artifact, sorts_before,
    zero_mutation_summary, ArtifactParts, ArtifactSet, CanonicalManifestArtifacts,
    CanonicalPhysicalMutationBatch, FullPhysicalDeltaRecord, ManifestArtifactSetCommitment,
    ReplayRecordKind,
};
use psy_rollback::model::{CheckpointId, UniquePendingId};
use psy_rollback::registry::{
    DeleteStrategy, DomainPreparedUpdateCoverage, KeyDomainDescriptor, PhysicalDescriptor,
    PsyLogicalTableId, RecoveryAction, Registry, RegistryBlocker, RegistryReadiness,
    RegistryReadinessError, RollbackPolicy, ScyllaSchemaFamily, VersionAxis,
};
use psy_rollback::typed_key::{
    CheckpointedObjectKey, ImtEncodedKey, LatestInfoSlot, MerkleNode, ProcCheckpointUniqueId,
    TypedKey, TypedTableKey, U64CounterSlot, U64SingletonSlot,
};
use sha2::{Digest, Sha256};

/// The tables and key domains that the tests work with.
fn registry() -> Registry {
    let table = |id: ScyllaPhysicalTableId, name: &str, schema_family: ScyllaSchemaFamily| {
        PhysicalDescriptor {
            id,
            logical_owner: PsyLogicalTableId { id: id.stable_id() },
            physical_name: name.to_owned(),
            schema_family,
            delete_candidates: vec![
                DeleteStrategy::Point,
                DeleteStrategy::VersionPartition,
                DeleteStrategy::BoundedRange,
            ],
        }
    };
    let domain = |id: ScyllaKeyDomain,
                  physical_table: ScyllaPhysicalTableId,
                  applicable: bool,
                  readiness: RegistryReadiness,
                  version_axis: VersionAxis,
                  rollback_policy: RollbackPolicy,
                  recovery_action: RecoveryAction| {
        KeyDomainDescriptor {
            id,
            physical_table,
            coordinator_coverage: if applicable {
                DomainPreparedUpdateCoverage::Applicable
            } else {
                DomainPreparedUpdateCoverage::NotApplicable
            },
            readiness,
            version_axis,
            rollback_policy,
            recovery_action,
        }
    };
    Registry::try_new(
        1,
        vec![
            table(ScyllaPhysicalTableId::CheckpointLeaf, "checkpoint_leaf_table", ScyllaSchemaFamily::Kiv),
            table(ScyllaPhysicalTableId::CheckpointRootToCheckpointIdK1, "checkpoint_root_to_checkpoint_id_k1_table", ScyllaSchemaFamily::Blob),
            table(ScyllaPhysicalTableId::CheckpointRootToCheckpointIdK2, "checkpoint_root_to_checkpoint_id_k2_table", ScyllaSchemaFamily::Kiv),
            table(ScyllaPhysicalTableId::CheckpointLeafToCheckpointIdK1, "checkpoint_leaf_to_checkpoint_id_k1_table", ScyllaSchemaFamily::Blob),
            table(ScyllaPhysicalTableId::CheckpointLeafToCheckpointIdK2, "checkpoint_leaf_to_checkpoint_id_k2_table", ScyllaSchemaFamily::Kiv),
            table(ScyllaPhysicalTableId::L2BlockState, "l2_block_state_table", ScyllaSchemaFamily::Kiv),
            table(ScyllaPhysicalTableId::CheckpointIdToRealmRoot, "checkpoint_id_to_realm_root_table", ScyllaSchemaFamily::Kiv),
            table(ScyllaPhysicalTableId::LatestInfo, "latest_info_table", ScyllaSchemaFamily::Kiv),
            table(ScyllaPhysicalTableId::CheckpointedObject, "checkpointed_object_table", ScyllaSchemaFamily::ObjectSingle),
            table(ScyllaPhysicalTableId::CheckpointStateRoots, "checkpoint_state_roots_table", ScyllaSchemaFamily::Kiv),
            table(ScyllaPhysicalTableId::UserLeaf, "user_leaf_table", ScyllaSchemaFamily::ObjectSingle),
            table(ScyllaPhysicalTableId::UserPublicKey, "user_public_key_table", ScyllaSchemaFamily::ObjectSingle),
            table(ScyllaPhysicalTableId::U64Singleton, "u64_singleton_table", ScyllaSchemaFamily::U64),
            table(ScyllaPhysicalTableId::U64CounterSingleton, "u64_counter_singleton_table", ScyllaSchemaFamily::Counter),
            table(ScyllaPhysicalTableId::ContractStateTreeHeight, "contract_state_tree_height_table", ScyllaSchemaFamily::U64),
            table(ScyllaPhysicalTableId::CheckpointIdToPendingId, "checkpoint_id_to_pending_id_table", ScyllaSchemaFamily::U64),
            table(ScyllaPhysicalTableId::PendingIdToCheckpointId, "pending_id_to_checkpoint_id_table", ScyllaSchemaFamily::U64),
            table(ScyllaPhysicalTableId::PendingIdToPendingProcIdU64ToU128, "pending_id_to_pending_proc_id_u64_to_u128_table", ScyllaSchemaFamily::U64ToU128),
            table(ScyllaPhysicalTableId::PendingIdToPendingProcIdU128ToU64, "pending_id_to_pending_proc_id_u128_to_u64_table", ScyllaSchemaFamily::U128ToU64),
            table(ScyllaPhysicalTableId::RealmRewardsTreeNodeKey, "realm_rewards_tree_node_key_table", ScyllaSchemaFamily::ObjectSingle),
            table(ScyllaPhysicalTableId::PublicKeyHashToUserIds, "public_key_hash_to_user_ids_table", ScyllaSchemaFamily::HashToMany),
            table(ScyllaPhysicalTableId::GlobalUserTree, "global_user_tree_table", ScyllaSchemaFamily::MerkleZero),
            table(ScyllaPhysicalTableId::UserContractTree, "user_contract_tree_table", ScyllaSchemaFamily::MerkleSingle),
            table(ScyllaPhysicalTableId::ContractStateTree, "contract_state_tree_table", ScyllaSchemaFamily::MerkleDouble),
            table(ScyllaPhysicalTableId::GlobalCheckpointTree, "global_checkpoint_tree_table", ScyllaSchemaFamily::MerkleZero),
            table(ScyllaPhysicalTableId::GutaRewardTagTree, "guta_reward_tag_tree_table", ScyllaSchemaFamily::TagTree),
            table(ScyllaPhysicalTableId::UserRegistrationTree, "user_registration_tree_table", ScyllaSchemaFamily::MerkleZero),
            table(ScyllaPhysicalTableId::GlobalContractTree, "global_contract_tree_table", ScyllaSchemaFamily::MerkleZero),
            table(ScyllaPhysicalTableId::ContractFunctionTree, "contract_function_tree_table", ScyllaSchemaFamily::MerkleSingle),
            table(ScyllaPhysicalTableId::ContractLeaf, "contract_leaf_table", ScyllaSchemaFamily::ObjectSingle),
            table(ScyllaPhysicalTableId::ContractCodeDefinition, "contract_code_definition_table", ScyllaSchemaFamily::Kiv),
            table(ScyllaPhysicalTableId::CheckpointZkProofAndTransition, "checkpoint_zk_proof_and_transition_table", ScyllaSchemaFamily::Kiv),
            table(ScyllaPhysicalTableId::ImtLeaf, "imt_leaf_table", ScyllaSchemaFamily::ImtLeaf),
            table(ScyllaPhysicalTableId::ImtKeyIndex, "imt_key_index_table", ScyllaSchemaFamily::ImtKeyIndex),
            table(ScyllaPhysicalTableId::ImtNextAppendIndex, "imt_next_append_index_table", ScyllaSchemaFamily::ImtCursor),
        ],
        vec![
            domain(
                ScyllaKeyDomain::CheckpointLeaf,
                ScyllaPhysicalTableId::CheckpointLeaf,
                true,
                RegistryReadiness::Ready,
                VersionAxis::CheckpointPartition,
                RollbackPolicy::ArchiveVersioned,
                RecoveryAction::ArchiveAndSnapshot,
            ),
            domain(
                ScyllaKeyDomain::CheckpointRootByHash,
                ScyllaPhysicalTableId::CheckpointRootToCheckpointIdK1,
                true,
                RegistryReadiness::Ready,
                VersionAxis::RootBirthPartition,
                RollbackPolicy::DerivedBirth,
                RecoveryAction::ArchiveAndRebuild,
            ),
            domain(
                ScyllaKeyDomain::CheckpointRootByCheckpoint,
                ScyllaPhysicalTableId::CheckpointRootToCheckpointIdK2,
                true,
                RegistryReadiness::Ready,
                VersionAxis::CheckpointPartition,
                RollbackPolicy::DerivedBirth,
                RecoveryAction::ArchiveAndRebuild,
            ),
            domain(
                ScyllaKeyDomain::CheckpointLeafByHash,
                ScyllaPhysicalTableId::CheckpointLeafToCheckpointIdK1,
                true,
                RegistryReadiness::Ready,
                VersionAxis::RootBirthPartition,
                RollbackPolicy::DerivedBirth,
                RecoveryAction::ArchiveAndRebuild,
            ),
            domain(
                ScyllaKeyDomain::CheckpointLeafByCheckpoint,
                ScyllaPhysicalTableId::CheckpointLeafToCheckpointIdK2,
                true,
                RegistryReadiness::Ready,
                VersionAxis::CheckpointPartition,
                RollbackPolicy::DerivedBirth,
                RecoveryAction::ArchiveAndRebuild,
            ),
            domain(
                ScyllaKeyDomain::L2BlockState,
                ScyllaPhysicalTableId::L2BlockState,
                true,
                RegistryReadiness::Ready,
                VersionAxis::CheckpointPartition,
                RollbackPolicy::ArchiveVersioned,
                RecoveryAction::ArchiveAndSnapshot,
            ),
            domain(
                ScyllaKeyDomain::UnusedCheckpointRealmRoot,
                ScyllaPhysicalTableId::CheckpointIdToRealmRoot,
                false,
                RegistryReadiness::RetireCandidate,
                VersionAxis::NoActiveAxis,
                RollbackPolicy::RetireUnused,
                RecoveryAction::Retire,
            ),
            domain(
                ScyllaKeyDomain::LatestInfo,
                ScyllaPhysicalTableId::LatestInfo,
                true,
                RegistryReadiness::Ready,
                VersionAxis::Singleton,
                RollbackPolicy::RestoreSingleton,
                RecoveryAction::RestoreFromTargetManifest,
            ),
            domain(
                ScyllaKeyDomain::CheckpointedGlobalUserProof,
                ScyllaPhysicalTableId::CheckpointedObject,
                true,
                RegistryReadiness::Ready,
                VersionAxis::CheckpointClustering,
                RollbackPolicy::ArchiveVersioned,
                RecoveryAction::ArchiveAndSnapshot,
            ),
            domain(
                ScyllaKeyDomain::CheckpointedRewardsProofAtCheckpoint,
                ScyllaPhysicalTableId::CheckpointedObject,
                true,
                RegistryReadiness::Ready,
                VersionAxis::CheckpointClustering,
                RollbackPolicy::ArchiveVersioned,
                RecoveryAction::ArchiveAndSnapshot,
            ),
            domain(
                ScyllaKeyDomain::CheckpointedRewardsProofAtPending,
                ScyllaPhysicalTableId::CheckpointedObject,
                false,
                RegistryReadiness::Blocked(RegistryBlocker::MixedCheckpointPendingAxis),
                VersionAxis::MixedCheckpointPendingClustering,
                RollbackPolicy::ByKeyDomain,
                RecoveryAction::BlockedUntilMigration,
            ),
            domain(
                ScyllaKeyDomain::CheckpointedContractStateProof,
                ScyllaPhysicalTableId::CheckpointedObject,
                false,
                RegistryReadiness::Ready,
                VersionAxis::CheckpointClustering,
                RollbackPolicy::ArchiveVersioned,
                RecoveryAction::ArchiveAndSnapshot,
            ),
            domain(
                ScyllaKeyDomain::CheckpointStateRoots,
                ScyllaPhysicalTableId::CheckpointStateRoots,
                true,
                RegistryReadiness::Ready,
                VersionAxis::CheckpointPartition,
                RollbackPolicy::ArchiveVersioned,
                RecoveryAction::ArchiveAndSnapshot,
            ),
            domain(
                ScyllaKeyDomain::UserLeaf,
                ScyllaPhysicalTableId::UserLeaf,
                false,
                RegistryReadiness::Ready,
                VersionAxis::CheckpointClustering,
                RollbackPolicy::ArchiveVersioned,
                RecoveryAction::ArchiveAndSnapshot,
            ),
            domain(
                ScyllaKeyDomain::UserPublicKey,
                ScyllaPhysicalTableId::UserPublicKey,
                true,
                RegistryReadiness::Ready,
                VersionAxis::CheckpointClustering,
                RollbackPolicy::ArchiveVersioned,
                RecoveryAction::ArchiveAndSnapshot,
            ),
            domain(
                ScyllaKeyDomain::U64Singleton,
                ScyllaPhysicalTableId::U64Singleton,
                true,
                RegistryReadiness::Ready,
                VersionAxis::Singleton,
                RollbackPolicy::RestoreSingleton,
                RecoveryAction::RestoreFromTargetManifest,
            ),
            domain(
                ScyllaKeyDomain::U64Counter,
                ScyllaPhysicalTableId::U64CounterSingleton,
                true,
                RegistryReadiness::Ready,
                VersionAxis::MonotonicCounter,
                RollbackPolicy::PreserveOperational,
                RecoveryAction::PreserveOperational,
            ),
            domain(
                ScyllaKeyDomain::ContractStateTreeHeight,
                ScyllaPhysicalTableId::ContractStateTreeHeight,
                false,
                RegistryReadiness::Ready,
                VersionAxis::ContentBirth,
                RollbackPolicy::DerivedBirth,
                RecoveryAction::RebuildFromAuthoritative,
            ),
            domain(
                ScyllaKeyDomain::CheckpointToPending,
                ScyllaPhysicalTableId::CheckpointIdToPendingId,
                true,
                RegistryReadiness::Blocked(RegistryBlocker::ReusableCheckpointHeightKey),
                VersionAxis::ReusedCheckpointPartition,
                RollbackPolicy::ByKeyDomain,
                RecoveryAction::BlockedUntilMigration,
            ),
            domain(
                ScyllaKeyDomain::PendingToCheckpoint,
                ScyllaPhysicalTableId::PendingIdToCheckpointId,
                true,
                RegistryReadiness::Ready,
                VersionAxis::UniquePendingPartition,
                RollbackPolicy::PreserveOperational,
                RecoveryAction::RotateNamespace,
            ),
            domain(
                ScyllaKeyDomain::PendingToProc,
                ScyllaPhysicalTableId::PendingIdToPendingProcIdU64ToU128,
                true,
                RegistryReadiness::Ready,
                VersionAxis::UniquePendingPartition,
                RollbackPolicy::PreserveOperational,
                RecoveryAction::RotateNamespace,
            ),
            domain(
                ScyllaKeyDomain::ProcToPending,
                ScyllaPhysicalTableId::PendingIdToPendingProcIdU128ToU64,
                true,
                RegistryReadiness::Ready,
                VersionAxis::ProcUuidPartition,
                RollbackPolicy::PreserveOperational,
                RecoveryAction::RotateNamespace,
            ),
            domain(
                ScyllaKeyDomain::RealmRewardNode,
                ScyllaPhysicalTableId::RealmRewardsTreeNodeKey,
                true,
                RegistryReadiness::Blocked(RegistryBlocker::PendingSuffixReadThrough),
                VersionAxis::UniquePendingClustering,
                RollbackPolicy::ByKeyDomain,
                RecoveryAction::BlockedUntilMigration,
            ),
            domain(
                ScyllaKeyDomain::PublicKeyToUser,
                ScyllaPhysicalTableId::PublicKeyHashToUserIds,
                true,
                RegistryReadiness::Ready,
                VersionAxis::ContentBirth,
                RollbackPolicy::DerivedBirth,
                RecoveryAction::RebuildFromAuthoritative,
            ),
            domain(
                ScyllaKeyDomain::GlobalUserMerkle,
                ScyllaPhysicalTableId::GlobalUserTree,
                true,
                RegistryReadiness::Ready,
                VersionAxis::CheckpointClustering,
                RollbackPolicy::ArchiveVersioned,
                RecoveryAction::ArchiveAndSnapshot,
            ),
            domain(
                ScyllaKeyDomain::UserContractMerkle,
                ScyllaPhysicalTableId::UserContractTree,
                false,
                RegistryReadiness::Ready,
                VersionAxis::CheckpointClustering,
                RollbackPolicy::ArchiveVersioned,
                RecoveryAction::ArchiveAndSnapshot,
            ),
            domain(
                ScyllaKeyDomain::ContractStateMerkle,
                ScyllaPhysicalTableId::ContractStateTree,
                false,
                RegistryReadiness::Ready,
                VersionAxis::CheckpointClustering,
                RollbackPolicy::ArchiveVersioned,
                RecoveryAction::ArchiveAndSnapshot,
            ),
            domain(
                ScyllaKeyDomain::GlobalCheckpointMerkle,
                ScyllaPhysicalTableId::GlobalCheckpointTree,
                true,
                RegistryReadiness::Ready,
                VersionAxis::CheckpointClustering,
                RollbackPolicy::ArchiveVersioned,
                RecoveryAction::ArchiveAndSnapshot,
            ),
            domain(
                ScyllaKeyDomain::RewardTagMerkle,
                ScyllaPhysicalTableId::GutaRewardTagTree,
                true,
                RegistryReadiness::Ready,
                VersionAxis::CheckpointClustering,
                RollbackPolicy::ArchiveVersioned,
                RecoveryAction::ArchiveAndSnapshot,
            ),
            domain(
                ScyllaKeyDomain::UserRegistrationMerkle,
                ScyllaPhysicalTableId::UserRegistrationTree,
                true,
                RegistryReadiness::Ready,
                VersionAxis::CheckpointClustering,
                RollbackPolicy::ArchiveVersioned,
                RecoveryAction::ArchiveAndSnapshot,
            ),
            domain(
                ScyllaKeyDomain::GlobalContractMerkle,
                ScyllaPhysicalTableId::GlobalContractTree,
                true,
                RegistryReadiness::Ready,
                VersionAxis::CheckpointClustering,
                RollbackPolicy::ArchiveVersioned,
                RecoveryAction::ArchiveAndSnapshot,
            ),
            domain(
                ScyllaKeyDomain::ContractFunctionMerkle,
                ScyllaPhysicalTableId::ContractFunctionTree,
                true,
                RegistryReadiness::Ready,
                VersionAxis::CheckpointClustering,
                RollbackPolicy::ArchiveVersioned,
                RecoveryAction::ArchiveAndSnapshot,
            ),
            domain(
                ScyllaKeyDomain::ContractLeaf,
                ScyllaPhysicalTableId::ContractLeaf,
                true,
                RegistryReadiness::Ready,
                VersionAxis::CheckpointClustering,
                RollbackPolicy::ArchiveVersioned,
                RecoveryAction::ArchiveAndSnapshot,
            ),
            domain(
                ScyllaKeyDomain::ContractCodeDefinition,
                ScyllaPhysicalTableId::ContractCodeDefinition,
                true,
                RegistryReadiness::Ready,
                VersionAxis::ContentBirth,
                RollbackPolicy::DerivedBirth,
                RecoveryAction::RebuildFromAuthoritative,
            ),
            domain(
                ScyllaKeyDomain::CheckpointZkProof,
                ScyllaPhysicalTableId::CheckpointZkProofAndTransition,
                true,
                RegistryReadiness::Ready,
                VersionAxis::CheckpointPartition,
                RollbackPolicy::ArchiveVersioned,
                RecoveryAction::ArchiveAndSnapshot,
            ),
            domain(
                ScyllaKeyDomain::ImtLeaf,
                ScyllaPhysicalTableId::ImtLeaf,
                false,
                RegistryReadiness::Ready,
                VersionAxis::ImtBirthOrdinaryColumn,
                RollbackPolicy::DerivedBirth,
                RecoveryAction::RebuildFromAuthoritative,
            ),
            domain(
                ScyllaKeyDomain::ImtKeyIndex,
                ScyllaPhysicalTableId::ImtKeyIndex,
                false,
                RegistryReadiness::Ready,
                VersionAxis::ImtBirthOrdinaryColumn,
                RollbackPolicy::DerivedBirth,
                RecoveryAction::RebuildFromAuthoritative,
            ),
            domain(
                ScyllaKeyDomain::ImtCursor,
                ScyllaPhysicalTableId::ImtNextAppendIndex,
                false,
                RegistryReadiness::Ready,
                VersionAxis::MutableCursor,
                RollbackPolicy::RestoreSingleton,
                RecoveryAction::RestoreFromTargetManifest,
            ),
            domain(
                ScyllaKeyDomain::RealmAuthorityObservation,
                ScyllaPhysicalTableId::LatestInfo,
                false,
                RegistryReadiness::Ready,
                VersionAxis::Singleton,
                RollbackPolicy::RestoreSingleton,
                RecoveryAction::RestoreFromTargetManifest,
            ),
        ],
    )
    .unwrap()
}

fn sha(parts: &[&[u8]]) -> [u8; 32] {
    let mut hasher = Sha256::new();
    for part in parts {
        hasher.update(part);
    }
    hasher.finalize().into()
}

fn checkpoint(value: u64) -> CheckpointId {
    CheckpointId::try_new(value).unwrap()
}

fn samples() -> Vec<TypedKey> {
    let checkpoint = checkpoint(7);
    let pending = UniquePendingId::try_new(9).unwrap();
    let proc_id = ProcCheckpointUniqueId {
        bytes: 0x00112233445566778899aabbccddeeff_u128.to_be_bytes(),
    };
    let node = MerkleNode::new(4, 11);
    let mut imt_bytes = [0x44; 32];
    imt_bytes[..2].copy_from_slice(&0x8123_u16.to_be_bytes());
    vec![
        TypedTableKey::CheckpointLeaf(checkpoint),
        TypedTableKey::CheckpointRootByHash(vec![0xaa]),
        TypedTableKey::CheckpointRootByCheckpoint(checkpoint),
        TypedTableKey::CheckpointLeafByHash(vec![0xbb]),
        TypedTableKey::CheckpointLeafByCheckpoint(checkpoint),
        TypedTableKey::L2BlockState(checkpoint),
        TypedTableKey::UnusedCheckpointRealmRoot(checkpoint),
        TypedTableKey::LatestInfo(LatestInfoSlot::LatestL2BlockState),
        TypedTableKey::CheckpointedObject(CheckpointedObjectKey::GlobalUserProofAtCheckpoint(
            checkpoint,
        )),
        TypedTableKey::CheckpointedObject(CheckpointedObjectKey::RewardsProofAtCheckpoint(
            checkpoint,
        )),
        TypedTableKey::CheckpointedObject(CheckpointedObjectKey::RewardsProofAtPending(pending)),
        TypedTableKey::CheckpointedObject(CheckpointedObjectKey::ContractStateProofAtCheckpoint(
            checkpoint,
        )),
        TypedTableKey::CheckpointStateRoots(checkpoint),
        TypedTableKey::UserLeaf { user: 5, checkpoint },
        TypedTableKey::UserPublicKey { user: 5, checkpoint },
        TypedTableKey::U64Singleton(U64SingletonSlot::LatestCheckpoint),
        TypedTableKey::U64Counter(U64CounterSlot::UniquePending),
        TypedTableKey::ContractStateTreeHeight { contract: 6, checkpoint },
        TypedTableKey::CheckpointToPending(checkpoint),
        TypedTableKey::PendingToCheckpoint(pending),
        TypedTableKey::PendingToProc(pending),
        TypedTableKey::ProcToPending(proc_id),
        TypedTableKey::RealmRewardNode { realm: 4, pending },
        TypedTableKey::PublicKeyToUser { public_key_hash: vec![1, 2], user: 5 },
        TypedTableKey::GlobalUserMerkle { node, checkpoint },
        TypedTableKey::UserContractMerkle { user: 5, node, checkpoint },
        TypedTableKey::ContractStateMerkle { user: 5, contract: 6, node, checkpoint },
        TypedTableKey::GlobalCheckpointMerkle { node, checkpoint },
        TypedTableKey::RewardTagMerkle { pending, node },
        TypedTableKey::UserRegistrationMerkle { node, checkpoint },
        TypedTableKey::GlobalContractMerkle { node, checkpoint },
        TypedTableKey::ContractFunctionMerkle { contract: 6, node, checkpoint },
        TypedTableKey::ContractLeaf { contract: 6, checkpoint },
        TypedTableKey::ContractCodeDefinition { contract: 6, checkpoint },
        TypedTableKey::CheckpointZkProof(checkpoint),
        TypedTableKey::ImtLeaf { tree: 5, tree_sub: 6, leaf: 7, checkpoint },
        TypedTableKey::ImtKeyIndex {
            tree: 5,
            tree_sub: 6,
            encoded_key: ImtEncodedKey::new(imt_bytes),
        },
        TypedTableKey::ImtCursor { tree: 5, tree_sub: 6 },
        TypedTableKey::LatestInfo(LatestInfoSlot::RealmAuthorityObservation),
    ]
}

#[test]
fn every_key_domain_locator_round_trips_through_typed_resolution() {
    let registry = registry();
    let samples = samples();
    assert_eq!(samples.len(), 39);
    for sample in samples {
        let encoded = describe_existing_key(&sample, &registry).unwrap();
        let decoded = decode_locator_canonical(encoded.locator_bytes(), &registry).unwrap();
        assert_eq!(decoded, encoded, "failed domain {:?}", encoded.key_domain());
        assert_eq!(decoded.typed_key(), &sample);
    }
}

#[test]
fn different_keys_have_different_locators() {
    let registry = registry();
    let mut locators: Vec<Vec<u8>> = samples()
        .iter()
        .map(|key| describe_existing_key(key, &registry).unwrap().locator_bytes().to_vec())
        .collect();
    locators.sort();
    locators.dedup();
    assert_eq!(locators.len(), 39);
}

#[test]
fn a_locator_is_written_byte_by_byte() {
    let key = TypedTableKey::CheckpointLeaf(checkpoint(7));
    let resolved = describe_existing_key(&key, &registry()).unwrap();
    let mut expected = resolved.locator_bytes()[..4].to_vec();
    expected.extend_from_slice(&[0, 1, 0, 1, 0, 1, 0, 1, 1, 1]);
    expected.extend_from_slice(&[1, 3, 0, 0, 0, 8, 0, 0, 0, 0, 0, 0, 0, 7]);
    assert_eq!(resolved.locator_bytes(), expected);
    assert_eq!(resolved.physical_table(), ScyllaPhysicalTableId::CheckpointLeaf);
    assert_eq!(resolved.schema_family(), ScyllaSchemaFamily::Kiv);
    assert_eq!(resolved.logical_table(), PsyLogicalTableId { id: 1 });
    assert!(!resolved.cql_fingerprint().as_bytes().is_empty());
}

#[test]
fn a_forged_locator_is_refused_with_a_reason() {
    let registry = registry();
    let key = TypedTableKey::CheckpointLeaf(checkpoint(7));
    let good = describe_existing_key(&key, &registry).unwrap().locator_bytes().to_vec();
    let refuse = |change: &dyn Fn(&mut Vec<u8>)| {
        let mut bytes = good.clone();
        change(&mut bytes);
        decode_locator_canonical(&bytes, &registry).unwrap_err()
    };
    assert_eq!(refuse(&|bytes| bytes[0] ^= 1), "bad locator magic");
    assert_eq!(refuse(&|bytes| bytes[5] = 9), "unknown storage key codec version");
    assert_eq!(refuse(&|bytes| bytes[9] = 9), "unknown table schema version");
    assert_eq!(refuse(&|bytes| bytes[12] = 9), "locator schema family mismatch");
    assert_eq!(refuse(&|bytes| bytes.push(0)), "trailing locator bytes");
    assert_eq!(
        refuse(&|bytes| bytes[15] = 9),
        "invalid locator field wire type or length"
    );
    assert_eq!(
        refuse(&|bytes| bytes[11] = 6),
        "locator does not canonically resolve to encoded identity"
    );
    assert!(decode_locator_canonical(&good[..good.len() - 1], &registry).is_err());
}

#[test]
fn only_a_ready_domain_can_be_rolled_back() {
    let registry = registry();
    let ready = TypedTableKey::CheckpointLeaf(checkpoint(7));
    assert_eq!(
        resolve_key_for_rollback(&ready, &registry).unwrap(),
        describe_existing_key(&ready, &registry).unwrap()
    );
    let blocked = TypedTableKey::CheckpointToPending(checkpoint(7));
    assert_eq!(
        resolve_key_for_rollback(&blocked, &registry).unwrap_err(),
        RegistryReadinessError::NotReady {
            key_domain: ScyllaKeyDomain::CheckpointToPending,
            readiness: RegistryReadiness::Blocked(RegistryBlocker::ReusableCheckpointHeightKey),
        }
    );
    let retired = TypedTableKey::UnusedCheckpointRealmRoot(checkpoint(7));
    assert!(resolve_key_for_rollback(&retired, &registry).is_err());
    let empty = Registry::try_new(1, Vec::new(), Vec::new()).unwrap();
    assert!(describe_existing_key(&ready, &empty).is_none());
}

#[test]
fn identities_survive_their_numbers() {
    for id in 1..=35 {
        let table = ScyllaPhysicalTableId::from_stable_id(id).unwrap();
        assert_eq!(table.stable_id(), id);
    }
    assert_eq!(ScyllaPhysicalTableId::try_from(36), Err(UnknownScyllaPhysicalTableId(36)));
    for id in 1..=39 {
        assert_eq!(ScyllaKeyDomain::from_stable_id(id).unwrap().stable_id(), id);
    }
    assert!(ScyllaKeyDomain::from_stable_id(40).is_none());
}

fn batch(locators: Vec<Vec<u8>>) -> CanonicalPhysicalMutationBatch {
    let canonical = if locators.is_empty() {
        vec![0x50, 0x53, 0x4d, 0x42, 0, 1, 0, 0, 0, 0]
    } else {
        locators.concat()
    };
    let digest = sha(&[&canonical]);
    CanonicalPhysicalMutationBatch { locators, canonical, digest }
}

fn locators(checkpoint_id: u64) -> Vec<Vec<u8>> {
    let registry = registry();
    let mut locators: Vec<Vec<u8>> = [
        TypedTableKey::GlobalUserMerkle {
            node: MerkleNode::new(2, 9),
            checkpoint: checkpoint(checkpoint_id),
        },
        TypedTableKey::CheckpointLeaf(checkpoint(checkpoint_id)),
    ]
    .iter()
    .map(|key| describe_existing_key(key, &registry).unwrap().locator_bytes().to_vec())
    .collect();
    locators.sort();
    locators
}

fn full_record() -> FullPhysicalDeltaRecord {
    FullPhysicalDeltaRecord { batch: batch(locators(7)), encoded: vec![0x21; 100] }
}

fn zero_record() -> FullPhysicalDeltaRecord {
    let batch = batch(Vec::new());
    let mut encoded = vec![0x50, 0x53, 0x46, 0x44, 0, 1, 1, 1];
    encoded.extend_from_slice(&9u64.to_be_bytes());
    encoded.extend_from_slice(&[0; 10]);
    encoded.extend_from_slice(&(batch.canonical.len() as u32).to_be_bytes());
    encoded.extend_from_slice(&batch.canonical);
    FullPhysicalDeltaRecord { batch, encoded }
}

/// What commits a summary with these counts.
fn commitment(
    summary: &[u8],
    mutation_digest: [u8; 32],
    chunks: [u32; 3],
    affected_row_count: u64,
) -> Result<ManifestArtifactSetCommitment, String> {
    Ok(ManifestArtifactSetCommitment {
        commitment: sha(&[b"commitment", summary]),
        mutation_digest,
        locator_chunk_count: chunks[0],
        replay_chunk_count: chunks[1],
        durable_payload_chunk_count: chunks[2],
        affected_row_count,
    })
}

fn commitment_of_parts(parts: &ArtifactParts) -> Result<ManifestArtifactSetCommitment, String> {
    commitment(
        &parts.canonical_summary,
        parts.mutation_digest,
        [
            parts.locator.chunks().len() as u32,
            parts.replay_record.chunks().len() as u32,
            parts
                .durable_prepared_payload
                .as_ref()
                .map_or(0, |payload| payload.chunks().len() as u32),
        ],
        2,
    )
}

fn full_set(limit: usize) -> ArtifactSet {
    let parts = ArtifactParts::of_full(&full_record(), limit).unwrap();
    let committed = commitment_of_parts(&parts);
    parts.commit(committed).unwrap()
}

#[test]
fn artifact_set_is_deterministic_and_commitment_matches() {
    let first = full_set(MANIFEST_ARTIFACT_MAX_CHUNK_BYTES);
    let second = ArtifactSet::try_from_full(&full_record(), Ok(first.commitment())).unwrap();
    assert_eq!(first, second);
    assert_eq!(first.replay_record_kind(), ReplayRecordKind::FullPhysicalDelta);
    assert_eq!(first.commitment().affected_row_count, 2);
    assert!(first.durable_prepared_payload().is_none());
    first.verify_integrity(Ok(first.commitment())).unwrap();
}

#[test]
fn compact_artifact_binds_durable_payload_and_expands_to_full_batch() {
    let payload_bytes = vec![0x31; 44];
    let record = vec![0x32; 60];
    let full = batch(locators(8));
    let parts = ArtifactParts::of_compact(
        &record,
        Ok(batch(locators(8))),
        &payload_bytes,
        MANIFEST_ARTIFACT_MAX_CHUNK_BYTES,
    )
    .unwrap();
    let committed = commitment_of_parts(&parts);
    let set = ArtifactSet::try_from_compact(
        &record,
        Ok(batch(locators(8))),
        &payload_bytes,
        committed.clone(),
    )
    .unwrap();
    assert_eq!(set.replay_record_kind(), ReplayRecordKind::PreparedReferencePlusSupplement);
    assert_eq!(set.mutation_digest(), &full.digest);
    assert_eq!(set.commitment().affected_row_count, 2);
    assert_eq!(set.commitment().durable_payload_chunk_count, 1);
    assert_eq!(
        set.durable_prepared_payload().unwrap().verify_and_reassemble().unwrap(),
        payload_bytes
    );
    set.verify_integrity(committed).unwrap();
    assert_eq!(
        ArtifactSet::try_from_compact(
            &record,
            Err("expand".to_owned()),
            &payload_bytes,
            Err("unused".to_owned())
        )
        .unwrap_err(),
        ManifestArtifactError::Replay(ReplayPrototypeError::Refused("expand".to_owned()))
    );
}

#[test]
fn zero_mutation_receipt_is_not_silently_encoded_as_header_chunks() {
    let record = zero_record();
    let empty = batch(Vec::new());
    assert_eq!(
        ArtifactSet::try_from_full(&record, Err("unused".to_owned())).unwrap_err(),
        ManifestArtifactError::ZeroMutationReceiptNotYetSupported
    );

    let summary = zero_mutation_summary(&record).unwrap();
    let committed = commitment(&summary, empty.digest, [0, 0, 0], 0);
    let bundle =
        CanonicalManifestArtifacts::try_from_full(&record, committed.clone(), Ok(()), Ok(&empty))
            .unwrap();
    assert!(bundle.is_zero_mutation());
    assert!(bundle.chunked().is_none());
    assert_eq!(bundle.commitment().affected_row_count, 0);
    assert_eq!(bundle.commitment().locator_chunk_count, 0);
    assert_eq!(bundle.commitment().replay_chunk_count, 0);
    assert_eq!(bundle.commitment().durable_payload_chunk_count, 0);
    bundle.verify_integrity(committed.clone(), Ok(()), Ok(&empty)).unwrap();
    let plan = decode_manifest_artifact_plan(
        bundle.canonical_summary(),
        &committed.unwrap(),
        Ok(()),
        Ok(&empty),
    )
    .unwrap();
    assert_eq!(plan.zero_mutation_replay_record(), Some(&record.encoded[..]));
    assert!(plan.locator().is_none());
}

#[test]
fn small_chunk_profile_proves_index_bucket_and_reassembly() {
    let set = full_set(32);
    assert!(set.locator().chunks().len() > 1);
    assert!(set.replay_record().chunks().len() > 1);
    for chunk in set.locator().chunks().iter().chain(set.replay_record().chunks()) {
        assert_eq!(
            chunk.chunk_bucket(),
            chunk.chunk_index() / MANIFEST_ARTIFACT_CHUNKS_PER_BUCKET
        );
    }
    set.verify_integrity(Ok(set.commitment())).unwrap();
}

#[test]
fn persisted_chunk_payload_tamper_fails_closed() {
    let set = full_set(MANIFEST_ARTIFACT_MAX_CHUNK_BYTES);
    let original = &set.locator().chunks()[0];
    let mut payload = original.payload().to_vec();
    payload[0] ^= 1;
    let tampered = Chunk::try_from_persisted(
        original.kind().code(),
        original.encoding_version(),
        original.chunk_index(),
        original.total_chunks(),
        original.chunk_bucket(),
        payload,
        *original.payload_hash().as_bytes(),
    )
    .unwrap();
    assert_eq!(
        verify_artifact_chunks(set.locator().descriptor(), &[tampered]).unwrap_err(),
        ManifestArtifactError::ChunkPayloadHashMismatch(0)
    );
}

#[test]
fn persisted_chunk_metadata_is_fail_closed() {
    assert!(matches!(
        Chunk::try_from_persisted(99, 1, 0, 1, 0, vec![1], [0; 32]),
        Err(ManifestArtifactError::UnknownArtifactKind(99))
    ));
    assert!(matches!(
        Chunk::try_from_persisted(
            ManifestArtifactKind::Locator.code(),
            1,
            16,
            17,
            0,
            vec![1],
            [0; 32]
        ),
        Err(ManifestArtifactError::ChunkBucketMismatch { .. })
    ));
    assert_eq!(
        Chunk::try_from_persisted(
            ManifestArtifactKind::Locator.code(),
            1,
            0,
            1,
            0,
            Vec::new(),
            [0; 32],
        )
        .unwrap_err(),
        ManifestArtifactError::EmptyPersistedChunkPayload(0)
    );
    assert_eq!(
        Chunk::try_from_persisted(1, 2, 0, 1, 0, vec![1], [0; 32]).unwrap_err(),
        ManifestArtifactError::UnknownEncodingVersion(2)
    );
    assert_eq!(
        Chunk::try_from_persisted(1, 1, 1, 1, 0, vec![1], [0; 32]).unwrap_err(),
        ManifestArtifactError::InvalidChunkPosition { chunk_index: 1, total_chunks: 1 }
    );
}

#[test]
fn an_artifact_comes_back_whole_or_not_at_all() {
    let payload: Vec<u8> = (0..100).collect();
    let artifact = build_artifact(ManifestArtifactKind::ReplayRecord, &payload, 1, 32).unwrap();
    assert_eq!(artifact.chunks().len(), 4);
    assert_eq!(artifact.verify_and_reassemble().unwrap(), payload);
    let mut swapped: Vec<Chunk> = artifact.chunks().to_vec();
    swapped.swap(0, 1);
    assert_eq!(
        verify_artifact_chunks(artifact.descriptor(), &swapped).unwrap_err(),
        ManifestArtifactError::ChunkSequenceMismatch(0)
    );
    assert_eq!(
        verify_artifact_chunks(artifact.descriptor(), &artifact.chunks()[..3]).unwrap_err(),
        ManifestArtifactError::ChunkCountMismatch { expected: 4, actual: 3 }
    );
    assert_eq!(
        build_artifact(ManifestArtifactKind::ReplayRecord, &[], 1, 32).unwrap_err(),
        ManifestArtifactError::EmptyArtifactPayload(ManifestArtifactKind::ReplayRecord)
    );
    assert_eq!(
        *artifact_digest(ManifestArtifactKind::ReplayRecord, b"payload").as_bytes(),
        sha(&[
            b"psy.rollback.manifest-artifact.v1\0",
            &[2],
            &7u64.to_be_bytes(),
            b"payload",
        ])
    );
    assert_eq!(
        *chunk_digest(ManifestArtifactKind::Locator, 3, 5, b"payload").as_bytes(),
        sha(&[
            b"psy.rollback.manifest-chunk.v1\0",
            &[1],
            &4u64.to_be_bytes(),
            &3u32.to_be_bytes(),
            &4u64.to_be_bytes(),
            &5u32.to_be_bytes(),
            &7u64.to_be_bytes(),
            b"payload",
        ])
    );
}

#[test]
fn a_locator_artifact_is_sorted_and_counted() {
    let sorted = locators(7);
    let payload = encode_locator_artifact(&sorted).unwrap();
    assert_eq!(&payload[..4], b"PSLA");
    assert_eq!(&payload[4..10], &[0, 1, 0, 0, 0, 2]);
    assert_eq!(decode_locator_artifact(&payload, 2), Ok(()));
    assert_eq!(
        decode_locator_artifact(&payload, 3),
        Err(ManifestArtifactError::LocatorCountMismatch { expected: 3, actual: 2 })
    );
    let reversed: Vec<Vec<u8>> = sorted.iter().rev().cloned().collect();
    assert_eq!(
        encode_locator_artifact(&reversed),
        Err(ManifestArtifactError::NonCanonicalLocatorOrdering)
    );
    assert_eq!(
        decode_locator_artifact(&payload[..payload.len() - 1], 2),
        Err(ManifestArtifactError::InvalidLocatorEncoding)
    );
    assert!(sorts_before(&[1], &[1, 0]));
    assert!(sorts_before(&[1, 9], &[2]));
    assert!(!sorts_before(&[2], &[2]));
}

#[test]
fn a_summary_is_read_back_under_its_own_commitment_only() {
    let set = full_set(32);
    let plan = decode_manifest_artifact_plan(
        set.canonical_summary(),
        &set.commitment(),
        Ok(()),
        Err("unused".to_owned()),
    )
    .unwrap();
    assert_eq!(plan.locator(), Some(set.locator().descriptor()));
    assert_eq!(plan.replay_record(), Some(set.replay_record().descriptor()));
    assert_eq!(plan.mutation_digest(), set.mutation_digest());
    let miscounted =
        ManifestArtifactSetCommitment { locator_chunk_count: 99, ..set.commitment() };
    assert!(decode_manifest_artifact_plan(
        set.canonical_summary(),
        &miscounted,
        Ok(()),
        Err("unused".to_owned())
    )
    .is_err());
    assert_eq!(
        decode_manifest_artifact_plan(
            set.canonical_summary(),
            &set.commitment(),
            Err("commitment".to_owned()),
            Err("unused".to_owned())
        )
        .unwrap_err(),
        ManifestArtifactError::Intent("commitment".to_owned())
    );
    let other = ManifestArtifactSetCommitment { commitment: [1; 32], ..set.commitment() };
    assert_eq!(
        set.verify_integrity(Ok(other)),
        Err(ManifestArtifactError::ArtifactCommitmentMismatch)
    );
}

#[test]
fn a_set_is_committed_by_what_counts_its_parts_only() {
    let parts = || ArtifactParts::of_full(&full_record(), 32).unwrap();
    let own = commitment_of_parts(&parts()).unwrap();
    assert!(parts().commit(Ok(own)).is_ok());
    for other in [
        ManifestArtifactSetCommitment { mutation_digest: [9; 32], ..own },
        ManifestArtifactSetCommitment { locator_chunk_count: own.locator_chunk_count + 1, ..own },
        ManifestArtifactSetCommitment { replay_chunk_count: own.replay_chunk_count + 1, ..own },
        ManifestArtifactSetCommitment { durable_payload_chunk_count: 1, ..own },
    ] {
        assert_eq!(
            parts().commit(Ok(other)),
            Err(ManifestArtifactError::ArtifactCommitmentMismatch)
        );
    }
}

#[test]
fn multi_column_writetime_must_be_complete_and_identical() {
    assert_eq!(
        require_same_writetime(&[Some(17), Some(17), Some(17)], "fixture").unwrap(),
        17,
    );
    assert!(require_same_writetime(&[Some(17), Some(18)], "fixture")
        .unwrap_err()
        .to_string()
        .contains("mixed writetimes"));
    assert!(require_same_writetime(&[Some(17), None], "fixture")
        .unwrap_err()
        .to_string()
        .contains("mixed writetimes"));
    assert_eq!(
        require_same_writetime(&[None, Some(17)], "fixture").unwrap_err(),
        "fixture writetime is null"
    );
}

fn leaf_row(tree: u64, leaf: u64, key: u8, next: u64, new: bool) -> Vec<u8> {
    let mut row = Vec::new();
    row.extend_from_slice(&tree.to_le_bytes());
    row.extend_from_slice(&6u64.to_le_bytes());
    row.extend_from_slice(&leaf.to_le_bytes());
    row.extend_from_slice(&[0x51; 32]);
    row.extend_from_slice(&[key; 32]);
    row.extend_from_slice(&[0x53; 32]);
    row.extend_from_slice(&[0x54; 32]);
    row.extend_from_slice(&next.to_le_bytes());
    row.push(new as u8);
    row
}

fn sealed(key: TypedKey, schema: StructuredValueSchema, value: Vec<u8>) -> SealedPut {
    let resolved = describe_existing_key(&key, &registry()).unwrap();
    SealedPut {
        physical_table: resolved.physical_table(),
        key,
        canonical_bytes: [resolved.locator_bytes(), &value[..]].concat(),
        resolved: ResolvedScyllaMutation {
            locator_bytes: resolved.locator_bytes().to_vec(),
            content: value.clone(),
        },
        operation: MutationOperation::PutStructured { schema, canonical_bytes: value },
        timestamp_us: 500,
    }
}

fn sealed_leaf(tree: u64, leaf: u64, key: u8, next: u64, new: bool) -> SealedPut {
    sealed(
        TypedTableKey::ImtLeaf { tree, tree_sub: 6, leaf, checkpoint: checkpoint(12) },
        StructuredValueSchema::ImtLeafRowV1,
        leaf_row(tree, leaf, key, next, new),
    )
}

#[test]
fn a_leaf_row_is_read_little_endian() {
    let row = leaf_row(5, 7, 0x52, 9, true);
    let parsed = ParsedLeafRow::try_parse(&row).unwrap();
    assert_eq!((parsed.tree_id, parsed.tree_sub_id, parsed.leaf_index), (5, 6, 7));
    assert_eq!(parsed.leaf_key, [0x52; 32]);
    assert_eq!((parsed.next_index, parsed.is_new_key), (9, true));
    assert_eq!(
        ParsedLeafRow::try_parse(&row[..160]),
        Err(ImtPlanError::InvalidLeafRowLength { actual: 160 })
    );
    let mut raw = [0u8; 32];
    raw[0] = 1;
    raw[31] = 2;
    let encoded = encode_raw_imt_key_for_sorting(raw);
    assert_eq!((encoded[0], encoded[31]), (2, 1));
}

#[test]
fn a_write_plan_derives_its_index_rows_and_moves_its_cursors() {
    let registry = registry();
    let leaves = [
        sealed_leaf(5, 10, 0x52, 3, true),
        sealed_leaf(5, 4, 0x62, 10, false),
        sealed_leaf(8, 0, 0x72, 0, true),
    ];
    let before = [ImtCursorSnapshot::new(8, 6, 0), ImtCursorSnapshot::new(5, 6, 10)];
    let plan = WritePlan::try_from_sealed_leaves(&leaves, &before, &registry).unwrap();
    assert_eq!(plan.checkpoint(), checkpoint(12));
    assert_eq!(plan.write_timestamp_us(), 500);
    assert_eq!(plan.leaf_puts().len(), 3);
    assert_eq!(plan.index_puts().len(), 2);
    assert_eq!(plan.index_puts()[0].leaf(), 10);
    assert_eq!(plan.index_puts()[0].birth_checkpoint(), checkpoint(12));
    assert_eq!(plan.cursor_puts().len(), 2);
    assert_eq!(plan.cursor_puts()[0].before(), ImtCursorSnapshot::new(5, 6, 10));
    assert_eq!(plan.cursor_puts()[0].after(), ImtCursorSnapshot::new(5, 6, 11));
    assert_eq!(plan.cursor_puts()[1].after(), ImtCursorSnapshot::new(8, 6, 1));
    assert_eq!(plan.derived_supplements().len(), 4);

    let stored: Vec<PersistedDerivedPut> = plan
        .derived_supplements()
        .into_iter()
        .map(|supplement| {
            let (schema, transition) = match supplement.value {
                ImtDerivedValue::IndexRow(_) => {
                    (StructuredValueSchema::ImtKeyIndexRowV2, Err("no cursor".to_owned()))
                }
                ImtDerivedValue::CursorTransition(transition) => {
                    (StructuredValueSchema::ImtCursorTransitionV1, Ok(transition))
                }
            };
            PersistedDerivedPut { sealed: sealed(supplement.key, schema, vec![7]), transition }
        })
        .collect();
    let expanded = || {
        Ok(stored.iter().map(|put| put.sealed.resolved.clone()).collect::<Vec<_>>())
    };
    assert_eq!(
        WritePlan::try_from_persisted_replay(&leaves, &stored, &registry, expanded()),
        Ok(plan.clone())
    );
    let short = Ok(vec![stored[0].sealed.resolved.clone()]);
    assert_eq!(
        WritePlan::try_from_persisted_replay(&leaves, &stored, &registry, short),
        Err(ImtPlanError::DerivedMutationMismatch)
    );
    let twice = Ok(vec![stored[0].sealed.resolved.clone(), stored[0].sealed.resolved.clone()]);
    assert_eq!(
        WritePlan::try_from_persisted_replay(&leaves, &stored, &registry, twice),
        Err(ImtPlanError::DuplicateDerivedMutation)
    );
}

#[test]
fn a_write_plan_refuses_mixed_or_uncovered_leaves() {
    let registry = registry();
    let before = [ImtCursorSnapshot::new(5, 6, 10)];
    let plan = |leaves: &[SealedPut], before: &[ImtCursorSnapshot]| {
        WritePlan::try_from_sealed_leaves(leaves, before, &registry).unwrap_err()
    };
    assert_eq!(plan(&[], &before), ImtPlanError::EmptyLeafBatch);
    let leaf = || sealed_leaf(5, 10, 0x52, 3, true);
    assert_eq!(plan(&[leaf()], &[]), ImtPlanError::CursorBeforeImageCoverage);
    assert_eq!(
        plan(&[leaf()], &[before[0], before[0]]),
        ImtPlanError::DuplicateCursorBeforeImage
    );
    let mut later = leaf();
    later.timestamp_us = 501;
    assert_eq!(
        plan(&[leaf(), later], &before),
        ImtPlanError::MixedWriteTimestamps { expected: 500, actual: 501 }
    );
    let mut other = sealed(
        TypedTableKey::ImtLeaf { tree: 5, tree_sub: 6, leaf: 10, checkpoint: checkpoint(13) },
        StructuredValueSchema::ImtLeafRowV1,
        leaf_row(5, 10, 0x52, 3, true),
    );
    assert_eq!(
        plan(&[leaf(), other.clone()], &before),
        ImtPlanError::MixedCheckpoints { expected: checkpoint(12), actual: checkpoint(13) }
    );
    other.operation = MutationOperation::PutOther;
    assert_eq!(plan(&[other], &before), ImtPlanError::ExpectedLeafRowV1);
    let mismatched = sealed(
        TypedTableKey::ImtLeaf { tree: 5, tree_sub: 6, leaf: 11, checkpoint: checkpoint(12) },
        StructuredValueSchema::ImtLeafRowV1,
        leaf_row(5, 10, 0x52, 3, true),
    );
    assert_eq!(plan(&[mismatched], &before), ImtPlanError::LeafKeyRowMismatch);
    let cursor = sealed(
        TypedTableKey::ImtCursor { tree: 5, tree_sub: 6 },
        StructuredValueSchema::ImtCursorTransitionV1,
        vec![1],
    );
    assert_eq!(
        plan(&[cursor], &before),
        ImtPlanError::WrongPhysicalTable(ScyllaPhysicalTableId::ImtNextAppendIndex)
    );
}

#[test]
fn only_orphans_below_the_fence_are_deleted() {
    let leaf = ImtLeafPutBinding::try_from_sealed(&sealed_leaf(5, 10, 0x52, 3, true)).unwrap();
    let plan =
        ImtLeafPointDeletePlan::try_from_orphaned_version(&leaf, checkpoint(11), 501).unwrap();
    assert_eq!(
        plan.bind_values(),
        vec![
            PrototypeBindValue::BigInt(501),
            PrototypeBindValue::BigInt(5),
            PrototypeBindValue::BigInt(6),
            PrototypeBindValue::BigInt(10),
            PrototypeBindValue::BigInt(12),
        ]
    );
    assert_eq!(
        ImtLeafPointDeletePlan::try_from_orphaned_version(&leaf, checkpoint(12), 501),
        Err(ImtPlanError::VersionNotAfterTarget {
            version: checkpoint(12),
            target: checkpoint(12),
        })
    );
    assert_eq!(
        ImtLeafPointDeletePlan::try_from_orphaned_version(&leaf, checkpoint(11), 500),
        Err(ImtPlanError::FenceNotAfterWrite { fence: 500, write: 500 })
    );
    assert_eq!(require_orphan_and_fence(checkpoint(12), checkpoint(11), 5, 6), Ok(()));
    let registry = registry();
    assert!(ImtLeafBoundedRangeDeletePlan::try_new(
        5,
        6,
        10,
        checkpoint(11),
        checkpoint(15),
        501,
        &registry
    )
    .is_ok());
    assert_eq!(
        ImtLeafBoundedRangeDeletePlan::try_new(
            5,
            6,
            10,
            checkpoint(15),
            checkpoint(15),
            501,
            &registry
        ),
        Err(ImtPlanError::InvalidRange { target: checkpoint(15), old_head: checkpoint(15) })
    );
    let restore = ImtCursorRestorePlan::try_new(
        checkpoint(11),
        ImtCursorSnapshot::new(5, 6, 10),
        600,
        &registry,
    )
    .unwrap();
    assert_eq!(restore.write_timestamp_us(), 600);
}

#[test]
fn what_was_written_to_the_trees_is_read_back_exactly() {
    let leaf = ImtLeafPutBinding::try_from_sealed(&sealed_leaf(5, 10, 0x52, u64::MAX, true)).unwrap();
    let row = StoredLeafRow {
        leaf_hash: vec![0x51; 32],
        leaf_key: vec![0x52; 32],
        leaf_value: vec![0x53; 32],
        next_key: vec![0x54; 32],
        next_index: -1,
        writetimes: vec![Some(500); 5],
    };
    assert_eq!(
        read_leaf_exact_with_writetime(row.clone()),
        Ok((leaf.expected_physical_value(), 500))
    );
    assert_eq!(
        read_leaf_exact_with_writetime(StoredLeafRow { leaf_key: vec![1], ..row }),
        Err("stored IMT leaf hash field has invalid length".to_owned())
    );
    assert_eq!(
        read_index_exact_with_writetime(&[0x52; 32], 12, 10, &[Some(500), Some(500)]),
        Ok((
            ImtKeyIndexRow {
                leaf_key: [0x52; 32],
                birth_checkpoint: checkpoint(12),
                leaf_index: 10,
            },
            500
        ))
    );
    assert_eq!(
        read_index_exact_with_writetime(&[0x52; 32], -1, 10, &[Some(500)]),
        Err("stored IMT index birth checkpoint is negative".to_owned())
    );
    assert_eq!(
        read_cursor_exact_with_writetime(11, Some(500), "missing"),
        Ok((11u64.to_be_bytes().to_vec(), 500))
    );
    assert_eq!(
        read_cursor_exact_with_writetime(11, None, "missing"),
        Err("missing".to_owned())
    );
}

#[test]
fn tree_statements_name_their_tables() {
    let keyspace = CqlKeyspaceName::try_new("realm").unwrap();
    let queries = ImtQueries::new(&keyspace, &registry()).unwrap();
    assert!(queries.leaf_put().cql().starts_with("INSERT INTO realm.imt_leaf_table"));
    assert!(queries.leaf_range_delete().cql().contains("USING TIMESTAMP ?"));
    assert_eq!(queries.leaf_point_delete().kind(), ImtQueryKind::LeafPointDelete);
    assert!(queries.render_golden().contains(queries.cursor_put().cql()));
    for query in [
        queries.leaf_put(),
        queries.leaf_point_delete(),
        queries.leaf_range_delete(),
        queries.index_put(),
        queries.index_point_delete(),
        queries.cursor_put(),
        queries.leaf_exact_read(),
        queries.index_exact_read(),
        queries.cursor_exact_read(),
    ] {
        assert_eq!(query.cql().matches('?').count(), query.bind_shape().len());
        let read = matches!(
            query.kind(),
            ImtQueryKind::LeafExactRead
                | ImtQueryKind::IndexExactRead
                | ImtQueryKind::CursorExactRead
        );
        assert_eq!(query.cql().contains("USING TIMESTAMP ?"), !read);
    }
    let empty = Registry::try_new(1, Vec::new(), Vec::new()).unwrap();
    assert!(ImtQueries::new(&keyspace, &empty).is_none());
}
