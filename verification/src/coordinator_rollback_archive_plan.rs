//! Driver-independent Coordinator suffix-archive plan for in-place rollback.
//!
//! The plan resolves the rollback request against the key-domain registry and
//! commits the exact `(target, requested_head]` archive scope. It cannot persist
//! archive rows, delete hot rows or publish a head. A blocked domain stays in
//! the plan as a typed blocker rather than being skipped.

use vstd::prelude::*;

use crate::registry;

use crate::hash;

use crate::bytes;

use crate::bytes::{
    copy_bytes, is_zero_digest, push_byte, push_bytes, push_i64, push_len, push_u16, push_u64,
    text_bytes,
};
use crate::hash::{sha256_digest};
use crate::identity::{ScyllaKeyDomain, ScyllaPhysicalTableId};
use crate::model::{CheckpointRef, RollbackExecutionMode, RollbackRequest};
use crate::registry::{
    DeleteStrategy, DomainPreparedUpdateCoverage, KeyDomainDescriptor, PhysicalDescriptor,
    RecoveryAction, Registry, RegistryBlocker, RegistryReadiness, RollbackPolicy, VersionAxis,
};

verus! {

/// `PSYCRAR1`.
pub const PLAN_MAGIC: [u8; 8] = [0x50, 0x53, 0x59, 0x43, 0x52, 0x41, 0x52, 0x31];

pub const PLAN_VERSION: u16 = 1;

/// The exact hot-table treatment required for one Coordinator-visible key
/// domain before the global destructive barrier may be crossed.
#[derive(Clone, Copy, Debug, PartialEq, Eq, Structural)]
pub enum CoordinatorRollbackArchiveAction {
    /// Enumerate checkpoint-keyed partitions in `(target, requested_head]`.
    ArchiveCheckpointPartitions,
    /// Archive the checkpoint clustering range `(target, requested_head]` inside
    /// each manifest-selected partition.
    ArchiveCheckpointClusteringRanges,
    /// Archive manifest-selected derived rows born on the discarded suffix.
    ArchiveManifestPointRowsAndRebuild,
    /// Archive checkpoint partitions, then rebuild the derived projection.
    ArchiveCheckpointPartitionsAndRebuild,
    /// Archive clustering suffixes, then rebuild the derived projection.
    ArchiveCheckpointClusteringRangesAndRebuild,
    /// Archive the current singleton and later restore its exact target value.
    ArchiveSingletonAndRestoreTarget,
    /// Operational identity survives checkpoint rollback and is not deleted.
    PreserveOperational,
    /// Pending-keyed operational state moves to a new namespace.
    RotateOperationalNamespace,
}

impl CoordinatorRollbackArchiveAction {
    pub open spec fn spec_code(self) -> u8 {
        match self {
            CoordinatorRollbackArchiveAction::ArchiveCheckpointPartitions => 1,
            CoordinatorRollbackArchiveAction::ArchiveCheckpointClusteringRanges => 2,
            CoordinatorRollbackArchiveAction::ArchiveManifestPointRowsAndRebuild => 3,
            CoordinatorRollbackArchiveAction::ArchiveCheckpointPartitionsAndRebuild => 4,
            CoordinatorRollbackArchiveAction::ArchiveCheckpointClusteringRangesAndRebuild => 5,
            CoordinatorRollbackArchiveAction::ArchiveSingletonAndRestoreTarget => 6,
            CoordinatorRollbackArchiveAction::PreserveOperational => 7,
            CoordinatorRollbackArchiveAction::RotateOperationalNamespace => 8,
        }
    }

    /// The byte that stands for the action in every persisted encoding.
    #[verifier::when_used_as_spec(spec_code)]
    pub fn code(self) -> (code: u8)
        ensures
            code == self.spec_code(),
    {
        match self {
            CoordinatorRollbackArchiveAction::ArchiveCheckpointPartitions => 1,
            CoordinatorRollbackArchiveAction::ArchiveCheckpointClusteringRanges => 2,
            CoordinatorRollbackArchiveAction::ArchiveManifestPointRowsAndRebuild => 3,
            CoordinatorRollbackArchiveAction::ArchiveCheckpointPartitionsAndRebuild => 4,
            CoordinatorRollbackArchiveAction::ArchiveCheckpointClusteringRangesAndRebuild => 5,
            CoordinatorRollbackArchiveAction::ArchiveSingletonAndRestoreTarget => 6,
            CoordinatorRollbackArchiveAction::PreserveOperational => 7,
            CoordinatorRollbackArchiveAction::RotateOperationalNamespace => 8,
        }
    }
}

#[derive(Clone, Copy, Debug, PartialEq, Eq, Structural)]
pub struct CoordinatorRollbackArchiveDomainPlan {
    pub key_domain: ScyllaKeyDomain,
    pub physical_table: ScyllaPhysicalTableId,
    pub action: CoordinatorRollbackArchiveAction,
}

impl CoordinatorRollbackArchiveDomainPlan {
    pub fn key_domain(self) -> (key_domain: ScyllaKeyDomain)
        ensures
            key_domain == self.key_domain,
    {
        self.key_domain
    }

    pub fn physical_table(self) -> (table: ScyllaPhysicalTableId)
        ensures
            table == self.physical_table,
    {
        self.physical_table
    }

    pub fn action(self) -> (action: CoordinatorRollbackArchiveAction)
        ensures
            action == self.action,
    {
        self.action
    }
}

#[derive(Clone, Copy, Debug, PartialEq, Eq, Structural)]
pub enum CoordinatorRollbackArchivePlanBlocker {
    SnapshotReplayNotSupported,
    RegistryBlocked { key_domain: ScyllaKeyDomain, blocker: RegistryBlocker },
    RetireCandidate { key_domain: ScyllaKeyDomain },
    UnsupportedDomainContract {
        key_domain: ScyllaKeyDomain,
        version_axis: VersionAxis,
        rollback_policy: RollbackPolicy,
        recovery_action: RecoveryAction,
    },
    RequiredDeleteStrategyMissing { key_domain: ScyllaKeyDomain, required: DeleteStrategy },
}

/// The digest that commits one Coordinator participant plan.
#[derive(Clone, Copy, Debug, PartialEq, Eq, Hash)]
pub struct CoordinatorRollbackArchivePlanDigest(pub [u8; 32]);

#[derive(Clone, Copy, Debug, PartialEq, Eq, Structural)]
pub enum CoordinatorRollbackArchivePlanDigestError {
    ZeroDigest,
}

impl CoordinatorRollbackArchivePlanDigest {
    pub fn as_bytes(self) -> (bytes: [u8; 32])
        ensures
            bytes == self.0,
    {
        self.0
    }

    /// Any digest but the zero one can have come from an archive.
    pub fn try_from_archive_bytes(bytes: [u8; 32]) -> (result: Result<
        Self,
        CoordinatorRollbackArchivePlanDigestError,
    >)
        ensures
            result == (if bytes::zero_digest(bytes) {
                Err::<Self, _>(CoordinatorRollbackArchivePlanDigestError::ZeroDigest)
            } else {
                Ok(CoordinatorRollbackArchivePlanDigest(bytes))
            }),
    {
        if is_zero_digest(&bytes) {
            Err(CoordinatorRollbackArchivePlanDigestError::ZeroDigest)
        } else {
            Ok(CoordinatorRollbackArchivePlanDigest(bytes))
        }
    }
}

/// The treatment that a domain's recovery action and version axis call for, and
/// the delete strategy that treatment relies on.
pub open spec fn required_treatment(
    version_axis: VersionAxis,
    rollback_policy: RollbackPolicy,
    recovery_action: RecoveryAction,
) -> Option<(CoordinatorRollbackArchiveAction, Option<DeleteStrategy>)> {
    match (recovery_action, version_axis) {
        (RecoveryAction::ArchiveAndSnapshot, VersionAxis::CheckpointPartition) => Some(
            (
                CoordinatorRollbackArchiveAction::ArchiveCheckpointPartitions,
                Some(DeleteStrategy::VersionPartition),
            ),
        ),
        (RecoveryAction::ArchiveAndSnapshot, VersionAxis::CheckpointClustering) => Some(
            (
                CoordinatorRollbackArchiveAction::ArchiveCheckpointClusteringRanges,
                Some(DeleteStrategy::BoundedRange),
            ),
        ),
        (RecoveryAction::ArchiveAndRebuild, VersionAxis::CheckpointPartition) => Some(
            (
                CoordinatorRollbackArchiveAction::ArchiveCheckpointPartitionsAndRebuild,
                Some(DeleteStrategy::VersionPartition),
            ),
        ),
        (RecoveryAction::ArchiveAndRebuild, VersionAxis::RootBirthPartition)
        | (RecoveryAction::ArchiveAndRebuild, VersionAxis::ContentBirth)
        | (RecoveryAction::RebuildFromAuthoritative, VersionAxis::ContentBirth)
        | (RecoveryAction::RebuildFromAuthoritative, VersionAxis::ImtBirthOrdinaryColumn) => Some(
            (
                CoordinatorRollbackArchiveAction::ArchiveManifestPointRowsAndRebuild,
                Some(DeleteStrategy::Point),
            ),
        ),
        (RecoveryAction::RebuildFromAuthoritative, VersionAxis::CheckpointClustering) => Some(
            (
                CoordinatorRollbackArchiveAction::ArchiveCheckpointClusteringRangesAndRebuild,
                Some(DeleteStrategy::BoundedRange),
            ),
        ),
        (RecoveryAction::RestoreFromTargetManifest, VersionAxis::Singleton)
        | (RecoveryAction::RestoreFromTargetManifest, VersionAxis::MutableCursor) => Some(
            (CoordinatorRollbackArchiveAction::ArchiveSingletonAndRestoreTarget, None),
        ),
        (RecoveryAction::PreserveOperational, _) => if rollback_policy
            == RollbackPolicy::PreserveOperational {
            Some((CoordinatorRollbackArchiveAction::PreserveOperational, None))
        } else {
            None
        },
        (RecoveryAction::RotateNamespace, _) => Some(
            (CoordinatorRollbackArchiveAction::RotateOperationalNamespace, None),
        ),
        _ => None,
    }
}

/// The action for a ready domain, or why there is none.
pub open spec fn resolved_action(
    key_domain: ScyllaKeyDomain,
    version_axis: VersionAxis,
    rollback_policy: RollbackPolicy,
    recovery_action: RecoveryAction,
    delete_candidates: Seq<DeleteStrategy>,
) -> Result<CoordinatorRollbackArchiveAction, CoordinatorRollbackArchivePlanBlocker> {
    match required_treatment(version_axis, rollback_policy, recovery_action) {
        None => Err(
            CoordinatorRollbackArchivePlanBlocker::UnsupportedDomainContract {
                key_domain,
                version_axis,
                rollback_policy,
                recovery_action,
            },
        ),
        Some((action, None)) => Ok(action),
        Some((action, Some(required))) => if delete_candidates.contains(required) {
            Ok(action)
        } else {
            Err(
                CoordinatorRollbackArchivePlanBlocker::RequiredDeleteStrategyMissing {
                    key_domain,
                    required,
                },
            )
        },
    }
}

fn treatment(
    version_axis: VersionAxis,
    rollback_policy: RollbackPolicy,
    recovery_action: RecoveryAction,
) -> (treatment: Option<(CoordinatorRollbackArchiveAction, Option<DeleteStrategy>)>)
    ensures
        treatment == required_treatment(version_axis, rollback_policy, recovery_action),
{
    match recovery_action {
        RecoveryAction::ArchiveAndSnapshot => match version_axis {
            VersionAxis::CheckpointPartition => Some(
                (
                    CoordinatorRollbackArchiveAction::ArchiveCheckpointPartitions,
                    Some(DeleteStrategy::VersionPartition),
                ),
            ),
            VersionAxis::CheckpointClustering => Some(
                (
                    CoordinatorRollbackArchiveAction::ArchiveCheckpointClusteringRanges,
                    Some(DeleteStrategy::BoundedRange),
                ),
            ),
            _ => None,
        },
        RecoveryAction::ArchiveAndRebuild => match version_axis {
            VersionAxis::CheckpointPartition => Some(
                (
                    CoordinatorRollbackArchiveAction::ArchiveCheckpointPartitionsAndRebuild,
                    Some(DeleteStrategy::VersionPartition),
                ),
            ),
            VersionAxis::RootBirthPartition | VersionAxis::ContentBirth => Some(
                (
                    CoordinatorRollbackArchiveAction::ArchiveManifestPointRowsAndRebuild,
                    Some(DeleteStrategy::Point),
                ),
            ),
            _ => None,
        },
        RecoveryAction::RebuildFromAuthoritative => match version_axis {
            VersionAxis::ContentBirth | VersionAxis::ImtBirthOrdinaryColumn => Some(
                (
                    CoordinatorRollbackArchiveAction::ArchiveManifestPointRowsAndRebuild,
                    Some(DeleteStrategy::Point),
                ),
            ),
            VersionAxis::CheckpointClustering => Some(
                (
                    CoordinatorRollbackArchiveAction::ArchiveCheckpointClusteringRangesAndRebuild,
                    Some(DeleteStrategy::BoundedRange),
                ),
            ),
            _ => None,
        },
        RecoveryAction::RestoreFromTargetManifest => match version_axis {
            VersionAxis::Singleton | VersionAxis::MutableCursor => Some(
                (CoordinatorRollbackArchiveAction::ArchiveSingletonAndRestoreTarget, None),
            ),
            _ => None,
        },
        RecoveryAction::PreserveOperational => if rollback_policy
            == RollbackPolicy::PreserveOperational {
            Some((CoordinatorRollbackArchiveAction::PreserveOperational, None))
        } else {
            None
        },
        RecoveryAction::RotateNamespace => Some(
            (CoordinatorRollbackArchiveAction::RotateOperationalNamespace, None),
        ),
        _ => None,
    }
}

fn offers(delete_candidates: &[DeleteStrategy], required: DeleteStrategy) -> (offered: bool)
    ensures
        offered == delete_candidates@.contains(required),
{
    let mut i: usize = 0;
    while i < delete_candidates.len()
        invariant
            i <= delete_candidates@.len(),
            forall|j: int| 0 <= j < i ==> delete_candidates@[j] != required,
        decreases delete_candidates@.len() - i,
    {
        if delete_candidates[i] == required {
            assert(delete_candidates@[i as int] == required);
            return true;
        }
        i += 1;
    }
    false
}

/// Chooses the treatment of one ready domain.
pub fn resolve_action(
    key_domain: ScyllaKeyDomain,
    version_axis: VersionAxis,
    rollback_policy: RollbackPolicy,
    recovery_action: RecoveryAction,
    delete_candidates: &[DeleteStrategy],
) -> (result: Result<CoordinatorRollbackArchiveAction, CoordinatorRollbackArchivePlanBlocker>)
    ensures
        result == resolved_action(
            key_domain,
            version_axis,
            rollback_policy,
            recovery_action,
            delete_candidates@,
        ),
{
    match treatment(version_axis, rollback_policy, recovery_action) {
        None => Err(
            CoordinatorRollbackArchivePlanBlocker::UnsupportedDomainContract {
                key_domain,
                version_axis,
                rollback_policy,
                recovery_action,
            },
        ),
        Some((action, None)) => Ok(action),
        Some((action, Some(required))) => {
            if offers(delete_candidates, required) {
                Ok(action)
            } else {
                Err(
                    CoordinatorRollbackArchivePlanBlocker::RequiredDeleteStrategyMissing {
                        key_domain,
                        required,
                    },
                )
            }
        },
    }
}

pub open spec fn spec_registry_blocker_tag(value: RegistryBlocker) -> u8 {
    match value {
        RegistryBlocker::MixedCheckpointPendingAxis => 1,
        RegistryBlocker::ReusableCheckpointHeightKey => 2,
        RegistryBlocker::PendingSuffixReadThrough => 3,
    }
}

fn registry_blocker_tag(value: RegistryBlocker) -> (tag: u8)
    ensures
        tag == spec_registry_blocker_tag(value),
{
    match value {
        RegistryBlocker::MixedCheckpointPendingAxis => 1,
        RegistryBlocker::ReusableCheckpointHeightKey => 2,
        RegistryBlocker::PendingSuffixReadThrough => 3,
    }
}

pub open spec fn spec_delete_strategy_tag(value: DeleteStrategy) -> u8 {
    match value {
        DeleteStrategy::Point => 1,
        DeleteStrategy::VersionPartition => 2,
        DeleteStrategy::BoundedRange => 3,
        DeleteStrategy::SnapshotOnly => 4,
    }
}

fn delete_strategy_tag(value: DeleteStrategy) -> (tag: u8)
    ensures
        tag == spec_delete_strategy_tag(value),
{
    match value {
        DeleteStrategy::Point => 1,
        DeleteStrategy::VersionPartition => 2,
        DeleteStrategy::BoundedRange => 3,
        DeleteStrategy::SnapshotOnly => 4,
    }
}

pub open spec fn spec_version_axis_tag(value: VersionAxis) -> u8 {
    match value {
        VersionAxis::CheckpointPartition => 1,
        VersionAxis::CheckpointClustering => 2,
        VersionAxis::RootBirthPartition => 3,
        VersionAxis::Singleton => 4,
        VersionAxis::MonotonicCounter => 5,
        VersionAxis::ReusedCheckpointPartition => 6,
        VersionAxis::UniquePendingPartition => 7,
        VersionAxis::ProcUuidPartition => 8,
        VersionAxis::UniquePendingClustering => 9,
        VersionAxis::ContentBirth => 10,
        VersionAxis::MixedCheckpointPendingClustering => 11,
        VersionAxis::ImtBirthOrdinaryColumn => 12,
        VersionAxis::MutableCursor => 13,
        VersionAxis::NoActiveAxis => 14,
    }
}

fn version_axis_tag(value: VersionAxis) -> (tag: u8)
    ensures
        tag == spec_version_axis_tag(value),
{
    match value {
        VersionAxis::CheckpointPartition => 1,
        VersionAxis::CheckpointClustering => 2,
        VersionAxis::RootBirthPartition => 3,
        VersionAxis::Singleton => 4,
        VersionAxis::MonotonicCounter => 5,
        VersionAxis::ReusedCheckpointPartition => 6,
        VersionAxis::UniquePendingPartition => 7,
        VersionAxis::ProcUuidPartition => 8,
        VersionAxis::UniquePendingClustering => 9,
        VersionAxis::ContentBirth => 10,
        VersionAxis::MixedCheckpointPendingClustering => 11,
        VersionAxis::ImtBirthOrdinaryColumn => 12,
        VersionAxis::MutableCursor => 13,
        VersionAxis::NoActiveAxis => 14,
    }
}

pub open spec fn spec_rollback_policy_tag(value: RollbackPolicy) -> u8 {
    match value {
        RollbackPolicy::ArchiveVersioned => 1,
        RollbackPolicy::DerivedBirth => 2,
        RollbackPolicy::RestoreSingleton => 3,
        RollbackPolicy::PreserveOperational => 4,
        RollbackPolicy::ByKeyDomain => 5,
        RollbackPolicy::RetireUnused => 6,
    }
}

fn rollback_policy_tag(value: RollbackPolicy) -> (tag: u8)
    ensures
        tag == spec_rollback_policy_tag(value),
{
    match value {
        RollbackPolicy::ArchiveVersioned => 1,
        RollbackPolicy::DerivedBirth => 2,
        RollbackPolicy::RestoreSingleton => 3,
        RollbackPolicy::PreserveOperational => 4,
        RollbackPolicy::ByKeyDomain => 5,
        RollbackPolicy::RetireUnused => 6,
    }
}

pub open spec fn spec_recovery_action_tag(value: RecoveryAction) -> u8 {
    match value {
        RecoveryAction::ArchiveAndSnapshot => 1,
        RecoveryAction::ArchiveAndRebuild => 2,
        RecoveryAction::RestoreFromTargetManifest => 3,
        RecoveryAction::PreserveOperational => 4,
        RecoveryAction::RotateNamespace => 5,
        RecoveryAction::RebuildFromAuthoritative => 6,
        RecoveryAction::Retire => 7,
        RecoveryAction::BlockedUntilMigration => 8,
    }
}

fn recovery_action_tag(value: RecoveryAction) -> (tag: u8)
    ensures
        tag == spec_recovery_action_tag(value),
{
    match value {
        RecoveryAction::ArchiveAndSnapshot => 1,
        RecoveryAction::ArchiveAndRebuild => 2,
        RecoveryAction::RestoreFromTargetManifest => 3,
        RecoveryAction::PreserveOperational => 4,
        RecoveryAction::RotateNamespace => 5,
        RecoveryAction::RebuildFromAuthoritative => 6,
        RecoveryAction::Retire => 7,
        RecoveryAction::BlockedUntilMigration => 8,
    }
}

/// A checkpoint: its height, then its hash.
pub open spec fn checkpoint_bytes(checkpoint: CheckpointRef) -> Seq<u8> {
    bytes::be64(checkpoint.height) + checkpoint.hash@
}

/// The seven-byte record of one blocker.
pub open spec fn blocker_bytes(blocker: CoordinatorRollbackArchivePlanBlocker) -> Seq<u8> {
    match blocker {
        CoordinatorRollbackArchivePlanBlocker::SnapshotReplayNotSupported => seq![
            1u8,
            0,
            0,
            0,
            0,
            0,
            0,
        ],
        CoordinatorRollbackArchivePlanBlocker::RegistryBlocked { key_domain, blocker } => seq![2u8]
            + bytes::be16(key_domain.spec_stable_id()) + seq![
            spec_registry_blocker_tag(blocker),
            0,
            0,
            0,
        ],
        CoordinatorRollbackArchivePlanBlocker::RetireCandidate { key_domain } => seq![3u8] + bytes::be16(
            key_domain.spec_stable_id(),
        ) + seq![0u8, 0, 0, 0],
        CoordinatorRollbackArchivePlanBlocker::UnsupportedDomainContract {
            key_domain,
            version_axis,
            rollback_policy,
            recovery_action,
        } => seq![4u8] + bytes::be16(key_domain.spec_stable_id()) + seq![
            spec_version_axis_tag(version_axis),
            spec_rollback_policy_tag(rollback_policy),
            spec_recovery_action_tag(recovery_action),
            0,
        ],
        CoordinatorRollbackArchivePlanBlocker::RequiredDeleteStrategyMissing {
            key_domain,
            required,
        } => seq![5u8] + bytes::be16(key_domain.spec_stable_id()) + seq![
            spec_delete_strategy_tag(required),
            0,
            0,
            0,
        ],
    }
}

pub open spec fn domains_bytes(domains: Seq<CoordinatorRollbackArchiveDomainPlan>) -> Seq<u8>
    decreases domains.len(),
{
    if domains.len() == 0 {
        Seq::empty()
    } else {
        domains_bytes(domains.drop_last()) + bytes::be16(domains.last().key_domain.spec_stable_id())
            + bytes::be16(domains.last().physical_table.spec_stable_id()) + seq![
            domains.last().action.spec_code(),
        ]
    }
}

pub open spec fn blockers_bytes(blockers: Seq<CoordinatorRollbackArchivePlanBlocker>) -> Seq<u8>
    decreases blockers.len(),
{
    if blockers.len() == 0 {
        Seq::empty()
    } else {
        blockers_bytes(blockers.drop_last()) + blocker_bytes(blockers.last())
    }
}

/// The part of a plan's canonical bytes that the request alone fixes.
pub open spec fn request_bytes(request: RollbackRequest) -> Seq<u8> {
    PLAN_MAGIC@ + bytes::be16(PLAN_VERSION) + request.plan_digest@ + seq![request.execution_mode_code]
        + checkpoint_bytes(request.requested_head) + checkpoint_bytes(request.target) + bytes::be_i64(
        request.fence.orphan_write_max_us,
    ) + bytes::be_i64(request.fence.delete_fence_us) + bytes::be_i64(request.fence.new_branch_write_us)
}

/// The canonical bytes of a plan.
pub open spec fn plan_bytes(
    request: RollbackRequest,
    domains: Seq<CoordinatorRollbackArchiveDomainPlan>,
    blockers: Seq<CoordinatorRollbackArchivePlanBlocker>,
) -> Seq<u8> {
    request_bytes(request) + bytes::be16(domains.len() as u16) + domains_bytes(domains) + bytes::be16(
        blockers.len() as u16,
    ) + blockers_bytes(blockers)
}

/// The digest of a plan is that of these bytes.
pub open spec fn plan_digest_preimage(canonical: Seq<u8>) -> Seq<u8> {
    bytes::text("psy/coordinator-rollback-archive-plan/v1"@) + bytes::be_len(canonical.len())
        + canonical
}

/// The digest of a plan's canonical bytes.
pub open spec fn plan_digest(canonical: Seq<u8>) -> [u8; 32] {
    hash::sha256(plan_digest_preimage(canonical))
}

pub fn encode_checkpoint(encoded: &mut Vec<u8>, checkpoint: &CheckpointRef)
    ensures
        final(encoded)@ == old(encoded)@ + checkpoint_bytes(*checkpoint),
{
    push_u64(encoded, checkpoint.height);
    push_bytes(encoded, &checkpoint.hash);
    assert(encoded@ =~= old(encoded)@ + checkpoint_bytes(*checkpoint));
}

fn encode_blocker(encoded: &mut Vec<u8>, blocker: CoordinatorRollbackArchivePlanBlocker)
    ensures
        final(encoded)@ == old(encoded)@ + blocker_bytes(blocker),
{
    match blocker {
        CoordinatorRollbackArchivePlanBlocker::SnapshotReplayNotSupported => {
            push_bytes(encoded, &[1, 0, 0, 0, 0, 0, 0]);
        },
        CoordinatorRollbackArchivePlanBlocker::RegistryBlocked { key_domain, blocker } => {
            push_byte(encoded, 2);
            push_u16(encoded, key_domain.stable_id());
            push_bytes(encoded, &[registry_blocker_tag(blocker), 0, 0, 0]);
        },
        CoordinatorRollbackArchivePlanBlocker::RetireCandidate { key_domain } => {
            push_byte(encoded, 3);
            push_u16(encoded, key_domain.stable_id());
            push_bytes(encoded, &[0, 0, 0, 0]);
        },
        CoordinatorRollbackArchivePlanBlocker::UnsupportedDomainContract {
            key_domain,
            version_axis,
            rollback_policy,
            recovery_action,
        } => {
            push_byte(encoded, 4);
            push_u16(encoded, key_domain.stable_id());
            push_bytes(
                encoded,
                &[
                    version_axis_tag(version_axis),
                    rollback_policy_tag(rollback_policy),
                    recovery_action_tag(recovery_action),
                    0,
                ],
            );
        },
        CoordinatorRollbackArchivePlanBlocker::RequiredDeleteStrategyMissing {
            key_domain,
            required,
        } => {
            push_byte(encoded, 5);
            push_u16(encoded, key_domain.stable_id());
            push_bytes(encoded, &[delete_strategy_tag(required), 0, 0, 0]);
        },
    }
    assert(encoded@ =~= old(encoded)@ + blocker_bytes(blocker));
}

fn encode_plan(
    request: &RollbackRequest,
    domains: &[CoordinatorRollbackArchiveDomainPlan],
    blockers: &[CoordinatorRollbackArchivePlanBlocker],
) -> (encoded: Vec<u8>)
    requires
        domains@.len() <= u16::MAX,
        blockers@.len() <= u16::MAX,
    ensures
        encoded@ == plan_bytes(*request, domains@, blockers@),
{
    let mut encoded: Vec<u8> = copy_bytes(&PLAN_MAGIC);
    push_u16(&mut encoded, PLAN_VERSION);
    push_bytes(&mut encoded, &request.plan_digest);
    push_byte(&mut encoded, request.execution_mode_code);
    encode_checkpoint(&mut encoded, &request.requested_head);
    encode_checkpoint(&mut encoded, &request.target);
    push_i64(&mut encoded, request.fence.orphan_write_max_us);
    push_i64(&mut encoded, request.fence.delete_fence_us);
    push_i64(&mut encoded, request.fence.new_branch_write_us);
    push_u16(&mut encoded, domains.len() as u16);
    let ghost head = encoded@;
    let mut i: usize = 0;
    assert(domains@.take(0) =~= Seq::empty());
    assert(head + domains_bytes(domains@.take(0)) =~= head);
    while i < domains.len()
        invariant
            i <= domains@.len(),
            encoded@ == head + domains_bytes(domains@.take(i as int)),
        decreases domains@.len() - i,
    {
        let domain = domains[i];
        push_u16(&mut encoded, domain.key_domain.stable_id());
        push_u16(&mut encoded, domain.physical_table.stable_id());
        push_byte(&mut encoded, domain.action.code());
        proof {
            let next = domains@.take(i + 1);
            assert(next.drop_last() =~= domains@.take(i as int));
            assert(next.last() == domain);
            assert(encoded@ =~= head + domains_bytes(next));
        }
        i += 1;
    }
    assert(domains@.take(i as int) =~= domains@);
    push_u16(&mut encoded, blockers.len() as u16);
    let ghost middle = encoded@;
    let mut k: usize = 0;
    assert(blockers@.take(0) =~= Seq::empty());
    assert(middle + blockers_bytes(blockers@.take(0)) =~= middle);
    while k < blockers.len()
        invariant
            k <= blockers@.len(),
            encoded@ == middle + blockers_bytes(blockers@.take(k as int)),
        decreases blockers@.len() - k,
    {
        encode_blocker(&mut encoded, blockers[k]);
        proof {
            let next = blockers@.take(k + 1);
            assert(next.drop_last() =~= blockers@.take(k as int));
            assert(next.last() == blockers@[k as int]);
            assert(encoded@ =~= middle + blockers_bytes(next));
        }
        k += 1;
    }
    assert(blockers@.take(k as int) =~= blockers@);
    encoded
}

fn digest_plan(canonical_bytes: &[u8]) -> (digest: CoordinatorRollbackArchivePlanDigest)
    ensures
        digest.0 == plan_digest(canonical_bytes@),
{
    let mut preimage: Vec<u8> = text_bytes("psy/coordinator-rollback-archive-plan/v1");
    push_len(&mut preimage, canonical_bytes.len());
    push_bytes(&mut preimage, canonical_bytes);
    CoordinatorRollbackArchivePlanDigest(sha256_digest(&preimage))
}

/// What the plan makes of one registered domain: nothing if the Coordinator does
/// not touch it, else its treatment or its blocker.
pub open spec fn domain_outcome(
    domain: KeyDomainDescriptor,
    tables: Seq<PhysicalDescriptor>,
) -> Option<Result<CoordinatorRollbackArchiveDomainPlan, CoordinatorRollbackArchivePlanBlocker>> {
    if domain.coordinator_coverage == DomainPreparedUpdateCoverage::NotApplicable {
        None
    } else {
        match domain.readiness {
            RegistryReadiness::Blocked(blocker) => Some(
                Err(
                    CoordinatorRollbackArchivePlanBlocker::RegistryBlocked {
                        key_domain: domain.id,
                        blocker,
                    },
                ),
            ),
            RegistryReadiness::RetireCandidate => Some(
                Err(CoordinatorRollbackArchivePlanBlocker::RetireCandidate { key_domain: domain.id }),
            ),
            RegistryReadiness::Ready => match resolved_action(
                domain.id,
                domain.version_axis,
                domain.rollback_policy,
                domain.recovery_action,
                delete_candidates(tables, domain.physical_table),
            ) {
                Ok(action) => Some(
                    Ok(
                        CoordinatorRollbackArchiveDomainPlan {
                            key_domain: domain.id,
                            physical_table: domain.physical_table,
                            action,
                        },
                    ),
                ),
                Err(blocker) => Some(Err(blocker)),
            },
        }
    }
}

/// The delete strategies that a table offers; an unregistered one offers none.
pub open spec fn delete_candidates(
    tables: Seq<PhysicalDescriptor>,
    table: ScyllaPhysicalTableId,
) -> Seq<DeleteStrategy> {
    match registry::find_table(tables, table) {
        Some(descriptor) => descriptor.delete_candidates@,
        None => Seq::empty(),
    }
}

/// The treatments of the domains that have one, in registered order.
pub open spec fn planned_domains(
    domains: Seq<KeyDomainDescriptor>,
    tables: Seq<PhysicalDescriptor>,
) -> Seq<CoordinatorRollbackArchiveDomainPlan>
    decreases domains.len(),
{
    if domains.len() == 0 {
        Seq::empty()
    } else {
        let before = planned_domains(domains.drop_last(), tables);
        match domain_outcome(domains.last(), tables) {
            Some(Ok(plan)) => before.push(plan),
            _ => before,
        }
    }
}

/// The blockers of the domains that have one, in registered order.
pub open spec fn domain_blockers(
    domains: Seq<KeyDomainDescriptor>,
    tables: Seq<PhysicalDescriptor>,
) -> Seq<CoordinatorRollbackArchivePlanBlocker>
    decreases domains.len(),
{
    if domains.len() == 0 {
        Seq::empty()
    } else {
        let before = domain_blockers(domains.drop_last(), tables);
        match domain_outcome(domains.last(), tables) {
            Some(Err(blocker)) => before.push(blocker),
            _ => before,
        }
    }
}

/// The blocker that the execution mode raises by itself.
pub open spec fn mode_blockers(mode: RollbackExecutionMode) -> Seq<
    CoordinatorRollbackArchivePlanBlocker,
> {
    if mode == RollbackExecutionMode::InPlace {
        Seq::empty()
    } else {
        seq![CoordinatorRollbackArchivePlanBlocker::SnapshotReplayNotSupported]
    }
}

/// Deterministic, non-executable Coordinator participant plan.
///
/// The digest of the request's global plan binds this participant to the
/// product-level request; `digest` commits this participant plan alone.
#[derive(Debug, PartialEq, Eq)]
pub struct CoordinatorRollbackArchivePlan {
    pub request: RollbackRequest,
    pub domains: Vec<CoordinatorRollbackArchiveDomainPlan>,
    pub blockers: Vec<CoordinatorRollbackArchivePlanBlocker>,
    pub canonical_bytes: Vec<u8>,
    pub digest: CoordinatorRollbackArchivePlanDigest,
}

impl CoordinatorRollbackArchivePlan {
    /// The canonical bytes and the digest are those of the request, the domains
    /// and the blockers.
    pub open spec fn wf(&self) -> bool {
        &&& self.canonical_bytes@ == plan_bytes(self.request, self.domains@, self.blockers@)
        &&& self.digest.0 == plan_digest(self.canonical_bytes@)
    }

    /// Of the registered domains exactly those that the Coordinator touches are planned
    /// or blocked, and none of them is both.
    pub open spec fn covers(&self, registered: Seq<KeyDomainDescriptor>) -> bool {
        forall|domain: ScyllaKeyDomain| #[trigger]
            touches(registered, domain) == (plans(self.domains@, domain) || blocks(
                self.blockers@,
                domain,
            )) && !(plans(self.domains@, domain) && blocks(self.blockers@, domain))
    }

    /// The plan of a request against a registry. A domain that the Coordinator touches
    /// has either a treatment or a blocker, and no other domain has one of them.
    pub fn resolve(request: RollbackRequest, registry: &Registry) -> (plan: Self)
        ensures
            plan.request == request,
            plan.domains@ == planned_domains(registry.spec_domains(), registry.spec_tables()),
            plan.blockers@ == mode_blockers(request.execution_mode) + domain_blockers(
                registry.spec_domains(),
                registry.spec_tables(),
            ),
            plan.wf(),
            plan.covers(registry.spec_domains()),
    {
        proof {
            use_type_invariant(registry);
        }
        let registered = registry.domains();
        let mut domains: Vec<CoordinatorRollbackArchiveDomainPlan> = Vec::new();
        let mut blockers: Vec<CoordinatorRollbackArchivePlanBlocker> = Vec::new();
        if request.execution_mode != RollbackExecutionMode::InPlace {
            blockers.push(CoordinatorRollbackArchivePlanBlocker::SnapshotReplayNotSupported);
        }
        let ghost mode = mode_blockers(request.execution_mode);
        let ghost all = registry.spec_domains();
        let ghost tables = registry.spec_tables();
        proof {
            assert(all.take(0) =~= Seq::empty());
            assert(blockers@ =~= mode + domain_blockers(all.take(0), tables));
        }
        let mut i: usize = 0;
        while i < registered.len()
            invariant
                i <= all.len() < u16::MAX,
                all == registered@,
                all == registry.spec_domains(),
                tables == registry.spec_tables(),
                mode == mode_blockers(request.execution_mode),
                domains@ == planned_domains(all.take(i as int), tables),
                blockers@ == mode + domain_blockers(all.take(i as int), tables),
                domains@.len() <= i,
                blockers@.len() <= i + 1,
            decreases all.len() - i,
        {
            let descriptor = registered[i];
            let ghost next = all.take(i + 1);
            assert(next.drop_last() =~= all.take(i as int));
            assert(next.last() == descriptor);
            if descriptor.coordinator_coverage != DomainPreparedUpdateCoverage::NotApplicable {
                match descriptor.readiness {
                    RegistryReadiness::Blocked(blocker) => {
                        blockers.push(
                            CoordinatorRollbackArchivePlanBlocker::RegistryBlocked {
                                key_domain: descriptor.id,
                                blocker,
                            },
                        );
                    },
                    RegistryReadiness::RetireCandidate => {
                        blockers.push(
                            CoordinatorRollbackArchivePlanBlocker::RetireCandidate {
                                key_domain: descriptor.id,
                            },
                        );
                    },
                    RegistryReadiness::Ready => {
                        let none: Vec<DeleteStrategy> = Vec::new();
                        let candidates: &Vec<DeleteStrategy> = match registry.physical_descriptor(
                            descriptor.physical_table,
                        ) {
                            Some(physical) => &physical.delete_candidates,
                            None => &none,
                        };
                        match resolve_action(
                            descriptor.id,
                            descriptor.version_axis,
                            descriptor.rollback_policy,
                            descriptor.recovery_action,
                            candidates,
                        ) {
                            Ok(action) => {
                                domains.push(
                                    CoordinatorRollbackArchiveDomainPlan {
                                        key_domain: descriptor.id,
                                        physical_table: descriptor.physical_table,
                                        action,
                                    },
                                );
                            },
                            Err(blocker) => {
                                blockers.push(blocker);
                            },
                        }
                    },
                }
            }
            assert(domains@ =~= planned_domains(next, tables));
            assert(blockers@ =~= mode + domain_blockers(next, tables));
            i += 1;
        }
        assert(all.take(i as int) =~= all);
        let canonical_bytes: Vec<u8> = encode_plan(&request, &domains, &blockers);
        let digest = digest_plan(&canonical_bytes);
        let plan = CoordinatorRollbackArchivePlan {
            request,
            domains,
            blockers,
            canonical_bytes,
            digest,
        };
        proof {
            law_plan_covers_the_registry(&plan, all, tables);
        }
        plan
    }

    pub fn request(&self) -> (request: &RollbackRequest)
        ensures
            *request == self.request,
    {
        &self.request
    }

    pub fn global_plan_digest(&self) -> (digest: [u8; 32])
        ensures
            digest == self.request.plan_digest,
    {
        self.request.plan_digest
    }

    pub fn domains(&self) -> (domains: &[CoordinatorRollbackArchiveDomainPlan])
        ensures
            domains@ == self.domains@,
    {
        self.domains.as_slice()
    }

    pub fn blockers(&self) -> (blockers: &[CoordinatorRollbackArchivePlanBlocker])
        ensures
            blockers@ == self.blockers@,
    {
        self.blockers.as_slice()
    }

    pub fn suffix_start_exclusive(&self) -> (height: u64)
        ensures
            height == self.request.target.height,
    {
        self.request.target.height
    }

    pub fn suffix_end_inclusive(&self) -> (height: u64)
        ensures
            height == self.request.requested_head.height,
    {
        self.request.requested_head.height
    }

    pub fn canonical_bytes(&self) -> (bytes: &[u8])
        ensures
            bytes@ == self.canonical_bytes@,
    {
        self.canonical_bytes.as_slice()
    }

    pub fn digest(&self) -> (digest: CoordinatorRollbackArchivePlanDigest)
        ensures
            digest == self.digest,
    {
        self.digest
    }

    /// A plan may be archived only if nothing blocks it; otherwise the blockers
    /// are handed back.
    pub fn require_pre_archive_ready(&self) -> (result: Result<
        (),
        CoordinatorRollbackArchivePlanNotReady,
    >)
        ensures
            match result {
                Ok(()) => self.blockers@.len() == 0,
                Err(not_ready) => self.blockers@.len() > 0 && not_ready.blockers@
                    == self.blockers@,
            },
    {
        if self.blockers.len() == 0 {
            Ok(())
        } else {
            let mut blockers: Vec<CoordinatorRollbackArchivePlanBlocker> = Vec::new();
            let mut i: usize = 0;
            while i < self.blockers.len()
                invariant
                    i <= self.blockers@.len(),
                    blockers@ == self.blockers@.take(i as int),
                decreases self.blockers@.len() - i,
            {
                blockers.push(self.blockers[i]);
                assert(blockers@ =~= self.blockers@.take(i + 1));
                i += 1;
            }
            assert(blockers@ =~= self.blockers@);
            Err(CoordinatorRollbackArchivePlanNotReady { blockers })
        }
    }
}

#[derive(Debug, PartialEq, Eq)]
pub struct CoordinatorRollbackArchivePlanNotReady {
    pub blockers: Vec<CoordinatorRollbackArchivePlanBlocker>,
}

impl CoordinatorRollbackArchivePlanNotReady {
    pub fn blockers(&self) -> (blockers: &[CoordinatorRollbackArchivePlanBlocker])
        ensures
            blockers@ == self.blockers@,
    {
        self.blockers.as_slice()
    }
}

/// The domain that a blocker is about; the execution mode's blocker is about none.
pub open spec fn blocked_domain(blocker: CoordinatorRollbackArchivePlanBlocker) -> Option<
    ScyllaKeyDomain,
> {
    match blocker {
        CoordinatorRollbackArchivePlanBlocker::SnapshotReplayNotSupported => None,
        CoordinatorRollbackArchivePlanBlocker::RegistryBlocked { key_domain, .. } => Some(
            key_domain,
        ),
        CoordinatorRollbackArchivePlanBlocker::RetireCandidate { key_domain } => Some(key_domain),
        CoordinatorRollbackArchivePlanBlocker::UnsupportedDomainContract { key_domain, .. } => Some(
            key_domain,
        ),
        CoordinatorRollbackArchivePlanBlocker::RequiredDeleteStrategyMissing {
            key_domain,
            ..
        } => Some(key_domain),
    }
}

pub open spec fn plans(
    planned: Seq<CoordinatorRollbackArchiveDomainPlan>,
    domain: ScyllaKeyDomain,
) -> bool {
    exists|i: int| 0 <= i < planned.len() && (#[trigger] planned[i]).key_domain == domain
}

pub open spec fn blocks(
    blockers: Seq<CoordinatorRollbackArchivePlanBlocker>,
    domain: ScyllaKeyDomain,
) -> bool {
    exists|i: int| 0 <= i < blockers.len() && blocked_domain(#[trigger] blockers[i]) == Some(domain)
}

/// The domain is registered as one that the Coordinator touches.
pub open spec fn touches(domains: Seq<KeyDomainDescriptor>, domain: ScyllaKeyDomain) -> bool {
    exists|i: int|
        0 <= i < domains.len() && (#[trigger] domains[i]).id == domain
            && domains[i].coordinator_coverage != DomainPreparedUpdateCoverage::NotApplicable
}

/// A plan over domains that are registered once each plans or blocks exactly those that
/// the Coordinator touches, and none of them both.
pub proof fn law_plan_covers_the_registry(
    plan: &CoordinatorRollbackArchivePlan,
    domains: Seq<KeyDomainDescriptor>,
    tables: Seq<PhysicalDescriptor>,
)
    requires
        registry::distinct_domains(domains),
        plan.domains@ == planned_domains(domains, tables),
        plan.blockers@ == mode_blockers(plan.request.execution_mode) + domain_blockers(
            domains,
            tables,
        ),
    ensures
        plan.covers(domains),
{
    let mode = mode_blockers(plan.request.execution_mode);
    let raised = domain_blockers(domains, tables);
    assert forall|domain: ScyllaKeyDomain| #[trigger]
        touches(domains, domain) == (plans(plan.domains@, domain) || blocks(plan.blockers@, domain))
            && !(plans(plan.domains@, domain) && blocks(plan.blockers@, domain)) by {
        law_plan_is_exhaustive(domains, tables, domain);
        law_planned_and_blocked_are_disjoint(domains, tables, domain);
        if blocks(raised, domain) {
            let i = choose|i: int|
                0 <= i < raised.len() && blocked_domain(#[trigger] raised[i]) == Some(domain);
            assert(plan.blockers@[mode.len() + i] == raised[i]);
        }
        if blocks(plan.blockers@, domain) {
            let i = choose|i: int|
                0 <= i < plan.blockers@.len() && blocked_domain(#[trigger] plan.blockers@[i])
                    == Some(domain);
            if i < mode.len() {
                assert(plan.blockers@[i] == mode[i]);
            } else {
                assert(raised[i - mode.len()] == plan.blockers@[i]);
            }
        }
    }
}

/// No registered domain that the Coordinator touches is skipped: it has a
/// treatment or a blocker. No other domain has either.
pub proof fn law_plan_is_exhaustive(
    domains: Seq<KeyDomainDescriptor>,
    tables: Seq<PhysicalDescriptor>,
    domain: ScyllaKeyDomain,
)
    ensures
        (plans(planned_domains(domains, tables), domain) || blocks(
            domain_blockers(domains, tables),
            domain,
        )) <==> touches(domains, domain),
    decreases domains.len(),
{
    if domains.len() > 0 {
        let before = domains.drop_last();
        let last = domains.last();
        law_plan_is_exhaustive(before, tables, domain);
        let p0 = planned_domains(before, tables);
        let b0 = domain_blockers(before, tables);
        let p1 = planned_domains(domains, tables);
        let b1 = domain_blockers(domains, tables);
        assert(domain_outcome(last, tables) matches Some(Ok(plan)) ==> plan.key_domain == last.id);
        assert(domain_outcome(last, tables) matches Some(Err(blocker)) ==> blocked_domain(blocker)
            == Some(last.id));
        if plans(p0, domain) {
            let i = choose|i: int| 0 <= i < p0.len() && (#[trigger] p0[i]).key_domain == domain;
            assert(p1[i] == p0[i]);
        }
        if blocks(b0, domain) {
            let i = choose|i: int|
                0 <= i < b0.len() && blocked_domain(#[trigger] b0[i]) == Some(domain);
            assert(b1[i] == b0[i]);
        }
        if exists|i: int|
            0 <= i < before.len() && (#[trigger] before[i]).id == domain
                && before[i].coordinator_coverage != DomainPreparedUpdateCoverage::NotApplicable {
            let i = choose|i: int|
                0 <= i < before.len() && (#[trigger] before[i]).id == domain
                    && before[i].coordinator_coverage
                    != DomainPreparedUpdateCoverage::NotApplicable;
            assert(domains[i] == before[i]);
        }
        assert(domains[domains.len() - 1] == last);
        match domain_outcome(last, tables) {
            None => {},
            Some(Ok(plan)) => {
                assert(p1[p0.len() as int] == plan);
            },
            Some(Err(blocker)) => {
                assert(b1[b0.len() as int] == blocker);
            },
        }
        if plans(p1, domain) {
            let i = choose|i: int| 0 <= i < p1.len() && (#[trigger] p1[i]).key_domain == domain;
            if i < p0.len() {
                assert(p0[i].key_domain == domain);
            }
        }
        if blocks(b1, domain) {
            let i = choose|i: int|
                0 <= i < b1.len() && blocked_domain(#[trigger] b1[i]) == Some(domain);
            if i < b0.len() {
                assert(blocked_domain(b0[i]) == Some(domain));
            }
        }
        if exists|i: int|
            0 <= i < domains.len() && (#[trigger] domains[i]).id == domain
                && domains[i].coordinator_coverage != DomainPreparedUpdateCoverage::NotApplicable {
            let i = choose|i: int|
                0 <= i < domains.len() && (#[trigger] domains[i]).id == domain
                    && domains[i].coordinator_coverage
                    != DomainPreparedUpdateCoverage::NotApplicable;
            if i < before.len() {
                assert(before[i].id == domain);
            }
        }
    }
}

/// Where a registry lists no domain twice, no domain has both a treatment and a
/// blocker.
pub proof fn law_planned_and_blocked_are_disjoint(
    domains: Seq<KeyDomainDescriptor>,
    tables: Seq<PhysicalDescriptor>,
    domain: ScyllaKeyDomain,
)
    requires
        registry::distinct_domains(domains),
    ensures
        !(plans(planned_domains(domains, tables), domain) && blocks(
            domain_blockers(domains, tables),
            domain,
        )),
    decreases domains.len(),
{
    if domains.len() > 0 {
        let before = domains.drop_last();
        let last = domains.last();
        law_planned_and_blocked_are_disjoint(before, tables, domain);
        law_plan_is_exhaustive(before, tables, domain);
        let p0 = planned_domains(before, tables);
        let b0 = domain_blockers(before, tables);
        let p1 = planned_domains(domains, tables);
        let b1 = domain_blockers(domains, tables);
        if plans(p1, domain) && blocks(b1, domain) {
            let i = choose|i: int| 0 <= i < p1.len() && (#[trigger] p1[i]).key_domain == domain;
            let k = choose|k: int|
                0 <= k < b1.len() && blocked_domain(#[trigger] b1[k]) == Some(domain);
            if i < p0.len() {
                assert(p0[i].key_domain == domain);
                assert(plans(p0, domain));
            }
            if k < b0.len() {
                assert(blocked_domain(b0[k]) == Some(domain));
                assert(blocks(b0, domain));
            }
            if plans(p0, domain) || blocks(b0, domain) {
                let m = choose|m: int|
                    0 <= m < before.len() && (#[trigger] before[m]).id == domain
                        && before[m].coordinator_coverage
                        != DomainPreparedUpdateCoverage::NotApplicable;
                assert(domains[m].id != domains[domains.len() - 1].id);
            }
        }
    }
}

/// A domain whose treatment deletes rows sits on a table that offers the delete
/// strategy the treatment relies on, never only a snapshot.
pub proof fn law_planned_actions_have_their_delete_strategy(
    domains: Seq<KeyDomainDescriptor>,
    tables: Seq<PhysicalDescriptor>,
    i: int,
)
    requires
        0 <= i < planned_domains(domains, tables).len(),
    ensures
        ({
            let plan = planned_domains(domains, tables)[i];
            let offered = delete_candidates(tables, plan.physical_table);
            match plan.action {
                CoordinatorRollbackArchiveAction::ArchiveCheckpointPartitions
                | CoordinatorRollbackArchiveAction::ArchiveCheckpointPartitionsAndRebuild => {
                    offered.contains(DeleteStrategy::VersionPartition)
                },
                CoordinatorRollbackArchiveAction::ArchiveCheckpointClusteringRanges
                | CoordinatorRollbackArchiveAction::ArchiveCheckpointClusteringRangesAndRebuild => {
                    offered.contains(DeleteStrategy::BoundedRange)
                },
                CoordinatorRollbackArchiveAction::ArchiveManifestPointRowsAndRebuild => {
                    offered.contains(DeleteStrategy::Point)
                },
                _ => true,
            }
        }),
    decreases domains.len(),
{
    if i < planned_domains(domains.drop_last(), tables).len() {
        law_planned_actions_have_their_delete_strategy(domains.drop_last(), tables, i);
    }
}

/// A request that is not executed in place is always blocked, and its first
/// blocker says so.
pub proof fn law_snapshot_mode_is_always_blocked(
    mode: RollbackExecutionMode,
    domains: Seq<KeyDomainDescriptor>,
    tables: Seq<PhysicalDescriptor>,
)
    requires
        mode != RollbackExecutionMode::InPlace,
    ensures
        ({
            let blockers = mode_blockers(mode) + domain_blockers(domains, tables);
            &&& blockers.len() > 0
            &&& blockers[0] == CoordinatorRollbackArchivePlanBlocker::SnapshotReplayNotSupported
        }),
{
}

/// What the canonical bytes of a plan hold of its request.
pub open spec fn same_request_bytes(a: RollbackRequest, b: RollbackRequest) -> bool {
    &&& a.plan_digest == b.plan_digest
    &&& a.execution_mode_code == b.execution_mode_code
    &&& a.requested_head == b.requested_head
    &&& a.target == b.target
    &&& a.fence == b.fence
}

proof fn lemma_request_bytes(request: RollbackRequest)
    ensures
        ({
            let front = request_bytes(request);
            &&& front.len() == 147
            &&& bytes::digest_at(front, 10) == request.plan_digest
            &&& front[42] == request.execution_mode_code
            &&& bytes::u64_at(front, 43) == request.requested_head.height
            &&& bytes::digest_at(front, 51) == request.requested_head.hash
            &&& bytes::u64_at(front, 83) == request.target.height
            &&& bytes::digest_at(front, 91) == request.target.hash
            &&& bytes::i64_at(front, 123) == request.fence.orphan_write_max_us
            &&& bytes::i64_at(front, 131) == request.fence.delete_fence_us
            &&& bytes::i64_at(front, 139) == request.fence.new_branch_write_us
        }),
{
    bytes::lemma_be_lens();
    let front = request_bytes(request);
    assert(front.subrange(10, 42) =~= request.plan_digest@);
    assert(front.subrange(43, 51) =~= bytes::be64(request.requested_head.height));
    assert(front.subrange(51, 83) =~= request.requested_head.hash@);
    assert(front.subrange(83, 91) =~= bytes::be64(request.target.height));
    assert(front.subrange(91, 123) =~= request.target.hash@);
    assert(front.subrange(123, 131) =~= bytes::be_i64(request.fence.orphan_write_max_us));
    assert(front.subrange(131, 139) =~= bytes::be_i64(request.fence.delete_fence_us));
    assert(front.subrange(139, 147) =~= bytes::be_i64(request.fence.new_branch_write_us));
    bytes::lemma_write_then_read(front, 10);
    bytes::lemma_write_then_read(front, 43);
    bytes::lemma_write_then_read(front, 51);
    bytes::lemma_write_then_read(front, 83);
    bytes::lemma_write_then_read(front, 91);
    bytes::lemma_write_then_read(front, 123);
    bytes::lemma_write_then_read(front, 131);
    bytes::lemma_write_then_read(front, 139);
}

/// The canonical bytes of a plan bind its request: the range and its hashes, the fence,
/// the execution mode and the global plan. Requests that differ in one of them have
/// other canonical bytes, whatever their domains, and digests of other bytes.
#[verifier::spinoff_prover]
#[verifier::rlimit(40)]
pub proof fn law_plan_bytes_bind_the_request(
    a: RollbackRequest,
    b: RollbackRequest,
    domains_a: Seq<CoordinatorRollbackArchiveDomainPlan>,
    domains_b: Seq<CoordinatorRollbackArchiveDomainPlan>,
    blockers_a: Seq<CoordinatorRollbackArchivePlanBlocker>,
    blockers_b: Seq<CoordinatorRollbackArchivePlanBlocker>,
)
    requires
        !same_request_bytes(a, b),
    ensures
        ({
            let x = plan_bytes(a, domains_a, blockers_a);
            let y = plan_bytes(b, domains_b, blockers_b);
            x != y && plan_digest_preimage(x) != plan_digest_preimage(y)
        }),
{
    let x = plan_bytes(a, domains_a, blockers_a);
    let y = plan_bytes(b, domains_b, blockers_b);
    lemma_request_bytes(a);
    lemma_request_bytes(b);
    assert(x.subrange(0, 147) =~= request_bytes(a));
    assert(y.subrange(0, 147) =~= request_bytes(b));
    bytes::lemma_be_lens();
    let label = bytes::text("psy/coordinator-rollback-archive-plan/v1"@);
    let image_x = plan_digest_preimage(x);
    let image_y = plan_digest_preimage(y);
    let at = label.len() as int + 8;
    assert(image_x.subrange(at, image_x.len() as int) =~= x);
    assert(image_y.subrange(at, image_y.len() as int) =~= y);
}

/// An action stands for one kind of contract only. A domain is preserved only if its
/// recovery action and its rollback policy both say so, archived along an axis only if
/// that is its own axis, rebuilt only if its recovery rebuilds, and restored from the
/// target only if its recovery restores.
pub proof fn law_action_follows_the_contract(
    key_domain: ScyllaKeyDomain,
    axis: VersionAxis,
    policy: RollbackPolicy,
    recovery: RecoveryAction,
    offered: Seq<DeleteStrategy>,
)
    ensures
        resolved_action(key_domain, axis, policy, recovery, offered) matches Ok(action) ==> {
            &&& action is PreserveOperational ==> recovery is PreserveOperational
                && policy is PreserveOperational
            &&& action is RotateOperationalNamespace <==> recovery is RotateNamespace
            &&& action is ArchiveSingletonAndRestoreTarget <==> recovery
                is RestoreFromTargetManifest
            &&& action is ArchiveCheckpointPartitions || action is ArchiveCheckpointClusteringRanges
                <==> recovery is ArchiveAndSnapshot
            &&& action is ArchiveManifestPointRowsAndRebuild || action
                is ArchiveCheckpointPartitionsAndRebuild || action
                is ArchiveCheckpointClusteringRangesAndRebuild <==> recovery is ArchiveAndRebuild
                || recovery is RebuildFromAuthoritative
            &&& recovery is ArchiveAndSnapshot || recovery is ArchiveAndRebuild || recovery
                is RebuildFromAuthoritative ==> {
                &&& action is ArchiveCheckpointPartitions || action
                    is ArchiveCheckpointPartitionsAndRebuild <==> axis is CheckpointPartition
                &&& action is ArchiveCheckpointClusteringRanges || action
                    is ArchiveCheckpointClusteringRangesAndRebuild <==> axis
                    is CheckpointClustering
                &&& action is ArchiveManifestPointRowsAndRebuild <==> axis is RootBirthPartition
                    || axis is ContentBirth || axis is ImtBirthOrdinaryColumn
            }
            &&& action is ArchiveSingletonAndRestoreTarget ==> axis is Singleton || axis
                is MutableCursor
            &&& !(recovery is Retire) && !(recovery is BlockedUntilMigration)
        },
{
}

/// Contracts that have a treatment are never turned away as unsupported: a snapshot of
/// checkpoint partitions or clusterings, a rebuild of checkpoint partitions, of births or
/// of clusterings, a restore of a singleton or a cursor, operational state that is
/// preserved under the policy that says so, and a namespace that rotates. Where the
/// treatment deletes, the strategy that its axis is deleted by has to be offered, and the
/// blocker names that strategy. Any other contract is unsupported, and the blocker holds
/// it as it is registered.
pub proof fn law_supported_contracts_are_treated(
    key_domain: ScyllaKeyDomain,
    axis: VersionAxis,
    policy: RollbackPolicy,
    recovery: RecoveryAction,
    offered: Seq<DeleteStrategy>,
)
    ensures
        ({
            let resolved = resolved_action(key_domain, axis, policy, recovery, offered);
            let deletes = (recovery is ArchiveAndSnapshot && (axis is CheckpointPartition || axis
                is CheckpointClustering)) || (recovery is ArchiveAndRebuild && (axis
                is CheckpointPartition || axis is RootBirthPartition || axis is ContentBirth)) || (
            recovery is RebuildFromAuthoritative && (axis is CheckpointClustering || axis
                is ContentBirth || axis is ImtBirthOrdinaryColumn));
            let keeps = (recovery is RestoreFromTargetManifest && (axis is Singleton || axis
                is MutableCursor)) || (recovery is PreserveOperational && policy
                is PreserveOperational) || recovery is RotateNamespace;
            let needed = if axis is CheckpointPartition {
                DeleteStrategy::VersionPartition
            } else if axis is CheckpointClustering {
                DeleteStrategy::BoundedRange
            } else {
                DeleteStrategy::Point
            };
            &&& keeps ==> resolved is Ok
            &&& deletes ==> (resolved is Ok <==> offered.contains(needed))
            &&& deletes && resolved is Err ==> resolved->Err_0
                == (CoordinatorRollbackArchivePlanBlocker::RequiredDeleteStrategyMissing {
                key_domain,
                required: needed,
            })
            &&& !keeps && !deletes ==> resolved is Err && resolved->Err_0
                == (CoordinatorRollbackArchivePlanBlocker::UnsupportedDomainContract {
                key_domain,
                version_axis: axis,
                rollback_policy: policy,
                recovery_action: recovery,
            })
        }),
{
}

/// Every planned domain is one that is registered as ready and that the Coordinator
/// touches, on its own table. It is preserved only if its recovery action and rollback
/// policy both preserve, and archived along its own axis if its recovery archives.
pub proof fn law_planned_domains_are_treated_as_registered(
    domains: Seq<KeyDomainDescriptor>,
    tables: Seq<PhysicalDescriptor>,
    i: int,
)
    requires
        0 <= i < planned_domains(domains, tables).len(),
    ensures
        exists|k: int| #![trigger domains[k]]
            0 <= k < domains.len() && ({
                let planned = planned_domains(domains, tables)[i];
                let domain = domains[k];
                &&& domain.id == planned.key_domain
                &&& domain.physical_table == planned.physical_table
                &&& !(domain.coordinator_coverage is NotApplicable)
                &&& domain.readiness is Ready
                &&& planned.action is PreserveOperational <==> domain.recovery_action
                    is PreserveOperational
                &&& planned.action is PreserveOperational ==> domain.rollback_policy
                    is PreserveOperational
                &&& planned.action is ArchiveCheckpointPartitions <==> domain.recovery_action
                    is ArchiveAndSnapshot && domain.version_axis is CheckpointPartition
                &&& planned.action is ArchiveCheckpointClusteringRanges <==> domain.recovery_action
                    is ArchiveAndSnapshot && domain.version_axis is CheckpointClustering
                &&& planned.action is ArchiveCheckpointPartitionsAndRebuild
                    <==> domain.recovery_action is ArchiveAndRebuild && domain.version_axis
                    is CheckpointPartition
                &&& planned.action is ArchiveCheckpointClusteringRangesAndRebuild
                    <==> domain.recovery_action is RebuildFromAuthoritative && domain.version_axis
                    is CheckpointClustering
                &&& planned.action is ArchiveSingletonAndRestoreTarget <==> domain.recovery_action
                    is RestoreFromTargetManifest
                &&& planned.action is RotateOperationalNamespace <==> domain.recovery_action
                    is RotateNamespace
            }),
    decreases domains.len(),
{
    let before = domains.drop_last();
    if i < planned_domains(before, tables).len() {
        law_planned_domains_are_treated_as_registered(before, tables, i);
        let planned = planned_domains(domains, tables)[i];
        assert(planned == planned_domains(before, tables)[i]);
        let k = choose|k: int| #![trigger before[k]]
            0 <= k < before.len() && ({
                let domain = before[k];
                &&& domain.id == planned.key_domain
                &&& domain.physical_table == planned.physical_table
                &&& !(domain.coordinator_coverage is NotApplicable)
                &&& domain.readiness is Ready
                &&& planned.action is PreserveOperational <==> domain.recovery_action
                    is PreserveOperational
                &&& planned.action is PreserveOperational ==> domain.rollback_policy
                    is PreserveOperational
                &&& planned.action is ArchiveCheckpointPartitions <==> domain.recovery_action
                    is ArchiveAndSnapshot && domain.version_axis is CheckpointPartition
                &&& planned.action is ArchiveCheckpointClusteringRanges <==> domain.recovery_action
                    is ArchiveAndSnapshot && domain.version_axis is CheckpointClustering
                &&& planned.action is ArchiveCheckpointPartitionsAndRebuild
                    <==> domain.recovery_action is ArchiveAndRebuild && domain.version_axis
                    is CheckpointPartition
                &&& planned.action is ArchiveCheckpointClusteringRangesAndRebuild
                    <==> domain.recovery_action is RebuildFromAuthoritative && domain.version_axis
                    is CheckpointClustering
                &&& planned.action is ArchiveSingletonAndRestoreTarget <==> domain.recovery_action
                    is RestoreFromTargetManifest
                &&& planned.action is RotateOperationalNamespace <==> domain.recovery_action
                    is RotateNamespace
            });
        assert(domains[k] == before[k]);
    } else {
        assert(domains[domains.len() - 1] == domains.last());
    }
}

/// A domain that the Coordinator touches is blocked for its own registered blocker, as a
/// candidate for retirement, or for its contract, and each only as it is registered.
pub proof fn law_domains_are_blocked_as_registered(
    domains: Seq<KeyDomainDescriptor>,
    tables: Seq<PhysicalDescriptor>,
    i: int,
)
    requires
        0 <= i < domains.len(),
        !(domains[i].coordinator_coverage is NotApplicable),
    ensures
        domains[i].readiness matches RegistryReadiness::Blocked(blocker) ==> domain_blockers(
            domains,
            tables,
        ).contains(
            CoordinatorRollbackArchivePlanBlocker::RegistryBlocked {
                key_domain: domains[i].id,
                blocker,
            },
        ),
        domains[i].readiness is RetireCandidate ==> domain_blockers(domains, tables).contains(
            CoordinatorRollbackArchivePlanBlocker::RetireCandidate { key_domain: domains[i].id },
        ),
        domains[i].readiness is Ready ==> {
            ||| domain_blockers(domains, tables).contains(
                CoordinatorRollbackArchivePlanBlocker::UnsupportedDomainContract {
                    key_domain: domains[i].id,
                    version_axis: domains[i].version_axis,
                    rollback_policy: domains[i].rollback_policy,
                    recovery_action: domains[i].recovery_action,
                },
            )
            ||| exists|required: DeleteStrategy|
                domain_blockers(domains, tables).contains(
                    #[trigger] missing_strategy(domains[i].id, required),
                ) && !delete_candidates(tables, domains[i].physical_table).contains(required)
            ||| exists|k: int|
                0 <= k < planned_domains(domains, tables).len() && (#[trigger] planned_domains(
                    domains,
                    tables,
                )[k]).key_domain == domains[i].id && planned_domains(
                    domains,
                    tables,
                )[k].physical_table == domains[i].physical_table
        },
    decreases domains.len(),
{
    let before = domains.drop_last();
    let b0 = domain_blockers(before, tables);
    let b1 = domain_blockers(domains, tables);
    let p0 = planned_domains(before, tables);
    let p1 = planned_domains(domains, tables);
    assert forall|blocker: CoordinatorRollbackArchivePlanBlocker| #[trigger]
        b0.contains(blocker) implies b1.contains(blocker) by {
        let k = choose|k: int| 0 <= k < b0.len() && b0[k] == blocker;
        assert(b1[k] == blocker);
    }
    assert forall|k: int| 0 <= k < p0.len() implies #[trigger] p0[k] == p1[k] by {}
    if i < before.len() {
        law_domains_are_blocked_as_registered(before, tables, i);
        assert(before[i] == domains[i]);
        if exists|k: int|
            0 <= k < p0.len() && (#[trigger] p0[k]).key_domain == domains[i].id
                && p0[k].physical_table == domains[i].physical_table {
            let k = choose|k: int|
                0 <= k < p0.len() && (#[trigger] p0[k]).key_domain == domains[i].id
                    && p0[k].physical_table == domains[i].physical_table;
            assert(p1[k] == p0[k]);
        }
    } else {
        let domain = domains.last();
        match domain_outcome(domain, tables) {
            None => {},
            Some(Ok(plan)) => {
                assert(p1[p0.len() as int] == plan);
            },
            Some(Err(blocker)) => {
                assert(b1[b0.len() as int] == blocker);
                if let CoordinatorRollbackArchivePlanBlocker::RequiredDeleteStrategyMissing {
                    required,
                    ..
                } = blocker {
                    assert(blocker == missing_strategy(domain.id, required));
                }
            },
        }
    }
}

/// The blocker of a domain whose table does not offer a delete strategy.
pub open spec fn missing_strategy(
    key_domain: ScyllaKeyDomain,
    required: DeleteStrategy,
) -> CoordinatorRollbackArchivePlanBlocker {
    CoordinatorRollbackArchivePlanBlocker::RequiredDeleteStrategyMissing { key_domain, required }
}

/// A request is blocked for its mode exactly if it is not executed in place.
pub proof fn law_only_the_snapshot_mode_is_blocked(mode: RollbackExecutionMode)
    ensures
        mode_blockers(mode).len() == 0 <==> mode is InPlace,
{
}

/// The byte that stands for an action in every persisted encoding tells the action.
pub proof fn law_action_codes(action: CoordinatorRollbackArchiveAction)
    ensures
        action.spec_code() == 1 <==> action is ArchiveCheckpointPartitions,
        action.spec_code() == 2 <==> action is ArchiveCheckpointClusteringRanges,
        action.spec_code() == 3 <==> action is ArchiveManifestPointRowsAndRebuild,
        action.spec_code() == 4 <==> action is ArchiveCheckpointPartitionsAndRebuild,
        action.spec_code() == 5 <==> action is ArchiveCheckpointClusteringRangesAndRebuild,
        action.spec_code() == 6 <==> action is ArchiveSingletonAndRestoreTarget,
        action.spec_code() == 7 <==> action is PreserveOperational,
        action.spec_code() == 8 <==> action is RotateOperationalNamespace,
{
}

/// The bytes that stand for the parts of a blocker tell those parts.
pub proof fn law_blocker_tags(
    blocker: RegistryBlocker,
    strategy: DeleteStrategy,
    axis: VersionAxis,
    policy: RollbackPolicy,
    recovery: RecoveryAction,
)
    ensures
        spec_registry_blocker_tag(blocker) == 1 <==> blocker is MixedCheckpointPendingAxis,
        spec_registry_blocker_tag(blocker) == 2 <==> blocker is ReusableCheckpointHeightKey,
        spec_registry_blocker_tag(blocker) == 3 <==> blocker is PendingSuffixReadThrough,
        spec_delete_strategy_tag(strategy) == 1 <==> strategy is Point,
        spec_delete_strategy_tag(strategy) == 2 <==> strategy is VersionPartition,
        spec_delete_strategy_tag(strategy) == 3 <==> strategy is BoundedRange,
        spec_delete_strategy_tag(strategy) == 4 <==> strategy is SnapshotOnly,
        spec_version_axis_tag(axis) == 1 <==> axis is CheckpointPartition,
        spec_version_axis_tag(axis) == 2 <==> axis is CheckpointClustering,
        spec_version_axis_tag(axis) == 3 <==> axis is RootBirthPartition,
        spec_version_axis_tag(axis) == 4 <==> axis is Singleton,
        spec_version_axis_tag(axis) == 5 <==> axis is MonotonicCounter,
        spec_version_axis_tag(axis) == 6 <==> axis is ReusedCheckpointPartition,
        spec_version_axis_tag(axis) == 7 <==> axis is UniquePendingPartition,
        spec_version_axis_tag(axis) == 8 <==> axis is ProcUuidPartition,
        spec_version_axis_tag(axis) == 9 <==> axis is UniquePendingClustering,
        spec_version_axis_tag(axis) == 10 <==> axis is ContentBirth,
        spec_version_axis_tag(axis) == 11 <==> axis is MixedCheckpointPendingClustering,
        spec_version_axis_tag(axis) == 12 <==> axis is ImtBirthOrdinaryColumn,
        spec_version_axis_tag(axis) == 13 <==> axis is MutableCursor,
        spec_version_axis_tag(axis) == 14 <==> axis is NoActiveAxis,
        spec_rollback_policy_tag(policy) == 1 <==> policy is ArchiveVersioned,
        spec_rollback_policy_tag(policy) == 2 <==> policy is DerivedBirth,
        spec_rollback_policy_tag(policy) == 3 <==> policy is RestoreSingleton,
        spec_rollback_policy_tag(policy) == 4 <==> policy is PreserveOperational,
        spec_rollback_policy_tag(policy) == 5 <==> policy is ByKeyDomain,
        spec_rollback_policy_tag(policy) == 6 <==> policy is RetireUnused,
        spec_recovery_action_tag(recovery) == 1 <==> recovery is ArchiveAndSnapshot,
        spec_recovery_action_tag(recovery) == 2 <==> recovery is ArchiveAndRebuild,
        spec_recovery_action_tag(recovery) == 3 <==> recovery is RestoreFromTargetManifest,
        spec_recovery_action_tag(recovery) == 4 <==> recovery is PreserveOperational,
        spec_recovery_action_tag(recovery) == 5 <==> recovery is RotateNamespace,
        spec_recovery_action_tag(recovery) == 6 <==> recovery is RebuildFromAuthoritative,
        spec_recovery_action_tag(recovery) == 7 <==> recovery is Retire,
        spec_recovery_action_tag(recovery) == 8 <==> recovery is BlockedUntilMigration,
{
}

/// Every planned domain is recorded in the canonical bytes with its number, its table's
/// number and its action, in order, and every blocker in seven bytes of its own.
pub proof fn law_plan_bytes_record_every_domain(
    domains: Seq<CoordinatorRollbackArchiveDomainPlan>,
    domain: CoordinatorRollbackArchiveDomainPlan,
    blockers: Seq<CoordinatorRollbackArchivePlanBlocker>,
    blocker: CoordinatorRollbackArchivePlanBlocker,
)
    ensures
        domains_bytes(Seq::empty()) == Seq::<u8>::empty(),
        domains_bytes(domains.push(domain)) == domains_bytes(domains) + bytes::be16(
            domain.key_domain.spec_stable_id(),
        ) + bytes::be16(domain.physical_table.spec_stable_id()) + seq![domain.action.spec_code()],
        blockers_bytes(Seq::empty()) == Seq::<u8>::empty(),
        blockers_bytes(blockers.push(blocker)) == blockers_bytes(blockers) + blocker_bytes(blocker),
        blocker_bytes(blocker).len() == 7,
{
    bytes::lemma_be_lens();
    assert(domains.push(domain).drop_last() =~= domains);
    assert(blockers.push(blocker).drop_last() =~= blockers);
}

/// The record of a blocker tells what blocks, the domain that is blocked, and why: the
/// registered blocker, the whole contract, or the strategy that is missing.
pub proof fn law_blocker_record_layout(blocker: CoordinatorRollbackArchivePlanBlocker)
    ensures
        ({
            let record = blocker_bytes(blocker);
            &&& record[0] == 1 <==> blocker is SnapshotReplayNotSupported
            &&& record[0] == 2 <==> blocker is RegistryBlocked
            &&& record[0] == 3 <==> blocker is RetireCandidate
            &&& record[0] == 4 <==> blocker is UnsupportedDomainContract
            &&& record[0] == 5 <==> blocker is RequiredDeleteStrategyMissing
            &&& blocked_domain(blocker) matches Some(domain) ==> record.subrange(1, 3)
                == bytes::be16(domain.spec_stable_id())
            &&& blocker matches CoordinatorRollbackArchivePlanBlocker::RegistryBlocked {
                blocker: cause,
                ..
            } ==> record[3] == spec_registry_blocker_tag(cause)
            &&& blocker matches CoordinatorRollbackArchivePlanBlocker::UnsupportedDomainContract {
                version_axis,
                rollback_policy,
                recovery_action,
                ..
            } ==> record[3] == spec_version_axis_tag(version_axis) && record[4]
                == spec_rollback_policy_tag(rollback_policy) && record[5]
                == spec_recovery_action_tag(recovery_action)
            &&& blocker
                matches CoordinatorRollbackArchivePlanBlocker::RequiredDeleteStrategyMissing {
                required,
                ..
            } ==> record[3] == spec_delete_strategy_tag(required)
        }),
{
    bytes::lemma_be_lens();
    let record = blocker_bytes(blocker);
    if let Some(domain) = blocked_domain(blocker) {
        assert(record.subrange(1, 3) =~= bytes::be16(domain.spec_stable_id()));
    }
}

} // verus!
