//! Streaming verifier for the target anchor and the discarded suffix of a branch
//! catalog. Any failed row poisons the accumulator, so that no row can be skipped.

use std::collections::BTreeMap;

use vstd::prelude::*;

use crate::bytes;
use crate::bytes::{
    array_equal, copy_bytes, push_bytes, push_i64, push_len, push_u32, push_u64, text_bytes,
};
use crate::coordinator_rollback_archive_plan::CoordinatorRollbackArchivePlan;
use crate::coordinator_rollback_branch_catalog::{
    CoordinatorRollbackBranchCatalogError, CoordinatorRollbackMappingSourceKind, MappingBundle,
    MappingBundleModel, MappingColumn, MappingColumnModel, MappingSource, MappingSourceModel,
    VerifiedCoordinatorRollbackMappingBundle, VerifiedCoordinatorRollbackMappingColumn,
    VerifiedCoordinatorRollbackMappingSource,
};
use crate::coordinator_rollback_branch_catalog;
use crate::coordinator_rollback_branch_transition;
use crate::coordinator_rollback_branch_transition::{
    decode_transition, require_before_fence, verify_target_mapping,
    BranchExactCheckpointChainConfig, ChainPosition, LegacyMappingPair, PointValue,
    TargetForwardRow, TargetReverseRow, TransitionEvidence, VerifiedTransition,
};
use crate::coordinator_rollback_mapping_archive_row;
use crate::coordinator_rollback_mapping_archive_row::is_exact_archiving_head;
use crate::hash;
use crate::hash::sha256_digest;
use crate::model::{
    BranchPendingMapping, CanonicalChainRef, CheckpointRef, StoredHead, StoredHeadModel,
    UniquePendingId,
};

verus! {

pub const MAX_SUFFIX_ROWS: u64 = 1_048_576;

#[derive(Clone, Copy, Debug, PartialEq, Eq, Hash)]
pub struct CoordinatorRollbackBranchCatalogDigest(pub [u8; 32]);

impl CoordinatorRollbackBranchCatalogDigest {
    pub fn as_bytes(self) -> (bytes: [u8; 32])
        ensures
            bytes == self.0,
    {
        self.0
    }
}

/// Read-only catalog evidence.
#[derive(Clone, Copy, Debug, PartialEq, Eq)]
pub struct CoordinatorRollbackBranchCatalogSummary {
    pub catalog_fingerprint: [u8; 32],
    pub source_chain_epoch: u64,
    pub suffix_rows: u64,
    pub catalog_digest: CoordinatorRollbackBranchCatalogDigest,
    pub source_digest: [u8; 32],
}

impl CoordinatorRollbackBranchCatalogSummary {
    pub fn catalog_fingerprint(self) -> (fingerprint: [u8; 32])
        ensures
            fingerprint == self.catalog_fingerprint,
    {
        self.catalog_fingerprint
    }

    pub fn source_chain_epoch(self) -> (epoch: u64)
        ensures
            epoch == self.source_chain_epoch,
    {
        self.source_chain_epoch
    }

    pub fn suffix_rows(self) -> (rows: u64)
        ensures
            rows == self.suffix_rows,
    {
        self.suffix_rows
    }

    pub fn catalog_digest(self) -> (digest: CoordinatorRollbackBranchCatalogDigest)
        ensures
            digest == self.catalog_digest,
    {
        self.catalog_digest
    }

    pub fn source_digest(self) -> (digest: [u8; 32])
        ensures
            digest == self.source_digest,
    {
        self.source_digest
    }

    pub fn same(&self, other: &Self) -> (same: bool)
        ensures
            same == (*self == *other),
    {
        array_equal::<32>(&self.catalog_fingerprint, &other.catalog_fingerprint)
            && self.source_chain_epoch == other.source_chain_epoch && self.suffix_rows
            == other.suffix_rows && array_equal::<32>(
            &self.catalog_digest.0,
            &other.catalog_digest.0,
        ) && array_equal::<32>(&self.source_digest, &other.source_digest)
    }
}

/// The map from each pending identity of a suffix to its checkpoint. `pendings[i]`
/// belongs to the checkpoint `first + i`.
pub open spec fn pending_index(pendings: Seq<u64>, first: int) -> Map<u64, u64>
    decreases pendings.len(),
{
    if pendings.len() == 0 {
        Map::empty()
    } else {
        pending_index(pendings.drop_last(), first).insert(
            pendings.last(),
            (first + pendings.len() - 1) as u64,
        )
    }
}

proof fn lemma_pending_index(pendings: Seq<u64>, first: int)
    ensures
        forall|pending: u64|
            pending_index(pendings, first).contains_key(pending) <==> #[trigger] pendings.contains(
                pending,
            ),
        pendings.no_duplicates() ==> forall|i: int|
            0 <= i < pendings.len() ==> pending_index(pendings, first)[#[trigger] pendings[i]] == (
            first + i) as u64,
    decreases pendings.len(),
{
    if pendings.len() > 0 {
        let front = pendings.drop_last();
        lemma_pending_index(front, first);
        assert forall|pending: u64|
            pending_index(pendings, first).contains_key(pending) <==> #[trigger] pendings.contains(
                pending,
            ) by {
            if pendings.contains(pending) {
                let i = choose|i: int| 0 <= i < pendings.len() && pendings[i] == pending;
                if i < front.len() {
                    assert(front[i] == pending);
                    assert(front.contains(pending));
                }
            }
            if front.contains(pending) {
                let i = choose|i: int| 0 <= i < front.len() && front[i] == pending;
                assert(pendings[i] == pending);
            }
            assert(pendings[pendings.len() - 1] == pendings.last());
        }
        if pendings.no_duplicates() {
            assert(front.no_duplicates());
            assert forall|i: int| 0 <= i < pendings.len() implies pending_index(
                pendings,
                first,
            )[#[trigger] pendings[i]] == (first + i) as u64 by {
                if i < front.len() {
                    assert(front[i] == pendings[i]);
                    assert(pendings[i] != pendings[pendings.len() - 1]);
                }
            }
        }
    }
}

/// The pending coordinates of a discarded suffix, selected from storage.
#[derive(Debug, PartialEq, Eq)]
pub struct VerifiedCoordinatorRollbackSuffixSelection {
    pub summary: CoordinatorRollbackBranchCatalogSummary,
    pub first_checkpoint: u64,
    /// The pending identities in the order of their checkpoints.
    pub pendings: Vec<u64>,
    pub pending_to_checkpoint: BTreeMap<u64, u64>,
}

impl VerifiedCoordinatorRollbackSuffixSelection {
    /// No pending identity belongs to two checkpoints, and the index holds exactly
    /// the identities in their order.
    pub open spec fn wf(&self) -> bool {
        &&& self.pendings@.no_duplicates()
        &&& self.first_checkpoint + self.pendings@.len() <= u64::MAX + 1
        &&& self.pending_to_checkpoint@ == pending_index(
            self.pendings@,
            self.first_checkpoint as int,
        )
    }

    pub fn summary(&self) -> (summary: CoordinatorRollbackBranchCatalogSummary)
        ensures
            summary == self.summary,
    {
        self.summary
    }

    /// The checkpoint of a pending identity of the suffix.
    pub fn checkpoint_for_pending(&self, pending: UniquePendingId) -> (checkpoint: Option<u64>)
        requires
            self.wf(),
        ensures
            match checkpoint {
                Some(checkpoint) => exists|i: int|
                    0 <= i < self.pendings@.len() && #[trigger] self.pendings@[i] == pending.value
                        && checkpoint == self.first_checkpoint + i,
                None => !self.pendings@.contains(pending.value),
            },
    {
        proof {
            lemma_pending_index(self.pendings@, self.first_checkpoint as int);
            assert(self.pendings@.contains(pending.value) || !self.pendings@.contains(
                pending.value,
            ));
        }
        match self.pending_to_checkpoint.get(&pending.value) {
            Some(checkpoint) => {
                proof {
                    let found = self.pendings@;
                    assert(found.contains(pending.value));
                    let i = choose|i: int| 0 <= i < found.len() && found[i] == pending.value;
                    assert(pending_index(found, self.first_checkpoint as int)[found[i]] == (
                    self.first_checkpoint + i) as u64);
                }
                Some(*checkpoint)
            },
            None => None,
        }
    }

    pub fn pending_rows(&self) -> (rows: usize)
        ensures
            rows == self.pendings@.len(),
    {
        self.pendings.len()
    }
}

/// What an accumulator has seen.
#[verifier::ext_equal]
pub struct BranchCatalogModel {
    pub position: ChainPosition,
    pub catalog_fingerprint: [u8; 32],
    pub rollback_epoch: u64,
    pub target: CheckpointRef,
    pub requested_head: CheckpointRef,
    pub orphan_write_max_us: i64,
    pub next_checkpoint: u64,
    pub pendings: Seq<u64>,
    pub suffix_rows: u64,
    pub catalog_preimage: Seq<u8>,
    pub source_preimage: Seq<u8>,
    pub poisoned: bool,
}

impl BranchCatalogModel {
    /// The anchor comes first, every checkpoint behind it follows without a gap, and
    /// no pending identity was mapped twice.
    pub open spec fn wf(self) -> bool {
        &&& self.suffix_rows == self.pendings.len()
        &&& self.pendings.no_duplicates()
        &&& self.position.previous_hash is Some == self.position.previous_root_leaf is Some
        &&& self.target.height < self.requested_head.height
        &&& self.position.source_epoch + 1 == self.rollback_epoch
        &&& if self.position.previous_hash is Some {
            self.next_checkpoint == self.target.height + 1 + self.pendings.len()
        } else {
            self.next_checkpoint == self.target.height && self.pendings.len() == 0
        }
    }

    pub open spec fn poison(self) -> BranchCatalogModel {
        BranchCatalogModel { poisoned: true, ..self }
    }
}

/// The empty catalog of a plan under an archiving head, or why there is none.
pub open spec fn new_catalog(
    head: StoredHeadModel,
    plan: &CoordinatorRollbackArchivePlan,
    config: BranchExactCheckpointChainConfig,
    catalog_fingerprint: [u8; 32],
) -> Result<BranchCatalogModel, CoordinatorRollbackBranchCatalogError> {
    let target = plan.request.target;
    let requested = plan.request.requested_head;
    let rows = requested.height - target.height;
    let chain_id = head.canonical.network.chain_id;
    let rollback_epoch = head.canonical.chain_epoch;
    if !coordinator_rollback_mapping_archive_row::exact_archiving_head(
        head.control,
        head.canonical.checkpoint,
        plan,
    ) {
        Err(CoordinatorRollbackBranchCatalogError::NotExactArchivingHead)
    } else if rollback_epoch == 0 {
        Err(CoordinatorRollbackBranchCatalogError::MissingSourceEpoch)
    } else if rows < 0 {
        Err(CoordinatorRollbackBranchCatalogError::InvalidCheckpointRange)
    } else if rows == 0 || rows > MAX_SUFFIX_ROWS {
        Err(
            CoordinatorRollbackBranchCatalogError::SuffixRowLimit {
                actual: rows as u64,
                max: MAX_SUFFIX_ROWS,
            },
        )
    } else {
        let source_epoch = (rollback_epoch - 1) as u64;
        Ok(
            BranchCatalogModel {
                position: ChainPosition {
                    config,
                    network: head.canonical.network,
                    source_epoch,
                    previous_hash: None,
                    previous_root_leaf: None,
                },
                catalog_fingerprint,
                rollback_epoch,
                target,
                requested_head: requested,
                orphan_write_max_us: plan.request.fence.orphan_write_max_us,
                next_checkpoint: target.height,
                pendings: Seq::empty(),
                suffix_rows: 0,
                catalog_preimage: bytes::text("psy/coordinator-rollback-branch-catalog/v1"@)
                    + catalog_fingerprint@ + plan.digest.0@ + bytes::be32(chain_id) + bytes::be64(
                    source_epoch,
                ) + bytes::be64(target.height) + target.hash@ + bytes::be64(requested.height)
                    + requested.hash@,
                source_preimage: bytes::text("psy/coordinator-rollback-branch-catalog-source/v1"@)
                    + catalog_fingerprint@ + plan.digest.0@ + bytes::be32(chain_id) + bytes::be64(
                    rollback_epoch,
                ) + bytes::be64(source_epoch),
                poisoned: false,
            },
        )
    }
}

/// A transition row as the source digest sees it.
pub open spec fn transition_bytes(checkpoint_id: u64, transition: PointValue<Seq<u8>>) -> Seq<u8> {
    bytes::be64(checkpoint_id) + bytes::be_i64(transition.writetime_us) + bytes::be_len(
        transition.value.len(),
    ) + transition.value
}

/// A catalog after its anchor, or why the anchor is refused.
pub open spec fn with_anchor(
    catalog: BranchCatalogModel,
    checkpoint_id: u64,
    transition: PointValue<Seq<u8>>,
    evidence: TransitionEvidence<Seq<u8>>,
) -> Result<BranchCatalogModel, CoordinatorRollbackBranchCatalogError> {
    if catalog.poisoned {
        Err(CoordinatorRollbackBranchCatalogError::Poisoned)
    } else if checkpoint_id != catalog.target.height || checkpoint_id != catalog.next_checkpoint {
        Err(
            CoordinatorRollbackBranchCatalogError::CheckpointGap {
                expected: catalog.next_checkpoint,
                actual: checkpoint_id,
            },
        )
    } else if transition.writetime_us > catalog.orphan_write_max_us {
        Err(
            CoordinatorRollbackBranchCatalogError::WriteAfterFence {
                writetime_us: transition.writetime_us,
                orphan_write_max_us: catalog.orphan_write_max_us,
            },
        )
    } else {
        match coordinator_rollback_branch_transition::decoded_transition(
            catalog.position,
            checkpoint_id,
            transition.value,
            evidence,
            true,
        ) {
            Err(error) => Err(error),
            Ok(verified) => if verified.canonical.checkpoint != catalog.target {
                Err(CoordinatorRollbackBranchCatalogError::TargetAnchorMismatch)
            } else if catalog.next_checkpoint == u64::MAX {
                Err(CoordinatorRollbackBranchCatalogError::CheckpointOverflow)
            } else {
                Ok(
                    BranchCatalogModel {
                        position: ChainPosition {
                            previous_hash: Some(verified.checkpoint_hash),
                            previous_root_leaf: Some(verified.root_leaf),
                            ..catalog.position
                        },
                        source_preimage: catalog.source_preimage + transition_bytes(
                            checkpoint_id,
                            transition,
                        ),
                        next_checkpoint: (catalog.next_checkpoint + 1) as u64,
                        ..catalog
                    },
                )
            },
        }
    }
}

pub open spec fn forward_row_bytes(row: TargetForwardRow) -> Seq<u8> {
    bytes::be64(row.pending_id.value) + row.mapping_digest@ + bytes::be_i64(
        row.pending_writetime_us,
    ) + bytes::be_i64(row.digest_writetime_us)
}

pub open spec fn reverse_row_bytes(row: TargetReverseRow<Seq<u8>>) -> Seq<u8> {
    bytes::be_len(row.canonical_ref.len()) + row.canonical_ref + row.mapping_digest@
        + bytes::be_i64(row.canonical_writetime_us) + bytes::be_i64(row.digest_writetime_us)
}

pub open spec fn forward_rows_bytes(rows: Seq<TargetForwardRow>) -> Seq<u8>
    decreases rows.len(),
{
    if rows.len() == 0 {
        Seq::empty()
    } else {
        forward_rows_bytes(rows.drop_last()) + forward_row_bytes(rows.last())
    }
}

pub open spec fn reverse_rows_bytes(rows: Seq<TargetReverseRow<Seq<u8>>>) -> Seq<u8>
    decreases rows.len(),
{
    if rows.len() == 0 {
        Seq::empty()
    } else {
        reverse_rows_bytes(rows.drop_last()) + reverse_row_bytes(rows.last())
    }
}

/// The branch-exact rows as the source digest sees them.
pub open spec fn target_rows_bytes(
    forward: Seq<TargetForwardRow>,
    reverse: Seq<TargetReverseRow<Seq<u8>>>,
) -> Seq<u8> {
    bytes::be_len(forward.len()) + forward_rows_bytes(forward) + bytes::be_len(reverse.len())
        + reverse_rows_bytes(reverse)
}

fn hash_target_source(
    preimage: &mut Vec<u8>,
    forward: &[TargetForwardRow],
    reverse: &[TargetReverseRow<Vec<u8>>],
)
    ensures
        final(preimage)@ == old(preimage)@ + target_rows_bytes(
            forward@,
            coordinator_rollback_branch_transition::reverse_models(reverse@),
        ),
{
    let ghost before = preimage@;
    push_len(preimage, forward.len());
    let ghost counted = preimage@;
    let mut i: usize = 0;
    assert(counted + forward_rows_bytes(forward@.subrange(0, 0)) =~= counted);
    while i < forward.len()
        invariant
            i <= forward@.len(),
            preimage@ == counted + forward_rows_bytes(forward@.subrange(0, i as int)),
        decreases forward@.len() - i,
    {
        let ghost so_far = forward@.subrange(0, i as int);
        let ghost at = preimage@;
        let row = &forward[i];
        push_u64(preimage, row.pending_id.value);
        push_bytes(preimage, &row.mapping_digest);
        push_i64(preimage, row.pending_writetime_us);
        push_i64(preimage, row.digest_writetime_us);
        proof {
            let next = forward@.subrange(0, i + 1);
            assert(next.drop_last() =~= so_far);
            assert(next.last() == *row);
            assert(preimage@ =~= at + forward_row_bytes(*row));
            assert(preimage@ =~= counted + forward_rows_bytes(next));
        }
        i += 1;
    }
    assert(forward@.subrange(0, forward@.len() as int) =~= forward@);
    push_len(preimage, reverse.len());
    let ghost middle = preimage@;
    let ghost models = coordinator_rollback_branch_transition::reverse_models(reverse@);
    let mut j: usize = 0;
    assert(middle + reverse_rows_bytes(models.subrange(0, 0)) =~= middle);
    while j < reverse.len()
        invariant
            j <= reverse@.len(),
            models == coordinator_rollback_branch_transition::reverse_models(reverse@),
            preimage@ == middle + reverse_rows_bytes(models.subrange(0, j as int)),
        decreases reverse@.len() - j,
    {
        let ghost so_far = models.subrange(0, j as int);
        let ghost at = preimage@;
        let row = &reverse[j];
        push_len(preimage, row.canonical_ref.len());
        push_bytes(preimage, &row.canonical_ref);
        push_bytes(preimage, &row.mapping_digest);
        push_i64(preimage, row.canonical_writetime_us);
        push_i64(preimage, row.digest_writetime_us);
        proof {
            let next = models.subrange(0, j + 1);
            assert(next.drop_last() =~= so_far);
            assert(next.last() == row@);
            assert(preimage@ =~= at + reverse_row_bytes(row@));
            assert(preimage@ =~= middle + reverse_rows_bytes(next));
        }
        j += 1;
    }
    assert(models.subrange(0, models.len() as int) =~= models);
    assert(preimage@ =~= before + target_rows_bytes(forward@, models));
}

pub open spec fn mapping_column(column_id: u8, value: Seq<u8>, writetime_us: i64) -> MappingColumnModel {
    VerifiedCoordinatorRollbackMappingColumn { column_id, value, writetime_us }
}

pub open spec fn mapping_source(
    kind: CoordinatorRollbackMappingSourceKind,
    primary_key: Seq<u8>,
    columns: Seq<MappingColumnModel>,
) -> MappingSourceModel {
    VerifiedCoordinatorRollbackMappingSource { kind, primary_key, columns }
}

/// The four physical rows that map one checkpoint and one pending identity to each
/// other.
pub open spec fn mapping_sources(
    checkpoint_id: u64,
    legacy: LegacyMappingPair,
    mapping: BranchPendingMapping,
    forward: TargetForwardRow,
    reverse: TargetReverseRow<Seq<u8>>,
) -> Seq<MappingSourceModel> {
    let checkpoint = bytes::be64(checkpoint_id);
    let pending = bytes::be64(legacy.pending_id.value);
    seq![
        mapping_source(
            CoordinatorRollbackMappingSourceKind::LegacyCheckpointToPending,
            checkpoint,
            seq![mapping_column(1, pending, legacy.forward_writetime_us)],
        ),
        mapping_source(
            CoordinatorRollbackMappingSourceKind::LegacyPendingToCheckpoint,
            pending,
            seq![mapping_column(1, checkpoint, legacy.reverse_writetime_us)],
        ),
        mapping_source(
            CoordinatorRollbackMappingSourceKind::BranchExactCanonicalToPending,
            mapping.canonical.canonical@,
            seq![
                mapping_column(1, pending, forward.pending_writetime_us),
                mapping_column(2, mapping.digest@, forward.digest_writetime_us),
            ],
        ),
        mapping_source(
            CoordinatorRollbackMappingSourceKind::BranchExactPendingToCanonical,
            pending,
            seq![
                mapping_column(1, reverse.canonical_ref, reverse.canonical_writetime_us),
                mapping_column(2, mapping.digest@, reverse.digest_writetime_us),
            ],
        ),
    ]
}

/// The write of a suffix row that is later than the fence allows, first one first.
pub open spec fn late_suffix_write(
    transition_writetime_us: i64,
    legacy: LegacyMappingPair,
    orphan_write_max_us: i64,
) -> Option<i64> {
    if transition_writetime_us > orphan_write_max_us {
        Some(transition_writetime_us)
    } else if legacy.forward_writetime_us > orphan_write_max_us {
        Some(legacy.forward_writetime_us)
    } else if legacy.reverse_writetime_us > orphan_write_max_us {
        Some(legacy.reverse_writetime_us)
    } else {
        None
    }
}

/// A catalog after one checkpoint of the suffix, with the mapping bundle of that
/// checkpoint; or why the checkpoint is refused. `mapping_digest` is the digest that
/// commits the chain reference and the pending identity.
pub open spec fn with_suffix(
    catalog: BranchCatalogModel,
    checkpoint_id: u64,
    transition: PointValue<Seq<u8>>,
    evidence: TransitionEvidence<Seq<u8>>,
    mapping_digest: [u8; 32],
    legacy: LegacyMappingPair,
    forward: Seq<TargetForwardRow>,
    reverse: Seq<TargetReverseRow<Seq<u8>>>,
) -> Result<(BranchCatalogModel, MappingBundleModel), CoordinatorRollbackBranchCatalogError> {
    let late = late_suffix_write(transition.writetime_us, legacy, catalog.orphan_write_max_us);
    if catalog.poisoned {
        Err(CoordinatorRollbackBranchCatalogError::Poisoned)
    } else if checkpoint_id != catalog.next_checkpoint || checkpoint_id
        > catalog.requested_head.height {
        Err(
            CoordinatorRollbackBranchCatalogError::CheckpointGap {
                expected: catalog.next_checkpoint,
                actual: checkpoint_id,
            },
        )
    } else if late is Some {
        Err(
            CoordinatorRollbackBranchCatalogError::WriteAfterFence {
                writetime_us: late->0,
                orphan_write_max_us: catalog.orphan_write_max_us,
            },
        )
    } else {
        match coordinator_rollback_branch_transition::decoded_transition(
            catalog.position,
            checkpoint_id,
            transition.value,
            evidence,
            false,
        ) {
            Err(error) => Err(error),
            Ok(verified) => {
                let mapping = BranchPendingMapping {
                    canonical: verified.canonical,
                    pending: legacy.pending_id,
                    digest: mapping_digest,
                };
                let checked = coordinator_rollback_branch_transition::checked_target_mapping(
                    mapping,
                    forward,
                    reverse,
                    catalog.orphan_write_max_us,
                );
                if catalog.pendings.contains(legacy.pending_id.value) {
                    Err(
                        CoordinatorRollbackBranchCatalogError::PendingMappedTwice(
                            legacy.pending_id.value,
                        ),
                    )
                } else if checked is Err {
                    Err(checked->Err_0)
                } else if catalog.suffix_rows == u64::MAX || catalog.next_checkpoint == u64::MAX {
                    Err(CoordinatorRollbackBranchCatalogError::CheckpointOverflow)
                } else {
                    Ok(
                        (
                            BranchCatalogModel {
                                position: ChainPosition {
                                    previous_hash: Some(verified.checkpoint_hash),
                                    previous_root_leaf: Some(verified.root_leaf),
                                    ..catalog.position
                                },
                                pendings: catalog.pendings.push(legacy.pending_id.value),
                                suffix_rows: (catalog.suffix_rows + 1) as u64,
                                next_checkpoint: (catalog.next_checkpoint + 1) as u64,
                                catalog_preimage: catalog.catalog_preimage + bytes::be64(
                                    checkpoint_id,
                                ) + mapping.canonical.canonical@ + bytes::be64(
                                    mapping.pending.value,
                                ) + mapping.digest@,
                                source_preimage: catalog.source_preimage + target_rows_bytes(
                                    forward,
                                    reverse,
                                ) + transition_bytes(checkpoint_id, transition) + bytes::be64(
                                    mapping.pending.value,
                                ) + bytes::be_i64(legacy.forward_writetime_us) + bytes::be_i64(
                                    legacy.reverse_writetime_us,
                                ),
                                ..catalog
                            },
                            VerifiedCoordinatorRollbackMappingBundle {
                                catalog_fingerprint: catalog.catalog_fingerprint,
                                network: catalog.position.network,
                                rollback_epoch: catalog.rollback_epoch,
                                source_epoch: catalog.position.source_epoch,
                                checkpoint: checkpoint_id,
                                pending: legacy.pending_id,
                                sources: mapping_sources(
                                    checkpoint_id,
                                    legacy,
                                    mapping,
                                    forward[0],
                                    reverse[0],
                                ),
                            },
                        ),
                    )
                }
            },
        }
    }
}

/// The summary of a complete catalog, or what it lacks.
pub open spec fn finished_catalog(catalog: BranchCatalogModel) -> Result<
    CoordinatorRollbackBranchCatalogSummary,
    CoordinatorRollbackBranchCatalogError,
> {
    let expected = catalog.requested_head.height + 1;
    if catalog.poisoned {
        Err(CoordinatorRollbackBranchCatalogError::Poisoned)
    } else if expected > u64::MAX {
        Err(CoordinatorRollbackBranchCatalogError::CheckpointOverflow)
    } else if catalog.next_checkpoint != expected {
        Err(
            CoordinatorRollbackBranchCatalogError::IncompleteCatalog {
                expected: expected as u64,
                actual: catalog.next_checkpoint,
            },
        )
    } else if catalog.suffix_rows != catalog.pendings.len() {
        Err(
            CoordinatorRollbackBranchCatalogError::IncompleteCatalog {
                expected: catalog.suffix_rows,
                actual: catalog.pendings.len() as u64,
            },
        )
    } else {
        match catalog.position.previous_hash {
            None => Err(
                CoordinatorRollbackBranchCatalogError::IncompleteCatalog {
                    expected: expected as u64,
                    actual: 0,
                },
            ),
            Some(last) => if last != catalog.requested_head.hash {
                Err(CoordinatorRollbackBranchCatalogError::RecoveredHeadMismatch)
            } else {
                Ok(
                    CoordinatorRollbackBranchCatalogSummary {
                        catalog_fingerprint: catalog.catalog_fingerprint,
                        source_chain_epoch: catalog.position.source_epoch,
                        suffix_rows: catalog.suffix_rows,
                        catalog_digest: CoordinatorRollbackBranchCatalogDigest(
                            hash::sha256(
                                catalog.catalog_preimage + bytes::be64(catalog.suffix_rows),
                            ),
                        ),
                        source_digest: hash::sha256(
                            catalog.source_preimage + bytes::be64(catalog.suffix_rows),
                        ),
                    },
                )
            },
        }
    }
}

fn be64_bytes(value: u64) -> (bytes: Vec<u8>)
    ensures
        bytes@ == bytes::be64(value),
{
    let mut out: Vec<u8> = Vec::new();
    push_u64(&mut out, value);
    assert(out@ =~= bytes::be64(value));
    out
}

fn column(column_id: u8, value: Vec<u8>, writetime_us: i64) -> (column: MappingColumn)
    ensures
        column@ == mapping_column(column_id, value@, writetime_us),
{
    VerifiedCoordinatorRollbackMappingColumn { column_id, value, writetime_us }
}

fn build_sources(
    checkpoint_id: u64,
    legacy: &LegacyMappingPair,
    mapping: &BranchPendingMapping,
    forward: &TargetForwardRow,
    reverse: &TargetReverseRow<Vec<u8>>,
) -> (sources: Vec<MappingSource>)
    ensures
        coordinator_rollback_branch_catalog::source_models(sources@) == mapping_sources(
            checkpoint_id,
            *legacy,
            *mapping,
            *forward,
            reverse@,
        ),
{
    let mut to_pending: Vec<MappingColumn> = Vec::new();
    to_pending.push(column(1, be64_bytes(legacy.pending_id.value), legacy.forward_writetime_us));
    let mut to_checkpoint: Vec<MappingColumn> = Vec::new();
    to_checkpoint.push(column(1, be64_bytes(checkpoint_id), legacy.reverse_writetime_us));
    let mut exact_pending: Vec<MappingColumn> = Vec::new();
    exact_pending.push(
        column(1, be64_bytes(legacy.pending_id.value), forward.pending_writetime_us),
    );
    exact_pending.push(column(2, copy_bytes(&mapping.digest), forward.digest_writetime_us));
    let mut exact_canonical: Vec<MappingColumn> = Vec::new();
    exact_canonical.push(
        column(1, copy_bytes(&reverse.canonical_ref), reverse.canonical_writetime_us),
    );
    exact_canonical.push(column(2, copy_bytes(&mapping.digest), reverse.digest_writetime_us));
    let mut sources: Vec<MappingSource> = Vec::new();
    sources.push(
        VerifiedCoordinatorRollbackMappingSource {
            kind: CoordinatorRollbackMappingSourceKind::LegacyCheckpointToPending,
            primary_key: be64_bytes(checkpoint_id),
            columns: to_pending,
        },
    );
    sources.push(
        VerifiedCoordinatorRollbackMappingSource {
            kind: CoordinatorRollbackMappingSourceKind::LegacyPendingToCheckpoint,
            primary_key: be64_bytes(legacy.pending_id.value),
            columns: to_checkpoint,
        },
    );
    sources.push(
        VerifiedCoordinatorRollbackMappingSource {
            kind: CoordinatorRollbackMappingSourceKind::BranchExactCanonicalToPending,
            primary_key: copy_bytes(&mapping.canonical.canonical),
            columns: exact_pending,
        },
    );
    sources.push(
        VerifiedCoordinatorRollbackMappingSource {
            kind: CoordinatorRollbackMappingSourceKind::BranchExactPendingToCanonical,
            primary_key: be64_bytes(legacy.pending_id.value),
            columns: exact_canonical,
        },
    );
    proof {
        let models = coordinator_rollback_branch_catalog::source_models(sources@);
        let expected = mapping_sources(checkpoint_id, *legacy, *mapping, *forward, reverse@);
        assert(models[0].columns =~= expected[0].columns);
        assert(models[1].columns =~= expected[1].columns);
        assert(models[2].columns =~= expected[2].columns);
        assert(models[3].columns =~= expected[3].columns);
        assert(models =~= expected);
    }
    sources
}

/// Streaming verifier for the target anchor and the discarded suffix.
pub struct CoordinatorRollbackBranchCatalogAccumulator {
    pub position: ChainPosition,
    pub catalog_fingerprint: [u8; 32],
    pub rollback_epoch: u64,
    pub target: CheckpointRef,
    pub requested_head: CheckpointRef,
    pub orphan_write_max_us: i64,
    pub next_checkpoint: u64,
    pub pendings: Vec<u64>,
    pub pending_to_checkpoint: BTreeMap<u64, u64>,
    pub suffix_rows: u64,
    pub catalog_preimage: Vec<u8>,
    pub source_preimage: Vec<u8>,
    pub poisoned: bool,
}

impl View for CoordinatorRollbackBranchCatalogAccumulator {
    type V = BranchCatalogModel;

    open spec fn view(&self) -> BranchCatalogModel {
        BranchCatalogModel {
            position: self.position,
            catalog_fingerprint: self.catalog_fingerprint,
            rollback_epoch: self.rollback_epoch,
            target: self.target,
            requested_head: self.requested_head,
            orphan_write_max_us: self.orphan_write_max_us,
            next_checkpoint: self.next_checkpoint,
            pendings: self.pendings@,
            suffix_rows: self.suffix_rows,
            catalog_preimage: self.catalog_preimage@,
            source_preimage: self.source_preimage@,
            poisoned: self.poisoned,
        }
    }
}

impl CoordinatorRollbackBranchCatalogAccumulator {
    /// The catalog has come to where it says, and its index holds exactly its
    /// pending identities.
    pub open spec fn wf(&self) -> bool {
        &&& self@.wf()
        &&& self.pending_to_checkpoint@ == pending_index(self.pendings@, self.target.height + 1)
    }

    pub fn try_new(
        expected_head: &StoredHead,
        plan: &CoordinatorRollbackArchivePlan,
        config: BranchExactCheckpointChainConfig,
        catalog_fingerprint: [u8; 32],
    ) -> (result: Result<Self, CoordinatorRollbackBranchCatalogError>)
        ensures
            match (result, new_catalog(expected_head@, plan, config, catalog_fingerprint)) {
                (Ok(catalog), Ok(model)) => catalog@ == model && catalog.wf(),
                (Err(error), Err(expected)) => error == expected,
                _ => false,
            },
    {
        if !is_exact_archiving_head(expected_head, plan) {
            return Err(CoordinatorRollbackBranchCatalogError::NotExactArchivingHead);
        }
        let rollback_epoch: u64 = expected_head.canonical.chain_epoch;
        if rollback_epoch == 0 {
            return Err(CoordinatorRollbackBranchCatalogError::MissingSourceEpoch);
        }
        let source_epoch: u64 = rollback_epoch - 1;
        let target = plan.request.target;
        let requested_head = plan.request.requested_head;
        if requested_head.height < target.height {
            return Err(CoordinatorRollbackBranchCatalogError::InvalidCheckpointRange);
        }
        let rows: u64 = requested_head.height - target.height;
        if rows == 0 || rows > MAX_SUFFIX_ROWS {
            return Err(
                CoordinatorRollbackBranchCatalogError::SuffixRowLimit {
                    actual: rows,
                    max: MAX_SUFFIX_ROWS,
                },
            );
        }
        let chain_id: u32 = expected_head.canonical.network.chain_id;
        let mut catalog_preimage: Vec<u8> = text_bytes(
            "psy/coordinator-rollback-branch-catalog/v1",
        );
        push_bytes(&mut catalog_preimage, &catalog_fingerprint);
        push_bytes(&mut catalog_preimage, &plan.digest.0);
        push_u32(&mut catalog_preimage, chain_id);
        push_u64(&mut catalog_preimage, source_epoch);
        push_u64(&mut catalog_preimage, target.height);
        push_bytes(&mut catalog_preimage, &target.hash);
        push_u64(&mut catalog_preimage, requested_head.height);
        push_bytes(&mut catalog_preimage, &requested_head.hash);
        let mut source_preimage: Vec<u8> = text_bytes(
            "psy/coordinator-rollback-branch-catalog-source/v1",
        );
        push_bytes(&mut source_preimage, &catalog_fingerprint);
        push_bytes(&mut source_preimage, &plan.digest.0);
        push_u32(&mut source_preimage, chain_id);
        push_u64(&mut source_preimage, rollback_epoch);
        push_u64(&mut source_preimage, source_epoch);
        let catalog = CoordinatorRollbackBranchCatalogAccumulator {
            position: ChainPosition {
                config,
                network: expected_head.canonical.network,
                source_epoch,
                previous_hash: None,
                previous_root_leaf: None,
            },
            catalog_fingerprint,
            rollback_epoch,
            target,
            requested_head,
            orphan_write_max_us: plan.request.fence.orphan_write_max_us,
            next_checkpoint: target.height,
            pendings: Vec::new(),
            pending_to_checkpoint: BTreeMap::new(),
            suffix_rows: 0,
            catalog_preimage,
            source_preimage,
            poisoned: false,
        };
        assert(catalog.pendings@ =~= Seq::<u64>::empty());
        Ok(catalog)
    }

    fn check_anchor(
        &self,
        checkpoint_id: u64,
        transition: &PointValue<Vec<u8>>,
        evidence: &TransitionEvidence<Vec<u8>>,
    ) -> (result: Result<VerifiedTransition, CoordinatorRollbackBranchCatalogError>)
        requires
            !self.poisoned,
        ensures
            match (result, with_anchor(self@, checkpoint_id, transition@, evidence@)) {
                (Ok(verified), Ok(_)) => coordinator_rollback_branch_transition::decoded_transition(
                    self@.position,
                    checkpoint_id,
                    transition@.value,
                    evidence@,
                    true,
                ) == Ok::<VerifiedTransition, CoordinatorRollbackBranchCatalogError>(verified),
                (Err(error), Err(expected)) => error == expected,
                _ => false,
            },
    {
        if checkpoint_id != self.target.height || checkpoint_id != self.next_checkpoint {
            return Err(
                CoordinatorRollbackBranchCatalogError::CheckpointGap {
                    expected: self.next_checkpoint,
                    actual: checkpoint_id,
                },
            );
        }
        require_before_fence(transition.writetime_us, self.orphan_write_max_us)?;
        let verified = decode_transition(
            &self.position,
            checkpoint_id,
            &transition.value,
            evidence,
            true,
        )?;
        if !verified.canonical.checkpoint.same(&self.target) {
            return Err(CoordinatorRollbackBranchCatalogError::TargetAnchorMismatch);
        }
        if self.next_checkpoint == u64::MAX {
            return Err(CoordinatorRollbackBranchCatalogError::CheckpointOverflow);
        }
        Ok(verified)
    }

    /// Takes the transition of the target itself, which anchors the chain.
    pub fn observe_anchor(
        &mut self,
        checkpoint_id: u64,
        transition: &PointValue<Vec<u8>>,
        evidence: &TransitionEvidence<Vec<u8>>,
    ) -> (result: Result<(), CoordinatorRollbackBranchCatalogError>)
        requires
            old(self).wf(),
        ensures
            final(self).wf(),
            match (result, with_anchor(old(self)@, checkpoint_id, transition@, evidence@)) {
                (Ok(_), Ok(model)) => final(self)@ == model,
                (Err(error), Err(expected)) => error == expected && final(self)@ == old(
                    self,
                )@.poison(),
                _ => false,
            },
    {
        if self.poisoned {
            return Err(CoordinatorRollbackBranchCatalogError::Poisoned);
        }
        match self.check_anchor(checkpoint_id, transition, evidence) {
            Err(error) => {
                self.poisoned = true;
                Err(error)
            },
            Ok(verified) => {
                self.position.previous_hash = Some(verified.checkpoint_hash);
                self.position.previous_root_leaf = Some(verified.root_leaf);
                let ghost before = self.source_preimage@;
                push_u64(&mut self.source_preimage, checkpoint_id);
                push_i64(&mut self.source_preimage, transition.writetime_us);
                push_len(&mut self.source_preimage, transition.value.len());
                push_bytes(&mut self.source_preimage, &transition.value);
                assert(self.source_preimage@ =~= before + transition_bytes(
                    checkpoint_id,
                    transition@,
                ));
                self.next_checkpoint = self.next_checkpoint + 1;
                Ok(())
            },
        }
    }

    fn check_suffix(
        &self,
        checkpoint_id: u64,
        transition: &PointValue<Vec<u8>>,
        evidence: &TransitionEvidence<Vec<u8>>,
        mapping_digest: [u8; 32],
        legacy: &LegacyMappingPair,
        target_forward: &[TargetForwardRow],
        target_reverse: &[TargetReverseRow<Vec<u8>>],
    ) -> (result: Result<
        (VerifiedTransition, BranchPendingMapping),
        CoordinatorRollbackBranchCatalogError,
    >)
        requires
            self.wf(),
            !self.poisoned,
        ensures
            match (
                result,
                with_suffix(
                    self@,
                    checkpoint_id,
                    transition@,
                    evidence@,
                    mapping_digest,
                    *legacy,
                    target_forward@,
                    coordinator_rollback_branch_transition::reverse_models(target_reverse@),
                ),
            ) {
                (Ok((verified, mapping)), Ok(_)) => {
                    &&& coordinator_rollback_branch_transition::decoded_transition(
                        self@.position,
                        checkpoint_id,
                        transition@.value,
                        evidence@,
                        false,
                    ) == Ok::<VerifiedTransition, CoordinatorRollbackBranchCatalogError>(verified)
                    &&& mapping.canonical == verified.canonical
                    &&& mapping.pending == legacy.pending_id
                    &&& mapping.digest == mapping_digest
                    &&& target_forward@.len() == 1
                    &&& target_reverse@.len() == 1
                },
                (Err(error), Err(expected)) => error == expected,
                _ => false,
            },
    {
        if checkpoint_id != self.next_checkpoint || checkpoint_id > self.requested_head.height {
            return Err(
                CoordinatorRollbackBranchCatalogError::CheckpointGap {
                    expected: self.next_checkpoint,
                    actual: checkpoint_id,
                },
            );
        }
        require_before_fence(transition.writetime_us, self.orphan_write_max_us)?;
        require_before_fence(legacy.forward_writetime_us, self.orphan_write_max_us)?;
        require_before_fence(legacy.reverse_writetime_us, self.orphan_write_max_us)?;
        let verified = decode_transition(
            &self.position,
            checkpoint_id,
            &transition.value,
            evidence,
            false,
        )?;
        let pending: u64 = legacy.pending_id.value;
        proof {
            lemma_pending_index(self.pendings@, self.target.height + 1);
            assert(self.pendings@.contains(pending) || !self.pendings@.contains(pending));
        }
        if self.pending_to_checkpoint.contains_key(&pending) {
            return Err(CoordinatorRollbackBranchCatalogError::PendingMappedTwice(pending));
        }
        let mapping = BranchPendingMapping {
            canonical: verified.canonical,
            pending: legacy.pending_id,
            digest: mapping_digest,
        };
        verify_target_mapping(&mapping, target_forward, target_reverse, self.orphan_write_max_us)?;
        if self.suffix_rows == u64::MAX || self.next_checkpoint == u64::MAX {
            return Err(CoordinatorRollbackBranchCatalogError::CheckpointOverflow);
        }
        Ok((verified, mapping))
    }

    /// Takes the rows of the next checkpoint of the suffix and gives its verified
    /// mapping rows.
    pub fn observe_suffix(
        &mut self,
        checkpoint_id: u64,
        transition: &PointValue<Vec<u8>>,
        evidence: &TransitionEvidence<Vec<u8>>,
        mapping_digest: [u8; 32],
        legacy: LegacyMappingPair,
        target_forward: &[TargetForwardRow],
        target_reverse: &[TargetReverseRow<Vec<u8>>],
    ) -> (result: Result<MappingBundle, CoordinatorRollbackBranchCatalogError>)
        requires
            old(self).wf(),
        ensures
            final(self).wf(),
            match (
                result,
                with_suffix(
                    old(self)@,
                    checkpoint_id,
                    transition@,
                    evidence@,
                    mapping_digest,
                    legacy,
                    target_forward@,
                    coordinator_rollback_branch_transition::reverse_models(target_reverse@),
                ),
            ) {
                (Ok(bundle), Ok((model, expected))) => final(self)@ == model && bundle@
                    == expected,
                (Err(error), Err(expected)) => error == expected && final(self)@ == old(
                    self,
                )@.poison(),
                _ => false,
            },
    {
        if self.poisoned {
            return Err(CoordinatorRollbackBranchCatalogError::Poisoned);
        }
        let ghost models = coordinator_rollback_branch_transition::reverse_models(target_reverse@);
        match self.check_suffix(
            checkpoint_id,
            transition,
            evidence,
            mapping_digest,
            &legacy,
            target_forward,
            target_reverse,
        ) {
            Err(error) => {
                self.poisoned = true;
                Err(error)
            },
            Ok((verified, mapping)) => {
                let pending: u64 = legacy.pending_id.value;
                proof {
                    let next = self.pendings@.push(pending);
                    assert(next.drop_last() =~= self.pendings@);
                    assert forall|i: int, j: int|
                        0 <= i < next.len() && 0 <= j < next.len() && i != j implies next[i]
                        != next[j] by {
                        if i == self.pendings@.len() {
                            assert(self.pendings@[j] != pending);
                        } else if j == self.pendings@.len() {
                            assert(self.pendings@[i] != pending);
                        }
                    }
                    assert(models[0] == target_reverse@[0]@);
                }
                let bundle = VerifiedCoordinatorRollbackMappingBundle {
                    catalog_fingerprint: self.catalog_fingerprint,
                    network: self.position.network,
                    rollback_epoch: self.rollback_epoch,
                    source_epoch: self.position.source_epoch,
                    checkpoint: checkpoint_id,
                    pending: legacy.pending_id,
                    sources: build_sources(
                        checkpoint_id,
                        &legacy,
                        &mapping,
                        &target_forward[0],
                        &target_reverse[0],
                    ),
                };
                self.position.previous_hash = Some(verified.checkpoint_hash);
                self.position.previous_root_leaf = Some(verified.root_leaf);
                self.pendings.push(pending);
                self.pending_to_checkpoint.insert(pending, checkpoint_id);
                push_u64(&mut self.catalog_preimage, checkpoint_id);
                push_bytes(&mut self.catalog_preimage, &mapping.canonical.canonical);
                push_u64(&mut self.catalog_preimage, mapping.pending.value);
                push_bytes(&mut self.catalog_preimage, &mapping.digest);
                hash_target_source(&mut self.source_preimage, target_forward, target_reverse);
                let ghost before = self.source_preimage@;
                push_u64(&mut self.source_preimage, checkpoint_id);
                push_i64(&mut self.source_preimage, transition.writetime_us);
                push_len(&mut self.source_preimage, transition.value.len());
                push_bytes(&mut self.source_preimage, &transition.value);
                assert(self.source_preimage@ =~= before + transition_bytes(
                    checkpoint_id,
                    transition@,
                ));
                push_u64(&mut self.source_preimage, mapping.pending.value);
                push_i64(&mut self.source_preimage, legacy.forward_writetime_us);
                push_i64(&mut self.source_preimage, legacy.reverse_writetime_us);
                self.suffix_rows = self.suffix_rows + 1;
                self.next_checkpoint = self.next_checkpoint + 1;
                Ok(bundle)
            },
        }
    }

    /// The chain reference that the next transition leads to. Nothing is taken.
    pub fn preview_transition(
        &self,
        checkpoint_id: u64,
        value: &[u8],
        evidence: &TransitionEvidence<Vec<u8>>,
    ) -> (result: Result<CanonicalChainRef, CoordinatorRollbackBranchCatalogError>)
        ensures
            result == (match coordinator_rollback_branch_transition::decoded_transition(
                self@.position,
                checkpoint_id,
                value@,
                evidence@,
                false,
            ) {
                Ok(verified) => Ok::<CanonicalChainRef, CoordinatorRollbackBranchCatalogError>(
                    verified.canonical,
                ),
                Err(error) => Err(error),
            }),
    {
        match decode_transition(&self.position, checkpoint_id, value, evidence, false) {
            Ok(verified) => Ok(verified.canonical),
            Err(error) => Err(error),
        }
    }

    /// The selection of the complete suffix.
    pub fn finish_selection(self) -> (result: Result<
        VerifiedCoordinatorRollbackSuffixSelection,
        CoordinatorRollbackBranchCatalogError,
    >)
        requires
            self.wf(),
        ensures
            match (result, finished_catalog(self@)) {
                (Ok(selection), Ok(summary)) => {
                    &&& selection.wf()
                    &&& selection.summary == summary
                    &&& selection.first_checkpoint == self@.target.height + 1
                    &&& selection.pendings@ == self@.pendings
                },
                (Err(error), Err(expected)) => error == expected,
                _ => false,
            },
    {
        if self.poisoned {
            return Err(CoordinatorRollbackBranchCatalogError::Poisoned);
        }
        if self.requested_head.height == u64::MAX {
            return Err(CoordinatorRollbackBranchCatalogError::CheckpointOverflow);
        }
        let expected: u64 = self.requested_head.height + 1;
        if self.next_checkpoint != expected {
            return Err(
                CoordinatorRollbackBranchCatalogError::IncompleteCatalog {
                    expected,
                    actual: self.next_checkpoint,
                },
            );
        }
        if self.suffix_rows != self.pendings.len() as u64 {
            return Err(
                CoordinatorRollbackBranchCatalogError::IncompleteCatalog {
                    expected: self.suffix_rows,
                    actual: self.pendings.len() as u64,
                },
            );
        }
        match &self.position.previous_hash {
            None => {
                return Err(
                    CoordinatorRollbackBranchCatalogError::IncompleteCatalog {
                        expected,
                        actual: 0,
                    },
                );
            },
            Some(last) => {
                if !array_equal::<32>(last, &self.requested_head.hash) {
                    return Err(CoordinatorRollbackBranchCatalogError::RecoveredHeadMismatch);
                }
            },
        }
        let mut catalog_preimage: Vec<u8> = self.catalog_preimage;
        push_u64(&mut catalog_preimage, self.suffix_rows);
        let mut source_preimage: Vec<u8> = self.source_preimage;
        push_u64(&mut source_preimage, self.suffix_rows);
        Ok(
            VerifiedCoordinatorRollbackSuffixSelection {
                summary: CoordinatorRollbackBranchCatalogSummary {
                    catalog_fingerprint: self.catalog_fingerprint,
                    source_chain_epoch: self.position.source_epoch,
                    suffix_rows: self.suffix_rows,
                    catalog_digest: CoordinatorRollbackBranchCatalogDigest(
                        sha256_digest(&catalog_preimage),
                    ),
                    source_digest: sha256_digest(&source_preimage),
                },
                first_checkpoint: self.target.height + 1,
                pendings: self.pendings,
                pending_to_checkpoint: self.pending_to_checkpoint,
            },
        )
    }

    /// The summary of the complete suffix.
    pub fn finish(self) -> (result: Result<
        CoordinatorRollbackBranchCatalogSummary,
        CoordinatorRollbackBranchCatalogError,
    >)
        requires
            self.wf(),
        ensures
            result == finished_catalog(self@),
    {
        match self.finish_selection() {
            Ok(selection) => Ok(selection.summary),
            Err(error) => Err(error),
        }
    }
}

/// A catalog begins exactly under a head that archives the plan's request from the
/// requested head, in an epoch that has one before it, over a suffix that is neither empty
/// nor too long. It begins at the target, with nothing mapped, on the head's network in
/// the epoch before the rollback's, under the plan's range and fence.
pub proof fn law_catalog_begins_at_the_target(
    head: StoredHeadModel,
    plan: &CoordinatorRollbackArchivePlan,
    config: BranchExactCheckpointChainConfig,
    catalog_fingerprint: [u8; 32],
)
    ensures
        ({
            let request = plan.request;
            let begun = new_catalog(head, plan, config, catalog_fingerprint);
            &&& begun is Ok <==> {
                &&& head.control == crate::model::RollbackControlState::Archiving(request)
                &&& head.canonical.checkpoint == request.requested_head
                &&& head.canonical.chain_epoch > 0
                &&& 0 < request.requested_head.height - request.target.height <= MAX_SUFFIX_ROWS
            }
            &&& begun matches Ok(catalog) ==> {
                &&& catalog.target == request.target
                &&& catalog.requested_head == request.requested_head
                &&& catalog.orphan_write_max_us == request.fence.orphan_write_max_us
                &&& catalog.next_checkpoint == request.target.height
                &&& catalog.pendings == Seq::<u64>::empty()
                &&& catalog.suffix_rows == 0
                &&& !catalog.poisoned
                &&& catalog.catalog_fingerprint == catalog_fingerprint
                &&& catalog.rollback_epoch == head.canonical.chain_epoch
                &&& catalog.position.source_epoch + 1 == head.canonical.chain_epoch
                &&& catalog.position.network == head.canonical.network
                &&& catalog.position.config == config
                &&& catalog.position.previous_hash is None
                &&& catalog.position.previous_root_leaf is None
                &&& catalog.catalog_preimage == bytes::text(
                    "psy/coordinator-rollback-branch-catalog/v1"@,
                ) + catalog_fingerprint@ + plan.digest.0@ + bytes::be32(
                    head.canonical.network.chain_id,
                ) + bytes::be64((head.canonical.chain_epoch - 1) as u64) + bytes::be64(
                    request.target.height,
                ) + request.target.hash@ + bytes::be64(request.requested_head.height)
                    + request.requested_head.hash@
                &&& catalog.source_preimage == bytes::text(
                    "psy/coordinator-rollback-branch-catalog-source/v1"@,
                ) + catalog_fingerprint@ + plan.digest.0@ + bytes::be32(
                    head.canonical.network.chain_id,
                ) + bytes::be64(head.canonical.chain_epoch) + bytes::be64(
                    (head.canonical.chain_epoch - 1) as u64,
                )
            }
        }),
{
}

/// The anchor is exactly the target itself: its transition is taken at the target's
/// height, was written no later than the fence, is one that the chain accepts as its
/// anchor, and leads to the target's hash. Behind it the catalog stands at that hash, root
/// and leaf and expects the first checkpoint of the suffix.
pub proof fn law_anchor_is_the_target(
    catalog: BranchCatalogModel,
    checkpoint_id: u64,
    transition: PointValue<Seq<u8>>,
    evidence: TransitionEvidence<Seq<u8>>,
)
    ensures
        ({
            let anchored = with_anchor(catalog, checkpoint_id, transition, evidence);
            let verified = coordinator_rollback_branch_transition::decoded_transition(
                catalog.position,
                checkpoint_id,
                transition.value,
                evidence,
                true,
            );
            &&& anchored is Ok <==> {
                &&& !catalog.poisoned
                &&& checkpoint_id == catalog.target.height
                &&& checkpoint_id == catalog.next_checkpoint
                &&& checkpoint_id < u64::MAX
                &&& transition.writetime_us <= catalog.orphan_write_max_us
                &&& verified is Ok
                &&& verified->Ok_0.canonical.checkpoint == catalog.target
            }
            &&& anchored matches Ok(next) ==> {
                &&& next.position.previous_hash == Some(verified->Ok_0.checkpoint_hash)
                &&& next.position.previous_root_leaf == Some(verified->Ok_0.root_leaf)
                &&& next.next_checkpoint == checkpoint_id + 1
                &&& next.source_preimage == catalog.source_preimage + bytes::be64(checkpoint_id)
                    + bytes::be_i64(transition.writetime_us) + bytes::be_len(
                    transition.value.len(),
                ) + transition.value
                &&& next.catalog_preimage == catalog.catalog_preimage
                &&& next.pendings == catalog.pendings
                &&& next.suffix_rows == catalog.suffix_rows
                &&& next.poisoned == catalog.poisoned
                &&& next.target == catalog.target
                &&& next.requested_head == catalog.requested_head
                &&& next.orphan_write_max_us == catalog.orphan_write_max_us
                &&& next.rollback_epoch == catalog.rollback_epoch
                &&& next.catalog_fingerprint == catalog.catalog_fingerprint
                &&& next.position.network == catalog.position.network
                &&& next.position.source_epoch == catalog.position.source_epoch
                &&& next.position.config == catalog.position.config
            }
        }),
{
    if let Ok(next) = with_anchor(catalog, checkpoint_id, transition, evidence) {
        assert(next.source_preimage =~= catalog.source_preimage + bytes::be64(checkpoint_id)
            + bytes::be_i64(transition.writetime_us) + bytes::be_len(transition.value.len())
            + transition.value);
    }
}

/// A checkpoint of the suffix is taken exactly if it is the one that comes next, not
/// behind the requested head, nothing of it was written after the fence, its transition
/// is the chain's, its pending identity is not mapped yet, and the branch-exact rows map
/// exactly the two.
pub proof fn law_suffix_is_taken_checkpoint_by_checkpoint(
    catalog: BranchCatalogModel,
    checkpoint_id: u64,
    transition: PointValue<Seq<u8>>,
    evidence: TransitionEvidence<Seq<u8>>,
    mapping_digest: [u8; 32],
    legacy: LegacyMappingPair,
    forward: Seq<TargetForwardRow>,
    reverse: Seq<TargetReverseRow<Seq<u8>>>,
)
    ensures
        ({
            let taken = with_suffix(
                catalog,
                checkpoint_id,
                transition,
                evidence,
                mapping_digest,
                legacy,
                forward,
                reverse,
            );
            let verified = coordinator_rollback_branch_transition::decoded_transition(
                catalog.position,
                checkpoint_id,
                transition.value,
                evidence,
                false,
            );
            &&& taken is Ok <==> {
                &&& !catalog.poisoned
                &&& checkpoint_id == catalog.next_checkpoint
                &&& checkpoint_id <= catalog.requested_head.height
                &&& checkpoint_id < u64::MAX
                &&& catalog.suffix_rows < u64::MAX
                &&& transition.writetime_us <= catalog.orphan_write_max_us
                &&& legacy.forward_writetime_us <= catalog.orphan_write_max_us
                &&& legacy.reverse_writetime_us <= catalog.orphan_write_max_us
                &&& verified is Ok
                &&& !catalog.pendings.contains(legacy.pending_id.value)
                &&& coordinator_rollback_branch_transition::checked_target_mapping(
                    BranchPendingMapping {
                        canonical: verified->Ok_0.canonical,
                        pending: legacy.pending_id,
                        digest: mapping_digest,
                    },
                    forward,
                    reverse,
                    catalog.orphan_write_max_us,
                ) is Ok
            }
            &&& taken matches Ok((next, bundle)) ==> {
                &&& next.position.previous_hash == Some(verified->Ok_0.checkpoint_hash)
                &&& next.position.previous_root_leaf == Some(verified->Ok_0.root_leaf)
                &&& next.position.network == catalog.position.network
                &&& next.position.source_epoch == catalog.position.source_epoch
                &&& next.position.config == catalog.position.config
                &&& next.next_checkpoint == checkpoint_id + 1
                &&& next.suffix_rows == catalog.suffix_rows + 1
                &&& next.pendings == catalog.pendings.push(legacy.pending_id.value)
                &&& next.target == catalog.target
                &&& next.requested_head == catalog.requested_head
                &&& next.orphan_write_max_us == catalog.orphan_write_max_us
                &&& next.rollback_epoch == catalog.rollback_epoch
                &&& next.catalog_fingerprint == catalog.catalog_fingerprint
                &&& next.poisoned == catalog.poisoned
                &&& bundle.catalog_fingerprint == catalog.catalog_fingerprint
                &&& bundle.network == catalog.position.network
                &&& bundle.rollback_epoch == catalog.rollback_epoch
                &&& bundle.source_epoch == catalog.position.source_epoch
                &&& bundle.checkpoint == checkpoint_id
                &&& bundle.pending == legacy.pending_id
            }
        }),
{
}

/// The bundle of a taken checkpoint has the four rows that map it and its pending
/// identity to each other, in this order: the checkpoint's and the pending identity's
/// number to each other, and the chain reference and the pending identity to each other
/// with the mapping's digest. Each column has the write time of the row it was read from.
pub proof fn law_bundle_maps_both_ways(
    catalog: BranchCatalogModel,
    checkpoint_id: u64,
    transition: PointValue<Seq<u8>>,
    evidence: TransitionEvidence<Seq<u8>>,
    mapping_digest: [u8; 32],
    legacy: LegacyMappingPair,
    forward: Seq<TargetForwardRow>,
    reverse: Seq<TargetReverseRow<Seq<u8>>>,
)
    ensures
        with_suffix(
            catalog,
            checkpoint_id,
            transition,
            evidence,
            mapping_digest,
            legacy,
            forward,
            reverse,
        ) matches Ok((_, bundle)) ==> {
            let rows = bundle.sources;
            let checkpoint = bytes::be64(checkpoint_id);
            let pending = bytes::be64(legacy.pending_id.value);
            &&& rows.len() == 4
            &&& rows[0].kind is LegacyCheckpointToPending
            &&& rows[0].primary_key == checkpoint
            &&& rows[0].columns.len() == 1
            &&& rows[0].columns[0].column_id == 1
            &&& rows[0].columns[0].value == pending
            &&& rows[0].columns[0].writetime_us == legacy.forward_writetime_us
            &&& rows[1].kind is LegacyPendingToCheckpoint
            &&& rows[1].primary_key == pending
            &&& rows[1].columns.len() == 1
            &&& rows[1].columns[0].column_id == 1
            &&& rows[1].columns[0].value == checkpoint
            &&& rows[1].columns[0].writetime_us == legacy.reverse_writetime_us
            &&& rows[2].kind is BranchExactCanonicalToPending
            &&& rows[2].primary_key == evidence.canonical@
            &&& rows[2].columns.len() == 2
            &&& rows[2].columns[0].column_id == 1
            &&& rows[2].columns[0].value == pending
            &&& rows[2].columns[0].writetime_us == forward[0].pending_writetime_us
            &&& rows[2].columns[1].column_id == 2
            &&& rows[2].columns[1].value == mapping_digest@
            &&& rows[2].columns[1].writetime_us == forward[0].digest_writetime_us
            &&& rows[3].kind is BranchExactPendingToCanonical
            &&& rows[3].primary_key == pending
            &&& rows[3].columns.len() == 2
            &&& rows[3].columns[0].column_id == 1
            &&& rows[3].columns[0].value == evidence.canonical@
            &&& rows[3].columns[0].writetime_us == reverse[0].canonical_writetime_us
            &&& rows[3].columns[1].column_id == 2
            &&& rows[3].columns[1].value == mapping_digest@
            &&& rows[3].columns[1].writetime_us == reverse[0].digest_writetime_us
        },
{
}

/// What a taken checkpoint adds to the two digests: to the catalog's the pair, its chain
/// reference and the mapping's digest, and to the source's everything that was read.
pub proof fn law_digests_cover_what_was_read(
    catalog: BranchCatalogModel,
    checkpoint_id: u64,
    transition: PointValue<Seq<u8>>,
    evidence: TransitionEvidence<Seq<u8>>,
    mapping_digest: [u8; 32],
    legacy: LegacyMappingPair,
    forward: Seq<TargetForwardRow>,
    reverse: Seq<TargetReverseRow<Seq<u8>>>,
)
    ensures
        with_suffix(
            catalog,
            checkpoint_id,
            transition,
            evidence,
            mapping_digest,
            legacy,
            forward,
            reverse,
        ) matches Ok((next, _)) ==> {
            let f = forward[0];
            let r = reverse[0];
            &&& next.catalog_preimage == catalog.catalog_preimage + bytes::be64(checkpoint_id)
                + evidence.canonical@ + bytes::be64(legacy.pending_id.value) + mapping_digest@
            &&& next.source_preimage == catalog.source_preimage + bytes::be_len(1) + bytes::be64(
                f.pending_id.value,
            ) + f.mapping_digest@ + bytes::be_i64(f.pending_writetime_us) + bytes::be_i64(
                f.digest_writetime_us,
            ) + bytes::be_len(1) + bytes::be_len(r.canonical_ref.len()) + r.canonical_ref
                + r.mapping_digest@ + bytes::be_i64(r.canonical_writetime_us) + bytes::be_i64(
                r.digest_writetime_us,
            ) + bytes::be64(checkpoint_id) + bytes::be_i64(transition.writetime_us)
                + bytes::be_len(transition.value.len()) + transition.value + bytes::be64(
                legacy.pending_id.value,
            ) + bytes::be_i64(legacy.forward_writetime_us) + bytes::be_i64(
                legacy.reverse_writetime_us,
            )
        },
{
    if let Ok((next, _)) = with_suffix(
        catalog,
        checkpoint_id,
        transition,
        evidence,
        mapping_digest,
        legacy,
        forward,
        reverse,
    ) {
        let f = forward[0];
        let r = reverse[0];
        reveal_with_fuel(forward_rows_bytes, 2);
        reveal_with_fuel(reverse_rows_bytes, 2);
        assert(forward.drop_last() =~= Seq::empty());
        assert(reverse.drop_last() =~= Seq::empty());
        assert(next.source_preimage =~= catalog.source_preimage + bytes::be_len(1) + bytes::be64(
            f.pending_id.value,
        ) + f.mapping_digest@ + bytes::be_i64(f.pending_writetime_us) + bytes::be_i64(
            f.digest_writetime_us,
        ) + bytes::be_len(1) + bytes::be_len(r.canonical_ref.len()) + r.canonical_ref
            + r.mapping_digest@ + bytes::be_i64(r.canonical_writetime_us) + bytes::be_i64(
            r.digest_writetime_us,
        ) + bytes::be64(checkpoint_id) + bytes::be_i64(transition.writetime_us) + bytes::be_len(
            transition.value.len(),
        ) + transition.value + bytes::be64(legacy.pending_id.value) + bytes::be_i64(
            legacy.forward_writetime_us,
        ) + bytes::be_i64(legacy.reverse_writetime_us));
    }
}

/// A catalog finishes exactly if it has come past the requested head, at that head's
/// hash, with one pending identity for each checkpoint that it counted. Its two digests
/// are those of what it gathered and of that count.
pub proof fn law_catalog_finishes_at_the_requested_head(catalog: BranchCatalogModel)
    ensures
        ({
            let finished = finished_catalog(catalog);
            &&& finished is Ok <==> {
                &&& !catalog.poisoned
                &&& catalog.next_checkpoint == catalog.requested_head.height + 1
                &&& catalog.suffix_rows == catalog.pendings.len()
                &&& catalog.position.previous_hash == Some(catalog.requested_head.hash)
            }
            &&& finished matches Ok(summary) ==> {
                &&& summary.catalog_fingerprint == catalog.catalog_fingerprint
                &&& summary.source_chain_epoch == catalog.position.source_epoch
                &&& summary.suffix_rows == catalog.suffix_rows
                &&& summary.catalog_digest.0 == hash::sha256(
                    catalog.catalog_preimage + bytes::be64(catalog.suffix_rows),
                )
                &&& summary.source_digest == hash::sha256(
                    catalog.source_preimage + bytes::be64(catalog.suffix_rows),
                )
            }
            &&& finished matches Err(error) ==> (error is RecoveredHeadMismatch
                ==> catalog.position.previous_hash != Some(catalog.requested_head.hash))
        }),
{
}

/// The index of a suffix finds each of its pending identities, and no other, at its own
/// checkpoint: the first one at the first checkpoint, and each later one at the next.
pub proof fn law_pending_index_finds_each_checkpoint(pendings: Seq<u64>, first: int)
    requires
        pendings.no_duplicates(),
        0 <= first,
        first + pendings.len() <= u64::MAX + 1,
    ensures
        forall|pending: u64| #[trigger]
            pending_index(pendings, first).contains_key(pending) <==> pendings.contains(pending),
        forall|i: int|
            0 <= i < pendings.len() ==> pending_index(pendings, first)[#[trigger] pendings[i]]
                == first + i,
{
    lemma_pending_index(pendings, first);
    assert forall|pending: u64| #[trigger]
        pending_index(pendings, first).contains_key(pending) <==> pendings.contains(pending) by {
        assert(pendings.contains(pending) || !pendings.contains(pending));
    }
}

} // verus!
