//! Scanner that archives the Coordinator's Realm reward nodes.
//!
//! The table is partitioned by Realm and clustered by pending identity, so a rollback
//! cannot guess a range of checkpoints in it. The scan takes the exact selection of the
//! discarded suffix from the verified branch catalog, streams the whole table, and
//! archives only rows whose pending identity the selection holds. It deletes and
//! publishes nothing.

use vstd::prelude::*;

use crate::bytes;
use crate::bytes::{
    array_equal, bytes_equal, push_bytes, push_counted_text, push_i64, push_len,
    push_u32, push_u64, text_bytes,
};
use crate::commitment;
use crate::commitment::MultisetCommitment;
use crate::coordinator_rollback_archive_plan::CoordinatorRollbackArchivePlan;
use crate::coordinator_rollback_branch_accumulator::{
    CoordinatorRollbackBranchCatalogSummary, VerifiedCoordinatorRollbackSuffixSelection,
};
use crate::coordinator_rollback_branch_scan;
use crate::coordinator_rollback_branch_scan::{
    CoordinatorRollbackMappingArchiveSummary, SelectedSuffix,
};
use crate::hash;
use crate::hash::sha256_digest;
use crate::keyspace::CqlKeyspaceName;
use crate::model::{NetworkId, StoredHead, StoredHeadModel, UniquePendingId};
use crate::text;
use crate::text::{append, concat3, qualify};

verus! {

pub const REALM_REWARD_TABLE: &'static str = "realm_rewards_tree_node_key_table";

#[derive(Clone, Debug, PartialEq, Eq)]
pub enum CoordinatorRollbackRealmRewardCatalogError {
    SelectionMismatch,
    MissingSourceColumn,
    IntegerOutOfRange,
    MalformedSource(String),
    NonCanonicalSource,
    WriteAfterFence { writetime_us: i64, orphan_write_max_us: i64 },
    SourceChanged,
    Head(String),
    HeadChanged,
    BranchCatalog(String),
    Archive(String),
    ArchiveSummaryMissing,
    ArchiveRowCountMismatch { expected: u64, actual: u64 },
    LengthOverflow,
    Driver(String),
    /// A step was reported that is not the one to be taken.
    OutOfOrder,
}

/// The reads of the catalog.
#[derive(Clone, Debug, PartialEq, Eq)]
pub struct RewardCatalogQueries {
    pub read_all: String,
    pub read_point: String,
}

impl RewardCatalogQueries {
    pub fn new(source: &CqlKeyspaceName) -> (queries: Self)
        ensures
            queries.read_all@ == "SELECT obj_id, checkpoint_id, value, WRITETIME(value) FROM "@
                + text::qualified(source@, REALM_REWARD_TABLE@),
            queries.read_point@ == "SELECT value, WRITETIME(value) FROM "@ + text::qualified(
                source@,
                REALM_REWARD_TABLE@,
            ) + " WHERE obj_id = ? AND checkpoint_id = ?"@,
    {
        let table = qualify(source.as_str(), REALM_REWARD_TABLE);
        let mut read_all: String =
            "SELECT obj_id, checkpoint_id, value, WRITETIME(value) FROM ".to_owned();
        append(&mut read_all, table.as_str());
        RewardCatalogQueries {
            read_all,
            read_point: concat3(
                "SELECT value, WRITETIME(value) FROM ",
                table.as_str(),
                " WHERE obj_id = ? AND checkpoint_id = ?",
            ),
        }
    }

    pub open spec fn spec_golden(&self) -> Seq<char> {
        "read_all\n"@ + self.read_all@ + "\nread_point\n"@ + self.read_point@ + "\n"@
    }

    pub fn golden(&self) -> (golden: String)
        ensures
            golden@ == self.spec_golden(),
    {
        let mut golden = concat3("read_all\n", self.read_all.as_str(), "\nread_point\n");
        append(&mut golden, self.read_point.as_str());
        append(&mut golden, "\n");
        golden
    }
}

/// What identifies a catalog: its keyspace and its reads.
pub fn catalog_fingerprint(source: &CqlKeyspaceName, queries: &RewardCatalogQueries) -> (fingerprint:
    [u8; 32])
    ensures
        fingerprint == hash::sha256(
            bytes::text("psy/coordinator-rollback-realm-reward-catalog/v1"@)
                + coordinator_rollback_branch_scan::counted_text(source@)
                + coordinator_rollback_branch_scan::counted_text(queries.spec_golden()),
        ),
{
    let mut preimage: Vec<u8> = text_bytes("psy/coordinator-rollback-realm-reward-catalog/v1");
    let ghost a = preimage@;
    push_counted_text(&mut preimage, source.as_str());
    assert(preimage@ =~= a + coordinator_rollback_branch_scan::counted_text(source@));
    let ghost b = preimage@;
    push_counted_text(&mut preimage, queries.golden().as_str());
    assert(preimage@ =~= b + coordinator_rollback_branch_scan::counted_text(
        queries.spec_golden(),
    ));
    sha256_digest(&preimage)
}

/// One row of the reward table.
#[verifier::ext_equal]
#[derive(Clone, Debug, PartialEq, Eq)]
pub struct RewardSourceRow<B> {
    pub realm: u64,
    pub pending: UniquePendingId,
    pub value: B,
    pub writetime_us: i64,
}

impl View for RewardSourceRow<Vec<u8>> {
    type V = RewardSourceRow<Seq<u8>>;

    open spec fn view(&self) -> RewardSourceRow<Seq<u8>> {
        RewardSourceRow {
            realm: self.realm,
            pending: self.pending,
            value: self.value@,
            writetime_us: self.writetime_us,
        }
    }
}

impl RewardSourceRow<Vec<u8>> {
    pub fn same(&self, other: &Self) -> (same: bool)
        ensures
            same == (self@ == other@),
    {
        self.realm == other.realm && self.pending == other.pending && bytes_equal(
            &self.value,
            &other.value,
        ) && self.writetime_us == other.writetime_us
    }
}

/// Source evidence for the archive store. It authorises no deletion.
#[verifier::ext_equal]
#[derive(Clone, Debug, PartialEq, Eq)]
pub struct VerifiedCoordinatorRollbackRealmRewardRow<B> {
    pub catalog_fingerprint: [u8; 32],
    pub network: NetworkId,
    pub rollback_epoch: u64,
    pub source_epoch: u64,
    pub mapping_catalog_fingerprint: [u8; 32],
    pub mapping_catalog_digest: [u8; 32],
    pub mapping_source_digest: [u8; 32],
    pub source_checkpoint: u64,
    pub source: RewardSourceRow<B>,
}

pub type RewardRow = VerifiedCoordinatorRollbackRealmRewardRow<Vec<u8>>;

pub type RewardRowModel = VerifiedCoordinatorRollbackRealmRewardRow<Seq<u8>>;

impl View for VerifiedCoordinatorRollbackRealmRewardRow<Vec<u8>> {
    type V = VerifiedCoordinatorRollbackRealmRewardRow<Seq<u8>>;

    open spec fn view(&self) -> VerifiedCoordinatorRollbackRealmRewardRow<Seq<u8>> {
        VerifiedCoordinatorRollbackRealmRewardRow {
            catalog_fingerprint: self.catalog_fingerprint,
            network: self.network,
            rollback_epoch: self.rollback_epoch,
            source_epoch: self.source_epoch,
            mapping_catalog_fingerprint: self.mapping_catalog_fingerprint,
            mapping_catalog_digest: self.mapping_catalog_digest,
            mapping_source_digest: self.mapping_source_digest,
            source_checkpoint: self.source_checkpoint,
            source: self.source@,
        }
    }
}

impl VerifiedCoordinatorRollbackRealmRewardRow<Vec<u8>> {
    pub fn catalog_fingerprint(&self) -> (fingerprint: [u8; 32])
        ensures
            fingerprint == self@.catalog_fingerprint,
    {
        self.catalog_fingerprint
    }

    pub fn network(&self) -> (network: NetworkId)
        ensures
            network == self@.network,
    {
        self.network
    }

    pub fn rollback_epoch(&self) -> (epoch: u64)
        ensures
            epoch == self@.rollback_epoch,
    {
        self.rollback_epoch
    }

    pub fn source_epoch(&self) -> (epoch: u64)
        ensures
            epoch == self@.source_epoch,
    {
        self.source_epoch
    }

    pub fn mapping_catalog_fingerprint(&self) -> (fingerprint: [u8; 32])
        ensures
            fingerprint == self@.mapping_catalog_fingerprint,
    {
        self.mapping_catalog_fingerprint
    }

    pub fn mapping_catalog_digest(&self) -> (digest: [u8; 32])
        ensures
            digest == self@.mapping_catalog_digest,
    {
        self.mapping_catalog_digest
    }

    pub fn mapping_source_digest(&self) -> (digest: [u8; 32])
        ensures
            digest == self@.mapping_source_digest,
    {
        self.mapping_source_digest
    }

    pub fn source_checkpoint(&self) -> (checkpoint: u64)
        ensures
            checkpoint == self@.source_checkpoint,
    {
        self.source_checkpoint
    }

    pub fn realm(&self) -> (realm: u64)
        ensures
            realm == self@.source.realm,
    {
        self.source.realm
    }

    pub fn pending(&self) -> (pending: UniquePendingId)
        ensures
            pending == self@.source.pending,
    {
        self.source.pending
    }

    pub fn source_value(&self) -> (value: &[u8])
        ensures
            value@ == self@.source.value,
    {
        self.source.value.as_slice()
    }

    pub fn source_writetime_us(&self) -> (writetime_us: i64)
        ensures
            writetime_us == self@.source.writetime_us,
    {
        self.source.writetime_us
    }
}

/// What a row's commitment is the digest of. The fingerprint of the mapping catalog
/// is not part of it; the catalog's digest is.
pub open spec fn source_row_preimage(row: RewardRowModel) -> Seq<u8> {
    bytes::text("psy/coordinator-rollback-realm-reward-source-row/v1"@) + row.catalog_fingerprint@
        + bytes::be32(row.network.chain_id) + bytes::be64(row.rollback_epoch) + bytes::be64(
        row.source_epoch,
    ) + row.mapping_catalog_digest@ + row.mapping_source_digest@ + bytes::be64(
        row.source_checkpoint,
    ) + bytes::be64(row.source.realm) + bytes::be64(row.source.pending.value) + bytes::be_i64(
        row.source.writetime_us,
    ) + bytes::be_len(row.source.value.len()) + row.source.value
}

pub open spec fn source_row_commitment_of(row: RewardRowModel) -> [u8; 32] {
    hash::sha256(source_row_preimage(row))
}

pub fn source_row_commitment(row: &RewardRow) -> (commitment: [u8; 32])
    ensures
        commitment == source_row_commitment_of(row@),
{
    let mut preimage: Vec<u8> = text_bytes("psy/coordinator-rollback-realm-reward-source-row/v1");
    push_bytes(&mut preimage, &row.catalog_fingerprint);
    push_u32(&mut preimage, row.network.chain_id);
    push_u64(&mut preimage, row.rollback_epoch);
    push_u64(&mut preimage, row.source_epoch);
    push_bytes(&mut preimage, &row.mapping_catalog_digest);
    push_bytes(&mut preimage, &row.mapping_source_digest);
    push_u64(&mut preimage, row.source_checkpoint);
    push_u64(&mut preimage, row.source.realm);
    push_u64(&mut preimage, row.source.pending.value);
    push_i64(&mut preimage, row.source.writetime_us);
    push_len(&mut preimage, row.source.value.len());
    push_bytes(&mut preimage, &row.source.value);
    sha256_digest(&preimage)
}

/// What one full scan of the selected rows comes to.
#[derive(Clone, Copy, Debug, PartialEq, Eq)]
pub struct RewardDatasetSnapshot {
    pub selected_rows: u64,
    pub source_bytes: u64,
    pub xor_commitment: [u8; 32],
    pub sum_commitment: [u8; 32],
    pub digest: [u8; 32],
}

impl RewardDatasetSnapshot {
    pub fn same(&self, other: &Self) -> (same: bool)
        ensures
            same == (*self == *other),
    {
        self.selected_rows == other.selected_rows && self.source_bytes == other.source_bytes
            && array_equal::<32>(&self.xor_commitment, &other.xor_commitment) && array_equal::<32>(
            &self.sum_commitment,
            &other.sum_commitment,
        ) && array_equal::<32>(&self.digest, &other.digest)
    }
}

/// How many rows, how many bytes, and the commitment to all of them.
pub open spec fn dataset_with(
    dataset: (nat, nat, (Seq<u8>, Seq<u8>)),
    row: RewardRowModel,
) -> (nat, nat, (Seq<u8>, Seq<u8>)) {
    (
        dataset.0 + 1,
        dataset.1 + row.source.value.len(),
        commitment::with_member(dataset.2, source_row_commitment_of(row)),
    )
}

pub open spec fn dataset_of(rows: Seq<RewardRowModel>) -> (nat, nat, (Seq<u8>, Seq<u8>)) {
    rows.fold_left(
        (0nat, 0nat, commitment::committed(Seq::empty())),
        |dataset: (nat, nat, (Seq<u8>, Seq<u8>)), row: RewardRowModel| dataset_with(dataset, row),
    )
}

/// Adds up the selected rows.
#[derive(Clone, Copy, Debug, PartialEq, Eq)]
pub struct RewardDatasetAccumulator {
    pub rows: u64,
    pub bytes: u64,
    pub commitment: MultisetCommitment,
    pub plan_digest: [u8; 32],
    pub mapping_digest: [u8; 32],
}

impl RewardDatasetAccumulator {
    /// The accumulator has met exactly these rows, in this order.
    pub open spec fn met(&self, rows: Seq<RewardRowModel>) -> bool {
        (self.rows as nat, self.bytes as nat, self.commitment@) == dataset_of(rows)
    }

    pub fn new(
        plan: &CoordinatorRollbackArchivePlan,
        mapping: &CoordinatorRollbackBranchCatalogSummary,
    ) -> (accumulator: Self)
        ensures
            accumulator.plan_digest == plan.digest.0,
            accumulator.mapping_digest == mapping.catalog_digest.0,
            accumulator.met(Seq::empty()),
    {
        proof {
            reveal_with_fuel(Seq::fold_left, 1);
        }
        RewardDatasetAccumulator {
            rows: 0,
            bytes: 0,
            commitment: MultisetCommitment::empty(),
            plan_digest: plan.digest.0,
            mapping_digest: mapping.catalog_digest.0,
        }
    }

    pub fn observe(&mut self, row: &RewardRow, row_commitment: [u8; 32]) -> (result: Result<
        (),
        CoordinatorRollbackRealmRewardCatalogError,
    >)
        requires
            row_commitment == source_row_commitment_of(row@),
        ensures
            if old(self).rows + 1 > u64::MAX || old(self).bytes + row@.source.value.len()
                > u64::MAX {
                result == Err::<(), _>(CoordinatorRollbackRealmRewardCatalogError::LengthOverflow)
                    && *final(self) == *old(self)
            } else {
                &&& result is Ok
                &&& (
                    final(self).rows as nat,
                    final(self).bytes as nat,
                    final(self).commitment@,
                ) == dataset_with(
                    (old(self).rows as nat, old(self).bytes as nat, old(self).commitment@),
                    row@,
                )
                &&& final(self).plan_digest == old(self).plan_digest
                &&& final(self).mapping_digest == old(self).mapping_digest
                &&& forall|met: Seq<RewardRowModel>| #[trigger]
                    old(self).met(met) ==> final(self).met(met.push(row@))
            },
    {
        let rows: u64 = match self.rows.checked_add(1) {
            Some(rows) => rows,
            None => return Err(CoordinatorRollbackRealmRewardCatalogError::LengthOverflow),
        };
        let bytes: u64 = match self.bytes.checked_add(row.source.value.len() as u64) {
            Some(bytes) => bytes,
            None => return Err(CoordinatorRollbackRealmRewardCatalogError::LengthOverflow),
        };
        self.rows = rows;
        self.bytes = bytes;
        self.commitment.add_member(row_commitment);
        proof {
            assert forall|met: Seq<RewardRowModel>| #[trigger] old(self).met(met) implies self.met(
                met.push(row@),
            ) by {
                lemma_dataset_grows(met, row@);
            }
        }
        Ok(())
    }

    pub open spec fn spec_finish(&self) -> RewardDatasetSnapshot {
        RewardDatasetSnapshot {
            selected_rows: self.rows,
            source_bytes: self.bytes,
            xor_commitment: self.commitment.xor,
            sum_commitment: self.commitment.sum,
            digest: hash::sha256(
                bytes::text("psy/coordinator-rollback-realm-reward-source-dataset/v1"@)
                    + self.plan_digest@ + self.mapping_digest@ + bytes::be64(self.rows)
                    + bytes::be64(self.bytes) + self.commitment.xor@ + self.commitment.sum@,
            ),
        }
    }

    pub fn finish(self) -> (snapshot: RewardDatasetSnapshot)
        ensures
            snapshot == self.spec_finish(),
    {
        let mut preimage: Vec<u8> = text_bytes(
            "psy/coordinator-rollback-realm-reward-source-dataset/v1",
        );
        push_bytes(&mut preimage, &self.plan_digest);
        push_bytes(&mut preimage, &self.mapping_digest);
        push_u64(&mut preimage, self.rows);
        push_u64(&mut preimage, self.bytes);
        push_bytes(&mut preimage, &self.commitment.xor);
        push_bytes(&mut preimage, &self.commitment.sum);
        RewardDatasetSnapshot {
            selected_rows: self.rows,
            source_bytes: self.bytes,
            xor_commitment: self.commitment.xor,
            sum_commitment: self.commitment.sum,
            digest: sha256_digest(&preimage),
        }
    }
}

proof fn lemma_dataset_grows(rows: Seq<RewardRowModel>, row: RewardRowModel)
    ensures
        dataset_of(rows.push(row)) == dataset_with(dataset_of(rows), row),
{
    reveal_with_fuel(Seq::fold_left, 2);
    let whole = rows.push(row);
    assert(whole.drop_last() =~= rows);
    assert(whole.last() == row);
}

/// What the archive store says of a reward row that it keeps.
#[derive(Clone, Copy, Debug, PartialEq, Eq)]
pub struct CoordinatorRollbackArchivedRealmRewardRow {
    pub slot: [u8; 32],
    pub digest: [u8; 32],
    pub canonical_bytes: u64,
}

#[derive(Clone, Copy, Debug, PartialEq, Eq)]
pub struct RewardArchiveFinished {
    pub rows: u64,
    pub bytes: u64,
    pub digest: [u8; 32],
}

/// Adds up the rows that were archived.
#[derive(Clone, Copy, Debug, PartialEq, Eq)]
pub struct RewardArchiveAccumulator {
    pub rows: u64,
    pub bytes: u64,
    pub commitment: MultisetCommitment,
    pub plan_digest: [u8; 32],
}

/// The commitment to one archived row.
pub open spec fn archive_member(persisted: CoordinatorRollbackArchivedRealmRewardRow) -> [u8; 32] {
    hash::sha256(
        bytes::text("psy/coordinator-rollback-realm-reward-archive-member/v1"@) + persisted.slot@
            + persisted.digest@,
    )
}

impl RewardArchiveAccumulator {
    pub fn new(plan: &CoordinatorRollbackArchivePlan) -> (accumulator: Self)
        ensures
            accumulator.rows == 0,
            accumulator.bytes == 0,
            accumulator.commitment@ == commitment::committed(Seq::empty()),
            accumulator.plan_digest == plan.digest.0,
    {
        RewardArchiveAccumulator {
            rows: 0,
            bytes: 0,
            commitment: MultisetCommitment::empty(),
            plan_digest: plan.digest.0,
        }
    }

    /// The accumulator with one more row in it.
    pub open spec fn took(
        &self,
        after: &Self,
        persisted: CoordinatorRollbackArchivedRealmRewardRow,
    ) -> bool {
        &&& after.rows == self.rows + 1
        &&& after.bytes == self.bytes + persisted.canonical_bytes
        &&& after.commitment@ == commitment::with_member(
            self.commitment@,
            archive_member(persisted),
        )
        &&& after.plan_digest == self.plan_digest
    }

    /// There is no room for one more row.
    pub open spec fn overflows(
        &self,
        persisted: CoordinatorRollbackArchivedRealmRewardRow,
    ) -> bool {
        self.rows + 1 > u64::MAX || self.bytes + persisted.canonical_bytes > u64::MAX
    }

    pub fn observe(&mut self, persisted: CoordinatorRollbackArchivedRealmRewardRow) -> (result:
        Result<(), CoordinatorRollbackRealmRewardCatalogError>)
        ensures
            if old(self).overflows(persisted) {
                result == Err::<(), _>(CoordinatorRollbackRealmRewardCatalogError::LengthOverflow)
                    && *final(self) == *old(self)
            } else {
                result is Ok && old(self).took(&*final(self), persisted)
            },
    {
        let rows: u64 = match self.rows.checked_add(1) {
            Some(rows) => rows,
            None => return Err(CoordinatorRollbackRealmRewardCatalogError::LengthOverflow),
        };
        let bytes: u64 = match self.bytes.checked_add(persisted.canonical_bytes) {
            Some(bytes) => bytes,
            None => return Err(CoordinatorRollbackRealmRewardCatalogError::LengthOverflow),
        };
        let mut preimage: Vec<u8> = text_bytes(
            "psy/coordinator-rollback-realm-reward-archive-member/v1",
        );
        push_bytes(&mut preimage, &persisted.slot);
        push_bytes(&mut preimage, &persisted.digest);
        self.rows = rows;
        self.bytes = bytes;
        self.commitment.add_member(sha256_digest(&preimage));
        Ok(())
    }

    pub fn finish(self) -> (finished: RewardArchiveFinished)
        ensures
            finished == (RewardArchiveFinished {
                rows: self.rows,
                bytes: self.bytes,
                digest: hash::sha256(
                    bytes::text("psy/coordinator-rollback-realm-reward-archive-dataset/v1"@)
                        + self.plan_digest@ + bytes::be64(self.rows) + bytes::be64(self.bytes)
                        + self.commitment.xor@ + self.commitment.sum@,
                ),
            }),
    {
        let mut preimage: Vec<u8> = text_bytes(
            "psy/coordinator-rollback-realm-reward-archive-dataset/v1",
        );
        push_bytes(&mut preimage, &self.plan_digest);
        push_u64(&mut preimage, self.rows);
        push_u64(&mut preimage, self.bytes);
        push_bytes(&mut preimage, &self.commitment.xor);
        push_bytes(&mut preimage, &self.commitment.sum);
        RewardArchiveFinished {
            rows: self.rows,
            bytes: self.bytes,
            digest: sha256_digest(&preimage),
        }
    }
}

/// A selection fits the head and the plan: it holds a pending identity for every row
/// of the suffix, and the head is the requested one, one epoch later.
pub open spec fn selection_fits(
    expected_head: StoredHeadModel,
    plan: &CoordinatorRollbackArchivePlan,
    selection: &VerifiedCoordinatorRollbackSuffixSelection,
) -> bool {
    &&& selection.pendings@.len() == selection.summary.suffix_rows
    &&& selection.summary.source_chain_epoch + 1 == expected_head.canonical.chain_epoch
    &&& expected_head.canonical.checkpoint == plan.request.requested_head
}

pub fn validate_selection(
    expected_head: &StoredHead,
    plan: &CoordinatorRollbackArchivePlan,
    selection: &VerifiedCoordinatorRollbackSuffixSelection,
) -> (result: Result<(), CoordinatorRollbackRealmRewardCatalogError>)
    ensures
        result == (if selection_fits(expected_head@, plan, selection) {
            Ok::<(), CoordinatorRollbackRealmRewardCatalogError>(())
        } else {
            Err(CoordinatorRollbackRealmRewardCatalogError::SelectionMismatch)
        }),
{
    let next_epoch: Option<u64> = selection.summary.source_chain_epoch.checked_add(1);
    if selection.pending_rows() as u64 != selection.summary.suffix_rows {
        return Err(CoordinatorRollbackRealmRewardCatalogError::SelectionMismatch);
    }
    match next_epoch {
        Some(epoch) => {
            if epoch != expected_head.canonical.chain_epoch {
                return Err(CoordinatorRollbackRealmRewardCatalogError::SelectionMismatch);
            }
        },
        None => return Err(CoordinatorRollbackRealmRewardCatalogError::SelectionMismatch),
    }
    if !expected_head.canonical.checkpoint.same(&plan.request.requested_head) {
        return Err(CoordinatorRollbackRealmRewardCatalogError::SelectionMismatch);
    }
    Ok(())
}

/// What the storage codecs make of a stored node: its decompressed bytes, and the
/// bytes that the node they decode to is written as.
#[verifier::ext_equal]
#[derive(Clone, Debug, PartialEq, Eq)]
pub struct DecodedNode<B> {
    pub canonical: B,
    pub rebuilt: B,
}

impl View for DecodedNode<Vec<u8>> {
    type V = DecodedNode<Seq<u8>>;

    open spec fn view(&self) -> DecodedNode<Seq<u8>> {
        DecodedNode { canonical: self.canonical@, rebuilt: self.rebuilt@ }
    }
}

/// Why a stored node is refused.
pub open spec fn source_refusal(decoded: Result<DecodedNode<Vec<u8>>, String>) -> Option<
    CoordinatorRollbackRealmRewardCatalogError,
> {
    match decoded {
        Err(refused) => Some(CoordinatorRollbackRealmRewardCatalogError::MalformedSource(refused)),
        Ok(node) => if node.rebuilt@ != node.canonical@ {
            Some(CoordinatorRollbackRealmRewardCatalogError::NonCanonicalSource)
        } else {
            None
        },
    }
}

pub fn validate_source_value(decoded: Result<DecodedNode<Vec<u8>>, String>) -> (result: Result<
    (),
    CoordinatorRollbackRealmRewardCatalogError,
>)
    ensures
        match source_refusal(decoded) {
            Some(error) => result == Err::<(), _>(error),
            None => result is Ok,
        },
{
    match decoded {
        Err(refused) => Err(CoordinatorRollbackRealmRewardCatalogError::MalformedSource(refused)),
        Ok(node) => if !bytes_equal(&node.rebuilt, &node.canonical) {
            Err(CoordinatorRollbackRealmRewardCatalogError::NonCanonicalSource)
        } else {
            Ok(())
        },
    }
}

pub fn require_before_fence(plan: &CoordinatorRollbackArchivePlan, writetime_us: i64) -> (result:
    Result<(), CoordinatorRollbackRealmRewardCatalogError>)
    ensures
        result == (if writetime_us > plan.request.fence.orphan_write_max_us {
            Err::<(), _>(
                CoordinatorRollbackRealmRewardCatalogError::WriteAfterFence {
                    writetime_us,
                    orphan_write_max_us: plan.request.fence.orphan_write_max_us,
                },
            )
        } else {
            Ok(())
        }),
{
    let maximum: i64 = plan.request.fence.orphan_write_max_us;
    if writetime_us > maximum {
        Err(
            CoordinatorRollbackRealmRewardCatalogError::WriteAfterFence {
                writetime_us,
                orphan_write_max_us: maximum,
            },
        )
    } else {
        Ok(())
    }
}

/// One row as the table scan reads it.
#[derive(Clone, Debug, PartialEq, Eq)]
pub struct RewardScanRow {
    pub realm: Option<i64>,
    pub pending: Option<i64>,
    pub value: Option<Vec<u8>>,
    pub writetime_us: Option<i64>,
}

/// The checkpoint that a selection has for a pending identity.
pub open spec fn selected_checkpoint(
    selection: &VerifiedCoordinatorRollbackSuffixSelection,
    pending: u64,
) -> Option<u64> {
    if selection.pendings@.contains(pending) {
        Some((selection.first_checkpoint + selection.pendings@.index_of(pending)) as u64)
    } else {
        None
    }
}

/// What a row of the table comes to: nothing where the selection does not hold its
/// pending identity, else a verified row. `decoded` is what the codecs make of its
/// value.
pub open spec fn selected_row(
    fingerprint: [u8; 32],
    expected_head: StoredHeadModel,
    plan: &CoordinatorRollbackArchivePlan,
    selection: &VerifiedCoordinatorRollbackSuffixSelection,
    row: RewardScanRow,
    decoded: Result<DecodedNode<Vec<u8>>, String>,
) -> Result<Option<RewardRowModel>, CoordinatorRollbackRealmRewardCatalogError> {
    let maximum = plan.request.fence.orphan_write_max_us;
    if row.pending is None {
        Err(CoordinatorRollbackRealmRewardCatalogError::MissingSourceColumn)
    } else if row.pending->0 < 0 {
        Ok(None)
    } else if row.pending->0 == 0 {
        Err(CoordinatorRollbackRealmRewardCatalogError::IntegerOutOfRange)
    } else {
        match selected_checkpoint(selection, row.pending->0 as u64) {
            None => Ok(None),
            Some(checkpoint) => if row.realm is None {
                Err(CoordinatorRollbackRealmRewardCatalogError::MissingSourceColumn)
            } else if row.realm->0 < 0 {
                Err(CoordinatorRollbackRealmRewardCatalogError::IntegerOutOfRange)
            } else if row.value is None || row.writetime_us is None {
                Err(CoordinatorRollbackRealmRewardCatalogError::MissingSourceColumn)
            } else if source_refusal(decoded) is Some {
                Err(source_refusal(decoded)->0)
            } else if row.writetime_us->0 > maximum {
                Err(
                    CoordinatorRollbackRealmRewardCatalogError::WriteAfterFence {
                        writetime_us: row.writetime_us->0,
                        orphan_write_max_us: maximum,
                    },
                )
            } else {
                Ok(
                    Some(
                        VerifiedCoordinatorRollbackRealmRewardRow {
                            catalog_fingerprint: fingerprint,
                            network: expected_head.canonical.network,
                            rollback_epoch: expected_head.canonical.chain_epoch,
                            source_epoch: selection.summary.source_chain_epoch,
                            mapping_catalog_fingerprint: selection.summary.catalog_fingerprint,
                            mapping_catalog_digest: selection.summary.catalog_digest.0,
                            mapping_source_digest: selection.summary.source_digest,
                            source_checkpoint: checkpoint,
                            source: RewardSourceRow {
                                realm: row.realm->0 as u64,
                                pending: UniquePendingId { value: row.pending->0 as u64 },
                                value: (row.value->0)@,
                                writetime_us: row.writetime_us->0,
                            },
                        },
                    ),
                )
            },
        }
    }
}

pub open spec fn selected_result(
    result: Result<Option<RewardRow>, CoordinatorRollbackRealmRewardCatalogError>,
) -> Result<Option<RewardRowModel>, CoordinatorRollbackRealmRewardCatalogError> {
    match result {
        Ok(Some(row)) => Ok(Some(row@)),
        Ok(None) => Ok(None),
        Err(error) => Err(error),
    }
}

/// Selects one row of the table scan.
pub fn select_row(
    fingerprint: [u8; 32],
    expected_head: &StoredHead,
    plan: &CoordinatorRollbackArchivePlan,
    selection: &VerifiedCoordinatorRollbackSuffixSelection,
    row: RewardScanRow,
    decoded: Result<DecodedNode<Vec<u8>>, String>,
) -> (result: Result<Option<RewardRow>, CoordinatorRollbackRealmRewardCatalogError>)
    requires
        selection.wf(),
    ensures
        selected_result(result) == selected_row(
            fingerprint,
            expected_head@,
            plan,
            selection,
            row,
            decoded,
        ),
{
    let pending: i64 = match row.pending {
        Some(pending) => pending,
        None => return Err(CoordinatorRollbackRealmRewardCatalogError::MissingSourceColumn),
    };
    if pending < 0 {
        return Ok(None);
    }
    let pending = match UniquePendingId::try_new(pending as u64) {
        Some(pending) => pending,
        None => return Err(CoordinatorRollbackRealmRewardCatalogError::IntegerOutOfRange),
    };
    let checkpoint: u64 = match selection.checkpoint_for_pending(pending) {
        Some(checkpoint) => checkpoint,
        None => return Ok(None),
    };
    proof {
        let pendings = selection.pendings@;
        let i = choose|i: int|
            0 <= i < pendings.len() && #[trigger] pendings[i] == pending.value && checkpoint
                == selection.first_checkpoint + i;
        assert(pendings.contains(pending.value));
        let k = pendings.index_of(pending.value);
        assert(pendings[k] == pending.value);
        assert(k == i);
    }
    let realm: i64 = match row.realm {
        Some(realm) => realm,
        None => return Err(CoordinatorRollbackRealmRewardCatalogError::MissingSourceColumn),
    };
    if realm < 0 {
        return Err(CoordinatorRollbackRealmRewardCatalogError::IntegerOutOfRange);
    }
    let value = match row.value {
        Some(value) => value,
        None => return Err(CoordinatorRollbackRealmRewardCatalogError::MissingSourceColumn),
    };
    let writetime_us: i64 = match row.writetime_us {
        Some(writetime_us) => writetime_us,
        None => return Err(CoordinatorRollbackRealmRewardCatalogError::MissingSourceColumn),
    };
    validate_source_value(decoded)?;
    require_before_fence(plan, writetime_us)?;
    Ok(
        Some(
            VerifiedCoordinatorRollbackRealmRewardRow {
                catalog_fingerprint: fingerprint,
                network: expected_head.canonical.network,
                rollback_epoch: expected_head.canonical.chain_epoch,
                source_epoch: selection.summary.source_chain_epoch,
                mapping_catalog_fingerprint: selection.summary.catalog_fingerprint,
                mapping_catalog_digest: selection.summary.catalog_digest.0,
                mapping_source_digest: selection.summary.source_digest,
                source_checkpoint: checkpoint,
                source: RewardSourceRow { realm: realm as u64, pending, value, writetime_us },
            },
        ),
    )
}

/// The key of a point read, as the store binds it.
pub fn source_point_key(realm: u64, pending: UniquePendingId) -> (result: Result<
    (i64, i64),
    CoordinatorRollbackRealmRewardCatalogError,
>)
    ensures
        result == (if realm > i64::MAX || pending.value > i64::MAX {
            Err::<(i64, i64), _>(CoordinatorRollbackRealmRewardCatalogError::IntegerOutOfRange)
        } else {
            Ok((realm as i64, pending.value as i64))
        }),
{
    if realm > i64::MAX as u64 || pending.value > i64::MAX as u64 {
        Err(CoordinatorRollbackRealmRewardCatalogError::IntegerOutOfRange)
    } else {
        Ok((realm as i64, pending.value as i64))
    }
}

/// The row that a point read found, if it found one.
pub fn source_point(
    realm: u64,
    pending: UniquePendingId,
    row: Option<(Option<Vec<u8>>, Option<i64>)>,
) -> (result: Result<
    Option<RewardSourceRow<Vec<u8>>>,
    CoordinatorRollbackRealmRewardCatalogError,
>)
    ensures
        match row {
            None => result == Ok::<
                Option<RewardSourceRow<Vec<u8>>>,
                CoordinatorRollbackRealmRewardCatalogError,
            >(None),
            Some((Some(value), Some(writetime_us))) => result matches Ok(Some(found)) && found@ == (
            RewardSourceRow { realm, pending, value: value@, writetime_us }),
            Some(_) => result == Err::<Option<RewardSourceRow<Vec<u8>>>, _>(
                CoordinatorRollbackRealmRewardCatalogError::MissingSourceColumn,
            ),
        },
{
    match row {
        None => Ok(None),
        Some((Some(value), Some(writetime_us))) => Ok(
            Some(RewardSourceRow { realm, pending, value, writetime_us }),
        ),
        Some(_) => Err(CoordinatorRollbackRealmRewardCatalogError::MissingSourceColumn),
    }
}

/// How archiving one row went: what the store answered, and what a point read of the
/// source found behind it.
pub struct RewardArchiving {
    pub persisted: Result<CoordinatorRollbackArchivedRealmRewardRow, String>,
    pub after: Result<
        Option<RewardSourceRow<Vec<u8>>>,
        CoordinatorRollbackRealmRewardCatalogError,
    >,
}

/// Why the archiving of a row does not count.
pub open spec fn archiving_refusal(row: RewardRowModel, archiving: RewardArchiving) -> Option<
    CoordinatorRollbackRealmRewardCatalogError,
> {
    match (archiving.persisted, archiving.after) {
        (Err(refused), _) => Some(CoordinatorRollbackRealmRewardCatalogError::Archive(refused)),
        (Ok(_), Err(error)) => Some(error),
        (Ok(_), Ok(None)) => Some(CoordinatorRollbackRealmRewardCatalogError::SourceChanged),
        (Ok(_), Ok(Some(after))) => if after@ != row.source {
            Some(CoordinatorRollbackRealmRewardCatalogError::SourceChanged)
        } else {
            None
        },
    }
}

/// One full scan of the table, with or without archiving.
pub struct RewardScan {
    pub dataset: RewardDatasetAccumulator,
    pub archived: Option<RewardArchiveAccumulator>,
}

impl RewardScan {
    pub fn begin(
        expected_head: &StoredHead,
        plan: &CoordinatorRollbackArchivePlan,
        selection: &VerifiedCoordinatorRollbackSuffixSelection,
        archiving: bool,
    ) -> (result: Result<Self, CoordinatorRollbackRealmRewardCatalogError>)
        ensures
            if !selection_fits(expected_head@, plan, selection) {
                result == Err::<RewardScan, _>(
                    CoordinatorRollbackRealmRewardCatalogError::SelectionMismatch,
                )
            } else {
                &&& result matches Ok(scan)
                &&& scan.dataset.plan_digest == plan.digest.0
                &&& scan.dataset.mapping_digest == selection.summary.catalog_digest.0
                &&& scan.dataset.met(Seq::empty())
                &&& scan.archived is Some == archiving
                &&& scan.archived matches Some(archived) ==> {
                    &&& archived.rows == 0
                    &&& archived.bytes == 0
                    &&& archived.commitment@ == commitment::committed(Seq::empty())
                    &&& archived.plan_digest == plan.digest.0
                }
            },
    {
        validate_selection(expected_head, plan, selection)?;
        Ok(
            RewardScan {
                dataset: RewardDatasetAccumulator::new(plan, &selection.summary),
                archived: if archiving {
                    Some(RewardArchiveAccumulator::new(plan))
                } else {
                    None
                },
            },
        )
    }

    /// Records one selected row. While archiving, the row has to be persisted and its
    /// source has to be unchanged behind that.
    pub fn record(&mut self, row: &RewardRow, archiving: Option<RewardArchiving>) -> (result: Result<
        (),
        CoordinatorRollbackRealmRewardCatalogError,
    >)
        requires
            old(self).archived is Some == archiving is Some,
        ensures
            scan_recorded(*old(self), row@, archiving, *final(self), result),
    {
        let row_commitment = source_row_commitment(row);
        match archiving {
            None => {},
            Some(outcome) => {
                let persisted = match outcome.persisted {
                    Err(refused) => {
                        return Err(CoordinatorRollbackRealmRewardCatalogError::Archive(refused));
                    },
                    Ok(persisted) => persisted,
                };
                let after = match outcome.after {
                    Err(error) => return Err(error),
                    Ok(None) => {
                        return Err(CoordinatorRollbackRealmRewardCatalogError::SourceChanged);
                    },
                    Ok(Some(after)) => after,
                };
                if !after.same(&row.source) {
                    return Err(CoordinatorRollbackRealmRewardCatalogError::SourceChanged);
                }
                match self.archived {
                    None => {},
                    Some(archived) => {
                        let mut archived = archived;
                        archived.observe(persisted)?;
                        self.archived = Some(archived);
                    },
                }
            },
        }
        self.dataset.observe(row, row_commitment)
    }

    pub fn finish(self) -> (finished: (RewardDatasetSnapshot, Option<RewardArchiveFinished>))
        ensures
            finished.0 == self.dataset.spec_finish(),
            finished.1 is Some == self.archived is Some,
            finished.1 matches Some(archive) ==> archive.rows == self.archived->0.rows
                && archive.bytes == self.archived->0.bytes && archive.digest == hash::sha256(
                bytes::text("psy/coordinator-rollback-realm-reward-archive-dataset/v1"@)
                    + self.archived->0.plan_digest@ + bytes::be64(self.archived->0.rows)
                    + bytes::be64(self.archived->0.bytes) + self.archived->0.commitment.xor@
                    + self.archived->0.commitment.sum@,
            ),
    {
        (
            self.dataset.finish(),
            match self.archived {
                Some(archived) => Some(archived.finish()),
                None => None,
            },
        )
    }
}

/// The head that is current has to be the expected one. `read` is the head that the
/// store has as current, where it has one.
pub fn require_current_head(
    read: Result<Option<StoredHead>, String>,
    expected: &StoredHead,
) -> (result: Result<(), CoordinatorRollbackRealmRewardCatalogError>)
    ensures
        match read {
            Err(refused) => result == Err::<(), _>(
                CoordinatorRollbackRealmRewardCatalogError::Head(refused),
            ),
            Ok(Some(current)) => result == (if current@ == expected@ {
                Ok::<(), _>(())
            } else {
                Err(CoordinatorRollbackRealmRewardCatalogError::HeadChanged)
            }),
            Ok(None) => result == Err::<(), _>(
                CoordinatorRollbackRealmRewardCatalogError::HeadChanged,
            ),
        },
{
    match read {
        Err(refused) => Err(CoordinatorRollbackRealmRewardCatalogError::Head(refused)),
        Ok(Some(current)) => if current.same(expected) {
            Ok(())
        } else {
            Err(CoordinatorRollbackRealmRewardCatalogError::HeadChanged)
        },
        Ok(None) => Err(CoordinatorRollbackRealmRewardCatalogError::HeadChanged),
    }
}

/// Progress evidence for the reward rows that were copied.
#[derive(Clone, Copy, Debug, PartialEq, Eq)]
pub struct CoordinatorRollbackRealmRewardArchiveSummary {
    pub mapping: CoordinatorRollbackMappingArchiveSummary,
    pub selected_rows: u64,
    pub archive_bytes: u64,
    pub archive_digest: [u8; 32],
}

impl CoordinatorRollbackRealmRewardArchiveSummary {
    pub fn mapping(self) -> (mapping: CoordinatorRollbackMappingArchiveSummary)
        ensures
            mapping == self.mapping,
    {
        self.mapping
    }

    pub fn selected_rows(self) -> (rows: u64)
        ensures
            rows == self.selected_rows,
    {
        self.selected_rows
    }

    pub fn archive_bytes(self) -> (bytes: u64)
        ensures
            bytes == self.archive_bytes,
    {
        self.archive_bytes
    }

    pub fn archive_digest(self) -> (digest: [u8; 32])
        ensures
            digest == self.archive_digest,
    {
        self.archive_digest
    }
}

/// What has to be done next to archive the reward rows. The mapping rows come first.
/// Three passes follow, each behind a check of the head and with a selection and a scan
/// of its own, and a last check of the head. The second pass archives.
#[derive(Clone, Copy, Debug, PartialEq, Eq, Structural)]
pub enum RewardArchiveStage {
    ArchiveMapping,
    RequireHead { pass: u8 },
    Select { pass: u8 },
    Scan { pass: u8 },
    Conclude,
}

/// How far the archiving of the reward rows has come.
#[verifier::ext_equal]
pub struct RewardArchive<P> {
    pub stage: RewardArchiveStage,
    pub mapping: Option<CoordinatorRollbackMappingArchiveSummary>,
    pub selected: Option<SelectedSuffix<P>>,
    pub dataset: Option<RewardDatasetSnapshot>,
    /// Some pass selected or scanned another source than the first one.
    pub changed: bool,
    pub archived: Option<RewardArchiveFinished>,
}

pub type RewardArchiveModel = RewardArchive<Seq<u64>>;

impl View for RewardArchive<Vec<u64>> {
    type V = RewardArchive<Seq<u64>>;

    open spec fn view(&self) -> RewardArchive<Seq<u64>> {
        RewardArchive {
            stage: self.stage,
            mapping: self.mapping,
            selected: match self.selected {
                Some(selected) => Some(selected@),
                None => None,
            },
            dataset: self.dataset,
            changed: self.changed,
            archived: self.archived,
        }
    }
}

pub open spec fn archive_begun() -> RewardArchiveModel {
    RewardArchive {
        stage: RewardArchiveStage::ArchiveMapping,
        mapping: None,
        selected: None,
        dataset: None,
        changed: false,
        archived: None,
    }
}

/// Behind the archiving of the mapping rows.
pub open spec fn mapping_taken(
    archive: RewardArchiveModel,
    mapping: Result<CoordinatorRollbackMappingArchiveSummary, String>,
) -> Result<RewardArchiveModel, CoordinatorRollbackRealmRewardCatalogError> {
    match (archive.stage, mapping) {
        (RewardArchiveStage::ArchiveMapping, Err(refused)) => Err(
            CoordinatorRollbackRealmRewardCatalogError::BranchCatalog(refused),
        ),
        (RewardArchiveStage::ArchiveMapping, Ok(mapping)) => Ok(
            RewardArchive {
                stage: RewardArchiveStage::RequireHead { pass: 1 },
                mapping: Some(mapping),
                ..archive
            },
        ),
        _ => Err(CoordinatorRollbackRealmRewardCatalogError::OutOfOrder),
    }
}

/// The head that a read found, by its view.
pub open spec fn head_read_view(read: Result<Option<StoredHead>, String>) -> Result<
    Option<StoredHeadModel>,
    String,
> {
    match read {
        Ok(Some(head)) => Ok(Some(head@)),
        Ok(None) => Ok(None),
        Err(refused) => Err(refused),
    }
}

/// Behind a check of the head.
pub open spec fn head_taken(
    archive: RewardArchiveModel,
    read: Result<Option<StoredHeadModel>, String>,
    expected: StoredHeadModel,
) -> Result<RewardArchiveModel, CoordinatorRollbackRealmRewardCatalogError> {
    match (archive.stage, read) {
        (RewardArchiveStage::RequireHead { pass }, Ok(Some(head))) => if head != expected {
            Err(CoordinatorRollbackRealmRewardCatalogError::HeadChanged)
        } else {
            Ok(
                RewardArchive {
                    stage: if pass <= 3 {
                        RewardArchiveStage::Select { pass }
                    } else {
                        RewardArchiveStage::Conclude
                    },
                    ..archive
                },
            )
        },
        (RewardArchiveStage::RequireHead { .. }, Ok(None)) => Err(
            CoordinatorRollbackRealmRewardCatalogError::HeadChanged,
        ),
        (RewardArchiveStage::RequireHead { .. }, Err(refused)) => Err(
            CoordinatorRollbackRealmRewardCatalogError::Head(refused),
        ),
        _ => Err(CoordinatorRollbackRealmRewardCatalogError::OutOfOrder),
    }
}

/// Behind a selection.
pub open spec fn selection_taken(
    archive: RewardArchiveModel,
    selection: Result<SelectedSuffix<Seq<u64>>, String>,
) -> Result<RewardArchiveModel, CoordinatorRollbackRealmRewardCatalogError> {
    match (archive.stage, selection) {
        (RewardArchiveStage::Select { .. }, Err(refused)) => Err(
            CoordinatorRollbackRealmRewardCatalogError::BranchCatalog(refused),
        ),
        (RewardArchiveStage::Select { pass }, Ok(suffix)) => match (
            archive.selected,
            archive.mapping,
        ) {
            (Some(first), _) => Ok(
                RewardArchive {
                    stage: RewardArchiveStage::Scan { pass },
                    changed: archive.changed || first != suffix,
                    ..archive
                },
            ),
            (None, Some(mapping)) => if mapping.catalog != suffix.summary {
                Err(CoordinatorRollbackRealmRewardCatalogError::SourceChanged)
            } else {
                Ok(
                    RewardArchive {
                        stage: RewardArchiveStage::Scan { pass },
                        selected: Some(suffix),
                        ..archive
                    },
                )
            },
            (None, None) => Err(CoordinatorRollbackRealmRewardCatalogError::OutOfOrder),
        },
        _ => Err(CoordinatorRollbackRealmRewardCatalogError::OutOfOrder),
    }
}

/// Behind a scan.
pub open spec fn scan_taken(
    archive: RewardArchiveModel,
    scan: Result<
        (RewardDatasetSnapshot, Option<RewardArchiveFinished>),
        CoordinatorRollbackRealmRewardCatalogError,
    >,
) -> Result<RewardArchiveModel, CoordinatorRollbackRealmRewardCatalogError> {
    match (archive.stage, scan) {
        (RewardArchiveStage::Scan { .. }, Err(error)) => Err(error),
        (RewardArchiveStage::Scan { pass }, Ok((dataset, archived))) => if pass > 3 {
            Err(CoordinatorRollbackRealmRewardCatalogError::OutOfOrder)
        } else {
            Ok(
                RewardArchive {
                    stage: RewardArchiveStage::RequireHead { pass: (pass + 1) as u8 },
                    dataset: if archive.dataset is Some {
                        archive.dataset
                    } else {
                        Some(dataset)
                    },
                    changed: archive.changed || (archive.dataset is Some && archive.dataset->0
                        != dataset),
                    archived: if pass == 2 {
                        archived
                    } else {
                        archive.archived
                    },
                    ..archive
                },
            )
        },
        _ => Err(CoordinatorRollbackRealmRewardCatalogError::OutOfOrder),
    }
}

/// What the archiving comes to.
pub open spec fn archive_concluded(archive: RewardArchiveModel) -> Result<
    CoordinatorRollbackRealmRewardArchiveSummary,
    CoordinatorRollbackRealmRewardCatalogError,
> {
    match (archive.stage, archive.mapping, archive.dataset) {
        (RewardArchiveStage::Conclude, Some(mapping), Some(dataset)) => if archive.changed {
            Err(CoordinatorRollbackRealmRewardCatalogError::SourceChanged)
        } else {
            match archive.archived {
                None => Err(CoordinatorRollbackRealmRewardCatalogError::ArchiveSummaryMissing),
                Some(archived) => if archived.rows != dataset.selected_rows {
                    Err(
                        CoordinatorRollbackRealmRewardCatalogError::ArchiveRowCountMismatch {
                            expected: dataset.selected_rows,
                            actual: archived.rows,
                        },
                    )
                } else {
                    Ok(
                        CoordinatorRollbackRealmRewardArchiveSummary {
                            mapping,
                            selected_rows: archived.rows,
                            archive_bytes: archived.bytes,
                            archive_digest: archived.digest,
                        },
                    )
                },
            }
        },
        _ => Err(CoordinatorRollbackRealmRewardCatalogError::OutOfOrder),
    }
}

pub open spec fn archive_result(
    result: Result<RewardArchive<Vec<u64>>, CoordinatorRollbackRealmRewardCatalogError>,
) -> Result<RewardArchiveModel, CoordinatorRollbackRealmRewardCatalogError> {
    match result {
        Ok(archive) => Ok(archive@),
        Err(error) => Err(error),
    }
}

/// A selection that was made, by its view.
pub open spec fn selection_view(
    selection: Result<&VerifiedCoordinatorRollbackSuffixSelection, String>,
) -> Result<SelectedSuffix<Seq<u64>>, String> {
    match selection {
        Ok(selection) => Ok(coordinator_rollback_branch_scan::suffix_of(selection)),
        Err(refused) => Err(refused),
    }
}

impl RewardArchive<Vec<u64>> {
    pub fn begin() -> (archive: Self)
        ensures
            archive@ == archive_begun(),
    {
        RewardArchive {
            stage: RewardArchiveStage::ArchiveMapping,
            mapping: None,
            selected: None,
            dataset: None,
            changed: false,
            archived: None,
        }
    }

    pub fn take_mapping(
        self,
        mapping: Result<CoordinatorRollbackMappingArchiveSummary, String>,
    ) -> (result: Result<Self, CoordinatorRollbackRealmRewardCatalogError>)
        ensures
            archive_result(result) == mapping_taken(self@, mapping),
    {
        match (self.stage, mapping) {
            (RewardArchiveStage::ArchiveMapping, Err(refused)) => Err(
                CoordinatorRollbackRealmRewardCatalogError::BranchCatalog(refused),
            ),
            (RewardArchiveStage::ArchiveMapping, Ok(mapping)) => Ok(
                RewardArchive {
                    stage: RewardArchiveStage::RequireHead { pass: 1 },
                    mapping: Some(mapping),
                    ..self
                },
            ),
            _ => Err(CoordinatorRollbackRealmRewardCatalogError::OutOfOrder),
        }
    }

    pub fn take_head(self, read: Result<Option<StoredHead>, String>, expected: &StoredHead) -> (result:
        Result<Self, CoordinatorRollbackRealmRewardCatalogError>)
        ensures
            archive_result(result) == head_taken(self@, head_read_view(read), expected@),
    {
        match self.stage {
            RewardArchiveStage::RequireHead { pass } => {
                require_current_head(read, expected)?;
                Ok(
                    RewardArchive {
                        stage: if pass <= 3 {
                            RewardArchiveStage::Select { pass }
                        } else {
                            RewardArchiveStage::Conclude
                        },
                        ..self
                    },
                )
            },
            _ => Err(CoordinatorRollbackRealmRewardCatalogError::OutOfOrder),
        }
    }

    pub fn take_selection(
        self,
        selection: Result<&VerifiedCoordinatorRollbackSuffixSelection, String>,
    ) -> (result: Result<Self, CoordinatorRollbackRealmRewardCatalogError>)
        ensures
            archive_result(result) == selection_taken(self@, selection_view(selection)),
    {
        let pass: u8 = match self.stage {
            RewardArchiveStage::Select { pass } => pass,
            _ => return Err(CoordinatorRollbackRealmRewardCatalogError::OutOfOrder),
        };
        let selection = match selection {
            Err(refused) => {
                return Err(CoordinatorRollbackRealmRewardCatalogError::BranchCatalog(refused));
            },
            Ok(selection) => selection,
        };
        let mut archive = self;
        match &archive.selected {
            Some(first) => {
                let same: bool = first.selects(selection);
                archive.changed = archive.changed || !same;
            },
            None => {
                match archive.mapping {
                    None => return Err(CoordinatorRollbackRealmRewardCatalogError::OutOfOrder),
                    Some(mapping) => {
                        if !mapping.catalog.same(&selection.summary) {
                            return Err(CoordinatorRollbackRealmRewardCatalogError::SourceChanged);
                        }
                    },
                }
                archive.selected = Some(SelectedSuffix::of(selection));
            },
        }
        archive.stage = RewardArchiveStage::Scan { pass };
        Ok(archive)
    }

    pub fn take_scan(
        self,
        scan: Result<
            (RewardDatasetSnapshot, Option<RewardArchiveFinished>),
            CoordinatorRollbackRealmRewardCatalogError,
        >,
    ) -> (result: Result<Self, CoordinatorRollbackRealmRewardCatalogError>)
        ensures
            archive_result(result) == scan_taken(self@, scan),
    {
        let pass: u8 = match self.stage {
            RewardArchiveStage::Scan { pass } => pass,
            _ => return Err(CoordinatorRollbackRealmRewardCatalogError::OutOfOrder),
        };
        let (dataset, archived) = match scan {
            Err(error) => return Err(error),
            Ok(scan) => scan,
        };
        if pass > 3 {
            return Err(CoordinatorRollbackRealmRewardCatalogError::OutOfOrder);
        }
        let mut archive = self;
        match archive.dataset {
            Some(first) => {
                archive.changed = archive.changed || !first.same(&dataset);
            },
            None => {
                archive.dataset = Some(dataset);
            },
        }
        if pass == 2 {
            archive.archived = archived;
        }
        archive.stage = RewardArchiveStage::RequireHead { pass: pass + 1 };
        Ok(archive)
    }

    /// Concludes the archiving: every pass has to have met the same source, and every
    /// selected row has to be archived.
    pub fn archive_verified_suffix(self) -> (result: Result<
        CoordinatorRollbackRealmRewardArchiveSummary,
        CoordinatorRollbackRealmRewardCatalogError,
    >)
        ensures
            result == archive_concluded(self@),
    {
        match (self.stage, self.mapping, self.dataset) {
            (RewardArchiveStage::Conclude, Some(mapping), Some(dataset)) => {
                if self.changed {
                    return Err(CoordinatorRollbackRealmRewardCatalogError::SourceChanged);
                }
                match self.archived {
                    None => Err(CoordinatorRollbackRealmRewardCatalogError::ArchiveSummaryMissing),
                    Some(archived) => if archived.rows != dataset.selected_rows {
                        Err(
                            CoordinatorRollbackRealmRewardCatalogError::ArchiveRowCountMismatch {
                                expected: dataset.selected_rows,
                                actual: archived.rows,
                            },
                        )
                    } else {
                        Ok(
                            CoordinatorRollbackRealmRewardArchiveSummary {
                                mapping,
                                selected_rows: archived.rows,
                                archive_bytes: archived.bytes,
                                archive_digest: archived.digest,
                            },
                        )
                    },
                }
            },
            _ => Err(CoordinatorRollbackRealmRewardCatalogError::OutOfOrder),
        }
    }
}

/// One pass: a check of the head, a selection and a scan.
pub open spec fn pass_taken(
    archive: Result<RewardArchiveModel, CoordinatorRollbackRealmRewardCatalogError>,
    read: Result<Option<StoredHeadModel>, String>,
    expected: StoredHeadModel,
    selection: Result<SelectedSuffix<Seq<u64>>, String>,
    scan: Result<
        (RewardDatasetSnapshot, Option<RewardArchiveFinished>),
        CoordinatorRollbackRealmRewardCatalogError,
    >,
) -> Result<RewardArchiveModel, CoordinatorRollbackRealmRewardCatalogError> {
    match archive {
        Err(error) => Err(error),
        Ok(archive) => match head_taken(archive, read, expected) {
            Err(error) => Err(error),
            Ok(archive) => match selection_taken(archive, selection) {
                Err(error) => Err(error),
                Ok(archive) => scan_taken(archive, scan),
            },
        },
    }
}

/// Archiving succeeds only if the head stayed the expected one at all four checks, the
/// three selections and the three scans met the same source, which is the one that the
/// mapping rows were archived from, and as many rows were archived as were selected.
pub proof fn law_archived_rewards_are_stable(
    expected: StoredHeadModel,
    mapping: Result<CoordinatorRollbackMappingArchiveSummary, String>,
    reads: Seq<Result<Option<StoredHeadModel>, String>>,
    selections: Seq<Result<SelectedSuffix<Seq<u64>>, String>>,
    scans: Seq<
        Result<
            (RewardDatasetSnapshot, Option<RewardArchiveFinished>),
            CoordinatorRollbackRealmRewardCatalogError,
        >,
    >,
)
    ensures
        ({
            let begun = mapping_taken(archive_begun(), mapping);
            let first = pass_taken(begun, reads[0], expected, selections[0], scans[0]);
            let second = pass_taken(first, reads[1], expected, selections[1], scans[1]);
            let third = pass_taken(second, reads[2], expected, selections[2], scans[2]);
            third matches Ok(third) ==> head_taken(third, reads[3], expected) matches Ok(last)
                ==> archive_concluded(last) matches Ok(summary) ==> {
                &&& forall|i: int| 0 <= i < 4 ==> #[trigger] reads[i] == Ok::<_, String>(Some(expected))
                &&& selections[0] is Ok && selections[0] == selections[1] && selections[1]
                    == selections[2]
                &&& scans[0] is Ok && scans[1] is Ok && scans[2] is Ok
                &&& scans[0]->Ok_0.0 == scans[1]->Ok_0.0 && scans[1]->Ok_0.0 == scans[2]->Ok_0.0
                &&& mapping == Ok::<_, String>(summary.mapping)
                &&& summary.mapping.catalog == selections[0]->Ok_0.summary
                &&& scans[1]->Ok_0.1 matches Some(archived) && archived.rows
                    == scans[1]->Ok_0.0.selected_rows && summary.selected_rows == archived.rows
                    && summary.archive_bytes == archived.bytes && summary.archive_digest
                    == archived.digest
            }
        }),
{
    let begun = mapping_taken(archive_begun(), mapping);
    let first = pass_taken(begun, reads[0], expected, selections[0], scans[0]);
    let second = pass_taken(first, reads[1], expected, selections[1], scans[1]);
    let third = pass_taken(second, reads[2], expected, selections[2], scans[2]);
    if third is Ok && head_taken(third->Ok_0, reads[3], expected) is Ok && archive_concluded(
        head_taken(third->Ok_0, reads[3], expected)->Ok_0,
    ) is Ok {
        assert(first is Ok && second is Ok);
        assert(first->Ok_0.stage == RewardArchiveStage::RequireHead { pass: 2 });
        assert(second->Ok_0.stage == RewardArchiveStage::RequireHead { pass: 3 });
        assert(third->Ok_0.stage == RewardArchiveStage::RequireHead { pass: 4 });
        assert(reads[0] == Ok::<_, String>(Some(expected)));
        assert(reads[1] == Ok::<_, String>(Some(expected)));
        assert(reads[2] == Ok::<_, String>(Some(expected)));
        assert(reads[3] == Ok::<_, String>(Some(expected)));
        assert forall|i: int| 0 <= i < 4 implies #[trigger] reads[i] == Ok::<_, String>(
            Some(expected),
        ) by {
            assert(i == 0 || i == 1 || i == 2 || i == 3);
        }
    }
}

/// Two scans that met the same rows, in whatever order the table gave them, come to the
/// same snapshot.
pub proof fn law_dataset_is_order_independent(
    first: RewardDatasetAccumulator,
    first_rows: Seq<RewardRowModel>,
    second: RewardDatasetAccumulator,
    second_rows: Seq<RewardRowModel>,
)
    requires
        first.plan_digest == second.plan_digest,
        first.mapping_digest == second.mapping_digest,
        first.met(first_rows),
        second.met(second_rows),
        first_rows.to_multiset() == second_rows.to_multiset(),
    ensures
        first.spec_finish() == second.spec_finish(),
{
    let grow = |dataset: (nat, nat, (Seq<u8>, Seq<u8>)), row: RewardRowModel|
        dataset_with(dataset, row);
    assert forall|a: RewardRowModel, b: RewardRowModel, dataset: (nat, nat, (Seq<u8>, Seq<u8>))|
        #[trigger] grow(grow(dataset, a), b) == grow(grow(dataset, b), a) by {
        commitment::lemma_members_commute(
            dataset.2,
            source_row_commitment_of(a),
            source_row_commitment_of(b),
        );
    }
    vstd::seq_lib::lemma_fold_left_permutation(
        first_rows,
        second_rows,
        grow,
        (0nat, 0nat, commitment::committed(Seq::empty())),
    );
    bytes::lemma_array_eq::<32>(first.commitment.xor, second.commitment.xor);
    bytes::lemma_array_eq::<32>(first.commitment.sum, second.commitment.sum);
}

/// A selected row was written before the fence, and belongs to a checkpoint of the
/// discarded suffix.
pub proof fn law_selected_rewards_predate_the_fence(
    fingerprint: [u8; 32],
    expected_head: StoredHeadModel,
    plan: &CoordinatorRollbackArchivePlan,
    selection: &VerifiedCoordinatorRollbackSuffixSelection,
    row: RewardScanRow,
    decoded: Result<DecodedNode<Vec<u8>>, String>,
)
    requires
        selection.wf(),
    ensures
        selected_row(fingerprint, expected_head, plan, selection, row, decoded) matches Ok(
            Some(found),
        ) ==> {
            &&& found.source.writetime_us <= plan.request.fence.orphan_write_max_us
            &&& selection.first_checkpoint <= found.source_checkpoint
                < selection.first_checkpoint + selection.pendings@.len()
            &&& selection.pendings@[found.source_checkpoint - selection.first_checkpoint]
                == found.source.pending.value
        },
{
    if let Ok(Some(found)) = selected_row(
        fingerprint,
        expected_head,
        plan,
        selection,
        row,
        decoded,
    ) {
        let pending = found.source.pending.value;
        assert(selection.pendings@.contains(pending));
        let i = selection.pendings@.index_of(pending);
        assert(selection.pendings@[i] == pending);
    }
}

/// A row of the table is passed over if its pending identity is negative or not of the
/// selection. Any other is selected exactly if it has a positive pending identity, a realm
/// that is not negative, a canonical value and a write time no later than the fence.
pub proof fn law_rewards_of_the_suffix_are_selected(
    fingerprint: [u8; 32],
    expected_head: StoredHeadModel,
    plan: &CoordinatorRollbackArchivePlan,
    selection: &VerifiedCoordinatorRollbackSuffixSelection,
    row: RewardScanRow,
    decoded: Result<DecodedNode<Vec<u8>>, String>,
)
    ensures
        ({
            let found = selected_row(
                fingerprint,
                expected_head,
                plan,
                selection,
                row,
                decoded,
            );
            let foreign = row.pending matches Some(pending) && (pending < 0 || (pending > 0
                && !selection.pendings@.contains(pending as u64)));
            let whole = {
                &&& row.pending matches Some(pending) && pending > 0
                    && selection.pendings@.contains(pending as u64)
                &&& row.realm matches Some(realm) && realm >= 0
                &&& row.value is Some
                &&& row.writetime_us matches Some(writetime_us) && writetime_us
                    <= plan.request.fence.orphan_write_max_us
                &&& decoded matches Ok(node) && node.rebuilt@ == node.canonical@
            };
            &&& found == Ok::<
                Option<RewardRowModel>,
                CoordinatorRollbackRealmRewardCatalogError,
            >(None) <==> foreign
            &&& (found is Ok && found->Ok_0 is Some) <==> whole
            &&& found is Err <==> !foreign && !whole
            &&& row.pending is None ==> found is Err && found->Err_0 is MissingSourceColumn
            &&& row.pending == Some(0i64) ==> found is Err && found->Err_0 is IntegerOutOfRange
        }),
{
}

/// A selected row keeps its realm, pending identity, value and write time, and has the
/// chain of the head and the epoch and digests of the selection that selected it.
pub proof fn law_selected_reward_keeps_its_row(
    fingerprint: [u8; 32],
    expected_head: StoredHeadModel,
    plan: &CoordinatorRollbackArchivePlan,
    selection: &VerifiedCoordinatorRollbackSuffixSelection,
    row: RewardScanRow,
    decoded: Result<DecodedNode<Vec<u8>>, String>,
)
    ensures
        selected_row(fingerprint, expected_head, plan, selection, row, decoded) matches Ok(
            Some(found),
        ) ==> {
            &&& found.source.realm == row.realm->0
            &&& found.source.pending.value == row.pending->0
            &&& found.source.value == (row.value->0)@
            &&& found.source.writetime_us == row.writetime_us->0
            &&& found.catalog_fingerprint == fingerprint
            &&& found.network == expected_head.canonical.network
            &&& found.rollback_epoch == expected_head.canonical.chain_epoch
            &&& found.source_epoch == selection.summary.source_chain_epoch
            &&& found.mapping_catalog_fingerprint == selection.summary.catalog_fingerprint
            &&& found.mapping_catalog_digest == selection.summary.catalog_digest.0
            &&& found.mapping_source_digest == selection.summary.source_digest
        },
{
}

/// A selection fits exactly if it has one pending identity for each of its rows, was made
/// one epoch before the head's, and the head is at the requested checkpoint.
pub proof fn law_fitting_selections(
    expected_head: StoredHeadModel,
    plan: &CoordinatorRollbackArchivePlan,
    selection: &VerifiedCoordinatorRollbackSuffixSelection,
)
    ensures
        selection_fits(expected_head, plan, selection) <==> {
            &&& selection.summary.suffix_rows == selection.pendings@.len()
            &&& expected_head.canonical.chain_epoch == selection.summary.source_chain_epoch + 1
            &&& expected_head.canonical.checkpoint == plan.request.requested_head
        },
{
}

/// A scan that meets one more row counts it and its bytes, and commits to everything of
/// it: the catalog, the chain, the mapping it was selected by, its checkpoint, realm,
/// pending identity, write time and value.
pub proof fn law_scan_counts_every_row(rows: Seq<RewardRowModel>, row: RewardRowModel)
    ensures
        ({
            let before = dataset_of(rows);
            let after = dataset_of(rows.push(row));
            let member = hash::sha256(
                bytes::text("psy/coordinator-rollback-realm-reward-source-row/v1"@)
                    + row.catalog_fingerprint@ + bytes::be32(row.network.chain_id) + bytes::be64(
                    row.rollback_epoch,
                ) + bytes::be64(row.source_epoch) + row.mapping_catalog_digest@
                    + row.mapping_source_digest@ + bytes::be64(row.source_checkpoint) + bytes::be64(
                    row.source.realm,
                ) + bytes::be64(row.source.pending.value) + bytes::be_i64(row.source.writetime_us)
                    + bytes::be_len(row.source.value.len()) + row.source.value,
            );
            &&& after.0 == before.0 + 1
            &&& after.1 == before.1 + row.source.value.len()
            &&& after.2 == commitment::with_member(before.2, member)
            &&& dataset_of(Seq::empty()) == (0nat, 0nat, commitment::committed(Seq::empty()))
        }),
{
    lemma_dataset_grows(rows, row);
    reveal_with_fuel(Seq::fold_left, 1);
}

/// The snapshot of a scan has what it counted, and its digest covers the plan, the
/// mapping, both counts and the commitment to every row.
pub proof fn law_snapshot_is_of_its_scan(scan: RewardDatasetAccumulator)
    ensures
        ({
            let snapshot = scan.spec_finish();
            &&& snapshot.selected_rows == scan.rows
            &&& snapshot.source_bytes == scan.bytes
            &&& snapshot.xor_commitment == scan.commitment.xor
            &&& snapshot.sum_commitment == scan.commitment.sum
            &&& snapshot.digest == hash::sha256(
                bytes::text("psy/coordinator-rollback-realm-reward-source-dataset/v1"@)
                    + scan.plan_digest@ + scan.mapping_digest@ + bytes::be64(scan.rows)
                    + bytes::be64(scan.bytes) + scan.commitment.xor@ + scan.commitment.sum@,
            )
        }),
{
}

/// An archived row counts exactly if it was persisted and the source, read again behind
/// it, still holds exactly the row.
pub proof fn law_archived_row_is_read_again(row: RewardRowModel, archiving: RewardArchiving)
    ensures
        archiving_refusal(row, archiving) is None <==> archiving.persisted is Ok && (
        archiving.after matches Ok(Some(after)) && after@ == row.source),
        archiving.persisted is Ok && archiving.after is Ok && archiving_refusal(row, archiving)
            is Some ==> archiving_refusal(row, archiving)->0 is SourceChanged,
{
}

/// An archive that takes a row counts it and its canonical bytes, and commits to its slot
/// and digest.
pub proof fn law_archive_counts_every_row(
    before: RewardArchiveAccumulator,
    after: RewardArchiveAccumulator,
    persisted: CoordinatorRollbackArchivedRealmRewardRow,
)
    requires
        before.took(&after, persisted),
    ensures
        after.rows == before.rows + 1,
        after.bytes == before.bytes + persisted.canonical_bytes,
        after.commitment@ == commitment::with_member(
            before.commitment@,
            hash::sha256(
                bytes::text("psy/coordinator-rollback-realm-reward-archive-member/v1"@)
                    + persisted.slot@ + persisted.digest@,
            ),
        ),
        after.plan_digest == before.plan_digest,
{
}

/// Reward rows that three passes select and scan alike, under a head that stays the
/// expected one and behind mapping rows that were archived from the same suffix, are
/// archived if the second scan archived as many rows as were selected. Else the count, or
/// that the source changed, is reported.
pub proof fn law_stable_rewards_are_archived(
    expected: StoredHeadModel,
    mapping: CoordinatorRollbackMappingArchiveSummary,
    suffix: SelectedSuffix<Seq<u64>>,
    again: SelectedSuffix<Seq<u64>>,
    first: RewardDatasetSnapshot,
    second: RewardDatasetSnapshot,
    third: RewardDatasetSnapshot,
    archived: RewardArchiveFinished,
    other: Option<RewardArchiveFinished>,
)
    ensures
        ({
            let read = Ok::<Option<StoredHeadModel>, String>(Some(expected));
            let begun = mapping_taken(archive_begun(), Ok(mapping));
            let one = pass_taken(begun, read, expected, Ok(suffix), Ok((first, other)));
            let two = pass_taken(one, read, expected, Ok(suffix), Ok((second, Some(archived))));
            let three = pass_taken(two, read, expected, Ok(again), Ok((third, other)));
            if mapping.catalog != suffix.summary {
                one is Err && one->Err_0 is SourceChanged
            } else {
                three is Ok && (head_taken(three->Ok_0, read, expected) matches Ok(last)
                    && match archive_concluded(last) {
                    Ok(summary) => {
                        &&& suffix == again && first == second && second == third
                        &&& archived.rows == first.selected_rows
                        &&& summary.mapping == mapping
                        &&& summary.selected_rows == archived.rows
                        &&& summary.archive_bytes == archived.bytes
                        &&& summary.archive_digest == archived.digest
                    },
                    Err(error) => if suffix == again && first == second && second == third {
                        &&& error is ArchiveRowCountMismatch
                        &&& error->ArchiveRowCountMismatch_expected == first.selected_rows
                        &&& error->ArchiveRowCountMismatch_actual == archived.rows
                        &&& archived.rows != first.selected_rows
                    } else {
                        error is SourceChanged
                    },
                })
            }
        }),
{
}

/// A head that is not the expected one, or is not there, ends the passes as changed, and
/// a step that fails ends them with its own error.
pub proof fn law_reward_passes_end_with_their_first_failure(
    archive: RewardArchiveModel,
    read: Result<Option<StoredHeadModel>, String>,
    expected: StoredHeadModel,
    refused: String,
    error: CoordinatorRollbackRealmRewardCatalogError,
)
    ensures
        archive.stage is RequireHead ==> match head_taken(archive, read, expected) {
            Ok(next) => read == Ok::<_, String>(Some(expected)) && next.mapping == archive.mapping
                && next.selected == archive.selected && next.dataset == archive.dataset
                && next.changed == archive.changed && next.archived == archive.archived,
            Err(error) => read != Ok::<_, String>(Some(expected)) && match read {
                Ok(_) => error is HeadChanged,
                Err(refused) => error == CoordinatorRollbackRealmRewardCatalogError::Head(refused),
            },
        },
        archive.stage is ArchiveMapping ==> mapping_taken(archive, Err(refused)) == Err::<
            RewardArchiveModel,
            _,
        >(CoordinatorRollbackRealmRewardCatalogError::BranchCatalog(refused)),
        archive.stage is Select ==> selection_taken(archive, Err(refused)) == Err::<
            RewardArchiveModel,
            _,
        >(CoordinatorRollbackRealmRewardCatalogError::BranchCatalog(refused)),
        archive.stage is Scan ==> scan_taken(archive, Err(error)) == Err::<RewardArchiveModel, _>(
            error,
        ),
{
}

/// What recording a row leads to.
pub open spec fn scan_recorded(
    before: RewardScan,
    row: RewardRowModel,
    archiving: Option<RewardArchiving>,
    after: RewardScan,
    result: Result<(), CoordinatorRollbackRealmRewardCatalogError>,
) -> bool {
    &&& match archiving {
        None => after.archived is None,
        Some(outcome) => if archiving_refusal(row, outcome) is Some {
            result == Err::<(), _>(archiving_refusal(row, outcome)->0) && after
                == before
        } else if before.archived->0.overflows(outcome.persisted->Ok_0) {
            result == Err::<(), _>(
                CoordinatorRollbackRealmRewardCatalogError::LengthOverflow,
            ) && after == before
        } else {
            after.archived is Some && before.archived->0.took(
                &after.archived->0,
                outcome.persisted->Ok_0,
            )
        },
    }
    &&& { (archiving matches Some(outcome) ==> archiving_refusal(row, outcome) is None && !before.archived->0.overflows(outcome.persisted->Ok_0)) ==> {
        if before.dataset.rows + 1 > u64::MAX || before.dataset.bytes
            + row.source.value.len() > u64::MAX {
            result == Err::<(), _>(
                CoordinatorRollbackRealmRewardCatalogError::LengthOverflow,
            )
        } else {
            &&& result is Ok
            &&& after.dataset.plan_digest == before.dataset.plan_digest
            &&& after.dataset.mapping_digest == before.dataset.mapping_digest
            &&& forall|met: Seq<RewardRowModel>| #[trigger]
                before.dataset.met(met) ==> after.dataset.met(met.push(row))
        }
    } }
}

/// A scan that archives counts a row only if the row was archived and the source still
/// holds it behind that; the archived rows grow by exactly that row. A scan that does not
/// archive has no archived rows.
pub proof fn law_scan_counts_archived_rows_only(
    before: RewardScan,
    row: RewardRowModel,
    archiving: Option<RewardArchiving>,
    after: RewardScan,
    result: Result<(), CoordinatorRollbackRealmRewardCatalogError>,
)
    requires
        before.archived is Some == archiving is Some,
        scan_recorded(before, row, archiving, after, result),
    ensures
        archiving is None ==> after.archived is None,
        archiving matches Some(outcome) ==> result is Ok ==> {
            &&& outcome.persisted is Ok
            &&& outcome.after matches Ok(Some(source)) && source@ == row.source
            &&& after.archived is Some
            &&& after.archived->0.rows == before.archived->0.rows + 1
            &&& after.archived->0.bytes == before.archived->0.bytes
                + outcome.persisted->Ok_0.canonical_bytes
        },
        archiving matches Some(outcome) ==> archiving_refusal(row, outcome) is Some ==> result is Err
            && after == before,
        result is Ok ==> forall|met: Seq<RewardRowModel>| #[trigger]
            before.dataset.met(met) ==> after.dataset.met(met.push(row)),
{
    if let Some(outcome) = archiving {
        law_archived_row_is_read_again(row, outcome);
    }
}

} // verus!
