//! The reads of a branch catalog scan, what each of them decides, and what two or
//! three scans of one suffix have to agree on.

use vstd::prelude::*;

use crate::bytes;
use crate::bytes::{array_from, push_bytes, push_counted_text, push_u64, text_bytes};
use crate::coordinator_rollback_archive_plan::CoordinatorRollbackArchivePlan;
use crate::coordinator_rollback_archive_scan::CoordinatorRollbackArchivedMappingBundle;
use crate::coordinator_rollback_branch_accumulator;
use crate::coordinator_rollback_branch_accumulator::{
    BranchCatalogModel, CoordinatorRollbackBranchCatalogAccumulator,
    CoordinatorRollbackBranchCatalogSummary, VerifiedCoordinatorRollbackSuffixSelection,
};
use crate::coordinator_rollback_branch_catalog::{
    CoordinatorRollbackBranchCatalogError, MappingBundleModel,
};
use crate::coordinator_rollback_branch_transition;
use crate::coordinator_rollback_branch_transition::{
    LegacyMappingPair, PointValue, TargetForwardRow, TargetReverseRow, TransitionEvidence,
};
use crate::coordinator_rollback_mapping_archive_row;
use crate::hash;
use crate::hash::sha256_digest;
use crate::keyspace::CqlKeyspaceName;
use crate::model::{BranchPendingMapping, StoredHead, UniquePendingId};
use crate::text::{append, concat3, qualify};
use crate::text;

verus! {

pub const CHECKPOINT_TRANSITION_TABLE: &'static str = "checkpoint_zk_proof_and_transition_table";

pub const LEGACY_FORWARD_TABLE: &'static str = "checkpoint_id_to_pending_id_table";

pub const LEGACY_REVERSE_TABLE: &'static str = "pending_id_to_checkpoint_id_table";

/// The reads of a catalog scan.
#[derive(Clone, Debug, PartialEq, Eq)]
pub struct CoordinatorRollbackBranchCatalogQueries {
    pub transition: String,
    pub legacy_forward: String,
    pub legacy_reverse: String,
    pub target_forward: String,
    pub target_reverse: String,
}

/// The read of one value and its write time by its key.
pub open spec fn read_value_query(table: Seq<char>) -> Seq<char> {
    "SELECT value, WRITETIME(value) FROM "@ + table + " WHERE obj_id = ?"@
}

pub open spec fn read_forward_query(table: Seq<char>) -> Seq<char> {
    "SELECT pending_id, mapping_digest, WRITETIME(mapping_digest) FROM "@ + table
        + " WHERE canonical_ref = ? LIMIT 2"@
}

pub open spec fn read_reverse_query(table: Seq<char>) -> Seq<char> {
    "SELECT canonical_ref, mapping_digest, WRITETIME(mapping_digest) FROM "@ + table
        + " WHERE pending_id = ? LIMIT 2"@
}

fn read_value(table: &str) -> (query: String)
    ensures
        query@ == read_value_query(table@),
{
    concat3("SELECT value, WRITETIME(value) FROM ", table, " WHERE obj_id = ?")
}

impl CoordinatorRollbackBranchCatalogQueries {
    /// The reads over the given keyspaces. The last two arguments name the tables of
    /// the branch-exact mapping.
    pub fn new(
        canonical: &CqlKeyspaceName,
        authority: &CqlKeyspaceName,
        branch_exact: &CqlKeyspaceName,
        branch_to_pending_table: &str,
        pending_to_branch_table: &str,
    ) -> (queries: Self)
        ensures
            queries.transition@ == read_value_query(
                text::qualified(canonical@, CHECKPOINT_TRANSITION_TABLE@),
            ),
            queries.legacy_forward@ == read_value_query(
                text::qualified(authority@, LEGACY_FORWARD_TABLE@),
            ),
            queries.legacy_reverse@ == read_value_query(
                text::qualified(authority@, LEGACY_REVERSE_TABLE@),
            ),
            queries.target_forward@ == read_forward_query(
                text::qualified(branch_exact@, branch_to_pending_table@),
            ),
            queries.target_reverse@ == read_reverse_query(
                text::qualified(branch_exact@, pending_to_branch_table@),
            ),
    {
        let forward_table = qualify(branch_exact.as_str(), branch_to_pending_table);
        let reverse_table = qualify(branch_exact.as_str(), pending_to_branch_table);
        CoordinatorRollbackBranchCatalogQueries {
            transition: read_value(
                qualify(canonical.as_str(), CHECKPOINT_TRANSITION_TABLE).as_str(),
            ),
            legacy_forward: read_value(qualify(authority.as_str(), LEGACY_FORWARD_TABLE).as_str()),
            legacy_reverse: read_value(qualify(authority.as_str(), LEGACY_REVERSE_TABLE).as_str()),
            target_forward: concat3(
                "SELECT pending_id, mapping_digest, WRITETIME(mapping_digest) FROM ",
                forward_table.as_str(),
                " WHERE canonical_ref = ? LIMIT 2",
            ),
            target_reverse: concat3(
                "SELECT canonical_ref, mapping_digest, WRITETIME(mapping_digest) FROM ",
                reverse_table.as_str(),
                " WHERE pending_id = ? LIMIT 2",
            ),
        }
    }

    pub open spec fn spec_golden(&self) -> Seq<char> {
        "transition\n"@ + self.transition@ + "\nlegacy_forward\n"@ + self.legacy_forward@
            + "\nlegacy_reverse\n"@ + self.legacy_reverse@ + "\ntarget_forward\n"@
            + self.target_forward@ + "\ntarget_reverse\n"@ + self.target_reverse@ + "\n"@
    }

    /// All the reads in one text, each behind its name.
    pub fn golden(&self) -> (golden: String)
        ensures
            golden@ == self.spec_golden(),
    {
        let mut golden: String = concat3(
            "transition\n",
            self.transition.as_str(),
            "\nlegacy_forward\n",
        );
        append(&mut golden, self.legacy_forward.as_str());
        append(&mut golden, "\nlegacy_reverse\n");
        append(&mut golden, self.legacy_reverse.as_str());
        append(&mut golden, "\ntarget_forward\n");
        append(&mut golden, self.target_forward.as_str());
        append(&mut golden, "\ntarget_reverse\n");
        append(&mut golden, self.target_reverse.as_str());
        append(&mut golden, "\n");
        golden
    }
}

/// A text behind its length in bytes.
pub open spec fn counted_text(chars: Seq<char>) -> Seq<u8> {
    bytes::be_len(bytes::text(chars).len()) + bytes::text(chars)
}

/// What identifies a catalog: its keyspaces and its reads.
pub fn catalog_fingerprint(
    canonical: &CqlKeyspaceName,
    authority: &CqlKeyspaceName,
    branch_exact: &CqlKeyspaceName,
    queries: &CoordinatorRollbackBranchCatalogQueries,
) -> (fingerprint: [u8; 32])
    ensures
        fingerprint == hash::sha256(
            bytes::text("psy/coordinator-rollback-branch-catalog-store/v1"@) + counted_text(
                canonical@,
            ) + counted_text(authority@) + counted_text(branch_exact@) + counted_text(
                queries.spec_golden(),
            ),
        ),
{
    let mut preimage: Vec<u8> = text_bytes("psy/coordinator-rollback-branch-catalog-store/v1");
    let ghost a = preimage@;
    push_counted_text(&mut preimage, canonical.as_str());
    assert(preimage@ =~= a + counted_text(canonical@));
    let ghost b = preimage@;
    push_counted_text(&mut preimage, authority.as_str());
    assert(preimage@ =~= b + counted_text(authority@));
    let ghost c = preimage@;
    push_counted_text(&mut preimage, branch_exact.as_str());
    assert(preimage@ =~= c + counted_text(branch_exact@));
    let ghost d = preimage@;
    push_counted_text(&mut preimage, queries.golden().as_str());
    assert(preimage@ =~= d + counted_text(queries.spec_golden()));
    sha256_digest(&preimage)
}

/// A key as the store binds it.
pub fn cql_key(key: u64) -> (result: Result<i64, CoordinatorRollbackBranchCatalogError>)
    ensures
        match result {
            Ok(bound) => key <= i64::MAX && bound == key,
            Err(error) => key > i64::MAX && error
                == CoordinatorRollbackBranchCatalogError::IntegerOutOfRange,
        },
{
    if key <= i64::MAX as u64 {
        Ok(key as i64)
    } else {
        Err(CoordinatorRollbackBranchCatalogError::IntegerOutOfRange)
    }
}

/// A value row, complete or absent.
pub fn point_value(row: Option<(Option<Vec<u8>>, Option<i64>)>) -> (result: Result<
    Option<PointValue<Vec<u8>>>,
    CoordinatorRollbackBranchCatalogError,
>)
    ensures
        match row {
            None => result == Ok::<
                Option<PointValue<Vec<u8>>>,
                CoordinatorRollbackBranchCatalogError,
            >(None),
            Some((Some(value), Some(writetime_us))) => result == Ok::<
                Option<PointValue<Vec<u8>>>,
                CoordinatorRollbackBranchCatalogError,
            >(Some(PointValue { value, writetime_us })),
            Some(_) => result == Err::<Option<PointValue<Vec<u8>>>, _>(
                CoordinatorRollbackBranchCatalogError::MissingColumn,
            ),
        },
{
    match row {
        None => Ok(None),
        Some((Some(value), Some(writetime_us))) => Ok(Some(PointValue { value, writetime_us })),
        Some(_) => Err(CoordinatorRollbackBranchCatalogError::MissingColumn),
    }
}

/// What a row of a legacy mapping table says.
pub open spec fn u64_point_of(row: Option<(Option<i64>, Option<i64>)>) -> Result<
    Option<(u64, i64)>,
    CoordinatorRollbackBranchCatalogError,
> {
    match row {
        None => Ok(None),
        Some((value, writetime)) => match value {
            None => Err(CoordinatorRollbackBranchCatalogError::MissingColumn),
            Some(value) => if value < 0 {
                Err(CoordinatorRollbackBranchCatalogError::IntegerOutOfRange)
            } else {
                match writetime {
                    None => Err(CoordinatorRollbackBranchCatalogError::MissingColumn),
                    Some(writetime) => Ok(Some((value as u64, writetime))),
                }
            },
        },
    }
}

pub fn u64_point(row: Option<(Option<i64>, Option<i64>)>) -> (result: Result<
    Option<(u64, i64)>,
    CoordinatorRollbackBranchCatalogError,
>)
    ensures
        result == u64_point_of(row),
{
    match row {
        None => Ok(None),
        Some((value, writetime)) => match value {
            None => Err(CoordinatorRollbackBranchCatalogError::MissingColumn),
            Some(value) => if value < 0 {
                Err(CoordinatorRollbackBranchCatalogError::IntegerOutOfRange)
            } else {
                match writetime {
                    None => Err(CoordinatorRollbackBranchCatalogError::MissingColumn),
                    Some(writetime) => Ok(Some((value as u64, writetime))),
                }
            },
        },
    }
}

/// A digest column.
pub open spec fn digest_column(digest: Option<Seq<u8>>) -> Result<
    [u8; 32],
    CoordinatorRollbackBranchCatalogError,
> {
    match digest {
        None => Err(CoordinatorRollbackBranchCatalogError::MissingColumn),
        Some(bytes) => if bytes.len() != 32 {
            Err(CoordinatorRollbackBranchCatalogError::InvalidDigestLength)
        } else {
            Ok(bytes::array_of::<32>(bytes))
        },
    }
}

pub open spec fn column_view(column: Option<Vec<u8>>) -> Option<Seq<u8>> {
    match column {
        None => None,
        Some(bytes) => Some(bytes@),
    }
}

fn array_32(digest: &Option<Vec<u8>>) -> (result: Result<
    [u8; 32],
    CoordinatorRollbackBranchCatalogError,
>)
    ensures
        result == digest_column(column_view(*digest)),
{
    match digest {
        None => Err(CoordinatorRollbackBranchCatalogError::MissingColumn),
        Some(bytes) => if bytes.len() != 32 {
            Err(CoordinatorRollbackBranchCatalogError::InvalidDigestLength)
        } else {
            Ok(array_from::<32>(bytes.as_slice()))
        },
    }
}

/// A branch-exact forward row. Key cells have no write time of their own: the digest
/// is the row's only other value and is written together with the key.
pub open spec fn forward_row_of(
    pending: Option<i64>,
    digest: Option<Seq<u8>>,
    writetime: Option<i64>,
) -> Result<TargetForwardRow, CoordinatorRollbackBranchCatalogError> {
    if pending is None {
        Err(CoordinatorRollbackBranchCatalogError::MissingColumn)
    } else if pending->0 < 0 {
        Err(CoordinatorRollbackBranchCatalogError::IntegerOutOfRange)
    } else if writetime is None {
        Err(CoordinatorRollbackBranchCatalogError::MissingColumn)
    } else if pending->0 == 0 {
        Err(CoordinatorRollbackBranchCatalogError::InvalidPending(0))
    } else {
        match digest_column(digest) {
            Err(error) => Err(error),
            Ok(mapping_digest) => Ok(
                TargetForwardRow {
                    pending_id: UniquePendingId { value: pending->0 as u64 },
                    mapping_digest,
                    pending_writetime_us: writetime->0,
                    digest_writetime_us: writetime->0,
                },
            ),
        }
    }
}

pub fn target_forward_row(
    pending: Option<i64>,
    digest: Option<Vec<u8>>,
    writetime: Option<i64>,
) -> (result: Result<TargetForwardRow, CoordinatorRollbackBranchCatalogError>)
    ensures
        result == forward_row_of(pending, column_view(digest), writetime),
{
    let pending: i64 = match pending {
        None => return Err(CoordinatorRollbackBranchCatalogError::MissingColumn),
        Some(pending) => pending,
    };
    if pending < 0 {
        return Err(CoordinatorRollbackBranchCatalogError::IntegerOutOfRange);
    }
    let writetime: i64 = match writetime {
        None => return Err(CoordinatorRollbackBranchCatalogError::MissingColumn),
        Some(writetime) => writetime,
    };
    let pending_id = match UniquePendingId::try_new(pending as u64) {
        None => return Err(CoordinatorRollbackBranchCatalogError::InvalidPending(pending as u64)),
        Some(pending_id) => pending_id,
    };
    let mapping_digest = array_32(&digest)?;
    Ok(
        TargetForwardRow {
            pending_id,
            mapping_digest,
            pending_writetime_us: writetime,
            digest_writetime_us: writetime,
        },
    )
}

/// A branch-exact reverse row.
pub open spec fn reverse_row_of(
    canonical_ref: Option<Seq<u8>>,
    digest: Option<Seq<u8>>,
    writetime: Option<i64>,
) -> Result<TargetReverseRow<Seq<u8>>, CoordinatorRollbackBranchCatalogError> {
    if writetime is None || canonical_ref is None {
        Err(CoordinatorRollbackBranchCatalogError::MissingColumn)
    } else {
        match digest_column(digest) {
            Err(error) => Err(error),
            Ok(mapping_digest) => Ok(
                TargetReverseRow {
                    canonical_ref: canonical_ref->0,
                    mapping_digest,
                    canonical_writetime_us: writetime->0,
                    digest_writetime_us: writetime->0,
                },
            ),
        }
    }
}

pub fn target_reverse_row(
    canonical_ref: Option<Vec<u8>>,
    digest: Option<Vec<u8>>,
    writetime: Option<i64>,
) -> (result: Result<TargetReverseRow<Vec<u8>>, CoordinatorRollbackBranchCatalogError>)
    ensures
        match (result, reverse_row_of(column_view(canonical_ref), column_view(digest), writetime)) {
            (Ok(row), Ok(expected)) => row@ == expected,
            (Err(error), Err(expected)) => error == expected,
            _ => false,
        },
{
    let writetime: i64 = match writetime {
        None => return Err(CoordinatorRollbackBranchCatalogError::MissingColumn),
        Some(writetime) => writetime,
    };
    let canonical_ref: Vec<u8> = match canonical_ref {
        None => return Err(CoordinatorRollbackBranchCatalogError::MissingColumn),
        Some(canonical_ref) => canonical_ref,
    };
    let mapping_digest = array_32(&digest)?;
    Ok(
        TargetReverseRow {
            canonical_ref,
            mapping_digest,
            canonical_writetime_us: writetime,
            digest_writetime_us: writetime,
        },
    )
}

/// The transition of a checkpoint has to be there, and to decompress.
/// `decompressed` is what the storage codec makes of the row's value.
pub fn require_transition(
    checkpoint: u64,
    row: Option<PointValue<Vec<u8>>>,
    decompressed: Result<Vec<u8>, String>,
) -> (result: Result<PointValue<Vec<u8>>, CoordinatorRollbackBranchCatalogError>)
    ensures
        match (row, decompressed) {
            (None, _) => result == Err::<PointValue<Vec<u8>>, _>(
                CoordinatorRollbackBranchCatalogError::MissingTransition(checkpoint),
            ),
            (Some(_), Err(reason)) => result == Err::<PointValue<Vec<u8>>, _>(
                CoordinatorRollbackBranchCatalogError::MalformedTransition {
                    checkpoint_id: checkpoint,
                    reason,
                },
            ),
            (Some(row), Ok(value)) => result == Ok::<
                PointValue<Vec<u8>>,
                CoordinatorRollbackBranchCatalogError,
            >(PointValue { value, writetime_us: row.writetime_us }),
        },
{
    match row {
        None => Err(CoordinatorRollbackBranchCatalogError::MissingTransition(checkpoint)),
        Some(row) => match decompressed {
            Err(reason) => Err(
                CoordinatorRollbackBranchCatalogError::MalformedTransition {
                    checkpoint_id: checkpoint,
                    reason,
                },
            ),
            Ok(value) => Ok(PointValue { value, writetime_us: row.writetime_us }),
        },
    }
}

/// The pending identity that a checkpoint maps to.
pub open spec fn legacy_pending_of(checkpoint: u64, forward: Option<(u64, i64)>) -> Result<
    (UniquePendingId, i64),
    CoordinatorRollbackBranchCatalogError,
> {
    match forward {
        None => Err(CoordinatorRollbackBranchCatalogError::MissingLegacyForward(checkpoint)),
        Some((pending, writetime)) => if pending == 0 || pending > i64::MAX {
            Err(CoordinatorRollbackBranchCatalogError::InvalidPending(pending))
        } else {
            Ok((UniquePendingId { value: pending }, writetime))
        },
    }
}

pub fn legacy_pending(checkpoint: u64, forward: Option<(u64, i64)>) -> (result: Result<
    (UniquePendingId, i64),
    CoordinatorRollbackBranchCatalogError,
>)
    ensures
        result == legacy_pending_of(checkpoint, forward),
{
    match forward {
        None => Err(CoordinatorRollbackBranchCatalogError::MissingLegacyForward(checkpoint)),
        Some((pending, writetime)) => match UniquePendingId::try_new(pending) {
            None => Err(CoordinatorRollbackBranchCatalogError::InvalidPending(pending)),
            Some(pending) => Ok((pending, writetime)),
        },
    }
}

/// The legacy pair, if the reverse row leads back to the checkpoint.
pub open spec fn legacy_pair_of(
    checkpoint: u64,
    pending_id: UniquePendingId,
    forward_writetime_us: i64,
    reverse: Option<(u64, i64)>,
) -> Result<LegacyMappingPair, CoordinatorRollbackBranchCatalogError> {
    match reverse {
        None => Err(CoordinatorRollbackBranchCatalogError::MissingLegacyReverse(pending_id.value)),
        Some((reverse_checkpoint, reverse_writetime_us)) => if reverse_checkpoint != checkpoint {
            Err(
                CoordinatorRollbackBranchCatalogError::LegacyPairMismatch {
                    checkpoint,
                    pending: pending_id.value,
                    reverse_checkpoint,
                },
            )
        } else {
            Ok(LegacyMappingPair { pending_id, forward_writetime_us, reverse_writetime_us })
        },
    }
}

pub fn legacy_pair(
    checkpoint: u64,
    pending_id: UniquePendingId,
    forward_writetime_us: i64,
    reverse: Option<(u64, i64)>,
) -> (result: Result<LegacyMappingPair, CoordinatorRollbackBranchCatalogError>)
    ensures
        result == legacy_pair_of(checkpoint, pending_id, forward_writetime_us, reverse),
{
    match reverse {
        None => Err(CoordinatorRollbackBranchCatalogError::MissingLegacyReverse(pending_id.value)),
        Some((reverse_checkpoint, reverse_writetime_us)) => if reverse_checkpoint != checkpoint {
            Err(
                CoordinatorRollbackBranchCatalogError::LegacyPairMismatch {
                    checkpoint,
                    pending: pending_id.value,
                    reverse_checkpoint,
                },
            )
        } else {
            Ok(LegacyMappingPair { pending_id, forward_writetime_us, reverse_writetime_us })
        },
    }
}

impl CoordinatorRollbackBranchCatalogAccumulator {
    /// The next checkpoint of the suffix to read, while there is one. The anchor is
    /// the first.
    pub fn next_read(&self) -> (next: Option<u64>)
        ensures
            next == (if self@.next_checkpoint <= self@.requested_head.height {
                Some(self@.next_checkpoint)
            } else {
                None
            }),
    {
        if self.next_checkpoint <= self.requested_head.height {
            Some(self.next_checkpoint)
        } else {
            None
        }
    }
}

/// The head that is current has to be the expected one. `read` is the head that the
/// store has as current, where it has one.
pub fn require_current_head(
    read: Result<Option<StoredHead>, String>,
    expected: &StoredHead,
) -> (result: Result<(), CoordinatorRollbackBranchCatalogError>)
    ensures
        match read {
            Err(refused) => result == Err::<(), _>(
                CoordinatorRollbackBranchCatalogError::Head(refused),
            ),
            Ok(Some(current)) => result == (if current@ == expected@ {
                Ok::<(), _>(())
            } else {
                Err(CoordinatorRollbackBranchCatalogError::HeadChanged)
            }),
            Ok(None) => result == Err::<(), _>(CoordinatorRollbackBranchCatalogError::HeadChanged),
        },
{
    match read {
        Err(refused) => Err(CoordinatorRollbackBranchCatalogError::Head(refused)),
        Ok(Some(current)) => if current.same(expected) {
            Ok(())
        } else {
            Err(CoordinatorRollbackBranchCatalogError::HeadChanged)
        },
        Ok(None) => Err(CoordinatorRollbackBranchCatalogError::HeadChanged),
    }
}

/// How many mapping rows were archived, how many bytes, and the digest over all.
#[derive(Clone, Copy, Debug, PartialEq, Eq)]
pub struct MappingArchiveFinished {
    pub rows: u64,
    pub bytes: u64,
    pub digest: [u8; 32],
}

/// What the digest over archived mapping rows starts with.
pub open spec fn archive_preamble() -> Seq<u8> {
    bytes::text("psy/coordinator-rollback-mapping-archive-dataset/v1"@)
}

/// What an archive comes to, where there is one.
pub open spec fn archive_finished(archived: Option<MappingArchiveAccumulator>) -> Option<
    MappingArchiveFinished,
> {
    match archived {
        None => None,
        Some(archived) => Some(
            MappingArchiveFinished {
                rows: archived.rows,
                bytes: archived.bytes,
                digest: hash::sha256(
                    archived.preimage@ + bytes::be64(archived.rows) + bytes::be64(archived.bytes),
                ),
            },
        ),
    }
}

/// Adds up the mapping bundles that were archived.
pub struct MappingArchiveAccumulator {
    pub rows: u64,
    pub bytes: u64,
    pub preimage: Vec<u8>,
}

impl MappingArchiveAccumulator {
    pub fn new(plan: &CoordinatorRollbackArchivePlan) -> (accumulator: Self)
        ensures
            accumulator.rows == 0,
            accumulator.bytes == 0,
            accumulator.preimage@ == archive_preamble() + plan.digest.0@,
    {
        let mut preimage: Vec<u8> = text_bytes(
            "psy/coordinator-rollback-mapping-archive-dataset/v1",
        );
        push_bytes(&mut preimage, &plan.digest.0);
        MappingArchiveAccumulator { rows: 0, bytes: 0, preimage }
    }

    pub fn observe(&mut self, persisted: CoordinatorRollbackArchivedMappingBundle) -> (result:
        Result<(), CoordinatorRollbackBranchCatalogError>)
        ensures
            if old(self).rows + persisted.rows > u64::MAX || old(self).bytes
                + persisted.canonical_bytes > u64::MAX {
                result == Err::<(), _>(CoordinatorRollbackBranchCatalogError::CheckpointOverflow)
                    && *final(self) == *old(self)
            } else {
                &&& result is Ok
                &&& final(self).rows == old(self).rows + persisted.rows
                &&& final(self).bytes == old(self).bytes + persisted.canonical_bytes
                &&& final(self).preimage@ == old(self).preimage@ + persisted.digest@
            },
    {
        let rows: u64 = match self.rows.checked_add(persisted.rows) {
            Some(rows) => rows,
            None => return Err(CoordinatorRollbackBranchCatalogError::CheckpointOverflow),
        };
        let bytes: u64 = match self.bytes.checked_add(persisted.canonical_bytes) {
            Some(bytes) => bytes,
            None => return Err(CoordinatorRollbackBranchCatalogError::CheckpointOverflow),
        };
        self.rows = rows;
        self.bytes = bytes;
        push_bytes(&mut self.preimage, &persisted.digest);
        Ok(())
    }

    pub fn finish(self) -> (finished: MappingArchiveFinished)
        ensures
            finished.rows == self.rows,
            finished.bytes == self.bytes,
            finished.digest == hash::sha256(
                self.preimage@ + bytes::be64(self.rows) + bytes::be64(self.bytes),
            ),
    {
        let mut preimage: Vec<u8> = self.preimage;
        push_u64(&mut preimage, self.rows);
        push_u64(&mut preimage, self.bytes);
        MappingArchiveFinished {
            rows: self.rows,
            bytes: self.bytes,
            digest: sha256_digest(&preimage),
        }
    }
}

/// Progress evidence for the mapping rows that were copied.
#[derive(Clone, Copy, Debug, PartialEq, Eq)]
pub struct CoordinatorRollbackMappingArchiveSummary {
    pub catalog: CoordinatorRollbackBranchCatalogSummary,
    pub archive_rows: u64,
    pub archive_bytes: u64,
    pub archive_digest: [u8; 32],
}

impl CoordinatorRollbackMappingArchiveSummary {
    pub fn catalog(self) -> (catalog: CoordinatorRollbackBranchCatalogSummary)
        ensures
            catalog == self.catalog,
    {
        self.catalog
    }

    pub fn archive_rows(self) -> (rows: u64)
        ensures
            rows == self.archive_rows,
    {
        self.archive_rows
    }

    pub fn archive_bytes(self) -> (bytes: u64)
        ensures
            bytes == self.archive_bytes,
    {
        self.archive_bytes
    }

    pub fn archive_digest(self) -> (digest: [u8; 32])
        ensures
            digest == self.archive_digest,
    {
        self.archive_digest
    }
}

/// A selection without its index.
#[verifier::ext_equal]
#[derive(Clone, Debug, PartialEq, Eq)]
pub struct SelectedSuffix<P> {
    pub summary: CoordinatorRollbackBranchCatalogSummary,
    pub first_checkpoint: u64,
    pub pendings: P,
}

/// What a selection selects.
pub open spec fn suffix_of(selection: &VerifiedCoordinatorRollbackSuffixSelection) -> SelectedSuffix<
    Seq<u64>,
> {
    SelectedSuffix {
        summary: selection.summary,
        first_checkpoint: selection.first_checkpoint,
        pendings: selection.pendings@,
    }
}

impl View for SelectedSuffix<Vec<u64>> {
    type V = SelectedSuffix<Seq<u64>>;

    open spec fn view(&self) -> SelectedSuffix<Seq<u64>> {
        SelectedSuffix {
            summary: self.summary,
            first_checkpoint: self.first_checkpoint,
            pendings: self.pendings@,
        }
    }
}

impl SelectedSuffix<Vec<u64>> {
    pub fn of(selection: &VerifiedCoordinatorRollbackSuffixSelection) -> (suffix: Self)
        ensures
            suffix@ == suffix_of(selection),
    {
        let mut pendings: Vec<u64> = Vec::new();
        let mut i: usize = 0;
        while i < selection.pendings.len()
            invariant
                i <= selection.pendings@.len(),
                pendings@ == selection.pendings@.subrange(0, i as int),
            decreases selection.pendings@.len() - i,
        {
            pendings.push(selection.pendings[i]);
            i += 1;
            assert(pendings@ =~= selection.pendings@.subrange(0, i as int));
        }
        assert(pendings@ =~= selection.pendings@);
        SelectedSuffix {
            summary: selection.summary,
            first_checkpoint: selection.first_checkpoint,
            pendings,
        }
    }

    pub fn selects(&self, selection: &VerifiedCoordinatorRollbackSuffixSelection) -> (same: bool)
        ensures
            same == (self@ == suffix_of(selection)),
    {
        if !self.summary.same(&selection.summary) || self.first_checkpoint
            != selection.first_checkpoint || self.pendings.len() != selection.pendings.len() {
            return false;
        }
        let mut i: usize = 0;
        while i < self.pendings.len()
            invariant
                i <= self.pendings@.len(),
                self.pendings@.len() == selection.pendings@.len(),
                forall|k: int| 0 <= k < i ==> self.pendings@[k] == selection.pendings@[k],
            decreases self.pendings@.len() - i,
        {
            if self.pendings[i] != selection.pendings[i] {
                assert(self.pendings@[i as int] != selection.pendings@[i as int]);
                return false;
            }
            i += 1;
        }
        assert(self.pendings@ =~= selection.pendings@);
        true
    }
}

/// A poisoned catalog takes nothing more and never finishes.
pub proof fn law_poisoned_catalog_is_final(
    catalog: BranchCatalogModel,
    checkpoint_id: u64,
    transition: PointValue<Seq<u8>>,
    evidence: TransitionEvidence<Seq<u8>>,
    mapping_digest: [u8; 32],
    legacy: LegacyMappingPair,
    forward: Seq<TargetForwardRow>,
    reverse: Seq<TargetReverseRow<Seq<u8>>>,
)
    requires
        catalog.poisoned,
    ensures
        coordinator_rollback_branch_accumulator::with_anchor(
            catalog,
            checkpoint_id,
            transition,
            evidence,
        ) == Err::<BranchCatalogModel, _>(CoordinatorRollbackBranchCatalogError::Poisoned),
        coordinator_rollback_branch_accumulator::with_suffix(
            catalog,
            checkpoint_id,
            transition,
            evidence,
            mapping_digest,
            legacy,
            forward,
            reverse,
        ) == Err::<(BranchCatalogModel, MappingBundleModel), _>(
            CoordinatorRollbackBranchCatalogError::Poisoned,
        ),
        coordinator_rollback_branch_accumulator::finished_catalog(catalog) == Err::<
            CoordinatorRollbackBranchCatalogSummary,
            _,
        >(CoordinatorRollbackBranchCatalogError::Poisoned),
{
}

/// A catalog that finishes has followed the chain from the target to exactly the
/// requested head, with one pending identity of its own for every checkpoint between
/// them, in the epoch before the rollback's.
pub proof fn law_finished_catalog_covers_the_suffix(catalog: BranchCatalogModel)
    requires
        catalog.wf(),
    ensures
        coordinator_rollback_branch_accumulator::finished_catalog(catalog) matches Ok(summary)
            ==> {
            &&& summary.suffix_rows == catalog.requested_head.height - catalog.target.height
            &&& catalog.pendings.len() == summary.suffix_rows
            &&& catalog.pendings.no_duplicates()
            &&& summary.source_chain_epoch + 1 == catalog.rollback_epoch
            &&& catalog.position.previous_hash == Some(catalog.requested_head.hash)
        },
{
}

/// Whatever an accepted checkpoint of the suffix maps was written before the fence,
/// in all four directions, and names the same checkpoint and pending identity.
pub proof fn law_accepted_mappings_predate_the_fence(
    catalog: BranchCatalogModel,
    checkpoint_id: u64,
    transition: PointValue<Seq<u8>>,
    evidence: TransitionEvidence<Seq<u8>>,
    mapping_digest: [u8; 32],
    legacy: LegacyMappingPair,
    forward: Seq<TargetForwardRow>,
    reverse: Seq<TargetReverseRow<Seq<u8>>>,
)
    ensures
        coordinator_rollback_branch_accumulator::with_suffix(
            catalog,
            checkpoint_id,
            transition,
            evidence,
            mapping_digest,
            legacy,
            forward,
            reverse,
        ) matches Ok((_, bundle)) ==> {
            &&& bundle.sources.len() == 4
            &&& bundle.checkpoint == checkpoint_id
            &&& bundle.pending == legacy.pending_id
            &&& forward[0].pending_id == legacy.pending_id
            &&& forward[0].mapping_digest == mapping_digest
            &&& reverse[0].mapping_digest == mapping_digest
            &&& reverse[0].canonical_ref == evidence.canonical@
            &&& forall|i: int, k: int|
                0 <= i < 4 && 0 <= k < bundle.sources[i].columns.len()
                    ==> (#[trigger] bundle.sources[i].columns[k]).writetime_us
                    <= catalog.orphan_write_max_us
        },
{
}

/// Every row of a verified bundle is one that the archive accepts for the same
/// checkpoint, pending identity and fence, as far as the store's integers reach.
pub proof fn law_verified_bundle_is_archivable(
    catalog: BranchCatalogModel,
    checkpoint_id: u64,
    transition: PointValue<Seq<u8>>,
    evidence: TransitionEvidence<Seq<u8>>,
    mapping_digest: [u8; 32],
    legacy: LegacyMappingPair,
    forward: Seq<TargetForwardRow>,
    reverse: Seq<TargetReverseRow<Seq<u8>>>,
    plan: &CoordinatorRollbackArchivePlan,
    source_index: int,
)
    requires
        0 <= source_index < 4,
        0 < legacy.pending_id.value <= i64::MAX,
        checkpoint_id <= i64::MAX,
        plan.request.fence.orphan_write_max_us == catalog.orphan_write_max_us,
    ensures
        coordinator_rollback_branch_accumulator::with_suffix(
            catalog,
            checkpoint_id,
            transition,
            evidence,
            mapping_digest,
            legacy,
            forward,
            reverse,
        ) matches Ok((_, bundle)) ==> {
            let source = bundle.sources[source_index];
            let verified = coordinator_rollback_branch_transition::decoded_transition(
                catalog.position,
                checkpoint_id,
                transition.value,
                evidence,
                false,
            );
            &&& verified is Ok
            &&& coordinator_rollback_mapping_archive_row::checked_mapping_source(
                coordinator_rollback_mapping_archive_row::bundle_header(plan, bundle, source.kind),
                source.primary_key,
                source.columns,
                Ok(
                    BranchPendingMapping {
                        canonical: (verified->Ok_0).canonical,
                        pending: legacy.pending_id,
                        digest: mapping_digest,
                    },
                ),
            ) is Ok
        },
{
    bytes::lemma_be_lens();
    if let Ok((_, bundle)) = coordinator_rollback_branch_accumulator::with_suffix(
        catalog,
        checkpoint_id,
        transition,
        evidence,
        mapping_digest,
        legacy,
        forward,
        reverse,
    ) {
        let source = bundle.sources[source_index];
        law_accepted_mappings_predate_the_fence(
            catalog,
            checkpoint_id,
            transition,
            evidence,
            mapping_digest,
            legacy,
            forward,
            reverse,
        );
        assert(coordinator_rollback_mapping_archive_row::late_column(
            source.columns,
            catalog.orphan_write_max_us,
        ) is None) by {
            reveal_with_fuel(coordinator_rollback_mapping_archive_row::late_column, 4);
        }
    }
}

/// A row of a legacy table is read exactly if both columns are there and the number is
/// not negative, as the number and the write time that it holds.
pub proof fn law_legacy_row_is_read_as_stored(row: Option<(Option<i64>, Option<i64>)>)
    ensures
        match u64_point_of(row) {
            Ok(None) => row is None,
            Ok(Some((value, writetime))) => row == Some((Some(value as i64), Some(writetime)))
                && value <= i64::MAX,
            Err(error) => row matches Some((value, writetime)) && if value matches Some(value)
                && value < 0 {
                error is IntegerOutOfRange
            } else {
                error is MissingColumn && (value is None || writetime is None)
            },
        },
{
}

/// A branch-exact row is read exactly if nothing of it is missing, its digest is as long
/// as a digest and, in the forward direction, its pending identity is positive. It holds
/// what its columns hold, and both cells have the row's one write time.
pub proof fn law_branch_exact_rows_are_read_as_stored(
    pending: Option<i64>,
    canonical_ref: Option<Seq<u8>>,
    digest: Option<Seq<u8>>,
    writetime: Option<i64>,
)
    ensures
        forward_row_of(pending, digest, writetime) is Ok <==> pending is Some && pending->0 > 0
            && writetime is Some && digest is Some && (digest->0).len() == 32,
        forward_row_of(pending, digest, writetime) matches Ok(row) ==> {
            &&& row.pending_id.value == pending->0
            &&& row.mapping_digest@ == digest->0
            &&& row.pending_writetime_us == writetime->0
            &&& row.digest_writetime_us == writetime->0
        },
        reverse_row_of(canonical_ref, digest, writetime) is Ok <==> canonical_ref is Some
            && writetime is Some && digest is Some && (digest->0).len() == 32,
        reverse_row_of(canonical_ref, digest, writetime) matches Ok(row) ==> {
            &&& row.canonical_ref == canonical_ref->0
            &&& row.mapping_digest@ == digest->0
            &&& row.canonical_writetime_us == writetime->0
            &&& row.digest_writetime_us == writetime->0
        },
{
    if digest is Some && (digest->0).len() == 32 {
        bytes::lemma_array_exists(digest->0);
    }
}

/// A legacy pair is one only if both rows are there, the pending identity is in range,
/// and the reverse row leads back to the very checkpoint. Each half keeps its own write
/// time.
pub proof fn law_legacy_pair_leads_back(
    checkpoint: u64,
    forward: Option<(u64, i64)>,
    reverse: Option<(u64, i64)>,
)
    ensures
        match legacy_pending_of(checkpoint, forward) {
            Ok((pending, writetime)) => {
                &&& forward == Some((pending.value, writetime))
                &&& 1 <= pending.value <= i64::MAX
                &&& match legacy_pair_of(checkpoint, pending, writetime, reverse) {
                    Ok(pair) => {
                        &&& pair.pending_id == pending
                        &&& pair.forward_writetime_us == writetime
                        &&& reverse == Some((checkpoint, pair.reverse_writetime_us))
                    },
                    Err(error) => match reverse {
                        None => error
                            == CoordinatorRollbackBranchCatalogError::MissingLegacyReverse(
                            pending.value,
                        ),
                        Some((other, _)) => other != checkpoint && error
                            == (CoordinatorRollbackBranchCatalogError::LegacyPairMismatch {
                            checkpoint,
                            pending: pending.value,
                            reverse_checkpoint: other,
                        }),
                    },
                }
            },
            Err(error) => match forward {
                None => error == CoordinatorRollbackBranchCatalogError::MissingLegacyForward(
                    checkpoint,
                ),
                Some((pending, _)) => !(1 <= pending <= i64::MAX) && error
                    == CoordinatorRollbackBranchCatalogError::InvalidPending(pending),
            },
        },
{
}

/// A finished archive has what was counted, and the digest of what was gathered and of
/// both counts.
pub proof fn law_finished_archive_is_of_its_bundles(archived: MappingArchiveAccumulator)
    ensures
        archive_finished(Some(archived)) matches Some(finished) && finished.rows == archived.rows
            && finished.bytes == archived.bytes && finished.digest == hash::sha256(
            archived.preimage@ + bytes::be64(archived.rows) + bytes::be64(archived.bytes),
        ),
        archive_finished(None) is None,
{
}

/// Two selections that select the same have the same summary, the same first checkpoint
/// and the same pending identities in the same order.
pub proof fn law_suffix_keeps_its_selection(selection: &VerifiedCoordinatorRollbackSuffixSelection)
    ensures
        suffix_of(selection).summary == selection.summary,
        suffix_of(selection).first_checkpoint == selection.first_checkpoint,
        suffix_of(selection).pendings == selection.pendings@,
{
}

} // verus!
