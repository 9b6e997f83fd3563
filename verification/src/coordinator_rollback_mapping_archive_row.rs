//! Archive rows of the checkpoint-to-pending mappings of a discarded branch.

use vstd::prelude::*;

use crate::bytes;
use crate::bytes::{
    array_equal, bytes_equal, copy_bytes, is_zero_digest, push_byte, push_bytes, push_i64, push_len,
    push_u16, push_u32, push_u64, text_bytes, Cursor,
};
use crate::coordinator_rollback_archive_plan::{
    CoordinatorRollbackArchivePlan, CoordinatorRollbackArchivePlanBlocker,
    CoordinatorRollbackArchivePlanDigest, CoordinatorRollbackArchivePlanDigestError,
};
use crate::coordinator_rollback_archive_store as archive_store;
use crate::coordinator_rollback_archive_store::{
    CoordinatorRollbackArchiveRowDigest, CoordinatorRollbackArchiveRowSlot, Fragment,
    MAX_CANONICAL_ROW_BYTES,
};
use crate::coordinator_rollback_branch_catalog as branch_catalog;
use crate::coordinator_rollback_branch_catalog::{
    CoordinatorRollbackMappingSourceKind, MappingBundle, MappingColumn, MappingColumnModel,
    VerifiedCoordinatorRollbackMappingColumn,
};
use crate::hash;
use crate::hash::sha256_digest;
use crate::identity::ScyllaKeyDomain;
use crate::model::{
    BranchPendingMapping, CheckpointRef, NetworkId, RollbackControlState, StoredHead,
    UniquePendingId,
};
use crate::registry::RegistryBlocker;

verus! {

/// `PSYCRAMW`.
pub const MAPPING_ROW_MAGIC: [u8; 8] = [0x50, 0x53, 0x59, 0x43, 0x52, 0x41, 0x4D, 0x57];

pub const MAPPING_ROW_CODEC_VERSION: u16 = 1;

/// The bytes of a row with no key and no column, its digest counted.
pub const MAPPING_ROW_MIN_BYTES: usize = 300;

#[derive(Clone, Debug, PartialEq, Eq)]
pub enum CoordinatorRollbackMappingArchiveRowError {
    InvalidMagic,
    UnknownVersion(u16),
    Network(String),
    PlanDigest(CoordinatorRollbackArchivePlanDigestError),
    ZeroDigest,
    UnknownKeyDomain(u16),
    UnknownSourceKind(u8),
    PlanContractMismatch,
    NotExactArchivingHead,
    IdentityMismatch,
    SourceOutsideSuffix,
    InvalidSourceCount,
    InvalidColumnSet,
    InvalidPending,
    Canonical(String),
    WriteAfterOrphanFence { writetime_us: i64, orphan_write_max_us: i64 },
    IntegerOutOfCqlRange,
    LengthOverflow,
    RowTooLarge { actual: usize, maximum: usize },
    InvalidFragmentCount(usize),
    Truncated,
    DigestMismatch,
    RowSlotMismatch,
    TrailingBytes,
    /// The words of what ended the reading of the row's body.
    Decode(&'static str),
}

/// Everything a mapping archive row says beside its key and its columns.
#[derive(Clone, Copy, Debug, PartialEq, Eq)]
pub struct MappingRowHeader {
    pub network: NetworkId,
    pub rollback_epoch: u64,
    pub source_epoch: u64,
    pub catalog_fingerprint: [u8; 32],
    pub participant_plan_digest: CoordinatorRollbackArchivePlanDigest,
    pub global_plan_digest: [u8; 32],
    pub key_domain: ScyllaKeyDomain,
    pub source_kind: CoordinatorRollbackMappingSourceKind,
    pub requested: CheckpointRef,
    pub target: CheckpointRef,
    pub orphan_write_max_us: i64,
    pub source_checkpoint: u64,
    pub source_pending: u64,
}

/// Canonical archive image of one mapping row.
#[verifier::ext_equal]
#[derive(Clone, Debug, PartialEq, Eq)]
pub struct CoordinatorRollbackMappingArchiveRow<B, C> {
    pub header: MappingRowHeader,
    pub source_primary_key: B,
    pub source_columns: C,
    pub slot: CoordinatorRollbackArchiveRowSlot,
    pub canonical_bytes: B,
    pub digest: CoordinatorRollbackArchiveRowDigest,
}

pub type MappingArchiveRow = CoordinatorRollbackMappingArchiveRow<Vec<u8>, Vec<MappingColumn>>;

pub type MappingArchiveRowModel = CoordinatorRollbackMappingArchiveRow<
    Seq<u8>,
    Seq<MappingColumnModel>,
>;

impl View for CoordinatorRollbackMappingArchiveRow<Vec<u8>, Vec<MappingColumn>> {
    type V = CoordinatorRollbackMappingArchiveRow<Seq<u8>, Seq<MappingColumnModel>>;

    open spec fn view(&self) -> CoordinatorRollbackMappingArchiveRow<
        Seq<u8>,
        Seq<MappingColumnModel>,
    > {
        CoordinatorRollbackMappingArchiveRow {
            header: self.header,
            source_primary_key: self.source_primary_key@,
            source_columns: branch_catalog::column_models(self.source_columns@),
            slot: self.slot,
            canonical_bytes: self.canonical_bytes@,
            digest: self.digest,
        }
    }
}

/// The key domain that a mapping direction belongs to.
pub open spec fn spec_mapping_key_domain(
    kind: CoordinatorRollbackMappingSourceKind,
) -> ScyllaKeyDomain {
    match kind {
        CoordinatorRollbackMappingSourceKind::LegacyCheckpointToPending
        | CoordinatorRollbackMappingSourceKind::BranchExactCanonicalToPending => {
            ScyllaKeyDomain::CheckpointToPending
        },
        CoordinatorRollbackMappingSourceKind::LegacyPendingToCheckpoint
        | CoordinatorRollbackMappingSourceKind::BranchExactPendingToCanonical => {
            ScyllaKeyDomain::PendingToCheckpoint
        },
    }
}

fn mapping_key_domain(kind: CoordinatorRollbackMappingSourceKind) -> (domain: ScyllaKeyDomain)
    ensures
        domain == spec_mapping_key_domain(kind),
{
    match kind {
        CoordinatorRollbackMappingSourceKind::LegacyCheckpointToPending
        | CoordinatorRollbackMappingSourceKind::BranchExactCanonicalToPending => {
            ScyllaKeyDomain::CheckpointToPending
        },
        CoordinatorRollbackMappingSourceKind::LegacyPendingToCheckpoint
        | CoordinatorRollbackMappingSourceKind::BranchExactPendingToCanonical => {
            ScyllaKeyDomain::PendingToCheckpoint
        },
    }
}

pub open spec fn mapping_domain_of(value: u16) -> Option<ScyllaKeyDomain> {
    if value == ScyllaKeyDomain::CheckpointToPending.spec_stable_id() {
        Some(ScyllaKeyDomain::CheckpointToPending)
    } else if value == ScyllaKeyDomain::PendingToCheckpoint.spec_stable_id() {
        Some(ScyllaKeyDomain::PendingToCheckpoint)
    } else {
        None
    }
}

fn decode_mapping_key_domain(value: u16) -> (result: Result<
    ScyllaKeyDomain,
    CoordinatorRollbackMappingArchiveRowError,
>)
    ensures
        result == (match mapping_domain_of(value) {
            Some(domain) => Ok(domain),
            None => Err(CoordinatorRollbackMappingArchiveRowError::UnknownKeyDomain(value)),
        }),
{
    if value == ScyllaKeyDomain::CheckpointToPending.stable_id() {
        Ok(ScyllaKeyDomain::CheckpointToPending)
    } else if value == ScyllaKeyDomain::PendingToCheckpoint.stable_id() {
        Ok(ScyllaKeyDomain::PendingToCheckpoint)
    } else {
        Err(CoordinatorRollbackMappingArchiveRowError::UnknownKeyDomain(value))
    }
}

pub open spec fn mapping_kind_of(value: u8) -> Option<CoordinatorRollbackMappingSourceKind> {
    if value == 1 {
        Some(CoordinatorRollbackMappingSourceKind::LegacyCheckpointToPending)
    } else if value == 2 {
        Some(CoordinatorRollbackMappingSourceKind::LegacyPendingToCheckpoint)
    } else if value == 3 {
        Some(CoordinatorRollbackMappingSourceKind::BranchExactCanonicalToPending)
    } else if value == 4 {
        Some(CoordinatorRollbackMappingSourceKind::BranchExactPendingToCanonical)
    } else {
        None
    }
}

fn decode_mapping_source_kind(value: u8) -> (result: Result<
    CoordinatorRollbackMappingSourceKind,
    CoordinatorRollbackMappingArchiveRowError,
>)
    ensures
        result == (match mapping_kind_of(value) {
            Some(kind) => Ok(kind),
            None => Err(CoordinatorRollbackMappingArchiveRowError::UnknownSourceKind(value)),
        }),
{
    match value {
        1 => Ok(CoordinatorRollbackMappingSourceKind::LegacyCheckpointToPending),
        2 => Ok(CoordinatorRollbackMappingSourceKind::LegacyPendingToCheckpoint),
        3 => Ok(CoordinatorRollbackMappingSourceKind::BranchExactCanonicalToPending),
        4 => Ok(CoordinatorRollbackMappingSourceKind::BranchExactPendingToCanonical),
        _ => Err(CoordinatorRollbackMappingArchiveRowError::UnknownSourceKind(value)),
    }
}

/// The slot of a mapping row, fixed by the direction and the primary key.
pub open spec fn mapping_slot(header: MappingRowHeader, primary_key: Seq<u8>) -> [u8; 32] {
    hash::sha256(
        bytes::text("psy/coordinator-rollback-mapping-archive-row-slot/v1"@) + bytes::be32(
            header.network.chain_id,
        ) + bytes::be64(header.rollback_epoch) + header.participant_plan_digest.0@ + seq![
            header.source_kind.spec_stable_id(),
        ] + bytes::be_len(primary_key.len()) + primary_key,
    )
}

fn mapping_row_slot(header: &MappingRowHeader, primary_key: &[u8]) -> (slot:
    CoordinatorRollbackArchiveRowSlot)
    ensures
        slot.0 == mapping_slot(*header, primary_key@),
{
    let mut preimage: Vec<u8> = text_bytes("psy/coordinator-rollback-mapping-archive-row-slot/v1");
    push_u32(&mut preimage, header.network.chain_id);
    push_u64(&mut preimage, header.rollback_epoch);
    push_bytes(&mut preimage, &header.participant_plan_digest.0);
    push_byte(&mut preimage, header.source_kind.stable_id());
    push_len(&mut preimage, primary_key.len());
    push_bytes(&mut preimage, primary_key);
    CoordinatorRollbackArchiveRowSlot(sha256_digest(&preimage))
}

/// The digest that seals a mapping row body.
pub open spec fn mapping_digest_of(body: Seq<u8>) -> [u8; 32] {
    hash::sha256(
        bytes::text("psy/coordinator-rollback-mapping-archive-row/v1"@) + bytes::be_len(body.len())
            + body,
    )
}

/// The digest that seals a mapping row body.
pub fn mapping_row_digest(body: &[u8]) -> (digest: CoordinatorRollbackArchiveRowDigest)
    ensures
        digest.0 == mapping_digest_of(body@),
{
    let mut preimage: Vec<u8> = text_bytes("psy/coordinator-rollback-mapping-archive-row/v1");
    push_len(&mut preimage, body.len());
    push_bytes(&mut preimage, body);
    CoordinatorRollbackArchiveRowDigest(sha256_digest(&preimage))
}

/// One column: its id, its write time, its length, its value.
pub open spec fn column_bytes(column: MappingColumnModel) -> Seq<u8> {
    seq![column.column_id] + bytes::be_i64(column.writetime_us) + bytes::be16(
        column.value.len() as u16,
    ) + column.value
}

pub open spec fn columns_bytes(columns: Seq<MappingColumnModel>) -> Seq<u8>
    decreases columns.len(),
{
    if columns.len() == 0 {
        Seq::empty()
    } else {
        columns_bytes(columns.drop_last()) + column_bytes(columns.last())
    }
}

/// The fixed-size front of a mapping row body: everything up to the key.
pub open spec fn mapping_front(header: MappingRowHeader, key_len: nat) -> Seq<u8> {
    MAPPING_ROW_MAGIC@ + bytes::be16(MAPPING_ROW_CODEC_VERSION) + bytes::be32(
        header.network.chain_id,
    ) + bytes::be64(header.rollback_epoch) + bytes::be64(header.source_epoch)
        + header.catalog_fingerprint@ + header.participant_plan_digest.0@
        + header.global_plan_digest@ + bytes::be16(header.key_domain.spec_stable_id()) + seq![
        header.source_kind.spec_stable_id(),
    ] + bytes::be64(header.requested.height) + header.requested.hash@ + bytes::be64(
        header.target.height,
    ) + header.target.hash@ + bytes::be_i64(header.orphan_write_max_us) + bytes::be64(
        header.source_checkpoint,
    ) + bytes::be64(header.source_pending) + bytes::be16(key_len as u16)
}

pub open spec fn mapping_body(
    header: MappingRowHeader,
    primary_key: Seq<u8>,
    columns: Seq<MappingColumnModel>,
    slot: [u8; 32],
) -> Seq<u8> {
    mapping_front(header, primary_key.len()) + primary_key + seq![columns.len() as u8]
        + columns_bytes(columns) + slot@
}

/// The archive row of a header, a key and its columns.
pub open spec fn mapping_row(
    header: MappingRowHeader,
    primary_key: Seq<u8>,
    columns: Seq<MappingColumnModel>,
) -> MappingArchiveRowModel {
    let slot = mapping_slot(header, primary_key);
    let body = mapping_body(header, primary_key, columns, slot);
    let digest = mapping_digest_of(body);
    CoordinatorRollbackMappingArchiveRow {
        header,
        source_primary_key: primary_key,
        source_columns: columns,
        slot: CoordinatorRollbackArchiveRowSlot(slot),
        canonical_bytes: body + digest@,
        digest: CoordinatorRollbackArchiveRowDigest(digest),
    }
}

pub open spec fn columns_fit(columns: Seq<MappingColumnModel>) -> bool {
    forall|i: int| 0 <= i < columns.len() ==> (#[trigger] columns[i]).value.len() <= u16::MAX
}

/// Why a mapping row cannot be written, if it cannot.
pub open spec fn encode_refusal(
    header: MappingRowHeader,
    primary_key: Seq<u8>,
    columns: Seq<MappingColumnModel>,
) -> Option<CoordinatorRollbackMappingArchiveRowError> {
    if header.rollback_epoch > i64::MAX || header.source_checkpoint > i64::MAX
        || header.source_pending > i64::MAX {
        Some(CoordinatorRollbackMappingArchiveRowError::IntegerOutOfCqlRange)
    } else if primary_key.len() > u16::MAX || columns.len() > u8::MAX || !columns_fit(columns) {
        Some(CoordinatorRollbackMappingArchiveRowError::LengthOverflow)
    } else {
        None
    }
}

fn encode_mapping_row_without_digest(
    header: &MappingRowHeader,
    source_primary_key: &[u8],
    source_columns: &[MappingColumn],
    slot: &CoordinatorRollbackArchiveRowSlot,
) -> (result: Result<Vec<u8>, CoordinatorRollbackMappingArchiveRowError>)
    ensures
        ({
            let columns = branch_catalog::column_models(source_columns@);
            match result {
                Ok(body) => encode_refusal(*header, source_primary_key@, columns) is None && body@
                    == mapping_body(*header, source_primary_key@, columns, slot.0),
                Err(error) => encode_refusal(*header, source_primary_key@, columns) == Some(error),
            }
        }),
{
    let ghost columns = branch_catalog::column_models(source_columns@);
    if header.rollback_epoch > i64::MAX as u64 || header.source_checkpoint > i64::MAX as u64
        || header.source_pending > i64::MAX as u64 {
        return Err(CoordinatorRollbackMappingArchiveRowError::IntegerOutOfCqlRange);
    }
    if source_primary_key.len() > u16::MAX as usize || source_columns.len() > u8::MAX as usize {
        return Err(CoordinatorRollbackMappingArchiveRowError::LengthOverflow);
    }
    let mut body: Vec<u8> = copy_bytes(&MAPPING_ROW_MAGIC);
    push_u16(&mut body, MAPPING_ROW_CODEC_VERSION);
    push_u32(&mut body, header.network.chain_id);
    push_u64(&mut body, header.rollback_epoch);
    push_u64(&mut body, header.source_epoch);
    push_bytes(&mut body, &header.catalog_fingerprint);
    push_bytes(&mut body, &header.participant_plan_digest.0);
    push_bytes(&mut body, &header.global_plan_digest);
    push_u16(&mut body, header.key_domain.stable_id());
    push_byte(&mut body, header.source_kind.stable_id());
    push_u64(&mut body, header.requested.height);
    push_bytes(&mut body, &header.requested.hash);
    push_u64(&mut body, header.target.height);
    push_bytes(&mut body, &header.target.hash);
    push_i64(&mut body, header.orphan_write_max_us);
    push_u64(&mut body, header.source_checkpoint);
    push_u64(&mut body, header.source_pending);
    push_u16(&mut body, source_primary_key.len() as u16);
    push_bytes(&mut body, source_primary_key);
    push_byte(&mut body, source_columns.len() as u8);
    let ghost front = body@;
    let mut i: usize = 0;
    assert(columns.take(0) =~= Seq::empty());
    assert(front + columns_bytes(columns.take(0)) =~= front);
    while i < source_columns.len()
        invariant
            i <= source_columns@.len(),
            columns == branch_catalog::column_models(source_columns@),
            header.rollback_epoch <= i64::MAX,
            header.source_checkpoint <= i64::MAX,
            header.source_pending <= i64::MAX,
            body@ == front + columns_bytes(columns.take(i as int)),
            forall|k: int| 0 <= k < i ==> (#[trigger] columns[k]).value.len() <= u16::MAX,
        decreases source_columns@.len() - i,
    {
        let column = &source_columns[i];
        assert(columns[i as int] == column@);
        if column.value.len() > u16::MAX as usize {
            assert(!columns_fit(columns));
            return Err(CoordinatorRollbackMappingArchiveRowError::LengthOverflow);
        }
        push_byte(&mut body, column.column_id);
        push_i64(&mut body, column.writetime_us);
        push_u16(&mut body, column.value.len() as u16);
        push_bytes(&mut body, &column.value);
        proof {
            let next = columns.take(i + 1);
            assert(next.drop_last() =~= columns.take(i as int));
            assert(next.last() == column@);
            assert(body@ =~= front + columns_bytes(next));
        }
        i += 1;
    }
    assert(columns.take(i as int) =~= columns);
    push_bytes(&mut body, &slot.0);
    Ok(body)
}

/// What a mapping row maps, checked against the identity it is filed under.
/// `branch` is the mapping that the protocol reads from `canonical` for `pending`; a
/// mapping of other bytes, or to another pending identity, is not this row's.
pub open spec fn checked_branch_mapping(
    network: NetworkId,
    source_epoch: u64,
    checkpoint: u64,
    pending: u64,
    canonical: Seq<u8>,
    digest: Seq<u8>,
    branch: Result<BranchPendingMapping, String>,
) -> Result<(), CoordinatorRollbackMappingArchiveRowError> {
    if pending == 0 || pending > i64::MAX {
        Err(CoordinatorRollbackMappingArchiveRowError::InvalidPending)
    } else {
        match branch {
            Err(refused) => Err(CoordinatorRollbackMappingArchiveRowError::Canonical(refused)),
            Ok(mapping) => if mapping.canonical.canonical@ == canonical && mapping.pending.value
                == pending && mapping.canonical.network == network && mapping.canonical.chain_epoch
                == source_epoch && mapping.canonical.checkpoint.height == checkpoint
                && mapping.digest@ == digest {
                Ok(())
            } else {
                Err(CoordinatorRollbackMappingArchiveRowError::IdentityMismatch)
            },
        }
    }
}

fn validate_branch_mapping(
    network: NetworkId,
    source_epoch: u64,
    checkpoint: u64,
    pending: u64,
    canonical: &[u8],
    digest: &[u8],
    branch: Result<BranchPendingMapping, String>,
) -> (result: Result<(), CoordinatorRollbackMappingArchiveRowError>)
    ensures
        result == checked_branch_mapping(
            network,
            source_epoch,
            checkpoint,
            pending,
            canonical@,
            digest@,
            branch,
        ),
{
    let pending = match UniquePendingId::try_new(pending) {
        Some(pending) => pending,
        None => return Err(CoordinatorRollbackMappingArchiveRowError::InvalidPending),
    };
    match branch {
        Err(refused) => Err(CoordinatorRollbackMappingArchiveRowError::Canonical(refused)),
        Ok(mapping) => {
            if bytes_equal(&mapping.canonical.canonical, canonical) && mapping.pending == pending
                && mapping.canonical.network == network && mapping.canonical.chain_epoch
                == source_epoch && mapping.canonical.checkpoint.height == checkpoint
                && bytes_equal(&mapping.digest, digest) {
                Ok(())
            } else {
                Err(CoordinatorRollbackMappingArchiveRowError::IdentityMismatch)
            }
        },
    }
}

/// The first column written after the fence, if there is one.
pub open spec fn late_column(
    columns: Seq<MappingColumnModel>,
    orphan_write_max_us: i64,
) -> Option<i64>
    decreases columns.len(),
{
    if columns.len() == 0 {
        None
    } else if columns[0].writetime_us > orphan_write_max_us {
        Some(columns[0].writetime_us)
    } else {
        late_column(columns.drop_first(), orphan_write_max_us)
    }
}

fn find_late_column(columns: &[MappingColumn], orphan_write_max_us: i64) -> (late: Option<i64>)
    ensures
        late == late_column(branch_catalog::column_models(columns@), orphan_write_max_us),
{
    let ghost models = branch_catalog::column_models(columns@);
    let mut i: usize = 0;
    assert(models.skip(0) =~= models);
    while i < columns.len()
        invariant
            i <= columns@.len(),
            models == branch_catalog::column_models(columns@),
            late_column(models, orphan_write_max_us) == late_column(
                models.skip(i as int),
                orphan_write_max_us,
            ),
        decreases columns@.len() - i,
    {
        let ghost rest = models.skip(i as int);
        assert(rest.drop_first() =~= models.skip(i + 1));
        assert(rest[0] == columns@[i as int]@);
        if columns[i].writetime_us > orphan_write_max_us {
            return Some(columns[i].writetime_us);
        }
        i += 1;
    }
    None
}

/// A pair of columns whose second is a digest.
pub open spec fn value_and_digest(columns: Seq<MappingColumnModel>) -> bool {
    &&& columns.len() == 2
    &&& columns[0].column_id == 1
    &&& columns[1].column_id == 2
    &&& columns[1].value.len() == 32
}

/// Whether a mapping row says of `checkpoint` and `pending` what its direction
/// requires, or the first thing that is wrong with it.
pub open spec fn checked_mapping_source(
    header: MappingRowHeader,
    primary_key: Seq<u8>,
    columns: Seq<MappingColumnModel>,
    branch: Result<BranchPendingMapping, String>,
) -> Result<(), CoordinatorRollbackMappingArchiveRowError> {
    let checkpoint = bytes::be64(header.source_checkpoint);
    let pending = bytes::be64(header.source_pending);
    if header.source_pending == 0 || header.source_pending > i64::MAX || header.source_checkpoint
        > i64::MAX {
        Err(CoordinatorRollbackMappingArchiveRowError::IntegerOutOfCqlRange)
    } else if late_column(columns, header.orphan_write_max_us) is Some {
        Err(
            CoordinatorRollbackMappingArchiveRowError::WriteAfterOrphanFence {
                writetime_us: late_column(columns, header.orphan_write_max_us)->0,
                orphan_write_max_us: header.orphan_write_max_us,
            },
        )
    } else {
        match header.source_kind {
            CoordinatorRollbackMappingSourceKind::LegacyCheckpointToPending => if primary_key
                == checkpoint && columns.len() == 1 && columns[0].column_id == 1 && columns[0].value
                == pending {
                Ok(())
            } else {
                Err(CoordinatorRollbackMappingArchiveRowError::InvalidColumnSet)
            },
            CoordinatorRollbackMappingSourceKind::LegacyPendingToCheckpoint => if primary_key
                == pending && columns.len() == 1 && columns[0].column_id == 1 && columns[0].value
                == checkpoint {
                Ok(())
            } else {
                Err(CoordinatorRollbackMappingArchiveRowError::InvalidColumnSet)
            },
            CoordinatorRollbackMappingSourceKind::BranchExactCanonicalToPending => {
                if value_and_digest(columns) && columns[0].value == pending {
                    checked_branch_mapping(
                        header.network,
                        header.source_epoch,
                        header.source_checkpoint,
                        header.source_pending,
                        primary_key,
                        columns[1].value,
                        branch,
                    )
                } else {
                    Err(CoordinatorRollbackMappingArchiveRowError::InvalidColumnSet)
                }
            },
            CoordinatorRollbackMappingSourceKind::BranchExactPendingToCanonical => {
                if value_and_digest(columns) && primary_key == pending {
                    checked_branch_mapping(
                        header.network,
                        header.source_epoch,
                        header.source_checkpoint,
                        header.source_pending,
                        columns[0].value,
                        columns[1].value,
                        branch,
                    )
                } else {
                    Err(CoordinatorRollbackMappingArchiveRowError::InvalidColumnSet)
                }
            },
        }
    }
}

fn is_value_and_digest(columns: &[MappingColumn]) -> (yes: bool)
    ensures
        yes == value_and_digest(branch_catalog::column_models(columns@)),
{
    columns.len() == 2 && columns[0].column_id == 1 && columns[1].column_id == 2
        && columns[1].value.len() == 32
}

/// Checks that a mapping row is filed under the checkpoint and the pending
/// identity that it maps.
pub fn validate_mapping_source(
    header: &MappingRowHeader,
    primary_key: &[u8],
    columns: &[MappingColumn],
    branch: Result<BranchPendingMapping, String>,
) -> (result: Result<(), CoordinatorRollbackMappingArchiveRowError>)
    ensures
        result == checked_mapping_source(
            *header,
            primary_key@,
            branch_catalog::column_models(columns@),
            branch,
        ),
{
    if header.source_pending == 0 || header.source_pending > i64::MAX as u64
        || header.source_checkpoint > i64::MAX as u64 {
        return Err(CoordinatorRollbackMappingArchiveRowError::IntegerOutOfCqlRange);
    }
    if let Some(writetime_us) = find_late_column(columns, header.orphan_write_max_us) {
        return Err(
            CoordinatorRollbackMappingArchiveRowError::WriteAfterOrphanFence {
                writetime_us,
                orphan_write_max_us: header.orphan_write_max_us,
            },
        );
    }
    let mut checkpoint_bytes: Vec<u8> = Vec::new();
    push_u64(&mut checkpoint_bytes, header.source_checkpoint);
    let mut pending_bytes: Vec<u8> = Vec::new();
    push_u64(&mut pending_bytes, header.source_pending);
    assert(checkpoint_bytes@ =~= bytes::be64(header.source_checkpoint));
    assert(pending_bytes@ =~= bytes::be64(header.source_pending));
    match header.source_kind {
        CoordinatorRollbackMappingSourceKind::LegacyCheckpointToPending => {
            if bytes_equal(primary_key, &checkpoint_bytes) && columns.len() == 1
                && columns[0].column_id == 1 && bytes_equal(&columns[0].value, &pending_bytes) {
                Ok(())
            } else {
                Err(CoordinatorRollbackMappingArchiveRowError::InvalidColumnSet)
            }
        },
        CoordinatorRollbackMappingSourceKind::LegacyPendingToCheckpoint => {
            if bytes_equal(primary_key, &pending_bytes) && columns.len() == 1
                && columns[0].column_id == 1 && bytes_equal(&columns[0].value, &checkpoint_bytes) {
                Ok(())
            } else {
                Err(CoordinatorRollbackMappingArchiveRowError::InvalidColumnSet)
            }
        },
        CoordinatorRollbackMappingSourceKind::BranchExactCanonicalToPending => {
            if is_value_and_digest(columns) && bytes_equal(&columns[0].value, &pending_bytes) {
                validate_branch_mapping(
                    header.network,
                    header.source_epoch,
                    header.source_checkpoint,
                    header.source_pending,
                    primary_key,
                    &columns[1].value,
                    branch,
                )
            } else {
                Err(CoordinatorRollbackMappingArchiveRowError::InvalidColumnSet)
            }
        },
        CoordinatorRollbackMappingSourceKind::BranchExactPendingToCanonical => {
            if is_value_and_digest(columns) && bytes_equal(primary_key, &pending_bytes) {
                validate_branch_mapping(
                    header.network,
                    header.source_epoch,
                    header.source_checkpoint,
                    header.source_pending,
                    &columns[0].value,
                    &columns[1].value,
                    branch,
                )
            } else {
                Err(CoordinatorRollbackMappingArchiveRowError::InvalidColumnSet)
            }
        },
    }
}

/// The head is archiving exactly the plan's request, from the requested head.
pub open spec fn exact_archiving_head(
    control: RollbackControlState,
    head_checkpoint: CheckpointRef,
    plan: &CoordinatorRollbackArchivePlan,
) -> bool {
    control == RollbackControlState::Archiving(plan.request) && head_checkpoint
        == plan.request.requested_head
}

pub fn is_exact_archiving_head(head: &StoredHead, plan: &CoordinatorRollbackArchivePlan) -> (exact:
    bool)
    ensures
        exact == exact_archiving_head(head.control, head.canonical.checkpoint, plan),
{
    match head.control {
        RollbackControlState::Archiving(request) => request.same(&plan.request)
            && head.canonical.checkpoint.same(&request.requested_head),
        _ => false,
    }
}

/// The blocker that keeps mapping rows out of the plan's own domains.
pub open spec fn mapping_blocker() -> CoordinatorRollbackArchivePlanBlocker {
    CoordinatorRollbackArchivePlanBlocker::RegistryBlocked {
        key_domain: ScyllaKeyDomain::CheckpointToPending,
        blocker: RegistryBlocker::ReusableCheckpointHeightKey,
    }
}

fn has_mapping_blocker(blockers: &[CoordinatorRollbackArchivePlanBlocker]) -> (has: bool)
    ensures
        has == blockers@.contains(mapping_blocker()),
{
    let mut i: usize = 0;
    while i < blockers.len()
        invariant
            i <= blockers@.len(),
            forall|k: int| 0 <= k < i ==> blockers@[k] != mapping_blocker(),
        decreases blockers@.len() - i,
    {
        if blockers[i] == (CoordinatorRollbackArchivePlanBlocker::RegistryBlocked {
            key_domain: ScyllaKeyDomain::CheckpointToPending,
            blocker: RegistryBlocker::ReusableCheckpointHeightKey,
        }) {
            assert(blockers@[i as int] == mapping_blocker());
            return true;
        }
        i += 1;
    }
    false
}

/// The header of one source row of a bundle under a plan.
pub open spec fn bundle_header(
    plan: &CoordinatorRollbackArchivePlan,
    bundle: branch_catalog::MappingBundleModel,
    kind: CoordinatorRollbackMappingSourceKind,
) -> MappingRowHeader {
    MappingRowHeader {
        network: bundle.network,
        rollback_epoch: bundle.rollback_epoch,
        source_epoch: bundle.source_epoch,
        catalog_fingerprint: bundle.catalog_fingerprint,
        participant_plan_digest: plan.digest,
        global_plan_digest: plan.request.plan_digest,
        key_domain: spec_mapping_key_domain(kind),
        source_kind: kind,
        requested: plan.request.requested_head,
        target: plan.request.target,
        orphan_write_max_us: plan.request.fence.orphan_write_max_us,
        source_checkpoint: bundle.checkpoint,
        source_pending: bundle.pending.value,
    }
}

/// The bundle belongs to the head's network and epoch and to the plan's suffix.
pub open spec fn bundle_belongs(
    network: NetworkId,
    chain_epoch: u64,
    plan: &CoordinatorRollbackArchivePlan,
    bundle: branch_catalog::MappingBundleModel,
) -> bool {
    &&& bundle.network == network
    &&& bundle.rollback_epoch == chain_epoch
    &&& bundle.source_epoch + 1 == bundle.rollback_epoch
    &&& plan.request.target.height < bundle.checkpoint <= plan.request.requested_head.height
}

/// The archive row of one source of a bundle, or why there is none.
pub open spec fn admitted_mapping_row(
    head: crate::model::StoredHeadModel,
    plan: &CoordinatorRollbackArchivePlan,
    bundle: branch_catalog::MappingBundleModel,
    source_index: int,
    branch: Result<BranchPendingMapping, String>,
) -> Result<MappingArchiveRowModel, CoordinatorRollbackMappingArchiveRowError> {
    if !exact_archiving_head(head.control, head.canonical.checkpoint, plan) {
        Err(CoordinatorRollbackMappingArchiveRowError::NotExactArchivingHead)
    } else if source_index >= bundle.sources.len() {
        Err(CoordinatorRollbackMappingArchiveRowError::InvalidSourceCount)
    } else if !bundle_belongs(head.canonical.network, head.canonical.chain_epoch, plan, bundle) {
        Err(CoordinatorRollbackMappingArchiveRowError::IdentityMismatch)
    } else if !plan.blockers@.contains(mapping_blocker()) {
        Err(CoordinatorRollbackMappingArchiveRowError::PlanContractMismatch)
    } else {
        let source = bundle.sources[source_index];
        let header = bundle_header(plan, bundle, source.kind);
        let row = mapping_row(header, source.primary_key, source.columns);
        let checked = checked_mapping_source(header, source.primary_key, source.columns, branch);
        if checked is Err {
            Err(checked->Err_0)
        } else if encode_refusal(header, source.primary_key, source.columns) is Some {
            Err(encode_refusal(header, source.primary_key, source.columns)->0)
        } else if row.canonical_bytes.len() > MAX_CANONICAL_ROW_BYTES {
            Err(
                CoordinatorRollbackMappingArchiveRowError::RowTooLarge {
                    actual: row.canonical_bytes.len() as usize,
                    maximum: MAX_CANONICAL_ROW_BYTES,
                },
            )
        } else {
            Ok(row)
        }
    }
}

pub open spec fn mapping_result(
    result: Result<MappingArchiveRow, CoordinatorRollbackMappingArchiveRowError>,
) -> Result<MappingArchiveRowModel, CoordinatorRollbackMappingArchiveRowError> {
    match result {
        Ok(row) => Ok(row@),
        Err(error) => Err(error),
    }
}

fn same_columns(a: &[MappingColumn], b: &[MappingColumn]) -> (same: bool)
    ensures
        same == (branch_catalog::column_models(a@) == branch_catalog::column_models(b@)),
{
    let ghost first = branch_catalog::column_models(a@);
    let ghost second = branch_catalog::column_models(b@);
    if a.len() != b.len() {
        assert(first.len() != second.len());
        return false;
    }
    let mut i: usize = 0;
    while i < a.len()
        invariant
            i <= a@.len() == b@.len(),
            first == branch_catalog::column_models(a@),
            second == branch_catalog::column_models(b@),
            forall|k: int| 0 <= k < i ==> first[k] == second[k],
        decreases a@.len() - i,
    {
        if a[i].column_id != b[i].column_id || a[i].writetime_us != b[i].writetime_us
            || !bytes_equal(&a[i].value, &b[i].value) {
            assert(first[i as int] != second[i as int]);
            return false;
        }
        assert(first[i as int] == second[i as int]);
        i += 1;
    }
    assert(first =~= second);
    true
}

impl MappingRowHeader {
    pub fn same(&self, other: &Self) -> (same: bool)
        ensures
            same == (*self == *other),
    {
        self.network == other.network && self.rollback_epoch == other.rollback_epoch
            && self.source_epoch == other.source_epoch && array_equal::<32>(
            &self.catalog_fingerprint,
            &other.catalog_fingerprint,
        ) && array_equal::<32>(
            &self.participant_plan_digest.0,
            &other.participant_plan_digest.0,
        ) && array_equal::<32>(&self.global_plan_digest, &other.global_plan_digest)
            && self.key_domain == other.key_domain && self.source_kind == other.source_kind
            && self.requested.same(&other.requested) && self.target.same(&other.target)
            && self.orphan_write_max_us == other.orphan_write_max_us && self.source_checkpoint
            == other.source_checkpoint && self.source_pending == other.source_pending
    }
}

impl CoordinatorRollbackMappingArchiveRow<Vec<u8>, Vec<MappingColumn>> {
    pub fn same(&self, other: &Self) -> (same: bool)
        ensures
            same == (self@ == other@),
    {
        self.header.same(&other.header) && bytes_equal(
            &self.source_primary_key,
            &other.source_primary_key,
        ) && same_columns(&self.source_columns, &other.source_columns) && array_equal::<32>(
            &self.slot.0,
            &other.slot.0,
        ) && bytes_equal(&self.canonical_bytes, &other.canonical_bytes) && array_equal::<32>(
            &self.digest.0,
            &other.digest.0,
        )
    }
}

fn copy_columns(columns: &[MappingColumn]) -> (copies: Vec<MappingColumn>)
    ensures
        branch_catalog::column_models(copies@) == branch_catalog::column_models(columns@),
{
    let mut copies: Vec<MappingColumn> = Vec::new();
    let mut i: usize = 0;
    while i < columns.len()
        invariant
            i <= columns@.len(),
            copies@.len() == i,
            forall|k: int| 0 <= k < i ==> (#[trigger] copies@[k])@ == columns@[k]@,
        decreases columns@.len() - i,
    {
        copies.push(columns[i].copy());
        i += 1;
    }
    assert(branch_catalog::column_models(copies@) =~= branch_catalog::column_models(columns@));
    copies
}

impl CoordinatorRollbackMappingArchiveRow<Vec<u8>, Vec<MappingColumn>> {
    /// The archive row of one source of a verified bundle. `branch` is what the
    /// protocol reads from the source's canonical bytes, where it has some.
    pub fn try_from_verified(
        expected_head: &StoredHead,
        plan: &CoordinatorRollbackArchivePlan,
        bundle: &MappingBundle,
        source_index: usize,
        branch: Result<BranchPendingMapping, String>,
    ) -> (result: Result<Self, CoordinatorRollbackMappingArchiveRowError>)
        ensures
            mapping_result(result) == admitted_mapping_row(
                expected_head@,
                plan,
                bundle@,
                source_index as int,
                branch,
            ),
    {
        if !is_exact_archiving_head(expected_head, plan) {
            return Err(CoordinatorRollbackMappingArchiveRowError::NotExactArchivingHead);
        }
        if source_index >= bundle.sources.len() {
            return Err(CoordinatorRollbackMappingArchiveRowError::InvalidSourceCount);
        }
        let source = &bundle.sources[source_index];
        assert(bundle@.sources[source_index as int] == source@);
        if bundle.network != expected_head.canonical.network || bundle.rollback_epoch
            != expected_head.canonical.chain_epoch || bundle.source_epoch == u64::MAX
            || bundle.source_epoch + 1 != bundle.rollback_epoch || bundle.checkpoint
            <= plan.suffix_start_exclusive() || bundle.checkpoint > plan.suffix_end_inclusive() {
            return Err(CoordinatorRollbackMappingArchiveRowError::IdentityMismatch);
        }
        if !has_mapping_blocker(plan.blockers.as_slice()) {
            return Err(CoordinatorRollbackMappingArchiveRowError::PlanContractMismatch);
        }
        let header = MappingRowHeader {
            network: bundle.network,
            rollback_epoch: bundle.rollback_epoch,
            source_epoch: bundle.source_epoch,
            catalog_fingerprint: bundle.catalog_fingerprint,
            participant_plan_digest: plan.digest,
            global_plan_digest: plan.request.plan_digest,
            key_domain: mapping_key_domain(source.kind),
            source_kind: source.kind,
            requested: plan.request.requested_head,
            target: plan.request.target,
            orphan_write_max_us: plan.request.fence.orphan_write_max_us,
            source_checkpoint: bundle.checkpoint,
            source_pending: bundle.pending.value,
        };
        let source_columns = copy_columns(&source.columns);
        if let Err(error) = validate_mapping_source(
            &header,
            &source.primary_key,
            &source_columns,
            branch,
        ) {
            return Err(error);
        }
        let slot = mapping_row_slot(&header, &source.primary_key);
        let mut canonical_bytes: Vec<u8> = match encode_mapping_row_without_digest(
            &header,
            &source.primary_key,
            &source_columns,
            &slot,
        ) {
            Ok(body) => body,
            Err(error) => return Err(error),
        };
        let digest = mapping_row_digest(&canonical_bytes);
        push_bytes(&mut canonical_bytes, &digest.0);
        if canonical_bytes.len() > MAX_CANONICAL_ROW_BYTES {
            return Err(
                CoordinatorRollbackMappingArchiveRowError::RowTooLarge {
                    actual: canonical_bytes.len(),
                    maximum: MAX_CANONICAL_ROW_BYTES,
                },
            );
        }
        Ok(
            CoordinatorRollbackMappingArchiveRow {
                header,
                source_primary_key: copy_bytes(&source.primary_key),
                source_columns,
                slot,
                canonical_bytes,
                digest,
            },
        )
    }
}

/// The header that a mapping row body writes, its domain and direction known.
pub open spec fn mapping_header_at(
    body: Seq<u8>,
    key_domain: ScyllaKeyDomain,
    source_kind: CoordinatorRollbackMappingSourceKind,
) -> MappingRowHeader {
    MappingRowHeader {
        network: NetworkId { chain_id: bytes::u32_at(body, 10) },
        rollback_epoch: bytes::u64_at(body, 14),
        source_epoch: bytes::u64_at(body, 22),
        catalog_fingerprint: bytes::digest_at(body, 30),
        participant_plan_digest: CoordinatorRollbackArchivePlanDigest(bytes::digest_at(body, 62)),
        global_plan_digest: bytes::digest_at(body, 94),
        key_domain,
        source_kind,
        requested: CheckpointRef {
            height: bytes::u64_at(body, 129),
            hash: bytes::digest_at(body, 137),
        },
        target: CheckpointRef {
            height: bytes::u64_at(body, 169),
            hash: bytes::digest_at(body, 177),
        },
        orphan_write_max_us: bytes::i64_at(body, 209),
        source_checkpoint: bytes::u64_at(body, 217),
        source_pending: bytes::u64_at(body, 225),
    }
}

/// The column that starts at `at`, with the offset behind it, if it is complete.
pub open spec fn column_at(body: Seq<u8>, at: int) -> Option<(MappingColumnModel, int)> {
    let value_len = bytes::u16_at(body, at + 9) as int;
    if at + 11 > body.len() || at + 11 + value_len > body.len() {
        None
    } else {
        Some(
            (
                VerifiedCoordinatorRollbackMappingColumn {
                    column_id: body[at],
                    value: body.subrange(at + 11, at + 11 + value_len),
                    writetime_us: bytes::i64_at(body, at + 1),
                },
                at + 11 + value_len,
            ),
        )
    }
}

/// The one or two columns that start at `at`, with the offset behind them.
pub open spec fn columns_at(body: Seq<u8>, at: int, count: u8) -> Option<
    (Seq<MappingColumnModel>, int),
> {
    match column_at(body, at) {
        None => None,
        Some((first, end)) => if count == 1 {
            Some((seq![first], end))
        } else {
            match column_at(body, end) {
                None => None,
                Some((second, end)) => Some((seq![first, second], end)),
            }
        },
    }
}

/// The row behind the fixed front of a body, or the first thing wrong with it.
pub open spec fn mapping_row_behind_front(
    row: Seq<u8>,
    body: Seq<u8>,
    header: MappingRowHeader,
    branch: Result<BranchPendingMapping, String>,
) -> Result<MappingArchiveRowModel, CoordinatorRollbackMappingArchiveRowError> {
    let truncated = CoordinatorRollbackMappingArchiveRowError::Decode(
        "invalid Coordinator rollback archive row: Truncated",
    );
    let key_len = bytes::u16_at(body, 233) as int;
    let count_at = 235 + key_len;
    let count = body[count_at];
    if count_at + 1 > body.len() {
        Err(truncated)
    } else if count == 0 || count > 2 {
        Err(CoordinatorRollbackMappingArchiveRowError::InvalidColumnSet)
    } else {
        match columns_at(body, count_at + 1, count) {
            None => Err(truncated),
            Some((columns, end)) => {
                let primary_key = body.subrange(235, count_at);
                let slot = bytes::digest_at(body, end);
                let checked = checked_mapping_source(header, primary_key, columns, branch);
                if end + 32 > body.len() {
                    Err(truncated)
                } else if end + 32 < body.len() {
                    Err(CoordinatorRollbackMappingArchiveRowError::TrailingBytes)
                } else if checked is Err {
                    Err(checked->Err_0)
                } else if slot != mapping_slot(header, primary_key) {
                    Err(CoordinatorRollbackMappingArchiveRowError::RowSlotMismatch)
                } else {
                    Ok(
                        CoordinatorRollbackMappingArchiveRow {
                            header,
                            source_primary_key: primary_key,
                            source_columns: columns,
                            slot: CoordinatorRollbackArchiveRowSlot(slot),
                            canonical_bytes: row,
                            digest: CoordinatorRollbackArchiveRowDigest(mapping_digest_of(body)),
                        },
                    )
                }
            },
        }
    }
}

/// The row in a sealed body, or the first thing that is wrong with it.
pub open spec fn mapping_row_in_body(
    row: Seq<u8>,
    body: Seq<u8>,
    network: Result<(), String>,
    branch: Result<BranchPendingMapping, String>,
) -> Result<MappingArchiveRowModel, CoordinatorRollbackMappingArchiveRowError> {
    let domain_id = bytes::u16_at(body, 126);
    let kind_id = body[128];
    if body.subrange(0, 8) != MAPPING_ROW_MAGIC@ {
        Err(CoordinatorRollbackMappingArchiveRowError::InvalidMagic)
    } else if bytes::u16_at(body, 8) != MAPPING_ROW_CODEC_VERSION {
        Err(CoordinatorRollbackMappingArchiveRowError::UnknownVersion(bytes::u16_at(body, 8)))
    } else if network is Err {
        Err(CoordinatorRollbackMappingArchiveRowError::Network(network->Err_0))
    } else if bytes::u64_at(body, 22) + 1 != bytes::u64_at(body, 14) || bytes::u64_at(body, 14)
        > i64::MAX {
        Err(CoordinatorRollbackMappingArchiveRowError::IdentityMismatch)
    } else if bytes::zero_digest(bytes::digest_at(body, 30)) {
        Err(CoordinatorRollbackMappingArchiveRowError::ZeroDigest)
    } else if bytes::zero_digest(bytes::digest_at(body, 62)) {
        Err(
            CoordinatorRollbackMappingArchiveRowError::PlanDigest(
                CoordinatorRollbackArchivePlanDigestError::ZeroDigest,
            ),
        )
    } else if bytes::zero_digest(bytes::digest_at(body, 94)) {
        Err(CoordinatorRollbackMappingArchiveRowError::ZeroDigest)
    } else if mapping_domain_of(domain_id) is None {
        Err(CoordinatorRollbackMappingArchiveRowError::UnknownKeyDomain(domain_id))
    } else if mapping_kind_of(kind_id) is None {
        Err(CoordinatorRollbackMappingArchiveRowError::UnknownSourceKind(kind_id))
    } else {
        let domain = mapping_domain_of(domain_id)->0;
        let kind = mapping_kind_of(kind_id)->0;
        let header = mapping_header_at(body, domain, kind);
        if domain != spec_mapping_key_domain(kind) {
            Err(CoordinatorRollbackMappingArchiveRowError::IdentityMismatch)
        } else if header.target.height >= header.requested.height || header.source_checkpoint
            <= header.target.height || header.source_checkpoint > header.requested.height {
            Err(CoordinatorRollbackMappingArchiveRowError::SourceOutsideSuffix)
        } else {
            mapping_row_behind_front(row, body, header, branch)
        }
    }
}

/// The row that archived bytes hold, or the first thing that is wrong with them.
/// `network` is what the protocol says of the chain id in the row, `branch` what
/// it reads from the canonical bytes in the row.
pub open spec fn decoded_mapping_row(
    row: Seq<u8>,
    network: Result<(), String>,
    branch: Result<BranchPendingMapping, String>,
) -> Result<MappingArchiveRowModel, CoordinatorRollbackMappingArchiveRowError> {
    if row.len() < MAPPING_ROW_MIN_BYTES {
        Err(CoordinatorRollbackMappingArchiveRowError::Truncated)
    } else if row.len() > MAX_CANONICAL_ROW_BYTES {
        Err(
            CoordinatorRollbackMappingArchiveRowError::RowTooLarge {
                actual: row.len() as usize,
                maximum: MAX_CANONICAL_ROW_BYTES,
            },
        )
    } else {
        let body = row.subrange(0, row.len() - 32);
        if row.subrange(row.len() - 32, row.len() as int) != mapping_digest_of(body)@ {
            Err(CoordinatorRollbackMappingArchiveRowError::DigestMismatch)
        } else {
            mapping_row_in_body(row, body, network, branch)
        }
    }
}

/// The parts of an archived mapping row that other codecs read: the network's chain id,
/// and for a branch-exact row the canonical bytes and the pending identity of its
/// mapping.
#[verifier::ext_equal]
#[derive(Clone, Debug, PartialEq, Eq)]
pub struct MappingForeignParts<B> {
    pub chain_id: u32,
    pub branch: Option<(B, u64)>,
}

impl View for MappingForeignParts<Vec<u8>> {
    type V = MappingForeignParts<Seq<u8>>;

    open spec fn view(&self) -> MappingForeignParts<Seq<u8>> {
        MappingForeignParts {
            chain_id: self.chain_id,
            branch: match self.branch {
                Some((canonical, pending)) => Some((canonical@, pending)),
                None => None,
            },
        }
    }
}

/// Where the parts of a row that other codecs read stand in its bytes.
pub open spec fn mapping_foreign_parts_of(row: Seq<u8>) -> Option<MappingForeignParts<Seq<u8>>> {
    let chain_id = bytes::u32_at(row, 10);
    let pending = bytes::u64_at(row, 225);
    let count_at = 235 + bytes::u16_at(row, 233);
    if row.len() < 235 || count_at + 1 > row.len() {
        None
    } else if row[128] == 3 {
        Some(
            MappingForeignParts { chain_id, branch: Some((row.subrange(235, count_at), pending)) },
        )
    } else if row[128] == 4 {
        match column_at(row, count_at + 1) {
            None => None,
            Some((column, _)) => Some(
                MappingForeignParts { chain_id, branch: Some((column.value, pending)) },
            ),
        }
    } else {
        Some(MappingForeignParts { chain_id, branch: None })
    }
}

fn truncated() -> (error: CoordinatorRollbackMappingArchiveRowError)
    ensures
        error == CoordinatorRollbackMappingArchiveRowError::Decode(
            "invalid Coordinator rollback archive row: Truncated",
        ),
{
    CoordinatorRollbackMappingArchiveRowError::Decode(
        "invalid Coordinator rollback archive row: Truncated",
    )
}

fn read_column(cursor: &mut Cursor) -> (column: Option<MappingColumn>)
    requires
        old(cursor).wf(),
    ensures
        final(cursor).bytes@ == old(cursor).bytes@,
        final(cursor).wf(),
        match column {
            Some(column) => column_at(old(cursor).bytes@, old(cursor).offset as int) == Some(
                (column@, final(cursor).offset as int),
            ),
            None => column_at(old(cursor).bytes@, old(cursor).offset as int) is None,
        },
{
    let column_id: u8 = match cursor.u8() {
        Some(id) => id,
        None => return None,
    };
    let writetime_us: i64 = match cursor.i64() {
        Some(time) => time,
        None => return None,
    };
    let value_len: u16 = match cursor.u16() {
        Some(len) => len,
        None => return None,
    };
    let value: Vec<u8> = match cursor.take(value_len as usize) {
        Some(value) => copy_bytes(value),
        None => return None,
    };
    Some(VerifiedCoordinatorRollbackMappingColumn { column_id, value, writetime_us })
}

fn read_columns(cursor: &mut Cursor, count: u8) -> (columns: Option<Vec<MappingColumn>>)
    requires
        old(cursor).wf(),
        1 <= count <= 2,
    ensures
        final(cursor).bytes@ == old(cursor).bytes@,
        final(cursor).wf(),
        match columns {
            Some(columns) => columns_at(
                old(cursor).bytes@,
                old(cursor).offset as int,
                count,
            ) == Some(
                (branch_catalog::column_models(columns@), final(cursor).offset as int),
            ),
            None => columns_at(old(cursor).bytes@, old(cursor).offset as int, count) is None,
        },
{
    let mut columns: Vec<MappingColumn> = Vec::new();
    let first = match read_column(cursor) {
        Some(column) => column,
        None => return None,
    };
    let ghost first_model = first@;
    columns.push(first);
    if count == 1 {
        assert(branch_catalog::column_models(columns@) =~= seq![first_model]);
        return Some(columns);
    }
    let second = match read_column(cursor) {
        Some(column) => column,
        None => return None,
    };
    let ghost second_model = second@;
    columns.push(second);
    assert(branch_catalog::column_models(columns@) =~= seq![first_model, second_model]);
    Some(columns)
}

impl CoordinatorRollbackMappingArchiveRow<Vec<u8>, Vec<MappingColumn>> {
    /// The parts of a row's bytes that other codecs read. `None` where the bytes end
    /// before them.
    pub fn foreign_parts(row: &[u8]) -> (parts: Option<MappingForeignParts<Vec<u8>>>)
        ensures
            match (parts, mapping_foreign_parts_of(row@)) {
                (Some(parts), Some(expected)) => parts@ == expected,
                (None, None) => true,
                _ => false,
            },
    {
        let mut cursor = Cursor::new(row);
        let _ = cursor.take(10)?;
        let chain_id: u32 = cursor.u32()?;
        let _ = cursor.take(114)?;
        let kind: u8 = cursor.u8()?;
        let _ = cursor.take(96)?;
        let pending: u64 = cursor.u64()?;
        let key_len: u16 = cursor.u16()?;
        let key = cursor.take(key_len as usize)?;
        let _ = cursor.u8()?;
        let branch: Option<(Vec<u8>, u64)> = if kind == 3 {
            Some((copy_bytes(key), pending))
        } else if kind == 4 {
            let column = read_column(&mut cursor)?;
            Some((column.value, pending))
        } else {
            None
        };
        Some(MappingForeignParts { chain_id, branch })
    }

    /// Reads archived bytes back. Only a complete, sealed and consistent row is
    /// accepted. `network` and `branch` are what other codecs make of the parts that
    /// [`foreign_parts`](Self::foreign_parts) finds.
    pub fn decode_canonical(
        row: &[u8],
        network: Result<(), String>,
        branch: Result<BranchPendingMapping, String>,
    ) -> (result: Result<Self, CoordinatorRollbackMappingArchiveRowError>)
        ensures
            mapping_result(result) == decoded_mapping_row(row@, network, branch),
    {
        if row.len() < MAPPING_ROW_MIN_BYTES {
            return Err(CoordinatorRollbackMappingArchiveRowError::Truncated);
        }
        if row.len() > MAX_CANONICAL_ROW_BYTES {
            return Err(
                CoordinatorRollbackMappingArchiveRowError::RowTooLarge {
                    actual: row.len(),
                    maximum: MAX_CANONICAL_ROW_BYTES,
                },
            );
        }
        let split: usize = row.len() - 32;
        let body = vstd::slice::slice_subrange(row, 0, split);
        let stored_digest = vstd::slice::slice_subrange(row, split, row.len());
        let expected_digest = mapping_row_digest(body);
        if !bytes_equal(stored_digest, &expected_digest.0) {
            return Err(CoordinatorRollbackMappingArchiveRowError::DigestMismatch);
        }
        let mut cursor = Cursor::new(body);
        let magic = cursor.take(8).ok_or(truncated())?;
        if !bytes_equal(magic, &MAPPING_ROW_MAGIC) {
            return Err(CoordinatorRollbackMappingArchiveRowError::InvalidMagic);
        }
        let version: u16 = cursor.u16().ok_or(truncated())?;
        if version != MAPPING_ROW_CODEC_VERSION {
            return Err(CoordinatorRollbackMappingArchiveRowError::UnknownVersion(version));
        }
        let chain_id: u32 = cursor.u32().ok_or(truncated())?;
        if let Err(refused) = network {
            return Err(CoordinatorRollbackMappingArchiveRowError::Network(refused));
        }
        let rollback_epoch: u64 = cursor.u64().ok_or(truncated())?;
        let source_epoch: u64 = cursor.u64().ok_or(truncated())?;
        if source_epoch == u64::MAX || source_epoch + 1 != rollback_epoch || rollback_epoch
            > i64::MAX as u64 {
            return Err(CoordinatorRollbackMappingArchiveRowError::IdentityMismatch);
        }
        let catalog_fingerprint = cursor.array_32().ok_or(truncated())?;
        if is_zero_digest(&catalog_fingerprint) {
            return Err(CoordinatorRollbackMappingArchiveRowError::ZeroDigest);
        }
        let plan_digest = cursor.array_32().ok_or(truncated())?;
        let participant_plan_digest =
            match CoordinatorRollbackArchivePlanDigest::try_from_archive_bytes(plan_digest) {
            Ok(digest) => digest,
            Err(error) => return Err(CoordinatorRollbackMappingArchiveRowError::PlanDigest(error)),
        };
        let global_plan_digest = cursor.array_32().ok_or(truncated())?;
        if is_zero_digest(&global_plan_digest) {
            return Err(CoordinatorRollbackMappingArchiveRowError::ZeroDigest);
        }
        let domain_id: u16 = cursor.u16().ok_or(truncated())?;
        let key_domain = decode_mapping_key_domain(domain_id)?;
        let kind_id: u8 = cursor.u8().ok_or(truncated())?;
        let source_kind = decode_mapping_source_kind(kind_id)?;
        if key_domain != mapping_key_domain(source_kind) {
            return Err(CoordinatorRollbackMappingArchiveRowError::IdentityMismatch);
        }
        let requested_height: u64 = cursor.u64().ok_or(truncated())?;
        let requested_hash = cursor.array_32().ok_or(truncated())?;
        let target_height: u64 = cursor.u64().ok_or(truncated())?;
        let target_hash = cursor.array_32().ok_or(truncated())?;
        let orphan_write_max_us: i64 = cursor.i64().ok_or(truncated())?;
        let source_checkpoint: u64 = cursor.u64().ok_or(truncated())?;
        let source_pending: u64 = cursor.u64().ok_or(truncated())?;
        if target_height >= requested_height || source_checkpoint <= target_height
            || source_checkpoint > requested_height {
            return Err(CoordinatorRollbackMappingArchiveRowError::SourceOutsideSuffix);
        }
        let header = MappingRowHeader {
            network: NetworkId { chain_id },
            rollback_epoch,
            source_epoch,
            catalog_fingerprint,
            participant_plan_digest,
            global_plan_digest,
            key_domain,
            source_kind,
            requested: CheckpointRef { height: requested_height, hash: requested_hash },
            target: CheckpointRef { height: target_height, hash: target_hash },
            orphan_write_max_us,
            source_checkpoint,
            source_pending,
        };
        let key_len: u16 = cursor.u16().ok_or(truncated())?;
        let source_primary_key: Vec<u8> = copy_bytes(
            cursor.take(key_len as usize).ok_or(truncated())?,
        );
        let column_count: u8 = cursor.u8().ok_or(truncated())?;
        if column_count == 0 || column_count > 2 {
            return Err(CoordinatorRollbackMappingArchiveRowError::InvalidColumnSet);
        }
        let source_columns: Vec<MappingColumn> = read_columns(&mut cursor, column_count).ok_or(
            truncated(),
        )?;
        let slot = CoordinatorRollbackArchiveRowSlot(cursor.array_32().ok_or(truncated())?);
        if !cursor.is_empty() {
            return Err(CoordinatorRollbackMappingArchiveRowError::TrailingBytes);
        }
        validate_mapping_source(&header, &source_primary_key, &source_columns, branch)?;
        let expected_slot = mapping_row_slot(&header, &source_primary_key);
        if !array_equal::<32>(&slot.0, &expected_slot.0) {
            return Err(CoordinatorRollbackMappingArchiveRowError::RowSlotMismatch);
        }
        Ok(
            CoordinatorRollbackMappingArchiveRow {
                header,
                source_primary_key,
                source_columns,
                slot,
                canonical_bytes: copy_bytes(row),
                digest: expected_digest,
            },
        )
    }

    pub fn slot(&self) -> (slot: CoordinatorRollbackArchiveRowSlot)
        ensures
            slot == self.slot,
    {
        self.slot
    }

    pub fn digest(&self) -> (digest: CoordinatorRollbackArchiveRowDigest)
        ensures
            digest == self.digest,
    {
        self.digest
    }

    pub fn canonical_bytes(&self) -> (bytes: &[u8])
        ensures
            bytes@ == self.canonical_bytes@,
    {
        self.canonical_bytes.as_slice()
    }
}

impl CoordinatorRollbackMappingArchiveRow<Vec<u8>, Vec<MappingColumn>> {
    /// The fragments that this row is stored in.
    pub fn fragments(&self) -> (result: Result<
        Vec<Fragment>,
        CoordinatorRollbackMappingArchiveRowError,
    >)
        ensures
            match result {
                Ok(fragments) => archive_store::fits_fragments(self.canonical_bytes@.len())
                    && archive_store::fragment_models(fragments@) == archive_store::fragments_of(
                    self.canonical_bytes@,
                    self.digest,
                ),
                Err(error) => !archive_store::fits_fragments(self.canonical_bytes@.len()) && error
                    == CoordinatorRollbackMappingArchiveRowError::InvalidFragmentCount(
                    archive_store::fragment_count(self.canonical_bytes@.len()) as usize,
                ),
            },
    {
        match archive_store::split_fragments(&self.canonical_bytes, self.digest) {
            Ok(fragments) => Ok(fragments),
            Err(count) => Err(
                CoordinatorRollbackMappingArchiveRowError::InvalidFragmentCount(count),
            ),
        }
    }
}

/// Where each field of a mapping row front stands.
proof fn lemma_mapping_front(header: MappingRowHeader, key_len: nat)
    requires
        key_len <= u16::MAX,
    ensures
        ({
            let front = mapping_front(header, key_len);
            &&& front.len() == 235
            &&& front.subrange(0, 8) == MAPPING_ROW_MAGIC@
            &&& bytes::u16_at(front, 8) == MAPPING_ROW_CODEC_VERSION
            &&& bytes::u16_at(front, 126) == header.key_domain.spec_stable_id()
            &&& front[128] == header.source_kind.spec_stable_id()
            &&& mapping_header_at(front, header.key_domain, header.source_kind) == header
            &&& bytes::u16_at(front, 233) == key_len
        }),
{
    let front = mapping_front(header, key_len);
    bytes::lemma_be_lens();
    assert(front.len() == 235);
    assert(front.subrange(0, 8) =~= MAPPING_ROW_MAGIC@);
    assert(front.subrange(8, 10) =~= bytes::be16(MAPPING_ROW_CODEC_VERSION));
    assert(front.subrange(10, 14) =~= bytes::be32(header.network.chain_id));
    assert(front.subrange(14, 22) =~= bytes::be64(header.rollback_epoch));
    assert(front.subrange(22, 30) =~= bytes::be64(header.source_epoch));
    assert(front.subrange(30, 62) =~= header.catalog_fingerprint@);
    assert(front.subrange(62, 94) =~= header.participant_plan_digest.0@);
    assert(front.subrange(94, 126) =~= header.global_plan_digest@);
    assert(front.subrange(126, 128) =~= bytes::be16(header.key_domain.spec_stable_id()));
    assert(front.subrange(129, 137) =~= bytes::be64(header.requested.height));
    assert(front.subrange(137, 169) =~= header.requested.hash@);
    assert(front.subrange(169, 177) =~= bytes::be64(header.target.height));
    assert(front.subrange(177, 209) =~= header.target.hash@);
    assert(front.subrange(209, 217) =~= bytes::be_i64(header.orphan_write_max_us));
    assert(front.subrange(217, 225) =~= bytes::be64(header.source_checkpoint));
    assert(front.subrange(225, 233) =~= bytes::be64(header.source_pending));
    assert(front.subrange(233, 235) =~= bytes::be16(key_len as u16));
    bytes::lemma_write_then_read(front, 8);
    bytes::lemma_write_then_read(front, 10);
    bytes::lemma_write_then_read(front, 14);
    bytes::lemma_write_then_read(front, 22);
    bytes::lemma_write_then_read(front, 30);
    bytes::lemma_write_then_read(front, 62);
    bytes::lemma_write_then_read(front, 94);
    bytes::lemma_write_then_read(front, 126);
    bytes::lemma_write_then_read(front, 129);
    bytes::lemma_write_then_read(front, 137);
    bytes::lemma_write_then_read(front, 169);
    bytes::lemma_write_then_read(front, 177);
    bytes::lemma_write_then_read(front, 209);
    bytes::lemma_write_then_read(front, 217);
    bytes::lemma_write_then_read(front, 225);
    bytes::lemma_write_then_read(front, 233);
}

/// A column that stands in a body is read from where it stands.
proof fn lemma_column_reads_back(body: Seq<u8>, at: int, column: MappingColumnModel)
    requires
        0 <= at,
        column.value.len() <= u16::MAX,
        at + column_bytes(column).len() <= body.len(),
        body.subrange(at, at + column_bytes(column).len()) == column_bytes(column),
    ensures
        column_bytes(column).len() == 11 + column.value.len(),
        column_at(body, at) == Some((column, at + 11 + column.value.len())),
{
    let image = column_bytes(column);
    bytes::lemma_be_lens();
    assert(image.len() == 11 + column.value.len());
    assert(image.subrange(1, 9) =~= bytes::be_i64(column.writetime_us));
    assert(image.subrange(9, 11) =~= bytes::be16(column.value.len() as u16));
    assert(image.subrange(11, image.len() as int) =~= column.value);
    assert(body[at] == image[0]) by {
        assert(body.subrange(at, at + image.len())[0] == body[at]);
    }
    assert(body.subrange(at + 1, at + 9) =~= image.subrange(1, 9));
    assert(body.subrange(at + 9, at + 11) =~= image.subrange(9, 11));
    assert(body.subrange(at + 11, at + image.len()) =~= image.subrange(11, image.len() as int));
    bytes::lemma_write_then_read(body, at + 1);
    bytes::lemma_write_then_read(body, at + 9);
    let (read, end) = column_at(body, at)->0;
    assert(read =~= column);
}

/// One or two columns that stand in a body are read from where they stand.
proof fn lemma_columns_read_back(body: Seq<u8>, at: int, columns: Seq<MappingColumnModel>)
    requires
        0 <= at,
        columns.len() == 1 || columns.len() == 2,
        columns_fit(columns),
        at + columns_bytes(columns).len() <= body.len(),
        body.subrange(at, at + columns_bytes(columns).len()) == columns_bytes(columns),
    ensures
        columns_at(body, at, columns.len() as u8) == Some(
            (columns, at + columns_bytes(columns).len()),
        ),
{
    let image = columns_bytes(columns);
    reveal_with_fuel(columns_bytes, 3);
    let first = column_bytes(columns[0]);
    if columns.len() == 1 {
        assert(columns.drop_last() =~= Seq::empty());
        assert(image =~= first);
        lemma_column_reads_back(body, at, columns[0]);
        assert(columns =~= seq![columns[0]]);
    } else {
        let second = column_bytes(columns[1]);
        assert(columns.drop_last() =~= seq![columns[0]]);
        assert(columns.drop_last().drop_last() =~= Seq::empty());
        assert(image =~= first + second);
        assert(body.subrange(at, at + first.len()) =~= image.subrange(0, first.len() as int));
        assert(image.subrange(0, first.len() as int) =~= first);
        lemma_column_reads_back(body, at, columns[0]);
        let next = at + first.len();
        assert(body.subrange(next, next + second.len()) =~= image.subrange(
            first.len() as int,
            image.len() as int,
        ));
        assert(image.subrange(first.len() as int, image.len() as int) =~= second);
        lemma_column_reads_back(body, next, columns[1]);
        assert(columns =~= seq![columns[0], columns[1]]);
    }
}

/// Where the parts of a mapping row body stand.
proof fn lemma_mapping_body(
    header: MappingRowHeader,
    primary_key: Seq<u8>,
    columns: Seq<MappingColumnModel>,
    slot: [u8; 32],
)
    requires
        primary_key.len() <= u16::MAX,
        columns.len() == 1 || columns.len() == 2,
        columns_fit(columns),
    ensures
        ({
            let body = mapping_body(header, primary_key, columns, slot);
            let front = mapping_front(header, primary_key.len());
            let key_end = 235 + primary_key.len() as int;
            let end = key_end + 1 + columns_bytes(columns).len();
            &&& front.len() == 235
            &&& body.len() == end + 32
            &&& body.subrange(0, 235) == front
            &&& body.subrange(235, key_end) == primary_key
            &&& body[key_end] == columns.len()
            &&& columns_at(body, key_end + 1, columns.len() as u8) == Some((columns, end))
            &&& bytes::digest_at(body, end) == slot
        }),
{
    let body = mapping_body(header, primary_key, columns, slot);
    let front = mapping_front(header, primary_key.len());
    let image = columns_bytes(columns);
    let key_end = 235 + primary_key.len() as int;
    let at = key_end + 1;
    let end = at + image.len();
    lemma_mapping_front(header, primary_key.len());
    assert(body.subrange(0, 235) =~= front);
    assert(body.subrange(235, key_end) =~= primary_key);
    assert(body[key_end] == columns.len() as u8);
    assert(body.subrange(at, end) =~= image);
    lemma_columns_read_back(body, at, columns);
    assert(body.subrange(end, end + 32) =~= slot@);
    bytes::lemma_write_then_read(body, end);
}

/// A header that a decoder accepts.
pub open spec fn acceptable_mapping_header(header: MappingRowHeader) -> bool {
    &&& header.source_epoch + 1 == header.rollback_epoch
    &&& header.rollback_epoch <= i64::MAX
    &&& !bytes::zero_digest(header.catalog_fingerprint)
    &&& !bytes::zero_digest(header.participant_plan_digest.0)
    &&& !bytes::zero_digest(header.global_plan_digest)
    &&& header.key_domain == spec_mapping_key_domain(header.source_kind)
    &&& header.target.height < header.requested.height
    &&& header.target.height < header.source_checkpoint <= header.requested.height
}

/// Decoding a mapping row's canonical bytes gives the row back.
#[verifier::spinoff_prover]
#[verifier::rlimit(40)]
pub proof fn law_mapping_row_round_trips(
    header: MappingRowHeader,
    primary_key: Seq<u8>,
    columns: Seq<MappingColumnModel>,
    branch: Result<BranchPendingMapping, String>,
)
    requires
        acceptable_mapping_header(header),
        checked_mapping_source(header, primary_key, columns, branch) is Ok,
        encode_refusal(header, primary_key, columns) is None,
        mapping_row(header, primary_key, columns).canonical_bytes.len() <= MAX_CANONICAL_ROW_BYTES,
    ensures
        decoded_mapping_row(
            mapping_row(header, primary_key, columns).canonical_bytes,
            Ok(()),
            branch,
        ) == Ok::<MappingArchiveRowModel, CoordinatorRollbackMappingArchiveRowError>(
            mapping_row(header, primary_key, columns),
        ),
{
    let row = mapping_row(header, primary_key, columns);
    let slot = mapping_slot(header, primary_key);
    let front = mapping_front(header, primary_key.len());
    let body = mapping_body(header, primary_key, columns, slot);
    let all = row.canonical_bytes;
    lemma_mapping_front(header, primary_key.len());
    assert(columns.len() == 1 || columns.len() == 2);
    lemma_mapping_body(header, primary_key, columns, slot);
    bytes::lemma_read_in_front(front, body);
    assert(all.subrange(0, all.len() - 32) =~= body);
    assert(all.subrange(all.len() - 32, all.len() as int) =~= row.digest.0@);
    assert(mapping_header_at(body, header.key_domain, header.source_kind) == header);
    assert(mapping_kind_of(header.source_kind.spec_stable_id()) == Some(header.source_kind));
    assert(mapping_domain_of(header.key_domain.spec_stable_id()) == Some(header.key_domain));
}

/// A mapping row that holds another slot than its own is refused, though its digest was
/// made anew.
#[verifier::spinoff_prover]
#[verifier::rlimit(40)]
pub proof fn law_foreign_mapping_slot_is_refused(
    header: MappingRowHeader,
    primary_key: Seq<u8>,
    columns: Seq<MappingColumnModel>,
    branch: Result<BranchPendingMapping, String>,
    slot: [u8; 32],
)
    requires
        acceptable_mapping_header(header),
        checked_mapping_source(header, primary_key, columns, branch) is Ok,
        encode_refusal(header, primary_key, columns) is None,
        mapping_row(header, primary_key, columns).canonical_bytes.len() <= MAX_CANONICAL_ROW_BYTES,
        slot != mapping_slot(header, primary_key),
    ensures
        ({
            let body = mapping_body(header, primary_key, columns, slot);
            decoded_mapping_row(body + mapping_digest_of(body)@, Ok(()), branch) == Err::<
                MappingArchiveRowModel,
                _,
            >(CoordinatorRollbackMappingArchiveRowError::RowSlotMismatch)
        }),
{
    let front = mapping_front(header, primary_key.len());
    let body = mapping_body(header, primary_key, columns, slot);
    let all = body + mapping_digest_of(body)@;
    lemma_mapping_front(header, primary_key.len());
    assert(columns.len() == 1 || columns.len() == 2);
    lemma_mapping_body(header, primary_key, columns, slot);
    lemma_mapping_body(header, primary_key, columns, mapping_slot(header, primary_key));
    bytes::lemma_read_in_front(front, body);
    assert(all.subrange(0, all.len() - 32) =~= body);
    assert(all.subrange(all.len() - 32, all.len() as int) =~= mapping_digest_of(body)@);
    assert(mapping_header_at(body, header.key_domain, header.source_kind) == header);
    assert(mapping_kind_of(header.source_kind.spec_stable_id()) == Some(header.source_kind));
    assert(mapping_domain_of(header.key_domain.spec_stable_id()) == Some(header.key_domain));
}

/// A mapping row survives being cut into fragments and put together again, in whatever
/// order its fragments come.
#[verifier::spinoff_prover]
#[verifier::rlimit(40)]
pub proof fn law_mapping_row_survives_fragmentation(
    header: MappingRowHeader,
    primary_key: Seq<u8>,
    columns: Seq<MappingColumnModel>,
    found: Seq<archive_store::FragmentModel>,
)
    requires
        mapping_row(header, primary_key, columns).canonical_bytes.len() <= MAX_CANONICAL_ROW_BYTES,
        ({
            let row = mapping_row(header, primary_key, columns);
            found.to_multiset() == archive_store::fragments_of(
                row.canonical_bytes,
                row.digest,
            ).to_multiset()
        }),
    ensures
        archive_store::fits_fragments(
            mapping_row(header, primary_key, columns).canonical_bytes.len(),
        ),
        archive_store::joined(archive_store::in_index_order(found)) == Ok::<
            Seq<u8>,
            archive_store::CoordinatorRollbackArchiveStoreError,
        >(mapping_row(header, primary_key, columns).canonical_bytes),
{
    broadcast use vstd::seq_lib::group_to_multiset_ensures;

    let row = mapping_row(header, primary_key, columns);
    let all = archive_store::fragments_of(row.canonical_bytes, row.digest);
    assert(row.canonical_bytes.subrange(
        row.canonical_bytes.len() - 32,
        row.canonical_bytes.len() as int,
    ) =~= row.digest.0@);
    assert forall|i: int| 0 <= i < found.len() implies all.contains(#[trigger] found[i]) by {
        assert(found.contains(found[i]));
        assert(all.to_multiset().count(found[i]) > 0);
    }
    archive_store::law_fragments_reconstruct_the_row(row.canonical_bytes, row.digest);
    assert(found.to_multiset().len() == all.to_multiset().len());
    archive_store::law_fragments_in_any_order_reconstruct_the_row(
        row.canonical_bytes,
        row.digest,
        found,
    );
}

/// A row that a plan admits decodes to itself.
#[verifier::spinoff_prover]
#[verifier::rlimit(40)]
pub proof fn law_admitted_mapping_row_round_trips(
    head: crate::model::StoredHeadModel,
    plan: &CoordinatorRollbackArchivePlan,
    bundle: branch_catalog::MappingBundleModel,
    source_index: int,
    branch: Result<BranchPendingMapping, String>,
)
    requires
        0 <= source_index,
        !bytes::zero_digest(plan.digest.0),
        !bytes::zero_digest(plan.request.plan_digest),
        !bytes::zero_digest(bundle.catalog_fingerprint),
    ensures
        admitted_mapping_row(head, plan, bundle, source_index, branch) matches Ok(row)
            ==> decoded_mapping_row(row.canonical_bytes, Ok(()), branch) == Ok::<
            MappingArchiveRowModel,
            CoordinatorRollbackMappingArchiveRowError,
        >(row),
{
    if let Ok(row) = admitted_mapping_row(head, plan, bundle, source_index, branch) {
        let source = bundle.sources[source_index];
        law_mapping_row_round_trips(row.header, source.primary_key, source.columns, branch);
    }
}

/// The slot of a mapping row is fixed by its direction and its primary key: the
/// columns and their write times play no part in it.
pub proof fn law_mapping_slot_binds_the_source_key_only(
    header: MappingRowHeader,
    primary_key: Seq<u8>,
    first: Seq<MappingColumnModel>,
    second: Seq<MappingColumnModel>,
)
    ensures
        mapping_row(header, primary_key, first).slot == mapping_row(
            header,
            primary_key,
            second,
        ).slot,
{
}

/// A column read from a body writes the bytes it was read from.
proof fn lemma_column_writes_back(body: Seq<u8>, at: int)
    requires
        0 <= at,
    ensures
        column_at(body, at) matches Some((column, end)) ==> at + 11 <= end <= body.len()
            && column_bytes(column) == body.subrange(at, end) && column.value.len() <= u16::MAX,
{
    if let Some((column, end)) = column_at(body, at) {
        bytes::lemma_read_then_write(body, at + 1);
        bytes::lemma_read_then_write(body, at + 9);
        assert(column_bytes(column) =~= body.subrange(at, end));
    }
}

/// Columns read from a body write the bytes they were read from.
proof fn lemma_columns_write_back(body: Seq<u8>, at: int, count: u8)
    requires
        0 <= at,
        count == 1 || count == 2,
    ensures
        columns_at(body, at, count) matches Some((columns, end)) ==> at <= end <= body.len()
            && columns_bytes(columns) == body.subrange(at, end) && columns.len() == count,
{
    reveal_with_fuel(columns_bytes, 3);
    lemma_column_writes_back(body, at);
    if let Some((columns, end)) = columns_at(body, at, count) {
        let (first, middle) = column_at(body, at)->0;
        if count == 1 {
            assert(columns.drop_last() =~= Seq::empty());
            assert(columns_bytes(columns) =~= body.subrange(at, end));
        } else {
            lemma_column_writes_back(body, middle);
            assert(columns.drop_last() =~= seq![first]);
            assert(columns.drop_last().drop_last() =~= Seq::empty());
            assert(columns_bytes(columns) =~= body.subrange(at, middle) + body.subrange(
                middle,
                end,
            ));
            assert(columns_bytes(columns) =~= body.subrange(at, end));
        }
    }
}

/// The front of a body is what its header writes.
#[verifier::spinoff_prover]
#[verifier::rlimit(40)]
proof fn lemma_front_writes_back(
    body: Seq<u8>,
    key_domain: ScyllaKeyDomain,
    source_kind: CoordinatorRollbackMappingSourceKind,
)
    requires
        body.len() >= 235,
        body.subrange(0, 8) == MAPPING_ROW_MAGIC@,
        bytes::u16_at(body, 8) == MAPPING_ROW_CODEC_VERSION,
        bytes::u16_at(body, 126) == key_domain.spec_stable_id(),
        body[128] == source_kind.spec_stable_id(),
    ensures
        body.subrange(0, 235) == mapping_front(
            mapping_header_at(body, key_domain, source_kind),
            bytes::u16_at(body, 233) as nat,
        ),
{
    bytes::lemma_be_lens();
    bytes::lemma_read_then_write(body, 8);
    bytes::lemma_read_then_write(body, 10);
    bytes::lemma_read_then_write(body, 14);
    bytes::lemma_read_then_write(body, 22);
    bytes::lemma_read_then_write(body, 30);
    bytes::lemma_read_then_write(body, 62);
    bytes::lemma_read_then_write(body, 94);
    bytes::lemma_read_then_write(body, 126);
    bytes::lemma_read_then_write(body, 129);
    bytes::lemma_read_then_write(body, 137);
    bytes::lemma_read_then_write(body, 169);
    bytes::lemma_read_then_write(body, 177);
    bytes::lemma_read_then_write(body, 209);
    bytes::lemma_read_then_write(body, 217);
    bytes::lemma_read_then_write(body, 225);
    bytes::lemma_read_then_write(body, 233);
    assert(body.subrange(0, 235) =~= mapping_front(
        mapping_header_at(body, key_domain, source_kind),
        bytes::u16_at(body, 233) as nat,
    ));
}

proof fn lemma_cut(s: Seq<u8>, a: int, b: int, c: int)
    requires
        0 <= a <= b < c <= s.len(),
    ensures
        s == s.subrange(0, a) + s.subrange(a, b) + seq![s[b]] + s.subrange(b + 1, c) + s.subrange(
            c,
            s.len() as int,
        ),
{
    assert(s =~= s.subrange(0, a) + s.subrange(a, b) + seq![s[b]] + s.subrange(b + 1, c)
        + s.subrange(c, s.len() as int));
}

/// What is read behind a front is what the row's body holds there.
#[verifier::spinoff_prover]
#[verifier::rlimit(40)]
proof fn lemma_behind_front_is_canonical(
    row: Seq<u8>,
    body: Seq<u8>,
    header: MappingRowHeader,
    branch: Result<BranchPendingMapping, String>,
)
    requires
        body.len() >= 235,
        body.subrange(0, 235) == mapping_front(header, bytes::u16_at(body, 233) as nat),
    ensures
        mapping_row_behind_front(row, body, header, branch) matches Ok(model) ==> {
            &&& model.header == header
            &&& model.canonical_bytes == row
            &&& model.slot.0 == mapping_slot(header, model.source_primary_key)
            &&& model.digest.0 == mapping_digest_of(body)
            &&& body == mapping_body(
                header,
                model.source_primary_key,
                model.source_columns,
                model.slot.0,
            )
        },
{
    if let Ok(model) = mapping_row_behind_front(row, body, header, branch) {
        let key_end = 235 + bytes::u16_at(body, 233) as int;
        let count = body[key_end];
        lemma_columns_write_back(body, key_end + 1, count);
        let (columns, end) = columns_at(body, key_end + 1, count)->0;
        bytes::lemma_read_then_write(body, end);
        lemma_cut(body, 235, key_end, end);
    }
}

/// What a sealed body is read as begins with the body's own header.
#[verifier::spinoff_prover]
#[verifier::rlimit(40)]
proof fn lemma_body_is_read_behind_its_front(
    row: Seq<u8>,
    body: Seq<u8>,
    network: Result<(), String>,
    branch: Result<BranchPendingMapping, String>,
)
    requires
        body.len() >= 235,
    ensures
        mapping_row_in_body(row, body, network, branch) matches Ok(model) ==> exists|header: MappingRowHeader|
            #![trigger mapping_row_behind_front(row, body, header, branch)]
            mapping_row_behind_front(row, body, header, branch) == Ok::<
                MappingArchiveRowModel,
                CoordinatorRollbackMappingArchiveRowError,
            >(model) && body.subrange(0, 235) == mapping_front(
                header,
                bytes::u16_at(body, 233) as nat,
            ),
{
    if let Ok(model) = mapping_row_in_body(row, body, network, branch) {
        let domain = mapping_domain_of(bytes::u16_at(body, 126))->0;
        let kind = mapping_kind_of(body[128])->0;
        lemma_front_writes_back(body, domain, kind);
        assert(mapping_row_behind_front(row, body, mapping_header_at(body, domain, kind), branch)
            == Ok::<MappingArchiveRowModel, CoordinatorRollbackMappingArchiveRowError>(model));
    }
}

/// Whatever a decoder accepts is the canonical encoding of what it returns.
#[verifier::spinoff_prover]
#[verifier::rlimit(40)]
pub proof fn law_decoded_mapping_row_is_canonical(
    row: Seq<u8>,
    network: Result<(), String>,
    branch: Result<BranchPendingMapping, String>,
)
    ensures
        decoded_mapping_row(row, network, branch) matches Ok(model) ==> model == mapping_row(
            model.header,
            model.source_primary_key,
            model.source_columns,
        ) && model.canonical_bytes == row,
{
    if let Ok(model) = decoded_mapping_row(row, network, branch) {
        let body = row.subrange(0, row.len() - 32);
        lemma_body_is_read_behind_its_front(row, body, network, branch);
        let header = choose|header: MappingRowHeader|
            #![trigger mapping_row_behind_front(row, body, header, branch)]
            mapping_row_behind_front(row, body, header, branch) == Ok::<
                MappingArchiveRowModel,
                CoordinatorRollbackMappingArchiveRowError,
            >(model) && body.subrange(0, 235) == mapping_front(
                header,
                bytes::u16_at(body, 233) as nat,
            );
        lemma_behind_front_is_canonical(row, body, header, branch);
        assert(row =~= body + row.subrange(row.len() - 32, row.len() as int));
    }
}

/// The parts that other codecs read from a row that decodes are the row's own: its
/// network, and for a branch-exact row the chain reference and the pending identity that
/// it maps.
#[verifier::spinoff_prover]
#[verifier::rlimit(60)]
pub proof fn law_mapping_parts_are_its_own(
    bytes: Seq<u8>,
    network: Result<(), String>,
    branch: Result<BranchPendingMapping, String>,
)
    ensures
        decoded_mapping_row(bytes, network, branch) matches Ok(row) ==> mapping_foreign_parts_of(
            bytes,
        ) == Some(
            MappingForeignParts {
                chain_id: row.header.network.chain_id,
                branch: match row.header.source_kind {
                    CoordinatorRollbackMappingSourceKind::BranchExactCanonicalToPending => Some(
                        (row.source_primary_key, row.header.source_pending),
                    ),
                    CoordinatorRollbackMappingSourceKind::BranchExactPendingToCanonical => Some(
                        (row.source_columns[0].value, row.header.source_pending),
                    ),
                    _ => None,
                },
            },
        ),
{
    if let Ok(row) = decoded_mapping_row(bytes, network, branch) {
        let body = bytes.subrange(0, bytes.len() - 32);
        bytes::lemma_read_in_front(body, bytes);
        let count_at = 235 + bytes::u16_at(body, 233) as int;
        assert(bytes.subrange(235, count_at) =~= body.subrange(235, count_at));
        let value_len = bytes::u16_at(body, count_at + 10) as int;
        assert(bytes.subrange(count_at + 12, count_at + 12 + value_len) =~= body.subrange(
            count_at + 12,
            count_at + 12 + value_len,
        ));
        assert(column_at(bytes, count_at + 1) == column_at(body, count_at + 1));
    }
}

/// A late column is one that was written after the fence, the first of them; if there is
/// none, every column was written no later.
pub proof fn law_late_column_is_the_first_behind_the_fence(
    columns: Seq<MappingColumnModel>,
    fence: i64,
)
    ensures
        match late_column(columns, fence) {
            Some(time) => time > fence && exists|i: int|
                0 <= i < columns.len() && (#[trigger] columns[i]).writetime_us == time && forall|
                    k: int,
                |
                    0 <= k < i ==> (#[trigger] columns[k]).writetime_us <= fence,
            None => forall|i: int|
                0 <= i < columns.len() ==> (#[trigger] columns[i]).writetime_us <= fence,
        },
    decreases columns.len(),
{
    if columns.len() > 0 {
        if columns[0].writetime_us <= fence {
            let rest = columns.drop_first();
            law_late_column_is_the_first_behind_the_fence(rest, fence);
            match late_column(rest, fence) {
                Some(time) => {
                    let i = choose|i: int|
                        0 <= i < rest.len() && (#[trigger] rest[i]).writetime_us == time && forall|
                            k: int,
                        |
                            0 <= k < i ==> (#[trigger] rest[k]).writetime_us <= fence;
                    assert(columns[i + 1].writetime_us == time);
                    assert forall|k: int| 0 <= k < i + 1 implies (
                    #[trigger] columns[k]).writetime_us <= fence by {
                        if k > 0 {
                            assert(rest[k - 1] == columns[k]);
                        }
                    }
                },
                None => {
                    assert forall|i: int| 0 <= i < columns.len() implies (
                    #[trigger] columns[i]).writetime_us <= fence by {
                        if i > 0 {
                            assert(rest[i - 1] == columns[i]);
                        }
                    }
                },
            }
        } else {
            assert(columns[0].writetime_us > fence);
        }
    }
}

/// A mapping row is taken exactly if nothing of it was written after the fence, its pair
/// fits the store, and it maps the pair in its own direction: from the checkpoint to the
/// pending identity or the other way round, with a branch-exact row under the canonical
/// bytes, the network, the epoch and the digest of the branch's own mapping.
pub proof fn law_mapping_row_maps_its_pair(
    header: MappingRowHeader,
    primary_key: Seq<u8>,
    columns: Seq<MappingColumnModel>,
    branch: Result<BranchPendingMapping, String>,
)
    ensures
        checked_mapping_source(header, primary_key, columns, branch) is Ok <==> {
            let checkpoint = bytes::be64(header.source_checkpoint);
            let pending = bytes::be64(header.source_pending);
            &&& 1 <= header.source_pending <= i64::MAX
            &&& header.source_checkpoint <= i64::MAX
            &&& forall|i: int|
                0 <= i < columns.len() ==> (#[trigger] columns[i]).writetime_us
                    <= header.orphan_write_max_us
            &&& columns.len() >= 1
            &&& columns[0].column_id == 1
            &&& match header.source_kind {
                CoordinatorRollbackMappingSourceKind::LegacyCheckpointToPending => columns.len()
                    == 1 && primary_key == checkpoint && columns[0].value == pending,
                CoordinatorRollbackMappingSourceKind::LegacyPendingToCheckpoint => columns.len()
                    == 1 && primary_key == pending && columns[0].value == checkpoint,
                CoordinatorRollbackMappingSourceKind::BranchExactCanonicalToPending => {
                    &&& columns[0].value == pending
                    &&& branch is Ok
                    &&& branch->Ok_0.canonical.canonical@ == primary_key
                },
                CoordinatorRollbackMappingSourceKind::BranchExactPendingToCanonical => {
                    &&& primary_key == pending
                    &&& branch is Ok
                    &&& branch->Ok_0.canonical.canonical@ == columns[0].value
                },
            }
            &&& header.source_kind is BranchExactCanonicalToPending || header.source_kind
                is BranchExactPendingToCanonical ==> {
                &&& columns.len() == 2
                &&& columns[1].column_id == 2
                &&& columns[1].value.len() == 32
                &&& columns[1].value == branch->Ok_0.digest@
                &&& branch->Ok_0.pending.value == header.source_pending
                &&& branch->Ok_0.canonical.network == header.network
                &&& branch->Ok_0.canonical.chain_epoch == header.source_epoch
                &&& branch->Ok_0.canonical.checkpoint.height == header.source_checkpoint
            }
        },
{
    law_late_column_is_the_first_behind_the_fence(columns, header.orphan_write_max_us);
}

/// A source of a bundle is admitted only under a head that archives exactly the plan's
/// request from the requested head, only where the plan blocks the mapping domain, and
/// only if the bundle is of the head's network and epoch, was made one epoch before, and
/// is of the discarded suffix. The archive row then has the bundle's pair, the plan's
/// digests, range and fence, and the source's own direction, key and columns.
pub proof fn law_admitted_mapping_row_is_of_its_bundle(
    head: crate::model::StoredHeadModel,
    plan: &CoordinatorRollbackArchivePlan,
    bundle: branch_catalog::MappingBundleModel,
    source_index: int,
    branch: Result<BranchPendingMapping, String>,
)
    requires
        0 <= source_index,
    ensures
        admitted_mapping_row(head, plan, bundle, source_index, branch) matches Ok(row) ==> {
            let header = row.header;
            let source = bundle.sources[source_index];
            &&& source_index < bundle.sources.len()
            &&& head.control == RollbackControlState::Archiving(plan.request)
            &&& head.canonical.checkpoint == plan.request.requested_head
            &&& head.canonical.network == bundle.network
            &&& head.canonical.chain_epoch == bundle.rollback_epoch
            &&& bundle.source_epoch + 1 == bundle.rollback_epoch
            &&& plan.request.target.height < bundle.checkpoint
                <= plan.request.requested_head.height
            &&& plan.blockers@.contains(
                CoordinatorRollbackArchivePlanBlocker::RegistryBlocked {
                    key_domain: ScyllaKeyDomain::CheckpointToPending,
                    blocker: RegistryBlocker::ReusableCheckpointHeightKey,
                },
            )
            &&& header.network == bundle.network
            &&& header.rollback_epoch == bundle.rollback_epoch
            &&& header.source_epoch == bundle.source_epoch
            &&& header.catalog_fingerprint == bundle.catalog_fingerprint
            &&& header.participant_plan_digest == plan.digest
            &&& header.global_plan_digest == plan.request.plan_digest
            &&& header.requested == plan.request.requested_head
            &&& header.target == plan.request.target
            &&& header.orphan_write_max_us == plan.request.fence.orphan_write_max_us
            &&& header.source_checkpoint == bundle.checkpoint
            &&& header.source_pending == bundle.pending.value
            &&& header.source_kind == source.kind
            &&& header.key_domain is CheckpointToPending <==> source.kind
                is LegacyCheckpointToPending || source.kind is BranchExactCanonicalToPending
            &&& header.key_domain is PendingToCheckpoint <==> source.kind
                is LegacyPendingToCheckpoint || source.kind is BranchExactPendingToCanonical
            &&& row.source_primary_key == source.primary_key
            &&& row.source_columns == source.columns
            &&& checked_mapping_source(header, source.primary_key, source.columns, branch) is Ok
        },
{
}

/// Under the right head and plan, a source of a bundle of the suffix that maps its pair
/// and fits the store is admitted.
pub proof fn law_exact_mapping_source_is_admitted(
    head: crate::model::StoredHeadModel,
    plan: &CoordinatorRollbackArchivePlan,
    bundle: branch_catalog::MappingBundleModel,
    source_index: int,
    branch: Result<BranchPendingMapping, String>,
)
    requires
        0 <= source_index < bundle.sources.len(),
        head.control == RollbackControlState::Archiving(plan.request),
        head.canonical.checkpoint == plan.request.requested_head,
        head.canonical.network == bundle.network,
        head.canonical.chain_epoch == bundle.rollback_epoch,
        bundle.source_epoch + 1 == bundle.rollback_epoch,
        bundle.rollback_epoch <= i64::MAX,
        plan.request.target.height < bundle.checkpoint <= plan.request.requested_head.height,
        plan.blockers@.contains(
            CoordinatorRollbackArchivePlanBlocker::RegistryBlocked {
                key_domain: ScyllaKeyDomain::CheckpointToPending,
                blocker: RegistryBlocker::ReusableCheckpointHeightKey,
            },
        ),
        checked_mapping_source(
            bundle_header(plan, bundle, bundle.sources[source_index].kind),
            bundle.sources[source_index].primary_key,
            bundle.sources[source_index].columns,
            branch,
        ) is Ok,
        bundle.sources[source_index].primary_key.len() <= u16::MAX,
        forall|i: int|
            0 <= i < bundle.sources[source_index].columns.len() ==> (
            #[trigger] bundle.sources[source_index].columns[i]).value.len() <= u16::MAX,
        mapping_row(
            bundle_header(plan, bundle, bundle.sources[source_index].kind),
            bundle.sources[source_index].primary_key,
            bundle.sources[source_index].columns,
        ).canonical_bytes.len() <= 67_108_864,
    ensures
        admitted_mapping_row(head, plan, bundle, source_index, branch) is Ok,
{
    let source = bundle.sources[source_index];
    law_mapping_row_maps_its_pair(
        bundle_header(plan, bundle, source.kind),
        source.primary_key,
        source.columns,
        branch,
    );
}

/// What a decoder accepts was archived for the suffix of its rollback, one epoch behind
/// the chain it was read from, in the domain of its direction, and maps its pair.
pub proof fn law_decoded_mapping_row_is_of_the_suffix(
    bytes: Seq<u8>,
    network: Result<(), String>,
    branch: Result<BranchPendingMapping, String>,
)
    ensures
        decoded_mapping_row(bytes, network, branch) matches Ok(row) ==> {
            let header = row.header;
            &&& network is Ok
            &&& header.source_epoch + 1 == header.rollback_epoch
            &&& header.rollback_epoch <= i64::MAX
            &&& header.target.height < header.source_checkpoint <= header.requested.height
            &&& header.key_domain is CheckpointToPending <==> header.source_kind
                is LegacyCheckpointToPending || header.source_kind is BranchExactCanonicalToPending
            &&& header.key_domain is PendingToCheckpoint <==> header.source_kind
                is LegacyPendingToCheckpoint || header.source_kind is BranchExactPendingToCanonical
            &&& !bytes::zero_digest(header.catalog_fingerprint)
            &&& !bytes::zero_digest(header.participant_plan_digest.0)
            &&& !bytes::zero_digest(header.global_plan_digest)
            &&& row.canonical_bytes == bytes
            &&& checked_mapping_source(header, row.source_primary_key, row.source_columns, branch)
                is Ok
        },
{
}

/// Where everything of a mapping row stands in its canonical bytes, what its slot is made
/// of, and that its last bytes are the digest of all before them.
#[verifier::spinoff_prover]
#[verifier::rlimit(60)]
pub proof fn law_mapping_row_layout(
    header: MappingRowHeader,
    primary_key: Seq<u8>,
    columns: Seq<MappingColumnModel>,
)
    requires
        primary_key.len() <= u16::MAX,
        columns.len() <= u8::MAX,
    ensures
        ({
            let row = mapping_row(header, primary_key, columns);
            let all = row.canonical_bytes;
            let n = primary_key.len() as int;
            let end = all.len() as int;
            &&& row.header == header
            &&& row.source_primary_key == primary_key
            &&& row.source_columns == columns
            &&& end >= 300 + n
            &&& all.subrange(0, 8) == seq![0x50u8, 0x53, 0x59, 0x43, 0x52, 0x41, 0x4D, 0x57]
            &&& bytes::u16_at(all, 8) == 1
            &&& bytes::u32_at(all, 10) == header.network.chain_id
            &&& bytes::u64_at(all, 14) == header.rollback_epoch
            &&& bytes::u64_at(all, 22) == header.source_epoch
            &&& bytes::digest_at(all, 30) == header.catalog_fingerprint
            &&& bytes::digest_at(all, 62) == header.participant_plan_digest.0
            &&& bytes::digest_at(all, 94) == header.global_plan_digest
            &&& bytes::u16_at(all, 126) == header.key_domain.spec_stable_id()
            &&& all[128] == header.source_kind.spec_stable_id()
            &&& bytes::u64_at(all, 129) == header.requested.height
            &&& bytes::digest_at(all, 137) == header.requested.hash
            &&& bytes::u64_at(all, 169) == header.target.height
            &&& bytes::digest_at(all, 177) == header.target.hash
            &&& bytes::i64_at(all, 209) == header.orphan_write_max_us
            &&& bytes::u64_at(all, 217) == header.source_checkpoint
            &&& bytes::u64_at(all, 225) == header.source_pending
            &&& bytes::u16_at(all, 233) == n
            &&& all.subrange(235, 235 + n) == primary_key
            &&& all[235 + n] == columns.len()
            &&& all.subrange(236 + n, end - 64) == columns_bytes(columns)
            &&& all.subrange(end - 64, end - 32) == row.slot.0@
            &&& all.subrange(end - 32, end) == row.digest.0@
            &&& row.slot.0 == hash::sha256(
                bytes::text("psy/coordinator-rollback-mapping-archive-row-slot/v1"@) + bytes::be32(
                    header.network.chain_id,
                ) + bytes::be64(header.rollback_epoch) + header.participant_plan_digest.0@ + seq![
                    header.source_kind.spec_stable_id(),
                ] + bytes::be64(n as u64) + primary_key,
            )
            &&& row.digest.0 == hash::sha256(
                bytes::text("psy/coordinator-rollback-mapping-archive-row/v1"@) + bytes::be_len(
                    (end - 32) as nat,
                ) + all.subrange(0, end - 32),
            )
        }),
{
    let row = mapping_row(header, primary_key, columns);
    let all = row.canonical_bytes;
    let n = primary_key.len() as int;
    let end = all.len() as int;
    let front = mapping_front(header, primary_key.len());
    lemma_mapping_front(header, primary_key.len());
    assert(all.subrange(0, 235) =~= front);
    bytes::lemma_read_in_front(front, all);
    assert(mapping_header_at(front, header.key_domain, header.source_kind) == header);
    assert(all.subrange(0, 8) =~= front.subrange(0, 8));
    assert(all.subrange(0, 8) =~= seq![0x50u8, 0x53, 0x59, 0x43, 0x52, 0x41, 0x4D, 0x57]);
    assert(all[128] == front[128]);
    assert(all.subrange(235, 235 + n) =~= primary_key);
    assert(all.subrange(236 + n, end - 64) =~= columns_bytes(columns));
    assert(all.subrange(end - 64, end - 32) =~= row.slot.0@);
    assert(all.subrange(end - 32, end) =~= row.digest.0@);
    assert(all.subrange(0, end - 32) =~= mapping_body(header, primary_key, columns, row.slot.0));
}

/// A column is written as its number, its write time, its length and its value.
pub proof fn law_mapping_column_layout(column: MappingColumnModel)
    requires
        column.value.len() <= u16::MAX,
    ensures
        ({
            let image = column_bytes(column);
            &&& image.len() == 11 + column.value.len()
            &&& image[0] == column.column_id
            &&& bytes::i64_at(image, 1) == column.writetime_us
            &&& bytes::u16_at(image, 9) == column.value.len()
            &&& image.subrange(11, image.len() as int) == column.value
        }),
{
    let image = column_bytes(column);
    bytes::lemma_be_lens();
    assert(image.subrange(1, 9) =~= bytes::be_i64(column.writetime_us));
    assert(image.subrange(9, 11) =~= bytes::be16(column.value.len() as u16));
    assert(image.subrange(11, image.len() as int) =~= column.value);
    bytes::lemma_write_then_read(image, 1);
    bytes::lemma_write_then_read(image, 9);
}

} // verus!
