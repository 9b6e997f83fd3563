//! Append-only Coordinator suffix archive.
//!
//! An archive row is an immutable image of one hot row, bound to the plan that
//! selected it. Neither a row nor a scan summary can advance the global archive
//! barrier or authorize a hot-table delete.

use vstd::prelude::*;
use vstd::string::StrSliceExecFns;

use crate::bytes;
use crate::bytes::{
    array_equal, bytes_equal, copy_bytes, is_zero_digest, push_byte, push_bytes, push_counted_text,
    push_i32, push_i64, push_len, push_u16, push_u32, push_u64, text_bytes, Cursor,
};
use crate::coordinator_rollback_archive_plan::{
    CoordinatorRollbackArchiveAction, CoordinatorRollbackArchiveDomainPlan,
    CoordinatorRollbackArchivePlan, CoordinatorRollbackArchivePlanDigest,
    CoordinatorRollbackArchivePlanDigestError,
};
use crate::coordinator_rollback_mapping_archive_row::CoordinatorRollbackMappingArchiveRowError;
use crate::hash;
use crate::hash::sha256_digest;
use crate::identity::{ScyllaKeyDomain, ScyllaPhysicalTableId};
use crate::keyspace::CqlKeyspaceName;
use crate::model::{CheckpointRef, NetworkId};
use crate::registry::{Registry, ScyllaSchemaFamily};
use crate::text;
use crate::text::{append, concat3, qualify};

verus! {

/// `PSYCRARW`.
pub const ROW_MAGIC: [u8; 8] = [0x50, 0x53, 0x59, 0x43, 0x52, 0x41, 0x52, 0x57];

pub const ROW_CODEC_VERSION: u16 = 1;

pub const MAX_FRAGMENT_BYTES: usize = 4_194_304;

pub const MAX_FRAGMENTS: usize = 16;

pub const MAX_CANONICAL_ROW_BYTES: usize = 67_108_864;

/// The bytes of a row with an empty value, its digest counted.
pub const ROW_MIN_BYTES: usize = 267;

/// The hot tables whose rows are keyed by checkpoint alone.
#[derive(Clone, Copy, Debug, PartialEq, Eq, Structural)]
pub enum CoordinatorCheckpointPartitionKivSource {
    CheckpointLeaf,
    L2BlockState,
    CheckpointStateRoots,
    CheckpointZkProof,
}

impl CoordinatorCheckpointPartitionKivSource {
    pub open spec fn spec_key_domain(self) -> ScyllaKeyDomain {
        match self {
            CoordinatorCheckpointPartitionKivSource::CheckpointLeaf => {
                ScyllaKeyDomain::CheckpointLeaf
            },
            CoordinatorCheckpointPartitionKivSource::L2BlockState => ScyllaKeyDomain::L2BlockState,
            CoordinatorCheckpointPartitionKivSource::CheckpointStateRoots => {
                ScyllaKeyDomain::CheckpointStateRoots
            },
            CoordinatorCheckpointPartitionKivSource::CheckpointZkProof => {
                ScyllaKeyDomain::CheckpointZkProof
            },
        }
    }

    pub open spec fn spec_physical_table(self) -> ScyllaPhysicalTableId {
        match self {
            CoordinatorCheckpointPartitionKivSource::CheckpointLeaf => {
                ScyllaPhysicalTableId::CheckpointLeaf
            },
            CoordinatorCheckpointPartitionKivSource::L2BlockState => {
                ScyllaPhysicalTableId::L2BlockState
            },
            CoordinatorCheckpointPartitionKivSource::CheckpointStateRoots => {
                ScyllaPhysicalTableId::CheckpointStateRoots
            },
            CoordinatorCheckpointPartitionKivSource::CheckpointZkProof => {
                ScyllaPhysicalTableId::CheckpointZkProofAndTransition
            },
        }
    }

    #[verifier::when_used_as_spec(spec_key_domain)]
    pub fn key_domain(self) -> (key_domain: ScyllaKeyDomain)
        ensures
            key_domain == self.spec_key_domain(),
    {
        match self {
            CoordinatorCheckpointPartitionKivSource::CheckpointLeaf => {
                ScyllaKeyDomain::CheckpointLeaf
            },
            CoordinatorCheckpointPartitionKivSource::L2BlockState => ScyllaKeyDomain::L2BlockState,
            CoordinatorCheckpointPartitionKivSource::CheckpointStateRoots => {
                ScyllaKeyDomain::CheckpointStateRoots
            },
            CoordinatorCheckpointPartitionKivSource::CheckpointZkProof => {
                ScyllaKeyDomain::CheckpointZkProof
            },
        }
    }

    #[verifier::when_used_as_spec(spec_physical_table)]
    pub fn physical_table(self) -> (table: ScyllaPhysicalTableId)
        ensures
            table == self.spec_physical_table(),
    {
        match self {
            CoordinatorCheckpointPartitionKivSource::CheckpointLeaf => {
                ScyllaPhysicalTableId::CheckpointLeaf
            },
            CoordinatorCheckpointPartitionKivSource::L2BlockState => {
                ScyllaPhysicalTableId::L2BlockState
            },
            CoordinatorCheckpointPartitionKivSource::CheckpointStateRoots => {
                ScyllaPhysicalTableId::CheckpointStateRoots
            },
            CoordinatorCheckpointPartitionKivSource::CheckpointZkProof => {
                ScyllaPhysicalTableId::CheckpointZkProofAndTransition
            },
        }
    }
}

/// Where the archive keeps a row. It is derived from the source key, never from
/// the value or its write time.
#[derive(Clone, Copy, Debug, PartialEq, Eq, Hash, PartialOrd, Ord)]
pub struct CoordinatorRollbackArchiveRowSlot(pub [u8; 32]);

impl CoordinatorRollbackArchiveRowSlot {
    pub fn as_bytes(&self) -> (bytes: &[u8; 32])
        ensures
            *bytes == self.0,
    {
        &self.0
    }
}

#[derive(Clone, Copy, Debug, PartialEq, Eq, Hash)]
pub struct CoordinatorRollbackArchiveRowDigest(pub [u8; 32]);

impl CoordinatorRollbackArchiveRowDigest {
    pub fn as_bytes(&self) -> (bytes: &[u8; 32])
        ensures
            *bytes == self.0,
    {
        &self.0
    }
}

#[derive(Clone, Debug, PartialEq, Eq)]
pub enum CoordinatorRollbackArchiveRowError {
    InvalidMagic,
    UnknownVersion(u16),
    Network(String),
    PlanDigest(CoordinatorRollbackArchivePlanDigestError),
    ZeroGlobalPlanDigest,
    UnknownKeyDomain(u16),
    UnknownPhysicalTable(u16),
    UnknownAction(u8),
    DomainNotPlanned,
    DomainContractMismatch,
    InvalidRollbackRange,
    SourceOutsideSuffix,
    WriteAfterOrphanFence { writetime_us: i64, orphan_write_max_us: i64 },
    IntegerOutOfCqlRange,
    LengthOverflow,
    RowTooLarge { actual: usize, maximum: usize },
    InvalidFragmentCount(usize),
    Truncated,
    DigestMismatch,
    RowSlotMismatch,
    TrailingBytes,
}

/// Everything an archive row of a checkpoint-keyed table says beside the value.
#[derive(Clone, Copy, Debug, PartialEq, Eq)]
pub struct CheckpointKivRowHeader {
    pub network: NetworkId,
    pub chain_epoch: u64,
    pub participant_plan_digest: CoordinatorRollbackArchivePlanDigest,
    pub global_plan_digest: [u8; 32],
    pub key_domain: ScyllaKeyDomain,
    pub physical_table: ScyllaPhysicalTableId,
    pub action: CoordinatorRollbackArchiveAction,
    pub requested: CheckpointRef,
    pub target: CheckpointRef,
    pub orphan_write_max_us: i64,
    pub source_checkpoint: u64,
    pub source_writetime_us: i64,
}

/// Canonical archive image of one row of a checkpoint-keyed table.
///
/// A delayed writer for the same source key lands on the same slot, so it
/// conflicts with the first image instead of adding a second one.
#[verifier::ext_equal]
#[derive(Clone, Debug, PartialEq, Eq)]
pub struct CoordinatorRollbackCheckpointKivArchiveRow<B> {
    pub header: CheckpointKivRowHeader,
    pub source_value: B,
    pub slot: CoordinatorRollbackArchiveRowSlot,
    pub canonical_bytes: B,
    pub digest: CoordinatorRollbackArchiveRowDigest,
}

pub type KivArchiveRow = CoordinatorRollbackCheckpointKivArchiveRow<Vec<u8>>;

pub type KivArchiveRowModel = CoordinatorRollbackCheckpointKivArchiveRow<Seq<u8>>;

impl View for CoordinatorRollbackCheckpointKivArchiveRow<Vec<u8>> {
    type V = CoordinatorRollbackCheckpointKivArchiveRow<Seq<u8>>;

    open spec fn view(&self) -> CoordinatorRollbackCheckpointKivArchiveRow<Seq<u8>> {
        CoordinatorRollbackCheckpointKivArchiveRow {
            header: self.header,
            source_value: self.source_value@,
            slot: self.slot,
            canonical_bytes: self.canonical_bytes@,
            digest: self.digest,
        }
    }
}

impl CheckpointKivRowHeader {
    pub fn same(&self, other: &Self) -> (same: bool)
        ensures
            same == (*self == *other),
    {
        self.network == other.network && self.chain_epoch == other.chain_epoch
            && array_equal::<32>(
            &self.participant_plan_digest.0,
            &other.participant_plan_digest.0,
        ) && array_equal::<32>(&self.global_plan_digest, &other.global_plan_digest)
            && self.key_domain == other.key_domain && self.physical_table == other.physical_table
            && self.action == other.action && self.requested.same(&other.requested)
            && self.target.same(&other.target) && self.orphan_write_max_us
            == other.orphan_write_max_us && self.source_checkpoint == other.source_checkpoint
            && self.source_writetime_us == other.source_writetime_us
    }
}

impl CoordinatorRollbackCheckpointKivArchiveRow<Vec<u8>> {
    pub fn same(&self, other: &Self) -> (same: bool)
        ensures
            same == (self@ == other@),
    {
        self.header.same(&other.header) && bytes_equal(&self.source_value, &other.source_value)
            && array_equal::<32>(&self.slot.0, &other.slot.0) && bytes_equal(
            &self.canonical_bytes,
            &other.canonical_bytes,
        ) && array_equal::<32>(&self.digest.0, &other.digest.0)
    }
}

/// What a slot is the digest of.
pub open spec fn row_slot_preimage(
    network: NetworkId,
    chain_epoch: u64,
    participant_plan_digest: CoordinatorRollbackArchivePlanDigest,
    key_domain: ScyllaKeyDomain,
    source_checkpoint: u64,
) -> Seq<u8> {
    bytes::text("psy/coordinator-rollback-archive-row-slot/v1"@) + bytes::be32(network.chain_id)
        + bytes::be64(chain_epoch) + participant_plan_digest.0@ + bytes::be16(
        key_domain.spec_stable_id(),
    ) + bytes::be64(source_checkpoint)
}

pub open spec fn header_slot(header: CheckpointKivRowHeader) -> [u8; 32] {
    hash::sha256(
        row_slot_preimage(
            header.network,
            header.chain_epoch,
            header.participant_plan_digest,
            header.key_domain,
            header.source_checkpoint,
        ),
    )
}

/// What seals a row body is the digest of this.
pub open spec fn row_digest_preimage(body: Seq<u8>) -> Seq<u8> {
    bytes::text("psy/coordinator-rollback-archive-row/v1"@) + bytes::be_len(body.len()) + body
}

/// The digest that seals a row body.
pub open spec fn row_digest_of(body: Seq<u8>) -> [u8; 32] {
    hash::sha256(row_digest_preimage(body))
}

/// The fixed-size front of a row body: everything up to the value.
pub open spec fn row_front(header: CheckpointKivRowHeader, value_len: nat) -> Seq<u8> {
    ROW_MAGIC@ + bytes::be16(ROW_CODEC_VERSION) + bytes::be32(header.network.chain_id)
        + bytes::be64(header.chain_epoch) + header.participant_plan_digest.0@
        + header.global_plan_digest@ + bytes::be16(header.key_domain.spec_stable_id())
        + bytes::be16(header.physical_table.spec_stable_id()) + seq![header.action.spec_code()]
        + bytes::be64(header.requested.height) + header.requested.hash@ + bytes::be64(
        header.target.height,
    ) + header.target.hash@ + bytes::be_i64(header.orphan_write_max_us) + bytes::be64(
        header.source_checkpoint,
    ) + bytes::be_i64(header.source_writetime_us) + bytes::be_len(value_len)
}

/// A row body: the front, the value, the slot.
pub open spec fn row_body(
    header: CheckpointKivRowHeader,
    value: Seq<u8>,
    slot: [u8; 32],
) -> Seq<u8> {
    row_front(header, value.len()) + value + slot@
}

/// The archive row of a header and a value.
pub open spec fn kiv_row(header: CheckpointKivRowHeader, value: Seq<u8>) -> KivArchiveRowModel {
    let slot = header_slot(header);
    let body = row_body(header, value, slot);
    let digest = row_digest_of(body);
    CoordinatorRollbackCheckpointKivArchiveRow {
        header,
        source_value: value,
        slot: CoordinatorRollbackArchiveRowSlot(slot),
        canonical_bytes: body + digest@,
        digest: CoordinatorRollbackArchiveRowDigest(digest),
    }
}

fn row_slot(
    network: NetworkId,
    chain_epoch: u64,
    participant_plan_digest: CoordinatorRollbackArchivePlanDigest,
    key_domain: ScyllaKeyDomain,
    source_checkpoint: u64,
) -> (slot: CoordinatorRollbackArchiveRowSlot)
    ensures
        slot.0 == hash::sha256(
            row_slot_preimage(
                network,
                chain_epoch,
                participant_plan_digest,
                key_domain,
                source_checkpoint,
            ),
        ),
{
    let mut preimage: Vec<u8> = text_bytes("psy/coordinator-rollback-archive-row-slot/v1");
    push_u32(&mut preimage, network.chain_id);
    push_u64(&mut preimage, chain_epoch);
    push_bytes(&mut preimage, &participant_plan_digest.0);
    push_u16(&mut preimage, key_domain.stable_id());
    push_u64(&mut preimage, source_checkpoint);
    CoordinatorRollbackArchiveRowSlot(sha256_digest(&preimage))
}

/// The digest that seals a row body.
pub fn row_digest(body: &[u8]) -> (digest: CoordinatorRollbackArchiveRowDigest)
    ensures
        digest.0 == row_digest_of(body@),
{
    let mut preimage: Vec<u8> = text_bytes("psy/coordinator-rollback-archive-row/v1");
    push_len(&mut preimage, body.len());
    push_bytes(&mut preimage, body);
    CoordinatorRollbackArchiveRowDigest(sha256_digest(&preimage))
}

/// A row can be written only if its epoch and its checkpoint fit a CQL bigint.
pub open spec fn header_in_cql_range(header: CheckpointKivRowHeader) -> bool {
    header.chain_epoch <= i64::MAX && header.source_checkpoint <= i64::MAX
}

fn encode_row_without_digest(
    header: &CheckpointKivRowHeader,
    source_value: &[u8],
    slot: &CoordinatorRollbackArchiveRowSlot,
) -> (result: Result<Vec<u8>, CoordinatorRollbackArchiveRowError>)
    ensures
        match result {
            Ok(body) => header_in_cql_range(*header) && body@ == row_body(
                *header,
                source_value@,
                slot.0,
            ),
            Err(error) => !header_in_cql_range(*header) && error
                == CoordinatorRollbackArchiveRowError::IntegerOutOfCqlRange,
        },
{
    if header.chain_epoch > i64::MAX as u64 || header.source_checkpoint > i64::MAX as u64 {
        return Err(CoordinatorRollbackArchiveRowError::IntegerOutOfCqlRange);
    }
    let mut body: Vec<u8> = copy_bytes(&ROW_MAGIC);
    push_u16(&mut body, ROW_CODEC_VERSION);
    push_u32(&mut body, header.network.chain_id);
    push_u64(&mut body, header.chain_epoch);
    push_bytes(&mut body, &header.participant_plan_digest.0);
    push_bytes(&mut body, &header.global_plan_digest);
    push_u16(&mut body, header.key_domain.stable_id());
    push_u16(&mut body, header.physical_table.stable_id());
    push_byte(&mut body, header.action.code());
    push_u64(&mut body, header.requested.height);
    push_bytes(&mut body, &header.requested.hash);
    push_u64(&mut body, header.target.height);
    push_bytes(&mut body, &header.target.hash);
    push_i64(&mut body, header.orphan_write_max_us);
    push_u64(&mut body, header.source_checkpoint);
    push_i64(&mut body, header.source_writetime_us);
    push_len(&mut body, source_value.len());
    push_bytes(&mut body, source_value);
    push_bytes(&mut body, &slot.0);
    Ok(body)
}

/// The first planned treatment of a domain.
pub open spec fn planned_domain(
    domains: Seq<CoordinatorRollbackArchiveDomainPlan>,
    key_domain: ScyllaKeyDomain,
) -> Option<CoordinatorRollbackArchiveDomainPlan>
    decreases domains.len(),
{
    if domains.len() == 0 {
        None
    } else if domains[0].key_domain == key_domain {
        Some(domains[0])
    } else {
        planned_domain(domains.drop_first(), key_domain)
    }
}

fn find_planned_domain(
    domains: &[CoordinatorRollbackArchiveDomainPlan],
    key_domain: ScyllaKeyDomain,
) -> (found: Option<CoordinatorRollbackArchiveDomainPlan>)
    ensures
        found == planned_domain(domains@, key_domain),
{
    let mut i: usize = 0;
    assert(domains@.skip(0) =~= domains@);
    while i < domains.len()
        invariant
            i <= domains@.len(),
            planned_domain(domains@, key_domain) == planned_domain(
                domains@.skip(i as int),
                key_domain,
            ),
        decreases domains@.len() - i,
    {
        let ghost rest = domains@.skip(i as int);
        assert(rest.drop_first() =~= domains@.skip(i + 1));
        assert(rest[0] == domains@[i as int]);
        if domains[i].key_domain == key_domain {
            return Some(domains[i]);
        }
        i += 1;
    }
    None
}

/// The header of the row that a plan selects at one checkpoint of one table.
pub open spec fn kiv_header(
    network: NetworkId,
    chain_epoch: u64,
    plan: &CoordinatorRollbackArchivePlan,
    domain: CoordinatorRollbackArchiveDomainPlan,
    source_checkpoint: u64,
    source_writetime_us: i64,
) -> CheckpointKivRowHeader {
    CheckpointKivRowHeader {
        network,
        chain_epoch,
        participant_plan_digest: plan.digest,
        global_plan_digest: plan.request.plan_digest,
        key_domain: domain.key_domain,
        physical_table: domain.physical_table,
        action: domain.action,
        requested: plan.request.requested_head,
        target: plan.request.target,
        orphan_write_max_us: plan.request.fence.orphan_write_max_us,
        source_checkpoint,
        source_writetime_us,
    }
}

/// The archive row of one source row, or why the plan does not admit it.
pub open spec fn admitted_kiv_row(
    network: NetworkId,
    chain_epoch: u64,
    plan: &CoordinatorRollbackArchivePlan,
    registry: &Registry,
    source: CoordinatorCheckpointPartitionKivSource,
    source_checkpoint: u64,
    source_value: Seq<u8>,
    source_writetime_us: i64,
) -> Result<KivArchiveRowModel, CoordinatorRollbackArchiveRowError> {
    match planned_domain(plan.domains@, source.spec_key_domain()) {
        None => Err(CoordinatorRollbackArchiveRowError::DomainNotPlanned),
        Some(domain) => {
            let orphan_write_max_us = plan.request.fence.orphan_write_max_us;
            let header = kiv_header(
                network,
                chain_epoch,
                plan,
                domain,
                source_checkpoint,
                source_writetime_us,
            );
            let row = kiv_row(header, source_value);
            if domain.physical_table != source.spec_physical_table() || domain.action
                != CoordinatorRollbackArchiveAction::ArchiveCheckpointPartitions || registry.family(
                domain.physical_table,
            ) != Some(ScyllaSchemaFamily::Kiv) {
                Err(CoordinatorRollbackArchiveRowError::DomainContractMismatch)
            } else if source_checkpoint <= plan.request.target.height || source_checkpoint
                > plan.request.requested_head.height {
                Err(CoordinatorRollbackArchiveRowError::SourceOutsideSuffix)
            } else if source_writetime_us > orphan_write_max_us {
                Err(
                    CoordinatorRollbackArchiveRowError::WriteAfterOrphanFence {
                        writetime_us: source_writetime_us,
                        orphan_write_max_us,
                    },
                )
            } else if !header_in_cql_range(header) {
                Err(CoordinatorRollbackArchiveRowError::IntegerOutOfCqlRange)
            } else if row.canonical_bytes.len() > MAX_CANONICAL_ROW_BYTES {
                Err(
                    CoordinatorRollbackArchiveRowError::RowTooLarge {
                        actual: row.canonical_bytes.len() as usize,
                        maximum: MAX_CANONICAL_ROW_BYTES,
                    },
                )
            } else {
                Ok(row)
            }
        },
    }
}

/// The domain of the checkpoint-keyed table with the given domain number.
pub open spec fn kiv_key_domain(value: u16) -> Option<ScyllaKeyDomain> {
    if value == ScyllaKeyDomain::CheckpointLeaf.spec_stable_id() {
        Some(ScyllaKeyDomain::CheckpointLeaf)
    } else if value == ScyllaKeyDomain::L2BlockState.spec_stable_id() {
        Some(ScyllaKeyDomain::L2BlockState)
    } else if value == ScyllaKeyDomain::CheckpointStateRoots.spec_stable_id() {
        Some(ScyllaKeyDomain::CheckpointStateRoots)
    } else if value == ScyllaKeyDomain::CheckpointZkProof.spec_stable_id() {
        Some(ScyllaKeyDomain::CheckpointZkProof)
    } else {
        None
    }
}

/// The checkpoint-keyed table with the given table number.
pub open spec fn kiv_physical_table(value: u16) -> Option<ScyllaPhysicalTableId> {
    if value == ScyllaPhysicalTableId::CheckpointLeaf.spec_stable_id() {
        Some(ScyllaPhysicalTableId::CheckpointLeaf)
    } else if value == ScyllaPhysicalTableId::L2BlockState.spec_stable_id() {
        Some(ScyllaPhysicalTableId::L2BlockState)
    } else if value == ScyllaPhysicalTableId::CheckpointStateRoots.spec_stable_id() {
        Some(ScyllaPhysicalTableId::CheckpointStateRoots)
    } else if value == ScyllaPhysicalTableId::CheckpointZkProofAndTransition.spec_stable_id() {
        Some(ScyllaPhysicalTableId::CheckpointZkProofAndTransition)
    } else {
        None
    }
}

pub fn decode_checkpoint_kiv_key_domain(value: u16) -> (result: Result<
    ScyllaKeyDomain,
    CoordinatorRollbackArchiveRowError,
>)
    ensures
        result == (match kiv_key_domain(value) {
            Some(domain) => Ok(domain),
            None => Err(CoordinatorRollbackArchiveRowError::UnknownKeyDomain(value)),
        }),
{
    match ScyllaKeyDomain::from_stable_id(value) {
        Some(ScyllaKeyDomain::CheckpointLeaf) => Ok(ScyllaKeyDomain::CheckpointLeaf),
        Some(ScyllaKeyDomain::L2BlockState) => Ok(ScyllaKeyDomain::L2BlockState),
        Some(ScyllaKeyDomain::CheckpointStateRoots) => Ok(ScyllaKeyDomain::CheckpointStateRoots),
        Some(ScyllaKeyDomain::CheckpointZkProof) => Ok(ScyllaKeyDomain::CheckpointZkProof),
        _ => Err(CoordinatorRollbackArchiveRowError::UnknownKeyDomain(value)),
    }
}

pub fn decode_checkpoint_kiv_physical_table(value: u16) -> (result: Result<
    ScyllaPhysicalTableId,
    CoordinatorRollbackArchiveRowError,
>)
    ensures
        result == (match kiv_physical_table(value) {
            Some(table) => Ok(table),
            None => Err(CoordinatorRollbackArchiveRowError::UnknownPhysicalTable(value)),
        }),
{
    match ScyllaPhysicalTableId::from_stable_id(value) {
        Some(ScyllaPhysicalTableId::CheckpointLeaf) => Ok(ScyllaPhysicalTableId::CheckpointLeaf),
        Some(ScyllaPhysicalTableId::L2BlockState) => Ok(ScyllaPhysicalTableId::L2BlockState),
        Some(ScyllaPhysicalTableId::CheckpointStateRoots) => Ok(
            ScyllaPhysicalTableId::CheckpointStateRoots,
        ),
        Some(ScyllaPhysicalTableId::CheckpointZkProofAndTransition) => Ok(
            ScyllaPhysicalTableId::CheckpointZkProofAndTransition,
        ),
        _ => Err(CoordinatorRollbackArchiveRowError::UnknownPhysicalTable(value)),
    }
}

/// The header that a row body writes, its domain and its table being known.
pub open spec fn header_at(
    body: Seq<u8>,
    key_domain: ScyllaKeyDomain,
    physical_table: ScyllaPhysicalTableId,
) -> CheckpointKivRowHeader {
    CheckpointKivRowHeader {
        network: NetworkId { chain_id: bytes::u32_at(body, 10) },
        chain_epoch: bytes::u64_at(body, 14),
        participant_plan_digest: CoordinatorRollbackArchivePlanDigest(bytes::digest_at(body, 22)),
        global_plan_digest: bytes::digest_at(body, 54),
        key_domain,
        physical_table,
        action: CoordinatorRollbackArchiveAction::ArchiveCheckpointPartitions,
        requested: CheckpointRef {
            height: bytes::u64_at(body, 91),
            hash: bytes::digest_at(body, 99),
        },
        target: CheckpointRef {
            height: bytes::u64_at(body, 131),
            hash: bytes::digest_at(body, 139),
        },
        orphan_write_max_us: bytes::i64_at(body, 171),
        source_checkpoint: bytes::u64_at(body, 179),
        source_writetime_us: bytes::i64_at(body, 187),
    }
}

/// The row in a sealed body, or the first thing that is wrong with it.
pub open spec fn kiv_row_in_body(
    row: Seq<u8>,
    body: Seq<u8>,
    registry: &Registry,
    network: Result<(), String>,
) -> Result<KivArchiveRowModel, CoordinatorRollbackArchiveRowError> {
    let domain_id = bytes::u16_at(body, 86);
    let table_id = bytes::u16_at(body, 88);
    if body.subrange(0, 8) != ROW_MAGIC@ {
        Err(CoordinatorRollbackArchiveRowError::InvalidMagic)
    } else if bytes::u16_at(body, 8) != ROW_CODEC_VERSION {
        Err(CoordinatorRollbackArchiveRowError::UnknownVersion(bytes::u16_at(body, 8)))
    } else if network is Err {
        Err(CoordinatorRollbackArchiveRowError::Network(network->Err_0))
    } else if bytes::u64_at(body, 14) > i64::MAX {
        Err(CoordinatorRollbackArchiveRowError::IntegerOutOfCqlRange)
    } else if bytes::zero_digest(bytes::digest_at(body, 22)) {
        Err(
            CoordinatorRollbackArchiveRowError::PlanDigest(
                CoordinatorRollbackArchivePlanDigestError::ZeroDigest,
            ),
        )
    } else if bytes::zero_digest(bytes::digest_at(body, 54)) {
        Err(CoordinatorRollbackArchiveRowError::ZeroGlobalPlanDigest)
    } else if kiv_key_domain(domain_id) is None {
        Err(CoordinatorRollbackArchiveRowError::UnknownKeyDomain(domain_id))
    } else if kiv_physical_table(table_id) is None {
        Err(CoordinatorRollbackArchiveRowError::UnknownPhysicalTable(table_id))
    } else {
        let domain = kiv_key_domain(domain_id)->0;
        let table = kiv_physical_table(table_id)->0;
        let header = header_at(body, domain, table);
        let value_len = bytes::u64_at(body, 195);
        if registry.table_of_domain(domain) != Some(table) || registry.family(table) != Some(
            ScyllaSchemaFamily::Kiv,
        ) {
            Err(CoordinatorRollbackArchiveRowError::DomainContractMismatch)
        } else if body[90]
            != CoordinatorRollbackArchiveAction::ArchiveCheckpointPartitions.spec_code() {
            Err(CoordinatorRollbackArchiveRowError::UnknownAction(body[90]))
        } else if header.target.height >= header.requested.height {
            Err(CoordinatorRollbackArchiveRowError::InvalidRollbackRange)
        } else if header.source_checkpoint <= header.target.height || header.source_checkpoint
            > header.requested.height {
            Err(CoordinatorRollbackArchiveRowError::SourceOutsideSuffix)
        } else if header.source_writetime_us > header.orphan_write_max_us {
            Err(
                CoordinatorRollbackArchiveRowError::WriteAfterOrphanFence {
                    writetime_us: header.source_writetime_us,
                    orphan_write_max_us: header.orphan_write_max_us,
                },
            )
        } else if value_len > usize::MAX {
            Err(CoordinatorRollbackArchiveRowError::LengthOverflow)
        } else if 203 + value_len + 32 > body.len() {
            Err(CoordinatorRollbackArchiveRowError::Truncated)
        } else if 203 + value_len + 32 < body.len() {
            Err(CoordinatorRollbackArchiveRowError::TrailingBytes)
        } else if bytes::digest_at(body, 203 + value_len) != header_slot(header) {
            Err(CoordinatorRollbackArchiveRowError::RowSlotMismatch)
        } else {
            Ok(
                CoordinatorRollbackCheckpointKivArchiveRow {
                    header,
                    source_value: body.subrange(203, 203 + value_len),
                    slot: CoordinatorRollbackArchiveRowSlot(
                        bytes::digest_at(body, 203 + value_len),
                    ),
                    canonical_bytes: row,
                    digest: CoordinatorRollbackArchiveRowDigest(
                        row_digest_of(body),
                    ),
                },
            )
        }
    }
}

/// The chain id in the bytes of an archived row. `None` where they end before it.
pub fn archived_chain_id(row: &[u8]) -> (chain_id: Option<u32>)
    ensures
        chain_id == (if row@.len() < 14 {
            None::<u32>
        } else {
            Some(bytes::u32_at(row@, 10))
        }),
{
    let mut cursor = Cursor::new(row);
    let _ = cursor.take(10)?;
    cursor.u32()
}

/// The row that archived bytes hold, or the first thing that is wrong with them.
/// `network` is what the protocol says of the chain id in the row.
pub open spec fn decoded_kiv_row(
    row: Seq<u8>,
    registry: &Registry,
    network: Result<(), String>,
) -> Result<KivArchiveRowModel, CoordinatorRollbackArchiveRowError> {
    if row.len() < ROW_MIN_BYTES {
        Err(CoordinatorRollbackArchiveRowError::Truncated)
    } else if row.len() > MAX_CANONICAL_ROW_BYTES {
        Err(
            CoordinatorRollbackArchiveRowError::RowTooLarge {
                actual: row.len() as usize,
                maximum: MAX_CANONICAL_ROW_BYTES,
            },
        )
    } else {
        let body = row.subrange(0, row.len() - 32);
        if row.subrange(row.len() - 32, row.len() as int) != row_digest_of(body)@ {
            Err(CoordinatorRollbackArchiveRowError::DigestMismatch)
        } else {
            kiv_row_in_body(row, body, registry, network)
        }
    }
}

/// The view of a decoding result.
pub open spec fn kiv_result(
    result: Result<KivArchiveRow, CoordinatorRollbackArchiveRowError>,
) -> Result<KivArchiveRowModel, CoordinatorRollbackArchiveRowError> {
    match result {
        Ok(row) => Ok(row@),
        Err(error) => Err(error),
    }
}

impl CoordinatorRollbackCheckpointKivArchiveRow<Vec<u8>> {
    /// The archive row of a checkpoint's zk proof.
    pub fn try_checkpoint_zk_proof(
        network: NetworkId,
        chain_epoch: u64,
        plan: &CoordinatorRollbackArchivePlan,
        registry: &Registry,
        source_checkpoint: u64,
        source_value: Vec<u8>,
        source_writetime_us: i64,
    ) -> (result: Result<Self, CoordinatorRollbackArchiveRowError>)
        ensures
            kiv_result(result) == admitted_kiv_row(
                network,
                chain_epoch,
                plan,
                registry,
                CoordinatorCheckpointPartitionKivSource::CheckpointZkProof,
                source_checkpoint,
                source_value@,
                source_writetime_us,
            ),
    {
        Self::try_checkpoint_partition_kiv(
            network,
            chain_epoch,
            plan,
            registry,
            CoordinatorCheckpointPartitionKivSource::CheckpointZkProof,
            source_checkpoint,
            source_value,
            source_writetime_us,
        )
    }

    /// The archive row of one source row, if the plan admits it.
    pub fn try_checkpoint_partition_kiv(
        network: NetworkId,
        chain_epoch: u64,
        plan: &CoordinatorRollbackArchivePlan,
        registry: &Registry,
        source: CoordinatorCheckpointPartitionKivSource,
        source_checkpoint: u64,
        source_value: Vec<u8>,
        source_writetime_us: i64,
    ) -> (result: Result<Self, CoordinatorRollbackArchiveRowError>)
        ensures
            kiv_result(result) == admitted_kiv_row(
                network,
                chain_epoch,
                plan,
                registry,
                source,
                source_checkpoint,
                source_value@,
                source_writetime_us,
            ),
    {
        let domain = match find_planned_domain(plan.domains.as_slice(), source.key_domain()) {
            Some(domain) => domain,
            None => return Err(CoordinatorRollbackArchiveRowError::DomainNotPlanned),
        };
        if domain.physical_table != source.physical_table() || domain.action
            != CoordinatorRollbackArchiveAction::ArchiveCheckpointPartitions
            || registry.schema_family(domain.physical_table) != Some(ScyllaSchemaFamily::Kiv) {
            return Err(CoordinatorRollbackArchiveRowError::DomainContractMismatch);
        }
        if source_checkpoint <= plan.suffix_start_exclusive() || source_checkpoint
            > plan.suffix_end_inclusive() {
            return Err(CoordinatorRollbackArchiveRowError::SourceOutsideSuffix);
        }
        let orphan_write_max_us: i64 = plan.request.fence.orphan_write_max_us;
        if source_writetime_us > orphan_write_max_us {
            return Err(
                CoordinatorRollbackArchiveRowError::WriteAfterOrphanFence {
                    writetime_us: source_writetime_us,
                    orphan_write_max_us,
                },
            );
        }
        let header = CheckpointKivRowHeader {
            network,
            chain_epoch,
            participant_plan_digest: plan.digest,
            global_plan_digest: plan.request.plan_digest,
            key_domain: domain.key_domain,
            physical_table: domain.physical_table,
            action: domain.action,
            requested: plan.request.requested_head,
            target: plan.request.target,
            orphan_write_max_us,
            source_checkpoint,
            source_writetime_us,
        };
        let slot = row_slot(
            network,
            chain_epoch,
            plan.digest,
            domain.key_domain,
            source_checkpoint,
        );
        let mut canonical_bytes: Vec<u8> = match encode_row_without_digest(
            &header,
            &source_value,
            &slot,
        ) {
            Ok(body) => body,
            Err(error) => return Err(error),
        };
        let digest = row_digest(&canonical_bytes);
        push_bytes(&mut canonical_bytes, &digest.0);
        if canonical_bytes.len() > MAX_CANONICAL_ROW_BYTES {
            return Err(
                CoordinatorRollbackArchiveRowError::RowTooLarge {
                    actual: canonical_bytes.len(),
                    maximum: MAX_CANONICAL_ROW_BYTES,
                },
            );
        }
        Ok(
            CoordinatorRollbackCheckpointKivArchiveRow {
                header,
                source_value,
                slot,
                canonical_bytes,
                digest,
            },
        )
    }

    /// Reads archived bytes back. Only a complete, sealed and consistent row is
    /// accepted.
    pub fn decode_canonical(
        row: &[u8],
        registry: &Registry,
        network: Result<(), String>,
    ) -> (result: Result<Self, CoordinatorRollbackArchiveRowError>)
        ensures
            kiv_result(result) == decoded_kiv_row(row@, registry, network),
    {
        if row.len() < ROW_MIN_BYTES {
            return Err(CoordinatorRollbackArchiveRowError::Truncated);
        }
        if row.len() > MAX_CANONICAL_ROW_BYTES {
            return Err(
                CoordinatorRollbackArchiveRowError::RowTooLarge {
                    actual: row.len(),
                    maximum: MAX_CANONICAL_ROW_BYTES,
                },
            );
        }
        let split: usize = row.len() - 32;
        let body = vstd::slice::slice_subrange(row, 0, split);
        let stored_digest = vstd::slice::slice_subrange(row, split, row.len());
        let expected_digest = row_digest(body);
        if !bytes_equal(stored_digest, &expected_digest.0) {
            return Err(CoordinatorRollbackArchiveRowError::DigestMismatch);
        }
        let mut cursor = Cursor::new(body);
        let magic = cursor.take(8).ok_or(CoordinatorRollbackArchiveRowError::Truncated)?;
        if !bytes_equal(magic, &ROW_MAGIC) {
            return Err(CoordinatorRollbackArchiveRowError::InvalidMagic);
        }
        let version: u16 = cursor.u16().ok_or(CoordinatorRollbackArchiveRowError::Truncated)?;
        if version != ROW_CODEC_VERSION {
            return Err(CoordinatorRollbackArchiveRowError::UnknownVersion(version));
        }
        let chain_id: u32 = cursor.u32().ok_or(CoordinatorRollbackArchiveRowError::Truncated)?;
        if let Err(refused) = network {
            return Err(CoordinatorRollbackArchiveRowError::Network(refused));
        }
        let network = NetworkId { chain_id };
        let chain_epoch: u64 = cursor.u64().ok_or(CoordinatorRollbackArchiveRowError::Truncated)?;
        if chain_epoch > i64::MAX as u64 {
            return Err(CoordinatorRollbackArchiveRowError::IntegerOutOfCqlRange);
        }
        let plan_digest = cursor.array_32().ok_or(CoordinatorRollbackArchiveRowError::Truncated)?;
        let participant_plan_digest =
            match CoordinatorRollbackArchivePlanDigest::try_from_archive_bytes(plan_digest) {
            Ok(digest) => digest,
            Err(error) => return Err(CoordinatorRollbackArchiveRowError::PlanDigest(error)),
        };
        let global_plan_digest = cursor.array_32().ok_or(
            CoordinatorRollbackArchiveRowError::Truncated,
        )?;
        if is_zero_digest(&global_plan_digest) {
            return Err(CoordinatorRollbackArchiveRowError::ZeroGlobalPlanDigest);
        }
        let domain_id: u16 = cursor.u16().ok_or(CoordinatorRollbackArchiveRowError::Truncated)?;
        let key_domain = decode_checkpoint_kiv_key_domain(domain_id)?;
        let table_id: u16 = cursor.u16().ok_or(CoordinatorRollbackArchiveRowError::Truncated)?;
        let physical_table = decode_checkpoint_kiv_physical_table(table_id)?;
        if registry.physical_table_of(key_domain) != Some(physical_table)
            || registry.schema_family(physical_table) != Some(ScyllaSchemaFamily::Kiv) {
            return Err(CoordinatorRollbackArchiveRowError::DomainContractMismatch);
        }
        let action_code: u8 = cursor.u8().ok_or(CoordinatorRollbackArchiveRowError::Truncated)?;
        let action = CoordinatorRollbackArchiveAction::ArchiveCheckpointPartitions;
        if action_code != action.code() {
            return Err(CoordinatorRollbackArchiveRowError::UnknownAction(action_code));
        }
        let requested_height: u64 = cursor.u64().ok_or(
            CoordinatorRollbackArchiveRowError::Truncated,
        )?;
        let requested_hash = cursor.array_32().ok_or(
            CoordinatorRollbackArchiveRowError::Truncated,
        )?;
        let target_height: u64 = cursor.u64().ok_or(
            CoordinatorRollbackArchiveRowError::Truncated,
        )?;
        let target_hash = cursor.array_32().ok_or(CoordinatorRollbackArchiveRowError::Truncated)?;
        if target_height >= requested_height {
            return Err(CoordinatorRollbackArchiveRowError::InvalidRollbackRange);
        }
        let orphan_write_max_us: i64 = cursor.i64().ok_or(
            CoordinatorRollbackArchiveRowError::Truncated,
        )?;
        let source_checkpoint: u64 = cursor.u64().ok_or(
            CoordinatorRollbackArchiveRowError::Truncated,
        )?;
        if source_checkpoint <= target_height || source_checkpoint > requested_height {
            return Err(CoordinatorRollbackArchiveRowError::SourceOutsideSuffix);
        }
        let source_writetime_us: i64 = cursor.i64().ok_or(
            CoordinatorRollbackArchiveRowError::Truncated,
        )?;
        if source_writetime_us > orphan_write_max_us {
            return Err(
                CoordinatorRollbackArchiveRowError::WriteAfterOrphanFence {
                    writetime_us: source_writetime_us,
                    orphan_write_max_us,
                },
            );
        }
        let source_len: u64 = cursor.u64().ok_or(CoordinatorRollbackArchiveRowError::Truncated)?;
        if source_len > usize::MAX as u64 {
            return Err(CoordinatorRollbackArchiveRowError::LengthOverflow);
        }
        let source_value: Vec<u8> = copy_bytes(
            cursor.take(source_len as usize).ok_or(CoordinatorRollbackArchiveRowError::Truncated)?,
        );
        let slot = CoordinatorRollbackArchiveRowSlot(
            cursor.array_32().ok_or(CoordinatorRollbackArchiveRowError::Truncated)?,
        );
        if !cursor.is_empty() {
            return Err(CoordinatorRollbackArchiveRowError::TrailingBytes);
        }
        let expected_slot = row_slot(
            network,
            chain_epoch,
            participant_plan_digest,
            key_domain,
            source_checkpoint,
        );
        if !array_equal::<32>(&slot.0, &expected_slot.0) {
            return Err(CoordinatorRollbackArchiveRowError::RowSlotMismatch);
        }
        Ok(
            CoordinatorRollbackCheckpointKivArchiveRow {
                header: CheckpointKivRowHeader {
                    network,
                    chain_epoch,
                    participant_plan_digest,
                    global_plan_digest,
                    key_domain,
                    physical_table,
                    action,
                    requested: CheckpointRef { height: requested_height, hash: requested_hash },
                    target: CheckpointRef { height: target_height, hash: target_hash },
                    orphan_write_max_us,
                    source_checkpoint,
                    source_writetime_us,
                },
                source_value,
                slot,
                canonical_bytes: copy_bytes(row),
                digest: expected_digest,
            },
        )
    }
}

/// Where each field of a row front stands.
proof fn lemma_row_front(header: CheckpointKivRowHeader, value_len: nat)
    requires
        value_len <= u64::MAX,
    ensures
        ({
            let front = row_front(header, value_len);
            &&& front.len() == 203
            &&& front.subrange(0, 8) == ROW_MAGIC@
            &&& bytes::u16_at(front, 8) == ROW_CODEC_VERSION
            &&& bytes::u32_at(front, 10) == header.network.chain_id
            &&& bytes::u64_at(front, 14) == header.chain_epoch
            &&& bytes::digest_at(front, 22) == header.participant_plan_digest.0
            &&& bytes::digest_at(front, 54) == header.global_plan_digest
            &&& bytes::u16_at(front, 86) == header.key_domain.spec_stable_id()
            &&& bytes::u16_at(front, 88) == header.physical_table.spec_stable_id()
            &&& front[90] == header.action.spec_code()
            &&& bytes::u64_at(front, 91) == header.requested.height
            &&& bytes::digest_at(front, 99) == header.requested.hash
            &&& bytes::u64_at(front, 131) == header.target.height
            &&& bytes::digest_at(front, 139) == header.target.hash
            &&& bytes::i64_at(front, 171) == header.orphan_write_max_us
            &&& bytes::u64_at(front, 179) == header.source_checkpoint
            &&& bytes::i64_at(front, 187) == header.source_writetime_us
            &&& bytes::u64_at(front, 195) == value_len
        }),
{
    let front = row_front(header, value_len);
    bytes::lemma_be_lens();
    assert(front.len() == 203);
    assert(front.subrange(0, 8) =~= ROW_MAGIC@);
    assert(front.subrange(8, 10) =~= bytes::be16(ROW_CODEC_VERSION));
    assert(front.subrange(10, 14) =~= bytes::be32(header.network.chain_id));
    assert(front.subrange(14, 22) =~= bytes::be64(header.chain_epoch));
    assert(front.subrange(22, 54) =~= header.participant_plan_digest.0@);
    assert(front.subrange(54, 86) =~= header.global_plan_digest@);
    assert(front.subrange(86, 88) =~= bytes::be16(header.key_domain.spec_stable_id()));
    assert(front.subrange(88, 90) =~= bytes::be16(header.physical_table.spec_stable_id()));
    assert(front[90] == header.action.spec_code());
    assert(front.subrange(91, 99) =~= bytes::be64(header.requested.height));
    assert(front.subrange(99, 131) =~= header.requested.hash@);
    assert(front.subrange(131, 139) =~= bytes::be64(header.target.height));
    assert(front.subrange(139, 171) =~= header.target.hash@);
    assert(front.subrange(171, 179) =~= bytes::be_i64(header.orphan_write_max_us));
    assert(front.subrange(179, 187) =~= bytes::be64(header.source_checkpoint));
    assert(front.subrange(187, 195) =~= bytes::be_i64(header.source_writetime_us));
    assert(front.subrange(195, 203) =~= bytes::be64(value_len as u64));
    bytes::lemma_write_then_read(front, 8);
    bytes::lemma_write_then_read(front, 10);
    bytes::lemma_write_then_read(front, 14);
    bytes::lemma_write_then_read(front, 22);
    bytes::lemma_write_then_read(front, 54);
    bytes::lemma_write_then_read(front, 86);
    bytes::lemma_write_then_read(front, 88);
    bytes::lemma_write_then_read(front, 91);
    bytes::lemma_write_then_read(front, 99);
    bytes::lemma_write_then_read(front, 131);
    bytes::lemma_write_then_read(front, 139);
    bytes::lemma_write_then_read(front, 171);
    bytes::lemma_write_then_read(front, 179);
    bytes::lemma_write_then_read(front, 187);
    bytes::lemma_write_then_read(front, 195);
}

/// A header that a decoder accepts under a registry.
pub open spec fn acceptable_header(header: CheckpointKivRowHeader, registry: &Registry) -> bool {
    &&& header_in_cql_range(header)
    &&& !bytes::zero_digest(header.participant_plan_digest.0)
    &&& !bytes::zero_digest(header.global_plan_digest)
    &&& kiv_key_domain(header.key_domain.spec_stable_id()) == Some(header.key_domain)
    &&& registry.table_of_domain(header.key_domain) == Some(header.physical_table)
    &&& kiv_physical_table(header.physical_table.spec_stable_id()) == Some(header.physical_table)
    &&& registry.family(header.physical_table) == Some(ScyllaSchemaFamily::Kiv)
    &&& header.action == CoordinatorRollbackArchiveAction::ArchiveCheckpointPartitions
    &&& header.target.height < header.requested.height
    &&& header.target.height < header.source_checkpoint <= header.requested.height
    &&& header.source_writetime_us <= header.orphan_write_max_us
}

/// Decoding a row's canonical bytes gives the row back.
#[verifier::spinoff_prover]
#[verifier::rlimit(40)]
pub proof fn law_kiv_row_round_trips(
    header: CheckpointKivRowHeader,
    value: Seq<u8>,
    registry: &Registry,
)
    requires
        acceptable_header(header, registry),
        kiv_row(header, value).canonical_bytes.len() <= MAX_CANONICAL_ROW_BYTES,
    ensures
        decoded_kiv_row(kiv_row(header, value).canonical_bytes, registry, Ok(())) == Ok::<
            KivArchiveRowModel,
            CoordinatorRollbackArchiveRowError,
        >(kiv_row(header, value)),
{
    let row = kiv_row(header, value);
    let slot = header_slot(header);
    let front = row_front(header, value.len());
    let body = row_body(header, value, slot);
    let all = row.canonical_bytes;
    assert(all.len() == front.len() + value.len() + 64);
    lemma_row_front(header, value.len());
    assert(all.subrange(0, all.len() - 32) =~= body);
    assert(all.subrange(all.len() - 32, all.len() as int) =~= row.digest.0@);
    assert(body.subrange(0, 203) =~= front);
    bytes::lemma_read_in_front(front, body);
    assert(body.subrange(203, 203 + value.len() as int) =~= value);
    assert(body.subrange(203 + value.len() as int, 235 + value.len() as int) =~= slot@);
    bytes::lemma_write_then_read(body, 203 + value.len() as int);
    assert(bytes::digest_at(body, 203 + value.len() as int) == slot);
    assert(header_at(body, header.key_domain, header.physical_table) == header);
}

/// A row that holds another slot than its own is refused, though its digest was made
/// anew.
#[verifier::spinoff_prover]
#[verifier::rlimit(40)]
pub proof fn law_foreign_slot_is_refused(
    header: CheckpointKivRowHeader,
    value: Seq<u8>,
    registry: &Registry,
    slot: [u8; 32],
)
    requires
        acceptable_header(header, registry),
        kiv_row(header, value).canonical_bytes.len() <= MAX_CANONICAL_ROW_BYTES,
        slot != header_slot(header),
    ensures
        ({
            let body = row_body(header, value, slot);
            decoded_kiv_row(body + row_digest_of(body)@, registry, Ok(())) == Err::<
                KivArchiveRowModel,
                _,
            >(CoordinatorRollbackArchiveRowError::RowSlotMismatch)
        }),
{
    let front = row_front(header, value.len());
    let body = row_body(header, value, slot);
    let all = body + row_digest_of(body)@;
    assert(all.len() == front.len() + value.len() + 64);
    lemma_row_front(header, value.len());
    assert(all.subrange(0, all.len() - 32) =~= body);
    assert(all.subrange(all.len() - 32, all.len() as int) =~= row_digest_of(body)@);
    assert(body.subrange(0, 203) =~= front);
    bytes::lemma_read_in_front(front, body);
    assert(body.subrange(203 + value.len() as int, 235 + value.len() as int) =~= slot@);
    bytes::lemma_write_then_read(body, 203 + value.len() as int);
    assert(bytes::digest_at(body, 203 + value.len() as int) == slot);
    assert(header_at(body, header.key_domain, header.physical_table) == header);
}

/// Whatever a decoder accepts is the canonical encoding of what it returns.
#[verifier::spinoff_prover]
#[verifier::rlimit(40)]
pub proof fn law_decoded_kiv_row_is_canonical(
    row: Seq<u8>,
    registry: &Registry,
    network: Result<(), String>,
)
    ensures
        decoded_kiv_row(row, registry, network) matches Ok(model) ==> model == kiv_row(
            model.header,
            model.source_value,
        ) && model.canonical_bytes == row,
{
    if let Ok(model) = decoded_kiv_row(row, registry, network) {
        let body = row.subrange(0, row.len() - 32);
        let header = model.header;
        let value = model.source_value;
        bytes::lemma_be_lens();
        bytes::lemma_read_then_write(body, 8);
        bytes::lemma_read_then_write(body, 10);
        bytes::lemma_read_then_write(body, 14);
        bytes::lemma_read_then_write(body, 22);
        bytes::lemma_read_then_write(body, 54);
        bytes::lemma_read_then_write(body, 86);
        bytes::lemma_read_then_write(body, 88);
        bytes::lemma_read_then_write(body, 91);
        bytes::lemma_read_then_write(body, 99);
        bytes::lemma_read_then_write(body, 131);
        bytes::lemma_read_then_write(body, 139);
        bytes::lemma_read_then_write(body, 171);
        bytes::lemma_read_then_write(body, 179);
        bytes::lemma_read_then_write(body, 187);
        bytes::lemma_read_then_write(body, 195);
        bytes::lemma_read_then_write(body, 203 + value.len() as int);
        assert(header.key_domain.spec_stable_id() == bytes::u16_at(body, 86));
        assert(header.physical_table.spec_stable_id() == bytes::u16_at(body, 88));
        assert(body.subrange(0, 203) =~= row_front(header, value.len()));
        assert(body =~= row_body(header, value, model.slot.0));
        assert(row =~= body + model.digest.0@);
    }
}

/// The slot of a row is fixed by its source key: the value and its write time
/// play no part in it.
pub proof fn law_slot_binds_the_source_key_only(
    a: CheckpointKivRowHeader,
    b: CheckpointKivRowHeader,
    first: Seq<u8>,
    second: Seq<u8>,
)
    requires
        a.network == b.network,
        a.chain_epoch == b.chain_epoch,
        a.participant_plan_digest == b.participant_plan_digest,
        a.key_domain == b.key_domain,
        a.source_checkpoint == b.source_checkpoint,
    ensures
        kiv_row(a, first).slot == kiv_row(b, second).slot,
{
}

/// Rows of one table that differ in anything, such as the value or its write time, have
/// other canonical bytes, and their digests are those of other bytes.
#[verifier::spinoff_prover]
#[verifier::rlimit(40)]
pub proof fn law_row_bytes_bind_the_whole_row(
    a: CheckpointKivRowHeader,
    b: CheckpointKivRowHeader,
    first: Seq<u8>,
    second: Seq<u8>,
)
    requires
        a.key_domain == b.key_domain,
        a.physical_table == b.physical_table,
        a.action == b.action,
        first.len() <= MAX_CANONICAL_ROW_BYTES,
        second.len() <= MAX_CANONICAL_ROW_BYTES,
        a != b || first != second,
    ensures
        ({
            let x = row_body(a, first, header_slot(a));
            let y = row_body(b, second, header_slot(b));
            &&& x != y
            &&& row_digest_preimage(x) != row_digest_preimage(y)
            &&& kiv_row(a, first).canonical_bytes != kiv_row(b, second).canonical_bytes
        }),
{
    let x = row_body(a, first, header_slot(a));
    let y = row_body(b, second, header_slot(b));
    lemma_row_front(a, first.len());
    lemma_row_front(b, second.len());
    let front_x = row_front(a, first.len());
    let front_y = row_front(b, second.len());
    assert(x.subrange(0, 203) =~= front_x);
    assert(y.subrange(0, 203) =~= front_y);
    assert(x.subrange(203, 203 + first.len() as int) =~= first);
    assert(y.subrange(203, 203 + second.len() as int) =~= second);
    if x == y {
        assert(a == header_at(front_x, a.key_domain, a.physical_table));
        assert(b == header_at(front_y, b.key_domain, b.physical_table));
        assert(false);
    }
    bytes::lemma_be_lens();
    let label = bytes::text("psy/coordinator-rollback-archive-row/v1"@);
    let image_x = row_digest_preimage(x);
    let image_y = row_digest_preimage(y);
    let at = label.len() as int + 8;
    assert(image_x.subrange(at, image_x.len() as int) =~= x);
    assert(image_y.subrange(at, image_y.len() as int) =~= y);
    let row_x = kiv_row(a, first).canonical_bytes;
    let row_y = kiv_row(b, second).canonical_bytes;
    assert(row_x.subrange(0, row_x.len() - 32) =~= x);
    assert(row_y.subrange(0, row_y.len() - 32) =~= y);
}

/// A row that a plan admits decodes to itself under the same registry.
#[verifier::spinoff_prover]
#[verifier::rlimit(40)]
pub proof fn law_admitted_kiv_row_round_trips(
    network: NetworkId,
    chain_epoch: u64,
    plan: &CoordinatorRollbackArchivePlan,
    registry: &Registry,
    source: CoordinatorCheckpointPartitionKivSource,
    source_checkpoint: u64,
    source_value: Seq<u8>,
    source_writetime_us: i64,
)
    requires
        !bytes::zero_digest(plan.digest.0),
        !bytes::zero_digest(plan.request.plan_digest),
        registry.table_of_domain(source.spec_key_domain()) == Some(source.spec_physical_table()),
    ensures
        admitted_kiv_row(
            network,
            chain_epoch,
            plan,
            registry,
            source,
            source_checkpoint,
            source_value,
            source_writetime_us,
        ) matches Ok(row) ==> decoded_kiv_row(row.canonical_bytes, registry, Ok(())) == Ok::<
            KivArchiveRowModel,
            CoordinatorRollbackArchiveRowError,
        >(row),
{
    if let Ok(row) = admitted_kiv_row(
        network,
        chain_epoch,
        plan,
        registry,
        source,
        source_checkpoint,
        source_value,
        source_writetime_us,
    ) {
        lemma_planned_domain_id(plan.domains@, source.spec_key_domain());
        law_kiv_row_round_trips(row.header, source_value, registry);
    }
}

proof fn lemma_planned_domain_id(
    domains: Seq<CoordinatorRollbackArchiveDomainPlan>,
    key_domain: ScyllaKeyDomain,
)
    ensures
        planned_domain(domains, key_domain) matches Some(domain) ==> domain.key_domain
            == key_domain,
    decreases domains.len(),
{
    if domains.len() > 0 {
        lemma_planned_domain_id(domains.drop_first(), key_domain);
    }
}

/// One stored piece of a row.
#[verifier::ext_equal]
#[derive(Clone, Debug, PartialEq, Eq)]
pub struct CoordinatorRollbackArchiveFragment<B> {
    pub index: i32,
    pub count: i32,
    pub row_bytes: i64,
    pub payload: B,
    pub payload_digest: [u8; 32],
    pub row_digest: CoordinatorRollbackArchiveRowDigest,
}

pub type Fragment = CoordinatorRollbackArchiveFragment<Vec<u8>>;

pub type FragmentModel = CoordinatorRollbackArchiveFragment<Seq<u8>>;

impl View for CoordinatorRollbackArchiveFragment<Vec<u8>> {
    type V = CoordinatorRollbackArchiveFragment<Seq<u8>>;

    open spec fn view(&self) -> CoordinatorRollbackArchiveFragment<Seq<u8>> {
        CoordinatorRollbackArchiveFragment {
            index: self.index,
            count: self.count,
            row_bytes: self.row_bytes,
            payload: self.payload@,
            payload_digest: self.payload_digest,
            row_digest: self.row_digest,
        }
    }
}

impl CoordinatorRollbackArchiveFragment<Vec<u8>> {
    pub fn same(&self, other: &Self) -> (same: bool)
        ensures
            same == (self@ == other@),
    {
        self.index == other.index && self.count == other.count && self.row_bytes == other.row_bytes
            && bytes_equal(&self.payload, &other.payload) && array_equal::<32>(
            &self.payload_digest,
            &other.payload_digest,
        ) && array_equal::<32>(&self.row_digest.0, &other.row_digest.0)
    }
}

/// The views of the fragments of a list.
pub open spec fn fragment_models(fragments: Seq<Fragment>) -> Seq<FragmentModel> {
    Seq::new(fragments.len(), |i: int| fragments[i]@)
}

/// The digest that seals one fragment at its index.
pub open spec fn fragment_digest_of(index: i32, payload: Seq<u8>) -> [u8; 32] {
    hash::sha256(
        bytes::text("psy/coordinator-rollback-archive-fragment/v1"@) + bytes::be_i32(index)
            + bytes::be_len(payload.len()) + payload,
    )
}

pub fn fragment_digest(index: i32, payload: &[u8]) -> (digest: [u8; 32])
    ensures
        digest == fragment_digest_of(index, payload@),
{
    let mut preimage: Vec<u8> = text_bytes("psy/coordinator-rollback-archive-fragment/v1");
    push_i32(&mut preimage, index);
    push_len(&mut preimage, payload.len());
    push_bytes(&mut preimage, payload);
    sha256_digest(&preimage)
}

/// How many fragments a row of `len` bytes takes.
pub open spec fn fragment_count(len: nat) -> nat {
    (len + MAX_FRAGMENT_BYTES - 1) as nat / MAX_FRAGMENT_BYTES as nat
}

/// The `i`-th fragment of a row.
pub open spec fn fragment_at(
    row: Seq<u8>,
    row_digest: CoordinatorRollbackArchiveRowDigest,
    i: int,
) -> FragmentModel {
    let start = i * MAX_FRAGMENT_BYTES;
    let end = if start + MAX_FRAGMENT_BYTES < row.len() {
        start + MAX_FRAGMENT_BYTES
    } else {
        row.len() as int
    };
    let payload = row.subrange(start, end);
    CoordinatorRollbackArchiveFragment {
        index: i as i32,
        count: fragment_count(row.len()) as i32,
        row_bytes: row.len() as i64,
        payload,
        payload_digest: fragment_digest_of(i as i32, payload),
        row_digest,
    }
}

/// The fragments that a row is stored in, in order.
pub open spec fn fragments_of(
    row: Seq<u8>,
    row_digest: CoordinatorRollbackArchiveRowDigest,
) -> Seq<FragmentModel> {
    Seq::new(fragment_count(row.len()), |i: int| fragment_at(row, row_digest, i))
}

/// Whether a row can be stored at all: in at least one and at most
/// [`MAX_FRAGMENTS`] fragments.
pub open spec fn fits_fragments(len: nat) -> bool {
    1 <= fragment_count(len) <= MAX_FRAGMENTS
}

pub(crate) fn split_fragments(row: &[u8], row_digest: CoordinatorRollbackArchiveRowDigest) -> (result: Result<
    Vec<Fragment>,
    usize,
>)
    ensures
        match result {
            Ok(fragments) => fits_fragments(row@.len()) && fragment_models(fragments@)
                == fragments_of(row@, row_digest),
            Err(count) => !fits_fragments(row@.len()) && count == fragment_count(row@.len()),
        },
{
    let len: usize = row.len();
    let count: usize = if len % MAX_FRAGMENT_BYTES == 0 {
        len / MAX_FRAGMENT_BYTES
    } else {
        len / MAX_FRAGMENT_BYTES + 1
    };
    assert(count == fragment_count(row@.len()));
    if count == 0 || count > MAX_FRAGMENTS {
        return Err(count);
    }
    let mut fragments: Vec<Fragment> = Vec::new();
    let mut i: usize = 0;
    while i < count
        invariant
            i <= count,
            1 <= count <= MAX_FRAGMENTS,
            count == fragment_count(row@.len()),
            len == row@.len(),
            fragments@.len() == i,
            forall|k: int| 0 <= k < i ==> (#[trigger] fragments@[k])@ == fragment_at(row@, row_digest, k),
        decreases count - i,
    {
        let start: usize = i * MAX_FRAGMENT_BYTES;
        let end: usize = if MAX_FRAGMENT_BYTES < len - start {
            start + MAX_FRAGMENT_BYTES
        } else {
            len
        };
        let payload: Vec<u8> = copy_bytes(vstd::slice::slice_subrange(row, start, end));
        let payload_digest = fragment_digest(i as i32, &payload);
        let fragment = CoordinatorRollbackArchiveFragment {
            index: i as i32,
            count: count as i32,
            row_bytes: len as i64,
            payload,
            payload_digest,
            row_digest,
        };
        assert(fragment@ == fragment_at(row@, row_digest, i as int));
        fragments.push(fragment);
        i += 1;
    }
    assert(fragment_models(fragments@) =~= fragments_of(row@, row_digest));
    Ok(fragments)
}

impl CoordinatorRollbackCheckpointKivArchiveRow<Vec<u8>> {
    /// The fragments that this row is stored in.
    pub fn fragments(&self) -> (result: Result<Vec<Fragment>, CoordinatorRollbackArchiveRowError>)
        ensures
            match result {
                Ok(fragments) => fits_fragments(self.canonical_bytes@.len()) && fragment_models(
                    fragments@,
                ) == fragments_of(self.canonical_bytes@, self.digest),
                Err(error) => !fits_fragments(self.canonical_bytes@.len()) && error
                    == CoordinatorRollbackArchiveRowError::InvalidFragmentCount(
                    fragment_count(self.canonical_bytes@.len()) as usize,
                ),
            },
    {
        match split_fragments(&self.canonical_bytes, self.digest) {
            Ok(fragments) => Ok(fragments),
            Err(count) => Err(CoordinatorRollbackArchiveRowError::InvalidFragmentCount(count)),
        }
    }
}

#[derive(Clone, Debug, PartialEq, Eq)]
pub enum CoordinatorRollbackArchiveStoreError {
    Cql(String),
    Row(CoordinatorRollbackArchiveRowError),
    MappingRow(CoordinatorRollbackMappingArchiveRowError),
    CanonicalHead(String),
    CanonicalHeadChanged,
    NotExactArchivingHead,
    TabletKeyspaceRequired,
    CheckpointOverflow,
    IntegerOutOfCqlRange,
    LengthOverflow,
    MissingPreparedSource,
    MissingSourceColumn,
    SourceChanged,
    MissingArchiveColumn,
    InvalidArchiveRevision,
    MissingAppliedColumn,
    InvalidAppliedColumn,
    InvalidDigestLength,
    FragmentDigestMismatch,
    RowDigestMismatch,
    InvalidFragmentSet,
    MissingAfterPersist,
    SelectedRowMismatch,
    Conflict,
    ReceiptBindingMismatch,
    ReceiptStale,
    Indeterminate(String),
    OutOfOrder,
}

pub const ARCHIVE_REVISION: i64 = 1;

/// The columns of a stored fragment as they come back from the database.
#[verifier::ext_equal]
#[derive(Clone, Debug, PartialEq, Eq)]
pub struct StoredFragmentColumns<B> {
    pub revision: Option<i64>,
    pub count: Option<i32>,
    pub row_bytes: Option<i64>,
    pub payload: Option<B>,
    pub payload_digest: Option<B>,
    pub row_digest: Option<B>,
}

/// The contents of an optional byte string.
pub open spec fn optional_bytes(bytes: Option<Vec<u8>>) -> Option<Seq<u8>> {
    match bytes {
        Some(bytes) => Some(bytes@),
        None => None,
    }
}

impl View for StoredFragmentColumns<Vec<u8>> {
    type V = StoredFragmentColumns<Seq<u8>>;

    open spec fn view(&self) -> StoredFragmentColumns<Seq<u8>> {
        StoredFragmentColumns {
            revision: self.revision,
            count: self.count,
            row_bytes: self.row_bytes,
            payload: optional_bytes(self.payload),
            payload_digest: optional_bytes(self.payload_digest),
            row_digest: optional_bytes(self.row_digest),
        }
    }
}

/// The fragment that stored columns hold, or the first thing wrong with them.
pub open spec fn stored_fragment(
    index: i32,
    columns: StoredFragmentColumns<Seq<u8>>,
) -> Result<FragmentModel, CoordinatorRollbackArchiveStoreError> {
    if columns.revision != Some(ARCHIVE_REVISION) {
        Err(CoordinatorRollbackArchiveStoreError::InvalidArchiveRevision)
    } else if columns.payload is None || columns.payload_digest is None {
        Err(CoordinatorRollbackArchiveStoreError::MissingArchiveColumn)
    } else if (columns.payload_digest->0).len() != 32 {
        Err(CoordinatorRollbackArchiveStoreError::InvalidDigestLength)
    } else if columns.payload_digest->0 != fragment_digest_of(index, columns.payload->0)@ {
        Err(CoordinatorRollbackArchiveStoreError::FragmentDigestMismatch)
    } else if columns.count is None || columns.row_bytes is None || columns.row_digest is None {
        Err(CoordinatorRollbackArchiveStoreError::MissingArchiveColumn)
    } else if (columns.row_digest->0).len() != 32 {
        Err(CoordinatorRollbackArchiveStoreError::InvalidDigestLength)
    } else {
        Ok(
            CoordinatorRollbackArchiveFragment {
                index,
                count: columns.count->0,
                row_bytes: columns.row_bytes->0,
                payload: columns.payload->0,
                payload_digest: fragment_digest_of(index, columns.payload->0),
                row_digest: CoordinatorRollbackArchiveRowDigest(
                    bytes::array_of::<32>(columns.row_digest->0),
                ),
            },
        )
    }
}

fn array_32(bytes: &[u8]) -> (result: Result<[u8; 32], CoordinatorRollbackArchiveStoreError>)
    ensures
        match result {
            Ok(array) => bytes@.len() == 32 && array@ == bytes@ && array == bytes::array_of::<32>(
                bytes@,
            ),
            Err(error) => bytes@.len() != 32 && error
                == CoordinatorRollbackArchiveStoreError::InvalidDigestLength,
        },
{
    if bytes.len() == 32 {
        Ok(bytes::array_from::<32>(bytes))
    } else {
        Err(CoordinatorRollbackArchiveStoreError::InvalidDigestLength)
    }
}

/// Reads one stored fragment. Its payload has to match its own digest.
pub fn decode_fragment(index: i32, columns: StoredFragmentColumns<Vec<u8>>) -> (result: Result<
    Fragment,
    CoordinatorRollbackArchiveStoreError,
>)
    ensures
        match result {
            Ok(fragment) => stored_fragment(index, columns@) == Ok::<
                FragmentModel,
                CoordinatorRollbackArchiveStoreError,
            >(fragment@),
            Err(error) => stored_fragment(index, columns@) == Err::<FragmentModel, _>(error),
        },
{
    if columns.revision != Some(ARCHIVE_REVISION) {
        return Err(CoordinatorRollbackArchiveStoreError::InvalidArchiveRevision);
    }
    let payload = columns.payload.ok_or(
        CoordinatorRollbackArchiveStoreError::MissingArchiveColumn,
    )?;
    let stored_digest = columns.payload_digest.ok_or(
        CoordinatorRollbackArchiveStoreError::MissingArchiveColumn,
    )?;
    let payload_digest = array_32(&stored_digest)?;
    let expected_digest = fragment_digest(index, &payload);
    if !array_equal::<32>(&payload_digest, &expected_digest) {
        proof {
            if payload_digest@ == expected_digest@ {
                bytes::lemma_array_eq::<32>(payload_digest, expected_digest);
            }
        }
        return Err(CoordinatorRollbackArchiveStoreError::FragmentDigestMismatch);
    }
    let count: i32 = columns.count.ok_or(
        CoordinatorRollbackArchiveStoreError::MissingArchiveColumn,
    )?;
    let row_bytes: i64 = columns.row_bytes.ok_or(
        CoordinatorRollbackArchiveStoreError::MissingArchiveColumn,
    )?;
    let stored_row_digest = columns.row_digest.ok_or(
        CoordinatorRollbackArchiveStoreError::MissingArchiveColumn,
    )?;
    let row_digest = CoordinatorRollbackArchiveRowDigest(array_32(&stored_row_digest)?);
    Ok(
        CoordinatorRollbackArchiveFragment {
            index,
            count,
            row_bytes,
            payload,
            payload_digest,
            row_digest,
        },
    )
}

/// `fragment` put before the first fragment whose index is not smaller.
pub open spec fn placed(fragment: FragmentModel, sorted: Seq<FragmentModel>) -> Seq<FragmentModel>
    decreases sorted.len(),
{
    if sorted.len() == 0 {
        seq![fragment]
    } else if sorted[0].index >= fragment.index {
        seq![fragment] + sorted
    } else {
        seq![sorted[0]] + placed(fragment, sorted.drop_first())
    }
}

/// The fragments in index order, those of one index in the order they came.
pub open spec fn in_index_order(fragments: Seq<FragmentModel>) -> Seq<FragmentModel>
    decreases fragments.len(),
{
    if fragments.len() == 0 {
        Seq::empty()
    } else {
        placed(fragments[0], in_index_order(fragments.drop_first()))
    }
}

proof fn lemma_placed_at(fragment: FragmentModel, sorted: Seq<FragmentModel>, k: int)
    requires
        0 <= k <= sorted.len(),
        forall|i: int| 0 <= i < k ==> (#[trigger] sorted[i]).index < fragment.index,
        k < sorted.len() ==> sorted[k].index >= fragment.index,
    ensures
        placed(fragment, sorted) == sorted.insert(k, fragment),
    decreases sorted.len(),
{
    if sorted.len() == 0 {
        assert(seq![fragment] =~= sorted.insert(k, fragment));
    } else if sorted[0].index >= fragment.index {
        assert(k == 0);
        assert(seq![fragment] + sorted =~= sorted.insert(0, fragment));
    } else {
        let rest = sorted.drop_first();
        assert(k > 0);
        assert forall|i: int| 0 <= i < k - 1 implies (#[trigger] rest[i]).index
            < fragment.index by {
            assert(rest[i] == sorted[i + 1]);
        }
        lemma_placed_at(fragment, rest, k - 1);
        assert(seq![sorted[0]] + rest.insert(k - 1, fragment) =~= sorted.insert(k, fragment));
    }
}

fn sort_by_index(fragments: Vec<Fragment>) -> (sorted: Vec<Fragment>)
    ensures
        fragment_models(sorted@) == in_index_order(fragment_models(fragments@)),
{
    let ghost all = fragment_models(fragments@);
    let mut unsorted = fragments;
    let mut sorted: Vec<Fragment> = Vec::new();
    proof {
        assert(all.skip(all.len() as int) =~= Seq::empty());
        assert(fragment_models(sorted@) =~= Seq::empty());
    }
    while unsorted.len() > 0
        invariant
            unsorted@.len() <= all.len(),
            fragment_models(unsorted@) == all.take(unsorted@.len() as int),
            fragment_models(sorted@) == in_index_order(all.skip(unsorted@.len() as int)),
        decreases unsorted@.len(),
    {
        let ghost before = fragment_models(unsorted@);
        let ghost n = unsorted@.len();
        let ghost models = fragment_models(sorted@);
        let fragment = match unsorted.pop() {
            Some(fragment) => fragment,
            None => return sorted,
        };
        let mut k: usize = 0;
        while k < sorted.len() && sorted[k].index < fragment.index
            invariant
                k <= sorted@.len(),
                models == fragment_models(sorted@),
                forall|i: int| 0 <= i < k ==> (#[trigger] models[i]).index < fragment.index,
            decreases sorted@.len() - k,
        {
            k += 1;
        }
        proof {
            lemma_placed_at(fragment@, models, k as int);
            let rest = all.skip(n - 1);
            assert(before[n - 1] == fragment@);
            assert(all[n - 1] == before[n - 1]);
            assert(rest[0] == fragment@);
            assert(rest.drop_first() =~= all.skip(n as int));
            assert(fragment_models(unsorted@) =~= all.take(n - 1));
        }
        let ghost placed_fragment = fragment@;
        sorted.insert(k, fragment);
        assert(fragment_models(sorted@) =~= models.insert(k as int, placed_fragment));
    }
    assert(all.skip(0) =~= all);
    sorted
}

/// The payloads of a list of fragments, one after the other.
pub open spec fn payloads(fragments: Seq<FragmentModel>) -> Seq<u8>
    decreases fragments.len(),
{
    if fragments.len() == 0 {
        Seq::empty()
    } else {
        payloads(fragments.drop_last()) + fragments.last().payload
    }
}

/// The fragment stands at its index, agrees with the first fragment on what they
/// are pieces of, and holds a non-empty payload that matches its digest.
pub open spec fn consistent_fragment(
    fragment: FragmentModel,
    position: int,
    first: FragmentModel,
) -> bool {
    &&& fragment.index == position
    &&& fragment.count == first.count
    &&& fragment.row_bytes == first.row_bytes
    &&& fragment.row_digest == first.row_digest
    &&& 0 < fragment.payload.len() <= MAX_FRAGMENT_BYTES
    &&& fragment.payload_digest == fragment_digest_of(fragment.index, fragment.payload)
}

/// The row that fragments in index order make up, or what is wrong with them.
pub open spec fn joined(fragments: Seq<FragmentModel>) -> Result<
    Seq<u8>,
    CoordinatorRollbackArchiveStoreError,
> {
    let first = fragments[0];
    let row = payloads(fragments);
    if fragments.len() == 0 {
        Err(CoordinatorRollbackArchiveStoreError::MissingAfterPersist)
    } else if first.count != fragments.len() || first.count > MAX_FRAGMENTS || first.row_bytes
        > MAX_CANONICAL_ROW_BYTES || first.row_bytes < 0 || !(forall|i: int|
        0 <= i < fragments.len() ==> consistent_fragment(#[trigger] fragments[i], i, first))
        || row.len() != first.row_bytes {
        Err(CoordinatorRollbackArchiveStoreError::InvalidFragmentSet)
    } else if row.len() < 32 || row.subrange(row.len() - 32, row.len() as int)
        != first.row_digest.0@ {
        Err(CoordinatorRollbackArchiveStoreError::RowDigestMismatch)
    } else {
        Ok(row)
    }
}

/// Puts the fragments of one row together, in whatever order they come.
pub fn reconstruct_fragments(fragments: Vec<Fragment>) -> (result: Result<
    Vec<u8>,
    CoordinatorRollbackArchiveStoreError,
>)
    ensures
        match result {
            Ok(row) => joined(in_index_order(fragment_models(fragments@))) == Ok::<
                Seq<u8>,
                CoordinatorRollbackArchiveStoreError,
            >(row@),
            Err(error) => joined(in_index_order(fragment_models(fragments@))) == Err::<Seq<u8>, _>(
                error,
            ),
        },
{
    let sorted = sort_by_index(fragments);
    let ghost models = fragment_models(sorted@);
    if sorted.len() == 0 {
        return Err(CoordinatorRollbackArchiveStoreError::MissingAfterPersist);
    }
    let first = &sorted[0];
    assert(models[0] == first@);
    if first.count < 0 || first.row_bytes < 0 {
        return Err(CoordinatorRollbackArchiveStoreError::InvalidFragmentSet);
    }
    if first.count == 0 || first.count as usize > MAX_FRAGMENTS || first.count as usize
        != sorted.len() || first.row_bytes > MAX_CANONICAL_ROW_BYTES as i64 {
        return Err(CoordinatorRollbackArchiveStoreError::InvalidFragmentSet);
    }
    let expected_bytes: usize = first.row_bytes as usize;
    let mut row: Vec<u8> = Vec::new();
    let mut i: usize = 0;
    assert(models.take(0) =~= Seq::empty());
    while i < sorted.len()
        invariant
            i <= sorted@.len(),
            sorted@.len() <= MAX_FRAGMENTS,
            models == fragment_models(sorted@),
            models == in_index_order(fragment_models(fragments@)),
            models.len() > 0,
            models[0] == first@,
            row@ == payloads(models.take(i as int)),
            forall|k: int|
                0 <= k < i ==> consistent_fragment(#[trigger] models[k], k, models[0]),
        decreases sorted@.len() - i,
    {
        let fragment = &sorted[i];
        assert(models[i as int] == fragment@);
        let expected_digest = fragment_digest(fragment.index, &fragment.payload);
        if fragment.index != i as i32 || fragment.count != first.count || fragment.row_bytes
            != first.row_bytes || !array_equal::<32>(&fragment.row_digest.0, &first.row_digest.0)
            || fragment.payload.len() == 0 || fragment.payload.len() > MAX_FRAGMENT_BYTES
            || !array_equal::<32>(&fragment.payload_digest, &expected_digest) {
            assert(!consistent_fragment(models[i as int], i as int, models[0]));
            return Err(CoordinatorRollbackArchiveStoreError::InvalidFragmentSet);
        }
        push_bytes(&mut row, &fragment.payload);
        proof {
            let next = models.take(i + 1);
            assert(next.drop_last() =~= models.take(i as int));
            assert(next.last() == fragment@);
        }
        i += 1;
    }
    assert(models.take(i as int) =~= models);
    if row.len() != expected_bytes {
        return Err(CoordinatorRollbackArchiveStoreError::InvalidFragmentSet);
    }
    if row.len() < 32 {
        return Err(CoordinatorRollbackArchiveStoreError::RowDigestMismatch);
    }
    let tail = vstd::slice::slice_subrange(row.as_slice(), row.len() - 32, row.len());
    if !bytes_equal(tail, &first.row_digest.0) {
        return Err(CoordinatorRollbackArchiveStoreError::RowDigestMismatch);
    }
    Ok(row)
}

proof fn lemma_ordered_stays(fragments: Seq<FragmentModel>)
    requires
        forall|i: int, j: int|
            0 <= i < j < fragments.len() ==> (#[trigger] fragments[i]).index < (
            #[trigger] fragments[j]).index,
    ensures
        in_index_order(fragments) == fragments,
    decreases fragments.len(),
{
    if fragments.len() > 0 {
        let rest = fragments.drop_first();
        assert forall|i: int, j: int| 0 <= i < j < rest.len() implies (#[trigger] rest[i]).index < (
        #[trigger] rest[j]).index by {
            assert(rest[i] == fragments[i + 1]);
            assert(rest[j] == fragments[j + 1]);
        }
        lemma_ordered_stays(rest);
        if rest.len() > 0 {
            assert(rest[0] == fragments[1]);
        }
        assert(seq![fragments[0]] + rest =~= fragments);
    } else {
        assert(fragments =~= Seq::empty());
    }
}

proof fn lemma_payloads_of_fragments(
    row: Seq<u8>,
    row_digest: CoordinatorRollbackArchiveRowDigest,
    i: int,
)
    requires
        0 <= i <= fragment_count(row.len()),
    ensures
        payloads(fragments_of(row, row_digest).take(i)) == row.take(
            if i * MAX_FRAGMENT_BYTES < row.len() {
                i * MAX_FRAGMENT_BYTES
            } else {
                row.len() as int
            },
        ),
    decreases i,
{
    let all = fragments_of(row, row_digest);
    if i == 0 {
        assert(all.take(0) =~= Seq::empty());
        assert(row.take(0) =~= Seq::empty());
    } else {
        lemma_payloads_of_fragments(row, row_digest, i - 1);
        let next = all.take(i);
        assert(next.drop_last() =~= all.take(i - 1));
        assert(next.last() == fragment_at(row, row_digest, i - 1));
        let start = (i - 1) * MAX_FRAGMENT_BYTES;
        let end = if start + MAX_FRAGMENT_BYTES < row.len() {
            start + MAX_FRAGMENT_BYTES
        } else {
            row.len() as int
        };
        assert(start < row.len());
        assert(row.take(start) + row.subrange(start, end) =~= row.take(end));
    }
}

/// A row that fits, put together from its own fragments, is the row.
#[verifier::spinoff_prover]
#[verifier::rlimit(40)]
pub proof fn law_fragments_reconstruct_the_row(
    row: Seq<u8>,
    row_digest: CoordinatorRollbackArchiveRowDigest,
)
    requires
        32 <= row.len() <= MAX_CANONICAL_ROW_BYTES,
        row.subrange(row.len() - 32, row.len() as int) == row_digest.0@,
    ensures
        fits_fragments(row.len()),
        joined(in_index_order(fragments_of(row, row_digest))) == Ok::<
            Seq<u8>,
            CoordinatorRollbackArchiveStoreError,
        >(row),
{
    let all = fragments_of(row, row_digest);
    assert forall|i: int, j: int| 0 <= i < j < all.len() implies (#[trigger] all[i]).index < (
    #[trigger] all[j]).index by {
        assert(all[i].index == i);
        assert(all[j].index == j);
    }
    lemma_ordered_stays(all);
    lemma_payloads_of_fragments(row, row_digest, all.len() as int);
    assert(all.take(all.len() as int) =~= all);
    assert(row.take(row.len() as int) =~= row);
    assert forall|i: int| 0 <= i < all.len() implies consistent_fragment(
        #[trigger] all[i],
        i,
        all[0],
    ) by {
        assert(all[i] == fragment_at(row, row_digest, i));
        assert(all[0] == fragment_at(row, row_digest, 0));
    }
}

proof fn lemma_placed_keeps_order(fragment: FragmentModel, sorted: Seq<FragmentModel>)
    requires
        ascending(sorted),
    ensures
        ascending(placed(fragment, sorted)),
        placed(fragment, sorted).to_multiset() == sorted.to_multiset().insert(fragment),
        placed(fragment, sorted).len() == sorted.len() + 1,
{
    let k = lemma_place(fragment, sorted);
    lemma_placed_at(fragment, sorted, k);
    let next = sorted.insert(k, fragment);
    vstd::seq_lib::to_multiset_insert(sorted, k, fragment);
    assert forall|i: int, j: int| 0 <= i < j < next.len() implies (#[trigger] next[i]).index <= (
    #[trigger] next[j]).index by {
        if i < k && j == k {
            assert(sorted[i].index < fragment.index);
        } else if i == k && j > k {
            assert(sorted[k].index <= sorted[j - 1].index);
        }
    }
}

/// Where a fragment is put.
proof fn lemma_place(fragment: FragmentModel, sorted: Seq<FragmentModel>) -> (k: int)
    ensures
        0 <= k <= sorted.len(),
        forall|i: int| 0 <= i < k ==> (#[trigger] sorted[i]).index < fragment.index,
        k < sorted.len() ==> sorted[k].index >= fragment.index,
    decreases sorted.len(),
{
    if sorted.len() == 0 || sorted[0].index >= fragment.index {
        0
    } else {
        let rest = sorted.drop_first();
        let k = lemma_place(fragment, rest);
        assert forall|i: int| 0 <= i < k + 1 implies (#[trigger] sorted[i]).index
            < fragment.index by {
            if i > 0 {
                assert(rest[i - 1] == sorted[i]);
            }
        }
        k + 1
    }
}

/// The indexes never fall.
pub open spec fn ascending(fragments: Seq<FragmentModel>) -> bool {
    forall|i: int, j: int|
        0 <= i < j < fragments.len() ==> (#[trigger] fragments[i]).index <= (
        #[trigger] fragments[j]).index
}

/// Putting fragments in order loses none and adds none.
proof fn lemma_order_is_a_permutation(fragments: Seq<FragmentModel>)
    ensures
        ascending(in_index_order(fragments)),
        in_index_order(fragments).to_multiset() == fragments.to_multiset(),
        in_index_order(fragments).len() == fragments.len(),
    decreases fragments.len(),
{
    if fragments.len() > 0 {
        let rest = fragments.drop_first();
        lemma_order_is_a_permutation(rest);
        lemma_placed_keeps_order(fragments[0], in_index_order(rest));
        assert(fragments =~= rest.insert(0, fragments[0]));
        vstd::seq_lib::to_multiset_insert(rest, 0, fragments[0]);
    } else {
        assert(fragments =~= Seq::empty());
    }
}

/// Fragments that stand each at its own index are in the one order there is of them.
proof fn lemma_order_is_unique(ordered: Seq<FragmentModel>, sorted: Seq<FragmentModel>)
    requires
        forall|i: int| 0 <= i < ordered.len() ==> (#[trigger] ordered[i]).index == i,
        ascending(sorted),
        sorted.to_multiset() == ordered.to_multiset(),
    ensures
        sorted == ordered,
{
    broadcast use vstd::seq_lib::group_to_multiset_ensures;

    vstd::seq_lib::to_multiset_len(sorted);
    vstd::seq_lib::to_multiset_len(ordered);
    assert(ordered.no_duplicates());
    ordered.lemma_multiset_has_no_duplicates();
    sorted.lemma_multiset_has_no_duplicates_conv();
    assert forall|i: int| 0 <= i < sorted.len() implies 0 <= (#[trigger] sorted[i]).index
        < ordered.len() && ordered[sorted[i].index as int] == sorted[i] by {
        assert(sorted.contains(sorted[i]));
        assert(sorted.to_multiset().count(sorted[i]) > 0);
        assert(ordered.contains(sorted[i]));
        let k = choose|k: int| 0 <= k < ordered.len() && ordered[k] == sorted[i];
        assert(ordered[k].index == k);
    }
    assert forall|i: int, j: int| 0 <= i < j < sorted.len() implies (#[trigger] sorted[i]).index < (
    #[trigger] sorted[j]).index by {
        if sorted[i].index == sorted[j].index {
            assert(sorted[i] == sorted[j]);
        }
    }
    lemma_indexes_count_up(sorted, sorted.len() as int);
    lemma_indexes_count_down(sorted, 0, ordered.len() as int);
    assert forall|i: int| 0 <= i < sorted.len() implies sorted[i] == ordered[i] by {
        assert(sorted[i].index == i);
    }
    assert(sorted =~= ordered);
}

proof fn lemma_indexes_count_up(sorted: Seq<FragmentModel>, n: int)
    requires
        0 <= n <= sorted.len(),
        forall|i: int| 0 <= i < sorted.len() ==> 0 <= (#[trigger] sorted[i]).index,
        forall|i: int, j: int|
            0 <= i < j < sorted.len() ==> (#[trigger] sorted[i]).index < (
            #[trigger] sorted[j]).index,
    ensures
        forall|i: int| 0 <= i < n ==> i <= (#[trigger] sorted[i]).index,
    decreases n,
{
    if n > 0 {
        lemma_indexes_count_up(sorted, n - 1);
        if n > 1 {
            assert(sorted[n - 2].index < sorted[n - 1].index);
        }
    }
}

proof fn lemma_indexes_count_down(sorted: Seq<FragmentModel>, from: int, bound: int)
    requires
        0 <= from <= sorted.len(),
        bound == sorted.len(),
        forall|i: int| 0 <= i < sorted.len() ==> (#[trigger] sorted[i]).index < bound,
        forall|i: int, j: int|
            0 <= i < j < sorted.len() ==> (#[trigger] sorted[i]).index < (
            #[trigger] sorted[j]).index,
    ensures
        forall|i: int| from <= i < sorted.len() ==> (#[trigger] sorted[i]).index <= i,
    decreases sorted.len() - from,
{
    if from < sorted.len() {
        lemma_indexes_count_down(sorted, from + 1, bound);
        if from + 1 < sorted.len() {
            assert(sorted[from].index < sorted[from + 1].index);
        }
    }
}

/// Fragments of one row, in whatever order they come, make up the row if each of them is
/// there exactly once. Where one is missing, or one is there twice, they are refused.
#[verifier::spinoff_prover]
#[verifier::rlimit(40)]
pub proof fn law_fragments_in_any_order_reconstruct_the_row(
    row: Seq<u8>,
    row_digest: CoordinatorRollbackArchiveRowDigest,
    found: Seq<FragmentModel>,
)
    requires
        32 <= row.len() <= MAX_CANONICAL_ROW_BYTES,
        row.subrange(row.len() - 32, row.len() as int) == row_digest.0@,
        forall|i: int|
            0 <= i < found.len() ==> fragments_of(row, row_digest).contains(#[trigger] found[i]),
    ensures
        joined(in_index_order(found)) == (if found.len() == 0 {
            Err::<Seq<u8>, _>(CoordinatorRollbackArchiveStoreError::MissingAfterPersist)
        } else if found.to_multiset() == fragments_of(row, row_digest).to_multiset() {
            Ok(row)
        } else {
            Err(CoordinatorRollbackArchiveStoreError::InvalidFragmentSet)
        }),
{
    broadcast use vstd::seq_lib::group_to_multiset_ensures;

    let all = fragments_of(row, row_digest);
    let sorted = in_index_order(found);
    law_fragments_reconstruct_the_row(row, row_digest);
    lemma_order_is_a_permutation(found);
    lemma_order_is_a_permutation(all);
    assert forall|i: int| 0 <= i < all.len() implies (#[trigger] all[i]).index == i by {}
    lemma_order_is_unique(all, in_index_order(all));
    if found.to_multiset() == all.to_multiset() {
        lemma_order_is_unique(all, sorted);
    } else if found.len() > 0 {
        assert forall|i: int| 0 <= i < sorted.len() implies all.contains(#[trigger] sorted[i]) by {
            assert(sorted.contains(sorted[i]));
            assert(found.to_multiset().count(sorted[i]) > 0);
            assert(found.contains(sorted[i]));
        }
        assert(all.contains(sorted[0]));
        assert(sorted[0].count == all.len());
        if sorted.len() == all.len() {
            if forall|i: int|
                0 <= i < sorted.len() ==> consistent_fragment(#[trigger] sorted[i], i, sorted[0]) {
                assert forall|i: int| 0 <= i < sorted.len() implies sorted[i] == all[i] by {
                    assert(consistent_fragment(sorted[i], i, sorted[0]));
                    let k = choose|k: int| 0 <= k < all.len() && all[k] == sorted[i];
                    assert(all[k].index == k);
                }
                assert(sorted =~= all);
            }
        }
    }
}

/// A list with a fragment whose payload is not the one that its digest seals is refused,
/// whatever else is in it.
pub proof fn law_altered_fragment_is_refused(found: Seq<FragmentModel>, at: int)
    requires
        0 <= at < found.len(),
        found[at].payload_digest != fragment_digest_of(found[at].index, found[at].payload),
    ensures
        joined(in_index_order(found)) == Err::<Seq<u8>, _>(
            CoordinatorRollbackArchiveStoreError::InvalidFragmentSet,
        ),
{
    broadcast use vstd::seq_lib::group_to_multiset_ensures;

    let sorted = in_index_order(found);
    lemma_order_is_a_permutation(found);
    assert(found.contains(found[at]));
    assert(sorted.to_multiset().count(found[at]) > 0);
    assert(sorted.contains(found[at]));
    let k = choose|k: int| 0 <= k < sorted.len() && sorted[k] == found[at];
    assert(!consistent_fragment(sorted[k], k, sorted[0]));
}

/// An archived row survives being cut into fragments and put together again.
#[verifier::spinoff_prover]
#[verifier::rlimit(40)]
pub proof fn law_kiv_row_survives_fragmentation(header: CheckpointKivRowHeader, value: Seq<u8>)
    requires
        kiv_row(header, value).canonical_bytes.len() <= MAX_CANONICAL_ROW_BYTES,
    ensures
        ({
            let row = kiv_row(header, value);
            joined(in_index_order(fragments_of(row.canonical_bytes, row.digest))) == Ok::<
                Seq<u8>,
                CoordinatorRollbackArchiveStoreError,
            >(row.canonical_bytes)
        }),
{
    let row = kiv_row(header, value);
    let body = row_body(header, value, header_slot(header));
    assert(row.canonical_bytes.subrange(
        row.canonical_bytes.len() - 32,
        row.canonical_bytes.len() as int,
    ) =~= row.digest.0@);
    law_fragments_reconstruct_the_row(row.canonical_bytes, row.digest);
}

pub const COORDINATOR_ROLLBACK_SUFFIX_ARCHIVE_TABLE: &'static str = "coordinator_rollback_suffix_archive_v1";

impl CoordinatorCheckpointPartitionKivSource {
    pub open spec fn spec_name(self) -> Seq<char> {
        match self {
            CoordinatorCheckpointPartitionKivSource::CheckpointLeaf => "CheckpointLeaf"@,
            CoordinatorCheckpointPartitionKivSource::L2BlockState => "L2BlockState"@,
            CoordinatorCheckpointPartitionKivSource::CheckpointStateRoots => "CheckpointStateRoots"@,
            CoordinatorCheckpointPartitionKivSource::CheckpointZkProof => "CheckpointZkProof"@,
        }
    }

    pub fn name(self) -> (name: &'static str)
        ensures
            name@ == self.spec_name(),
    {
        match self {
            CoordinatorCheckpointPartitionKivSource::CheckpointLeaf => "CheckpointLeaf",
            CoordinatorCheckpointPartitionKivSource::L2BlockState => "L2BlockState",
            CoordinatorCheckpointPartitionKivSource::CheckpointStateRoots => "CheckpointStateRoots",
            CoordinatorCheckpointPartitionKivSource::CheckpointZkProof => "CheckpointZkProof",
        }
    }
}

/// The sources in the order in which they are scanned.
pub open spec fn spec_all_sources() -> Seq<CoordinatorCheckpointPartitionKivSource> {
    seq![
        CoordinatorCheckpointPartitionKivSource::CheckpointLeaf,
        CoordinatorCheckpointPartitionKivSource::L2BlockState,
        CoordinatorCheckpointPartitionKivSource::CheckpointStateRoots,
        CoordinatorCheckpointPartitionKivSource::CheckpointZkProof,
    ]
}

pub fn all_sources() -> (sources: [CoordinatorCheckpointPartitionKivSource; 4])
    ensures
        sources@ == spec_all_sources(),
{
    let sources = [
        CoordinatorCheckpointPartitionKivSource::CheckpointLeaf,
        CoordinatorCheckpointPartitionKivSource::L2BlockState,
        CoordinatorCheckpointPartitionKivSource::CheckpointStateRoots,
        CoordinatorCheckpointPartitionKivSource::CheckpointZkProof,
    ];
    assert(sources@ =~= spec_all_sources());
    sources
}

/// The CQL of the archive table and of the source reads. No statement updates or
/// deletes, and the only write is a conditional insert.
#[derive(Debug, PartialEq, Eq)]
pub struct CoordinatorRollbackArchiveQueries {
    pub create: String,
    pub insert: String,
    pub read_row: String,
    pub read_fragment: String,
    pub read_checkpoint_kiv: Vec<(CoordinatorCheckpointPartitionKivSource, String)>,
}

pub open spec fn create_cql(table: Seq<char>) -> Seq<char> {
    "CREATE TABLE IF NOT EXISTS "@ + table
        + " (network_chain_id bigint, chain_epoch bigint, participant_plan_digest blob, key_domain smallint, row_slot blob, fragment_index int, revision bigint, fragment_count int, row_bytes bigint, fragment_payload blob, fragment_digest blob, row_digest blob, PRIMARY KEY ((network_chain_id, chain_epoch, participant_plan_digest, key_domain, row_slot), fragment_index)) WITH CLUSTERING ORDER BY (fragment_index ASC)"@
}

pub open spec fn insert_cql(table: Seq<char>) -> Seq<char> {
    "INSERT INTO "@ + table
        + " (network_chain_id, chain_epoch, participant_plan_digest, key_domain, row_slot, fragment_index, revision, fragment_count, row_bytes, fragment_payload, fragment_digest, row_digest) VALUES (?, ?, ?, ?, ?, ?, ?, ?, ?, ?, ?, ?) IF NOT EXISTS"@
}

pub open spec fn read_row_cql(table: Seq<char>) -> Seq<char> {
    "SELECT fragment_index, revision, fragment_count, row_bytes, fragment_payload, fragment_digest, row_digest FROM "@
        + table
        + " WHERE network_chain_id = ? AND chain_epoch = ? AND participant_plan_digest = ? AND key_domain = ? AND row_slot = ?"@
}

pub open spec fn read_fragment_cql(table: Seq<char>) -> Seq<char> {
    "SELECT revision, fragment_count, row_bytes, fragment_payload, fragment_digest, row_digest FROM "@
        + table
        + " WHERE network_chain_id = ? AND chain_epoch = ? AND participant_plan_digest = ? AND key_domain = ? AND row_slot = ? AND fragment_index = ?"@
}

pub open spec fn read_source_cql(table: Seq<char>) -> Seq<char> {
    "SELECT value, WRITETIME(value) FROM "@ + table + " WHERE obj_id = ?"@
}

pub fn insert_query(table: &str) -> (cql: String)
    ensures
        cql@ == insert_cql(table@),
{
    concat3(
        "INSERT INTO ",
        table,
        " (network_chain_id, chain_epoch, participant_plan_digest, key_domain, row_slot, fragment_index, revision, fragment_count, row_bytes, fragment_payload, fragment_digest, row_digest) VALUES (?, ?, ?, ?, ?, ?, ?, ?, ?, ?, ?, ?) IF NOT EXISTS",
    )
}

pub fn read_row_query(table: &str) -> (cql: String)
    ensures
        cql@ == read_row_cql(table@),
{
    concat3(
        "SELECT fragment_index, revision, fragment_count, row_bytes, fragment_payload, fragment_digest, row_digest FROM ",
        table,
        " WHERE network_chain_id = ? AND chain_epoch = ? AND participant_plan_digest = ? AND key_domain = ? AND row_slot = ?",
    )
}

pub fn read_source_query(table: &str) -> (cql: String)
    ensures
        cql@ == read_source_cql(table@),
{
    concat3("SELECT value, WRITETIME(value) FROM ", table, " WHERE obj_id = ?")
}

/// A read statement is that of its source, by the physical name in the registry.
pub open spec fn source_read_matches(
    read: (CoordinatorCheckpointPartitionKivSource, String),
    source: CoordinatorCheckpointPartitionKivSource,
    keyspace: Seq<char>,
    registry: &Registry,
) -> bool {
    match registry.table(source.spec_physical_table()) {
        Some(table) => read.0 == source && read.1@ == read_source_cql(
            text::qualified(keyspace, table.physical_name@),
        ),
        None => false,
    }
}

/// There is one read statement for each source, in order.
pub open spec fn source_reads_match(
    reads: Seq<(CoordinatorCheckpointPartitionKivSource, String)>,
    sources: Seq<CoordinatorCheckpointPartitionKivSource>,
    keyspace: Seq<char>,
    registry: &Registry,
) -> bool {
    &&& reads.len() == sources.len()
    &&& forall|i: int|
        0 <= i < reads.len() ==> source_read_matches(
            #[trigger] reads[i],
            sources[i],
            keyspace,
            registry,
        )
}

/// The part of the golden text that shows the source reads.
pub open spec fn source_reads_golden(
    reads: Seq<(CoordinatorCheckpointPartitionKivSource, String)>,
) -> Seq<char>
    decreases reads.len(),
{
    if reads.len() == 0 {
        Seq::empty()
    } else {
        source_reads_golden(reads.drop_last()) + "\nread_checkpoint_kiv_"@
            + reads.last().0.spec_name() + "\n"@ + reads.last().1@ + "\n"@
    }
}

impl CoordinatorRollbackArchiveQueries {
    /// All statements in one text.
    pub open spec fn spec_golden(&self) -> Seq<char> {
        "create\n"@ + self.create@ + "\n\ninsert\n"@ + self.insert@ + "\n\nread_row\n"@
            + self.read_row@ + "\n\nread_fragment\n"@ + self.read_fragment@ + "\n"@
            + source_reads_golden(self.read_checkpoint_kiv@)
    }

    /// The statements for an archive and a source keyspace. There are none if a
    /// source table is not registered.
    pub fn new(archive: &CqlKeyspaceName, source: &CqlKeyspaceName, registry: &Registry) -> (result:
        Option<Self>)
        ensures
            match result {
                Some(queries) => {
                    let table = text::qualified(
                        archive@,
                        COORDINATOR_ROLLBACK_SUFFIX_ARCHIVE_TABLE@,
                    );
                    &&& queries.create@ == create_cql(table)
                    &&& queries.insert@ == insert_cql(table)
                    &&& queries.read_row@ == read_row_cql(table)
                    &&& queries.read_fragment@ == read_fragment_cql(table)
                    &&& source_reads_match(
                        queries.read_checkpoint_kiv@,
                        spec_all_sources(),
                        source@,
                        registry,
                    )
                },
                None => exists|i: int|
                    0 <= i < spec_all_sources().len() && registry.table(
                        (#[trigger] spec_all_sources()[i]).spec_physical_table(),
                    ) is None,
            },
    {
        let sources = all_sources();
        let mut reads: Vec<(CoordinatorCheckpointPartitionKivSource, String)> = Vec::new();
        let mut i: usize = 0;
        while i < 4
            invariant
                i <= 4,
                sources@ == spec_all_sources(),
                reads@.len() == i,
                forall|k: int|
                    0 <= k < i ==> source_read_matches(
                        #[trigger] reads@[k],
                        sources@[k],
                        source@,
                        registry,
                    ),
            decreases 4 - i,
        {
            let kind = sources[i];
            match registry.physical_descriptor(kind.physical_table()) {
                Some(descriptor) => {
                    let name = qualify(source.as_str(), descriptor.physical_name.as_str());
                    reads.push((kind, read_source_query(name.as_str())));
                },
                None => {
                    assert(registry.table(
                        spec_all_sources()[i as int].spec_physical_table(),
                    ) is None);
                    return None;
                },
            }
            i += 1;
        }
        let table = qualify(archive.as_str(), COORDINATOR_ROLLBACK_SUFFIX_ARCHIVE_TABLE);
        Some(
            CoordinatorRollbackArchiveQueries {
                create: concat3(
                    "CREATE TABLE IF NOT EXISTS ",
                    table.as_str(),
                    " (network_chain_id bigint, chain_epoch bigint, participant_plan_digest blob, key_domain smallint, row_slot blob, fragment_index int, revision bigint, fragment_count int, row_bytes bigint, fragment_payload blob, fragment_digest blob, row_digest blob, PRIMARY KEY ((network_chain_id, chain_epoch, participant_plan_digest, key_domain, row_slot), fragment_index)) WITH CLUSTERING ORDER BY (fragment_index ASC)",
                ),
                insert: insert_query(table.as_str()),
                read_row: read_row_query(table.as_str()),
                read_fragment: concat3(
                    "SELECT revision, fragment_count, row_bytes, fragment_payload, fragment_digest, row_digest FROM ",
                    table.as_str(),
                    " WHERE network_chain_id = ? AND chain_epoch = ? AND participant_plan_digest = ? AND key_domain = ? AND row_slot = ? AND fragment_index = ?",
                ),
                read_checkpoint_kiv: reads,
            },
        )
    }

    pub fn golden(&self) -> (golden: String)
        ensures
            golden@ == self.spec_golden(),
    {
        let mut golden: String = "create\n".to_owned();
        append(&mut golden, self.create.as_str());
        append(&mut golden, "\n\ninsert\n");
        append(&mut golden, self.insert.as_str());
        append(&mut golden, "\n\nread_row\n");
        append(&mut golden, self.read_row.as_str());
        append(&mut golden, "\n\nread_fragment\n");
        append(&mut golden, self.read_fragment.as_str());
        append(&mut golden, "\n");
        let ghost front = golden@;
        let ghost reads = self.read_checkpoint_kiv@;
        let mut i: usize = 0;
        assert(reads.take(0) =~= Seq::empty());
        assert(front + source_reads_golden(reads.take(0)) =~= front);
        while i < self.read_checkpoint_kiv.len()
            invariant
                i <= reads.len(),
                reads == self.read_checkpoint_kiv@,
                golden@ == front + source_reads_golden(reads.take(i as int)),
            decreases reads.len() - i,
        {
            append(&mut golden, "\nread_checkpoint_kiv_");
            append(&mut golden, self.read_checkpoint_kiv[i].0.name());
            append(&mut golden, "\n");
            append(&mut golden, self.read_checkpoint_kiv[i].1.as_str());
            append(&mut golden, "\n");
            proof {
                let next = reads.take(i + 1);
                assert(next.drop_last() =~= reads.take(i as int));
                assert(next.last() == reads[i as int]);
                assert(golden@ =~= front + source_reads_golden(next));
            }
            i += 1;
        }
        assert(reads.take(i as int) =~= reads);
        golden
    }
}

/// A keyspace whose name marks it as kept off tablets.
pub open spec fn no_tablet_name(name: Seq<char>) -> bool {
    ends_with(name, "_nt"@) || ends_with(name, "_no_tablet"@)
}

pub open spec fn ends_with(name: Seq<char>, end: Seq<char>) -> bool {
    name.len() >= end.len() && name.subrange(name.len() - end.len(), name.len() as int) == end
}

fn text_ends_with(name: &str, end: &str) -> (yes: bool)
    ensures
        yes == ends_with(name@, end@),
{
    let n: usize = name.unicode_len();
    let m: usize = end.unicode_len();
    if n < m {
        return false;
    }
    let tail = name.substring_char(n - m, n);
    tail.to_owned() == end.to_owned()
}

/// The archive and its sources have to live in tablet keyspaces.
pub fn require_standard_keyspace(keyspace: &CqlKeyspaceName) -> (result: Result<
    (),
    CoordinatorRollbackArchiveStoreError,
>)
    ensures
        result == (if no_tablet_name(keyspace@) {
            Err::<(), _>(CoordinatorRollbackArchiveStoreError::TabletKeyspaceRequired)
        } else {
            Ok(())
        }),
{
    if text_ends_with(keyspace.as_str(), "_nt") || text_ends_with(
        keyspace.as_str(),
        "_no_tablet",
    ) {
        Err(CoordinatorRollbackArchiveStoreError::TabletKeyspaceRequired)
    } else {
        Ok(())
    }
}

/// What a store's fingerprint is the digest of: its keyspaces and its statements.
pub open spec fn store_fingerprint_preimage(
    archive: Seq<char>,
    source: Seq<char>,
    golden: Seq<char>,
) -> Seq<u8> {
    bytes::text("psy/coordinator-rollback-archive-store/v1"@) + bytes::be_len(
        bytes::text(archive).len(),
    ) + bytes::text(archive) + bytes::be_len(bytes::text(source).len()) + bytes::text(source)
        + bytes::be_len(bytes::text(golden).len()) + bytes::text(golden)
}

#[derive(Clone, Copy, Debug, PartialEq, Eq)]
pub struct CoordinatorRollbackArchiveStoreFingerprint(pub [u8; 32]);

/// The fingerprint that ties a receipt to the store that issued it.
pub fn store_fingerprint(
    archive: &CqlKeyspaceName,
    source: &CqlKeyspaceName,
    queries: &CoordinatorRollbackArchiveQueries,
) -> (fingerprint: CoordinatorRollbackArchiveStoreFingerprint)
    ensures
        fingerprint.0 == hash::sha256(
            store_fingerprint_preimage(archive@, source@, queries.spec_golden()),
        ),
{
    let golden = queries.golden();
    let mut preimage: Vec<u8> = text_bytes("psy/coordinator-rollback-archive-store/v1");
    push_counted_text(&mut preimage, archive.as_str());
    push_counted_text(&mut preimage, source.as_str());
    push_counted_text(&mut preimage, golden.as_str());
    assert(preimage@ =~= store_fingerprint_preimage(archive@, source@, queries.spec_golden()));
    CoordinatorRollbackArchiveStoreFingerprint(sha256_digest(&preimage))
}

/// A planned treatment is one of the plan, for the very domain that was asked for; if
/// there is none, the plan does not treat that domain.
pub proof fn law_planned_domain_is_the_domains_own(
    domains: Seq<CoordinatorRollbackArchiveDomainPlan>,
    key_domain: ScyllaKeyDomain,
)
    ensures
        match planned_domain(domains, key_domain) {
            Some(domain) => domains.contains(domain) && domain.key_domain == key_domain,
            None => forall|i: int|
                0 <= i < domains.len() ==> (#[trigger] domains[i]).key_domain != key_domain,
        },
    decreases domains.len(),
{
    if domains.len() > 0 {
        let rest = domains.drop_first();
        law_planned_domain_is_the_domains_own(rest, key_domain);
        if domains[0].key_domain == key_domain {
            assert(domains.contains(domains[0]));
        } else {
            match planned_domain(rest, key_domain) {
                Some(domain) => {
                    let i = choose|i: int| 0 <= i < rest.len() && rest[i] == domain;
                    assert(domains[i + 1] == domain);
                },
                None => {
                    assert forall|i: int| 0 <= i < domains.len() implies (
                    #[trigger] domains[i]).key_domain != key_domain by {
                        if i > 0 {
                            assert(rest[i - 1] == domains[i]);
                        }
                    }
                },
            }
        }
    }
}

/// A source row is admitted only if the plan archives the checkpoint partitions of its
/// own domain on its own table, its checkpoint is in the discarded suffix, and it was
/// written no later than the fence. The archive row then has the chain it was asked for,
/// the digests, the range and the fence of the plan, and the row's own checkpoint, value
/// and write time.
pub proof fn law_admitted_kiv_row_is_of_its_plan(
    network: NetworkId,
    chain_epoch: u64,
    plan: &CoordinatorRollbackArchivePlan,
    registry: &Registry,
    source: CoordinatorCheckpointPartitionKivSource,
    source_checkpoint: u64,
    source_value: Seq<u8>,
    source_writetime_us: i64,
)
    ensures
        admitted_kiv_row(
            network,
            chain_epoch,
            plan,
            registry,
            source,
            source_checkpoint,
            source_value,
            source_writetime_us,
        ) matches Ok(row) ==> {
            let header = row.header;
            &&& header.network == network
            &&& header.chain_epoch == chain_epoch
            &&& header.participant_plan_digest == plan.digest
            &&& header.global_plan_digest == plan.request.plan_digest
            &&& header.requested == plan.request.requested_head
            &&& header.target == plan.request.target
            &&& header.orphan_write_max_us == plan.request.fence.orphan_write_max_us
            &&& header.source_checkpoint == source_checkpoint
            &&& header.source_writetime_us == source_writetime_us
            &&& row.source_value == source_value
            &&& plan.request.target.height < source_checkpoint
                <= plan.request.requested_head.height
            &&& source_writetime_us <= plan.request.fence.orphan_write_max_us
            &&& header.action is ArchiveCheckpointPartitions
            &&& registry.family(header.physical_table) == Some(ScyllaSchemaFamily::Kiv)
            &&& plan.domains@.contains(
                CoordinatorRollbackArchiveDomainPlan {
                    key_domain: header.key_domain,
                    physical_table: header.physical_table,
                    action: header.action,
                },
            )
            &&& match source {
                CoordinatorCheckpointPartitionKivSource::CheckpointLeaf => header.key_domain
                    is CheckpointLeaf && header.physical_table is CheckpointLeaf,
                CoordinatorCheckpointPartitionKivSource::L2BlockState => header.key_domain
                    is L2BlockState && header.physical_table is L2BlockState,
                CoordinatorCheckpointPartitionKivSource::CheckpointStateRoots => header.key_domain
                    is CheckpointStateRoots && header.physical_table is CheckpointStateRoots,
                CoordinatorCheckpointPartitionKivSource::CheckpointZkProof => header.key_domain
                    is CheckpointZkProof && header.physical_table is CheckpointZkProofAndTransition,
            }
        },
{
    law_planned_domain_is_the_domains_own(plan.domains@, source.spec_key_domain());
}

/// A source row of the discarded suffix that the plan archives, written no later than
/// the fence and within the store's limits, is admitted.
pub proof fn law_planned_suffix_row_is_admitted(
    network: NetworkId,
    chain_epoch: u64,
    plan: &CoordinatorRollbackArchivePlan,
    registry: &Registry,
    source: CoordinatorCheckpointPartitionKivSource,
    source_checkpoint: u64,
    source_value: Seq<u8>,
    source_writetime_us: i64,
)
    requires
        planned_domain(plan.domains@, source.spec_key_domain()) == Some(
            CoordinatorRollbackArchiveDomainPlan {
                key_domain: source.spec_key_domain(),
                physical_table: source.spec_physical_table(),
                action: CoordinatorRollbackArchiveAction::ArchiveCheckpointPartitions,
            },
        ),
        registry.family(source.spec_physical_table()) == Some(ScyllaSchemaFamily::Kiv),
        plan.request.target.height < source_checkpoint <= plan.request.requested_head.height,
        source_writetime_us <= plan.request.fence.orphan_write_max_us,
        chain_epoch <= i64::MAX,
        source_checkpoint <= i64::MAX,
        source_value.len() + 267 <= 67_108_864,
    ensures
        admitted_kiv_row(
            network,
            chain_epoch,
            plan,
            registry,
            source,
            source_checkpoint,
            source_value,
            source_writetime_us,
        ) is Ok,
{
    let domain = planned_domain(plan.domains@, source.spec_key_domain())->0;
    let header = kiv_header(
        network,
        chain_epoch,
        plan,
        domain,
        source_checkpoint,
        source_writetime_us,
    );
    lemma_row_front(header, source_value.len());
}

/// Where everything of a row stands in its canonical bytes, what its slot is made of, and
/// that its last bytes are the digest of all before them.
#[verifier::spinoff_prover]
#[verifier::rlimit(40)]
pub proof fn law_kiv_row_layout(header: CheckpointKivRowHeader, value: Seq<u8>)
    requires
        value.len() <= 67_108_864,
    ensures
        ({
            let row = kiv_row(header, value);
            let all = row.canonical_bytes;
            let n = value.len() as int;
            &&& row.header == header
            &&& row.source_value == value
            &&& all.len() == 267 + n
            &&& all.subrange(0, 8) == seq![0x50u8, 0x53, 0x59, 0x43, 0x52, 0x41, 0x52, 0x57]
            &&& bytes::u16_at(all, 8) == 1
            &&& bytes::u32_at(all, 10) == header.network.chain_id
            &&& bytes::u64_at(all, 14) == header.chain_epoch
            &&& all.subrange(22, 54) == header.participant_plan_digest.0@
            &&& all.subrange(54, 86) == header.global_plan_digest@
            &&& bytes::u16_at(all, 86) == header.key_domain.spec_stable_id()
            &&& bytes::u16_at(all, 88) == header.physical_table.spec_stable_id()
            &&& all[90] == header.action.spec_code()
            &&& bytes::u64_at(all, 91) == header.requested.height
            &&& all.subrange(99, 131) == header.requested.hash@
            &&& bytes::u64_at(all, 131) == header.target.height
            &&& all.subrange(139, 171) == header.target.hash@
            &&& bytes::i64_at(all, 171) == header.orphan_write_max_us
            &&& bytes::u64_at(all, 179) == header.source_checkpoint
            &&& bytes::i64_at(all, 187) == header.source_writetime_us
            &&& bytes::u64_at(all, 195) == n
            &&& all.subrange(203, 203 + n) == value
            &&& all.subrange(203 + n, 235 + n) == row.slot.0@
            &&& all.subrange(235 + n, 267 + n) == row.digest.0@
            &&& row.slot.0 == hash::sha256(
                bytes::text("psy/coordinator-rollback-archive-row-slot/v1"@) + bytes::be32(
                    header.network.chain_id,
                ) + bytes::be64(header.chain_epoch) + header.participant_plan_digest.0@
                    + bytes::be16(header.key_domain.spec_stable_id()) + bytes::be64(
                    header.source_checkpoint,
                ),
            )
            &&& row.digest.0 == hash::sha256(
                bytes::text("psy/coordinator-rollback-archive-row/v1"@) + bytes::be64(
                    (235 + n) as u64,
                ) + all.subrange(0, 235 + n),
            )
        }),
{
    let row = kiv_row(header, value);
    let all = row.canonical_bytes;
    let n = value.len() as int;
    let front = row_front(header, value.len());
    lemma_row_front(header, value.len());
    assert(all.subrange(0, 203) =~= front);
    bytes::lemma_read_in_front(front, all);
    assert(all.subrange(0, 8) =~= front.subrange(0, 8));
    assert(all.subrange(0, 8) =~= seq![0x50u8, 0x53, 0x59, 0x43, 0x52, 0x41, 0x52, 0x57]);
    bytes::lemma_be_lens();
    assert(all.subrange(22, 54) =~= header.participant_plan_digest.0@);
    assert(all.subrange(54, 86) =~= header.global_plan_digest@);
    assert(all.subrange(99, 131) =~= header.requested.hash@);
    assert(all.subrange(139, 171) =~= header.target.hash@);
    assert(all.subrange(203, 203 + n) =~= value);
    assert(all.subrange(203 + n, 235 + n) =~= row.slot.0@);
    assert(all.subrange(235 + n, 267 + n) =~= row.digest.0@);
    assert(all.subrange(0, 235 + n) =~= row_body(header, value, row.slot.0));
}

/// What a decoder accepts was archived for the suffix of its rollback: its checkpoint is
/// behind the target and not behind the requested head, it was written no later than the
/// fence, and its domain is registered on its own table.
pub proof fn law_decoded_kiv_row_is_of_the_suffix(
    row: Seq<u8>,
    registry: &Registry,
    network: Result<(), String>,
)
    ensures
        decoded_kiv_row(row, registry, network) matches Ok(model) ==> {
            let header = model.header;
            &&& network is Ok
            &&& header.target.height < header.source_checkpoint <= header.requested.height
            &&& header.source_writetime_us <= header.orphan_write_max_us
            &&& header.chain_epoch <= i64::MAX
            &&& header.action is ArchiveCheckpointPartitions
            &&& registry.table_of_domain(header.key_domain) == Some(header.physical_table)
            &&& registry.family(header.physical_table) == Some(ScyllaSchemaFamily::Kiv)
            &&& !bytes::zero_digest(header.participant_plan_digest.0)
            &&& !bytes::zero_digest(header.global_plan_digest)
            &&& model.canonical_bytes == row
            &&& row.len() == 267 + model.source_value.len()
        },
{
}

/// A fragment holds its own stretch of the row: the stretches are as long as a fragment
/// may be, the last one as long as what is left, and each carries its index, the number of
/// fragments, the row's length and digest, and the digest of its index and payload.
pub proof fn law_fragments_are_stretches_of_the_row(
    row: Seq<u8>,
    row_digest: CoordinatorRollbackArchiveRowDigest,
    i: int,
)
    requires
        32 <= row.len() <= 67_108_864,
        0 <= i < fragments_of(row, row_digest).len(),
    ensures
        ({
            let all = fragments_of(row, row_digest);
            let fragment = all[i];
            &&& 1 <= all.len() <= 16
            &&& fragment.index == i
            &&& fragment.count == all.len()
            &&& fragment.row_bytes == row.len()
            &&& fragment.row_digest == row_digest
            &&& 0 < fragment.payload.len() <= 4_194_304
            &&& i < all.len() - 1 ==> fragment.payload.len() == 4_194_304
            &&& i * 4_194_304 + fragment.payload.len() <= row.len()
            &&& i == all.len() - 1 ==> i * 4_194_304 + fragment.payload.len() == row.len()
            &&& forall|k: int|
                0 <= k < fragment.payload.len() ==> #[trigger] fragment.payload[k] == row[i
                    * 4_194_304 + k]
            &&& fragment.payload_digest == hash::sha256(
                bytes::text("psy/coordinator-rollback-archive-fragment/v1"@) + bytes::be_i32(
                    i as i32,
                ) + bytes::be64(fragment.payload.len() as u64) + fragment.payload,
            )
        }),
{
    let all = fragments_of(row, row_digest);
    assert(all[i] == fragment_at(row, row_digest, i));
}

/// Fragments are put together only if they are all there, in a row of indices from zero,
/// agree on the row that they are stretches of, and each has the digest of its own payload;
/// and the row has the length and ends with the digest that they name.
pub proof fn law_only_whole_rows_are_joined(fragments: Seq<FragmentModel>)
    ensures
        joined(fragments) matches Ok(row) ==> {
            &&& 0 < fragments.len() <= 16
            &&& row == payloads(fragments)
            &&& row.len() >= 32
            &&& forall|i: int|
                0 <= i < fragments.len() ==> {
                    &&& (#[trigger] fragments[i]).index == i
                    &&& fragments[i].count == fragments.len()
                    &&& fragments[i].row_bytes == row.len()
                    &&& fragments[i].row_digest.0@ == row.subrange(
                        row.len() - 32,
                        row.len() as int,
                    )
                    &&& fragments[i].payload_digest == fragment_digest_of(
                        i as i32,
                        fragments[i].payload,
                    )
                }
        },
{
    if let Ok(row) = joined(fragments) {
        assert forall|i: int| 0 <= i < fragments.len() implies consistent_fragment(
            #[trigger] fragments[i],
            i,
            fragments[0],
        ) by {}
    }
}

/// A stored fragment is read exactly if it is of the store's revision, no column is
/// missing, its digests are as long as digests are, and its payload digest is that of its
/// own payload at its own index. What is read is what the columns hold.
pub proof fn law_stored_fragment_is_checked(index: i32, columns: StoredFragmentColumns<Seq<u8>>)
    ensures
        ({
            let read = stored_fragment(index, columns);
            &&& read is Ok <==> {
                &&& columns.revision == Some(ARCHIVE_REVISION)
                &&& columns.count is Some
                &&& columns.row_bytes is Some
                &&& columns.row_digest is Some
                &&& (columns.row_digest->0).len() == 32
                &&& columns.payload is Some
                &&& columns.payload_digest is Some
                &&& columns.payload_digest->0 == hash::sha256(
                    bytes::text("psy/coordinator-rollback-archive-fragment/v1"@) + bytes::be_i32(
                        index,
                    ) + bytes::be_len((columns.payload->0).len()) + columns.payload->0,
                )@
            }
            &&& read matches Ok(fragment) ==> {
                &&& fragment.index == index
                &&& Some(fragment.count) == columns.count
                &&& Some(fragment.row_bytes) == columns.row_bytes
                &&& Some(fragment.payload) == columns.payload
                &&& Some(fragment.payload_digest@) == columns.payload_digest
                &&& Some(fragment.row_digest.0@) == columns.row_digest
            }
        }),
{
    if stored_fragment(index, columns) is Ok {
        bytes::lemma_array_exists(columns.row_digest->0);
    }
}

/// A keyspace is kept off tablets exactly if its name ends with one of the two marks.
pub proof fn law_marked_keyspaces_are_refused(stem: Seq<char>, name: Seq<char>)
    ensures
        no_tablet_name(stem + "_nt"@),
        no_tablet_name(stem + "_no_tablet"@),
        no_tablet_name(name) ==> name == name.subrange(0, name.len() - "_nt"@.len()) + "_nt"@
            || name == name.subrange(0, name.len() - "_no_tablet"@.len()) + "_no_tablet"@,
{
    let (short, long) = (stem + "_nt"@, stem + "_no_tablet"@);
    assert(short.subrange(stem.len() as int, short.len() as int) =~= "_nt"@);
    assert(long.subrange(stem.len() as int, long.len() as int) =~= "_no_tablet"@);
    if no_tablet_name(name) {
        if ends_with(name, "_nt"@) {
            let front = name.subrange(0, name.len() - "_nt"@.len());
            assert(name =~= front + "_nt"@);
        } else {
            let front = name.subrange(0, name.len() - "_no_tablet"@.len());
            assert(name =~= front + "_no_tablet"@);
        }
    }
}

/// A row is inserted only where none is, under its five coordinates and its fragment's
/// index, and is read by exactly those five; a source row is read by its key, with its
/// write time.
pub proof fn law_archive_statements(table: Seq<char>)
    ensures
        insert_cql(table) == "INSERT INTO "@ + table
            + " (network_chain_id, chain_epoch, participant_plan_digest, key_domain, row_slot, fragment_index, revision, fragment_count, row_bytes, fragment_payload, fragment_digest, row_digest) VALUES (?, ?, ?, ?, ?, ?, ?, ?, ?, ?, ?, ?) IF NOT EXISTS"@,
        read_row_cql(table)
            == "SELECT fragment_index, revision, fragment_count, row_bytes, fragment_payload, fragment_digest, row_digest FROM "@
            + table
            + " WHERE network_chain_id = ? AND chain_epoch = ? AND participant_plan_digest = ? AND key_domain = ? AND row_slot = ?"@,
        read_source_cql(table) == "SELECT value, WRITETIME(value) FROM "@ + table
            + " WHERE obj_id = ?"@,
{
}

} // verus!
