//! Exact, read-only Coordinator branch catalog for an in-place rollback.
//!
//! Starting a rollback opens a new chain epoch before archive copying begins,
//! but the rows in `(target, requested_head]` belong to the epoch before it.
//! The catalog reconstructs that discarded branch from the checkpoint
//! transition rows and requires the legacy and the branch-exact pending
//! mappings to agree in both directions. Its summaries are evidence only.

use vstd::prelude::*;

use crate::model::{NetworkId, UniquePendingId};

verus! {

#[derive(Clone, Debug, PartialEq, Eq)]
pub enum CoordinatorRollbackBranchCatalogError {
    NotExactArchivingHead,
    MissingSourceEpoch,
    InvalidCheckpointRange,
    SuffixRowLimit { actual: u64, max: u64 },
    CheckpointOverflow,
    CheckpointGap { expected: u64, actual: u64 },
    IncompleteCatalog { expected: u64, actual: u64 },
    AnchorMissing,
    MissingTransition(u64),
    MalformedTransition { checkpoint_id: u64, reason: String },
    NonCanonicalTransition(u64),
    GenesisHashMismatch(u64),
    CircuitFingerprintMismatch(u64),
    LeafHashMismatch(u64),
    PredecessorMismatch(u64),
    InvalidGenesis,
    MissingProof(u64),
    MalformedProof { checkpoint_id: u64, reason: String },
    ChainMismatch(u64),
    TargetAnchorMismatch,
    RecoveredHeadMismatch,
    MissingLegacyForward(u64),
    MissingLegacyReverse(u64),
    LegacyPairMismatch { checkpoint: u64, pending: u64, reverse_checkpoint: u64 },
    InvalidPending(u64),
    PendingMappedTwice(u64),
    MissingTargetForward,
    MissingTargetReverse,
    TargetForwardConflict,
    TargetReverseConflict,
    WriteAfterFence { writetime_us: i64, orphan_write_max_us: i64 },
    MissingColumn,
    InvalidDigestLength,
    IntegerOutOfRange,
    Head(String),
    HeadChanged,
    SourceChanged,
    Archive(String),
    ArchiveSummaryMissing,
    ArchiveRowCountMismatch { expected: u64, actual: u64 },
    Driver(String),
    Poisoned,
    /// The outcome belongs to another step than the one that was asked for.
    OutOfOrder,
}

/// Which of the four physical directions a mapping row was read from.
#[derive(Clone, Copy, Debug, PartialEq, Eq, Structural)]
pub enum CoordinatorRollbackMappingSourceKind {
    LegacyCheckpointToPending,
    LegacyPendingToCheckpoint,
    BranchExactCanonicalToPending,
    BranchExactPendingToCanonical,
}

impl CoordinatorRollbackMappingSourceKind {
    pub open spec fn spec_stable_id(self) -> u8 {
        match self {
            CoordinatorRollbackMappingSourceKind::LegacyCheckpointToPending => 1,
            CoordinatorRollbackMappingSourceKind::LegacyPendingToCheckpoint => 2,
            CoordinatorRollbackMappingSourceKind::BranchExactCanonicalToPending => 3,
            CoordinatorRollbackMappingSourceKind::BranchExactPendingToCanonical => 4,
        }
    }

    #[verifier::when_used_as_spec(spec_stable_id)]
    pub fn stable_id(self) -> (id: u8)
        ensures
            id == self.spec_stable_id(),
    {
        match self {
            CoordinatorRollbackMappingSourceKind::LegacyCheckpointToPending => 1,
            CoordinatorRollbackMappingSourceKind::LegacyPendingToCheckpoint => 2,
            CoordinatorRollbackMappingSourceKind::BranchExactCanonicalToPending => 3,
            CoordinatorRollbackMappingSourceKind::BranchExactPendingToCanonical => 4,
        }
    }
}

/// One column of a mapping row, with the time it was written.
#[verifier::ext_equal]
#[derive(Clone, Debug, PartialEq, Eq)]
pub struct VerifiedCoordinatorRollbackMappingColumn<B> {
    pub column_id: u8,
    pub value: B,
    pub writetime_us: i64,
}

pub type MappingColumn = VerifiedCoordinatorRollbackMappingColumn<Vec<u8>>;

pub type MappingColumnModel = VerifiedCoordinatorRollbackMappingColumn<Seq<u8>>;

impl View for VerifiedCoordinatorRollbackMappingColumn<Vec<u8>> {
    type V = VerifiedCoordinatorRollbackMappingColumn<Seq<u8>>;

    open spec fn view(&self) -> VerifiedCoordinatorRollbackMappingColumn<Seq<u8>> {
        VerifiedCoordinatorRollbackMappingColumn {
            column_id: self.column_id,
            value: self.value@,
            writetime_us: self.writetime_us,
        }
    }
}

/// The views of the columns of a list.
pub open spec fn column_models(columns: Seq<MappingColumn>) -> Seq<MappingColumnModel> {
    Seq::new(columns.len(), |i: int| columns[i]@)
}

impl VerifiedCoordinatorRollbackMappingColumn<Vec<u8>> {
    pub fn column_id(&self) -> (id: u8)
        ensures
            id == self.column_id,
    {
        self.column_id
    }

    pub fn value(&self) -> (value: &[u8])
        ensures
            value@ == self.value@,
    {
        self.value.as_slice()
    }

    pub fn writetime_us(&self) -> (writetime_us: i64)
        ensures
            writetime_us == self.writetime_us,
    {
        self.writetime_us
    }

    pub fn copy(&self) -> (copy: Self)
        ensures
            copy@ == self@,
    {
        VerifiedCoordinatorRollbackMappingColumn {
            column_id: self.column_id,
            value: crate::bytes::copy_bytes(&self.value),
            writetime_us: self.writetime_us,
        }
    }
}

/// One physical mapping row: its primary key and its columns.
#[verifier::ext_equal]
#[derive(Clone, Debug, PartialEq, Eq)]
pub struct VerifiedCoordinatorRollbackMappingSource<B, C> {
    pub kind: CoordinatorRollbackMappingSourceKind,
    pub primary_key: B,
    pub columns: C,
}

pub type MappingSource = VerifiedCoordinatorRollbackMappingSource<Vec<u8>, Vec<MappingColumn>>;

pub type MappingSourceModel = VerifiedCoordinatorRollbackMappingSource<
    Seq<u8>,
    Seq<MappingColumnModel>,
>;

impl View for VerifiedCoordinatorRollbackMappingSource<Vec<u8>, Vec<MappingColumn>> {
    type V = VerifiedCoordinatorRollbackMappingSource<Seq<u8>, Seq<MappingColumnModel>>;

    open spec fn view(&self) -> VerifiedCoordinatorRollbackMappingSource<
        Seq<u8>,
        Seq<MappingColumnModel>,
    > {
        VerifiedCoordinatorRollbackMappingSource {
            kind: self.kind,
            primary_key: self.primary_key@,
            columns: column_models(self.columns@),
        }
    }
}

impl VerifiedCoordinatorRollbackMappingSource<Vec<u8>, Vec<MappingColumn>> {
    pub fn kind(&self) -> (kind: CoordinatorRollbackMappingSourceKind)
        ensures
            kind == self.kind,
    {
        self.kind
    }

    pub fn primary_key(&self) -> (key: &[u8])
        ensures
            key@ == self.primary_key@,
    {
        self.primary_key.as_slice()
    }

    pub fn columns(&self) -> (columns: &[MappingColumn])
        ensures
            columns@ == self.columns@,
    {
        self.columns.as_slice()
    }
}

/// The views of the sources of a list.
pub open spec fn source_models(sources: Seq<MappingSource>) -> Seq<MappingSourceModel> {
    Seq::new(sources.len(), |i: int| sources[i]@)
}

/// The mapping rows of one discarded checkpoint, verified against each other.
#[verifier::ext_equal]
#[derive(Clone, Debug, PartialEq, Eq)]
pub struct VerifiedCoordinatorRollbackMappingBundle<S> {
    pub catalog_fingerprint: [u8; 32],
    pub network: NetworkId,
    pub rollback_epoch: u64,
    pub source_epoch: u64,
    pub checkpoint: u64,
    pub pending: UniquePendingId,
    pub sources: S,
}

pub type MappingBundle = VerifiedCoordinatorRollbackMappingBundle<Vec<MappingSource>>;

pub type MappingBundleModel = VerifiedCoordinatorRollbackMappingBundle<Seq<MappingSourceModel>>;

impl View for VerifiedCoordinatorRollbackMappingBundle<Vec<MappingSource>> {
    type V = VerifiedCoordinatorRollbackMappingBundle<Seq<MappingSourceModel>>;

    open spec fn view(&self) -> VerifiedCoordinatorRollbackMappingBundle<Seq<MappingSourceModel>> {
        VerifiedCoordinatorRollbackMappingBundle {
            catalog_fingerprint: self.catalog_fingerprint,
            network: self.network,
            rollback_epoch: self.rollback_epoch,
            source_epoch: self.source_epoch,
            checkpoint: self.checkpoint,
            pending: self.pending,
            sources: source_models(self.sources@),
        }
    }
}

impl VerifiedCoordinatorRollbackMappingBundle<Vec<MappingSource>> {
    pub fn catalog_fingerprint(&self) -> (fingerprint: [u8; 32])
        ensures
            fingerprint == self.catalog_fingerprint,
    {
        self.catalog_fingerprint
    }

    pub fn network(&self) -> (network: NetworkId)
        ensures
            network == self.network,
    {
        self.network
    }

    pub fn rollback_epoch(&self) -> (epoch: u64)
        ensures
            epoch == self.rollback_epoch,
    {
        self.rollback_epoch
    }

    pub fn source_epoch(&self) -> (epoch: u64)
        ensures
            epoch == self.source_epoch,
    {
        self.source_epoch
    }

    pub fn checkpoint(&self) -> (checkpoint: u64)
        ensures
            checkpoint == self.checkpoint,
    {
        self.checkpoint
    }

    pub fn pending(&self) -> (pending: UniquePendingId)
        ensures
            pending == self.pending,
    {
        self.pending
    }

    pub fn sources(&self) -> (sources: &[MappingSource])
        ensures
            sources@ == self.sources@,
    {
        self.sources.as_slice()
    }
}

/// The number that stands for a direction in an archived row tells the direction.
pub proof fn law_direction_numbers(kind: CoordinatorRollbackMappingSourceKind)
    ensures
        kind.spec_stable_id() == 1 <==> kind is LegacyCheckpointToPending,
        kind.spec_stable_id() == 2 <==> kind is LegacyPendingToCheckpoint,
        kind.spec_stable_id() == 3 <==> kind is BranchExactCanonicalToPending,
        kind.spec_stable_id() == 4 <==> kind is BranchExactPendingToCanonical,
{
}

} // verus!
