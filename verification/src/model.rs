//! The chain, head and rollback-control values that the rollback logic reads.
//!
//! The wire formats of these values belong to the chain protocol; a value that
//! has one carries its canonical bytes beside its fields.

use vstd::prelude::*;

use crate::bytes::{array_equal, bytes_equal, copy_bytes};

verus! {

/// A network, by its chain id.
#[derive(Clone, Copy, Debug, PartialEq, Eq, Structural)]
pub struct NetworkId {
    pub chain_id: u32,
}

/// Who owns a part of the chain's state.
#[derive(Clone, Copy, Debug, PartialEq, Eq, Structural)]
pub enum AuthorityScope {
    Coordinator,
    Realm { realm_id: u64, realm_sub_id: u64 },
}

/// One checkpoint: its height and its chain hash.
#[derive(Clone, Copy, Debug, PartialEq, Eq)]
pub struct CheckpointRef {
    pub height: u64,
    pub hash: [u8; 32],
}

impl CheckpointRef {
    pub fn same(&self, other: &Self) -> (same: bool)
        ensures
            same == (*self == *other),
    {
        self.height == other.height && array_equal::<32>(&self.hash, &other.hash)
    }
}

/// One checkpoint of one epoch of one network, with its canonical bytes.
#[derive(Clone, Copy, Debug, PartialEq, Eq)]
pub struct CanonicalChainRef {
    pub network: NetworkId,
    pub chain_epoch: u64,
    pub checkpoint: CheckpointRef,
    pub canonical: [u8; 65],
}

impl CanonicalChainRef {
    pub fn same(&self, other: &Self) -> (same: bool)
        ensures
            same == (*self == *other),
    {
        self.network == other.network && self.chain_epoch == other.chain_epoch
            && self.checkpoint.same(&other.checkpoint) && array_equal::<65>(
            &self.canonical,
            &other.canonical,
        )
    }
}

/// A checkpoint, as a number that a signed column can hold.
#[derive(Clone, Copy, Debug, PartialEq, Eq, Hash, PartialOrd, Ord, Structural)]
pub struct CheckpointId {
    pub value: u64,
}

impl CheckpointId {
    pub open spec fn in_range(self) -> bool {
        self.value <= i64::MAX
    }

    pub fn try_new(value: u64) -> (id: Option<Self>)
        ensures
            id == (if value > i64::MAX {
                None::<Self>
            } else {
                Some(CheckpointId { value })
            }),
    {
        if value > i64::MAX as u64 {
            None
        } else {
            Some(CheckpointId { value })
        }
    }

    pub fn get(self) -> (value: u64)
        ensures
            value == self.value,
    {
        self.value
    }
}

/// A pending identity: any number that a signed column can hold, but zero.
#[derive(Clone, Copy, Debug, PartialEq, Eq, Hash, PartialOrd, Ord, Structural)]
pub struct UniquePendingId {
    pub value: u64,
}

impl UniquePendingId {
    pub open spec fn in_range(self) -> bool {
        0 < self.value <= i64::MAX
    }

    pub fn try_new(value: u64) -> (id: Option<Self>)
        ensures
            id == (if value == 0 || value > i64::MAX {
                None::<Self>
            } else {
                Some(UniquePendingId { value })
            }),
    {
        if value == 0 || value > i64::MAX as u64 {
            None
        } else {
            Some(UniquePendingId { value })
        }
    }

    pub fn get(self) -> (value: u64)
        ensures
            value == self.value,
    {
        self.value
    }
}

/// A chain reference bound to the pending identity it was produced under, with
/// the digest that commits the pair.
#[derive(Clone, Copy, Debug, PartialEq, Eq)]
pub struct BranchPendingMapping {
    pub canonical: CanonicalChainRef,
    pub pending: UniquePendingId,
    pub digest: [u8; 32],
}

/// The Layer 2 block state of one checkpoint.
#[derive(Clone, Copy, Debug, PartialEq, Eq, Structural)]
pub struct QEDL2BlockState {
    pub checkpoint_id: u64,
    pub next_add_withdrawal_id: u64,
    pub next_process_withdrawal_id: u64,
    pub next_deposit_id: u64,
    pub total_deposits_claimed_epoch: u64,
    pub next_user_id: u64,
    pub end_balance: u64,
    pub next_contract_id: u32,
}

/// What the storage codec makes of a stored Layer 2 value: the decompressed
/// bytes, the state they hold, and the bytes that the state writes again.
#[verifier::ext_equal]
#[derive(Clone, Debug, PartialEq, Eq)]
pub struct DecodedL2<B> {
    pub state: QEDL2BlockState,
    pub canonical: B,
    pub rebuilt: B,
}

impl View for DecodedL2<Vec<u8>> {
    type V = DecodedL2<Seq<u8>>;

    open spec fn view(&self) -> DecodedL2<Seq<u8>> {
        DecodedL2 { state: self.state, canonical: self.canonical@, rebuilt: self.rebuilt@ }
    }
}

/// A stored cell: its bytes and when they were written.
#[verifier::ext_equal]
#[derive(Clone, Debug, PartialEq, Eq)]
pub struct CoordinatorCommitPhysicalSourceCell<B> {
    pub bytes: B,
    pub writetime_us: i64,
}

impl View for CoordinatorCommitPhysicalSourceCell<Vec<u8>> {
    type V = CoordinatorCommitPhysicalSourceCell<Seq<u8>>;

    open spec fn view(&self) -> CoordinatorCommitPhysicalSourceCell<Seq<u8>> {
        CoordinatorCommitPhysicalSourceCell { bytes: self.bytes@, writetime_us: self.writetime_us }
    }
}

pub type SourceCell = CoordinatorCommitPhysicalSourceCell<Vec<u8>>;

pub type SourceCellModel = CoordinatorCommitPhysicalSourceCell<Seq<u8>>;

/// The earliest chain reference that a rollback may reach, with the head
/// revision it was activated at, its digest and its canonical bytes.
#[verifier::ext_equal]
#[derive(Clone, Debug, PartialEq, Eq)]
pub struct CoordinatorRollbackFloor<B> {
    pub floor: CanonicalChainRef,
    pub activation_head_revision: i64,
    pub digest: [u8; 32],
    pub canonical: B,
}

impl View for CoordinatorRollbackFloor<Vec<u8>> {
    type V = CoordinatorRollbackFloor<Seq<u8>>;

    open spec fn view(&self) -> CoordinatorRollbackFloor<Seq<u8>> {
        CoordinatorRollbackFloor {
            floor: self.floor,
            activation_head_revision: self.activation_head_revision,
            digest: self.digest,
            canonical: self.canonical@,
        }
    }
}

impl CoordinatorRollbackFloor<Vec<u8>> {
    pub fn same(&self, other: &Self) -> (same: bool)
        ensures
            same == (self@ == other@),
    {
        self.floor.same(&other.floor) && self.activation_head_revision
            == other.activation_head_revision && array_equal::<32>(&self.digest, &other.digest)
            && bytes_equal(&self.canonical, &other.canonical)
    }

    pub fn copy(&self) -> (copy: Self)
        ensures
            copy@ == self@,
    {
        CoordinatorRollbackFloor {
            floor: self.floor,
            activation_head_revision: self.activation_head_revision,
            digest: self.digest,
            canonical: copy_bytes(&self.canonical),
        }
    }
}

pub type RollbackFloor = CoordinatorRollbackFloor<Vec<u8>>;

pub type RollbackFloorModel = CoordinatorRollbackFloor<Seq<u8>>;

/// The marker of a committed source: what it marks, and its canonical bytes.
#[derive(Clone, Copy, Debug, PartialEq, Eq)]
pub struct CoordinatorCommitSourceCommitted {
    pub slot: [u8; 32],
    pub source_digest: [u8; 32],
    pub canonical: [u8; 106],
}

/// A commit source: the chain reference it commits, its slot and its digest.
#[derive(Clone, Copy, Debug, PartialEq, Eq)]
pub struct CoordinatorCommitSource {
    pub candidate: CanonicalChainRef,
    pub slot: [u8; 32],
    pub digest: [u8; 32],
}

/// What the storage codec reads from a prepared update: the checkpoint, the new
/// block state, and how many of the given bytes were consumed.
#[derive(Clone, Copy, Debug, PartialEq, Eq, Structural)]
pub struct DecodedPreparedUpdate {
    pub checkpoint_id: u64,
    pub block_state: QEDL2BlockState,
    pub consumed: u64,
    pub total: u64,
}

/// The write timestamps, in microseconds, that separate a discarded branch from
/// its deletion and from the branch that replaces it.
#[derive(Clone, Copy, Debug, PartialEq, Eq, Structural)]
pub struct FenceWindow {
    /// No write of the discarded branch is later than this.
    pub orphan_write_max_us: i64,
    pub delete_fence_us: i64,
    pub new_branch_write_us: i64,
}

#[derive(Clone, Copy, Debug, PartialEq, Eq, Structural)]
pub enum RollbackExecutionMode {
    InPlace,
    SnapshotReplay,
}

/// A request to roll the chain back from `requested_head` to `target`.
#[derive(Clone, Copy, Debug, PartialEq, Eq)]
pub struct RollbackRequest {
    pub requested_head: CheckpointRef,
    pub target: CheckpointRef,
    pub fence: FenceWindow,
    pub execution_mode: RollbackExecutionMode,
    /// The byte that canonical encodings write for the execution mode.
    pub execution_mode_code: u8,
    pub plan_digest: [u8; 32],
}

impl RollbackRequest {
    pub fn same(&self, other: &Self) -> (same: bool)
        ensures
            same == (*self == *other),
    {
        self.requested_head.same(&other.requested_head) && self.target.same(&other.target)
            && self.fence == other.fence && self.execution_mode == other.execution_mode
            && self.execution_mode_code == other.execution_mode_code && array_equal::<32>(
            &self.plan_digest,
            &other.plan_digest,
        )
    }
}

/// How far a rollback has come.
#[derive(Clone, Copy, Debug, PartialEq, Eq, Structural)]
pub enum RollbackPhase {
    Idle,
    Requested,
    Archiving,
    ArchiveBarrierReady,
    Deleting,
    Restoring,
    Verifying,
    AllRealmsReady,
    Aborting,
}

/// The rollback state of a head. Only an idle head has no request.
#[derive(Clone, Copy, Debug, PartialEq, Eq)]
pub enum RollbackControlState {
    Idle,
    Requested(RollbackRequest),
    Archiving(RollbackRequest),
    ArchiveBarrierReady(RollbackRequest),
    Deleting(RollbackRequest),
    Restoring(RollbackRequest),
    Verifying(RollbackRequest),
    AllRealmsReady(RollbackRequest),
    Aborting(RollbackRequest),
}

impl RollbackControlState {
    pub open spec fn spec_phase(self) -> RollbackPhase {
        match self {
            RollbackControlState::Idle => RollbackPhase::Idle,
            RollbackControlState::Requested(_) => RollbackPhase::Requested,
            RollbackControlState::Archiving(_) => RollbackPhase::Archiving,
            RollbackControlState::ArchiveBarrierReady(_) => RollbackPhase::ArchiveBarrierReady,
            RollbackControlState::Deleting(_) => RollbackPhase::Deleting,
            RollbackControlState::Restoring(_) => RollbackPhase::Restoring,
            RollbackControlState::Verifying(_) => RollbackPhase::Verifying,
            RollbackControlState::AllRealmsReady(_) => RollbackPhase::AllRealmsReady,
            RollbackControlState::Aborting(_) => RollbackPhase::Aborting,
        }
    }

    pub open spec fn spec_requested(self) -> Option<RollbackRequest> {
        match self {
            RollbackControlState::Idle => None,
            RollbackControlState::Requested(request)
            | RollbackControlState::Archiving(request)
            | RollbackControlState::ArchiveBarrierReady(request)
            | RollbackControlState::Deleting(request)
            | RollbackControlState::Restoring(request)
            | RollbackControlState::Verifying(request)
            | RollbackControlState::AllRealmsReady(request)
            | RollbackControlState::Aborting(request) => Some(request),
        }
    }

    #[verifier::when_used_as_spec(spec_phase)]
    pub fn phase(self) -> (phase: RollbackPhase)
        ensures
            phase == self.spec_phase(),
    {
        match self {
            RollbackControlState::Idle => RollbackPhase::Idle,
            RollbackControlState::Requested(_) => RollbackPhase::Requested,
            RollbackControlState::Archiving(_) => RollbackPhase::Archiving,
            RollbackControlState::ArchiveBarrierReady(_) => RollbackPhase::ArchiveBarrierReady,
            RollbackControlState::Deleting(_) => RollbackPhase::Deleting,
            RollbackControlState::Restoring(_) => RollbackPhase::Restoring,
            RollbackControlState::Verifying(_) => RollbackPhase::Verifying,
            RollbackControlState::AllRealmsReady(_) => RollbackPhase::AllRealmsReady,
            RollbackControlState::Aborting(_) => RollbackPhase::Aborting,
        }
    }

    /// The request that a state other than idle carries.
    #[verifier::when_used_as_spec(spec_requested)]
    pub fn requested(self) -> (request: Option<RollbackRequest>)
        ensures
            request == self.spec_requested(),
    {
        match self {
            RollbackControlState::Idle => None,
            RollbackControlState::Requested(request)
            | RollbackControlState::Archiving(request)
            | RollbackControlState::ArchiveBarrierReady(request)
            | RollbackControlState::Deleting(request)
            | RollbackControlState::Restoring(request)
            | RollbackControlState::Verifying(request)
            | RollbackControlState::AllRealmsReady(request)
            | RollbackControlState::Aborting(request) => Some(request),
        }
    }

    pub fn same(&self, other: &Self) -> (same: bool)
        ensures
            same == (*self == *other),
    {
        if self.phase() != other.phase() {
            return false;
        }
        match (self.requested(), other.requested()) {
            (Some(a), Some(b)) => a.same(&b),
            (None, None) => true,
            _ => false,
        }
    }
}

/// A persisted canonical head: its revision, the chain it selects, its rollback
/// state, and the canonical bytes of that state.
#[verifier::ext_equal]
#[derive(Debug, PartialEq, Eq)]
pub struct StoredCanonicalHead<B> {
    pub revision: i64,
    pub canonical: CanonicalChainRef,
    pub control: RollbackControlState,
    pub control_bytes: B,
}

pub type StoredHead = StoredCanonicalHead<Vec<u8>>;

pub type StoredHeadModel = StoredCanonicalHead<Seq<u8>>;

impl View for StoredCanonicalHead<Vec<u8>> {
    type V = StoredCanonicalHead<Seq<u8>>;

    open spec fn view(&self) -> StoredCanonicalHead<Seq<u8>> {
        StoredCanonicalHead {
            revision: self.revision,
            canonical: self.canonical,
            control: self.control,
            control_bytes: self.control_bytes@,
        }
    }
}

impl Clone for StoredCanonicalHead<Vec<u8>> {
    fn clone(&self) -> (copy: Self)
        ensures
            copy@ == self@,
    {
        StoredCanonicalHead {
            revision: self.revision,
            canonical: self.canonical,
            control: self.control,
            control_bytes: crate::bytes::copy_bytes(&self.control_bytes),
        }
    }
}

impl StoredCanonicalHead<Vec<u8>> {
    pub fn same(&self, other: &Self) -> (same: bool)
        ensures
            same == (self@ == other@),
    {
        self.revision == other.revision && self.canonical.same(&other.canonical)
            && self.control.same(&other.control) && bytes_equal(
            &self.control_bytes,
            &other.control_bytes,
        )
    }
}

/// Every phase but the idle one carries the request of its rollback, and the phase tells
/// which state it is.
pub proof fn law_rollback_states_carry_their_request(state: RollbackControlState)
    ensures
        state.spec_requested() is None <==> state is Idle,
        state.spec_requested() matches Some(request) ==> state == RollbackControlState::Requested(
            request,
        ) || state == RollbackControlState::Archiving(request) || state
            == RollbackControlState::ArchiveBarrierReady(request) || state
            == RollbackControlState::Deleting(request) || state == RollbackControlState::Restoring(
            request,
        ) || state == RollbackControlState::Verifying(request) || state
            == RollbackControlState::AllRealmsReady(request) || state
            == RollbackControlState::Aborting(request),
        state.spec_phase() is Idle <==> state is Idle,
        state.spec_phase() is Requested <==> state is Requested,
        state.spec_phase() is Archiving <==> state is Archiving,
        state.spec_phase() is ArchiveBarrierReady <==> state is ArchiveBarrierReady,
        state.spec_phase() is Deleting <==> state is Deleting,
        state.spec_phase() is Restoring <==> state is Restoring,
        state.spec_phase() is Verifying <==> state is Verifying,
        state.spec_phase() is AllRealmsReady <==> state is AllRealmsReady,
        state.spec_phase() is Aborting <==> state is Aborting,
{
}

/// Two stored heads have the same view exactly if nothing of them differs: neither the
/// revision, the chain, the rollback state nor the bytes of that state.
pub proof fn law_head_view_keeps_everything(a: StoredHead, b: StoredHead)
    ensures
        a@ == b@ <==> a.revision == b.revision && a.canonical == b.canonical && a.control
            == b.control && a.control_bytes@ == b.control_bytes@,
{
}

} // verus!
