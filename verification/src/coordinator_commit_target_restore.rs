//! Canonical restore payload for Coordinator mutable singletons.
//!
//! The latest-L2 singleton is restored from the exact stored bytes of the
//! checkpoint-keyed L2 row at the selected target, the latest-checkpoint
//! singleton to the target checkpoint number. A target above the rollback floor
//! has to be backed by its exact commit source and COMMITTED marker. Genesis is
//! the only target accepted without a source. The payload is evidence only.

use vstd::prelude::*;

use crate::bytes;
use crate::bytes::{
    array_equal, array_from, bytes_equal, copy_bytes, is_zero_digest, push_byte, push_bytes,
    push_counted, push_i64, push_len, push_u16, push_u64, text_bytes, Cursor,
};
use crate::hash;
use crate::hash::sha256_digest;
use crate::model::{
    CanonicalChainRef, CoordinatorCommitSource, CoordinatorCommitSourceCommitted, DecodedL2,
    DecodedPreparedUpdate, QEDL2BlockState, RollbackControlState, RollbackExecutionMode,
    RollbackFloor, RollbackFloorModel, SourceCell, SourceCellModel, StoredHead, StoredHeadModel,
};

verus! {

/// `PSYCTRP1`.
pub const PAYLOAD_MAGIC: [u8; 8] = [0x50, 0x53, 0x59, 0x43, 0x54, 0x52, 0x50, 0x31];

pub const PAYLOAD_VERSION: u16 = 1;

pub const MAX_PAYLOAD_BYTES: usize = 65_536;

pub const MAX_BINDING_BYTES: usize = 16_384;

pub const MAX_STORED_L2_BYTES: usize = 16_384;

#[derive(Clone, Debug, PartialEq, Eq)]
pub enum CoordinatorCommitTargetRestoreError {
    InvalidMagic,
    UnknownVersion(u16),
    UnknownSourceKind(u8),
    CanonicalRef(String),
    NotExactArchivingScope,
    EpochUnderflow,
    FloorTargetMismatch,
    TargetSourceMismatch,
    TargetSource(String),
    TrailingPreparedUpdate,
    MaterializedTargetMismatch,
    InvalidStoredL2,
    StoredL2(String),
    NonCanonicalStoredL2,
    BindingMismatch,
    BindingTooLarge,
    PayloadTooLarge,
    ZeroCommitment,
    SlotMismatch,
    DigestMismatch,
    NonCanonicalEncoding,
    Truncated,
    TrailingBytes,
}

/// What backs the restored target.
#[derive(Clone, Copy, Debug, PartialEq, Eq)]
pub enum CoordinatorTargetRestoreSource {
    GenesisAnchor { floor_digest: [u8; 32] },
    CommittedSource {
        floor_digest: [u8; 32],
        source_slot: [u8; 32],
        source_digest: [u8; 32],
        committed_marker: [u8; 106],
    },
}

impl CoordinatorTargetRestoreSource {
    pub open spec fn spec_floor_digest(self) -> [u8; 32] {
        match self {
            CoordinatorTargetRestoreSource::GenesisAnchor { floor_digest } => floor_digest,
            CoordinatorTargetRestoreSource::CommittedSource { floor_digest, .. } => floor_digest,
        }
    }

    pub fn floor_digest(&self) -> (digest: &[u8; 32])
        ensures
            *digest == self.spec_floor_digest(),
    {
        match self {
            CoordinatorTargetRestoreSource::GenesisAnchor { floor_digest } => floor_digest,
            CoordinatorTargetRestoreSource::CommittedSource { floor_digest, .. } => floor_digest,
        }
    }

    pub open spec fn image(self) -> Seq<u8> {
        match self {
            CoordinatorTargetRestoreSource::GenesisAnchor { floor_digest } => seq![1u8]
                + floor_digest@,
            CoordinatorTargetRestoreSource::CommittedSource {
                floor_digest,
                source_slot,
                source_digest,
                committed_marker,
            } => seq![2u8] + floor_digest@ + source_slot@ + source_digest@ + committed_marker@,
        }
    }
}

/// What a payload is bound to: the archiving head, the archive it belongs to and
/// the target. It alone fixes the slot.
#[verifier::ext_equal]
#[derive(Clone, Debug, PartialEq, Eq)]
pub struct RestoreBinding<B> {
    pub network_chain_id: i64,
    pub old_chain_epoch: u64,
    pub archiving_head_revision: i64,
    pub archiving_head_canonical: B,
    pub archiving_control_canonical: B,
    pub catalog_digest: [u8; 32],
    pub archive_store_fingerprint: [u8; 32],
    pub participant_completion_slot: [u8; 32],
    pub participant_completion_digest: [u8; 32],
    pub target: CanonicalChainRef,
}

impl View for RestoreBinding<Vec<u8>> {
    type V = RestoreBinding<Seq<u8>>;

    open spec fn view(&self) -> RestoreBinding<Seq<u8>> {
        RestoreBinding {
            network_chain_id: self.network_chain_id,
            old_chain_epoch: self.old_chain_epoch,
            archiving_head_revision: self.archiving_head_revision,
            archiving_head_canonical: self.archiving_head_canonical@,
            archiving_control_canonical: self.archiving_control_canonical@,
            catalog_digest: self.catalog_digest,
            archive_store_fingerprint: self.archive_store_fingerprint,
            participant_completion_slot: self.participant_completion_slot,
            participant_completion_digest: self.participant_completion_digest,
            target: self.target,
        }
    }
}

/// Immutable payload from which a later writer restores the two mutable
/// Coordinator singleton rows.
#[verifier::ext_equal]
#[derive(Clone, Debug, PartialEq, Eq)]
pub struct CoordinatorCommitTargetRestorePayload<B> {
    pub binding: RestoreBinding<B>,
    pub source: CoordinatorTargetRestoreSource,
    pub target_l2_source_writetime_us: i64,
    pub target_l2_stored_value: B,
    pub latest_checkpoint: u64,
    pub slot: [u8; 32],
    pub digest: [u8; 32],
    pub canonical_bytes: B,
}

pub type RestorePayload = CoordinatorCommitTargetRestorePayload<Vec<u8>>;

pub type RestorePayloadModel = CoordinatorCommitTargetRestorePayload<Seq<u8>>;

impl View for CoordinatorCommitTargetRestorePayload<Vec<u8>> {
    type V = CoordinatorCommitTargetRestorePayload<Seq<u8>>;

    open spec fn view(&self) -> CoordinatorCommitTargetRestorePayload<Seq<u8>> {
        CoordinatorCommitTargetRestorePayload {
            binding: self.binding@,
            source: self.source,
            target_l2_source_writetime_us: self.target_l2_source_writetime_us,
            target_l2_stored_value: self.target_l2_stored_value@,
            latest_checkpoint: self.latest_checkpoint,
            slot: self.slot,
            digest: self.digest,
            canonical_bytes: self.canonical_bytes@,
        }
    }
}

pub open spec fn l2_outcome(l2: Result<DecodedL2<Vec<u8>>, String>) -> Result<
    DecodedL2<Seq<u8>>,
    String,
> {
    match l2 {
        Ok(decoded) => Ok(decoded@),
        Err(refused) => Err(refused),
    }
}

/// The state that a stored Layer 2 value holds. `l2` is what the storage codec
/// makes of the value.
pub open spec fn stored_l2(stored: Seq<u8>, l2: Result<DecodedL2<Seq<u8>>, String>) -> Result<
    QEDL2BlockState,
    CoordinatorCommitTargetRestoreError,
> {
    if stored.len() == 0 || stored.len() > MAX_STORED_L2_BYTES {
        Err(CoordinatorCommitTargetRestoreError::InvalidStoredL2)
    } else {
        match l2 {
            Err(refused) => Err(CoordinatorCommitTargetRestoreError::StoredL2(refused)),
            Ok(decoded) => if decoded.rebuilt != decoded.canonical {
                Err(CoordinatorCommitTargetRestoreError::NonCanonicalStoredL2)
            } else {
                Ok(decoded.state)
            },
        }
    }
}

fn decode_stored_l2(stored: &[u8], l2: Result<DecodedL2<Vec<u8>>, String>) -> (result: Result<
    QEDL2BlockState,
    CoordinatorCommitTargetRestoreError,
>)
    ensures
        result == stored_l2(stored@, l2_outcome(l2)),
{
    if stored.len() == 0 || stored.len() > MAX_STORED_L2_BYTES {
        return Err(CoordinatorCommitTargetRestoreError::InvalidStoredL2);
    }
    match l2 {
        Err(refused) => Err(CoordinatorCommitTargetRestoreError::StoredL2(refused)),
        Ok(decoded) => {
            if !bytes_equal(&decoded.rebuilt, &decoded.canonical) {
                Err(CoordinatorCommitTargetRestoreError::NonCanonicalStoredL2)
            } else {
                Ok(decoded.state)
            }
        },
    }
}

/// The head is archiving, in place, a rollback to exactly the target, which
/// belongs to the epoch before the head's.
pub open spec fn checked_scope(head: StoredHeadModel, target: CanonicalChainRef) -> Result<
    (),
    CoordinatorCommitTargetRestoreError,
> {
    match head.control {
        RollbackControlState::Archiving(request) => if head.canonical.chain_epoch == 0 {
            Err(CoordinatorCommitTargetRestoreError::EpochUnderflow)
        } else if request.execution_mode == RollbackExecutionMode::InPlace
            && head.canonical.checkpoint == request.requested_head && target.network
            == head.canonical.network && target.chain_epoch == head.canonical.chain_epoch - 1
            && target.checkpoint == request.target {
            Ok(())
        } else {
            Err(CoordinatorCommitTargetRestoreError::NotExactArchivingScope)
        },
        _ => Err(CoordinatorCommitTargetRestoreError::NotExactArchivingScope),
    }
}

fn validate_scope(head: &StoredHead, target: &CanonicalChainRef) -> (result: Result<
    (),
    CoordinatorCommitTargetRestoreError,
>)
    ensures
        result == checked_scope(head@, *target),
{
    match head.control {
        RollbackControlState::Archiving(request) => {
            if head.canonical.chain_epoch == 0 {
                return Err(CoordinatorCommitTargetRestoreError::EpochUnderflow);
            }
            let old_epoch: u64 = head.canonical.chain_epoch - 1;
            if request.execution_mode == RollbackExecutionMode::InPlace
                && head.canonical.checkpoint.same(&request.requested_head) && target.network
                == head.canonical.network && target.chain_epoch == old_epoch
                && target.checkpoint.same(&request.target) {
                Ok(())
            } else {
                Err(CoordinatorCommitTargetRestoreError::NotExactArchivingScope)
            }
        },
        _ => Err(CoordinatorCommitTargetRestoreError::NotExactArchivingScope),
    }
}

/// What the slot of a payload is the digest of.
pub open spec fn restore_slot_preimage(binding: RestoreBinding<Seq<u8>>) -> Seq<u8> {
    bytes::text("psy.rollback.coordinator-target-restore-payload-slot.v1\0"@) + bytes::be_i64(
        binding.network_chain_id,
    ) + bytes::be64(binding.old_chain_epoch) + bytes::be_i64(binding.archiving_head_revision)
        + bytes::be_len(binding.archiving_head_canonical.len()) + binding.archiving_head_canonical
        + bytes::be_len(binding.archiving_control_canonical.len())
        + binding.archiving_control_canonical + binding.catalog_digest@
        + binding.archive_store_fingerprint@ + binding.participant_completion_slot@
        + binding.participant_completion_digest@ + binding.target.canonical@
}

pub open spec fn binding_too_large(binding: RestoreBinding<Seq<u8>>) -> bool {
    binding.archiving_head_canonical.len() > MAX_BINDING_BYTES
        || binding.archiving_control_canonical.len() > MAX_BINDING_BYTES
}

fn restore_slot(binding: &RestoreBinding<Vec<u8>>) -> (result: Result<
    [u8; 32],
    CoordinatorCommitTargetRestoreError,
>)
    ensures
        result == (if binding_too_large(binding@) {
            Err::<[u8; 32], _>(CoordinatorCommitTargetRestoreError::BindingTooLarge)
        } else {
            Ok(hash::sha256(restore_slot_preimage(binding@)))
        }),
{
    if binding.archiving_head_canonical.len() > MAX_BINDING_BYTES
        || binding.archiving_control_canonical.len() > MAX_BINDING_BYTES {
        return Err(CoordinatorCommitTargetRestoreError::BindingTooLarge);
    }
    let mut preimage: Vec<u8> = text_bytes(
        "psy.rollback.coordinator-target-restore-payload-slot.v1\0",
    );
    push_i64(&mut preimage, binding.network_chain_id);
    push_u64(&mut preimage, binding.old_chain_epoch);
    push_i64(&mut preimage, binding.archiving_head_revision);
    push_len(&mut preimage, binding.archiving_head_canonical.len());
    push_bytes(&mut preimage, &binding.archiving_head_canonical);
    push_len(&mut preimage, binding.archiving_control_canonical.len());
    push_bytes(&mut preimage, &binding.archiving_control_canonical);
    push_bytes(&mut preimage, &binding.catalog_digest);
    push_bytes(&mut preimage, &binding.archive_store_fingerprint);
    push_bytes(&mut preimage, &binding.participant_completion_slot);
    push_bytes(&mut preimage, &binding.participant_completion_digest);
    push_bytes(&mut preimage, &binding.target.canonical);
    Ok(sha256_digest(&preimage))
}

/// The digest that seals a payload.
pub open spec fn restore_digest_of(body: Seq<u8>) -> [u8; 32] {
    hash::sha256(
        bytes::text("psy.rollback.coordinator-target-restore-payload.v1\0"@) + bytes::be_len(
            body.len(),
        ) + body,
    )
}

/// The digest that seals a payload.
pub fn restore_digest(body: &[u8]) -> (digest: [u8; 32])
    ensures
        digest == restore_digest_of(body@),
{
    let mut preimage: Vec<u8> = text_bytes("psy.rollback.coordinator-target-restore-payload.v1\0");
    push_len(&mut preimage, body.len());
    push_bytes(&mut preimage, body);
    sha256_digest(&preimage)
}

/// The part of a payload that its binding writes.
pub open spec fn binding_image(binding: RestoreBinding<Seq<u8>>) -> Seq<u8> {
    PAYLOAD_MAGIC@ + bytes::be16(PAYLOAD_VERSION) + bytes::be_i64(binding.network_chain_id)
        + bytes::be64(binding.old_chain_epoch) + bytes::be_i64(binding.archiving_head_revision)
        + bytes::counted(binding.archiving_head_canonical) + bytes::counted(
        binding.archiving_control_canonical,
    ) + binding.catalog_digest@ + binding.archive_store_fingerprint@
        + binding.participant_completion_slot@ + binding.participant_completion_digest@
        + binding.target.canonical@
}

/// A payload without its digest.
pub open spec fn payload_body(payload: RestorePayloadModel) -> Seq<u8> {
    binding_image(payload.binding) + payload.source.image() + bytes::be_i64(
        payload.target_l2_source_writetime_us,
    ) + bytes::counted(payload.target_l2_stored_value) + bytes::be64(payload.latest_checkpoint)
        + payload.slot@
}

pub open spec fn payload_too_large(payload: RestorePayloadModel) -> bool {
    binding_too_large(payload.binding) || payload.target_l2_stored_value.len()
        > MAX_STORED_L2_BYTES
}

impl CoordinatorCommitTargetRestorePayload<Vec<u8>> {
    fn encode_without_digest(&self) -> (result: Result<
        Vec<u8>,
        CoordinatorCommitTargetRestoreError,
    >)
        ensures
            match result {
                Ok(body) => !payload_too_large(self@) && body@ == payload_body(self@),
                Err(error) => payload_too_large(self@) && error
                    == CoordinatorCommitTargetRestoreError::BindingTooLarge,
            },
    {
        if self.binding.archiving_head_canonical.len() > MAX_BINDING_BYTES
            || self.binding.archiving_control_canonical.len() > MAX_BINDING_BYTES
            || self.target_l2_stored_value.len() > MAX_STORED_L2_BYTES {
            return Err(CoordinatorCommitTargetRestoreError::BindingTooLarge);
        }
        let mut body: Vec<u8> = copy_bytes(&PAYLOAD_MAGIC);
        push_u16(&mut body, PAYLOAD_VERSION);
        push_i64(&mut body, self.binding.network_chain_id);
        push_u64(&mut body, self.binding.old_chain_epoch);
        push_i64(&mut body, self.binding.archiving_head_revision);
        push_counted(&mut body, &self.binding.archiving_head_canonical);
        push_counted(&mut body, &self.binding.archiving_control_canonical);
        push_bytes(&mut body, &self.binding.catalog_digest);
        push_bytes(&mut body, &self.binding.archive_store_fingerprint);
        push_bytes(&mut body, &self.binding.participant_completion_slot);
        push_bytes(&mut body, &self.binding.participant_completion_digest);
        push_bytes(&mut body, &self.binding.target.canonical);
        let ghost front = body@;
        match &self.source {
            CoordinatorTargetRestoreSource::GenesisAnchor { floor_digest } => {
                push_byte(&mut body, 1);
                push_bytes(&mut body, floor_digest);
            },
            CoordinatorTargetRestoreSource::CommittedSource {
                floor_digest,
                source_slot,
                source_digest,
                committed_marker,
            } => {
                push_byte(&mut body, 2);
                push_bytes(&mut body, floor_digest);
                push_bytes(&mut body, source_slot);
                push_bytes(&mut body, source_digest);
                push_bytes(&mut body, committed_marker);
            },
        }
        assert(body@ =~= front + self.source.image());
        push_i64(&mut body, self.target_l2_source_writetime_us);
        push_counted(&mut body, &self.target_l2_stored_value);
        push_u64(&mut body, self.latest_checkpoint);
        push_bytes(&mut body, &self.slot);
        Ok(body)
    }
}

/// What a payload's head says: all that it is bound to, and where that ends.
/// `target` is what the chain codec makes of the target's bytes.
pub open spec fn binding_at(bytes: Seq<u8>, target: Result<CanonicalChainRef, String>) -> Result<
    (RestoreBinding<Seq<u8>>, int),
    CoordinatorCommitTargetRestoreError,
> {
    if bytes.len() < 8 {
        Err(CoordinatorCommitTargetRestoreError::Truncated)
    } else if bytes.subrange(0, 8) != PAYLOAD_MAGIC@ {
        Err(CoordinatorCommitTargetRestoreError::InvalidMagic)
    } else if bytes.len() < 10 {
        Err(CoordinatorCommitTargetRestoreError::Truncated)
    } else if bytes::u16_at(bytes, 8) != PAYLOAD_VERSION {
        Err(CoordinatorCommitTargetRestoreError::UnknownVersion(bytes::u16_at(bytes, 8)))
    } else {
        match bytes::counted_at(bytes, 34) {
            None => Err(CoordinatorCommitTargetRestoreError::Truncated),
            Some((head, control_at)) => match bytes::counted_at(bytes, control_at) {
                None => Err(CoordinatorCommitTargetRestoreError::Truncated),
                Some((control, at)) => if at + 193 > bytes.len() {
                    Err(CoordinatorCommitTargetRestoreError::Truncated)
                } else {
                    match target {
                        Err(refused) => Err(
                            CoordinatorCommitTargetRestoreError::CanonicalRef(refused),
                        ),
                        Ok(target) => Ok(
                            (
                                RestoreBinding {
                                    network_chain_id: bytes::i64_at(bytes, 10),
                                    old_chain_epoch: bytes::u64_at(bytes, 18),
                                    archiving_head_revision: bytes::i64_at(bytes, 26),
                                    archiving_head_canonical: head,
                                    archiving_control_canonical: control,
                                    catalog_digest: bytes::digest_at(bytes, at),
                                    archive_store_fingerprint: bytes::digest_at(bytes, at + 32),
                                    participant_completion_slot: bytes::digest_at(bytes, at + 64),
                                    participant_completion_digest: bytes::digest_at(bytes, at + 96),
                                    target,
                                },
                                at + 193,
                            ),
                        ),
                    }
                },
            },
        }
    }
}

/// What backs the target, and where that ends. `marker` is what the marker codec
/// makes of the marker's bytes.
pub open spec fn restore_source_at(
    bytes: Seq<u8>,
    at: int,
    marker: Result<CoordinatorCommitSourceCommitted, String>,
) -> Result<(CoordinatorTargetRestoreSource, int), CoordinatorCommitTargetRestoreError> {
    if at + 1 > bytes.len() {
        Err(CoordinatorCommitTargetRestoreError::Truncated)
    } else if bytes[at] == 1 {
        if at + 33 > bytes.len() {
            Err(CoordinatorCommitTargetRestoreError::Truncated)
        } else {
            Ok(
                (
                    CoordinatorTargetRestoreSource::GenesisAnchor {
                        floor_digest: bytes::digest_at(bytes, at + 1),
                    },
                    at + 33,
                ),
            )
        }
    } else if bytes[at] == 2 {
        if at + 203 > bytes.len() {
            Err(CoordinatorCommitTargetRestoreError::Truncated)
        } else {
            match marker {
                Err(refused) => Err(CoordinatorCommitTargetRestoreError::TargetSource(refused)),
                Ok(marker) => if marker.slot != bytes::digest_at(bytes, at + 33)
                    || marker.source_digest != bytes::digest_at(bytes, at + 65) {
                    Err(CoordinatorCommitTargetRestoreError::TargetSourceMismatch)
                } else {
                    Ok(
                        (
                            CoordinatorTargetRestoreSource::CommittedSource {
                                floor_digest: bytes::digest_at(bytes, at + 1),
                                source_slot: bytes::digest_at(bytes, at + 33),
                                source_digest: bytes::digest_at(bytes, at + 65),
                                committed_marker: bytes::array_of::<106>(
                                    bytes.subrange(at + 97, at + 203),
                                ),
                            },
                            at + 203,
                        ),
                    )
                },
            }
        }
    } else {
        Err(CoordinatorCommitTargetRestoreError::UnknownSourceKind(bytes[at]))
    }
}

pub open spec fn has_zero_commitment(payload: RestorePayloadModel) -> bool {
    ||| bytes::zero_digest(payload.binding.catalog_digest)
    ||| bytes::zero_digest(payload.binding.archive_store_fingerprint)
    ||| bytes::zero_digest(payload.binding.participant_completion_slot)
    ||| bytes::zero_digest(payload.binding.participant_completion_digest)
    ||| bytes::zero_digest(payload.slot)
    ||| bytes::zero_digest(payload.digest)
    ||| bytes::zero_digest(payload.source.spec_floor_digest())
}

/// The payload that was read names the target's own network, epoch and checkpoint.
pub open spec fn binds_its_target(payload: RestorePayloadModel) -> bool {
    &&& payload.binding.target.network.chain_id == payload.binding.network_chain_id
    &&& payload.binding.target.chain_epoch == payload.binding.old_chain_epoch
    &&& payload.binding.target.checkpoint.height == payload.latest_checkpoint
}

/// Genesis, and no other target, stands without a commit source.
pub open spec fn source_fits_target(payload: RestorePayloadModel) -> bool {
    payload.source is GenesisAnchor == (payload.latest_checkpoint == 0)
}

/// What a payload's own bytes leave to be checked once they were read.
pub open spec fn checked_payload(
    payload: RestorePayloadModel,
    l2: Result<DecodedL2<Seq<u8>>, String>,
) -> Result<RestorePayloadModel, CoordinatorCommitTargetRestoreError> {
    let body = payload.canonical_bytes.subrange(0, payload.canonical_bytes.len() - 32);
    if payload_too_large(payload) {
        Err(CoordinatorCommitTargetRestoreError::BindingTooLarge)
    } else if has_zero_commitment(payload) {
        Err(CoordinatorCommitTargetRestoreError::ZeroCommitment)
    } else if !binds_its_target(payload) {
        Err(CoordinatorCommitTargetRestoreError::BindingMismatch)
    } else if !source_fits_target(payload) {
        Err(CoordinatorCommitTargetRestoreError::FloorTargetMismatch)
    } else {
        match stored_l2(payload.target_l2_stored_value, l2) {
            Err(error) => Err(error),
            Ok(state) => if state.checkpoint_id != payload.latest_checkpoint {
                Err(CoordinatorCommitTargetRestoreError::MaterializedTargetMismatch)
            } else if hash::sha256(restore_slot_preimage(payload.binding)) != payload.slot {
                Err(CoordinatorCommitTargetRestoreError::SlotMismatch)
            } else if restore_digest_of(body) != payload.digest {
                Err(CoordinatorCommitTargetRestoreError::DigestMismatch)
            } else if payload_body(payload) != body {
                Err(CoordinatorCommitTargetRestoreError::NonCanonicalEncoding)
            } else {
                Ok(payload)
            },
        }
    }
}

/// The payload that `bytes` hold. `target`, `marker` and `l2` are what the chain
/// codec, the marker codec and the storage codec make of the target's, the
/// marker's and the stored Layer 2 value's bytes.
pub open spec fn decoded_payload(
    bytes: Seq<u8>,
    target: Result<CanonicalChainRef, String>,
    marker: Result<CoordinatorCommitSourceCommitted, String>,
    l2: Result<DecodedL2<Seq<u8>>, String>,
) -> Result<RestorePayloadModel, CoordinatorCommitTargetRestoreError> {
    if bytes.len() > MAX_PAYLOAD_BYTES {
        Err(CoordinatorCommitTargetRestoreError::PayloadTooLarge)
    } else {
        match binding_at(bytes, target) {
            Err(error) => Err(error),
            Ok((binding, source_at)) => match restore_source_at(bytes, source_at, marker) {
                Err(error) => Err(error),
                Ok((source, at)) => match bytes::counted_at(bytes, at + 8) {
                    None => Err(CoordinatorCommitTargetRestoreError::Truncated),
                    Some((stored, end)) => if end + 72 > bytes.len() {
                        Err(CoordinatorCommitTargetRestoreError::Truncated)
                    } else if end + 72 != bytes.len() {
                        Err(CoordinatorCommitTargetRestoreError::TrailingBytes)
                    } else {
                        checked_payload(
                            CoordinatorCommitTargetRestorePayload {
                                binding,
                                source,
                                target_l2_source_writetime_us: bytes::i64_at(bytes, at),
                                target_l2_stored_value: stored,
                                latest_checkpoint: bytes::u64_at(bytes, end),
                                slot: bytes::digest_at(bytes, end + 8),
                                digest: bytes::digest_at(bytes, end + 40),
                                canonical_bytes: bytes,
                            },
                            l2,
                        )
                    },
                },
            },
        }
    }
}

pub open spec fn restore_result(
    result: Result<RestorePayload, CoordinatorCommitTargetRestoreError>,
) -> Result<RestorePayloadModel, CoordinatorCommitTargetRestoreError> {
    match result {
        Ok(payload) => Ok(payload@),
        Err(error) => Err(error),
    }
}

fn truncated<T>(read: Option<T>) -> (result: Result<T, CoordinatorCommitTargetRestoreError>)
    ensures
        match read {
            Some(value) => result == Ok::<T, CoordinatorCommitTargetRestoreError>(value),
            None => result == Err::<T, _>(CoordinatorCommitTargetRestoreError::Truncated),
        },
{
    match read {
        Some(value) => Ok(value),
        None => Err(CoordinatorCommitTargetRestoreError::Truncated),
    }
}

fn read_binding(cursor: &mut Cursor, target: Result<CanonicalChainRef, String>) -> (result: Result<
    RestoreBinding<Vec<u8>>,
    CoordinatorCommitTargetRestoreError,
>)
    requires
        old(cursor).wf(),
        old(cursor).offset == 0,
    ensures
        final(cursor).wf(),
        final(cursor).bytes@ == old(cursor).bytes@,
        match (result, binding_at(old(cursor).bytes@, target)) {
            (Ok(binding), Ok((found, end))) => binding@ == found && final(cursor).offset == end,
            (Err(error), Err(expected)) => error == expected,
            _ => false,
        },
{
    let magic = truncated(cursor.take(8))?;
    if !bytes_equal(magic, &PAYLOAD_MAGIC) {
        return Err(CoordinatorCommitTargetRestoreError::InvalidMagic);
    }
    let version: u16 = truncated(cursor.u16())?;
    if version != PAYLOAD_VERSION {
        return Err(CoordinatorCommitTargetRestoreError::UnknownVersion(version));
    }
    let network_chain_id: i64 = truncated(cursor.i64())?;
    let old_chain_epoch: u64 = truncated(cursor.u64())?;
    let archiving_head_revision: i64 = truncated(cursor.i64())?;
    let head = truncated(cursor.counted())?;
    let control = truncated(cursor.counted())?;
    let catalog_digest = truncated(cursor.array_32())?;
    let archive_store_fingerprint = truncated(cursor.array_32())?;
    let participant_completion_slot = truncated(cursor.array_32())?;
    let participant_completion_digest = truncated(cursor.array_32())?;
    let _ = truncated(cursor.take(65))?;
    let target = match target {
        Ok(target) => target,
        Err(refused) => {
            return Err(CoordinatorCommitTargetRestoreError::CanonicalRef(refused));
        },
    };
    Ok(
        RestoreBinding {
            network_chain_id,
            old_chain_epoch,
            archiving_head_revision,
            archiving_head_canonical: copy_bytes(head),
            archiving_control_canonical: copy_bytes(control),
            catalog_digest,
            archive_store_fingerprint,
            participant_completion_slot,
            participant_completion_digest,
            target,
        },
    )
}

fn read_source(
    cursor: &mut Cursor,
    marker: Result<CoordinatorCommitSourceCommitted, String>,
) -> (result: Result<CoordinatorTargetRestoreSource, CoordinatorCommitTargetRestoreError>)
    requires
        old(cursor).wf(),
    ensures
        final(cursor).wf(),
        final(cursor).bytes@ == old(cursor).bytes@,
        match (
            result,
            restore_source_at(old(cursor).bytes@, old(cursor).offset as int, marker),
        ) {
            (Ok(source), Ok((found, end))) => source == found && final(cursor).offset == end,
            (Err(error), Err(expected)) => error == expected,
            _ => false,
        },
{
    let kind: u8 = truncated(cursor.u8())?;
    if kind == 1 {
        let floor_digest = truncated(cursor.array_32())?;
        return Ok(CoordinatorTargetRestoreSource::GenesisAnchor { floor_digest });
    }
    if kind != 2 {
        return Err(CoordinatorCommitTargetRestoreError::UnknownSourceKind(kind));
    }
    let floor_digest = truncated(cursor.array_32())?;
    let source_slot = truncated(cursor.array_32())?;
    let source_digest = truncated(cursor.array_32())?;
    let committed_marker: [u8; 106] = array_from::<106>(truncated(cursor.take(106))?);
    match marker {
        Err(refused) => Err(CoordinatorCommitTargetRestoreError::TargetSource(refused)),
        Ok(marker) => if !array_equal::<32>(&marker.slot, &source_slot) || !array_equal::<32>(
            &marker.source_digest,
            &source_digest,
        ) {
            Err(CoordinatorCommitTargetRestoreError::TargetSourceMismatch)
        } else {
            Ok(
                CoordinatorTargetRestoreSource::CommittedSource {
                    floor_digest,
                    source_slot,
                    source_digest,
                    committed_marker,
                },
            )
        },
    }
}

impl CoordinatorCommitTargetRestorePayload<Vec<u8>> {
    fn check(self, l2: Result<DecodedL2<Vec<u8>>, String>) -> (result: Result<
        RestorePayload,
        CoordinatorCommitTargetRestoreError,
    >)
        requires
            self.canonical_bytes@.len() >= 32,
        ensures
            restore_result(result) == checked_payload(self@, l2_outcome(l2)),
    {
        if self.binding.archiving_head_canonical.len() > MAX_BINDING_BYTES
            || self.binding.archiving_control_canonical.len() > MAX_BINDING_BYTES
            || self.target_l2_stored_value.len() > MAX_STORED_L2_BYTES {
            return Err(CoordinatorCommitTargetRestoreError::BindingTooLarge);
        }
        if is_zero_digest(&self.binding.catalog_digest) || is_zero_digest(
            &self.binding.archive_store_fingerprint,
        ) || is_zero_digest(&self.binding.participant_completion_slot) || is_zero_digest(
            &self.binding.participant_completion_digest,
        ) || is_zero_digest(&self.slot) || is_zero_digest(&self.digest) || is_zero_digest(
            self.source.floor_digest(),
        ) {
            return Err(CoordinatorCommitTargetRestoreError::ZeroCommitment);
        }
        if self.binding.target.network.chain_id as i64 != self.binding.network_chain_id
            || self.binding.target.chain_epoch != self.binding.old_chain_epoch
            || self.binding.target.checkpoint.height != self.latest_checkpoint {
            return Err(CoordinatorCommitTargetRestoreError::BindingMismatch);
        }
        let sourceless: bool = match &self.source {
            CoordinatorTargetRestoreSource::GenesisAnchor { .. } => true,
            CoordinatorTargetRestoreSource::CommittedSource { .. } => false,
        };
        if sourceless != (self.latest_checkpoint == 0) {
            return Err(CoordinatorCommitTargetRestoreError::FloorTargetMismatch);
        }
        let state = decode_stored_l2(&self.target_l2_stored_value, l2)?;
        if state.checkpoint_id != self.latest_checkpoint {
            return Err(CoordinatorCommitTargetRestoreError::MaterializedTargetMismatch);
        }
        let expected_slot = restore_slot(&self.binding)?;
        if !array_equal::<32>(&expected_slot, &self.slot) {
            return Err(CoordinatorCommitTargetRestoreError::SlotMismatch);
        }
        let body = vstd::slice::slice_subrange(
            self.canonical_bytes.as_slice(),
            0,
            self.canonical_bytes.len() - 32,
        );
        if !array_equal::<32>(&restore_digest(body), &self.digest) {
            return Err(CoordinatorCommitTargetRestoreError::DigestMismatch);
        }
        let encoded = self.encode_without_digest()?;
        if !bytes_equal(&encoded, body) {
            return Err(CoordinatorCommitTargetRestoreError::NonCanonicalEncoding);
        }
        Ok(self)
    }

    /// Reads a payload. `target`, `marker` and `l2` are what the chain codec, the
    /// marker codec and the storage codec make of the parts that
    /// [`foreign_parts`](Self::foreign_parts) finds.
    pub fn decode_canonical(
        bytes: &[u8],
        target: Result<CanonicalChainRef, String>,
        marker: Result<CoordinatorCommitSourceCommitted, String>,
        l2: Result<DecodedL2<Vec<u8>>, String>,
    ) -> (result: Result<RestorePayload, CoordinatorCommitTargetRestoreError>)
        ensures
            restore_result(result) == decoded_payload(bytes@, target, marker, l2_outcome(l2)),
    {
        if bytes.len() > MAX_PAYLOAD_BYTES {
            return Err(CoordinatorCommitTargetRestoreError::PayloadTooLarge);
        }
        let mut cursor = Cursor::new(bytes);
        let binding = read_binding(&mut cursor, target)?;
        let source = read_source(&mut cursor, marker)?;
        let target_l2_source_writetime_us: i64 = truncated(cursor.i64())?;
        let stored = truncated(cursor.counted())?;
        let latest_checkpoint: u64 = truncated(cursor.u64())?;
        let slot = truncated(cursor.array_32())?;
        let digest = truncated(cursor.array_32())?;
        if !cursor.is_empty() {
            return Err(CoordinatorCommitTargetRestoreError::TrailingBytes);
        }
        let payload = CoordinatorCommitTargetRestorePayload {
            binding,
            source,
            target_l2_source_writetime_us,
            target_l2_stored_value: copy_bytes(stored),
            latest_checkpoint,
            slot,
            digest,
            canonical_bytes: copy_bytes(bytes),
        };
        payload.check(l2)
    }
}

/// The parts of a payload that other codecs read: the target's bytes, the marker's
/// bytes where there is a marker, and the stored Layer 2 value.
#[verifier::ext_equal]
#[derive(Clone, Debug, PartialEq, Eq)]
pub struct RestoreForeignParts<B> {
    pub target: B,
    pub marker: Option<B>,
    pub stored_l2: B,
}

/// Where the parts of a payload that other codecs read stand in its bytes.
pub open spec fn foreign_parts_of(bytes: Seq<u8>) -> Option<RestoreForeignParts<Seq<u8>>> {
    match bytes::counted_at(bytes, 34) {
        None => None,
        Some((_, control_at)) => match bytes::counted_at(bytes, control_at) {
            None => None,
            Some((_, at)) => if at + 194 > bytes.len() {
                None
            } else {
                let marked = bytes[at + 193] == 2;
                let l2_at = if marked {
                    at + 193 + 203 + 8
                } else {
                    at + 193 + 33 + 8
                };
                match bytes::counted_at(bytes, l2_at) {
                    None => None,
                    Some((stored_l2, _)) => Some(
                        RestoreForeignParts {
                            target: bytes.subrange(at + 128, at + 193),
                            marker: if marked {
                                Some(bytes.subrange(at + 193 + 97, at + 193 + 203))
                            } else {
                                None
                            },
                            stored_l2,
                        },
                    ),
                }
            },
        },
    }
}

pub open spec fn foreign_parts_view(parts: Option<RestoreForeignParts<Vec<u8>>>) -> Option<
    RestoreForeignParts<Seq<u8>>,
> {
    match parts {
        None => None,
        Some(parts) => Some(
            RestoreForeignParts {
                target: parts.target@,
                marker: match parts.marker {
                    None => None,
                    Some(marker) => Some(marker@),
                },
                stored_l2: parts.stored_l2@,
            },
        ),
    }
}

/// What a payload made of the given parts holds.
pub open spec fn payload_of(
    head: StoredHeadModel,
    target: CanonicalChainRef,
    catalog_digest: [u8; 32],
    archive_store_fingerprint: [u8; 32],
    participant_completion_slot: [u8; 32],
    participant_completion_digest: [u8; 32],
    source: CoordinatorTargetRestoreSource,
    target_l2: SourceCellModel,
) -> RestorePayloadModel {
    let binding = RestoreBinding {
        network_chain_id: target.network.chain_id as i64,
        old_chain_epoch: target.chain_epoch,
        archiving_head_revision: head.revision,
        archiving_head_canonical: head.canonical.canonical@,
        archiving_control_canonical: head.control_bytes,
        catalog_digest,
        archive_store_fingerprint,
        participant_completion_slot,
        participant_completion_digest,
        target,
    };
    let unsealed = CoordinatorCommitTargetRestorePayload {
        binding,
        source,
        target_l2_source_writetime_us: target_l2.writetime_us,
        target_l2_stored_value: target_l2.bytes,
        latest_checkpoint: target.checkpoint.height,
        slot: hash::sha256(restore_slot_preimage(binding)),
        digest: catalog_digest,
        canonical_bytes: Seq::empty(),
    };
    let body = payload_body(unsealed);
    CoordinatorCommitTargetRestorePayload {
        digest: restore_digest_of(body),
        canonical_bytes: body + restore_digest_of(body)@,
        ..unsealed
    }
}

/// The payload that the given parts make, if they make one.
pub open spec fn admitted_payload(
    head: StoredHeadModel,
    target: CanonicalChainRef,
    catalog_digest: [u8; 32],
    archive_store_fingerprint: [u8; 32],
    participant_completion_slot: [u8; 32],
    participant_completion_digest: [u8; 32],
    source: CoordinatorTargetRestoreSource,
    target_l2: SourceCellModel,
    l2: Result<DecodedL2<Seq<u8>>, String>,
) -> Result<RestorePayloadModel, CoordinatorCommitTargetRestoreError> {
    let payload = payload_of(
        head,
        target,
        catalog_digest,
        archive_store_fingerprint,
        participant_completion_slot,
        participant_completion_digest,
        source,
        target_l2,
    );
    match checked_scope(head, target) {
        Err(error) => Err(error),
        Ok(_) => if bytes::zero_digest(catalog_digest) || bytes::zero_digest(
            archive_store_fingerprint,
        ) || bytes::zero_digest(participant_completion_slot) || bytes::zero_digest(
            participant_completion_digest,
        ) {
            Err(CoordinatorCommitTargetRestoreError::ZeroCommitment)
        } else {
            match stored_l2(target_l2.bytes, l2) {
                Err(error) => Err(error),
                Ok(state) => if state.checkpoint_id != target.checkpoint.height {
                    Err(CoordinatorCommitTargetRestoreError::MaterializedTargetMismatch)
                } else if binding_too_large(payload.binding) {
                    Err(CoordinatorCommitTargetRestoreError::BindingTooLarge)
                } else if payload.canonical_bytes.len() > MAX_PAYLOAD_BYTES {
                    Err(CoordinatorCommitTargetRestoreError::PayloadTooLarge)
                } else {
                    Ok(payload)
                },
            }
        },
    }
}

/// The payload of a rollback to genesis.
pub open spec fn genesis_payload(
    head: StoredHeadModel,
    target: CanonicalChainRef,
    catalog_digest: [u8; 32],
    archive_store_fingerprint: [u8; 32],
    participant_completion_slot: [u8; 32],
    participant_completion_digest: [u8; 32],
    floor: RollbackFloorModel,
    target_l2: SourceCellModel,
    l2: Result<DecodedL2<Seq<u8>>, String>,
    genesis: QEDL2BlockState,
) -> Result<RestorePayloadModel, CoordinatorCommitTargetRestoreError> {
    if floor.floor != target || target.checkpoint.height != 0 {
        Err(CoordinatorCommitTargetRestoreError::FloorTargetMismatch)
    } else {
        match stored_l2(target_l2.bytes, l2) {
            Err(error) => Err(error),
            Ok(state) => if state != genesis {
                Err(CoordinatorCommitTargetRestoreError::FloorTargetMismatch)
            } else {
                admitted_payload(
                    head,
                    target,
                    catalog_digest,
                    archive_store_fingerprint,
                    participant_completion_slot,
                    participant_completion_digest,
                    CoordinatorTargetRestoreSource::GenesisAnchor { floor_digest: floor.digest },
                    target_l2,
                    l2,
                )
            },
        }
    }
}

/// The prepared update that a source carries, if all of it was consumed.
pub open spec fn prepared_of(prepared: Result<DecodedPreparedUpdate, String>) -> Result<
    DecodedPreparedUpdate,
    CoordinatorCommitTargetRestoreError,
> {
    match prepared {
        Err(refused) => Err(CoordinatorCommitTargetRestoreError::TargetSource(refused)),
        Ok(update) => if update.consumed != update.total {
            Err(CoordinatorCommitTargetRestoreError::TrailingPreparedUpdate)
        } else {
            Ok(update)
        },
    }
}

pub open spec fn marks(marker: CoordinatorCommitSourceCommitted, source: CoordinatorCommitSource) -> bool {
    marker.slot == source.slot && marker.source_digest == source.digest
}

/// The payload of a rollback to a target that a commit source backs.
pub open spec fn committed_payload(
    head: StoredHeadModel,
    target: CanonicalChainRef,
    catalog_digest: [u8; 32],
    archive_store_fingerprint: [u8; 32],
    participant_completion_slot: [u8; 32],
    participant_completion_digest: [u8; 32],
    floor: RollbackFloorModel,
    source: CoordinatorCommitSource,
    marker: CoordinatorCommitSourceCommitted,
    target_l2: SourceCellModel,
    inventory: Result<(), String>,
    prepared: Result<DecodedPreparedUpdate, String>,
    l2: Result<DecodedL2<Seq<u8>>, String>,
) -> Result<RestorePayloadModel, CoordinatorCommitTargetRestoreError> {
    if source.candidate != target || !marks(marker, source) {
        Err(CoordinatorCommitTargetRestoreError::TargetSourceMismatch)
    } else if floor.floor.network != target.network || floor.floor.chain_epoch != target.chain_epoch
        || floor.floor.checkpoint.height >= target.checkpoint.height {
        Err(CoordinatorCommitTargetRestoreError::FloorTargetMismatch)
    } else if inventory is Err {
        Err(CoordinatorCommitTargetRestoreError::TargetSource(inventory->Err_0))
    } else {
        match prepared_of(prepared) {
            Err(error) => Err(error),
            Ok(update) => match stored_l2(target_l2.bytes, l2) {
                Err(error) => Err(error),
                Ok(state) => if update.block_state != state || update.checkpoint_id
                    != target.checkpoint.height || update.block_state.checkpoint_id
                    != target.checkpoint.height {
                    Err(CoordinatorCommitTargetRestoreError::MaterializedTargetMismatch)
                } else {
                    admitted_payload(
                        head,
                        target,
                        catalog_digest,
                        archive_store_fingerprint,
                        participant_completion_slot,
                        participant_completion_digest,
                        CoordinatorTargetRestoreSource::CommittedSource {
                            floor_digest: floor.digest,
                            source_slot: source.slot,
                            source_digest: source.digest,
                            committed_marker: marker.canonical,
                        },
                        target_l2,
                        l2,
                    )
                },
            },
        }
    }
}

fn decode_prepared(prepared: Result<DecodedPreparedUpdate, String>) -> (result: Result<
    DecodedPreparedUpdate,
    CoordinatorCommitTargetRestoreError,
>)
    ensures
        result == prepared_of(prepared),
{
    match prepared {
        Err(refused) => Err(CoordinatorCommitTargetRestoreError::TargetSource(refused)),
        Ok(update) => if update.consumed != update.total {
            Err(CoordinatorCommitTargetRestoreError::TrailingPreparedUpdate)
        } else {
            Ok(update)
        },
    }
}

/// What the payload of a selected rollback is bound to.
pub open spec fn selected_by(
    binding: RestoreBinding<Seq<u8>>,
    head: StoredHeadModel,
    target: CanonicalChainRef,
    catalog_digest: [u8; 32],
    archive_store_fingerprint: [u8; 32],
    participant_completion_slot: [u8; 32],
    participant_completion_digest: [u8; 32],
) -> bool {
    binding =~= (RestoreBinding {
        network_chain_id: target.network.chain_id as i64,
        old_chain_epoch: target.chain_epoch,
        archiving_head_revision: head.revision,
        archiving_head_canonical: head.canonical.canonical@,
        archiving_control_canonical: head.control_bytes,
        catalog_digest,
        archive_store_fingerprint,
        participant_completion_slot,
        participant_completion_digest,
        target,
    })
}

impl CoordinatorCommitTargetRestorePayload<Vec<u8>> {
    /// The parts of a payload's bytes that other codecs read. `None` where the
    /// bytes end before them.
    pub fn foreign_parts(bytes: &[u8]) -> (parts: Option<RestoreForeignParts<Vec<u8>>>)
        ensures
            foreign_parts_view(parts) == foreign_parts_of(bytes@),
    {
        let mut cursor = Cursor::new(bytes);
        let _ = cursor.take(34)?;
        let _ = cursor.counted()?;
        let _ = cursor.counted()?;
        let _ = cursor.take(128)?;
        let target = copy_bytes(cursor.take(65)?);
        let kind: u8 = cursor.u8()?;
        let marker: Option<Vec<u8>> = if kind == 2 {
            let _ = cursor.take(96)?;
            Some(copy_bytes(cursor.take(106)?))
        } else {
            let _ = cursor.take(32)?;
            None
        };
        let _ = cursor.take(8)?;
        let stored_l2 = copy_bytes(cursor.counted()?);
        Some(RestoreForeignParts { target, marker, stored_l2 })
    }

    fn try_from_parts(
        archiving_head: &StoredHead,
        target: CanonicalChainRef,
        catalog_digest: [u8; 32],
        archive_store_fingerprint: [u8; 32],
        participant_completion_slot: [u8; 32],
        participant_completion_digest: [u8; 32],
        source: CoordinatorTargetRestoreSource,
        target_l2: &SourceCell,
        state: &QEDL2BlockState,
        l2: Ghost<Result<DecodedL2<Seq<u8>>, String>>,
    ) -> (result: Result<RestorePayload, CoordinatorCommitTargetRestoreError>)
        requires
            stored_l2(target_l2@.bytes, l2@) == Ok::<
                QEDL2BlockState,
                CoordinatorCommitTargetRestoreError,
            >(*state),
        ensures
            restore_result(result) == admitted_payload(
                archiving_head@,
                target,
                catalog_digest,
                archive_store_fingerprint,
                participant_completion_slot,
                participant_completion_digest,
                source,
                target_l2@,
                l2@,
            ),
    {
        validate_scope(archiving_head, &target)?;
        if is_zero_digest(&catalog_digest) || is_zero_digest(&archive_store_fingerprint)
            || is_zero_digest(&participant_completion_slot) || is_zero_digest(
            &participant_completion_digest,
        ) {
            return Err(CoordinatorCommitTargetRestoreError::ZeroCommitment);
        }
        if state.checkpoint_id != target.checkpoint.height {
            return Err(CoordinatorCommitTargetRestoreError::MaterializedTargetMismatch);
        }
        let binding = RestoreBinding {
            network_chain_id: target.network.chain_id as i64,
            old_chain_epoch: target.chain_epoch,
            archiving_head_revision: archiving_head.revision,
            archiving_head_canonical: copy_bytes(&archiving_head.canonical.canonical),
            archiving_control_canonical: copy_bytes(&archiving_head.control_bytes),
            catalog_digest,
            archive_store_fingerprint,
            participant_completion_slot,
            participant_completion_digest,
            target,
        };
        let slot = restore_slot(&binding)?;
        let mut payload = CoordinatorCommitTargetRestorePayload {
            binding,
            source,
            target_l2_source_writetime_us: target_l2.writetime_us,
            target_l2_stored_value: copy_bytes(&target_l2.bytes),
            latest_checkpoint: target.checkpoint.height,
            slot,
            digest: catalog_digest,
            canonical_bytes: Vec::new(),
        };
        let ghost unsealed = payload@;
        let mut canonical: Vec<u8> = payload.encode_without_digest()?;
        let digest = restore_digest(&canonical);
        push_bytes(&mut canonical, &digest);
        if canonical.len() > MAX_PAYLOAD_BYTES {
            return Err(CoordinatorCommitTargetRestoreError::PayloadTooLarge);
        }
        payload.digest = digest;
        payload.canonical_bytes = canonical;
        proof {
            let expected = payload_of(
                archiving_head@,
                target,
                catalog_digest,
                archive_store_fingerprint,
                participant_completion_slot,
                participant_completion_digest,
                source,
                target_l2@,
            );
            assert(payload@ =~= expected);
        }
        Ok(payload)
    }

    /// The payload of a rollback to genesis. `l2` is what the storage codec makes
    /// of the target's Layer 2 cell, `genesis` the state that genesis has.
    pub fn try_from_genesis_anchor(
        archiving_head: &StoredHead,
        target: CanonicalChainRef,
        catalog_digest: [u8; 32],
        archive_store_fingerprint: [u8; 32],
        participant_completion_slot: [u8; 32],
        participant_completion_digest: [u8; 32],
        floor: &RollbackFloor,
        target_l2: &SourceCell,
        l2: Result<DecodedL2<Vec<u8>>, String>,
        genesis: &QEDL2BlockState,
    ) -> (result: Result<RestorePayload, CoordinatorCommitTargetRestoreError>)
        ensures
            restore_result(result) == genesis_payload(
                archiving_head@,
                target,
                catalog_digest,
                archive_store_fingerprint,
                participant_completion_slot,
                participant_completion_digest,
                floor@,
                target_l2@,
                l2_outcome(l2),
                *genesis,
            ),
    {
        if !floor.floor.same(&target) || target.checkpoint.height != 0 {
            return Err(CoordinatorCommitTargetRestoreError::FloorTargetMismatch);
        }
        let ghost outcome = l2_outcome(l2);
        let state = decode_stored_l2(&target_l2.bytes, l2)?;
        if state != *genesis {
            return Err(CoordinatorCommitTargetRestoreError::FloorTargetMismatch);
        }
        Self::try_from_parts(
            archiving_head,
            target,
            catalog_digest,
            archive_store_fingerprint,
            participant_completion_slot,
            participant_completion_digest,
            CoordinatorTargetRestoreSource::GenesisAnchor { floor_digest: floor.digest },
            target_l2,
            &state,
            Ghost(outcome),
        )
    }

    /// The payload of a rollback to a target that a commit source backs.
    /// `inventory` is whether the source and its marker make a physical inventory,
    /// `prepared` what the storage codec reads from the source's prepared update,
    /// `l2` what it makes of the target's Layer 2 cell.
    pub fn try_from_committed_source(
        archiving_head: &StoredHead,
        target: CanonicalChainRef,
        catalog_digest: [u8; 32],
        archive_store_fingerprint: [u8; 32],
        participant_completion_slot: [u8; 32],
        participant_completion_digest: [u8; 32],
        floor: &RollbackFloor,
        source: &CoordinatorCommitSource,
        marker: CoordinatorCommitSourceCommitted,
        target_l2: &SourceCell,
        inventory: Result<(), String>,
        prepared: Result<DecodedPreparedUpdate, String>,
        l2: Result<DecodedL2<Vec<u8>>, String>,
    ) -> (result: Result<RestorePayload, CoordinatorCommitTargetRestoreError>)
        ensures
            restore_result(result) == committed_payload(
                archiving_head@,
                target,
                catalog_digest,
                archive_store_fingerprint,
                participant_completion_slot,
                participant_completion_digest,
                floor@,
                *source,
                marker,
                target_l2@,
                inventory,
                prepared,
                l2_outcome(l2),
            ),
    {
        if !source.candidate.same(&target) || !array_equal::<32>(&marker.slot, &source.slot)
            || !array_equal::<32>(&marker.source_digest, &source.digest) {
            return Err(CoordinatorCommitTargetRestoreError::TargetSourceMismatch);
        }
        if floor.floor.network != target.network || floor.floor.chain_epoch != target.chain_epoch
            || floor.floor.checkpoint.height >= target.checkpoint.height {
            return Err(CoordinatorCommitTargetRestoreError::FloorTargetMismatch);
        }
        match inventory {
            Err(refused) => {
                return Err(CoordinatorCommitTargetRestoreError::TargetSource(refused));
            },
            Ok(_) => {},
        }
        let update = decode_prepared(prepared)?;
        let ghost outcome = l2_outcome(l2);
        let state = decode_stored_l2(&target_l2.bytes, l2)?;
        if update.block_state != state || update.checkpoint_id != target.checkpoint.height
            || update.block_state.checkpoint_id != target.checkpoint.height {
            return Err(CoordinatorCommitTargetRestoreError::MaterializedTargetMismatch);
        }
        Self::try_from_parts(
            archiving_head,
            target,
            catalog_digest,
            archive_store_fingerprint,
            participant_completion_slot,
            participant_completion_digest,
            CoordinatorTargetRestoreSource::CommittedSource {
                floor_digest: floor.digest,
                source_slot: source.slot,
                source_digest: source.digest,
                committed_marker: marker.canonical,
            },
            target_l2,
            &state,
            Ghost(outcome),
        )
    }

    /// Whether this is the payload of exactly the selected rollback.
    pub fn validate_selected(
        &self,
        archiving_head: &StoredHead,
        target: &CanonicalChainRef,
        catalog_digest: &[u8; 32],
        archive_store_fingerprint: &[u8; 32],
        participant_completion_slot: &[u8; 32],
        participant_completion_digest: &[u8; 32],
    ) -> (result: Result<(), CoordinatorCommitTargetRestoreError>)
        ensures
            result == (if selected_by(
                self@.binding,
                archiving_head@,
                *target,
                *catalog_digest,
                *archive_store_fingerprint,
                *participant_completion_slot,
                *participant_completion_digest,
            ) {
                Ok::<(), _>(())
            } else {
                Err(CoordinatorCommitTargetRestoreError::BindingMismatch)
            }),
    {
        if self.binding.network_chain_id != target.network.chain_id as i64
            || self.binding.old_chain_epoch != target.chain_epoch
            || self.binding.archiving_head_revision != archiving_head.revision || !bytes_equal(
            &self.binding.archiving_head_canonical,
            &archiving_head.canonical.canonical,
        ) || !bytes_equal(
            &self.binding.archiving_control_canonical,
            &archiving_head.control_bytes,
        ) || !array_equal::<32>(&self.binding.catalog_digest, catalog_digest)
            || !array_equal::<32>(
            &self.binding.archive_store_fingerprint,
            archive_store_fingerprint,
        ) || !array_equal::<32>(
            &self.binding.participant_completion_slot,
            participant_completion_slot,
        ) || !array_equal::<32>(
            &self.binding.participant_completion_digest,
            participant_completion_digest,
        ) || !self.binding.target.same(target) {
            Err(CoordinatorCommitTargetRestoreError::BindingMismatch)
        } else {
            Ok(())
        }
    }

    pub fn catalog_digest(&self) -> (digest: &[u8; 32])
        ensures
            *digest == self@.binding.catalog_digest,
    {
        &self.binding.catalog_digest
    }

    pub fn archive_store_fingerprint(&self) -> (fingerprint: &[u8; 32])
        ensures
            *fingerprint == self@.binding.archive_store_fingerprint,
    {
        &self.binding.archive_store_fingerprint
    }

    pub fn participant_completion_slot(&self) -> (slot: &[u8; 32])
        ensures
            *slot == self@.binding.participant_completion_slot,
    {
        &self.binding.participant_completion_slot
    }

    pub fn participant_completion_digest(&self) -> (digest: &[u8; 32])
        ensures
            *digest == self@.binding.participant_completion_digest,
    {
        &self.binding.participant_completion_digest
    }

    pub fn slot(&self) -> (slot: &[u8; 32])
        ensures
            *slot == self@.slot,
    {
        &self.slot
    }

    pub fn digest(&self) -> (digest: &[u8; 32])
        ensures
            *digest == self@.digest,
    {
        &self.digest
    }

    pub fn canonical_bytes(&self) -> (bytes: &[u8])
        ensures
            bytes@ == self@.canonical_bytes,
    {
        self.canonical_bytes.as_slice()
    }
}

/// The head of a payload reads back, whatever follows it.
proof fn lemma_binding_reads_back(binding: RestoreBinding<Seq<u8>>, tail: Seq<u8>)
    requires
        !binding_too_large(binding),
    ensures
        binding_at(binding_image(binding) + tail, Ok(binding.target)) == Ok::<
            (RestoreBinding<Seq<u8>>, int),
            CoordinatorCommitTargetRestoreError,
        >((binding, binding_image(binding).len() as int)),
{
    bytes::lemma_be_lens();
    let head = binding.archiving_head_canonical;
    let control = binding.archiving_control_canonical;
    let s = binding_image(binding) + tail;
    let front = PAYLOAD_MAGIC@ + bytes::be16(PAYLOAD_VERSION) + bytes::be_i64(
        binding.network_chain_id,
    ) + bytes::be64(binding.old_chain_epoch) + bytes::be_i64(binding.archiving_head_revision);
    assert(front.subrange(0, 8) =~= PAYLOAD_MAGIC@);
    assert(front.subrange(8, 10) =~= bytes::be16(PAYLOAD_VERSION));
    assert(front.subrange(10, 18) =~= bytes::be_i64(binding.network_chain_id));
    assert(front.subrange(18, 26) =~= bytes::be64(binding.old_chain_epoch));
    assert(front.subrange(26, 34) =~= bytes::be_i64(binding.archiving_head_revision));
    bytes::lemma_write_then_read(front, 8);
    bytes::lemma_write_then_read(front, 10);
    bytes::lemma_write_then_read(front, 18);
    bytes::lemma_write_then_read(front, 26);
    let with_head = front + bytes::counted(head);
    let with_control = with_head + bytes::counted(control);
    let control_at = 38 + head.len() as int;
    let at = control_at + 4 + control.len();
    assert(with_head.len() == control_at);
    assert(with_control.len() == at);
    assert(s.subrange(0, 34) =~= front);
    assert(s.subrange(34, control_at) =~= bytes::counted(head));
    assert(s.subrange(control_at, at) =~= bytes::counted(control));
    bytes::lemma_read_in_front(front, s);
    bytes::lemma_counted(s, 34, head);
    bytes::lemma_counted(s, control_at, control);
    assert(s.subrange(at, at + 32) =~= binding.catalog_digest@);
    assert(s.subrange(at + 32, at + 32 + 32) =~= binding.archive_store_fingerprint@);
    assert(s.subrange(at + 64, at + 64 + 32) =~= binding.participant_completion_slot@);
    assert(s.subrange(at + 96, at + 96 + 32) =~= binding.participant_completion_digest@);
    bytes::lemma_write_then_read(s, at);
    bytes::lemma_write_then_read(s, at + 32);
    bytes::lemma_write_then_read(s, at + 64);
    bytes::lemma_write_then_read(s, at + 96);
    assert(binding_image(binding).len() == at + 193);
}

/// Whether a decoded marker is the one that a source carries.
pub open spec fn marker_agrees(
    source: CoordinatorTargetRestoreSource,
    marker: Result<CoordinatorCommitSourceCommitted, String>,
) -> bool {
    match source {
        CoordinatorTargetRestoreSource::GenesisAnchor { .. } => true,
        CoordinatorTargetRestoreSource::CommittedSource { source_slot, source_digest, .. } => {
            &&& marker is Ok
            &&& (marker->Ok_0).slot == source_slot
            &&& (marker->Ok_0).source_digest == source_digest
        },
    }
}

/// What backs the target reads back, whatever stands around it.
proof fn lemma_source_reads_back(
    s: Seq<u8>,
    at: int,
    source: CoordinatorTargetRestoreSource,
    marker: Result<CoordinatorCommitSourceCommitted, String>,
)
    requires
        0 <= at,
        at + source.image().len() <= s.len(),
        s.subrange(at, at + source.image().len()) == source.image(),
        marker_agrees(source, marker),
    ensures
        restore_source_at(s, at, marker) == Ok::<
            (CoordinatorTargetRestoreSource, int),
            CoordinatorCommitTargetRestoreError,
        >((source, at + source.image().len())),
{
    let image = source.image();
    let part = s.subrange(at, at + image.len());
    assert(part[0] == s[at]);
    assert(s.subrange(at + 1, at + 1 + 32) =~= image.subrange(1, 33));
    assert(image.subrange(1, 33) =~= source.spec_floor_digest()@);
    bytes::lemma_write_then_read(s, at + 1);
    match source {
        CoordinatorTargetRestoreSource::GenesisAnchor { .. } => {},
        CoordinatorTargetRestoreSource::CommittedSource {
            floor_digest,
            source_slot,
            source_digest,
            committed_marker,
        } => {
            assert(s.subrange(at + 33, at + 33 + 32) =~= image.subrange(33, 65));
            assert(image.subrange(33, 65) =~= source_slot@);
            bytes::lemma_write_then_read(s, at + 33);
            assert(s.subrange(at + 65, at + 65 + 32) =~= image.subrange(65, 97));
            assert(image.subrange(65, 97) =~= source_digest@);
            bytes::lemma_write_then_read(s, at + 65);
            assert(s.subrange(at + 97, at + 203) =~= image.subrange(97, 203));
            assert(image.subrange(97, 203) =~= committed_marker@);
            bytes::lemma_array_of::<106>(committed_marker);
        },
    }
}

/// The part of a payload behind what backs its target, without the digest.
spec fn payload_tail(payload: RestorePayloadModel) -> Seq<u8> {
    bytes::be_i64(payload.target_l2_source_writetime_us) + bytes::counted(
        payload.target_l2_stored_value,
    ) + bytes::be64(payload.latest_checkpoint) + payload.slot@
}

proof fn lemma_payload_splits(payload: RestorePayloadModel)
    ensures
        ({
            let head = binding_image(payload.binding);
            let image = payload.source.image();
            let tail = payload_tail(payload) + payload.digest@;
            let s = payload_body(payload) + payload.digest@;
            &&& s == head + (image + tail)
            &&& s == (head + image) + tail
            &&& s.subrange(head.len() as int, head.len() as int + image.len()) == image
            &&& s.subrange(0, s.len() - 32) == payload_body(payload)
        }),
{
    let head = binding_image(payload.binding);
    let image = payload.source.image();
    lemma_split(
        head,
        image,
        bytes::be_i64(payload.target_l2_source_writetime_us),
        bytes::counted(payload.target_l2_stored_value),
        bytes::be64(payload.latest_checkpoint),
        payload.slot@,
        payload.digest@,
    );
}

proof fn lemma_split(
    a: Seq<u8>,
    b: Seq<u8>,
    c: Seq<u8>,
    d: Seq<u8>,
    e: Seq<u8>,
    f: Seq<u8>,
    g: Seq<u8>,
)
    ensures
        (a + b + c + d + e + f) + g == a + (b + ((c + d + e + f) + g)),
        (a + b + c + d + e + f) + g == (a + b) + ((c + d + e + f) + g),
        ((a + b + c + d + e + f) + g).subrange(a.len() as int, a.len() as int + b.len()) == b,
        ((a + b + c + d + e + f) + g).subrange(0, ((a + b + c + d + e + f) + g).len() - g.len())
            == a + b + c + d + e + f,
{
    assert((a + b + c + d + e + f) + g =~= a + (b + ((c + d + e + f) + g)));
    assert((a + b + c + d + e + f) + g =~= (a + b) + ((c + d + e + f) + g));
    assert(((a + b + c + d + e + f) + g).subrange(a.len() as int, a.len() as int + b.len()) =~= b);
    assert(((a + b + c + d + e + f) + g).subrange(
        0,
        ((a + b + c + d + e + f) + g).len() - g.len(),
    ) =~= a + b + c + d + e + f);
}

/// The end of a payload reads back, whatever stands before it.
proof fn lemma_tail_reads_back(front: Seq<u8>, payload: RestorePayloadModel)
    requires
        !payload_too_large(payload),
    ensures
        ({
            let s = front + (payload_tail(payload) + payload.digest@);
            let at = front.len() as int;
            let end = at + 12 + payload.target_l2_stored_value.len();
            &&& bytes::i64_at(s, at) == payload.target_l2_source_writetime_us
            &&& bytes::counted_at(s, at + 8) == Some((payload.target_l2_stored_value, end))
            &&& bytes::u64_at(s, end) == payload.latest_checkpoint
            &&& bytes::digest_at(s, end + 8) == payload.slot
            &&& bytes::digest_at(s, end + 40) == payload.digest
            &&& s.len() == end + 72
        }),
{
    bytes::lemma_be_lens();
    let s = front + (payload_tail(payload) + payload.digest@);
    let stored = payload.target_l2_stored_value;
    let at = front.len() as int;
    let end = at + 12 + stored.len();
    assert(s.subrange(at, at + 8) =~= bytes::be_i64(payload.target_l2_source_writetime_us));
    bytes::lemma_write_then_read(s, at);
    assert(s.subrange(at + 8, at + 8 + 4 + stored.len()) =~= bytes::counted(stored));
    bytes::lemma_counted(s, at + 8, stored);
    assert(s.subrange(end, end + 8) =~= bytes::be64(payload.latest_checkpoint));
    bytes::lemma_write_then_read(s, end);
    assert(s.subrange(end + 8, end + 8 + 32) =~= payload.slot@);
    bytes::lemma_write_then_read(s, end + 8);
    assert(s.subrange(end + 40, end + 40 + 32) =~= payload.digest@);
    bytes::lemma_write_then_read(s, end + 40);
}

/// A payload that is sealed, holds no zero commitment and binds its target decodes
/// from its canonical bytes to itself.
#[verifier::spinoff_prover]
#[verifier::rlimit(40)]
pub proof fn law_restore_payload_round_trips(
    payload: RestorePayloadModel,
    marker: Result<CoordinatorCommitSourceCommitted, String>,
    l2: Result<DecodedL2<Seq<u8>>, String>,
)
    requires
        payload.canonical_bytes == payload_body(payload) + payload.digest@,
        payload.canonical_bytes.len() <= MAX_PAYLOAD_BYTES,
        payload.digest == restore_digest_of(payload_body(payload)),
        payload.slot == hash::sha256(restore_slot_preimage(payload.binding)),
        !payload_too_large(payload),
        !has_zero_commitment(payload),
        binds_its_target(payload),
        source_fits_target(payload),
        marker_agrees(payload.source, marker),
        stored_l2(payload.target_l2_stored_value, l2) matches Ok(state) && state.checkpoint_id
            == payload.latest_checkpoint,
    ensures
        decoded_payload(payload.canonical_bytes, Ok(payload.binding.target), marker, l2) == Ok::<
            RestorePayloadModel,
            CoordinatorCommitTargetRestoreError,
        >(payload),
{
    let s = payload.canonical_bytes;
    let head = binding_image(payload.binding);
    let image = payload.source.image();
    let tail = payload_tail(payload) + payload.digest@;
    lemma_payload_splits(payload);
    lemma_binding_reads_back(payload.binding, image + tail);
    lemma_source_reads_back(s, head.len() as int, payload.source, marker);
    lemma_tail_reads_back(head + image, payload);
}

/// A payload made from its parts decodes from its canonical bytes to itself, unless
/// one of the three digests that only hashing fixes is all zero.
#[verifier::spinoff_prover]
#[verifier::rlimit(40)]
pub proof fn law_admitted_restore_payload_round_trips(
    head: StoredHeadModel,
    target: CanonicalChainRef,
    catalog_digest: [u8; 32],
    archive_store_fingerprint: [u8; 32],
    participant_completion_slot: [u8; 32],
    participant_completion_digest: [u8; 32],
    floor: RollbackFloorModel,
    source: CoordinatorCommitSource,
    marker: CoordinatorCommitSourceCommitted,
    target_l2: SourceCellModel,
    inventory: Result<(), String>,
    prepared: Result<DecodedPreparedUpdate, String>,
    l2: Result<DecodedL2<Seq<u8>>, String>,
    genesis: QEDL2BlockState,
)
    ensures
        ({
            let at_genesis = genesis_payload(
                head,
                target,
                catalog_digest,
                archive_store_fingerprint,
                participant_completion_slot,
                participant_completion_digest,
                floor,
                target_l2,
                l2,
                genesis,
            );
            at_genesis matches Ok(payload) ==> !bytes::zero_digest(payload.slot)
                && !bytes::zero_digest(payload.digest) && !bytes::zero_digest(floor.digest)
                ==> decoded_payload(payload.canonical_bytes, Ok(target), Ok(marker), l2)
                == at_genesis
        }),
        ({
            let committed = committed_payload(
                head,
                target,
                catalog_digest,
                archive_store_fingerprint,
                participant_completion_slot,
                participant_completion_digest,
                floor,
                source,
                marker,
                target_l2,
                inventory,
                prepared,
                l2,
            );
            committed matches Ok(payload) ==> !bytes::zero_digest(payload.slot)
                && !bytes::zero_digest(payload.digest) && !bytes::zero_digest(floor.digest)
                ==> decoded_payload(payload.canonical_bytes, Ok(target), Ok(marker), l2)
                == committed
        }),
{
    let at_genesis = genesis_payload(
        head,
        target,
        catalog_digest,
        archive_store_fingerprint,
        participant_completion_slot,
        participant_completion_digest,
        floor,
        target_l2,
        l2,
        genesis,
    );
    if let Ok(payload) = at_genesis {
        if !has_zero_commitment(payload) {
            law_restore_payload_round_trips(payload, Ok(marker), l2);
        }
    }
    let committed = committed_payload(
        head,
        target,
        catalog_digest,
        archive_store_fingerprint,
        participant_completion_slot,
        participant_completion_digest,
        floor,
        source,
        marker,
        target_l2,
        inventory,
        prepared,
        l2,
    );
    if let Ok(payload) = committed {
        if !has_zero_commitment(payload) {
            law_restore_payload_round_trips(payload, Ok(marker), l2);
        }
    }
}

/// Bytes that decode are the only bytes of what they decode to: the payload keeps
/// them, writes them again, and its slot and digest are those of its contents.
#[verifier::spinoff_prover]
#[verifier::rlimit(40)]
pub proof fn law_decoded_restore_payload_is_canonical(
    bytes: Seq<u8>,
    target: Result<CanonicalChainRef, String>,
    marker: Result<CoordinatorCommitSourceCommitted, String>,
    l2: Result<DecodedL2<Seq<u8>>, String>,
)
    ensures
        decoded_payload(bytes, target, marker, l2) matches Ok(payload) ==> {
            &&& payload.canonical_bytes == bytes
            &&& bytes == payload_body(payload) + payload.digest@
            &&& payload.digest == restore_digest_of(payload_body(payload))
            &&& payload.slot == hash::sha256(restore_slot_preimage(payload.binding))
            &&& binds_its_target(payload)
            &&& source_fits_target(payload)
        },
{
    if let Ok(payload) = decoded_payload(bytes, target, marker, l2) {
        bytes::lemma_read_then_write(bytes, bytes.len() - 32);
        assert(bytes =~= bytes.subrange(0, bytes.len() - 32) + bytes.subrange(
            bytes.len() - 32,
            bytes.len() as int,
        ));
    }
}

/// A counted part reads alike in front of whatever follows.
proof fn lemma_counted_in_front(front: Seq<u8>, whole: Seq<u8>, at: int)
    requires
        0 <= at,
        front.len() <= whole.len(),
        whole.subrange(0, front.len() as int) == front,
    ensures
        bytes::counted_at(front, at) matches Some((part, end)) ==> at + 4 <= end <= front.len()
            && bytes::counted_at(whole, at) == Some((part, end)),
{
    bytes::lemma_read_in_front(front, whole);
    if let Some((part, end)) = bytes::counted_at(front, at) {
        assert(whole.subrange(at + 4, end) =~= front.subrange(at + 4, end));
    }
}

/// Of two strings of which one goes on where the other ends, at most one decodes: no
/// proper prefix and no extension of an accepted payload is accepted, whatever the other
/// codecs make of its parts.
#[verifier::spinoff_prover]
#[verifier::rlimit(40)]
pub proof fn law_accepted_restore_payloads_are_prefix_free(
    front: Seq<u8>,
    whole: Seq<u8>,
    targets: (Result<CanonicalChainRef, String>, Result<CanonicalChainRef, String>),
    markers: (
        Result<CoordinatorCommitSourceCommitted, String>,
        Result<CoordinatorCommitSourceCommitted, String>,
    ),
    l2s: (Result<DecodedL2<Seq<u8>>, String>, Result<DecodedL2<Seq<u8>>, String>),
)
    requires
        front.len() < whole.len(),
        whole.subrange(0, front.len() as int) == front,
    ensures
        decoded_payload(front, targets.0, markers.0, l2s.0) is Err || decoded_payload(
            whole,
            targets.1,
            markers.1,
            l2s.1,
        ) is Err,
{
    if decoded_payload(front, targets.0, markers.0, l2s.0) is Ok {
        let (binding, source_at) = binding_at(front, targets.0)->Ok_0;
        let (source, at) = restore_source_at(front, source_at, markers.0)->Ok_0;
        let (head, control_at) = bytes::counted_at(front, 34)->0;
        lemma_counted_in_front(front, whole, 34);
        lemma_counted_in_front(front, whole, control_at);
        lemma_counted_in_front(front, whole, at + 8);
        assert(whole[source_at] == front[source_at]) by {
            bytes::lemma_read_in_front(front, whole);
        }
    }
}

/// The parts that other codecs read from a payload that decodes are the payload's own.
#[verifier::spinoff_prover]
#[verifier::rlimit(60)]
pub proof fn law_restore_parts_are_its_own(
    bytes: Seq<u8>,
    target: Result<CanonicalChainRef, String>,
    marker: Result<CoordinatorCommitSourceCommitted, String>,
    l2: Result<DecodedL2<Seq<u8>>, String>,
)
    ensures
        decoded_payload(bytes, target, marker, l2) matches Ok(payload) ==> foreign_parts_of(bytes)
            == Some(
            RestoreForeignParts {
                target: payload.binding.target.canonical@,
                marker: match payload.source {
                    CoordinatorTargetRestoreSource::CommittedSource { committed_marker, .. } => {
                        Some(committed_marker@)
                    },
                    CoordinatorTargetRestoreSource::GenesisAnchor { .. } => None,
                },
                stored_l2: payload.target_l2_stored_value,
            },
        ),
{
    if let Ok(payload) = decoded_payload(bytes, target, marker, l2) {
        law_decoded_restore_payload_is_canonical(bytes, target, marker, l2);
        bytes::lemma_be_lens();
        let head = payload.binding.archiving_head_canonical;
        let control = payload.binding.archiving_control_canonical;
        let control_at = 34 + 4 + head.len() as int;
        let at = control_at + 4 + control.len() as int;
        assert(bytes.subrange(34, control_at) =~= bytes::counted(head));
        bytes::lemma_counted(bytes, 34, head);
        assert(bytes.subrange(control_at, at) =~= bytes::counted(control));
        bytes::lemma_counted(bytes, control_at, control);
        assert(bytes.subrange(at + 128, at + 193) =~= payload.binding.target.canonical@);
        let image = payload.source.image();
        assert(bytes.subrange(at + 193, at + 193 + image.len()) =~= image);
        assert(bytes[at + 193] == image[0]);
        let l2_at = at + 193 + image.len() as int + 8;
        let stored = payload.target_l2_stored_value;
        assert(bytes.subrange(l2_at, l2_at + 4 + stored.len()) =~= bytes::counted(stored));
        bytes::lemma_counted(bytes, l2_at, stored);
        if let CoordinatorTargetRestoreSource::CommittedSource { committed_marker, .. } =
            payload.source {
            assert(image.subrange(97, 203) =~= committed_marker@);
            assert(bytes.subrange(at + 193 + 97, at + 193 + 203) =~= image.subrange(97, 203));
        }
    }
}

/// The slot of a payload is fixed by what the payload is bound to. What was observed
/// at the target, its bytes, its write time and what backs it, does not move it.
pub proof fn law_restore_slot_ignores_the_observation(
    head: StoredHeadModel,
    target: CanonicalChainRef,
    catalog_digest: [u8; 32],
    archive_store_fingerprint: [u8; 32],
    participant_completion_slot: [u8; 32],
    participant_completion_digest: [u8; 32],
    source: CoordinatorTargetRestoreSource,
    target_l2: SourceCellModel,
    other_source: CoordinatorTargetRestoreSource,
    other_l2: SourceCellModel,
)
    ensures
        payload_of(
            head,
            target,
            catalog_digest,
            archive_store_fingerprint,
            participant_completion_slot,
            participant_completion_digest,
            source,
            target_l2,
        ).slot == payload_of(
            head,
            target,
            catalog_digest,
            archive_store_fingerprint,
            participant_completion_slot,
            participant_completion_digest,
            other_source,
            other_l2,
        ).slot,
{
}

/// A payload that was admitted is the one its own selection accepts.
pub proof fn law_admitted_payload_is_selected(
    head: StoredHeadModel,
    target: CanonicalChainRef,
    catalog_digest: [u8; 32],
    archive_store_fingerprint: [u8; 32],
    participant_completion_slot: [u8; 32],
    participant_completion_digest: [u8; 32],
    source: CoordinatorTargetRestoreSource,
    target_l2: SourceCellModel,
    l2: Result<DecodedL2<Seq<u8>>, String>,
)
    ensures
        admitted_payload(
            head,
            target,
            catalog_digest,
            archive_store_fingerprint,
            participant_completion_slot,
            participant_completion_digest,
            source,
            target_l2,
            l2,
        ) matches Ok(payload) ==> selected_by(
            payload.binding,
            head,
            target,
            catalog_digest,
            archive_store_fingerprint,
            participant_completion_slot,
            participant_completion_digest,
        ),
{
}

/// A target is restored exactly for a head that archives in place, from the head that was
/// requested, a rollback to that target, where the target is of the head's network and of
/// the epoch right before the head's.
pub proof fn law_only_the_exact_target_is_restored(head: StoredHeadModel, target: CanonicalChainRef)
    ensures
        checked_scope(head, target) is Ok <==> (head.control matches RollbackControlState::Archiving(
            request,
        ) && {
            &&& request.execution_mode is InPlace
            &&& head.canonical.checkpoint == request.requested_head
            &&& target.network == head.canonical.network
            &&& target.chain_epoch + 1 == head.canonical.chain_epoch
            &&& target.checkpoint == request.target
        }),
{
}

/// A stored Layer 2 value is read exactly if there is one, it is not too long, the codec
/// reads it and writes it back as it is. What is read is what the codec read.
pub proof fn law_stored_l2_is_canonical(stored: Seq<u8>, l2: Result<DecodedL2<Seq<u8>>, String>)
    ensures
        match stored_l2(stored, l2) {
            Ok(state) => {
                &&& 1 <= stored.len() <= MAX_STORED_L2_BYTES
                &&& l2 is Ok
                &&& l2->Ok_0.rebuilt == l2->Ok_0.canonical
                &&& state == l2->Ok_0.state
            },
            Err(error) => {
                ||| error is InvalidStoredL2 && (stored.len() == 0 || stored.len()
                    > MAX_STORED_L2_BYTES)
                ||| l2 is Err && error == CoordinatorCommitTargetRestoreError::StoredL2(l2->Err_0)
                ||| l2 is Ok && l2->Ok_0.rebuilt != l2->Ok_0.canonical && error
                    is NonCanonicalStoredL2
            },
        },
{
}

/// A payload that is made holds what it was made of: the head's revision, chain and
/// control bytes, the four commitments, the target, what backs it and the target's Layer 2
/// value with its write time. It is made only for the exact scope, with no zero
/// commitment, and only of a Layer 2 value of the target's own checkpoint. Its slot is the
/// digest of what it is bound to, and its digest that of all that comes before it.
pub proof fn law_admitted_payload_holds_its_parts(
    head: StoredHeadModel,
    target: CanonicalChainRef,
    catalog_digest: [u8; 32],
    archive_store_fingerprint: [u8; 32],
    participant_completion_slot: [u8; 32],
    participant_completion_digest: [u8; 32],
    source: CoordinatorTargetRestoreSource,
    target_l2: SourceCellModel,
    l2: Result<DecodedL2<Seq<u8>>, String>,
)
    ensures
        admitted_payload(
            head,
            target,
            catalog_digest,
            archive_store_fingerprint,
            participant_completion_slot,
            participant_completion_digest,
            source,
            target_l2,
            l2,
        ) matches Ok(payload) ==> {
            let binding = payload.binding;
            let all = payload.canonical_bytes;
            let end = all.len() as int;
            &&& checked_scope(head, target) is Ok
            &&& !bytes::zero_digest(catalog_digest)
            &&& !bytes::zero_digest(archive_store_fingerprint)
            &&& !bytes::zero_digest(participant_completion_slot)
            &&& !bytes::zero_digest(participant_completion_digest)
            &&& stored_l2(target_l2.bytes, l2) matches Ok(state) && state.checkpoint_id
                == target.checkpoint.height
            &&& binding.network_chain_id == target.network.chain_id
            &&& binding.old_chain_epoch == target.chain_epoch
            &&& binding.archiving_head_revision == head.revision
            &&& binding.archiving_head_canonical == head.canonical.canonical@
            &&& binding.archiving_control_canonical == head.control_bytes
            &&& binding.catalog_digest == catalog_digest
            &&& binding.archive_store_fingerprint == archive_store_fingerprint
            &&& binding.participant_completion_slot == participant_completion_slot
            &&& binding.participant_completion_digest == participant_completion_digest
            &&& binding.target == target
            &&& payload.source == source
            &&& payload.target_l2_stored_value == target_l2.bytes
            &&& payload.target_l2_source_writetime_us == target_l2.writetime_us
            &&& payload.latest_checkpoint == target.checkpoint.height
            &&& payload.slot == hash::sha256(
                bytes::text("psy.rollback.coordinator-target-restore-payload-slot.v1\0"@)
                    + bytes::be_i64(target.network.chain_id as i64) + bytes::be64(
                    target.chain_epoch,
                ) + bytes::be_i64(head.revision) + bytes::be_len(
                    head.canonical.canonical@.len(),
                ) + head.canonical.canonical@ + bytes::be_len(head.control_bytes.len())
                    + head.control_bytes + catalog_digest@ + archive_store_fingerprint@
                    + participant_completion_slot@ + participant_completion_digest@
                    + target.canonical@,
            )
            &&& end >= 32
            &&& all.subrange(end - 32, end) == payload.digest@
            &&& payload.digest == hash::sha256(
                bytes::text("psy.rollback.coordinator-target-restore-payload.v1\0"@)
                    + bytes::be_len((end - 32) as nat) + all.subrange(0, end - 32),
            )
        },
{
    let payload = payload_of(
        head,
        target,
        catalog_digest,
        archive_store_fingerprint,
        participant_completion_slot,
        participant_completion_digest,
        source,
        target_l2,
    );
    let all = payload.canonical_bytes;
    let end = all.len() as int;
    assert(all.subrange(0, end - 32) =~= payload_body(payload));
    assert(all.subrange(end - 32, end) =~= payload.digest@);
}

/// Genesis is restored only where it is the floor itself, from a Layer 2 value that holds
/// the genesis state, and the payload is backed by the floor's digest alone.
pub proof fn law_genesis_is_restored_from_the_floor(
    head: StoredHeadModel,
    target: CanonicalChainRef,
    catalog_digest: [u8; 32],
    archive_store_fingerprint: [u8; 32],
    participant_completion_slot: [u8; 32],
    participant_completion_digest: [u8; 32],
    floor: RollbackFloorModel,
    target_l2: SourceCellModel,
    l2: Result<DecodedL2<Seq<u8>>, String>,
    genesis: QEDL2BlockState,
)
    ensures
        ({
            let made = genesis_payload(
                head,
                target,
                catalog_digest,
                archive_store_fingerprint,
                participant_completion_slot,
                participant_completion_digest,
                floor,
                target_l2,
                l2,
                genesis,
            );
            let backed = CoordinatorTargetRestoreSource::GenesisAnchor { floor_digest: floor.digest };
            let admitted = admitted_payload(
                head,
                target,
                catalog_digest,
                archive_store_fingerprint,
                participant_completion_slot,
                participant_completion_digest,
                backed,
                target_l2,
                l2,
            );
            let fits = floor.floor == target && target.checkpoint.height == 0;
            &&& made is Ok <==> fits && stored_l2(target_l2.bytes, l2) == Ok::<
                _,
                CoordinatorCommitTargetRestoreError,
            >(genesis) && admitted is Ok
            &&& made is Ok ==> made == admitted && made->Ok_0.source == backed
            &&& !fits ==> made is Err && made->Err_0 is FloorTargetMismatch
        }),
{
}

/// A later target is restored only from the commit source of that very target, with the
/// marker of that source, above the floor of the same chain, with an inventory that
/// agrees and a prepared update that was read to its end and that holds the block state of
/// the stored Layer 2 value at the target's checkpoint. The payload is backed by the
/// floor's digest and the source's slot, digest and marker.
pub proof fn law_later_targets_are_restored_from_their_source(
    head: StoredHeadModel,
    target: CanonicalChainRef,
    catalog_digest: [u8; 32],
    archive_store_fingerprint: [u8; 32],
    participant_completion_slot: [u8; 32],
    participant_completion_digest: [u8; 32],
    floor: RollbackFloorModel,
    source: CoordinatorCommitSource,
    marker: CoordinatorCommitSourceCommitted,
    target_l2: SourceCellModel,
    inventory: Result<(), String>,
    prepared: Result<DecodedPreparedUpdate, String>,
    l2: Result<DecodedL2<Seq<u8>>, String>,
)
    ensures
        ({
            let made = committed_payload(
                head,
                target,
                catalog_digest,
                archive_store_fingerprint,
                participant_completion_slot,
                participant_completion_digest,
                floor,
                source,
                marker,
                target_l2,
                inventory,
                prepared,
                l2,
            );
            let backed = CoordinatorTargetRestoreSource::CommittedSource {
                floor_digest: floor.digest,
                source_slot: source.slot,
                source_digest: source.digest,
                committed_marker: marker.canonical,
            };
            let admitted = admitted_payload(
                head,
                target,
                catalog_digest,
                archive_store_fingerprint,
                participant_completion_slot,
                participant_completion_digest,
                backed,
                target_l2,
                l2,
            );
            let own_source = source.candidate == target && marker.slot == source.slot
                && marker.source_digest == source.digest;
            let above_floor = floor.floor.network == target.network && floor.floor.chain_epoch
                == target.chain_epoch && floor.floor.checkpoint.height < target.checkpoint.height;
            &&& made is Ok <==> {
                &&& own_source
                &&& above_floor
                &&& inventory is Ok
                &&& prepared is Ok
                &&& prepared->Ok_0.consumed == prepared->Ok_0.total
                &&& prepared->Ok_0.checkpoint_id == target.checkpoint.height
                &&& prepared->Ok_0.block_state.checkpoint_id == target.checkpoint.height
                &&& stored_l2(target_l2.bytes, l2) == Ok::<_, CoordinatorCommitTargetRestoreError>(
                    prepared->Ok_0.block_state,
                )
                &&& admitted is Ok
            }
            &&& made is Ok ==> made == admitted && made->Ok_0.source == backed
            &&& !own_source ==> made is Err && made->Err_0 is TargetSourceMismatch
            &&& own_source && !above_floor ==> made is Err && made->Err_0 is FloorTargetMismatch
            &&& own_source && above_floor && inventory is Ok && prepared is Ok
                && prepared->Ok_0.consumed != prepared->Ok_0.total ==> made is Err && made->Err_0
                is TrailingPreparedUpdate
        }),
{
}

/// What a decoder accepts holds no zero commitment, names the network, the epoch and the
/// checkpoint of its own target, is backed by the genesis anchor exactly if the target is
/// genesis, carries a Layer 2 value of that checkpoint, and has the slot and the digest
/// that belong to it.
pub proof fn law_decoded_payload_is_bound_to_its_target(
    bytes: Seq<u8>,
    target: Result<CanonicalChainRef, String>,
    marker: Result<CoordinatorCommitSourceCommitted, String>,
    l2: Result<DecodedL2<Seq<u8>>, String>,
)
    ensures
        decoded_payload(bytes, target, marker, l2) matches Ok(payload) ==> {
            let binding = payload.binding;
            &&& target == Ok::<_, String>(binding.target)
            &&& binding.target.network.chain_id == binding.network_chain_id
            &&& binding.target.chain_epoch == binding.old_chain_epoch
            &&& binding.target.checkpoint.height == payload.latest_checkpoint
            &&& payload.source is GenesisAnchor <==> payload.latest_checkpoint == 0
            &&& payload.source matches CoordinatorTargetRestoreSource::CommittedSource {
                source_slot,
                source_digest,
                ..
            } ==> marker is Ok && marker->Ok_0.slot == source_slot && marker->Ok_0.source_digest
                == source_digest
            &&& stored_l2(payload.target_l2_stored_value, l2) matches Ok(state)
                && state.checkpoint_id == payload.latest_checkpoint
            &&& !bytes::zero_digest(binding.catalog_digest)
            &&& !bytes::zero_digest(binding.archive_store_fingerprint)
            &&& !bytes::zero_digest(binding.participant_completion_slot)
            &&& !bytes::zero_digest(binding.participant_completion_digest)
            &&& !bytes::zero_digest(payload.source.spec_floor_digest())
            &&& payload.slot == hash::sha256(restore_slot_preimage(binding))
            &&& payload.digest == restore_digest_of(bytes.subrange(0, bytes.len() - 32))
            &&& payload.canonical_bytes == bytes
        },
{
}

/// What fixes a slot is the binding and nothing less: of two bindings that give the same
/// bytes to the slot, with heads and controls of the same lengths, none differs from the
/// other in chain, revision, head, control, commitments or the target's bytes.
pub proof fn law_restore_slot_binds_everything(
    a: RestoreBinding<Seq<u8>>,
    b: RestoreBinding<Seq<u8>>,
)
    requires
        a.archiving_head_canonical.len() == b.archiving_head_canonical.len(),
        a.archiving_control_canonical.len() == b.archiving_control_canonical.len(),
        restore_slot_preimage(a) == restore_slot_preimage(b),
    ensures
        a.network_chain_id == b.network_chain_id,
        a.old_chain_epoch == b.old_chain_epoch,
        a.archiving_head_revision == b.archiving_head_revision,
        a.archiving_head_canonical == b.archiving_head_canonical,
        a.archiving_control_canonical == b.archiving_control_canonical,
        a.catalog_digest@ == b.catalog_digest@,
        a.archive_store_fingerprint@ == b.archive_store_fingerprint@,
        a.participant_completion_slot@ == b.participant_completion_slot@,
        a.participant_completion_digest@ == b.participant_completion_digest@,
        a.target.canonical@ == b.target.canonical@,
{
    bytes::lemma_be_lens();
    let x = restore_slot_preimage(a);
    let y = restore_slot_preimage(b);
    let n = bytes::text("psy.rollback.coordinator-target-restore-payload-slot.v1\0"@).len() as int;
    let h = a.archiving_head_canonical.len() as int;
    let c = a.archiving_control_canonical.len() as int;
    let at = n + 24 + 8 + h + 8 + c;
    lemma_slot_parts(a);
    lemma_slot_parts(b);
    bytes::lemma_write_then_read(x, n);
    bytes::lemma_write_then_read(x, n + 8);
    bytes::lemma_write_then_read(x, n + 16);
}

proof fn lemma_slot_parts(binding: RestoreBinding<Seq<u8>>)
    ensures
        ({
            let x = restore_slot_preimage(binding);
            let n = bytes::text("psy.rollback.coordinator-target-restore-payload-slot.v1\0"@).len()
                as int;
            let h = binding.archiving_head_canonical.len() as int;
            let c = binding.archiving_control_canonical.len() as int;
            let at = n + 24 + 8 + h + 8 + c;
            &&& x.len() == at + 128 + binding.target.canonical@.len()
            &&& x.subrange(n, n + 8) == bytes::be_i64(binding.network_chain_id)
            &&& x.subrange(n + 8, n + 8 + 8) == bytes::be64(binding.old_chain_epoch)
            &&& x.subrange(n + 16, n + 16 + 8) == bytes::be_i64(binding.archiving_head_revision)
            &&& x.subrange(n + 32, n + 32 + h) == binding.archiving_head_canonical
            &&& x.subrange(n + 40 + h, n + 40 + h + c) == binding.archiving_control_canonical
            &&& x.subrange(at, at + 32) == binding.catalog_digest@
            &&& x.subrange(at + 32, at + 64) == binding.archive_store_fingerprint@
            &&& x.subrange(at + 64, at + 96) == binding.participant_completion_slot@
            &&& x.subrange(at + 96, at + 128) == binding.participant_completion_digest@
            &&& x.subrange(at + 128, x.len() as int) == binding.target.canonical@
        }),
{
    bytes::lemma_be_lens();
    let x = restore_slot_preimage(binding);
    let n = bytes::text("psy.rollback.coordinator-target-restore-payload-slot.v1\0"@).len() as int;
    let h = binding.archiving_head_canonical.len() as int;
    let c = binding.archiving_control_canonical.len() as int;
    let at = n + 24 + 8 + h + 8 + c;
    assert(x.subrange(n, n + 8) =~= bytes::be_i64(binding.network_chain_id));
    assert(x.subrange(n + 8, n + 8 + 8) =~= bytes::be64(binding.old_chain_epoch));
    assert(x.subrange(n + 16, n + 16 + 8) =~= bytes::be_i64(binding.archiving_head_revision));
    assert(x.subrange(n + 32, n + 32 + h) =~= binding.archiving_head_canonical);
    assert(x.subrange(n + 40 + h, n + 40 + h + c) =~= binding.archiving_control_canonical);
    assert(x.subrange(at, at + 32) =~= binding.catalog_digest@);
    assert(x.subrange(at + 32, at + 64) =~= binding.archive_store_fingerprint@);
    assert(x.subrange(at + 64, at + 96) =~= binding.participant_completion_slot@);
    assert(x.subrange(at + 96, at + 128) =~= binding.participant_completion_digest@);
    assert(x.subrange(at + 128, x.len() as int) =~= binding.target.canonical@);
}

} // verus!
