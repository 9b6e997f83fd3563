//! Immutable values required to restore a Coordinator rollback floor that is not
//! genesis.
//!
//! A floor commits only chain identity. Its anchor captures the exact latest Layer 2
//! bytes and the latest checkpoint value while the canonical head is still the
//! activation floor. It is append-only evidence.

use vstd::prelude::*;

use crate::bytes;
use crate::bytes::{
    array_equal, bytes_equal, copy_bytes, from_bits, is_zero_digest, push_bytes, push_counted,
    push_i64, push_u16, push_u64, read_be, text_bytes, Cursor, ZERO_DIGEST,
};
use crate::hash;
use crate::hash::sha256_digest;
use crate::keyspace::CqlKeyspaceName;
use crate::lwt;
use crate::lwt::both_failed_text;
use crate::model::{
    CoordinatorCommitPhysicalSourceCell, CoordinatorRollbackFloor, DecodedL2, QEDL2BlockState,
    RollbackControlState, RollbackFloor, RollbackFloorModel, SourceCell, SourceCellModel,
    StoredHead,
};
use crate::text;
use crate::text::{concat3, qualify};

verus! {

pub const COORDINATOR_ROLLBACK_FLOOR_SINGLETON_ANCHOR_TABLE: &'static str =
    "coordinator_rollback_floor_singleton_anchor_v1";

/// `PSYCRFA1`.
pub const MAGIC: [u8; 8] = [0x50, 0x53, 0x59, 0x43, 0x52, 0x46, 0x41, 0x31];

pub const VERSION: u16 = 1;

pub const ROW_REVISION: i64 = 1;

pub const MAX_ANCHOR_BYTES: usize = 32_768;

pub const MAX_L2_BYTES: usize = 16_384;

#[derive(Clone, Debug, PartialEq, Eq)]
pub enum CoordinatorRollbackFloorSingletonAnchorError {
    InvalidRowRevision(i64),
    InvalidMagic,
    UnknownVersion(u16),
    PayloadTooLarge,
    InvalidL2,
    L2(String),
    NonCanonicalL2,
    InvalidCheckpoint,
    LatestL2TargetMismatch,
    CheckpointMismatch,
    Floor(String),
    FloorMismatch,
    TargetL2Changed,
    DigestMismatch,
    NonCanonicalEncoding,
    Truncated,
    TrailingBytes,
}

#[verifier::ext_equal]
#[derive(Clone, Debug, PartialEq, Eq)]
pub struct CoordinatorRollbackFloorSingletonAnchor<B> {
    pub floor: CoordinatorRollbackFloor<B>,
    pub latest_l2_stored_value: B,
    pub latest_l2_writetime_us: i64,
    pub target_l2_writetime_us: i64,
    pub latest_checkpoint: u64,
    pub latest_checkpoint_writetime_us: i64,
    pub digest: [u8; 32],
    pub canonical_bytes: B,
}

pub type FloorAnchor = CoordinatorRollbackFloorSingletonAnchor<Vec<u8>>;

pub type FloorAnchorModel = CoordinatorRollbackFloorSingletonAnchor<Seq<u8>>;

impl View for CoordinatorRollbackFloorSingletonAnchor<Vec<u8>> {
    type V = CoordinatorRollbackFloorSingletonAnchor<Seq<u8>>;

    open spec fn view(&self) -> CoordinatorRollbackFloorSingletonAnchor<Seq<u8>> {
        CoordinatorRollbackFloorSingletonAnchor {
            floor: self.floor@,
            latest_l2_stored_value: self.latest_l2_stored_value@,
            latest_l2_writetime_us: self.latest_l2_writetime_us,
            target_l2_writetime_us: self.target_l2_writetime_us,
            latest_checkpoint: self.latest_checkpoint,
            latest_checkpoint_writetime_us: self.latest_checkpoint_writetime_us,
            digest: self.digest,
            canonical_bytes: self.canonical_bytes@,
        }
    }
}

pub open spec fn l2_outcome(l2: Result<DecodedL2<Vec<u8>>, String>) -> Result<
    DecodedL2<Seq<u8>>,
    String,
> {
    match l2 {
        Ok(decoded) => Ok(decoded@),
        Err(refused) => Err(refused),
    }
}

/// The state that a stored Layer 2 value holds. `l2` is what the storage codec makes
/// of the value.
pub open spec fn decoded_l2(stored: Seq<u8>, l2: Result<DecodedL2<Seq<u8>>, String>) -> Result<
    QEDL2BlockState,
    CoordinatorRollbackFloorSingletonAnchorError,
> {
    if stored.len() == 0 || stored.len() > MAX_L2_BYTES {
        Err(CoordinatorRollbackFloorSingletonAnchorError::InvalidL2)
    } else {
        match l2 {
            Err(refused) => Err(CoordinatorRollbackFloorSingletonAnchorError::L2(refused)),
            Ok(decoded) => if decoded.rebuilt != decoded.canonical {
                Err(CoordinatorRollbackFloorSingletonAnchorError::NonCanonicalL2)
            } else {
                Ok(decoded.state)
            },
        }
    }
}

fn decode_l2(stored: &[u8], l2: Result<DecodedL2<Vec<u8>>, String>) -> (result: Result<
    QEDL2BlockState,
    CoordinatorRollbackFloorSingletonAnchorError,
>)
    ensures
        result == decoded_l2(stored@, l2_outcome(l2)),
{
    if stored.len() == 0 || stored.len() > MAX_L2_BYTES {
        return Err(CoordinatorRollbackFloorSingletonAnchorError::InvalidL2);
    }
    match l2 {
        Err(refused) => Err(CoordinatorRollbackFloorSingletonAnchorError::L2(refused)),
        Ok(decoded) => if !bytes_equal(&decoded.rebuilt, &decoded.canonical) {
            Err(CoordinatorRollbackFloorSingletonAnchorError::NonCanonicalL2)
        } else {
            Ok(decoded.state)
        },
    }
}

/// The checkpoint in a cell of the signed singleton table.
pub open spec fn decoded_checkpoint(cell: Seq<u8>) -> Result<
    u64,
    CoordinatorRollbackFloorSingletonAnchorError,
> {
    if cell.len() != 8 || bytes::i64_at(cell, 0) < 0 {
        Err(CoordinatorRollbackFloorSingletonAnchorError::InvalidCheckpoint)
    } else {
        Ok(bytes::i64_at(cell, 0) as u64)
    }
}

pub fn decode_checkpoint(cell: &[u8]) -> (result: Result<
    u64,
    CoordinatorRollbackFloorSingletonAnchorError,
>)
    ensures
        result == decoded_checkpoint(cell@),
{
    if cell.len() != 8 {
        return Err(CoordinatorRollbackFloorSingletonAnchorError::InvalidCheckpoint);
    }
    let value: i64 = from_bits(read_be(cell, 0, 8));
    proof {
        bytes::lemma_be_value_bound(cell@.subrange(0, 8));
        bytes::lemma_pow256_small();
    }
    if value < 0 {
        return Err(CoordinatorRollbackFloorSingletonAnchorError::InvalidCheckpoint);
    }
    Ok(value as u64)
}

pub open spec fn anchor_digest_of(body: Seq<u8>) -> [u8; 32] {
    hash::sha256(bytes::text("psy.rollback.coordinator-floor-singleton-anchor.v1\0"@) + body)
}

pub fn anchor_digest(body: &[u8]) -> (digest: [u8; 32])
    ensures
        digest == anchor_digest_of(body@),
{
    let mut preimage: Vec<u8> = text_bytes("psy.rollback.coordinator-floor-singleton-anchor.v1\0");
    push_bytes(&mut preimage, body);
    sha256_digest(&preimage)
}

/// An anchor without its digest.
pub open spec fn anchor_body(anchor: FloorAnchorModel) -> Seq<u8> {
    MAGIC@ + bytes::be16(VERSION) + bytes::counted(anchor.floor.canonical) + bytes::counted(
        anchor.latest_l2_stored_value,
    ) + bytes::be_i64(anchor.latest_l2_writetime_us) + bytes::be_i64(anchor.target_l2_writetime_us)
        + bytes::be64(anchor.latest_checkpoint) + bytes::be_i64(
        anchor.latest_checkpoint_writetime_us,
    )
}

/// Why an anchor cannot be written.
pub open spec fn anchor_refusal(anchor: FloorAnchorModel) -> Option<
    CoordinatorRollbackFloorSingletonAnchorError,
> {
    if anchor.latest_l2_stored_value.len() == 0 || anchor.latest_l2_stored_value.len()
        > MAX_L2_BYTES {
        Some(CoordinatorRollbackFloorSingletonAnchorError::InvalidL2)
    } else if anchor.floor.canonical.len() > u32::MAX {
        Some(CoordinatorRollbackFloorSingletonAnchorError::PayloadTooLarge)
    } else {
        None
    }
}

/// The anchor of a floor over what was observed, sealed.
pub open spec fn anchor_of(
    floor: RollbackFloorModel,
    latest_l2: SourceCellModel,
    target_l2: SourceCellModel,
    checkpoint: u64,
    latest_checkpoint: SourceCellModel,
) -> FloorAnchorModel {
    let unsealed = CoordinatorRollbackFloorSingletonAnchor {
        floor,
        latest_l2_stored_value: latest_l2.bytes,
        latest_l2_writetime_us: latest_l2.writetime_us,
        target_l2_writetime_us: target_l2.writetime_us,
        latest_checkpoint: checkpoint,
        latest_checkpoint_writetime_us: latest_checkpoint.writetime_us,
        digest: ZERO_DIGEST,
        canonical_bytes: Seq::empty(),
    };
    let body = anchor_body(unsealed);
    CoordinatorRollbackFloorSingletonAnchor {
        digest: anchor_digest_of(body),
        canonical_bytes: body + anchor_digest_of(body)@,
        ..unsealed
    }
}

/// The anchor that the observed cells make, if they make one.
pub open spec fn admitted_anchor(
    floor: RollbackFloorModel,
    latest_l2: SourceCellModel,
    target_l2: SourceCellModel,
    latest_checkpoint: SourceCellModel,
    l2: Result<DecodedL2<Seq<u8>>, String>,
) -> Result<FloorAnchorModel, CoordinatorRollbackFloorSingletonAnchorError> {
    if latest_l2.bytes != target_l2.bytes {
        Err(CoordinatorRollbackFloorSingletonAnchorError::LatestL2TargetMismatch)
    } else {
        match decoded_l2(latest_l2.bytes, l2) {
            Err(error) => Err(error),
            Ok(state) => match decoded_checkpoint(latest_checkpoint.bytes) {
                Err(error) => Err(error),
                Ok(checkpoint) => {
                    let anchor = anchor_of(
                        floor,
                        latest_l2,
                        target_l2,
                        checkpoint,
                        latest_checkpoint,
                    );
                    if state.checkpoint_id != floor.floor.checkpoint.height || checkpoint
                        != floor.floor.checkpoint.height {
                        Err(CoordinatorRollbackFloorSingletonAnchorError::CheckpointMismatch)
                    } else if anchor_refusal(anchor) is Some {
                        Err(anchor_refusal(anchor)->0)
                    } else if anchor.canonical_bytes.len() > MAX_ANCHOR_BYTES {
                        Err(CoordinatorRollbackFloorSingletonAnchorError::PayloadTooLarge)
                    } else {
                        Ok(anchor)
                    }
                },
            },
        }
    }
}

/// What the bytes of an anchor leave to be checked once they were read.
pub open spec fn checked_anchor(anchor: FloorAnchorModel, l2: Result<DecodedL2<Seq<u8>>, String>) -> Result<
    FloorAnchorModel,
    CoordinatorRollbackFloorSingletonAnchorError,
> {
    let body = anchor.canonical_bytes.subrange(0, anchor.canonical_bytes.len() - 32);
    if bytes::zero_digest(anchor.digest) {
        Err(CoordinatorRollbackFloorSingletonAnchorError::CheckpointMismatch)
    } else {
        match decoded_l2(anchor.latest_l2_stored_value, l2) {
            Err(error) => Err(error),
            Ok(state) => if state.checkpoint_id != anchor.latest_checkpoint
                || anchor.floor.floor.checkpoint.height != anchor.latest_checkpoint {
                Err(CoordinatorRollbackFloorSingletonAnchorError::CheckpointMismatch)
            } else if anchor_digest_of(body) != anchor.digest {
                Err(CoordinatorRollbackFloorSingletonAnchorError::DigestMismatch)
            } else if anchor_refusal(anchor) is Some {
                Err(anchor_refusal(anchor)->0)
            } else if anchor_body(anchor) != body {
                Err(CoordinatorRollbackFloorSingletonAnchorError::NonCanonicalEncoding)
            } else {
                Ok(anchor)
            },
        }
    }
}

/// The anchor that a stored row holds. `floor` and `l2` are what the floor codec and
/// the storage codec make of the floor's and of the Layer 2 value's bytes.
pub open spec fn decoded_anchor(
    row_revision: i64,
    bytes: Seq<u8>,
    floor: Result<RollbackFloorModel, String>,
    l2: Result<DecodedL2<Seq<u8>>, String>,
) -> Result<FloorAnchorModel, CoordinatorRollbackFloorSingletonAnchorError> {
    if row_revision != ROW_REVISION {
        Err(CoordinatorRollbackFloorSingletonAnchorError::InvalidRowRevision(row_revision))
    } else if bytes.len() > MAX_ANCHOR_BYTES {
        Err(CoordinatorRollbackFloorSingletonAnchorError::PayloadTooLarge)
    } else if bytes.len() < 8 {
        Err(CoordinatorRollbackFloorSingletonAnchorError::Truncated)
    } else if bytes.subrange(0, 8) != MAGIC@ {
        Err(CoordinatorRollbackFloorSingletonAnchorError::InvalidMagic)
    } else if bytes.len() < 10 {
        Err(CoordinatorRollbackFloorSingletonAnchorError::Truncated)
    } else if bytes::u16_at(bytes, 8) != VERSION {
        Err(CoordinatorRollbackFloorSingletonAnchorError::UnknownVersion(bytes::u16_at(bytes, 8)))
    } else {
        match bytes::counted_at(bytes, 10) {
            None => Err(CoordinatorRollbackFloorSingletonAnchorError::Truncated),
            Some((_, l2_at)) => match floor {
                Err(refused) => Err(CoordinatorRollbackFloorSingletonAnchorError::Floor(refused)),
                Ok(floor) => match bytes::counted_at(bytes, l2_at) {
                    None => Err(CoordinatorRollbackFloorSingletonAnchorError::Truncated),
                    Some((stored, at)) => if at + 64 > bytes.len() {
                        Err(CoordinatorRollbackFloorSingletonAnchorError::Truncated)
                    } else if at + 64 != bytes.len() {
                        Err(CoordinatorRollbackFloorSingletonAnchorError::TrailingBytes)
                    } else {
                        checked_anchor(
                            CoordinatorRollbackFloorSingletonAnchor {
                                floor,
                                latest_l2_stored_value: stored,
                                latest_l2_writetime_us: bytes::i64_at(bytes, at),
                                target_l2_writetime_us: bytes::i64_at(bytes, at + 8),
                                latest_checkpoint: bytes::u64_at(bytes, at + 16),
                                latest_checkpoint_writetime_us: bytes::i64_at(bytes, at + 24),
                                digest: bytes::digest_at(bytes, at + 32),
                                canonical_bytes: bytes,
                            },
                            l2,
                        )
                    },
                },
            },
        }
    }
}

/// The parts of an anchor that other codecs read: the floor's bytes and the stored
/// Layer 2 value.
pub open spec fn foreign_parts_of(bytes: Seq<u8>) -> Option<(Seq<u8>, Seq<u8>)> {
    match bytes::counted_at(bytes, 10) {
        None => None,
        Some((floor, l2_at)) => match bytes::counted_at(bytes, l2_at) {
            None => None,
            Some((stored_l2, _)) => Some((floor, stored_l2)),
        },
    }
}

pub open spec fn anchor_result(
    result: Result<FloorAnchor, CoordinatorRollbackFloorSingletonAnchorError>,
) -> Result<FloorAnchorModel, CoordinatorRollbackFloorSingletonAnchorError> {
    match result {
        Ok(anchor) => Ok(anchor@),
        Err(error) => Err(error),
    }
}

pub open spec fn floor_outcome(floor: Result<RollbackFloor, String>) -> Result<
    RollbackFloorModel,
    String,
> {
    match floor {
        Ok(floor) => Ok(floor@),
        Err(refused) => Err(refused),
    }
}

fn present<T>(read: Option<T>) -> (result: Result<T, CoordinatorRollbackFloorSingletonAnchorError>)
    ensures
        match read {
            Some(value) => result == Ok::<T, CoordinatorRollbackFloorSingletonAnchorError>(value),
            None => result == Err::<T, _>(CoordinatorRollbackFloorSingletonAnchorError::Truncated),
        },
{
    match read {
        Some(value) => Ok(value),
        None => Err(CoordinatorRollbackFloorSingletonAnchorError::Truncated),
    }
}

impl CoordinatorRollbackFloorSingletonAnchor<Vec<u8>> {
    fn encode_without_digest(&self) -> (result: Result<
        Vec<u8>,
        CoordinatorRollbackFloorSingletonAnchorError,
    >)
        ensures
            match result {
                Ok(body) => anchor_refusal(self@) is None && body@ == anchor_body(self@),
                Err(error) => anchor_refusal(self@) == Some(error),
            },
    {
        if self.latest_l2_stored_value.len() == 0 || self.latest_l2_stored_value.len()
            > MAX_L2_BYTES {
            return Err(CoordinatorRollbackFloorSingletonAnchorError::InvalidL2);
        }
        if self.floor.canonical.len() as u64 > u32::MAX as u64 {
            return Err(CoordinatorRollbackFloorSingletonAnchorError::PayloadTooLarge);
        }
        let mut body: Vec<u8> = copy_bytes(&MAGIC);
        push_u16(&mut body, VERSION);
        push_counted(&mut body, &self.floor.canonical);
        push_counted(&mut body, &self.latest_l2_stored_value);
        push_i64(&mut body, self.latest_l2_writetime_us);
        push_i64(&mut body, self.target_l2_writetime_us);
        push_u64(&mut body, self.latest_checkpoint);
        push_i64(&mut body, self.latest_checkpoint_writetime_us);
        Ok(body)
    }

    /// The anchor of a floor, from the cells that were observed at it. `l2` is what
    /// the storage codec makes of the latest Layer 2 value.
    pub fn try_new(
        floor: RollbackFloor,
        latest_l2: &SourceCell,
        target_l2: &SourceCell,
        latest_checkpoint: &SourceCell,
        l2: Result<DecodedL2<Vec<u8>>, String>,
    ) -> (result: Result<Self, CoordinatorRollbackFloorSingletonAnchorError>)
        ensures
            anchor_result(result) == admitted_anchor(
                floor@,
                latest_l2@,
                target_l2@,
                latest_checkpoint@,
                l2_outcome(l2),
            ),
    {
        if !bytes_equal(&latest_l2.bytes, &target_l2.bytes) {
            return Err(CoordinatorRollbackFloorSingletonAnchorError::LatestL2TargetMismatch);
        }
        let state = decode_l2(&latest_l2.bytes, l2)?;
        let checkpoint: u64 = decode_checkpoint(&latest_checkpoint.bytes)?;
        let floor_checkpoint: u64 = floor.floor.checkpoint.height;
        if state.checkpoint_id != floor_checkpoint || checkpoint != floor_checkpoint {
            return Err(CoordinatorRollbackFloorSingletonAnchorError::CheckpointMismatch);
        }
        let mut anchor = CoordinatorRollbackFloorSingletonAnchor {
            floor,
            latest_l2_stored_value: copy_bytes(&latest_l2.bytes),
            latest_l2_writetime_us: latest_l2.writetime_us,
            target_l2_writetime_us: target_l2.writetime_us,
            latest_checkpoint: checkpoint,
            latest_checkpoint_writetime_us: latest_checkpoint.writetime_us,
            digest: ZERO_DIGEST,
            canonical_bytes: Vec::new(),
        };
        let mut canonical_bytes: Vec<u8> = anchor.encode_without_digest()?;
        let digest = anchor_digest(&canonical_bytes);
        push_bytes(&mut canonical_bytes, &digest);
        if canonical_bytes.len() > MAX_ANCHOR_BYTES {
            return Err(CoordinatorRollbackFloorSingletonAnchorError::PayloadTooLarge);
        }
        anchor.digest = digest;
        anchor.canonical_bytes = canonical_bytes;
        assert(anchor@ =~= anchor_of(
            floor@,
            latest_l2@,
            target_l2@,
            checkpoint,
            latest_checkpoint@,
        ));
        Ok(anchor)
    }

    fn check(self, l2: Result<DecodedL2<Vec<u8>>, String>) -> (result: Result<
        Self,
        CoordinatorRollbackFloorSingletonAnchorError,
    >)
        requires
            self.canonical_bytes@.len() >= 32,
        ensures
            anchor_result(result) == checked_anchor(self@, l2_outcome(l2)),
    {
        if is_zero_digest(&self.digest) {
            return Err(CoordinatorRollbackFloorSingletonAnchorError::CheckpointMismatch);
        }
        let state = decode_l2(&self.latest_l2_stored_value, l2)?;
        if state.checkpoint_id != self.latest_checkpoint || self.floor.floor.checkpoint.height
            != self.latest_checkpoint {
            return Err(CoordinatorRollbackFloorSingletonAnchorError::CheckpointMismatch);
        }
        let body = vstd::slice::slice_subrange(
            self.canonical_bytes.as_slice(),
            0,
            self.canonical_bytes.len() - 32,
        );
        if !array_equal::<32>(&anchor_digest(body), &self.digest) {
            return Err(CoordinatorRollbackFloorSingletonAnchorError::DigestMismatch);
        }
        let encoded = self.encode_without_digest()?;
        if !bytes_equal(&encoded, body) {
            return Err(CoordinatorRollbackFloorSingletonAnchorError::NonCanonicalEncoding);
        }
        Ok(self)
    }

    /// The floor's bytes and the stored Layer 2 value in an anchor's bytes, which other
    /// codecs read. `None` where the bytes end before them.
    pub fn foreign_parts(bytes: &[u8]) -> (parts: Option<(Vec<u8>, Vec<u8>)>)
        ensures
            match (parts, foreign_parts_of(bytes@)) {
                (Some((floor, stored_l2)), Some(expected)) => (floor@, stored_l2@) == expected,
                (None, None) => true,
                _ => false,
            },
    {
        let mut cursor = Cursor::new(bytes);
        let _ = cursor.take(10)?;
        let floor = copy_bytes(cursor.counted()?);
        let stored_l2 = copy_bytes(cursor.counted()?);
        Some((floor, stored_l2))
    }

    /// Reads a stored anchor. `floor` and `l2` are what other codecs make of the parts
    /// that [`foreign_parts`](Self::foreign_parts) finds.
    pub fn decode_persisted(
        row_revision: i64,
        bytes: &[u8],
        floor: Result<RollbackFloor, String>,
        l2: Result<DecodedL2<Vec<u8>>, String>,
    ) -> (result: Result<Self, CoordinatorRollbackFloorSingletonAnchorError>)
        ensures
            anchor_result(result) == decoded_anchor(
                row_revision,
                bytes@,
                floor_outcome(floor),
                l2_outcome(l2),
            ),
    {
        if row_revision != ROW_REVISION {
            return Err(
                CoordinatorRollbackFloorSingletonAnchorError::InvalidRowRevision(row_revision),
            );
        }
        if bytes.len() > MAX_ANCHOR_BYTES {
            return Err(CoordinatorRollbackFloorSingletonAnchorError::PayloadTooLarge);
        }
        let mut cursor = Cursor::new(bytes);
        let magic = present(cursor.take(8))?;
        if !bytes_equal(magic, &MAGIC) {
            return Err(CoordinatorRollbackFloorSingletonAnchorError::InvalidMagic);
        }
        let version: u16 = present(cursor.u16())?;
        if version != VERSION {
            return Err(CoordinatorRollbackFloorSingletonAnchorError::UnknownVersion(version));
        }
        let _ = present(cursor.counted())?;
        let floor = match floor {
            Err(refused) => {
                return Err(CoordinatorRollbackFloorSingletonAnchorError::Floor(refused));
            },
            Ok(floor) => floor,
        };
        let stored = present(cursor.counted())?;
        let latest_l2_writetime_us: i64 = present(cursor.i64())?;
        let target_l2_writetime_us: i64 = present(cursor.i64())?;
        let latest_checkpoint: u64 = present(cursor.u64())?;
        let latest_checkpoint_writetime_us: i64 = present(cursor.i64())?;
        let digest = present(cursor.array_32())?;
        if !cursor.is_empty() {
            return Err(CoordinatorRollbackFloorSingletonAnchorError::TrailingBytes);
        }
        let anchor = CoordinatorRollbackFloorSingletonAnchor {
            floor,
            latest_l2_stored_value: copy_bytes(stored),
            latest_l2_writetime_us,
            target_l2_writetime_us,
            latest_checkpoint,
            latest_checkpoint_writetime_us,
            digest,
            canonical_bytes: copy_bytes(bytes),
        };
        anchor.check(l2)
    }

    pub fn validate_floor(&self, floor: &RollbackFloor) -> (result: Result<
        (),
        CoordinatorRollbackFloorSingletonAnchorError,
    >)
        ensures
            result == (if self@.floor == floor@ {
                Ok::<(), CoordinatorRollbackFloorSingletonAnchorError>(())
            } else {
                Err(CoordinatorRollbackFloorSingletonAnchorError::FloorMismatch)
            }),
    {
        if self.floor.same(floor) {
            Ok(())
        } else {
            Err(CoordinatorRollbackFloorSingletonAnchorError::FloorMismatch)
        }
    }

    pub fn validate_target_l2(&self, target_l2: &SourceCell) -> (result: Result<
        (),
        CoordinatorRollbackFloorSingletonAnchorError,
    >)
        ensures
            result == (if target_l2@.bytes == self@.latest_l2_stored_value
                && target_l2@.writetime_us == self@.target_l2_writetime_us {
                Ok::<(), CoordinatorRollbackFloorSingletonAnchorError>(())
            } else {
                Err(CoordinatorRollbackFloorSingletonAnchorError::TargetL2Changed)
            }),
    {
        if !bytes_equal(&target_l2.bytes, &self.latest_l2_stored_value) || target_l2.writetime_us
            != self.target_l2_writetime_us {
            Err(CoordinatorRollbackFloorSingletonAnchorError::TargetL2Changed)
        } else {
            Ok(())
        }
    }

    pub fn same(&self, other: &Self) -> (same: bool)
        ensures
            same == (self@ == other@),
    {
        self.floor.same(&other.floor) && bytes_equal(
            &self.latest_l2_stored_value,
            &other.latest_l2_stored_value,
        ) && self.latest_l2_writetime_us == other.latest_l2_writetime_us
            && self.target_l2_writetime_us == other.target_l2_writetime_us && self.latest_checkpoint
            == other.latest_checkpoint && self.latest_checkpoint_writetime_us
            == other.latest_checkpoint_writetime_us && array_equal::<32>(
            &self.digest,
            &other.digest,
        ) && bytes_equal(&self.canonical_bytes, &other.canonical_bytes)
    }

    pub fn floor(&self) -> (floor: &RollbackFloor)
        ensures
            floor@ == self@.floor,
    {
        &self.floor
    }

    pub fn latest_l2_stored_value(&self) -> (value: &[u8])
        ensures
            value@ == self@.latest_l2_stored_value,
    {
        self.latest_l2_stored_value.as_slice()
    }

    pub fn target_l2_writetime_us(&self) -> (writetime_us: i64)
        ensures
            writetime_us == self@.target_l2_writetime_us,
    {
        self.target_l2_writetime_us
    }

    pub fn latest_checkpoint(&self) -> (checkpoint: u64)
        ensures
            checkpoint == self@.latest_checkpoint,
    {
        self.latest_checkpoint
    }

    pub fn digest(&self) -> (digest: &[u8; 32])
        ensures
            *digest == self@.digest,
    {
        &self.digest
    }

    pub fn canonical_bytes(&self) -> (bytes: &[u8])
        ensures
            bytes@ == self@.canonical_bytes,
    {
        self.canonical_bytes.as_slice()
    }
}

/// The statements of the anchor store.
#[derive(Clone, Debug, PartialEq, Eq)]
pub struct CoordinatorRollbackFloorSingletonAnchorQueries {
    pub create_anchor: String,
    pub read_anchor: String,
    pub insert_anchor: String,
    pub read_latest_l2: String,
    pub read_target_l2: String,
    pub read_latest_checkpoint: String,
}

/// The read of one value of a state table and its write time.
pub open spec fn read_state_query(state: Seq<char>, table: Seq<char>) -> Seq<char> {
    "SELECT value, WRITETIME(value) FROM "@ + text::qualified(state, table) + " WHERE obj_id = ?"@
}

fn read_state(state: &str, table: &str) -> (query: String)
    ensures
        query@ == read_state_query(state@, table@),
{
    concat3("SELECT value, WRITETIME(value) FROM ", qualify(state, table).as_str(), " WHERE obj_id = ?")
}

impl CoordinatorRollbackFloorSingletonAnchorQueries {
    pub fn new(control: &CqlKeyspaceName, state: &CqlKeyspaceName) -> (queries: Self)
        ensures
            queries.create_anchor@ == "CREATE TABLE IF NOT EXISTS "@ + text::qualified(
                control@,
                COORDINATOR_ROLLBACK_FLOOR_SINGLETON_ANCHOR_TABLE@,
            )
                + " (network_chain_id bigint, chain_epoch bigint, revision bigint, anchor blob, PRIMARY KEY ((network_chain_id, chain_epoch)))"@,
            queries.read_anchor@ == "SELECT revision, anchor FROM "@ + text::qualified(
                control@,
                COORDINATOR_ROLLBACK_FLOOR_SINGLETON_ANCHOR_TABLE@,
            ) + " WHERE network_chain_id = ? AND chain_epoch = ?"@,
            queries.insert_anchor@ == "INSERT INTO "@ + text::qualified(
                control@,
                COORDINATOR_ROLLBACK_FLOOR_SINGLETON_ANCHOR_TABLE@,
            )
                + " (network_chain_id, chain_epoch, revision, anchor) VALUES (?, ?, ?, ?) IF NOT EXISTS"@,
            queries.read_latest_l2@ == read_state_query(state@, "latest_info_table"@),
            queries.read_target_l2@ == read_state_query(state@, "l2_block_state_table"@),
            queries.read_latest_checkpoint@ == read_state_query(state@, "u64_singleton_table"@),
    {
        let anchor = qualify(control.as_str(), COORDINATOR_ROLLBACK_FLOOR_SINGLETON_ANCHOR_TABLE);
        CoordinatorRollbackFloorSingletonAnchorQueries {
            create_anchor: concat3(
                "CREATE TABLE IF NOT EXISTS ",
                anchor.as_str(),
                " (network_chain_id bigint, chain_epoch bigint, revision bigint, anchor blob, PRIMARY KEY ((network_chain_id, chain_epoch)))",
            ),
            read_anchor: concat3(
                "SELECT revision, anchor FROM ",
                anchor.as_str(),
                " WHERE network_chain_id = ? AND chain_epoch = ?",
            ),
            insert_anchor: concat3(
                "INSERT INTO ",
                anchor.as_str(),
                " (network_chain_id, chain_epoch, revision, anchor) VALUES (?, ?, ?, ?) IF NOT EXISTS",
            ),
            read_latest_l2: read_state(state.as_str(), "latest_info_table"),
            read_target_l2: read_state(state.as_str(), "l2_block_state_table"),
            read_latest_checkpoint: read_state(state.as_str(), "u64_singleton_table"),
        }
    }
}

#[derive(Clone, Debug, PartialEq, Eq)]
pub enum CoordinatorRollbackFloorSingletonAnchorStoreError {
    Driver(String),
    Anchor(CoordinatorRollbackFloorSingletonAnchorError),
    Floor(String),
    IntegerOutOfRange,
    MissingSource,
    MissingAfterHeadAdvanced,
    MissingAfterWrite,
    Conflict,
    SourceChanged,
    IndeterminateWrite(String),
    OutOfOrder,
}

/// A value cell, which has to be there with its write time.
pub fn source_blob(row: Option<(Option<Vec<u8>>, Option<i64>)>) -> (result: Result<
    SourceCell,
    CoordinatorRollbackFloorSingletonAnchorStoreError,
>)
    ensures
        match row {
            Some((Some(value), Some(writetime_us))) => result matches Ok(cell) && cell@ == (
            SourceCellModel { bytes: value@, writetime_us }),
            _ => result == Err::<SourceCell, _>(
                CoordinatorRollbackFloorSingletonAnchorStoreError::MissingSource,
            ),
        },
{
    match row {
        Some((Some(bytes), Some(writetime_us))) => Ok(
            CoordinatorCommitPhysicalSourceCell { bytes, writetime_us },
        ),
        _ => Err(CoordinatorRollbackFloorSingletonAnchorStoreError::MissingSource),
    }
}

/// A number cell, which has to be there with its write time, as its eight bytes.
pub fn source_bigint(row: Option<(Option<i64>, Option<i64>)>) -> (result: Result<
    SourceCell,
    CoordinatorRollbackFloorSingletonAnchorStoreError,
>)
    ensures
        match row {
            Some((Some(value), Some(writetime_us))) => result matches Ok(cell) && cell@ == (
            SourceCellModel { bytes: bytes::be_i64(value), writetime_us }),
            _ => result == Err::<SourceCell, _>(
                CoordinatorRollbackFloorSingletonAnchorStoreError::MissingSource,
            ),
        },
{
    match row {
        Some((Some(value), Some(writetime_us))) => {
            let mut bytes: Vec<u8> = Vec::new();
            push_i64(&mut bytes, value);
            assert(bytes@ =~= bytes::be_i64(value));
            Ok(CoordinatorCommitPhysicalSourceCell { bytes, writetime_us })
        },
        _ => Err(CoordinatorRollbackFloorSingletonAnchorStoreError::MissingSource),
    }
}

/// The key that a floor's anchor is filed under.
pub fn floor_key(floor: &RollbackFloor) -> (result: Result<
    (i64, i64),
    CoordinatorRollbackFloorSingletonAnchorStoreError,
>)
    ensures
        result == (if floor.floor.chain_epoch > i64::MAX {
            Err::<(i64, i64), _>(
                CoordinatorRollbackFloorSingletonAnchorStoreError::IntegerOutOfRange,
            )
        } else {
            Ok((floor.floor.network.chain_id as i64, floor.floor.chain_epoch as i64))
        }),
{
    if floor.floor.chain_epoch > i64::MAX as u64 {
        Err(CoordinatorRollbackFloorSingletonAnchorStoreError::IntegerOutOfRange)
    } else {
        Ok((floor.floor.network.chain_id as i64, floor.floor.chain_epoch as i64))
    }
}

/// A floor can be anchored only while the head is idle and still the activation head.
pub fn require_activation_head(current: &StoredHead, floor: &RollbackFloor) -> (result: Result<
    (),
    CoordinatorRollbackFloorSingletonAnchorStoreError,
>)
    ensures
        result == (if current.control == RollbackControlState::Idle && current.canonical
            == floor.floor && current.revision == floor.activation_head_revision {
            Ok::<(), CoordinatorRollbackFloorSingletonAnchorStoreError>(())
        } else {
            Err(CoordinatorRollbackFloorSingletonAnchorStoreError::MissingAfterHeadAdvanced)
        }),
{
    let idle: bool = match current.control {
        RollbackControlState::Idle => true,
        _ => false,
    };
    if !idle || !current.canonical.same(&floor.floor) || current.revision
        != floor.activation_head_revision {
        Err(CoordinatorRollbackFloorSingletonAnchorStoreError::MissingAfterHeadAdvanced)
    } else {
        Ok(())
    }
}

/// The cells that a floor is activated over, and what the storage codec makes of the
/// latest Layer 2 value.
pub struct ActivationSources {
    pub latest_l2: SourceCell,
    pub target_l2: SourceCell,
    pub latest_checkpoint: SourceCell,
    pub decoded: Result<DecodedL2<Vec<u8>>, String>,
}

/// A read of the anchor table that failed, and the text of its failure.
#[derive(Clone, Debug, PartialEq, Eq)]
pub struct AnchorReadFailure {
    pub error: CoordinatorRollbackFloorSingletonAnchorStoreError,
    pub text: String,
}

/// What the store has to do next for a floor to be anchored.
pub enum AnchorStage {
    ValidateHead,
    ReadExisting,
    ReadTarget(FloorAnchor),
    ReadSources,
    Insert(FloorAnchor),
    ReadBack { expected: FloorAnchor, failure: String },
    ReadPersisted(FloorAnchor),
    ReadSourcesAgain { expected: FloorAnchor, persisted: FloorAnchor },
    Anchored(FloorAnchor),
}

/// What the store did.
pub enum AnchorEvent {
    HeadValidated(Result<(), String>),
    Anchor(Result<Option<FloorAnchor>, AnchorReadFailure>),
    Target(Result<SourceCell, CoordinatorRollbackFloorSingletonAnchorStoreError>),
    Sources(Result<ActivationSources, CoordinatorRollbackFloorSingletonAnchorStoreError>),
    Executed(Result<(), String>),
}

/// The head is idle and still the one that the floor was activated at.
pub open spec fn at_activation_head(current: &StoredHead, floor: &RollbackFloor) -> bool {
    current.control == RollbackControlState::Idle && current.canonical == floor.floor
        && current.revision == floor.activation_head_revision
}

/// The anchor that the activation sources make.
pub open spec fn sources_make(floor: RollbackFloorModel, sources: ActivationSources) -> Result<
    FloorAnchorModel,
    CoordinatorRollbackFloorSingletonAnchorError,
> {
    admitted_anchor(
        floor,
        sources.latest_l2@,
        sources.target_l2@,
        sources.latest_checkpoint@,
        l2_outcome(sources.decoded),
    )
}

fn anchor_from_sources(floor: &RollbackFloor, sources: ActivationSources) -> (result: Result<
    FloorAnchor,
    CoordinatorRollbackFloorSingletonAnchorStoreError,
>)
    ensures
        match (sources_make(floor@, sources), result) {
            (Ok(model), Ok(anchor)) => anchor@ == model,
            (
                Err(error),
                Err(CoordinatorRollbackFloorSingletonAnchorStoreError::Anchor(found)),
            ) => found == error,
            _ => false,
        },
{
    match CoordinatorRollbackFloorSingletonAnchor::try_new(
        floor.copy(),
        &sources.latest_l2,
        &sources.target_l2,
        &sources.latest_checkpoint,
        sources.decoded,
    ) {
        Ok(anchor) => Ok(anchor),
        Err(error) => Err(CoordinatorRollbackFloorSingletonAnchorStoreError::Anchor(error)),
    }
}

/// What the next stage, or the failure, has to be.
pub open spec fn anchor_step(
    stage: AnchorStage,
    event: AnchorEvent,
    current: &StoredHead,
    floor: &RollbackFloor,
    result: Result<AnchorStage, CoordinatorRollbackFloorSingletonAnchorStoreError>,
) -> bool {
    match (stage, event) {
        (AnchorStage::ValidateHead, AnchorEvent::HeadValidated(Err(refused))) => result == Err::<
            AnchorStage,
            _,
        >(CoordinatorRollbackFloorSingletonAnchorStoreError::Floor(refused)),
        (AnchorStage::ValidateHead, AnchorEvent::HeadValidated(Ok(_))) => result == Ok::<
            AnchorStage,
            CoordinatorRollbackFloorSingletonAnchorStoreError,
        >(AnchorStage::ReadExisting),
        (AnchorStage::ReadExisting, AnchorEvent::Anchor(Ok(Some(anchor)))) => if anchor@.floor
            == floor@ {
            result == Ok::<AnchorStage, CoordinatorRollbackFloorSingletonAnchorStoreError>(
                AnchorStage::ReadTarget(anchor),
            )
        } else {
            result == Err::<AnchorStage, _>(
                CoordinatorRollbackFloorSingletonAnchorStoreError::Anchor(
                    CoordinatorRollbackFloorSingletonAnchorError::FloorMismatch,
                ),
            )
        },
        (AnchorStage::ReadExisting, AnchorEvent::Anchor(Ok(None))) => if at_activation_head(
            current,
            floor,
        ) {
            result == Ok::<AnchorStage, CoordinatorRollbackFloorSingletonAnchorStoreError>(
                AnchorStage::ReadSources,
            )
        } else {
            result == Err::<AnchorStage, _>(
                CoordinatorRollbackFloorSingletonAnchorStoreError::MissingAfterHeadAdvanced,
            )
        },
        (AnchorStage::ReadTarget(anchor), AnchorEvent::Target(Ok(target))) => if target@.bytes
            == anchor@.latest_l2_stored_value && target@.writetime_us
            == anchor@.target_l2_writetime_us {
            result == Ok::<AnchorStage, CoordinatorRollbackFloorSingletonAnchorStoreError>(
                AnchorStage::Anchored(anchor),
            )
        } else {
            result == Err::<AnchorStage, _>(
                CoordinatorRollbackFloorSingletonAnchorStoreError::Anchor(
                    CoordinatorRollbackFloorSingletonAnchorError::TargetL2Changed,
                ),
            )
        },
        (AnchorStage::ReadTarget(_), AnchorEvent::Target(Err(error))) => result == Err::<
            AnchorStage,
            _,
        >(error),
        (AnchorStage::ReadSources, AnchorEvent::Sources(Ok(sources))) => match sources_make(
            floor@,
            sources,
        ) {
            Ok(model) => result matches Ok(AnchorStage::Insert(expected)) && expected@ == model,
            Err(error) => result == Err::<AnchorStage, _>(
                CoordinatorRollbackFloorSingletonAnchorStoreError::Anchor(error),
            ),
        },
        (AnchorStage::Insert(expected), AnchorEvent::Executed(Ok(_))) => result == Ok::<
            AnchorStage,
            CoordinatorRollbackFloorSingletonAnchorStoreError,
        >(AnchorStage::ReadPersisted(expected)),
        (AnchorStage::Insert(expected), AnchorEvent::Executed(Err(failure))) => result == Ok::<
            AnchorStage,
            CoordinatorRollbackFloorSingletonAnchorStoreError,
        >(AnchorStage::ReadBack { expected, failure }),
        (
            AnchorStage::ReadBack { expected, .. },
            AnchorEvent::Anchor(Ok(Some(found))),
        ) => if found@ == expected@ {
            result == Ok::<AnchorStage, CoordinatorRollbackFloorSingletonAnchorStoreError>(
                AnchorStage::ReadPersisted(expected),
            )
        } else {
            result == Err::<AnchorStage, _>(
                CoordinatorRollbackFloorSingletonAnchorStoreError::Conflict,
            )
        },
        (AnchorStage::ReadBack { failure, .. }, AnchorEvent::Anchor(Ok(None))) => result == Err::<
            AnchorStage,
            _,
        >(CoordinatorRollbackFloorSingletonAnchorStoreError::IndeterminateWrite(failure)),
        (
            AnchorStage::ReadBack { failure, .. },
            AnchorEvent::Anchor(Err(read)),
        ) => result matches Err(
            CoordinatorRollbackFloorSingletonAnchorStoreError::IndeterminateWrite(text),
        ) && text@ == lwt::both_failed(failure@, read.text@),
        (AnchorStage::ReadPersisted(expected), AnchorEvent::Anchor(Ok(Some(found)))) => if found@
            == expected@ {
            result == Ok::<AnchorStage, CoordinatorRollbackFloorSingletonAnchorStoreError>(
                AnchorStage::ReadSourcesAgain { expected, persisted: found },
            )
        } else {
            result == Err::<AnchorStage, _>(
                CoordinatorRollbackFloorSingletonAnchorStoreError::Conflict,
            )
        },
        (AnchorStage::ReadPersisted(_), AnchorEvent::Anchor(Ok(None))) => result == Err::<
            AnchorStage,
            _,
        >(CoordinatorRollbackFloorSingletonAnchorStoreError::MissingAfterWrite),
        (
            AnchorStage::ReadSourcesAgain { expected, persisted },
            AnchorEvent::Sources(Ok(sources)),
        ) => match sources_make(floor@, sources) {
            Ok(model) => if model == expected@ {
                result == Ok::<AnchorStage, CoordinatorRollbackFloorSingletonAnchorStoreError>(
                    AnchorStage::Anchored(persisted),
                )
            } else {
                result == Err::<AnchorStage, _>(
                    CoordinatorRollbackFloorSingletonAnchorStoreError::SourceChanged,
                )
            },
            Err(error) => result == Err::<AnchorStage, _>(
                CoordinatorRollbackFloorSingletonAnchorStoreError::Anchor(error),
            ),
        },
        (AnchorStage::ReadExisting, AnchorEvent::Anchor(Err(read))) => result == Err::<
            AnchorStage,
            _,
        >(read.error),
        (AnchorStage::ReadPersisted(_), AnchorEvent::Anchor(Err(read))) => result == Err::<
            AnchorStage,
            _,
        >(read.error),
        (AnchorStage::ReadSources, AnchorEvent::Sources(Err(error))) => result == Err::<
            AnchorStage,
            _,
        >(error),
        (AnchorStage::ReadSourcesAgain { .. }, AnchorEvent::Sources(Err(error))) => result
            == Err::<AnchorStage, _>(error),
        _ => result == Err::<AnchorStage, _>(
            CoordinatorRollbackFloorSingletonAnchorStoreError::OutOfOrder,
        ),
    }
}

/// Anchors a floor, one step at a time. An anchor that is already there has to be the
/// floor's, over an unchanged target. A new one is inserted only at the activation
/// head, and counts only once the store holds it over sources that make it again.
pub fn ensure(
    stage: AnchorStage,
    event: AnchorEvent,
    current: &StoredHead,
    floor: &RollbackFloor,
) -> (result: Result<AnchorStage, CoordinatorRollbackFloorSingletonAnchorStoreError>)
    ensures
        anchor_step(stage, event, current, floor, result),
{
    match (stage, event) {
        (AnchorStage::ValidateHead, AnchorEvent::HeadValidated(validated)) => match validated {
            Err(refused) => Err(CoordinatorRollbackFloorSingletonAnchorStoreError::Floor(refused)),
            Ok(_) => Ok(AnchorStage::ReadExisting),
        },
        (AnchorStage::ReadExisting, AnchorEvent::Anchor(read)) => match read {
            Ok(Some(anchor)) => match anchor.validate_floor(floor) {
                Err(error) => Err(CoordinatorRollbackFloorSingletonAnchorStoreError::Anchor(error)),
                Ok(_) => Ok(AnchorStage::ReadTarget(anchor)),
            },
            Ok(None) => match require_activation_head(current, floor) {
                Err(error) => Err(error),
                Ok(_) => Ok(AnchorStage::ReadSources),
            },
            Err(read) => Err(read.error),
        },
        (AnchorStage::ReadTarget(anchor), AnchorEvent::Target(read)) => match read {
            Err(error) => Err(error),
            Ok(target) => match anchor.validate_target_l2(&target) {
                Err(error) => Err(CoordinatorRollbackFloorSingletonAnchorStoreError::Anchor(error)),
                Ok(_) => Ok(AnchorStage::Anchored(anchor)),
            },
        },
        (AnchorStage::ReadSources, AnchorEvent::Sources(read)) => match read {
            Err(error) => Err(error),
            Ok(sources) => match anchor_from_sources(floor, sources) {
                Err(error) => Err(error),
                Ok(expected) => Ok(AnchorStage::Insert(expected)),
            },
        },
        (AnchorStage::Insert(expected), AnchorEvent::Executed(execution)) => match execution {
            Ok(_) => Ok(AnchorStage::ReadPersisted(expected)),
            Err(failure) => Ok(AnchorStage::ReadBack { expected, failure }),
        },
        (AnchorStage::ReadBack { expected, failure }, AnchorEvent::Anchor(read)) => match read {
            Ok(Some(found)) => if found.same(&expected) {
                Ok(AnchorStage::ReadPersisted(expected))
            } else {
                Err(CoordinatorRollbackFloorSingletonAnchorStoreError::Conflict)
            },
            Ok(None) => Err(
                CoordinatorRollbackFloorSingletonAnchorStoreError::IndeterminateWrite(failure),
            ),
            Err(read) => Err(
                CoordinatorRollbackFloorSingletonAnchorStoreError::IndeterminateWrite(
                    both_failed_text(failure.as_str(), read.text.as_str()),
                ),
            ),
        },
        (AnchorStage::ReadPersisted(expected), AnchorEvent::Anchor(read)) => match read {
            Ok(Some(found)) => if found.same(&expected) {
                Ok(AnchorStage::ReadSourcesAgain { expected, persisted: found })
            } else {
                Err(CoordinatorRollbackFloorSingletonAnchorStoreError::Conflict)
            },
            Ok(None) => Err(CoordinatorRollbackFloorSingletonAnchorStoreError::MissingAfterWrite),
            Err(read) => Err(read.error),
        },
        (
            AnchorStage::ReadSourcesAgain { expected, persisted },
            AnchorEvent::Sources(read),
        ) => match read {
            Err(error) => Err(error),
            Ok(sources) => match anchor_from_sources(floor, sources) {
                Err(error) => Err(error),
                Ok(again) => if again.same(&expected) {
                    Ok(AnchorStage::Anchored(persisted))
                } else {
                    Err(CoordinatorRollbackFloorSingletonAnchorStoreError::SourceChanged)
                },
            },
        },
        _ => Err(CoordinatorRollbackFloorSingletonAnchorStoreError::OutOfOrder),
    }
}

/// A floor is anchored only by an anchor that the store was read to hold, and then
/// either over the target it was made of, or over sources that make it again.
pub proof fn law_anchored_floor_was_read_back(
    stage: AnchorStage,
    event: AnchorEvent,
    current: &StoredHead,
    floor: &RollbackFloor,
    result: Result<AnchorStage, CoordinatorRollbackFloorSingletonAnchorStoreError>,
)
    requires
        anchor_step(stage, event, current, floor, result),
    ensures
        result matches Ok(AnchorStage::Anchored(anchor)) ==> match stage {
            AnchorStage::ReadTarget(existing) => anchor == existing && (
            event matches AnchorEvent::Target(Ok(target)) && target@.bytes
                == anchor@.latest_l2_stored_value && target@.writetime_us
                == anchor@.target_l2_writetime_us),
            AnchorStage::ReadSourcesAgain { expected, persisted } => anchor == persisted && (
            event matches AnchorEvent::Sources(Ok(sources)) && sources_make(floor@, sources)
                == Ok::<FloorAnchorModel, CoordinatorRollbackFloorSingletonAnchorError>(
                expected@,
            )),
            _ => false,
        },
        result matches Ok(AnchorStage::ReadTarget(anchor)) ==> anchor@.floor == floor@
            && stage is ReadExisting,
        result matches Ok(AnchorStage::ReadSourcesAgain { expected, persisted }) ==> persisted@
            == expected@ && stage is ReadPersisted,
        result matches Ok(AnchorStage::ReadSources) ==> at_activation_head(current, floor),
{
}

/// The end of an anchor reads back, whatever stands before it.
proof fn lemma_anchor_tail(front: Seq<u8>, anchor: FloorAnchorModel)
    ensures
        ({
            let s = front + (bytes::be_i64(anchor.latest_l2_writetime_us) + bytes::be_i64(
                anchor.target_l2_writetime_us,
            ) + bytes::be64(anchor.latest_checkpoint) + bytes::be_i64(
                anchor.latest_checkpoint_writetime_us,
            ) + anchor.digest@);
            let at = front.len() as int;
            &&& bytes::i64_at(s, at) == anchor.latest_l2_writetime_us
            &&& bytes::i64_at(s, at + 8) == anchor.target_l2_writetime_us
            &&& bytes::u64_at(s, at + 16) == anchor.latest_checkpoint
            &&& bytes::i64_at(s, at + 24) == anchor.latest_checkpoint_writetime_us
            &&& bytes::digest_at(s, at + 32) == anchor.digest
            &&& s.len() == at + 64
        }),
{
    bytes::lemma_be_lens();
    let s = front + (bytes::be_i64(anchor.latest_l2_writetime_us) + bytes::be_i64(
        anchor.target_l2_writetime_us,
    ) + bytes::be64(anchor.latest_checkpoint) + bytes::be_i64(
        anchor.latest_checkpoint_writetime_us,
    ) + anchor.digest@);
    let at = front.len() as int;
    assert(s.subrange(at, at + 8) =~= bytes::be_i64(anchor.latest_l2_writetime_us));
    assert(s.subrange(at + 8, at + 8 + 8) =~= bytes::be_i64(anchor.target_l2_writetime_us));
    assert(s.subrange(at + 16, at + 16 + 8) =~= bytes::be64(anchor.latest_checkpoint));
    assert(s.subrange(at + 24, at + 24 + 8) =~= bytes::be_i64(
        anchor.latest_checkpoint_writetime_us,
    ));
    assert(s.subrange(at + 32, at + 32 + 32) =~= anchor.digest@);
    bytes::lemma_write_then_read(s, at);
    bytes::lemma_write_then_read(s, at + 8);
    bytes::lemma_write_then_read(s, at + 16);
    bytes::lemma_write_then_read(s, at + 24);
    bytes::lemma_write_then_read(s, at + 32);
}

/// An anchor made from what was observed decodes from its canonical bytes to itself,
/// unless its digest is all zero.
#[verifier::spinoff_prover]
#[verifier::rlimit(40)]
pub proof fn law_floor_anchor_round_trips(
    floor: RollbackFloorModel,
    latest_l2: SourceCellModel,
    target_l2: SourceCellModel,
    latest_checkpoint: SourceCellModel,
    l2: Result<DecodedL2<Seq<u8>>, String>,
)
    ensures
        admitted_anchor(floor, latest_l2, target_l2, latest_checkpoint, l2) matches Ok(anchor)
            ==> !bytes::zero_digest(anchor.digest) ==> decoded_anchor(
            ROW_REVISION,
            anchor.canonical_bytes,
            Ok(floor),
            l2,
        ) == Ok::<FloorAnchorModel, CoordinatorRollbackFloorSingletonAnchorError>(anchor),
{
    if let Ok(anchor) = admitted_anchor(floor, latest_l2, target_l2, latest_checkpoint, l2) {
        bytes::lemma_be_lens();
        let s = anchor.canonical_bytes;
        let stored = anchor.latest_l2_stored_value;
        let canonical = floor.canonical;
        let head = MAGIC@ + bytes::be16(VERSION);
        let front = head + bytes::counted(canonical) + bytes::counted(stored);
        let tail = bytes::be_i64(anchor.latest_l2_writetime_us) + bytes::be_i64(
            anchor.target_l2_writetime_us,
        ) + bytes::be64(anchor.latest_checkpoint) + bytes::be_i64(
            anchor.latest_checkpoint_writetime_us,
        ) + anchor.digest@;
        assert(s =~= front + tail);
        lemma_anchor_tail(front, anchor);
        assert(head.subrange(0, 8) =~= MAGIC@);
        assert(head.subrange(8, 10) =~= bytes::be16(VERSION));
        bytes::lemma_write_then_read(head, 8);
        assert(s.subrange(0, 10) =~= head);
        bytes::lemma_read_in_front(head, s);
        let l2_at = 14 + canonical.len() as int;
        assert(s.subrange(10, l2_at) =~= bytes::counted(canonical));
        bytes::lemma_counted(s, 10, canonical);
        assert(s.subrange(l2_at, l2_at + 4 + stored.len()) =~= bytes::counted(stored));
        bytes::lemma_counted(s, l2_at, stored);
        assert(s.subrange(0, s.len() - 32) =~= anchor_body(anchor));
    }
}

/// The parts that other codecs read from an anchor are those that it was made of.
#[verifier::spinoff_prover]
#[verifier::rlimit(40)]
pub proof fn law_floor_anchor_parts_are_its_own(
    floor: RollbackFloorModel,
    latest_l2: SourceCellModel,
    target_l2: SourceCellModel,
    latest_checkpoint: SourceCellModel,
    l2: Result<DecodedL2<Seq<u8>>, String>,
)
    ensures
        admitted_anchor(floor, latest_l2, target_l2, latest_checkpoint, l2) matches Ok(anchor)
            ==> foreign_parts_of(anchor.canonical_bytes) == Some(
            (floor.canonical, latest_l2.bytes),
        ),
{
    if let Ok(anchor) = admitted_anchor(floor, latest_l2, target_l2, latest_checkpoint, l2) {
        bytes::lemma_be_lens();
        let s = anchor.canonical_bytes;
        let stored = anchor.latest_l2_stored_value;
        let l2_at = 14 + floor.canonical.len() as int;
        assert(s.subrange(10, l2_at) =~= bytes::counted(floor.canonical));
        bytes::lemma_counted(s, 10, floor.canonical);
        assert(s.subrange(l2_at, l2_at + 4 + stored.len()) =~= bytes::counted(stored));
        bytes::lemma_counted(s, l2_at, stored);
    }
}

/// Bytes that decode are the only bytes of what they decode to, and its digest is that
/// of its contents.
#[verifier::spinoff_prover]
#[verifier::rlimit(40)]
pub proof fn law_decoded_floor_anchor_is_canonical(
    row_revision: i64,
    bytes: Seq<u8>,
    floor: Result<RollbackFloorModel, String>,
    l2: Result<DecodedL2<Seq<u8>>, String>,
)
    ensures
        decoded_anchor(row_revision, bytes, floor, l2) matches Ok(anchor) ==> {
            &&& anchor.canonical_bytes == bytes
            &&& bytes == anchor_body(anchor) + anchor.digest@
            &&& anchor.digest == anchor_digest_of(anchor_body(anchor))
            &&& anchor.latest_checkpoint == anchor.floor.floor.checkpoint.height
        },
{
    if let Ok(anchor) = decoded_anchor(row_revision, bytes, floor, l2) {
        bytes::lemma_read_then_write(bytes, bytes.len() - 32);
        assert(bytes =~= bytes.subrange(0, bytes.len() - 32) + bytes.subrange(
            bytes.len() - 32,
            bytes.len() as int,
        ));
    }
}

/// An anchor holds the floor's own checkpoint, and accepts as its target only the cell
/// that it was made from.
pub proof fn law_floor_anchor_binds_its_sources(
    floor: RollbackFloorModel,
    latest_l2: SourceCellModel,
    target_l2: SourceCellModel,
    latest_checkpoint: SourceCellModel,
    l2: Result<DecodedL2<Seq<u8>>, String>,
)
    ensures
        admitted_anchor(floor, latest_l2, target_l2, latest_checkpoint, l2) matches Ok(anchor)
            ==> {
            &&& anchor.floor == floor
            &&& anchor.latest_checkpoint == floor.floor.checkpoint.height
            &&& anchor.latest_l2_stored_value == target_l2.bytes
            &&& anchor.target_l2_writetime_us == target_l2.writetime_us
        },
{
}

/// A checkpoint written to the signed singleton table reads back.
#[verifier::spinoff_prover]
#[verifier::rlimit(40)]
pub proof fn law_checkpoint_cell_round_trips(value: i64)
    requires
        value >= 0,
    ensures
        decoded_checkpoint(bytes::be_i64(value)) == Ok::<
            u64,
            CoordinatorRollbackFloorSingletonAnchorError,
        >(value as u64),
{
    bytes::lemma_be_lens();
    let cell = bytes::be_i64(value);
    assert(cell.subrange(0, 8) =~= cell);
    bytes::lemma_write_then_read(cell, 0);
}

/// An anchor is made only of sources that agree: the latest and the target Layer 2 value
/// are the same bytes, they and the latest checkpoint are at the floor's height. It holds
/// the floor and each source with that source's own write time, and its digest is that of
/// all its bytes before it.
pub proof fn law_anchor_holds_agreeing_sources(
    floor: RollbackFloorModel,
    latest_l2: SourceCellModel,
    target_l2: SourceCellModel,
    latest_checkpoint: SourceCellModel,
    l2: Result<DecodedL2<Seq<u8>>, String>,
)
    ensures
        admitted_anchor(floor, latest_l2, target_l2, latest_checkpoint, l2) matches Ok(anchor)
            ==> {
            let all = anchor.canonical_bytes;
            let end = all.len() as int;
            let height = floor.floor.checkpoint.height;
            &&& latest_l2.bytes == target_l2.bytes
            &&& 1 <= latest_l2.bytes.len() <= 16_384
            &&& l2 is Ok
            &&& l2->Ok_0.rebuilt == l2->Ok_0.canonical
            &&& l2->Ok_0.state.checkpoint_id == height
            &&& latest_checkpoint.bytes.len() == 8
            &&& bytes::i64_at(latest_checkpoint.bytes, 0) == height
            &&& anchor.floor == floor
            &&& anchor.latest_l2_stored_value == latest_l2.bytes
            &&& anchor.latest_l2_writetime_us == latest_l2.writetime_us
            &&& anchor.target_l2_writetime_us == target_l2.writetime_us
            &&& anchor.latest_checkpoint == height
            &&& anchor.latest_checkpoint_writetime_us == latest_checkpoint.writetime_us
            &&& end >= 32
            &&& all.subrange(end - 32, end) == anchor.digest@
            &&& anchor.digest == hash::sha256(
                bytes::text("psy.rollback.coordinator-floor-singleton-anchor.v1\0"@)
                    + all.subrange(0, end - 32),
            )
        },
{
    if let Ok(anchor) = admitted_anchor(floor, latest_l2, target_l2, latest_checkpoint, l2) {
        let all = anchor.canonical_bytes;
        let end = all.len() as int;
        assert(all.subrange(0, end - 32) =~= anchor_body(anchor));
        assert(all.subrange(end - 32, end) =~= anchor.digest@);
    }
}

/// Sources that agree at the floor's height are anchored, unless they are too long.
pub proof fn law_agreeing_sources_are_anchored(
    floor: RollbackFloorModel,
    latest_l2: SourceCellModel,
    target_l2: SourceCellModel,
    latest_checkpoint: SourceCellModel,
    l2: Result<DecodedL2<Seq<u8>>, String>,
)
    requires
        latest_l2.bytes == target_l2.bytes,
        1 <= latest_l2.bytes.len() <= 16_384,
        floor.canonical.len() <= 16_000,
        l2 is Ok,
        l2->Ok_0.rebuilt == l2->Ok_0.canonical,
        l2->Ok_0.state.checkpoint_id == floor.floor.checkpoint.height,
        latest_checkpoint.bytes.len() == 8,
        bytes::i64_at(latest_checkpoint.bytes, 0) == floor.floor.checkpoint.height,
    ensures
        admitted_anchor(floor, latest_l2, target_l2, latest_checkpoint, l2) is Ok,
{
    bytes::lemma_be_lens();
}

/// What each disagreement of the sources is answered with.
pub proof fn law_disagreeing_sources_are_refused(
    floor: RollbackFloorModel,
    latest_l2: SourceCellModel,
    target_l2: SourceCellModel,
    latest_checkpoint: SourceCellModel,
    l2: Result<DecodedL2<Seq<u8>>, String>,
)
    ensures
        ({
            let made = admitted_anchor(floor, latest_l2, target_l2, latest_checkpoint, l2);
            let height = floor.floor.checkpoint.height;
            &&& latest_l2.bytes != target_l2.bytes ==> made is Err && made->Err_0
                is LatestL2TargetMismatch
            &&& made is Err && made->Err_0 is LatestL2TargetMismatch ==> latest_l2.bytes
                != target_l2.bytes
            &&& made is Err && made->Err_0 is CheckpointMismatch ==> l2 is Ok
                && !(l2->Ok_0.state.checkpoint_id == height && bytes::i64_at(
                latest_checkpoint.bytes,
                0,
            ) == height)
            &&& made is Err && made->Err_0 is InvalidCheckpoint ==> latest_checkpoint.bytes.len()
                != 8 || bytes::i64_at(latest_checkpoint.bytes, 0) < 0
            &&& made is Err && made->Err_0 is NonCanonicalL2 ==> l2 is Ok && l2->Ok_0.rebuilt
                != l2->Ok_0.canonical
        }),
{
}

/// What a decoder accepts is at the floor's own height, over a Layer 2 value of that
/// checkpoint.
pub proof fn law_decoded_anchor_is_at_its_floor(
    row_revision: i64,
    bytes: Seq<u8>,
    floor: Result<RollbackFloorModel, String>,
    l2: Result<DecodedL2<Seq<u8>>, String>,
)
    ensures
        decoded_anchor(row_revision, bytes, floor, l2) matches Ok(anchor) ==> {
            &&& row_revision == 1
            &&& floor == Ok::<_, String>(anchor.floor)
            &&& anchor.floor.floor.checkpoint.height == anchor.latest_checkpoint
            &&& l2 is Ok
            &&& l2->Ok_0.rebuilt == l2->Ok_0.canonical
            &&& l2->Ok_0.state.checkpoint_id == anchor.latest_checkpoint
            &&& 1 <= anchor.latest_l2_stored_value.len() <= 16_384
            &&& !bytes::zero_digest(anchor.digest)
        },
{
}

/// A floor without an anchor is anchored only while the head is idle, at the floor and of
/// the revision that activated it; an anchor that is there has to be of this very floor.
/// A new anchor is the one that the sources make, and an insert that failed counts only
/// if the very anchor is found.
pub proof fn law_floor_is_anchored_at_its_activation(
    stage: AnchorStage,
    event: AnchorEvent,
    current: &StoredHead,
    floor: &RollbackFloor,
    result: Result<AnchorStage, CoordinatorRollbackFloorSingletonAnchorStoreError>,
)
    requires
        anchor_step(stage, event, current, floor, result),
    ensures
        stage is ReadExisting && event == AnchorEvent::Anchor(Ok(None)) ==> {
            let active = current.control is Idle && current.canonical == floor.floor
                && current.revision == floor.activation_head_revision;
            &&& active ==> result is Ok && result->Ok_0 is ReadSources
            &&& !active ==> result is Err && result->Err_0 is MissingAfterHeadAdvanced
        },
        stage is ReadExisting && (event matches AnchorEvent::Anchor(Ok(Some(anchor))) && anchor@.floor
            == floor@) ==> result is Ok && result->Ok_0 == AnchorStage::ReadTarget(
            (event->Anchor_0->Ok_0)->0,
        ),
        result matches Ok(AnchorStage::ReadTarget(anchor)) ==> anchor@.floor == floor@ && event
            == AnchorEvent::Anchor(Ok(Some(anchor))),
        result matches Ok(AnchorStage::Insert(expected)) ==> stage is ReadSources && (
        event matches AnchorEvent::Sources(Ok(sources)) && admitted_anchor(
            floor@,
            sources.latest_l2@,
            sources.target_l2@,
            sources.latest_checkpoint@,
            l2_outcome(sources.decoded),
        ) == Ok::<_, CoordinatorRollbackFloorSingletonAnchorError>(expected@)),
        result matches Ok(AnchorStage::ReadPersisted(expected)) ==> match stage {
            AnchorStage::Insert(inserted) => inserted == expected && (
            event matches AnchorEvent::Executed(Ok(_))),
            AnchorStage::ReadBack { expected: inserted, .. } => inserted == expected && (
            event matches AnchorEvent::Anchor(Ok(Some(found))) && found@ == expected@),
            _ => false,
        },
        result matches Ok(AnchorStage::ReadSourcesAgain { expected, persisted }) ==> stage
            == AnchorStage::ReadPersisted(expected) && event == AnchorEvent::Anchor(
            Ok(Some(persisted)),
        ) && persisted@ == expected@,
        (stage matches AnchorStage::Insert(_)) && event is Executed ==> result is Ok,
        stage is ReadTarget && (event matches AnchorEvent::Target(Ok(target)) && !(target@.bytes
            == stage->ReadTarget_0@.latest_l2_stored_value && target@.writetime_us
            == stage->ReadTarget_0@.target_l2_writetime_us)) ==> result is Err,
        stage is ReadTarget && (event matches AnchorEvent::Target(Ok(target)) && target@.bytes
            == stage->ReadTarget_0@.latest_l2_stored_value && target@.writetime_us
            == stage->ReadTarget_0@.target_l2_writetime_us) ==> result is Ok && result->Ok_0
            is Anchored,
{
}

} // verus!
