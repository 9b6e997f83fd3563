//! Durable Coordinator participant completion behind the global rollback barrier.
//!
//! A completion is immutable and can only be built from what the physical executor
//! has done. It does not publish the target head: a global delete barrier has to
//! collect the matching realm completions first.

use vstd::prelude::*;

use crate::bytes;
use crate::bytes::{
    array_equal, array_from, bytes_equal, copy_bytes, is_zero_digest, push_bytes, push_counted,
    push_i32, push_i64, push_len, push_text, push_u16, push_u32, push_u64, text_bytes, Cursor,
};
use crate::coordinator_rollback_archive_store::COORDINATOR_ROLLBACK_SUFFIX_ARCHIVE_TABLE;
use crate::hash;
use crate::hash::sha256_digest;
use crate::keyspace::CqlKeyspaceName;
use crate::lwt;
use crate::lwt::{settle, LwtReadback, LwtVerdict, LwtWrite, Stored};
use crate::model::{
    CanonicalChainRef, NetworkId, RollbackControlState, StoredCanonicalHead, StoredHead,
    StoredHeadModel,
};
use crate::text;
use crate::text::{concat3, qualify};

verus! {

pub const KEY_DOMAIN: i16 = -5;

pub const REVISION: i64 = 1;

/// `PSYCRDC1`.
pub const MAGIC: [u8; 8] = [0x50, 0x53, 0x59, 0x43, 0x52, 0x44, 0x43, 0x31];

pub const VERSION: u16 = 1;

pub const MAX_ROW_BYTES: usize = 16_384;

#[derive(Clone, Debug, PartialEq, Eq)]
pub enum CoordinatorRollbackDeleteCompletionStoreError {
    Backend(String),
    Model(String),
    InvalidMagic,
    UnknownVersion(u16),
    BindingMismatch,
    IntegerOutOfCqlRange,
    LengthOverflow,
    RowTooLarge,
    MalformedRow,
    Truncated,
    TrailingBytes,
    DigestMismatch,
    NonCanonicalEncoding,
    Conflict,
    Indeterminate(String),
    MissingAfterPersist,
    StoreFingerprintMismatch,
    OutOfOrder,
}

/// What the physical executor has done, and under which plan, barrier and store.
#[derive(Clone, Copy, Debug, PartialEq, Eq)]
pub struct ExecutedDeletion {
    pub participant_plan_digest: [u8; 32],
    pub barrier_digest: [u8; 32],
    pub delete_plan_store_fingerprint: [u8; 32],
    pub delete_plan_slot: [u8; 32],
    pub delete_plan_digest: [u8; 32],
    pub target_restore_digest: [u8; 32],
    pub post_state_digest: [u8; 32],
    pub physical_delete_count: u64,
    pub restored_singleton_count: u64,
    pub store_fingerprint: [u8; 32],
}

impl ExecutedDeletion {
    pub fn same(&self, other: &Self) -> (same: bool)
        ensures
            same == (*self == *other),
    {
        array_equal::<32>(&self.participant_plan_digest, &other.participant_plan_digest)
            && array_equal::<32>(&self.barrier_digest, &other.barrier_digest) && array_equal::<32>(
            &self.delete_plan_store_fingerprint,
            &other.delete_plan_store_fingerprint,
        ) && array_equal::<32>(&self.delete_plan_slot, &other.delete_plan_slot)
            && array_equal::<32>(&self.delete_plan_digest, &other.delete_plan_digest)
            && array_equal::<32>(&self.target_restore_digest, &other.target_restore_digest)
            && array_equal::<32>(&self.post_state_digest, &other.post_state_digest)
            && self.physical_delete_count == other.physical_delete_count
            && self.restored_singleton_count == other.restored_singleton_count && array_equal::<32>(
            &self.store_fingerprint,
            &other.store_fingerprint,
        )
    }

    /// One of its commitments is all zero.
    pub open spec fn spec_has_zero(self) -> bool {
        ||| bytes::zero_digest(self.participant_plan_digest)
        ||| bytes::zero_digest(self.barrier_digest)
        ||| bytes::zero_digest(self.delete_plan_store_fingerprint)
        ||| bytes::zero_digest(self.delete_plan_slot)
        ||| bytes::zero_digest(self.delete_plan_digest)
        ||| bytes::zero_digest(self.target_restore_digest)
        ||| bytes::zero_digest(self.post_state_digest)
        ||| bytes::zero_digest(self.store_fingerprint)
    }

    fn has_zero(&self) -> (zero: bool)
        ensures
            zero == self.spec_has_zero(),
    {
        is_zero_digest(&self.participant_plan_digest) || is_zero_digest(&self.barrier_digest)
            || is_zero_digest(&self.delete_plan_store_fingerprint) || is_zero_digest(
            &self.delete_plan_slot,
        ) || is_zero_digest(&self.delete_plan_digest) || is_zero_digest(
            &self.target_restore_digest,
        ) || is_zero_digest(&self.post_state_digest) || is_zero_digest(&self.store_fingerprint)
    }

    pub open spec fn image(self) -> Seq<u8> {
        self.participant_plan_digest@ + self.barrier_digest@ + self.delete_plan_store_fingerprint@
            + self.delete_plan_slot@ + self.delete_plan_digest@ + self.target_restore_digest@
            + self.post_state_digest@ + bytes::be64(self.physical_delete_count) + bytes::be64(
            self.restored_singleton_count,
        ) + self.store_fingerprint@
    }
}

/// What stands at `at` of a completion, as the executor's record.
pub open spec fn executed_at(s: Seq<u8>, at: int) -> ExecutedDeletion {
    ExecutedDeletion {
        participant_plan_digest: bytes::digest_at(s, at),
        barrier_digest: bytes::digest_at(s, at + 32),
        delete_plan_store_fingerprint: bytes::digest_at(s, at + 64),
        delete_plan_slot: bytes::digest_at(s, at + 96),
        delete_plan_digest: bytes::digest_at(s, at + 128),
        target_restore_digest: bytes::digest_at(s, at + 160),
        post_state_digest: bytes::digest_at(s, at + 192),
        physical_delete_count: bytes::u64_at(s, at + 224),
        restored_singleton_count: bytes::u64_at(s, at + 232),
        store_fingerprint: bytes::digest_at(s, at + 240),
    }
}

/// A Coordinator participant's completion of the deletion.
#[verifier::ext_equal]
#[derive(Debug, PartialEq, Eq)]
pub struct CoordinatorRollbackDeleteCompletion<B> {
    pub deleting_head: StoredCanonicalHead<B>,
    pub target: CanonicalChainRef,
    pub executed: ExecutedDeletion,
    pub slot: [u8; 32],
    pub digest: [u8; 32],
    pub canonical_bytes: B,
}

pub type DeleteCompletion = CoordinatorRollbackDeleteCompletion<Vec<u8>>;

pub type DeleteCompletionModel = CoordinatorRollbackDeleteCompletion<Seq<u8>>;

impl View for CoordinatorRollbackDeleteCompletion<Vec<u8>> {
    type V = CoordinatorRollbackDeleteCompletion<Seq<u8>>;

    open spec fn view(&self) -> CoordinatorRollbackDeleteCompletion<Seq<u8>> {
        CoordinatorRollbackDeleteCompletion {
            deleting_head: self.deleting_head@,
            target: self.target,
            executed: self.executed,
            slot: self.slot,
            digest: self.digest,
            canonical_bytes: self.canonical_bytes@,
        }
    }
}

/// The head is deleting, under the executed plan, a rollback to exactly the target;
/// something was deleted, both singletons were restored, and no commitment is zero.
pub open spec fn bound_completion(
    head: StoredHeadModel,
    target: CanonicalChainRef,
    executed: ExecutedDeletion,
) -> bool {
    &&& head.control matches RollbackControlState::Deleting(request) && request.target
        == target.checkpoint && request.plan_digest == executed.participant_plan_digest
    &&& head.canonical.network == target.network
    &&& head.canonical.chain_epoch == target.chain_epoch + 1
    &&& executed.physical_delete_count != 0
    &&& executed.restored_singleton_count == 2
    &&& !executed.spec_has_zero()
}

pub open spec fn completion_slot_of(
    head: StoredHeadModel,
    target: CanonicalChainRef,
    executed: ExecutedDeletion,
) -> [u8; 32] {
    hash::sha256(
        bytes::text("psy.rollback.coordinator-delete-completion-slot.v1\0"@) + bytes::be32(
            target.network.chain_id,
        ) + bytes::be64(target.chain_epoch) + executed.participant_plan_digest@ + bytes::be_i64(
            head.revision,
        ) + head.canonical.canonical@ + head.control_bytes + executed.store_fingerprint@,
    )
}

fn completion_slot(
    head: &StoredHead,
    target: &CanonicalChainRef,
    executed: &ExecutedDeletion,
) -> (slot: [u8; 32])
    ensures
        slot == completion_slot_of(head@, *target, *executed),
{
    let mut preimage: Vec<u8> = text_bytes("psy.rollback.coordinator-delete-completion-slot.v1\0");
    push_u32(&mut preimage, target.network.chain_id);
    push_u64(&mut preimage, target.chain_epoch);
    push_bytes(&mut preimage, &executed.participant_plan_digest);
    push_i64(&mut preimage, head.revision);
    push_bytes(&mut preimage, &head.canonical.canonical);
    push_bytes(&mut preimage, &head.control_bytes);
    push_bytes(&mut preimage, &executed.store_fingerprint);
    sha256_digest(&preimage)
}

/// The part of a completion before the executor's record.
pub open spec fn completion_front(head: StoredHeadModel, target: CanonicalChainRef) -> Seq<u8> {
    MAGIC@ + bytes::be16(VERSION) + bytes::be32(target.network.chain_id) + bytes::be64(
        target.chain_epoch,
    ) + bytes::be_i64(head.revision) + bytes::counted(head.canonical.canonical@) + bytes::counted(
        head.control_bytes,
    ) + target.canonical@
}

/// A completion without its digest.
pub open spec fn completion_body(
    head: StoredHeadModel,
    target: CanonicalChainRef,
    executed: ExecutedDeletion,
    slot: [u8; 32],
) -> Seq<u8> {
    completion_front(head, target) + executed.image() + slot@
}

pub open spec fn completion_digest_of(body: Seq<u8>) -> [u8; 32] {
    hash::sha256(bytes::text("psy.rollback.coordinator-delete-completion.v1\0"@) + body)
}

/// The completion that the given parts make.
pub open spec fn completion_of(
    head: StoredHeadModel,
    target: CanonicalChainRef,
    executed: ExecutedDeletion,
) -> DeleteCompletionModel {
    let slot = completion_slot_of(head, target, executed);
    let body = completion_body(head, target, executed, slot);
    CoordinatorRollbackDeleteCompletion {
        deleting_head: head,
        target,
        executed,
        slot,
        digest: completion_digest_of(body),
        canonical_bytes: body + completion_digest_of(body)@,
    }
}

/// The completion that the given parts make, if they make one.
pub open spec fn admitted_completion(
    head: StoredHeadModel,
    target: CanonicalChainRef,
    executed: ExecutedDeletion,
) -> Result<DeleteCompletionModel, CoordinatorRollbackDeleteCompletionStoreError> {
    let completion = completion_of(head, target, executed);
    if !bound_completion(head, target, executed) {
        Err(CoordinatorRollbackDeleteCompletionStoreError::BindingMismatch)
    } else if head.control_bytes.len() > u32::MAX {
        Err(CoordinatorRollbackDeleteCompletionStoreError::LengthOverflow)
    } else if completion.canonical_bytes.len() > MAX_ROW_BYTES {
        Err(CoordinatorRollbackDeleteCompletionStoreError::RowTooLarge)
    } else {
        Ok(completion)
    }
}

/// The completion that `bytes` hold. `network`, `head` and `target` are what the chain
/// codec makes of the network id, of the head's two byte strings and of the target.
pub open spec fn decoded_completion(
    bytes: Seq<u8>,
    network: Result<(), String>,
    head: Result<StoredHeadModel, String>,
    target: Result<CanonicalChainRef, String>,
) -> Result<DeleteCompletionModel, CoordinatorRollbackDeleteCompletionStoreError> {
    if bytes.len() > MAX_ROW_BYTES || bytes.len() < 32 {
        Err(CoordinatorRollbackDeleteCompletionStoreError::MalformedRow)
    } else if bytes.subrange(0, 8) != MAGIC@ {
        Err(CoordinatorRollbackDeleteCompletionStoreError::InvalidMagic)
    } else if bytes::u16_at(bytes, 8) != VERSION {
        Err(
            CoordinatorRollbackDeleteCompletionStoreError::UnknownVersion(bytes::u16_at(bytes, 8)),
        )
    } else if network is Err {
        Err(CoordinatorRollbackDeleteCompletionStoreError::Model(network->Err_0))
    } else {
        match bytes::counted_at(bytes, 30) {
            None => Err(CoordinatorRollbackDeleteCompletionStoreError::Truncated),
            Some((_, control_at)) => match bytes::counted_at(bytes, control_at) {
                None => Err(CoordinatorRollbackDeleteCompletionStoreError::Truncated),
                Some((_, target_at)) => if head is Err {
                    Err(CoordinatorRollbackDeleteCompletionStoreError::Model(head->Err_0))
                } else if target_at + 65 > bytes.len() {
                    Err(CoordinatorRollbackDeleteCompletionStoreError::Truncated)
                } else if target is Err {
                    Err(CoordinatorRollbackDeleteCompletionStoreError::Model(target->Err_0))
                } else if (target->Ok_0).chain_epoch != bytes::u64_at(bytes, 14) {
                    Err(CoordinatorRollbackDeleteCompletionStoreError::BindingMismatch)
                } else {
                    let at = target_at + 65;
                    if at + 336 > bytes.len() {
                        Err(CoordinatorRollbackDeleteCompletionStoreError::Truncated)
                    } else if at + 336 != bytes.len() {
                        Err(CoordinatorRollbackDeleteCompletionStoreError::TrailingBytes)
                    } else {
                        match admitted_completion(
                            head->Ok_0,
                            target->Ok_0,
                            executed_at(bytes, at),
                        ) {
                            Err(error) => Err(error),
                            Ok(completion) => if completion.slot != bytes::digest_at(
                                bytes,
                                at + 272,
                            ) || completion.digest != bytes::digest_at(bytes, at + 304) {
                                Err(CoordinatorRollbackDeleteCompletionStoreError::DigestMismatch)
                            } else if completion.canonical_bytes != bytes {
                                Err(
                                    CoordinatorRollbackDeleteCompletionStoreError::NonCanonicalEncoding,
                                )
                            } else {
                                Ok(completion)
                            },
                        }
                    }
                },
            },
        }
    }
}

/// The parts of a completion that other codecs read: the network's chain id, the head's
/// revision, reference and control bytes, and the target's bytes.
#[verifier::ext_equal]
#[derive(Clone, Debug, PartialEq, Eq)]
pub struct CompletionForeignParts<B> {
    pub chain_id: u32,
    pub revision: i64,
    pub head: B,
    pub control: B,
    pub target: B,
}

impl View for CompletionForeignParts<Vec<u8>> {
    type V = CompletionForeignParts<Seq<u8>>;

    open spec fn view(&self) -> CompletionForeignParts<Seq<u8>> {
        CompletionForeignParts {
            chain_id: self.chain_id,
            revision: self.revision,
            head: self.head@,
            control: self.control@,
            target: self.target@,
        }
    }
}

/// Where the parts of a completion that other codecs read stand in its bytes.
pub open spec fn foreign_parts_of(bytes: Seq<u8>) -> Option<CompletionForeignParts<Seq<u8>>> {
    match bytes::counted_at(bytes, 30) {
        None => None,
        Some((head, control_at)) => match bytes::counted_at(bytes, control_at) {
            None => None,
            Some((control, at)) => if at + 65 > bytes.len() {
                None
            } else {
                Some(
                    CompletionForeignParts {
                        chain_id: bytes::u32_at(bytes, 10),
                        revision: bytes::i64_at(bytes, 22),
                        head,
                        control,
                        target: bytes.subrange(at, at + 65),
                    },
                )
            },
        },
    }
}

pub open spec fn completion_result(
    result: Result<DeleteCompletion, CoordinatorRollbackDeleteCompletionStoreError>,
) -> Result<DeleteCompletionModel, CoordinatorRollbackDeleteCompletionStoreError> {
    match result {
        Ok(completion) => Ok(completion@),
        Err(error) => Err(error),
    }
}

pub open spec fn head_outcome(head: Result<StoredHead, String>) -> Result<StoredHeadModel, String> {
    match head {
        Ok(head) => Ok(head@),
        Err(refused) => Err(refused),
    }
}

fn present<T>(read: Option<T>) -> (result: Result<T, CoordinatorRollbackDeleteCompletionStoreError>)
    ensures
        match read {
            Some(value) => result == Ok::<T, CoordinatorRollbackDeleteCompletionStoreError>(value),
            None => result == Err::<T, _>(CoordinatorRollbackDeleteCompletionStoreError::Truncated),
        },
{
    match read {
        Some(value) => Ok(value),
        None => Err(CoordinatorRollbackDeleteCompletionStoreError::Truncated),
    }
}

fn read_executed(cursor: &mut Cursor) -> (executed: Option<ExecutedDeletion>)
    requires
        old(cursor).wf(),
    ensures
        final(cursor).wf(),
        final(cursor).bytes@ == old(cursor).bytes@,
        match executed {
            Some(executed) => old(cursor).has(272) && final(cursor).offset == old(cursor).offset
                + 272 && executed == executed_at(old(cursor).bytes@, old(cursor).offset as int),
            None => !old(cursor).has(272),
        },
{
    let participant_plan_digest = cursor.array_32()?;
    let barrier_digest = cursor.array_32()?;
    let delete_plan_store_fingerprint = cursor.array_32()?;
    let delete_plan_slot = cursor.array_32()?;
    let delete_plan_digest = cursor.array_32()?;
    let target_restore_digest = cursor.array_32()?;
    let post_state_digest = cursor.array_32()?;
    let physical_delete_count: u64 = cursor.u64()?;
    let restored_singleton_count: u64 = cursor.u64()?;
    let store_fingerprint = cursor.array_32()?;
    Some(
        ExecutedDeletion {
            participant_plan_digest,
            barrier_digest,
            delete_plan_store_fingerprint,
            delete_plan_slot,
            delete_plan_digest,
            target_restore_digest,
            post_state_digest,
            physical_delete_count,
            restored_singleton_count,
            store_fingerprint,
        },
    )
}

impl CoordinatorRollbackDeleteCompletion<Vec<u8>> {
    pub fn same(&self, other: &Self) -> (same: bool)
        ensures
            same == (self@ == other@),
    {
        self.deleting_head.same(&other.deleting_head) && self.target.same(&other.target)
            && self.executed.same(&other.executed) && array_equal::<32>(&self.slot, &other.slot)
            && array_equal::<32>(&self.digest, &other.digest) && bytes_equal(
            &self.canonical_bytes,
            &other.canonical_bytes,
        )
    }

    /// The completion of what the executor has done.
    pub fn try_from_fields(
        deleting_head: StoredHead,
        target: CanonicalChainRef,
        executed: ExecutedDeletion,
    ) -> (result: Result<Self, CoordinatorRollbackDeleteCompletionStoreError>)
        ensures
            completion_result(result) == admitted_completion(deleting_head@, target, executed),
    {
        let request = match deleting_head.control {
            RollbackControlState::Deleting(request) => request,
            _ => return Err(CoordinatorRollbackDeleteCompletionStoreError::BindingMismatch),
        };
        if deleting_head.canonical.network != target.network || deleting_head.canonical.chain_epoch
            == 0 || deleting_head.canonical.chain_epoch - 1 != target.chain_epoch
            || !request.target.same(&target.checkpoint) || !array_equal::<32>(
            &request.plan_digest,
            &executed.participant_plan_digest,
        ) || executed.physical_delete_count == 0 || executed.restored_singleton_count != 2
            || executed.has_zero() {
            return Err(CoordinatorRollbackDeleteCompletionStoreError::BindingMismatch);
        }
        let slot = completion_slot(&deleting_head, &target, &executed);
        if deleting_head.control_bytes.len() as u64 > u32::MAX as u64 {
            return Err(CoordinatorRollbackDeleteCompletionStoreError::LengthOverflow);
        }
        let mut canonical_bytes: Vec<u8> = copy_bytes(&MAGIC);
        push_u16(&mut canonical_bytes, VERSION);
        push_u32(&mut canonical_bytes, target.network.chain_id);
        push_u64(&mut canonical_bytes, target.chain_epoch);
        push_i64(&mut canonical_bytes, deleting_head.revision);
        push_counted(&mut canonical_bytes, &deleting_head.canonical.canonical);
        push_counted(&mut canonical_bytes, &deleting_head.control_bytes);
        push_bytes(&mut canonical_bytes, &target.canonical);
        let ghost front = canonical_bytes@;
        assert(front == completion_front(deleting_head@, target));
        push_bytes(&mut canonical_bytes, &executed.participant_plan_digest);
        push_bytes(&mut canonical_bytes, &executed.barrier_digest);
        push_bytes(&mut canonical_bytes, &executed.delete_plan_store_fingerprint);
        push_bytes(&mut canonical_bytes, &executed.delete_plan_slot);
        push_bytes(&mut canonical_bytes, &executed.delete_plan_digest);
        push_bytes(&mut canonical_bytes, &executed.target_restore_digest);
        push_bytes(&mut canonical_bytes, &executed.post_state_digest);
        push_u64(&mut canonical_bytes, executed.physical_delete_count);
        push_u64(&mut canonical_bytes, executed.restored_singleton_count);
        push_bytes(&mut canonical_bytes, &executed.store_fingerprint);
        assert(canonical_bytes@ =~= front + executed.image());
        push_bytes(&mut canonical_bytes, &slot);
        let mut preimage: Vec<u8> = text_bytes("psy.rollback.coordinator-delete-completion.v1\0");
        push_bytes(&mut preimage, &canonical_bytes);
        let digest = sha256_digest(&preimage);
        push_bytes(&mut canonical_bytes, &digest);
        if canonical_bytes.len() > MAX_ROW_BYTES {
            return Err(CoordinatorRollbackDeleteCompletionStoreError::RowTooLarge);
        }
        Ok(
            CoordinatorRollbackDeleteCompletion {
                deleting_head,
                target,
                executed,
                slot,
                digest,
                canonical_bytes,
            },
        )
    }

    /// The parts of a completion's bytes that other codecs read. `None` where the bytes
    /// end before them.
    pub fn foreign_parts(bytes: &[u8]) -> (parts: Option<CompletionForeignParts<Vec<u8>>>)
        ensures
            match (parts, foreign_parts_of(bytes@)) {
                (Some(parts), Some(expected)) => parts@ == expected,
                (None, None) => true,
                _ => false,
            },
    {
        let mut cursor = Cursor::new(bytes);
        let _ = cursor.take(10)?;
        let chain_id: u32 = cursor.u32()?;
        let _ = cursor.take(8)?;
        let revision: i64 = cursor.i64()?;
        let head = copy_bytes(cursor.counted()?);
        let control = copy_bytes(cursor.counted()?);
        let target = copy_bytes(cursor.take(65)?);
        Some(CompletionForeignParts { chain_id, revision, head, control, target })
    }

    /// Reads a completion. `network`, `head` and `target` are what other codecs make of
    /// the parts that [`foreign_parts`](Self::foreign_parts) finds.
    pub fn decode_canonical(
        bytes: &[u8],
        network: Result<(), String>,
        head: Result<StoredHead, String>,
        target: Result<CanonicalChainRef, String>,
    ) -> (result: Result<Self, CoordinatorRollbackDeleteCompletionStoreError>)
        ensures
            completion_result(result) == decoded_completion(
                bytes@,
                network,
                head_outcome(head),
                target,
            ),
    {
        if bytes.len() > MAX_ROW_BYTES || bytes.len() < 32 {
            return Err(CoordinatorRollbackDeleteCompletionStoreError::MalformedRow);
        }
        let mut cursor = Cursor::new(bytes);
        let magic = present(cursor.take(8))?;
        if !bytes_equal(magic, &MAGIC) {
            return Err(CoordinatorRollbackDeleteCompletionStoreError::InvalidMagic);
        }
        let version: u16 = present(cursor.u16())?;
        if version != VERSION {
            return Err(CoordinatorRollbackDeleteCompletionStoreError::UnknownVersion(version));
        }
        let _ = present(cursor.u32())?;
        match network {
            Err(refused) => {
                return Err(CoordinatorRollbackDeleteCompletionStoreError::Model(refused));
            },
            Ok(_) => {},
        }
        let old_chain_epoch: u64 = present(cursor.u64())?;
        let _ = present(cursor.i64())?;
        let _ = present(cursor.counted())?;
        let _ = present(cursor.counted())?;
        let deleting_head = match head {
            Err(refused) => {
                return Err(CoordinatorRollbackDeleteCompletionStoreError::Model(refused));
            },
            Ok(head) => head,
        };
        let _ = present(cursor.take(65))?;
        let target = match target {
            Err(refused) => {
                return Err(CoordinatorRollbackDeleteCompletionStoreError::Model(refused));
            },
            Ok(target) => target,
        };
        if target.chain_epoch != old_chain_epoch {
            return Err(CoordinatorRollbackDeleteCompletionStoreError::BindingMismatch);
        }
        let executed = present(read_executed(&mut cursor))?;
        let encoded_slot = present(cursor.array_32())?;
        let encoded_digest = present(cursor.array_32())?;
        if !cursor.is_empty() {
            return Err(CoordinatorRollbackDeleteCompletionStoreError::TrailingBytes);
        }
        let decoded = Self::try_from_fields(deleting_head, target, executed)?;
        if !array_equal::<32>(&decoded.slot, &encoded_slot) || !array_equal::<32>(
            &decoded.digest,
            &encoded_digest,
        ) {
            return Err(CoordinatorRollbackDeleteCompletionStoreError::DigestMismatch);
        }
        if !bytes_equal(&decoded.canonical_bytes, bytes) {
            return Err(CoordinatorRollbackDeleteCompletionStoreError::NonCanonicalEncoding);
        }
        Ok(decoded)
    }

    pub fn deleting_head(&self) -> (head: &StoredHead)
        ensures
            head@ == self@.deleting_head,
    {
        &self.deleting_head
    }

    pub fn target(&self) -> (target: &CanonicalChainRef)
        ensures
            *target == self@.target,
    {
        &self.target
    }

    pub fn participant_plan_digest(&self) -> (digest: &[u8; 32])
        ensures
            *digest == self@.executed.participant_plan_digest,
    {
        &self.executed.participant_plan_digest
    }

    pub fn barrier_digest(&self) -> (digest: &[u8; 32])
        ensures
            *digest == self@.executed.barrier_digest,
    {
        &self.executed.barrier_digest
    }

    pub fn slot(&self) -> (slot: &[u8; 32])
        ensures
            *slot == self@.slot,
    {
        &self.slot
    }

    pub fn digest(&self) -> (digest: &[u8; 32])
        ensures
            *digest == self@.digest,
    {
        &self.digest
    }

    pub fn post_state_digest(&self) -> (digest: &[u8; 32])
        ensures
            *digest == self@.executed.post_state_digest,
    {
        &self.executed.post_state_digest
    }

    pub fn physical_delete_count(&self) -> (count: u64)
        ensures
            count == self@.executed.physical_delete_count,
    {
        self.executed.physical_delete_count
    }

    pub fn restored_singleton_count(&self) -> (count: u64)
        ensures
            count == self@.executed.restored_singleton_count,
    {
        self.executed.restored_singleton_count
    }
}

/// The statements of the completion store. The only one that writes is a conditional
/// insert.
#[derive(Clone, Debug, PartialEq, Eq)]
pub struct DeleteCompletionQueries {
    pub insert: String,
    pub read: String,
}

impl DeleteCompletionQueries {
    pub fn new(keyspace: &CqlKeyspaceName) -> (queries: Self)
        ensures
            queries.insert@ == "INSERT INTO "@ + text::qualified(
                keyspace@,
                COORDINATOR_ROLLBACK_SUFFIX_ARCHIVE_TABLE@,
            )
                + " (network_chain_id, chain_epoch, participant_plan_digest, key_domain, row_slot, fragment_index, revision, fragment_count, row_bytes, fragment_payload, fragment_digest, row_digest) VALUES (?, ?, ?, ?, ?, ?, ?, ?, ?, ?, ?, ?) IF NOT EXISTS"@,
            queries.read@
                == "SELECT fragment_index, revision, fragment_count, row_bytes, fragment_payload, fragment_digest, row_digest FROM "@
                + text::qualified(keyspace@, COORDINATOR_ROLLBACK_SUFFIX_ARCHIVE_TABLE@)
                + " WHERE network_chain_id = ? AND chain_epoch = ? AND participant_plan_digest = ? AND key_domain = ? AND row_slot = ?"@,
    {
        let table = qualify(keyspace.as_str(), COORDINATOR_ROLLBACK_SUFFIX_ARCHIVE_TABLE);
        DeleteCompletionQueries {
            insert: concat3(
                "INSERT INTO ",
                table.as_str(),
                " (network_chain_id, chain_epoch, participant_plan_digest, key_domain, row_slot, fragment_index, revision, fragment_count, row_bytes, fragment_payload, fragment_digest, row_digest) VALUES (?, ?, ?, ?, ?, ?, ?, ?, ?, ?, ?, ?) IF NOT EXISTS",
            ),
            read: concat3(
                "SELECT fragment_index, revision, fragment_count, row_bytes, fragment_payload, fragment_digest, row_digest FROM ",
                table.as_str(),
                " WHERE network_chain_id = ? AND chain_epoch = ? AND participant_plan_digest = ? AND key_domain = ? AND row_slot = ?",
            ),
        }
    }

    /// What identifies a store: its keyspace and its statements.
    pub fn fingerprint(&self, keyspace: &CqlKeyspaceName) -> (fingerprint: [u8; 32])
        ensures
            fingerprint == hash::sha256(
                bytes::text("psy.rollback.coordinator-delete-completion-store.v1\0"@) + bytes::text(
                    keyspace@,
                ) + bytes::text(self.insert@) + bytes::text(self.read@),
            ),
    {
        let mut preimage: Vec<u8> = text_bytes(
            "psy.rollback.coordinator-delete-completion-store.v1\0",
        );
        push_text(&mut preimage, keyspace.as_str());
        push_text(&mut preimage, self.insert.as_str());
        push_text(&mut preimage, self.read.as_str());
        sha256_digest(&preimage)
    }
}

pub open spec fn fragment_digest_of(row_digest: [u8; 32], row_bytes: i64, payload: Seq<u8>) -> [u8; 32] {
    hash::sha256(
        bytes::text("psy.rollback.coordinator-delete-completion-fragment.v1\0"@) + row_digest@
            + bytes::be_i32(0) + bytes::be_i32(1) + bytes::be_i64(row_bytes) + bytes::be_len(
            payload.len(),
        ) + payload,
    )
}

/// The digest of the only fragment of a completion.
pub fn fragment_digest(row_digest: &[u8; 32], row_bytes: i64, payload: &[u8]) -> (digest: [u8; 32])
    ensures
        digest == fragment_digest_of(*row_digest, row_bytes, payload@),
{
    let mut preimage: Vec<u8> = text_bytes(
        "psy.rollback.coordinator-delete-completion-fragment.v1\0",
    );
    push_bytes(&mut preimage, row_digest);
    push_i32(&mut preimage, 0);
    push_i32(&mut preimage, 1);
    push_i64(&mut preimage, row_bytes);
    push_len(&mut preimage, payload.len());
    push_bytes(&mut preimage, payload);
    sha256_digest(&preimage)
}

/// The epoch as the store binds it.
pub fn cql_epoch(epoch: u64) -> (result: Result<i64, CoordinatorRollbackDeleteCompletionStoreError>)
    ensures
        match result {
            Ok(bound) => epoch <= i64::MAX && bound == epoch,
            Err(error) => epoch > i64::MAX && error
                == CoordinatorRollbackDeleteCompletionStoreError::IntegerOutOfCqlRange,
        },
{
    if epoch <= i64::MAX as u64 {
        Ok(epoch as i64)
    } else {
        Err(CoordinatorRollbackDeleteCompletionStoreError::IntegerOutOfCqlRange)
    }
}

/// A row of the completion store.
#[verifier::ext_equal]
#[derive(Clone, Debug, PartialEq, Eq)]
pub struct StoredCompletionRow<B> {
    pub fragment_index: Option<i32>,
    pub revision: Option<i64>,
    pub fragment_count: Option<i32>,
    pub row_bytes: Option<i64>,
    pub fragment_payload: Option<B>,
    pub fragment_digest: Option<B>,
    pub row_digest: Option<B>,
}

pub open spec fn blob_view(blob: Option<Vec<u8>>) -> Option<Seq<u8>> {
    match blob {
        None => None,
        Some(blob) => Some(blob@),
    }
}

impl View for StoredCompletionRow<Vec<u8>> {
    type V = StoredCompletionRow<Seq<u8>>;

    open spec fn view(&self) -> StoredCompletionRow<Seq<u8>> {
        StoredCompletionRow {
            fragment_index: self.fragment_index,
            revision: self.revision,
            fragment_count: self.fragment_count,
            row_bytes: self.row_bytes,
            fragment_payload: blob_view(self.fragment_payload),
            fragment_digest: blob_view(self.fragment_digest),
            row_digest: blob_view(self.row_digest),
        }
    }
}

/// A stored row is the one whole fragment of a completion.
pub open spec fn whole_row(row: StoredCompletionRow<Seq<u8>>) -> bool {
    &&& row.fragment_payload is Some
    &&& row.row_bytes is Some
    &&& row.fragment_digest is Some && row.fragment_digest->0.len() == 32
    &&& row.row_digest is Some && row.row_digest->0.len() == 32
    &&& row.fragment_index == Some(0i32)
    &&& row.revision == Some(REVISION)
    &&& row.fragment_count == Some(1i32)
    &&& row.row_bytes->0 > 0
    &&& row.row_bytes->0 == row.fragment_payload->0.len()
    &&& row.fragment_payload->0.len() <= MAX_ROW_BYTES
    &&& fragment_digest_of(
        bytes::array_of::<32>(row.row_digest->0),
        row.row_bytes->0,
        row.fragment_payload->0,
    )@ == row.fragment_digest->0
}

/// Where a completion is filed.
#[derive(Clone, Copy, Debug, PartialEq, Eq)]
pub struct CompletionCoordinate {
    pub network: NetworkId,
    pub old_chain_epoch: u64,
    pub participant_plan_digest: [u8; 32],
    pub slot: [u8; 32],
}

/// A completion is filed where it belongs.
pub open spec fn filed_at(completion: DeleteCompletionModel, coordinate: CompletionCoordinate) -> bool {
    &&& completion.target.network == coordinate.network
    &&& completion.target.chain_epoch == coordinate.old_chain_epoch
    &&& completion.executed.participant_plan_digest == coordinate.participant_plan_digest
    &&& completion.slot == coordinate.slot
}

/// The rows of a coordinate, taken together: none, or one whole row that decodes.
/// `decoded` is what the row's payload decodes to.
pub open spec fn stored_at(
    rows: Seq<StoredCompletionRow<Seq<u8>>>,
    coordinate: CompletionCoordinate,
    decoded: Result<DeleteCompletionModel, CoordinatorRollbackDeleteCompletionStoreError>,
) -> Result<Option<DeleteCompletionModel>, CoordinatorRollbackDeleteCompletionStoreError> {
    if rows.len() == 0 {
        Ok(None)
    } else if rows.len() != 1 || !whole_row(rows[0]) {
        Err(CoordinatorRollbackDeleteCompletionStoreError::MalformedRow)
    } else {
        match decoded {
            Err(error) => Err(error),
            Ok(completion) => if completion.digest@ != rows[0].row_digest->0 || !filed_at(
                completion,
                coordinate,
            ) {
                Err(CoordinatorRollbackDeleteCompletionStoreError::DigestMismatch)
            } else {
                Ok(Some(completion))
            },
        }
    }
}

pub open spec fn row_models(rows: Seq<StoredCompletionRow<Vec<u8>>>) -> Seq<
    StoredCompletionRow<Seq<u8>>,
> {
    Seq::new(rows.len(), |i: int| rows[i]@)
}

pub open spec fn optional_result(
    result: Result<Option<DeleteCompletion>, CoordinatorRollbackDeleteCompletionStoreError>,
) -> Result<Option<DeleteCompletionModel>, CoordinatorRollbackDeleteCompletionStoreError> {
    match result {
        Err(error) => Err(error),
        Ok(None) => Ok(None),
        Ok(Some(completion)) => Ok(Some(completion@)),
    }
}

fn is_whole_row(row: &StoredCompletionRow<Vec<u8>>) -> (whole: bool)
    ensures
        whole == whole_row(row@),
{
    match (&row.fragment_payload, row.row_bytes, &row.fragment_digest, &row.row_digest) {
        (Some(payload), Some(row_bytes), Some(fragment), Some(row_digest)) => {
            if fragment.len() != 32 || row_digest.len() != 32 {
                return false;
            }
            if row.fragment_index != Some(0i32) || row.revision != Some(REVISION)
                || row.fragment_count != Some(1i32) || row_bytes <= 0 || row_bytes as u64
                != payload.len() as u64 || payload.len() > MAX_ROW_BYTES {
                return false;
            }
            let digest = fragment_digest(
                &array_from::<32>(row_digest.as_slice()),
                row_bytes,
                payload.as_slice(),
            );
            bytes_equal(&digest, fragment.as_slice())
        },
        _ => false,
    }
}

/// Takes the rows that the store holds at a coordinate. `network`, `head` and `target`
/// are what the chain codec makes of the parts of the only row's payload.
pub fn read_at(
    rows: &[StoredCompletionRow<Vec<u8>>],
    coordinate: &CompletionCoordinate,
    network: Result<(), String>,
    head: Result<StoredHead, String>,
    target: Result<CanonicalChainRef, String>,
) -> (result: Result<Option<DeleteCompletion>, CoordinatorRollbackDeleteCompletionStoreError>)
    ensures
        optional_result(result) == stored_at(
            row_models(rows@),
            *coordinate,
            decoded_completion(
                row_models(rows@)[0].fragment_payload->0,
                network,
                head_outcome(head),
                target,
            ),
        ),
{
    if rows.len() == 0 {
        return Ok(None);
    }
    assert(row_models(rows@)[0] == rows@[0]@);
    if rows.len() != 1 || !is_whole_row(&rows[0]) {
        return Err(CoordinatorRollbackDeleteCompletionStoreError::MalformedRow);
    }
    match (&rows[0].fragment_payload, &rows[0].row_digest) {
        (Some(payload), Some(row_digest)) => {
            let completion = DeleteCompletion::decode_canonical(
                payload.as_slice(),
                network,
                head,
                target,
            )?;
            if !bytes_equal(&completion.digest, row_digest.as_slice()) || completion.target.network
                != coordinate.network || completion.target.chain_epoch != coordinate.old_chain_epoch
                || !array_equal::<32>(
                &completion.executed.participant_plan_digest,
                &coordinate.participant_plan_digest,
            ) || !array_equal::<32>(&completion.slot, &coordinate.slot) {
                return Err(CoordinatorRollbackDeleteCompletionStoreError::DigestMismatch);
            }
            Ok(Some(completion))
        },
        _ => Err(CoordinatorRollbackDeleteCompletionStoreError::MalformedRow),
    }
}

/// A completion that the store with this fingerprint has been seen to hold.
#[derive(Debug, PartialEq, Eq)]
pub struct PersistedCoordinatorRollbackDeleteCompletion {
    pub store_fingerprint: [u8; 32],
    pub completion: DeleteCompletion,
}

impl PersistedCoordinatorRollbackDeleteCompletion {
    pub fn completion(&self) -> (completion: &DeleteCompletion)
        ensures
            completion@ == self.completion@,
    {
        &self.completion
    }
}

/// Accepts what the store was read to hold: the exact completion.
pub fn accept_persisted(
    store_fingerprint: [u8; 32],
    current: Option<DeleteCompletion>,
    completion: &DeleteCompletion,
) -> (result: Result<
    PersistedCoordinatorRollbackDeleteCompletion,
    CoordinatorRollbackDeleteCompletionStoreError,
>)
    ensures
        match result {
            Ok(receipt) => receipt.store_fingerprint == store_fingerprint && receipt.completion@
                == completion@ && current is Some && (current->0)@ == completion@,
            Err(error) => match current {
                None => error
                    == CoordinatorRollbackDeleteCompletionStoreError::MissingAfterPersist,
                Some(found) => found@ != completion@ && error
                    == CoordinatorRollbackDeleteCompletionStoreError::Conflict,
            },
        },
{
    match current {
        None => Err(CoordinatorRollbackDeleteCompletionStoreError::MissingAfterPersist),
        Some(found) => if found.same(completion) {
            Ok(
                PersistedCoordinatorRollbackDeleteCompletion {
                    store_fingerprint,
                    completion: found,
                },
            )
        } else {
            Err(CoordinatorRollbackDeleteCompletionStoreError::Conflict)
        },
    }
}

/// A read of the completion that failed, and the text of its failure.
#[derive(Clone, Debug, PartialEq, Eq)]
pub struct CompletionReadFailure {
    pub error: CoordinatorRollbackDeleteCompletionStoreError,
    pub text: String,
}

/// What the store has to do next for a completion to be persisted.
pub enum PersistStage {
    ReadExisting,
    Insert,
    ReadBack(LwtWrite),
    ReadPersisted,
    Persisted(PersistedCoordinatorRollbackDeleteCompletion),
}

/// What the store did.
pub enum PersistEvent {
    Read(Result<Option<DeleteCompletion>, CompletionReadFailure>),
    Inserted(LwtWrite),
}

/// The stage is the receipt of this completion from the store with this fingerprint.
pub open spec fn receipt_of(
    result: Result<PersistStage, CoordinatorRollbackDeleteCompletionStoreError>,
    store_fingerprint: [u8; 32],
    completion: DeleteCompletionModel,
) -> bool {
    result matches Ok(PersistStage::Persisted(receipt)) && receipt.store_fingerprint
        == store_fingerprint && receipt.completion@ == completion
}

/// What the next stage, or the failure, has to be.
pub open spec fn persist_step(
    stage: PersistStage,
    event: PersistEvent,
    store_fingerprint: [u8; 32],
    completion: DeleteCompletionModel,
    result: Result<PersistStage, CoordinatorRollbackDeleteCompletionStoreError>,
) -> bool {
    match (stage, event) {
        (PersistStage::ReadExisting, PersistEvent::Read(Ok(None))) => result == Ok::<
            PersistStage,
            CoordinatorRollbackDeleteCompletionStoreError,
        >(PersistStage::Insert),
        (PersistStage::ReadExisting, PersistEvent::Read(Ok(Some(found)))) => if found@
            == completion {
            receipt_of(result, store_fingerprint, completion)
        } else {
            result == Err::<PersistStage, _>(CoordinatorRollbackDeleteCompletionStoreError::Conflict)
        },
        (PersistStage::Insert, PersistEvent::Inserted(write)) => result == Ok::<PersistStage, CoordinatorRollbackDeleteCompletionStoreError>(
            if write is Applied {
                PersistStage::ReadPersisted
            } else {
                PersistStage::ReadBack(write)
            },
        ),
        (PersistStage::ReadBack(write), PersistEvent::Read(read)) => if write is Applied || (
        read matches Ok(Some(found)) && found@ == completion) {
            result == Ok::<PersistStage, CoordinatorRollbackDeleteCompletionStoreError>(
                PersistStage::ReadPersisted,
            )
        } else {
            match (write, read) {
                (LwtWrite::Failed(failure), Ok(_)) => result == Err::<PersistStage, _>(
                    CoordinatorRollbackDeleteCompletionStoreError::Indeterminate(failure),
                ),
                (LwtWrite::Failed(failure), Err(read)) => result matches Err(
                    CoordinatorRollbackDeleteCompletionStoreError::Indeterminate(text),
                ) && text@ == lwt::both_failed(failure@, read.text@),
                (_, Ok(_)) => result == Err::<PersistStage, _>(
                    CoordinatorRollbackDeleteCompletionStoreError::Conflict,
                ),
                (_, Err(read)) => result == Err::<PersistStage, _>(read.error),
            }
        },
        (PersistStage::ReadPersisted, PersistEvent::Read(Ok(None))) => result == Err::<
            PersistStage,
            _,
        >(CoordinatorRollbackDeleteCompletionStoreError::MissingAfterPersist),
        (PersistStage::ReadPersisted, PersistEvent::Read(Ok(Some(found)))) => if found@
            == completion {
            receipt_of(result, store_fingerprint, completion)
        } else {
            result == Err::<PersistStage, _>(CoordinatorRollbackDeleteCompletionStoreError::Conflict)
        },
        (PersistStage::ReadExisting, PersistEvent::Read(Err(read))) => result == Err::<
            PersistStage,
            _,
        >(read.error),
        (PersistStage::ReadPersisted, PersistEvent::Read(Err(read))) => result == Err::<
            PersistStage,
            _,
        >(read.error),
        _ => result == Err::<PersistStage, _>(CoordinatorRollbackDeleteCompletionStoreError::OutOfOrder),
    }
}

/// Persists a completion, one step at a time. One that is already there is recovered
/// if it is the very one. Otherwise it is inserted, and counts only once the store is
/// read to hold it.
pub fn persist_or_recover(
    stage: PersistStage,
    event: PersistEvent,
    store_fingerprint: [u8; 32],
    completion: &DeleteCompletion,
) -> (result: Result<PersistStage, CoordinatorRollbackDeleteCompletionStoreError>)
    ensures
        persist_step(stage, event, store_fingerprint, completion@, result),
{
    match (stage, event) {
        (PersistStage::ReadExisting, PersistEvent::Read(read)) => match read {
            Err(read) => Err(read.error),
            Ok(None) => Ok(PersistStage::Insert),
            Ok(found) => match accept_persisted(store_fingerprint, found, completion) {
                Err(error) => Err(error),
                Ok(receipt) => Ok(PersistStage::Persisted(receipt)),
            },
        },
        (PersistStage::Insert, PersistEvent::Inserted(write)) => match write {
            LwtWrite::Applied => Ok(PersistStage::ReadPersisted),
            _ => Ok(PersistStage::ReadBack(write)),
        },
        (PersistStage::ReadBack(write), PersistEvent::Read(read)) => {
            let readback = match read {
                Ok(Some(found)) => LwtReadback::Found(
                    if found.same(completion) {
                        Stored::Same
                    } else {
                        Stored::Other
                    },
                ),
                Ok(None) => LwtReadback::Found(Stored::Absent),
                Err(read) => LwtReadback::Failed { error: read.error, text: read.text },
            };
            match settle(write, readback) {
                LwtVerdict::Persisted => Ok(PersistStage::ReadPersisted),
                LwtVerdict::Conflict => Err(CoordinatorRollbackDeleteCompletionStoreError::Conflict),
                LwtVerdict::ReadFailed(error) => Err(error),
                LwtVerdict::Indeterminate(reason) => {
                    Err(CoordinatorRollbackDeleteCompletionStoreError::Indeterminate(reason))
                },
            }
        },
        (PersistStage::ReadPersisted, PersistEvent::Read(read)) => match read {
            Err(read) => Err(read.error),
            Ok(found) => match accept_persisted(store_fingerprint, found, completion) {
                Err(error) => Err(error),
                Ok(receipt) => Ok(PersistStage::Persisted(receipt)),
            },
        },
        _ => Err(CoordinatorRollbackDeleteCompletionStoreError::OutOfOrder),
    }
}

/// A receipt is only given for a completion that the store was read to hold.
pub proof fn law_receipt_follows_an_exact_read(
    stage: PersistStage,
    event: PersistEvent,
    store_fingerprint: [u8; 32],
    completion: DeleteCompletionModel,
    result: Result<PersistStage, CoordinatorRollbackDeleteCompletionStoreError>,
)
    requires
        persist_step(stage, event, store_fingerprint, completion, result),
    ensures
        result matches Ok(PersistStage::Persisted(receipt)) ==> receipt.completion@ == completion
            && (event matches PersistEvent::Read(Ok(Some(found))) && found@ == completion),
{
}

/// A receipt still stands: it is this store's, and the store still holds it.
pub fn revalidate(
    store_fingerprint: &[u8; 32],
    receipt: &PersistedCoordinatorRollbackDeleteCompletion,
    current: Option<DeleteCompletion>,
) -> (result: Result<(), CoordinatorRollbackDeleteCompletionStoreError>)
    ensures
        receipt_revalidated(*store_fingerprint, *receipt, current, result),
{
    if !array_equal::<32>(&receipt.store_fingerprint, store_fingerprint) {
        return Err(CoordinatorRollbackDeleteCompletionStoreError::StoreFingerprintMismatch);
    }
    match current {
        None => Err(CoordinatorRollbackDeleteCompletionStoreError::MissingAfterPersist),
        Some(found) => if found.same(&receipt.completion) {
            Ok(())
        } else {
            Err(CoordinatorRollbackDeleteCompletionStoreError::Conflict)
        },
    }
}

/// A completion that is asked for by slot and digest has to be there, be the one, and
/// belong to this store.
pub fn read_selected(
    store_fingerprint: &[u8; 32],
    coordinate: &CompletionCoordinate,
    digest: &[u8; 32],
    current: Option<DeleteCompletion>,
) -> (result: Result<
    PersistedCoordinatorRollbackDeleteCompletion,
    CoordinatorRollbackDeleteCompletionStoreError,
>)
    ensures
        match current {
            None => result == Err::<PersistedCoordinatorRollbackDeleteCompletion, _>(
                CoordinatorRollbackDeleteCompletionStoreError::MissingAfterPersist,
            ),
            Some(found) => if filed_at(found@, *coordinate) && found.digest == *digest
                && found.executed.store_fingerprint == *store_fingerprint {
                result matches Ok(receipt) && receipt.store_fingerprint == *store_fingerprint
                    && receipt.completion@ == found@
            } else {
                result == Err::<PersistedCoordinatorRollbackDeleteCompletion, _>(
                    CoordinatorRollbackDeleteCompletionStoreError::Conflict,
                )
            },
        },
{
    match current {
        None => Err(CoordinatorRollbackDeleteCompletionStoreError::MissingAfterPersist),
        Some(found) => if found.target.network != coordinate.network || found.target.chain_epoch
            != coordinate.old_chain_epoch || !array_equal::<32>(
            &found.executed.participant_plan_digest,
            &coordinate.participant_plan_digest,
        ) || !array_equal::<32>(&found.slot, &coordinate.slot) || !array_equal::<32>(
            &found.digest,
            digest,
        ) || !array_equal::<32>(&found.executed.store_fingerprint, store_fingerprint) {
            Err(CoordinatorRollbackDeleteCompletionStoreError::Conflict)
        } else {
            Ok(
                PersistedCoordinatorRollbackDeleteCompletion {
                    store_fingerprint: *store_fingerprint,
                    completion: found,
                },
            )
        },
    }
}

/// The executor's record reads back, whatever stands around it.
proof fn lemma_executed_reads_back(s: Seq<u8>, at: int, executed: ExecutedDeletion)
    requires
        0 <= at,
        at + 272 <= s.len(),
        s.subrange(at, at + 272) == executed.image(),
    ensures
        executed_at(s, at) == executed,
{
    bytes::lemma_be_lens();
    let image = executed.image();
    assert(image.len() == 272);
    assert forall|a: int, b: int| 0 <= a <= b <= 272 implies #[trigger] image.subrange(a, b)
        == s.subrange(at + a, at + b) by {
        assert(image.subrange(a, b) =~= s.subrange(at + a, at + b));
    }
    assert(image.subrange(0, 32) =~= executed.participant_plan_digest@);
    assert(image.subrange(32, 64) =~= executed.barrier_digest@);
    assert(image.subrange(64, 96) =~= executed.delete_plan_store_fingerprint@);
    assert(image.subrange(96, 128) =~= executed.delete_plan_slot@);
    assert(image.subrange(128, 160) =~= executed.delete_plan_digest@);
    assert(image.subrange(160, 192) =~= executed.target_restore_digest@);
    assert(image.subrange(192, 224) =~= executed.post_state_digest@);
    assert(image.subrange(224, 232) =~= bytes::be64(executed.physical_delete_count));
    assert(image.subrange(232, 240) =~= bytes::be64(executed.restored_singleton_count));
    assert(image.subrange(240, 272) =~= executed.store_fingerprint@);
    bytes::lemma_write_then_read(s, at);
    bytes::lemma_write_then_read(s, at + 32);
    bytes::lemma_write_then_read(s, at + 64);
    bytes::lemma_write_then_read(s, at + 96);
    bytes::lemma_write_then_read(s, at + 128);
    bytes::lemma_write_then_read(s, at + 160);
    bytes::lemma_write_then_read(s, at + 192);
    bytes::lemma_write_then_read(s, at + 224);
    bytes::lemma_write_then_read(s, at + 232);
    bytes::lemma_write_then_read(s, at + 240);
}

/// The front of a completion reads back, whatever follows it.
proof fn lemma_front_reads_back(head: StoredHeadModel, target: CanonicalChainRef, tail: Seq<u8>)
    requires
        head.control_bytes.len() <= u32::MAX,
    ensures
        ({
            let s = completion_front(head, target) + tail;
            let control_at = 30 + 4 + 65;
            let target_at = control_at + 4 + head.control_bytes.len();
            &&& s.subrange(0, 8) == MAGIC@
            &&& bytes::u16_at(s, 8) == VERSION
            &&& bytes::u64_at(s, 14) == target.chain_epoch
            &&& bytes::counted_at(s, 30) == Some((head.canonical.canonical@, control_at as int))
            &&& bytes::counted_at(s, control_at as int) == Some(
                (head.control_bytes, target_at as int),
            )
            &&& completion_front(head, target).len() == target_at + 65
        }),
{
    bytes::lemma_be_lens();
    let s = completion_front(head, target) + tail;
    let control = head.control_bytes;
    let front = MAGIC@ + bytes::be16(VERSION) + bytes::be32(target.network.chain_id) + bytes::be64(
        target.chain_epoch,
    ) + bytes::be_i64(head.revision);
    assert(front.subrange(0, 8) =~= MAGIC@);
    assert(front.subrange(8, 10) =~= bytes::be16(VERSION));
    assert(front.subrange(14, 22) =~= bytes::be64(target.chain_epoch));
    bytes::lemma_write_then_read(front, 8);
    bytes::lemma_write_then_read(front, 14);
    assert(s.subrange(0, 30) =~= front);
    bytes::lemma_read_in_front(front, s);
    assert(s.subrange(30, 99) =~= bytes::counted(head.canonical.canonical@));
    bytes::lemma_counted(s, 30, head.canonical.canonical@);
    assert(s.subrange(99, 103 + control.len() as int) =~= bytes::counted(control));
    bytes::lemma_counted(s, 99, control);
}

/// A completion made from its parts decodes from its canonical bytes to itself.
#[verifier::spinoff_prover]
#[verifier::rlimit(40)]
pub proof fn law_completion_round_trips(
    head: StoredHeadModel,
    target: CanonicalChainRef,
    executed: ExecutedDeletion,
)
    ensures
        admitted_completion(head, target, executed) matches Ok(completion) ==> decoded_completion(
            completion.canonical_bytes,
            Ok(()),
            Ok(head),
            Ok(target),
        ) == Ok::<DeleteCompletionModel, CoordinatorRollbackDeleteCompletionStoreError>(completion),
{
    if let Ok(completion) = admitted_completion(head, target, executed) {
        bytes::lemma_be_lens();
        let s = completion.canonical_bytes;
        let front = completion_front(head, target);
        let tail = executed.image() + completion.slot@ + completion.digest@;
        assert(s =~= front + tail);
        lemma_front_reads_back(head, target, tail);
        let at = front.len() as int;
        assert(executed.image().len() == 272);
        assert(s.subrange(at, at + 272) =~= executed.image());
        lemma_executed_reads_back(s, at, executed);
        assert(s.subrange(at + 272, at + 272 + 32) =~= completion.slot@);
        bytes::lemma_write_then_read(s, at + 272);
        assert(s.subrange(at + 304, at + 304 + 32) =~= completion.digest@);
        bytes::lemma_write_then_read(s, at + 304);
    }
}

/// Bytes that decode are the only bytes of what they decode to, and decode only to
/// what they were bound to.
#[verifier::spinoff_prover]
#[verifier::rlimit(40)]
pub proof fn law_decoded_completion_is_canonical(
    bytes: Seq<u8>,
    network: Result<(), String>,
    head: Result<StoredHeadModel, String>,
    target: Result<CanonicalChainRef, String>,
)
    ensures
        decoded_completion(bytes, network, head, target) matches Ok(completion) ==> {
            &&& completion.canonical_bytes == bytes
            &&& bound_completion(completion.deleting_head, completion.target, completion.executed)
            &&& completion == completion_of(
                completion.deleting_head,
                completion.target,
                completion.executed,
            )
        },
{
}

/// The parts that other codecs read from a completion are those that it was made of.
#[verifier::spinoff_prover]
#[verifier::rlimit(40)]
pub proof fn law_completion_parts_are_its_own(
    head: StoredHeadModel,
    target: CanonicalChainRef,
    executed: ExecutedDeletion,
)
    ensures
        admitted_completion(head, target, executed) matches Ok(completion) ==> foreign_parts_of(
            completion.canonical_bytes,
        ) == Some(
            CompletionForeignParts {
                chain_id: target.network.chain_id,
                revision: head.revision,
                head: head.canonical.canonical@,
                control: head.control_bytes,
                target: target.canonical@,
            },
        ),
{
    if let Ok(completion) = admitted_completion(head, target, executed) {
        bytes::lemma_be_lens();
        let s = completion.canonical_bytes;
        let control_at: int = 99;
        let at = control_at + 4 + head.control_bytes.len() as int;
        assert(s.subrange(10, 14) =~= bytes::be32(target.network.chain_id));
        bytes::lemma_write_then_read(s, 10);
        assert(s.subrange(22, 30) =~= bytes::be_i64(head.revision));
        bytes::lemma_write_then_read(s, 22);
        assert(s.subrange(30, control_at) =~= bytes::counted(head.canonical.canonical@));
        bytes::lemma_counted(s, 30, head.canonical.canonical@);
        assert(s.subrange(control_at, at) =~= bytes::counted(head.control_bytes));
        bytes::lemma_counted(s, control_at, head.control_bytes);
        assert(s.subrange(at, at + 65) =~= target.canonical@);
    }
}

/// What the store is told to write for a completion is what it later reads back.
pub proof fn law_persisted_completion_reads_back(
    head: StoredHeadModel,
    target: CanonicalChainRef,
    executed: ExecutedDeletion,
)
    ensures
        admitted_completion(head, target, executed) matches Ok(completion) ==> stored_at(
            seq![
                StoredCompletionRow {
                    fragment_index: Some(0i32),
                    revision: Some(REVISION),
                    fragment_count: Some(1i32),
                    row_bytes: Some(completion.canonical_bytes.len() as i64),
                    fragment_payload: Some(completion.canonical_bytes),
                    fragment_digest: Some(
                        fragment_digest_of(
                            completion.digest,
                            completion.canonical_bytes.len() as i64,
                            completion.canonical_bytes,
                        )@,
                    ),
                    row_digest: Some(completion.digest@),
                },
            ],
            CompletionCoordinate {
                network: target.network,
                old_chain_epoch: target.chain_epoch,
                participant_plan_digest: executed.participant_plan_digest,
                slot: completion.slot,
            },
            decoded_completion(completion.canonical_bytes, Ok(()), Ok(head), Ok(target)),
        ) == Ok::<
            Option<DeleteCompletionModel>,
            CoordinatorRollbackDeleteCompletionStoreError,
        >(Some(completion)),
{
    law_completion_round_trips(head, target, executed);
    if let Ok(completion) = admitted_completion(head, target, executed) {
        bytes::lemma_array_of::<32>(completion.digest);
        bytes::lemma_be_lens();
        assert(completion.canonical_bytes.len() > 0);
    }
}

/// A completion is made exactly of a deletion that was executed under the head's own
/// rollback: the head is deleting to the target's checkpoint under the executed plan, on
/// the target's network and one epoch behind it; something was deleted, both singletons
/// were restored, and no commitment is zero. Short of a limit, nothing else refuses it.
pub proof fn law_completion_is_of_its_own_rollback(
    head: StoredHeadModel,
    target: CanonicalChainRef,
    executed: ExecutedDeletion,
)
    ensures
        ({
            let made = admitted_completion(head, target, executed);
            let bound = {
                &&& head.control matches RollbackControlState::Deleting(request) && request.target
                    == target.checkpoint && request.plan_digest == executed.participant_plan_digest
                &&& head.canonical.network == target.network
                &&& head.canonical.chain_epoch == target.chain_epoch + 1
                &&& executed.physical_delete_count > 0
                &&& executed.restored_singleton_count == 2
                &&& !bytes::zero_digest(executed.participant_plan_digest)
                &&& !bytes::zero_digest(executed.barrier_digest)
                &&& !bytes::zero_digest(executed.delete_plan_store_fingerprint)
                &&& !bytes::zero_digest(executed.delete_plan_slot)
                &&& !bytes::zero_digest(executed.delete_plan_digest)
                &&& !bytes::zero_digest(executed.target_restore_digest)
                &&& !bytes::zero_digest(executed.post_state_digest)
                &&& !bytes::zero_digest(executed.store_fingerprint)
            };
            &&& made is Ok ==> bound
            &&& !bound ==> made is Err && made->Err_0 is BindingMismatch
            &&& bound && head.control_bytes.len() + 512 <= 16_384 ==> made is Ok
        }),
{
    bytes::lemma_be_lens();
}

/// A completion holds what it was made of. Its slot is the digest of the target's chain,
/// the executed plan, the head and the store; its last bytes are the digest of all before
/// them.
pub proof fn law_completion_holds_its_parts(
    head: StoredHeadModel,
    target: CanonicalChainRef,
    executed: ExecutedDeletion,
)
    ensures
        admitted_completion(head, target, executed) matches Ok(completion) ==> {
            let all = completion.canonical_bytes;
            let end = all.len() as int;
            &&& completion.deleting_head == head
            &&& completion.target == target
            &&& completion.executed == executed
            &&& completion.slot == hash::sha256(
                bytes::text("psy.rollback.coordinator-delete-completion-slot.v1\0"@) + bytes::be32(
                    target.network.chain_id,
                ) + bytes::be64(target.chain_epoch) + executed.participant_plan_digest@
                    + bytes::be_i64(head.revision) + head.canonical.canonical@ + head.control_bytes
                    + executed.store_fingerprint@,
            )
            &&& end >= 64
            &&& all.subrange(end - 32, end) == completion.digest@
            &&& all.subrange(end - 64, end - 32) == completion.slot@
            &&& completion.digest == hash::sha256(
                bytes::text("psy.rollback.coordinator-delete-completion.v1\0"@) + all.subrange(
                    0,
                    end - 32,
                ),
            )
        },
{
    let completion = completion_of(head, target, executed);
    let all = completion.canonical_bytes;
    let end = all.len() as int;
    assert(all.subrange(0, end - 32) =~= completion_body(head, target, executed, completion.slot));
    assert(all.subrange(end - 32, end) =~= completion.digest@);
    assert(all.subrange(end - 64, end - 32) =~= completion.slot@);
}

/// Where what was executed stands in a completion: in front of its slot and its digest.
#[verifier::spinoff_prover]
#[verifier::rlimit(40)]
pub proof fn law_executed_deletion_layout(
    head: StoredHeadModel,
    target: CanonicalChainRef,
    executed: ExecutedDeletion,
)
    ensures
        ({
            let all = completion_of(head, target, executed).canonical_bytes;
            let at = all.len() - 336;
            &&& at >= 0
            &&& all.subrange(0, 8) == seq![0x50u8, 0x53, 0x59, 0x43, 0x52, 0x44, 0x43, 0x31]
            &&& bytes::u32_at(all, 10) == target.network.chain_id
            &&& bytes::u64_at(all, 14) == target.chain_epoch
            &&& bytes::i64_at(all, 22) == head.revision
            &&& bytes::digest_at(all, at) == executed.participant_plan_digest
            &&& bytes::digest_at(all, at + 32) == executed.barrier_digest
            &&& bytes::digest_at(all, at + 64) == executed.delete_plan_store_fingerprint
            &&& bytes::digest_at(all, at + 96) == executed.delete_plan_slot
            &&& bytes::digest_at(all, at + 128) == executed.delete_plan_digest
            &&& bytes::digest_at(all, at + 160) == executed.target_restore_digest
            &&& bytes::digest_at(all, at + 192) == executed.post_state_digest
            &&& bytes::u64_at(all, at + 224) == executed.physical_delete_count
            &&& bytes::u64_at(all, at + 232) == executed.restored_singleton_count
            &&& bytes::digest_at(all, at + 240) == executed.store_fingerprint
        }),
{
    bytes::lemma_be_lens();
    let completion = completion_of(head, target, executed);
    let all = completion.canonical_bytes;
    let front = completion_front(head, target);
    let at = front.len() as int;
    assert(executed.image().len() == 272);
    assert(all.len() == at + 336);
    assert(all.subrange(at, at + 272) =~= executed.image());
    lemma_executed_reads_back(all, at, executed);
    assert(all.subrange(0, 8) =~= seq![0x50u8, 0x53, 0x59, 0x43, 0x52, 0x44, 0x43, 0x31]);
    assert(all.subrange(10, 14) =~= bytes::be32(target.network.chain_id));
    assert(all.subrange(14, 22) =~= bytes::be64(target.chain_epoch));
    assert(all.subrange(22, 30) =~= bytes::be_i64(head.revision));
    bytes::lemma_write_then_read(all, 10);
    bytes::lemma_write_then_read(all, 14);
    bytes::lemma_write_then_read(all, 22);
}

/// A coordinate holds a completion only as one whole row: a single fragment of the
/// store's revision, as long as it says, sealed by its own digest, that decodes to a
/// completion of that digest filed at that coordinate. Without a row it holds none.
pub proof fn law_stored_completion_is_whole(
    rows: Seq<StoredCompletionRow<Seq<u8>>>,
    coordinate: CompletionCoordinate,
    decoded: Result<DeleteCompletionModel, CoordinatorRollbackDeleteCompletionStoreError>,
)
    ensures
        stored_at(rows, coordinate, decoded) == Ok::<
            Option<DeleteCompletionModel>,
            CoordinatorRollbackDeleteCompletionStoreError,
        >(None) <==> rows.len() == 0,
        stored_at(rows, coordinate, decoded) matches Ok(Some(completion)) ==> {
            let row = rows[0];
            &&& rows.len() == 1
            &&& decoded == Ok::<_, CoordinatorRollbackDeleteCompletionStoreError>(completion)
            &&& row.fragment_index == Some(0i32)
            &&& row.fragment_count == Some(1i32)
            &&& row.revision == Some(REVISION)
            &&& row.fragment_payload is Some
            &&& row.row_bytes is Some
            &&& row.row_bytes->0 == row.fragment_payload->0.len()
            &&& 0 < row.fragment_payload->0.len() <= 16_384
            &&& row.row_digest == Some(completion.digest@)
            &&& row.fragment_digest == Some(
                hash::sha256(
                    bytes::text("psy.rollback.coordinator-delete-completion-fragment.v1\0"@)
                        + completion.digest@ + bytes::be_i32(0) + bytes::be_i32(1) + bytes::be_i64(
                        row.row_bytes->0,
                    ) + bytes::be_len(row.fragment_payload->0.len()) + row.fragment_payload->0,
                )@,
            )
            &&& completion.target.network == coordinate.network
            &&& completion.target.chain_epoch == coordinate.old_chain_epoch
            &&& completion.executed.participant_plan_digest == coordinate.participant_plan_digest
            &&& completion.slot == coordinate.slot
        },
{
    if let Ok(Some(completion)) = stored_at(rows, coordinate, decoded) {
        bytes::lemma_array_of::<32>(completion.digest);
    }
}

/// A persistence that finds the very completion ends with the store's own receipt for it,
/// and one that finds another ends as a conflict. What is not there is inserted; what was
/// inserted, whatever the database said of it, is read before it counts.
pub proof fn law_completion_is_persisted_once(
    stage: PersistStage,
    event: PersistEvent,
    store_fingerprint: [u8; 32],
    completion: DeleteCompletionModel,
    result: Result<PersistStage, CoordinatorRollbackDeleteCompletionStoreError>,
)
    requires
        persist_step(stage, event, store_fingerprint, completion, result),
    ensures
        result matches Ok(PersistStage::Persisted(receipt)) ==> receipt.store_fingerprint
            == store_fingerprint && receipt.completion@ == completion && (stage is ReadExisting
            || stage is ReadPersisted),
        (stage is ReadExisting || stage is ReadPersisted) && (event matches PersistEvent::Read(
            Ok(Some(found)),
        ) && found@ == completion) ==> result is Ok && result->Ok_0 is Persisted,
        (stage is ReadExisting || stage is ReadPersisted) && (event matches PersistEvent::Read(
            Ok(Some(found)),
        ) && found@ != completion) ==> result is Err && result->Err_0 is Conflict,
        result matches Ok(PersistStage::Insert) ==> stage is ReadExisting && event
            == PersistEvent::Read(Ok(None)),
        stage is ReadExisting && event == PersistEvent::Read(Ok(None)) ==> result is Ok
            && result->Ok_0 is Insert,
        stage is ReadPersisted && event == PersistEvent::Read(Ok(None)) ==> result is Err
            && result->Err_0 is MissingAfterPersist,
        result matches Ok(PersistStage::ReadPersisted) ==> match stage {
            PersistStage::Insert => event == PersistEvent::Inserted(LwtWrite::Applied),
            PersistStage::ReadBack(write) => write is Applied || (event matches PersistEvent::Read(
                Ok(Some(found)),
            ) && found@ == completion),
            _ => false,
        },
        stage is Insert && event is Inserted ==> result is Ok && if event->Inserted_0 is Applied {
            result->Ok_0 is ReadPersisted
        } else {
            result->Ok_0 == PersistStage::ReadBack(event->Inserted_0)
        },
        (stage matches PersistStage::ReadBack(write) && write is NotApplied) && (
        event matches PersistEvent::Read(Ok(read)) && !(read is Some && (read->0)@ == completion))
            ==> result is Err && result->Err_0 is Conflict,
        (stage matches PersistStage::ReadBack(write) && write is Failed) && (
        event matches PersistEvent::Read(Ok(read)) && !(read is Some && (read->0)@ == completion))
            ==> result is Err && result->Err_0 is Indeterminate,
{
}

/// Whether a receipt still stands.
pub open spec fn receipt_revalidated(
    store_fingerprint: [u8; 32],
    receipt: PersistedCoordinatorRollbackDeleteCompletion,
    current: Option<DeleteCompletion>,
    result: Result<(), CoordinatorRollbackDeleteCompletionStoreError>,
) -> bool {
    result == (if receipt.store_fingerprint != store_fingerprint {
        Err::<(), CoordinatorRollbackDeleteCompletionStoreError>(
            CoordinatorRollbackDeleteCompletionStoreError::StoreFingerprintMismatch,
        )
    } else {
        match current {
            None => Err(CoordinatorRollbackDeleteCompletionStoreError::MissingAfterPersist),
            Some(found) => if found@ == receipt.completion@ {
                Ok(())
            } else {
                Err(CoordinatorRollbackDeleteCompletionStoreError::Conflict)
            },
        }
    })
}

/// A receipt stands exactly if it is this store's and the store still holds exactly its
/// completion.
pub proof fn law_receipt_stands_while_the_row_does(
    store_fingerprint: [u8; 32],
    receipt: PersistedCoordinatorRollbackDeleteCompletion,
    current: Option<DeleteCompletion>,
    result: Result<(), CoordinatorRollbackDeleteCompletionStoreError>,
)
    requires
        receipt_revalidated(store_fingerprint, receipt, current, result),
    ensures
        result is Ok <==> receipt.store_fingerprint == store_fingerprint && current is Some && (
        current->0)@ == receipt.completion@,
        result matches Err(error) ==> {
            &&& error is StoreFingerprintMismatch <==> receipt.store_fingerprint
                != store_fingerprint
            &&& error is MissingAfterPersist ==> current is None
            &&& error is Conflict ==> current is Some && (current->0)@ != receipt.completion@
        },
{
}

} // verus!
