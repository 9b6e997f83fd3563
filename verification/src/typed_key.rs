//! The typed keys of the store: what every row is filed under.

use vstd::prelude::*;

use crate::bytes;
use crate::bytes::copy_bytes;
use crate::model::{CheckpointId, UniquePendingId};

verus! {

/// A node of a Merkle tree.
#[derive(Clone, Copy, Debug, PartialEq, Eq, Hash, Structural)]
pub struct MerkleNode {
    pub level: u8,
    pub index: u64,
}

impl MerkleNode {
    pub fn new(level: u8, index: u64) -> (node: Self)
        ensures
            node == (MerkleNode { level, index }),
    {
        MerkleNode { level, index }
    }
}

/// The identity of a checkpoint processor run.
#[derive(Clone, Copy, Debug, PartialEq, Eq, Hash)]
pub struct ProcCheckpointUniqueId {
    pub bytes: [u8; 16],
}

/// A key of an indexed Merkle tree in the order that its bytes sort in.
#[derive(Clone, Copy, Debug, PartialEq, Eq, Hash)]
pub struct ImtEncodedKey {
    pub bytes: [u8; 32],
}

/// The two's complement bit pattern of a small number.
pub open spec fn i16_bits(value: i16) -> u16 {
    if value >= 0 {
        value as u16
    } else {
        (value + 0x1_0000) as u16
    }
}

pub open spec fn bits_i16(bits: u16) -> i16 {
    if bits < 0x8000 {
        bits as i16
    } else {
        (bits - 0x1_0000) as i16
    }
}

pub fn small_to_bits(value: i16) -> (bits: u16)
    ensures
        bits == i16_bits(value),
{
    if value >= 0 {
        value as u16
    } else {
        (value as i32 + 0x1_0000) as u16
    }
}

pub fn small_from_bits(bits: u16) -> (value: i16)
    ensures
        value == bits_i16(bits),
{
    if bits < 0x8000 {
        bits as i16
    } else {
        (bits as i32 - 0x1_0000) as i16
    }
}

/// The partition that an encoded key falls into: its first two bytes, read as a signed
/// number.
pub open spec fn key_bucket(bytes: Seq<u8>) -> i16 {
    bits_i16(bytes::u16_at(bytes, 0))
}

impl ImtEncodedKey {
    pub fn new(bytes: [u8; 32]) -> (key: Self)
        ensures
            key.bytes == bytes,
    {
        ImtEncodedKey { bytes }
    }

    pub fn as_bytes(&self) -> (bytes: &[u8; 32])
        ensures
            *bytes == self.bytes,
    {
        &self.bytes
    }

    pub fn cql_bucket(&self) -> (bucket: i16)
        ensures
            bucket == key_bucket(self.bytes@),
    {
        let mut cursor = bytes::Cursor::new(&self.bytes);
        match cursor.u16() {
            Some(bits) => small_from_bits(bits),
            None => 0,
        }
    }

    pub fn same(&self, other: &Self) -> (same: bool)
        ensures
            same == (*self == *other),
    {
        bytes::array_equal::<32>(&self.bytes, &other.bytes)
    }
}

#[derive(Clone, Copy, Debug, PartialEq, Eq, Hash, Structural)]
pub enum LatestInfoSlot {
    LatestL2BlockState,
    LatestCheckpointTreeRoot,
    RealmAuthorityObservation,
}

impl LatestInfoSlot {
    pub open spec fn spec_number(self) -> u64 {
        match self {
            LatestInfoSlot::LatestL2BlockState => 1,
            LatestInfoSlot::LatestCheckpointTreeRoot => 2,
            LatestInfoSlot::RealmAuthorityObservation => 3,
        }
    }

    #[verifier::when_used_as_spec(spec_number)]
    pub fn number(self) -> (number: u64)
        ensures
            number == self.spec_number(),
    {
        match self {
            LatestInfoSlot::LatestL2BlockState => 1,
            LatestInfoSlot::LatestCheckpointTreeRoot => 2,
            LatestInfoSlot::RealmAuthorityObservation => 3,
        }
    }
}

#[derive(Clone, Copy, Debug, PartialEq, Eq, Hash, Structural)]
pub enum U64SingletonSlot {
    LatestCheckpoint,
}

/// The number of the only singleton slot.
pub const LATEST_CHECKPOINT_SLOT: u64 = 1;

#[derive(Clone, Copy, Debug, PartialEq, Eq, Hash, Structural)]
pub enum U64CounterSlot {
    UniquePending,
}

/// The number of the only counter slot.
pub const UNIQUE_PENDING_SLOT: u64 = 1;

#[derive(Clone, Copy, Debug, PartialEq, Eq, Hash, Structural)]
pub enum CheckpointedObjectKey {
    GlobalUserProofAtCheckpoint(CheckpointId),
    RewardsProofAtCheckpoint(CheckpointId),
    RewardsProofAtPending(UniquePendingId),
    ContractStateProofAtCheckpoint(CheckpointId),
}

impl CheckpointedObjectKey {
    pub open spec fn in_range(self) -> bool {
        match self {
            CheckpointedObjectKey::GlobalUserProofAtCheckpoint(checkpoint) => checkpoint.in_range(),
            CheckpointedObjectKey::RewardsProofAtCheckpoint(checkpoint) => checkpoint.in_range(),
            CheckpointedObjectKey::RewardsProofAtPending(pending) => pending.in_range(),
            CheckpointedObjectKey::ContractStateProofAtCheckpoint(checkpoint) => {
                checkpoint.in_range()
            },
        }
    }
}

#[verifier::ext_equal]
#[derive(Clone, Debug, PartialEq, Eq)]
pub enum TypedTableKey<B> {
    CheckpointLeaf(CheckpointId),
    CheckpointRootByHash(B),
    CheckpointRootByCheckpoint(CheckpointId),
    CheckpointLeafByHash(B),
    CheckpointLeafByCheckpoint(CheckpointId),
    L2BlockState(CheckpointId),
    UnusedCheckpointRealmRoot(CheckpointId),
    LatestInfo(LatestInfoSlot),
    CheckpointedObject(CheckpointedObjectKey),
    CheckpointStateRoots(CheckpointId),
    UserLeaf { user: u64, checkpoint: CheckpointId },
    UserPublicKey { user: u64, checkpoint: CheckpointId },
    U64Singleton(U64SingletonSlot),
    U64Counter(U64CounterSlot),
    ContractStateTreeHeight { contract: u64, checkpoint: CheckpointId },
    CheckpointToPending(CheckpointId),
    PendingToCheckpoint(UniquePendingId),
    PendingToProc(UniquePendingId),
    ProcToPending(ProcCheckpointUniqueId),
    RealmRewardNode { realm: u64, pending: UniquePendingId },
    PublicKeyToUser { public_key_hash: B, user: u64 },
    GlobalUserMerkle { node: MerkleNode, checkpoint: CheckpointId },
    UserContractMerkle { user: u64, node: MerkleNode, checkpoint: CheckpointId },
    ContractStateMerkle { user: u64, contract: u64, node: MerkleNode, checkpoint: CheckpointId },
    GlobalCheckpointMerkle { node: MerkleNode, checkpoint: CheckpointId },
    RewardTagMerkle { pending: UniquePendingId, node: MerkleNode },
    UserRegistrationMerkle { node: MerkleNode, checkpoint: CheckpointId },
    GlobalContractMerkle { node: MerkleNode, checkpoint: CheckpointId },
    ContractFunctionMerkle { contract: u64, node: MerkleNode, checkpoint: CheckpointId },
    ContractLeaf { contract: u64, checkpoint: CheckpointId },
    ContractCodeDefinition { contract: u64, checkpoint: CheckpointId },
    CheckpointZkProof(CheckpointId),
    ImtLeaf { tree: u64, tree_sub: u64, leaf: u64, checkpoint: CheckpointId },
    ImtKeyIndex { tree: u64, tree_sub: u64, encoded_key: ImtEncodedKey },
    ImtCursor { tree: u64, tree_sub: u64 },
}

pub type TypedKey = TypedTableKey<Vec<u8>>;

pub type TypedKeyModel = TypedTableKey<Seq<u8>>;

impl View for TypedTableKey<Vec<u8>> {
    type V = TypedTableKey<Seq<u8>>;

    open spec fn view(&self) -> TypedTableKey<Seq<u8>> {
        match *self {
            TypedTableKey::CheckpointLeaf(value) => TypedTableKey::CheckpointLeaf(value),
            TypedTableKey::CheckpointRootByHash(value) => TypedTableKey::CheckpointRootByHash(value@),
            TypedTableKey::CheckpointRootByCheckpoint(value) => {
                TypedTableKey::CheckpointRootByCheckpoint(value)
            },
            TypedTableKey::CheckpointLeafByHash(value) => TypedTableKey::CheckpointLeafByHash(value@),
            TypedTableKey::CheckpointLeafByCheckpoint(value) => {
                TypedTableKey::CheckpointLeafByCheckpoint(value)
            },
            TypedTableKey::L2BlockState(value) => TypedTableKey::L2BlockState(value),
            TypedTableKey::UnusedCheckpointRealmRoot(value) => {
                TypedTableKey::UnusedCheckpointRealmRoot(value)
            },
            TypedTableKey::LatestInfo(value) => TypedTableKey::LatestInfo(value),
            TypedTableKey::CheckpointedObject(value) => TypedTableKey::CheckpointedObject(value),
            TypedTableKey::CheckpointStateRoots(value) => TypedTableKey::CheckpointStateRoots(value),
            TypedTableKey::UserLeaf { user, checkpoint } => TypedTableKey::UserLeaf { user, checkpoint },
            TypedTableKey::UserPublicKey { user, checkpoint } => {
                TypedTableKey::UserPublicKey { user, checkpoint }
            },
            TypedTableKey::U64Singleton(value) => TypedTableKey::U64Singleton(value),
            TypedTableKey::U64Counter(value) => TypedTableKey::U64Counter(value),
            TypedTableKey::ContractStateTreeHeight { contract, checkpoint } => {
                TypedTableKey::ContractStateTreeHeight { contract, checkpoint }
            },
            TypedTableKey::CheckpointToPending(value) => TypedTableKey::CheckpointToPending(value),
            TypedTableKey::PendingToCheckpoint(value) => TypedTableKey::PendingToCheckpoint(value),
            TypedTableKey::PendingToProc(value) => TypedTableKey::PendingToProc(value),
            TypedTableKey::ProcToPending(value) => TypedTableKey::ProcToPending(value),
            TypedTableKey::RealmRewardNode { realm, pending } => {
                TypedTableKey::RealmRewardNode { realm, pending }
            },
            TypedTableKey::PublicKeyToUser { public_key_hash, user } => {
                TypedTableKey::PublicKeyToUser { public_key_hash: public_key_hash@, user }
            },
            TypedTableKey::GlobalUserMerkle { node, checkpoint } => {
                TypedTableKey::GlobalUserMerkle { node, checkpoint }
            },
            TypedTableKey::UserContractMerkle { user, node, checkpoint } => {
                TypedTableKey::UserContractMerkle { user, node, checkpoint }
            },
            TypedTableKey::ContractStateMerkle { user, contract, node, checkpoint } => {
                TypedTableKey::ContractStateMerkle { user, contract, node, checkpoint }
            },
            TypedTableKey::GlobalCheckpointMerkle { node, checkpoint } => {
                TypedTableKey::GlobalCheckpointMerkle { node, checkpoint }
            },
            TypedTableKey::RewardTagMerkle { pending, node } => {
                TypedTableKey::RewardTagMerkle { pending, node }
            },
            TypedTableKey::UserRegistrationMerkle { node, checkpoint } => {
                TypedTableKey::UserRegistrationMerkle { node, checkpoint }
            },
            TypedTableKey::GlobalContractMerkle { node, checkpoint } => {
                TypedTableKey::GlobalContractMerkle { node, checkpoint }
            },
            TypedTableKey::ContractFunctionMerkle { contract, node, checkpoint } => {
                TypedTableKey::ContractFunctionMerkle { contract, node, checkpoint }
            },
            TypedTableKey::ContractLeaf { contract, checkpoint } => {
                TypedTableKey::ContractLeaf { contract, checkpoint }
            },
            TypedTableKey::ContractCodeDefinition { contract, checkpoint } => {
                TypedTableKey::ContractCodeDefinition { contract, checkpoint }
            },
            TypedTableKey::CheckpointZkProof(value) => TypedTableKey::CheckpointZkProof(value),
            TypedTableKey::ImtLeaf { tree, tree_sub, leaf, checkpoint } => {
                TypedTableKey::ImtLeaf { tree, tree_sub, leaf, checkpoint }
            },
            TypedTableKey::ImtKeyIndex { tree, tree_sub, encoded_key } => {
                TypedTableKey::ImtKeyIndex { tree, tree_sub, encoded_key }
            },
            TypedTableKey::ImtCursor { tree, tree_sub } => TypedTableKey::ImtCursor { tree, tree_sub },
        }
    }
}

/// Whether every coordinate of a key is a number that the store can hold.
pub open spec fn key_in_range(key: TypedKeyModel) -> bool {
    match key {
        TypedTableKey::CheckpointLeaf(value) => value.in_range(),
        TypedTableKey::CheckpointRootByHash(value) => value.len() <= u32::MAX,
        TypedTableKey::CheckpointRootByCheckpoint(value) => value.in_range(),
        TypedTableKey::CheckpointLeafByHash(value) => value.len() <= u32::MAX,
        TypedTableKey::CheckpointLeafByCheckpoint(value) => value.in_range(),
        TypedTableKey::L2BlockState(value) => value.in_range(),
        TypedTableKey::UnusedCheckpointRealmRoot(value) => value.in_range(),
        TypedTableKey::CheckpointedObject(value) => value.in_range(),
        TypedTableKey::CheckpointStateRoots(value) => value.in_range(),
        TypedTableKey::UserLeaf { checkpoint, .. } => checkpoint.in_range(),
        TypedTableKey::UserPublicKey { checkpoint, .. } => checkpoint.in_range(),
        TypedTableKey::ContractStateTreeHeight { checkpoint, .. } => checkpoint.in_range(),
        TypedTableKey::CheckpointToPending(value) => value.in_range(),
        TypedTableKey::PendingToCheckpoint(value) => value.in_range(),
        TypedTableKey::PendingToProc(value) => value.in_range(),
        TypedTableKey::RealmRewardNode { pending, .. } => pending.in_range(),
        TypedTableKey::PublicKeyToUser { public_key_hash, .. } => public_key_hash.len() <= u32::MAX,
        TypedTableKey::GlobalUserMerkle { checkpoint, .. } => checkpoint.in_range(),
        TypedTableKey::UserContractMerkle { checkpoint, .. } => checkpoint.in_range(),
        TypedTableKey::ContractStateMerkle { checkpoint, .. } => checkpoint.in_range(),
        TypedTableKey::GlobalCheckpointMerkle { checkpoint, .. } => checkpoint.in_range(),
        TypedTableKey::RewardTagMerkle { pending, .. } => pending.in_range(),
        TypedTableKey::UserRegistrationMerkle { checkpoint, .. } => checkpoint.in_range(),
        TypedTableKey::GlobalContractMerkle { checkpoint, .. } => checkpoint.in_range(),
        TypedTableKey::ContractFunctionMerkle { checkpoint, .. } => checkpoint.in_range(),
        TypedTableKey::ContractLeaf { checkpoint, .. } => checkpoint.in_range(),
        TypedTableKey::ContractCodeDefinition { checkpoint, .. } => checkpoint.in_range(),
        TypedTableKey::CheckpointZkProof(value) => value.in_range(),
        TypedTableKey::ImtLeaf { checkpoint, .. } => checkpoint.in_range(),
        _ => true,
    }
}

impl TypedTableKey<Vec<u8>> {
    pub fn copy(&self) -> (copy: Self)
        ensures
            copy@ == self@,
    {
        match self {
            TypedTableKey::CheckpointLeaf(value) => TypedTableKey::CheckpointLeaf(*value),
            TypedTableKey::CheckpointRootByHash(value) => {
                TypedTableKey::CheckpointRootByHash(copy_bytes(value))
            },
            TypedTableKey::CheckpointRootByCheckpoint(value) => {
                TypedTableKey::CheckpointRootByCheckpoint(*value)
            },
            TypedTableKey::CheckpointLeafByHash(value) => {
                TypedTableKey::CheckpointLeafByHash(copy_bytes(value))
            },
            TypedTableKey::CheckpointLeafByCheckpoint(value) => {
                TypedTableKey::CheckpointLeafByCheckpoint(*value)
            },
            TypedTableKey::L2BlockState(value) => TypedTableKey::L2BlockState(*value),
            TypedTableKey::UnusedCheckpointRealmRoot(value) => {
                TypedTableKey::UnusedCheckpointRealmRoot(*value)
            },
            TypedTableKey::LatestInfo(value) => TypedTableKey::LatestInfo(*value),
            TypedTableKey::CheckpointedObject(value) => TypedTableKey::CheckpointedObject(*value),
            TypedTableKey::CheckpointStateRoots(value) => TypedTableKey::CheckpointStateRoots(*value),
            TypedTableKey::UserLeaf { user, checkpoint } => {
                TypedTableKey::UserLeaf { user: *user, checkpoint: *checkpoint }
            },
            TypedTableKey::UserPublicKey { user, checkpoint } => {
                TypedTableKey::UserPublicKey { user: *user, checkpoint: *checkpoint }
            },
            TypedTableKey::U64Singleton(value) => TypedTableKey::U64Singleton(*value),
            TypedTableKey::U64Counter(value) => TypedTableKey::U64Counter(*value),
            TypedTableKey::ContractStateTreeHeight { contract, checkpoint } => {
                TypedTableKey::ContractStateTreeHeight {
                    contract: *contract,
                    checkpoint: *checkpoint,
                }
            },
            TypedTableKey::CheckpointToPending(value) => TypedTableKey::CheckpointToPending(*value),
            TypedTableKey::PendingToCheckpoint(value) => TypedTableKey::PendingToCheckpoint(*value),
            TypedTableKey::PendingToProc(value) => TypedTableKey::PendingToProc(*value),
            TypedTableKey::ProcToPending(value) => TypedTableKey::ProcToPending(*value),
            TypedTableKey::RealmRewardNode { realm, pending } => {
                TypedTableKey::RealmRewardNode { realm: *realm, pending: *pending }
            },
            TypedTableKey::PublicKeyToUser { public_key_hash, user } => {
                TypedTableKey::PublicKeyToUser {
                    public_key_hash: copy_bytes(public_key_hash),
                    user: *user,
                }
            },
            TypedTableKey::GlobalUserMerkle { node, checkpoint } => {
                TypedTableKey::GlobalUserMerkle { node: *node, checkpoint: *checkpoint }
            },
            TypedTableKey::UserContractMerkle { user, node, checkpoint } => {
                TypedTableKey::UserContractMerkle {
                    user: *user,
                    node: *node,
                    checkpoint: *checkpoint,
                }
            },
            TypedTableKey::ContractStateMerkle { user, contract, node, checkpoint } => {
                TypedTableKey::ContractStateMerkle {
                    user: *user,
                    contract: *contract,
                    node: *node,
                    checkpoint: *checkpoint,
                }
            },
            TypedTableKey::GlobalCheckpointMerkle { node, checkpoint } => {
                TypedTableKey::GlobalCheckpointMerkle { node: *node, checkpoint: *checkpoint }
            },
            TypedTableKey::RewardTagMerkle { pending, node } => {
                TypedTableKey::RewardTagMerkle { pending: *pending, node: *node }
            },
            TypedTableKey::UserRegistrationMerkle { node, checkpoint } => {
                TypedTableKey::UserRegistrationMerkle { node: *node, checkpoint: *checkpoint }
            },
            TypedTableKey::GlobalContractMerkle { node, checkpoint } => {
                TypedTableKey::GlobalContractMerkle { node: *node, checkpoint: *checkpoint }
            },
            TypedTableKey::ContractFunctionMerkle { contract, node, checkpoint } => {
                TypedTableKey::ContractFunctionMerkle {
                    contract: *contract,
                    node: *node,
                    checkpoint: *checkpoint,
                }
            },
            TypedTableKey::ContractLeaf { contract, checkpoint } => {
                TypedTableKey::ContractLeaf { contract: *contract, checkpoint: *checkpoint }
            },
            TypedTableKey::ContractCodeDefinition { contract, checkpoint } => {
                TypedTableKey::ContractCodeDefinition {
                    contract: *contract,
                    checkpoint: *checkpoint,
                }
            },
            TypedTableKey::CheckpointZkProof(value) => TypedTableKey::CheckpointZkProof(*value),
            TypedTableKey::ImtLeaf { tree, tree_sub, leaf, checkpoint } => TypedTableKey::ImtLeaf {
                tree: *tree,
                tree_sub: *tree_sub,
                leaf: *leaf,
                checkpoint: *checkpoint,
            },
            TypedTableKey::ImtKeyIndex { tree, tree_sub, encoded_key } => {
                TypedTableKey::ImtKeyIndex {
                    tree: *tree,
                    tree_sub: *tree_sub,
                    encoded_key: *encoded_key,
                }
            },
            TypedTableKey::ImtCursor { tree, tree_sub } => {
                TypedTableKey::ImtCursor { tree: *tree, tree_sub: *tree_sub }
            },
        }
    }
}

} // verus!
