//! Stable identities of physical tables and of the key domains stored in them.

use vstd::prelude::*;

verus! {

/// Stable physical table identity used by locators and manifests.
#[derive(Clone, Copy, Debug, PartialEq, Eq, Hash, PartialOrd, Ord, Structural)]
pub enum ScyllaPhysicalTableId {
    CheckpointLeaf,
    CheckpointRootToCheckpointIdK1,
    CheckpointRootToCheckpointIdK2,
    CheckpointLeafToCheckpointIdK1,
    CheckpointLeafToCheckpointIdK2,
    L2BlockState,
    CheckpointIdToRealmRoot,
    LatestInfo,
    CheckpointedObject,
    CheckpointStateRoots,
    UserLeaf,
    UserPublicKey,
    U64Singleton,
    U64CounterSingleton,
    ContractStateTreeHeight,
    CheckpointIdToPendingId,
    PendingIdToCheckpointId,
    PendingIdToPendingProcIdU64ToU128,
    PendingIdToPendingProcIdU128ToU64,
    RealmRewardsTreeNodeKey,
    PublicKeyHashToUserIds,
    GlobalUserTree,
    UserContractTree,
    ContractStateTree,
    GlobalCheckpointTree,
    GutaRewardTagTree,
    UserRegistrationTree,
    GlobalContractTree,
    ContractFunctionTree,
    ContractLeaf,
    ContractCodeDefinition,
    CheckpointZkProofAndTransition,
    ImtLeaf,
    ImtKeyIndex,
    ImtNextAppendIndex,
}

/// Stable semantic key domain. Domains stay distinct even where the CQL schema
/// flattens them to identical integer columns.
#[derive(Clone, Copy, Debug, PartialEq, Eq, Hash, PartialOrd, Ord, Structural)]
pub enum ScyllaKeyDomain {
    CheckpointLeaf,
    CheckpointRootByHash,
    CheckpointRootByCheckpoint,
    CheckpointLeafByHash,
    CheckpointLeafByCheckpoint,
    L2BlockState,
    UnusedCheckpointRealmRoot,
    LatestInfo,
    CheckpointedGlobalUserProof,
    CheckpointedRewardsProofAtCheckpoint,
    CheckpointedRewardsProofAtPending,
    CheckpointedContractStateProof,
    CheckpointStateRoots,
    UserLeaf,
    UserPublicKey,
    U64Singleton,
    U64Counter,
    ContractStateTreeHeight,
    CheckpointToPending,
    PendingToCheckpoint,
    PendingToProc,
    ProcToPending,
    RealmRewardNode,
    PublicKeyToUser,
    GlobalUserMerkle,
    UserContractMerkle,
    ContractStateMerkle,
    GlobalCheckpointMerkle,
    RewardTagMerkle,
    UserRegistrationMerkle,
    GlobalContractMerkle,
    ContractFunctionMerkle,
    ContractLeaf,
    ContractCodeDefinition,
    CheckpointZkProof,
    ImtLeaf,
    ImtKeyIndex,
    ImtCursor,
    /// Realm serving-head marker, kept apart from the derived latest-info slots.
    RealmAuthorityObservation,
}

/// A physical table id that is not registered. A locator written by a newer
/// schema must fail to decode rather than land on a neighbouring table.
#[derive(Clone, Copy, Debug, PartialEq, Eq, Structural)]
pub struct UnknownScyllaPhysicalTableId(pub u16);

impl ScyllaPhysicalTableId {
    pub open spec fn spec_stable_id(self) -> u16 {
        match self {
            ScyllaPhysicalTableId::CheckpointLeaf => 1,
            ScyllaPhysicalTableId::CheckpointRootToCheckpointIdK1 => 2,
            ScyllaPhysicalTableId::CheckpointRootToCheckpointIdK2 => 3,
            ScyllaPhysicalTableId::CheckpointLeafToCheckpointIdK1 => 4,
            ScyllaPhysicalTableId::CheckpointLeafToCheckpointIdK2 => 5,
            ScyllaPhysicalTableId::L2BlockState => 6,
            ScyllaPhysicalTableId::CheckpointIdToRealmRoot => 7,
            ScyllaPhysicalTableId::LatestInfo => 8,
            ScyllaPhysicalTableId::CheckpointedObject => 9,
            ScyllaPhysicalTableId::CheckpointStateRoots => 10,
            ScyllaPhysicalTableId::UserLeaf => 11,
            ScyllaPhysicalTableId::UserPublicKey => 12,
            ScyllaPhysicalTableId::U64Singleton => 13,
            ScyllaPhysicalTableId::U64CounterSingleton => 14,
            ScyllaPhysicalTableId::ContractStateTreeHeight => 15,
            ScyllaPhysicalTableId::CheckpointIdToPendingId => 16,
            ScyllaPhysicalTableId::PendingIdToCheckpointId => 17,
            ScyllaPhysicalTableId::PendingIdToPendingProcIdU64ToU128 => 18,
            ScyllaPhysicalTableId::PendingIdToPendingProcIdU128ToU64 => 19,
            ScyllaPhysicalTableId::RealmRewardsTreeNodeKey => 20,
            ScyllaPhysicalTableId::PublicKeyHashToUserIds => 21,
            ScyllaPhysicalTableId::GlobalUserTree => 22,
            ScyllaPhysicalTableId::UserContractTree => 23,
            ScyllaPhysicalTableId::ContractStateTree => 24,
            ScyllaPhysicalTableId::GlobalCheckpointTree => 25,
            ScyllaPhysicalTableId::GutaRewardTagTree => 26,
            ScyllaPhysicalTableId::UserRegistrationTree => 27,
            ScyllaPhysicalTableId::GlobalContractTree => 28,
            ScyllaPhysicalTableId::ContractFunctionTree => 29,
            ScyllaPhysicalTableId::ContractLeaf => 30,
            ScyllaPhysicalTableId::ContractCodeDefinition => 31,
            ScyllaPhysicalTableId::CheckpointZkProofAndTransition => 32,
            ScyllaPhysicalTableId::ImtLeaf => 33,
            ScyllaPhysicalTableId::ImtKeyIndex => 34,
            ScyllaPhysicalTableId::ImtNextAppendIndex => 35,
        }
    }

    /// The number that stands for this identity in every persisted encoding.
    #[verifier::when_used_as_spec(spec_stable_id)]
    pub fn stable_id(self) -> (id: u16)
        ensures
            id == self.spec_stable_id(),
    {
        match self {
            ScyllaPhysicalTableId::CheckpointLeaf => 1,
            ScyllaPhysicalTableId::CheckpointRootToCheckpointIdK1 => 2,
            ScyllaPhysicalTableId::CheckpointRootToCheckpointIdK2 => 3,
            ScyllaPhysicalTableId::CheckpointLeafToCheckpointIdK1 => 4,
            ScyllaPhysicalTableId::CheckpointLeafToCheckpointIdK2 => 5,
            ScyllaPhysicalTableId::L2BlockState => 6,
            ScyllaPhysicalTableId::CheckpointIdToRealmRoot => 7,
            ScyllaPhysicalTableId::LatestInfo => 8,
            ScyllaPhysicalTableId::CheckpointedObject => 9,
            ScyllaPhysicalTableId::CheckpointStateRoots => 10,
            ScyllaPhysicalTableId::UserLeaf => 11,
            ScyllaPhysicalTableId::UserPublicKey => 12,
            ScyllaPhysicalTableId::U64Singleton => 13,
            ScyllaPhysicalTableId::U64CounterSingleton => 14,
            ScyllaPhysicalTableId::ContractStateTreeHeight => 15,
            ScyllaPhysicalTableId::CheckpointIdToPendingId => 16,
            ScyllaPhysicalTableId::PendingIdToCheckpointId => 17,
            ScyllaPhysicalTableId::PendingIdToPendingProcIdU64ToU128 => 18,
            ScyllaPhysicalTableId::PendingIdToPendingProcIdU128ToU64 => 19,
            ScyllaPhysicalTableId::RealmRewardsTreeNodeKey => 20,
            ScyllaPhysicalTableId::PublicKeyHashToUserIds => 21,
            ScyllaPhysicalTableId::GlobalUserTree => 22,
            ScyllaPhysicalTableId::UserContractTree => 23,
            ScyllaPhysicalTableId::ContractStateTree => 24,
            ScyllaPhysicalTableId::GlobalCheckpointTree => 25,
            ScyllaPhysicalTableId::GutaRewardTagTree => 26,
            ScyllaPhysicalTableId::UserRegistrationTree => 27,
            ScyllaPhysicalTableId::GlobalContractTree => 28,
            ScyllaPhysicalTableId::ContractFunctionTree => 29,
            ScyllaPhysicalTableId::ContractLeaf => 30,
            ScyllaPhysicalTableId::ContractCodeDefinition => 31,
            ScyllaPhysicalTableId::CheckpointZkProofAndTransition => 32,
            ScyllaPhysicalTableId::ImtLeaf => 33,
            ScyllaPhysicalTableId::ImtKeyIndex => 34,
            ScyllaPhysicalTableId::ImtNextAppendIndex => 35,
        }
    }

    /// The identity with the given number, if one is registered.
    pub fn from_stable_id(value: u16) -> (found: Option<Self>)
        ensures
            match found {
                Some(id) => id.spec_stable_id() == value,
                None => forall|id: Self| #[trigger] id.spec_stable_id() != value,
            },
    {
        match value {
            1 => Some(ScyllaPhysicalTableId::CheckpointLeaf),
            2 => Some(ScyllaPhysicalTableId::CheckpointRootToCheckpointIdK1),
            3 => Some(ScyllaPhysicalTableId::CheckpointRootToCheckpointIdK2),
            4 => Some(ScyllaPhysicalTableId::CheckpointLeafToCheckpointIdK1),
            5 => Some(ScyllaPhysicalTableId::CheckpointLeafToCheckpointIdK2),
            6 => Some(ScyllaPhysicalTableId::L2BlockState),
            7 => Some(ScyllaPhysicalTableId::CheckpointIdToRealmRoot),
            8 => Some(ScyllaPhysicalTableId::LatestInfo),
            9 => Some(ScyllaPhysicalTableId::CheckpointedObject),
            10 => Some(ScyllaPhysicalTableId::CheckpointStateRoots),
            11 => Some(ScyllaPhysicalTableId::UserLeaf),
            12 => Some(ScyllaPhysicalTableId::UserPublicKey),
            13 => Some(ScyllaPhysicalTableId::U64Singleton),
            14 => Some(ScyllaPhysicalTableId::U64CounterSingleton),
            15 => Some(ScyllaPhysicalTableId::ContractStateTreeHeight),
            16 => Some(ScyllaPhysicalTableId::CheckpointIdToPendingId),
            17 => Some(ScyllaPhysicalTableId::PendingIdToCheckpointId),
            18 => Some(ScyllaPhysicalTableId::PendingIdToPendingProcIdU64ToU128),
            19 => Some(ScyllaPhysicalTableId::PendingIdToPendingProcIdU128ToU64),
            20 => Some(ScyllaPhysicalTableId::RealmRewardsTreeNodeKey),
            21 => Some(ScyllaPhysicalTableId::PublicKeyHashToUserIds),
            22 => Some(ScyllaPhysicalTableId::GlobalUserTree),
            23 => Some(ScyllaPhysicalTableId::UserContractTree),
            24 => Some(ScyllaPhysicalTableId::ContractStateTree),
            25 => Some(ScyllaPhysicalTableId::GlobalCheckpointTree),
            26 => Some(ScyllaPhysicalTableId::GutaRewardTagTree),
            27 => Some(ScyllaPhysicalTableId::UserRegistrationTree),
            28 => Some(ScyllaPhysicalTableId::GlobalContractTree),
            29 => Some(ScyllaPhysicalTableId::ContractFunctionTree),
            30 => Some(ScyllaPhysicalTableId::ContractLeaf),
            31 => Some(ScyllaPhysicalTableId::ContractCodeDefinition),
            32 => Some(ScyllaPhysicalTableId::CheckpointZkProofAndTransition),
            33 => Some(ScyllaPhysicalTableId::ImtLeaf),
            34 => Some(ScyllaPhysicalTableId::ImtKeyIndex),
            35 => Some(ScyllaPhysicalTableId::ImtNextAppendIndex),
            _ => None,
        }
    }

    /// The table with the given number; an unknown number is handed back.
    pub fn try_from(value: u16) -> (found: Result<Self, UnknownScyllaPhysicalTableId>)
        ensures
            match found {
                Ok(id) => id.spec_stable_id() == value,
                Err(unknown) => unknown == UnknownScyllaPhysicalTableId(value) && forall|id: Self|
                    #[trigger] id.spec_stable_id() != value,
            },
    {
        match Self::from_stable_id(value) {
            Some(id) => Ok(id),
            None => Err(UnknownScyllaPhysicalTableId(value)),
        }
    }
}

impl ScyllaKeyDomain {
    pub open spec fn spec_stable_id(self) -> u16 {
        match self {
            ScyllaKeyDomain::CheckpointLeaf => 1,
            ScyllaKeyDomain::CheckpointRootByHash => 2,
            ScyllaKeyDomain::CheckpointRootByCheckpoint => 3,
            ScyllaKeyDomain::CheckpointLeafByHash => 4,
            ScyllaKeyDomain::CheckpointLeafByCheckpoint => 5,
            ScyllaKeyDomain::L2BlockState => 6,
            ScyllaKeyDomain::UnusedCheckpointRealmRoot => 7,
            ScyllaKeyDomain::LatestInfo => 8,
            ScyllaKeyDomain::CheckpointedGlobalUserProof => 9,
            ScyllaKeyDomain::CheckpointedRewardsProofAtCheckpoint => 10,
            ScyllaKeyDomain::CheckpointedRewardsProofAtPending => 11,
            ScyllaKeyDomain::CheckpointedContractStateProof => 12,
            ScyllaKeyDomain::CheckpointStateRoots => 13,
            ScyllaKeyDomain::UserLeaf => 14,
            ScyllaKeyDomain::UserPublicKey => 15,
            ScyllaKeyDomain::U64Singleton => 16,
            ScyllaKeyDomain::U64Counter => 17,
            ScyllaKeyDomain::ContractStateTreeHeight => 18,
            ScyllaKeyDomain::CheckpointToPending => 19,
            ScyllaKeyDomain::PendingToCheckpoint => 20,
            ScyllaKeyDomain::PendingToProc => 21,
            ScyllaKeyDomain::ProcToPending => 22,
            ScyllaKeyDomain::RealmRewardNode => 23,
            ScyllaKeyDomain::PublicKeyToUser => 24,
            ScyllaKeyDomain::GlobalUserMerkle => 25,
            ScyllaKeyDomain::UserContractMerkle => 26,
            ScyllaKeyDomain::ContractStateMerkle => 27,
            ScyllaKeyDomain::GlobalCheckpointMerkle => 28,
            ScyllaKeyDomain::RewardTagMerkle => 29,
            ScyllaKeyDomain::UserRegistrationMerkle => 30,
            ScyllaKeyDomain::GlobalContractMerkle => 31,
            ScyllaKeyDomain::ContractFunctionMerkle => 32,
            ScyllaKeyDomain::ContractLeaf => 33,
            ScyllaKeyDomain::ContractCodeDefinition => 34,
            ScyllaKeyDomain::CheckpointZkProof => 35,
            ScyllaKeyDomain::ImtLeaf => 36,
            ScyllaKeyDomain::ImtKeyIndex => 37,
            ScyllaKeyDomain::ImtCursor => 38,
            ScyllaKeyDomain::RealmAuthorityObservation => 39,
        }
    }

    /// The number that stands for this identity in every persisted encoding.
    #[verifier::when_used_as_spec(spec_stable_id)]
    pub fn stable_id(self) -> (id: u16)
        ensures
            id == self.spec_stable_id(),
    {
        match self {
            ScyllaKeyDomain::CheckpointLeaf => 1,
            ScyllaKeyDomain::CheckpointRootByHash => 2,
            ScyllaKeyDomain::CheckpointRootByCheckpoint => 3,
            ScyllaKeyDomain::CheckpointLeafByHash => 4,
            ScyllaKeyDomain::CheckpointLeafByCheckpoint => 5,
            ScyllaKeyDomain::L2BlockState => 6,
            ScyllaKeyDomain::UnusedCheckpointRealmRoot => 7,
            ScyllaKeyDomain::LatestInfo => 8,
            ScyllaKeyDomain::CheckpointedGlobalUserProof => 9,
            ScyllaKeyDomain::CheckpointedRewardsProofAtCheckpoint => 10,
            ScyllaKeyDomain::CheckpointedRewardsProofAtPending => 11,
            ScyllaKeyDomain::CheckpointedContractStateProof => 12,
            ScyllaKeyDomain::CheckpointStateRoots => 13,
            ScyllaKeyDomain::UserLeaf => 14,
            ScyllaKeyDomain::UserPublicKey => 15,
            ScyllaKeyDomain::U64Singleton => 16,
            ScyllaKeyDomain::U64Counter => 17,
            ScyllaKeyDomain::ContractStateTreeHeight => 18,
            ScyllaKeyDomain::CheckpointToPending => 19,
            ScyllaKeyDomain::PendingToCheckpoint => 20,
            ScyllaKeyDomain::PendingToProc => 21,
            ScyllaKeyDomain::ProcToPending => 22,
            ScyllaKeyDomain::RealmRewardNode => 23,
            ScyllaKeyDomain::PublicKeyToUser => 24,
            ScyllaKeyDomain::GlobalUserMerkle => 25,
            ScyllaKeyDomain::UserContractMerkle => 26,
            ScyllaKeyDomain::ContractStateMerkle => 27,
            ScyllaKeyDomain::GlobalCheckpointMerkle => 28,
            ScyllaKeyDomain::RewardTagMerkle => 29,
            ScyllaKeyDomain::UserRegistrationMerkle => 30,
            ScyllaKeyDomain::GlobalContractMerkle => 31,
            ScyllaKeyDomain::ContractFunctionMerkle => 32,
            ScyllaKeyDomain::ContractLeaf => 33,
            ScyllaKeyDomain::ContractCodeDefinition => 34,
            ScyllaKeyDomain::CheckpointZkProof => 35,
            ScyllaKeyDomain::ImtLeaf => 36,
            ScyllaKeyDomain::ImtKeyIndex => 37,
            ScyllaKeyDomain::ImtCursor => 38,
            ScyllaKeyDomain::RealmAuthorityObservation => 39,
        }
    }

    /// The identity with the given number, if one is registered.
    pub fn from_stable_id(value: u16) -> (found: Option<Self>)
        ensures
            match found {
                Some(id) => id.spec_stable_id() == value,
                None => forall|id: Self| #[trigger] id.spec_stable_id() != value,
            },
    {
        match value {
            1 => Some(ScyllaKeyDomain::CheckpointLeaf),
            2 => Some(ScyllaKeyDomain::CheckpointRootByHash),
            3 => Some(ScyllaKeyDomain::CheckpointRootByCheckpoint),
            4 => Some(ScyllaKeyDomain::CheckpointLeafByHash),
            5 => Some(ScyllaKeyDomain::CheckpointLeafByCheckpoint),
            6 => Some(ScyllaKeyDomain::L2BlockState),
            7 => Some(ScyllaKeyDomain::UnusedCheckpointRealmRoot),
            8 => Some(ScyllaKeyDomain::LatestInfo),
            9 => Some(ScyllaKeyDomain::CheckpointedGlobalUserProof),
            10 => Some(ScyllaKeyDomain::CheckpointedRewardsProofAtCheckpoint),
            11 => Some(ScyllaKeyDomain::CheckpointedRewardsProofAtPending),
            12 => Some(ScyllaKeyDomain::CheckpointedContractStateProof),
            13 => Some(ScyllaKeyDomain::CheckpointStateRoots),
            14 => Some(ScyllaKeyDomain::UserLeaf),
            15 => Some(ScyllaKeyDomain::UserPublicKey),
            16 => Some(ScyllaKeyDomain::U64Singleton),
            17 => Some(ScyllaKeyDomain::U64Counter),
            18 => Some(ScyllaKeyDomain::ContractStateTreeHeight),
            19 => Some(ScyllaKeyDomain::CheckpointToPending),
            20 => Some(ScyllaKeyDomain::PendingToCheckpoint),
            21 => Some(ScyllaKeyDomain::PendingToProc),
            22 => Some(ScyllaKeyDomain::ProcToPending),
            23 => Some(ScyllaKeyDomain::RealmRewardNode),
            24 => Some(ScyllaKeyDomain::PublicKeyToUser),
            25 => Some(ScyllaKeyDomain::GlobalUserMerkle),
            26 => Some(ScyllaKeyDomain::UserContractMerkle),
            27 => Some(ScyllaKeyDomain::ContractStateMerkle),
            28 => Some(ScyllaKeyDomain::GlobalCheckpointMerkle),
            29 => Some(ScyllaKeyDomain::RewardTagMerkle),
            30 => Some(ScyllaKeyDomain::UserRegistrationMerkle),
            31 => Some(ScyllaKeyDomain::GlobalContractMerkle),
            32 => Some(ScyllaKeyDomain::ContractFunctionMerkle),
            33 => Some(ScyllaKeyDomain::ContractLeaf),
            34 => Some(ScyllaKeyDomain::ContractCodeDefinition),
            35 => Some(ScyllaKeyDomain::CheckpointZkProof),
            36 => Some(ScyllaKeyDomain::ImtLeaf),
            37 => Some(ScyllaKeyDomain::ImtKeyIndex),
            38 => Some(ScyllaKeyDomain::ImtCursor),
            39 => Some(ScyllaKeyDomain::RealmAuthorityObservation),
            _ => None,
        }
    }
}

/// No two physical tables share a number.
pub proof fn law_table_ids_are_distinct(a: ScyllaPhysicalTableId, b: ScyllaPhysicalTableId)
    ensures
        a.spec_stable_id() == b.spec_stable_id() ==> a == b,
{
}

/// No two key domains share a number.
pub proof fn law_domain_ids_are_distinct(a: ScyllaKeyDomain, b: ScyllaKeyDomain)
    ensures
        a.spec_stable_id() == b.spec_stable_id() ==> a == b,
{
}

/// The number that stands for a table in every persisted encoding tells the table.
pub proof fn law_table_numbers(table: ScyllaPhysicalTableId)
    ensures
        table.spec_stable_id() == 1 <==> table is CheckpointLeaf,
        table.spec_stable_id() == 2 <==> table is CheckpointRootToCheckpointIdK1,
        table.spec_stable_id() == 3 <==> table is CheckpointRootToCheckpointIdK2,
        table.spec_stable_id() == 4 <==> table is CheckpointLeafToCheckpointIdK1,
        table.spec_stable_id() == 5 <==> table is CheckpointLeafToCheckpointIdK2,
        table.spec_stable_id() == 6 <==> table is L2BlockState,
        table.spec_stable_id() == 7 <==> table is CheckpointIdToRealmRoot,
        table.spec_stable_id() == 8 <==> table is LatestInfo,
        table.spec_stable_id() == 9 <==> table is CheckpointedObject,
        table.spec_stable_id() == 10 <==> table is CheckpointStateRoots,
        table.spec_stable_id() == 11 <==> table is UserLeaf,
        table.spec_stable_id() == 12 <==> table is UserPublicKey,
        table.spec_stable_id() == 13 <==> table is U64Singleton,
        table.spec_stable_id() == 14 <==> table is U64CounterSingleton,
        table.spec_stable_id() == 15 <==> table is ContractStateTreeHeight,
        table.spec_stable_id() == 16 <==> table is CheckpointIdToPendingId,
        table.spec_stable_id() == 17 <==> table is PendingIdToCheckpointId,
        table.spec_stable_id() == 18 <==> table is PendingIdToPendingProcIdU64ToU128,
        table.spec_stable_id() == 19 <==> table is PendingIdToPendingProcIdU128ToU64,
        table.spec_stable_id() == 20 <==> table is RealmRewardsTreeNodeKey,
        table.spec_stable_id() == 21 <==> table is PublicKeyHashToUserIds,
        table.spec_stable_id() == 22 <==> table is GlobalUserTree,
        table.spec_stable_id() == 23 <==> table is UserContractTree,
        table.spec_stable_id() == 24 <==> table is ContractStateTree,
        table.spec_stable_id() == 25 <==> table is GlobalCheckpointTree,
        table.spec_stable_id() == 26 <==> table is GutaRewardTagTree,
        table.spec_stable_id() == 27 <==> table is UserRegistrationTree,
        table.spec_stable_id() == 28 <==> table is GlobalContractTree,
        table.spec_stable_id() == 29 <==> table is ContractFunctionTree,
        table.spec_stable_id() == 30 <==> table is ContractLeaf,
        table.spec_stable_id() == 31 <==> table is ContractCodeDefinition,
        table.spec_stable_id() == 32 <==> table is CheckpointZkProofAndTransition,
        table.spec_stable_id() == 33 <==> table is ImtLeaf,
        table.spec_stable_id() == 34 <==> table is ImtKeyIndex,
        table.spec_stable_id() == 35 <==> table is ImtNextAppendIndex,
{
}

/// The number that stands for a key domain in every persisted encoding tells the domain.
pub proof fn law_domain_numbers(domain: ScyllaKeyDomain)
    ensures
        domain.spec_stable_id() == 1 <==> domain is CheckpointLeaf,
        domain.spec_stable_id() == 2 <==> domain is CheckpointRootByHash,
        domain.spec_stable_id() == 3 <==> domain is CheckpointRootByCheckpoint,
        domain.spec_stable_id() == 4 <==> domain is CheckpointLeafByHash,
        domain.spec_stable_id() == 5 <==> domain is CheckpointLeafByCheckpoint,
        domain.spec_stable_id() == 6 <==> domain is L2BlockState,
        domain.spec_stable_id() == 7 <==> domain is UnusedCheckpointRealmRoot,
        domain.spec_stable_id() == 8 <==> domain is LatestInfo,
        domain.spec_stable_id() == 9 <==> domain is CheckpointedGlobalUserProof,
        domain.spec_stable_id() == 10 <==> domain is CheckpointedRewardsProofAtCheckpoint,
        domain.spec_stable_id() == 11 <==> domain is CheckpointedRewardsProofAtPending,
        domain.spec_stable_id() == 12 <==> domain is CheckpointedContractStateProof,
        domain.spec_stable_id() == 13 <==> domain is CheckpointStateRoots,
        domain.spec_stable_id() == 14 <==> domain is UserLeaf,
        domain.spec_stable_id() == 15 <==> domain is UserPublicKey,
        domain.spec_stable_id() == 16 <==> domain is U64Singleton,
        domain.spec_stable_id() == 17 <==> domain is U64Counter,
        domain.spec_stable_id() == 18 <==> domain is ContractStateTreeHeight,
        domain.spec_stable_id() == 19 <==> domain is CheckpointToPending,
        domain.spec_stable_id() == 20 <==> domain is PendingToCheckpoint,
        domain.spec_stable_id() == 21 <==> domain is PendingToProc,
        domain.spec_stable_id() == 22 <==> domain is ProcToPending,
        domain.spec_stable_id() == 23 <==> domain is RealmRewardNode,
        domain.spec_stable_id() == 24 <==> domain is PublicKeyToUser,
        domain.spec_stable_id() == 25 <==> domain is GlobalUserMerkle,
        domain.spec_stable_id() == 26 <==> domain is UserContractMerkle,
        domain.spec_stable_id() == 27 <==> domain is ContractStateMerkle,
        domain.spec_stable_id() == 28 <==> domain is GlobalCheckpointMerkle,
        domain.spec_stable_id() == 29 <==> domain is RewardTagMerkle,
        domain.spec_stable_id() == 30 <==> domain is UserRegistrationMerkle,
        domain.spec_stable_id() == 31 <==> domain is GlobalContractMerkle,
        domain.spec_stable_id() == 32 <==> domain is ContractFunctionMerkle,
        domain.spec_stable_id() == 33 <==> domain is ContractLeaf,
        domain.spec_stable_id() == 34 <==> domain is ContractCodeDefinition,
        domain.spec_stable_id() == 35 <==> domain is CheckpointZkProof,
        domain.spec_stable_id() == 36 <==> domain is ImtLeaf,
        domain.spec_stable_id() == 37 <==> domain is ImtKeyIndex,
        domain.spec_stable_id() == 38 <==> domain is ImtCursor,
        domain.spec_stable_id() == 39 <==> domain is RealmAuthorityObservation,
{
}

} // verus!
