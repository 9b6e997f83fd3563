//! The checkpoint chain that a branch catalog walks, and the mapping rows that it
//! holds each checkpoint to.

use vstd::prelude::*;

use crate::bytes::{array_equal, bytes_equal};
use crate::coordinator_rollback_branch_catalog::CoordinatorRollbackBranchCatalogError;
use crate::model::{
    BranchPendingMapping, CanonicalChainRef, CheckpointRef, NetworkId, UniquePendingId,
};

verus! {

/// The circuit constants that every transition of the chain carries.
#[derive(Clone, Copy, Debug, PartialEq, Eq)]
pub struct BranchExactCheckpointChainConfig {
    pub genesis_fingerprint: [u8; 32],
    pub genesis_transition_hash: [u8; 32],
    pub circuit_fingerprint: [u8; 32],
}

/// A stored value and when it was written.
#[verifier::ext_equal]
#[derive(Clone, Debug, PartialEq, Eq)]
pub struct PointValue<B> {
    pub value: B,
    pub writetime_us: i64,
}

impl View for PointValue<Vec<u8>> {
    type V = PointValue<Seq<u8>>;

    open spec fn view(&self) -> PointValue<Seq<u8>> {
        PointValue { value: self.value@, writetime_us: self.writetime_us }
    }
}

/// The legacy mapping of a checkpoint, read in both directions.
#[derive(Clone, Copy, Debug, PartialEq, Eq, Structural)]
pub struct LegacyMappingPair {
    pub pending_id: UniquePendingId,
    pub forward_writetime_us: i64,
    pub reverse_writetime_us: i64,
}

/// A branch-exact row from chain reference to pending identity.
#[derive(Clone, Copy, Debug, PartialEq, Eq)]
pub struct TargetForwardRow {
    pub pending_id: UniquePendingId,
    pub mapping_digest: [u8; 32],
    pub pending_writetime_us: i64,
    pub digest_writetime_us: i64,
}

/// A branch-exact row from pending identity to chain reference.
#[verifier::ext_equal]
#[derive(Clone, Debug, PartialEq, Eq)]
pub struct TargetReverseRow<B> {
    pub canonical_ref: B,
    pub mapping_digest: [u8; 32],
    pub canonical_writetime_us: i64,
    pub digest_writetime_us: i64,
}

impl View for TargetReverseRow<Vec<u8>> {
    type V = TargetReverseRow<Seq<u8>>;

    open spec fn view(&self) -> TargetReverseRow<Seq<u8>> {
        TargetReverseRow {
            canonical_ref: self.canonical_ref@,
            mapping_digest: self.mapping_digest,
            canonical_writetime_us: self.canonical_writetime_us,
            digest_writetime_us: self.digest_writetime_us,
        }
    }
}

pub open spec fn reverse_models(rows: Seq<TargetReverseRow<Vec<u8>>>) -> Seq<
    TargetReverseRow<Seq<u8>>,
> {
    Seq::new(rows.len(), |i: int| rows[i]@)
}

/// What the protocol codec reads from a checkpoint transition: the constants and
/// the roots and leaves that it names, the hash of the leaf that it carries, whether
/// its proof is empty, and the bytes that it writes again.
#[verifier::ext_equal]
#[derive(Clone, Debug, PartialEq, Eq)]
pub struct DecodedTransition<B> {
    pub genesis_transition_hash: [u8; 32],
    pub circuit_fingerprint: [u8; 32],
    pub carried_leaf_hash: [u8; 32],
    pub old_root: [u8; 32],
    pub new_root: [u8; 32],
    pub old_leaf_hash: [u8; 32],
    pub new_leaf_hash: [u8; 32],
    pub proof_is_empty: bool,
    pub rebuilt: B,
}

/// What the protocol's hashing and proof reading make of one transition.
///
/// `genesis_hash` is the chain hash that its new root and leaf have as genesis,
/// `proof_hash` the chain hash that its proof states, `chained_hash` the chain hash
/// that continues from the preceding checkpoint's, and `canonical` the canonical
/// bytes of the chain reference that it leads to.
#[verifier::ext_equal]
#[derive(Debug, PartialEq, Eq)]
pub struct TransitionEvidence<B> {
    pub decoded: Result<DecodedTransition<B>, String>,
    pub genesis_hash: [u8; 32],
    pub proof_hash: Result<[u8; 32], String>,
    pub chained_hash: [u8; 32],
    pub canonical: [u8; 65],
}

impl View for TransitionEvidence<Vec<u8>> {
    type V = TransitionEvidence<Seq<u8>>;

    open spec fn view(&self) -> TransitionEvidence<Seq<u8>> {
        TransitionEvidence {
            decoded: match self.decoded {
                Err(refused) => Err(refused),
                Ok(decoded) => Ok(
                    DecodedTransition {
                        genesis_transition_hash: decoded.genesis_transition_hash,
                        circuit_fingerprint: decoded.circuit_fingerprint,
                        carried_leaf_hash: decoded.carried_leaf_hash,
                        old_root: decoded.old_root,
                        new_root: decoded.new_root,
                        old_leaf_hash: decoded.old_leaf_hash,
                        new_leaf_hash: decoded.new_leaf_hash,
                        proof_is_empty: decoded.proof_is_empty,
                        rebuilt: decoded.rebuilt@,
                    },
                ),
            },
            genesis_hash: self.genesis_hash,
            proof_hash: self.proof_hash,
            chained_hash: self.chained_hash,
            canonical: self.canonical,
        }
    }
}

/// How far the chain has been followed: the chain hash of the last checkpoint, and
/// the tree root and leaf that it left.
#[derive(Clone, Copy, Debug, PartialEq, Eq)]
pub struct ChainPosition {
    pub config: BranchExactCheckpointChainConfig,
    pub network: NetworkId,
    pub source_epoch: u64,
    pub previous_hash: Option<[u8; 32]>,
    pub previous_root_leaf: Option<([u8; 32], [u8; 32])>,
}

/// Where a verified transition leads.
#[derive(Clone, Copy, Debug, PartialEq, Eq)]
pub struct VerifiedTransition {
    pub canonical: CanonicalChainRef,
    pub checkpoint_hash: [u8; 32],
    pub root_leaf: ([u8; 32], [u8; 32]),
}

/// The chain hash of a decoded transition, or why it has none. The anchor is not
/// held to a predecessor.
pub open spec fn transition_hash(
    position: ChainPosition,
    checkpoint_id: u64,
    state: DecodedTransition<Seq<u8>>,
    evidence: TransitionEvidence<Seq<u8>>,
    anchor: bool,
) -> Result<[u8; 32], CoordinatorRollbackBranchCatalogError> {
    if checkpoint_id == 0 {
        if !state.proof_is_empty || state.old_root != state.new_root || state.old_leaf_hash
            != state.new_leaf_hash {
            Err(CoordinatorRollbackBranchCatalogError::InvalidGenesis)
        } else {
            Ok(evidence.genesis_hash)
        }
    } else if state.proof_is_empty {
        Err(CoordinatorRollbackBranchCatalogError::MissingProof(checkpoint_id))
    } else {
        match evidence.proof_hash {
            Err(reason) => Err(
                CoordinatorRollbackBranchCatalogError::MalformedProof { checkpoint_id, reason },
            ),
            Ok(extracted) => if !anchor && position.previous_hash is None {
                Err(CoordinatorRollbackBranchCatalogError::AnchorMissing)
            } else if !anchor && extracted != evidence.chained_hash {
                Err(CoordinatorRollbackBranchCatalogError::ChainMismatch(checkpoint_id))
            } else {
                Ok(extracted)
            },
        }
    }
}

/// Where the transition `value` of `checkpoint_id` leads from `position`, or why it
/// is not the chain's.
pub open spec fn decoded_transition(
    position: ChainPosition,
    checkpoint_id: u64,
    value: Seq<u8>,
    evidence: TransitionEvidence<Seq<u8>>,
    anchor: bool,
) -> Result<VerifiedTransition, CoordinatorRollbackBranchCatalogError> {
    match evidence.decoded {
        Err(reason) => Err(
            CoordinatorRollbackBranchCatalogError::MalformedTransition { checkpoint_id, reason },
        ),
        Ok(state) => if state.rebuilt != value {
            Err(CoordinatorRollbackBranchCatalogError::NonCanonicalTransition(checkpoint_id))
        } else if state.genesis_transition_hash != position.config.genesis_transition_hash {
            Err(CoordinatorRollbackBranchCatalogError::GenesisHashMismatch(checkpoint_id))
        } else if state.circuit_fingerprint != position.config.circuit_fingerprint {
            Err(CoordinatorRollbackBranchCatalogError::CircuitFingerprintMismatch(checkpoint_id))
        } else if state.carried_leaf_hash != state.new_leaf_hash {
            Err(CoordinatorRollbackBranchCatalogError::LeafHashMismatch(checkpoint_id))
        } else if !anchor && position.previous_root_leaf != Some(
            (state.old_root, state.old_leaf_hash),
        ) {
            Err(CoordinatorRollbackBranchCatalogError::PredecessorMismatch(checkpoint_id))
        } else {
            match transition_hash(position, checkpoint_id, state, evidence, anchor) {
                Err(error) => Err(error),
                Ok(checkpoint_hash) => Ok(
                    VerifiedTransition {
                        canonical: CanonicalChainRef {
                            network: position.network,
                            chain_epoch: position.source_epoch,
                            checkpoint: CheckpointRef {
                                height: checkpoint_id,
                                hash: checkpoint_hash,
                            },
                            canonical: evidence.canonical,
                        },
                        checkpoint_hash,
                        root_leaf: (state.new_root, state.new_leaf_hash),
                    },
                ),
            }
        },
    }
}

fn chain_hash(
    position: &ChainPosition,
    checkpoint_id: u64,
    state: &DecodedTransition<Vec<u8>>,
    evidence: &TransitionEvidence<Vec<u8>>,
    anchor: bool,
) -> (result: Result<[u8; 32], CoordinatorRollbackBranchCatalogError>)
    requires
        evidence.decoded == Ok::<DecodedTransition<Vec<u8>>, String>(*state),
    ensures
        result == transition_hash(
            *position,
            checkpoint_id,
            evidence@.decoded->Ok_0,
            evidence@,
            anchor,
        ),
{
    if checkpoint_id == 0 {
        if !state.proof_is_empty || !array_equal::<32>(&state.old_root, &state.new_root)
            || !array_equal::<32>(&state.old_leaf_hash, &state.new_leaf_hash) {
            return Err(CoordinatorRollbackBranchCatalogError::InvalidGenesis);
        }
        return Ok(evidence.genesis_hash);
    }
    if state.proof_is_empty {
        return Err(CoordinatorRollbackBranchCatalogError::MissingProof(checkpoint_id));
    }
    match &evidence.proof_hash {
        Err(reason) => Err(
            CoordinatorRollbackBranchCatalogError::MalformedProof {
                checkpoint_id,
                reason: reason.clone(),
            },
        ),
        Ok(extracted) => {
            if !anchor {
                if position.previous_hash.is_none() {
                    return Err(CoordinatorRollbackBranchCatalogError::AnchorMissing);
                }
                if !array_equal::<32>(extracted, &evidence.chained_hash) {
                    return Err(CoordinatorRollbackBranchCatalogError::ChainMismatch(checkpoint_id));
                }
            }
            Ok(*extracted)
        },
    }
}

/// Follows the chain over one transition.
pub fn decode_transition(
    position: &ChainPosition,
    checkpoint_id: u64,
    value: &[u8],
    evidence: &TransitionEvidence<Vec<u8>>,
    anchor: bool,
) -> (result: Result<VerifiedTransition, CoordinatorRollbackBranchCatalogError>)
    ensures
        result == decoded_transition(*position, checkpoint_id, value@, evidence@, anchor),
{
    let state = match &evidence.decoded {
        Err(reason) => {
            return Err(
                CoordinatorRollbackBranchCatalogError::MalformedTransition {
                    checkpoint_id,
                    reason: reason.clone(),
                },
            );
        },
        Ok(state) => state,
    };
    if !bytes_equal(&state.rebuilt, value) {
        return Err(CoordinatorRollbackBranchCatalogError::NonCanonicalTransition(checkpoint_id));
    }
    if !array_equal::<32>(
        &state.genesis_transition_hash,
        &position.config.genesis_transition_hash,
    ) {
        return Err(CoordinatorRollbackBranchCatalogError::GenesisHashMismatch(checkpoint_id));
    }
    if !array_equal::<32>(&state.circuit_fingerprint, &position.config.circuit_fingerprint) {
        return Err(CoordinatorRollbackBranchCatalogError::CircuitFingerprintMismatch(checkpoint_id));
    }
    if !array_equal::<32>(&state.carried_leaf_hash, &state.new_leaf_hash) {
        return Err(CoordinatorRollbackBranchCatalogError::LeafHashMismatch(checkpoint_id));
    }
    if !anchor {
        let continues: bool = match &position.previous_root_leaf {
            None => false,
            Some(previous) => array_equal::<32>(&previous.0, &state.old_root) && array_equal::<32>(
                &previous.1,
                &state.old_leaf_hash,
            ),
        };
        if !continues {
            return Err(CoordinatorRollbackBranchCatalogError::PredecessorMismatch(checkpoint_id));
        }
    }
    match chain_hash(position, checkpoint_id, state, evidence, anchor) {
        Err(error) => Err(error),
        Ok(checkpoint_hash) => Ok(
            VerifiedTransition {
                canonical: CanonicalChainRef {
                    network: position.network,
                    chain_epoch: position.source_epoch,
                    checkpoint: CheckpointRef { height: checkpoint_id, hash: checkpoint_hash },
                    canonical: evidence.canonical,
                },
                checkpoint_hash,
                root_leaf: (state.new_root, state.new_leaf_hash),
            },
        ),
    }
}

/// The error of a write that is later than the fence allows.
pub open spec fn write_after_fence(writetime_us: i64, orphan_write_max_us: i64) -> Option<
    CoordinatorRollbackBranchCatalogError,
> {
    if writetime_us > orphan_write_max_us {
        Some(
            CoordinatorRollbackBranchCatalogError::WriteAfterFence {
                writetime_us,
                orphan_write_max_us,
            },
        )
    } else {
        None
    }
}

pub fn require_before_fence(writetime_us: i64, orphan_write_max_us: i64) -> (result: Result<
    (),
    CoordinatorRollbackBranchCatalogError,
>)
    ensures
        match write_after_fence(writetime_us, orphan_write_max_us) {
            Some(error) => result == Err::<(), _>(error),
            None => result is Ok,
        },
{
    if writetime_us <= orphan_write_max_us {
        Ok(())
    } else {
        Err(
            CoordinatorRollbackBranchCatalogError::WriteAfterFence {
                writetime_us,
                orphan_write_max_us,
            },
        )
    }
}

/// Whether the branch-exact rows hold exactly the expected mapping, written before
/// the fence, in both directions; or the first thing that is wrong.
pub open spec fn checked_target_mapping(
    expected: BranchPendingMapping,
    forward: Seq<TargetForwardRow>,
    reverse: Seq<TargetReverseRow<Seq<u8>>>,
    orphan_write_max_us: i64,
) -> Result<(), CoordinatorRollbackBranchCatalogError> {
    if forward.len() == 0 {
        Err(CoordinatorRollbackBranchCatalogError::MissingTargetForward)
    } else if forward.len() != 1 || forward[0].pending_id != expected.pending
        || forward[0].mapping_digest != expected.digest {
        Err(CoordinatorRollbackBranchCatalogError::TargetForwardConflict)
    } else if write_after_fence(forward[0].pending_writetime_us, orphan_write_max_us) is Some {
        Err(write_after_fence(forward[0].pending_writetime_us, orphan_write_max_us)->0)
    } else if write_after_fence(forward[0].digest_writetime_us, orphan_write_max_us) is Some {
        Err(write_after_fence(forward[0].digest_writetime_us, orphan_write_max_us)->0)
    } else if reverse.len() == 0 {
        Err(CoordinatorRollbackBranchCatalogError::MissingTargetReverse)
    } else if reverse.len() != 1 || reverse[0].canonical_ref != expected.canonical.canonical@
        || reverse[0].mapping_digest != expected.digest {
        Err(CoordinatorRollbackBranchCatalogError::TargetReverseConflict)
    } else if write_after_fence(reverse[0].canonical_writetime_us, orphan_write_max_us) is Some {
        Err(write_after_fence(reverse[0].canonical_writetime_us, orphan_write_max_us)->0)
    } else if write_after_fence(reverse[0].digest_writetime_us, orphan_write_max_us) is Some {
        Err(write_after_fence(reverse[0].digest_writetime_us, orphan_write_max_us)->0)
    } else {
        Ok(())
    }
}

pub fn verify_target_mapping(
    expected: &BranchPendingMapping,
    forward: &[TargetForwardRow],
    reverse: &[TargetReverseRow<Vec<u8>>],
    orphan_write_max_us: i64,
) -> (result: Result<(), CoordinatorRollbackBranchCatalogError>)
    ensures
        result == checked_target_mapping(
            *expected,
            forward@,
            reverse_models(reverse@),
            orphan_write_max_us,
        ),
{
    if forward.len() == 0 {
        return Err(CoordinatorRollbackBranchCatalogError::MissingTargetForward);
    }
    if forward.len() != 1 || forward[0].pending_id != expected.pending || !array_equal::<32>(
        &forward[0].mapping_digest,
        &expected.digest,
    ) {
        return Err(CoordinatorRollbackBranchCatalogError::TargetForwardConflict);
    }
    require_before_fence(forward[0].pending_writetime_us, orphan_write_max_us)?;
    require_before_fence(forward[0].digest_writetime_us, orphan_write_max_us)?;
    if reverse.len() == 0 {
        return Err(CoordinatorRollbackBranchCatalogError::MissingTargetReverse);
    }
    assert(reverse_models(reverse@)[0] == reverse@[0]@);
    if reverse.len() != 1 || !bytes_equal(
        &reverse[0].canonical_ref,
        &expected.canonical.canonical,
    ) || !array_equal::<32>(&reverse[0].mapping_digest, &expected.digest) {
        return Err(CoordinatorRollbackBranchCatalogError::TargetReverseConflict);
    }
    require_before_fence(reverse[0].canonical_writetime_us, orphan_write_max_us)?;
    require_before_fence(reverse[0].digest_writetime_us, orphan_write_max_us)?;
    Ok(())
}

/// A transition is the chain's exactly if it was decoded from exactly its bytes, carries
/// the chain's genesis and circuit and its own new leaf, and, unless it is the anchor,
/// starts at the root and leaf where the chain stands. At genesis it has no proof and
/// changes nothing; behind it, it has a proof, whose hash, unless it is the anchor, is the
/// one that follows from the chain's.
pub proof fn law_transition_is_the_chains(
    position: ChainPosition,
    checkpoint_id: u64,
    value: Seq<u8>,
    evidence: TransitionEvidence<Seq<u8>>,
    anchor: bool,
)
    ensures
        decoded_transition(position, checkpoint_id, value, evidence, anchor) is Ok <==> (
        evidence.decoded matches Ok(state) && {
            &&& state.rebuilt == value
            &&& state.genesis_transition_hash == position.config.genesis_transition_hash
            &&& state.circuit_fingerprint == position.config.circuit_fingerprint
            &&& state.carried_leaf_hash == state.new_leaf_hash
            &&& !anchor ==> position.previous_root_leaf == Some(
                (state.old_root, state.old_leaf_hash),
            )
            &&& checkpoint_id == 0 ==> state.proof_is_empty && state.old_root == state.new_root
                && state.old_leaf_hash == state.new_leaf_hash
            &&& checkpoint_id > 0 ==> !state.proof_is_empty && evidence.proof_hash is Ok
            &&& checkpoint_id > 0 && !anchor ==> position.previous_hash is Some
                && evidence.proof_hash->Ok_0 == evidence.chained_hash
        }),
{
}

/// A verified transition leads to its own checkpoint on the chain's network and source
/// epoch, under the genesis hash at genesis and the hash of its proof behind it, and to
/// its new root and leaf.
pub proof fn law_transition_leads_to_its_checkpoint(
    position: ChainPosition,
    checkpoint_id: u64,
    value: Seq<u8>,
    evidence: TransitionEvidence<Seq<u8>>,
    anchor: bool,
)
    ensures
        decoded_transition(position, checkpoint_id, value, evidence, anchor) matches Ok(verified)
            ==> {
            &&& verified.canonical.network == position.network
            &&& verified.canonical.chain_epoch == position.source_epoch
            &&& verified.canonical.checkpoint.height == checkpoint_id
            &&& verified.canonical.checkpoint.hash == verified.checkpoint_hash
            &&& verified.canonical.canonical == evidence.canonical
            &&& verified.checkpoint_hash == (if checkpoint_id == 0 {
                evidence.genesis_hash
            } else {
                evidence.proof_hash->Ok_0
            })
            &&& verified.root_leaf == (
                evidence.decoded->Ok_0.new_root,
                evidence.decoded->Ok_0.new_leaf_hash,
            )
        },
{
}

/// A branch-exact mapping is taken exactly if each direction has one row, the forward row
/// has the expected pending identity, the reverse row the expected chain reference, both
/// the expected digest, and none of their columns was written after the fence.
pub proof fn law_target_mapping_is_exact(
    expected: BranchPendingMapping,
    forward: Seq<TargetForwardRow>,
    reverse: Seq<TargetReverseRow<Seq<u8>>>,
    fence: i64,
)
    ensures
        ({
            let checked = checked_target_mapping(expected, forward, reverse, fence);
            &&& checked is Ok <==> {
                &&& forward.len() == 1
                &&& forward[0].pending_id == expected.pending
                &&& forward[0].mapping_digest == expected.digest
                &&& forward[0].pending_writetime_us <= fence
                &&& forward[0].digest_writetime_us <= fence
                &&& reverse.len() == 1
                &&& reverse[0].canonical_ref == expected.canonical.canonical@
                &&& reverse[0].mapping_digest == expected.digest
                &&& reverse[0].canonical_writetime_us <= fence
                &&& reverse[0].digest_writetime_us <= fence
            }
            &&& checked matches Err(error) ==> {
                &&& error is MissingTargetForward <==> forward.len() == 0
                &&& error is MissingTargetReverse ==> reverse.len() == 0
                &&& error is WriteAfterFence ==> error->WriteAfterFence_writetime_us > fence
                    && error->WriteAfterFence_orphan_write_max_us == fence
            }
        }),
{
}

} // verus!
