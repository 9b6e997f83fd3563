//! The participants of a rollback: the persisted plan that names them, and the
//! topology that the plan has to be valid in.

use vstd::prelude::*;

use crate::bytes::{array_equal, bytes_equal};
use crate::model::CanonicalChainRef;

verus! {

/// A participant plan: its digest, its target, the number of its realms and its
/// canonical bytes.
#[verifier::ext_equal]
#[derive(Clone, Debug, PartialEq, Eq)]
pub struct RollbackParticipantPlan<B> {
    pub digest: [u8; 32],
    pub target: CanonicalChainRef,
    pub realms: u64,
    pub canonical: B,
}

pub type ParticipantPlan = RollbackParticipantPlan<Vec<u8>>;

pub type ParticipantPlanModel = RollbackParticipantPlan<Seq<u8>>;

impl View for RollbackParticipantPlan<Vec<u8>> {
    type V = RollbackParticipantPlan<Seq<u8>>;

    open spec fn view(&self) -> RollbackParticipantPlan<Seq<u8>> {
        RollbackParticipantPlan {
            digest: self.digest,
            target: self.target,
            realms: self.realms,
            canonical: self.canonical@,
        }
    }
}

impl RollbackParticipantPlan<Vec<u8>> {
    pub fn same(&self, other: &Self) -> (same: bool)
        ensures
            same == (self@ == other@),
    {
        array_equal::<32>(&self.digest, &other.digest) && self.target.same(&other.target)
            && self.realms == other.realms && bytes_equal(&self.canonical, &other.canonical)
    }
}

/// A topology: its canonical bytes, and whether it validates the plan that is being
/// carried out.
#[verifier::ext_equal]
#[derive(Clone, Debug, PartialEq, Eq)]
pub struct RollbackTopology<B> {
    pub snapshot: B,
    pub validates_plan: bool,
}

pub type Topology = RollbackTopology<Vec<u8>>;

pub type TopologyModel = RollbackTopology<Seq<u8>>;

impl View for RollbackTopology<Vec<u8>> {
    type V = RollbackTopology<Seq<u8>>;

    open spec fn view(&self) -> RollbackTopology<Seq<u8>> {
        RollbackTopology { snapshot: self.snapshot@, validates_plan: self.validates_plan }
    }
}

pub open spec fn topology_view(topology: Option<Topology>) -> Option<TopologyModel> {
    match topology {
        None => None,
        Some(topology) => Some(topology@),
    }
}

/// Two participant plans have the same view exactly if digest, target, number of realms
/// and bytes are the same, and two topologies if their snapshots are and both bear the
/// plan out or neither does.
pub proof fn law_participant_views_keep_everything(
    a: ParticipantPlan,
    b: ParticipantPlan,
    c: Topology,
    d: Topology,
)
    ensures
        a@ == b@ <==> a.digest == b.digest && a.target == b.target && a.realms == b.realms
            && a.canonical@ == b.canonical@,
        c@ == d@ <==> c.snapshot@ == d.snapshot@ && c.validates_plan == d.validates_plan,
        topology_view(Some(c)) == Some(c@),
        topology_view(None) is None,
{
}

} // verus!
