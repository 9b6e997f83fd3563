//! Coordinator rollback maintenance up to, but not through, the global archive
//! barrier.
//!
//! Maintenance may advance a requested rollback to archiving and make the immutable
//! archive evidence restartable. No step of it deletes, restores, crosses the
//! barrier or publishes a head.

use vstd::prelude::*;

use crate::bytes::bytes_equal;
use crate::model::{
    CanonicalChainRef, RollbackControlState, StoredHead, StoredHeadModel,
};
use crate::rollback_participant;
use crate::rollback_participant::{ParticipantPlan, ParticipantPlanModel, Topology, TopologyModel};

verus! {

#[derive(Clone, Debug, PartialEq, Eq)]
pub enum MaintenanceError {
    HeadUninitialized,
    TopologyMissing,
    TopologyRefusesPlan,
    RequestedHeadMismatch,
    HeadChangedWhileEntering,
    ArchivingHeadMismatch,
    TopologyDisappeared,
    PlanOrTopologyChanged,
    HeadChangedAfterEntering,
    ReadinessChanged,
    Backend(String),
    /// The outcome belongs to another step than the one that was asked for.
    OutOfOrder,
}

impl MaintenanceError {
    /// The error in words.
    pub open spec fn spec_message(self) -> Seq<char> {
        match self {
            MaintenanceError::HeadUninitialized => "Coordinator canonical head is uninitialized"@,
            MaintenanceError::TopologyMissing => "Coordinator rollback topology is missing"@,
            MaintenanceError::TopologyRefusesPlan => {
                "durable rollback topology no longer validates the selected participant plan"@
            },
            MaintenanceError::RequestedHeadMismatch => {
                "REQUESTED head does not match the selected participant plan"@
            },
            MaintenanceError::HeadChangedWhileEntering => {
                "canonical head changed while entering rollback ARCHIVING"@
            },
            MaintenanceError::ArchivingHeadMismatch => {
                "ARCHIVING head does not match the selected participant plan"@
            },
            MaintenanceError::TopologyDisappeared => "Coordinator rollback topology disappeared"@,
            MaintenanceError::PlanOrTopologyChanged => {
                "rollback participant plan or topology changed during archive preparation"@
            },
            MaintenanceError::HeadChangedAfterEntering => {
                "canonical head changed after entering ARCHIVING"@
            },
            MaintenanceError::ReadinessChanged => {
                "Coordinator archive readiness changed before maintenance return"@
            },
            MaintenanceError::Backend(reason) => reason@,
            MaintenanceError::OutOfOrder => "maintenance step out of order"@,
        }
    }

    pub fn message(&self) -> (message: String)
        ensures
            message@ == self.spec_message(),
    {
        match self {
            MaintenanceError::HeadUninitialized => {
                "Coordinator canonical head is uninitialized".to_owned()
            },
            MaintenanceError::TopologyMissing => {
                "Coordinator rollback topology is missing".to_owned()
            },
            MaintenanceError::TopologyRefusesPlan => {
                "durable rollback topology no longer validates the selected participant plan".to_owned()
            },
            MaintenanceError::RequestedHeadMismatch => {
                "REQUESTED head does not match the selected participant plan".to_owned()
            },
            MaintenanceError::HeadChangedWhileEntering => {
                "canonical head changed while entering rollback ARCHIVING".to_owned()
            },
            MaintenanceError::ArchivingHeadMismatch => {
                "ARCHIVING head does not match the selected participant plan".to_owned()
            },
            MaintenanceError::TopologyDisappeared => {
                "Coordinator rollback topology disappeared".to_owned()
            },
            MaintenanceError::PlanOrTopologyChanged => {
                "rollback participant plan or topology changed during archive preparation".to_owned()
            },
            MaintenanceError::HeadChangedAfterEntering => {
                "canonical head changed after entering ARCHIVING".to_owned()
            },
            MaintenanceError::ReadinessChanged => {
                "Coordinator archive readiness changed before maintenance return".to_owned()
            },
            MaintenanceError::Backend(reason) => reason.clone(),
            MaintenanceError::OutOfOrder => "maintenance step out of order".to_owned(),
        }
    }
}

/// What a head asks of maintenance.
#[derive(Clone, Copy, Debug, PartialEq, Eq, Structural)]
pub enum MaintenanceStart {
    /// No rollback is going on.
    Normal,
    /// The rollback has passed this module's part.
    AwaitingDownstream,
    Prepare,
}

/// What a head asks of maintenance. Everything from the archive barrier on is
/// somebody else's.
pub open spec fn start_of(control: RollbackControlState) -> MaintenanceStart {
    match control {
        RollbackControlState::Idle => MaintenanceStart::Normal,
        RollbackControlState::Requested(_) | RollbackControlState::Archiving(_) => {
            MaintenanceStart::Prepare
        },
        _ => MaintenanceStart::AwaitingDownstream,
    }
}

pub fn start_maintenance(head: &Option<StoredHead>) -> (result: Result<
    MaintenanceStart,
    MaintenanceError,
>)
    ensures
        maintenance_started(*head, result),
{
    match head {
        None => Err(MaintenanceError::HeadUninitialized),
        Some(head) => Ok(
            match head.control {
                RollbackControlState::Idle => MaintenanceStart::Normal,
                RollbackControlState::Requested(_) | RollbackControlState::Archiving(_) => {
                    MaintenanceStart::Prepare
                },
                _ => MaintenanceStart::AwaitingDownstream,
            },
        ),
    }
}

/// What an archive that is ready to be deleted against reports of itself.
#[derive(Clone, Copy, Debug, PartialEq, Eq)]
pub struct ArchiveReadiness {
    /// Whether it is ready for exactly the archiving head and the plan's target.
    pub exact: bool,
    pub digest: [u8; 32],
    pub entry_count: u64,
    pub dataset_digest: [u8; 32],
}

/// The prepared archive.
#[derive(Clone, Copy, Debug, PartialEq, Eq)]
pub struct CoordinatorRollbackArchivePreparation {
    pub target: CanonicalChainRef,
    pub plan_digest: [u8; 32],
    pub readiness_digest: [u8; 32],
    pub execution_digest: [u8; 32],
    pub entry_count: u64,
    pub dataset_digest: [u8; 32],
}

/// What the preparation waits for.
#[derive(Clone, Copy, Debug, PartialEq, Eq)]
pub enum PreparationStage {
    EnterArchiving,
    RevalidateEntered,
    ReadHeadEntered,
    RecoverReadiness,
    ArchiveCurrentRequest,
    PersistParticipantCompletion,
    PersistTargetRestorePayload,
    RecoverReadinessAgain,
    PlanExecution { readiness: ArchiveReadiness },
    RevalidateBeforeReturn { readiness: ArchiveReadiness, execution_digest: [u8; 32] },
    ReadHeadBeforeReturn { readiness: ArchiveReadiness, execution_digest: [u8; 32] },
    Prepared { preparation: CoordinatorRollbackArchivePreparation },
}

/// What came of a step.
#[derive(Debug, PartialEq, Eq)]
pub enum PreparationEvent {
    Failed(String),
    Done,
    /// The head behind the compare-and-set, and whether the set was applied or had
    /// been applied before.
    HeadSet { current: StoredHead, settled: bool },
    Reread { plan: ParticipantPlan, topology: Option<Topology> },
    Head(Option<StoredHead>),
    Ready {
        archiving_head: StoredHead,
        target: CanonicalChainRef,
        digest: [u8; 32],
        entry_count: u64,
        dataset_digest: [u8; 32],
    },
    CompletionMissing,
    TargetRestoreMissing,
    Execution { digest: [u8; 32] },
}

/// An archive that is being prepared, with all that it has to find unchanged.
#[derive(Debug, PartialEq, Eq)]
pub struct ArchivePreparation {
    pub archiving_head: StoredHead,
    pub plan: ParticipantPlan,
    pub topology: Topology,
    pub stage: PreparationStage,
}

/// What a preparation has to find unchanged.
#[verifier::ext_equal]
pub struct PreparationBinding {
    pub archiving_head: StoredHeadModel,
    pub plan: ParticipantPlanModel,
    pub topology: TopologyModel,
}

/// The archiving head that the plan's own rollback leads to is the only one that a
/// preparation accepts. `expected` is that head, `candidate` the head that entering
/// the archive from the requested head leads to.
pub open spec fn selected_stage(
    initial: StoredHeadModel,
    topology: Option<TopologyModel>,
    expected: Result<StoredHeadModel, String>,
    candidate: Result<StoredHeadModel, String>,
) -> Result<PreparationStage, MaintenanceError> {
    if topology is None {
        Err(MaintenanceError::TopologyMissing)
    } else if !topology->0.validates_plan {
        Err(MaintenanceError::TopologyRefusesPlan)
    } else if expected is Err {
        Err(MaintenanceError::Backend(expected->Err_0))
    } else {
        match initial.control {
            RollbackControlState::Requested(_) => if candidate is Err {
                Err(MaintenanceError::Backend(candidate->Err_0))
            } else if candidate->Ok_0 != expected->Ok_0 {
                Err(MaintenanceError::RequestedHeadMismatch)
            } else {
                Ok(PreparationStage::EnterArchiving)
            },
            RollbackControlState::Archiving(_) => if initial != expected->Ok_0 {
                Err(MaintenanceError::ArchivingHeadMismatch)
            } else {
                Ok(PreparationStage::RevalidateEntered)
            },
            _ => Err(MaintenanceError::OutOfOrder),
        }
    }
}

pub open spec fn head_outcome(head: Result<StoredHead, String>) -> Result<StoredHeadModel, String> {
    match head {
        Ok(head) => Ok(head@),
        Err(refused) => Err(refused),
    }
}

/// The plan and the topology have to be those the preparation began with.
pub open spec fn revalidated(
    binding: PreparationBinding,
    plan: ParticipantPlanModel,
    topology: Option<TopologyModel>,
) -> Result<(), MaintenanceError> {
    if topology is None {
        Err(MaintenanceError::TopologyDisappeared)
    } else if plan != binding.plan || topology->0.snapshot != binding.topology.snapshot {
        Err(MaintenanceError::PlanOrTopologyChanged)
    } else {
        Ok(())
    }
}

/// Where an outcome leads, or how it ends the preparation.
pub open spec fn prepared_further(
    binding: PreparationBinding,
    stage: PreparationStage,
    event: PreparationEvent,
) -> Result<PreparationStage, MaintenanceError> {
    match (stage, event) {
        (PreparationStage::Prepared { .. }, _) => Err(MaintenanceError::OutOfOrder),
        (_, PreparationEvent::Failed(reason)) => Err(MaintenanceError::Backend(reason)),
        (
            PreparationStage::EnterArchiving,
            PreparationEvent::HeadSet { current, settled },
        ) => if current@ != binding.archiving_head || !settled {
            Err(MaintenanceError::HeadChangedWhileEntering)
        } else {
            Ok(PreparationStage::RevalidateEntered)
        },
        (
            PreparationStage::RevalidateEntered,
            PreparationEvent::Reread { plan, topology },
        ) => match revalidated(binding, plan@, rollback_participant::topology_view(topology)) {
            Err(error) => Err(error),
            Ok(_) => Ok(PreparationStage::ReadHeadEntered),
        },
        (PreparationStage::ReadHeadEntered, PreparationEvent::Head(head)) => match head {
            None => Err(MaintenanceError::HeadUninitialized),
            Some(head) => if head@ != binding.archiving_head {
                Err(MaintenanceError::HeadChangedAfterEntering)
            } else {
                Ok(PreparationStage::RecoverReadiness)
            },
        },
        (
            PreparationStage::RecoverReadiness | PreparationStage::RecoverReadinessAgain,
            PreparationEvent::Ready { archiving_head, target, digest, entry_count, dataset_digest },
        ) => Ok(
            PreparationStage::PlanExecution {
                readiness: ArchiveReadiness {
                    exact: archiving_head@ == binding.archiving_head && target
                        == binding.plan.target,
                    digest,
                    entry_count,
                    dataset_digest,
                },
            },
        ),
        (PreparationStage::RecoverReadiness, PreparationEvent::CompletionMissing) => Ok(
            PreparationStage::ArchiveCurrentRequest,
        ),
        (PreparationStage::RecoverReadiness, PreparationEvent::TargetRestoreMissing) => Ok(
            PreparationStage::PersistTargetRestorePayload,
        ),
        (PreparationStage::ArchiveCurrentRequest, PreparationEvent::Done) => Ok(
            PreparationStage::PersistParticipantCompletion,
        ),
        (PreparationStage::PersistParticipantCompletion, PreparationEvent::Done) => Ok(
            PreparationStage::PersistTargetRestorePayload,
        ),
        (PreparationStage::PersistTargetRestorePayload, PreparationEvent::Done) => Ok(
            PreparationStage::RecoverReadinessAgain,
        ),
        (
            PreparationStage::PlanExecution { readiness },
            PreparationEvent::Execution { digest },
        ) => Ok(
            PreparationStage::RevalidateBeforeReturn { readiness, execution_digest: digest },
        ),
        (
            PreparationStage::RevalidateBeforeReturn { readiness, execution_digest },
            PreparationEvent::Reread { plan, topology },
        ) => match revalidated(binding, plan@, rollback_participant::topology_view(topology)) {
            Err(error) => Err(error),
            Ok(_) => Ok(PreparationStage::ReadHeadBeforeReturn { readiness, execution_digest }),
        },
        (
            PreparationStage::ReadHeadBeforeReturn { readiness, execution_digest },
            PreparationEvent::Head(head),
        ) => match head {
            None => Err(MaintenanceError::HeadUninitialized),
            Some(head) => if head@ != binding.archiving_head || !readiness.exact {
                Err(MaintenanceError::ReadinessChanged)
            } else {
                Ok(
                    PreparationStage::Prepared {
                        preparation: CoordinatorRollbackArchivePreparation {
                            target: binding.plan.target,
                            plan_digest: binding.plan.digest,
                            readiness_digest: readiness.digest,
                            execution_digest,
                            entry_count: readiness.entry_count,
                            dataset_digest: readiness.dataset_digest,
                        },
                    },
                )
            },
        },
        _ => Err(MaintenanceError::OutOfOrder),
    }
}

impl ArchivePreparation {
    pub open spec fn binding(&self) -> PreparationBinding {
        PreparationBinding {
            archiving_head: self.archiving_head@,
            plan: self.plan@,
            topology: self.topology@,
        }
    }

    /// Starts to prepare the archive of the plan that the initial head's request
    /// selected.
    pub fn select(
        initial: &StoredHead,
        plan: ParticipantPlan,
        topology: Option<Topology>,
        expected: Result<StoredHead, String>,
        candidate: Result<StoredHead, String>,
    ) -> (result: Result<Self, MaintenanceError>)
        ensures
            match (
                result,
                selected_stage(
                    initial@,
                    rollback_participant::topology_view(topology),
                    head_outcome(expected),
                    head_outcome(candidate),
                ),
            ) {
                (Ok(preparation), Ok(stage)) => {
                    &&& preparation.stage == stage
                    &&& preparation.archiving_head@ == (expected->Ok_0)@
                    &&& preparation.plan@ == plan@
                    &&& preparation.topology@ == (topology->0)@
                },
                (Err(error), Err(expected)) => error == expected,
                _ => false,
            },
    {
        let topology = match topology {
            None => return Err(MaintenanceError::TopologyMissing),
            Some(topology) => topology,
        };
        if !topology.validates_plan {
            return Err(MaintenanceError::TopologyRefusesPlan);
        }
        let expected = match expected {
            Err(refused) => return Err(MaintenanceError::Backend(refused)),
            Ok(expected) => expected,
        };
        let stage: PreparationStage = match initial.control {
            RollbackControlState::Requested(_) => match candidate {
                Err(refused) => return Err(MaintenanceError::Backend(refused)),
                Ok(candidate) => {
                    if !candidate.same(&expected) {
                        return Err(MaintenanceError::RequestedHeadMismatch);
                    }
                    PreparationStage::EnterArchiving
                },
            },
            RollbackControlState::Archiving(_) => {
                if !initial.same(&expected) {
                    return Err(MaintenanceError::ArchivingHeadMismatch);
                }
                PreparationStage::RevalidateEntered
            },
            _ => return Err(MaintenanceError::OutOfOrder),
        };
        Ok(ArchivePreparation { archiving_head: expected, plan, topology, stage })
    }

    fn revalidate(&self, plan: &ParticipantPlan, topology: &Option<Topology>) -> (result: Result<
        (),
        MaintenanceError,
    >)
        ensures
            result == revalidated(
                self.binding(),
                plan@,
                rollback_participant::topology_view(*topology),
            ),
    {
        match topology {
            None => Err(MaintenanceError::TopologyDisappeared),
            Some(topology) => if !plan.same(&self.plan) || !bytes_equal(
                &topology.snapshot,
                &self.topology.snapshot,
            ) {
                Err(MaintenanceError::PlanOrTopologyChanged)
            } else {
                Ok(())
            },
        }
    }

    /// Takes the outcome of the step that was asked for.
    pub fn advance(&mut self, event: PreparationEvent) -> (result: Result<(), MaintenanceError>)
        ensures
            final(self).binding() == old(self).binding(),
            match (result, prepared_further(old(self).binding(), old(self).stage, event)) {
                (Ok(_), Ok(stage)) => final(self).stage == stage,
                (Err(error), Err(expected)) => error == expected && final(self).stage == old(
                    self,
                ).stage,
                _ => false,
            },
    {
        let stage: PreparationStage = match (self.stage, event) {
            (PreparationStage::Prepared { .. }, _) => return Err(MaintenanceError::OutOfOrder),
            (_, PreparationEvent::Failed(reason)) => {
                return Err(MaintenanceError::Backend(reason));
            },
            (PreparationStage::EnterArchiving, PreparationEvent::HeadSet { current, settled }) => {
                if !current.same(&self.archiving_head) || !settled {
                    return Err(MaintenanceError::HeadChangedWhileEntering);
                }
                PreparationStage::RevalidateEntered
            },
            (PreparationStage::RevalidateEntered, PreparationEvent::Reread { plan, topology }) => {
                self.revalidate(&plan, &topology)?;
                PreparationStage::ReadHeadEntered
            },
            (PreparationStage::ReadHeadEntered, PreparationEvent::Head(head)) => match head {
                None => return Err(MaintenanceError::HeadUninitialized),
                Some(head) => {
                    if !head.same(&self.archiving_head) {
                        return Err(MaintenanceError::HeadChangedAfterEntering);
                    }
                    PreparationStage::RecoverReadiness
                },
            },
            (
                PreparationStage::RecoverReadiness | PreparationStage::RecoverReadinessAgain,
                PreparationEvent::Ready {
                    archiving_head,
                    target,
                    digest,
                    entry_count,
                    dataset_digest,
                },
            ) => PreparationStage::PlanExecution {
                readiness: ArchiveReadiness {
                    exact: archiving_head.same(&self.archiving_head) && target.same(
                        &self.plan.target,
                    ),
                    digest,
                    entry_count,
                    dataset_digest,
                },
            },
            (PreparationStage::RecoverReadiness, PreparationEvent::CompletionMissing) => {
                PreparationStage::ArchiveCurrentRequest
            },
            (PreparationStage::RecoverReadiness, PreparationEvent::TargetRestoreMissing) => {
                PreparationStage::PersistTargetRestorePayload
            },
            (PreparationStage::ArchiveCurrentRequest, PreparationEvent::Done) => {
                PreparationStage::PersistParticipantCompletion
            },
            (PreparationStage::PersistParticipantCompletion, PreparationEvent::Done) => {
                PreparationStage::PersistTargetRestorePayload
            },
            (PreparationStage::PersistTargetRestorePayload, PreparationEvent::Done) => {
                PreparationStage::RecoverReadinessAgain
            },
            (
                PreparationStage::PlanExecution { readiness },
                PreparationEvent::Execution { digest },
            ) => PreparationStage::RevalidateBeforeReturn { readiness, execution_digest: digest },
            (
                PreparationStage::RevalidateBeforeReturn { readiness, execution_digest },
                PreparationEvent::Reread { plan, topology },
            ) => {
                self.revalidate(&plan, &topology)?;
                PreparationStage::ReadHeadBeforeReturn { readiness, execution_digest }
            },
            (
                PreparationStage::ReadHeadBeforeReturn { readiness, execution_digest },
                PreparationEvent::Head(head),
            ) => match head {
                None => return Err(MaintenanceError::HeadUninitialized),
                Some(head) => {
                    if !head.same(&self.archiving_head) || !readiness.exact {
                        return Err(MaintenanceError::ReadinessChanged);
                    }
                    PreparationStage::Prepared {
                        preparation: CoordinatorRollbackArchivePreparation {
                            target: self.plan.target,
                            plan_digest: self.plan.digest,
                            readiness_digest: readiness.digest,
                            execution_digest,
                            entry_count: readiness.entry_count,
                            dataset_digest: readiness.dataset_digest,
                        },
                    }
                },
            },
            _ => return Err(MaintenanceError::OutOfOrder),
        };
        self.stage = stage;
        Ok(())
    }
}

/// Where a stage of the preparation stands.
pub open spec fn preparation_rank(stage: PreparationStage) -> int {
    match stage {
        PreparationStage::EnterArchiving => 0,
        PreparationStage::RevalidateEntered => 1,
        PreparationStage::ReadHeadEntered => 2,
        PreparationStage::RecoverReadiness => 3,
        PreparationStage::ArchiveCurrentRequest => 4,
        PreparationStage::PersistParticipantCompletion => 5,
        PreparationStage::PersistTargetRestorePayload => 6,
        PreparationStage::RecoverReadinessAgain => 7,
        PreparationStage::PlanExecution { .. } => 8,
        PreparationStage::RevalidateBeforeReturn { .. } => 9,
        PreparationStage::ReadHeadBeforeReturn { .. } => 10,
        PreparationStage::Prepared { .. } => 11,
    }
}

/// A preparation only moves forward, and skips nothing but the copying of what is
/// already archived: the archive is recovered before the execution is planned, and
/// plan, topology and head are read again before anything is returned.
pub proof fn law_preparation_skips_only_what_is_archived(
    binding: PreparationBinding,
    stage: PreparationStage,
    event: PreparationEvent,
)
    ensures
        prepared_further(binding, stage, event) matches Ok(next) ==> {
            &&& preparation_rank(stage) < preparation_rank(next)
            &&& preparation_rank(next) == preparation_rank(stage) + 1 || stage
                == PreparationStage::RecoverReadiness
            &&& stage == PreparationStage::RecoverReadiness ==> next
                == PreparationStage::ArchiveCurrentRequest || next
                == PreparationStage::PersistTargetRestorePayload || next is PlanExecution
        },
{
}

/// What is prepared belongs to exactly the archiving head, the plan and the target
/// that the preparation began with.
pub proof fn law_prepared_archive_is_the_selected_one(
    binding: PreparationBinding,
    stage: PreparationStage,
    event: PreparationEvent,
)
    ensures
        prepared_further(binding, stage, event) matches Ok(
            PreparationStage::Prepared { preparation },
        ) ==> {
            &&& preparation.target == binding.plan.target
            &&& preparation.plan_digest == binding.plan.digest
            &&& stage matches PreparationStage::ReadHeadBeforeReturn { readiness, execution_digest }
                && readiness.exact && preparation.readiness_digest == readiness.digest
                && preparation.execution_digest == execution_digest
            &&& event matches PreparationEvent::Head(Some(head)) && head@
                == binding.archiving_head
        },
{
}

/// A head that has reached the archive barrier or passed it is never touched.
pub proof fn law_maintenance_stops_at_the_barrier(
    initial: StoredHeadModel,
    topology: Option<TopologyModel>,
    expected: Result<StoredHeadModel, String>,
    candidate: Result<StoredHeadModel, String>,
)
    requires
        start_of(initial.control) != MaintenanceStart::Prepare,
    ensures
        selected_stage(initial, topology, expected, candidate) is Err,
{
}

/// What maintenance does is fixed by the phase of the head: a head without a rollback
/// works normally, one that is requested or archiving is prepared, and every later phase
/// is left to those downstream.
pub proof fn law_maintenance_starts_with_the_phase_of_its_head(control: RollbackControlState)
    ensures
        start_of(control) is Normal <==> control is Idle,
        start_of(control) is Prepare <==> control is Requested || control is Archiving,
        start_of(control) is AwaitingDownstream <==> control is ArchiveBarrierReady || control
            is Deleting || control is Restoring || control is Verifying || control is AllRealmsReady
            || control is Aborting,
{
}

/// A preparation begins exactly if the topology is there and bears the plan out, the
/// plan's own archiving head is known, and the initial head is that head, or is requested
/// and leads to it. A requested head has yet to enter; an archiving one has entered.
pub proof fn law_preparation_begins_at_the_plans_own_head(
    initial: StoredHeadModel,
    topology: Option<TopologyModel>,
    expected: Result<StoredHeadModel, String>,
    candidate: Result<StoredHeadModel, String>,
)
    ensures
        ({
            let stage = selected_stage(initial, topology, expected, candidate);
            let borne_out = topology matches Some(topology) && topology.validates_plan;
            &&& stage is Ok <==> borne_out && expected is Ok && {
                ||| initial.control is Requested && candidate is Ok && candidate->Ok_0
                    == expected->Ok_0
                ||| initial.control is Archiving && initial == expected->Ok_0
            }
            &&& stage matches Ok(next) ==> if initial.control is Requested {
                next is EnterArchiving
            } else {
                next is RevalidateEntered
            }
            &&& topology is None ==> stage is Err && stage->Err_0 is TopologyMissing
            &&& topology is Some && !borne_out ==> stage is Err && stage->Err_0
                is TopologyRefusesPlan
            &&& borne_out && expected is Ok && stage is Err ==> if initial.control is Requested {
                stage->Err_0 is RequestedHeadMismatch || (candidate is Err && stage->Err_0
                    == MaintenanceError::Backend(candidate->Err_0))
            } else if initial.control is Archiving {
                stage->Err_0 is ArchivingHeadMismatch
            } else {
                stage->Err_0 is OutOfOrder
            }
        }),
{
}

/// What was reread is what the preparation began with.
pub open spec fn reread_as_begun(binding: PreparationBinding, event: PreparationEvent) -> bool {
    event matches PreparationEvent::Reread { plan, topology } && plan@ == binding.plan && (
    topology matches Some(topology) && topology.snapshot@ == binding.topology.snapshot)
}

/// The archiving head is entered only by a set that settled on exactly that head, and
/// the archive is looked for only once plan and topology were reread unchanged and the
/// head is still that one. Each failure has its own error.
pub proof fn law_preparation_enters_its_own_head(
    binding: PreparationBinding,
    current: StoredHead,
    settled: bool,
    reread: PreparationEvent,
    head: Option<StoredHead>,
)
    requires
        reread is Reread,
    ensures
        match prepared_further(
            binding,
            PreparationStage::EnterArchiving,
            PreparationEvent::HeadSet { current, settled },
        ) {
            Ok(next) => settled && current@ == binding.archiving_head && next is RevalidateEntered,
            Err(error) => !(settled && current@ == binding.archiving_head) && error
                is HeadChangedWhileEntering,
        },
        match prepared_further(binding, PreparationStage::RevalidateEntered, reread) {
            Ok(next) => reread_as_begun(binding, reread) && next is ReadHeadEntered,
            Err(error) => !reread_as_begun(binding, reread) && if reread->Reread_topology is None {
                error is TopologyDisappeared
            } else {
                error is PlanOrTopologyChanged
            },
        },
        match prepared_further(
            binding,
            PreparationStage::ReadHeadEntered,
            PreparationEvent::Head(head),
        ) {
            Ok(next) => head is Some && (head->0)@ == binding.archiving_head && next
                is RecoverReadiness,
            Err(error) => if head is None {
                error is HeadUninitialized
            } else {
                (head->0)@ != binding.archiving_head && error is HeadChangedAfterEntering
            },
        },
{
    if let PreparationEvent::Reread { plan, topology } = reread {
        if let Some(topology) = topology {
            assert(rollback_participant::topology_view(Some(topology)) == Some(topology@));
        }
    }
}

/// An archive that is reported ready is prepared exactly if it is ready for the archiving
/// head and the plan's target, plan and topology are reread unchanged and the head is
/// still the archiving head. What is prepared then has the plan's target and digest, the
/// digest, entry count and dataset that the archive reported, and the digest of the
/// planned execution.
pub proof fn law_ready_archive_is_prepared(
    binding: PreparationBinding,
    stage: PreparationStage,
    archiving_head: StoredHead,
    target: CanonicalChainRef,
    digest: [u8; 32],
    entry_count: u64,
    dataset_digest: [u8; 32],
    execution: [u8; 32],
    reread: PreparationEvent,
    head: Option<StoredHead>,
)
    requires
        stage is RecoverReadiness || stage is RecoverReadinessAgain,
        reread is Reread,
    ensures
        prepared_further(
            binding,
            stage,
            PreparationEvent::Ready { archiving_head, target, digest, entry_count, dataset_digest },
        ) matches Ok(ready) && prepared_further(
            binding,
            ready,
            PreparationEvent::Execution { digest: execution },
        ) matches Ok(planned) && match prepared_further(binding, planned, reread) {
            Err(error) => !reread_as_begun(binding, reread) && (error is TopologyDisappeared
                || error is PlanOrTopologyChanged),
            Ok(unchanged) => reread_as_begun(binding, reread) && match prepared_further(
                binding,
                unchanged,
                PreparationEvent::Head(head),
            ) {
                Err(error) => if head is None {
                    error is HeadUninitialized
                } else {
                    error is ReadinessChanged && !((head->0)@ == binding.archiving_head
                        && archiving_head@ == binding.archiving_head && target
                        == binding.plan.target)
                },
                Ok(end) => {
                    &&& head is Some
                    &&& (head->0)@ == binding.archiving_head
                    &&& archiving_head@ == binding.archiving_head
                    &&& target == binding.plan.target
                    &&& end is Prepared
                    &&& end->preparation.target == target
                    &&& end->preparation.plan_digest == binding.plan.digest
                    &&& end->preparation.readiness_digest == digest
                    &&& end->preparation.execution_digest == execution
                    &&& end->preparation.entry_count == entry_count
                    &&& end->preparation.dataset_digest == dataset_digest
                },
            },
        },
{
    if let PreparationEvent::Reread { plan, topology } = reread {
        if let Some(topology) = topology {
            assert(rollback_participant::topology_view(Some(topology)) == Some(topology@));
        }
    }
}

/// An archive that is not complete is archived, completed and given its restore payload
/// before it is looked for again; one that only lacks its payload is given that; and one
/// that is still missing after that is not archived a second time.
pub proof fn law_missing_archive_is_made_once(binding: PreparationBinding)
    ensures
        prepared_further(
            binding,
            PreparationStage::RecoverReadiness,
            PreparationEvent::CompletionMissing,
        ) == Ok::<_, MaintenanceError>(PreparationStage::ArchiveCurrentRequest),
        prepared_further(
            binding,
            PreparationStage::RecoverReadiness,
            PreparationEvent::TargetRestoreMissing,
        ) == Ok::<_, MaintenanceError>(PreparationStage::PersistTargetRestorePayload),
        prepared_further(
            binding,
            PreparationStage::ArchiveCurrentRequest,
            PreparationEvent::Done,
        ) == Ok::<_, MaintenanceError>(PreparationStage::PersistParticipantCompletion),
        prepared_further(
            binding,
            PreparationStage::PersistParticipantCompletion,
            PreparationEvent::Done,
        ) == Ok::<_, MaintenanceError>(PreparationStage::PersistTargetRestorePayload),
        prepared_further(
            binding,
            PreparationStage::PersistTargetRestorePayload,
            PreparationEvent::Done,
        ) == Ok::<_, MaintenanceError>(PreparationStage::RecoverReadinessAgain),
        prepared_further(
            binding,
            PreparationStage::RecoverReadinessAgain,
            PreparationEvent::CompletionMissing,
        ) is Err,
        prepared_further(
            binding,
            PreparationStage::RecoverReadinessAgain,
            PreparationEvent::TargetRestoreMissing,
        ) is Err,
{
}

/// A failed step ends the preparation with its own reason, and a preparation that has
/// ended takes no further step.
pub proof fn law_failed_step_ends_the_preparation(
    binding: PreparationBinding,
    stage: PreparationStage,
    reason: String,
)
    ensures
        match prepared_further(binding, stage, PreparationEvent::Failed(reason)) {
            Ok(_) => false,
            Err(error) => if stage is Prepared {
                error is OutOfOrder
            } else {
                error == MaintenanceError::Backend(reason)
            },
        },
{
}

/// What maintenance of a head starts with.
pub open spec fn maintenance_started(
    head: Option<StoredHead>,
    result: Result<MaintenanceStart, MaintenanceError>,
) -> bool {
    result == (match head {
        None => Err::<MaintenanceStart, _>(MaintenanceError::HeadUninitialized),
        Some(head) => Ok(start_of(head.control)),
    })
}

/// Maintenance starts with the phase of the head that is there; without one it does not.
pub proof fn law_maintenance_needs_a_head(
    head: Option<StoredHead>,
    result: Result<MaintenanceStart, MaintenanceError>,
)
    requires
        maintenance_started(head, result),
    ensures
        match head {
            None => result is Err && result->Err_0 is HeadUninitialized,
            Some(head) => result is Ok && match head.control {
                RollbackControlState::Idle => result->Ok_0 is Normal,
                RollbackControlState::Requested(_)
                | RollbackControlState::Archiving(_) => result->Ok_0 is Prepare,
                _ => result->Ok_0 is AwaitingDownstream,
            },
        },
{
}

} // verus!
