//! Selection of the complete set of runtime-rebuild reports, and the publication
//! that only the complete set allows.
//!
//! Participant identities come from the immutable rollback plan. Reports, restore
//! barrier and head are selected, and read again before and behind the publication.

use vstd::prelude::*;

use crate::bytes::bytes_equal;
use crate::model::{RollbackRequest, StoredHead, StoredHeadModel};
use crate::rollback_participant;
use crate::rollback_participant::{ParticipantPlan, ParticipantPlanModel, Topology, TopologyModel};

verus! {

#[derive(Clone, Debug, PartialEq, Eq)]
pub enum RuntimePublicationError {
    HeadMissing,
    NoActiveRollback,
    TopologyMissing,
    TopologyChangedBefore,
    NotSelectedHead,
    CoordinatorDirectiveMissing,
    RealmCountDiffers,
    CoordinatorReportMissing,
    RealmDirectiveMissing,
    ReadyWithoutRealmReport,
    TopologyDisappearedDuring,
    ChangedDuringSelection,
    TopologyDisappearedAfter,
    ChangedAcrossPublication,
    Backend(String),
    /// The outcome belongs to another step than the one that was asked for.
    OutOfOrder,
}

impl RuntimePublicationError {
    /// The error in words.
    pub open spec fn spec_message(self) -> Seq<char> {
        match self {
            RuntimePublicationError::HeadMissing => {
                "Coordinator canonical head is missing during runtime publication"@
            },
            RuntimePublicationError::NoActiveRollback => {
                "runtime publication requires an active rollback"@
            },
            RuntimePublicationError::TopologyMissing => {
                "rollback topology is missing during runtime publication"@
            },
            RuntimePublicationError::TopologyChangedBefore => {
                "rollback topology changed before runtime publication"@
            },
            RuntimePublicationError::NotSelectedHead => {
                "canonical head is not the selected VERIFYING/ALL_REALMS_READY row"@
            },
            RuntimePublicationError::CoordinatorDirectiveMissing => {
                "Coordinator runtime rebuild directive is missing"@
            },
            RuntimePublicationError::RealmCountDiffers => {
                "restore barrier Realm count differs from participant plan"@
            },
            RuntimePublicationError::CoordinatorReportMissing => {
                "Coordinator runtime rebuild report is missing"@
            },
            RuntimePublicationError::RealmDirectiveMissing => {
                "planned Realm runtime rebuild directive is missing"@
            },
            RuntimePublicationError::ReadyWithoutRealmReport => {
                "ALL_REALMS_READY is selected but a planned Realm report is missing"@
            },
            RuntimePublicationError::TopologyDisappearedDuring => {
                "rollback topology disappeared during publication"@
            },
            RuntimePublicationError::ChangedDuringSelection => {
                "rollback head/plan/topology changed during runtime report selection"@
            },
            RuntimePublicationError::TopologyDisappearedAfter => {
                "rollback topology disappeared after publication"@
            },
            RuntimePublicationError::ChangedAcrossPublication => {
                "rollback plan/topology/target changed across runtime publication"@
            },
            RuntimePublicationError::Backend(reason) => reason@,
            RuntimePublicationError::OutOfOrder => "runtime publication step out of order"@,
        }
    }

    pub fn message(&self) -> (message: String)
        ensures
            message@ == self.spec_message(),
    {
        match self {
            RuntimePublicationError::HeadMissing => {
                "Coordinator canonical head is missing during runtime publication".to_owned()
            },
            RuntimePublicationError::NoActiveRollback => {
                "runtime publication requires an active rollback".to_owned()
            },
            RuntimePublicationError::TopologyMissing => {
                "rollback topology is missing during runtime publication".to_owned()
            },
            RuntimePublicationError::TopologyChangedBefore => {
                "rollback topology changed before runtime publication".to_owned()
            },
            RuntimePublicationError::NotSelectedHead => {
                "canonical head is not the selected VERIFYING/ALL_REALMS_READY row".to_owned()
            },
            RuntimePublicationError::CoordinatorDirectiveMissing => {
                "Coordinator runtime rebuild directive is missing".to_owned()
            },
            RuntimePublicationError::RealmCountDiffers => {
                "restore barrier Realm count differs from participant plan".to_owned()
            },
            RuntimePublicationError::CoordinatorReportMissing => {
                "Coordinator runtime rebuild report is missing".to_owned()
            },
            RuntimePublicationError::RealmDirectiveMissing => {
                "planned Realm runtime rebuild directive is missing".to_owned()
            },
            RuntimePublicationError::ReadyWithoutRealmReport => {
                "ALL_REALMS_READY is selected but a planned Realm report is missing".to_owned()
            },
            RuntimePublicationError::TopologyDisappearedDuring => {
                "rollback topology disappeared during publication".to_owned()
            },
            RuntimePublicationError::ChangedDuringSelection => {
                "rollback head/plan/topology changed during runtime report selection".to_owned()
            },
            RuntimePublicationError::TopologyDisappearedAfter => {
                "rollback topology disappeared after publication".to_owned()
            },
            RuntimePublicationError::ChangedAcrossPublication => {
                "rollback plan/topology/target changed across runtime publication".to_owned()
            },
            RuntimePublicationError::Backend(reason) => reason.clone(),
            RuntimePublicationError::OutOfOrder => {
                "runtime publication step out of order".to_owned()
            },
        }
    }
}

/// The request of the active rollback.
pub fn active_request(head: &Option<StoredHead>) -> (result: Result<
    RollbackRequest,
    RuntimePublicationError,
>)
    ensures
        request_found(*head, result),
{
    match head {
        None => Err(RuntimePublicationError::HeadMissing),
        Some(head) => match head.control.requested() {
            None => Err(RuntimePublicationError::NoActiveRollback),
            Some(request) => Ok(request),
        },
    }
}

/// What the publication waits for. `index` counts the realms in plan order,
/// `completed` those whose report is there.
#[derive(Clone, Copy, Debug, PartialEq, Eq, Structural)]
pub enum PublicationStage {
    ReadCoordinatorDirective,
    ReadRestoreBarrier,
    ReadCoordinatorReport,
    ReadRealmDirective { index: u64, completed: u64 },
    ReadRealmReport { index: u64, completed: u64 },
    RevalidateIncomplete { completed: u64 },
    RevalidateComplete,
    Publish,
    RereadPublished { at_target: bool },
    AwaitingRealmReports { completed: u64, expected: u64 },
    Published,
}

/// What came of a step.
#[derive(Debug, PartialEq, Eq)]
pub enum PublicationEvent {
    Failed(String),
    /// Whether the row that was asked for is there.
    Found(bool),
    RestoreBarrier { realm_count: u64 },
    Reread { head: Option<StoredHead>, plan: ParticipantPlan, topology: Option<Topology> },
    Published { published: StoredHead },
}

/// A publication under way, with all that it has to find unchanged.
#[derive(Debug, PartialEq, Eq)]
pub struct RuntimePublication {
    pub current: StoredHead,
    pub ready_selected: bool,
    pub plan: ParticipantPlan,
    pub topology: Topology,
    pub stage: PublicationStage,
}

/// What a publication has to find unchanged. `ready_selected` is whether the head
/// already says that all realms are ready.
#[verifier::ext_equal]
pub struct PublicationBinding {
    pub current: StoredHeadModel,
    pub ready_selected: bool,
    pub plan: ParticipantPlanModel,
    pub topology: TopologyModel,
}

pub open spec fn head_outcome(head: Result<StoredHead, String>) -> Result<StoredHeadModel, String> {
    match head {
        Ok(head) => Ok(head@),
        Err(refused) => Err(refused),
    }
}

/// Whether the head is selected for publication, and whether all realms are already
/// ready in it. `verifying` is the verifying head that the plan's own rollback leads
/// to, `all_ready` the head behind its realm barrier.
pub open spec fn selected_head(
    current: StoredHeadModel,
    topology: Option<TopologyModel>,
    verifying: Result<StoredHeadModel, String>,
    all_ready: Result<StoredHeadModel, String>,
) -> Result<bool, RuntimePublicationError> {
    if topology is None {
        Err(RuntimePublicationError::TopologyMissing)
    } else if !topology->0.validates_plan {
        Err(RuntimePublicationError::TopologyChangedBefore)
    } else if verifying is Err {
        Err(RuntimePublicationError::Backend(verifying->Err_0))
    } else if all_ready is Err {
        Err(RuntimePublicationError::Backend(all_ready->Err_0))
    } else if current != verifying->Ok_0 && current != all_ready->Ok_0 {
        Err(RuntimePublicationError::NotSelectedHead)
    } else {
        Ok(current == all_ready->Ok_0)
    }
}

/// The next realm to read, or what all of them come to.
pub open spec fn realm_stage(binding: PublicationBinding, index: u64, completed: u64) -> Result<
    PublicationStage,
    RuntimePublicationError,
> {
    if index < binding.plan.realms {
        Ok(PublicationStage::ReadRealmDirective { index, completed })
    } else if completed == binding.plan.realms {
        Ok(PublicationStage::RevalidateComplete)
    } else if binding.ready_selected {
        Err(RuntimePublicationError::ReadyWithoutRealmReport)
    } else {
        Ok(PublicationStage::RevalidateIncomplete { completed })
    }
}

/// Head, plan and topology have to be those the publication began with.
pub open spec fn unchanged(
    binding: PublicationBinding,
    head: Option<StoredHeadModel>,
    plan: ParticipantPlanModel,
    topology: Option<TopologyModel>,
) -> Result<(), RuntimePublicationError> {
    if head is None {
        Err(RuntimePublicationError::HeadMissing)
    } else if topology is None {
        Err(RuntimePublicationError::TopologyDisappearedDuring)
    } else if head->0 != binding.current || plan != binding.plan || topology->0.snapshot
        != binding.topology.snapshot || !topology->0.validates_plan {
        Err(RuntimePublicationError::ChangedDuringSelection)
    } else {
        Ok(())
    }
}

pub open spec fn head_view(head: Option<StoredHead>) -> Option<StoredHeadModel> {
    match head {
        None => None,
        Some(head) => Some(head@),
    }
}

/// Where an outcome leads, or how it ends the publication.
pub open spec fn publication_further(
    binding: PublicationBinding,
    stage: PublicationStage,
    event: PublicationEvent,
) -> Result<PublicationStage, RuntimePublicationError> {
    match (stage, event) {
        (PublicationStage::AwaitingRealmReports { .. } | PublicationStage::Published, _) => Err(
            RuntimePublicationError::OutOfOrder,
        ),
        (_, PublicationEvent::Failed(reason)) => Err(RuntimePublicationError::Backend(reason)),
        (PublicationStage::ReadCoordinatorDirective, PublicationEvent::Found(found)) => if found {
            Ok(PublicationStage::ReadRestoreBarrier)
        } else {
            Err(RuntimePublicationError::CoordinatorDirectiveMissing)
        },
        (
            PublicationStage::ReadRestoreBarrier,
            PublicationEvent::RestoreBarrier { realm_count },
        ) => if realm_count == binding.plan.realms {
            Ok(PublicationStage::ReadCoordinatorReport)
        } else {
            Err(RuntimePublicationError::RealmCountDiffers)
        },
        (PublicationStage::ReadCoordinatorReport, PublicationEvent::Found(found)) => if found {
            realm_stage(binding, 0, 0)
        } else {
            Err(RuntimePublicationError::CoordinatorReportMissing)
        },
        (
            PublicationStage::ReadRealmDirective { index, completed },
            PublicationEvent::Found(found),
        ) => if found {
            Ok(PublicationStage::ReadRealmReport { index, completed })
        } else {
            Err(RuntimePublicationError::RealmDirectiveMissing)
        },
        (
            PublicationStage::ReadRealmReport { index, completed },
            PublicationEvent::Found(found),
        ) => realm_stage(
            binding,
            (index + 1) as u64,
            if found {
                (completed + 1) as u64
            } else {
                completed
            },
        ),
        (
            PublicationStage::RevalidateIncomplete { completed },
            PublicationEvent::Reread { head, plan, topology },
        ) => match unchanged(
            binding,
            head_view(head),
            plan@,
            rollback_participant::topology_view(topology),
        ) {
            Err(error) => Err(error),
            Ok(_) => Ok(
                PublicationStage::AwaitingRealmReports {
                    completed,
                    expected: binding.plan.realms,
                },
            ),
        },
        (
            PublicationStage::RevalidateComplete,
            PublicationEvent::Reread { head, plan, topology },
        ) => match unchanged(
            binding,
            head_view(head),
            plan@,
            rollback_participant::topology_view(topology),
        ) {
            Err(error) => Err(error),
            Ok(_) => Ok(PublicationStage::Publish),
        },
        (PublicationStage::Publish, PublicationEvent::Published { published }) => Ok(
            PublicationStage::RereadPublished {
                at_target: published.canonical.checkpoint == binding.plan.target.checkpoint,
            },
        ),
        (
            PublicationStage::RereadPublished { at_target },
            PublicationEvent::Reread { plan, topology, .. },
        ) => match rollback_participant::topology_view(topology) {
            None => Err(RuntimePublicationError::TopologyDisappearedAfter),
            Some(topology) => if plan@ != binding.plan || topology.snapshot
                != binding.topology.snapshot || !topology.validates_plan || !at_target {
                Err(RuntimePublicationError::ChangedAcrossPublication)
            } else {
                Ok(PublicationStage::Published)
            },
        },
        _ => Err(RuntimePublicationError::OutOfOrder),
    }
}

impl RuntimePublication {
    pub open spec fn binding(&self) -> PublicationBinding {
        PublicationBinding {
            current: self.current@,
            ready_selected: self.ready_selected,
            plan: self.plan@,
            topology: self.topology@,
        }
    }

    /// The publication counts within its plan.
    pub open spec fn wf(&self) -> bool {
        match self.stage {
            PublicationStage::ReadRealmDirective { index, completed }
            | PublicationStage::ReadRealmReport { index, completed } => index < self.plan.realms
                && completed <= index,
            PublicationStage::RevalidateIncomplete { completed }
            | PublicationStage::AwaitingRealmReports { completed, .. } => completed
                < self.plan.realms,
            _ => true,
        }
    }

    /// Starts to publish the rollback of the plan that the head's request selected.
    pub fn select(
        current: StoredHead,
        plan: ParticipantPlan,
        topology: Option<Topology>,
        verifying: Result<StoredHead, String>,
        all_ready: Result<StoredHead, String>,
    ) -> (result: Result<Self, RuntimePublicationError>)
        ensures
            match (
                result,
                selected_head(
                    current@,
                    rollback_participant::topology_view(topology),
                    head_outcome(verifying),
                    head_outcome(all_ready),
                ),
            ) {
                (Ok(publication), Ok(ready_selected)) => {
                    &&& publication.wf()
                    &&& publication.stage == PublicationStage::ReadCoordinatorDirective
                    &&& publication.current@ == current@
                    &&& publication.ready_selected == ready_selected
                    &&& publication.plan@ == plan@
                    &&& publication.topology@ == (topology->0)@
                },
                (Err(error), Err(expected)) => error == expected,
                _ => false,
            },
    {
        let topology = match topology {
            None => return Err(RuntimePublicationError::TopologyMissing),
            Some(topology) => topology,
        };
        if !topology.validates_plan {
            return Err(RuntimePublicationError::TopologyChangedBefore);
        }
        let verifying = match verifying {
            Err(refused) => return Err(RuntimePublicationError::Backend(refused)),
            Ok(verifying) => verifying,
        };
        let all_ready = match all_ready {
            Err(refused) => return Err(RuntimePublicationError::Backend(refused)),
            Ok(all_ready) => all_ready,
        };
        let ready_selected: bool = current.same(&all_ready);
        if !ready_selected && !current.same(&verifying) {
            return Err(RuntimePublicationError::NotSelectedHead);
        }
        Ok(
            RuntimePublication {
                current,
                ready_selected,
                plan,
                topology,
                stage: PublicationStage::ReadCoordinatorDirective,
            },
        )
    }

    fn next_realm(&self, index: u64, completed: u64) -> (result: Result<
        PublicationStage,
        RuntimePublicationError,
    >)
        ensures
            result == realm_stage(self.binding(), index, completed),
    {
        if index < self.plan.realms {
            Ok(PublicationStage::ReadRealmDirective { index, completed })
        } else if completed == self.plan.realms {
            Ok(PublicationStage::RevalidateComplete)
        } else if self.ready_selected {
            Err(RuntimePublicationError::ReadyWithoutRealmReport)
        } else {
            Ok(PublicationStage::RevalidateIncomplete { completed })
        }
    }

    fn require_unchanged(
        &self,
        head: &Option<StoredHead>,
        plan: &ParticipantPlan,
        topology: &Option<Topology>,
    ) -> (result: Result<(), RuntimePublicationError>)
        ensures
            result == unchanged(
                self.binding(),
                head_view(*head),
                plan@,
                rollback_participant::topology_view(*topology),
            ),
    {
        let head = match head {
            None => return Err(RuntimePublicationError::HeadMissing),
            Some(head) => head,
        };
        match topology {
            None => Err(RuntimePublicationError::TopologyDisappearedDuring),
            Some(topology) => if !head.same(&self.current) || !plan.same(&self.plan)
                || !bytes_equal(&topology.snapshot, &self.topology.snapshot)
                || !topology.validates_plan {
                Err(RuntimePublicationError::ChangedDuringSelection)
            } else {
                Ok(())
            },
        }
    }

    /// Takes the outcome of the step that was asked for.
    pub fn try_publish_restored_runtime(&mut self, event: PublicationEvent) -> (result: Result<
        (),
        RuntimePublicationError,
    >)
        requires
            old(self).wf(),
        ensures
            final(self).wf(),
            final(self).binding() == old(self).binding(),
            match (result, publication_further(old(self).binding(), old(self).stage, event)) {
                (Ok(_), Ok(stage)) => final(self).stage == stage,
                (Err(error), Err(expected)) => error == expected && final(self).stage == old(
                    self,
                ).stage,
                _ => false,
            },
    {
        let stage: PublicationStage = match (self.stage, event) {
            (PublicationStage::AwaitingRealmReports { .. } | PublicationStage::Published, _) => {
                return Err(RuntimePublicationError::OutOfOrder);
            },
            (_, PublicationEvent::Failed(reason)) => {
                return Err(RuntimePublicationError::Backend(reason));
            },
            (PublicationStage::ReadCoordinatorDirective, PublicationEvent::Found(found)) => {
                if !found {
                    return Err(RuntimePublicationError::CoordinatorDirectiveMissing);
                }
                PublicationStage::ReadRestoreBarrier
            },
            (
                PublicationStage::ReadRestoreBarrier,
                PublicationEvent::RestoreBarrier { realm_count },
            ) => {
                if realm_count != self.plan.realms {
                    return Err(RuntimePublicationError::RealmCountDiffers);
                }
                PublicationStage::ReadCoordinatorReport
            },
            (PublicationStage::ReadCoordinatorReport, PublicationEvent::Found(found)) => {
                if !found {
                    return Err(RuntimePublicationError::CoordinatorReportMissing);
                }
                self.next_realm(0, 0)?
            },
            (
                PublicationStage::ReadRealmDirective { index, completed },
                PublicationEvent::Found(found),
            ) => {
                if !found {
                    return Err(RuntimePublicationError::RealmDirectiveMissing);
                }
                PublicationStage::ReadRealmReport { index, completed }
            },
            (
                PublicationStage::ReadRealmReport { index, completed },
                PublicationEvent::Found(found),
            ) => {
                let counted: u64 = if found {
                    completed + 1
                } else {
                    completed
                };
                self.next_realm(index + 1, counted)?
            },
            (
                PublicationStage::RevalidateIncomplete { completed },
                PublicationEvent::Reread { head, plan, topology },
            ) => {
                self.require_unchanged(&head, &plan, &topology)?;
                PublicationStage::AwaitingRealmReports { completed, expected: self.plan.realms }
            },
            (
                PublicationStage::RevalidateComplete,
                PublicationEvent::Reread { head, plan, topology },
            ) => {
                self.require_unchanged(&head, &plan, &topology)?;
                PublicationStage::Publish
            },
            (PublicationStage::Publish, PublicationEvent::Published { published }) => {
                PublicationStage::RereadPublished {
                    at_target: published.canonical.checkpoint.same(&self.plan.target.checkpoint),
                }
            },
            (
                PublicationStage::RereadPublished { at_target },
                PublicationEvent::Reread { plan, topology, .. },
            ) => match &topology {
                None => return Err(RuntimePublicationError::TopologyDisappearedAfter),
                Some(topology) => {
                    if !plan.same(&self.plan) || !bytes_equal(
                        &topology.snapshot,
                        &self.topology.snapshot,
                    ) || !topology.validates_plan || !at_target {
                        return Err(RuntimePublicationError::ChangedAcrossPublication);
                    }
                    PublicationStage::Published
                },
            },
            _ => return Err(RuntimePublicationError::OutOfOrder),
        };
        self.stage = stage;
        Ok(())
    }
}

/// Where a stage of the publication stands.
pub open spec fn publication_rank(stage: PublicationStage, realms: u64) -> Option<int> {
    match stage {
        PublicationStage::ReadCoordinatorDirective => Some(0),
        PublicationStage::ReadRestoreBarrier => Some(1),
        PublicationStage::ReadCoordinatorReport => Some(2),
        PublicationStage::ReadRealmDirective { index, .. } => Some(3 + 2 * index),
        PublicationStage::ReadRealmReport { index, .. } => Some(4 + 2 * index),
        PublicationStage::RevalidateComplete => Some(3 + 2 * realms),
        PublicationStage::Publish => Some(4 + 2 * realms),
        PublicationStage::RereadPublished { .. } => Some(5 + 2 * realms),
        PublicationStage::Published => Some(6 + 2 * realms),
        _ => None,
    }
}

/// A publication asks for the directive and the report of every realm of the plan in
/// plan order, and publishes only once every one of them is there and head, plan and
/// topology were found unchanged.
pub proof fn law_publication_waits_for_every_realm(
    publication: RuntimePublication,
    event: PublicationEvent,
)
    requires
        publication.wf(),
    ensures
        publication_further(publication.binding(), publication.stage, event) matches Ok(next) ==> {
            let realms = publication.plan.realms;
            publication_rank(next, realms) is Some && publication_rank(
                publication.stage,
                realms,
            ) is Some ==> publication_rank(next, realms)->0 == publication_rank(
                publication.stage,
                realms,
            )->0 + 1
        },
        publication_further(publication.binding(), publication.stage, event) == Ok::<
            PublicationStage,
            RuntimePublicationError,
        >(PublicationStage::RevalidateComplete) && publication.plan.realms > 0 ==> {
            &&& publication.stage == PublicationStage::ReadRealmReport {
                index: (publication.plan.realms - 1) as u64,
                completed: (publication.plan.realms - 1) as u64,
            }
            &&& event == PublicationEvent::Found(true)
        },
        publication_further(publication.binding(), publication.stage, event) == Ok::<
            PublicationStage,
            RuntimePublicationError,
        >(PublicationStage::Publish) ==> publication.stage == PublicationStage::RevalidateComplete,
{
}

/// A head that says that all realms are ready is never answered with waiting: a
/// missing report is an error then.
pub proof fn law_ready_head_does_not_wait(
    publication: RuntimePublication,
    event: PublicationEvent,
)
    requires
        publication.wf(),
        publication.ready_selected,
        !(publication.stage is RevalidateIncomplete),
    ensures
        publication_further(publication.binding(), publication.stage, event) matches Ok(next) ==> !(
        next is RevalidateIncomplete) && !(next is AwaitingRealmReports),
{
}

/// What was reread is what the publication began with, and the topology still bears the
/// plan out.
pub open spec fn reread_as_begun(publication: RuntimePublication, event: PublicationEvent) -> bool {
    event matches PublicationEvent::Reread { plan, topology, .. } && plan@ == publication.plan@
        && (topology matches Some(topology) && topology.snapshot@ == publication.topology.snapshot@
        && topology.validates_plan)
}

/// A publication ends as published exactly if plan and topology were reread unchanged
/// and still valid, and the head that was published has the plan's target checkpoint.
pub proof fn law_published_exactly_at_the_target(
    publication: RuntimePublication,
    published: StoredHead,
    event: PublicationEvent,
)
    ensures
        publication_further(
            publication.binding(),
            PublicationStage::Publish,
            PublicationEvent::Published { published },
        ) matches Ok(next) && {
            let ended = publication_further(publication.binding(), next, event);
            let at_target = published.canonical.checkpoint == publication.plan.target.checkpoint;
            &&& ended == Ok::<_, RuntimePublicationError>(PublicationStage::Published) <==> at_target
                && reread_as_begun(publication, event)
            &&& ended is Ok ==> ended->Ok_0 is Published
            &&& event is Reread && ended is Err ==> if event->Reread_topology is None {
                ended->Err_0 is TopologyDisappearedAfter
            } else {
                ended->Err_0 is ChangedAcrossPublication
            }
        },
        publication.stage is Publish || publication.stage is RereadPublished || publication_further(
            publication.binding(),
            publication.stage,
            event,
        ) != Ok::<_, RuntimePublicationError>(PublicationStage::Published),
{
    let next = PublicationStage::RereadPublished {
        at_target: published.canonical.checkpoint == publication.plan.target.checkpoint,
    };
    if let PublicationEvent::Reread { head, plan, topology } = event {
        if let Some(topology) = topology {
            assert(rollback_participant::topology_view(Some(topology)) == Some(topology@));
        }
    }
}

/// A publication publishes, or reports how many realms have reported, only if the head,
/// the plan and the topology that it reread are those it began with.
pub proof fn law_nothing_is_decided_on_a_changed_head(
    publication: RuntimePublication,
    event: PublicationEvent,
)
    requires
        publication.stage is RevalidateComplete || publication.stage is RevalidateIncomplete,
    ensures
        ({
            let decided = publication_further(publication.binding(), publication.stage, event);
            let same_head = event matches PublicationEvent::Reread { head: Some(head), .. }
                && head@ == publication.current@;
            &&& decided is Ok <==> same_head && reread_as_begun(publication, event)
            &&& decided matches Ok(next) ==> if publication.stage is RevalidateComplete {
                next is Publish
            } else {
                next == (PublicationStage::AwaitingRealmReports {
                    completed: publication.stage->RevalidateIncomplete_completed,
                    expected: publication.plan.realms,
                })
            }
            &&& event is Reread && decided is Err ==> if event->Reread_head is None {
                decided->Err_0 is HeadMissing
            } else if event->Reread_topology is None {
                decided->Err_0 is TopologyDisappearedDuring
            } else {
                decided->Err_0 is ChangedDuringSelection
            }
        }),
{
    if let PublicationEvent::Reread { head, plan, topology } = event {
        if let Some(topology) = topology {
            assert(rollback_participant::topology_view(Some(topology)) == Some(topology@));
        }
        if let Some(head) = head {
            assert(head_view(Some(head)) == Some(head@));
        }
    }
}

/// The reports of the realms are counted in plan order: one that is there counts, one
/// that is not does not. Once all were read, the publication goes on if every one was
/// there, waits if one was not, and refuses where the head says that all are ready.
pub proof fn law_reports_are_counted_realm_by_realm(
    publication: RuntimePublication,
    index: u64,
    completed: u64,
    found: bool,
)
    requires
        index < publication.plan.realms,
        completed <= index,
    ensures
        match publication_further(
            publication.binding(),
            PublicationStage::ReadRealmDirective { index, completed },
            PublicationEvent::Found(found),
        ) {
            Ok(next) => found && next == (PublicationStage::ReadRealmReport { index, completed }),
            Err(error) => !found && error is RealmDirectiveMissing,
        },
        ({
            let counted = completed + if found { 1int } else { 0int };
            let next = publication_further(
                publication.binding(),
                PublicationStage::ReadRealmReport { index, completed },
                PublicationEvent::Found(found),
            );
            if index + 1 < publication.plan.realms {
                &&& next is Ok
                &&& next->Ok_0 is ReadRealmDirective
                &&& next->Ok_0->ReadRealmDirective_index == index + 1
                &&& next->Ok_0->ReadRealmDirective_completed == counted
            } else if counted == publication.plan.realms {
                next is Ok && next->Ok_0 is RevalidateComplete
            } else if publication.ready_selected {
                next is Err && next->Err_0 is ReadyWithoutRealmReport
            } else {
                &&& next is Ok
                &&& next->Ok_0 is RevalidateIncomplete
                &&& next->Ok_0->RevalidateIncomplete_completed == counted
            }
        }),
{
}

/// Before the realms are read, the Coordinator's directive has to be there, the restore
/// barrier has to count the realms of the plan, and the Coordinator's report has to be
/// there. Each that fails is answered with its own error.
pub proof fn law_publication_rests_on_the_coordinator(
    publication: RuntimePublication,
    found: bool,
    realm_count: u64,
)
    ensures
        match publication_further(
            publication.binding(),
            PublicationStage::ReadCoordinatorDirective,
            PublicationEvent::Found(found),
        ) {
            Ok(next) => found && next is ReadRestoreBarrier,
            Err(error) => !found && error is CoordinatorDirectiveMissing,
        },
        match publication_further(
            publication.binding(),
            PublicationStage::ReadRestoreBarrier,
            PublicationEvent::RestoreBarrier { realm_count },
        ) {
            Ok(next) => realm_count == publication.plan.realms && next is ReadCoordinatorReport,
            Err(error) => realm_count != publication.plan.realms && error is RealmCountDiffers,
        },
        match publication_further(
            publication.binding(),
            PublicationStage::ReadCoordinatorReport,
            PublicationEvent::Found(found),
        ) {
            Ok(next) => found && if publication.plan.realms == 0 {
                next is RevalidateComplete
            } else {
                next == (PublicationStage::ReadRealmDirective { index: 0, completed: 0 })
            },
            Err(error) => !found && error is CoordinatorReportMissing,
        },
{
}

/// A head is selected exactly if the topology is there and bears the plan out and the
/// head is the verifying head of the plan's rollback or the one behind its realm
/// barrier. Which of the two it is decides whether all realms count as ready.
pub proof fn law_selected_heads(
    current: StoredHeadModel,
    topology: Option<TopologyModel>,
    verifying: StoredHeadModel,
    all_ready: StoredHeadModel,
)
    ensures
        match selected_head(current, topology, Ok(verifying), Ok(all_ready)) {
            Ok(ready) => {
                &&& topology matches Some(topology) && topology.validates_plan
                &&& if ready {
                    current == all_ready
                } else {
                    current == verifying && current != all_ready
                }
            },
            Err(error) => match topology {
                None => error is TopologyMissing,
                Some(topology) => if topology.validates_plan {
                    error is NotSelectedHead && current != verifying && current != all_ready
                } else {
                    error is TopologyChangedBefore
                },
            },
        },
{
}

/// A failed step ends the publication with its own reason, and a publication that has
/// ended takes no further step.
pub proof fn law_failed_step_ends_the_publication(publication: RuntimePublication, reason: String)
    ensures
        match publication_further(
            publication.binding(),
            publication.stage,
            PublicationEvent::Failed(reason),
        ) {
            Ok(_) => false,
            Err(error) => if publication.stage is AwaitingRealmReports || publication.stage
                is Published {
                error is OutOfOrder
            } else {
                error == RuntimePublicationError::Backend(reason)
            },
        },
{
}

/// The request that a head has under way.
pub open spec fn request_found(
    head: Option<StoredHead>,
    result: Result<RollbackRequest, RuntimePublicationError>,
) -> bool {
    result == (match head {
        None => Err::<RollbackRequest, _>(RuntimePublicationError::HeadMissing),
        Some(head) => match head.control.spec_requested() {
            None => Err(RuntimePublicationError::NoActiveRollback),
            Some(request) => Ok(request),
        },
    })
}

/// A head has a request under way exactly if it is there and not idle, and it is the
/// request that its state carries.
pub proof fn law_active_head_has_its_request(
    head: Option<StoredHead>,
    result: Result<RollbackRequest, RuntimePublicationError>,
)
    requires
        request_found(head, result),
    ensures
        head is None ==> result is Err && result->Err_0 is HeadMissing,
        head matches Some(head) ==> if head.control is Idle {
            result is Err && result->Err_0 is NoActiveRollback
        } else {
            result is Ok && Some(result->Ok_0) == head.control.spec_requested()
        },
{
}

} // verus!
