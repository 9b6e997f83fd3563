//! The Coordinator's driver of the distributed rollback barriers.
//!
//! The Coordinator owns the global phase and its own tables. Every realm writes its
//! own immutable completions; this driver only selects them, in the order of the
//! persisted participant plan. It says which outside step comes next and what every
//! outcome decides.

use vstd::prelude::*;

use crate::model::RollbackControlState;

verus! {

#[derive(Clone, Debug, PartialEq, Eq)]
pub enum GlobalProgressError {
    HeadUninitialized,
    RequestMissing,
    RealmArchiveDisappeared,
    CoordinatorDeleteCompletionMissing,
    DeleteBarrierMissing,
    RealmArchiveMissing,
    RealmDeleteMissing,
    HeadDisappeared,
    Backend(String),
    /// The outcome belongs to another step than the one that was asked for.
    OutOfOrder,
}

impl GlobalProgressError {
    /// The error in words.
    pub open spec fn spec_message(self) -> Seq<char> {
        match self {
            GlobalProgressError::HeadUninitialized => "Coordinator canonical head is uninitialized"@,
            GlobalProgressError::RequestMissing => "ARCHIVING head has no rollback request"@,
            GlobalProgressError::RealmArchiveDisappeared => {
                "planned Realm archive completion disappeared"@
            },
            GlobalProgressError::CoordinatorDeleteCompletionMissing => {
                "Coordinator delete completion is missing"@
            },
            GlobalProgressError::DeleteBarrierMissing => "global delete barrier is missing"@,
            GlobalProgressError::RealmArchiveMissing => {
                "planned Realm archive completion is missing"@
            },
            GlobalProgressError::RealmDeleteMissing => {
                "planned Realm delete completion is missing"@
            },
            GlobalProgressError::HeadDisappeared => {
                "Coordinator canonical head disappeared after restore barrier"@
            },
            GlobalProgressError::Backend(reason) => reason@,
            GlobalProgressError::OutOfOrder => "rollback step out of order"@,
        }
    }

    pub fn message(&self) -> (message: String)
        ensures
            message@ == self.spec_message(),
    {
        match self {
            GlobalProgressError::HeadUninitialized => {
                "Coordinator canonical head is uninitialized".to_owned()
            },
            GlobalProgressError::RequestMissing => {
                "ARCHIVING head has no rollback request".to_owned()
            },
            GlobalProgressError::RealmArchiveDisappeared => {
                "planned Realm archive completion disappeared".to_owned()
            },
            GlobalProgressError::CoordinatorDeleteCompletionMissing => {
                "Coordinator delete completion is missing".to_owned()
            },
            GlobalProgressError::DeleteBarrierMissing => {
                "global delete barrier is missing".to_owned()
            },
            GlobalProgressError::RealmArchiveMissing => {
                "planned Realm archive completion is missing".to_owned()
            },
            GlobalProgressError::RealmDeleteMissing => {
                "planned Realm delete completion is missing".to_owned()
            },
            GlobalProgressError::HeadDisappeared => {
                "Coordinator canonical head disappeared after restore barrier".to_owned()
            },
            GlobalProgressError::Backend(reason) => reason.clone(),
            GlobalProgressError::OutOfOrder => "rollback step out of order".to_owned(),
        }
    }
}

/// Which of the heads that a round has seen its progress reports.
#[derive(Clone, Copy, Debug, PartialEq, Eq, Structural)]
pub enum ProgressHead {
    Initial,
    Deleting,
    Restoring,
    Current,
}

/// What a round has come to.
#[derive(Clone, Copy, Debug, PartialEq, Eq, Structural)]
pub enum CoordinatorRollbackGlobalProgress {
    Progressed { head: ProgressHead },
    ReadyForRuntimeRebuild,
    AwaitingParticipants { head: ProgressHead, completed: u64, expected: u64 },
}

/// What a round waits for. `realms` is the number of realms in the participant plan,
/// `index` counts them in plan order.
#[derive(Clone, Copy, Debug, PartialEq, Eq, Structural)]
pub enum GlobalProgressStage {
    ReadHead,
    /// Cross the global archive barrier, or recover what crossed it.
    BeginDelete,
    ReadPlanForCount,
    CountRealmArchive { index: u64, realms: u64, completed: u64 },
    ExecuteCoordinatorDelete { realms: u64 },
    SelectRealmArchive { index: u64, realms: u64 },
    ReadRealmDelete { index: u64, realms: u64 },
    PersistDeleteBarrier { realms: u64 },
    BeginRestoring { realms: u64 },
    ReadDeletingAuthority,
    ReadCoordinatorDelete { realms: u64 },
    ReadDeleteBarrier { realms: u64 },
    RestoreRealmArchive { index: u64, realms: u64 },
    RestoreRealmDelete { index: u64, realms: u64 },
    SelectRestore { index: u64, realms: u64, completed: u64 },
    ReadRealmRestore { index: u64, realms: u64, completed: u64 },
    PersistAndBeginVerifying { realms: u64 },
    ReadHeadAfterRestore { realms: u64 },
    Finished { progress: CoordinatorRollbackGlobalProgress },
}

/// What came of a step.
#[derive(Clone, Debug, PartialEq, Eq)]
pub enum GlobalProgressEvent {
    Failed(String),
    Done,
    /// The current head's rollback state, or no head.
    Head(Option<RollbackControlState>),
    /// The rollback is deleting, under a plan with so many realms.
    Deleting { realms: u64 },
    /// A planned participant has not archived yet. `requested` is whether the head
    /// carries a request.
    ParticipantMissing { requested: bool },
    Plan { realms: u64 },
    /// Whether the row that was asked for is there.
    Found(bool),
}

/// Where a round goes from the rollback state of the current head.
pub open spec fn from_control(control: RollbackControlState) -> GlobalProgressStage {
    match control {
        RollbackControlState::Idle
        | RollbackControlState::Requested(_)
        | RollbackControlState::Aborting(_) => GlobalProgressStage::Finished {
            progress: CoordinatorRollbackGlobalProgress::Progressed { head: ProgressHead::Initial },
        },
        RollbackControlState::Verifying(_)
        | RollbackControlState::AllRealmsReady(_) => GlobalProgressStage::Finished {
            progress: CoordinatorRollbackGlobalProgress::ReadyForRuntimeRebuild,
        },
        RollbackControlState::Restoring(_) => GlobalProgressStage::ReadDeletingAuthority,
        RollbackControlState::Archiving(_)
        | RollbackControlState::ArchiveBarrierReady(_)
        | RollbackControlState::Deleting(_) => GlobalProgressStage::BeginDelete,
    }
}

/// The next realm to count, or the count: the Coordinator's own archive is there
/// before this driver runs.
pub open spec fn count_stage(index: u64, realms: u64, completed: u64) -> GlobalProgressStage {
    if index < realms {
        GlobalProgressStage::CountRealmArchive { index, realms, completed }
    } else {
        GlobalProgressStage::Finished {
            progress: CoordinatorRollbackGlobalProgress::AwaitingParticipants {
                head: ProgressHead::Initial,
                completed,
                expected: (realms + 1) as u64,
            },
        }
    }
}

pub open spec fn select_stage(index: u64, realms: u64) -> GlobalProgressStage {
    if index < realms {
        GlobalProgressStage::SelectRealmArchive { index, realms }
    } else {
        GlobalProgressStage::PersistDeleteBarrier { realms }
    }
}

pub open spec fn restore_stage(index: u64, realms: u64, completed: u64) -> GlobalProgressStage {
    if index < realms {
        GlobalProgressStage::SelectRestore { index, realms, completed }
    } else if completed != realms {
        GlobalProgressStage::Finished {
            progress: CoordinatorRollbackGlobalProgress::AwaitingParticipants {
                head: ProgressHead::Initial,
                completed,
                expected: realms,
            },
        }
    } else {
        GlobalProgressStage::PersistAndBeginVerifying { realms }
    }
}

pub open spec fn restore_reads_stage(index: u64, realms: u64) -> GlobalProgressStage {
    if index < realms {
        GlobalProgressStage::RestoreRealmArchive { index, realms }
    } else {
        restore_stage(0, realms, 0)
    }
}

/// Where an outcome leads, or how it ends the round.
pub open spec fn progressed_further(stage: GlobalProgressStage, event: GlobalProgressEvent) -> Result<
    GlobalProgressStage,
    GlobalProgressError,
> {
    match (stage, event) {
        (GlobalProgressStage::Finished { .. }, _) => Err(GlobalProgressError::OutOfOrder),
        (_, GlobalProgressEvent::Failed(reason)) => Err(GlobalProgressError::Backend(reason)),
        (GlobalProgressStage::ReadHead, GlobalProgressEvent::Head(head)) => match head {
            None => Err(GlobalProgressError::HeadUninitialized),
            Some(control) => Ok(from_control(control)),
        },
        (GlobalProgressStage::BeginDelete, GlobalProgressEvent::Deleting { realms }) => Ok(
            GlobalProgressStage::ExecuteCoordinatorDelete { realms },
        ),
        (GlobalProgressStage::BeginDelete, GlobalProgressEvent::ParticipantMissing { requested }) => {
            if requested {
                Ok(GlobalProgressStage::ReadPlanForCount)
            } else {
                Err(GlobalProgressError::RequestMissing)
            }
        },
        (GlobalProgressStage::ReadPlanForCount, GlobalProgressEvent::Plan { realms }) => Ok(
            count_stage(0, realms, 1),
        ),
        (
            GlobalProgressStage::CountRealmArchive { index, realms, completed },
            GlobalProgressEvent::Found(found),
        ) => Ok(
            count_stage(
                (index + 1) as u64,
                realms,
                if found {
                    (completed + 1) as u64
                } else {
                    completed
                },
            ),
        ),
        (
            GlobalProgressStage::ExecuteCoordinatorDelete { realms },
            GlobalProgressEvent::Done,
        ) => Ok(select_stage(0, realms)),
        (
            GlobalProgressStage::SelectRealmArchive { index, realms },
            GlobalProgressEvent::Found(found),
        ) => if found {
            Ok(GlobalProgressStage::ReadRealmDelete { index, realms })
        } else {
            Err(GlobalProgressError::RealmArchiveDisappeared)
        },
        (
            GlobalProgressStage::ReadRealmDelete { index, realms },
            GlobalProgressEvent::Found(found),
        ) => if found {
            Ok(select_stage((index + 1) as u64, realms))
        } else {
            Ok(
                GlobalProgressStage::Finished {
                    progress: CoordinatorRollbackGlobalProgress::AwaitingParticipants {
                        head: ProgressHead::Deleting,
                        completed: (index + 1) as u64,
                        expected: (realms + 1) as u64,
                    },
                },
            )
        },
        (GlobalProgressStage::PersistDeleteBarrier { realms }, GlobalProgressEvent::Done) => Ok(
            GlobalProgressStage::BeginRestoring { realms },
        ),
        (GlobalProgressStage::BeginRestoring { .. }, GlobalProgressEvent::Done) => Ok(
            GlobalProgressStage::Finished {
                progress: CoordinatorRollbackGlobalProgress::Progressed {
                    head: ProgressHead::Restoring,
                },
            },
        ),
        (GlobalProgressStage::ReadDeletingAuthority, GlobalProgressEvent::Deleting { realms }) => {
            Ok(GlobalProgressStage::ReadCoordinatorDelete { realms })
        },
        (
            GlobalProgressStage::ReadCoordinatorDelete { realms },
            GlobalProgressEvent::Found(found),
        ) => if found {
            Ok(GlobalProgressStage::ReadDeleteBarrier { realms })
        } else {
            Err(GlobalProgressError::CoordinatorDeleteCompletionMissing)
        },
        (
            GlobalProgressStage::ReadDeleteBarrier { realms },
            GlobalProgressEvent::Found(found),
        ) => if found {
            Ok(restore_reads_stage(0, realms))
        } else {
            Err(GlobalProgressError::DeleteBarrierMissing)
        },
        (
            GlobalProgressStage::RestoreRealmArchive { index, realms },
            GlobalProgressEvent::Found(found),
        ) => if found {
            Ok(GlobalProgressStage::RestoreRealmDelete { index, realms })
        } else {
            Err(GlobalProgressError::RealmArchiveMissing)
        },
        (
            GlobalProgressStage::RestoreRealmDelete { index, realms },
            GlobalProgressEvent::Found(found),
        ) => if found {
            Ok(restore_reads_stage((index + 1) as u64, realms))
        } else {
            Err(GlobalProgressError::RealmDeleteMissing)
        },
        (
            GlobalProgressStage::SelectRestore { index, realms, completed },
            GlobalProgressEvent::Done,
        ) => Ok(GlobalProgressStage::ReadRealmRestore { index, realms, completed }),
        (
            GlobalProgressStage::ReadRealmRestore { index, realms, completed },
            GlobalProgressEvent::Found(found),
        ) => Ok(
            restore_stage(
                (index + 1) as u64,
                realms,
                if found {
                    (completed + 1) as u64
                } else {
                    completed
                },
            ),
        ),
        (
            GlobalProgressStage::PersistAndBeginVerifying { realms },
            GlobalProgressEvent::Done,
        ) => Ok(GlobalProgressStage::ReadHeadAfterRestore { realms }),
        (
            GlobalProgressStage::ReadHeadAfterRestore { .. },
            GlobalProgressEvent::Head(head),
        ) => match head {
            None => Err(GlobalProgressError::HeadDisappeared),
            Some(_) => Ok(
                GlobalProgressStage::Finished {
                    progress: CoordinatorRollbackGlobalProgress::Progressed {
                        head: ProgressHead::Current,
                    },
                },
            ),
        },
        _ => Err(GlobalProgressError::OutOfOrder),
    }
}

/// The number of realms that a stage knows.
pub open spec fn realms_of(stage: GlobalProgressStage) -> Option<u64> {
    match stage {
        GlobalProgressStage::CountRealmArchive { realms, .. }
        | GlobalProgressStage::ExecuteCoordinatorDelete { realms }
        | GlobalProgressStage::SelectRealmArchive { realms, .. }
        | GlobalProgressStage::ReadRealmDelete { realms, .. }
        | GlobalProgressStage::PersistDeleteBarrier { realms }
        | GlobalProgressStage::BeginRestoring { realms }
        | GlobalProgressStage::ReadCoordinatorDelete { realms }
        | GlobalProgressStage::ReadDeleteBarrier { realms }
        | GlobalProgressStage::RestoreRealmArchive { realms, .. }
        | GlobalProgressStage::RestoreRealmDelete { realms, .. }
        | GlobalProgressStage::SelectRestore { realms, .. }
        | GlobalProgressStage::ReadRealmRestore { realms, .. }
        | GlobalProgressStage::PersistAndBeginVerifying { realms }
        | GlobalProgressStage::ReadHeadAfterRestore { realms } => Some(realms),
        _ => None,
    }
}

/// A stage counts within its plan, and has counted no more than it has passed.
pub open spec fn stage_wf(stage: GlobalProgressStage) -> bool {
    &&& realms_of(stage) matches Some(realms) ==> realms < u64::MAX
    &&& match stage {
        GlobalProgressStage::CountRealmArchive { index, realms, completed } => index < realms
            && 1 <= completed <= index + 1,
        GlobalProgressStage::SelectRealmArchive { index, realms } => index < realms,
        GlobalProgressStage::ReadRealmDelete { index, realms } => index < realms,
        GlobalProgressStage::RestoreRealmArchive { index, realms } => index < realms,
        GlobalProgressStage::RestoreRealmDelete { index, realms } => index < realms,
        GlobalProgressStage::SelectRestore { index, realms, completed } => index < realms
            && completed <= index,
        GlobalProgressStage::ReadRealmRestore { index, realms, completed } => index < realms
            && completed <= index,
        _ => true,
    }
}

/// A plan that a step reports has fewer realms than a counter can hold.
pub open spec fn event_wf(event: GlobalProgressEvent) -> bool {
    match event {
        GlobalProgressEvent::Deleting { realms } | GlobalProgressEvent::Plan { realms } => realms
            < u64::MAX,
        _ => true,
    }
}

fn start(control: RollbackControlState) -> (stage: GlobalProgressStage)
    ensures
        stage == from_control(control),
{
    match control {
        RollbackControlState::Idle
        | RollbackControlState::Requested(_)
        | RollbackControlState::Aborting(_) => GlobalProgressStage::Finished {
            progress: CoordinatorRollbackGlobalProgress::Progressed { head: ProgressHead::Initial },
        },
        RollbackControlState::Verifying(_)
        | RollbackControlState::AllRealmsReady(_) => GlobalProgressStage::Finished {
            progress: CoordinatorRollbackGlobalProgress::ReadyForRuntimeRebuild,
        },
        RollbackControlState::Restoring(_) => GlobalProgressStage::ReadDeletingAuthority,
        RollbackControlState::Archiving(_)
        | RollbackControlState::ArchiveBarrierReady(_)
        | RollbackControlState::Deleting(_) => GlobalProgressStage::BeginDelete,
    }
}

fn count(index: u64, realms: u64, completed: u64) -> (stage: GlobalProgressStage)
    requires
        realms < u64::MAX,
    ensures
        stage == count_stage(index, realms, completed),
{
    if index < realms {
        GlobalProgressStage::CountRealmArchive { index, realms, completed }
    } else {
        GlobalProgressStage::Finished {
            progress: CoordinatorRollbackGlobalProgress::AwaitingParticipants {
                head: ProgressHead::Initial,
                completed,
                expected: realms + 1,
            },
        }
    }
}

fn select(index: u64, realms: u64) -> (stage: GlobalProgressStage)
    ensures
        stage == select_stage(index, realms),
{
    if index < realms {
        GlobalProgressStage::SelectRealmArchive { index, realms }
    } else {
        GlobalProgressStage::PersistDeleteBarrier { realms }
    }
}

fn restore(index: u64, realms: u64, completed: u64) -> (stage: GlobalProgressStage)
    ensures
        stage == restore_stage(index, realms, completed),
{
    if index < realms {
        GlobalProgressStage::SelectRestore { index, realms, completed }
    } else if completed != realms {
        GlobalProgressStage::Finished {
            progress: CoordinatorRollbackGlobalProgress::AwaitingParticipants {
                head: ProgressHead::Initial,
                completed,
                expected: realms,
            },
        }
    } else {
        GlobalProgressStage::PersistAndBeginVerifying { realms }
    }
}

fn restore_reads(index: u64, realms: u64) -> (stage: GlobalProgressStage)
    ensures
        stage == restore_reads_stage(index, realms),
{
    if index < realms {
        GlobalProgressStage::RestoreRealmArchive { index, realms }
    } else {
        restore(0, realms, 0)
    }
}

fn progress_restoring(stage: GlobalProgressStage, event: GlobalProgressEvent) -> (result: Result<
    GlobalProgressStage,
    GlobalProgressError,
>)
    requires
        stage_wf(stage),
        event_wf(event),
        !(event is Failed),
        match stage {
            GlobalProgressStage::ReadDeletingAuthority
            | GlobalProgressStage::ReadCoordinatorDelete { .. }
            | GlobalProgressStage::ReadDeleteBarrier { .. }
            | GlobalProgressStage::RestoreRealmArchive { .. }
            | GlobalProgressStage::RestoreRealmDelete { .. }
            | GlobalProgressStage::SelectRestore { .. }
            | GlobalProgressStage::ReadRealmRestore { .. }
            | GlobalProgressStage::PersistAndBeginVerifying { .. }
            | GlobalProgressStage::ReadHeadAfterRestore { .. } => true,
            _ => false,
        },
    ensures
        result == progressed_further(stage, event),
        result matches Ok(next) ==> stage_wf(next),
{
    match (stage, event) {
        (GlobalProgressStage::ReadDeletingAuthority, GlobalProgressEvent::Deleting { realms }) => {
            Ok(GlobalProgressStage::ReadCoordinatorDelete { realms })
        },
        (
            GlobalProgressStage::ReadCoordinatorDelete { realms },
            GlobalProgressEvent::Found(found),
        ) => if found {
            Ok(GlobalProgressStage::ReadDeleteBarrier { realms })
        } else {
            Err(GlobalProgressError::CoordinatorDeleteCompletionMissing)
        },
        (
            GlobalProgressStage::ReadDeleteBarrier { realms },
            GlobalProgressEvent::Found(found),
        ) => if found {
            Ok(restore_reads(0, realms))
        } else {
            Err(GlobalProgressError::DeleteBarrierMissing)
        },
        (
            GlobalProgressStage::RestoreRealmArchive { index, realms },
            GlobalProgressEvent::Found(found),
        ) => if found {
            Ok(GlobalProgressStage::RestoreRealmDelete { index, realms })
        } else {
            Err(GlobalProgressError::RealmArchiveMissing)
        },
        (
            GlobalProgressStage::RestoreRealmDelete { index, realms },
            GlobalProgressEvent::Found(found),
        ) => if found {
            Ok(restore_reads(index + 1, realms))
        } else {
            Err(GlobalProgressError::RealmDeleteMissing)
        },
        (
            GlobalProgressStage::SelectRestore { index, realms, completed },
            GlobalProgressEvent::Done,
        ) => Ok(GlobalProgressStage::ReadRealmRestore { index, realms, completed }),
        (
            GlobalProgressStage::ReadRealmRestore { index, realms, completed },
            GlobalProgressEvent::Found(found),
        ) => {
            let counted: u64 = if found {
                completed + 1
            } else {
                completed
            };
            Ok(restore(index + 1, realms, counted))
        },
        (
            GlobalProgressStage::PersistAndBeginVerifying { realms },
            GlobalProgressEvent::Done,
        ) => Ok(GlobalProgressStage::ReadHeadAfterRestore { realms }),
        (
            GlobalProgressStage::ReadHeadAfterRestore { .. },
            GlobalProgressEvent::Head(head),
        ) => match head {
            None => Err(GlobalProgressError::HeadDisappeared),
            Some(_) => Ok(
                GlobalProgressStage::Finished {
                    progress: CoordinatorRollbackGlobalProgress::Progressed {
                        head: ProgressHead::Current,
                    },
                },
            ),
        },
        _ => Err(GlobalProgressError::OutOfOrder),
    }
}

/// Takes the outcome of the step that was asked for.
pub fn progress_coordinator_global_rollback(
    stage: GlobalProgressStage,
    event: GlobalProgressEvent,
) -> (result: Result<GlobalProgressStage, GlobalProgressError>)
    requires
        stage_wf(stage),
        event_wf(event),
    ensures
        result == progressed_further(stage, event),
        result matches Ok(next) ==> stage_wf(next),
{
    match (stage, event) {
        (GlobalProgressStage::Finished { .. }, _) => Err(GlobalProgressError::OutOfOrder),
        (_, GlobalProgressEvent::Failed(reason)) => Err(GlobalProgressError::Backend(reason)),
        (GlobalProgressStage::ReadHead, GlobalProgressEvent::Head(head)) => match head {
            None => Err(GlobalProgressError::HeadUninitialized),
            Some(control) => Ok(start(control)),
        },
        (GlobalProgressStage::BeginDelete, GlobalProgressEvent::Deleting { realms }) => Ok(
            GlobalProgressStage::ExecuteCoordinatorDelete { realms },
        ),
        (GlobalProgressStage::BeginDelete, GlobalProgressEvent::ParticipantMissing { requested }) => {
            if requested {
                Ok(GlobalProgressStage::ReadPlanForCount)
            } else {
                Err(GlobalProgressError::RequestMissing)
            }
        },
        (GlobalProgressStage::ReadPlanForCount, GlobalProgressEvent::Plan { realms }) => Ok(
            count(0, realms, 1),
        ),
        (
            GlobalProgressStage::CountRealmArchive { index, realms, completed },
            GlobalProgressEvent::Found(found),
        ) => {
            let counted: u64 = if found {
                completed + 1
            } else {
                completed
            };
            Ok(count(index + 1, realms, counted))
        },
        (
            GlobalProgressStage::ExecuteCoordinatorDelete { realms },
            GlobalProgressEvent::Done,
        ) => Ok(select(0, realms)),
        (
            GlobalProgressStage::SelectRealmArchive { index, realms },
            GlobalProgressEvent::Found(found),
        ) => if found {
            Ok(GlobalProgressStage::ReadRealmDelete { index, realms })
        } else {
            Err(GlobalProgressError::RealmArchiveDisappeared)
        },
        (
            GlobalProgressStage::ReadRealmDelete { index, realms },
            GlobalProgressEvent::Found(found),
        ) => if found {
            Ok(select(index + 1, realms))
        } else {
            Ok(
                GlobalProgressStage::Finished {
                    progress: CoordinatorRollbackGlobalProgress::AwaitingParticipants {
                        head: ProgressHead::Deleting,
                        completed: index + 1,
                        expected: realms + 1,
                    },
                },
            )
        },
        (GlobalProgressStage::PersistDeleteBarrier { realms }, GlobalProgressEvent::Done) => Ok(
            GlobalProgressStage::BeginRestoring { realms },
        ),
        (GlobalProgressStage::BeginRestoring { .. }, GlobalProgressEvent::Done) => Ok(
            GlobalProgressStage::Finished {
                progress: CoordinatorRollbackGlobalProgress::Progressed {
                    head: ProgressHead::Restoring,
                },
            },
        ),
        (
            GlobalProgressStage::ReadDeletingAuthority
            | GlobalProgressStage::ReadCoordinatorDelete { .. }
            | GlobalProgressStage::ReadDeleteBarrier { .. }
            | GlobalProgressStage::RestoreRealmArchive { .. }
            | GlobalProgressStage::RestoreRealmDelete { .. }
            | GlobalProgressStage::SelectRestore { .. }
            | GlobalProgressStage::ReadRealmRestore { .. }
            | GlobalProgressStage::PersistAndBeginVerifying { .. }
            | GlobalProgressStage::ReadHeadAfterRestore { .. },
            event,
        ) => progress_restoring(stage, event),
        _ => Err(GlobalProgressError::OutOfOrder),
    }
}

/// Where a stage of the delete path stands.
pub open spec fn delete_rank(stage: GlobalProgressStage) -> Option<int> {
    match stage {
        GlobalProgressStage::ExecuteCoordinatorDelete { .. } => Some(0),
        GlobalProgressStage::SelectRealmArchive { index, .. } => Some(1 + 2 * index),
        GlobalProgressStage::ReadRealmDelete { index, .. } => Some(2 + 2 * index),
        GlobalProgressStage::PersistDeleteBarrier { realms } => Some(1 + 2 * realms),
        GlobalProgressStage::BeginRestoring { realms } => Some(2 + 2 * realms),
        _ => None,
    }
}

/// Where a stage of the restore path stands.
pub open spec fn restore_rank(stage: GlobalProgressStage) -> Option<int> {
    match stage {
        GlobalProgressStage::ReadDeletingAuthority => Some(0),
        GlobalProgressStage::ReadCoordinatorDelete { .. } => Some(1),
        GlobalProgressStage::ReadDeleteBarrier { .. } => Some(2),
        GlobalProgressStage::RestoreRealmArchive { index, .. } => Some(3 + 2 * index),
        GlobalProgressStage::RestoreRealmDelete { index, .. } => Some(4 + 2 * index),
        GlobalProgressStage::SelectRestore { index, realms, .. } => Some(3 + 2 * realms + 2 * index),
        GlobalProgressStage::ReadRealmRestore { index, realms, .. } => Some(
            4 + 2 * realms + 2 * index,
        ),
        GlobalProgressStage::PersistAndBeginVerifying { realms } => Some(3 + 4 * realms),
        GlobalProgressStage::ReadHeadAfterRestore { realms } => Some(4 + 4 * realms),
        _ => None,
    }
}

/// The delete path takes one step at a time: the archive of every realm is selected
/// before its deletion, every deletion before the delete barrier, and the barrier
/// before the restore begins. No step of it is skipped.
pub proof fn law_delete_barrier_waits_for_every_realm(
    stage: GlobalProgressStage,
    event: GlobalProgressEvent,
)
    requires
        stage_wf(stage),
        event_wf(event),
    ensures
        progressed_further(stage, event) matches Ok(next) ==> (delete_rank(next) is Some
            && delete_rank(stage) is Some ==> delete_rank(next)->0 == delete_rank(stage)->0 + 1
            && realms_of(next) == realms_of(stage)),
        progressed_further(stage, event) matches Ok(
            GlobalProgressStage::PersistDeleteBarrier { realms },
        ) ==> if realms == 0 {
            stage == GlobalProgressStage::ExecuteCoordinatorDelete { realms }
        } else {
            stage == (GlobalProgressStage::ReadRealmDelete { index: (realms - 1) as u64, realms })
                && event == GlobalProgressEvent::Found(true)
        },
        progressed_further(stage, event) == Ok::<GlobalProgressStage, GlobalProgressError>(
            GlobalProgressStage::Finished {
                progress: CoordinatorRollbackGlobalProgress::Progressed {
                    head: ProgressHead::Restoring,
                },
            },
        ) ==> stage is BeginRestoring,
{
}

/// The restore path takes one step at a time, and verifying begins only once the
/// restore of every planned realm has been selected and found.
pub proof fn law_verifying_waits_for_every_realm_restore(
    stage: GlobalProgressStage,
    event: GlobalProgressEvent,
)
    requires
        stage_wf(stage),
        event_wf(event),
    ensures
        progressed_further(stage, event) matches Ok(next) ==> (restore_rank(next) is Some
            && restore_rank(stage) is Some ==> restore_rank(next)->0 == restore_rank(stage)->0 + 1),
        progressed_further(stage, event) matches Ok(
            GlobalProgressStage::PersistAndBeginVerifying { realms },
        ) ==> if realms == 0 {
            stage == GlobalProgressStage::ReadDeleteBarrier { realms }
        } else {
            stage == (GlobalProgressStage::ReadRealmRestore {
                index: (realms - 1) as u64,
                realms,
                completed: (realms - 1) as u64,
            }) && event == GlobalProgressEvent::Found(true)
        },
{
}

/// A round on a head that is idle, requested or aborting deletes nothing and crosses
/// no barrier: it ends at once and reports the head as it is.
pub proof fn law_abort_and_request_are_left_alone(control: RollbackControlState)
    requires
        control is Idle || control is Requested || control is Aborting,
    ensures
        progressed_further(
            GlobalProgressStage::ReadHead,
            GlobalProgressEvent::Head(Some(control)),
        ) == Ok::<GlobalProgressStage, GlobalProgressError>(
            GlobalProgressStage::Finished {
                progress: CoordinatorRollbackGlobalProgress::Progressed {
                    head: ProgressHead::Initial,
                },
            },
        ),
{
}

/// What a round starts with is fixed by the phase of the head. It enters the restore
/// path only from a head that is restoring; a head that is archiving, has crossed the
/// archive barrier or is deleting leads to the deletion; a head that is verifying or has
/// every realm ready is reported as ready for the rebuild; any other head is reported as
/// it is; and without a head there is no round.
pub proof fn law_round_starts_with_the_phase_of_its_head(head: Option<RollbackControlState>)
    ensures
        ({
            let started = progressed_further(
                GlobalProgressStage::ReadHead,
                GlobalProgressEvent::Head(head),
            );
            &&& started is Err <==> head is None
            &&& head is None ==> started->Err_0 is HeadUninitialized
            &&& started matches Ok(next) ==> {
                let control = head->0;
                &&& next is ReadDeletingAuthority <==> control is Restoring
                &&& next is BeginDelete <==> control is Archiving || control is ArchiveBarrierReady
                    || control is Deleting
                &&& (next is Finished && next->progress is ReadyForRuntimeRebuild) <==> control
                    is Verifying || control is AllRealmsReady
                &&& (next is Finished && next->progress is Progressed) <==> control is Idle
                    || control is Requested || control is Aborting
                &&& next is Finished && next->progress is Progressed ==> next->progress->Progressed_head
                    is Initial
                &&& next is ReadDeletingAuthority || next is BeginDelete || (next is Finished
                    && !(next->progress is AwaitingParticipants))
            }
        }),
{
}

/// A realm whose archive is there is counted and one whose archive is not is passed
/// over, in plan order; the Coordinator's own archive counts as well. The count is
/// reported once every realm of the plan was looked at, out of the realms and the
/// Coordinator, with the head as the round found it.
pub proof fn law_archives_are_counted_realm_by_realm(
    index: u64,
    realms: u64,
    completed: u64,
    found: bool,
)
    requires
        index < realms < u64::MAX,
        1 <= completed <= index + 1,
    ensures
        progressed_further(GlobalProgressStage::ReadPlanForCount, GlobalProgressEvent::Plan { realms })
            == Ok::<GlobalProgressStage, GlobalProgressError>(
            GlobalProgressStage::CountRealmArchive { index: 0, realms, completed: 1 },
        ),
        progressed_further(
            GlobalProgressStage::ReadPlanForCount,
            GlobalProgressEvent::Plan { realms: 0 },
        ) == Ok::<GlobalProgressStage, GlobalProgressError>(
            GlobalProgressStage::Finished {
                progress: CoordinatorRollbackGlobalProgress::AwaitingParticipants {
                    head: ProgressHead::Initial,
                    completed: 1,
                    expected: 1,
                },
            },
        ),
        progressed_further(
            GlobalProgressStage::CountRealmArchive { index, realms, completed },
            GlobalProgressEvent::Found(found),
        ) matches Ok(next) && {
            let counted = completed + if found { 1int } else { 0int };
            if index + 1 < realms {
                next is CountRealmArchive && next->CountRealmArchive_index == index + 1
                    && next->CountRealmArchive_realms == realms
                    && next->CountRealmArchive_completed == counted
            } else {
                &&& next is Finished
                &&& next->progress is AwaitingParticipants
                &&& next->progress->AwaitingParticipants_head is Initial
                &&& next->progress->completed == counted
                &&& next->progress->expected == realms + 1
            }
        },
{
}

/// Realms restore in plan order, and each whose restore is there is counted. Once every
/// realm was looked at, verifying begins if all of them have restored; else the round
/// reports how many of the realms have.
pub proof fn law_restores_are_counted_realm_by_realm(
    index: u64,
    realms: u64,
    completed: u64,
    found: bool,
)
    requires
        index < realms < u64::MAX,
        completed <= index,
    ensures
        progressed_further(
            GlobalProgressStage::SelectRestore { index, realms, completed },
            GlobalProgressEvent::Done,
        ) == Ok::<GlobalProgressStage, GlobalProgressError>(
            GlobalProgressStage::ReadRealmRestore { index, realms, completed },
        ),
        progressed_further(
            GlobalProgressStage::ReadRealmRestore { index, realms, completed },
            GlobalProgressEvent::Found(found),
        ) matches Ok(next) && {
            let counted = completed + if found { 1int } else { 0int };
            if index + 1 < realms {
                next is SelectRestore && next->SelectRestore_index == index + 1
                    && next->SelectRestore_realms == realms && next->SelectRestore_completed
                    == counted
            } else if counted == realms {
                next is PersistAndBeginVerifying && next->PersistAndBeginVerifying_realms == realms
            } else {
                &&& next is Finished
                &&& next->progress is AwaitingParticipants
                &&& next->progress->AwaitingParticipants_head is Initial
                &&& next->progress->completed == counted
                &&& next->progress->expected == realms
            }
        },
        progressed_further(
            GlobalProgressStage::PersistAndBeginVerifying { realms },
            GlobalProgressEvent::Done,
        ) is Ok,
        progressed_further(
            GlobalProgressStage::ReadHeadAfterRestore { realms },
            GlobalProgressEvent::Head(None),
        ) == Err::<GlobalProgressStage, GlobalProgressError>(GlobalProgressError::HeadDisappeared),
        forall|control: RollbackControlState| #[trigger]
            progressed_further(
                GlobalProgressStage::ReadHeadAfterRestore { realms },
                GlobalProgressEvent::Head(Some(control)),
            ) == Ok::<GlobalProgressStage, GlobalProgressError>(
                GlobalProgressStage::Finished {
                    progress: CoordinatorRollbackGlobalProgress::Progressed {
                        head: ProgressHead::Current,
                    },
                },
            ),
{
}

/// Deletions are read back in plan order. A realm whose archive is gone ends the round
/// with an error. A realm that has not deleted yet ends it with the deletions so far:
/// the Coordinator's and those of the realms before it, of the realms and the
/// Coordinator.
pub proof fn law_deletions_are_counted_realm_by_realm(index: u64, realms: u64)
    requires
        index < realms < u64::MAX,
    ensures
        progressed_further(
            GlobalProgressStage::BeginDelete,
            GlobalProgressEvent::Deleting { realms },
        ) == Ok::<GlobalProgressStage, GlobalProgressError>(
            GlobalProgressStage::ExecuteCoordinatorDelete { realms },
        ),
        progressed_further(
            GlobalProgressStage::BeginDelete,
            GlobalProgressEvent::ParticipantMissing { requested: true },
        ) == Ok::<GlobalProgressStage, GlobalProgressError>(GlobalProgressStage::ReadPlanForCount),
        progressed_further(
            GlobalProgressStage::BeginDelete,
            GlobalProgressEvent::ParticipantMissing { requested: false },
        ) == Err::<GlobalProgressStage, GlobalProgressError>(GlobalProgressError::RequestMissing),
        progressed_further(
            GlobalProgressStage::ExecuteCoordinatorDelete { realms },
            GlobalProgressEvent::Done,
        ) == Ok::<GlobalProgressStage, GlobalProgressError>(
            GlobalProgressStage::SelectRealmArchive { index: 0, realms },
        ),
        progressed_further(
            GlobalProgressStage::SelectRealmArchive { index, realms },
            GlobalProgressEvent::Found(true),
        ) == Ok::<GlobalProgressStage, GlobalProgressError>(
            GlobalProgressStage::ReadRealmDelete { index, realms },
        ),
        progressed_further(
            GlobalProgressStage::SelectRealmArchive { index, realms },
            GlobalProgressEvent::Found(false),
        ) == Err::<GlobalProgressStage, GlobalProgressError>(
            GlobalProgressError::RealmArchiveDisappeared,
        ),
        progressed_further(
            GlobalProgressStage::ReadRealmDelete { index, realms },
            GlobalProgressEvent::Found(true),
        ) matches Ok(next) && if index + 1 < realms {
            next is SelectRealmArchive && next->SelectRealmArchive_index == index + 1
                && next->SelectRealmArchive_realms == realms
        } else {
            next is PersistDeleteBarrier && next->PersistDeleteBarrier_realms == realms
        },
        progressed_further(
            GlobalProgressStage::ReadRealmDelete { index, realms },
            GlobalProgressEvent::Found(false),
        ) matches Ok(next) && next is Finished && next->progress is AwaitingParticipants
            && next->progress->AwaitingParticipants_head is Deleting && next->progress->completed
            == index + 1 && next->progress->expected == realms + 1,
        progressed_further(
            GlobalProgressStage::PersistDeleteBarrier { realms },
            GlobalProgressEvent::Done,
        ) == Ok::<GlobalProgressStage, GlobalProgressError>(
            GlobalProgressStage::BeginRestoring { realms },
        ),
        progressed_further(
            GlobalProgressStage::BeginRestoring { realms },
            GlobalProgressEvent::Done,
        ) == Ok::<GlobalProgressStage, GlobalProgressError>(
            GlobalProgressStage::Finished {
                progress: CoordinatorRollbackGlobalProgress::Progressed {
                    head: ProgressHead::Restoring,
                },
            },
        ),
{
}

/// A restore begins only behind what the deletion left: the Coordinator's deletion, the
/// delete barrier, and of every realm its archive and its deletion. Whichever is not
/// there ends the round with its own error.
pub proof fn law_restore_rests_on_the_deletion(index: u64, realms: u64, found: bool)
    requires
        index < realms < u64::MAX,
    ensures
        progressed_further(
            GlobalProgressStage::ReadDeletingAuthority,
            GlobalProgressEvent::Deleting { realms },
        ) == Ok::<GlobalProgressStage, GlobalProgressError>(
            GlobalProgressStage::ReadCoordinatorDelete { realms },
        ),
        match progressed_further(
            GlobalProgressStage::ReadCoordinatorDelete { realms },
            GlobalProgressEvent::Found(found),
        ) {
            Ok(next) => found && next == GlobalProgressStage::ReadDeleteBarrier { realms },
            Err(error) => !found && error is CoordinatorDeleteCompletionMissing,
        },
        match progressed_further(
            GlobalProgressStage::ReadDeleteBarrier { realms },
            GlobalProgressEvent::Found(found),
        ) {
            Ok(next) => found && next == (GlobalProgressStage::RestoreRealmArchive {
                index: 0,
                realms,
            }),
            Err(error) => !found && error is DeleteBarrierMissing,
        },
        match progressed_further(
            GlobalProgressStage::RestoreRealmArchive { index, realms },
            GlobalProgressEvent::Found(found),
        ) {
            Ok(next) => found && next == (GlobalProgressStage::RestoreRealmDelete { index, realms }),
            Err(error) => !found && error is RealmArchiveMissing,
        },
        match progressed_further(
            GlobalProgressStage::RestoreRealmDelete { index, realms },
            GlobalProgressEvent::Found(found),
        ) {
            Ok(next) => found && if index + 1 < realms {
                next is RestoreRealmArchive && next->RestoreRealmArchive_index == index + 1
                    && next->RestoreRealmArchive_realms == realms
            } else {
                next == (GlobalProgressStage::SelectRestore { index: 0, realms, completed: 0 })
            },
            Err(error) => !found && error is RealmDeleteMissing,
        },
{
}

/// A failed step ends the round with its own reason, and a round that has ended takes no
/// further step.
pub proof fn law_failed_step_ends_the_round(stage: GlobalProgressStage, reason: String)
    ensures
        match progressed_further(stage, GlobalProgressEvent::Failed(reason)) {
            Ok(_) => false,
            Err(error) => if stage is Finished {
                error is OutOfOrder
            } else {
                error == GlobalProgressError::Backend(reason)
            },
        },
{
}

} // verus!
