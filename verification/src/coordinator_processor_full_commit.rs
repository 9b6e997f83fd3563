//! The two stages of a Coordinator commit: the full write, and its publication
//! behind a backup. Each stage is a fixed order of outside steps; this module says
//! which step comes next and what every outcome decides.

use vstd::prelude::*;

use crate::bytes::array_equal;
use crate::model::{
    AuthorityScope, BranchPendingMapping, CoordinatorCommitSource,
    CoordinatorCommitSourceCommitted, StoredHead, StoredHeadModel,
};

verus! {

#[derive(Clone, Debug, PartialEq, Eq)]
pub enum CoordinatorProcessorFullCommitError {
    IdentityMismatch,
    AwaitingVerifiedWrites,
    Backend(String),
    /// The outcome belongs to another step than the one that was asked for.
    OutOfOrder,
}

/// The state of the exact writer, as far as a commit reads it.
#[derive(Clone, Copy, Debug, PartialEq, Eq)]
pub enum BranchExactWriterState {
    Active { watermark: BranchPendingMapping },
    WritePrepared { predecessor: BranchPendingMapping },
    WritesVerified { predecessor: BranchPendingMapping },
    Other,
}

/// A commit store can be prepared for the Coordinator only, over a checkpoint tree,
/// and once a writer is there.
pub fn check_prepare(
    authority: AuthorityScope,
    checkpoint_tree_height: u8,
    writer_is_current: bool,
) -> (result: Result<(), CoordinatorProcessorFullCommitError>)
    ensures
        result == (if authority != AuthorityScope::Coordinator || checkpoint_tree_height == 0 {
            Err::<(), _>(CoordinatorProcessorFullCommitError::IdentityMismatch)
        } else if !writer_is_current {
            Err(CoordinatorProcessorFullCommitError::AwaitingVerifiedWrites)
        } else {
            Ok(())
        }),
{
    if authority != AuthorityScope::Coordinator || checkpoint_tree_height == 0 {
        Err(CoordinatorProcessorFullCommitError::IdentityMismatch)
    } else if !writer_is_current {
        Err(CoordinatorProcessorFullCommitError::AwaitingVerifiedWrites)
    } else {
        Ok(())
    }
}

/// The mapping that a new candidate follows.
pub open spec fn predecessor_of(state: BranchExactWriterState) -> Result<
    BranchPendingMapping,
    CoordinatorProcessorFullCommitError,
> {
    match state {
        BranchExactWriterState::Active { watermark } => Ok(watermark),
        BranchExactWriterState::WritePrepared { predecessor } => Ok(predecessor),
        BranchExactWriterState::WritesVerified { predecessor } => Ok(predecessor),
        BranchExactWriterState::Other => Err(
            CoordinatorProcessorFullCommitError::AwaitingVerifiedWrites,
        ),
    }
}

pub fn exact_predecessor(state: BranchExactWriterState) -> (result: Result<
    BranchPendingMapping,
    CoordinatorProcessorFullCommitError,
>)
    ensures
        result == predecessor_of(state),
{
    match state {
        BranchExactWriterState::Active { watermark } => Ok(watermark),
        BranchExactWriterState::WritePrepared { predecessor } => Ok(predecessor),
        BranchExactWriterState::WritesVerified { predecessor } => Ok(predecessor),
        BranchExactWriterState::Other => Err(
            CoordinatorProcessorFullCommitError::AwaitingVerifiedWrites,
        ),
    }
}

/// Which write plan a commit takes: behind a rollback every write is stamped above
/// the fence.
#[derive(Clone, Copy, Debug, PartialEq, Eq, Structural)]
pub enum WritePlanKind {
    Normal,
    AfterRollback { fence_us: i64, prepared_us: i64 },
}

pub fn plan_kind(prepared_us: i64, post_rollback_fence_us: Option<i64>) -> (kind: WritePlanKind)
    ensures
        kind == planned_kind(prepared_us, post_rollback_fence_us),
{
    match post_rollback_fence_us {
        Some(fence_us) => WritePlanKind::AfterRollback { fence_us, prepared_us },
        None => WritePlanKind::Normal,
    }
}

/// The steps of a full write.
#[derive(Clone, Copy, Debug, PartialEq, Eq)]
pub enum FullWriteStage {
    PersistSource,
    ReadWriter,
    PrepareAndVerify { predecessor: BranchPendingMapping },
    RequireFreshBarrier,
    ReadVerifiedWriter,
    PlanSchedule,
    WriteAndVerifyFull,
    PersistManifest,
    Written,
}

/// What is read to find out whether a commit is published already: the head, the
/// candidate's source and marker, and the writer. What stands behind an answer that
/// the reads before it have settled is not looked at.
#[derive(Clone, Debug, PartialEq, Eq)]
pub struct PublicationEvidence {
    pub head: Option<StoredHead>,
    pub persisted: Option<CoordinatorCommitSource>,
    pub committed: Option<CoordinatorCommitSourceCommitted>,
    pub writer: BranchExactWriterState,
}

/// What came of a step.
#[derive(Clone, Debug, PartialEq, Eq)]
pub enum CommitEvent {
    Failed(String),
    Done,
    Writer(BranchExactWriterState),
    /// What was found of an earlier publication.
    Found(PublicationEvidence),
    /// The head that a publication has stored.
    HeadPublished(StoredHead),
}

pub open spec fn written_further(stage: FullWriteStage, event: CommitEvent) -> Result<
    FullWriteStage,
    CoordinatorProcessorFullCommitError,
> {
    match (stage, event) {
        (FullWriteStage::Written, _) => Err(CoordinatorProcessorFullCommitError::OutOfOrder),
        (_, CommitEvent::Failed(reason)) => Err(
            CoordinatorProcessorFullCommitError::Backend(reason),
        ),
        (FullWriteStage::PersistSource, CommitEvent::Done) => Ok(FullWriteStage::ReadWriter),
        (FullWriteStage::ReadWriter, CommitEvent::Writer(state)) => match predecessor_of(state) {
            Err(error) => Err(error),
            Ok(predecessor) => Ok(FullWriteStage::PrepareAndVerify { predecessor }),
        },
        (FullWriteStage::PrepareAndVerify { .. }, CommitEvent::Done) => Ok(
            FullWriteStage::RequireFreshBarrier,
        ),
        (FullWriteStage::RequireFreshBarrier, CommitEvent::Done) => Ok(
            FullWriteStage::ReadVerifiedWriter,
        ),
        (FullWriteStage::ReadVerifiedWriter, CommitEvent::Writer(state)) => {
            if state is WritesVerified {
                Ok(FullWriteStage::PlanSchedule)
            } else {
                Err(CoordinatorProcessorFullCommitError::AwaitingVerifiedWrites)
            }
        },
        (FullWriteStage::PlanSchedule, CommitEvent::Done) => Ok(FullWriteStage::WriteAndVerifyFull),
        (FullWriteStage::WriteAndVerifyFull, CommitEvent::Done) => Ok(
            FullWriteStage::PersistManifest,
        ),
        (FullWriteStage::PersistManifest, CommitEvent::Done) => Ok(FullWriteStage::Written),
        _ => Err(CoordinatorProcessorFullCommitError::OutOfOrder),
    }
}

fn is_verified(state: &BranchExactWriterState) -> (verified: bool)
    ensures
        verified == (*state is WritesVerified),
{
    match state {
        BranchExactWriterState::WritesVerified { .. } => true,
        _ => false,
    }
}

/// Takes the outcome of a step of the full write.
pub fn persist_full_write(stage: FullWriteStage, event: CommitEvent) -> (result: Result<
    FullWriteStage,
    CoordinatorProcessorFullCommitError,
>)
    ensures
        result == written_further(stage, event),
{
    match (stage, event) {
        (FullWriteStage::Written, _) => Err(CoordinatorProcessorFullCommitError::OutOfOrder),
        (_, CommitEvent::Failed(reason)) => Err(
            CoordinatorProcessorFullCommitError::Backend(reason),
        ),
        (FullWriteStage::PersistSource, CommitEvent::Done) => Ok(FullWriteStage::ReadWriter),
        (FullWriteStage::ReadWriter, CommitEvent::Writer(state)) => match exact_predecessor(state) {
            Err(error) => Err(error),
            Ok(predecessor) => Ok(FullWriteStage::PrepareAndVerify { predecessor }),
        },
        (FullWriteStage::PrepareAndVerify { .. }, CommitEvent::Done) => Ok(
            FullWriteStage::RequireFreshBarrier,
        ),
        (FullWriteStage::RequireFreshBarrier, CommitEvent::Done) => Ok(
            FullWriteStage::ReadVerifiedWriter,
        ),
        (FullWriteStage::ReadVerifiedWriter, CommitEvent::Writer(state)) => {
            if is_verified(&state) {
                Ok(FullWriteStage::PlanSchedule)
            } else {
                Err(CoordinatorProcessorFullCommitError::AwaitingVerifiedWrites)
            }
        },
        (FullWriteStage::PlanSchedule, CommitEvent::Done) => Ok(FullWriteStage::WriteAndVerifyFull),
        (FullWriteStage::WriteAndVerifyFull, CommitEvent::Done) => Ok(
            FullWriteStage::PersistManifest,
        ),
        (FullWriteStage::PersistManifest, CommitEvent::Done) => Ok(FullWriteStage::Written),
        _ => Err(CoordinatorProcessorFullCommitError::OutOfOrder),
    }
}

/// Whether a source is already published: the head is the sealed candidate, its
/// source and its marker are there, and the writer stands at it. `None` says that it
/// is still to be published.
pub open spec fn published_already(
    head: Option<StoredHeadModel>,
    sealed: StoredHeadModel,
    persisted: Option<CoordinatorCommitSource>,
    committed: Option<CoordinatorCommitSourceCommitted>,
    writer: BranchExactWriterState,
    source: CoordinatorCommitSource,
) -> Result<Option<StoredHeadModel>, CoordinatorProcessorFullCommitError> {
    if head != Some(sealed) {
        Ok(None)
    } else if persisted is None || committed is None {
        Err(CoordinatorProcessorFullCommitError::IdentityMismatch)
    } else {
        match writer {
            BranchExactWriterState::Active { watermark } => if persisted->0 != source
                || committed->0.slot != source.slot || committed->0.source_digest != source.digest
                || watermark.canonical != source.candidate {
                Err(CoordinatorProcessorFullCommitError::IdentityMismatch)
            } else {
                Ok(head)
            },
            _ => Ok(None),
        }
    }
}

fn same_source(a: &CoordinatorCommitSource, b: &CoordinatorCommitSource) -> (same: bool)
    ensures
        same == (*a == *b),
{
    a.candidate.same(&b.candidate) && array_equal::<32>(&a.slot, &b.slot) && array_equal::<32>(
        &a.digest,
        &b.digest,
    )
}

pub open spec fn head_view(head: Option<StoredHead>) -> Option<StoredHeadModel> {
    match head {
        None => None,
        Some(head) => Some(head@),
    }
}

pub fn already_published(
    head: Option<StoredHead>,
    sealed: &StoredHead,
    persisted: Option<CoordinatorCommitSource>,
    committed: Option<CoordinatorCommitSourceCommitted>,
    writer: &BranchExactWriterState,
    source: &CoordinatorCommitSource,
) -> (result: Result<Option<StoredHead>, CoordinatorProcessorFullCommitError>)
    ensures
        match (
            result,
            published_already(head_view(head), sealed@, persisted, committed, *writer, *source),
        ) {
            (Ok(found), Ok(expected)) => head_view(found) == expected && (found is Some ==> found
                == head),
            (Err(error), Err(expected)) => error == expected,
            _ => false,
        },
{
    let current = match head {
        None => return Ok(None),
        Some(current) => current,
    };
    if !current.same(sealed) {
        return Ok(None);
    }
    let persisted = match persisted {
        None => return Err(CoordinatorProcessorFullCommitError::IdentityMismatch),
        Some(persisted) => persisted,
    };
    let committed = match committed {
        None => return Err(CoordinatorProcessorFullCommitError::IdentityMismatch),
        Some(committed) => committed,
    };
    match writer {
        BranchExactWriterState::Active { watermark } => if !same_source(&persisted, source)
            || !array_equal::<32>(&committed.slot, &source.slot) || !array_equal::<32>(
            &committed.source_digest,
            &source.digest,
        ) || !watermark.canonical.same(&source.candidate) {
            Err(CoordinatorProcessorFullCommitError::IdentityMismatch)
        } else {
            Ok(Some(current))
        },
        _ => Ok(None),
    }
}

/// The steps of a publication. The first one asks whether it is there already.
#[derive(Clone, Debug, PartialEq, Eq)]
pub enum PublishStage {
    CheckPublished,
    ReadVerifiedWriter,
    PlanSchedule,
    ReadManifest,
    PersistCompletion,
    PublishHead,
    FinishWriter { head: StoredHead },
    /// The commit is published, with the head that stands for it.
    Published { head: StoredHead },
}

/// What the first step decides: a commit that is published already is at its end.
pub open spec fn publication_checked(
    evidence: PublicationEvidence,
    sealed: StoredHeadModel,
    source: CoordinatorCommitSource,
) -> Result<PublishStage, CoordinatorProcessorFullCommitError> {
    match published_already(
        head_view(evidence.head),
        sealed,
        evidence.persisted,
        evidence.committed,
        evidence.writer,
        source,
    ) {
        Err(error) => Err(error),
        Ok(None) => Ok(PublishStage::ReadVerifiedWriter),
        Ok(Some(_)) => Ok(PublishStage::Published { head: evidence.head->0 }),
    }
}

pub open spec fn published_further(
    stage: PublishStage,
    event: CommitEvent,
    sealed: StoredHeadModel,
    source: CoordinatorCommitSource,
) -> Result<PublishStage, CoordinatorProcessorFullCommitError> {
    match (stage, event) {
        (PublishStage::Published { .. }, _) => Err(
            CoordinatorProcessorFullCommitError::OutOfOrder,
        ),
        (_, CommitEvent::Failed(reason)) => Err(
            CoordinatorProcessorFullCommitError::Backend(reason),
        ),
        (PublishStage::CheckPublished, CommitEvent::Found(evidence)) => publication_checked(
            evidence,
            sealed,
            source,
        ),
        (PublishStage::ReadVerifiedWriter, CommitEvent::Writer(state)) => {
            if state is WritesVerified {
                Ok(PublishStage::PlanSchedule)
            } else {
                Err(CoordinatorProcessorFullCommitError::AwaitingVerifiedWrites)
            }
        },
        (PublishStage::PlanSchedule, CommitEvent::Done) => Ok(PublishStage::ReadManifest),
        (PublishStage::ReadManifest, CommitEvent::Done) => Ok(PublishStage::PersistCompletion),
        (PublishStage::PersistCompletion, CommitEvent::Done) => Ok(PublishStage::PublishHead),
        (PublishStage::PublishHead, CommitEvent::HeadPublished(head)) => Ok(
            PublishStage::FinishWriter { head },
        ),
        (PublishStage::FinishWriter { head }, CommitEvent::Done) => Ok(
            PublishStage::Published { head },
        ),
        _ => Err(CoordinatorProcessorFullCommitError::OutOfOrder),
    }
}

/// Takes the outcome of a step of the publication of `source` under `sealed`.
pub fn publish_after_backup(
    stage: PublishStage,
    event: CommitEvent,
    sealed: &StoredHead,
    source: &CoordinatorCommitSource,
) -> (result: Result<PublishStage, CoordinatorProcessorFullCommitError>)
    ensures
        result == published_further(stage, event, sealed@, *source),
{
    match (stage, event) {
        (PublishStage::Published { .. }, _) => Err(
            CoordinatorProcessorFullCommitError::OutOfOrder,
        ),
        (_, CommitEvent::Failed(reason)) => Err(
            CoordinatorProcessorFullCommitError::Backend(reason),
        ),
        (PublishStage::CheckPublished, CommitEvent::Found(evidence)) => {
            match already_published(
                evidence.head,
                sealed,
                evidence.persisted,
                evidence.committed,
                &evidence.writer,
                source,
            ) {
                Err(error) => Err(error),
                Ok(None) => Ok(PublishStage::ReadVerifiedWriter),
                Ok(Some(head)) => Ok(PublishStage::Published { head }),
            }
        },
        (PublishStage::ReadVerifiedWriter, CommitEvent::Writer(state)) => {
            if is_verified(&state) {
                Ok(PublishStage::PlanSchedule)
            } else {
                Err(CoordinatorProcessorFullCommitError::AwaitingVerifiedWrites)
            }
        },
        (PublishStage::PlanSchedule, CommitEvent::Done) => Ok(PublishStage::ReadManifest),
        (PublishStage::ReadManifest, CommitEvent::Done) => Ok(PublishStage::PersistCompletion),
        (PublishStage::PersistCompletion, CommitEvent::Done) => Ok(PublishStage::PublishHead),
        (PublishStage::PublishHead, CommitEvent::HeadPublished(head)) => Ok(
            PublishStage::FinishWriter { head },
        ),
        (PublishStage::FinishWriter { head }, CommitEvent::Done) => Ok(
            PublishStage::Published { head },
        ),
        _ => Err(CoordinatorProcessorFullCommitError::OutOfOrder),
    }
}

pub open spec fn write_rank(stage: FullWriteStage) -> int {
    match stage {
        FullWriteStage::PersistSource => 0,
        FullWriteStage::ReadWriter => 1,
        FullWriteStage::PrepareAndVerify { .. } => 2,
        FullWriteStage::RequireFreshBarrier => 3,
        FullWriteStage::ReadVerifiedWriter => 4,
        FullWriteStage::PlanSchedule => 5,
        FullWriteStage::WriteAndVerifyFull => 6,
        FullWriteStage::PersistManifest => 7,
        FullWriteStage::Written => 8,
    }
}

pub open spec fn publish_rank(stage: PublishStage) -> int {
    match stage {
        PublishStage::CheckPublished => 0,
        PublishStage::ReadVerifiedWriter => 1,
        PublishStage::PlanSchedule => 2,
        PublishStage::ReadManifest => 3,
        PublishStage::PersistCompletion => 4,
        PublishStage::PublishHead => 5,
        PublishStage::FinishWriter { .. } => 6,
        PublishStage::Published { .. } => 7,
    }
}

/// A full write takes its steps in their order, one at a time, and none of them
/// publishes a head.
pub proof fn law_full_write_takes_every_step_in_order(stage: FullWriteStage, event: CommitEvent)
    ensures
        written_further(stage, event) matches Ok(next) ==> write_rank(next) == write_rank(stage) + 1,
{
}

/// A publication that is not there yet takes its steps in their order, one at a time:
/// the head is published only behind the completion that the backup backs, the writer
/// finishes only behind the published head, and the course ends with that head.
pub proof fn law_head_is_published_behind_the_backup(
    stage: PublishStage,
    event: CommitEvent,
    sealed: StoredHeadModel,
    source: CoordinatorCommitSource,
)
    ensures
        published_further(stage, event, sealed, source) matches Ok(next) ==> {
            ||| publish_rank(next) == publish_rank(stage) + 1
            ||| stage == PublishStage::CheckPublished && next is Published
        },
        published_further(stage, event, sealed, source) matches Ok(PublishStage::PublishHead)
            ==> stage == PublishStage::PersistCompletion && event == CommitEvent::Done,
        published_further(stage, event, sealed, source) matches Ok(
            PublishStage::FinishWriter { head },
        ) ==> stage == PublishStage::PublishHead && event == CommitEvent::HeadPublished(head),
        published_further(stage, event, sealed, source) matches Ok(PublishStage::Published { head })
            ==> stage == (PublishStage::FinishWriter { head }) || stage
            == PublishStage::CheckPublished,
{
}

/// A commit that is published already ends its course at the first step, with the
/// sealed head; one that is not goes on to the verified writer.
pub proof fn law_published_commit_is_not_published_again(
    evidence: PublicationEvidence,
    sealed: StoredHeadModel,
    source: CoordinatorCommitSource,
)
    ensures
        ({
            let found = published_already(
                head_view(evidence.head),
                sealed,
                evidence.persisted,
                evidence.committed,
                evidence.writer,
                source,
            );
            let next = published_further(
                PublishStage::CheckPublished,
                CommitEvent::Found(evidence),
                sealed,
                source,
            );
            &&& found matches Ok(Some(_)) ==> next matches Ok(PublishStage::Published { head })
                && head@ == sealed
            &&& found matches Ok(None) ==> next == Ok::<
                PublishStage,
                CoordinatorProcessorFullCommitError,
            >(PublishStage::ReadVerifiedWriter)
            &&& found matches Err(error) ==> next == Err::<
                PublishStage,
                CoordinatorProcessorFullCommitError,
            >(error)
        }),
{
}

/// What is found already published is the sealed head, with its own source and
/// marker, at which the writer stands.
pub proof fn law_published_already_is_exact(
    head: Option<StoredHeadModel>,
    sealed: StoredHeadModel,
    persisted: Option<CoordinatorCommitSource>,
    committed: Option<CoordinatorCommitSourceCommitted>,
    writer: BranchExactWriterState,
    source: CoordinatorCommitSource,
)
    ensures
        published_already(head, sealed, persisted, committed, writer, source) matches Ok(Some(found))
            ==> {
            &&& found == sealed
            &&& persisted == Some(source)
            &&& committed is Some && committed->0.slot == source.slot
            &&& writer matches BranchExactWriterState::Active { watermark } && watermark.canonical
                == source.candidate
        },
{
}

/// The predecessor of a write is the watermark of an active writer, or the predecessor
/// that a prepared or verified writer recorded. No other writer has one.
pub proof fn law_write_follows_the_writers_own_predecessor(state: BranchExactWriterState)
    ensures
        match predecessor_of(state) {
            Ok(predecessor) => state == (BranchExactWriterState::Active { watermark: predecessor })
                || state == (BranchExactWriterState::WritePrepared { predecessor }) || state == (
            BranchExactWriterState::WritesVerified { predecessor }),
            Err(error) => state is Other && error is AwaitingVerifiedWrites,
        },
        match written_further(FullWriteStage::ReadWriter, CommitEvent::Writer(state)) {
            Ok(next) => !(state is Other) && next is PrepareAndVerify
                && predecessor_of(state) == Ok::<_, CoordinatorProcessorFullCommitError>(
                next->predecessor,
            ),
            Err(error) => state is Other && error is AwaitingVerifiedWrites,
        },
{
}

/// Neither a full write nor a publication goes past the writer unless the writer has
/// verified its writes.
pub proof fn law_only_verified_writes_go_on(
    state: BranchExactWriterState,
    sealed: StoredHeadModel,
    source: CoordinatorCommitSource,
)
    ensures
        match written_further(FullWriteStage::ReadVerifiedWriter, CommitEvent::Writer(state)) {
            Ok(next) => state is WritesVerified && next is PlanSchedule,
            Err(error) => !(state is WritesVerified) && error is AwaitingVerifiedWrites,
        },
        match published_further(
            PublishStage::ReadVerifiedWriter,
            CommitEvent::Writer(state),
            sealed,
            source,
        ) {
            Ok(next) => state is WritesVerified && next is PlanSchedule,
            Err(error) => !(state is WritesVerified) && error is AwaitingVerifiedWrites,
        },
{
}

/// A full write that meets no failure gets to its end: every step that only has to be
/// done leads on.
pub proof fn law_full_write_ends(stage: FullWriteStage)
    ensures
        written_further(stage, CommitEvent::Done) is Ok <==> !(stage is ReadWriter || stage
            is ReadVerifiedWriter || stage is Written),
        written_further(FullWriteStage::PersistManifest, CommitEvent::Done) == Ok::<
            _,
            CoordinatorProcessorFullCommitError,
        >(FullWriteStage::Written),
{
}

/// A publication that meets no failure ends with the head that was published.
pub proof fn law_publication_ends_with_the_published_head(
    stage: PublishStage,
    head: StoredHead,
    sealed: StoredHeadModel,
    source: CoordinatorCommitSource,
)
    ensures
        published_further(stage, CommitEvent::Done, sealed, source) is Ok <==> stage is PlanSchedule
            || stage is ReadManifest || stage is PersistCompletion || stage is FinishWriter,
        published_further(
            PublishStage::PublishHead,
            CommitEvent::HeadPublished(head),
            sealed,
            source,
        ) matches Ok(finishing) && published_further(finishing, CommitEvent::Done, sealed, source)
            == Ok::<_, CoordinatorProcessorFullCommitError>(PublishStage::Published { head }),
        published_further(stage, CommitEvent::HeadPublished(head), sealed, source) is Ok <==> stage
            is PublishHead,
{
}

/// A commit counts as published exactly if the head is the sealed one, the stored source
/// is the commit's own, its marker has that source's slot and digest, and the active
/// writer stands at the source's candidate. A sealed head with anything else behind an
/// active writer, or without source or marker, is refused; any other head, or a writer
/// that is not active, still has to be published.
pub proof fn law_commit_is_published_exactly_if_everything_is_there(
    head: Option<StoredHeadModel>,
    sealed: StoredHeadModel,
    persisted: Option<CoordinatorCommitSource>,
    committed: Option<CoordinatorCommitSourceCommitted>,
    writer: BranchExactWriterState,
    source: CoordinatorCommitSource,
)
    ensures
        ({
            let found = published_already(head, sealed, persisted, committed, writer, source);
            let at_head = head == Some(sealed);
            let both = persisted is Some && committed is Some;
            let exact = persisted == Some(source) && (committed matches Some(committed)
                && committed.slot == source.slot && committed.source_digest == source.digest) && (
            writer matches BranchExactWriterState::Active { watermark } && watermark.canonical
                == source.candidate);
            &&& found == Ok::<_, CoordinatorProcessorFullCommitError>(Some(sealed)) <==> at_head
                && exact
            &&& found == Ok::<Option<StoredHeadModel>, CoordinatorProcessorFullCommitError>(None)
                <==> !at_head || (both && !(writer is Active))
            &&& found is Err ==> at_head && found->Err_0 is IdentityMismatch
            &&& found is Ok ==> found->Ok_0 is None || found->Ok_0 == Some(sealed)
        }),
{
}

/// A failed step ends a write or a publication with its own reason.
pub proof fn law_failed_step_ends_the_commit(
    write: FullWriteStage,
    publish: PublishStage,
    reason: String,
    sealed: StoredHeadModel,
    source: CoordinatorCommitSource,
)
    ensures
        written_further(write, CommitEvent::Failed(reason)) matches Err(error) && if write
            is Written {
            error is OutOfOrder
        } else {
            error == CoordinatorProcessorFullCommitError::Backend(reason)
        },
        published_further(publish, CommitEvent::Failed(reason), sealed, source) matches Err(error)
            && if publish is Published {
            error is OutOfOrder
        } else {
            error == CoordinatorProcessorFullCommitError::Backend(reason)
        },
{
}

/// What a commit behind a rollback is planned with: exactly a commit with a fence is
/// planned above it, with its own preparation time.
pub open spec fn planned_kind(prepared_us: i64, post_rollback_fence_us: Option<i64>) -> WritePlanKind {
    match post_rollback_fence_us {
        Some(fence_us) => WritePlanKind::AfterRollback { fence_us, prepared_us },
        None => WritePlanKind::Normal,
    }
}

/// A commit is planned above a fence exactly if there is one, above that one, and from
/// its own preparation time.
pub proof fn law_fenced_commits_are_planned_above_the_fence(
    prepared_us: i64,
    post_rollback_fence_us: Option<i64>,
)
    ensures
        match planned_kind(prepared_us, post_rollback_fence_us) {
            WritePlanKind::Normal => post_rollback_fence_us is None,
            WritePlanKind::AfterRollback { fence_us, prepared_us: at } => post_rollback_fence_us
                == Some(fence_us) && at == prepared_us,
        },
{
}

} // verus!
