//! One walk over the discarded branch, read by read, and the passes that have to
//! agree before a suffix counts as verified or archived.
//!
//! A walk starts at the anchor and visits every checkpoint behind it. For each it
//! asks for the stored transition, the legacy mapping in both directions and the
//! branch-exact mapping in both directions, in this order, and, while it archives,
//! for the verified bundle to be persisted.

use vstd::prelude::*;

use crate::coordinator_rollback_archive_plan::CoordinatorRollbackArchivePlan;
use crate::coordinator_rollback_archive_scan::CoordinatorRollbackArchivedMappingBundle;
use crate::coordinator_rollback_branch_accumulator as accumulator;
use crate::coordinator_rollback_branch_accumulator::{
    BranchCatalogModel, CoordinatorRollbackBranchCatalogAccumulator,
    CoordinatorRollbackBranchCatalogSummary, VerifiedCoordinatorRollbackSuffixSelection,
};
use crate::coordinator_rollback_branch_catalog::{
    CoordinatorRollbackBranchCatalogError, MappingBundle,
};
use crate::coordinator_rollback_branch_scan as branch_scan;
use crate::coordinator_rollback_branch_scan::{
    legacy_pair, legacy_pending, require_current_head, require_transition,
    CoordinatorRollbackMappingArchiveSummary, MappingArchiveAccumulator, MappingArchiveFinished,
    SelectedSuffix,
};
use crate::coordinator_rollback_branch_transition as branch_transition;
use crate::coordinator_rollback_branch_transition::{
    BranchExactCheckpointChainConfig, LegacyMappingPair, PointValue, TargetForwardRow,
    TargetReverseRow, TransitionEvidence,
};
use crate::model::{CanonicalChainRef, StoredHead, StoredHeadModel, UniquePendingId};

verus! {

/// A read of one row, or the error it failed with.
pub type PointRead = Result<Option<PointValue<Vec<u8>>>, CoordinatorRollbackBranchCatalogError>;

pub type U64Read = Result<Option<(u64, i64)>, CoordinatorRollbackBranchCatalogError>;

/// What a walk waits for. A transition row is kept as it was read until its legacy
/// mapping is known, and decompressed from then on.
pub enum BranchWalkStage {
    ReadAnchor,
    ReadTransition,
    ReadLegacyForward { row: PointValue<Vec<u8>> },
    ReadLegacyReverse {
        row: PointValue<Vec<u8>>,
        pending: UniquePendingId,
        forward_writetime_us: i64,
    },
    VerifyTransition { row: PointValue<Vec<u8>>, legacy: LegacyMappingPair },
    ReadTargetForward {
        transition: PointValue<Vec<u8>>,
        evidence: TransitionEvidence<Vec<u8>>,
        legacy: LegacyMappingPair,
        canonical: CanonicalChainRef,
    },
    ReadTargetReverse {
        transition: PointValue<Vec<u8>>,
        evidence: TransitionEvidence<Vec<u8>>,
        legacy: LegacyMappingPair,
        canonical: CanonicalChainRef,
        forward: Vec<TargetForwardRow>,
    },
    Persist { bundle: MappingBundle },
    Finished,
}

/// A walk over the branch of a suffix, with or without archiving.
pub struct BranchWalk {
    pub catalog: CoordinatorRollbackBranchCatalogAccumulator,
    pub archived: Option<MappingArchiveAccumulator>,
    pub stage: BranchWalkStage,
}

/// Where a walk stands behind a checkpoint that it is through with.
pub open spec fn onward(catalog: BranchCatalogModel, stage: BranchWalkStage) -> bool {
    if catalog.next_checkpoint <= catalog.requested_head.height {
        stage is ReadTransition
    } else {
        stage is Finished
    }
}

/// A transition leads to the chain reference that the targets are read for.
pub open spec fn leads_to(
    catalog: BranchCatalogModel,
    transition: PointValue<Vec<u8>>,
    evidence: TransitionEvidence<Vec<u8>>,
    canonical: CanonicalChainRef,
) -> bool {
    branch_transition::decoded_transition(
        catalog.position,
        catalog.next_checkpoint,
        transition@.value,
        evidence@,
        false,
    ) matches Ok(verified) && verified.canonical == canonical
}

/// What a read of an anchor comes to.
pub open spec fn anchor_taken(
    catalog: BranchCatalogModel,
    read: PointRead,
    decompressed: Result<Vec<u8>, String>,
    evidence: TransitionEvidence<Seq<u8>>,
) -> Result<BranchCatalogModel, CoordinatorRollbackBranchCatalogError> {
    let checkpoint_id = catalog.target.height;
    match (read, decompressed) {
        (Err(error), _) => Err(error),
        (Ok(None), _) => Err(
            CoordinatorRollbackBranchCatalogError::MissingTransition(checkpoint_id),
        ),
        (Ok(Some(_)), Err(reason)) => Err(
            CoordinatorRollbackBranchCatalogError::MalformedTransition { checkpoint_id, reason },
        ),
        (Ok(Some(row)), Ok(value)) => accumulator::with_anchor(
            catalog,
            checkpoint_id,
            PointValue { value: value@, writetime_us: row.writetime_us },
            evidence,
        ),
    }
}

impl BranchWalk {
    /// The bundles that were archived so far: each left its digest.
    pub open spec fn bundles_archived(&self) -> int {
        if self.stage is Persist {
            self.catalog.suffix_rows - 1
        } else {
            self.catalog.suffix_rows as int
        }
    }

    pub open spec fn wf(&self) -> bool {
        let catalog = self.catalog@;
        &&& self.catalog.wf()
        &&& self.stage is ReadAnchor == (catalog.position.previous_hash is None)
        &&& catalog.next_checkpoint <= catalog.requested_head.height + 1
        &&& self.stage is Finished ==> catalog.next_checkpoint > catalog.requested_head.height
        &&& !(self.stage is Finished || self.stage is Persist) ==> catalog.next_checkpoint
            <= catalog.requested_head.height
        &&& self.stage is Persist ==> self.archived is Some && catalog.suffix_rows > 0
        &&& self.archived matches Some(archived) ==> archived.preimage@.len()
            == branch_scan::archive_preamble().len() + 32 + 32 * self.bundles_archived()
        &&& match self.stage {
            BranchWalkStage::ReadTargetForward { transition, evidence, canonical, .. } => leads_to(
                catalog,
                transition,
                evidence,
                canonical,
            ),
            BranchWalkStage::ReadTargetReverse { transition, evidence, canonical, .. } => leads_to(
                catalog,
                transition,
                evidence,
                canonical,
            ),
            _ => true,
        }
    }

    pub fn begin(
        expected_head: &StoredHead,
        plan: &CoordinatorRollbackArchivePlan,
        config: BranchExactCheckpointChainConfig,
        catalog_fingerprint: [u8; 32],
        archiving: bool,
    ) -> (result: Result<Self, CoordinatorRollbackBranchCatalogError>)
        ensures
            match (
                result,
                accumulator::new_catalog(expected_head@, plan, config, catalog_fingerprint),
            ) {
                (Ok(walk), Ok(model)) => {
                    &&& walk.wf()
                    &&& walk.catalog@ == model
                    &&& walk.stage is ReadAnchor
                    &&& walk.archived is Some == archiving
                    &&& walk.archived matches Some(archived) ==> archived.rows == 0
                        && archived.bytes == 0 && archived.preimage@
                        == branch_scan::archive_preamble() + plan.digest.0@
                },
                (Err(error), Err(expected)) => error == expected,
                _ => false,
            },
    {
        let catalog = CoordinatorRollbackBranchCatalogAccumulator::try_new(
            expected_head,
            plan,
            config,
            catalog_fingerprint,
        )?;
        Ok(
            BranchWalk {
                catalog,
                archived: if archiving {
                    Some(MappingArchiveAccumulator::new(plan))
                } else {
                    None
                },
                stage: BranchWalkStage::ReadAnchor,
            },
        )
    }

    fn onward(catalog: &CoordinatorRollbackBranchCatalogAccumulator) -> (stage: BranchWalkStage)
        ensures
            onward(catalog@, stage),
    {
        match catalog.next_read() {
            Some(_) => BranchWalkStage::ReadTransition,
            None => BranchWalkStage::Finished,
        }
    }

    /// Takes the transition row of the target. `decompressed` and `evidence` are what
    /// the storage codec and the protocol make of it.
    pub fn take_anchor(
        self,
        read: PointRead,
        decompressed: Result<Vec<u8>, String>,
        evidence: &TransitionEvidence<Vec<u8>>,
    ) -> (result: Result<Self, CoordinatorRollbackBranchCatalogError>)
        requires
            self.wf(),
        ensures
            match (self.stage, result) {
                (BranchWalkStage::ReadAnchor, Ok(next)) => {
                    &&& next.wf()
                    &&& anchor_taken(self.catalog@, read, decompressed, evidence@) == Ok::<
                        BranchCatalogModel,
                        CoordinatorRollbackBranchCatalogError,
                    >(next.catalog@)
                    &&& onward(next.catalog@, next.stage)
                    &&& next.archived == self.archived
                },
                (BranchWalkStage::ReadAnchor, Err(error)) => anchor_taken(
                    self.catalog@,
                    read,
                    decompressed,
                    evidence@,
                ) == Err::<BranchCatalogModel, _>(error),
                (_, result) => result == Err::<Self, _>(
                    CoordinatorRollbackBranchCatalogError::OutOfOrder,
                ),
            },
    {
        match self.stage {
            BranchWalkStage::ReadAnchor => {},
            _ => return Err(CoordinatorRollbackBranchCatalogError::OutOfOrder),
        }
        let checkpoint_id: u64 = self.catalog.target.height;
        let row = match read {
            Err(error) => return Err(error),
            Ok(row) => row,
        };
        let transition = require_transition(checkpoint_id, row, decompressed)?;
        let mut catalog = self.catalog;
        catalog.observe_anchor(checkpoint_id, &transition, evidence)?;
        let stage = Self::onward(&catalog);
        Ok(BranchWalk { catalog, archived: self.archived, stage })
    }

    /// Takes the transition row of the next checkpoint.
    pub fn take_transition(self, read: PointRead) -> (result: Result<
        Self,
        CoordinatorRollbackBranchCatalogError,
    >)
        requires
            self.wf(),
        ensures
            transition_read(self, read, result),
    {
        match self.stage {
            BranchWalkStage::ReadTransition => {},
            _ => return Err(CoordinatorRollbackBranchCatalogError::OutOfOrder),
        }
        match read {
            Err(error) => Err(error),
            Ok(None) => Err(
                CoordinatorRollbackBranchCatalogError::MissingTransition(
                    self.catalog.next_checkpoint,
                ),
            ),
            Ok(Some(row)) => Ok(
                BranchWalk {
                    catalog: self.catalog,
                    archived: self.archived,
                    stage: BranchWalkStage::ReadLegacyForward { row },
                },
            ),
        }
    }

    /// Takes the legacy row from checkpoint to pending identity.
    pub fn take_legacy_forward(self, read: U64Read) -> (result: Result<
        Self,
        CoordinatorRollbackBranchCatalogError,
    >)
        requires
            self.wf(),
        ensures
            legacy_forward_read(self, read, result),
    {
        let row = match self.stage {
            BranchWalkStage::ReadLegacyForward { row } => row,
            _ => return Err(CoordinatorRollbackBranchCatalogError::OutOfOrder),
        };
        let forward = match read {
            Err(error) => return Err(error),
            Ok(forward) => forward,
        };
        let (pending, forward_writetime_us) = legacy_pending(
            self.catalog.next_checkpoint,
            forward,
        )?;
        Ok(
            BranchWalk {
                catalog: self.catalog,
                archived: self.archived,
                stage: BranchWalkStage::ReadLegacyReverse { row, pending, forward_writetime_us },
            },
        )
    }

    /// Takes the legacy row back from pending identity to checkpoint.
    pub fn take_legacy_reverse(self, read: U64Read) -> (result: Result<
        Self,
        CoordinatorRollbackBranchCatalogError,
    >)
        requires
            self.wf(),
        ensures
            legacy_reverse_read(self, read, result),
    {
        let (row, pending, forward_writetime_us) = match self.stage {
            BranchWalkStage::ReadLegacyReverse { row, pending, forward_writetime_us } => (
                row,
                pending,
                forward_writetime_us,
            ),
            _ => return Err(CoordinatorRollbackBranchCatalogError::OutOfOrder),
        };
        let reverse = match read {
            Err(error) => return Err(error),
            Ok(reverse) => reverse,
        };
        let legacy = legacy_pair(
            self.catalog.next_checkpoint,
            pending,
            forward_writetime_us,
            reverse,
        )?;
        Ok(
            BranchWalk {
                catalog: self.catalog,
                archived: self.archived,
                stage: BranchWalkStage::VerifyTransition { row, legacy },
            },
        )
    }

    /// Takes what the storage codec and the protocol make of the transition row. The
    /// chain reference that it leads to is the one whose targets are read.
    pub fn take_evidence(
        self,
        decompressed: Result<Vec<u8>, String>,
        evidence: TransitionEvidence<Vec<u8>>,
    ) -> (result: Result<Self, CoordinatorRollbackBranchCatalogError>)
        requires
            self.wf(),
        ensures
            evidence_taken(self, decompressed, evidence, result),
    {
        let (row, legacy) = match self.stage {
            BranchWalkStage::VerifyTransition { row, legacy } => (row, legacy),
            _ => return Err(CoordinatorRollbackBranchCatalogError::OutOfOrder),
        };
        let checkpoint_id: u64 = self.catalog.next_checkpoint;
        let transition = require_transition(checkpoint_id, Some(row), decompressed)?;
        let canonical = self.catalog.preview_transition(
            checkpoint_id,
            transition.value.as_slice(),
            &evidence,
        )?;
        Ok(
            BranchWalk {
                catalog: self.catalog,
                archived: self.archived,
                stage: BranchWalkStage::ReadTargetForward {
                    transition,
                    evidence,
                    legacy,
                    canonical,
                },
            },
        )
    }

    /// Takes the branch-exact rows of the chain reference.
    pub fn take_target_forward(
        self,
        read: Result<Vec<TargetForwardRow>, CoordinatorRollbackBranchCatalogError>,
    ) -> (result: Result<Self, CoordinatorRollbackBranchCatalogError>)
        requires
            self.wf(),
        ensures
            result matches Ok(next) ==> next.wf(),
            match (self.stage, read) {
                (BranchWalkStage::ReadTargetForward { .. }, Err(error)) => result == Err::<
                    Self,
                    _,
                >(error),
                (
                    BranchWalkStage::ReadTargetForward { transition, evidence, legacy, canonical },
                    Ok(forward),
                ) => result == Ok::<Self, CoordinatorRollbackBranchCatalogError>(
                    BranchWalk {
                        stage: BranchWalkStage::ReadTargetReverse {
                            transition,
                            evidence,
                            legacy,
                            canonical,
                            forward,
                        },
                        ..self
                    },
                ),
                _ => result == Err::<Self, _>(CoordinatorRollbackBranchCatalogError::OutOfOrder),
            },
    {
        match self.stage {
            BranchWalkStage::ReadTargetForward { transition, evidence, legacy, canonical } => {
                match read {
                    Err(error) => Err(error),
                    Ok(forward) => Ok(
                        BranchWalk {
                            catalog: self.catalog,
                            archived: self.archived,
                            stage: BranchWalkStage::ReadTargetReverse {
                                transition,
                                evidence,
                                legacy,
                                canonical,
                                forward,
                            },
                        },
                    ),
                }
            },
            _ => Err(CoordinatorRollbackBranchCatalogError::OutOfOrder),
        }
    }

    /// Takes the branch-exact rows of the pending identity, and with them the
    /// checkpoint. `mapping_digest` is the digest of the mapping between the chain
    /// reference and the pending identity.
    pub fn take_target_reverse(
        self,
        read: Result<Vec<TargetReverseRow<Vec<u8>>>, CoordinatorRollbackBranchCatalogError>,
        mapping_digest: [u8; 32],
    ) -> (result: Result<Self, CoordinatorRollbackBranchCatalogError>)
        requires
            self.wf(),
        ensures
            target_reverse_read(self, read, mapping_digest, result),
    {
        match self.stage {
            BranchWalkStage::ReadTargetReverse { transition, evidence, legacy, forward, .. } => {
                let reverse = match read {
                    Err(error) => return Err(error),
                    Ok(reverse) => reverse,
                };
                let mut catalog = self.catalog;
                let checkpoint_id: u64 = catalog.next_checkpoint;
                let bundle = catalog.observe_suffix(
                    checkpoint_id,
                    &transition,
                    &evidence,
                    mapping_digest,
                    legacy,
                    forward.as_slice(),
                    reverse.as_slice(),
                )?;
                let stage = if self.archived.is_some() {
                    BranchWalkStage::Persist { bundle }
                } else {
                    Self::onward(&catalog)
                };
                Ok(BranchWalk { catalog, archived: self.archived, stage })
            },
            _ => Err(CoordinatorRollbackBranchCatalogError::OutOfOrder),
        }
    }

    /// Takes what became of the bundle that was to be persisted.
    pub fn take_persisted(
        self,
        persisted: Result<CoordinatorRollbackArchivedMappingBundle, String>,
    ) -> (result: Result<Self, CoordinatorRollbackBranchCatalogError>)
        requires
            self.wf(),
        ensures
            bundle_persisted(self, persisted, result),
    {
        match (self.stage, self.archived) {
            (BranchWalkStage::Persist { .. }, Some(archived)) => {
                let bundle = match persisted {
                    Err(refused) => {
                        return Err(CoordinatorRollbackBranchCatalogError::Archive(refused));
                    },
                    Ok(bundle) => bundle,
                };
                let mut archived = archived;
                archived.observe(bundle)?;
                let stage = Self::onward(&self.catalog);
                Ok(BranchWalk { catalog: self.catalog, archived: Some(archived), stage })
            },
            _ => Err(CoordinatorRollbackBranchCatalogError::OutOfOrder),
        }
    }

    /// The selection of a walk that came to its end, and what it archived.
    pub fn finish(self) -> (result: Result<
        (VerifiedCoordinatorRollbackSuffixSelection, Option<MappingArchiveFinished>),
        CoordinatorRollbackBranchCatalogError,
    >)
        requires
            self.wf(),
        ensures
            match (self.stage, result, accumulator::finished_catalog(self.catalog@)) {
                (BranchWalkStage::Finished, Ok((selection, finished)), Ok(summary)) => {
                    &&& selection.wf()
                    &&& selection.summary == summary
                    &&& selection.first_checkpoint == self.catalog@.target.height + 1
                    &&& selection.pendings@ == self.catalog@.pendings
                    &&& finished == branch_scan::archive_finished(self.archived)
                },
                (BranchWalkStage::Finished, Err(error), Err(expected)) => error == expected,
                (BranchWalkStage::Finished, _, _) => false,
                (_, result, _) => result is Err && result->Err_0
                    == CoordinatorRollbackBranchCatalogError::OutOfOrder,
            },
    {
        match self.stage {
            BranchWalkStage::Finished => {},
            _ => return Err(CoordinatorRollbackBranchCatalogError::OutOfOrder),
        }
        let selection = self.catalog.finish_selection()?;
        let finished = match self.archived {
            Some(archived) => Some(archived.finish()),
            None => None,
        };
        Ok((selection, finished))
    }
}

/// A walk that came to its end has visited every checkpoint behind the target up to
/// the requested head, and, if it archived, has archived one bundle for each of them.
pub proof fn law_finished_walk_visited_the_suffix(walk: BranchWalk)
    requires
        walk.wf(),
        walk.stage is Finished,
    ensures
        walk.catalog@.pendings.len() == walk.catalog@.requested_head.height
            - walk.catalog@.target.height,
        walk.archived matches Some(archived) ==> archived.preimage@.len()
            == branch_scan::archive_preamble().len() + 32 + 32 * walk.catalog@.pendings.len(),
{
}

/// What has to be done next to verify or archive a suffix: walks over the branch,
/// each behind a check of the head, and a last check of the head.
#[derive(Clone, Copy, Debug, PartialEq, Eq, Structural)]
pub enum SuffixPassStage {
    RequireHead { pass: u8 },
    Walk { pass: u8 },
    Conclude,
}

/// How far the passes over a suffix have come. Verifying takes two of them, archiving
/// three, of which the second archives.
#[verifier::ext_equal]
pub struct SuffixPasses<P> {
    pub archiving: bool,
    pub stage: SuffixPassStage,
    pub selected: Option<SelectedSuffix<P>>,
    /// Some pass selected another suffix than the first one.
    pub changed: bool,
    pub archived: Option<MappingArchiveFinished>,
}

pub type SuffixPassesModel = SuffixPasses<Seq<u64>>;

impl View for SuffixPasses<Vec<u64>> {
    type V = SuffixPasses<Seq<u64>>;

    open spec fn view(&self) -> SuffixPasses<Seq<u64>> {
        SuffixPasses {
            archiving: self.archiving,
            stage: self.stage,
            selected: match self.selected {
                Some(selected) => Some(selected@),
                None => None,
            },
            changed: self.changed,
            archived: self.archived,
        }
    }
}

pub open spec fn pass_count(archiving: bool) -> u8 {
    if archiving {
        3
    } else {
        2
    }
}

pub open spec fn passes_begun(archiving: bool) -> SuffixPassesModel {
    SuffixPasses {
        archiving,
        stage: SuffixPassStage::RequireHead { pass: 1 },
        selected: None,
        changed: false,
        archived: None,
    }
}

/// The head that a read found, by its view.
pub open spec fn head_read_view(read: Result<Option<StoredHead>, String>) -> Result<
    Option<StoredHeadModel>,
    String,
> {
    match read {
        Ok(Some(head)) => Ok(Some(head@)),
        Ok(None) => Ok(None),
        Err(refused) => Err(refused),
    }
}

/// Behind a check of the head.
pub open spec fn head_taken(
    passes: SuffixPassesModel,
    read: Result<Option<StoredHeadModel>, String>,
    expected: StoredHeadModel,
) -> Result<SuffixPassesModel, CoordinatorRollbackBranchCatalogError> {
    match (passes.stage, read) {
        (SuffixPassStage::RequireHead { pass }, Ok(Some(head))) => if head != expected {
            Err(CoordinatorRollbackBranchCatalogError::HeadChanged)
        } else {
            Ok(
                SuffixPasses {
                    stage: if pass <= pass_count(passes.archiving) {
                        SuffixPassStage::Walk { pass }
                    } else {
                        SuffixPassStage::Conclude
                    },
                    ..passes
                },
            )
        },
        (SuffixPassStage::RequireHead { .. }, Ok(None)) => Err(
            CoordinatorRollbackBranchCatalogError::HeadChanged,
        ),
        (SuffixPassStage::RequireHead { .. }, Err(refused)) => Err(
            CoordinatorRollbackBranchCatalogError::Head(refused),
        ),
        _ => Err(CoordinatorRollbackBranchCatalogError::OutOfOrder),
    }
}

/// A walk that was made: what it selected and what it archived.
pub type WalkOutcome = Result<
    (VerifiedCoordinatorRollbackSuffixSelection, Option<MappingArchiveFinished>),
    CoordinatorRollbackBranchCatalogError,
>;

pub type WalkOutcomeModel = Result<
    (SelectedSuffix<Seq<u64>>, Option<MappingArchiveFinished>),
    CoordinatorRollbackBranchCatalogError,
>;

pub open spec fn walk_view(walk: WalkOutcome) -> WalkOutcomeModel {
    match walk {
        Ok((selection, archived)) => Ok((branch_scan::suffix_of(&selection), archived)),
        Err(error) => Err(error),
    }
}

/// Behind a walk.
pub open spec fn walk_taken(passes: SuffixPassesModel, walk: WalkOutcomeModel) -> Result<
    SuffixPassesModel,
    CoordinatorRollbackBranchCatalogError,
> {
    match (passes.stage, walk) {
        (SuffixPassStage::Walk { .. }, Err(error)) => Err(error),
        (SuffixPassStage::Walk { pass }, Ok((suffix, archived))) => if pass > 3 {
            Err(CoordinatorRollbackBranchCatalogError::OutOfOrder)
        } else {
            Ok(
                SuffixPasses {
                    stage: SuffixPassStage::RequireHead { pass: (pass + 1) as u8 },
                    selected: if passes.selected is Some {
                        passes.selected
                    } else {
                        Some(suffix)
                    },
                    changed: passes.changed || (passes.selected is Some && passes.selected->0
                        != suffix),
                    archived: if passes.archiving && pass == 2 {
                        archived
                    } else {
                        passes.archived
                    },
                    ..passes
                },
            )
        },
        _ => Err(CoordinatorRollbackBranchCatalogError::OutOfOrder),
    }
}

/// What verifying a suffix comes to.
pub open spec fn verification_concluded(passes: SuffixPassesModel) -> Result<
    CoordinatorRollbackBranchCatalogSummary,
    CoordinatorRollbackBranchCatalogError,
> {
    match (passes.stage, passes.archiving, passes.selected) {
        (SuffixPassStage::Conclude, false, Some(selected)) => if passes.changed {
            Err(CoordinatorRollbackBranchCatalogError::SourceChanged)
        } else {
            Ok(selected.summary)
        },
        _ => Err(CoordinatorRollbackBranchCatalogError::OutOfOrder),
    }
}

/// What archiving a suffix comes to: four rows for every checkpoint.
pub open spec fn archiving_concluded(passes: SuffixPassesModel) -> Result<
    CoordinatorRollbackMappingArchiveSummary,
    CoordinatorRollbackBranchCatalogError,
> {
    match (passes.stage, passes.archiving, passes.selected) {
        (SuffixPassStage::Conclude, true, Some(selected)) => {
            let expected_rows = selected.summary.suffix_rows * 4;
            if passes.changed {
                Err(CoordinatorRollbackBranchCatalogError::SourceChanged)
            } else if passes.archived is None {
                Err(CoordinatorRollbackBranchCatalogError::ArchiveSummaryMissing)
            } else if expected_rows > u64::MAX {
                Err(CoordinatorRollbackBranchCatalogError::CheckpointOverflow)
            } else if passes.archived->0.rows != expected_rows {
                Err(
                    CoordinatorRollbackBranchCatalogError::ArchiveRowCountMismatch {
                        expected: expected_rows as u64,
                        actual: passes.archived->0.rows,
                    },
                )
            } else {
                Ok(
                    CoordinatorRollbackMappingArchiveSummary {
                        catalog: selected.summary,
                        archive_rows: passes.archived->0.rows,
                        archive_bytes: passes.archived->0.bytes,
                        archive_digest: passes.archived->0.digest,
                    },
                )
            }
        },
        _ => Err(CoordinatorRollbackBranchCatalogError::OutOfOrder),
    }
}

pub open spec fn passes_result(
    result: Result<SuffixPasses<Vec<u64>>, CoordinatorRollbackBranchCatalogError>,
) -> Result<SuffixPassesModel, CoordinatorRollbackBranchCatalogError> {
    match result {
        Ok(passes) => Ok(passes@),
        Err(error) => Err(error),
    }
}

impl SuffixPasses<Vec<u64>> {
    pub fn begin(archiving: bool) -> (passes: Self)
        ensures
            passes@ == passes_begun(archiving),
    {
        SuffixPasses {
            archiving,
            stage: SuffixPassStage::RequireHead { pass: 1 },
            selected: None,
            changed: false,
            archived: None,
        }
    }

    pub fn take_head(self, read: Result<Option<StoredHead>, String>, expected: &StoredHead) -> (result:
        Result<Self, CoordinatorRollbackBranchCatalogError>)
        ensures
            passes_result(result) == head_taken(self@, head_read_view(read), expected@),
    {
        match self.stage {
            SuffixPassStage::RequireHead { pass } => {
                require_current_head(read, expected)?;
                let last: u8 = if self.archiving {
                    3
                } else {
                    2
                };
                Ok(
                    SuffixPasses {
                        stage: if pass <= last {
                            SuffixPassStage::Walk { pass }
                        } else {
                            SuffixPassStage::Conclude
                        },
                        ..self
                    },
                )
            },
            _ => Err(CoordinatorRollbackBranchCatalogError::OutOfOrder),
        }
    }

    pub fn take_walk(self, walk: WalkOutcome) -> (result: Result<
        Self,
        CoordinatorRollbackBranchCatalogError,
    >)
        ensures
            passes_result(result) == walk_taken(self@, walk_view(walk)),
    {
        let pass: u8 = match self.stage {
            SuffixPassStage::Walk { pass } => pass,
            _ => return Err(CoordinatorRollbackBranchCatalogError::OutOfOrder),
        };
        let (selection, archived) = match walk {
            Err(error) => return Err(error),
            Ok(walk) => walk,
        };
        if pass > 3 {
            return Err(CoordinatorRollbackBranchCatalogError::OutOfOrder);
        }
        let mut passes = self;
        match &passes.selected {
            Some(first) => {
                let same: bool = first.selects(&selection);
                passes.changed = passes.changed || !same;
            },
            None => {
                passes.selected = Some(SelectedSuffix::of(&selection));
            },
        }
        if passes.archiving && pass == 2 {
            passes.archived = archived;
        }
        passes.stage = SuffixPassStage::RequireHead { pass: pass + 1 };
        Ok(passes)
    }

    /// Concludes a verification: both walks have to have selected the same suffix.
    pub fn verify_suffix(self) -> (result: Result<
        CoordinatorRollbackBranchCatalogSummary,
        CoordinatorRollbackBranchCatalogError,
    >)
        ensures
            result == verification_concluded(self@),
    {
        match (self.stage, self.archiving, self.selected) {
            (SuffixPassStage::Conclude, false, Some(selected)) => if self.changed {
                Err(CoordinatorRollbackBranchCatalogError::SourceChanged)
            } else {
                Ok(selected.summary)
            },
            _ => Err(CoordinatorRollbackBranchCatalogError::OutOfOrder),
        }
    }

    /// Concludes an archiving: the walks before, with and after it have to have
    /// selected the same suffix, and all of its rows have to be archived.
    pub fn archive_verified_suffix(self) -> (result: Result<
        CoordinatorRollbackMappingArchiveSummary,
        CoordinatorRollbackBranchCatalogError,
    >)
        ensures
            result == archiving_concluded(self@),
    {
        match (self.stage, self.archiving, self.selected) {
            (SuffixPassStage::Conclude, true, Some(selected)) => {
                if self.changed {
                    return Err(CoordinatorRollbackBranchCatalogError::SourceChanged);
                }
                let archived = match self.archived {
                    None => {
                        return Err(CoordinatorRollbackBranchCatalogError::ArchiveSummaryMissing);
                    },
                    Some(archived) => archived,
                };
                let expected: u64 = match selected.summary.suffix_rows.checked_mul(4) {
                    None => return Err(CoordinatorRollbackBranchCatalogError::CheckpointOverflow),
                    Some(expected) => expected,
                };
                if archived.rows != expected {
                    return Err(
                        CoordinatorRollbackBranchCatalogError::ArchiveRowCountMismatch {
                            expected,
                            actual: archived.rows,
                        },
                    );
                }
                Ok(
                    CoordinatorRollbackMappingArchiveSummary {
                        catalog: selected.summary,
                        archive_rows: archived.rows,
                        archive_bytes: archived.bytes,
                        archive_digest: archived.digest,
                    },
                )
            },
            _ => Err(CoordinatorRollbackBranchCatalogError::OutOfOrder),
        }
    }
}

/// One pass: a check of the head and a walk.
pub open spec fn pass_taken(
    passes: Result<SuffixPassesModel, CoordinatorRollbackBranchCatalogError>,
    read: Result<Option<StoredHeadModel>, String>,
    expected: StoredHeadModel,
    walk: WalkOutcomeModel,
) -> Result<SuffixPassesModel, CoordinatorRollbackBranchCatalogError> {
    match passes {
        Err(error) => Err(error),
        Ok(passes) => match head_taken(passes, read, expected) {
            Err(error) => Err(error),
            Ok(passes) => walk_taken(passes, walk),
        },
    }
}

/// A suffix counts as verified only if the head was the expected one before, between
/// and after two walks, and both selected the same suffix, whose summary it is.
pub proof fn law_verified_suffix_is_stable(
    expected: StoredHeadModel,
    reads: Seq<Result<Option<StoredHeadModel>, String>>,
    walks: Seq<WalkOutcomeModel>,
)
    ensures
        ({
            let first = pass_taken(Ok(passes_begun(false)), reads[0], expected, walks[0]);
            let second = pass_taken(first, reads[1], expected, walks[1]);
            second matches Ok(second) ==> head_taken(second, reads[2], expected) matches Ok(last)
                ==> verification_concluded(last) matches Ok(summary) ==> {
                &&& forall|i: int| 0 <= i < 3 ==> #[trigger] reads[i] == Ok::<_, String>(
                    Some(expected),
                )
                &&& walks[0] is Ok && walks[1] is Ok
                &&& walks[0]->Ok_0.0 == walks[1]->Ok_0.0
                &&& summary == walks[1]->Ok_0.0.summary
            }
        }),
{
    let first = pass_taken(Ok(passes_begun(false)), reads[0], expected, walks[0]);
    let second = pass_taken(first, reads[1], expected, walks[1]);
    if second is Ok && head_taken(second->Ok_0, reads[2], expected) is Ok {
        assert(reads[0] == Ok::<_, String>(Some(expected)));
        assert(reads[1] == Ok::<_, String>(Some(expected)));
        assert(reads[2] == Ok::<_, String>(Some(expected)));
        assert forall|i: int| 0 <= i < 3 implies #[trigger] reads[i] == Ok::<_, String>(
            Some(expected),
        ) by {
            assert(i == 0 || i == 1 || i == 2);
        }
    }
}

/// A suffix counts as archived only if the head was the expected one at all four
/// checks, the walks before, with and after the archiving selected the same suffix, and
/// four rows were archived for each of its checkpoints.
pub proof fn law_archived_suffix_is_stable(
    expected: StoredHeadModel,
    reads: Seq<Result<Option<StoredHeadModel>, String>>,
    walks: Seq<WalkOutcomeModel>,
)
    ensures
        ({
            let first = pass_taken(Ok(passes_begun(true)), reads[0], expected, walks[0]);
            let second = pass_taken(first, reads[1], expected, walks[1]);
            let third = pass_taken(second, reads[2], expected, walks[2]);
            third matches Ok(third) ==> head_taken(third, reads[3], expected) matches Ok(last)
                ==> archiving_concluded(last) matches Ok(summary) ==> {
                &&& forall|i: int| 0 <= i < 4 ==> #[trigger] reads[i] == Ok::<_, String>(
                    Some(expected),
                )
                &&& walks[0] is Ok && walks[1] is Ok && walks[2] is Ok
                &&& walks[0]->Ok_0.0 == walks[1]->Ok_0.0 && walks[1]->Ok_0.0 == walks[2]->Ok_0.0
                &&& summary.catalog == walks[0]->Ok_0.0.summary
                &&& walks[1]->Ok_0.1 matches Some(archived) && archived.rows == 4
                    * summary.catalog.suffix_rows && summary.archive_rows == archived.rows
                    && summary.archive_bytes == archived.bytes && summary.archive_digest
                    == archived.digest
            }
        }),
{
    let first = pass_taken(Ok(passes_begun(true)), reads[0], expected, walks[0]);
    let second = pass_taken(first, reads[1], expected, walks[1]);
    let third = pass_taken(second, reads[2], expected, walks[2]);
    if third is Ok && head_taken(third->Ok_0, reads[3], expected) is Ok {
        assert(first is Ok && second is Ok);
        assert(first->Ok_0.stage == SuffixPassStage::RequireHead { pass: 2 });
        assert(second->Ok_0.stage == SuffixPassStage::RequireHead { pass: 3 });
        assert(third->Ok_0.stage == SuffixPassStage::RequireHead { pass: 4 });
        assert(reads[0] == Ok::<_, String>(Some(expected)));
        assert(reads[1] == Ok::<_, String>(Some(expected)));
        assert(reads[2] == Ok::<_, String>(Some(expected)));
        assert(reads[3] == Ok::<_, String>(Some(expected)));
        assert forall|i: int| 0 <= i < 4 implies #[trigger] reads[i] == Ok::<_, String>(
            Some(expected),
        ) by {
            assert(i == 0 || i == 1 || i == 2 || i == 3);
        }
    }
}

/// A suffix that two walks select alike, under a head that stays the expected one, is
/// verified; one that they select differently is reported as changed.
pub proof fn law_stable_suffix_is_verified(
    expected: StoredHeadModel,
    first: SelectedSuffix<Seq<u64>>,
    second: SelectedSuffix<Seq<u64>>,
    archived: Option<MappingArchiveFinished>,
)
    ensures
        ({
            let read = Ok::<Option<StoredHeadModel>, String>(Some(expected));
            let one = pass_taken(Ok(passes_begun(false)), read, expected, Ok((first, archived)));
            let two = pass_taken(one, read, expected, Ok((second, archived)));
            two is Ok && (head_taken(two->Ok_0, read, expected) matches Ok(last)
                && match verification_concluded(last) {
                Ok(summary) => first == second && summary == first.summary,
                Err(error) => first != second && error is SourceChanged,
            })
        }),
{
}

/// A suffix that three walks select alike, under a head that stays the expected one, is
/// archived if the second walk archived four rows for each of its checkpoints; else the
/// count, or what else is wrong, is reported.
pub proof fn law_stable_suffix_is_archived(
    expected: StoredHeadModel,
    first: SelectedSuffix<Seq<u64>>,
    second: SelectedSuffix<Seq<u64>>,
    third: SelectedSuffix<Seq<u64>>,
    archived: MappingArchiveFinished,
    other: Option<MappingArchiveFinished>,
)
    requires
        first.summary.suffix_rows * 4 <= u64::MAX,
    ensures
        ({
            let read = Ok::<Option<StoredHeadModel>, String>(Some(expected));
            let one = pass_taken(Ok(passes_begun(true)), read, expected, Ok((first, other)));
            let two = pass_taken(one, read, expected, Ok((second, Some(archived))));
            let three = pass_taken(two, read, expected, Ok((third, other)));
            three is Ok && (head_taken(three->Ok_0, read, expected) matches Ok(last)
                && match archiving_concluded(last) {
                Ok(summary) => {
                    &&& first == second && second == third
                    &&& archived.rows == 4 * first.summary.suffix_rows
                    &&& summary.catalog == first.summary
                    &&& summary.archive_rows == archived.rows
                    &&& summary.archive_bytes == archived.bytes
                    &&& summary.archive_digest == archived.digest
                },
                Err(error) => if first == second && second == third {
                    &&& error is ArchiveRowCountMismatch
                    &&& error->ArchiveRowCountMismatch_expected == 4 * first.summary.suffix_rows
                    &&& error->ArchiveRowCountMismatch_actual == archived.rows
                    &&& error->ArchiveRowCountMismatch_expected
                        != error->ArchiveRowCountMismatch_actual
                } else {
                    error is SourceChanged
                },
            })
        }),
{
}

/// A head that is not the expected one, or is not there, ends the passes as changed, and
/// a read or a walk that fails ends them with its own error.
pub proof fn law_passes_end_with_their_first_failure(
    passes: SuffixPassesModel,
    read: Result<Option<StoredHeadModel>, String>,
    expected: StoredHeadModel,
    error: CoordinatorRollbackBranchCatalogError,
)
    ensures
        passes.stage is RequireHead ==> match head_taken(passes, read, expected) {
            Ok(next) => read == Ok::<_, String>(Some(expected)) && next.selected == passes.selected
                && next.changed == passes.changed && next.archived == passes.archived
                && next.archiving == passes.archiving,
            Err(error) => read != Ok::<_, String>(Some(expected)) && match read {
                Ok(_) => error is HeadChanged,
                Err(refused) => error == CoordinatorRollbackBranchCatalogError::Head(refused),
            },
        },
        passes.stage is Walk ==> walk_taken(passes, Err(error)) == Err::<SuffixPassesModel, _>(
            error,
        ),
{
}

/// An anchor is the decompressed transition row of the target, with the row's own write
/// time; without a row, or with one that cannot be decompressed, there is none.
pub proof fn law_anchor_is_read_at_the_target(
    catalog: BranchCatalogModel,
    read: PointRead,
    decompressed: Result<Vec<u8>, String>,
    evidence: TransitionEvidence<Seq<u8>>,
)
    ensures
        match anchor_taken(catalog, read, decompressed, evidence) {
            Ok(next) => read is Ok && read->Ok_0 is Some && decompressed is Ok
                && accumulator::with_anchor(
                catalog,
                catalog.target.height,
                PointValue {
                    value: (decompressed->Ok_0)@,
                    writetime_us: (read->Ok_0->0).writetime_us,
                },
                evidence,
            ) == Ok::<_, CoordinatorRollbackBranchCatalogError>(next),
            Err(error) => match read {
                Err(failed) => error == failed,
                Ok(None) => error == CoordinatorRollbackBranchCatalogError::MissingTransition(
                    catalog.target.height,
                ),
                Ok(Some(row)) => match decompressed {
                    Err(reason) => error
                        == (CoordinatorRollbackBranchCatalogError::MalformedTransition {
                        checkpoint_id: catalog.target.height,
                        reason,
                    }),
                    Ok(value) => accumulator::with_anchor(
                        catalog,
                        catalog.target.height,
                        PointValue { value: value@, writetime_us: row.writetime_us },
                        evidence,
                    ) == Err::<BranchCatalogModel, _>(error),
                },
            },
        },
{
}

/// What the transition row that is due leads to.
pub open spec fn transition_read(
    walk: BranchWalk,
    read: PointRead,
    result: Result<BranchWalk, CoordinatorRollbackBranchCatalogError>,
) -> bool {
    &&& { result matches Ok(next) ==> next.wf() }
    &&& match (walk.stage, read) {
        (BranchWalkStage::ReadTransition, Err(error)) => result == Err::<BranchWalk, _>(error),
        (BranchWalkStage::ReadTransition, Ok(None)) => result == Err::<BranchWalk, _>(
            CoordinatorRollbackBranchCatalogError::MissingTransition(
                walk.catalog@.next_checkpoint,
            ),
        ),
        (BranchWalkStage::ReadTransition, Ok(Some(row))) => result == Ok::<
            BranchWalk,
            CoordinatorRollbackBranchCatalogError,
        >(BranchWalk { stage: BranchWalkStage::ReadLegacyForward { row }, ..walk }),
        _ => result == Err::<BranchWalk, _>(CoordinatorRollbackBranchCatalogError::OutOfOrder),
    }
}

/// What the forward row of the legacy mapping leads to.
pub open spec fn legacy_forward_read(
    walk: BranchWalk,
    read: U64Read,
    result: Result<BranchWalk, CoordinatorRollbackBranchCatalogError>,
) -> bool {
    &&& { result matches Ok(next) ==> next.wf() }
    &&& match (walk.stage, read) {
        (BranchWalkStage::ReadLegacyForward { .. }, Err(error)) => result == Err::<
            BranchWalk,
            _,
        >(error),
        (BranchWalkStage::ReadLegacyForward { row }, Ok(forward)) => {
            match branch_scan::legacy_pending_of(walk.catalog@.next_checkpoint, forward) {
                Err(error) => result == Err::<BranchWalk, _>(error),
                Ok((pending, forward_writetime_us)) => result == Ok::<
                    BranchWalk,
                    CoordinatorRollbackBranchCatalogError,
                >(
                    BranchWalk {
                        stage: BranchWalkStage::ReadLegacyReverse {
                            row,
                            pending,
                            forward_writetime_us,
                        },
                        ..walk
                    },
                ),
            }
        },
        _ => result == Err::<BranchWalk, _>(CoordinatorRollbackBranchCatalogError::OutOfOrder),
    }
}

/// What the reverse row of the legacy mapping leads to.
pub open spec fn legacy_reverse_read(
    walk: BranchWalk,
    read: U64Read,
    result: Result<BranchWalk, CoordinatorRollbackBranchCatalogError>,
) -> bool {
    &&& { result matches Ok(next) ==> next.wf() }
    &&& match (walk.stage, read) {
        (BranchWalkStage::ReadLegacyReverse { .. }, Err(error)) => result == Err::<
            BranchWalk,
            _,
        >(error),
        (
            BranchWalkStage::ReadLegacyReverse { row, pending, forward_writetime_us },
            Ok(reverse),
        ) => match branch_scan::legacy_pair_of(
            walk.catalog@.next_checkpoint,
            pending,
            forward_writetime_us,
            reverse,
        ) {
            Err(error) => result == Err::<BranchWalk, _>(error),
            Ok(legacy) => result == Ok::<BranchWalk, CoordinatorRollbackBranchCatalogError>(
                BranchWalk {
                    stage: BranchWalkStage::VerifyTransition { row, legacy },
                    ..walk
                },
            ),
        },
        _ => result == Err::<BranchWalk, _>(CoordinatorRollbackBranchCatalogError::OutOfOrder),
    }
}

/// What the evidence of a transition leads to.
pub open spec fn evidence_taken(
    walk: BranchWalk,
    decompressed: Result<Vec<u8>, String>,
    evidence: TransitionEvidence<Vec<u8>>,
    result: Result<BranchWalk, CoordinatorRollbackBranchCatalogError>,
) -> bool {
    &&& { result matches Ok(next) ==> next.wf() }
    &&& match (walk.stage, decompressed) {
        (BranchWalkStage::VerifyTransition { .. }, Err(reason)) => result == Err::<
            BranchWalk,
            _,
        >(
            CoordinatorRollbackBranchCatalogError::MalformedTransition {
                checkpoint_id: walk.catalog@.next_checkpoint,
                reason,
            },
        ),
        (BranchWalkStage::VerifyTransition { row, legacy }, Ok(value)) => {
            match branch_transition::decoded_transition(
                walk.catalog@.position,
                walk.catalog@.next_checkpoint,
                value@,
                evidence@,
                false,
            ) {
                Err(error) => result == Err::<BranchWalk, _>(error),
                Ok(verified) => result == Ok::<BranchWalk, CoordinatorRollbackBranchCatalogError>(
                    BranchWalk {
                        stage: BranchWalkStage::ReadTargetForward {
                            transition: PointValue { value, writetime_us: row.writetime_us },
                            evidence,
                            legacy,
                            canonical: verified.canonical,
                        },
                        ..walk
                    },
                ),
            }
        },
        _ => result == Err::<BranchWalk, _>(CoordinatorRollbackBranchCatalogError::OutOfOrder),
    }
}

/// What the reverse row of the branch-exact mapping leads to.
pub open spec fn target_reverse_read(
    walk: BranchWalk,
    read: Result<Vec<TargetReverseRow<Vec<u8>>>, CoordinatorRollbackBranchCatalogError>,
    mapping_digest: [u8; 32],
    result: Result<BranchWalk, CoordinatorRollbackBranchCatalogError>,
) -> bool {
    &&& { result matches Ok(next) ==> next.wf() && next.archived == walk.archived }
    &&& match (walk.stage, read) {
        (BranchWalkStage::ReadTargetReverse { .. }, Err(error)) => result == Err::<
            BranchWalk,
            _,
        >(error),
        (
            BranchWalkStage::ReadTargetReverse {
                transition,
                evidence,
                legacy,
                forward,
                ..
            },
            Ok(reverse),
        ) => match (
            result,
            accumulator::with_suffix(
                walk.catalog@,
                walk.catalog@.next_checkpoint,
                transition@,
                evidence@,
                mapping_digest,
                legacy,
                forward@,
                branch_transition::reverse_models(reverse@),
            ),
        ) {
            (Ok(next), Ok((model, verified))) => {
                &&& next.catalog@ == model
                &&& if walk.archived is Some {
                    next.stage matches BranchWalkStage::Persist { bundle } && bundle@
                        == verified
                } else {
                    onward(model, next.stage)
                }
            },
            (Err(error), Err(expected)) => error == expected,
            _ => false,
        },
        _ => result == Err::<BranchWalk, _>(CoordinatorRollbackBranchCatalogError::OutOfOrder),
    }
}

/// What a persisted bundle leads to.
pub open spec fn bundle_persisted(
    walk: BranchWalk,
    persisted: Result<CoordinatorRollbackArchivedMappingBundle, String>,
    result: Result<BranchWalk, CoordinatorRollbackBranchCatalogError>,
) -> bool {
    match (walk.stage, walk.archived, persisted) {
        (BranchWalkStage::Persist { .. }, Some(_), Err(refused)) => result == Err::<
            BranchWalk,
            _,
        >(CoordinatorRollbackBranchCatalogError::Archive(refused)),
        (BranchWalkStage::Persist { .. }, Some(archived), Ok(bundle)) => if archived.rows
            + bundle.rows > u64::MAX || archived.bytes + bundle.canonical_bytes > u64::MAX {
            result == Err::<BranchWalk, _>(
                CoordinatorRollbackBranchCatalogError::CheckpointOverflow,
            )
        } else {
            &&& result matches Ok(next)
            &&& next.wf()
            &&& next.catalog == walk.catalog
            &&& onward(next.catalog@, next.stage)
            &&& next.archived matches Some(taken)
            &&& taken.rows == archived.rows + bundle.rows
            &&& taken.bytes == archived.bytes + bundle.canonical_bytes
            &&& taken.preimage@ == archived.preimage@ + bundle.digest@
        },
        _ => result == Err::<BranchWalk, _>(CoordinatorRollbackBranchCatalogError::OutOfOrder),
    }
}

/// A walk reads the transition, the legacy pair and the branch-exact rows of one and the
/// same checkpoint, the one that its catalog expects. What was read is carried on as it
/// was, the pending identity from the forward row and both write times with it.
pub proof fn law_walk_reads_one_checkpoint_at_a_time(
    walk: BranchWalk,
    read: PointRead,
    number: U64Read,
    decompressed: Result<Vec<u8>, String>,
    evidence: TransitionEvidence<Vec<u8>>,
    first: Result<BranchWalk, CoordinatorRollbackBranchCatalogError>,
    second: Result<BranchWalk, CoordinatorRollbackBranchCatalogError>,
    third: Result<BranchWalk, CoordinatorRollbackBranchCatalogError>,
    fourth: Result<BranchWalk, CoordinatorRollbackBranchCatalogError>,
)
    requires
        transition_read(walk, read, first),
        legacy_forward_read(walk, number, second),
        legacy_reverse_read(walk, number, third),
        evidence_taken(walk, decompressed, evidence, fourth),
    ensures
        first matches Ok(next) ==> walk.stage is ReadTransition && next.catalog == walk.catalog
            && next.archived == walk.archived && read == Ok::<
            _,
            CoordinatorRollbackBranchCatalogError,
        >(Some(next.stage->ReadLegacyForward_row)) && next.stage is ReadLegacyForward,
        walk.stage is ReadTransition && read == Ok::<
            Option<PointValue<Vec<u8>>>,
            CoordinatorRollbackBranchCatalogError,
        >(None) ==> first == Err::<BranchWalk, _>(
            CoordinatorRollbackBranchCatalogError::MissingTransition(walk.catalog@.next_checkpoint),
        ),
        second matches Ok(next) ==> walk.stage is ReadLegacyForward && next.catalog == walk.catalog
            && next.archived == walk.archived && next.stage is ReadLegacyReverse
            && next.stage->ReadLegacyReverse_row == walk.stage->ReadLegacyForward_row && (
        number matches Ok(Some((pending, writetime))) && next.stage->ReadLegacyReverse_pending.value
            == pending && next.stage->ReadLegacyReverse_forward_writetime_us == writetime),
        third matches Ok(next) ==> walk.stage is ReadLegacyReverse && next.catalog == walk.catalog
            && next.archived == walk.archived && next.stage is VerifyTransition
            && next.stage->VerifyTransition_row == walk.stage->ReadLegacyReverse_row
            && next.stage->VerifyTransition_legacy.pending_id
            == walk.stage->ReadLegacyReverse_pending
            && next.stage->VerifyTransition_legacy.forward_writetime_us
            == walk.stage->ReadLegacyReverse_forward_writetime_us && (number matches Ok(
            Some((checkpoint, writetime)),
        ) && checkpoint == walk.catalog@.next_checkpoint
            && next.stage->VerifyTransition_legacy.reverse_writetime_us == writetime),
        fourth matches Ok(next) ==> walk.stage is VerifyTransition && next.catalog == walk.catalog
            && next.archived == walk.archived && next.stage is ReadTargetForward
            && decompressed == Ok::<_, String>(next.stage->ReadTargetForward_transition.value)
            && next.stage->ReadTargetForward_transition.writetime_us
            == walk.stage->VerifyTransition_row.writetime_us
            && next.stage->ReadTargetForward_legacy == walk.stage->VerifyTransition_legacy
            && next.stage->ReadTargetForward_canonical.canonical == evidence.canonical
            && next.stage->ReadTargetForward_canonical.checkpoint.height
            == walk.catalog@.next_checkpoint,
{
}

/// A walk takes a checkpoint into its catalog exactly as the catalog takes it, and goes on
/// to the next one: right away if it does not archive, and behind the persisted bundle of
/// that very checkpoint if it does, whose rows and bytes it counts.
pub proof fn law_walk_archives_what_it_verified(
    walk: BranchWalk,
    read: Result<Vec<TargetReverseRow<Vec<u8>>>, CoordinatorRollbackBranchCatalogError>,
    mapping_digest: [u8; 32],
    persisted: Result<CoordinatorRollbackArchivedMappingBundle, String>,
    taken: Result<BranchWalk, CoordinatorRollbackBranchCatalogError>,
    kept: Result<BranchWalk, CoordinatorRollbackBranchCatalogError>,
)
    requires
        target_reverse_read(walk, read, mapping_digest, taken),
        bundle_persisted(walk, persisted, kept),
    ensures
        taken matches Ok(next) ==> walk.stage is ReadTargetReverse && read is Ok && (
        accumulator::with_suffix(
            walk.catalog@,
            walk.catalog@.next_checkpoint,
            walk.stage->ReadTargetReverse_transition@,
            walk.stage->ReadTargetReverse_evidence@,
            mapping_digest,
            walk.stage->ReadTargetReverse_legacy,
            walk.stage->ReadTargetReverse_forward@,
            branch_transition::reverse_models((read->Ok_0)@),
        ) matches Ok((model, bundle)) && next.catalog@ == model && next.archived == walk.archived
            && if walk.archived is Some {
            next.stage is Persist && next.stage->Persist_bundle@ == bundle
        } else if model.next_checkpoint <= model.requested_head.height {
            next.stage is ReadTransition
        } else {
            next.stage is Finished
        }),
        kept matches Ok(next) ==> walk.stage is Persist && walk.archived is Some && persisted is Ok
            && next.catalog == walk.catalog && next.archived is Some && next.archived->0.rows
            == walk.archived->0.rows + persisted->Ok_0.rows && next.archived->0.bytes
            == walk.archived->0.bytes + persisted->Ok_0.canonical_bytes
            && next.archived->0.preimage@ == walk.archived->0.preimage@ + persisted->Ok_0.digest@
            && if walk.catalog@.next_checkpoint <= walk.catalog@.requested_head.height {
            next.stage is ReadTransition
        } else {
            next.stage is Finished
        },
        walk.stage is Persist && walk.archived is Some && persisted is Err ==> kept == Err::<
            BranchWalk,
            _,
        >(CoordinatorRollbackBranchCatalogError::Archive(persisted->Err_0)),
{
}

} // verus!
