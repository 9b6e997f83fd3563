//! Writing archive rows, fragment by fragment, and driving a whole suffix.
//!
//! The caller inserts and reads; what it has to do next, and what its outcomes
//! come to, is decided here. A row counts as archived only once the archive was
//! read to hold it and its source still reads the same.

use vstd::prelude::*;

use crate::bytes::copy_bytes;
use crate::coordinator_rollback_archive_plan::CoordinatorRollbackArchivePlan;
use crate::coordinator_rollback_archive_scan as archive_scan;
use crate::coordinator_rollback_archive_scan::{
    require_current_head, require_unchanged_source, CheckpointKivSourceRow,
    CheckpointPartitionScan, CoordinatorRollbackArchiveScanSummary,
    PersistedCoordinatorRollbackArchiveRowReceipt,
};
use crate::coordinator_rollback_archive_store as archive_store;
use crate::coordinator_rollback_archive_store::{
    CoordinatorCheckpointPartitionKivSource, CoordinatorRollbackArchiveRowError,
    CoordinatorRollbackArchiveStoreError, CoordinatorRollbackCheckpointKivArchiveRow, Fragment,
    KivArchiveRow, KivArchiveRowModel,
};
use crate::coordinator_rollback_mapping_archive_row as mapping_archive_row;
use crate::coordinator_rollback_mapping_archive_row::MappingArchiveRow;
use crate::identity::ScyllaKeyDomain;
use crate::lwt;
use crate::lwt::{settle, LwtReadback, LwtVerdict, LwtWrite, Stored};
use crate::model::{NetworkId, StoredHead};
use crate::registry::Registry;

verus! {

/// Where the archive keeps the fragments of a row, as its columns hold it.
#[derive(Clone, Copy, Debug, PartialEq, Eq)]
pub struct ArchiveCoordinates {
    pub network_chain_id: i64,
    pub chain_epoch: i64,
    pub participant_plan_digest: [u8; 32],
    pub key_domain: i16,
    pub slot: [u8; 32],
}

/// The coordinates of a row, as far as the columns reach.
pub open spec fn coordinates_of(
    network: NetworkId,
    chain_epoch: u64,
    participant_plan_digest: [u8; 32],
    key_domain: ScyllaKeyDomain,
    slot: [u8; 32],
) -> Result<ArchiveCoordinates, CoordinatorRollbackArchiveStoreError> {
    if chain_epoch > i64::MAX || key_domain.spec_stable_id() > i16::MAX {
        Err(CoordinatorRollbackArchiveStoreError::IntegerOutOfCqlRange)
    } else {
        Ok(
            ArchiveCoordinates {
                network_chain_id: network.chain_id as i64,
                chain_epoch: chain_epoch as i64,
                participant_plan_digest,
                key_domain: key_domain.spec_stable_id() as i16,
                slot,
            },
        )
    }
}

fn coordinates(
    network: NetworkId,
    chain_epoch: u64,
    participant_plan_digest: [u8; 32],
    key_domain: ScyllaKeyDomain,
    slot: [u8; 32],
) -> (result: Result<ArchiveCoordinates, CoordinatorRollbackArchiveStoreError>)
    ensures
        result == coordinates_of(network, chain_epoch, participant_plan_digest, key_domain, slot),
{
    let domain: u16 = key_domain.stable_id();
    if chain_epoch > i64::MAX as u64 || domain > i16::MAX as u16 {
        return Err(CoordinatorRollbackArchiveStoreError::IntegerOutOfCqlRange);
    }
    Ok(
        ArchiveCoordinates {
            network_chain_id: network.chain_id as i64,
            chain_epoch: chain_epoch as i64,
            participant_plan_digest,
            key_domain: domain as i16,
            slot,
        },
    )
}

/// Where the archive keeps a checkpoint row.
pub fn kiv_coordinates(row: &KivArchiveRow) -> (result: Result<
    ArchiveCoordinates,
    CoordinatorRollbackArchiveStoreError,
>)
    ensures
        result == coordinates_of(
            row.header.network,
            row.header.chain_epoch,
            row.header.participant_plan_digest.0,
            row.header.key_domain,
            row.slot.0,
        ),
{
    coordinates(
        row.header.network,
        row.header.chain_epoch,
        row.header.participant_plan_digest.0,
        row.header.key_domain,
        row.slot.0,
    )
}

/// Where the archive keeps a mapping row. It stands under the epoch of the rollback.
pub fn mapping_coordinates(row: &MappingArchiveRow) -> (result: Result<
    ArchiveCoordinates,
    CoordinatorRollbackArchiveStoreError,
>)
    ensures
        result == coordinates_of(
            row.header.network,
            row.header.rollback_epoch,
            row.header.participant_plan_digest.0,
            row.header.key_domain,
            row.slot.0,
        ),
{
    coordinates(
        row.header.network,
        row.header.rollback_epoch,
        row.header.participant_plan_digest.0,
        row.header.key_domain,
        row.slot.0,
    )
}

/// The key of a checkpoint in its source table.
pub fn source_key(checkpoint: u64) -> (result: Result<i64, CoordinatorRollbackArchiveStoreError>)
    ensures
        match result {
            Ok(key) => key == checkpoint,
            Err(error) => checkpoint > i64::MAX && error
                == CoordinatorRollbackArchiveStoreError::IntegerOutOfCqlRange,
        },
{
    if checkpoint > i64::MAX as u64 {
        Err(CoordinatorRollbackArchiveStoreError::IntegerOutOfCqlRange)
    } else {
        Ok(checkpoint as i64)
    }
}

/// What the archive has to do next for a row to be persisted.
#[derive(Clone, Copy, Debug, PartialEq, Eq, Structural)]
pub enum PersistStep {
    Insert(usize),
    ReadFragment(usize),
    ReadRow,
}

/// A read of a fragment that failed, and the text of its failure.
#[derive(Clone, Debug, PartialEq, Eq)]
pub struct FragmentReadFailure {
    pub error: CoordinatorRollbackArchiveStoreError,
    pub text: String,
}

/// Inserts the fragments of a row in order. A fragment whose insert was refused or
/// failed is read back before the next one is inserted.
#[derive(Debug, PartialEq, Eq)]
pub struct FragmentedPersist {
    pub fragments: Vec<Fragment>,
    /// How many fragments the archive is known to hold.
    pub written: usize,
    /// The insert of the next fragment, if its outcome is still open.
    pub open: Option<LwtWrite>,
}

impl FragmentedPersist {
    pub open spec fn wf(&self) -> bool {
        &&& self.written <= self.fragments@.len()
        &&& self.open is Some ==> self.written < self.fragments@.len() && !(self.open->0
            is Applied)
    }

    pub open spec fn step(&self) -> PersistStep {
        if self.written >= self.fragments@.len() {
            PersistStep::ReadRow
        } else if self.open is Some {
            PersistStep::ReadFragment(self.written)
        } else {
            PersistStep::Insert(self.written)
        }
    }

    pub fn begin(fragments: Vec<Fragment>) -> (persist: Self)
        ensures
            persist.wf(),
            persist.fragments == fragments,
            persist.written == 0,
            persist.open is None,
    {
        FragmentedPersist { fragments, written: 0, open: None }
    }

    pub fn next_step(&self) -> (step: PersistStep)
        ensures
            step == self.step(),
    {
        if self.written >= self.fragments.len() {
            PersistStep::ReadRow
        } else if self.open.is_some() {
            PersistStep::ReadFragment(self.written)
        } else {
            PersistStep::Insert(self.written)
        }
    }

    /// Takes the outcome of the insert that was due.
    pub fn inserted(&mut self, write: LwtWrite)
        requires
            old(self).wf(),
            old(self).step() is Insert,
        ensures
            final(self).wf(),
            final(self).fragments == old(self).fragments,
            if write is Applied {
                final(self).written == old(self).written + 1 && final(self).open is None
            } else {
                final(self).written == old(self).written && final(self).open == Some(write)
            },
    {
        let count: usize = self.fragments.len();
        assert(self.written < count);
        match write {
            LwtWrite::Applied => {
                self.written = self.written + 1;
            },
            _ => {
                self.open = Some(write);
            },
        }
    }

    /// Takes the read behind an insert that was refused or failed. Only the exact
    /// fragment settles it.
    pub fn read_back(&mut self, read: Result<Option<Fragment>, FragmentReadFailure>) -> (result:
        Result<(), CoordinatorRollbackArchiveStoreError>)
        requires
            old(self).wf(),
            old(self).step() is ReadFragment,
        ensures
            fragment_read_back(*old(self), read, *final(self), result),
    {
        let count: usize = self.fragments.len();
        assert(self.written < count);
        let write = match self.open.take() {
            Some(write) => write,
            None => LwtWrite::NotApplied,
        };
        let readback = match read {
            Ok(Some(found)) => LwtReadback::Found(
                if found.same(&self.fragments[self.written]) {
                    Stored::Same
                } else {
                    Stored::Other
                },
            ),
            Ok(None) => LwtReadback::Found(Stored::Absent),
            Err(read) => LwtReadback::Failed { error: read.error, text: read.text },
        };
        match settle(write, readback) {
            LwtVerdict::Persisted => {
                self.written = self.written + 1;
                Ok(())
            },
            LwtVerdict::Conflict => Err(CoordinatorRollbackArchiveStoreError::Conflict),
            LwtVerdict::ReadFailed(error) => Err(error),
            LwtVerdict::Indeterminate(reason) => Err(
                CoordinatorRollbackArchiveStoreError::Indeterminate(reason),
            ),
        }
    }
}

/// The receipt of an archived source row.
pub type KivReceipt = PersistedCoordinatorRollbackArchiveRowReceipt<KivArchiveRow>;

/// What the archiving of a suffix has to do next.
#[derive(Debug, PartialEq, Eq)]
pub enum SuffixStage {
    CheckHead,
    ReadSource { source: CoordinatorCheckpointPartitionKivSource, checkpoint: u64 },
    Persist { before: CheckpointKivSourceRow<Vec<u8>>, row: KivArchiveRow },
    Revalidate { before: CheckpointKivSourceRow<Vec<u8>>, receipt: KivReceipt },
    ReadSourceAgain { before: CheckpointKivSourceRow<Vec<u8>>, receipt: KivReceipt },
    CheckHeadAgain,
    Finished(CoordinatorRollbackArchiveScanSummary),
}

/// Copies the checkpoint partitions of a suffix into the archive, row by row.
#[derive(Debug, PartialEq, Eq)]
pub struct KivSuffixArchive<'a> {
    pub expected_head: &'a StoredHead,
    pub plan: &'a CoordinatorRollbackArchivePlan,
    pub registry: &'a Registry,
    pub scan: CheckpointPartitionScan,
    pub stage: SuffixStage,
}

/// What a scan has to do next: read the row that is due, or check the head again.
pub open spec fn stage_due(scan: CheckpointPartitionScan) -> SuffixStage {
    if scan.source_index < 4 {
        SuffixStage::ReadSource {
            source: archive_store::spec_all_sources()[scan.source_index as int],
            checkpoint: scan.checkpoint,
        }
    } else {
        SuffixStage::CheckHeadAgain
    }
}

/// The summary that a finished scan comes to.
pub open spec fn summary_of(
    scan: CheckpointPartitionScan,
    summary: CoordinatorRollbackArchiveScanSummary,
) -> bool {
    &&& summary.row_count == scan.row_count
    &&& summary.canonical_bytes == scan.canonical_bytes
    &&& summary.dataset_digest == crate::hash::sha256(
        scan.dataset@ + crate::bytes::be64(scan.row_count) + crate::bytes::be64(
            scan.canonical_bytes,
        ),
    )
}

/// The archive row of a source row at a source and a checkpoint of the suffix.
pub open spec fn admitted_at(
    expected_head: &StoredHead,
    plan: &CoordinatorRollbackArchivePlan,
    registry: &Registry,
    source_index: int,
    checkpoint: u64,
    before: CheckpointKivSourceRow<Seq<u8>>,
) -> Result<KivArchiveRowModel, CoordinatorRollbackArchiveRowError> {
    archive_store::admitted_kiv_row(
        expected_head.canonical.network,
        expected_head.canonical.chain_epoch,
        plan,
        registry,
        archive_store::spec_all_sources()[source_index],
        checkpoint,
        before.value,
        before.writetime_us,
    )
}

/// The row at the `i`-th read of a suffix was admitted from a row of that source and
/// checkpoint.
pub open spec fn row_was_admitted(
    expected_head: &StoredHead,
    plan: &CoordinatorRollbackArchivePlan,
    registry: &Registry,
    i: int,
    row: KivArchiveRowModel,
) -> bool {
    let start = plan.request.target.height;
    let width = plan.request.requested_head.height - start;
    exists|before: CheckpointKivSourceRow<Seq<u8>>| #[trigger]
        admitted_at(
            expected_head,
            plan,
            registry,
            i / width,
            (start + 1 + i % width) as u64,
            before,
        ) == Ok::<KivArchiveRowModel, CoordinatorRollbackArchiveRowError>(row)
}

/// What the dataset of a suffix holds once its first reads found these rows.
pub open spec fn dataset_after(
    plan: &CoordinatorRollbackArchivePlan,
    rows: Seq<Option<KivArchiveRowModel>>,
) -> Seq<u8>
    decreases rows.len(),
{
    let width = plan.request.requested_head.height - plan.request.target.height;
    if rows.len() == 0 {
        archive_scan::dataset_front(plan)
    } else {
        let read = rows.len() - 1;
        let added = match rows.last() {
            Some(row) => archive_scan::member_bytes(row.slot, row.digest),
            None => Seq::empty(),
        };
        let moved = if read % width == width - 1 && read / width < 3 {
            archive_scan::source_domain_bytes(read / width + 1)
        } else {
            Seq::empty()
        };
        dataset_after(plan, rows.drop_last()) + added + moved
    }
}

/// How many reads found a row.
pub open spec fn rows_found(rows: Seq<Option<KivArchiveRowModel>>) -> nat
    decreases rows.len(),
{
    if rows.len() == 0 {
        0
    } else {
        rows_found(rows.drop_last()) + if rows.last() is Some {
            1nat
        } else {
            0
        }
    }
}

/// The bytes of all rows that were found.
pub open spec fn bytes_found(rows: Seq<Option<KivArchiveRowModel>>) -> nat
    decreases rows.len(),
{
    if rows.len() == 0 {
        0
    } else {
        bytes_found(rows.drop_last()) + match rows.last() {
            Some(row) => row.canonical_bytes.len(),
            None => 0,
        }
    }
}

/// A scan has come this far by archiving exactly these rows, each admitted from its own
/// source and checkpoint.
pub open spec fn archived_run(
    expected_head: &StoredHead,
    plan: &CoordinatorRollbackArchivePlan,
    registry: &Registry,
    scan: CheckpointPartitionScan,
    rows: Seq<Option<KivArchiveRowModel>>,
) -> bool {
    &&& scan.start == plan.request.target.height
    &&& scan.end == plan.request.requested_head.height
    &&& rows.len() == if scan.start < scan.end {
        scan.position()
    } else {
        0
    }
    &&& scan.dataset@ == dataset_after(plan, rows)
    &&& scan.row_count == rows_found(rows)
    &&& scan.canonical_bytes == bytes_found(rows)
    &&& forall|i: int|
        0 <= i < rows.len() ==> (#[trigger] rows[i] matches Some(row) ==> row_was_admitted(
            expected_head,
            plan,
            registry,
            i,
            row,
        ))
}

pub open spec fn has_run(
    expected_head: &StoredHead,
    plan: &CoordinatorRollbackArchivePlan,
    registry: &Registry,
    scan: CheckpointPartitionScan,
) -> bool {
    exists|rows: Seq<Option<KivArchiveRowModel>>| #[trigger]
        archived_run(expected_head, plan, registry, scan, rows)
}

/// A run goes on with the read that is due.
proof fn lemma_run_goes_on(
    expected_head: &StoredHead,
    plan: &CoordinatorRollbackArchivePlan,
    registry: &Registry,
    before: CheckpointPartitionScan,
    archived: Option<KivArchiveRowModel>,
    after: CheckpointPartitionScan,
)
    requires
        has_run(expected_head, plan, registry, before),
        before.wf(),
        before.source_index < 4,
        archive_scan::recorded(before, archived, after),
        archived matches Some(row) ==> exists|source: CheckpointKivSourceRow<Seq<u8>>| #[trigger]
            admitted_at(
                expected_head,
                plan,
                registry,
                before.source_index as int,
                before.checkpoint,
                source,
            ) == Ok::<KivArchiveRowModel, CoordinatorRollbackArchiveRowError>(row),
    ensures
        has_run(expected_head, plan, registry, after),
{
    let rows = choose|rows: Seq<Option<KivArchiveRowModel>>| #[trigger]
        archived_run(expected_head, plan, registry, before, rows);
    let next = rows.push(archived);
    archive_scan::law_scan_covers_the_suffix(before);
    assert(next.drop_last() =~= rows);
    let read = rows.len() as int;
    let width = before.width();
    assert(read / width == before.source_index);
    assert(read % width == before.checkpoint - before.start - 1);
    assert forall|i: int| 0 <= i < next.len() implies (#[trigger] next[i] matches Some(row)
        ==> row_was_admitted(expected_head, plan, registry, i, row)) by {
        if i < rows.len() {
            assert(next[i] == rows[i]);
        } else if let Some(row) = archived {
            let source = choose|source: CheckpointKivSourceRow<Seq<u8>>| #[trigger]
                admitted_at(
                    expected_head,
                    plan,
                    registry,
                    before.source_index as int,
                    before.checkpoint,
                    source,
                ) == Ok::<KivArchiveRowModel, CoordinatorRollbackArchiveRowError>(row);
            assert(admitted_at(
                expected_head,
                plan,
                registry,
                i / width,
                (before.start + 1 + i % width) as u64,
                source,
            ) == Ok::<KivArchiveRowModel, CoordinatorRollbackArchiveRowError>(row));
        }
    }
    assert(archived_run(expected_head, plan, registry, after, next));
}

impl<'a> KivSuffixArchive<'a> {
    /// While something is left to read, the stage is about the row that is due: what is
    /// persisted is what the plan admits from that source, and what was counted before
    /// was admitted so too.
    pub open spec fn wf(&self) -> bool {
        &&& self.scan.wf()
        &&& has_run(self.expected_head, self.plan, self.registry, self.scan)
        &&& match self.stage {
            SuffixStage::CheckHead => true,
            SuffixStage::ReadSource { .. } => self.stage == stage_due(self.scan)
                && self.scan.source_index < 4,
            SuffixStage::Persist { before, row } => self.scan.source_index < 4 && self.admitted(
                before@,
            ) == Ok::<KivArchiveRowModel, CoordinatorRollbackArchiveRowError>(row@),
            SuffixStage::Revalidate { before, receipt }
            | SuffixStage::ReadSourceAgain { before, receipt } => self.scan.source_index < 4
                && self.admitted(before@) == Ok::<
                KivArchiveRowModel,
                CoordinatorRollbackArchiveRowError,
            >(receipt.row@),
            SuffixStage::CheckHeadAgain => self.scan.source_index == 4,
            SuffixStage::Finished(summary) => self.scan.source_index == 4 && summary_of(
                self.scan,
                summary,
            ),
        }
    }

    /// The archive row of the source row that is due.
    pub open spec fn admitted(&self, before: CheckpointKivSourceRow<Seq<u8>>) -> Result<
        KivArchiveRowModel,
        CoordinatorRollbackArchiveRowError,
    > {
        admitted_at(
            self.expected_head,
            self.plan,
            self.registry,
            self.scan.source_index as int,
            self.scan.checkpoint,
            before,
        )
    }

    /// The next step of the same archiving.
    pub open spec fn follows(&self, before: &Self) -> bool {
        &&& self.wf()
        &&& self.expected_head == before.expected_head
        &&& self.plan == before.plan
        &&& self.registry == before.registry
    }

    pub fn begin(
        expected_head: &'a StoredHead,
        plan: &'a CoordinatorRollbackArchivePlan,
        registry: &'a Registry,
    ) -> (result: Result<Self, CoordinatorRollbackArchiveStoreError>)
        ensures
            match result {
                Ok(archive) => {
                    &&& archive.wf()
                    &&& archive.stage is CheckHead
                    &&& archive.expected_head == expected_head
                    &&& archive.plan == plan
                    &&& archive.registry == registry
                    &&& mapping_archive_row::exact_archiving_head(
                        expected_head.control,
                        expected_head.canonical.checkpoint,
                        plan,
                    )
                    &&& archived_run(expected_head, plan, registry, archive.scan, Seq::empty())
                    &&& archive.scan.start >= archive.scan.end ==> archive.scan.source_index == 4
                },
                Err(error) => if mapping_archive_row::exact_archiving_head(
                    expected_head.control,
                    expected_head.canonical.checkpoint,
                    plan,
                ) {
                    error == CoordinatorRollbackArchiveStoreError::CheckpointOverflow
                        && plan.request.target.height == u64::MAX
                } else {
                    error == CoordinatorRollbackArchiveStoreError::NotExactArchivingHead
                },
            },
    {
        match CheckpointPartitionScan::begin(expected_head, plan) {
            Ok(scan) => {
                proof {
                    let none = Seq::<Option<KivArchiveRowModel>>::empty();
                    assert(archived_run(expected_head, plan, registry, scan, none));
                }
                Ok(
                    KivSuffixArchive {
                        expected_head,
                        plan,
                        registry,
                        scan,
                        stage: SuffixStage::CheckHead,
                    },
                )
            },
            Err(error) => Err(error),
        }
    }

    /// Goes on with a scan: the read that is due, or the last check of the head.
    fn proceed(
        expected_head: &'a StoredHead,
        plan: &'a CoordinatorRollbackArchivePlan,
        registry: &'a Registry,
        scan: CheckpointPartitionScan,
    ) -> (archive: Self)
        requires
            scan.wf(),
            has_run(expected_head, plan, registry, scan),
        ensures
            archive.expected_head == expected_head,
            archive.plan == plan,
            archive.registry == registry,
            archive.scan == scan,
            archive.stage == stage_due(scan),
            archive.wf(),
    {
        let stage = match scan.next_read() {
            Some((source, checkpoint)) => SuffixStage::ReadSource { source, checkpoint },
            None => SuffixStage::CheckHeadAgain,
        };
        KivSuffixArchive { expected_head, plan, registry, scan, stage }
    }

    /// Takes a read of the head, in front of the first row and behind the last one.
    pub fn take_head(self, read: Result<Option<StoredHead>, String>) -> (result: Result<
        Self,
        CoordinatorRollbackArchiveStoreError,
    >)
        requires
            self.wf(),
        ensures
            head_checked(self, read, result),
    {
        match self.stage {
            SuffixStage::CheckHead => {
                match require_current_head(read, self.expected_head) {
                    Err(error) => return Err(error),
                    Ok(_) => {},
                }
                Ok(Self::proceed(self.expected_head, self.plan, self.registry, self.scan))
            },
            SuffixStage::CheckHeadAgain => {
                match require_current_head(read, self.expected_head) {
                    Err(error) => return Err(error),
                    Ok(_) => {},
                }
                let scan = self.scan;
                let summary = scan.summary();
                Ok(
                    KivSuffixArchive {
                        expected_head: self.expected_head,
                        plan: self.plan,
                        registry: self.registry,
                        scan,
                        stage: SuffixStage::Finished(summary),
                    },
                )
            },
            _ => Err(CoordinatorRollbackArchiveStoreError::OutOfOrder),
        }
    }

    /// Takes the read of the source row that is due. A row that is there has to be
    /// persisted next; one that is not is passed over.
    pub fn take_source(
        self,
        read: Result<Option<CheckpointKivSourceRow<Vec<u8>>>, CoordinatorRollbackArchiveStoreError>,
    ) -> (result: Result<Self, CoordinatorRollbackArchiveStoreError>)
        requires
            self.wf(),
        ensures
            source_read(self, read, result),
    {
        match self.stage {
            SuffixStage::ReadSource { source, checkpoint } => match read {
                Err(error) => Err(error),
                Ok(None) => {
                    let ghost before = self.scan;
                    let mut scan = self.scan;
                    match scan.record(None) {
                        Err(error) => Err(error),
                        Ok(_) => {
                            proof {
                                lemma_run_goes_on(
                                    self.expected_head,
                                    self.plan,
                                    self.registry,
                                    before,
                                    None,
                                    scan,
                                );
                            }
                            Ok(
                                Self::proceed(
                                    self.expected_head,
                                    self.plan,
                                    self.registry,
                                    scan,
                                ),
                            )
                        },
                    }
                },
                Ok(Some(before)) => {
                    match CoordinatorRollbackCheckpointKivArchiveRow::try_checkpoint_partition_kiv(
                        self.expected_head.canonical.network,
                        self.expected_head.canonical.chain_epoch,
                        self.plan,
                        self.registry,
                        source,
                        checkpoint,
                        copy_bytes(&before.value),
                        before.writetime_us,
                    ) {
                        Err(error) => Err(CoordinatorRollbackArchiveStoreError::Row(error)),
                        Ok(row) => Ok(
                            KivSuffixArchive {
                                expected_head: self.expected_head,
                                plan: self.plan,
                                registry: self.registry,
                                scan: self.scan,
                                stage: SuffixStage::Persist { before, row },
                            },
                        ),
                    }
                },
            },
            _ => Err(CoordinatorRollbackArchiveStoreError::OutOfOrder),
        }
    }

    /// Takes the receipt of the row that was persisted. It has to be that row's.
    pub fn take_receipt(
        self,
        persisted: Result<KivReceipt, CoordinatorRollbackArchiveStoreError>,
    ) -> (result: Result<Self, CoordinatorRollbackArchiveStoreError>)
        requires
            self.wf(),
        ensures
            row_persisted(self, persisted, result),
    {
        match self.stage {
            SuffixStage::Persist { before, row } => match persisted {
                Err(error) => Err(error),
                Ok(receipt) => if receipt.row.same(&row) {
                    Ok(
                        KivSuffixArchive {
                            expected_head: self.expected_head,
                            plan: self.plan,
                            registry: self.registry,
                            scan: self.scan,
                            stage: SuffixStage::Revalidate { before, receipt },
                        },
                    )
                } else {
                    Err(CoordinatorRollbackArchiveStoreError::Conflict)
                },
            },
            _ => Err(CoordinatorRollbackArchiveStoreError::OutOfOrder),
        }
    }

    /// Takes the revalidation of the receipt.
    pub fn take_revalidation(
        self,
        revalidated: Result<(), CoordinatorRollbackArchiveStoreError>,
    ) -> (result: Result<Self, CoordinatorRollbackArchiveStoreError>)
        requires
            self.wf(),
        ensures
            match (self.stage, revalidated) {
                (SuffixStage::Revalidate { .. }, Err(error)) => result == Err::<Self, _>(error),
                (SuffixStage::Revalidate { before, receipt }, Ok(_)) => result matches Ok(next)
                    && next.follows(&self) && next.scan == self.scan && next.stage
                    == (SuffixStage::ReadSourceAgain { before, receipt }),
                _ => result == Err::<Self, _>(CoordinatorRollbackArchiveStoreError::OutOfOrder),
            },
    {
        match self.stage {
            SuffixStage::Revalidate { before, receipt } => match revalidated {
                Err(error) => Err(error),
                Ok(_) => Ok(
                    KivSuffixArchive {
                        expected_head: self.expected_head,
                        plan: self.plan,
                        registry: self.registry,
                        scan: self.scan,
                        stage: SuffixStage::ReadSourceAgain { before, receipt },
                    },
                ),
            },
            _ => Err(CoordinatorRollbackArchiveStoreError::OutOfOrder),
        }
    }

    /// Takes the second read of the source. The row counts only if it has not changed.
    pub fn take_source_again(
        self,
        read: Result<Option<CheckpointKivSourceRow<Vec<u8>>>, CoordinatorRollbackArchiveStoreError>,
    ) -> (result: Result<Self, CoordinatorRollbackArchiveStoreError>)
        requires
            self.wf(),
        ensures
            source_read_again(self, read, result),
    {
        match self.stage {
            SuffixStage::ReadSourceAgain { before, receipt } => match read {
                Err(error) => Err(error),
                Ok(after) => {
                    match require_unchanged_source(&before, &after) {
                        Err(error) => return Err(error),
                        Ok(_) => {},
                    }
                    let ghost so_far = self.scan;
                    let mut scan = self.scan;
                    match scan.record(Some(&receipt.row)) {
                        Err(error) => Err(error),
                        Ok(_) => {
                            proof {
                                assert(admitted_at(
                                    self.expected_head,
                                    self.plan,
                                    self.registry,
                                    so_far.source_index as int,
                                    so_far.checkpoint,
                                    before@,
                                ) == Ok::<KivArchiveRowModel, CoordinatorRollbackArchiveRowError>(
                                    receipt.row@,
                                ));
                                lemma_run_goes_on(
                                    self.expected_head,
                                    self.plan,
                                    self.registry,
                                    so_far,
                                    Some(receipt.row@),
                                    scan,
                                );
                            }
                            Ok(
                                Self::proceed(
                                    self.expected_head,
                                    self.plan,
                                    self.registry,
                                    scan,
                                ),
                            )
                        },
                    }
                },
            },
            _ => Err(CoordinatorRollbackArchiveStoreError::OutOfOrder),
        }
    }
}

/// A suffix is finished only when every checkpoint of every source has been read. Its
/// summary counts and commits exactly the rows that were found, each of which the plan
/// admitted from its own source and checkpoint.
pub proof fn law_finished_suffix_is_complete(archive: KivSuffixArchive<'_>)
    requires
        archive.wf(),
        archive.scan.start < archive.scan.end,
    ensures
        archive.stage matches SuffixStage::Finished(summary) ==> exists|rows: Seq<Option<KivArchiveRowModel>>| #[trigger]
            archived_run(archive.expected_head, archive.plan, archive.registry, archive.scan, rows)
                && rows.len() == 4 * archive.scan.width() && summary.row_count == rows_found(rows)
                && summary.canonical_bytes == bytes_found(rows) && summary.dataset_digest
                == crate::hash::sha256(
                dataset_after(archive.plan, rows) + crate::bytes::be64(summary.row_count)
                    + crate::bytes::be64(summary.canonical_bytes),
            ),
{
}

/// A row is kept where its chain, plan, domain and slot say, each in its own column, and
/// nowhere if its epoch does not fit the store.
pub proof fn law_rows_are_kept_at_their_coordinates(
    network: NetworkId,
    chain_epoch: u64,
    participant_plan_digest: [u8; 32],
    key_domain: ScyllaKeyDomain,
    slot: [u8; 32],
)
    ensures
        match coordinates_of(network, chain_epoch, participant_plan_digest, key_domain, slot) {
            Ok(coordinates) => {
                &&& coordinates.network_chain_id == network.chain_id
                &&& coordinates.chain_epoch == chain_epoch
                &&& coordinates.participant_plan_digest == participant_plan_digest
                &&& coordinates.key_domain == key_domain.spec_stable_id()
                &&& coordinates.slot == slot
            },
            Err(error) => error is IntegerOutOfCqlRange && (chain_epoch > i64::MAX
                || key_domain.spec_stable_id() > i16::MAX),
        },
{
}

/// A persistence inserts the first fragment that the archive is not known to hold, reads
/// it back if its insert is still open, and reads the row once all fragments are there.
pub proof fn law_fragments_are_inserted_in_order(persist: FragmentedPersist)
    requires
        persist.wf(),
    ensures
        persist.step() is ReadRow <==> persist.written == persist.fragments@.len(),
        persist.step() == PersistStep::Insert(persist.written) <==> persist.written
            < persist.fragments@.len() && persist.open is None,
        persist.step() == PersistStep::ReadFragment(persist.written) <==> persist.open is Some,
{
}

/// While a scan has something left, the row that is due is the one of its own source at
/// its own checkpoint; then the head is checked again.
pub proof fn law_due_row_is_the_scans_own(scan: CheckpointPartitionScan)
    requires
        scan.wf(),
    ensures
        stage_due(scan) is CheckHeadAgain <==> scan.source_index == 4,
        scan.source_index < 4 ==> stage_due(scan) is ReadSource
            && stage_due(scan)->ReadSource_checkpoint == scan.checkpoint && match scan.source_index {
            0usize => stage_due(scan)->ReadSource_source is CheckpointLeaf,
            1usize => stage_due(scan)->ReadSource_source is L2BlockState,
            2usize => stage_due(scan)->ReadSource_source is CheckpointStateRoots,
            _ => stage_due(scan)->ReadSource_source is CheckpointZkProof,
        },
{
}

/// An archived row that was admitted at a read of the suffix is the plan's row of that
/// read's own source and checkpoint, on the head's chain.
pub proof fn law_admitted_reads_are_of_their_place(
    expected_head: &StoredHead,
    plan: &CoordinatorRollbackArchivePlan,
    registry: &Registry,
    i: int,
    row: KivArchiveRowModel,
)
    requires
        plan.request.target.height < plan.request.requested_head.height,
        0 <= i < 4 * (plan.request.requested_head.height - plan.request.target.height),
        row_was_admitted(expected_head, plan, registry, i, row),
    ensures
        ({
            let width = plan.request.requested_head.height - plan.request.target.height;
            &&& row.header.source_checkpoint == plan.request.target.height + 1 + i % width
            &&& row.header.network == expected_head.canonical.network
            &&& row.header.chain_epoch == expected_head.canonical.chain_epoch
            &&& row.header.participant_plan_digest == plan.digest
            &&& row.header.key_domain is CheckpointLeaf <==> i < width
            &&& row.header.key_domain is L2BlockState <==> width <= i < 2 * width
            &&& row.header.key_domain is CheckpointStateRoots <==> 2 * width <= i < 3 * width
            &&& row.header.key_domain is CheckpointZkProof <==> 3 * width <= i
        }),
{
    let start = plan.request.target.height;
    let width = plan.request.requested_head.height - start;
    let before = choose|before: CheckpointKivSourceRow<Seq<u8>>| #[trigger]
        admitted_at(
            expected_head,
            plan,
            registry,
            i / width,
            (start + 1 + i % width) as u64,
            before,
        ) == Ok::<KivArchiveRowModel, CoordinatorRollbackArchiveRowError>(row);
    let source = archive_store::spec_all_sources()[i / width];
    assert(0 <= i % width < width && i == width * (i / width) + i % width) by {
        vstd::arithmetic::div_mod::lemma_fundamental_div_mod(i, width);
        vstd::arithmetic::div_mod::lemma_mod_bound(i, width);
    }
    let index = i / width;
    assert(index == 0 <==> i < width) by (nonlinear_arith)
        requires
            0 <= i,
            width > 0,
            0 <= i - width * index < width,
    ;
    assert(index == 1 <==> width <= i < 2 * width) by (nonlinear_arith)
        requires
            width > 0,
            0 <= i - width * index < width,
    ;
    assert(index == 2 <==> 2 * width <= i < 3 * width) by (nonlinear_arith)
        requires
            width > 0,
            0 <= i - width * index < width,
    ;
    assert(index == 3 <==> 3 * width <= i) by (nonlinear_arith)
        requires
            width > 0,
            i < 4 * width,
            0 <= i - width * index < width,
    ;
    archive_store::law_admitted_kiv_row_is_of_its_plan(
        expected_head.canonical.network,
        expected_head.canonical.chain_epoch,
        plan,
        registry,
        source,
        (start + 1 + i % width) as u64,
        before.value,
        before.writetime_us,
    );
}

/// What was found is counted: a read that found a row adds one row and its bytes, and a
/// read that found none adds nothing.
pub proof fn law_found_rows_are_counted(
    rows: Seq<Option<KivArchiveRowModel>>,
    read: Option<KivArchiveRowModel>,
)
    ensures
        rows_found(Seq::empty()) == 0,
        bytes_found(Seq::empty()) == 0,
        rows_found(rows.push(read)) == rows_found(rows) + if read is Some { 1nat } else { 0nat },
        bytes_found(rows.push(read)) == bytes_found(rows) + match read {
            Some(row) => row.canonical_bytes.len(),
            None => 0nat,
        },
{
    assert(rows.push(read).drop_last() =~= rows);
}

/// The summary of a scan has its counts, and the digest of what it gathered and of both
/// counts.
pub proof fn law_summary_is_of_its_scan(
    scan: CheckpointPartitionScan,
    summary: CoordinatorRollbackArchiveScanSummary,
)
    requires
        summary_of(scan, summary),
    ensures
        summary.row_count == scan.row_count,
        summary.canonical_bytes == scan.canonical_bytes,
        summary.dataset_digest == crate::hash::sha256(
            scan.dataset@ + crate::bytes::be64(scan.row_count) + crate::bytes::be64(
                scan.canonical_bytes,
            ),
        ),
{
}

/// What a check of the head leads to.
pub open spec fn head_checked<'a>(
    archive: KivSuffixArchive<'a>,
    read: Result<Option<StoredHead>, String>,
    result: Result<KivSuffixArchive<'a>, CoordinatorRollbackArchiveStoreError>,
) -> bool {
    match (archive.stage, read) {
        (SuffixStage::CheckHead, Ok(Some(head)))
        | (SuffixStage::CheckHeadAgain, Ok(Some(head))) => if head@
            == archive.expected_head@ {
            result matches Ok(next) && next.follows(&archive) && next.scan == archive.scan
                && if archive.stage is CheckHead {
                next.stage == stage_due(archive.scan)
            } else {
                next.stage is Finished
            }
        } else {
            result == Err::<KivSuffixArchive<'a>, _>(
                CoordinatorRollbackArchiveStoreError::CanonicalHeadChanged,
            )
        },
        (SuffixStage::CheckHead, Ok(None)) | (SuffixStage::CheckHeadAgain, Ok(None)) => {
            result == Err::<KivSuffixArchive<'a>, _>(
                CoordinatorRollbackArchiveStoreError::CanonicalHeadChanged,
            )
        },
        (SuffixStage::CheckHead, Err(refused))
        | (SuffixStage::CheckHeadAgain, Err(refused)) => result == Err::<KivSuffixArchive<'a>, _>(
            CoordinatorRollbackArchiveStoreError::CanonicalHead(refused),
        ),
        _ => result == Err::<KivSuffixArchive<'a>, _>(CoordinatorRollbackArchiveStoreError::OutOfOrder),
    }
}

/// What a read of the source row that is due leads to.
pub open spec fn source_read<'a>(
    archive: KivSuffixArchive<'a>,
    read: Result<Option<CheckpointKivSourceRow<Vec<u8>>>, CoordinatorRollbackArchiveStoreError>,
    result: Result<KivSuffixArchive<'a>, CoordinatorRollbackArchiveStoreError>,
) -> bool {
    match (archive.stage, read) {
        (SuffixStage::ReadSource { .. }, Err(error)) => result == Err::<KivSuffixArchive<'a>, _>(error),
        (SuffixStage::ReadSource { .. }, Ok(None)) => result matches Ok(next)
            && next.follows(&archive) && archive_scan::recorded(archive.scan, None, next.scan)
            && next.stage == stage_due(next.scan),
        (SuffixStage::ReadSource { .. }, Ok(Some(row))) => match archive.admitted(row@) {
            Ok(model) => result matches Ok(next) && next.follows(&archive) && next.scan
                == archive.scan && (next.stage matches SuffixStage::Persist {
                before,
                row: archived,
            } && before == row && archived@ == model),
            Err(error) => result == Err::<KivSuffixArchive<'a>, _>(
                CoordinatorRollbackArchiveStoreError::Row(error),
            ),
        },
        _ => result == Err::<KivSuffixArchive<'a>, _>(CoordinatorRollbackArchiveStoreError::OutOfOrder),
    }
}

/// What the receipt of a persisted row leads to.
pub open spec fn row_persisted<'a>(
    archive: KivSuffixArchive<'a>,
    persisted: Result<KivReceipt, CoordinatorRollbackArchiveStoreError>,
    result: Result<KivSuffixArchive<'a>, CoordinatorRollbackArchiveStoreError>,
) -> bool {
    match (archive.stage, persisted) {
        (SuffixStage::Persist { .. }, Err(error)) => result == Err::<KivSuffixArchive<'a>, _>(error),
        (SuffixStage::Persist { before, row }, Ok(receipt)) => if receipt.row@ == row@ {
            result matches Ok(next) && next.follows(&archive) && next.scan == archive.scan
                && next.stage == (SuffixStage::Revalidate { before, receipt })
        } else {
            result == Err::<KivSuffixArchive<'a>, _>(CoordinatorRollbackArchiveStoreError::Conflict)
        },
        _ => result == Err::<KivSuffixArchive<'a>, _>(CoordinatorRollbackArchiveStoreError::OutOfOrder),
    }
}

/// What the second read of a source row leads to.
pub open spec fn source_read_again<'a>(
    archive: KivSuffixArchive<'a>,
    read: Result<Option<CheckpointKivSourceRow<Vec<u8>>>, CoordinatorRollbackArchiveStoreError>,
    result: Result<KivSuffixArchive<'a>, CoordinatorRollbackArchiveStoreError>,
) -> bool {
    match (archive.stage, read) {
        (SuffixStage::ReadSourceAgain { .. }, Err(error)) => result == Err::<KivSuffixArchive<'a>, _>(
            error,
        ),
        (SuffixStage::ReadSourceAgain { before, receipt }, Ok(after)) => if !(after is Some
            && (after->0)@ == before@) {
            result == Err::<KivSuffixArchive<'a>, _>(CoordinatorRollbackArchiveStoreError::SourceChanged)
        } else if archive_scan::overflows(archive.scan, Some(receipt.row@)) {
            result == Err::<KivSuffixArchive<'a>, _>(CoordinatorRollbackArchiveStoreError::LengthOverflow)
        } else {
            result matches Ok(next) && next.follows(&archive) && archive_scan::recorded(
                archive.scan,
                Some(receipt.row@),
                next.scan,
            ) && next.stage == stage_due(next.scan)
        },
        _ => result == Err::<KivSuffixArchive<'a>, _>(CoordinatorRollbackArchiveStoreError::OutOfOrder),
    }
}

/// What reading a fragment back leads to.
pub open spec fn fragment_read_back(
    before: FragmentedPersist,
    read: Result<Option<Fragment>, FragmentReadFailure>,
    after: FragmentedPersist,
    result: Result<(), CoordinatorRollbackArchiveStoreError>,
) -> bool {
    &&& after.fragments == before.fragments
    &&& { (match read {
        Ok(Some(found)) => found@ == before.fragments@[before.written as int]@,
        _ => false,
    }) ==> result is Ok }
    &&& match result {
        Ok(()) => {
            &&& after.wf()
            &&& after.written == before.written + 1
            &&& after.open is None
            &&& read matches Ok(Some(found)) && found@ == before.fragments@[before.written as int]@
        },
        Err(error) => match (before.open->0, read) {
            (LwtWrite::Failed(failure), Ok(_)) => error
                == CoordinatorRollbackArchiveStoreError::Indeterminate(failure),
            (LwtWrite::Failed(failure), Err(read)) => error matches
                CoordinatorRollbackArchiveStoreError::Indeterminate(text) && text@
                == lwt::both_failed(failure@, read.text@),
            (_, Ok(_)) => error == CoordinatorRollbackArchiveStoreError::Conflict,
            (_, Err(read)) => error == read.error,
        },
    }
}

/// A suffix goes on, and in the end finishes, only under the head that it began with: any
/// other head, and none at all, ends it.
pub proof fn law_suffix_is_archived_under_one_head<'a>(
    archive: KivSuffixArchive<'a>,
    read: Result<Option<StoredHead>, String>,
    result: Result<KivSuffixArchive<'a>, CoordinatorRollbackArchiveStoreError>,
)
    requires
        head_checked(archive, read, result),
    ensures
        result matches Ok(next) ==> {
            &&& archive.stage is CheckHead || archive.stage is CheckHeadAgain
            &&& read matches Ok(Some(head)) && head@ == archive.expected_head@
            &&& next.scan == archive.scan
            &&& next.expected_head == archive.expected_head
            &&& next.plan == archive.plan
            &&& archive.stage is CheckHeadAgain ==> next.stage is Finished
            &&& archive.stage is CheckHead ==> !(next.stage is Finished)
        },
        (archive.stage is CheckHead || archive.stage is CheckHeadAgain) && (read matches Ok(
            Some(head),
        ) && head@ == archive.expected_head@) ==> result is Ok,
        (archive.stage is CheckHead || archive.stage is CheckHeadAgain) && (read matches Ok(found)
            && !(found is Some && (found->0)@ == archive.expected_head@)) ==> result is Err
            && result->Err_0 is CanonicalHeadChanged,
{
}

/// A source row is archived only if the plan admits it, as it was admitted; the archive
/// has to hold exactly that row; and the source has to hold exactly the row that was read
/// when it is read again behind that. A row that is not there is passed over.
pub proof fn law_source_row_is_archived_as_it_stays<'a>(
    archive: KivSuffixArchive<'a>,
    read: Result<Option<CheckpointKivSourceRow<Vec<u8>>>, CoordinatorRollbackArchiveStoreError>,
    persisted: Result<KivReceipt, CoordinatorRollbackArchiveStoreError>,
    first: Result<KivSuffixArchive<'a>, CoordinatorRollbackArchiveStoreError>,
    kept: Result<KivSuffixArchive<'a>, CoordinatorRollbackArchiveStoreError>,
    again: Result<KivSuffixArchive<'a>, CoordinatorRollbackArchiveStoreError>,
)
    requires
        source_read(archive, read, first),
        row_persisted(archive, persisted, kept),
        source_read_again(archive, read, again),
    ensures
        first matches Ok(next) ==> archive.stage is ReadSource && match read {
            Ok(Some(row)) => next.scan == archive.scan && next.stage is Persist
                && next.stage->Persist_before == row && archive_store::admitted_kiv_row(
                archive.expected_head.canonical.network,
                archive.expected_head.canonical.chain_epoch,
                archive.plan,
                archive.registry,
                archive_store::spec_all_sources()[archive.scan.source_index as int],
                archive.scan.checkpoint,
                row@.value,
                row@.writetime_us,
            ) == Ok::<_, CoordinatorRollbackArchiveRowError>(next.stage->Persist_row@),
            Ok(None) => archive_scan::recorded(archive.scan, None, next.scan),
            Err(_) => false,
        },
        kept matches Ok(next) ==> archive.stage is Persist && (persisted matches Ok(receipt)
            && receipt.row@ == archive.stage->Persist_row@) && next.stage is Revalidate
            && next.stage->Revalidate_before == archive.stage->Persist_before && next.scan
            == archive.scan,
        again matches Ok(next) ==> archive.stage is ReadSourceAgain && (read matches Ok(Some(after))
            && after@ == archive.stage->ReadSourceAgain_before@) && archive_scan::recorded(
            archive.scan,
            Some(archive.stage->ReadSourceAgain_receipt.row@),
            next.scan,
        ),
        archive.stage is ReadSourceAgain && (read matches Ok(after) && !(after is Some && (after->0)@
            == archive.stage->ReadSourceAgain_before@)) ==> again is Err && again->Err_0
            is SourceChanged,
        archive.stage is Persist && (persisted matches Ok(receipt) && receipt.row@
            != archive.stage->Persist_row@) ==> kept is Err && kept->Err_0 is Conflict,
{
}

/// A fragment whose insert was refused or failed counts only if the archive is read to
/// hold exactly that fragment, and always then.
pub proof fn law_fragment_counts_only_if_read_back(
    before: FragmentedPersist,
    read: Result<Option<Fragment>, FragmentReadFailure>,
    after: FragmentedPersist,
    result: Result<(), CoordinatorRollbackArchiveStoreError>,
)
    requires
        fragment_read_back(before, read, after, result),
    ensures
        result is Ok <==> (read matches Ok(Some(found)) && found@
            == before.fragments@[before.written as int]@),
        result is Ok ==> after.written == before.written + 1 && after.open is None,
        after.fragments == before.fragments,
        result is Err && before.open->0 is NotApplied && read is Ok ==> result->Err_0 is Conflict,
        result is Err && before.open->0 is Failed ==> result->Err_0 is Indeterminate,
{
}

} // verus!
