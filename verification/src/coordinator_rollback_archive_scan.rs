//! Copying a discarded suffix into the archive.
//!
//! The scan decides which source row to read next and what its result commits;
//! the caller reads, persists and revalidates. A scan summary is evidence for
//! progress only.

use vstd::prelude::*;

use crate::bytes;
use crate::bytes::{
    array_equal, bytes_equal, copy_bytes, push_byte, push_bytes, push_u16, push_u64, text_bytes,
};
use crate::coordinator_rollback_archive_plan::CoordinatorRollbackArchivePlan;
use crate::coordinator_rollback_archive_store as archive_store;
use crate::coordinator_rollback_archive_store::{
    all_sources, decode_fragment, reconstruct_fragments, CheckpointKivRowHeader,
    CoordinatorCheckpointPartitionKivSource, CoordinatorRollbackArchiveRowDigest,
    CoordinatorRollbackArchiveRowSlot, CoordinatorRollbackArchiveStoreError,
    CoordinatorRollbackArchiveStoreFingerprint, CoordinatorRollbackCheckpointKivArchiveRow,
    Fragment, FragmentModel, KivArchiveRow, KivArchiveRowModel, StoredFragmentColumns,
};
use crate::coordinator_rollback_branch_catalog as branch_catalog;
use crate::coordinator_rollback_branch_catalog::MappingBundle;
use crate::coordinator_rollback_mapping_archive_row as mapping_archive_row;
use crate::coordinator_rollback_mapping_archive_row::{
    is_exact_archiving_head, MappingArchiveRow, MappingArchiveRowModel,
};
use crate::hash;
use crate::hash::sha256_digest;
use crate::model::{BranchPendingMapping, StoredHead};
use crate::registry::Registry;

verus! {

/// A source row as it was read.
#[verifier::ext_equal]
#[derive(Clone, Debug, PartialEq, Eq)]
pub struct CheckpointKivSourceRow<B> {
    pub value: B,
    pub writetime_us: i64,
}

impl View for CheckpointKivSourceRow<Vec<u8>> {
    type V = CheckpointKivSourceRow<Seq<u8>>;

    open spec fn view(&self) -> CheckpointKivSourceRow<Seq<u8>> {
        CheckpointKivSourceRow { value: self.value@, writetime_us: self.writetime_us }
    }
}

/// A row that was found has both its value and its write time.
pub fn source_row(value: Option<Vec<u8>>, writetime_us: Option<i64>) -> (result: Result<
    CheckpointKivSourceRow<Vec<u8>>,
    CoordinatorRollbackArchiveStoreError,
>)
    ensures
        match result {
            Ok(row) => value == Some(row.value) && writetime_us == Some(row.writetime_us),
            Err(error) => (value is None || writetime_us is None) && error
                == CoordinatorRollbackArchiveStoreError::MissingSourceColumn,
        },
{
    let value = value.ok_or(CoordinatorRollbackArchiveStoreError::MissingSourceColumn)?;
    let writetime_us: i64 = writetime_us.ok_or(
        CoordinatorRollbackArchiveStoreError::MissingSourceColumn,
    )?;
    Ok(CheckpointKivSourceRow { value, writetime_us })
}

/// A source row counts as archived only if it still reads the same afterwards.
pub fn require_unchanged_source(
    before: &CheckpointKivSourceRow<Vec<u8>>,
    after: &Option<CheckpointKivSourceRow<Vec<u8>>>,
) -> (result: Result<(), CoordinatorRollbackArchiveStoreError>)
    ensures
        result == (if *after is Some && (after->0)@ == before@ {
            Ok::<(), CoordinatorRollbackArchiveStoreError>(())
        } else {
            Err(CoordinatorRollbackArchiveStoreError::SourceChanged)
        }),
{
    match after {
        Some(after) => {
            if after.writetime_us == before.writetime_us && bytes_equal(
                &after.value,
                &before.value,
            ) {
                Ok(())
            } else {
                Err(CoordinatorRollbackArchiveStoreError::SourceChanged)
            }
        },
        None => Err(CoordinatorRollbackArchiveStoreError::SourceChanged),
    }
}

/// The head still has to be the one that the archiving started at.
pub fn require_current_head(
    read: Result<Option<StoredHead>, String>,
    expected: &StoredHead,
) -> (result: Result<(), CoordinatorRollbackArchiveStoreError>)
    ensures
        match read {
            Err(refused) => result == Err::<(), _>(
                CoordinatorRollbackArchiveStoreError::CanonicalHead(refused),
            ),
            Ok(found) => result == (if found is Some && (found->0)@ == expected@ {
                Ok::<(), _>(())
            } else {
                Err(CoordinatorRollbackArchiveStoreError::CanonicalHeadChanged)
            }),
        },
{
    match read {
        Err(refused) => Err(CoordinatorRollbackArchiveStoreError::CanonicalHead(refused)),
        Ok(Some(current)) => if current.same(expected) {
            Ok(())
        } else {
            Err(CoordinatorRollbackArchiveStoreError::CanonicalHeadChanged)
        },
        Ok(None) => Err(CoordinatorRollbackArchiveStoreError::CanonicalHeadChanged),
    }
}

/// Inert evidence of a finished scan.
#[derive(Clone, Copy, Debug, PartialEq, Eq)]
pub struct CoordinatorRollbackArchiveScanSummary {
    pub row_count: u64,
    pub canonical_bytes: u64,
    pub dataset_digest: [u8; 32],
}

impl CoordinatorRollbackArchiveScanSummary {
    pub fn row_count(self) -> (rows: u64)
        ensures
            rows == self.row_count,
    {
        self.row_count
    }

    pub fn canonical_bytes(self) -> (bytes: u64)
        ensures
            bytes == self.canonical_bytes,
    {
        self.canonical_bytes
    }

    pub fn dataset_digest(self) -> (digest: [u8; 32])
        ensures
            digest == self.dataset_digest,
    {
        self.dataset_digest
    }
}

/// What one archived row adds to a dataset.
pub open spec fn member_bytes(
    slot: CoordinatorRollbackArchiveRowSlot,
    digest: CoordinatorRollbackArchiveRowDigest,
) -> Seq<u8> {
    slot.0@ + digest.0@
}

/// The number of the key domain of the `i`-th source.
pub open spec fn source_domain_bytes(i: int) -> Seq<u8> {
    bytes::be16(archive_store::spec_all_sources()[i].spec_key_domain().spec_stable_id())
}

/// Walks the checkpoints `(start, end]` of each source in turn.
#[derive(Debug, PartialEq, Eq)]
pub struct CheckpointPartitionScan {
    pub start: u64,
    pub end: u64,
    /// How many sources are finished.
    pub source_index: usize,
    /// The checkpoint to read next.
    pub checkpoint: u64,
    pub row_count: u64,
    pub canonical_bytes: u64,
    /// What the dataset digest will be the digest of.
    pub dataset: Vec<u8>,
}

/// What the dataset of a scan begins with: the label, the plan, and the domain of the
/// first source, or of every source where the suffix is empty.
pub open spec fn dataset_front(plan: &CoordinatorRollbackArchivePlan) -> Seq<u8> {
    let first = bytes::text("psy/coordinator-rollback-archive-dataset/v1"@) + plan.digest.0@
        + source_domain_bytes(0);
    if plan.request.target.height < plan.request.requested_head.height {
        first
    } else {
        first + source_domain_bytes(1) + source_domain_bytes(2) + source_domain_bytes(3)
    }
}

impl CheckpointPartitionScan {
    /// The next checkpoint lies in the suffix, unless the scan is finished.
    pub open spec fn wf(&self) -> bool {
        &&& self.source_index <= 4
        &&& self.source_index < 4 ==> self.start < self.checkpoint <= self.end
    }

    /// The number of checkpoints of one source.
    pub open spec fn width(&self) -> int {
        self.end - self.start
    }

    /// How many reads of a whole scan lie behind.
    pub open spec fn position(&self) -> int {
        if self.source_index < 4 {
            self.source_index * self.width() + (self.checkpoint - self.start - 1)
        } else {
            4 * self.width()
        }
    }

    /// Starts at the first checkpoint of the suffix of a plan that the head is
    /// archiving.
    pub fn begin(expected_head: &StoredHead, plan: &CoordinatorRollbackArchivePlan) -> (result:
        Result<Self, CoordinatorRollbackArchiveStoreError>)
        ensures
            match result {
                Ok(scan) => {
                    &&& mapping_archive_row::exact_archiving_head(
                        expected_head.control,
                        expected_head.canonical.checkpoint,
                        plan,
                    )
                    &&& scan.wf()
                    &&& scan.start == plan.request.target.height
                    &&& scan.end == plan.request.requested_head.height
                    &&& scan.row_count == 0
                    &&& scan.canonical_bytes == 0
                    &&& scan.dataset@ == dataset_front(plan)
                    &&& plan.request.target.height < plan.request.requested_head.height
                        ==> scan.position() == 0
                    &&& plan.request.target.height >= plan.request.requested_head.height
                        ==> scan.source_index == 4
                },
                Err(error) => {
                    ||| error == CoordinatorRollbackArchiveStoreError::NotExactArchivingHead
                        && !mapping_archive_row::exact_archiving_head(
                        expected_head.control,
                        expected_head.canonical.checkpoint,
                        plan,
                    )
                    ||| error == CoordinatorRollbackArchiveStoreError::CheckpointOverflow
                        && mapping_archive_row::exact_archiving_head(
                        expected_head.control,
                        expected_head.canonical.checkpoint,
                        plan,
                    ) && plan.request.target.height == u64::MAX
                },
            },
    {
        if !is_exact_archiving_head(expected_head, plan) {
            return Err(CoordinatorRollbackArchiveStoreError::NotExactArchivingHead);
        }
        let start: u64 = plan.suffix_start_exclusive();
        let end: u64 = plan.suffix_end_inclusive();
        if start == u64::MAX {
            return Err(CoordinatorRollbackArchiveStoreError::CheckpointOverflow);
        }
        let sources = all_sources();
        let mut dataset: Vec<u8> = text_bytes("psy/coordinator-rollback-archive-dataset/v1");
        push_bytes(&mut dataset, &plan.digest.0);
        push_u16(&mut dataset, sources[0].key_domain().stable_id());
        let mut source_index: usize = 0;
        if start >= end {
            push_u16(&mut dataset, sources[1].key_domain().stable_id());
            push_u16(&mut dataset, sources[2].key_domain().stable_id());
            push_u16(&mut dataset, sources[3].key_domain().stable_id());
            source_index = 4;
        }
        Ok(
            CheckpointPartitionScan {
                start,
                end,
                source_index,
                checkpoint: start + 1,
                row_count: 0,
                canonical_bytes: 0,
                dataset,
            },
        )
    }

    /// The source row to read next, or `None` once every source is finished.
    pub fn next_read(&self) -> (next: Option<(CoordinatorCheckpointPartitionKivSource, u64)>)
        requires
            self.wf(),
        ensures
            next == (if self.source_index < 4 {
                Some(
                    (
                        archive_store::spec_all_sources()[self.source_index as int],
                        self.checkpoint,
                    ),
                )
            } else {
                None
            }),
    {
        if self.source_index < 4 {
            let sources = all_sources();
            Some((sources[self.source_index], self.checkpoint))
        } else {
            None
        }
    }

    /// Takes the outcome of the read that was due: the archived row, or nothing
    /// where there was no source row. Then moves on by exactly one read.
    pub fn record(&mut self, archived: Option<&KivArchiveRow>) -> (result: Result<
        (),
        CoordinatorRollbackArchiveStoreError,
    >)
        requires
            old(self).wf(),
            old(self).source_index < 4,
        ensures
            match result {
                Ok(()) => !overflows(*old(self), row_model(archived)) && recorded(
                    *old(self),
                    row_model(archived),
                    *final(self),
                ),
                Err(error) => {
                    &&& error == CoordinatorRollbackArchiveStoreError::LengthOverflow
                    &&& overflows(*old(self), row_model(archived))
                    &&& *final(self) == *old(self)
                },
            },
    {
        if let Some(row) = archived {
            let len: u64 = row.canonical_bytes.len() as u64;
            if self.row_count == u64::MAX || len > u64::MAX - self.canonical_bytes {
                return Err(CoordinatorRollbackArchiveStoreError::LengthOverflow);
            }
            self.row_count = self.row_count + 1;
            self.canonical_bytes = self.canonical_bytes + len;
            push_bytes(&mut self.dataset, &row.slot.0);
            push_bytes(&mut self.dataset, &row.digest.0);
            assert(self.dataset@ =~= old(self).dataset@ + member_bytes(row.slot, row.digest));
        } else {
            assert(self.dataset@ =~= old(self).dataset@ + Seq::<u8>::empty());
        }
        let ghost added = self.dataset@;
        let ghost index = self.source_index as int;
        let ghost width = self.width();
        assert((index + 1) * width == index * width + width) by (nonlinear_arith);
        if self.checkpoint == self.end {
            self.source_index = self.source_index + 1;
            self.checkpoint = self.start + 1;
            if self.source_index < 4 {
                let sources = all_sources();
                push_u16(
                    &mut self.dataset,
                    sources[self.source_index].key_domain().stable_id(),
                );
            } else {
                assert(added + Seq::<u8>::empty() =~= added);
            }
        } else {
            self.checkpoint = self.checkpoint + 1;
            assert(added + Seq::<u8>::empty() =~= added);
        }
        Ok(())
    }

    /// Closes the dataset with its counts. Everything has been read.
    pub fn summary(&self) -> (summary: CoordinatorRollbackArchiveScanSummary)
        requires
            self.wf(),
            self.source_index == 4,
        ensures
            summary.row_count == self.row_count,
            summary.canonical_bytes == self.canonical_bytes,
            summary.dataset_digest == hash::sha256(
                self.dataset@ + bytes::be64(self.row_count) + bytes::be64(self.canonical_bytes),
            ),
    {
        let mut dataset: Vec<u8> = copy_bytes(&self.dataset);
        push_u64(&mut dataset, self.row_count);
        push_u64(&mut dataset, self.canonical_bytes);
        CoordinatorRollbackArchiveScanSummary {
            row_count: self.row_count,
            canonical_bytes: self.canonical_bytes,
            dataset_digest: sha256_digest(&dataset),
        }
    }
}

/// The view of a row, where there is one.
pub open spec fn row_model(row: Option<&KivArchiveRow>) -> Option<KivArchiveRowModel> {
    match row {
        Some(row) => Some(row@),
        None => None,
    }
}

/// The counts of a scan cannot take one more row.
pub open spec fn overflows(
    scan: CheckpointPartitionScan,
    archived: Option<KivArchiveRowModel>,
) -> bool {
    match archived {
        Some(row) => scan.row_count == u64::MAX || scan.canonical_bytes + row.canonical_bytes.len()
            > u64::MAX,
        None => false,
    }
}

/// A scan has moved on by exactly one read, which archived this row or nothing.
pub open spec fn recorded(
    before: CheckpointPartitionScan,
    archived: Option<KivArchiveRowModel>,
    after: CheckpointPartitionScan,
) -> bool {
    let added = match archived {
        Some(row) => member_bytes(row.slot, row.digest),
        None => Seq::empty(),
    };
    let moved = if before.checkpoint == before.end && before.source_index < 3 {
        source_domain_bytes(before.source_index + 1)
    } else {
        Seq::empty()
    };
    &&& after.wf()
    &&& after.start == before.start
    &&& after.end == before.end
    &&& after.position() == before.position() + 1
    &&& after.dataset@ == before.dataset@ + added + moved
    &&& after.row_count == before.row_count + (if archived is Some {
        1int
    } else {
        0
    })
    &&& after.canonical_bytes == before.canonical_bytes + (match archived {
        Some(row) => row.canonical_bytes.len() as int,
        None => 0,
    })
}

/// The reads of a scan, by their number, are exactly the checkpoints of the
/// suffix, source after source: the read at a position is fixed by the position,
/// and no position but the last is the end.
pub proof fn law_scan_covers_the_suffix(scan: CheckpointPartitionScan)
    requires
        scan.wf(),
        scan.start < scan.end,
    ensures
        0 <= scan.position() <= 4 * scan.width(),
        scan.source_index == 4 <==> scan.position() == 4 * scan.width(),
        scan.source_index < 4 ==> scan.position() / scan.width() == scan.source_index
            && scan.position() % scan.width() == scan.checkpoint - scan.start - 1,
{
    if scan.source_index < 4 {
        let width = scan.width();
        let index = scan.source_index as int;
        let rest = scan.checkpoint - scan.start - 1;
        assert(0 <= index * width <= 3 * width) by (nonlinear_arith)
            requires
                0 <= index <= 3,
                width > 0,
        ;
        vstd::arithmetic::div_mod::lemma_fundamental_div_mod_converse(
            scan.position(),
            width,
            index,
            rest,
        );
    }
}

/// One row of the archive table: the clustering index and the other columns.
#[verifier::ext_equal]
#[derive(Clone, Debug, PartialEq, Eq)]
pub struct StoredFragmentRow<B> {
    pub index: Option<i32>,
    pub columns: StoredFragmentColumns<B>,
}

impl View for StoredFragmentRow<Vec<u8>> {
    type V = StoredFragmentRow<Seq<u8>>;

    open spec fn view(&self) -> StoredFragmentRow<Seq<u8>> {
        StoredFragmentRow { index: self.index, columns: self.columns@ }
    }
}

pub open spec fn stored_models(rows: Seq<StoredFragmentRow<Vec<u8>>>) -> Seq<
    StoredFragmentRow<Seq<u8>>,
> {
    Seq::new(rows.len(), |i: int| rows[i]@)
}

/// The fragments in a list of archive rows, or the first thing wrong with them.
pub open spec fn stored_fragments(rows: Seq<StoredFragmentRow<Seq<u8>>>) -> Result<
    Seq<FragmentModel>,
    CoordinatorRollbackArchiveStoreError,
>
    decreases rows.len(),
{
    if rows.len() == 0 {
        Ok(Seq::empty())
    } else if rows[0].index is None {
        Err(CoordinatorRollbackArchiveStoreError::MissingArchiveColumn)
    } else {
        match archive_store::stored_fragment(rows[0].index->0, rows[0].columns) {
            Err(error) => Err(error),
            Ok(fragment) => match stored_fragments(rows.drop_first()) {
                Err(error) => Err(error),
                Ok(rest) => Ok(seq![fragment] + rest),
            },
        }
    }
}

/// The fragments of some rows behind fragments already read.
pub open spec fn behind(
    read: Seq<FragmentModel>,
    rest: Result<Seq<FragmentModel>, CoordinatorRollbackArchiveStoreError>,
) -> Result<Seq<FragmentModel>, CoordinatorRollbackArchiveStoreError> {
    match rest {
        Ok(rest) => Ok(read + rest),
        Err(error) => Err(error),
    }
}

fn read_fragments(rows: Vec<StoredFragmentRow<Vec<u8>>>) -> (result: Result<
    Vec<Fragment>,
    CoordinatorRollbackArchiveStoreError,
>)
    ensures
        match result {
            Ok(fragments) => stored_fragments(stored_models(rows@)) == Ok::<
                Seq<FragmentModel>,
                CoordinatorRollbackArchiveStoreError,
            >(archive_store::fragment_models(fragments@)),
            Err(error) => stored_fragments(stored_models(rows@)) == Err::<Seq<FragmentModel>, _>(
                error,
            ),
        },
{
    let ghost all = stored_fragments(stored_models(rows@));
    let mut unread = rows;
    let mut fragments: Vec<Fragment> = Vec::new();
    proof {
        assert(archive_store::fragment_models(fragments@) =~= Seq::empty());
        if let Ok(rest) = all {
            assert(Seq::<FragmentModel>::empty() + rest =~= rest);
        }
    }
    while unread.len() > 0
        invariant
            all == stored_fragments(stored_models(rows@)),
            all == behind(
                archive_store::fragment_models(fragments@),
                stored_fragments(stored_models(unread@)),
            ),
        decreases unread@.len(),
    {
        let ghost models = stored_models(unread@);
        let ghost read = archive_store::fragment_models(fragments@);
        let row = unread.remove(0);
        assert(models[0] == row@);
        assert(stored_models(unread@) =~= models.drop_first());
        let index: i32 = match row.index {
            Some(index) => index,
            None => return Err(CoordinatorRollbackArchiveStoreError::MissingArchiveColumn),
        };
        let fragment = match decode_fragment(index, row.columns) {
            Ok(fragment) => fragment,
            Err(error) => return Err(error),
        };
        let ghost model = fragment@;
        fragments.push(fragment);
        proof {
            assert(archive_store::fragment_models(fragments@) =~= read.push(model));
            if let Ok(rest) = stored_fragments(stored_models(unread@)) {
                assert(read + (seq![model] + rest) =~= read.push(model) + rest);
            }
        }
    }
    proof {
        assert(stored_models(unread@) =~= Seq::empty());
        assert(archive_store::fragment_models(fragments@) + Seq::<FragmentModel>::empty()
            =~= archive_store::fragment_models(fragments@));
    }
    Ok(fragments)
}

/// A row is the one selected only if it says so itself.
pub open spec fn selects_kiv(row: KivArchiveRowModel, expected: KivArchiveRowModel) -> bool {
    &&& row.slot == expected.slot
    &&& row.header.network == expected.header.network
    &&& row.header.chain_epoch == expected.header.chain_epoch
    &&& row.header.participant_plan_digest == expected.header.participant_plan_digest
    &&& row.header.key_domain == expected.header.key_domain
}

/// The row that the archive holds where `expected` belongs, if it holds one.
pub open spec fn selected_kiv_row(
    rows: Seq<StoredFragmentRow<Seq<u8>>>,
    expected: KivArchiveRowModel,
    registry: &Registry,
    network: Result<(), String>,
) -> Result<Option<KivArchiveRowModel>, CoordinatorRollbackArchiveStoreError> {
    match stored_fragments(rows) {
        Err(error) => Err(error),
        Ok(fragments) => if fragments.len() == 0 {
            Ok(None)
        } else {
            match archive_store::joined(archive_store::in_index_order(fragments)) {
                Err(error) => Err(error),
                Ok(bytes) => match archive_store::decoded_kiv_row(bytes, registry, network) {
                    Err(error) => Err(CoordinatorRollbackArchiveStoreError::Row(error)),
                    Ok(row) => if selects_kiv(row, expected) {
                        Ok(Some(row))
                    } else {
                        Err(CoordinatorRollbackArchiveStoreError::SelectedRowMismatch)
                    },
                },
            }
        },
    }
}

/// Puts together and checks what the archive holds where `expected` belongs.
pub fn read_exact_row(
    rows: Vec<StoredFragmentRow<Vec<u8>>>,
    expected: &KivArchiveRow,
    registry: &Registry,
    network: Result<(), String>,
) -> (result: Result<Option<KivArchiveRow>, CoordinatorRollbackArchiveStoreError>)
    ensures
        ({
            let selected = selected_kiv_row(stored_models(rows@), expected@, registry, network);
            match result {
                Ok(Some(row)) => selected == Ok::<
                    Option<KivArchiveRowModel>,
                    CoordinatorRollbackArchiveStoreError,
                >(Some(row@)),
                Ok(None) => selected == Ok::<
                    Option<KivArchiveRowModel>,
                    CoordinatorRollbackArchiveStoreError,
                >(None),
                Err(error) => selected == Err::<Option<KivArchiveRowModel>, _>(error),
            }
        }),
{
    let fragments = read_fragments(rows)?;
    if fragments.len() == 0 {
        return Ok(None);
    }
    let bytes = reconstruct_fragments(fragments)?;
    let row = match CoordinatorRollbackCheckpointKivArchiveRow::decode_canonical(
        &bytes,
        registry,
        network,
    ) {
        Ok(row) => row,
        Err(error) => return Err(CoordinatorRollbackArchiveStoreError::Row(error)),
    };
    if !array_equal::<32>(&row.slot.0, &expected.slot.0) || row.header.network
        != expected.header.network || row.header.chain_epoch != expected.header.chain_epoch
        || !array_equal::<32>(
        &row.header.participant_plan_digest.0,
        &expected.header.participant_plan_digest.0,
    ) || row.header.key_domain != expected.header.key_domain {
        return Err(CoordinatorRollbackArchiveStoreError::SelectedRowMismatch);
    }
    Ok(Some(row))
}

pub open spec fn selects_mapping(
    row: MappingArchiveRowModel,
    expected: MappingArchiveRowModel,
) -> bool {
    &&& row.slot == expected.slot
    &&& row.header.network == expected.header.network
    &&& row.header.rollback_epoch == expected.header.rollback_epoch
    &&& row.header.participant_plan_digest == expected.header.participant_plan_digest
    &&& row.header.key_domain == expected.header.key_domain
}

/// The mapping row that the archive holds where `expected` belongs, if any.
pub open spec fn selected_mapping_row(
    rows: Seq<StoredFragmentRow<Seq<u8>>>,
    expected: MappingArchiveRowModel,
    network: Result<(), String>,
    branch: Result<BranchPendingMapping, String>,
) -> Result<Option<MappingArchiveRowModel>, CoordinatorRollbackArchiveStoreError> {
    match stored_fragments(rows) {
        Err(error) => Err(error),
        Ok(fragments) => if fragments.len() == 0 {
            Ok(None)
        } else {
            match archive_store::joined(archive_store::in_index_order(fragments)) {
                Err(error) => Err(error),
                Ok(bytes) => match mapping_archive_row::decoded_mapping_row(
                    bytes,
                    network,
                    branch,
                ) {
                    Err(error) => Err(CoordinatorRollbackArchiveStoreError::MappingRow(error)),
                    Ok(row) => if selects_mapping(row, expected) {
                        Ok(Some(row))
                    } else {
                        Err(CoordinatorRollbackArchiveStoreError::SelectedRowMismatch)
                    },
                },
            }
        },
    }
}

/// Puts together and checks what the archive holds where `expected` belongs.
pub fn read_exact_mapping_row(
    rows: Vec<StoredFragmentRow<Vec<u8>>>,
    expected: &MappingArchiveRow,
    network: Result<(), String>,
    branch: Result<BranchPendingMapping, String>,
) -> (result: Result<Option<MappingArchiveRow>, CoordinatorRollbackArchiveStoreError>)
    ensures
        ({
            let selected = selected_mapping_row(stored_models(rows@), expected@, network, branch);
            match result {
                Ok(Some(row)) => selected == Ok::<
                    Option<MappingArchiveRowModel>,
                    CoordinatorRollbackArchiveStoreError,
                >(Some(row@)),
                Ok(None) => selected == Ok::<
                    Option<MappingArchiveRowModel>,
                    CoordinatorRollbackArchiveStoreError,
                >(None),
                Err(error) => selected == Err::<Option<MappingArchiveRowModel>, _>(error),
            }
        }),
{
    let fragments = read_fragments(rows)?;
    if fragments.len() == 0 {
        return Ok(None);
    }
    let bytes = reconstruct_fragments(fragments)?;
    let row = match MappingArchiveRow::decode_canonical(&bytes, network, branch) {
        Ok(row) => row,
        Err(error) => return Err(CoordinatorRollbackArchiveStoreError::MappingRow(error)),
    };
    if !array_equal::<32>(&row.slot.0, &expected.slot.0) || row.header.network
        != expected.header.network || row.header.rollback_epoch != expected.header.rollback_epoch
        || !array_equal::<32>(
        &row.header.participant_plan_digest.0,
        &expected.header.participant_plan_digest.0,
    ) || row.header.key_domain != expected.header.key_domain {
        return Err(CoordinatorRollbackArchiveStoreError::SelectedRowMismatch);
    }
    Ok(Some(row))
}

/// Proof that a store holds a row. Only that store accepts it.
#[derive(Debug, PartialEq, Eq)]
pub struct PersistedCoordinatorRollbackArchiveRowReceipt<R> {
    pub store_fingerprint: CoordinatorRollbackArchiveStoreFingerprint,
    pub row: R,
}

/// The receipt of a row that the archive holds exactly as it was to be written.
pub fn accept_persisted_row(
    store_fingerprint: CoordinatorRollbackArchiveStoreFingerprint,
    row: &KivArchiveRow,
    current: Option<KivArchiveRow>,
) -> (result: Result<
    PersistedCoordinatorRollbackArchiveRowReceipt<KivArchiveRow>,
    CoordinatorRollbackArchiveStoreError,
>)
    ensures
        row_accepted(store_fingerprint, row@, current, result),
{
    let current = current.ok_or(CoordinatorRollbackArchiveStoreError::MissingAfterPersist)?;
    if !current.same(row) {
        return Err(CoordinatorRollbackArchiveStoreError::Conflict);
    }
    Ok(PersistedCoordinatorRollbackArchiveRowReceipt { store_fingerprint, row: current })
}

/// The receipt of a mapping row that the archive holds exactly.
pub fn accept_persisted_mapping_row(
    store_fingerprint: CoordinatorRollbackArchiveStoreFingerprint,
    row: &MappingArchiveRow,
    current: Option<MappingArchiveRow>,
) -> (result: Result<
    PersistedCoordinatorRollbackArchiveRowReceipt<MappingArchiveRow>,
    CoordinatorRollbackArchiveStoreError,
>)
    ensures
        mapping_row_accepted(store_fingerprint, row@, current, result),
{
    let current = current.ok_or(CoordinatorRollbackArchiveStoreError::MissingAfterPersist)?;
    if !current.same(row) {
        return Err(CoordinatorRollbackArchiveStoreError::Conflict);
    }
    Ok(PersistedCoordinatorRollbackArchiveRowReceipt { store_fingerprint, row: current })
}

/// Only the store that gave a receipt accepts it.
pub fn require_own_receipt<R>(
    store_fingerprint: &CoordinatorRollbackArchiveStoreFingerprint,
    receipt: &PersistedCoordinatorRollbackArchiveRowReceipt<R>,
) -> (result: Result<(), CoordinatorRollbackArchiveStoreError>)
    ensures
        result == (if receipt.store_fingerprint != *store_fingerprint {
            Err::<(), _>(CoordinatorRollbackArchiveStoreError::ReceiptBindingMismatch)
        } else {
            Ok(())
        }),
{
    if !array_equal::<32>(&receipt.store_fingerprint.0, &store_fingerprint.0) {
        return Err(CoordinatorRollbackArchiveStoreError::ReceiptBindingMismatch);
    }
    Ok(())
}

/// A receipt still holds if the archive still holds the same row.
pub fn revalidate_receipt(
    receipt: &PersistedCoordinatorRollbackArchiveRowReceipt<KivArchiveRow>,
    current: &Option<KivArchiveRow>,
) -> (result: Result<(), CoordinatorRollbackArchiveStoreError>)
    ensures
        result == (if *current matches Some(current) && current@ == receipt.row@ {
            Ok::<(), _>(())
        } else {
            Err(CoordinatorRollbackArchiveStoreError::ReceiptStale)
        }),
{
    match current {
        Some(current) => if current.same(&receipt.row) {
            Ok(())
        } else {
            Err(CoordinatorRollbackArchiveStoreError::ReceiptStale)
        },
        None => Err(CoordinatorRollbackArchiveStoreError::ReceiptStale),
    }
}

/// A receipt of a mapping row still holds if the archive still holds the same row.
pub fn revalidate_mapping_receipt(
    receipt: &PersistedCoordinatorRollbackArchiveRowReceipt<MappingArchiveRow>,
    current: &Option<MappingArchiveRow>,
) -> (result: Result<(), CoordinatorRollbackArchiveStoreError>)
    ensures
        result == (if *current matches Some(current) && current@ == receipt.row@ {
            Ok::<(), _>(())
        } else {
            Err(CoordinatorRollbackArchiveStoreError::ReceiptStale)
        }),
{
    match current {
        Some(current) => if current.same(&receipt.row) {
            Ok(())
        } else {
            Err(CoordinatorRollbackArchiveStoreError::ReceiptStale)
        },
        None => Err(CoordinatorRollbackArchiveStoreError::ReceiptStale),
    }
}

/// The archive row that a fragment is written as.
pub open spec fn stored_row_of(fragment: FragmentModel) -> StoredFragmentRow<Seq<u8>> {
    StoredFragmentRow {
        index: Some(fragment.index),
        columns: StoredFragmentColumns {
            revision: Some(archive_store::ARCHIVE_REVISION),
            count: Some(fragment.count),
            row_bytes: Some(fragment.row_bytes),
            payload: Some(fragment.payload),
            payload_digest: Some(fragment.payload_digest@),
            row_digest: Some(fragment.row_digest.0@),
        },
    }
}

pub open spec fn stored_rows_of(fragments: Seq<FragmentModel>) -> Seq<StoredFragmentRow<Seq<u8>>> {
    Seq::new(fragments.len(), |i: int| stored_row_of(fragments[i]))
}

/// Fragments read back from where they were written are the same fragments.
pub proof fn law_stored_fragments_read_back(fragments: Seq<FragmentModel>)
    requires
        forall|i: int|
            0 <= i < fragments.len() ==> (#[trigger] fragments[i]).payload_digest
                == archive_store::fragment_digest_of(fragments[i].index, fragments[i].payload),
    ensures
        stored_fragments(stored_rows_of(fragments)) == Ok::<
            Seq<FragmentModel>,
            CoordinatorRollbackArchiveStoreError,
        >(fragments),
    decreases fragments.len(),
{
    let rows = stored_rows_of(fragments);
    if fragments.len() == 0 {
        assert(fragments =~= Seq::empty());
    } else {
        let rest = fragments.drop_first();
        assert forall|i: int| 0 <= i < rest.len() implies (#[trigger] rest[i]).payload_digest
            == archive_store::fragment_digest_of(rest[i].index, rest[i].payload) by {
            assert(rest[i] == fragments[i + 1]);
        }
        law_stored_fragments_read_back(rest);
        assert(rows.drop_first() =~= stored_rows_of(rest));
        bytes::lemma_array_of::<32>(fragments[0].row_digest.0);
        assert(archive_store::stored_fragment(rows[0].index->0, rows[0].columns)
            == Ok::<FragmentModel, CoordinatorRollbackArchiveStoreError>(fragments[0]));
        assert(seq![fragments[0]] + rest =~= fragments);
    }
}

/// What the archive gives back of a row is the row that was written.
#[verifier::spinoff_prover]
#[verifier::rlimit(40)]
pub proof fn law_archive_reads_what_was_written(
    header: CheckpointKivRowHeader,
    value: Seq<u8>,
    registry: &Registry,
)
    requires
        archive_store::acceptable_header(header, registry),
        archive_store::kiv_row(header, value).canonical_bytes.len()
            <= archive_store::MAX_CANONICAL_ROW_BYTES,
    ensures
        ({
            let row = archive_store::kiv_row(header, value);
            let fragments = archive_store::fragments_of(row.canonical_bytes, row.digest);
            selected_kiv_row(stored_rows_of(fragments), row, registry, Ok(())) == Ok::<
                Option<KivArchiveRowModel>,
                CoordinatorRollbackArchiveStoreError,
            >(Some(row))
        }),
{
    let row = archive_store::kiv_row(header, value);
    let fragments = archive_store::fragments_of(row.canonical_bytes, row.digest);
    assert forall|i: int| 0 <= i < fragments.len() implies (#[trigger] fragments[i]).payload_digest
        == archive_store::fragment_digest_of(fragments[i].index, fragments[i].payload) by {}
    law_stored_fragments_read_back(fragments);
    archive_store::law_kiv_row_survives_fragmentation(header, value);
    archive_store::law_kiv_row_round_trips(header, value, registry);
    assert(fragments.len() > 0);
}

/// Inert evidence of the archived mapping rows of one checkpoint.
#[derive(Clone, Copy, Debug, PartialEq, Eq)]
pub struct CoordinatorRollbackArchivedMappingBundle {
    pub rows: u64,
    pub canonical_bytes: u64,
    pub digest: [u8; 32],
}

impl CoordinatorRollbackArchivedMappingBundle {
    pub fn rows(self) -> (rows: u64)
        ensures
            rows == self.rows,
    {
        self.rows
    }

    pub fn canonical_bytes(self) -> (bytes: u64)
        ensures
            bytes == self.canonical_bytes,
    {
        self.canonical_bytes
    }

    pub fn digest(self) -> (digest: [u8; 32])
        ensures
            digest == self.digest,
    {
        self.digest
    }
}

/// What the digest of a bundle starts with.
pub open spec fn bundle_front(bundle: branch_catalog::MappingBundleModel) -> Seq<u8> {
    bytes::text("psy/coordinator-rollback-mapping-archive-bundle/v1"@)
        + bundle.catalog_fingerprint@ + bytes::be64(bundle.source_epoch) + bytes::be64(
        bundle.checkpoint,
    ) + bytes::be64(bundle.pending.value)
}

/// What one archived mapping row adds to the digest of its bundle.
pub open spec fn bundle_member_bytes(row: MappingArchiveRowModel) -> Seq<u8> {
    seq![row.header.source_kind.spec_stable_id()] + row.slot.0@ + row.digest.0@
}

/// The archive row of the `i`-th source of a bundle.
pub open spec fn bundle_row(
    plan: &CoordinatorRollbackArchivePlan,
    bundle: branch_catalog::MappingBundleModel,
    i: int,
) -> MappingArchiveRowModel {
    let source = bundle.sources[i];
    mapping_archive_row::mapping_row(
        mapping_archive_row::bundle_header(plan, bundle, source.kind),
        source.primary_key,
        source.columns,
    )
}

/// What the first `n` rows of a bundle write into its digest.
pub open spec fn bundle_preimage(
    plan: &CoordinatorRollbackArchivePlan,
    bundle: branch_catalog::MappingBundleModel,
    n: nat,
) -> Seq<u8>
    decreases n,
{
    if n == 0 {
        bundle_front(bundle)
    } else {
        bundle_preimage(plan, bundle, (n - 1) as nat) + bundle_member_bytes(
            bundle_row(plan, bundle, n - 1),
        )
    }
}

/// The bytes of the first `n` rows of a bundle.
pub open spec fn bundle_bytes(
    plan: &CoordinatorRollbackArchivePlan,
    bundle: branch_catalog::MappingBundleModel,
    n: nat,
) -> nat
    decreases n,
{
    if n == 0 {
        0
    } else {
        bundle_bytes(plan, bundle, (n - 1) as nat) + bundle_row(
            plan,
            bundle,
            n - 1,
        ).canonical_bytes.len()
    }
}

/// The receipt of an archived mapping row.
pub type MappingReceipt = PersistedCoordinatorRollbackArchiveRowReceipt<MappingArchiveRow>;

/// What the archiving of a bundle has to do next.
#[derive(Debug, PartialEq, Eq)]
pub enum BundleStage {
    /// Read the chain reference of the source that is due, where it holds one.
    ReadMapping { source_index: usize },
    Persist { row: MappingArchiveRow },
    Revalidate { receipt: MappingReceipt },
    Finished(CoordinatorRollbackArchivedMappingBundle),
}

/// Archives the rows of one bundle, source after source, and commits them in order.
#[derive(Debug, PartialEq, Eq)]
pub struct MappingBundleArchive<'a> {
    pub expected_head: &'a StoredHead,
    pub plan: &'a CoordinatorRollbackArchivePlan,
    pub bundle: &'a MappingBundle,
    /// How many sources are archived.
    pub archived: usize,
    pub canonical_bytes: u64,
    pub preimage: Vec<u8>,
    pub stage: BundleStage,
}

impl<'a> MappingBundleArchive<'a> {
    /// What is archived are the first sources of the bundle, and the stage is about the
    /// one behind them.
    pub open spec fn wf(&self) -> bool {
        let bundle = self.bundle@;
        &&& self.archived <= bundle.sources.len()
        &&& self.canonical_bytes == bundle_bytes(self.plan, bundle, self.archived as nat)
        &&& self.preimage@ == bundle_preimage(self.plan, bundle, self.archived as nat)
        &&& match self.stage {
            BundleStage::ReadMapping { source_index } => source_index == self.archived
                && self.archived < bundle.sources.len(),
            BundleStage::Persist { row } => self.archived < bundle.sources.len() && row@
                == bundle_row(self.plan, bundle, self.archived as int),
            BundleStage::Revalidate { receipt } => self.archived < bundle.sources.len()
                && receipt.row@ == bundle_row(self.plan, bundle, self.archived as int),
            BundleStage::Finished(summary) => self.archived == bundle.sources.len()
                && self.summarised(summary),
        }
    }

    /// The summary counts and commits what is archived.
    pub open spec fn summarised(&self, summary: CoordinatorRollbackArchivedMappingBundle) -> bool {
        &&& summary.rows == self.archived
        &&& summary.canonical_bytes == self.canonical_bytes
        &&& summary.digest == hash::sha256(
            self.preimage@ + bytes::be64(self.archived as u64) + bytes::be64(self.canonical_bytes),
        )
    }

    /// The next step of the same archiving.
    pub open spec fn follows(&self, before: &Self) -> bool {
        &&& self.wf()
        &&& self.expected_head == before.expected_head
        &&& self.plan == before.plan
        &&& self.bundle == before.bundle
    }

    pub fn begin(
        expected_head: &'a StoredHead,
        plan: &'a CoordinatorRollbackArchivePlan,
        bundle: &'a MappingBundle,
    ) -> (archive: Self)
        ensures
            archive.wf(),
            archive.expected_head == expected_head,
            archive.plan == plan,
            archive.bundle == bundle,
            archive.archived == 0,
            archive.stage is Finished == (bundle@.sources.len() == 0),
            archive.stage is Finished || archive.stage is ReadMapping,
    {
        let mut preimage: Vec<u8> = text_bytes(
            "psy/coordinator-rollback-mapping-archive-bundle/v1",
        );
        push_bytes(&mut preimage, &bundle.catalog_fingerprint);
        push_u64(&mut preimage, bundle.source_epoch);
        push_u64(&mut preimage, bundle.checkpoint);
        push_u64(&mut preimage, bundle.pending.value);
        Self::proceed(expected_head, plan, bundle, 0, 0, preimage)
    }

    /// Goes on behind the sources that are archived: with the next one, or to the end.
    fn proceed(
        expected_head: &'a StoredHead,
        plan: &'a CoordinatorRollbackArchivePlan,
        bundle: &'a MappingBundle,
        archived: usize,
        canonical_bytes: u64,
        preimage: Vec<u8>,
    ) -> (archive: Self)
        requires
            archived <= bundle@.sources.len(),
            canonical_bytes == bundle_bytes(plan, bundle@, archived as nat),
            preimage@ == bundle_preimage(plan, bundle@, archived as nat),
        ensures
            archive.wf(),
            archive.expected_head == expected_head,
            archive.plan == plan,
            archive.bundle == bundle,
            archive.archived == archived,
            archive.stage is Finished == (archived == bundle@.sources.len()),
            archive.stage is Finished || archive.stage is ReadMapping,
    {
        let stage = if archived < bundle.sources.len() {
            BundleStage::ReadMapping { source_index: archived }
        } else {
            let mut sealed: Vec<u8> = copy_bytes(&preimage);
            push_u64(&mut sealed, archived as u64);
            push_u64(&mut sealed, canonical_bytes);
            BundleStage::Finished(
                CoordinatorRollbackArchivedMappingBundle {
                    rows: archived as u64,
                    canonical_bytes,
                    digest: sha256_digest(&sealed),
                },
            )
        };
        MappingBundleArchive {
            expected_head,
            plan,
            bundle,
            archived,
            canonical_bytes,
            preimage,
            stage,
        }
    }

    /// Takes what the protocol reads from the canonical bytes of the source that is due,
    /// and makes the row to persist.
    pub fn take_mapping(self, branch: Result<BranchPendingMapping, String>) -> (result: Result<
        Self,
        CoordinatorRollbackArchiveStoreError,
    >)
        requires
            self.wf(),
        ensures
            mapping_read(self, branch, result),
    {
        match self.stage {
            BundleStage::ReadMapping { source_index } => {
                match MappingArchiveRow::try_from_verified(
                    self.expected_head,
                    self.plan,
                    self.bundle,
                    source_index,
                    branch,
                ) {
                    Err(error) => Err(CoordinatorRollbackArchiveStoreError::MappingRow(error)),
                    Ok(row) => Ok(
                        MappingBundleArchive {
                            expected_head: self.expected_head,
                            plan: self.plan,
                            bundle: self.bundle,
                            archived: self.archived,
                            canonical_bytes: self.canonical_bytes,
                            preimage: self.preimage,
                            stage: BundleStage::Persist { row },
                        },
                    ),
                }
            },
            _ => Err(CoordinatorRollbackArchiveStoreError::OutOfOrder),
        }
    }

    /// Takes the receipt of the row that was persisted. It has to be that row's.
    pub fn take_receipt(
        self,
        persisted: Result<MappingReceipt, CoordinatorRollbackArchiveStoreError>,
    ) -> (result: Result<Self, CoordinatorRollbackArchiveStoreError>)
        requires
            self.wf(),
        ensures
            mapping_persisted(self, persisted, result),
    {
        match self.stage {
            BundleStage::Persist { row } => match persisted {
                Err(error) => Err(error),
                Ok(receipt) => if receipt.row.same(&row) {
                    Ok(
                        MappingBundleArchive {
                            expected_head: self.expected_head,
                            plan: self.plan,
                            bundle: self.bundle,
                            archived: self.archived,
                            canonical_bytes: self.canonical_bytes,
                            preimage: self.preimage,
                            stage: BundleStage::Revalidate { receipt },
                        },
                    )
                } else {
                    Err(CoordinatorRollbackArchiveStoreError::Conflict)
                },
            },
            _ => Err(CoordinatorRollbackArchiveStoreError::OutOfOrder),
        }
    }

    /// Takes the revalidation of the receipt. Its row counts then.
    pub fn take_revalidation(
        self,
        revalidated: Result<(), CoordinatorRollbackArchiveStoreError>,
    ) -> (result: Result<Self, CoordinatorRollbackArchiveStoreError>)
        requires
            self.wf(),
        ensures
            mapping_revalidated(self, revalidated, result),
    {
        match self.stage {
            BundleStage::Revalidate { receipt } => {
                match revalidated {
                    Err(error) => return Err(error),
                    Ok(_) => {},
                }
                let row = receipt.row;
                let sources: usize = self.bundle.sources.len();
                assert(self.archived < sources);
                let len: u64 = row.canonical_bytes.len() as u64;
                if len > u64::MAX - self.canonical_bytes {
                    return Err(CoordinatorRollbackArchiveStoreError::LengthOverflow);
                }
                let mut preimage = self.preimage;
                let ghost before = preimage@;
                push_byte(&mut preimage, row.header.source_kind.stable_id());
                push_bytes(&mut preimage, &row.slot.0);
                push_bytes(&mut preimage, &row.digest.0);
                assert(preimage@ =~= before + bundle_member_bytes(row@));
                Ok(
                    Self::proceed(
                        self.expected_head,
                        self.plan,
                        self.bundle,
                        self.archived + 1,
                        self.canonical_bytes + len,
                        preimage,
                    ),
                )
            },
            _ => Err(CoordinatorRollbackArchiveStoreError::OutOfOrder),
        }
    }
}

/// A bundle is finished only when every one of its sources is archived, and its summary
/// commits the rows of all of them, in order.
pub proof fn law_finished_bundle_is_complete(archive: MappingBundleArchive<'_>)
    requires
        archive.wf(),
    ensures
        archive.stage matches BundleStage::Finished(summary) ==> {
            let all = archive.bundle@.sources.len();
            &&& summary.rows == all
            &&& summary.canonical_bytes == bundle_bytes(archive.plan, archive.bundle@, all)
            &&& summary.digest == hash::sha256(
                bundle_preimage(archive.plan, archive.bundle@, all) + bytes::be64(summary.rows)
                    + bytes::be64(summary.canonical_bytes),
            )
        },
{
}

/// A recorded read moves a scan to the next checkpoint of its source, and behind the last
/// one to the first checkpoint of the next source, or to the end behind the last source.
/// It counts the row that it archived, if any, and that row's bytes.
pub proof fn law_recorded_read_moves_to_the_next(
    before: CheckpointPartitionScan,
    archived: Option<KivArchiveRowModel>,
    after: CheckpointPartitionScan,
)
    requires
        before.wf(),
        before.source_index < 4,
        recorded(before, archived, after),
    ensures
        before.checkpoint < before.end ==> after.source_index == before.source_index
            && after.checkpoint == before.checkpoint + 1,
        before.checkpoint == before.end ==> after.source_index == before.source_index + 1 && (
        after.source_index < 4 ==> after.checkpoint == before.start + 1),
        after.start == before.start,
        after.end == before.end,
        archived is None ==> after.row_count == before.row_count && after.canonical_bytes
            == before.canonical_bytes,
        archived matches Some(row) ==> after.row_count == before.row_count + 1
            && after.canonical_bytes == before.canonical_bytes + row.canonical_bytes.len(),
        after.dataset@ == before.dataset@ + (match archived {
            Some(row) => row.slot.0@ + row.digest.0@,
            None => Seq::<u8>::empty(),
        }) + (if before.checkpoint == before.end && before.source_index < 3 {
            bytes::be16(
                archive_store::spec_all_sources()[before.source_index
                    + 1].spec_key_domain().spec_stable_id(),
            )
        } else {
            Seq::<u8>::empty()
        }),
{
    let width = before.width();
    law_scan_covers_the_suffix(before);
    law_scan_covers_the_suffix(after);
    let at = before.position();
    let index = before.source_index as int;
    if before.checkpoint < before.end {
        assert((at + 1) / width == index && (at + 1) % width == before.checkpoint - before.start)
            by {
            vstd::arithmetic::div_mod::lemma_fundamental_div_mod_converse(
                at + 1,
                width,
                index,
                before.checkpoint - before.start,
            );
        }
        assert(index * width + width <= 4 * width) by (nonlinear_arith)
            requires
                0 <= index <= 3,
                width > 0,
        ;
    } else {
        assert(at + 1 == (index + 1) * width) by (nonlinear_arith)
            requires
                at == index * width + (width - 1),
        ;
        if index < 3 {
            assert((index + 1) * width < 4 * width) by (nonlinear_arith)
                requires
                    index < 3,
                    width > 0,
            ;
            vstd::arithmetic::div_mod::lemma_fundamental_div_mod_converse(
                at + 1,
                width,
                index + 1,
                0,
            );
        } else {
            assert((index + 1) * width == 4 * width) by (nonlinear_arith)
                requires
                    index == 3,
            ;
        }
    }
}

/// The four sources are scanned in a fixed order, and the dataset of a scan starts with
/// its plan and the domain of the first of them.
pub proof fn law_sources_are_scanned_in_order(plan: &CoordinatorRollbackArchivePlan)
    ensures
        ({
            let all = archive_store::spec_all_sources();
            &&& all.len() == 4
            &&& all[0] is CheckpointLeaf
            &&& all[1] is L2BlockState
            &&& all[2] is CheckpointStateRoots
            &&& all[3] is CheckpointZkProof
        }),
        plan.request.target.height < plan.request.requested_head.height ==> dataset_front(plan)
            == bytes::text("psy/coordinator-rollback-archive-dataset/v1"@) + plan.digest.0@
            + bytes::be16(crate::identity::ScyllaKeyDomain::CheckpointLeaf.spec_stable_id()),
{
}

/// The archive holds a row where another belongs only if its fragments make up a row that
/// decodes, with the slot, the chain, the plan and the domain of the other. Without rows
/// it holds none.
pub proof fn law_archive_selects_the_row_that_belongs(
    rows: Seq<StoredFragmentRow<Seq<u8>>>,
    expected: KivArchiveRowModel,
    registry: &Registry,
    network: Result<(), String>,
)
    ensures
        selected_kiv_row(rows, expected, registry, network) == Ok::<
            Option<KivArchiveRowModel>,
            CoordinatorRollbackArchiveStoreError,
        >(None) <==> rows.len() == 0,
        selected_kiv_row(rows, expected, registry, network) matches Ok(Some(row)) ==> {
            &&& row.slot == expected.slot
            &&& row.header.network == expected.header.network
            &&& row.header.chain_epoch == expected.header.chain_epoch
            &&& row.header.participant_plan_digest == expected.header.participant_plan_digest
            &&& row.header.key_domain == expected.header.key_domain
            &&& archive_store::decoded_kiv_row(row.canonical_bytes, registry, network) == Ok::<
                _,
                archive_store::CoordinatorRollbackArchiveRowError,
            >(row)
            &&& stored_fragments(rows) matches Ok(fragments) && fragments.len() == rows.len()
                && archive_store::joined(archive_store::in_index_order(fragments)) == Ok::<
                _,
                CoordinatorRollbackArchiveStoreError,
            >(row.canonical_bytes)
        },
{
    lemma_stored_fragments_len(rows);
    if let Ok(fragments) = stored_fragments(rows) {
        if let Ok(bytes) = archive_store::joined(archive_store::in_index_order(fragments)) {
            archive_store::law_decoded_kiv_row_is_canonical(bytes, registry, network);
        }
    }
}

proof fn lemma_stored_fragments_len(rows: Seq<StoredFragmentRow<Seq<u8>>>)
    ensures
        stored_fragments(rows) matches Ok(fragments) ==> fragments.len() == rows.len(),
    decreases rows.len(),
{
    if rows.len() > 0 {
        lemma_stored_fragments_len(rows.drop_first());
    }
}

/// The same of mapping rows.
pub proof fn law_archive_selects_the_mapping_that_belongs(
    rows: Seq<StoredFragmentRow<Seq<u8>>>,
    expected: MappingArchiveRowModel,
    network: Result<(), String>,
    branch: Result<BranchPendingMapping, String>,
)
    ensures
        selected_mapping_row(rows, expected, network, branch) == Ok::<
            Option<MappingArchiveRowModel>,
            CoordinatorRollbackArchiveStoreError,
        >(None) <==> rows.len() == 0,
        selected_mapping_row(rows, expected, network, branch) matches Ok(Some(row)) ==> {
            &&& row.slot == expected.slot
            &&& row.header.network == expected.header.network
            &&& row.header.rollback_epoch == expected.header.rollback_epoch
            &&& row.header.participant_plan_digest == expected.header.participant_plan_digest
            &&& row.header.key_domain == expected.header.key_domain
            &&& stored_fragments(rows) matches Ok(fragments) && fragments.len() == rows.len()
                && (archive_store::joined(
                archive_store::in_index_order(fragments),
            ) matches Ok(bytes) && mapping_archive_row::decoded_mapping_row(bytes, network, branch)
                == Ok::<_, mapping_archive_row::CoordinatorRollbackMappingArchiveRowError>(row))
        },
{
    lemma_stored_fragments_len(rows);
}

/// The digest of a bundle starts with the catalog, the epoch and the pair of the bundle,
/// and each archived row adds its direction, its slot and its digest, in order.
pub proof fn law_bundle_digest_covers_every_row(
    plan: &CoordinatorRollbackArchivePlan,
    bundle: branch_catalog::MappingBundleModel,
    n: nat,
)
    ensures
        bundle_preimage(plan, bundle, 0) == bytes::text(
            "psy/coordinator-rollback-mapping-archive-bundle/v1"@,
        ) + bundle.catalog_fingerprint@ + bytes::be64(bundle.source_epoch) + bytes::be64(
            bundle.checkpoint,
        ) + bytes::be64(bundle.pending.value),
        ({
            let source = bundle.sources[n as int];
            let row = mapping_archive_row::mapping_row(
                mapping_archive_row::bundle_header(plan, bundle, source.kind),
                source.primary_key,
                source.columns,
            );
            &&& bundle_preimage(plan, bundle, n + 1) == bundle_preimage(plan, bundle, n) + (seq![
                source.kind.spec_stable_id(),
            ] + row.slot.0@ + row.digest.0@)
            &&& bundle_bytes(plan, bundle, n + 1) == bundle_bytes(plan, bundle, n)
                + row.canonical_bytes.len()
            &&& bundle_bytes(plan, bundle, 0) == 0
        }),
{
    reveal_with_fuel(bundle_preimage, 2);
    reveal_with_fuel(bundle_bytes, 2);
}

/// What the mapping of the source that is due leads to.
pub open spec fn mapping_read<'a>(
    archive: MappingBundleArchive<'a>,
    branch: Result<BranchPendingMapping, String>,
    result: Result<MappingBundleArchive<'a>, CoordinatorRollbackArchiveStoreError>,
) -> bool {
    match archive.stage {
        BundleStage::ReadMapping { source_index } => {
            match mapping_archive_row::admitted_mapping_row(
                archive.expected_head@,
                archive.plan,
                archive.bundle@,
                source_index as int,
                branch,
            ) {
                Ok(model) => result matches Ok(next) && next.follows(&archive)
                    && next.archived == archive.archived && (
                next.stage matches BundleStage::Persist { row } && row@ == model),
                Err(error) => result == Err::<MappingBundleArchive<'a>, _>(
                    CoordinatorRollbackArchiveStoreError::MappingRow(error),
                ),
            }
        },
        _ => result == Err::<MappingBundleArchive<'a>, _>(CoordinatorRollbackArchiveStoreError::OutOfOrder),
    }
}

/// What the receipt of a persisted mapping row leads to.
pub open spec fn mapping_persisted<'a>(
    archive: MappingBundleArchive<'a>,
    persisted: Result<MappingReceipt, CoordinatorRollbackArchiveStoreError>,
    result: Result<MappingBundleArchive<'a>, CoordinatorRollbackArchiveStoreError>,
) -> bool {
    match (archive.stage, persisted) {
        (BundleStage::Persist { .. }, Err(error)) => result == Err::<MappingBundleArchive<'a>, _>(error),
        (BundleStage::Persist { row }, Ok(receipt)) => if receipt.row@ == row@ {
            result matches Ok(next) && next.follows(&archive) && next.archived
                == archive.archived && next.stage == (BundleStage::Revalidate { receipt })
        } else {
            result == Err::<MappingBundleArchive<'a>, _>(CoordinatorRollbackArchiveStoreError::Conflict)
        },
        _ => result == Err::<MappingBundleArchive<'a>, _>(CoordinatorRollbackArchiveStoreError::OutOfOrder),
    }
}

/// What the revalidation of a persisted mapping row leads to.
pub open spec fn mapping_revalidated<'a>(
    archive: MappingBundleArchive<'a>,
    revalidated: Result<(), CoordinatorRollbackArchiveStoreError>,
    result: Result<MappingBundleArchive<'a>, CoordinatorRollbackArchiveStoreError>,
) -> bool {
    match (archive.stage, revalidated) {
        (BundleStage::Revalidate { .. }, Err(error)) => result == Err::<MappingBundleArchive<'a>, _>(error),
        (BundleStage::Revalidate { receipt }, Ok(_)) => if archive.canonical_bytes
            + receipt.row.canonical_bytes@.len() > u64::MAX {
            result == Err::<MappingBundleArchive<'a>, _>(CoordinatorRollbackArchiveStoreError::LengthOverflow)
        } else {
            result matches Ok(next) && next.follows(&archive) && next.archived
                == archive.archived + 1 && (next.stage is Finished || next.stage is ReadMapping)
        },
        _ => result == Err::<MappingBundleArchive<'a>, _>(CoordinatorRollbackArchiveStoreError::OutOfOrder),
    }
}

/// What a store gives a receipt for.
pub open spec fn row_accepted(
    store_fingerprint: CoordinatorRollbackArchiveStoreFingerprint,
    row: KivArchiveRowModel,
    current: Option<KivArchiveRow>,
    result: Result<PersistedCoordinatorRollbackArchiveRowReceipt<KivArchiveRow>, CoordinatorRollbackArchiveStoreError>,
) -> bool {
    match result {
        Ok(receipt) => current == Some(receipt.row) && receipt.row@ == row
            && receipt.store_fingerprint == store_fingerprint,
        Err(CoordinatorRollbackArchiveStoreError::MissingAfterPersist) => current is None,
        Err(error) => error == CoordinatorRollbackArchiveStoreError::Conflict && current is Some
            && (current->0)@ != row,
    }
}

/// What a store gives a receipt for, of a mapping row.
pub open spec fn mapping_row_accepted(
    store_fingerprint: CoordinatorRollbackArchiveStoreFingerprint,
    row: MappingArchiveRowModel,
    current: Option<MappingArchiveRow>,
    result: Result<PersistedCoordinatorRollbackArchiveRowReceipt<MappingArchiveRow>, CoordinatorRollbackArchiveStoreError>,
) -> bool {
    match result {
        Ok(receipt) => current == Some(receipt.row) && receipt.row@ == row
            && receipt.store_fingerprint == store_fingerprint,
        Err(CoordinatorRollbackArchiveStoreError::MissingAfterPersist) => current is None,
        Err(error) => error == CoordinatorRollbackArchiveStoreError::Conflict && current is Some
            && (current->0)@ != row,
    }
}

/// A source of a bundle is archived only as the plan admits it under the bundle's head,
/// only if the archive holds exactly that row, and only once it was revalidated; then it
/// counts as one more.
pub proof fn law_bundle_is_archived_source_by_source<'a>(
    archive: MappingBundleArchive<'a>,
    branch: Result<BranchPendingMapping, String>,
    persisted: Result<MappingReceipt, CoordinatorRollbackArchiveStoreError>,
    revalidated: Result<(), CoordinatorRollbackArchiveStoreError>,
    read: Result<MappingBundleArchive<'a>, CoordinatorRollbackArchiveStoreError>,
    kept: Result<MappingBundleArchive<'a>, CoordinatorRollbackArchiveStoreError>,
    counted: Result<MappingBundleArchive<'a>, CoordinatorRollbackArchiveStoreError>,
)
    requires
        mapping_read(archive, branch, read),
        mapping_persisted(archive, persisted, kept),
        mapping_revalidated(archive, revalidated, counted),
    ensures
        read matches Ok(next) ==> archive.stage is ReadMapping && next.archived == archive.archived
            && next.stage is Persist && mapping_archive_row::admitted_mapping_row(
            archive.expected_head@,
            archive.plan,
            archive.bundle@,
            archive.stage->ReadMapping_source_index as int,
            branch,
        ) == Ok::<_, mapping_archive_row::CoordinatorRollbackMappingArchiveRowError>(
            next.stage->Persist_row@,
        ),
        kept matches Ok(next) ==> archive.stage is Persist && (persisted matches Ok(receipt)
            && receipt.row@ == archive.stage->Persist_row@ && next.stage
            == (BundleStage::Revalidate { receipt })) && next.archived == archive.archived,
        archive.stage is Persist && (persisted matches Ok(receipt) && receipt.row@
            != archive.stage->Persist_row@) ==> kept is Err && kept->Err_0 is Conflict,
        counted matches Ok(next) ==> archive.stage is Revalidate && revalidated is Ok
            && next.archived == archive.archived + 1 && next.expected_head == archive.expected_head
            && next.plan == archive.plan && next.bundle == archive.bundle,
        archive.stage is Revalidate && revalidated is Err ==> counted == Err::<
            MappingBundleArchive<'a>,
            _,
        >(revalidated->Err_0),
{
}

/// A store gives a receipt exactly for the row that it holds, if that is the very row, and
/// in its own name. Another row is a conflict, and none is missing.
pub proof fn law_receipts_are_for_the_stored_row(
    store_fingerprint: CoordinatorRollbackArchiveStoreFingerprint,
    row: KivArchiveRowModel,
    current: Option<KivArchiveRow>,
    result: Result<
        PersistedCoordinatorRollbackArchiveRowReceipt<KivArchiveRow>,
        CoordinatorRollbackArchiveStoreError,
    >,
    mapping: MappingArchiveRowModel,
    stored: Option<MappingArchiveRow>,
    accepted: Result<
        PersistedCoordinatorRollbackArchiveRowReceipt<MappingArchiveRow>,
        CoordinatorRollbackArchiveStoreError,
    >,
)
    requires
        row_accepted(store_fingerprint, row, current, result),
        mapping_row_accepted(store_fingerprint, mapping, stored, accepted),
    ensures
        match result {
            Ok(receipt) => current is Some && (current->0)@ == row && receipt.row@ == row
                && receipt.store_fingerprint == store_fingerprint,
            Err(error) => if current is None {
                error is MissingAfterPersist
            } else {
                (current->0)@ != row && error is Conflict
            },
        },
        match accepted {
            Ok(receipt) => stored is Some && (stored->0)@ == mapping && receipt.row@ == mapping
                && receipt.store_fingerprint == store_fingerprint,
            Err(error) => if stored is None {
                error is MissingAfterPersist
            } else {
                (stored->0)@ != mapping && error is Conflict
            },
        },
{
}

} // verus!
