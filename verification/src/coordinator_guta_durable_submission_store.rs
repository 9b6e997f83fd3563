//! Immutable durable Coordinator GUTA submissions.
//!
//! A record is selected before its queue publication. The same full content is
//! idempotent; different content under the same slot is a permanent conflict. There
//! is no statement that updates, deletes or lets a record expire.

use vstd::prelude::*;

use crate::bytes::{array_equal, bytes_equal};
use crate::keyspace::CqlKeyspaceName;
use crate::lwt;
use crate::lwt::both_failed_text;
use crate::model::{AuthorityScope, NetworkId};
use crate::text;
use crate::text::{concat3, qualify};

verus! {

pub const COORDINATOR_GUTA_DURABLE_SUBMISSION_TABLE: &'static str =
    "branch_exact_coordinator_guta_submission_v1";

pub const REVISION: i64 = 1;

#[derive(Clone, Debug, PartialEq, Eq)]
pub enum CoordinatorGutaDurableSubmissionStoreError {
    Cql(String),
    Core(String),
    MissingColumn,
    UnknownRevision,
    MissingAppliedColumn,
    InvalidAppliedColumn,
    MissingAfterLwt,
    AppliedStateMismatch,
    IdentityMismatch,
    Conflict,
    Indeterminate(String),
}

#[derive(Clone, Debug, PartialEq, Eq)]
pub struct CoordinatorGutaDurableSubmissionQueries {
    pub create: String,
    pub read: String,
    pub insert: String,
}

impl CoordinatorGutaDurableSubmissionQueries {
    pub fn new(keyspace: &CqlKeyspaceName) -> (queries: Self)
        ensures
            queries.create@ == "CREATE TABLE IF NOT EXISTS "@ + text::qualified(
                keyspace@,
                COORDINATOR_GUTA_DURABLE_SUBMISSION_TABLE@,
            )
                + " (submission_slot blob PRIMARY KEY, revision bigint, submission_payload blob)"@,
            queries.read@ == "SELECT revision, submission_payload FROM "@ + text::qualified(
                keyspace@,
                COORDINATOR_GUTA_DURABLE_SUBMISSION_TABLE@,
            ) + " WHERE submission_slot = ?"@,
            queries.insert@ == "INSERT INTO "@ + text::qualified(
                keyspace@,
                COORDINATOR_GUTA_DURABLE_SUBMISSION_TABLE@,
            )
                + " (submission_slot, revision, submission_payload) VALUES (?, ?, ?) IF NOT EXISTS"@,
    {
        let table = qualify(keyspace.as_str(), COORDINATOR_GUTA_DURABLE_SUBMISSION_TABLE);
        CoordinatorGutaDurableSubmissionQueries {
            create: concat3(
                "CREATE TABLE IF NOT EXISTS ",
                table.as_str(),
                " (submission_slot blob PRIMARY KEY, revision bigint, submission_payload blob)",
            ),
            read: concat3(
                "SELECT revision, submission_payload FROM ",
                table.as_str(),
                " WHERE submission_slot = ?",
            ),
            insert: concat3(
                "INSERT INTO ",
                table.as_str(),
                " (submission_slot, revision, submission_payload) VALUES (?, ?, ?) IF NOT EXISTS",
            ),
        }
    }
}

/// A submission: the network and the authority of its pending generation, its slot
/// and its canonical bytes.
#[verifier::ext_equal]
#[derive(Clone, Debug, PartialEq, Eq)]
pub struct CoordinatorGutaDurableSubmission<B> {
    pub network: NetworkId,
    pub authority: AuthorityScope,
    pub slot: [u8; 32],
    pub canonical: B,
}

pub type Submission = CoordinatorGutaDurableSubmission<Vec<u8>>;

pub type SubmissionModel = CoordinatorGutaDurableSubmission<Seq<u8>>;

impl View for CoordinatorGutaDurableSubmission<Vec<u8>> {
    type V = CoordinatorGutaDurableSubmission<Seq<u8>>;

    open spec fn view(&self) -> CoordinatorGutaDurableSubmission<Seq<u8>> {
        CoordinatorGutaDurableSubmission {
            network: self.network,
            authority: self.authority,
            slot: self.slot,
            canonical: self.canonical@,
        }
    }
}

impl CoordinatorGutaDurableSubmission<Vec<u8>> {
    pub fn same(&self, other: &Self) -> (same: bool)
        ensures
            same == (self@ == other@),
    {
        self.network == other.network && self.authority == other.authority && array_equal::<32>(
            &self.slot,
            &other.slot,
        ) && bytes_equal(&self.canonical, &other.canonical)
    }
}

/// A store of one network takes the Coordinator's submissions of that network only.
pub open spec fn checked_identity(network: NetworkId, submission: SubmissionModel) -> Result<
    (),
    CoordinatorGutaDurableSubmissionStoreError,
> {
    if submission.network != network || submission.authority != AuthorityScope::Coordinator {
        Err(CoordinatorGutaDurableSubmissionStoreError::IdentityMismatch)
    } else {
        Ok(())
    }
}

pub fn validate_identity(network: NetworkId, submission: &Submission) -> (result: Result<
    (),
    CoordinatorGutaDurableSubmissionStoreError,
>)
    ensures
        result == checked_identity(network, submission@),
{
    if submission.network != network || submission.authority != AuthorityScope::Coordinator {
        Err(CoordinatorGutaDurableSubmissionStoreError::IdentityMismatch)
    } else {
        Ok(())
    }
}

pub open spec fn submission_result(
    result: Result<Option<Submission>, CoordinatorGutaDurableSubmissionStoreError>,
) -> Result<Option<SubmissionModel>, CoordinatorGutaDurableSubmissionStoreError> {
    match result {
        Err(error) => Err(error),
        Ok(None) => Ok(None),
        Ok(Some(submission)) => Ok(Some(submission@)),
    }
}

/// What a stored row says. `decoded` is what the submission codec reads from the
/// payload under the slot that was asked for.
pub open spec fn stored_submission(
    network: NetworkId,
    row: Option<(Option<i64>, bool)>,
    decoded: Result<SubmissionModel, String>,
) -> Result<Option<SubmissionModel>, CoordinatorGutaDurableSubmissionStoreError> {
    match row {
        None => Ok(None),
        Some((revision, has_payload)) => if revision is None {
            Err(CoordinatorGutaDurableSubmissionStoreError::MissingColumn)
        } else if revision->0 != REVISION {
            Err(CoordinatorGutaDurableSubmissionStoreError::UnknownRevision)
        } else if !has_payload {
            Err(CoordinatorGutaDurableSubmissionStoreError::MissingColumn)
        } else {
            match decoded {
                Err(refused) => Err(CoordinatorGutaDurableSubmissionStoreError::Core(refused)),
                Ok(submission) => match checked_identity(network, submission) {
                    Err(error) => Err(error),
                    Ok(_) => Ok(Some(submission)),
                },
            }
        },
    }
}

pub open spec fn decoded_view(decoded: Result<Submission, String>) -> Result<SubmissionModel, String> {
    match decoded {
        Ok(submission) => Ok(submission@),
        Err(refused) => Err(refused),
    }
}

/// Takes a stored row. `row` is the revision, where there is one, and whether there
/// is a payload.
pub fn read_submission(
    network: NetworkId,
    row: Option<(Option<i64>, bool)>,
    decoded: Result<Submission, String>,
) -> (result: Result<Option<Submission>, CoordinatorGutaDurableSubmissionStoreError>)
    ensures
        submission_result(result) == stored_submission(network, row, decoded_view(decoded)),
{
    let (revision, has_payload) = match row {
        None => return Ok(None),
        Some(row) => row,
    };
    match revision {
        None => return Err(CoordinatorGutaDurableSubmissionStoreError::MissingColumn),
        Some(revision) => if revision != REVISION {
            return Err(CoordinatorGutaDurableSubmissionStoreError::UnknownRevision);
        },
    }
    if !has_payload {
        return Err(CoordinatorGutaDurableSubmissionStoreError::MissingColumn);
    }
    match decoded {
        Err(refused) => Err(CoordinatorGutaDurableSubmissionStoreError::Core(refused)),
        Ok(submission) => {
            validate_identity(network, &submission)?;
            Ok(Some(submission))
        },
    }
}

/// Whether a conditional insert was applied, or what stands in the way of knowing.
/// Behind a failed execution only the exact record counts, as one that was there.
pub open spec fn applied_of(
    execution: Result<bool, String>,
    readback: Result<Option<SubmissionModel>, String>,
    submission: SubmissionModel,
) -> Option<bool> {
    match execution {
        Ok(applied) => Some(applied),
        Err(_) => if readback == Ok::<Option<SubmissionModel>, String>(Some(submission)) {
            Some(false)
        } else {
            None
        },
    }
}

pub open spec fn readback_view(readback: Result<Option<Submission>, String>) -> Result<
    Option<SubmissionModel>,
    String,
> {
    match readback {
        Err(error) => Err(error),
        Ok(None) => Ok(None),
        Ok(Some(submission)) => Ok(Some(submission@)),
    }
}

/// Settles an insert whose execution ended as it did. `readback` is the read that a
/// failed execution is followed by; a successful one ignores it.
pub fn settle_execution(
    execution: Result<bool, String>,
    readback: Result<Option<Submission>, String>,
    submission: &Submission,
) -> (result: Result<bool, CoordinatorGutaDurableSubmissionStoreError>)
    ensures
        match (applied_of(execution, readback_view(readback), submission@), result) {
            (Some(applied), Ok(found)) => found == applied,
            (
                None,
                Err(CoordinatorGutaDurableSubmissionStoreError::Indeterminate(text)),
            ) => match readback {
                Ok(_) => text == execution->Err_0,
                Err(read) => text@ == lwt::both_failed((execution->Err_0)@, read@),
            },
            _ => false,
        },
{
    let error: String = match execution {
        Ok(applied) => return Ok(applied),
        Err(error) => error,
    };
    match readback {
        Ok(current) => {
            match &current {
                Some(current) => if current.same(submission) {
                    return Ok(false);
                },
                None => {},
            }
            Err(CoordinatorGutaDurableSubmissionStoreError::Indeterminate(error))
        },
        Err(read) => Err(
            CoordinatorGutaDurableSubmissionStoreError::Indeterminate(
                both_failed_text(error.as_str(), read.as_str()),
            ),
        ),
    }
}

/// Accepts what the store holds behind a settled insert: the exact submission.
pub fn accept_persisted(
    applied: bool,
    current: Option<Submission>,
    submission: &Submission,
) -> (result: Result<Submission, CoordinatorGutaDurableSubmissionStoreError>)
    ensures
        submission_accepted(applied, current, submission@, result),
{
    match current {
        None => Err(CoordinatorGutaDurableSubmissionStoreError::MissingAfterLwt),
        Some(current) => if current.same(submission) {
            Ok(current)
        } else if applied {
            Err(CoordinatorGutaDurableSubmissionStoreError::AppliedStateMismatch)
        } else {
            Err(CoordinatorGutaDurableSubmissionStoreError::Conflict)
        },
    }
}

/// A store takes exactly the Coordinator's submissions of its own network.
pub proof fn law_store_takes_its_own_submissions(network: NetworkId, submission: SubmissionModel)
    ensures
        match checked_identity(network, submission) {
            Ok(_) => submission.network == network && submission.authority is Coordinator,
            Err(error) => error is IdentityMismatch && !(submission.network == network
                && submission.authority is Coordinator),
        },
{
}

/// A stored row is a submission exactly if it is of the store's revision, has a payload
/// that decodes, and is one that the store takes; it is then what the payload decodes to.
/// Without a row there is none.
pub proof fn law_stored_submission_is_checked(
    network: NetworkId,
    row: Option<(Option<i64>, bool)>,
    decoded: Result<SubmissionModel, String>,
)
    ensures
        ({
            let stored = stored_submission(network, row, decoded);
            &&& stored == Ok::<
                Option<SubmissionModel>,
                CoordinatorGutaDurableSubmissionStoreError,
            >(None) <==> row is None
            &&& (stored is Ok && stored->Ok_0 is Some) <==> {
                &&& row == Some((Some(REVISION), true))
                &&& decoded matches Ok(submission) && submission.network == network
                    && submission.authority is Coordinator
            }
            &&& stored matches Ok(Some(submission)) ==> decoded == Ok::<_, String>(submission)
            &&& stored matches Err(error) ==> {
                &&& error is UnknownRevision ==> (row->0).0 is Some && (row->0).0 != Some(REVISION)
                &&& error is MissingColumn <==> (row->0).0 is None || ((row->0).0 == Some(REVISION)
                    && !(row->0).1)
            }
        }),
{
}

/// An insert is known to be applied, or not, if its execution says so. Behind one that
/// failed it is known only if the store holds exactly the submission, and then as one that
/// was there already.
pub proof fn law_failed_insert_counts_only_if_read_back(
    execution: Result<bool, String>,
    readback: Result<Option<SubmissionModel>, String>,
    submission: SubmissionModel,
)
    ensures
        match applied_of(execution, readback, submission) {
            Some(applied) => execution == Ok::<_, String>(applied) || (execution is Err && !applied
                && readback == Ok::<_, String>(Some(submission))),
            None => execution is Err && readback != Ok::<_, String>(Some(submission)),
        },
{
}

/// What a store accepts behind a settled insert.
pub open spec fn submission_accepted(
    applied: bool,
    current: Option<Submission>,
    submission: SubmissionModel,
    result: Result<Submission, CoordinatorGutaDurableSubmissionStoreError>,
) -> bool {
    match result {
        Ok(persisted) => current is Some && persisted@ == submission && (current->0)@
            == submission,
        Err(error) => error == (match current {
            None => CoordinatorGutaDurableSubmissionStoreError::MissingAfterLwt,
            Some(current) => if applied {
                CoordinatorGutaDurableSubmissionStoreError::AppliedStateMismatch
            } else {
                CoordinatorGutaDurableSubmissionStoreError::Conflict
            },
        }) && (current is Some ==> (current->0)@ != submission),
    }
}

/// A submission counts as persisted exactly if the store holds that very submission. One
/// that was applied and is another is a mismatch, one that was there before a conflict.
pub proof fn law_persisted_submission_is_the_very_one(
    applied: bool,
    current: Option<Submission>,
    submission: SubmissionModel,
    result: Result<Submission, CoordinatorGutaDurableSubmissionStoreError>,
)
    requires
        submission_accepted(applied, current, submission, result),
    ensures
        result is Ok <==> current is Some && (current->0)@ == submission,
        result matches Ok(persisted) ==> persisted@ == submission,
        result matches Err(error) ==> {
            &&& error is MissingAfterLwt <==> current is None
            &&& error is AppliedStateMismatch <==> current is Some && applied
            &&& error is Conflict <==> current is Some && !applied
        },
{
}

} // verus!
