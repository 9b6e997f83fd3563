//! Settling a conditional insert.
//!
//! The database either applies the insert, refuses it because a row is already
//! there, or fails without saying which. Only a readback of the exact row makes
//! the last two a success.

use vstd::prelude::*;

use crate::text::concat3;

verus! {

/// What the database said of a conditional insert.
#[derive(Clone, Debug, PartialEq, Eq)]
pub enum LwtWrite {
    Applied,
    NotApplied,
    Failed(String),
}

/// The stored row against the one that was to be written.
#[derive(Clone, Copy, Debug, PartialEq, Eq, Structural)]
pub enum Stored {
    Same,
    Other,
    Absent,
}

/// A read behind an insert: what it found, or the error it failed with and that
/// error's text.
#[derive(Clone, Debug, PartialEq, Eq)]
pub enum LwtReadback<E> {
    NotRead,
    Found(Stored),
    Failed { error: E, text: String },
}

#[derive(Clone, Debug, PartialEq, Eq)]
pub enum LwtVerdict<E> {
    Persisted,
    Conflict,
    ReadFailed(E),
    Indeterminate(String),
}

/// The text of a write and a readback that both failed.
pub open spec fn both_failed(write: Seq<char>, read: Seq<char>) -> Seq<char> {
    "execute="@ + write + "; read="@ + read
}

pub fn both_failed_text(write: &str, read: &str) -> (whole: String)
    ensures
        whole@ == both_failed(write@, read@),
{
    let front = concat3("execute=", write, "; read=");
    let whole = concat3(front.as_str(), read, "");
    proof {
        reveal_strlit("");
        assert(whole@ =~= both_failed(write@, read@));
    }
    whole
}

/// What an insert and the read behind it settle.
pub open spec fn settled<E>(
    write: LwtWrite,
    readback: LwtReadback<E>,
    verdict: LwtVerdict<E>,
) -> bool {
    match (write, readback) {
        (LwtWrite::Applied, _) => verdict is Persisted,
        (_, LwtReadback::Found(Stored::Same)) => verdict is Persisted,
        (LwtWrite::NotApplied, LwtReadback::Failed { error, .. }) => verdict
            == LwtVerdict::ReadFailed(error),
        (LwtWrite::NotApplied, _) => verdict is Conflict,
        (LwtWrite::Failed(failure), LwtReadback::Failed { text, .. }) => {
            verdict matches LwtVerdict::Indeterminate(whole) && whole@ == both_failed(
                failure@,
                text@,
            )
        },
        (LwtWrite::Failed(failure), _) => verdict == LwtVerdict::<E>::Indeterminate(failure),
    }
}

/// A refused insert stands only if the stored row is the one to be written, and
/// conflicts otherwise. A failed insert stands only if the row is there exactly;
/// otherwise nobody can say whether it will be.
pub fn settle<E>(write: LwtWrite, readback: LwtReadback<E>) -> (verdict: LwtVerdict<E>)
    ensures
        settled(write, readback, verdict),
{
    match write {
        LwtWrite::Applied => LwtVerdict::Persisted,
        LwtWrite::NotApplied => match readback {
            LwtReadback::Found(Stored::Same) => LwtVerdict::Persisted,
            LwtReadback::Failed { error, .. } => LwtVerdict::ReadFailed(error),
            _ => LwtVerdict::Conflict,
        },
        LwtWrite::Failed(failure) => match readback {
            LwtReadback::Found(Stored::Same) => LwtVerdict::Persisted,
            LwtReadback::Failed { text, .. } => LwtVerdict::Indeterminate(
                both_failed_text(failure.as_str(), text.as_str()),
            ),
            _ => LwtVerdict::Indeterminate(failure),
        },
    }
}

/// An insert counts as persisted exactly if the database applied it or the very row is
/// read back. It is a conflict only if the database refused it and another row or none is
/// there; what failed and is not read back stays undecided.
pub proof fn law_insert_counts_only_if_applied_or_read_back<E>(
    write: LwtWrite,
    readback: LwtReadback<E>,
    verdict: LwtVerdict<E>,
)
    requires
        settled(write, readback, verdict),
    ensures
        verdict is Persisted <==> write is Applied || readback == LwtReadback::<E>::Found(
            Stored::Same,
        ),
        verdict is Conflict ==> write is NotApplied && !(readback is Failed),
        verdict matches LwtVerdict::ReadFailed(error) ==> write is NotApplied && readback is Failed
            && readback->Failed_error == error,
        verdict matches LwtVerdict::Indeterminate(text) ==> write is Failed && if readback is Failed {
            text@ == "execute="@ + (write->Failed_0)@ + "; read="@ + (readback->Failed_text)@
        } else {
            text == write->Failed_0
        },
{
}

} // verus!
