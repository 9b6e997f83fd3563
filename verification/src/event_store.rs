//! Where a chain's rollback history lives.
//!
//! One partition per network and one row per rollback, clustered by the epoch that
//! the rollback allocated, descending. The participant set is stored as the
//! concatenated canonical scope bytes of its members.

use vstd::prelude::*;

use crate::bytes;
use crate::bytes::{array_from, copy_bytes, from_bits, push_bytes, to_bits};
use crate::text::concat3;

verus! {

pub const ROLLBACK_EVENT_TABLE: &'static str = "rollback_event";

/// A stored participant set is not a whole number of scopes.
#[derive(Clone, Copy, Debug, PartialEq, Eq, Structural)]
pub struct TruncatedParticipantSet {
    pub bytes: usize,
    pub scope_bytes: usize,
}

/// The concatenation of scopes.
pub open spec fn scopes_bytes<const N: usize>(scopes: Seq<[u8; N]>) -> Seq<u8>
    decreases scopes.len(),
{
    if scopes.len() == 0 {
        Seq::empty()
    } else {
        scopes_bytes(scopes.drop_last()) + scopes.last()@
    }
}

pub fn encode_scopes<const N: usize>(scopes: &[[u8; N]]) -> (bytes: Vec<u8>)
    ensures
        bytes@ == scopes_bytes(scopes@),
{
    let mut bytes: Vec<u8> = Vec::new();
    let mut i: usize = 0;
    assert(scopes_bytes(scopes@.subrange(0, 0)) =~= bytes@);
    while i < scopes.len()
        invariant
            i <= scopes@.len(),
            bytes@ == scopes_bytes(scopes@.subrange(0, i as int)),
        decreases scopes@.len() - i,
    {
        proof {
            let next = scopes@.subrange(0, i + 1);
            assert(next.drop_last() =~= scopes@.subrange(0, i as int));
            assert(next.last() == scopes@[i as int]);
        }
        push_bytes(&mut bytes, &scopes[i]);
        i += 1;
    }
    assert(scopes@.subrange(0, scopes@.len() as int) =~= scopes@);
    bytes
}

/// Splits a stored participant set back into scopes, refusing anything that is not a
/// whole number of them: a dropped tail would make a rollback look more agreed upon
/// than it was.
pub fn split_scopes<const N: usize>(bytes: &[u8]) -> (result: Result<
    Vec<[u8; N]>,
    TruncatedParticipantSet,
>)
    requires
        N > 0,
    ensures
        match result {
            Ok(scopes) => bytes@.len() == scopes@.len() * N && scopes_bytes(scopes@) == bytes@,
            Err(error) => bytes@.len() % (N as nat) != 0 && error == (TruncatedParticipantSet {
                bytes: bytes@.len() as usize,
                scope_bytes: N,
            }),
        },
{
    if bytes.len() % N != 0 {
        return Err(TruncatedParticipantSet { bytes: bytes.len(), scope_bytes: N });
    }
    let mut scopes: Vec<[u8; N]> = Vec::new();
    let mut at: usize = 0;
    proof {
        assert(bytes@.subrange(0, 0) =~= scopes_bytes(scopes@));
        assert(0 == 0 * (N as int)) by (nonlinear_arith);
    }
    while at < bytes.len()
        invariant
            N > 0,
            at <= bytes@.len(),
            bytes@.len() % (N as nat) == 0,
            at == scopes@.len() * N,
            scopes_bytes(scopes@) == bytes@.subrange(0, at as int),
        decreases bytes@.len() - at,
    {
        proof {
            lemma_whole_step(bytes@.len() as int, at as int, scopes@.len() as int, N as int);
        }
        let part = vstd::slice::slice_subrange(bytes, at, at + N);
        let ghost before = scopes@;
        scopes.push(array_from::<N>(part));
        proof {
            assert(scopes@.drop_last() =~= before);
            assert(scopes_bytes(scopes@) =~= bytes@.subrange(0, at + N));
            assert((before.len() + 1) * N == before.len() * N + N) by (nonlinear_arith);
        }
        at = at + N;
    }
    assert(bytes@.subrange(0, bytes@.len() as int) =~= bytes@);
    Ok(scopes)
}

/// A multiple of `n` below another multiple of `n` is at least `n` below it.
proof fn lemma_whole_step(len: int, at: int, count: int, n: int)
    requires
        n > 0,
        len % n == 0,
        at == count * n,
        at < len,
    ensures
        at + n <= len,
{
    let whole = len / n;
    assert(len == whole * n) by {
        vstd::arithmetic::div_mod::lemma_fundamental_div_mod(len, n);
        assert(n * whole == whole * n) by (nonlinear_arith);
    }
    assert(count < whole) by (nonlinear_arith)
        requires
            count * n < whole * n,
            n > 0,
    ;
    assert((count + 1) * n <= whole * n) by (nonlinear_arith)
        requires
            count + 1 <= whole,
            n > 0,
    ;
    assert((count + 1) * n == count * n + n) by (nonlinear_arith);
}

/// The scopes of a participant set are told by its bytes: two sets of scopes that
/// store the same bytes are the same set.
pub proof fn law_scopes_are_told_by_their_bytes<const N: usize>(a: Seq<[u8; N]>, b: Seq<[u8; N]>)
    requires
        N > 0,
        scopes_bytes(a) == scopes_bytes(b),
    ensures
        a == b,
    decreases a.len(),
{
    lemma_scopes_len::<N>(a);
    lemma_scopes_len::<N>(b);
    assert(a.len() == b.len()) by (nonlinear_arith)
        requires
            a.len() * N == b.len() * N,
            N > 0,
    ;
    if a.len() > 0 {
        let front_a = scopes_bytes(a.drop_last());
        let front_b = scopes_bytes(b.drop_last());
        lemma_scopes_len::<N>(a.drop_last());
        lemma_scopes_len::<N>(b.drop_last());
        let all = scopes_bytes(a);
        let n = front_a.len() as int;
        assert(all.subrange(0, n) =~= front_a);
        assert(all.subrange(0, n) =~= front_b);
        assert(all.subrange(n, all.len() as int) =~= a.last()@);
        assert(all.subrange(n, all.len() as int) =~= b.last()@);
        bytes::lemma_array_eq::<N>(a.last(), b.last());
        law_scopes_are_told_by_their_bytes::<N>(a.drop_last(), b.drop_last());
        assert(a =~= a.drop_last().push(a.last()));
        assert(b =~= b.drop_last().push(b.last()));
    } else {
        assert(a =~= b);
    }
}

proof fn lemma_scopes_len<const N: usize>(scopes: Seq<[u8; N]>)
    ensures
        scopes_bytes(scopes).len() == scopes.len() * N,
    decreases scopes.len(),
{
    if scopes.len() > 0 {
        lemma_scopes_len::<N>(scopes.drop_last());
        assert(scopes.len() * N == (scopes.len() - 1) * N + N) by (nonlinear_arith)
            requires
                scopes.len() > 0,
        ;
    } else {
        assert(scopes.len() * N == 0) by (nonlinear_arith)
            requires
                scopes.len() == 0,
        ;
    }
}

/// How a rollback ended, or that it has not.
#[derive(Clone, Copy, Debug, PartialEq, Eq, Structural)]
pub enum RollbackOutcome {
    Started,
    Completed { archived_rows: u64, deleted_rows: u64 },
    Aborted,
}

/// One rollback as it was requested. `outcome_code` is the number that stands for its
/// outcome.
#[derive(Clone, Debug, PartialEq, Eq)]
pub struct RollbackEvent<const N: usize> {
    pub chain_epoch: u64,
    pub previous_epoch: u64,
    pub head: u64,
    pub target: u64,
    pub plan_id: Vec<u8>,
    pub participant_scopes: Vec<[u8; N]>,
    pub outcome_code: i16,
    pub requested_at_us: i64,
}

/// The columns of an event as the store holds them.
#[derive(Clone, Debug, PartialEq, Eq)]
pub struct RollbackEventRow {
    pub chain_epoch: i64,
    pub previous_epoch: i64,
    pub head: i64,
    pub target: i64,
    pub plan_id: Vec<u8>,
    pub participants: Vec<u8>,
    pub outcome: i16,
    pub archived_rows: i64,
    pub deleted_rows: i64,
    pub requested_at_us: i64,
}

/// The row of a requested rollback. It has moved nothing yet.
pub fn requested_row<const N: usize>(event: &RollbackEvent<N>) -> (row: RollbackEventRow)
    ensures
        is_requested_row(*event, row),
{
    RollbackEventRow {
        chain_epoch: from_bits(event.chain_epoch),
        previous_epoch: from_bits(event.previous_epoch),
        head: from_bits(event.head),
        target: from_bits(event.target),
        plan_id: copy_bytes(&event.plan_id),
        participants: encode_scopes(event.participant_scopes.as_slice()),
        outcome: event.outcome_code,
        archived_rows: 0,
        deleted_rows: 0,
        requested_at_us: event.requested_at_us,
    }
}

/// The rows that an outcome reports as archived and as deleted.
pub fn outcome_counts(outcome: RollbackOutcome) -> (counts: (i64, i64))
    ensures
        outcome_counted(outcome, counts),
{
    match outcome {
        RollbackOutcome::Completed { archived_rows, deleted_rows } => (
            from_bits(archived_rows),
            from_bits(deleted_rows),
        ),
        _ => (0, 0),
    }
}

/// Reads an event and its counts back from its row.
pub fn stored_event<const N: usize>(row: &RollbackEventRow) -> (result: Result<
    (RollbackEvent<N>, u64, u64),
    TruncatedParticipantSet,
>)
    requires
        N > 0,
    ensures
        match result {
            Ok((event, archived_rows, deleted_rows)) => holds_event(
                *row,
                event,
                archived_rows,
                deleted_rows,
            ),
            Err(error) => row.participants@.len() % (N as nat) != 0 && error == (
            TruncatedParticipantSet { bytes: row.participants@.len() as usize, scope_bytes: N }),
        },
{
    let participant_scopes = split_scopes::<N>(row.participants.as_slice())?;
    Ok(
        (
            RollbackEvent {
                chain_epoch: to_bits(row.chain_epoch),
                previous_epoch: to_bits(row.previous_epoch),
                head: to_bits(row.head),
                target: to_bits(row.target),
                plan_id: copy_bytes(&row.plan_id),
                participant_scopes,
                outcome_code: row.outcome,
                requested_at_us: row.requested_at_us,
            },
            to_bits(row.archived_rows),
            to_bits(row.deleted_rows),
        ),
    )
}

/// A number survives the store's signed column.
#[verifier::spinoff_prover]
#[verifier::rlimit(40)]
pub proof fn law_unsigned_columns_round_trip(value: u64)
    ensures
        bytes::i64_bits(bytes::bits_i64(value)) == value,
{
}

/// The statements of the event store.
#[derive(Clone, Debug, PartialEq, Eq)]
pub struct RollbackEventQueries {
    pub create: String,
    pub insert: String,
    pub set_outcome: String,
    pub read_recent: String,
}

pub open spec fn event_table(keyspace: Seq<char>) -> Seq<char> {
    keyspace + "."@ + ROLLBACK_EVENT_TABLE@
}

impl RollbackEventQueries {
    /// Completing a rollback sets its outcome and its counts only, so that it cannot
    /// rewrite the range that was asked for.
    pub fn new(no_tablet_keyspace: &str) -> (queries: Self)
        ensures
            queries.create@ == "CREATE TABLE IF NOT EXISTS "@ + event_table(no_tablet_keyspace@)
                + " (\n                        network_chain_id BIGINT,\n                        chain_epoch BIGINT,\n                        previous_epoch BIGINT,\n                        head BIGINT,\n                        target BIGINT,\n                        plan_id BLOB,\n                        participants BLOB,\n                        outcome SMALLINT,\n                        archived_rows BIGINT,\n                        deleted_rows BIGINT,\n                        requested_at_us BIGINT,\n                        PRIMARY KEY ((network_chain_id), chain_epoch)\n                    ) WITH CLUSTERING ORDER BY (chain_epoch DESC)"@,
            queries.insert@ == "INSERT INTO "@ + event_table(no_tablet_keyspace@)
                + " (network_chain_id, chain_epoch, previous_epoch, head, target, plan_id, participants, outcome, archived_rows, deleted_rows, requested_at_us) VALUES (?, ?, ?, ?, ?, ?, ?, ?, ?, ?, ?)"@,
            queries.set_outcome@ == "UPDATE "@ + event_table(no_tablet_keyspace@)
                + " SET outcome = ?, archived_rows = ?, deleted_rows = ? WHERE network_chain_id = ? AND chain_epoch = ?"@,
            queries.read_recent@
                == "SELECT chain_epoch, previous_epoch, head, target, plan_id, participants, outcome, archived_rows, deleted_rows, requested_at_us FROM "@
                + event_table(no_tablet_keyspace@) + " WHERE network_chain_id = ? LIMIT ?"@,
    {
        let table: String = concat3(no_tablet_keyspace, ".", ROLLBACK_EVENT_TABLE);
        RollbackEventQueries {
            create: concat3(
                "CREATE TABLE IF NOT EXISTS ",
                table.as_str(),
                " (\n                        network_chain_id BIGINT,\n                        chain_epoch BIGINT,\n                        previous_epoch BIGINT,\n                        head BIGINT,\n                        target BIGINT,\n                        plan_id BLOB,\n                        participants BLOB,\n                        outcome SMALLINT,\n                        archived_rows BIGINT,\n                        deleted_rows BIGINT,\n                        requested_at_us BIGINT,\n                        PRIMARY KEY ((network_chain_id), chain_epoch)\n                    ) WITH CLUSTERING ORDER BY (chain_epoch DESC)",
            ),
            insert: concat3(
                "INSERT INTO ",
                table.as_str(),
                " (network_chain_id, chain_epoch, previous_epoch, head, target, plan_id, participants, outcome, archived_rows, deleted_rows, requested_at_us) VALUES (?, ?, ?, ?, ?, ?, ?, ?, ?, ?, ?)",
            ),
            set_outcome: concat3(
                "UPDATE ",
                table.as_str(),
                " SET outcome = ?, archived_rows = ?, deleted_rows = ? WHERE network_chain_id = ? AND chain_epoch = ?",
            ),
            read_recent: concat3(
                "SELECT chain_epoch, previous_epoch, head, target, plan_id, participants, outcome, archived_rows, deleted_rows, requested_at_us FROM ",
                table.as_str(),
                " WHERE network_chain_id = ? LIMIT ?",
            ),
        }
    }
}

/// The row of a requested rollback.
pub open spec fn is_requested_row<const N: usize>(event: RollbackEvent<N>, row: RollbackEventRow) -> bool {
    &&& row.chain_epoch == bytes::bits_i64(event.chain_epoch)
    &&& row.previous_epoch == bytes::bits_i64(event.previous_epoch)
    &&& row.head == bytes::bits_i64(event.head)
    &&& row.target == bytes::bits_i64(event.target)
    &&& row.plan_id@ == event.plan_id@
    &&& row.participants@ == scopes_bytes(event.participant_scopes@)
    &&& row.outcome == event.outcome_code
    &&& row.archived_rows == 0
    &&& row.deleted_rows == 0
    &&& row.requested_at_us == event.requested_at_us
}

/// A row holds an event and its counts.
pub open spec fn holds_event<const N: usize>(
    row: RollbackEventRow,
    event: RollbackEvent<N>,
    archived_rows: u64,
    deleted_rows: u64,
) -> bool {
    &&& event.chain_epoch == bytes::i64_bits(row.chain_epoch)
    &&& event.previous_epoch == bytes::i64_bits(row.previous_epoch)
    &&& event.head == bytes::i64_bits(row.head)
    &&& event.target == bytes::i64_bits(row.target)
    &&& event.plan_id@ == row.plan_id@
    &&& scopes_bytes(event.participant_scopes@) == row.participants@
    &&& event.outcome_code == row.outcome
    &&& event.requested_at_us == row.requested_at_us
    &&& archived_rows == bytes::i64_bits(row.archived_rows)
    &&& deleted_rows == bytes::i64_bits(row.deleted_rows)
}

/// What was requested reads back as it was, with nothing moved yet.
pub proof fn law_requested_event_reads_back<const N: usize>(
    event: RollbackEvent<N>,
    row: RollbackEventRow,
    stored: RollbackEvent<N>,
    archived_rows: u64,
    deleted_rows: u64,
)
    requires
        N > 0,
        is_requested_row(event, row),
        holds_event(row, stored, archived_rows, deleted_rows),
    ensures
        stored.chain_epoch == event.chain_epoch,
        stored.previous_epoch == event.previous_epoch,
        stored.head == event.head,
        stored.target == event.target,
        stored.plan_id@ == event.plan_id@,
        stored.participant_scopes@ == event.participant_scopes@,
        stored.outcome_code == event.outcome_code,
        stored.requested_at_us == event.requested_at_us,
        archived_rows == 0,
        deleted_rows == 0,
{
    law_unsigned_columns_round_trip(event.chain_epoch);
    law_unsigned_columns_round_trip(event.previous_epoch);
    law_unsigned_columns_round_trip(event.head);
    law_unsigned_columns_round_trip(event.target);
    law_scopes_are_told_by_their_bytes::<N>(stored.participant_scopes@, event.participant_scopes@);
}

/// Each column of a requested rollback holds what it is named for: small numbers stand in
/// their columns as they are.
pub proof fn law_requested_columns_hold_their_values<const N: usize>(
    event: RollbackEvent<N>,
    row: RollbackEventRow,
)
    requires
        is_requested_row(event, row),
        event.chain_epoch <= i64::MAX,
        event.previous_epoch <= i64::MAX,
        event.head <= i64::MAX,
        event.target <= i64::MAX,
    ensures
        row.chain_epoch == event.chain_epoch,
        row.previous_epoch == event.previous_epoch,
        row.head == event.head,
        row.target == event.target,
{
}

/// The concatenation of scopes holds each scope at its own place.
pub proof fn law_scopes_stand_in_order<const N: usize>(scopes: Seq<[u8; N]>, i: int)
    requires
        0 <= i < scopes.len(),
    ensures
        scopes_bytes(scopes).len() == scopes.len() * N,
        0 <= i * N <= i * N + N <= scopes.len() * N,
        scopes_bytes(scopes).subrange(i * N, i * N + N) == scopes[i]@,
    decreases scopes.len(),
{
    lemma_scopes_len::<N>(scopes);
    let front = scopes.drop_last();
    lemma_scopes_len::<N>(front);
    assert(0 <= i * N && i * N + N <= scopes.len() * N) by (nonlinear_arith)
        requires
            0 <= i < scopes.len(),
            N >= 0,
    ;
    if i < front.len() {
        law_scopes_stand_in_order::<N>(front, i);
        assert(scopes_bytes(scopes).subrange(i * N, i * N + N) =~= scopes_bytes(front).subrange(
            i * N,
            i * N + N,
        ));
    } else {
        assert(scopes_bytes(scopes).subrange(i * N, i * N + N) =~= scopes[i]@);
    }
}

/// The counts that an outcome reports.
pub open spec fn outcome_counted(outcome: RollbackOutcome, counts: (i64, i64)) -> bool {
    counts == (match outcome {
        RollbackOutcome::Completed { archived_rows, deleted_rows } => (
            bytes::bits_i64(archived_rows),
            bytes::bits_i64(deleted_rows),
        ),
        _ => (0i64, 0i64),
    })
}

/// Only a completed rollback reports rows: first those that it archived, then those that
/// it deleted.
pub proof fn law_only_completed_rollbacks_report_rows(outcome: RollbackOutcome, counts: (i64, i64))
    requires
        outcome_counted(outcome, counts),
    ensures
        match outcome {
            RollbackOutcome::Completed { archived_rows, deleted_rows } => bytes::i64_bits(counts.0)
                == archived_rows && bytes::i64_bits(counts.1) == deleted_rows,
            _ => counts.0 == 0 && counts.1 == 0,
        },
{
    if let RollbackOutcome::Completed { archived_rows, deleted_rows } = outcome {
        law_unsigned_columns_round_trip(archived_rows);
        law_unsigned_columns_round_trip(deleted_rows);
    }
}

} // verus!
