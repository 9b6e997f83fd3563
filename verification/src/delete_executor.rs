//! Deletes the discarded suffix behind a timestamp fence.
//!
//! A tombstone only hides cells whose write timestamp is below its own, so the fence
//! has to sit above every write that the discarded range made. It is computed from
//! what the archive observed, not from a clock: the archive holds each column's real
//! write time, so the maximum over it is evidence.

use vstd::prelude::*;

use crate::bytes;
use crate::bytes::{from_bits, read_be};
use crate::text::{append, concat3};

verus! {

/// One archived row.
#[derive(Clone, Debug, PartialEq, Eq)]
pub struct ArchivedRow {
    pub source_kind: u16,
    pub locator: Vec<u8>,
    pub checkpoint_id: u64,
    pub image: Option<Vec<u8>>,
    pub write_times: Vec<u8>,
}

#[derive(Clone, Debug, PartialEq, Eq)]
pub enum FenceError {
    /// The node's timestamps do not admit the latest write or the fence behind it.
    Refused(String),
    /// The fence would not sit above the latest observed write.
    NotAboveWrites,
    /// The fence would be later than any timestamp can be.
    OutOfRange,
}

/// The write times in the next `count` entries of `encoded` from `at` on. An entry is
/// a byte, and behind a one the time in eight bytes. What is cut off is left out.
pub open spec fn times_from(encoded: Seq<u8>, at: int, count: nat) -> Seq<i64>
    decreases count,
{
    if count == 0 || at >= encoded.len() {
        Seq::empty()
    } else if encoded[at] == 1 {
        if at + 9 > encoded.len() {
            Seq::empty()
        } else {
            seq![bytes::i64_at(encoded, at + 1)] + times_from(encoded, at + 9, (count - 1) as nat)
        }
    } else {
        times_from(encoded, at + 1, (count - 1) as nat)
    }
}

/// The write times that an archived row observed.
pub open spec fn write_times_of(encoded: Seq<u8>) -> Seq<i64> {
    if encoded.len() == 0 {
        Seq::empty()
    } else {
        times_from(encoded, 1, encoded[0] as nat)
    }
}

/// Reads back the per-column timestamps that the archive stored.
pub fn decode_write_times(encoded: &[u8]) -> (times: Vec<i64>)
    ensures
        times@ == write_times_of(encoded@),
{
    let mut times: Vec<i64> = Vec::new();
    if encoded.len() == 0 {
        assert(times@ =~= write_times_of(encoded@));
        return times;
    }
    let count: usize = encoded[0] as usize;
    let mut at: usize = 1;
    let mut left: usize = count;
    assert(times@ + times_from(encoded@, 1, count as nat) =~= times_from(
        encoded@,
        1,
        count as nat,
    ));
    while left > 0 && at < encoded.len()
        invariant
            at <= encoded@.len(),
            left <= count,
            encoded@.len() > 0,
            write_times_of(encoded@) == times@ + times_from(encoded@, at as int, left as nat),
        decreases left,
    {
        let ghost before = times@;
        if encoded[at] == 1 {
            if encoded.len() - at < 9 {
                assert(times@ + Seq::<i64>::empty() =~= times@);
                return times;
            }
            let time: i64 = from_bits(read_be(encoded, at + 1, 8));
            times.push(time);
            proof {
                bytes::lemma_be_value_bound(encoded@.subrange(at + 1, at + 9));
                bytes::lemma_pow256_small();
                assert(time == bytes::i64_at(encoded@, at + 1));
                assert(before + times_from(encoded@, at as int, left as nat) =~= times@
                    + times_from(encoded@, at + 9, (left - 1) as nat));
            }
            at = at + 9;
        } else {
            at = at + 1;
        }
        left = left - 1;
    }
    assert(times@ + Seq::<i64>::empty() =~= times@);
    times
}

/// One entry of the encoding: a zero, or a one and the time.
pub open spec fn time_entry(time: Option<i64>) -> Seq<u8> {
    match time {
        Some(time) => seq![1u8] + bytes::be_i64(time),
        None => seq![0u8],
    }
}

pub open spec fn time_entries(times: Seq<Option<i64>>) -> Seq<u8>
    decreases times.len(),
{
    if times.len() == 0 {
        Seq::empty()
    } else {
        time_entry(times[0]) + time_entries(times.drop_first())
    }
}

/// The write times of the columns of a row, as the archive stores them: how many columns
/// there are, then an entry for each.
pub open spec fn encoded_times(times: Seq<Option<i64>>) -> Seq<u8> {
    seq![times.len() as u8] + time_entries(times)
}

/// The times that are there, in their order.
pub open spec fn present_times(times: Seq<Option<i64>>) -> Seq<i64>
    decreases times.len(),
{
    if times.len() == 0 {
        Seq::empty()
    } else {
        (match times[0] {
            Some(time) => seq![time],
            None => Seq::empty(),
        }) + present_times(times.drop_first())
    }
}

/// Whole entries are read one after the other.
proof fn lemma_entries_read(encoded: Seq<u8>, at: int, times: Seq<Option<i64>>, count: nat)
    requires
        0 <= at,
        times.len() <= count,
        at + time_entries(times).len() <= encoded.len(),
        encoded.subrange(at, at + time_entries(times).len()) == time_entries(times),
    ensures
        times_from(encoded, at, count) == present_times(times) + times_from(
            encoded,
            at + time_entries(times).len(),
            (count - times.len()) as nat,
        ),
    decreases times.len(),
{
    bytes::lemma_be_lens();
    if times.len() == 0 {
        assert(present_times(times) + times_from(encoded, at, count) =~= times_from(
            encoded,
            at,
            count,
        ));
    } else {
        let rest = times.drop_first();
        let entry = time_entry(times[0]);
        let all = time_entries(times);
        let next = at + entry.len();
        let part = encoded.subrange(at, at + all.len());
        assert(encoded[at] == part[0]);
        assert(encoded.subrange(next, next + time_entries(rest).len()) =~= time_entries(rest)) by {
            assert(part.subrange(entry.len() as int, all.len() as int) =~= time_entries(rest));
            assert(encoded.subrange(next, next + time_entries(rest).len()) =~= part.subrange(
                entry.len() as int,
                all.len() as int,
            ));
        }
        lemma_entries_read(encoded, next, rest, (count - 1) as nat);
        let behind = times_from(
            encoded,
            at + all.len(),
            (count - times.len()) as nat,
        );
        if let Some(time) = times[0] {
            assert(encoded.subrange(at + 1, at + 9) =~= part.subrange(1, 9));
            assert(part.subrange(1, 9) =~= bytes::be_i64(time));
            bytes::lemma_write_then_read(encoded, at + 1);
            assert(seq![time] + (present_times(rest) + behind) =~= (seq![time] + present_times(
                rest,
            )) + behind);
        } else {
            assert(Seq::<i64>::empty() + present_times(rest) =~= present_times(rest));
        }
    }
}

proof fn lemma_entries_split(times: Seq<Option<i64>>, k: int)
    requires
        0 <= k <= times.len(),
    ensures
        time_entries(times) == time_entries(times.take(k)) + time_entries(times.skip(k)),
    decreases k,
{
    if k == 0 {
        assert(times.skip(0) =~= times);
        assert(times.take(0) =~= Seq::empty());
        assert(Seq::<u8>::empty() + time_entries(times) =~= time_entries(times));
    } else {
        let rest = times.drop_first();
        lemma_entries_split(rest, k - 1);
        assert(times.take(k).drop_first() =~= rest.take(k - 1));
        assert(times.skip(k) =~= rest.skip(k - 1));
        assert(time_entry(times[0]) + (time_entries(rest.take(k - 1)) + time_entries(
            rest.skip(k - 1),
        )) =~= (time_entry(times[0]) + time_entries(rest.take(k - 1))) + time_entries(
            rest.skip(k - 1),
        ));
    }
}

/// The times that the archive stored read back: those that are there, in their order.
pub proof fn law_write_times_read_back(times: Seq<Option<i64>>)
    requires
        times.len() <= u8::MAX,
    ensures
        write_times_of(encoded_times(times)) == present_times(times),
{
    let encoded = encoded_times(times);
    assert(encoded.subrange(1, encoded.len() as int) =~= time_entries(times));
    lemma_entries_read(encoded, 1, times, times.len());
    assert(present_times(times) + Seq::<i64>::empty() =~= present_times(times));
}

/// An encoding that was cut off gives the times of the entries that are whole, and
/// nothing of the one that is not.
pub proof fn law_cut_off_write_times_keep_whole_entries(times: Seq<Option<i64>>, k: int, cut: int)
    requires
        times.len() <= u8::MAX,
        0 <= k < times.len(),
        1 + time_entries(times.take(k)).len() <= cut < 1 + time_entries(times.take(k + 1)).len(),
    ensures
        write_times_of(encoded_times(times).take(cut)) == present_times(times.take(k)),
{
    bytes::lemma_be_lens();
    let encoded = encoded_times(times);
    let front = times.take(k);
    let len = time_entries(front).len() as int;
    let shorter = encoded.take(cut);
    let longer = times.take(k + 1);
    lemma_entries_split(times, k);
    lemma_entries_split(longer, k);
    assert(longer.take(k) =~= front);
    assert(longer.skip(k) =~= seq![times[k]]);
    assert(times.skip(k)[0] == times[k]);
    let one = seq![times[k]];
    assert(one.drop_first() =~= Seq::empty());
    reveal_with_fuel(time_entries, 2);
    assert(time_entries(one) =~= time_entry(times[k]));
    lemma_entries_split(times, k + 1);
    assert(encoded[0] == times.len());
    assert(shorter.subrange(1, 1 + len) =~= time_entries(front)) by {
        assert(encoded.subrange(1, 1 + len) =~= time_entries(front));
        assert(shorter.subrange(1, 1 + len) =~= encoded.subrange(1, 1 + len));
    }
    lemma_entries_read(shorter, 1, front, times.len());
    let left = (times.len() - k) as nat;
    let at = 1 + len;
    if at < cut {
        let behind = time_entries(times.skip(k));
        assert(behind[0] == time_entry(times[k])[0]);
        assert(encoded[at] == behind[0]);
        assert(times[k] is Some);
    }
    assert(times_from(shorter, at, left) =~= Seq::empty());
    assert(present_times(front) + Seq::<i64>::empty() =~= present_times(front));
}

/// `time` was observed by some row.
pub open spec fn observed(rows: Seq<ArchivedRow>, time: i64) -> bool {
    exists|i: int|
        0 <= i < rows.len() && #[trigger] write_times_of(rows[i].write_times@).contains(time)
}

/// `max` is the latest observed write, or nothing was observed.
pub open spec fn is_latest(rows: Seq<ArchivedRow>, max: Option<i64>) -> bool {
    match max {
        None => forall|time: i64| !#[trigger] observed(rows, time),
        Some(max) => observed(rows, max) && forall|time: i64| #[trigger]
            observed(rows, time) ==> time <= max,
    }
}

/// The latest write that any archived row observed.
pub fn latest_write(archived: &[ArchivedRow]) -> (max: Option<i64>)
    ensures
        is_latest(archived@, max),
{
    let mut max: Option<i64> = None;
    let mut i: usize = 0;
    while i < archived.len()
        invariant
            i <= archived@.len(),
            is_latest(archived@.subrange(0, i as int), max),
        decreases archived@.len() - i,
    {
        let times = decode_write_times(archived[i].write_times.as_slice());
        let ghost so_far = archived@.subrange(0, i as int);
        let ghost next = archived@.subrange(0, i + 1);
        let ghost before = max;
        let mut k: usize = 0;
        while k < times.len()
            invariant
                k <= times@.len(),
                is_latest(so_far, before),
                match max {
                    None => before is None && k == 0,
                    Some(seen) => (before == Some(seen) || times@.subrange(0, k as int).contains(
                        seen,
                    )) && (before matches Some(earlier) ==> earlier <= seen) && forall|j: int|
                        0 <= j < k ==> times@[j] <= seen,
                },
            decreases times@.len() - k,
        {
            let time: i64 = times[k];
            let ghost part = times@.subrange(0, k as int);
            let ghost longer = times@.subrange(0, k + 1);
            let ghost earlier = max;
            max = match max {
                None => Some(time),
                Some(seen) => if time > seen {
                    Some(time)
                } else {
                    Some(seen)
                },
            };
            proof {
                assert(longer[k as int] == time);
                assert(longer.contains(time));
                if let Some(seen) = earlier {
                    if part.contains(seen) {
                        let j = choose|j: int| 0 <= j < part.len() && part[j] == seen;
                        assert(longer[j] == seen);
                        assert(longer.contains(seen));
                    }
                }
            }
            k += 1;
        }
        proof {
            assert(times@.subrange(0, times@.len() as int) =~= times@);
            assert(next.len() == so_far.len() + 1);
            assert(next[i as int] == archived@[i as int]);
            assert(write_times_of(next[i as int].write_times@) == times@);
            assert forall|time: i64| #[trigger] observed(next, time) implies observed(so_far, time)
                || times@.contains(time) by {
                let r = choose|r: int|
                    0 <= r < next.len() && #[trigger] write_times_of(
                        next[r].write_times@,
                    ).contains(time);
                if r < so_far.len() {
                    assert(so_far[r] == next[r]);
                    assert(write_times_of(so_far[r].write_times@).contains(time));
                }
            }
            assert forall|time: i64| #[trigger] observed(so_far, time) implies observed(
                next,
                time,
            ) by {
                let r = choose|r: int|
                    0 <= r < so_far.len() && #[trigger] write_times_of(
                        so_far[r].write_times@,
                    ).contains(time);
                assert(next[r] == so_far[r]);
                assert(write_times_of(next[r].write_times@).contains(time));
            }
            if let Some(seen) = max {
                if times@.contains(seen) {
                    assert(write_times_of(next[i as int].write_times@).contains(seen));
                    assert(observed(next, seen));
                }
                assert forall|time: i64| #[trigger] observed(next, time) implies time <= seen by {
                    if times@.contains(time) {
                        let j = choose|j: int| 0 <= j < times@.len() && times@[j] == time;
                        assert(times@[j] <= seen);
                    }
                }
            } else {
                assert forall|time: i64| !#[trigger] observed(next, time) by {
                    if observed(next, time) {
                        assert(times@.contains(time) || observed(so_far, time));
                    }
                }
            }
        }
        i += 1;
    }
    assert(archived@.subrange(0, archived@.len() as int) =~= archived@);
    max
}

/// The fence for one rollback, derived from what the archive observed: the latest
/// write and the gap behind it. `admitted` is whether the node's timestamps admit the
/// latest write as that of a commit and the fence behind it.
///
/// `None` where the archive holds no timestamp at all. A caller must not invent one
/// then: a fence below a real write silently fails to delete it.
pub fn fence_from_archive(
    archived: &[ArchivedRow],
    fence_gap_us: i64,
    admitted: Result<(), String>,
) -> (result: Result<Option<i64>, FenceError>)
    ensures
        fence_derived(archived@, fence_gap_us, admitted, result),
{
    match latest_write(archived) {
        None => Ok(None),
        Some(max) => {
            assert(is_latest(archived@, Some(max)));
            if let Err(refused) = admitted {
                return Err(FenceError::Refused(refused));
            }
            if fence_gap_us <= 0 {
                return Err(FenceError::NotAboveWrites);
            }
            match max.checked_add(fence_gap_us) {
                None => Err(FenceError::OutOfRange),
                Some(fence) => Ok(Some(fence)),
            }
        },
    }
}

/// A fence hides every write that the archive observed.
pub proof fn law_fence_clears_every_observed_write(
    archived: Seq<ArchivedRow>,
    max: i64,
    fence: i64,
    time: i64,
)
    requires
        is_latest(archived, Some(max)),
        fence > max,
        observed(archived, time),
    ensures
        time < fence,
{
}

/// There is at most one latest write.
pub proof fn law_latest_write_is_unique(archived: Seq<ArchivedRow>, a: Option<i64>, b: Option<i64>)
    requires
        is_latest(archived, a),
        is_latest(archived, b),
    ensures
        a == b,
{
}

/// The key columns of a row, each compared with a bound value.
pub open spec fn predicate(columns: Seq<Seq<char>>) -> Seq<char>
    decreases columns.len(),
{
    if columns.len() == 0 {
        Seq::empty()
    } else if columns.len() == 1 {
        columns[0] + " = ?"@
    } else {
        predicate(columns.drop_last()) + " AND "@ + (columns.last() + " = ?"@)
    }
}

pub open spec fn texts(columns: Seq<String>) -> Seq<Seq<char>> {
    Seq::new(columns.len(), |i: int| columns[i]@)
}

/// The deletion of one row at a bound timestamp. The fence is bound, and bound first:
/// it stands before the key in the statement.
pub open spec fn delete_statement(
    keyspace: Seq<char>,
    table: Seq<char>,
    columns: Seq<Seq<char>>,
) -> Seq<char> {
    "DELETE FROM "@ + keyspace + "."@ + table + " USING TIMESTAMP ? WHERE "@ + predicate(columns)
}

pub fn delete_query(keyspace: &str, table: &str, key_columns: &[String]) -> (query: String)
    ensures
        query@ == delete_statement(keyspace@, table@, texts(key_columns@)),
{
    let mut query: String = concat3("DELETE FROM ", keyspace, ".");
    append(&mut query, table);
    append(&mut query, " USING TIMESTAMP ? WHERE ");
    let ghost front = query@;
    let ghost all = texts(key_columns@);
    let mut i: usize = 0;
    assert(front + predicate(all.subrange(0, 0)) =~= front);
    while i < key_columns.len()
        invariant
            i <= key_columns@.len(),
            all == texts(key_columns@),
            query@ == front + predicate(all.subrange(0, i as int)),
        decreases key_columns@.len() - i,
    {
        let ghost at = query@;
        let ghost next = all.subrange(0, i + 1);
        proof {
            assert(next.drop_last() =~= all.subrange(0, i as int));
            assert(next.last() == key_columns@[i as int]@);
        }
        if i > 0 {
            append(&mut query, " AND ");
        }
        append(&mut query, key_columns[i].as_str());
        append(&mut query, " = ?");
        proof {
            if i == 0 {
                assert(next[0] == key_columns@[0]@);
                assert(query@ =~= front + predicate(next));
            } else {
                assert(query@ =~= front + predicate(next));
            }
        }
        i += 1;
    }
    assert(all.subrange(0, all.len() as int) =~= all);
    query
}

/// A deletion names its table and binds the fence before anything else, then compares
/// every key column, in order, with a value of its own.
pub proof fn law_deletion_binds_the_fence_first(
    keyspace: Seq<char>,
    table: Seq<char>,
    columns: Seq<Seq<char>>,
    column: Seq<char>,
)
    ensures
        delete_statement(keyspace, table, seq![column]) == "DELETE FROM "@ + keyspace + "."@ + table
            + " USING TIMESTAMP ? WHERE "@ + (column + " = ?"@),
        columns.len() > 0 ==> delete_statement(keyspace, table, columns.push(column))
            == delete_statement(keyspace, table, columns) + " AND "@ + column + " = ?"@,
{
    assert(columns.push(column).drop_last() =~= columns);
    if columns.len() > 0 {
        assert(delete_statement(keyspace, table, columns.push(column)) =~= delete_statement(
            keyspace,
            table,
            columns,
        ) + " AND "@ + column + " = ?"@);
    }
}

/// The latest write is one that some row observed and that no observed write is later
/// than; there is none exactly if no row observed a write.
pub proof fn law_latest_write_is_the_maximum(archived: Seq<ArchivedRow>, max: Option<i64>, i: int, k: int)
    requires
        is_latest(archived, max),
        0 <= i < archived.len(),
        0 <= k < write_times_of(archived[i].write_times@).len(),
    ensures
        max is Some,
        write_times_of(archived[i].write_times@)[k] <= max->0,
        exists|j: int|
            0 <= j < archived.len() && #[trigger] write_times_of(
                archived[j].write_times@,
            ).contains(max->0),
{
    let time = write_times_of(archived[i].write_times@)[k];
    assert(write_times_of(archived[i].write_times@).contains(time));
    assert(observed(archived, time));
}

/// How the write times of a row are written: their number, then each as a zero, or as a
/// one and the time.
pub proof fn law_write_times_layout(times: Seq<Option<i64>>)
    requires
        times.len() <= u8::MAX,
    ensures
        encoded_times(times)[0] == times.len(),
        times.len() > 0 && times[0] is None ==> encoded_times(times)[1] == 0
            && encoded_times(times).skip(2) == encoded_times(times.drop_first()).skip(1),
        times.len() > 0 && times[0] is Some ==> encoded_times(times)[1] == 1 && bytes::i64_at(
            encoded_times(times),
            2,
        ) == times[0]->0 && encoded_times(times).skip(10) == encoded_times(
            times.drop_first(),
        ).skip(1),
{
    bytes::lemma_be_lens();
    if times.len() > 0 {
        let all = encoded_times(times);
        let rest = encoded_times(times.drop_first());
        if times[0] is None {
            assert(all.skip(2) =~= rest.skip(1));
        } else {
            assert(all.subrange(2, 10) =~= bytes::be_i64(times[0]->0));
            bytes::lemma_write_then_read(all, 2);
            assert(all.skip(10) =~= rest.skip(1));
        }
    }
}

/// What fence an archive gives.
pub open spec fn fence_derived(
    archived: Seq<ArchivedRow>,
    fence_gap_us: i64,
    admitted: Result<(), String>,
    result: Result<Option<i64>, FenceError>,
) -> bool {
    match result {
        Ok(None) => is_latest(archived, None),
        Ok(Some(fence)) => admitted is Ok && exists|max: i64|
            is_latest(archived, Some(max)) && fence == max + fence_gap_us && fence > max,
        Err(FenceError::Refused(refused)) => admitted == Err::<(), String>(refused) && exists|max: i64| #[trigger]
            is_latest(archived, Some(max)),
        Err(FenceError::NotAboveWrites) => admitted is Ok && exists|max: i64| #[trigger]
            is_latest(archived, Some(max)) && fence_gap_us <= 0,
        Err(FenceError::OutOfRange) => admitted is Ok && exists|max: i64| #[trigger]
            is_latest(archived, Some(max)) && fence_gap_us > 0 && max + fence_gap_us > i64::MAX,
    }
}

/// A fence is later than every write that any archived row observed, by exactly the gap
/// behind the latest of them. There is none exactly if nothing was observed, and none is
/// made up where the latest write is not admitted, the gap is not positive, or the fence
/// cannot be written.
pub proof fn law_fence_is_behind_every_write(
    archived: Seq<ArchivedRow>,
    fence_gap_us: i64,
    admitted: Result<(), String>,
    result: Result<Option<i64>, FenceError>,
    latest: Option<i64>,
)
    requires
        fence_derived(archived, fence_gap_us, admitted, result),
        is_latest(archived, latest),
    ensures
        result == Ok::<Option<i64>, FenceError>(None) <==> latest is None,
        result matches Ok(Some(fence)) ==> {
            &&& latest is Some
            &&& fence == latest->0 + fence_gap_us
            &&& forall|time: i64| #[trigger] observed(archived, time) ==> time < fence
            &&& admitted is Ok
            &&& fence_gap_us > 0
        },
        latest is Some && admitted is Ok && fence_gap_us > 0 && latest->0 + fence_gap_us <= i64::MAX
            ==> result is Ok,
        latest is Some && admitted is Err ==> result == Err::<Option<i64>, _>(
            FenceError::Refused(admitted->Err_0),
        ),
        latest is Some && admitted is Ok && fence_gap_us <= 0 ==> result is Err && result->Err_0
            is NotAboveWrites,
{
    assert forall|other: Option<i64>| #[trigger] is_latest(archived, other) implies other
        == latest by {
        law_latest_write_is_unique(archived, other, latest);
    }
    if let Ok(Some(fence)) = result {
        let max = choose|max: i64|
            is_latest(archived, Some(max)) && fence == max + fence_gap_us && fence > max;
        law_latest_write_is_unique(archived, Some(max), latest);
    }
}

} // verus!
