//! The paste table as a mathematical value, a sequence of rows in the order
//! of an ascending read by creation date, and what each statement does to it.

use crate::record::{date_le, RecordView, ResponseView, Timestamp};
use vstd::prelude::*;

verus! {

/// The rows stand in ascending order of creation date.
pub open spec fn ascending(t: Seq<RecordView>) -> bool {
    forall|i: int, j: int|
        0 <= i < j < t.len() ==> date_le(
            (#[trigger] t[i]).creation_date,
            (#[trigger] t[j]).creation_date,
        )
}

/// Every row's id lies in `1..next`, and no two rows share one.
pub open spec fn ids_assigned(t: Seq<RecordView>, next: int) -> bool {
    &&& 0 < next
    &&& forall|i: int| 0 <= i < t.len() ==> 0 < (#[trigger] t[i]).id < next
    &&& forall|i: int, j: int|
        0 <= i < j < t.len() ==> (#[trigger] t[i]).id != (#[trigger] t[j]).id
}

/// Where a row created at `now` goes: behind the last row that is not later
/// than it, so that rows of one instant keep the order of their arrival.
pub open spec fn slot(t: Seq<RecordView>, now: Timestamp) -> int
    decreases t.len(),
{
    if t.len() == 0 {
        0
    } else if date_le(t.last().creation_date, Some(now)) {
        t.len() as int
    } else {
        slot(t.drop_last(), now)
    }
}

/// The table after a create statement.
pub open spec fn with_row(t: Seq<RecordView>, row: RecordView, now: Timestamp) -> Seq<RecordView> {
    t.insert(slot(t, now), row)
}

/// The index of the first row from `k` on that has the hash, or the table's
/// length where none has.
pub open spec fn first_from(t: Seq<RecordView>, hash: Seq<char>, k: int) -> int
    decreases t.len() - k,
{
    if k < 0 || k >= t.len() {
        t.len() as int
    } else if t[k].hash == hash {
        k
    } else {
        first_from(t, hash, k + 1)
    }
}

/// The row that a read by hash returns: the first with that hash, if any.
pub open spec fn lookup(t: Seq<RecordView>, hash: Seq<char>) -> Option<RecordView> {
    let i = first_from(t, hash, 0);
    if i < t.len() {
        Some(t[i])
    } else {
        None
    }
}

/// Some row has the hash.
pub open spec fn has_hash(t: Seq<RecordView>, hash: Seq<char>) -> bool {
    exists|i: int| 0 <= i < t.len() && (#[trigger] t[i]).hash == hash
}

/// The number of rows that have the hash.
pub open spec fn match_count(t: Seq<RecordView>, hash: Seq<char>) -> nat
    decreases t.len(),
{
    if t.len() == 0 {
        0
    } else {
        match_count(t.drop_last(), hash) + if t.last().hash == hash {
            1nat
        } else {
            0nat
        }
    }
}

/// Some row with the hash has a click count that cannot grow.
pub open spec fn saturated(t: Seq<RecordView>, hash: Seq<char>) -> bool {
    exists|i: int|
        0 <= i < t.len() && (#[trigger] t[i]).hash == hash && t[i].click_count >= i32::MAX
}

/// The table after a click on the hash: every row that has it counts one more.
pub open spec fn clicked(t: Seq<RecordView>, hash: Seq<char>) -> Seq<RecordView> {
    Seq::new(
        t.len(),
        |i: int|
            if t[i].hash == hash {
                t[i].clicked()
            } else {
                t[i]
            },
    )
}

/// The table after a read by hash: where a row has the hash and every such
/// row can count further, each of them counts one more; else nothing changes.
pub open spec fn after_read(t: Seq<RecordView>, hash: Seq<char>) -> Seq<RecordView> {
    if lookup(t, hash) is Some && !saturated(t, hash) {
        clicked(t, hash)
    } else {
        t
    }
}

/// The table after `n` reads by the hash, one after the other.
pub open spec fn after_reads(t: Seq<RecordView>, hash: Seq<char>, n: nat) -> Seq<RecordView>
    decreases n,
{
    if n == 0 {
        t
    } else {
        after_read(after_reads(t, hash, (n - 1) as nat), hash)
    }
}

/// The table with `n` more clicks on every row that has the hash.
pub open spec fn clicked_by(t: Seq<RecordView>, hash: Seq<char>, n: nat) -> Seq<RecordView> {
    Seq::new(
        t.len(),
        |i: int|
            if t[i].hash == hash {
                RecordView { click_count: t[i].click_count + n, ..t[i] }
            } else {
                t[i]
            },
    )
}

/// Every row with the hash can count `n` more clicks.
pub open spec fn room_for(t: Seq<RecordView>, hash: Seq<char>, n: nat) -> bool {
    forall|i: int|
        0 <= i < t.len() && (#[trigger] t[i]).hash == hash ==> t[i].click_count + n <= i32::MAX
}

/// What a listing shows of the table: a summary of each row, in the table's order.
pub open spec fn summaries(t: Seq<RecordView>) -> Seq<ResponseView> {
    Seq::new(t.len(), |i: int| t[i].summary())
}

/// In an ascending table the slot parts the rows: those before it are not
/// later than `now`, those from it on are later or undated.
pub proof fn lemma_slot(t: Seq<RecordView>, now: Timestamp)
    requires
        ascending(t),
    ensures
        0 <= slot(t, now) <= t.len(),
        forall|i: int| 0 <= i < slot(t, now) ==> date_le((#[trigger] t[i]).creation_date, Some(now)),
        forall|i: int|
            slot(t, now) <= i < t.len() ==> !date_le((#[trigger] t[i]).creation_date, Some(now)),
    decreases t.len(),
{
    if t.len() == 0 {
    } else if date_le(t.last().creation_date, Some(now)) {
        assert forall|i: int| 0 <= i < t.len() implies date_le(
            (#[trigger] t[i]).creation_date,
            Some(now),
        ) by {
            if i < t.len() - 1 {
                assert(date_le(t[i].creation_date, t[t.len() - 1].creation_date));
            }
        }
    } else {
        let u = t.drop_last();
        assert forall|i: int, j: int| 0 <= i < j < u.len() implies date_le(
            (#[trigger] u[i]).creation_date,
            (#[trigger] u[j]).creation_date,
        ) by {
            assert(u[i] == t[i] && u[j] == t[j]);
        }
        lemma_slot(u, now);
        assert forall|i: int| 0 <= i < slot(t, now) implies date_le(
            (#[trigger] t[i]).creation_date,
            Some(now),
        ) by {
            assert(u[i] == t[i]);
        }
        assert forall|i: int| slot(t, now) <= i < t.len() implies !date_le(
            (#[trigger] t[i]).creation_date,
            Some(now),
        ) by {
            if i < u.len() {
                assert(u[i] == t[i]);
            }
        }
    }
}

/// A create statement keeps the table ascending.
pub proof fn lemma_with_row_ascending(t: Seq<RecordView>, row: RecordView, now: Timestamp)
    requires
        ascending(t),
        row.creation_date == Some(now),
    ensures
        ascending(with_row(t, row, now)),
{
    lemma_slot(t, now);
    let p = slot(t, now);
    let u = with_row(t, row, now);
    assert forall|i: int, j: int| 0 <= i < j < u.len() implies date_le(
        (#[trigger] u[i]).creation_date,
        (#[trigger] u[j]).creation_date,
    ) by {
        if j < p {
            assert(u[i] == t[i] && u[j] == t[j]);
        } else if j == p {
            assert(u[i] == t[i] && u[j] == row);
        } else if i < p {
            assert(u[i] == t[i] && u[j] == t[j - 1]);
            assert(date_le(t[i].creation_date, Some(now)));
            assert(!date_le(t[j - 1].creation_date, Some(now)));
        } else if i == p {
            assert(u[i] == row && u[j] == t[j - 1]);
            assert(!date_le(t[j - 1].creation_date, Some(now)));
        } else {
            assert(u[i] == t[i - 1] && u[j] == t[j - 1]);
        }
    }
}

/// What `first_from` finds: the row at its result has the hash, and no row
/// between `k` and it has.
pub proof fn lemma_first_from(t: Seq<RecordView>, hash: Seq<char>, k: int)
    requires
        0 <= k <= t.len(),
    ensures
        k <= first_from(t, hash, k) <= t.len(),
        first_from(t, hash, k) < t.len() ==> t[first_from(t, hash, k)].hash == hash,
        forall|j: int| k <= j < first_from(t, hash, k) ==> (#[trigger] t[j]).hash != hash,
    decreases t.len() - k,
{
    if k < t.len() && t[k].hash != hash {
        lemma_first_from(t, hash, k + 1);
    }
}

} // verus!
