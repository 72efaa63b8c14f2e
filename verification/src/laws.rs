//! What holds of the service across its operations.

use crate::record::{date_le, RecordView, Timestamp};
use crate::table::{
    after_read, after_reads, ascending, clicked, clicked_by, first_from, has_hash,
    lemma_first_from, lemma_slot, lookup, room_for, saturated, slot, summaries, with_row,
};
use vstd::prelude::*;

verus! {

/// A listing of an ascending table is in ascending order of creation date.
pub proof fn lemma_listing_ascending(t: Seq<RecordView>)
    requires
        ascending(t),
    ensures
        forall|i: int, j: int|
            0 <= i < j < summaries(t).len() ==> date_le(
                (#[trigger] summaries(t)[i]).creation_date,
                (#[trigger] summaries(t)[j]).creation_date,
            ),
{
    assert forall|i: int, j: int| 0 <= i < j < summaries(t).len() implies date_le(
        (#[trigger] summaries(t)[i]).creation_date,
        (#[trigger] summaries(t)[j]).creation_date,
    ) by {
        assert(date_le(t[i].creation_date, t[j].creation_date));
    }
}

/// Of two listed pastes, the one that was created strictly earlier stands first.
pub proof fn lemma_earlier_is_listed_first(t: Seq<RecordView>, i: int, j: int)
    requires
        ascending(t),
        0 <= i < t.len(),
        0 <= j < t.len(),
        t[i].creation_date is Some,
        t[j].creation_date is Some,
        t[i].creation_date->0.at_or_before(t[j].creation_date->0),
        t[i].creation_date != t[j].creation_date,
    ensures
        i < j,
        summaries(t)[i].creation_date == t[i].creation_date,
        summaries(t)[j].creation_date == t[j].creation_date,
{
    if j < i {
        assert(date_le(t[j].creation_date, t[i].creation_date));
    }
}

/// A paste created no earlier than every paste in the table is listed last.
pub proof fn lemma_latest_is_listed_last(t: Seq<RecordView>, row: RecordView, now: Timestamp)
    requires
        ascending(t),
        forall|i: int| 0 <= i < t.len() ==> date_le((#[trigger] t[i]).creation_date, Some(now)),
    ensures
        with_row(t, row, now) == t.push(row),
        summaries(with_row(t, row, now)) == summaries(t).push(row.summary()),
{
    lemma_slot(t, now);
    if slot(t, now) < t.len() {
        assert(!date_le(t[slot(t, now)].creation_date, Some(now)));
    }
    assert(with_row(t, row, now) =~= t.push(row));
    assert(summaries(t.push(row)) =~= summaries(t).push(row.summary()));
}

/// A paste that was just created is in the listing, with its hash, its
/// title, its creation date and no click, and without its body.
pub proof fn lemma_created_is_listed(t: Seq<RecordView>, row: RecordView, now: Timestamp)
    requires
        ascending(t),
        row.click_count == 0,
    ensures
        0 <= slot(t, now) < summaries(with_row(t, row, now)).len(),
        summaries(with_row(t, row, now))[slot(t, now)] == row.summary(),
        row.summary().hash == row.hash,
        row.summary().title == row.title,
        row.summary().click_count == 0,
{
    lemma_slot(t, now);
}

/// A read by hash finds nothing exactly when no row has the hash.
pub proof fn lemma_lookup_none_iff_absent(t: Seq<RecordView>, hash: Seq<char>)
    ensures
        lookup(t, hash) is None <==> !has_hash(t, hash),
        lookup(t, hash) is Some ==> lookup(t, hash)->0.hash == hash,
{
    lemma_first_from(t, hash, 0);
    if has_hash(t, hash) {
        let i = choose|i: int| 0 <= i < t.len() && (#[trigger] t[i]).hash == hash;
        assert(t[i].hash == hash);
    } else if lookup(t, hash) is Some {
        assert(t[first_from(t, hash, 0)].hash == hash);
    }
}

/// A paste whose hash no earlier paste has is read back as it was stored:
/// with its title and its body.
pub proof fn lemma_created_reads_back(t: Seq<RecordView>, row: RecordView, now: Timestamp)
    requires
        ascending(t),
        !has_hash(t, row.hash),
    ensures
        lookup(with_row(t, row, now), row.hash) == Some(row),
        row.full().title == row.title,
        row.full().body == row.body,
{
    lemma_slot(t, now);
    let p = slot(t, now);
    let u = with_row(t, row, now);
    lemma_first_from(u, row.hash, 0);
    let f = first_from(u, row.hash, 0);
    assert(u[p] == row);
    if f < p {
        assert(u[f] == t[f]);
        assert(t[f].hash == row.hash);
    } else if f > p {
        assert(u[p].hash == row.hash);
    }
}

/// Two tables with the same hashes row by row find a hash at the same place.
pub proof fn lemma_first_from_same_hashes(
    t: Seq<RecordView>,
    u: Seq<RecordView>,
    hash: Seq<char>,
    k: int,
)
    requires
        t.len() == u.len(),
        forall|i: int| 0 <= i < t.len() ==> (#[trigger] t[i]).hash == (#[trigger] u[i]).hash,
        0 <= k <= t.len(),
    ensures
        first_from(t, hash, k) == first_from(u, hash, k),
    decreases t.len() - k,
{
    if k < t.len() {
        assert(t[k].hash == u[k].hash);
        if t[k].hash != hash {
            lemma_first_from_same_hashes(t, u, hash, k + 1);
        }
    }
}

/// After `n` reads of a stored hash, one after the other, every row with
/// that hash has counted exactly `n` clicks: none is lost.
pub proof fn lemma_reads_are_counted(t: Seq<RecordView>, hash: Seq<char>, n: nat)
    requires
        lookup(t, hash) is Some,
        room_for(t, hash, n),
    ensures
        after_reads(t, hash, n) == clicked_by(t, hash, n),
        lookup(after_reads(t, hash, n), hash) == Some(
            RecordView {
                click_count: lookup(t, hash)->0.click_count + n,
                ..lookup(t, hash)->0
            },
        ),
    decreases n,
{
    let f = first_from(t, hash, 0);
    lemma_first_from(t, hash, 0);
    if n == 0 {
        assert(clicked_by(t, hash, 0) =~= t);
    } else {
        let m = (n - 1) as nat;
        assert(room_for(t, hash, m)) by {
            assert forall|i: int| 0 <= i < t.len() && (#[trigger] t[i]).hash == hash implies t[i].click_count
                + m <= i32::MAX by {
                assert(t[i].click_count + n <= i32::MAX);
            }
        }
        lemma_reads_are_counted(t, hash, m);
        let u = after_reads(t, hash, m);
        assert(u == clicked_by(t, hash, m));
        lemma_first_from_same_hashes(t, u, hash, 0);
        assert(lookup(u, hash) is Some);
        assert(!saturated(u, hash)) by {
            if saturated(u, hash) {
                let i = choose|i: int|
                    0 <= i < u.len() && (#[trigger] u[i]).hash == hash && u[i].click_count
                        >= i32::MAX;
                assert(t[i].hash == hash);
                assert(t[i].click_count + n <= i32::MAX);
            }
        }
        assert(after_read(u, hash) == clicked(u, hash));
        assert(clicked(u, hash) =~= clicked_by(t, hash, n));
    }
    lemma_first_from_same_hashes(t, clicked_by(t, hash, n), hash, 0);
}

/// A paste that was just created, under a hash that no earlier paste has,
/// shows after `n` reads exactly `n` clicks, and still its title and body.
pub proof fn lemma_created_counts_reads(
    t: Seq<RecordView>,
    row: RecordView,
    now: Timestamp,
    n: nat,
)
    requires
        ascending(t),
        !has_hash(t, row.hash),
        row.click_count == 0,
        n <= i32::MAX,
    ensures
        lookup(after_reads(with_row(t, row, now), row.hash, n), row.hash) == Some(
            RecordView { click_count: n as int, ..row },
        ),
{
    lemma_slot(t, now);
    lemma_created_reads_back(t, row, now);
    let p = slot(t, now);
    let u = with_row(t, row, now);
    assert forall|i: int| 0 <= i < u.len() && (#[trigger] u[i]).hash == row.hash implies u[i].click_count
        + n <= i32::MAX by {
        if i < p {
            assert(u[i] == t[i]);
            assert(t[i].hash == row.hash);
        } else if i > p {
            assert(u[i] == t[i - 1]);
            assert(t[i - 1].hash == row.hash);
        } else {
            assert(u[i] == row);
        }
    }
    lemma_reads_are_counted(u, row.hash, n);
}

} // verus!
