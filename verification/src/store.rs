//! The paste store: the table held in memory, with the four statements that
//! the service issues against it.

use crate::record::{date_le, date_not_after, fresh_row, PasteRecord, RecordView, ServiceError, Timestamp};
use crate::table::{
    ascending, clicked, first_from, ids_assigned, lemma_slot, lemma_with_row_ascending,
    lookup, match_count, saturated, slot, with_row,
};
use vstd::prelude::*;

verus! {

/// The rows of a vector as mathematical values.
pub open spec fn rows_view(rows: Seq<PasteRecord>) -> Seq<RecordView> {
    Seq::new(rows.len(), |i: int| rows[i]@)
}

/// The paste table and its id counter. Whoever holds it mutably is the one
/// caller that the table serves at that moment.
pub struct PasteStore {
    rows: Vec<PasteRecord>,
    next_id: u64,
}

impl View for PasteStore {
    type V = Seq<RecordView>;

    closed spec fn view(&self) -> Seq<RecordView> {
        rows_view(self.rows@)
    }
}

impl PasteStore {
    /// The id that the next row gets.
    pub closed spec fn next_id(&self) -> int {
        self.next_id as int
    }

    /// The store's invariant: the rows stand in ascending order of creation
    /// date, and each has an id of its own below the next one.
    pub open spec fn wf(&self) -> bool {
        &&& ascending(self@)
        &&& ids_assigned(self@, self.next_id())
    }

    /// An empty store, whose first row gets the id 1.
    pub fn new() -> (store: PasteStore)
        ensures
            store.wf(),
            store@ == Seq::<RecordView>::empty(),
            store.next_id() == 1,
    {
        let store = PasteStore { rows: Vec::new(), next_id: 1 };
        assert(store@ =~= Seq::<RecordView>::empty());
        store
    }

    /// A store over rows that exist already, with the id that the next row
    /// gets. It is made only where the rows meet the store's invariant.
    pub fn from_rows(rows: Vec<PasteRecord>, next_id: u64) -> (res: Option<PasteStore>)
        ensures
            match res {
                Some(store) => {
                    &&& store.wf()
                    &&& store@ == rows_view(rows@)
                    &&& store.next_id() == next_id
                },
                None => !(ascending(rows_view(rows@)) && ids_assigned(
                    rows_view(rows@),
                    next_id as int,
                )),
            },
    {
        let ghost t = rows_view(rows@);
        if next_id == 0 {
            return None;
        }
        let len = rows.len();
        let mut i: usize = 0;
        while i < len
            invariant
                0 <= i <= len,
                len == rows@.len(),
                t == rows_view(rows@),
                forall|k: int| 0 <= k < i ==> 0 < (#[trigger] t[k]).id < next_id,
                forall|a: int, b: int|
                    0 <= a < b < i ==> date_le(
                        (#[trigger] t[a]).creation_date,
                        (#[trigger] t[b]).creation_date,
                    ),
                forall|a: int, b: int|
                    0 <= a < b < i ==> (#[trigger] t[a]).id != (#[trigger] t[b]).id,
            decreases len - i,
        {
            assert(t[i as int] == rows@[i as int]@);
            if rows[i].id == 0 || rows[i].id >= next_id {
                assert(!(0 < t[i as int].id < next_id));
                return None;
            }
            if i > 0 {
                assert(t[i - 1] == rows@[i - 1]@);
                if !date_not_after(&rows[i - 1].creation_date, &rows[i].creation_date) {
                    assert(!date_le(t[i - 1].creation_date, t[i as int].creation_date));
                    return None;
                }
                assert forall|a: int| 0 <= a < i implies date_le(
                    (#[trigger] t[a]).creation_date,
                    t[i as int].creation_date,
                ) by {
                    if a < i - 1 {
                        assert(date_le(t[a].creation_date, t[i - 1].creation_date));
                    }
                }
            }
            let mut j: usize = 0;
            while j < i
                invariant
                    0 <= j <= i < len,
                    len == rows@.len(),
                    t == rows_view(rows@),
                    forall|a: int| 0 <= a < j ==> (#[trigger] t[a]).id != t[i as int].id,
                decreases i - j,
            {
                assert(t[j as int] == rows@[j as int]@);
                assert(t[i as int] == rows@[i as int]@);
                if rows[j].id == rows[i].id {
                    assert(t[j as int].id == t[i as int].id);
                    return None;
                }
                j += 1;
            }
            i += 1;
        }
        Some(PasteStore { rows, next_id })
    }

    /// The rows in ascending order of creation date.
    pub fn rows(&self) -> (rows: &Vec<PasteRecord>)
        ensures
            rows_view(rows@) == self@,
    {
        &self.rows
    }

    /// Adds a row with the given values, the next id and no click. The store
    /// refuses only when it has no id left to give.
    pub fn insert(&mut self, hash: String, title: String, body: String, now: Timestamp) -> (res:
        Result<u64, ServiceError>)
        requires
            old(self).wf(),
        ensures
            final(self).wf(),
            res is Ok <==> old(self).next_id() < u64::MAX,
            match res {
                Ok(id) => {
                    &&& id == old(self).next_id()
                    &&& final(self).next_id() == id + 1
                    &&& final(self)@ == with_row(
                        old(self)@,
                        fresh_row(id as int, hash@, title@, body@, now),
                        now,
                    )
                },
                Err(e) => e == ServiceError::Storage && *final(self) == *old(self),
            },
    {
        if self.next_id == u64::MAX {
            return Err(ServiceError::Storage);
        }
        let id = self.next_id;
        let ghost before = self@;
        let ghost before_rows = self.rows@;
        let ghost row = fresh_row(id as int, hash@, title@, body@, now);
        let target = Some(now);
        let mut p: usize = self.rows.len();
        assert(before.take(p as int) =~= before);
        while p > 0 && !date_not_after(&self.rows[p - 1].creation_date, &target)
            invariant
                0 <= p <= self.rows@.len(),
                self.rows@ == before_rows,
                target == Some(now),
                slot(before, now) == slot(before.take(p as int), now),
                before == rows_view(before_rows),
            decreases p,
        {
            assert(before.take(p as int).drop_last() =~= before.take(p - 1));
            p -= 1;
        }
        proof {
            lemma_slot(before, now);
            lemma_with_row_ascending(before, row, now);
        }
        let record = PasteRecord { id, hash, title, body, creation_date: target, click_count: 0 };
        self.rows.insert(p, record);
        self.next_id = id + 1;
        proof {
            assert(self@ =~= with_row(before, row, now));
            let after = self@;
            assert forall|i: int| 0 <= i < after.len() implies 0 < (#[trigger] after[i]).id < id
                + 1 by {
                if i < p {
                    assert(after[i] == before[i]);
                } else if i > p {
                    assert(after[i] == before[i - 1]);
                } else {
                    assert(after[i] == row);
                }
            }
            assert forall|i: int, j: int| 0 <= i < j < after.len() implies (#[trigger] after[i]).id
                != (#[trigger] after[j]).id by {
                let bi = if i < p { i } else { i - 1 };
                let bj = if j < p { j } else { j - 1 };
                if i != p {
                    assert(after[i] == before[bi]);
                }
                if j != p {
                    assert(after[j] == before[bj]);
                }
            }
        }
        Ok(id)
    }

    /// The first row with the hash, as a read limited to one row returns it.
    pub fn find(&self, hash: &String) -> (found: Option<&PasteRecord>)
        ensures
            match found {
                Some(row) => lookup(self@, hash@) == Some(row@),
                None => lookup(self@, hash@) is None,
            },
    {
        let mut i: usize = 0;
        while i < self.rows.len()
            invariant
                0 <= i <= self.rows@.len(),
                first_from(self@, hash@, 0) == first_from(self@, hash@, i as int),
            decreases self.rows@.len() - i,
        {
            if self.rows[i].hash == *hash {
                return Some(&self.rows[i]);
            }
            i += 1;
        }
        None
    }

    /// Counts one click on every row with the hash and returns how many rows
    /// that were. Where one of them cannot count further, the statement fails
    /// as a whole and no row changes.
    pub fn increase_click_count(&mut self, hash: &String) -> (res: Result<u64, ServiceError>)
        requires
            old(self).wf(),
        ensures
            final(self).wf(),
            final(self).next_id() == old(self).next_id(),
            res is Ok <==> !saturated(old(self)@, hash@),
            match res {
                Ok(n) => n == match_count(old(self)@, hash@) && final(self)@ == clicked(
                    old(self)@,
                    hash@,
                ),
                Err(e) => e == ServiceError::Storage && *final(self) == *old(self),
            },
    {
        let ghost before = self@;
        let len = self.rows.len();
        let mut i: usize = 0;
        while i < len
            invariant
                0 <= i <= len,
                len == self.rows@.len(),
                *self == *old(self),
                old(self).wf(),
                before == self@,
                forall|k: int|
                    0 <= k < i ==> !((#[trigger] before[k]).hash == hash@ && before[k].click_count
                        >= i32::MAX),
            decreases len - i,
        {
            if self.rows[i].hash == *hash && self.rows[i].click_count == i32::MAX {
                assert(before[i as int].hash == hash@ && before[i as int].click_count >= i32::MAX);
                return Err(ServiceError::Storage);
            }
            i += 1;
        }
        let mut n: u64 = 0;
        let mut i: usize = 0;
        while i < len
            invariant
                0 <= i <= len,
                len == self.rows@.len(),
                len == before.len(),
                self.next_id == old(self).next_id,
                ascending(before),
                ids_assigned(before, self.next_id()),
                n == match_count(before.take(i as int), hash@),
                n <= i,
                forall|k: int|
                    0 <= k < len ==> !((#[trigger] before[k]).hash == hash@ && before[k].click_count
                        >= i32::MAX),
                forall|k: int| 0 <= k < i ==> (#[trigger] self@[k]) == clicked(before, hash@)[k],
                forall|k: int| i <= k < len ==> (#[trigger] self@[k]) == before[k],
            decreases len - i,
        {
            assert(before.take(i + 1).drop_last() =~= before.take(i as int));
            assert(self@[i as int] == before[i as int]);
            if self.rows[i].hash == *hash {
                let ghost prev = self@;
                let c = self.rows[i].click_count;
                self.rows[i].click_count = c + 1;
                n += 1;
                assert forall|k: int| 0 <= k < len implies (#[trigger] self@[k]) == (if k == i {
                    prev[k].clicked()
                } else {
                    prev[k]
                }) by {}
            }
            i += 1;
        }
        proof {
            assert(before.take(len as int) =~= before);
            assert(self@ =~= clicked(before, hash@));
            let after = self@;
            assert forall|a: int, b: int| 0 <= a < b < after.len() implies date_le(
                (#[trigger] after[a]).creation_date,
                (#[trigger] after[b]).creation_date,
            ) by {
                assert(after[a].creation_date == before[a].creation_date);
                assert(after[b].creation_date == before[b].creation_date);
            }
            assert forall|a: int| 0 <= a < after.len() implies 0 < (#[trigger] after[a]).id
                < self.next_id() by {
                assert(after[a].id == before[a].id);
            }
            assert forall|a: int, b: int| 0 <= a < b < after.len() implies (#[trigger] after[a]).id
                != (#[trigger] after[b]).id by {
                assert(after[a].id == before[a].id);
                assert(after[b].id == before[b].id);
            }
        }
        Ok(n)
    }
}

} // verus!
