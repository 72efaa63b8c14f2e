//! The three requests of the service, and the shaping of their answers from
//! what the table returned.

use crate::clock::now;
use crate::ident::{generate_hash, is_hash};
use crate::record::{
    date_le, fresh_row, Paste, PasteRecord, PasteResponse, PasteResponses, ResponseView, ServiceError,
    Timestamp,
};
use crate::store::{rows_view, PasteStore};
use crate::laws::lemma_listing_ascending;
use crate::table::{after_read, lookup, summaries, with_row};
use vstd::prelude::*;

verus! {

/// The answer to a create request whose row was stored: the title, the new
/// hash and the creation date, no click, and an empty body.
pub open spec fn created_view(title: Seq<char>, hash: Seq<char>, now: Timestamp) -> ResponseView {
    ResponseView { title, body: Seq::empty(), hash, creation_date: Some(now), click_count: 0 }
}

/// The answer to a create request, from whether the table stored the row.
pub fn create_outcome(title: &String, hash: &String, now: Timestamp, stored: bool) -> (res: Result<
    PasteResponse,
    ServiceError,
>)
    ensures
        stored ==> res is Ok && res->Ok_0@ == created_view(title@, hash@, now),
        !stored ==> res == Err::<PasteResponse, ServiceError>(ServiceError::Storage),
{
    if stored {
        Ok(
            PasteResponse {
                title: title.clone(),
                body: String::new(),
                hash: hash.clone(),
                creation_date: Some(now),
                click_count: 0,
            },
        )
    } else {
        Err(ServiceError::Storage)
    }
}

/// A summary of each row, in the order of the rows.
pub fn summarize(rows: &Vec<PasteRecord>) -> (res: PasteResponses)
    ensures
        res@ == summaries(rows_view(rows@)),
        forall|i: int| 0 <= i < res@.len() ==> (#[trigger] res@[i]).body == Seq::<char>::empty(),
{
    let mut pastes: Vec<PasteResponse> = Vec::new();
    let mut i: usize = 0;
    while i < rows.len()
        invariant
            0 <= i <= rows@.len(),
            pastes@.len() == i,
            forall|k: int| 0 <= k < i ==> (#[trigger] pastes@[k])@ == rows@[k]@.summary(),
        decreases rows@.len() - i,
    {
        pastes.push(rows[i].summary());
        i += 1;
    }
    let res = PasteResponses { pastes };
    assert(res@ =~= summaries(rows_view(rows@)));
    res
}

/// The answer to a list request, from what the ascending read returned,
/// `None` standing for a read that failed: a summary of each row in the
/// order of the read, or the storage error.
pub fn list_outcome(read: Option<&Vec<PasteRecord>>) -> (res: Result<PasteResponses, ServiceError>)
    ensures
        match read {
            Some(rows) => {
                &&& res is Ok
                &&& res->Ok_0@ == summaries(rows_view(rows@))
                &&& forall|i: int|
                    0 <= i < res->Ok_0@.len() ==> (#[trigger] res->Ok_0@[i]).body == Seq::<
                        char,
                    >::empty()
            },
            None => res == Err::<PasteResponses, ServiceError>(ServiceError::Storage),
        },
{
    match read {
        Some(rows) => Ok(summarize(rows)),
        None => Err(ServiceError::Storage),
    }
}

/// The answer to a read by hash, from the row that the table found, if any:
/// the row with its body, or the error that there is none.
pub fn found_outcome(found: Option<&PasteRecord>) -> (res: Result<PasteResponse, ServiceError>)
    ensures
        match found {
            Some(row) => res is Ok && res->Ok_0@ == row@.full(),
            None => res == Err::<PasteResponse, ServiceError>(ServiceError::NotFound),
        },
{
    match found {
        Some(row) => Ok(row.full()),
        None => Err(ServiceError::NotFound),
    }
}

/// The answer to a read by hash, from what the read returned, `None`
/// standing for a read that failed: the first row with its body, the error
/// that no row came back, or the storage error. A click is counted
/// after the read exactly when the answer is a paste.
pub fn read_outcome(read: Option<&Vec<PasteRecord>>) -> (res: Result<PasteResponse, ServiceError>)
    ensures
        match read {
            Some(rows) => if rows@.len() > 0 {
                res is Ok && res->Ok_0@ == rows@[0]@.full()
            } else {
                res == Err::<PasteResponse, ServiceError>(ServiceError::NotFound)
            },
            None => res == Err::<PasteResponse, ServiceError>(ServiceError::Storage),
        },
{
    match read {
        Some(rows) => {
            if rows.len() > 0 {
                found_outcome(Some(&rows[0]))
            } else {
                found_outcome(None)
            }
        },
        None => Err(ServiceError::Storage),
    }
}

/// Stores a paste under a given hash and creation date, and answers with the
/// new record, its body left out. The hash is not held against the hashes
/// in the table.
pub fn create_paste_with(store: &mut PasteStore, paste: &Paste, hash: String, now: Timestamp) -> (res:
    Result<PasteResponse, ServiceError>)
    requires
        old(store).wf(),
    ensures
        final(store).wf(),
        res is Ok <==> old(store).next_id() < u64::MAX,
        match res {
            Ok(r) => {
                &&& r@ == created_view(paste.title@, hash@, now)
                &&& final(store).next_id() == old(store).next_id() + 1
                &&& final(store)@ == with_row(
                    old(store)@,
                    fresh_row(old(store).next_id(), hash@, paste.title@, paste.body@, now),
                    now,
                )
            },
            Err(e) => e == ServiceError::Storage && *final(store) == *old(store),
        },
{
    let stored = store.insert(hash.clone(), paste.title.clone(), paste.body.clone(), now);
    create_outcome(&paste.title, &hash, now, stored.is_ok())
}

/// Stores a paste under a fresh random hash and the current time.
pub fn create_paste(store: &mut PasteStore, paste: &Paste) -> (res: Result<
    PasteResponse,
    ServiceError,
>)
    requires
        old(store).wf(),
    ensures
        final(store).wf(),
        res is Ok <==> old(store).next_id() < u64::MAX,
        match res {
            Ok(r) => {
                &&& is_hash(r@.hash)
                &&& r@.body.len() == 0
                &&& r@.click_count == 0
                &&& r@.creation_date is Some
                &&& r@ == created_view(paste.title@, r@.hash, r@.creation_date->0)
                &&& final(store).next_id() == old(store).next_id() + 1
                &&& final(store)@ == with_row(
                    old(store)@,
                    fresh_row(
                        old(store).next_id(),
                        r@.hash,
                        paste.title@,
                        paste.body@,
                        r@.creation_date->0,
                    ),
                    r@.creation_date->0,
                )
            },
            Err(e) => e == ServiceError::Storage && *final(store) == *old(store),
        },
{
    let hash = generate_hash();
    let at = now();
    create_paste_with(store, paste, hash, at)
}

/// Lists every paste, oldest first, without the bodies.
pub fn get_pastes(store: &PasteStore) -> (res: PasteResponses)
    requires
        store.wf(),
    ensures
        res@ == summaries(store@),
        forall|i: int, j: int|
            0 <= i < j < res@.len() ==> date_le(
                (#[trigger] res@[i]).creation_date,
                (#[trigger] res@[j]).creation_date,
            ),
        forall|i: int| 0 <= i < res@.len() ==> (#[trigger] res@[i]).body == Seq::<char>::empty(),
{
    let res = summarize(store.rows());
    proof {
        lemma_listing_ascending(store@);
    }
    res
}

/// Reads the first paste with the hash and then counts the click. The
/// answer shows the count as it stood before this read. A click that the
/// table cannot count is dropped, and the answer stands.
pub fn get_paste(store: &mut PasteStore, hash: &String) -> (res: Result<PasteResponse, ServiceError>)
    requires
        old(store).wf(),
    ensures
        final(store).wf(),
        final(store).next_id() == old(store).next_id(),
        match lookup(old(store)@, hash@) {
            Some(row) => {
                &&& res is Ok
                &&& res->Ok_0@ == row.full()
                &&& final(store)@ == after_read(old(store)@, hash@)
            },
            None => {
                &&& res == Err::<PasteResponse, ServiceError>(ServiceError::NotFound)
                &&& *final(store) == *old(store)
            },
        },
{
    let res = found_outcome(store.find(hash));
    if res.is_ok() {
        let _ = store.increase_click_count(hash);
    }
    res
}

} // verus!
