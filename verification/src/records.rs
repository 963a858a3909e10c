//! Sequences of account records, and the map that files each record
//! under its uuid.

use vstd::prelude::*;
use crate::account::{Account, AccountView};
use crate::text::same_text;

verus! {

/// Whether some record of `records` carries `uuid`.
pub open spec fn listed(records: Seq<AccountView>, uuid: Seq<char>) -> bool {
    exists|i: int| 0 <= i < records.len() && (#[trigger] records[i]).uuid == uuid
}

/// Whether no two records of `records` carry the same uuid.
pub open spec fn distinct_uuids(records: Seq<AccountView>) -> bool {
    forall|i: int, j: int|
        0 <= i < j < records.len() ==> (#[trigger] records[i]).uuid != (#[trigger] records[j]).uuid
}

/// A record of `records` that carries `uuid`.
pub open spec fn record_with(records: Seq<AccountView>, uuid: Seq<char>) -> AccountView {
    records[choose|i: int| 0 <= i < records.len() && (#[trigger] records[i]).uuid == uuid]
}

/// The records of `records`, each filed under its uuid.
pub open spec fn account_map(records: Seq<AccountView>) -> Map<Seq<char>, AccountView> {
    Map::new(|uuid: Seq<char>| listed(records, uuid), |uuid: Seq<char>| record_with(records, uuid))
}

/// The uuids of the records, in their order.
pub open spec fn uuids(records: Seq<AccountView>) -> Seq<Seq<char>> {
    records.map_values(|record: AccountView| record.uuid)
}

/// Among records with distinct uuids, a record's uuid is found where the
/// record stands.
pub proof fn lemma_uuid_at(records: Seq<AccountView>, i: int)
    requires
        distinct_uuids(records),
        0 <= i < records.len(),
    ensures
        uuids(records).index_of(records[i].uuid) == i,
{
    let order = uuids(records);
    assert(order[i] == records[i].uuid);
    let j = order.index_of(records[i].uuid);
    assert(0 <= j < order.len() && order[j] == records[i].uuid);
    if j < i {
        assert(records[j].uuid != records[i].uuid);
    } else if i < j {
        assert(records[i].uuid != records[j].uuid);
    }
}

/// Taking a record out takes its uuid out of the order, the others left
/// as they stand.
pub proof fn lemma_uuids_remove(records: Seq<AccountView>, at: int)
    requires
        distinct_uuids(records),
        0 <= at < records.len(),
    ensures
        uuids(records.remove(at)) == uuids(records).remove_value(records[at].uuid),
{
    let order = uuids(records);
    let gone = records[at].uuid;
    assert(order[at] == gone);
    order.index_of_first_ensures(gone);
    let first = order.index_of_first(gone)->0;
    if first < at {
        assert(records[first].uuid != records[at].uuid);
    }
    assert(first == at);
    assert(uuids(records.remove(at)) =~= order.remove(at));
}

/// A uuid that no record carries is not in the order.
pub proof fn lemma_uuids_without(records: Seq<AccountView>, uuid: Seq<char>)
    requires
        !listed(records, uuid),
    ensures
        uuids(records).remove_value(uuid) == uuids(records),
{
    let order = uuids(records);
    order.index_of_first_ensures(uuid);
    if order.contains(uuid) {
        let i = choose|i: int| 0 <= i < order.len() && order[i] == uuid;
        assert(records[i].uuid == uuid);
    }
}

/// The values of a sequence of accounts.
pub open spec fn views(entries: Seq<Account>) -> Seq<AccountView> {
    entries.map_values(|a: Account| a@)
}

/// Among records with distinct uuids, the record filed under a record's
/// uuid is that record.
pub proof fn lemma_record_at(records: Seq<AccountView>, i: int)
    requires
        distinct_uuids(records),
        0 <= i < records.len(),
    ensures
        listed(records, records[i].uuid),
        record_with(records, records[i].uuid) == records[i],
        account_map(records).contains_key(records[i].uuid),
        account_map(records)[records[i].uuid] == records[i],
{
    let uuid = records[i].uuid;
    let j = choose|j: int| 0 <= j < records.len() && (#[trigger] records[j]).uuid == uuid;
    assert(j == i);
}

/// Every key of the map is the uuid of the record filed under it.
pub proof fn lemma_account_map_keys(records: Seq<AccountView>)
    ensures
        forall|uuid: Seq<char>| #[trigger]
            account_map(records).contains_key(uuid) ==> account_map(records)[uuid].uuid == uuid,
{
}

/// Appending a record with a new uuid files it in the map.
pub proof fn lemma_account_map_push(records: Seq<AccountView>, account: AccountView)
    requires
        distinct_uuids(records),
        !listed(records, account.uuid),
    ensures
        distinct_uuids(records.push(account)),
        account_map(records.push(account)) == account_map(records).insert(account.uuid, account),
{
    let after = records.push(account);
    assert forall|i: int, j: int| 0 <= i < j < after.len() implies (#[trigger] after[i]).uuid != (
    #[trigger] after[j]).uuid by {
        if j == records.len() {
            assert(records[i].uuid != account.uuid);
        } else {
            assert(records[i].uuid != records[j].uuid);
        }
    }
    assert forall|uuid: Seq<char>|
        account_map(after).contains_key(uuid) == account_map(records).insert(
            account.uuid,
            account,
        ).contains_key(uuid) by {
        if listed(after, uuid) {
            let i = choose|i: int| 0 <= i < after.len() && (#[trigger] after[i]).uuid == uuid;
            if i < records.len() {
                assert(records[i].uuid == uuid);
            }
        }
        if listed(records, uuid) {
            let i = choose|i: int| 0 <= i < records.len() && (#[trigger] records[i]).uuid == uuid;
            assert(after[i].uuid == uuid);
        }
        if uuid == account.uuid {
            assert(after[records.len() as int].uuid == uuid);
        }
    }
    assert forall|uuid: Seq<char>| account_map(after).contains_key(uuid) implies account_map(
        after,
    )[uuid] == account_map(records).insert(account.uuid, account)[uuid] by {
        let i = choose|i: int| 0 <= i < after.len() && (#[trigger] after[i]).uuid == uuid;
        lemma_record_at(after, i);
        if i < records.len() {
            assert(records[i] == after[i]);
            lemma_record_at(records, i);
        }
    }
    assert(account_map(after) =~= account_map(records).insert(account.uuid, account));
}

/// Replacing a record by one with the same uuid replaces it in the map.
pub proof fn lemma_account_map_update(records: Seq<AccountView>, at: int, account: AccountView)
    requires
        distinct_uuids(records),
        0 <= at < records.len(),
        records[at].uuid == account.uuid,
    ensures
        distinct_uuids(records.update(at, account)),
        account_map(records.update(at, account)) == account_map(records).insert(
            account.uuid,
            account,
        ),
{
    let after = records.update(at, account);
    assert forall|i: int, j: int| 0 <= i < j < after.len() implies (#[trigger] after[i]).uuid != (
    #[trigger] after[j]).uuid by {
        assert(records[i].uuid != records[j].uuid);
    }
    assert forall|uuid: Seq<char>|
        account_map(after).contains_key(uuid) == account_map(records).insert(
            account.uuid,
            account,
        ).contains_key(uuid) by {
        if listed(after, uuid) {
            let i = choose|i: int| 0 <= i < after.len() && (#[trigger] after[i]).uuid == uuid;
            assert(records[i].uuid == uuid);
        }
        if listed(records, uuid) {
            let i = choose|i: int| 0 <= i < records.len() && (#[trigger] records[i]).uuid == uuid;
            assert(after[i].uuid == uuid);
        }
        if uuid == account.uuid {
            assert(after[at].uuid == uuid);
        }
    }
    assert forall|uuid: Seq<char>| account_map(after).contains_key(uuid) implies account_map(
        after,
    )[uuid] == account_map(records).insert(account.uuid, account)[uuid] by {
        let i = choose|i: int| 0 <= i < after.len() && (#[trigger] after[i]).uuid == uuid;
        lemma_record_at(after, i);
        if i != at {
            assert(records[i] == after[i]);
            lemma_record_at(records, i);
        }
    }
    assert(account_map(after) =~= account_map(records).insert(account.uuid, account));
}

/// Taking a record out takes its uuid out of the map.
pub proof fn lemma_account_map_remove(records: Seq<AccountView>, at: int)
    requires
        distinct_uuids(records),
        0 <= at < records.len(),
    ensures
        distinct_uuids(records.remove(at)),
        account_map(records.remove(at)) == account_map(records).remove(records[at].uuid),
{
    let after = records.remove(at);
    let gone = records[at].uuid;
    assert forall|i: int, j: int| 0 <= i < j < after.len() implies (#[trigger] after[i]).uuid != (
    #[trigger] after[j]).uuid by {
        let oi = if i < at { i } else { i + 1 };
        let oj = if j < at { j } else { j + 1 };
        assert(records[oi].uuid != records[oj].uuid);
    }
    assert forall|uuid: Seq<char>|
        account_map(after).contains_key(uuid) == account_map(records).remove(gone).contains_key(
            uuid,
        ) by {
        if listed(after, uuid) {
            let i = choose|i: int| 0 <= i < after.len() && (#[trigger] after[i]).uuid == uuid;
            let oi = if i < at { i } else { i + 1 };
            assert(records[oi].uuid == uuid);
            if oi < at {
                assert(records[oi].uuid != records[at].uuid);
            } else {
                assert(records[at].uuid != records[oi].uuid);
            }
        }
        if listed(records, uuid) && uuid != gone {
            let i = choose|i: int| 0 <= i < records.len() && (#[trigger] records[i]).uuid == uuid;
            let ni = if i < at { i } else { i - 1 };
            assert(after[ni].uuid == uuid);
        }
    }
    assert forall|uuid: Seq<char>| account_map(after).contains_key(uuid) implies account_map(
        after,
    )[uuid] == account_map(records).remove(gone)[uuid] by {
        let i = choose|i: int| 0 <= i < after.len() && (#[trigger] after[i]).uuid == uuid;
        lemma_record_at(after, i);
        let oi = if i < at { i } else { i + 1 };
        assert(records[oi] == after[i]);
        lemma_record_at(records, oi);
    }
    assert(account_map(after) =~= account_map(records).remove(gone));
}

/// The map of any sequence of records has finitely many keys.
pub proof fn lemma_account_map_finite(records: Seq<AccountView>)
    ensures
        account_map(records).dom().finite(),
    decreases records.len(),
{
    if records.len() == 0 {
        assert(account_map(records).dom() =~= Set::<Seq<char>>::empty());
    } else {
        let front = records.drop_last();
        let last = records.last();
        lemma_account_map_finite(front);
        assert forall|uuid: Seq<char>|
            account_map(records).dom().contains(uuid) == account_map(front).dom().insert(
                last.uuid,
            ).contains(uuid) by {
            if listed(records, uuid) {
                let i = choose|i: int|
                    0 <= i < records.len() && (#[trigger] records[i]).uuid == uuid;
                if i < front.len() {
                    assert(front[i].uuid == uuid);
                }
            }
            if listed(front, uuid) {
                let i = choose|i: int| 0 <= i < front.len() && (#[trigger] front[i]).uuid == uuid;
                assert(records[i].uuid == uuid);
            }
            if uuid == last.uuid {
                assert(records[records.len() - 1].uuid == uuid);
            }
        }
        assert(account_map(records).dom() =~= account_map(front).dom().insert(last.uuid));
    }
}

/// The position of the record that carries `uuid`, if there is one.
pub(crate) fn position(entries: &Vec<Account>, uuid: &str) -> (found: Option<usize>)
    ensures
        match found {
            Some(i) => i < entries.len() && entries[i as int].uuid@ == uuid@ && listed(
                views(entries@),
                uuid@,
            ),
            None => !listed(views(entries@), uuid@),
        },
{
    let mut i: usize = 0;
    while i < entries.len()
        invariant
            i <= entries.len(),
            forall|k: int| 0 <= k < i ==> entries[k].uuid@ != uuid@,
        decreases entries.len() - i,
    {
        if same_text(entries[i].uuid.as_str(), uuid) {
            assert(views(entries@)[i as int].uuid == uuid@);
            return Some(i);
        }
        i += 1;
    }
    assert forall|k: int| 0 <= k < views(entries@).len() implies (#[trigger] views(
        entries@,
    )[k]).uuid != uuid@ by {
        assert(entries[k].uuid@ != uuid@);
    }
    None
}

/// Files `account` under its uuid, in place of the record that carried it
/// or, if there was none, at the end.
pub(crate) fn put(entries: &mut Vec<Account>, account: Account)
    requires
        distinct_uuids(views(old(entries)@)),
    ensures
        distinct_uuids(views(final(entries)@)),
        account_map(views(final(entries)@)) == account_map(views(old(entries)@)).insert(
            account.uuid@,
            account@,
        ),
        listed(views(final(entries)@), account.uuid@),
        forall|uuid: Seq<char>|
            listed(views(old(entries)@), uuid) ==> listed(views(final(entries)@), uuid),
        uuids(views(final(entries)@)) == if listed(views(old(entries)@), account.uuid@) {
            uuids(views(old(entries)@))
        } else {
            uuids(views(old(entries)@)).push(account.uuid@)
        },
{
    let ghost before = views(entries@);
    let ghost value = account@;
    match position(entries, account.uuid.as_str()) {
        Some(i) => {
            entries.set(i, account);
            proof {
                assert(views(entries@) =~= before.update(i as int, value));
                assert(uuids(before.update(i as int, value)) =~= uuids(before));
                lemma_account_map_update(before, i as int, value);
                lemma_record_at(views(entries@), i as int);
            }
        },
        None => {
            entries.push(account);
            proof {
                assert(views(entries@) =~= before.push(value));
                assert(uuids(before.push(value)) =~= uuids(before).push(value.uuid));
                lemma_account_map_push(before, value);
                lemma_record_at(views(entries@), before.len() as int);
            }
        },
    }
    proof {
        assert forall|uuid: Seq<char>| listed(before, uuid) implies listed(
            views(entries@),
            uuid,
        ) by {
            assert(account_map(before).contains_key(uuid));
            assert(account_map(views(entries@)).contains_key(uuid));
        }
    }
}

} // verus!
