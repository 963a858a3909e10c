//! The JSON document that the store is persisted as.
//!
//! The document is an object with two members: `accounts`, an object that
//! holds one record for each account under the account's uuid, and
//! `active_account_uuid`, a string or `null`. A record has the members
//! `uuid`, `username`, `access_token`, `refresh_token`, `expires_at`,
//! `added_at` and `last_used`; the last three are instants, written as
//! integers: seconds since the Unix epoch. A document that holds an instant
//! in any other form, such as an RFC 3339 string, is not well formed and
//! does not load. An optional member may be `null` or missing; members that
//! are not named here are ignored.

use vstd::prelude::*;
use crate::account::{opt_account, Account, AccountView};
use crate::error::AccountError;
use crate::fields::{
    integer_or_null, optional_integer, optional_integer_value, optional_text,
    optional_text_value, read_integer, read_optional_integer, read_optional_text, read_text,
    required_integer, required_text, text_or_null,
};
use crate::json::{
    distinct_names, integer_value, json_model, member, member_names, member_of, members_of,
    names, object_value, text_value, JsonModel,
};
use crate::records::{account_map, lemma_record_at, listed, views};
use crate::store::{AccountStore, StoreView};
use crate::text::texts;

verus! {

/// The account that a record denotes, if it is a well-formed record.
pub open spec fn account_of(record: JsonModel) -> Option<AccountView> {
    let uuid = required_text(member_of(record, "uuid"@));
    let username = required_text(member_of(record, "username"@));
    let access_token = required_text(member_of(record, "access_token"@));
    let refresh_token = optional_text(member_of(record, "refresh_token"@));
    let expires_at = required_integer(member_of(record, "expires_at"@));
    let added_at = required_integer(member_of(record, "added_at"@));
    let last_used = optional_integer(member_of(record, "last_used"@));
    if uuid is Some && username is Some && access_token is Some && refresh_token is Some
        && expires_at is Some && added_at is Some && last_used is Some {
        Some(
            AccountView {
                uuid: uuid->0,
                username: username->0,
                access_token: access_token->0,
                refresh_token: refresh_token->0,
                expires_at: expires_at->0,
                added_at: added_at->0,
                last_used: last_used->0,
            },
        )
    } else {
        None
    }
}

/// The members of the record that stands for `account`.
pub open spec fn record_members(account: AccountView) -> Map<Seq<char>, JsonModel> {
    Map::<Seq<char>, JsonModel>::empty().insert("uuid"@, JsonModel::Text(account.uuid)).insert(
        "username"@,
        JsonModel::Text(account.username),
    ).insert("access_token"@, JsonModel::Text(account.access_token)).insert(
        "refresh_token"@,
        text_or_null(account.refresh_token),
    ).insert("expires_at"@, JsonModel::Integer(account.expires_at)).insert(
        "added_at"@,
        JsonModel::Integer(account.added_at),
    ).insert("last_used"@, integer_or_null(account.last_used))
}

/// The record that stands for `account`.
pub open spec fn record_of(account: AccountView) -> JsonModel {
    JsonModel::Object(record_members(account))
}

/// The names of a record's members are seven different strings.
proof fn lemma_record_names()
    ensures
        "uuid"@ != "username"@,
        "uuid"@ != "access_token"@,
        "uuid"@ != "refresh_token"@,
        "uuid"@ != "expires_at"@,
        "uuid"@ != "added_at"@,
        "uuid"@ != "last_used"@,
        "username"@ != "access_token"@,
        "username"@ != "refresh_token"@,
        "username"@ != "expires_at"@,
        "username"@ != "added_at"@,
        "username"@ != "last_used"@,
        "access_token"@ != "refresh_token"@,
        "access_token"@ != "expires_at"@,
        "access_token"@ != "added_at"@,
        "access_token"@ != "last_used"@,
        "refresh_token"@ != "expires_at"@,
        "refresh_token"@ != "added_at"@,
        "refresh_token"@ != "last_used"@,
        "expires_at"@ != "added_at"@,
        "expires_at"@ != "last_used"@,
        "added_at"@ != "last_used"@,
{
    reveal_strlit("uuid");
    reveal_strlit("username");
    reveal_strlit("access_token");
    reveal_strlit("refresh_token");
    reveal_strlit("expires_at");
    reveal_strlit("added_at");
    reveal_strlit("last_used");
    assert("uuid"@.len() == 4);
    assert("username"@.len() == 8);
    assert("access_token"@.len() == 12);
    assert("refresh_token"@.len() == 13);
    assert("expires_at"@.len() == 10);
    assert("added_at"@.len() == 8);
    assert("last_used"@.len() == 9);
    assert("username"@[0] == 'u');
    assert("added_at"@[0] == 'a');
}

/// Reading the record that stands for an account gives the account back.
pub proof fn lemma_record_round_trip(account: AccountView)
    ensures
        account_of(record_of(account)) == Some(account),
{
    lemma_record_names();
}

/// Among pairs with distinct names, the member under a pair's name is what
/// the pair's value holds.
pub proof fn lemma_member_at(pairs: Seq<(String, serde_json::Value)>, i: int)
    requires
        distinct_names(pairs),
        0 <= i < pairs.len(),
    ensures
        names(pairs, pairs[i].0@),
        members_of(pairs).contains_key(pairs[i].0@),
        members_of(pairs)[pairs[i].0@] == json_model(pairs[i].1),
{
    let name = pairs[i].0@;
    let j = choose|j: int| 0 <= j < pairs.len() && (#[trigger] pairs[j]).0@ == name;
    assert(j == i);
}

/// Reads the account that `record` denotes; nothing if a member that a
/// record must have is missing, or if a member is of the wrong kind.
pub fn decode_account(record: &serde_json::Value) -> (account: Option<Account>)
    ensures
        opt_account(account) == account_of(json_model(*record)),
{
    let uuid = read_text(member(record, "uuid"));
    let username = read_text(member(record, "username"));
    let access_token = read_text(member(record, "access_token"));
    let refresh_token = read_optional_text(member(record, "refresh_token"));
    let expires_at = read_integer(member(record, "expires_at"));
    let added_at = read_integer(member(record, "added_at"));
    let last_used = read_optional_integer(member(record, "last_used"));
    match (uuid, username, access_token, refresh_token, expires_at, added_at, last_used) {
        (
            Some(uuid),
            Some(username),
            Some(access_token),
            Some(refresh_token),
            Some(expires_at),
            Some(added_at),
            Some(last_used),
        ) => Some(
            Account {
                uuid,
                username,
                access_token,
                refresh_token,
                expires_at,
                added_at,
                last_used,
            },
        ),
        _ => None,
    }
}

/// The record that stands for `account`.
pub fn encode_account(account: &Account) -> (record: serde_json::Value)
    ensures
        json_model(record) == record_of(account@),
{
    let mut pairs: Vec<(String, serde_json::Value)> = Vec::new();
    pairs.push(("uuid".to_owned(), text_value(account.uuid.as_str())));
    pairs.push(("username".to_owned(), text_value(account.username.as_str())));
    pairs.push(("access_token".to_owned(), text_value(account.access_token.as_str())));
    pairs.push(("refresh_token".to_owned(), optional_text_value(&account.refresh_token)));
    pairs.push(("expires_at".to_owned(), integer_value(account.expires_at)));
    pairs.push(("added_at".to_owned(), integer_value(account.added_at)));
    pairs.push(("last_used".to_owned(), optional_integer_value(account.last_used)));
    proof {
        lemma_record_names();
        assert(distinct_names(pairs@));
        lemma_member_at(pairs@, 0);
        lemma_member_at(pairs@, 1);
        lemma_member_at(pairs@, 2);
        lemma_member_at(pairs@, 3);
        lemma_member_at(pairs@, 4);
        lemma_member_at(pairs@, 5);
        lemma_member_at(pairs@, 6);
        assert forall|name: Seq<char>| members_of(pairs@).contains_key(name) implies record_members(
            account@,
        ).contains_key(name) by {
            let i = choose|i: int| 0 <= i < pairs@.len() && (#[trigger] pairs@[i]).0@ == name;
            assert(0 <= i < 7);
        }
        assert(members_of(pairs@) =~= record_members(account@));
    }
    object_value(pairs)
}

/// Whether every member of `records` is the record of an account filed
/// under its own uuid.
pub open spec fn all_records(records: Map<Seq<char>, JsonModel>) -> bool {
    forall|uuid: Seq<char>| #[trigger]
        records.contains_key(uuid) ==> account_of(records[uuid]) is Some && account_of(
            records[uuid],
        )->0.uuid == uuid
}

/// The store that a document denotes, if it is a well-formed document:
/// `accounts` is an object of records, each under its own uuid, and
/// `active_account_uuid` is `null`, missing, or the uuid of one of them.
pub open spec fn store_of(document: JsonModel) -> Option<StoreView> {
    match member_of(document, "accounts"@) {
        Some(JsonModel::Object(records)) => {
            let active = optional_text(member_of(document, "active_account_uuid"@));
            if records.dom().finite() && all_records(records) && active is Some && (active->0
                matches Some(uuid) ==> records.contains_key(uuid)) {
                Some(
                    StoreView {
                        accounts: records.map_values(|record: JsonModel| account_of(record)->0),
                        active: active->0,
                    },
                )
            } else {
                None
            }
        },
        _ => None,
    }
}

/// The members of the document that stands for `store`.
pub open spec fn document_members(store: StoreView) -> Map<Seq<char>, JsonModel> {
    Map::<Seq<char>, JsonModel>::empty().insert(
        "accounts"@,
        JsonModel::Object(store.accounts.map_values(|account: AccountView| record_of(account))),
    ).insert("active_account_uuid"@, text_or_null(store.active))
}

/// The document that stands for `store`.
pub open spec fn document_of(store: StoreView) -> JsonModel {
    JsonModel::Object(document_members(store))
}

/// The names of a document's members are two different strings.
proof fn lemma_document_names()
    ensures
        "accounts"@ != "active_account_uuid"@,
{
    reveal_strlit("accounts");
    reveal_strlit("active_account_uuid");
    assert("accounts"@.len() == 8);
    assert("active_account_uuid"@.len() == 19);
}

/// Reading the document that stands for a store gives the store back.
pub proof fn lemma_document_round_trip(store: StoreView)
    requires
        store.valid(),
    ensures
        store_of(document_of(store)) == Some(store),
{
    lemma_document_names();
    let records = store.accounts.map_values(|account: AccountView| record_of(account));
    assert(records.dom() =~= store.accounts.dom());
    assert forall|uuid: Seq<char>| #[trigger] records.contains_key(uuid) implies account_of(
        records[uuid],
    ) is Some && account_of(records[uuid])->0.uuid == uuid by {
        lemma_record_round_trip(store.accounts[uuid]);
    }
    let back = records.map_values(|record: JsonModel| account_of(record)->0);
    assert forall|uuid: Seq<char>| back.contains_key(uuid) implies back[uuid]
        == store.accounts[uuid] by {
        lemma_record_round_trip(store.accounts[uuid]);
    }
    assert(back =~= store.accounts);
}

/// Reads the store that `document` denotes.
///
/// Fails with `StoreCorrupt` if the document is not well formed: see
/// [`store_of`].
pub fn decode_document(document: &serde_json::Value) -> (result: Result<
    AccountStore,
    AccountError,
>)
    ensures
        match store_of(json_model(*document)) {
            Some(store) => result matches Ok(decoded) && decoded@ == store && store.valid(),
            None => result matches Err(e) && e == AccountError::StoreCorrupt,
        },
{
    let holder = match member(document, "accounts") {
        Some(value) => value,
        None => {
            return Err(AccountError::StoreCorrupt);
        },
    };
    let uuids = match member_names(holder) {
        Some(list) => list,
        None => {
            return Err(AccountError::StoreCorrupt);
        },
    };
    let ghost records = json_model(*holder)->Object_0;
    let ghost listed_uuids = texts(uuids@);
    let mut accounts: Vec<Account> = Vec::new();
    let mut i: usize = 0;
    while i < uuids.len()
        invariant
            i <= uuids.len(),
            accounts.len() == i,
            member_of(json_model(*document), "accounts"@) == Some(json_model(*holder)),
            json_model(*holder) == JsonModel::Object(records),
            listed_uuids == texts(uuids@),
            forall|name: Seq<char>| records.contains_key(name) <==> listed_uuids.contains(name),
            forall|k: int|
                0 <= k < i ==> account_of(records[listed_uuids[k]]) == Some(
                    (#[trigger] accounts[k])@,
                ) && accounts[k].uuid@ == listed_uuids[k],
        decreases uuids.len() - i,
    {
        let ghost uuid = listed_uuids[i as int];
        assert(listed_uuids.contains(uuid));
        let account = match member(holder, uuids[i].as_str()) {
            Some(record) => decode_account(record),
            None => None,
        };
        match account {
            Some(account) => {
                if !crate::text::same_text(account.uuid.as_str(), uuids[i].as_str()) {
                    return Err(AccountError::StoreCorrupt);
                }
                accounts.push(account);
            },
            None => {
                return Err(AccountError::StoreCorrupt);
            },
        }
        i += 1;
    }
    let active = match read_optional_text(member(document, "active_account_uuid")) {
        Some(active) => active,
        None => {
            return Err(AccountError::StoreCorrupt);
        },
    };
    proof {
        let entries = views(accounts@);
        assert forall|a: int, b: int| 0 <= a < b < entries.len() implies (
        #[trigger] entries[a]).uuid != (#[trigger] entries[b]).uuid by {
            assert(accounts[a].uuid@ == listed_uuids[a]);
            assert(accounts[b].uuid@ == listed_uuids[b]);
        }
        assert forall|uuid: Seq<char>| records.contains_key(uuid) == listed(entries, uuid) by {
            if records.contains_key(uuid) {
                let k = choose|k: int| 0 <= k < listed_uuids.len() && listed_uuids[k] == uuid;
                assert(accounts[k].uuid@ == uuid);
                assert(entries[k].uuid == uuid);
            }
            if listed(entries, uuid) {
                let k = choose|k: int|
                    0 <= k < entries.len() && (#[trigger] entries[k]).uuid == uuid;
                assert(accounts[k].uuid@ == listed_uuids[k]);
                assert(listed_uuids.contains(uuid));
            }
        }
        assert forall|uuid: Seq<char>| #[trigger] records.contains_key(uuid) implies account_of(
            records[uuid],
        ) is Some && account_of(records[uuid])->0.uuid == uuid && account_map(entries)[uuid]
            == account_of(records[uuid])->0 by {
            let k = choose|k: int| 0 <= k < listed_uuids.len() && listed_uuids[k] == uuid;
            assert(accounts[k].uuid@ == uuid);
            lemma_record_at(entries, k);
        }
        assert(records.dom() =~= listed_uuids.to_set());
        vstd::seq_lib::seq_to_set_is_finite(listed_uuids);
        assert(account_map(entries) =~= records.map_values(
            |record: JsonModel| account_of(record)->0,
        ));
    }
    AccountStore::restore(accounts, active)
}

/// The document that stands for `store`.
pub fn encode_document(store: &AccountStore) -> (document: serde_json::Value)
    ensures
        json_model(document) == document_of(store@),
{
    let accounts = store.accounts();
    let ghost entries = views(accounts@);
    let mut records: Vec<(String, serde_json::Value)> = Vec::new();
    let mut i: usize = 0;
    while i < accounts.len()
        invariant
            i <= accounts.len(),
            records.len() == i,
            entries == views(accounts@),
            forall|k: int|
                0 <= k < i ==> (#[trigger] records[k]).0@ == entries[k].uuid && json_model(
                    records[k].1,
                ) == record_of(entries[k]),
        decreases accounts.len() - i,
    {
        records.push((accounts[i].uuid.clone(), encode_account(&accounts[i])));
        i += 1;
    }
    proof {
        assert forall|a: int, b: int| 0 <= a < b < records.len() implies (#[trigger] records[a]).0@
            != (#[trigger] records[b]).0@ by {
            assert(entries[a].uuid != entries[b].uuid);
        }
        let wanted = store@.accounts.map_values(|account: AccountView| record_of(account));
        assert forall|uuid: Seq<char>| members_of(records@).contains_key(uuid)
            == wanted.contains_key(uuid) by {
            if names(records@, uuid) {
                let k = choose|k: int| 0 <= k < records.len() && (#[trigger] records[k]).0@ == uuid;
                assert(entries[k].uuid == uuid);
            }
            if listed(entries, uuid) {
                let k = choose|k: int|
                    0 <= k < entries.len() && (#[trigger] entries[k]).uuid == uuid;
                assert(records[k].0@ == uuid);
            }
        }
        assert forall|uuid: Seq<char>| members_of(records@).contains_key(uuid) implies members_of(
            records@,
        )[uuid] == wanted[uuid] by {
            let k = choose|k: int| 0 <= k < records.len() && (#[trigger] records[k]).0@ == uuid;
            lemma_member_at(records@, k);
            lemma_record_at(entries, k);
        }
        assert(members_of(records@) =~= wanted);
    }
    let mut pairs: Vec<(String, serde_json::Value)> = Vec::new();
    pairs.push(("accounts".to_owned(), object_value(records)));
    pairs.push(
        ("active_account_uuid".to_owned(), optional_text_value(store.active_account_uuid())),
    );
    proof {
        lemma_document_names();
        assert(distinct_names(pairs@));
        lemma_member_at(pairs@, 0);
        lemma_member_at(pairs@, 1);
        assert forall|name: Seq<char>|
            members_of(pairs@).contains_key(name) implies document_members(store@).contains_key(
            name,
        ) by {
            let k = choose|k: int| 0 <= k < pairs@.len() && (#[trigger] pairs@[k]).0@ == name;
            assert(0 <= k < 2);
        }
        assert(members_of(pairs@) =~= document_members(store@));
    }
    object_value(pairs)
}

} // verus!
