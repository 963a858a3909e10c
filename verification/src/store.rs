//! The account store: every account, filed under its uuid, and the choice
//! of the one active account.

use vstd::prelude::*;
use crate::account::{
    copy_opt_text, opt_account, opt_text, Account, AccountSummary, AccountView, SummaryView,
};
use crate::error::AccountError;
use crate::records::{
    account_map, distinct_uuids, lemma_account_map_finite, lemma_account_map_keys,
    lemma_account_map_remove, lemma_record_at, lemma_uuid_at, lemma_uuids_remove,
    lemma_uuids_without, listed, position, put, uuids, views,
};
use crate::text::same_text;

verus! {

/// Whether an account last used at `first` may be listed before one last
/// used at `second`: the more recently used first, the never used last.
pub open spec fn listed_before(first: Option<i64>, second: Option<i64>) -> bool {
    match (first, second) {
        (Some(a), Some(b)) => a >= b,
        (Some(_), None) => true,
        (None, Some(_)) => false,
        (None, None) => true,
    }
}

/// Whether an account last used at `first` may be listed before one last
/// used at `second`.
fn goes_before(first: Option<i64>, second: Option<i64>) -> (before: bool)
    ensures
        before == listed_before(first, second),
{
    match (first, second) {
        (Some(a), Some(b)) => a >= b,
        (Some(_), None) => true,
        (None, Some(_)) => false,
        (None, None) => true,
    }
}

/// Whether `value` is an element of `values`.
spec fn occurs(values: Seq<int>, value: int) -> bool {
    exists|k: int| 0 <= k < values.len() && #[trigger] values[k] == value
}

/// The values of a sequence of summaries.
pub open spec fn summaries(listing: Seq<AccountSummary>) -> Seq<SummaryView> {
    listing.map_values(|s: AccountSummary| s@)
}

/// Whether accounts that were last used at the same instant stand in
/// `listing` in the order in which `order` names them.
pub open spec fn keeps_order(order: Seq<Seq<char>>, listing: Seq<SummaryView>) -> bool {
    forall|i: int, j: int|
        0 <= i < j < listing.len() && (#[trigger] listing[i]).last_used == (
        #[trigger] listing[j]).last_used ==> order.index_of(listing[i].uuid) < order.index_of(
            listing[j].uuid,
        )
}

/// The first uuid of `order`, if there is one.
pub open spec fn first_of(order: Seq<Seq<char>>) -> Option<Seq<char>> {
    if order.len() > 0 {
        Some(order[0])
    } else {
        None
    }
}

/// The account that is added at `now` with these credentials.
pub open spec fn new_account(
    uuid: Seq<char>,
    username: Seq<char>,
    access_token: Seq<char>,
    refresh_token: Option<Seq<char>>,
    expires_at: i64,
    now: i64,
) -> AccountView {
    AccountView {
        uuid,
        username,
        access_token,
        refresh_token,
        expires_at,
        added_at: now,
        last_used: Some(now),
    }
}

/// The accounts of a store and its active account, as mathematical values.
pub struct StoreView {
    /// Every account, filed under its uuid.
    pub accounts: Map<Seq<char>, AccountView>,
    /// The uuid of the active account, if one is chosen.
    pub active: Option<Seq<char>>,
}

impl StoreView {
    /// The store that holds nothing.
    pub open spec fn empty() -> StoreView {
        StoreView { accounts: Map::empty(), active: None }
    }

    /// What holds of every store: it has finitely many accounts, each filed
    /// under its own uuid, and the active uuid, if set, is one of them.
    pub open spec fn valid(self) -> bool {
        &&& self.accounts.dom().finite()
        &&& forall|uuid: Seq<char>| #[trigger]
            self.accounts.contains_key(uuid) ==> self.accounts[uuid].uuid == uuid
        &&& (self.active matches Some(uuid) ==> self.accounts.contains_key(uuid))
    }

    /// Whether the store holds no account at all.
    pub open spec fn is_empty(self) -> bool {
        forall|uuid: Seq<char>| !self.accounts.contains_key(uuid)
    }

    /// The active account, if one is chosen.
    pub open spec fn active_account(self) -> Option<AccountView> {
        match self.active {
            Some(uuid) => Some(self.accounts[uuid]),
            None => None,
        }
    }

    /// Whether `listing` lists the store: the summary of every account,
    /// each once, the more recently used first and the never used last.
    pub open spec fn is_listing(self, listing: Seq<SummaryView>) -> bool {
        &&& forall|i: int|
            0 <= i < listing.len() ==> self.accounts.contains_key((#[trigger] listing[i]).uuid)
                && listing[i] == self.accounts[listing[i].uuid].summary(
                self.active == Some(listing[i].uuid),
            )
        &&& forall|i: int, j: int|
            0 <= i < j < listing.len() ==> (#[trigger] listing[i]).uuid != (
            #[trigger] listing[j]).uuid
        &&& forall|uuid: Seq<char>| #[trigger]
            self.accounts.contains_key(uuid) ==> exists|i: int|
                0 <= i < listing.len() && (#[trigger] listing[i]).uuid == uuid
        &&& forall|i: int, j: int|
            0 <= i < j < listing.len() ==> listed_before(
                (#[trigger] listing[i]).last_used,
                (#[trigger] listing[j]).last_used,
            )
    }

    /// The store with `account` filed under its uuid, the choice of the
    /// active account left as it is.
    pub open spec fn with_account(self, account: AccountView) -> StoreView {
        StoreView { accounts: self.accounts.insert(account.uuid, account), active: self.active }
    }

    /// The store after `account` is added: filed under its uuid, and made
    /// active if no account was.
    pub open spec fn added(self, account: AccountView) -> StoreView {
        StoreView {
            accounts: self.accounts.insert(account.uuid, account),
            active: if self.active is None {
                Some(account.uuid)
            } else {
                self.active
            },
        }
    }

    /// The store after the account `uuid` is made active at `now`.
    pub open spec fn activated(self, uuid: Seq<char>, now: i64) -> StoreView {
        StoreView {
            accounts: self.accounts.insert(
                uuid,
                AccountView { last_used: Some(now), ..self.accounts[uuid] },
            ),
            active: Some(uuid),
        }
    }

    /// Whether `after` is this store with the account `uuid` removed.
    ///
    /// If that account was the active one, any remaining account may have
    /// become active; none is active only when none remains.
    pub open spec fn removed(self, uuid: Seq<char>, after: StoreView) -> bool {
        &&& after.accounts == self.accounts.remove(uuid)
        &&& if self.active == Some(uuid) {
            match after.active {
                Some(next) => after.accounts.contains_key(next),
                None => after.is_empty(),
            }
        } else {
            after.active == self.active
        }
    }
}

/// A change of the store by one of the two calls that add and remove
/// accounts.
pub enum Change {
    /// An account is added, or overwrites the one with its uuid.
    Add(AccountView),
    /// The account with this uuid is removed.
    Remove(Seq<char>),
}

impl StoreView {
    /// Whether `change` may lead from this store to `after`.
    pub open spec fn step(self, change: Change, after: StoreView) -> bool {
        match change {
            Change::Add(account) => after == self.added(account),
            Change::Remove(uuid) => self.removed(uuid, after),
        }
    }
}

/// Adding an account keeps a valid store valid.
pub proof fn lemma_added_is_valid(store: StoreView, account: AccountView)
    requires
        store.valid(),
    ensures
        store.added(account).valid(),
{
}

/// Removing an account keeps a valid store valid: the active uuid never
/// dangles.
pub proof fn lemma_removed_is_valid(store: StoreView, uuid: Seq<char>, after: StoreView)
    requires
        store.valid(),
        store.removed(uuid, after),
    ensures
        after.valid(),
{
}

/// Whatever accounts are added and removed, in whatever order, starting
/// from the empty store: the store is valid after each step.
pub proof fn lemma_every_step_is_valid(states: Seq<StoreView>, changes: Seq<Change>)
    requires
        states.len() == changes.len() + 1,
        states[0] == StoreView::empty(),
        forall|i: int|
            0 <= i < changes.len() ==> states[i].step(#[trigger] changes[i], states[i + 1]),
    ensures
        forall|i: int| 0 <= i < states.len() ==> (#[trigger] states[i]).valid(),
    decreases changes.len(),
{
    if changes.len() > 0 {
        let n = changes.len() - 1;
        lemma_every_step_is_valid(states.drop_last(), changes.drop_last());
        assert(states.drop_last()[n].valid());
        assert(states[n].step(changes[n], states[n + 1]));
        match changes[n] {
            Change::Add(account) => lemma_added_is_valid(states[n], account),
            Change::Remove(uuid) => lemma_removed_is_valid(states[n], uuid, states[n + 1]),
        }
        assert forall|i: int| 0 <= i < states.len() implies (#[trigger] states[i]).valid() by {
            if i <= n {
                assert(states.drop_last()[i].valid());
            }
        }
    }
}

/// Right after an account is made active, the active account is that
/// account, last used at the instant of the call.
pub proof fn lemma_activated_is_active(store: StoreView, uuid: Seq<char>, now: i64)
    requires
        store.valid(),
        store.accounts.contains_key(uuid),
    ensures
        store.activated(uuid, now).valid(),
        store.activated(uuid, now).active_account() == Some(
            AccountView { last_used: Some(now), ..store.accounts[uuid] },
        ),
        store.activated(uuid, now).active_account()->0.uuid == uuid,
{
}

/// Removing the active account leaves no account active if it was the
/// only one, and otherwise another account that the store holds.
pub proof fn lemma_removing_the_active(store: StoreView, uuid: Seq<char>, after: StoreView)
    requires
        store.valid(),
        store.active == Some(uuid),
        store.removed(uuid, after),
    ensures
        (forall|other: Seq<char>| store.accounts.contains_key(other) ==> other == uuid)
            ==> after.active is None,
        (exists|other: Seq<char>| store.accounts.contains_key(other) && other != uuid)
            ==> after.active is Some && after.active->0 != uuid && store.accounts.contains_key(
            after.active->0,
        ) && after.accounts.contains_key(after.active->0),
{
    if exists|other: Seq<char>| store.accounts.contains_key(other) && other != uuid {
        let other = choose|other: Seq<char>| store.accounts.contains_key(other) && other != uuid;
        assert(after.accounts.contains_key(other));
    }
}

/// Every account and the choice of the active one.
///
/// No two accounts share a uuid, and the active uuid, when set, is that of
/// an account in the store.
#[derive(Debug)]
pub struct AccountStore {
    accounts: Vec<Account>,
    active_account_uuid: Option<String>,
}

impl View for AccountStore {
    type V = StoreView;

    closed spec fn view(&self) -> StoreView {
        StoreView {
            accounts: account_map(views(self.accounts@)),
            active: opt_text(self.active_account_uuid),
        }
    }
}

impl AccountStore {
    #[verifier::type_invariant]
    pub(crate) closed spec fn well_formed(&self) -> bool {
        &&& distinct_uuids(views(self.accounts@))
        &&& (self.active_account_uuid matches Some(uuid) ==> listed(views(self.accounts@), uuid@))
    }

    /// The uuids of the accounts, in the order in which the store keeps
    /// them.
    pub closed spec fn order(&self) -> Seq<Seq<char>> {
        uuids(views(self.accounts@))
    }

    /// The order after an account with `uuid` is filed: a uuid that is new
    /// to the store comes last, one that the store holds stays where it is.
    pub open spec fn order_with(&self, uuid: Seq<char>) -> Seq<Seq<char>> {
        if self@.accounts.contains_key(uuid) {
            self.order()
        } else {
            self.order().push(uuid)
        }
    }

    /// The order names every account of the store once.
    proof fn lemma_order(&self)
        requires
            self.well_formed(),
        ensures
            self.order().no_duplicates(),
            forall|uuid: Seq<char>|
                self@.accounts.contains_key(uuid) <==> self.order().contains(uuid),
    {
        let records = views(self.accounts@);
        let order = self.order();
        assert forall|i: int, j: int| 0 <= i < order.len() && 0 <= j < order.len() && i
            != j implies order[i] != order[j] by {
            if i < j {
                assert(records[i].uuid != records[j].uuid);
            } else {
                assert(records[j].uuid != records[i].uuid);
            }
        }
        assert forall|uuid: Seq<char>| self@.accounts.contains_key(uuid) <==> order.contains(
            uuid,
        ) by {
            if listed(records, uuid) {
                let i = choose|i: int|
                    0 <= i < records.len() && (#[trigger] records[i]).uuid == uuid;
                assert(order[i] == uuid);
            }
            if order.contains(uuid) {
                let i = choose|i: int| 0 <= i < order.len() && order[i] == uuid;
                assert(records[i].uuid == uuid);
            }
        }
    }

    /// What the invariant of the representation means for the view.
    pub(crate) proof fn lemma_valid(&self)
        requires
            self.well_formed(),
        ensures
            self@.valid(),
    {
        lemma_account_map_finite(views(self.accounts@));
        lemma_account_map_keys(views(self.accounts@));
    }

    /// The store that holds nothing.
    pub fn new() -> (store: AccountStore)
        ensures
            store@ == StoreView::empty(),
            store.order() == Seq::<Seq<char>>::empty(),
            store@.valid(),
    {
        let store = AccountStore { accounts: Vec::new(), active_account_uuid: None };
        proof {
            assert(store@.accounts =~= Map::<Seq<char>, AccountView>::empty());
            assert(store.order() =~= Seq::<Seq<char>>::empty());
            store.lemma_valid();
        }
        store
    }

    /// Whether the store holds an account with this uuid.
    pub fn account_exists(&self, uuid: &str) -> (exists: bool)
        ensures
            exists == self@.accounts.contains_key(uuid@),
            self@.valid(),
    {
        proof {
            use_type_invariant(self);
            self.lemma_valid();
        }
        position(&self.accounts, uuid).is_some()
    }

    /// The accounts of the store, in the order in which it keeps them.
    pub fn accounts(&self) -> (entries: &Vec<Account>)
        ensures
            distinct_uuids(views(entries@)),
            account_map(views(entries@)) == self@.accounts,
            uuids(views(entries@)) == self.order(),
            self.order().no_duplicates(),
            forall|uuid: Seq<char>|
                self@.accounts.contains_key(uuid) <==> self.order().contains(uuid),
            self@.valid(),
    {
        proof {
            use_type_invariant(self);
            self.lemma_valid();
            self.lemma_order();
        }
        &self.accounts
    }

    /// The uuid of the active account, if one is chosen.
    pub fn active_account_uuid(&self) -> (uuid: &Option<String>)
        ensures
            opt_text(*uuid) == self@.active,
            self@.valid(),
    {
        proof {
            use_type_invariant(self);
            self.lemma_valid();
        }
        &self.active_account_uuid
    }

    /// The store that holds `accounts` and has `active` as its active uuid.
    ///
    /// Fails with `StoreCorrupt` if two of the accounts share a uuid, or if
    /// `active` names none of them.
    pub fn restore(accounts: Vec<Account>, active: Option<String>) -> (result: Result<
        AccountStore,
        AccountError,
    >)
        ensures
            result is Ok <==> distinct_uuids(views(accounts@)) && (active matches Some(uuid)
                ==> listed(views(accounts@), uuid@)),
            result matches Ok(store) ==> store@ == (StoreView {
                accounts: account_map(views(accounts@)),
                active: opt_text(active),
            }) && store.order() == uuids(views(accounts@)) && store@.valid(),
            result matches Err(e) ==> e == AccountError::StoreCorrupt,
    {
        let ghost records = views(accounts@);
        let mut j: usize = 0;
        while j < accounts.len()
            invariant
                j <= accounts.len(),
                records == views(accounts@),
                forall|a: int, b: int|
                    0 <= a < b < j ==> (#[trigger] records[a]).uuid != (#[trigger] records[b]).uuid,
            decreases accounts.len() - j,
        {
            let mut i: usize = 0;
            while i < j
                invariant
                    i <= j,
                    j < accounts.len(),
                    records == views(accounts@),
                    forall|a: int|
                        0 <= a < i ==> (#[trigger] records[a]).uuid != records[j as int].uuid,
                decreases j - i,
            {
                if same_text(accounts[i].uuid.as_str(), accounts[j].uuid.as_str()) {
                    assert(records[i as int].uuid == records[j as int].uuid);
                    return Err(AccountError::StoreCorrupt);
                }
                i += 1;
            }
            j += 1;
        }
        let known = match &active {
            Some(uuid) => position(&accounts, uuid.as_str()).is_some(),
            None => true,
        };
        if !known {
            return Err(AccountError::StoreCorrupt);
        }
        let store = AccountStore { accounts, active_account_uuid: active };
        proof {
            store.lemma_valid();
        }
        Ok(store)
    }

    /// Moves the accounts and the active uuid out, leaving the store empty.
    fn take_parts(&mut self) -> (parts: (Vec<Account>, Option<String>))
        ensures
            parts.0 == old(self).accounts,
            parts.1 == old(self).active_account_uuid,
    {
        proof {
            use_type_invariant(&*self);
        }
        let mut accounts: Vec<Account> = Vec::new();
        let mut active: Option<String> = None;
        std::mem::swap(&mut active, &mut self.active_account_uuid);
        std::mem::swap(&mut accounts, &mut self.accounts);
        (accounts, active)
    }

    /// The account with this uuid, if the store holds one.
    pub fn get_account(&self, uuid: &str) -> (account: Option<Account>)
        ensures
            opt_account(account) == if self@.accounts.contains_key(uuid@) {
                Some(self@.accounts[uuid@])
            } else {
                None
            },
            self@.valid(),
    {
        proof {
            use_type_invariant(self);
            self.lemma_valid();
        }
        match position(&self.accounts, uuid) {
            Some(i) => {
                proof {
                    lemma_record_at(views(self.accounts@), i as int);
                }
                Some(self.accounts[i].clone())
            },
            None => None,
        }
    }

    /// The active account, if one is chosen.
    pub fn get_active_account(&self) -> (account: Option<Account>)
        ensures
            opt_account(account) == self@.active_account(),
            self@.valid(),
    {
        proof {
            use_type_invariant(self);
            self.lemma_valid();
        }
        match &self.active_account_uuid {
            Some(uuid) => self.get_account(uuid.as_str()),
            None => None,
        }
    }

    /// The summary of every account, the more recently used first and the
    /// never used last; accounts that were last used at the same instant
    /// stand in the order in which the store keeps them.
    pub fn get_all_accounts(&self) -> (listing: Vec<AccountSummary>)
        ensures
            self@.is_listing(summaries(listing@)),
            keeps_order(self.order(), summaries(listing@)),
            listing.len() == self.order().len(),
            self@.valid(),
    {
        proof {
            use_type_invariant(self);
            self.lemma_valid();
        }
        let ghost records = views(self.accounts@);
        let ghost active = self@.active;
        let mut out: Vec<AccountSummary> = Vec::new();
        // origin[k] is the position in the store of the account that out[k] sums up
        let ghost mut origin: Seq<int> = Seq::empty();
        let mut n: usize = 0;
        while n < self.accounts.len()
            invariant
                n <= self.accounts.len(),
                records == views(self.accounts@),
                active == opt_text(self.active_account_uuid),
                origin.len() == out.len(),
                out.len() == n,
                forall|k: int|
                    0 <= k < out.len() ==> 0 <= #[trigger] origin[k] < n && out[k]@
                        == records[origin[k]].summary(active == Some(records[origin[k]].uuid)),
                forall|k: int, l: int|
                    0 <= k < l < out.len() ==> #[trigger] origin[k] != #[trigger] origin[l],
                forall|m: int| 0 <= m < n ==> #[trigger] occurs(origin, m),
                forall|k: int, l: int|
                    0 <= k < l < out.len() ==> listed_before(
                        (#[trigger] out[k]).last_used,
                        (#[trigger] out[l]).last_used,
                    ),
                forall|k: int, l: int|
                    0 <= k < l < out.len() && (#[trigger] out[k]).last_used == (
                    #[trigger] out[l]).last_used ==> origin[k] < origin[l],
            decreases self.accounts.len() - n,
        {
            let account = &self.accounts[n];
            let is_active = match &self.active_account_uuid {
                Some(chosen) => same_text(chosen.as_str(), account.uuid.as_str()),
                None => false,
            };
            let summary = account.summary(is_active);
            let mut at: usize = 0;
            while at < out.len() && goes_before(out[at].last_used, summary.last_used)
                invariant
                    at <= out.len(),
                    forall|k: int|
                        0 <= k < at ==> listed_before(
                            (#[trigger] out[k]).last_used,
                            summary.last_used,
                        ),
                decreases out.len() - at,
            {
                at += 1;
            }
            let ghost before = out@;
            let ghost origin_before = origin;
            let ghost added = summary;
            out.insert(at, summary);
            proof {
                origin = origin_before.insert(at as int, n as int);
                assert forall|m: int| 0 <= m < n + 1 implies #[trigger] occurs(origin, m) by {
                    if m == n {
                        assert(origin[at as int] == m);
                    } else {
                        assert(occurs(origin_before, m));
                        let k = choose|k: int|
                            0 <= k < origin_before.len() && #[trigger] origin_before[k] == m;
                        if k < at {
                            assert(origin[k] == m);
                        } else {
                            assert(origin[k + 1] == m);
                        }
                    }
                }
                assert forall|k: int, l: int| 0 <= k < l < out.len() implies listed_before(
                    (#[trigger] out[k]).last_used,
                    (#[trigger] out[l]).last_used,
                ) && (out[k].last_used == out[l].last_used ==> origin[k] < origin[l]) by {
                    if l < at {
                        assert(out[k] == before[k] && out[l] == before[l]);
                    } else if l == at {
                        assert(out[k] == before[k]);
                    } else if k < at {
                        assert(out[k] == before[k] && out[l] == before[l - 1]);
                    } else if k == at {
                        assert(out[l] == before[l - 1]);
                        assert(!listed_before(before[at as int].last_used, added.last_used));
                        if l - 1 > at {
                            assert(listed_before(
                                before[at as int].last_used,
                                before[l - 1].last_used,
                            ));
                        }
                    } else {
                        assert(out[k] == before[k - 1] && out[l] == before[l - 1]);
                    }
                }
            }
            n += 1;
        }
        proof {
            let listing = summaries(out@);
            assert forall|i: int| 0 <= i < listing.len() implies self@.accounts.contains_key(
                (#[trigger] listing[i]).uuid,
            ) && listing[i] == self@.accounts[listing[i].uuid].summary(
                self@.active == Some(listing[i].uuid),
            ) by {
                lemma_record_at(records, origin[i]);
            }
            assert forall|i: int, j: int| 0 <= i < j < listing.len() implies (
            #[trigger] listing[i]).uuid != (#[trigger] listing[j]).uuid by {
                if origin[i] < origin[j] {
                    assert(records[origin[i]].uuid != records[origin[j]].uuid);
                } else {
                    assert(records[origin[j]].uuid != records[origin[i]].uuid);
                }
            }
            assert forall|uuid: Seq<char>| #[trigger]
                self@.accounts.contains_key(uuid) implies exists|i: int|
                0 <= i < listing.len() && (#[trigger] listing[i]).uuid == uuid by {
                let m = choose|m: int|
                    0 <= m < records.len() && (#[trigger] records[m]).uuid == uuid;
                assert(occurs(origin, m));
                let k = choose|k: int| 0 <= k < origin.len() && #[trigger] origin[k] == m;
                assert(listing[k].uuid == uuid);
            }
            assert forall|i: int, j: int| 0 <= i < j < listing.len() implies listed_before(
                (#[trigger] listing[i]).last_used,
                (#[trigger] listing[j]).last_used,
            ) by {
                assert(listed_before(out[i].last_used, out[j].last_used));
            }
            assert forall|i: int, j: int|
                0 <= i < j < listing.len() && (#[trigger] listing[i]).last_used == (
                #[trigger] listing[j]).last_used implies self.order().index_of(listing[i].uuid)
                < self.order().index_of(listing[j].uuid) by {
                assert(out[i].last_used == out[j].last_used);
                lemma_uuid_at(records, origin[i]);
                lemma_uuid_at(records, origin[j]);
            }
        }
        out
    }

    /// Files `account` under its uuid, in place of any account that had it.
    /// The choice of the active account stays as it is.
    pub fn insert(&mut self, account: Account)
        ensures
            final(self)@ == old(self)@.with_account(account@),
            final(self).order() == old(self).order_with(account.uuid@),
            final(self)@.valid(),
    {
        proof {
            use_type_invariant(&*self);
            self.lemma_order();
        }
        let (mut accounts, active) = self.take_parts();
        put(&mut accounts, account);
        *self = AccountStore { accounts, active_account_uuid: active };
        proof {
            self.lemma_valid();
        }
    }

    /// Adds an account, or overwrites the one with the same uuid; if no
    /// account was active, this one becomes active.
    ///
    /// The account counts as added and last used at `now`.
    pub fn add_account(
        &mut self,
        uuid: String,
        username: String,
        access_token: String,
        refresh_token: Option<String>,
        expires_at: i64,
        now: i64,
    )
        ensures
            final(self)@ == old(self)@.added(
                new_account(
                    uuid@,
                    username@,
                    access_token@,
                    opt_text(refresh_token),
                    expires_at,
                    now,
                ),
            ),
            final(self).order() == old(self).order_with(uuid@),
            final(self)@.valid(),
    {
        proof {
            use_type_invariant(&*self);
            self.lemma_order();
        }
        let (mut accounts, active) = self.take_parts();
        let first = if active.is_none() {
            Some(uuid.clone())
        } else {
            active
        };
        let account = Account {
            uuid,
            username,
            access_token,
            refresh_token,
            expires_at,
            added_at: now,
            last_used: Some(now),
        };
        put(&mut accounts, account);
        *self = AccountStore { accounts, active_account_uuid: first };
        proof {
            self.lemma_valid();
        }
    }

    /// Removes the account with this uuid; a uuid that the store does not
    /// hold changes nothing.
    ///
    /// If the account was the active one, a remaining account becomes
    /// active, or none if none remains.
    pub fn remove_account(&mut self, uuid: &str)
        ensures
            old(self)@.removed(uuid@, final(self)@),
            final(self).order() == old(self).order().remove_value(uuid@),
            old(self)@.active == Some(uuid@) ==> final(self)@.active == first_of(
                final(self).order(),
            ),
            final(self)@.valid(),
    {
        proof {
            use_type_invariant(&*self);
        }
        let (mut accounts, mut active) = self.take_parts();
        let ghost before = views(accounts@);
        match position(&accounts, uuid) {
            Some(i) => {
                accounts.remove(i);
                proof {
                    assert(views(accounts@) =~= before.remove(i as int));
                    lemma_account_map_remove(before, i as int);
                    lemma_uuids_remove(before, i as int);
                }
            },
            None => {
                proof {
                    assert(account_map(before).remove(uuid@) =~= account_map(before));
                    lemma_uuids_without(before, uuid@);
                }
            },
        }
        let was_active = match &active {
            Some(chosen) => same_text(chosen.as_str(), uuid),
            None => false,
        };
        if was_active {
            if accounts.len() > 0 {
                proof {
                    lemma_record_at(views(accounts@), 0);
                }
                active = Some(accounts[0].uuid.clone());
            } else {
                active = None;
            }
        } else {
            proof {
                if active is Some {
                    let chosen = active->0@;
                    assert(account_map(before).contains_key(chosen));
                    assert(account_map(views(accounts@)).contains_key(chosen));
                }
            }
        }
        *self = AccountStore { accounts, active_account_uuid: active };
        proof {
            self.lemma_valid();
        }
    }

    /// Makes the account with this uuid the active one and records `now`
    /// as the instant it was last used.
    ///
    /// Fails with `AccountNotFound`, changing nothing, if the store holds
    /// no such account.
    pub fn set_active_account(&mut self, uuid: &str, now: i64) -> (result: Result<
        (),
        AccountError,
    >)
        ensures
            result is Ok <==> old(self)@.accounts.contains_key(uuid@),
            result is Err ==> result == Err::<(), AccountError>(AccountError::AccountNotFound)
                && final(self)@ == old(self)@,
            result is Ok ==> final(self)@ == old(self)@.activated(uuid@, now),
            final(self).order() == old(self).order(),
            final(self)@.valid(),
    {
        proof {
            use_type_invariant(&*self);
            self.lemma_valid();
            self.lemma_order();
        }
        match position(&self.accounts, uuid) {
            None => Err(AccountError::AccountNotFound),
            Some(i) => {
                let (mut accounts, _) = self.take_parts();
                proof {
                    lemma_record_at(views(accounts@), i as int);
                }
                let mut account = accounts[i].clone();
                account.last_used = Some(now);
                let chosen = account.uuid.clone();
                put(&mut accounts, account);
                *self = AccountStore { accounts, active_account_uuid: Some(chosen) };
                proof {
                    self.lemma_valid();
                }
                Ok(())
            },
        }
    }
}

impl Clone for AccountStore {
    fn clone(&self) -> (copy: Self)
        ensures
            copy@ == self@,
            copy.order() == self.order(),
    {
        proof {
            use_type_invariant(self);
        }
        let mut accounts: Vec<Account> = Vec::new();
        let mut i: usize = 0;
        while i < self.accounts.len()
            invariant
                i <= self.accounts.len(),
                accounts@ == self.accounts@.subrange(0, i as int),
            decreases self.accounts.len() - i,
        {
            accounts.push(self.accounts[i].clone());
            proof {
                assert(accounts@ =~= self.accounts@.subrange(0, i + 1));
            }
            i += 1;
        }
        proof {
            assert(accounts@ =~= self.accounts@);
        }
        AccountStore { accounts, active_account_uuid: copy_opt_text(&self.active_account_uuid) }
    }
}

} // verus!
