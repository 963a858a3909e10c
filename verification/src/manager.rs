//! The facade over the one store of a process.
//!
//! Every change is made by [`AccountManager::with_store_mut`]: the change
//! is computed from the store as it stands, handed over to be
//! persisted, and takes effect in memory only once that has succeeded.
//! Exclusive access is the `&mut` borrow of the manager; a process that
//! shares the manager among threads keeps it behind a lock.

use vstd::prelude::*;
use crate::account::{opt_account, opt_text, Account, AccountSummary, AccountView};
use crate::clock::unix_now;
use crate::error::AccountError;
use crate::persistence::{change_ended, handed_over, rendering_of, reported};
use crate::refresh::{
    answer, expiry, renew_tokens, revoke_refresh_token, settled, RefreshOutcome,
};
use crate::store::{first_of, keeps_order, new_account, summaries, AccountStore, StoreView};
use crate::tickets::{
    pending_after, planned_step, refresh_step, registered, step_view, RefreshTickets, TokenStep,
};

verus! {

/// Whether the refresh whose outcome calls for the answer `wanted` and
/// the store `next` ended as `result` says, the store left as `after`.
///
/// The account with its new token is handed out once the store that
/// holds it is committed; if that fails the result is `IoFailure` and the
/// store is left as it was. An error is handed on as it is; the store is as it was, unless the
/// error calls for a change and the change was committed.
pub open spec fn refresh_ended<P: FnOnce(&str) -> bool>(
    persist: P,
    before: StoreView,
    wanted: Result<AccountView, AccountError>,
    next: StoreView,
    after: StoreView,
    result: Result<Account, AccountError>,
) -> bool {
    match wanted {
        Ok(account) => change_ended(persist, before, next, after, result) && (result matches Ok(
            handed,
        ) ==> handed@ == account),
        Err(e) => result == Err::<Account, AccountError>(e) && if next == before {
            after == before
        } else {
            exists|committed: bool| #[trigger]
                handed_over(persist, next, committed) && after == if committed {
                    next
                } else {
                    before
                }
        },
    }
}

/// The store and the refreshes under way, as mathematical values.
pub struct ManagerView {
    pub store: StoreView,
    pub pending: Set<Seq<char>>,
}

/// The one in-memory store of a process and the tickets of the refreshes
/// under way.
#[derive(Debug)]
pub struct AccountManager {
    store: AccountStore,
    tickets: RefreshTickets,
}

impl View for AccountManager {
    type V = ManagerView;

    closed spec fn view(&self) -> ManagerView {
        ManagerView { store: self.store@, pending: self.tickets@ }
    }
}

impl AccountManager {
    /// The store as it stands in memory.
    pub closed spec fn current(&self) -> AccountStore {
        self.store
    }

    /// A manager over `store`, with no refresh under way.
    pub fn new(store: AccountStore) -> (manager: AccountManager)
        ensures
            manager.current() == store,
            manager@.store == store@,
            manager@.pending == Set::<Seq<char>>::empty(),
    {
        AccountManager { store, tickets: RefreshTickets::new() }
    }

    /// The store as it stands in memory.
    pub fn store(&self) -> (store: &AccountStore)
        ensures
            *store == self.current(),
            store@ == self@.store,
    {
        &self.store
    }

    /// Changes the store: computes the change with `change`, hands the
    /// changed store to `persist` as text, and lets the change take effect
    /// if `persist` reports that the text is written.
    ///
    /// Fails with `IoFailure`, the store in memory left as it was, if the
    /// changed store cannot be rendered or `persist` reports failure.
    pub fn with_store_mut<R, F, P>(&mut self, change: F, persist: P) -> (result: Result<
        R,
        AccountError,
    >) where F: FnOnce(&AccountStore) -> (AccountStore, R), P: FnOnce(&str) -> bool
        requires
            change.requires((&old(self).current(),)),
            forall|text: &str| persist.requires((text,)),
        ensures
            final(self)@.pending == old(self)@.pending,
            match result {
                Ok(r) => change.ensures((&old(self).current(),), (final(self).current(), r))
                    && handed_over(persist, final(self)@.store, true),
                Err(e) => e == AccountError::IoFailure && final(self).current() == old(
                    self,
                ).current() && exists|next: AccountStore, r: R| #[trigger]
                    change.ensures((&old(self).current(),), (next, r)) && handed_over(
                        persist,
                        next@,
                        false,
                    ),
            },
    {
        let (next, r) = change(&self.store);
        match AccountManager::save(&next) {
            Ok(text) => {
                let written = persist(text.as_str());
                proof {
                    assert(reported(persist, text@, written));
                    assert(rendering_of(next@, Some(text@)));
                    assert(handed_over(persist, next@, written));
                }
                if written {
                    self.store = next;
                    Ok(r)
                } else {
                    Err(AccountError::IoFailure)
                }
            },
            Err(e) => {
                proof {
                    assert(rendering_of(next@, None));
                    assert(handed_over(persist, next@, false));
                }
                Err(e)
            },
        }
    }

    /// The active account, if one is chosen.
    pub fn get_active_account(&self) -> (account: Option<Account>)
        ensures
            opt_account(account) == self@.store.active_account(),
            self@.store.valid(),
    {
        self.store.get_active_account()
    }

    /// The summary of every account, the more recently used first and the
    /// never used last; accounts that were last used at the same instant
    /// stand in the order in which the store keeps them.
    pub fn get_all_accounts(&self) -> (listing: Vec<AccountSummary>)
        ensures
            self@.store.is_listing(summaries(listing@)),
            keeps_order(self.current().order(), summaries(listing@)),
            listing.len() == self.current().order().len(),
            self@.store.valid(),
    {
        self.store.get_all_accounts()
    }

    /// Whether the store holds an account with this uuid.
    pub fn account_exists(&self, uuid: &str) -> (exists: bool)
        ensures
            exists == self@.store.accounts.contains_key(uuid@),
            self@.store.valid(),
    {
        self.store.account_exists(uuid)
    }

    /// Adds an account at the instant `now`, or overwrites the one with
    /// the same uuid; if no account was active, this one becomes active.
    ///
    /// Fails with `IoFailure`, nothing changed, if the store could not be
    /// persisted.
    pub fn add_account_at<P>(
        &mut self,
        uuid: String,
        username: String,
        access_token: String,
        refresh_token: Option<String>,
        expires_at: i64,
        now: i64,
        persist: P,
    ) -> (result: Result<(), AccountError>) where P: FnOnce(&str) -> bool
        requires
            forall|text: &str| persist.requires((text,)),
        ensures
            final(self)@.pending == old(self)@.pending,
            change_ended(
                persist,
                old(self)@.store,
                old(self)@.store.added(
                    new_account(
                        uuid@,
                        username@,
                        access_token@,
                        opt_text(refresh_token),
                        expires_at,
                        now,
                    ),
                ),
                final(self)@.store,
                result,
            ),
            result is Ok ==> final(self).current().order() == old(self).current().order_with(
                uuid@,
            ),
            result is Err ==> final(self).current() == old(self).current(),
            final(self)@.store.valid(),
    {
        let ghost account = new_account(
            uuid@,
            username@,
            access_token@,
            opt_text(refresh_token),
            expires_at,
            now,
        );
        let change = move |store: &AccountStore| -> (out: (AccountStore, ()))
            ensures
                out.0@ == store@.added(account),
                out.0.order() == store.order_with(account.uuid),
            {
                let mut next = store.clone();
                next.add_account(uuid, username, access_token, refresh_token, expires_at, now);
                (next, ())
            };
        let result = self.with_store_mut(change, persist);
        proof {
            use_type_invariant(&self.store);
            self.store.lemma_valid();
        }
        result
    }

    /// Adds an account now, or overwrites the one with the same uuid; if
    /// no account was active, this one becomes active.
    ///
    /// The account counts as added and last used at the instant that the
    /// clock tells. Fails with `IoFailure`, nothing changed, if the store
    /// could not be persisted.
    pub fn add_account<P>(
        &mut self,
        uuid: String,
        username: String,
        access_token: String,
        refresh_token: Option<String>,
        expires_at: i64,
        persist: P,
    ) -> (result: Result<(), AccountError>) where P: FnOnce(&str) -> bool
        requires
            forall|text: &str| persist.requires((text,)),
        ensures
            final(self)@.pending == old(self)@.pending,
            exists|now: i64|
                change_ended(
                    persist,
                    old(self)@.store,
                    old(self)@.store.added(
                        #[trigger] new_account(
                            uuid@,
                            username@,
                            access_token@,
                            opt_text(refresh_token),
                            expires_at,
                            now,
                        ),
                    ),
                    final(self)@.store,
                    result,
                ),
            result is Ok ==> final(self).current().order() == old(self).current().order_with(
                uuid@,
            ),
            result is Err ==> final(self).current() == old(self).current(),
            final(self)@.store.valid(),
    {
        let now = unix_now();
        self.add_account_at(uuid, username, access_token, refresh_token, expires_at, now, persist)
    }

    /// Removes the account with this uuid; a uuid that the store does not
    /// hold changes nothing. If the account was the active one, a
    /// remaining account becomes active, or none if none remains.
    ///
    /// Fails with `IoFailure`, nothing changed, if the store could not be
    /// persisted.
    pub fn remove_account<P>(&mut self, uuid: &str, persist: P) -> (result: Result<
        (),
        AccountError,
    >) where P: FnOnce(&str) -> bool
        requires
            forall|text: &str| persist.requires((text,)),
        ensures
            final(self)@.pending == old(self)@.pending,
            exists|next: StoreView|
                old(self)@.store.removed(uuid@, next) && #[trigger] change_ended(
                    persist,
                    old(self)@.store,
                    next,
                    final(self)@.store,
                    result,
                ),
            result is Ok ==> final(self).current().order() == old(
                self,
            ).current().order().remove_value(uuid@),
            result is Ok && old(self)@.store.active == Some(uuid@) ==> final(self)@.store.active
                == first_of(final(self).current().order()),
            result is Err ==> final(self).current() == old(self).current(),
            final(self)@.store.valid(),
    {
        let change = |store: &AccountStore| -> (out: (AccountStore, ()))
            ensures
                store@.removed(uuid@, out.0@),
                out.0.order() == store.order().remove_value(uuid@),
                store@.active == Some(uuid@) ==> out.0@.active == first_of(out.0.order()),
            {
                let mut next = store.clone();
                next.remove_account(uuid);
                (next, ())
            };
        let ghost computed = change;
        let result = self.with_store_mut(change, persist);
        proof {
            use_type_invariant(&self.store);
            self.store.lemma_valid();
            let before = old(self)@.store;
            if result is Ok {
                assert(change_ended(persist, before, self@.store, self@.store, result));
            } else {
                let (next, r) = choose|next: AccountStore, r: ()| #[trigger]
                    computed.ensures((&old(self).current(),), (next, r)) && handed_over(
                        persist,
                        next@,
                        false,
                    );
                assert(change_ended(persist, before, next@, self@.store, result));
            }
        }
        result
    }

    /// Makes the account with this uuid the active one and records `now`
    /// as the instant it was last used.
    ///
    /// Fails with `AccountNotFound` if the store holds no such account,
    /// and with `IoFailure` if the store could not be persisted; either
    /// way nothing is changed.
    pub fn set_active_account_at<P>(&mut self, uuid: &str, now: i64, persist: P) -> (result:
        Result<(), AccountError>) where P: FnOnce(&str) -> bool
        requires
            forall|text: &str| persist.requires((text,)),
        ensures
            final(self)@.pending == old(self)@.pending,
            if old(self)@.store.accounts.contains_key(uuid@) {
                change_ended(
                    persist,
                    old(self)@.store,
                    old(self)@.store.activated(uuid@, now),
                    final(self)@.store,
                    result,
                )
            } else {
                result == Err::<(), AccountError>(AccountError::AccountNotFound)
                    && final(self)@.store == old(self)@.store
            },
            final(self).current().order() == old(self).current().order(),
            final(self)@.store.valid(),
    {
        if !self.store.account_exists(uuid) {
            return Err(AccountError::AccountNotFound);
        }
        let change = |store: &AccountStore| -> (out: (AccountStore, ()))
            requires
                store@.accounts.contains_key(uuid@),
            ensures
                out.0@ == store@.activated(uuid@, now),
                out.0.order() == store.order(),
            {
                let mut next = store.clone();
                let _ = next.set_active_account(uuid, now);
                (next, ())
            };
        let result = self.with_store_mut(change, persist);
        proof {
            use_type_invariant(&self.store);
            self.store.lemma_valid();
        }
        result
    }

    /// Makes the account with this uuid the active one and records the
    /// instant that the clock tells as the one it was last used.
    ///
    /// Fails with `AccountNotFound` if the store holds no such account,
    /// and with `IoFailure` if the store could not be persisted; either
    /// way nothing is changed.
    pub fn set_active_account<P>(&mut self, uuid: &str, persist: P) -> (result: Result<
        (),
        AccountError,
    >) where P: FnOnce(&str) -> bool
        requires
            forall|text: &str| persist.requires((text,)),
        ensures
            final(self)@.pending == old(self)@.pending,
            if old(self)@.store.accounts.contains_key(uuid@) {
                exists|now: i64|
                    change_ended(
                        persist,
                        old(self)@.store,
                        #[trigger] old(self)@.store.activated(uuid@, now),
                        final(self)@.store,
                        result,
                    )
            } else {
                result == Err::<(), AccountError>(AccountError::AccountNotFound)
                    && final(self)@.store == old(self)@.store
            },
            final(self).current().order() == old(self).current().order(),
            final(self)@.store.valid(),
    {
        let now = unix_now();
        self.set_active_account_at(uuid, now, persist)
    }

    /// Ends the refresh of `uuid` with what came of the exchange, at the
    /// instant `now`: the store is changed as [`settled`] says, if the
    /// change could be persisted, and then the ticket is resolved.
    ///
    /// The account with its new token is handed out only once the store
    /// that holds it is persisted; if that fails the result is `IoFailure`
    /// and the store is left as it was. The failures of the exchange are handed on as they
    /// are; the store is touched by none of them but a rejected refresh
    /// token, which is taken away from the account.
    pub fn complete_refresh_at<P>(
        &mut self,
        uuid: &str,
        outcome: RefreshOutcome,
        now: i64,
        persist: P,
    ) -> (result: Result<Account, AccountError>) where P: FnOnce(&str) -> bool
        requires
            forall|text: &str| persist.requires((text,)),
        ensures
            final(self)@.pending == old(self)@.pending.remove(uuid@),
            refresh_ended(
                persist,
                old(self)@.store,
                answer(old(self)@.store, uuid@, outcome@, now),
                settled(old(self)@.store, uuid@, outcome@, now),
                final(self)@.store,
                result,
            ),
            final(self).current().order() == old(self).current().order(),
            final(self)@.store.valid(),
    {
        let result = if !self.store.account_exists(uuid) {
            match outcome {
                RefreshOutcome::Refreshed { .. } => Err(AccountError::AccountNotFound),
                RefreshOutcome::NetworkFailure => Err(AccountError::NetworkFailure),
                RefreshOutcome::InvalidRefreshToken => Err(AccountError::InvalidRefreshToken),
                RefreshOutcome::MalformedResponse => Err(AccountError::MalformedResponse),
            }
        } else {
            match outcome {
                RefreshOutcome::Refreshed { access_token, refresh_token, expires_in } => {
                    let ghost wanted = settled(old(self)@.store, uuid@, outcome@, now);
                    let expires_at = expiry(now, expires_in);
                    let ghost told = answer(old(self)@.store, uuid@, outcome@, now);
                    let change = move |store: &AccountStore| -> (out: (AccountStore, Account))
                        requires
                            store@ == old(self)@.store,
                        ensures
                            out.0@ == wanted,
                            out.0.order() == store.order(),
                            Ok::<AccountView, AccountError>(out.1@) == told,
                        {
                            let mut next = store.clone();
                            let updated = renew_tokens(
                                &mut next,
                                uuid,
                                access_token,
                                refresh_token,
                                expires_at,
                                now,
                            );
                            (next, updated.unwrap())
                        };
                    self.with_store_mut(change, persist)
                },
                RefreshOutcome::InvalidRefreshToken => {
                    let ghost wanted = settled(old(self)@.store, uuid@, outcome@, now);
                    let change = |store: &AccountStore| -> (out: (AccountStore, ()))
                        requires
                            store@ == old(self)@.store,
                        ensures
                            out.0@ == wanted,
                            out.0.order() == store.order(),
                        {
                            let mut next = store.clone();
                            revoke_refresh_token(&mut next, uuid);
                            (next, ())
                        };
                    let _ = self.with_store_mut(change, persist);
                    Err(AccountError::InvalidRefreshToken)
                },
                RefreshOutcome::NetworkFailure => Err(AccountError::NetworkFailure),
                RefreshOutcome::MalformedResponse => Err(AccountError::MalformedResponse),
            }
        };
        self.tickets.resolve(uuid);
        proof {
            use_type_invariant(&self.store);
            self.store.lemma_valid();
        }
        result
    }

    /// Ends the refresh of `uuid` with what came of the exchange, at the
    /// instant that the clock tells: see
    /// [`AccountManager::complete_refresh_at`].
    pub fn complete_refresh<P>(
        &mut self,
        uuid: &str,
        outcome: RefreshOutcome,
        persist: P,
    ) -> (result: Result<Account, AccountError>) where P: FnOnce(&str) -> bool
        requires
            forall|text: &str| persist.requires((text,)),
        ensures
            final(self)@.pending == old(self)@.pending.remove(uuid@),
            exists|now: i64|
                refresh_ended(
                    persist,
                    old(self)@.store,
                    answer(old(self)@.store, uuid@, outcome@, now),
                    #[trigger] settled(old(self)@.store, uuid@, outcome@, now),
                    final(self)@.store,
                    result,
                ),
            final(self).current().order() == old(self).current().order(),
            final(self)@.store.valid(),
    {
        let now = unix_now();
        self.complete_refresh_at(uuid, outcome, now, persist)
    }

    /// Tells a caller who is to refresh the token of `uuid` what to do:
    /// make the exchange, or join the refresh that is under way. A caller
    /// who is told to make the exchange holds the ticket for `uuid` until
    /// [`AccountManager::complete_refresh_at`] resolves it.
    ///
    /// Fails with `AccountNotFound` if the store holds no such account,
    /// and with `ReauthenticationRequired` if it has no refresh token.
    pub fn begin_refresh(&mut self, uuid: &str) -> (step: Result<TokenStep, AccountError>)
        ensures
            step_view(step) == refresh_step(old(self)@.store, old(self)@.pending, uuid@),
            final(self)@.pending == registered(
                old(self)@.pending,
                uuid@,
                refresh_step(old(self)@.store, old(self)@.pending, uuid@),
            ),
            final(self)@.store == old(self)@.store,
            final(self).current() == old(self).current(),
    {
        self.tickets.begin(&self.store, uuid)
    }

    /// Tells a caller who needs a valid token for `uuid` at `now` what to
    /// do: use the stored token, refresh it, or join the refresh that is
    /// under way. A caller who is told to refresh holds the ticket for
    /// `uuid` until [`AccountManager::complete_refresh_at`] resolves it.
    ///
    /// Fails with `AccountNotFound` if the store holds no such account,
    /// and with `ReauthenticationRequired` if its token is dead.
    pub fn get_valid_token_at(&mut self, uuid: &str, now: i64) -> (step: Result<
        TokenStep,
        AccountError,
    >)
        ensures
            step_view(step) == planned_step(old(self)@.store, old(self)@.pending, uuid@, now),
            final(self)@.pending == pending_after(
                old(self)@.store,
                old(self)@.pending,
                uuid@,
                now,
            ),
            final(self)@.store == old(self)@.store,
            final(self).current() == old(self).current(),
    {
        self.tickets.plan(&self.store, uuid, now)
    }

    /// Tells a caller who needs a valid token for `uuid` what to do, at
    /// the instant that the clock tells.
    ///
    /// Fails with `AccountNotFound` if the store holds no such account,
    /// and with `ReauthenticationRequired` if its token is dead.
    pub fn get_valid_token(&mut self, uuid: &str) -> (step: Result<TokenStep, AccountError>)
        ensures
            exists|now: i64|
                step_view(step) == #[trigger] planned_step(
                    old(self)@.store,
                    old(self)@.pending,
                    uuid@,
                    now,
                ) && final(self)@.pending == pending_after(
                    old(self)@.store,
                    old(self)@.pending,
                    uuid@,
                    now,
                ),
            final(self)@.store == old(self)@.store,
            final(self).current() == old(self).current(),
    {
        let now = unix_now();
        self.get_valid_token_at(uuid, now)
    }
}

} // verus!
