//! The end of a refresh: what the provider's answer means, and what it
//! changes in the store.

use vstd::prelude::*;
use crate::account::{opt_account, opt_text, Account, AccountView};
use crate::error::AccountError;
use crate::fields::{
    optional_text, read_integer, read_optional_text, read_text, required_integer, required_text,
};
use crate::freshness::{freshness_at, Freshness};
use crate::json::{as_text, member, member_of, opt_json_model, parse_json, parsed_json, JsonModel};
use crate::store::{AccountStore, StoreView};
use crate::text::same_text;

verus! {

/// The instant at which a token expires that was issued at `now` for
/// `expires_in` seconds; the last instant there is, if that is sooner.
pub open spec fn expiry_after(now: i64, expires_in: u64) -> i64 {
    if now + expires_in <= i64::MAX {
        (now + expires_in) as i64
    } else {
        i64::MAX
    }
}

/// The instant at which a token expires that was issued at `now` for
/// `expires_in` seconds.
pub fn expiry(now: i64, expires_in: u64) -> (expires_at: i64)
    ensures
        expires_at == expiry_after(now, expires_in),
{
    match now.checked_add_unsigned(expires_in) {
        Some(at) => at,
        None => i64::MAX,
    }
}

/// The account after a refresh at `now` that gave `access_token`, valid
/// until `expires_at`: the refresh token is replaced if the provider sent
/// a new one, and kept if it did not.
pub open spec fn renewed(
    account: AccountView,
    access_token: Seq<char>,
    refresh_token: Option<Seq<char>>,
    expires_at: i64,
    now: i64,
) -> AccountView {
    AccountView {
        access_token,
        refresh_token: if refresh_token is Some {
            refresh_token
        } else {
            account.refresh_token
        },
        expires_at,
        last_used: Some(now),
        ..account
    }
}

/// The account after the provider rejected its refresh token: it has none
/// any more, so that its token is dead once expired.
pub open spec fn revoked(account: AccountView) -> AccountView {
    AccountView { refresh_token: None, ..account }
}

/// Records a successful refresh of the account `uuid` in `store` and
/// gives the account as it stands then. A store that does not hold the
/// account is left as it is.
pub fn renew_tokens(
    store: &mut AccountStore,
    uuid: &str,
    access_token: String,
    refresh_token: Option<String>,
    expires_at: i64,
    now: i64,
) -> (updated: Option<Account>)
    ensures
        opt_account(updated) == if old(store)@.accounts.contains_key(uuid@) {
            Some(
                renewed(
                    old(store)@.accounts[uuid@],
                    access_token@,
                    opt_text(refresh_token),
                    expires_at,
                    now,
                ),
            )
        } else {
            None
        },
        final(store)@ == match opt_account(updated) {
            Some(account) => old(store)@.with_account(account),
            None => old(store)@,
        },
        final(store).order() == old(store).order(),
        final(store)@.valid(),
{
    match store.get_account(uuid) {
        Some(account) => {
            let kept = match refresh_token {
                Some(token) => Some(token),
                None => account.refresh_token,
            };
            let updated = Account {
                uuid: account.uuid,
                username: account.username,
                access_token,
                refresh_token: kept,
                expires_at,
                added_at: account.added_at,
                last_used: Some(now),
            };
            store.insert(updated.clone());
            Some(updated)
        },
        None => None,
    }
}

/// Takes the refresh token of the account `uuid` away; tells whether the
/// store holds the account. A store that does not is left as it is.
pub fn revoke_refresh_token(store: &mut AccountStore, uuid: &str) -> (held: bool)
    ensures
        held == old(store)@.accounts.contains_key(uuid@),
        final(store)@ == if held {
            old(store)@.with_account(revoked(old(store)@.accounts[uuid@]))
        } else {
            old(store)@
        },
        final(store).order() == old(store).order(),
        final(store)@.valid(),
{
    match store.get_account(uuid) {
        Some(account) => {
            store.insert(
                Account {
                    uuid: account.uuid,
                    username: account.username,
                    access_token: account.access_token,
                    refresh_token: None,
                    expires_at: account.expires_at,
                    added_at: account.added_at,
                    last_used: account.last_used,
                },
            );
            true
        },
        None => false,
    }
}

/// An account whose refresh token was taken away is dead from the moment
/// its token expires, and stays so.
pub proof fn lemma_revoked_is_dead(account: AccountView, now: int)
    requires
        freshness_at(account, now) != Freshness::Fresh,
    ensures
        freshness_at(revoked(account), now) == Freshness::Dead,
{
}

/// What came of a refresh exchange with the provider.
#[derive(Debug, PartialEq, Eq)]
pub enum RefreshOutcome {
    /// The provider issued a new access token, valid for `expires_in`
    /// seconds, and perhaps a new refresh token.
    Refreshed { access_token: String, refresh_token: Option<String>, expires_in: u64 },
    /// The exchange failed in transit or at the provider; it may be tried
    /// again later.
    NetworkFailure,
    /// The provider rejected the refresh token.
    InvalidRefreshToken,
    /// The provider reported success, but its answer cannot be understood.
    MalformedResponse,
}

/// The mathematical value of a [`RefreshOutcome`].
pub enum OutcomeView {
    Refreshed { access_token: Seq<char>, refresh_token: Option<Seq<char>>, expires_in: u64 },
    NetworkFailure,
    InvalidRefreshToken,
    MalformedResponse,
}

impl View for RefreshOutcome {
    type V = OutcomeView;

    open spec fn view(&self) -> OutcomeView {
        match self {
            RefreshOutcome::Refreshed { access_token, refresh_token, expires_in } => {
                OutcomeView::Refreshed {
                    access_token: access_token@,
                    refresh_token: opt_text(*refresh_token),
                    expires_in: *expires_in,
                }
            },
            RefreshOutcome::NetworkFailure => OutcomeView::NetworkFailure,
            RefreshOutcome::InvalidRefreshToken => OutcomeView::InvalidRefreshToken,
            RefreshOutcome::MalformedResponse => OutcomeView::MalformedResponse,
        }
    }
}

/// Whether an HTTP status reports success.
pub open spec fn is_success(status: u16) -> bool {
    200 <= status < 300
}

/// What a successful answer grants: `access_token` must be a string and
/// `expires_in` an integer that is not negative; `refresh_token` is a
/// string, `null` or missing. Any other body is malformed.
pub open spec fn grant_of(body: Option<JsonModel>) -> OutcomeView {
    match body {
        Some(document) => {
            let access_token = required_text(member_of(document, "access_token"@));
            let refresh_token = optional_text(member_of(document, "refresh_token"@));
            let expires_in = required_integer(member_of(document, "expires_in"@));
            if access_token is Some && refresh_token is Some && expires_in is Some && expires_in->0
                >= 0 {
                OutcomeView::Refreshed {
                    access_token: access_token->0,
                    refresh_token: refresh_token->0,
                    expires_in: expires_in->0 as u64,
                }
            } else {
                OutcomeView::MalformedResponse
            }
        },
        None => OutcomeView::MalformedResponse,
    }
}

/// Whether the body of a failed answer says that the grant is invalid or
/// has expired: its member `error` is the string `invalid_grant`.
pub open spec fn rejects_grant(body: Option<JsonModel>) -> bool {
    body matches Some(document) && member_of(document, "error"@) == Some(
        JsonModel::Text("invalid_grant"@),
    )
}

/// What an answer with this status and this body means.
pub open spec fn outcome_of(status: u16, body: Option<JsonModel>) -> OutcomeView {
    if is_success(status) {
        grant_of(body)
    } else if rejects_grant(body) {
        OutcomeView::InvalidRefreshToken
    } else {
        OutcomeView::NetworkFailure
    }
}

/// What an answer with this status means whose body was parsed to `body`,
/// or could not be parsed.
pub fn interpret_document(status: u16, body: Option<&serde_json::Value>) -> (outcome:
    RefreshOutcome)
    ensures
        outcome@ == outcome_of(status, opt_json_model(body)),
{
    if 200 <= status && status < 300 {
        let document = match body {
            Some(document) => document,
            None => {
                return RefreshOutcome::MalformedResponse;
            },
        };
        let access_token = read_text(member(document, "access_token"));
        let refresh_token = read_optional_text(member(document, "refresh_token"));
        let expires_in = read_integer(member(document, "expires_in"));
        match (access_token, refresh_token, expires_in) {
            (Some(access_token), Some(refresh_token), Some(expires_in)) => {
                if expires_in >= 0 {
                    RefreshOutcome::Refreshed {
                        access_token,
                        refresh_token,
                        expires_in: expires_in as u64,
                    }
                } else {
                    RefreshOutcome::MalformedResponse
                }
            },
            _ => RefreshOutcome::MalformedResponse,
        }
    } else {
        let rejected = match body {
            Some(document) => match member(document, "error") {
                Some(error) => match as_text(error) {
                    Some(code) => same_text(code, "invalid_grant"),
                    None => false,
                },
                None => false,
            },
            None => false,
        };
        if rejected {
            RefreshOutcome::InvalidRefreshToken
        } else {
            RefreshOutcome::NetworkFailure
        }
    }
}

/// What the provider's answer to a refresh request means, given its HTTP
/// status and its body.
pub fn interpret_response(status: u16, body: &str) -> (outcome: RefreshOutcome)
    ensures
        outcome@ == outcome_of(status, parsed_json(body@)),
{
    match parse_json(body) {
        Ok(document) => interpret_document(status, Some(&document)),
        Err(_) => interpret_document(status, None),
    }
}

/// The store after the refresh of `uuid` ended at `now` with `outcome`,
/// if the change is persisted.
///
/// A new token is recorded with the account; a rejected refresh token is
/// taken away from it. The other failures change nothing, and nothing is
/// changed in a store that no longer holds the account.
pub open spec fn settled(
    store: StoreView,
    uuid: Seq<char>,
    outcome: OutcomeView,
    now: i64,
) -> StoreView {
    if !store.accounts.contains_key(uuid) {
        store
    } else {
        match outcome {
            OutcomeView::Refreshed { access_token, refresh_token, expires_in } => {
                store.with_account(
                    renewed(
                        store.accounts[uuid],
                        access_token,
                        refresh_token,
                        expiry_after(now, expires_in),
                        now,
                    ),
                )
            },
            OutcomeView::InvalidRefreshToken => store.with_account(revoked(store.accounts[uuid])),
            _ => store,
        }
    }
}

/// What the caller who refreshed, and everyone who joined, is told when
/// the refresh of `uuid` ended at `now` with `outcome` and the change is
/// persisted: the account with its new token, or why there is none.
pub open spec fn answer(
    store: StoreView,
    uuid: Seq<char>,
    outcome: OutcomeView,
    now: i64,
) -> Result<AccountView, AccountError> {
    match outcome {
        OutcomeView::Refreshed { access_token, refresh_token, expires_in } => {
            if store.accounts.contains_key(uuid) {
                Ok(
                    renewed(
                        store.accounts[uuid],
                        access_token,
                        refresh_token,
                        expiry_after(now, expires_in),
                        now,
                    ),
                )
            } else {
                Err(AccountError::AccountNotFound)
            }
        },
        OutcomeView::NetworkFailure => Err(AccountError::NetworkFailure),
        OutcomeView::InvalidRefreshToken => Err(AccountError::InvalidRefreshToken),
        OutcomeView::MalformedResponse => Err(AccountError::MalformedResponse),
    }
}

} // verus!
