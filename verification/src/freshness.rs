//! Whether a stored credential can still be used at a given instant.

use vstd::prelude::*;
use crate::account::{Account, AccountView};

verus! {

/// Safety margin, in seconds, taken off a token's expiry so that a token
/// is not used when it would expire while a request is in flight.
pub const EXPIRY_SKEW_SECS: i64 = 60;

/// The state of an access token at some instant.
#[derive(Clone, Copy, Debug, PartialEq, Eq, Structural)]
pub enum Freshness {
    /// Usable as it is.
    Fresh,
    /// Expired, or about to; a refresh token is present.
    Refreshable,
    /// Expired, or about to, and nothing to refresh it with: the user must
    /// sign in again.
    Dead,
}

/// Whether the token is within the safety margin of its expiry, or past it.
pub open spec fn is_expiring(account: AccountView, now: int) -> bool {
    now >= account.expires_at - EXPIRY_SKEW_SECS
}

/// The freshness of `account`'s token at `now`.
pub open spec fn freshness_at(account: AccountView, now: int) -> Freshness {
    if !is_expiring(account, now) {
        Freshness::Fresh
    } else if account.refresh_token is Some {
        Freshness::Refreshable
    } else {
        Freshness::Dead
    }
}

/// Classifies `account`'s token at the instant `now`.
pub fn classify(account: &Account, now: i64) -> (freshness: Freshness)
    ensures
        freshness == freshness_at(account@, now as int),
{
    let fresh = match account.expires_at.checked_sub(EXPIRY_SKEW_SECS) {
        Some(limit) => now < limit,
        None => false,
    };
    if fresh {
        Freshness::Fresh
    } else if account.refresh_token.is_some() {
        Freshness::Refreshable
    } else {
        Freshness::Dead
    }
}

/// A token that is no longer fresh stays as it is classified, however far
/// time advances: `Refreshable` and `Dead` never turn back into `Fresh`, nor
/// into each other.
pub proof fn lemma_staleness_is_permanent(account: AccountView, earlier: int, later: int)
    requires
        earlier <= later,
        freshness_at(account, earlier) != Freshness::Fresh,
    ensures
        freshness_at(account, later) == freshness_at(account, earlier),
{
}

/// From its expiry on, a token is never fresh: it is `Refreshable` when a
/// refresh token is present and `Dead` when none is.
pub proof fn lemma_expired_is_not_fresh(account: AccountView, now: int)
    requires
        now >= account.expires_at,
    ensures
        freshness_at(account, now) == if account.refresh_token is Some {
            Freshness::Refreshable
        } else {
            Freshness::Dead
        },
{
}

/// A token that is fresh at some instant was fresh at every earlier one.
pub proof fn lemma_fresh_earlier(account: AccountView, earlier: int, later: int)
    requires
        earlier <= later,
        freshness_at(account, later) == Freshness::Fresh,
    ensures
        freshness_at(account, earlier) == Freshness::Fresh,
{
}

} // verus!
