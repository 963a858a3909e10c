//! One authenticated identity and its non-secret summary.

use vstd::prelude::*;

verus! {

/// One authenticated identity as the store keeps it.
///
/// Timestamps are seconds since the Unix epoch.
#[derive(Debug, PartialEq, Eq)]
pub struct Account {
    /// Stable identifier; the key of the account in the store.
    pub uuid: String,
    /// Display name; may change and need not be unique.
    pub username: String,
    /// Short-lived bearer credential.
    pub access_token: String,
    /// Credential that mints a new access token; absent when the account
    /// cannot be refreshed.
    pub refresh_token: Option<String>,
    /// Instant after which `access_token` must not be used.
    pub expires_at: i64,
    /// Instant at which the account was added.
    pub added_at: i64,
    /// Instant of the last activation or successful refresh.
    pub last_used: Option<i64>,
}

/// The mathematical value of an [`Account`].
pub struct AccountView {
    pub uuid: Seq<char>,
    pub username: Seq<char>,
    pub access_token: Seq<char>,
    pub refresh_token: Option<Seq<char>>,
    pub expires_at: i64,
    pub added_at: i64,
    pub last_used: Option<i64>,
}

/// The characters of an optional string.
pub open spec fn opt_text(s: Option<String>) -> Option<Seq<char>> {
    match s {
        Some(t) => Some(t@),
        None => None,
    }
}

impl View for Account {
    type V = AccountView;

    open spec fn view(&self) -> AccountView {
        AccountView {
            uuid: self.uuid@,
            username: self.username@,
            access_token: self.access_token@,
            refresh_token: opt_text(self.refresh_token),
            expires_at: self.expires_at,
            added_at: self.added_at,
            last_used: self.last_used,
        }
    }
}

/// A copy of an optional string.
pub fn copy_opt_text(s: &Option<String>) -> (copy: Option<String>)
    ensures
        copy == *s,
{
    match s {
        Some(t) => Some(t.clone()),
        None => None,
    }
}

impl Clone for Account {
    fn clone(&self) -> (copy: Self)
        ensures
            copy == *self,
    {
        Account {
            uuid: self.uuid.clone(),
            username: self.username.clone(),
            access_token: self.access_token.clone(),
            refresh_token: copy_opt_text(&self.refresh_token),
            expires_at: self.expires_at,
            added_at: self.added_at,
            last_used: self.last_used,
        }
    }
}

/// What a listing shows of an account: everything but its credentials.
#[derive(Debug, PartialEq, Eq)]
pub struct AccountSummary {
    pub uuid: String,
    pub username: String,
    /// Whether this is the store's active account.
    pub is_active: bool,
    pub added_at: i64,
    pub last_used: Option<i64>,
}

/// The mathematical value of an [`AccountSummary`].
pub struct SummaryView {
    pub uuid: Seq<char>,
    pub username: Seq<char>,
    pub is_active: bool,
    pub added_at: i64,
    pub last_used: Option<i64>,
}

impl View for AccountSummary {
    type V = SummaryView;

    open spec fn view(&self) -> SummaryView {
        SummaryView {
            uuid: self.uuid@,
            username: self.username@,
            is_active: self.is_active,
            added_at: self.added_at,
            last_used: self.last_used,
        }
    }
}

impl AccountView {
    /// The summary of this account, given whether it is the active one.
    pub open spec fn summary(self, is_active: bool) -> SummaryView {
        SummaryView {
            uuid: self.uuid,
            username: self.username,
            is_active,
            added_at: self.added_at,
            last_used: self.last_used,
        }
    }
}

impl Account {
    /// Projects the account to its summary, leaving the credentials out.
    pub fn summary(&self, is_active: bool) -> (summary: AccountSummary)
        ensures
            summary@ == self@.summary(is_active),
    {
        AccountSummary {
            uuid: self.uuid.clone(),
            username: self.username.clone(),
            is_active,
            added_at: self.added_at,
            last_used: self.last_used,
        }
    }
}

/// The value of an optional account.
pub open spec fn opt_account(account: Option<Account>) -> Option<AccountView> {
    match account {
        Some(a) => Some(a@),
        None => None,
    }
}

} // verus!
