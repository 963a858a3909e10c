//! The kinds of failure the account operations report.

use vstd::prelude::*;
use vstd::string::StringExecFns;

verus! {

/// Why an account operation failed.
#[derive(Clone, Copy, Debug, PartialEq, Eq, Structural)]
pub enum AccountError {
    /// The persisted document is present but cannot be understood.
    StoreCorrupt,
    /// The persisted document could not be read or written.
    IoFailure,
    /// The operation named a uuid that the store does not hold.
    AccountNotFound,
    /// The refresh exchange failed in transit or at the provider.
    NetworkFailure,
    /// The provider rejected the refresh token.
    InvalidRefreshToken,
    /// The provider's answer could not be understood.
    MalformedResponse,
    /// The token is dead: the user must sign in again.
    ReauthenticationRequired,
}

impl AccountError {
    /// Whether a caller may try the same operation again later.
    ///
    /// Storage and network trouble may pass; a missing account, a rejected
    /// refresh token, a dead token and a corrupt document do not mend
    /// themselves.
    pub open spec fn retryable(self) -> bool {
        self == AccountError::IoFailure || self == AccountError::NetworkFailure || self
            == AccountError::MalformedResponse
    }

    /// Whether a caller may try the same operation again later.
    pub fn is_retryable(&self) -> (retry: bool)
        ensures
            retry == self.retryable(),
    {
        match self {
            AccountError::IoFailure => true,
            AccountError::NetworkFailure => true,
            AccountError::MalformedResponse => true,
            _ => false,
        }
    }

    /// What went wrong, in words for the user.
    pub open spec fn phrase(self) -> Seq<char> {
        match self {
            AccountError::StoreCorrupt => "the account store is corrupt"@,
            AccountError::IoFailure => "the account store could not be read or written"@,
            AccountError::AccountNotFound => "no such account"@,
            AccountError::NetworkFailure => "the sign-in service could not be reached"@,
            AccountError::InvalidRefreshToken => "the sign-in service rejected the refresh token"@,
            AccountError::MalformedResponse => "the sign-in service sent a malformed answer"@,
            AccountError::ReauthenticationRequired => "the credential has expired, sign in again"@,
        }
    }

    /// What went wrong, in words for the user.
    fn words(&self) -> (words: &'static str)
        ensures
            words@ == self.phrase(),
    {
        match self {
            AccountError::StoreCorrupt => "the account store is corrupt",
            AccountError::IoFailure => "the account store could not be read or written",
            AccountError::AccountNotFound => "no such account",
            AccountError::NetworkFailure => "the sign-in service could not be reached",
            AccountError::InvalidRefreshToken => "the sign-in service rejected the refresh token",
            AccountError::MalformedResponse => "the sign-in service sent a malformed answer",
            AccountError::ReauthenticationRequired => "the credential has expired, sign in again",
        }
    }

    /// The message for a failure of `operation`, on the account `uuid` if
    /// the operation was about one.
    pub open spec fn message(self, operation: Seq<char>, uuid: Option<Seq<char>>) -> Seq<char> {
        match uuid {
            Some(uuid) => operation + ": "@ + self.phrase() + " (account "@ + uuid + ")"@,
            None => operation + ": "@ + self.phrase(),
        }
    }

    /// The message to show the user when `operation` failed with this
    /// error: the operation, what went wrong, and the account if the
    /// operation was about one.
    pub fn describe(&self, operation: &str, uuid: Option<&str>) -> (message: String)
        ensures
            message@ == self.message(
                operation@,
                match uuid {
                    Some(u) => Some(u@),
                    None => None,
                },
            ),
    {
        let mut message = operation.to_owned();
        message.append(": ");
        message.append(self.words());
        match uuid {
            Some(uuid) => {
                message.append(" (account ");
                message.append(uuid);
                message.append(")");
            },
            None => {},
        }
        message
    }
}

} // verus!
