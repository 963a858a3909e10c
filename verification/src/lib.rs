//! Account and token lifecycle for a multi-account client.
//!
//! [`store`] holds the accounts and the choice of the active one;
//! [`freshness`] tells whether a token can still be used; [`tickets`]
//! sees to it that a token is refreshed by one caller at a time, and
//! [`refresh`] reads the provider's answer and records it. [`codec`] is the
//! JSON document that the store is persisted as, [`persistence`] what is
//! read and written of it, and [`manager`] the facade that ties them
//! together: every change is persisted before it takes effect. [`skin`]
//! holds the rules for the skins that an account uploads and wears. Reading
//! the file and the network is left to the caller; the calls into `chrono`
//! and `serde_json` stand in [`clock`] and [`json`].

pub mod account;
pub mod clock;
pub mod codec;
pub mod error;
pub mod fields;
pub mod freshness;
pub mod json;
pub mod manager;
pub mod persistence;
pub mod records;
pub mod refresh;
pub mod skin;
pub mod store;
pub mod text;
pub mod tickets;

pub use crate::account::{Account, AccountSummary};
pub use crate::error::AccountError;
pub use crate::freshness::{classify, Freshness};
pub use crate::manager::AccountManager;
pub use crate::persistence::StoredFile;
pub use crate::refresh::RefreshOutcome;
pub use crate::store::AccountStore;
pub use crate::tickets::{RefreshTickets, TokenStep};
