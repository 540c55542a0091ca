//! Provenance-log accounts with pluggable key storage.
//!
//! An account is a provenance log under a verifiable long-lived address (VLAD). Its keys are held
//! by a software wallet or by a Keycard. [`api`] is the service of one account, [`cache`] and
//! [`module`] serve many. What is decided here is decided on plain values ([`plog`]): opening,
//! signing, serializing and appending entries is the work of the log implementation and of the
//! wallet, whose outcomes come in as arguments.

pub mod account_ops;
pub mod api;
pub mod binding;
pub mod cache;
pub mod challenge;
pub mod config;
pub mod convert;
pub mod delegation;
pub mod encoding;
pub mod entry_update;
pub mod ephemeral_open;
pub mod error;
pub mod history;
pub mod json;
pub mod key;
pub mod keycard_lifecycle;
pub mod model;
pub mod module;
pub mod ops;
pub mod path_map;
pub mod plog;
pub mod storage;
pub mod table;
pub mod text;
pub mod values;
pub mod vlad_hash;
pub mod wallet;

pub use account_ops::{parse_ops_json, AccountOp};
pub use api::AccountsApi;
pub use cache::{AccountCache, VladHash};
pub use challenge::PathUpdateChallenge;
pub use delegation::PathDelegation;
pub use error::Error;
pub use key::{Key, KeyText};
pub use module::AccountsModule;
pub use path_map::PathMap;
pub use plog::Log;
pub use storage::StorageConfig;
pub use values::{ensure_plog_verified, get_plog_value, AccountSummary, PlogPathValue};
pub use wallet::KeycardWallet;
