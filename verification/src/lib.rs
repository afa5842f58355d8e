//! A points ledger with asynchronous settlement.
//!
//! Accounts buy points with an attached deposit and redeem them for a token
//! transfer that another contract carries out.  The transfer is not atomic
//! with the ledger update: the ledger is debited first, the transfer is
//! requested, and a later continuation reports how it ended.  On success the
//! debit stands; on failure the points are credited back.
//!
//! Every handler takes the invocation [`Context`] explicitly, so that the
//! direct caller, the signer and the outcome of a finished transfer are
//! ordinary values.  [`model`] holds the contract as a mathematical state
//! with its steps, and [`laws`] what holds of every run of them.
//!
//! Beside the ledger stand the rules of a second contract, which keeps notes
//! and money jars for its users: how notes are numbered, found and paged
//! ([`notebook`]), under which storage keys jars are kept ([`jars`]), and what
//! is paid back of a deposit once storage is paid for ([`storage`]).

pub mod account;
pub mod contract;
pub mod decimal;
pub mod error;
pub mod guard;
pub mod jars;
pub mod laws;
pub mod ledger;
pub mod model;
pub mod note;
pub mod notebook;
pub mod pausable;
pub mod pending;
pub mod settlement;
pub mod storage;
mod table;
pub mod totals;

pub use account::AccountId;
pub use contract::{Snapshot, StatusMessage};
pub use error::Error;
pub use guard::Context;
pub use jars::MoneyJar;
pub use ledger::Ledger;
pub use note::PostedNote;
pub use notebook::NoteError;
pub use pausable::Pausable;
pub use pending::PendingWithdrawal;
pub use settlement::{Settlement, TransferRequest};
