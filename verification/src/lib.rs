//! A verified state-transition handler for an account-based ledger.
//!
//! The library models an account as a byte buffer with a recorded authority,
//! and performs one operation on it: decode a fixed 12-byte record from an
//! instruction payload, check that the account's authority matches the
//! executing authority, decode the account's current record, recompute the
//! derived `res` field from the incoming inputs, and write the updated record
//! back into the account buffer. Every step is specified and proved.

pub mod account;
pub mod handler;
pub mod record;

pub use account::AccountHandle;
pub use handler::{handle, TransitionError};
pub use record::GreetingAccount;
