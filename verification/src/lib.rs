//! A conditional multi-asset escrow: a neutral arbiter holds funds contributed
//! by a source party until either the arbiter designates a recipient and
//! approves release, or a deadline passes and the arbiter returns the funds to
//! the source.  Balances mix native coins (keyed by denomination) with fungible
//! tokens (keyed by a whitelisted contract address).  A small owner-gated
//! counter with a donation threshold shares the same persistent state.

pub mod decimal;
pub mod error;
pub mod lex;
pub mod addr;
pub mod types;
pub mod state;
pub mod msg;
pub mod contract;
pub mod laws;
