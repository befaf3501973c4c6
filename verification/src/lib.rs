//! Escrow side of a cross-chain atomic swap: hash-locked, time-locked orders
//! whose deposits are released to a recipient against a secret, or returned
//! to the depositor once the deadline has passed.
//!
//! The engine is a pure state machine. Time, caller identity and the attached
//! deposit arrive in a [`Context`]; payouts leave as [`Transfer`] values for
//! the host to perform.

pub mod allowlist;
pub mod assoc;
pub mod bytes;
pub mod context;
pub mod digest;
pub mod error;
pub mod escrow;
pub mod laws;
pub mod ledger;
pub mod model;
pub mod order;
pub mod state;
pub mod store;

pub use allowlist::{ChainAllowlist, ChainFlag};
pub use context::{Context, Transfer};
pub use error::{ErrorKind, EscrowError};
pub use escrow::NEAREscrow;
pub use ledger::{Deposit, DepositLedger};
pub use order::{HTLCState, SwapOrder};
pub use store::OrderStore;
