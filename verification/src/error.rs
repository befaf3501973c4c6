//! Why an operation was refused.

use vstd::prelude::*;

verus! {

/// The broad class an error falls in.
#[derive(Clone, Copy, Debug, PartialEq, Eq, Structural)]
pub enum ErrorKind {
    /// A parameter of the call was not acceptable.
    Validation,
    /// No order is stored under the given hash.
    NotFound,
    /// The order has already been completed or refunded.
    InvalidState,
    /// The call came on the wrong side of the deadline.
    Expiry,
    /// The revealed secret does not hash to the order's hash lock.
    SecretMismatch,
    /// The caller is not the owner.
    Authorization,
}

/// The precise reason an operation was refused. A refused operation leaves
/// the escrow exactly as it was.
#[derive(Clone, Copy, Debug, PartialEq, Eq, Structural)]
pub enum EscrowError {
    /// The source chain is not enabled in the allowlist.
    UnsupportedChain,
    /// The deadline is not later than now plus the minimum duration.
    TimelockTooShort,
    /// The deadline is not earlier than now plus the maximum duration.
    TimelockTooLong,
    /// An order with this hash is already stored.
    OrderExists,
    /// The hash lock is not exactly 32 bytes long.
    InvalidHashLockLength,
    /// Nothing was attached to the call.
    NoDeposit,
    /// The new minimum duration is not below the new maximum.
    InvalidLimits,
    /// No order is stored under this hash.
    NotFound,
    /// The order is no longer active.
    InvalidState,
    /// The deadline has passed, so the order can no longer be completed.
    Expired,
    /// The deadline has not passed, so the order cannot be refunded yet.
    NotYetExpired,
    /// The secret's digest differs from the hash lock.
    InvalidSecret,
    /// The caller is not the owner.
    NotOwner,
}

impl EscrowError {
    /// The class of this error.
    pub open spec fn kind_of(self) -> ErrorKind {
        match self {
            EscrowError::UnsupportedChain
            | EscrowError::TimelockTooShort
            | EscrowError::TimelockTooLong
            | EscrowError::OrderExists
            | EscrowError::InvalidHashLockLength
            | EscrowError::NoDeposit
            | EscrowError::InvalidLimits => ErrorKind::Validation,
            EscrowError::NotFound => ErrorKind::NotFound,
            EscrowError::InvalidState => ErrorKind::InvalidState,
            EscrowError::Expired | EscrowError::NotYetExpired => ErrorKind::Expiry,
            EscrowError::InvalidSecret => ErrorKind::SecretMismatch,
            EscrowError::NotOwner => ErrorKind::Authorization,
        }
    }

    /// The text shown to the caller for this error.
    pub open spec fn message_of(self) -> Seq<char> {
        match self {
            EscrowError::UnsupportedChain => "Unsupported source chain"@,
            EscrowError::TimelockTooShort => "Timelock too short"@,
            EscrowError::TimelockTooLong => "Timelock too long"@,
            EscrowError::OrderExists => "Order already exists"@,
            EscrowError::InvalidHashLockLength => "Invalid hash lock length"@,
            EscrowError::NoDeposit => "Must attach deposit"@,
            EscrowError::InvalidLimits => "Invalid timelock limits"@,
            EscrowError::NotFound => "Order not found"@,
            EscrowError::InvalidState => "Order not active"@,
            EscrowError::Expired => "HTLC expired"@,
            EscrowError::NotYetExpired => "HTLC not expired"@,
            EscrowError::InvalidSecret => "Invalid secret"@,
            EscrowError::NotOwner => "Only owner can call this method"@,
        }
    }

    /// The class of this error.
    pub fn kind(&self) -> (k: ErrorKind)
        ensures
            k == self.kind_of(),
    {
        match self {
            EscrowError::UnsupportedChain
            | EscrowError::TimelockTooShort
            | EscrowError::TimelockTooLong
            | EscrowError::OrderExists
            | EscrowError::InvalidHashLockLength
            | EscrowError::NoDeposit
            | EscrowError::InvalidLimits => ErrorKind::Validation,
            EscrowError::NotFound => ErrorKind::NotFound,
            EscrowError::InvalidState => ErrorKind::InvalidState,
            EscrowError::Expired | EscrowError::NotYetExpired => ErrorKind::Expiry,
            EscrowError::InvalidSecret => ErrorKind::SecretMismatch,
            EscrowError::NotOwner => ErrorKind::Authorization,
        }
    }

    /// The text shown to the caller for this error.
    pub fn message(&self) -> (m: String)
        ensures
            m@ == self.message_of(),
    {
        let text: &str = match self {
            EscrowError::UnsupportedChain => "Unsupported source chain",
            EscrowError::TimelockTooShort => "Timelock too short",
            EscrowError::TimelockTooLong => "Timelock too long",
            EscrowError::OrderExists => "Order already exists",
            EscrowError::InvalidHashLockLength => "Invalid hash lock length",
            EscrowError::NoDeposit => "Must attach deposit",
            EscrowError::InvalidLimits => "Invalid timelock limits",
            EscrowError::NotFound => "Order not found",
            EscrowError::InvalidState => "Order not active",
            EscrowError::Expired => "HTLC expired",
            EscrowError::NotYetExpired => "HTLC not expired",
            EscrowError::InvalidSecret => "Invalid secret",
            EscrowError::NotOwner => "Only owner can call this method",
        };
        text.to_owned()
    }
}

} // verus!
