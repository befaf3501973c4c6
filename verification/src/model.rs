//! The escrow as a state machine over its mathematical value: one
//! [`Operation`] per call, and what each does to an [`EscrowView`].

use crate::error::EscrowError;
use crate::state::{new_order, EscrowView};
use crate::order::HTLCState;
use vstd::prelude::*;

verus! {

/// One call of the escrow, with everything the call depends on.
pub enum Operation {
    /// `create_htlc`
    Create {
        now: u64,
        caller: Seq<char>,
        deposit: u128,
        order_hash: Seq<u8>,
        src_maker: Seq<char>,
        src_chain: Seq<char>,
        src_token: Seq<char>,
        src_amount: u128,
        dst_recipient: Seq<char>,
        dst_token: Seq<char>,
        hash_lock: Seq<u8>,
        timelock: u64,
    },
    /// `complete_htlc`, with the digest of the revealed secret
    Complete { now: u64, order_hash: Seq<u8>, digest: Seq<u8> },
    /// `refund_htlc`
    Refund { now: u64, order_hash: Seq<u8> },
    /// `add_supported_chain` and `remove_supported_chain`
    SetChain { caller: Seq<char>, chain: Seq<char>, enabled: bool },
    /// `update_timelock_limits`
    SetLimits { caller: Seq<char>, min: u64, max: u64 },
    /// `emergency_withdraw`
    Withdraw { caller: Seq<char>, amount: u128 },
    /// `transfer_ownership`
    TransferOwnership { caller: Seq<char>, new_owner: Seq<char> },
}

impl EscrowView {
    /// Why `op` is refused in this state, if it is.
    pub open spec fn refusal(self, op: Operation) -> Option<EscrowError> {
        match op {
            Operation::Create { now, deposit, order_hash, src_chain, hash_lock, timelock, .. } => {
                self.create_error(now, deposit, order_hash, src_chain, hash_lock, timelock)
            },
            Operation::Complete { now, order_hash, digest } => self.complete_error(
                now,
                order_hash,
                digest,
            ),
            Operation::Refund { now, order_hash } => self.refund_error(now, order_hash),
            Operation::SetChain { caller, .. } => self.owner_error(caller),
            Operation::SetLimits { caller, min, max } => self.limits_error(caller, min, max),
            Operation::Withdraw { caller, .. } => self.owner_error(caller),
            Operation::TransferOwnership { caller, .. } => self.owner_error(caller),
        }
    }

    /// The state that `op` leaves behind: this state where `op` is refused.
    pub open spec fn after(self, op: Operation) -> EscrowView {
        if self.refusal(op) is Some {
            self
        } else {
            match op {
                Operation::Create {
                    now,
                    caller,
                    deposit,
                    order_hash,
                    src_maker,
                    src_chain,
                    src_token,
                    src_amount,
                    dst_recipient,
                    dst_token,
                    hash_lock,
                    timelock,
                } => self.with_order(
                    new_order(
                        now,
                        caller,
                        deposit,
                        order_hash,
                        src_maker,
                        src_chain,
                        src_token,
                        src_amount,
                        dst_recipient,
                        dst_token,
                        hash_lock,
                        timelock,
                    ),
                ),
                Operation::Complete { order_hash, .. } => self.settled(
                    order_hash,
                    HTLCState::Completed,
                ),
                Operation::Refund { order_hash, .. } => self.settled(order_hash, HTLCState::Refunded),
                Operation::SetChain { chain, enabled, .. } => self.with_chain(chain, enabled),
                Operation::SetLimits { min, max, .. } => self.with_limits(min, max),
                Operation::Withdraw { .. } => self,
                Operation::TransferOwnership { new_owner, .. } => self.with_owner(new_owner),
            }
        }
    }

    /// Whom `op` pays and how much, if it pays anyone.
    pub open spec fn payout(self, op: Operation) -> Option<(Seq<char>, u128)> {
        if self.refusal(op) is Some {
            None
        } else {
            match op {
                Operation::Complete { order_hash, .. } => Some(
                    (self.order(order_hash)->0.dst_recipient, self.deposits[order_hash]),
                ),
                Operation::Refund { order_hash, .. } => Some(
                    (self.order(order_hash)->0.resolver, self.deposits[order_hash]),
                ),
                Operation::Withdraw { amount, .. } => Some((self.owner, amount)),
                _ => None,
            }
        }
    }

    /// The state after a run of operations, one after the other.
    pub open spec fn after_all(self, ops: Seq<Operation>) -> EscrowView
        decreases ops.len(),
    {
        if ops.len() == 0 {
            self
        } else {
            self.after_all(ops.drop_last()).after(ops.last())
        }
    }
}

} // verus!
