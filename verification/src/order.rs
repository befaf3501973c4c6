//! A swap order and its lifecycle state.

use crate::bytes::copy_bytes;
use vstd::prelude::*;

verus! {

/// Length of a hash lock, in bytes.
pub const HASH_LOCK_LEN: usize = 32;

/// The stored state of an order. An order whose deadline has passed while it
/// is still `Active` is not a state of its own: see [`SwapOrder::is_expired`].
#[derive(Clone, Copy, Debug, PartialEq, Eq, Structural)]
pub enum HTLCState {
    /// Funds are held; the order can still be completed or refunded.
    Active,
    /// The secret was revealed in time and the recipient was paid.
    Completed,
    /// The deadline passed and the depositor was paid back.
    Refunded,
}

/// One hash-locked, time-locked order.
#[derive(Debug)]
pub struct SwapOrder {
    /// Identifier of the order, shared with the source chain.
    pub order_hash: Vec<u8>,
    /// Maker on the source chain.
    pub src_maker: String,
    /// Source chain identifier.
    pub src_chain: String,
    /// Source token identifier.
    pub src_token: String,
    /// Amount on the source chain; informational.
    pub src_amount: u128,
    /// Who is paid when the order completes.
    pub dst_recipient: String,
    /// Token paid out; `"NEAR"` for the native asset.
    pub dst_token: String,
    /// Amount held, which is the deposit attached at creation.
    pub dst_amount: u128,
    /// SHA-256 digest that the revealed secret must hash to.
    pub hash_lock: Vec<u8>,
    /// Deadline, in nanoseconds.
    pub timelock: u64,
    /// Stored state.
    pub state: HTLCState,
    /// Time of creation, in nanoseconds.
    pub created_at: u64,
    /// Who funded the order, and who is paid back on refund.
    pub resolver: String,
}

/// The mathematical value of a [`SwapOrder`].
pub struct SwapOrderView {
    pub order_hash: Seq<u8>,
    pub src_maker: Seq<char>,
    pub src_chain: Seq<char>,
    pub src_token: Seq<char>,
    pub src_amount: u128,
    pub dst_recipient: Seq<char>,
    pub dst_token: Seq<char>,
    pub dst_amount: u128,
    pub hash_lock: Seq<u8>,
    pub timelock: u64,
    pub state: HTLCState,
    pub created_at: u64,
    pub resolver: Seq<char>,
}

impl SwapOrderView {
    /// What holds of every stored order: a 32-byte hash lock, a positive
    /// amount, and a deadline later than the time of creation.
    pub open spec fn wf(self) -> bool {
        &&& self.hash_lock.len() == HASH_LOCK_LEN
        &&& self.dst_amount > 0
        &&& self.created_at < self.timelock
    }

    /// The order still holds its funds.
    pub open spec fn is_active(self) -> bool {
        self.state == HTLCState::Active
    }

    /// The order is active, but its deadline lies before `now`.
    pub open spec fn is_expired(self, now: u64) -> bool {
        self.is_active() && now > self.timelock
    }

    /// The order is active and its deadline has not passed at `now`.
    pub open spec fn is_live(self, now: u64) -> bool {
        self.is_active() && now <= self.timelock
    }

    /// The same order in another state.
    pub open spec fn with_state(self, state: HTLCState) -> SwapOrderView {
        SwapOrderView { state, ..self }
    }
}

impl View for SwapOrder {
    type V = SwapOrderView;

    open spec fn view(&self) -> SwapOrderView {
        SwapOrderView {
            order_hash: self.order_hash@,
            src_maker: self.src_maker@,
            src_chain: self.src_chain@,
            src_token: self.src_token@,
            src_amount: self.src_amount,
            dst_recipient: self.dst_recipient@,
            dst_token: self.dst_token@,
            dst_amount: self.dst_amount,
            hash_lock: self.hash_lock@,
            timelock: self.timelock,
            state: self.state,
            created_at: self.created_at,
            resolver: self.resolver@,
        }
    }
}

impl Clone for SwapOrder {
    fn clone(&self) -> (copy: SwapOrder)
        ensures
            copy@ == self@,
    {
        SwapOrder {
            order_hash: copy_bytes(&self.order_hash),
            src_maker: self.src_maker.clone(),
            src_chain: self.src_chain.clone(),
            src_token: self.src_token.clone(),
            src_amount: self.src_amount,
            dst_recipient: self.dst_recipient.clone(),
            dst_token: self.dst_token.clone(),
            dst_amount: self.dst_amount,
            hash_lock: copy_bytes(&self.hash_lock),
            timelock: self.timelock,
            state: self.state,
            created_at: self.created_at,
            resolver: self.resolver.clone(),
        }
    }
}

impl SwapOrder {
    /// The order still holds its funds.
    pub fn is_active(&self) -> (active: bool)
        ensures
            active == self@.is_active(),
    {
        match self.state {
            HTLCState::Active => true,
            _ => false,
        }
    }

    /// The derived "expired" condition: still active, deadline passed.
    pub fn is_expired(&self, now: u64) -> (expired: bool)
        ensures
            expired == self@.is_expired(now),
    {
        self.is_active() && now > self.timelock
    }

    /// Whether the order is well formed: a 32-byte hash lock, a positive
    /// amount, and a deadline later than the time of creation.
    pub fn is_well_formed(&self) -> (ok: bool)
        ensures
            ok == self@.wf(),
    {
        self.hash_lock.len() == HASH_LOCK_LEN && self.dst_amount > 0 && self.created_at < self.timelock
    }

    /// A copy of this order in another state.
    pub fn with_state(&self, state: HTLCState) -> (next: SwapOrder)
        ensures
            next@ == self@.with_state(state),
    {
        let mut next = self.clone();
        next.state = state;
        next
    }
}

} // verus!
