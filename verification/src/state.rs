//! The mathematical value of the escrow, what holds of it, and what each
//! operation makes of it.

use crate::allowlist::chain_enabled;
use crate::assoc::key_index;
use crate::error::EscrowError;
use crate::order::{HTLCState, SwapOrderView, HASH_LOCK_LEN};
use crate::store::{by_hash, keyed, orders_wf};
use vstd::prelude::*;

verus! {

/// Minimum duration of a new escrow: one hour, in nanoseconds.
pub const DEFAULT_MIN_TIMELOCK: u64 = 3_600_000_000_000;

/// Maximum duration of a new escrow: twenty-four hours, in nanoseconds.
pub const DEFAULT_MAX_TIMELOCK: u64 = 86_400_000_000_000;

/// How many stored orders one page of the active listing looks at when the
/// caller names no limit.
pub const DEFAULT_PAGE_LIMIT: u32 = 10;

/// The mathematical value of a [`NEAREscrow`].
pub struct EscrowView {
    pub owner: Seq<char>,
    pub orders: Seq<SwapOrderView>,
    pub deposits: Map<Seq<u8>, u128>,
    pub chains: Map<Seq<char>, bool>,
    pub min_timelock: u64,
    pub max_timelock: u64,
}

/// A deposit is held for an order exactly while the order is active, and it
/// is the order's amount.
pub open spec fn deposits_match(orders: Seq<SwapOrderView>, deposits: Map<Seq<u8>, u128>) -> bool {
    forall|h: Seq<u8>|
        {
            &&& #[trigger] deposits.contains_key(h) <==> (by_hash(orders).contains_key(h)
                && by_hash(orders)[h].is_active())
            &&& deposits.contains_key(h) ==> deposits[h] == by_hash(orders)[h].dst_amount
        }
}

impl EscrowView {
    /// What holds of the escrow between any two operations.
    pub open spec fn wf(self) -> bool {
        &&& orders_wf(self.orders)
        &&& deposits_match(self.orders, self.deposits)
        &&& self.min_timelock < self.max_timelock
    }

    /// The order stored under `order_hash`, if there is one.
    pub open spec fn order(self, order_hash: Seq<u8>) -> Option<SwapOrderView> {
        by_hash(self.orders).get(order_hash)
    }

    /// The position of the order stored under `order_hash`.
    pub open spec fn index_of(self, order_hash: Seq<u8>) -> int {
        key_index(keyed(self.orders), order_hash)
    }

    /// The escrow a new owner starts with.
    pub open spec fn initial(owner: Seq<char>, chains: Map<Seq<char>, bool>) -> EscrowView {
        EscrowView {
            owner,
            orders: Seq::empty(),
            deposits: Map::empty(),
            chains,
            min_timelock: DEFAULT_MIN_TIMELOCK,
            max_timelock: DEFAULT_MAX_TIMELOCK,
        }
    }

    /// Why the owner's controls refuse `caller`, if they do.
    pub open spec fn owner_error(self, caller: Seq<char>) -> Option<EscrowError> {
        if caller == self.owner {
            None
        } else {
            Some(EscrowError::NotOwner)
        }
    }

    /// The escrow with the flag of `chain` set to `enabled`.
    pub open spec fn with_chain(self, chain: Seq<char>, enabled: bool) -> EscrowView {
        EscrowView { chains: self.chains.insert(chain, enabled), ..self }
    }

    /// Why new bounds are refused when `caller` asks for them, if they are.
    pub open spec fn limits_error(self, caller: Seq<char>, min: u64, max: u64) -> Option<
        EscrowError,
    > {
        if caller != self.owner {
            Some(EscrowError::NotOwner)
        } else if min >= max {
            Some(EscrowError::InvalidLimits)
        } else {
            None
        }
    }

    /// The escrow with new bounds for orders created from now on.
    pub open spec fn with_limits(self, min: u64, max: u64) -> EscrowView {
        EscrowView { min_timelock: min, max_timelock: max, ..self }
    }

    /// The escrow in the hands of `owner`.
    pub open spec fn with_owner(self, owner: Seq<char>) -> EscrowView {
        EscrowView { owner, ..self }
    }

    /// Why the creation of an order is refused, if it is. The checks come in
    /// this order, and the first that fails decides.
    pub open spec fn create_error(
        self,
        now: u64,
        deposit: u128,
        order_hash: Seq<u8>,
        src_chain: Seq<char>,
        hash_lock: Seq<u8>,
        timelock: u64,
    ) -> Option<EscrowError> {
        if !chain_enabled(self.chains, src_chain) {
            Some(EscrowError::UnsupportedChain)
        } else if timelock <= now + self.min_timelock {
            Some(EscrowError::TimelockTooShort)
        } else if timelock >= now + self.max_timelock {
            Some(EscrowError::TimelockTooLong)
        } else if by_hash(self.orders).contains_key(order_hash) {
            Some(EscrowError::OrderExists)
        } else if hash_lock.len() != HASH_LOCK_LEN {
            Some(EscrowError::InvalidHashLockLength)
        } else if deposit == 0 {
            Some(EscrowError::NoDeposit)
        } else {
            None
        }
    }

    /// The escrow after `order` was created: the order stands last, and its
    /// amount is held for it.
    pub open spec fn with_order(self, order: SwapOrderView) -> EscrowView {
        EscrowView {
            orders: self.orders.push(order),
            deposits: self.deposits.insert(order.order_hash, order.dst_amount),
            ..self
        }
    }

    /// Why the completion of an order is refused, if it is, given the digest
    /// of the revealed secret.
    pub open spec fn complete_error(self, now: u64, order_hash: Seq<u8>, digest: Seq<u8>) -> Option<
        EscrowError,
    > {
        match self.order(order_hash) {
            None => Some(EscrowError::NotFound),
            Some(order) => if !order.is_active() {
                Some(EscrowError::InvalidState)
            } else if now > order.timelock {
                Some(EscrowError::Expired)
            } else if digest != order.hash_lock {
                Some(EscrowError::InvalidSecret)
            } else {
                None
            },
        }
    }

    /// Why the refund of an order is refused, if it is.
    pub open spec fn refund_error(self, now: u64, order_hash: Seq<u8>) -> Option<EscrowError> {
        match self.order(order_hash) {
            None => Some(EscrowError::NotFound),
            Some(order) => if !order.is_active() {
                Some(EscrowError::InvalidState)
            } else if now <= order.timelock {
                Some(EscrowError::NotYetExpired)
            } else {
                None
            },
        }
    }

    /// The escrow after the order under `order_hash` left the active state
    /// for `state`: the order keeps its place, and nothing is held for it
    /// any more.
    pub open spec fn settled(self, order_hash: Seq<u8>, state: HTLCState) -> EscrowView {
        let i = self.index_of(order_hash);
        EscrowView {
            orders: self.orders.update(i, self.orders[i].with_state(state)),
            deposits: self.deposits.remove(order_hash),
            ..self
        }
    }
}

/// The order that a successful creation stores.
pub open spec fn new_order(
    now: u64,
    caller: Seq<char>,
    deposit: u128,
    order_hash: Seq<u8>,
    src_maker: Seq<char>,
    src_chain: Seq<char>,
    src_token: Seq<char>,
    src_amount: u128,
    dst_recipient: Seq<char>,
    dst_token: Seq<char>,
    hash_lock: Seq<u8>,
    timelock: u64,
) -> SwapOrderView {
    SwapOrderView {
        order_hash,
        src_maker,
        src_chain,
        src_token,
        src_amount,
        dst_recipient,
        dst_token,
        dst_amount: deposit,
        hash_lock,
        timelock,
        state: HTLCState::Active,
        created_at: now,
        resolver: caller,
    }
}

/// The allowlist in which exactly the listed chains stand, all enabled.
pub open spec fn all_enabled(chains: Seq<Seq<char>>) -> Map<Seq<char>, bool> {
    Map::new(|c: Seq<char>| chains.contains(c), |c: Seq<char>| true)
}

/// The values of a vector of strings.
pub open spec fn texts(strings: Seq<String>) -> Seq<Seq<char>> {
    strings.map_values(|s: String| s@)
}

/// Without orders, the empty ledger is the matching one.
pub proof fn lemma_no_orders_no_deposits()
    ensures
        orders_wf(Seq::<SwapOrderView>::empty()),
        deposits_match(Seq::<SwapOrderView>::empty(), Map::<Seq<u8>, u128>::empty()),
{
    let none = Seq::<SwapOrderView>::empty();
    assert forall|h: Seq<u8>| !by_hash(none).contains_key(h) by {
        if by_hash(none).contains_key(h) {
            let i = key_index(keyed(none), h);
            assert(0 <= i < keyed(none).len());
        }
    }
}

} // verus!
