//! The escrow engine: creation, completion and refund of orders, the
//! queries, and the owner's controls.

use crate::allowlist::{chain_enabled, ChainAllowlist};
use crate::assoc::{has_key, key_index, lemma_entry};
use crate::bytes::{bytes_eq, copy_bytes};
use crate::context::{Context, Transfer};
use crate::digest::{sha256, sha256_digest};
use crate::error::EscrowError;
use crate::laws::law_active_page;
use crate::ledger::DepositLedger;
use crate::model::Operation;
use crate::order::{HTLCState, SwapOrder, HASH_LOCK_LEN};
use crate::state::{
    all_enabled, deposits_match, lemma_no_orders_no_deposits, new_order, texts, EscrowView,
    DEFAULT_MAX_TIMELOCK, DEFAULT_MIN_TIMELOCK, DEFAULT_PAGE_LIMIT,
};
use crate::store::{active_page, by_hash, keyed, views, OrderStore};
use vstd::prelude::*;

verus! {

/// The escrow: its owner, the three tables, and the bounds on how long a new
/// order may run.
#[derive(Debug)]
pub struct NEAREscrow {
    /// Who may use the owner's controls.
    pub owner: String,
    /// Every order ever created.
    pub swap_orders: OrderStore,
    /// The amount held for each active order.
    pub deposits: DepositLedger,
    /// The source chains and their flags.
    pub supported_chains: ChainAllowlist,
    /// A new order's deadline must lie more than this after its creation.
    pub min_timelock: u64,
    /// A new order's deadline must lie less than this after its creation.
    pub max_timelock: u64,
}

impl View for NEAREscrow {
    type V = EscrowView;

    open spec fn view(&self) -> EscrowView {
        EscrowView {
            owner: self.owner@,
            orders: self.swap_orders@,
            deposits: self.deposits@,
            chains: self.supported_chains@,
            min_timelock: self.min_timelock,
            max_timelock: self.max_timelock,
        }
    }
}

impl NEAREscrow {
    /// What holds of the escrow between any two operations: the tables are
    /// free of duplicates and the value is well formed.
    pub open spec fn wf(&self) -> bool {
        &&& self.swap_orders.wf()
        &&& self.deposits.wf()
        &&& self.supported_chains.wf()
        &&& self@.wf()
    }

    /// An escrow owned by `owner`, without orders and without enabled chains,
    /// with durations between one hour and twenty-four hours.
    pub fn new(owner: String) -> (escrow: NEAREscrow)
        ensures
            escrow.wf(),
            escrow@ == EscrowView::initial(owner@, Map::empty()),
    {
        let escrow = NEAREscrow {
            owner,
            swap_orders: OrderStore::new(),
            deposits: DepositLedger::new(),
            supported_chains: ChainAllowlist::new(),
            min_timelock: DEFAULT_MIN_TIMELOCK,
            max_timelock: DEFAULT_MAX_TIMELOCK,
        };
        proof {
            lemma_no_orders_no_deposits();
        }
        escrow
    }

    /// As [`NEAREscrow::new`], with every chain of `supported_chains`
    /// enabled.
    pub fn new_with_chains(owner: String, supported_chains: Vec<String>) -> (escrow: NEAREscrow)
        ensures
            escrow.wf(),
            escrow@ == EscrowView::initial(owner@, all_enabled(texts(supported_chains@))),
    {
        let ghost owner_text = owner@;
        let mut escrow = NEAREscrow::new(owner);
        let mut i: usize = 0;
        assert(escrow.supported_chains@ =~= all_enabled(texts(supported_chains@).take(0)));
        while i < supported_chains.len()
            invariant
                i <= supported_chains.len(),
                escrow.wf(),
                escrow@ == EscrowView::initial(
                    owner_text,
                    all_enabled(texts(supported_chains@).take(i as int)),
                ),
            decreases supported_chains.len() - i,
        {
            let ghost done = texts(supported_chains@).take(i as int);
            let chain = supported_chains[i].clone();
            escrow.supported_chains.set(chain, true);
            proof {
                let next = texts(supported_chains@).take(i + 1);
                assert(next =~= done.push(supported_chains[i as int]@));
                assert forall|c: Seq<char>| next.contains(c) <==> (done.contains(c)
                    || c == supported_chains[i as int]@) by {
                    if done.contains(c) {
                        let j = choose|j: int| 0 <= j < done.len() && done[j] == c;
                        assert(next[j] == c);
                    }
                    if c == supported_chains[i as int]@ {
                        assert(next[i as int] == c);
                    }
                }
                assert(escrow.supported_chains@ =~= all_enabled(next));
            }
            i += 1;
        }
        assert(texts(supported_chains@).take(i as int) =~= texts(supported_chains@));
        escrow
    }

    /// Creates an order funded by the caller with the attached deposit.
    ///
    /// The checks are made in the order of [`EscrowView::create_error`]; the
    /// deadline is compared with `now` plus the bounds as whole numbers, so a
    /// sum beyond the range of the clock is no overflow. On success the
    /// order is stored as active, with the deposit as its amount and the
    /// caller as its resolver, and the deposit is entered in the ledger.
    /// Nothing is paid out.
    pub fn create_htlc(
        &mut self,
        ctx: &Context,
        order_hash: Vec<u8>,
        src_maker: String,
        src_chain: String,
        src_token: String,
        src_amount: u128,
        dst_recipient: String,
        dst_token: String,
        hash_lock: Vec<u8>,
        timelock: u64,
    ) -> (done: Result<(), EscrowError>)
        requires
            old(self).wf(),
        ensures
            final(self).wf(),
            match old(self)@.create_error(
                ctx.now,
                ctx.attached_deposit,
                order_hash@,
                src_chain@,
                hash_lock@,
                timelock,
            ) {
                Some(e) => done == Err::<(), EscrowError>(e) && *final(self) == *old(self),
                None => done is Ok && final(self)@ == old(self)@.with_order(
                    new_order(
                        ctx.now,
                        ctx.caller@,
                        ctx.attached_deposit,
                        order_hash@,
                        src_maker@,
                        src_chain@,
                        src_token@,
                        src_amount,
                        dst_recipient@,
                        dst_token@,
                        hash_lock@,
                        timelock,
                    ),
                ),
            },
            done == Err::<(), EscrowError>(EscrowError::UnsupportedChain) <==> !chain_enabled(
                old(self)@.chains,
                src_chain@,
            ),
            final(self)@ == old(self)@.after(
                Operation::Create {
                    now: ctx.now,
                    caller: ctx.caller@,
                    deposit: ctx.attached_deposit,
                    order_hash: order_hash@,
                    src_maker: src_maker@,
                    src_chain: src_chain@,
                    src_token: src_token@,
                    src_amount,
                    dst_recipient: dst_recipient@,
                    dst_token: dst_token@,
                    hash_lock: hash_lock@,
                    timelock,
                },
            ),
            done is Ok ==> old(self)@.min_timelock < timelock - ctx.now < old(self)@.max_timelock,
            forall|other: Seq<u8>|
                other != order_hash@ ==> #[trigger] final(self)@.order(other) == old(self)@.order(
                    other,
                ),
            done is Ok ==> (final(self)@.order(order_hash@) matches Some(order) && order.state
                == HTLCState::Active && order.dst_amount == ctx.attached_deposit && order.resolver
                == ctx.caller@ && order.created_at == ctx.now),
    {
        if !self.supported_chains.is_enabled(&src_chain) {
            return Err(EscrowError::UnsupportedChain);
        }
        if timelock as u128 <= ctx.now as u128 + self.min_timelock as u128 {
            return Err(EscrowError::TimelockTooShort);
        }
        if timelock as u128 >= ctx.now as u128 + self.max_timelock as u128 {
            return Err(EscrowError::TimelockTooLong);
        }
        if self.swap_orders.position(&order_hash).is_some() {
            return Err(EscrowError::OrderExists);
        }
        if hash_lock.len() != HASH_LOCK_LEN {
            return Err(EscrowError::InvalidHashLockLength);
        }
        let deposit_amount = ctx.attached_deposit;
        if deposit_amount == 0 {
            return Err(EscrowError::NoDeposit);
        }
        let order = SwapOrder {
            order_hash: copy_bytes(&order_hash),
            src_maker,
            src_chain,
            src_token,
            src_amount,
            dst_recipient,
            dst_token,
            dst_amount: deposit_amount,
            hash_lock,
            timelock,
            state: HTLCState::Active,
            created_at: ctx.now,
            resolver: ctx.caller.clone(),
        };
        self.swap_orders.insert(order);
        self.deposits.insert(order_hash, deposit_amount);
        Ok(())
    }

    /// Completes an order against the revealed `secret`: the secret's
    /// SHA-256 digest must equal the order's hash lock, byte for byte.
    /// See [`NEAREscrow::complete_with_digest`] for the rest.
    pub fn complete_htlc(&mut self, ctx: &Context, order_hash: Vec<u8>, secret: Vec<u8>) -> (done:
        Result<Transfer, EscrowError>)
        requires
            old(self).wf(),
        ensures
            final(self).wf(),
            match old(self)@.complete_error(ctx.now, order_hash@, sha256_digest(secret@)) {
                Some(e) => done == Err::<Transfer, EscrowError>(e) && *final(self) == *old(self),
                None => final(self)@ == old(self)@.settled(order_hash@, HTLCState::Completed)
                    && (done matches Ok(pay) && old(self)@.order(order_hash@) matches Some(order)
                    && pay.recipient@ == order.dst_recipient && pay.amount == order.dst_amount
                    && old(self)@.deposits.get(order_hash@) == Some(pay.amount)),
            },
            done is Ok <==> (old(self)@.order(order_hash@) matches Some(order) && order.state
                == HTLCState::Active && ctx.now <= order.timelock && sha256_digest(secret@)
                == order.hash_lock),
            final(self)@ == old(self)@.after(
                Operation::Complete {
                    now: ctx.now,
                    order_hash: order_hash@,
                    digest: sha256_digest(secret@),
                },
            ),
            done is Ok ==> final(self)@.order(order_hash@) == Some(
                old(self)@.order(order_hash@)->0.with_state(HTLCState::Completed),
            ),
            forall|other: Seq<u8>|
                other != order_hash@ ==> #[trigger] final(self)@.order(other) == old(self)@.order(
                    other,
                ),
    {
        let digest = sha256(&secret);
        self.complete_with_digest(ctx, &order_hash, &digest)
    }

    /// Completes an order, given the digest of the revealed secret.
    ///
    /// The order must exist, be active, have its deadline at or after `now`,
    /// and carry `digest` as its hash lock; the first of these that fails
    /// decides the error, and the escrow stays as it was. Otherwise the
    /// order becomes completed, its ledger entry is cleared, and the amount
    /// that was held is to be paid to the order's recipient, in the native
    /// asset whatever the order's token.
    pub fn complete_with_digest(
        &mut self,
        ctx: &Context,
        order_hash: &Vec<u8>,
        digest: &Vec<u8>,
    ) -> (done: Result<Transfer, EscrowError>)
        requires
            old(self).wf(),
        ensures
            final(self).wf(),
            match old(self)@.complete_error(ctx.now, order_hash@, digest@) {
                Some(e) => done == Err::<Transfer, EscrowError>(e) && *final(self) == *old(self),
                None => final(self)@ == old(self)@.settled(order_hash@, HTLCState::Completed)
                    && (done matches Ok(pay) && old(self)@.order(order_hash@) matches Some(order)
                    && pay.recipient@ == order.dst_recipient && pay.amount == order.dst_amount
                    && old(self)@.deposits.get(order_hash@) == Some(pay.amount)),
            },
            done is Ok <==> (old(self)@.order(order_hash@) matches Some(order) && order.state
                == HTLCState::Active && ctx.now <= order.timelock && digest@ == order.hash_lock),
            final(self)@ == old(self)@.after(
                Operation::Complete { now: ctx.now, order_hash: order_hash@, digest: digest@ },
            ),
            done is Ok ==> final(self)@.order(order_hash@) == Some(
                old(self)@.order(order_hash@)->0.with_state(HTLCState::Completed),
            ),
            forall|other: Seq<u8>|
                other != order_hash@ ==> #[trigger] final(self)@.order(other) == old(self)@.order(
                    other,
                ),
    {
        let i = match self.swap_orders.position(order_hash) {
            Some(i) => i,
            None => {
                return Err(EscrowError::NotFound);
            },
        };
        let order = &self.swap_orders.entries[i];
        if !order.is_active() {
            return Err(EscrowError::InvalidState);
        }
        if ctx.now > order.timelock {
            return Err(EscrowError::Expired);
        }
        if !bytes_eq(digest, &order.hash_lock) {
            return Err(EscrowError::InvalidSecret);
        }
        let recipient = order.dst_recipient.clone();
        let amount = self.settle(i, order_hash, HTLCState::Completed);
        Ok(Transfer { recipient, amount })
    }

    /// Refunds an order whose deadline has passed.
    ///
    /// The order must exist, be active, and have its deadline strictly
    /// before `now`; the first of these that fails decides the error, and the
    /// escrow stays as it was. Otherwise the order becomes refunded, its
    /// ledger entry is cleared, and the amount that was held is to be paid
    /// back to the order's resolver.
    pub fn refund_htlc(&mut self, ctx: &Context, order_hash: Vec<u8>) -> (done: Result<
        Transfer,
        EscrowError,
    >)
        requires
            old(self).wf(),
        ensures
            final(self).wf(),
            match old(self)@.refund_error(ctx.now, order_hash@) {
                Some(e) => done == Err::<Transfer, EscrowError>(e) && *final(self) == *old(self),
                None => final(self)@ == old(self)@.settled(order_hash@, HTLCState::Refunded)
                    && (done matches Ok(pay) && old(self)@.order(order_hash@) matches Some(order)
                    && pay.recipient@ == order.resolver && pay.amount == order.dst_amount
                    && old(self)@.deposits.get(order_hash@) == Some(pay.amount)),
            },
            done is Ok <==> (old(self)@.order(order_hash@) matches Some(order) && order.state
                == HTLCState::Active && ctx.now > order.timelock),
            final(self)@ == old(self)@.after(
                Operation::Refund { now: ctx.now, order_hash: order_hash@ },
            ),
            done is Ok ==> final(self)@.order(order_hash@) == Some(
                old(self)@.order(order_hash@)->0.with_state(HTLCState::Refunded),
            ),
            forall|other: Seq<u8>|
                other != order_hash@ ==> #[trigger] final(self)@.order(other) == old(self)@.order(
                    other,
                ),
    {
        let i = match self.swap_orders.position(&order_hash) {
            Some(i) => i,
            None => {
                return Err(EscrowError::NotFound);
            },
        };
        let order = &self.swap_orders.entries[i];
        if !order.is_active() {
            return Err(EscrowError::InvalidState);
        }
        if ctx.now <= order.timelock {
            return Err(EscrowError::NotYetExpired);
        }
        let recipient = order.resolver.clone();
        let amount = self.settle(i, &order_hash, HTLCState::Refunded);
        Ok(Transfer { recipient, amount })
    }

    /// Moves the active order at position `i` into the terminal `state` and
    /// clears its ledger entry, handing back the amount that was held.
    fn settle(&mut self, i: usize, order_hash: &Vec<u8>, state: HTLCState) -> (amount: u128)
        requires
            old(self).wf(),
            i < old(self)@.orders.len(),
            old(self)@.orders[i as int].order_hash == order_hash@,
            old(self)@.orders[i as int].is_active(),
            state != HTLCState::Active,
        ensures
            final(self).wf(),
            final(self)@ == old(self)@.settled(order_hash@, state),
            old(self)@.order(order_hash@) == Some(old(self)@.orders[i as int]),
            old(self)@.deposits.get(order_hash@) == Some(amount),
            amount == old(self)@.orders[i as int].dst_amount,
            by_hash(final(self)@.orders) == by_hash(old(self)@.orders).insert(
                order_hash@,
                old(self)@.orders[i as int].with_state(state),
            ),
    {
        proof {
            lemma_entry(keyed(self@.orders), i as int);
        }
        self.swap_orders.set_state(i, state);
        let held = self.deposits.remove(order_hash);
        held.unwrap()
    }

    /// The order stored under `order_hash`, if there is one.
    pub fn get_swap_order(&self, order_hash: Vec<u8>) -> (found: Option<SwapOrder>)
        requires
            self.wf(),
        ensures
            match found {
                Some(order) => self@.order(order_hash@) == Some(order@),
                None => self@.order(order_hash@) is None,
            },
    {
        match self.swap_orders.get(&order_hash) {
            Some(order) => Some(order.clone()),
            None => None,
        }
    }

    /// Whether the order under `order_hash` can still be completed at
    /// `now`: it exists, is active, and its deadline has not passed.
    pub fn is_htlc_active(&self, ctx: &Context, order_hash: Vec<u8>) -> (live: bool)
        requires
            self.wf(),
        ensures
            live == (self@.order(order_hash@) matches Some(order) && order.is_live(ctx.now)),
    {
        match self.swap_orders.get(&order_hash) {
            Some(order) => order.is_active() && ctx.now <= order.timelock,
            None => false,
        }
    }

    /// One page of the listing of active orders, in creation order: of the
    /// stored orders the first `from_index` (default 0) are passed over, the
    /// next `limit` (default 10) are looked at, and of these the active ones
    /// are returned. An active order whose deadline has passed is listed
    /// too.
    pub fn get_active_orders(&self, from_index: Option<u32>, limit: Option<u32>) -> (page: Vec<
        SwapOrder,
    >)
        ensures
            views(page@) == active_page(
                self@.orders,
                from_index.unwrap_or(0) as int,
                limit.unwrap_or(DEFAULT_PAGE_LIMIT) as int,
            ),
            page@.len() <= limit.unwrap_or(DEFAULT_PAGE_LIMIT),
            forall|k: int| 0 <= k < page@.len() ==> (#[trigger] page@[k])@.is_active(),
    {
        let start = from_index.unwrap_or(0) as usize;
        let limit = limit.unwrap_or(DEFAULT_PAGE_LIMIT) as usize;
        let page = self.swap_orders.active_page(start, limit);
        proof {
            law_active_page(self@.orders, start as int, limit as int);
            assert forall|k: int| 0 <= k < page@.len() implies (#[trigger] page@[k])@.is_active() by {
                assert(views(page@)[k] == page@[k]@);
            }
        }
        page
    }

    /// Whether `secret` hashes to `hash_lock` under SHA-256. Reads nothing
    /// of the escrow.
    pub fn verify_secret(&self, secret: Vec<u8>, hash_lock: Vec<u8>) -> (matches: bool)
        ensures
            matches == (sha256_digest(secret@) == hash_lock@),
    {
        let digest = sha256(&secret);
        bytes_eq(&digest, &hash_lock)
    }

    /// Whether the escrow is well formed, as every operation needs it: for
    /// a value put together from stored parts rather than made by
    /// [`NEAREscrow::new`] and the operations.
    pub fn is_consistent(&self) -> (ok: bool)
        ensures
            ok == self.wf(),
    {
        self.swap_orders.is_consistent() && self.deposits.is_consistent()
            && self.supported_chains.is_consistent() && self.min_timelock < self.max_timelock
            && self.deposits_consistent()
    }

    /// Whether the ledger holds, for every active order and for no other
    /// hash, the order's amount.
    fn deposits_consistent(&self) -> (ok: bool)
        requires
            self.swap_orders.wf(),
            self.deposits.wf(),
        ensures
            ok == deposits_match(self@.orders, self@.deposits),
    {
        let ghost orders = self@.orders;
        let ghost deposits = self@.deposits;
        let mut i: usize = 0;
        while i < self.swap_orders.entries.len()
            invariant
                i <= self.swap_orders.entries.len(),
                self.swap_orders.wf(),
                self.deposits.wf(),
                orders == self@.orders,
                deposits == self@.deposits,
                forall|a: int|
                    0 <= a < i ==> deposits.get((#[trigger] orders[a]).order_hash) == (
                    if orders[a].is_active() {
                        Some(orders[a].dst_amount)
                    } else {
                        None
                    }),
            decreases self.swap_orders.entries.len() - i,
        {
            let order = &self.swap_orders.entries[i];
            let held = self.deposits.get(&order.order_hash);
            let expected = if order.is_active() {
                Some(order.dst_amount)
            } else {
                None
            };
            proof {
                lemma_entry(keyed(orders), i as int);
            }
            if held != expected {
                return false;
            }
            i += 1;
        }
        let mut k: usize = 0;
        while k < self.deposits.entries.len()
            invariant
                k <= self.deposits.entries.len(),
                self.swap_orders.wf(),
                self.deposits.wf(),
                orders == self@.orders,
                deposits == self@.deposits,
                forall|c: int|
                    0 <= c < k ==> by_hash(orders).contains_key(
                        (#[trigger] self.deposits.pairs()[c]).0,
                    ),
            decreases self.deposits.entries.len() - k,
        {
            proof {
                lemma_entry(self.deposits.pairs(), k as int);
            }
            if self.swap_orders.position(&self.deposits.entries[k].order_hash).is_none() {
                return false;
            }
            k += 1;
        }
        proof {
            assert forall|h: Seq<u8>|
                {
                    &&& #[trigger] deposits.contains_key(h) <==> (by_hash(orders).contains_key(h)
                        && by_hash(orders)[h].is_active())
                    &&& deposits.contains_key(h) ==> deposits[h] == by_hash(orders)[h].dst_amount
                } by {
                if deposits.contains_key(h) {
                    let c = key_index(self.deposits.pairs(), h);
                    assert(has_key(self.deposits.pairs(), h));
                    assert(by_hash(orders).contains_key(self.deposits.pairs()[c].0));
                }
                if by_hash(orders).contains_key(h) {
                    assert(has_key(keyed(orders), h));
                    let a = key_index(keyed(orders), h);
                    lemma_entry(keyed(orders), a);
                    assert(orders[a].order_hash == h);
                }
            }
        }
        true
    }

    /// Checks that the call comes from the owner.
    fn assert_owner(&self, ctx: &Context) -> (checked: Result<(), EscrowError>)
        ensures
            checked == match self@.owner_error(ctx.caller@) {
                Some(e) => Err::<(), EscrowError>(e),
                None => Ok::<(), EscrowError>(()),
            },
    {
        if ctx.caller == self.owner {
            Ok(())
        } else {
            Err(EscrowError::NotOwner)
        }
    }

    /// Enables `chain`. Only the owner may do so.
    pub fn add_supported_chain(&mut self, ctx: &Context, chain: String) -> (done: Result<
        (),
        EscrowError,
    >)
        requires
            old(self).wf(),
        ensures
            final(self).wf(),
            final(self)@ == old(self)@.after(
                Operation::SetChain { caller: ctx.caller@, chain: chain@, enabled: true },
            ),
            done is Ok <==> ctx.caller@ == old(self)@.owner,
            done is Ok ==> final(self)@ == old(self)@.with_chain(chain@, true),
            done is Err ==> done == Err::<(), EscrowError>(EscrowError::NotOwner) && *final(self)
                == *old(self),
    {
        match self.assert_owner(ctx) {
            Err(e) => Err(e),
            Ok(()) => {
                self.supported_chains.set(chain, true);
                Ok(())
            },
        }
    }

    /// Disables `chain`: its entry stays, with the flag cleared. Orders
    /// already created from that chain are not affected. Only the owner may
    /// do so.
    pub fn remove_supported_chain(&mut self, ctx: &Context, chain: String) -> (done: Result<
        (),
        EscrowError,
    >)
        requires
            old(self).wf(),
        ensures
            final(self).wf(),
            final(self)@ == old(self)@.after(
                Operation::SetChain { caller: ctx.caller@, chain: chain@, enabled: false },
            ),
            done is Ok <==> ctx.caller@ == old(self)@.owner,
            done is Ok ==> final(self)@ == old(self)@.with_chain(chain@, false),
            done is Err ==> done == Err::<(), EscrowError>(EscrowError::NotOwner) && *final(self)
                == *old(self),
    {
        match self.assert_owner(ctx) {
            Err(e) => Err(e),
            Ok(()) => {
                self.supported_chains.set(chain, false);
                Ok(())
            },
        }
    }

    /// Replaces the bounds on the duration of orders created from now on.
    /// Only the owner may do so, and the minimum must lie below the maximum.
    pub fn update_timelock_limits(
        &mut self,
        ctx: &Context,
        min_timelock: u64,
        max_timelock: u64,
    ) -> (done: Result<(), EscrowError>)
        requires
            old(self).wf(),
        ensures
            final(self).wf(),
            final(self)@ == old(self)@.after(
                Operation::SetLimits { caller: ctx.caller@, min: min_timelock, max: max_timelock },
            ),
            match old(self)@.limits_error(ctx.caller@, min_timelock, max_timelock) {
                Some(e) => done == Err::<(), EscrowError>(e) && *final(self) == *old(self),
                None => done is Ok && final(self)@ == old(self)@.with_limits(
                    min_timelock,
                    max_timelock,
                ),
            },
            done == Err::<(), EscrowError>(EscrowError::NotOwner) <==> ctx.caller@ != old(
                self,
            )@.owner,
    {
        match self.assert_owner(ctx) {
            Err(e) => Err(e),
            Ok(()) => {
                if min_timelock < max_timelock {
                    self.min_timelock = min_timelock;
                    self.max_timelock = max_timelock;
                    Ok(())
                } else {
                    Err(EscrowError::InvalidLimits)
                }
            },
        }
    }

    /// Pays `amount` out of the escrow's balance to the owner, whatever is
    /// held for orders. The stored state does not change. Only the owner may
    /// do so.
    pub fn emergency_withdraw(&mut self, ctx: &Context, amount: u128) -> (done: Result<
        Transfer,
        EscrowError,
    >)
        requires
            old(self).wf(),
        ensures
            *final(self) == *old(self),
            done is Ok <==> ctx.caller@ == old(self)@.owner,
            done matches Ok(pay) ==> pay.recipient@ == old(self)@.owner && pay.amount == amount,
            (match done {
                Ok(pay) => Some((pay.recipient@, pay.amount)),
                Err(_) => None,
            }) == old(self)@.payout(Operation::Withdraw { caller: ctx.caller@, amount }),
            done matches Err(e) ==> e == EscrowError::NotOwner,
    {
        match self.assert_owner(ctx) {
            Err(e) => Err(e),
            Ok(()) => Ok(Transfer { recipient: self.owner.clone(), amount }),
        }
    }

    /// Hands the escrow to `new_owner`. Only the owner may do so.
    pub fn transfer_ownership(&mut self, ctx: &Context, new_owner: String) -> (done: Result<
        (),
        EscrowError,
    >)
        requires
            old(self).wf(),
        ensures
            final(self).wf(),
            final(self)@ == old(self)@.after(
                Operation::TransferOwnership { caller: ctx.caller@, new_owner: new_owner@ },
            ),
            done is Ok <==> ctx.caller@ == old(self)@.owner,
            done is Ok ==> final(self)@ == old(self)@.with_owner(new_owner@),
            done is Err ==> done == Err::<(), EscrowError>(EscrowError::NotOwner) && *final(self)
                == *old(self),
    {
        match self.assert_owner(ctx) {
            Err(e) => Err(e),
            Ok(()) => {
                self.owner = new_owner;
                Ok(())
            },
        }
    }

    /// The owner.
    pub fn get_owner(&self) -> (owner: String)
        ensures
            owner@ == self@.owner,
    {
        self.owner.clone()
    }

    /// Whether `chain` is enabled.
    pub fn is_chain_supported(&self, chain: String) -> (enabled: bool)
        requires
            self.wf(),
        ensures
            enabled == chain_enabled(self@.chains, chain@),
    {
        self.supported_chains.is_enabled(&chain)
    }

    /// The bounds on the duration of new orders: minimum, then maximum.
    pub fn get_timelock_limits(&self) -> (limits: (u64, u64))
        ensures
            limits == (self@.min_timelock, self@.max_timelock),
    {
        (self.min_timelock, self.max_timelock)
    }
}

} // verus!
