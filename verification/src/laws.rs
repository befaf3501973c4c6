//! What holds of the escrow in every state and across calls.

use crate::assoc::{has_key, lemma_entry, lemma_push, lemma_update};
use crate::error::{ErrorKind, EscrowError};
use crate::state::{lemma_no_orders_no_deposits, new_order, EscrowView};
use crate::model::Operation;
use crate::order::{HTLCState, SwapOrderView};
use crate::store::{active_only, active_page, by_hash, keyed, page_end, page_start};
use vstd::prelude::*;

verus! {

/// Storing a new active order under a fresh hash keeps the escrow well
/// formed, makes the order the one found under its hash, and leaves every
/// other order as it was.
pub proof fn lemma_with_order(s: EscrowView, order: SwapOrderView)
    requires
        s.wf(),
        order.wf(),
        order.is_active(),
        s.order(order.order_hash) is None,
    ensures
        s.with_order(order).wf(),
        by_hash(s.with_order(order).orders) == by_hash(s.orders).insert(order.order_hash, order),
{
    let t = s.with_order(order);
    assert(keyed(t.orders) =~= keyed(s.orders).push((order.order_hash, order)));
    lemma_push(keyed(s.orders), order.order_hash, order);
    assert forall|i: int| 0 <= i < t.orders.len() implies (#[trigger] t.orders[i]).wf() by {
        if i < s.orders.len() {
            assert(s.orders[i].wf());
        }
    }
}

/// Moving an active order into a terminal state keeps the escrow well
/// formed, replaces the order found under its hash by the settled one, and
/// leaves every other order as it was.
pub proof fn lemma_settled(s: EscrowView, order_hash: Seq<u8>, state: HTLCState)
    requires
        s.wf(),
        s.order(order_hash) matches Some(order) && order.is_active(),
        state != HTLCState::Active,
    ensures
        s.settled(order_hash, state).wf(),
        s.settled(order_hash, state).orders.len() == s.orders.len(),
        0 <= s.index_of(order_hash) < s.orders.len(),
        s.orders[s.index_of(order_hash)] == s.order(order_hash)->0,
        by_hash(s.settled(order_hash, state).orders) == by_hash(s.orders).insert(
            order_hash,
            s.order(order_hash)->0.with_state(state),
        ),
{
    let t = s.settled(order_hash, state);
    let i = s.index_of(order_hash);
    assert(has_key(keyed(s.orders), order_hash));
    lemma_entry(keyed(s.orders), i);
    let next = s.orders[i].with_state(state);
    assert(keyed(t.orders) =~= keyed(s.orders).update(i, (keyed(s.orders)[i].0, next)));
    lemma_update(keyed(s.orders), i, next);
    assert forall|j: int| 0 <= j < t.orders.len() implies (#[trigger] t.orders[j]).wf() by {
        assert(s.orders[j].wf());
    }
}

/// Every operation, refused or not, leaves the escrow well formed: no hash
/// is stored twice, every hash lock has 32 bytes, and a deposit is held for
/// an order exactly while the order is active.
pub proof fn law_operations_keep_invariant(s: EscrowView, op: Operation)
    requires
        s.wf(),
    ensures
        s.after(op).wf(),
{
    if s.refusal(op) is None {
        match op {
            Operation::Create {
                now,
                caller,
                deposit,
                order_hash,
                src_maker,
                src_chain,
                src_token,
                src_amount,
                dst_recipient,
                dst_token,
                hash_lock,
                timelock,
            } => {
                lemma_with_order(
                    s,
                    new_order(
                        now,
                        caller,
                        deposit,
                        order_hash,
                        src_maker,
                        src_chain,
                        src_token,
                        src_amount,
                        dst_recipient,
                        dst_token,
                        hash_lock,
                        timelock,
                    ),
                );
            },
            Operation::Complete { order_hash, .. } => {
                lemma_settled(s, order_hash, HTLCState::Completed);
            },
            Operation::Refund { order_hash, .. } => {
                lemma_settled(s, order_hash, HTLCState::Refunded);
            },
            _ => {},
        }
    }
}

/// A new escrow is well formed, whoever owns it and whichever chains it
/// starts with.
pub proof fn law_initial_state_is_well_formed(owner: Seq<char>, chains: Map<Seq<char>, bool>)
    ensures
        EscrowView::initial(owner, chains).wf(),
{
    lemma_no_orders_no_deposits();
}

/// Every run of operations leaves the escrow well formed.
pub proof fn law_runs_keep_invariant(s: EscrowView, ops: Seq<Operation>)
    requires
        s.wf(),
    ensures
        s.after_all(ops).wf(),
    decreases ops.len(),
{
    if ops.len() > 0 {
        law_runs_keep_invariant(s, ops.drop_last());
        law_operations_keep_invariant(s.after_all(ops.drop_last()), ops.last());
    }
}

/// A refused operation changes nothing and pays nobody.
pub proof fn law_refused_changes_nothing(s: EscrowView, op: Operation)
    requires
        s.refusal(op) is Some,
    ensures
        s.after(op) == s,
        s.payout(op) is None,
{
}

/// An accepted creation stores the order as active, with the attached
/// deposit as its amount and the caller as its resolver, holds exactly that
/// deposit for it, and pays nobody.
pub proof fn law_created_order(s: EscrowView, op: Operation)
    requires
        s.wf(),
        op is Create,
        s.refusal(op) is None,
    ensures
        s.after(op).order(op->Create_order_hash) matches Some(order) && order.state
            == HTLCState::Active && order.dst_amount == op->Create_deposit && order.resolver
            == op->Create_caller && order.created_at == op->Create_now,
        s.after(op).deposits.get(op->Create_order_hash) == Some(op->Create_deposit),
        s.min_timelock < op->Create_timelock - op->Create_now < s.max_timelock,
        s.payout(op) is None,
{
    law_operations_keep_invariant(s, op);
    let t = s.after(op);
    lemma_with_order(s, t.orders.last());
}

/// A completion is accepted exactly when the order exists, is active, has
/// not passed its deadline, and the digest equals its hash lock. It then
/// pays the amount held to the order's recipient and leaves the order
/// completed.
pub proof fn law_completion(s: EscrowView, now: u64, order_hash: Seq<u8>, digest: Seq<u8>)
    requires
        s.wf(),
    ensures
        ({
            let op = Operation::Complete { now, order_hash, digest };
            &&& s.refusal(op) is None <==> (s.order(order_hash) matches Some(order) && order.state
                == HTLCState::Active && now <= order.timelock && digest == order.hash_lock)
            &&& s.refusal(op) is None ==> s.payout(op) == Some(
                (s.order(order_hash)->0.dst_recipient, s.order(order_hash)->0.dst_amount),
            ) && s.after(op).order(order_hash) == Some(
                s.order(order_hash)->0.with_state(HTLCState::Completed),
            )
        }),
{
    let op = Operation::Complete { now, order_hash, digest };
    if s.refusal(op) is None {
        lemma_settled(s, order_hash, HTLCState::Completed);
        law_deposit_held_iff_active(s, order_hash);
    }
}

/// A refund is accepted exactly when the order exists, is active, and has
/// passed its deadline. It then pays the amount held back to the order's
/// resolver and leaves the order refunded.
pub proof fn law_refund(s: EscrowView, now: u64, order_hash: Seq<u8>)
    requires
        s.wf(),
    ensures
        ({
            let op = Operation::Refund { now, order_hash };
            &&& s.refusal(op) is None <==> (s.order(order_hash) matches Some(order) && order.state
                == HTLCState::Active && now > order.timelock)
            &&& s.refusal(op) is None ==> s.payout(op) == Some(
                (s.order(order_hash)->0.resolver, s.order(order_hash)->0.dst_amount),
            ) && s.after(op).order(order_hash) == Some(
                s.order(order_hash)->0.with_state(HTLCState::Refunded),
            )
        }),
{
    let op = Operation::Refund { now, order_hash };
    if s.refusal(op) is None {
        lemma_settled(s, order_hash, HTLCState::Refunded);
        law_deposit_held_iff_active(s, order_hash);
    }
}

/// No operation touches an order that is completed or refunded.
pub proof fn law_terminal_order_is_untouched(s: EscrowView, op: Operation, order_hash: Seq<u8>)
    requires
        s.wf(),
        s.order(order_hash) matches Some(order) && !order.is_active(),
    ensures
        s.after(op).order(order_hash) == s.order(order_hash),
{
    if s.refusal(op) is None {
        match op {
            Operation::Create { .. } => {
                law_operations_keep_invariant(s, op);
                lemma_with_order(s, s.after(op).orders.last());
            },
            Operation::Complete { order_hash: other, .. } => {
                lemma_settled(s, other, HTLCState::Completed);
            },
            Operation::Refund { order_hash: other, .. } => {
                lemma_settled(s, other, HTLCState::Refunded);
            },
            _ => {},
        }
    }
}

/// Once an order is completed or refunded, it stays so through every run of
/// operations, and every later completion or refund of it is refused as an
/// invalid-state error, whatever the time and the secret.
pub proof fn law_terminal_state_is_final(
    s: EscrowView,
    ops: Seq<Operation>,
    order_hash: Seq<u8>,
    now: u64,
    digest: Seq<u8>,
)
    requires
        s.wf(),
        s.order(order_hash) matches Some(order) && !order.is_active(),
    ensures
        s.after_all(ops).wf(),
        s.after_all(ops).order(order_hash) == s.order(order_hash),
        s.after_all(ops).refusal(Operation::Complete { now, order_hash, digest }) == Some(
            EscrowError::InvalidState,
        ),
        s.after_all(ops).refusal(Operation::Refund { now, order_hash }) == Some(
            EscrowError::InvalidState,
        ),
        EscrowError::InvalidState.kind_of() == ErrorKind::InvalidState,
    decreases ops.len(),
{
    if ops.len() > 0 {
        law_terminal_state_is_final(s, ops.drop_last(), order_hash, now, digest);
        let mid = s.after_all(ops.drop_last());
        law_operations_keep_invariant(mid, ops.last());
        law_terminal_order_is_untouched(mid, ops.last(), order_hash);
    }
}

/// A deposit is held for an order exactly while the order is active, and
/// what is held is the order's amount.
pub proof fn law_deposit_held_iff_active(s: EscrowView, order_hash: Seq<u8>)
    requires
        s.wf(),
    ensures
        s.deposits.contains_key(order_hash) <==> (s.order(order_hash) matches Some(order)
            && order.is_active()),
        s.deposits.contains_key(order_hash) ==> s.deposits[order_hash] == s.order(
            order_hash,
        )->0.dst_amount,
{
    assert(s.deposits.contains_key(order_hash) <==> (by_hash(s.orders).contains_key(order_hash)
        && by_hash(s.orders)[order_hash].is_active()));
}

/// Orders are never deleted, never move, and change in nothing but their
/// state: after any operation every stored order stands where it stood,
/// with the fields it had.
pub proof fn law_orders_are_permanent(s: EscrowView, op: Operation, i: int)
    requires
        s.wf(),
        0 <= i < s.orders.len(),
    ensures
        i < s.after(op).orders.len(),
        s.after(op).orders[i].with_state(HTLCState::Active) == s.orders[i].with_state(
            HTLCState::Active,
        ),
        s.after(op).orders[i].state != s.orders[i].state ==> s.orders[i].is_active(),
{
    if s.refusal(op) is None {
        match op {
            Operation::Complete { order_hash, .. } => {
                lemma_settled(s, order_hash, HTLCState::Completed);
            },
            Operation::Refund { order_hash, .. } => {
                lemma_settled(s, order_hash, HTLCState::Refunded);
            },
            _ => {},
        }
    }
}

/// The owner's controls refuse every caller but the owner with an
/// authorization error, and accept the owner; new bounds are accepted from
/// the owner when the minimum lies below the maximum.
pub proof fn law_owner_controls(s: EscrowView, op: Operation)
    requires
        op is SetChain || op is SetLimits || op is Withdraw || op is TransferOwnership,
    ensures
        ({
            let caller = match op {
                Operation::SetChain { caller, .. } => caller,
                Operation::SetLimits { caller, .. } => caller,
                Operation::Withdraw { caller, .. } => caller,
                Operation::TransferOwnership { caller, .. } => caller,
                _ => s.owner,
            };
            &&& s.refusal(op) == Some(EscrowError::NotOwner) <==> caller != s.owner
            &&& caller == s.owner && !(op is SetLimits) ==> s.refusal(op) is None
            &&& caller == s.owner && op is SetLimits ==> (s.refusal(op) is None
                <==> op->SetLimits_min < op->SetLimits_max)
        }),
        EscrowError::NotOwner.kind_of() == ErrorKind::Authorization,
{
}

/// Creation is refused for an unsupported chain exactly when the allowlist
/// holds no flag for the source chain or holds `false`.
pub proof fn law_chain_gating(s: EscrowView, op: Operation)
    requires
        op is Create,
    ensures
        s.refusal(op) == Some(EscrowError::UnsupportedChain) <==> !(s.chains.contains_key(
            op->Create_src_chain,
        ) && s.chains[op->Create_src_chain]),
{
}

/// The listing of active orders of two stretches laid end to end is the
/// listing of the first followed by the listing of the second.
pub proof fn lemma_active_only_concat(a: Seq<SwapOrderView>, b: Seq<SwapOrderView>)
    ensures
        active_only(a + b) == active_only(a) + active_only(b),
    decreases b.len(),
{
    if b.len() == 0 {
        assert(a + b =~= a);
        assert(active_only(a) + active_only(b) =~= active_only(a));
    } else {
        lemma_active_only_concat(a, b.drop_last());
        assert((a + b).drop_last() =~= a + b.drop_last());
        assert((a + b).last() == b.last());
        assert(active_only(a + b) =~= active_only(a) + active_only(b));
    }
}

/// The listing of active orders is no longer than the stretch it is taken
/// from, and is the stretch itself where every order in it is active.
pub proof fn lemma_active_only_len(orders: Seq<SwapOrderView>)
    ensures
        active_only(orders).len() <= orders.len(),
        (forall|i: int| 0 <= i < orders.len() ==> (#[trigger] orders[i]).is_active())
            ==> active_only(orders) == orders,
    decreases orders.len(),
{
    if orders.len() > 0 {
        lemma_active_only_len(orders.drop_last());
        if forall|i: int| 0 <= i < orders.len() ==> (#[trigger] orders[i]).is_active() {
            assert forall|i: int| 0 <= i < orders.drop_last().len() implies (
            #[trigger] orders.drop_last()[i]).is_active() by {
                assert(orders[i].is_active());
            }
            assert(orders.last().is_active());
            assert(orders.drop_last().push(orders.last()) =~= orders);
        }
    } else {
        assert(active_only(orders) =~= orders);
    }
}

/// Every order of the listing is active and stands somewhere in the stretch
/// the listing is taken from: the result is such a position.
pub proof fn lemma_active_only_source(orders: Seq<SwapOrderView>, k: int) -> (i: int)
    requires
        0 <= k < active_only(orders).len(),
    ensures
        0 <= i < orders.len(),
        orders[i] == active_only(orders)[k],
        orders[i].is_active(),
    decreases orders.len(),
{
    let rest = orders.drop_last();
    if orders.last().is_active() && k == active_only(rest).len() {
        orders.len() - 1
    } else {
        lemma_active_only_source(rest, k)
    }
}

/// The listing keeps the order of the stretch it is taken from: of two of
/// its orders, the earlier one stands earlier in the stretch. The result is
/// a pair of such positions.
pub proof fn law_listing_keeps_creation_order(orders: Seq<SwapOrderView>, a: int, b: int) -> (at: (
    int,
    int,
))
    requires
        0 <= a < b < active_only(orders).len(),
    ensures
        0 <= at.0 < at.1 < orders.len(),
        orders[at.0] == active_only(orders)[a],
        orders[at.1] == active_only(orders)[b],
    decreases orders.len(),
{
    let rest = orders.drop_last();
    if orders.last().is_active() && b == active_only(rest).len() {
        let i = lemma_active_only_source(rest, a);
        (i, orders.len() - 1)
    } else {
        law_listing_keeps_creation_order(rest, a, b)
    }
}

/// A page of the active listing holds at most `take` orders, all of them
/// active, and is one unbroken run of the listing of all active orders: the
/// run that starts behind the active orders among the first `skip` stored
/// ones. Where all of those are active, the run starts behind exactly `skip`
/// listed orders.
pub proof fn law_active_page(orders: Seq<SwapOrderView>, skip: int, take: int)
    requires
        0 <= skip,
        0 <= take,
    ensures
        ({
            let page = active_page(orders, skip, take);
            let listing = active_only(orders);
            let before = active_only(orders.take(page_start(orders, skip))).len();
            &&& page.len() <= take
            &&& forall|k: int| 0 <= k < page.len() ==> (#[trigger] page[k]).is_active()
            &&& before <= skip
            &&& before + page.len() <= listing.len()
            &&& page == listing.subrange(before as int, (before + page.len()) as int)
            &&& (forall|i: int| 0 <= i < page_start(orders, skip) ==> (#[trigger] orders[i]).is_active())
                ==> before == page_start(orders, skip)
        }),
{
    let lo = page_start(orders, skip);
    let hi = page_end(orders, skip, take);
    let head = orders.take(lo);
    let window = orders.subrange(lo, hi);
    let rest = orders.skip(hi);
    let page = active_page(orders, skip, take);
    let listing = active_only(orders);
    assert(orders =~= (head + window) + rest);
    lemma_active_only_concat(head + window, rest);
    lemma_active_only_concat(head, window);
    lemma_active_only_len(head);
    lemma_active_only_len(window);
    let before = active_only(head).len();
    assert(page =~= listing.subrange(before as int, (before + page.len()) as int));
    assert forall|k: int| 0 <= k < page.len() implies (#[trigger] page[k]).is_active() by {
        let i = lemma_active_only_source(window, k);
    }
    if forall|i: int| 0 <= i < lo ==> (#[trigger] orders[i]).is_active() {
        assert forall|i: int| 0 <= i < head.len() implies (#[trigger] head[i]).is_active() by {
            assert(orders[i].is_active());
        }
    }
}

/// A page lists its orders in creation order: of two of its orders, the
/// earlier one was created earlier, and both stand among the `take` stored
/// orders behind the first `skip`. The result is their pair of positions in
/// the store.
pub proof fn law_page_keeps_creation_order(
    orders: Seq<SwapOrderView>,
    skip: int,
    take: int,
    a: int,
    b: int,
) -> (at: (int, int))
    requires
        0 <= skip,
        0 <= take,
        0 <= a < b < active_page(orders, skip, take).len(),
    ensures
        skip <= at.0 < at.1 < skip + take,
        at.1 < orders.len(),
        orders[at.0] == active_page(orders, skip, take)[a],
        orders[at.1] == active_page(orders, skip, take)[b],
{
    let lo = page_start(orders, skip);
    let hi = page_end(orders, skip, take);
    let at = law_listing_keeps_creation_order(orders.subrange(lo, hi), a, b);
    (lo + at.0, lo + at.1)
}

} // verus!
