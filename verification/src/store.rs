//! The order store: every order ever created, in creation order, found by
//! its hash.

use crate::assoc::{as_map, distinct_keys, has_key, lemma_entry, lemma_push, lemma_update};
use crate::bytes::bytes_eq;
use crate::order::{HTLCState, SwapOrder, SwapOrderView};
use vstd::prelude::*;

verus! {

/// The orders paired with the hash each is stored under.
pub open spec fn keyed(orders: Seq<SwapOrderView>) -> Seq<(Seq<u8>, SwapOrderView)> {
    orders.map_values(|o: SwapOrderView| (o.order_hash, o))
}

/// The orders as a map from order hash to order.
pub open spec fn by_hash(orders: Seq<SwapOrderView>) -> Map<Seq<u8>, SwapOrderView> {
    as_map(keyed(orders))
}

/// No hash is stored twice, and every order is well formed.
pub open spec fn orders_wf(orders: Seq<SwapOrderView>) -> bool {
    &&& distinct_keys(keyed(orders))
    &&& forall|i: int| 0 <= i < orders.len() ==> (#[trigger] orders[i]).wf()
}

/// The active orders among `orders`, in the order in which they stand.
pub open spec fn active_only(orders: Seq<SwapOrderView>) -> Seq<SwapOrderView>
    decreases orders.len(),
{
    if orders.len() == 0 {
        Seq::empty()
    } else if orders.last().is_active() {
        active_only(orders.drop_last()).push(orders.last())
    } else {
        active_only(orders.drop_last())
    }
}

/// The first position of a page that skips `skip` stored orders.
pub open spec fn page_start(orders: Seq<SwapOrderView>, skip: int) -> int {
    if skip < orders.len() {
        skip
    } else {
        orders.len() as int
    }
}

/// The position behind a page of at most `take` stored orders after `skip`.
pub open spec fn page_end(orders: Seq<SwapOrderView>, skip: int, take: int) -> int {
    if skip + take < orders.len() {
        skip + take
    } else {
        orders.len() as int
    }
}

/// One page of the listing of active orders: of the stored orders, the
/// first `skip` are passed over, the next `take` are looked at, and of these
/// the active ones are kept.
pub open spec fn active_page(orders: Seq<SwapOrderView>, skip: int, take: int) -> Seq<
    SwapOrderView,
> {
    active_only(orders.subrange(page_start(orders, skip), page_end(orders, skip, take)))
}

/// The values of a vector of orders.
pub open spec fn views(orders: Seq<SwapOrder>) -> Seq<SwapOrderView> {
    orders.map_values(|o: SwapOrder| o@)
}

/// Looking at one more order keeps it if and only if it is active.
pub proof fn lemma_active_only_push(orders: Seq<SwapOrderView>, next: SwapOrderView)
    ensures
        active_only(orders.push(next)) == if next.is_active() {
            active_only(orders).push(next)
        } else {
            active_only(orders)
        },
{
    assert(orders.push(next).drop_last() =~= orders);
}

/// Every order ever created, in creation order. Its value is the sequence
/// `self@`.
#[derive(Debug)]
pub struct OrderStore {
    /// The orders, oldest first.
    pub entries: Vec<SwapOrder>,
}

impl View for OrderStore {
    type V = Seq<SwapOrderView>;

    open spec fn view(&self) -> Seq<SwapOrderView> {
        views(self.entries@)
    }
}

impl OrderStore {
    /// No hash is stored twice, and every order is well formed.
    pub open spec fn wf(&self) -> bool {
        orders_wf(self@)
    }

    /// A store without orders.
    pub fn new() -> (store: OrderStore)
        ensures
            store.wf(),
            store@ == Seq::<SwapOrderView>::empty(),
    {
        let store = OrderStore { entries: Vec::new() };
        assert(store@ =~= Seq::<SwapOrderView>::empty());
        store
    }

    /// How many orders were ever created.
    pub fn len(&self) -> (n: usize)
        ensures
            n == self@.len(),
    {
        self.entries.len()
    }

    /// Where the order stored under `order_hash` stands, if there is one.
    pub fn position(&self, order_hash: &Vec<u8>) -> (found: Option<usize>)
        ensures
            match found {
                Some(i) => i < self@.len() && self@[i as int].order_hash == order_hash@,
                None => !has_key(keyed(self@), order_hash@),
            },
            found matches Some(i) ==> forall|j: int|
                0 <= j < i ==> (#[trigger] self@[j]).order_hash != order_hash@,
            self.wf() ==> (found is Some <==> by_hash(self@).contains_key(order_hash@)),
            self.wf() && found is Some ==> by_hash(self@)[order_hash@] == self@[found->0 as int],
    {
        let mut i: usize = 0;
        while i < self.entries.len()
            invariant
                i <= self.entries.len(),
                forall|j: int| 0 <= j < i ==> keyed(self@)[j].0 != order_hash@,
                forall|j: int| 0 <= j < i ==> (#[trigger] self@[j]).order_hash != order_hash@,
            decreases self.entries.len() - i,
        {
            if bytes_eq(&self.entries[i].order_hash, order_hash) {
                proof {
                    assert(keyed(self@)[i as int].0 == order_hash@);
                    if self.wf() {
                        lemma_entry(keyed(self@), i as int);
                    }
                }
                return Some(i);
            }
            i += 1;
        }
        None
    }

    /// Whether the store is well formed: every order is, and no hash is
    /// stored twice.
    pub fn is_consistent(&self) -> (ok: bool)
        ensures
            ok == self.wf(),
    {
        let mut i: usize = 0;
        while i < self.entries.len()
            invariant
                i <= self.entries.len(),
                forall|a: int| 0 <= a < i ==> (#[trigger] self@[a]).wf(),
                forall|a: int, b: int|
                    0 <= b < a < i ==> (#[trigger] self@[b]).order_hash != (
                    #[trigger] self@[a]).order_hash,
            decreases self.entries.len() - i,
        {
            if !self.entries[i].is_well_formed() {
                assert(!self@[i as int].wf());
                return false;
            }
            match self.position(&self.entries[i].order_hash) {
                Some(first) => {
                    if first != i {
                        assert(keyed(self@)[first as int].0 == keyed(self@)[i as int].0);
                        return false;
                    }
                },
                None => {
                    assert(keyed(self@)[i as int].0 == self@[i as int].order_hash);
                    return false;
                },
            }
            i += 1;
        }
        assert forall|a: int, b: int|
            0 <= a < keyed(self@).len() && 0 <= b < keyed(self@).len() && a != b implies keyed(
            self@,
        )[a].0 != keyed(self@)[b].0 by {
            if a < b {
                assert(self@[a].order_hash != self@[b].order_hash);
            } else {
                assert(self@[b].order_hash != self@[a].order_hash);
            }
        }
        true
    }

    /// The order stored under `order_hash`, if there is one.
    pub fn get(&self, order_hash: &Vec<u8>) -> (found: Option<&SwapOrder>)
        requires
            self.wf(),
        ensures
            match found {
                Some(order) => by_hash(self@).get(order_hash@) == Some(order@),
                None => by_hash(self@).get(order_hash@) is None,
            },
    {
        match self.position(order_hash) {
            Some(i) => Some(&self.entries[i]),
            None => None,
        }
    }

    /// Appends a new order.
    pub fn insert(&mut self, order: SwapOrder)
        requires
            old(self).wf(),
            order@.wf(),
            !by_hash(old(self)@).contains_key(order@.order_hash),
        ensures
            final(self).wf(),
            final(self)@ == old(self)@.push(order@),
            by_hash(final(self)@) == by_hash(old(self)@).insert(order@.order_hash, order@),
    {
        let ghost before = self@;
        let ghost value = order@;
        self.entries.push(order);
        proof {
            assert(self@ =~= before.push(value));
            assert(keyed(self@) =~= keyed(before).push((value.order_hash, value)));
            lemma_push(keyed(before), value.order_hash, value);
        }
    }

    /// Moves the order at position `i` into `state`.
    pub fn set_state(&mut self, i: usize, state: HTLCState)
        requires
            old(self).wf(),
            i < old(self)@.len(),
        ensures
            final(self).wf(),
            final(self)@ == old(self)@.update(i as int, old(self)@[i as int].with_state(state)),
            by_hash(final(self)@) == by_hash(old(self)@).insert(
                old(self)@[i as int].order_hash,
                old(self)@[i as int].with_state(state),
            ),
    {
        let ghost before = self@;
        let next = self.entries[i].with_state(state);
        let ghost value = next@;
        self.entries.set(i, next);
        proof {
            assert(self@ =~= before.update(i as int, value));
            assert(keyed(self@) =~= keyed(before).update(
                i as int,
                (keyed(before)[i as int].0, value),
            ));
            lemma_update(keyed(before), i as int, value);
            assert forall|j: int| 0 <= j < self@.len() implies (#[trigger] self@[j]).wf() by {
                assert(before[j].wf());
            }
        }
    }

    /// One page of the listing of active orders.
    pub fn active_page(&self, skip: usize, take: usize) -> (page: Vec<SwapOrder>)
        ensures
            views(page@) == active_page(self@, skip as int, take as int),
    {
        let n = self.entries.len();
        let lo = if skip < n { skip } else { n };
        let hi = if take < n - lo { lo + take } else { n };
        let mut page: Vec<SwapOrder> = Vec::new();
        let mut i: usize = lo;
        assert(views(page@) =~= active_only(self@.subrange(lo as int, i as int)));
        while i < hi
            invariant
                lo <= i <= hi <= n,
                n == self@.len(),
                views(page@) == active_only(self@.subrange(lo as int, i as int)),
            decreases hi - i,
        {
            let ghost seen = self@.subrange(lo as int, i as int);
            let ghost kept = views(page@);
            proof {
                assert(self@.subrange(lo as int, i + 1) =~= seen.push(self@[i as int]));
                lemma_active_only_push(seen, self@[i as int]);
            }
            if self.entries[i].is_active() {
                let copy = self.entries[i].clone();
                page.push(copy);
                assert(views(page@) =~= kept.push(self@[i as int]));
            }
            i += 1;
        }
        page
    }
}

} // verus!
