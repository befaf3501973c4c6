//! The deposit ledger: which order holds how much.

use crate::assoc::{as_map, distinct_keys, has_key, lemma_entry, lemma_push, lemma_remove, lemma_update};
use crate::bytes::bytes_eq;
use vstd::prelude::*;

verus! {

/// The amount held for one order.
#[derive(Debug)]
pub struct Deposit {
    /// The order the amount is held for.
    pub order_hash: Vec<u8>,
    /// The amount held.
    pub amount: u128,
}

/// A mapping from order hash to the amount held for that order. Its value
/// is the map `self@`.
#[derive(Debug)]
pub struct DepositLedger {
    /// One entry per order hash.
    pub entries: Vec<Deposit>,
}

impl View for DepositLedger {
    type V = Map<Seq<u8>, u128>;

    open spec fn view(&self) -> Map<Seq<u8>, u128> {
        as_map(self.pairs())
    }
}

impl DepositLedger {
    /// The entries as pairs of plain values.
    pub open spec fn pairs(&self) -> Seq<(Seq<u8>, u128)> {
        self.entries@.map_values(|d: Deposit| (d.order_hash@, d.amount))
    }

    /// No order hash has two entries.
    pub open spec fn wf(&self) -> bool {
        distinct_keys(self.pairs())
    }

    /// A ledger that holds nothing.
    pub fn new() -> (ledger: DepositLedger)
        ensures
            ledger.wf(),
            ledger@ == Map::<Seq<u8>, u128>::empty(),
    {
        let ledger = DepositLedger { entries: Vec::new() };
        assert(ledger@ =~= Map::<Seq<u8>, u128>::empty());
        ledger
    }

    /// Where the entry for `order_hash` stands, if there is one.
    fn position(&self, order_hash: &Vec<u8>) -> (found: Option<usize>)
        ensures
            match found {
                Some(i) => i < self.entries.len() && self.pairs()[i as int].0 == order_hash@,
                None => !has_key(self.pairs(), order_hash@),
            },
            found matches Some(i) ==> forall|j: int|
                0 <= j < i ==> (#[trigger] self.pairs()[j]).0 != order_hash@,
    {
        let mut i: usize = 0;
        while i < self.entries.len()
            invariant
                i <= self.entries.len(),
                forall|j: int| 0 <= j < i ==> self.pairs()[j].0 != order_hash@,
            decreases self.entries.len() - i,
        {
            if bytes_eq(&self.entries[i].order_hash, order_hash) {
                return Some(i);
            }
            i += 1;
        }
        None
    }

    /// Whether the table is well formed: no order hash has two entries.
    pub fn is_consistent(&self) -> (ok: bool)
        ensures
            ok == self.wf(),
    {
        let mut i: usize = 0;
        while i < self.entries.len()
            invariant
                i <= self.entries.len(),
                forall|a: int, b: int|
                    0 <= b < a < i ==> (#[trigger] self.pairs()[b]).0 != (
                    #[trigger] self.pairs()[a]).0,
            decreases self.entries.len() - i,
        {
            match self.position(&self.entries[i].order_hash) {
                Some(first) => {
                    if first != i {
                        assert(self.pairs()[first as int].0 == self.pairs()[i as int].0);
                        return false;
                    }
                },
                None => {
                    assert(self.pairs()[i as int].0 == self.entries[i as int].order_hash@);
                    return false;
                },
            }
            i += 1;
        }
        assert forall|a: int, b: int|
            0 <= a < self.pairs().len() && 0 <= b < self.pairs().len() && a != b implies self.pairs()[a].0
            != self.pairs()[b].0 by {
            if a < b {
                assert(self.pairs()[a].0 != self.pairs()[b].0);
            } else {
                assert(self.pairs()[b].0 != self.pairs()[a].0);
            }
        }
        true
    }

    /// The amount held for `order_hash`, if any.
    pub fn get(&self, order_hash: &Vec<u8>) -> (held: Option<u128>)
        requires
            self.wf(),
        ensures
            held == self@.get(order_hash@),
    {
        match self.position(order_hash) {
            Some(i) => {
                proof {
                    lemma_entry(self.pairs(), i as int);
                }
                Some(self.entries[i].amount)
            },
            None => None,
        }
    }

    /// Records `amount` for `order_hash`, replacing what was recorded before.
    pub fn insert(&mut self, order_hash: Vec<u8>, amount: u128)
        requires
            old(self).wf(),
        ensures
            final(self).wf(),
            final(self)@ == old(self)@.insert(order_hash@, amount),
    {
        let ghost before = self.pairs();
        match self.position(&order_hash) {
            Some(i) => {
                self.entries.set(i, Deposit { order_hash, amount });
                proof {
                    assert(self.pairs() =~= before.update(i as int, (before[i as int].0, amount)));
                    lemma_update(before, i as int, amount);
                }
            },
            None => {
                let ghost key = order_hash@;
                self.entries.push(Deposit { order_hash, amount });
                proof {
                    assert(self.pairs() =~= before.push((key, amount)));
                    lemma_push(before, key, amount);
                }
            },
        }
    }

    /// Clears the entry for `order_hash` and hands back what it held.
    pub fn remove(&mut self, order_hash: &Vec<u8>) -> (held: Option<u128>)
        requires
            old(self).wf(),
        ensures
            final(self).wf(),
            final(self)@ == old(self)@.remove(order_hash@),
            held == old(self)@.get(order_hash@),
    {
        let ghost before = self.pairs();
        match self.position(order_hash) {
            Some(i) => {
                let taken = self.entries.remove(i);
                proof {
                    assert(self.pairs() =~= before.remove(i as int));
                    lemma_entry(before, i as int);
                    lemma_remove(before, i as int);
                }
                Some(taken.amount)
            },
            None => {
                assert(self@ =~= old(self)@.remove(order_hash@));
                None
            },
        }
    }
}

} // verus!
