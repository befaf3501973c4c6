//! The allowlist of source chains.

use crate::assoc::{as_map, distinct_keys, has_key, lemma_entry, lemma_push, lemma_update};
use vstd::prelude::*;

verus! {

/// The flag stored for one source chain.
#[derive(Debug)]
pub struct ChainFlag {
    /// Source chain identifier.
    pub chain: String,
    /// Whether orders from that chain are accepted.
    pub enabled: bool,
}

/// A mapping from source chain to its flag. Disabling a chain keeps its
/// entry and clears the flag. Its value is the map `self@`.
#[derive(Debug)]
pub struct ChainAllowlist {
    /// One entry per chain.
    pub entries: Vec<ChainFlag>,
}

/// A chain is enabled when the allowlist holds `true` for it.
pub open spec fn chain_enabled(chains: Map<Seq<char>, bool>, chain: Seq<char>) -> bool {
    chains.contains_key(chain) && chains[chain]
}

impl View for ChainAllowlist {
    type V = Map<Seq<char>, bool>;

    open spec fn view(&self) -> Map<Seq<char>, bool> {
        as_map(self.pairs())
    }
}

impl ChainAllowlist {
    /// The entries as pairs of plain values.
    pub open spec fn pairs(&self) -> Seq<(Seq<char>, bool)> {
        self.entries@.map_values(|c: ChainFlag| (c.chain@, c.enabled))
    }

    /// No chain has two entries.
    pub open spec fn wf(&self) -> bool {
        distinct_keys(self.pairs())
    }

    /// An allowlist without entries.
    pub fn new() -> (list: ChainAllowlist)
        ensures
            list.wf(),
            list@ == Map::<Seq<char>, bool>::empty(),
    {
        let list = ChainAllowlist { entries: Vec::new() };
        assert(list@ =~= Map::<Seq<char>, bool>::empty());
        list
    }

    /// Where the entry for `chain` stands, if there is one.
    fn position(&self, chain: &String) -> (found: Option<usize>)
        ensures
            match found {
                Some(i) => i < self.entries.len() && self.pairs()[i as int].0 == chain@,
                None => !has_key(self.pairs(), chain@),
            },
            found matches Some(i) ==> forall|j: int|
                0 <= j < i ==> (#[trigger] self.pairs()[j]).0 != chain@,
    {
        let mut i: usize = 0;
        while i < self.entries.len()
            invariant
                i <= self.entries.len(),
                forall|j: int| 0 <= j < i ==> self.pairs()[j].0 != chain@,
            decreases self.entries.len() - i,
        {
            if self.entries[i].chain == *chain {
                return Some(i);
            }
            i += 1;
        }
        None
    }

    /// Whether the table is well formed: no chain has two entries.
    pub fn is_consistent(&self) -> (ok: bool)
        ensures
            ok == self.wf(),
    {
        let mut i: usize = 0;
        while i < self.entries.len()
            invariant
                i <= self.entries.len(),
                forall|a: int, b: int|
                    0 <= b < a < i ==> (#[trigger] self.pairs()[b]).0 != (
                    #[trigger] self.pairs()[a]).0,
            decreases self.entries.len() - i,
        {
            match self.position(&self.entries[i].chain) {
                Some(first) => {
                    if first != i {
                        assert(self.pairs()[first as int].0 == self.pairs()[i as int].0);
                        return false;
                    }
                },
                None => {
                    assert(self.pairs()[i as int].0 == self.entries[i as int].chain@);
                    return false;
                },
            }
            i += 1;
        }
        assert forall|a: int, b: int|
            0 <= a < self.pairs().len() && 0 <= b < self.pairs().len() && a != b implies self.pairs()[a].0
            != self.pairs()[b].0 by {
            if a < b {
                assert(self.pairs()[a].0 != self.pairs()[b].0);
            } else {
                assert(self.pairs()[b].0 != self.pairs()[a].0);
            }
        }
        true
    }

    /// Whether `chain` is enabled: absent and disabled chains both are not.
    pub fn is_enabled(&self, chain: &String) -> (enabled: bool)
        requires
            self.wf(),
        ensures
            enabled == chain_enabled(self@, chain@),
    {
        match self.position(chain) {
            Some(i) => {
                proof {
                    lemma_entry(self.pairs(), i as int);
                }
                self.entries[i].enabled
            },
            None => false,
        }
    }

    /// Stores `enabled` as the flag of `chain`.
    pub fn set(&mut self, chain: String, enabled: bool)
        requires
            old(self).wf(),
        ensures
            final(self).wf(),
            final(self)@ == old(self)@.insert(chain@, enabled),
    {
        let ghost before = self.pairs();
        match self.position(&chain) {
            Some(i) => {
                self.entries.set(i, ChainFlag { chain, enabled });
                proof {
                    assert(self.pairs() =~= before.update(i as int, (before[i as int].0, enabled)));
                    lemma_update(before, i as int, enabled);
                }
            },
            None => {
                let ghost key = chain@;
                self.entries.push(ChainFlag { chain, enabled });
                proof {
                    assert(self.pairs() =~= before.push((key, enabled)));
                    lemma_push(before, key, enabled);
                }
            },
        }
    }
}

} // verus!
