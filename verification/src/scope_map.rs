//! The scope map: the memoization table from output ports to stack slots.
//!
//! During one compile pass every materialized output port is assigned the
//! stack slot its value occupies.  The table is append-only: once a slot is
//! assigned it stays assigned for the rest of the pass.

use vstd::prelude::*;

verus! {

/// One assignment: output port `(node, port)` holds its value in `slot`.
type SlotEntry = (usize, usize, usize);

/// The map described by `entries`, later entries overriding earlier ones.
pub open spec fn spec_entries_map(entries: Seq<SlotEntry>) -> Map<(usize, usize), usize>
    decreases entries.len(),
{
    if entries.len() == 0 {
        Map::empty()
    } else {
        let e = entries.last();
        spec_entries_map(entries.drop_last()).insert((e.0, e.1), e.2)
    }
}

/// Every port occurs at most once in `entries`.
pub open spec fn spec_keys_distinct(entries: Seq<SlotEntry>) -> bool {
    forall|i: int, j: int|
        0 <= i < j < entries.len() ==> ((#[trigger] entries[i]).0, entries[i].1) != ((
        #[trigger] entries[j]).0, entries[j].1)
}

/// The memoization table from output ports to stack slots.
pub struct ScopeMap {
    entries: Vec<SlotEntry>,
}

impl View for ScopeMap {
    type V = Map<(usize, usize), usize>;

    closed spec fn view(&self) -> Map<(usize, usize), usize> {
        spec_entries_map(self.entries@)
    }
}

/// A key is in the described map exactly when some entry carries it.
proof fn lemma_contains(entries: Seq<SlotEntry>, node: usize, port: usize)
    ensures
        spec_entries_map(entries).contains_key((node, port)) <==> exists|i: int|
            0 <= i < entries.len() && (#[trigger] entries[i]).0 == node && entries[i].1 == port,
    decreases entries.len(),
{
    if entries.len() > 0 {
        lemma_contains(entries.drop_last(), node, port);
        let e = entries.last();
        if e.0 == node && e.1 == port {
        } else {
            if spec_entries_map(entries).contains_key((node, port)) {
                let i = choose|i: int|
                    0 <= i < entries.drop_last().len() && (#[trigger] entries.drop_last()[i]).0
                        == node && entries.drop_last()[i].1 == port;
                assert(entries[i].0 == node && entries[i].1 == port);
            }
            if exists|i: int|
                0 <= i < entries.len() && (#[trigger] entries[i]).0 == node && entries[i].1
                    == port {
                let i = choose|i: int|
                    0 <= i < entries.len() && (#[trigger] entries[i]).0 == node && entries[i].1
                        == port;
                assert(entries.drop_last()[i] == entries[i]);
            }
        }
    }
}

/// With distinct keys, the entry that carries a key gives its value in the
/// described map.
proof fn lemma_lookup(entries: Seq<SlotEntry>, i: int)
    requires
        spec_keys_distinct(entries),
        0 <= i < entries.len(),
    ensures
        spec_entries_map(entries).contains_key((entries[i].0, entries[i].1)),
        spec_entries_map(entries)[(entries[i].0, entries[i].1)] == entries[i].2,
    decreases entries.len(),
{
    lemma_contains(entries, entries[i].0, entries[i].1);
    if i < entries.len() - 1 {
        assert(spec_keys_distinct(entries.drop_last()));
        assert(entries.drop_last()[i] == entries[i]);
        lemma_lookup(entries.drop_last(), i);
        let e = entries.last();
        assert((e.0, e.1) != (entries[i].0, entries[i].1));
    }
}

impl ScopeMap {
    /// Every port occurs at most once among the entries.
    pub closed spec fn wf(&self) -> bool {
        spec_keys_distinct(self.entries@)
    }

    pub fn new() -> (r: ScopeMap)
        ensures
            r@ == Map::<(usize, usize), usize>::empty(),
            r.wf(),
    {
        ScopeMap { entries: Vec::new() }
    }

    /// The slot assigned to output port `(node, port)`, if one is.
    pub fn get(&self, node: usize, port: usize) -> (r: Option<usize>)
        requires
            self.wf(),
        ensures
            r matches Some(slot) ==> self@.contains_key((node, port)) && self@[(node, port)]
                == slot,
            r is None <==> !self@.contains_key((node, port)),
    {
        proof {
            lemma_contains(self.entries@, node, port);
        }
        let mut i: usize = 0;
        while i < self.entries.len()
            invariant
                self.wf(),
                i <= self.entries@.len(),
                forall|k: int|
                    0 <= k < i ==> ((#[trigger] self.entries@[k]).0, self.entries@[k].1) != (
                    node,
                    port,
                ),
            decreases self.entries@.len() - i,
        {
            let e = self.entries[i];
            if e.0 == node && e.1 == port {
                proof {
                    lemma_lookup(self.entries@, i as int);
                }
                return Some(e.2);
            }
            i += 1;
        }
        proof {
            if self@.contains_key((node, port)) {
                let k = choose|k: int|
                    0 <= k < self.entries@.len() && (#[trigger] self.entries@[k]).0 == node
                        && self.entries@[k].1 == port;
            }
        }
        None
    }

    /// Assigns `slot` to output port `(node, port)`.  Assignments are never
    /// overwritten: the port must not be mapped yet.
    pub fn insert(&mut self, node: usize, port: usize, slot: usize)
        requires
            old(self).wf(),
            !old(self)@.contains_key((node, port)),
        ensures
            final(self).wf(),
            final(self)@ == old(self)@.insert((node, port), slot),
    {
        proof {
            lemma_contains(self.entries@, node, port);
        }
        self.entries.push((node, port, slot));
        proof {
            assert(self.entries@.drop_last() =~= old(self).entries@);
        }
    }
}

} // verus!
