//! The grid index: the per-cell occupancy relation of all layers.
//!
//! Each (map, layer, position) cell holds at most one occupant; an
//! insert always supersedes, and removing an empty cell is a no-op.
//! The index is modelled as a finite map from [`CellKey`] to
//! [`Occupant`]; the backing store is a vector of entries with pairwise
//! distinct keys.

use vstd::prelude::*;
use crate::tiles::{Entity, TileId, TilePos};

verus! {

/// Addresses one cell: the owning map's numeric key, the layer within
/// that map, and the 2D position on that layer.
#[derive(Debug, Clone, Copy, PartialEq, Eq, Hash, Structural)]
pub struct CellKey {
    /// Numeric key of the owning map.
    pub map_key: u16,
    /// Layer within that map.
    pub layer_id: u16,
    /// Cell position on the layer.
    pub pos: TilePos,
}

/// The record stored per occupied cell: the owning handle plus the
/// resolved tile identity. The identity is absent only when the
/// occupant exists but could not be resolved — an inconsistency the
/// engine tolerates rather than fails on.
#[derive(Debug, Clone, Copy, PartialEq, Eq)]
pub struct Occupant {
    /// The handle owning the cell.
    pub entity: Entity,
    /// The occupant's resolved tile identity, if it has one.
    pub id: Option<TileId>,
}

/// One stored cell: a key and its occupant.
#[derive(Debug, Clone, Copy, PartialEq, Eq)]
pub struct CellEntry {
    pub key: CellKey,
    pub occ: Occupant,
}

/// The map denoted by a sequence of entries; later entries supersede
/// earlier ones with the same key.
pub open spec fn entries_map(s: Seq<CellEntry>) -> Map<CellKey, Occupant>
    decreases s.len(),
{
    if s.len() == 0 {
        Map::empty()
    } else {
        entries_map(s.drop_last()).insert(s.last().key, s.last().occ)
    }
}

/// A key is in the denoted map exactly when some entry bears it.
pub proof fn lemma_entries_map_domain(s: Seq<CellEntry>, k: CellKey)
    ensures
        entries_map(s).contains_key(k) <==> exists|i: int| 0 <= i < s.len() && s[i].key == k,
    decreases s.len(),
{
    if s.len() > 0 {
        lemma_entries_map_domain(s.drop_last(), k);
        if entries_map(s).contains_key(k) {
            if s.last().key == k {
                assert(s[s.len() - 1].key == k);
            } else {
                let i = choose|i: int| 0 <= i < s.drop_last().len() && s.drop_last()[i].key == k;
                assert(s[i].key == k);
            }
        }
        if exists|i: int| 0 <= i < s.len() && s[i].key == k {
            let i = choose|i: int| 0 <= i < s.len() && s[i].key == k;
            if i < s.len() - 1 {
                assert(s.drop_last()[i].key == k);
            }
        }
    }
}

/// Pairwise distinct keys.
pub open spec fn unique_keys(s: Seq<CellEntry>) -> bool {
    forall|i: int, j: int| 0 <= i < j < s.len() ==> s[i].key != s[j].key
}

/// Under distinct keys, each entry gives its key's value in the map.
pub proof fn lemma_entries_map_index(s: Seq<CellEntry>, i: int)
    requires
        unique_keys(s),
        0 <= i < s.len(),
    ensures
        entries_map(s).contains_key(s[i].key),
        entries_map(s)[s[i].key] == s[i].occ,
    decreases s.len(),
{
    lemma_entries_map_domain(s, s[i].key);
    if i < s.len() - 1 {
        assert(s[i].key != s.last().key);
        assert(s.drop_last()[i] == s[i]);
        lemma_entries_map_index(s.drop_last(), i);
    }
}

/// Replacing entry `i` by one with the same key updates the map at
/// that key and nothing else.
pub proof fn lemma_entries_map_update(s: Seq<CellEntry>, i: int, e: CellEntry)
    requires
        unique_keys(s),
        0 <= i < s.len(),
        e.key == s[i].key,
    ensures
        entries_map(s.update(i, e)) =~= entries_map(s).insert(e.key, e.occ),
    decreases s.len(),
{
    let s2 = s.update(i, e);
    if i == s.len() - 1 {
        assert(s2.drop_last() =~= s.drop_last());
        assert(s2.last() == e);
    } else {
        assert(s2.drop_last() =~= s.drop_last().update(i, e));
        assert(s2.last() == s.last());
        assert(s.drop_last()[i] == s[i]);
        lemma_entries_map_update(s.drop_last(), i, e);
        assert(e.key != s.last().key);
    }
}

/// Appending an entry updates the map at its key.
pub proof fn lemma_entries_map_push(s: Seq<CellEntry>, e: CellEntry)
    ensures
        entries_map(s.push(e)) == entries_map(s).insert(e.key, e.occ),
{
    assert(s.push(e).drop_last() =~= s);
    assert(s.push(e).last() == e);
}

/// Under distinct keys, deleting entry `i` removes its key from the
/// map and changes nothing else.
pub proof fn lemma_entries_map_remove(s: Seq<CellEntry>, i: int)
    requires
        unique_keys(s),
        0 <= i < s.len(),
    ensures
        entries_map(s.remove(i)) =~= entries_map(s).remove(s[i].key),
    decreases s.len(),
{
    let k = s[i].key;
    if i == s.len() - 1 {
        assert(s.remove(i) =~= s.drop_last());
        lemma_entries_map_domain(s.drop_last(), k);
        assert(forall|j: int| 0 <= j < s.drop_last().len() ==> s.drop_last()[j] == s[j]);
        assert(!entries_map(s.drop_last()).contains_key(k));
    } else {
        assert(s.remove(i).last() == s.last());
        assert(s.remove(i).drop_last() =~= s.drop_last().remove(i));
        assert(forall|j: int| 0 <= j < s.drop_last().len() ==> s.drop_last()[j] == s[j]);
        lemma_entries_map_remove(s.drop_last(), i);
        assert(k != s.last().key);
    }
}

/// The occupancy index for every (map, layer) plane: a finite map from
/// cell to occupant, with at most one occupant per cell by
/// construction.
#[derive(Debug)]
pub struct GridIndex {
    cells: Vec<CellEntry>,
}

impl View for GridIndex {
    type V = Map<CellKey, Occupant>;

    closed spec fn view(&self) -> Map<CellKey, Occupant> {
        entries_map(self.cells@)
    }
}

impl GridIndex {
    /// The backing entries carry pairwise distinct keys.
    pub closed spec fn wf(self) -> bool {
        unique_keys(self.cells@)
    }

    /// An empty index.
    pub fn new() -> (r: GridIndex)
        ensures
            r.wf(),
            r@ == Map::<CellKey, Occupant>::empty(),
    {
        GridIndex { cells: Vec::new() }
    }

    /// The stored entries, in insertion order.
    pub closed spec fn entries(self) -> Seq<CellEntry> {
        self.cells@
    }

    /// The index denotes exactly the map of its entries.
    pub proof fn lemma_view_entries(self)
        ensures
            self@ == entries_map(self.entries()),
    {
    }

    /// How many cells are occupied.
    pub fn num_entries(&self) -> (n: usize)
        ensures
            n == self.entries().len(),
    {
        self.cells.len()
    }

    /// The `i`th stored entry.
    pub fn entry_at(&self, i: usize) -> (e: CellEntry)
        requires
            (i as int) < self.entries().len(),
        ensures
            e == self.entries()[i as int],
    {
        self.cells[i]
    }

    /// Position of the entry bearing `key`, if any.
    fn find(&self, key: &CellKey) -> (r: Option<usize>)
        requires
            self.wf(),
        ensures
            (match r {
                Some(i) => i < self.cells@.len() && self.cells@[i as int].key == *key
                    && self@.contains_key(*key) && self@[*key] == self.cells@[i as int].occ,
                None => !self@.contains_key(*key),
            }),
    {
        let n = self.cells.len();
        for i in 0..n
            invariant
                n == self.cells.len(),
                self.wf(),
                forall|j: int| 0 <= j < i ==> self.cells@[j].key != *key,
        {
            let e = &self.cells[i];
            if e.key.map_key == key.map_key && e.key.layer_id == key.layer_id
                && e.key.pos.x == key.pos.x && e.key.pos.y == key.pos.y
            {
                proof {
                    lemma_entries_map_index(self.cells@, i as int);
                }
                return Some(i);
            }
        }
        proof {
            lemma_entries_map_domain(self.cells@, *key);
        }
        None
    }

    /// The occupant at `key`, if the cell is occupied. No side effect.
    pub fn get(&self, key: &CellKey) -> (r: Option<Occupant>)
        requires
            self.wf(),
        ensures
            r == self@.get(*key),
    {
        match self.find(key) {
            Some(i) => Some(self.cells[i].occ),
            None => None,
        }
    }

    /// Installs `occ` at `key`, superseding and returning any previous
    /// occupant. Never fails.
    pub fn insert(&mut self, key: CellKey, occ: Occupant) -> (r: Option<Occupant>)
        requires
            old(self).wf(),
        ensures
            final(self).wf(),
            final(self)@ == old(self)@.insert(key, occ),
            r == old(self)@.get(key),
    {
        let entry = CellEntry { key, occ };
        match self.find(&key) {
            Some(i) => {
                let prev = self.cells[i].occ;
                let slot = &mut self.cells[i];
                *slot = entry;
                proof {
                    lemma_entries_map_update(old(self).cells@, i as int, entry);
                }
                Some(prev)
            },
            None => {
                self.cells.push(entry);
                proof {
                    lemma_entries_map_push(old(self).cells@, entry);
                    lemma_entries_map_domain(old(self).cells@, key);
                }
                None
            },
        }
    }

    /// Clears the cell at `key`, returning the prior occupant if any.
    /// Removing an empty cell is a no-op that returns `None`.
    pub fn remove(&mut self, key: &CellKey) -> (r: Option<Occupant>)
        requires
            old(self).wf(),
        ensures
            final(self).wf(),
            final(self)@ == old(self)@.remove(*key),
            r == old(self)@.get(*key),
    {
        match self.find(key) {
            Some(i) => {
                let e = self.cells.remove(i);
                proof {
                    lemma_entries_map_remove(old(self).cells@, i as int);
                    assert(forall|a: int, b: int|
                        0 <= a < b < self.cells@.len() ==> self.cells@[a].key
                            != self.cells@[b].key) by {
                        assert(forall|a: int| 0 <= a < self.cells@.len()
                            ==> self.cells@[a] == (if a < i as int {
                                old(self).cells@[a]
                            } else {
                                old(self).cells@[a + 1]
                            }));
                    }
                }
                Some(e.occ)
            },
            None => {
                proof {
                    assert(old(self)@.remove(*key) =~= old(self)@);
                }
                None
            },
        }
    }
}

} // verus!
