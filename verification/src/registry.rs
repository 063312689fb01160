//! The tile registry: a read-only lookup from a tile identifier to its
//! owning tileset, its index within that tileset, and its metadata.
//!
//! Resolution fails with [`TilePlacementError::InvalidTileset`] when the
//! identifier's tileset is unknown, and with
//! [`TilePlacementError::InvalidTile`] when the tileset is known but the
//! specific (group, variant) does not exist within it. The placement
//! engine performs all such resolution before any mutation, so a failed
//! resolution never leaves partial state behind.

use vstd::prelude::*;
use crate::tiles::{TileId, TilesetId};
use crate::placement::TilePlacementError;

verus! {

/// What the registry knows about one tile: its identifier, its index
/// within the owning tileset, and whether it is an auto-tile.
#[derive(Debug, Clone, Copy, PartialEq, Eq, Structural)]
pub struct TileRecord {
    /// The identifier this record describes.
    pub id: TileId,
    /// The tile's index within its tileset.
    pub index: u32,
    /// Whether the tile's variant is neighbor-dependent.
    pub is_auto_tile: bool,
}

/// First record in `s` whose identifier is `id`, if any.
pub open spec fn find_record(s: Seq<TileRecord>, id: TileId) -> Option<TileRecord>
    decreases s.len(),
{
    if s.len() == 0 {
        None
    } else if s[0].id == id {
        Some(s[0])
    } else {
        find_record(s.drop_first(), id)
    }
}

/// Appending a record only changes lookups that found nothing before,
/// and only for the appended identifier.
pub proof fn lemma_find_record_push(s: Seq<TileRecord>, e: TileRecord, id: TileId)
    ensures
        find_record(s.push(e), id) == (match find_record(s, id) {
            Some(r) => Some(r),
            None => if e.id == id { Some(e) } else { None },
        }),
    decreases s.len(),
{
    if s.len() == 0 {
        assert(s.push(e).len() == 1);
        assert(s.push(e)[0] == e);
        assert(find_record(s, id) is None);
        if e.id == id {
            assert(find_record(s.push(e), id) == Some(e));
        } else {
            assert(s.push(e).drop_first().len() == 0);
            assert(find_record(s.push(e).drop_first(), id) is None);
            assert(find_record(s.push(e), id) is None);
        }
    } else {
        assert(s.push(e)[0] == s[0]);
        if s[0].id == id {
            assert(find_record(s.push(e), id) == Some(s[0]));
            assert(find_record(s, id) == Some(s[0]));
        } else {
            assert(s.push(e).drop_first() =~= s.drop_first().push(e));
            lemma_find_record_push(s.drop_first(), e, id);
            assert(find_record(s.push(e), id) == find_record(s.drop_first().push(e), id));
            assert(find_record(s, id) == find_record(s.drop_first(), id));
        }
    }
}

/// If no record among the first `i` matches, the search outcome is
/// decided by the remainder of the sequence.
pub proof fn lemma_find_record_skip(s: Seq<TileRecord>, id: TileId, i: int)
    requires
        0 <= i <= s.len(),
        forall|j: int| 0 <= j < i ==> s[j].id != id,
    ensures
        find_record(s, id) == find_record(s.skip(i), id),
    decreases i,
{
    if i == 0 {
        assert(s.skip(0) =~= s);
    } else {
        assert(s.len() > 0 && s[0].id != id);
        assert(s.drop_first() =~= s.skip(1));
        assert(forall|j: int| 0 <= j < i - 1 ==> s.skip(1)[j].id != id);
        lemma_find_record_skip(s.skip(1), id, i - 1);
        assert(s.skip(1).skip(i - 1) =~= s.skip(i));
    }
}

/// The read-only lookup from tile identifiers to tilesets, indices and
/// metadata. Registration happens once, up front; the placement engine
/// only ever reads.
#[derive(Debug)]
pub struct TileRegistry {
    /// The tilesets that are known (loaded).
    tilesets: Vec<TilesetId>,
    /// Records of all registered tiles, unique by identifier.
    tiles: Vec<TileRecord>,
}

impl TileRegistry {
    /// Whether the given tileset is known to the registry.
    pub closed spec fn tileset_known(self, ts: TilesetId) -> bool {
        self.tilesets@.contains(ts)
    }

    /// The record registered for `id`, if any.
    pub closed spec fn spec_lookup(self, id: TileId) -> Option<TileRecord> {
        find_record(self.tiles@, id)
    }

    /// The outcome of resolving `id`: its record, or the error the
    /// placement engine surfaces for it.
    pub open spec fn spec_resolve(self, id: TileId) -> Result<TileRecord, TilePlacementError> {
        if !self.tileset_known(id.tileset_id) {
            Err(TilePlacementError::InvalidTileset(id.tileset_id))
        } else {
            match self.spec_lookup(id) {
                Some(rec) => Ok(rec),
                None => Err(TilePlacementError::InvalidTile(id)),
            }
        }
    }

    /// An empty registry: no tilesets, no tiles.
    pub fn new() -> (r: TileRegistry)
        ensures
            forall|ts: TilesetId| !r.tileset_known(ts),
            forall|id: TileId| r.spec_lookup(id) is None,
    {
        TileRegistry { tilesets: Vec::new(), tiles: Vec::new() }
    }

    /// Marks a tileset as known. Registering it again is a no-op.
    pub fn add_tileset(&mut self, ts: TilesetId)
        ensures
            forall|t: TilesetId|
                #[trigger] final(self).tileset_known(t) <==> (old(self).tileset_known(t) || t == ts),
            forall|id: TileId| #[trigger] final(self).spec_lookup(id) == old(self).spec_lookup(id),
    {
        self.tilesets.push(ts);
        proof {
            assert(forall|t: TilesetId|
                self.tilesets@.contains(t) <==> (old(self).tilesets@.contains(t) || t == ts)) by {
                assert(self.tilesets@ == old(self).tilesets@.push(ts));
                assert(forall|t: TilesetId| old(self).tilesets@.contains(t)
                    ==> #[trigger] self.tilesets@.contains(t)) by {
                    assert(forall|i: int| 0 <= i < old(self).tilesets@.len()
                        ==> self.tilesets@[i] == old(self).tilesets@[i]);
                }
                assert(self.tilesets@[self.tilesets@.len() - 1] == ts);
                assert(forall|t: TilesetId| #[trigger] self.tilesets@.contains(t)
                    ==> (old(self).tilesets@.contains(t) || t == ts)) by {
                    assert(forall|i: int| 0 <= i < self.tilesets@.len() - 1
                        ==> old(self).tilesets@[i] == self.tilesets@[i]);
                }
            }
        }
    }

    /// Registers a tile record. Returns `false`, changing nothing, if a
    /// record with the same identifier already exists; lookups stay
    /// unambiguous this way.
    pub fn add_tile(&mut self, id: TileId, index: u32, is_auto_tile: bool) -> (r: bool)
        ensures
            r <==> old(self).spec_lookup(id) is None,
            forall|t: TilesetId|
                #[trigger] final(self).tileset_known(t) == old(self).tileset_known(t),
            !r ==> *final(self) == *old(self),
            r ==> forall|id2: TileId| #[trigger] final(self).spec_lookup(id2) == (if id2 == id {
                Some(TileRecord { id, index, is_auto_tile })
            } else {
                old(self).spec_lookup(id2)
            }),
    {
        let existing = self.lookup(&id);
        if existing.is_some() {
            return false;
        }
        let rec = TileRecord { id, index, is_auto_tile };
        self.tiles.push(rec);
        proof {
            assert(forall|id2: TileId| #[trigger] find_record(self.tiles@, id2)
                == (if id2 == id { Some(rec) } else { find_record(old(self).tiles@, id2) })) by {
                assert forall|id2: TileId| true implies #[trigger] find_record(self.tiles@, id2)
                    == (if id2 == id { Some(rec) } else { find_record(old(self).tiles@, id2) }) by {
                    lemma_find_record_push(old(self).tiles@, rec, id2);
                }
            }
        }
        true
    }

    /// Looks up the record registered for `id`, if any.
    pub fn lookup(&self, id: &TileId) -> (r: Option<TileRecord>)
        ensures
            r == self.spec_lookup(*id),
    {
        let n = self.tiles.len();
        for i in 0..n
            invariant
                n == self.tiles.len(),
                forall|j: int| 0 <= j < i ==> self.tiles@[j].id != *id,
        {
            let rec = self.tiles[i];
            if rec.id.tileset_id == id.tileset_id
                && rec.id.group_id == id.group_id
                && rec.id.variant == id.variant
            {
                proof {
                    lemma_find_record_skip(self.tiles@, *id, i as int);
                    assert(self.tiles@.skip(i as int)[0] == self.tiles@[i as int]);
                }
                return Some(rec);
            }
        }
        proof {
            lemma_find_record_skip(self.tiles@, *id, n as int);
            assert(self.tiles@.skip(n as int) =~= Seq::<TileRecord>::empty());
        }
        None
    }

    /// Whether the given tileset is known.
    pub fn has_tileset(&self, ts: TilesetId) -> (r: bool)
        ensures
            r == self.tileset_known(ts),
    {
        let n = self.tilesets.len();
        for i in 0..n
            invariant
                n == self.tilesets.len(),
                forall|j: int| 0 <= j < i ==> self.tilesets@[j] != ts,
        {
            if self.tilesets[i] == ts {
                return true;
            }
        }
        false
    }

    /// Resolves the tileset a tile identifier belongs to.
    pub fn resolve_tileset(&self, id: &TileId) -> (r: Result<TilesetId, TilePlacementError>)
        ensures
            self.tileset_known(id.tileset_id) ==> r == Ok::<TilesetId, TilePlacementError>(
                id.tileset_id,
            ),
            !self.tileset_known(id.tileset_id) ==> r == Err::<TilesetId, TilePlacementError>(
                TilePlacementError::InvalidTileset(id.tileset_id),
            ),
    {
        if self.has_tileset(id.tileset_id) {
            Ok(id.tileset_id)
        } else {
            Err(TilePlacementError::InvalidTileset(id.tileset_id))
        }
    }

    /// Resolves a tile identifier to its full record (its metadata).
    pub fn resolve_metadata(&self, id: &TileId) -> (r: Result<TileRecord, TilePlacementError>)
        ensures
            r == self.spec_resolve(*id),
    {
        if !self.has_tileset(id.tileset_id) {
            return Err(TilePlacementError::InvalidTileset(id.tileset_id));
        }
        match self.lookup(id) {
            Some(rec) => Ok(rec),
            None => Err(TilePlacementError::InvalidTile(*id)),
        }
    }

    /// Resolves a tile identifier to its index within its tileset.
    pub fn resolve_index(&self, id: &TileId) -> (r: Result<u32, TilePlacementError>)
        ensures
            (match self.spec_resolve(*id) {
                Ok(rec) => r == Ok::<u32, TilePlacementError>(rec.index),
                Err(e) => r == Err::<u32, TilePlacementError>(e),
            }),
    {
        match self.resolve_metadata(id) {
            Ok(rec) => Ok(rec.index),
            Err(e) => Err(e),
        }
    }
}

} // verus!
