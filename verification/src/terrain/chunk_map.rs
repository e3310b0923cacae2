//! The cache of computed chunks and the life cycle of their instances.

use crate::terrain::chunk::Chunk;
use crate::terrain::chunk::ChunkPosition;
use crate::terrain::chunk::ChunkState;
use crate::terrain::chunk::InstanceHandle;
use std::collections::BTreeMap;
use vstd::prelude::*;
use vstd::std_specs::iter::IteratorSpec;

verus! {

impl ChunkPosition {
    /// The key under which this position is filed. Keys order positions by
    /// their first coordinate and then by their second.
    pub open spec fn spec_key(self) -> u64 {
        ((self.0 + 0x8000_0000) * 0x1_0000_0000 + (self.1 + 0x8000_0000)) as u64
    }

    /// The position that is filed under `key`.
    pub open spec fn spec_from_key(key: u64) -> ChunkPosition {
        ChunkPosition(
            (key / 0x1_0000_0000 - 0x8000_0000) as i32,
            (key % 0x1_0000_0000 - 0x8000_0000) as i32,
        )
    }

    /// Computes [`ChunkPosition::spec_key`].
    #[verifier::when_used_as_spec(spec_key)]
    pub fn key(self) -> (k: u64)
        ensures
            k == self.spec_key(),
            ChunkPosition::spec_from_key(k) == self,
    {
        let hi: u64 = (self.0 as i64 + 0x8000_0000) as u64;
        let lo: u64 = (self.1 as i64 + 0x8000_0000) as u64;
        hi * 0x1_0000_0000 + lo
    }

    /// Computes [`ChunkPosition::spec_from_key`].
    #[verifier::when_used_as_spec(spec_from_key)]
    pub fn from_key(key: u64) -> (p: ChunkPosition)
        ensures
            p == ChunkPosition::spec_from_key(key),
            p.spec_key() == key,
    {
        let hi: i64 = (key / 0x1_0000_0000) as i64;
        let lo: i64 = (key % 0x1_0000_0000) as i64;
        ChunkPosition((hi - 0x8000_0000) as i32, (lo - 0x8000_0000) as i32)
    }
}

/// Positions and keys correspond one to one, and keys order positions by
/// their first coordinate and then by their second.
pub proof fn lemma_key_order(p: ChunkPosition, q: ChunkPosition)
    ensures
        ChunkPosition::spec_from_key(p.spec_key()) == p,
        p.spec_key() == q.spec_key() <==> p == q,
        p.spec_key() < q.spec_key() <==> (p.0 < q.0 || (p.0 == q.0 && p.1 < q.1)),
{
}

/// The cache of computed chunks, by position.
///
/// A position enters the cache when its mesh is first computed and never
/// leaves; afterwards only its instance changes.
#[derive(Debug)]
pub struct ChunkMap(BTreeMap<u64, Chunk>);

impl View for ChunkMap {
    type V = Map<ChunkPosition, Chunk>;

    closed spec fn view(&self) -> Map<ChunkPosition, Chunk> {
        Map::new(
            |p: ChunkPosition| self.0@.contains_key(p.spec_key()),
            |p: ChunkPosition| self.0@[p.spec_key()],
        )
    }
}

impl Default for ChunkMap {
    fn default() -> (r: Self)
        ensures
            r@ == Map::<ChunkPosition, Chunk>::empty(),
    {
        ChunkMap::new()
    }
}

impl ChunkMap {
    /// The state of the chunk at `pos`: `Unknown` while nothing is cached for
    /// it, and otherwise the state of the cached chunk.
    pub open spec fn spec_state(&self, pos: ChunkPosition) -> ChunkState {
        if self@.contains_key(pos) {
            self@[pos].spec_state()
        } else {
            ChunkState::Unknown
        }
    }

    /// An empty cache.
    pub fn new() -> (r: Self)
        ensures
            r@ == Map::<ChunkPosition, Chunk>::empty(),
    {
        let r = ChunkMap(BTreeMap::new());
        assert(r@ =~= Map::<ChunkPosition, Chunk>::empty());
        r
    }

    /// The number of cached chunks.
    pub fn len(&self) -> (n: usize)
        ensures
            n == self@.len(),
            self@.dom().finite(),
    {
        proof {
            self.lemma_view_dom();
        }
        self.0.len()
    }

    /// The cached positions are the stored keys, read as positions.
    proof fn lemma_view_dom(&self)
        ensures
            self@.dom().finite(),
            self@.len() == self.0@.len(),
            self@.dom() == self.0@.dom().map(|k: u64| ChunkPosition::spec_from_key(k)),
    {
        let decode = |k: u64| ChunkPosition::spec_from_key(k);
        let keys = self.0@.dom();
        assert forall|p: ChunkPosition| self@.dom().contains(p) <==> keys.map(decode).contains(
            p,
        ) by {
            lemma_key_order(p, p);
            if self@.dom().contains(p) {
                assert(keys.contains(p.spec_key()));
                assert(decode(p.spec_key()) == p);
            }
            if keys.map(decode).contains(p) {
                let k = choose|k: u64| keys.contains(k) && decode(k) == p;
                assert(ChunkPosition::spec_from_key(k).spec_key() == k);
            }
        }
        assert(self@.dom() =~= keys.map(decode));
        assert(vstd::relations::injective(decode)) by {
            assert forall|k1: u64, k2: u64| #[trigger] decode(k1) == #[trigger] decode(k2)
                implies k1 == k2 by {
                assert(ChunkPosition::spec_from_key(k1).spec_key() == k1);
                assert(ChunkPosition::spec_from_key(k2).spec_key() == k2);
            }
        }
        vstd::set_lib::lemma_map_size(keys, keys.map(decode), decode);
        keys.lemma_map_finite(decode);
    }

    /// Whether a chunk is cached for `pos`.
    pub fn contains_key(&self, pos: ChunkPosition) -> (b: bool)
        ensures
            b == self@.contains_key(pos),
    {
        self.0.contains_key(&pos.key())
    }

    /// The chunk cached for `pos`, if there is one.
    pub fn get(&self, pos: ChunkPosition) -> (r: Option<&Chunk>)
        ensures
            r == (if self@.contains_key(pos) {
                Some(&self@[pos])
            } else {
                None
            }),
    {
        self.0.get(&pos.key())
    }

    /// The state of the chunk at `pos`.
    pub fn state(&self, pos: ChunkPosition) -> (r: ChunkState)
        ensures
            r == self.spec_state(pos),
    {
        match self.get(pos) {
            Some(chunk) => chunk.state(),
            None => ChunkState::Unknown,
        }
    }

    /// Files `chunk` under `pos` and returns what was filed there before.
    pub fn insert(&mut self, pos: ChunkPosition, chunk: Chunk) -> (r: Option<Chunk>)
        ensures
            final(self)@ == old(self)@.insert(pos, chunk),
            r == (if old(self)@.contains_key(pos) {
                Some(old(self)@[pos])
            } else {
                None
            }),
    {
        let r = self.0.insert(pos.key(), chunk);
        proof {
            assert forall|p: ChunkPosition| p != pos implies p.spec_key() != pos.spec_key() by {
                lemma_key_order(p, pos);
            }
            assert(self@ =~= old(self)@.insert(pos, chunk));
        }
        r
    }

    /// The cached positions, each one once.
    pub fn positions(&self) -> (r: Vec<ChunkPosition>)
        ensures
            r@.no_duplicates(),
            r@.to_set() == self@.dom(),
    {
        let mut r: Vec<ChunkPosition> = Vec::new();
        let ghost keys = vstd::std_specs::btree::spec_keys_iter(&self.0).remaining();
        proof {
            vstd::std_specs::btree::axiom_spec_keys_iter(&self.0);
        }
        for k in it: self.0.keys()
            invariant
                it.seq() == keys,
                r@.len() == it.index(),
                forall|j: int| 0 <= j < r@.len() ==> (#[trigger] r@[j]).spec_key() == *keys[j],
        {
            r.push(ChunkPosition::from_key(*k));
        }
        proof {
            assert forall|i: int, j: int| 0 <= i < r@.len() && 0 <= j < r@.len() && i != j
                implies r@[i] != r@[j] by {
                assert(keys[i] != keys[j]);
            }
            assert forall|p: ChunkPosition| r@.to_set().contains(p) <==> self@.dom().contains(
                p,
            ) by {
                if r@.to_set().contains(p) {
                    let i = choose|i: int| 0 <= i < r@.len() && r@[i] == p;
                    assert(keys.unref()[i] == p.spec_key());
                    assert(keys.unref().to_set().contains(p.spec_key()));
                }
                if self@.dom().contains(p) {
                    assert(keys.unref().to_set().contains(p.spec_key()));
                    let i = choose|i: int|
                        0 <= i < keys.unref().len() && keys.unref()[i] == p.spec_key();
                    lemma_key_order(r@[i], p);
                    assert(r@[i] == p);
                }
            }
            assert(r@.to_set() =~= self@.dom());
        }
        r
    }

    /// Records `handle` as the live instance of the chunk at `pos`.
    ///
    /// Only a chunk that is `DataReady` takes the handle. In every other state
    /// (nothing cached, an instance already live, a release still awaited) the
    /// cache stays as it is and the result is `false`.
    pub fn instantiate(&mut self, pos: ChunkPosition, handle: InstanceHandle) -> (done: bool)
        ensures
            done == (old(self).spec_state(pos) == ChunkState::DataReady),
            done ==> final(self)@ == old(self)@.insert(
                pos,
                (Chunk { entity: Some(handle), teardown: None, data: old(self)@[pos].data }),
            ),
            !done ==> final(self)@ == old(self)@,
    {
        let key = pos.key();
        let ready = match self.0.get(&key) {
            Some(chunk) => chunk.entity.is_none() && chunk.teardown.is_none(),
            None => false,
        };
        if !ready {
            return false;
        }
        let found = self.0.remove(&key);
        match found {
            Some(chunk) => {
                let Chunk { entity: _, teardown: _, data } = chunk;
                self.0.insert(key, Chunk { entity: Some(handle), teardown: None, data });
            },
            None => {},
        }
        proof {
            assert forall|p: ChunkPosition| p != pos implies p.spec_key() != pos.spec_key() by {
                lemma_key_order(p, pos);
            }
            assert(self@ =~= old(self)@.insert(
                pos,
                (Chunk { entity: Some(handle), teardown: None, data: old(self)@[pos].data }),
            ));
        }
        true
    }

    /// Hands the live instance of the chunk at `pos` back for release.
    ///
    /// A chunk that is `Instantiated` loses its live handle, awaits the release
    /// of that handle from now on, and the handle is returned. In every other
    /// state the cache stays as it is and the result is `None`.
    pub fn release(&mut self, pos: ChunkPosition) -> (released: Option<InstanceHandle>)
        ensures
            released == (if old(self).spec_state(pos) == ChunkState::Instantiated {
                old(self)@[pos].entity
            } else {
                None
            }),
            released is Some ==> final(self)@ == old(self)@.insert(
                pos,
                (Chunk { entity: None, teardown: released, data: old(self)@[pos].data }),
            ),
            released is None ==> final(self)@ == old(self)@,
    {
        let key = pos.key();
        let live = match self.0.get(&key) {
            Some(chunk) => chunk.entity,
            None => None,
        };
        if live.is_none() {
            return None;
        }
        let found = self.0.remove(&key);
        match found {
            Some(chunk) => {
                let Chunk { entity: _, teardown: _, data } = chunk;
                self.0.insert(key, Chunk { entity: None, teardown: live, data });
            },
            None => {},
        }
        proof {
            assert forall|p: ChunkPosition| p != pos implies p.spec_key() != pos.spec_key() by {
                lemma_key_order(p, pos);
            }
            assert(self@ =~= old(self)@.insert(
                pos,
                (Chunk { entity: None, teardown: live, data: old(self)@[pos].data }),
            ));
        }
        live
    }

    /// Takes note that the release awaited by the chunk at `pos` has happened.
    ///
    /// A chunk that is `PendingTeardown` becomes `DataReady`. In every other
    /// state the cache stays as it is and the result is `false`.
    pub fn confirm_release(&mut self, pos: ChunkPosition) -> (done: bool)
        ensures
            done == (old(self).spec_state(pos) == ChunkState::PendingTeardown),
            done ==> final(self)@ == old(self)@.insert(
                pos,
                (Chunk { entity: None, teardown: None, data: old(self)@[pos].data }),
            ),
            !done ==> final(self)@ == old(self)@,
    {
        let key = pos.key();
        let pending = match self.0.get(&key) {
            Some(chunk) => chunk.entity.is_none() && chunk.teardown.is_some(),
            None => false,
        };
        if !pending {
            return false;
        }
        let found = self.0.remove(&key);
        match found {
            Some(chunk) => {
                let Chunk { entity: _, teardown: _, data } = chunk;
                self.0.insert(key, Chunk { entity: None, teardown: None, data });
            },
            None => {},
        }
        proof {
            assert forall|p: ChunkPosition| p != pos implies p.spec_key() != pos.spec_key() by {
                lemma_key_order(p, pos);
            }
            assert(self@ =~= old(self)@.insert(
                pos,
                (Chunk { entity: None, teardown: None, data: old(self)@[pos].data }),
            ));
        }
        true
    }
}

} // verus!
