//! The sparse voxel store.
//!
//! `VoxelStore` maps lattice coordinates to blocks, with at most one block
//! per coordinate; its mathematical view is a `Map<Coord, BlockType>`.
//!
//! The store optionally keeps exposure bookkeeping for render proxies: a
//! block is *exposed* when at least one of its six axis neighbours is
//! absent. Under exposure tracking only exposed blocks carry a render
//! proxy; without it every block does. Mutations return the list of proxy
//! create/destroy requests the rendering collaborator must apply so that
//! this rule keeps holding.

use crate::block::BlockType;
use crate::coord::{axis_neighbor, coord_in_range, coord_within, Coord, COORD_LIMIT};
use vstd::prelude::*;

verus! {

/// A request to the rendering collaborator: create a proxy for a block, or
/// destroy the proxy of the block at a coordinate.
#[derive(Clone, Copy, PartialEq, Eq, Structural, Debug)]
pub enum ProxyIntent {
    Create(Coord, BlockType),
    Destroy(Coord),
}

#[derive(Clone, Copy)]
struct StoreEntry {
    coord: Coord,
    block: BlockType,
}

/// Sparse map from lattice coordinates to blocks.
pub struct VoxelStore {
    entries: Vec<StoreEntry>,
    track_exposure: bool,
}

spec fn s_has(s: Seq<StoreEntry>, c: Coord) -> bool {
    exists|i: int| 0 <= i < s.len() && s[i].coord == c
}

spec fn s_at(s: Seq<StoreEntry>, c: Coord) -> BlockType {
    s[choose|i: int| 0 <= i < s.len() && s[i].coord == c].block
}

spec fn s_map(s: Seq<StoreEntry>) -> Map<Coord, BlockType> {
    Map::new(|c: Coord| s_has(s, c), |c: Coord| s_at(s, c))
}

spec fn unique_coords(s: Seq<StoreEntry>) -> bool {
    forall|i: int, j: int| 0 <= i < j < s.len() ==> s[i].coord != s[j].coord
}

/// A coordinate is exposed when at least one of its six axis neighbours is
/// absent from the store.
pub open spec fn exposed(m: Map<Coord, BlockType>, c: Coord) -> bool {
    exists|k: int| 0 <= k < 6 && !m.dom().contains(axis_neighbor(c, k))
}

/// Exposure of `n` as it was before `skip` was removed: some axis neighbour
/// other than `skip` is absent.
pub open spec fn exposed_except(m: Map<Coord, BlockType>, n: Coord, skip: Coord) -> bool {
    exists|k: int|
        0 <= k < 6 && axis_neighbor(n, k) != skip && !m.dom().contains(axis_neighbor(n, k))
}

/// Whether the block at `c` must carry a render proxy: always when exposure
/// tracking is off, only when exposed otherwise.
pub open spec fn needs_proxy(m: Map<Coord, BlockType>, track: bool, c: Coord) -> bool {
    m.dom().contains(c) && (!track || exposed(m, c))
}

/// Destroy requests emitted by an insertion at `c`, over the first `k` axis
/// neighbours: those still present that the new block fully encloses.
pub open spec fn insert_destroys(m_new: Map<Coord, BlockType>, c: Coord, k: int) -> Seq<
    ProxyIntent,
>
    decreases k,
{
    if k <= 0 {
        Seq::empty()
    } else {
        let n = axis_neighbor(c, k - 1);
        insert_destroys(m_new, c, k - 1) + if m_new.dom().contains(n) && !exposed(m_new, n) {
            seq![ProxyIntent::Destroy(n)]
        } else {
            Seq::empty()
        }
    }
}

/// All proxy requests emitted by a successful insertion of `b` at `c`:
/// a create for the new block where it needs a proxy, then a destroy for
/// each neighbour it fully encloses (only under exposure tracking).
pub open spec fn insert_intents(
    m_old: Map<Coord, BlockType>,
    track: bool,
    c: Coord,
    b: BlockType,
) -> Seq<ProxyIntent> {
    let m_new = m_old.insert(c, b);
    let creates = if !track || exposed(m_new, c) {
        seq![ProxyIntent::Create(c, b)]
    } else {
        Seq::empty()
    };
    creates + if track {
        insert_destroys(m_new, c, 6)
    } else {
        Seq::empty()
    }
}

/// Create requests emitted by a removal at `c`, over the first `k` axis
/// neighbours: those still present that the removal newly exposes.
pub open spec fn remove_creates(m_new: Map<Coord, BlockType>, c: Coord, k: int) -> Seq<ProxyIntent>
    decreases k,
{
    if k <= 0 {
        Seq::empty()
    } else {
        let n = axis_neighbor(c, k - 1);
        remove_creates(m_new, c, k - 1) + if m_new.dom().contains(n) && !exposed_except(
            m_new,
            n,
            c,
        ) {
            seq![ProxyIntent::Create(n, m_new[n])]
        } else {
            Seq::empty()
        }
    }
}

/// All proxy requests emitted by a successful removal at `c`: under exposure
/// tracking, a create for each neighbour the removal newly exposes. The
/// proxy of the removed block itself is the world editor's business, since
/// the store does not own proxies.
pub open spec fn remove_intents(m_old: Map<Coord, BlockType>, track: bool, c: Coord) -> Seq<
    ProxyIntent,
> {
    if track {
        remove_creates(m_old.remove(c), c, 6)
    } else {
        Seq::empty()
    }
}

proof fn lemma_s_at_index(s: Seq<StoreEntry>, c: Coord, i: int)
    requires
        unique_coords(s),
        0 <= i < s.len(),
        s[i].coord == c,
    ensures
        s_at(s, c) == s[i].block,
{
    let j = choose|j: int| 0 <= j < s.len() && s[j].coord == c;
    assert(0 <= j < s.len() && s[j].coord == c);
    if i < j {
        assert(s[i].coord != s[j].coord);
    } else if j < i {
        assert(s[j].coord != s[i].coord);
    }
}

proof fn lemma_view_push(s: Seq<StoreEntry>, e: StoreEntry)
    requires
        unique_coords(s),
        !s_has(s, e.coord),
    ensures
        unique_coords(s.push(e)),
        s_map(s.push(e)) =~= s_map(s).insert(e.coord, e.block),
{
    let t = s.push(e);
    assert forall|i: int, j: int| 0 <= i < j < t.len() implies t[i].coord != t[j].coord by {
        if j < s.len() {
            assert(t[i] == s[i] && t[j] == s[j]);
        } else {
            assert(t[j] == e);
            assert(t[i] == s[i]);
            assert(s[i].coord != e.coord);
        }
    }
    assert forall|c: Coord| s_has(t, c) == (s_has(s, c) || c == e.coord) by {
        if s_has(s, c) {
            let i = choose|i: int| 0 <= i < s.len() && s[i].coord == c;
            assert(t[i] == s[i]);
            assert(s_has(t, c));
        }
        if c == e.coord {
            assert(t[s.len() as int] == e);
            assert(s_has(t, c));
        }
        if s_has(t, c) {
            let i = choose|i: int| 0 <= i < t.len() && t[i].coord == c;
            if i < s.len() {
                assert(t[i] == s[i]);
                assert(s_has(s, c));
            } else {
                assert(t[i] == e);
            }
        }
    }
    assert forall|c: Coord| s_has(t, c) implies s_at(t, c) == s_map(s).insert(e.coord, e.block)[c] by {
        if c == e.coord {
            assert(t[s.len() as int] == e);
            lemma_s_at_index(t, c, s.len() as int);
        } else {
            let i = choose|i: int| 0 <= i < s.len() && s[i].coord == c;
            assert(t[i] == s[i]);
            lemma_s_at_index(t, c, i);
            lemma_s_at_index(s, c, i);
        }
    }
}

proof fn lemma_view_remove(s: Seq<StoreEntry>, i: int)
    requires
        unique_coords(s),
        0 <= i < s.len(),
    ensures
        unique_coords(s.remove(i)),
        s_map(s.remove(i)) =~= s_map(s).remove(s[i].coord),
{
    let t = s.remove(i);
    let c0 = s[i].coord;
    assert forall|p: int, q: int| 0 <= p < q < t.len() implies t[p].coord != t[q].coord by {
        let p2 = if p < i {
            p
        } else {
            p + 1
        };
        let q2 = if q < i {
            q
        } else {
            q + 1
        };
        assert(t[p] == s[p2]);
        assert(t[q] == s[q2]);
        assert(s[p2].coord != s[q2].coord);
    }
    assert forall|c: Coord| s_has(t, c) == (s_has(s, c) && c != c0) by {
        if s_has(t, c) {
            let p = choose|p: int| 0 <= p < t.len() && t[p].coord == c;
            let p2 = if p < i {
                p
            } else {
                p + 1
            };
            assert(t[p] == s[p2]);
            assert(s_has(s, c));
            if p2 < i {
                assert(s[p2].coord != s[i].coord);
            } else {
                assert(s[i].coord != s[p2].coord);
            }
        }
        if s_has(s, c) && c != c0 {
            let p = choose|p: int| 0 <= p < s.len() && s[p].coord == c;
            if p < i {
                assert(t[p] == s[p]);
                assert(s_has(t, c));
            } else {
                assert(p != i);
                assert(t[p - 1] == s[p]);
                assert(s_has(t, c));
            }
        }
    }
    assert forall|c: Coord| s_has(t, c) implies s_at(t, c) == s_at(s, c) by {
        let p = choose|p: int| 0 <= p < t.len() && t[p].coord == c;
        let p2 = if p < i {
            p
        } else {
            p + 1
        };
        assert(t[p] == s[p2]);
        lemma_s_at_index(t, c, p);
        lemma_s_at_index(s, c, p2);
    }
}

impl View for VoxelStore {
    type V = Map<Coord, BlockType>;

    closed spec fn view(&self) -> Map<Coord, BlockType> {
        s_map(self.entries@)
    }
}

impl VoxelStore {
    #[verifier::type_invariant]
    spec fn wf(self) -> bool {
        unique_coords(self.entries@)
    }

    /// Whether this store keeps exposure bookkeeping for render proxies.
    pub closed spec fn tracking(&self) -> bool {
        self.track_exposure
    }

    /// An empty store; `track_exposure` selects the proxy policy.
    pub fn new(track_exposure: bool) -> (s: VoxelStore)
        ensures
            s@ == Map::<Coord, BlockType>::empty(),
            s.tracking() == track_exposure,
    {
        let s = VoxelStore { entries: Vec::new(), track_exposure };
        proof {
            assert(s@ =~= Map::<Coord, BlockType>::empty());
        }
        s
    }

    /// Whether exposure tracking is on.
    pub fn is_tracking(&self) -> (r: bool)
        ensures
            r == self.tracking(),
    {
        self.track_exposure
    }

    fn find_index(&self, c: Coord) -> (r: Option<usize>)
        ensures
            match r {
                Some(i) => i < self.entries@.len() && self.entries@[i as int].coord == c,
                None => !s_has(self.entries@, c),
            },
    {
        let n = self.entries.len();
        let mut i: usize = 0;
        while i < n
            invariant
                i <= n,
                n == self.entries@.len(),
                forall|j: int| 0 <= j < i ==> self.entries@[j].coord != c,
            decreases n - i,
        {
            if self.entries[i].coord == c {
                return Some(i);
            }
            i = i + 1;
        }
        None
    }

    /// Whether a block is stored at `c`.
    pub fn contains(&self, c: Coord) -> (r: bool)
        ensures
            r == self@.dom().contains(c),
    {
        match self.find_index(c) {
            Some(i) => {
                proof {
                    assert(s_has(self.entries@, c));
                }
                true
            },
            None => false,
        }
    }

    /// The block stored at `c`, if any.
    pub fn get(&self, c: Coord) -> (r: Option<BlockType>)
        ensures
            match r {
                Some(b) => self@.dom().contains(c) && self@[c] == b,
                None => !self@.dom().contains(c),
            },
    {
        proof {
            use_type_invariant(&*self);
        }
        match self.find_index(c) {
            Some(i) => {
                proof {
                    assert(s_has(self.entries@, c));
                    lemma_s_at_index(self.entries@, c, i as int);
                }
                Some(self.entries[i].block)
            },
            None => None,
        }
    }

    /// Whether the store holds no block at all.
    pub fn is_empty(&self) -> (r: bool)
        ensures
            r == (self@ =~= Map::<Coord, BlockType>::empty()),
    {
        let r = self.entries.len() == 0;
        proof {
            if self.entries@.len() == 0 {
                assert(self@ =~= Map::<Coord, BlockType>::empty());
            } else {
                assert(s_has(self.entries@, self.entries@[0].coord));
                assert(self@.dom().contains(self.entries@[0].coord));
            }
        }
        r
    }

    /// Whether the block (or empty cell) at `c` has an absent axis
    /// neighbour.
    pub fn is_exposed(&self, c: Coord) -> (r: bool)
        requires
            coord_within(c, COORD_LIMIT + 1),
        ensures
            r == exposed(self@, c),
    {
        let mut k: u8 = 0;
        while k < 6
            invariant
                k <= 6,
                coord_within(c, COORD_LIMIT + 1),
                forall|j: int| 0 <= j < k ==> self@.dom().contains(axis_neighbor(c, j)),
            decreases 6 - k,
        {
            if !self.contains(c.neighbor(k)) {
                proof {
                    assert(0 <= k < 6 && !self@.dom().contains(axis_neighbor(c, k as int)));
                }
                return true;
            }
            k = k + 1;
        }
        false
    }

    fn exposed_without(&self, n: Coord, skip: Coord) -> (r: bool)
        requires
            coord_within(n, COORD_LIMIT + 1),
        ensures
            r == exposed_except(self@, n, skip),
    {
        let mut k: u8 = 0;
        while k < 6
            invariant
                k <= 6,
                coord_within(n, COORD_LIMIT + 1),
                forall|j: int|
                    0 <= j < k ==> (axis_neighbor(n, j) == skip || self@.dom().contains(
                        axis_neighbor(n, j),
                    )),
            decreases 6 - k,
        {
            let nb = n.neighbor(k);
            if nb != skip && !self.contains(nb) {
                proof {
                    assert(0 <= k < 6 && axis_neighbor(n, k as int) != skip
                        && !self@.dom().contains(axis_neighbor(n, k as int)));
                }
                return true;
            }
            k = k + 1;
        }
        false
    }

    /// Insert `b` at `c`. Fails (no-op, `false`, no requests) when `c` is
    /// already occupied; otherwise stores the block and returns the proxy
    /// requests the insertion gives rise to.
    pub fn insert(&mut self, c: Coord, b: BlockType) -> (r: (bool, Vec<ProxyIntent>))
        requires
            coord_in_range(c),
        ensures
            final(self).tracking() == old(self).tracking(),
            old(self)@.dom().contains(c) ==> r.0 == false && final(self)@ == old(self)@ && r.1@
                =~= Seq::<ProxyIntent>::empty(),
            !old(self)@.dom().contains(c) ==> r.0 == true && final(self)@ == old(self)@.insert(
                c,
                b,
            ) && r.1@ =~= insert_intents(old(self)@, old(self).tracking(), c, b),
    {
        proof {
            use_type_invariant(&*self);
        }
        if self.contains(c) {
            return (false, Vec::new());
        }
        proof {
            lemma_view_push(self.entries@, StoreEntry { coord: c, block: b });
        }
        let mut es: Vec<StoreEntry> = Vec::new();
        core::mem::swap(&mut es, &mut self.entries);
        es.push(StoreEntry { coord: c, block: b });
        core::mem::swap(&mut es, &mut self.entries);
        let ghost m_new = self@;
        let track = self.track_exposure;
        let mut intents: Vec<ProxyIntent> = Vec::new();
        if !track || self.is_exposed(c) {
            intents.push(ProxyIntent::Create(c, b));
        }
        let ghost creates = intents@;
        if track {
            let mut k: u8 = 0;
            while k < 6
                invariant
                    k <= 6,
                    coord_in_range(c),
                    self@ == m_new,
                    self.tracking() == track,
                    track,
                    intents@ =~= creates + insert_destroys(m_new, c, k as int),
                decreases 6 - k,
            {
                let n = c.neighbor(k);
                if self.contains(n) && !self.is_exposed(n) {
                    intents.push(ProxyIntent::Destroy(n));
                }
                k = k + 1;
            }
        }
        (true, intents)
    }

    /// Remove and return the block at `c`, if any, together with the proxy
    /// requests the removal gives rise to. Removing from an empty cell is a
    /// no-op.
    pub fn remove(&mut self, c: Coord) -> (r: (Option<BlockType>, Vec<ProxyIntent>))
        requires
            coord_in_range(c),
        ensures
            final(self).tracking() == old(self).tracking(),
            !old(self)@.dom().contains(c) ==> r.0 == None::<BlockType> && final(self)@ == old(
                self,
            )@ && r.1@ =~= Seq::<ProxyIntent>::empty(),
            old(self)@.dom().contains(c) ==> r.0 == Some(old(self)@[c]) && final(self)@ == old(
                self,
            )@.remove(c) && r.1@ =~= remove_intents(old(self)@, old(self).tracking(), c),
    {
        proof {
            use_type_invariant(&*self);
        }
        match self.find_index(c) {
            None => (None, Vec::new()),
            Some(i) => {
                proof {
                    assert(s_has(self.entries@, c));
                    lemma_s_at_index(self.entries@, c, i as int);
                    lemma_view_remove(self.entries@, i as int);
                }
                let mut es: Vec<StoreEntry> = Vec::new();
                core::mem::swap(&mut es, &mut self.entries);
                let e = es.remove(i);
                core::mem::swap(&mut es, &mut self.entries);
                let ghost m_new = self@;
                let track = self.track_exposure;
                let mut intents: Vec<ProxyIntent> = Vec::new();
                if track {
                    let mut k: u8 = 0;
                    while k < 6
                        invariant
                            k <= 6,
                            coord_in_range(c),
                            self@ == m_new,
                            self.tracking() == track,
                            track,
                            intents@ =~= remove_creates(m_new, c, k as int),
                        decreases 6 - k,
                    {
                        let n = c.neighbor(k);
                        if self.contains(n) && !self.exposed_without(n, c) {
                            match self.get(n) {
                                Some(bn) => intents.push(ProxyIntent::Create(n, bn)),
                                None => {
                                    proof {
                                        assert(false);
                                    }
                                },
                            }
                        }
                        k = k + 1;
                    }
                }
                (Some(e.block), intents)
            },
        }
    }
}

} // verus!
