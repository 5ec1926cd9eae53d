//! Laws of the voxel store, stated over the map view that the store's
//! contracts speak of: removal undoes insertion exactly, distinct
//! insertions and removals commute back to the empty store, and the
//! proxy requests emitted by edits keep a renderer's proxies matching
//! the exposure rule.

use crate::block::BlockType;
use crate::coord::{axis_neighbor, coord_in_range, coord_within, Coord, COORD_LIMIT};
use crate::editor::break_intents;
use crate::store::{
    exposed, exposed_except, insert_destroys, insert_intents, needs_proxy, remove_creates,
    ProxyIntent,
};
use vstd::prelude::*;

verus! {

/// The set of coordinates whose blocks must carry a render proxy: all of
/// them without exposure tracking, the exposed ones with it.
pub open spec fn proxy_set(m: Map<Coord, BlockType>, track: bool) -> Set<Coord> {
    Set::new(|x: Coord| needs_proxy(m, track, x))
}

/// The proxy set after a renderer applies a request list in order:
/// a create adds its coordinate, a destroy removes its coordinate.
pub open spec fn apply_intents(ps: Set<Coord>, s: Seq<ProxyIntent>) -> Set<Coord>
    decreases s.len(),
{
    if s.len() == 0 {
        ps
    } else {
        match s.last() {
            ProxyIntent::Create(x, _) => apply_intents(ps, s.drop_last()).insert(x),
            ProxyIntent::Destroy(x) => apply_intents(ps, s.drop_last()).remove(x),
        }
    }
}

/// `x` is among the first `k` axis neighbours of `c`.
pub open spec fn neighbor_among(c: Coord, x: Coord, k: int) -> bool {
    exists|j: int| 0 <= j < k && axis_neighbor(c, j) == x
}

/// `x` is one of the six axis neighbours of `c`.
pub open spec fn is_neighbor(c: Coord, x: Coord) -> bool {
    neighbor_among(c, x, 6)
}

/// The axis opposite to `k`: stepping there undoes stepping along `k`.
spec fn opposite_axis(k: int) -> int {
    if k % 2 == 0 {
        k + 1
    } else {
        k - 1
    }
}

/// For a coordinate away from the numeric edge, stepping to a neighbour
/// and back returns, and never stands still.
proof fn lemma_neighbor_roundtrip(c: Coord, k: int)
    requires
        coord_within(c, COORD_LIMIT + 1),
        0 <= k < 6,
    ensures
        0 <= opposite_axis(k) < 6,
        axis_neighbor(axis_neighbor(c, k), opposite_axis(k)) == c,
        axis_neighbor(c, k) != c,
        coord_within(axis_neighbor(c, k), COORD_LIMIT + 2),
{
}

/// A coordinate with an absent neighbour is exposed.
proof fn lemma_exposed_witness(m: Map<Coord, BlockType>, n: Coord, k: int)
    requires
        0 <= k < 6,
        !m.dom().contains(axis_neighbor(n, k)),
    ensures
        exposed(m, n),
{
    assert(0 <= k < 6 && !m.dom().contains(axis_neighbor(n, k)));
}

/// Applying the destroy requests of an insertion at `c` (over its first
/// `k` neighbours) takes out of the proxy set exactly the neighbours that
/// are present but no longer exposed.
proof fn lemma_apply_insert_destroys(
    ps0: Set<Coord>,
    pre: Seq<ProxyIntent>,
    m_new: Map<Coord, BlockType>,
    c: Coord,
    k: int,
)
    requires
        0 <= k <= 6,
    ensures
        apply_intents(ps0, pre + insert_destroys(m_new, c, k)) =~= Set::new(
            |x: Coord|
                apply_intents(ps0, pre).contains(x) && !(m_new.dom().contains(x) && !exposed(
                    m_new,
                    x,
                ) && neighbor_among(c, x, k)),
        ),
    decreases k,
{
    if k == 0 {
        assert(pre + insert_destroys(m_new, c, 0) =~= pre);
    } else {
        lemma_apply_insert_destroys(ps0, pre, m_new, c, k - 1);
        let n = axis_neighbor(c, k - 1);
        let d_prev = insert_destroys(m_new, c, k - 1);
        let d_cur = insert_destroys(m_new, c, k);
        let prev_set = apply_intents(ps0, pre + d_prev);
        if m_new.dom().contains(n) && !exposed(m_new, n) {
            assert(pre + d_cur =~= (pre + d_prev).push(ProxyIntent::Destroy(n)));
            assert((pre + d_cur).drop_last() =~= pre + d_prev);
            assert(apply_intents(ps0, pre + d_cur) == prev_set.remove(n));
            assert forall|x: Coord|
                prev_set.remove(n).contains(x) == (apply_intents(ps0, pre).contains(x) && !(
                m_new.dom().contains(x) && !exposed(m_new, x) && neighbor_among(c, x, k))) by {
                if x != n && neighbor_among(c, x, k) && !neighbor_among(c, x, k - 1) {
                    let j = choose|j: int| 0 <= j < k && axis_neighbor(c, j) == x;
                    assert(j == k - 1);
                    assert(x == n);
                }
                if x == n {
                    assert(neighbor_among(c, x, k));
                }
            }
        } else {
            assert(pre + d_cur =~= pre + d_prev);
            assert forall|x: Coord|
                prev_set.contains(x) == (apply_intents(ps0, pre).contains(x) && !(
                m_new.dom().contains(x) && !exposed(m_new, x) && neighbor_among(c, x, k))) by {
                if neighbor_among(c, x, k) && !neighbor_among(c, x, k - 1) {
                    let j = choose|j: int| 0 <= j < k && axis_neighbor(c, j) == x;
                    assert(j == k - 1);
                    assert(x == n);
                }
            }
        }
    }
}

/// After a successful insertion, handing the returned proxy requests to a
/// renderer whose proxies matched the exposure rule leaves its proxies
/// matching the rule for the grown store: the inserted block carries a
/// proxy exactly where the rule demands one, so does each of its six
/// neighbours, and every other coordinate is untouched and still right.
pub proof fn lemma_insert_restores_proxy_rule(
    m: Map<Coord, BlockType>,
    track: bool,
    c: Coord,
    b: BlockType,
)
    requires
        coord_in_range(c),
        !m.dom().contains(c),
    ensures
        ({
            let after = apply_intents(
                proxy_set(m, track),
                insert_intents(m, track, c, b),
            );
            let m_new = m.insert(c, b);
            &&& after.contains(c) == needs_proxy(m_new, track, c)
            &&& forall|k: int|
                0 <= k < 6 ==> #[trigger] after.contains(axis_neighbor(c, k)) == needs_proxy(
                    m_new,
                    track,
                    axis_neighbor(c, k),
                )
            &&& forall|x: Coord|
                coord_within(x, COORD_LIMIT + 1) && x != c && !is_neighbor(c, x)
                    ==> #[trigger] after.contains(x) == needs_proxy(m_new, track, x)
        }),
{
    let ps0 = proxy_set(m, track);
    let m_new = m.insert(c, b);
    let created = !track || exposed(m_new, c);
    let creates: Seq<ProxyIntent> = if created {
        seq![ProxyIntent::Create(c, b)]
    } else {
        Seq::empty()
    };
    let ps1 = apply_intents(ps0, creates);
    assert(ps1 == if created {
        ps0.insert(c)
    } else {
        ps0
    }) by {
        if created {
            assert(creates.len() == 1);
            assert(creates.last() == ProxyIntent::Create(c, b));
            assert(creates.drop_last() =~= Seq::<ProxyIntent>::empty());
            assert(apply_intents(ps0, creates.drop_last()) == ps0);
        }
    }
    assert forall|j: int| 0 <= j < 6 implies axis_neighbor(c, j) != c by {
        lemma_neighbor_roundtrip(c, j);
    }
    let after = apply_intents(ps0, insert_intents(m, track, c, b));
    if track {
        lemma_apply_insert_destroys(ps0, creates, m_new, c, 6);
        assert(insert_intents(m, track, c, b) == creates + insert_destroys(m_new, c, 6));
        // The inserted coordinate: no destroy names it, so its proxy is
        // exactly the create.
        assert(after.contains(c) == needs_proxy(m_new, track, c)) by {
            assert(!neighbor_among(c, c, 6));
            assert(ps1.contains(c) == created);
        }
        // Each neighbour: it was exposed before (the inserted cell was its
        // absent neighbour), so it carried a proxy exactly when present.
        assert forall|k: int|
            0 <= k < 6 implies #[trigger] after.contains(axis_neighbor(c, k)) == needs_proxy(
            m_new,
            track,
            axis_neighbor(c, k),
        ) by {
            let n = axis_neighbor(c, k);
            lemma_neighbor_roundtrip(c, k);
            lemma_exposed_witness(m, n, opposite_axis(k));
            assert(neighbor_among(c, n, 6));
            assert(ps1.contains(n) == ps0.contains(n));
            assert(ps0.contains(n) == m.dom().contains(n));
            assert(m_new.dom().contains(n) == m.dom().contains(n));
        }
        // Everything else: no request names it, and its exposure did not
        // change.
        assert forall|x: Coord|
            coord_within(x, COORD_LIMIT + 1) && x != c && !is_neighbor(c, x)
                implies #[trigger] after.contains(x) == needs_proxy(m_new, track, x) by {
            assert forall|j: int| 0 <= j < 6 implies axis_neighbor(x, j) != c by {
                lemma_neighbor_roundtrip(x, j);
                if axis_neighbor(x, j) == c {
                    assert(axis_neighbor(c, opposite_axis(j)) == x);
                    assert(is_neighbor(c, x));
                }
            }
            assert(exposed(m_new, x) == exposed(m, x)) by {
                if exposed(m, x) {
                    let j = choose|j: int|
                        0 <= j < 6 && !m.dom().contains(axis_neighbor(x, j));
                    assert(!m_new.dom().contains(axis_neighbor(x, j)));
                    lemma_exposed_witness(m_new, x, j);
                }
                if exposed(m_new, x) {
                    let j = choose|j: int|
                        0 <= j < 6 && !m_new.dom().contains(axis_neighbor(x, j));
                    assert(!m.dom().contains(axis_neighbor(x, j)));
                    lemma_exposed_witness(m, x, j);
                }
            }
            assert(ps1.contains(x) == ps0.contains(x));
        }
    } else {
        assert(insert_intents(m, track, c, b) =~= creates);
        assert(after == ps1);
        assert forall|x: Coord|
            coord_within(x, COORD_LIMIT + 1) && x != c && !is_neighbor(c, x)
                implies #[trigger] after.contains(x) == needs_proxy(m_new, track, x) by {
            assert(m_new.dom().contains(x) == m.dom().contains(x));
        }
    }
}

/// Applying the create requests of a removal at `c` (over its first `k`
/// neighbours) adds to the proxy set exactly the neighbours that are
/// present and were not exposed before the removal.
proof fn lemma_apply_remove_creates(
    ps0: Set<Coord>,
    pre: Seq<ProxyIntent>,
    m_new: Map<Coord, BlockType>,
    c: Coord,
    k: int,
)
    requires
        0 <= k <= 6,
    ensures
        apply_intents(ps0, pre + remove_creates(m_new, c, k)) =~= Set::new(
            |x: Coord|
                apply_intents(ps0, pre).contains(x) || (m_new.dom().contains(x)
                    && !exposed_except(m_new, x, c) && neighbor_among(c, x, k)),
        ),
    decreases k,
{
    if k == 0 {
        assert(pre + remove_creates(m_new, c, 0) =~= pre);
    } else {
        lemma_apply_remove_creates(ps0, pre, m_new, c, k - 1);
        let n = axis_neighbor(c, k - 1);
        let d_prev = remove_creates(m_new, c, k - 1);
        let d_cur = remove_creates(m_new, c, k);
        let prev_set = apply_intents(ps0, pre + d_prev);
        if m_new.dom().contains(n) && !exposed_except(m_new, n, c) {
            assert(pre + d_cur =~= (pre + d_prev).push(ProxyIntent::Create(n, m_new[n])));
            assert((pre + d_cur).drop_last() =~= pre + d_prev);
            assert(apply_intents(ps0, pre + d_cur) == prev_set.insert(n));
            assert forall|x: Coord|
                prev_set.insert(n).contains(x) == (apply_intents(ps0, pre).contains(x) || (
                m_new.dom().contains(x) && !exposed_except(m_new, x, c)
                    && neighbor_among(c, x, k))) by {
                if x != n && neighbor_among(c, x, k) && !neighbor_among(c, x, k - 1) {
                    let j = choose|j: int| 0 <= j < k && axis_neighbor(c, j) == x;
                    assert(j == k - 1);
                    assert(x == n);
                }
                if x == n {
                    assert(neighbor_among(c, x, k));
                }
            }
        } else {
            assert(pre + d_cur =~= pre + d_prev);
            assert forall|x: Coord|
                prev_set.contains(x) == (apply_intents(ps0, pre).contains(x) || (
                m_new.dom().contains(x) && !exposed_except(m_new, x, c)
                    && neighbor_among(c, x, k))) by {
                if neighbor_among(c, x, k) && !neighbor_among(c, x, k - 1) {
                    let j = choose|j: int| 0 <= j < k && axis_neighbor(c, j) == x;
                    assert(j == k - 1);
                    assert(x == n);
                }
            }
        }
    }
}

/// After a successful break, handing the returned proxy requests to a
/// renderer whose proxies matched the exposure rule leaves its proxies
/// matching the rule for the shrunk store: the removed block's proxy is
/// gone, each of the six neighbours carries a proxy exactly where the
/// rule now demands one, and every other coordinate is untouched and
/// still right.
pub proof fn lemma_break_restores_proxy_rule(m: Map<Coord, BlockType>, track: bool, c: Coord)
    requires
        coord_in_range(c),
        m.dom().contains(c),
    ensures
        ({
            let after = apply_intents(
                proxy_set(m, track),
                break_intents(m, track, c),
            );
            let m_new = m.remove(c);
            &&& after.contains(c) == needs_proxy(m_new, track, c)
            &&& forall|k: int|
                0 <= k < 6 ==> #[trigger] after.contains(axis_neighbor(c, k)) == needs_proxy(
                    m_new,
                    track,
                    axis_neighbor(c, k),
                )
            &&& forall|x: Coord|
                coord_within(x, COORD_LIMIT + 1) && x != c && !is_neighbor(c, x)
                    ==> #[trigger] after.contains(x) == needs_proxy(m_new, track, x)
        }),
{
    let ps0 = proxy_set(m, track);
    let m_new = m.remove(c);
    let destroyed = needs_proxy(m, track, c);
    let destroys: Seq<ProxyIntent> = if destroyed {
        seq![ProxyIntent::Destroy(c)]
    } else {
        Seq::empty()
    };
    let ps1 = apply_intents(ps0, destroys);
    assert(ps1 == if destroyed {
        ps0.remove(c)
    } else {
        ps0
    }) by {
        if destroyed {
            assert(destroys.len() == 1);
            assert(destroys.last() == ProxyIntent::Destroy(c));
            assert(destroys.drop_last() =~= Seq::<ProxyIntent>::empty());
            assert(apply_intents(ps0, destroys.drop_last()) == ps0);
        }
    }
    assert(!ps1.contains(c));
    assert forall|j: int| 0 <= j < 6 implies axis_neighbor(c, j) != c by {
        lemma_neighbor_roundtrip(c, j);
    }
    let after = apply_intents(ps0, break_intents(m, track, c));
    if track {
        lemma_apply_remove_creates(ps0, destroys, m_new, c, 6);
        assert(break_intents(m, track, c) == destroys + remove_creates(m_new, c, 6));
        // The removed coordinate: its proxy went with the destroy request
        // (or never existed), and no create names it.
        assert(after.contains(c) == needs_proxy(m_new, track, c)) by {
            assert(!neighbor_among(c, c, 6));
            assert(!m_new.dom().contains(c));
        }
        // Each neighbour: the removal makes it exposed, so it must carry a
        // proxy exactly when present; it already had one when it was
        // exposed before, and gains one through a create otherwise.
        assert forall|k: int|
            0 <= k < 6 implies #[trigger] after.contains(axis_neighbor(c, k)) == needs_proxy(
            m_new,
            track,
            axis_neighbor(c, k),
        ) by {
            let n = axis_neighbor(c, k);
            lemma_neighbor_roundtrip(c, k);
            lemma_exposed_witness(m_new, n, opposite_axis(k));
            assert(neighbor_among(c, n, 6));
            assert(ps1.contains(n) == ps0.contains(n));
            assert(m_new.dom().contains(n) == m.dom().contains(n));
            assert(exposed_except(m_new, n, c) == exposed(m, n)) by {
                if exposed_except(m_new, n, c) {
                    let j = choose|j: int|
                        0 <= j < 6 && axis_neighbor(n, j) != c && !m_new.dom().contains(
                            axis_neighbor(n, j),
                        );
                    assert(!m.dom().contains(axis_neighbor(n, j)));
                    lemma_exposed_witness(m, n, j);
                }
                if exposed(m, n) {
                    let j = choose|j: int|
                        0 <= j < 6 && !m.dom().contains(axis_neighbor(n, j));
                    assert(axis_neighbor(n, j) != c);
                    assert(!m_new.dom().contains(axis_neighbor(n, j)));
                }
            }
        }
        // Everything else: no request names it, and its exposure did not
        // change.
        assert forall|x: Coord|
            coord_within(x, COORD_LIMIT + 1) && x != c && !is_neighbor(c, x)
                implies #[trigger] after.contains(x) == needs_proxy(m_new, track, x) by {
            assert forall|j: int| 0 <= j < 6 implies axis_neighbor(x, j) != c by {
                lemma_neighbor_roundtrip(x, j);
                if axis_neighbor(x, j) == c {
                    assert(axis_neighbor(c, opposite_axis(j)) == x);
                    assert(is_neighbor(c, x));
                }
            }
            assert(exposed(m_new, x) == exposed(m, x)) by {
                if exposed(m, x) {
                    let j = choose|j: int|
                        0 <= j < 6 && !m.dom().contains(axis_neighbor(x, j));
                    assert(!m_new.dom().contains(axis_neighbor(x, j)));
                    lemma_exposed_witness(m_new, x, j);
                }
                if exposed(m_new, x) {
                    let j = choose|j: int|
                        0 <= j < 6 && !m_new.dom().contains(axis_neighbor(x, j));
                    assert(!m.dom().contains(axis_neighbor(x, j)));
                    lemma_exposed_witness(m, x, j);
                }
            }
            assert(ps1.contains(x) == ps0.contains(x));
        }
    } else {
        assert(break_intents(m, track, c) =~= destroys);
        assert(after == ps1);
        assert forall|x: Coord|
            coord_within(x, COORD_LIMIT + 1) && x != c && !is_neighbor(c, x)
                implies #[trigger] after.contains(x) == needs_proxy(m_new, track, x) by {
            assert(m_new.dom().contains(x) == m.dom().contains(x));
        }
    }
}

/// Inserting a block at a free coordinate and then removing it restores
/// the store exactly: the coordinate is unoccupied again and the whole
/// map — and with it the exposure of every coordinate — is as it was
/// before the insertion.
pub proof fn lemma_insert_remove_restores(m: Map<Coord, BlockType>, c: Coord, b: BlockType)
    requires
        !m.dom().contains(c),
    ensures
        !m.insert(c, b).remove(c).dom().contains(c),
        m.insert(c, b).remove(c) =~= m,
        forall|n: Coord| exposed(m.insert(c, b).remove(c), n) == exposed(m, n),
{
    assert(m.insert(c, b).remove(c) =~= m);
}

/// Inserting blocks at two free coordinates of an empty store leaves
/// both occupied, and removing both — in either order — empties the
/// store again.
pub proof fn lemma_two_inserts_removals_empty(c: Coord, d: Coord, b: BlockType)
    ensures
        Map::<Coord, BlockType>::empty().insert(c, b).insert(d, b).dom().contains(c),
        Map::<Coord, BlockType>::empty().insert(c, b).insert(d, b).dom().contains(d),
        Map::<Coord, BlockType>::empty().insert(c, b).insert(d, b).remove(c).remove(d)
            =~= Map::<Coord, BlockType>::empty(),
        Map::<Coord, BlockType>::empty().insert(c, b).insert(d, b).remove(d).remove(c)
            =~= Map::<Coord, BlockType>::empty(),
{
}

} // verus!
