use vstd::prelude::*;
use crate::map::{GameMap, TileType};

verus! {

/// Two tiles share a side (or are the same tile): a step of a four-way walk.
pub open spec fn adjacent(a: (int, int), b: (int, int)) -> bool {
    (a.0 == b.0 && -1 <= a.1 - b.1 <= 1) || (a.1 == b.1 && -1 <= a.0 - b.0 <= 1)
}

/// A tile on the map that is not a wall.
pub open spec fn passable(map: GameMap, p: (int, int)) -> bool {
    map.in_bounds(p.0, p.1) && map.tile_at(p.0, p.1) != TileType::Wall
}

/// A walk: a non-empty sequence of passable tiles, each sharing a side
/// with the next.
pub open spec fn is_walk(map: GameMap, w: Seq<(int, int)>) -> bool {
    &&& w.len() > 0
    &&& forall|k: int| 0 <= k < w.len() ==> passable(map, #[trigger] w[k])
    &&& forall|k: int| 0 <= k < w.len() - 1 ==> adjacent(#[trigger] w[k], w[k + 1])
}

/// Whether some walk leads from `a` to `b`.
pub open spec fn reachable(map: GameMap, a: (int, int), b: (int, int)) -> bool {
    exists|w: Seq<(int, int)>| is_walk(map, w) && w[0] == a && w.last() == b
}

/// No passable tile turned into a wall, and the grid kept its shape.
pub open spec fn no_new_walls(before: GameMap, after: GameMap) -> bool {
    &&& after.width == before.width
    &&& after.height == before.height
    &&& after.tiles@.len() == before.tiles@.len()
    &&& forall|i: int|
        0 <= i < before.tiles@.len() && before.tiles@[i] != TileType::Wall
            ==> #[trigger] after.tiles@[i] != TileType::Wall
}

/// Carving floor adds no wall.
pub proof fn lemma_carving_adds_no_walls(before: GameMap, after: GameMap)
    requires
        crate::maps::common::only_carved(before, after),
    ensures
        no_new_walls(before, after),
{
    assert forall|i: int|
        0 <= i < before.tiles@.len() && before.tiles@[i] != TileType::Wall
            implies #[trigger] after.tiles@[i] != TileType::Wall by {
        assert(after.tiles@[i] == before.tiles@[i] || after.tiles@[i] == TileType::Floor);
    }
}

/// Every room center that `origin` reached is still reached once no wall is added.
pub proof fn lemma_all_reach_kept(
    before: GameMap,
    after: GameMap,
    origin: (int, int),
    rooms: Seq<crate::rect::Rect>,
)
    requires
        before.well_formed(),
        no_new_walls(before, after),
        forall|k: int|
            0 <= k < rooms.len() ==> reachable(before, origin, (#[trigger] rooms[k]).spec_center()),
    ensures
        forall|k: int|
            0 <= k < rooms.len() ==> reachable(after, origin, (#[trigger] rooms[k]).spec_center()),
{
    assert forall|k: int| 0 <= k < rooms.len() implies reachable(
        after,
        origin,
        (#[trigger] rooms[k]).spec_center(),
    ) by {
        lemma_reach_kept(before, after, origin, rooms[k].spec_center());
    }
}

/// A walk stays a walk when no wall is added.
pub proof fn lemma_reach_kept(before: GameMap, after: GameMap, a: (int, int), b: (int, int))
    requires
        before.well_formed(),
        no_new_walls(before, after),
        reachable(before, a, b),
    ensures
        reachable(after, a, b),
{
    let w = choose|w: Seq<(int, int)>| is_walk(before, w) && w[0] == a && w.last() == b;
    assert forall|k: int| 0 <= k < w.len() implies passable(after, #[trigger] w[k]) by {
        assert(passable(before, w[k]));
        crate::map::lemma_idx_in_grid(before.width as int, before.height as int, w[k].0, w[k].1);
    }
    assert(is_walk(after, w));
}

/// A single passable tile reaches itself.
pub proof fn lemma_reach_refl(map: GameMap, a: (int, int))
    requires
        passable(map, a),
    ensures
        reachable(map, a, a),
{
    let w = seq![a];
    assert(w[0] == a);
    assert(is_walk(map, w));
    assert(w.last() == a);
}

/// Walks join end to start.
pub proof fn lemma_reach_trans(map: GameMap, a: (int, int), b: (int, int), c: (int, int))
    requires
        reachable(map, a, b),
        reachable(map, b, c),
    ensures
        reachable(map, a, c),
{
    let w1 = choose|w: Seq<(int, int)>| is_walk(map, w) && w[0] == a && w.last() == b;
    let w2 = choose|w: Seq<(int, int)>| is_walk(map, w) && w[0] == b && w.last() == c;
    let w = w1 + w2.drop_first();
    assert forall|k: int| 0 <= k < w.len() implies passable(map, #[trigger] w[k]) by {
        if k < w1.len() {
            assert(w[k] == w1[k]);
        } else {
            assert(w[k] == w2[k - w1.len() + 1]);
        }
    }
    assert forall|k: int| 0 <= k < w.len() - 1 implies adjacent(#[trigger] w[k], w[k + 1]) by {
        if k < w1.len() - 1 {
            assert(w[k] == w1[k] && w[k + 1] == w1[k + 1]);
        } else if k == w1.len() - 1 {
            assert(w[k] == w1[k]);
            assert(w[k + 1] == w2[1]);
            assert(w2[0] == b);
        } else {
            assert(w[k] == w2[k - w1.len() + 1] && w[k + 1] == w2[k - w1.len() + 2]);
        }
    }
    if w2.len() == 1 {
        assert(w =~= w1);
    } else {
        assert(w.last() == w2.last());
    }
}

/// A walk extends by one step onto a touching passable tile.
pub proof fn lemma_reach_step(map: GameMap, a: (int, int), b: (int, int), c: (int, int))
    requires
        reachable(map, a, b),
        passable(map, c),
        adjacent(b, c),
    ensures
        reachable(map, a, c),
{
    let w0 = choose|w: Seq<(int, int)>| is_walk(map, w) && w[0] == a && w.last() == b;
    assert(passable(map, w0[w0.len() - 1]));
    let w = seq![b, c];
    assert(w[0] == b && w[1] == c);
    assert(is_walk(map, w));
    assert(w.last() == c);
    lemma_reach_trans(map, a, b, c);
}

/// Any two floor tiles of a carved room are joined inside the room.
pub proof fn lemma_within_room(map: GameMap, r: crate::rect::Rect, p: (int, int), q: (int, int))
    requires
        map.width == 80,
        map.height == 43,
        crate::maps::common::room_fits(r, 80, 43),
        crate::maps::room_carved(map, r),
        crate::maps::common::in_room(r, p.0, p.1),
        crate::maps::common::in_room(r, q.0, q.1),
    ensures
        reachable(map, p, q),
{
    assert forall|x: int| (if p.0 <= q.0 { p.0 <= x <= q.0 } else { q.0 <= x <= p.0 }) implies #[trigger] passable(
        map,
        (x, p.1),
    ) by {
        assert(crate::maps::common::in_room(r, x, p.1));
        assert(map.tile_at(x, p.1) != TileType::Wall);
    }
    assert forall|y: int| (if p.1 <= q.1 { p.1 <= y <= q.1 } else { q.1 <= y <= p.1 }) implies #[trigger] passable(
        map,
        (q.0, y),
    ) by {
        assert(crate::maps::common::in_room(r, q.0, y));
        assert(map.tile_at(q.0, y) != TileType::Wall);
    }
    lemma_row_reach(map, p.0, q.0, p.1);
    lemma_col_reach(map, q.0, p.1, q.1);
    lemma_reach_trans(map, p, (q.0, p.1), q);
}

/// A straight run of passable tiles along row `y` joins its ends.
pub proof fn lemma_row_reach(map: GameMap, x1: int, x2: int, y: int)
    requires
        forall|x: int|
            (if x1 <= x2 { x1 <= x <= x2 } else { x2 <= x <= x1 }) ==> #[trigger] passable(map, (x, y)),
    ensures
        reachable(map, (x1, y), (x2, y)),
{
    if x1 <= x2 {
        let w = Seq::new((x2 - x1 + 1) as nat, |i: int| (x1 + i, y));
        assert forall|k: int| 0 <= k < w.len() implies passable(map, #[trigger] w[k]) by {
            assert(w[k] == (x1 + k, y));
        }
        assert(is_walk(map, w));
        assert(w.last() == (x2, y));
    } else {
        let w = Seq::new((x1 - x2 + 1) as nat, |i: int| (x1 - i, y));
        assert forall|k: int| 0 <= k < w.len() implies passable(map, #[trigger] w[k]) by {
            assert(w[k] == (x1 - k, y));
        }
        assert(is_walk(map, w));
        assert(w.last() == (x2, y));
    }
}

/// A straight run of passable tiles along column `x` joins its ends.
pub proof fn lemma_col_reach(map: GameMap, x: int, y1: int, y2: int)
    requires
        forall|y: int|
            (if y1 <= y2 { y1 <= y <= y2 } else { y2 <= y <= y1 }) ==> #[trigger] passable(map, (x, y)),
    ensures
        reachable(map, (x, y1), (x, y2)),
{
    if y1 <= y2 {
        let w = Seq::new((y2 - y1 + 1) as nat, |i: int| (x, y1 + i));
        assert forall|k: int| 0 <= k < w.len() implies passable(map, #[trigger] w[k]) by {
            assert(w[k] == (x, y1 + k));
        }
        assert(is_walk(map, w));
        assert(w.last() == (x, y2));
    } else {
        let w = Seq::new((y1 - y2 + 1) as nat, |i: int| (x, y1 - i));
        assert forall|k: int| 0 <= k < w.len() implies passable(map, #[trigger] w[k]) by {
            assert(w[k] == (x, y1 - k));
        }
        assert(is_walk(map, w));
        assert(w.last() == (x, y2));
    }
}

} // verus!
