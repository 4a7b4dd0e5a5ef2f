use vstd::prelude::*;
use rltk::RandomNumberGenerator;
use crate::components::{Entity, Position, Viewshed};
use crate::rng::roll_die;
use crate::map::{GameMap, spec_idx};

verus! {

/// The points of `s` that lie on a `w` by `h` grid, in order.
pub open spec fn clip(s: Seq<Position>, w: int, h: int) -> Seq<Position>
    decreases s.len(),
{
    if s.len() == 0 {
        Seq::empty()
    } else {
        let prev = clip(s.drop_last(), w, h);
        let p = s.last();
        if 0 <= p.x < w && 0 <= p.y < h {
            prev.push(p)
        } else {
            prev
        }
    }
}

/// Whether tile `i` of a grid `w` wide is one of the points in `s`.
pub open spec fn covers(s: Seq<Position>, w: int, i: int) -> bool {
    exists|k: int| 0 <= k < s.len() && spec_idx(w, (#[trigger] s[k]).x as int, s[k].y as int) == i
}

/// Every point of the clipped sequence lies on the grid.
proof fn lemma_clip_in_bounds(s: Seq<Position>, w: int, h: int)
    ensures
        forall|k: int|
            0 <= k < clip(s, w, h).len() ==> 0 <= #[trigger] clip(s, w, h)[k].x < w && 0
                <= clip(s, w, h)[k].y < h,
    decreases s.len(),
{
    if s.len() > 0 {
        lemma_clip_in_bounds(s.drop_last(), w, h);
        let prev = clip(s.drop_last(), w, h);
        assert forall|k: int| 0 <= k < clip(s, w, h).len() implies 0 <= #[trigger] clip(
            s,
            w,
            h,
        )[k].x < w && 0 <= clip(s, w, h)[k].y < h by {
            if k < prev.len() {
                assert(clip(s, w, h)[k] == prev[k]);
            }
        }
    }
}

/// The visible-tile set after a recompute: a clean viewshed is kept as it
/// is; a dirty one takes the field of view clipped to the map and is clean.
pub open spec fn recomputed_tiles(dirty: bool, tiles: Seq<Position>, fov: Seq<Position>, w: int, h: int) -> Seq<Position> {
    if dirty {
        clip(fov, w, h)
    } else {
        tiles
    }
}

/// Recomputes an actor's viewshed if it is dirty. `fov` is the field of view
/// from the actor's position out to its range, as the shadowcasting
/// algorithm gives it. For the player the map's visible mask becomes exactly
/// the new visible set, and those tiles are revealed; revealed tiles are
/// never hidden again. A clean viewshed leaves everything unchanged.
pub fn update_viewshed(map: &mut GameMap, vs: &mut Viewshed, fov: &Vec<Position>, is_player: bool)
    requires
        old(map).well_formed(),
    ensures
        final(map).well_formed(),
        final(map).tiles == old(map).tiles,
        final(map).blocked == old(map).blocked,
        final(map).tile_content == old(map).tile_content,
        final(map).bloodstains == old(map).bloodstains,
        final(map).width == old(map).width,
        final(map).height == old(map).height,
        final(map).depth == old(map).depth,
        final(vs).range == old(vs).range,
        !final(vs).dirty,
        final(vs).visible_tiles@ == recomputed_tiles(
            old(vs).dirty,
            old(vs).visible_tiles@,
            fov@,
            old(map).width as int,
            old(map).height as int,
        ),
        !(old(vs).dirty && is_player) ==> *final(map) == *old(map),
        forall|i: int|
            0 <= i < final(map).tiles@.len() ==> (old(map).revealed_tiles@[i]
                ==> final(map).revealed_tiles@[i]),
        old(vs).dirty && is_player ==> forall|i: int|
            0 <= i < final(map).tiles@.len() ==> {
                &&& final(map).visible_tiles@[i] == covers(
                    final(vs).visible_tiles@,
                    final(map).width as int,
                    i,
                )
                &&& final(map).revealed_tiles@[i] == (old(map).revealed_tiles@[i] || covers(
                    final(vs).visible_tiles@,
                    final(map).width as int,
                    i,
                ))
            },
{
    if !vs.dirty {
        return;
    }
    vs.dirty = false;
    let ghost w = map.width as int;
    let ghost h = map.height as int;
    let mut visible: Vec<Position> = Vec::new();
    let mut k: usize = 0;
    while k < fov.len()
        invariant
            k <= fov@.len(),
            w == map.width,
            h == map.height,
            visible@ == clip(fov@.subrange(0, k as int), w, h),
        decreases fov@.len() - k,
    {
        let p = fov[k];
        let ghost post = fov@.subrange(0, k as int + 1);
        assert(post.drop_last() =~= fov@.subrange(0, k as int));
        if p.x >= 0 && p.x < map.width && p.y >= 0 && p.y < map.height {
            visible.push(p);
        }
        k = k + 1;
    }
    assert(fov@.subrange(0, fov@.len() as int) =~= fov@);
    proof {
        lemma_clip_in_bounds(fov@, w, h);
    }
    if is_player {
        let n = map.visible_tiles.len();
        let mut i: usize = 0;
        while i < n
            invariant
                map.well_formed(),
                n == map.visible_tiles@.len(),
                i <= n,
                map.tiles == old(map).tiles,
                map.revealed_tiles == old(map).revealed_tiles,
                map.blocked == old(map).blocked,
                map.tile_content == old(map).tile_content,
                map.bloodstains == old(map).bloodstains,
                map.width == old(map).width,
                map.height == old(map).height,
                map.depth == old(map).depth,
                forall|j: int| 0 <= j < i ==> !map.visible_tiles@[j],
            decreases n - i,
        {
            map.visible_tiles.set(i, false);
            i = i + 1;
        }
        let mut k: usize = 0;
        while k < visible.len()
            invariant
                map.well_formed(),
                k <= visible@.len(),
                w == map.width,
                h == map.height,
                map.tiles == old(map).tiles,
                map.blocked == old(map).blocked,
                map.tile_content == old(map).tile_content,
                map.bloodstains == old(map).bloodstains,
                map.width == old(map).width,
                map.height == old(map).height,
                map.depth == old(map).depth,
                forall|j: int|
                    0 <= j < visible@.len() ==> 0 <= #[trigger] visible@[j].x < w && 0
                        <= visible@[j].y < h,
                forall|i: int|
                    0 <= i < map.tiles@.len() ==> map.visible_tiles@[i] == covers(
                        visible@.subrange(0, k as int),
                        w,
                        i,
                    ),
                forall|i: int|
                    0 <= i < map.tiles@.len() ==> map.revealed_tiles@[i] == (
                    old(map).revealed_tiles@[i] || covers(visible@.subrange(0, k as int), w, i)),
            decreases visible@.len() - k,
        {
            let p = visible[k];
            assert(0 <= visible@[k as int].x < w);
            let idx = map.xy_idx(p.x, p.y);
            map.revealed_tiles.set(idx, true);
            map.visible_tiles.set(idx, true);
            let ghost pre = visible@.subrange(0, k as int);
            let ghost post = visible@.subrange(0, k as int + 1);
            assert forall|i: int| 0 <= i < map.tiles@.len() implies covers(post, w, i) == (covers(
                pre,
                w,
                i,
            ) || i == idx) by {
                if covers(pre, w, i) {
                    let j = choose|j: int|
                        0 <= j < pre.len() && spec_idx(w, (#[trigger] pre[j]).x as int, pre[j].y as int)
                            == i;
                    assert(post[j] == pre[j]);
                }
                if i == idx {
                    assert(post[k as int] == p);
                }
                if covers(post, w, i) && i != idx {
                    let j = choose|j: int|
                        0 <= j < post.len() && spec_idx(w, (#[trigger] post[j]).x as int, post[j].y as int)
                            == i;
                    assert(j < k);
                    assert(pre[j] == post[j]);
                }
            }
            k = k + 1;
        }
        assert(visible@.subrange(0, visible@.len() as int) =~= visible@);
    }
    vs.visible_tiles = visible;
}

/// Whether entity `e` stands on one of the tiles of `tiles`.
pub open spec fn stands_in(map: GameMap, tiles: Seq<Position>, e: Entity) -> bool {
    exists|k: int, j: int|
        0 <= k < tiles.len() && 0 <= j < map.tile_content@[map.idx(
            tiles[k].x as int,
            tiles[k].y as int,
        )]@.len() && #[trigger] map.tile_content@[map.idx(tiles[k].x as int, tiles[k].y as int)]@[j]
            == e
}

/// The entities of `content` that are hidden, in order.
pub open spec fn hidden_among(content: Seq<Entity>, hidden: Seq<Entity>) -> Seq<Entity>
    decreases content.len(),
{
    if content.len() == 0 {
        Seq::empty()
    } else {
        let prev = hidden_among(content.drop_last(), hidden);
        if hidden.contains(content.last()) {
            prev.push(content.last())
        } else {
            prev
        }
    }
}

/// The hidden entities standing on the tiles of `tiles`, tile by tile and
/// in each tile's occupancy order.
pub open spec fn hidden_in_view(map: GameMap, tiles: Seq<Position>, hidden: Seq<Entity>) -> Seq<Entity>
    decreases tiles.len(),
{
    if tiles.len() == 0 {
        Seq::empty()
    } else {
        let p = tiles.last();
        hidden_in_view(map, tiles.drop_last(), hidden) + hidden_among(
            map.tile_content@[map.idx(p.x as int, p.y as int)]@,
            hidden,
        )
    }
}

/// The candidates whose die shows one, in order; `rolls[k]` is the die of
/// `cands[k]`.
pub open spec fn rolled_ones(cands: Seq<Entity>, rolls: Seq<i32>) -> Seq<Entity>
    decreases cands.len(),
{
    if cands.len() == 0 {
        Seq::empty()
    } else {
        let prev = rolled_ones(cands.drop_last(), rolls);
        if rolls[cands.len() - 1] == 1 {
            prev.push(cands.last())
        } else {
            prev
        }
    }
}

/// The hidden entities on the tiles the player sees, in scan order; each
/// one is hidden and stands on a visible tile.
pub fn hidden_in_view_of(map: &GameMap, visible: &Vec<Position>, hidden: &Vec<Entity>) -> (r: Vec<Entity>)
    requires
        map.well_formed(),
        forall|k: int|
            0 <= k < visible@.len() ==> map.in_bounds(#[trigger] visible@[k].x as int, visible@[k].y as int),
    ensures
        r@ == hidden_in_view(*map, visible@, hidden@),
        forall|i: int| 0 <= i < r@.len() ==> hidden@.contains(#[trigger] r@[i]),
        forall|i: int| 0 <= i < r@.len() ==> stands_in(*map, visible@, #[trigger] r@[i]),
{
    let mut found: Vec<Entity> = Vec::new();
    let mut k: usize = 0;
    while k < visible.len()
        invariant
            map.well_formed(),
            k <= visible@.len(),
            forall|kk: int|
                0 <= kk < visible@.len() ==> map.in_bounds(#[trigger] visible@[kk].x as int, visible@[kk].y as int),
            found@ == hidden_in_view(*map, visible@.subrange(0, k as int), hidden@),
            forall|i: int| 0 <= i < found@.len() ==> hidden@.contains(#[trigger] found@[i]),
            forall|i: int| 0 <= i < found@.len() ==> stands_in(*map, visible@, #[trigger] found@[i]),
        decreases visible@.len() - k,
    {
        let p = visible[k];
        let idx = map.xy_idx(p.x, p.y);
        let content = &map.tile_content[idx];
        let ghost before = found@;
        assert(visible@.subrange(0, k as int + 1).drop_last() =~= visible@.subrange(0, k as int));
        assert(visible@.subrange(0, k as int + 1).last() == p);
        let mut j: usize = 0;
        while j < content.len()
            invariant
                map.well_formed(),
                j <= content@.len(),
                content@ == map.tile_content@[idx as int]@,
                k < visible@.len(),
                p == visible@[k as int],
                idx as int == map.idx(p.x as int, p.y as int),
                found@ == before + hidden_among(content@.subrange(0, j as int), hidden@),
                forall|i: int| 0 <= i < found@.len() ==> hidden@.contains(#[trigger] found@[i]),
                forall|i: int| 0 <= i < found@.len() ==> stands_in(*map, visible@, #[trigger] found@[i]),
            decreases content@.len() - j,
        {
            let e = content[j];
            assert(content@.subrange(0, j as int + 1).drop_last() =~= content@.subrange(0, j as int));
            let mut h: usize = 0;
            let mut is_hidden = false;
            while h < hidden.len()
                invariant
                    h <= hidden@.len(),
                    is_hidden == exists|q: int| 0 <= q < h && hidden@[q] == e,
                decreases hidden@.len() - h,
            {
                if hidden[h] == e {
                    is_hidden = true;
                }
                h = h + 1;
            }
            assert(is_hidden == hidden@.contains(e));
            if is_hidden {
                let ghost prev = found@;
                found.push(e);
                proof {
                    let kk = k as int;
                    let jj = j as int;
                    assert(map.tile_content@[map.idx(visible@[kk].x as int, visible@[kk].y as int)]@[jj] == e);
                    assert(stands_in(*map, visible@, e));
                    assert forall|i: int| 0 <= i < found@.len() implies stands_in(*map, visible@, #[trigger] found@[i]) && hidden@.contains(found@[i]) by {
                        if i < prev.len() {
                            assert(found@[i] == prev[i]);
                        }
                    }
                }
            }
            assert(found@ =~= before + hidden_among(content@.subrange(0, j as int + 1), hidden@));
            j = j + 1;
        }
        assert(content@.subrange(0, content@.len() as int) =~= content@);
        k = k + 1;
    }
    assert(visible@.subrange(0, visible@.len() as int) =~= visible@);
    found
}

/// The candidates whose die shows one, in order; `rolls[k]` is the die of
/// `cands[k]`.
pub fn spotted_by_rolls(cands: &Vec<Entity>, rolls: &Vec<i32>) -> (r: Vec<Entity>)
    requires
        rolls@.len() >= cands@.len(),
    ensures
        r@ == rolled_ones(cands@, rolls@),
        forall|i: int| 0 <= i < r@.len() ==> cands@.contains(#[trigger] r@[i]),
{
    let mut out: Vec<Entity> = Vec::new();
    let mut k: usize = 0;
    while k < cands.len()
        invariant
            k <= cands@.len(),
            rolls@.len() >= cands@.len(),
            out@ == rolled_ones(cands@.subrange(0, k as int), rolls@),
            forall|i: int| 0 <= i < out@.len() ==> cands@.contains(#[trigger] out@[i]),
        decreases cands@.len() - k,
    {
        assert(cands@.subrange(0, k as int + 1).drop_last() =~= cands@.subrange(0, k as int));
        if rolls[k] == 1 {
            let ghost prev = out@;
            out.push(cands[k]);
            assert forall|i: int| 0 <= i < out@.len() implies cands@.contains(#[trigger] out@[i]) by {
                if i < prev.len() {
                    assert(out@[i] == prev[i]);
                } else {
                    assert(out@[i] == cands@[k as int]);
                }
            }
        }
        k = k + 1;
    }
    assert(cands@.subrange(0, cands@.len() as int) =~= cands@);
    out
}

/// The hidden entities the player notices this turn: one die of 24 is
/// rolled for each hidden entity on a visible tile, in scan order, and those
/// rolling one are noticed. Every noticed entity is hidden and stands on a
/// visible tile.
pub fn spot_hidden(map: &GameMap, visible: &Vec<Position>, hidden: &Vec<Entity>, rng: &mut RandomNumberGenerator) -> (r: Vec<Entity>)
    requires
        map.well_formed(),
        forall|k: int|
            0 <= k < visible@.len() ==> map.in_bounds(#[trigger] visible@[k].x as int, visible@[k].y as int),
    ensures
        forall|i: int| 0 <= i < r@.len() ==> hidden@.contains(#[trigger] r@[i]),
        forall|i: int| 0 <= i < r@.len() ==> stands_in(*map, visible@, #[trigger] r@[i]),
{
    let cands = hidden_in_view_of(map, visible, hidden);
    let mut rolls: Vec<i32> = Vec::new();
    let mut k: usize = 0;
    while k < cands.len()
        invariant
            k <= cands@.len(),
            rolls@.len() == k,
        decreases cands@.len() - k,
    {
        rolls.push(roll_die(rng, 24));
        k = k + 1;
    }
    let r = spotted_by_rolls(&cands, &rolls);
    assert forall|i: int| 0 <= i < r@.len() implies hidden@.contains(#[trigger] r@[i]) && stands_in(
        *map,
        visible@,
        r@[i],
    ) by {
        let j = choose|j: int| 0 <= j < cands@.len() && cands@[j] == r@[i];
        assert(hidden@.contains(cands@[j]));
        assert(stands_in(*map, visible@, cands@[j]));
    }
    r
}

/// Recomputing a viewshed twice in a row, with the actor not moved in
/// between, leaves the visible set as the first recompute made it: the first
/// call clears the dirty flag, so the second keeps the set whatever field of
/// view it is given.
pub proof fn lemma_recompute_idempotent(
    dirty: bool,
    tiles: Seq<Position>,
    fov1: Seq<Position>,
    fov2: Seq<Position>,
    w: int,
    h: int,
)
    ensures
        recomputed_tiles(false, recomputed_tiles(dirty, tiles, fov1, w, h), fov2, w, h)
            == recomputed_tiles(dirty, tiles, fov1, w, h),
{
}

} // verus!
