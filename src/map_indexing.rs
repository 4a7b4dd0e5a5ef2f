use vstd::prelude::*;
use crate::components::{Entity, Position};
use crate::map::{GameMap, TileType, spec_idx};

verus! {

/// An entity that has a position, as the spatial index sees it.
#[derive(PartialEq, Eq, Structural, Copy, Clone, Debug)]
pub struct Occupant {
    pub entity: Entity,
    pub pos: Position,
    pub blocks: bool,
}

/// The index of an occupant's tile on a grid `w` wide.
pub open spec fn occ_idx(o: Occupant, w: int) -> int {
    spec_idx(w, o.pos.x as int, o.pos.y as int)
}

/// Whether some blocking occupant among `occ` stands on tile `i`.
pub open spec fn blocked_by(occ: Seq<Occupant>, w: int, i: int) -> bool {
    exists|k: int| 0 <= k < occ.len() && #[trigger] occ[k].blocks && occ_idx(occ[k], w) == i
}

/// The entities among `occ` that stand on tile `i`, in order.
pub open spec fn occupants_at(occ: Seq<Occupant>, w: int, i: int) -> Seq<Entity>
    decreases occ.len(),
{
    if occ.len() == 0 {
        Seq::empty()
    } else {
        let prev = occupants_at(occ.drop_last(), w, i);
        if occ_idx(occ.last(), w) == i {
            prev.push(occ.last().entity)
        } else {
            prev
        }
    }
}

/// Rebuilds the spatial index from the positioned entities: afterwards a
/// tile is blocked iff it is a wall or a blocking entity stands on it, and
/// each tile's occupancy list holds exactly the entities on it, in order.
pub fn refresh_index(map: &mut GameMap, occupants: &Vec<Occupant>)
    requires
        old(map).well_formed(),
        forall|k: int|
            0 <= k < occupants@.len() ==> old(map).in_bounds(
                #[trigger] occupants@[k].pos.x as int,
                occupants@[k].pos.y as int,
            ),
    ensures
        final(map).well_formed(),
        final(map).tiles == old(map).tiles,
        final(map).revealed_tiles == old(map).revealed_tiles,
        final(map).visible_tiles == old(map).visible_tiles,
        final(map).bloodstains == old(map).bloodstains,
        final(map).width == old(map).width,
        final(map).height == old(map).height,
        final(map).depth == old(map).depth,
        forall|i: int|
            0 <= i < final(map).tiles@.len() ==> final(map).blocked@[i] == (final(map).tiles@[i]
                == TileType::Wall || blocked_by(occupants@, final(map).width as int, i)),
        forall|i: int|
            0 <= i < final(map).tiles@.len() ==> final(map).tile_content@[i]@ == occupants_at(
                occupants@,
                final(map).width as int,
                i,
            ),
{
    map.clear_content_index();
    map.populate_blocked();
    let ghost w = map.width as int;
    let n = occupants.len();
    let mut k: usize = 0;
    while k < n
        invariant
            map.well_formed(),
            n == occupants@.len(),
            k <= n,
            w == map.width,
            map.tiles == old(map).tiles,
            map.revealed_tiles == old(map).revealed_tiles,
            map.visible_tiles == old(map).visible_tiles,
            map.bloodstains == old(map).bloodstains,
            map.width == old(map).width,
            map.height == old(map).height,
            map.depth == old(map).depth,
            forall|j: int|
                0 <= j < occupants@.len() ==> old(map).in_bounds(
                    #[trigger] occupants@[j].pos.x as int,
                    occupants@[j].pos.y as int,
                ),
            forall|i: int|
                0 <= i < map.tiles@.len() ==> map.blocked@[i] == (map.tiles@[i] == TileType::Wall
                    || blocked_by(occupants@.subrange(0, k as int), w, i)),
            forall|i: int|
                0 <= i < map.tiles@.len() ==> map.tile_content@[i]@ == occupants_at(
                    occupants@.subrange(0, k as int),
                    w,
                    i,
                ),
        decreases n - k,
    {
        let o = occupants[k];
        let idx = map.xy_idx(o.pos.x, o.pos.y);
        let ghost pre = occupants@.subrange(0, k as int);
        let ghost post = occupants@.subrange(0, k as int + 1);
        assert(post.drop_last() =~= pre);
        assert(post.last() == o);
        if o.blocks {
            map.blocked.set(idx, true);
        }
        let ghost old_c = map.tile_content@[idx as int]@;
        let mut c = map.tile_content[idx].clone();
        assert(c@ =~= old_c);
        c.push(o.entity);
        map.tile_content.set(idx, c);
        assert forall|i: int| 0 <= i < map.tiles@.len() implies map.tile_content@[i]@
            == occupants_at(post, w, i) by {
            assert(occupants_at(post, w, i) == if occ_idx(o, w) == i {
                occupants_at(pre, w, i).push(o.entity)
            } else {
                occupants_at(pre, w, i)
            });
        }
        assert forall|i: int| 0 <= i < map.tiles@.len() implies map.blocked@[i] == (map.tiles@[i]
            == TileType::Wall || blocked_by(post, w, i)) by {
            if blocked_by(pre, w, i) {
                let j = choose|j: int| 0 <= j < pre.len() && #[trigger] pre[j].blocks && occ_idx(pre[j], w) == i;
                assert(post[j] == pre[j]);
            }
            if o.blocks && i == idx {
                assert(post[k as int] == o);
            }
            if blocked_by(post, w, i) && !(o.blocks && i == idx) {
                let j = choose|j: int| 0 <= j < post.len() && #[trigger] post[j].blocks && occ_idx(post[j], w) == i;
                assert(j < k);
                assert(pre[j] == post[j]);
            }
        }
        k = k + 1;
    }
    assert(occupants@.subrange(0, n as int) =~= occupants@);
}

} // verus!
