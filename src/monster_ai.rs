use vstd::prelude::*;
use crate::components::{Position, Viewshed};
use crate::map::{dist_sq, lemma_idx_split, GameMap};

verus! {

/// What a monster does on its turn.
#[derive(PartialEq, Eq, Structural, Copy, Clone, Debug)]
pub enum MonsterIntent {
    /// Confused: it only shows confusion; the status keeps `turns_left`
    /// turns, or is removed when that is `None`.
    Confused { turns_left: Option<i32> },
    /// Close enough to strike the player.
    Melee,
    /// Sees the player and walks toward it along a shortest path.
    Chase,
    /// Does nothing this tick.
    Idle,
}

/// A monster is within striking distance when the straight-line distance is
/// below 1.5 tiles, that is when the squared distance is at most 2.
pub open spec fn in_melee_range(a: Position, b: Position) -> bool {
    dist_sq(a.x as int, a.y as int, b.x as int, b.y as int) <= 2
}

/// The decision of one monster: confusion first, then melee, then chase.
pub open spec fn spec_intent(
    pos: Position,
    confusion: Option<i32>,
    player_pos: Position,
    sees_player: bool,
) -> MonsterIntent {
    match confusion {
        Some(turns) => MonsterIntent::Confused {
            turns_left: if turns <= 1 {
                None
            } else {
                Some((turns - 1) as i32)
            },
        },
        None => if in_melee_range(pos, player_pos) {
            MonsterIntent::Melee
        } else if sees_player {
            MonsterIntent::Chase
        } else {
            MonsterIntent::Idle
        },
    }
}

/// Whether a viewshed's visible set holds `p`.
pub fn can_see(vs: &Viewshed, p: Position) -> (r: bool)
    ensures
        r == vs.visible_tiles@.contains(p),
{
    let mut k: usize = 0;
    while k < vs.visible_tiles.len()
        invariant
            k <= vs.visible_tiles@.len(),
            forall|j: int| 0 <= j < k ==> vs.visible_tiles@[j] != p,
        decreases vs.visible_tiles@.len() - k,
    {
        if vs.visible_tiles[k] == p {
            return true;
        }
        k = k + 1;
    }
    false
}

/// Decides a monster's action: a confused monster counts its confusion down
/// and does nothing else; otherwise it strikes a player within 1.5 tiles,
/// chases a player it sees, or idles.
pub fn monster_intent(pos: Position, confusion: Option<i32>, player_pos: Position, sees_player: bool) -> (r:
    MonsterIntent)
    ensures
        r == spec_intent(pos, confusion, player_pos, sees_player),
{
    match confusion {
        Some(turns) => {
            if turns <= 1 {
                MonsterIntent::Confused { turns_left: None }
            } else {
                MonsterIntent::Confused { turns_left: Some(turns - 1) }
            }
        },
        None => {
            let dx: i64 = pos.x as i64 - player_pos.x as i64;
            let dy: i64 = pos.y as i64 - player_pos.y as i64;
            let close = -1 <= dx && dx <= 1 && -1 <= dy && dy <= 1;
            assert(close == (dx * dx + dy * dy <= 2)) by (nonlinear_arith)
                requires
                    close == (-1 <= dx && dx <= 1 && -1 <= dy && dy <= 1),
            ;
            if close {
                MonsterIntent::Melee
            } else if sees_player {
                MonsterIntent::Chase
            } else {
                MonsterIntent::Idle
            }
        },
    }
}

/// Moves a chasing monster one step along `path` (tile indices from its own
/// tile to the player's). With a path of more than one tile the monster
/// leaves its tile, which is unblocked, enters the second tile of the path,
/// which is blocked at once, and its viewshed is marked dirty. Otherwise
/// nothing changes.
pub fn follow_path(map: &mut GameMap, pos: &mut Position, vs: &mut Viewshed, path: &Vec<usize>)
    requires
        old(map).well_formed(),
        old(map).in_bounds(old(pos).x as int, old(pos).y as int),
        path@.len() > 1 ==> path@[1] < old(map).tiles@.len(),
    ensures
        final(map).well_formed(),
        final(map).tiles == old(map).tiles,
        final(map).revealed_tiles == old(map).revealed_tiles,
        final(map).visible_tiles == old(map).visible_tiles,
        final(map).tile_content == old(map).tile_content,
        final(map).width == old(map).width,
        final(map).height == old(map).height,
        final(map).depth == old(map).depth,
        final(map).bloodstains == old(map).bloodstains,
        final(vs).visible_tiles == old(vs).visible_tiles,
        final(vs).range == old(vs).range,
        path@.len() <= 1 ==> *final(map) == *old(map) && *final(pos) == *old(pos) && *final(vs)
            == *old(vs),
        path@.len() > 1 ==> {
            &&& final(pos).x == path@[1] as int % old(map).width as int
            &&& final(pos).y == path@[1] as int / old(map).width as int
            &&& final(vs).dirty
            &&& final(map).blocked@ == old(map).blocked@.update(
                old(map).idx(old(pos).x as int, old(pos).y as int),
                false,
            ).update(path@[1] as int, true)
        },
{
    if path.len() > 1 {
        let mut idx = map.xy_idx(pos.x, pos.y);
        map.blocked.set(idx, false);
        let step = path[1];
        proof {
            lemma_idx_split(map.width as int, map.height as int, step as int);
        }
        let w = map.width as usize;
        pos.x = (step % w) as i32;
        pos.y = (step / w) as i32;
        idx = map.xy_idx(pos.x, pos.y);
        map.blocked.set(idx, true);
        vs.dirty = true;
    }
}

} // verus!
