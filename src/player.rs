use vstd::prelude::*;
use crate::components::{CombatStats, Entity, Position, Viewshed};
use crate::map::{GameMap, TileType};

verus! {

/// The result of a movement command.
#[derive(PartialEq, Eq, Structural, Copy, Clone, Debug)]
pub enum MoveOutcome {
    /// A fighter stands on the destination: strike it.
    Attack { target: Entity },
    /// The destination is free: step onto it.
    MoveTo { pos: Position },
    /// The destination is blocked: nothing happens.
    Blocked,
}

/// `v` held within `lo..=hi`.
pub open spec fn clamp(v: int, lo: int, hi: int) -> int {
    if v < lo {
        lo
    } else if v > hi {
        hi
    } else {
        v
    }
}

/// The destination of a move, held on the map.
pub open spec fn destination(map: GameMap, pos: Position, dx: i32, dy: i32) -> Position {
    Position {
        x: clamp(pos.x + dx, 0, map.width - 1) as i32,
        y: clamp(pos.y + dy, 0, map.height - 1) as i32,
    }
}

/// The first entity of `s` that is among `fighters`, if any.
pub open spec fn first_fighter(s: Seq<Entity>, fighters: Seq<Entity>) -> Option<Entity>
    decreases s.len(),
{
    if s.len() == 0 {
        None
    } else if fighters.contains(s[0]) {
        Some(s[0])
    } else {
        first_fighter(s.drop_first(), fighters)
    }
}

/// The first entity of `s[from..]` that is among `fighters`.
proof fn lemma_first_fighter_skip(s: Seq<Entity>, fighters: Seq<Entity>, from: int)
    requires
        0 <= from < s.len(),
        !fighters.contains(s[from]),
    ensures
        first_fighter(s.subrange(from, s.len() as int), fighters) == first_fighter(
            s.subrange(from + 1, s.len() as int),
            fighters,
        ),
{
    assert(s.subrange(from, s.len() as int).drop_first() =~= s.subrange(from + 1, s.len() as int));
}

/// Whether `fighters` holds `e`.
fn is_fighter(fighters: &Vec<Entity>, e: Entity) -> (r: bool)
    ensures
        r == fighters@.contains(e),
{
    let mut k: usize = 0;
    while k < fighters.len()
        invariant
            k <= fighters@.len(),
            forall|j: int| 0 <= j < k ==> fighters@[j] != e,
        decreases fighters@.len() - k,
    {
        if fighters[k] == e {
            return true;
        }
        k = k + 1;
    }
    false
}

/// Decides a player's move by (dx, dy), the destination held on the map:
/// strike the first fighter (an entity with combat stats) standing there;
/// else step there unless it is blocked.
pub fn try_move_player(map: &GameMap, pos: Position, dx: i32, dy: i32, fighters: &Vec<Entity>) -> (r:
    MoveOutcome)
    requires
        map.well_formed(),
    ensures
        ({
            let d = destination(*map, pos, dx, dy);
            let i = map.idx(d.x as int, d.y as int);
            match first_fighter(map.tile_content@[i]@, fighters@) {
                Some(t) => r == MoveOutcome::Attack { target: t },
                None => if map.blocked@[i] {
                    r == MoveOutcome::Blocked
                } else {
                    r == MoveOutcome::MoveTo { pos: d }
                },
            }
        }),
{
    let tx: i64 = pos.x as i64 + dx as i64;
    let ty: i64 = pos.y as i64 + dy as i64;
    let x: i32 = if tx < 0 {
        0
    } else if tx > (map.width - 1) as i64 {
        map.width - 1
    } else {
        tx as i32
    };
    let y: i32 = if ty < 0 {
        0
    } else if ty > (map.height - 1) as i64 {
        map.height - 1
    } else {
        ty as i32
    };
    let dest = Position { x, y };
    assert(dest == destination(*map, pos, dx, dy));
    let idx = map.xy_idx(x, y);
    let content = &map.tile_content[idx];
    let ghost s = content@;
    let mut k: usize = 0;
    assert(s.subrange(0, s.len() as int) =~= s);
    while k < content.len()
        invariant
            k <= s.len(),
            s == content@,
            s == map.tile_content@[idx as int]@,
            dest == destination(*map, pos, dx, dy),
            idx as int == map.idx(dest.x as int, dest.y as int),
            first_fighter(s.subrange(k as int, s.len() as int), fighters@) == first_fighter(s, fighters@),
        decreases s.len() - k,
    {
        let e = content[k];
        if is_fighter(fighters, e) {
            assert(s.subrange(k as int, s.len() as int)[0] == e);
            assert(first_fighter(s.subrange(k as int, s.len() as int), fighters@) == Some(e));
            return MoveOutcome::Attack { target: e };
        }
        proof {
            lemma_first_fighter_skip(s, fighters@, k as int);
        }
        k = k + 1;
    }
    assert(s.subrange(k as int, s.len() as int) =~= Seq::<Entity>::empty());
    if map.blocked[idx] {
        MoveOutcome::Blocked
    } else {
        MoveOutcome::MoveTo { pos: dest }
    }
}

/// Whether the player may descend: it stands on the down staircase.
pub fn try_next_level(map: &GameMap, pos: Position) -> (r: bool)
    requires
        map.well_formed(),
        map.in_bounds(pos.x as int, pos.y as int),
    ensures
        r == (map.tile_at(pos.x as int, pos.y as int) == TileType::DownStairs),
{
    let idx = map.xy_idx(pos.x, pos.y);
    map.tiles[idx] == TileType::DownStairs
}

/// The item to pick up at `pos`: the last item listed there, if any.
pub fn get_item(items: &Vec<(Entity, Position)>, pos: Position) -> (r: Option<Entity>)
    ensures
        r is None <==> forall|k: int| 0 <= k < items@.len() ==> (#[trigger] items@[k]).1 != pos,
        r is Some ==> exists|k: int|
            0 <= k < items@.len() && (#[trigger] items@[k]).1 == pos && items@[k].0 == r->0
                && forall|j: int| k < j < items@.len() ==> items@[j].1 != pos,
{
    let mut target: Option<Entity> = None;
    let ghost mut at: int = -1;
    let mut k: usize = 0;
    while k < items.len()
        invariant
            k <= items@.len(),
            -1 <= at < k,
            target is None <==> at == -1,
            at == -1 ==> forall|j: int| 0 <= j < k ==> (#[trigger] items@[j]).1 != pos,
            at >= 0 ==> items@[at].1 == pos && items@[at].0 == target->0 && forall|j: int|
                at < j < k ==> items@[j].1 != pos,
        decreases items@.len() - k,
    {
        if items[k].1 == pos {
            target = Some(items[k].0);
            proof {
                at = k as int;
            }
        }
        k = k + 1;
    }
    target
}

/// Whether no monster stands on any tile the player sees: the condition for
/// healing while waiting.
pub open spec fn spec_can_heal(map: GameMap, vs: Seq<Position>, monsters: Seq<Entity>) -> bool {
    forall|k: int, j: int|
        0 <= k < vs.len() && 0 <= j < map.tile_content@[map.idx(
            vs[k].x as int,
            vs[k].y as int,
        )]@.len() ==> !monsters.contains(
            #[trigger] map.tile_content@[map.idx(vs[k].x as int, vs[k].y as int)]@[j],
        )
}

/// Whether the player may heal while waiting: no monster is in view.
pub fn can_heal(map: &GameMap, vs: &Viewshed, monsters: &Vec<Entity>) -> (r: bool)
    requires
        map.well_formed(),
        forall|k: int|
            0 <= k < vs.visible_tiles@.len() ==> map.in_bounds(
                #[trigger] vs.visible_tiles@[k].x as int,
                vs.visible_tiles@[k].y as int,
            ),
    ensures
        r == spec_can_heal(*map, vs.visible_tiles@, monsters@),
{
    let mut k: usize = 0;
    while k < vs.visible_tiles.len()
        invariant
            map.well_formed(),
            k <= vs.visible_tiles@.len(),
            forall|kk: int|
                0 <= kk < vs.visible_tiles@.len() ==> map.in_bounds(
                    #[trigger] vs.visible_tiles@[kk].x as int,
                    vs.visible_tiles@[kk].y as int,
                ),
            forall|kk: int, j: int|
                0 <= kk < k && 0 <= j < map.tile_content@[map.idx(
                    vs.visible_tiles@[kk].x as int,
                    vs.visible_tiles@[kk].y as int,
                )]@.len() ==> !monsters@.contains(
                    #[trigger] map.tile_content@[map.idx(
                        vs.visible_tiles@[kk].x as int,
                        vs.visible_tiles@[kk].y as int,
                    )]@[j],
                ),
        decreases vs.visible_tiles@.len() - k,
    {
        let p = vs.visible_tiles[k];
        let idx = map.xy_idx(p.x, p.y);
        let content = &map.tile_content[idx];
        let mut j: usize = 0;
        while j < content.len()
            invariant
                j <= content@.len(),
                content@ == map.tile_content@[idx as int]@,
                k < vs.visible_tiles@.len(),
                p == vs.visible_tiles@[k as int],
                idx as int == map.idx(p.x as int, p.y as int),
                forall|jj: int| 0 <= jj < j ==> !monsters@.contains(#[trigger] content@[jj]),
            decreases content@.len() - j,
        {
            if is_fighter(monsters, content[j]) {
                proof {
                    let kk = k as int;
                    let jj = j as int;
                    assert(vs.visible_tiles@[kk] == p);
                    assert(monsters@.contains(
                        map.tile_content@[map.idx(
                            vs.visible_tiles@[kk].x as int,
                            vs.visible_tiles@[kk].y as int,
                        )]@[jj],
                    ));
                }
                return false;
            }
            j = j + 1;
        }
        k = k + 1;
    }
    true
}

/// Waiting heals one point, up to the maximum, when healing is allowed.
pub fn skip_turn(stats: &mut CombatStats, may_heal: bool)
    ensures
        final(stats).hp == if may_heal && old(stats).hp < old(stats).max_hp {
            old(stats).hp + 1
        } else if may_heal {
            old(stats).max_hp as int
        } else {
            old(stats).hp as int
        },
        final(stats).max_hp == old(stats).max_hp,
        final(stats).defense == old(stats).defense,
        final(stats).power == old(stats).power,
{
    if may_heal {
        stats.hp = if stats.hp < stats.max_hp {
            stats.hp + 1
        } else {
            stats.max_hp
        };
    }
}

} // verus!
