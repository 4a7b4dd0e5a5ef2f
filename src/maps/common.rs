use vstd::prelude::*;
use crate::map::{GameMap, TileType};
use crate::rect::Rect;

verus! {

/// A map in the middle of generation: the standard size, with only walls
/// and floor so far.
pub open spec fn carving(map: GameMap) -> bool {
    &&& map.well_formed()
    &&& map.width == 80
    &&& map.height == 43
    &&& forall|i: int|
        0 <= i < map.tiles@.len() ==> (#[trigger] map.tiles@[i] == TileType::Wall
            || map.tiles@[i] == TileType::Floor)
}

/// Whether (x, y) lies in the floor area that a room carves.
pub open spec fn in_room(r: Rect, x: int, y: int) -> bool {
    r.x1 < x <= r.x2 && r.y1 < y <= r.y2
}

/// A room whose carved area lies inside the map, off its outer ring, and
/// whose center is part of the carved area.
pub open spec fn room_fits(r: Rect, w: int, h: int) -> bool {
    &&& 0 <= r.x1
    &&& r.x1 + 2 <= r.x2 <= w - 2
    &&& 0 <= r.y1
    &&& r.y1 + 2 <= r.y2 <= h - 2
}

/// The center of a fitting room lies in its carved area.
pub proof fn lemma_center_in_room(r: Rect, w: int, h: int)
    requires
        room_fits(r, w, h),
    ensures
        in_room(r, r.spec_center().0, r.spec_center().1),
{
}

/// Only the carving of floor changes the map: walls may become floor, floor stays.
pub open spec fn only_carved(before: GameMap, after: GameMap) -> bool {
    &&& after.width == before.width
    &&& after.height == before.height
    &&& after.depth == before.depth
    &&& after.tiles@.len() == before.tiles@.len()
    &&& forall|i: int|
        0 <= i < after.tiles@.len() ==> (#[trigger] after.tiles@[i] == before.tiles@[i]
            || after.tiles@[i] == TileType::Floor)
}

/// Sets tile (x, y) to floor if it lies on the map.
fn carve(map: &mut GameMap, x: i32, y: i32)
    requires
        carving(*old(map)),
    ensures
        carving(*final(map)),
        only_carved(*old(map), *final(map)),
        old(map).in_bounds(x as int, y as int) ==> final(map).tile_at(x as int, y as int)
            == TileType::Floor,
        forall|i: int|
            0 <= i < final(map).tiles@.len() && i != old(map).idx(x as int, y as int)
                ==> final(map).tiles@[i] == old(map).tiles@[i],
{
    if x >= 0 && x < map.width && y >= 0 && y < map.height {
        let idx = map.xy_idx(x, y);
        map.tiles.set(idx, TileType::Floor);
    }
}

/// Carves the floor area of a room: every tile with x1 < x <= x2 and
/// y1 < y <= y2.
pub fn apply_room_to_map(map: &mut GameMap, room: &Rect)
    requires
        carving(*old(map)),
        room_fits(*room, 80, 43),
    ensures
        carving(*final(map)),
        only_carved(*old(map), *final(map)),
        forall|x: int, y: int|
            in_room(*room, x, y) ==> #[trigger] final(map).tile_at(x, y) == TileType::Floor,
{
    let mut y: i32 = room.y1 + 1;
    while y <= room.y2
        invariant
            carving(*map),
            only_carved(*old(map), *map),
            room_fits(*room, 80, 43),
            room.y1 + 1 <= y <= room.y2 + 1,
            forall|xx: int, yy: int|
                in_room(*room, xx, yy) && yy < y ==> #[trigger] map.tile_at(xx, yy)
                    == TileType::Floor,
        decreases room.y2 + 1 - y,
    {
        let mut x: i32 = room.x1 + 1;
        while x <= room.x2
            invariant
                carving(*map),
                only_carved(*old(map), *map),
                room_fits(*room, 80, 43),
                room.y1 + 1 <= y <= room.y2,
                room.x1 + 1 <= x <= room.x2 + 1,
                forall|xx: int, yy: int|
                    in_room(*room, xx, yy) && (yy < y || (yy == y && xx < x))
                        ==> #[trigger] map.tile_at(xx, yy) == TileType::Floor,
            decreases room.x2 + 1 - x,
        {
            let ghost before = *map;
            carve(map, x, y);
            assert forall|xx: int, yy: int|
                in_room(*room, xx, yy) && (yy < y || (yy == y && xx < x + 1))
                    implies #[trigger] map.tile_at(xx, yy) == TileType::Floor by {
                if !(xx == x && yy == y) {
                    crate::map::lemma_idx_in_grid(80, 43, xx, yy);
                    crate::map::lemma_idx_in_grid(80, 43, x as int, y as int);
                    lemma_idx_injective(80, xx, yy, x as int, y as int);
                    assert(before.tile_at(xx, yy) == TileType::Floor);
                }
            }
            x = x + 1;
        }
        y = y + 1;
    }
}

/// Distinct on-grid coordinates have distinct indices.
pub proof fn lemma_idx_injective(w: int, x1: int, y1: int, x2: int, y2: int)
    requires
        0 <= x1 < w,
        0 <= x2 < w,
        0 <= y1,
        0 <= y2,
    ensures
        crate::map::spec_idx(w, x1, y1) == crate::map::spec_idx(w, x2, y2) ==> x1 == x2 && y1
            == y2,
{
    if crate::map::spec_idx(w, x1, y1) == crate::map::spec_idx(w, x2, y2) {
        assert(y1 == y2) by (nonlinear_arith)
            requires
                0 <= x1 < w,
                0 <= x2 < w,
                y1 * w + x1 == y2 * w + x2,
        ;
    }
}

/// Carves row `y` from column `x1` to column `x2`, both included, as far as it lies on the map.
pub fn apply_horizontal_tunnel(map: &mut GameMap, x1: i32, x2: i32, y: i32)
    requires
        carving(*old(map)),
    ensures
        carving(*final(map)),
        only_carved(*old(map), *final(map)),
        forall|x: int|
            (if x1 <= x2 { x1 <= x <= x2 } else { x2 <= x <= x1 }) && old(map).in_bounds(x, y as int)
                ==> #[trigger] final(map).tile_at(x, y as int) == TileType::Floor,
{
    let lo = if x1 <= x2 { x1 } else { x2 };
    let hi = if x1 <= x2 { x2 } else { x1 };
    let mut x: i64 = lo as i64;
    while x <= hi as i64
        invariant
            carving(*map),
            only_carved(*old(map), *map),
            lo <= x,
            x <= hi + 1,
            hi == (if x1 <= x2 { x2 } else { x1 }),
            lo == (if x1 <= x2 { x1 } else { x2 }),
            forall|xx: int|
                lo <= xx < x && old(map).in_bounds(xx, y as int) ==> #[trigger] map.tile_at(xx, y as int)
                    == TileType::Floor,
        decreases hi + 1 - x,
    {
        let ghost before = *map;
        carve(map, x as i32, y);
        assert forall|xx: int|
            lo <= xx < x + 1 && old(map).in_bounds(xx, y as int) implies #[trigger] map.tile_at(
            xx,
            y as int,
        ) == TileType::Floor by {
            if xx != x {
                crate::map::lemma_idx_in_grid(80, 43, xx, y as int);
                if old(map).in_bounds(x as int, y as int) {
                    lemma_idx_injective(80, xx, y as int, x as int, y as int);
                }
                assert(before.tile_at(xx, y as int) == TileType::Floor);
            }
        }
        x = x + 1;
    }
}

/// Carves column `x` from row `y1` to row `y2`, both included, as far as it lies on the map.
pub fn apply_vertical_tunnel(map: &mut GameMap, y1: i32, y2: i32, x: i32)
    requires
        carving(*old(map)),
    ensures
        carving(*final(map)),
        only_carved(*old(map), *final(map)),
        forall|y: int|
            (if y1 <= y2 { y1 <= y <= y2 } else { y2 <= y <= y1 }) && old(map).in_bounds(x as int, y)
                ==> #[trigger] final(map).tile_at(x as int, y) == TileType::Floor,
{
    let lo = if y1 <= y2 { y1 } else { y2 };
    let hi = if y1 <= y2 { y2 } else { y1 };
    let mut y: i64 = lo as i64;
    while y <= hi as i64
        invariant
            carving(*map),
            only_carved(*old(map), *map),
            lo <= y,
            y <= hi + 1,
            hi == (if y1 <= y2 { y2 } else { y1 }),
            lo == (if y1 <= y2 { y1 } else { y2 }),
            forall|yy: int|
                lo <= yy < y && old(map).in_bounds(x as int, yy) ==> #[trigger] map.tile_at(x as int, yy)
                    == TileType::Floor,
        decreases hi + 1 - y,
    {
        let ghost before = *map;
        carve(map, x, y as i32);
        assert forall|yy: int|
            lo <= yy < y + 1 && old(map).in_bounds(x as int, yy) implies #[trigger] map.tile_at(
            x as int,
            yy,
        ) == TileType::Floor by {
            if yy != y {
                crate::map::lemma_idx_in_grid(80, 43, x as int, yy);
                if old(map).in_bounds(x as int, y as int) {
                    lemma_idx_injective(80, x as int, yy, x as int, y as int);
                }
                assert(before.tile_at(x as int, yy) == TileType::Floor);
            }
        }
        y = y + 1;
    }
}

} // verus!
