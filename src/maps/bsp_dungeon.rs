use vstd::prelude::*;
use rltk::RandomNumberGenerator;
use crate::components::Position;
use crate::map::{GameMap, TileType};
use crate::rect::Rect;
use crate::rng::roll_die;
use super::common::{apply_room_to_map, carving, in_room, lemma_center_in_room, only_carved, room_fits};
use super::connectivity::{
    adjacent, lemma_carving_adds_no_walls, lemma_reach_kept, lemma_reach_refl, lemma_reach_step,
    lemma_reach_trans, lemma_within_room, passable, reachable,
};
use super::{
    generated, lemma_all_carved_kept, place_stairs_and_start, room_carved, MapBuilder,
    SHOW_MAPGEN_VISUALIZER, copy_history, revealed_copy, revealed_snapshot,
};

verus! {

const PLACEMENT_ATTEMPTS: i32 = 240;

/// A candidate area of the partition pool, with corners bounded by `lim`.
pub open spec fn rect_ok(r: Rect, lim: int) -> bool {
    &&& 0 <= r.x1
    &&& r.x1 + 1 <= r.x2 <= lim
    &&& 0 <= r.y1
    &&& r.y1 + 1 <= r.y2 <= lim
}

/// Every area of the pool is sound and bounded by `lim`.
pub open spec fn pool_ok(rects: Seq<Rect>, lim: int) -> bool {
    forall|k: int| 0 <= k < rects.len() ==> rect_ok(#[trigger] rects[k], lim)
}

/// Whether tile (x, y) may lie in the padded area of a new room: off the
/// outer ring and still a wall.
pub open spec fn free_tile(map: GameMap, x: int, y: int) -> bool {
    1 <= x <= map.width - 2 && 1 <= y <= map.height - 2 && map.tile_at(x, y) == TileType::Wall
}

/// Whether the floor area of room `r` (x1 < x <= x2, y1 < y <= y2),
/// padded by one tile on each side, lies on untouched wall inside the map.
pub open spec fn spec_possible(map: GameMap, r: Rect) -> bool {
    forall|x: int, y: int|
        r.x1 <= x <= r.x2 + 1 && r.y1 <= y <= r.y2 + 1 ==> #[trigger] free_tile(map, x, y)
}

/// Whether the floor areas of two rooms share no tile.
pub open spec fn floors_apart(a: Rect, b: Rect) -> bool {
    !(a.x1 < b.x2 && b.x1 < a.x2 && a.y1 < b.y2 && b.y1 < a.y2)
}

/// No two rooms of the list share a floor tile.
pub open spec fn all_apart(rooms: Seq<Rect>) -> bool {
    forall|i: int, j: int|
        0 <= i < rooms.len() && 0 <= j < rooms.len() && i != j ==> floors_apart(
            #[trigger] rooms[i],
            #[trigger] rooms[j],
        )
}

/// Whether a sequence of rooms is ordered by left edge.
pub open spec fn sorted_by_x1(rooms: Seq<Rect>) -> bool {
    forall|a: int, b: int| 0 <= a < b < rooms.len() ==> rooms[a].x1 <= rooms[b].x1
}

/// The binary-space-partition strategy: rooms placed in sub-areas of a
/// recursively quartered pool, joined left to right by corridors.
pub struct BspDungeonBuilder {
    pub map: GameMap,
    pub starting_position: Position,
    pub depth: i32,
    pub rooms: Vec<Rect>,
    pub history: Vec<GameMap>,
    pub rects: Vec<Rect>,
}

/// Sorts rooms by left edge, keeping the order of rooms with equal left
/// edges. The ghost index tells, for each place of the result, the place of
/// the input it came from: each input place is used exactly once.
fn sort_rooms_by_x1(rooms: &Vec<Rect>) -> (r: (Vec<Rect>, Ghost<Seq<int>>))
    ensures
        r.0@.len() == rooms@.len(),
        r.1@.len() == rooms@.len(),
        sorted_by_x1(r.0@),
        forall|k: int| 0 <= k < r.0@.len() ==> 0 <= #[trigger] r.1@[k] < rooms@.len() && r.0@[k] == rooms@[r.1@[k]],
        forall|a: int, b: int| 0 <= a < b < r.0@.len() ==> r.1@[a] != r.1@[b],
        forall|a: int, b: int|
            0 <= a < b < r.0@.len() && r.0@[a].x1 == r.0@[b].x1 ==> r.1@[a] < r.1@[b],
{
    let mut out: Vec<Rect> = Vec::new();
    let ghost mut idx: Seq<int> = Seq::empty();
    let mut i: usize = 0;
    while i < rooms.len()
        invariant
            i <= rooms@.len(),
            out@.len() == i,
            idx.len() == i,
            sorted_by_x1(out@),
            forall|k: int| 0 <= k < i ==> 0 <= #[trigger] idx[k] < i && out@[k] == rooms@[idx[k]],
            forall|a: int, b: int| 0 <= a < b < i ==> idx[a] != idx[b],
            forall|a: int, b: int| 0 <= a < b < i && out@[a].x1 == out@[b].x1 ==> idx[a] < idx[b],
        decreases rooms@.len() - i,
    {
        let room = rooms[i];
        let mut pos: usize = 0;
        while pos < out.len() && out[pos].x1 <= room.x1
            invariant
                pos <= out@.len(),
                forall|k: int| 0 <= k < pos ==> out@[k].x1 <= room.x1,
            decreases out@.len() - pos,
        {
            pos = pos + 1;
        }
        let ghost prev = out@;
        let ghost pidx = idx;
        out.insert(pos, room);
        proof {
            idx = pidx.insert(pos as int, i as int);
            if pos < prev.len() {
                assert(prev[pos as int].x1 > room.x1);
            }
            assert forall|k: int| 0 <= k < i + 1 implies 0 <= #[trigger] idx[k] < i + 1 && out@[k] == rooms@[idx[k]] by {
                if k < pos {
                    assert(out@[k] == prev[k] && idx[k] == pidx[k]);
                } else if k == pos {
                    assert(out@[k] == room && idx[k] == i);
                } else {
                    assert(out@[k] == prev[k - 1] && idx[k] == pidx[k - 1]);
                }
            }
            assert forall|a: int, b: int| 0 <= a < b < out@.len() implies out@[a].x1 <= out@[b].x1 && idx[a] != idx[b]
                && (out@[a].x1 == out@[b].x1 ==> idx[a] < idx[b]) by {
                if b < pos {
                    assert(out@[a] == prev[a] && out@[b] == prev[b]);
                    assert(idx[a] == pidx[a] && idx[b] == pidx[b]);
                } else if b == pos {
                    assert(out@[a] == prev[a] && idx[a] == pidx[a] && idx[b] == i);
                } else if a < pos {
                    assert(out@[a] == prev[a] && out@[b] == prev[b - 1]);
                    assert(idx[a] == pidx[a] && idx[b] == pidx[b - 1]);
                    if a < b - 1 {
                        assert(prev[a].x1 <= prev[b - 1].x1);
                    }
                } else if a == pos {
                    assert(out@[b] == prev[b - 1] && idx[a] == i && idx[b] == pidx[b - 1]);
                    assert(prev[pos as int].x1 <= prev[b - 1].x1);
                } else {
                    assert(out@[a] == prev[a - 1] && out@[b] == prev[b - 1]);
                    assert(idx[a] == pidx[a - 1] && idx[b] == pidx[b - 1]);
                }
            }
        }
        i = i + 1;
    }
    (out, Ghost(idx))
}

impl BspDungeonBuilder {
    /// A builder for a level at `depth`, holding an all-wall map.
    pub fn new(depth: i32) -> (r: BspDungeonBuilder)
        ensures
            r.spec_fresh(),
            r.depth == depth,
            r.map.depth == depth,
    {
        BspDungeonBuilder {
            map: GameMap::new(depth),
            starting_position: Position { x: 0, y: 0 },
            depth,
            rooms: Vec::new(),
            history: Vec::new(),
            rects: Vec::new(),
        }
    }

    /// Adds the four quarters of `rect` to the pool (each at least one tile
    /// wide and high).
    fn add_subrects(&mut self, rect: Rect, lim: Ghost<int>)
        requires
            rect_ok(rect, lim@),
            pool_ok(old(self).rects@, lim@),
            lim@ < 10000,
        ensures
            final(self).rects@.len() == old(self).rects@.len() + 4,
            pool_ok(final(self).rects@, lim@ + 1),
            final(self).map == old(self).map,
            final(self).rooms == old(self).rooms,
            final(self).starting_position == old(self).starting_position,
    {
        let width = rect.x2 - rect.x1;
        let height = rect.y2 - rect.y1;
        let half_width = if width / 2 > 1 { width / 2 } else { 1 };
        let half_height = if height / 2 > 1 { height / 2 } else { 1 };
        self.rects.push(Rect::new(rect.x1, rect.y1, half_width, half_height));
        self.rects.push(Rect::new(rect.x1, rect.y1 + half_height, half_width, half_height));
        self.rects.push(Rect::new(rect.x1 + half_width, rect.y1, half_width, half_height));
        self.rects.push(
            Rect::new(rect.x1 + half_width, rect.y1 + half_height, half_width, half_height),
        );
        assert forall|k: int| 0 <= k < self.rects@.len() implies rect_ok(#[trigger] self.rects@[k], lim@ + 1) by {
            if k < old(self).rects@.len() {
                assert(rect_ok(old(self).rects@[k], lim@));
            }
        }
    }

    /// An area drawn uniformly from the pool.
    fn get_random_rect(&self, rng: &mut RandomNumberGenerator) -> (r: Rect)
        requires
            0 < self.rects@.len() < i32::MAX,
        ensures
            exists|k: int| 0 <= k < self.rects@.len() && r == self.rects@[k],
    {
        if self.rects.len() == 1 {
            return self.rects[0];
        }
        let idx = (roll_die(rng, self.rects.len() as i32) - 1) as usize;
        self.rects[idx]
    }

    /// A room of 4 to 10 tiles each way, its corner moved 0 to 5 tiles into `rect`.
    fn get_random_sub_rect(&self, rect: Rect, rng: &mut RandomNumberGenerator) -> (r: Rect)
        requires
            rect_ok(rect, 10000),
        ensures
            rect.x1 <= r.x1 <= rect.x1 + 5,
            rect.y1 <= r.y1 <= rect.y1 + 5,
            r.x1 + 4 <= r.x2 <= r.x1 + 10,
            r.y1 + 4 <= r.y2 <= r.y1 + 10,
    {
        let mut result = rect;
        let rect_width = rect.x2 - rect.x1;
        let rect_height = rect.y2 - rect.y1;
        let rw = roll_die(rng, if rect_width < 10 { rect_width } else { 10 }) - 1;
        let w = (if rw > 3 { rw } else { 3 }) + 1;
        let rh = roll_die(rng, if rect_height < 10 { rect_height } else { 10 }) - 1;
        let h = (if rh > 3 { rh } else { 3 }) + 1;
        result.x1 = result.x1 + roll_die(rng, 6) - 1;
        result.y1 = result.y1 + roll_die(rng, 6) - 1;
        result.x2 = result.x1 + w;
        result.y2 = result.y1 + h;
        result
    }

    /// Whether the floor area of `rect`, padded by one tile, lies on
    /// untouched wall off the map's outer ring.
    fn is_possible(&self, rect: Rect) -> (r: bool)
        requires
            self.map.well_formed(),
            rect_ok(rect, 10100),
        ensures
            r == spec_possible(self.map, rect),
    {
        let map = &self.map;
        let mut can_build = true;
        let mut y: i32 = rect.y1;
        while y <= rect.y2 + 1
            invariant
                map.well_formed(),
                rect_ok(rect, 10100),
                rect.y1 <= y <= rect.y2 + 2,
                can_build == forall|xx: int, yy: int|
                    rect.x1 <= xx <= rect.x2 + 1 && rect.y1 <= yy < y ==> #[trigger] free_tile(*map, xx, yy),
            decreases rect.y2 + 2 - y,
        {
            let mut x: i32 = rect.x1;
            while x <= rect.x2 + 1
                invariant
                    map.well_formed(),
                    rect_ok(rect, 10100),
                    rect.y1 <= y <= rect.y2 + 1,
                    rect.x1 <= x <= rect.x2 + 2,
                    can_build == forall|xx: int, yy: int|
                        rect.x1 <= xx <= rect.x2 + 1 && rect.y1 <= yy <= y && (yy < y
                            || xx < x) ==> #[trigger] free_tile(*map, xx, yy),
                decreases rect.x2 + 2 - x,
            {
                let ok = x >= 1 && x <= map.width - 2 && y >= 1 && y <= map.height - 2
                    && map.tiles[map.xy_idx(x, y)] == TileType::Wall;
                assert(ok == free_tile(*map, x as int, y as int));
                can_build = can_build && ok;
                x = x + 1;
            }
            y = y + 1;
        }
        can_build
    }

    /// Carves a corridor from (x1, y1) to (x2, y2): first along the row,
    /// then along the column, every tile after the first becoming floor.
    /// From a passable start the two ends are then joined.
    fn draw_corridor(&mut self, x1: i32, y1: i32, x2: i32, y2: i32)
        requires
            carving(old(self).map),
            0 <= x1 < 80,
            0 <= x2 < 80,
            0 <= y1 < 43,
            0 <= y2 < 43,
            passable(old(self).map, (x1 as int, y1 as int)),
        ensures
            carving(final(self).map),
            only_carved(old(self).map, final(self).map),
            final(self).rooms == old(self).rooms,
            final(self).rects == old(self).rects,
            reachable(final(self).map, (x1 as int, y1 as int), (x2 as int, y2 as int)),
    {
        let mut x = x1;
        let mut y = y1;
        proof {
            lemma_reach_refl(self.map, (x1 as int, y1 as int));
        }
        while x != x2 || y != y2
            invariant
                carving(self.map),
                only_carved(old(self).map, self.map),
                self.rooms == old(self).rooms,
                self.rects == old(self).rects,
                0 <= x < 80,
                0 <= y < 43,
                0 <= x2 < 80,
                0 <= y2 < 43,
                reachable(self.map, (x1 as int, y1 as int), (x as int, y as int)),
            decreases (if x < x2 { x2 - x } else { x - x2 }) + (if y < y2 { y2 - y } else { y - y2 }),
        {
            let ghost px = x as int;
            let ghost py = y as int;
            if x < x2 {
                x = x + 1;
            } else if x > x2 {
                x = x - 1;
            } else if y < y2 {
                y = y + 1;
            } else {
                y = y - 1;
            }
            let ghost before = self.map;
            let idx = self.map.xy_idx(x, y);
            self.map.tiles.set(idx, TileType::Floor);
            proof {
                assert(only_carved(before, self.map));
                lemma_carving_adds_no_walls(before, self.map);
                lemma_reach_kept(before, self.map, (x1 as int, y1 as int), (px, py));
                assert(self.map.tile_at(x as int, y as int) == TileType::Floor);
                assert(adjacent((px, py), (x as int, y as int)));
                lemma_reach_step(self.map, (x1 as int, y1 as int), (px, py), (x as int, y as int));
                assert forall|i: int| 0 <= i < self.map.tiles@.len() implies (#[trigger] self.map.tiles@[i] == old(self).map.tiles@[i]
                    || self.map.tiles@[i] == TileType::Floor) by {
                    assert(before.tiles@[i] == old(self).map.tiles@[i] || before.tiles@[i] == TileType::Floor);
                }
            }
        }
    }

    /// Appends a copy of the map, fully revealed, to the history; nothing
    /// else changes.
    fn record_snapshot(&mut self)
        requires
            old(self).map.well_formed(),
        ensures
            final(self).map == old(self).map,
            final(self).rooms == old(self).rooms,
            final(self).rects == old(self).rects,
            final(self).starting_position == old(self).starting_position,
            SHOW_MAPGEN_VISUALIZER ==> {
                &&& final(self).history@.len() == old(self).history@.len() + 1
                &&& final(self).history@.drop_last() == old(self).history@
                &&& revealed_snapshot(final(self).history@.last(), old(self).map)
            },
            !SHOW_MAPGEN_VISUALIZER ==> final(self).history == old(self).history,
    {
        if SHOW_MAPGEN_VISUALIZER {
            let snapshot = revealed_copy(&self.map);
            self.history.push(snapshot);
        }
    }

    /// A point drawn uniformly from a room's floor, where a corridor ends.
    fn corridor_point(room: Rect, rng: &mut RandomNumberGenerator) -> (r: (i32, i32))
        requires
            room_fits(room, 80, 43),
        ensures
            in_room(room, r.0 as int, r.1 as int),
    {
        let x = room.x1 + roll_die(rng, room.x2 - room.x1);
        let y = room.y1 + roll_die(rng, room.y2 - room.y1);
        (x, y)
    }
}

impl BspDungeonBuilder {
    /// Places rooms in sub-areas of the partition pool (each room's floor,
    /// padded by one tile, on untouched wall), sorts them by left edge, joins
    /// each to the next by a corridor between points of their floors, then
    /// puts the stairs in the last room and the start in the first.
    pub fn build_dungeon(&mut self, rng: &mut RandomNumberGenerator)
        requires
            old(self).spec_fresh(),
        ensures
            generated(final(self).map, final(self).rooms@, final(self).starting_position),
            final(self).map.depth == old(self).map.depth,
            sorted_by_x1(final(self).rooms@),
            all_apart(final(self).rooms@),
    {
        self.rects.clear();
        self.rects.push(Rect::new(2, 2, self.map.width - 5, self.map.height - 5));
        let first_room = self.rects[0];
        self.add_subrects(first_room, Ghost(100));
        let mut n_rooms: i32 = 0;
        while n_rooms < PLACEMENT_ATTEMPTS
            invariant
                0 <= n_rooms <= PLACEMENT_ATTEMPTS,
                carving(self.map),
                self.map.depth == old(self).map.depth,
                0 < self.rects@.len() <= 5 + 4 * n_rooms,
                pool_ok(self.rects@, 101 + n_rooms),
                forall|k: int| 0 <= k < self.rooms@.len() ==> room_fits(#[trigger] self.rooms@[k], 80, 43),
                forall|k: int| 0 <= k < self.rooms@.len() ==> room_carved(self.map, #[trigger] self.rooms@[k]),
                all_apart(self.rooms@),
            decreases PLACEMENT_ATTEMPTS - n_rooms,
        {
            let rect = self.get_random_rect(rng);
            assert(rect_ok(rect, 101 + n_rooms));
            let candidate = self.get_random_sub_rect(rect, rng);
            if self.is_possible(candidate) {
                assert(free_tile(self.map, candidate.x1 as int, candidate.y1 as int));
                assert(free_tile(self.map, candidate.x2 + 1, candidate.y2 + 1));
                let ghost m0 = self.map;
                let ghost before = self.rooms@;
                assert forall|k: int| 0 <= k < before.len() implies floors_apart(#[trigger] before[k], candidate) by {
                    let a = before[k];
                    if !floors_apart(a, candidate) {
                        let px: int = if a.x1 > candidate.x1 { a.x1 + 1 } else { candidate.x1 + 1 };
                        let py: int = if a.y1 > candidate.y1 { a.y1 + 1 } else { candidate.y1 + 1 };
                        assert(free_tile(m0, px, py));
                        assert(in_room(a, px, py));
                        assert(room_carved(m0, a));
                        assert(m0.tile_at(px, py) != TileType::Wall);
                    }
                }
                apply_room_to_map(&mut self.map, &candidate);
                proof {
                    lemma_all_carved_kept(m0, self.map, self.rooms@);
                }
                self.rooms.push(candidate);
                assert forall|i: int, j: int|
                    0 <= i < self.rooms@.len() && 0 <= j < self.rooms@.len() && i != j implies floors_apart(
                    #[trigger] self.rooms@[i],
                    #[trigger] self.rooms@[j],
                ) by {
                    if i < before.len() && j < before.len() {
                        assert(self.rooms@[i] == before[i] && self.rooms@[j] == before[j]);
                    } else if i < before.len() {
                        assert(self.rooms@[i] == before[i] && self.rooms@[j] == candidate);
                        assert(floors_apart(before[i], candidate));
                    } else {
                        assert(self.rooms@[j] == before[j] && self.rooms@[i] == candidate);
                        assert(floors_apart(before[j], candidate));
                    }
                }
                self.add_subrects(rect, Ghost(101 + n_rooms as int));
                self.record_snapshot();
            } else {
                assert(pool_ok(self.rects@, 101 + n_rooms + 1));
            }
            n_rooms = n_rooms + 1;
        }
        if self.rooms.len() == 0 {
            let fallback = Rect { x1: 3, y1: 3, x2: 9, y2: 9 };
            apply_room_to_map(&mut self.map, &fallback);
            self.rooms.push(fallback);
        }
        let (sorted, Ghost(idx)) = sort_rooms_by_x1(&self.rooms);
        assert forall|k: int| 0 <= k < sorted@.len() implies room_fits(#[trigger] sorted@[k], 80, 43) && room_carved(self.map, sorted@[k]) by {
            let j = idx[k];
            assert(room_fits(self.rooms@[j], 80, 43));
            assert(room_carved(self.map, self.rooms@[j]));
        }
        assert forall|a: int, b: int|
            0 <= a < sorted@.len() && 0 <= b < sorted@.len() && a != b implies floors_apart(
            #[trigger] sorted@[a],
            #[trigger] sorted@[b],
        ) by {
            assert(0 <= idx[a] < self.rooms@.len() && 0 <= idx[b] < self.rooms@.len());
            if a < b {
                assert(idx[a] != idx[b]);
            } else {
                assert(idx[b] != idx[a]);
            }
            assert(floors_apart(self.rooms@[idx[a]], self.rooms@[idx[b]]));
        }
        self.rooms = sorted;
        proof {
            lemma_center_in_room(self.rooms@[0], 80, 43);
            let c = self.rooms@[0].spec_center();
            crate::map::lemma_idx_in_grid(80, 43, c.0, c.1);
            assert(room_carved(self.map, self.rooms@[0]));
            assert(passable(self.map, c));
            lemma_reach_refl(self.map, c);
        }
        let mut i: usize = 0;
        while i < self.rooms.len() - 1
            invariant
                carving(self.map),
                self.map.depth == old(self).map.depth,
                forall|k: int| 0 <= k < self.rooms@.len() ==> room_fits(#[trigger] self.rooms@[k], 80, 43),
                forall|k: int| 0 <= k < self.rooms@.len() ==> room_carved(self.map, #[trigger] self.rooms@[k]),
                self.rooms@.len() > 0,
                i < self.rooms@.len(),
                sorted_by_x1(self.rooms@),
                all_apart(self.rooms@),
                forall|k: int|
                    0 <= k <= i ==> reachable(
                        self.map,
                        self.rooms@[0].spec_center(),
                        (#[trigger] self.rooms@[k]).spec_center(),
                    ),
            decreases self.rooms@.len() - i,
        {
            let room = self.rooms[i];
            let next_room = self.rooms[i + 1];
            let (start_x, start_y) = Self::corridor_point(room, rng);
            let (end_x, end_y) = Self::corridor_point(next_room, rng);
            let ghost m0 = self.map;
            proof {
                crate::map::lemma_idx_in_grid(80, 43, start_x as int, start_y as int);
                assert(self.map.tile_at(start_x as int, start_y as int) != TileType::Wall);
            }
            self.draw_corridor(start_x, start_y, end_x, end_y);
            proof {
                lemma_all_carved_kept(m0, self.map, self.rooms@);
                lemma_carving_adds_no_walls(m0, self.map);
                let c0 = self.rooms@[0].spec_center();
                assert forall|k: int| 0 <= k <= i implies reachable(
                    self.map,
                    c0,
                    (#[trigger] self.rooms@[k]).spec_center(),
                ) by {
                    lemma_reach_kept(m0, self.map, c0, self.rooms@[k].spec_center());
                }
                let ii = i as int;
                lemma_center_in_room(room, 80, 43);
                lemma_center_in_room(next_room, 80, 43);
                assert(room == self.rooms@[ii]);
                assert(next_room == self.rooms@[ii + 1]);
                lemma_within_room(self.map, room, room.spec_center(), (start_x as int, start_y as int));
                lemma_within_room(self.map, next_room, (end_x as int, end_y as int), next_room.spec_center());
                lemma_reach_trans(self.map, c0, room.spec_center(), (start_x as int, start_y as int));
                lemma_reach_trans(self.map, c0, (start_x as int, start_y as int), (end_x as int, end_y as int));
                lemma_reach_trans(self.map, c0, (end_x as int, end_y as int), next_room.spec_center());
            }
            self.record_snapshot();
            i = i + 1;
        }
        self.starting_position = place_stairs_and_start(&mut self.map, &self.rooms);
    }

}

impl MapBuilder for BspDungeonBuilder {
    open spec fn spec_map(&self) -> GameMap {
        self.map
    }

    open spec fn spec_rooms(&self) -> Seq<Rect> {
        self.rooms@
    }

    open spec fn spec_start(&self) -> Position {
        self.starting_position
    }

    open spec fn spec_history(&self) -> Seq<GameMap> {
        self.history@
    }

    open spec fn spec_fresh(&self) -> bool {
        &&& carving(self.map)
        &&& self.rooms@.len() == 0
    }

    fn build_map(&mut self, rng: &mut RandomNumberGenerator) {
        self.build_dungeon(rng);
    }

    fn get_map(&self) -> (r: GameMap) {
        self.map.duplicate()
    }

    fn get_starting_position(&self) -> (r: Position) {
        self.starting_position
    }

    fn get_rooms(&self) -> (r: Vec<Rect>) {
        let r = self.rooms.clone();
        assert(r@ =~= self.rooms@);
        r
    }

    fn get_snapshot_history(&self) -> (r: Vec<GameMap>) {
        copy_history(&self.history)
    }

    fn take_snapshot(&mut self) {
        self.record_snapshot();
    }
}

} // verus!
