use vstd::prelude::*;
use rltk::RandomNumberGenerator;
use crate::components::Position;
use crate::map::{GameMap, TileType};
use crate::rect::Rect;
use crate::rng::{range, roll_die};
use super::common::{
    apply_horizontal_tunnel, apply_room_to_map, apply_vertical_tunnel, carving,
    lemma_center_in_room, only_carved, room_fits,
};
use super::connectivity::{
    lemma_all_reach_kept, lemma_carving_adds_no_walls, lemma_col_reach, lemma_reach_refl,
    lemma_reach_trans, lemma_row_reach, passable, reachable,
};
use super::{
    generated, lemma_all_carved_kept, lemma_carved_kept, place_stairs_and_start, room_carved,
    MapBuilder, SHOW_MAPGEN_VISUALIZER, copy_history, revealed_copy,
};

verus! {

const MAX_ROOMS: i32 = 30;
const MIN_SIZE: i32 = 6;
const MAX_SIZE: i32 = 10;

/// After an L-shaped corridor, the row run at `ry` between `ax` and `bx`
/// and the column run at `cx` between `ay` and `by` are floor, so the two
/// ends are joined.
proof fn lemma_corridor_joins(map: GameMap, ax: int, ay: int, bx: int, by: int, rx: (int, int), ry: int, cx: int)
    requires
        carving(map),
        1 <= ax <= 78,
        1 <= bx <= 78,
        1 <= ay <= 41,
        1 <= by <= 41,
        forall|x: int|
            (if rx.0 <= rx.1 { rx.0 <= x <= rx.1 } else { rx.1 <= x <= rx.0 }) && map.in_bounds(x, ry)
                ==> #[trigger] map.tile_at(x, ry) == TileType::Floor,
        forall|y: int|
            (if ay <= by { ay <= y <= by } else { by <= y <= ay }) && map.in_bounds(cx, y)
                ==> #[trigger] map.tile_at(cx, y) == TileType::Floor,
        (rx == (ax, bx) && ry == ay && cx == bx) || (rx == (ax, bx) && ry == by && cx == ax),
    ensures
        reachable(map, (ax, ay), (bx, by)),
{
    assert forall|x: int|
        (if rx.0 <= rx.1 { rx.0 <= x <= rx.1 } else { rx.1 <= x <= rx.0 }) implies #[trigger] passable(
        map,
        (x, ry),
    ) by {
        assert(map.tile_at(x, ry) == TileType::Floor);
    }
    assert forall|y: int|
        (if ay <= by { ay <= y <= by } else { by <= y <= ay }) implies #[trigger] passable(
        map,
        (cx, y),
    ) by {
        assert(map.tile_at(cx, y) == TileType::Floor);
    }
    lemma_row_reach(map, rx.0, rx.1, ry);
    lemma_col_reach(map, cx, ay, by);
    if ry == ay && cx == bx {
        lemma_reach_trans(map, (ax, ay), (bx, ay), (bx, by));
    } else {
        lemma_reach_trans(map, (ax, ay), (ax, by), (bx, by));
    }
}

/// Floor stays floor while carving.
proof fn lemma_floor_kept_row(before: GameMap, after: GameMap, x1: int, x2: int, y: int)
    requires
        carving(before),
        only_carved(before, after),
        forall|x: int|
            (if x1 <= x2 { x1 <= x <= x2 } else { x2 <= x <= x1 }) && before.in_bounds(x, y)
                ==> #[trigger] before.tile_at(x, y) == TileType::Floor,
    ensures
        forall|x: int|
            (if x1 <= x2 { x1 <= x <= x2 } else { x2 <= x <= x1 }) && after.in_bounds(x, y)
                ==> #[trigger] after.tile_at(x, y) == TileType::Floor,
{
    assert forall|x: int|
        (if x1 <= x2 { x1 <= x <= x2 } else { x2 <= x <= x1 }) && after.in_bounds(x, y)
            implies #[trigger] after.tile_at(x, y) == TileType::Floor by {
        crate::map::lemma_idx_in_grid(80, 43, x, y);
        assert(before.tile_at(x, y) == TileType::Floor);
    }
}

/// Floor stays floor while carving.
proof fn lemma_floor_kept_col(before: GameMap, after: GameMap, x: int, y1: int, y2: int)
    requires
        carving(before),
        only_carved(before, after),
        forall|y: int|
            (if y1 <= y2 { y1 <= y <= y2 } else { y2 <= y <= y1 }) && before.in_bounds(x, y)
                ==> #[trigger] before.tile_at(x, y) == TileType::Floor,
    ensures
        forall|y: int|
            (if y1 <= y2 { y1 <= y <= y2 } else { y2 <= y <= y1 }) && after.in_bounds(x, y)
                ==> #[trigger] after.tile_at(x, y) == TileType::Floor,
{
    assert forall|y: int|
        (if y1 <= y2 { y1 <= y <= y2 } else { y2 <= y <= y1 }) && after.in_bounds(x, y)
            implies #[trigger] after.tile_at(x, y) == TileType::Floor by {
        crate::map::lemma_idx_in_grid(80, 43, x, y);
        assert(before.tile_at(x, y) == TileType::Floor);
    }
}

/// Whether `room` overlaps or touches a room of the list.
pub fn intersects_any(rooms: &Vec<Rect>, room: &Rect) -> (r: bool)
    ensures
        r == exists|k: int| 0 <= k < rooms@.len() && room.spec_intersect(&#[trigger] rooms@[k]),
{
    let mut k: usize = 0;
    while k < rooms.len()
        invariant
            k <= rooms@.len(),
            forall|j: int| 0 <= j < k ==> !room.spec_intersect(&#[trigger] rooms@[j]),
        decreases rooms@.len() - k,
    {
        if room.intersect(&rooms[k]) {
            return true;
        }
        k = k + 1;
    }
    false
}

/// The rooms-and-corridors strategy: non-overlapping rooms, each joined to
/// the previous one by an L-shaped corridor.
pub struct SimpleMapBuilder {
    pub map: GameMap,
    pub starting_position: Position,
    pub depth: i32,
    pub rooms: Vec<Rect>,
    pub history: Vec<GameMap>,
}

impl SimpleMapBuilder {
    /// A builder for a level at `depth`, holding an all-wall map.
    pub fn new(depth: i32) -> (r: SimpleMapBuilder)
        ensures
            r.spec_fresh(),
            r.depth == depth,
            r.map.depth == depth,
    {
        SimpleMapBuilder {
            map: GameMap::new(depth),
            starting_position: Position { x: 0, y: 0 },
            depth,
            rooms: Vec::new(),
            history: Vec::new(),
        }
    }

    /// Places up to 30 non-overlapping rooms, joins each to the previous one
    /// by an L-shaped corridor whose bend is chosen at random, then puts the
    /// stairs in the last room and the start in the first. Every room center
    /// can be reached from the start over passable tiles.
    pub fn rooms_and_corridors(&mut self, rng: &mut RandomNumberGenerator)
        requires
            old(self).spec_fresh(),
        ensures
            generated(final(self).map, final(self).rooms@, final(self).starting_position),
            final(self).map.depth == old(self).map.depth,
            final(self).rooms@.len() <= 30,
            forall|k: int|
                0 <= k < final(self).rooms@.len() ==> 6 <= (#[trigger] final(self).rooms@[k]).x2
                    - final(self).rooms@[k].x1 <= 9 && 6 <= final(self).rooms@[k].y2
                    - final(self).rooms@[k].y1 <= 9,
            forall|i: int, j: int|
                0 <= i < j < final(self).rooms@.len() ==> !final(self).rooms@[i].spec_intersect(
                    &final(self).rooms@[j],
                ),
    {
        let mut attempt: i32 = 0;
        while attempt < MAX_ROOMS
            invariant
                0 <= attempt <= MAX_ROOMS,
                carving(self.map),
                self.map.depth == old(self).map.depth,
                attempt == 0 ==> self.rooms@.len() == 0,
                self.rooms@.len() <= attempt,
                forall|k: int|
                    0 <= k < self.rooms@.len() ==> 6 <= (#[trigger] self.rooms@[k]).x2
                        - self.rooms@[k].x1 <= 9 && 6 <= self.rooms@[k].y2 - self.rooms@[k].y1 <= 9,
                forall|i: int, j: int|
                    0 <= i < j < self.rooms@.len() ==> !self.rooms@[i].spec_intersect(
                        &self.rooms@[j],
                    ),
                attempt > 0 ==> self.rooms@.len() > 0,
                forall|k: int| 0 <= k < self.rooms@.len() ==> room_fits(#[trigger] self.rooms@[k], 80, 43),
                forall|k: int| 0 <= k < self.rooms@.len() ==> room_carved(self.map, #[trigger] self.rooms@[k]),
                self.rooms@.len() > 0 ==> forall|k: int|
                    0 <= k < self.rooms@.len() ==> reachable(
                        self.map,
                        self.rooms@[0].spec_center(),
                        (#[trigger] self.rooms@[k]).spec_center(),
                    ),
            decreases MAX_ROOMS - attempt,
        {
            let w = range(rng, MIN_SIZE, MAX_SIZE);
            let h = range(rng, MIN_SIZE, MAX_SIZE);
            let x = roll_die(rng, self.map.width - w - 1) - 1;
            let y = roll_die(rng, self.map.height - h - 1) - 1;
            let new_room = Rect::new(x, y, w, h);
            if !intersects_any(&self.rooms, &new_room) {
                let ghost m0 = self.map;
                apply_room_to_map(&mut self.map, &new_room);
                proof {
                    lemma_all_carved_kept(m0, self.map, self.rooms@);
                    lemma_center_in_room(new_room, 80, 43);
                    crate::map::lemma_idx_in_grid(80, 43, new_room.spec_center().0, new_room.spec_center().1);
                    if self.rooms@.len() > 0 {
                        lemma_carving_adds_no_walls(m0, self.map);
                        lemma_all_reach_kept(m0, self.map, self.rooms@[0].spec_center(), self.rooms@);
                    }
                }
                if self.rooms.len() > 0 {
                    let (center_x, center_y) = new_room.center();
                    let (prev_x, prev_y) = self.rooms[self.rooms.len() - 1].center();
                    let ghost prev_room = self.rooms@.last();
                    proof {
                        lemma_center_in_room(prev_room, 80, 43);
                    }
                    let ghost m1 = self.map;
                    if range(rng, 0, 2) == 1 {
                        apply_horizontal_tunnel(&mut self.map, prev_x, center_x, prev_y);
                        let ghost m2 = self.map;
                        apply_vertical_tunnel(&mut self.map, prev_y, center_y, center_x);
                        proof {
                            lemma_floor_kept_row(m2, self.map, prev_x as int, center_x as int, prev_y as int);
                            lemma_corridor_joins(self.map, prev_x as int, prev_y as int, center_x as int, center_y as int, (prev_x as int, center_x as int), prev_y as int, center_x as int);
                            lemma_carving_adds_no_walls(m1, m2);
                            lemma_carving_adds_no_walls(m2, self.map);
                            lemma_all_reach_kept(m1, m2, self.rooms@[0].spec_center(), self.rooms@);
                            lemma_all_reach_kept(m2, self.map, self.rooms@[0].spec_center(), self.rooms@);
                            lemma_all_carved_kept(m1, m2, self.rooms@);
                            lemma_carved_kept(m1, m2, new_room);
                            lemma_all_carved_kept(m2, self.map, self.rooms@);
                            lemma_carved_kept(m2, self.map, new_room);
                        }
                    } else {
                        apply_vertical_tunnel(&mut self.map, prev_y, center_y, prev_x);
                        let ghost m2 = self.map;
                        apply_horizontal_tunnel(&mut self.map, prev_x, center_x, center_y);
                        proof {
                            lemma_floor_kept_col(m2, self.map, prev_x as int, prev_y as int, center_y as int);
                            lemma_corridor_joins(self.map, prev_x as int, prev_y as int, center_x as int, center_y as int, (prev_x as int, center_x as int), center_y as int, prev_x as int);
                            lemma_carving_adds_no_walls(m1, m2);
                            lemma_carving_adds_no_walls(m2, self.map);
                            lemma_all_reach_kept(m1, m2, self.rooms@[0].spec_center(), self.rooms@);
                            lemma_all_reach_kept(m2, self.map, self.rooms@[0].spec_center(), self.rooms@);
                            lemma_all_carved_kept(m1, m2, self.rooms@);
                            lemma_carved_kept(m1, m2, new_room);
                            lemma_all_carved_kept(m2, self.map, self.rooms@);
                            lemma_carved_kept(m2, self.map, new_room);
                        }
                    }
                    proof {
                        let k = self.rooms@.len() - 1;
                        assert(reachable(self.map, self.rooms@[0].spec_center(), self.rooms@[k].spec_center()));
                        lemma_reach_trans(self.map, self.rooms@[0].spec_center(), prev_room.spec_center(), new_room.spec_center());
                    }
                } else {
                    proof {
                        assert(passable(self.map, new_room.spec_center()));
                        lemma_reach_refl(self.map, new_room.spec_center());
                    }
                }
                let ghost old_rooms = self.rooms@;
                self.rooms.push(new_room);
                assert forall|k: int| 0 <= k < self.rooms@.len() implies reachable(
                    self.map,
                    self.rooms@[0].spec_center(),
                    (#[trigger] self.rooms@[k]).spec_center(),
                ) by {
                    if k < old_rooms.len() {
                        assert(self.rooms@[k] == old_rooms[k]);
                    }
                }
                assert forall|i: int, j: int| 0 <= i < j < self.rooms@.len() implies !self.rooms@[i].spec_intersect(
                    &self.rooms@[j],
                ) by {
                    assert(self.rooms@[i] == old_rooms[i]);
                    if j < old_rooms.len() {
                        assert(self.rooms@[j] == old_rooms[j]);
                    } else {
                        assert(!new_room.spec_intersect(&old_rooms[i]));
                    }
                }
                self.take_snapshot();
            }
            attempt = attempt + 1;
        }
        self.starting_position = place_stairs_and_start(&mut self.map, &self.rooms);
    }
}

impl MapBuilder for SimpleMapBuilder {
    open spec fn spec_map(&self) -> GameMap {
        self.map
    }

    open spec fn spec_rooms(&self) -> Seq<Rect> {
        self.rooms@
    }

    open spec fn spec_start(&self) -> Position {
        self.starting_position
    }

    open spec fn spec_history(&self) -> Seq<GameMap> {
        self.history@
    }

    open spec fn spec_fresh(&self) -> bool {
        &&& carving(self.map)
        &&& self.rooms@.len() == 0
    }

    fn build_map(&mut self, rng: &mut RandomNumberGenerator) {
        self.rooms_and_corridors(rng);
    }

    fn get_map(&self) -> (r: GameMap) {
        self.map.duplicate()
    }

    fn get_starting_position(&self) -> (r: Position) {
        self.starting_position
    }

    fn get_rooms(&self) -> (r: Vec<Rect>) {
        let r = self.rooms.clone();
        assert(r@ =~= self.rooms@);
        r
    }

    fn get_snapshot_history(&self) -> (r: Vec<GameMap>) {
        copy_history(&self.history)
    }

    fn take_snapshot(&mut self) {
        if SHOW_MAPGEN_VISUALIZER {
            let snapshot = revealed_copy(&self.map);
            self.history.push(snapshot);
        }
    }
}

} // verus!
