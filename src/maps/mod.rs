use vstd::prelude::*;
use rltk::RandomNumberGenerator;
use crate::components::Position;
use crate::map::{GameMap, TileType};
use crate::rect::Rect;
use crate::rng::roll_die;
use self::bsp_dungeon::BspDungeonBuilder;
use self::common::{carving, in_room, lemma_center_in_room, only_carved, room_fits};
use self::connectivity::{lemma_all_reach_kept, no_new_walls, reachable};
use self::simple_map::SimpleMapBuilder;

pub mod bsp_dungeon;
pub mod common;
pub mod connectivity;
pub mod simple_map;

verus! {

/// Whether intermediate maps are recorded while a level is generated.
pub const SHOW_MAPGEN_VISUALIZER: bool = true;

/// Every tile of room `r` is passable (floor or stairs).
pub open spec fn room_carved(map: GameMap, r: Rect) -> bool {
    forall|x: int, y: int| in_room(r, x, y) ==> #[trigger] map.tile_at(x, y) != TileType::Wall
}

/// What every generated level satisfies: the standard size; at least one
/// room, each inside the map and carved; exactly one down staircase, at the
/// center of the last room; the start at the center of the first room; and
/// every room's center reachable from the start over passable tiles.
pub open spec fn generated(map: GameMap, rooms: Seq<Rect>, start: Position) -> bool {
    &&& map.well_formed()
    &&& map.width == 80
    &&& map.height == 43
    &&& rooms.len() > 0
    &&& forall|k: int| 0 <= k < rooms.len() ==> room_fits(#[trigger] rooms[k], 80, 43)
    &&& forall|k: int| 0 <= k < rooms.len() ==> room_carved(map, #[trigger] rooms[k])
    &&& forall|i: int|
        0 <= i < map.tiles@.len() ==> (#[trigger] map.tiles@[i] == TileType::DownStairs <==> i
            == map.idx(rooms.last().spec_center().0, rooms.last().spec_center().1))
    &&& in_room(rooms.last(), rooms.last().spec_center().0, rooms.last().spec_center().1)
    &&& start.x == rooms[0].spec_center().0
    &&& start.y == rooms[0].spec_center().1
    &&& in_room(rooms[0], start.x as int, start.y as int)
    &&& forall|k: int|
        0 <= k < rooms.len() ==> reachable(
            map,
            (start.x as int, start.y as int),
            (#[trigger] rooms[k]).spec_center(),
        )
}

/// `snap` is a copy of `map` with every tile revealed.
pub open spec fn revealed_snapshot(snap: GameMap, map: GameMap) -> bool {
    &&& snap.well_formed()
    &&& snap.tiles@ == map.tiles@
    &&& snap.width == map.width
    &&& snap.height == map.height
    &&& snap.depth == map.depth
    &&& snap.visible_tiles@ == map.visible_tiles@
    &&& snap.blocked@ == map.blocked@
    &&& snap.bloodstains@ == map.bloodstains@
    &&& forall|i: int| 0 <= i < snap.revealed_tiles@.len() ==> #[trigger] snap.revealed_tiles@[i]
}

/// A fully revealed copy of `map`.
pub fn revealed_copy(map: &GameMap) -> (r: GameMap)
    requires
        map.well_formed(),
    ensures
        revealed_snapshot(r, *map),
{
    let mut snapshot = map.duplicate();
    snapshot.reveal_all();
    snapshot
}

/// A copy of a snapshot history, map by map.
pub fn copy_history(history: &Vec<GameMap>) -> (r: Vec<GameMap>)
    ensures
        r@.len() == history@.len(),
        forall|i: int| 0 <= i < r@.len() ==> (#[trigger] r@[i]).same_grid(&history@[i]),
{
    let mut out: Vec<GameMap> = Vec::new();
    let mut k: usize = 0;
    while k < history.len()
        invariant
            k <= history@.len(),
            out@.len() == k,
            forall|i: int| 0 <= i < k ==> (#[trigger] out@[i]).same_grid(&history@[i]),
        decreases history@.len() - k,
    {
        out.push(history[k].duplicate());
        k = k + 1;
    }
    out
}

/// A map-generation strategy. `build_map` produces the level; the
/// accessors hand out its results and the intermediate snapshots.
pub trait MapBuilder {
    spec fn spec_map(&self) -> GameMap;

    spec fn spec_rooms(&self) -> Seq<Rect>;

    spec fn spec_start(&self) -> Position;

    /// The intermediate maps recorded so far, oldest first.
    spec fn spec_history(&self) -> Seq<GameMap>;

    /// The state of a builder before `build_map`.
    spec fn spec_fresh(&self) -> bool;

    fn build_map(&mut self, rng: &mut RandomNumberGenerator)
        requires
            old(self).spec_fresh(),
        ensures
            generated(final(self).spec_map(), final(self).spec_rooms(), final(self).spec_start()),
            final(self).spec_map().depth == old(self).spec_map().depth,
    ;

    fn get_map(&self) -> (r: GameMap)
        requires
            self.spec_map().well_formed(),
        ensures
            r.well_formed(),
            r.same_grid(&self.spec_map()),
            forall|i: int| 0 <= i < r.tiles@.len() ==> r.tile_content@[i]@.len() == 0,
    ;

    fn get_starting_position(&self) -> (r: Position)
        ensures
            r == self.spec_start(),
    ;

    fn get_rooms(&self) -> (r: Vec<Rect>)
        ensures
            r@ == self.spec_rooms(),
    ;

    fn get_snapshot_history(&self) -> (r: Vec<GameMap>)
        ensures
            r@.len() == self.spec_history().len(),
            forall|i: int| 0 <= i < r@.len() ==> (#[trigger] r@[i]).same_grid(&self.spec_history()[i]),
    ;

    /// Records the current map, fully revealed, at the end of the history
    /// (when recording is on); nothing else changes.
    fn take_snapshot(&mut self)
        requires
            old(self).spec_map().well_formed(),
        ensures
            final(self).spec_map() == old(self).spec_map(),
            final(self).spec_rooms() == old(self).spec_rooms(),
            final(self).spec_start() == old(self).spec_start(),
            SHOW_MAPGEN_VISUALIZER ==> {
                &&& final(self).spec_history().len() == old(self).spec_history().len() + 1
                &&& final(self).spec_history().drop_last() == old(self).spec_history()
                &&& revealed_snapshot(final(self).spec_history().last(), old(self).spec_map())
            },
            !SHOW_MAPGEN_VISUALIZER ==> final(self).spec_history() == old(self).spec_history(),
    ;
}

/// Carving keeps carved rooms carved.
pub proof fn lemma_carved_kept(before: GameMap, after: GameMap, r: Rect)
    requires
        carving(before),
        only_carved(before, after),
        room_fits(r, 80, 43),
        room_carved(before, r),
    ensures
        room_carved(after, r),
{
    assert forall|x: int, y: int| in_room(r, x, y) implies #[trigger] after.tile_at(x, y)
        != TileType::Wall by {
        crate::map::lemma_idx_in_grid(80, 43, x, y);
        assert(before.tile_at(x, y) != TileType::Wall);
    }
}

/// Carving keeps every room of a list carved.
pub proof fn lemma_all_carved_kept(before: GameMap, after: GameMap, rooms: Seq<Rect>)
    requires
        carving(before),
        only_carved(before, after),
        forall|k: int| 0 <= k < rooms.len() ==> room_fits(#[trigger] rooms[k], 80, 43),
        forall|k: int| 0 <= k < rooms.len() ==> room_carved(before, #[trigger] rooms[k]),
    ensures
        forall|k: int| 0 <= k < rooms.len() ==> room_carved(after, #[trigger] rooms[k]),
{
    assert forall|k: int| 0 <= k < rooms.len() implies room_carved(after, #[trigger] rooms[k]) by {
        lemma_carved_kept(before, after, rooms[k]);
    }
}

/// Turns the center of the last room into the down staircase and reports
/// the center of the first room as the start, on a map of walls and floor.
pub fn place_stairs_and_start(map: &mut GameMap, rooms: &Vec<Rect>) -> (start: Position)
    requires
        carving(*old(map)),
        rooms@.len() > 0,
        forall|k: int| 0 <= k < rooms@.len() ==> room_fits(#[trigger] rooms@[k], 80, 43),
        forall|k: int| 0 <= k < rooms@.len() ==> room_carved(*old(map), #[trigger] rooms@[k]),
        forall|k: int|
            0 <= k < rooms@.len() ==> reachable(
                *old(map),
                rooms@[0].spec_center(),
                (#[trigger] rooms@[k]).spec_center(),
            ),
    ensures
        generated(*final(map), rooms@, start),
        final(map).depth == old(map).depth,
        no_new_walls(*old(map), *final(map)),
{
    let last = rooms[rooms.len() - 1];
    let (stairs_x, stairs_y) = last.center();
    proof {
        lemma_center_in_room(last, 80, 43);
        lemma_center_in_room(rooms@[0], 80, 43);
    }
    let stairs_idx = map.xy_idx(stairs_x, stairs_y);
    let ghost before = *map;
    map.tiles.set(stairs_idx, TileType::DownStairs);
    assert forall|k: int| 0 <= k < rooms@.len() implies room_carved(*map, #[trigger] rooms@[k]) by {
        assert(room_carved(before, rooms@[k]));
        assert forall|x: int, y: int| in_room(rooms@[k], x, y) implies #[trigger] map.tile_at(x, y)
            != TileType::Wall by {
            crate::map::lemma_idx_in_grid(80, 43, x, y);
            assert(before.tile_at(x, y) != TileType::Wall);
        }
    }
    assert forall|i: int|
        0 <= i < before.tiles@.len() && before.tiles@[i] != TileType::Wall
            implies #[trigger] map.tiles@[i] != TileType::Wall by {
        if i == stairs_idx as int {
            assert(map.tiles@[i] == TileType::DownStairs);
        }
    }
    proof {
        lemma_all_reach_kept(before, *map, rooms@[0].spec_center(), rooms@);
    }
    let (start_x, start_y) = rooms[0].center();
    Position { x: start_x, y: start_y }
}

/// One of the strategies, chosen at run time.
pub enum AnyBuilder {
    Simple(SimpleMapBuilder),
    Bsp(BspDungeonBuilder),
}

impl MapBuilder for AnyBuilder {
    open spec fn spec_map(&self) -> GameMap {
        match self {
            AnyBuilder::Simple(b) => b.spec_map(),
            AnyBuilder::Bsp(b) => b.spec_map(),
        }
    }

    open spec fn spec_rooms(&self) -> Seq<Rect> {
        match self {
            AnyBuilder::Simple(b) => b.spec_rooms(),
            AnyBuilder::Bsp(b) => b.spec_rooms(),
        }
    }

    open spec fn spec_start(&self) -> Position {
        match self {
            AnyBuilder::Simple(b) => b.spec_start(),
            AnyBuilder::Bsp(b) => b.spec_start(),
        }
    }

    open spec fn spec_fresh(&self) -> bool {
        match self {
            AnyBuilder::Simple(b) => b.spec_fresh(),
            AnyBuilder::Bsp(b) => b.spec_fresh(),
        }
    }

    open spec fn spec_history(&self) -> Seq<GameMap> {
        match self {
            AnyBuilder::Simple(b) => b.spec_history(),
            AnyBuilder::Bsp(b) => b.spec_history(),
        }
    }

    fn build_map(&mut self, rng: &mut RandomNumberGenerator) {
        match self {
            AnyBuilder::Simple(b) => b.build_map(rng),
            AnyBuilder::Bsp(b) => b.build_map(rng),
        }
    }

    fn get_map(&self) -> (r: GameMap) {
        match self {
            AnyBuilder::Simple(b) => b.get_map(),
            AnyBuilder::Bsp(b) => b.get_map(),
        }
    }

    fn get_starting_position(&self) -> (r: Position) {
        match self {
            AnyBuilder::Simple(b) => b.get_starting_position(),
            AnyBuilder::Bsp(b) => b.get_starting_position(),
        }
    }

    fn get_rooms(&self) -> (r: Vec<Rect>) {
        match self {
            AnyBuilder::Simple(b) => b.get_rooms(),
            AnyBuilder::Bsp(b) => b.get_rooms(),
        }
    }

    fn get_snapshot_history(&self) -> (r: Vec<GameMap>) {
        match self {
            AnyBuilder::Simple(b) => b.get_snapshot_history(),
            AnyBuilder::Bsp(b) => b.get_snapshot_history(),
        }
    }

    fn take_snapshot(&mut self) {
        match self {
            AnyBuilder::Simple(b) => b.take_snapshot(),
            AnyBuilder::Bsp(b) => b.take_snapshot(),
        }
    }
}

/// The fresh builder for a level at `depth` that a two-sided die picks:
/// rooms and corridors on a one, the partition dungeon otherwise.
pub fn builder_for_roll(roll: i32, depth: i32) -> (r: AnyBuilder)
    ensures
        r.spec_fresh(),
        r.spec_map().depth == depth,
        roll == 1 <==> r is Simple,
{
    if roll == 1 {
        AnyBuilder::Simple(SimpleMapBuilder::new(depth))
    } else {
        AnyBuilder::Bsp(BspDungeonBuilder::new(depth))
    }
}

/// A fresh builder for a level at `depth`, of a strategy picked at random
/// with equal odds.
pub fn random_builder(depth: i32, rng: &mut RandomNumberGenerator) -> (r: AnyBuilder)
    ensures
        r.spec_fresh(),
        r.spec_map().depth == depth,
{
    let roll = roll_die(rng, 2);
    builder_for_roll(roll, depth)
}

/// Generates a complete level at `depth` with a randomly chosen strategy:
/// the map, its rooms in generation order, and the start position.
pub fn generate_level(depth: i32, rng: &mut RandomNumberGenerator) -> (r: (GameMap, Vec<Rect>, Position))
    ensures
        generated(r.0, r.1@, r.2),
        r.0.depth == depth,
        forall|i: int| 0 <= i < r.0.tiles@.len() ==> r.0.tile_content@[i]@.len() == 0,
{
    let mut builder = random_builder(depth, rng);
    builder.build_map(rng);
    let map = builder.get_map();
    let rooms = builder.get_rooms();
    let start = builder.get_starting_position();
    proof {
        let built = builder.spec_map();
        assert(self::connectivity::no_new_walls(built, map));
        self::connectivity::lemma_all_reach_kept(built, map, (start.x as int, start.y as int), rooms@);
        assert forall|k: int| 0 <= k < rooms@.len() implies room_carved(map, #[trigger] rooms@[k]) by {
            assert(room_carved(built, rooms@[k]));
        }
    }
    (map, rooms, start)
}

} // verus!
