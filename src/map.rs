use vstd::prelude::*;
use crate::components::Entity;

verus! {

/// The kind of a map tile.
#[derive(PartialEq, Eq, Structural, Copy, Clone, Debug)]
pub enum TileType {
    Wall,
    Floor,
    DownStairs,
}

pub const MAP_WIDTH: usize = 80;
pub const MAP_HEIGHT: usize = 43;
pub const MAP_SIZE: usize = MAP_WIDTH * MAP_HEIGHT;

/// Path cost of a step along a row or a column, in hundredths.
pub const CARDINAL_COST: u32 = 100;
/// Path cost of a diagonal step, in hundredths.
pub const DIAGONAL_COST: u32 = 145;

/// The tile grid of one dungeon level, stored row by row.
#[derive(Clone, Debug)]
pub struct GameMap {
    pub tiles: Vec<TileType>,
    pub width: i32,
    pub height: i32,
    pub revealed_tiles: Vec<bool>,
    pub visible_tiles: Vec<bool>,
    pub blocked: Vec<bool>,
    pub depth: i32,
    pub bloodstains: Vec<usize>,
    pub tile_content: Vec<Vec<Entity>>,
}

/// The row-major index of (x, y) on a grid `w` wide.
pub open spec fn spec_idx(w: int, x: int, y: int) -> int {
    y * w + x
}

/// Index arithmetic stays inside the grid.
pub proof fn lemma_idx_in_grid(w: int, h: int, x: int, y: int)
    requires
        0 <= x < w,
        0 <= y < h,
    ensures
        0 <= spec_idx(w, x, y) < w * h,
{
    assert(0 <= y * w + x < w * h) by (nonlinear_arith)
        requires
            0 <= x < w,
            0 <= y < h,
    ;
}

/// An index inside the grid splits into its column and row.
pub proof fn lemma_idx_split(w: int, h: int, i: int)
    requires
        0 < w,
        0 <= i < w * h,
    ensures
        0 <= i % w < w,
        0 <= i / w < h,
        spec_idx(w, i % w, i / w) == i,
{
    vstd::arithmetic::div_mod::lemma_fundamental_div_mod(i, w);
    vstd::arithmetic::div_mod::lemma_mod_bound(i, w);
    vstd::arithmetic::div_mod::lemma_div_pos_is_pos(i, w);
    assert(i / w < h) by (nonlinear_arith)
        requires
            0 < w,
            0 <= i < w * h,
            i == w * (i / w) + i % w,
            0 <= i % w,
    ;
    assert(spec_idx(w, i % w, i / w) == i) by (nonlinear_arith)
        requires
            i == w * (i / w) + i % w,
    ;
}

/// The exit to `j` at `cost` if the step is allowed, else nothing.
pub open spec fn opt_exit(valid: bool, j: int, cost: u32) -> Seq<(usize, u32)> {
    if valid {
        seq![(j as usize, cost)]
    } else {
        Seq::empty()
    }
}

/// The glyph drawn for a revealed wall, from the mask of its revealed wall
/// neighbours (north 1, south 2, west 4, east 8).
pub open spec fn glyph_for_mask(mask: u8) -> u16 {
    if mask == 0 {
        9
    } else if mask <= 3 {
        186
    } else if mask == 4 || mask == 8 || mask == 12 {
        205
    } else if mask == 5 {
        188
    } else if mask == 6 {
        187
    } else if mask == 7 {
        185
    } else if mask == 9 {
        200
    } else if mask == 10 {
        201
    } else if mask == 11 {
        204
    } else if mask == 13 {
        202
    } else if mask == 14 {
        203
    } else if mask == 15 {
        206
    } else {
        35
    }
}

/// Squared Euclidean distance between two points.
pub open spec fn dist_sq(x1: int, y1: int, x2: int, y2: int) -> int {
    (x1 - x2) * (x1 - x2) + (y1 - y2) * (y1 - y2)
}

impl GameMap {
    /// Sizes agree: every per-tile vector has one entry per tile.
    pub open spec fn well_formed(&self) -> bool {
        &&& 0 < self.width
        &&& 0 < self.height
        &&& self.tiles@.len() == self.width * self.height
        &&& self.revealed_tiles@.len() == self.tiles@.len()
        &&& self.visible_tiles@.len() == self.tiles@.len()
        &&& self.blocked@.len() == self.tiles@.len()
        &&& self.tile_content@.len() == self.tiles@.len()
        &&& self.tiles@.len() <= usize::MAX
    }

    /// Checks the size agreement of `well_formed` at run time (for a map
    /// that comes from outside, such as a saved game).
    pub fn is_well_formed(&self) -> (r: bool)
        ensures
            r == self.well_formed(),
    {
        let n = self.tiles.len();
        if self.width <= 0 || self.height <= 0 {
            return false;
        }
        let w = self.width as u128;
        let h = self.height as u128;
        assert(w * h <= 0x8000_0000 * 0x8000_0000) by (nonlinear_arith)
            requires
                0 < w <= 0x8000_0000,
                0 < h <= 0x8000_0000,
        ;
        n as u128 == w * h && self.revealed_tiles.len() == n && self.visible_tiles.len() == n && self.blocked.len() == n
            && self.tile_content.len() == n
    }

    /// Whether (x, y) lies on the grid.
    pub open spec fn in_bounds(&self, x: int, y: int) -> bool {
        0 <= x < self.width && 0 <= y < self.height
    }

    /// The index of (x, y) on this map.
    pub open spec fn idx(&self, x: int, y: int) -> int {
        spec_idx(self.width as int, x, y)
    }

    /// The tile at (x, y).
    pub open spec fn tile_at(&self, x: int, y: int) -> TileType {
        self.tiles@[self.idx(x, y)]
    }

    /// A fresh level: all walls, nothing revealed, visible, blocked or occupied.
    pub fn new(depth: i32) -> (r: GameMap)
        ensures
            r.well_formed(),
            r.width == MAP_WIDTH,
            r.height == MAP_HEIGHT,
            r.depth == depth,
            forall|i: int| 0 <= i < r.tiles@.len() ==> r.tiles@[i] == TileType::Wall,
            forall|i: int| 0 <= i < r.tiles@.len() ==> !r.revealed_tiles@[i],
            forall|i: int| 0 <= i < r.tiles@.len() ==> !r.visible_tiles@[i],
            forall|i: int| 0 <= i < r.tiles@.len() ==> !r.blocked@[i],
            forall|i: int| 0 <= i < r.tiles@.len() ==> r.tile_content@[i]@.len() == 0,
            r.bloodstains@.len() == 0,
    {
        let mut tiles: Vec<TileType> = Vec::new();
        let mut revealed: Vec<bool> = Vec::new();
        let mut visible: Vec<bool> = Vec::new();
        let mut blocked: Vec<bool> = Vec::new();
        let mut content: Vec<Vec<Entity>> = Vec::new();
        let mut i: usize = 0;
        while i < MAP_SIZE
            invariant
                i <= MAP_SIZE,
                tiles@.len() == i,
                revealed@.len() == i,
                visible@.len() == i,
                blocked@.len() == i,
                content@.len() == i,
                forall|j: int| 0 <= j < i ==> tiles@[j] == TileType::Wall,
                forall|j: int| 0 <= j < i ==> !revealed@[j],
                forall|j: int| 0 <= j < i ==> !visible@[j],
                forall|j: int| 0 <= j < i ==> !blocked@[j],
                forall|j: int| 0 <= j < i ==> content@[j]@.len() == 0,
            decreases MAP_SIZE - i,
        {
            tiles.push(TileType::Wall);
            revealed.push(false);
            visible.push(false);
            blocked.push(false);
            content.push(Vec::new());
            i = i + 1;
        }
        GameMap {
            tiles,
            width: MAP_WIDTH as i32,
            height: MAP_HEIGHT as i32,
            revealed_tiles: revealed,
            visible_tiles: visible,
            blocked,
            depth,
            bloodstains: Vec::new(),
            tile_content: content,
        }
    }

    /// The row-major index of a tile on the map.
    pub fn xy_idx(&self, x: i32, y: i32) -> (r: usize)
        requires
            self.well_formed(),
            self.in_bounds(x as int, y as int),
        ensures
            r as int == self.idx(x as int, y as int),
            r < self.tiles@.len(),
    {
        proof {
            lemma_idx_in_grid(self.width as int, self.height as int, x as int, y as int);
        }
        (y as usize) * (self.width as usize) + (x as usize)
    }

    /// Whether a step may end on (x, y): a tile off the outer ring that is not blocked.
    pub open spec fn spec_exit_valid(&self, x: int, y: int) -> bool {
        &&& 0 < x < self.width
        &&& 0 < y < self.height
        &&& !self.blocked@[self.idx(x, y)]
    }

    /// Whether a step may end on (x, y).
    fn is_exit_valid(&self, x: i32, y: i32) -> (r: bool)
        requires
            self.well_formed(),
        ensures
            r == self.spec_exit_valid(x as int, y as int),
    {
        if x < 1 || x >= self.width || y < 1 || y >= self.height {
            return false;
        }
        let idx = self.xy_idx(x, y);
        !self.blocked[idx]
    }

    /// Recomputes the blocked mask from the tiles alone: a tile is blocked iff it is a wall.
    pub fn populate_blocked(&mut self)
        requires
            old(self).well_formed(),
        ensures
            final(self).well_formed(),
            final(self).tiles == old(self).tiles,
            final(self).revealed_tiles == old(self).revealed_tiles,
            final(self).visible_tiles == old(self).visible_tiles,
            final(self).tile_content == old(self).tile_content,
            final(self).bloodstains == old(self).bloodstains,
            final(self).width == old(self).width,
            final(self).height == old(self).height,
            final(self).depth == old(self).depth,
            forall|i: int|
                0 <= i < final(self).tiles@.len() ==> final(self).blocked@[i] == (
                final(self).tiles@[i] == TileType::Wall),
    {
        let n = self.tiles.len();
        let mut i: usize = 0;
        while i < n
            invariant
                self.well_formed(),
                n == self.tiles@.len(),
                i <= n,
                self.tiles == old(self).tiles,
                self.revealed_tiles == old(self).revealed_tiles,
                self.visible_tiles == old(self).visible_tiles,
                self.tile_content == old(self).tile_content,
                self.bloodstains == old(self).bloodstains,
                self.width == old(self).width,
                self.height == old(self).height,
                self.depth == old(self).depth,
                forall|j: int| 0 <= j < i ==> self.blocked@[j] == (self.tiles@[j] == TileType::Wall),
            decreases n - i,
        {
            let wall = self.tiles[i] == TileType::Wall;
            self.blocked.set(i, wall);
            i = i + 1;
        }
    }

    /// Empties every tile's occupancy list.
    pub fn clear_content_index(&mut self)
        requires
            old(self).well_formed(),
        ensures
            final(self).well_formed(),
            final(self).tiles == old(self).tiles,
            final(self).revealed_tiles == old(self).revealed_tiles,
            final(self).visible_tiles == old(self).visible_tiles,
            final(self).blocked == old(self).blocked,
            final(self).bloodstains == old(self).bloodstains,
            final(self).width == old(self).width,
            final(self).height == old(self).height,
            final(self).depth == old(self).depth,
            forall|i: int| 0 <= i < final(self).tiles@.len() ==> final(self).tile_content@[i]@.len() == 0,
    {
        let n = self.tile_content.len();
        let mut i: usize = 0;
        while i < n
            invariant
                self.well_formed(),
                n == self.tile_content@.len(),
                i <= n,
                self.tiles == old(self).tiles,
                self.revealed_tiles == old(self).revealed_tiles,
                self.visible_tiles == old(self).visible_tiles,
                self.blocked == old(self).blocked,
                self.bloodstains == old(self).bloodstains,
                self.width == old(self).width,
                self.height == old(self).height,
                self.depth == old(self).depth,
                forall|j: int| 0 <= j < i ==> self.tile_content@[j]@.len() == 0,
            decreases n - i,
        {
            self.tile_content.set(i, Vec::new());
            i = i + 1;
        }
    }

    /// The allowed single steps from tile `idx`, in the order west, east,
    /// north, south, north-west, north-east, south-west, south-east.
    pub open spec fn spec_exits(&self, idx: int) -> Seq<(usize, u32)> {
        let x = idx % (self.width as int);
        let y = idx / (self.width as int);
        opt_exit(self.spec_exit_valid(x - 1, y), self.idx(x - 1, y), CARDINAL_COST) + opt_exit(
            self.spec_exit_valid(x + 1, y),
            self.idx(x + 1, y),
            CARDINAL_COST,
        ) + opt_exit(self.spec_exit_valid(x, y - 1), self.idx(x, y - 1), CARDINAL_COST)
            + opt_exit(self.spec_exit_valid(x, y + 1), self.idx(x, y + 1), CARDINAL_COST)
            + opt_exit(self.spec_exit_valid(x - 1, y - 1), self.idx(x - 1, y - 1), DIAGONAL_COST)
            + opt_exit(self.spec_exit_valid(x + 1, y - 1), self.idx(x + 1, y - 1), DIAGONAL_COST)
            + opt_exit(self.spec_exit_valid(x - 1, y + 1), self.idx(x - 1, y + 1), DIAGONAL_COST)
            + opt_exit(self.spec_exit_valid(x + 1, y + 1), self.idx(x + 1, y + 1), DIAGONAL_COST)
    }

    fn push_exit(&self, exits: &mut Vec<(usize, u32)>, x: i32, y: i32, cost: u32)
        requires
            self.well_formed(),
        ensures
            final(exits)@ == old(exits)@ + opt_exit(
                self.spec_exit_valid(x as int, y as int),
                self.idx(x as int, y as int),
                cost,
            ),
    {
        if self.is_exit_valid(x, y) {
            let j = self.xy_idx(x, y);
            exits.push((j, cost));
        }
        assert(exits@ =~= old(exits)@ + opt_exit(
            self.spec_exit_valid(x as int, y as int),
            self.idx(x as int, y as int),
            cost,
        ));
    }

    /// The neighbours of tile `idx` that a path may step to, each with its
    /// cost in hundredths: off the outer ring, not blocked, 1.00 along a row
    /// or column and 1.45 on a diagonal.
    pub fn get_available_exits(&self, idx: usize) -> (r: Vec<(usize, u32)>)
        requires
            self.well_formed(),
            idx < self.tiles@.len(),
        ensures
            r@ == self.spec_exits(idx as int),
    {
        proof {
            lemma_idx_split(self.width as int, self.height as int, idx as int);
        }
        let w = self.width as usize;
        let x = (idx % w) as i32;
        let y = (idx / w) as i32;
        let mut exits: Vec<(usize, u32)> = Vec::new();
        self.push_exit(&mut exits, x - 1, y, CARDINAL_COST);
        self.push_exit(&mut exits, x + 1, y, CARDINAL_COST);
        self.push_exit(&mut exits, x, y - 1, CARDINAL_COST);
        self.push_exit(&mut exits, x, y + 1, CARDINAL_COST);
        self.push_exit(&mut exits, x - 1, y - 1, DIAGONAL_COST);
        self.push_exit(&mut exits, x + 1, y - 1, DIAGONAL_COST);
        self.push_exit(&mut exits, x - 1, y + 1, DIAGONAL_COST);
        self.push_exit(&mut exits, x + 1, y + 1, DIAGONAL_COST);
        exits
    }

    /// The squared straight-line distance between two tiles, the path-search
    /// heuristic before its square root.
    pub fn pathing_distance_squared(&self, idx1: usize, idx2: usize) -> (r: u64)
        requires
            self.well_formed(),
            idx1 < self.tiles@.len(),
            idx2 < self.tiles@.len(),
        ensures
            r as int == dist_sq(
                idx1 as int % self.width as int,
                idx1 as int / self.width as int,
                idx2 as int % self.width as int,
                idx2 as int / self.width as int,
            ),
    {
        proof {
            lemma_idx_split(self.width as int, self.height as int, idx1 as int);
            lemma_idx_split(self.width as int, self.height as int, idx2 as int);
        }
        let w = self.width as usize;
        let dx: i64 = (idx1 % w) as i64 - (idx2 % w) as i64;
        let dy: i64 = (idx1 / w) as i64 - (idx2 / w) as i64;
        assert(0 <= dx * dx <= 0x4000_0000_0000_0000) by (nonlinear_arith)
            requires
                -0x8000_0000 < dx < 0x8000_0000,
        ;
        assert(0 <= dy * dy <= 0x4000_0000_0000_0000) by (nonlinear_arith)
            requires
                -0x8000_0000 < dy < 0x8000_0000,
        ;
        (dx * dx) as u64 + (dy * dy) as u64
    }

    /// Whether (x, y) is a revealed wall.
    pub open spec fn spec_revealed_wall(&self, x: int, y: int) -> bool {
        self.tiles@[self.idx(x, y)] == TileType::Wall && self.revealed_tiles@[self.idx(x, y)]
    }

    fn is_revealed_and_wall(&self, x: i32, y: i32) -> (r: bool)
        requires
            self.well_formed(),
            self.in_bounds(x as int, y as int),
        ensures
            r == self.spec_revealed_wall(x as int, y as int),
    {
        let idx = self.xy_idx(x, y);
        self.tiles[idx] == TileType::Wall && self.revealed_tiles[idx]
    }

    /// The mask of revealed wall neighbours of an inner tile.
    pub open spec fn spec_wall_mask(&self, x: int, y: int) -> u8 {
        ((if self.spec_revealed_wall(x, y - 1) { 1int } else { 0int }) + (if self.spec_revealed_wall(
            x,
            y + 1,
        ) {
            2int
        } else {
            0int
        }) + (if self.spec_revealed_wall(x - 1, y) { 4int } else { 0int }) + (
        if self.spec_revealed_wall(x + 1, y) {
            8int
        } else {
            0int
        })) as u8
    }

    /// The glyph for a wall at (x, y): `#` on the outer ring, else the line
    /// shape that joins its revealed wall neighbours.
    pub fn wall_glyph(&self, x: i32, y: i32) -> (r: u16)
        requires
            self.well_formed(),
            self.in_bounds(x as int, y as int),
        ensures
            (x < 1 || x > self.width - 2 || y < 1 || y > self.height - 2) ==> r == 35,
            !(x < 1 || x > self.width - 2 || y < 1 || y > self.height - 2) ==> r == glyph_for_mask(
                self.spec_wall_mask(x as int, y as int),
            ),
    {
        if x < 1 || x > self.width - 2 || y < 1 || y > self.height - 2 {
            return 35;
        }
        let mut mask: u8 = 0;
        if self.is_revealed_and_wall(x, y - 1) {
            mask = mask + 1;
        }
        if self.is_revealed_and_wall(x, y + 1) {
            mask = mask + 2;
        }
        if self.is_revealed_and_wall(x - 1, y) {
            mask = mask + 4;
        }
        if self.is_revealed_and_wall(x + 1, y) {
            mask = mask + 8;
        }
        match mask {
            0 => 9,
            1 | 2 | 3 => 186,
            4 | 8 | 12 => 205,
            5 => 188,
            6 => 187,
            7 => 185,
            9 => 200,
            10 => 201,
            11 => 204,
            13 => 202,
            14 => 203,
            15 => 206,
            _ => 35,
        }
    }

    /// Marks every tile of row `row` revealed; nothing else changes.
    pub fn reveal_row(&mut self, row: i32)
        requires
            old(self).well_formed(),
            0 <= row < old(self).height,
        ensures
            final(self).well_formed(),
            final(self).tiles == old(self).tiles,
            final(self).visible_tiles == old(self).visible_tiles,
            final(self).blocked == old(self).blocked,
            final(self).tile_content == old(self).tile_content,
            final(self).bloodstains == old(self).bloodstains,
            final(self).width == old(self).width,
            final(self).height == old(self).height,
            final(self).depth == old(self).depth,
            forall|i: int|
                0 <= i < final(self).tiles@.len() ==> final(self).revealed_tiles@[i] == (
                old(self).revealed_tiles@[i] || (row * final(self).width <= i < (row + 1)
                    * final(self).width)),
    {
        let mut x: i32 = 0;
        while x < self.width
            invariant
                self.well_formed(),
                0 <= x <= self.width,
                0 <= row < self.height,
                self.tiles == old(self).tiles,
                self.visible_tiles == old(self).visible_tiles,
                self.blocked == old(self).blocked,
                self.tile_content == old(self).tile_content,
                self.bloodstains == old(self).bloodstains,
                self.width == old(self).width,
                self.height == old(self).height,
                self.depth == old(self).depth,
                self.revealed_tiles@.len() == old(self).revealed_tiles@.len(),
                forall|i: int|
                    0 <= i < self.tiles@.len() ==> self.revealed_tiles@[i] == (
                    old(self).revealed_tiles@[i] || (row * self.width <= i < row * self.width
                        + x)),
            decreases self.width - x,
        {
            let idx = self.xy_idx(x, row);
            self.revealed_tiles.set(idx, true);
            x = x + 1;
        }
        assert((row + 1) * self.width == row * self.width + self.width) by (nonlinear_arith);
    }

    /// Marks every tile of the map revealed.
    pub fn reveal_all(&mut self)
        requires
            old(self).well_formed(),
        ensures
            final(self).well_formed(),
            final(self).tiles == old(self).tiles,
            final(self).visible_tiles == old(self).visible_tiles,
            final(self).blocked == old(self).blocked,
            final(self).tile_content == old(self).tile_content,
            final(self).bloodstains == old(self).bloodstains,
            final(self).width == old(self).width,
            final(self).height == old(self).height,
            final(self).depth == old(self).depth,
            forall|i: int| 0 <= i < final(self).tiles@.len() ==> final(self).revealed_tiles@[i],
    {
        let n = self.revealed_tiles.len();
        let mut i: usize = 0;
        while i < n
            invariant
                self.well_formed(),
                n == self.revealed_tiles@.len(),
                i <= n,
                self.tiles == old(self).tiles,
                self.visible_tiles == old(self).visible_tiles,
                self.blocked == old(self).blocked,
                self.tile_content == old(self).tile_content,
                self.bloodstains == old(self).bloodstains,
                self.width == old(self).width,
                self.height == old(self).height,
                self.depth == old(self).depth,
                forall|j: int| 0 <= j < i ==> self.revealed_tiles@[j],
            decreases n - i,
        {
            self.revealed_tiles.set(i, true);
            i = i + 1;
        }
    }

    /// Records a bloodstain on tile `idx`; the stains form a set that only grows.
    pub fn add_bloodstain(&mut self, idx: usize)
        ensures
            final(self).tiles == old(self).tiles,
            final(self).revealed_tiles == old(self).revealed_tiles,
            final(self).visible_tiles == old(self).visible_tiles,
            final(self).blocked == old(self).blocked,
            final(self).tile_content == old(self).tile_content,
            final(self).width == old(self).width,
            final(self).height == old(self).height,
            final(self).depth == old(self).depth,
            final(self).bloodstains@.to_set() == old(self).bloodstains@.to_set().insert(idx),
            old(self).bloodstains@.no_duplicates() ==> final(self).bloodstains@.no_duplicates(),
    {
        let mut k: usize = 0;
        let n = self.bloodstains.len();
        while k < n
            invariant
                n == self.bloodstains@.len(),
                k <= n,
                *self == *old(self),
                forall|j: int| 0 <= j < k ==> self.bloodstains@[j] != idx,
            decreases n - k,
        {
            if self.bloodstains[k] == idx {
                assert(self.bloodstains@.to_set() =~= old(self).bloodstains@.to_set().insert(idx)) by {
                    assert(self.bloodstains@.contains(idx));
                };
                return;
            }
            k = k + 1;
        }
        self.bloodstains.push(idx);
        assert(self.bloodstains@ == old(self).bloodstains@.push(idx));
        assert(self.bloodstains@.to_set() =~= old(self).bloodstains@.to_set().insert(idx)) by {
            old(self).bloodstains@.lemma_push_to_set_commute(idx);
        };
        assert(!old(self).bloodstains@.contains(idx));
    }

    /// Whether `other` has the same tiles, masks, size and depth as this map.
    pub open spec fn same_grid(&self, other: &GameMap) -> bool {
        &&& self.tiles@ == other.tiles@
        &&& self.revealed_tiles@ == other.revealed_tiles@
        &&& self.visible_tiles@ == other.visible_tiles@
        &&& self.blocked@ == other.blocked@
        &&& self.width == other.width
        &&& self.height == other.height
        &&& self.depth == other.depth
        &&& self.bloodstains@ == other.bloodstains@
    }

    /// A copy of the map's tiles, masks, size, depth and stains; occupancy
    /// is rebuilt every tick and is not carried over.
    pub fn duplicate(&self) -> (r: GameMap)
        ensures
            self.well_formed() ==> r.well_formed(),
            r.same_grid(self),
            r.tile_content@.len() == self.tiles@.len(),
            forall|i: int| 0 <= i < r.tiles@.len() ==> r.tile_content@[i]@.len() == 0,
    {
        let tiles = self.tiles.clone();
        let revealed_tiles = self.revealed_tiles.clone();
        let visible_tiles = self.visible_tiles.clone();
        let blocked = self.blocked.clone();
        let bloodstains = self.bloodstains.clone();
        assert(tiles@ =~= self.tiles@);
        assert(revealed_tiles@ =~= self.revealed_tiles@);
        assert(visible_tiles@ =~= self.visible_tiles@);
        assert(blocked@ =~= self.blocked@);
        assert(bloodstains@ =~= self.bloodstains@);
        let n = self.tiles.len();
        let mut content: Vec<Vec<Entity>> = Vec::new();
        let mut i: usize = 0;
        while i < n
            invariant
                i <= n,
                content@.len() == i,
                forall|j: int| 0 <= j < i ==> content@[j]@.len() == 0,
            decreases n - i,
        {
            content.push(Vec::new());
            i = i + 1;
        }
        GameMap {
            tiles,
            width: self.width,
            height: self.height,
            revealed_tiles,
            visible_tiles,
            blocked,
            depth: self.depth,
            bloodstains,
            tile_content: content,
        }
    }

    /// Whether a tile blocks sight: exactly the walls do.
    pub fn is_opaque(&self, idx: usize) -> (r: bool)
        requires
            idx < self.tiles@.len(),
        ensures
            r == (self.tiles@[idx as int] == TileType::Wall),
    {
        self.tiles[idx] == TileType::Wall
    }
}

} // verus!
