use vstd::prelude::*;
use rltk::RandomNumberGenerator;
use crate::maps::common::{in_room, room_fits};
use crate::rect::Rect;
use crate::rng::roll_die;

verus! {

/// The kinds of things a room may be stocked with.
#[derive(PartialEq, Eq, Structural, Copy, Clone, Debug)]
pub enum SpawnKind {
    Goblin,
    Orc,
    HealthPotion,
    FireballScroll,
    ConfusionScroll,
    MagicMissileScroll,
    MagicMappingScroll,
    Dagger,
    Shield,
    Longsword,
    TowerShield,
    Rations,
    BearTrap,
}

/// Most monsters a room holds at depth one, before the depth bonus.
pub const MAX_MONSTERS: i32 = 4;

/// A weighted table of spawn kinds; only positive weights are kept.
pub struct RandomTable {
    pub entries: Vec<(SpawnKind, i32)>,
    pub total_weight: i32,
}

impl RandomTable {
    /// The sum of the weights of the first `n` entries.
    pub open spec fn weight_prefix(entries: Seq<(SpawnKind, i32)>, n: int) -> int
        decreases n,
    {
        if n <= 0 {
            0
        } else {
            Self::weight_prefix(entries, n - 1) + entries[n - 1].1
        }
    }

    /// Weights are positive and the total is their sum.
    pub open spec fn well_formed(&self) -> bool {
        &&& forall|k: int| 0 <= k < self.entries@.len() ==> (#[trigger] self.entries@[k]).1 > 0
        &&& self.total_weight == Self::weight_prefix(self.entries@, self.entries@.len() as int)
    }

    /// An empty table.
    pub fn new() -> (r: RandomTable)
        ensures
            r.well_formed(),
            r.entries@.len() == 0,
    {
        RandomTable { entries: Vec::new(), total_weight: 0 }
    }

    /// Adds `kind` with `weight`; a weight below one adds nothing, as does
    /// one that would make the total overflow.
    pub fn add(self, kind: SpawnKind, weight: i32) -> (r: RandomTable)
        requires
            self.well_formed(),
        ensures
            r.well_formed(),
            weight > 0 && self.total_weight + weight <= i32::MAX ==> r.entries@ == self.entries@.push((kind, weight)),
            !(weight > 0 && self.total_weight + weight <= i32::MAX) ==> r.entries@ == self.entries@,
    {
        let mut t = self;
        if weight > 0 && t.total_weight <= i32::MAX - weight {
            let ghost before = t.entries@;
            t.entries.push((kind, weight));
            assert(forall|k: int| 0 <= k < before.len() ==> t.entries@[k] == before[k]);
            assert(Self::weight_prefix(t.entries@, before.len() as int) == Self::weight_prefix(before, before.len() as int)) by {
                Self::lemma_prefix_agree(before, t.entries@, before.len() as int);
            }
            t.total_weight = t.total_weight + weight;
        }
        t
    }

    /// Prefix sums depend only on the entries they cover.
    proof fn lemma_prefix_agree(a: Seq<(SpawnKind, i32)>, b: Seq<(SpawnKind, i32)>, n: int)
        requires
            0 <= n <= a.len(),
            n <= b.len(),
            forall|k: int| 0 <= k < n ==> a[k] == b[k],
        ensures
            Self::weight_prefix(a, n) == Self::weight_prefix(b, n),
        decreases n,
    {
        if n > 0 {
            Self::lemma_prefix_agree(a, b, n - 1);
        }
    }

    /// Prefix sums of positive weights grow.
    proof fn lemma_prefix_mono(e: Seq<(SpawnKind, i32)>, i: int, j: int)
        requires
            0 <= i <= j <= e.len(),
            forall|k: int| 0 <= k < e.len() ==> (#[trigger] e[k]).1 > 0,
        ensures
            Self::weight_prefix(e, i) <= Self::weight_prefix(e, j),
        decreases j - i,
    {
        if i < j {
            Self::lemma_prefix_mono(e, i, j - 1);
        }
    }

    /// A kind drawn with odds proportional to its weight; `None` exactly
    /// when the table is empty.
    pub fn roll(&self, rng: &mut RandomNumberGenerator) -> (r: Option<SpawnKind>)
        requires
            self.well_formed(),
        ensures
            r is None <==> self.entries@.len() == 0,
            r is Some ==> exists|k: int| 0 <= k < self.entries@.len() && (#[trigger] self.entries@[k]).0 == r->0,
    {
        if self.entries.len() == 0 {
            return None;
        }
        proof {
            Self::lemma_prefix_mono(self.entries@, 1, self.entries@.len() as int);
            assert(Self::weight_prefix(self.entries@, 0) == 0);
            assert(Self::weight_prefix(self.entries@, 1) == self.entries@[0].1);
        }
        if self.total_weight >= i32::MAX {
            return Some(self.entries[0].0);
        }
        let mut roll = roll_die(rng, self.total_weight) - 1;
        let mut index: usize = 0;
        while index < self.entries.len() - 1
            invariant
                self.well_formed(),
                self.entries@.len() > 0,
                index < self.entries@.len(),
                0 <= roll,
            decreases self.entries@.len() - index,
        {
            if roll < self.entries[index].1 {
                return Some(self.entries[index].0);
            }
            roll = roll - self.entries[index].1;
            index = index + 1;
        }
        Some(self.entries[index].0)
    }
}

/// The spawn table of a level at `depth`: rarer and stronger things grow
/// likelier deeper down.
pub fn room_table(map_depth: i32) -> (r: RandomTable)
    requires
        i32::MIN + 1 <= map_depth <= i32::MAX - 2,
    ensures
        r.well_formed(),
{
    RandomTable::new().add(SpawnKind::Goblin, 10).add(SpawnKind::Orc, 1 + map_depth).add(
        SpawnKind::HealthPotion,
        7,
    ).add(SpawnKind::FireballScroll, 2 + map_depth).add(SpawnKind::ConfusionScroll, 2 + map_depth).add(
        SpawnKind::MagicMissileScroll,
        4,
    ).add(SpawnKind::MagicMappingScroll, 2).add(SpawnKind::Dagger, 3).add(SpawnKind::Shield, 3).add(
        SpawnKind::Longsword,
        map_depth - 1,
    ).add(SpawnKind::TowerShield, map_depth - 1).add(SpawnKind::Rations, 10).add(
        SpawnKind::BearTrap,
        2,
    )
}

/// Picks what a room is stocked with: up to `1d7 + depth - 4` things, each
/// on its own tile of the room's floor (a tile is tried up to 20 times
/// before the thing is given up).
pub fn spawn_room(room: &Rect, map_depth: i32, rng: &mut RandomNumberGenerator) -> (r: Vec<(i32, i32, SpawnKind)>)
    requires
        room_fits(*room, 80, 43),
        i32::MIN + 1 <= map_depth <= i32::MAX - 2,
    ensures
        forall|k: int| 0 <= k < r@.len() ==> in_room(*room, (#[trigger] r@[k]).0 as int, r@[k].1 as int),
        forall|a: int, b: int| 0 <= a < b < r@.len() ==> (r@[a].0, r@[a].1) != (r@[b].0, r@[b].1),
        r@.len() <= if map_depth + 3 > 0 { map_depth + 3 } else { 0 },
{
    let spawn_table = room_table(map_depth);
    let num_spawns: i64 = roll_die(rng, MAX_MONSTERS + 3) as i64 + (map_depth as i64 - 1) - 3;
    let mut points: Vec<(i32, i32, SpawnKind)> = Vec::new();
    let mut i: i64 = 0;
    while i < num_spawns
        invariant
            room_fits(*room, 80, 43),
            spawn_table.well_formed(),
            0 <= i,
            num_spawns <= map_depth + 3,
            i <= num_spawns || num_spawns <= 0,
            num_spawns <= 0 ==> i == 0,
            points@.len() <= i,
            forall|k: int| 0 <= k < points@.len() ==> in_room(*room, (#[trigger] points@[k]).0 as int, points@[k].1 as int),
            forall|a: int, b: int| 0 <= a < b < points@.len() ==> (points@[a].0, points@[a].1) != (points@[b].0, points@[b].1),
        decreases num_spawns - i,
    {
        let mut added = false;
        let mut tries: i32 = 0;
        while !added && tries < 20
            invariant
                room_fits(*room, 80, 43),
                spawn_table.well_formed(),
                0 <= tries <= 20,
                points@.len() <= i + (if added { 1int } else { 0int }),
                forall|k: int| 0 <= k < points@.len() ==> in_room(*room, (#[trigger] points@[k]).0 as int, points@[k].1 as int),
                forall|a: int, b: int| 0 <= a < b < points@.len() ==> (points@[a].0, points@[a].1) != (points@[b].0, points@[b].1),
            decreases 20 - tries + (if added { 0int } else { 1int }),
        {
            let x = room.x1 + roll_die(rng, room.x2 - room.x1);
            let y = room.y1 + roll_die(rng, room.y2 - room.y1);
            let mut taken = false;
            let mut k: usize = 0;
            while k < points.len()
                invariant
                    k <= points@.len(),
                    !taken ==> forall|j: int| 0 <= j < k ==> (points@[j].0, points@[j].1) != (x, y),
                    taken ==> exists|j: int| 0 <= j < points@.len() && (points@[j].0, points@[j].1) == (x, y),
                decreases points@.len() - k,
            {
                if points[k].0 == x && points[k].1 == y {
                    taken = true;
                }
                k = k + 1;
            }
            if !taken {
                match spawn_table.roll(rng) {
                    Some(kind) => {
                        let ghost before = points@;
                        points.push((x, y, kind));
                        assert forall|a: int, b: int| 0 <= a < b < points@.len() implies (points@[a].0, points@[a].1) != (points@[b].0, points@[b].1) by {
                            if b == before.len() {
                                assert(points@[a] == before[a]);
                            } else {
                                assert(points@[a] == before[a] && points@[b] == before[b]);
                            }
                        }
                    },
                    None => {},
                }
                added = true;
            } else {
                tries = tries + 1;
            }
        }
        i = i + 1;
    }
    points
}

} // verus!
