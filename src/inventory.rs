use vstd::prelude::*;
use crate::components::{CombatStats, Entity, EquipmentSlot, Position};
use crate::damage_system::sat;
use crate::map::GameMap;

verus! {

/// Drinking a healing item: health rises by `amount` (held within `i32`),
/// capped at the maximum.
pub fn heal_with(stats: &mut CombatStats, amount: i32)
    ensures
        final(stats).hp == if sat(old(stats).hp + amount) < old(stats).max_hp {
            sat(old(stats).hp + amount)
        } else {
            old(stats).max_hp
        },
        final(stats).max_hp == old(stats).max_hp,
        final(stats).defense == old(stats).defense,
        final(stats).power == old(stats).power,
{
    let v: i64 = stats.hp as i64 + amount as i64;
    stats.hp = if v < i32::MIN as i64 {
        if i32::MIN < stats.max_hp { i32::MIN } else { stats.max_hp }
    } else if v < stats.max_hp as i64 {
        v as i32
    } else {
        stats.max_hp
    };
}

/// Whether a tile may be hit by an area effect: off the map's outer ring.
pub open spec fn blast_inner(map: GameMap, p: Position) -> bool {
    0 < p.x < map.width - 1 && 0 < p.y < map.height - 1
}

/// The entities standing on the tiles of `tiles` that an area effect may
/// hit, tile by tile.
pub open spec fn blast_targets(map: GameMap, tiles: Seq<Position>) -> Seq<Entity>
    decreases tiles.len(),
{
    if tiles.len() == 0 {
        Seq::empty()
    } else {
        let prev = blast_targets(map, tiles.drop_last());
        let p = tiles.last();
        if blast_inner(map, p) {
            prev + map.tile_content@[map.idx(p.x as int, p.y as int)]@
        } else {
            prev
        }
    }
}

/// The entities an item use affects: the user itself when nothing is aimed
/// at; the entities on the aimed tile; or, for an area effect, those on
/// every tile of `area` (the field of view of the blast) off the outer ring.
pub fn item_targets(map: &GameMap, user: Entity, target: Option<Position>, area: &Option<Vec<Position>>) -> (r:
    Vec<Entity>)
    requires
        map.well_formed(),
        target is Some ==> map.in_bounds(target->0.x as int, target->0.y as int),
    ensures
        target is None ==> r@ == seq![user],
        target is Some && area is None ==> r@ == map.tile_content@[map.idx(
            target->0.x as int,
            target->0.y as int,
        )]@,
        target is Some && area is Some ==> r@ == blast_targets(*map, area->0@),
{
    let mut targets: Vec<Entity> = Vec::new();
    match target {
        None => {
            targets.push(user);
            assert(targets@ =~= seq![user]);
        },
        Some(t) => match area {
            None => {
                let idx = map.xy_idx(t.x, t.y);
                targets = map.tile_content[idx].clone();
                assert(targets@ =~= map.tile_content@[idx as int]@);
            },
            Some(tiles) => {
                let mut k: usize = 0;
                while k < tiles.len()
                    invariant
                        map.well_formed(),
                        k <= tiles@.len(),
                        targets@ == blast_targets(*map, tiles@.subrange(0, k as int)),
                    decreases tiles@.len() - k,
                {
                    let p = tiles[k];
                    assert(tiles@.subrange(0, k as int + 1).drop_last() =~= tiles@.subrange(0, k as int));
                    if p.x > 0 && p.x < map.width - 1 && p.y > 0 && p.y < map.height - 1 {
                        let idx = map.xy_idx(p.x, p.y);
                        let content = &map.tile_content[idx];
                        let ghost before = targets@;
                        let mut j: usize = 0;
                        while j < content.len()
                            invariant
                                j <= content@.len(),
                                targets@ == before + content@.subrange(0, j as int),
                            decreases content@.len() - j,
                        {
                            targets.push(content[j]);
                            assert(content@.subrange(0, j as int + 1) =~= content@.subrange(0, j as int).push(content@[j as int]));
                            j = j + 1;
                        }
                        assert(content@.subrange(0, content@.len() as int) =~= content@);
                    }
                    k = k + 1;
                }
                assert(tiles@.subrange(0, tiles@.len() as int) =~= tiles@);
            },
        },
    }
    targets
}

/// An equipped item: the item, who wears it, and in which slot.
#[derive(PartialEq, Eq, Structural, Copy, Clone, Debug)]
pub struct EquippedItem {
    pub item: Entity,
    pub owner: Entity,
    pub slot: EquipmentSlot,
}

/// The items worn by `owner` in `slot`, in order.
pub open spec fn spec_to_unequip(s: Seq<EquippedItem>, owner: Entity, slot: EquipmentSlot) -> Seq<Entity>
    decreases s.len(),
{
    if s.len() == 0 {
        Seq::empty()
    } else {
        let prev = spec_to_unequip(s.drop_last(), owner, slot);
        if s.last().owner == owner && s.last().slot == slot {
            prev.push(s.last().item)
        } else {
            prev
        }
    }
}

/// The items to take off (back into the backpack) before `owner` equips
/// something in `slot`: whatever it already wears there.
pub fn items_to_unequip(equipped: &Vec<EquippedItem>, owner: Entity, slot: EquipmentSlot) -> (r: Vec<Entity>)
    ensures
        r@ == spec_to_unequip(equipped@, owner, slot),
{
    let mut out: Vec<Entity> = Vec::new();
    let mut k: usize = 0;
    while k < equipped.len()
        invariant
            k <= equipped@.len(),
            out@ == spec_to_unequip(equipped@.subrange(0, k as int), owner, slot),
        decreases equipped@.len() - k,
    {
        let e = equipped[k];
        assert(equipped@.subrange(0, k as int + 1).drop_last() =~= equipped@.subrange(0, k as int));
        if e.owner == owner && e.slot == slot {
            out.push(e.item);
        }
        k = k + 1;
    }
    assert(equipped@.subrange(0, equipped@.len() as int) =~= equipped@);
    out
}

} // verus!
