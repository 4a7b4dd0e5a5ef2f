use vstd::prelude::*;
use crate::components::{CombatStats, Entity};

verus! {

/// `v` held within the range of `i32`.
pub open spec fn sat(v: int) -> i32 {
    if v < i32::MIN {
        i32::MIN
    } else if v > i32::MAX {
        i32::MAX
    } else {
        v as i32
    }
}

/// Health after taking the hits of `amounts` one after another, each
/// subtraction held within the range of `i32`.
pub open spec fn after_hits(hp: i32, amounts: Seq<i32>) -> i32
    decreases amounts.len(),
{
    if amounts.len() == 0 {
        hp
    } else {
        sat(after_hits(hp, amounts.drop_last()) - amounts.last())
    }
}

/// Applies this tick's pending hits to an actor's health; nothing else changes.
pub fn apply_damage(stats: &mut CombatStats, amounts: &Vec<i32>)
    ensures
        final(stats).hp == after_hits(old(stats).hp, amounts@),
        final(stats).max_hp == old(stats).max_hp,
        final(stats).defense == old(stats).defense,
        final(stats).power == old(stats).power,
{
    let mut k: usize = 0;
    while k < amounts.len()
        invariant
            k <= amounts@.len(),
            stats.hp == after_hits(old(stats).hp, amounts@.subrange(0, k as int)),
            stats.max_hp == old(stats).max_hp,
            stats.defense == old(stats).defense,
            stats.power == old(stats).power,
        decreases amounts@.len() - k,
    {
        assert(amounts@.subrange(0, k as int + 1).drop_last() =~= amounts@.subrange(0, k as int));
        let v: i64 = stats.hp as i64 - amounts[k] as i64;
        stats.hp = if v < i32::MIN as i64 {
            i32::MIN
        } else if v > i32::MAX as i64 {
            i32::MAX
        } else {
            v as i32
        };
        k = k + 1;
    }
    assert(amounts@.subrange(0, amounts@.len() as int) =~= amounts@);
}

/// The bonuses of `bonuses` that belong to `owner`, added one after
/// another, each sum held within the range of `i32`.
pub open spec fn bonus_of(bonuses: Seq<(Entity, i32)>, owner: Entity) -> i32
    decreases bonuses.len(),
{
    if bonuses.len() == 0 {
        0
    } else {
        let prev = bonus_of(bonuses.drop_last(), owner);
        if bonuses.last().0 == owner {
            sat(prev + bonuses.last().1)
        } else {
            prev
        }
    }
}

/// The total equipment bonus of `owner`: the sum of the bonuses of the
/// items it has equipped.
pub fn equipment_bonus(bonuses: &Vec<(Entity, i32)>, owner: Entity) -> (r: i32)
    ensures
        r == bonus_of(bonuses@, owner),
{
    let mut total: i32 = 0;
    let mut k: usize = 0;
    while k < bonuses.len()
        invariant
            k <= bonuses@.len(),
            total == bonus_of(bonuses@.subrange(0, k as int), owner),
        decreases bonuses@.len() - k,
    {
        let (who, amount) = bonuses[k];
        assert(bonuses@.subrange(0, k as int + 1).drop_last() =~= bonuses@.subrange(0, k as int));
        if who == owner {
            let v: i64 = total as i64 + amount as i64;
            total = if v < i32::MIN as i64 {
                i32::MIN
            } else if v > i32::MAX as i64 {
                i32::MAX
            } else {
                v as i32
            };
        }
        k = k + 1;
    }
    assert(bonuses@.subrange(0, bonuses@.len() as int) =~= bonuses@);
    total
}

/// The damage of a melee hit: attack power plus equipment bonus, less
/// defense plus equipment bonus, never below zero.
pub fn melee_damage(power: i32, power_bonus: i32, defense: i32, defense_bonus: i32) -> (r: i32)
    ensures
        r == if (power + power_bonus) - (defense + defense_bonus) > 0 {
            sat((power + power_bonus) - (defense + defense_bonus))
        } else {
            0
        },
{
    let v: i64 = (power as i64 + power_bonus as i64) - (defense as i64 + defense_bonus as i64);
    if v <= 0 {
        0
    } else if v > i32::MAX as i64 {
        i32::MAX
    } else {
        v as i32
    }
}

/// What the death check needs to know of an actor with health.
#[derive(PartialEq, Eq, Structural, Copy, Clone, Debug)]
pub struct Vitals {
    pub entity: Entity,
    pub hp: i32,
    pub is_player: bool,
}

/// The non-player actors with health below one, in order.
pub open spec fn spec_dead(v: Seq<Vitals>) -> Seq<Entity>
    decreases v.len(),
{
    if v.len() == 0 {
        Seq::empty()
    } else {
        let prev = spec_dead(v.drop_last());
        if v.last().hp < 1 && !v.last().is_player {
            prev.push(v.last().entity)
        } else {
            prev
        }
    }
}

/// The death check after a tick: the actors to delete (every non-player with
/// health below one) and whether the player has died, which forces GameOver.
pub fn delete_the_dead(vitals: &Vec<Vitals>) -> (r: (Vec<Entity>, bool))
    ensures
        r.0@ == spec_dead(vitals@),
        r.1 == exists|k: int| 0 <= k < vitals@.len() && (#[trigger] vitals@[k]).is_player && vitals@[k].hp < 1,
{
    let mut dead: Vec<Entity> = Vec::new();
    let mut player_dead = false;
    let mut k: usize = 0;
    while k < vitals.len()
        invariant
            k <= vitals@.len(),
            dead@ == spec_dead(vitals@.subrange(0, k as int)),
            player_dead == exists|j: int| 0 <= j < k && (#[trigger] vitals@[j]).is_player && vitals@[j].hp < 1,
        decreases vitals@.len() - k,
    {
        let v = vitals[k];
        assert(vitals@.subrange(0, k as int + 1).drop_last() =~= vitals@.subrange(0, k as int));
        if v.hp < 1 {
            if v.is_player {
                player_dead = true;
            } else {
                dead.push(v.entity);
            }
        }
        k = k + 1;
    }
    assert(vitals@.subrange(0, vitals@.len() as int) =~= vitals@);
    (dead, player_dead)
}

} // verus!
