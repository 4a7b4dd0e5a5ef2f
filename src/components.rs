use vstd::prelude::*;

verus! {

/// Identity of an entity in the world: an index and the generation of that index.
#[derive(PartialEq, Eq, Structural, Copy, Clone, Debug)]
pub struct Entity {
    pub id: u32,
    pub gen: i32,
}

/// Integer tile coordinates of an entity.
#[derive(PartialEq, Eq, Structural, Copy, Clone, Debug)]
pub struct Position {
    pub x: i32,
    pub y: i32,
}

/// Health and combat strength of an actor.
#[derive(PartialEq, Eq, Structural, Copy, Clone, Debug)]
pub struct CombatStats {
    pub max_hp: i32,
    pub hp: i32,
    pub defense: i32,
    pub power: i32,
}

} // verus!

verus! {

/// What an actor can currently see: the visible tiles, the sight radius, and
/// whether the visible set must be recomputed before it is used.
#[derive(Clone, Debug)]
pub struct Viewshed {
    pub visible_tiles: Vec<Position>,
    pub range: i32,
    pub dirty: bool,
}

} // verus!

verus! {

/// How fed an actor is.
#[derive(PartialEq, Eq, Structural, Copy, Clone, Debug)]
pub enum HungerState {
    WellFed,
    Normal,
    Hungry,
    Starving,
}

/// An actor's hunger state and the turns left before it worsens.
#[derive(PartialEq, Eq, Structural, Copy, Clone, Debug)]
pub struct HungerClock {
    pub state: HungerState,
    pub duration: i32,
}

/// The slot an equippable item occupies.
#[derive(PartialEq, Eq, Structural, Copy, Clone, Debug)]
pub enum EquipmentSlot {
    Melee,
    Shield,
}

/// The damage an entity suffers this tick, one amount per hit.
#[derive(Clone, Debug)]
pub struct SuffersDamage {
    pub amount: Vec<i32>,
}

impl SuffersDamage {
    /// Records a hit of `amount` on `victim`: appended to its pending damage
    /// if it has some, else a new entry holding that one hit.
    pub fn new_damage(store: &mut Vec<(crate::components::Entity, SuffersDamage)>, victim: Entity, amount: i32)
        ensures
            (exists|k: int| 0 <= k < old(store)@.len() && (#[trigger] old(store)@[k]).0 == victim)
                ==> {
                let k = choose|k: int| 0 <= k < old(store)@.len() && (#[trigger] old(store)@[k]).0 == victim && forall|j: int| 0 <= j < k ==> old(store)@[j].0 != victim;
                &&& final(store)@.len() == old(store)@.len()
                &&& final(store)@[k].0 == victim
                &&& final(store)@[k].1.amount@ == old(store)@[k].1.amount@.push(amount)
                &&& forall|j: int| 0 <= j < old(store)@.len() && j != k ==> final(store)@[j] == old(store)@[j]
            },
            !(exists|k: int| 0 <= k < old(store)@.len() && (#[trigger] old(store)@[k]).0 == victim)
                ==> {
                &&& final(store)@.len() == old(store)@.len() + 1
                &&& final(store)@.last().0 == victim
                &&& final(store)@.last().1.amount@ == seq![amount]
                &&& forall|j: int| 0 <= j < old(store)@.len() ==> final(store)@[j] == old(store)@[j]
            },
    {
        let mut k: usize = 0;
        while k < store.len()
            invariant
                k <= store@.len(),
                *store == *old(store),
                forall|j: int| 0 <= j < k ==> store@[j].0 != victim,
            decreases store@.len() - k,
        {
            if store[k].0 == victim {
                let ghost kk = k as int;
                let mut amounts = store[k].1.amount.clone();
                assert(amounts@ =~= store@[kk].1.amount@);
                amounts.push(amount);
                store.set(k, (victim, SuffersDamage { amount: amounts }));
                assert(forall|j: int| 0 <= j < kk ==> old(store)@[j].0 != victim);
                assert(old(store)@[kk].0 == victim);
                return;
            }
            k = k + 1;
        }
        store.push((victim, SuffersDamage { amount: vec![amount] }));
    }
}

} // verus!
