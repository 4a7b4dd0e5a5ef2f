use vstd::prelude::*;
use crate::components::{Entity, Position};
use crate::map::GameMap;

verus! {

/// An entity that fires when something enters its tile.
#[derive(PartialEq, Eq, Structural, Copy, Clone, Debug)]
pub struct Trap {
    pub entity: Entity,
    /// Damage dealt to whoever enters, if any.
    pub damage: Option<i32>,
    /// Whether the trap is used up after firing.
    pub single_activation: bool,
}

/// The first trap of `traps` that is entity `e`, if any.
pub open spec fn spec_find_trap(traps: Seq<Trap>, e: Entity) -> Option<Trap>
    decreases traps.len(),
{
    if traps.len() == 0 {
        None
    } else if traps[0].entity == e {
        Some(traps[0])
    } else {
        spec_find_trap(traps.drop_first(), e)
    }
}

/// The traps that fire on `mover` among the entities `content` of its tile:
/// every trap there other than the mover itself, in tile order.
pub open spec fn spec_fired(content: Seq<Entity>, mover: Entity, traps: Seq<Trap>) -> Seq<Trap>
    decreases content.len(),
{
    if content.len() == 0 {
        Seq::empty()
    } else {
        let prev = spec_fired(content.drop_last(), mover, traps);
        let e = content.last();
        if e != mover && spec_find_trap(traps, e) is Some {
            prev.push(spec_find_trap(traps, e)->0)
        } else {
            prev
        }
    }
}

fn find_trap(traps: &Vec<Trap>, e: Entity) -> (r: Option<Trap>)
    ensures
        r == spec_find_trap(traps@, e),
{
    let mut k: usize = 0;
    assert(traps@.subrange(0, traps@.len() as int) =~= traps@);
    while k < traps.len()
        invariant
            k <= traps@.len(),
            spec_find_trap(traps@.subrange(k as int, traps@.len() as int), e) == spec_find_trap(traps@, e),
        decreases traps@.len() - k,
    {
        let ghost rest = traps@.subrange(k as int, traps@.len() as int);
        assert(rest.drop_first() =~= traps@.subrange(k as int + 1, traps@.len() as int));
        assert(rest[0] == traps@[k as int]);
        if traps[k].entity == e {
            return Some(traps[k]);
        }
        k = k + 1;
    }
    assert(traps@.subrange(k as int, traps@.len() as int) =~= Seq::<Trap>::empty());
    None
}

/// The traps that fire when `mover` has moved onto `pos`.
pub fn fired_traps(map: &GameMap, mover: Entity, pos: Position, traps: &Vec<Trap>) -> (r: Vec<Trap>)
    requires
        map.well_formed(),
        map.in_bounds(pos.x as int, pos.y as int),
    ensures
        r@ == spec_fired(map.tile_content@[map.idx(pos.x as int, pos.y as int)]@, mover, traps@),
{
    let idx = map.xy_idx(pos.x, pos.y);
    let content = &map.tile_content[idx];
    let mut out: Vec<Trap> = Vec::new();
    let mut k: usize = 0;
    while k < content.len()
        invariant
            k <= content@.len(),
            out@ == spec_fired(content@.subrange(0, k as int), mover, traps@),
        decreases content@.len() - k,
    {
        let e = content[k];
        assert(content@.subrange(0, k as int + 1).drop_last() =~= content@.subrange(0, k as int));
        if e != mover {
            match find_trap(traps, e) {
                Some(t) => out.push(t),
                None => {},
            }
        }
        k = k + 1;
    }
    assert(content@.subrange(0, content@.len() as int) =~= content@);
    out
}

} // verus!
