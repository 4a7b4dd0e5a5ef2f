use vstd::prelude::*;
use crate::components::{HungerClock, HungerState};
use crate::state::RunState;

verus! {

/// Turns a hunger state lasts before it worsens.
pub const HUNGER_STAGE_TURNS: i32 = 200;

/// Whether an actor's clock runs in this phase: the player's on the
/// player's turn, everyone else's on the monsters' turn.
pub open spec fn clock_runs(run_state: RunState, is_player: bool) -> bool {
    (run_state == RunState::PlayerTurn && is_player) || (run_state == RunState::MonsterTurn
        && !is_player)
}

/// One tick of a hunger clock. When it runs, its duration drops by one (not
/// below the smallest `i32`); on falling below one the state worsens and the
/// duration restarts at 200, except when already starving, where the actor
/// suffers one point of damage instead. Returns whether that damage is due.
pub fn hunger_tick(clock: &mut HungerClock, run_state: RunState, is_player: bool) -> (starving_hit: bool)
    ensures
        !clock_runs(run_state, is_player) ==> *final(clock) == *old(clock) && !starving_hit,
        clock_runs(run_state, is_player) ==> {
            let d = if old(clock).duration > i32::MIN {
                old(clock).duration - 1
            } else {
                old(clock).duration as int
            };
            if d >= 1 {
                final(clock).state == old(clock).state && final(clock).duration == d && !starving_hit
            } else {
                match old(clock).state {
                    HungerState::WellFed => final(clock).state == HungerState::Normal
                        && final(clock).duration == 200 && !starving_hit,
                    HungerState::Normal => final(clock).state == HungerState::Hungry
                        && final(clock).duration == 200 && !starving_hit,
                    HungerState::Hungry => final(clock).state == HungerState::Starving
                        && final(clock).duration == 200 && !starving_hit,
                    HungerState::Starving => final(clock).state == HungerState::Starving
                        && final(clock).duration == d && starving_hit,
                }
            }
        },
{
    let proceed = match run_state {
        RunState::PlayerTurn => is_player,
        RunState::MonsterTurn => !is_player,
        _ => false,
    };
    if !proceed {
        return false;
    }
    if clock.duration > i32::MIN {
        clock.duration = clock.duration - 1;
    }
    if clock.duration < 1 {
        match clock.state {
            HungerState::WellFed => {
                clock.state = HungerState::Normal;
                clock.duration = HUNGER_STAGE_TURNS;
                false
            },
            HungerState::Normal => {
                clock.state = HungerState::Hungry;
                clock.duration = HUNGER_STAGE_TURNS;
                false
            },
            HungerState::Hungry => {
                clock.state = HungerState::Starving;
                clock.duration = HUNGER_STAGE_TURNS;
                false
            },
            HungerState::Starving => true,
        }
    } else {
        false
    }
}

/// Eating: the actor becomes well fed for 200 turns.
pub fn eat(clock: &mut HungerClock)
    ensures
        final(clock).state == HungerState::WellFed,
        final(clock).duration == 200,
{
    clock.state = HungerState::WellFed;
    clock.duration = HUNGER_STAGE_TURNS;
}

} // verus!
