use vstd::prelude::*;
use crate::components::{CombatStats, Entity, Position};
use crate::rect::half_toward_zero;
use crate::gui::{GameOverResult, ItemMenuResult, MainMenuResult, MainMenuSelection};

verus! {

/// The phase of the turn state machine; exactly one is active at a time.
#[derive(PartialEq, Eq, Structural, Copy, Clone, Debug)]
pub enum RunState {
    MapGeneration,
    AwaitingInput,
    PreRun,
    PlayerTurn,
    MonsterTurn,
    ShowInventory,
    ShowDropItem,
    ShowRemoveItem,
    ShowTargeting { range: i32, item: Entity },
    NextLevel,
    MainMenu { menu_selection: MainMenuSelection },
    SaveGame,
    GameOver,
    MagicMapReveal { row: i32 },
}

/// One decoded player command.
#[derive(PartialEq, Eq, Structural, Copy, Clone, Debug)]
pub enum PlayerCommand {
    NoCommand,
    Move { dx: i32, dy: i32 },
    Wait,
    PickUp,
    OpenInventory,
    OpenDrop,
    OpenRemove,
    Descend,
    Save,
}

/// What was observed during one tick, as far as the phase decision needs it.
#[allow(inconsistent_fields)]
#[derive(PartialEq, Eq, Structural, Copy, Clone, Debug)]
pub enum TickEvent {
    /// Nothing relevant happened (no key, no click).
    Idle,
    /// The map-generation display has finished.
    GenerationShown,
    /// A command read while awaiting input; `on_stairs` tells whether the
    /// player stands on a down staircase.
    Command { command: PlayerCommand, on_stairs: bool },
    /// An item menu answered; `ranged` is the range of the chosen item if it
    /// must be aimed.
    ItemMenu { result: ItemMenuResult, item: Option<Entity>, ranged: Option<i32> },
    /// The targeting crosshair answered.
    Target { result: ItemMenuResult, target: Option<Position> },
    /// The main menu answered.
    Menu { result: MainMenuResult },
    /// The game-over screen answered.
    GameOverMenu { result: GameOverResult },
}

/// Work that the phase decision asks the caller to carry out.
#[derive(PartialEq, Eq, Structural, Copy, Clone, Debug)]
pub enum TickAction {
    Nothing,
    MovePlayer { dx: i32, dy: i32 },
    SkipTurn,
    PickUp,
    UseItem { item: Entity, target: Option<Position> },
    DropItem { item: Entity },
    RemoveItem { item: Entity },
    GotoNextLevel,
    LoadGame,
    SaveGame,
    Quit,
    GameOverCleanup,
    RevealRow { row: i32 },
}

/// What a level change needs to know of an entity: whether it is the
/// player, and who carries it in a backpack or has it equipped.
#[derive(PartialEq, Eq, Structural, Copy, Clone, Debug)]
pub struct EntityInfo {
    pub entity: Entity,
    pub is_player: bool,
    pub backpack_owner: Option<Entity>,
    pub equipped_owner: Option<Entity>,
}

/// Whether an entity survives a level change: it is the player, or the
/// player carries it or has it equipped.
pub open spec fn kept_on_level_change(e: EntityInfo, player: Entity) -> bool {
    e.is_player || e.backpack_owner == Some(player) || e.equipped_owner == Some(player)
}

/// The entities that a level change deletes, in order.
pub open spec fn spec_to_remove(s: Seq<EntityInfo>, player: Entity) -> Seq<Entity>
    decreases s.len(),
{
    if s.len() == 0 {
        Seq::empty()
    } else {
        let prev = spec_to_remove(s.drop_last(), player);
        if kept_on_level_change(s.last(), player) {
            prev
        } else {
            prev.push(s.last().entity)
        }
    }
}

/// The entities to delete when the player descends: all but the player,
/// what it carries and what it has equipped.
pub fn entities_to_remove_on_level_change(entities: &Vec<EntityInfo>, player: Entity) -> (r: Vec<Entity>)
    ensures
        r@ == spec_to_remove(entities@, player),
        (forall|a: int, b: int|
            0 <= a < b < entities@.len() ==> entities@[a].entity != entities@[b].entity)
            ==> r@.no_duplicates(),
{
    let mut to_delete: Vec<Entity> = Vec::new();
    let mut k: usize = 0;
    while k < entities.len()
        invariant
            k <= entities@.len(),
            to_delete@ == spec_to_remove(entities@.subrange(0, k as int), player),
            forall|i: int|
                0 <= i < to_delete@.len() ==> exists|j: int|
                    0 <= j < k && entities@[j].entity == #[trigger] to_delete@[i],
            (forall|a: int, b: int|
                0 <= a < b < entities@.len() ==> entities@[a].entity != entities@[b].entity)
                ==> to_delete@.no_duplicates(),
        decreases entities@.len() - k,
    {
        let e = entities[k];
        assert(entities@.subrange(0, k as int + 1).drop_last() =~= entities@.subrange(0, k as int));
        let mut should_delete = true;
        if e.is_player {
            should_delete = false;
        }
        match e.backpack_owner {
            Some(owner) => {
                if owner == player {
                    should_delete = false;
                }
            },
            None => {},
        }
        match e.equipped_owner {
            Some(owner) => {
                if owner == player {
                    should_delete = false;
                }
            },
            None => {},
        }
        if should_delete {
            let ghost prev = to_delete@;
            to_delete.push(e.entity);
            assert forall|i: int| 0 <= i < to_delete@.len() implies exists|j: int|
                0 <= j < k + 1 && entities@[j].entity == #[trigger] to_delete@[i] by {
                if i < prev.len() {
                    assert(to_delete@[i] == prev[i]);
                } else {
                    assert(entities@[k as int].entity == to_delete@[i]);
                }
            }
            proof {
                if forall|a: int, b: int|
                    0 <= a < b < entities@.len() ==> entities@[a].entity != entities@[b].entity {
                    assert forall|a: int, b: int| 0 <= a < b < to_delete@.len() implies to_delete@[a]
                        != to_delete@[b] by {
                        if b == prev.len() {
                            assert(to_delete@[a] == prev[a]);
                            let j = choose|j: int| 0 <= j < k && entities@[j].entity == #[trigger] prev[a];
                            assert(entities@[j].entity != entities@[k as int].entity);
                        } else {
                            assert(to_delete@[a] == prev[a] && to_delete@[b] == prev[b]);
                        }
                    }
                }
            }
        }
        k = k + 1;
    }
    assert(entities@.subrange(0, entities@.len() as int) =~= entities@);
    to_delete
}

/// An entity is deleted by a level change exactly when it is not kept.
pub proof fn lemma_level_change_keeps_exactly(s: Seq<EntityInfo>, player: Entity, e: Entity)
    requires
        forall|a: int, b: int| 0 <= a < b < s.len() ==> s[a].entity != s[b].entity,
    ensures
        spec_to_remove(s, player).contains(e) <==> exists|k: int|
            0 <= k < s.len() && (#[trigger] s[k]).entity == e && !kept_on_level_change(s[k], player),
    decreases s.len(),
{
    if s.len() > 0 {
        let t = s.drop_last();
        lemma_level_change_keeps_exactly(t, player, e);
        let prev = spec_to_remove(t, player);
        if spec_to_remove(s, player).contains(e) {
            if !prev.contains(e) {
                assert(s[s.len() - 1].entity == e);
            } else {
                let k = choose|k: int| 0 <= k < t.len() && (#[trigger] t[k]).entity == e && !kept_on_level_change(t[k], player);
                assert(s[k] == t[k]);
            }
        }
        if exists|k: int| 0 <= k < s.len() && (#[trigger] s[k]).entity == e && !kept_on_level_change(s[k], player) {
            let k = choose|k: int| 0 <= k < s.len() && (#[trigger] s[k]).entity == e && !kept_on_level_change(s[k], player);
            if k < s.len() - 1 {
                assert(t[k] == s[k]);
                assert(prev.contains(e));
                if !kept_on_level_change(s.last(), player) {
                    assert(spec_to_remove(s, player) == prev.push(s.last().entity));
                    assert(spec_to_remove(s, player)[prev.len() as int - 1 + 0] == prev[prev.len() - 1]);
                    let i = choose|i: int| 0 <= i < prev.len() && prev[i] == e;
                    assert(spec_to_remove(s, player)[i] == e);
                }
            } else {
                assert(spec_to_remove(s, player) == prev.push(e));
                assert(spec_to_remove(s, player)[prev.len() as int] == e);
            }
        }
    }
}

/// Healing on arrival at a new level: at least half the maximum health.
pub fn heal_on_descent(stats: &mut CombatStats)
    ensures
        final(stats).hp == if old(stats).hp >= half_toward_zero(old(stats).max_hp as int) {
            old(stats).hp as int
        } else {
            half_toward_zero(old(stats).max_hp as int)
        },
        final(stats).max_hp == old(stats).max_hp,
        final(stats).defense == old(stats).defense,
        final(stats).power == old(stats).power,
{
    let half = if stats.max_hp >= 0 {
        stats.max_hp / 2
    } else {
        -((-(stats.max_hp as i64)) / 2) as i32
    };
    if stats.hp < half {
        stats.hp = half;
    }
}

/// The systems of the per-tick pipeline.
#[derive(PartialEq, Eq, Structural, Copy, Clone, Debug)]
pub enum PipelineStage {
    Visibility,
    MonsterAi,
    Triggers,
    MapIndexing,
    MeleeCombat,
    Damage,
    ItemCollection,
    ItemDrop,
    ItemUse,
    ItemRemove,
    Hunger,
    ParticleSpawn,
    Maintenance,
}

/// The fixed order in which a pipeline run executes the systems. Monster
/// decisions come before the spatial index is refreshed, so they see the
/// blocking state left by the previous tick.
pub open spec fn spec_pipeline() -> Seq<PipelineStage> {
    seq![
        PipelineStage::Visibility,
        PipelineStage::MonsterAi,
        PipelineStage::Triggers,
        PipelineStage::MapIndexing,
        PipelineStage::MeleeCombat,
        PipelineStage::Damage,
        PipelineStage::ItemCollection,
        PipelineStage::ItemDrop,
        PipelineStage::ItemUse,
        PipelineStage::ItemRemove,
        PipelineStage::Hunger,
        PipelineStage::ParticleSpawn,
        PipelineStage::Maintenance,
    ]
}

/// The systems of one pipeline run, in order.
pub fn pipeline() -> (r: Vec<PipelineStage>)
    ensures
        r@ == spec_pipeline(),
{
    let r = vec![
        PipelineStage::Visibility,
        PipelineStage::MonsterAi,
        PipelineStage::Triggers,
        PipelineStage::MapIndexing,
        PipelineStage::MeleeCombat,
        PipelineStage::Damage,
        PipelineStage::ItemCollection,
        PipelineStage::ItemDrop,
        PipelineStage::ItemUse,
        PipelineStage::ItemRemove,
        PipelineStage::Hunger,
        PipelineStage::ParticleSpawn,
        PipelineStage::Maintenance,
    ];
    assert(r@ =~= spec_pipeline());
    r
}

/// Monster decisions run before the spatial index refresh, which runs
/// before melee resolution; each system runs once per pipeline run.
pub proof fn lemma_pipeline_order()
    ensures
        spec_pipeline().no_duplicates(),
        forall|i: int, j: int|
            0 <= i < spec_pipeline().len() && 0 <= j < spec_pipeline().len() && spec_pipeline()[i]
                == PipelineStage::MonsterAi && spec_pipeline()[j] == PipelineStage::MapIndexing
                ==> i < j,
        forall|i: int, j: int|
            0 <= i < spec_pipeline().len() && 0 <= j < spec_pipeline().len() && spec_pipeline()[i]
                == PipelineStage::MapIndexing && spec_pipeline()[j] == PipelineStage::MeleeCombat
                ==> i < j,
{
    let p = spec_pipeline();
    assert(p.len() == 13);
    assert(p[0] == PipelineStage::Visibility && p[1] == PipelineStage::MonsterAi && p[2]
        == PipelineStage::Triggers && p[3] == PipelineStage::MapIndexing && p[4]
        == PipelineStage::MeleeCombat && p[5] == PipelineStage::Damage && p[6]
        == PipelineStage::ItemCollection && p[7] == PipelineStage::ItemDrop && p[8]
        == PipelineStage::ItemUse && p[9] == PipelineStage::ItemRemove && p[10]
        == PipelineStage::Hunger && p[11] == PipelineStage::ParticleSpawn && p[12]
        == PipelineStage::Maintenance);
}

/// Whether a tick in this phase runs the system pipeline.
pub open spec fn spec_runs_pipeline(s: RunState) -> bool {
    s == RunState::PreRun || s == RunState::AwaitingInput || s == RunState::PlayerTurn
        || s == RunState::MonsterTurn
}

/// The next phase and action chosen from a command read in `AwaitingInput`.
pub open spec fn spec_command(command: PlayerCommand, on_stairs: bool) -> (RunState, TickAction) {
    match command {
        PlayerCommand::NoCommand => (RunState::AwaitingInput, TickAction::Nothing),
        PlayerCommand::Move { dx, dy } => (RunState::PlayerTurn, TickAction::MovePlayer { dx, dy }),
        PlayerCommand::Wait => (RunState::PlayerTurn, TickAction::SkipTurn),
        PlayerCommand::PickUp => (RunState::PlayerTurn, TickAction::PickUp),
        PlayerCommand::OpenInventory => (RunState::ShowInventory, TickAction::Nothing),
        PlayerCommand::OpenDrop => (RunState::ShowDropItem, TickAction::Nothing),
        PlayerCommand::OpenRemove => (RunState::ShowRemoveItem, TickAction::Nothing),
        PlayerCommand::Descend => if on_stairs {
            (RunState::NextLevel, TickAction::Nothing)
        } else {
            (RunState::AwaitingInput, TickAction::Nothing)
        },
        PlayerCommand::Save => (RunState::SaveGame, TickAction::Nothing),
    }
}

/// The transition table of the phase machine, before the death rule.
pub open spec fn spec_decide(s: RunState, e: TickEvent, map_revealed: bool, map_height: i32) -> (
    RunState,
    TickAction,
) {
    let stay = (s, TickAction::Nothing);
    match s {
        RunState::MapGeneration => match e {
            TickEvent::GenerationShown => (RunState::PreRun, TickAction::Nothing),
            _ => stay,
        },
        RunState::PreRun => (RunState::AwaitingInput, TickAction::Nothing),
        RunState::AwaitingInput => match e {
            TickEvent::Command { command, on_stairs } => spec_command(command, on_stairs),
            _ => stay,
        },
        RunState::PlayerTurn => if map_revealed {
            (RunState::MagicMapReveal { row: 0 }, TickAction::Nothing)
        } else {
            (RunState::MonsterTurn, TickAction::Nothing)
        },
        RunState::MonsterTurn => (RunState::AwaitingInput, TickAction::Nothing),
        RunState::ShowInventory => match e {
            TickEvent::ItemMenu { result, item, ranged } => match result {
                ItemMenuResult::Cancel => (RunState::AwaitingInput, TickAction::Nothing),
                ItemMenuResult::NoResponse => stay,
                ItemMenuResult::Selected => match item {
                    None => stay,
                    Some(it) => match ranged {
                        Some(range) => (
                            RunState::ShowTargeting { range, item: it },
                            TickAction::Nothing,
                        ),
                        None => (
                            RunState::PlayerTurn,
                            TickAction::UseItem { item: it, target: None },
                        ),
                    },
                },
            },
            _ => stay,
        },
        RunState::ShowDropItem => match e {
            TickEvent::ItemMenu { result, item, ranged } => match result {
                ItemMenuResult::Cancel => (RunState::AwaitingInput, TickAction::Nothing),
                ItemMenuResult::NoResponse => stay,
                ItemMenuResult::Selected => match item {
                    None => stay,
                    Some(it) => (RunState::PlayerTurn, TickAction::DropItem { item: it }),
                },
            },
            _ => stay,
        },
        RunState::ShowRemoveItem => match e {
            TickEvent::ItemMenu { result, item, ranged } => match result {
                ItemMenuResult::Cancel => (RunState::AwaitingInput, TickAction::Nothing),
                ItemMenuResult::NoResponse => stay,
                ItemMenuResult::Selected => match item {
                    None => stay,
                    Some(it) => (RunState::PlayerTurn, TickAction::RemoveItem { item: it }),
                },
            },
            _ => stay,
        },
        RunState::ShowTargeting { range, item } => match e {
            TickEvent::Target { result, target } => match result {
                ItemMenuResult::Cancel => (RunState::AwaitingInput, TickAction::Nothing),
                ItemMenuResult::NoResponse => stay,
                ItemMenuResult::Selected => match target {
                    None => stay,
                    Some(p) => (
                        RunState::PlayerTurn,
                        TickAction::UseItem { item, target: Some(p) },
                    ),
                },
            },
            _ => stay,
        },
        RunState::NextLevel => (RunState::PreRun, TickAction::GotoNextLevel),
        RunState::MainMenu { menu_selection } => match e {
            TickEvent::Menu { result } => match result {
                MainMenuResult::NoSelection { selected } => (
                    RunState::MainMenu { menu_selection: selected },
                    TickAction::Nothing,
                ),
                MainMenuResult::Selected { selected } => match selected {
                    MainMenuSelection::NewGame => (RunState::PreRun, TickAction::Nothing),
                    MainMenuSelection::LoadGame => (RunState::AwaitingInput, TickAction::LoadGame),
                    MainMenuSelection::Quit => (s, TickAction::Quit),
                },
            },
            _ => stay,
        },
        RunState::SaveGame => (
            RunState::MainMenu { menu_selection: MainMenuSelection::Quit },
            TickAction::SaveGame,
        ),
        RunState::GameOver => match e {
            TickEvent::GameOverMenu { result } => match result {
                GameOverResult::NoSelection => stay,
                GameOverResult::QuitToMenu => (
                    RunState::MainMenu { menu_selection: MainMenuSelection::NewGame },
                    TickAction::GameOverCleanup,
                ),
            },
            _ => stay,
        },
        RunState::MagicMapReveal { row } => if row + 1 >= map_height {
            (RunState::MonsterTurn, TickAction::RevealRow { row })
        } else {
            (RunState::MagicMapReveal { row: (row + 1) as i32 }, TickAction::RevealRow { row })
        },
    }
}

/// The phase after a tick: the table, overridden by GameOver when the
/// player's health was found at or below zero after the pipeline.
pub open spec fn spec_next_state(
    s: RunState,
    e: TickEvent,
    map_revealed: bool,
    map_height: i32,
    player_hp: i32,
) -> RunState {
    if player_hp <= 0 {
        RunState::GameOver
    } else {
        spec_decide(s, e, map_revealed, map_height).0
    }
}

/// From any phase but GameOver, the phase machine enters GameOver exactly
/// when the player's health was observed at or below zero; the transition
/// table alone never leads there.
pub proof fn lemma_game_over_iff_dead(
    s: RunState,
    e: TickEvent,
    map_revealed: bool,
    map_height: i32,
    player_hp: i32,
)
    requires
        s != RunState::GameOver,
    ensures
        spec_next_state(s, e, map_revealed, map_height, player_hp) == RunState::GameOver
            <==> player_hp <= 0,
        spec_decide(s, e, map_revealed, map_height).0 != RunState::GameOver,
{
}

/// Whether a tick in phase `state` runs the system pipeline before deciding.
pub fn runs_pipeline(state: RunState) -> (r: bool)
    ensures
        r == spec_runs_pipeline(state),
{
    match state {
        RunState::PreRun | RunState::AwaitingInput | RunState::PlayerTurn
        | RunState::MonsterTurn => true,
        _ => false,
    }
}

/// The phase and action that a command read in `AwaitingInput` leads to.
/// Descending is legal only on a down staircase; otherwise nothing changes.
pub fn command_transition(command: PlayerCommand, on_stairs: bool) -> (r: (RunState, TickAction))
    ensures
        r == spec_command(command, on_stairs),
{
    match command {
        PlayerCommand::NoCommand => (RunState::AwaitingInput, TickAction::Nothing),
        PlayerCommand::Move { dx, dy } => (RunState::PlayerTurn, TickAction::MovePlayer { dx, dy }),
        PlayerCommand::Wait => (RunState::PlayerTurn, TickAction::SkipTurn),
        PlayerCommand::PickUp => (RunState::PlayerTurn, TickAction::PickUp),
        PlayerCommand::OpenInventory => (RunState::ShowInventory, TickAction::Nothing),
        PlayerCommand::OpenDrop => (RunState::ShowDropItem, TickAction::Nothing),
        PlayerCommand::OpenRemove => (RunState::ShowRemoveItem, TickAction::Nothing),
        PlayerCommand::Descend => {
            if on_stairs {
                (RunState::NextLevel, TickAction::Nothing)
            } else {
                (RunState::AwaitingInput, TickAction::Nothing)
            }
        },
        PlayerCommand::Save => (RunState::SaveGame, TickAction::Nothing),
    }
}

/// Transition of a modal item menu (inventory, drop, remove).
fn item_menu_transition(state: RunState, e: TickEvent) -> (r: (RunState, TickAction))
    requires
        state == RunState::ShowInventory || state == RunState::ShowDropItem || state
            == RunState::ShowRemoveItem,
    ensures
        r == spec_decide(state, e, false, 0),
{
    let stay = (state, TickAction::Nothing);
    match e {
        TickEvent::ItemMenu { result, item, ranged } => match result {
            ItemMenuResult::Cancel => (RunState::AwaitingInput, TickAction::Nothing),
            ItemMenuResult::NoResponse => stay,
            ItemMenuResult::Selected => match item {
                None => stay,
                Some(it) => match state {
                    RunState::ShowInventory => match ranged {
                        Some(range) => (
                            RunState::ShowTargeting { range, item: it },
                            TickAction::Nothing,
                        ),
                        None => (
                            RunState::PlayerTurn,
                            TickAction::UseItem { item: it, target: None },
                        ),
                    },
                    RunState::ShowDropItem => (
                        RunState::PlayerTurn,
                        TickAction::DropItem { item: it },
                    ),
                    _ => (RunState::PlayerTurn, TickAction::RemoveItem { item: it }),
                },
            },
        },
        _ => stay,
    }
}

/// The transition table of the phase machine: the next phase and the work
/// to carry out, given what this tick observed. `map_revealed` tells whether
/// an item use in this tick's pipeline revealed the map.
pub fn decide(state: RunState, e: TickEvent, map_revealed: bool, map_height: i32) -> (r: (
    RunState,
    TickAction,
))
    ensures
        r == spec_decide(state, e, map_revealed, map_height),
{
    let stay = (state, TickAction::Nothing);
    match state {
        RunState::MapGeneration => match e {
            TickEvent::GenerationShown => (RunState::PreRun, TickAction::Nothing),
            _ => stay,
        },
        RunState::PreRun => (RunState::AwaitingInput, TickAction::Nothing),
        RunState::AwaitingInput => match e {
            TickEvent::Command { command, on_stairs } => command_transition(command, on_stairs),
            _ => stay,
        },
        RunState::PlayerTurn => {
            if map_revealed {
                (RunState::MagicMapReveal { row: 0 }, TickAction::Nothing)
            } else {
                (RunState::MonsterTurn, TickAction::Nothing)
            }
        },
        RunState::MonsterTurn => (RunState::AwaitingInput, TickAction::Nothing),
        RunState::ShowInventory | RunState::ShowDropItem | RunState::ShowRemoveItem => {
            item_menu_transition(state, e)
        },
        RunState::ShowTargeting { range, item } => match e {
            TickEvent::Target { result, target } => match result {
                ItemMenuResult::Cancel => (RunState::AwaitingInput, TickAction::Nothing),
                ItemMenuResult::NoResponse => stay,
                ItemMenuResult::Selected => match target {
                    None => stay,
                    Some(p) => (
                        RunState::PlayerTurn,
                        TickAction::UseItem { item, target: Some(p) },
                    ),
                },
            },
            _ => stay,
        },
        RunState::NextLevel => (RunState::PreRun, TickAction::GotoNextLevel),
        RunState::MainMenu { menu_selection } => match e {
            TickEvent::Menu { result } => match result {
                MainMenuResult::NoSelection { selected } => (
                    RunState::MainMenu { menu_selection: selected },
                    TickAction::Nothing,
                ),
                MainMenuResult::Selected { selected } => match selected {
                    MainMenuSelection::NewGame => (RunState::PreRun, TickAction::Nothing),
                    MainMenuSelection::LoadGame => (RunState::AwaitingInput, TickAction::LoadGame),
                    MainMenuSelection::Quit => (state, TickAction::Quit),
                },
            },
            _ => stay,
        },
        RunState::SaveGame => (
            RunState::MainMenu { menu_selection: MainMenuSelection::Quit },
            TickAction::SaveGame,
        ),
        RunState::GameOver => match e {
            TickEvent::GameOverMenu { result } => match result {
                GameOverResult::NoSelection => stay,
                GameOverResult::QuitToMenu => (
                    RunState::MainMenu { menu_selection: MainMenuSelection::NewGame },
                    TickAction::GameOverCleanup,
                ),
            },
            _ => stay,
        },
        RunState::MagicMapReveal { row } => {
            if row as i64 + 1 >= map_height as i64 {
                (RunState::MonsterTurn, TickAction::RevealRow { row })
            } else {
                (RunState::MagicMapReveal { row: row + 1 }, TickAction::RevealRow { row })
            }
        },
    }
}

/// The death rule, applied after every tick: a player at or below zero
/// health forces GameOver, whatever phase was chosen.
pub fn apply_death_rule(next: RunState, player_hp: i32) -> (r: RunState)
    ensures
        player_hp <= 0 ==> r == RunState::GameOver,
        player_hp > 0 ==> r == next,
{
    if player_hp <= 0 {
        RunState::GameOver
    } else {
        next
    }
}

/// One full phase decision: the table, then the death rule. GameOver is
/// entered from another phase exactly when the player's health was observed
/// at or below zero.
pub fn next_run_state(
    state: RunState,
    e: TickEvent,
    map_revealed: bool,
    map_height: i32,
    player_hp: i32,
) -> (r: (RunState, TickAction))
    ensures
        r.0 == spec_next_state(state, e, map_revealed, map_height, player_hp),
        r.1 == spec_decide(state, e, map_revealed, map_height).1,
        state != RunState::GameOver ==> (r.0 == RunState::GameOver <==> player_hp <= 0),
{
    let (next, action) = decide(state, e, map_revealed, map_height);
    (apply_death_rule(next, player_hp), action)
}

} // verus!
