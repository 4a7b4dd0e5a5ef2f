use rltk::RandomNumberGenerator;
use rusty_roguelike::components::{CombatStats, Entity, EquipmentSlot, HungerClock, HungerState, Position, SuffersDamage, Viewshed};
use rusty_roguelike::damage_system::{apply_damage, delete_the_dead, equipment_bonus, melee_damage, Vitals};
use rusty_roguelike::gui::{menu_down, menu_up, ranged_target_click, target_cells, GameOverResult, ItemMenuResult, MainMenuResult, MainMenuSelection};
use rusty_roguelike::hunger::{eat, hunger_tick};
use rusty_roguelike::inventory::{heal_with, item_targets, items_to_unequip, EquippedItem};
use rusty_roguelike::map::{GameMap, TileType, CARDINAL_COST, DIAGONAL_COST};
use rusty_roguelike::map_indexing::{refresh_index, Occupant};
use rusty_roguelike::maps::bsp_dungeon::BspDungeonBuilder;
use rusty_roguelike::maps::simple_map::SimpleMapBuilder;
use rusty_roguelike::maps::{builder_for_roll, generate_level, random_builder, AnyBuilder, MapBuilder};
use rusty_roguelike::spawner::{room_table, spawn_room, RandomTable, SpawnKind};
use rusty_roguelike::monster_ai::{can_see, follow_path, monster_intent, MonsterIntent};
use rusty_roguelike::player::{can_heal, get_item, skip_turn, try_move_player, try_next_level, MoveOutcome};
use rusty_roguelike::rect::Rect;
use rusty_roguelike::state::{
    entities_to_remove_on_level_change, heal_on_descent, next_run_state, pipeline, runs_pipeline, EntityInfo, PipelineStage, PlayerCommand, RunState,
    TickAction, TickEvent,
};
use rusty_roguelike::trigger::{fired_traps, Trap};
use rusty_roguelike::visibility::{hidden_in_view_of, spot_hidden, spotted_by_rolls, update_viewshed};
use std::collections::VecDeque;

fn ent(id: u32) -> Entity {
    Entity { id, gen: 1 }
}

fn pos(x: i32, y: i32) -> Position {
    Position { x, y }
}

fn floor_map() -> GameMap {
    let mut map = GameMap::new(1);
    for y in 1..map.height - 1 {
        for x in 1..map.width - 1 {
            let idx = map.xy_idx(x, y);
            map.tiles[idx] = TileType::Floor;
        }
    }
    map.populate_blocked();
    map
}

fn center(r: &Rect) -> (i32, i32) {
    ((r.x1 + r.x2) / 2, (r.y1 + r.y2) / 2)
}

fn check_generated(map: &GameMap, rooms: &[Rect], start: Position) -> bool {
    assert_eq!(map.width, 80);
    assert_eq!(map.height, 43);
    assert!(!rooms.is_empty());
    let stairs: Vec<usize> = (0..map.tiles.len()).filter(|&i| map.tiles[i] == TileType::DownStairs).collect();
    assert_eq!(stairs.len(), 1);
    let (sx, sy) = center(rooms.last().unwrap());
    assert_eq!(stairs[0], map.xy_idx(sx, sy));
    let first = &rooms[0];
    assert_eq!((start.x, start.y), center(first));
    assert!(first.x1 < start.x && start.x <= first.x2 && first.y1 < start.y && start.y <= first.y2);
    for r in rooms {
        for y in r.y1 + 1..=r.y2 {
            for x in r.x1 + 1..=r.x2 {
                assert_ne!(map.tiles[map.xy_idx(x, y)], TileType::Wall);
            }
        }
    }
    // flood fill over passable tiles, stepping to the four side neighbours
    let mut seen = vec![false; map.tiles.len()];
    let mut queue = VecDeque::new();
    let s = map.xy_idx(start.x, start.y);
    seen[s] = true;
    queue.push_back(s);
    while let Some(i) = queue.pop_front() {
        let x = i as i32 % map.width;
        let y = i as i32 / map.width;
        for (dx, dy) in [(-1, 0), (1, 0), (0, -1), (0, 1)] {
            {
                let (nx, ny) = (x + dx, y + dy);
                if nx < 0 || ny < 0 || nx >= map.width || ny >= map.height {
                    continue;
                }
                let j = map.xy_idx(nx, ny);
                if !seen[j] && map.tiles[j] != TileType::Wall {
                    seen[j] = true;
                    queue.push_back(j);
                }
            }
        }
    }
    rooms.iter().all(|r| {
        let (cx, cy) = center(r);
        seen[map.xy_idx(cx, cy)]
    })
}

#[test]
fn simple_builder_levels_are_sound_and_connected() {
    for seed in 0..40u64 {
        let mut rng = RandomNumberGenerator::seeded(seed);
        let mut b = SimpleMapBuilder::new(3);
        b.build_map(&mut rng);
        let map = b.get_map();
        assert_eq!(map.depth, 3);
        let rooms = b.get_rooms();
        assert!(check_generated(&map, &rooms, b.get_starting_position()));
        assert!(rooms.len() <= 30);
        for (i, r) in rooms.iter().enumerate() {
            assert!((6..=9).contains(&(r.x2 - r.x1)) && (6..=9).contains(&(r.y2 - r.y1)));
            for q in rooms.iter().skip(i + 1) {
                assert!(!r.intersect(q));
            }
        }
        let history = b.get_snapshot_history();
        assert_eq!(history.len(), rooms.len());
        assert!(history.iter().all(|m| m.revealed_tiles.iter().all(|v| *v)));
        assert_eq!(history.last().unwrap().tiles.iter().filter(|t| **t == TileType::DownStairs).count(), 0);
    }
}

#[test]
fn bsp_builder_levels_are_sound_and_connected() {
    for seed in 0..40u64 {
        let mut rng = RandomNumberGenerator::seeded(seed);
        let mut b = BspDungeonBuilder::new(2);
        b.build_map(&mut rng);
        let map = b.get_map();
        assert_eq!(map.depth, 2);
        let rooms = b.get_rooms();
        assert!(check_generated(&map, &rooms, b.get_starting_position()));
        for w in rooms.windows(2) {
            assert!(w[0].x1 <= w[1].x1);
        }
        for (i, a) in rooms.iter().enumerate() {
            for c in rooms.iter().skip(i + 1) {
                let overlap = a.x1 < c.x2 && c.x1 < a.x2 && a.y1 < c.y2 && c.y1 < a.y2;
                assert!(!overlap);
            }
        }
    }
}

#[test]
fn generated_rooms_vary_in_size_and_place() {
    let mut widths = std::collections::HashSet::new();
    let mut corners = std::collections::HashSet::new();
    for seed in 0..10u64 {
        let mut rng = RandomNumberGenerator::seeded(seed);
        let mut b = SimpleMapBuilder::new(1);
        b.build_map(&mut rng);
        for r in b.get_rooms() {
            widths.insert(r.x2 - r.x1);
            corners.insert((r.x1, r.y1));
        }
    }
    assert!(widths.len() > 1);
    assert!(widths.iter().all(|w| (6..10).contains(w)));
    assert!(corners.len() > 10);
}

#[test]
fn generate_level_keeps_depth() {
    let mut rng = RandomNumberGenerator::seeded(7);
    let (map, rooms, start) = generate_level(5, &mut rng);
    assert_eq!(map.depth, 5);
    assert!(check_generated(&map, &rooms, start));
}

#[test]
fn rect_center_and_intersect() {
    let a = Rect::new(2, 4, 6, 8);
    assert_eq!((a.x2, a.y2), (8, 12));
    assert_eq!(a.center(), (5, 8));
    assert!(a.intersect(&Rect::new(8, 12, 3, 3)));
    assert!(!a.intersect(&Rect::new(9, 4, 3, 3)));
}

#[test]
fn refresh_marks_walls_and_blocking_entities() {
    let mut map = floor_map();
    let occ = vec![
        Occupant { entity: ent(1), pos: pos(5, 5), blocks: true },
        Occupant { entity: ent(2), pos: pos(6, 5), blocks: false },
        Occupant { entity: ent(3), pos: pos(6, 5), blocks: false },
    ];
    refresh_index(&mut map, &occ);
    for i in 0..map.tiles.len() {
        let by_entity = i == map.xy_idx(5, 5);
        assert_eq!(map.blocked[i], map.tiles[i] == TileType::Wall || by_entity);
    }
    assert_eq!(map.tile_content[map.xy_idx(6, 5)], vec![ent(2), ent(3)]);
    assert_eq!(map.tile_content[map.xy_idx(5, 5)], vec![ent(1)]);
    // a second refresh after a move leaves no stale entries
    let occ2 = vec![Occupant { entity: ent(1), pos: pos(7, 7), blocks: true }];
    refresh_index(&mut map, &occ2);
    assert!(!map.blocked[map.xy_idx(5, 5)]);
    assert!(map.blocked[map.xy_idx(7, 7)]);
    assert!(map.tile_content[map.xy_idx(6, 5)].is_empty());
}

#[test]
fn exits_skip_blocked_and_edge_tiles() {
    let mut map = floor_map();
    let b = map.xy_idx(6, 5);
    map.blocked[b] = true;
    let exits = map.get_available_exits(map.xy_idx(5, 5));
    assert_eq!(exits.len(), 7);
    assert!(!exits.iter().any(|e| e.0 == b));
    assert_eq!(exits[0], (map.xy_idx(4, 5), CARDINAL_COST));
    assert_eq!(exits[3], (map.xy_idx(4, 4), DIAGONAL_COST));
    let corner = map.get_available_exits(map.xy_idx(1, 1));
    assert_eq!(corner, vec![(map.xy_idx(2, 1), 100), (map.xy_idx(1, 2), 100), (map.xy_idx(2, 2), 145)]);
    assert_eq!(map.pathing_distance_squared(map.xy_idx(1, 1), map.xy_idx(4, 5)), 25);
    assert!(map.is_opaque(0));
    assert!(!map.is_opaque(map.xy_idx(3, 3)));
}

#[test]
fn wall_glyph_joins_revealed_walls() {
    let mut map = GameMap::new(1);
    assert_eq!(map.wall_glyph(0, 0), 35);
    assert_eq!(map.wall_glyph(5, 5), 9);
    map.reveal_all();
    assert_eq!(map.wall_glyph(5, 5), 206);
    let i = map.xy_idx(5, 4);
    map.tiles[i] = TileType::Floor;
    assert_eq!(map.wall_glyph(5, 5), 203);
}

#[test]
fn viewshed_recompute_is_idempotent_and_reveal_is_monotone() {
    let mut map = floor_map();
    let mut vs = Viewshed { visible_tiles: Vec::new(), range: 8, dirty: true };
    let fov = vec![pos(3, 3), pos(4, 3), pos(-1, 3), pos(3, 50)];
    update_viewshed(&mut map, &mut vs, &fov, true);
    assert!(!vs.dirty);
    assert_eq!(vs.visible_tiles, vec![pos(3, 3), pos(4, 3)]);
    assert!(map.revealed_tiles[map.xy_idx(3, 3)] && map.visible_tiles[map.xy_idx(4, 3)]);
    let first = vs.visible_tiles.clone();
    update_viewshed(&mut map, &mut vs, &vec![pos(10, 10)], true);
    assert_eq!(vs.visible_tiles, first);
    assert!(!map.visible_tiles[map.xy_idx(10, 10)]);
    // moving away: visible toggles off, revealed stays
    vs.dirty = true;
    update_viewshed(&mut map, &mut vs, &vec![pos(20, 20)], true);
    assert!(!map.visible_tiles[map.xy_idx(3, 3)]);
    assert!(map.revealed_tiles[map.xy_idx(3, 3)]);
    assert!(map.visible_tiles[map.xy_idx(20, 20)]);
    let count = map.visible_tiles.iter().filter(|v| **v).count();
    assert_eq!(count, 1);
}

#[test]
fn monster_viewshed_leaves_map_masks_alone() {
    let mut map = floor_map();
    let mut vs = Viewshed { visible_tiles: Vec::new(), range: 8, dirty: true };
    update_viewshed(&mut map, &mut vs, &vec![pos(3, 3)], false);
    assert_eq!(vs.visible_tiles, vec![pos(3, 3)]);
    assert!(!map.revealed_tiles[map.xy_idx(3, 3)]);
    assert!(can_see(&vs, pos(3, 3)));
    assert!(!can_see(&vs, pos(4, 3)));
}

#[test]
fn adjacent_monster_melees_instead_of_moving() {
    // orthogonal (distance 1.0) and diagonal (distance 1.41) both lie under 1.5
    assert_eq!(monster_intent(pos(5, 5), None, pos(6, 5), true), MonsterIntent::Melee);
    assert_eq!(monster_intent(pos(5, 5), None, pos(6, 6), true), MonsterIntent::Melee);
    assert_eq!(monster_intent(pos(5, 5), None, pos(7, 5), true), MonsterIntent::Chase);
    assert_eq!(monster_intent(pos(5, 5), None, pos(7, 5), false), MonsterIntent::Idle);
    assert_eq!(monster_intent(pos(5, 5), Some(3), pos(6, 5), true), MonsterIntent::Confused { turns_left: Some(2) });
    assert_eq!(monster_intent(pos(5, 5), Some(1), pos(6, 5), true), MonsterIntent::Confused { turns_left: None });
}

#[test]
fn chasing_monster_steps_and_toggles_blocking() {
    let mut map = floor_map();
    let mut p = pos(5, 5);
    let from = map.xy_idx(5, 5);
    map.blocked[from] = true;
    let mut vs = Viewshed { visible_tiles: Vec::new(), range: 6, dirty: false };
    let path = vec![from, map.xy_idx(6, 6), map.xy_idx(7, 7)];
    follow_path(&mut map, &mut p, &mut vs, &path);
    assert_eq!(p, pos(6, 6));
    assert!(vs.dirty);
    assert!(!map.blocked[from]);
    assert!(map.blocked[map.xy_idx(6, 6)]);
    let mut p2 = p;
    let here = vec![map.xy_idx(6, 6)];
    follow_path(&mut map, &mut p2, &mut vs, &here);
    assert_eq!(p2, p);
}

#[test]
fn level_change_keeps_player_and_belongings() {
    let player = ent(1);
    let mut infos = vec![
        EntityInfo { entity: player, is_player: true, backpack_owner: None, equipped_owner: None },
        EntityInfo { entity: ent(2), is_player: false, backpack_owner: None, equipped_owner: Some(player) },
    ];
    for id in 3..6 {
        infos.push(EntityInfo { entity: ent(id), is_player: false, backpack_owner: Some(player), equipped_owner: None });
    }
    infos.push(EntityInfo { entity: ent(6), is_player: false, backpack_owner: None, equipped_owner: None });
    infos.push(EntityInfo { entity: ent(7), is_player: false, backpack_owner: Some(ent(6)), equipped_owner: None });
    infos.push(EntityInfo { entity: ent(8), is_player: false, backpack_owner: None, equipped_owner: Some(ent(6)) });
    let removed = entities_to_remove_on_level_change(&infos, player);
    assert_eq!(removed, vec![ent(6), ent(7), ent(8)]);
    let mut stats = CombatStats { max_hp: 30, hp: 4, defense: 1, power: 5 };
    heal_on_descent(&mut stats);
    assert_eq!(stats.hp, 15);
    heal_on_descent(&mut stats);
    assert_eq!(stats.hp, 15);
}

#[test]
fn magic_map_reveal_takes_height_ticks() {
    let mut map = GameMap::new(1);
    let h = map.height;
    let mut state = RunState::MagicMapReveal { row: 0 };
    let mut ticks = 0;
    while state != RunState::MonsterTurn {
        let (next, action) = next_run_state(state, TickEvent::Idle, false, h, 10);
        match action {
            TickAction::RevealRow { row } => {
                assert_eq!(row, ticks);
                let before = map.revealed_tiles.iter().filter(|r| **r).count();
                map.reveal_row(row);
                let after = map.revealed_tiles.iter().filter(|r| **r).count();
                assert_eq!(after - before, map.width as usize);
            }
            _ => panic!("expected a row reveal"),
        }
        state = next;
        ticks += 1;
        assert!(ticks <= h);
    }
    assert_eq!(ticks, h);
    assert!(map.revealed_tiles.iter().all(|r| *r));
}

#[test]
fn phase_table_follows_commands() {
    let cmd = |c, on_stairs| TickEvent::Command { command: c, on_stairs };
    assert_eq!(next_run_state(RunState::PreRun, TickEvent::Idle, false, 43, 5).0, RunState::AwaitingInput);
    assert_eq!(
        next_run_state(RunState::AwaitingInput, cmd(PlayerCommand::Move { dx: 1, dy: 0 }, false), false, 43, 5),
        (RunState::PlayerTurn, TickAction::MovePlayer { dx: 1, dy: 0 })
    );
    assert_eq!(next_run_state(RunState::AwaitingInput, cmd(PlayerCommand::Descend, false), false, 43, 5).0, RunState::AwaitingInput);
    assert_eq!(next_run_state(RunState::AwaitingInput, cmd(PlayerCommand::Descend, true), false, 43, 5).0, RunState::NextLevel);
    assert_eq!(next_run_state(RunState::AwaitingInput, cmd(PlayerCommand::OpenInventory, false), false, 43, 5).0, RunState::ShowInventory);
    assert_eq!(next_run_state(RunState::AwaitingInput, cmd(PlayerCommand::NoCommand, false), false, 43, 5).0, RunState::AwaitingInput);
    assert_eq!(next_run_state(RunState::PlayerTurn, TickEvent::Idle, false, 43, 5).0, RunState::MonsterTurn);
    assert_eq!(next_run_state(RunState::PlayerTurn, TickEvent::Idle, true, 43, 5).0, RunState::MagicMapReveal { row: 0 });
    assert_eq!(next_run_state(RunState::MonsterTurn, TickEvent::Idle, false, 43, 5).0, RunState::AwaitingInput);
    assert_eq!(next_run_state(RunState::NextLevel, TickEvent::Idle, false, 43, 5), (RunState::PreRun, TickAction::GotoNextLevel));
    assert!(runs_pipeline(RunState::MonsterTurn));
    assert!(!runs_pipeline(RunState::ShowInventory));
}

#[test]
fn item_menus_and_targeting() {
    let item = ent(9);
    let ranged = TickEvent::ItemMenu { result: ItemMenuResult::Selected, item: Some(item), ranged: Some(6) };
    let aim = next_run_state(RunState::ShowInventory, ranged, false, 43, 5).0;
    assert_eq!(aim, RunState::ShowTargeting { range: 6, item });
    let pick = TickEvent::Target { result: ItemMenuResult::Selected, target: Some(pos(3, 4)) };
    assert_eq!(next_run_state(aim, pick, false, 43, 5), (RunState::PlayerTurn, TickAction::UseItem { item, target: Some(pos(3, 4)) }));
    let cancel = TickEvent::ItemMenu { result: ItemMenuResult::Cancel, item: None, ranged: None };
    assert_eq!(next_run_state(RunState::ShowDropItem, cancel, false, 43, 5).0, RunState::AwaitingInput);
    let drop = TickEvent::ItemMenu { result: ItemMenuResult::Selected, item: Some(item), ranged: None };
    assert_eq!(next_run_state(RunState::ShowDropItem, drop, false, 43, 5).1, TickAction::DropItem { item });
    let wait = TickEvent::ItemMenu { result: ItemMenuResult::NoResponse, item: None, ranged: None };
    assert_eq!(next_run_state(RunState::ShowRemoveItem, wait, false, 43, 5).0, RunState::ShowRemoveItem);
}

#[test]
fn game_over_iff_player_health_gone() {
    let states = [RunState::PreRun, RunState::AwaitingInput, RunState::PlayerTurn, RunState::MonsterTurn, RunState::ShowInventory, RunState::SaveGame];
    for s in states {
        assert_eq!(next_run_state(s, TickEvent::Idle, false, 43, 0).0, RunState::GameOver);
        assert_eq!(next_run_state(s, TickEvent::Idle, false, 43, -3).0, RunState::GameOver);
        assert_ne!(next_run_state(s, TickEvent::Idle, false, 43, 1).0, RunState::GameOver);
    }
    let quit = TickEvent::GameOverMenu { result: GameOverResult::QuitToMenu };
    assert_eq!(
        next_run_state(RunState::GameOver, quit, false, 43, 30),
        (RunState::MainMenu { menu_selection: MainMenuSelection::NewGame }, TickAction::GameOverCleanup)
    );
    let menu = TickEvent::Menu { result: MainMenuResult::Selected { selected: MainMenuSelection::NewGame } };
    assert_eq!(next_run_state(RunState::MainMenu { menu_selection: MainMenuSelection::NewGame }, menu, false, 43, 30).0, RunState::PreRun);
}

#[test]
fn main_menu_navigation_skips_load_without_save() {
    assert_eq!(menu_down(MainMenuSelection::NewGame, false), MainMenuSelection::Quit);
    assert_eq!(menu_down(MainMenuSelection::NewGame, true), MainMenuSelection::LoadGame);
    assert_eq!(menu_up(MainMenuSelection::Quit, false), MainMenuSelection::NewGame);
    assert_eq!(menu_up(MainMenuSelection::NewGame, true), MainMenuSelection::Quit);
}

#[test]
fn targeting_cells_lie_within_range() {
    let visible = vec![pos(5, 5), pos(8, 5), pos(9, 9), pos(5, 7)];
    let cells = target_cells(&visible, pos(5, 5), 3);
    assert_eq!(cells, vec![pos(5, 5), pos(8, 5), pos(5, 7)]);
    assert_eq!(ranged_target_click(&cells, pos(8, 5), true), (ItemMenuResult::Selected, Some(pos(8, 5))));
    assert_eq!(ranged_target_click(&cells, pos(9, 9), true), (ItemMenuResult::Cancel, None));
    assert_eq!(ranged_target_click(&cells, pos(8, 5), false), (ItemMenuResult::NoResponse, None));
}

#[test]
fn player_moves_attacks_or_is_blocked() {
    let mut map = floor_map();
    let occ = vec![
        Occupant { entity: ent(2), pos: pos(6, 5), blocks: true },
        Occupant { entity: ent(3), pos: pos(5, 6), blocks: false },
    ];
    refresh_index(&mut map, &occ);
    let fighters = vec![ent(2)];
    assert_eq!(try_move_player(&map, pos(5, 5), 1, 0, &fighters), MoveOutcome::Attack { target: ent(2) });
    assert_eq!(try_move_player(&map, pos(5, 5), 0, 1, &fighters), MoveOutcome::MoveTo { pos: pos(5, 6) });
    assert_eq!(try_move_player(&map, pos(1, 1), -1, 0, &fighters), MoveOutcome::Blocked);
    assert_eq!(try_move_player(&map, pos(78, 41), 5, 5, &fighters), MoveOutcome::Blocked);
    let stairs = map.xy_idx(10, 10);
    map.tiles[stairs] = TileType::DownStairs;
    assert!(try_next_level(&map, pos(10, 10)));
    assert!(!try_next_level(&map, pos(10, 11)));
}

#[test]
fn pickup_and_waiting() {
    let items = vec![(ent(4), pos(2, 2)), (ent(5), pos(3, 3)), (ent(6), pos(2, 2))];
    assert_eq!(get_item(&items, pos(2, 2)), Some(ent(6)));
    assert_eq!(get_item(&items, pos(9, 9)), None);
    let mut map = floor_map();
    refresh_index(&mut map, &vec![Occupant { entity: ent(7), pos: pos(4, 4), blocks: true }]);
    let vs = Viewshed { visible_tiles: vec![pos(3, 3), pos(4, 4)], range: 8, dirty: false };
    assert!(!can_heal(&map, &vs, &vec![ent(7)]));
    assert!(can_heal(&map, &vs, &vec![ent(8)]));
    let mut stats = CombatStats { max_hp: 10, hp: 9, defense: 0, power: 1 };
    skip_turn(&mut stats, true);
    assert_eq!(stats.hp, 10);
    skip_turn(&mut stats, true);
    assert_eq!(stats.hp, 10);
    stats.hp = 3;
    skip_turn(&mut stats, false);
    assert_eq!(stats.hp, 3);
}

#[test]
fn hunger_clock_worsens_and_starves() {
    let mut clock = HungerClock { state: HungerState::WellFed, duration: 1 };
    assert!(!hunger_tick(&mut clock, RunState::MonsterTurn, true));
    assert_eq!(clock, HungerClock { state: HungerState::WellFed, duration: 1 });
    assert!(!hunger_tick(&mut clock, RunState::PlayerTurn, true));
    assert_eq!(clock, HungerClock { state: HungerState::Normal, duration: 200 });
    let mut starving = HungerClock { state: HungerState::Starving, duration: 0 };
    assert!(hunger_tick(&mut starving, RunState::MonsterTurn, false));
    assert_eq!(starving.duration, -1);
    eat(&mut starving);
    assert_eq!(starving, HungerClock { state: HungerState::WellFed, duration: 200 });
}

#[test]
fn damage_accumulates_and_dead_are_found() {
    let mut store: Vec<(Entity, SuffersDamage)> = Vec::new();
    SuffersDamage::new_damage(&mut store, ent(1), 4);
    SuffersDamage::new_damage(&mut store, ent(2), 1);
    SuffersDamage::new_damage(&mut store, ent(1), 3);
    assert_eq!(store.len(), 2);
    assert_eq!(store[0].1.amount, vec![4, 3]);
    let mut stats = CombatStats { max_hp: 10, hp: 6, defense: 0, power: 1 };
    apply_damage(&mut stats, &store[0].1.amount);
    assert_eq!(stats.hp, -1);
    let vitals = vec![
        Vitals { entity: ent(1), hp: -1, is_player: false },
        Vitals { entity: ent(2), hp: 5, is_player: false },
        Vitals { entity: ent(3), hp: 0, is_player: true },
    ];
    assert_eq!(delete_the_dead(&vitals), (vec![ent(1)], true));
    assert_eq!(delete_the_dead(&vitals[..2].to_vec()), (vec![ent(1)], false));
}

#[test]
fn item_effects_pick_targets() {
    let mut map = floor_map();
    let occ = vec![
        Occupant { entity: ent(2), pos: pos(6, 5), blocks: true },
        Occupant { entity: ent(3), pos: pos(7, 5), blocks: true },
    ];
    refresh_index(&mut map, &occ);
    assert_eq!(item_targets(&map, ent(1), None, &None), vec![ent(1)]);
    assert_eq!(item_targets(&map, ent(1), Some(pos(6, 5)), &None), vec![ent(2)]);
    let blast = Some(vec![pos(6, 5), pos(7, 5), pos(0, 5)]);
    assert_eq!(item_targets(&map, ent(1), Some(pos(6, 5)), &blast), vec![ent(2), ent(3)]);
    let mut stats = CombatStats { max_hp: 10, hp: 4, defense: 0, power: 1 };
    heal_with(&mut stats, 3);
    assert_eq!(stats.hp, 7);
    heal_with(&mut stats, 8);
    assert_eq!(stats.hp, 10);
    let worn = vec![
        EquippedItem { item: ent(10), owner: ent(1), slot: EquipmentSlot::Melee },
        EquippedItem { item: ent(11), owner: ent(1), slot: EquipmentSlot::Shield },
        EquippedItem { item: ent(12), owner: ent(2), slot: EquipmentSlot::Melee },
    ];
    assert_eq!(items_to_unequip(&worn, ent(1), EquipmentSlot::Melee), vec![ent(10)]);
}

#[test]
fn traps_fire_on_entry() {
    let mut map = floor_map();
    let occ = vec![
        Occupant { entity: ent(1), pos: pos(4, 4), blocks: true },
        Occupant { entity: ent(9), pos: pos(4, 4), blocks: false },
    ];
    refresh_index(&mut map, &occ);
    let traps = vec![Trap { entity: ent(9), damage: Some(6), single_activation: true }];
    assert_eq!(fired_traps(&map, ent(1), pos(4, 4), &traps), traps);
    assert!(fired_traps(&map, ent(9), pos(4, 4), &traps).is_empty());
}

#[test]
fn bloodstains_form_a_set() {
    let mut map = GameMap::new(1);
    map.add_bloodstain(5);
    map.add_bloodstain(5);
    map.add_bloodstain(7);
    assert_eq!(map.bloodstains, vec![5, 7]);
    let copy = map.duplicate();
    assert_eq!(copy.bloodstains, vec![5, 7]);
    assert_eq!(copy.tiles, map.tiles);
}

#[test]
fn melee_damage_never_negative() {
    assert_eq!(melee_damage(5, 2, 1, 1), 5);
    assert_eq!(melee_damage(2, 0, 4, 1), 0);
}

#[test]
fn pipeline_runs_ai_before_indexing() {
    let p = pipeline();
    assert_eq!(p.len(), 13);
    let at = |s| p.iter().position(|x| *x == s).unwrap();
    assert!(at(PipelineStage::Visibility) < at(PipelineStage::MonsterAi));
    assert!(at(PipelineStage::MonsterAi) < at(PipelineStage::MapIndexing));
    assert!(at(PipelineStage::MapIndexing) < at(PipelineStage::MeleeCombat));
    assert_eq!(p[12], PipelineStage::Maintenance);
}

#[test]
fn spawns_land_on_distinct_room_tiles() {
    let room = Rect::new(10, 10, 6, 5);
    for seed in 0..20u64 {
        let mut rng = RandomNumberGenerator::seeded(seed);
        let picks = spawn_room(&room, 3, &mut rng);
        assert!(picks.len() <= 6);
        for (i, (x, y, _)) in picks.iter().enumerate() {
            assert!(room.x1 < *x && *x <= room.x2 && room.y1 < *y && *y <= room.y2);
            for (x2, y2, _) in picks.iter().skip(i + 1) {
                assert!((x, y) != (x2, y2));
            }
        }
    }
    let table = room_table(1);
    assert_eq!(table.total_weight, 10 + 2 + 7 + 3 + 3 + 4 + 2 + 3 + 3 + 10 + 2);
    assert!(!table.entries.iter().any(|(k, _)| *k == SpawnKind::Longsword));
    let mut rng = RandomNumberGenerator::seeded(3);
    assert!(table.roll(&mut rng).is_some());
    assert!(RandomTable::new().roll(&mut rng).is_none());
}

#[test]
fn random_builder_builds_a_fresh_level() {
    let mut rng = RandomNumberGenerator::seeded(11);
    let mut b = random_builder(4, &mut rng);
    b.build_map(&mut rng);
    let map = b.get_map();
    assert_eq!(map.depth, 4);
    assert!(check_generated(&map, &b.get_rooms(), b.get_starting_position()));
}

#[test]
fn only_hidden_entities_in_view_are_spotted() {
    let mut map = floor_map();
    let occ = vec![
        Occupant { entity: ent(1), pos: pos(4, 4), blocks: false },
        Occupant { entity: ent(2), pos: pos(9, 9), blocks: false },
        Occupant { entity: ent(3), pos: pos(4, 4), blocks: false },
    ];
    refresh_index(&mut map, &occ);
    let visible = vec![pos(4, 4)];
    let hidden = vec![ent(1), ent(2)];
    let mut ever = false;
    for seed in 0..200u64 {
        let mut rng = RandomNumberGenerator::seeded(seed);
        let found = spot_hidden(&map, &visible, &hidden, &mut rng);
        assert!(found.iter().all(|e| *e == ent(1)));
        ever |= !found.is_empty();
    }
    assert!(ever);
}

#[test]
fn bsp_corridors_connect_on_many_seeds() {
    for seed in 0..300u64 {
        let mut rng = RandomNumberGenerator::seeded(seed);
        let mut b = BspDungeonBuilder::new(1);
        b.build_map(&mut rng);
        assert!(check_generated(&b.get_map(), &b.get_rooms(), b.get_starting_position()), "seed {}", seed);
    }
}

#[test]
fn equipment_bonus_sums_owned_items() {
    let bonuses = vec![(ent(1), 2), (ent(2), 5), (ent(1), 3)];
    assert_eq!(equipment_bonus(&bonuses, ent(1)), 5);
    assert_eq!(equipment_bonus(&bonuses, ent(3)), 0);
}

#[test]
fn arithmetic_edges_saturate() {
    let mut stats = CombatStats { max_hp: 10, hp: -5, defense: 0, power: 1 };
    apply_damage(&mut stats, &vec![i32::MAX, i32::MAX]);
    assert_eq!(stats.hp, i32::MIN);
    apply_damage(&mut stats, &vec![i32::MIN]);
    assert_eq!(stats.hp, 0);
    apply_damage(&mut stats, &vec![i32::MIN, i32::MIN]);
    assert_eq!(stats.hp, i32::MAX);
    let mut clock = HungerClock { state: HungerState::Starving, duration: i32::MIN };
    assert!(hunger_tick(&mut clock, RunState::PlayerTurn, true));
    assert_eq!(clock.duration, i32::MIN);
    assert_eq!(melee_damage(i32::MAX, i32::MAX, 0, 0), i32::MAX);
    assert_eq!(Rect::new(-5, -3, 2, 2).center(), (-4, -2));
    let mut weak = CombatStats { max_hp: -7, hp: -9, defense: 0, power: 0 };
    heal_on_descent(&mut weak);
    assert_eq!(weak.hp, -3);
}

#[test]
fn magic_map_reveal_on_a_single_row_map_is_one_tick() {
    let (next, action) = next_run_state(RunState::MagicMapReveal { row: 0 }, TickEvent::Idle, false, 1, 3);
    assert_eq!(next, RunState::MonsterTurn);
    assert_eq!(action, TickAction::RevealRow { row: 0 });
}

#[test]
fn snapshot_appends_a_revealed_copy() {
    let mut b = SimpleMapBuilder::new(1);
    assert!(b.get_snapshot_history().is_empty());
    let i = b.map.xy_idx(3, 3);
    b.map.tiles[i] = TileType::Floor;
    b.take_snapshot();
    b.take_snapshot();
    let h = b.get_snapshot_history();
    assert_eq!(h.len(), 2);
    assert_eq!(h[0].tiles, b.map.tiles);
    assert!(h[0].revealed_tiles.iter().all(|v| *v));
    assert!(!b.map.revealed_tiles[i]);
}

#[test]
fn builder_choice_follows_the_die() {
    assert!(matches!(builder_for_roll(1, 2), AnyBuilder::Simple(_)));
    assert!(matches!(builder_for_roll(2, 2), AnyBuilder::Bsp(_)));
    assert_eq!(builder_for_roll(2, 7).get_map().depth, 7);
}

#[test]
fn hidden_candidates_and_rolls_select_exactly() {
    let mut map = floor_map();
    let occ = vec![
        Occupant { entity: ent(1), pos: pos(4, 4), blocks: false },
        Occupant { entity: ent(2), pos: pos(5, 4), blocks: false },
        Occupant { entity: ent(3), pos: pos(4, 4), blocks: false },
        Occupant { entity: ent(4), pos: pos(9, 9), blocks: false },
    ];
    refresh_index(&mut map, &occ);
    let visible = vec![pos(5, 4), pos(4, 4)];
    let hidden = vec![ent(1), ent(2), ent(3), ent(4)];
    let cands = hidden_in_view_of(&map, &visible, &hidden);
    assert_eq!(cands, vec![ent(2), ent(1), ent(3)]);
    assert_eq!(spotted_by_rolls(&cands, &vec![1, 7, 1]), vec![ent(2), ent(3)]);
    assert!(spotted_by_rolls(&cands, &vec![2, 2, 24]).is_empty());
}
