//! Core of a turn-based dungeon simulation: the tile map and its spatial
//! index, map generation, visibility, monster decisions, intent resolution
//! and the turn/phase state machine.
pub mod components;
pub mod damage_system;
pub mod gui;
pub mod hunger;
pub mod inventory;
pub mod map;
pub mod map_indexing;
pub mod maps;
pub mod monster_ai;
pub mod player;
pub mod rect;
pub mod rng;
pub mod spawner;
pub mod state;
pub mod trigger;
pub mod visibility;
