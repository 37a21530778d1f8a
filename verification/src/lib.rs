//! Verified core logic of a small tile-based strategy game and of an
//! aquarium simulation: tiles and tile maps, resources, buildings, pawns,
//! routes, effects and the rules that tie them together.
use vstd::prelude::*;

pub mod brain_layout;
pub mod building;
pub mod building_typ;
pub mod clock;
pub mod commands;
pub mod control;
pub mod debugging;
pub mod effects;
pub mod entity;
pub mod geom;
pub mod ids;
pub mod pathfinder;
pub mod pawn;
pub mod pawn_typ;
pub mod priority;
pub mod random;
pub mod resource;
pub mod resource_map;
pub mod resource_slot;
pub mod route;
pub mod sanity;
pub mod slots;
pub mod team;
pub mod vec2d;
pub mod world;
pub mod world_build;
pub mod world_control;
pub mod world_find;
pub mod world_input;
pub mod world_pawn;
pub mod world_query;
pub mod world_route;
pub mod world_step;
pub mod world_tick;
pub mod world_work;
pub mod tile;
pub mod tilemap;

verus! {
} // verus!
