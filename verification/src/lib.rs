//! Core simulation library for a grid-based tower-defense game.
//!
//! The play area is a grid of square cells centered on the origin. Walls
//! block cells; a breadth-first flow field routes enemies toward the base.
//! Each tick, enemies advance toward their next-hop destination, towers
//! shoot homing projectiles at the nearest enemy in range, area placements
//! apply falloff damage, and a timed season schedule gates the player's
//! build and heal actions. World coordinates, health and damage are held
//! in fixed-point integer units so that every rule of the simulation can
//! be stated and checked exactly.

pub mod arena;
pub mod base;
pub mod bullet;
pub mod enemy;
pub mod flow;
pub mod game;
pub mod geometry;
pub mod map;
pub mod rng;
pub mod season;
pub mod tower;
