//! Multi-room buzzer games: the per-room game engine, the tick scheduler
//! that drives it, and the membership rules of a room.

pub mod adapter;
pub mod auth;
pub mod dtos;
pub mod errors;
pub mod game;
pub mod scheduler;
pub mod service;
pub mod socket;
pub mod state;
pub mod tables;
pub mod text;
pub mod utils;
