//! Rules engine for a chess-like game played on the six faces of a cube.

pub mod ai;
pub mod board;
pub mod cell;
pub mod cube_rotation;
pub mod direction;
pub mod entity;
pub mod gamemanager;
pub mod movement;
pub mod scene;
pub mod team;
pub mod units;
