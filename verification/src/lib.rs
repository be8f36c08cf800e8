//! A falling-block puzzle engine with machine-checked contracts.
//!
//! The crate is layered leaf-first: cell values and statistics (`common`),
//! the piece geometry table (`pattern`), the piece itself (`block`), the
//! grid of locked cells (`board`), and the engine that drives them (`game`).
//! Random draws enter through `random` only.

pub mod block;
pub mod board;
pub mod common;
pub mod game;
pub mod pattern;
pub mod random;
