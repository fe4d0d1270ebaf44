//! A falling-block puzzle engine: the grid, the seven piece shapes and their
//! rotation algebra, collision tests, locking, row clearing, scoring and the
//! state machine that ties them together.
//!
//! The engine owns no terminal and no clock. A front end feeds it one
//! command per tick and draws what the accessors report.

pub mod board;
pub mod catalog;
pub mod game;
pub mod piece;
pub mod score;
