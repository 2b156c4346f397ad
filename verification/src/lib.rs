//! Rules engine for a turn-based tile-sliding board game.
//!
//! A square grid holds numbered tiles and one movable marker (the cross).
//! Two or four players alternately slide the marker along their assigned
//! axis (horizontal or vertical) to capture the tile it lands on, adding
//! its value to their score, until no tiles remain.

pub mod board;
pub mod count;
pub mod game;
