//! Core of a tile-grid movement engine for a top-down rogue-like.
//!
//! The library tracks entities on a discrete tile grid, validates move
//! intents against a static collision mask, advances logical positions
//! through a shared move-event channel, and runs a fixed-duration easing
//! animation for the visible transition between tiles. Input sampling and
//! rendering are left to the host program; the library works on plain
//! values only.

pub mod direction;
pub mod easing;
pub mod grid;
pub mod monster;
pub mod movement;
pub mod world;

use vstd::prelude::*;

verus! {

/// Side length of one tile in screen-space reference units.
pub const TILE_PIXELS: u32 = 16;

/// Duration of the easing animation between two tiles, in milliseconds.
pub const MOVE_ANIMATION_MS: u32 = 200;

} // verus!
