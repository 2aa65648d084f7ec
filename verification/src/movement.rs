//! Movement primitives: logical tile positions, move events, the grid
//! step they cause, and the easing animation that carries the visible
//! position from the old tile to the new one.

use vstd::prelude::*;

verus! {

use vstd::arithmetic::div_mod::{lemma_div_pos_is_pos, lemma_div_is_ordered, lemma_div_by_multiple};
use crate::direction::Direction;
use crate::easing::{spec_cubic_ease, cubic_ease_in_out, lemma_cubic_ease_bounds};
use crate::{TILE_PIXELS, MOVE_ANIMATION_MS};

/// Logical grid coordinate of an entity. Tile-x grows eastward, tile-y
/// grows northward; the map keeps its own authoring-order flip internal.
#[derive(Clone, Copy, PartialEq, Eq, Structural, Debug)]
pub struct TilePosition {
    pub x: u32,
    pub y: u32,
}

/// Marks an entity as movable and carries its logical tile coordinate,
/// mutated only by the mover, once per accepted move event.
#[derive(Clone, Copy, PartialEq, Eq, Structural, Debug)]
pub struct Moveable {
    pub tile_pos: TilePosition,
}

/// An immutable request to relocate the entity with identifier `target`
/// by one tile along `direction`; created by a dispatcher, consumed once
/// by the mover, in emission order.
#[derive(Clone, Copy, PartialEq, Eq, Structural, Debug)]
pub struct MoveEvent {
    pub target: u64,
    pub direction: Direction,
}

/// Upper bound on screen-space coordinates the animation handles: any
/// tile coordinate times the tile size fits well below it, and it keeps
/// the fixed-point interpolation arithmetic exact.
pub const MAX_SCREEN: u64 = 0x10000000000;

/// One coordinate stepped by a unit component, clamped to the u32 range
/// at both ends, matching truncation after addition on the integer grid.
pub open spec fn spec_step_coord(c: int, d: int) -> int {
    if c + d < 0 {
        0
    } else if c + d > u32::MAX {
        u32::MAX as int
    } else {
        c + d
    }
}

/// The tile one step along `dir` from `pos`.
pub open spec fn spec_step(pos: TilePosition, dir: Direction) -> TilePosition {
    TilePosition {
        x: spec_step_coord(pos.x as int, dir.spec_dx()) as u32,
        y: spec_step_coord(pos.y as int, dir.spec_dy()) as u32,
    }
}

/// Computes the tile one step along `dir` from `pos`.
pub fn step(pos: TilePosition, dir: Direction) -> (r: TilePosition)
    ensures
        r == spec_step(pos, dir),
{
    let (dx, dy) = dir.unit_vector();
    let x: u32 = if dx < 0 {
        if pos.x == 0 {
            0
        } else {
            pos.x - 1
        }
    } else if dx > 0 {
        if pos.x == u32::MAX {
            pos.x
        } else {
            pos.x + 1
        }
    } else {
        pos.x
    };
    let y: u32 = if dy < 0 {
        if pos.y == 0 {
            0
        } else {
            pos.y - 1
        }
    } else if dy > 0 {
        if pos.y == u32::MAX {
            pos.y
        } else {
            pos.y + 1
        }
    } else {
        pos.y
    };
    TilePosition { x, y }
}

/// Screen-space position of a tile: the grid coordinate times the fixed
/// tile size.
pub open spec fn spec_tile_to_screen_x(pos: TilePosition) -> int {
    pos.x as int * TILE_PIXELS as int
}

/// Screen-space position of a tile, vertical axis.
pub open spec fn spec_tile_to_screen_y(pos: TilePosition) -> int {
    pos.y as int * TILE_PIXELS as int
}

/// Converts a tile coordinate to its exact screen-space position.
pub fn tile_to_screen(pos: TilePosition) -> (p: (u64, u64))
    ensures
        p.0 == spec_tile_to_screen_x(pos),
        p.1 == spec_tile_to_screen_y(pos),
        p.0 < MAX_SCREEN,
        p.1 < MAX_SCREEN,
{
    ((pos.x as u64) * (TILE_PIXELS as u64), (pos.y as u64) * (TILE_PIXELS as u64))
}

/// Linear interpolation between two screen coordinates at eased progress
/// `e` in 1024ths, rounded toward the starting point.
pub open spec fn spec_lerp(from: int, to: int, e: int) -> int {
    if from <= to {
        from + (to - from) * e / 1024
    } else {
        from - (from - to) * e / 1024
    }
}

/// Computes the interpolated coordinate; the result never leaves the
/// closed interval between the two endpoints.
fn lerp_axis(from: u64, to: u64, e: u32) -> (r: u64)
    requires
        from < MAX_SCREEN,
        to < MAX_SCREEN,
        e <= 1024,
    ensures
        r == spec_lerp(from as int, to as int, e as int),
        from <= to ==> from <= r <= to,
        to <= from ==> to <= r <= from,
{
    let ee: u64 = e as u64;
    if from <= to {
        let delta: u64 = to - from;
        assert(delta * ee <= delta * 1024) by (nonlinear_arith)
            requires
                ee <= 1024,
                0 <= delta,
        ;
        let scaled: u64 = delta * ee;
        proof {
            lemma_div_pos_is_pos(scaled as int, 1024);
            lemma_div_is_ordered(scaled as int, delta as int * 1024, 1024);
            lemma_div_by_multiple(delta as int, 1024);
        }
        from + scaled / 1024
    } else {
        let delta: u64 = from - to;
        assert(delta * ee <= delta * 1024) by (nonlinear_arith)
            requires
                ee <= 1024,
                0 <= delta,
        ;
        let scaled: u64 = delta * ee;
        proof {
            lemma_div_pos_is_pos(scaled as int, 1024);
            lemma_div_is_ordered(scaled as int, delta as int * 1024, 1024);
            lemma_div_by_multiple(delta as int, 1024);
        }
        from - scaled / 1024
    }
}

/// Transient interpolation state attached to an entity while its visible
/// position eases from the previous tile's screen position to the new
/// one over a fixed duration. At most one exists per entity; a newly
/// accepted move event replaces it.
#[derive(Clone, Copy, PartialEq, Eq, Structural, Debug)]
pub struct MoveAnimation {
    pub from_x: u64,
    pub from_y: u64,
    pub to_x: u64,
    pub to_y: u64,
    pub elapsed_ms: u32,
    pub duration_ms: u32,
}

impl MoveAnimation {
    /// Well-formedness: a positive duration not yet exceeded, and screen
    /// coordinates small enough for exact interpolation arithmetic.
    pub open spec fn wf(self) -> bool {
        &&& 0 < self.duration_ms
        &&& self.elapsed_ms <= self.duration_ms
        &&& self.from_x < MAX_SCREEN
        &&& self.from_y < MAX_SCREEN
        &&& self.to_x < MAX_SCREEN
        &&& self.to_y < MAX_SCREEN
    }

    /// Eased progress of the animation so far, in 1024ths.
    pub open spec fn spec_progress(self) -> int {
        spec_cubic_ease(self.elapsed_ms as int, self.duration_ms as int)
    }

    /// The visible horizontal position at the current progress.
    pub open spec fn spec_sample_x(self) -> int {
        spec_lerp(self.from_x as int, self.to_x as int, self.spec_progress())
    }

    /// The visible vertical position at the current progress.
    pub open spec fn spec_sample_y(self) -> int {
        spec_lerp(self.from_y as int, self.to_y as int, self.spec_progress())
    }

    /// Starts a fresh animation from one screen position to another over
    /// the fixed move duration.
    pub fn begin(from: (u64, u64), to: (u64, u64)) -> (a: MoveAnimation)
        requires
            from.0 < MAX_SCREEN,
            from.1 < MAX_SCREEN,
            to.0 < MAX_SCREEN,
            to.1 < MAX_SCREEN,
        ensures
            a == (MoveAnimation {
                from_x: from.0,
                from_y: from.1,
                to_x: to.0,
                to_y: to.1,
                elapsed_ms: 0,
                duration_ms: MOVE_ANIMATION_MS,
            }),
            a.wf(),
    {
        MoveAnimation {
            from_x: from.0,
            from_y: from.1,
            to_x: to.0,
            to_y: to.1,
            elapsed_ms: 0,
            duration_ms: MOVE_ANIMATION_MS,
        }
    }

    /// Samples the visible screen position once for the current frame.
    pub fn sample(&self) -> (p: (u64, u64))
        requires
            self.wf(),
        ensures
            p.0 == self.spec_sample_x(),
            p.1 == self.spec_sample_y(),
            p.0 < MAX_SCREEN,
            p.1 < MAX_SCREEN,
    {
        let e: u32 = cubic_ease_in_out(self.elapsed_ms, self.duration_ms);
        proof {
            lemma_cubic_ease_bounds(self.elapsed_ms as int, self.duration_ms as int);
        }
        let x: u64 = lerp_axis(self.from_x, self.to_x, e);
        let y: u64 = lerp_axis(self.from_y, self.to_y, e);
        (x, y)
    }
}

/// At the very start of an animation the visible position is exactly the
/// starting screen position; once elapsed time reaches the duration it is
/// exactly the target, so removing the finished animation snaps the
/// entity onto its tile with no drift.
pub proof fn lemma_sample_endpoints(a: MoveAnimation)
    requires
        a.wf(),
    ensures
        a.elapsed_ms == 0 ==> a.spec_sample_x() == a.from_x && a.spec_sample_y() == a.from_y,
        a.elapsed_ms == a.duration_ms ==> a.spec_sample_x() == a.to_x
            && a.spec_sample_y() == a.to_y,
{
    lemma_cubic_ease_bounds(a.elapsed_ms as int, a.duration_ms as int);
    let e = a.spec_progress();
    if a.elapsed_ms == 0 {
        lemma_lerp_at_zero(a.from_x as int, a.to_x as int);
        lemma_lerp_at_zero(a.from_y as int, a.to_y as int);
    }
    if a.elapsed_ms == a.duration_ms {
        lemma_lerp_at_full(a.from_x as int, a.to_x as int);
        lemma_lerp_at_full(a.from_y as int, a.to_y as int);
    }
}

/// The interpolated coordinate never leaves the closed interval between
/// its two endpoints.
pub proof fn lemma_lerp_bounds(from: int, to: int, e: int)
    requires
        0 <= e <= 1024,
    ensures
        from <= to ==> from <= spec_lerp(from, to, e) <= to,
        to <= from ==> to <= spec_lerp(from, to, e) <= from,
{
    if from <= to {
        let delta = to - from;
        assert(0 <= delta * e <= delta * 1024) by (nonlinear_arith)
            requires
                0 <= e <= 1024,
                0 <= delta,
        ;
        lemma_div_pos_is_pos(delta * e, 1024);
        lemma_div_is_ordered(delta * e, delta * 1024, 1024);
        lemma_div_by_multiple(delta, 1024);
    } else {
        let delta = from - to;
        assert(0 <= delta * e <= delta * 1024) by (nonlinear_arith)
            requires
                0 <= e <= 1024,
                0 <= delta,
        ;
        lemma_div_pos_is_pos(delta * e, 1024);
        lemma_div_is_ordered(delta * e, delta * 1024, 1024);
        lemma_div_by_multiple(delta, 1024);
    }
}

/// A well-formed animation samples within the screen bound on both axes.
pub proof fn lemma_sample_bounds(a: MoveAnimation)
    requires
        a.wf(),
    ensures
        0 <= a.spec_sample_x() < MAX_SCREEN,
        0 <= a.spec_sample_y() < MAX_SCREEN,
{
    lemma_cubic_ease_bounds(a.elapsed_ms as int, a.duration_ms as int);
    lemma_lerp_bounds(a.from_x as int, a.to_x as int, a.spec_progress());
    lemma_lerp_bounds(a.from_y as int, a.to_y as int, a.spec_progress());
}

/// Interpolation at progress 0 returns the starting coordinate.
proof fn lemma_lerp_at_zero(from: int, to: int)
    ensures
        spec_lerp(from, to, 0) == from,
{
    if from <= to {
        assert((to - from) * 0 == 0) by (nonlinear_arith);
    } else {
        assert((from - to) * 0 == 0) by (nonlinear_arith);
    }
}

/// Interpolation at full progress returns the target coordinate exactly.
proof fn lemma_lerp_at_full(from: int, to: int)
    ensures
        spec_lerp(from, to, 1024) == to,
{
    if from <= to {
        lemma_div_by_multiple(to - from, 1024);
        assert((to - from) * 1024 / 1024 == to - from);
    } else {
        lemma_div_by_multiple(from - to, 1024);
        assert((from - to) * 1024 / 1024 == from - to);
    }
}

} // verus!
