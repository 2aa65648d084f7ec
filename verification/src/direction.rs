//! Compass directions and the resolver that turns concurrently active
//! abstract input directions into a single net unit direction.

use vstd::prelude::*;

verus! {

/// One of the eight compass directions an entity can move in, or
/// equivalently a 2D unit step whose components are each -1, 0 or 1.
///
/// Logical tile-y grows northward and tile-x grows eastward.
#[derive(Clone, Copy, PartialEq, Eq, Structural, Debug)]
pub enum Direction {
    North,
    NorthEast,
    East,
    SouthEast,
    South,
    SouthWest,
    West,
    NorthWest,
}

impl Direction {
    /// Horizontal component of the unit step: east is +1, west is -1.
    pub open spec fn spec_dx(self) -> int {
        match self {
            Direction::East | Direction::NorthEast | Direction::SouthEast => 1,
            Direction::West | Direction::NorthWest | Direction::SouthWest => -1,
            Direction::North | Direction::South => 0,
        }
    }

    /// Vertical component of the unit step: north is +1, south is -1.
    pub open spec fn spec_dy(self) -> int {
        match self {
            Direction::North | Direction::NorthEast | Direction::NorthWest => 1,
            Direction::South | Direction::SouthEast | Direction::SouthWest => -1,
            Direction::East | Direction::West => 0,
        }
    }

    /// The unit step of this direction on the integer grid.
    pub fn unit_vector(self) -> (v: (i32, i32))
        ensures
            v.0 == self.spec_dx(),
            v.1 == self.spec_dy(),
    {
        match self {
            Direction::North => (0, 1),
            Direction::NorthEast => (1, 1),
            Direction::East => (1, 0),
            Direction::SouthEast => (1, -1),
            Direction::South => (0, -1),
            Direction::SouthWest => (-1, -1),
            Direction::West => (-1, 0),
            Direction::NorthWest => (-1, 1),
        }
    }
}

/// The set of abstract cardinal input directions whose activation edge
/// fired this tick. Which physical keys or buttons feed each flag is the
/// input source's business, not the library's.
#[derive(Clone, Copy, PartialEq, Eq, Structural, Debug)]
pub struct InputDirections {
    pub north: bool,
    pub south: bool,
    pub east: bool,
    pub west: bool,
}

impl InputDirections {
    /// No input direction active.
    pub fn none() -> (r: InputDirections)
        ensures
            r == (InputDirections { north: false, south: false, east: false, west: false }),
    {
        InputDirections { north: false, south: false, east: false, west: false }
    }

    /// Horizontal component of the vector sum of the active unit vectors.
    pub open spec fn net_dx(self) -> int {
        (if self.east { 1int } else { 0int }) - (if self.west { 1int } else { 0int })
    }

    /// Vertical component of the vector sum of the active unit vectors.
    pub open spec fn net_dy(self) -> int {
        (if self.north { 1int } else { 0int }) - (if self.south { 1int } else { 0int })
    }
}

/// The direction whose unit step is (dx, dy), for dx, dy each in
/// {-1, 0, 1}; no direction when both components are zero.
pub open spec fn spec_direction_of(dx: int, dy: int) -> Option<Direction> {
    if dx == 0 && dy == 0 {
        None
    } else if dx == 0 && dy == 1 {
        Some(Direction::North)
    } else if dx == 1 && dy == 1 {
        Some(Direction::NorthEast)
    } else if dx == 1 && dy == 0 {
        Some(Direction::East)
    } else if dx == 1 && dy == -1 {
        Some(Direction::SouthEast)
    } else if dx == 0 && dy == -1 {
        Some(Direction::South)
    } else if dx == -1 && dy == -1 {
        Some(Direction::SouthWest)
    } else if dx == -1 && dy == 0 {
        Some(Direction::West)
    } else if dx == -1 && dy == 1 {
        Some(Direction::NorthWest)
    } else {
        None
    }
}

/// What the resolver returns for a given input set: the direction of the
/// net vector sum, or no direction when the active inputs cancel exactly
/// or nothing is active.
pub open spec fn spec_resolve(inputs: InputDirections) -> Option<Direction> {
    spec_direction_of(inputs.net_dx(), inputs.net_dy())
}

/// Sums the unit vectors of the active input directions and normalizes
/// the sum into a single compass direction. Opposing inputs cancel; a
/// zero sum is the expected "no intent" outcome, not an error.
pub fn resolve_direction(inputs: InputDirections) -> (r: Option<Direction>)
    ensures
        r == spec_resolve(inputs),
{
    let dx: i32 = (if inputs.east { 1 } else { 0 }) - (if inputs.west { 1 } else { 0 });
    let dy: i32 = (if inputs.north { 1 } else { 0 }) - (if inputs.south { 1 } else { 0 });
    if dx == 0 && dy == 0 {
        None
    } else if dx == 0 && dy == 1 {
        Some(Direction::North)
    } else if dx == 1 && dy == 1 {
        Some(Direction::NorthEast)
    } else if dx == 1 && dy == 0 {
        Some(Direction::East)
    } else if dx == 1 && dy == -1 {
        Some(Direction::SouthEast)
    } else if dx == 0 && dy == -1 {
        Some(Direction::South)
    } else if dx == -1 && dy == -1 {
        Some(Direction::SouthWest)
    } else if dx == -1 && dy == 0 {
        Some(Direction::West)
    } else {
        Some(Direction::NorthWest)
    }
}

/// The resolver yields no direction exactly when the vector sum of the
/// contributed unit vectors is zero; and when it yields a direction, that
/// direction's unit step equals the net sum of the inputs.
pub proof fn lemma_resolve_none_iff_zero_sum(inputs: InputDirections)
    ensures
        spec_resolve(inputs) is None <==> (inputs.net_dx() == 0 && inputs.net_dy() == 0),
        spec_resolve(inputs) matches Some(d) ==> d.spec_dx() == inputs.net_dx()
            && d.spec_dy() == inputs.net_dy(),
{
}

} // verus!
