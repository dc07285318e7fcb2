use vstd::prelude::*;

use crate::position::PositionDelta;

verus! {

/// The axis along which a wall of three segments is laid.
#[derive(Debug, Clone, Copy, PartialEq, Eq, Structural, PartialOrd, Ord, Hash)]
pub enum Orientation {
    Horizontal,
    Vertical,
}

/// One of the four compass directions.
#[derive(Debug, Clone, Copy, PartialEq, Eq, Structural)]
pub enum Cardinality {
    North,
    East,
    South,
    West,
}

impl Cardinality {
    /// The (row, column) offset of one step in this direction; north is
    /// towards row zero.
    pub open spec fn spec_delta(self) -> (int, int) {
        match self {
            Cardinality::North => (-1, 0),
            Cardinality::East => (0, 1),
            Cardinality::South => (1, 0),
            Cardinality::West => (0, -1),
        }
    }

    pub fn to_delta(&self) -> (r: PositionDelta)
        ensures
            (r.delta_height as int, r.delta_width as int) == self.spec_delta(),
    {
        match self {
            Cardinality::North => PositionDelta::new(-1, 0),
            Cardinality::East => PositionDelta::new(0, 1),
            Cardinality::South => PositionDelta::new(1, 0),
            Cardinality::West => PositionDelta::new(0, -1),
        }
    }
}

} // verus!
