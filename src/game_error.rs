use vstd::prelude::*;

use crate::position::PositionDelta;

verus! {

/// Everything that can go wrong in a board operation.
///
/// Each variant carries the coordinates (and, for out-of-bounds arithmetic, the
/// offset) that caused it, so that a caller can render a diagnostic.
#[derive(Debug, Clone, Copy, PartialEq, Eq, PartialOrd, Ord, Hash)]
pub enum GameError {
    InvalidTileChar(char),
    IndexToPositionError(usize),
    PositionIsBlocked((usize, usize)),
    PositionIsNotWall((usize, usize)),
    PositionIsNotSpace((usize, usize)),
    SpaceIsOutOfReach((usize, usize)),
    TriedToGoOutOfBounds((usize, usize), PositionDelta),
    PositionUnderflow((usize, usize), (i64, i64)),
    PositionOverflow((usize, usize), (i64, i64)),
    SwappingDifferentTileTypes((usize, usize), (usize, usize)),
}

} // verus!
