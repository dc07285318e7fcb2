use vstd::prelude::*;

verus! {

/// Movement along the ground: one of eight compass directions, or none.
#[derive(Debug, Clone, Copy, PartialEq, Eq, Structural)]
pub enum MoveDirections {
    NorthWest,
    North,
    NorthEast,
    West,
    Stationary,
    East,
    SouthWest,
    South,
    SouthEast,
}

impl MoveDirections {
    /// The direction that the held keys `[W, A, S, D]` ask for. Opposite keys
    /// cancel: `W` with `S`, `A` with `D`.
    pub open spec fn spec_from_keys(keys: [bool; 4]) -> MoveDirections {
        let (w, a, s, d) = (keys@[0], keys@[1], keys@[2], keys@[3]);
        let north = w && !s;
        let south = s && !w;
        let west = a && !d;
        let east = d && !a;
        if north && west {
            MoveDirections::NorthWest
        } else if north && east {
            MoveDirections::NorthEast
        } else if south && west {
            MoveDirections::SouthWest
        } else if south && east {
            MoveDirections::SouthEast
        } else if north {
            MoveDirections::North
        } else if south {
            MoveDirections::South
        } else if west {
            MoveDirections::West
        } else if east {
            MoveDirections::East
        } else {
            MoveDirections::Stationary
        }
    }

    /// The direction for the keys `[W, A, S, D]` currently held.
    pub fn new_pressed(pressed: [bool; 4]) -> (r: Self)
        ensures
            r == Self::spec_from_keys(pressed),
    {
        Self::from(pressed)
    }
}

impl From<[bool; 4]> for MoveDirections {
    fn from(value: [bool; 4]) -> (r: Self) {
        match (value[0], value[1], value[2], value[3]) {
            (false, false, true, false) => Self::South,
            (false, false, true, true) => Self::SouthEast,
            (false, false, false, true) => Self::East,
            (true, false, false, true) => Self::NorthEast,
            (true, false, true, true) => Self::East,
            (true, true, false, false) => Self::NorthWest,
            (false, true, true, false) => Self::SouthWest,
            (false, true, true, true) => Self::South,
            (true, true, false, true) => Self::North,
            (true, false, false, false) => Self::North,
            (true, true, true, false) => Self::West,
            (false, true, false, false) => Self::West,
            (false, true, false, true) => Self::Stationary,
            (true, false, true, false) => Self::Stationary,
            (true, true, true, true) => Self::Stationary,
            (false, false, false, false) => Self::Stationary,
        }
    }
}

impl vstd::std_specs::convert::FromSpecImpl<[bool; 4]> for MoveDirections {
    open spec fn obeys_from_spec() -> bool {
        true
    }

    open spec fn from_spec(v: [bool; 4]) -> MoveDirections {
        Self::spec_from_keys(v)
    }
}

} // verus!
