use vstd::prelude::*;

use crate::game_error::GameError;

verus! {

/// The contents of one grid cell.
#[derive(Debug, Clone, Copy, PartialEq, Eq, Structural, PartialOrd, Ord, Hash)]
pub enum Tile {
    SpaceTile(SpaceTile),
    WallTile(WallTile),
}

/// A cell that a player can stand on.
#[derive(Debug, Clone, Copy, PartialEq, Eq, Structural, PartialOrd, Ord, Hash)]
pub enum SpaceTile {
    PlayerA,
    PlayerB,
    Empty,
}

/// A cell between space cells, where walls are built.
#[derive(Debug, Clone, Copy, PartialEq, Eq, Structural, PartialOrd, Ord, Hash)]
pub enum WallTile {
    Open,
    Blocked,
}

impl Tile {
    /// A player stands on it, or a wall was built on it.
    pub open spec fn spec_occupied(self) -> bool {
        match self {
            Tile::SpaceTile(SpaceTile::Empty) | Tile::WallTile(WallTile::Open) => false,
            _ => true,
        }
    }

    /// The character that stands for this tile.
    pub open spec fn spec_char(self) -> char {
        match self {
            Tile::SpaceTile(s) => s.spec_char(),
            Tile::WallTile(w) => w.spec_char(),
        }
    }

    /// The tile that `c` stands for, or the error that names `c`.
    pub open spec fn spec_from_char(c: char) -> Result<Tile, GameError> {
        if c == 'A' {
            Ok(Tile::SpaceTile(SpaceTile::PlayerA))
        } else if c == 'B' {
            Ok(Tile::SpaceTile(SpaceTile::PlayerB))
        } else if c == 'X' {
            Ok(Tile::WallTile(WallTile::Blocked))
        } else if c == ' ' {
            Ok(Tile::WallTile(WallTile::Open))
        } else if c == '.' {
            Ok(Tile::SpaceTile(SpaceTile::Empty))
        } else {
            Err(GameError::InvalidTileChar(c))
        }
    }

    pub fn is_wall_tile(&self) -> (r: bool)
        ensures
            r == (*self is WallTile),
    {
        match self {
            Tile::SpaceTile(_) => false,
            Tile::WallTile(_) => true,
        }
    }

    pub fn is_space_tile(&self) -> (r: bool)
        ensures
            r == (*self is SpaceTile),
    {
        match self {
            Tile::SpaceTile(_) => true,
            Tile::WallTile(_) => false,
        }
    }

    pub fn is_occupied(&self) -> (r: bool)
        ensures
            r == self.spec_occupied(),
    {
        match self {
            Tile::SpaceTile(space_tile) => {
                match space_tile {
                    SpaceTile::PlayerA | SpaceTile::PlayerB => true,
                    SpaceTile::Empty => false,
                }
            },
            Tile::WallTile(wall_tile) => {
                match wall_tile {
                    WallTile::Open => false,
                    WallTile::Blocked => true,
                }
            },
        }
    }

    /// Each tile has a character of its own, and that character reads back as
    /// the same tile; a character that stands for no tile is rejected.
    pub proof fn lemma_char_round_trip(self, other: Tile, c: char)
        ensures
            Tile::spec_from_char(self.spec_char()) == Ok::<Tile, GameError>(self),
            self.spec_char() == other.spec_char() ==> self == other,
            (c != 'A' && c != 'B' && c != 'X' && c != ' ' && c != '.') ==> Tile::spec_from_char(c)
                == Err::<Tile, GameError>(GameError::InvalidTileChar(c)),
    {
    }
}

impl SpaceTile {
    pub open spec fn spec_char(self) -> char {
        match self {
            SpaceTile::PlayerA => 'A',
            SpaceTile::PlayerB => 'B',
            SpaceTile::Empty => '.',
        }
    }

    pub fn to_char(&self) -> (r: char)
        ensures
            r == self.spec_char(),
    {
        match self {
            SpaceTile::PlayerA => 'A',
            SpaceTile::PlayerB => 'B',
            SpaceTile::Empty => '.',
        }
    }
}

impl WallTile {
    pub open spec fn spec_char(self) -> char {
        match self {
            WallTile::Open => ' ',
            WallTile::Blocked => 'X',
        }
    }

    pub fn to_char(&self) -> (r: char)
        ensures
            r == self.spec_char(),
    {
        match self {
            WallTile::Open => ' ',
            WallTile::Blocked => 'X',
        }
    }
}

impl TryFrom<char> for Tile {
    type Error = GameError;

    fn try_from(value: char) -> (r: Result<Self, GameError>) {
        // Reading the characters back from `to_char` keeps one table of them.
        if SpaceTile::PlayerA.to_char() == value {
            Ok(Tile::SpaceTile(SpaceTile::PlayerA))
        } else if SpaceTile::PlayerB.to_char() == value {
            Ok(Tile::SpaceTile(SpaceTile::PlayerB))
        } else if WallTile::Blocked.to_char() == value {
            Ok(Tile::WallTile(WallTile::Blocked))
        } else if WallTile::Open.to_char() == value {
            Ok(Tile::WallTile(WallTile::Open))
        } else if SpaceTile::Empty.to_char() == value {
            Ok(Tile::SpaceTile(SpaceTile::Empty))
        } else {
            Err(GameError::InvalidTileChar(value))
        }
    }
}

impl vstd::std_specs::convert::TryFromSpecImpl<char> for Tile {
    open spec fn obeys_try_from_spec() -> bool {
        true
    }

    open spec fn try_from_spec(v: char) -> Result<Self, GameError> {
        Tile::spec_from_char(v)
    }
}

impl From<Tile> for char {
    fn from(value: Tile) -> (r: char) {
        match value {
            Tile::SpaceTile(space_tile) => space_tile.to_char(),
            Tile::WallTile(wall_tile) => wall_tile.to_char(),
        }
    }
}

impl vstd::std_specs::convert::FromSpecImpl<Tile> for char {
    open spec fn obeys_from_spec() -> bool {
        true
    }

    open spec fn from_spec(v: Tile) -> char {
        v.spec_char()
    }
}

} // verus!
