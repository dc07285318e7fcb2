use vstd::prelude::*;

verus! {

/// Tiles along each side of the displayed board.
pub const N_TILES: usize = 5;

/// The kinds of cell that the display draws an outline for.
#[derive(Debug, Clone, Copy, PartialEq, Eq, Structural)]
pub enum GridType {
    Tile,
    Circle,
    Horizontal,
    Vertical,
}

impl GridType {
    /// Every kind, in declaration order.
    pub fn all() -> (r: Vec<Self>)
        ensures
            r@ == seq![GridType::Tile, GridType::Circle, GridType::Horizontal, GridType::Vertical],
    {
        vec![Self::Tile, Self::Circle, Self::Horizontal, Self::Vertical]
    }
}

/// Which of the two players a displayed piece belongs to.
#[derive(Debug, Clone, Copy, PartialEq, Eq, Structural)]
pub enum PlayerId {
    A,
    B,
}

/// A tile of the displayed board, by column `x` and row `y`.
#[derive(Debug, Clone, Copy, PartialEq, Eq, Structural)]
pub struct GridPosition {
    x: usize,
    y: usize,
}

impl GridPosition {
    pub closed spec fn spec_x(self) -> usize {
        self.x
    }

    pub closed spec fn spec_y(self) -> usize {
        self.y
    }

    /// The tile at (`x`, `y`), each coordinate clamped to the last tile.
    pub fn new(x: usize, y: usize) -> (r: Self)
        ensures
            r.spec_x() == if x < N_TILES - 1 {
                x
            } else {
                (N_TILES - 1) as usize
            },
            r.spec_y() == if y < N_TILES - 1 {
                y
            } else {
                (N_TILES - 1) as usize
            },
    {
        let x = if x < N_TILES - 1 {
            x
        } else {
            N_TILES - 1
        };
        let y = if y < N_TILES - 1 {
            y
        } else {
            N_TILES - 1
        };
        Self { x, y }
    }
}

/// A player's piece on the displayed board.
#[derive(Debug, Clone, Copy, PartialEq, Eq, Structural)]
pub struct MyPlayer {
    player_id: PlayerId,
    pos: GridPosition,
}

impl MyPlayer {
    pub closed spec fn spec_player_id(self) -> PlayerId {
        self.player_id
    }

    pub closed spec fn spec_pos(self) -> GridPosition {
        self.pos
    }

    pub fn new(player_id: PlayerId, pos: GridPosition) -> (r: Self)
        ensures
            r.spec_player_id() == player_id,
            r.spec_pos() == pos,
    {
        Self { player_id, pos }
    }
}

/// Marks a displayed wall piece.
#[derive(Debug, Default)]
pub struct IsWall;

/// Whether a piece's outline is drawn.
#[derive(Clone, Copy, PartialEq, Eq, Structural, Debug)]
pub enum GizmoOutlineToggle {
    Visible,
    Invisible,
}

impl Default for GizmoOutlineToggle {
    fn default() -> (r: Self)
        ensures
            r == GizmoOutlineToggle::Invisible,
    {
        Self::Invisible
    }
}

impl GizmoOutlineToggle {
    pub fn is_visible(&self) -> (r: bool)
        ensures
            r == (*self == GizmoOutlineToggle::Visible),
    {
        match self {
            GizmoOutlineToggle::Visible => true,
            GizmoOutlineToggle::Invisible => false,
        }
    }

    pub fn is_invisible(&self) -> (r: bool)
        ensures
            r == (*self == GizmoOutlineToggle::Invisible),
    {
        match self {
            GizmoOutlineToggle::Visible => false,
            GizmoOutlineToggle::Invisible => true,
        }
    }
}

} // verus!
