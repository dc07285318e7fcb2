use vstd::prelude::*;

use crate::game_error::GameError;
use crate::orientation::{Cardinality, Orientation};
use crate::position::{lemma_index_parts, Position, PositionDelta};
use crate::tile::{SpaceTile, Tile, WallTile};

verus! {

broadcast use Position::lemma_spec_new;

#[derive(Debug, Clone, Copy, PartialEq, Eq, Structural, PartialOrd, Ord, Hash)]
pub enum Player {
    A,
    B,
}

impl Player {
    /// The marker that a space cell holds while this player stands on it.
    pub open spec fn marker(self) -> Tile {
        match self {
            Player::A => Tile::SpaceTile(SpaceTile::PlayerA),
            Player::B => Tile::SpaceTile(SpaceTile::PlayerB),
        }
    }

    /// The opponent.
    pub open spec fn other(self) -> Player {
        match self {
            Player::A => Player::B,
            Player::B => Player::A,
        }
    }

    /// The row this player has to reach: the last row for `A`, row zero for `B`.
    pub open spec fn goal_row(self, height: int) -> int {
        match self {
            Player::A => height - 1,
            Player::B => 0,
        }
    }
}

/// A `HEIGHT` x `WIDTH` grid of tiles with the two players' positions.
///
/// Cells with an even row and an even column are space cells; all others are
/// wall-segment cells. The grid is stored row by row.
pub struct Board<const HEIGHT: usize, const WIDTH: usize> {
    matrix: Vec<Tile>,
    pub a_pos: Position<HEIGHT, WIDTH>,
    pub b_pos: Position<HEIGHT, WIDTH>,
}

impl<const HEIGHT: usize, const WIDTH: usize> Board<HEIGHT, WIDTH> {
    /// The tiles, row by row.
    pub closed spec fn cells(&self) -> Seq<Tile> {
        self.matrix@
    }

    pub open spec fn in_grid(row: int, col: int) -> bool {
        0 <= row < HEIGHT && 0 <= col < WIDTH
    }

    /// The tile at (`row`, `col`).
    pub open spec fn tile_at(&self, row: int, col: int) -> Tile {
        self.cells()[row * WIDTH + col]
    }

    /// Where `player` stands.
    pub closed spec fn pos_of(&self, player: Player) -> Position<HEIGHT, WIDTH> {
        match player {
            Player::A => self.a_pos,
            Player::B => self.b_pos,
        }
    }

    /// The board's invariant: the grid has `HEIGHT * WIDTH` tiles and odd
    /// dimensions, space tiles lie exactly on even/even coordinates, and each
    /// player's marker stands on exactly one cell, the one its position names.
    pub open spec fn wf(&self) -> bool {
        &&& self.cells().len() == HEIGHT * WIDTH
        &&& HEIGHT * WIDTH <= usize::MAX
        &&& HEIGHT % 2 == 1
        &&& WIDTH % 2 == 1
        &&& Self::in_grid(self.pos_of(Player::A).row(), self.pos_of(Player::A).col())
        &&& Self::in_grid(self.pos_of(Player::B).row(), self.pos_of(Player::B).col())
        &&& forall|r: int, c: int|
            #![trigger self.tile_at(r, c)]
            Self::in_grid(r, c) ==> ((self.tile_at(r, c) is SpaceTile) <==> (r % 2 == 0 && c % 2
                == 0))
        &&& self.tile_at(self.pos_of(Player::A).row(), self.pos_of(Player::A).col()) == Player::A.marker()
        &&& self.tile_at(self.pos_of(Player::B).row(), self.pos_of(Player::B).col()) == Player::B.marker()
        &&& forall|r: int, c: int|
            #![trigger self.tile_at(r, c)]
            Self::in_grid(r, c) && self.tile_at(r, c) == Player::A.marker() ==> r
                == self.pos_of(Player::A).row() && c == self.pos_of(Player::A).col()
        &&& forall|r: int, c: int|
            #![trigger self.tile_at(r, c)]
            Self::in_grid(r, c) && self.tile_at(r, c) == Player::B.marker() ==> r
                == self.pos_of(Player::B).row() && c == self.pos_of(Player::B).col()
    }

    /// The tile that a fresh board holds at (`row`, `col`), before the players
    /// are placed.
    pub open spec fn initial_tile(row: int, col: int) -> Tile {
        if row % 2 == 0 && col % 2 == 0 {
            Tile::SpaceTile(SpaceTile::Empty)
        } else {
            Tile::WallTile(WallTile::Open)
        }
    }

    /// What building on the wall-segment cell (`row`, `col`) meets: nothing, a
    /// space cell, or a wall already built there.
    pub open spec fn segment_check(&self, row: int, col: int) -> Result<(), GameError> {
        match self.tile_at(row, col) {
            Tile::SpaceTile(_) => Err(GameError::PositionIsNotWall((row as usize, col as usize))),
            Tile::WallTile(WallTile::Blocked) => Err(
                GameError::PositionIsBlocked((row as usize, col as usize)),
            ),
            Tile::WallTile(WallTile::Open) => Ok(()),
        }
    }

    /// The step from one segment of a wall to the next: rightwards for a
    /// horizontal wall, downwards for a vertical one.
    pub open spec fn axis(orientation: Orientation) -> (int, int) {
        match orientation {
            Orientation::Horizontal => (0, 1),
            Orientation::Vertical => (1, 0),
        }
    }

    /// (`row`, `col`) is one of the three segments of the wall that starts at
    /// `pos` and runs along `orientation`.
    pub open spec fn on_wall(
        pos: Position<HEIGHT, WIDTH>,
        orientation: Orientation,
        row: int,
        col: int,
    ) -> bool {
        let (dr, dc) = Self::axis(orientation);
        ||| row == pos.row() && col == pos.col()
        ||| row == pos.row() + dr && col == pos.col() + dc
        ||| row == pos.row() + 2 * dr && col == pos.col() + 2 * dc
    }

    /// The outcome of placing a wall at `pos` along `orientation`: the far end
    /// must lie on the grid, then the far, middle and near segments are checked
    /// in that order and the first failure is reported.
    pub open spec fn wall_outcome(&self, pos: Position<HEIGHT, WIDTH>, orientation: Orientation) -> Result<(), GameError> {
        let (dr, dc) = Self::axis(orientation);
        let (r, c) = (pos.row(), pos.col());
        if !Self::in_grid(r + 2 * dr, c + 2 * dc) {
            Err(
                GameError::TriedToGoOutOfBounds(
                    (r as usize, c as usize),
                    PositionDelta { delta_height: (2 * dr) as i32, delta_width: (2 * dc) as i32 },
                ),
            )
        } else if self.segment_check(r + 2 * dr, c + 2 * dc) is Err {
            self.segment_check(r + 2 * dr, c + 2 * dc)
        } else if self.segment_check(r + dr, c + dc) is Err {
            self.segment_check(r + dr, c + dc)
        } else {
            self.segment_check(r, c)
        }
    }

    /// The move from (`row`, `col`) over the wall-segment cell (`row + dr`,
    /// `col + dc`) onto the space cell (`row + 2 * dr`, `col + 2 * dc`) is open:
    /// both lie on the grid, the wall segment is open and the space is empty.
    pub open spec fn open_step(&self, row: int, col: int, dr: int, dc: int) -> bool {
        &&& Self::in_grid(row + dr, col + dc)
        &&& Self::in_grid(row + 2 * dr, col + 2 * dc)
        &&& self.tile_at(row + dr, col + dc) == Tile::WallTile(WallTile::Open)
        &&& self.tile_at(row + 2 * dr, col + 2 * dc) == Tile::SpaceTile(SpaceTile::Empty)
    }

    /// The outcome of moving `player` one space towards `cardinality`: both the
    /// wall segment and the space beyond it must lie on the grid (checked in
    /// that order), the segment must not be blocked, and the space beyond must
    /// be a space cell that nobody stands on.
    pub open spec fn move_outcome(&self, player: Player, cardinality: Cardinality) -> Result<(), GameError> {
        let p = self.pos_of(player);
        let (r, c) = (p.row(), p.col());
        let (dr, dc) = cardinality.spec_delta();
        if !Self::in_grid(r + dr, c + dc) {
            Err(
                GameError::TriedToGoOutOfBounds(
                    (r as usize, c as usize),
                    PositionDelta { delta_height: dr as i32, delta_width: dc as i32 },
                ),
            )
        } else if !Self::in_grid(r + 2 * dr, c + 2 * dc) {
            Err(
                GameError::TriedToGoOutOfBounds(
                    (r as usize, c as usize),
                    PositionDelta { delta_height: (2 * dr) as i32, delta_width: (2 * dc) as i32 },
                ),
            )
        } else if self.tile_at(r + dr, c + dc).spec_occupied() {
            Err(GameError::PositionIsBlocked(((r + dr) as usize, (c + dc) as usize)))
        } else if !(self.tile_at(r + 2 * dr, c + 2 * dc) is SpaceTile) {
            Err(GameError::PositionIsNotSpace(((r + 2 * dr) as usize, (c + 2 * dc) as usize)))
        } else if self.tile_at(r + 2 * dr, c + 2 * dc).spec_occupied() {
            Err(GameError::PositionIsBlocked(((r + 2 * dr) as usize, (c + 2 * dc) as usize)))
        } else {
            Ok(())
        }
    }

    /// Who has won: `B` when its marker is on row zero, `A` when its marker is
    /// on the last row; when both are, the one in the lower column, `B` on a tie.
    pub open spec fn winner(&self) -> Option<Player> {
        let a_home = self.pos_of(Player::A).row() == HEIGHT - 1;
        let b_home = self.pos_of(Player::B).row() == 0;
        if b_home && (!a_home || self.pos_of(Player::B).col() <= self.pos_of(Player::A).col()) {
            Some(Player::B)
        } else if a_home {
            Some(Player::A)
        } else {
            None
        }
    }

    /// With `B` off row zero, `A` standing anywhere on the last row has won.
    pub proof fn lemma_last_row_wins(&self)
        requires
            self.wf(),
            self.pos_of(Player::A).row() == HEIGHT - 1,
            self.pos_of(Player::B).row() != 0,
        ensures
            self.winner() == Some(Player::A),
    {
    }

    /// Exactly one cell holds each player's marker.
    pub proof fn lemma_one_cell_per_player(&self, player: Player)
        requires
            self.wf(),
        ensures
            exists|r: int, c: int|
                #![trigger self.tile_at(r, c)]
                Self::in_grid(r, c) && self.tile_at(r, c) == player.marker() && forall|
                    r2: int,
                    c2: int,
                |
                    #![trigger self.tile_at(r2, c2)]
                    Self::in_grid(r2, c2) && self.tile_at(r2, c2) == player.marker() ==> r2 == r
                        && c2 == c,
    {
        let p = self.pos_of(player);
        assert(self.tile_at(p.row(), p.col()) == player.marker());
    }

    /// A fresh board: every wall segment open, player `A` in the middle of row
    /// zero and player `B` in the middle of the last row.
    ///
    /// The dimensions are odd, with more than one row (else both players would
    /// start on one cell), and the middle column is a column of space cells.
    pub fn new() -> (r: Self)
        requires
            HEIGHT % 2 == 1,
            WIDTH % 2 == 1,
            HEIGHT > 1,
            (WIDTH / 2) % 2 == 0,
            HEIGHT * WIDTH <= usize::MAX,
        ensures
            r.wf(),
            r.pos_of(Player::A).row() == 0,
            r.pos_of(Player::A).col() == WIDTH / 2,
            r.pos_of(Player::B).row() == HEIGHT - 1,
            r.pos_of(Player::B).col() == WIDTH / 2,
            r.winner() == None::<Player>,
            forall|row: int, col: int|
                #![trigger r.tile_at(row, col)]
                Self::in_grid(row, col) && !(row == 0 && col == WIDTH / 2) && !(row == HEIGHT - 1
                    && col == WIDTH / 2) ==> r.tile_at(row, col) == Self::initial_tile(row, col),
    {
        let mut matrix = Self::initial_matrix();
        let center_of_row = WIDTH / 2;
        let player_a_start = Position::<HEIGHT, WIDTH>::new(0, center_of_row).unwrap();
        let player_b_start = Position::<HEIGHT, WIDTH>::new(HEIGHT - 1, center_of_row).unwrap();
        let ia = Self::index_of(player_a_start);
        let ib = Self::index_of(player_b_start);
        matrix.set(ia, Tile::SpaceTile(SpaceTile::PlayerA));
        matrix.set(ib, Tile::SpaceTile(SpaceTile::PlayerB));
        let board = Self { matrix, a_pos: player_a_start, b_pos: player_b_start };
        proof {
            assert forall|r: int, c: int| #[trigger]
                Self::in_grid(r, c) implies board.tile_at(r, c) == if r == 0 && c
                == center_of_row {
                Player::A.marker()
            } else if r == HEIGHT - 1 && c == center_of_row {
                Player::B.marker()
            } else {
                Self::initial_tile(r, c)
            } by {
                lemma_index_parts(r, c, HEIGHT as int, WIDTH as int);
                lemma_index_parts(0, center_of_row as int, HEIGHT as int, WIDTH as int);
                lemma_index_parts(
                    (HEIGHT - 1) as int,
                    center_of_row as int,
                    HEIGHT as int,
                    WIDTH as int,
                );
            }
            assert(board.tile_at(0, center_of_row as int) == Player::A.marker());
            assert(board.tile_at(HEIGHT - 1, center_of_row as int) == Player::B.marker());
            assert(forall|r: int, c: int|
                #![trigger board.tile_at(r, c)]
                Self::in_grid(r, c) ==> ((board.tile_at(r, c) is SpaceTile) <==> (r % 2 == 0 && c % 2
                    == 0)));
        }
        board
    }

    /// Every cell as a fresh board holds it before the players are placed.
    fn initial_matrix() -> (m: Vec<Tile>)
        requires
            HEIGHT * WIDTH <= usize::MAX,
            WIDTH > 0,
        ensures
            m@.len() == HEIGHT * WIDTH,
            forall|r: int, c: int|
                Self::in_grid(r, c) ==> #[trigger] m@[r * WIDTH + c] == Self::initial_tile(r, c),
    {
        let n: usize = HEIGHT * WIDTH;
        let mut matrix: Vec<Tile> = Vec::new();
        let mut idx: usize = 0;
        while idx < n
            invariant
                n == HEIGHT * WIDTH,
                WIDTH > 0,
                matrix@.len() == idx,
                idx <= n,
                forall|k: int|
                    0 <= k < idx ==> #[trigger] matrix@[k] == Self::initial_tile(
                        k / WIDTH as int,
                        k % WIDTH as int,
                    ),
            decreases n - idx,
        {
            let row = idx / WIDTH;
            let col = idx % WIDTH;
            let tile = if row % 2 == 0 && col % 2 == 0 {
                Tile::SpaceTile(SpaceTile::Empty)
            } else {
                Tile::WallTile(WallTile::Open)
            };
            matrix.push(tile);
            idx += 1;
        }
        proof {
            assert forall|r: int, c: int| Self::in_grid(r, c) implies #[trigger] matrix@[r * WIDTH
                + c] == Self::initial_tile(r, c) by {
                lemma_index_parts(r, c, HEIGHT as int, WIDTH as int);
            }
        }
        matrix
    }

    /// The tile at `position`.
    pub fn get_tile(&self, position: Position<HEIGHT, WIDTH>) -> (r: Tile)
        requires
            self.wf(),
        ensures
            r == self.tile_at(position.row(), position.col()),
    {
        let idx = Self::index_of(position);
        self.matrix[idx]
    }

    /// The linear index of `position`, with the facts that callers need of it.
    pub(crate) fn index_of(position: Position<HEIGHT, WIDTH>) -> (r: usize)
        ensures
            r == position.row() * WIDTH + position.col(),
            Self::in_grid(position.row(), position.col()),
            r < HEIGHT * WIDTH,
    {
        let row = position.height();
        let col = position.width();
        proof {
            lemma_index_parts(row as int, col as int, HEIGHT as int, WIDTH as int);
        }
        usize::from(position)
    }

    fn tile_check(&self, pos: Position<HEIGHT, WIDTH>) -> (r: Result<(), GameError>)
        requires
            self.wf(),
        ensures
            r == self.segment_check(pos.row(), pos.col()),
    {
        let tile = self.get_tile(pos);
        if !tile.is_wall_tile() {
            return Err(GameError::PositionIsNotWall((pos.height(), pos.width())));
        }
        if tile.is_occupied() {
            return Err(GameError::PositionIsBlocked((pos.height(), pos.width())));
        }
        Ok(())
    }

    /// The three segments of the wall, far end first, once all of them are
    /// found free.
    fn get_valid_wall_positions(&self, pos: Position<HEIGHT, WIDTH>, orientation: Orientation) -> (r: Result<Vec<Position<HEIGHT, WIDTH>>, GameError>)
        requires
            self.wf(),
        ensures
            Self::in_grid(pos.row(), pos.col()),
            r is Ok <==> self.wall_outcome(pos, orientation) is Ok,
            r matches Err(e) ==> self.wall_outcome(pos, orientation) == Err::<(), GameError>(e),
            r matches Ok(v) ==> v@.len() == 3 && ({
                let (dr, dc) = Self::axis(orientation);
                &&& v@[0].row() == pos.row() + 2 * dr && v@[0].col() == pos.col() + 2 * dc
                &&& v@[1].row() == pos.row() + dr && v@[1].col() == pos.col() + dc
                &&& v@[2].row() == pos.row() && v@[2].col() == pos.col()
            }),
    {
        let delta = match orientation {
            Orientation::Horizontal => Cardinality::East.to_delta(),
            Orientation::Vertical => Cardinality::South.to_delta(),
        };
        // `pos` lies on the grid, so the middle segment does whenever the far end does.
        let _ = Self::index_of(pos);
        let first_wall = pos;
        let last_wall = match pos + delta.doubled() {
            Ok(p) => p,
            Err(e) => return Err(e),
        };
        let second_wall = match pos + delta {
            Ok(p) => p,
            Err(e) => return Err(e),
        };
        let positions = vec![last_wall, second_wall, first_wall];
        match self.tile_check(last_wall) {
            Ok(_) => {},
            Err(e) => return Err(e),
        }
        match self.tile_check(second_wall) {
            Ok(_) => {},
            Err(e) => return Err(e),
        }
        match self.tile_check(first_wall) {
            Ok(_) => {},
            Err(e) => return Err(e),
        }
        Ok(positions)
    }

    /// Whether a wall can be placed at `pos` along `orientation`; the board is
    /// not changed.
    pub fn can_place_wall(&self, pos: Position<HEIGHT, WIDTH>, orientation: Orientation) -> (r: bool)
        requires
            self.wf(),
        ensures
            r == (self.wall_outcome(pos, orientation) is Ok),
    {
        self.get_valid_wall_positions(pos, orientation).is_ok()
    }

    /// Blocks the three segments of a wall at `pos` along `orientation`, or
    /// changes nothing and reports the first obstacle.
    ///
    /// Whether both players can still reach their goal rows afterwards is not
    /// checked here: that is `check_for_path`.
    pub fn place_wall(&mut self, pos: Position<HEIGHT, WIDTH>, orientation: Orientation) -> (r: Result<(), GameError>)
        requires
            old(self).wf(),
        ensures
            final(self).wf(),
            forall|row: int, col: int|
                #![trigger final(self).tile_at(row, col)]
                Self::in_grid(row, col) && old(self).tile_at(row, col) == Tile::WallTile(
                    WallTile::Blocked,
                ) ==> final(self).tile_at(row, col) == Tile::WallTile(WallTile::Blocked),
            r == old(self).wall_outcome(pos, orientation),
            r is Err ==> final(self).cells() == old(self).cells(),
            final(self).pos_of(Player::A) == old(self).pos_of(Player::A),
            final(self).pos_of(Player::B) == old(self).pos_of(Player::B),
            r is Ok ==> forall|row: int, col: int|
                #![trigger final(self).tile_at(row, col)]
                Self::in_grid(row, col) ==> final(self).tile_at(row, col) == if Self::on_wall(
                    pos,
                    orientation,
                    row,
                    col,
                ) {
                    Tile::WallTile(WallTile::Blocked)
                } else {
                    old(self).tile_at(row, col)
                },
    {
        let valid_positions = match self.get_valid_wall_positions(pos, orientation) {
            Ok(v) => v,
            Err(e) => return Err(e),
        };
        let ghost before = *self;
        proof {
            let (dr, dc) = Self::axis(orientation);
            assert(before.segment_check(pos.row() + dr, pos.col() + dc) is Ok);
            assert(before.segment_check(pos.row(), pos.col()) is Ok);
            lemma_index_parts(pos.row(), pos.col(), HEIGHT as int, WIDTH as int);
            lemma_index_parts(pos.row() + dr, pos.col() + dc, HEIGHT as int, WIDTH as int);
            lemma_index_parts(pos.row() + 2 * dr, pos.col() + 2 * dc, HEIGHT as int, WIDTH as int);
        }
        self.block(valid_positions[0]);
        self.block(valid_positions[1]);
        self.block(valid_positions[2]);
        proof {
            let (dr, dc) = Self::axis(orientation);
            assert forall|row: int, col: int| #[trigger]
                Self::in_grid(row, col) implies self.tile_at(row, col) == if Self::on_wall(
                pos,
                orientation,
                row,
                col,
            ) {
                Tile::WallTile(WallTile::Blocked)
            } else {
                before.tile_at(row, col)
            } by {
                lemma_index_parts(row, col, HEIGHT as int, WIDTH as int);
                lemma_index_parts(pos.row(), pos.col(), HEIGHT as int, WIDTH as int);
                lemma_index_parts(pos.row() + dr, pos.col() + dc, HEIGHT as int, WIDTH as int);
                lemma_index_parts(pos.row() + 2 * dr, pos.col() + 2 * dc, HEIGHT as int, WIDTH as int);
            }
        }
        Ok(())
    }

    /// Sets the wall-segment cell at `pos` to blocked.
    fn block(&mut self, pos: Position<HEIGHT, WIDTH>)
        requires
            old(self).wf(),
            old(self).tile_at(pos.row(), pos.col()) is WallTile,
        ensures
            final(self).wf(),
            final(self).cells() == old(self).cells().update(
                pos.row() * WIDTH + pos.col(),
                Tile::WallTile(WallTile::Blocked),
            ),
            final(self).pos_of(Player::A) == old(self).pos_of(Player::A),
            final(self).pos_of(Player::B) == old(self).pos_of(Player::B),
    {
        let idx = Self::index_of(pos);
        let ghost before = *self;
        self.matrix.set(idx, Tile::WallTile(WallTile::Blocked));
        proof {
            assert forall|row: int, col: int| #[trigger]
                Self::in_grid(row, col) implies self.tile_at(row, col) == if row == pos.row() && col
                == pos.col() {
                Tile::WallTile(WallTile::Blocked)
            } else {
                before.tile_at(row, col)
            } by {
                lemma_index_parts(row, col, HEIGHT as int, WIDTH as int);
                lemma_index_parts(pos.row(), pos.col(), HEIGHT as int, WIDTH as int);
            }
            let a = before.pos_of(Player::A);
            let b = before.pos_of(Player::B);
            assert(before.tile_at(a.row(), a.col()) is SpaceTile);
            assert(before.tile_at(b.row(), b.col()) is SpaceTile);
        }
    }

    /// Exchanges the contents of two space cells and, when `player` is given,
    /// records `to_pos` as that player's position.
    ///
    /// The board stays well formed when the named player moves from its own
    /// cell onto an empty one.
    pub fn swap_spaces(&mut self, from_pos: Position<HEIGHT, WIDTH>, to_pos: Position<HEIGHT, WIDTH>, player: Option<Player>) -> (r: Result<(), GameError>)
        requires
            old(self).wf(),
        ensures
            r is Err <==> !(old(self).tile_at(from_pos.row(), from_pos.col()) is SpaceTile && old(
                self,
            ).tile_at(to_pos.row(), to_pos.col()) is SpaceTile),
            r matches Err(e) ==> e == GameError::SwappingDifferentTileTypes(
                (from_pos.row() as usize, from_pos.col() as usize),
                (to_pos.row() as usize, to_pos.col() as usize),
            ),
            r is Err ==> final(self).cells() == old(self).cells(),
            r is Err ==> final(self).pos_of(Player::A) == old(self).pos_of(Player::A)
                && final(self).pos_of(Player::B) == old(self).pos_of(Player::B),
            r is Ok ==> forall|row: int, col: int|
                #![trigger final(self).tile_at(row, col)]
                Self::in_grid(row, col) ==> final(self).tile_at(row, col) == if row == to_pos.row()
                    && col == to_pos.col() {
                    old(self).tile_at(from_pos.row(), from_pos.col())
                } else if row == from_pos.row() && col == from_pos.col() {
                    old(self).tile_at(to_pos.row(), to_pos.col())
                } else {
                    old(self).tile_at(row, col)
                },
            r is Ok ==> final(self).pos_of(Player::A) == if player == Some(Player::A) {
                to_pos
            } else {
                old(self).pos_of(Player::A)
            },
            r is Ok ==> final(self).pos_of(Player::B) == if player == Some(Player::B) {
                to_pos
            } else {
                old(self).pos_of(Player::B)
            },
            (r is Ok && (player matches Some(pl) && from_pos == old(self).pos_of(pl)) && old(
                self,
            ).tile_at(to_pos.row(), to_pos.col()) == Tile::SpaceTile(SpaceTile::Empty))
                ==> final(self).wf(),
    {
        if !self.get_tile(from_pos).is_space_tile() || !self.get_tile(to_pos).is_space_tile() {
            return Err(GameError::SwappingDifferentTileTypes(from_pos.as_tuple(), to_pos.as_tuple()));
        }
        let from_idx = Self::index_of(from_pos);
        let to_idx = Self::index_of(to_pos);
        let ghost before = *self;
        let temp = self.matrix[from_idx];
        let other = self.matrix[to_idx];
        self.matrix.set(from_idx, other);
        self.matrix.set(to_idx, temp);
        match player {
            Some(Player::A) => self.a_pos = to_pos,
            Some(Player::B) => self.b_pos = to_pos,
            None => (),
        }
        proof {
            assert forall|row: int, col: int| #[trigger]
                Self::in_grid(row, col) implies self.tile_at(row, col) == if row == to_pos.row()
                && col == to_pos.col() {
                before.tile_at(from_pos.row(), from_pos.col())
            } else if row == from_pos.row() && col == from_pos.col() {
                before.tile_at(to_pos.row(), to_pos.col())
            } else {
                before.tile_at(row, col)
            } by {
                lemma_index_parts(row, col, HEIGHT as int, WIDTH as int);
                lemma_index_parts(from_pos.row(), from_pos.col(), HEIGHT as int, WIDTH as int);
                lemma_index_parts(to_pos.row(), to_pos.col(), HEIGHT as int, WIDTH as int);
            }
        }
        Ok(())
    }

    /// Moves `player` one space towards `cardinality`, over the wall segment in
    /// between, or changes nothing and reports why the move is refused.
    pub fn move_player(&mut self, player: Player, cardinality: Cardinality) -> (r: Result<(), GameError>)
        requires
            old(self).wf(),
        ensures
            final(self).wf(),
            forall|row: int, col: int|
                #![trigger final(self).tile_at(row, col)]
                Self::in_grid(row, col) && old(self).tile_at(row, col) == Tile::WallTile(
                    WallTile::Blocked,
                ) ==> final(self).tile_at(row, col) == Tile::WallTile(WallTile::Blocked),
            r == old(self).move_outcome(player, cardinality),
            r is Ok <==> ({
                let p = old(self).pos_of(player);
                let (dr, dc) = cardinality.spec_delta();
                old(self).open_step(p.row(), p.col(), dr, dc)
            }),
            r is Err ==> final(self).cells() == old(self).cells(),
            r is Err ==> final(self).pos_of(player) == old(self).pos_of(player),
            r is Ok ==> ({
                let p = old(self).pos_of(player);
                let (dr, dc) = cardinality.spec_delta();
                &&& final(self).pos_of(player).row() == p.row() + 2 * dr
                &&& final(self).pos_of(player).col() == p.col() + 2 * dc
                &&& forall|row: int, col: int|
                    #![trigger final(self).tile_at(row, col)]
                    Self::in_grid(row, col) ==> final(self).tile_at(row, col) == if row == p.row()
                        + 2 * dr && col == p.col() + 2 * dc {
                        player.marker()
                    } else if row == p.row() && col == p.col() {
                        Tile::SpaceTile(SpaceTile::Empty)
                    } else {
                        old(self).tile_at(row, col)
                    }
            }),
            final(self).pos_of(player.other()) == old(self).pos_of(player.other()),
    {
        let wall_check = cardinality.to_delta();
        let delta = wall_check.doubled();
        let (player_pos, player_tile) = match player {
            Player::A => (self.a_pos, Tile::SpaceTile(SpaceTile::PlayerA)),
            Player::B => (self.b_pos, Tile::SpaceTile(SpaceTile::PlayerB)),
        };
        let wall_check_position = match player_pos + wall_check {
            Ok(p) => p,
            Err(e) => return Err(e),
        };
        let new_position = match player_pos + delta {
            Ok(p) => p,
            Err(e) => return Err(e),
        };
        let wall_tile = self.get_tile(wall_check_position);
        if wall_tile.is_occupied() {
            return Err(GameError::PositionIsBlocked(wall_check_position.as_tuple()));
        }
        let new_tile = self.get_tile(new_position);
        if !new_tile.is_space_tile() {
            return Err(GameError::PositionIsNotSpace(new_position.as_tuple()));
        }
        if new_tile.is_occupied() {
            return Err(GameError::PositionIsBlocked(new_position.as_tuple()));
        }
        proof {
            let (dr, dc) = cardinality.spec_delta();
            let (r, c) = (player_pos.row(), player_pos.col());
            assert(self.tile_at(r, c) == player.marker());
            assert(self.tile_at(r + dr, c + dc) is WallTile);
        }
        match self.swap_spaces(player_pos, new_position, Some(player)) {
            Ok(_) => {},
            Err(e) => return Err(e),
        }
        Ok(())
    }

    /// The player whose marker stands on its goal row: row zero is scanned for
    /// `B` and the last row for `A`, column by column from zero.
    pub fn check_for_winner(&self) -> (r: Option<Player>)
        requires
            self.wf(),
        ensures
            r == self.winner(),
    {
        let mut width: usize = 0;
        while width < WIDTH
            invariant
                self.wf(),
                width <= WIDTH,
                forall|c: int| 0 <= c < width ==> #[trigger] self.tile_at(0, c) != Player::B.marker(),
                forall|c: int|
                    0 <= c < width ==> #[trigger] self.tile_at(HEIGHT - 1, c) != Player::A.marker(),
            decreases WIDTH - width,
        {
            let pos = Position::new(0, width).unwrap();
            if self.get_tile(pos) == Tile::SpaceTile(SpaceTile::PlayerB) {
                proof {
                    let a = self.pos_of(Player::A);
                    let b = self.pos_of(Player::B);
                    assert(self.tile_at(0, width as int) == Player::B.marker());
                    if a.row() == HEIGHT - 1 {
                        assert(self.tile_at(HEIGHT - 1, a.col()) == Player::A.marker());
                    }
                }
                return Some(Player::B);
            }
            let pos = Position::new(HEIGHT - 1, width).unwrap();
            if self.get_tile(pos) == Tile::SpaceTile(SpaceTile::PlayerA) {
                return Some(Player::A);
            }
            width += 1;
        }
        proof {
            let a = self.pos_of(Player::A);
            let b = self.pos_of(Player::B);
            assert(self.tile_at(b.row(), b.col()) == Player::B.marker());
            assert(self.tile_at(a.row(), a.col()) == Player::A.marker());
        }
        None
    }
}

impl<const HEIGHT: usize, const WIDTH: usize> std::ops::Index<Position<HEIGHT, WIDTH>> for Board<HEIGHT, WIDTH> {
    type Output = Tile;

    fn index(&self, index: Position<HEIGHT, WIDTH>) -> (r: &Tile) {
        let idx = Self::index_of(index);
        &self.matrix[idx]
    }
}

impl<const HEIGHT: usize, const WIDTH: usize> vstd::std_specs::core::IndexSpecImpl<Position<HEIGHT, WIDTH>> for Board<HEIGHT, WIDTH> {
    open spec fn index_req(&self, index: &Position<HEIGHT, WIDTH>) -> bool {
        self.wf()
    }
}

} // verus!
