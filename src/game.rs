use vstd::prelude::*;

use crate::board::{Board, Player};
use crate::game_error::GameError;
use crate::orientation::{Cardinality, Orientation};
use crate::position::Position;
use crate::tile::Tile;

verus! {

/// Side of the game's square grid: five space cells with four wall-segment
/// cells between them.
pub const DOUBLE_N_TILES: usize = 9;

/// The board of a running game, on a grid of `DOUBLE_N_TILES` cells a side.
pub struct Game {
    board: Board<DOUBLE_N_TILES, DOUBLE_N_TILES>,
}

impl Game {
    /// The board the game is played on.
    pub closed spec fn board(&self) -> Board<DOUBLE_N_TILES, DOUBLE_N_TILES> {
        self.board
    }

    pub open spec fn wf(&self) -> bool {
        self.board().wf()
    }

    pub fn new() -> (r: Self)
        ensures
            r.wf(),
            r.board().pos_of(Player::A).row() == 0,
            r.board().pos_of(Player::A).col() == DOUBLE_N_TILES / 2,
            r.board().pos_of(Player::B).row() == DOUBLE_N_TILES - 1,
            r.board().pos_of(Player::B).col() == DOUBLE_N_TILES / 2,
            forall|row: int, col: int|
                #![trigger r.board().tile_at(row, col)]
                Board::<DOUBLE_N_TILES, DOUBLE_N_TILES>::in_grid(row, col) && !(row == 0 && col
                    == DOUBLE_N_TILES / 2) && !(row == DOUBLE_N_TILES - 1 && col == DOUBLE_N_TILES
                    / 2) ==> r.board().tile_at(row, col) == Board::<
                    DOUBLE_N_TILES,
                    DOUBLE_N_TILES,
                >::initial_tile(row, col),
    {
        let board = Board::new();
        Self { board }
    }

    pub fn place_wall(&mut self, pos: Position<DOUBLE_N_TILES, DOUBLE_N_TILES>, orientation: Orientation) -> (r: Result<(), GameError>)
        requires
            old(self).wf(),
        ensures
            final(self).wf(),
            r == old(self).board().wall_outcome(pos, orientation),
            r is Err ==> final(self).board().cells() == old(self).board().cells(),
            final(self).board().pos_of(Player::A) == old(self).board().pos_of(Player::A),
            final(self).board().pos_of(Player::B) == old(self).board().pos_of(Player::B),
            r is Ok ==> forall|row: int, col: int|
                #![trigger final(self).board().tile_at(row, col)]
                Board::<DOUBLE_N_TILES, DOUBLE_N_TILES>::in_grid(row, col) ==> final(self).board().tile_at(row, col) == if Board::<
                    DOUBLE_N_TILES,
                    DOUBLE_N_TILES,
                >::on_wall(pos, orientation, row, col) {
                    Tile::WallTile(crate::tile::WallTile::Blocked)
                } else {
                    old(self).board().tile_at(row, col)
                },
    {
        self.board.place_wall(pos, orientation)
    }

    pub fn move_player(&mut self, player: Player, cardinality: Cardinality) -> (r: Result<(), GameError>)
        requires
            old(self).wf(),
        ensures
            final(self).wf(),
            r == old(self).board().move_outcome(player, cardinality),
            r is Err ==> final(self).board().cells() == old(self).board().cells(),
            r is Err ==> final(self).board().pos_of(player) == old(self).board().pos_of(player),
            r is Ok ==> ({
                let p = old(self).board().pos_of(player);
                let (dr, dc) = cardinality.spec_delta();
                &&& final(self).board().pos_of(player).row() == p.row() + 2 * dr
                &&& final(self).board().pos_of(player).col() == p.col() + 2 * dc
                &&& forall|row: int, col: int|
                    #![trigger final(self).board().tile_at(row, col)]
                    Board::<DOUBLE_N_TILES, DOUBLE_N_TILES>::in_grid(row, col) ==> final(self).board().tile_at(row, col) == if row == p.row() + 2 * dr && col == p.col() + 2
                        * dc {
                        player.marker()
                    } else if row == p.row() && col == p.col() {
                        Tile::SpaceTile(crate::tile::SpaceTile::Empty)
                    } else {
                        old(self).board().tile_at(row, col)
                    }
            }),
            final(self).board().pos_of(player.other()) == old(self).board().pos_of(player.other()),
    {
        self.board.move_player(player, cardinality)
    }

    pub fn check_for_path(&self, player_pos: Position<DOUBLE_N_TILES, DOUBLE_N_TILES>, player: Player) -> (r: bool)
        requires
            self.wf(),
        ensures
            r == self.board().has_path_to_row(
                (player_pos.row(), player_pos.col()),
                player.goal_row(DOUBLE_N_TILES as int),
            ),
    {
        self.board.check_for_path(player_pos, player)
    }

    pub fn check_for_winner(&self) -> (r: Option<Player>)
        requires
            self.wf(),
        ensures
            r == self.board().winner(),
    {
        self.board.check_for_winner()
    }

    pub fn get_tile(&self, position: Position<DOUBLE_N_TILES, DOUBLE_N_TILES>) -> (r: Tile)
        requires
            self.wf(),
        ensures
            r == self.board().tile_at(position.row(), position.col()),
    {
        self.board.get_tile(position)
    }

    pub fn can_place_wall(&self, position: Position<DOUBLE_N_TILES, DOUBLE_N_TILES>, orientation: Orientation) -> (r: bool)
        requires
            self.wf(),
        ensures
            r == (self.board().wall_outcome(position, orientation) is Ok),
    {
        self.board.can_place_wall(position, orientation)
    }
}

} // verus!
