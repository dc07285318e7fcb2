use quoridor::board::{Board, Player};
use quoridor::game::Game;
use quoridor::game_error::GameError;
use quoridor::orientation::{Cardinality, Orientation};
use quoridor::position::{Position, PositionDelta};
use quoridor::tile::{SpaceTile, Tile, WallTile};

fn count_tiles<const H: usize, const W: usize>(board: &Board<H, W>, tile: Tile) -> usize {
    (0..H * W)
        .filter(|&idx| board[Position::<H, W>::try_from(idx).unwrap()] == tile)
        .count()
}

fn enclosed_board(walls: &[((usize, usize), Orientation)]) -> Board<9, 9> {
    let mut board = Board::<9, 9>::new();
    for &((row, col), orientation) in walls {
        board.place_wall(Position::new(row, col).unwrap(), orientation).unwrap();
    }
    board
}

#[test]
fn index_round_trip_on_every_cell() {
    for row in 0..7usize {
        for col in 0..5usize {
            let pos = Position::<7, 5>::new(row, col).unwrap();
            let idx = usize::from(pos);
            assert_eq!(idx, row * 5 + col);
            assert_eq!(Position::<7, 5>::try_from(idx), Ok(pos));
        }
    }
    for idx in 35..60usize {
        assert_eq!(Position::<7, 5>::try_from(idx), Err(GameError::IndexToPositionError(idx)));
    }
}

#[test]
fn position_new_rejects_out_of_range() {
    assert!(Position::<5, 5>::new(4, 4).is_some());
    assert_eq!(Position::<5, 5>::new(5, 0), None);
    assert_eq!(Position::<5, 5>::new(0, 5), None);
    assert_eq!(Position::<5, 5>::new(2, 3).unwrap().as_tuple(), (2, 3));
}

#[test]
fn single_steps_stop_at_edges() {
    let corner = Position::<5, 5>::new(0, 0).unwrap();
    assert_eq!(corner.step_left(), None);
    assert_eq!(corner.step_up(), None);
    assert_eq!(corner.step_right(), Position::new(0, 1));
    assert_eq!(corner.step_down(), Position::new(1, 0));
    let far = Position::<5, 5>::new(4, 4).unwrap();
    assert_eq!(far.step_right(), None);
    assert_eq!(far.step_down(), None);
    assert_eq!(far.step_left(), Position::new(4, 3));
    assert_eq!(far.step_up(), Position::new(3, 4));
}

#[test]
fn delta_arithmetic_is_checked() {
    let pos = Position::<5, 5>::new(2, 2).unwrap();
    let delta = PositionDelta::new(1, -2);
    assert_eq!(pos + delta, Ok(Position::new(3, 0).unwrap()));
    assert_eq!(pos - delta, Ok(Position::new(1, 4).unwrap()));
    let big = PositionDelta::new(3, 0);
    assert_eq!(pos + big, Err(GameError::TriedToGoOutOfBounds((2, 2), big)));
    assert_eq!(pos - big, Err(GameError::TriedToGoOutOfBounds((2, 2), big)));
    assert_eq!(PositionDelta::new(-1, 3).doubled(), PositionDelta::new(-2, 6));
    assert_eq!(PositionDelta::new(-1, 3).tripled(), PositionDelta::new(-2, 9));
}

#[test]
fn cardinal_deltas() {
    assert_eq!(Cardinality::North.to_delta(), PositionDelta::new(-1, 0));
    assert_eq!(Cardinality::East.to_delta(), PositionDelta::new(0, 1));
    assert_eq!(Cardinality::South.to_delta(), PositionDelta::new(1, 0));
    assert_eq!(Cardinality::West.to_delta(), PositionDelta::new(0, -1));
}

#[test]
fn moves_keep_one_marker_per_player() {
    let mut board = Board::<5, 5>::new();
    let moves = [
        (Player::A, Cardinality::South),
        (Player::B, Cardinality::West),
        (Player::A, Cardinality::East),
        (Player::B, Cardinality::North),
        (Player::A, Cardinality::North),
        (Player::B, Cardinality::East),
    ];
    for (player, cardinality) in moves {
        board.move_player(player, cardinality).unwrap();
        assert_eq!(count_tiles(&board, Tile::SpaceTile(SpaceTile::PlayerA)), 1);
        assert_eq!(count_tiles(&board, Tile::SpaceTile(SpaceTile::PlayerB)), 1);
        assert_eq!(board[board.a_pos], Tile::SpaceTile(SpaceTile::PlayerA));
        assert_eq!(board[board.b_pos], Tile::SpaceTile(SpaceTile::PlayerB));
    }
    assert_eq!(board.a_pos, Position::new(0, 4).unwrap());
    assert_eq!(board.b_pos, Position::new(2, 2).unwrap());
}

#[test]
fn move_errors() {
    let mut board = Board::<5, 5>::new();
    assert_eq!(
        board.move_player(Player::A, Cardinality::North),
        Err(GameError::TriedToGoOutOfBounds((0, 2), PositionDelta::new(-1, 0)))
    );
    board.place_wall(Position::new(1, 2).unwrap(), Orientation::Horizontal).unwrap();
    assert_eq!(
        board.move_player(Player::A, Cardinality::South),
        Err(GameError::PositionIsBlocked((1, 2)))
    );
    assert_eq!(board.a_pos, Position::new(0, 2).unwrap());

    let mut board = Board::<3, 5>::new();
    board.move_player(Player::A, Cardinality::West).unwrap();
    board.move_player(Player::B, Cardinality::West).unwrap();
    board.move_player(Player::B, Cardinality::East).unwrap();
    board.move_player(Player::A, Cardinality::East).unwrap();
    let mut board = Board::<3, 5>::new();
    board.move_player(Player::A, Cardinality::West).unwrap();
    board.move_player(Player::B, Cardinality::West).unwrap();
    assert_eq!(
        board.move_player(Player::A, Cardinality::South),
        Err(GameError::PositionIsBlocked((2, 0)))
    );
    let mut board = Board::<3, 5>::new();
    assert_eq!(
        board.move_player(Player::A, Cardinality::South),
        Err(GameError::PositionIsBlocked((2, 2)))
    );
}

#[test]
fn move_out_of_bounds_after_one_step() {
    let mut board = Board::<5, 5>::new();
    board.move_player(Player::A, Cardinality::West).unwrap();
    assert_eq!(
        board.move_player(Player::A, Cardinality::West),
        Err(GameError::TriedToGoOutOfBounds((0, 0), PositionDelta::new(0, -1)))
    );
}

#[test]
fn failed_wall_changes_nothing() {
    let mut board = Board::<5, 5>::new();
    board.place_wall(Position::new(1, 0).unwrap(), Orientation::Horizontal).unwrap();
    let before: Vec<Tile> = (0..25).map(|i| board[Position::<5, 5>::try_from(i).unwrap()]).collect();
    assert_eq!(
        board.place_wall(Position::new(1, 2).unwrap(), Orientation::Horizontal),
        Err(GameError::PositionIsBlocked((1, 2)))
    );
    let after: Vec<Tile> = (0..25).map(|i| board[Position::<5, 5>::try_from(i).unwrap()]).collect();
    assert_eq!(before, after);
    assert_eq!(
        board.place_wall(Position::new(0, 1).unwrap(), Orientation::Horizontal),
        Err(GameError::PositionIsNotWall((0, 2)))
    );
    assert_eq!(
        board.place_wall(Position::new(1, 3).unwrap(), Orientation::Horizontal),
        Err(GameError::TriedToGoOutOfBounds((1, 3), PositionDelta::new(0, 2)))
    );
    assert!(!board.can_place_wall(Position::new(1, 1).unwrap(), Orientation::Vertical));
    assert!(board.can_place_wall(Position::new(0, 3).unwrap(), Orientation::Vertical));
}

#[test]
fn placed_wall_blocks_three_segments() {
    let mut board = Board::<5, 5>::new();
    board.place_wall(Position::new(0, 1).unwrap(), Orientation::Vertical).unwrap();
    for row in 0..3 {
        assert_eq!(board.get_tile(Position::new(row, 1).unwrap()), Tile::WallTile(WallTile::Blocked));
    }
    assert_eq!(board.get_tile(Position::new(3, 1).unwrap()), Tile::WallTile(WallTile::Open));
    assert_eq!(board.get_tile(Position::new(0, 3).unwrap()), Tile::WallTile(WallTile::Open));
}

#[test]
fn enclosing_ring_blocks_the_path() {
    let ring = [
        ((0, 3), Orientation::Vertical),
        ((3, 6), Orientation::Horizontal),
        ((3, 3), Orientation::Horizontal),
    ];
    let open = enclosed_board(&ring[..2]);
    assert!(open.check_for_path(open.a_pos, Player::A));
    let closed = enclosed_board(&ring);
    assert!(!closed.check_for_path(closed.a_pos, Player::A));
    assert!(closed.check_for_path(closed.b_pos, Player::B));
    for left_out in 0..ring.len() {
        let walls: Vec<_> = (0..ring.len()).filter(|&i| i != left_out).map(|i| ring[i]).collect();
        let board = enclosed_board(&walls);
        assert!(board.check_for_path(board.a_pos, Player::A), "without wall {left_out}");
    }
}

#[test]
fn path_from_goal_row_is_immediate() {
    let board = Board::<5, 5>::new();
    assert!(board.check_for_path(board.a_pos, Player::B));
    assert!(board.check_for_path(board.b_pos, Player::A));
}

#[test]
fn a_wins_on_every_cell_of_last_row() {
    for col in (0..5).step_by(2) {
        if col == 2 {
            continue;
        }
        let mut board = Board::<5, 5>::new();
        let target = Position::new(4, col).unwrap();
        board.swap_spaces(board.a_pos, target, Some(Player::A)).unwrap();
        assert_eq!(board.check_for_winner(), Some(Player::A));
    }
}

#[test]
fn b_wins_on_row_zero() {
    let mut board = Board::<5, 5>::new();
    let target = Position::new(0, 0).unwrap();
    board.swap_spaces(board.b_pos, target, Some(Player::B)).unwrap();
    assert_eq!(board.b_pos, target);
    assert_eq!(board.check_for_winner(), Some(Player::B));
}

#[test]
fn swapping_a_wall_with_a_space_fails() {
    let mut board = Board::<5, 5>::new();
    let wall = Position::new(0, 1).unwrap();
    let space = Position::new(0, 0).unwrap();
    assert_eq!(
        board.swap_spaces(space, wall, None),
        Err(GameError::SwappingDifferentTileTypes((0, 0), (0, 1)))
    );
    assert_eq!(board.get_tile(wall), Tile::WallTile(WallTile::Open));
}

#[test]
fn tile_chars_round_trip() {
    let tiles = [
        Tile::SpaceTile(SpaceTile::PlayerA),
        Tile::SpaceTile(SpaceTile::PlayerB),
        Tile::SpaceTile(SpaceTile::Empty),
        Tile::WallTile(WallTile::Open),
        Tile::WallTile(WallTile::Blocked),
    ];
    let chars: Vec<char> = tiles.iter().map(|&t| char::from(t)).collect();
    assert_eq!(chars, vec!['A', 'B', '.', ' ', 'X']);
    for tile in tiles {
        assert_eq!(Tile::try_from(char::from(tile)), Ok(tile));
    }
    for c in ['a', 'x', '#', '0', '\n'] {
        assert_eq!(Tile::try_from(c), Err(GameError::InvalidTileChar(c)));
    }
    assert_eq!(SpaceTile::Empty.to_char(), '.');
    assert_eq!(WallTile::Blocked.to_char(), 'X');
}

#[test]
fn tile_predicates() {
    let a = Tile::SpaceTile(SpaceTile::PlayerA);
    let empty = Tile::SpaceTile(SpaceTile::Empty);
    let open = Tile::WallTile(WallTile::Open);
    let blocked = Tile::WallTile(WallTile::Blocked);
    assert!(a.is_space_tile() && !a.is_wall_tile() && a.is_occupied());
    assert!(empty.is_space_tile() && !empty.is_occupied());
    assert!(open.is_wall_tile() && !open.is_space_tile() && !open.is_occupied());
    assert!(blocked.is_wall_tile() && blocked.is_occupied());
}

#[test]
fn game_plays_on_a_nine_by_nine_board() {
    let mut game = Game::new();
    assert_eq!(game.get_tile(Position::new(0, 4).unwrap()), Tile::SpaceTile(SpaceTile::PlayerA));
    assert_eq!(game.get_tile(Position::new(8, 4).unwrap()), Tile::SpaceTile(SpaceTile::PlayerB));
    assert_eq!(game.check_for_winner(), None);
    assert!(game.can_place_wall(Position::new(1, 0).unwrap(), Orientation::Horizontal));
    game.place_wall(Position::new(1, 0).unwrap(), Orientation::Horizontal).unwrap();
    assert!(!game.can_place_wall(Position::new(1, 0).unwrap(), Orientation::Horizontal));
    game.move_player(Player::A, Cardinality::South).unwrap();
    assert_eq!(game.get_tile(Position::new(2, 4).unwrap()), Tile::SpaceTile(SpaceTile::PlayerA));
    assert!(game.check_for_path(Position::new(2, 4).unwrap(), Player::A));
}
