use std::collections::HashSet;

use quoridor::board::{Board, Player};
use quoridor::orientation::{Cardinality, Orientation};
use quoridor::position::Position;
use quoridor::tile::{SpaceTile, Tile};

#[test]
fn check_for_winner() {
    const HEIGHT: usize = 5;
    const WIDTH: usize = 5;
    let mut board = Board::<HEIGHT, WIDTH>::new();
    let target_pos = Position::new(HEIGHT - 1, 0).unwrap();
    board.swap_spaces(board.a_pos, target_pos, Some(Player::A)).unwrap();
    assert_eq!(board.check_for_winner(), Some(Player::A))
}

#[test]
fn check_for_no_winner() {
    const HEIGHT: usize = 5;
    const WIDTH: usize = 5;
    let board = Board::<HEIGHT, WIDTH>::new();
    assert_eq!(board.check_for_winner(), None)
}

#[test]
fn finds_existing_path() {
    const HEIGHT: usize = 9;
    const WIDTH: usize = 9;
    let mut board = Board::<HEIGHT, WIDTH>::new();
    board.place_wall(Position::new(0, 3).unwrap(), Orientation::Vertical).unwrap();
    board.place_wall(Position::new(1, 4).unwrap(), Orientation::Horizontal).unwrap();
    board.place_wall(Position::new(3, 6).unwrap(), Orientation::Horizontal).unwrap();
    board.place_wall(Position::new(5, 4).unwrap(), Orientation::Horizontal).unwrap();
    board.place_wall(Position::new(5, 0).unwrap(), Orientation::Horizontal).unwrap();
    board.place_wall(Position::new(5, 7).unwrap(), Orientation::Vertical).unwrap();
    assert!(board.check_for_path(board.a_pos, Player::A));
}

#[test]
fn finds_no_path_when_no_path_exists() {
    const HEIGHT: usize = 9;
    const WIDTH: usize = 9;
    let mut board = Board::<HEIGHT, WIDTH>::new();
    board.place_wall(Position::new(0, 3).unwrap(), Orientation::Vertical).unwrap();
    board.place_wall(Position::new(1, 4).unwrap(), Orientation::Horizontal).unwrap();
    board.place_wall(Position::new(3, 6).unwrap(), Orientation::Horizontal).unwrap();
    board.place_wall(Position::new(5, 4).unwrap(), Orientation::Horizontal).unwrap();
    board.place_wall(Position::new(5, 0).unwrap(), Orientation::Horizontal).unwrap();
    board.place_wall(Position::new(5, 7).unwrap(), Orientation::Vertical).unwrap();
    board.place_wall(Position::new(3, 3).unwrap(), Orientation::Horizontal).unwrap();
    assert!(!board.check_for_path(board.a_pos, Player::A));
}

#[test]
fn player_moves() {
    const HEIGHT: usize = 5;
    const WIDTH: usize = 5;
    let mut board = Board::<HEIGHT, WIDTH>::new();
    board.move_player(Player::A, Cardinality::West).unwrap();
    let expected_position = Position::<HEIGHT, WIDTH>::new(0, 0).unwrap();
    assert_eq!(board.a_pos, expected_position);
    assert_eq!(board[expected_position], Tile::SpaceTile(SpaceTile::PlayerA));

    board.move_player(Player::A, Cardinality::South).unwrap();
    let expected_position = Position::<HEIGHT, WIDTH>::new(2, 0).unwrap();
    assert_eq!(board.a_pos, expected_position);
    assert_eq!(board[expected_position], Tile::SpaceTile(SpaceTile::PlayerA));

    board.move_player(Player::A, Cardinality::East).unwrap();
    let expected_position = Position::<HEIGHT, WIDTH>::new(2, 2).unwrap();
    assert_eq!(board.a_pos, expected_position);
    assert_eq!(board[expected_position], Tile::SpaceTile(SpaceTile::PlayerA));

    board.move_player(Player::A, Cardinality::North).unwrap();
    let expected_position = Position::<HEIGHT, WIDTH>::new(0, 2).unwrap();
    assert_eq!(board.a_pos, expected_position);
    assert_eq!(board[expected_position], Tile::SpaceTile(SpaceTile::PlayerA));
}

#[test]
fn all_horizontal_valid_placements_work() {
    const HEIGHT: usize = 5;
    const WIDTH: usize = 5;
    for height in (1..HEIGHT).step_by(2) {
        for width in 0..(WIDTH - 2) {
            let pos = Position::<HEIGHT, WIDTH>::new(height, width).unwrap();
            let mut board = Board::<HEIGHT, WIDTH>::new();
            let placement_result = board.place_wall(pos, Orientation::Horizontal);
            assert_eq!(placement_result, Ok(()))
        }
    }
}

#[test]
fn all_vertical_valid_placements_work() {
    const HEIGHT: usize = 5;
    const WIDTH: usize = 5;
    for height in 0..(HEIGHT - 2) {
        for width in (1..WIDTH).step_by(2) {
            let pos = Position::<HEIGHT, WIDTH>::new(height, width).unwrap();
            let mut board = Board::<HEIGHT, WIDTH>::new();
            let placement_result = board.place_wall(pos, Orientation::Vertical);
            assert_eq!(placement_result, Ok(()))
        }
    }
}

#[test]
fn walls_can_not_be_placed_on_spaces() {
    const HEIGHT: usize = 5;
    const WIDTH: usize = 5;
    for i in 1..(HEIGHT - 1) {
        for j in (0..WIDTH).step_by(2) {
            let pos = Position::<HEIGHT, WIDTH>::new(i, j).unwrap();
            let mut board = Board::<HEIGHT, WIDTH>::new();
            let placement_result = board.place_wall(pos, Orientation::Vertical);
            assert_ne!(placement_result, Ok(()))
        }
    }
    for i in (0..HEIGHT).step_by(2) {
        for j in 1..(WIDTH - 1) {
            let pos = Position::<HEIGHT, WIDTH>::new(i, j).unwrap();
            let mut board = Board::<HEIGHT, WIDTH>::new();
            let placement_result = board.place_wall(pos, Orientation::Horizontal);
            assert_ne!(placement_result, Ok(()))
        }
    }
}

#[test]
fn walls_are_blocked_by_players() {
    const HEIGHT: usize = 5;
    const WIDTH: usize = 5;
    let mut board = Board::<HEIGHT, WIDTH>::new();
    let a_pos = Position::<HEIGHT, WIDTH>::new(0, 2).unwrap();
    let b_pos = Position::<HEIGHT, WIDTH>::new(HEIGHT - 1, 2).unwrap();
    let placement_result_a = board.place_wall(a_pos.step_left().unwrap(), Orientation::Horizontal);
    let placement_result_b = board.place_wall(b_pos.step_up().unwrap(), Orientation::Vertical);
    assert_ne!(placement_result_a, Ok(()));
    assert_ne!(placement_result_b, Ok(()));
}

#[test]
fn valid_positions_are_constructable() {
    const HEIGHT: usize = 5;
    const WIDTH: usize = 5;
    let board = Board::<HEIGHT, WIDTH>::new();
    for i in 0..9usize {
        let pos = Position::<HEIGHT, WIDTH>::try_from(i);
        assert!(pos.is_ok());
        let pos = pos.unwrap();
        let _indexing = board[pos];
        assert!(true, "If this assert is reached, no indexings paniced.")
    }
}

#[test]
fn invalid_positions_are_not_constructable() {
    const HEIGHT: usize = 3;
    const WIDTH: usize = 3;
    for i in 9..100usize {
        let pos = Position::<HEIGHT, WIDTH>::try_from(i);
        assert!(
            pos.is_err(),
            "index {i} lead to the position {:?}, which should not work in a {HEIGHT}x{WIDTH} matrix.",
            pos.unwrap()
        );
    }
}

#[test]
fn players_occur_in_expected_positions() {
    const HEIGHT: usize = 5;
    const WIDTH: usize = 5;
    let board = Board::<HEIGHT, WIDTH>::new();
    let a_pos = Position::<HEIGHT, WIDTH>::new(0, 2).unwrap();
    assert_eq!(board[a_pos], Tile::SpaceTile(SpaceTile::PlayerA));
    let b_pos = Position::<HEIGHT, WIDTH>::new(HEIGHT - 1, 2).unwrap();
    assert_eq!(board[b_pos], Tile::SpaceTile(SpaceTile::PlayerB));
}

#[test]
fn only_one_instance_of_each_player_exists() {
    const HEIGHT: usize = 5;
    const WIDTH: usize = 5;
    let board = Board::<HEIGHT, WIDTH>::new();
    let tiles: Vec<Tile> = (0..HEIGHT * WIDTH)
        .map(|idx| board[Position::<HEIGHT, WIDTH>::try_from(idx).unwrap()])
        .collect();
    let a_count = tiles.iter().filter(|&&tile| tile == Tile::SpaceTile(SpaceTile::PlayerA)).count();
    assert_eq!(a_count, 1);
    let b_count = tiles.iter().filter(|&&tile| tile == Tile::SpaceTile(SpaceTile::PlayerB)).count();
    assert_eq!(b_count, 1);
}

#[test]
fn every_idx_maps_to_exactly_one_position() {
    const HEIGHT: usize = 1000;
    const WIDTH: usize = 100;
    let mut seen = HashSet::new();
    for index in 0..(HEIGHT * WIDTH) {
        let pos = Position::<HEIGHT, WIDTH>::try_from(index).unwrap();
        assert!(!seen.contains(&pos), "{pos:?} has been seen, but occurred again at idx=={index}");
        seen.insert(pos);
    }
}
