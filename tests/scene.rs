use quoridor::move_directions::MoveDirections;
use quoridor::scene::{GizmoOutlineToggle, GridPosition, GridType, MyPlayer, PlayerId};

#[test]
fn grid_types_in_order() {
    assert_eq!(
        GridType::all(),
        vec![GridType::Tile, GridType::Circle, GridType::Horizontal, GridType::Vertical]
    );
}

#[test]
fn grid_position_clamps_to_last_tile() {
    assert_eq!(GridPosition::new(2, 0), GridPosition::new(2, 0));
    assert_eq!(GridPosition::new(7, 3), GridPosition::new(4, 3));
    assert_eq!(GridPosition::new(1, 100), GridPosition::new(1, 4));
    assert_ne!(GridPosition::new(3, 3), GridPosition::new(4, 3));
    let player = MyPlayer::new(PlayerId::B, GridPosition::new(2, 4));
    assert_eq!(player, MyPlayer::new(PlayerId::B, GridPosition::new(2, 9)));
}

#[test]
fn outline_toggle() {
    let toggle = GizmoOutlineToggle::default();
    assert!(toggle.is_invisible() && !toggle.is_visible());
    assert!(GizmoOutlineToggle::Visible.is_visible());
    assert!(!GizmoOutlineToggle::Visible.is_invisible());
}

#[test]
fn keys_to_directions() {
    assert_eq!(MoveDirections::new_pressed([true, false, false, false]), MoveDirections::North);
    assert_eq!(MoveDirections::new_pressed([false, true, false, false]), MoveDirections::West);
    assert_eq!(MoveDirections::new_pressed([false, false, true, true]), MoveDirections::SouthEast);
    assert_eq!(MoveDirections::new_pressed([true, true, false, false]), MoveDirections::NorthWest);
    assert_eq!(MoveDirections::new_pressed([true, false, true, true]), MoveDirections::East);
    assert_eq!(MoveDirections::new_pressed([true, true, true, true]), MoveDirections::Stationary);
    assert_eq!(MoveDirections::new_pressed([false, true, false, true]), MoveDirections::Stationary);
    assert_eq!(MoveDirections::from([false, false, false, false]), MoveDirections::Stationary);
}
