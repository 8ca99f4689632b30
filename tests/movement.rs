use snake_spine::SnakeMoveDirection;

#[test]
fn forward_ratio_is_plus_one() {
    assert_eq!(SnakeMoveDirection::Forward.movement_ratio(), 1);
}

#[test]
fn backward_ratio_is_minus_one() {
    assert_eq!(SnakeMoveDirection::Backward.movement_ratio(), -1);
}

#[test]
fn stop_ratio_is_zero() {
    assert_eq!(SnakeMoveDirection::Stop.movement_ratio(), 0);
}
