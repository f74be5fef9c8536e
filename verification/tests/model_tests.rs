// Tests of the basic model types.

use turn_based_games::model::Player;

#[test]
fn other_swaps_players() {
    assert_eq!(Player::Player1.other(), Player::Player2);
    assert_eq!(Player::Player2.other(), Player::Player1);
}

#[test]
fn other_is_its_own_inverse() {
    assert_eq!(Player::Player1.other().other(), Player::Player1);
    assert_eq!(Player::Player2.other().other(), Player::Player2);
}
