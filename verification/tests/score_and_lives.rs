use pacman::lives::{
    add_life_if_player_reaches_specific_score, remove_life_when_pacman_dies, spawn_lives, Life, PointsRequiredForExtraLife,
};
use pacman::score::{add_points_for_eaten_ghost, points_for_eaten_ghost, reset_eaten_ghost_counter_when_energizer_is_over, EatenGhostCounter, Score};

#[test]
fn ghosts_eaten_in_a_row_double_their_points() {
    assert_eq!(points_for_eaten_ghost(200, 0), 200);
    assert_eq!(points_for_eaten_ghost(200, 3), 1600);
    let mut score = Score::new();
    let mut counter = EatenGhostCounter(0);
    for _ in 0..4 {
        add_points_for_eaten_ghost(&mut score, &mut counter, 200);
    }
    assert_eq!(score.0, 200 + 400 + 800 + 1600);
    reset_eaten_ghost_counter_when_energizer_is_over(&mut counter);
    add_points_for_eaten_ghost(&mut score, &mut counter, 200);
    assert_eq!(score.0, 3200);
    score.add(10);
    assert_eq!(score.0, 3210);
}

#[test]
fn pacman_loses_his_last_life_first() {
    let mut lives = spawn_lives();
    assert_eq!(lives, vec![Life(0), Life(1), Life(2)]);
    remove_life_when_pacman_dies(&mut lives);
    assert_eq!(lives, vec![Life(0), Life(1)]);
    let mut empty: Vec<Life> = vec![];
    remove_life_when_pacman_dies(&mut empty);
    assert!(empty.is_empty());
}

#[test]
fn a_score_of_ten_thousand_gives_a_life() {
    let mut lives = vec![Life(0)];
    let mut required = PointsRequiredForExtraLife::new();
    add_life_if_player_reaches_specific_score(&Score(9999), &mut required, &mut lives);
    assert_eq!(lives.len(), 1);
    add_life_if_player_reaches_specific_score(&Score(10000), &mut required, &mut lives);
    assert_eq!(lives, vec![Life(0), Life(1)]);
    assert_eq!(required.0, 20000);
}
