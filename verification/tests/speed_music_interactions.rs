use pacman::common::Position;
use pacman::ghosts::State;
use pacman::interactions::{pacman_eat, pacman_hits_ghost, HitOutcome};
use pacman::music::{count_eaten_ghosts, play_track, update_background_music, BackgroundMusic, MixerSettings, Track};
use pacman::speed::{update_blinky_speed, update_ghost_speed, update_pacman_speed, SpeedKind};

#[test]
fn speed_kinds() {
    assert_eq!(update_ghost_speed(&State::Eaten, true), SpeedKind::Eaten);
    assert_eq!(update_ghost_speed(&State::Frightened, true), SpeedKind::Tunnel);
    assert_eq!(update_ghost_speed(&State::Frightened, false), SpeedKind::Frightened);
    assert_eq!(update_ghost_speed(&State::Chase, false), SpeedKind::Normal);
    assert_eq!(update_blinky_speed(&State::Chase, false, 10, 20, 10), SpeedKind::Elroy2);
    assert_eq!(update_blinky_speed(&State::Chase, false, 15, 20, 10), SpeedKind::Elroy1);
    assert_eq!(update_blinky_speed(&State::Scatter, false, 30, 20, 10), SpeedKind::Normal);
    assert_eq!(update_pacman_speed(true), SpeedKind::Frightened);
    assert_eq!(update_pacman_speed(false), SpeedKind::Normal);
}

#[test]
fn hits_between_pacman_and_ghosts() {
    let p = Position::new(3, 3);
    assert_eq!(pacman_hits_ghost(&p, &Position::new(3, 4), &State::Chase), HitOutcome::Nothing);
    assert_eq!(pacman_hits_ghost(&p, &p, &State::Chase), HitOutcome::PacmanHit);
    assert_eq!(pacman_hits_ghost(&p, &p, &State::Scatter), HitOutcome::PacmanHit);
    assert_eq!(pacman_hits_ghost(&p, &p, &State::Frightened), HitOutcome::GhostEaten);
    assert_eq!(pacman_hits_ghost(&p, &p, &State::Eaten), HitOutcome::Nothing);
}

#[test]
fn pacman_eats_what_is_on_his_field() {
    let mut dots = vec![Position::new(1, 1), Position::new(2, 2), Position::new(1, 1)];
    assert_eq!(pacman_eat(&Position::new(1, 1), &mut dots), 2);
    assert_eq!(dots, vec![Position::new(2, 2)]);
    assert_eq!(pacman_eat(&Position::new(5, 5), &mut dots), 0);
}

#[test]
fn background_music_follows_the_game() {
    let calm = vec![State::Chase, State::Scatter];
    assert_eq!(count_eaten_ghosts(&vec![State::Eaten, State::Chase, State::Eaten]), 2);
    assert_eq!(update_background_music(&vec![State::Eaten], true, 0, 100), Track::Eaten);
    assert_eq!(update_background_music(&calm, true, 0, 100), Track::Frightened);
    assert_eq!(update_background_music(&calm, false, 24, 100), Track::Siren1);
    assert_eq!(update_background_music(&calm, false, 25, 100), Track::Siren2);
    assert_eq!(update_background_music(&calm, false, 50, 100), Track::Siren3);
    assert_eq!(update_background_music(&calm, false, 75, 100), Track::Siren4);
    assert_eq!(update_background_music(&calm, false, 0, 0), Track::Siren4);
}

#[test]
fn the_mixer_plays_one_track() {
    use_mixer();
}

fn use_mixer() {
    let mut music = BackgroundMusic::new_muted();
    assert_eq!(music.current_track, Track::Siren1);
    let muted = play_track(&music, 100);
    assert!(!muted.siren_on && !muted.frightened_on && !muted.eaten_on);
    music.muted = false;
    music.current_track = Track::Siren3;
    assert_eq!(play_track(&music, 100), MixerSettings { siren_on: true, frightened_on: false, eaten_on: false, siren_speed_percent: 110 });
    music.current_track = Track::Eaten;
    assert_eq!(play_track(&music, 110), MixerSettings { siren_on: false, frightened_on: false, eaten_on: true, siren_speed_percent: 110 });
}
