use pacman::ghosts::house::{set_spawned_target, HouseTarget, SpawnedSpot};
use pacman::common::{Direction, Position};
use pacman::ghosts::state::{
    set_eaten_when_hit_by_pacman, set_frightened_when_pacman_ate_energizer, turn_back, update_chase_and_scatter_state,
    update_eaten_state, update_frightened_state, update_spawned_state, FrightenedTimer, StateSetter,
};
use pacman::ghosts::{State, Target};
use pacman::map::field_board::FieldBoard;
use pacman::map::pacmap::PacMap;
use pacman::schedule::{create_schedules, Level, Phase, Schedule, NANOS_PER_SECOND};

#[test]
fn schedules_by_level() {
    let schedules = create_schedules();
    let mut schedule = schedules.get_schedule_for_level(&Level(1));
    assert_eq!(schedule.current_state(), State::Scatter);
    assert_eq!(schedule.state_after_tick(7 * NANOS_PER_SECOND), State::Chase);
    let mut schedule = schedules.get_schedule_for_level(&Level(3));
    assert_eq!(schedule.state_after_tick(5 * NANOS_PER_SECOND), State::Chase);
    let schedule = schedules.get_schedule_for_level(&Level(100));
    assert_eq!(schedule.phases.len(), 8);
}

#[test]
fn the_last_phase_stays() {
    let mut schedule = Schedule::new(vec![Phase::for_duration(State::Scatter, 10)]);
    assert_eq!(schedule.state_after_tick(100), State::Scatter);
    assert_eq!(schedule.state_after_tick(100), State::Scatter);
    assert_eq!(schedule.phases.len(), 1);
}

#[test]
fn state_setter_follows_the_schedule_outside_the_house() {
    let board = FieldBoard::new(PacMap::from_read("G \nWW".as_bytes()));
    let mut schedule = Schedule::new(vec![Phase::for_duration(State::Scatter, 10), Phase::infinite(State::Chase)]);
    let mut state = State::Spawned;
    let position = Position::new(1, 1);
    {
        let mut setter = StateSetter::new(&mut state, &position, &mut schedule, &board, 20);
        setter.set_next_state();
    }
    assert_eq!(state, State::Spawned);
    let on_wall = Position::new(0, 1);
    {
        let mut setter = StateSetter::new(&mut state, &on_wall, &mut schedule, &board, 20);
        setter.set_next_state();
    }
    assert_eq!(state, State::Chase);
    let mut frightened = State::Frightened;
    {
        let mut setter = StateSetter::new(&mut frightened, &on_wall, &mut schedule, &board, 20);
        setter.set_next_state();
    }
    assert_eq!(frightened, State::Frightened);
}

#[test]
fn ghosts_turn_around_when_frightened() {
    let mut state = State::Chase;
    let mut direction = Direction::Up;
    let mut target = Target { target: Some(Position::new(4, 5)) };
    set_frightened_when_pacman_ate_energizer(&mut state, &mut direction, &mut target, Position::new(4, 4));
    assert_eq!(state, State::Frightened);
    assert_eq!(direction, Direction::Down);
    assert_eq!(target.target, Some(Position::new(4, 4)));

    let mut eaten = State::Eaten;
    let mut d = Direction::Left;
    let mut t = Target::new();
    set_frightened_when_pacman_ate_energizer(&mut eaten, &mut d, &mut t, Position::new(0, 0));
    assert_eq!(eaten, State::Eaten);
    assert_eq!(d, Direction::Left);
}

#[test]
fn schedule_changes_reverse_hunting_ghosts() {
    let mut state = State::Scatter;
    let mut direction = Direction::Left;
    let mut target = Target::new();
    update_chase_and_scatter_state(&mut state, &mut direction, &mut target, Position::new(3, 3), State::Chase);
    assert_eq!(state, State::Chase);
    assert_eq!(direction, Direction::Right);
    assert_eq!(target.target, Some(Position::new(4, 3)));

    let mut d = Direction::Up;
    let mut t = Target::new();
    turn_back(&mut d, &mut t, Position::new(0, 0));
    assert_eq!(t.target, Some(Position::new(0, -1)));
}

#[test]
fn state_changes_on_events() {
    let mut state = State::Spawned;
    let mut direction = Direction::Down;
    update_spawned_state(&mut state, &mut direction, false, State::Chase, Direction::Up);
    assert_eq!(state, State::Spawned);
    update_spawned_state(&mut state, &mut direction, true, State::Chase, Direction::Up);
    assert_eq!(state, State::Chase);
    assert_eq!(direction, Direction::Right);

    let mut s = State::Frightened;
    update_frightened_state(&mut s, State::Scatter);
    assert_eq!(s, State::Scatter);

    let mut s = State::Eaten;
    update_eaten_state(&mut s, false);
    assert_eq!(s, State::Eaten);
    update_eaten_state(&mut s, true);
    assert_eq!(s, State::Spawned);

    let mut s = State::Frightened;
    set_eaten_when_hit_by_pacman(&mut s);
    assert_eq!(s, State::Eaten);
    let mut s = State::Chase;
    set_eaten_when_hit_by_pacman(&mut s);
    assert_eq!(s, State::Chase);
}

#[test]
fn frightened_timer_runs_five_seconds() {
    let mut timer = FrightenedTimer::new();
    timer.tick(4 * NANOS_PER_SECOND);
    assert!(!timer.is_finished());
    timer.tick(NANOS_PER_SECOND);
    assert!(timer.is_finished());
    timer.start();
    assert!(!timer.is_finished());
}


#[test]
fn spawned_ghosts_walk_out_of_the_house() {
    let nowhere = SpawnedSpot { in_center: false, at_respawn: false, respawn_left_of_center: false };
    assert_eq!(set_spawned_target(nowhere), None);
    let centered = SpawnedSpot { in_center: true, at_respawn: true, ..nowhere };
    assert_eq!(set_spawned_target(centered), Some((HouseTarget::InFrontOfEntrance, Direction::Up)));
    let at_right_respawn = SpawnedSpot { at_respawn: true, ..nowhere };
    assert_eq!(set_spawned_target(at_right_respawn), Some((HouseTarget::Center, Direction::Left)));
    let at_left_respawn = SpawnedSpot { at_respawn: true, respawn_left_of_center: true, ..nowhere };
    assert_eq!(set_spawned_target(at_left_respawn), Some((HouseTarget::Center, Direction::Right)));
}

#[test]
fn four_ghosts_take_four_spawn_fields() {
    let board = FieldBoard::new(PacMap::from_read("WWWWWW\nWSSSSW\nWWWWWW".as_bytes()));
    let spawns = pacman::ghosts::spawner::spawn(&board);
    assert_eq!(spawns.len(), 4);
    assert_eq!(spawns[0].1, pacman::ghosts::GhostKind::Blinky);
    assert_eq!(spawns[3].1, pacman::ghosts::GhostKind::Clyde);
    for (i, (p, _)) in spawns.iter().enumerate() {
        assert_eq!(p.y, 1);
        for (q, _) in spawns.iter().skip(i + 1) {
            assert_ne!(p, q);
        }
    }
}
