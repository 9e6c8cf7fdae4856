use pacman::life_cycle::{
    start_state_timer, switch_dead_state_when_timer_finished, switch_state, switch_state_when_state_timer_finished, LifeCycle,
    LifeCycleEvent,
};

#[test]
fn waiting_phases_follow_each_other() {
    let done = LifeCycleEvent::TimerFinished { lives_left: 2 };
    assert_eq!(switch_state(&LifeCycle::Start, &done), LifeCycle::Ready);
    assert_eq!(switch_state(&LifeCycle::Ready, &done), LifeCycle::Running);
    assert_eq!(switch_state(&LifeCycle::PacmanHit, &done), LifeCycle::PacmanDying);
    assert_eq!(switch_state(&LifeCycle::PacmanDead, &done), LifeCycle::Ready);
    assert_eq!(
        switch_state(&LifeCycle::PacmanDead, &LifeCycleEvent::TimerFinished { lives_left: 0 }),
        LifeCycle::GameOver
    );
    assert_eq!(switch_state(&LifeCycle::Running, &done), LifeCycle::Running);
}

#[test]
fn hits_and_deaths_switch_phases() {
    assert_eq!(switch_state(&LifeCycle::Running, &LifeCycleEvent::PacmanWasHit), LifeCycle::PacmanHit);
    assert_eq!(switch_state(&LifeCycle::PacmanDying, &LifeCycleEvent::PacmanIsDead), LifeCycle::PacmanDead);
    assert_eq!(switch_state(&LifeCycle::Ready, &LifeCycleEvent::PacmanWasHit), LifeCycle::Ready);
    assert_eq!(switch_state(&LifeCycle::GameOver, &LifeCycleEvent::PacmanIsDead), LifeCycle::GameOver);
}

#[test]
fn a_waiting_phase_ends_after_one_second() {
    assert!(start_state_timer(&LifeCycle::Running).is_none());
    let mut timer = start_state_timer(&LifeCycle::Start).unwrap();
    assert_eq!(switch_state_when_state_timer_finished(&LifeCycle::Start, &mut timer, 600_000_000), LifeCycle::Start);
    assert_eq!(switch_state_when_state_timer_finished(&LifeCycle::Start, &mut timer, 400_000_000), LifeCycle::Ready);
}

#[test]
fn other_phases_keep_their_state_when_the_timer_finishes() {
    for state in [LifeCycle::Running, LifeCycle::PacmanDying, LifeCycle::PacmanDead, LifeCycle::GameOver, LifeCycle::LevelTransition] {
        let mut timer = start_state_timer(&LifeCycle::Start).unwrap();
        assert_eq!(switch_state_when_state_timer_finished(&state, &mut timer, 1_000_000_000), state);
        assert!(timer.finished);
    }
    let mut timer = start_state_timer(&LifeCycle::PacmanHit).unwrap();
    assert_eq!(switch_state_when_state_timer_finished(&LifeCycle::PacmanHit, &mut timer, 1_000_000_000), LifeCycle::PacmanDying);
    let mut timer = start_state_timer(&LifeCycle::Ready).unwrap();
    assert_eq!(switch_state_when_state_timer_finished(&LifeCycle::Ready, &mut timer, 2_000_000_000), LifeCycle::Running);
}

#[test]
fn a_dead_pacman_goes_on_while_lives_are_left() {
    let mut timer = start_state_timer(&LifeCycle::PacmanDead).unwrap();
    assert_eq!(switch_dead_state_when_timer_finished(&mut timer, 999_999_999, 2), LifeCycle::PacmanDead);
    assert_eq!(switch_dead_state_when_timer_finished(&mut timer, 1, 2), LifeCycle::Ready);
    let mut timer = start_state_timer(&LifeCycle::PacmanDead).unwrap();
    assert_eq!(switch_dead_state_when_timer_finished(&mut timer, 1_000_000_000, 0), LifeCycle::GameOver);
}
