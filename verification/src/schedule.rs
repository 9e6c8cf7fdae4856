use vstd::prelude::*;

use crate::ghosts::State;

verus! {

/// A one-shot countdown measured in nanoseconds. It counts elapsed time up to its duration and
/// reports itself finished from the first tick on which the elapsed time reaches the duration.
#[derive(Copy, Clone, Debug, PartialEq, Eq)]
pub struct Timer {
    pub duration: u64,
    pub elapsed: u64,
    pub finished: bool,
}

/// The timer after `delta` nanoseconds passed. A finished timer does not change any more.
pub open spec fn timer_ticked(t: Timer, delta: u64) -> Timer {
    if t.finished {
        t
    } else {
        let e = if t.elapsed + delta >= t.duration { t.duration as int } else { t.elapsed + delta };
        Timer { duration: t.duration, elapsed: e as u64, finished: e >= t.duration }
    }
}

impl Timer {
    /// A fresh timer for the given number of nanoseconds.
    pub fn from_nanos(duration: u64) -> (r: Timer)
        ensures
            r == (Timer { duration, elapsed: 0, finished: false }),
    {
        Timer { duration, elapsed: 0, finished: false }
    }

    pub fn tick(&mut self, delta: u64)
        ensures
            *final(self) == timer_ticked(*old(self), delta),
    {
        if self.finished {
            return;
        }
        let room = if self.elapsed <= self.duration { self.duration - self.elapsed } else { 0 };
        if delta >= room {
            self.elapsed = self.duration;
            self.finished = true;
        } else {
            self.elapsed = self.elapsed + delta;
            self.finished = self.elapsed >= self.duration;
        }
    }

    pub fn finished(&self) -> (r: bool)
        ensures
            r == self.finished,
    {
        self.finished
    }
}

/// A Phase is a time range where a specific state for a specific ghost is active.
#[derive(Copy, Clone, Debug, PartialEq, Eq)]
pub enum Phase {
    Finite(State, Timer),
    Infinite(State),
}

pub open spec fn phase_state(p: Phase) -> State {
    match p {
        Phase::Finite(s, _) => s,
        Phase::Infinite(s) => s,
    }
}

pub open spec fn phase_finished(p: Phase) -> bool {
    match p {
        Phase::Finite(_, t) => t.finished,
        Phase::Infinite(_) => false,
    }
}

/// How long a phase lasts in nanoseconds; `None` for a phase that never ends.
pub open spec fn phase_duration(p: Phase) -> Option<int> {
    match p {
        Phase::Finite(_, t) => Some(t.duration as int),
        Phase::Infinite(_) => None,
    }
}

/// Whether the phase has not started yet: its timer, if it has one, is fresh.
pub open spec fn phase_fresh(p: Phase) -> bool {
    match p {
        Phase::Finite(_, t) => t.elapsed == 0 && !t.finished,
        Phase::Infinite(_) => true,
    }
}

/// Whether the phases alternate between scatter and chase, starting with scatter.
pub open spec fn alternates_from_scatter(phases: Seq<Phase>) -> bool {
    forall|i: int|
        0 <= i < phases.len() ==> phase_state(#[trigger] phases[i]) == (if i % 2 == 0 {
            State::Scatter
        } else {
            State::Chase
        })
}

pub open spec fn phase_progressed(p: Phase, delta: u64) -> Phase {
    match p {
        Phase::Finite(s, t) => Phase::Finite(s, timer_ticked(t, delta)),
        Phase::Infinite(s) => Phase::Infinite(s),
    }
}

impl Phase {
    /// A phase that keeps `active_state` for `duration` nanoseconds.
    pub fn for_duration(active_state: State, duration: u64) -> (r: Phase)
        ensures
            r == Phase::Finite(active_state, Timer { duration, elapsed: 0, finished: false }),
    {
        Phase::Finite(active_state, Timer::from_nanos(duration))
    }

    /// A phase that never ends.
    pub fn infinite(active_state: State) -> (r: Phase)
        ensures
            r == Phase::Infinite(active_state),
    {
        Phase::Infinite(active_state)
    }

    pub fn active_state(&self) -> (r: State)
        ensures
            r == phase_state(*self),
    {
        match self {
            Phase::Finite(s, _) => *s,
            Phase::Infinite(s) => *s,
        }
    }

    pub fn progress(&mut self, elapsed_time: u64)
        ensures
            *final(self) == phase_progressed(*old(self), elapsed_time),
    {
        match self {
            Phase::Finite(s, t) => {
                let mut timer = *t;
                timer.tick(elapsed_time);
                *self = Phase::Finite(*s, timer);
            },
            Phase::Infinite(_) => {},
        }
    }

    pub fn is_finished(&self) -> (r: bool)
        ensures
            r == phase_finished(*self),
    {
        match self {
            Phase::Finite(_, t) => t.finished(),
            Phase::Infinite(_) => false,
        }
    }
}

/// The schedule of a ghost determines the state the ghost has after a certain time passed
/// on a certain level.
/// The last phase of a schedule will be active until the level ends, even if its timer is finished.
#[derive(Clone, Debug, PartialEq, Eq)]
pub struct Schedule {
    pub phases: Vec<Phase>,
}

/// The phases of a schedule after `delta` nanoseconds passed: the current phase progresses and,
/// when it finished, gives way to the next one unless it is the last one.
pub open spec fn phases_after_tick(phases: Seq<Phase>, delta: u64) -> Seq<Phase> {
    let p = phase_progressed(phases[0], delta);
    if phase_finished(p) && phases.len() > 1 {
        phases.skip(1)
    } else {
        phases.update(0, p)
    }
}

impl Schedule {
    pub fn new(phases: Vec<Phase>) -> (r: Schedule)
        ensures
            r.phases@ == phases@,
    {
        Schedule { phases }
    }

    /// Let `elapsed_time` nanoseconds pass and return the state that is active afterwards.
    pub fn state_after_tick(&mut self, elapsed_time: u64) -> (r: State)
        requires
            old(self).phases@.len() > 0,
        ensures
            final(self).phases@ == phases_after_tick(old(self).phases@, elapsed_time),
            final(self).phases@.len() > 0,
            r == phase_state(final(self).phases@[0]),
    {
        let mut current = self.phases[0];
        current.progress(elapsed_time);
        self.phases.set(0, current);
        if current.is_finished() {
            self.start_next_phase();
        }
        self.current_state()
    }

    pub fn current_state(&self) -> (r: State)
        requires
            self.phases@.len() > 0,
        ensures
            r == phase_state(self.phases@[0]),
    {
        self.phases[0].active_state()
    }

    fn start_next_phase(&mut self)
        requires
            old(self).phases@.len() > 0,
        ensures
            old(self).phases@.len() > 1 ==> final(self).phases@ == old(self).phases@.skip(1),
            old(self).phases@.len() <= 1 ==> final(self).phases@ == old(self).phases@,
    {
        if self.phases.len() > 1 {
            self.phases.remove(0);
        }
    }
}

/// Let the schedule go on, unless an energizer is active, and return the new state when it
/// changed.
pub fn update_schedule(schedule: &mut Schedule, delta: u64, energizer_active: bool) -> (changed: Option<State>)
    requires
        old(schedule).phases@.len() > 0,
    ensures
        final(schedule).phases@.len() > 0,
        energizer_active ==> final(schedule).phases@ == old(schedule).phases@ && changed is None,
        !energizer_active ==> final(schedule).phases@ == phases_after_tick(old(schedule).phases@, delta),
        !energizer_active ==> (changed is Some <==> phase_state(final(schedule).phases@[0]) != phase_state(
            old(schedule).phases@[0],
        )),
        changed is Some ==> changed->0 == phase_state(final(schedule).phases@[0]),
{
    if energizer_active {
        return None;
    }
    let old_state = schedule.current_state();
    let new_state = schedule.state_after_tick(delta);
    if old_state != new_state {
        Some(new_state)
    } else {
        None
    }
}

/// A number of nanoseconds per second.
pub const NANOS_PER_SECOND: u64 = 1_000_000_000;

/// The length of one frame at sixty frames per second, in nanoseconds.
pub const ONE_FRAME: u64 = 16_666_668;

/// The schedule presets, one for each group of levels.
#[derive(Copy, Clone, Debug, PartialEq, Eq, Structural)]
pub enum SchedulePreset {
    LevelOne,
    LevelTwoToFour,
    LevelFivePlus,
}

pub open spec fn finite(s: State, seconds: int) -> Phase {
    Phase::Finite(s, Timer { duration: (seconds * 1_000_000_000) as u64, elapsed: 0, finished: false })
}

pub open spec fn frame_phase(s: State) -> Phase {
    Phase::Finite(s, Timer { duration: ONE_FRAME, elapsed: 0, finished: false })
}

/// The phases of each preset.
pub open spec fn preset_phases(p: SchedulePreset) -> Seq<Phase> {
    match p {
        SchedulePreset::LevelOne => seq![
            finite(State::Scatter, 7), finite(State::Chase, 20), finite(State::Scatter, 7),
            finite(State::Chase, 20), finite(State::Scatter, 5), finite(State::Chase, 1033),
            frame_phase(State::Scatter), Phase::Infinite(State::Chase),
        ],
        SchedulePreset::LevelTwoToFour => seq![
            finite(State::Scatter, 5), finite(State::Chase, 20), finite(State::Scatter, 5),
            finite(State::Chase, 20), finite(State::Scatter, 5), finite(State::Chase, 1037),
            frame_phase(State::Scatter), Phase::Infinite(State::Chase),
        ],
        SchedulePreset::LevelFivePlus => seq![
            finite(State::Scatter, 7), finite(State::Chase, 20), finite(State::Scatter, 7),
            finite(State::Chase, 20), finite(State::Scatter, 5), finite(State::Chase, 20),
            finite(State::Scatter, 5), Phase::Infinite(State::Chase),
        ],
    }
}

fn seconds(s: State, n: u64) -> (r: Phase)
    requires
        n <= 2000,
    ensures
        r == finite(s, n as int),
{
    Phase::for_duration(s, n * NANOS_PER_SECOND)
}

pub fn level_one_schedule() -> (r: Schedule)
    ensures
        r.phases@ == preset_phases(SchedulePreset::LevelOne),
        r.phases@.len() == 8,
        alternates_from_scatter(r.phases@),
        forall|i: int| 0 <= i < 8 ==> phase_fresh(#[trigger] r.phases@[i]),
        phase_duration(r.phases@[0]) == Some(7_000_000_000int),
        phase_duration(r.phases@[1]) == Some(20_000_000_000int),
        phase_duration(r.phases@[2]) == Some(7_000_000_000int),
        phase_duration(r.phases@[3]) == Some(20_000_000_000int),
        phase_duration(r.phases@[4]) == Some(5_000_000_000int),
        phase_duration(r.phases@[5]) == Some(1033_000_000_000int),
        phase_duration(r.phases@[6]) == Some(16_666_668int),
        phase_duration(r.phases@[7]) == None::<int>,
{
    let mut phases = Vec::new();
    phases.push(seconds(State::Scatter, 7));
    phases.push(seconds(State::Chase, 20));
    phases.push(seconds(State::Scatter, 7));
    phases.push(seconds(State::Chase, 20));
    phases.push(seconds(State::Scatter, 5));
    phases.push(seconds(State::Chase, 1033));
    phases.push(Phase::for_duration(State::Scatter, ONE_FRAME));
    phases.push(Phase::infinite(State::Chase));
    Schedule::new(phases)
}

pub fn level_two_to_four_schedule() -> (r: Schedule)
    ensures
        r.phases@ == preset_phases(SchedulePreset::LevelTwoToFour),
        r.phases@.len() == 8,
        alternates_from_scatter(r.phases@),
        forall|i: int| 0 <= i < 8 ==> phase_fresh(#[trigger] r.phases@[i]),
        phase_duration(r.phases@[0]) == Some(5_000_000_000int),
        phase_duration(r.phases@[1]) == Some(20_000_000_000int),
        phase_duration(r.phases@[2]) == Some(5_000_000_000int),
        phase_duration(r.phases@[3]) == Some(20_000_000_000int),
        phase_duration(r.phases@[4]) == Some(5_000_000_000int),
        phase_duration(r.phases@[5]) == Some(1037_000_000_000int),
        phase_duration(r.phases@[6]) == Some(16_666_668int),
        phase_duration(r.phases@[7]) == None::<int>,
{
    let mut phases = Vec::new();
    phases.push(seconds(State::Scatter, 5));
    phases.push(seconds(State::Chase, 20));
    phases.push(seconds(State::Scatter, 5));
    phases.push(seconds(State::Chase, 20));
    phases.push(seconds(State::Scatter, 5));
    phases.push(seconds(State::Chase, 1037));
    phases.push(Phase::for_duration(State::Scatter, ONE_FRAME));
    phases.push(Phase::infinite(State::Chase));
    Schedule::new(phases)
}

pub fn level_five_plus_schedule() -> (r: Schedule)
    ensures
        r.phases@ == preset_phases(SchedulePreset::LevelFivePlus),
        r.phases@.len() == 8,
        alternates_from_scatter(r.phases@),
        forall|i: int| 0 <= i < 8 ==> phase_fresh(#[trigger] r.phases@[i]),
        phase_duration(r.phases@[0]) == Some(7_000_000_000int),
        phase_duration(r.phases@[1]) == Some(20_000_000_000int),
        phase_duration(r.phases@[2]) == Some(7_000_000_000int),
        phase_duration(r.phases@[3]) == Some(20_000_000_000int),
        phase_duration(r.phases@[4]) == Some(5_000_000_000int),
        phase_duration(r.phases@[5]) == Some(20_000_000_000int),
        phase_duration(r.phases@[6]) == Some(5_000_000_000int),
        phase_duration(r.phases@[7]) == None::<int>,
{
    let mut phases = Vec::new();
    phases.push(seconds(State::Scatter, 7));
    phases.push(seconds(State::Chase, 20));
    phases.push(seconds(State::Scatter, 7));
    phases.push(seconds(State::Chase, 20));
    phases.push(seconds(State::Scatter, 5));
    phases.push(seconds(State::Chase, 20));
    phases.push(seconds(State::Scatter, 5));
    phases.push(Phase::infinite(State::Chase));
    Schedule::new(phases)
}

impl SchedulePreset {
    /// Create a fresh schedule of this preset.
    pub fn produce(&self) -> (r: Schedule)
        ensures
            r.phases@ == preset_phases(*self),
    {
        match self {
            SchedulePreset::LevelOne => level_one_schedule(),
            SchedulePreset::LevelTwoToFour => level_two_to_four_schedule(),
            SchedulePreset::LevelFivePlus => level_five_plus_schedule(),
        }
    }
}

/// The current level, starting with 1.
#[derive(Copy, Clone, Debug, PartialEq, Eq, Hash, Structural)]
pub struct Level(pub usize);

impl Level {
    pub fn increase(&mut self)
        requires
            old(self).0 < usize::MAX,
        ensures
            final(self).0 == old(self).0 + 1,
    {
        self.0 = self.0 + 1;
    }
}

/// An inclusive range of levels sharing one schedule preset.
#[derive(Copy, Clone, Debug, PartialEq, Eq)]
pub struct LevelScheduleRange {
    pub start: Level,
    pub end: Level,
    pub schedule_producer: SchedulePreset,
}

pub open spec fn range_contains(r: LevelScheduleRange, level: usize) -> bool {
    r.start.0 <= level <= r.end.0
}

impl LevelScheduleRange {
    pub fn new(start: Level, end: Level, schedule_producer: SchedulePreset) -> (r: LevelScheduleRange)
        ensures
            r == (LevelScheduleRange { start, end, schedule_producer }),
    {
        LevelScheduleRange { start, end, schedule_producer }
    }

    pub fn contains_level(&self, level: &Level) -> (r: bool)
        ensures
            r == range_contains(*self, level.0),
    {
        self.start.0 <= level.0 && level.0 <= self.end.0
    }
}

/// Knows which schedule to use on which level.
#[derive(Clone, Debug, PartialEq, Eq)]
pub struct ScheduleByLevel {
    pub ranges: Vec<LevelScheduleRange>,
}

/// Whether `i` is the first range containing the level.
pub open spec fn is_first_range_for(ranges: Seq<LevelScheduleRange>, level: usize, i: int) -> bool {
    &&& 0 <= i < ranges.len()
    &&& range_contains(ranges[i], level)
    &&& forall|j: int| 0 <= j < i ==> !range_contains(#[trigger] ranges[j], level)
}

/// Whether some range contains the level.
pub open spec fn has_range_for(ranges: Seq<LevelScheduleRange>, level: usize) -> bool {
    exists|i: int| 0 <= i < ranges.len() && range_contains(#[trigger] ranges[i], level)
}

/// The ranges registered by the game.
pub open spec fn game_ranges() -> Seq<LevelScheduleRange> {
    seq![
        LevelScheduleRange { start: Level(1), end: Level(1), schedule_producer: SchedulePreset::LevelOne },
        LevelScheduleRange { start: Level(2), end: Level(4), schedule_producer: SchedulePreset::LevelTwoToFour },
        LevelScheduleRange { start: Level(5), end: Level(usize::MAX), schedule_producer: SchedulePreset::LevelFivePlus },
    ]
}

impl ScheduleByLevel {
    pub fn new(ranges: Vec<LevelScheduleRange>) -> (r: ScheduleByLevel)
        ensures
            r.ranges@ == ranges@,
    {
        ScheduleByLevel { ranges }
    }

    /// Create the schedule of the first range that contains the level.
    pub fn get_schedule_for_level(&self, level: &Level) -> (r: Schedule)
        requires
            has_range_for(self.ranges@, level.0),
        ensures
            exists|i: int|
                is_first_range_for(self.ranges@, level.0, i) && r.phases@ == preset_phases(
                    #[trigger] self.ranges@[i].schedule_producer,
                ),
    {
        let mut i: usize = 0;
        while i < self.ranges.len()
            invariant
                0 <= i <= self.ranges@.len(),
                has_range_for(self.ranges@, level.0),
                forall|j: int| 0 <= j < i ==> !range_contains(#[trigger] self.ranges@[j], level.0),
            decreases self.ranges@.len() - i,
        {
            if self.ranges[i].contains_level(level) {
                let r = self.ranges[i].schedule_producer.produce();
                assert(is_first_range_for(self.ranges@, level.0, i as int));
                return r;
            }
            i = i + 1;
        }
        vstd::pervasive::unreached()
    }
}

/// The schedules of the game: one for level 1, one for levels 2 to 4 and one for every level
/// from 5 on.
pub fn create_schedules() -> (r: ScheduleByLevel)
    ensures
        r.ranges@ == game_ranges(),
{
    let mut ranges = Vec::new();
    ranges.push(LevelScheduleRange::new(Level(1), Level(1), SchedulePreset::LevelOne));
    ranges.push(LevelScheduleRange::new(Level(2), Level(4), SchedulePreset::LevelTwoToFour));
    ranges.push(LevelScheduleRange::new(Level(5), Level(usize::MAX), SchedulePreset::LevelFivePlus));
    let r = ScheduleByLevel::new(ranges);
    assert(r.ranges@ == game_ranges());
    r
}

/// A tick never empties a schedule and moves it on by at most one phase.
pub proof fn lemma_schedule_never_empties(phases: Seq<Phase>, delta: u64)
    requires
        phases.len() > 0,
    ensures
        phases_after_tick(phases, delta).len() > 0,
        phases_after_tick(phases, delta).len() == phases.len() || phases_after_tick(phases, delta).len() == phases.len()
            - 1,
{
}

/// The last phase of a schedule stays active until the level ends, even when its timer finished.
pub proof fn lemma_last_phase_persists(phases: Seq<Phase>, delta: u64)
    requires
        phases.len() == 1,
    ensures
        phases_after_tick(phases, delta).len() == 1,
        phase_state(phases_after_tick(phases, delta)[0]) == phase_state(phases[0]),
{
}

/// The phases behind the current one are left as they are by a tick.
pub proof fn lemma_later_phases_wait(phases: Seq<Phase>, delta: u64, i: int)
    requires
        phases.len() > 0,
        1 <= i < phases.len(),
    ensures
        phases_after_tick(phases, delta).len() == phases.len() ==> phases_after_tick(phases, delta)[i] == phases[i],
        phases_after_tick(phases, delta).len() < phases.len() ==> phases_after_tick(phases, delta)[i - 1] == phases[i],
{
}

/// In every preset the ghosts scatter and chase in turn, starting with scatter, and every phase
/// starts fresh.
pub proof fn lemma_presets_alternate(p: SchedulePreset)
    ensures
        alternates_from_scatter(preset_phases(p)),
        forall|i: int| 0 <= i < preset_phases(p).len() ==> phase_fresh(#[trigger] preset_phases(p)[i]),
{
}

/// The level-one schedule: scatter 7 s, chase 20 s, scatter 7 s, chase 20 s, scatter 5 s,
/// chase 1033 s, scatter for one frame, then chase for good.
pub proof fn lemma_level_one_schedule()
    ensures
        preset_phases(SchedulePreset::LevelOne).len() == 8,
        phase_state(preset_phases(SchedulePreset::LevelOne)[0]) == State::Scatter,
        phase_duration(preset_phases(SchedulePreset::LevelOne)[0]) == Some(7_000_000_000int),
        phase_state(preset_phases(SchedulePreset::LevelOne)[1]) == State::Chase,
        phase_duration(preset_phases(SchedulePreset::LevelOne)[1]) == Some(20_000_000_000int),
        phase_state(preset_phases(SchedulePreset::LevelOne)[2]) == State::Scatter,
        phase_duration(preset_phases(SchedulePreset::LevelOne)[2]) == Some(7_000_000_000int),
        phase_state(preset_phases(SchedulePreset::LevelOne)[3]) == State::Chase,
        phase_duration(preset_phases(SchedulePreset::LevelOne)[3]) == Some(20_000_000_000int),
        phase_state(preset_phases(SchedulePreset::LevelOne)[4]) == State::Scatter,
        phase_duration(preset_phases(SchedulePreset::LevelOne)[4]) == Some(5_000_000_000int),
        phase_state(preset_phases(SchedulePreset::LevelOne)[5]) == State::Chase,
        phase_duration(preset_phases(SchedulePreset::LevelOne)[5]) == Some(1033_000_000_000int),
        phase_state(preset_phases(SchedulePreset::LevelOne)[6]) == State::Scatter,
        phase_duration(preset_phases(SchedulePreset::LevelOne)[6]) == Some(ONE_FRAME as int),
        preset_phases(SchedulePreset::LevelOne)[7] == Phase::Infinite(State::Chase),
{
}

/// Every preset ends with ghosts chasing pacman for good.
pub proof fn lemma_presets_end_chasing(p: SchedulePreset)
    ensures
        preset_phases(p).last() == Phase::Infinite(State::Chase),
        preset_phases(p).len() == 8,
{
}

/// Every level from 1 on has a schedule: level 1 the first preset, levels 2 to 4 the second and
/// every later level the third.
pub proof fn lemma_every_level_has_a_schedule(level: usize)
    requires
        level >= 1,
    ensures
        has_range_for(game_ranges(), level),
        level == 1 ==> is_first_range_for(game_ranges(), level, 0),
        2 <= level <= 4 ==> is_first_range_for(game_ranges(), level, 1),
        level >= 5 ==> is_first_range_for(game_ranges(), level, 2),
{
    let r = game_ranges();
    if level == 1 {
        assert(range_contains(r[0], level));
    } else if level <= 4 {
        assert(range_contains(r[1], level));
        assert(!range_contains(r[0], level));
    } else {
        assert(range_contains(r[2], level));
        assert(!range_contains(r[0], level));
        assert(!range_contains(r[1], level));
    }
}

} // verus!
