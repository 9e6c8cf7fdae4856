use vstd::prelude::*;

use crate::ghosts::State;

verus! {

/// The background tracks of a running game.
#[derive(Copy, Clone, Debug, PartialEq, Eq, Structural)]
pub enum Track {
    Siren1,
    Siren2,
    Siren3,
    Siren4,
    Frightened,
    Eaten,
}

/// The siren for the share of dots eaten: a faster one for each quarter.
pub open spec fn siren_for(eaten_dots: int, max_dots: int) -> Track {
    if 0 <= 4 * eaten_dots && 4 * eaten_dots < max_dots {
        Track::Siren1
    } else if max_dots <= 4 * eaten_dots && 4 * eaten_dots < 2 * max_dots {
        Track::Siren2
    } else if 2 * max_dots <= 4 * eaten_dots && 4 * eaten_dots < 3 * max_dots {
        Track::Siren3
    } else {
        Track::Siren4
    }
}

/// The track for the state of the game: the eaten track while a ghost returns home, the
/// frightened track while an energizer works, else a siren.
pub open spec fn track_for(eaten_ghosts: int, energizer_active: bool, eaten_dots: int, max_dots: int) -> Track {
    if eaten_ghosts > 0 {
        Track::Eaten
    } else if energizer_active {
        Track::Frightened
    } else {
        siren_for(eaten_dots, max_dots)
    }
}

/// The number of eaten ghosts among the states.
pub open spec fn eaten_count(states: Seq<State>) -> int {
    states.filter(|s: State| s == State::Eaten).len() as int
}

/// Return how many of the ghosts are eaten.
pub fn count_eaten_ghosts(states: &Vec<State>) -> (r: usize)
    ensures
        r == eaten_count(states@),
{
    let ghost eaten = |s: State| s == State::Eaten;
    let mut count: usize = 0;
    let mut i: usize = 0;
    while i < states.len()
        invariant
            0 <= i <= states@.len(),
            eaten == (|s: State| s == State::Eaten),
            count == states@.take(i as int).filter(eaten).len(),
            count <= i,
        decreases states@.len() - i,
    {
        proof {
            let next = states@.take(i + 1);
            assert(next.drop_last() == states@.take(i as int));
            assert(next.last() == states@[i as int]);
            reveal(Seq::filter);
        }
        if states[i] == State::Eaten {
            count = count + 1;
        }
        i = i + 1;
    }
    assert(states@.take(states@.len() as int) == states@);
    count
}

/// Return the background track for the state of the game.
pub fn update_background_music(states: &Vec<State>, energizer_active: bool, eaten_dots: usize, max_dots: usize) -> (r:
    Track)
    ensures
        r == track_for(eaten_count(states@), energizer_active, eaten_dots as int, max_dots as int),
{
    let eaten_ghosts = count_eaten_ghosts(states);
    if eaten_ghosts > 0 {
        Track::Eaten
    } else if energizer_active {
        Track::Frightened
    } else {
        let eaten4: u128 = 4 * (eaten_dots as u128);
        let max: u128 = max_dots as u128;
        if eaten4 < max {
            Track::Siren1
        } else if eaten4 < 2 * max {
            Track::Siren2
        } else if eaten4 < 3 * max {
            Track::Siren3
        } else {
            Track::Siren4
        }
    }
}

/// The siren gets faster, never slower, as more dots are eaten.
pub open spec fn siren_level(t: Track) -> int {
    match t {
        Track::Siren1 => 1,
        Track::Siren2 => 2,
        Track::Siren3 => 3,
        _ => 4,
    }
}

/// Eating more dots never brings back a slower siren.
pub proof fn lemma_siren_never_slows_down(eaten_a: int, eaten_b: int, max_dots: int)
    requires
        0 <= eaten_a <= eaten_b,
        max_dots >= 0,
    ensures
        siren_level(siren_for(eaten_a, max_dots)) <= siren_level(siren_for(eaten_b, max_dots)),
{
}

/// Which background track plays, and whether the music is muted.
#[derive(Copy, Clone, Debug, PartialEq, Eq, Structural)]
pub struct BackgroundMusic {
    pub current_track: Track,
    pub muted: bool,
}

impl BackgroundMusic {
    /// The music before a game runs: the first siren, muted.
    pub fn new_muted() -> (r: Self)
        ensures
            r.current_track == Track::Siren1,
            r.muted,
    {
        BackgroundMusic { current_track: Track::Siren1, muted: true }
    }
}

/// The volumes of the three background tracks, which all play at once, and the speed of the
/// siren in hundredths of its normal speed.
#[derive(Copy, Clone, Debug, PartialEq, Eq, Structural)]
pub struct MixerSettings {
    pub siren_on: bool,
    pub frightened_on: bool,
    pub eaten_on: bool,
    pub siren_speed_percent: u32,
}

/// The mixer settings for the music: nothing is heard while muted; else only the current track,
/// and each siren a bit faster than the one before.
pub open spec fn mixer_for(music: BackgroundMusic, current_speed: u32) -> MixerSettings {
    if music.muted {
        MixerSettings { siren_on: false, frightened_on: false, eaten_on: false, siren_speed_percent: current_speed }
    } else {
        match music.current_track {
            Track::Siren1 => MixerSettings { siren_on: true, frightened_on: false, eaten_on: false, siren_speed_percent: 100 },
            Track::Siren2 => MixerSettings { siren_on: true, frightened_on: false, eaten_on: false, siren_speed_percent: 105 },
            Track::Siren3 => MixerSettings { siren_on: true, frightened_on: false, eaten_on: false, siren_speed_percent: 110 },
            Track::Siren4 => MixerSettings { siren_on: true, frightened_on: false, eaten_on: false, siren_speed_percent: 115 },
            Track::Frightened => MixerSettings {
                siren_on: false,
                frightened_on: true,
                eaten_on: false,
                siren_speed_percent: current_speed,
            },
            Track::Eaten => MixerSettings { siren_on: false, frightened_on: false, eaten_on: true, siren_speed_percent: current_speed },
        }
    }
}

/// Return how the mixer plays the music; the siren keeps its speed while it is not heard.
pub fn play_track(music: &BackgroundMusic, current_speed: u32) -> (r: MixerSettings)
    ensures
        r == mixer_for(*music, current_speed),
{
    if music.muted {
        return MixerSettings { siren_on: false, frightened_on: false, eaten_on: false, siren_speed_percent: current_speed };
    }
    match music.current_track {
        Track::Siren1 => MixerSettings { siren_on: true, frightened_on: false, eaten_on: false, siren_speed_percent: 100 },
        Track::Siren2 => MixerSettings { siren_on: true, frightened_on: false, eaten_on: false, siren_speed_percent: 105 },
        Track::Siren3 => MixerSettings { siren_on: true, frightened_on: false, eaten_on: false, siren_speed_percent: 110 },
        Track::Siren4 => MixerSettings { siren_on: true, frightened_on: false, eaten_on: false, siren_speed_percent: 115 },
        Track::Frightened => MixerSettings {
            siren_on: false,
            frightened_on: true,
            eaten_on: false,
            siren_speed_percent: current_speed,
        },
        Track::Eaten => MixerSettings { siren_on: false, frightened_on: false, eaten_on: true, siren_speed_percent: current_speed },
    }
}

/// At most one background track is heard at a time, and none while the music is muted.
pub proof fn lemma_one_track_at_a_time(music: BackgroundMusic, current_speed: u32)
    ensures
        ({
            let m = mixer_for(music, current_speed);
            &&& !(m.siren_on && m.frightened_on)
            &&& !(m.siren_on && m.eaten_on)
            &&& !(m.frightened_on && m.eaten_on)
            &&& music.muted ==> !m.siren_on && !m.frightened_on && !m.eaten_on
        }),
{
}

} // verus!
