//! The clock of a session. It runs only while it is updated, so the time
//! spent in the menu does not count, and it starts again from zero on reset.

use vstd::prelude::*;

use crate::consts::START_TIME_OFFSET;

verus! {

/// What a clock holds.
pub struct ClockState {
    /// Ticks counted since the last reset.
    pub elapsed: int,
    /// Ticks between the last two readings.
    pub delta: int,
    /// The last reading since the last reset.
    pub last_update: Option<int>,
}

/// The reading that the clock goes by when the host hands it `instant`: a
/// reading that lies before the last one, or before zero, counts as the last
/// one, or as zero.
pub open spec fn effective_reading(last_update: Option<int>, instant: int) -> int {
    let floor = match last_update {
        Some(last) => last,
        None => 0,
    };
    if instant < floor {
        floor
    } else {
        instant
    }
}

impl ClockState {
    /// The state after a reset: nothing counted, no reading taken.
    pub open spec fn reset(self) -> ClockState {
        ClockState { elapsed: 0, delta: self.delta, last_update: None }
    }

    /// The state after the reading `instant`: the clock counts the ticks
    /// since the last reading, and none at the first reading after a reset.
    pub open spec fn update(self, instant: int) -> ClockState {
        let now = effective_reading(self.last_update, instant);
        let delta = match self.last_update {
            Some(last) => now - last,
            None => 0,
        };
        ClockState { elapsed: self.elapsed + delta, delta, last_update: Some(now) }
    }
}

/// The clock does not run backwards, and each of its ticks begins where the
/// tick before it ended: a reading adds its delta, which is not negative, to
/// what was counted before. The first reading after a reset counts nothing.
pub proof fn lemma_clock_ticks_follow_each_other(state: ClockState, instant: int)
    ensures
        state.update(instant).delta >= 0,
        state.update(instant).elapsed - state.update(instant).delta == state.elapsed,
        state.reset().update(instant).elapsed == 0,
        state.reset().update(instant).delta == 0,
{
}

/// A clock that counts the ticks between the readings it is given.
#[derive(Debug)]
pub struct ControlledTime {
    delta: i64,
    last_update: Option<i64>,
    elapsed: i64,
}

impl View for ControlledTime {
    type V = ClockState;

    closed spec fn view(&self) -> ClockState {
        ClockState {
            elapsed: self.elapsed as int,
            delta: self.delta as int,
            last_update: match self.last_update {
                Some(last) => Some(last as int),
                None => None,
            },
        }
    }
}

impl Default for ControlledTime {
    /// A clock that has counted nothing and taken no reading.
    fn default() -> (time: ControlledTime)
        ensures
            time@ == (ClockState { elapsed: 0, delta: 0, last_update: None }),
    {
        ControlledTime { delta: 0, last_update: None, elapsed: 0 }
    }
}

impl ControlledTime {
    #[verifier::type_invariant]
    spec fn inv(&self) -> bool {
        &&& 0 <= self.delta
        &&& 0 <= self.elapsed
        &&& match self.last_update {
            Some(last) => self.elapsed <= last,
            None => self.elapsed == 0,
        }
    }

    /// Starts the count again from zero. The next reading counts nothing.
    pub fn reset_time(&mut self)
        ensures
            final(self)@ == old(self)@.reset(),
    {
        proof {
            use_type_invariant(&*self);
        }
        self.elapsed = 0;
        self.last_update = None;
    }

    /// Takes the reading `instant`, in ticks of the host's clock.
    pub fn update_with_instant(&mut self, instant: i64)
        ensures
            final(self)@ == old(self)@.update(instant as int),
            final(self)@.delta >= 0,
            final(self)@.elapsed >= old(self)@.elapsed,
    {
        proof {
            use_type_invariant(&*self);
        }
        match self.last_update {
            Some(last) => {
                let now = if instant < last {
                    last
                } else {
                    instant
                };
                let delta = now - last;
                let elapsed = self.elapsed + delta;
                self.last_update = Some(now);
                self.elapsed = elapsed;
                self.delta = delta;
            },
            None => {
                let now = if instant < 0 {
                    0
                } else {
                    instant
                };
                self.last_update = Some(now);
                self.delta = 0;
            },
        }
    }

    /// Ticks between the last two readings.
    pub fn delta_ticks(&self) -> (delta: i64)
        ensures
            delta == self@.delta,
            delta >= 0,
    {
        proof {
            use_type_invariant(self);
        }
        self.delta
    }

    /// Ticks counted since the last reset.
    pub fn elapsed_ticks(&self) -> (elapsed: i64)
        ensures
            elapsed == self@.elapsed,
            elapsed >= 0,
    {
        proof {
            use_type_invariant(self);
        }
        self.elapsed
    }

    /// Time of the song: it begins a fixed offset after the session, so it is
    /// negative until the song starts.
    pub fn song_ticks(&self) -> (ticks: i64)
        ensures
            ticks == self@.elapsed - START_TIME_OFFSET,
            ticks >= -START_TIME_OFFSET,
    {
        proof {
            use_type_invariant(self);
        }
        self.elapsed - START_TIME_OFFSET
    }

    /// Time of the song as the player is shown it: nothing before the song
    /// starts.
    pub fn shown_ticks(&self) -> (shown: Option<i64>)
        ensures
            shown == if self@.elapsed >= START_TIME_OFFSET {
                Some((self@.elapsed - START_TIME_OFFSET) as i64)
            } else {
                None
            },
    {
        let ticks = self.song_ticks();
        if ticks < 0 {
            None
        } else {
            Some(ticks)
        }
    }
}

} // verus!
