//! When the song starts to play.

use vstd::prelude::*;

use crate::arrows::Tick;
use crate::consts::START_TIME_OFFSET;
use crate::error::EngineError;
use crate::time::ControlledTime;

verus! {

/// The session passes the start of the song within the tick that ends at
/// `elapsed` and lasted `delta`.
pub open spec fn song_starts(elapsed: int, delta: int) -> bool {
    elapsed - delta < START_TIME_OFFSET <= elapsed
}

/// What the host does about the song in one tick, where `sinks` is the number
/// of players that hold the song.
pub open spec fn start_song_spec(elapsed: int, delta: int, sinks: nat) -> Result<
    bool,
    EngineError,
> {
    if !song_starts(elapsed, delta) {
        Ok(false)
    } else if sinks == 1 {
        Ok(true)
    } else {
        Err(EngineError::StateError)
    }
}

/// Tells whether the song has to start in this tick of the clock. It has to
/// in the tick in which the session passes the start offset; the host must
/// then hold exactly one player for the song, and it is an error if it does
/// not.
pub fn start_song(time: &ControlledTime, sinks: usize) -> (result: Result<bool, EngineError>)
    ensures
        result == start_song_spec(time@.elapsed, time@.delta, sinks as nat),
{
    let secs = time.elapsed_ticks();
    let secs_last = secs - time.delta_ticks();
    if secs_last < START_TIME_OFFSET && START_TIME_OFFSET <= secs {
        if sinks == 1 {
            Ok(true)
        } else {
            Err(EngineError::StateError)
        }
    } else {
        Ok(false)
    }
}

/// Each tick begins where the tick before it ended.
pub open spec fn contiguous(ticks: Seq<Tick>) -> bool {
    forall|k: int|
        0 < k < ticks.len() ==> (#[trigger] ticks[k]).elapsed - ticks[k].delta == ticks[k
            - 1].elapsed
}

/// Number of ticks in which the song starts.
pub open spec fn starts_in(ticks: Seq<Tick>) -> nat
    decreases ticks.len(),
{
    if ticks.len() == 0 {
        0
    } else {
        starts_in(ticks.drop_last()) + if song_starts(
            ticks.last().elapsed as int,
            ticks.last().delta as int,
        ) {
            1nat
        } else {
            0nat
        }
    }
}

/// Over ticks that follow each other without gap or overlap, from before the
/// start offset up to or past it, the song starts in exactly one tick; over
/// ticks that end before the offset it does not start.
pub proof fn lemma_song_starts_once(ticks: Seq<Tick>)
    requires
        ticks.len() > 0,
        contiguous(ticks),
        ticks[0].elapsed - ticks[0].delta < START_TIME_OFFSET,
        forall|k: int| 0 <= k < ticks.len() ==> (#[trigger] ticks[k]).delta >= 0,
    ensures
        starts_in(ticks) == if START_TIME_OFFSET <= ticks.last().elapsed {
            1nat
        } else {
            0nat
        },
    decreases ticks.len(),
{
    let earlier = ticks.drop_last();
    if earlier.len() > 0 {
        assert forall|k: int| 0 < k < earlier.len() implies (#[trigger] earlier[k]).elapsed
            - earlier[k].delta == earlier[k - 1].elapsed by {
            assert(earlier[k] == ticks[k]);
            assert(earlier[k - 1] == ticks[k - 1]);
        }
        assert forall|k: int| 0 <= k < earlier.len() implies (#[trigger] earlier[k]).delta
            >= 0 by {
            assert(earlier[k] == ticks[k]);
        }
        assert(earlier[0] == ticks[0]);
        lemma_song_starts_once(earlier);
        assert(earlier.last() == ticks[ticks.len() - 2]);
        assert(ticks.last() == ticks[ticks.len() - 1]);
    } else {
        assert(ticks.last() == ticks[0]);
        assert(starts_in(earlier) == 0);
    }
}

} // verus!
