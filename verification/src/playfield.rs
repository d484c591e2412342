//! The playfield of a play session: the chart, walked by the scheduler, and
//! the arrows that are on their way. One tick takes the playfield through
//! the steps of a frame in their fixed order: the scheduler hands out the
//! arrows that are due, every arrow moves, every arrow is judged, and the
//! score counts the judgments.

use vstd::prelude::*;

use bevy::input::keyboard::KeyCode;
use bevy::input::Input;

use crate::arrows::{
    despawn_arrows,
    due_count,
    judgments_of,
    left_playfield,
    move_arrows,
    position_at,
    stays_live,
    FallStep,
    LiveArrow,
    Scheduler,
    MAX_AGE,
};
use crate::consts::START_TIME_OFFSET;
use crate::keys::just_pressed_keys;
use crate::score::{Judgment, Score};
use crate::time::ControlledTime;
use crate::types::{ArrowTime, Speed};

verus! {

/// Ticks that the slowest arrow takes from the spawn position to the end of
/// the playfield.
pub const LONGEST_CROSSING: i64 = 4_000_000;

/// Longest tick that the playfield can take.
pub const MAX_DELTA: i64 = MAX_AGE - LONGEST_CROSSING;

/// An arrow that has not left the playfield is no older than the longest
/// crossing.
pub proof fn lemma_age_within_playfield(age: int, speed: Speed)
    requires
        !left_playfield(position_at(age, speed)),
    ensures
        age <= LONGEST_CROSSING,
{
    assert(speed.spec_value() == 200 || speed.spec_value() == 240 || speed.spec_value() == 300);
}

/// The chart of a session and the arrows of it that are in play.
pub struct Playfield {
    scheduler: Scheduler,
    arrows: Vec<LiveArrow>,
}

/// What one tick did on the playfield.
pub struct TickReport {
    /// The arrows that the scheduler handed out in this tick.
    pub spawned: Vec<ArrowTime>,
    /// The arrows that were in play in this tick, those that it brought in
    /// last, as they stood after the motion and before the judgment.
    pub arrows: Vec<LiveArrow>,
    /// The fall of each of these arrows in this tick.
    pub steps: Vec<Option<FallStep>>,
    /// The judgment of each of these arrows.
    pub verdicts: Vec<Judgment>,
}

impl Playfield {
    /// The arrows of the chart.
    pub closed spec fn events(&self) -> Seq<ArrowTime> {
        self.scheduler.events()
    }

    /// Number of arrows of the chart that have been brought into play.
    pub closed spec fn spec_cursor(&self) -> nat {
        self.scheduler.spec_cursor()
    }

    /// The arrows in play, in the order in which they came.
    pub closed spec fn arrows(&self) -> Seq<LiveArrow> {
        self.arrows@
    }

    /// No arrow in play has left the playfield: the judgment takes those off.
    pub open spec fn wf(&self) -> bool {
        &&& self.spec_cursor() <= self.events().len()
        &&& forall|i: int|
            0 <= i < self.arrows().len() ==> !left_playfield(
                (#[trigger] self.arrows()[i]).spec_position(),
            )
    }

    /// Number of arrows that are still to be judged: those in play and those
    /// to come.
    pub open spec fn pending(&self) -> nat {
        (self.arrows().len() + self.events().len() - self.spec_cursor()) as nat
    }

    /// An empty playfield at the start of the given chart.
    pub fn new(events: Vec<ArrowTime>) -> (playfield: Playfield)
        ensures
            playfield.wf(),
            playfield.events() == events@,
            playfield.spec_cursor() == 0,
            playfield.arrows() == Seq::<LiveArrow>::empty(),
    {
        Playfield { scheduler: Scheduler::new(events), arrows: Vec::new() }
    }

    /// Takes every arrow out of play and goes back to the start of the chart,
    /// so that nothing of this session is left for the next.
    pub fn reset(&mut self)
        ensures
            final(self).wf(),
            final(self).events() == old(self).events(),
            final(self).spec_cursor() == 0,
            final(self).arrows() == Seq::<LiveArrow>::empty(),
    {
        self.scheduler.reset();
        self.arrows.clear();
    }

    /// The arrows in play.
    pub fn live(&self) -> (arrows: &Vec<LiveArrow>)
        ensures
            arrows@ == self.arrows(),
    {
        &self.arrows
    }

    /// Number of arrows of the chart that are still to come into play.
    pub fn remaining(&self) -> (count: usize)
        ensures
            count == self.events().len() - self.spec_cursor(),
    {
        self.scheduler.remaining()
    }

    /// Whether the whole chart has been brought into play.
    pub fn is_finished(&self) -> (finished: bool)
        ensures
            finished == (self.spec_cursor() == self.events().len()),
    {
        self.scheduler.is_finished()
    }

    /// One tick of a play session, at the time of the clock and against the
    /// keyboard of the host.
    ///
    /// The scheduler hands out the arrows that are due at the song time of
    /// the clock, and they come into play at the spawn position. Then every
    /// arrow in play, these among them, moves by the delta of the clock, is
    /// judged by the keys that were just pressed, and is counted in the score
    /// if it was hit or missed. The arrows that were neither stay in play.
    pub fn tick(
        &mut self,
        time: &ControlledTime,
        keyboard_input: &Input<KeyCode>,
        score: &mut Score,
    ) -> (report: TickReport)
        requires
            old(self).wf(),
            time@.delta <= MAX_DELTA,
            old(score).has_room_for(old(self).pending()),
        ensures
            final(self).wf(),
            final(self).events() == old(self).events(),
            final(self).spec_cursor() == old(self).spec_cursor() + due_count(
                old(self).events(),
                old(self).spec_cursor() as int,
                time@.elapsed - START_TIME_OFFSET - time@.delta,
                time@.elapsed - START_TIME_OFFSET,
            ),
            report.spawned@ == old(self).events().subrange(
                old(self).spec_cursor() as int,
                final(self).spec_cursor() as int,
            ),
            report.arrows.len() == old(self).arrows().len() + report.spawned.len(),
            forall|i: int|
                0 <= i < old(self).arrows().len() ==> (#[trigger] report.arrows[i]).is_aged(
                    old(self).arrows()[i],
                    time@.delta,
                ),
            forall|j: int|
                0 <= j < report.spawned.len() ==> {
                    &&& (#[trigger] report.arrows[old(self).arrows().len() + j]).spec_age()
                        == time@.delta
                    &&& report.arrows[old(self).arrows().len() + j].spec_speed()
                        == report.spawned[j].speed
                    &&& report.arrows[old(self).arrows().len() + j].spec_direction()
                        == report.spawned[j].direction
                },
            report.steps.len() == report.arrows.len(),
            forall|i: int|
                0 <= i < report.arrows.len() ==> #[trigger] report.steps[i]
                    == report.arrows[i].spec_fall(time@.delta),
            report.verdicts@ == judgments_of(report.arrows@, just_pressed_keys(*keyboard_input)),
            final(self).arrows() == report.arrows@.filter(
                stays_live(just_pressed_keys(*keyboard_input)),
            ),
            final(score)@ == old(score)@.replay(report.verdicts@),
    {
        let delta = time.delta_ticks();
        let spawned = self.scheduler.spawn_arrows(time.song_ticks(), delta);

        let ghost before = self.arrows@;
        let ghost scheduler = self.scheduler;
        let mut j: usize = 0;
        while j < spawned.len()
            invariant
                j <= spawned.len(),
                self.scheduler == scheduler,
                self.arrows.len() == before.len() + j,
                forall|i: int| 0 <= i < before.len() ==> self.arrows[i] == before[i],
                forall|k: int|
                    0 <= k < j ==> (#[trigger] self.arrows[before.len() + k]).is_spawn_of(
                        spawned[k],
                    ),
            decreases spawned.len() - j,
        {
            self.arrows.push(LiveArrow::spawn(&spawned[j]));
            j += 1;
        }

        let ghost entered = self.arrows@;
        proof {
            assert forall|i: int| 0 <= i < entered.len() implies (#[trigger] entered[i]).spec_age()
                + delta <= MAX_AGE by {
                if i < before.len() {
                    assert(entered[i] == old(self).arrows()[i]);
                    lemma_age_within_playfield(entered[i].spec_age(), entered[i].spec_speed());
                } else {
                    assert(entered[before.len() + (i - before.len())].is_spawn_of(
                        spawned[i - before.len()],
                    ));
                }
            }
        }
        let steps = move_arrows(&mut self.arrows, delta);

        let ghost moved = self.arrows@;
        let mut arrows: Vec<LiveArrow> = Vec::new();
        let mut i: usize = 0;
        while i < self.arrows.len()
            invariant
                i <= self.arrows.len(),
                self.scheduler == scheduler,
                self.arrows@ == moved,
                arrows@ == moved.take(i as int),
            decreases self.arrows.len() - i,
        {
            arrows.push(self.arrows[i]);
            i += 1;
            assert(arrows@ =~= moved.take(i as int));
        }
        assert(moved.take(moved.len() as int) =~= moved);

        let verdicts = despawn_arrows(&mut self.arrows, keyboard_input, score);

        proof {
            let keys = just_pressed_keys(*keyboard_input);
            let stayed = self.arrows@;
            assert forall|i: int| 0 <= i < stayed.len() implies !left_playfield(
                (#[trigger] stayed[i]).spec_position(),
            ) by {
                moved.lemma_filter_pred(stays_live(keys), i);
                assert(stays_live(keys)(stayed[i]));
            }
            assert forall|j: int| 0 <= j < spawned.len() implies {
                &&& (#[trigger] arrows[before.len() + j]).spec_age() == delta
                &&& arrows[before.len() + j].spec_speed() == spawned[j].speed
                &&& arrows[before.len() + j].spec_direction() == spawned[j].direction
            } by {
                assert(entered[before.len() + j].is_spawn_of(spawned[j]));
                assert(moved[before.len() + j].is_aged(entered[before.len() + j], delta as int));
            }
            assert forall|i: int| 0 <= i < before.len() implies (#[trigger] arrows[i]).is_aged(
                before[i],
                delta as int,
            ) by {
                assert(moved[i].is_aged(entered[i], delta as int));
            }
        }
        TickReport { spawned, arrows, steps, verdicts }
    }
}

} // verus!
