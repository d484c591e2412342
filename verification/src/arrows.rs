//! The arrows in play: when they appear, how they move, and how a key press
//! or the end of the playfield resolves them.

use vstd::prelude::*;

use bevy::input::keyboard::KeyCode;
use bevy::input::Input;

use crate::consts::{SPAWN_POSITION, TARGET_POSITION, THRESHOLD, TICKS_PER_SECOND};
use crate::keys::{just_pressed_keys, KeyInput};
use crate::order::sorted_by_spawn_time;
use crate::score::{hit_points, lemma_hit_points_fall_with_distance, points_for, Judgment, Score};
use crate::types::{ArrowTime, Directions, Speed};

verus! {

/// The arrow spawns within the tick that ends at `elapsed` and began at
/// `window_start`: later than the first, no later than the second.
pub open spec fn is_due(arrow: ArrowTime, window_start: int, elapsed: int) -> bool {
    window_start < arrow.spawn_time <= elapsed
}

/// Number of arrows in a row, counted from index `from`, that are all due.
pub open spec fn due_count(
    events: Seq<ArrowTime>,
    from: int,
    window_start: int,
    elapsed: int,
) -> nat
    decreases events.len() - from,
{
    if 0 <= from < events.len() && is_due(events[from], window_start, elapsed) {
        1 + due_count(events, from + 1, window_start, elapsed)
    } else {
        0
    }
}

/// `due_count` is the length of the longest run of due arrows that starts at
/// `from`: it ends at the end of the chart or in front of an arrow that is
/// not due.
pub proof fn lemma_due_count_is_longest_run(
    events: Seq<ArrowTime>,
    from: int,
    window_start: int,
    elapsed: int,
)
    requires
        0 <= from <= events.len(),
    ensures
        from + due_count(events, from, window_start, elapsed) <= events.len(),
        forall|k: int|
            from <= k < from + due_count(events, from, window_start, elapsed) ==> is_due(
                #[trigger] events[k],
                window_start,
                elapsed,
            ),
        from + due_count(events, from, window_start, elapsed) < events.len() ==> !is_due(
            events[from + due_count(events, from, window_start, elapsed)],
            window_start,
            elapsed,
        ),
    decreases events.len() - from,
{
    if from < events.len() && is_due(events[from], window_start, elapsed) {
        lemma_due_count_is_longest_run(events, from + 1, window_start, elapsed);
    }
}

/// Walks a chart once, from its first arrow to its last, and hands out each
/// arrow in the tick in which it is due.
pub struct Scheduler {
    events: Vec<ArrowTime>,
    cursor: usize,
}

impl Scheduler {
    #[verifier::type_invariant]
    spec fn inv(&self) -> bool {
        self.cursor <= self.events.len()
    }

    /// The arrows of the chart.
    pub closed spec fn events(&self) -> Seq<ArrowTime> {
        self.events@
    }

    /// Number of arrows handed out so far.
    pub closed spec fn spec_cursor(&self) -> nat {
        self.cursor as nat
    }

    /// A scheduler at the start of the given arrows.
    pub fn new(events: Vec<ArrowTime>) -> (scheduler: Scheduler)
        ensures
            scheduler.events() == events@,
            scheduler.spec_cursor() == 0,
    {
        Scheduler { events, cursor: 0 }
    }

    /// Goes back to the first arrow of the chart.
    pub fn reset(&mut self)
        ensures
            final(self).events() == old(self).events(),
            final(self).spec_cursor() == 0,
    {
        self.cursor = 0;
    }

    /// Number of arrows handed out so far.
    pub fn cursor(&self) -> (cursor: usize)
        ensures
            cursor == self.spec_cursor(),
            cursor <= self.events().len(),
    {
        proof {
            use_type_invariant(self);
        }
        self.cursor
    }

    /// Number of arrows that have not been handed out.
    pub fn remaining(&self) -> (count: usize)
        ensures
            count == self.events().len() - self.spec_cursor(),
    {
        proof {
            use_type_invariant(self);
        }
        self.events.len() - self.cursor
    }

    /// Whether every arrow has been handed out.
    pub fn is_finished(&self) -> (finished: bool)
        ensures
            finished == (self.spec_cursor() == self.events().len()),
    {
        proof {
            use_type_invariant(self);
        }
        self.cursor == self.events.len()
    }

    /// One tick of the scheduler, at song time `elapsed`, `delta` ticks after
    /// the tick before: hands out the arrows next in the chart that spawn
    /// later than `elapsed - delta` and no later than `elapsed`, and stops at
    /// the first arrow that does not.
    pub fn spawn_arrows(&mut self, elapsed: i64, delta: i64) -> (spawned: Vec<ArrowTime>)
        ensures
            final(self).events() == old(self).events(),
            final(self).spec_cursor() == old(self).spec_cursor() + due_count(
                old(self).events(),
                old(self).spec_cursor() as int,
                elapsed - delta,
                elapsed as int,
            ),
            final(self).spec_cursor() <= old(self).events().len(),
            spawned@ == old(self).events().subrange(
                old(self).spec_cursor() as int,
                final(self).spec_cursor() as int,
            ),
            forall|k: int|
                0 <= k < spawned.len() ==> is_due(#[trigger] spawned[k], elapsed - delta, elapsed as int),
            final(self).spec_cursor() < old(self).events().len() ==> !is_due(
                old(self).events()[final(self).spec_cursor() as int],
                elapsed - delta,
                elapsed as int,
            ),
    {
        proof {
            use_type_invariant(&*self);
            lemma_due_count_is_longest_run(
                self.events@,
                self.cursor as int,
                elapsed - delta,
                elapsed as int,
            );
        }
        let ghost start = self.cursor as int;
        let ghost window_start = elapsed - delta;
        let ghost window_end = elapsed as int;
        let mut spawned: Vec<ArrowTime> = Vec::new();
        let mut next: usize = self.cursor;
        while next < self.events.len() && self.events[next].spawn_time as i128 > elapsed as i128
            - delta as i128 && self.events[next].spawn_time <= elapsed
            invariant
                start <= next <= self.events.len(),
                self.events@ == old(self).events@,
                window_start == elapsed - delta,
                window_end == elapsed,
                spawned@ == self.events@.subrange(start, next as int),
                due_count(self.events@, start, window_start, window_end) == (next - start)
                    + due_count(self.events@, next as int, window_start, window_end),
            decreases self.events.len() - next,
        {
            spawned.push(self.events[next]);
            next += 1;
            assert(spawned@ =~= self.events@.subrange(start, next as int));
        }
        self.cursor = next;
        spawned
    }
}

/// The two times that the scheduler is given in one tick.
pub struct Tick {
    /// Song time at the end of the tick.
    pub elapsed: i64,
    /// Ticks since the tick before.
    pub delta: i64,
}

/// Number of arrows that a scheduler has handed out after the given ticks, in
/// their order, on a chart that it began at its first arrow.
pub open spec fn cursor_after(events: Seq<ArrowTime>, ticks: Seq<Tick>) -> nat
    decreases ticks.len(),
{
    if ticks.len() == 0 {
        0
    } else {
        let before = cursor_after(events, ticks.drop_last());
        before + due_count(
            events,
            before as int,
            ticks.last().elapsed - ticks.last().delta,
            ticks.last().elapsed as int,
        )
    }
}

/// The arrows that the scheduler hands out over the given ticks, tick after
/// tick.
pub open spec fn spawned_over(events: Seq<ArrowTime>, ticks: Seq<Tick>) -> Seq<ArrowTime>
    decreases ticks.len(),
{
    if ticks.len() == 0 {
        Seq::empty()
    } else {
        spawned_over(events, ticks.drop_last()) + events.subrange(
            cursor_after(events, ticks.drop_last()) as int,
            cursor_after(events, ticks) as int,
        )
    }
}

/// Time does not run backwards over the ticks, and no tick begins later than
/// the tick before it ended.
pub open spec fn gapless(ticks: Seq<Tick>) -> bool {
    forall|k: int|
        0 < k < ticks.len() ==> {
            &&& (#[trigger] ticks[k]).elapsed - ticks[k].delta <= ticks[k - 1].elapsed
            &&& ticks[k - 1].elapsed <= ticks[k].elapsed
        }
}

/// Over a run of ticks without gaps that begins before the first arrow of a
/// sorted chart spawns, the scheduler hands out each arrow once, in the order
/// of the chart, and has handed out exactly the arrows that spawn no later
/// than the end of the last tick. A run that reaches the spawn time of the
/// last arrow hands out the whole chart.
pub proof fn lemma_run_spawns_each_arrow_once(events: Seq<ArrowTime>, ticks: Seq<Tick>)
    requires
        sorted_by_spawn_time(events),
        ticks.len() > 0,
        gapless(ticks),
        events.len() > 0 ==> ticks[0].elapsed - ticks[0].delta < events[0].spawn_time,
    ensures
        cursor_after(events, ticks) <= events.len(),
        forall|k: int|
            0 <= k < cursor_after(events, ticks) ==> (#[trigger] events[k]).spawn_time
                <= ticks.last().elapsed,
        forall|k: int|
            cursor_after(events, ticks) <= k < events.len() ==> (#[trigger] events[k]).spawn_time
                > ticks.last().elapsed,
        spawned_over(events, ticks) == events.subrange(0, cursor_after(events, ticks) as int),
        events.len() > 0 && events.last().spawn_time <= ticks.last().elapsed ==> spawned_over(
            events,
            ticks,
        ) == events,
    decreases ticks.len(),
{
    let earlier = ticks.drop_last();
    let before = cursor_after(events, earlier) as int;
    let window_start = ticks.last().elapsed - ticks.last().delta;
    let elapsed = ticks.last().elapsed as int;
    if earlier.len() > 0 {
        assert forall|k: int| 0 < k < earlier.len() implies {
            &&& (#[trigger] earlier[k]).elapsed - earlier[k].delta <= earlier[k - 1].elapsed
            &&& earlier[k - 1].elapsed <= earlier[k].elapsed
        } by {
            assert(earlier[k] == ticks[k]);
            assert(earlier[k - 1] == ticks[k - 1]);
        }
        assert(earlier[0] == ticks[0]);
        lemma_run_spawns_each_arrow_once(events, earlier);
        assert(earlier.last() == ticks[ticks.len() - 2]);
        assert(ticks.last() == ticks[ticks.len() - 1]);
    } else {
        assert(ticks.last() == ticks[0]);
        assert(spawned_over(events, earlier) =~= events.subrange(0, 0));
    }
    assert forall|k: int| before <= k < events.len() implies window_start
        < (#[trigger] events[k]).spawn_time by {
        if earlier.len() == 0 {
            assert(events[0].spawn_time <= events[k].spawn_time);
        }
    }
    lemma_due_count_is_longest_run(events, before, window_start, elapsed);
    let after = cursor_after(events, ticks) as int;
    assert forall|k: int| after <= k < events.len() implies (#[trigger] events[k]).spawn_time
        > elapsed by {
        assert(!is_due(events[after], window_start, elapsed));
        assert(events[after].spawn_time <= events[k].spawn_time);
    }
    assert forall|k: int| 0 <= k < after implies (#[trigger] events[k]).spawn_time <= elapsed by {
        if k >= before {
            assert(is_due(events[k], window_start, elapsed));
        }
    }
    assert(spawned_over(events, ticks) =~= events.subrange(0, after));
    if events.len() > 0 && events.last().spawn_time <= elapsed {
        assert(after == events.len());
        assert(events.subrange(0, after) =~= events);
    }
}

/// Greatest age of an arrow that the engine counts: one day.
pub const MAX_AGE: i64 = 86_400_000_000;

/// Position of an arrow of the given speed, `age` ticks after it appeared.
pub open spec fn position_at(age: int, speed: Speed) -> int {
    SPAWN_POSITION + age * speed.spec_value()
}

/// How far a position lies beyond the far edge of the hit window.
pub open spec fn overshoot_at(position: int) -> int {
    position - TARGET_POSITION - THRESHOLD
}

/// The position lies within the hit window, its edges included.
pub open spec fn in_hit_window(position: int) -> bool {
    TARGET_POSITION - THRESHOLD <= position <= TARGET_POSITION + THRESHOLD
}

/// The position lies beyond the end of the playfield, at twice the distance
/// of the target from the origin.
pub open spec fn left_playfield(position: int) -> bool {
    position > 2 * TARGET_POSITION
}

/// Judgment of an arrow at `position` in a tick in which the key of its
/// direction was or was not pressed.
pub open spec fn judgment_at(position: int, pressed: bool) -> Judgment {
    if in_hit_window(position) && pressed {
        Judgment::Hit(hit_points(position - TARGET_POSITION) as usize)
    } else if left_playfield(position) {
        Judgment::Miss
    } else {
        Judgment::Live
    }
}

/// A key press resolves an arrow only within the hit window, edges included:
/// at the target it is worth a hundred points, at either edge ten, and outside
/// the window the arrow is not hit, pressed or not. Without a press no arrow
/// is hit, and only an arrow beyond the end of the playfield is missed.
pub proof fn lemma_judgment_by_position(position: int, pressed: bool)
    ensures
        judgment_at(TARGET_POSITION as int, true) == Judgment::Hit(100),
        judgment_at(TARGET_POSITION - THRESHOLD, true) == Judgment::Hit(10),
        judgment_at(TARGET_POSITION + THRESHOLD, true) == Judgment::Hit(10),
        judgment_at(position, pressed) is Hit <==> in_hit_window(position) && pressed,
        judgment_at(position, pressed) matches Judgment::Hit(points) ==> 10 <= points <= 100,
        judgment_at(position, pressed) is Miss <==> left_playfield(position),
        !in_hit_window(position) && !left_playfield(position) ==> judgment_at(position, pressed)
            is Live,
{
    lemma_hit_points_fall_with_distance(0, position - TARGET_POSITION);
    lemma_hit_points_fall_with_distance(0, THRESHOLD as int);
    lemma_hit_points_fall_with_distance(0, -THRESHOLD);
}

/// What one tick changes in the look of an arrow that has passed the hit
/// window and is falling off the field.
#[derive(Copy, Clone, Debug, PartialEq, Eq, Structural)]
pub struct FallStep {
    /// Steps by which the arrow sinks in this tick.
    pub drop: i64,
    /// Size of the arrow, in millionths of its full size.
    pub scale: i64,
    /// Clockwise turn of the arrow in this tick, in millionths of a radian.
    pub turn: i64,
}

/// The fall of an arrow of the given speed that is `overshoot` steps past the
/// hit window, in a tick of `delta` ticks: it sinks in proportion to overshoot
/// and time, shrinks with the overshoot down to a fifth of its size, and turns
/// in proportion to overshoot and speed multiplier.
pub open spec fn fall_step(overshoot: int, delta: int, speed: Speed) -> FallStep {
    FallStep {
        drop: (overshoot * delta * 2 / (TICKS_PER_SECOND as int)) as i64,
        scale: if 1_000_000 - overshoot / 300 < 200_000 {
            200_000i64
        } else {
            (1_000_000 - overshoot / 300) as i64
        },
        turn: (overshoot * speed.spec_multiplier() / 4600) as i64,
    }
}

/// An arrow on the playfield, from the tick in which it appears until it is
/// hit or leaves the field.
#[derive(Copy, Clone, Debug)]
pub struct LiveArrow {
    speed: Speed,
    direction: Directions,
    age: i64,
}

impl LiveArrow {
    #[verifier::type_invariant]
    spec fn inv(&self) -> bool {
        0 <= self.age <= MAX_AGE
    }

    /// Speed class of the arrow.
    pub closed spec fn spec_speed(&self) -> Speed {
        self.speed
    }

    /// Direction of the arrow.
    pub closed spec fn spec_direction(&self) -> Directions {
        self.direction
    }

    /// Ticks since the arrow appeared.
    pub closed spec fn spec_age(&self) -> int {
        self.age as int
    }

    /// Position of the arrow.
    pub open spec fn spec_position(&self) -> int {
        position_at(self.spec_age(), self.spec_speed())
    }

    /// The arrow is what `before` is after `delta` more ticks.
    pub open spec fn is_aged(&self, before: LiveArrow, delta: int) -> bool {
        &&& self.spec_age() == before.spec_age() + delta
        &&& self.spec_speed() == before.spec_speed()
        &&& self.spec_direction() == before.spec_direction()
    }

    /// The arrow is the one that appears for the given event of a chart.
    pub open spec fn is_spawn_of(&self, event: ArrowTime) -> bool {
        &&& self.spec_age() == 0
        &&& self.spec_speed() == event.speed
        &&& self.spec_direction() == event.direction
    }

    /// The fall of the arrow in a tick of `delta` ticks: none while the arrow
    /// has not passed the hit window.
    pub open spec fn spec_fall(&self, delta: int) -> Option<FallStep> {
        if overshoot_at(self.spec_position()) > 0 {
            Some(fall_step(overshoot_at(self.spec_position()), delta, self.spec_speed()))
        } else {
            None
        }
    }

    /// Judgment of the arrow under the given key presses.
    pub open spec fn judgment(&self, input: KeyInput) -> Judgment {
        judgment_at(self.spec_position(), input.has(self.spec_direction()))
    }

    /// The arrow of a chart event, at the spawn position.
    pub fn spawn(event: &ArrowTime) -> (arrow: LiveArrow)
        ensures
            arrow.is_spawn_of(*event),
            arrow.spec_position() == SPAWN_POSITION,
    {
        LiveArrow { speed: event.speed, direction: event.direction, age: 0 }
    }

    /// Speed class of the arrow.
    pub fn speed(&self) -> (speed: Speed)
        ensures
            speed == self.spec_speed(),
    {
        self.speed
    }

    /// Direction of the arrow.
    pub fn direction(&self) -> (direction: Directions)
        ensures
            direction == self.spec_direction(),
    {
        self.direction
    }

    /// Ticks since the arrow appeared.
    pub fn age(&self) -> (age: i64)
        ensures
            age == self.spec_age(),
            0 <= age <= MAX_AGE,
    {
        proof {
            use_type_invariant(self);
        }
        self.age
    }

    /// Position of the arrow: it leaves the spawn position at its speed.
    pub fn position(&self) -> (position: i64)
        ensures
            position == self.spec_position(),
            SPAWN_POSITION <= position <= SPAWN_POSITION + MAX_AGE * 300,
    {
        proof {
            use_type_invariant(self);
        }
        let speed = self.speed.value();
        assert(0 <= self.age * speed <= MAX_AGE * 300) by (nonlinear_arith)
            requires
                0 <= self.age <= MAX_AGE,
                0 < speed <= 300,
        ;
        SPAWN_POSITION + self.age * speed
    }

    /// Lets `delta` ticks pass for the arrow.
    pub fn advance(&mut self, delta: i64)
        requires
            0 <= delta,
            old(self).spec_age() + delta <= MAX_AGE,
        ensures
            final(self).is_aged(*old(self), delta as int),
    {
        proof {
            use_type_invariant(&*self);
        }
        self.age = self.age + delta;
    }

    /// The fall of the arrow in a tick of `delta` ticks: none while the arrow
    /// has not passed the hit window.
    pub fn fail_fall(&self, delta: i64) -> (step: Option<FallStep>)
        requires
            0 <= delta <= MAX_AGE,
        ensures
            step == self.spec_fall(delta as int),
            step matches Some(s) ==> s.drop >= 0 && 200_000 <= s.scale <= 1_000_000 && s.turn >= 0,
    {
        let overshoot: i64 = self.position() - TARGET_POSITION - THRESHOLD;
        if overshoot > 0 {
            proof {
                assert(0 <= overshoot * delta <= (MAX_AGE * 300) * MAX_AGE) by (nonlinear_arith)
                    requires
                        0 < overshoot <= MAX_AGE * 300,
                        0 <= delta <= MAX_AGE,
                ;
            }
            let sunk: i128 = overshoot as i128 * delta as i128 * 2 / TICKS_PER_SECOND as i128;
            let shrunk: i64 = 1_000_000 - overshoot / 300;
            let scale: i64 = if shrunk < 200_000 {
                200_000
            } else {
                shrunk
            };
            let turn: i64 = overshoot * self.speed.multiplier() / 4600;
            Some(FallStep { drop: sunk as i64, scale, turn })
        } else {
            None
        }
    }

    /// Judges the arrow against the keys that were just pressed: a hit, with
    /// its points, where the arrow is within the hit window and its key was
    /// pressed; a miss where it has left the playfield; else it stays.
    pub fn judge(&self, input: &KeyInput) -> (judgment: Judgment)
        ensures
            judgment == self.judgment(*input),
            judgment matches Judgment::Hit(points) ==> 10 <= points <= 100,
    {
        let position = self.position();
        if position >= TARGET_POSITION - THRESHOLD && position <= TARGET_POSITION + THRESHOLD
            && input.pressed(self.direction) {
            Judgment::Hit(points_for(position - TARGET_POSITION))
        } else if position > 2 * TARGET_POSITION {
            Judgment::Miss
        } else {
            Judgment::Live
        }
    }
}

/// The predicate that holds of the arrows that stay on the playfield under
/// the given key presses.
pub open spec fn stays_live(input: KeyInput) -> spec_fn(LiveArrow) -> bool {
    |arrow: LiveArrow| arrow.judgment(input) is Live
}

/// The judgments of the arrows under the given key presses, arrow by arrow.
pub open spec fn judgments_of(arrows: Seq<LiveArrow>, input: KeyInput) -> Seq<Judgment> {
    Seq::new(arrows.len(), |i: int| arrows[i].judgment(input))
}

/// Moves every arrow forward by `delta` ticks and reports, arrow by arrow,
/// the fall of those that have passed the hit window.
pub fn move_arrows(arrows: &mut Vec<LiveArrow>, delta: i64) -> (steps: Vec<Option<FallStep>>)
    requires
        0 <= delta <= MAX_AGE,
        forall|i: int|
            0 <= i < old(arrows).len() ==> (#[trigger] old(arrows)[i]).spec_age() + delta
                <= MAX_AGE,
    ensures
        final(arrows).len() == old(arrows).len(),
        steps.len() == old(arrows).len(),
        forall|i: int|
            0 <= i < old(arrows).len() ==> (#[trigger] final(arrows)[i]).is_aged(
                old(arrows)[i],
                delta as int,
            ),
        forall|i: int|
            0 <= i < old(arrows).len() ==> #[trigger] steps[i] == final(arrows)[i].spec_fall(
                delta as int,
            ),
{
    let mut steps: Vec<Option<FallStep>> = Vec::new();
    let count = arrows.len();
    let mut i: usize = 0;
    while i < count
        invariant
            0 <= delta <= MAX_AGE,
            i <= count,
            count == old(arrows).len(),
            arrows.len() == count,
            steps.len() == i,
            forall|k: int| i <= k < count ==> arrows[k] == old(arrows)[k],
            forall|k: int|
                0 <= k < count ==> (#[trigger] old(arrows)[k]).spec_age() + delta <= MAX_AGE,
            forall|k: int|
                0 <= k < i ==> (#[trigger] arrows[k]).is_aged(old(arrows)[k], delta as int),
            forall|k: int| 0 <= k < i ==> #[trigger] steps[k] == arrows[k].spec_fall(delta as int),
        decreases count - i,
    {
        let mut arrow = arrows[i];
        assert(arrow == old(arrows)[i as int]);
        arrow.advance(delta);
        steps.push(arrow.fail_fall(delta));
        arrows.set(i, arrow);
        i += 1;
    }
    steps
}

/// Judges every arrow against the keys that were just pressed, in the order
/// of the arrows and each for itself: counts the hits and the misses in the
/// score, takes the arrows that were hit or missed off the playfield, and
/// reports the judgments arrow by arrow.
pub fn judge_arrows(arrows: &mut Vec<LiveArrow>, input: &KeyInput, score: &mut Score) -> (verdicts:
    Vec<Judgment>)
    requires
        old(score).has_room_for(old(arrows).len() as nat),
    ensures
        verdicts@ == judgments_of(old(arrows)@, *input),
        final(arrows)@ == old(arrows)@.filter(stays_live(*input)),
        final(score)@ == old(score)@.replay(verdicts@),
{
    let mut verdicts: Vec<Judgment> = Vec::new();
    let mut kept: Vec<LiveArrow> = Vec::new();
    let count = arrows.len();
    let mut i: usize = 0;
    assert(arrows@.take(0).filter(stays_live(*input)) =~= Seq::<LiveArrow>::empty()) by {
        arrows@.take(0).lemma_filter_len(stays_live(*input));
    }
    assert(verdicts@ =~= judgments_of(arrows@.take(0), *input));
    while i < count
        invariant
            i <= count,
            count == arrows.len(),
            arrows@ == old(arrows)@,
            score.has_room_for((count - i) as nat),
            verdicts@ == judgments_of(arrows@.take(i as int), *input),
            kept@ == arrows@.take(i as int).filter(stays_live(*input)),
            score@ == old(score)@.replay(verdicts@),
        decreases count - i,
    {
        let arrow = arrows[i];
        let ghost seen = arrows@.take(i as int);
        let ghost judged = verdicts@;
        let verdict = arrow.judge(input);
        proof {
            assert(arrows@.take(i + 1) =~= seen.push(arrow));
            seen.lemma_filter_push(arrow, stays_live(*input));
            assert(judgments_of(seen.push(arrow), *input) =~= judged.push(verdict));
            assert(judged.push(verdict).drop_last() =~= judged);
        }
        match verdict {
            Judgment::Hit(_) => {
                let points = score.incr_correct(arrow.position() - TARGET_POSITION);
                assert(verdict == Judgment::Hit(points));
            },
            Judgment::Miss => {
                score.incr_failed();
            },
            Judgment::Live => {
                kept.push(arrow);
            },
        }
        verdicts.push(verdict);
        i += 1;
    }
    assert(arrows@.take(count as int) =~= arrows@);
    *arrows = kept;
    verdicts
}

/// One tick of judgment against the keyboard of the host: judges every arrow
/// by the arrow keys that the keyboard holds as just pressed, as
/// `judge_arrows` does by their snapshot.
pub fn despawn_arrows(
    arrows: &mut Vec<LiveArrow>,
    keyboard_input: &Input<KeyCode>,
    score: &mut Score,
) -> (verdicts: Vec<Judgment>)
    requires
        old(score).has_room_for(old(arrows).len() as nat),
    ensures
        verdicts@ == judgments_of(old(arrows)@, just_pressed_keys(*keyboard_input)),
        final(arrows)@ == old(arrows)@.filter(stays_live(just_pressed_keys(*keyboard_input))),
        final(score)@ == old(score)@.replay(verdicts@),
{
    let input = KeyInput::read(keyboard_input);
    judge_arrows(arrows, &input, score)
}

} // verus!
