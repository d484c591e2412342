//! The score of a play session and the worth of a hit.

use vstd::prelude::*;

use crate::consts::THRESHOLD;

verus! {

/// How an arrow stands after the judgment of one tick.
#[derive(Copy, Clone, Debug, PartialEq, Eq, Structural)]
pub enum Judgment {
    /// The arrow was hit, for the given points.
    Hit(usize),
    /// The arrow left the playfield without being hit.
    Miss,
    /// The arrow is still travelling.
    Live,
}

/// Points for a hit at `distance` from the target: a hundred at the target,
/// falling in proportion to the distance, rounded to the nearest point, and
/// ten at the least. A point is a hundredth of the threshold, 200 000 steps,
/// and half a point counts up.
pub open spec fn hit_points(distance: int) -> int {
    let nearest = (THRESHOLD - off_target(distance) + 100_000) / 200_000;
    if nearest < 10 {
        10
    } else if nearest > 100 {
        100
    } else {
        nearest
    }
}

/// Distance of a hit from the target, to either side.
pub open spec fn off_target(distance: int) -> int {
    if distance < 0 {
        -distance
    } else {
        distance
    }
}

/// A hit is worth between ten and a hundred points, the same to either side
/// of the target and no more than a hit nearer to it. Above the floor of ten
/// the points are the percentage of the threshold that the hit kept clear of,
/// off by at most a half, and a half counts up.
pub proof fn lemma_hit_points_fall_with_distance(nearer: int, farther: int)
    requires
        off_target(nearer) <= off_target(farther),
    ensures
        10 <= hit_points(farther) <= hit_points(nearer) <= 100,
        hit_points(-nearer) == hit_points(nearer),
        hit_points(nearer) > 10 ==> 2 * THRESHOLD * hit_points(nearer) - THRESHOLD <= 200 * (THRESHOLD
            - off_target(nearer)) < 2 * THRESHOLD * hit_points(nearer) + THRESHOLD,
{
    let points = hit_points(nearer);
    assert(2 * THRESHOLD * points == 40_000_000 * points) by (nonlinear_arith)
        requires
            THRESHOLD == 20_000_000,
    ;
}

/// Points for a hit at `distance` from the target.
pub fn points_for(distance: i64) -> (points: usize)
    ensures
        points == hit_points(distance as int),
        10 <= points <= 100,
{
    if distance <= -THRESHOLD || distance >= THRESHOLD {
        10
    } else {
        let off: i64 = if distance < 0 {
            -distance
        } else {
            distance
        };
        let nearest: i64 = (THRESHOLD - off + 100_000) / 200_000;
        if nearest < 10 {
            10
        } else {
            nearest as usize
        }
    }
}

/// What a score counts.
pub struct Tally {
    pub total_points: nat,
    pub hits: nat,
    pub misses: nat,
}

impl Tally {
    /// The tally before anything was judged.
    pub open spec fn zero() -> Tally {
        Tally { total_points: 0, hits: 0, misses: 0 }
    }

    /// The tally after one more hit.
    pub open spec fn hit(self, points: nat) -> Tally {
        Tally { total_points: self.total_points + points, hits: self.hits + 1, ..self }
    }

    /// The tally after one more miss.
    pub open spec fn miss(self) -> Tally {
        Tally { misses: self.misses + 1, ..self }
    }

    /// The tally after one more judgment.
    pub open spec fn record(self, judgment: Judgment) -> Tally {
        match judgment {
            Judgment::Hit(points) => self.hit(points as nat),
            Judgment::Miss => self.miss(),
            Judgment::Live => self,
        }
    }

    /// The tally after the given judgments, in their order.
    pub open spec fn replay(self, judgments: Seq<Judgment>) -> Tally
        decreases judgments.len(),
    {
        if judgments.len() == 0 {
            self
        } else {
            self.replay(judgments.drop_last()).record(judgments.last())
        }
    }
}

/// The points of the hits among the judgments, in their order.
pub open spec fn hit_values(judgments: Seq<Judgment>) -> Seq<nat>
    decreases judgments.len(),
{
    if judgments.len() == 0 {
        Seq::empty()
    } else {
        match judgments.last() {
            Judgment::Hit(points) => hit_values(judgments.drop_last()).push(points as nat),
            _ => hit_values(judgments.drop_last()),
        }
    }
}

/// Number of misses among the judgments.
pub open spec fn miss_count(judgments: Seq<Judgment>) -> nat
    decreases judgments.len(),
{
    if judgments.len() == 0 {
        0
    } else {
        miss_count(judgments.drop_last()) + if judgments.last() is Miss {
            1nat
        } else {
            0nat
        }
    }
}

/// Sum of the values.
pub open spec fn sum(values: Seq<nat>) -> nat
    decreases values.len(),
{
    if values.len() == 0 {
        0
    } else {
        sum(values.drop_last()) + values.last()
    }
}

/// A score that started at zero counts, after any judgments in any order,
/// the sum of the points of the hits, the number of hits and the number of
/// misses.
pub proof fn lemma_score_counts_hits_and_misses(judgments: Seq<Judgment>)
    ensures
        Tally::zero().replay(judgments) == (Tally {
            total_points: sum(hit_values(judgments)),
            hits: hit_values(judgments).len(),
            misses: miss_count(judgments),
        }),
    decreases judgments.len(),
{
    if judgments.len() > 0 {
        lemma_score_counts_hits_and_misses(judgments.drop_last());
        let earlier = hit_values(judgments.drop_last());
        match judgments.last() {
            Judgment::Hit(points) => {
                assert(earlier.push(points as nat).drop_last() =~= earlier);
            },
            _ => {},
        }
    }
}

/// Points, hits and misses of a play session.
pub struct Score {
    score: usize,
    corrects: usize,
    fails: usize,
}

impl View for Score {
    type V = Tally;

    closed spec fn view(&self) -> Tally {
        Tally {
            total_points: self.score as nat,
            hits: self.corrects as nat,
            misses: self.fails as nat,
        }
    }
}

impl Score {
    /// The score can take `judgments` more judgments without running out of
    /// numbers.
    pub open spec fn has_room_for(&self, judgments: nat) -> bool {
        &&& self@.total_points + 100 * judgments <= usize::MAX
        &&& self@.hits + judgments <= usize::MAX
        &&& self@.misses + judgments <= usize::MAX
    }

    /// A score of nothing.
    pub fn new() -> (score: Score)
        ensures
            score@ == Tally::zero(),
    {
        Score { score: 0, corrects: 0, fails: 0 }
    }

    /// Counts a hit at `distance` from the target, adds its points to the
    /// total and returns them.
    pub fn incr_correct(&mut self, distance: i64) -> (points: usize)
        requires
            old(self).has_room_for(1),
        ensures
            points == hit_points(distance as int),
            final(self)@ == old(self)@.hit(points as nat),
    {
        self.corrects += 1;
        let points = points_for(distance);
        self.score += points;
        points
    }

    /// Counts a miss.
    pub fn incr_failed(&mut self)
        requires
            old(self).has_room_for(1),
        ensures
            final(self)@ == old(self)@.miss(),
    {
        self.fails += 1;
    }

    /// Sum of the points of all hits.
    pub fn get_score(&self) -> (score: usize)
        ensures
            score == self@.total_points,
    {
        self.score
    }

    /// Number of hits.
    pub fn get_corrects(&self) -> (corrects: usize)
        ensures
            corrects == self@.hits,
    {
        self.corrects
    }

    /// Number of misses.
    pub fn get_fails(&self) -> (fails: usize)
        ensures
            fails == self@.misses,
    {
        self.fails
    }
}

} // verus!
