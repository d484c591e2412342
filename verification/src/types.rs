//! Directions, speeds and the chart model.

use vstd::prelude::*;

use crate::consts::{BASE_SPEED, DISTANCE, UNIT};
use crate::error::EngineError;
use crate::order::{
    is_stable_sort,
    lemma_insert_keeps_stable_sort,
    sorted_by_spawn_time,
    spawns_at,
};

verus! {

/// The four arrow keys.
#[derive(Copy, Clone, Debug, PartialEq, Eq, Structural)]
pub enum Directions {
    Up,
    Down,
    Left,
    Right,
}

impl Directions {
    /// Quarter turns, counter-clockwise, that point an arrow sprite in this
    /// direction; the sprite itself points right.
    pub open spec fn quarter_turns(self) -> int {
        match self {
            Directions::Up => 1,
            Directions::Down => -1,
            Directions::Left => 2,
            Directions::Right => 0,
        }
    }

    /// Rotation of an arrow with this direction, in degrees.
    pub fn rotation(&self) -> (degrees: i32)
        ensures
            degrees == 90 * self.quarter_turns(),
    {
        match self {
            Directions::Up => 90,
            Directions::Down => -90,
            Directions::Left => 180,
            Directions::Right => 0,
        }
    }

    /// Lane of this direction, counted from the bottom lane upwards.
    pub open spec fn lane(self) -> int {
        match self {
            Directions::Up => 3,
            Directions::Down => 2,
            Directions::Left => 1,
            Directions::Right => 0,
        }
    }

    /// Y coordinate of the lane of this direction. Lanes lie a hundred units
    /// apart, symmetric about the horizontal axis.
    pub fn y(&self) -> (y: i64)
        ensures
            y == (100 * self.lane() - 150) * UNIT,
    {
        match self {
            Directions::Up => 150_000_000,
            Directions::Down => 50_000_000,
            Directions::Left => -50_000_000,
            Directions::Right => -150_000_000,
        }
    }
}

/// Speed class of an arrow.
#[derive(Copy, Clone, Debug, PartialEq, Eq, Structural)]
pub enum Speed {
    Slow,
    Medium,
    Fast,
}

impl Speed {
    /// Speed multiplier of this class, in tenths.
    pub open spec fn spec_multiplier(self) -> int {
        match self {
            Speed::Slow => 10,
            Speed::Medium => 12,
            Speed::Fast => 15,
        }
    }

    /// Speed of an arrow of this class, in steps per tick.
    pub open spec fn spec_value(self) -> int {
        BASE_SPEED * self.spec_multiplier() / 10
    }

    /// Ticks an arrow of this class needs from the spawn position to the
    /// target: the distance divided by the speed, which leaves no remainder.
    pub open spec fn spec_travel_duration(self) -> int {
        match self {
            Speed::Slow => 3_000_000,
            Speed::Medium => 2_500_000,
            Speed::Fast => 2_000_000,
        }
    }

    /// Speed of an arrow of this class, in steps per tick.
    pub fn value(&self) -> (v: i64)
        ensures
            v == self.spec_value(),
            v > 0,
    {
        BASE_SPEED * self.multiplier() / 10
    }

    /// Speed multiplier of this class, in tenths.
    pub fn multiplier(&self) -> (m: i64)
        ensures
            m == self.spec_multiplier(),
    {
        match self {
            Speed::Slow => 10,
            Speed::Medium => 12,
            Speed::Fast => 15,
        }
    }

    /// Ticks an arrow of this class needs from the spawn position to the
    /// target.
    pub fn travel_duration(&self) -> (ticks: i64)
        ensures
            ticks == self.spec_travel_duration(),
            ticks > 0,
            ticks * self.spec_value() == DISTANCE,
    {
        let speed = self.value();
        assert(speed == 200 || speed == 240 || speed == 300);
        DISTANCE / speed
    }
}

/// Every speed class takes a positive time from the spawn position to the
/// target, and a faster class takes less: slow more than medium, medium more
/// than fast.
pub proof fn lemma_travel_duration_falls_with_speed(slower: Speed, faster: Speed)
    ensures
        slower.spec_travel_duration() > 0,
        slower.spec_travel_duration() * slower.spec_value() == DISTANCE,
        slower.spec_value() < faster.spec_value() ==> slower.spec_travel_duration()
            > faster.spec_travel_duration(),
        Speed::Slow.spec_value() < Speed::Medium.spec_value() < Speed::Fast.spec_value(),
        Speed::Slow.spec_travel_duration() > Speed::Medium.spec_travel_duration()
            > Speed::Fast.spec_travel_duration(),
{
    assert(Speed::Slow.spec_value() == 200);
    assert(Speed::Medium.spec_value() == 240);
    assert(Speed::Fast.spec_value() == 300);
    match slower {
        Speed::Slow => assert(3_000_000 * 200 == DISTANCE),
        Speed::Medium => assert(2_500_000 * 240 == DISTANCE),
        Speed::Fast => assert(2_000_000 * 300 == DISTANCE),
    }
}

/// An arrow as a chart lists it: the moment at which the player should hit it.
#[derive(Copy, Clone, Debug, PartialEq, Eq, Structural)]
pub struct ArrowTimeToml {
    /// Tick of the song at which the arrow reaches the target.
    pub click_time: i64,
    pub speed: Speed,
    pub direction: Directions,
}

/// An arrow as the scheduler reads it: the moment at which it appears.
#[derive(Copy, Clone, Debug, PartialEq, Eq, Structural)]
pub struct ArrowTime {
    /// Tick of the song at which the arrow leaves the spawn position.
    pub spawn_time: i64,
    pub speed: Speed,
    pub direction: Directions,
}

impl ArrowTimeToml {
    /// Tick at which this arrow has to appear to reach the target at its
    /// click time.
    pub open spec fn spawn_time(self) -> int {
        self.click_time - self.speed.spec_travel_duration()
    }

    /// The spawn time of this arrow is a tick that the engine can count.
    pub open spec fn representable(self) -> bool {
        self.spawn_time() >= i64::MIN
    }

    /// The arrow that the scheduler reads for this entry.
    pub open spec fn arrow(self) -> ArrowTime {
        ArrowTime {
            spawn_time: self.spawn_time() as i64,
            speed: self.speed,
            direction: self.direction,
        }
    }
}

impl ArrowTime {
    /// Tick at which this arrow reaches the target.
    pub open spec fn hit_time(self) -> int {
        self.spawn_time + self.speed.spec_travel_duration()
    }

    /// The arrow of a chart entry whose spawn time can be counted.
    pub fn new_from_toml(a: &ArrowTimeToml) -> (arrow: ArrowTime)
        requires
            a.representable(),
        ensures
            arrow == a.arrow(),
            arrow.hit_time() == a.click_time,
    {
        ArrowTime {
            spawn_time: a.click_time - a.speed.travel_duration(),
            speed: a.speed,
            direction: a.direction,
        }
    }
}

/// Every entry has a spawn time that the engine can count.
pub open spec fn all_representable(entries: Seq<ArrowTimeToml>) -> bool {
    forall|i: int| 0 <= i < entries.len() ==> (#[trigger] entries[i]).representable()
}

/// The arrows of the entries, in the order of the entries.
pub open spec fn arrows_of(entries: Seq<ArrowTimeToml>) -> Seq<ArrowTime> {
    Seq::new(entries.len(), |i: int| entries[i].arrow())
}

/// Turns the entries of a chart into the arrows that the scheduler consumes:
/// one arrow per entry, ascending by spawn time, arrows of equal spawn time in
/// the order of their entries. An entry whose spawn time cannot be counted
/// makes the chart malformed.
pub fn build(entries: &Vec<ArrowTimeToml>) -> (result: Result<Vec<ArrowTime>, EngineError>)
    ensures
        result is Ok <==> all_representable(entries@),
        result matches Ok(arrows) ==> is_stable_sort(arrows@, arrows_of(entries@)),
        result matches Err(e) ==> e == EngineError::ParseError,
{
    let mut arrows: Vec<ArrowTime> = Vec::new();
    let mut i: usize = 0;
    assert(arrows_of(entries@.take(0)) =~= Seq::<ArrowTime>::empty());
    assert forall|t: int| #[trigger]
        arrows@.filter(spawns_at(t)) == arrows_of(entries@.take(0)).filter(spawns_at(t)) by {}
    while i < entries.len()
        invariant
            i <= entries.len(),
            all_representable(entries@.take(i as int)),
            is_stable_sort(arrows@, arrows_of(entries@.take(i as int))),
        decreases entries.len() - i,
    {
        let entry = &entries[i];
        let ghost before = entries@.take(i as int);
        let ghost after = entries@.take(i + 1);
        assert(after =~= before.push(*entry));
        if entry.click_time < i64::MIN + entry.speed.travel_duration() {
            assert(!entries@[i as int].representable());
            return Err(EngineError::ParseError);
        }
        let arrow = ArrowTime::new_from_toml(entry);
        let mut at: usize = arrows.len();
        while at > 0 && arrows[at - 1].spawn_time > arrow.spawn_time
            invariant
                at <= arrows.len(),
                forall|k: int| at <= k < arrows.len() ==> arrows[k].spawn_time > arrow.spawn_time,
            decreases at,
        {
            at -= 1;
        }
        proof {
            assert(sorted_by_spawn_time(arrows@));
            assert forall|k: int| 0 <= k < at implies arrows[k].spawn_time
                <= arrow.spawn_time by {
                if at > 0 {
                    assert(arrows[at - 1].spawn_time <= arrow.spawn_time);
                }
            }
            lemma_insert_keeps_stable_sort(arrows@, arrows_of(before), arrow, at as int);
            assert(arrows_of(after) =~= arrows_of(before).push(arrow));
            assert forall|k: int| 0 <= k < after.len() implies (#[trigger] after[k]).representable() by {
                if k < i {
                    assert(after[k] == before[k]);
                }
            }
        }
        arrows.insert(at, arrow);
        i += 1;
    }
    assert(entries@.take(i as int) =~= entries@);
    Ok(arrows)
}

/// A chart as its file holds it.
#[derive(Clone, Debug)]
pub struct SongConfigToml {
    pub name: String,
    /// File name of the song's audio.
    pub filename: String,
    pub arrows: Vec<ArrowTimeToml>,
}

/// A chart that is ready to be played.
#[derive(Clone, Debug)]
pub struct SongConfig {
    pub name: String,
    /// File name of the song's audio.
    pub song_audio: String,
    /// The arrows of the chart, in the order in which they appear.
    pub arrows: Vec<ArrowTime>,
}

impl SongConfig {
    /// The arrows are in ascending order of spawn time.
    pub open spec fn wf(&self) -> bool {
        sorted_by_spawn_time(self.arrows@)
    }
}

/// Makes a parsed chart ready to be played: keeps its name and its song, and
/// orders its arrows as `build` does. A chart that `build` rejects is
/// rejected whole.
pub fn load_config(parsed: SongConfigToml) -> (result: Result<SongConfig, EngineError>)
    ensures
        result is Ok <==> all_representable(parsed.arrows@),
        result matches Ok(config) ==> {
            &&& config.name@ == parsed.name@
            &&& config.song_audio@ == parsed.filename@
            &&& is_stable_sort(config.arrows@, arrows_of(parsed.arrows@))
            &&& config.wf()
        },
        result matches Err(e) ==> e == EngineError::ParseError,
{
    match build(&parsed.arrows) {
        Ok(arrows) => Ok(SongConfig { name: parsed.name, song_audio: parsed.filename, arrows }),
        Err(e) => Err(e),
    }
}

} // verus!
