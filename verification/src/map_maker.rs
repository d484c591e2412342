//! Recording of a chart: the key presses of a session, written down as the
//! entries of a new chart.

use vstd::prelude::*;
use vstd::string::StringExecFns;

use bevy::input::keyboard::KeyCode;
use bevy::input::Input;

use crate::consts::START_TIME_OFFSET;
use crate::order::{is_stable_sort, lemma_stable_sort_keeps_sorted, sorted_by_spawn_time};
use crate::keys::{just_pressed_keys, KeyInput};
use crate::time::ControlledTime;
use crate::types::{
    all_representable,
    arrows_of,
    ArrowTime,
    ArrowTimeToml,
    Directions,
    SongConfigToml,
    Speed,
};

verus! {

/// Name of the chart that a recording is saved as.
pub const MAP_NAME: &'static str = "Map Maker output";

/// File name of the song that is recorded to.
pub const SONG_FILE: &'static str = "akisey-dance.ogg";

/// The entry written down for a press of direction `d` at song time
/// `click_time`. Recorded arrows are slow.
pub open spec fn press(click_time: int, d: Directions) -> ArrowTimeToml {
    ArrowTimeToml { click_time: click_time as i64, speed: Speed::Slow, direction: d }
}

/// The entry for direction `d` where its key was pressed, nothing where not.
pub open spec fn press_if(click_time: int, input: KeyInput, d: Directions) -> Seq<ArrowTimeToml> {
    if input.has(d) {
        seq![press(click_time, d)]
    } else {
        Seq::empty()
    }
}

/// The entries written down in one tick at song time `click_time`: one for
/// each key that was just pressed, in the order up, down, left, right.
pub open spec fn presses_at(click_time: int, input: KeyInput) -> Seq<ArrowTimeToml> {
    press_if(click_time, input, Directions::Up) + press_if(click_time, input, Directions::Down)
        + press_if(click_time, input, Directions::Left) + press_if(
        click_time,
        input,
        Directions::Right,
    )
}

/// An entry as a recording holds it: a slow arrow, pressed no earlier than
/// the session began.
pub open spec fn is_recorded(entry: ArrowTimeToml) -> bool {
    entry.speed == Speed::Slow && entry.click_time >= -START_TIME_OFFSET
}

/// Every entry is as a recording holds it.
pub open spec fn all_recorded(entries: Seq<ArrowTimeToml>) -> bool {
    forall|i: int| 0 <= i < entries.len() ==> is_recorded(#[trigger] entries[i])
}

/// No entry was pressed later than `click_time`, nor later than an entry
/// behind it.
pub open spec fn in_click_order_until(entries: Seq<ArrowTimeToml>, click_time: int) -> bool {
    &&& forall|i: int, j: int|
        0 <= i < j < entries.len() ==> entries[i].click_time <= entries[j].click_time
    &&& forall|i: int| 0 <= i < entries.len() ==> (#[trigger] entries[i]).click_time <= click_time
}

/// The key presses of a recording session.
#[derive(Debug)]
pub struct Presses {
    arrows: Vec<ArrowTimeToml>,
    should_save: bool,
}

impl Presses {
    /// The entries written down so far.
    pub closed spec fn entries(&self) -> Seq<ArrowTimeToml> {
        self.arrows@
    }

    /// Whether the recording is armed, that is, will be saved at its end.
    pub closed spec fn armed(&self) -> bool {
        self.should_save
    }

    /// An empty recording that is not armed.
    pub fn new() -> (presses: Presses)
        ensures
            presses.entries() == Seq::<ArrowTimeToml>::empty(),
            !presses.armed(),
    {
        Presses { arrows: Vec::new(), should_save: false }
    }

    /// Arms the recording, on entry into the recording mode.
    pub fn setup_key_presses_storage(&mut self)
        ensures
            final(self).entries() == old(self).entries(),
            final(self).armed(),
    {
        self.should_save = true;
    }

    /// Writes down the press of direction `d`, if its key was just pressed.
    fn save_key_press(&mut self, click_time: i64, input: &KeyInput, d: Directions)
        ensures
            final(self).entries() == old(self).entries() + press_if(click_time as int, *input, d),
            final(self).armed() == old(self).armed(),
    {
        if input.pressed(d) {
            let ghost before = self.arrows@;
            let entry = ArrowTimeToml { click_time, speed: Speed::Slow, direction: d };
            self.arrows.push(entry);
            assert(self.arrows@ =~= before + press_if(click_time as int, *input, d));
        } else {
            assert(self.arrows@ =~= self.arrows@ + press_if(click_time as int, *input, d));
        }
    }

    /// One tick of the recording against the keyboard of the host: writes
    /// down the arrow keys that the keyboard holds as just pressed, as
    /// `record_presses` does for their snapshot.
    pub fn save_key_presses(&mut self, time: &ControlledTime, keyboard_input: &Input<KeyCode>)
        ensures
            final(self).entries() == old(self).entries() + presses_at(
                time@.elapsed - START_TIME_OFFSET,
                just_pressed_keys(*keyboard_input),
            ),
            final(self).armed() == old(self).armed(),
            all_recorded(old(self).entries()) ==> all_recorded(final(self).entries()),
            in_click_order_until(old(self).entries(), time@.elapsed - START_TIME_OFFSET)
                ==> in_click_order_until(final(self).entries(), time@.elapsed - START_TIME_OFFSET),
    {
        let input = KeyInput::read(keyboard_input);
        self.record_presses(time, &input);
    }

    /// One tick of the recording: writes down an entry at the song time of
    /// the clock for each key that was just pressed. While the clock does not
    /// run backwards the entries stay in the order of their click times.
    pub fn record_presses(&mut self, time: &ControlledTime, input: &KeyInput)
        ensures
            final(self).entries() == old(self).entries() + presses_at(
                time@.elapsed - START_TIME_OFFSET,
                *input,
            ),
            final(self).armed() == old(self).armed(),
            all_recorded(old(self).entries()) ==> all_recorded(final(self).entries()),
            in_click_order_until(old(self).entries(), time@.elapsed - START_TIME_OFFSET)
                ==> in_click_order_until(final(self).entries(), time@.elapsed - START_TIME_OFFSET),
    {
        let click_time = time.song_ticks();
        self.save_key_press(click_time, input, Directions::Up);
        self.save_key_press(click_time, input, Directions::Down);
        self.save_key_press(click_time, input, Directions::Left);
        self.save_key_press(click_time, input, Directions::Right);
        proof {
            let now = click_time as int;
            let added = presses_at(now, *input);
            assert(self.entries() =~= old(self).entries() + added);
            assert forall|i: int| 0 <= i < added.len() implies (#[trigger] added[i]).click_time
                == now by {}
        }
    }

    /// The chart to save when the recording mode ends: the entries written
    /// down, under the fixed name and song of recordings. None where the
    /// recording was never armed.
    pub fn finalize(&self) -> (chart: Option<SongConfigToml>)
        ensures
            chart is Some <==> self.armed(),
            chart matches Some(c) ==> {
                &&& c.name@ == MAP_NAME@
                &&& c.filename@ == SONG_FILE@
                &&& c.arrows@ == self.entries()
            },
    {
        if !self.should_save {
            return None;
        }
        let mut arrows: Vec<ArrowTimeToml> = Vec::new();
        let mut i: usize = 0;
        while i < self.arrows.len()
            invariant
                i <= self.arrows.len(),
                arrows@ == self.arrows@.take(i as int),
            decreases self.arrows.len() - i,
        {
            arrows.push(self.arrows[i]);
            i += 1;
            assert(arrows@ =~= self.arrows@.take(i as int));
        }
        assert(self.arrows@.take(i as int) =~= self.arrows@);
        Some(
            SongConfigToml {
                name: String::from_str(MAP_NAME),
                filename: String::from_str(SONG_FILE),
                arrows,
            },
        )
    }
}

/// A recording can be loaded, and loads into the presses that were recorded:
/// for entries in the order of their click times, the arrows of the loaded
/// chart are slow, stand in the order of the entries, and each reaches the
/// target at the song time at which its key was pressed.
pub proof fn lemma_recording_round_trips(entries: Seq<ArrowTimeToml>, arrows: Seq<ArrowTime>)
    requires
        all_recorded(entries),
        forall|i: int, j: int|
            0 <= i < j < entries.len() ==> entries[i].click_time <= entries[j].click_time,
        is_stable_sort(arrows, arrows_of(entries)),
    ensures
        all_representable(entries),
        arrows.len() == entries.len(),
        forall|i: int|
            0 <= i < entries.len() ==> {
                &&& (#[trigger] arrows[i]).hit_time() == entries[i].click_time
                &&& arrows[i].direction == entries[i].direction
                &&& arrows[i].speed == Speed::Slow
            },
{
    let given = arrows_of(entries);
    assert(Speed::Slow.spec_travel_duration() == 3_000_000);
    assert forall|i: int| 0 <= i < entries.len() implies (#[trigger] entries[i]).representable() by {
        assert(is_recorded(entries[i]));
    }
    assert forall|i: int, j: int| 0 <= i < j < given.len() implies given[i].spawn_time
        <= given[j].spawn_time by {
        assert(is_recorded(entries[i]) && is_recorded(entries[j]));
    }
    lemma_stable_sort_keeps_sorted(arrows, given);
    assert forall|i: int| 0 <= i < entries.len() implies {
        &&& (#[trigger] arrows[i]).hit_time() == entries[i].click_time
        &&& arrows[i].direction == entries[i].direction
        &&& arrows[i].speed == Speed::Slow
    } by {
        assert(is_recorded(entries[i]));
        assert(arrows[i] == entries[i].arrow());
    }
}

} // verus!
