//! Timing engine of a rhythm game.
//!
//! A chart lists the moments at which the player should press an arrow key.
//! The engine turns it into a stream of arrows that travel across the
//! playfield in time with the song, judges the key presses against them and
//! keeps the score. A second pipeline records key presses into a new chart.
//!
//! The engine works in fixed point. Time is counted in ticks of one
//! microsecond and length in steps of one millionth of a playfield unit, so a
//! speed in units per second is also the number of steps travelled per tick.
//! Every function is total on the inputs its contract admits and is proved
//! against a mathematical model of the component it belongs to. The one
//! exception is the question to bevy's keyboard whether an arrow key was just
//! pressed: its answer is taken on trust and given a name.

pub mod arrows;
pub mod audio;
pub mod consts;
pub mod error;
pub mod keys;
pub mod map_maker;
pub mod menu;
pub mod order;
pub mod playfield;
pub mod score;
pub mod time;
pub mod types;
