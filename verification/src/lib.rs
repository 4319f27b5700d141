//! Verified core of an LTC-to-Behringer-Wing bridge: timecode text,
//! the cue schedule, the timecode gate, the console connection state
//! machine, OSC packet building, network interface selection and the
//! boxed console screen.

pub mod text;
pub mod timecode;
pub mod order;
pub mod cues;
pub mod wing;
pub mod gate;
pub mod network;
pub mod ui;
