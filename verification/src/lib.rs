//! Verified control logic of an electric-piano instrument: key and pedal
//! ownership, MIDI decoding and block scheduling, the saved-state codec, the
//! program library's decisions, the control panel's request protocol and the
//! packaging paths.
use vstd::prelude::*;

pub mod keyboard;
pub mod midi;
pub mod state;
pub mod program;
pub mod editor;
pub mod model;
pub mod package;
pub mod panel;
pub mod page;
pub mod options;

verus! {
} // verus!
