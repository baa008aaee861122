//! Playback controller and play-along reconciliation for a piano-learning
//! MIDI player.
mod midi;
pub mod play_along;
pub mod playback;
pub mod midi_player;
pub mod settings;

pub use midi::{KeyboardRange, MidiEvent, MidiEventSource, MidiMessage};
