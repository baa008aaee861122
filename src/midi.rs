use vstd::prelude::*;

verus! {

/// A channel voice message, with its numeric fields held as plain integers
/// (keys, velocities and programs are 7-bit, a pitch bend is 14-bit).
#[derive(Clone, Copy, Debug, PartialEq, Eq, Structural)]
pub enum MidiMessage {
    NoteOff { key: u8, vel: u8 },
    NoteOn { key: u8, vel: u8 },
    Aftertouch { key: u8, vel: u8 },
    Controller { controller: u8, value: u8 },
    ProgramChange { program: u8 },
    ChannelAftertouch { vel: u8 },
    PitchBend { bend: u16 },
}

/// One event of a song: the track it belongs to, its channel (0 to 15),
/// the moment it is due in microseconds of song time, and the message.
#[derive(Clone, Copy, Debug, PartialEq, Eq, Structural)]
pub struct MidiEvent {
    pub track_id: usize,
    pub channel: u8,
    pub timestamp: u64,
    pub message: MidiMessage,
}

/// Where a note event comes from: the song being played, or the performer.
#[derive(Clone, Copy, Debug, PartialEq, Eq, Structural)]
pub enum MidiEventSource {
    File,
    User,
}

/// The closed interval of notes that the performer's keyboard can produce.
#[derive(Clone, Copy, Debug, PartialEq, Eq, Structural)]
pub struct KeyboardRange {
    pub start: u8,
    pub end: u8,
}

impl KeyboardRange {
    pub open spec fn spec_contains(self, note: u8) -> bool {
        self.start <= note && note <= self.end
    }

    pub fn new(start: u8, end: u8) -> (r: KeyboardRange)
        ensures
            r.start == start,
            r.end == end,
    {
        KeyboardRange { start, end }
    }

    pub fn contains(&self, note: u8) -> (r: bool)
        ensures
            r == self.spec_contains(note),
    {
        self.start <= note && note <= self.end
    }
}

} // verus!
