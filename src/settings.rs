use vstd::prelude::*;

verus! {

/// The narrowest span, in semitones, between the ends of the note range
/// beyond which they may not be moved towards each other.
pub const MIN_RANGE_GAP: u8 = 24;

/// The highest MIDI note.
pub const MAX_NOTE: u8 = 127;

#[derive(Clone, Copy, Debug, PartialEq, Eq, Structural)]
pub enum RangeUpdateKind {
    Add,
    Sub,
}

/// A sound output a user can pick.
#[derive(Debug)]
pub enum OutputDescriptor {
    Synth,
    MidiOut(String),
    DummyOutput,
}

#[derive(Debug)]
pub enum SettingsMessage {
    SelectOutput(OutputDescriptor),
    SelectInput(String),
    VerticalGuidelines(bool),
    HorizontalGuidelines(bool),
    OpenSoundFontPicker,
    SoundFontFileLoaded(Option<String>),
    RangeStart(RangeUpdateKind),
    RangeEnd(RangeUpdateKind),
}

/// What the host has to do after a settings message.
#[derive(Clone, Copy, Debug, PartialEq, Eq, Structural)]
pub enum SettingsCommand {
    Nothing,
    PickSoundFont,
}

/// The stored settings, and the settings page's own state: the output and
/// input picked on it, and whether a sound font is being picked.
pub struct Settings {
    pub range_start: u8,
    pub range_end: u8,
    pub vertical_guidelines: bool,
    pub horizontal_guidelines: bool,
    pub soundfont_path: Option<String>,
    pub output: Option<OutputDescriptor>,
    pub input: Option<String>,
    pub selected_output: Option<OutputDescriptor>,
    pub selected_input: Option<String>,
    pub is_loading: bool,
}

/// The note range after moving its start: up by one (at most to the highest
/// note) while it stays more than the minimal gap below the end, or down by
/// one (not below zero).
pub open spec fn moved_start(start: u8, end: u8, kind: RangeUpdateKind) -> u8 {
    match kind {
        RangeUpdateKind::Add => {
            let v = if start < MAX_NOTE { start + 1 } else { MAX_NOTE as int };
            if v + MIN_RANGE_GAP < end { v as u8 } else { start }
        },
        RangeUpdateKind::Sub => if start > 0 { (start - 1) as u8 } else { 0 },
    }
}

/// The note range after moving its end: up by one (at most to the highest
/// note), or down by one while it stays more than the minimal gap above the
/// start.
pub open spec fn moved_end(start: u8, end: u8, kind: RangeUpdateKind) -> u8 {
    match kind {
        RangeUpdateKind::Add => if end < MAX_NOTE { (end + 1) as u8 } else { MAX_NOTE },
        RangeUpdateKind::Sub => {
            let v = if end > 0 { end - 1 } else { 0 };
            if start + MIN_RANGE_GAP < v { v as u8 } else { end }
        },
    }
}

fn moved_start_of(start: u8, end: u8, kind: RangeUpdateKind) -> (r: u8)
    ensures
        r == moved_start(start, end, kind),
{
    match kind {
        RangeUpdateKind::Add => {
            let v: u8 = if start < MAX_NOTE { start + 1 } else { MAX_NOTE };
            if (v as u16) + (MIN_RANGE_GAP as u16) < end as u16 { v } else { start }
        },
        RangeUpdateKind::Sub => start.saturating_sub(1),
    }
}

fn moved_end_of(start: u8, end: u8, kind: RangeUpdateKind) -> (r: u8)
    ensures
        r == moved_end(start, end, kind),
{
    match kind {
        RangeUpdateKind::Add => if end < MAX_NOTE { end + 1 } else { MAX_NOTE },
        RangeUpdateKind::Sub => {
            let v: u8 = end.saturating_sub(1);
            if (start as u16) + (MIN_RANGE_GAP as u16) < v as u16 { v } else { end }
        },
    }
}

/// The two counters of the note range group: the range's start and end.
pub fn note_range_group(settings: &Settings) -> (r: (u8, u8))
    ensures
        r == (settings.range_start, settings.range_end),
{
    (settings.range_start, settings.range_end)
}

/// Applies a settings message. Picking a sound font is left to the host,
/// which answers with `SoundFontFileLoaded`.
pub fn update(settings: &mut Settings, msg: SettingsMessage) -> (r: SettingsCommand)
    ensures
        r == (if msg is OpenSoundFontPicker {
            SettingsCommand::PickSoundFont
        } else {
            SettingsCommand::Nothing
        }),
        final(settings).range_start == match msg {
            SettingsMessage::RangeStart(kind) => moved_start(
                old(settings).range_start,
                old(settings).range_end,
                kind,
            ),
            _ => old(settings).range_start,
        },
        final(settings).range_end == match msg {
            SettingsMessage::RangeEnd(kind) => moved_end(
                old(settings).range_start,
                old(settings).range_end,
                kind,
            ),
            _ => old(settings).range_end,
        },
        final(settings).vertical_guidelines == match msg {
            SettingsMessage::VerticalGuidelines(v) => v,
            _ => old(settings).vertical_guidelines,
        },
        final(settings).horizontal_guidelines == match msg {
            SettingsMessage::HorizontalGuidelines(v) => v,
            _ => old(settings).horizontal_guidelines,
        },
        final(settings).is_loading == match msg {
            SettingsMessage::OpenSoundFontPicker => true,
            SettingsMessage::SoundFontFileLoaded(_) => false,
            _ => old(settings).is_loading,
        },
        final(settings).soundfont_path == match msg {
            SettingsMessage::SoundFontFileLoaded(Some(p)) => Some(p),
            _ => old(settings).soundfont_path,
        },
        final(settings).output == match msg {
            SettingsMessage::SelectOutput(OutputDescriptor::DummyOutput) => None,
            SettingsMessage::SelectOutput(o) => Some(o),
            _ => old(settings).output,
        },
        final(settings).selected_output == match msg {
            SettingsMessage::SelectOutput(o) => Some(o),
            _ => old(settings).selected_output,
        },
        final(settings).selected_input == match msg {
            SettingsMessage::SelectInput(i) => Some(i),
            _ => old(settings).selected_input,
        },
        final(settings).input == match msg {
            SettingsMessage::SelectInput(i) => Some(i),
            _ => old(settings).input,
        },
{
    match msg {
        SettingsMessage::SelectOutput(output) => {
            settings.output = match &output {
                OutputDescriptor::DummyOutput => None,
                OutputDescriptor::Synth => Some(OutputDescriptor::Synth),
                OutputDescriptor::MidiOut(name) => Some(OutputDescriptor::MidiOut(name.clone())),
            };
            settings.selected_output = Some(output);
        },
        SettingsMessage::SelectInput(input) => {
            settings.input = Some(input.clone());
            settings.selected_input = Some(input);
        },
        SettingsMessage::VerticalGuidelines(v) => {
            settings.vertical_guidelines = v;
        },
        SettingsMessage::HorizontalGuidelines(v) => {
            settings.horizontal_guidelines = v;
        },
        SettingsMessage::OpenSoundFontPicker => {
            settings.is_loading = true;
            return SettingsCommand::PickSoundFont;
        },
        SettingsMessage::SoundFontFileLoaded(font) => {
            if let Some(font) = font {
                settings.soundfont_path = Some(font);
            }
            settings.is_loading = false;
        },
        SettingsMessage::RangeStart(kind) => {
            settings.range_start = moved_start_of(settings.range_start, settings.range_end, kind);
        },
        SettingsMessage::RangeEnd(kind) => {
            settings.range_end = moved_end_of(settings.range_start, settings.range_end, kind);
        },
    }
    SettingsCommand::Nothing
}

} // verus!
