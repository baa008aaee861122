use neothesia::settings::{
    note_range_group, update, OutputDescriptor, RangeUpdateKind, Settings, SettingsCommand,
    SettingsMessage,
};

fn settings(start: u8, end: u8) -> Settings {
    Settings {
        range_start: start,
        range_end: end,
        vertical_guidelines: true,
        horizontal_guidelines: true,
        soundfont_path: None,
        output: None,
        input: None,
        selected_output: None,
        selected_input: None,
        is_loading: false,
    }
}

#[test]
fn range_start_moves_up_while_gap_stays() {
    let mut s = settings(21, 108);
    update(&mut s, SettingsMessage::RangeStart(RangeUpdateKind::Add));
    assert_eq!(note_range_group(&s), (22, 108));
    let mut s = settings(60, 85);
    update(&mut s, SettingsMessage::RangeStart(RangeUpdateKind::Add));
    assert_eq!(s.range_start, 60);
    let mut s = settings(60, 86);
    update(&mut s, SettingsMessage::RangeStart(RangeUpdateKind::Add));
    assert_eq!(s.range_start, 61);
}

#[test]
fn range_start_moves_down_to_zero() {
    let mut s = settings(1, 108);
    update(&mut s, SettingsMessage::RangeStart(RangeUpdateKind::Sub));
    assert_eq!(s.range_start, 0);
    update(&mut s, SettingsMessage::RangeStart(RangeUpdateKind::Sub));
    assert_eq!(s.range_start, 0);
}

#[test]
fn range_end_moves_up_to_highest_note() {
    let mut s = settings(21, 126);
    update(&mut s, SettingsMessage::RangeEnd(RangeUpdateKind::Add));
    assert_eq!(s.range_end, 127);
    update(&mut s, SettingsMessage::RangeEnd(RangeUpdateKind::Add));
    assert_eq!(s.range_end, 127);
}

#[test]
fn range_end_moves_down_while_gap_stays() {
    let mut s = settings(60, 85);
    update(&mut s, SettingsMessage::RangeEnd(RangeUpdateKind::Sub));
    assert_eq!(s.range_end, 85);
    let mut s = settings(60, 86);
    update(&mut s, SettingsMessage::RangeEnd(RangeUpdateKind::Sub));
    assert_eq!(s.range_end, 85);
}

#[test]
fn sound_font_picking_round_trip() {
    let mut s = settings(21, 108);
    assert_eq!(update(&mut s, SettingsMessage::OpenSoundFontPicker), SettingsCommand::PickSoundFont);
    assert!(s.is_loading);
    let c = update(&mut s, SettingsMessage::SoundFontFileLoaded(Some("font.sf2".to_string())));
    assert_eq!(c, SettingsCommand::Nothing);
    assert!(!s.is_loading);
    assert_eq!(s.soundfont_path.as_deref(), Some("font.sf2"));
    update(&mut s, SettingsMessage::SoundFontFileLoaded(None));
    assert_eq!(s.soundfont_path.as_deref(), Some("font.sf2"));
}

#[test]
fn output_input_and_guidelines_are_stored() {
    let mut s = settings(21, 108);
    update(&mut s, SettingsMessage::SelectOutput(OutputDescriptor::MidiOut("port".to_string())));
    assert!(matches!(&s.output, Some(OutputDescriptor::MidiOut(n)) if n == "port"));
    assert!(matches!(&s.selected_output, Some(OutputDescriptor::MidiOut(n)) if n == "port"));
    update(&mut s, SettingsMessage::SelectOutput(OutputDescriptor::DummyOutput));
    assert!(s.output.is_none());
    assert!(matches!(s.selected_output, Some(OutputDescriptor::DummyOutput)));
    update(&mut s, SettingsMessage::SelectOutput(OutputDescriptor::Synth));
    assert!(matches!(s.output, Some(OutputDescriptor::Synth)));
    update(&mut s, SettingsMessage::SelectInput("keys".to_string()));
    assert_eq!(s.input.as_deref(), Some("keys"));
    assert_eq!(s.selected_input.as_deref(), Some("keys"));
    update(&mut s, SettingsMessage::VerticalGuidelines(false));
    update(&mut s, SettingsMessage::HorizontalGuidelines(false));
    assert!(!s.vertical_guidelines && !s.horizontal_guidelines);
}
