use neothesia::midi_player::{MidiPlayer, OutputCommand, PlayerConfig, Song, LEAD_IN_US};
use neothesia::playback::PlaybackState;
use neothesia::{KeyboardRange, MidiEvent, MidiMessage};

fn ev(track_id: usize, channel: u8, timestamp: u64, message: MidiMessage) -> MidiEvent {
    MidiEvent { track_id, channel, timestamp, message }
}

fn program(channel: u8, program: u8) -> OutputCommand {
    OutputCommand::Midi { channel, message: MidiMessage::ProgramChange { program } }
}

fn programs(out: &[OutputCommand]) -> Vec<u8> {
    out.iter()
        .map(|c| match c {
            OutputCommand::Midi { message: MidiMessage::ProgramChange { program }, .. } => *program,
            _ => panic!("not a program change: {:?}", c),
        })
        .collect()
}

fn song() -> Song {
    Song {
        events: vec![
            ev(0, 0, 0, MidiMessage::ProgramChange { program: 5 }),
            ev(1, 1, 0, MidiMessage::NoteOn { key: 60, vel: 90 }),
            ev(0, 0, 1_000_000, MidiMessage::ProgramChange { program: 7 }),
            ev(2, 2, 1_000_000, MidiMessage::NoteOn { key: 62, vel: 90 }),
            ev(0, 0, 1_500_000, MidiMessage::NoteOn { key: 64, vel: 90 }),
            ev(0, 1, 2_000_000, MidiMessage::ProgramChange { program: 9 }),
        ],
        tracks: vec![PlayerConfig::Auto, PlayerConfig::Human, PlayerConfig::Mute],
    }
}

fn player() -> MidiPlayer {
    MidiPlayer::new(song(), KeyboardRange::new(21, 108))
}

#[test]
fn new_player_resets_every_channel_program() {
    let mut p = player();
    let out = p.take_output();
    assert_eq!(out.len(), 16);
    for (c, cmd) in out.iter().enumerate() {
        assert_eq!(*cmd, program(c as u8, 0));
    }
    assert_eq!(p.time(), 0);
    assert!(!p.is_paused());
    assert_eq!(p.leed_in(), LEAD_IN_US);
    assert_eq!(p.length(), LEAD_IN_US + 2_000_000);
    assert!(p.take_output().is_empty());
    assert_eq!(p.song().tracks.len(), 3);
}

#[test]
fn update_routes_events_by_track_player() {
    let mut p = player();
    p.take_output();
    assert!(p.update_at(LEAD_IN_US - 1, 0).is_empty());
    let evs = p.update_at(1, 0);
    assert_eq!(evs.len(), 2);
    let out = p.take_output();
    assert_eq!(
        out,
        vec![
            program(0, 5),
            OutputCommand::Midi { channel: 1, message: MidiMessage::NoteOn { key: 60, vel: 90 } },
        ]
    );
    // Track 1 is the performer's: its note is now required.
    assert!(p.play_along().is_required(60));
    assert!(!p.play_along().are_required_keys_pressed());

    // The muted track's note falls due without a sound.
    let evs = p.update_at(1_000_000, 0);
    assert_eq!(evs.len(), 2);
    assert_eq!(p.take_output(), vec![program(0, 7)]);
    assert!(!p.play_along().is_required(62));
}

#[test]
fn performer_press_clears_requirement_from_song() {
    let mut p = player();
    p.update_at(LEAD_IN_US, 0);
    assert!(!p.play_along().are_required_keys_pressed());
    p.play_along_mut()
        .midi_event_at(neothesia::MidiEventSource::User, &MidiMessage::NoteOn { key: 60, vel: 1 }, 600);
    assert!(p.play_along().are_required_keys_pressed());
}

#[test]
fn pause_silences_and_stops_time() {
    let mut p = player();
    p.update_at(LEAD_IN_US, 0);
    p.take_output();
    p.pause();
    assert!(p.is_paused());
    assert_eq!(p.take_output(), vec![OutputCommand::StopAll]);
    for _ in 0..10 {
        assert!(p.update_at(1_000_000, 0).is_empty());
    }
    assert!(p.take_output().is_empty());
    assert_eq!(p.time(), LEAD_IN_US);
    assert!(!p.play_along().are_required_keys_pressed());
    p.resume();
    assert!(!p.is_paused());
    assert!(p.play_along().are_required_keys_pressed());
    assert!(p.take_output().is_empty());
}

#[test]
fn pause_resume_toggles() {
    let mut p = player();
    p.pause_resume();
    assert!(p.is_paused());
    p.pause_resume();
    assert!(!p.is_paused());
}

#[test]
fn set_time_replays_programs_without_sounding_skipped_events() {
    let mut p = player();
    p.take_output();
    p.set_time(LEAD_IN_US + 1_500_000);
    assert_eq!(p.time(), LEAD_IN_US + 1_500_000);
    let out = p.take_output();
    assert_eq!(out.len(), 17);
    assert_eq!(out[0], OutputCommand::StopAll);
    let mut expected = vec![0u8; 16];
    expected[0] = 7;
    assert_eq!(programs(&out[1..]), expected);
    for (c, cmd) in out[1..].iter().enumerate() {
        assert_eq!(*cmd, program(c as u8, expected[c]));
    }
    assert!(p.update_at(0, 0).is_empty());
    assert!(p.take_output().is_empty());
    assert!(p.play_along().are_required_keys_pressed());
    let evs = p.update_at(500_000, 0);
    assert_eq!(evs.len(), 1);
}

#[test]
fn set_time_back_restores_earlier_programs() {
    let mut p = player();
    p.set_time(LEAD_IN_US + 2_000_000);
    p.take_output();
    p.set_time(LEAD_IN_US);
    let out = p.take_output();
    let mut expected = vec![0u8; 16];
    expected[0] = 5;
    assert_eq!(programs(&out[1..]), expected);
    p.set_time(LEAD_IN_US + 2_000_000);
    let out = p.take_output();
    expected[0] = 7;
    expected[1] = 9;
    assert_eq!(programs(&out[1..]), expected);
}

#[test]
fn set_time_keeps_paused_flag() {
    let mut p = player();
    p.pause();
    p.set_time(1234);
    assert!(p.is_paused());
    assert_eq!(p.time(), 1234);
}

#[test]
fn rewind_saturates_at_zero() {
    let mut p = player();
    p.rewind(500);
    assert_eq!(p.time(), 500_000);
    p.rewind(-200);
    assert_eq!(p.time(), 300_000);
    p.rewind(-10_000);
    assert_eq!(p.time(), 0);
    p.rewind(-10_000);
    assert_eq!(p.time(), 0);
    p.rewind(i64::MIN);
    assert_eq!(p.time(), 0);
    p.rewind(i64::MAX);
    assert_eq!(p.time(), u64::MAX);
    let out = p.take_output();
    assert_eq!(out.len(), 16 + 6 * 17);
}

#[test]
fn playback_state_hands_out_events_once() {
    let mut s = PlaybackState::new(10, vec![ev(0, 0, 0, MidiMessage::NoteOn { key: 1, vel: 1 }), ev(0, 0, 5, MidiMessage::NoteOff { key: 1, vel: 0 })]);
    assert!(s.update(9).is_empty());
    assert_eq!(s.update(1).len(), 1);
    assert!(s.update(0).is_empty());
    assert_eq!(s.update(100).len(), 1);
    assert_eq!(s.time(), 110);
    assert_eq!(s.length(), 15);
    s.set_time(12);
    assert!(s.update(0).is_empty());
    assert_eq!(s.update(3).len(), 1);
    s.pause();
    assert!(s.is_paused());
    assert!(s.update(1000).is_empty());
    assert_eq!(s.time(), 15);
    s.resume();
    assert!(!s.is_paused());
    assert_eq!(s.update(u64::MAX).len(), 0);
    assert_eq!(s.time(), u64::MAX);
    assert_eq!(s.events().len(), 2);
    assert_eq!(s.leed_in(), 10);
}

#[test]
fn clock_driven_update_advances_time() {
    let mut p = player();
    let evs = p.update(LEAD_IN_US);
    assert_eq!(evs.len(), 2);
    assert_eq!(p.time(), LEAD_IN_US);
}

#[test]
fn finish_silences_output() {
    let mut p = player();
    p.take_output();
    p.finish();
    assert_eq!(p.take_output(), vec![OutputCommand::StopAll]);
}
