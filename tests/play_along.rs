use neothesia::play_along::PlayAlong;
use neothesia::{KeyboardRange, MidiEventSource, MidiMessage};

fn on(key: u8) -> MidiMessage {
    MidiMessage::NoteOn { key, vel: 100 }
}

fn off(key: u8) -> MidiMessage {
    MidiMessage::NoteOff { key, vel: 0 }
}

fn full_keyboard() -> PlayAlong {
    PlayAlong::new(KeyboardRange::new(21, 108))
}

#[test]
fn early_press_satisfies_requirement_in_advance() {
    let mut pa = full_keyboard();
    // The performer presses 60 two hundred milliseconds before the song asks.
    pa.midi_event_at(MidiEventSource::User, &on(60), 1000);
    assert!(pa.is_pending(60));
    pa.update_at(1200);
    pa.midi_event_at(MidiEventSource::File, &on(60), 1200);
    assert!(!pa.is_required(60));
    assert!(!pa.is_pending(60));
    assert!(pa.are_required_keys_pressed());
}

#[test]
fn late_press_still_clears_requirement() {
    let mut pa = full_keyboard();
    pa.midi_event_at(MidiEventSource::File, &on(60), 0);
    assert!(!pa.are_required_keys_pressed());
    pa.update_at(500);
    assert!(!pa.are_required_keys_pressed());
    pa.update_at(600);
    assert!(pa.is_required(60));
    pa.midi_event_at(MidiEventSource::User, &on(60), 600);
    assert!(pa.are_required_keys_pressed());
    assert!(!pa.is_pending(60));
}

#[test]
fn press_at_the_edge_of_the_window_still_counts() {
    let mut pa = full_keyboard();
    pa.midi_event_at(MidiEventSource::User, &on(64), 1000);
    pa.update_at(1500);
    assert!(pa.is_pending(64));
    pa.midi_event_at(MidiEventSource::File, &on(64), 1500);
    assert!(!pa.is_required(64));
}

#[test]
fn press_older_than_the_window_does_not_count() {
    let mut pa = full_keyboard();
    pa.midi_event_at(MidiEventSource::User, &on(64), 1000);
    pa.update_at(1501);
    assert!(!pa.is_pending(64));
    pa.midi_event_at(MidiEventSource::File, &on(64), 1501);
    assert!(pa.is_required(64));
}

#[test]
fn unclaimed_press_expires_after_sweep() {
    let mut pa = full_keyboard();
    pa.midi_event_at(MidiEventSource::User, &on(72), 0);
    assert!(pa.is_pending(72));
    assert!(pa.are_required_keys_pressed());
    pa.update_at(501);
    assert!(!pa.is_pending(72));
}

#[test]
fn repeated_press_refreshes_timestamp() {
    let mut pa = full_keyboard();
    pa.midi_event_at(MidiEventSource::User, &on(72), 0);
    pa.midi_event_at(MidiEventSource::User, &on(72), 400);
    pa.update_at(800);
    assert!(pa.is_pending(72));
    pa.update_at(901);
    assert!(!pa.is_pending(72));
}

#[test]
fn file_release_removes_requirement_never_pressed() {
    let mut pa = full_keyboard();
    pa.midi_event_at(MidiEventSource::File, &off(70), 0);
    assert!(!pa.is_required(70));
    pa.midi_event_at(MidiEventSource::File, &on(70), 0);
    assert!(pa.is_required(70));
    pa.midi_event_at(MidiEventSource::File, &off(70), 10);
    assert!(!pa.is_required(70));
    assert!(pa.are_required_keys_pressed());
}

#[test]
fn performer_notes_outside_keyboard_are_ignored() {
    let mut pa = PlayAlong::new(KeyboardRange::new(40, 80));
    pa.midi_event_at(MidiEventSource::User, &on(30), 0);
    assert!(!pa.is_pending(30));
    pa.midi_event_at(MidiEventSource::User, &on(81), 0);
    assert!(!pa.is_pending(81));
    assert!(pa.are_required_keys_pressed());
    pa.midi_event_at(MidiEventSource::User, &on(80), 0);
    assert!(pa.is_pending(80));
    assert!(pa.keyboard_range().contains(40));
    assert!(!pa.keyboard_range().contains(39));
}

#[test]
fn user_release_changes_nothing() {
    let mut pa = full_keyboard();
    pa.midi_event_at(MidiEventSource::File, &on(60), 0);
    pa.midi_event_at(MidiEventSource::User, &off(60), 0);
    assert!(pa.is_required(60));
    assert!(!pa.is_pending(60));
}

#[test]
fn other_messages_are_ignored() {
    let mut pa = full_keyboard();
    pa.midi_event_at(MidiEventSource::File, &MidiMessage::ProgramChange { program: 60 }, 0);
    pa.midi_event_at(MidiEventSource::User, &MidiMessage::Controller { controller: 64, value: 127 }, 0);
    assert!(pa.are_required_keys_pressed());
    assert!(!pa.is_pending(60));
}

#[test]
fn clear_keeps_pending_presses() {
    let mut pa = full_keyboard();
    pa.midi_event_at(MidiEventSource::File, &on(60), 0);
    pa.midi_event_at(MidiEventSource::User, &on(62), 0);
    pa.clear();
    assert!(pa.are_required_keys_pressed());
    assert!(pa.is_pending(62));
    pa.midi_event_at(MidiEventSource::File, &on(62), 100);
    assert!(pa.are_required_keys_pressed());
}

#[test]
fn press_of_required_note_is_not_kept_pending() {
    let mut pa = full_keyboard();
    pa.midi_event_at(MidiEventSource::File, &on(60), 0);
    pa.midi_event_at(MidiEventSource::User, &on(60), 10);
    assert!(!pa.is_pending(60));
    // The same press cannot satisfy a second requirement.
    pa.midi_event_at(MidiEventSource::File, &on(60), 20);
    assert!(pa.is_required(60));
}

#[test]
fn clock_driven_calls_record_presses() {
    let mut pa = full_keyboard();
    pa.midi_event(MidiEventSource::User, &on(60));
    assert!(pa.is_pending(60));
    pa.update();
    assert!(pa.is_pending(60));
    pa.midi_event(MidiEventSource::File, &on(60));
    assert!(pa.are_required_keys_pressed());
}

#[test]
fn song_notes_outside_keyboard_are_still_required() {
    let mut pa = PlayAlong::new(KeyboardRange::new(40, 80));
    pa.midi_event_at(MidiEventSource::File, &on(30), 0);
    assert!(pa.is_required(30));
    assert!(!pa.are_required_keys_pressed());
    // The performer cannot play it; only the song's release clears it.
    pa.midi_event_at(MidiEventSource::User, &on(30), 10);
    assert!(pa.is_required(30));
    pa.midi_event_at(MidiEventSource::File, &off(30), 20);
    assert!(pa.are_required_keys_pressed());
}

#[test]
fn refreshed_press_moves_to_the_back() {
    let mut pa = full_keyboard();
    pa.midi_event_at(MidiEventSource::User, &on(61), 100);
    pa.midi_event_at(MidiEventSource::User, &on(62), 200);
    pa.midi_event_at(MidiEventSource::User, &on(61), 300);
    let order: Vec<(u8, u64)> = pa.pending_presses().iter().map(|p| (p.note_id, p.timestamp)).collect();
    assert_eq!(order, vec![(62, 200), (61, 300)]);
    pa.update_at(701);
    let order: Vec<(u8, u64)> = pa.pending_presses().iter().map(|p| (p.note_id, p.timestamp)).collect();
    assert_eq!(order, vec![(61, 300)]);
}
