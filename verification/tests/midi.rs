use rust_music::midi::{MidiMessage, MidiMessageKind, NOTE_STATUS};
use std::sync::mpsc::channel;

#[test]
fn note_status_is_152() {
    assert_eq!(NOTE_STATUS, 152);
}

#[test]
fn zero_velocity_is_a_key_press() {
    let event = MidiMessage::from_bytes(&[152, 60, 0]).unwrap();
    assert!(event.kind == MidiMessageKind::KeyPress);
    assert_eq!(event.key, 60);
    assert_eq!(event.velocity, 0);
    assert!(event.is_key_press());
}

#[test]
fn nonzero_velocity_is_a_key_release() {
    let event = MidiMessage::from_bytes(&[152, 72, 100]).unwrap();
    assert!(event.kind == MidiMessageKind::KeyRelease);
    assert_eq!(event.key, 72);
    assert_eq!(event.velocity, 100);
    assert!(!event.is_key_press());
}

#[test]
fn velocity_one_is_already_a_release() {
    let event = MidiMessage::from_bytes(&[152, 0, 1]).unwrap();
    assert!(event.kind == MidiMessageKind::KeyRelease);
}

#[test]
fn bytes_after_the_third_are_ignored() {
    let event = MidiMessage::from_bytes(&[152, 1, 2, 3, 4]).unwrap();
    assert_eq!(event.key, 1);
    assert_eq!(event.velocity, 2);
}

#[test]
fn other_status_bytes_carry_no_event() {
    assert!(MidiMessage::from_bytes(&[144, 60, 0]).is_none());
    assert!(MidiMessage::from_bytes(&[136, 60, 0]).is_none());
    assert!(MidiMessage::from_bytes(&[151, 60, 0]).is_none());
    assert!(MidiMessage::from_bytes(&[153, 60, 0]).is_none());
}

#[test]
fn short_message_with_other_status_carries_no_event() {
    assert!(MidiMessage::from_bytes(&[248]).is_none());
    assert!(MidiMessage::from_bytes(&[0, 1]).is_none());
}

#[test]
fn can_decode_tells_which_messages_are_complete() {
    assert!(!MidiMessage::can_decode(&[]));
    assert!(!MidiMessage::can_decode(&[152]));
    assert!(!MidiMessage::can_decode(&[152, 60]));
    assert!(MidiMessage::can_decode(&[152, 60, 0]));
    assert!(MidiMessage::can_decode(&[152, 60, 0, 9]));
    assert!(MidiMessage::can_decode(&[248]));
    assert!(MidiMessage::can_decode(&[144, 60]));
}

#[test]
fn message_types_are_copied_freely() {
    let event = MidiMessage { kind: MidiMessageKind::KeyPress, key: 5, velocity: 6 };
    let copy = event;
    assert_eq!(event.key, copy.key);
    assert_eq!(event.velocity, copy.velocity);
    assert!(event.kind == copy.kind);
    assert!(MidiMessageKind::KeyPress != MidiMessageKind::KeyRelease);
}

#[test]
fn forward_pushes_note_events_into_the_inbox() {
    let (sender, receiver) = channel::<MidiMessage>();
    let (event, sent) = MidiMessage::forward(&sender, &[152, 60, 0]).unwrap();
    assert!(sent);
    assert_eq!(event.key, 60);
    assert!(event.kind == MidiMessageKind::KeyPress);
    let (event, sent) = MidiMessage::forward(&sender, &[152, 61, 90]).unwrap();
    assert!(sent);
    assert_eq!(event.key, 61);
    let first = receiver.try_recv().unwrap();
    assert_eq!(first.key, 60);
    assert_eq!(first.velocity, 0);
    assert!(first.kind == MidiMessageKind::KeyPress);
    let second = receiver.try_recv().unwrap();
    assert_eq!(second.key, 61);
    assert_eq!(second.velocity, 90);
    assert!(second.kind == MidiMessageKind::KeyRelease);
    assert!(receiver.try_recv().is_err());
}

#[test]
fn forward_pushes_nothing_for_other_messages() {
    let (sender, receiver) = channel::<MidiMessage>();
    assert!(MidiMessage::forward(&sender, &[144, 60, 0]).is_none());
    assert!(MidiMessage::forward(&sender, &[248]).is_none());
    assert!(receiver.try_recv().is_err());
}

#[test]
fn forward_reports_an_inbox_that_is_gone() {
    let (sender, receiver) = channel::<MidiMessage>();
    drop(receiver);
    let (event, sent) = MidiMessage::forward(&sender, &[152, 60, 0]).unwrap();
    assert!(!sent);
    assert_eq!(event.key, 60);
}
