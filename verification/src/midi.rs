//! MIDI note events and their wire form.

use std::sync::mpsc::Sender;
use vstd::prelude::*;
use crate::inbox::push;

verus! {

/// Status byte of the messages that carry a note event.
pub const NOTE_STATUS: u8 = 152;

/// What happened to a key.
#[derive(Clone, Copy, Debug, PartialEq, Eq, Structural)]
pub enum MidiMessageKind {
    KeyPress,
    KeyRelease,
}

/// One note event.
#[derive(Clone, Copy, Debug)]
pub struct MidiMessage {
    pub kind: MidiMessageKind,
    pub key: u8,
    pub velocity: u8,
}

impl MidiMessage {
    /// A raw message can be decoded when its status byte is present and, for
    /// a note message, the key and velocity bytes follow it.
    pub open spec fn decodable(message: Seq<u8>) -> bool {
        message.len() >= 1 && (message[0] == NOTE_STATUS ==> message.len() >= 3)
    }

    /// The note event that a raw message carries, if it carries one. Only
    /// messages with the note status do; the second byte is the key, the
    /// third the velocity, and a velocity of zero marks a key press.
    pub open spec fn decoded(message: Seq<u8>) -> Option<MidiMessage> {
        if message[0] == NOTE_STATUS {
            Some(
                MidiMessage {
                    kind: if message[2] == 0 {
                        MidiMessageKind::KeyPress
                    } else {
                        MidiMessageKind::KeyRelease
                    },
                    key: message[1],
                    velocity: message[2],
                },
            )
        } else {
            None
        }
    }

    /// Decodes a raw MIDI message.
    pub fn from_bytes(message: &[u8]) -> (event: Option<MidiMessage>)
        requires
            Self::decodable(message@),
        ensures
            event == Self::decoded(message@),
    {
        if message[0] == NOTE_STATUS {
            let velocity: u8 = message[2];
            let kind = if velocity == 0 {
                MidiMessageKind::KeyPress
            } else {
                MidiMessageKind::KeyRelease
            };
            Some(MidiMessage { kind, key: message[1], velocity })
        } else {
            None
        }
    }

    /// Handles one raw message of the MIDI input: if it carries a note event,
    /// the event is pushed into `inbox`, without waiting. Returns the event
    /// together with whether the inbox took it, which it does unless its
    /// receiving end is gone.
    pub fn forward(inbox: &Sender<MidiMessage>, message: &[u8]) -> (pushed: Option<
        (MidiMessage, bool),
    >)
        requires
            Self::decodable(message@),
        ensures
            pushed is None <==> Self::decoded(message@) is None,
            pushed matches Some((event, _)) ==> Self::decoded(message@) == Some(event),
    {
        match Self::from_bytes(message) {
            Some(event) => {
                let sent = push(inbox, event);
                Some((event, sent))
            },
            None => None,
        }
    }

    /// Whether a raw message can be handed to [`MidiMessage::from_bytes`].
    pub fn can_decode(message: &[u8]) -> (ok: bool)
        ensures
            ok == Self::decodable(message@),
    {
        message.len() >= 1 && (message[0] != NOTE_STATUS || message.len() >= 3)
    }

    /// Whether this event is a key press.
    pub fn is_key_press(&self) -> (pressed: bool)
        ensures
            pressed == (self.kind == MidiMessageKind::KeyPress),
    {
        self.kind == MidiMessageKind::KeyPress
    }
}

} // verus!
