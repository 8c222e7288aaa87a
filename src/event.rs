//! Note events and the MIDI messages they are parsed from.

use vstd::prelude::*;

verus! {

/// A discrete note event, carried by copy from the MIDI callback to the render callback.
#[derive(Clone, Copy, Debug, PartialEq, Eq, Structural)]
pub enum NoteEvent {
    NoteOn { note: u8, velocity: u8 },
    NoteOff { note: u8 },
}

/// The byte at `i`, or zero where the message is shorter.
pub open spec fn byte_or_zero(msg: Seq<u8>, i: int) -> u8 {
    if 0 <= i < msg.len() { msg[i] } else { 0 }
}

/// What a raw MIDI message means to the synthesizer: status nibble 9 is Note On
/// (velocity 0 meaning Note Off), status nibble 8 is Note Off, the rest is ignored.
pub open spec fn parse_spec(msg: Seq<u8>) -> Option<NoteEvent> {
    if msg.len() == 0 {
        None
    } else if msg[0] / 16 == 9 {
        if byte_or_zero(msg, 2) == 0 {
            Some(NoteEvent::NoteOff { note: byte_or_zero(msg, 1) })
        } else {
            Some(NoteEvent::NoteOn { note: byte_or_zero(msg, 1), velocity: byte_or_zero(msg, 2) })
        }
    } else if msg[0] / 16 == 8 {
        Some(NoteEvent::NoteOff { note: byte_or_zero(msg, 1) })
    } else {
        None
    }
}

/// The integer that stands for an event inside the event ring.
pub open spec fn code_of(e: NoteEvent) -> u32 {
    match e {
        NoteEvent::NoteOn { note, velocity } => (65536 + note as int * 256 + velocity as int) as u32,
        NoteEvent::NoteOff { note } => note as u32,
    }
}

/// The event an integer of the event ring stands for, if any.
pub open spec fn event_of_code(c: u32) -> Option<NoteEvent> {
    if c < 256 {
        Some(NoteEvent::NoteOff { note: c as u8 })
    } else if 65536 <= c < 131072 {
        Some(NoteEvent::NoteOn { note: ((c - 65536) / 256) as u8, velocity: (c % 256) as u8 })
    } else {
        None
    }
}

fn byte_at(msg: &[u8], i: usize) -> (r: u8)
    ensures
        r == byte_or_zero(msg@, i as int),
{
    if i < msg.len() {
        msg[i]
    } else {
        0
    }
}

/// Parses a raw MIDI message into a note event; other messages give `None`.
pub fn parse_midi(msg: &[u8]) -> (r: Option<NoteEvent>)
    ensures
        r == parse_spec(msg@),
{
    if msg.len() == 0 {
        return None;
    }
    let status = msg[0] / 16;
    let note = byte_at(msg, 1);
    if status == 9 {
        let velocity = byte_at(msg, 2);
        if velocity == 0 {
            Some(NoteEvent::NoteOff { note })
        } else {
            Some(NoteEvent::NoteOn { note, velocity })
        }
    } else if status == 8 {
        Some(NoteEvent::NoteOff { note })
    } else {
        None
    }
}

impl NoteEvent {
    /// The integer that stands for this event in the event ring.
    pub fn to_code(&self) -> (r: u32)
        ensures
            r == code_of(*self),
    {
        match *self {
            NoteEvent::NoteOn { note, velocity } => 65536 + note as u32 * 256 + velocity as u32,
            NoteEvent::NoteOff { note } => note as u32,
        }
    }

    /// The event that an integer of the event ring stands for; `None` for an
    /// integer that no event is coded as.
    pub fn from_code(c: u32) -> (r: Option<NoteEvent>)
        ensures
            r == event_of_code(c),
    {
        if c < 256 {
            Some(NoteEvent::NoteOff { note: c as u8 })
        } else if 65536 <= c && c < 131072 {
            Some(NoteEvent::NoteOn { note: ((c - 65536) / 256) as u8, velocity: (c % 256) as u8 })
        } else {
            None
        }
    }
}

/// Decoding the code of an event gives the event back.
pub proof fn lemma_code_round_trip(e: NoteEvent)
    ensures
        event_of_code(code_of(e)) == Some(e),
{
    match e {
        NoteEvent::NoteOn { note, velocity } => {
            let c = 65536 + note as int * 256 + velocity as int;
            assert((c - 65536) / 256 == note as int) by (nonlinear_arith)
                requires c == 65536 + note as int * 256 + velocity as int, 0 <= velocity < 256;
            assert(c % 256 == velocity as int) by (nonlinear_arith)
                requires c == 65536 + note as int * 256 + velocity as int, 0 <= velocity < 256;
        },
        NoteEvent::NoteOff { note } => {},
    }
}

} // verus!
