use cli_daw::event::NoteEvent;
use cli_daw::queue::EventQueue;
use cli_daw::render::{apply_event, drain_events, drain_received};
use cli_daw::voices::VoiceSet;

fn notes(vs: &VoiceSet<(u8, u8)>) -> Vec<u8> {
    (0..vs.len()).map(|i| vs.note_at(i)).collect()
}

#[test]
fn drain_applies_events_in_order() {
    let mut q = EventQueue::new(16);
    let mut vs: VoiceSet<(u8, u8)> = VoiceSet::new(2);
    for e in [
        NoteEvent::NoteOn { note: 60, velocity: 10 },
        NoteEvent::NoteOn { note: 64, velocity: 20 },
        NoteEvent::NoteOn { note: 67, velocity: 30 },
        NoteEvent::NoteOff { note: 64 },
        NoteEvent::NoteOn { note: 72, velocity: 40 },
    ] {
        assert!(q.push(e));
    }
    drain_events(&mut q, &mut vs, &|n, v| (n, v));
    assert_eq!(q.pop(), None);
    assert_eq!(notes(&vs), vec![67, 72]);
    assert_eq!(vs.state_at(0), (67, 30));
    assert_eq!(vs.state_at(1), (72, 40));
}

#[test]
fn apply_note_on_builds_state_from_note_and_velocity() {
    let mut vs: VoiceSet<u32> = VoiceSet::new(4);
    apply_event(&mut vs, NoteEvent::NoteOn { note: 69, velocity: 127 }, &|n, v| n as u32 * 1000 + v as u32);
    assert_eq!(vs.note_at(0), 69);
    assert_eq!(vs.state_at(0), 69127);
    apply_event(&mut vs, NoteEvent::NoteOff { note: 69 }, &|n, v| n as u32 * 1000 + v as u32);
    assert_eq!(vs.len(), 0);
}

#[test]
fn drain_received_is_bounded_by_capacity() {
    let (mut tx, mut rx) = EventQueue::new(3).split();
    assert_eq!(rx.capacity(), 3);
    for n in 0..3u8 {
        assert!(tx.send(NoteEvent::NoteOn { note: n, velocity: 1 }));
    }
    let mut vs: VoiceSet<u8> = VoiceSet::new(8);
    let taken = drain_received(&mut rx, &mut vs, &|_, v| v);
    assert_eq!(taken, 3);
    assert_eq!(vs.len(), 3);
    assert_eq!(drain_received(&mut rx, &mut vs, &|_, v| v), 0);
}

#[test]
fn drain_received_keeps_each_voice_state() {
    let (mut tx, mut rx) = EventQueue::new(4).split();
    assert!(tx.send(NoteEvent::NoteOn { note: 60, velocity: 90 }));
    assert!(tx.send(NoteEvent::NoteOn { note: 62, velocity: 80 }));
    let mut vs: VoiceSet<(u8, u8)> = VoiceSet::new(4);
    assert_eq!(drain_received(&mut rx, &mut vs, &|n, v| (n, v)), 2);
    assert_eq!(vs.state_at(0), (60, 90));
    assert_eq!(vs.state_at(1), (62, 80));
}
