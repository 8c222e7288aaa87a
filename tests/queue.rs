use cli_daw::event::NoteEvent;
use cli_daw::queue::EventQueue;

#[test]
fn overflow_drops_the_newest_event() {
    let cap: usize = 4;
    let mut q = EventQueue::new(cap);
    let mut accepted = Vec::new();
    for n in 0..(cap as u8 + 1) {
        accepted.push(q.push(NoteEvent::NoteOn { note: 60 + n, velocity: 100 }));
    }
    assert_eq!(accepted, vec![true, true, true, true, false]);
    let mut out = Vec::new();
    while let Some(e) = q.pop() {
        out.push(e);
    }
    let expected: Vec<NoteEvent> = (0..cap as u8).map(|n| NoteEvent::NoteOn { note: 60 + n, velocity: 100 }).collect();
    assert_eq!(out, expected);
}

#[test]
fn pop_on_empty_queue_is_none() {
    let mut q = EventQueue::new(2);
    assert_eq!(q.pop(), None);
}

#[test]
fn queue_is_fifo_across_kinds() {
    let mut q = EventQueue::new(8);
    assert!(q.push(NoteEvent::NoteOn { note: 0, velocity: 1 }));
    assert!(q.push(NoteEvent::NoteOff { note: 127 }));
    assert!(q.push(NoteEvent::NoteOn { note: 255, velocity: 255 }));
    assert_eq!(q.pop(), Some(NoteEvent::NoteOn { note: 0, velocity: 1 }));
    assert_eq!(q.pop(), Some(NoteEvent::NoteOff { note: 127 }));
    assert_eq!(q.pop(), Some(NoteEvent::NoteOn { note: 255, velocity: 255 }));
    assert_eq!(q.pop(), None);
}

#[test]
fn room_returns_after_a_pop() {
    let mut q = EventQueue::new(1);
    assert!(q.push(NoteEvent::NoteOff { note: 1 }));
    assert!(!q.push(NoteEvent::NoteOff { note: 2 }));
    assert_eq!(q.pop(), Some(NoteEvent::NoteOff { note: 1 }));
    assert!(q.push(NoteEvent::NoteOff { note: 3 }));
    assert_eq!(q.pop(), Some(NoteEvent::NoteOff { note: 3 }));
}

#[test]
fn split_ends_carry_events_in_order() {
    let q = EventQueue::new(2);
    let (mut tx, mut rx) = q.split();
    assert!(tx.send(NoteEvent::NoteOn { note: 69, velocity: 127 }));
    assert!(tx.send(NoteEvent::NoteOff { note: 69 }));
    assert!(!tx.send(NoteEvent::NoteOff { note: 70 }));
    assert_eq!(rx.receive(), Some(NoteEvent::NoteOn { note: 69, velocity: 127 }));
    assert_eq!(rx.receive(), Some(NoteEvent::NoteOff { note: 69 }));
    assert_eq!(rx.receive(), None);
}

#[test]
fn capacity_is_fixed_at_construction() {
    let mut q = EventQueue::new(5);
    assert_eq!(q.capacity(), 5);
    q.push(NoteEvent::NoteOff { note: 1 });
    assert_eq!(q.capacity(), 5);
}
