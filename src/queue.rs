//! The bounded FIFO of note events between the MIDI callback and the render
//! callback, kept in a `ringbuf` ring of event codes.

use vstd::prelude::*;
use ringbuf::Rb;
use crate::event::{NoteEvent, event_of_code, lemma_code_round_trip};

verus! {

/// A `ringbuf::HeapRb` of event codes. Verus cannot take the declaration of the
/// ring type itself, so the ring is held here, opaque, and described by
/// `ring_items` and `ring_capacity`.
#[verifier::external_body]
pub struct EventRing {
    rb: ringbuf::HeapRb<u32>,
}

/// The codes held by a ring, oldest first.
pub uninterp spec fn ring_items(r: EventRing) -> Seq<u32>;

/// The number of codes a ring was made to hold.
pub uninterp spec fn ring_capacity(r: EventRing) -> nat;

/// Relies on `HeapRb::new`: an empty ring of the given capacity (it panics on zero).
#[verifier::external_body]
fn ring_new(capacity: usize) -> (r: EventRing)
    requires
        capacity > 0,
    ensures
        ring_items(r) == Seq::<u32>::empty(),
        ring_capacity(r) == capacity,
{
    EventRing { rb: ringbuf::HeapRb::<u32>::new(capacity) }
}

/// Relies on `Rb::push`: appends at the tail unless the ring is full, in which
/// case the item is handed back and the ring is unchanged.
#[verifier::external_body]
fn ring_push(r: &mut EventRing, x: u32) -> (ok: bool)
    ensures
        ring_capacity(*final(r)) == ring_capacity(*old(r)),
        ok == (ring_items(*old(r)).len() < ring_capacity(*old(r))),
        ok ==> ring_items(*final(r)) == ring_items(*old(r)).push(x),
        !ok ==> ring_items(*final(r)) == ring_items(*old(r)),
{
    r.rb.push(x).is_ok()
}

/// Relies on `Rb::pop`: removes and returns the oldest item, `None` when empty.
#[verifier::external_body]
fn ring_pop(r: &mut EventRing) -> (x: Option<u32>)
    ensures
        ring_capacity(*final(r)) == ring_capacity(*old(r)),
        ring_items(*old(r)).len() == 0 ==> x.is_none() && ring_items(*final(r)) == ring_items(*old(r)),
        ring_items(*old(r)).len() > 0 ==> x == Some(ring_items(*old(r))[0])
            && ring_items(*final(r)) == ring_items(*old(r)).drop_first(),
{
    r.rb.pop()
}

/// Relies on `Rb::capacity`: the capacity the ring was made with.
#[verifier::external_body]
fn ring_capacity_of(r: &EventRing) -> (n: usize)
    ensures
        n == ring_capacity(*r),
{
    r.rb.capacity()
}

/// The writing end of a split event ring (`ringbuf::HeapProducer`), held opaque.
#[verifier::external_body]
pub struct SenderRing {
    p: ringbuf::HeapProducer<u32>,
}

/// The reading end of a split event ring (`ringbuf::HeapConsumer`), held opaque.
#[verifier::external_body]
pub struct ReceiverRing {
    c: ringbuf::HeapConsumer<u32>,
}

/// Relies on `SharedRb::split`: the ring becomes one writing and one reading
/// end that may live on two threads. What the ends hold from then on depends
/// on the timing of both threads, so nothing is stated of it.
#[verifier::external_body]
fn ring_split(r: EventRing) -> (ends: (SenderRing, ReceiverRing)) {
    let (p, c) = r.rb.split();
    (SenderRing { p }, ReceiverRing { c })
}

/// Relies on `Producer::push`: never blocks; `false` when the ring was full
/// and the code was dropped.
#[verifier::external_body]
fn send_code(s: &mut SenderRing, x: u32) -> (ok: bool) {
    s.p.push(x).is_ok()
}

/// Relies on `Consumer::pop`: never blocks; the oldest code, or `None` when
/// the ring holds none at the moment.
#[verifier::external_body]
fn receive_code(r: &mut ReceiverRing) -> (x: Option<u32>) {
    r.c.pop()
}

/// The queue after offering `e` to a queue holding `q` with room for `capacity` events.
pub open spec fn pushed(q: Seq<NoteEvent>, capacity: nat, e: NoteEvent) -> Seq<NoteEvent> {
    if q.len() < capacity { q.push(e) } else { q }
}

/// The queue after offering each event of `es` in turn.
pub open spec fn pushed_all(q: Seq<NoteEvent>, capacity: nat, es: Seq<NoteEvent>) -> Seq<NoteEvent>
    decreases es.len(),
{
    if es.len() == 0 {
        q
    } else {
        pushed(pushed_all(q, capacity, es.drop_last()), capacity, es.last())
    }
}

/// Offering events one by one to an empty queue keeps the first `capacity` of
/// them, in their order, and drops every later one: the newest are sacrificed,
/// never delayed or reordered.
pub proof fn lemma_overflow_drops_newest(capacity: nat, es: Seq<NoteEvent>)
    ensures
        pushed_all(Seq::empty(), capacity, es) == es.take(if es.len() < capacity { es.len() as int } else { capacity as int }),
    decreases es.len(),
{
    if es.len() > 0 {
        let prev = es.drop_last();
        lemma_overflow_drops_newest(capacity, prev);
        if es.len() <= capacity {
            assert(es.take(es.len() as int) =~= prev.take(prev.len() as int).push(es.last()));
        } else {
            assert(es.take(capacity as int) =~= prev.take(capacity as int));
        }
    } else {
        assert(es.take(0) =~= Seq::<NoteEvent>::empty());
    }
}

/// In particular, one event more than the capacity loses exactly the last one.
pub proof fn lemma_one_past_capacity(capacity: nat, es: Seq<NoteEvent>)
    requires
        es.len() == capacity + 1,
    ensures
        pushed_all(Seq::empty(), capacity, es) == es.take(capacity as int),
        pushed_all(Seq::empty(), capacity, es).len() == capacity,
{
    lemma_overflow_drops_newest(capacity, es);
}

/// A bounded first-in first-out queue of note events with a fixed capacity.
pub struct EventQueue {
    ring: EventRing,
}

impl EventQueue {
    /// The events in the queue, oldest first.
    pub closed spec fn view(&self) -> Seq<NoteEvent> {
        ring_items(self.ring).map_values(|c: u32| event_of_code(c).unwrap())
    }

    /// The number of events the queue holds at most.
    pub closed spec fn spec_capacity(&self) -> nat {
        ring_capacity(self.ring)
    }

    /// Every code in the ring stands for an event, and the ring is within its capacity.
    pub closed spec fn wf(&self) -> bool {
        &&& ring_items(self.ring).len() <= ring_capacity(self.ring)
        &&& forall|i: int| 0 <= i < ring_items(self.ring).len() ==> (#[trigger] event_of_code(ring_items(self.ring)[i])).is_some()
    }

    /// An empty queue that holds at most `capacity` events.
    pub fn new(capacity: usize) -> (q: EventQueue)
        requires
            capacity > 0,
        ensures
            q.wf(),
            q@ == Seq::<NoteEvent>::empty(),
            q.spec_capacity() == capacity,
    {
        let q = EventQueue { ring: ring_new(capacity) };
        assert(q@ =~= Seq::<NoteEvent>::empty());
        q
    }

    /// Appends an event; when the queue is full the event is dropped and `false` returned.
    pub fn push(&mut self, e: NoteEvent) -> (ok: bool)
        requires
            old(self).wf(),
        ensures
            final(self).wf(),
            final(self).spec_capacity() == old(self).spec_capacity(),
            ok == (old(self)@.len() < old(self).spec_capacity()),
            ok ==> final(self)@ == old(self)@.push(e),
            !ok ==> final(self)@ == old(self)@,
            final(self)@ == pushed(old(self)@, old(self).spec_capacity(), e),
    {
        proof { lemma_code_round_trip(e); }
        let ok = ring_push(&mut self.ring, e.to_code());
        proof {
            if ok {
                assert(self@ =~= old(self)@.push(e));
            }
        }
        ok
    }

    /// Removes and returns the oldest event, or `None` when the queue is empty.
    pub fn pop(&mut self) -> (r: Option<NoteEvent>)
        requires
            old(self).wf(),
        ensures
            final(self).wf(),
            final(self).spec_capacity() == old(self).spec_capacity(),
            old(self)@.len() == 0 ==> r.is_none() && final(self)@ == old(self)@,
            old(self)@.len() > 0 ==> r == Some(old(self)@[0]) && final(self)@ == old(self)@.drop_first(),
    {
        match ring_pop(&mut self.ring) {
            Some(c) => {
                proof {
                    assert(event_of_code(ring_items(old(self).ring)[0]).is_some());
                    assert(self@ =~= old(self)@.drop_first());
                }
                NoteEvent::from_code(c)
            },
            None => None,
        }
    }

    /// Splits the queue into its producer end, for the MIDI callback, and its
    /// consumer end, for the render callback. Each end has a single owner, so
    /// one queue serves exactly one producer and one consumer.
    pub fn split(self) -> (ends: (EventSender, EventReceiver))
        ensures
            ends.1.spec_capacity() == self.spec_capacity(),
    {
        let capacity = ring_capacity_of(&self.ring);
        let (s, r) = ring_split(self.ring);
        (EventSender { ring: s }, EventReceiver { ring: r, capacity })
    }

    /// The number of events the queue holds at most.
    pub fn capacity(&self) -> (n: usize)
        ensures
            n == self.spec_capacity(),
    {
        ring_capacity_of(&self.ring)
    }
}

/// The producer end of a split event queue.
pub struct EventSender {
    ring: SenderRing,
}

/// The consumer end of a split event queue.
pub struct EventReceiver {
    ring: ReceiverRing,
    capacity: usize,
}

impl EventSender {
    /// Offers an event to the queue without blocking; `false` when the queue
    /// was full and the event was dropped.
    pub fn send(&mut self, e: NoteEvent) -> (ok: bool) {
        send_code(&mut self.ring, e.to_code())
    }
}

impl EventReceiver {
    /// The capacity of the queue this end was split from.
    pub closed spec fn spec_capacity(&self) -> nat {
        self.capacity as nat
    }

    /// The capacity of the queue this end was split from: the most events
    /// that can be buffered at one moment.
    pub fn capacity(&self) -> (n: usize)
        ensures
            n == self.spec_capacity(),
    {
        self.capacity
    }

    /// Takes the oldest event without blocking, or `None` when none is buffered.
    pub fn receive(&mut self) -> (r: Option<NoteEvent>)
        ensures
            final(self).spec_capacity() == old(self).spec_capacity(),
    {
        match receive_code(&mut self.ring) {
            Some(c) => NoteEvent::from_code(c),
            None => None,
        }
    }
}

} // verus!
