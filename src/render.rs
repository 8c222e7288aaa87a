//! The event step of the render callback: every event buffered at the start
//! of a block is applied to the voice set, oldest first, before the block is
//! rendered.

use vstd::prelude::*;
use crate::event::NoteEvent;
use crate::queue::{EventQueue, EventReceiver};
use crate::voices::{VoiceSet, after_note_on, after_note_off, other_note};

verus! {

/// The notes of the voices, oldest first.
pub open spec fn notes_of<T>(vs: Seq<(u8, T)>) -> Seq<u8> {
    vs.map_values(|v: (u8, T)| v.0)
}

/// The notes of the voices after one event.
pub open spec fn notes_after_event(ns: Seq<u8>, max_poly: nat, e: NoteEvent) -> Seq<u8> {
    match e {
        NoteEvent::NoteOn { note, velocity } => if ns.len() < max_poly { ns.push(note) } else { ns.drop_first().push(note) },
        NoteEvent::NoteOff { note } => ns.filter(|x: u8| x != note),
    }
}

/// The notes of the voices after each event of `es` in turn.
pub open spec fn notes_after_events(ns: Seq<u8>, max_poly: nat, es: Seq<NoteEvent>) -> Seq<u8>
    decreases es.len(),
{
    if es.len() == 0 {
        ns
    } else {
        notes_after_events(notes_after_event(ns, max_poly, es[0]), max_poly, es.drop_first())
    }
}

/// Whether `vs1` is what one event makes of the voices `vs0`: a note on adds a
/// voice whose state is one that `voice_for` returns for its note and
/// velocity, stealing the oldest voice when full; a note off removes every
/// voice of its note.
pub open spec fn voice_step<T, F: Fn(u8, u8) -> T>(vs0: Seq<(u8, T)>, max_poly: nat, e: NoteEvent, vs1: Seq<(u8, T)>, voice_for: F) -> bool {
    match e {
        NoteEvent::NoteOn { note, velocity } => exists|st: T|
            #[trigger] voice_for.ensures((note, velocity), st) && vs1 == after_note_on(vs0, max_poly, (note, st)),
        NoteEvent::NoteOff { note } => vs1 == after_note_off(vs0, note),
    }
}

/// Whether `trace` lists the voices before each event of `es` and after the
/// last one, each entry being what its event makes of the one before.
pub open spec fn voice_trace<T, F: Fn(u8, u8) -> T>(trace: Seq<Seq<(u8, T)>>, max_poly: nat, es: Seq<NoteEvent>, voice_for: F) -> bool {
    &&& trace.len() == es.len() + 1
    &&& forall|k: int| 0 <= k < es.len() ==> #[trigger] voice_step(trace[k], max_poly, es[k], trace[k + 1], voice_for)
}

/// Whether `vs1` is what the events `es`, applied oldest first, make of the voices `vs0`.
pub open spec fn voice_steps<T, F: Fn(u8, u8) -> T>(vs0: Seq<(u8, T)>, max_poly: nat, es: Seq<NoteEvent>, vs1: Seq<(u8, T)>, voice_for: F) -> bool {
    exists|trace: Seq<Seq<(u8, T)>>| #[trigger] voice_trace(trace, max_poly, es, voice_for) && trace[0] == vs0 && trace.last() == vs1
}

/// One more event extends a trace by one entry.
pub proof fn lemma_voice_trace_push<T, F: Fn(u8, u8) -> T>(
    trace: Seq<Seq<(u8, T)>>,
    max_poly: nat,
    es: Seq<NoteEvent>,
    e: NoteEvent,
    vs1: Seq<(u8, T)>,
    voice_for: F,
)
    requires
        voice_trace(trace, max_poly, es, voice_for),
        voice_step(trace.last(), max_poly, e, vs1, voice_for),
    ensures
        voice_trace(trace.push(vs1), max_poly, es.push(e), voice_for),
        trace.push(vs1)[0] == trace[0],
        trace.push(vs1).last() == vs1,
{
    let t2 = trace.push(vs1);
    let es2 = es.push(e);
    assert forall|k: int| 0 <= k < es2.len() implies #[trigger] voice_step(t2[k], max_poly, es2[k], t2[k + 1], voice_for) by {
        if k < es.len() {
            assert(voice_step(trace[k], max_poly, es[k], trace[k + 1], voice_for));
        }
    }
}

/// The empty trace of no events.
pub proof fn lemma_voice_trace_empty<T, F: Fn(u8, u8) -> T>(vs0: Seq<(u8, T)>, max_poly: nat, voice_for: F)
    ensures
        voice_trace(seq![vs0], max_poly, Seq::<NoteEvent>::empty(), voice_for),
{
}

/// A note on acts on the notes as on the voices.
pub proof fn lemma_notes_after_note_on<T>(vs: Seq<(u8, T)>, max_poly: nat, v: (u8, T))
    requires
        0 < max_poly,
        vs.len() <= max_poly,
    ensures
        notes_of(after_note_on(vs, max_poly, v)) == notes_after_event(notes_of(vs), max_poly, NoteEvent::NoteOn { note: v.0, velocity: 0 }),
{
    if vs.len() < max_poly {
        assert(notes_of(vs.push(v)) =~= notes_of(vs).push(v.0));
    } else {
        assert(notes_of(vs.drop_first().push(v)) =~= notes_of(vs).drop_first().push(v.0));
    }
}

/// A note off acts on the notes as on the voices.
pub proof fn lemma_notes_after_note_off<T>(vs: Seq<(u8, T)>, note: u8)
    ensures
        notes_of(after_note_off(vs, note)) == notes_of(vs).filter(|x: u8| x != note),
    decreases vs.len(),
{
    reveal(Seq::filter);
    if vs.len() > 0 {
        lemma_notes_after_note_off(vs.drop_last(), note);
        assert(notes_of(vs).drop_last() =~= notes_of(vs.drop_last()));
        let keep = other_note::<T>(note);
        if keep(vs.last()) {
            assert(notes_of(vs.drop_last().filter(keep).push(vs.last())) =~= notes_of(vs.drop_last().filter(keep)).push(vs.last().0));
        }
    } else {
        assert(notes_of(vs) =~= Seq::<u8>::empty());
    }
}

/// Applies one event to the voice set; a note on gets the oscillator state
/// that `voice_for` makes of its note and velocity.
pub fn apply_event<T: Copy, F: Fn(u8, u8) -> T>(vs: &mut VoiceSet<T>, e: NoteEvent, voice_for: &F)
    requires
        old(vs).wf(),
        forall|n: u8, v: u8| voice_for.requires((n, v)),
    ensures
        final(vs).wf(),
        final(vs).spec_max_poly() == old(vs).spec_max_poly(),
        notes_of(final(vs)@) == notes_after_event(notes_of(old(vs)@), old(vs).spec_max_poly(), e),
        voice_step(old(vs)@, old(vs).spec_max_poly(), e, final(vs)@, *voice_for),
{
    match e {
        NoteEvent::NoteOn { note, velocity } => {
            let st = voice_for(note, velocity);
            vs.note_on(note, st);
            proof {
                lemma_notes_after_note_on(old(vs)@, old(vs).spec_max_poly(), (note, st));
                assert(voice_for.ensures((note, velocity), st));
            }
        },
        NoteEvent::NoteOff { note } => {
            vs.note_off(note);
            proof { lemma_notes_after_note_off(old(vs)@, note); }
        },
    }
}

/// Drains every event of the queue into the voice set, oldest first; the
/// queue is empty afterwards.
pub fn drain_events<T: Copy, F: Fn(u8, u8) -> T>(q: &mut EventQueue, vs: &mut VoiceSet<T>, voice_for: &F)
    requires
        old(q).wf(),
        old(vs).wf(),
        forall|n: u8, v: u8| voice_for.requires((n, v)),
    ensures
        final(q).wf(),
        final(q)@ == Seq::<NoteEvent>::empty(),
        final(q).spec_capacity() == old(q).spec_capacity(),
        final(vs).wf(),
        final(vs).spec_max_poly() == old(vs).spec_max_poly(),
        notes_of(final(vs)@) == notes_after_events(notes_of(old(vs)@), old(vs).spec_max_poly(), old(q)@),
        voice_steps(old(vs)@, old(vs).spec_max_poly(), old(q)@, final(vs)@, *voice_for),
{
    let ghost max_poly = vs.spec_max_poly();
    let ghost mut done: Seq<NoteEvent> = Seq::empty();
    let ghost mut trace: Seq<Seq<(u8, T)>> = seq![vs@];
    proof {
        assert(old(q)@ =~= done + q@);
        lemma_voice_trace_empty(vs@, max_poly, *voice_for);
    }
    loop
        invariant
            q.wf(),
            vs.wf(),
            q.spec_capacity() == old(q).spec_capacity(),
            vs.spec_max_poly() == max_poly,
            max_poly == old(vs).spec_max_poly(),
            forall|n: u8, v: u8| voice_for.requires((n, v)),
            notes_after_events(notes_of(vs@), max_poly, q@) == notes_after_events(notes_of(old(vs)@), max_poly, old(q)@),
            old(q)@ == done + q@,
            voice_trace(trace, max_poly, done, *voice_for),
            trace[0] == old(vs)@,
            trace.last() == vs@,
        ensures
            q.wf(),
            q@ == Seq::<NoteEvent>::empty(),
            q.spec_capacity() == old(q).spec_capacity(),
            vs.wf(),
            vs.spec_max_poly() == max_poly,
            notes_of(vs@) == notes_after_events(notes_of(old(vs)@), max_poly, old(q)@),
            voice_steps(old(vs)@, max_poly, old(q)@, vs@, *voice_for),
        decreases q@.len(),
    {
        let ghost before = q@;
        match q.pop() {
            Some(e) => {
                apply_event(vs, e, voice_for);
                proof {
                    lemma_voice_trace_push(trace, max_poly, done, e, vs@, *voice_for);
                    assert(done.push(e) + q@ =~= done + before);
                    done = done.push(e);
                    trace = trace.push(vs@);
                }
            },
            None => {
                proof {
                    assert(q@ =~= Seq::<NoteEvent>::empty());
                    assert(old(q)@ =~= done);
                    assert(voice_trace(trace, max_poly, old(q)@, *voice_for));
                }
                break;
            },
        }
    }
}

/// The event step of the render callback on the consumer end of a split
/// queue: takes events until none is buffered, but never more than the
/// queue's capacity, so the step stays bounded while the producer keeps
/// sending; what is left waits for the next block.
pub fn drain_received<T: Copy, F: Fn(u8, u8) -> T>(rx: &mut EventReceiver, vs: &mut VoiceSet<T>, voice_for: &F) -> (taken: usize)
    requires
        old(vs).wf(),
        forall|n: u8, v: u8| voice_for.requires((n, v)),
    ensures
        final(vs).wf(),
        final(vs).spec_max_poly() == old(vs).spec_max_poly(),
        final(rx).spec_capacity() == old(rx).spec_capacity(),
        taken <= old(rx).spec_capacity(),
        exists|es: Seq<NoteEvent>|
            es.len() == taken && #[trigger] voice_steps(old(vs)@, old(vs).spec_max_poly(), es, final(vs)@, *voice_for),
{
    let limit = rx.capacity();
    let mut taken: usize = 0;
    let ghost mut got: Seq<NoteEvent> = Seq::empty();
    let ghost mut trace: Seq<Seq<(u8, T)>> = seq![vs@];
    proof {
        lemma_voice_trace_empty(vs@, vs.spec_max_poly(), *voice_for);
    }
    while taken < limit
        invariant
            taken <= limit,
            limit == rx.spec_capacity(),
            rx.spec_capacity() == old(rx).spec_capacity(),
            vs.wf(),
            vs.spec_max_poly() == old(vs).spec_max_poly(),
            forall|n: u8, v: u8| voice_for.requires((n, v)),
            got.len() == taken,
            voice_trace(trace, old(vs).spec_max_poly(), got, *voice_for),
            trace[0] == old(vs)@,
            trace.last() == vs@,
        decreases limit - taken,
    {
        match rx.receive() {
            Some(e) => {
                apply_event(vs, e, voice_for);
                proof {
                    lemma_voice_trace_push(trace, old(vs).spec_max_poly(), got, e, vs@, *voice_for);
                    got = got.push(e);
                    trace = trace.push(vs@);
                }
                taken = taken + 1;
            },
            None => {
                break;
            },
        }
    }
    proof {
        assert(voice_trace(trace, old(vs).spec_max_poly(), got, *voice_for));
        assert(got.len() == taken && voice_steps(old(vs)@, old(vs).spec_max_poly(), got, vs@, *voice_for));
    }
    taken
}

} // verus!
