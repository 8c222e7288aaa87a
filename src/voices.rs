//! The bounded, ordered set of sounding voices, oldest first, with
//! oldest-voice stealing on note on and removal of every matching voice on
//! note off. Each voice carries the note it sounds and an oscillator state
//! that the renderer owns.

use vstd::prelude::*;

verus! {

/// Whether a voice does not sound `note`.
pub open spec fn other_note<T>(note: u8) -> spec_fn((u8, T)) -> bool {
    |v: (u8, T)| v.0 != note
}

/// The voices after a note on: the oldest voice is stolen when the set is full.
pub open spec fn after_note_on<T>(vs: Seq<(u8, T)>, max_poly: nat, v: (u8, T)) -> Seq<(u8, T)> {
    if vs.len() < max_poly { vs.push(v) } else { vs.drop_first().push(v) }
}

/// The voices after a note off: every voice of that note goes, the rest keep their order.
pub open spec fn after_note_off<T>(vs: Seq<(u8, T)>, note: u8) -> Seq<(u8, T)> {
    vs.filter(other_note::<T>(note))
}

/// Up to `max_poly` voices, each a note number and an oscillator state.
pub struct VoiceSet<T> {
    voices: Vec<(u8, T)>,
    max_poly: usize,
}

impl<T: Copy> VoiceSet<T> {
    /// The voices, oldest first.
    pub closed spec fn view(&self) -> Seq<(u8, T)> {
        self.voices@
    }

    pub closed spec fn spec_max_poly(&self) -> nat {
        self.max_poly as nat
    }

    /// The set never holds more voices than its polyphony, which is positive.
    pub open spec fn wf(&self) -> bool {
        &&& 0 < self.spec_max_poly()
        &&& self@.len() <= self.spec_max_poly()
    }

    /// An empty set with room for `max_poly` voices.
    pub fn new(max_poly: usize) -> (r: VoiceSet<T>)
        requires
            max_poly > 0,
        ensures
            r.wf(),
            r@ == Seq::<(u8, T)>::empty(),
            r.spec_max_poly() == max_poly,
    {
        VoiceSet { voices: Vec::new(), max_poly }
    }

    /// Starts a voice for `note` with oscillator state `state`, stealing the
    /// oldest voice first when the set is full.
    pub fn note_on(&mut self, note: u8, state: T)
        requires
            old(self).wf(),
        ensures
            final(self).wf(),
            final(self).spec_max_poly() == old(self).spec_max_poly(),
            final(self)@ == after_note_on(old(self)@, old(self).spec_max_poly(), (note, state)),
    {
        if self.voices.len() >= self.max_poly {
            self.voices.remove(0);
        }
        self.voices.push((note, state));
        proof {
            if old(self)@.len() >= old(self).spec_max_poly() {
                assert(old(self)@.remove(0) =~= old(self)@.drop_first());
            }
        }
    }

    /// Stops every voice that sounds `note`.
    pub fn note_off(&mut self, note: u8)
        requires
            old(self).wf(),
        ensures
            final(self).wf(),
            final(self).spec_max_poly() == old(self).spec_max_poly(),
            final(self)@ == after_note_off(old(self)@, note),
    {
        let ghost start = self.voices@;
        let ghost keep = other_note::<T>(note);
        let len = self.voices.len();
        let mut w: usize = 0;
        let mut i: usize = 0;
        while i < len
            invariant
                w <= i <= len,
                self.voices.len() == len,
                len == start.len(),
                self.max_poly == old(self).max_poly,
                keep == other_note::<T>(note),
                self.voices@.subrange(0, w as int) == start.subrange(0, i as int).filter(keep),
                self.voices@.subrange(i as int, len as int) == start.subrange(i as int, len as int),
            decreases len - i,
        {
            let ghost before = self.voices@;
            let v = self.voices[i];
            proof {
                assert(before.subrange(i as int, len as int)[0] == before[i as int]);
                assert(start.subrange(i as int, len as int)[0] == start[i as int]);
                assert(v == start[i as int]);
                reveal(Seq::filter);
                assert(start.subrange(0, i as int + 1).drop_last() =~= start.subrange(0, i as int));
                assert(start.subrange(0, i as int + 1).last() == v);
            }
            if v.0 != note {
                self.voices[w] = v;
                w = w + 1;
                proof {
                    assert(self.voices@.subrange(0, w as int) =~= start.subrange(0, i as int + 1).filter(keep));
                }
            }
            i = i + 1;
            proof {
                assert forall|j: int| i <= j < len implies self.voices@[j] == start[j] by {
                    assert(before.subrange(i - 1, len as int)[j - (i - 1)] == before[j]);
                    assert(start.subrange(i - 1, len as int)[j - (i - 1)] == start[j]);
                }
                assert(self.voices@.subrange(i as int, len as int) =~= start.subrange(i as int, len as int));
            }
        }
        self.voices.truncate(w);
        proof {
            assert(start.subrange(0, len as int) =~= start);
            assert(self.voices@ =~= self.voices@.subrange(0, w as int));
            start.filter(keep).lemma_filter_len(keep);
        }
    }

    /// The number of sounding voices.
    pub fn len(&self) -> (r: usize)
        ensures
            r == self@.len(),
    {
        self.voices.len()
    }

    /// The most voices the set holds at once.
    pub fn max_poly(&self) -> (r: usize)
        ensures
            r == self.spec_max_poly(),
    {
        self.max_poly
    }

    /// The note of the `i`-th oldest voice.
    pub fn note_at(&self, i: usize) -> (r: u8)
        requires
            i < self@.len(),
        ensures
            r == self@[i as int].0,
    {
        self.voices[i].0
    }

    /// The oscillator state of the `i`-th oldest voice.
    pub fn state_at(&self, i: usize) -> (r: T)
        requires
            i < self@.len(),
        ensures
            r == self@[i as int].1,
    {
        self.voices[i].1
    }

    /// Replaces the oscillator state of the `i`-th oldest voice.
    pub fn set_state(&mut self, i: usize, state: T)
        requires
            old(self).wf(),
            i < old(self)@.len(),
        ensures
            final(self).wf(),
            final(self).spec_max_poly() == old(self).spec_max_poly(),
            final(self)@ == old(self)@.update(i as int, (old(self)@[i as int].0, state)),
    {
        let note = self.voices[i].0;
        self.voices[i] = (note, state);
    }
}

/// After a note off no voice of that note is left.
pub proof fn lemma_note_off_silences_note<T>(vs: Seq<(u8, T)>, note: u8)
    ensures
        forall|i: int| 0 <= i < after_note_off(vs, note).len() ==> (#[trigger] after_note_off(vs, note)[i]).0 != note,
{
    assert forall|i: int| 0 <= i < after_note_off(vs, note).len() implies (#[trigger] after_note_off(vs, note)[i]).0 != note by {
        vs.lemma_filter_pred(other_note::<T>(note), i);
    }
}

/// A note on never lets the set grow past its polyphony, and the new voice is the newest.
pub proof fn lemma_note_on_bounded<T>(vs: Seq<(u8, T)>, max_poly: nat, v: (u8, T))
    requires
        0 < max_poly,
        vs.len() <= max_poly,
    ensures
        after_note_on(vs, max_poly, v).len() <= max_poly,
        after_note_on(vs, max_poly, v).last() == v,
{
}

} // verus!
