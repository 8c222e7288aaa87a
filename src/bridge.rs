//! The bounded single-producer single-consumer bridge of raw samples from a
//! capture callback to a render callback, on a split `ringbuf` ring. What the
//! ring holds at any moment depends on the timing of both threads; the
//! consumer end fills whatever a short read leaves with silence.

use vstd::prelude::*;
use crate::block::fill_silence_from;

verus! {

/// A `ringbuf::HeapRb` of samples before it is split, held opaque.
#[verifier::external_body]
#[verifier::reject_recursive_types(T)]
pub struct SampleRing<T> {
    rb: ringbuf::HeapRb<T>,
}

/// The producer end of a sample bridge (`ringbuf::HeapProducer`), held opaque.
#[verifier::external_body]
#[verifier::reject_recursive_types(T)]
pub struct SampleSender<T> {
    p: ringbuf::HeapProducer<T>,
}

/// The consumer end of a sample bridge (`ringbuf::HeapConsumer`), held opaque.
#[verifier::external_body]
#[verifier::reject_recursive_types(T)]
pub struct SampleReceiver<T> {
    c: ringbuf::HeapConsumer<T>,
}

/// Relies on `HeapRb::new`: an empty ring of the given capacity (it panics on zero).
#[verifier::external_body]
fn sample_ring_new<T>(capacity: usize) -> (r: SampleRing<T>)
    requires
        capacity > 0,
{
    SampleRing { rb: ringbuf::HeapRb::<T>::new(capacity) }
}

/// Relies on `SharedRb::split`: the ring becomes one producer and one consumer end.
#[verifier::external_body]
fn sample_ring_split<T>(r: SampleRing<T>) -> (ends: (SampleSender<T>, SampleReceiver<T>)) {
    let (p, c) = r.rb.split();
    (SampleSender { p }, SampleReceiver { c })
}

/// Relies on `Producer::push_slice`: never blocks; appends as many of the
/// samples as there is room for, first ones first, and returns that count.
#[verifier::external_body]
fn sample_push_slice<T: Copy>(s: &mut SampleSender<T>, data: &[T]) -> (n: usize)
    ensures
        n <= data@.len(),
{
    s.p.push_slice(data)
}

/// Relies on `Consumer::pop_slice`: never blocks; moves the oldest samples
/// into the front of `out`, as many as are buffered and fit, and returns that
/// count; the rest of `out` is not written.
#[verifier::external_body]
fn sample_pop_slice<T: Copy>(r: &mut SampleReceiver<T>, out: &mut [T]) -> (n: usize)
    ensures
        n <= old(out)@.len(),
        final(out)@.len() == old(out)@.len(),
        forall|j: int| n <= j < old(out)@.len() ==> final(out)@[j] == old(out)@[j],
{
    r.c.pop_slice(out)
}

/// A bridge that buffers at most `capacity` samples, as its two ends.
pub fn sample_bridge<T: Copy>(capacity: usize) -> (ends: (SampleSender<T>, SampleReceiver<T>))
    requires
        capacity > 0,
{
    sample_ring_split(sample_ring_new(capacity))
}

impl<T: Copy> SampleSender<T> {
    /// Offers a block of samples without blocking; what does not fit is
    /// dropped. Returns how many were taken.
    pub fn push_slice(&mut self, data: &[T]) -> (n: usize)
        ensures
            n <= data@.len(),
    {
        sample_push_slice(self, data)
    }
}

impl<T: Copy> SampleReceiver<T> {
    /// Fills `out` with the oldest buffered samples, as many as there are and
    /// fit, and every later slot with `silence`. Returns the count of real samples.
    pub fn pop_into(&mut self, out: &mut [T], silence: T) -> (n: usize)
        ensures
            n <= old(out)@.len(),
            final(out)@.len() == old(out)@.len(),
            forall|j: int| n <= j < old(out)@.len() ==> final(out)@[j] == silence,
    {
        let n = sample_pop_slice(self, out);
        fill_silence_from(out, n, silence);
        n
    }
}

} // verus!
