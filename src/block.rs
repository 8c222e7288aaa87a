//! Block operations of the real-time callbacks: silence after a short read,
//! spreading a mono block over interleaved channels, and reading a block out
//! of fully decoded material. They are generic in the sample type, never
//! allocate, and take time linear in the block.

use vstd::prelude::*;

verus! {

/// Leaves the first `filled` samples of `out` as they are and sets every later
/// one to `silence`: the underrun policy after a short read.
pub fn fill_silence_from<T: Copy>(out: &mut [T], filled: usize, silence: T)
    requires
        filled <= old(out)@.len(),
    ensures
        final(out)@.len() == old(out)@.len(),
        forall|j: int| 0 <= j < filled ==> final(out)@[j] == old(out)@[j],
        forall|j: int| filled <= j < old(out)@.len() ==> final(out)@[j] == silence,
{
    let mut k: usize = filled;
    while k < out.len()
        invariant
            filled <= k <= out@.len(),
            out@.len() == old(out)@.len(),
            forall|j: int| 0 <= j < filled ==> out@[j] == old(out)@[j],
            forall|j: int| filled <= j < k ==> out@[j] == silence,
        decreases out@.len() - k,
    {
        out[k] = silence;
        k = k + 1;
    }
}

/// Writes each sample of the mono block `mono` to every one of the `channels`
/// interleaved slots of its frame in `out`; slots past the last whole frame
/// are left as they are.
pub fn spread_channels<T: Copy>(mono: &[T], channels: usize, out: &mut [T])
    requires
        channels > 0,
        mono@.len() == old(out)@.len() / (channels as nat),
    ensures
        final(out)@.len() == old(out)@.len(),
        forall|j: int| 0 <= j < mono@.len() * channels ==> final(out)@[j] == mono@[j / (channels as int)],
        forall|j: int| mono@.len() * channels <= j < old(out)@.len() ==> final(out)@[j] == old(out)@[j],
{
    let frames = mono.len();
    let n = out.len();
    let ghost c = channels as int;
    proof {
        assert(frames * c <= out@.len()) by (nonlinear_arith)
            requires frames == out@.len() as int / c, c > 0;
    }
    let mut i: usize = 0;
    while i < frames
        invariant
            i <= frames,
            frames == mono@.len(),
            c == channels,
            c > 0,
            frames * c <= out@.len(),
            n == out@.len(),
            out@.len() == old(out)@.len(),
            forall|j: int| 0 <= j < i * c ==> out@[j] == mono@[j / c],
            forall|j: int| i * c <= j < out@.len() ==> out@[j] == old(out)@[j],
        decreases frames - i,
    {
        let ghost row = out@;
        proof {
            assert((i + 1) * c <= frames * c) by (nonlinear_arith)
                requires i < frames, c > 0;
            assert((i + 1) * c == i * c + c) by (nonlinear_arith);
        }
        let base = i * channels;
        let mut ch: usize = 0;
        while ch < channels
            invariant
                i < frames,
                ch <= channels,
                c == channels,
                c > 0,
                base == i * c,
                base + c <= out@.len(),
                n == out@.len(),
                frames == mono@.len(),
                out@.len() == old(out)@.len(),
                forall|j: int| 0 <= j < base ==> out@[j] == mono@[j / c],
                forall|j: int| base <= j < base + ch ==> out@[j] == mono@[i as int],
                forall|j: int| base + c <= j < out@.len() ==> out@[j] == old(out)@[j],
            decreases channels - ch,
        {
            out[base + ch] = mono[i];
            ch = ch + 1;
        }
        proof {
            assert forall|j: int| 0 <= j < (i + 1) * c implies out@[j] == mono@[j / c] by {
                if j >= base {
                    assert(j / c == i as int) by (nonlinear_arith)
                        requires base == i * c, base <= j < base + c, c > 0;
                }
            }
        }
        i = i + 1;
    }
}

/// The sample that a block position shows when playback has reached `pos`:
/// the material while it lasts, then silence.
pub open spec fn playback_sample<T>(pcm: Seq<T>, pos: int, silence: T) -> T {
    if 0 <= pos < pcm.len() { pcm[pos] } else { silence }
}

/// Fills `out` with the material from position `pos` on, then silence, and
/// returns the position after the block; it never passes the end of the material.
pub fn play_block<T: Copy>(pcm: &[T], pos: usize, out: &mut [T], silence: T) -> (next: usize)
    requires
        pos <= pcm@.len(),
    ensures
        final(out)@.len() == old(out)@.len(),
        forall|k: int| 0 <= k < old(out)@.len() ==> final(out)@[k] == playback_sample(pcm@, pos + k, silence),
        next == if pos + old(out)@.len() < pcm@.len() { pos + old(out)@.len() } else { pcm@.len() as int },
{
    let mut p: usize = pos;
    let mut k: usize = 0;
    while k < out.len()
        invariant
            k <= out@.len(),
            out@.len() == old(out)@.len(),
            pos <= p <= pcm@.len(),
            p == if pos + k < pcm@.len() { pos + k } else { pcm@.len() as int },
            forall|m: int| 0 <= m < k ==> out@[m] == playback_sample(pcm@, pos + m, silence),
        decreases out@.len() - k,
    {
        if p < pcm.len() {
            out[k] = pcm[p];
            p = p + 1;
        } else {
            out[k] = silence;
        }
        k = k + 1;
    }
    p
}

} // verus!
