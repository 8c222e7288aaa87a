//! Fixed-point conversion of captured integer samples to the signed 24-bit
//! container written to WAV files.

use vstd::prelude::*;

verus! {

/// The 24-bit container value of a signed 16-bit sample: the sample shifted left by 8.
pub fn i16_to_i24(x: i16) -> (r: i32)
    ensures
        r == x as int * 256,
        -8388608 <= r <= 8388352,
{
    x as i32 * 256
}

/// The 24-bit container value of an unsigned 16-bit sample: centred on 32768,
/// then shifted left by 8.
pub fn u16_to_i24(x: u16) -> (r: i32)
    ensures
        r == (x as int - 32768) * 256,
        -8388608 <= r <= 8388352,
{
    (x as i32 - 32768) * 256
}

/// Converts a block of signed 16-bit samples, one container value per sample.
pub fn i16_block_to_i24(data: &[i16]) -> (r: Vec<i32>)
    ensures
        r@.len() == data@.len(),
        forall|j: int| 0 <= j < data@.len() ==> r@[j] == data@[j] as int * 256,
{
    let mut r: Vec<i32> = Vec::with_capacity(data.len());
    let mut k: usize = 0;
    while k < data.len()
        invariant
            k <= data@.len(),
            r@.len() == k,
            forall|j: int| 0 <= j < k ==> r@[j] == data@[j] as int * 256,
        decreases data@.len() - k,
    {
        r.push(i16_to_i24(data[k]));
        k = k + 1;
    }
    r
}

/// Converts a block of unsigned 16-bit samples, one container value per sample.
pub fn u16_block_to_i24(data: &[u16]) -> (r: Vec<i32>)
    ensures
        r@.len() == data@.len(),
        forall|j: int| 0 <= j < data@.len() ==> r@[j] == (data@[j] as int - 32768) * 256,
{
    let mut r: Vec<i32> = Vec::with_capacity(data.len());
    let mut k: usize = 0;
    while k < data.len()
        invariant
            k <= data@.len(),
            r@.len() == k,
            forall|j: int| 0 <= j < k ==> r@[j] == (data@[j] as int - 32768) * 256,
        decreases data@.len() - k,
    {
        r.push(u16_to_i24(data[k]));
        k = k + 1;
    }
    r
}

} // verus!
