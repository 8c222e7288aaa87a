//! Decisions of the control loop that polls the stop flag while a command runs.

use vstd::prelude::*;

verus! {

/// Poll interval, in milliseconds, of a command that runs for a limited time.
pub const TIMED_POLL_MS: u64 = 50;

/// Poll interval, in milliseconds, of a command that runs until stopped.
pub const OPEN_POLL_MS: u64 = 200;

/// How long to sleep before the next poll, or `None` when the command is to
/// be torn down: the stop flag is set, or a time limit has been reached.
pub fn next_poll(stopped: bool, elapsed_ms: u64, limit_ms: Option<u64>) -> (r: Option<u64>)
    ensures
        r.is_none() == (stopped || (limit_ms.is_some() && elapsed_ms >= limit_ms.unwrap())),
        r.is_some() ==> r.unwrap() == if limit_ms.is_some() { TIMED_POLL_MS } else { OPEN_POLL_MS },
{
    if stopped {
        return None;
    }
    match limit_ms {
        Some(limit) => {
            if elapsed_ms >= limit {
                None
            } else {
                Some(TIMED_POLL_MS)
            }
        },
        None => Some(OPEN_POLL_MS),
    }
}

/// The time, in milliseconds, that playback of `samples` interleaved samples
/// takes, rounded up, plus a margin of 200 ms; `u64::MAX` where that does not fit.
pub fn playback_wait_ms(samples: u64, channels: u16, sample_rate: u32) -> (r: u64)
    requires
        channels > 0,
        sample_rate > 0,
    ensures
        ({
            let d = channels as int * sample_rate as int;
            let t = (samples as int * 1000 + d - 1) / d + 200;
            r == if t <= u64::MAX { t } else { u64::MAX as int }
        }),
{
    proof {
        assert(channels as int * sample_rate as int <= 65535 * 4294967295) by (nonlinear_arith)
            requires channels <= 65535, sample_rate <= 4294967295;
        assert(channels as int * sample_rate as int >= 1) by (nonlinear_arith)
            requires channels >= 1, sample_rate >= 1;
    }
    let d: u128 = channels as u128 * sample_rate as u128;
    let t: u128 = (samples as u128 * 1000 + d - 1) / d + 200;
    proof {
        assert((samples as int * 1000 + d - 1) / (d as int) <= samples as int * 1000 + d - 1) by (nonlinear_arith)
            requires d >= 1, samples >= 0;
    }
    if t <= u64::MAX as u128 {
        t as u64
    } else {
        u64::MAX
    }
}

} // verus!
