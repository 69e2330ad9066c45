//! Timer arithmetic: ticks to microseconds, microseconds to a `{sec, usec}` pair,
//! and the truncated millisecond clock used for elapsed-time accounting.

use vstd::prelude::*;
use vstd::bytes::{
    lemma_auto_spec_u64_to_from_le_bytes, spec_u64_from_le_bytes, spec_u64_to_le_bytes,
    u64_to_le_bytes,
};
use crate::config::{CLOCK_FREQ, MICRO_PER_SEC, MICRO_PER_MSEC, MSEC_PER_SEC, SECONDS_WINDOW_MASK};

verus! {

/// Number of bytes that a [`TimeVal`] occupies in user memory.
pub const TIMEVAL_BYTES: usize = 16;

/// A point in time split into whole seconds and the microseconds within the second.
#[derive(Clone, Copy, Debug, PartialEq, Eq, Structural)]
pub struct TimeVal {
    /// Whole seconds.
    pub sec: u64,
    /// Microseconds within the second.
    pub usec: u64,
}

impl TimeVal {
    /// The microseconds stay below one second.
    pub open spec fn wf(self) -> bool {
        self.usec < 1_000_000
    }

    /// The value as laid out in user memory: `sec`, then `usec`, each as eight
    /// little-endian bytes.
    pub open spec fn spec_bytes(self) -> Seq<u8> {
        spec_u64_to_le_bytes(self.sec) + spec_u64_to_le_bytes(self.usec)
    }

    /// Where each field lies in the serialised value: `sec` in the first eight
    /// bytes, `usec` in the last eight, each to be read back as a little-endian
    /// number.
    pub proof fn lemma_layout(self)
        ensures
            self.spec_bytes().len() == TIMEVAL_BYTES,
            self.spec_bytes().subrange(0, 8) == spec_u64_to_le_bytes(self.sec),
            self.spec_bytes().subrange(8, 16) == spec_u64_to_le_bytes(self.usec),
            spec_u64_from_le_bytes(self.spec_bytes().subrange(0, 8)) == self.sec,
            spec_u64_from_le_bytes(self.spec_bytes().subrange(8, 16)) == self.usec,
    {
        lemma_auto_spec_u64_to_from_le_bytes();
        assert(self.spec_bytes().subrange(0, 8) =~= spec_u64_to_le_bytes(self.sec));
        assert(self.spec_bytes().subrange(8, 16) =~= spec_u64_to_le_bytes(self.usec));
    }

    /// Serialises the value for a copy into user memory.
    pub fn to_bytes(&self) -> (out: Vec<u8>)
        ensures
            out@ == self.spec_bytes(),
            out@.len() == TIMEVAL_BYTES,
    {
        let mut out = u64_to_le_bytes(self.sec);
        let mut tail = u64_to_le_bytes(self.usec);
        out.append(&mut tail);
        out
    }
}

/// Microseconds represented by `ticks` timer ticks, rounded toward zero.
pub open spec fn spec_ticks_to_us(ticks: u64) -> int {
    (ticks as int * MICRO_PER_SEC as int) / (CLOCK_FREQ as int)
}

/// The truncated millisecond clock: whole seconds are reduced to a 16-bit window
/// before they are scaled, so the clock starts over every 65536 seconds.
pub open spec fn spec_ms_clock(us: u64) -> int {
    ((us as int / 1_000_000) % 65536) * 1000 + (us as int % 1_000_000) / 1000
}

/// Two instants lie in the same window when their second counts agree above the low 16 bits.
pub open spec fn same_window(a_us: u64, b_us: u64) -> bool {
    (a_us as int / 1_000_000) / 65536 == (b_us as int / 1_000_000) / 65536
}

/// Converts a tick count to microseconds without losing range: the product is
/// formed in 128 bits before the division.
pub fn ticks_to_us(ticks: u64) -> (us: u64)
    ensures
        us as int == spec_ticks_to_us(ticks),
{
    assert(ticks as int * MICRO_PER_SEC as int <= u128::MAX) by (nonlinear_arith)
        requires
            ticks <= u64::MAX,
            MICRO_PER_SEC == 1_000_000,
    ;
    let wide: u128 = (ticks as u128) * (MICRO_PER_SEC as u128);
    let q: u128 = wide / (CLOCK_FREQ as u128);
    assert(q <= ticks) by (nonlinear_arith)
        requires
            q as int == (ticks as int * 1_000_000) / 12_500_000,
    ;
    q as u64
}

/// The `{sec, usec}` pair of a microsecond count.
pub open spec fn spec_to_timeval(us: u64) -> TimeVal {
    TimeVal { sec: us / 1_000_000, usec: us % 1_000_000 }
}

/// Splits a microsecond count into seconds and the remaining microseconds.
/// Nothing is lost: the two fields add up to `us` again.
pub fn to_timeval(us: u64) -> (tv: TimeVal)
    ensures
        tv == spec_to_timeval(us),
        tv.wf(),
        tv.sec * 1_000_000 + tv.usec == us,
{
    TimeVal { sec: us / MICRO_PER_SEC, usec: us % MICRO_PER_SEC }
}

/// Reads the truncated millisecond clock at `us`.
pub fn ms_clock(us: u64) -> (ms: u64)
    ensures
        ms as int == spec_ms_clock(us),
        ms < 65_536_000,
{
    let sec: u64 = us / MICRO_PER_SEC;
    let windowed: u64 = sec & SECONDS_WINDOW_MASK;
    assert(windowed == sec % 65536) by (bit_vector)
        requires
            windowed == sec & 0xffffu64,
    ;
    windowed * MSEC_PER_SEC + (us % MICRO_PER_SEC) / MICRO_PER_MSEC
}

/// Milliseconds from `start_us` to `now_us` on the truncated clock. The result is
/// the plain difference of the two clock readings: never negative while both
/// instants lie in one window, but possibly so once the clock has started over
/// in between.
pub fn elapsed_ms(start_us: u64, now_us: u64) -> (elapsed: i64)
    ensures
        elapsed as int == spec_ms_clock(now_us) - spec_ms_clock(start_us),
        start_us <= now_us && same_window(start_us, now_us) ==> elapsed >= 0,
{
    proof {
        if start_us <= now_us && same_window(start_us, now_us) {
            lemma_ms_clock_monotone(start_us, now_us);
        }
    }
    let now_ms: u64 = ms_clock(now_us);
    let start_ms: u64 = ms_clock(start_us);
    (now_ms as i64) - (start_ms as i64)
}

/// Within one window the truncated clock never runs backwards.
pub proof fn lemma_ms_clock_monotone(a_us: u64, b_us: u64)
    requires
        a_us <= b_us,
        same_window(a_us, b_us),
    ensures
        spec_ms_clock(a_us) <= spec_ms_clock(b_us),
{
}

/// Elapsed time is never negative, and grows with the later instant, as long as
/// every instant involved lies in the window of the start.
pub proof fn lemma_elapsed_monotone(start_us: u64, earlier_us: u64, later_us: u64)
    requires
        start_us <= earlier_us <= later_us,
        same_window(start_us, earlier_us),
        same_window(start_us, later_us),
    ensures
        0 <= spec_ms_clock(earlier_us) - spec_ms_clock(start_us),
        spec_ms_clock(earlier_us) - spec_ms_clock(start_us) <= spec_ms_clock(later_us)
            - spec_ms_clock(start_us),
{
    lemma_ms_clock_monotone(start_us, earlier_us);
    lemma_ms_clock_monotone(earlier_us, later_us);
}

/// A microsecond count survives the split into seconds and microseconds.
pub proof fn lemma_timeval_round_trip(us: u64)
    ensures
        spec_to_timeval(us).wf(),
        spec_to_timeval(us).sec * 1_000_000 + spec_to_timeval(us).usec == us,
{
}

} // verus!
