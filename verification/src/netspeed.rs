use vstd::prelude::*;
use crate::text::{decimal, decimal_of, digit_char, string_of};

verus! {

/// Network throughput between two readings of the interface totals.
pub struct NetSampler {
    pub last_rx: u64,
    pub last_tx: u64,
    /// when the last totals were read, in microseconds of a monotonic clock
    pub last_us: u64,
    /// bytes/sec transmitted
    pub up: u64,
    /// bytes/sec received
    pub down: u64,
}

/// Bytes per second for `delta` bytes over `elapsed_us` microseconds, the
/// interval taken as at least a millisecond, rounded down and capped at
/// `u64::MAX`.
pub open spec fn rate_of(delta: nat, elapsed_us: nat) -> nat {
    let dt: nat = if elapsed_us < 1000 { 1000 } else { elapsed_us };
    let r = delta * 1_000_000 / dt;
    if r > u64::MAX { u64::MAX as nat } else { r }
}

pub open spec fn sat_sub(a: u64, b: u64) -> nat {
    if a >= b { (a - b) as nat } else { 0 }
}

pub fn rate(delta: u64, elapsed_us: u64) -> (r: u64)
    ensures
        r == rate_of(delta as nat, elapsed_us as nat),
{
    let dt: u128 = if elapsed_us < 1000 { 1000 } else { elapsed_us as u128 };
    assert(delta as u128 * 1_000_000 <= u64::MAX as u128 * 1_000_000) by (nonlinear_arith)
        requires
            delta <= u64::MAX,
    ;
    let r: u128 = (delta as u128) * 1_000_000 / dt;
    if r > u64::MAX as u128 {
        u64::MAX
    } else {
        r as u64
    }
}

impl NetSampler {
    /// A sampler starting from the totals `(rx, tx)` read at `now_us`; no
    /// rate yet.
    pub fn new(totals: (u64, u64), now_us: u64) -> (s: NetSampler)
        ensures
            s.last_rx == totals.0,
            s.last_tx == totals.1,
            s.last_us == now_us,
            s.up == 0,
            s.down == 0,
    {
        NetSampler { last_rx: totals.0, last_tx: totals.1, last_us: now_us, up: 0, down: 0 }
    }

    /// Takes the totals `(rx, tx)` read at `now_us`: the rates are the growth
    /// since the last reading over the time since then (counters that went
    /// backwards count as no traffic), and the reading becomes the last one.
    pub fn sample(&mut self, totals: (u64, u64), now_us: u64)
        ensures
            final(self).down == rate_of(
                sat_sub(totals.0, old(self).last_rx),
                sat_sub(now_us, old(self).last_us),
            ),
            final(self).up == rate_of(
                sat_sub(totals.1, old(self).last_tx),
                sat_sub(now_us, old(self).last_us),
            ),
            final(self).last_rx == totals.0,
            final(self).last_tx == totals.1,
            final(self).last_us == now_us,
    {
        let (rx, tx) = totals;
        let elapsed = if now_us >= self.last_us { now_us - self.last_us } else { 0 };
        let drx = if rx >= self.last_rx { rx - self.last_rx } else { 0 };
        let dtx = if tx >= self.last_tx { tx - self.last_tx } else { 0 };
        self.down = rate(drx, elapsed);
        self.up = rate(dtx, elapsed);
        self.last_rx = rx;
        self.last_tx = tx;
        self.last_us = now_us;
    }
}

/// `q / d` rounded to the nearest whole number, ties to the even one.
pub open spec fn round_half_even(q: nat, d: nat) -> nat
    recommends
        d > 0,
{
    let t = q / d;
    let rem = q % d;
    if 2 * rem > d || (2 * rem == d && t % 2 == 1) {
        t + 1
    } else {
        t
    }
}

/// A byte rate as the bar shows it: in MiB with one decimal ("1.2M") from
/// 1 MiB/s, in whole KiB ("320K") from 1 KiB/s, else in bytes ("12B");
/// rounded to nearest, ties to even.
pub open spec fn rate_text(bps: nat) -> Seq<char> {
    if bps >= 1_048_576 {
        let t = round_half_even(bps * 10, 1_048_576);
        decimal(t / 10) + seq!['.', digit_char((t % 10) as int), 'M']
    } else if bps >= 1024 {
        decimal(round_half_even(bps, 1024)).push('K')
    } else {
        decimal(bps).push('B')
    }
}

fn round_div(q: u128, d: u128) -> (r: u128)
    requires
        d > 0,
        q / d < u128::MAX,
    ensures
        r == round_half_even(q as nat, d as nat),
{
    let t = q / d;
    let rem = q % d;
    assert(rem < d);
    if rem > d - rem || (rem == d - rem && t % 2 == 1) {
        t + 1
    } else {
        t
    }
}

/// Formats a byte/sec rate compactly (e.g. "1.2M", "320K", "12B").
pub fn fmt_rate(bps: u64) -> (s: String)
    ensures
        s@ == rate_text(bps as nat),
{
    if bps >= 1_048_576 {
        let q: u128 = bps as u128 * 10;
        let t = round_div(q, 1_048_576);
        assert(t <= bps as u128 * 10 / 1_048_576 + 1);
        assert(bps as u128 * 10 / 1_048_576 <= bps as u128);
        let whole = decimal_of((t / 10) as u64);
        let mut out = whole;
        out.push('.');
        out.push((((t % 10) as u8) + 48) as char);
        out.push('M');
        assert(out@ =~= decimal((t / 10) as nat) + seq![
            '.',
            digit_char((t % 10) as int),
            'M',
        ]);
        string_of(out.as_slice())
    } else if bps >= 1024 {
        let k = round_div(bps as u128, 1024);
        assert(k <= bps as u128);
        let mut out = decimal_of(k as u64);
        out.push('K');
        string_of(out.as_slice())
    } else {
        let mut out = decimal_of(bps);
        out.push('B');
        string_of(out.as_slice())
    }
}

} // verus!
