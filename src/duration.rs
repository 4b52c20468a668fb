//! Elapsed time and its human-scaled rendering.
use vstd::prelude::*;
use crate::text::{decimal, push_decimal};

verus! {

/// Nanoseconds from `start` to `now`; a clock reading earlier than the start counts as none.
pub open spec fn elapsed(start: nat, now: nat) -> nat {
    if now >= start { (now - start) as nat } else { 0 }
}

/// A later clock reading never gives a shorter elapsed time, and no reading
/// gives a negative one.
pub proof fn lemma_elapsed_monotone(start: nat, now: nat, later: nat)
    requires
        now <= later,
    ensures
        elapsed(start, now) <= elapsed(start, later),
        now >= start ==> elapsed(start, now) + start == now,
{
}

/// `t` divided by `unit`, in tenths, rounded to the nearest tenth (halves round up).
pub open spec fn tenths(t: nat, unit: nat) -> nat
    recommends
        unit > 0,
{
    (10 * t + unit / 2) / unit
}

/// A count of tenths written with one decimal place.
pub open spec fn one_decimal(v: nat) -> Seq<char> {
    decimal(v / 10) + seq!['.'] + decimal(v % 10)
}

/// The text for a duration of `t` nanoseconds: the largest of ns, us, ms and s
/// whose threshold `t` reaches, one decimal place from us upwards.
pub open spec fn time_text(t: nat) -> Seq<char> {
    if t < 1_000 {
        decimal(t) + seq!['n', 's']
    } else if t < 1_000_000 {
        one_decimal(tenths(t, 1_000)) + seq!['u', 's']
    } else if t < 1_000_000_000 {
        one_decimal(tenths(t, 1_000_000)) + seq!['m', 's']
    } else {
        one_decimal(tenths(t, 1_000_000_000)) + seq!['s']
    }
}

/// Nanoseconds from `start` to `now`, never negative.
pub fn elapsed_ns(start: u64, now: u64) -> (r: u64)
    ensures
        r == elapsed(start as nat, now as nat),
{
    if now >= start { now - start } else { 0 }
}

/// Appends `t` divided by `unit`, rounded to tenths, with one decimal place.
fn push_one_decimal(out: &mut String, t: u64, unit: u64)
    requires
        unit == 1_000 || unit == 1_000_000 || unit == 1_000_000_000,
    ensures
        final(out)@ == old(out)@ + one_decimal(tenths(t as nat, unit as nat)),
{
    let q = t / unit;
    let rem = t % unit;
    let frac = (rem * 10 + unit / 2) / unit;
    let v = q * 10 + frac;
    proof {
        lemma_tenths_split(t as nat, unit as nat);
    }
    push_decimal(out, v / 10);
    out.append(".");
    push_decimal(out, v % 10);
    proof {
        reveal_strlit(".");
    }
}

/// Rounding to tenths splits into the whole quotient and the rounded remainder.
proof fn lemma_tenths_split(t: nat, unit: nat)
    requires
        unit == 1_000 || unit == 1_000_000 || unit == 1_000_000_000,
    ensures
        tenths(t, unit) == (t / unit) * 10 + ((t % unit) * 10 + unit / 2) / unit,
        (t / unit) * 10 <= 10 * t,
        ((t % unit) * 10 + unit / 2) / unit <= 10,
{
    let q = t / unit;
    let r = t % unit;
    assert(t == q * unit + r && r < unit) by {
        vstd::arithmetic::div_mod::lemma_fundamental_div_mod(t as int, unit as int);
    }
    assert(10 * t + unit / 2 == (q * 10) * unit + (r * 10 + unit / 2)) by (nonlinear_arith)
        requires
            t == q * unit + r,
    ;
    lemma_div_shift((q * 10) as int, (r * 10 + unit / 2) as int, unit as int);
    assert(q * 10 <= 10 * t) by (nonlinear_arith)
        requires
            q * unit <= t,
            unit >= 1,
    ;
    assert((r * 10 + unit / 2) / unit <= 10) by (nonlinear_arith)
        requires
            r < unit,
            unit >= 2,
    ;
}

/// Adding `k` whole multiples of `d` adds `k` to the quotient.
proof fn lemma_div_shift(k: int, m: int, d: int)
    requires
        d > 0,
        m >= 0,
    ensures
        (k * d + m) / d == k + m / d,
{
    let mq = m / d;
    let mr = m % d;
    vstd::arithmetic::div_mod::lemma_fundamental_div_mod(m, d);
    assert(k * d + m == d * (k + mq) + mr) by (nonlinear_arith)
        requires
            m == d * mq + mr,
    ;
    vstd::arithmetic::div_mod::lemma_div_multiples_vanish_fancy(k + mq, mr, d);
}

/// Renders a duration of `time` nanoseconds in the unit that suits its size.
pub fn format_time(time: u64) -> (r: String)
    ensures
        r@ == time_text(time as nat),
{
    let mut out = String::new();
    if time < 1_000 {
        push_decimal(&mut out, time);
        out.append("ns");
    } else if time < 1_000_000 {
        push_one_decimal(&mut out, time, 1_000);
        out.append("us");
    } else if time < 1_000_000_000 {
        push_one_decimal(&mut out, time, 1_000_000);
        out.append("ms");
    } else {
        push_one_decimal(&mut out, time, 1_000_000_000);
        out.append("s");
    }
    proof {
        reveal_strlit("ns");
        reveal_strlit("us");
        reveal_strlit("ms");
        reveal_strlit("s");
    }
    assert(out@ =~= time_text(time as nat));
    out
}

} // verus!
