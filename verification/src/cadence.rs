//! The publisher's cadence arithmetic.
//!
//! The streaming loop emits one snapshot at every multiple of its fixed
//! interval, unconditionally: at `0, i, 2·i, …` while the tick falls inside
//! the observation window. These functions pin down how many emissions a
//! window of `w` time units holds: exactly `ceil(w / i)`, which never strays
//! from `w / i` by more than one.

use vstd::arithmetic::div_mod::lemma_div_is_ordered;
use vstd::arithmetic::div_mod::lemma_div_plus_one;
use vstd::arithmetic::div_mod::lemma_fundamental_div_mod;
use vstd::arithmetic::mul::lemma_mul_inequality;
use vstd::prelude::*;

verus! {

/// How many scheduled emissions fall inside a window of `window` time units
/// at one emission per `interval` units, the first at time zero:
/// `ceil(window / interval)`.
pub open spec fn emit_count(window: nat, interval: nat) -> nat
    recommends
        interval > 0,
{
    ((window + interval - 1) / (interval as int)) as nat
}

/// The `k`-th emission happens at time `k · interval`; it falls inside the
/// window exactly when `k < emit_count(window, interval)`. So the emissions
/// inside the window are precisely the first `emit_count` of them.
pub proof fn lemma_emission_in_window(k: nat, window: nat, interval: nat)
    requires
        interval > 0,
    ensures
        (k * interval < window) <==> (k < emit_count(window, interval)),
{
    let i = interval as int;
    let w = window as int;
    let q = (w + i - 1) / i;
    lemma_fundamental_div_mod(w + i - 1, i);
    let r = (w + i - 1) % i;
    assert(w + i - 1 == q * i + r);
    if k * interval < window {
        assert(k as int * i <= w - 1);
        assert(k as int * i <= q * i + r - i);
        assert(k as int * i < q * i) by {
            assert(r - i < 0);
        }
        assert(k < q) by {
            if k as int >= q {
                lemma_mul_inequality(q, k as int, i);
            }
        }
    }
    if k < emit_count(window, interval) {
        assert(k as int <= q - 1);
        lemma_mul_inequality(k as int, q - 1, i);
        assert(k as int * i <= (q - 1) * i);
        assert((q - 1) * i == q * i - i) by (nonlinear_arith);
        assert(q * i - i <= w - 1 - r);
    }
}

/// Over a window of `window` time units with interval `interval`, the number
/// of emissions is `window / interval`, give or take one.
pub proof fn lemma_cadence_bound(window: nat, interval: nat)
    requires
        interval > 0,
    ensures
        window / interval <= emit_count(window, interval) <= window / interval + 1,
{
    let i = interval as int;
    let w = window as int;
    lemma_div_is_ordered(w, w + i - 1, i);
    lemma_div_is_ordered(w + i - 1, w + i, i);
    lemma_div_plus_one(w, i);
}

/// The number of snapshots the streaming loop emits over `window` time
/// units: the first emission at time zero, then one per `interval`.
pub fn emissions_in_window(window: u64, interval: u64) -> (n: u64)
    requires
        interval > 0,
    ensures
        n as nat == emit_count(window as nat, interval as nat),
{
    if window == 0 {
        proof {
            vstd::arithmetic::div_mod::lemma_basic_div(interval - 1, interval as int);
        }
        0
    } else {
        proof {
            lemma_div_plus_one(window - 1, interval as int);
        }
        (window - 1) / interval + 1
    }
}

} // verus!
