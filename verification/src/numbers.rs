//! The number token of the wire format.
//!
//! A fixed-point value of `a` millionths travels as a signed decimal with a
//! mandatory fractional part of exactly six digits (`-1.500000` for
//! -1_500_000). The reader also accepts a bare integer (`"1"`) and fractions
//! of any length; fractional digits past the sixth carry less than one
//! millionth and are dropped.

use vstd::arithmetic::div_mod::lemma_fundamental_div_mod;
use vstd::arithmetic::div_mod::lemma_mod_mod;
use vstd::prelude::*;

use crate::model::coord_wf;
use crate::model::MAX_COORD;

verus! {

/// ASCII decimal digit.
pub open spec fn is_digit(c: u8) -> bool {
    48 <= c && c <= 57
}

/// The byte of one decimal digit.
pub open spec fn digit_byte(d: nat) -> u8 {
    (48 + (d % 10)) as u8
}

/// The numeric value of one digit byte.
pub open spec fn digit_val(c: u8) -> nat {
    if 48 <= c {
        (c - 48) as nat
    } else {
        0
    }
}

/// The decimal digits of `n`, most significant first, no leading zeros
/// (a single `0` for zero).
pub open spec fn dec_digits(n: nat) -> Seq<u8>
    decreases n,
{
    if n < 10 {
        seq![digit_byte(n)]
    } else {
        dec_digits(n / 10).push(digit_byte(n % 10))
    }
}

/// Exactly six decimal digits for a fractional part `m < 1_000_000`,
/// most significant first, zero-padded.
pub open spec fn frac6(m: nat) -> Seq<u8> {
    seq![
        digit_byte(m / 100000),
        digit_byte((m % 100000) / 10000),
        digit_byte((m % 10000) / 1000),
        digit_byte((m % 1000) / 100),
        digit_byte((m % 100) / 10),
        digit_byte(m % 10),
    ]
}

/// The canonical encoding of `a` millionths: optional minus sign, the whole
/// part in decimal, a point, six fractional digits.
#[verifier::opaque]
pub open spec fn spec_angle_bytes(a: int) -> Seq<u8> {
    let m = if a >= 0 {
        a
    } else {
        -a
    };
    let unsigned = dec_digits((m / 1000000) as nat) + (seq![46u8] + frac6((m % 1000000) as nat));
    if a < 0 {
        seq![45u8] + unsigned
    } else {
        unsigned
    }
}

/// The index of the first non-digit byte at or after `i`.
pub open spec fn digits_end(s: Seq<u8>, i: int) -> int
    decreases s.len() - i when 0 <= i <= s.len()
{
    if i < s.len() && is_digit(s[i]) {
        digits_end(s, i + 1)
    } else {
        i
    }
}

/// The value of the decimal digits `s[i..j)`, most significant first.
pub open spec fn digits_val(s: Seq<u8>, i: int, j: int) -> nat
    decreases j - i when i <= j
{
    if i < j {
        digits_val(s, i, j - 1) * 10 + digit_val(s[j - 1])
    } else {
        0
    }
}

/// The `k`-th fractional digit of the run `s[p..q)`, zero past its end.
pub open spec fn fdig(s: Seq<u8>, p: int, q: int, k: int) -> nat {
    if p + k < q {
        digit_val(s[p + k])
    } else {
        0
    }
}

/// The value, in millionths, of a fractional digit run `s[p..q)`: the first
/// six digits weighted by place, everything later dropped.
pub open spec fn frac_val(s: Seq<u8>, p: int, q: int) -> nat {
    100000 * fdig(s, p, q, 0) + 10000 * fdig(s, p, q, 1) + 1000 * fdig(s, p, q, 2) + 100 * fdig(
        s,
        p,
        q,
        3,
    ) + 10 * fdig(s, p, q, 4) + fdig(s, p, q, 5)
}

/// Combine sign, whole part and fraction; reject a magnitude the protocol
/// cannot carry.
pub open spec fn spec_angle_result(neg: bool, ip: int, frac: int, end: int) -> Option<(int, int)> {
    let mag = ip * 1000000 + frac;
    if mag <= MAX_COORD as int {
        Some(((if neg {
            -mag
        } else {
            mag
        }), end))
    } else {
        None
    }
}

/// Parse one number token at `i`: optional minus, at least one whole digit,
/// then optionally a point followed by at least one fractional digit.
/// Returns the value in millionths and the index just past the token.
pub open spec fn spec_parse_angle(s: Seq<u8>, i: int) -> Option<(int, int)> {
    let neg = i < s.len() && s[i] == 45u8;
    let j = if neg {
        i + 1
    } else {
        i
    };
    if j < s.len() && is_digit(s[j]) {
        let k = digits_end(s, j);
        let ip = digits_val(s, j, k) as int;
        if k < s.len() && s[k] == 46u8 {
            if k + 1 < s.len() && is_digit(s[k + 1]) {
                let q = digits_end(s, k + 1);
                spec_angle_result(neg, ip, frac_val(s, k + 1, q) as int, q)
            } else {
                None
            }
        } else {
            spec_angle_result(neg, ip, 0, k)
        }
    } else {
        None
    }
}

/// The canonical digits of `n` are digits, and there is at least one.
pub proof fn lemma_dec_digits_are_digits(n: nat)
    ensures
        dec_digits(n).len() >= 1,
        forall|k: int| 0 <= k < dec_digits(n).len() ==> is_digit(#[trigger] dec_digits(n)[k]),
    decreases n,
{
    if n >= 10 {
        lemma_dec_digits_are_digits(n / 10);
    }
}

/// The six fractional digits are digits.
pub proof fn lemma_frac6_are_digits(m: nat)
    ensures
        forall|k: int| 0 <= k < 6 ==> is_digit(#[trigger] frac6(m)[k]),
{
    assert forall|k: int| 0 <= k < 6 implies is_digit(#[trigger] frac6(m)[k]) by {
        assert(frac6(m)[k] == 48 + (frac6(m)[k] - 48));
    }
}

/// A run of digits `s[i..j)` bounded by a non-digit (or the end) scans to
/// exactly `j`.
pub proof fn lemma_digits_end_of_run(s: Seq<u8>, i: int, j: int)
    requires
        0 <= i <= j <= s.len(),
        forall|t: int| i <= t < j ==> is_digit(#[trigger] s[t]),
        j == s.len() || !is_digit(s[j]),
    ensures
        digits_end(s, i) == j,
    decreases j - i,
{
    if i < j {
        lemma_digits_end_of_run(s, i + 1, j);
    }
}

/// The scan stays inside the sequence and moves forward.
pub proof fn lemma_digits_end_bounds(s: Seq<u8>, i: int)
    requires
        0 <= i <= s.len(),
    ensures
        i <= digits_end(s, i) <= s.len(),
        forall|t: int| i <= t < digits_end(s, i) ==> is_digit(#[trigger] s[t]),
    decreases s.len() - i,
{
    if i < s.len() && is_digit(s[i]) {
        lemma_digits_end_bounds(s, i + 1);
    }
}

/// Reading more digits never shrinks the value.
pub proof fn lemma_digits_val_mono(s: Seq<u8>, i: int, j: int, k: int)
    requires
        i <= j <= k,
    ensures
        digits_val(s, i, j) <= digits_val(s, i, k),
    decreases k - j,
{
    if j < k {
        lemma_digits_val_mono(s, i, j, k - 1);
        assert(digits_val(s, i, k) == digits_val(s, i, k - 1) * 10 + digit_val(s[k - 1]));
        assert(digits_val(s, i, k - 1) * 10 >= digits_val(s, i, k - 1));
    }
}

/// Reading back the canonical digits of `n` yields `n`.
pub proof fn lemma_digits_val_of_dec(s: Seq<u8>, i: int, n: nat)
    requires
        0 <= i,
        i + dec_digits(n).len() <= s.len(),
        s.subrange(i, i + dec_digits(n).len()) == dec_digits(n),
    ensures
        digits_val(s, i, i + dec_digits(n).len()) == n,
    decreases n,
{
    let ds = dec_digits(n);
    if n < 10 {
        assert(s[i] == ds[0]);
        assert(digits_val(s, i, i + 1) == digits_val(s, i, i) * 10 + digit_val(s[i]));
    } else {
        let prev = dec_digits(n / 10);
        let lp = prev.len();
        assert(ds == prev.push(digit_byte(n % 10)));
        assert(s.subrange(i, i + lp) =~= prev) by {
            assert forall|t: int| 0 <= t < lp implies s.subrange(i, i + lp)[t] == prev[t] by {
                assert(s.subrange(i, i + ds.len())[t] == ds[t]);
            }
        }
        lemma_digits_val_of_dec(s, i, n / 10);
        assert(s[i + lp] == ds[lp as int]);
        assert(digit_val(digit_byte(n % 10)) == n % 10);
        assert(digits_val(s, i, i + ds.len()) == digits_val(s, i, i + lp) * 10 + digit_val(
            s[i + lp],
        ));
        assert(n == (n / 10) * 10 + n % 10) by {
            lemma_fundamental_div_mod(n as int, 10);
        }
    }
}

/// Reading back the six zero-padded fractional digits of `m` yields `m`.
pub proof fn lemma_frac_val_of_frac6(s: Seq<u8>, p: int, q: int, m: nat)
    requires
        0 <= p,
        p + 6 <= q,
        p + 6 <= s.len(),
        m < 1000000,
        s.subrange(p, p + 6) == frac6(m),
    ensures
        frac_val(s, p, q) == m,
{
    let f = frac6(m);
    assert(s[p] == f[0] && s[p + 1] == f[1] && s[p + 2] == f[2] && s[p + 3] == f[3] && s[p + 4]
        == f[4] && s[p + 5] == f[5]) by {
        assert(s.subrange(p, p + 6)[0] == f[0]);
        assert(s.subrange(p, p + 6)[1] == f[1]);
        assert(s.subrange(p, p + 6)[2] == f[2]);
        assert(s.subrange(p, p + 6)[3] == f[3]);
        assert(s.subrange(p, p + 6)[4] == f[4]);
        assert(s.subrange(p, p + 6)[5] == f[5]);
    }
    assert(m / 100000 < 10);
    assert((m % 100000) / 10000 < 10);
    assert((m % 10000) / 1000 < 10);
    assert((m % 1000) / 100 < 10);
    assert((m % 100) / 10 < 10);
    assert(digit_val(f[0]) == m / 100000);
    assert(digit_val(f[1]) == (m % 100000) / 10000);
    assert(digit_val(f[2]) == (m % 10000) / 1000);
    assert(digit_val(f[3]) == (m % 1000) / 100);
    assert(digit_val(f[4]) == (m % 100) / 10);
    assert(digit_val(f[5]) == m % 10);
    lemma_fundamental_div_mod(m as int, 100000);
    lemma_fundamental_div_mod((m % 100000) as int, 10000);
    lemma_fundamental_div_mod((m % 10000) as int, 1000);
    lemma_fundamental_div_mod((m % 1000) as int, 100);
    lemma_fundamental_div_mod((m % 100) as int, 10);
    assert((m % 100000) % 10000 == m % 10000) by {
        lemma_mod_mod(m as int, 10000, 10);
    }
    assert((m % 10000) % 1000 == m % 1000) by {
        lemma_mod_mod(m as int, 1000, 10);
    }
    assert((m % 1000) % 100 == m % 100) by {
        lemma_mod_mod(m as int, 100, 10);
    }
    assert((m % 100) % 10 == m % 10) by {
        lemma_mod_mod(m as int, 10, 10);
    }
}

/// Parsing the canonical encoding of a representable value `a`, embedded at
/// `i` and followed by a non-digit byte (or the end of input), yields `a`
/// and stops right after the encoding.
#[verifier::rlimit(60)]
pub proof fn lemma_parse_angle_of_encoding(s: Seq<u8>, i: int, a: int)
    requires
        coord_wf(a),
        0 <= i,
        i + spec_angle_bytes(a).len() <= s.len(),
        s.subrange(i, i + spec_angle_bytes(a).len()) == spec_angle_bytes(a),
        i + spec_angle_bytes(a).len() == s.len() || !is_digit(s[i + spec_angle_bytes(a).len()]),
    ensures
        spec_parse_angle(s, i) == Some((a, i + spec_angle_bytes(a).len())),
{
    reveal(spec_angle_bytes);
    let e = spec_angle_bytes(a);
    let m = if a >= 0 {
        a
    } else {
        -a
    };
    let ipn = (m / 1000000) as nat;
    let frn = (m % 1000000) as nat;
    let ds = dec_digits(ipn);
    let fs = frac6(frn);
    let neg = a < 0;
    let j = if neg {
        i + 1
    } else {
        i
    };
    lemma_dec_digits_are_digits(ipn);
    lemma_frac6_are_digits(frn);
    // lay the pieces of the encoding out against s
    let sl: int = if neg {
        1
    } else {
        0
    };
    let un = ds + (seq![46u8] + fs);
    assert(e == if neg {
        seq![45u8] + un
    } else {
        un
    });
    assert(e.len() == sl + ds.len() + 7);
    assert forall|t: int| 0 <= t < e.len() implies s[i + t] == e[t] by {
        assert(s.subrange(i, i + e.len())[t] == e[t]);
    }
    assert forall|t: int| 0 <= t < un.len() implies #[trigger] e[sl + t] == un[t] by {
        if neg {
            assert((seq![45u8] + un)[sl + t] == un[t]);
        }
    }
    assert forall|t: int| 0 <= t < ds.len() implies #[trigger] un[t] == ds[t] by {}
    assert(un[ds.len() as int] == (seq![46u8] + fs)[0]);
    assert forall|t: int| 0 <= t < 6 implies #[trigger] un[ds.len() + 1 + t] == fs[t] by {
        assert(un[ds.len() + 1 + t] == (seq![46u8] + fs)[1 + t]);
        assert((seq![46u8] + fs)[1 + t] == fs[t]);
    }
    if neg {
        assert(e[0] == (seq![45u8] + un)[0]);
        assert(s[i + 0] == e[0]);
        assert(s[i] == 45u8);
    }
    let k = j + ds.len();
    assert forall|t: int| j <= t < k implies is_digit(#[trigger] s[t]) by {
        assert(s[i + (sl + (t - j))] == e[sl + (t - j)]);
        assert(e[sl + (t - j)] == un[t - j]);
        assert(un[t - j] == ds[t - j]);
    }
    assert(s[i + (sl + ds.len())] == e[sl + ds.len()]);
    assert(e[sl + ds.len()] == un[ds.len() as int]);
    assert(s[k] == 46u8);
    assert(!is_digit(s[k]));
    lemma_digits_end_of_run(s, j, k);
    assert(s.subrange(j, k) =~= ds) by {
        assert forall|t: int| 0 <= t < ds.len() implies s.subrange(j, k)[t] == ds[t] by {
            assert(s[i + (sl + t)] == e[sl + t]);
            assert(e[sl + t] == un[t]);
        }
    }
    lemma_digits_val_of_dec(s, j, ipn);
    let p = k + 1;
    let q = p + 6;
    assert forall|t: int| p <= t < q implies is_digit(#[trigger] s[t]) by {
        assert(s[i + (sl + (ds.len() + 1 + (t - p)))] == e[sl + (ds.len() + 1 + (t - p))]);
        assert(e[sl + (ds.len() + 1 + (t - p))] == un[ds.len() + 1 + (t - p)]);
        assert(un[ds.len() + 1 + (t - p)] == fs[t - p]);
    }
    assert(q == i + e.len());
    lemma_digits_end_of_run(s, p, q);
    assert(s.subrange(p, q) =~= fs) by {
        assert forall|t: int| 0 <= t < 6 implies s.subrange(p, q)[t] == fs[t] by {
            assert(s[i + (sl + (ds.len() + 1 + t))] == e[sl + (ds.len() + 1 + t)]);
            assert(e[sl + (ds.len() + 1 + t)] == un[ds.len() + 1 + t]);
        }
    }
    lemma_frac_val_of_frac6(s, p, q, frn);
    assert(is_digit(s[j]));
    assert(is_digit(s[p]));
    lemma_fundamental_div_mod(m as int, 1000000);
    assert(ipn * 1000000 + frn == m);
    if neg {
        assert(s[i] == 45u8);
    } else {
        assert(i < s.len() && is_digit(s[i]) && s[i] != 45u8);
    }
    assert(spec_parse_angle(s, i) == spec_angle_result(neg, ipn as int, frn as int, q));
}

/// Append the canonical decimal digits of `n`.
pub fn push_digits(out: &mut Vec<u8>, n: u64)
    ensures
        final(out)@ == old(out)@ + dec_digits(n as nat),
    decreases n,
{
    if n < 10 {
        out.push(48 + n as u8);
        assert(final(out)@ =~= old(out)@ + dec_digits(n as nat));
    } else {
        push_digits(out, n / 10);
        out.push(48 + (n % 10) as u8);
        assert(final(out)@ =~= old(out)@ + dec_digits(n as nat));
    }
}

/// Append exactly six zero-padded fractional digits of `m`.
pub fn push_frac6(out: &mut Vec<u8>, m: u64)
    requires
        m < 1000000,
    ensures
        final(out)@ == old(out)@ + frac6(m as nat),
{
    out.push(48 + (m / 100000) as u8);
    out.push(48 + ((m % 100000) / 10000) as u8);
    out.push(48 + ((m % 10000) / 1000) as u8);
    out.push(48 + ((m % 1000) / 100) as u8);
    out.push(48 + ((m % 100) / 10) as u8);
    out.push(48 + (m % 10) as u8);
    assert(final(out)@ =~= old(out)@ + frac6(m as nat));
}

/// Append the canonical number token for `a` millionths.
pub fn push_angle(out: &mut Vec<u8>, a: i64)
    requires
        coord_wf(a as int),
    ensures
        final(out)@ == old(out)@ + spec_angle_bytes(a as int),
{
    if a < 0 {
        out.push(45);
    }
    let m: u64 = if a < 0 {
        (-a) as u64
    } else {
        a as u64
    };
    push_digits(out, m / 1000000);
    out.push(46);
    push_frac6(out, m % 1000000);
    proof {
        reveal(spec_angle_bytes);
    }
    assert(final(out)@ =~= old(out)@ + spec_angle_bytes(a as int));
}

/// Scan to the first non-digit byte at or after `i`.
pub fn scan_digits_end(s: &Vec<u8>, i: usize) -> (j: usize)
    requires
        i <= s.len(),
    ensures
        j as int == digits_end(s@, i as int),
        i <= j <= s.len(),
{
    let mut j = i;
    while j < s.len() && 48 <= s[j] && s[j] <= 57
        invariant
            i <= j <= s@.len(),
            digits_end(s@, i as int) == digits_end(s@, j as int),
        decreases s@.len() - j,
    {
        j = j + 1;
    }
    j
}

/// Accumulate the value of the digit run `s[i..j)`; report an overflow of
/// the protocol's whole-part bound instead of wrapping.
pub fn accum_digits(s: &Vec<u8>, i: usize, j: usize) -> (r: Option<u64>)
    requires
        i <= j <= s.len(),
        forall|t: int| i <= t < j ==> is_digit(#[trigger] s@[t]),
    ensures
        match r {
            Some(v) => v as nat == digits_val(s@, i as int, j as int) && v <= 1000000000,
            None => digits_val(s@, i as int, j as int) > 1000000000,
        },
{
    let mut acc: u64 = 0;
    let mut k = i;
    while k < j
        invariant
            i <= k <= j <= s@.len(),
            forall|t: int| i <= t < j ==> is_digit(#[trigger] s@[t]),
            acc as nat == digits_val(s@, i as int, k as int),
            acc <= 1000000000,
        decreases j - k,
    {
        let d = (s[k] - 48) as u64;
        assert(digits_val(s@, i as int, k + 1 as int) == digits_val(s@, i as int, k as int) * 10
            + digit_val(s@[k as int]));
        acc = acc * 10 + d;
        k = k + 1;
        if acc > 1000000000 {
            proof {
                lemma_digits_val_mono(s@, i as int, k as int, j as int);
            }
            return None;
        }
    }
    Some(acc)
}

/// The value, in millionths, of the first six digits of the run `s[p..q)`.
pub fn frac_from(s: &Vec<u8>, p: usize, q: usize) -> (f: u64)
    requires
        p <= q <= s.len(),
        forall|t: int| p <= t < q ==> is_digit(#[trigger] s@[t]),
    ensures
        f as nat == frac_val(s@, p as int, q as int),
        f < 1000000,
{
    let d0: u64 = if q - p > 0 {
        (s[p] - 48) as u64
    } else {
        0
    };
    let d1: u64 = if q - p > 1 {
        (s[p + 1] - 48) as u64
    } else {
        0
    };
    let d2: u64 = if q - p > 2 {
        (s[p + 2] - 48) as u64
    } else {
        0
    };
    let d3: u64 = if q - p > 3 {
        (s[p + 3] - 48) as u64
    } else {
        0
    };
    let d4: u64 = if q - p > 4 {
        (s[p + 4] - 48) as u64
    } else {
        0
    };
    let d5: u64 = if q - p > 5 {
        (s[p + 5] - 48) as u64
    } else {
        0
    };
    100000 * d0 + 10000 * d1 + 1000 * d2 + 100 * d3 + 10 * d4 + d5
}

/// Parse one number token at `i`, as [`spec_parse_angle`] reads it.
pub fn parse_angle(s: &Vec<u8>, i: usize) -> (r: Option<(i64, usize)>)
    requires
        i <= s.len(),
    ensures
        match r {
            Some((v, j)) => spec_parse_angle(s@, i as int) == Some((v as int, j as int)) && i <= j
                <= s.len() && coord_wf(v as int),
            None => spec_parse_angle(s@, i as int) is None,
        },
{
    let neg = i < s.len() && s[i] == 45;
    let j = if neg {
        i + 1
    } else {
        i
    };
    if !(j < s.len() && 48 <= s[j] && s[j] <= 57) {
        return None;
    }
    proof {
        lemma_digits_end_bounds(s@, j as int);
    }
    let k = scan_digits_end(s, j);
    let ip = match accum_digits(s, j, k) {
        Some(v) => v,
        None => {
            proof {
                let ipv = digits_val(s@, j as int, k as int) as int;
                assert(ipv > 1000000000);
                assert(ipv * 1000000 > 1000000000 * 1000000) by (nonlinear_arith)
                    requires
                        ipv > 1000000000,
                ;
            }
            return None;
        },
    };
    let (frac, end): (u64, usize) = if k < s.len() && s[k] == 46 {
        if !(k + 1 < s.len() && 48 <= s[k + 1] && s[k + 1] <= 57) {
            return None;
        }
        proof {
            lemma_digits_end_bounds(s@, k + 1 as int);
        }
        let q = scan_digits_end(s, k + 1);
        let f = frac_from(s, k + 1, q);
        (f, q)
    } else {
        (0, k)
    };
    let mag: u64 = ip * 1000000 + frac;
    if mag > 1000000000000000 {
        return None;
    }
    let v: i64 = if neg {
        -(mag as i64)
    } else {
        mag as i64
    };
    Some((v, end))
}

} // verus!
