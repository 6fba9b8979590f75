//! Binary64 rounding in exact integer arithmetic.
//!
//! Sizes are shown through a conversion to binary64 (53 significant bits, ties to
//! even), so the digits that appear are those of the rounded value. Everything here
//! is stated over integers: a value that is not whole is held as a numerator over a
//! power of two.
use vstd::arithmetic::power2::lemma_pow2_pos;
use vstd::arithmetic::power2::lemma_pow2_unfold;
use vstd::arithmetic::power2::pow2;
use vstd::prelude::*;

verus! {

/// 2^53: from here on not every integer has a binary64 value.
pub const TWO53: u128 = 0x20_0000_0000_0000;

/// 2^52.
pub const TWO52: u128 = 0x10_0000_0000_0000;

/// Nanoseconds in a second.
pub const NANOS_PER_SEC: u128 = 1_000_000_000;

/// 2^52 * 10^9.
pub const SCALE: u128 = 4_503_599_627_370_496_000_000_000;

/// `n / d` rounded to an integer, ties to even.
pub open spec fn round_half_even(n: nat, d: nat) -> nat {
    let q = n / d;
    let r = n % d;
    if 2 * r < d || (2 * r == d && q % 2 == 0) {
        q
    } else {
        q + 1
    }
}

/// The distance between neighbouring binary64 values at `v`, for integers.
pub open spec fn spacing(v: nat) -> nat
    decreases v,
{
    if v < TWO53 {
        1
    } else {
        2 * spacing(v / 2)
    }
}

/// The integer `v` converted to binary64.
pub open spec fn nearest_f64(v: nat) -> nat {
    round_half_even(v, spacing(v)) * spacing(v)
}

/// `n / d` rounded to an integer, ties to even.
pub fn div_half_even(n: u128, d: u128) -> (r: u128)
    requires
        0 < d <= 0x4000_0000_0000_0000_0000_0000_0000_0000,
        n < u128::MAX,
    ensures
        r == round_half_even(n as nat, d as nat),
{
    let q: u128 = n / d;
    let rem: u128 = n % d;
    assert(q <= n) by (nonlinear_arith)
        requires
            q == n / d,
            0 < d,
    ;
    if 2 * rem < d || (2 * rem == d && q % 2 == 0) {
        q
    } else {
        q + 1
    }
}

proof fn lemma_spacing_scale(v: nat)
    requires
        v >= TWO53,
    ensures
        spacing(v) == 2 * spacing(v / 2),
{
}

/// The integer `v` converted to binary64.
pub fn to_f64(v: u128) -> (r: u128)
    requires
        v <= 0x1_0000_0000_0000_0000,
    ensures
        r == nearest_f64(v as nat),
        r <= 0x1_0000_0000_0000_0000,
{
    let mut unit: u128 = 1;
    let mut w: u128 = v;
    let mut steps: usize = 0;
    proof {
        vstd::arithmetic::power2::lemma2_to64();
    }
    while w >= TWO53
        invariant
            spacing(v as nat) == unit * spacing(w as nat),
            steps <= 12,
            v <= 0x1_0000_0000_0000_0000,
            unit == pow2(steps as nat),
            w * unit <= v,
            unit >= 1,
        decreases w,
    {
        proof {
            lemma_spacing_scale(w as nat);
            assert(unit * (2 * spacing(w as nat / 2)) == (2 * unit) * spacing(w as nat / 2))
                by (nonlinear_arith);
            lemma_pow2_unfold((steps + 1) as nat);
            lemma_pow2_pos(steps as nat);
            assert(unit <= 0x800) by (nonlinear_arith)
                requires
                    w * unit <= v,
                    v <= 0x1_0000_0000_0000_0000,
                    w >= 0x20_0000_0000_0000,
            ;
            assert((w / 2) * (2 * unit) <= w * unit) by (nonlinear_arith)
                requires
                    unit >= 1,
                    w >= 0,
            ;
            if steps == 12 {
                vstd::arithmetic::power2::lemma2_to64();
                assert(false);
            }
        }
        w = w / 2;
        unit = unit * 2;
        steps += 1;
    }
    proof {
        vstd::arithmetic::power2::lemma2_to64();
        assert(unit <= 0x1000) by {
            vstd::arithmetic::power2::lemma_pow2_strictly_increases(steps as nat, 13);
        }
        assert(unit * 1 == unit) by (nonlinear_arith);
    }
    let q = div_half_even(v, unit);
    proof {
        lemma_round_bound(v as nat, unit as nat, steps as nat);
    }
    q * unit
}

/// Rounding a 64-bit integer to a multiple of a small power of two stays within 2^64.
proof fn lemma_round_bound(v: nat, d: nat, k: nat)
    requires
        v <= 0x1_0000_0000_0000_0000,
        d == pow2(k),
        k <= 12,
    ensures
        round_half_even(v, d) * d <= 0x1_0000_0000_0000_0000,
{
    vstd::arithmetic::power2::lemma2_to64();
    lemma_pow2_pos(k);
    let q = v / d;
    let r = v % d;
    vstd::arithmetic::div_mod::lemma_fundamental_div_mod(v as int, d as int);
    if round_half_even(v, d) == q {
        assert(q * d <= v) by (nonlinear_arith)
            requires
                v == d * q + r,
                r >= 0,
        ;
    } else {
        vstd::arithmetic::power2::lemma_pow2_adds(k, (64 - k) as nat);
        assert(pow2(64) == 0x1_0000_0000_0000_0000);
        let c = pow2((64 - k) as nat);
        assert(q < c) by (nonlinear_arith)
            requires
                d * q + r == v,
                r > 0,
                v <= 0x1_0000_0000_0000_0000,
                d * c == 0x1_0000_0000_0000_0000,
                d > 0,
        ;
        assert((q + 1) * d <= c * d) by (nonlinear_arith)
            requires
                q + 1 <= c,
                d > 0,
        ;
        assert(c * d == d * c) by (nonlinear_arith);
    }
}


// ---------------------------------------------------------------------------
// Seconds
// ---------------------------------------------------------------------------

/// `n` doubled until it reaches 2^52 * 10^9, so that `n / 10^9` doubled as often has
/// 53 binary digits before the point. Zero stays zero.
pub open spec fn scaled(n: nat) -> nat
    decreases 2 * SCALE - n,
{
    if n == 0 || n >= SCALE {
        n
    } else {
        scaled(2 * n)
    }
}

/// How often `scaled` doubles.
pub open spec fn doublings(n: nat) -> nat
    decreases 2 * SCALE - n,
{
    if n == 0 || n >= SCALE {
        0
    } else {
        1 + doublings(2 * n)
    }
}

/// The numerator of `nanos / 10^9` in binary64, over `pow2(doublings(nanos))`.
pub open spec fn nanos_numerator(nanos: nat) -> nat {
    round_half_even(scaled(nanos), NANOS_PER_SEC as nat)
}

/// The numerator of `secs + nanos / 10^9` in binary64, over `pow2(doublings(nanos))`:
/// both terms are converted first, and their sum is rounded once more.
pub open spec fn seconds_numerator(secs: nat, nanos: nat) -> nat {
    nearest_f64(nearest_f64(secs) * pow2(doublings(nanos)) + nanos_numerator(nanos))
}

/// Tenths of a second of `secs + nanos / 10^9` in binary64, ties to even.
pub open spec fn seconds_tenths(secs: nat, nanos: nat) -> nat {
    round_half_even(10 * seconds_numerator(secs, nanos), pow2(doublings(nanos)))
}

/// Between 2^52 * d and 2^53 * d, for a power of two d, the spacing is d.
proof fn lemma_spacing(v: nat, d: nat, k: nat)
    requires
        d == pow2(k),
        TWO52 * d <= v < TWO53 * d,
    ensures
        spacing(v) == d,
    decreases k,
{
    vstd::arithmetic::power2::lemma2_to64();
    if k > 0 {
        lemma_pow2_unfold(k);
        let h = pow2((k - 1) as nat);
        assert(d == 2 * h);
        assert(h >= 1) by {
            lemma_pow2_pos((k - 1) as nat);
        }
        assert(v >= TWO53);
        lemma_spacing(v / 2, h, (k - 1) as nat);
    }
}

/// Rounding `a * d + m`: the whole part `a` only decides ties.
proof fn lemma_round_shift(a: nat, d: nat, m: nat)
    requires
        d > 0,
    ensures
        (a * d + m) / d == a + m / d,
        (a * d + m) % d == m % d,
{
    vstd::arithmetic::div_mod::lemma_mod_multiples_vanish(a as int, m as int, d as int);
    vstd::arithmetic::div_mod::lemma_hoist_over_denominator(m as int, a as int, d);
    assert(a * d == d * a) by (nonlinear_arith);
}

/// A common factor of numerator and denominator does not change the rounding.
proof fn lemma_round_common_factor(n: nat, d: nat, f: nat)
    requires
        d > 0,
        f > 0,
    ensures
        round_half_even(n * f, d * f) == round_half_even(n, d),
{
    let q = n / d;
    let r = n % d;
    vstd::arithmetic::div_mod::lemma_fundamental_div_mod(n as int, d as int);
    assert(n * f == q * (d * f) + r * f) by (nonlinear_arith)
        requires
            n == d * q + r,
    ;
    assert(0 <= r * f < d * f) by (nonlinear_arith)
        requires
            0 <= r < d,
            f > 0,
    ;
    vstd::arithmetic::div_mod::lemma_fundamental_div_mod_converse(
        (n * f) as int,
        (d * f) as int,
        q as int,
        (r * f) as int,
    );
    assert(2 * (r * f) < d * f <==> 2 * r < d) by (nonlinear_arith)
        requires
            f > 0,
    ;
    assert(2 * (r * f) == d * f <==> 2 * r == d) by (nonlinear_arith)
        requires
            f > 0,
    ;
}

/// A multiple of the spacing 2^k * d plus less than half of it rounds to the multiple.
proof fn lemma_large_sum(s: nat, p: nat, e: nat, m: nat)
    requires
        s >= TWO53,
        exists|v: nat| s == #[trigger] nearest_f64(v),
        s <= 0x1_0000_0000_0000_0000,
        p == pow2(e),
        m < p,
    ensures
        nearest_f64(s * p + m) == s * p,
{
    let v = choose|v: nat| s == #[trigger] nearest_f64(v);
    lemma_multiple_of_spacing(s, v);
    let u = spacing(s);
    let a = s / u;
    lemma_spacing_range(s);
    let k = choose|k: nat| u == pow2(k) && TWO52 * u <= s < TWO53 * u && k >= 1;
    let d = u * p;
    vstd::arithmetic::power2::lemma_pow2_adds(k, e);
    lemma_pow2_pos(k);
    lemma_pow2_pos(e);
    lemma_pow2_unfold(k);
    assert(u >= 2) by {
        lemma_pow2_pos((k - 1) as nat);
    }
    assert(s == a * u) by {
        vstd::arithmetic::div_mod::lemma_fundamental_div_mod(s as int, u as int);
        assert(u * a == a * u) by (nonlinear_arith);
    }
    assert(s * p == a * d) by (nonlinear_arith)
        requires
            s == a * u,
            d == u * p,
    ;
    assert(TWO52 * d <= s * p) by (nonlinear_arith)
        requires
            TWO52 * u <= s,
            d == u * p,
    ;
    assert(a < TWO53) by (nonlinear_arith)
        requires
            s < TWO53 * u,
            s == a * u,
    ;
    assert(m < d) by (nonlinear_arith)
        requires
            m < p,
            d == u * p,
            u >= 2,
    ;
    assert((a + 1) * d <= TWO53 * d) by (nonlinear_arith)
        requires
            a + 1 <= TWO53,
            d >= 0,
    ;
    assert((a + 1) * d == a * d + d) by (nonlinear_arith);
    lemma_spacing(s * p + m, d, k + e);
    lemma_round_shift(a, d, m);
    assert(2 * m < d) by (nonlinear_arith)
        requires
            m < p,
            d == u * p,
            u >= 2,
    ;
    vstd::arithmetic::div_mod::lemma_basic_div(m as int, d as int);
    vstd::arithmetic::div_mod::lemma_small_mod(m, d);
    assert(round_half_even(s * p + m, d) == a);
}

/// The spacing at an integer from 2^53 on is a power of two that brackets it.
proof fn lemma_spacing_range(v: nat)
    requires
        v >= TWO53,
    ensures
        exists|k: nat|
            spacing(v) == #[trigger] pow2(k) && TWO52 * spacing(v) <= v < TWO53 * spacing(v)
                && k >= 1,
    decreases v,
{
    vstd::arithmetic::power2::lemma2_to64();
    if v / 2 < TWO53 {
        assert(spacing(v / 2) == 1);
        assert(spacing(v) == pow2(1));
    } else {
        lemma_spacing_range(v / 2);
        let k = choose|k: nat|
            spacing(v / 2) == #[trigger] pow2(k) && TWO52 * spacing(v / 2) <= v / 2 < TWO53
                * spacing(v / 2) && k >= 1;
        lemma_pow2_unfold(k + 1);
        assert(spacing(v) == pow2(k + 1));
    }
}

/// The conversion loses less than half of a large integer, and nothing of a small one.
pub proof fn lemma_conversion_keeps_half(v: nat)
    ensures
        v < TWO53 ==> nearest_f64(v) == v,
        v >= TWO53 ==> nearest_f64(v) > v - spacing(v) && 2 * spacing(v) <= v,
{
    if v < TWO53 {
        assert(v / 1 == v && v % 1 == 0);
        assert(v * 1 == v);
    } else {
        lemma_spacing_range(v);
        let d = spacing(v);
        let q = v / d;
        assert(v == q * d + v % d && v % d < d) by (nonlinear_arith)
            requires
                d > 0,
                q == v / d,
        ;
        assert((q + 1) * d == q * d + d) by (nonlinear_arith);
    }
}

/// A binary64 value is a multiple of the spacing at it.
proof fn lemma_multiple_of_spacing(s: nat, v: nat)
    requires
        s == nearest_f64(v),
        s >= TWO53,
    ensures
        s % spacing(s) == 0,
{
    let u = spacing(v);
    let q = round_half_even(v, u);
    if v < TWO53 {
        assert(u == 1);
        vstd::arithmetic::div_mod::lemma_div_basics(v as int);
        assert(q <= v) by {
            assert(v % 1 == 0);
        }
        assert(q * 1 == q) by (nonlinear_arith);
        assert(false);
    } else {
        lemma_spacing_range(v);
        let k = choose|k: nat|
            spacing(v) == #[trigger] pow2(k) && TWO52 * spacing(v) <= v < TWO53 * spacing(v) && k
                >= 1;
        lemma_pow2_pos(k);
        vstd::arithmetic::div_mod::lemma_fundamental_div_mod(v as int, u as int);
        assert(TWO52 <= v / u < TWO53) by (nonlinear_arith)
            requires
                TWO52 * u <= v < TWO53 * u,
                v == u * (v / u) + v % u,
                0 <= v % u < u,
                u > 0,
        ;
        if q < TWO53 {
            assert(TWO52 * u <= q * u < TWO53 * u) by (nonlinear_arith)
                requires
                    TWO52 <= q < TWO53,
                    u > 0,
            ;
            lemma_spacing(s, u, k);
            vstd::arithmetic::div_mod::lemma_mod_multiples_basic(q as int, u as int);
        } else {
            assert(q == TWO53);
            lemma_pow2_unfold(k + 1);
            let u2 = pow2(k + 1);
            assert(s == TWO52 * u2) by (nonlinear_arith)
                requires
                    s == q * u,
                    q == TWO53,
                    u2 == 2 * u,
            ;
            lemma_spacing(s, u2, k + 1);
            vstd::arithmetic::div_mod::lemma_mod_multiples_basic(TWO52 as int, u2 as int);
        }
    }
}


/// Sums of less than 2^53 whole seconds: with `w` the power of two that takes `s` into
/// [2^52, 2^53), the sum has spacing `p / w`.
proof fn lemma_small_sum(s: nat, w: nat, i: nat, p: nat, e: nat, m: nat)
    requires
        s < TWO53,
        w == pow2(i),
        i <= e,
        p == pow2(e),
        TWO52 <= s * w < TWO53,
        m < p,
    ensures
        p == w * (p / w),
        p / w > 0,
        w > 0,
        nearest_f64(s * p + m) == (if 2 * (m % (p / w)) < p / w || (2 * (m % (p / w)) == p / w && (s
            * w + m / (p / w)) % 2 == 0) {
            s * w + m / (p / w)
        } else {
            s * w + m / (p / w) + 1
        }) * (p / w),
{
    let d = pow2((e - i) as nat);
    vstd::arithmetic::power2::lemma_pow2_adds(i, (e - i) as nat);
    lemma_pow2_pos(i);
    lemma_pow2_pos((e - i) as nat);
    vstd::arithmetic::div_mod::lemma_div_multiples_vanish(d as int, w as int);
    assert(p == w * d);
    assert(p / w == d);
    let a = s * w;
    assert(s * p == a * d) by (nonlinear_arith)
        requires
            a == s * w,
            p == w * d,
    ;
    assert(TWO52 * d <= a * d) by (nonlinear_arith)
        requires
            TWO52 <= a,
            d >= 0,
    ;
    // The next multiple of `w` after `a` is at most 2^53.
    vstd::arithmetic::power2::lemma2_to64();
    vstd::arithmetic::power2::lemma2_to64_rest();
    if i > 53 {
        vstd::arithmetic::power2::lemma_pow2_strictly_increases(53, i);
        assert(s * w >= w || s == 0) by (nonlinear_arith)
            requires
                w >= 0,
                s >= 0,
        ;
        assert(0 * w == 0);
        assert(false);
    }
    vstd::arithmetic::power2::lemma_pow2_adds(i, (53 - i) as nat);
    let c = pow2((53 - i) as nat);
    assert(s < c) by (nonlinear_arith)
        requires
            s * w < TWO53,
            w * c == TWO53,
            w > 0,
    ;
    assert((s + 1) * w <= TWO53) by (nonlinear_arith)
        requires
            s + 1 <= c,
            w * c == TWO53,
            w > 0,
    ;
    assert((s + 1) * w == a + w) by (nonlinear_arith)
        requires
            a == s * w,
    ;
    assert(a * d + p <= TWO53 * d) by (nonlinear_arith)
        requires
            a + w <= TWO53,
            p == w * d,
            d >= 0,
    ;
    lemma_spacing(s * p + m, d, (e - i) as nat);
    lemma_round_shift(a, d, m);
}

proof fn lemma_scaled_step(n: nat)
    requires
        0 < n < SCALE,
    ensures
        scaled(n) == scaled(2 * n),
        doublings(n) == 1 + doublings(2 * n),
{
}

/// Tenths of a second of `secs + nanos / 10^9` in binary64, ties to even.
pub fn tenths_of_seconds(secs: u64, nanos: u32) -> (t: u128)
    requires
        nanos < NANOS_PER_SEC,
    ensures
        t == seconds_tenths(secs as nat, nanos as nat),
        t <= 0xa_0000_0000_0000_0000,
{
    let s = to_f64(secs as u128);
    proof {
        vstd::arithmetic::power2::lemma2_to64();
    }
    // The fraction, as m / p.
    let mut x: u128 = nanos as u128;
    let mut p: u128 = 1;
    let ghost mut e: nat = 0;
    while x > 0 && x < SCALE
        invariant
            nanos < NANOS_PER_SEC,
            x == nanos * p,
            x < 2 * SCALE,
            p >= 1,
            p <= 2 * SCALE,
            x == 0 ==> p == 1,
            p == pow2(e),
            scaled(nanos as nat) == scaled(x as nat),
            doublings(nanos as nat) == e + doublings(x as nat),
            x > 0 ==> p <= x,
        decreases 2 * SCALE - x,
    {
        proof {
            lemma_scaled_step(x as nat);
            lemma_pow2_unfold(e + 1);
            assert(2 * x == nanos * (2 * p)) by (nonlinear_arith)
                requires
                    x == nanos * p,
            ;
            e = e + 1;
        }
        x = 2 * x;
        p = 2 * p;
    }
    let m = div_half_even(x, NANOS_PER_SEC);
    assert(doublings(nanos as nat) == e);
    assert(m == nanos_numerator(nanos as nat));
    proof {
        lemma_fraction_below_one(nanos as nat, p as nat, x as nat);
    }
    if s >= TWO53 {
        proof {
            lemma_large_sum(s as nat, p as nat, e, m as nat);
            assert(10 * (s * p) == (10 * s) * p) by (nonlinear_arith);
            lemma_round_common_factor((10 * s) as nat, 1, p as nat);
            assert(1 * p == p);
            assert(round_half_even((10 * s) as nat, 1) == 10 * s) by {
                vstd::arithmetic::div_mod::lemma_div_basics((10 * s) as int);
                assert((10 * s) as int % 1 == 0);
            }
        }
        10 * s
    } else if nanos == 0 {
        proof {
            assert(p == 1);
            assert(nearest_f64(s as nat) == s) by {
                assert(spacing(s as nat) == 1);
                assert(s as nat % 1 == 0);
                vstd::arithmetic::div_mod::lemma_div_basics(s as int);
                assert(s * 1 == s);
            }
            assert(s * p == s) by (nonlinear_arith)
                requires
                    p == 1,
            ;
            assert(round_half_even((10 * s) as nat, 1) == 10 * s) by {
                vstd::arithmetic::div_mod::lemma_div_basics((10 * s) as int);
                assert((10 * s) as int % 1 == 0);
            }
        }
        10 * s
    } else if s == 0 {
        proof {
            assert(0 * p == 0);
            assert(nearest_f64(m as nat) == m) by {
                lemma_small_is_exact(m as nat);
            }
        }
        div_half_even(10 * m, p)
    } else {
        let mut w: u128 = 1;
        let ghost mut i: nat = 0;
        let mut a: u128 = s;
        proof {
            assert(s * 1 == s);
        }
        while a < TWO52
            invariant
                1 <= s < TWO53,
                a == s * w,
                w == pow2(i),
                1 <= w <= a,
                a < TWO53,
            decreases TWO53 - a,
        {
            proof {
                lemma_pow2_unfold(i + 1);
                assert(2 * a == s * (2 * w)) by (nonlinear_arith)
                    requires
                        a == s * w,
                ;
                i = i + 1;
            }
            a = 2 * a;
            w = 2 * w;
        }
        proof {
            // w < 2^53 < 2 * p, so i <= e.
            if i > e {
                lemma_pow2_unfold(e + 1);
                if i > e + 1 {
                    vstd::arithmetic::power2::lemma_pow2_strictly_increases(e + 1, i);
                }
                assert(false);
            }
            lemma_small_sum(s as nat, w as nat, i, p as nat, e, m as nat);
        }
        let d: u128 = p / w;
        let q: u128 = m / d;
        let r: u128 = m % d;
        proof {
            assert(q <= m) by (nonlinear_arith)
                requires
                    q == m / d,
                    d > 0,
            ;
            assert(d <= p) by (nonlinear_arith)
                requires
                    d == p / w,
                    w > 0,
            ;
        }
        let whole: u128 = a + q;
        let rounded: u128 = if 2 * r < d || (2 * r == d && whole % 2 == 0) {
            whole
        } else {
            whole + 1
        };
        proof {
            assert(nearest_f64((s * p + m) as nat) == rounded * d);
            assert(10 * (rounded * d) == (10 * rounded) * d) by (nonlinear_arith);
            lemma_round_common_factor((10 * rounded) as nat, w as nat, d as nat);
        }
        div_half_even(10 * rounded, w)
    }
}

proof fn lemma_small_is_exact(m: nat)
    requires
        m <= TWO53,
    ensures
        nearest_f64(m) == m,
{
    if m < TWO53 {
        assert(spacing(m) == 1);
        assert(m % 1 == 0);
        vstd::arithmetic::div_mod::lemma_div_basics(m as int);
        assert(m * 1 == m);
    } else {
        assert(spacing(TWO52 as nat) == 1);
        assert(spacing(m) == 2);
        assert(m % 2 == 0 && m / 2 == TWO52);
    }
}

/// The fraction part of a second is below one, and at least 2^52 of its units.
proof fn lemma_fraction_below_one(nanos: nat, p: nat, x: nat)
    requires
        nanos < NANOS_PER_SEC,
        x == nanos * p,
        x == 0 || x >= SCALE,
        x < 2 * SCALE,
        p >= 1,
        x == 0 ==> p == 1,
    ensures
        round_half_even(x, NANOS_PER_SEC as nat) < p,
        round_half_even(x, NANOS_PER_SEC as nat) <= TWO53,
        x > 0 ==> p > TWO52,
{
    if x == 0 {
        assert(round_half_even(0, NANOS_PER_SEC as nat) == 0);
    } else {
        assert(nanos * p <= 999_999_999 * p) by (nonlinear_arith)
            requires
                nanos <= 999_999_999,
        ;
        assert(p >= 4_503_599_631_874_095) by {
            assert(999_999_999 * p >= 4_503_599_627_370_496_000_000_000);
        }
    }
}

/// Rounding gives the nearest integer: at most half of the divisor away, and an even one
/// where two are as near.
pub proof fn law_round_is_nearest(n: nat, d: nat)
    requires
        d > 0,
    ensures
        -(d as int) <= 2 * (round_half_even(n, d) * d - n) <= d,
        2 * (round_half_even(n, d) * d - n) == d || 2 * (n - round_half_even(n, d) * d) == d
            ==> round_half_even(n, d) % 2 == 0,
{
    let q = n / d;
    let r = n % d;
    assert(n == q * d + r && 0 <= r < d) by (nonlinear_arith)
        requires
            q == n / d,
            r == n % d,
            d > 0,
    ;
    assert((q + 1) * d == q * d + d) by (nonlinear_arith);
}

/// The conversion to binary64 is exact below 2^53, and beyond that at most one part in 2^53
/// of the integer away.
pub proof fn law_conversion_is_near(v: nat)
    ensures
        v < TWO53 ==> nearest_f64(v) == v,
        -(v as int) <= TWO53 * (nearest_f64(v) - v) <= v,
{
    lemma_conversion_keeps_half(v);
    if v >= TWO53 {
        lemma_spacing_range(v);
        let s = spacing(v);
        law_round_is_nearest(v, s);
        let e = nearest_f64(v) - v;
        assert(-(s as int) <= 2 * e <= s);
        assert(TWO53 * e == TWO52 * (2 * e));
        assert(TWO52 * (2 * e) <= TWO52 * s) by (nonlinear_arith)
            requires
                2 * e <= s,
        ;
        assert(TWO52 * (2 * e) >= -(TWO52 * s)) by (nonlinear_arith)
            requires
                -(s as int) <= 2 * e,
        ;
    }
}

proof fn lemma_scaled(n: nat)
    requires
        n < 2 * SCALE,
    ensures
        scaled(n) == n * pow2(doublings(n)),
        n == 0 ==> doublings(n) == 0,
        n > 0 ==> SCALE <= scaled(n) < 2 * SCALE,
    decreases 2 * SCALE - n,
{
    if n == 0 || n >= SCALE {
        vstd::arithmetic::power2::lemma2_to64();
        assert(pow2(0) == 1);
        assert(n * 1 == n);
    } else {
        lemma_scaled_step(n);
        lemma_scaled(2 * n);
        lemma_pow2_unfold(doublings(n));
        let q = pow2(doublings(2 * n));
        assert((2 * n) * q == n * (2 * q)) by (nonlinear_arith);
    }
}

/// Tenths of a second are the nearest ones: at most half a tenth away, and for spans of up
/// to 2^32 seconds no more than another 500 nanoseconds.
pub proof fn law_tenths_are_near(secs: nat, nanos: nat)
    requires
        secs < 0x1_0000_0000,
        nanos < 1_000_000_000,
    ensures
        -50_000_500 <= seconds_tenths(secs, nanos) * 100_000_000 - (secs * 1_000_000_000 + nanos)
            <= 50_000_500,
{
    let p = pow2(doublings(nanos));
    let x = scaled(nanos);
    lemma_scaled(nanos);
    lemma_pow2_pos(doublings(nanos));
    vstd::arithmetic::power2::lemma2_to64();
    if nanos == 0 {
        assert(x == 0);
        assert(p == 1);
    } else {
        assert(p >= 1);
    }
    lemma_fraction_below_one(nanos, p, x);
    let n = nanos_numerator(nanos);
    law_round_is_nearest(x, 1_000_000_000);
    law_conversion_is_near(secs);
    let v = secs * p + n;
    let s = nearest_f64(v);
    law_conversion_is_near(v);
    let t = seconds_tenths(secs, nanos);
    assert(t == round_half_even(10 * s, p));
    law_round_is_nearest(10 * s, p);
    if nanos == 0 {
        assert(n == 0);
    }
    let a = t * p - 10 * s;
    let b = s - v;
    let c = n * 1_000_000_000 - x;
    let d = t * 100_000_000 - (secs * 1_000_000_000 + nanos);
    assert(v <= 0x1_0000_0000 * p) by (nonlinear_arith)
        requires
            v == secs * p + n,
            n < p,
            secs <= 0xFFFF_FFFF,
    ;
    assert(10 * (d * p) == 1_000_000_000 * a + 10_000_000_000 * b + 10 * c) by (nonlinear_arith)
        requires
            d == t * 100_000_000 - (secs * 1_000_000_000 + nanos),
            a == t * p - 10 * s,
            b == s - v,
            v == secs * p + n,
            c == n * 1_000_000_000 - x,
            x == nanos * p,
    ;
    assert(-50_000_500 * p <= d * p <= 50_000_500 * p);
    assert(-50_000_500 <= d <= 50_000_500) by (nonlinear_arith)
        requires
            -50_000_500 * p <= d * p <= 50_000_500 * p,
            p > 0,
    ;
}

} // verus!
