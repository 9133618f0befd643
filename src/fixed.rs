//! Fixed-point arithmetic in thousandths.
//!
//! Every length, rate, probability and time step of the simulation is an
//! `i64` counting thousandths of its unit (`1500` is 1.5). Stored values stay
//! within `[-LIMIT, LIMIT]`; intermediate products are formed in `i128`, then
//! divided with floor rounding and clamped back into range.
use vstd::prelude::*;
use vstd::arithmetic::div_mod::{lemma_fundamental_div_mod, lemma_fundamental_div_mod_converse_div};

verus! {

/// One whole unit, in thousandths.
pub const UNIT: i64 = 1000;

/// Bound on the magnitude of every stored fixed-point value.
pub const LIMIT: i64 = 1_000_000_000_000;

/// Bound on the magnitude of the `i128` intermediates that `floor_div` takes.
pub const WIDE: i128 = 10_000_000_000_000_000_000_000_000_000_000_000_000;

pub open spec fn in_range(v: int) -> bool {
    -LIMIT <= v <= LIMIT
}

pub open spec fn clamp_val(v: int) -> int {
    if v > LIMIT {
        LIMIT as int
    } else if v < -LIMIT {
        -LIMIT
    } else {
        v
    }
}

pub open spec fn min_int(a: int, b: int) -> int {
    if a <= b { a } else { b }
}

pub open spec fn max_int(a: int, b: int) -> int {
    if a >= b { a } else { b }
}

/// Floor division by a positive divisor (the spec `/` on `int`).
pub fn floor_div(a: i128, b: i128) -> (r: i128)
    requires
        0 < b <= WIDE,
        -WIDE <= a <= WIDE,
    ensures
        r == a / b,
{
    if a >= 0 {
        a / b
    } else {
        let n: i128 = -a + b - 1;
        let q: i128 = n / b;
        proof {
            lemma_fundamental_div_mod(n as int, b as int);
            let rem = n as int % b as int;
            assert(0 <= rem < b);
            let m = a as int + q as int * b as int;
            assert(m == b - 1 - rem) by (nonlinear_arith)
                requires
                    n as int == b as int * q as int + rem,
                    n as int == -(a as int) + b - 1,
                    m == a as int + q as int * b as int,
            ;
            assert(a as int == (-(q as int)) * (b as int) + m) by (nonlinear_arith)
                requires
                    m == a as int + q as int * b as int,
            ;
            lemma_fundamental_div_mod_converse_div(a as int, b as int, -(q as int), m);
        }
        -q
    }
}

/// Clamps a wide value into the stored range.
pub fn clamp_wide(v: i128) -> (r: i64)
    ensures
        r == clamp_val(v as int),
        in_range(r as int),
{
    if v > LIMIT as i128 {
        LIMIT
    } else if v < -(LIMIT as i128) {
        -LIMIT
    } else {
        v as i64
    }
}

pub proof fn lemma_mul_bound(a: int, b: int, ma: int, mb: int)
    requires
        -ma <= a <= ma,
        -mb <= b <= mb,
        ma >= 0,
        mb >= 0,
    ensures
        -(ma * mb) <= a * b <= ma * mb,
{
    assert(-(ma * mb) <= a * b <= ma * mb) by (nonlinear_arith)
        requires
            -ma <= a <= ma,
            -mb <= b <= mb,
            ma >= 0,
            mb >= 0,
    ;
}

/// `clamp(a * b / d)` with floor rounding.
pub fn mul_div(a: i64, b: i64, d: i64) -> (r: i64)
    requires
        in_range(a as int),
        in_range(b as int),
        d > 0,
    ensures
        r == clamp_val(a * b / d as int),
        in_range(r as int),
{
    proof {
        lemma_mul_bound(a as int, b as int, LIMIT as int, LIMIT as int);
    }
    let p: i128 = a as i128 * b as i128;
    clamp_wide(floor_div(p, d as i128))
}

/// `clamp(a * b * c / d)` with floor rounding.
pub fn mul3_div(a: i64, b: i64, c: i64, d: i64) -> (r: i64)
    requires
        in_range(a as int),
        in_range(b as int),
        in_range(c as int),
        d > 0,
    ensures
        r == clamp_val(a * b * c / d as int),
        in_range(r as int),
{
    proof {
        lemma_mul_bound(a as int, b as int, LIMIT as int, LIMIT as int);
        lemma_mul_bound(a * b, c as int, LIMIT * LIMIT, LIMIT as int);
    }
    let p: i128 = a as i128 * b as i128 * c as i128;
    clamp_wide(floor_div(p, d as i128))
}

/// `clamp(a + b)`.
pub fn add_val(a: i64, b: i64) -> (r: i64)
    requires
        in_range(a as int),
        in_range(b as int),
    ensures
        r == clamp_val(a + b),
        in_range(r as int),
{
    clamp_wide(a as i128 + b as i128)
}

/// `clamp(a - b)`.
pub fn sub_val(a: i64, b: i64) -> (r: i64)
    requires
        in_range(a as int),
        in_range(b as int),
    ensures
        r == clamp_val(a - b),
        in_range(r as int),
{
    clamp_wide(a as i128 - b as i128)
}

/// `s` is the integer square root of `n`: the largest `s` with `s * s <= n`.
pub open spec fn is_isqrt(n: int, s: int) -> bool {
    0 <= s && s * s <= n < (s + 1) * (s + 1)
}

pub open spec fn isqrt(n: int) -> int {
    choose|s: int| is_isqrt(n, s)
}

pub proof fn lemma_isqrt_unique(n: int, s: int, t: int)
    requires
        is_isqrt(n, s),
        is_isqrt(n, t),
    ensures
        s == t,
{
    if s < t {
        assert((s + 1) * (s + 1) <= t * t) by (nonlinear_arith)
            requires
                0 <= s,
                s + 1 <= t,
        ;
    } else if t < s {
        assert((t + 1) * (t + 1) <= s * s) by (nonlinear_arith)
            requires
                0 <= t,
                t + 1 <= s,
        ;
    }
}

/// Bound on the argument of `sqrt_floor`.
pub const SQRT_MAX: u128 = 4_000_000_000_000_000_000_000_000;

/// Integer square root by bisection.
pub fn sqrt_floor(n: u128) -> (r: u64)
    requires
        n <= SQRT_MAX,
    ensures
        r == isqrt(n as int),
        is_isqrt(n as int, r as int),
{
    let mut lo: u128 = 0;
    let mut hi: u128 = 2_000_000_000_001;
    assert(hi * hi > SQRT_MAX);
    while hi - lo > 1
        invariant
            lo < hi <= 2_000_000_000_001,
            lo * lo <= n,
            n < hi * hi,
        decreases hi - lo,
    {
        let mid: u128 = lo + (hi - lo) / 2;
        assert(mid * mid <= 2_000_000_000_001u128 * 2_000_000_000_001u128) by (nonlinear_arith)
            requires
                mid <= 2_000_000_000_001u128,
        ;
        if mid * mid <= n {
            lo = mid;
        } else {
            hi = mid;
        }
    }
    proof {
        assert(hi == lo + 1);
        assert(is_isqrt(n as int, lo as int));
        lemma_isqrt_unique(n as int, lo as int, isqrt(n as int));
    }
    lo as u64
}

/// `base` raised to the whole power `k`, all in thousandths, rounding down
/// after each factor.
pub open spec fn pow_whole(base: int, k: nat) -> int
    decreases k,
{
    if k == 0 {
        UNIT as int
    } else {
        pow_whole(base, (k - 1) as nat) * base / UNIT as int
    }
}

/// `base^(1/2^k)` in thousandths, by `k` square roots.
pub open spec fn root_chain(base: int, k: nat) -> int
    decreases k,
{
    if k == 0 {
        base
    } else {
        isqrt(root_chain(base, (k - 1) as nat) * UNIT)
    }
}

/// Weight of the `k`-th binary digit of a fraction counted in 1024ths.
pub open spec fn digit_weight(k: nat) -> int
    decreases k,
{
    if k == 0 {
        1024
    } else {
        digit_weight((k - 1) as nat) / 2
    }
}

/// `base^(bits / 1024)` from the first `k` binary digits of `bits`: the
/// product of `base^(1/2^i)` over the digits that are set.
pub open spec fn frac_pow(base: int, bits: int, k: nat) -> int
    decreases k,
{
    if k == 0 {
        UNIT as int
    } else {
        let rest = frac_pow(base, bits, (k - 1) as nat);
        if (bits / digit_weight(k)) % 2 == 1 {
            rest * root_chain(base, k) / UNIT as int
        } else {
            rest
        }
    }
}

/// `base` raised to the power `t` (all in thousandths): whole powers, times
/// `base` raised to the fraction of `t` to ten binary digits.
pub open spec fn decay_factor(base: int, t: int) -> int {
    pow_whole(base, (t / UNIT as int) as nat) * frac_pow(base, (t % UNIT as int) * 1024 / UNIT as int, 10)
        / UNIT as int
}

/// `base` raised to the fraction `f / 1000`, to ten binary digits.
fn fraction_power(base: i64, f: i64) -> (r: i64)
    requires
        0 <= base <= UNIT,
        0 <= f < UNIT,
    ensures
        r == frac_pow(base as int, f * 1024 / UNIT as int, 10),
        0 <= r <= UNIT,
{
    let bits: i64 = f * 1024 / UNIT;
    let mut root: i64 = base;
    let mut weight: i64 = 1024;
    let mut p: i64 = UNIT;
    let mut k: u64 = 0;
    while k < 10
        invariant
            0 <= bits < 1024,
            k <= 10,
            root == root_chain(base as int, k as nat),
            0 <= root <= UNIT,
            weight == digit_weight(k as nat),
            1 <= weight <= 1024,
            k < 10 ==> weight >= 2,
            p == frac_pow(base as int, bits as int, k as nat),
            0 <= p <= UNIT,
        decreases 10 - k,
    {
        let n: u128 = (root * UNIT) as u128;
        let next_root = sqrt_floor(n);
        assert(next_root <= 1000) by (nonlinear_arith)
            requires
                next_root * next_root <= n,
                n <= 1_000_000,
                next_root >= 0,
        ;
        root = next_root as i64;
        weight = weight / 2;
        k = k + 1;
        assert(digit_weight(k as nat) == digit_weight((k - 1) as nat) / 2);
        assert(k < 10 ==> weight >= 2) by {
            reveal_with_fuel(digit_weight, 11);
        }
        if (bits / weight) % 2 == 1 {
            assert(0 <= p * root <= UNIT * UNIT) by (nonlinear_arith)
                requires
                    0 <= p <= UNIT,
                    0 <= root <= UNIT,
            ;
            p = p * root / UNIT;
        }
    }
    p
}

pub proof fn lemma_pow_whole_bounds(base: int, k: nat)
    requires
        0 <= base < UNIT,
    ensures
        0 <= pow_whole(base, k) <= UNIT,
    decreases k,
{
    if k > 0 {
        lemma_pow_whole_bounds(base, (k - 1) as nat);
        let p = pow_whole(base, (k - 1) as nat);
        assert(0 <= p * base <= UNIT * UNIT) by (nonlinear_arith)
            requires
                0 <= p <= UNIT,
                0 <= base < UNIT,
        ;
    }
}

pub proof fn lemma_pow_whole_zero(base: int, k: nat, m: nat)
    requires
        0 <= base < UNIT,
        pow_whole(base, k) == 0,
        k <= m,
    ensures
        pow_whole(base, m) == 0,
    decreases m - k,
{
    if k < m {
        lemma_pow_whole_zero(base, k, (m - 1) as nat);
    }
}

/// Decay factor `base^t` for `0 <= base < UNIT` and `t >= 0`.
pub fn decay(base: i64, t: i64) -> (r: i64)
    requires
        0 <= base < UNIT,
        0 <= t <= LIMIT,
    ensures
        r == decay_factor(base as int, t as int),
        0 <= r <= UNIT,
{
    let k: i64 = t / UNIT;
    let mut p: i64 = UNIT;
    let mut i: i64 = 0;
    while i < k && p > 0
        invariant
            0 <= base < UNIT,
            0 <= i <= k,
            k == t as int / UNIT as int,
            p == pow_whole(base as int, i as nat),
            0 <= p <= UNIT,
        decreases k - i,
    {
        proof {
            lemma_pow_whole_bounds(base as int, (i + 1) as nat);
        }
        p = p * base / UNIT;
        i = i + 1;
    }
    proof {
        if i < k {
            lemma_pow_whole_zero(base as int, i as nat, k as nat);
        }
    }
    let f: i64 = t % UNIT;
    let step = fraction_power(base, f);
    assert(0 <= p * step <= UNIT * UNIT) by (nonlinear_arith)
        requires
            0 <= p <= UNIT,
            0 <= step <= UNIT,
    ;
    p * step / UNIT
}

} // verus!
