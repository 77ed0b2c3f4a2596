//! Fixed-point arithmetic for neuron values.
//!
//! A neuron value is an `i64` counting units of 1/65536 (`ONE` is 1.0), of
//! magnitude at most `LIMIT`. Sums and weighted values saturate at `LIMIT`.
//! An activation whose result is not finite (a division by zero, the root of
//! a negative number, an exponential past `LIMIT`) gives 0.

use vstd::prelude::*;

verus! {

/// 1.0.
pub const ONE: i64 = 65536;

/// The largest magnitude a neuron value may have.
pub const LIMIT: i64 = 0x100_0000_0000;

/// A weight `w` (the 16-bit field read as signed) scales a value by
/// `w / WEIGHT_SCALE`, so weights span [-4, 4).
pub const WEIGHT_SCALE: i64 = 8192;

/// Largest argument, in units, whose exponential `exp_fx` is asked for; past it
/// the exponential exceeds `LIMIT` anyway.
pub const EXP_ARG_MAX: i64 = 17 * 65536;

/// Ceiling kept while squaring in `exp_fx`; above `LIMIT`, so reaching it
/// means the result is out of range.
pub const EXP_CAP: i64 = 0x200_0000_0000;

pub open spec fn in_range(v: int) -> bool {
    -LIMIT <= v <= LIMIT
}

/// Saturation to the range of values.
pub open spec fn clamp(v: int) -> int {
    if v > LIMIT {
        LIMIT as int
    } else if v < -LIMIT {
        -LIMIT
    } else {
        v
    }
}

/// Quotient rounded toward zero, as Rust's `/` on signed integers.
pub open spec fn quot(a: int, b: int) -> int {
    if a >= 0 {
        a / b
    } else {
        -((-a) / b)
    }
}

/// The 16-bit weight field read as a signed number.
pub open spec fn signed_weight(w: u16) -> int {
    if w < 0x8000 {
        w as int
    } else {
        w - 0x10000
    }
}

/// A value scaled by a weight, saturating at `LIMIT`.
pub open spec fn weighted(v: int, w: u16) -> int {
    clamp(quot(v * signed_weight(w), WEIGHT_SCALE as int))
}

/// Bounds of a quotient of non-negative numbers.
pub proof fn lemma_div_bounds(n: int, d: int, k: int)
    requires
        0 <= n <= k * d,
        d > 0,
    ensures
        0 <= n / d <= k,
{
    vstd::arithmetic::div_mod::lemma_fundamental_div_mod(n, d);
    let q = n / d;
    let r = n % d;
    assert(0 <= r < d);
    assert(0 <= q <= k) by (nonlinear_arith)
        requires
            n == d * q + r,
            0 <= r < d,
            0 <= n <= k * d,
            d > 0,
    ;
}

/// Adds two values, saturating at `LIMIT`.
pub fn sat_add(a: i64, b: i64) -> (r: i64)
    requires
        in_range(a as int),
        in_range(b as int),
    ensures
        r == clamp(a + b),
{
    let s = a + b;
    if s > LIMIT {
        LIMIT
    } else if s < -LIMIT {
        -LIMIT
    } else {
        s
    }
}

/// Scales a value by a weight.
pub fn weigh(v: i64, w: u16) -> (r: i64)
    requires
        in_range(v as int),
    ensures
        r == weighted(v as int, w),
        in_range(r as int),
{
    let sw: i64 = if w < 0x8000 {
        w as i64
    } else {
        w as i64 - 0x10000
    };
    assert(sw == signed_weight(w));
    assert(-LIMIT * 0x8000 <= v * sw <= LIMIT * 0x8000) by (nonlinear_arith)
        requires
            in_range(v as int),
            -0x8000 <= sw <= 0x8000,
    ;
    let p = v * sw;
    let q = if p >= 0 {
        proof {
            lemma_div_bounds(p as int, WEIGHT_SCALE as int, 4 * LIMIT);
        }
        p / WEIGHT_SCALE
    } else {
        proof {
            lemma_div_bounds(-p, WEIGHT_SCALE as int, 4 * LIMIT);
        }
        -((-p) / WEIGHT_SCALE)
    };
    if q > LIMIT {
        LIMIT
    } else if q < -LIMIT {
        -LIMIT
    } else {
        q
    }
}

/// Rational approximation of tanh on non-negative arguments: the [3/2] Padé
/// approximant, which reaches 1 at 3 and is held there.
pub open spec fn tanh_pos(a: int) -> int {
    if a >= 3 * ONE {
        ONE as int
    } else {
        (a * (27 * ONE * ONE + a * a)) / (27 * ONE * ONE + 9 * a * a)
    }
}

/// Fixed-point tanh: odd, in [-ONE, ONE].
pub open spec fn tanh_fx(x: int) -> int {
    if x < 0 {
        -tanh_pos(-x)
    } else {
        tanh_pos(x)
    }
}

proof fn lemma_tanh_pos_bounds(a: int)
    requires
        0 <= a,
    ensures
        0 <= tanh_pos(a) <= ONE,
{
    if a < 3 * ONE {
        let k = ONE as int;
        let n = a * (27 * k * k + a * a);
        let d = 27 * k * k + 9 * a * a;
        assert(0 <= n) by (nonlinear_arith)
            requires
                n == a * (27 * k * k + a * a),
                0 <= a,
        ;
        assert(n <= k * d) by (nonlinear_arith)
            requires
                n == a * (27 * k * k + a * a),
                d == 27 * k * k + 9 * a * a,
                0 <= a < 3 * k,
                k > 0,
        {
            assert((3 * k - a) * (3 * k - a) * (3 * k - a) >= 0);
        }
        assert(d > 0);
        lemma_div_bounds(n, d, k);
    }
}

pub proof fn lemma_tanh_bounds(x: int)
    ensures
        -ONE <= tanh_fx(x) <= ONE,
        x > 0 ==> tanh_fx(x) >= 0,
        x < 0 ==> tanh_fx(x) <= 0,
{
    if x < 0 {
        lemma_tanh_pos_bounds(-x);
    } else {
        lemma_tanh_pos_bounds(x);
    }
}

fn tanh_nonneg(a: i64) -> (r: i64)
    requires
        0 <= a <= LIMIT,
    ensures
        r == tanh_pos(a as int),
{
    if a >= 3 * ONE {
        ONE
    } else {
        assert(a * a < 9 * ONE * ONE) by (nonlinear_arith)
            requires
                0 <= a < 3 * ONE,
        ;
        let a2 = a * a;
        let n1 = 27 * ONE * ONE + a2;
        assert(a * n1 <= 3 * ONE * (36 * ONE * ONE)) by (nonlinear_arith)
            requires
                0 <= a < 3 * ONE,
                0 <= n1 <= 36 * ONE * ONE,
        ;
        let n = a * n1;
        let d = 27 * ONE * ONE + 9 * a2;
        assert(9 * a2 == 9 * a * a) by (nonlinear_arith)
            requires
                a2 == a * a,
        ;
        assert(0 <= n) by (nonlinear_arith)
            requires
                0 <= a,
                0 <= n1,
                n == a * n1,
        ;
        n / d
    }
}

/// Fixed-point tanh.
pub fn tanh(x: i64) -> (r: i64)
    requires
        in_range(x as int),
    ensures
        r == tanh_fx(x as int),
        -ONE <= r <= ONE,
{
    proof {
        lemma_tanh_bounds(x as int);
    }
    if x < 0 {
        -tanh_nonneg(-x)
    } else {
        tanh_nonneg(x)
    }
}

/// Start of `exp_fx`: the series 1 + y + y^2/2 for y = a/256.
pub open spec fn exp_start(a: int) -> int {
    ONE + a / 256 + (a / 256) * (a / 256) / (2 * ONE)
}

/// `n` squarings of a fixed-point value, each held at `EXP_CAP`.
pub open spec fn squarings(z: int, n: nat) -> int
    decreases n,
{
    if n == 0 {
        z
    } else {
        let sq = z * z / (ONE as int);
        squarings(if sq > EXP_CAP { EXP_CAP as int } else { sq }, (n - 1) as nat)
    }
}

/// Fixed-point exponential of a non-negative argument: e^a as (e^(a/256))^256,
/// where e^(a/256) is taken from its series.
pub open spec fn exp_fx(a: int) -> int {
    squarings(exp_start(a), 8)
}

/// Fixed-point cosh; 0 where the result is out of range.
pub open spec fn cosh_fx(x: int) -> int {
    let a = if x < 0 { -x } else { x };
    if a > EXP_ARG_MAX || exp_fx(a) > LIMIT {
        0
    } else {
        (exp_fx(a) + ONE * ONE / exp_fx(a)) / 2
    }
}

/// Fixed-point sinh; 0 where the result is out of range.
pub open spec fn sinh_fx(x: int) -> int {
    let a = if x < 0 { -x } else { x };
    if a > EXP_ARG_MAX || exp_fx(a) > LIMIT {
        0
    } else {
        let m = (exp_fx(a) - ONE * ONE / exp_fx(a)) / 2;
        if x < 0 {
            -m
        } else {
            m
        }
    }
}

fn exp_nonneg(a: i64) -> (r: i64)
    requires
        0 <= a <= EXP_ARG_MAX,
    ensures
        r == exp_fx(a as int),
        ONE <= r <= EXP_CAP,
{
    let y = a / 256;
    assert(0 <= y <= 4352);
    assert(y * y <= 4352 * 4352) by (nonlinear_arith)
        requires
            0 <= y <= 4352,
    ;
    let mut z: i128 = (ONE + y + y * y / (2 * ONE)) as i128;
    assert(y * y / (2 * ONE as int) >= 0) by (nonlinear_arith)
        requires
            0 <= y,
    ;
    let mut i: usize = 0;
    while i < 8
        invariant
            0 <= i <= 8,
            ONE <= z <= EXP_CAP,
            squarings(z as int, (8 - i) as nat) == exp_fx(a as int),
        decreases 8 - i,
    {
        assert(z * z <= (EXP_CAP as int) * (EXP_CAP as int)) by (nonlinear_arith)
            requires
                0 <= z <= EXP_CAP,
        ;
        assert(z * z >= (ONE as int) * (ONE as int)) by (nonlinear_arith)
            requires
                ONE <= z,
        ;
        let sq: i128 = z * z / (ONE as i128);
        proof {
            vstd::arithmetic::div_mod::lemma_div_is_ordered((ONE as int) * (ONE as int), z * z, ONE as int);
            vstd::arithmetic::div_mod::lemma_div_by_multiple(ONE as int, ONE as int);
        }
        z = if sq > EXP_CAP as i128 {
            EXP_CAP as i128
        } else {
            sq
        };
        i = i + 1;
    }
    z as i64
}

/// Fixed-point cosh.
pub fn cosh(x: i64) -> (r: i64)
    requires
        in_range(x as int),
    ensures
        r == cosh_fx(x as int),
        in_range(r as int),
{
    let a = if x < 0 {
        -x
    } else {
        x
    };
    if a > EXP_ARG_MAX {
        return 0;
    }
    let e = exp_nonneg(a);
    if e > LIMIT {
        return 0;
    }
    proof {
        lemma_div_bounds((ONE * ONE) as int, e as int, ONE as int);
    }
    (e + ONE * ONE / e) / 2
}

/// Fixed-point sinh.
pub fn sinh(x: i64) -> (r: i64)
    requires
        in_range(x as int),
    ensures
        r == sinh_fx(x as int),
        in_range(r as int),
{
    let a = if x < 0 {
        -x
    } else {
        x
    };
    if a > EXP_ARG_MAX {
        return 0;
    }
    let e = exp_nonneg(a);
    if e > LIMIT {
        return 0;
    }
    proof {
        lemma_div_bounds((ONE * ONE) as int, e as int, ONE as int);
    }
    let m = (e - ONE * ONE / e) / 2;
    if x < 0 {
        -m
    } else {
        m
    }
}

/// `r` is the integer square root of `n`.
pub open spec fn is_root(n: int, r: int) -> bool {
    0 <= r && r * r <= n < (r + 1) * (r + 1)
}

/// The integer square root.
pub open spec fn root(n: int) -> int {
    choose|r: int| is_root(n, r)
}

proof fn lemma_root_unique(n: int, r: int, s: int)
    requires
        is_root(n, r),
        is_root(n, s),
    ensures
        r == s,
{
    if r < s {
        assert((r + 1) * (r + 1) <= s * s) by (nonlinear_arith)
            requires
                0 <= r < s,
        ;
    } else if s < r {
        assert((s + 1) * (s + 1) <= r * r) by (nonlinear_arith)
            requires
                0 <= s < r,
        ;
    }
}

/// Integer square root, by bisection.
pub fn isqrt(n: i64) -> (r: i64)
    requires
        0 <= n <= LIMIT * ONE,
    ensures
        r == root(n as int),
        is_root(n as int, r as int),
{
    let mut lo: i64 = 0;
    let mut hi: i64 = 0x2000_0000;
    assert(n < hi * hi) by (nonlinear_arith)
        requires
            n <= LIMIT * ONE,
            hi == 0x2000_0000,
    ;
    while lo + 1 < hi
        invariant
            0 <= lo < hi <= 0x2000_0000,
            lo * lo <= n < hi * hi,
        decreases hi - lo,
    {
        let mid = lo + (hi - lo) / 2;
        assert(mid * mid <= 0x2000_0000 * 0x2000_0000) by (nonlinear_arith)
            requires
                0 <= mid <= 0x2000_0000,
        ;
        if mid * mid <= n {
            lo = mid;
        } else {
            hi = mid;
        }
    }
    proof {
        assert(is_root(n as int, lo as int));
        lemma_root_unique(n as int, lo as int, root(n as int));
    }
    lo
}

} // verus!
