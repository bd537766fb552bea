//! Signed 32.32 fixed-point arithmetic.
//!
//! Every quantity the renderer computes with is an `i64` holding a real
//! number scaled by `ONE` = 2^32.  All operations saturate at the `i64`
//! range instead of overflowing, and every operation's result is pinned
//! exactly by its contract, so the whole pipeline built on top of them is a
//! deterministic function of its inputs.

use vstd::prelude::*;

verus! {

/// The fixed-point unit: 2^32.
pub const ONE: i64 = 4294967296;

/// One half in fixed point.
pub const HALF: i64 = 2147483648;

/// Truncating division (round toward zero) by a positive divisor, the
/// semantics of the executable operations below.
pub open spec fn tdiv(a: int, b: int) -> int {
    if a >= 0 {
        a / b
    } else {
        -((-a) / b)
    }
}

/// Saturate an unbounded integer into the `i64` range.
pub open spec fn sat64(x: int) -> int {
    if x > i64::MAX {
        i64::MAX as int
    } else if x < i64::MIN {
        i64::MIN as int
    } else {
        x
    }
}

/// The exact value of fixed-point multiplication.
pub open spec fn fmul_s(a: int, b: int) -> int {
    sat64(tdiv(a * b, ONE as int))
}

/// The exact value of fixed-point division (`b != 0`): the numerator and
/// divisor are rewritten so the divisor is the positive magnitude.
pub open spec fn fdiv_s(a: int, b: int) -> int {
    if b >= 0 {
        sat64(tdiv(a * (ONE as int), b))
    } else {
        sat64(tdiv(-(a * (ONE as int)), -b))
    }
}

/// The exact value of saturating addition.
pub open spec fn sat_add_s(a: int, b: int) -> int {
    sat64(a + b)
}

/// The exact value of saturating subtraction.
pub open spec fn sat_sub_s(a: int, b: int) -> int {
    sat64(a - b)
}


/// `fmul` as an `i64`-typed spec value, so composite computations can be
/// mirrored in spec code word for word.
pub open spec fn fmul_fx(a: i64, b: i64) -> i64 {
    fmul_s(a as int, b as int) as i64
}

/// `fdiv` as an `i64`-typed spec value.
pub open spec fn fdiv_fx(a: i64, b: i64) -> i64 {
    fdiv_s(a as int, b as int) as i64
}

/// `sat_add` as an `i64`-typed spec value.
pub open spec fn sat_add_fx(a: i64, b: i64) -> i64 {
    sat_add_s(a as int, b as int) as i64
}

/// `sat_sub` as an `i64`-typed spec value.
pub open spec fn sat_sub_fx(a: i64, b: i64) -> i64 {
    sat_sub_s(a as int, b as int) as i64
}

/// Clamp a signed magnitude (given as sign flag and magnitude) into `i64`.
fn sat_from_parts(neg: bool, q: u128) -> (r: i64)
    ensures
        r == sat64(if neg { -(q as int) } else { q as int }),
{
    if neg {
        if q >= 9223372036854775808u128 {
            i64::MIN
        } else {
            -(q as i64)
        }
    } else {
        if q > 9223372036854775807u128 {
            i64::MAX
        } else {
            q as i64
        }
    }
}

/// Saturating fixed-point multiplication: `a * b`, scaled.
#[verifier::when_used_as_spec(fmul_fx)]
pub fn fmul(a: i64, b: i64) -> (r: i64)
    ensures
        r == fmul_s(a as int, b as int),
        r == fmul_fx(a, b),
{
    proof {
        assert((a as int) * (b as int) <= i128::MAX && (a as int) * (b as int) >= i128::MIN + 1)
            by (nonlinear_arith)
            requires i64::MIN <= a <= i64::MAX && i64::MIN <= b <= i64::MAX;
    }
    let p: i128 = (a as i128) * (b as i128);
    let neg: bool = p < 0;
    let mag: u128 = if p < 0 {
        (-p) as u128
    } else {
        p as u128
    };
    let q: u128 = mag / 4294967296u128;
    sat_from_parts(neg, q)
}

/// Saturating fixed-point division: `a / b`, scaled.  The divisor must be
/// nonzero; callers establish that before dividing.
#[verifier::when_used_as_spec(fdiv_fx)]
pub fn fdiv(a: i64, b: i64) -> (r: i64)
    requires
        b != 0,
    ensures
        r == fdiv_s(a as int, b as int),
        r == fdiv_fx(a, b),
{
    proof {
        assert((a as int) * (ONE as int) <= i128::MAX && (a as int) * (ONE as int) >= i128::MIN
            + 1) by (nonlinear_arith)
            requires i64::MIN <= a <= i64::MAX && ONE == 4294967296;
    }
    let p: i128 = (a as i128) * (ONE as i128);
    let neg: bool = (p < 0) != (b < 0);
    let pm: u128 = if p < 0 {
        (-p) as u128
    } else {
        p as u128
    };
    let bm: u128 = if b < 0 {
        (-(b as i128)) as u128
    } else {
        (b as i128) as u128
    };
    let q: u128 = pm / bm;
    sat_from_parts(neg, q)
}

/// Saturating addition.
#[verifier::when_used_as_spec(sat_add_fx)]
pub fn sat_add(a: i64, b: i64) -> (r: i64)
    ensures
        r == sat_add_s(a as int, b as int),
        r == sat_add_fx(a, b),
{
    let s: i128 = (a as i128) + (b as i128);
    if s > (i64::MAX as i128) {
        i64::MAX
    } else if s < (i64::MIN as i128) {
        i64::MIN
    } else {
        s as i64
    }
}

/// Saturating subtraction.
#[verifier::when_used_as_spec(sat_sub_fx)]
pub fn sat_sub(a: i64, b: i64) -> (r: i64)
    ensures
        r == sat_sub_s(a as int, b as int),
        r == sat_sub_fx(a, b),
{
    let s: i128 = (a as i128) - (b as i128);
    if s > (i64::MAX as i128) {
        i64::MAX
    } else if s < (i64::MIN as i128) {
        i64::MIN
    } else {
        s as i64
    }
}

/// `exp(-2^(k-32))` in fixed point, one entry per bit of the argument;
/// entries for bits past 36 round to zero.
pub open spec fn e_bit(k: int) -> int {
    if k == 0 {
        4294967295
    } else if k == 1 {
        4294967294
    } else if k == 2 {
        4294967292
    } else if k == 3 {
        4294967288
    } else if k == 4 {
        4294967280
    } else if k == 5 {
        4294967264
    } else if k == 6 {
        4294967232
    } else if k == 7 {
        4294967168
    } else if k == 8 {
        4294967040
    } else if k == 9 {
        4294966784
    } else if k == 10 {
        4294966272
    } else if k == 11 {
        4294965248
    } else if k == 12 {
        4294963200
    } else if k == 13 {
        4294959104
    } else if k == 14 {
        4294950912
    } else if k == 15 {
        4294934528
    } else if k == 16 {
        4294901760
    } else if k == 17 {
        4294836226
    } else if k == 18 {
        4294705160
    } else if k == 19 {
        4294443040
    } else if k == 20 {
        4293918848
    } else if k == 21 {
        4292870656
    } else if k == 22 {
        4290775039
    } else if k == 23 {
        4286586875
    } else if k == 24 {
        4278222805
    } else if k == 25 {
        4261543595
    } else if k == 26 {
        4228380000
    } else if k == 27 {
        4162825044
    } else if k == 28 {
        4034748382
    } else if k == 29 {
        3790295335
    } else if k == 30 {
        3344923893
    } else if k == 31 {
        2605029347
    } else if k == 32 {
        1580030169
    } else if k == 33 {
        581260615
    } else if k == 34 {
        78665070
    } else if k == 35 {
        1440801
    } else if k == 36 {
        483
    } else if k == 37 {
        0
    } else {
        0
    }
}

/// Executable twin of `e_bit`.
fn e_bit_exec(k: u32) -> (r: i64)
    ensures
        r == e_bit(k as int),
        0 <= r <= ONE,
{
    match k {
        0 => 4294967295,
        1 => 4294967294,
        2 => 4294967292,
        3 => 4294967288,
        4 => 4294967280,
        5 => 4294967264,
        6 => 4294967232,
        7 => 4294967168,
        8 => 4294967040,
        9 => 4294966784,
        10 => 4294966272,
        11 => 4294965248,
        12 => 4294963200,
        13 => 4294959104,
        14 => 4294950912,
        15 => 4294934528,
        16 => 4294901760,
        17 => 4294836226,
        18 => 4294705160,
        19 => 4294443040,
        20 => 4293918848,
        21 => 4292870656,
        22 => 4290775039,
        23 => 4286586875,
        24 => 4278222805,
        25 => 4261543595,
        26 => 4228380000,
        27 => 4162825044,
        28 => 4034748382,
        29 => 3790295335,
        30 => 3344923893,
        31 => 2605029347,
        32 => 1580030169,
        33 => 581260615,
        34 => 78665070,
        35 => 1440801,
        36 => 483,
        37 => 0,
        _ => 0,
    }
}

/// The bit-by-bit product that defines the fixed-point `exp(-x)`:
/// for every set bit `k` of `x`, multiply by `e_bit(k)`.
pub open spec fn expn_loop(x: u64, k: nat, acc: int) -> int
    decreases 38 - k,
{
    if k >= 38 {
        acc
    } else {
        let acc2 = if (x >> (k as u64)) & 1 == 1 {
            tdiv(acc * e_bit(k as int), ONE as int)
        } else {
            acc
        };
        expn_loop(x, (k + 1) as nat, acc2)
    }
}

/// The exact value of the fixed-point `exp(-x)` for `x >= 0`; arguments of
/// 32 or more (in real units) underflow to zero.
pub open spec fn exp_neg_s(x: int) -> int {
    if x >= 137438953472 {
        0
    } else {
        expn_loop(x as u64, 0, ONE as int)
    }
}

/// `exp_neg` as an `i64`-typed spec value.
pub open spec fn exp_neg_fx(x: i64) -> i64 {
    exp_neg_s(x as int) as i64
}

/// Fixed-point `exp(-x)` for nonnegative `x`.
#[verifier::when_used_as_spec(exp_neg_fx)]
pub fn exp_neg(x: i64) -> (r: i64)
    requires
        x >= 0,
    ensures
        r == exp_neg_s(x as int),
        r == exp_neg_fx(x),
        0 <= r <= ONE,
        x == 0 ==> r == ONE,
{
    if x >= 137438953472 {
        return 0;
    }
    let xu: u64 = x as u64;
    let mut acc: i64 = ONE;
    let mut k: u32 = 0;
    while k < 38
        invariant
            0 <= acc <= ONE,
            k <= 38,
            expn_loop(xu, k as nat, acc as int) == expn_loop(xu, 0, ONE as int),
            xu == 0 ==> acc == ONE,
        decreases 38 - k,
    {
        if (xu >> (k as u64)) & 1 == 1 {
            let e = e_bit_exec(k);
            proof {
                assert(0 <= (acc as int) * (e as int) <= (ONE as int) * (ONE as int))
                    by (nonlinear_arith)
                    requires 0 <= acc <= ONE && 0 <= e <= ONE;
                assert(tdiv((acc as int) * (e as int), ONE as int) <= ONE) by (nonlinear_arith)
                    requires
                        0 <= (acc as int) * (e as int) <= (ONE as int) * (ONE as int)
                            && ONE == 4294967296;
                assert(xu != 0) by (bit_vector)
                    requires (xu >> (k as u64)) & 1 == 1;
            }
            acc = fmul(acc, e);
        }
        k += 1;
    }
    acc
}

/// The exact value of the fixed-point `exp(x)`: the reciprocal of
/// `exp(-x)`, saturating where the reciprocal underflows.
pub open spec fn exp_pos_s(x: int) -> int {
    if x <= -137438953472 {
        0
    } else if x <= 0 {
        exp_neg_s(-x)
    } else {
        let e = exp_neg_s(x);
        if e == 0 {
            i64::MAX as int
        } else {
            fdiv_s(ONE as int, e)
        }
    }
}

/// `exp_pos` as an `i64`-typed spec value.
pub open spec fn exp_pos_fx(x: i64) -> i64 {
    exp_pos_s(x as int) as i64
}

/// Fixed-point `exp(x)` for either sign.
#[verifier::when_used_as_spec(exp_pos_fx)]
pub fn exp_pos(x: i64) -> (r: i64)
    ensures
        r == exp_pos_s(x as int),
        r == exp_pos_fx(x),
        r >= 0,
{
    if x <= -137438953472 {
        0
    } else if x <= 0 {
        exp_neg(-x)
    } else {
        let e = exp_neg(x);
        if e == 0 {
            i64::MAX
        } else {
            let r = fdiv(ONE, e);
            proof {
                assert(tdiv((ONE as int) * (ONE as int), e as int) >= 0) by (nonlinear_arith)
                    requires e > 0 && ONE == 4294967296;
            }
            r
        }
    }
}

/// `sigmoid` as an `i64`-typed spec value.
pub open spec fn sigmoid_fx(x: i64) -> i64 {
    sigmoid_s(x as int) as i64
}

/// The exact value of the fixed-point logistic function.
pub open spec fn sigmoid_s(x: int) -> int {
    if x <= -137438953472 {
        0
    } else if x >= 0 {
        fdiv_s(ONE as int, sat_add_s(ONE as int, exp_neg_s(x)))
    } else {
        let e = exp_neg_s(-x);
        fdiv_s(e, sat_add_s(ONE as int, e))
    }
}

/// Fixed-point logistic function `1 / (1 + exp(-x))`, the opacity
/// nonlinearity.  Saturated negative inputs give exactly zero and
/// saturated positive inputs give exactly `ONE`.
#[verifier::when_used_as_spec(sigmoid_fx)]
pub fn sigmoid(x: i64) -> (r: i64)
    ensures
        r == sigmoid_s(x as int),
        r == sigmoid_fx(x),
        0 <= r <= ONE,
{
    if x <= -137438953472 {
        0
    } else if x >= 0 {
        let e = exp_neg(x);
        let r = fdiv(ONE, sat_add(ONE, e));
        proof {
            lemma_ratio_le_one(ONE as int, (ONE + e) as int);
        }
        r
    } else {
        let e = exp_neg(-x);
        let r = fdiv(e, sat_add(ONE, e));
        proof {
            lemma_ratio_le_one(e as int, (ONE + e) as int);
        }
        r
    }
}

/// `0 <= a <= b` makes the fixed-point ratio `a/b` land in `[0, ONE]`.
proof fn lemma_ratio_le_one(a: int, b: int)
    requires
        0 <= a <= b,
        b > 0,
    ensures
        0 <= fdiv_s(a, b) <= ONE,
{
    assert(0 <= a * (ONE as int) <= b * (ONE as int)) by (nonlinear_arith)
        requires 0 <= a <= b && ONE == 4294967296;
    assert(tdiv(a * (ONE as int), b) <= ONE) by (nonlinear_arith)
        requires 0 <= a * (ONE as int) <= b * (ONE as int) && b > 0 && ONE == 4294967296;
    assert(tdiv(a * (ONE as int), b) >= 0) by (nonlinear_arith)
        requires a * (ONE as int) >= 0 && b > 0;
}

/// Integer square root of a 96-bit value, digit by digit.
pub fn isqrt128(y: u128) -> (r: u128)
    requires
        y < 79228162514264337593543950336u128,  // 2^96
    ensures
        (r as int) * (r as int) <= y as int,
        ((r as int) + 1) * ((r as int) + 1) > y as int,
        r < 281474976710656u128,  // 2^48
{
    let mut r: u128 = 0;
    let mut b: u128 = 281474976710656u128;  // 2^48
    proof {
        assert((281474976710656 as int) * (281474976710656 as int)
            == 79228162514264337593543950336) by (nonlinear_arith);
        assert(281474976710656u128 & 281474976710655u128 == 0) by (bit_vector);
    }
    while b > 1
        invariant
            y < 79228162514264337593543950336u128,
            (r as int) * (r as int) <= y as int,
            ((r as int) + (b as int)) * ((r as int) + (b as int)) > y as int,
            r + b <= 281474976710656u128,
            b >= 1,
            b & ((b - 1) as u128) == 0,
        decreases b,
    {
        proof {
            assert(((b & ((b - 1) as u128)) == 0 && b > 1) ==> (b % 2 == 0 && (b / 2) & ((b / 2
                - 1) as u128) == 0 && b / 2 >= 1)) by (bit_vector);
        }
        b = b / 2;
        let cand: u128 = r + b;
        proof {
            assert((cand as int) * (cand as int) <= (281474976710656 as int)
                * (281474976710656 as int)) by (nonlinear_arith)
                requires 0 <= cand <= 281474976710656;
            assert((281474976710656 as int) * (281474976710656 as int)
                == 79228162514264337593543950336) by (nonlinear_arith);
        }
        let sq: u128 = cand * cand;
        if sq <= y {
            r = cand;
        }
        proof {
            assert(((r as int) + (b as int)) * ((r as int) + (b as int)) > y as int);
        }
    }
    r
}

/// What it means to be the fixed-point square root of `x`.
pub open spec fn is_fsqrt(x: i64, r: i64) -> bool {
    r >= 0 && (r as int) * (r as int) <= (x as int) * (ONE as int) && ((r as int) + 1) * ((
    r as int) + 1) > (x as int) * (ONE as int)
}

/// The fixed-point square root as a spec value: the unique witness of
/// `is_fsqrt`.
pub open spec fn fsqrt_fx(x: i64) -> i64 {
    choose|r: i64| is_fsqrt(x, r)
}

/// There is only one fixed-point square root.
pub proof fn lemma_fsqrt_unique(x: i64, r1: i64, r2: i64)
    requires
        is_fsqrt(x, r1),
        is_fsqrt(x, r2),
    ensures
        r1 == r2,
{
    assert(!(r1 < r2) && !(r2 < r1)) by (nonlinear_arith)
        requires
            r1 >= 0 && r2 >= 0,
            (r1 as int) * (r1 as int) <= (x as int) * (ONE as int),
            ((r1 as int) + 1) * ((r1 as int) + 1) > (x as int) * (ONE as int),
            (r2 as int) * (r2 as int) <= (x as int) * (ONE as int),
            ((r2 as int) + 1) * ((r2 as int) + 1) > (x as int) * (ONE as int);
}

/// Fixed-point square root for nonnegative arguments: the unique `r` with
/// `r^2 <= x * ONE < (r+1)^2`.
#[verifier::when_used_as_spec(fsqrt_fx)]
pub fn fsqrt(x: i64) -> (r: i64)
    requires
        x >= 0,
    ensures
        r >= 0,
        (r as int) * (r as int) <= (x as int) * (ONE as int),
        ((r as int) + 1) * ((r as int) + 1) > (x as int) * (ONE as int),
        r == fsqrt_fx(x),
{
    let y: u128 = (x as u128) * 4294967296u128;
    proof {
        assert((x as int) * (ONE as int) < 79228162514264337593543950336) by (nonlinear_arith)
            requires 0 <= x <= i64::MAX && ONE == 4294967296;
    }
    let r = isqrt128(y);
    let ri = r as i64;
    proof {
        assert(is_fsqrt(x, ri));
        lemma_fsqrt_unique(x, ri, fsqrt_fx(x));
    }
    ri
}


/// The bit-product form of the exponential stays within the unit
/// interval.
proof fn lemma_expn_loop_range(x: u64, k: nat, acc: int)
    requires
        0 <= acc <= ONE,
    ensures
        0 <= expn_loop(x, k, acc) <= ONE,
    decreases 38 - k,
{
    if k >= 38 {
    } else {
        let e = e_bit(k as int);
        assert(0 <= e <= ONE);
        if (x >> (k as u64)) & 1 == 1 {
            assert(0 <= acc * e <= (ONE as int) * (ONE as int)) by (nonlinear_arith)
                requires 0 <= acc <= ONE && 0 <= e <= ONE;
            assert(0 <= tdiv(acc * e, ONE as int) <= ONE) by (nonlinear_arith)
                requires 0 <= acc * e <= (ONE as int) * (ONE as int) && ONE == 4294967296;
            lemma_expn_loop_range(x, (k + 1) as nat, tdiv(acc * e, ONE as int));
        } else {
            lemma_expn_loop_range(x, (k + 1) as nat, acc);
        }
    }
}

/// Multiplying by zero on the right gives zero.
pub proof fn lemma_fmul_zero(a: i64)
    ensures
        fmul_fx(a, 0) == 0,
{
    assert((a as int) * 0 == 0) by (nonlinear_arith);
}

/// Multiplying by zero on the left gives zero.
pub proof fn lemma_fmul_zero_l(b: i64)
    ensures
        fmul_fx(0, b) == 0,
{
    assert(0 * (b as int) == 0) by (nonlinear_arith);
}

/// The fixed-point `exp(-x)` lies in the unit interval.
pub proof fn lemma_exp_neg_range(x: i64)
    ensures
        0 <= exp_neg_s(x as int) <= ONE,
        0 <= exp_neg_fx(x) <= ONE,
{
    if (x as int) < 137438953472 {
        lemma_expn_loop_range(x as u64, 0, ONE as int);
    }
}

} // verus!
