//! Decimal fixed-point scalars and the rounding primitive.
//!
//! A `Scalar` denotes the rational number `m / 10^scale`. Rounding to a
//! precision `p` keeps a value that already has at most `p` decimal places
//! and otherwise divides the mantissa by `10^(scale - p)`, rounding half
//! away from zero.

use vstd::prelude::*;
use vstd::arithmetic::div_mod::{
    lemma_div_is_ordered, lemma_div_is_ordered_by_denominator, lemma_div_pos_is_pos,
    lemma_fundamental_div_mod, lemma_fundamental_div_mod_converse_div,
    lemma_mod_division_less_than_divisor, lemma_mod_bound,
};
use vstd::arithmetic::mul::lemma_mul_is_associative;

verus! {

/// Largest supported number of decimal places; scales and precisions
/// beyond it are a caller contract violation.
pub const MAX_PRECISION: u32 = 12;

/// `10^e`, the scaling factor that relates a mantissa to its value.
pub open spec fn pow10(e: nat) -> int
    decreases e,
{
    if e == 0 {
        1
    } else {
        10 * pow10((e - 1) as nat)
    }
}

pub proof fn lemma_pow10_pos(e: nat)
    ensures
        pow10(e) >= 1,
    decreases e,
{
    if e > 0 {
        lemma_pow10_pos((e - 1) as nat);
    }
}

pub proof fn lemma_pow10_increases(a: nat, b: nat)
    requires
        a <= b,
    ensures
        pow10(a) <= pow10(b),
    decreases b,
{
    if a < b {
        lemma_pow10_increases(a, (b - 1) as nat);
        lemma_pow10_pos((b - 1) as nat);
    }
}

pub proof fn lemma_pow10_adds(a: nat, b: nat)
    ensures
        pow10(a + b) == pow10(a) * pow10(b),
    decreases a,
{
    if a == 0 {
        assert(pow10(0 + b) == 1 * pow10(b));
    } else {
        lemma_pow10_adds((a - 1) as nat, b);
        assert(pow10((a + b - 1) as nat) == pow10((a - 1) as nat) * pow10(b));
        assert(10 * (pow10((a - 1) as nat) * pow10(b)) == (10 * pow10((a - 1) as nat)) * pow10(b))
            by (nonlinear_arith);
    }
}

pub proof fn lemma_pow10_max()
    ensures
        pow10(MAX_PRECISION as nat) == 1_000_000_000_000,
{
    reveal_with_fuel(pow10, 13);
}

/// A decimal fixed-point number denoting `m / 10^scale`.
#[derive(Clone, Copy, PartialEq, Eq, Structural, Debug)]
pub struct Scalar {
    /// Signed mantissa.
    pub m: i64,
    /// Number of decimal places: the denominator is `10^scale`.
    pub scale: u32,
}

impl Scalar {
    /// Validity: the scale indexes a supported power of ten and the
    /// mantissa can be negated without overflow.
    pub open spec fn wf(self) -> bool {
        &&& self.scale <= MAX_PRECISION
        &&& i64::MIN < self.m
    }

    /// The scalar carries at most `precision` decimal places.
    pub open spec fn is_rounded_to(self, precision: u32) -> bool {
        self.scale <= precision
    }
}

/// Executable form of `Scalar::wf`, for callers that must validate
/// values built outside the library before handing them to the pass.
pub fn scalar_is_wf(s: Scalar) -> (r: bool)
    ensures
        r == s.wf(),
{
    s.scale <= MAX_PRECISION && s.m > i64::MIN
}

/// Divide a non-negative magnitude by a positive divisor, rounding a
/// remainder of half or more upward.
pub open spec fn div_round_half_up(mag: int, d: int) -> int
    recommends
        0 <= mag,
        0 < d,
{
    (2 * mag + d) / (2 * d)
}

/// Divide a signed mantissa by a positive divisor, rounding half away
/// from zero.
pub open spec fn div_round_half_away(m: int, d: int) -> int
    recommends
        0 < d,
{
    if m >= 0 {
        div_round_half_up(m, d)
    } else {
        -div_round_half_up(-m, d)
    }
}

/// What rounding a scalar to `precision` decimal places yields: a value
/// already at that precision is untouched; otherwise the mantissa is
/// divided by the excess power of ten, half away from zero.
pub open spec fn spec_round(s: Scalar, precision: u32) -> Scalar {
    if s.scale <= precision {
        s
    } else {
        Scalar {
            m: div_round_half_away(s.m as int, pow10((s.scale - precision) as nat)) as i64,
            scale: precision,
        }
    }
}

/// Quotient-and-remainder form of `div_round_half_up`.
pub proof fn lemma_div_round_half_up(mag: int, d: int)
    requires
        0 <= mag,
        0 < d,
    ensures
        div_round_half_up(mag, d) == if 2 * (mag % d) >= d {
            mag / d + 1
        } else {
            mag / d
        },
{
    let q = mag / d;
    let r = mag % d;
    lemma_fundamental_div_mod(mag, d);
    lemma_mod_division_less_than_divisor(mag, d);
    lemma_div_pos_is_pos(mag, d);
    assert(mag == d * q + r);
    assert(2 * mag + d == (2 * d) * q + (2 * r + d)) by (nonlinear_arith)
        requires
            mag == d * q + r,
    ;
    if 2 * r >= d {
        assert(2 * mag + d == (2 * d) * (q + 1) + (2 * r - d)) by (nonlinear_arith)
            requires
                2 * mag + d == (2 * d) * q + (2 * r + d),
        ;
        lemma_fundamental_div_mod_converse_div(2 * mag + d, 2 * d, q + 1, 2 * r - d);
    } else {
        lemma_fundamental_div_mod_converse_div(2 * mag + d, 2 * d, q, 2 * r + d);
    }
}

/// The rounded magnitude never exceeds the original magnitude.
pub proof fn lemma_div_round_half_up_le(mag: int, d: int)
    requires
        0 <= mag,
        1 <= d,
    ensures
        0 <= div_round_half_up(mag, d) <= mag,
{
    lemma_div_round_half_up(mag, d);
    lemma_mod_division_less_than_divisor(mag, d);
    lemma_div_pos_is_pos(mag, d);
    let q = mag / d;
    let r = mag % d;
    lemma_fundamental_div_mod(mag, d);
    if 2 * r >= d {
        assert(q + 1 <= mag) by (nonlinear_arith)
            requires
                mag == d * q + r,
                0 <= q,
                0 <= r < d,
                2 * r >= d,
                1 <= d,
        ;
    } else {
        assert(q <= mag) by (nonlinear_arith)
            requires
                mag == d * q + r,
                0 <= q,
                0 <= r < d,
                1 <= d,
        ;
    }
}

/// Rounding preserves validity.
pub proof fn lemma_spec_round_wf(s: Scalar, precision: u32)
    requires
        s.wf(),
        precision <= MAX_PRECISION,
    ensures
        spec_round(s, precision).wf(),
{
    if s.scale > precision {
        let d = pow10((s.scale - precision) as nat);
        lemma_pow10_pos((s.scale - precision) as nat);
        if s.m >= 0 {
            lemma_div_round_half_up_le(s.m as int, d);
        } else {
            lemma_div_round_half_up_le(-(s.m as int), d);
        }
    }
}

/// `10^e` computed executably, for the supported scales.
pub fn pow10_u64(e: u32) -> (r: u64)
    requires
        e <= MAX_PRECISION,
    ensures
        r == pow10(e as nat),
        1 <= r <= 1_000_000_000_000u64,
{
    let mut r: u64 = 1;
    let mut i: u32 = 0;
    while i < e
        invariant
            i <= e,
            e <= MAX_PRECISION,
            r == pow10(i as nat),
        decreases e - i,
    {
        proof {
            lemma_pow10_increases((i + 1) as nat, MAX_PRECISION as nat);
            lemma_pow10_max();
            lemma_pow10_pos(i as nat);
        }
        r = r * 10;
        i = i + 1;
    }
    proof {
        lemma_pow10_increases(e as nat, MAX_PRECISION as nat);
        lemma_pow10_pos(e as nat);
        lemma_pow10_max();
    }
    r
}

/// Round `*n` to `precision` decimal places, half away from zero.
pub fn round_number(n: &mut Scalar, precision: u32)
    requires
        old(n).wf(),
        precision <= MAX_PRECISION,
    ensures
        *final(n) == spec_round(*old(n), precision),
        final(n).wf(),
{
    if n.scale <= precision {
        proof {
            lemma_spec_round_wf(*n, precision);
        }
        return;
    }
    let e = n.scale - precision;
    let d = pow10_u64(e);
    proof {
        lemma_pow10_increases(1, e as nat);
    }
    let neg = n.m < 0;
    let mag: u64 = if neg {
        (-(n.m)) as u64
    } else {
        n.m as u64
    };
    let q = mag / d;
    let rem = mag % d;
    proof {
        lemma_div_is_ordered_by_denominator(mag as int, 10, d as int);
        lemma_div_is_ordered(mag as int, i64::MAX as int, 10);
        lemma_div_pos_is_pos(mag as int, d as int);
        lemma_mod_bound(mag as int, d as int);
    }
    let rmag: u64 = if 2 * rem >= d {
        q + 1
    } else {
        q
    };
    proof {
        lemma_div_round_half_up(mag as int, d as int);
        assert(rmag == div_round_half_up(mag as int, d as int));
    }
    let m2: i64 = if neg {
        -(rmag as i64)
    } else {
        rmag as i64
    };
    proof {
        assert(m2 as int == div_round_half_away(old(n).m as int, d as int));
    }
    *n = Scalar { m: m2, scale: precision };
}

} // verus!
