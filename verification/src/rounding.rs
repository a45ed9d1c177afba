//! Whole numbers as single-precision numbers.
//!
//! A domino's id reaches the shading stage as a single-precision number. Below
//! 2^24 every whole number is one; from there on only every second, fourth,
//! ... is, and an id is rounded to the nearest of them.

use vstd::prelude::*;
use vstd::arithmetic::div_mod::{lemma_fundamental_div_mod, lemma_fundamental_div_mod_converse};
use vstd::arithmetic::power2::{
    lemma2_to64,
    lemma_pow2_adds,
    lemma_pow2_pos,
    lemma_pow2_strictly_increases,
    lemma_pow2_unfold,
    pow2,
};
use crate::scalar::Scalar;

verus! {

/// The number of low binary digits of `n` that a single-precision number of
/// its size cannot hold: 0 below 2^24, and one more with each doubling.
pub open spec fn dropped_bits(n: nat) -> nat
    decreases n,
{
    if n < 0x100_0000 {
        0
    } else {
        1 + dropped_bits(n / 2)
    }
}

/// The distance between neighbouring single-precision numbers at the size of `n`.
pub open spec fn spacing(n: nat) -> nat {
    pow2(dropped_bits(n))
}

/// `v` is `n` rounded to single precision: the multiple of the spacing that is
/// nearest to `n`, and the even multiple where two are equally near.
pub open spec fn is_rounding_of(v: nat, n: nat) -> bool {
    let u = spacing(n);
    &&& v % u == 0
    &&& 2 * (v - n) <= u
    &&& 2 * (n - v) <= u
    &&& (2 * (v - n) == u || 2 * (n - v) == u) ==> (v / u) % 2 == 0
}

/// `n` rounded to single precision.
pub open spec fn nearest_single(n: nat) -> nat {
    choose|v: nat| is_rounding_of(v, n)
}

impl Scalar {
    /// The number is the whole number `v`: it is +0 for 0, and else a normal
    /// positive number whose significand, 2^23 plus the fraction field, scaled
    /// by 2 to its exponent, the exponent field less 127 less 23, gives `v`.
    pub open spec fn represents(self, v: nat) -> bool {
        let exponent = self.bits as nat / 0x80_0000;
        let fraction = self.bits as nat % 0x80_0000;
        if v == 0 {
            self.bits == 0
        } else {
            &&& 127 <= exponent <= 254
            &&& (0x80_0000 + fraction) * pow2((exponent - 127) as nat) == v * 0x80_0000
        }
    }

    /// The single-precision number that `n` rounds to.
    pub open spec fn spec_from_u32(n: u32) -> Scalar {
        choose|s: Scalar| s.represents(nearest_single(n as nat))
    }

    /// The single-precision number that `n` rounds to: `n` itself below 2^24,
    /// and else the nearest number that single precision has, the one with
    /// the even significand where two are equally near.
    #[verifier::when_used_as_spec(spec_from_u32)]
    pub fn from_u32(n: u32) -> (r: Scalar)
        ensures
            r == Scalar::spec_from_u32(n),
            r.represents(nearest_single(n as nat)),
            n < 0x100_0000 ==> r.represents(n as nat),
    {
        let r = if n < 0x100_0000 {
            from_exact(n)
        } else {
            from_large(n)
        };
        proof {
            if n < 0x100_0000 {
                lemma_rounding_exact(n as nat);
            }
            lemma_represents_one_scalar(r, Scalar::spec_from_u32(n), nearest_single(n as nat));
        }
        r
    }
}

/// Every whole number below 2^24 is a single-precision number.
proof fn lemma_represents_exists(n: nat)
    requires
        n < 0x100_0000,
    ensures
        exists|s: Scalar| s.represents(n),
    decreases 0x100_0000 - n,
{
    if n == 0 {
        assert(Scalar { bits: 0 }.represents(0));
    } else if n >= 0x80_0000 {
        let bits: u32 = (150 * 0x80_0000 + (n - 0x80_0000)) as u32;
        lemma2_to64();
        assert(bits as nat / 0x80_0000 == 150);
        assert(bits as nat % 0x80_0000 == n - 0x80_0000);
        assert(Scalar { bits }.represents(n));
    } else {
        let twice = 2 * n;
        lemma_represents_exists(twice);
        let double = choose|s: Scalar| s.represents(twice);
        let exponent = double.bits as nat / 0x80_0000;
        let fraction = double.bits as nat % 0x80_0000;
        let scale = pow2((exponent - 127) as nat);
        lemma2_to64();
        if exponent == 127 {
            assert((0x80_0000 + fraction) * 1 == 2 * n * 0x80_0000);
            assert(false);
        }
        lemma_pow2_unfold((exponent - 127) as nat);
        let lower = pow2((exponent - 128) as nat);
        assert((0x80_0000 + fraction) * lower == n * 0x80_0000) by (nonlinear_arith)
            requires
                (0x80_0000 + fraction) * (2 * lower) == 2 * n * 0x80_0000,
        ;
        let bits: u32 = (double.bits - 0x80_0000) as u32;
        assert(bits as nat / 0x80_0000 == exponent - 1);
        assert(bits as nat % 0x80_0000 == fraction);
        assert(Scalar { bits }.represents(n));
    }
}

/// The number for a whole number below 2^24, which single precision holds
/// exactly.
fn from_exact(n: u32) -> (r: Scalar)
    requires
        n < 0x100_0000,
    ensures
        r.represents(n as nat),
{
    if n == 0 {
        return Scalar { bits: 0 };
    }
    let mut significand: u32 = n;
    let mut exponent: u32 = 150;
    proof {
        lemma2_to64();
        assert(pow2((150 - exponent) as nat) == 1);
        assert(n * pow2((150 - exponent) as nat) == n);
    }
    while significand < 0x80_0000
        invariant
            0 < n < 0x100_0000,
            127 <= exponent <= 150,
            significand == n * pow2((150 - exponent) as nat),
            pow2((150 - exponent) as nat) <= significand < 0x100_0000,
        decreases exponent,
    {
        proof {
            let k = (150 - exponent) as nat;
            lemma_pow2_unfold(k + 1);
            lemma2_to64();
            if exponent == 127 {
                assert(pow2(23) == 0x80_0000);
            }
            assert(n * (2 * pow2(k)) == 2 * (n * pow2(k))) by (nonlinear_arith);
        }
        significand = significand * 2;
        exponent = exponent - 1;
    }
    let bits: u32 = exponent * 0x80_0000 + (significand - 0x80_0000);
    proof {
        let k = (150 - exponent) as nat;
        let rest = (exponent - 127) as nat;
        lemma_pow2_adds(k, rest);
        lemma2_to64();
        assert(k + rest == 23);
        assert(n * pow2(k) * pow2(rest) == n * (pow2(k) * pow2(rest))) by (nonlinear_arith);
        assert(bits as nat / 0x80_0000 == exponent);
        assert(bits as nat % 0x80_0000 == significand - 0x80_0000);
    }
    Scalar { bits }
}

/// The number for a whole number from 2^24 on: its leading 24 binary digits,
/// rounded by the digits that are dropped.
fn from_large(n: u32) -> (r: Scalar)
    requires
        n >= 0x100_0000,
    ensures
        r.represents(nearest_single(n as nat)),
{
    let mut leading: u32 = n;
    let mut unit: u32 = 1;
    let mut dropped: u32 = 0;
    let ghost mut rest: nat = 0;
    proof {
        lemma2_to64();
    }
    while leading >= 0x100_0000
        invariant
            n >= 0x100_0000,
            n == leading * unit + rest,
            rest < unit,
            unit == pow2(dropped as nat),
            dropped <= 8,
            dropped_bits(n as nat) == dropped + dropped_bits(leading as nat),
            leading >= 0x80_0000,
        decreases leading,
    {
        proof {
            let half = leading / 2;
            let bit = leading % 2;
            assert(leading * unit == half * (2 * unit) + bit * unit) by (nonlinear_arith)
                requires
                    leading == 2 * half + bit,
            ;
            assert(bit * unit <= unit) by (nonlinear_arith)
                requires
                    bit <= 1,
            ;
            assert(unit < 0x100) by (nonlinear_arith)
                requires
                    leading * unit <= 0xFFFF_FFFF,
                    leading >= 0x100_0000,
            ;
            lemma_pow2_unfold(dropped as nat + 1);
            lemma2_to64();
            if dropped >= 8 {
                if dropped > 8 {
                    lemma_pow2_strictly_increases(8, dropped as nat);
                }
            }
            rest = (rest + bit * unit) as nat;
        }
        leading = leading / 2;
        unit = unit * 2;
        dropped = dropped + 1;
    }
    let remainder: u32 = n - leading * unit;
    let half: u32 = unit / 2;
    let up = remainder > half || (remainder == half && leading % 2 == 1);
    let significand: u32 = if up {
        leading + 1
    } else {
        leading
    };
    let bits: u32 = (150 + dropped) * 0x80_0000 + (significand - 0x80_0000);
    proof {
        let v = (significand * unit) as nat;
        lemma2_to64();
        assert(dropped >= 1);
        lemma_pow2_unfold(dropped as nat);
        assert(2 * half == unit);
        assert(spacing(n as nat) == unit);
        lemma_fundamental_div_mod_converse(v as int, unit as int, significand as int, 0);
        assert(significand * unit == leading * unit + (if up {
            unit as int
        } else {
            0
        })) by (nonlinear_arith)
            requires
                significand == leading + (if up {
                    1int
                } else {
                    0
                }),
        ;
        assert(is_rounding_of(v, n as nat));
        lemma_rounding_unique(v, nearest_single(n as nat), n as nat);
        lemma_pow2_adds(23, dropped as nat);
        lemma_pow2_adds(24, dropped as nat);
        if significand < 0x100_0000 {
            assert(bits as nat / 0x80_0000 == 150 + dropped);
            assert(bits as nat % 0x80_0000 == significand - 0x80_0000);
            assert(significand * (0x80_0000 * unit) == significand * unit * 0x80_0000)
                by (nonlinear_arith);
        } else {
            assert(bits as nat / 0x80_0000 == 151 + dropped);
            assert(bits as nat % 0x80_0000 == 0);
            assert(0x80_0000 * (0x100_0000 * unit) == 0x100_0000 * unit * 0x80_0000)
                by (nonlinear_arith);
        }
    }
    Scalar { bits }
}

/// At most one number is the rounding of `n`.
pub proof fn lemma_rounding_unique(v1: nat, v2: nat, n: nat)
    requires
        is_rounding_of(v1, n),
        is_rounding_of(v2, n),
    ensures
        v1 == v2,
{
    let u = spacing(n);
    lemma_pow2_pos(dropped_bits(n));
    let a = v1 as int / u as int;
    let b = v2 as int / u as int;
    lemma_fundamental_div_mod(v1 as int, u as int);
    lemma_fundamental_div_mod(v2 as int, u as int);
    assert(v1 == u * a);
    assert(v2 == u * b);
    if a < b {
        assert(u * b - u * a >= u) by (nonlinear_arith)
            requires
                a < b,
                u > 0,
        ;
        assert(b == a + 1) by (nonlinear_arith)
            requires
                u * b - u * a == u,
                u > 0,
        ;
    } else if b < a {
        assert(u * a - u * b >= u) by (nonlinear_arith)
            requires
                b < a,
                u > 0,
        ;
        assert(a == b + 1) by (nonlinear_arith)
            requires
                u * a - u * b == u,
                u > 0,
        ;
    }
}

/// Below 2^24 a whole number rounds to itself.
pub proof fn lemma_rounding_exact(n: nat)
    requires
        n < 0x100_0000,
    ensures
        is_rounding_of(n, n),
        nearest_single(n) == n,
{
    lemma2_to64();
    assert(spacing(n) == 1);
    assert(is_rounding_of(n, n));
    lemma_rounding_unique(nearest_single(n), n, n);
}

/// Below 2^24 the number of a whole number is that whole number.
pub proof fn lemma_from_u32_exact(n: u32)
    requires
        n < 0x100_0000,
    ensures
        Scalar::spec_from_u32(n).represents(n as nat),
{
    lemma_rounding_exact(n as nat);
    lemma_represents_exists(n as nat);
}

/// A number is at most one whole number.
pub proof fn lemma_represents_one_value(s: Scalar, v1: nat, v2: nat)
    requires
        s.represents(v1),
        s.represents(v2),
    ensures
        v1 == v2,
{
    let exponent = s.bits as nat / 0x80_0000;
    if v1 == 0 || v2 == 0 {
        if v1 != 0 || v2 != 0 {
            lemma_pow2_pos((exponent - 127) as nat);
            assert(exponent == 0);
        }
    }
}

/// A whole number is at most one number.
pub proof fn lemma_represents_one_scalar(s1: Scalar, s2: Scalar, v: nat)
    requires
        s1.represents(v),
        s2.represents(v),
    ensures
        s1 == s2,
{
    if v != 0 {
        let e1 = s1.bits as nat / 0x80_0000;
        let f1 = s1.bits as nat % 0x80_0000;
        let e2 = s2.bits as nat / 0x80_0000;
        let f2 = s2.bits as nat % 0x80_0000;
        let p1 = pow2((e1 - 127) as nat);
        let p2 = pow2((e2 - 127) as nat);
        lemma_pow2_pos((e1 - 127) as nat);
        lemma_pow2_pos((e2 - 127) as nat);
        if e1 < e2 {
            lemma_scaled_significands_differ(f1, f2, (e1 - 127) as nat, (e2 - 127) as nat);
        } else if e2 < e1 {
            lemma_scaled_significands_differ(f2, f1, (e2 - 127) as nat, (e1 - 127) as nat);
        } else {
            assert(f1 == f2) by (nonlinear_arith)
                requires
                    (0x80_0000 + f1) * p1 == (0x80_0000 + f2) * p1,
                    p1 > 0,
            ;
        }
    }
}

/// A significand at a smaller exponent is less than any at a greater one.
proof fn lemma_scaled_significands_differ(f1: nat, f2: nat, k1: nat, k2: nat)
    requires
        f1 < 0x80_0000,
        k1 < k2,
    ensures
        (0x80_0000 + f1) * pow2(k1) < (0x80_0000 + f2) * pow2(k2),
{
    let p1 = pow2(k1);
    let p2 = pow2(k2);
    lemma_pow2_pos(k1);
    lemma_pow2_unfold(k1 + 1);
    if k1 + 1 < k2 {
        lemma_pow2_strictly_increases(k1 + 1, k2);
    }
    assert(2 * p1 <= p2);
    assert((0x80_0000 + f1) * p1 < (0x80_0000 + f2) * p2) by (nonlinear_arith)
        requires
            f1 < 0x80_0000,
            2 * p1 <= p2,
            p1 > 0,
    ;
}

} // verus!
