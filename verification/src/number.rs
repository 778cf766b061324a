//! Numbers of the evaluator: IEEE 754 doubles, held by their bit pattern.

use vstd::prelude::*;

verus! {

/// Two to the power `e`.
pub open spec fn pow2(e: nat) -> nat {
    vstd::arithmetic::power2::pow2(e)
}

/// A double precision number.
#[derive(Debug, Clone, Copy, PartialEq, Eq, Structural)]
pub struct Number {
    pub bits: u64,
}

/// The bits of a number without its sign.
pub open spec fn magnitude(n: Number) -> int {
    n.bits as int % 0x8000_0000_0000_0000
}

/// Whether the sign bit is set.
pub open spec fn is_negative(n: Number) -> bool {
    n.bits >= 0x8000_0000_0000_0000u64
}

/// Whether the number is a NaN.
pub open spec fn is_nan(n: Number) -> bool {
    magnitude(n) > 0x7ff0_0000_0000_0000
}

/// Whether `==` of doubles holds: never of a NaN, and of the two zeros.
pub open spec fn number_equal(a: Number, b: Number) -> bool {
    !is_nan(a) && !is_nan(b) && (a == b || (magnitude(a) == 0 && magnitude(b) == 0))
}

impl Number {
    /// The bits without the sign.
    pub fn magnitude_bits(self) -> (r: u64)
        ensures
            r == magnitude(self),
    {
        self.bits % 0x8000_0000_0000_0000
    }

    /// Whether the number is a NaN.
    pub fn is_nan(self) -> (r: bool)
        ensures
            r == is_nan(self),
    {
        self.magnitude_bits() > 0x7ff0_0000_0000_0000
    }

    /// Whether `==` of doubles holds.
    pub fn ieee_equal(self, other: Number) -> (r: bool)
        ensures
            r == number_equal(self, other),
    {
        !self.is_nan() && !other.is_nan() && (self.bits == other.bits || (self.magnitude_bits() == 0
            && other.magnitude_bits() == 0))
    }
}

/// The largest magnitude below the infinities.
pub open spec fn is_finite(n: Number) -> bool {
    magnitude(n) < 0x7ff0_0000_0000_0000
}

/// The significand of a finite number: an integer below 2^53.
pub open spec fn significand(n: Number) -> nat {
    if magnitude(n) < 0x10_0000_0000_0000 {
        magnitude(n) as nat
    } else {
        (0x10_0000_0000_0000 + magnitude(n) % 0x10_0000_0000_0000) as nat
    }
}

/// The power of two that the significand of a finite number is multiplied by.
pub open spec fn exponent(n: Number) -> int {
    if magnitude(n) < 0x10_0000_0000_0000 {
        -1074
    } else {
        magnitude(n) / 0x10_0000_0000_0000 - 1075
    }
}

/// The absolute value of a finite number, rounded towards zero.
pub open spec fn floor_magnitude(n: Number) -> nat {
    if exponent(n) >= 0 {
        significand(n) * pow2(exponent(n) as nat)
    } else {
        significand(n) / pow2((-exponent(n)) as nat)
    }
}

/// Whether a finite number is an integer.
pub open spec fn is_whole(n: Number) -> bool {
    exponent(n) >= 0 || significand(n) % pow2((-exponent(n)) as nat) == 0
}

/// A finite number rounded towards zero.
pub open spec fn truncated(n: Number) -> int {
    if is_negative(n) {
        -(floor_magnitude(n) as int)
    } else {
        floor_magnitude(n) as int
    }
}

/// The position of the highest bit.
pub open spec fn floor_log2(a: nat) -> nat
    decreases a,
{
    if a < 2 {
        0
    } else {
        1 + floor_log2(a / 2)
    }
}

/// The number that is the given integer, for integers of at most 53 bits and for 2^53.
pub open spec fn number_of(k: int) -> Number {
    if k == 0 {
        Number { bits: 0 }
    } else if k == 0x20_0000_0000_0000 {
        Number { bits: 0x4340_0000_0000_0000 }
    } else {
        let a = if k < 0 {
            (-k) as nat
        } else {
            k as nat
        };
        let p = floor_log2(a);
        let sign: int = if k < 0 {
            0x8000_0000_0000_0000
        } else {
            0
        };
        Number {
            bits: (
                sign + (1023 + p) * 0x10_0000_0000_0000 + (a - pow2(p)) * pow2((52 - p) as nat)
            ) as u64,
        }
    }
}

/// The order of `f64::total_cmp`, with every NaN after every other number.
pub open spec fn sort_rank(n: Number) -> int {
    if is_nan(n) {
        0x1_0000_0000_0000_0000
    } else if is_negative(n) {
        -magnitude(n) - 1
    } else {
        magnitude(n)
    }
}

/// A positive number lies between the power of two of its logarithm and the next one.
pub proof fn lemma_floor_log2(a: nat)
    requires
        a > 0,
    ensures
        pow2(floor_log2(a)) <= a < 2 * pow2(floor_log2(a)),
    decreases a,
{
    vstd::arithmetic::power2::lemma2_to64();
    if a >= 2 {
        lemma_floor_log2(a / 2);
        vstd::arithmetic::power2::lemma_pow2_unfold(floor_log2(a));
    }
}

/// A number of at most 53 bits has a logarithm of at most 52.
pub proof fn lemma_floor_log2_bound(a: nat)
    requires
        0 < a < 0x20_0000_0000_0000,
    ensures
        floor_log2(a) <= 52,
{
    lemma_floor_log2(a);
    vstd::arithmetic::power2::lemma2_to64_rest();
    if floor_log2(a) > 52 {
        if floor_log2(a) > 53 {
            vstd::arithmetic::power2::lemma_pow2_strictly_increases(53, floor_log2(a));
        }
    }
}

/// The parts of the number that an integer of at most 53 bits is held by.
proof fn lemma_number_parts(a: nat)
    requires
        0 < a < 0x20_0000_0000_0000,
    ensures
        ({
            let p = floor_log2(a);
            let m = (a - pow2(p)) * pow2((52 - p) as nat);
            &&& p <= 52
            &&& 0 <= m < 0x10_0000_0000_0000
            &&& m + 0x10_0000_0000_0000 == a * pow2((52 - p) as nat)
        }),
{
    let p = floor_log2(a);
    lemma_floor_log2(a);
    lemma_floor_log2_bound(a);
    vstd::arithmetic::power2::lemma2_to64_rest();
    vstd::arithmetic::power2::lemma_pow2_adds(p, (52 - p) as nat);
    let q = pow2((52 - p) as nat) as int;
    let t = pow2(p) as int;
    vstd::arithmetic::power2::lemma_pow2_pos((52 - p) as nat);
    assert((a - t) * q == a * q - t * q) by (nonlinear_arith);
    assert((a - t) * q >= 0) by (nonlinear_arith)
        requires
            a >= t,
            q > 0,
    ;
    assert((a - t) * q < t * q) by (nonlinear_arith)
        requires
            a < 2 * t,
            q > 0,
    ;
}

/// The number of an integer is that integer: nothing is lost.
pub proof fn lemma_number_of_is_exact(k: int)
    requires
        -0x20_0000_0000_0000 < k <= 0x20_0000_0000_0000,
    ensures
        is_finite(number_of(k)),
        is_whole(number_of(k)),
        truncated(number_of(k)) == k,
{
    let n = number_of(k);
    if k == 0 {
        vstd::arithmetic::power2::lemma_pow2_pos(1074);
        assert(0int / (pow2(1074) as int) == 0) by (nonlinear_arith)
            requires
                pow2(1074) > 0,
        ;
        assert(0int % (pow2(1074) as int) == 0) by (nonlinear_arith)
            requires
                pow2(1074) > 0,
        ;
        assert(floor_magnitude(n) == 0);
    } else if k == 0x20_0000_0000_0000 {
        vstd::arithmetic::power2::lemma2_to64();
        assert(magnitude(n) == 0x4340_0000_0000_0000);
        assert(significand(n) == 0x10_0000_0000_0000);
        assert(exponent(n) == 1);
        assert(pow2(1) == 2);
        assert(floor_magnitude(n) == 0x20_0000_0000_0000);
    } else {
        let a = if k < 0 {
            (-k) as nat
        } else {
            k as nat
        };
        lemma_number_parts(a);
        let p = floor_log2(a);
        let m = (a - pow2(p)) * pow2((52 - p) as nat);
        assert(magnitude(n) == (1023 + p) * 0x10_0000_0000_0000 + m);
        assert(magnitude(n) % 0x10_0000_0000_0000 == m);
        assert(magnitude(n) / 0x10_0000_0000_0000 == 1023 + p);
        assert(significand(n) == a * pow2((52 - p) as nat));
        assert(exponent(n) == p - 52);
        let q = pow2((52 - p) as nat) as int;
        vstd::arithmetic::power2::lemma_pow2_pos((52 - p) as nat);
        vstd::arithmetic::div_mod::lemma_div_by_multiple(a as int, q);
        vstd::arithmetic::div_mod::lemma_mod_multiples_basic(a as int, q);
        if p == 52 {
            vstd::arithmetic::power2::lemma2_to64();
            assert(pow2((52 - p) as nat) == 1);
            assert(a * 1 == a) by (nonlinear_arith);
            assert(significand(n) == a);
            assert(significand(n) * 1 == a) by (nonlinear_arith)
                requires
                    significand(n) == a,
            ;
            assert(floor_magnitude(n) == a);
        } else {
            assert(floor_magnitude(n) == a);
        }
        assert(is_negative(n) == (k < 0));
    }
}

impl Number {
    /// Whether the number is neither infinite nor a NaN.
    pub fn is_finite(self) -> (r: bool)
        ensures
            r == is_finite(self),
    {
        self.magnitude_bits() < 0x7ff0_0000_0000_0000
    }

    /// Whether the sign bit is set.
    pub fn is_negative(self) -> (r: bool)
        ensures
            r == is_negative(self),
    {
        self.bits >= 0x8000_0000_0000_0000
    }

    /// A finite number rounded towards zero, and whether that changed nothing; none
    /// where the absolute value reaches 2^63.
    pub fn whole_part(self) -> (r: Option<(i64, bool)>)
        requires
            is_finite(self),
        ensures
            match r {
                Some((k, whole)) => k == truncated(self) && whole == is_whole(self),
                None => floor_magnitude(self) >= 0x8000_0000_0000_0000 && is_whole(self),
            },
    {
        let m: u64 = self.magnitude_bits();
        let field: u64 = m / 0x10_0000_0000_0000;
        let (sig, shift): (u64, i64) = if m < 0x10_0000_0000_0000 {
            (m, -1074)
        } else {
            (0x10_0000_0000_0000 + m % 0x10_0000_0000_0000, field as i64 - 1075)
        };
        assert(sig == significand(self) && shift == exponent(self));
        proof {
            vstd::arithmetic::power2::lemma2_to64();
            vstd::arithmetic::power2::lemma2_to64_rest();
        }
        if shift >= 11 {
            proof {
                if shift > 11 {
                    vstd::arithmetic::power2::lemma_pow2_strictly_increases(11, shift as nat);
                }
                let q = pow2(shift as nat);
                assert(sig * q >= 0x8000_0000_0000_0000) by (nonlinear_arith)
                    requires
                        sig >= 0x10_0000_0000_0000,
                        q >= 2048,
                ;
            }
            return None;
        }
        let (whole_abs, whole): (u64, bool) = if shift >= 0 {
            let s: u64 = shift as u64;
            proof {
                if shift < 10 {
                    vstd::arithmetic::power2::lemma_pow2_strictly_increases(shift as nat, 10);
                }
                let q = pow2(shift as nat);
                assert(sig * q < 0x8000_0000_0000_0000) by (nonlinear_arith)
                    requires
                        sig < 0x20_0000_0000_0000,
                        0 <= q <= 1024,
                ;
                vstd::bits::lemma_u64_shl_is_mul(sig, s);
            }
            (sig << s, true)
        } else if shift > -64 {
            let s: u64 = (-shift) as u64;
            proof {
                vstd::bits::lemma_u64_shr_is_div(sig, s);
                vstd::arithmetic::power2::lemma_pow2_pos(s as nat);
                if s < 63 {
                    vstd::arithmetic::power2::lemma_pow2_strictly_increases(s as nat, 63);
                }
                assert(1 * pow2(s as nat) <= 0x8000_0000_0000_0000);
                vstd::bits::lemma_u64_shl_is_mul(1, s);
                let q = pow2(s as nat);
                assert(sig / (q as u64) <= sig) by (nonlinear_arith)
                    requires
                        q >= 1,
                        q <= 0x8000_0000_0000_0000,
                ;
            }
            let unit: u64 = 1u64 << s;
            (sig / unit, sig % unit == 0)
        } else {
            proof {
                let q = pow2((-shift) as nat);
                if -shift > 64 {
                    vstd::arithmetic::power2::lemma_pow2_strictly_increases(64, (-shift) as nat);
                }
                assert(sig as nat / q == 0) by (nonlinear_arith)
                    requires
                        0 <= sig < q,
                ;
                assert(sig as nat % q == sig as nat) by (nonlinear_arith)
                    requires
                        0 <= sig < q,
                ;
            }
            (0, sig == 0)
        };
        if self.is_negative() {
            Some((-(whole_abs as i64), whole))
        } else {
            Some((whole_abs as i64, whole))
        }
    }

    /// The number that is the given integer.
    pub fn from_integer(k: i64) -> (r: Number)
        requires
            -0x20_0000_0000_0000 < k <= 0x20_0000_0000_0000,
        ensures
            r == number_of(k as int),
    {
        if k == 0 {
            return Number { bits: 0 };
        }
        if k == 0x20_0000_0000_0000 {
            return Number { bits: 0x4340_0000_0000_0000 };
        }
        let a: u64 = if k < 0 {
            (-k) as u64
        } else {
            k as u64
        };
        let mut rest: u64 = a;
        let mut p: u64 = 0;
        proof {
            lemma_floor_log2_bound(a as nat);
        }
        while rest >= 2
            invariant
                floor_log2(a as nat) == p + floor_log2(rest as nat),
                floor_log2(a as nat) <= 52,
                p <= 52,
            decreases rest,
        {
            rest = rest / 2;
            p += 1;
        }
        proof {
            lemma_number_parts(a as nat);
            lemma_floor_log2(a as nat);
            vstd::arithmetic::power2::lemma2_to64_rest();
            vstd::arithmetic::power2::lemma_pow2_pos(p as nat);
            if p < 52 {
                vstd::arithmetic::power2::lemma_pow2_strictly_increases(p as nat, 52);
            }
            vstd::bits::lemma_u64_shl_is_mul(1, p);
        }
        let top: u64 = 1u64 << p;
        let left: u64 = 52 - p;
        let low: u64 = a - top;
        proof {
            vstd::bits::lemma_u64_shl_is_mul(low, left);
        }
        let fraction: u64 = low << left;
        let sign: u64 = if k < 0 {
            0x8000_0000_0000_0000
        } else {
            0
        };
        Number { bits: sign + (1023 + p) * 0x10_0000_0000_0000 + fraction }
    }

    /// The place of the number in the order of sorted numbers.
    pub fn rank(self) -> (r: i128)
        ensures
            r == sort_rank(self),
    {
        if self.is_nan() {
            0x1_0000_0000_0000_0000
        } else if self.is_negative() {
            -(self.magnitude_bits() as i128) - 1
        } else {
            self.magnitude_bits() as i128
        }
    }
}

} // verus!
