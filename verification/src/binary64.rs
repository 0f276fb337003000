//! IEEE 754 binary64 numbers, held as their 64-bit patterns.
//!
//! A pattern is a `u64`: one sign bit, eleven bits of biased exponent and
//! fifty-two bits of fraction. This module says what number each pattern
//! stands for and decides the comparisons of the standard on patterns alone,
//! with integer instructions only.
//!
//! Every finite binary64 number is a whole multiple of 2^-1074, the smallest
//! subnormal. The model therefore speaks of a number through
//! [`scaled_value`], the number multiplied by 2^1074, which is an integer.
use vstd::arithmetic::div_mod::{
    lemma_basic_div, lemma_div_by_multiple, lemma_div_denominator, lemma_div_is_ordered,
    lemma_div_nonincreasing,
};
use vstd::arithmetic::power2::{
    lemma2_to64, lemma2_to64_rest, lemma_pow2_adds, lemma_pow2_pos, lemma_pow2_strictly_increases, pow2,
};
use vstd::bits::{lemma_u64_shl_is_mul, lemma_u64_shr_is_div};
use vstd::prelude::*;

verus! {

/// The sign bit of a pattern.
pub const SIGN_BIT: u64 = 0x8000_0000_0000_0000;

/// Every bit of a pattern but its sign.
pub const MAGNITUDE_MASK: u64 = 0x7fff_ffff_ffff_ffff;

/// The fraction bits of a pattern.
pub const FRACTION_MASK: u64 = 0x000f_ffff_ffff_ffff;

/// 2^52: the bit that a normal number's significand holds above its fraction.
pub const HIDDEN_BIT: u64 = 0x0010_0000_0000_0000;

/// The number of fraction bits.
pub const FRACTION_BITS: u64 = 52;

/// The biased exponent of the numbers in `[1, 2)`.
pub const EXPONENT_BIAS: u64 = 1023;

/// The biased exponent that infinities and NaNs carry.
pub const EXPONENT_MAX: u64 = 2047;

/// The pattern of `+0.0`.
pub const ZERO: u64 = 0;

/// The pattern of `1.0`.
pub const ONE: u64 = 0x3ff0_0000_0000_0000;

/// The pattern of positive infinity.
pub const INFINITY: u64 = 0x7ff0_0000_0000_0000;

/// The pattern of negative infinity.
pub const NEG_INFINITY: u64 = 0xfff0_0000_0000_0000;

/// Whether the sign bit is set. It may be set on a zero, an infinity or a NaN.
pub open spec fn sign_negative(bits: u64) -> bool {
    bits >= SIGN_BIT
}

/// The pattern with its sign bit cleared.
pub open spec fn magnitude_bits(bits: u64) -> u64 {
    if bits >= SIGN_BIT {
        (bits - SIGN_BIT) as u64
    } else {
        bits
    }
}

/// The biased exponent: the eleven bits below the sign.
pub open spec fn biased_exponent(bits: u64) -> nat {
    (magnitude_bits(bits) / HIDDEN_BIT) as nat
}

/// The fraction: the low fifty-two bits.
pub open spec fn fraction(bits: u64) -> nat {
    (magnitude_bits(bits) % HIDDEN_BIT) as nat
}

/// The pattern is a NaN: the exponent is all ones and the fraction is not zero.
pub open spec fn is_nan_spec(bits: u64) -> bool {
    biased_exponent(bits) == EXPONENT_MAX && fraction(bits) != 0
}

/// 2^1074: the scaled value of the number one.
pub open spec fn unit() -> nat {
    pow2(1074)
}

/// The significand as an integer: the fraction, with the hidden bit above it
/// unless the exponent is zero.
pub open spec fn significand(bits: u64) -> nat {
    if biased_exponent(bits) == 0 {
        fraction(bits)
    } else {
        HIDDEN_BIT as nat + fraction(bits)
    }
}

/// The power of two by which the significand is multiplied in the scaled
/// magnitude: 0 for the subnormals and for the first binade of normal
/// numbers, one more for each binade above.
pub open spec fn binade(bits: u64) -> nat {
    if biased_exponent(bits) == 0 {
        0
    } else {
        (biased_exponent(bits) - 1) as nat
    }
}

/// The absolute value of the number that a pattern stands for, multiplied by
/// 2^1074.
///
/// A subnormal pattern (exponent zero) stands for `fraction * 2^-1074`, a
/// normal one for `(2^52 + fraction) * 2^(exponent - 1075)`. The same formula
/// puts the infinities at 2^2098, twice the power of two just above the
/// largest finite magnitude, so that the order of these integers is the order
/// of the extended reals. On a NaN the result has no meaning.
pub open spec fn scaled_magnitude(bits: u64) -> nat {
    significand(bits) * pow2(binade(bits))
}

/// The number that a pattern stands for, multiplied by 2^1074. Both zeros
/// give 0; the infinities give 2^2098 and its negative.
pub open spec fn scaled_value(bits: u64) -> int {
    if sign_negative(bits) {
        -(scaled_magnitude(bits) as int)
    } else {
        scaled_magnitude(bits) as int
    }
}

/// `a == b` as the standard compares numbers: a NaN equals nothing, itself
/// included, and the two zeros are equal.
pub open spec fn eq_spec(a: u64, b: u64) -> bool {
    !is_nan_spec(a) && !is_nan_spec(b) && scaled_value(a) == scaled_value(b)
}

/// `a < b` as the standard compares numbers: false when either is a NaN.
pub open spec fn lt_spec(a: u64, b: u64) -> bool {
    !is_nan_spec(a) && !is_nan_spec(b) && scaled_value(a) < scaled_value(b)
}

/// `a <= b` as the standard compares numbers: false when either is a NaN.
pub open spec fn le_spec(a: u64, b: u64) -> bool {
    !is_nan_spec(a) && !is_nan_spec(b) && scaled_value(a) <= scaled_value(b)
}

/// `a > b` as the standard compares numbers: false when either is a NaN.
pub open spec fn gt_spec(a: u64, b: u64) -> bool {
    lt_spec(b, a)
}

/// The magnitude bits of a pattern, and the facts that tie them to its fields.
pub fn magnitude(bits: u64) -> (m: u64)
    ensures
        m == magnitude_bits(bits),
        m <= MAGNITUDE_MASK,
        m == biased_exponent(bits) * HIDDEN_BIT + fraction(bits),
        biased_exponent(bits) <= EXPONENT_MAX,
        fraction(bits) < HIDDEN_BIT,
{
    let m: u64 = bits & MAGNITUDE_MASK;
    assert(m == magnitude_bits(bits)) by (bit_vector)
        requires
            m == bits & 0x7fff_ffff_ffff_ffff,
    ;
    m
}

/// Whether the pattern is a NaN.
pub fn is_nan(bits: u64) -> (r: bool)
    ensures
        r == is_nan_spec(bits),
{
    magnitude(bits) > INFINITY
}

/// Powers of two grow with their exponents.
proof fn lemma_pow2_increases(i: nat, j: nat)
    requires
        i <= j,
    ensures
        pow2(i) <= pow2(j),
{
    if i < j {
        lemma_pow2_strictly_increases(i, j);
    }
}

/// The scaled magnitude of a pattern lies in the binade of its exponent:
/// below 2^52 for exponent zero, and from 2^(51 + e) up to, but not
/// reaching, 2^(52 + e) for an exponent `e` above zero.
pub proof fn lemma_binade_bounds(bits: u64)
    ensures
        biased_exponent(bits) == 0 ==> scaled_magnitude(bits) == fraction(bits)
            && scaled_magnitude(bits) < pow2(52),
        biased_exponent(bits) >= 1 ==> pow2(51 + biased_exponent(bits))
            <= scaled_magnitude(bits) < pow2(52 + biased_exponent(bits)),
{
    let e = biased_exponent(bits);
    let s = significand(bits);
    let p = pow2(binade(bits));
    lemma2_to64_rest();
    if e == 0 {
        lemma2_to64();
    } else {
        lemma_pow2_pos(binade(bits));
        lemma_pow2_adds(52, binade(bits));
        lemma_pow2_adds(53, binade(bits));
        assert(pow2(52) * p <= s * p < pow2(53) * p) by (nonlinear_arith)
            requires
                pow2(52) <= s < pow2(53),
                p > 0,
        ;
    }
}

/// Among patterns of one sign, the larger pattern has the larger magnitude:
/// the scaled magnitude grows strictly with the magnitude bits.
pub proof fn lemma_magnitude_increases(a: u64, b: u64)
    requires
        magnitude_bits(a) < magnitude_bits(b),
    ensures
        scaled_magnitude(a) < scaled_magnitude(b),
{
    let ea = biased_exponent(a);
    let eb = biased_exponent(b);
    lemma_binade_bounds(a);
    lemma_binade_bounds(b);
    if ea == eb {
        let p = pow2(binade(a));
        let sa = significand(a);
        let sb = significand(b);
        lemma_pow2_pos(binade(a));
        assert(sa * p < sb * p) by (nonlinear_arith)
            requires
                sa < sb,
                p > 0,
        ;
    } else if ea == 0 {
        lemma_pow2_increases(52, 51 + eb);
    } else {
        lemma_pow2_increases(52 + ea, 51 + eb);
    }
}

/// Two patterns have the same scaled magnitude only if they agree in every
/// bit but the sign, and only the zeros have magnitude zero.
pub proof fn lemma_magnitude_injective(a: u64, b: u64)
    ensures
        scaled_magnitude(a) == scaled_magnitude(b) <==> magnitude_bits(a) == magnitude_bits(b),
        scaled_magnitude(a) < scaled_magnitude(b) <==> magnitude_bits(a) < magnitude_bits(b),
        scaled_magnitude(a) == 0 <==> magnitude_bits(a) == 0,
{
    if magnitude_bits(a) < magnitude_bits(b) {
        lemma_magnitude_increases(a, b);
    }
    if magnitude_bits(b) < magnitude_bits(a) {
        lemma_magnitude_increases(b, a);
    }
    if magnitude_bits(a) > 0 {
        lemma_magnitude_increases(ZERO, a);
    }
    lemma_binade_bounds(ZERO);
}

/// Whether `a == b` as numbers.
pub fn eq(a: u64, b: u64) -> (r: bool)
    ensures
        r == eq_spec(a, b),
{
    let ma: u64 = magnitude(a);
    let mb: u64 = magnitude(b);
    proof {
        lemma_magnitude_injective(a, b);
        lemma_magnitude_injective(b, a);
    }
    if ma > INFINITY || mb > INFINITY {
        false
    } else if ma == 0 && mb == 0 {
        true
    } else {
        a == b
    }
}

/// Whether `a < b` as numbers.
pub fn lt(a: u64, b: u64) -> (r: bool)
    ensures
        r == lt_spec(a, b),
{
    let ma: u64 = magnitude(a);
    let mb: u64 = magnitude(b);
    proof {
        lemma_magnitude_injective(a, b);
        lemma_magnitude_injective(b, a);
    }
    if ma > INFINITY || mb > INFINITY {
        false
    } else if a >= SIGN_BIT {
        if b >= SIGN_BIT {
            mb < ma
        } else {
            ma != 0 || mb != 0
        }
    } else {
        b < SIGN_BIT && ma < mb
    }
}

/// Whether `a > b` as numbers.
pub fn gt(a: u64, b: u64) -> (r: bool)
    ensures
        r == gt_spec(a, b),
{
    lt(b, a)
}

/// Whether `a <= b` as numbers.
pub fn le(a: u64, b: u64) -> (r: bool)
    ensures
        r == le_spec(a, b),
{
    !is_nan(a) && !is_nan(b) && !lt(b, a)
}

/// The number cast to a signed 64-bit integer: a NaN gives 0, every other
/// number is cut toward zero to a whole number, and what lies beyond the
/// integer range, the infinities included, gives the nearest end of it.
pub open spec fn to_i64_spec(bits: u64) -> int {
    let whole = scaled_magnitude(bits) as int / unit() as int;
    if is_nan_spec(bits) {
        0
    } else if sign_negative(bits) {
        if -whole < i64::MIN {
            i64::MIN as int
        } else {
            -whole
        }
    } else {
        if whole > i64::MAX {
            i64::MAX as int
        } else {
            whole
        }
    }
}

/// The whole part of a magnitude, read off the fields: nothing below
/// exponent 1023, the significand cut down by `1075 - e` bits up to exponent
/// 1074, and the significand followed by `e - 1075` zero bits from there on.
pub proof fn lemma_whole_part(bits: u64)
    ensures
        biased_exponent(bits) < 1023 ==> scaled_magnitude(bits) as int / unit() as int == 0,
        1023 <= biased_exponent(bits) < 1075 ==> scaled_magnitude(bits) as int / unit() as int
            == significand(bits) as int / pow2((1075 - biased_exponent(bits)) as nat) as int,
        1075 <= biased_exponent(bits) ==> scaled_magnitude(bits) as int / unit() as int
            == significand(bits) * pow2((biased_exponent(bits) - 1075) as nat),
{
    let e = biased_exponent(bits);
    let s = significand(bits) as int;
    let sm = scaled_magnitude(bits) as int;
    let u = unit() as int;
    lemma_binade_bounds(bits);
    lemma_pow2_pos(1074);
    if e < 1023 {
        if e == 0 {
            lemma_pow2_increases(52, 1074);
        } else {
            lemma_pow2_increases(52 + e, 1074);
        }
        lemma_basic_div(sm, u);
    } else if e < 1075 {
        let p = pow2((e - 1) as nat) as int;
        let q = pow2((1075 - e) as nat) as int;
        lemma_pow2_pos((e - 1) as nat);
        lemma_pow2_pos((1075 - e) as nat);
        lemma_pow2_adds((e - 1) as nat, (1075 - e) as nat);
        assert(u == p * q);
        lemma_div_denominator(sm, p, q);
        lemma_div_by_multiple(s, p);
    } else {
        let k = pow2((e - 1075) as nat) as int;
        lemma_pow2_adds((e - 1075) as nat, 1074);
        assert(pow2((e - 1) as nat) == k * u);
        assert(s * (k * u) == (s * k) * u) by (nonlinear_arith);
        assert(0 <= s * k) by (nonlinear_arith)
            requires
                0 <= s,
                0 <= k,
        ;
        lemma_div_by_multiple(s * k, u);
    }
}

/// The number cast to `i64` as Rust's `as` casts a float: toward zero, with
/// saturation, and 0 for a NaN.
pub fn to_i64(bits: u64) -> (r: i64)
    ensures
        r == to_i64_spec(bits),
{
    let m: u64 = magnitude(bits);
    let e: u64 = m >> FRACTION_BITS;
    let s: u64 = (m & FRACTION_MASK) | HIDDEN_BIT;
    let negative: bool = bits >= SIGN_BIT;
    proof {
        assert(e == m / 0x0010_0000_0000_0000) by (bit_vector)
            requires
                e == m >> 52,
        ;
        assert(s == 0x0010_0000_0000_0000 + m % 0x0010_0000_0000_0000) by (bit_vector)
            requires
                s == (m & 0x000f_ffff_ffff_ffff) | 0x0010_0000_0000_0000,
        ;
        lemma_whole_part(bits);
        lemma_binade_bounds(bits);
        lemma2_to64();
        lemma2_to64_rest();
    }
    if m > INFINITY {
        0
    } else if e < EXPONENT_BIAS {
        0
    } else if e >= EXPONENT_BIAS + 63 {
        proof {
            let sm = scaled_magnitude(bits) as int;
            let u = unit() as int;
            lemma_pow2_pos(1074);
            lemma_pow2_increases(1137, (51 + e) as nat);
            lemma_pow2_adds(63, 1074);
            lemma_div_by_multiple(pow2(63) as int, u);
            lemma_div_is_ordered(pow2(63) * u, sm, u);
        }
        if negative {
            i64::MIN
        } else {
            i64::MAX
        }
    } else {
        // From here on 1 <= |x| < 2^63, and |x| is the significand times
        // 2^(e - point).
        let point: u64 = EXPONENT_BIAS + FRACTION_BITS;
        let whole: u64 = if e >= point {
            proof {
                let k = pow2((e - point) as nat);
                lemma_pow2_increases((e - point) as nat, 10);
                assert(s * k <= 0x001f_ffff_ffff_ffff * 0x400) by (nonlinear_arith)
                    requires
                        s <= 0x001f_ffff_ffff_ffff,
                        k <= 0x400,
                ;
                lemma_u64_shl_is_mul(s, (e - point) as u64);
            }
            s << (e - point)
        } else {
            proof {
                lemma_u64_shr_is_div(s, (point - e) as u64);
                lemma_pow2_pos((point - e) as nat);
                lemma_div_nonincreasing(s as int, pow2((point - e) as nat) as int);
            }
            s >> (point - e)
        };
        if negative {
            -(whole as i64)
        } else {
            whole as i64
        }
    }
}

/// The scaled values of the named patterns.
pub proof fn lemma_named_values()
    ensures
        !is_nan_spec(ZERO) && scaled_value(ZERO) == 0,
        !is_nan_spec(ONE) && scaled_value(ONE) == unit(),
        !is_nan_spec(INFINITY) && scaled_value(INFINITY) == pow2(2098),
        !is_nan_spec(NEG_INFINITY) && scaled_value(NEG_INFINITY) == -(pow2(2098) as int),
{
    lemma2_to64_rest();
    lemma_binade_bounds(ZERO);
    lemma_pow2_adds(52, 1022);
    lemma_pow2_adds(52, 2046);
}

/// Which patterns equal zero as numbers: the two zeros, and no other.
pub proof fn lemma_zero_patterns(bits: u64)
    ensures
        eq_spec(bits, ZERO) <==> bits == ZERO || bits == SIGN_BIT,
{
    lemma_named_values();
    lemma_magnitude_injective(bits, ZERO);
}

/// Which patterns equal positive infinity as numbers: its own, and no other.
pub proof fn lemma_infinity_pattern(bits: u64)
    ensures
        eq_spec(bits, INFINITY) <==> bits == INFINITY,
{
    lemma_named_values();
    lemma_magnitude_injective(bits, INFINITY);
    lemma_magnitude_injective(bits, ZERO);
}

/// Among the patterns without a sign bit that are not NaNs, the order of
/// the numbers is the order of the patterns as unsigned integers.
pub proof fn lemma_unsigned_order(a: u64, b: u64)
    requires
        a <= INFINITY,
        b <= INFINITY,
    ensures
        !is_nan_spec(a) && !is_nan_spec(b),
        lt_spec(a, b) <==> a < b,
        eq_spec(a, b) <==> a == b,
        scaled_value(a) >= 0,
{
    lemma_magnitude_injective(a, b);
}

/// Which patterns are numbers above zero: those from the smallest subnormal
/// up to positive infinity.
pub proof fn lemma_positive_patterns(bits: u64)
    ensures
        gt_spec(bits, ZERO) <==> ZERO < bits <= INFINITY,
{
    lemma_named_values();
    lemma_magnitude_injective(bits, ZERO);
}

} // verus!
