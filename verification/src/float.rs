//! Double-precision numbers, carried as their IEEE 754 bit pattern.
use vstd::arithmetic::power2::*;
use vstd::prelude::*;

verus! {

/// A double-precision number as the rest of the library reads it.
#[derive(Clone, Debug)]
pub struct Float {
    /// The IEEE 754 bit pattern.
    pub bits: u64,
    /// The bit pattern of the nearest single-precision number.
    pub single_bits: u32,
    /// The number in decimal, as the standard library prints it.
    pub text: String,
}

/// The sign bit.
pub open spec fn is_negative(bits: u64) -> bool {
    bits >= 0x8000_0000_0000_0000
}

/// The biased exponent field.
pub open spec fn exponent(bits: u64) -> int {
    (bits as int / 0x10_0000_0000_0000) % 2048
}

/// The fraction field.
pub open spec fn fraction(bits: u64) -> int {
    bits as int % 0x10_0000_0000_0000
}

/// Neither an infinity nor a NaN.
pub open spec fn is_finite(bits: u64) -> bool {
    exponent(bits) != 2047
}

/// Not a number.
pub open spec fn is_nan(bits: u64) -> bool {
    exponent(bits) == 2047 && fraction(bits) != 0
}

/// The significand: a finite number is `significand * 2^scale`, up to its sign.
pub open spec fn significand(bits: u64) -> int {
    if exponent(bits) == 0 {
        fraction(bits)
    } else {
        fraction(bits) + 0x10_0000_0000_0000
    }
}

/// The power of two that the significand is scaled by.
pub open spec fn scale(bits: u64) -> int {
    if exponent(bits) == 0 {
        -1074
    } else {
        exponent(bits) - 1075
    }
}

/// The whole part of the magnitude of a finite number.
pub open spec fn whole_magnitude(bits: u64) -> int {
    if scale(bits) >= 0 {
        significand(bits) * pow2(scale(bits) as nat)
    } else {
        significand(bits) / (pow2((-scale(bits)) as nat) as int)
    }
}

/// A finite number with no fractional part.
pub open spec fn is_whole(bits: u64) -> bool {
    is_finite(bits) && (scale(bits) >= 0 || significand(bits) % (pow2((-scale(bits)) as nat) as int)
        == 0)
}

/// A finite number rounded toward zero.
pub open spec fn truncated(bits: u64) -> int {
    if is_negative(bits) {
        -whole_magnitude(bits)
    } else {
        whole_magnitude(bits)
    }
}

/// A finite number in `[-2^63, 2^63)`.
///
/// From `2^63` up every number is whole, so the comparison can be made on the
/// whole part of the magnitude.
pub open spec fn fits_i64(bits: u64) -> bool {
    is_finite(bits) && (whole_magnitude(bits) < 0x8000_0000_0000_0000 || (is_negative(bits)
        && whole_magnitude(bits) == 0x8000_0000_0000_0000))
}

/// `2^k`.
fn two_to(k: u64) -> (r: u64)
    requires
        k <= 63,
    ensures
        r == pow2(k as nat),
{
    proof {
        lemma2_to64();
        lemma2_to64_rest();
    }
    let mut r: u64 = 1;
    let mut i: u64 = 0;
    while i < k
        invariant
            i <= k <= 63,
            r == pow2(i as nat),
        decreases k - i,
    {
        proof {
            lemma_pow2_unfold((i + 1) as nat);
            if i + 1 < 63 {
                lemma_pow2_strictly_increases((i + 1) as nat, 63);
            }
            lemma2_to64_rest();
        }
        r = r * 2;
        i += 1;
    }
    r
}

/// The biased exponent field.
fn exponent_of(bits: u64) -> (e: u64)
    ensures
        e == exponent(bits),
        e <= 2047,
{
    (bits / 0x10_0000_0000_0000) % 2048
}

/// The significand.
fn significand_of(bits: u64) -> (m: u64)
    ensures
        m == significand(bits),
        m < 0x20_0000_0000_0000,
{
    let f: u64 = bits % 0x10_0000_0000_0000;
    if exponent_of(bits) == 0 {
        f
    } else {
        f + 0x10_0000_0000_0000
    }
}

/// Whether the number is neither an infinity nor a NaN.
pub fn finite(bits: u64) -> (r: bool)
    ensures
        r == is_finite(bits),
{
    exponent_of(bits) != 2047
}

/// Whether the number is a NaN.
pub fn nan(bits: u64) -> (r: bool)
    ensures
        r == is_nan(bits),
{
    exponent_of(bits) == 2047 && bits % 0x10_0000_0000_0000 != 0
}

/// Whether the sign bit is set.
pub fn negative(bits: u64) -> (r: bool)
    ensures
        r == is_negative(bits),
{
    bits >= 0x8000_0000_0000_0000
}

/// A significand has at most 53 bits, so a scale of 12 or more puts the
/// magnitude of a normal number past `2^63`.
proof fn large_scale_exceeds(bits: u64)
    requires
        is_finite(bits),
        scale(bits) >= 12,
    ensures
        whole_magnitude(bits) > 0x8000_0000_0000_0000,
{
    let s = scale(bits) as nat;
    lemma2_to64();
    if s > 12 {
        lemma_pow2_strictly_increases(12, s);
    }
    assert(pow2(12) == 4096);
    assert(significand(bits) >= 0x10_0000_0000_0000);
    assert(significand(bits) * pow2(s) >= 0x10_0000_0000_0000 * 4096) by (nonlinear_arith)
        requires
            significand(bits) >= 0x10_0000_0000_0000,
            pow2(s) >= 4096,
    ;
}

/// A significand has at most 53 bits, so a scale of -53 or less leaves no
/// whole part.
proof fn small_scale_vanishes(bits: u64)
    requires
        is_finite(bits),
        scale(bits) <= -53,
    ensures
        whole_magnitude(bits) == 0,
        is_whole(bits) <==> significand(bits) == 0,
{
    let s = (-scale(bits)) as nat;
    lemma2_to64();
    if s > 53 {
        lemma_pow2_strictly_increases(53, s);
    }
    lemma2_to64_rest();
    let m = significand(bits);
    let p = pow2(s) as int;
    assert(0 <= m < p);
    assert(m / p == 0 && m % p == m) by (nonlinear_arith)
        requires
            0 <= m < p,
    ;
}

/// The number rounded toward zero where it lies in `[-2^63, 2^63)`; nothing
/// for other numbers, infinities and NaNs.
pub fn to_i64_in_range(bits: u64) -> (r: Option<i64>)
    ensures
        r matches Some(i) ==> fits_i64(bits) && i == truncated(bits),
        r is Some <==> fits_i64(bits),
{
    let e: u64 = exponent_of(bits);
    let m: u64 = significand_of(bits);
    if e == 2047 {
        return None;
    }
    let magnitude: u64 = if e < 1023 {
        proof {
            small_scale_vanishes(bits);
        }
        0
    } else if e < 1075 {
        let p: u64 = two_to(1075 - e);
        proof {
            lemma_pow2_pos((1075 - e) as nat);
        }
        m / p
    } else if e < 1087 {
        let p: u64 = two_to(e - 1075);
        proof {
            lemma2_to64();
            if e - 1075 < 11 {
                lemma_pow2_strictly_increases((e - 1075) as nat, 11);
            }
            assert(m * p <= 0x1f_ffff_ffff_ffff * 2048) by (nonlinear_arith)
                requires
                    0 <= m <= 0x1f_ffff_ffff_ffff,
                    0 <= p <= 2048,
            ;
        }
        m * p
    } else {
        proof {
            large_scale_exceeds(bits);
        }
        return None;
    };
    assert(magnitude == whole_magnitude(bits));
    if magnitude < 0x8000_0000_0000_0000 {
        let i: i64 = magnitude as i64;
        if negative(bits) {
            Some(-i)
        } else {
            Some(i)
        }
    } else if magnitude == 0x8000_0000_0000_0000 && negative(bits) {
        Some(i64::MIN)
    } else {
        None
    }
}

/// The number as an integer where it is whole and lies in `[-2^63, 2^63)`,
/// so that nothing is lost in the conversion.
pub fn f64_to_i64_exact(bits: u64) -> (r: Option<i64>)
    ensures
        r matches Some(i) ==> i == truncated(bits),
        r is Some <==> is_whole(bits) && fits_i64(bits),
{
    let e: u64 = exponent_of(bits);
    let m: u64 = significand_of(bits);
    if e == 2047 {
        return None;
    }
    let whole: bool = if e < 1023 {
        proof {
            small_scale_vanishes(bits);
        }
        m == 0
    } else if e < 1075 {
        let p: u64 = two_to(1075 - e);
        proof {
            lemma_pow2_pos((1075 - e) as nat);
        }
        m % p == 0
    } else {
        true
    };
    if whole {
        to_i64_in_range(bits)
    } else {
        None
    }
}

/// A bit pattern is a sign, eleven bits of exponent and fifty-two of fraction.
#[verifier::rlimit(50)]
pub proof fn fields_make_up_the_bits(bits: u64)
    ensures
        bits == (if is_negative(bits) {
            0x8000_0000_0000_0000int
        } else {
            0
        }) + exponent(bits) * 0x10_0000_0000_0000 + fraction(bits),
        0 <= exponent(bits) < 2048,
        0 <= fraction(bits) < 0x10_0000_0000_0000,
{
    let b = bits as int;
    let q = b / 0x10_0000_0000_0000;
    assert(b == q * 0x10_0000_0000_0000 + fraction(bits));
    assert(0 <= q < 4096);
    assert(is_negative(bits) <==> q >= 2048);
}

/// Past the largest finite number comes infinity, and past infinity the NaNs, whatever
/// the sign.
pub proof fn infinity_is_the_limit(bits: u64)
    ensures
        is_finite(bits) <==> bits % 0x8000_0000_0000_0000 < 0x7ff0_0000_0000_0000,
        is_nan(bits) <==> bits % 0x8000_0000_0000_0000 > 0x7ff0_0000_0000_0000,
{
    fields_make_up_the_bits(bits);
}

/// The whole part of a number is the largest integer that is not above its magnitude;
/// a number is whole where nothing is left.
#[verifier::rlimit(50)]
pub proof fn truncation_rounds_toward_zero(bits: u64)
    requires
        is_finite(bits),
    ensures
        ({
            let m = significand(bits);
            let w = whole_magnitude(bits);
            if scale(bits) >= 0 {
                w == m * pow2(scale(bits) as nat) && is_whole(bits)
            } else {
                let p = pow2((-scale(bits)) as nat);
                w * p <= m < (w + 1) * p && (is_whole(bits) <==> w * p == m)
            }
        }),
        truncated(bits) == whole_magnitude(bits) || truncated(bits) == -whole_magnitude(bits),
        is_negative(bits) ==> truncated(bits) <= 0,
        !is_negative(bits) ==> truncated(bits) >= 0,
        fits_i64(bits) <==> i64::MIN <= truncated(bits) <= i64::MAX,
{
    let m = significand(bits);
    let w = whole_magnitude(bits);
    fields_make_up_the_bits(bits);
    if scale(bits) >= 0 {
        lemma_pow2_pos(scale(bits) as nat);
        let p = pow2(scale(bits) as nat) as int;
        assert(m * p >= 0) by (nonlinear_arith)
            requires
                m >= 0,
                p > 0,
        ;
    } else {
        let p = pow2((-scale(bits)) as nat) as int;
        lemma_pow2_pos((-scale(bits)) as nat);
        vstd::arithmetic::div_mod::lemma_fundamental_div_mod(m, p);
        vstd::arithmetic::div_mod::lemma_mod_bound(m, p);
        vstd::arithmetic::div_mod::lemma_div_pos_is_pos(m, p);
        assert(p * w == w * p) by (nonlinear_arith);
        assert((w + 1) * p == w * p + p) by (nonlinear_arith);
    }
}

/// An integer of fifty-three bits is a number that is whole and reads back as it.
pub proof fn integers_are_exact(n: int, bits: u64)
    requires
        0x10_0000_0000_0000 <= n < 0x20_0000_0000_0000,
        bits == 1075 * 0x10_0000_0000_0000 + (n - 0x10_0000_0000_0000),
    ensures
        truncated(bits) == n,
        is_whole(bits),
{
    assert(exponent(bits) == 1075);
    assert(fraction(bits) == n - 0x10_0000_0000_0000);
    lemma2_to64();
    assert(n * 1 == n);
}

/// A number with the exponent 1023 + `k` and no fraction is the power of two `2^k`.
#[verifier::rlimit(50)]
pub proof fn powers_of_two_are_exact(k: nat, bits: u64)
    requires
        k <= 62,
        bits == (1023 + k) * 0x10_0000_0000_0000,
    ensures
        truncated(bits) == pow2(k),
        is_whole(bits),
        fits_i64(bits),
{
    assert(exponent(bits) == 1023 + k);
    assert(fraction(bits) == 0);
    lemma2_to64();
    lemma2_to64_rest();
    let one: int = 0x10_0000_0000_0000;
    assert(pow2(52) == one);
    if k >= 52 {
        lemma_pow2_adds(52, (k - 52) as nat);
    } else {
        let rest = (52 - k) as nat;
        lemma_pow2_adds(k, rest);
        lemma_pow2_pos(rest);
        lemma_pow2_pos(k);
        let p = pow2(rest) as int;
        let q = pow2(k) as int;
        assert(one == q * p);
        vstd::arithmetic::div_mod::lemma_div_multiples_vanish(q, p);
        vstd::arithmetic::div_mod::lemma_mod_multiples_basic(q, p);
        assert(p * q == q * p) by (nonlinear_arith);
    }
    if k < 62 {
        lemma_pow2_strictly_increases(k, 62);
    }
    assert(pow2(k) <= pow2(62));
}

/// A normal number has a bit of its own in front of the fraction; a subnormal number
/// has none, and the scale of the smallest normal numbers.
pub proof fn fractions_follow_a_hidden_bit(bits: u64)
    requires
        is_finite(bits),
    ensures
        exponent(bits) >= 1 ==> significand(bits) == 0x10_0000_0000_0000 + fraction(bits)
            && scale(bits) == exponent(bits) - 1075,
        exponent(bits) == 0 ==> significand(bits) == fraction(bits) && scale(bits) == -1074,
{
}

} // verus!
