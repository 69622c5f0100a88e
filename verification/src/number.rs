//! JavaScript numbers, held as the bits of their IEEE 754 binary64 encoding.
//!
//! Both backends hand values across as JavaScript numbers. This module reads
//! such a number as the integer it equals, when it equals one, and builds the
//! number an integer becomes -- all on the 64 bits of the encoding, so that
//! every step is integer arithmetic with a stated meaning.
use vstd::arithmetic::div_mod::*;
use vstd::arithmetic::mul::*;
use vstd::arithmetic::power2::*;
use vstd::bits::*;
use vstd::prelude::*;

verus! {

/// The largest integer a JavaScript number holds exactly: 2^53 − 1.
/// `Number.MAX_SAFE_INTEGER`, in other words.
pub const MAX_SAFE_INTEGER: i64 = 9007199254740991;

/// Whether a JavaScript number can carry `value` without rounding.
pub open spec fn is_safe_integer(value: int) -> bool {
    -MAX_SAFE_INTEGER <= value <= MAX_SAFE_INTEGER
}

/// 2^52: the implicit leading bit of a normal number's significand.
pub open spec fn hidden_bit() -> int {
    0x10_0000_0000_0000
}

/// Whether the number with these bits has its sign bit set.
pub open spec fn sign_negative(bits: u64) -> bool {
    bits >= 0x8000_0000_0000_0000
}

/// The biased exponent: bits 52 to 62.
pub open spec fn exponent_field(bits: u64) -> int {
    ((bits / 0x10_0000_0000_0000) % 0x800) as int
}

/// The fraction: bits 0 to 51.
pub open spec fn fraction_field(bits: u64) -> int {
    (bits % 0x10_0000_0000_0000) as int
}

pub open spec fn abs(n: int) -> int {
    if n < 0 {
        -n
    } else {
        n
    }
}

/// The number with these bits is exactly the integer `n`.
///
/// A normal number (exponent field `e` neither 0 nor 2047) is
/// (−1)^s · (2^52 + f) · 2^(e − 1075); a subnormal one (e = 0) is
/// (−1)^s · f · 2^(−1074); e = 2047 encodes the infinities and NaN, which equal
/// no integer. Zero is equal to both +0 and −0.
pub open spec fn number_equals_integer(bits: u64, n: int) -> bool {
    let e = exponent_field(bits);
    let f = fraction_field(bits);
    &&& (n > 0 ==> !sign_negative(bits))
    &&& (n < 0 ==> sign_negative(bits))
    &&& if e == 0x7ff {
        false
    } else if e == 0 {
        f == abs(n) * pow2(1074)
    } else if e >= 1075 {
        abs(n) == (f + hidden_bit()) * pow2((e - 1075) as nat)
    } else {
        f + hidden_bit() == abs(n) * pow2((1075 - e) as nat)
    }
}

/// The number with these bits equals some integer a JavaScript number holds
/// exactly.
pub open spec fn is_safe_whole_number(bits: u64) -> bool {
    exists|n: int| is_safe_integer(n) && #[trigger] number_equals_integer(bits, n)
}

proof fn lemma_pow2_facts()
    ensures
        pow2(52) == 0x10_0000_0000_0000,
        pow2(53) == 0x20_0000_0000_0000,
{
    lemma2_to64();
    lemma2_to64_rest();
}

/// A number equals at most one integer.
pub proof fn lemma_number_equals_one_integer(bits: u64, n1: int, n2: int)
    requires
        number_equals_integer(bits, n1),
        number_equals_integer(bits, n2),
    ensures
        n1 == n2,
{
    let e = exponent_field(bits);
    let f = fraction_field(bits);
    if e == 0 {
        lemma_pow2_pos(1074);
        if abs(n1) != abs(n2) {
            if abs(n1) < abs(n2) {
                lemma_mul_strict_inequality(abs(n1), abs(n2), pow2(1074) as int);
            } else {
                lemma_mul_strict_inequality(abs(n2), abs(n1), pow2(1074) as int);
            }
        }
    } else if e < 1075 {
        let p = pow2((1075 - e) as nat) as int;
        lemma_pow2_pos((1075 - e) as nat);
        if abs(n1) != abs(n2) {
            if abs(n1) < abs(n2) {
                lemma_mul_strict_inequality(abs(n1), abs(n2), p);
            } else {
                lemma_mul_strict_inequality(abs(n2), abs(n1), p);
            }
        }
    }
}

/// The integer a JavaScript number equals, when it equals one that a
/// JavaScript number holds exactly: ±(2^53 − 1) at most.
///
/// `bits` are the number's IEEE 754 binary64 encoding. `3.0` and `-0.0` give
/// `Some(3)` and `Some(0)`; `1.5`, `2^53`, the infinities and NaN give `None`.
pub fn safe_whole_number(bits: u64) -> (r: Option<i64>)
    ensures
        match r {
            Some(n) => is_safe_integer(n as int) && number_equals_integer(bits, n as int),
            None => !is_safe_whole_number(bits),
        },
{
    let e: u64 = (bits >> 52u64) & 0x7ffu64;
    let f: u64 = bits & 0xf_ffff_ffff_ffffu64;
    let top: u64 = bits >> 63u64;
    proof {
        assert(e == (bits / 0x10_0000_0000_0000) % 0x800) by (bit_vector)
            requires
                e == (bits >> 52u64) & 0x7ffu64,
        ;
        assert(f == bits % 0x10_0000_0000_0000) by (bit_vector)
            requires
                f == bits & 0xf_ffff_ffff_ffffu64,
        ;
        assert((top == 1) == (bits >= 0x8000_0000_0000_0000)) by (bit_vector)
            requires
                top == bits >> 63u64,
        ;
        lemma_pow2_facts();
    }
    if e == 0 {
        if f == 0 {
            proof {
                lemma_mul_by_zero_is_zero(pow2(1074) as int);
            }
            return Some(0);
        }
        proof {
            assert forall|n: int| is_safe_integer(n) implies !number_equals_integer(bits, n) by {
                lemma_pow2_strictly_increases(52, 1074);
                lemma_mul_by_zero_is_zero(pow2(1074) as int);
                if n != 0 {
                    lemma_mul_increases(abs(n), pow2(1074) as int);
                    lemma_mul_is_commutative(abs(n), pow2(1074) as int);
                }
            }
        }
        return None;
    }
    if e == 0x7ff {
        return None;
    }
    if e < 1023 {
        proof {
            assert forall|n: int| is_safe_integer(n) implies !number_equals_integer(bits, n) by {
                let s = (1075 - e) as nat;
                if s > 53 {
                    lemma_pow2_strictly_increases(53, s);
                }
                lemma_mul_by_zero_is_zero(pow2(s) as int);
                if n != 0 {
                    lemma_mul_increases(abs(n), pow2(s) as int);
                    lemma_mul_is_commutative(abs(n), pow2(s) as int);
                }
            }
        }
        return None;
    }
    if e > 1075 {
        proof {
            assert forall|n: int| is_safe_integer(n) implies !number_equals_integer(bits, n) by {
                let s = (e - 1075) as nat;
                lemma_pow2_pos(s);
                lemma2_to64();
                if s > 1 {
                    lemma_pow2_strictly_increases(1, s);
                }
                lemma_mul_inequality(2, pow2(s) as int, f + hidden_bit());
                lemma_mul_is_commutative(pow2(s) as int, f + hidden_bit());
            }
        }
        return None;
    }
    let shift: u64 = 1075 - e;
    let sig: u64 = f | 0x10_0000_0000_0000u64;
    proof {
        assert(sig == f + 0x10_0000_0000_0000) by (bit_vector)
            requires
                f < 0x10_0000_0000_0000,
                sig == f | 0x10_0000_0000_0000u64,
        ;
        lemma_u64_pow2_no_overflow(shift as nat);
        lemma_u64_shl_is_mul(1, shift);
    }
    let unit: u64 = 1u64 << shift;
    let mask: u64 = unit - 1;
    let rest: u64 = sig & mask;
    let m: u64 = sig >> shift;
    let p = Ghost(pow2(shift as nat) as int);
    proof {
        assert(mask == low_bits_mask(shift as nat) as u64);
        lemma_u64_low_bits_mask_is_mod(sig, shift as nat);
        lemma_u64_shr_is_div(sig, shift);
        lemma_pow2_pos(shift as nat);
        lemma_fundamental_div_mod(sig as int, p@);
        assert(sig as int == p@ * m + rest);
    }
    if rest != 0 {
        proof {
            assert forall|n: int| is_safe_integer(n) implies !number_equals_integer(bits, n) by {
                if e == 1075 {
                    assert(pow2(0) == 1) by {
                        lemma2_to64();
                    }
                    assert(rest == 0);
                } else if number_equals_integer(bits, n) {
                    lemma_mod_multiples_basic(abs(n), p@);
                }
            }
        }
        return None;
    }
    proof {
        lemma_mul_is_commutative(p@, m as int);
        if shift > 0 {
            lemma_pow2_strictly_increases(0, shift as nat);
        }
        assert(pow2(0) == 1) by {
            lemma2_to64();
        }
        lemma_mul_increases(m as int, p@);
        if m == 0 {
            assert(sig == 0);
        }
    }
    if top == 1 {
        Some(-(m as i64))
    } else {
        Some(m as i64)
    }
}

/// The number of binary digits of `a`: 0 for 0, else k with 2^(k−1) ≤ a < 2^k.
pub open spec fn bit_length(a: nat) -> nat
    decreases a,
{
    if a == 0 {
        0
    } else {
        1 + bit_length(a / 2)
    }
}

/// `a / 2^shift` rounded to the nearest integer, ties to the even one.
pub open spec fn round_half_even(a: nat, shift: nat) -> nat {
    let q = a / pow2(shift);
    let r = a % pow2(shift);
    if shift == 0 {
        q
    } else if r > pow2((shift - 1) as nat) || (r == pow2((shift - 1) as nat) && q % 2 == 1) {
        q + 1
    } else {
        q
    }
}

/// The integer that the JavaScript number nearest to `v` equals: `v` itself
/// when it has at most 53 significant bits, else `v` rounded to 53
/// significant bits, ties to even -- which is what `v as f64` does.
pub open spec fn nearest_number(v: int) -> int {
    let a = abs(v) as nat;
    let k = bit_length(a);
    if k <= 53 {
        v
    } else {
        let s = (k - 53) as nat;
        let m = (round_half_even(a, s) * pow2(s)) as int;
        if v < 0 {
            -m
        } else {
            m
        }
    }
}

proof fn lemma_bit_length_bounds(a: nat)
    requires
        a > 0,
    ensures
        bit_length(a) >= 1,
        pow2((bit_length(a) - 1) as nat) <= a < pow2(bit_length(a)),
    decreases a,
{
    lemma2_to64();
    if a == 1 {
        assert(bit_length(0) == 0);
        assert(bit_length(1) == 1);
    } else {
        lemma_bit_length_bounds(a / 2);
        let k = bit_length(a / 2);
        lemma_pow2_unfold(k);
        if k >= 1 {
            lemma_pow2_unfold(k);
        }
        assert(bit_length(a) == k + 1);
        assert(pow2(k) == 2 * pow2((k - 1) as nat)) by {
            lemma_pow2_unfold(k);
        }
        assert(pow2(k + 1) == 2 * pow2(k)) by {
            lemma_pow2_unfold(k + 1);
        }
    }
}

proof fn lemma_bit_length_small(a: nat)
    requires
        a < 0x20_0000_0000_0000,
    ensures
        bit_length(a) <= 53,
{
    if a > 0 {
        lemma_bit_length_bounds(a);
        lemma_pow_facts_and_order(bit_length(a));
    }
}

proof fn lemma_pow_facts_and_order(k: nat)
    requires
        pow2((k - 1) as nat) < 0x20_0000_0000_0000 || k == 0,
    ensures
        k <= 53,
{
    lemma_pow2_facts();
    if k > 53 {
        lemma_pow2_strictly_increases(53, (k - 1) as nat);
        if k - 1 == 53 {
        }
    }
}

/// Every integer within ±(2^53 − 1) is its own nearest number.
pub proof fn lemma_nearest_number_of_safe(v: int)
    requires
        is_safe_integer(v),
    ensures
        nearest_number(v) == v,
{
    lemma_bit_length_small(abs(v) as nat);
}

/// A number's bits, split back into sign, exponent and fraction.
proof fn lemma_fields(bits: u64)
    ensures
        bits == (if sign_negative(bits) { 0x8000_0000_0000_0000u64 as int } else { 0 })
            + exponent_field(bits) * 0x10_0000_0000_0000 + fraction_field(bits),
{
    assert(bits == (if bits >= 0x8000_0000_0000_0000u64 { 0x8000_0000_0000_0000u64 } else { 0u64 })
        + ((bits / 0x10_0000_0000_0000) % 0x800) * 0x10_0000_0000_0000 + bits
        % 0x10_0000_0000_0000) by (bit_vector);
}

/// A significand of 53 bits times 2^d, for d ≥ 1, has more than 53 bits.
proof fn lemma_significand_scaled(s: int, d: nat)
    requires
        0x10_0000_0000_0000 <= s,
        d >= 1,
    ensures
        s * pow2(d) >= 0x20_0000_0000_0000,
{
    lemma2_to64();
    if d > 1 {
        lemma_pow2_strictly_increases(1, d);
    }
    lemma_mul_inequality(2, pow2(d) as int, s);
    lemma_mul_is_commutative(pow2(d) as int, s);
}

/// Of two numbers that equal the same nonzero integer, neither has a smaller
/// exponent than the other.
proof fn lemma_same_exponent(b1: u64, b2: u64, n: int)
    requires
        n != 0,
        number_equals_integer(b1, n),
        number_equals_integer(b2, n),
    ensures
        exponent_field(b1) >= exponent_field(b2),
{
    if exponent_field(b1) < exponent_field(b2) {
        lemma_smaller_exponent_impossible(b1, b2, n);
    }
}

proof fn lemma_smaller_exponent_impossible(b1: u64, b2: u64, n: int)
    requires
        n != 0,
        number_equals_integer(b1, n),
        number_equals_integer(b2, n),
        exponent_field(b1) < exponent_field(b2),
    ensures
        exponent_field(b1) >= exponent_field(b2),
{
    let e1 = exponent_field(b1);
    let e2 = exponent_field(b2);
    let s1 = fraction_field(b1) + hidden_bit();
    let s2 = fraction_field(b2) + hidden_bit();
    let m = abs(n);
    lemma_pow2_facts();
    lemma_pow2_strictly_increases(52, 1074);
    if e1 == 0 {
        lemma_mul_increases(m, pow2(1074) as int);
        lemma_mul_is_commutative(m, pow2(1074) as int);
        return;
    }
    if e1 >= 1075 {
        // m = s1 · 2^(e1−1075) = s2 · 2^(e2−1075), so s1 = s2 · 2^(e2−e1).
        let d1 = (e1 - 1075) as nat;
        let d = (e2 - e1) as nat;
        lemma_pow2_adds(d1, d);
        assert((e2 - 1075) as nat == d1 + d);
        lemma_mul_is_associative(s2, pow2(d) as int, pow2(d1) as int);
        lemma_mul_is_commutative(pow2(d) as int, pow2(d1) as int);
        lemma_pow2_pos(d1);
        lemma_significand_scaled(s2, d);
        lemma_mul_strict_inequality(s1, s2 * pow2(d), pow2(d1) as int);
    } else if e2 >= 1075 {
        // s1 = m · 2^(1075−e1) with m = s2 · 2^(e2−1075) ≥ 2^52.
        let d = (1075 - e1) as nat;
        lemma_pow2_pos((e2 - 1075) as nat);
        lemma_mul_increases(pow2((e2 - 1075) as nat) as int, s2);
        lemma_mul_is_commutative(pow2((e2 - 1075) as nat) as int, s2);
        lemma_significand_scaled(m, d);
    } else {
        // s1 = m · 2^(1075−e1) = m · 2^(1075−e2) · 2^(e2−e1) = s2 · 2^(e2−e1).
        let d2 = (1075 - e2) as nat;
        let d = (e2 - e1) as nat;
        lemma_pow2_adds(d2, d);
        assert((1075 - e1) as nat == d2 + d);
        lemma_mul_is_associative(m, pow2(d2) as int, pow2(d) as int);
        lemma_significand_scaled(s2, d);
    }
}

/// A normal number is not zero.
proof fn lemma_normal_not_zero(b: u64)
    requires
        exponent_field(b) != 0,
    ensures
        !number_equals_integer(b, 0),
{
    let e = exponent_field(b);
    let s = fraction_field(b) + hidden_bit();
    if e >= 1075 {
        lemma_pow2_pos((e - 1075) as nat);
        lemma_mul_strictly_positive(s, pow2((e - 1075) as nat) as int);
    } else {
        lemma_mul_by_zero_is_zero(pow2((1075 - e) as nat) as int);
    }
}

/// The numbers equal to zero are +0 and −0.
pub proof fn lemma_zero_bits(b: u64)
    requires
        number_equals_integer(b, 0),
    ensures
        b == 0 || b == 0x8000_0000_0000_0000u64,
{
    if exponent_field(b) != 0 {
        lemma_normal_not_zero(b);
    }
    lemma_mul_by_zero_is_zero(pow2(1074) as int);
    lemma_fields(b);
}

/// A nonzero integer is equalled by exactly one number.
pub proof fn lemma_bits_of_integer_unique(b1: u64, b2: u64, n: int)
    requires
        n != 0,
        number_equals_integer(b1, n),
        number_equals_integer(b2, n),
    ensures
        b1 == b2,
{
    let e1 = exponent_field(b1);
    let e2 = exponent_field(b2);
    lemma_same_exponent(b1, b2, n);
    lemma_same_exponent(b2, b1, n);
    let s1 = fraction_field(b1) + hidden_bit();
    let s2 = fraction_field(b2) + hidden_bit();
    lemma_pow2_facts();
    lemma_pow2_strictly_increases(52, 1074);
    if e1 == 0 {
        lemma_mul_increases(abs(n), pow2(1074) as int);
        lemma_mul_is_commutative(abs(n), pow2(1074) as int);
    } else if e1 >= 1075 {
        let p = pow2((e1 - 1075) as nat) as int;
        lemma_pow2_pos((e1 - 1075) as nat);
        if s1 < s2 {
            lemma_mul_strict_inequality(s1, s2, p);
        } else if s2 < s1 {
            lemma_mul_strict_inequality(s2, s1, p);
        }
    }
    lemma_fields(b1);
    lemma_fields(b2);
}

/// The bits of the number nearest to `v`: the one number that equals
/// [`nearest_number`]`(v)`, and +0 for zero.
pub open spec fn number_bits(v: int) -> u64 {
    if v == 0 {
        0
    } else {
        choose|b: u64| number_equals_integer(b, nearest_number(v))
    }
}

/// The bits of a safe integer's number are a number that equals it.
pub proof fn lemma_number_bits_of_safe(v: int)
    requires
        is_safe_integer(v),
    ensures
        number_equals_integer(number_bits(v), v),
{
    lemma_nearest_number_of_safe(v);
    if v == 0 {
        lemma_mul_by_zero_is_zero(pow2(1074) as int);
        assert(0u64 / 0x10_0000_0000_0000 == 0);
    } else {
        let b = lemma_safe_integer_has_number(v);
    }
}

/// A nonzero safe integer is equalled by some number: the normal one with
/// its bits as significand.
proof fn lemma_safe_integer_has_number(v: int) -> (b: u64)
    requires
        is_safe_integer(v),
        v != 0,
    ensures
        number_equals_integer(b, v),
{
    let a = abs(v) as nat;
    lemma_bit_length_bounds(a);
    lemma_bit_length_small(a);
    lemma_pow2_facts();
    let k = bit_length(a);
    let up = (53 - k) as nat;
    lemma_pow2_adds((k - 1) as nat, up);
    lemma_pow2_adds(k, up);
    lemma_mul_inequality(pow2((k - 1) as nat) as int, a as int, pow2(up) as int);
    lemma_mul_strict_inequality(a as int, pow2(k) as int, pow2(up) as int);
    let sig = a * pow2(up);
    let e = (1022 + k) as u64;
    let frac = (sig - 0x10_0000_0000_0000) as u64;
    let sign: u64 = if v < 0 { 0x8000_0000_0000_0000u64 } else { 0u64 };
    lemma_assemble(sign, e, frac);
    let b = sign | (e << 52u64) | frac;
    lemma_mul_basics(a as int);
    lemma_mul_basics(sig as int);
    if k == 53 {
        assert(pow2(0) == 1) by {
            lemma2_to64();
        }
        assert(abs(v) == (fraction_field(b) + hidden_bit()) * pow2((exponent_field(b) - 1075) as nat));
    } else {
        assert((1075 - e) as nat == up);
        assert(fraction_field(b) + hidden_bit() == abs(v) * pow2((1075 - exponent_field(b)) as nat));
    }
    b
}

/// The bits of a number put together from a sign, a biased exponent and a
/// fraction, read back field by field.
proof fn lemma_assemble(sign: u64, e: u64, frac: u64)
    requires
        sign == 0 || sign == 0x8000_0000_0000_0000u64,
        e < 0x800,
        frac < 0x10_0000_0000_0000,
    ensures
        exponent_field(sign | (e << 52u64) | frac) == e,
        fraction_field(sign | (e << 52u64) | frac) == frac,
        sign_negative(sign | (e << 52u64) | frac) == (sign != 0),
{
    let r = sign | (e << 52u64) | frac;
    assert((r / 0x10_0000_0000_0000) % 0x800 == e) by (bit_vector)
        requires
            sign == 0 || sign == 0x8000_0000_0000_0000u64,
            e < 0x800,
            frac < 0x10_0000_0000_0000,
            r == sign | (e << 52u64) | frac,
    ;
    assert(r % 0x10_0000_0000_0000 == frac) by (bit_vector)
        requires
            sign == 0 || sign == 0x8000_0000_0000_0000u64,
            e < 0x800,
            frac < 0x10_0000_0000_0000,
            r == sign | (e << 52u64) | frac,
    ;
    assert((r >= 0x8000_0000_0000_0000) == (sign != 0)) by (bit_vector)
        requires
            sign == 0 || sign == 0x8000_0000_0000_0000u64,
            e < 0x800,
            frac < 0x10_0000_0000_0000,
            r == sign | (e << 52u64) | frac,
    ;
}

/// The bits of the JavaScript number nearest to `v`: what `v as f64` gives.
///
/// Exact within ±2^53, so every integer that passes [`is_safe_integer`]
/// becomes the number that equals it.
pub fn number_of_integer(v: i64) -> (r: u64)
    ensures
        r == number_bits(v as int),
        number_equals_integer(r, nearest_number(v as int)),
{
    let r = encode_integer(v);
    proof {
        if v != 0 {
            let n = nearest_number(v as int);
            lemma_normal_not_zero(r);
            let b = choose|b: u64| number_equals_integer(b, n);
            lemma_bits_of_integer_unique(r, b, n);
        }
    }
    r
}

fn encode_integer(v: i64) -> (r: u64)
    ensures
        number_equals_integer(r, nearest_number(v as int)),
        v == 0 ==> r == 0,
        v != 0 ==> exponent_field(r) != 0,
{
    if v == 0 {
        proof {
            lemma_mul_by_zero_is_zero(pow2(1074) as int);
            assert(bit_length(0) == 0);
            assert(0u64 / 0x10_0000_0000_0000 == 0);
        }
        return 0;
    }
    let negative = v < 0;
    let a: u64 = if v == i64::MIN {
        0x8000_0000_0000_0000u64
    } else if negative {
        (-v) as u64
    } else {
        v as u64
    };
    assert(a as int == abs(v as int));
    let mut k: u64 = 0;
    let mut t: u64 = a;
    proof {
        lemma2_to64();
        assert(a as nat / 1 == a as nat);
    }
    while t != 0
        invariant
            bit_length(a as nat) == k + bit_length(t as nat),
            k <= 64,
            t as nat <= a as nat / pow2(k as nat),
        decreases t,
    {
        proof {
            assert(t >> 1u64 == t / 2) by (bit_vector);
            assert(bit_length(t as nat) == 1 + bit_length((t / 2) as nat));
            lemma_pow2_pos(k as nat);
            lemma_pow2_unfold((k + 1) as nat);
            lemma_div_denominator(a as int, pow2(k as nat) as int, 2);
            lemma_mul_is_commutative(pow2(k as nat) as int, 2);
            lemma_div_is_ordered(t as int, (a as nat / pow2(k as nat)) as int, 2);
            if k == 64 {
                lemma2_to64();
                assert(a as nat / pow2(64) == 0) by {
                    lemma_basic_div(a as int, pow2(64) as int);
                }
            }
        }
        t = t >> 1u64;
        k = k + 1;
    }
    let ghost an = a as nat;
    proof {
        lemma_bit_length_bounds(an);
        lemma_pow2_facts();
        lemma2_to64();
        lemma2_to64_rest();
        if k == 0 {
            assert(bit_length(an) == 0);
        }
    }
    let sign: u64 = if negative { 0x8000_0000_0000_0000u64 } else { 0u64 };
    if k <= 53 {
        let up: u64 = 53 - k;
        proof {
            lemma_pow2_adds((k - 1) as nat, up as nat);
            lemma_pow2_adds(k as nat, up as nat);
            lemma_mul_inequality(pow2((k - 1) as nat) as int, an as int, pow2(up as nat) as int);
            lemma_mul_strict_inequality(an as int, pow2(k as nat) as int, pow2(up as nat) as int);
            lemma_u64_pow2_no_overflow(up as nat);
            lemma_u64_shl_is_mul(a, up);
        }
        let sig: u64 = a << up;
        let e: u64 = 1022 + k;
        let frac: u64 = sig - 0x10_0000_0000_0000u64;
        proof {
            lemma_assemble(sign, e, frac);
            lemma_mul_is_commutative(an as int, pow2(up as nat) as int);
            assert(bit_length(an) == k);
            assert(nearest_number(v as int) == v as int);
            assert(sig as int == an * pow2(up as nat));
            assert(frac + hidden_bit() == sig);
            if k == 53 {
                assert(pow2(0) == 1);
                assert(exponent_field(sign | (e << 52u64) | frac) == 1075);
            } else {
                assert((1075 - e) as nat == up as nat);
            }
            let rr = sign | (e << 52u64) | frac;
            assert(sign_negative(rr) == negative);
            assert(abs(v as int) * pow2(up as nat) == an * pow2(up as nat));
            assert(exponent_field(rr) == e);
            assert(fraction_field(rr) == frac);
            if k < 53 {
                assert(fraction_field(rr) + hidden_bit() == abs(v as int) * pow2(
                    (1075 - exponent_field(rr)) as nat,
                ));
            } else {
                lemma_mul_basics(sig as int);
                lemma_mul_basics(an as int);
                assert(abs(v as int) == (fraction_field(rr) + hidden_bit()) * pow2(
                    (exponent_field(rr) - 1075) as nat,
                ));
            }
            assert(number_equals_integer(rr, v as int));
        }
        return sign | (e << 52u64) | frac;
    }
    let s: u64 = k - 53;
    proof {
        lemma_u64_pow2_no_overflow(s as nat);
        lemma_u64_shl_is_mul(1, s);
        lemma_u64_pow2_no_overflow((s - 1) as nat);
        lemma_u64_shl_is_mul(1, (s - 1) as u64);
    }
    let unit: u64 = 1u64 << s;
    let half: u64 = 1u64 << (s - 1);
    let q: u64 = a >> s;
    let r: u64 = a & (unit - 1);
    let ghost p = pow2(s as nat) as int;
    proof {
        assert((unit - 1) as u64 == low_bits_mask(s as nat) as u64);
        lemma_u64_low_bits_mask_is_mod(a, s as nat);
        lemma_u64_shr_is_div(a, s);
        lemma_pow2_pos(s as nat);
        lemma_fundamental_div_mod(an as int, p);
        lemma_pow2_adds(52, s as nat);
        lemma_pow2_adds(53, s as nat);
        assert((k - 1) as nat == 52 + s as nat);
        assert(k as nat == 53 + s as nat);
        // 2^52 <= q < 2^53
        if q < 0x10_0000_0000_0000 {
            lemma_mul_inequality(q as int, 0xf_ffff_ffff_ffff, p);
            lemma_mul_is_commutative(p, q as int);
            lemma_mul_is_distributive_add(p, 0xf_ffff_ffff_ffff, 1);
            lemma_mul_is_commutative(p, 0x10_0000_0000_0000);
        }
        if q >= 0x20_0000_0000_0000 {
            lemma_mul_inequality(0x20_0000_0000_0000, q as int, p);
            lemma_mul_is_commutative(p, q as int);
        }
        assert(q % 2 == (q & 1u64)) by (bit_vector);
    }
    let mut m: u64 = q;
    let mut e: u64 = 1022 + k;
    if r > half || (r == half && q & 1u64 == 1) {
        m = q + 1;
    }
    assert(m == round_half_even(an, s as nat));
    let ghost rounded = m;
    if m == 0x20_0000_0000_0000u64 {
        m = 0x10_0000_0000_0000u64;
        e = e + 1;
    }
    let frac: u64 = m - 0x10_0000_0000_0000u64;
    proof {
        lemma_assemble(sign, e, frac);
        if rounded == 0x20_0000_0000_0000u64 {
            lemma_pow2_adds(1, s as nat);
            lemma_mul_is_associative(0x10_0000_0000_0000, 2, p);
            assert((e - 1075) as nat == s as nat + 1);
        } else {
            assert((e - 1075) as nat == s as nat);
        }
    }
    sign | (e << 52u64) | frac
}

/// Whether the number with these bits is NaN.
pub open spec fn is_nan(bits: u64) -> bool {
    exponent_field(bits) == 0x7ff && fraction_field(bits) != 0
}

/// Whether the number with these bits is an infinity.
pub open spec fn is_infinite(bits: u64) -> bool {
    exponent_field(bits) == 0x7ff && fraction_field(bits) == 0
}

/// The magnitude of a finite number with exponent field `e` and fraction
/// `f`, rounded toward zero: a subnormal is below 1, and a normal one is
/// (2^52 + f) · 2^(e − 1075).
pub open spec fn magnitude_toward_zero(e: int, f: int) -> int {
    if e == 0 {
        0
    } else if e >= 1075 {
        (f + hidden_bit()) * pow2((e - 1075) as nat)
    } else {
        (f + hidden_bit()) / (pow2((1075 - e) as nat) as int)
    }
}

/// The magnitude of the finite number with these bits, rounded toward zero.
pub open spec fn truncated_magnitude(bits: u64) -> int {
    magnitude_toward_zero(exponent_field(bits), fraction_field(bits))
}

/// `x as u64` for the number `x` with these bits: rounded toward zero, NaN
/// and everything below zero as 0, and everything past `u64::MAX` as
/// `u64::MAX`.
pub open spec fn number_as_u64(bits: u64) -> u64 {
    if is_nan(bits) || sign_negative(bits) {
        0
    } else if is_infinite(bits) || truncated_magnitude(bits) > u64::MAX {
        u64::MAX
    } else {
        truncated_magnitude(bits) as u64
    }
}

/// `x as i64` for the number `x` with these bits: rounded toward zero, NaN
/// as 0, and everything beyond the range of `i64` as its nearer end.
pub open spec fn number_as_i64(bits: u64) -> i64 {
    if is_nan(bits) {
        0
    } else if sign_negative(bits) {
        if is_infinite(bits) || truncated_magnitude(bits) > 0x8000_0000_0000_0000 {
            i64::MIN
        } else {
            (-truncated_magnitude(bits)) as i64
        }
    } else if is_infinite(bits) || truncated_magnitude(bits) > i64::MAX {
        i64::MAX
    } else {
        truncated_magnitude(bits) as i64
    }
}

/// The fields of a number: its exponent field, its fraction and whether its
/// sign bit is set.
fn fields_of(bits: u64) -> (r: (u64, u64, bool))
    ensures
        r.0 == exponent_field(bits),
        r.1 == fraction_field(bits),
        r.2 == sign_negative(bits),
        r.0 < 0x800,
        r.1 < 0x10_0000_0000_0000,
{
    let e: u64 = (bits >> 52u64) & 0x7ffu64;
    let f: u64 = bits & 0xf_ffff_ffff_ffffu64;
    let top: u64 = bits >> 63u64;
    proof {
        assert(e == (bits / 0x10_0000_0000_0000) % 0x800) by (bit_vector)
            requires
                e == (bits >> 52u64) & 0x7ffu64,
        ;
        assert(f == bits % 0x10_0000_0000_0000) by (bit_vector)
            requires
                f == bits & 0xf_ffff_ffff_ffffu64,
        ;
        assert((top == 1) == (bits >= 0x8000_0000_0000_0000)) by (bit_vector)
            requires
                top == bits >> 63u64,
        ;
    }
    (e, f, top == 1)
}

/// The magnitude of a finite number with exponent field `e` and fraction
/// `f`, rounded toward zero, if it fits in a `u64`.
fn finite_magnitude(e: u64, f: u64) -> (r: Option<u64>)
    requires
        e < 0x7ff,
        f < 0x10_0000_0000_0000,
    ensures
        match r {
            Some(m) => m == magnitude_toward_zero(e as int, f as int),
            None => magnitude_toward_zero(e as int, f as int) > u64::MAX,
        },
{
    if e == 0 {
        return Some(0);
    }
    let sig: u64 = f | 0x10_0000_0000_0000u64;
    proof {
        assert(sig == f + 0x10_0000_0000_0000) by (bit_vector)
            requires
                f < 0x10_0000_0000_0000,
                sig == f | 0x10_0000_0000_0000u64,
        ;
        lemma_pow2_facts();
    }
    if e < 1023 {
        proof {
            let s = (1075 - e) as nat;
            if s > 53 {
                lemma_pow2_strictly_increases(53, s);
            }
            lemma_basic_div(sig as int, pow2(s) as int);
        }
        return Some(0);
    }
    if e < 1075 {
        let shift: u64 = 1075 - e;
        proof {
            lemma_u64_shr_is_div(sig, shift);
        }
        return Some(sig >> shift);
    }
    let shift: u64 = e - 1075;
    if shift >= 12 {
        proof {
            lemma2_to64();
            lemma2_to64_rest();
            if shift > 12 {
                lemma_pow2_strictly_increases(12, shift as nat);
            }
            lemma_mul_inequality(
                0x10_0000_0000_0000,
                sig as int,
                pow2(shift as nat) as int,
            );
            lemma_mul_inequality(pow2(12) as int, pow2(shift as nat) as int, 0x10_0000_0000_0000);
            lemma_mul_is_commutative(pow2(12) as int, 0x10_0000_0000_0000);
            lemma_mul_is_commutative(pow2(shift as nat) as int, 0x10_0000_0000_0000);
        }
        return None;
    }
    proof {
        lemma2_to64();
        if shift < 11 {
            lemma_pow2_strictly_increases(shift as nat, 11);
        }
        lemma_mul_inequality(pow2(shift as nat) as int, pow2(11) as int, sig as int);
        lemma_mul_is_commutative(pow2(shift as nat) as int, sig as int);
        lemma_mul_strict_inequality(sig as int, 0x20_0000_0000_0000, pow2(11) as int);
        lemma_u64_shl_is_mul(sig, shift);
    }
    Some(sig << shift)
}

/// A JavaScript number as a `u64`, as `as` converts one: rounded toward
/// zero, NaN and anything below zero as 0, anything past `u64::MAX` as
/// `u64::MAX`. A count a backend reports crosses as a number.
pub fn number_to_u64(bits: u64) -> (r: u64)
    ensures
        r == number_as_u64(bits),
{
    let (e, f, negative) = fields_of(bits);
    if e == 0x7ff {
        if f != 0 || negative {
            return 0;
        }
        return u64::MAX;
    }
    if negative {
        return 0;
    }
    match finite_magnitude(e, f) {
        Some(m) => m,
        None => u64::MAX,
    }
}

/// A JavaScript number as an `i64`, as `as` converts one: rounded toward
/// zero, NaN as 0, anything beyond the range of `i64` as its nearer end.
pub fn number_to_i64(bits: u64) -> (r: i64)
    ensures
        r == number_as_i64(bits),
{
    let (e, f, negative) = fields_of(bits);
    if e == 0x7ff {
        if f != 0 {
            return 0;
        }
        return if negative {
            i64::MIN
        } else {
            i64::MAX
        };
    }
    match finite_magnitude(e, f) {
        Some(m) => {
            if negative {
                if m >= 0x8000_0000_0000_0000u64 {
                    i64::MIN
                } else {
                    -(m as i64)
                }
            } else if m > 0x7fff_ffff_ffff_ffffu64 {
                i64::MAX
            } else {
                m as i64
            }
        },
        None => if negative {
            i64::MIN
        } else {
            i64::MAX
        },
    }
}

} // verus!
