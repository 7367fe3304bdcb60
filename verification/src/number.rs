//! Numbers of the language: 64-bit floating point numbers in the IEEE-754
//! binary64 format, held by their bit pattern.
//!
//! A pattern has a sign bit, 11 bits of exponent and 52 bits of fraction. With
//! exponent `e` and fraction `f` it stands for `f * 2^-1074` where `e` is 0, for
//! `(2^52 + f) * 2^(e - 1075)` where `e` is between 1 and 2046, and for an
//! infinity or, with a fraction other than 0, for no number (NaN) where `e` is 2047.

use vstd::arithmetic::power2::*;
use vstd::bits::*;
use vstd::prelude::*;

verus! {

/// Two to the 52nd power: the weight of the lowest bit of the exponent.
pub const TWO_52: u64 = 0x10_0000_0000_0000;

/// Two to the 63rd power: the sign bit.
pub const TWO_63: u64 = 0x8000_0000_0000_0000;

/// The bit pattern of positive infinity.
pub const INFINITY: u64 = 0x7ff0_0000_0000_0000;

/// The bit pattern of 1.
pub const ONE: u64 = 0x3ff0_0000_0000_0000;

/// Whether the sign bit is set.
pub open spec fn sign_of(bits: u64) -> bool {
    bits >= TWO_63
}

/// The pattern without its sign bit.
pub open spec fn magnitude_of(bits: u64) -> u64 {
    (bits % TWO_63) as u64
}

/// The 11 bits of exponent.
pub open spec fn exponent_of(bits: u64) -> int {
    (bits / TWO_52) as int % 2048
}

/// The 52 bits of fraction.
pub open spec fn fraction_of(bits: u64) -> int {
    bits as int % (TWO_52 as int)
}

/// Whether the pattern stands for no number.
pub open spec fn is_nan(bits: u64) -> bool {
    exponent_of(bits) == 2047 && fraction_of(bits) != 0
}

/// Whether the pattern stands for an infinity.
pub open spec fn is_infinite(bits: u64) -> bool {
    exponent_of(bits) == 2047 && fraction_of(bits) == 0
}

/// Whether the pattern stands for zero, positive or negative.
pub open spec fn is_zero(bits: u64) -> bool {
    magnitude_of(bits) == 0
}

/// The integer that is scaled by a power of two: the fraction, with the
/// implicit leading bit where the exponent is not 0.
pub open spec fn significand_of(bits: u64) -> int {
    if exponent_of(bits) == 0 {
        fraction_of(bits)
    } else {
        fraction_of(bits) + TWO_52
    }
}

/// The integer part of the absolute value of a finite number.
pub open spec fn integer_part(bits: u64) -> nat
    recommends
        exponent_of(bits) < 2047,
{
    let e = exponent_of(bits);
    let m = significand_of(bits);
    if e >= 1075 {
        (m * pow2((e - 1075) as nat)) as nat
    } else if e < 1023 {
        0
    } else {
        (m / pow2((1075 - e) as nat) as int) as nat
    }
}

/// Whether a number is less than zero.
pub open spec fn is_negative(bits: u64) -> bool {
    sign_of(bits) && !is_nan(bits) && !is_zero(bits)
}

/// The index that a number stands for: its integer part, 0 for a negative
/// number and for NaN, and the greatest `usize` where the integer part is beyond it.
pub open spec fn index_of(bits: u64) -> usize {
    if sign_of(bits) || is_nan(bits) {
        0
    } else if is_infinite(bits) || integer_part(bits) > usize::MAX {
        usize::MAX
    } else {
        integer_part(bits) as usize
    }
}

/// The place of a number in the order of the numbers: the patterns of the
/// numbers from zero upwards ascend with the numbers, and those with the sign
/// bit mirror them.
pub open spec fn order_key(bits: u64) -> int {
    if sign_of(bits) {
        -(magnitude_of(bits) as int)
    } else {
        magnitude_of(bits) as int
    }
}

/// Whether two numbers are equal: NaN equals nothing, and the two zeros are equal.
pub open spec fn equal(a: u64, b: u64) -> bool {
    !is_nan(a) && !is_nan(b) && order_key(a) == order_key(b)
}

/// Whether `a` is less than `b`: nothing is less or greater than NaN.
pub open spec fn less(a: u64, b: u64) -> bool {
    !is_nan(a) && !is_nan(b) && order_key(a) < order_key(b)
}

pub fn number_is_nan(bits: u64) -> (result: bool)
    ensures
        result == is_nan(bits),
{
    (bits / TWO_52) % 2048 == 2047 && bits % TWO_52 != 0
}

/// Whether the number is less than zero.
pub fn number_is_negative(bits: u64) -> (result: bool)
    ensures
        result == is_negative(bits),
{
    bits >= TWO_63 && !number_is_nan(bits) && bits % TWO_63 != 0
}

fn key(bits: u64) -> (k: i128)
    ensures
        k == order_key(bits),
{
    if bits >= TWO_63 {
        -((bits % TWO_63) as i128)
    } else {
        bits as i128
    }
}

pub fn numbers_equal(a: u64, b: u64) -> (result: bool)
    ensures
        result == equal(a, b),
{
    !number_is_nan(a) && !number_is_nan(b) && key(a) == key(b)
}

pub fn number_less(a: u64, b: u64) -> (result: bool)
    ensures
        result == less(a, b),
{
    !number_is_nan(a) && !number_is_nan(b) && key(a) < key(b)
}

/// The index that the number stands for.
pub fn number_to_index(bits: u64) -> (index: usize)
    ensures
        index == index_of(bits),
{
    let e = (bits / TWO_52) % 2048;
    let f = bits % TWO_52;
    if bits >= TWO_63 || (e == 2047 && f != 0) {
        return 0;
    }
    if e == 2047 {
        return usize::MAX;
    }
    if e < 1023 {
        return 0;
    }
    let m = f + TWO_52;
    let whole: u64 = if e >= 1075 {
        let shift = e - 1075;
        if shift > 11 {
            proof {
                lemma2_to64();
                if shift > 12 {
                    lemma_pow2_strictly_increases(12, shift as nat);
                }
                assert(m * pow2(shift as nat) >= TWO_52 * 4096) by (nonlinear_arith)
                    requires
                        m >= TWO_52,
                        pow2(shift as nat) >= 4096,
                ;
            }
            return usize::MAX;
        }
        proof {
            lemma2_to64();
            if shift < 11 {
                lemma_pow2_strictly_increases(shift as nat, 11);
            }
            assert(m * pow2(shift as nat) <= u64::MAX) by (nonlinear_arith)
                requires
                    m < 2 * TWO_52,
                    pow2(shift as nat) <= 2048,
            ;
            lemma_u64_shl_is_mul(m, shift);
        }
        m << shift
    } else {
        let shift = 1075 - e;
        proof {
            lemma_u64_shr_is_div(m, shift);
        }
        m >> shift
    };
    if whole > usize::MAX as u64 {
        usize::MAX
    } else {
        whole as usize
    }
}

/// The position of the highest bit that is set in `n`, counted from 0.
pub open spec fn top_bit(n: nat) -> nat
    decreases n,
{
    if n <= 1 {
        0
    } else {
        1 + top_bit(n / 2)
    }
}

/// The number nearest to the natural number `n`; of two that are equally
/// near, the one whose significand is even. Up to two to the 53rd power every
/// natural number is a number of its own.
pub open spec fn number_of_nat(n: nat) -> u64
    recommends
        n <= u64::MAX,
{
    if n == 0 {
        0
    } else {
        let k = top_bit(n);
        if k <= 52 {
            ((k + 1023) * TWO_52 + (n * pow2((52 - k) as nat) - TWO_52)) as u64
        } else {
            let unit = pow2((k - 52) as nat);
            let q = n / unit;
            let r = n % unit;
            let up: int = if 2 * r > unit || (2 * r == unit && q % 2 == 1) {
                1
            } else {
                0
            };
            ((k + 1023) * TWO_52 + (q - TWO_52) + up) as u64
        }
    }
}

/// The number nearest to the integer `n`.
pub open spec fn number_of_int(n: int) -> u64
    recommends
        -(u64::MAX as int) <= n <= u64::MAX,
{
    if n < 0 {
        (TWO_63 + number_of_nat((-n) as nat)) as u64
    } else {
        number_of_nat(n as nat)
    }
}

/// Between which powers of two a natural number lies.
proof fn lemma_top_bit(n: nat)
    requires
        n >= 1,
    ensures
        pow2(top_bit(n)) <= n < 2 * pow2(top_bit(n)),
    decreases n,
{
    lemma2_to64();
    if n > 1 {
        lemma_top_bit(n / 2);
        lemma_pow2_unfold(top_bit(n));
    }
}

/// The one position between whose power of two and the next a natural number lies.
proof fn lemma_top_bit_unique(n: nat, k: nat)
    requires
        pow2(k) <= n < 2 * pow2(k),
    ensures
        top_bit(n) == k,
{
    lemma_top_bit(n);
    let t = top_bit(n);
    if t < k {
        lemma_pow2_unfold(k);
        if t + 1 < k {
            lemma_pow2_strictly_increases(t + 1, k);
        }
        lemma_pow2_unfold(t + 1);
    } else if k < t {
        lemma_pow2_unfold(t);
        if k + 1 < t {
            lemma_pow2_strictly_increases(k + 1, t);
        }
        lemma_pow2_unfold(k + 1);
    }
}

/// The number nearest to `n`.
pub fn number_from_u64(n: u64) -> (bits: u64)
    ensures
        bits == number_of_nat(n as nat),
{
    if n == 0 {
        return 0;
    }
    let mut k: u64 = 0;
    proof {
        lemma2_to64();
    }
    while k < 63 && (n >> (k + 1)) != 0
        invariant
            k <= 63,
            pow2(k as nat) <= n,
        decreases 63 - k,
    {
        proof {
            lemma_u64_shr_is_div(n, (k + 1) as u64);
            lemma_pow2_pos((k + 1) as nat);
            assert(n >= pow2((k + 1) as nat)) by (nonlinear_arith)
                requires
                    n as nat / pow2((k + 1) as nat) != 0,
                    pow2((k + 1) as nat) > 0,
            ;
        }
        k += 1;
    }
    proof {
        lemma_pow2_unfold((k + 1) as nat);
        if k < 63 {
            lemma_u64_shr_is_div(n, (k + 1) as u64);
            lemma_pow2_pos((k + 1) as nat);
            assert(n < pow2((k + 1) as nat)) by (nonlinear_arith)
                requires
                    n as nat / pow2((k + 1) as nat) == 0,
                    pow2((k + 1) as nat) > 0,
            ;
        } else {
            lemma2_to64_rest();
        }
        lemma_top_bit_unique(n as nat, k as nat);
    }
    if k <= 52 {
        let shift = 52 - k;
        proof {
            lemma2_to64_rest();
            assert(k as nat + shift as nat == 52);
            lemma_pow2_adds(k as nat, shift as nat);
            lemma_pow2_pos(shift as nat);
            assert(TWO_52 <= n * pow2(shift as nat) < 2 * TWO_52) by (nonlinear_arith)
                requires
                    pow2(k as nat) <= n < 2 * pow2(k as nat),
                    pow2(k as nat) * pow2(shift as nat) == TWO_52,
                    pow2(shift as nat) > 0,
            ;
            lemma_u64_shl_is_mul(n, shift);
        }
        (k + 1023) * TWO_52 + ((n << shift) - TWO_52)
    } else {
        let shift = k - 52;
        let q = n >> shift;
        let unit = 1u64 << shift;
        proof {
            lemma2_to64();
            lemma_pow2_strictly_increases(shift as nat, 63);
            lemma2_to64_rest();
            lemma_u64_shl_is_mul(1, shift);
            lemma_u64_shr_is_div(n, shift);
            lemma_pow2_adds(shift as nat, 52);
            assert(TWO_52 <= n as nat / pow2(shift as nat) < 2 * TWO_52) by (nonlinear_arith)
                requires
                    pow2(k as nat) <= n < 2 * pow2(k as nat),
                    pow2(shift as nat) * TWO_52 == pow2(k as nat),
                    pow2(shift as nat) > 0,
            ;
        }
        let r = n % unit;
        let half = unit / 2;
        let up: u64 = if r > half || (r == half && q % 2 == 1) {
            1
        } else {
            0
        };
        proof {
            lemma_pow2_unfold(shift as nat);
            assert(unit == 2 * half);
        }
        (k + 1023) * TWO_52 + (q - TWO_52) + up
    }
}

/// The number nearest to `n`.
pub fn number_from_usize(n: usize) -> (bits: u64)
    ensures
        bits == number_of_nat(n as nat),
{
    number_from_u64(n as u64)
}

/// The number nearest to `n`.
pub fn number_from_isize(n: isize) -> (bits: u64)
    ensures
        bits == number_of_int(n as int),
{
    if n < 0 {
        let magnitude: u64 = if n == isize::MIN {
            (isize::MAX as u64) + 1
        } else {
            (-n) as u64
        };
        let positive = number_from_u64(magnitude);
        proof {
            lemma_number_of_nat_bound(magnitude as nat);
        }
        TWO_63 + positive
    } else {
        number_from_u64(n as u64)
    }
}

/// The number nearest to a natural number is finite and has no sign.
pub proof fn lemma_number_of_nat_bound(n: nat)
    requires
        n <= u64::MAX,
    ensures
        number_of_nat(n) < INFINITY,
{
    if n > 0 {
        let k = top_bit(n);
        lemma_top_bit(n);
        lemma2_to64();
        lemma2_to64_rest();
        if k >= 64 {
            if k > 64 {
                lemma_pow2_strictly_increases(64, k);
            }
        }
        if k <= 52 {
            let shift = (52 - k) as nat;
            lemma_pow2_adds(k, shift);
            lemma_pow2_pos(shift);
            assert(TWO_52 <= n * pow2(shift) < 2 * TWO_52) by (nonlinear_arith)
                requires
                    pow2(k) <= n < 2 * pow2(k),
                    pow2(k) * pow2(shift) == TWO_52,
                    pow2(shift) > 0,
            ;
        } else {
            let shift = (k - 52) as nat;
            lemma_pow2_adds(shift, 52);
            lemma_pow2_pos(shift);
            assert(TWO_52 <= n / pow2(shift) < 2 * TWO_52) by (nonlinear_arith)
                requires
                    pow2(k) <= n < 2 * pow2(k),
                    pow2(shift) * TWO_52 == pow2(k),
                    pow2(shift) > 0,
            ;
        }
    }
}

/// The least whole number that is not below a number. The infinities and NaN
/// stay as they are, and a number between -1 and 0 gives the negative zero.
pub open spec fn ceiling(bits: u64) -> u64 {
    let e = exponent_of(bits);
    if e >= 1075 || is_zero(bits) {
        bits
    } else if e < 1023 {
        if sign_of(bits) {
            TWO_63
        } else {
            ONE
        }
    } else {
        let unit = pow2((1075 - e) as nat);
        let below = bits as nat % unit;
        if sign_of(bits) || below == 0 {
            (bits - below) as u64
        } else {
            (bits - below + unit) as u64
        }
    }
}

/// The least whole number that is not below the number.
pub fn number_ceiling(bits: u64) -> (result: u64)
    ensures
        result == ceiling(bits),
{
    let e = (bits / TWO_52) % 2048;
    if e >= 1075 || bits % TWO_63 == 0 {
        bits
    } else if e < 1023 {
        if bits >= TWO_63 {
            TWO_63
        } else {
            ONE
        }
    } else {
        let shift = 1075 - e;
        proof {
            lemma2_to64();
            lemma2_to64_rest();
            if shift < 52 {
                lemma_pow2_strictly_increases(shift as nat, 52);
            }
            lemma_u64_shl_is_mul(1, shift);
        }
        let unit = 1u64 << shift;
        let below = bits % unit;
        if bits >= TWO_63 || below == 0 {
            bits - below
        } else {
            bits - below + unit
        }
    }
}

/// The number nearest to the difference `a - b`.
pub fn number_from_difference(a: isize, b: isize) -> (bits: u64)
    ensures
        bits == number_of_int(a as int - b as int),
{
    let difference: i128 = a as i128 - b as i128;
    if difference < 0 {
        let magnitude = (-difference) as u64;
        let positive = number_from_u64(magnitude);
        proof {
            lemma_number_of_nat_bound(magnitude as nat);
        }
        TWO_63 + positive
    } else {
        number_from_u64(difference as u64)
    }
}

/// The number nearest to a natural number is zero for 0 and for no other.
pub proof fn lemma_number_of_nat_zero(n: nat)
    requires
        n <= u64::MAX,
    ensures
        is_zero(number_of_nat(n)) <==> n == 0,
        !is_nan(number_of_nat(n)),
        !sign_of(number_of_nat(n)),
{
    lemma_number_of_nat_bound(n);
    if n > 0 {
        let k = top_bit(n);
        lemma_top_bit(n);
        lemma2_to64();
        lemma2_to64_rest();
        if k <= 52 {
            let shift = (52 - k) as nat;
            lemma_pow2_adds(k, shift);
            lemma_pow2_pos(shift);
            assert(TWO_52 <= n * pow2(shift) < 2 * TWO_52) by (nonlinear_arith)
                requires
                    pow2(k) <= n < 2 * pow2(k),
                    pow2(k) * pow2(shift) == TWO_52,
                    pow2(shift) > 0,
            ;
        } else {
            if k >= 64 {
                if k > 64 {
                    lemma_pow2_strictly_increases(64, k);
                }
            }
            let shift = (k - 52) as nat;
            lemma_pow2_adds(shift, 52);
            lemma_pow2_pos(shift);
            assert(TWO_52 <= n / pow2(shift) < 2 * TWO_52) by (nonlinear_arith)
                requires
                    pow2(k) <= n < 2 * pow2(k),
                    pow2(shift) * TWO_52 == pow2(k),
                    pow2(shift) > 0,
            ;
        }
    }
}

/// The absolute value of a number that is not NaN, in units of two to the
/// power of -1074, the least that a number can differ by: a natural number.
/// An infinity is taken as the number behind the greatest.
pub open spec fn scaled_magnitude(bits: u64) -> nat {
    let e = exponent_of(bits);
    let m = significand_of(bits);
    if e == 0 {
        m as nat
    } else {
        (m * pow2((e - 1) as nat)) as nat
    }
}

/// A number that is not NaN, in units of two to the power of -1074: an integer.
pub open spec fn scaled_value(bits: u64) -> int {
    if sign_of(bits) {
        -(scaled_magnitude(bits) as int)
    } else {
        scaled_magnitude(bits) as int
    }
}

/// Of two patterns without sign, the lesser stands for the lesser number.
proof fn lemma_magnitude_ascends(x: u64, y: u64)
    requires
        x < y < TWO_63,
    ensures
        scaled_magnitude(x) < scaled_magnitude(y),
{
    let ex = exponent_of(x);
    let ey = exponent_of(y);
    let fx = fraction_of(x);
    let fy = fraction_of(y);
    assert(ex == x / TWO_52 && ey == y / TWO_52);
    assert(ex <= ey);
    if ex == ey {
        assert(fx < fy);
        if ex > 0 {
            let p = pow2((ex - 1) as nat);
            lemma_pow2_pos((ex - 1) as nat);
            assert((fx + TWO_52) * p < (fy + TWO_52) * p) by (nonlinear_arith)
                requires
                    fx < fy,
                    p > 0,
            ;
        }
    } else {
        let q = pow2((ey - 1) as nat);
        lemma_pow2_pos((ey - 1) as nat);
        assert((fy + TWO_52) * q >= TWO_52 * q >= TWO_52) by (nonlinear_arith)
            requires
                fy >= 0,
                q >= 1,
        ;
        if ex > 0 {
            let p = pow2((ex - 1) as nat);
            lemma_pow2_pos((ex - 1) as nat);
            lemma_pow2_unfold(ex as nat);
            if ex < ey - 1 {
                lemma_pow2_strictly_increases(ex as nat, (ey - 1) as nat);
            }
            assert((fx + TWO_52) * p < TWO_52 * q) by (nonlinear_arith)
                requires
                    0 <= fx < TWO_52,
                    p > 0,
                    2 * p <= q,
            ;
        }
    }
}

/// The exponent and the fraction of a pattern are those of the pattern
/// without its sign bit.
proof fn lemma_magnitude_fields(a: u64)
    ensures
        magnitude_of(a) < TWO_63,
        exponent_of(a) == exponent_of(magnitude_of(a)),
        fraction_of(a) == fraction_of(magnitude_of(a)),
        scaled_magnitude(a) == scaled_magnitude(magnitude_of(a)),
        magnitude_of(a) == 0 ==> scaled_magnitude(a) == 0,
{
    let x = magnitude_of(a);
    if a >= TWO_63 {
        assert(x == a - TWO_63);
        assert(a / TWO_52 == x / TWO_52 + 2048) by (bit_vector)
            requires
                a >= 0x8000_0000_0000_0000u64,
                x == a - 0x8000_0000_0000_0000u64,
                TWO_52 == 0x10_0000_0000_0000u64,
        ;
        assert(a % TWO_52 == x % TWO_52) by (bit_vector)
            requires
                a >= 0x8000_0000_0000_0000u64,
                x == a - 0x8000_0000_0000_0000u64,
                TWO_52 == 0x10_0000_0000_0000u64,
        ;
    } else {
        assert(x == a);
    }
}

/// Of two numbers without sign bit, neither of them NaN, the lesser pattern
/// stands for the lesser number.
proof fn lemma_magnitudes_compare(x: u64, y: u64)
    requires
        x < TWO_63,
        y < TWO_63,
    ensures
        x < y <==> scaled_magnitude(x) < scaled_magnitude(y),
        x == y <==> scaled_magnitude(x) == scaled_magnitude(y),
        x > 0 <==> scaled_magnitude(x) > 0,
{
    if x < y {
        lemma_magnitude_ascends(x, y);
    }
    if y < x {
        lemma_magnitude_ascends(y, x);
    }
    if x > 0 {
        lemma_magnitude_ascends(0, x);
    }
    assert(scaled_magnitude(0) == 0);
}

/// The order of the numbers is the order of what they stand for: of two
/// numbers, neither of them NaN, one is less than the other where its value
/// is less, and they are equal where their values are.
pub proof fn lemma_order_is_numeric(a: u64, b: u64)
    requires
        !is_nan(a),
        !is_nan(b),
    ensures
        less(a, b) <==> scaled_value(a) < scaled_value(b),
        equal(a, b) <==> scaled_value(a) == scaled_value(b),
{
    let x = magnitude_of(a);
    let y = magnitude_of(b);
    lemma_magnitude_fields(a);
    lemma_magnitude_fields(b);
    lemma_magnitudes_compare(x, y);
    lemma_magnitudes_compare(y, x);
    let sx = scaled_magnitude(a) as int;
    let sy = scaled_magnitude(b) as int;
    assert(sx == scaled_magnitude(x) && sy == scaled_magnitude(y));
    assert(order_key(a) == if sign_of(a) { -(x as int) } else { x as int });
    assert(order_key(b) == if sign_of(b) { -(y as int) } else { y as int });
    assert(scaled_value(a) == if sign_of(a) { -sx } else { sx });
    assert(scaled_value(b) == if sign_of(b) { -sy } else { sy });
}

/// A natural number below two to the 53rd power is a number of its own:
/// the number nearest to it stands for it, and for the index that it is.
pub proof fn lemma_natural_is_exact(n: nat)
    requires
        n <= 2 * TWO_52,
    ensures
        scaled_value(number_of_nat(n)) == n * pow2(1074),
        integer_part(number_of_nat(n)) == n,
        n <= usize::MAX ==> index_of(number_of_nat(n)) == n,
{
    lemma2_to64();
    lemma2_to64_rest();
    lemma_number_of_nat_zero(n);
    if n > 0 {
        let k = top_bit(n);
        lemma_top_bit(n);
        if k > 53 {
            lemma_pow2_strictly_increases(53, k);
        }
        let bits = number_of_nat(n);
        if k <= 52 {
            let shift = (52 - k) as nat;
            let m = n * pow2(shift);
            lemma_pow2_adds(k, shift);
            lemma_pow2_pos(shift);
            assert(TWO_52 <= m < 2 * TWO_52) by (nonlinear_arith)
                requires
                    m == n * pow2(shift),
                    pow2(k) <= n < 2 * pow2(k),
                    pow2(k) * pow2(shift) == TWO_52,
                    pow2(shift) > 0,
            ;
            assert(bits == (k + 1023) * TWO_52 + (m - TWO_52));
            assert(exponent_of(bits) == k + 1023);
            assert(significand_of(bits) == m);
            lemma_pow2_adds(shift, (k + 1022) as nat);
            assert(m * pow2((k + 1022) as nat) == n * pow2(1074)) by (nonlinear_arith)
                requires
                    m == n * pow2(shift),
                    pow2(shift) * pow2((k + 1022) as nat) == pow2(1074),
            ;
            if k < 52 {
                assert(m as int / pow2(shift) as int == n) by (nonlinear_arith)
                    requires
                        m == n * pow2(shift),
                        pow2(shift) > 0,
                ;
            } else {
                assert(pow2(0) == 1);
                assert(m == n) by (nonlinear_arith)
                    requires
                        m == n * pow2(shift),
                        pow2(shift) == 1,
                ;
                assert(m * pow2(0) == n) by (nonlinear_arith)
                    requires
                        m == n,
                        pow2(0) == 1,
                ;
            }
        } else {
            assert(k == 53 && n == 2 * TWO_52);
            let unit = pow2(1);
            assert(n / unit == TWO_52 && n % unit == 0);
            assert(bits == 1076 * TWO_52);
            assert(exponent_of(bits) == 1076);
            assert(significand_of(bits) == TWO_52);
            lemma_pow2_adds(53, 1074);
            lemma_pow2_adds(52, 1075);
            assert(TWO_52 * pow2(1075) == n * pow2(1074)) by (nonlinear_arith)
                requires
                    TWO_52 == pow2(52),
                    n == pow2(53),
                    pow2(53) * pow2(1074) == pow2(1127),
                    pow2(52) * pow2(1075) == pow2(1127),
            ;
            assert(TWO_52 * pow2(1) == n);
        }
    } else {
        assert(0 * pow2(1074) == 0);
    }
}

} // verus!
