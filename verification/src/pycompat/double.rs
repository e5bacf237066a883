//! IEEE-754 doubles, held by their bits: Python's `==` between two floats,
//! and between an integer and a float (the integer converted to the nearest
//! double first, ties to even, as Rust's `i128 as f64` does).

use vstd::prelude::*;

verus! {

/// `2^k`.
pub open spec fn two_pow(k: nat) -> nat
    decreases k,
{
    if k == 0 { 1 } else { 2 * two_pow((k - 1) as nat) }
}

/// Number of binary digits of `n` (0 for 0).
pub open spec fn bit_len(n: nat) -> nat
    decreases n,
{
    if n == 0 { 0 } else { 1 + bit_len(n / 2) }
}

/// `n` rounded to 53 significant binary digits, ties to even.
pub open spec fn round_sig53(n: nat) -> nat {
    if bit_len(n) <= 53 {
        n
    } else {
        let p = two_pow((bit_len(n) - 53) as nat);
        let q = n / p;
        let r = n % p;
        let up = r > p / 2 || (r == p / 2 && q % 2 == 1);
        (if up { q + 1 } else { q }) * p
    }
}

/// The integer value of the double nearest to `i` (ties to even).
pub open spec fn int_as_double(i: int) -> int {
    if i < 0 { -(round_sig53((-i) as nat) as int) } else { round_sig53(i as nat) as int }
}

/// The biased exponent of a double.
pub open spec fn exponent_field(bits: u64) -> nat {
    (bits as nat / two_pow(52)) % 2048
}

/// The stored fraction of a double.
pub open spec fn mantissa_field(bits: u64) -> nat {
    bits as nat % two_pow(52)
}

/// The sign bit of a double.
pub open spec fn sign_bit(bits: u64) -> bool {
    bits as nat >= two_pow(63)
}

/// Whether a double is a NaN.
pub open spec fn is_nan(bits: u64) -> bool {
    exponent_field(bits) == 2047 && mantissa_field(bits) != 0
}

/// Whether a double is `0.0` or `-0.0`.
pub open spec fn is_zero(bits: u64) -> bool {
    exponent_field(bits) == 0 && mantissa_field(bits) == 0
}

/// `a == b` on doubles: no NaN, and the same value (the two zeros are
/// equal).
pub open spec fn double_eq(a: u64, b: u64) -> bool {
    !is_nan(a) && !is_nan(b) && (a == b || (is_zero(a) && is_zero(b)))
}

/// The magnitude of a double when it is a whole number.
pub open spec fn whole_magnitude(bits: u64) -> Option<nat> {
    let e = exponent_field(bits);
    let m = two_pow(52) + mantissa_field(bits);
    if e == 2047 {
        None
    } else if e == 0 {
        if mantissa_field(bits) == 0 { Some(0) } else { None }
    } else if e >= 1075 {
        Some(m * two_pow((e - 1075) as nat))
    } else if m % two_pow((1075 - e) as nat) == 0 {
        Some(m / two_pow((1075 - e) as nat))
    } else {
        None
    }
}

/// The integer a double equals, when it is a whole number.
pub open spec fn double_integer(bits: u64) -> Option<int> {
    match whole_magnitude(bits) {
        Some(v) => Some(if sign_bit(bits) { -(v as int) } else { v as int }),
        None => None,
    }
}

/// `2^(k+1) == 2 * 2^k`, and powers of two grow.
pub proof fn lemma_two_pow_mono(a: nat, b: nat)
    requires
        a <= b,
    ensures
        two_pow(a) <= two_pow(b),
        two_pow(a) > 0,
    decreases b,
{
    if b > a {
        lemma_two_pow_mono(a, (b - 1) as nat);
    } else if a > 0 {
        lemma_two_pow_mono((a - 1) as nat, (a - 1) as nat);
    }
}

/// `2^(a+b) == 2^a * 2^b`.
pub proof fn lemma_two_pow_add(a: nat, b: nat)
    ensures
        two_pow(a + b) == two_pow(a) * two_pow(b),
    decreases b,
{
    if b == 0 {
        assert(two_pow(0) == 1);
        assert(a + b == a);
    } else {
        let c = (b - 1) as nat;
        lemma_two_pow_add(a, c);
        assert(a + b == (a + c) + 1);
        assert(two_pow(a + b) == 2 * two_pow(a + c));
        assert(two_pow(b) == 2 * two_pow(c));
        let x = two_pow(a);
        let y = two_pow(c);
        assert(x * (2 * y) == 2 * (x * y)) by (nonlinear_arith);
    }
}

/// A number below `2^k` has at most `k` binary digits, and one of `k`
/// binary digits is below `2^k`.
pub proof fn lemma_bit_len_bound(n: nat, k: nat)
    ensures
        n < two_pow(k) <==> bit_len(n) <= k,
    decreases n,
{
    if n > 0 {
        if k > 0 {
            lemma_bit_len_bound(n / 2, (k - 1) as nat);
        } else {
            assert(two_pow(0) == 1);
        }
    } else {
        lemma_two_pow_mono(0, k);
    }
}

fn pow2_u128(k: u32) -> (r: u128)
    requires
        k < 128,
    ensures
        r == two_pow(k as nat),
{
    let mut r: u128 = 1;
    let mut i: u32 = 0;
    while i < k
        invariant
            i <= k < 128,
            r == two_pow(i as nat),
        decreases k - i,
    {
        proof {
            lemma_two_pow_mono((i + 1) as nat, 127);
            lemma_two_pow_128();
        }
        r = r * 2;
        i = i + 1;
    }
    r
}

/// `2^128`.
pub proof fn lemma_two_pow_128()
    ensures
        two_pow(128) == 340282366920938463463374607431768211456,
        two_pow(127) == 170141183460469231731687303715884105728,
        two_pow(64) == 18446744073709551616,
        two_pow(63) == 9223372036854775808,
        two_pow(53) == 9007199254740992,
        two_pow(52) == 4503599627370496,
{
    reveal_with_fuel(two_pow, 5);
    assert(two_pow(4) == 16);
    assert(two_pow(3) == 8);
    lemma_two_pow_add(4, 4);
    assert(two_pow(8) == 256);
    lemma_two_pow_add(8, 8);
    assert(two_pow(16) == 65536);
    lemma_two_pow_add(16, 16);
    assert(two_pow(32) == 4294967296);
    lemma_two_pow_add(32, 32);
    assert(two_pow(64) == 18446744073709551616);
    lemma_two_pow_add(64, 64);
    lemma_two_pow_add(4, 16);
    assert(two_pow(20) == 1048576);
    lemma_two_pow_add(20, 32);
    assert(two_pow(52) == 4503599627370496);
    lemma_two_pow_add(52, 1);
    assert(two_pow(1) == 2);
    lemma_two_pow_add(3, 4);
    assert(two_pow(7) == 128);
    lemma_two_pow_add(7, 8);
    assert(two_pow(15) == 32768);
    lemma_two_pow_add(15, 16);
    assert(two_pow(31) == 2147483648);
    lemma_two_pow_add(31, 32);
    assert(two_pow(63) == 9223372036854775808);
    lemma_two_pow_add(63, 64);
}

fn bit_len_u128(n: u128) -> (r: u32)
    ensures
        r == bit_len(n as nat),
        r <= 128,
{
    proof {
        lemma_two_pow_128();
        lemma_bit_len_bound(n as nat, 128);
    }
    let mut c: u32 = 0;
    let mut m: u128 = n;
    while m > 0
        invariant
            bit_len(n as nat) == c + bit_len(m as nat),
            bit_len(n as nat) <= 128,
        decreases m,
    {
        m = m / 2;
        c = c + 1;
    }
    c
}

fn round_sig53_u128(n: u128) -> (r: u128)
    requires
        n <= two_pow(127),
    ensures
        r == round_sig53(n as nat),
{
    proof {
        lemma_two_pow_128();
    }
    let bl = bit_len_u128(n);
    if bl <= 53 {
        return n;
    }
    let k: u32 = bl - 53;
    proof {
        lemma_bit_len_bound(n as nat, 128);
    }
    let p = pow2_u128(k);
    proof {
        lemma_two_pow_mono(k as nat, 75);
        lemma_two_pow_add(64, 11);
        reveal_with_fuel(two_pow, 12);
        assert(two_pow(11) == 2048);
    }
    let q = n / p;
    let rr = n % p;
    let up = rr > p / 2 || (rr == p / 2 && q % 2 == 1);
    let q2: u128 = if up { q + 1 } else { q };
    proof {
        vstd::arithmetic::div_mod::lemma_fundamental_div_mod(n as int, p as int);
        assert(q2 * p <= q * p + p) by (nonlinear_arith)
            requires
                q2 <= q + 1,
        ;
        assert(p * q == q * p) by (nonlinear_arith);
    }
    q2 * p
}

/// The magnitude of a double when it is a whole number below `2^128`;
/// `None` when it is no whole number or a larger one.
fn whole_magnitude_u128(bits: u64) -> (r: Option<u128>)
    ensures
        match r {
            Some(v) => whole_magnitude(bits) == Some(v as nat),
            None => whole_magnitude(bits) is None || whole_magnitude(bits).unwrap() >= two_pow(128),
        },
{
    proof {
        lemma_two_pow_128();
    }
    let e: u64 = (bits / 4503599627370496) % 2048;
    let fm: u64 = bits % 4503599627370496;
    assert(e == exponent_field(bits));
    assert(fm == mantissa_field(bits));
    if e == 2047 {
        return None;
    }
    if e == 0 {
        return if fm == 0 { Some(0) } else { None };
    }
    let m53: u128 = 4503599627370496 + fm as u128;
    if e >= 1075 {
        let sh = e - 1075;
        if sh > 75 {
            proof {
                lemma_two_pow_mono(76, sh as nat);
                lemma_two_pow_add(52, 76);
                let w = two_pow(sh as nat);
                assert(m53 * w >= two_pow(52) * two_pow(76)) by (nonlinear_arith)
                    requires
                        m53 >= two_pow(52),
                        w >= two_pow(76),
                ;
            }
            return None;
        }
        let p = pow2_u128(sh as u32);
        proof {
            lemma_two_pow_mono(sh as nat, 75);
            lemma_two_pow_add(53, 75);
            assert(m53 * p < two_pow(53) * two_pow(75)) by (nonlinear_arith)
                requires
                    m53 < two_pow(53),
                    p <= two_pow(75),
                    p > 0,
            ;
        }
        return Some(m53 * p);
    }
    let sh = 1075 - e;
    if sh > 53 {
        proof {
            lemma_two_pow_mono(53, sh as nat);
            vstd::arithmetic::div_mod::lemma_small_mod(m53 as nat, two_pow(sh as nat));
        }
        return None;
    }
    let d = pow2_u128(sh as u32);
    proof {
        lemma_two_pow_mono(0, sh as nat);
    }
    if m53 % d == 0 {
        Some(m53 / d)
    } else {
        None
    }
}

/// `a == b` for the doubles with bits `a` and `b`.
pub fn double_bits_eq(a: u64, b: u64) -> (r: bool)
    ensures
        r == double_eq(a, b),
{
    proof {
        lemma_two_pow_128();
    }
    let ea = (a / 4503599627370496) % 2048;
    let ma = a % 4503599627370496;
    let eb = (b / 4503599627370496) % 2048;
    let mb = b % 4503599627370496;
    let nan_a = ea == 2047 && ma != 0;
    let nan_b = eb == 2047 && mb != 0;
    let zero_a = ea == 0 && ma == 0;
    let zero_b = eb == 0 && mb == 0;
    !nan_a && !nan_b && (a == b || (zero_a && zero_b))
}

/// `i as f64 == f` for the double `f` with bits `bits`.
pub fn int_eq_double(i: i128, bits: u64) -> (r: bool)
    ensures
        r == (double_integer(bits) == Some(int_as_double(i as int))),
{
    proof {
        lemma_two_pow_128();
    }
    let neg = i < 0;
    let mag: u128 = if i < 0 {
        if i == i128::MIN { 170141183460469231731687303715884105728 } else { (-i) as u128 }
    } else {
        i as u128
    };
    let rm = round_sig53_u128(mag);
    let sign = bits >= 9223372036854775808;
    match whole_magnitude_u128(bits) {
        None => {
            proof {
                if whole_magnitude(bits) is Some {
                    lemma_round_below(mag as nat);
                }
            }
            false
        },
        Some(v) => {
            if v == 0 && rm == 0 {
                true
            } else {
                v == rm && sign == neg
            }
        },
    }
}

/// Rounding a number at most `2^127` stays below `2^128`.
proof fn lemma_round_below(n: nat)
    requires
        n <= two_pow(127),
    ensures
        round_sig53(n) < two_pow(128),
{
    lemma_two_pow_128();
    if bit_len(n) > 53 {
        lemma_bit_len_bound(n, 128);
        let k = (bit_len(n) - 53) as nat;
        let p = two_pow(k);
        lemma_two_pow_mono(k, 75);
        lemma_two_pow_mono(0, k);
        lemma_two_pow_add(64, 11);
        reveal_with_fuel(two_pow, 12);
        assert(two_pow(11) == 2048);
        let q = n / p;
        vstd::arithmetic::div_mod::lemma_fundamental_div_mod(n as int, p as int);
        assert(q * p <= n) by (nonlinear_arith)
            requires
                n == p * q + n % p,
                n % p >= 0,
        ;
        assert((q + 1) * p == q * p + p) by (nonlinear_arith);
    }
}

} // verus!
