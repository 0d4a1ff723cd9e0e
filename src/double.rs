//! Binary64 floating-point rounding of integer ratios, carried out exactly in
//! integer arithmetic: the double nearest to an integer, the double nearest
//! to a ratio, and a double rounded to hundredths.
use vstd::arithmetic::power2::{
    lemma2_to64, lemma2_to64_rest, lemma_pow2_adds, lemma_pow2_pos, lemma_pow2_strictly_increases,
    lemma_pow2_unfold, pow2,
};
use vstd::prelude::*;

verus! {

/// The number of binary digits of `n`; zero for zero.
pub open spec fn bit_length(n: nat) -> nat
    decreases n,
{
    if n == 0 {
        0
    } else {
        1 + bit_length(n / 2)
    }
}

/// `a / b` rounded to the nearest integer, a tie going to the even one.
pub open spec fn round_half_even(a: nat, b: nat) -> nat
    recommends
        b > 0,
{
    let q = a / b;
    let r = a % b;
    if 2 * r > b || (2 * r == b && q % 2 == 1) {
        q + 1
    } else {
        q
    }
}

/// `p / q` times `2^s`, as a numerator and a denominator.
pub open spec fn scaled(p: nat, q: nat, s: int) -> (nat, nat) {
    if s >= 0 {
        (p * pow2(s as nat), q)
    } else {
        (p, q * pow2((-s) as nat))
    }
}

/// The power of two that brings a positive `p / q` into `[2^52, 2^53)`. The
/// bit lengths put `p / q * 2^s` in `(2^52, 2^54)` for the first guess `s`;
/// one step down corrects it where it reaches `2^53`.
pub open spec fn double_shift(p: nat, q: nat) -> int {
    let s = 53 - bit_length(p) + bit_length(q);
    if scaled(p, q, s).0 / scaled(p, q, s).1 >= pow2(53) {
        s - 1
    } else {
        s
    }
}

/// The binary value `significand / 2^shift`.
pub struct Double {
    pub significand: nat,
    pub shift: int,
}

/// The double-precision value nearest to a positive `p / q`: its 53
/// significant bits rounded to nearest, a tie going to the even significand,
/// as IEEE 754 division rounds. (A carry that makes the significand `2^53`
/// stands for the same value as `2^52` one exponent up.)
pub open spec fn nearest_double(p: nat, q: nat) -> Double {
    let s = double_shift(p, q);
    Double { significand: round_half_even(scaled(p, q, s).0, scaled(p, q, s).1), shift: s }
}

/// The value of the double nearest to the integer `n`: `n` itself below
/// `2^53`, where every integer is a double; above, `n` rounded to 53
/// significant bits, itself an integer.
pub open spec fn double_of_nat(n: nat) -> nat {
    if n < pow2(53) {
        n
    } else {
        nearest_double(n, 1).significand * pow2((-nearest_double(n, 1).shift) as nat)
    }
}

/// The exact value of `d` in hundredths, rounded to nearest, a tie going to
/// the even one.
pub open spec fn double_hundredths(d: Double) -> nat {
    if d.shift <= 0 {
        100 * d.significand * pow2((-d.shift) as nat)
    } else {
        round_half_even(100 * d.significand, pow2(d.shift as nat))
    }
}

proof fn lemma_pow2_le(a: nat, b: nat)
    requires
        a <= b,
    ensures
        pow2(a) <= pow2(b),
{
    if a < b {
        lemma_pow2_strictly_increases(a, b);
    }
}

proof fn lemma_pow2_126_fits()
    ensures
        2 * pow2(126) <= u128::MAX,
{
    lemma2_to64();
    lemma2_to64_rest();
    lemma_pow2_adds(64, 62);
}

pub proof fn lemma_bit_length_bounds(n: nat)
    ensures
        n < pow2(bit_length(n)),
        n > 0 ==> pow2((bit_length(n) - 1) as nat) <= n,
        n > 0 ==> bit_length(n) >= 1,
    decreases n,
{
    lemma2_to64();
    if n > 0 {
        lemma_bit_length_bounds(n / 2);
        lemma_pow2_unfold(bit_length(n));
        if n / 2 > 0 {
            lemma_pow2_unfold(bit_length(n / 2));
        }
    }
}

pub proof fn lemma_bit_length_le(n: nat, k: nat)
    requires
        n < pow2(k),
    ensures
        bit_length(n) <= k,
{
    lemma_bit_length_bounds(n);
    if bit_length(n) > k {
        lemma_pow2_le(k, (bit_length(n) - 1) as nat);
    }
}

pub proof fn lemma_bit_length_ge(n: nat, k: nat)
    requires
        pow2(k) <= n,
    ensures
        bit_length(n) >= k + 1,
{
    lemma_bit_length_bounds(n);
    if bit_length(n) <= k {
        lemma_pow2_le(bit_length(n), k);
    }
}

/// Below: with `p < 2^i` and `q >= 2^j`, `p / q * 2^s < 2^(i + s - j)`.
proof fn lemma_scaled_below(p: nat, q: nat, s: int, i: nat, j: nat)
    requires
        p < pow2(i),
        pow2(j) <= q,
        i + s - j >= 0,
    ensures
        scaled(p, q, s).0 < pow2((i + s - j) as nat) * scaled(p, q, s).1,
{
    let e = (i + s - j) as nat;
    lemma_pow2_pos(e);
    if s >= 0 {
        let t = s as nat;
        lemma_pow2_pos(t);
        lemma_pow2_adds(i, t);
        lemma_pow2_adds(e, j);
        assert(p * pow2(t) < pow2(i) * pow2(t)) by (nonlinear_arith)
            requires
                p < pow2(i),
                pow2(t) > 0,
        ;
        assert(pow2(e) * pow2(j) <= pow2(e) * q) by (nonlinear_arith)
            requires
                pow2(j) <= q,
        ;
    } else {
        let t = (-s) as nat;
        lemma_pow2_adds(e, j);
        lemma_pow2_adds(j, t);
        assert(i == e + j + t);
        lemma_pow2_adds(e + j, t);
        assert(pow2(e) * pow2(j) * pow2(t) <= pow2(e) * (q * pow2(t))) by (nonlinear_arith)
            requires
                pow2(j) <= q,
        ;
        assert(pow2(e + j) * pow2(t) == pow2(e) * pow2(j) * pow2(t));
    }
}

/// Above: with `p >= 2^i` and `q < 2^j`, `p / q * 2^s > 2^(i + s - j)`.
proof fn lemma_scaled_above(p: nat, q: nat, s: int, i: nat, j: nat)
    requires
        pow2(i) <= p,
        q < pow2(j),
        i + s - j >= 0,
    ensures
        pow2((i + s - j) as nat) * scaled(p, q, s).1 < scaled(p, q, s).0,
{
    let e = (i + s - j) as nat;
    lemma_pow2_pos(e);
    if s >= 0 {
        let t = s as nat;
        lemma_pow2_pos(t);
        lemma_pow2_adds(i, t);
        lemma_pow2_adds(e, j);
        assert(pow2(i) * pow2(t) <= p * pow2(t)) by (nonlinear_arith)
            requires
                pow2(i) <= p,
        ;
        assert(pow2(e) * q < pow2(e) * pow2(j)) by (nonlinear_arith)
            requires
                q < pow2(j),
                pow2(e) > 0,
        ;
    } else {
        let t = (-s) as nat;
        lemma_pow2_pos(t);
        lemma_pow2_adds(e, j);
        assert(i == e + j + t);
        lemma_pow2_adds(e + j, t);
        assert(pow2(e) * (q * pow2(t)) < pow2(e) * pow2(j) * pow2(t)) by (nonlinear_arith)
            requires
                q < pow2(j),
                pow2(e) > 0,
                pow2(t) > 0,
        ;
        assert(pow2(e + j) * pow2(t) == pow2(e) * pow2(j) * pow2(t));
    }
}

/// Below: with `p < 2^i` and `q >= 1`, the scaled numerator and denominator fit.
proof fn lemma_scaled_fits(p: nat, q: nat, s: int, i: nat, j: nat)
    requires
        p < pow2(i),
        q < pow2(j),
        s >= 0 ==> i + s <= 126,
        s < 0 ==> j - s <= 126,
        i <= 126,
        j <= 126,
    ensures
        scaled(p, q, s).0 < pow2(126),
        scaled(p, q, s).1 < pow2(126),
        q > 0 ==> scaled(p, q, s).1 > 0,
{
    lemma_pow2_le(i, 126);
    lemma_pow2_le(j, 126);
    if s >= 0 {
        let t = s as nat;
        lemma_pow2_pos(t);
        lemma_pow2_adds(i, t);
        lemma_pow2_le(i + t, 126);
        assert(p * pow2(t) < pow2(i) * pow2(t)) by (nonlinear_arith)
            requires
                p < pow2(i),
                pow2(t) > 0,
        ;
    } else {
        let t = (-s) as nat;
        lemma_pow2_pos(t);
        lemma_pow2_adds(j, t);
        lemma_pow2_le(j + t, 126);
        assert(q * pow2(t) < pow2(j) * pow2(t)) by (nonlinear_arith)
            requires
                q < pow2(j),
                pow2(t) > 0,
        ;
        assert(q > 0 ==> q * pow2(t) > 0) by (nonlinear_arith)
            requires
                pow2(t) > 0,
        ;
    }
}

pub fn pow2_exec(k: u32) -> (r: u128)
    requires
        k <= 126,
    ensures
        r as nat == pow2(k as nat),
{
    proof {
        lemma2_to64();
        lemma_pow2_126_fits();
    }
    let mut r: u128 = 1;
    let mut i: u32 = 0;
    while i < k
        invariant
            i <= k <= 126,
            r as nat == pow2(i as nat),
            2 * pow2(126) <= u128::MAX,
        decreases k - i,
    {
        proof {
            lemma_pow2_unfold((i + 1) as nat);
            lemma_pow2_le((i + 1) as nat, 126);
        }
        r = r * 2;
        i = i + 1;
    }
    r
}

pub fn bit_len(n: u128) -> (r: u32)
    requires
        n < pow2(68),
    ensures
        r as nat == bit_length(n as nat),
        r <= 68,
{
    proof {
        lemma_bit_length_le(n as nat, 68);
    }
    let mut x: u128 = n;
    let mut r: u32 = 0;
    while x > 0
        invariant
            r + bit_length(x as nat) == bit_length(n as nat),
            bit_length(n as nat) <= 68,
        decreases x,
    {
        x = x / 2;
        r = r + 1;
    }
    r
}

pub fn round_half_even_exec(a: u128, b: u128) -> (r: u128)
    requires
        0 < b <= pow2(126),
    ensures
        r as nat == round_half_even(a as nat, b as nat),
        r as nat <= a as nat / b as nat + 1,
{
    proof {
        lemma_pow2_126_fits();
    }
    let q = a / b;
    let rem = a % b;
    if 2 * rem > b || (2 * rem == b && q % 2 == 1) {
        assert(q < u128::MAX) by (nonlinear_arith)
            requires
                q == a / b,
                rem == a % b,
                rem > 0,
                b > 0,
                a <= u128::MAX,
        ;
        q + 1
    } else {
        q
    }
}

/// `p / q` times `2^s`, as a numerator and a denominator.
fn scale(p: u128, q: u128, s: i64) -> (r: (u128, u128))
    requires
        -126 <= s <= 126,
        scaled(p as nat, q as nat, s as int).0 < pow2(126),
        scaled(p as nat, q as nat, s as int).1 < pow2(126),
    ensures
        r.0 as nat == scaled(p as nat, q as nat, s as int).0,
        r.1 as nat == scaled(p as nat, q as nat, s as int).1,
{
    proof {
        lemma_pow2_126_fits();
    }
    if s >= 0 {
        (p * pow2_exec(s as u32), q)
    } else {
        (p, q * pow2_exec((-s) as u32))
    }
}

/// The double nearest to a positive `p / q`.
pub fn nearest_double_exec(p: u128, q: u128) -> (r: (u128, i64))
    requires
        0 < p < pow2(68),
        0 < q < pow2(68),
    ensures
        r.0 as nat == nearest_double(p as nat, q as nat).significand,
        r.1 as int == nearest_double(p as nat, q as nat).shift,
        0 < r.0 <= pow2(54),
        52 + bit_length(q as nat) <= r.1 + bit_length(p as nat) <= 53 + bit_length(q as nat),
{
    let bp = bit_len(p);
    let bq = bit_len(q);
    proof {
        lemma_bit_length_bounds(p as nat);
        lemma_bit_length_bounds(q as nat);
    }
    let s0: i64 = 53 - bp as i64 + bq as i64;
    proof {
        lemma_scaled_fits(p as nat, q as nat, s0 as int, bp as nat, bq as nat);
    }
    let (a0, b0) = scale(p, q, s0);
    let two53 = pow2_exec(53);
    let s: i64 = if a0 / b0 >= two53 {
        s0 - 1
    } else {
        s0
    };
    proof {
        lemma_scaled_fits(p as nat, q as nat, s as int, bp as nat, bq as nat);
    }
    let (a, b) = scale(p, q, s);
    proof {
        lemma_pow2_pos(126);
        lemma_scaled_below(p as nat, q as nat, s as int, bp as nat, (bq - 1) as nat);
        lemma_scaled_above(p as nat, q as nat, s as int, (bp - 1) as nat, bq as nat);
        let e_hi = (bp + s - bq + 1) as nat;
        let e_lo = (bp - 1 + s - bq) as nat;
        lemma_pow2_le(e_hi, 54);
        lemma_pow2_le(0, e_lo);
        lemma2_to64();
        assert(a as nat / b as nat <= pow2(54) - 1) by (nonlinear_arith)
            requires
                (a as nat) < pow2(e_hi) * (b as nat),
                pow2(e_hi) <= pow2(54),
                b > 0,
        ;
        assert(a as nat / b as nat >= 1) by (nonlinear_arith)
            requires
                pow2(e_lo) * (b as nat) < a as nat,
                pow2(e_lo) >= 1,
                b > 0,
        ;
    }
    let m = round_half_even_exec(a, b);
    (m, s)
}

/// The value of the double nearest to `n`.
pub fn double_of_nat_exec(n: u128) -> (r: u128)
    requires
        n < pow2(64),
    ensures
        r as nat == double_of_nat(n as nat),
        r as nat <= pow2(65),
        n > 0 ==> r > 0,
{
    proof {
        lemma2_to64();
        lemma2_to64_rest();
        lemma_pow2_le(64, 68);
        lemma_pow2_le(65, 126);
        lemma_pow2_126_fits();
    }
    let two53 = pow2_exec(53);
    if n < two53 {
        proof {
            lemma_pow2_le(53, 65);
        }
        n
    } else {
        let (m, s) = nearest_double_exec(n, 1);
        proof {
            lemma_bit_length_ge(n as nat, 53);
            lemma_bit_length_le(n as nat, 64);
            assert(bit_length(1) == 1) by {
                assert(bit_length(0) == 0);
            }
            lemma_pow2_le((-s) as nat, 11);
            lemma_pow2_adds(54, 11);
            lemma_pow2_pos((-s) as nat);
            assert(m as nat * pow2((-s) as nat) <= pow2(54) * pow2(11)) by (nonlinear_arith)
                requires
                    m as nat <= pow2(54),
                    pow2((-s) as nat) <= pow2(11),
            ;
            assert(m as nat * pow2((-s) as nat) > 0) by (nonlinear_arith)
                requires
                    m > 0,
                    pow2((-s) as nat) > 0,
            ;
        }
        m * pow2_exec((-s) as u32)
    }
}

/// The double `significand / 2^shift`, in hundredths rounded to nearest, a tie
/// going to the even one.
pub fn hundredths_exec(significand: u128, shift: i64) -> (r: u128)
    requires
        significand <= pow2(54),
        -13 <= shift <= 126,
    ensures
        r as nat == double_hundredths(Double { significand: significand as nat, shift: shift as int }),
{
    proof {
        lemma2_to64();
        lemma2_to64_rest();
        lemma_pow2_126_fits();
    }
    if shift <= 0 {
        proof {
            lemma_pow2_le((-shift) as nat, 13);
            lemma_pow2_adds(54, 13);
            lemma_pow2_adds(64, 3);
            assert(100 * significand * pow2((-shift) as nat) <= 100 * (pow2(54) * pow2(13)))
                by (nonlinear_arith)
                requires
                    significand <= pow2(54),
                    pow2((-shift) as nat) <= pow2(13),
            ;
        }
        100 * significand * pow2_exec((-shift) as u32)
    } else {
        proof {
            lemma_pow2_pos(shift as nat);
            lemma_pow2_le(shift as nat, 126);
        }
        round_half_even_exec(100 * significand, pow2_exec(shift as u32))
    }
}

} // verus!
