//! Modular arithmetic on 256-bit values: addition, subtraction and
//! multiplication modulo a fixed modulus, and a modular inverse by the
//! extended Euclidean algorithm, whose success is characterised exactly
//! by the greatest common divisor.

use vstd::prelude::*;
use vstd::arithmetic::div_mod::lemma_fundamental_div_mod;
use vstd::arithmetic::div_mod::lemma_mod_bound;
use vstd::arithmetic::div_mod::lemma_mod_multiples_basic;
use vstd::arithmetic::div_mod::lemma_mod_multiples_vanish;
use vstd::arithmetic::div_mod::lemma_mod_self_0;
use vstd::arithmetic::div_mod::lemma_mul_mod_noop_left;
use vstd::arithmetic::div_mod::lemma_mul_mod_noop_right;
use vstd::arithmetic::div_mod::lemma_small_mod;
use vstd::arithmetic::div_mod::lemma_sub_mod_noop;
use crate::bigint::val4;
use crate::bigint::big_add;
use crate::bigint::big_mul;
use crate::bigint::big_sub;
use crate::bigint::big_rem;
use crate::bigint::big_div;
use crate::bigint::widen4;
use crate::bigint::zero4;
use crate::bigint::one4;
use crate::bigint::is_zero4;
use crate::bigint::is_one4;

verus! {

/// The greatest common divisor.
pub open spec fn gcd(a: nat, b: nat) -> nat
    decreases b,
{
    if b == 0 {
        a
    } else {
        gcd(b, a % b)
    }
}

/// The inverse of `a` modulo `m` where one exists, and zero where none
/// does.
pub open spec fn mod_inverse(a: nat, m: nat) -> nat {
    if exists|b: nat| b < m && #[trigger] ((a * b) % m) == 1nat % m {
        choose|b: nat| b < m && #[trigger] ((a * b) % m) == 1nat % m
    } else {
        0
    }
}

/// Inverses are unique: two inverses of `a` below the modulus are
/// equal.
pub proof fn lemma_inverse_unique(a: nat, m: nat, x: nat, y: nat)
    requires
        m >= 2,
        x < m,
        y < m,
        (a * x) % m == 1nat % m,
        (a * y) % m == 1nat % m,
    ensures
        x == y,
{
    let ai = a as int;
    let mi = m as int;
    let xi = x as int;
    let yi = y as int;
    lemma_small_mod(1, m);
    lemma_small_mod(x, m);
    lemma_small_mod(y, m);
    assert((xi * (ai * yi)) % mi == (xi * ((ai * yi) % mi)) % mi) by {
        lemma_mul_mod_noop_right(xi, ai * yi, mi);
    }
    assert((xi * 1) % mi == xi % mi);
    assert(xi * (ai * yi) == (xi * ai) * yi) by (nonlinear_arith);
    assert(((xi * ai) * yi) % mi == (((xi * ai) % mi) * yi) % mi) by {
        lemma_mul_mod_noop_left(xi * ai, yi, mi);
    }
    assert(xi * ai == ai * xi) by (nonlinear_arith);
    assert((1 * yi) % mi == yi % mi);
}

/// The greatest common divisor is positive when either argument is,
/// and divides both arguments.
pub proof fn lemma_gcd_divides(a: nat, b: nat)
    ensures
        a > 0 || b > 0 ==> gcd(a, b) > 0,
        gcd(a, b) > 0 ==> a % gcd(a, b) == 0 && b % gcd(a, b) == 0,
    decreases b,
{
    if b == 0 {
        if a > 0 {
            lemma_mod_self_0(a as int);
            lemma_small_mod(0, a);
        }
    } else {
        lemma_mod_bound(a as int, b as int);
        lemma_gcd_divides(b, a % b);
        let g = gcd(b, a % b);
        assert(g == gcd(a, b));
        assert(g > 0);
        let ai = a as int;
        let bi = b as int;
        let gi = g as int;
        lemma_fundamental_div_mod(ai, bi);
        lemma_fundamental_div_mod(bi, gi);
        lemma_fundamental_div_mod((a % b) as int, gi);
        assert(bi == gi * (bi / gi));
        assert((ai % bi) == gi * ((ai % bi) / gi));
        let k = (ai / bi) * (bi / gi) + (ai % bi) / gi;
        assert(ai == gi * k) by (nonlinear_arith)
            requires
                ai == bi * (ai / bi) + ai % bi,
                bi == gi * (bi / gi),
                (ai % bi) == gi * ((ai % bi) / gi),
                k == (ai / bi) * (bi / gi) + (ai % bi) / gi,
        ;
        assert((k * gi) % gi == 0) by {
            lemma_mod_multiples_basic(k, gi);
        }
        assert(ai == k * gi) by (nonlinear_arith)
            requires
                ai == gi * k,
        ;
    }
}

/// Where the greatest common divisor of modulus and value exceeds one,
/// no inverse exists.
pub proof fn lemma_no_inverse_when_gcd(a: nat, m: nat)
    requires
        m >= 2,
        gcd(m, a) != 1,
    ensures
        !(exists|b: nat| b < m && #[trigger] ((a * b) % m) == 1nat % m),
        mod_inverse(a, m) == 0,
{
    lemma_gcd_divides(m, a);
    let g = gcd(m, a);
    assert(g >= 2);
    if exists|b: nat| b < m && #[trigger] ((a * b) % m) == 1nat % m {
        let b = choose|b: nat| b < m && #[trigger] ((a * b) % m) == 1nat % m;
        lemma_small_mod(1, m);
        let ai = a as int;
        let bi = b as int;
        let mi = m as int;
        let gi = g as int;
        lemma_fundamental_div_mod(ai * bi, mi);
        lemma_fundamental_div_mod(ai, gi);
        lemma_fundamental_div_mod(mi, gi);
        let q = (ai * bi) / mi;
        assert(ai == gi * (ai / gi));
        assert(mi == gi * (mi / gi));
        assert(1 == gi * ((ai / gi) * bi - (mi / gi) * q)) by (nonlinear_arith)
            requires
                ai * bi == mi * q + 1,
                ai == gi * (ai / gi),
                mi == gi * (mi / gi),
        ;
        assert(false) by (nonlinear_arith)
            requires
                1 == gi * ((ai / gi) * bi - (mi / gi) * q),
                gi >= 2,
        ;
    }
}

/// Adds two values modulo `m`.
pub fn add_mod(a: &[u64; 4], b: &[u64; 4], m: &[u64; 4]) -> (r: [u64; 4])
    requires
        val4(*m) > 0,
    ensures
        val4(r) == (val4(*a) + val4(*b)) % val4(*m),
        val4(r) < val4(*m),
{
    let sum = big_add(a, b);
    let r = big_rem(&sum, m);
    proof {
        lemma_mod_bound((val4(*a) + val4(*b)) as int, val4(*m) as int);
    }
    r
}

/// Multiplies two values modulo `m`.
pub fn mul_mod(a: &[u64; 4], b: &[u64; 4], m: &[u64; 4]) -> (r: [u64; 4])
    requires
        val4(*m) > 0,
    ensures
        val4(r) == (val4(*a) * val4(*b)) % val4(*m),
        val4(r) < val4(*m),
{
    let prod = big_mul(a, b);
    let r = big_rem(&prod, m);
    proof {
        lemma_mod_bound((val4(*a) * val4(*b)) as int, val4(*m) as int);
    }
    r
}

/// Subtracts `b` from `a` modulo `m`, for canonical inputs.
pub fn sub_mod(a: &[u64; 4], b: &[u64; 4], m: &[u64; 4]) -> (r: [u64; 4])
    requires
        val4(*a) < val4(*m),
        val4(*b) < val4(*m),
    ensures
        val4(r) == (val4(*a) + val4(*m) - val4(*b)) % (val4(*m) as int),
        val4(r) < val4(*m),
{
    let d = big_sub(m, b);
    let sum = big_add(a, &d);
    let r = big_rem(&sum, m);
    proof {
        lemma_mod_bound((val4(*a) + val4(*m) - val4(*b)) as int, val4(*m) as int);
    }
    r
}

/// One step of the extended Euclidean algorithm preserves the Bezout
/// congruence.
proof fn lemma_euclid_step(
    a: int,
    m: int,
    r0: int,
    r1: int,
    s0: int,
    s1: int,
    q: int,
    qm: int,
    t: int,
    s2: int,
    rem: int,
)
    requires
        m >= 2,
        r1 > 0,
        r0 >= 0,
        a >= 0,
        0 <= s0 < m,
        0 <= s1 < m,
        0 <= t < m,
        (a * s0) % m == r0 % m,
        (a * s1) % m == r1 % m,
        q == r0 / r1,
        rem == r0 % r1,
        qm == q % m,
        t == (qm * s1) % m,
        s2 == (s0 + m - t) % m,
    ensures
        (a * s2) % m == rem % m,
        0 <= s2 < m,
{
    lemma_fundamental_div_mod(r0, r1);
    assert(rem == r0 - q * r1);
    lemma_mod_bound(s0 + m - t, m);
    // (a * s2) % m == (a * (s0 + m - t)) % m
    lemma_mul_mod_noop_right(a, s0 + m - t, m);
    assert(a * (s0 + m - t) == m * a + (a * s0 - a * t)) by (nonlinear_arith);
    lemma_mod_multiples_vanish(a, a * s0 - a * t, m);
    // (a * t) % m == (q * r1) % m
    lemma_mul_mod_noop_right(a, qm * s1, m);
    assert(a * (qm * s1) == qm * (a * s1)) by (nonlinear_arith);
    lemma_mul_mod_noop_right(qm, a * s1, m);
    lemma_mul_mod_noop_right(qm, r1, m);
    lemma_mul_mod_noop_left(q, r1, m);
    assert((a * t) % m == (q * r1) % m);
    // combine through subtraction
    lemma_sub_mod_noop(a * s0, a * t, m);
    lemma_sub_mod_noop(r0, q * r1, m);
    assert((a * s0 - a * t) % m == ((a * s0) % m - (a * t) % m) % m);
    assert((r0 - q * r1) % m == (r0 % m - (q * r1) % m) % m);
    assert((a * s2) % m == (r0 - q * r1) % m);
}

/// Computes the inverse of `a` modulo `m` by the extended Euclidean
/// algorithm.  Succeeds exactly when modulus and value are coprime; on
/// success the result is the unique inverse below the modulus, and on
/// failure it is zero, which is also what the inverse function of the
/// specification yields there.
pub fn inv_mod(a: &[u64; 4], m: &[u64; 4]) -> (out: ([u64; 4], bool))
    requires
        val4(*m) >= 2,
    ensures
        out.1 == (gcd(val4(*m), val4(*a)) == 1),
        val4(out.0) == mod_inverse(val4(*a), val4(*m)),
        out.1 ==> val4(out.0) < val4(*m) && (val4(*a) * val4(out.0)) % val4(*m) == 1nat % val4(
            *m,
        ),
        !out.1 ==> val4(out.0) == 0,
{
    let ghost av = val4(*a);
    let ghost mv = val4(*m);
    let mut r0: [u64; 4] = *m;
    let mut r1: [u64; 4] = *a;
    let mut s0: [u64; 4] = zero4();
    let mut s1: [u64; 4] = one4();
    proof {
        lemma_small_mod(0, mv);
        lemma_small_mod(1, mv);
        assert((av * 0) % mv == 0) by (nonlinear_arith)
            requires
                mv >= 2,
        ;
        assert(av * 1 == av) by (nonlinear_arith);
        assert((av * val4(s1)) % mv == val4(r1) % mv);
        assert(mv % mv == 0) by {
            lemma_mod_self_0(mv as int);
        }
    }
    while !is_zero4(&r1)
        invariant
            mv == val4(*m),
            av == val4(*a),
            mv >= 2,
            gcd(val4(r0), val4(r1)) == gcd(mv, av),
            (av * val4(s0)) % mv == val4(r0) % mv,
            (av * val4(s1)) % mv == val4(r1) % mv,
            val4(s0) < mv,
            val4(s1) < mv,
        decreases val4(r1),
    {
        let q = big_div(&r0, &r1);
        let w0 = widen4(&r0);
        let rem = big_rem(&w0, &r1);
        let wq = widen4(&q);
        let qm = big_rem(&wq, m);
        let t = mul_mod(&qm, &s1, m);
        let s2 = sub_mod(&s0, &t, m);
        proof {
            lemma_euclid_step(
                av as int,
                mv as int,
                val4(r0) as int,
                val4(r1) as int,
                val4(s0) as int,
                val4(s1) as int,
                val4(q) as int,
                val4(qm) as int,
                val4(t) as int,
                val4(s2) as int,
                val4(rem) as int,
            );
            assert(gcd(val4(r1), val4(rem)) == gcd(val4(r0), val4(r1)));
            lemma_mod_bound(val4(r0) as int, val4(r1) as int);
        }
        r0 = r1;
        r1 = rem;
        s0 = s1;
        s1 = s2;
    }
    proof {
        assert(gcd(val4(r0), 0) == val4(r0));
        assert(val4(r0) == gcd(mv, av));
    }
    if is_one4(&r0) {
        proof {
            lemma_small_mod(1, mv);
            assert((av * val4(s0)) % mv == 1nat % mv);
            assert(exists|b: nat| b < mv && #[trigger] ((av * b) % mv) == 1nat % mv) by {
                assert(val4(s0) < mv && (av * val4(s0)) % mv == 1nat % mv);
            }
            let c = choose|b: nat| b < mv && #[trigger] ((av * b) % mv) == 1nat % mv;
            lemma_inverse_unique(av, mv, c, val4(s0));
        }
        (s0, true)
    } else {
        proof {
            lemma_no_inverse_when_gcd(av, mv);
        }
        (zero4(), false)
    }
}

} // verus!
