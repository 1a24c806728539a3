//! Fixed-width big integers: 256-bit values in four 64-bit limbs, with
//! arbitrary-precision arithmetic delegated to an outside crate behind
//! exact contracts.

use vstd::prelude::*;

verus! {

/// The value of four little-endian 64-bit limbs.
pub open spec fn val4(l: [u64; 4]) -> nat {
    (l[0] + l[1] * 0x1_0000_0000_0000_0000 + l[2] * 0x1_0000_0000_0000_0000_0000_0000_0000_0000
        + l[3] * 0x1_0000_0000_0000_0000_0000_0000_0000_0000_0000_0000_0000_0000) as nat
}

/// The value of eight little-endian 64-bit limbs.
pub open spec fn val8(l: [u64; 8]) -> nat {
    (l[0] + l[1] * 0x1_0000_0000_0000_0000 + l[2] * 0x1_0000_0000_0000_0000_0000_0000_0000_0000
        + l[3] * 0x1_0000_0000_0000_0000_0000_0000_0000_0000_0000_0000_0000_0000
        + l[4] * 0x1_0000_0000_0000_0000_0000_0000_0000_0000_0000_0000_0000_0000_0000_0000_0000_0000
        + l[5]
        * 0x1_0000_0000_0000_0000_0000_0000_0000_0000_0000_0000_0000_0000_0000_0000_0000_0000_0000_0000_0000_0000
        + l[6]
        * 0x1_0000_0000_0000_0000_0000_0000_0000_0000_0000_0000_0000_0000_0000_0000_0000_0000_0000_0000_0000_0000_0000_0000_0000_0000
        + l[7]
        * 0x1_0000_0000_0000_0000_0000_0000_0000_0000_0000_0000_0000_0000_0000_0000_0000_0000_0000_0000_0000_0000_0000_0000_0000_0000_0000_0000_0000_0000)
        as nat
}

/// Multiplies two 256-bit values.
/// Relies on num_bigint::BigUint: `from_bytes_le` and `to_bytes_le`
/// convert between little-endian bytes and values, and `*` multiplies
/// arbitrary-precision integers.
#[verifier::external_body]
pub(crate) fn big_mul(a: &[u64; 4], b: &[u64; 4]) -> (r: [u64; 8])
    ensures
        val8(r) == val4(*a) * val4(*b),
{
    let x = num_bigint::BigUint::from_bytes_le(
        &a.iter().flat_map(|w| w.to_le_bytes()).collect::<Vec<u8>>(),
    );
    let y = num_bigint::BigUint::from_bytes_le(
        &b.iter().flat_map(|w| w.to_le_bytes()).collect::<Vec<u8>>(),
    );
    let mut v = (x * y).to_bytes_le();
    v.resize(64, 0);
    let limbs: Vec<u64> = v.chunks(8).map(|c| u64::from_le_bytes(c.try_into().unwrap())).collect();
    limbs.try_into().unwrap()
}

/// Adds two 256-bit values.
/// Relies on num_bigint::BigUint: byte conversions and `+` on
/// arbitrary-precision integers.
#[verifier::external_body]
pub(crate) fn big_add(a: &[u64; 4], b: &[u64; 4]) -> (r: [u64; 8])
    ensures
        val8(r) == val4(*a) + val4(*b),
{
    let x = num_bigint::BigUint::from_bytes_le(
        &a.iter().flat_map(|w| w.to_le_bytes()).collect::<Vec<u8>>(),
    );
    let y = num_bigint::BigUint::from_bytes_le(
        &b.iter().flat_map(|w| w.to_le_bytes()).collect::<Vec<u8>>(),
    );
    let mut v = (x + y).to_bytes_le();
    v.resize(64, 0);
    let limbs: Vec<u64> = v.chunks(8).map(|c| u64::from_le_bytes(c.try_into().unwrap())).collect();
    limbs.try_into().unwrap()
}

/// Subtracts one 256-bit value from a not-smaller one.
/// Relies on num_bigint::BigUint: byte conversions and `-` on
/// arbitrary-precision integers, which requires the difference to be
/// non-negative.
#[verifier::external_body]
pub(crate) fn big_sub(a: &[u64; 4], b: &[u64; 4]) -> (r: [u64; 4])
    requires
        val4(*b) <= val4(*a),
    ensures
        val4(r) == val4(*a) - val4(*b),
{
    let x = num_bigint::BigUint::from_bytes_le(
        &a.iter().flat_map(|w| w.to_le_bytes()).collect::<Vec<u8>>(),
    );
    let y = num_bigint::BigUint::from_bytes_le(
        &b.iter().flat_map(|w| w.to_le_bytes()).collect::<Vec<u8>>(),
    );
    let mut v = (x - y).to_bytes_le();
    v.resize(32, 0);
    let limbs: Vec<u64> = v.chunks(8).map(|c| u64::from_le_bytes(c.try_into().unwrap())).collect();
    limbs.try_into().unwrap()
}

/// Reduces a 512-bit value modulo a positive 256-bit value.
/// Relies on num_bigint::BigUint: byte conversions and `%`, the
/// remainder of Euclidean division.
#[verifier::external_body]
pub(crate) fn big_rem(a: &[u64; 8], m: &[u64; 4]) -> (r: [u64; 4])
    requires
        val4(*m) > 0,
    ensures
        val4(r) == val8(*a) % val4(*m),
{
    let x = num_bigint::BigUint::from_bytes_le(
        &a.iter().flat_map(|w| w.to_le_bytes()).collect::<Vec<u8>>(),
    );
    let y = num_bigint::BigUint::from_bytes_le(
        &m.iter().flat_map(|w| w.to_le_bytes()).collect::<Vec<u8>>(),
    );
    let mut v = (x % y).to_bytes_le();
    v.resize(32, 0);
    let limbs: Vec<u64> = v.chunks(8).map(|c| u64::from_le_bytes(c.try_into().unwrap())).collect();
    limbs.try_into().unwrap()
}

/// Divides one 256-bit value by a positive one, rounding down.
/// Relies on num_bigint::BigUint: byte conversions and `/`, the
/// quotient of Euclidean division.
#[verifier::external_body]
pub(crate) fn big_div(a: &[u64; 4], b: &[u64; 4]) -> (r: [u64; 4])
    requires
        val4(*b) > 0,
    ensures
        val4(r) == val4(*a) / val4(*b),
{
    let x = num_bigint::BigUint::from_bytes_le(
        &a.iter().flat_map(|w| w.to_le_bytes()).collect::<Vec<u8>>(),
    );
    let y = num_bigint::BigUint::from_bytes_le(
        &b.iter().flat_map(|w| w.to_le_bytes()).collect::<Vec<u8>>(),
    );
    let mut v = (x / y).to_bytes_le();
    v.resize(32, 0);
    let limbs: Vec<u64> = v.chunks(8).map(|c| u64::from_le_bytes(c.try_into().unwrap())).collect();
    limbs.try_into().unwrap()
}

/// Widens four limbs to eight.
pub fn widen4(a: &[u64; 4]) -> (r: [u64; 8])
    ensures
        val8(r) == val4(*a),
{
    let mut r: [u64; 8] = [0u64; 8];
    r[0] = a[0];
    r[1] = a[1];
    r[2] = a[2];
    r[3] = a[3];
    r
}

/// The all-zero limbs.
pub fn zero4() -> (r: [u64; 4])
    ensures
        val4(r) == 0,
{
    [0u64; 4]
}

/// The limbs of one.
pub fn one4() -> (r: [u64; 4])
    ensures
        val4(r) == 1,
{
    let mut r: [u64; 4] = [0u64; 4];
    r[0] = 1;
    r
}

/// Whether two limb arrays hold the same limbs, and so the same value.
pub fn eq4(a: &[u64; 4], b: &[u64; 4]) -> (r: bool)
    ensures
        r == (*a == *b),
        r ==> val4(*a) == val4(*b),
{
    let r = a[0] == b[0] && a[1] == b[1] && a[2] == b[2] && a[3] == b[3];
    proof {
        if r {
            assert(*a =~= *b);
        }
    }
    r
}

/// Whether the value is zero.
pub fn is_zero4(a: &[u64; 4]) -> (r: bool)
    ensures
        r == (val4(*a) == 0),
{
    let r = a[0] == 0 && a[1] == 0 && a[2] == 0 && a[3] == 0;
    proof {
        if r {
            assert(val4(*a) == 0);
        } else {
            lemma_val4_zero(*a);
        }
    }
    r
}

/// A value is zero exactly when all its limbs are.
proof fn lemma_val4_zero(a: [u64; 4])
    ensures
        (val4(a) == 0) == (a[0] == 0 && a[1] == 0 && a[2] == 0 && a[3] == 0),
{
    if val4(a) == 0 {
        assert(a[1] * 0x1_0000_0000_0000_0000 >= 0) by (nonlinear_arith);
        assert(a[2] * 0x1_0000_0000_0000_0000_0000_0000_0000_0000 >= 0) by (nonlinear_arith);
        assert(a[3] * 0x1_0000_0000_0000_0000_0000_0000_0000_0000_0000_0000_0000_0000 >= 0)
            by (nonlinear_arith);
        assert(a[1] * 0x1_0000_0000_0000_0000 == 0);
        assert(a[1] == 0) by (nonlinear_arith)
            requires
                a[1] * 0x1_0000_0000_0000_0000 == 0,
        ;
        assert(a[2] == 0) by (nonlinear_arith)
            requires
                a[2] * 0x1_0000_0000_0000_0000_0000_0000_0000_0000 == 0,
        ;
        assert(a[3] == 0) by (nonlinear_arith)
            requires
                a[3] * 0x1_0000_0000_0000_0000_0000_0000_0000_0000_0000_0000_0000_0000 == 0,
        ;
    }
}

/// Whether the value is one.
pub fn is_one4(a: &[u64; 4]) -> (r: bool)
    ensures
        r == (val4(*a) == 1),
{
    let r = a[0] == 1 && a[1] == 0 && a[2] == 0 && a[3] == 0;
    proof {
        if !r {
            lemma_val4_one(*a);
        }
    }
    r
}

/// A value is one exactly when its low limb is one and the rest zero.
proof fn lemma_val4_one(a: [u64; 4])
    ensures
        (val4(a) == 1) == (a[0] == 1 && a[1] == 0 && a[2] == 0 && a[3] == 0),
{
    if val4(a) == 1 {
        assert(a[1] * 0x1_0000_0000_0000_0000 >= 0) by (nonlinear_arith);
        assert(a[2] * 0x1_0000_0000_0000_0000_0000_0000_0000_0000 >= 0) by (nonlinear_arith);
        assert(a[3] * 0x1_0000_0000_0000_0000_0000_0000_0000_0000_0000_0000_0000_0000 >= 0)
            by (nonlinear_arith);
        assert(a[1] == 0) by (nonlinear_arith)
            requires
                0 <= a[1] * 0x1_0000_0000_0000_0000 <= 1,
        ;
        assert(a[2] == 0) by (nonlinear_arith)
            requires
                0 <= a[2] * 0x1_0000_0000_0000_0000_0000_0000_0000_0000 <= 1,
        ;
        assert(a[3] == 0) by (nonlinear_arith)
            requires
                0 <= a[3] * 0x1_0000_0000_0000_0000_0000_0000_0000_0000_0000_0000_0000_0000 <= 1,
        ;
    }
}

} // verus!
