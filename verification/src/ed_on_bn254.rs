//! The twisted Edwards curve over the scalar field of BN254:
//! `168700 * x^2 + y^2 = 1 + 168696 * x^2 * y^2` over the prime field of
//! order `fq_order()`, with a subgroup of prime order `fr_order()`.
//!
//! Field elements are canonical 256-bit values in four limbs; the group
//! law is stated over their mathematical values, with division expressed
//! through the modular inverse.

use vstd::prelude::*;
use vstd::string::StringSliceAdditionalSpecFns;
use crate::bigint::val4;
use crate::bigint::eq4;
use crate::bigint::is_zero4;
use crate::bigint::is_one4;
use crate::bigint::zero4;
use crate::bigint::one4;
use crate::modarith::add_mod;
use crate::modarith::sub_mod;
use crate::modarith::mul_mod;
use crate::modarith::inv_mod;
use crate::modarith::mod_inverse;
use crate::bytes::u64_le;
use crate::bytes::push_u64_le;
use crate::bytes::read_u64_le;
use crate::bytes::le_value;
use crate::bytes::lemma_le_round_trip;
use crate::bytes::lemma_nat_le_bytes_len;
use crate::bytes::lemma_pow256_8;
use vstd::arithmetic::div_mod::lemma_fundamental_div_mod_converse_div;
use vstd::arithmetic::div_mod::lemma_mod_multiples_vanish;
use vstd::arithmetic::div_mod::lemma_mul_mod_noop_left;
use vstd::arithmetic::div_mod::lemma_small_mod;

verus! {

/// The order of the base field.
pub open spec fn fq_order() -> nat {
    0x30644e72e131a029b85045b68181585d2833e84879b9709143e1f593f0000001nat
}

/// The order of the prime subgroup, the scalar field's modulus.
pub open spec fn fr_order() -> nat {
    0x60c89ce5c263405370a08b6d0302b0bab3eedb83920ee0a677297dc392126f1nat
}

/// The limbs of the base-field modulus.
pub const FQ_MODULUS: [u64; 4] = [
    0x43e1f593f0000001,
    0x2833e84879b97091,
    0xb85045b68181585d,
    0x30644e72e131a029,
];

/// The limbs of the scalar-field modulus.
pub const FR_MODULUS: [u64; 4] = [
    0x677297dc392126f1,
    0xab3eedb83920ee0a,
    0x370a08b6d0302b0b,
    0x60c89ce5c263405,
];

/// The limbs of the generator's coordinates.
pub const GENERATOR_X: [u64; 4] = [
    0x2893f3f6bb957051,
    0x2ab8d8010534e0b6,
    0x4eacb2e09d6277c1,
    0xbb77a6ad63e739b,
];

pub const GENERATOR_Y: [u64; 4] = [
    0x4b3c257a872d7d8b,
    0xfce0051fb9e13377,
    0x25572e1cd16bf9ed,
    0x25797203f7a0b249,
];

/// The curve coefficient of `x^2`.
pub open spec fn coeff_a_nat() -> nat {
    168700
}

/// The curve coefficient of `x^2 * y^2`.
pub open spec fn coeff_d_nat() -> nat {
    168696
}

/// The limb constants stand for the stated field orders.
pub proof fn lemma_moduli()
    ensures
        val4(FQ_MODULUS) == fq_order(),
        val4(FR_MODULUS) == fr_order(),
        val4(GENERATOR_X) < fq_order(),
        val4(GENERATOR_Y) < fq_order(),
        fq_order() >= 2,
        fr_order() >= 2,
{
}

/// Base-K digits are unique: equal four-limb values have equal limbs.
pub proof fn lemma_val4_injective(a: [u64; 4], b: [u64; 4])
    requires
        val4(a) == val4(b),
    ensures
        a == b,
{
    let k1: int = 0x1_0000_0000_0000_0000int;
    let k2: int = 0x1_0000_0000_0000_0000_0000_0000_0000_0000int;
    let k3: int = 0x1_0000_0000_0000_0000_0000_0000_0000_0000_0000_0000_0000_0000int;
    let a0 = a[0] as int;
    let a1 = a[1] as int;
    let a2 = a[2] as int;
    let a3 = a[3] as int;
    let b0 = b[0] as int;
    let b1 = b[1] as int;
    let b2 = b[2] as int;
    let b3 = b[3] as int;
    let ra: int = a1 + a2 * k1 + a3 * k2;
    let rb: int = b1 + b2 * k1 + b3 * k2;
    assert(val4(a) == a0 + a1 * k1 + a2 * k2 + a3 * k3);
    assert(val4(b) == b0 + b1 * k1 + b2 * k2 + b3 * k3);
    assert(a0 + a1 * k1 + a2 * k2 + a3 * k3 == a0 + k1 * ra) by (nonlinear_arith)
        requires
            k1 == 0x1_0000_0000_0000_0000,
            k2 == 0x1_0000_0000_0000_0000_0000_0000_0000_0000,
            k3 == 0x1_0000_0000_0000_0000_0000_0000_0000_0000_0000_0000_0000_0000,
            ra == a1 + a2 * k1 + a3 * k2,
    ;
    assert(b0 + b1 * k1 + b2 * k2 + b3 * k3 == b0 + k1 * rb) by (nonlinear_arith)
        requires
            k1 == 0x1_0000_0000_0000_0000,
            k2 == 0x1_0000_0000_0000_0000_0000_0000_0000_0000,
            k3 == 0x1_0000_0000_0000_0000_0000_0000_0000_0000_0000_0000_0000_0000,
            rb == b1 + b2 * k1 + b3 * k2,
    ;
    assert(ra >= 0) by (nonlinear_arith)
        requires
            ra == a1 + a2 * k1 + a3 * k2,
            a1 >= 0,
            a2 >= 0,
            a3 >= 0,
            k1 > 0,
            k2 > 0,
    ;
    assert(rb >= 0) by (nonlinear_arith)
        requires
            rb == b1 + b2 * k1 + b3 * k2,
            b1 >= 0,
            b2 >= 0,
            b3 >= 0,
            k1 > 0,
            k2 > 0,
    ;
    lemma_digit_split(a0, ra, b0, rb, k1);
    assert(a1 + a2 * k1 + a3 * k2 == a1 + k1 * (a2 + a3 * k1)) by (nonlinear_arith)
        requires
            k1 == 0x1_0000_0000_0000_0000,
            k2 == 0x1_0000_0000_0000_0000_0000_0000_0000_0000,
    ;
    assert(b1 + b2 * k1 + b3 * k2 == b1 + k1 * (b2 + b3 * k1)) by (nonlinear_arith)
        requires
            k1 == 0x1_0000_0000_0000_0000,
            k2 == 0x1_0000_0000_0000_0000_0000_0000_0000_0000,
    ;
    assert(a2 + a3 * k1 >= 0) by (nonlinear_arith)
        requires
            a2 >= 0,
            a3 >= 0,
            k1 > 0,
    ;
    assert(b2 + b3 * k1 >= 0) by (nonlinear_arith)
        requires
            b2 >= 0,
            b3 >= 0,
            k1 > 0,
    ;
    lemma_digit_split(a1, a2 + a3 * k1, b1, b2 + b3 * k1, k1);
    assert(a2 + a3 * k1 == a2 + k1 * a3) by (nonlinear_arith);
    assert(b2 + b3 * k1 == b2 + k1 * b3) by (nonlinear_arith);
    lemma_digit_split(a2, a3, b2, b3, k1);
    assert(a =~= b);
}

/// If `a0 + k * ra == b0 + k * rb` with both digits below `k`, the
/// digits and the rests agree.
proof fn lemma_digit_split(a0: int, ra: int, b0: int, rb: int, k: int)
    requires
        k > 0,
        0 <= a0 < k,
        0 <= b0 < k,
        ra >= 0,
        rb >= 0,
        a0 + k * ra == b0 + k * rb,
    ensures
        a0 == b0,
        ra == rb,
{
    lemma_mod_multiples_vanish(ra, a0, k);
    lemma_mod_multiples_vanish(rb, b0, k);
    lemma_small_mod(a0 as nat, k as nat);
    lemma_small_mod(b0 as nat, k as nat);
    assert((a0 + k * ra) % k == a0);
    assert((b0 + k * rb) % k == b0);
    assert(ra == rb) by (nonlinear_arith)
        requires
            k > 0,
            a0 == b0,
            a0 + k * ra == b0 + k * rb,
    ;
}

/// Four-limb values compare lexicographically from the highest limb.
proof fn lemma_limbs_lt(a: [u64; 4], b: [u64; 4])
    ensures
        (val4(a) < val4(b)) == (a[3] < b[3] || (a[3] == b[3] && a[2] < b[2]) || (a[3] == b[3]
            && a[2] == b[2] && a[1] < b[1]) || (a[3] == b[3] && a[2] == b[2] && a[1] == b[1]
            && a[0] < b[0])),
{
    lemma_limbs_lt_flat(
        a[0] as int,
        a[1] as int,
        a[2] as int,
        a[3] as int,
        b[0] as int,
        b[1] as int,
        b[2] as int,
        b[3] as int,
    );
}

proof fn lemma_limbs_lt_flat(
    a0: int,
    a1: int,
    a2: int,
    a3: int,
    b0: int,
    b1: int,
    b2: int,
    b3: int,
) by (nonlinear_arith)
    requires
        0 <= a0 < 0x1_0000_0000_0000_0000,
        0 <= a1 < 0x1_0000_0000_0000_0000,
        0 <= a2 < 0x1_0000_0000_0000_0000,
        0 <= a3 < 0x1_0000_0000_0000_0000,
        0 <= b0 < 0x1_0000_0000_0000_0000,
        0 <= b1 < 0x1_0000_0000_0000_0000,
        0 <= b2 < 0x1_0000_0000_0000_0000,
        0 <= b3 < 0x1_0000_0000_0000_0000,
    ensures
        (a0 + a1 * 0x1_0000_0000_0000_0000
            + a2 * 0x1_0000_0000_0000_0000_0000_0000_0000_0000
            + a3 * 0x1_0000_0000_0000_0000_0000_0000_0000_0000_0000_0000_0000_0000 < b0 + b1
            * 0x1_0000_0000_0000_0000 + b2 * 0x1_0000_0000_0000_0000_0000_0000_0000_0000 + b3
            * 0x1_0000_0000_0000_0000_0000_0000_0000_0000_0000_0000_0000_0000) == (a3 < b3 || (a3
            == b3 && a2 < b2) || (a3 == b3 && a2 == b2 && a1 < b1) || (a3 == b3 && a2 == b2 && a1
            == b1 && a0 < b0)),
{
}

/// Whether `a`'s value is below `b`'s.
pub fn lt4(a: &[u64; 4], b: &[u64; 4]) -> (r: bool)
    ensures
        r == (val4(*a) < val4(*b)),
{
    proof {
        lemma_limbs_lt(*a, *b);
    }
    if a[3] != b[3] {
        a[3] < b[3]
    } else if a[2] != b[2] {
        a[2] < b[2]
    } else if a[1] != b[1] {
        a[1] < b[1]
    } else {
        a[0] < b[0]
    }
}

/// An element of the base field, as a canonical value below the
/// modulus.
#[derive(Clone, Copy, PartialEq, Eq, Debug)]
pub struct Fq {
    pub limbs: [u64; 4],
}

impl Fq {
    /// Whether the element is canonical.
    pub open spec fn wf(&self) -> bool {
        val4(self.limbs) < fq_order()
    }

    /// The element's value.
    pub open spec fn value(&self) -> nat {
        val4(self.limbs)
    }
}

/// An element of the scalar field, as a canonical value below the
/// subgroup order.
#[derive(Clone, Copy, PartialEq, Eq, Debug)]
pub struct Fr {
    pub limbs: [u64; 4],
}

impl Fr {
    /// Whether the element is canonical.
    pub open spec fn wf(&self) -> bool {
        val4(self.limbs) < fr_order()
    }

    /// The element's value.
    pub open spec fn value(&self) -> nat {
        val4(self.limbs)
    }

    /// Multiplies two scalars.
    pub fn mul(&self, other: &Fr) -> (r: Fr)
        ensures
            r.wf(),
            r.value() == (self.value() * other.value()) % fr_order(),
    {
        proof {
            lemma_moduli();
        }
        Fr { limbs: mul_mod(&self.limbs, &other.limbs, &FR_MODULUS) }
    }
}

/// Addition in the base field.
pub open spec fn fq_add(a: nat, b: nat) -> nat {
    (a + b) % fq_order()
}

/// Subtraction in the base field, for canonical operands.
pub open spec fn fq_sub(a: nat, b: nat) -> nat {
    (((a + fq_order()) - b) % (fq_order() as int)) as nat
}

/// Multiplication in the base field.
pub open spec fn fq_mul(a: nat, b: nat) -> nat {
    (a * b) % fq_order()
}

/// The multiplicative inverse in the base field (zero where none
/// exists).
pub open spec fn fq_inv(a: nat) -> nat {
    mod_inverse(a, fq_order())
}

/// The value of a curve point: its two coordinates.
pub ghost struct PtV {
    pub x: nat,
    pub y: nat,
}

/// The neutral element.
pub open spec fn pt_identity() -> PtV {
    PtV { x: 0, y: 1 }
}

/// The twisted Edwards addition law:
/// `x3 = (x1 y2 + y1 x2) / (1 + d x1 x2 y1 y2)` and
/// `y3 = (y1 y2 - a x1 x2) / (1 - d x1 x2 y1 y2)`, with division as
/// multiplication by the modular inverse.
pub open spec fn te_add(p1: PtV, p2: PtV) -> PtV {
    let x1x2 = fq_mul(p1.x, p2.x);
    let y1y2 = fq_mul(p1.y, p2.y);
    let x1y2 = fq_mul(p1.x, p2.y);
    let y1x2 = fq_mul(p1.y, p2.x);
    let dxy = fq_mul(coeff_d_nat(), fq_mul(x1x2, y1y2));
    PtV {
        x: fq_mul(fq_add(x1y2, y1x2), fq_inv(fq_add(1, dxy))),
        y: fq_mul(fq_sub(y1y2, fq_mul(coeff_a_nat(), x1x2)), fq_inv(fq_sub(1, dxy))),
    }
}

/// Scalar multiplication as the binary double-and-add ladder computes
/// it: consume the scalar bit by bit from the low end, adding the
/// running base into the accumulator at every set bit.
pub open spec fn te_smul(k: nat, base: PtV, acc: PtV) -> PtV
    decreases k,
{
    if k == 0 {
        acc
    } else {
        te_smul(
            k / 2,
            te_add(base, base),
            if k % 2 == 1 {
                te_add(acc, base)
            } else {
                acc
            },
        )
    }
}

/// Whether the point satisfies the curve equation
/// `a x^2 + y^2 = 1 + d x^2 y^2`.
pub open spec fn on_curve(p: PtV) -> bool {
    fq_add(fq_mul(coeff_a_nat(), fq_mul(p.x, p.x)), fq_mul(p.y, p.y)) == fq_add(
        1,
        fq_mul(coeff_d_nat(), fq_mul(fq_mul(p.x, p.x), fq_mul(p.y, p.y))),
    )
}

/// A point in affine coordinates.
#[derive(Clone, Copy, PartialEq, Eq, Debug)]
pub struct EdwardsAffine {
    pub x: Fq,
    pub y: Fq,
}

impl View for EdwardsAffine {
    type V = PtV;

    open spec fn view(&self) -> PtV {
        PtV { x: self.x.value(), y: self.y.value() }
    }
}

/// A point of the same curve under the projective-flavoured interface:
/// the working representation of scalar multiplication.  Coordinates
/// are kept normalized, so conversion in either direction is exact.
#[derive(Clone, Copy, PartialEq, Eq, Debug)]
pub struct EdwardsProjective {
    pub x: Fq,
    pub y: Fq,
}

impl View for EdwardsProjective {
    type V = PtV;

    open spec fn view(&self) -> PtV {
        PtV { x: self.x.value(), y: self.y.value() }
    }
}

impl EdwardsProjective {
    /// Whether both coordinates are canonical.
    pub open spec fn wf(&self) -> bool {
        self.x.wf() && self.y.wf()
    }

    /// Adds two points.
    pub fn add(&self, other: &EdwardsProjective) -> (r: EdwardsProjective)
        requires
            self.wf(),
            other.wf(),
        ensures
            r.wf(),
            r@ == te_add(self@, other@),
    {
        let (x, y) = te_add_exec(&self.x.limbs, &self.y.limbs, &other.x.limbs, &other.y.limbs);
        EdwardsProjective { x: Fq { limbs: x }, y: Fq { limbs: y } }
    }

    /// Doubles a point.
    pub fn double(&self) -> (r: EdwardsProjective)
        requires
            self.wf(),
        ensures
            r.wf(),
            r@ == te_add(self@, self@),
    {
        self.add(self)
    }

    /// Whether the point is the neutral element.
    pub fn is_zero(&self) -> (r: bool)
        requires
            self.wf(),
        ensures
            r == (self@ == pt_identity()),
    {
        is_identity_limbs(&self.x.limbs, &self.y.limbs)
    }

    /// Normalizes to affine coordinates (the representation is already
    /// normalized).
    pub fn into_affine(&self) -> (r: EdwardsAffine)
        requires
            self.wf(),
        ensures
            r.wf(),
            r@ == self@,
    {
        EdwardsAffine { x: self.x, y: self.y }
    }
}

/// Computes the addition law on raw canonical coordinates.
fn te_add_exec(x1: &[u64; 4], y1: &[u64; 4], x2: &[u64; 4], y2: &[u64; 4]) -> (r: (
    [u64; 4],
    [u64; 4],
))
    requires
        val4(*x1) < fq_order(),
        val4(*y1) < fq_order(),
        val4(*x2) < fq_order(),
        val4(*y2) < fq_order(),
    ensures
        val4(r.0) < fq_order(),
        val4(r.1) < fq_order(),
        te_add(PtV { x: val4(*x1), y: val4(*y1) }, PtV { x: val4(*x2), y: val4(*y2) })
            == (PtV { x: val4(r.0), y: val4(r.1) }),
{
    proof {
        lemma_moduli();
    }
    let coeff_a = coeff_a_limbs();
    let coeff_d = coeff_d_limbs();
    let one = one4();
    let x1x2 = mul_mod(x1, x2, &FQ_MODULUS);
    let y1y2 = mul_mod(y1, y2, &FQ_MODULUS);
    let x1y2 = mul_mod(x1, y2, &FQ_MODULUS);
    let y1x2 = mul_mod(y1, x2, &FQ_MODULUS);
    let xxyy = mul_mod(&x1x2, &y1y2, &FQ_MODULUS);
    let dxy = mul_mod(&coeff_d, &xxyy, &FQ_MODULUS);
    let num_x = add_mod(&x1y2, &y1x2, &FQ_MODULUS);
    let den_x = add_mod(&one, &dxy, &FQ_MODULUS);
    let inv_x = inv_mod(&den_x, &FQ_MODULUS);
    let x3 = mul_mod(&num_x, &inv_x.0, &FQ_MODULUS);
    let axx = mul_mod(&coeff_a, &x1x2, &FQ_MODULUS);
    let num_y = sub_mod(&y1y2, &axx, &FQ_MODULUS);
    let den_y = sub_mod(&one, &dxy, &FQ_MODULUS);
    let inv_y = inv_mod(&den_y, &FQ_MODULUS);
    let y3 = mul_mod(&num_y, &inv_y.0, &FQ_MODULUS);
    (x3, y3)
}

/// The limbs of the coefficient of `x^2`.
fn coeff_a_limbs() -> (r: [u64; 4])
    ensures
        val4(r) == coeff_a_nat(),
{
    let mut r: [u64; 4] = [0u64; 4];
    r[0] = 168700;
    r
}

/// The limbs of the coefficient of `x^2 * y^2`.
fn coeff_d_limbs() -> (r: [u64; 4])
    ensures
        val4(r) == coeff_d_nat(),
{
    let mut r: [u64; 4] = [0u64; 4];
    r[0] = 168696;
    r
}

/// Whether raw coordinates are those of the neutral element.
fn is_identity_limbs(x: &[u64; 4], y: &[u64; 4]) -> (r: bool)
    ensures
        r == (val4(*x) == 0 && val4(*y) == 1),
{
    let zx = is_zero4(x);
    let oy = is_one4(y);
    zx && oy
}

/// Halves a four-limb value.
fn shr1(a: &[u64; 4]) -> (r: [u64; 4])
    ensures
        val4(r) == val4(*a) / 2,
{
    let mut r: [u64; 4] = [0u64; 4];
    r[0] = (a[0] >> 1u64) | (a[1] << 63u64);
    r[1] = (a[1] >> 1u64) | (a[2] << 63u64);
    r[2] = (a[2] >> 1u64) | (a[3] << 63u64);
    r[3] = a[3] >> 1u64;
    proof {
        lemma_shr1_limb(a[0], a[1]);
        lemma_shr1_limb(a[1], a[2]);
        lemma_shr1_limb(a[2], a[3]);
        let hi = a[3];
        assert(hi >> 1u64 == hi / 2) by (bit_vector);
        lemma_val4_half(*a, r);
    }
    r
}

/// One limb of the halved value combines the high bit of the next limb
/// with the shifted limb.
proof fn lemma_shr1_limb(lo: u64, hi: u64)
    ensures
        ((lo >> 1u64) | (hi << 63u64)) == lo / 2 + (hi % 2) * 0x8000_0000_0000_0000,
{
    assert(((lo >> 1u64) | (hi << 63u64)) == lo / 2 + (hi % 2) * 0x8000_0000_0000_0000)
        by (bit_vector);
}

/// The flat arithmetic of halving.
proof fn lemma_val4_half(a: [u64; 4], r: [u64; 4])
    requires
        r[0] == a[0] / 2 + (a[1] % 2) * 0x8000_0000_0000_0000,
        r[1] == a[1] / 2 + (a[2] % 2) * 0x8000_0000_0000_0000,
        r[2] == a[2] / 2 + (a[3] % 2) * 0x8000_0000_0000_0000,
        r[3] == a[3] / 2,
    ensures
        val4(r) == val4(a) / 2,
{
    let v = val4(a) as int;
    let h = val4(r) as int;
    assert(v == 2 * h + a[0] % 2) by (nonlinear_arith)
        requires
            v == val4(a),
            h == val4(r),
            r[0] == a[0] / 2 + (a[1] % 2) * 0x8000_0000_0000_0000,
            r[1] == a[1] / 2 + (a[2] % 2) * 0x8000_0000_0000_0000,
            r[2] == a[2] / 2 + (a[3] % 2) * 0x8000_0000_0000_0000,
            r[3] == a[3] / 2,
            a[0] == 2 * (a[0] / 2) + a[0] % 2,
            a[1] == 2 * (a[1] / 2) + a[1] % 2,
            a[2] == 2 * (a[2] / 2) + a[2] % 2,
            a[3] == 2 * (a[3] / 2) + a[3] % 2,
    ;
    lemma_fundamental_div_mod_converse_div(v, 2, h, (a[0] % 2) as int);
}

/// The parity of a value is the parity of its low limb.
proof fn lemma_val4_parity(a: [u64; 4])
    ensures
        val4(a) % 2 == a[0] % 2,
{
    let a0 = a[0] as int;
    let a1 = a[1] as int;
    let a2 = a[2] as int;
    let a3 = a[3] as int;
    let m: int = a1 * 0x8000_0000_0000_0000 + a2 * 0x8000_0000_0000_0000_0000_0000_0000_0000
        + a3 * 0x8000_0000_0000_0000_0000_0000_0000_0000_0000_0000_0000_0000;
    assert(val4(a) == a0 + a1 * 0x1_0000_0000_0000_0000
        + a2 * 0x1_0000_0000_0000_0000_0000_0000_0000_0000
        + a3 * 0x1_0000_0000_0000_0000_0000_0000_0000_0000_0000_0000_0000_0000);
    assert(a0 + a1 * 0x1_0000_0000_0000_0000 + a2 * 0x1_0000_0000_0000_0000_0000_0000_0000_0000
        + a3 * 0x1_0000_0000_0000_0000_0000_0000_0000_0000_0000_0000_0000_0000 == 2 * (m + a0
        / 2) + a0 % 2) by (nonlinear_arith)
        requires
            m == a1 * 0x8000_0000_0000_0000 + a2 * 0x8000_0000_0000_0000_0000_0000_0000_0000
                + a3 * 0x8000_0000_0000_0000_0000_0000_0000_0000_0000_0000_0000_0000,
            a0 == 2 * (a0 / 2) + a0 % 2,
    ;
    lemma_mod_multiples_vanish(m + a0 / 2, a0 % 2, 2);
    lemma_small_mod((a0 % 2) as nat, 2);
}

/// Multiplies a point by a raw 256-bit scalar with the double-and-add
/// ladder.
fn smul_limbs(base: &EdwardsProjective, k: &[u64; 4]) -> (r: EdwardsProjective)
    requires
        base.wf(),
    ensures
        r.wf(),
        r@ == te_smul(val4(*k), base@, pt_identity()),
{
    let mut acc = EdwardsProjective { x: Fq { limbs: zero4() }, y: Fq { limbs: one4() } };
    let mut cur: EdwardsProjective = *base;
    let mut scalar: [u64; 4] = *k;
    proof {
        lemma_moduli();
        assert(acc@ == pt_identity());
    }
    while !is_zero4(&scalar)
        invariant
            acc.wf(),
            cur.wf(),
            te_smul(val4(scalar), cur@, acc@) == te_smul(val4(*k), base@, pt_identity()),
        decreases val4(scalar),
    {
        let bit = scalar[0] & 1u64;
        proof {
            let lo = scalar[0];
            assert(lo & 1u64 == lo % 2) by (bit_vector);
            lemma_val4_parity(scalar);
        }
        if bit == 1 {
            acc = acc.add(&cur);
        }
        cur = cur.double();
        scalar = shr1(&scalar);
    }
    acc
}

impl EdwardsAffine {
    /// Whether both coordinates are canonical.
    pub open spec fn wf(&self) -> bool {
        self.x.wf() && self.y.wf()
    }

    /// The generator of the prime-order subgroup.
    pub fn prime_subgroup_generator() -> (g: EdwardsAffine)
        ensures
            g.wf(),
            g@ == (PtV { x: val4(GENERATOR_X), y: val4(GENERATOR_Y) }),
    {
        proof {
            lemma_moduli();
        }
        EdwardsAffine { x: Fq { limbs: GENERATOR_X }, y: Fq { limbs: GENERATOR_Y } }
    }

    /// Adds two points.
    pub fn add(&self, other: &EdwardsAffine) -> (r: EdwardsAffine)
        requires
            self.wf(),
            other.wf(),
        ensures
            r.wf(),
            r@ == te_add(self@, other@),
    {
        let (x, y) = te_add_exec(&self.x.limbs, &self.y.limbs, &other.x.limbs, &other.y.limbs);
        EdwardsAffine { x: Fq { limbs: x }, y: Fq { limbs: y } }
    }

    /// Doubles a point.
    pub fn double(&self) -> (r: EdwardsAffine)
        requires
            self.wf(),
        ensures
            r.wf(),
            r@ == te_add(self@, self@),
    {
        self.add(self)
    }

    /// Whether the point is the neutral element.
    pub fn is_zero(&self) -> (r: bool)
        requires
            self.wf(),
        ensures
            r == (self@ == pt_identity()),
    {
        is_identity_limbs(&self.x.limbs, &self.y.limbs)
    }

    /// Lifts the point to the projective-flavoured representation.
    pub fn into_projective(&self) -> (r: EdwardsProjective)
        requires
            self.wf(),
        ensures
            r.wf(),
            r@ == self@,
    {
        EdwardsProjective { x: self.x, y: self.y }
    }

    /// Whether the point satisfies the curve equation.
    pub fn is_on_curve(&self) -> (r: bool)
        requires
            self.wf(),
        ensures
            r == on_curve(self@),
    {
        proof {
            lemma_moduli();
        }
        let coeff_a = coeff_a_limbs();
        let coeff_d = coeff_d_limbs();
        let one = one4();
        let xx = mul_mod(&self.x.limbs, &self.x.limbs, &FQ_MODULUS);
        let yy = mul_mod(&self.y.limbs, &self.y.limbs, &FQ_MODULUS);
        let axx = mul_mod(&coeff_a, &xx, &FQ_MODULUS);
        let lhs = add_mod(&axx, &yy, &FQ_MODULUS);
        let xxyy = mul_mod(&xx, &yy, &FQ_MODULUS);
        let dxxyy = mul_mod(&coeff_d, &xxyy, &FQ_MODULUS);
        let rhs = add_mod(&one, &dxxyy, &FQ_MODULUS);
        let r = eq4(&lhs, &rhs);
        proof {
            if !r {
                if val4(lhs) == val4(rhs) {
                    lemma_val4_injective(lhs, rhs);
                }
            }
        }
        r
    }

    /// Whether the point, assumed on the curve, lies in the prime-order
    /// subgroup: multiplying by the subgroup order must reach the
    /// neutral element.
    pub fn is_in_correct_subgroup_assuming_on_curve(&self) -> (r: bool)
        requires
            self.wf(),
        ensures
            r == (te_smul(fr_order(), self@, pt_identity()) == pt_identity()),
    {
        proof {
            lemma_moduli();
        }
        let p = self.into_projective();
        let m = smul_limbs(&p, &FR_MODULUS);
        m.is_zero()
    }

    /// Multiplies the point by a scalar.
    pub fn mul(&self, scalar: &Fr) -> (r: EdwardsProjective)
        requires
            self.wf(),
        ensures
            r.wf(),
            r@ == te_smul(scalar.value(), self@, pt_identity()),
    {
        let p = self.into_projective();
        smul_limbs(&p, &scalar.limbs)
    }
}


/// Whether a byte is a decimal digit.
pub open spec fn is_dec_digit(b: u8) -> bool {
    48 <= b <= 57
}

/// Whether a byte string is a non-empty run of decimal digits.
pub open spec fn all_digits(s: Seq<u8>) -> bool {
    s.len() > 0 && (forall|i: int| 0 <= i < s.len() ==> is_dec_digit(s[i]))
}

/// The value of a run of decimal digits, most significant first.
pub open spec fn dec_val(s: Seq<u8>) -> nat
    decreases s.len(),
{
    if s.len() == 0 {
        0
    } else {
        (dec_val(s.drop_last()) * 10 + (s.last() - 48)) as nat
    }
}

/// Parses the decimal digits of `b` between `from` and `to`, reduced
/// modulo `m`.  Succeeds exactly when the range is a non-empty run of
/// digits.
fn parse_dec(b: &[u8], from: usize, to: usize, m: &[u64; 4]) -> (out: Option<[u64; 4]>)
    requires
        from <= to,
        to <= b@.len(),
        val4(*m) >= 2,
    ensures
        out is Some <==> all_digits(b@.subrange(from as int, to as int)),
        out matches Some(v) ==> val4(v) < val4(*m) && val4(v) == dec_val(
            b@.subrange(from as int, to as int),
        ) % val4(*m),
{
    if from == to {
        return None;
    }
    let mut acc: [u64; 4] = zero4();
    let mut ten: [u64; 4] = [0u64; 4];
    ten[0] = 10;
    let mut i: usize = from;
    proof {
        assert(b@.subrange(from as int, from as int) =~= Seq::<u8>::empty());
        vstd::arithmetic::div_mod::lemma_small_mod(0, val4(*m));
    }
    while i < to
        invariant
            from <= i <= to,
            to <= b@.len(),
            val4(*m) >= 2,
            val4(ten) == 10,
            forall|j: int| from <= j < i ==> is_dec_digit(b@[j]),
            val4(acc) < val4(*m),
            val4(acc) == dec_val(b@.subrange(from as int, i as int)) % val4(*m),
        decreases to - i,
    {
        let c: u8 = b[i];
        if c < 48 || c > 57 {
            proof {
                assert(!is_dec_digit(b@.subrange(from as int, to as int)[i - from]));
            }
            return None;
        }
        let mut dl: [u64; 4] = [0u64; 4];
        dl[0] = (c - 48) as u64;
        let shifted = mul_mod(&acc, &ten, m);
        let next = add_mod(&shifted, &dl, m);
        proof {
            let prefix = b@.subrange(from as int, i as int);
            let prefix2 = b@.subrange(from as int, i + 1);
            assert(prefix2.drop_last() =~= prefix);
            assert(prefix2.last() == b@[i as int]);
            let mv = val4(*m) as int;
            let dv = dec_val(prefix) as int;
            let d = c - 48;
            lemma_mul_mod_noop_left(dv, 10, mv);
            vstd::arithmetic::div_mod::lemma_add_mod_noop_right(d as int, dv * 10, mv);
            assert((d + (dv * 10) % mv) % mv == (d + dv * 10) % mv);
            assert(val4(next) == (dv * 10 + d) % mv);
            assert(dec_val(prefix2) == dv * 10 + d);
        }
        acc = next;
        i = i + 1;
    }
    proof {
        assert(all_digits(b@.subrange(from as int, to as int)));
    }
    Some(acc)
}

impl Fr {
    /// Parses a decimal scalar, reduced modulo the subgroup order.
    /// Succeeds exactly when the whole string is a non-empty run of
    /// decimal digits.
    pub fn from_str(s: &str) -> (out: Option<Fr>)
        ensures
            out is Some <==> all_digits(s.spec_bytes()),
            out matches Some(v) ==> v.wf() && v.value() == dec_val(s.spec_bytes())
                % fr_order(),
    {
        proof {
            lemma_moduli();
        }
        let b = s.as_bytes();
        let parsed = parse_dec(b, 0, b.len(), &FR_MODULUS);
        proof {
            assert(b@.subrange(0, b@.len() as int) =~= b@);
        }
        match parsed {
            Some(limbs) => Some(Fr { limbs }),
            None => None,
        }
    }
}

/// Whether position `i` splits the byte string into a well-formed
/// coordinate pair: an opening parenthesis, the first coordinate's
/// digits, a comma and a space, the second coordinate's digits, and a
/// closing parenthesis.
pub open spec fn point_split_at(s: Seq<u8>, i: int) -> bool {
    &&& 2 <= i
    &&& i + 2 < s.len() - 1
    &&& s[0] == 40
    &&& s[s.len() - 1] == 41
    &&& s[i] == 44
    &&& s[i + 1] == 32
    &&& all_digits(s.subrange(1, i))
    &&& all_digits(s.subrange(i + 2, s.len() - 1))
}

/// Whether the byte string is a well-formed coordinate pair.
pub open spec fn point_str_ok(s: Seq<u8>) -> bool {
    exists|i: int| point_split_at(s, i)
}

impl EdwardsAffine {
    /// Parses a point from its decimal coordinate pair
    /// `(x, y)`, each coordinate reduced modulo the field order.
    /// Succeeds exactly on well-formed pairs.
    pub fn from_str(s: &str) -> (out: Option<EdwardsAffine>)
        ensures
            out is Some <==> point_str_ok(s.spec_bytes()),
            out matches Some(p) ==> p.wf() && (forall|i: int|
                point_split_at(s.spec_bytes(), i) ==> p@.x == dec_val(
                    s.spec_bytes().subrange(1, i),
                ) % fq_order() && p@.y == dec_val(
                    s.spec_bytes().subrange(i + 2, s.spec_bytes().len() - 1),
                ) % fq_order()),
    {
        proof {
            lemma_moduli();
        }
        let b = s.as_bytes();
        let n: usize = b.len();
        let mut ix: usize = 0;
        while ix < n && b[ix] != 44
            invariant
                ix <= n,
                n == b@.len(),
                forall|j: int| 0 <= j < ix ==> b@[j] != 44,
            decreases n - ix,
        {
            ix = ix + 1;
        }
        if ix == n {
            proof {
                lemma_no_other_split(b@, n as int + 1);
            }
            return None;
        }
        // `ix` is the first comma.
        if ix < 2 || n - ix < 4 {
            proof {
                lemma_no_other_split(b@, ix as int);
            }
            return None;
        }
        if b[0] != 40 || b[n - 1] != 41 || b[ix + 1] != 32 {
            proof {
                lemma_no_other_split(b@, ix as int);
            }
            return None;
        }
        let x = match parse_dec(b, 1, ix, &FQ_MODULUS) {
            Some(x) => x,
            None => {
                proof {
                    lemma_no_other_split(b@, ix as int);
                }
                return None;
            },
        };
        let y = match parse_dec(b, ix + 2, n - 1, &FQ_MODULUS) {
            Some(y) => y,
            None => {
                proof {
                    lemma_no_other_split(b@, ix as int);
                }
                return None;
            },
        };
        let p = EdwardsAffine { x: Fq { limbs: x }, y: Fq { limbs: y } };
        proof {
            assert(point_split_at(b@, ix as int));
            lemma_no_other_split(b@, ix as int);
        }
        Some(p)
    }
}

/// Any well-formed split of a coordinate pair stands at the first
/// comma: a split elsewhere would put a comma among digits.
proof fn lemma_no_other_split(s: Seq<u8>, first_comma: int)
    requires
        forall|j: int| 0 <= j < first_comma && j < s.len() ==> s[j] != 44,
    ensures
        forall|i: int| point_split_at(s, i) ==> i >= first_comma,
        forall|i: int|
            #![trigger point_split_at(s, i)]
            point_split_at(s, i) && 1 <= first_comma < i && s[first_comma] == 44 ==> false,
{
    assert forall|i: int| point_split_at(s, i) implies i >= first_comma by {
        if i < first_comma {
            assert(s[i] == 44);
        }
    }
    assert forall|i: int|
        point_split_at(s, i) && 1 <= first_comma < i && s[first_comma] == 44 implies false by {
        let digits = s.subrange(1, i);
        assert(digits[first_comma - 1] == s[first_comma]);
        assert(is_dec_digit(s[first_comma]));
    }
}

/// The wire encoding of one coordinate: its four limbs, little-endian,
/// eight bytes each.
pub open spec fn coord_bytes(l: [u64; 4]) -> Seq<u8> {
    u64_le(l[0] as nat) + u64_le(l[1] as nat) + u64_le(l[2] as nat) + u64_le(l[3] as nat)
}

impl EdwardsAffine {
    /// Serializes the point: both coordinates, little-endian.
    pub fn to_bytes(&self) -> (v: Vec<u8>)
        ensures
            v@ == coord_bytes(self.x.limbs) + coord_bytes(self.y.limbs),
    {
        let mut v: Vec<u8> = Vec::new();
        push_u64_le(&mut v, self.x.limbs[0]);
        push_u64_le(&mut v, self.x.limbs[1]);
        push_u64_le(&mut v, self.x.limbs[2]);
        push_u64_le(&mut v, self.x.limbs[3]);
        push_u64_le(&mut v, self.y.limbs[0]);
        push_u64_le(&mut v, self.y.limbs[1]);
        push_u64_le(&mut v, self.y.limbs[2]);
        push_u64_le(&mut v, self.y.limbs[3]);
        proof {
            assert(v@ =~= coord_bytes(self.x.limbs) + coord_bytes(self.y.limbs));
        }
        v
    }

    /// Reads a point back from its serialization, insisting on
    /// canonical coordinates.  Every serialization of a well-formed
    /// point reads back as that point.
    pub fn read(v: &Vec<u8>) -> (out: Option<EdwardsAffine>)
        ensures
            out matches Some(p) ==> p.wf() && v@ == coord_bytes(p.x.limbs) + coord_bytes(
                p.y.limbs,
            ),
            forall|x: [u64; 4], y: [u64; 4]|
                (v@ == coord_bytes(x) + coord_bytes(y) && val4(x) < fq_order() && val4(y)
                    < fq_order()) ==> (out matches Some(p) && p.x.limbs == x && p.y.limbs == y),
    {
        proof {
            lemma_moduli();
            lemma_coord_bytes_len();
        }
        if v.len() != 64 {
            return None;
        }
        let w0 = read_u64_le(v, 0);
        let w1 = read_u64_le(v, 8);
        let w2 = read_u64_le(v, 16);
        let w3 = read_u64_le(v, 24);
        let w4 = read_u64_le(v, 32);
        let w5 = read_u64_le(v, 40);
        let w6 = read_u64_le(v, 48);
        let w7 = read_u64_le(v, 56);
        let mut xl: [u64; 4] = [0u64; 4];
        xl[0] = w0;
        xl[1] = w1;
        xl[2] = w2;
        xl[3] = w3;
        let mut yl: [u64; 4] = [0u64; 4];
        yl[0] = w4;
        yl[1] = w5;
        yl[2] = w6;
        yl[3] = w7;
        let x_ok = lt4(&xl, &FQ_MODULUS);
        let y_ok = lt4(&yl, &FQ_MODULUS);
        proof {
            lemma_read_coords(v@, xl, yl);
            assert forall|x: [u64; 4], y: [u64; 4]|
                v@ == coord_bytes(x) + coord_bytes(y) implies x == xl && y == yl by {
                crate::bytes::lemma_concat_split(
                    coord_bytes(x),
                    coord_bytes(y),
                    coord_bytes(xl),
                    coord_bytes(yl),
                );
                lemma_coord_bytes_injective(x, xl);
                lemma_coord_bytes_injective(y, yl);
            }
        }
        if !(x_ok && y_ok) {
            return None;
        }
        Some(EdwardsAffine { x: Fq { limbs: xl }, y: Fq { limbs: yl } })
    }
}

/// Each eight-byte chunk of a 64-byte string is the encoding of the
/// value read from it, so the whole string is the serialization of the
/// limbs read from it.
proof fn lemma_read_coords(v: Seq<u8>, xl: [u64; 4], yl: [u64; 4])
    requires
        v.len() == 64,
        xl[0] == le_value(v.subrange(0, 8)),
        xl[1] == le_value(v.subrange(8, 16)),
        xl[2] == le_value(v.subrange(16, 24)),
        xl[3] == le_value(v.subrange(24, 32)),
        yl[0] == le_value(v.subrange(32, 40)),
        yl[1] == le_value(v.subrange(40, 48)),
        yl[2] == le_value(v.subrange(48, 56)),
        yl[3] == le_value(v.subrange(56, 64)),
    ensures
        v == coord_bytes(xl) + coord_bytes(yl),
{
    lemma_coord_bytes_len();
    lemma_chunk_round_trip(v, 0, xl[0]);
    lemma_chunk_round_trip(v, 8, xl[1]);
    lemma_chunk_round_trip(v, 16, xl[2]);
    lemma_chunk_round_trip(v, 24, xl[3]);
    lemma_chunk_round_trip(v, 32, yl[0]);
    lemma_chunk_round_trip(v, 40, yl[1]);
    lemma_chunk_round_trip(v, 48, yl[2]);
    lemma_chunk_round_trip(v, 56, yl[3]);
    assert(v =~= v.subrange(0, 8) + v.subrange(8, 16) + v.subrange(16, 24) + v.subrange(24, 32)
        + v.subrange(32, 40) + v.subrange(40, 48) + v.subrange(48, 56) + v.subrange(56, 64));
    assert(v =~= coord_bytes(xl) + coord_bytes(yl));
}

/// A chunk whose value was read back encodes exactly that value.
proof fn lemma_chunk_round_trip(v: Seq<u8>, at: int, w: u64)
    requires
        0 <= at,
        at + 8 <= v.len(),
        w == le_value(v.subrange(at, at + 8)),
    ensures
        v.subrange(at, at + 8) == u64_le(w as nat),
{
    lemma_pow256_8();
    lemma_le_round_trip(w as nat, 8);
    vstd::arithmetic::div_mod::lemma_small_mod(w as nat, 0x1_0000_0000_0000_0000);
    lemma_nat_le_bytes_len(w as nat, 8);
    crate::bytes::lemma_le_value_injective(v.subrange(at, at + 8), u64_le(w as nat));
}

/// Equal coordinate encodings come from equal limbs.
proof fn lemma_coord_bytes_injective(a: [u64; 4], b: [u64; 4])
    requires
        coord_bytes(a) == coord_bytes(b),
    ensures
        a == b,
{
    lemma_pow256_8();
    lemma_nat_le_bytes_len(a[0] as nat, 8);
    lemma_nat_le_bytes_len(a[1] as nat, 8);
    lemma_nat_le_bytes_len(a[2] as nat, 8);
    lemma_nat_le_bytes_len(a[3] as nat, 8);
    lemma_nat_le_bytes_len(b[0] as nat, 8);
    lemma_nat_le_bytes_len(b[1] as nat, 8);
    lemma_nat_le_bytes_len(b[2] as nat, 8);
    lemma_nat_le_bytes_len(b[3] as nat, 8);
    assert(coord_bytes(a) =~= u64_le(a[0] as nat) + (u64_le(a[1] as nat) + u64_le(a[2] as nat)
        + u64_le(a[3] as nat)));
    assert(coord_bytes(b) =~= u64_le(b[0] as nat) + (u64_le(b[1] as nat) + u64_le(b[2] as nat)
        + u64_le(b[3] as nat)));
    crate::bytes::lemma_concat_split(
        u64_le(a[0] as nat),
        u64_le(a[1] as nat) + u64_le(a[2] as nat) + u64_le(a[3] as nat),
        u64_le(b[0] as nat),
        u64_le(b[1] as nat) + u64_le(b[2] as nat) + u64_le(b[3] as nat),
    );
    assert(u64_le(a[1] as nat) + u64_le(a[2] as nat) + u64_le(a[3] as nat)
        =~= u64_le(a[1] as nat) + (u64_le(a[2] as nat) + u64_le(a[3] as nat)));
    assert(u64_le(b[1] as nat) + u64_le(b[2] as nat) + u64_le(b[3] as nat)
        =~= u64_le(b[1] as nat) + (u64_le(b[2] as nat) + u64_le(b[3] as nat)));
    crate::bytes::lemma_concat_split(
        u64_le(a[1] as nat),
        u64_le(a[2] as nat) + u64_le(a[3] as nat),
        u64_le(b[1] as nat),
        u64_le(b[2] as nat) + u64_le(b[3] as nat),
    );
    crate::bytes::lemma_concat_split(
        u64_le(a[2] as nat),
        u64_le(a[3] as nat),
        u64_le(b[2] as nat),
        u64_le(b[3] as nat),
    );
    crate::bytes::lemma_le_bytes_injective(a[0] as nat, b[0] as nat, 8);
    crate::bytes::lemma_le_bytes_injective(a[1] as nat, b[1] as nat, 8);
    crate::bytes::lemma_le_bytes_injective(a[2] as nat, b[2] as nat, 8);
    crate::bytes::lemma_le_bytes_injective(a[3] as nat, b[3] as nat, 8);
    assert(a =~= b);
}

/// Coordinate encodings are 32 bytes wide.
proof fn lemma_coord_bytes_len()
    ensures
        forall|l: [u64; 4]| (#[trigger] coord_bytes(l)).len() == 32,
{
    assert forall|l: [u64; 4]| (#[trigger] coord_bytes(l)).len() == 32 by {
        lemma_nat_le_bytes_len(l[0] as nat, 8);
        lemma_nat_le_bytes_len(l[1] as nat, 8);
        lemma_nat_le_bytes_len(l[2] as nat, 8);
        lemma_nat_le_bytes_len(l[3] as nat, 8);
    }
}

/// The parameters of the curve: its coefficients, the generator of the
/// prime-order subgroup, and the orders of base and scalar field.
pub struct Parameters {
    _private: (),
}

impl Parameters {
    /// The coefficient of `x^2`.
    pub fn coeff_a() -> (r: Fq)
        ensures
            r.wf(),
            r.value() == coeff_a_nat(),
    {
        proof {
            lemma_moduli();
        }
        Fq { limbs: coeff_a_limbs() }
    }

    /// The coefficient of `x^2 * y^2`.
    pub fn coeff_d() -> (r: Fq)
        ensures
            r.wf(),
            r.value() == coeff_d_nat(),
    {
        proof {
            lemma_moduli();
        }
        Fq { limbs: coeff_d_limbs() }
    }

    /// The generator of the prime-order subgroup.
    pub fn generator() -> (g: EdwardsAffine)
        ensures
            g.wf(),
            g@ == (PtV { x: val4(GENERATOR_X), y: val4(GENERATOR_Y) }),
    {
        EdwardsAffine::prime_subgroup_generator()
    }
}

} // verus!
