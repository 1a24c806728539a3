//! The canonical byte encoding.
//!
//! Every commitment, hash, proof and signature in the scheme is computed
//! over one deterministic, fixed-order byte encoding.  Fixed-width
//! components are written as-is; variable-width components are written
//! behind a little-endian 8-byte length so that the encoding can be
//! decoded again and so that distinct field lists never collide.

use vstd::prelude::*;
use vstd::arithmetic::power::pow;
use vstd::arithmetic::power::lemma_pow_positive;
use vstd::arithmetic::power::lemma_pow_adds;
use vstd::arithmetic::power::lemma_pow1;
use vstd::arithmetic::power::lemma_pow0;
use vstd::arithmetic::div_mod::lemma_div_denominator;
use vstd::arithmetic::div_mod::lemma_small_mod;

verus! {

/// The little-endian bytes of `n`, `k` bytes wide (the value is taken
/// modulo `256^k`).
pub open spec fn nat_le_bytes(n: nat, k: nat) -> Seq<u8>
    decreases k,
{
    if k == 0 {
        Seq::<u8>::empty()
    } else {
        seq![(n % 256) as u8] + nat_le_bytes(n / 256, (k - 1) as nat)
    }
}

/// The value of a little-endian byte string.
pub open spec fn le_value(s: Seq<u8>) -> nat
    decreases s.len(),
{
    if s.len() == 0 {
        0
    } else {
        (s[0] + 256 * le_value(s.skip(1))) as nat
    }
}

/// The 8-byte little-endian encoding of a 64-bit length.
pub open spec fn u64_le(n: nat) -> Seq<u8> {
    nat_le_bytes(n, 8)
}

pub proof fn lemma_nat_le_bytes_len(n: nat, k: nat)
    ensures
        nat_le_bytes(n, k).len() == k,
    decreases k,
{
    if k > 0 {
        lemma_nat_le_bytes_len(n / 256, (k - 1) as nat);
    }
}

/// The value of a byte string is below `256` to the power of its length.
pub proof fn lemma_le_value_bound(s: Seq<u8>)
    ensures
        le_value(s) < pow(256, s.len()),
    decreases s.len(),
{
    lemma_pow_positive(256, s.len());
    if s.len() == 0 {
    } else {
        lemma_le_value_bound(s.skip(1));
        lemma_pow_adds(256, (s.len() - 1) as nat, 1);
        lemma_pow1(256);
        assert(le_value(s) == s[0] + 256 * le_value(s.skip(1)));
        assert(256 * le_value(s.skip(1)) <= 256 * (pow(256, (s.len() - 1) as nat) - 1))
            by (nonlinear_arith)
            requires
                le_value(s.skip(1)) <= pow(256, (s.len() - 1) as nat) - 1,
        ;
    }
}

/// Decoding inverts encoding: the value of the `k`-byte encoding of `n`
/// is `n` modulo `256^k`.
pub proof fn lemma_le_round_trip(n: nat, k: nat)
    ensures
        le_value(nat_le_bytes(n, k)) == n % (pow(256, k) as nat),
    decreases k,
{
    lemma_pow_positive(256, k);
    if k == 0 {
        lemma_pow0(256);
        assert(n % 1 == 0) by (nonlinear_arith);
    } else {
        let s = nat_le_bytes(n, k);
        let tail = nat_le_bytes(n / 256, (k - 1) as nat);
        assert(s.skip(1) =~= tail);
        lemma_le_round_trip(n / 256, (k - 1) as nat);
        let pk1 = pow(256, (k - 1) as nat) as nat;
        lemma_pow_positive(256, (k - 1) as nat);
        assert(pow(256, k) == 256 * pow(256, (k - 1) as nat)) by {
            lemma_pow_adds(256, 1, (k - 1) as nat);
            lemma_pow1(256);
        }
        vstd::arithmetic::div_mod::lemma_mod_breakdown(n as int, 256, pk1 as int);
        assert(le_value(s) == n % 256 + 256 * ((n / 256) % pk1));
    }
}

/// Two byte strings of one length with the same value are equal.
pub proof fn lemma_le_value_injective(s1: Seq<u8>, s2: Seq<u8>)
    requires
        s1.len() == s2.len(),
        le_value(s1) == le_value(s2),
    ensures
        s1 == s2,
    decreases s1.len(),
{
    if s1.len() > 0 {
        lemma_le_head(s1);
        lemma_le_head(s2);
        lemma_le_value_injective(s1.skip(1), s2.skip(1));
        assert(s1 =~= seq![s1[0]] + s1.skip(1));
        assert(s2 =~= seq![s2[0]] + s2.skip(1));
    } else {
        assert(s1 =~= s2);
    }
}

/// The first byte and the rest of a value's byte string are its low
/// byte and its quotient by 256.
proof fn lemma_le_head(s: Seq<u8>)
    requires
        s.len() > 0,
    ensures
        s[0] == le_value(s) % 256,
        le_value(s.skip(1)) == le_value(s) / 256,
{
    vstd::arithmetic::div_mod::lemma_mod_multiples_vanish(
        le_value(s.skip(1)) as int,
        s[0] as int,
        256,
    );
    lemma_small_mod(s[0] as nat, 256);
    assert(le_value(s) == 256 * le_value(s.skip(1)) + s[0]);
    vstd::arithmetic::div_mod::lemma_fundamental_div_mod_converse_div(
        le_value(s) as int,
        256,
        le_value(s.skip(1)) as int,
        s[0] as int,
    );
}

/// Two values below `256^k` with the same `k`-byte encoding are equal.
pub proof fn lemma_le_bytes_injective(a: nat, b: nat, k: nat)
    requires
        a < pow(256, k),
        b < pow(256, k),
        nat_le_bytes(a, k) == nat_le_bytes(b, k),
    ensures
        a == b,
{
    lemma_le_round_trip(a, k);
    lemma_le_round_trip(b, k);
    lemma_pow_positive(256, k);
    lemma_small_mod(a, pow(256, k) as nat);
    lemma_small_mod(b, pow(256, k) as nat);
}

/// `nat_le_bytes(n, k + 1)` is `nat_le_bytes(n, k)` followed by the next
/// byte, `(n / 256^k) % 256`.
proof fn lemma_le_split(n: nat, k: nat)
    ensures
        nat_le_bytes(n, (k + 1) as nat)
            =~= nat_le_bytes(n, k)
                + seq![((n as int / pow(256, k)) % 256) as u8],
    decreases k,
{
    lemma_pow_positive(256, k);
    if k == 0 {
        lemma_pow0(256);
        lemma_nat_le_bytes_len(n / 256, 0);
        assert(n as int / 1 == n as int);
        assert(nat_le_bytes(n, 1)
            =~= nat_le_bytes(n, 0) + seq![((n as int / pow(256, 0)) % 256) as u8]);
    } else {
        lemma_le_split(n / 256, (k - 1) as nat);
        lemma_nat_le_bytes_len(n / 256, (k - 1) as nat);
        lemma_nat_le_bytes_len(n / 256, k);
        lemma_pow_positive(256, (k - 1) as nat);
        lemma_div_denominator(n as int, 256, pow(256, (k - 1) as nat));
        assert(pow(256, k) == 256 * pow(256, (k - 1) as nat)) by {
            lemma_pow_adds(256, 1, (k - 1) as nat);
            lemma_pow1(256);
        }
        assert((n as int / 256) / pow(256, (k - 1) as nat) == n as int / pow(256, k));
        assert(nat_le_bytes(n, (k + 1) as nat)
            =~= seq![((n % 256) as u8)] + nat_le_bytes(n / 256, k));
        assert(nat_le_bytes(n / 256, k)
            =~= nat_le_bytes(n / 256, (k - 1) as nat)
                + seq![((n as int / pow(256, k)) % 256) as u8]);
        assert(nat_le_bytes(n, k)
            =~= seq![((n % 256) as u8)] + nat_le_bytes(n / 256, (k - 1) as nat));
    }
}

/// `256^8` is the number of 8-byte values.
pub proof fn lemma_pow256_8()
    ensures
        pow(256, 8) == 0x1_0000_0000_0000_0000,
{
    reveal_with_fuel(pow, 9);
    assert(pow(256, 8) == 0x1_0000_0000_0000_0000);
}

/// Appends the 8-byte little-endian encoding of `n`.
pub fn push_u64_le(out: &mut Vec<u8>, n: u64)
    ensures
        final(out)@ == old(out)@ + u64_le(n as nat),
{
    let mut m: u64 = n;
    let ghost n0: nat = n as nat;
    let mut i: usize = 0;
    proof {
        lemma_pow0(256);
        assert(n0 as int / 1 == n0 as int);
        assert(nat_le_bytes(n0, 0) =~= Seq::<u8>::empty());
        assert(out@ =~= out@ + nat_le_bytes(n0, 0));
    }
    while i < 8
        invariant
            i <= 8,
            m == n0 as int / pow(256, i as nat),
            out@ == old(out)@ + nat_le_bytes(n0, i as nat),
        decreases 8 - i,
    {
        proof {
            lemma_le_split(n0, i as nat);
            lemma_pow_positive(256, i as nat);
        }
        out.push((m % 256) as u8);
        proof {
            let p: int = pow(256, i as nat);
            lemma_div_denominator(n0 as int, p, 256);
            assert(pow(256, (i + 1) as nat) == pow(256, i as nat) * 256) by {
                lemma_pow_adds(256, i as nat, 1);
                lemma_pow1(256);
            }
        }
        m = m / 256;
        i = i + 1;
    }
    proof {
        assert(nat_le_bytes(n0, 8) =~= u64_le(n as nat));
    }
}

/// Reads a little-endian 8-byte length back as a value.
pub fn read_u64_le(s: &Vec<u8>, at: usize) -> (n: u64)
    requires
        at + 8 <= s@.len(),
    ensures
        n == le_value(s@.subrange(at as int, at + 8)),
{
    let mut acc: u64 = 0;
    let mut i: usize = 8;
    let slen: usize = s.len();
    proof {
        lemma_pow0(256);
        assert(s@.subrange(at + 8, at + 8) =~= Seq::<u8>::empty());
    }
    while i > 0
        invariant
            i <= 8,
            at + 8 <= s@.len(),
            s@.len() <= usize::MAX,
            acc == le_value(s@.subrange(at + i, at + 8)),
            acc < pow(256, (8 - i) as nat),
        decreases i,
    {
        i = i - 1;
        let b: u8 = s[at + i];
        proof {
            let tail = s@.subrange(at + i + 1, at + 8);
            let whole = s@.subrange(at + i, at + 8);
            assert(whole[0] == b);
            assert(whole.skip(1) =~= tail);
            lemma_pow_adds(256, (7 - i) as nat, 1);
            lemma_pow1(256);
            lemma_pow_positive(256, (7 - i) as nat);
            assert(256 * acc + b < 256 * pow(256, (7 - i) as nat))
                by (nonlinear_arith)
                requires
                    acc < pow(256, (7 - i) as nat),
                    b < 256,
                    pow(256, (7 - i) as nat) >= 1,
            ;
            vstd::arithmetic::power::lemma_pow_increases(256, (8 - i) as nat, 8);
            lemma_pow256_8();
        }
        acc = b as u64 + 256 * acc;
    }
    proof {
        assert(s@.subrange(at as int, at + 8) =~= s@.subrange(at + 0, at + 8));
    }
    acc
}

/// An eight-byte string is the encoding of its own value.
pub proof fn lemma_le_chunk(s: Seq<u8>)
    requires
        s.len() == 8,
    ensures
        u64_le(le_value(s)) == s,
{
    lemma_pow256_8();
    lemma_le_value_bound(s);
    lemma_le_round_trip(le_value(s), 8);
    lemma_small_mod(le_value(s), 0x1_0000_0000_0000_0000);
    lemma_nat_le_bytes_len(le_value(s), 8);
    lemma_le_value_injective(s, u64_le(le_value(s)));
}

/// Reads a fixed 32-byte block.
pub fn read_block(s: &Vec<u8>, at: usize) -> (r: [u8; 32])
    requires
        at + 32 <= s@.len(),
    ensures
        r@ == s@.subrange(at as int, at + 32),
{
    let mut r: [u8; 32] = [0u8; 32];
    let slen: usize = s.len();
    let mut i: usize = 0;
    while i < 32
        invariant
            i <= 32,
            at + 32 <= s@.len(),
            s@.len() <= usize::MAX,
            forall|j: int| 0 <= j < i ==> r@[j] == s@[at + j],
        decreases 32 - i,
    {
        r[i] = s[at + i];
        i = i + 1;
    }
    proof {
        assert(r@ =~= s@.subrange(at as int, at + 32));
    }
    r
}

/// Reads `n` bytes.
pub fn read_bytes(s: &Vec<u8>, at: usize, n: usize) -> (r: Vec<u8>)
    requires
        at + n <= s@.len(),
    ensures
        r@ == s@.subrange(at as int, at + n),
{
    let mut r: Vec<u8> = Vec::new();
    let slen: usize = s.len();
    let mut i: usize = 0;
    while i < n
        invariant
            i <= n,
            at + n <= s@.len(),
            s@.len() <= usize::MAX,
            r@.len() == i,
            forall|j: int| 0 <= j < i ==> r@[j] == s@[at + j],
        decreases n - i,
    {
        r.push(s[at + i]);
        i = i + 1;
    }
    proof {
        assert(r@ =~= s@.subrange(at as int, at + n));
    }
    r
}

/// Appends a fixed 32-byte block.
pub fn push_block(out: &mut Vec<u8>, a: &[u8; 32])
    ensures
        final(out)@ == old(out)@ + a@,
{
    let mut i: usize = 0;
    proof {
        assert(out@ =~= out@ + a@.take(0));
    }
    while i < 32
        invariant
            i <= 32,
            out@ == old(out)@ + a@.take(i as int),
        decreases 32 - i,
    {
        out.push(a[i]);
        proof {
            assert(a@.take(i + 1) =~= a@.take(i as int) + seq![a@[i as int]]);
            assert(out@ =~= old(out)@ + a@.take(i + 1));
        }
        i = i + 1;
    }
    proof {
        assert(a@.take(32) =~= a@);
    }
}

/// Appends a variable-width byte string as-is.
pub fn push_bytes(out: &mut Vec<u8>, v: &Vec<u8>)
    ensures
        final(out)@ == old(out)@ + v@,
{
    let mut i: usize = 0;
    proof {
        assert(out@ =~= out@ + v@.take(0));
    }
    while i < v.len()
        invariant
            i <= v@.len(),
            out@ == old(out)@ + v@.take(i as int),
        decreases v@.len() - i,
    {
        out.push(v[i]);
        proof {
            assert(v@.take(i + 1) =~= v@.take(i as int) + seq![v@[i as int]]);
            assert(out@ =~= old(out)@ + v@.take(i + 1));
        }
        i = i + 1;
    }
    proof {
        assert(v@.take(v@.len() as int) =~= v@);
    }
}

/// The encoding of a variable-width byte string: its length, then its
/// bytes.
pub open spec fn enc_bytes(s: Seq<u8>) -> Seq<u8> {
    u64_le(s.len()) + s
}

/// Appends a variable-width byte string behind its length.
pub fn push_len_prefixed(out: &mut Vec<u8>, v: &Vec<u8>)
    ensures
        final(out)@ == old(out)@ + enc_bytes(v@),
{
    push_u64_le(out, v.len() as u64);
    push_bytes(out, v);
    proof {
        assert(out@ =~= old(out)@ + enc_bytes(v@));
    }
}

/// Copies a byte string.
pub fn copy_bytes(v: &Vec<u8>) -> (out: Vec<u8>)
    ensures
        out@ == v@,
{
    let mut out: Vec<u8> = Vec::new();
    push_bytes(&mut out, v);
    proof {
        assert(out@ =~= v@);
    }
    out
}

/// Whether two 32-byte blocks hold the same bytes.
pub fn block_eq(a: &[u8; 32], b: &[u8; 32]) -> (r: bool)
    ensures
        r == (a@ == b@),
{
    let mut i: usize = 0;
    while i < 32
        invariant
            i <= 32,
            forall|j: int| 0 <= j < i ==> a@[j] == b@[j],
        decreases 32 - i,
    {
        if a[i] != b[i] {
            return false;
        }
        i = i + 1;
    }
    proof {
        assert(a@ =~= b@);
    }
    true
}

/// Whether two byte strings hold the same bytes.
pub fn bytes_eq(a: &Vec<u8>, b: &Vec<u8>) -> (r: bool)
    ensures
        r == (a@ == b@),
{
    if a.len() != b.len() {
        return false;
    }
    let mut i: usize = 0;
    while i < a.len()
        invariant
            i <= a@.len(),
            a@.len() == b@.len(),
            forall|j: int| 0 <= j < i ==> a@[j] == b@[j],
        decreases a@.len() - i,
    {
        if a[i] != b[i] {
            return false;
        }
        i = i + 1;
    }
    proof {
        assert(a@ =~= b@);
    }
    true
}

/// Splitting a concatenation at the length of its first part recovers
/// both parts.
pub proof fn lemma_concat_split(a: Seq<u8>, b: Seq<u8>, c: Seq<u8>, d: Seq<u8>)
    requires
        a + b == c + d,
        a.len() == c.len(),
    ensures
        a == c,
        b == d,
{
    assert(a =~= (a + b).take(a.len() as int));
    assert(c =~= (c + d).take(c.len() as int));
    assert(b =~= (a + b).skip(a.len() as int));
    assert(d =~= (c + d).skip(c.len() as int));
}

} // verus!
