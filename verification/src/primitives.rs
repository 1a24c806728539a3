//! The primitive operations of the scheme: commitment, collision-resistant
//! hash, pseudorandom function, randomizable signature and proof system.
//!
//! The transaction pipeline consumes these only through the contracts
//! below, which pin every output down as a function of the inputs.  The
//! implementations are transparent reference constructions over the
//! canonical byte encoding: a commitment is a tagged encoding of its
//! opening (which makes it perfectly binding, and lets binding laws be
//! proved outright), hashes and pseudorandom values are byte folds, a
//! proof is a digest of the statement it attests, and a signature carries
//! a digest that binds signer and message.  None of them offers
//! cryptographic hiding; what the library proves is the orchestration
//! that the scheme builds on top of them.

use vstd::prelude::*;
use crate::bytes::push_block;
use crate::bytes::push_bytes;
use crate::bytes::block_eq;
use crate::bytes::lemma_concat_split;

verus! {

/// One step of the byte fold: byte `b`, arriving at position `i`, is
/// absorbed into the 32-byte state.
pub open spec fn mix_step(st: Seq<u8>, i: int, b: u8) -> Seq<u8> {
    st.update(i % 32, ((st[i % 32] * 33 + b) % 256) as u8)
}

/// The byte fold of `data` into the state `st`, starting at position `i`.
pub open spec fn mix_fold(st: Seq<u8>, data: Seq<u8>, i: int) -> Seq<u8>
    decreases data.len(),
{
    if data.len() == 0 {
        st
    } else {
        mix_fold(mix_step(st, i, data[0]), data.skip(1), i + 1)
    }
}

/// The 32-byte digest of `data` under the initial state `init`.
pub open spec fn mix(init: Seq<u8>, data: Seq<u8>) -> Seq<u8> {
    mix_fold(init, data, 0)
}

/// Computes the digest `mix(init@, data@)`.
pub fn mix32(init: &[u8; 32], data: &Vec<u8>) -> (digest: [u8; 32])
    ensures
        digest@ == mix(init@, data@),
{
    let mut st: [u8; 32] = *init;
    let mut i: usize = 0;
    proof {
        assert(data@.skip(0) =~= data@);
    }
    while i < data.len()
        invariant
            i <= data@.len(),
            st@.len() == 32,
            mix_fold(st@, data@.skip(i as int), i as int) == mix(init@, data@),
        decreases data@.len() - i,
    {
        let j: usize = i % 32;
        let v: u32 = st[j] as u32 * 33 + data[i] as u32;
        proof {
            let rest = data@.skip(i as int);
            assert(rest[0] == data@[i as int]);
            assert(rest.skip(1) =~= data@.skip(i + 1));
            assert(mix_step(st@, i as int, data@[i as int])
                =~= st@.update(j as int, ((st@[j as int] * 33 + data@[i as int]) % 256) as u8));
        }
        st[j] = (v % 256) as u8;
        i = i + 1;
    }
    proof {
        assert(data@.skip(data@.len() as int) =~= Seq::<u8>::empty());
    }
    st
}

/// Public parameters of one commitment scheme instance: a sampled
/// 32-byte domain tag.
#[derive(Clone, Copy)]
pub struct CommitmentParameters {
    pub tag: [u8; 32],
}

/// Public parameters of the serial-number-nonce hash.
#[derive(Clone, Copy)]
pub struct CrhParameters {
    pub tag: [u8; 32],
}

/// Public parameters of the signature scheme.
#[derive(Clone, Copy)]
pub struct SignatureParameters {
    pub tag: [u8; 32],
}

/// The commitment to `input` under randomness `r` and parameters `pp`:
/// the tag, the randomness and the input in fixed order.  It is binding
/// by construction: the opening can be read back off the commitment.
pub open spec fn commit_spec(pp: Seq<u8>, input: Seq<u8>, r: Seq<u8>) -> Seq<u8> {
    pp + r + input
}

/// Commits to `input` under randomness `r`.
pub fn commit(pp: &CommitmentParameters, input: &Vec<u8>, r: &[u8; 32]) -> (c: Vec<u8>)
    ensures
        c@ == commit_spec(pp.tag@, input@, r@),
{
    let mut c: Vec<u8> = Vec::new();
    push_block(&mut c, &pp.tag);
    push_block(&mut c, r);
    push_bytes(&mut c, input);
    proof {
        assert(c@ =~= commit_spec(pp.tag@, input@, r@));
    }
    c
}

/// Commitments are binding: equal commitments under tags and randomness
/// of the fixed width open to the same parameters, randomness and input.
pub proof fn lemma_commit_binding(
    pp1: Seq<u8>,
    i1: Seq<u8>,
    r1: Seq<u8>,
    pp2: Seq<u8>,
    i2: Seq<u8>,
    r2: Seq<u8>,
)
    requires
        commit_spec(pp1, i1, r1) == commit_spec(pp2, i2, r2),
        pp1.len() == pp2.len(),
        r1.len() == r2.len(),
    ensures
        pp1 == pp2,
        r1 == r2,
        i1 == i2,
{
    lemma_concat_split(pp1 + r1, i1, pp2 + r2, i2);
    lemma_concat_split(pp1, r1, pp2, r2);
}

/// The pseudorandom function: a byte fold of the input, keyed by the
/// 32-byte seed.  It is a deterministic function of seed and input.
pub open spec fn prf_spec(seed: Seq<u8>, input: Seq<u8>) -> Seq<u8> {
    mix(seed, input)
}

/// Evaluates the pseudorandom function.
pub fn prf_eval(seed: &[u8; 32], input: &Vec<u8>) -> (out: [u8; 32])
    ensures
        out@ == prf_spec(seed@, input@),
{
    mix32(seed, input)
}

/// The serial-number-nonce hash: a byte fold keyed by the parameter tag.
pub open spec fn crh_spec(pp: Seq<u8>, input: Seq<u8>) -> Seq<u8> {
    mix(pp, input)
}

/// Evaluates the fixed-input-length hash.
pub fn crh_eval(pp: &CrhParameters, input: &Vec<u8>) -> (out: [u8; 32])
    ensures
        out@ == crh_spec(pp.tag@, input@),
{
    mix32(&pp.tag, input)
}

/// A signing secret key.
#[derive(Clone, Copy)]
pub struct SignatureSecretKey {
    pub seed: [u8; 32],
}

/// The mathematical value of a (possibly randomized) signing public
/// key.
pub ghost struct SigPkV {
    pub base: Seq<u8>,
    pub randomizer: Seq<u8>,
}

/// The mathematical value of a signature.
pub ghost struct SigV {
    pub base: Seq<u8>,
    pub randomizer: Seq<u8>,
    pub tag: Seq<u8>,
}

/// A signing public key, together with the randomizer applied to it.  A
/// freshly generated key carries the all-zero randomizer; randomizing it
/// replaces the randomizer.  A randomized public key is the scheme's
/// serial number.
#[derive(Clone, Copy)]
pub struct SignaturePublicKey {
    pub base: [u8; 32],
    pub randomizer: [u8; 32],
}

impl View for SignaturePublicKey {
    type V = SigPkV;

    open spec fn view(&self) -> SigPkV {
        SigPkV { base: self.base@, randomizer: self.randomizer@ }
    }
}

/// A signature: the signer's public base, the randomizer applied to the
/// signature, and a digest binding the base to the signed message.
#[derive(Clone, Copy)]
pub struct Signature {
    pub base: [u8; 32],
    pub randomizer: [u8; 32],
    pub tag: [u8; 32],
}

impl View for Signature {
    type V = SigV;

    open spec fn view(&self) -> SigV {
        SigV { base: self.base@, randomizer: self.randomizer@, tag: self.tag@ }
    }
}

/// The all-zero 32-byte block: the randomizer of a fresh key.
pub open spec fn zero_block_spec() -> Seq<u8> {
    Seq::new(32, |i: int| 0u8)
}

/// Builds the all-zero block.
pub fn zero_block() -> (z: [u8; 32])
    ensures
        z@ == zero_block_spec(),
{
    let z: [u8; 32] = [0u8; 32];
    proof {
        assert(z@ =~= zero_block_spec());
    }
    z
}

/// The public base of the key generated from `seed`.
pub open spec fn sig_base_spec(pp: Seq<u8>, seed: Seq<u8>) -> Seq<u8> {
    mix(pp, seed)
}

/// The digest a signature on `msg` by the key with base `base` carries.
pub open spec fn sig_tag_spec(base: Seq<u8>, msg: Seq<u8>) -> Seq<u8> {
    mix(base, msg)
}

/// Generates a signing key pair from the sampled `seed`.
pub fn sig_keygen(pp: &SignatureParameters, seed: &[u8; 32]) -> (kp: (
    SignaturePublicKey,
    SignatureSecretKey,
))
    ensures
        kp.0.base@ == sig_base_spec(pp.tag@, seed@),
        kp.0.randomizer@ == zero_block_spec(),
        kp.1.seed@ == seed@,
{
    let seed_bytes: Vec<u8> = slice_to_vec(seed);
    let base = mix32(&pp.tag, &seed_bytes);
    (
        SignaturePublicKey { base, randomizer: zero_block() },
        SignatureSecretKey { seed: *seed },
    )
}

/// Copies a 32-byte block into a byte string.
pub fn slice_to_vec(a: &[u8; 32]) -> (v: Vec<u8>)
    ensures
        v@ == a@,
{
    let mut v: Vec<u8> = Vec::new();
    push_block(&mut v, a);
    proof {
        assert(v@ =~= a@);
    }
    v
}

/// Signs `msg` with the secret key generated from `sk`.
pub fn sig_sign(pp: &SignatureParameters, sk: &SignatureSecretKey, msg: &Vec<u8>) -> (sig:
    Signature)
    ensures
        sig.base@ == sig_base_spec(pp.tag@, sk.seed@),
        sig.randomizer@ == zero_block_spec(),
        sig.tag@ == sig_tag_spec(sig_base_spec(pp.tag@, sk.seed@), msg@),
{
    let seed_bytes: Vec<u8> = slice_to_vec(&sk.seed);
    let base = mix32(&pp.tag, &seed_bytes);
    let tag = mix32(&base, msg);
    Signature { base, randomizer: zero_block(), tag }
}

/// Randomizes a public key: the serial-number derivation.
pub fn sig_randomize_public_key(pk: &SignaturePublicKey, r: &[u8; 32]) -> (rpk:
    SignaturePublicKey)
    ensures
        rpk.base@ == pk.base@,
        rpk.randomizer@ == r@,
{
    SignaturePublicKey { base: pk.base, randomizer: *r }
}

/// Randomizes a signature with the randomizer that was applied to the
/// public key it must verify under.
pub fn sig_randomize_signature(sig: &Signature, r: &[u8; 32]) -> (rsig: Signature)
    ensures
        rsig.base@ == sig.base@,
        rsig.randomizer@ == r@,
        rsig.tag@ == sig.tag@,
{
    Signature { base: sig.base, randomizer: *r, tag: sig.tag }
}

/// Whether `sig` is a valid signature on `msg` under the (possibly
/// randomized) public key `pk`: base and randomizer must match the key,
/// and the digest must bind the base to the message.
pub open spec fn sig_verify_spec(pk: SignaturePublicKey, msg: Seq<u8>, sig: Signature) -> bool {
    &&& sig.base@ == pk.base@
    &&& sig.randomizer@ == pk.randomizer@
    &&& sig.tag@ == sig_tag_spec(sig.base@, msg)
}

/// Checks a signature.
pub fn sig_verify(pk: &SignaturePublicKey, msg: &Vec<u8>, sig: &Signature) -> (ok: bool)
    ensures
        ok == sig_verify_spec(*pk, msg@, *sig),
{
    let expected = mix32(&sig.base, msg);
    let base_ok = block_eq(&sig.base, &pk.base);
    let rand_ok = block_eq(&sig.randomizer, &pk.randomizer);
    let tag_ok = block_eq(&sig.tag, &expected);
    base_ok && rand_ok && tag_ok
}

/// A proving key of the proof system.
#[derive(Clone, Copy)]
pub struct NizkProvingKey {
    pub tag: [u8; 32],
}

/// A verifying key of the proof system.
#[derive(Clone, Copy)]
pub struct NizkVerifyingKey {
    pub tag: [u8; 32],
}

/// Samples a proving/verifying key pair from the setup entropy.  The two
/// keys carry the same tag: a proof made under the proving key verifies
/// under the matching verifying key and no other.
pub fn nizk_setup(entropy: &[u8; 32]) -> (keys: (NizkProvingKey, NizkVerifyingKey))
    ensures
        keys.0.tag@ == entropy@,
        keys.1.tag@ == entropy@,
{
    (NizkProvingKey { tag: *entropy }, NizkVerifyingKey { tag: *entropy })
}

/// The proof produced for a statement: the digest of the statement under
/// the key tag.  A proof therefore attests exactly one statement, and
/// changing any bit of a proof makes it fail verification.
pub open spec fn nizk_proof_spec(tag: Seq<u8>, statement: Seq<u8>) -> Seq<u8> {
    mix(tag, statement)
}

/// Proves a statement.
pub fn nizk_prove(pk: &NizkProvingKey, statement: &Vec<u8>) -> (proof_bytes: [u8; 32])
    ensures
        proof_bytes@ == nizk_proof_spec(pk.tag@, statement@),
{
    mix32(&pk.tag, statement)
}

/// Checks a proof against a statement.
pub fn nizk_verify(vk: &NizkVerifyingKey, statement: &Vec<u8>, proof_bytes: &[u8; 32]) -> (ok:
    bool)
    ensures
        ok == (proof_bytes@ == nizk_proof_spec(vk.tag@, statement@)),
{
    let expected = mix32(&vk.tag, statement);
    block_eq(proof_bytes, &expected)
}

} // verus!
