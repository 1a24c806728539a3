//! Address key pairs.
//!
//! An address public key is a commitment over the owner's signing public
//! key, pseudorandom-function seed and metadata; the secret key keeps
//! those components together with the commitment randomness, so the
//! public key is always recomputable from the secret key.

use vstd::prelude::*;
use crate::primitives::CommitmentParameters;
use crate::primitives::SignaturePublicKey;
use crate::primitives::SignatureSecretKey;
use crate::primitives::commit_spec;
use crate::primitives::sig_base_spec;
use crate::primitives::zero_block_spec;
use crate::primitives::sig_keygen;
use crate::primitives::commit;
use crate::bytes::push_block;

verus! {

/// An address public key: the commitment over the secret key's
/// components.
pub struct AddressPublicKey {
    pub public_key: Vec<u8>,
}

impl View for AddressPublicKey {
    type V = Seq<u8>;

    open spec fn view(&self) -> Seq<u8> {
        self.public_key@
    }
}

/// The mathematical value of an address secret key.
pub ghost struct AddressSecretKeyV {
    pub pk_sig_base: Seq<u8>,
    pub pk_sig_randomizer: Seq<u8>,
    pub sk_sig_seed: Seq<u8>,
    pub sk_prf: Seq<u8>,
    pub metadata: Seq<u8>,
    pub r_pk: Seq<u8>,
}

/// An address secret key: the signing key pair, the seed of the
/// pseudorandom function, the metadata, and the randomness that opens
/// the address public key.
#[derive(Clone, Copy)]
pub struct AddressSecretKey {
    pub pk_sig: SignaturePublicKey,
    pub sk_sig: SignatureSecretKey,
    pub sk_prf: [u8; 32],
    pub metadata: [u8; 32],
    pub r_pk: [u8; 32],
}

impl View for AddressSecretKey {
    type V = AddressSecretKeyV;

    open spec fn view(&self) -> AddressSecretKeyV {
        AddressSecretKeyV {
            pk_sig_base: self.pk_sig.base@,
            pk_sig_randomizer: self.pk_sig.randomizer@,
            sk_sig_seed: self.sk_sig.seed@,
            sk_prf: self.sk_prf@,
            metadata: self.metadata@,
            r_pk: self.r_pk@,
        }
    }
}

/// An address key pair.
pub struct AddressPair {
    pub public_key: AddressPublicKey,
    pub secret_key: AddressSecretKey,
}

/// The fresh randomness an address is created from: the seed of the
/// signing key pair, the seed of the pseudorandom function, and the
/// randomness of the address commitment.
pub struct AddressEntropy {
    pub sig_seed: [u8; 32],
    pub sk_prf: [u8; 32],
    pub r_pk: [u8; 32],
}

/// The serialization of a signing public key: its base, then its
/// randomizer.
pub open spec fn sig_pk_bytes(base: Seq<u8>, randomizer: Seq<u8>) -> Seq<u8> {
    base + randomizer
}

/// The input of the address commitment: the signing public key, the
/// pseudorandom-function seed and the metadata, in fixed order.
pub open spec fn address_commit_input(
    pk_sig_base: Seq<u8>,
    pk_sig_randomizer: Seq<u8>,
    sk_prf: Seq<u8>,
    metadata: Seq<u8>,
) -> Seq<u8> {
    sig_pk_bytes(pk_sig_base, pk_sig_randomizer) + sk_prf + metadata
}

/// The address public key determined by parameters, metadata and
/// entropy.
pub open spec fn address_public_key_spec(
    addr_comm_tag: Seq<u8>,
    sig_tag: Seq<u8>,
    metadata: Seq<u8>,
    e_sig_seed: Seq<u8>,
    e_sk_prf: Seq<u8>,
    e_r_pk: Seq<u8>,
) -> Seq<u8> {
    commit_spec(
        addr_comm_tag,
        address_commit_input(
            sig_base_spec(sig_tag, e_sig_seed),
            zero_block_spec(),
            e_sk_prf,
            metadata,
        ),
        e_r_pk,
    )
}

/// Whether the address public key is the commitment over the secret
/// key's components: the invariant every created address satisfies.
pub open spec fn address_pair_well_formed(
    addr_comm_tag: Seq<u8>,
    pair_pk: Seq<u8>,
    sk: AddressSecretKeyV,
) -> bool {
    pair_pk == commit_spec(
        addr_comm_tag,
        address_commit_input(sk.pk_sig_base, sk.pk_sig_randomizer, sk.sk_prf, sk.metadata),
        sk.r_pk,
    )
}

/// Whether the secret key's stored signing public key is the one its
/// signing seed generates: an invariant of every created address,
/// which the verifier's signature check rests on.
pub open spec fn address_sk_consistent(sig_tag: Seq<u8>, sk: AddressSecretKeyV) -> bool {
    sk.pk_sig_base == sig_base_spec(sig_tag, sk.sk_sig_seed)
}

/// Creates an address key pair: samples nothing itself, but turns the
/// supplied entropy into a signing key pair, a pseudorandom-function
/// seed and commitment randomness, and commits to them.  The public key
/// is exactly the commitment over the secret key's components.
pub fn create_address_helper(
    addr_comm_pp: &CommitmentParameters,
    sig_pp: &crate::primitives::SignatureParameters,
    metadata: &[u8; 32],
    entropy: &AddressEntropy,
) -> (pair: AddressPair)
    ensures
        pair.secret_key@ == (AddressSecretKeyV {
            pk_sig_base: sig_base_spec(sig_pp.tag@, entropy.sig_seed@),
            pk_sig_randomizer: zero_block_spec(),
            sk_sig_seed: entropy.sig_seed@,
            sk_prf: entropy.sk_prf@,
            metadata: metadata@,
            r_pk: entropy.r_pk@,
        }),
        pair.public_key@ == address_public_key_spec(
            addr_comm_pp.tag@,
            sig_pp.tag@,
            metadata@,
            entropy.sig_seed@,
            entropy.sk_prf@,
            entropy.r_pk@,
        ),
        address_pair_well_formed(addr_comm_pp.tag@, pair.public_key@, pair.secret_key@),
        address_sk_consistent(sig_pp.tag@, pair.secret_key@),
{
    let (pk_sig, sk_sig) = sig_keygen(sig_pp, &entropy.sig_seed);
    let mut commit_input: Vec<u8> = Vec::new();
    push_block(&mut commit_input, &pk_sig.base);
    push_block(&mut commit_input, &pk_sig.randomizer);
    push_block(&mut commit_input, &entropy.sk_prf);
    push_block(&mut commit_input, metadata);
    proof {
        assert(commit_input@ =~= address_commit_input(
            pk_sig.base@,
            pk_sig.randomizer@,
            entropy.sk_prf@,
            metadata@,
        ));
    }
    let public_key = commit(addr_comm_pp, &commit_input, &entropy.r_pk);
    AddressPair {
        public_key: AddressPublicKey { public_key },
        secret_key: AddressSecretKey {
            pk_sig,
            sk_sig,
            sk_prf: entropy.sk_prf,
            metadata: *metadata,
            r_pk: entropy.r_pk,
        },
    }
}

} // verus!
