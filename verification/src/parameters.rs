//! Public parameters of the scheme, and their setup.
//!
//! Setup samples nothing itself: every function takes the fresh random
//! bytes it needs as an explicit argument, so that parameter generation
//! is a pure function of the supplied entropy.

use vstd::prelude::*;
use crate::primitives::CommitmentParameters;
use crate::primitives::CrhParameters;
use crate::primitives::SignatureParameters;
use crate::primitives::NizkProvingKey;
use crate::primitives::NizkVerifyingKey;
use crate::predicate::PredNIZKParameters;
use crate::bytes::push_block;

verus! {

/// The mathematical value of the commitment, hash and signature
/// parameters.
pub ghost struct CommCrhSigV {
    pub addr_comm: Seq<u8>,
    pub rec_comm: Seq<u8>,
    pub pred_vk_comm: Seq<u8>,
    pub local_data_comm: Seq<u8>,
    pub sn_nonce_crh: Seq<u8>,
    pub pred_vk_crh: Seq<u8>,
    pub sig: Seq<u8>,
}

/// The public parameters of the commitment schemes, the two hashes and
/// the signature scheme.
#[derive(Clone, Copy)]
pub struct CommCRHSigPublicParameters {
    pub addr_comm_pp: CommitmentParameters,
    pub rec_comm_pp: CommitmentParameters,
    pub pred_vk_comm_pp: CommitmentParameters,
    pub local_data_comm_pp: CommitmentParameters,
    pub sn_nonce_crh_pp: CrhParameters,
    pub pred_vk_crh_pp: CrhParameters,
    pub sig_pp: SignatureParameters,
}

impl View for CommCRHSigPublicParameters {
    type V = CommCrhSigV;

    open spec fn view(&self) -> CommCrhSigV {
        CommCrhSigV {
            addr_comm: self.addr_comm_pp.tag@,
            rec_comm: self.rec_comm_pp.tag@,
            pred_vk_comm: self.pred_vk_comm_pp.tag@,
            local_data_comm: self.local_data_comm_pp.tag@,
            sn_nonce_crh: self.sn_nonce_crh_pp.tag@,
            pred_vk_crh: self.pred_vk_crh_pp.tag@,
            sig: self.sig_pp.tag@,
        }
    }
}

/// The wire encoding of the shared parameters: the seven tags in fixed
/// order.  Every top-level statement starts with it.
pub open spec fn pp_bytes(pp: CommCrhSigV) -> Seq<u8> {
    pp.addr_comm + pp.rec_comm + pp.pred_vk_comm + pp.local_data_comm + pp.sn_nonce_crh
        + pp.pred_vk_crh + pp.sig
}

/// Appends the wire encoding of the shared parameters.
pub fn push_pp(out: &mut Vec<u8>, pp: &CommCRHSigPublicParameters)
    ensures
        final(out)@ == old(out)@ + pp_bytes(pp@),
{
    push_block(out, &pp.addr_comm_pp.tag);
    push_block(out, &pp.rec_comm_pp.tag);
    push_block(out, &pp.pred_vk_comm_pp.tag);
    push_block(out, &pp.local_data_comm_pp.tag);
    push_block(out, &pp.sn_nonce_crh_pp.tag);
    push_block(out, &pp.pred_vk_crh_pp.tag);
    push_block(out, &pp.sig_pp.tag);
    proof {
        assert(final(out)@ =~= old(out)@ + pp_bytes(pp@));
    }
}

/// The fresh randomness setup consumes: one 32-byte seed per scheme and
/// one per proof-system key pair.
pub struct SetupEntropy {
    pub addr_comm: [u8; 32],
    pub rec_comm: [u8; 32],
    pub pred_vk_comm: [u8; 32],
    pub local_data_comm: [u8; 32],
    pub sn_nonce_crh: [u8; 32],
    pub pred_vk_crh: [u8; 32],
    pub sig: [u8; 32],
    pub pred_nizk: [u8; 32],
    pub core_nizk: [u8; 32],
    pub proof_check_nizk: [u8; 32],
}

/// The mathematical value of the full public parameters.
pub ghost struct PublicParametersV {
    pub pp: CommCrhSigV,
    pub pred_nizk_pk: Seq<u8>,
    pub pred_nizk_vk: Seq<u8>,
    pub pred_nizk_proof: Seq<u8>,
    pub core_pk: Seq<u8>,
    pub core_vk: Seq<u8>,
    pub proof_check_pk: Seq<u8>,
    pub proof_check_vk: Seq<u8>,
}

/// The full public parameters: the shared commitment, hash and
/// signature parameters, the built-in accept-all predicate's key pair
/// and proof, and the key pairs of the two top-level proof systems.
pub struct PublicParameters {
    pub comm_crh_sig_pp: CommCRHSigPublicParameters,
    pub pred_nizk_pp: PredNIZKParameters,
    pub core_nizk_pp: (NizkProvingKey, NizkVerifyingKey),
    pub proof_check_nizk_pp: (NizkProvingKey, NizkVerifyingKey),
}

impl View for PublicParameters {
    type V = PublicParametersV;

    open spec fn view(&self) -> PublicParametersV {
        PublicParametersV {
            pp: self.comm_crh_sig_pp@,
            pred_nizk_pk: self.pred_nizk_pp.pk.tag@,
            pred_nizk_vk: self.pred_nizk_pp.vk.tag@,
            pred_nizk_proof: self.pred_nizk_pp.proof@,
            core_pk: self.core_nizk_pp.0.tag@,
            core_vk: self.core_nizk_pp.1.tag@,
            proof_check_pk: self.proof_check_nizk_pp.0.tag@,
            proof_check_vk: self.proof_check_nizk_pp.1.tag@,
        }
    }
}

} // verus!
