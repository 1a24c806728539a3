//! Predicates: the programs that govern record creation and consumption.
//!
//! A record stores only a fixed-size compact representation (a digest of
//! the predicate's verifying key), which bounds the record size
//! independently of predicate complexity and hides the predicate program
//! from the top-level verifier.

use vstd::prelude::*;
use crate::primitives::NizkVerifyingKey;
use crate::primitives::NizkProvingKey;
use crate::primitives::CrhParameters;
use crate::primitives::crh_spec;
use crate::primitives::crh_eval;
use crate::primitives::slice_to_vec;

verus! {

/// A predicate, carried as the verifying key of its proof.
pub struct DPCPredicate {
    pub verification_key: NizkVerifyingKey,
}

impl View for DPCPredicate {
    type V = Seq<u8>;

    open spec fn view(&self) -> Seq<u8> {
        self.verification_key.tag@
    }
}

/// The compact representation of a predicate: the hash of its verifying
/// key under the verifying-key hash parameters.
pub open spec fn predicate_repr_spec(pred_vk_crh_tag: Seq<u8>, vk: Seq<u8>) -> Seq<u8> {
    crh_spec(pred_vk_crh_tag, vk)
}

impl DPCPredicate {
    /// Reduces the predicate to its fixed-size digest.
    pub fn into_compact_repr(&self, pred_vk_crh_pp: &CrhParameters) -> (repr: [u8; 32])
        ensures
            repr@ == predicate_repr_spec(pred_vk_crh_pp.tag@, self@),
    {
        let vk_bytes = slice_to_vec(&self.verification_key.tag);
        crh_eval(pred_vk_crh_pp, &vk_bytes)
    }
}

/// The verifying key and proof a predicate prover hands back for one
/// record; the proof-check circuit attests each pair's validity.
pub struct PrivatePredInput {
    pub vk: NizkVerifyingKey,
    pub proof: [u8; 32],
}

/// The parameters of the built-in predicate that accepts every
/// transcript: a key pair and a proof of the blank statement.
pub struct PredNIZKParameters {
    pub pk: NizkProvingKey,
    pub vk: NizkVerifyingKey,
    pub proof: [u8; 32],
}

} // verus!
