//! Transactions: the immutable unit the ledger accepts or rejects.
//!
//! A transaction carries the serial numbers of the records it consumes,
//! the commitments of the records it mints, a memorandum, the ledger
//! digest it was built against, the two top-level proofs, the two
//! binding commitments, and one randomized signature per consumed
//! record.  This module also fixes the wire encodings over which the
//! top-level statements and the signed message are formed.

use vstd::prelude::*;
use crate::primitives::SignaturePublicKey;
use crate::primitives::Signature;
use crate::primitives::SigPkV;
use crate::primitives::SigV;
use crate::address::sig_pk_bytes;
use crate::bytes::enc_bytes;
use crate::bytes::u64_le;
use crate::bytes::push_block;
use crate::bytes::push_len_prefixed;
use crate::bytes::push_u64_le;

verus! {

/// The sequence of serial-number values a vector of keys stands for.
pub open spec fn sns_view(v: Seq<SignaturePublicKey>) -> Seq<SigPkV> {
    Seq::new(v.len(), |i: int| v[i]@)
}

/// The sequence of commitment values a vector of byte strings stands
/// for.
pub open spec fn cms_view(v: Seq<Vec<u8>>) -> Seq<Seq<u8>> {
    Seq::new(v.len(), |i: int| v[i]@)
}

/// The wire encoding of a list of serial numbers, in order.
pub open spec fn sns_bytes(sns: Seq<SigPkV>) -> Seq<u8>
    decreases sns.len(),
{
    if sns.len() == 0 {
        Seq::<u8>::empty()
    } else {
        sns_bytes(sns.drop_last()) + sig_pk_bytes(sns.last().base, sns.last().randomizer)
    }
}

/// The wire encoding of a list of commitments, in order, each behind
/// its length.
pub open spec fn cms_bytes(cms: Seq<Seq<u8>>) -> Seq<u8>
    decreases cms.len(),
{
    if cms.len() == 0 {
        Seq::<u8>::empty()
    } else {
        cms_bytes(cms.drop_last()) + enc_bytes(cms.last())
    }
}

/// Appends the wire encoding of the serial numbers.
pub fn push_sns(out: &mut Vec<u8>, sns: &Vec<SignaturePublicKey>)
    ensures
        final(out)@ == old(out)@ + sns_bytes(sns_view(sns@)),
{
    let mut i: usize = 0;
    proof {
        assert(sns_bytes(sns_view(sns@).take(0)) =~= Seq::<u8>::empty());
        assert(out@ =~= out@ + sns_bytes(sns_view(sns@).take(0)));
    }
    while i < sns.len()
        invariant
            i <= sns@.len(),
            out@ == old(out)@ + sns_bytes(sns_view(sns@).take(i as int)),
        decreases sns@.len() - i,
    {
        push_block(out, &sns[i].base);
        push_block(out, &sns[i].randomizer);
        proof {
            let s = sns_view(sns@);
            assert(s.take(i + 1).drop_last() =~= s.take(i as int));
            assert(s.take(i + 1).last() == s[i as int]);
            assert(out@ =~= old(out)@ + sns_bytes(s.take(i + 1)));
        }
        i = i + 1;
    }
    proof {
        assert(sns_view(sns@).take(sns@.len() as int) =~= sns_view(sns@));
    }
}

/// Appends the wire encoding of the commitments.
pub fn push_cms(out: &mut Vec<u8>, cms: &Vec<Vec<u8>>)
    ensures
        final(out)@ == old(out)@ + cms_bytes(cms_view(cms@)),
{
    let mut i: usize = 0;
    proof {
        assert(cms_bytes(cms_view(cms@).take(0)) =~= Seq::<u8>::empty());
        assert(out@ =~= out@ + cms_bytes(cms_view(cms@).take(0)));
    }
    while i < cms.len()
        invariant
            i <= cms@.len(),
            out@ == old(out)@ + cms_bytes(cms_view(cms@).take(i as int)),
        decreases cms@.len() - i,
    {
        push_len_prefixed(out, &cms[i]);
        proof {
            let s = cms_view(cms@);
            assert(s.take(i + 1).drop_last() =~= s.take(i as int));
            assert(s.take(i + 1).last() == s[i as int]);
            assert(out@ =~= old(out)@ + cms_bytes(s.take(i + 1)));
        }
        i = i + 1;
    }
    proof {
        assert(cms_view(cms@).take(cms@.len() as int) =~= cms_view(cms@));
    }
}

/// The message every consumed input signs: serial numbers, new
/// commitments, memorandum, ledger digest, and both proofs.  Because
/// the proofs are part of the message, a transaction whose proofs are
/// altered also invalidates its signatures.
pub open spec fn signature_message_spec(
    sns: Seq<SigPkV>,
    cms: Seq<Seq<u8>>,
    memo: Seq<u8>,
    digest: u64,
    core_proof: Seq<u8>,
    predicate_proof: Seq<u8>,
) -> Seq<u8> {
    sns_bytes(sns) + cms_bytes(cms) + memo + u64_le(digest as nat) + core_proof
        + predicate_proof
}

/// Builds the signed message.
pub fn build_signature_message(
    sns: &Vec<SignaturePublicKey>,
    cms: &Vec<Vec<u8>>,
    memo: &[u8; 32],
    digest: u64,
    core_proof: &[u8; 32],
    predicate_proof: &[u8; 32],
) -> (msg: Vec<u8>)
    ensures
        msg@ == signature_message_spec(
            sns_view(sns@),
            cms_view(cms@),
            memo@,
            digest,
            core_proof@,
            predicate_proof@,
        ),
{
    let mut msg: Vec<u8> = Vec::new();
    push_sns(&mut msg, sns);
    push_cms(&mut msg, cms);
    push_block(&mut msg, memo);
    push_u64_le(&mut msg, digest);
    push_block(&mut msg, core_proof);
    push_block(&mut msg, predicate_proof);
    proof {
        assert(msg@ =~= signature_message_spec(
            sns_view(sns@),
            cms_view(cms@),
            memo@,
            digest,
            core_proof@,
            predicate_proof@,
        ));
    }
    msg
}

/// The mathematical value of a transaction.
pub ghost struct TransactionV {
    pub old_serial_numbers: Seq<SigPkV>,
    pub new_commitments: Seq<Seq<u8>>,
    pub memorandum: Seq<u8>,
    pub digest: u64,
    pub core_proof: Seq<u8>,
    pub predicate_proof: Seq<u8>,
    pub predicate_comm: Seq<u8>,
    pub local_data_comm: Seq<u8>,
    pub signatures: Seq<SigV>,
}

/// A transaction.
pub struct DPCTransaction {
    pub old_serial_numbers: Vec<SignaturePublicKey>,
    pub new_commitments: Vec<Vec<u8>>,
    pub memorandum: [u8; 32],
    pub digest: u64,
    pub core_proof: [u8; 32],
    pub predicate_proof: [u8; 32],
    pub predicate_comm: Vec<u8>,
    pub local_data_comm: Vec<u8>,
    pub signatures: Vec<Signature>,
}

impl View for DPCTransaction {
    type V = TransactionV;

    open spec fn view(&self) -> TransactionV {
        TransactionV {
            old_serial_numbers: sns_view(self.old_serial_numbers@),
            new_commitments: cms_view(self.new_commitments@),
            memorandum: self.memorandum@,
            digest: self.digest,
            core_proof: self.core_proof@,
            predicate_proof: self.predicate_proof@,
            predicate_comm: self.predicate_comm@,
            local_data_comm: self.local_data_comm@,
            signatures: Seq::new(self.signatures@.len(), |i: int| self.signatures@[i]@),
        }
    }
}

impl DPCTransaction {
    /// Assembles a transaction from its finished parts.
    pub fn new(
        old_serial_numbers: Vec<SignaturePublicKey>,
        new_commitments: Vec<Vec<u8>>,
        memorandum: [u8; 32],
        digest: u64,
        core_proof: [u8; 32],
        predicate_proof: [u8; 32],
        predicate_comm: Vec<u8>,
        local_data_comm: Vec<u8>,
        signatures: Vec<Signature>,
    ) -> (tx: DPCTransaction)
        ensures
            tx@.old_serial_numbers == sns_view(old_serial_numbers@),
            tx@.new_commitments == cms_view(new_commitments@),
            tx@.memorandum == memorandum@,
            tx@.digest == digest,
            tx@.core_proof == core_proof@,
            tx@.predicate_proof == predicate_proof@,
            tx@.predicate_comm == predicate_comm@,
            tx@.local_data_comm == local_data_comm@,
            tx@.signatures == Seq::new(signatures@.len(), |i: int| signatures@[i]@),
    {
        DPCTransaction {
            old_serial_numbers,
            new_commitments,
            memorandum,
            digest,
            core_proof,
            predicate_proof,
            predicate_comm,
            local_data_comm,
            signatures,
        }
    }
}

} // verus!
