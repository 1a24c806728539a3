//! Laws of the scheme, proved once over all inputs: determinism of the
//! serial number, rejection of double spends and duplicate inputs, the
//! isolation of a tampered core proof, and the binding of the auxiliary
//! input into the local-data commitment.

use vstd::prelude::*;
use crate::address::AddressSecretKeyV;
use crate::bytes::enc_bytes;
use crate::bytes::u64_le;
use crate::bytes::lemma_concat_split;
use crate::bytes::lemma_le_bytes_injective;
use crate::bytes::lemma_nat_le_bytes_len;
use crate::bytes::lemma_pow256_8;
use crate::dpc::check_core_proof_spec;
use crate::dpc::check_digest_spec;
use crate::dpc::check_distinct_spec;
use crate::dpc::check_no_spent_spec;
use crate::dpc::check_predicate_proof_spec;
use crate::dpc::core_statement_spec;
use crate::dpc::execute_ok;
use crate::dpc::local_data_input_spec;
use crate::dpc::old_sns_spec;
use crate::dpc::serial_number_spec;
use crate::dpc::verify_spec;
use crate::dpc::check_signatures_spec;
use crate::dpc::sig_valid_v;
use crate::address::address_sk_consistent;
use crate::ledger::LedgerV;
use crate::parameters::PublicParametersV;
use crate::primitives::SigPkV;
use crate::primitives::commit_spec;
use crate::primitives::lemma_commit_binding;
use crate::record::RecordV;
use crate::transaction::TransactionV;
use crate::dpc::ExecutionEntropyV;

verus! {

/// Serial-number derivation is deterministic: two derivations from the
/// same record nonce and the same secret key give the same serial
/// number.  Together with the contract of `DPC::generate_sn`, repeated
/// calls with identical record and key yield identical output.
pub proof fn lemma_generate_sn_deterministic(
    sk: AddressSecretKeyV,
    nonce: Seq<u8>,
    sn1: SigPkV,
    sn2: SigPkV,
)
    requires
        sn1 == serial_number_spec(sk, nonce),
        sn2 == serial_number_spec(sk, nonce),
    ensures
        sn1 == sn2,
{
}

/// A transaction that reuses a serial number the ledger already holds
/// fails the double-spend check, and the verifier rejects it.
pub proof fn lemma_double_spend_rejected(
    params: PublicParametersV,
    tx: TransactionV,
    ledger: LedgerV,
    i: int,
)
    requires
        0 <= i < tx.old_serial_numbers.len(),
        ledger.serial_numbers.contains(tx.old_serial_numbers[i]),
    ensures
        !check_no_spent_spec(tx, ledger),
        !verify_spec(params, tx, ledger),
{
    assert(!check_no_spent_spec(tx, ledger)) by {
        assert(ledger.serial_numbers.contains(tx.old_serial_numbers[i]));
    }
}

/// After the ledger accepts one transaction, any transaction that
/// reuses one of the accepted serial numbers is rejected, with the
/// double-spend check the failing one.
pub proof fn lemma_double_spend_after_acceptance(
    params: PublicParametersV,
    accepted: TransactionV,
    replay: TransactionV,
    before: LedgerV,
    after: LedgerV,
    i: int,
    j: int,
)
    requires
        after.serial_numbers == before.serial_numbers + accepted.old_serial_numbers,
        0 <= i < accepted.old_serial_numbers.len(),
        0 <= j < replay.old_serial_numbers.len(),
        replay.old_serial_numbers[j] == accepted.old_serial_numbers[i],
    ensures
        !check_no_spent_spec(replay, after),
        !verify_spec(params, replay, after),
{
    assert(after.serial_numbers[before.serial_numbers.len() + i]
        == accepted.old_serial_numbers[i]);
    assert(after.serial_numbers.contains(replay.old_serial_numbers[j]));
    lemma_double_spend_rejected(params, replay, after, j);
}

/// A transaction in which two input slots spend the same record with
/// the same key (and so carry the same serial number) fails the
/// distinctness check, and the verifier rejects it.
pub proof fn lemma_duplicate_input_rejected(
    params: PublicParametersV,
    tx: TransactionV,
    ledger: LedgerV,
    i: int,
    j: int,
)
    requires
        0 <= i < tx.old_serial_numbers.len(),
        0 <= j < tx.old_serial_numbers.len(),
        i != j,
        tx.old_serial_numbers[i] == tx.old_serial_numbers[j],
    ensures
        !check_distinct_spec(tx),
        !verify_spec(params, tx, ledger),
{
}

/// Altering the core proof of a transaction, and nothing else, flips
/// exactly the core-proof check: the ledger checks and the predicate
/// proof check read none of the altered bytes and keep their outcomes,
/// while the core proof no longer matches its statement, so the
/// verifier rejects.  (The signatures bind the proofs too, so the
/// signature check also fails on the altered transaction.)
pub proof fn lemma_tampered_core_proof_isolated(
    params: PublicParametersV,
    tx: TransactionV,
    tampered: TransactionV,
    ledger: LedgerV,
)
    requires
        check_core_proof_spec(params, tx, ledger),
        tampered.core_proof != tx.core_proof,
        tampered.old_serial_numbers == tx.old_serial_numbers,
        tampered.new_commitments == tx.new_commitments,
        tampered.memorandum == tx.memorandum,
        tampered.digest == tx.digest,
        tampered.predicate_proof == tx.predicate_proof,
        tampered.predicate_comm == tx.predicate_comm,
        tampered.local_data_comm == tx.local_data_comm,
        tampered.signatures == tx.signatures,
    ensures
        !check_core_proof_spec(params, tampered, ledger),
        check_no_spent_spec(tampered, ledger) == check_no_spent_spec(tx, ledger),
        check_distinct_spec(tampered) == check_distinct_spec(tx),
        check_digest_spec(tampered, ledger) == check_digest_spec(tx, ledger),
        check_predicate_proof_spec(params, tampered) == check_predicate_proof_spec(params, tx),
        !verify_spec(params, tampered, ledger),
{
    assert(core_statement_spec(
        params.pp,
        ledger.parameters,
        tampered.digest,
        tampered.old_serial_numbers,
        tampered.new_commitments,
        tampered.memorandum,
        tampered.predicate_comm,
        tampered.local_data_comm,
    ) == core_statement_spec(
        params.pp,
        ledger.parameters,
        tx.digest,
        tx.old_serial_numbers,
        tx.new_commitments,
        tx.memorandum,
        tx.predicate_comm,
        tx.local_data_comm,
    ));
}

/// The auxiliary input is bound into the local-data commitment: two
/// local-data commitments over transcripts that end in different
/// 32-byte auxiliary inputs differ, whatever the rest of the
/// transcripts, the tags and the randomness (of the fixed widths).
pub proof fn lemma_auxiliary_binds_local_data(
    tag1: Seq<u8>,
    olds1: Seq<RecordV>,
    sns1: Seq<SigPkV>,
    news1: Seq<RecordV>,
    memo1: Seq<u8>,
    aux1: Seq<u8>,
    r1: Seq<u8>,
    tag2: Seq<u8>,
    olds2: Seq<RecordV>,
    sns2: Seq<SigPkV>,
    news2: Seq<RecordV>,
    memo2: Seq<u8>,
    aux2: Seq<u8>,
    r2: Seq<u8>,
)
    requires
        aux1.len() == 32,
        aux2.len() == 32,
        aux1 != aux2,
        tag1.len() == tag2.len(),
        r1.len() == r2.len(),
    ensures
        commit_spec(tag1, local_data_input_spec(olds1, sns1, news1, memo1, aux1), r1)
            != commit_spec(tag2, local_data_input_spec(olds2, sns2, news2, memo2, aux2), r2),
{
    let input1 = local_data_input_spec(olds1, sns1, news1, memo1, aux1);
    let input2 = local_data_input_spec(olds2, sns2, news2, memo2, aux2);
    if commit_spec(tag1, input1, r1) == commit_spec(tag2, input2, r2) {
        lemma_commit_binding(tag1, input1, r1, tag2, input2, r2);
        assert(input1 == input2);
        assert(aux1 =~= input1.skip(input1.len() - 32));
        assert(aux2 =~= input2.skip(input2.len() - 32));
        assert(false);
    }
}

/// Length-prefixed byte strings decode uniquely: equal encodings of
/// strings shorter than `2^64` are encodings of equal strings.
pub proof fn lemma_enc_bytes_injective(a: Seq<u8>, b: Seq<u8>)
    requires
        a.len() < 0x1_0000_0000_0000_0000,
        b.len() < 0x1_0000_0000_0000_0000,
        enc_bytes(a) == enc_bytes(b),
    ensures
        a == b,
{
    lemma_nat_le_bytes_len(a.len(), 8);
    lemma_nat_le_bytes_len(b.len(), 8);
    lemma_concat_split(u64_le(a.len()), a, u64_le(b.len()), b);
    lemma_pow256_8();
    lemma_le_bytes_injective(a.len(), b.len(), 8);
}

/// The local-data commitment is bound into the core statement: two
/// core statements equal in everything but their local-data
/// commitments are equal exactly when those commitments are.  So a
/// core proof formed against one auxiliary input attests a different
/// statement than the transcript formed with another.
pub proof fn lemma_local_data_comm_binds_core_statement(
    pp: crate::parameters::CommCrhSigV,
    ledger_params: Seq<u8>,
    digest: u64,
    sns: Seq<SigPkV>,
    cms: Seq<Seq<u8>>,
    memo: Seq<u8>,
    pred_comm: Seq<u8>,
    lc1: Seq<u8>,
    lc2: Seq<u8>,
)
    requires
        lc1 != lc2,
        lc1.len() < 0x1_0000_0000_0000_0000,
        lc2.len() < 0x1_0000_0000_0000_0000,
    ensures
        core_statement_spec(pp, ledger_params, digest, sns, cms, memo, pred_comm, lc1)
            != core_statement_spec(pp, ledger_params, digest, sns, cms, memo, pred_comm, lc2),
{
    let st1 = core_statement_spec(pp, ledger_params, digest, sns, cms, memo, pred_comm, lc1);
    let st2 = core_statement_spec(pp, ledger_params, digest, sns, cms, memo, pred_comm, lc2);
    if st1 == st2 {
        let shared = crate::parameters::pp_bytes(pp) + ledger_params + u64_le(digest as nat)
            + crate::transaction::sns_bytes(sns) + crate::transaction::cms_bytes(cms) + memo
            + enc_bytes(pred_comm);
        assert(st1 =~= shared + enc_bytes(lc1));
        assert(st2 =~= shared + enc_bytes(lc2));
        lemma_concat_split(shared, enc_bytes(lc1), shared, enc_bytes(lc2));
        lemma_enc_bytes_injective(lc1, lc2);
        assert(false);
    }
}

/// Two executions identical in everything but the auxiliary input mint
/// the same records yet produce different local-data commitments.
pub proof fn lemma_auxiliary_binds_executions(
    tx1: TransactionV,
    news1: Seq<RecordV>,
    tx2: TransactionV,
    news2: Seq<RecordV>,
    params: PublicParametersV,
    olds: Seq<RecordV>,
    sks: Seq<AddressSecretKeyV>,
    new_pks: Seq<Seq<u8>>,
    new_flags: Seq<bool>,
    new_payloads: Seq<Seq<u8>>,
    new_birth_vks: Seq<Seq<u8>>,
    new_death_vks: Seq<Seq<u8>>,
    memo: Seq<u8>,
    aux1: Seq<u8>,
    aux2: Seq<u8>,
    ledger: LedgerV,
    entropy: ExecutionEntropyV,
)
    requires
        execute_ok(
            tx1,
            news1,
            params,
            olds,
            sks,
            new_pks,
            new_flags,
            new_payloads,
            new_birth_vks,
            new_death_vks,
            memo,
            aux1,
            ledger,
            entropy,
        ),
        execute_ok(
            tx2,
            news2,
            params,
            olds,
            sks,
            new_pks,
            new_flags,
            new_payloads,
            new_birth_vks,
            new_death_vks,
            memo,
            aux2,
            ledger,
            entropy,
        ),
        aux1.len() == 32,
        aux2.len() == 32,
        aux1 != aux2,
    ensures
        tx1.local_data_comm != tx2.local_data_comm,
{
    lemma_auxiliary_binds_local_data(
        params.pp.local_data_comm,
        olds,
        old_sns_spec(olds, sks),
        news1,
        memo,
        aux1,
        entropy.local_data_rand,
        params.pp.local_data_comm,
        olds,
        old_sns_spec(olds, sks),
        news2,
        memo,
        aux2,
        entropy.local_data_rand,
    );
}


/// Success is owed: a transaction built by an honest execution, spending
/// records whose serial numbers are fresh and pairwise distinct, against
/// a digest the ledger still validates, with keys whose stored signing
/// public keys are the ones their seeds generate, passes all six checks.
pub proof fn lemma_honest_transaction_verifies(
    tx: TransactionV,
    news: Seq<RecordV>,
    params: PublicParametersV,
    olds: Seq<RecordV>,
    sks: Seq<AddressSecretKeyV>,
    new_pks: Seq<Seq<u8>>,
    new_flags: Seq<bool>,
    new_payloads: Seq<Seq<u8>>,
    new_birth_vks: Seq<Seq<u8>>,
    new_death_vks: Seq<Seq<u8>>,
    memo: Seq<u8>,
    aux: Seq<u8>,
    ledger: LedgerV,
    entropy: ExecutionEntropyV,
)
    requires
        execute_ok(
            tx,
            news,
            params,
            olds,
            sks,
            new_pks,
            new_flags,
            new_payloads,
            new_birth_vks,
            new_death_vks,
            memo,
            aux,
            ledger,
            entropy,
        ),
        params.core_pk == params.core_vk,
        params.proof_check_pk == params.proof_check_vk,
        forall|i: int| 0 <= i < sks.len() ==> address_sk_consistent(params.pp.sig, sks[i]),
        olds.len() == sks.len(),
        crate::dpc::check_no_spent_spec(tx, ledger),
        crate::dpc::check_distinct_spec(tx),
        crate::dpc::check_digest_spec(tx, ledger),
    ensures
        verify_spec(params, tx, ledger),
{
    let sns = old_sns_spec(olds, sks);
    let msg = crate::transaction::signature_message_spec(
        sns,
        tx.new_commitments,
        memo,
        tx.digest,
        tx.core_proof,
        tx.predicate_proof,
    );
    assert(check_signatures_spec(tx)) by {
        assert forall|i: int| 0 <= i < tx.old_serial_numbers.len() implies sig_valid_v(
            tx.old_serial_numbers[i],
            msg,
            tx.signatures[i],
        ) by {
            assert(address_sk_consistent(params.pp.sig, sks[i]));
            assert(sns[i] == crate::dpc::serial_number_spec(
                sks[i],
                olds[i].serial_number_nonce,
            ));
        }
    }
}

} // verus!
