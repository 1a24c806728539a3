//! End-to-end tests of the transaction scheme: address and record
//! commitments, serial-number determinism, double spends, duplicate
//! inputs, proof tampering, and the binding of the auxiliary input.

use dpc::address::AddressEntropy;
use dpc::bytes::push_block;
use dpc::dpc::DummyPredicateProver;
use dpc::dpc::ExecutionEntropy;
use dpc::dpc::DPC;
use dpc::ledger::Ledger;
use dpc::ledger::LedgerError;
use dpc::ledger::LedgerParameters;
use dpc::parameters::PublicParameters;
use dpc::predicate::DPCPredicate;
use dpc::predicate::PrivatePredInput;
use dpc::primitives::commit;
use dpc::record::DPCRecord;
use dpc::transaction::DPCTransaction;

fn block(x: u8) -> [u8; 32] {
    [x; 32]
}

fn setup_entropy() -> dpc::parameters::SetupEntropy {
    dpc::parameters::SetupEntropy {
        addr_comm: block(1),
        rec_comm: block(2),
        pred_vk_comm: block(3),
        local_data_comm: block(4),
        sn_nonce_crh: block(5),
        pred_vk_crh: block(6),
        sig: block(7),
        pred_nizk: block(8),
        core_nizk: block(9),
        proof_check_nizk: block(10),
    }
}

fn address_entropy(seed: u8) -> AddressEntropy {
    AddressEntropy { sig_seed: block(seed), sk_prf: block(seed.wrapping_add(1)), r_pk: block(seed.wrapping_add(2)) }
}

fn execution_entropy(seed: u8, n_out: usize) -> ExecutionEntropy {
    ExecutionEntropy {
        sn_randomness: vec![block(seed); n_out],
        record_randomness: vec![block(seed.wrapping_add(1)); n_out],
        local_data_rand: block(seed.wrapping_add(2)),
        predicate_rand: block(seed.wrapping_add(3)),
    }
}

fn accept_all_predicate(parameters: &PublicParameters) -> DPCPredicate {
    DPCPredicate { verification_key: parameters.pred_nizk_pp.vk }
}

fn pred_bundle(parameters: &PublicParameters) -> PrivatePredInput {
    PrivatePredInput { vk: parameters.pred_nizk_pp.vk, proof: parameters.pred_nizk_pp.proof }
}

/// Sets up the scheme, mints a record owned by a fresh address, and
/// seeds a ledger that holds its commitment.
fn minted_scene() -> (
    PublicParameters,
    dpc::address::AddressPair,
    dpc::address::AddressPair,
    DPCRecord,
    Ledger,
) {
    let ledger_pp = LedgerParameters { tag: block(77) };
    let parameters = DPC::setup(&ledger_pp, &setup_entropy());
    let alice = DPC::create_address(&parameters, &block(11), &address_entropy(20));
    let bob = DPC::create_address(&parameters, &block(12), &address_entropy(30));
    let record = DPC::generate_record(
        &parameters.comm_crh_sig_pp,
        &block(40),
        &alice.public_key,
        false,
        &block(41),
        &accept_all_predicate(&parameters),
        &accept_all_predicate(&parameters),
        &block(42),
    );
    let mut ledger = Ledger::new(LedgerParameters { tag: block(77) });
    let genesis = DPCTransaction::new(
        Vec::new(),
        vec![record.commitment.clone()],
        block(0),
        0,
        block(0),
        block(0),
        Vec::new(),
        Vec::new(),
        Vec::new(),
    );
    ledger.push_transaction(&genesis);
    (parameters, alice, bob, record, ledger)
}

/// Runs a one-in one-out transfer of the minted record to the second
/// address.
fn transfer(
    parameters: &PublicParameters,
    alice: &dpc::address::AddressPair,
    bob: &dpc::address::AddressPair,
    record: &DPCRecord,
    ledger: &Ledger,
    auxiliary: [u8; 32],
    entropy_seed: u8,
) -> Result<(Vec<DPCRecord>, DPCTransaction), LedgerError> {
    let old_records = vec![clone_record(record)];
    let old_keys = vec![alice.secret_key];
    let mut old_prover = DummyPredicateProver { bundle: pred_bundle(parameters), count: 1 };
    let mut new_prover = DummyPredicateProver { bundle: pred_bundle(parameters), count: 1 };
    let new_pks = vec![dpc::address::AddressPublicKey {
        public_key: bob.public_key.public_key.clone(),
    }];
    DPC::execute(
        parameters,
        &old_records,
        &old_keys,
        &mut old_prover,
        &new_pks,
        &vec![false],
        &vec![block(41)],
        &vec![accept_all_predicate(parameters)],
        &vec![accept_all_predicate(parameters)],
        &mut new_prover,
        &auxiliary,
        &block(50),
        ledger,
        &execution_entropy(entropy_seed, 1),
    )
}

fn clone_record(r: &DPCRecord) -> DPCRecord {
    DPCRecord {
        address_public_key: dpc::address::AddressPublicKey {
            public_key: r.address_public_key.public_key.clone(),
        },
        is_dummy: r.is_dummy,
        payload: r.payload,
        birth_predicate_repr: r.birth_predicate_repr,
        death_predicate_repr: r.death_predicate_repr,
        serial_number_nonce: r.serial_number_nonce,
        commitment: r.commitment.clone(),
        commitment_randomness: r.commitment_randomness,
    }
}

#[test]
fn test_address_public_key_is_commitment() {
    let ledger_pp = LedgerParameters { tag: block(77) };
    let parameters = DPC::setup(&ledger_pp, &setup_entropy());
    let pair = DPC::create_address(&parameters, &block(11), &address_entropy(20));
    let mut input: Vec<u8> = Vec::new();
    push_block(&mut input, &pair.secret_key.pk_sig.base);
    push_block(&mut input, &pair.secret_key.pk_sig.randomizer);
    push_block(&mut input, &pair.secret_key.sk_prf);
    push_block(&mut input, &pair.secret_key.metadata);
    let recomputed = commit(
        &parameters.comm_crh_sig_pp.addr_comm_pp,
        &input,
        &pair.secret_key.r_pk,
    );
    assert_eq!(pair.public_key.public_key, recomputed);
}

#[test]
fn test_record_commitment_opens_to_fields() {
    let (parameters, _alice, _bob, record, _ledger) = minted_scene();
    let mut input: Vec<u8> = Vec::new();
    dpc::record::push_record_commitment_input(
        &mut input,
        &record.address_public_key.public_key,
        record.is_dummy,
        &record.payload,
        &record.birth_predicate_repr,
        &record.death_predicate_repr,
        &record.serial_number_nonce,
    );
    let recomputed = commit(
        &parameters.comm_crh_sig_pp.rec_comm_pp,
        &input,
        &record.commitment_randomness,
    );
    assert_eq!(record.commitment, recomputed);
}

#[test]
fn test_record_serialization_round_trip() {
    let (_parameters, _alice, _bob, record, _ledger) = minted_scene();
    let bytes = record.to_bytes();
    let parsed = DPCRecord::from_bytes(&bytes).expect("a serialized record parses back");
    assert_eq!(parsed.address_public_key.public_key, record.address_public_key.public_key);
    assert_eq!(parsed.is_dummy, record.is_dummy);
    assert_eq!(parsed.payload, record.payload);
    assert_eq!(parsed.birth_predicate_repr, record.birth_predicate_repr);
    assert_eq!(parsed.death_predicate_repr, record.death_predicate_repr);
    assert_eq!(parsed.serial_number_nonce, record.serial_number_nonce);
    assert_eq!(parsed.commitment, record.commitment);
    assert_eq!(parsed.commitment_randomness, record.commitment_randomness);
    assert!(DPCRecord::from_bytes(&vec![0u8; 10]).is_none());
}

#[test]
fn test_generate_sn_deterministic() {
    let (parameters, alice, _bob, record, _ledger) = minted_scene();
    let (sn1, r1) = DPC::generate_sn(&parameters.comm_crh_sig_pp, &record, &alice.secret_key);
    let (sn2, r2) = DPC::generate_sn(&parameters.comm_crh_sig_pp, &record, &alice.secret_key);
    assert_eq!(sn1.base, sn2.base);
    assert_eq!(sn1.randomizer, sn2.randomizer);
    assert_eq!(r1, r2);
}

#[test]
fn test_missing_witness_is_ledger_error() {
    let (parameters, alice, bob, record, _ledger) = minted_scene();
    let empty_ledger = Ledger::new(LedgerParameters { tag: block(77) });
    let out = transfer(&parameters, &alice, &bob, &record, &empty_ledger, block(90), 60);
    assert!(matches!(out, Err(LedgerError::WitnessMissing)));
}

#[test]
fn test_end_to_end_transfer() {
    let (parameters, alice, bob, record, mut ledger) = minted_scene();
    let (new_records, tx) = transfer(&parameters, &alice, &bob, &record, &ledger, block(90), 60)
        .unwrap();
    assert_eq!(new_records.len(), 1);
    assert_eq!(new_records[0].payload, block(41));
    assert!(DPC::verify(&parameters, &tx, &ledger));
    ledger.push_transaction(&tx);
    assert!(!DPC::verify(&parameters, &tx, &ledger));
    let checks = DPC::verify_checks(&parameters, &tx, &ledger);
    assert!(!checks.no_spent_serial_numbers);
    assert!(checks.distinct_serial_numbers);
    assert!(checks.valid_digest);
    assert!(checks.core_proof_valid);
    assert!(checks.predicate_proof_valid);
    assert!(checks.signatures_valid);
}

#[test]
fn test_double_spend_detected() {
    let (parameters, alice, bob, record, mut ledger) = minted_scene();
    let (_new_records, tx) = transfer(&parameters, &alice, &bob, &record, &ledger, block(90), 60)
        .unwrap();
    assert!(DPC::verify(&parameters, &tx, &ledger));
    ledger.push_transaction(&tx);
    // A second spend of the same record derives the same serial number.
    let (_more, replay) = transfer(&parameters, &alice, &bob, &record, &ledger, block(91), 70)
        .unwrap();
    assert!(!DPC::verify(&parameters, &replay, &ledger));
    let checks = DPC::verify_checks(&parameters, &replay, &ledger);
    assert!(!checks.no_spent_serial_numbers);
}

#[test]
fn test_duplicate_inputs_rejected() {
    let (parameters, alice, bob, record, ledger) = minted_scene();
    let old_records = vec![clone_record(&record), clone_record(&record)];
    let old_keys = vec![alice.secret_key, alice.secret_key];
    let mut old_prover = DummyPredicateProver { bundle: pred_bundle(&parameters), count: 2 };
    let mut new_prover = DummyPredicateProver { bundle: pred_bundle(&parameters), count: 1 };
    let new_pks = vec![dpc::address::AddressPublicKey {
        public_key: bob.public_key.public_key.clone(),
    }];
    let (_recs, tx) = DPC::execute(
        &parameters,
        &old_records,
        &old_keys,
        &mut old_prover,
        &new_pks,
        &vec![false],
        &vec![block(41)],
        &vec![accept_all_predicate(&parameters)],
        &vec![accept_all_predicate(&parameters)],
        &mut new_prover,
        &block(90),
        &block(50),
        &ledger,
        &execution_entropy(60, 1),
    )
    .unwrap();
    assert!(!DPC::verify(&parameters, &tx, &ledger));
    let checks = DPC::verify_checks(&parameters, &tx, &ledger);
    assert!(!checks.distinct_serial_numbers);
}

#[test]
fn test_tampered_core_proof_isolated() {
    let (parameters, alice, bob, record, ledger) = minted_scene();
    let (_recs, tx) = transfer(&parameters, &alice, &bob, &record, &ledger, block(90), 60)
        .unwrap();
    assert!(DPC::verify(&parameters, &tx, &ledger));
    let mut tampered = tx;
    tampered.core_proof[0] ^= 1;
    assert!(!DPC::verify(&parameters, &tampered, &ledger));
    let checks = DPC::verify_checks(&parameters, &tampered, &ledger);
    assert!(checks.no_spent_serial_numbers);
    assert!(checks.distinct_serial_numbers);
    assert!(checks.valid_digest);
    assert!(!checks.core_proof_valid);
    assert!(checks.predicate_proof_valid);
    // The signed message binds the proofs, so the signatures break too.
    assert!(!checks.signatures_valid);
}

#[test]
fn test_auxiliary_binds_local_data() {
    let (parameters, alice, bob, record, ledger) = minted_scene();
    let (_r1, tx1) = transfer(&parameters, &alice, &bob, &record, &ledger, block(90), 60)
        .unwrap();
    let (_r2, tx2) = transfer(&parameters, &alice, &bob, &record, &ledger, block(91), 60)
        .unwrap();
    assert_ne!(tx1.local_data_comm, tx2.local_data_comm);
    // A core proof made with one auxiliary input fails against the
    // transcript assembled with the other.
    let mut hybrid = tx2;
    hybrid.core_proof = tx1.core_proof;
    assert!(!DPC::verify(&parameters, &hybrid, &ledger));
    let checks = DPC::verify_checks(&parameters, &hybrid, &ledger);
    assert!(!checks.core_proof_valid);
}

#[test]
fn test_dummy_record_spends_without_witness() {
    // A dummy input record carries the canonical dummy witness, so it
    // can be spent against a ledger that has never seen its commitment.
    let ledger_pp = LedgerParameters { tag: block(77) };
    let parameters = DPC::setup(&ledger_pp, &setup_entropy());
    let alice = DPC::create_address(&parameters, &block(11), &address_entropy(20));
    let bob = DPC::create_address(&parameters, &block(12), &address_entropy(30));
    let dummy = DPC::generate_record(
        &parameters.comm_crh_sig_pp,
        &block(40),
        &alice.public_key,
        true,
        &block(41),
        &accept_all_predicate(&parameters),
        &accept_all_predicate(&parameters),
        &block(42),
    );
    let ledger = Ledger::new(LedgerParameters { tag: block(77) });
    let out = transfer(&parameters, &alice, &bob, &dummy, &ledger, block(90), 60);
    let (_recs, tx) = out.unwrap();
    assert!(DPC::verify(&parameters, &tx, &ledger));
}

#[test]
fn test_mix_digest_value() {
    // One byte folds into position zero: state becomes 33 * 0 + 7.
    let digest = dpc::primitives::mix32(&[0u8; 32], &vec![7u8]);
    let mut expected = [0u8; 32];
    expected[0] = 7;
    assert_eq!(digest, expected);
    // A second byte lands in position one.
    let digest2 = dpc::primitives::mix32(&[0u8; 32], &vec![7u8, 9u8]);
    let mut expected2 = [0u8; 32];
    expected2[0] = 7;
    expected2[1] = 9;
    assert_eq!(digest2, expected2);
}
