//! The transaction pipeline: address creation, record minting,
//! serial-number derivation, transaction construction and verification.

use vstd::prelude::*;
use crate::address::AddressEntropy;
use crate::address::AddressPair;
use crate::address::AddressPublicKey;
use crate::address::AddressSecretKey;
use crate::address::AddressSecretKeyV;
use crate::address::create_address_helper;
use crate::address::sig_pk_bytes;
use crate::bytes::copy_bytes;
use crate::bytes::enc_bytes;
use crate::bytes::push_block;
use crate::bytes::push_len_prefixed;
use crate::ledger::Ledger;
use crate::ledger::LedgerError;
use crate::ledger::LedgerWitness;
use crate::parameters::CommCRHSigPublicParameters;
use crate::parameters::CommCrhSigV;
use crate::parameters::PublicParameters;
use crate::parameters::SetupEntropy;
use crate::parameters::pp_bytes;
use crate::parameters::push_pp;
use crate::predicate::DPCPredicate;
use crate::predicate::PredNIZKParameters;
use crate::predicate::PrivatePredInput;
use crate::predicate::predicate_repr_spec;
use crate::primitives::CommitmentParameters;
use crate::primitives::CrhParameters;
use crate::primitives::SignatureParameters;
use crate::primitives::SignaturePublicKey;
use crate::primitives::SigPkV;
use crate::primitives::commit;
use crate::primitives::commit_spec;
use crate::primitives::crh_eval;
use crate::primitives::crh_spec;
use crate::primitives::nizk_proof_spec;
use crate::primitives::nizk_prove;
use crate::primitives::nizk_setup;
use crate::primitives::prf_eval;
use crate::primitives::prf_spec;
use crate::primitives::sig_randomize_public_key;
use crate::primitives::slice_to_vec;
use crate::record::DPCRecord;
use crate::record::RecordV;
use crate::record::bool_byte;
use crate::record::push_record_commitment_input;
use crate::record::record_commitment_input;
use crate::record::record_well_formed;
use crate::transaction::sns_bytes;
use crate::transaction::cms_bytes;
use crate::transaction::sns_view;
use crate::transaction::cms_view;
use crate::transaction::signature_message_spec;
use crate::transaction::build_signature_message;
use crate::transaction::push_sns;
use crate::transaction::push_cms;
use crate::transaction::DPCTransaction;
use crate::transaction::TransactionV;
use crate::primitives::Signature;
use crate::primitives::SigV;
use crate::primitives::sig_base_spec;
use crate::primitives::sig_tag_spec;
use crate::primitives::sig_sign;
use crate::primitives::sig_randomize_signature;
use crate::primitives::sig_verify;
use crate::primitives::sig_verify_spec;
use crate::primitives::nizk_verify;
use crate::bytes::push_u64_le;
use crate::bytes::u64_le;
use crate::ledger::LedgerParameters;
use crate::ledger::LedgerV;

verus! {

/// The transaction scheme.  All pipeline operations are associated
/// functions of this type.
pub struct DPC {
    _private: (),
}

/// The record values a vector of records stands for.
pub open spec fn records_view(v: Seq<DPCRecord>) -> Seq<RecordV> {
    Seq::new(v.len(), |i: int| v[i]@)
}

/// The secret-key values a vector of address secret keys stands for.
pub open spec fn sks_view(v: Seq<AddressSecretKey>) -> Seq<AddressSecretKeyV> {
    Seq::new(v.len(), |i: int| v[i]@)
}

/// The byte strings a vector of 32-byte blocks stands for.
pub open spec fn blocks_view(v: Seq<[u8; 32]>) -> Seq<Seq<u8>> {
    Seq::new(v.len(), |i: int| v[i]@)
}

/// The verifying keys a vector of predicates stands for.
pub open spec fn preds_view(v: Seq<DPCPredicate>) -> Seq<Seq<u8>> {
    Seq::new(v.len(), |i: int| v[i]@)
}

/// The key bytes a vector of address public keys stands for.
pub open spec fn pks_view(v: Seq<AddressPublicKey>) -> Seq<Seq<u8>> {
    Seq::new(v.len(), |i: int| v[i]@)
}

/// The serial number of a record under a secret key: the signing public
/// key, randomized with the pseudorandom function evaluated at the
/// record's nonce under the key's seed.  It is a deterministic function
/// of record and secret key: this determinism is the double-spend
/// detector.
pub open spec fn serial_number_spec(sk: AddressSecretKeyV, nonce: Seq<u8>) -> SigPkV {
    SigPkV { base: sk.pk_sig_base, randomizer: prf_spec(sk.sk_prf, nonce) }
}

/// The serial numbers of a list of consumed records.
pub open spec fn old_sns_spec(olds: Seq<RecordV>, sks: Seq<AddressSecretKeyV>) -> Seq<SigPkV> {
    Seq::new(olds.len(), |i: int| serial_number_spec(sks[i], olds[i].serial_number_nonce))
}

/// Copies a record.
pub fn copy_record(r: &DPCRecord) -> (c: DPCRecord)
    ensures
        c@ == r@,
{
    DPCRecord {
        address_public_key: AddressPublicKey {
            public_key: copy_bytes(&r.address_public_key.public_key),
        },
        is_dummy: r.is_dummy,
        payload: r.payload,
        birth_predicate_repr: r.birth_predicate_repr,
        death_predicate_repr: r.death_predicate_repr,
        serial_number_nonce: r.serial_number_nonce,
        commitment: copy_bytes(&r.commitment),
        commitment_randomness: r.commitment_randomness,
    }
}


/// The byte a new record's nonce derivation starts with: the output
/// slot index, then the fresh randomness, then the serial numbers of
/// every consumed record.  Binding the nonce to the spent serial
/// numbers ties each minted record to exactly this set of inputs.
pub open spec fn sn_nonce_input_spec(j: int, rand: Seq<u8>, joint: Seq<u8>) -> Seq<u8> {
    seq![j as u8] + rand + joint
}

/// The transcript bytes of one consumed record: its commitment, owner,
/// flag, payload and predicate digests, then its serial number.
pub open spec fn old_record_local_bytes(r: RecordV, sn: SigPkV) -> Seq<u8> {
    enc_bytes(r.commitment) + enc_bytes(r.owner) + seq![bool_byte(r.is_dummy)] + r.payload
        + r.birth_predicate_repr + r.death_predicate_repr + sig_pk_bytes(sn.base, sn.randomizer)
}

/// The transcript bytes of one minted record.
pub open spec fn new_record_local_bytes(r: RecordV) -> Seq<u8> {
    enc_bytes(r.commitment) + enc_bytes(r.owner) + seq![bool_byte(r.is_dummy)] + r.payload
        + r.birth_predicate_repr + r.death_predicate_repr
}

/// The transcript bytes of the consumed records, in order.
pub open spec fn old_records_local_bytes(rs: Seq<RecordV>, sns: Seq<SigPkV>) -> Seq<u8>
    decreases rs.len(),
{
    if rs.len() == 0 {
        Seq::<u8>::empty()
    } else {
        old_records_local_bytes(rs.drop_last(), sns.drop_last())
            + old_record_local_bytes(rs.last(), sns.last())
    }
}

/// The transcript bytes of the minted records, in order.
pub open spec fn new_records_local_bytes(rs: Seq<RecordV>) -> Seq<u8>
    decreases rs.len(),
{
    if rs.len() == 0 {
        Seq::<u8>::empty()
    } else {
        new_records_local_bytes(rs.drop_last()) + new_record_local_bytes(rs.last())
    }
}

/// The input of the local-data commitment: the full public transcript
/// (old records with their serial numbers, new records), the
/// memorandum, and the auxiliary input, in fixed order.
pub open spec fn local_data_input_spec(
    olds: Seq<RecordV>,
    sns: Seq<SigPkV>,
    news: Seq<RecordV>,
    memo: Seq<u8>,
    aux: Seq<u8>,
) -> Seq<u8> {
    old_records_local_bytes(olds, sns) + new_records_local_bytes(news) + memo + aux
}

/// The concatenation of a list of byte strings.
pub open spec fn concat_seqs(s: Seq<Seq<u8>>) -> Seq<u8>
    decreases s.len(),
{
    if s.len() == 0 {
        Seq::<u8>::empty()
    } else {
        concat_seqs(s.drop_last()) + s.last()
    }
}

/// The death-predicate digests of the consumed records.
pub open spec fn death_reprs(olds: Seq<RecordV>) -> Seq<Seq<u8>> {
    Seq::new(olds.len(), |i: int| olds[i].death_predicate_repr)
}

/// The birth-predicate digests of the minted records.
pub open spec fn birth_reprs(news: Seq<RecordV>) -> Seq<Seq<u8>> {
    Seq::new(news.len(), |i: int| news[i].birth_predicate_repr)
}

/// The input of the predicate commitment: the death-predicate digests
/// of the old side, then the birth-predicate digests of the new side.
pub open spec fn predicate_comm_input_spec(olds: Seq<RecordV>, news: Seq<RecordV>) -> Seq<u8> {
    concat_seqs(death_reprs(olds)) + concat_seqs(birth_reprs(news))
}

/// What the record minted in output slot `j` must be: owner, flag and
/// payload as supplied, predicate digests of the supplied predicates,
/// the nonce derived from slot index, fresh randomness and the spent
/// serial numbers, the supplied commitment randomness, and a commitment
/// that opens to all of it.
pub open spec fn new_record_spec(
    pp: CommCrhSigV,
    j: int,
    owner: Seq<u8>,
    dummy: bool,
    payload: Seq<u8>,
    birth_vk: Seq<u8>,
    death_vk: Seq<u8>,
    nonce_rand: Seq<u8>,
    joint: Seq<u8>,
    comm_rand: Seq<u8>,
    r: RecordV,
) -> bool {
    &&& r.owner == owner
    &&& r.is_dummy == dummy
    &&& r.payload == payload
    &&& r.birth_predicate_repr == predicate_repr_spec(pp.pred_vk_crh, birth_vk)
    &&& r.death_predicate_repr == predicate_repr_spec(pp.pred_vk_crh, death_vk)
    &&& r.serial_number_nonce == crh_spec(pp.sn_nonce_crh, sn_nonce_input_spec(j, nonce_rand, joint))
    &&& r.commitment_randomness == comm_rand
    &&& record_well_formed(pp.rec_comm, r)
}

/// What the ledger witness of one consumed record must be: the
/// canonical dummy witness for a dummy record, else a position at which
/// the ledger holds the record's commitment.
pub open spec fn witness_ok(w: LedgerWitness, r: RecordV, ledger: crate::ledger::LedgerV) -> bool {
    if r.is_dummy {
        w == LedgerWitness::Dummy
    } else {
        w matches LedgerWitness::Member(k) && 0 <= k < ledger.commitments.len()
            && ledger.commitments[k as int] == r.commitment
    }
}

/// The fresh randomness one transaction construction consumes: one
/// 32-byte block per output slot for the nonce derivation, one per
/// output record commitment, and one for each of the two binding
/// commitments.
pub struct ExecutionEntropy {
    pub sn_randomness: Vec<[u8; 32]>,
    pub record_randomness: Vec<[u8; 32]>,
    pub local_data_rand: [u8; 32],
    pub predicate_rand: [u8; 32],
}

/// The mathematical value of the execution entropy.
pub ghost struct ExecutionEntropyV {
    pub sn_randomness: Seq<Seq<u8>>,
    pub record_randomness: Seq<Seq<u8>>,
    pub local_data_rand: Seq<u8>,
    pub predicate_rand: Seq<u8>,
}

impl View for ExecutionEntropy {
    type V = ExecutionEntropyV;

    open spec fn view(&self) -> ExecutionEntropyV {
        ExecutionEntropyV {
            sn_randomness: blocks_view(self.sn_randomness@),
            record_randomness: blocks_view(self.record_randomness@),
            local_data_rand: self.local_data_rand@,
            predicate_rand: self.predicate_rand@,
        }
    }
}

/// The mathematical value of an execution context.
pub ghost struct ExecuteContextV {
    pub pp: CommCrhSigV,
    pub ledger_digest: u64,
    pub old_records: Seq<RecordV>,
    pub old_address_secret_keys: Seq<AddressSecretKeyV>,
    pub old_witnesses: Seq<LedgerWitness>,
    pub old_serial_numbers: Seq<SigPkV>,
    pub old_randomizers: Seq<Seq<u8>>,
    pub new_records: Seq<RecordV>,
    pub new_sn_nonce_randomness: Seq<Seq<u8>>,
    pub new_commitments: Seq<Seq<u8>>,
    pub predicate_comm: Seq<u8>,
    pub predicate_rand: Seq<u8>,
    pub local_data_comm: Seq<u8>,
    pub local_data_rand: Seq<u8>,
}

/// The ephemeral protocol state between building and proving: consumed
/// records with their witnesses, serial numbers and randomizers, minted
/// records with their commitments, and the two binding commitments with
/// their randomness.  Produced once by the builder and consumed once by
/// the prover; never persisted.
pub struct ExecuteContext {
    pub comm_crh_sig_pp: CommCRHSigPublicParameters,
    pub ledger_digest: u64,
    pub old_records: Vec<DPCRecord>,
    pub old_address_secret_keys: Vec<AddressSecretKey>,
    pub old_witnesses: Vec<LedgerWitness>,
    pub old_serial_numbers: Vec<SignaturePublicKey>,
    pub old_randomizers: Vec<[u8; 32]>,
    pub new_records: Vec<DPCRecord>,
    pub new_sn_nonce_randomness: Vec<[u8; 32]>,
    pub new_commitments: Vec<Vec<u8>>,
    pub predicate_comm: Vec<u8>,
    pub predicate_rand: [u8; 32],
    pub local_data_comm: Vec<u8>,
    pub local_data_rand: [u8; 32],
}

impl View for ExecuteContext {
    type V = ExecuteContextV;

    open spec fn view(&self) -> ExecuteContextV {
        ExecuteContextV {
            pp: self.comm_crh_sig_pp@,
            ledger_digest: self.ledger_digest,
            old_records: records_view(self.old_records@),
            old_address_secret_keys: sks_view(self.old_address_secret_keys@),
            old_witnesses: self.old_witnesses@,
            old_serial_numbers: crate::transaction::sns_view(self.old_serial_numbers@),
            old_randomizers: blocks_view(self.old_randomizers@),
            new_records: records_view(self.new_records@),
            new_sn_nonce_randomness: blocks_view(self.new_sn_nonce_randomness@),
            new_commitments: crate::transaction::cms_view(self.new_commitments@),
            predicate_comm: self.predicate_comm@,
            predicate_rand: self.predicate_rand@,
            local_data_comm: self.local_data_comm@,
            local_data_rand: self.local_data_rand@,
        }
    }
}

/// What the builder guarantees of the context it hands to the prover,
/// as a function of the builder's inputs.
pub open spec fn context_matches(
    ctx: ExecuteContextV,
    pp: CommCrhSigV,
    olds: Seq<RecordV>,
    sks: Seq<AddressSecretKeyV>,
    new_pks: Seq<Seq<u8>>,
    new_flags: Seq<bool>,
    new_payloads: Seq<Seq<u8>>,
    new_birth_vks: Seq<Seq<u8>>,
    new_death_vks: Seq<Seq<u8>>,
    memo: Seq<u8>,
    aux: Seq<u8>,
    ledger: crate::ledger::LedgerV,
    entropy: ExecutionEntropyV,
) -> bool {
    let sns = old_sns_spec(olds, sks);
    let joint = sns_bytes(sns);
    &&& ctx.pp == pp
    &&& ctx.old_records == olds
    &&& ctx.old_address_secret_keys == sks
    &&& ctx.old_serial_numbers == sns
    &&& ctx.old_randomizers == Seq::new(
        olds.len(),
        |i: int| prf_spec(sks[i].sk_prf, olds[i].serial_number_nonce),
    )
    &&& ctx.old_witnesses.len() == olds.len()
    &&& (forall|i: int| 0 <= i < olds.len() ==> witness_ok(ctx.old_witnesses[i], olds[i], ledger))
    &&& ctx.new_records.len() == new_pks.len()
    &&& (forall|j: int|
        0 <= j < new_pks.len() ==> new_record_spec(
            pp,
            j,
            new_pks[j],
            new_flags[j],
            new_payloads[j],
            new_birth_vks[j],
            new_death_vks[j],
            entropy.sn_randomness[j],
            joint,
            entropy.record_randomness[j],
            ctx.new_records[j],
        ))
    &&& ctx.new_sn_nonce_randomness == entropy.sn_randomness
    &&& ctx.new_commitments == Seq::new(new_pks.len(), |j: int| ctx.new_records[j].commitment)
    &&& ctx.predicate_comm == commit_spec(
        pp.pred_vk_comm,
        predicate_comm_input_spec(olds, ctx.new_records),
        entropy.predicate_rand,
    )
    &&& ctx.predicate_rand == entropy.predicate_rand
    &&& ctx.local_data_comm == commit_spec(
        pp.local_data_comm,
        local_data_input_spec(olds, sns, ctx.new_records, memo, aux),
        entropy.local_data_rand,
    )
    &&& ctx.local_data_rand == entropy.local_data_rand
    &&& ctx.ledger_digest == ledger.commitments.len()
}

/// Appends the transcript bytes of one consumed record.
pub fn push_old_record_local(out: &mut Vec<u8>, r: &DPCRecord, sn: &SignaturePublicKey)
    ensures
        final(out)@ == old(out)@ + old_record_local_bytes(r@, sn@),
{
    push_len_prefixed(out, &r.commitment);
    push_len_prefixed(out, &r.address_public_key.public_key);
    if r.is_dummy {
        out.push(1u8);
    } else {
        out.push(0u8);
    }
    push_block(out, &r.payload);
    push_block(out, &r.birth_predicate_repr);
    push_block(out, &r.death_predicate_repr);
    push_block(out, &sn.base);
    push_block(out, &sn.randomizer);
    proof {
        assert(final(out)@ =~= old(out)@ + old_record_local_bytes(r@, sn@));
    }
}

/// Appends the transcript bytes of one minted record.
pub fn push_new_record_local(out: &mut Vec<u8>, r: &DPCRecord)
    ensures
        final(out)@ == old(out)@ + new_record_local_bytes(r@),
{
    push_len_prefixed(out, &r.commitment);
    push_len_prefixed(out, &r.address_public_key.public_key);
    if r.is_dummy {
        out.push(1u8);
    } else {
        out.push(0u8);
    }
    push_block(out, &r.payload);
    push_block(out, &r.birth_predicate_repr);
    push_block(out, &r.death_predicate_repr);
    proof {
        assert(final(out)@ =~= old(out)@ + new_record_local_bytes(r@));
    }
}

/// Copies a vector of records.
pub fn copy_records(v: &Vec<DPCRecord>) -> (out: Vec<DPCRecord>)
    ensures
        records_view(out@) == records_view(v@),
{
    let mut out: Vec<DPCRecord> = Vec::new();
    let mut i: usize = 0;
    while i < v.len()
        invariant
            i <= v@.len(),
            out@.len() == i,
            forall|k: int| 0 <= k < i ==> out@[k]@ == v@[k]@,
        decreases v@.len() - i,
    {
        out.push(copy_record(&v[i]));
        i = i + 1;
    }
    proof {
        assert(records_view(out@) =~= records_view(v@));
    }
    out
}

impl DPC {
    /// Samples the commitment, hash and signature parameters from the
    /// supplied entropy: each scheme's tag is one fresh 32-byte block.
    pub fn generate_comm_crh_sig_parameters(entropy: &SetupEntropy) -> (pp:
        CommCRHSigPublicParameters)
        ensures
            pp@ == (CommCrhSigV {
                addr_comm: entropy.addr_comm@,
                rec_comm: entropy.rec_comm@,
                pred_vk_comm: entropy.pred_vk_comm@,
                local_data_comm: entropy.local_data_comm@,
                sn_nonce_crh: entropy.sn_nonce_crh@,
                pred_vk_crh: entropy.pred_vk_crh@,
                sig: entropy.sig@,
            }),
    {
        CommCRHSigPublicParameters {
            addr_comm_pp: CommitmentParameters { tag: entropy.addr_comm },
            rec_comm_pp: CommitmentParameters { tag: entropy.rec_comm },
            pred_vk_comm_pp: CommitmentParameters { tag: entropy.pred_vk_comm },
            local_data_comm_pp: CommitmentParameters { tag: entropy.local_data_comm },
            sn_nonce_crh_pp: CrhParameters { tag: entropy.sn_nonce_crh },
            pred_vk_crh_pp: CrhParameters { tag: entropy.pred_vk_crh },
            sig_pp: SignatureParameters { tag: entropy.sig },
        }
    }

    /// Sets up the built-in accept-all predicate: a proof-system key
    /// pair and a proof of the blank statement (the shared parameters
    /// alone).
    pub fn generate_pred_nizk_parameters(
        params: &CommCRHSigPublicParameters,
        entropy: &[u8; 32],
    ) -> (pred_pp: PredNIZKParameters)
        ensures
            pred_pp.pk.tag@ == entropy@,
            pred_pp.vk.tag@ == entropy@,
            pred_pp.proof@ == nizk_proof_spec(entropy@, pp_bytes(params@)),
    {
        let (pk, vk) = nizk_setup(entropy);
        let mut blank: Vec<u8> = Vec::new();
        push_pp(&mut blank, params);
        proof {
            assert(blank@ =~= pp_bytes(params@));
        }
        let proof_bytes = nizk_prove(&pk, &blank);
        PredNIZKParameters { pk, vk, proof: proof_bytes }
    }

    /// Sets up the scheme: the shared parameters, the accept-all
    /// predicate, and the key pairs of the two top-level proof systems.
    /// The ledger parameters do not enter the keys; they enter every
    /// core statement at proving and verification time.
    pub fn setup(
        _ledger_pp: &crate::ledger::LedgerParameters,
        entropy: &SetupEntropy,
    ) -> (parameters: PublicParameters)
        ensures
            parameters@.pp == (CommCrhSigV {
                addr_comm: entropy.addr_comm@,
                rec_comm: entropy.rec_comm@,
                pred_vk_comm: entropy.pred_vk_comm@,
                local_data_comm: entropy.local_data_comm@,
                sn_nonce_crh: entropy.sn_nonce_crh@,
                pred_vk_crh: entropy.pred_vk_crh@,
                sig: entropy.sig@,
            }),
            parameters@.pred_nizk_pk == entropy.pred_nizk@,
            parameters@.pred_nizk_vk == entropy.pred_nizk@,
            parameters@.pred_nizk_proof == nizk_proof_spec(
                entropy.pred_nizk@,
                pp_bytes(parameters@.pp),
            ),
            parameters@.core_pk == entropy.core_nizk@,
            parameters@.core_vk == entropy.core_nizk@,
            parameters@.proof_check_pk == entropy.proof_check_nizk@,
            parameters@.proof_check_vk == entropy.proof_check_nizk@,
    {
        let comm_crh_sig_pp = Self::generate_comm_crh_sig_parameters(entropy);
        let pred_nizk_pp = Self::generate_pred_nizk_parameters(
            &comm_crh_sig_pp,
            &entropy.pred_nizk,
        );
        let core_nizk_pp = nizk_setup(&entropy.core_nizk);
        let proof_check_nizk_pp = nizk_setup(&entropy.proof_check_nizk);
        PublicParameters { comm_crh_sig_pp, pred_nizk_pp, core_nizk_pp, proof_check_nizk_pp }
    }

    /// Creates an address key pair from the supplied entropy.  The
    /// public key is the commitment over the secret key's components.
    pub fn create_address(
        parameters: &PublicParameters,
        metadata: &[u8; 32],
        entropy: &AddressEntropy,
    ) -> (pair: AddressPair)
        ensures
            pair.public_key@ == crate::address::address_public_key_spec(
                parameters@.pp.addr_comm,
                parameters@.pp.sig,
                metadata@,
                entropy.sig_seed@,
                entropy.sk_prf@,
                entropy.r_pk@,
            ),
            crate::address::address_pair_well_formed(
                parameters@.pp.addr_comm,
                pair.public_key@,
                pair.secret_key@,
            ),
            pair.secret_key@.metadata == metadata@,
            pair.secret_key@.sk_prf == entropy.sk_prf@,
            pair.secret_key@.sk_sig_seed == entropy.sig_seed@,
            crate::address::address_sk_consistent(parameters@.pp.sig, pair.secret_key@),
    {
        create_address_helper(
            &parameters.comm_crh_sig_pp.addr_comm_pp,
            &parameters.comm_crh_sig_pp.sig_pp,
            metadata,
            entropy,
        )
    }

    /// Derives the serial number of a consumed record: evaluates the
    /// pseudorandom function at the record's nonce under the secret
    /// key's seed, and randomizes the signing public key with the
    /// result.  Deterministic in record and secret key.
    pub fn generate_sn(
        params: &CommCRHSigPublicParameters,
        record: &DPCRecord,
        address_secret_key: &AddressSecretKey,
    ) -> (out: (SignaturePublicKey, [u8; 32]))
        ensures
            out.0@ == serial_number_spec(address_secret_key@, record@.serial_number_nonce),
            out.1@ == prf_spec(address_secret_key@.sk_prf, record@.serial_number_nonce),
    {
        let sn_nonce = slice_to_vec(&record.serial_number_nonce);
        let randomizer = prf_eval(&address_secret_key.sk_prf, &sn_nonce);
        let sn = sig_randomize_public_key(&address_secret_key.pk_sig, &randomizer);
        (sn, randomizer)
    }

    /// Mints an output record: reduces both predicates to their
    /// fixed-size digests, then commits to the ordered fields under the
    /// supplied commitment randomness.  The returned record satisfies
    /// the record invariant: its commitment opens to its own fields.
    pub fn generate_record(
        parameters: &CommCRHSigPublicParameters,
        sn_nonce: &[u8; 32],
        address_public_key: &AddressPublicKey,
        is_dummy: bool,
        payload: &[u8; 32],
        birth_predicate: &DPCPredicate,
        death_predicate: &DPCPredicate,
        randomness: &[u8; 32],
    ) -> (record: DPCRecord)
        ensures
            record@.owner == address_public_key@,
            record@.is_dummy == is_dummy,
            record@.payload == payload@,
            record@.birth_predicate_repr == predicate_repr_spec(
                parameters@.pred_vk_crh,
                birth_predicate@,
            ),
            record@.death_predicate_repr == predicate_repr_spec(
                parameters@.pred_vk_crh,
                death_predicate@,
            ),
            record@.serial_number_nonce == sn_nonce@,
            record@.commitment_randomness == randomness@,
            record_well_formed(parameters@.rec_comm, record@),
    {
        let birth_predicate_repr = birth_predicate.into_compact_repr(&parameters.pred_vk_crh_pp);
        let death_predicate_repr = death_predicate.into_compact_repr(&parameters.pred_vk_crh_pp);
        let mut commitment_input: Vec<u8> = Vec::new();
        push_record_commitment_input(
            &mut commitment_input,
            &address_public_key.public_key,
            is_dummy,
            payload,
            &birth_predicate_repr,
            &death_predicate_repr,
            sn_nonce,
        );
        proof {
            assert(commitment_input@ =~= record_commitment_input(
                address_public_key@,
                is_dummy,
                payload@,
                birth_predicate_repr@,
                death_predicate_repr@,
                sn_nonce@,
            ));
        }
        let commitment = commit(&parameters.rec_comm_pp, &commitment_input, randomness);
        DPCRecord {
            address_public_key: AddressPublicKey {
                public_key: copy_bytes(&address_public_key.public_key),
            },
            is_dummy,
            payload: *payload,
            birth_predicate_repr,
            death_predicate_repr,
            serial_number_nonce: *sn_nonce,
            commitment,
            commitment_randomness: *randomness,
        }
    }
}


impl DPC {
    /// Builds the ephemeral execution context: obtains a ledger witness
    /// and derives the serial number for every consumed record, mints
    /// the output records with nonces bound to the spent serial
    /// numbers, computes the local-data and predicate commitments, and
    /// reads the current ledger digest.  The ledger is never written.
    /// Fails, with the only ledger error, exactly when a non-dummy
    /// consumed record's commitment is not in the ledger.
    pub fn execute_helper(
        parameters: &CommCRHSigPublicParameters,
        old_records: &Vec<DPCRecord>,
        old_address_secret_keys: &Vec<AddressSecretKey>,
        new_address_public_keys: &Vec<AddressPublicKey>,
        new_is_dummy_flags: &Vec<bool>,
        new_payloads: &Vec<[u8; 32]>,
        new_birth_predicates: &Vec<DPCPredicate>,
        new_death_predicates: &Vec<DPCPredicate>,
        memo: &[u8; 32],
        auxiliary: &[u8; 32],
        ledger: &Ledger,
        entropy: &ExecutionEntropy,
    ) -> (out: Result<ExecuteContext, LedgerError>)
        requires
            old_records@.len() == old_address_secret_keys@.len(),
            new_address_public_keys@.len() == new_is_dummy_flags@.len(),
            new_address_public_keys@.len() == new_payloads@.len(),
            new_address_public_keys@.len() == new_birth_predicates@.len(),
            new_address_public_keys@.len() == new_death_predicates@.len(),
            entropy.sn_randomness@.len() == new_address_public_keys@.len(),
            entropy.record_randomness@.len() == new_address_public_keys@.len(),
            new_address_public_keys@.len() < 256,
        ensures
            out matches Ok(ctx) ==> context_matches(
                ctx@,
                parameters@,
                records_view(old_records@),
                sks_view(old_address_secret_keys@),
                pks_view(new_address_public_keys@),
                new_is_dummy_flags@,
                blocks_view(new_payloads@),
                preds_view(new_birth_predicates@),
                preds_view(new_death_predicates@),
                memo@,
                auxiliary@,
                ledger@,
                entropy@,
            ),
            (out is Err) <==> (exists|i: int|
                0 <= i < old_records@.len() && !old_records@[i]@.is_dummy
                    && !ledger@.commitments.contains(old_records@[i]@.commitment)),
            out is Err ==> out == Result::<ExecuteContext, LedgerError>::Err(
                LedgerError::WitnessMissing,
            ),
    {
        let n_in: usize = old_records.len();
        let n_out: usize = new_address_public_keys.len();
        let ghost olds = records_view(old_records@);
        let ghost sks = sks_view(old_address_secret_keys@);
        let ghost snsg = old_sns_spec(olds, sks);

        let mut old_witnesses: Vec<LedgerWitness> = Vec::new();
        let mut old_serial_numbers: Vec<SignaturePublicKey> = Vec::new();
        let mut old_randomizers: Vec<[u8; 32]> = Vec::new();
        let mut joint_serial_numbers: Vec<u8> = Vec::new();

        let mut i: usize = 0;
        proof {
            assert(sns_bytes(snsg.take(0)) =~= Seq::<u8>::empty());
        }
        while i < n_in
            invariant
                i <= n_in,
                n_in == old_records@.len(),
                old_address_secret_keys@.len() == n_in,
                olds == records_view(old_records@),
                sks == sks_view(old_address_secret_keys@),
                snsg == old_sns_spec(olds, sks),
                old_witnesses@.len() == i,
                forall|k: int| 0 <= k < i ==> witness_ok(old_witnesses@[k], olds[k], ledger@),
                old_serial_numbers@.len() == i,
                forall|k: int| 0 <= k < i ==> old_serial_numbers@[k]@ == snsg[k],
                old_randomizers@.len() == i,
                forall|k: int|
                    0 <= k < i ==> old_randomizers@[k]@ == prf_spec(
                        sks[k].sk_prf,
                        olds[k].serial_number_nonce,
                    ),
                joint_serial_numbers@ == sns_bytes(snsg.take(i as int)),
            decreases n_in - i,
        {
            let record = &old_records[i];
            if record.is_dummy {
                old_witnesses.push(LedgerWitness::Dummy);
            } else {
                match ledger.prove_cm(&record.commitment) {
                    Ok(w) => {
                        old_witnesses.push(w);
                    },
                    Err(e) => {
                        proof {
                            assert(!olds[i as int].is_dummy);
                            assert(!ledger@.commitments.contains(olds[i as int].commitment));
                        }
                        return Err(e);
                    },
                }
            }
            let (sn, randomizer) = Self::generate_sn(
                parameters,
                record,
                &old_address_secret_keys[i],
            );
            push_block(&mut joint_serial_numbers, &sn.base);
            push_block(&mut joint_serial_numbers, &sn.randomizer);
            proof {
                assert(sn@ == snsg[i as int]);
                assert(snsg.take(i + 1).drop_last() =~= snsg.take(i as int));
                assert(snsg.take(i + 1).last() == snsg[i as int]);
                assert(joint_serial_numbers@ =~= sns_bytes(snsg.take(i + 1)));
            }
            old_serial_numbers.push(sn);
            old_randomizers.push(randomizer);
            i = i + 1;
        }
        proof {
            assert(snsg.take(n_in as int) =~= snsg);
        }

        let mut new_records: Vec<DPCRecord> = Vec::new();
        let mut new_commitments: Vec<Vec<u8>> = Vec::new();
        let mut new_sn_nonce_randomness: Vec<[u8; 32]> = Vec::new();
        let mut j: usize = 0;
        while j < n_out
            invariant
                j <= n_out,
                n_out == new_address_public_keys@.len(),
                new_is_dummy_flags@.len() == n_out,
                new_payloads@.len() == n_out,
                new_birth_predicates@.len() == n_out,
                new_death_predicates@.len() == n_out,
                entropy.sn_randomness@.len() == n_out,
                entropy.record_randomness@.len() == n_out,
                n_out < 256,
                joint_serial_numbers@ == sns_bytes(snsg),
                new_records@.len() == j,
                new_commitments@.len() == j,
                new_sn_nonce_randomness@.len() == j,
                forall|k: int|
                    0 <= k < j ==> new_record_spec(
                        parameters@,
                        k,
                        new_address_public_keys@[k]@,
                        new_is_dummy_flags@[k],
                        new_payloads@[k]@,
                        new_birth_predicates@[k]@,
                        new_death_predicates@[k]@,
                        entropy.sn_randomness@[k]@,
                        sns_bytes(snsg),
                        entropy.record_randomness@[k]@,
                        new_records@[k]@,
                    ),
                forall|k: int| 0 <= k < j ==> new_commitments@[k]@ == new_records@[k]@.commitment,
                forall|k: int|
                    0 <= k < j ==> new_sn_nonce_randomness@[k]@ == entropy.sn_randomness@[k]@,
            decreases n_out - j,
        {
            let sn_randomness: [u8; 32] = entropy.sn_randomness[j];
            let mut crh_input: Vec<u8> = Vec::new();
            crh_input.push(j as u8);
            push_block(&mut crh_input, &sn_randomness);
            crate::bytes::push_bytes(&mut crh_input, &joint_serial_numbers);
            proof {
                assert(crh_input@ =~= sn_nonce_input_spec(
                    j as int,
                    entropy.sn_randomness@[j as int]@,
                    sns_bytes(snsg),
                ));
            }
            let sn_nonce = crh_eval(&parameters.sn_nonce_crh_pp, &crh_input);
            let payload: [u8; 32] = new_payloads[j];
            let record_randomness: [u8; 32] = entropy.record_randomness[j];
            let record = Self::generate_record(
                parameters,
                &sn_nonce,
                &new_address_public_keys[j],
                new_is_dummy_flags[j],
                &payload,
                &new_birth_predicates[j],
                &new_death_predicates[j],
                &record_randomness,
            );
            new_commitments.push(copy_bytes(&record.commitment));
            new_sn_nonce_randomness.push(sn_randomness);
            new_records.push(record);
            j = j + 1;
        }
        let ghost newsg = records_view(new_records@);

        let mut predicate_input: Vec<u8> = Vec::new();
        let mut i2: usize = 0;
        proof {
            assert(old_records_local_bytes(olds.take(0), snsg.take(0)) =~= Seq::<u8>::empty());
        }
        while i2 < n_in
            invariant
                i2 <= n_in,
                n_in == old_records@.len(),
                olds == records_view(old_records@),
                old_serial_numbers@.len() == n_in,
                forall|k: int| 0 <= k < n_in ==> old_serial_numbers@[k]@ == snsg[k],
                snsg.len() == n_in,
                predicate_input@ == old_records_local_bytes(olds.take(i2 as int), snsg.take(i2 as int)),
            decreases n_in - i2,
        {
            push_old_record_local(&mut predicate_input, &old_records[i2], &old_serial_numbers[i2]);
            proof {
                assert(olds.take(i2 + 1).drop_last() =~= olds.take(i2 as int));
                assert(snsg.take(i2 + 1).drop_last() =~= snsg.take(i2 as int));
                assert(olds.take(i2 + 1).last() == olds[i2 as int]);
                assert(snsg.take(i2 + 1).last() == snsg[i2 as int]);
                assert(predicate_input@ =~= old_records_local_bytes(
                    olds.take(i2 + 1),
                    snsg.take(i2 + 1),
                ));
            }
            i2 = i2 + 1;
        }
        proof {
            assert(olds.take(n_in as int) =~= olds);
            assert(snsg.take(n_in as int) =~= snsg);
        }
        let mut j2: usize = 0;
        proof {
            assert(new_records_local_bytes(newsg.take(0)) =~= Seq::<u8>::empty());
            assert(predicate_input@ =~= old_records_local_bytes(olds, snsg)
                + new_records_local_bytes(newsg.take(0)));
        }
        while j2 < n_out
            invariant
                j2 <= n_out,
                n_out == new_records@.len(),
                newsg == records_view(new_records@),
                predicate_input@ == old_records_local_bytes(olds, snsg)
                    + new_records_local_bytes(newsg.take(j2 as int)),
            decreases n_out - j2,
        {
            push_new_record_local(&mut predicate_input, &new_records[j2]);
            proof {
                assert(newsg.take(j2 + 1).drop_last() =~= newsg.take(j2 as int));
                assert(newsg.take(j2 + 1).last() == newsg[j2 as int]);
                assert(predicate_input@ =~= old_records_local_bytes(olds, snsg)
                    + new_records_local_bytes(newsg.take(j2 + 1)));
            }
            j2 = j2 + 1;
        }
        proof {
            assert(newsg.take(n_out as int) =~= newsg);
        }
        push_block(&mut predicate_input, memo);
        push_block(&mut predicate_input, auxiliary);
        proof {
            assert(predicate_input@ =~= local_data_input_spec(olds, snsg, newsg, memo@, auxiliary@));
        }
        let local_data_comm = commit(
            &parameters.local_data_comm_pp,
            &predicate_input,
            &entropy.local_data_rand,
        );

        let mut pred_comm_input: Vec<u8> = Vec::new();
        let mut i3: usize = 0;
        proof {
            assert(concat_seqs(death_reprs(olds).take(0)) =~= Seq::<u8>::empty());
        }
        while i3 < n_in
            invariant
                i3 <= n_in,
                n_in == old_records@.len(),
                olds == records_view(old_records@),
                pred_comm_input@ == concat_seqs(death_reprs(olds).take(i3 as int)),
            decreases n_in - i3,
        {
            push_block(&mut pred_comm_input, &old_records[i3].death_predicate_repr);
            proof {
                let d = death_reprs(olds);
                assert(d.take(i3 + 1).drop_last() =~= d.take(i3 as int));
                assert(d.take(i3 + 1).last() == d[i3 as int]);
                assert(pred_comm_input@ =~= concat_seqs(d.take(i3 + 1)));
            }
            i3 = i3 + 1;
        }
        proof {
            assert(death_reprs(olds).take(n_in as int) =~= death_reprs(olds));
        }
        let mut j3: usize = 0;
        proof {
            assert(concat_seqs(birth_reprs(newsg).take(0)) =~= Seq::<u8>::empty());
            assert(pred_comm_input@ =~= concat_seqs(death_reprs(olds))
                + concat_seqs(birth_reprs(newsg).take(0)));
        }
        while j3 < n_out
            invariant
                j3 <= n_out,
                n_out == new_records@.len(),
                newsg == records_view(new_records@),
                pred_comm_input@ == concat_seqs(death_reprs(olds))
                    + concat_seqs(birth_reprs(newsg).take(j3 as int)),
            decreases n_out - j3,
        {
            push_block(&mut pred_comm_input, &new_records[j3].birth_predicate_repr);
            proof {
                let b = birth_reprs(newsg);
                assert(b.take(j3 + 1).drop_last() =~= b.take(j3 as int));
                assert(b.take(j3 + 1).last() == b[j3 as int]);
                assert(pred_comm_input@ =~= concat_seqs(death_reprs(olds))
                    + concat_seqs(b.take(j3 + 1)));
            }
            j3 = j3 + 1;
        }
        proof {
            assert(birth_reprs(newsg).take(n_out as int) =~= birth_reprs(newsg));
            assert(pred_comm_input@ =~= predicate_comm_input_spec(olds, newsg));
        }
        let predicate_comm = commit(
            &parameters.pred_vk_comm_pp,
            &pred_comm_input,
            &entropy.predicate_rand,
        );

        let ledger_digest: u64 = ledger.digest();

        let ctx_old_records = copy_records(old_records);
        let mut ctx_sks: Vec<AddressSecretKey> = Vec::new();
        let mut i4: usize = 0;
        while i4 < n_in
            invariant
                i4 <= n_in,
                n_in == old_address_secret_keys@.len(),
                ctx_sks@.len() == i4,
                forall|k: int| 0 <= k < i4 ==> ctx_sks@[k]@ == old_address_secret_keys@[k]@,
            decreases n_in - i4,
        {
            let sk: AddressSecretKey = old_address_secret_keys[i4];
            ctx_sks.push(sk);
            i4 = i4 + 1;
        }
        let ctx = ExecuteContext {
            comm_crh_sig_pp: *parameters,
            ledger_digest,
            old_records: ctx_old_records,
            old_address_secret_keys: ctx_sks,
            old_witnesses,
            old_serial_numbers,
            old_randomizers,
            new_records,
            new_sn_nonce_randomness,
            new_commitments,
            predicate_comm,
            predicate_rand: entropy.predicate_rand,
            local_data_comm,
            local_data_rand: entropy.local_data_rand,
        };
        proof {
            assert(ctx@.old_records =~= olds);
            assert(ctx@.old_address_secret_keys =~= sks);
            assert(ctx@.old_serial_numbers =~= snsg);
            assert(ctx@.old_randomizers =~= Seq::new(
                olds.len(),
                |k: int| prf_spec(sks[k].sk_prf, olds[k].serial_number_nonce),
            ));
            assert(ctx@.new_records =~= newsg);
            assert(ctx@.new_sn_nonce_randomness =~= entropy@.sn_randomness);
            assert(ctx@.new_commitments =~= Seq::new(
                pks_view(new_address_public_keys@).len(),
                |k: int| ctx@.new_records[k].commitment,
            ));
            assert forall|k: int|
                0 <= k < olds.len() && !olds[k].is_dummy implies ledger@.commitments.contains(
                olds[k].commitment,
            ) by {
                assert(witness_ok(old_witnesses@[k], olds[k], ledger@));
                let idx = old_witnesses@[k]->Member_0;
                assert(ledger@.commitments[idx as int] == olds[k].commitment);
            }
            if exists|q: int|
                0 <= q < old_records@.len() && !old_records@[q]@.is_dummy
                    && !ledger@.commitments.contains(old_records@[q]@.commitment) {
                let q = choose|q: int|
                    0 <= q < old_records@.len() && !old_records@[q]@.is_dummy
                        && !ledger@.commitments.contains(old_records@[q]@.commitment);
                assert(olds[q] == old_records@[q]@);
                assert(false);
            }
        }
        Ok(ctx)
    }
}


/// The mathematical value of the local data.
pub ghost struct LocalDataV {
    pub pp: CommCrhSigV,
    pub old_records: Seq<RecordV>,
    pub old_serial_numbers: Seq<SigPkV>,
    pub new_records: Seq<RecordV>,
    pub local_data_comm: Seq<u8>,
    pub local_data_rand: Seq<u8>,
}

/// The public transcript handed to the predicate provers: the consumed
/// records with their serial numbers, the minted records, and the
/// local-data commitment binding them with memorandum and auxiliary
/// input.
pub struct LocalData {
    pub comm_crh_sig_pp: CommCRHSigPublicParameters,
    pub old_records: Vec<DPCRecord>,
    pub old_serial_numbers: Vec<SignaturePublicKey>,
    pub new_records: Vec<DPCRecord>,
    pub local_data_comm: Vec<u8>,
    pub local_data_rand: [u8; 32],
}

impl View for LocalData {
    type V = LocalDataV;

    open spec fn view(&self) -> LocalDataV {
        LocalDataV {
            pp: self.comm_crh_sig_pp@,
            old_records: records_view(self.old_records@),
            old_serial_numbers: sns_view(self.old_serial_numbers@),
            new_records: records_view(self.new_records@),
            local_data_comm: self.local_data_comm@,
            local_data_rand: self.local_data_rand@,
        }
    }
}

/// Copies a vector of signing public keys.
pub fn copy_sns(v: &Vec<SignaturePublicKey>) -> (out: Vec<SignaturePublicKey>)
    ensures
        sns_view(out@) == sns_view(v@),
        out@.len() == v@.len(),
{
    let mut out: Vec<SignaturePublicKey> = Vec::new();
    let mut i: usize = 0;
    while i < v.len()
        invariant
            i <= v@.len(),
            out@.len() == i,
            forall|k: int| 0 <= k < i ==> out@[k]@ == v@[k]@,
        decreases v@.len() - i,
    {
        let pk: SignaturePublicKey = v[i];
        out.push(pk);
        i = i + 1;
    }
    proof {
        assert(sns_view(out@) =~= sns_view(v@));
    }
    out
}

impl ExecuteContext {
    /// Extracts the public transcript the predicate provers see.
    pub fn into_local_data(&self) -> (local_data: LocalData)
        ensures
            local_data@.pp == self@.pp,
            local_data@.old_records == self@.old_records,
            local_data@.old_serial_numbers == self@.old_serial_numbers,
            local_data@.new_records == self@.new_records,
            local_data@.local_data_comm == self@.local_data_comm,
            local_data@.local_data_rand == self@.local_data_rand,
    {
        let local_data = LocalData {
            comm_crh_sig_pp: self.comm_crh_sig_pp,
            old_records: copy_records(&self.old_records),
            old_serial_numbers: copy_sns(&self.old_serial_numbers),
            new_records: copy_records(&self.new_records),
            local_data_comm: copy_bytes(&self.local_data_comm),
            local_data_rand: self.local_data_rand,
        };
        proof {
            assert(local_data@.old_records =~= self@.old_records);
            assert(local_data@.old_serial_numbers =~= self@.old_serial_numbers);
            assert(local_data@.new_records =~= self@.new_records);
        }
        local_data
    }
}

/// A predicate prover: called exactly once per side of one execution
/// with the local data, it returns one verifying-key/proof bundle per
/// record of its side.  The bundles are witness data of the proof-check
/// statement; nothing is assumed about them.
pub trait PredicateProver {
    fn prove_side(&mut self, local_data: &LocalData) -> Vec<PrivatePredInput>;
}

/// The prover of the built-in accept-all predicate: it hands back the
/// pre-computed bundle once per record of its side.
pub struct DummyPredicateProver {
    pub bundle: PrivatePredInput,
    pub count: usize,
}

impl PredicateProver for DummyPredicateProver {
    fn prove_side(&mut self, _local_data: &LocalData) -> (out: Vec<PrivatePredInput>)
        ensures
            out@.len() == old(self).count,
            forall|k: int|
                0 <= k < out@.len() ==> out@[k].vk.tag@ == old(self).bundle.vk.tag@
                    && out@[k].proof@ == old(self).bundle.proof@,
    {
        let mut out: Vec<PrivatePredInput> = Vec::new();
        let mut i: usize = 0;
        while i < self.count
            invariant
                i <= self.count,
                out@.len() == i,
                forall|k: int|
                    0 <= k < i ==> out@[k].vk.tag@ == self.bundle.vk.tag@ && out@[k].proof@
                        == self.bundle.proof@,
            decreases self.count - i,
        {
            out.push(PrivatePredInput { vk: self.bundle.vk, proof: self.bundle.proof });
            i = i + 1;
        }
        out
    }
}

/// The statement the core proof attests: shared parameters, ledger
/// parameters, ledger digest, the spent serial numbers, the minted
/// commitments, the memorandum, and the two binding commitments.
pub open spec fn core_statement_spec(
    pp: CommCrhSigV,
    ledger_params: Seq<u8>,
    digest: u64,
    sns: Seq<SigPkV>,
    cms: Seq<Seq<u8>>,
    memo: Seq<u8>,
    pred_comm: Seq<u8>,
    local_comm: Seq<u8>,
) -> Seq<u8> {
    pp_bytes(pp) + ledger_params + u64_le(digest as nat) + sns_bytes(sns) + cms_bytes(cms)
        + memo + enc_bytes(pred_comm) + enc_bytes(local_comm)
}

/// Builds the core statement.
pub fn build_core_statement(
    pp: &CommCRHSigPublicParameters,
    ledger_params: &LedgerParameters,
    digest: u64,
    sns: &Vec<SignaturePublicKey>,
    cms: &Vec<Vec<u8>>,
    memo: &[u8; 32],
    pred_comm: &Vec<u8>,
    local_comm: &Vec<u8>,
) -> (st: Vec<u8>)
    ensures
        st@ == core_statement_spec(
            pp@,
            ledger_params.tag@,
            digest,
            sns_view(sns@),
            cms_view(cms@),
            memo@,
            pred_comm@,
            local_comm@,
        ),
{
    let mut st: Vec<u8> = Vec::new();
    push_pp(&mut st, pp);
    push_block(&mut st, &ledger_params.tag);
    push_u64_le(&mut st, digest);
    push_sns(&mut st, sns);
    push_cms(&mut st, cms);
    push_block(&mut st, memo);
    push_len_prefixed(&mut st, pred_comm);
    push_len_prefixed(&mut st, local_comm);
    proof {
        assert(st@ =~= core_statement_spec(
            pp@,
            ledger_params.tag@,
            digest,
            sns_view(sns@),
            cms_view(cms@),
            memo@,
            pred_comm@,
            local_comm@,
        ));
    }
    st
}

/// The statement the predicate proof attests: shared parameters and
/// the two binding commitments.
pub open spec fn proof_check_statement_spec(
    pp: CommCrhSigV,
    pred_comm: Seq<u8>,
    local_comm: Seq<u8>,
) -> Seq<u8> {
    pp_bytes(pp) + enc_bytes(pred_comm) + enc_bytes(local_comm)
}

/// Builds the proof-check statement.
pub fn build_proof_check_statement(
    pp: &CommCRHSigPublicParameters,
    pred_comm: &Vec<u8>,
    local_comm: &Vec<u8>,
) -> (st: Vec<u8>)
    ensures
        st@ == proof_check_statement_spec(pp@, pred_comm@, local_comm@),
{
    let mut st: Vec<u8> = Vec::new();
    push_pp(&mut st, pp);
    push_len_prefixed(&mut st, pred_comm);
    push_len_prefixed(&mut st, local_comm);
    proof {
        assert(st@ =~= proof_check_statement_spec(pp@, pred_comm@, local_comm@));
    }
    st
}

/// What one signature of a finished transaction must be: made by the
/// signing key generated from the given seed, randomized with the
/// serial number's randomizer, and binding the signed message.
pub open spec fn signature_entry_ok(
    sig: SigV,
    pp_sig: Seq<u8>,
    sk: AddressSecretKeyV,
    sn: SigPkV,
    msg: Seq<u8>,
) -> bool {
    &&& sig.base == sig_base_spec(pp_sig, sk.sk_sig_seed)
    &&& sig.randomizer == sn.randomizer
    &&& sig.tag == sig_tag_spec(sig_base_spec(pp_sig, sk.sk_sig_seed), msg)
}

/// What a successful execution returns, as a function of its inputs:
/// the minted records, and a transaction whose every field is pinned
/// down.
pub open spec fn execute_ok(
    tx: TransactionV,
    news: Seq<RecordV>,
    params: crate::parameters::PublicParametersV,
    olds: Seq<RecordV>,
    sks: Seq<AddressSecretKeyV>,
    new_pks: Seq<Seq<u8>>,
    new_flags: Seq<bool>,
    new_payloads: Seq<Seq<u8>>,
    new_birth_vks: Seq<Seq<u8>>,
    new_death_vks: Seq<Seq<u8>>,
    memo: Seq<u8>,
    aux: Seq<u8>,
    ledger: LedgerV,
    entropy: ExecutionEntropyV,
) -> bool {
    let sns = old_sns_spec(olds, sks);
    let joint = sns_bytes(sns);
    let msg = signature_message_spec(
        sns,
        tx.new_commitments,
        memo,
        tx.digest,
        tx.core_proof,
        tx.predicate_proof,
    );
    &&& news.len() == new_pks.len()
    &&& (forall|j: int|
        0 <= j < new_pks.len() ==> new_record_spec(
            params.pp,
            j,
            new_pks[j],
            new_flags[j],
            new_payloads[j],
            new_birth_vks[j],
            new_death_vks[j],
            entropy.sn_randomness[j],
            joint,
            entropy.record_randomness[j],
            news[j],
        ))
    &&& tx.old_serial_numbers == sns
    &&& tx.new_commitments == Seq::new(news.len(), |j: int| news[j].commitment)
    &&& tx.memorandum == memo
    &&& tx.digest == ledger.commitments.len()
    &&& tx.predicate_comm == commit_spec(
        params.pp.pred_vk_comm,
        predicate_comm_input_spec(olds, news),
        entropy.predicate_rand,
    )
    &&& tx.local_data_comm == commit_spec(
        params.pp.local_data_comm,
        local_data_input_spec(olds, sns, news, memo, aux),
        entropy.local_data_rand,
    )
    &&& tx.core_proof == nizk_proof_spec(
        params.core_pk,
        core_statement_spec(
            params.pp,
            ledger.parameters,
            tx.digest,
            sns,
            tx.new_commitments,
            memo,
            tx.predicate_comm,
            tx.local_data_comm,
        ),
    )
    &&& tx.predicate_proof == nizk_proof_spec(
        params.proof_check_pk,
        proof_check_statement_spec(params.pp, tx.predicate_comm, tx.local_data_comm),
    )
    &&& tx.signatures.len() == sns.len()
    &&& (forall|i: int|
        0 <= i < sns.len() ==> signature_entry_ok(
            tx.signatures[i],
            params.pp.sig,
            sks[i],
            sns[i],
            msg,
        ))
}

impl DPC {
    /// Builds, proves, signs and assembles a transaction.  The builder
    /// creates the execution context; each predicate prover is invoked
    /// exactly once with the local data; the two top-level proofs are
    /// produced; the signed message (serial numbers, new commitments,
    /// memorandum, digest and both proofs) is signed once per consumed
    /// input and each signature is randomized with the randomizer of
    /// that input's serial number.  No partial transaction is ever
    /// returned: the only failure is a missing ledger witness.
    pub fn execute<PA: PredicateProver, PB: PredicateProver>(
        parameters: &PublicParameters,
        old_records: &Vec<DPCRecord>,
        old_address_secret_keys: &Vec<AddressSecretKey>,
        old_death_pred_proof_generator: &mut PA,
        new_address_public_keys: &Vec<AddressPublicKey>,
        new_is_dummy_flags: &Vec<bool>,
        new_payloads: &Vec<[u8; 32]>,
        new_birth_predicates: &Vec<DPCPredicate>,
        new_death_predicates: &Vec<DPCPredicate>,
        new_birth_pred_proof_generator: &mut PB,
        auxiliary: &[u8; 32],
        memorandum: &[u8; 32],
        ledger: &Ledger,
        entropy: &ExecutionEntropy,
    ) -> (out: Result<(Vec<DPCRecord>, DPCTransaction), LedgerError>)
        requires
            old_records@.len() == old_address_secret_keys@.len(),
            new_address_public_keys@.len() == new_is_dummy_flags@.len(),
            new_address_public_keys@.len() == new_payloads@.len(),
            new_address_public_keys@.len() == new_birth_predicates@.len(),
            new_address_public_keys@.len() == new_death_predicates@.len(),
            entropy.sn_randomness@.len() == new_address_public_keys@.len(),
            entropy.record_randomness@.len() == new_address_public_keys@.len(),
            new_address_public_keys@.len() < 256,
        ensures
            out matches Ok(res) ==> execute_ok(
                res.1@,
                records_view(res.0@),
                parameters@,
                records_view(old_records@),
                sks_view(old_address_secret_keys@),
                pks_view(new_address_public_keys@),
                new_is_dummy_flags@,
                blocks_view(new_payloads@),
                preds_view(new_birth_predicates@),
                preds_view(new_death_predicates@),
                memorandum@,
                auxiliary@,
                ledger@,
                entropy@,
            ),
            (out is Err) <==> (exists|i: int|
                0 <= i < old_records@.len() && !old_records@[i]@.is_dummy
                    && !ledger@.commitments.contains(old_records@[i]@.commitment)),
            out is Err ==> out == Result::<(Vec<DPCRecord>, DPCTransaction), LedgerError>::Err(
                LedgerError::WitnessMissing,
            ),
    {
        let context = match Self::execute_helper(
            &parameters.comm_crh_sig_pp,
            old_records,
            old_address_secret_keys,
            new_address_public_keys,
            new_is_dummy_flags,
            new_payloads,
            new_birth_predicates,
            new_death_predicates,
            memorandum,
            auxiliary,
            ledger,
            entropy,
        ) {
            Ok(context) => context,
            Err(e) => {
                return Err(e);
            },
        };
        let ghost olds = records_view(old_records@);
        let ghost sks = sks_view(old_address_secret_keys@);
        let ghost snsg = old_sns_spec(olds, sks);

        let local_data = context.into_local_data();
        // The bundles are witness data of the proof-check statement;
        // the statement itself covers only the two public commitments.
        let _old_death_pred_vk_and_proofs =
            old_death_pred_proof_generator.prove_side(&local_data);
        let _new_birth_pred_vk_and_proofs =
            new_birth_pred_proof_generator.prove_side(&local_data);

        let core_statement = build_core_statement(
            &parameters.comm_crh_sig_pp,
            ledger.parameters(),
            context.ledger_digest,
            &context.old_serial_numbers,
            &context.new_commitments,
            memorandum,
            &context.predicate_comm,
            &context.local_data_comm,
        );
        let core_proof = nizk_prove(&parameters.core_nizk_pp.0, &core_statement);

        let proof_check_statement = build_proof_check_statement(
            &parameters.comm_crh_sig_pp,
            &context.predicate_comm,
            &context.local_data_comm,
        );
        let predicate_proof = nizk_prove(&parameters.proof_check_nizk_pp.0, &proof_check_statement);

        let signature_message = build_signature_message(
            &context.old_serial_numbers,
            &context.new_commitments,
            memorandum,
            context.ledger_digest,
            &core_proof,
            &predicate_proof,
        );

        let n_in: usize = context.old_address_secret_keys.len();
        proof {
            assert(context_matches(
                context@,
                parameters.comm_crh_sig_pp@,
                olds,
                sks,
                pks_view(new_address_public_keys@),
                new_is_dummy_flags@,
                blocks_view(new_payloads@),
                preds_view(new_birth_predicates@),
                preds_view(new_death_predicates@),
                memorandum@,
                auxiliary@,
                ledger@,
                entropy@,
            ));
            assert(context@.old_address_secret_keys == sks);
            assert(n_in == sks.len());
            assert(olds.len() == old_records@.len());
            assert(sks.len() == old_address_secret_keys@.len());
            assert(olds.len() == n_in);
            assert(snsg.len() == n_in);
            assert(context@.old_randomizers.len() == olds.len());
            assert forall|k: int| 0 <= k < n_in implies context.old_address_secret_keys@[k]@
                == sks[k] by {
                assert(context@.old_address_secret_keys[k] == sks[k]);
            }
            assert forall|k: int| 0 <= k < n_in implies context.old_randomizers@[k]@
                == snsg[k].randomizer by {
                assert(context@.old_randomizers[k] == prf_spec(
                    sks[k].sk_prf,
                    olds[k].serial_number_nonce,
                ));
            }
        }
        let mut signatures: Vec<Signature> = Vec::new();
        let mut i: usize = 0;
        while i < n_in
            invariant
                i <= n_in,
                n_in == context.old_address_secret_keys@.len(),
                sks.len() == n_in,
                snsg.len() == n_in,
                forall|k: int|
                    0 <= k < n_in ==> context.old_address_secret_keys@[k]@ == sks[k],
                n_in == context.old_randomizers@.len(),
                forall|k: int|
                    0 <= k < n_in ==> context.old_randomizers@[k]@ == snsg[k].randomizer,
                signatures@.len() == i,
                forall|k: int|
                    0 <= k < i ==> signature_entry_ok(
                        signatures@[k]@,
                        parameters@.pp.sig,
                        sks[k],
                        snsg[k],
                        signature_message@,
                    ),
            decreases n_in - i,
        {
            let sk_sig = &context.old_address_secret_keys[i].sk_sig;
            proof {
                assert(context.old_address_secret_keys@[i as int]@ == sks[i as int]);
            }
            let signature = sig_sign(
                &parameters.comm_crh_sig_pp.sig_pp,
                sk_sig,
                &signature_message,
            );
            let randomizer: [u8; 32] = context.old_randomizers[i];
            let randomized_signature = sig_randomize_signature(&signature, &randomizer);
            proof {
                assert(signature_entry_ok(
                    randomized_signature@,
                    parameters@.pp.sig,
                    sks[i as int],
                    snsg[i as int],
                    signature_message@,
                ));
            }
            signatures.push(randomized_signature);
            i = i + 1;
        }

        let transaction = DPCTransaction::new(
            context.old_serial_numbers,
            context.new_commitments,
            *memorandum,
            context.ledger_digest,
            core_proof,
            predicate_proof,
            context.predicate_comm,
            context.local_data_comm,
            signatures,
        );
        proof {
            assert(transaction@.old_serial_numbers =~= snsg);
        }
        Ok((context.new_records, transaction))
    }
}


/// Whether `sig` is a valid signature on `msg` under the serial number
/// `pk` taken as a randomized public key.
pub open spec fn sig_valid_v(pk: SigPkV, msg: Seq<u8>, sig: SigV) -> bool {
    &&& sig.base == pk.base
    &&& sig.randomizer == pk.randomizer
    &&& sig.tag == sig_tag_spec(sig.base, msg)
}

/// Check 1: no spent serial number of the transaction is already in
/// the ledger.
pub open spec fn check_no_spent_spec(tx: TransactionV, ledger: LedgerV) -> bool {
    forall|i: int|
        0 <= i < tx.old_serial_numbers.len() ==> !ledger.serial_numbers.contains(
            tx.old_serial_numbers[i],
        )
}

/// Check 2: the transaction's own serial numbers are pairwise
/// distinct.
pub open spec fn check_distinct_spec(tx: TransactionV) -> bool {
    pairwise_distinct(tx.old_serial_numbers, tx.old_serial_numbers.len() as int)
}

/// The serial numbers with index below `i` differ from every other
/// serial number.
pub open spec fn pairwise_distinct(sns: Seq<SigPkV>, i: int) -> bool {
    forall|a: int, b: int|
        0 <= a < i && 0 <= b < sns.len() && a != b ==> sns[a] != sns[b]
}

/// The serial number at `i` differs from every serial number with
/// index below `j` (other than itself).
pub open spec fn row_distinct(sns: Seq<SigPkV>, i: int, j: int) -> bool {
    forall|b: int| 0 <= b < j && b != i ==> sns[i] != sns[b]
}

/// Check 3: the embedded ledger digest is one the ledger validates.
pub open spec fn check_digest_spec(tx: TransactionV, ledger: LedgerV) -> bool {
    ledger.digests.contains(tx.digest)
}

/// Check 4: the core proof verifies against the transaction's public
/// data and the ledger parameters.
pub open spec fn check_core_proof_spec(
    params: crate::parameters::PublicParametersV,
    tx: TransactionV,
    ledger: LedgerV,
) -> bool {
    tx.core_proof == nizk_proof_spec(
        params.core_vk,
        core_statement_spec(
            params.pp,
            ledger.parameters,
            tx.digest,
            tx.old_serial_numbers,
            tx.new_commitments,
            tx.memorandum,
            tx.predicate_comm,
            tx.local_data_comm,
        ),
    )
}

/// Check 5: the predicate proof verifies against the two binding
/// commitments.
pub open spec fn check_predicate_proof_spec(
    params: crate::parameters::PublicParametersV,
    tx: TransactionV,
) -> bool {
    tx.predicate_proof == nizk_proof_spec(
        params.proof_check_vk,
        proof_check_statement_spec(params.pp, tx.predicate_comm, tx.local_data_comm),
    )
}

/// Check 6: the transaction carries one signature per consumed input,
/// and each verifies against the signed message under the input's
/// serial number.
pub open spec fn check_signatures_spec(tx: TransactionV) -> bool {
    let msg = signature_message_spec(
        tx.old_serial_numbers,
        tx.new_commitments,
        tx.memorandum,
        tx.digest,
        tx.core_proof,
        tx.predicate_proof,
    );
    &&& tx.signatures.len() == tx.old_serial_numbers.len()
    &&& (forall|i: int|
        0 <= i < tx.old_serial_numbers.len() ==> sig_valid_v(
            tx.old_serial_numbers[i],
            msg,
            tx.signatures[i],
        ))
}

/// Whether the verifier accepts: the conjunction of all six checks.
pub open spec fn verify_spec(
    params: crate::parameters::PublicParametersV,
    tx: TransactionV,
    ledger: LedgerV,
) -> bool {
    &&& check_no_spent_spec(tx, ledger)
    &&& check_distinct_spec(tx)
    &&& check_digest_spec(tx, ledger)
    &&& check_core_proof_spec(params, tx, ledger)
    &&& check_predicate_proof_spec(params, tx)
    &&& check_signatures_spec(tx)
}

/// The outcome of each of the verifier's six checks.  The verifier
/// accepts exactly when all six hold; keeping them apart leaves every
/// failing check individually diagnosable.
pub struct VerificationChecks {
    pub no_spent_serial_numbers: bool,
    pub distinct_serial_numbers: bool,
    pub valid_digest: bool,
    pub core_proof_valid: bool,
    pub predicate_proof_valid: bool,
    pub signatures_valid: bool,
}

/// Whether two serial numbers are equal.
pub fn sn_eq(a: &SignaturePublicKey, b: &SignaturePublicKey) -> (r: bool)
    ensures
        r == (a@ == b@),
{
    let base_eq = crate::bytes::block_eq(&a.base, &b.base);
    let rand_eq = crate::bytes::block_eq(&a.randomizer, &b.randomizer);
    base_eq && rand_eq
}

impl DPC {
    /// Runs the verifier's six checks, without short-circuiting, and
    /// reports each outcome.
    pub fn verify_checks(
        parameters: &PublicParameters,
        transaction: &DPCTransaction,
        ledger: &Ledger,
    ) -> (checks: VerificationChecks)
        ensures
            checks.no_spent_serial_numbers == check_no_spent_spec(transaction@, ledger@),
            checks.distinct_serial_numbers == check_distinct_spec(transaction@),
            checks.valid_digest == check_digest_spec(transaction@, ledger@),
            checks.core_proof_valid == check_core_proof_spec(parameters@, transaction@, ledger@),
            checks.predicate_proof_valid == check_predicate_proof_spec(parameters@, transaction@),
            checks.signatures_valid == check_signatures_spec(transaction@),
    {
        let n: usize = transaction.old_serial_numbers.len();
        let ghost snsg = transaction@.old_serial_numbers;

        let mut no_spent_serial_numbers = true;
        let mut i: usize = 0;
        while i < n
            invariant
                i <= n,
                n == transaction.old_serial_numbers@.len(),
                snsg == transaction@.old_serial_numbers,
                no_spent_serial_numbers == (forall|k: int|
                    0 <= k < i ==> !ledger@.serial_numbers.contains(snsg[k])),
            decreases n - i,
        {
            let present = ledger.contains_sn(&transaction.old_serial_numbers[i]);
            proof {
                assert(snsg[i as int] == transaction.old_serial_numbers@[i as int]@);
            }
            let keep = no_spent_serial_numbers && !present;
            proof {
                if !keep {
                    if no_spent_serial_numbers {
                        assert(ledger@.serial_numbers.contains(snsg[i as int]));
                        assert(!(forall|k: int|
                            0 <= k < i + 1 ==> !ledger@.serial_numbers.contains(snsg[k])));
                    } else {
                        let k0 = choose|k: int|
                            0 <= k < i && ledger@.serial_numbers.contains(snsg[k]);
                        assert(0 <= k0 < i + 1 && ledger@.serial_numbers.contains(snsg[k0]));
                        assert(!(forall|k: int|
                            0 <= k < i + 1 ==> !ledger@.serial_numbers.contains(snsg[k])));
                    }
                }
            }
            no_spent_serial_numbers = keep;
            i = i + 1;
        }

        let mut distinct_serial_numbers = true;
        let mut a: usize = 0;
        while a < n
            invariant
                a <= n,
                n == transaction.old_serial_numbers@.len(),
                snsg == transaction@.old_serial_numbers,
                distinct_serial_numbers == pairwise_distinct(snsg, a as int),
            decreases n - a,
        {
            let mut b: usize = 0;
            while b < n
                invariant
                    b <= n,
                    a < n,
                    n == transaction.old_serial_numbers@.len(),
                    snsg == transaction@.old_serial_numbers,
                    distinct_serial_numbers == (pairwise_distinct(snsg, a as int)
                        && row_distinct(snsg, a as int, b as int)),
                decreases n - b,
            {
                if a != b {
                    let same = sn_eq(
                        &transaction.old_serial_numbers[a],
                        &transaction.old_serial_numbers[b],
                    );
                    proof {
                        assert(snsg[a as int] == transaction.old_serial_numbers@[a as int]@);
                        assert(snsg[b as int] == transaction.old_serial_numbers@[b as int]@);
                    }
                    let keep = distinct_serial_numbers && !same;
                    proof {
                        if keep {
                            assert forall|x: int|
                                0 <= x < b + 1 && x != a implies snsg[a as int] != snsg[x] by {
                                if x < b {
                                    assert(row_distinct(snsg, a as int, b as int));
                                }
                            }
                            assert(row_distinct(snsg, a as int, b + 1));
                        } else {
                            if distinct_serial_numbers {
                                if same {
                                    assert(snsg[a as int] == snsg[b as int]);
                                    assert(!(pairwise_distinct(snsg, a as int) && row_distinct(
                                        snsg,
                                        a as int,
                                        b + 1,
                                    )));
                                }
                            } else {
                                if pairwise_distinct(snsg, a as int) && row_distinct(
                                    snsg,
                                    a as int,
                                    b + 1,
                                ) {
                                    assert forall|x: int|
                                        0 <= x < b && x != a implies snsg[a as int]
                                        != snsg[x] by {
                                        assert(row_distinct(snsg, a as int, b + 1));
                                    }
                                    assert(row_distinct(snsg, a as int, b as int));
                                    assert(false);
                                }
                            }
                        }
                    }
                    distinct_serial_numbers = keep;
                } else {
                    proof {
                        assert(row_distinct(snsg, a as int, b + 1) == row_distinct(
                            snsg,
                            a as int,
                            b as int,
                        )) by {
                            if row_distinct(snsg, a as int, b as int) {
                                assert forall|x: int|
                                    0 <= x < b + 1 && x != a implies snsg[a as int]
                                    != snsg[x] by {}
                            }
                        }
                    }
                }
                b = b + 1;
            }
            proof {
                assert(pairwise_distinct(snsg, a + 1) == (pairwise_distinct(snsg, a as int)
                    && row_distinct(snsg, a as int, n as int))) by {
                    if pairwise_distinct(snsg, a as int) && row_distinct(
                        snsg,
                        a as int,
                        n as int,
                    ) {
                        assert forall|x: int, y: int|
                            0 <= x < a + 1 && 0 <= y < snsg.len() && x != y implies snsg[x]
                            != snsg[y] by {
                            if x < a {
                            } else {
                                assert(snsg[a as int] != snsg[y]);
                            }
                        }
                    }
                }
            }
            a = a + 1;
        }

        let valid_digest = ledger.validate_digest(transaction.digest);

        let core_statement = build_core_statement(
            &parameters.comm_crh_sig_pp,
            ledger.parameters(),
            transaction.digest,
            &transaction.old_serial_numbers,
            &transaction.new_commitments,
            &transaction.memorandum,
            &transaction.predicate_comm,
            &transaction.local_data_comm,
        );
        let core_proof_valid = nizk_verify(
            &parameters.core_nizk_pp.1,
            &core_statement,
            &transaction.core_proof,
        );

        let proof_check_statement = build_proof_check_statement(
            &parameters.comm_crh_sig_pp,
            &transaction.predicate_comm,
            &transaction.local_data_comm,
        );
        let predicate_proof_valid = nizk_verify(
            &parameters.proof_check_nizk_pp.1,
            &proof_check_statement,
            &transaction.predicate_proof,
        );

        let signature_message = build_signature_message(
            &transaction.old_serial_numbers,
            &transaction.new_commitments,
            &transaction.memorandum,
            transaction.digest,
            &transaction.core_proof,
            &transaction.predicate_proof,
        );
        let mut signatures_valid = transaction.signatures.len() == n;
        let mut s: usize = 0;
        while s < n
            invariant
                s <= n,
                n == transaction.old_serial_numbers@.len(),
                snsg == transaction@.old_serial_numbers,
                signature_message@ == signature_message_spec(
                    snsg,
                    transaction@.new_commitments,
                    transaction@.memorandum,
                    transaction@.digest,
                    transaction@.core_proof,
                    transaction@.predicate_proof,
                ),
                signatures_valid == (transaction@.signatures.len() == n
                    && (forall|k: int|
                    0 <= k < s ==> sig_valid_v(
                        snsg[k],
                        signature_message@,
                        transaction@.signatures[k],
                    ))),
            decreases n - s,
        {
            if s < transaction.signatures.len() {
                let ok = sig_verify(
                    &transaction.old_serial_numbers[s],
                    &signature_message,
                    &transaction.signatures[s],
                );
                proof {
                    assert(sig_verify_spec(
                        transaction.old_serial_numbers@[s as int],
                        signature_message@,
                        transaction.signatures@[s as int],
                    ) == sig_valid_v(
                        snsg[s as int],
                        signature_message@,
                        transaction@.signatures[s as int],
                    ));
                }
                signatures_valid = signatures_valid && ok;
            } else {
                signatures_valid = false;
            }
            s = s + 1;
        }

        VerificationChecks {
            no_spent_serial_numbers,
            distinct_serial_numbers,
            valid_digest,
            core_proof_valid,
            predicate_proof_valid,
            signatures_valid,
        }
    }

    /// Verifies a transaction against the ledger: all six checks are
    /// run, none short-circuits, and the verifier accepts exactly when
    /// every check holds.  Rejection is an ordinary outcome, not an
    /// error; verification never changes the ledger and may be
    /// repeated freely.
    pub fn verify(
        parameters: &PublicParameters,
        transaction: &DPCTransaction,
        ledger: &Ledger,
    ) -> (valid: bool)
        ensures
            valid == verify_spec(parameters@, transaction@, ledger@),
    {
        let checks = Self::verify_checks(parameters, transaction, ledger);
        checks.no_spent_serial_numbers && checks.distinct_serial_numbers && checks.valid_digest
            && checks.core_proof_valid && checks.predicate_proof_valid
            && checks.signatures_valid
    }
}

} // verus!
