//! Records: the owned, spendable, shielded units of the scheme.
//!
//! A record binds its owner, dummy flag, payload, predicate digests and
//! serial-number nonce under one commitment; the commitment and its
//! opening randomness travel with the record.

use vstd::prelude::*;
use crate::address::AddressPublicKey;
use crate::bytes::enc_bytes;
use crate::bytes::push_block;
use crate::bytes::push_len_prefixed;
use crate::bytes::read_u64_le;
use crate::bytes::lemma_pow256_8;
use crate::bytes::u64_le;
use crate::bytes::read_block;
use crate::bytes::read_bytes;
use crate::bytes::lemma_le_chunk;
use crate::bytes::lemma_concat_split;
use crate::bytes::lemma_le_bytes_injective;
use crate::bytes::lemma_nat_le_bytes_len;

verus! {

/// The mathematical value of a record.
pub ghost struct RecordV {
    pub owner: Seq<u8>,
    pub is_dummy: bool,
    pub payload: Seq<u8>,
    pub birth_predicate_repr: Seq<u8>,
    pub death_predicate_repr: Seq<u8>,
    pub serial_number_nonce: Seq<u8>,
    pub commitment: Seq<u8>,
    pub commitment_randomness: Seq<u8>,
}

/// A record.  The commitment field commits to all preceding fields
/// under the commitment randomness.
pub struct DPCRecord {
    pub address_public_key: AddressPublicKey,
    pub is_dummy: bool,
    pub payload: [u8; 32],
    pub birth_predicate_repr: [u8; 32],
    pub death_predicate_repr: [u8; 32],
    pub serial_number_nonce: [u8; 32],
    pub commitment: Vec<u8>,
    pub commitment_randomness: [u8; 32],
}

impl View for DPCRecord {
    type V = RecordV;

    open spec fn view(&self) -> RecordV {
        RecordV {
            owner: self.address_public_key@,
            is_dummy: self.is_dummy,
            payload: self.payload@,
            birth_predicate_repr: self.birth_predicate_repr@,
            death_predicate_repr: self.death_predicate_repr@,
            serial_number_nonce: self.serial_number_nonce@,
            commitment: self.commitment@,
            commitment_randomness: self.commitment_randomness@,
        }
    }
}

/// The byte of a flag.
pub open spec fn bool_byte(b: bool) -> u8 {
    if b {
        1u8
    } else {
        0u8
    }
}

/// The input of the record commitment: owner, dummy flag, payload and
/// predicate digests, then the serial-number nonce, in fixed order.
/// The owner key is variable-width and is written behind its length.
pub open spec fn record_commitment_input(
    owner: Seq<u8>,
    is_dummy: bool,
    payload: Seq<u8>,
    birth_predicate_repr: Seq<u8>,
    death_predicate_repr: Seq<u8>,
    serial_number_nonce: Seq<u8>,
) -> Seq<u8> {
    enc_bytes(owner) + seq![bool_byte(is_dummy)] + payload + birth_predicate_repr
        + death_predicate_repr + serial_number_nonce
}

/// Whether a record's commitment opens, under the record commitment
/// parameters with tag `rec_comm_tag`, to the record's own fields with
/// the record's own randomness: the invariant every record built by the
/// record factory satisfies.
pub open spec fn record_well_formed(rec_comm_tag: Seq<u8>, r: RecordV) -> bool {
    r.commitment == crate::primitives::commit_spec(
        rec_comm_tag,
        record_commitment_input(
            r.owner,
            r.is_dummy,
            r.payload,
            r.birth_predicate_repr,
            r.death_predicate_repr,
            r.serial_number_nonce,
        ),
        r.commitment_randomness,
    )
}

/// Appends the commitment input of a record.
pub fn push_record_commitment_input(
    out: &mut Vec<u8>,
    owner: &Vec<u8>,
    is_dummy: bool,
    payload: &[u8; 32],
    birth_predicate_repr: &[u8; 32],
    death_predicate_repr: &[u8; 32],
    serial_number_nonce: &[u8; 32],
)
    ensures
        final(out)@ == old(out)@ + record_commitment_input(
            owner@,
            is_dummy,
            payload@,
            birth_predicate_repr@,
            death_predicate_repr@,
            serial_number_nonce@,
        ),
{
    push_len_prefixed(out, owner);
    if is_dummy {
        out.push(1u8);
    } else {
        out.push(0u8);
    }
    push_block(out, payload);
    push_block(out, birth_predicate_repr);
    push_block(out, death_predicate_repr);
    push_block(out, serial_number_nonce);
    proof {
        assert(final(out)@ =~= old(out)@ + record_commitment_input(
            owner@,
            is_dummy,
            payload@,
            birth_predicate_repr@,
            death_predicate_repr@,
            serial_number_nonce@,
        ));
    }
}

/// The wire encoding of a record: the commitment input, then the
/// commitment behind its length, then the opening randomness.
pub open spec fn record_bytes_spec(r: RecordV) -> Seq<u8> {
    record_commitment_input(
        r.owner,
        r.is_dummy,
        r.payload,
        r.birth_predicate_repr,
        r.death_predicate_repr,
        r.serial_number_nonce,
    ) + enc_bytes(r.commitment) + r.commitment_randomness
}

impl DPCRecord {
    /// Serializes the record in the canonical order.
    pub fn to_bytes(&self) -> (v: Vec<u8>)
        ensures
            v@ == record_bytes_spec(self@),
    {
        let mut v: Vec<u8> = Vec::new();
        push_record_commitment_input(
            &mut v,
            &self.address_public_key.public_key,
            self.is_dummy,
            &self.payload,
            &self.birth_predicate_repr,
            &self.death_predicate_repr,
            &self.serial_number_nonce,
        );
        push_len_prefixed(&mut v, &self.commitment);
        push_block(&mut v, &self.commitment_randomness);
        proof {
            assert(v@ =~= record_bytes_spec(self@));
        }
        v
    }
}

impl DPCRecord {
    /// Parses a record back from its wire encoding.  Parsing succeeds
    /// on every encoding of a record of the fixed widths, and a
    /// successful parse re-serializes to exactly the input; with the
    /// injectivity of the encoding, decoding a serialized record
    /// yields that record.
    #[verifier::rlimit(80)]
    pub fn from_bytes(v: &Vec<u8>) -> (out: Option<DPCRecord>)
        ensures
            out matches Some(r) ==> record_widths_ok(r@) && v@ == record_bytes_spec(r@),
            (exists|r0: RecordV| record_widths_ok(r0) && v@ == record_bytes_spec(r0)) ==> out
                is Some,
    {
        let ghost encodes_record = exists|r0: RecordV|
            record_widths_ok(r0) && v@ == record_bytes_spec(r0);
        let ghost rw = choose|r0: RecordV| record_widths_ok(r0) && v@ == record_bytes_spec(r0);
        proof {
            if encodes_record {
                lemma_record_bytes_layout(rw, v@);
            }
        }
        let n: usize = v.len();
        if n < 177 {
            proof {
                if encodes_record {
                    assert(v@.len() >= 177);
                }
            }
            return None;
        }
        let olen64: u64 = crate::bytes::read_u64_le(v, 0);
        proof {
            if encodes_record {
                assert(v@.subrange(0, 8) == u64_le(rw.owner.len()));
                lemma_pow256_8();
                crate::bytes::lemma_le_round_trip(rw.owner.len(), 8);
                vstd::arithmetic::div_mod::lemma_small_mod(
                    rw.owner.len(),
                    0x1_0000_0000_0000_0000,
                );
                assert(olen64 == rw.owner.len());
            }
        }
        if olen64 > (n - 177) as u64 {
            proof {
                if encodes_record {
                    assert(rw.owner.len() + rw.commitment.len() + 177 == n);
                    assert(olen64 <= n - 177);
                }
            }
            return None;
        }
        let olen: usize = olen64 as usize;
        let p: usize = 8 + olen;
        let flag: u8 = v[p];
        if flag > 1 {
            proof {
                if encodes_record {
                    assert(v@[8 + rw.owner.len() as int] == bool_byte(rw.is_dummy));
                }
            }
            return None;
        }
        let payload = read_block(v, p + 1);
        let birth_predicate_repr = read_block(v, p + 33);
        let death_predicate_repr = read_block(v, p + 65);
        let serial_number_nonce = read_block(v, p + 97);
        let q0: usize = p + 129;
        let clen64: u64 = crate::bytes::read_u64_le(v, q0);
        let clen: usize = n - q0 - 40;
        proof {
            if encodes_record {
                assert(v@.subrange(137 + rw.owner.len() as int, 145 + rw.owner.len() as int)
                    == u64_le(rw.commitment.len()));
                lemma_pow256_8();
                crate::bytes::lemma_le_round_trip(rw.commitment.len(), 8);
                vstd::arithmetic::div_mod::lemma_small_mod(
                    rw.commitment.len(),
                    0x1_0000_0000_0000_0000,
                );
                assert(clen64 == rw.commitment.len());
                assert(clen == rw.commitment.len());
            }
        }
        if clen64 != clen as u64 {
            return None;
        }
        let owner = read_bytes(v, 8, olen);
        let commitment = read_bytes(v, q0 + 8, clen);
        let commitment_randomness = read_block(v, q0 + 8 + clen);
        let record = DPCRecord {
            address_public_key: crate::address::AddressPublicKey { public_key: owner },
            is_dummy: flag == 1,
            payload,
            birth_predicate_repr,
            death_predicate_repr,
            serial_number_nonce,
            commitment,
            commitment_randomness,
        };
        proof {
            let pi = p as int;
            let qi = q0 as int;
            let ni = n as int;
            lemma_le_chunk(v@.subrange(0, 8));
            lemma_le_chunk(v@.subrange(qi, qi + 8));
            assert(u64_le(record@.owner.len()) == v@.subrange(0, 8));
            assert(u64_le(record@.commitment.len()) == v@.subrange(qi, qi + 8));
            assert(seq![bool_byte(record@.is_dummy)] =~= v@.subrange(pi, pi + 1));
            assert(record_bytes_spec(record@) =~= v@.subrange(0, 8) + v@.subrange(8, pi)
                + v@.subrange(pi, pi + 1) + v@.subrange(pi + 1, pi + 33)
                + v@.subrange(pi + 33, pi + 65) + v@.subrange(pi + 65, pi + 97)
                + v@.subrange(pi + 97, pi + 129) + v@.subrange(qi, qi + 8)
                + v@.subrange(qi + 8, ni - 32) + v@.subrange(ni - 32, ni));
            assert(v@ =~= v@.subrange(0, 8) + v@.subrange(8, pi) + v@.subrange(pi, pi + 1)
                + v@.subrange(pi + 1, pi + 33) + v@.subrange(pi + 33, pi + 65)
                + v@.subrange(pi + 65, pi + 97) + v@.subrange(pi + 97, pi + 129)
                + v@.subrange(qi, qi + 8) + v@.subrange(qi + 8, ni - 32)
                + v@.subrange(ni - 32, ni));
            assert(record@.owner.len() < 0x1_0000_0000_0000_0000);
            assert(record@.commitment.len() == clen);
            assert(clen as u64 == clen);
            assert(record@.commitment.len() < 0x1_0000_0000_0000_0000);
            assert(record_widths_ok(record@));
        }
        Some(record)
    }
}


/// Where a byte string is the encoding of a record of the fixed
/// widths, each component sits at its fixed place.
#[verifier::rlimit(60)]
proof fn lemma_record_bytes_layout(r: RecordV, v: Seq<u8>)
    requires
        record_widths_ok(r),
        v == record_bytes_spec(r),
    ensures
        v.len() == r.owner.len() + r.commitment.len() + 177,
        v.subrange(0, 8) == u64_le(r.owner.len()),
        v.subrange(8, 8 + r.owner.len() as int) == r.owner,
        v[8 + r.owner.len() as int] == bool_byte(r.is_dummy),
        v.subrange(9 + r.owner.len() as int, 41 + r.owner.len() as int) == r.payload,
        v.subrange(41 + r.owner.len() as int, 73 + r.owner.len() as int)
            == r.birth_predicate_repr,
        v.subrange(73 + r.owner.len() as int, 105 + r.owner.len() as int)
            == r.death_predicate_repr,
        v.subrange(105 + r.owner.len() as int, 137 + r.owner.len() as int)
            == r.serial_number_nonce,
        v.subrange(137 + r.owner.len() as int, 145 + r.owner.len() as int)
            == u64_le(r.commitment.len()),
        v.subrange(
            145 + r.owner.len() as int,
            145 + r.owner.len() as int + r.commitment.len() as int,
        ) == r.commitment,
        v.subrange(v.len() - 32, v.len() as int) == r.commitment_randomness,
{
    let ol = r.owner.len() as int;
    let cl = r.commitment.len() as int;
    lemma_nat_le_bytes_len(r.owner.len(), 8);
    lemma_nat_le_bytes_len(r.commitment.len(), 8);
    assert(v =~= u64_le(r.owner.len()) + r.owner + seq![bool_byte(r.is_dummy)] + r.payload
        + r.birth_predicate_repr + r.death_predicate_repr + r.serial_number_nonce
        + u64_le(r.commitment.len()) + r.commitment + r.commitment_randomness);
    assert(v.subrange(0, 8) =~= u64_le(r.owner.len()));
    assert(v.subrange(8, 8 + ol) =~= r.owner);
    assert(v.subrange(9 + ol, 41 + ol) =~= r.payload);
    assert(v.subrange(41 + ol, 73 + ol) =~= r.birth_predicate_repr);
    assert(v.subrange(73 + ol, 105 + ol) =~= r.death_predicate_repr);
    assert(v.subrange(105 + ol, 137 + ol) =~= r.serial_number_nonce);
    assert(v.subrange(137 + ol, 145 + ol) =~= u64_le(r.commitment.len()));
    assert(v.subrange(145 + ol, 145 + ol + cl) =~= r.commitment);
    assert(v.subrange(v.len() - 32, v.len() as int) =~= r.commitment_randomness);
}

/// Whether a record value has the fixed component widths the scheme
/// uses.
pub open spec fn record_widths_ok(r: RecordV) -> bool {
    &&& r.payload.len() == 32
    &&& r.birth_predicate_repr.len() == 32
    &&& r.death_predicate_repr.len() == 32
    &&& r.serial_number_nonce.len() == 32
    &&& r.commitment_randomness.len() == 32
    &&& r.owner.len() < 0x1_0000_0000_0000_0000
    &&& r.commitment.len() < 0x1_0000_0000_0000_0000
}

/// The wire encoding is injective: two records of the fixed widths
/// with the same encoding are the same record.  So deserializing a
/// serialized record yields the record itself.
#[verifier::rlimit(60)]
pub proof fn lemma_record_bytes_injective(r1: RecordV, r2: RecordV)
    requires
        record_widths_ok(r1),
        record_widths_ok(r2),
        record_bytes_spec(r1) == record_bytes_spec(r2),
    ensures
        r1 == r2,
{
    lemma_nat_le_bytes_len(r1.owner.len(), 8);
    lemma_nat_le_bytes_len(r2.owner.len(), 8);
    lemma_nat_le_bytes_len(r1.commitment.len(), 8);
    lemma_nat_le_bytes_len(r2.commitment.len(), 8);
    let t1 = r1.owner + (seq![bool_byte(r1.is_dummy)] + (r1.payload + (r1.birth_predicate_repr
        + (r1.death_predicate_repr + (r1.serial_number_nonce + (u64_le(r1.commitment.len())
        + (r1.commitment + r1.commitment_randomness)))))));
    let t2 = r2.owner + (seq![bool_byte(r2.is_dummy)] + (r2.payload + (r2.birth_predicate_repr
        + (r2.death_predicate_repr + (r2.serial_number_nonce + (u64_le(r2.commitment.len())
        + (r2.commitment + r2.commitment_randomness)))))));
    assert(record_bytes_spec(r1) =~= u64_le(r1.owner.len()) + t1);
    assert(record_bytes_spec(r2) =~= u64_le(r2.owner.len()) + t2);
    lemma_concat_split(u64_le(r1.owner.len()), t1, u64_le(r2.owner.len()), t2);
    crate::bytes::lemma_pow256_8();
    lemma_le_bytes_injective(r1.owner.len(), r2.owner.len(), 8);
    let u1 = seq![bool_byte(r1.is_dummy)] + (r1.payload + (r1.birth_predicate_repr
        + (r1.death_predicate_repr + (r1.serial_number_nonce + (u64_le(r1.commitment.len())
        + (r1.commitment + r1.commitment_randomness))))));
    let u2 = seq![bool_byte(r2.is_dummy)] + (r2.payload + (r2.birth_predicate_repr
        + (r2.death_predicate_repr + (r2.serial_number_nonce + (u64_le(r2.commitment.len())
        + (r2.commitment + r2.commitment_randomness))))));
    lemma_concat_split(r1.owner, u1, r2.owner, u2);
    lemma_concat_split(
        seq![bool_byte(r1.is_dummy)],
        r1.payload + (r1.birth_predicate_repr + (r1.death_predicate_repr
            + (r1.serial_number_nonce + (u64_le(r1.commitment.len()) + (r1.commitment
            + r1.commitment_randomness))))),
        seq![bool_byte(r2.is_dummy)],
        r2.payload + (r2.birth_predicate_repr + (r2.death_predicate_repr
            + (r2.serial_number_nonce + (u64_le(r2.commitment.len()) + (r2.commitment
            + r2.commitment_randomness))))),
    );
    assert(seq![bool_byte(r1.is_dummy)][0] == seq![bool_byte(r2.is_dummy)][0]);
    assert(bool_byte(r1.is_dummy) == bool_byte(r2.is_dummy));
    assert(r1.is_dummy == r2.is_dummy);
    lemma_concat_split(
        r1.payload,
        r1.birth_predicate_repr + (r1.death_predicate_repr + (r1.serial_number_nonce
            + (u64_le(r1.commitment.len()) + (r1.commitment + r1.commitment_randomness)))),
        r2.payload,
        r2.birth_predicate_repr + (r2.death_predicate_repr + (r2.serial_number_nonce
            + (u64_le(r2.commitment.len()) + (r2.commitment + r2.commitment_randomness)))),
    );
    lemma_concat_split(
        r1.birth_predicate_repr,
        r1.death_predicate_repr + (r1.serial_number_nonce + (u64_le(r1.commitment.len())
            + (r1.commitment + r1.commitment_randomness))),
        r2.birth_predicate_repr,
        r2.death_predicate_repr + (r2.serial_number_nonce + (u64_le(r2.commitment.len())
            + (r2.commitment + r2.commitment_randomness))),
    );
    lemma_concat_split(
        r1.death_predicate_repr,
        r1.serial_number_nonce + (u64_le(r1.commitment.len()) + (r1.commitment
            + r1.commitment_randomness)),
        r2.death_predicate_repr,
        r2.serial_number_nonce + (u64_le(r2.commitment.len()) + (r2.commitment
            + r2.commitment_randomness)),
    );
    lemma_concat_split(
        r1.serial_number_nonce,
        u64_le(r1.commitment.len()) + (r1.commitment + r1.commitment_randomness),
        r2.serial_number_nonce,
        u64_le(r2.commitment.len()) + (r2.commitment + r2.commitment_randomness),
    );
    lemma_concat_split(
        u64_le(r1.commitment.len()),
        r1.commitment + r1.commitment_randomness,
        u64_le(r2.commitment.len()),
        r2.commitment + r2.commitment_randomness,
    );
    lemma_le_bytes_injective(r1.commitment.len(), r2.commitment.len(), 8);
    lemma_concat_split(
        r1.commitment,
        r1.commitment_randomness,
        r2.commitment,
        r2.commitment_randomness,
    );
}

} // verus!
