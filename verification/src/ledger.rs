//! The ledger: a snapshot-consistent record of accepted transactions.
//!
//! The ledger stores every record commitment and every spent serial
//! number, and keeps the history of its state digests.  The scheme
//! reads it (membership witnesses, the current digest) while building a
//! transaction and checks it again while verifying one; accepting a
//! transaction appends the transaction's commitments and serial numbers
//! and advances the digest.

use vstd::prelude::*;
use crate::primitives::SignaturePublicKey;
use crate::primitives::SigPkV;
use crate::bytes::bytes_eq;
use crate::bytes::block_eq;
use crate::transaction::DPCTransaction;

verus! {

/// The mathematical value of a ledger.
pub ghost struct LedgerV {
    pub parameters: Seq<u8>,
    pub commitments: Seq<Seq<u8>>,
    pub serial_numbers: Seq<SigPkV>,
    pub digests: Seq<u64>,
}

/// The public parameters of the ledger's accumulator.
pub struct LedgerParameters {
    pub tag: [u8; 32],
}

/// A membership witness for a record commitment: the canonical witness
/// for dummy records, or the position of the commitment in the ledger.
#[derive(Clone, Copy)]
pub enum LedgerWitness {
    Dummy,
    Member(u64),
}

/// An in-memory ledger.
pub struct Ledger {
    pub parameters: LedgerParameters,
    pub commitments: Vec<Vec<u8>>,
    pub serial_numbers: Vec<SignaturePublicKey>,
    pub digests: Vec<u64>,
}

impl View for Ledger {
    type V = LedgerV;

    open spec fn view(&self) -> LedgerV {
        LedgerV {
            parameters: self.parameters.tag@,
            commitments: Seq::new(self.commitments@.len(), |i: int| self.commitments@[i]@),
            serial_numbers: Seq::new(
                self.serial_numbers@.len(),
                |i: int| self.serial_numbers@[i]@,
            ),
            digests: self.digests@,
        }
    }
}

/// The error of a failed ledger read: no witness exists for the claimed
/// commitment.
#[derive(Clone, Copy, PartialEq, Eq, Structural, Debug)]
pub enum LedgerError {
    WitnessMissing,
}

impl Ledger {
    /// An empty ledger under the given accumulator parameters.  Its
    /// current digest, zero, is already valid.
    pub fn new(parameters: LedgerParameters) -> (l: Ledger)
        ensures
            l@.parameters == parameters.tag@,
            l@.commitments == Seq::<Seq<u8>>::empty(),
            l@.serial_numbers == Seq::<SigPkV>::empty(),
            l@.digests == seq![0u64],
    {
        let mut digests: Vec<u64> = Vec::new();
        digests.push(0u64);
        let l = Ledger {
            parameters,
            commitments: Vec::new(),
            serial_numbers: Vec::new(),
            digests,
        };
        proof {
            assert(l@.commitments =~= Seq::<Seq<u8>>::empty());
            assert(l@.serial_numbers =~= Seq::<SigPkV>::empty());
            assert(l@.digests =~= seq![0u64]);
        }
        l
    }

    /// The ledger's accumulator parameters.
    pub fn parameters(&self) -> (p: &LedgerParameters)
        ensures
            p.tag@ == self@.parameters,
    {
        &self.parameters
    }

    /// The current state digest: the number of commitments the ledger
    /// holds.
    pub fn digest(&self) -> (d: u64)
        ensures
            d == self@.commitments.len(),
    {
        self.commitments.len() as u64
    }

    /// Whether `d` is a state digest this ledger has ever had: the
    /// digest check of the verifier.
    pub fn validate_digest(&self, d: u64) -> (ok: bool)
        ensures
            ok == self@.digests.contains(d),
    {
        let mut i: usize = 0;
        while i < self.digests.len()
            invariant
                i <= self@.digests.len(),
                forall|j: int| 0 <= j < i ==> self@.digests[j] != d,
            decreases self@.digests.len() - i,
        {
            if self.digests[i] == d {
                return true;
            }
            i = i + 1;
        }
        false
    }

    /// Whether the serial number was already spent.
    pub fn contains_sn(&self, sn: &SignaturePublicKey) -> (present: bool)
        ensures
            present == self@.serial_numbers.contains(sn@),
    {
        let mut i: usize = 0;
        while i < self.serial_numbers.len()
            invariant
                i <= self@.serial_numbers.len(),
                forall|j: int| 0 <= j < i ==> self@.serial_numbers[j] != sn@,
            decreases self@.serial_numbers.len() - i,
        {
            let base_eq = block_eq(&self.serial_numbers[i].base, &sn.base);
            let rand_eq = block_eq(&self.serial_numbers[i].randomizer, &sn.randomizer);
            if base_eq && rand_eq {
                proof {
                    assert(self@.serial_numbers[i as int] == sn@);
                }
                return true;
            }
            i = i + 1;
        }
        false
    }

    /// Produces a membership witness for a commitment: its position in
    /// the ledger.  Fails, with the only ledger error, exactly when the
    /// commitment is absent.
    pub fn prove_cm(&self, cm: &Vec<u8>) -> (w: Result<LedgerWitness, LedgerError>)
        ensures
            self@.commitments.contains(cm@) <==> w is Ok,
            w matches Ok(ww) ==> (ww matches LedgerWitness::Member(k)
                && 0 <= k < self@.commitments.len() && self@.commitments[k as int] == cm@),
            w is Err ==> w == Result::<LedgerWitness, LedgerError>::Err(
                LedgerError::WitnessMissing,
            ),
    {
        let mut i: usize = 0;
        while i < self.commitments.len()
            invariant
                i <= self@.commitments.len(),
                forall|j: int| 0 <= j < i ==> self@.commitments[j] != cm@,
            decreases self@.commitments.len() - i,
        {
            if bytes_eq(&self.commitments[i], cm) {
                proof {
                    assert(self@.commitments[i as int] == cm@);
                }
                return Ok(LedgerWitness::Member(i as u64));
            }
            i = i + 1;
        }
        Err(LedgerError::WitnessMissing)
    }

    /// Accepts a transaction: appends its new commitments and its spent
    /// serial numbers, and advances the state digest.  Earlier digests
    /// stay valid.
    pub fn push_transaction(&mut self, tx: &DPCTransaction)
        requires
            old(self)@.commitments.len() + tx@.new_commitments.len() <= u64::MAX,
        ensures
            final(self)@.parameters == old(self)@.parameters,
            final(self)@.commitments == old(self)@.commitments + tx@.new_commitments,
            final(self)@.serial_numbers == old(self)@.serial_numbers + tx@.old_serial_numbers,
            final(self)@.digests == old(self)@.digests.push(
                (old(self)@.commitments.len() + tx@.new_commitments.len()) as u64,
            ),
    {
        let mut i: usize = 0;
        while i < tx.new_commitments.len()
            invariant
                i <= tx@.new_commitments.len(),
                self@.parameters == old(self)@.parameters,
                self@.serial_numbers == old(self)@.serial_numbers,
                self@.digests == old(self)@.digests,
                self@.commitments =~~= old(self)@.commitments + tx@.new_commitments.take(i as int),
            decreases tx@.new_commitments.len() - i,
        {
            let cm = crate::bytes::copy_bytes(&tx.new_commitments[i]);
            let ghost prevc = self@.commitments;
            let ghost prevv = self.commitments@;
            self.commitments.push(cm);
            proof {
                assert forall|k: int| 0 <= k < prevc.len() implies self@.commitments[k]
                    == prevc[k] by {
                    assert(self.commitments@[k] == prevv[k]);
                }
                assert(self@.commitments[prevc.len() as int] == cm@);
                assert(cm@ == tx@.new_commitments[i as int]);
                assert(self@.commitments.len() == prevc.len() + 1);
                let rhs = old(self)@.commitments + tx@.new_commitments.take(i + 1);
                assert(rhs.len() == prevc.len() + 1);
                assert forall|k: int| 0 <= k < prevc.len() + 1 implies self@.commitments[k]
                    == rhs[k] by {
                    assert(tx@.new_commitments.take(i + 1)
                        =~~= tx@.new_commitments.take(i as int)
                            + seq![tx@.new_commitments[i as int]]);
                    if k < prevc.len() {
                        assert(self@.commitments[k] == prevc[k]);
                        assert(rhs[k] == prevc[k]);
                    } else {
                        assert(self@.commitments[k] == cm@);
                        assert(rhs[k] == tx@.new_commitments[i as int]);
                    }
                }
                assert(self@.commitments
                    =~~= old(self)@.commitments + tx@.new_commitments.take(i + 1));
            }
            i = i + 1;
        }
        proof {
            assert(tx@.new_commitments.take(tx@.new_commitments.len() as int)
                =~~= tx@.new_commitments);
        }
        let mut j: usize = 0;
        while j < tx.old_serial_numbers.len()
            invariant
                j <= tx@.old_serial_numbers.len(),
                self@.parameters == old(self)@.parameters,
                self@.digests == old(self)@.digests,
                self@.commitments =~~= old(self)@.commitments + tx@.new_commitments,
                self@.serial_numbers
                    =~~= old(self)@.serial_numbers + tx@.old_serial_numbers.take(j as int),
            decreases tx@.old_serial_numbers.len() - j,
        {
            let sn = SignaturePublicKey {
                base: tx.old_serial_numbers[j].base,
                randomizer: tx.old_serial_numbers[j].randomizer,
            };
            let ghost prevs = self@.serial_numbers;
            let ghost prevw = self.serial_numbers@;
            self.serial_numbers.push(sn);
            proof {
                assert forall|k: int| 0 <= k < prevs.len() implies self@.serial_numbers[k]
                    == prevs[k] by {
                    assert(self.serial_numbers@[k] == prevw[k]);
                }
                assert(self@.serial_numbers[prevs.len() as int] == sn@);
                assert(sn@ == tx@.old_serial_numbers[j as int]);
                assert(self@.serial_numbers.len() == prevs.len() + 1);
                let rhs = old(self)@.serial_numbers + tx@.old_serial_numbers.take(j + 1);
                assert(rhs.len() == prevs.len() + 1);
                assert forall|k: int| 0 <= k < prevs.len() + 1 implies self@.serial_numbers[k]
                    == rhs[k] by {
                    assert(tx@.old_serial_numbers.take(j + 1)
                        =~~= tx@.old_serial_numbers.take(j as int)
                            + seq![tx@.old_serial_numbers[j as int]]);
                    if k < prevs.len() {
                        assert(self@.serial_numbers[k] == prevs[k]);
                        assert(rhs[k] == prevs[k]);
                    } else {
                        assert(self@.serial_numbers[k] == sn@);
                        assert(rhs[k] == tx@.old_serial_numbers[j as int]);
                    }
                }
                assert(self@.serial_numbers
                    =~~= old(self)@.serial_numbers + tx@.old_serial_numbers.take(j + 1));
            }
            j = j + 1;
        }
        proof {
            assert(tx@.old_serial_numbers.take(tx@.old_serial_numbers.len() as int)
                =~~= tx@.old_serial_numbers);
        }
        let d: u64 = self.commitments.len() as u64;
        self.digests.push(d);
        proof {
            assert(self@.commitments =~~= old(self)@.commitments + tx@.new_commitments);
            assert(self@.serial_numbers =~~= old(self)@.serial_numbers + tx@.old_serial_numbers);
        }
    }
}

} // verus!
