//! A delegable decentralized-private-computation (DPC) transaction scheme.
//!
//! Records are opaque, owned units of data.  A transaction consumes old
//! records and mints new ones; validity (ownership, absence of double
//! spends, predicate conditions) is publicly checkable while record
//! contents stay hidden behind commitments.  The pipeline builds a
//! transaction out of serial numbers, binding commitments, proofs and
//! randomized signatures, and the verifier re-checks all of it against a
//! ledger.

pub mod bytes;
pub mod primitives;
pub mod address;
pub mod predicate;
pub mod record;
pub mod transaction;
pub mod ledger;
pub mod parameters;
pub mod dpc;
pub mod laws;
pub mod bigint;
pub mod modarith;
pub mod ed_on_bn254;
