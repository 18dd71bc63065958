//! The protocol core of a client for a distributed-ledger network: entity ids and their
//! checksums, ledger ids, the closed set of transaction kinds with their wire bodies and
//! message chunking, the decisions of the execution pipeline, and copy-on-write signing of
//! encoded transactions.
use vstd::prelude::*;

pub mod boundary;
pub mod crypto;
pub mod entity_id;
pub mod error;
pub mod execute;
pub mod hex;
pub mod ids;
pub mod ledger_id;
pub mod sources;
pub mod text;
pub mod token;
pub mod topic;
pub mod transaction;
pub mod wire;

verus! {

} // verus!
