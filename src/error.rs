use vstd::prelude::*;

use crate::entity_id::Checksum;

verus! {

/// What could not be done because no ledger id was known.
#[derive(Clone, Copy, Debug, PartialEq, Eq, Structural)]
pub enum LedgerTask {
    ValidateChecksum,
    DeriveChecksum,
}

/// The errors that the library reports.
#[derive(Clone, Debug, PartialEq, Eq)]
pub enum Error {
    /// Malformed text: an entity id, a checksum, a ledger id or an address.
    BasicParse,
    /// A checksum was present and did not match the one expected for the ledger.
    BadEntityId {
        shard: u64,
        realm: u64,
        num: u64,
        present_checksum: Checksum,
        expected_checksum: Checksum,
    },
    /// A checksum had to be validated or derived, and no ledger id was known.
    CannotPerformTaskWithoutLedgerId { task: LedgerTask },
    /// The transaction kind has no schedulable encoding.
    ScheduleNotSupported,
    /// A single-transaction operation was asked to encode a chunk of a larger message.
    MultipleChunksNotSupported,
    /// The attempt exceeded the caller's deadline.
    TimedOut,
    /// The network answered with a status other than success.
    RemoteRejected { status: i32 },
    /// The target could not be reached or did not answer; `code` is the transport's status.
    Transport { code: i32 },
}

} // verus!
