//! The shapes that the wire protocol's bodies take: the numbers and bytes they carry, and
//! which case of the body's one-of each transaction kind fills. A checksum never travels.
use vstd::prelude::*;

use crate::entity_id::EntityId;
use crate::ids::AccountId;
use crate::transaction::{Timestamp, TransactionId};

verus! {

/// An entity id on the wire.
#[derive(Clone, Copy, Debug, PartialEq, Eq)]
pub struct WireEntityId {
    pub shard: u64,
    pub realm: u64,
    pub num: u64,
}

/// How an account id on the wire names its account.
#[derive(Clone, Copy, Debug, PartialEq, Eq)]
pub enum WireAccount {
    AccountNum(u64),
    /// The account's 20-byte EVM address, carried in the alias field.
    EvmAddress([u8; 20]),
}

/// An account id on the wire.
#[derive(Clone, Copy, Debug, PartialEq, Eq)]
pub struct WireAccountId {
    pub shard: u64,
    pub realm: u64,
    pub account: WireAccount,
}

/// A transaction id on the wire.
#[derive(Clone, Copy, Debug, PartialEq, Eq)]
pub struct WireTransactionId {
    pub account_id: WireAccountId,
    pub valid_start: Timestamp,
}

/// Where a message chunk stands in its message.
#[derive(Clone, Copy, Debug, PartialEq, Eq)]
pub struct WireChunkInfo {
    pub initial_transaction_id: WireTransactionId,
    pub total: i32,
    pub number: i32,
}

/// The body of a token freeze.
#[derive(Clone, Copy, Debug, PartialEq, Eq)]
pub struct TokenFreezeBody {
    pub token: Option<WireEntityId>,
    pub account: Option<WireAccountId>,
}

/// The body of a KYC revocation.
#[derive(Clone, Copy, Debug, PartialEq, Eq)]
pub struct TokenRevokeKycBody {
    pub token: Option<WireEntityId>,
    pub account: Option<WireAccountId>,
}

/// The body of a token unpause.
#[derive(Clone, Copy, Debug, PartialEq, Eq)]
pub struct TokenUnpauseBody {
    pub token: Option<WireEntityId>,
}

/// The body of a message submission.
#[derive(Clone, Debug, PartialEq, Eq)]
pub struct ConsensusSubmitMessageBody {
    pub topic_id: Option<WireEntityId>,
    pub message: Vec<u8>,
    pub chunk_info: Option<WireChunkInfo>,
}

/// The case of a transaction body's one-of that a transaction fills.
#[derive(Clone, Debug, PartialEq, Eq)]
pub enum TransactionBodyData {
    TokenFreeze(TokenFreezeBody),
    TokenRevokeKyc(TokenRevokeKycBody),
    TokenUnpause(TokenUnpauseBody),
    ConsensusSubmitMessage(ConsensusSubmitMessageBody),
}

/// The case of a schedulable transaction body's one-of that a transaction fills.
#[derive(Clone, Copy, Debug, PartialEq, Eq)]
pub enum SchedulableBodyData {
    TokenFreeze(TokenFreezeBody),
    TokenRevokeKyc(TokenRevokeKycBody),
    TokenUnpause(TokenUnpauseBody),
}

pub open spec fn spec_wire_entity(id: EntityId) -> WireEntityId {
    WireEntityId { shard: id.shard, realm: id.realm, num: id.num }
}

pub open spec fn spec_wire_account(id: AccountId) -> WireAccountId {
    WireAccountId {
        shard: id.shard,
        realm: id.realm,
        account: match id.evm_address {
            Some(a) => WireAccount::EvmAddress(a),
            None => WireAccount::AccountNum(id.num),
        },
    }
}

pub open spec fn spec_wire_transaction_id(id: TransactionId) -> WireTransactionId {
    WireTransactionId { account_id: spec_wire_account(id.account_id), valid_start: id.valid_start }
}

pub open spec fn spec_wire_entity_opt(id: Option<EntityId>) -> Option<WireEntityId> {
    match id {
        Some(id) => Some(spec_wire_entity(id)),
        None => None,
    }
}

pub open spec fn spec_wire_account_opt(id: Option<AccountId>) -> Option<WireAccountId> {
    match id {
        Some(id) => Some(spec_wire_account(id)),
        None => None,
    }
}

/// An entity id as the wire carries it.
pub fn wire_entity(id: &EntityId) -> (r: WireEntityId)
    ensures
        r == spec_wire_entity(*id),
{
    WireEntityId { shard: id.shard, realm: id.realm, num: id.num }
}

/// An account id as the wire carries it: by its EVM address when it has one, else by num.
pub fn wire_account(id: &AccountId) -> (r: WireAccountId)
    ensures
        r == spec_wire_account(*id),
{
    let account = match id.evm_address {
        Some(a) => WireAccount::EvmAddress(a),
        None => WireAccount::AccountNum(id.num),
    };
    WireAccountId { shard: id.shard, realm: id.realm, account }
}

/// A transaction id as the wire carries it.
pub fn wire_transaction_id(id: &TransactionId) -> (r: WireTransactionId)
    ensures
        r == spec_wire_transaction_id(*id),
{
    WireTransactionId { account_id: wire_account(&id.account_id), valid_start: id.valid_start }
}

pub fn wire_entity_opt(id: &Option<EntityId>) -> (r: Option<WireEntityId>)
    ensures
        r == spec_wire_entity_opt(*id),
{
    match id {
        Some(id) => Some(wire_entity(id)),
        None => None,
    }
}

pub fn wire_account_opt(id: &Option<AccountId>) -> (r: Option<WireAccountId>)
    ensures
        r == spec_wire_account_opt(*id),
{
    match id {
        Some(id) => Some(wire_account(id)),
        None => None,
    }
}

} // verus!
