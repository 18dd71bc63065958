//! The ids of accounts, tokens, topics and schedules, and the checksum checks they share.
use vstd::prelude::*;

use crate::entity_id::{
    address_bytes, address_id, checksum_of, id_text, is_mismatch, parse_entity_id, unprefixed,
    EntityId,
};
use crate::hex::{hex_bytes, hex_lower, is_hex_text};
use crate::error::Error;
use crate::ledger_id::LedgerId;

verus! {

/// Ids that may carry a checksum and can check it against a ledger.
pub trait AutoValidateChecksum {
    /// The checksum is absent, or it is the one the ledger gives.
    spec fn checksum_valid(&self, ledger: Seq<u8>) -> bool;

    /// `e` is the mismatch that this id reports on the ledger.
    spec fn reports(&self, e: Error, ledger: Seq<u8>) -> bool;

    /// Checks the checksum, if one is present, against the ledger.
    fn validate_checksum_for_ledger_id(&self, ledger_id: &LedgerId) -> (r: Result<(), Error>)
        ensures
            r is Ok <==> self.checksum_valid(ledger_id@),
            r matches Err(e) ==> self.reports(e, ledger_id@),
    ;
}

impl AutoValidateChecksum for EntityId {
    open spec fn checksum_valid(&self, ledger: Seq<u8>) -> bool {
        self.checksum matches Some(c) ==> c@ == checksum_of(
            id_text(self.shard, self.realm, self.num),
            ledger,
        )
    }

    open spec fn reports(&self, e: Error, ledger: Seq<u8>) -> bool {
        is_mismatch(
            e,
            self.shard,
            self.realm,
            self.num,
            self.checksum->0,
            checksum_of(id_text(self.shard, self.realm, self.num), ledger),
        )
    }

    fn validate_checksum_for_ledger_id(&self, ledger_id: &LedgerId) -> (r: Result<(), Error>) {
        EntityId::validate_checksum_for_ledger_id(
            self.shard,
            self.realm,
            self.num,
            &self.checksum,
            ledger_id,
        )
    }
}

impl<T: AutoValidateChecksum> AutoValidateChecksum for Option<T> {
    open spec fn checksum_valid(&self, ledger: Seq<u8>) -> bool {
        self matches Some(id) ==> id.checksum_valid(ledger)
    }

    open spec fn reports(&self, e: Error, ledger: Seq<u8>) -> bool {
        self matches Some(id) && id.reports(e, ledger)
    }

    fn validate_checksum_for_ledger_id(&self, ledger_id: &LedgerId) -> (r: Result<(), Error>) {
        match self {
            Some(id) => id.validate_checksum_for_ledger_id(ledger_id),
            None => Ok(()),
        }
    }
}

/// The id of a token.
pub type TokenId = EntityId;

/// The id of a consensus topic.
pub type TopicId = EntityId;

/// The id of an account, which may also be known by a 20-byte EVM address.
#[derive(Clone, Copy, Debug, PartialEq, Eq, Hash)]
pub struct AccountId {
    pub shard: u64,
    pub realm: u64,
    pub num: u64,
    /// The EVM address that stands for the account, if it is known by one.
    pub evm_address: Option<[u8; 20]>,
    /// A checksum, if the account ID was read from text that included one.
    pub checksum: Option<crate::entity_id::Checksum>,
}

impl From<u64> for AccountId {
    fn from(num: u64) -> (r: AccountId) {
        AccountId { shard: 0, realm: 0, num, evm_address: None, checksum: None }
    }
}

impl vstd::std_specs::convert::FromSpecImpl<u64> for AccountId {
    open spec fn obeys_from_spec() -> bool {
        true
    }

    open spec fn from_spec(num: u64) -> AccountId {
        AccountId { shard: 0, realm: 0, num, evm_address: None, checksum: None }
    }
}

impl AccountId {
    /// The entity id of the account's shard, realm, num and checksum.
    pub open spec fn entity(self) -> EntityId {
        EntityId { shard: self.shard, realm: self.realm, num: self.num, checksum: self.checksum }
    }

    /// Reads an account id written as an entity id.
    pub fn from_str(s: &str) -> (r: Result<AccountId, Error>)
        ensures
            r is Ok <==> parse_entity_id(s@) is Some,
            r matches Ok(id) ==> id.entity()@ == parse_entity_id(s@)->0 && id.evm_address is None,
            r matches Err(e) ==> e == Error::BasicParse,
    {
        match EntityId::from_str(s) {
            Ok(id) => Ok(
                AccountId {
                    shard: id.shard,
                    realm: id.realm,
                    num: id.num,
                    evm_address: None,
                    checksum: id.checksum,
                },
            ),
            Err(e) => Err(e),
        }
    }

    /// The text `shard.realm.num`.
    pub fn to_string(&self) -> (r: String)
        ensures
            r@ == id_text(self.shard, self.realm, self.num),
    {
        crate::entity_id::format_id(self.shard, self.realm, self.num)
    }
}

impl AutoValidateChecksum for AccountId {
    open spec fn checksum_valid(&self, ledger: Seq<u8>) -> bool {
        self.entity().checksum_valid(ledger)
    }

    open spec fn reports(&self, e: Error, ledger: Seq<u8>) -> bool {
        self.entity().reports(e, ledger)
    }

    fn validate_checksum_for_ledger_id(&self, ledger_id: &LedgerId) -> (r: Result<(), Error>) {
        EntityId::validate_checksum_for_ledger_id(
            self.shard,
            self.realm,
            self.num,
            &self.checksum,
            ledger_id,
        )
    }
}

/// The unique identifier for a scheduled transaction.
#[derive(Clone, Copy, Debug, PartialEq, Eq, Hash)]
pub struct ScheduleId {
    pub shard: u64,
    pub realm: u64,
    pub num: u64,
    /// A checksum, if the schedule ID was read from text that included one.
    pub checksum: Option<crate::entity_id::Checksum>,
}

impl From<u64> for ScheduleId {
    fn from(num: u64) -> (r: ScheduleId) {
        ScheduleId { shard: 0, realm: 0, num, checksum: None }
    }
}

impl vstd::std_specs::convert::FromSpecImpl<u64> for ScheduleId {
    open spec fn obeys_from_spec() -> bool {
        true
    }

    open spec fn from_spec(num: u64) -> ScheduleId {
        ScheduleId { shard: 0, realm: 0, num, checksum: None }
    }
}

impl From<EntityId> for ScheduleId {
    fn from(value: EntityId) -> (r: ScheduleId) {
        ScheduleId { shard: value.shard, realm: value.realm, num: value.num, checksum: value.checksum }
    }
}

impl vstd::std_specs::convert::FromSpecImpl<EntityId> for ScheduleId {
    open spec fn obeys_from_spec() -> bool {
        true
    }

    open spec fn from_spec(value: EntityId) -> ScheduleId {
        ScheduleId { shard: value.shard, realm: value.realm, num: value.num, checksum: value.checksum }
    }
}

impl ScheduleId {
    /// The entity id of the schedule's shard, realm, num and checksum.
    pub open spec fn entity(self) -> EntityId {
        EntityId { shard: self.shard, realm: self.realm, num: self.num, checksum: self.checksum }
    }

    /// Reads a schedule id written as an entity id.
    pub fn from_str(s: &str) -> (r: Result<ScheduleId, Error>)
        ensures
            r is Ok <==> parse_entity_id(s@) is Some,
            r matches Ok(id) ==> id.entity()@ == parse_entity_id(s@)->0,
            r matches Err(e) ==> e == Error::BasicParse,
    {
        match EntityId::from_str(s) {
            Ok(id) => Ok(ScheduleId::from(id)),
            Err(e) => Err(e),
        }
    }

    /// The text `shard.realm.num`.
    pub fn to_string(&self) -> (r: String)
        ensures
            r@ == id_text(self.shard, self.realm, self.num),
    {
        crate::entity_id::format_id(self.shard, self.realm, self.num)
    }

    /// Reads a schedule id from its 20-byte address as hex, with or without `0x`.
    pub fn from_solidity_address(address: &str) -> (r: Result<ScheduleId, Error>)
        ensures
            r is Ok <==> is_hex_text(unprefixed(address@)) && hex_bytes(unprefixed(address@)).len()
                == 20,
            r matches Ok(id) ==> id.entity()@ == address_id(hex_bytes(unprefixed(address@))),
            r matches Err(e) ==> e == Error::BasicParse,
    {
        match EntityId::from_solidity_address(address) {
            Ok(id) => Ok(ScheduleId::from(id)),
            Err(e) => Err(e),
        }
    }

    /// The 20-byte address as lower-case hex; the shard must fit in four bytes.
    pub fn to_solidity_address(&self) -> (r: Result<String, Error>)
        ensures
            r is Ok <==> self.shard <= u32::MAX,
            r matches Ok(s) ==> s@ == hex_lower(address_bytes(self.shard, self.realm, self.num)),
            r matches Err(e) ==> e == Error::BasicParse,
    {
        EntityId { shard: self.shard, realm: self.realm, num: self.num, checksum: None }.to_solidity_address()
    }

    /// The text `shard.realm.num-checksum` for the client's ledger.
    pub fn to_string_with_checksum(&self, ledger_id: Option<&LedgerId>) -> (r: Result<String, Error>)
        ensures
            ledger_id is None ==> r == Err::<String, Error>(
                Error::CannotPerformTaskWithoutLedgerId {
                    task: crate::error::LedgerTask::DeriveChecksum,
                },
            ),
            ledger_id matches Some(l) ==> r matches Ok(t) && t@ == id_text(
                self.shard,
                self.realm,
                self.num,
            ) + seq!['-'] + crate::entity_id::checksum_chars(
                checksum_of(id_text(self.shard, self.realm, self.num), l@),
            ),
    {
        proof {
            crate::entity_id::lemma_id_text_chars(self.shard, self.realm, self.num);
        }
        EntityId::to_string_with_checksum(self.to_string(), ledger_id)
    }

    /// Validates the checksum, if one is present, against the client's ledger.
    ///
    /// An absent checksum passes; a present one fails without a ledger.
    pub fn validate_checksum(&self, ledger_id: Option<&LedgerId>) -> (r: Result<(), Error>)
        ensures
            self.checksum is None ==> r is Ok,
            self.checksum is Some && ledger_id is None ==> r == Err::<(), Error>(
                Error::CannotPerformTaskWithoutLedgerId {
                    task: crate::error::LedgerTask::ValidateChecksum,
                },
            ),
            ledger_id matches Some(l) ==> (r is Ok <==> self.entity().checksum_valid(l@)),
    {
        EntityId::validate_checksum(self.shard, self.realm, self.num, &self.checksum, ledger_id)
    }
}

impl AutoValidateChecksum for ScheduleId {
    open spec fn checksum_valid(&self, ledger: Seq<u8>) -> bool {
        self.entity().checksum_valid(ledger)
    }

    open spec fn reports(&self, e: Error, ledger: Seq<u8>) -> bool {
        self.entity().reports(e, ledger)
    }

    fn validate_checksum_for_ledger_id(&self, ledger_id: &LedgerId) -> (r: Result<(), Error>) {
        EntityId::validate_checksum_for_ledger_id(
            self.shard,
            self.realm,
            self.num,
            &self.checksum,
            ledger_id,
        )
    }
}

} // verus!
