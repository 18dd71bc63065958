//! Token transactions: freeze an account, revoke its KYC, unpause a token.
use vstd::prelude::*;

use crate::error::Error;
use crate::ids::{AccountId, AutoValidateChecksum, TokenId};
use crate::ledger_id::LedgerId;
use crate::transaction::{ChunkInfo, RemoteMethod, Transaction};
use crate::wire::{
    spec_wire_account_opt, spec_wire_entity_opt, wire_account_opt, wire_entity_opt,
    SchedulableBodyData, TokenFreezeBody, TokenRevokeKycBody, TokenUnpauseBody,
    TransactionBodyData,
};

verus! {

/// The data of a token freeze: the account and the token whose transfers stop.
#[derive(Clone, Copy, Debug, PartialEq, Eq)]
pub struct TokenFreezeTransactionData {
    /// The account to be frozen.
    pub account_id: Option<AccountId>,
    /// The token for which the account will be frozen.
    pub token_id: Option<TokenId>,
}

/// Freezes transfers of a token for an account; the token's freeze key must sign it.
pub type TokenFreezeTransaction = Transaction<TokenFreezeTransactionData>;

impl Default for TokenFreezeTransactionData {
    fn default() -> (r: TokenFreezeTransactionData)
        ensures
            r.account_id is None && r.token_id is None,
    {
        TokenFreezeTransactionData { account_id: None, token_id: None }
    }
}

impl TokenFreezeTransactionData {
    /// Every checksum the ids carry is the one the ledger gives.
    pub open spec fn checksums_valid(&self, ledger: Seq<u8>) -> bool {
        self.account_id.checksum_valid(ledger) && self.token_id.checksum_valid(ledger)
    }

    /// Some id carries a checksum.
    pub open spec fn spec_has_checksums(&self) -> bool {
        (self.account_id matches Some(id) && id.checksum is Some) || (self.token_id matches Some(
            id,
        ) && id.checksum is Some)
    }

    /// The wire body of this data.
    pub open spec fn spec_body(&self) -> TokenFreezeBody {
        TokenFreezeBody {
            token: spec_wire_entity_opt(self.token_id),
            account: spec_wire_account_opt(self.account_id),
        }
    }

    /// Checks the checksums of the ids, account first, stopping at the first that fails.
    pub fn validate_checksums(&self, ledger_id: &LedgerId) -> (r: Result<(), Error>)
        ensures
            r is Ok <==> self.checksums_valid(ledger_id@),
            r matches Err(e) ==> e is BadEntityId,
            (r is Err && !self.account_id.checksum_valid(ledger_id@)) ==> self.account_id.reports(
                r->Err_0,
                ledger_id@,
            ),
            (r is Err && self.account_id.checksum_valid(ledger_id@)) ==> self.token_id.reports(
                r->Err_0,
                ledger_id@,
            ),
    {
        match self.account_id.validate_checksum_for_ledger_id(ledger_id) {
            Ok(()) => self.token_id.validate_checksum_for_ledger_id(ledger_id),
            Err(e) => Err(e),
        }
    }

    /// Whether any id carries a checksum.
    pub fn has_checksums(&self) -> (r: bool)
        ensures
            r == self.spec_has_checksums(),
    {
        let account = match self.account_id {
            Some(id) => id.checksum.is_some(),
            None => false,
        };
        let token = match self.token_id {
            Some(id) => id.checksum.is_some(),
            None => false,
        };
        account || token
    }

    /// The wire body: the ids without their checksums.
    pub fn to_protobuf(&self) -> (r: TokenFreezeBody)
        ensures
            r == self.spec_body(),
    {
        TokenFreezeBody {
            token: wire_entity_opt(&self.token_id),
            account: wire_account_opt(&self.account_id),
        }
    }

    /// Encodes the data into the transaction body's one-of, for a transaction alone.
    pub fn to_transaction_data_protobuf(&self, chunk_info: &ChunkInfo) -> (r: Result<
        TransactionBodyData,
        Error,
    >)
        ensures
            r is Ok <==> chunk_info.total == 1,
            r matches Ok(b) ==> b == TransactionBodyData::TokenFreeze(self.spec_body()),
            r matches Err(e) ==> e == Error::MultipleChunksNotSupported,
    {
        match chunk_info.assert_single_transaction() {
            Ok(()) => Ok(TransactionBodyData::TokenFreeze(self.to_protobuf())),
            Err(e) => Err(e),
        }
    }

    /// Encodes the data into the schedulable body's one-of.
    pub fn to_schedulable_transaction_data_protobuf(&self) -> (r: SchedulableBodyData)
        ensures
            r == SchedulableBodyData::TokenFreeze(self.spec_body()),
    {
        SchedulableBodyData::TokenFreeze(self.to_protobuf())
    }

    /// The remote operation that submits this kind.
    pub fn execute(&self) -> (r: RemoteMethod)
        ensures
            r == RemoteMethod::FreezeTokenAccount,
    {
        RemoteMethod::FreezeTokenAccount
    }
}

impl TokenFreezeTransaction {
    /// A new transaction with no ids set.
    pub fn new() -> (r: TokenFreezeTransaction)
        ensures
            r.data.account_id is None && r.data.token_id is None,
            r.transaction_id is None,
    {
        Transaction { data: TokenFreezeTransactionData::default(), transaction_id: None }
    }

    /// Returns the account to be frozen.
    pub fn get_account_id(&self) -> (r: Option<AccountId>)
        ensures
            r == self.data.account_id,
    {
        self.data.account_id
    }

    /// Sets the account to be frozen.
    pub fn account_id(&mut self, account_id: AccountId) -> (r: &mut Self)
        ensures
            *r == (Transaction {
                data: TokenFreezeTransactionData { account_id: Some(account_id), ..old(self).data },
                ..*old(self)
            }),
            *final(self) == *final(r),
    {
        self.data.account_id = Some(account_id);
        self
    }

    /// Returns the token for which the account will be frozen.
    pub fn get_token_id(&self) -> (r: Option<TokenId>)
        ensures
            r == self.data.token_id,
    {
        self.data.token_id
    }

    /// Sets the token for which the account will be frozen.
    pub fn token_id(&mut self, token_id: TokenId) -> (r: &mut Self)
        ensures
            *r == (Transaction {
                data: TokenFreezeTransactionData { token_id: Some(token_id), ..old(self).data },
                ..*old(self)
            }),
            *final(self) == *final(r),
    {
        self.data.token_id = Some(token_id);
        self
    }
}

/// The data of a KYC revocation: the account and the token.
#[derive(Clone, Copy, Debug, PartialEq, Eq)]
pub struct TokenRevokeKycTransactionData {
    /// The account to have its KYC revoked.
    pub account_id: Option<AccountId>,
    /// The token for which the account will have its KYC revoked.
    pub token_id: Option<TokenId>,
}

/// Revokes an account's KYC for a token; the token's KYC key must sign it.
pub type TokenRevokeKycTransaction = Transaction<TokenRevokeKycTransactionData>;

impl Default for TokenRevokeKycTransactionData {
    fn default() -> (r: TokenRevokeKycTransactionData)
        ensures
            r.account_id is None && r.token_id is None,
    {
        TokenRevokeKycTransactionData { account_id: None, token_id: None }
    }
}

impl TokenRevokeKycTransactionData {
    /// Every checksum the ids carry is the one the ledger gives.
    pub open spec fn checksums_valid(&self, ledger: Seq<u8>) -> bool {
        self.account_id.checksum_valid(ledger) && self.token_id.checksum_valid(ledger)
    }

    /// Some id carries a checksum.
    pub open spec fn spec_has_checksums(&self) -> bool {
        (self.account_id matches Some(id) && id.checksum is Some) || (self.token_id matches Some(
            id,
        ) && id.checksum is Some)
    }

    /// The wire body of this data.
    pub open spec fn spec_body(&self) -> TokenRevokeKycBody {
        TokenRevokeKycBody {
            token: spec_wire_entity_opt(self.token_id),
            account: spec_wire_account_opt(self.account_id),
        }
    }

    /// Checks the checksums of the ids, token first, stopping at the first that fails.
    pub fn validate_checksums(&self, ledger_id: &LedgerId) -> (r: Result<(), Error>)
        ensures
            r is Ok <==> self.checksums_valid(ledger_id@),
            r matches Err(e) ==> e is BadEntityId,
            (r is Err && !self.token_id.checksum_valid(ledger_id@)) ==> self.token_id.reports(
                r->Err_0,
                ledger_id@,
            ),
            (r is Err && self.token_id.checksum_valid(ledger_id@)) ==> self.account_id.reports(
                r->Err_0,
                ledger_id@,
            ),
    {
        match self.token_id.validate_checksum_for_ledger_id(ledger_id) {
            Ok(()) => self.account_id.validate_checksum_for_ledger_id(ledger_id),
            Err(e) => Err(e),
        }
    }

    /// Whether any id carries a checksum.
    pub fn has_checksums(&self) -> (r: bool)
        ensures
            r == self.spec_has_checksums(),
    {
        let account = match self.account_id {
            Some(id) => id.checksum.is_some(),
            None => false,
        };
        let token = match self.token_id {
            Some(id) => id.checksum.is_some(),
            None => false,
        };
        account || token
    }

    /// The wire body: the ids without their checksums.
    pub fn to_protobuf(&self) -> (r: TokenRevokeKycBody)
        ensures
            r == self.spec_body(),
    {
        TokenRevokeKycBody {
            token: wire_entity_opt(&self.token_id),
            account: wire_account_opt(&self.account_id),
        }
    }

    /// Encodes the data into the transaction body's one-of, for a transaction alone.
    pub fn to_transaction_data_protobuf(&self, chunk_info: &ChunkInfo) -> (r: Result<
        TransactionBodyData,
        Error,
    >)
        ensures
            r is Ok <==> chunk_info.total == 1,
            r matches Ok(b) ==> b == TransactionBodyData::TokenRevokeKyc(self.spec_body()),
            r matches Err(e) ==> e == Error::MultipleChunksNotSupported,
    {
        match chunk_info.assert_single_transaction() {
            Ok(()) => Ok(TransactionBodyData::TokenRevokeKyc(self.to_protobuf())),
            Err(e) => Err(e),
        }
    }

    /// Encodes the data into the schedulable body's one-of.
    pub fn to_schedulable_transaction_data_protobuf(&self) -> (r: SchedulableBodyData)
        ensures
            r == SchedulableBodyData::TokenRevokeKyc(self.spec_body()),
    {
        SchedulableBodyData::TokenRevokeKyc(self.to_protobuf())
    }

    /// The remote operation that submits this kind.
    pub fn execute(&self) -> (r: RemoteMethod)
        ensures
            r == RemoteMethod::RevokeKycFromTokenAccount,
    {
        RemoteMethod::RevokeKycFromTokenAccount
    }
}

impl TokenRevokeKycTransaction {
    /// A new transaction with no ids set.
    pub fn new() -> (r: TokenRevokeKycTransaction)
        ensures
            r.data.account_id is None && r.data.token_id is None,
            r.transaction_id is None,
    {
        Transaction { data: TokenRevokeKycTransactionData::default(), transaction_id: None }
    }

    /// Returns the account to have its KYC revoked.
    pub fn get_account_id(&self) -> (r: Option<AccountId>)
        ensures
            r == self.data.account_id,
    {
        self.data.account_id
    }

    /// Sets the account to have its KYC revoked.
    pub fn account_id(&mut self, account_id: AccountId) -> (r: &mut Self)
        ensures
            *r == (Transaction {
                data: TokenRevokeKycTransactionData { account_id: Some(account_id), ..old(self).data },
                ..*old(self)
            }),
            *final(self) == *final(r),
    {
        self.data.account_id = Some(account_id);
        self
    }

    /// Returns the token for which the account will have its KYC revoked.
    pub fn get_token_id(&self) -> (r: Option<TokenId>)
        ensures
            r == self.data.token_id,
    {
        self.data.token_id
    }

    /// Sets the token for which the account will have its KYC revoked.
    pub fn token_id(&mut self, token_id: TokenId) -> (r: &mut Self)
        ensures
            *r == (Transaction {
                data: TokenRevokeKycTransactionData { token_id: Some(token_id), ..old(self).data },
                ..*old(self)
            }),
            *final(self) == *final(r),
    {
        self.data.token_id = Some(token_id);
        self
    }
}

/// The data of a token unpause: the token.
#[derive(Clone, Copy, Debug, PartialEq, Eq)]
pub struct TokenUnpauseTransactionData {
    /// The token to be unpaused.
    pub token_id: Option<TokenId>,
}

/// Unpauses a token; the token's pause key must sign it.
pub type TokenUnpauseTransaction = Transaction<TokenUnpauseTransactionData>;

impl Default for TokenUnpauseTransactionData {
    fn default() -> (r: TokenUnpauseTransactionData)
        ensures
            r.token_id is None,
    {
        TokenUnpauseTransactionData { token_id: None }
    }
}

impl TokenUnpauseTransactionData {
    /// Every checksum the ids carry is the one the ledger gives.
    pub open spec fn checksums_valid(&self, ledger: Seq<u8>) -> bool {
        self.token_id.checksum_valid(ledger)
    }

    /// Some id carries a checksum.
    pub open spec fn spec_has_checksums(&self) -> bool {
        (self.token_id matches Some(id) && id.checksum is Some)
    }

    /// The wire body of this data.
    pub open spec fn spec_body(&self) -> TokenUnpauseBody {
        TokenUnpauseBody { token: spec_wire_entity_opt(self.token_id) }
    }

    /// Checks the checksums of the ids, of the token, stopping at the first that fails.
    pub fn validate_checksums(&self, ledger_id: &LedgerId) -> (r: Result<(), Error>)
        ensures
            r is Ok <==> self.checksums_valid(ledger_id@),
            r matches Err(e) ==> e is BadEntityId,
            r matches Err(e) ==> self.token_id.reports(e, ledger_id@),
    {
        self.token_id.validate_checksum_for_ledger_id(ledger_id)
    }

    /// Whether any id carries a checksum.
    pub fn has_checksums(&self) -> (r: bool)
        ensures
            r == self.spec_has_checksums(),
    {
        match self.token_id {
            Some(id) => id.checksum.is_some(),
            None => false,
        }
    }

    /// The wire body: the ids without their checksums.
    pub fn to_protobuf(&self) -> (r: TokenUnpauseBody)
        ensures
            r == self.spec_body(),
    {
        TokenUnpauseBody { token: wire_entity_opt(&self.token_id) }
    }

    /// Encodes the data into the transaction body's one-of, for a transaction alone.
    pub fn to_transaction_data_protobuf(&self, chunk_info: &ChunkInfo) -> (r: Result<
        TransactionBodyData,
        Error,
    >)
        ensures
            r is Ok <==> chunk_info.total == 1,
            r matches Ok(b) ==> b == TransactionBodyData::TokenUnpause(self.spec_body()),
            r matches Err(e) ==> e == Error::MultipleChunksNotSupported,
    {
        match chunk_info.assert_single_transaction() {
            Ok(()) => Ok(TransactionBodyData::TokenUnpause(self.to_protobuf())),
            Err(e) => Err(e),
        }
    }

    /// Encodes the data into the schedulable body's one-of.
    pub fn to_schedulable_transaction_data_protobuf(&self) -> (r: SchedulableBodyData)
        ensures
            r == SchedulableBodyData::TokenUnpause(self.spec_body()),
    {
        SchedulableBodyData::TokenUnpause(self.to_protobuf())
    }

    /// The remote operation that submits this kind.
    pub fn execute(&self) -> (r: RemoteMethod)
        ensures
            r == RemoteMethod::UnpauseToken,
    {
        RemoteMethod::UnpauseToken
    }
}

impl TokenUnpauseTransaction {
    /// A new transaction with no ids set.
    pub fn new() -> (r: TokenUnpauseTransaction)
        ensures
            r.data.token_id is None,
            r.transaction_id is None,
    {
        Transaction { data: TokenUnpauseTransactionData::default(), transaction_id: None }
    }

    /// Returns the token to be unpaused.
    pub fn get_token_id(&self) -> (r: Option<TokenId>)
        ensures
            r == self.data.token_id,
    {
        self.data.token_id
    }

    /// Sets the token to be unpaused.
    pub fn token_id(&mut self, token_id: TokenId) -> (r: &mut Self)
        ensures
            *r == (Transaction {
                data: TokenUnpauseTransactionData { token_id: Some(token_id), ..old(self).data },
                ..*old(self)
            }),
            *final(self) == *final(r),
    {
        self.data.token_id = Some(token_id);
        self
    }
}

} // verus!
