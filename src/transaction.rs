//! Transactions, the closed set of their kinds, and the dispatch over that set.
use vstd::prelude::*;

use crate::entity_id::{id_text, parse_entity_id};
use crate::error::Error;
use crate::text::{
    chars_of, decimal_text, decimal_value, find_char, first_index, fixed_digits, is_u64_text,
    parse_u64, push_char, push_decimal, push_fixed_digits,
};
use crate::ids::AccountId;
use crate::ledger_id::LedgerId;
use crate::token::{TokenFreezeTransactionData, TokenRevokeKycTransactionData, TokenUnpauseTransactionData};
use crate::topic::TopicMessageSubmitTransactionData;
use crate::wire::{SchedulableBodyData, TransactionBodyData};

verus! {

/// A point in time: seconds and nanoseconds since the epoch.
#[derive(Clone, Copy, Debug, PartialEq, Eq, Hash, Structural)]
pub struct Timestamp {
    pub seconds: u64,
    pub nanos: u32,
}

/// The id of a transaction: the paying account and the moment from which it is valid.
#[derive(Clone, Copy, Debug, PartialEq, Eq, Hash)]
pub struct TransactionId {
    pub account_id: AccountId,
    pub valid_start: Timestamp,
}

/// What the text `account@seconds.nanos` of a transaction id stands for: the account's
/// entity id, the seconds and the nanoseconds (below one billion).
pub open spec fn parse_transaction_id(s: Seq<char>) -> Option<
    ((u64, u64, u64, Option<Seq<u8>>), u64, u32),
> {
    let k = first_index(s, '@');
    if k < 0 {
        None
    } else {
        match parse_entity_id(s.subrange(0, k)) {
            None => None,
            Some(account) => {
                let rest = s.subrange(k + 1, s.len() as int);
                let d = first_index(rest, '.');
                if d < 0 {
                    None
                } else {
                    let secs = rest.subrange(0, d);
                    let nanos = rest.subrange(d + 1, rest.len() as int);
                    if is_u64_text(secs) && is_u64_text(nanos) && decimal_value(nanos)
                        < 1_000_000_000 {
                        Some((account, decimal_value(secs) as u64, decimal_value(nanos) as u32))
                    } else {
                        None
                    }
                }
            },
        }
    }
}

/// The text of a transaction id: the account, `@`, the seconds, `.`, nine digits of nanoseconds.
pub open spec fn transaction_id_text(id: TransactionId) -> Seq<char> {
    id_text(id.account_id.shard, id.account_id.realm, id.account_id.num) + seq!['@']
        + decimal_text(id.valid_start.seconds as nat) + seq!['.'] + fixed_digits(
        id.valid_start.nanos as nat,
        9,
    )
}

impl TransactionId {
    /// Reads `account@seconds.nanos`.
    pub fn from_str(s: &str) -> (r: Result<TransactionId, Error>)
        ensures
            r is Ok <==> parse_transaction_id(s@) is Some,
            r matches Ok(id) ==> (id.account_id.entity()@, id.valid_start.seconds,
            id.valid_start.nanos) == parse_transaction_id(s@)->0 && id.account_id.evm_address is None,
            r matches Err(e) ==> e == Error::BasicParse,
    {
        let t = chars_of(s);
        let len = t.len();
        assert(t@.subrange(0, len as int) =~= t@);
        let k = match find_char(&t, 0, '@') {
            Some(k) => k,
            None => {
                return Err(Error::BasicParse);
            },
        };
        let account_id = match AccountId::from_str(s.substring_char(0, k)) {
            Ok(a) => a,
            Err(e) => {
                return Err(e);
            },
        };
        let ghost rest = t@.subrange(k + 1, len as int);
        let d = match find_char(&t, k + 1, '.') {
            Some(d) => d,
            None => {
                return Err(Error::BasicParse);
            },
        };
        assert(rest.subrange(0, d - k - 1) =~= t@.subrange(k + 1, d as int));
        assert(rest.subrange(d - k - 1 + 1, rest.len() as int) =~= t@.subrange(d + 1, len as int));
        let seconds = match parse_u64(&t, k + 1, d) {
            Some(v) => v,
            None => {
                return Err(Error::BasicParse);
            },
        };
        let nanos = match parse_u64(&t, d + 1, len) {
            Some(v) => v,
            None => {
                return Err(Error::BasicParse);
            },
        };
        if nanos >= 1_000_000_000 {
            return Err(Error::BasicParse);
        }
        Ok(
            TransactionId {
                account_id,
                valid_start: Timestamp { seconds, nanos: nanos as u32 },
            },
        )
    }

    /// Writes `account@seconds.nanos`, the nanoseconds as nine digits.
    pub fn to_string(&self) -> (r: String)
        ensures
            r@ == transaction_id_text(*self),
    {
        let mut r = self.account_id.to_string();
        push_char(&mut r, '@');
        push_decimal(&mut r, self.valid_start.seconds);
        push_char(&mut r, '.');
        push_fixed_digits(&mut r, self.valid_start.nanos as u64, 9);
        assert(r@ =~= transaction_id_text(*self));
        r
    }
}

/// The text of a transaction id reads back as the same account (without a checksum),
/// seconds and nanoseconds.
pub proof fn lemma_transaction_id_round_trip(id: TransactionId)
    requires
        id.valid_start.nanos < 1_000_000_000,
    ensures
        parse_transaction_id(transaction_id_text(id)) == Some(
            (
                (id.account_id.shard, id.account_id.realm, id.account_id.num, None::<Seq<u8>>),
                id.valid_start.seconds,
                id.valid_start.nanos,
            ),
        ),
{
    let a = id_text(id.account_id.shard, id.account_id.realm, id.account_id.num);
    let secs = decimal_text(id.valid_start.seconds as nat);
    let nanos = fixed_digits(id.valid_start.nanos as nat, 9);
    let t = transaction_id_text(id);
    assert(t =~= a + seq!['@'] + (secs + seq!['.'] + nanos));
    crate::entity_id::lemma_id_text_chars(id.account_id.shard, id.account_id.realm, id.account_id.num);
    crate::entity_id::lemma_parse_format_round_trip(
        id.account_id.shard,
        id.account_id.realm,
        id.account_id.num,
    );
    assert forall|i: int| 0 <= i < a.len() implies t[i] == a[i] && #[trigger] a[i] != '@' by {
        assert(crate::entity_id::is_id_char(a[i]));
    }
    assert(crate::text::is_first_index(t, '@', a.len() as int));
    crate::text::lemma_first_index_unique(t, '@', a.len() as int);
    assert(t.subrange(0, a.len() as int) =~= a);
    let rest = t.subrange(a.len() as int + 1, t.len() as int);
    assert(rest =~= secs + seq!['.'] + nanos);
    crate::text::lemma_decimal_round_trip(id.valid_start.seconds as nat);
    assert forall|i: int| 0 <= i < secs.len() implies rest[i] == secs[i] && #[trigger] secs[i]
        != '.' by {
        assert(crate::text::is_digit_char(secs[i]));
    }
    assert(crate::text::is_first_index(rest, '.', secs.len() as int));
    crate::text::lemma_first_index_unique(rest, '.', secs.len() as int);
    assert(rest.subrange(0, secs.len() as int) =~= secs);
    assert(rest.subrange(secs.len() as int + 1, rest.len() as int) =~= nanos);
    crate::text::lemma_fixed_digits(id.valid_start.nanos as nat, 9);
    reveal_with_fuel(crate::text::pow10, 10);
    assert(crate::text::pow10(9) == 1_000_000_000);
    vstd::arithmetic::div_mod::lemma_small_mod(id.valid_start.nanos as nat, 1_000_000_000);
    assert(decimal_value(nanos) == id.valid_start.nanos);
    assert(is_u64_text(nanos));
    assert(is_u64_text(secs) && decimal_value(secs) == id.valid_start.seconds);
    assert(parse_entity_id(t.subrange(0, a.len() as int)) == Some(
        (id.account_id.shard, id.account_id.realm, id.account_id.num, None::<Seq<u8>>),
    ));
}

/// Where the transaction being encoded stands among the chunks of its message.
///
/// A transaction that was never told otherwise is chunk 1 of 1.
#[derive(Clone, Copy, Debug, PartialEq, Eq, Structural)]
pub struct ChunkInfo {
    /// From 1 to `total`.
    pub number: usize,
    pub total: usize,
}

impl ChunkInfo {
    /// Chunk 1 of 1.
    pub fn single() -> (r: ChunkInfo)
        ensures
            r.number == 1 && r.total == 1,
    {
        ChunkInfo { number: 1, total: 1 }
    }

    /// Fails, for an operation that encodes one transaction alone, when there are several chunks.
    pub fn assert_single_transaction(&self) -> (r: Result<(), Error>)
        ensures
            r is Ok <==> self.total == 1,
            r matches Err(e) ==> e == Error::MultipleChunksNotSupported,
    {
        if self.total == 1 {
            Ok(())
        } else {
            Err(Error::MultipleChunksNotSupported)
        }
    }
}

/// The remote operation that submits a transaction of a kind.
#[derive(Clone, Copy, Debug, PartialEq, Eq, Structural)]
pub enum RemoteMethod {
    /// Token service: freeze an account's holding of a token.
    FreezeTokenAccount,
    /// Token service: revoke an account's KYC for a token.
    RevokeKycFromTokenAccount,
    /// Token service: unpause a token.
    UnpauseToken,
    /// Consensus service: submit a message.
    SubmitMessage,
}

/// A transaction under construction: its kind's data and, once known, its id.
#[derive(Clone, Debug)]
pub struct Transaction<D> {
    pub data: D,
    pub transaction_id: Option<TransactionId>,
}

impl<D> Transaction<D> {
    /// The data of the transaction's kind.
    pub fn data(&self) -> (r: &D)
        ensures
            *r == self.data,
    {
        &self.data
    }
}

/// The data of a transaction of any kind.
#[derive(Clone, Debug)]
pub enum AnyTransactionData {
    TokenFreeze(TokenFreezeTransactionData),
    TokenRevokeKyc(TokenRevokeKycTransactionData),
    TokenUnpause(TokenUnpauseTransactionData),
    TopicMessageSubmit(TopicMessageSubmitTransactionData),
}

/// A transaction of any kind.
pub type AnyTransaction = Transaction<AnyTransactionData>;

impl AnyTransactionData {
    /// Every checksum that the data carries is absent or is the one the ledger gives.
    pub open spec fn checksums_valid(&self, ledger: Seq<u8>) -> bool {
        match self {
            AnyTransactionData::TokenFreeze(d) => d.checksums_valid(ledger),
            AnyTransactionData::TokenRevokeKyc(d) => d.checksums_valid(ledger),
            AnyTransactionData::TokenUnpause(d) => d.checksums_valid(ledger),
            AnyTransactionData::TopicMessageSubmit(d) => d.checksums_valid(ledger),
        }
    }

    /// The data carries at least one checksum.
    pub open spec fn spec_has_checksums(&self) -> bool {
        match self {
            AnyTransactionData::TokenFreeze(d) => d.spec_has_checksums(),
            AnyTransactionData::TokenRevokeKyc(d) => d.spec_has_checksums(),
            AnyTransactionData::TokenUnpause(d) => d.spec_has_checksums(),
            AnyTransactionData::TopicMessageSubmit(d) => d.spec_has_checksums(),
        }
    }

    /// The body the data is encoded into, when it can be encoded for this chunk.
    pub open spec fn spec_body(&self, chunk_info: ChunkInfo) -> Option<TransactionBodyData> {
        match self {
            AnyTransactionData::TokenFreeze(d) => if chunk_info.total == 1 {
                Some(TransactionBodyData::TokenFreeze(d.spec_body()))
            } else {
                None
            },
            AnyTransactionData::TokenRevokeKyc(d) => if chunk_info.total == 1 {
                Some(TransactionBodyData::TokenRevokeKyc(d.spec_body()))
            } else {
                None
            },
            AnyTransactionData::TokenUnpause(d) => if chunk_info.total == 1 {
                Some(TransactionBodyData::TokenUnpause(d.spec_body()))
            } else {
                None
            },
            AnyTransactionData::TopicMessageSubmit(d) => None,
        }
    }

    /// Checks every checksum the data carries against the ledger, in the kind's order,
    /// stopping at the first that fails.
    pub fn validate_checksums(&self, ledger_id: &LedgerId) -> (r: Result<(), Error>)
        ensures
            r is Ok <==> self.checksums_valid(ledger_id@),
            r matches Err(e) ==> e is BadEntityId,
    {
        match self {
            AnyTransactionData::TokenFreeze(d) => d.validate_checksums(ledger_id),
            AnyTransactionData::TokenRevokeKyc(d) => d.validate_checksums(ledger_id),
            AnyTransactionData::TokenUnpause(d) => d.validate_checksums(ledger_id),
            AnyTransactionData::TopicMessageSubmit(d) => d.validate_checksums_for_ledger_id(
                ledger_id,
            ),
        }
    }

    /// Whether the data carries any checksum at all.
    pub fn has_checksums(&self) -> (r: bool)
        ensures
            r == self.spec_has_checksums(),
    {
        match self {
            AnyTransactionData::TokenFreeze(d) => d.has_checksums(),
            AnyTransactionData::TokenRevokeKyc(d) => d.has_checksums(),
            AnyTransactionData::TokenUnpause(d) => d.has_checksums(),
            AnyTransactionData::TopicMessageSubmit(d) => d.has_checksums(),
        }
    }

    /// Encodes the data into the transaction body's one-of.
    ///
    /// The token kinds encode one transaction alone, and refuse a chunk of several.
    pub fn to_transaction_data_protobuf(&self, chunk_info: &ChunkInfo) -> (r: Result<
        TransactionBodyData,
        Error,
    >)
        ensures
            !(self is TopicMessageSubmit) ==> (r is Ok <==> chunk_info.total == 1),
            !(self is TopicMessageSubmit) && r is Ok ==> r->Ok_0 == self.spec_body(
                *chunk_info,
            )->0,
            r matches Err(e) ==> e == Error::MultipleChunksNotSupported,
            self matches AnyTransactionData::TopicMessageSubmit(d) ==> r matches Ok(b)
                && d.body_matches(b),
    {
        match self {
            AnyTransactionData::TokenFreeze(d) => d.to_transaction_data_protobuf(chunk_info),
            AnyTransactionData::TokenRevokeKyc(d) => d.to_transaction_data_protobuf(chunk_info),
            AnyTransactionData::TokenUnpause(d) => d.to_transaction_data_protobuf(chunk_info),
            AnyTransactionData::TopicMessageSubmit(d) => Ok(d.to_transaction_data_protobuf()),
        }
    }

    /// Encodes the data into the schedulable body's one-of; a message submission cannot be
    /// scheduled.
    pub fn to_schedulable_transaction_data_protobuf(&self) -> (r: Result<SchedulableBodyData, Error>)
        ensures
            self matches AnyTransactionData::TokenFreeze(d) ==> r == Ok::<
                SchedulableBodyData,
                Error,
            >(SchedulableBodyData::TokenFreeze(d.spec_body())),
            self matches AnyTransactionData::TokenRevokeKyc(d) ==> r == Ok::<
                SchedulableBodyData,
                Error,
            >(SchedulableBodyData::TokenRevokeKyc(d.spec_body())),
            self matches AnyTransactionData::TokenUnpause(d) ==> r == Ok::<
                SchedulableBodyData,
                Error,
            >(SchedulableBodyData::TokenUnpause(d.spec_body())),
            self is TopicMessageSubmit ==> r == Err::<SchedulableBodyData, Error>(
                Error::ScheduleNotSupported,
            ),
    {
        match self {
            AnyTransactionData::TokenFreeze(d) => Ok(
                d.to_schedulable_transaction_data_protobuf(),
            ),
            AnyTransactionData::TokenRevokeKyc(d) => Ok(
                d.to_schedulable_transaction_data_protobuf(),
            ),
            AnyTransactionData::TokenUnpause(d) => Ok(
                d.to_schedulable_transaction_data_protobuf(),
            ),
            AnyTransactionData::TopicMessageSubmit(_) => Err(Error::ScheduleNotSupported),
        }
    }

    /// The remote operation that submits this kind of transaction.
    pub fn execute(&self) -> (r: RemoteMethod)
        ensures
            self is TokenFreeze ==> r == RemoteMethod::FreezeTokenAccount,
            self is TokenRevokeKyc ==> r == RemoteMethod::RevokeKycFromTokenAccount,
            self is TokenUnpause ==> r == RemoteMethod::UnpauseToken,
            self is TopicMessageSubmit ==> r == RemoteMethod::SubmitMessage,
    {
        match self {
            AnyTransactionData::TokenFreeze(d) => d.execute(),
            AnyTransactionData::TokenRevokeKyc(d) => d.execute(),
            AnyTransactionData::TokenUnpause(d) => d.execute(),
            AnyTransactionData::TopicMessageSubmit(d) => d.execute(),
        }
    }
}

impl From<TokenFreezeTransactionData> for AnyTransactionData {
    fn from(transaction: TokenFreezeTransactionData) -> (r: AnyTransactionData) {
        AnyTransactionData::TokenFreeze(transaction)
    }
}

impl vstd::std_specs::convert::FromSpecImpl<TokenFreezeTransactionData> for AnyTransactionData {
    open spec fn obeys_from_spec() -> bool {
        true
    }

    open spec fn from_spec(transaction: TokenFreezeTransactionData) -> AnyTransactionData {
        AnyTransactionData::TokenFreeze(transaction)
    }
}

impl From<TokenRevokeKycTransactionData> for AnyTransactionData {
    fn from(transaction: TokenRevokeKycTransactionData) -> (r: AnyTransactionData) {
        AnyTransactionData::TokenRevokeKyc(transaction)
    }
}

impl vstd::std_specs::convert::FromSpecImpl<TokenRevokeKycTransactionData> for AnyTransactionData {
    open spec fn obeys_from_spec() -> bool {
        true
    }

    open spec fn from_spec(transaction: TokenRevokeKycTransactionData) -> AnyTransactionData {
        AnyTransactionData::TokenRevokeKyc(transaction)
    }
}

impl From<TokenUnpauseTransactionData> for AnyTransactionData {
    fn from(transaction: TokenUnpauseTransactionData) -> (r: AnyTransactionData) {
        AnyTransactionData::TokenUnpause(transaction)
    }
}

impl vstd::std_specs::convert::FromSpecImpl<TokenUnpauseTransactionData> for AnyTransactionData {
    open spec fn obeys_from_spec() -> bool {
        true
    }

    open spec fn from_spec(transaction: TokenUnpauseTransactionData) -> AnyTransactionData {
        AnyTransactionData::TokenUnpause(transaction)
    }
}

impl From<TopicMessageSubmitTransactionData> for AnyTransactionData {
    fn from(transaction: TopicMessageSubmitTransactionData) -> (r: AnyTransactionData) {
        AnyTransactionData::TopicMessageSubmit(transaction)
    }
}

impl vstd::std_specs::convert::FromSpecImpl<TopicMessageSubmitTransactionData> for
    AnyTransactionData {
    open spec fn obeys_from_spec() -> bool {
        true
    }

    open spec fn from_spec(transaction: TopicMessageSubmitTransactionData) -> AnyTransactionData {
        AnyTransactionData::TopicMessageSubmit(transaction)
    }
}

} // verus!
