//! Message submission to a consensus topic, and the splitting of a long message into chunks.
use vstd::prelude::*;

use crate::error::Error;
use crate::ids::{AutoValidateChecksum, TopicId};
use crate::ledger_id::LedgerId;
use crate::transaction::{RemoteMethod, Transaction, TransactionId};
use crate::wire::{
    spec_wire_entity_opt, spec_wire_transaction_id, wire_entity_opt, wire_transaction_id,
    ConsensusSubmitMessageBody, TransactionBodyData, WireChunkInfo,
};

verus! {

/// The data of a message submission.
#[derive(Clone, Debug, PartialEq, Eq)]
pub struct TopicMessageSubmitTransactionData {
    /// The topic to submit the message to.
    pub topic_id: Option<TopicId>,
    /// The message, or this chunk of it.
    pub message: Option<Vec<u8>>,
    /// The id of the transaction of the first chunk, copied to every chunk of the message.
    pub initial_transaction_id: Option<TransactionId>,
    /// The number of chunks of the message; 1 unless told otherwise.
    pub chunk_total: i32,
    /// Which chunk this is, from 1 to `chunk_total`; 1 unless told otherwise.
    pub chunk_number: i32,
}

/// Submits a message to a topic; the topic's submit key, if any, must sign it.
pub type TopicMessageSubmitTransaction = Transaction<TopicMessageSubmitTransactionData>;

impl Default for TopicMessageSubmitTransactionData {
    fn default() -> (r: TopicMessageSubmitTransactionData)
        ensures
            r.topic_id is None,
            r.message is None,
            r.initial_transaction_id is None,
            r.chunk_total == 1,
            r.chunk_number == 1,
    {
        TopicMessageSubmitTransactionData {
            topic_id: None,
            message: None,
            initial_transaction_id: None,
            chunk_total: 1,
            chunk_number: 1,
        }
    }
}

/// The bytes of a message that may be absent.
pub open spec fn message_bytes(message: Option<Vec<u8>>) -> Seq<u8> {
    match message {
        Some(m) => m@,
        None => Seq::empty(),
    }
}

/// How many chunks of at most `size` bytes a message of `len` bytes takes; at least one.
pub open spec fn chunk_count(len: nat, size: nat) -> nat {
    if len == 0 {
        1
    } else if len % size == 0 {
        len / size
    } else {
        len / size + 1
    }
}

/// The bytes of chunk `i`, counting from 0.
pub open spec fn chunk_message(msg: Seq<u8>, size: nat, i: nat) -> Seq<u8> {
    msg.subrange(
        (i * size) as int,
        if (i + 1) * size < msg.len() {
            ((i + 1) * size) as int
        } else {
            msg.len() as int
        },
    )
}

/// One chunk of a message: its transaction's id and its data.
#[derive(Clone, Debug, PartialEq, Eq)]
pub struct MessageChunk {
    pub transaction_id: TransactionId,
    pub data: TopicMessageSubmitTransactionData,
}

/// How many chunks of at most `size` bytes a message of `len` bytes takes.
pub fn chunk_count_of(len: usize, size: usize) -> (r: usize)
    requires
        size > 0,
    ensures
        r == chunk_count(len as nat, size as nat),
        r >= 1,
{
    if len == 0 {
        1
    } else if len % size == 0 {
        proof {
            vstd::arithmetic::div_mod::lemma_fundamental_div_mod(len as int, size as int);
            let q = len as int / size as int;
            assert(q >= 1) by (nonlinear_arith)
                requires
                    len == size * q,
                    len > 0,
                    size > 0,
            ;
        }
        len / size
    } else {
        assert(len / size < len) by (nonlinear_arith)
            requires
                len > 0,
                size > 1,
        ;
        len / size + 1
    }
}

proof fn lemma_chunk_start(len: nat, size: nat, i: nat)
    requires
        size > 0,
        i < chunk_count(len, size),
    ensures
        i * size <= len,
        len > 0 ==> i * size < len,
        (i + 1) * size == i * size + size,
{
    let q = len / size;
    let rem = len % size;
    vstd::arithmetic::div_mod::lemma_fundamental_div_mod(len as int, size as int);
    assert((i + 1) * size == i * size + size) by (nonlinear_arith);
    if len == 0 {
        assert(i == 0);
    } else if rem == 0 {
        assert(i * size < len) by (nonlinear_arith)
            requires
                i < q,
                len == size * q,
                size > 0,
        ;
    } else {
        assert(i * size < len) by (nonlinear_arith)
            requires
                i <= q,
                len == size * q + rem,
                rem > 0,
        ;
    }
}

/// The first `n` chunks joined in order.
pub open spec fn joined_chunks(msg: Seq<u8>, size: nat, n: nat) -> Seq<u8>
    decreases n,
{
    if n == 0 {
        Seq::empty()
    } else {
        joined_chunks(msg, size, (n - 1) as nat) + chunk_message(msg, size, (n - 1) as nat)
    }
}

proof fn lemma_joined_prefix(msg: Seq<u8>, size: nat, n: nat)
    requires
        size > 0,
        n <= chunk_count(msg.len(), size),
    ensures
        joined_chunks(msg, size, n) == msg.subrange(
            0,
            if n * size < msg.len() {
                (n * size) as int
            } else {
                msg.len() as int
            },
        ),
    decreases n,
{
    if n == 0 {
        assert(joined_chunks(msg, size, 0) =~= msg.subrange(0, 0));
    } else {
        lemma_joined_prefix(msg, size, (n - 1) as nat);
        lemma_chunk_start(msg.len(), size, (n - 1) as nat);
        let a = (n - 1) * size;
        assert(a <= msg.len());
        assert(joined_chunks(msg, size, n) =~= msg.subrange(
            0,
            if n * size < msg.len() {
                (n * size) as int
            } else {
                msg.len() as int
            },
        ));
    }
}

/// The chunks of a message, joined in order, are the message: nothing is lost or repeated.
pub proof fn lemma_chunks_cover_message(msg: Seq<u8>, size: nat)
    requires
        size > 0,
    ensures
        joined_chunks(msg, size, chunk_count(msg.len(), size)) == msg,
{
    let n = chunk_count(msg.len(), size);
    lemma_joined_prefix(msg, size, n);
    let len = msg.len();
    vstd::arithmetic::div_mod::lemma_fundamental_div_mod(len as int, size as int);
    let q = len / size;
    let rem = len % size;
    if len > 0 {
        if rem == 0 {
            assert(n * size >= len) by (nonlinear_arith)
                requires
                    n == q,
                    len == size * q + rem,
                    rem == 0,
            ;
        } else {
            assert(n * size >= len) by (nonlinear_arith)
                requires
                    n == q + 1,
                    len == size * q + rem,
                    rem < size,
            ;
        }
    }
    assert(msg.subrange(0, len as int) =~= msg);
}

/// The bytes `b[from..to]`.
fn copy_bytes(b: &Vec<u8>, from: usize, to: usize) -> (r: Vec<u8>)
    requires
        from <= to <= b@.len(),
    ensures
        r@ == b@.subrange(from as int, to as int),
{
    let mut r: Vec<u8> = Vec::new();
    let mut i: usize = from;
    while i < to
        invariant
            from <= i <= to <= b@.len(),
            r@ == b@.subrange(from as int, i as int),
        decreases to - i,
    {
        r.push(b[i]);
        i = i + 1;
        assert(r@ =~= b@.subrange(from as int, i as int));
    }
    r
}

impl TopicMessageSubmitTransactionData {
    pub open spec fn checksums_valid(&self, ledger: Seq<u8>) -> bool {
        self.topic_id.checksum_valid(ledger)
    }

    pub open spec fn spec_has_checksums(&self) -> bool {
        self.topic_id matches Some(id) && id.checksum is Some
    }

    /// The chunk information that the wire body carries: present once an initial
    /// transaction id is known.
    pub open spec fn spec_chunk_info(&self) -> Option<WireChunkInfo> {
        match self.initial_transaction_id {
            Some(id) => Some(
                WireChunkInfo {
                    initial_transaction_id: spec_wire_transaction_id(id),
                    total: self.chunk_total,
                    number: self.chunk_number,
                },
            ),
            None => None,
        }
    }

    /// `b` is the body of this message submission.
    pub open spec fn body_matches(&self, b: TransactionBodyData) -> bool {
        b matches TransactionBodyData::ConsensusSubmitMessage(body) && body.topic_id
            == spec_wire_entity_opt(self.topic_id) && body.message@ == message_bytes(self.message)
            && body.chunk_info == self.spec_chunk_info()
    }

    /// The length of the message; an absent message is empty.
    pub fn message_len(&self) -> (r: usize)
        ensures
            r == message_bytes(self.message).len(),
    {
        match &self.message {
            Some(m) => m.len(),
            None => 0,
        }
    }

    /// Checks the checksum of the topic id, if one is present.
    pub fn validate_checksums_for_ledger_id(&self, ledger_id: &LedgerId) -> (r: Result<(), Error>)
        ensures
            r is Ok <==> self.checksums_valid(ledger_id@),
            r matches Err(e) ==> self.topic_id.reports(e, ledger_id@) && e is BadEntityId,
    {
        self.topic_id.validate_checksum_for_ledger_id(ledger_id)
    }

    /// Whether the topic id carries a checksum.
    pub fn has_checksums(&self) -> (r: bool)
        ensures
            r == self.spec_has_checksums(),
    {
        match self.topic_id {
            Some(id) => id.checksum.is_some(),
            None => false,
        }
    }

    /// Encodes the data into the transaction body's one-of; an absent message is empty.
    pub fn to_transaction_data_protobuf(&self) -> (r: TransactionBodyData)
        ensures
            self.body_matches(r),
    {
        let topic_id = wire_entity_opt(&self.topic_id);
        let chunk_info = match &self.initial_transaction_id {
            Some(initial_id) => Some(
                WireChunkInfo {
                    initial_transaction_id: wire_transaction_id(initial_id),
                    number: self.chunk_number,
                    total: self.chunk_total,
                },
            ),
            None => None,
        };
        let message = match &self.message {
            Some(m) => m.clone(),
            None => Vec::new(),
        };
        TransactionBodyData::ConsensusSubmitMessage(
            ConsensusSubmitMessageBody { topic_id, message, chunk_info },
        )
    }

    /// The remote operation that submits a message.
    pub fn execute(&self) -> (r: RemoteMethod)
        ensures
            r == RemoteMethod::SubmitMessage,
    {
        RemoteMethod::SubmitMessage
    }

    /// Splits the message into chunks of at most `chunk_size` bytes, in order.
    ///
    /// Chunk `k` (from 0) gets `transaction_ids[k]` and the number `k + 1` of the total;
    /// every chunk names the first chunk's transaction id as the initial one, so the first
    /// chunk is its own initial transaction. An empty message is one empty chunk.
    pub fn chunks(&self, chunk_size: usize, transaction_ids: &Vec<TransactionId>) -> (r: Vec<
        MessageChunk,
    >)
        requires
            chunk_size > 0,
            transaction_ids@.len() == chunk_count(
                message_bytes(self.message).len(),
                chunk_size as nat,
            ),
            transaction_ids@.len() <= i32::MAX,
        ensures
            r@.len() == transaction_ids@.len(),
            forall|k: int|
                0 <= k < r@.len() ==> {
                    &&& (#[trigger] r@[k]).transaction_id == transaction_ids@[k]
                    &&& r@[k].data.topic_id == self.topic_id
                    &&& r@[k].data.initial_transaction_id == Some(transaction_ids@[0])
                    &&& r@[k].data.chunk_number == k + 1
                    &&& r@[k].data.chunk_total == r@.len()
                    &&& r@[k].data.message is Some
                    &&& r@[k].data.message->0@ == chunk_message(
                        message_bytes(self.message),
                        chunk_size as nat,
                        k as nat,
                    )
                },
    {
        let empty: Vec<u8> = Vec::new();
        let msg: &Vec<u8> = match &self.message {
            Some(m) => m,
            None => &empty,
        };
        assert(msg@ == message_bytes(self.message));
        let len = msg.len();
        let n = chunk_count_of(len, chunk_size);
        let first = transaction_ids[0];
        let mut r: Vec<MessageChunk> = Vec::new();
        let mut i: usize = 0;
        while i < n
            invariant
                msg@ == message_bytes(self.message),
                len == msg@.len(),
                chunk_size > 0,
                n == chunk_count(len as nat, chunk_size as nat),
                n == transaction_ids@.len(),
                n <= i32::MAX,
                first == transaction_ids@[0],
                i <= n,
                r@.len() == i,
                forall|k: int|
                    0 <= k < i ==> {
                        &&& (#[trigger] r@[k]).transaction_id == transaction_ids@[k]
                        &&& r@[k].data.topic_id == self.topic_id
                        &&& r@[k].data.initial_transaction_id == Some(transaction_ids@[0])
                        &&& r@[k].data.chunk_number == k + 1
                        &&& r@[k].data.chunk_total == n
                        &&& r@[k].data.message is Some
                        &&& r@[k].data.message->0@ == chunk_message(
                            msg@,
                            chunk_size as nat,
                            k as nat,
                        )
                    },
            decreases n - i,
        {
            proof {
                lemma_chunk_start(len as nat, chunk_size as nat, i as nat);
            }
            let start = i * chunk_size;
            let end = if len - start > chunk_size {
                start + chunk_size
            } else {
                len
            };
            let part = copy_bytes(msg, start, end);
            let data = TopicMessageSubmitTransactionData {
                topic_id: self.topic_id,
                message: Some(part),
                initial_transaction_id: Some(first),
                chunk_total: n as i32,
                chunk_number: (i + 1) as i32,
            };
            r.push(MessageChunk { transaction_id: transaction_ids[i], data });
            i = i + 1;
        }
        r
    }
}

impl TopicMessageSubmitTransaction {
    /// A new submission: no topic, no message, chunk 1 of 1.
    pub fn new() -> (r: TopicMessageSubmitTransaction)
        ensures
            r.data.topic_id is None,
            r.data.message is None,
            r.data.initial_transaction_id is None,
            r.data.chunk_total == 1,
            r.data.chunk_number == 1,
            r.transaction_id is None,
    {
        Transaction { data: TopicMessageSubmitTransactionData::default(), transaction_id: None }
    }

    /// Sets the topic ID to submit this message to.
    pub fn topic_id(&mut self, id: TopicId) -> (r: &mut Self)
        ensures
            *r == (Transaction {
                data: TopicMessageSubmitTransactionData { topic_id: Some(id), ..old(self).data },
                ..*old(self)
            }),
            *final(self) == *final(r),
    {
        self.data.topic_id = Some(id);
        self
    }

    /// Sets the message to be submitted.
    pub fn message(&mut self, bytes: Vec<u8>) -> (r: &mut Self)
        ensures
            *r == (Transaction {
                data: TopicMessageSubmitTransactionData { message: Some(bytes), ..old(self).data },
                ..*old(self)
            }),
            *final(self) == *final(r),
    {
        self.data.message = Some(bytes);
        self
    }

    /// Sets the id of the transaction of the first chunk.
    pub fn initial_transaction_id(&mut self, id: TransactionId) -> (r: &mut Self)
        ensures
            *r == (Transaction {
                data: TopicMessageSubmitTransactionData {
                    initial_transaction_id: Some(id),
                    ..old(self).data
                },
                ..*old(self)
            }),
            *final(self) == *final(r),
    {
        self.data.initial_transaction_id = Some(id);
        self
    }

    /// Sets the total number of chunks in the message.
    pub fn chunk_total(&mut self, total: u32) -> (r: &mut Self)
        requires
            total <= i32::MAX,
        ensures
            *r == (Transaction {
                data: TopicMessageSubmitTransactionData {
                    chunk_total: total as i32,
                    ..old(self).data
                },
                ..*old(self)
            }),
            *final(self) == *final(r),
    {
        self.data.chunk_total = total as i32;
        self
    }

    /// Sets the number (from 1 to the total) of this chunk in the message.
    pub fn chunk_number(&mut self, number: u32) -> (r: &mut Self)
        requires
            number <= i32::MAX,
        ensures
            *r == (Transaction {
                data: TopicMessageSubmitTransactionData {
                    chunk_number: number as i32,
                    ..old(self).data
                },
                ..*old(self)
            }),
            *final(self) == *final(r),
    {
        self.data.chunk_number = number as i32;
        self
    }
}

} // verus!
