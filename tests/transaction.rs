use hedera::entity_id::{Checksum, EntityId};
use hedera::error::Error;
use hedera::execute::validate_for_execution;
use hedera::ids::{AccountId, TokenId, TopicId};
use hedera::ledger_id::LedgerId;
use hedera::token::{TokenFreezeTransaction, TokenRevokeKycTransaction, TokenUnpauseTransaction};
use hedera::topic::{chunk_count_of, TopicMessageSubmitTransaction, TopicMessageSubmitTransactionData};
use hedera::transaction::{
    AnyTransactionData, ChunkInfo, RemoteMethod, Timestamp, TransactionId,
};
use hedera::wire::{
    SchedulableBodyData, TokenFreezeBody, TransactionBodyData, WireAccount, WireAccountId,
    WireEntityId,
};

fn tx_id(seconds: u64, nanos: u32) -> TransactionId {
    TransactionId { account_id: AccountId::from(1001), valid_start: Timestamp { seconds, nanos } }
}

#[test]
fn token_freeze_builder_and_getters() {
    let mut transaction = TokenFreezeTransaction::new();
    assert_eq!(transaction.get_account_id(), None);
    transaction.account_id(AccountId::from(1001)).token_id(TokenId::from(1002));
    assert_eq!(transaction.get_account_id(), Some(AccountId::from(1001)));
    assert_eq!(transaction.get_token_id(), Some(TokenId::from(1002)));
}

#[test]
fn token_freeze_encodes_without_checksums() {
    let mut transaction = TokenFreezeTransaction::new();
    let token = EntityId::from_str("0.0.1002-abcde").unwrap();
    transaction.account_id(AccountId::from(1001)).token_id(token);
    let data = AnyTransactionData::from(transaction.data().clone());
    let body = data.to_transaction_data_protobuf(&ChunkInfo::single()).unwrap();
    let expected = TokenFreezeBody {
        token: Some(WireEntityId { shard: 0, realm: 0, num: 1002 }),
        account: Some(WireAccountId { shard: 0, realm: 0, account: WireAccount::AccountNum(1001) }),
    };
    assert_eq!(body, TransactionBodyData::TokenFreeze(expected));
    assert_eq!(
        data.to_schedulable_transaction_data_protobuf(),
        Ok(SchedulableBodyData::TokenFreeze(expected))
    );
    assert_eq!(data.execute(), RemoteMethod::FreezeTokenAccount);
}

#[test]
fn evm_address_account_encodes_as_alias() {
    let mut acct = AccountId::from(7);
    acct.evm_address = Some([9u8; 20]);
    let mut transaction = TokenRevokeKycTransaction::new();
    transaction.account_id(acct);
    let body = transaction.data().to_protobuf();
    assert_eq!(
        body.account,
        Some(WireAccountId { shard: 0, realm: 0, account: WireAccount::EvmAddress([9u8; 20]) })
    );
    assert_eq!(body.token, None);
}

#[test]
fn single_transaction_kinds_refuse_several_chunks() {
    let mut transaction = TokenUnpauseTransaction::new();
    transaction.token_id(TokenId::from(5));
    let data = AnyTransactionData::from(transaction.data().clone());
    assert_eq!(
        data.to_transaction_data_protobuf(&ChunkInfo { number: 1, total: 2 }),
        Err(Error::MultipleChunksNotSupported)
    );
    assert!(data.to_transaction_data_protobuf(&ChunkInfo::single()).is_ok());
    assert_eq!(data.execute(), RemoteMethod::UnpauseToken);
}

#[test]
fn message_submission_is_not_schedulable() {
    let mut transaction = TopicMessageSubmitTransaction::new();
    transaction.topic_id(TopicId::from(1001)).message(b"Message".to_vec());
    let data = AnyTransactionData::from(transaction.data().clone());
    assert_eq!(data.to_schedulable_transaction_data_protobuf(), Err(Error::ScheduleNotSupported));
    assert_eq!(data.execute(), RemoteMethod::SubmitMessage);
}

#[test]
fn message_submission_defaults_to_one_chunk() {
    let transaction = TopicMessageSubmitTransaction::new();
    assert_eq!(transaction.data().chunk_number, 1);
    assert_eq!(transaction.data().chunk_total, 1);
    let body = transaction.data().to_transaction_data_protobuf();
    match body {
        TransactionBodyData::ConsensusSubmitMessage(b) => {
            assert!(b.message.is_empty());
            assert_eq!(b.chunk_info, None);
            assert_eq!(b.topic_id, None);
        }
        other => panic!("unexpected body {other:?}"),
    }
}

#[test]
fn message_submission_builder_sets_fields() {
    let mut transaction = TopicMessageSubmitTransaction::new();
    transaction
        .topic_id(TopicId::from(1001))
        .message(b"Message".to_vec())
        .initial_transaction_id(tx_id(1656352251, 277559886))
        .chunk_total(1)
        .chunk_number(1);
    let data = transaction.data();
    assert_eq!(data.topic_id, Some(TopicId::from(1001)));
    assert_eq!(data.message, Some(b"Message".to_vec()));
    assert_eq!(data.initial_transaction_id, Some(tx_id(1656352251, 277559886)));
    match data.to_transaction_data_protobuf() {
        TransactionBodyData::ConsensusSubmitMessage(b) => {
            let info = b.chunk_info.unwrap();
            assert_eq!((info.number, info.total), (1, 1));
            assert_eq!(info.initial_transaction_id.valid_start.seconds, 1656352251);
            assert_eq!(b.message, b"Message".to_vec());
        }
        other => panic!("unexpected body {other:?}"),
    }
}

#[test]
fn three_chunks_are_linked_to_the_first() {
    let mut data = TopicMessageSubmitTransactionData::default();
    data.topic_id = Some(TopicId::from(1001));
    data.message = Some(b"abcdefgh".to_vec());
    let ids = vec![tx_id(10, 0), tx_id(10, 1), tx_id(10, 2)];
    assert_eq!(chunk_count_of(8, 3), 3);
    let chunks = data.chunks(3, &ids);
    assert_eq!(chunks.len(), 3);
    let first = chunks[0].transaction_id;
    assert_eq!(first, ids[0]);
    assert_eq!(chunks[0].data.initial_transaction_id, Some(first));
    for (k, chunk) in chunks.iter().enumerate() {
        assert_eq!(chunk.transaction_id, ids[k]);
        assert_eq!(chunk.data.initial_transaction_id, Some(first));
        assert_eq!(chunk.data.chunk_number, k as i32 + 1);
        assert_eq!(chunk.data.chunk_total, 3);
        assert_eq!(chunk.data.topic_id, Some(TopicId::from(1001)));
    }
    assert_eq!(chunks[0].data.message, Some(b"abc".to_vec()));
    assert_eq!(chunks[1].data.message, Some(b"def".to_vec()));
    assert_eq!(chunks[2].data.message, Some(b"gh".to_vec()));
    assert_eq!((chunks[1].data.chunk_number, chunks[1].data.chunk_total), (2, 3));
    assert_eq!((chunks[2].data.chunk_number, chunks[2].data.chunk_total), (3, 3));
}

#[test]
fn empty_message_is_one_chunk() {
    let data = TopicMessageSubmitTransactionData::default();
    assert_eq!(chunk_count_of(0, 1024), 1);
    let chunks = data.chunks(1024, &vec![tx_id(1, 0)]);
    assert_eq!(chunks.len(), 1);
    assert_eq!(chunks[0].data.message, Some(Vec::new()));
    assert_eq!(chunk_count_of(2048, 1024), 2);
    assert_eq!(chunk_count_of(2049, 1024), 3);
}

#[test]
fn validation_order_and_short_circuit() {
    let bad_token = EntityId {
        shard: 0,
        realm: 0,
        num: 1002,
        checksum: Some(Checksum::from_str("aaaaa").unwrap()),
    };
    let mut bad_account = AccountId::from(1001);
    bad_account.checksum = Some(Checksum::from_str("bbbbb").unwrap());
    let mut freeze = TokenFreezeTransaction::new();
    freeze.account_id(bad_account).token_id(bad_token);
    match freeze.data().validate_checksums(&LedgerId::mainnet()) {
        Err(Error::BadEntityId { num, .. }) => assert_eq!(num, 1001),
        other => panic!("unexpected {other:?}"),
    }
    let mut kyc = TokenRevokeKycTransaction::new();
    kyc.account_id(bad_account).token_id(bad_token);
    match kyc.data().validate_checksums(&LedgerId::mainnet()) {
        Err(Error::BadEntityId { num, .. }) => assert_eq!(num, 1002),
        other => panic!("unexpected {other:?}"),
    }
}

#[test]
fn execution_validation_rules() {
    let mut plain = TokenUnpauseTransaction::new();
    plain.token_id(TokenId::from(5));
    let plain = AnyTransactionData::from(plain.data().clone());
    assert_eq!(validate_for_execution(&plain, None), Ok(()));

    let good = EntityId::from_str("0.0.123-vfmkw").unwrap();
    let mut checked = TokenUnpauseTransaction::new();
    checked.token_id(good);
    let checked = AnyTransactionData::from(checked.data().clone());
    assert!(checked.has_checksums());
    assert_eq!(validate_for_execution(&checked, Some(&LedgerId::mainnet())), Ok(()));
    assert!(matches!(
        validate_for_execution(&checked, Some(&LedgerId::testnet())),
        Err(Error::BadEntityId { .. })
    ));
    assert!(matches!(
        validate_for_execution(&checked, None),
        Err(Error::CannotPerformTaskWithoutLedgerId { .. })
    ));
}

#[test]
fn transaction_id_text_round_trip() {
    let id = TransactionId::from_str("1001@1656352251.277559886").unwrap();
    assert_eq!(id.account_id, AccountId::from(1001));
    assert_eq!(id.valid_start, Timestamp { seconds: 1656352251, nanos: 277559886 });
    assert_eq!(id.to_string(), "0.0.1001@1656352251.277559886");
    let short = TransactionId::from_str("0.0.5@7.5").unwrap();
    assert_eq!(short.valid_start, Timestamp { seconds: 7, nanos: 5 });
    assert_eq!(short.to_string(), "0.0.5@7.000000005");
    assert_eq!(TransactionId::from_str(&short.to_string()).unwrap(), short);
}

#[test]
fn transaction_id_text_errors() {
    assert_eq!(TransactionId::from_str("1001"), Err(Error::BasicParse));
    assert_eq!(TransactionId::from_str("1001@5"), Err(Error::BasicParse));
    assert_eq!(TransactionId::from_str("1001@5.1000000000"), Err(Error::BasicParse));
    assert_eq!(TransactionId::from_str("x@5.1"), Err(Error::BasicParse));
}
