use hedera::entity_id::{generate_checksum, Checksum, EntityId};
use hedera::error::{Error, LedgerTask};
use hedera::ids::{AccountId, AutoValidateChecksum, ScheduleId};
use hedera::ledger_id::LedgerId;

#[test]
fn checksum_of_published_example() {
    let c = generate_checksum("0.0.123", &LedgerId::mainnet());
    assert_eq!(c.to_string(), "vfmkw");
}

#[test]
fn checksum_values_per_ledger() {
    assert_eq!(generate_checksum("0.0.1001", &LedgerId::testnet()).to_string(), "eevit");
    assert_eq!(generate_checksum("0.0.1001", &LedgerId::mainnet()).to_string(), "urkbk");
    assert_eq!(generate_checksum("0.0.1001", &LedgerId::previewnet()).to_string(), "nsgqc");
    let other = LedgerId::from_bytes(vec![0x00, 0xff, 0x00, 0xff]);
    assert_eq!(generate_checksum("0.0.1001", &other).to_string(), "tyfak");
}

#[test]
fn checksum_is_deterministic() {
    let a = generate_checksum("0.0.1001", &LedgerId::testnet());
    let b = generate_checksum("0.0.1001", &LedgerId::testnet());
    assert_eq!(a, b);
    assert_ne!(a, generate_checksum("0.0.1002", &LedgerId::testnet()));
    assert_ne!(a, generate_checksum("0.0.1001", &LedgerId::mainnet()));
}

#[test]
fn checksum_validates_on_its_ledger_only() {
    let expected = generate_checksum("0.0.1001", &LedgerId::testnet());
    let text = format!("0.0.1001-{}", expected.to_string());
    let id = EntityId::from_str(&text).unwrap();
    assert_eq!(id.checksum, Some(expected));
    assert_eq!(id.validate_checksum_for_ledger_id(&LedgerId::testnet()), Ok(()));
    let err = id.validate_checksum_for_ledger_id(&LedgerId::mainnet()).unwrap_err();
    match err {
        Error::BadEntityId { shard, realm, num, present_checksum, expected_checksum } => {
            assert_eq!((shard, realm, num), (0, 0, 1001));
            assert_eq!(present_checksum, expected);
            assert_eq!(expected_checksum.to_string(), "urkbk");
        }
        other => panic!("unexpected error {other:?}"),
    }
}

#[test]
fn absent_checksum_always_validates() {
    let id = EntityId::from_str("0.0.1001").unwrap();
    for ledger in [LedgerId::mainnet(), LedgerId::testnet(), LedgerId::from_bytes(vec![9, 9])] {
        assert_eq!(id.validate_checksum_for_ledger_id(&ledger), Ok(()));
        assert_eq!(EntityId::validate_checksum(0, 0, 1001, &None, Some(&ledger)), Ok(()));
    }
    assert_eq!(EntityId::validate_checksum(0, 0, 1001, &None, None), Ok(()));
}

#[test]
fn present_checksum_needs_a_ledger() {
    let c = Checksum::from_str("eevit").unwrap();
    assert_eq!(
        EntityId::validate_checksum(0, 0, 1001, &Some(c), None),
        Err(Error::CannotPerformTaskWithoutLedgerId { task: LedgerTask::ValidateChecksum })
    );
    assert_eq!(EntityId::validate_checksum(0, 0, 1001, &Some(c), Some(&LedgerId::testnet())), Ok(()));
}

#[test]
fn single_number_shorthand() {
    let id = EntityId::from_str("1001").unwrap();
    assert_eq!(id, EntityId { shard: 0, realm: 0, num: 1001, checksum: None });
    assert_eq!(id, EntityId::from(1001));
}

#[test]
fn malformed_ids_fail_with_format_error() {
    assert_eq!(EntityId::from_str("0.0"), Err(Error::BasicParse));
    assert_eq!(EntityId::from_str("abc"), Err(Error::BasicParse));
    assert_eq!(EntityId::from_str(""), Err(Error::BasicParse));
    assert_eq!(EntityId::from_str("0.0.1.2"), Err(Error::BasicParse));
    assert_eq!(EntityId::from_str("0..1"), Err(Error::BasicParse));
    assert_eq!(EntityId::from_str("+1"), Err(Error::BasicParse));
    assert_eq!(EntityId::from_str("0.0.18446744073709551616"), Err(Error::BasicParse));
    assert_eq!(EntityId::from_str("0.0.1001-abcd"), Err(Error::BasicParse));
    assert_eq!(EntityId::from_str("0.0.1001-ABCDE"), Err(Error::BasicParse));
}

#[test]
fn largest_numbers_parse() {
    let id = EntityId::from_str("18446744073709551615.1.18446744073709551615").unwrap();
    assert_eq!(id.shard, u64::MAX);
    assert_eq!(id.realm, 1);
    assert_eq!(id.num, u64::MAX);
}

#[test]
fn parse_format_round_trip() {
    for (shard, realm, num) in [(0, 0, 0), (1, 2, 3), (0, 0, 1001), (u64::MAX, 7, u64::MAX)] {
        let id = EntityId { shard, realm, num, checksum: None };
        let text = id.to_string();
        assert_eq!(EntityId::from_str(&text).unwrap(), id);
    }
    assert_eq!(EntityId { shard: 1, realm: 20, num: 300, checksum: None }.to_string(), "1.20.300");
}

#[test]
fn single_number_keeps_no_checksum() {
    let id = EntityId::from_str("1001-abcde").unwrap();
    assert_eq!(id.checksum, None);
    assert_eq!(id.num, 1001);
}

#[test]
fn to_string_with_checksum_needs_ledger() {
    assert_eq!(
        EntityId::to_string_with_checksum("0.0.123".to_string(), Some(&LedgerId::mainnet())),
        Ok("0.0.123-vfmkw".to_string())
    );
    assert_eq!(
        EntityId::to_string_with_checksum("0.0.123".to_string(), None),
        Err(Error::CannotPerformTaskWithoutLedgerId { task: LedgerTask::DeriveChecksum })
    );
}

#[test]
fn checksum_text_rules() {
    assert!(Checksum::from_str("abcde").is_ok());
    assert_eq!(Checksum::from_str("abcd"), Err(Error::BasicParse));
    assert_eq!(Checksum::from_str("abcdef"), Err(Error::BasicParse));
    assert_eq!(Checksum::from_str("abcd1"), Err(Error::BasicParse));
    assert_eq!(Checksum::from_str("abcde").unwrap().to_string(), "abcde");
}

#[test]
fn address_form_round_trip() {
    let id = EntityId { shard: 1, realm: 2, num: 0x0102030405060708, checksum: None };
    let bytes = id.to_address_bytes().unwrap();
    assert_eq!(
        bytes,
        vec![0, 0, 0, 1, 0, 0, 0, 0, 0, 0, 0, 2, 1, 2, 3, 4, 5, 6, 7, 8]
    );
    assert_eq!(EntityId::from_address_bytes(&bytes).unwrap(), id);
    let text = id.to_solidity_address().unwrap();
    assert_eq!(text, "0000000100000000000000020102030405060708");
    assert_eq!(EntityId::from_solidity_address(&text).unwrap(), id);
    assert_eq!(EntityId::from_solidity_address(&format!("0x{text}")).unwrap(), id);
}

#[test]
fn address_form_errors() {
    assert_eq!(EntityId::from_address_bytes(&[0u8; 19]), Err(Error::BasicParse));
    assert_eq!(EntityId::from_solidity_address("0011"), Err(Error::BasicParse));
    assert_eq!(EntityId::from_solidity_address("zz"), Err(Error::BasicParse));
    let wide = EntityId { shard: 1 << 32, realm: 0, num: 0, checksum: None };
    assert_eq!(wide.to_address_bytes(), Err(Error::BasicParse));
    assert_eq!(wide.to_solidity_address(), Err(Error::BasicParse));
}

#[test]
fn schedule_id_forms() {
    let id = ScheduleId::from_str("0.0.123-vfmkw").unwrap();
    assert_eq!((id.shard, id.realm, id.num), (0, 0, 123));
    assert_eq!(id.validate_checksum(Some(&LedgerId::mainnet())), Ok(()));
    assert!(id.validate_checksum(Some(&LedgerId::testnet())).is_err());
    assert_eq!(id.to_string(), "0.0.123");
    assert_eq!(id.to_string_with_checksum(Some(&LedgerId::mainnet())), Ok("0.0.123-vfmkw".to_string()));
    assert!(id.validate_checksum_for_ledger_id(&LedgerId::testnet()).is_err());
    let plain = ScheduleId::from(5);
    let addr = plain.to_solidity_address().unwrap();
    assert_eq!(ScheduleId::from_solidity_address(&addr).unwrap(), plain);
    assert_eq!(ScheduleId::from(EntityId::from(5)), plain);
}

#[test]
fn account_id_checksums() {
    let acct = AccountId::from_str("0.0.123-vfmkw").unwrap();
    assert_eq!(acct.validate_checksum_for_ledger_id(&LedgerId::mainnet()), Ok(()));
    assert!(acct.validate_checksum_for_ledger_id(&LedgerId::previewnet()).is_err());
    assert_eq!(acct.to_string(), "0.0.123");
    let none: Option<AccountId> = None;
    assert_eq!(none.validate_checksum_for_ledger_id(&LedgerId::previewnet()), Ok(()));
    assert!(Some(acct).validate_checksum_for_ledger_id(&LedgerId::previewnet()).is_err());
}
