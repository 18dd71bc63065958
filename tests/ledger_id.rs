use hedera::error::Error;
use hedera::ledger_id::{LedgerId, Network};

const NETWORK1_BYTES: &[u8] = &[0x00, 0xff, 0x00, 0xff];

fn network1() -> LedgerId {
    LedgerId::from_static(NETWORK1_BYTES)
}

#[test]
fn to_string() {
    assert_eq!(LedgerId::mainnet().to_string(), "mainnet");
    assert_eq!(LedgerId::testnet().to_string(), "testnet");
    assert_eq!(LedgerId::previewnet().to_string(), "previewnet");
    assert_eq!(network1().to_string(), "00ff00ff");
}

#[test]
fn parse() {
    assert_eq!(LedgerId::from_str("mainnet").unwrap(), LedgerId::mainnet());
    assert_eq!(LedgerId::from_str("testnet").unwrap(), LedgerId::testnet());
    assert_eq!(LedgerId::from_str("previewnet").unwrap(), LedgerId::previewnet());
    assert_eq!(LedgerId::from_str("00ff00ff").unwrap(), network1());
    assert_eq!(LedgerId::from_str("00FF00FF").unwrap(), network1());
}

#[test]
fn as_bytes() {
    assert_eq!(network1().as_bytes(), NETWORK1_BYTES);
}

#[test]
fn to_bytes() {
    assert_eq!(&*network1().to_bytes(), NETWORK1_BYTES);
}

#[test]
fn well_known_names_round_trip() {
    for name in ["mainnet", "testnet", "previewnet"] {
        assert_eq!(LedgerId::from_str(name).unwrap().to_string(), name);
    }
}

#[test]
fn hex_ledger_round_trip() {
    let id = LedgerId::from_str("00ff00ff").unwrap();
    assert_eq!(id.to_bytes(), vec![0x00, 0xff, 0x00, 0xff]);
    assert_eq!(id.to_string(), "00ff00ff");
    assert!(!id.is_known_network());
}

#[test]
fn hex_is_case_insensitive_and_lower_on_output() {
    let id = LedgerId::from_str("ABcd").unwrap();
    assert_eq!(id.to_bytes(), vec![0xab, 0xcd]);
    assert_eq!(id.to_string(), "abcd");
}

#[test]
fn known_byte_is_known_network() {
    let id = LedgerId::from_bytes(vec![1]);
    assert!(id.is_testnet());
    assert!(id.is_known_network());
    assert!(!id.is_mainnet());
    assert!(!id.is_previewnet());
    assert_eq!(id, LedgerId::testnet());
    assert_eq!(id.to_string(), "testnet");
    assert_eq!(LedgerId::from_str("02").unwrap(), LedgerId::previewnet());
    assert!(LedgerId::from_static(&[0]).is_mainnet());
}

#[test]
fn empty_ledger_id_is_empty_hex() {
    let id = LedgerId::from_bytes(Vec::new());
    assert_eq!(id.to_string(), "");
    assert_eq!(LedgerId::from_str("").unwrap(), id);
}

#[test]
fn bad_ledger_text_fails() {
    assert_eq!(LedgerId::from_str("abc"), Err(Error::BasicParse));
    assert_eq!(LedgerId::from_str("zz"), Err(Error::BasicParse));
    assert_eq!(LedgerId::from_str("Mainnet"), Err(Error::BasicParse));
}

#[test]
fn equality_is_by_bytes() {
    assert_eq!(LedgerId::from_bytes(vec![0]), LedgerId::mainnet());
    assert_ne!(LedgerId::from_bytes(vec![0, 0]), LedgerId::mainnet());
}

#[test]
fn ledger_of_a_well_known_network() {
    let id = LedgerId::from_network(Network::Previewnet);
    assert!(id.is_previewnet());
    assert_eq!(id.to_bytes(), vec![2]);
    assert_eq!(Network::Mainnet.as_str(), "mainnet");
    assert_eq!(Network::Testnet.as_bytes(), vec![1]);
}
