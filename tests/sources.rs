use hedera::sources::{key_kind, KeyKind, SignOutcome, SignaturePair, SignedTransaction, TransactionSources};

fn sign(i: usize, j: usize) -> Vec<u8> {
    vec![i as u8, j as u8]
}

#[test]
fn signing_adds_signatures_to_a_new_snapshot() {
    let sources = TransactionSources::from_bodies(vec![vec![1, 2], vec![3]]);
    let signers = vec![vec![0xaa], vec![0xbb]];
    let signed = match sources.sign_with(&signers, sign) {
        SignOutcome::Signed(s) => s,
        SignOutcome::Unchanged => panic!("expected new signatures"),
    };
    assert!(sources.transactions().iter().all(|t| t.signatures.is_empty()));
    let txs = signed.transactions();
    assert_eq!(txs.len(), 2);
    assert_eq!(txs[0].body_bytes, vec![1, 2]);
    assert_eq!(txs[1].body_bytes, vec![3]);
    assert_eq!(txs[1].signatures.len(), 2);
    assert_eq!(txs[1].signatures[0].public_key, vec![0xaa]);
    assert_eq!(txs[1].signatures[0].signature, vec![0, 1]);
    assert_eq!(txs[1].signatures[1].public_key, vec![0xbb]);
    assert_eq!(txs[1].signatures[1].signature, vec![1, 1]);
}

#[test]
fn signing_again_with_the_same_signer_is_unchanged() {
    let sources = TransactionSources::from_bodies(vec![vec![1]]);
    let signers = vec![vec![0xaa]];
    let signed = match sources.sign_with(&signers, sign) {
        SignOutcome::Signed(s) => s,
        SignOutcome::Unchanged => panic!("expected a signature"),
    };
    assert!(matches!(signed.sign_with(&signers, sign), SignOutcome::Unchanged));
}

#[test]
fn duplicate_signers_sign_once() {
    let sources = TransactionSources::from_bodies(vec![vec![1]]);
    let signers = vec![vec![0xaa], vec![0xaa]];
    match sources.sign_with(&signers, sign) {
        SignOutcome::Signed(s) => assert_eq!(s.transactions()[0].signatures.len(), 1),
        SignOutcome::Unchanged => panic!("expected a signature"),
    }
}

#[test]
fn no_signers_is_unchanged() {
    let sources = TransactionSources::from_bodies(vec![vec![1]]);
    assert!(matches!(sources.sign_with(&Vec::new(), sign), SignOutcome::Unchanged));
}

#[test]
fn snapshot_from_signed_transactions() {
    let pair = |k: u8| SignaturePair { public_key: vec![k], signature: vec![k, k] };
    let a = SignedTransaction { body_bytes: vec![1], signatures: vec![pair(1), pair(2)] };
    let b = SignedTransaction { body_bytes: vec![2], signatures: vec![pair(1), pair(2)] };
    let c = SignedTransaction { body_bytes: vec![3], signatures: vec![pair(2), pair(1)] };
    assert!(TransactionSources::new(vec![a.clone(), b.clone()]).is_some());
    assert!(TransactionSources::new(vec![a.clone(), c]).is_none());
    assert!(TransactionSources::new(Vec::new()).is_none());
    let s = TransactionSources::new(vec![a, b]).unwrap();
    assert!(matches!(s.sign_with(&vec![vec![2], vec![1]], sign), SignOutcome::Unchanged));
    match s.sign_with(&vec![vec![3]], sign) {
        SignOutcome::Signed(t) => {
            assert_eq!(t.transactions()[1].signatures.len(), 3);
            assert_eq!(t.transactions()[1].signatures[2].public_key, vec![3]);
            assert_eq!(t.transactions()[1].signatures[2].signature, vec![0, 1]);
        }
        SignOutcome::Unchanged => panic!("expected a signature"),
    }
}

#[test]
fn key_kinds_by_length() {
    assert_eq!(key_kind(&vec![0u8; 32]), KeyKind::Ed25519);
    assert_eq!(key_kind(&vec![0u8; 33]), KeyKind::Ecdsa);
}
