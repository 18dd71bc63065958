use hedera::crypto::keccak256_digest;

fn hex(b: &[u8]) -> String {
    b.iter().map(|x| format!("{x:02x}")).collect()
}

#[test]
fn keccak256_of_empty_input() {
    assert_eq!(
        hex(&keccak256_digest(&[])),
        "c5d2460186f7233c927e7db2dcc703c0e500b653ca82273b7bfad8045d85a470"
    );
}

#[test]
fn keccak256_of_abc() {
    assert_eq!(
        hex(&keccak256_digest(b"abc")),
        "4e03657aea45a94fc7d47ba826c8d667c0d1e6e33a64a036ec44f58fa12d6c45"
    );
}
