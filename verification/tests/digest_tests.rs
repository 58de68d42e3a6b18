use mblog::digest::hash_authorities;
use mblog::digest::hex32;
use mblog::digest::schedule_hash;
use sha2::Digest;

#[test]
fn authority_fingerprint_matches_digest_of_concatenation() {
    let auths = vec![vec![0x01; 32], vec![0x02; 32]];
    let mut cat: Vec<u8> = Vec::new();
    cat.extend(&auths[0]);
    cat.extend(&auths[1]);
    let expected: Vec<u8> = sha2::Sha256::digest(&cat).to_vec();
    assert_eq!(hash_authorities(&auths), expected);
}

#[test]
fn equal_sets_equal_fingerprints() {
    let a = vec![vec![0x01; 32], vec![0x02; 32], vec![0x03; 32]];
    let b = vec![vec![0x01; 32], vec![0x02; 32], vec![0x03; 32]];
    assert_eq!(hash_authorities(&a), hash_authorities(&b));
}

#[test]
fn reordered_sets_differ() {
    let a = vec![vec![0x01; 32], vec![0x02; 32]];
    let b = vec![vec![0x02; 32], vec![0x01; 32]];
    assert_ne!(hash_authorities(&a), hash_authorities(&b));
}

#[test]
fn changed_member_differs() {
    let a = vec![vec![0x01; 32], vec![0x02; 32]];
    let mut changed = a.clone();
    changed[1][31] = 0xff;
    assert_ne!(hash_authorities(&a), hash_authorities(&changed));
}

#[test]
fn empty_set_fingerprint() {
    let expected: Vec<u8> = sha2::Sha256::digest(&[] as &[u8]).to_vec();
    assert_eq!(hash_authorities(&Vec::new()), expected);
}

#[test]
fn schedule_fingerprint_is_digest_of_ordered_encodings() {
    // The schedule [1, 4] hashes the encoding of 1 then of 4.
    let mut cat: Vec<u8> = Vec::new();
    cat.extend(&1u64.to_le_bytes());
    cat.extend(&4u64.to_le_bytes());
    let expected: Vec<u8> = sha2::Sha256::digest(&cat).to_vec();
    assert_eq!(schedule_hash(&vec![1, 4]), expected);
    assert_ne!(schedule_hash(&vec![4, 1]), expected);
}

#[test]
fn hex32_renders_prefixed_lowercase() {
    let mut bytes: Vec<u8> = Vec::new();
    for i in 0..32u32 {
        bytes.push((i * 8 % 256) as u8);
    }
    let expected = format!("0x{}", hex::encode(&bytes));
    assert_eq!(hex32(&bytes), expected);
    assert_eq!(hex32(&vec![0xab, 0xcd, 0xef]), "0xabcdef");
}
