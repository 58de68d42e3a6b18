use mblog::identity::IdentityError;
use mblog::identity::PubkeyError;
use mblog::identity::detect_aura_pubkey_from_keystore;
use mblog::identity::parse_pubkey_hex;

fn key_a() -> String {
    "ab".repeat(32)
}

fn key_b() -> String {
    "cd".repeat(32)
}

fn name_for(key: &str) -> Vec<u8> {
    format!("61757261{key}").into_bytes()
}

#[test]
fn single_matching_file_resolves() {
    // One file named role tag + 64 hex characters resolves to that key.
    let names = vec![name_for(&key_a())];
    let got = detect_aura_pubkey_from_keystore(&names).unwrap();
    assert_eq!(got, key_a().into_bytes());
}

#[test]
fn prefix_and_case_are_normalized() {
    let upper = format!("0x61757261{}", key_a().to_uppercase()).into_bytes();
    let got = detect_aura_pubkey_from_keystore(&vec![upper]).unwrap();
    assert_eq!(got, key_a().into_bytes());
}

#[test]
fn empty_keystore_fails() {
    assert_eq!(
        detect_aura_pubkey_from_keystore(&Vec::new()),
        Err(IdentityError::NoKeyFound)
    );
}

#[test]
fn non_matching_names_are_ignored() {
    let names = vec![
        b"gran".to_vec(),
        format!("62616265{}", key_a()).into_bytes(),  // other role tag
        format!("61757261{}", "ab".repeat(31)).into_bytes(),  // too short
        format!("61757261{}zz", "ab".repeat(31)).into_bytes(),  // not hex
    ];
    assert_eq!(
        detect_aura_pubkey_from_keystore(&names),
        Err(IdentityError::NoKeyFound)
    );
}

#[test]
fn two_distinct_keys_are_ambiguous() {
    let names = vec![name_for(&key_a()), name_for(&key_b())];
    assert_eq!(
        detect_aura_pubkey_from_keystore(&names),
        Err(IdentityError::AmbiguousIdentity)
    );
}

#[test]
fn duplicate_spellings_of_one_key_resolve() {
    let names = vec![
        name_for(&key_a()),
        format!("0x61757261{}", key_a().to_uppercase()).into_bytes(),
    ];
    let got = detect_aura_pubkey_from_keystore(&names).unwrap();
    assert_eq!(got, key_a().into_bytes());
}

#[test]
fn parse_pubkey_roundtrip() {
    let s = format!("0x{}", key_a()).into_bytes();
    let bytes = parse_pubkey_hex(&s).unwrap();
    assert_eq!(bytes, hex::decode(key_a()).unwrap());
    assert_eq!(bytes.len(), 32);
    // Bare and uppercase forms decode to the same key.
    assert_eq!(parse_pubkey_hex(&key_a().into_bytes()).unwrap(), bytes);
    assert_eq!(
        parse_pubkey_hex(&key_a().to_uppercase().into_bytes()).unwrap(),
        bytes
    );
}

#[test]
fn parse_pubkey_rejects_bad_input() {
    assert_eq!(
        parse_pubkey_hex(&b"0xzz".to_vec()),
        Err(PubkeyError::NotHex)
    );
    assert_eq!(
        parse_pubkey_hex(&"a".repeat(63).into_bytes()),
        Err(PubkeyError::NotHex)
    );
    assert_eq!(
        parse_pubkey_hex(&"a".repeat(62).into_bytes()),
        Err(PubkeyError::WrongLength)
    );
    // Every leading 0x is stripped before decoding.
    assert_eq!(
        parse_pubkey_hex(&format!("0x0x{}", "a".repeat(60)).into_bytes()),
        Err(PubkeyError::WrongLength)
    );
}
