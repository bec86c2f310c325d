use totp_token::secrets::{decode_iv, decrypt, key_from_pin, DecryptError, Secret, SecretStore};

const NIST_KEY: [u8; 16] = [
    0x2b, 0x7e, 0x15, 0x16, 0x28, 0xae, 0xd2, 0xa6, 0xab, 0xf7, 0x15, 0x88, 0x09, 0xcf, 0x4f, 0x3c,
];
// f0f1f2f3f4f5f6f7f8f9fafbfcfdfeff
const NIST_IV: &str = "6DY7F47U6X3PP6HZ7L57Z7P674";

fn secret(name: &str, key: &str) -> Secret {
    Secret { name: name.to_string(), key: key.to_string() }
}

fn store(nonce: Option<&str>, keys: &[&str]) -> SecretStore {
    SecretStore {
        nonce: nonce.map(|n| n.to_string()),
        tokens: keys.iter().enumerate().map(|(i, k)| secret(&format!("s{}", i), k)).collect(),
    }
}

fn keys(s: &SecretStore) -> Vec<String> {
    s.tokens.iter().map(|t| t.key.clone()).collect()
}

#[test]
fn first_block_matches_the_nist_ctr_vector() {
    let mut s = store(Some(NIST_IV), &["NPA35YROICPZN2J5PYIXHEYXFI"]);
    assert_eq!(decrypt(&mut s, &NIST_KEY), Ok(()));
    assert_eq!(keys(&s), vec!["Q5GWDENWEDRSMG7PNBSJSDNWZY"]);
    assert_eq!(s.tokens[0].name, "s0");
}

#[test]
fn one_keystream_runs_through_the_secrets() {
    let mut whole = store(Some(NIST_IV), &["NPA35YROICPZN2J5PYIXHEYXFKXC3CSXDYB2ZHE6W5X2YRNPRZIQ"]);
    assert_eq!(decrypt(&mut whole, &NIST_KEY), Ok(()));
    assert_eq!(keys(&whole), vec!["Q5GWDENWEDRSMG7PNBSJSDNWZZAJIJMR262E6SNLYGOTHJCO6ZKA"]);
    let mut split = store(
        Some(NIST_IV),
        &["NPA35YROICPZN2J5PYIXHEYXFI", "VYWYUVY6AOWJZHVXN6WELL4OKE"],
    );
    assert_eq!(decrypt(&mut split, &NIST_KEY), Ok(()));
    assert_eq!(keys(&split), vec!["Q5GWDENWEDRSMG7PNBSJSDNWZY", "ICKCLEOXWRHUTK6BTUZ2ITXWKQ"]);
}

#[test]
fn pin_decrypts_stored_secrets() {
    let mut s = store(Some(NIST_IV), &["ALKDH6YYXJLBJ76Y6I3UN3K3VMOLD6CM", "5TZQGL3AULQT3XV4"]);
    assert_eq!(decrypt(&mut s, b"123456"), Ok(()));
    assert_eq!(keys(&s), vec!["GEZDGNBVGY3TQOJQGEZDGNBVGY3TQOJQ", "AAAAAAAAAAAAAAAA"]);
    assert_eq!(s.tokens[0].key_as_bytes(), Some(b"12345678901234567890".to_vec()));
}

#[test]
fn wrong_pin_is_not_rejected() {
    let mut s = store(Some(NIST_IV), &["ALKDH6YYXJLBJ76Y6I3UN3K3VMOLD6CM"]);
    assert_eq!(decrypt(&mut s, b"000000"), Ok(()));
    assert_eq!(keys(&s), vec!["G2OH6OBIUY6HTUO4F7CSPIWOS65YGREG"]);
}

#[test]
fn decrypting_twice_gives_the_ciphertext_back() {
    let original = "ALKDH6YYXJLBJ76Y6I3UN3K3VMOLD6CM";
    let mut s = store(Some(NIST_IV), &[original]);
    assert_eq!(decrypt(&mut s, b"123456"), Ok(()));
    assert_ne!(keys(&s), vec![original]);
    assert_eq!(decrypt(&mut s, b"123456"), Ok(()));
    assert_eq!(keys(&s), vec![original]);
}

#[test]
fn missing_iv() {
    let mut s = store(None, &["AAAAAAAA"]);
    assert_eq!(decrypt(&mut s, b"123456"), Err(DecryptError::MissingIV));
    assert_eq!(keys(&s), vec!["AAAAAAAA"]);
}

#[test]
fn iv_of_wrong_length() {
    let mut s = store(Some("AAAAAAAA"), &["AAAAAAAA"]);
    assert_eq!(decrypt(&mut s, b"123456"), Err(DecryptError::InvalidIV));
    assert_eq!(keys(&s), vec!["AAAAAAAA"]);
}

#[test]
fn iv_not_base32() {
    let mut s = store(Some("not base32!"), &["AAAAAAAA"]);
    assert_eq!(decrypt(&mut s, b"123456"), Err(DecryptError::InvalidIV));
    assert_eq!(decode_iv(&Some("not base32!".to_string())), Err(DecryptError::InvalidIV));
    assert_eq!(decode_iv(&None), Err(DecryptError::MissingIV));
}

#[test]
fn iv_decodes_to_sixteen_bytes() {
    let iv = decode_iv(&Some(NIST_IV.to_string())).unwrap();
    assert_eq!(iv[0], 0xf0);
    assert_eq!(iv[15], 0xff);
}

#[test]
fn malformed_key_fails_but_the_others_are_decrypted() {
    let mut s = store(
        Some(NIST_IV),
        &["NPA35YROICPZN2J5PYIXHEYXFI", "!!", "VYWYUVY6AOWJZHVXN6WELL4OKE"],
    );
    assert_eq!(decrypt(&mut s, &NIST_KEY), Err(DecryptError::Base32Decode));
    assert_eq!(
        keys(&s),
        vec!["Q5GWDENWEDRSMG7PNBSJSDNWZY", "!!", "ICKCLEOXWRHUTK6BTUZ2ITXWKQ"]
    );
}

#[test]
fn pin_key_is_zero_padded() {
    let k = key_from_pin(b"123456");
    assert_eq!(&k[..6], b"123456");
    assert_eq!(&k[6..], &[0u8; 10]);
    assert_eq!(key_from_pin(&NIST_KEY), NIST_KEY);
}

#[test]
fn empty_store_decrypts() {
    let mut s = store(Some(NIST_IV), &[]);
    assert_eq!(decrypt(&mut s, b"123456"), Ok(()));
    assert!(s.tokens.is_empty());
}

#[test]
fn key_as_bytes_rejects_malformed_text() {
    assert_eq!(secret("x", "!!").key_as_bytes(), None);
    assert_eq!(secret("x", "AAAAAAAA").key_as_bytes(), Some(vec![0u8; 5]));
}
