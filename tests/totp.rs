use totp_token::totp::{counter_bytes, hmac, pad_key, token, token_from_hmac, truncate_code, Token};

const RFC_SECRET: &[u8] = b"12345678901234567890";

#[test]
fn rfc_secret_at_59() {
    let t = token(RFC_SECRET, 59);
    assert_eq!(t, Token { code: 287082, valid_until: 60 });
}

#[test]
fn rfc_secret_other_times() {
    assert_eq!(token(RFC_SECRET, 1111111109).code, 81804);
    assert_eq!(token(RFC_SECRET, 1111111111).code, 50471);
    assert_eq!(token(RFC_SECRET, 1234567890).code, 5924);
    assert_eq!(token(RFC_SECRET, 2000000000).code, 279037);
    assert_eq!(token(RFC_SECRET, 20000000000).code, 353130);
}

#[test]
fn long_key_is_hashed_first() {
    let key: Vec<u8> = (0u8..100).collect();
    assert_eq!(token(&key, 59).code, 695482);
    let h = hmac(&key, &counter_bytes(1));
    let hex: String = h.iter().map(|b| format!("{:02x}", b)).collect();
    assert_eq!(hex, "fb2002fadce53e766b5a9b30f1b53e48ba49e880");
}

#[test]
fn short_key_is_zero_padded() {
    let block = pad_key(b"abc");
    assert_eq!(block.len(), 64);
    assert_eq!(&block[..3], b"abc");
    assert!(block[3..].iter().all(|b| *b == 0));
}

#[test]
fn key_of_exactly_one_block_is_kept() {
    let key = [7u8; 64];
    assert_eq!(pad_key(&key), key.to_vec());
}

#[test]
fn counter_is_big_endian() {
    assert_eq!(counter_bytes(0x0102030405060708), vec![1, 2, 3, 4, 5, 6, 7, 8]);
    assert_eq!(counter_bytes(1), vec![0, 0, 0, 0, 0, 0, 0, 1]);
}

#[test]
fn truncation_follows_the_rfc_example() {
    // HMAC value of the RFC 4226 dynamic truncation example.
    let h: [u8; 20] = [
        0x1f, 0x86, 0x98, 0x69, 0x0e, 0x02, 0xca, 0x16, 0x61, 0x85, 0x50, 0xef, 0x7f, 0x19, 0xda,
        0x8e, 0x94, 0x5b, 0x55, 0x5a,
    ];
    assert_eq!(truncate_code(&h), 872921);
}

#[test]
fn truncation_masks_the_sign_bit() {
    let mut h = [0xffu8; 20];
    h[19] = 0xf0;
    // offset 0, value 0x7fffffff
    assert_eq!(truncate_code(&h), 2147483647 % 1000000);
}

#[test]
fn token_from_hmac_sets_window_end() {
    let h = [0u8; 20];
    assert_eq!(token_from_hmac(&h, 0), Token { code: 0, valid_until: 30 });
    assert_eq!(token_from_hmac(&h, 29).valid_until, 30);
    assert_eq!(token_from_hmac(&h, 30).valid_until, 60);
}

#[test]
fn expiry_is_stable_within_a_window_and_steps_by_thirty() {
    let a = token(RFC_SECRET, 60);
    let b = token(RFC_SECRET, 89);
    let c = token(RFC_SECRET, 90);
    assert_eq!(a, b);
    assert_eq!(a.valid_until, 90);
    assert_eq!(c.valid_until, a.valid_until + 30);
}
