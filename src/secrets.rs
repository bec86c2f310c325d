//! The stored secrets and their PIN-keyed decryption (AES-128, CTR mode).

use aes::cipher::{KeyIvInit, StreamCipher, StreamCipherSeek};
use data_encoding::BASE32_NOPAD;
use vstd::prelude::*;

verus! {

/// Length of the AES-128 key and of the CTR initialization vector.
pub const KEY_LEN: usize = 16;

/// A named secret; `key` is base32 text without padding.
pub struct Secret {
    pub name: String,
    pub key: String,
}

/// The persisted secrets and the base32 initialization vector they were encrypted with.
pub struct SecretStore {
    pub nonce: Option<String>,
    pub tokens: Vec<Secret>,
}

/// Why a decryption pass failed.
#[derive(Clone, Copy, Debug, PartialEq, Eq, Structural)]
pub enum DecryptError {
    MissingIV,
    InvalidIV,
    Base32Decode,
}

#[verifier::external_type_specification]
#[verifier::external_body]
pub struct ExDecodeError(data_encoding::DecodeError);

/// The bytes that base32 text (no padding) stands for, if it is well formed.
pub uninterp spec fn base32_decoded(s: Seq<char>) -> Option<Seq<u8>>;

/// The base32 text (no padding) of some bytes.
pub uninterp spec fn base32_encoded(b: Seq<u8>) -> Seq<char>;

/// The AES-128 CTR keystream byte (64-bit little-endian counter) at position
/// `pos` for a key and an initialization vector.
pub uninterp spec fn aes128_ctr64le_keystream_byte(key: Seq<u8>, iv: Seq<u8>, pos: nat) -> u8;

/// Relies on `data_encoding::BASE32_NOPAD.decode`: decodes when the text is
/// well formed, a successful decode is never longer than its input, and the
/// encoding is canonical (decoding then encoding gives the text back).
/// It panics only on inputs over `usize::MAX / 8` bytes; a char is at most 4 bytes.
#[verifier::external_body]
pub(crate) fn base32_decode(s: &str) -> (r: Result<Vec<u8>, data_encoding::DecodeError>)
    requires
        s@.len() <= usize::MAX / 32,
    ensures
        match r {
            Ok(b) => base32_decoded(s@) == Some(b@) && base32_encoded(b@) == s@ && b@.len()
                <= s@.len(),
            Err(_) => base32_decoded(s@).is_none(),
        },
{
    BASE32_NOPAD.decode(s.as_bytes())
}

/// Relies on `data_encoding::BASE32_NOPAD.encode`: ASCII text of
/// `ceil(8 * n / 5)` symbols, which decodes to the input again. It panics on inputs over `usize::MAX / 512` bytes.
#[verifier::external_body]
fn base32_encode(b: &[u8]) -> (r: String)
    requires
        b@.len() <= usize::MAX / 512,
    ensures
        r@ == base32_encoded(b@),
        base32_decoded(r@) == Some(b@),
        r@.len() == (8 * b@.len() + 4) / 5,
{
    BASE32_NOPAD.encode(b)
}

/// The keystream from position `pos` on, `len` bytes of it.
pub open spec fn keystream(key: Seq<u8>, iv: Seq<u8>, pos: nat, len: nat) -> Seq<u8> {
    Seq::new(len, |i: int| aes128_ctr64le_keystream_byte(key, iv, (pos + i) as nat))
}

/// Byte-wise XOR of `a` with the start of `b`.
pub open spec fn xor_bytes(a: Seq<u8>, b: Seq<u8>) -> Seq<u8> {
    Seq::new(a.len(), |i: int| a[i] ^ b[i])
}

/// Data with the keystream from position `pos` applied.
pub open spec fn apply_stream(key: Seq<u8>, iv: Seq<u8>, pos: nat, data: Seq<u8>) -> Seq<u8> {
    xor_bytes(data, keystream(key, iv, pos, data.len()))
}

/// Relies on `ctr::Ctr64LE<aes::Aes128>` with `seek` and `apply_keystream`:
/// each byte is XORed with the keystream byte at its position, which depends
/// on key, initialization vector and position alone. The 64-bit block counter
/// starts at zero, so no `u64` position plus a buffer length runs off the
/// keystream, and neither call panics.
#[verifier::external_body]
fn apply_keystream_at(key: &[u8; 16], iv: &[u8; 16], pos: u64, data: &mut Vec<u8>)
    ensures
        final(data)@.len() == old(data)@.len(),
        forall|i: int|
            0 <= i < old(data)@.len() ==> #[trigger] final(data)@[i] == old(data)@[i]
                ^ aes128_ctr64le_keystream_byte(key@, iv@, (pos + i) as nat),
{
    let mut cipher = ctr::Ctr64LE::<aes::Aes128>::new(key.into(), iv.into());
    cipher.seek(pos);
    cipher.apply_keystream(data.as_mut_slice());
}

/// The AES key that a PIN gives: its bytes, zero-padded to 16.
pub open spec fn pin_key(pin: Seq<u8>) -> Seq<u8> {
    Seq::new(KEY_LEN as nat, |i: int| if i < pin.len() { pin[i] } else { 0u8 })
}

/// The initialization vector of a store, or why there is none.
pub open spec fn iv_of(nonce: Option<String>) -> Result<Seq<u8>, DecryptError> {
    match nonce {
        None => Err(DecryptError::MissingIV),
        Some(n) => match base32_decoded(n@) {
            Some(b) => if b.len() == KEY_LEN {
                Ok(b)
            } else {
                Err(DecryptError::InvalidIV)
            },
            None => Err(DecryptError::InvalidIV),
        },
    }
}

/// Keystream position at which the secret at index `i` starts: the decoded
/// lengths of the well-formed keys before it.
pub open spec fn stream_offset(tokens: Seq<Secret>, i: int) -> nat
    decreases i,
{
    if i <= 0 {
        0
    } else {
        stream_offset(tokens, i - 1) + match base32_decoded(tokens[i - 1].key@) {
            Some(b) => b.len(),
            None => 0,
        }
    }
}

/// Total length of the key texts of the first `n` secrets.
pub open spec fn key_text_total(tokens: Seq<Secret>, n: int) -> nat
    decreases n,
{
    if n <= 0 {
        0
    } else {
        key_text_total(tokens, n - 1) + tokens[n - 1].key@.len()
    }
}

/// `new` is the key text `old` after decryption from position `pos`: a
/// malformed key is left as it is; a well-formed one is canonical, and its
/// bytes with the keystream applied are encoded again.
pub open spec fn decrypted_key(old: Seq<char>, new: Seq<char>, key: Seq<u8>, iv: Seq<u8>, pos: nat) -> bool {
    match base32_decoded(old) {
        Some(b) => {
            let plain = apply_stream(key, iv, pos, b);
            &&& base32_encoded(b) == old
            &&& new == base32_encoded(plain)
            &&& base32_decoded(new) == Some(plain)
        },
        None => new == old,
    }
}

/// Every key of the store is well-formed base32.
pub open spec fn all_keys_decode(tokens: Seq<Secret>) -> bool {
    forall|i: int| 0 <= i < tokens.len() ==> (#[trigger] base32_decoded(tokens[i].key@)).is_some()
}

/// The store's texts are small enough for the base32 codec.
pub open spec fn within_limits(store: &SecretStore) -> bool {
    &&& key_text_total(store.tokens@, store.tokens@.len() as int) <= usize::MAX / 1024
    &&& store.nonce matches Some(n) ==> n@.len() <= usize::MAX / 32
}

/// `new` is `old` after a decryption pass with the key that `pin` gives.
pub open spec fn decrypted_as(old: SecretStore, new: SecretStore, pin: Seq<u8>) -> bool {
    match iv_of(old.nonce) {
        Err(_) => new == old,
        Ok(iv) => {
            &&& new.nonce == old.nonce
            &&& new.tokens@.len() == old.tokens@.len()
            &&& forall|i: int|
                0 <= i < old.tokens@.len() ==> {
                    &&& (#[trigger] new.tokens@[i]).name == old.tokens@[i].name
                    &&& decrypted_key(
                        old.tokens@[i].key@,
                        new.tokens@[i].key@,
                        pin_key(pin),
                        iv,
                        stream_offset(old.tokens@, i),
                    )
                }
        },
    }
}

/// How a decryption pass over `store` ends. The PIN plays no part: a wrong
/// PIN is never rejected.
pub open spec fn decrypt_outcome(store: SecretStore) -> Result<(), DecryptError> {
    match iv_of(store.nonce) {
        Err(e) => Err(e),
        Ok(_) => if all_keys_decode(store.tokens@) {
            Ok(())
        } else {
            Err(DecryptError::Base32Decode)
        },
    }
}

/// Applying the same stretch of keystream twice gives the data back, so
/// encryption and decryption are one operation.
pub proof fn keystream_involution(key: Seq<u8>, iv: Seq<u8>, pos: nat, data: Seq<u8>)
    ensures
        apply_stream(key, iv, pos, apply_stream(key, iv, pos, data)) == data,
{
    let once = apply_stream(key, iv, pos, data);
    let ks = keystream(key, iv, pos, data.len());
    assert forall|i: int| 0 <= i < data.len() implies #[trigger] (once[i] ^ ks[i]) == data[i] by {
        let a = data[i];
        let k = ks[i];
        assert((a ^ k) ^ k == a) by (bit_vector);
    }
    assert(apply_stream(key, iv, pos, once) =~= data);
}

proof fn lemma_offsets_agree(old: Seq<Secret>, mid: Seq<Secret>, i: int)
    requires
        0 <= i <= old.len(),
        old.len() == mid.len(),
        forall|j: int|
            0 <= j < old.len() ==> match base32_decoded(#[trigger] old[j].key@) {
                Some(b) => base32_decoded(mid[j].key@) matches Some(a) && a.len() == b.len(),
                None => base32_decoded(mid[j].key@) is None,
            },
    ensures
        stream_offset(old, i) == stream_offset(mid, i),
    decreases i,
{
    if i > 0 {
        lemma_offsets_agree(old, mid, i - 1);
    }
}

/// Decrypting twice with the same PIN gives every secret back as it was:
/// the second pass undoes the first.
pub proof fn decrypt_twice_restores(
    old: SecretStore,
    mid: SecretStore,
    new: SecretStore,
    pin: Seq<u8>,
)
    requires
        decrypted_as(old, mid, pin),
        decrypted_as(mid, new, pin),
    ensures
        new.nonce == old.nonce,
        new.tokens@.len() == old.tokens@.len(),
        forall|i: int|
            0 <= i < old.tokens@.len() ==> (#[trigger] new.tokens@[i]).name == old.tokens@[i].name
                && new.tokens@[i].key@ == old.tokens@[i].key@,
{
    if let Ok(iv) = iv_of(old.nonce) {
        let key = pin_key(pin);
        assert forall|j: int| 0 <= j < old.tokens@.len() implies match base32_decoded(
            #[trigger] old.tokens@[j].key@,
        ) {
            Some(b) => base32_decoded(mid.tokens@[j].key@) matches Some(a) && a.len() == b.len(),
            None => base32_decoded(mid.tokens@[j].key@) is None,
        } by {
            assert(decrypted_key(
                old.tokens@[j].key@,
                mid.tokens@[j].key@,
                key,
                iv,
                stream_offset(old.tokens@, j),
            ));
        }
        assert forall|i: int| 0 <= i < old.tokens@.len() implies (#[trigger] new.tokens@[i]).name
            == old.tokens@[i].name && new.tokens@[i].key@ == old.tokens@[i].key@ by {
            lemma_offsets_agree(old.tokens@, mid.tokens@, i);
            let pos = stream_offset(old.tokens@, i);
            assert(decrypted_key(old.tokens@[i].key@, mid.tokens@[i].key@, key, iv, pos));
            assert(decrypted_key(mid.tokens@[i].key@, new.tokens@[i].key@, key, iv, pos));
            if let Some(b) = base32_decoded(old.tokens@[i].key@) {
                keystream_involution(key, iv, pos, b);
            }
        }
    }
}

/// The AES key for a PIN of at most 16 bytes.
pub fn key_from_pin(pin: &[u8]) -> (r: [u8; 16])
    requires
        pin@.len() <= KEY_LEN,
    ensures
        r@ == pin_key(pin@),
{
    let mut key = [0u8; 16];
    let mut i: usize = 0;
    while i < pin.len()
        invariant
            i <= pin@.len() <= KEY_LEN,
            forall|j: int| 0 <= j < i ==> key@[j] == pin@[j],
            forall|j: int| i <= j < KEY_LEN ==> key@[j] == 0u8,
        decreases pin@.len() - i,
    {
        key[i] = pin[i];
        i += 1;
    }
    assert(key@ =~= pin_key(pin@));
    key
}

/// Decodes the store's initialization vector.
pub fn decode_iv(nonce: &Option<String>) -> (r: Result<[u8; 16], DecryptError>)
    requires
        nonce matches Some(n) ==> n@.len() <= usize::MAX / 32,
    ensures
        match iv_of(*nonce) {
            Ok(iv) => r matches Ok(a) && a@ == iv,
            Err(e) => r == Err::<[u8; 16], DecryptError>(e),
        },
{
    match nonce {
        None => Err(DecryptError::MissingIV),
        Some(n) => match base32_decode(n.as_str()) {
            Err(_) => Err(DecryptError::InvalidIV),
            Ok(b) => {
                if b.len() != KEY_LEN {
                    return Err(DecryptError::InvalidIV);
                }
                let mut iv = [0u8; 16];
                let mut i: usize = 0;
                while i < KEY_LEN
                    invariant
                        b@.len() == KEY_LEN,
                        i <= KEY_LEN,
                        forall|j: int| 0 <= j < i ==> iv@[j] == b@[j],
                    decreases KEY_LEN - i,
                {
                    iv[i] = b[i];
                    i += 1;
                }
                assert(iv@ =~= b@);
                Ok(iv)
            },
        },
    }
}

proof fn lemma_total_monotone(tokens: Seq<Secret>, i: int, n: int)
    requires
        0 <= i <= n,
    ensures
        key_text_total(tokens, i) <= key_text_total(tokens, n),
    decreases n - i,
{
    if i < n {
        lemma_total_monotone(tokens, i, n - 1);
    }
}

/// Decrypts every key of the store in place, with the AES key that `pin`
/// gives and the store's initialization vector. One keystream runs through
/// the well-formed keys in order. A malformed key is left as it is and makes
/// the pass fail, but does not stop it. There is no integrity check: any PIN
/// decrypts, a wrong one to different bytes.
pub fn decrypt(store: &mut SecretStore, pin: &[u8]) -> (r: Result<(), DecryptError>)
    requires
        pin@.len() <= KEY_LEN,
        within_limits(old(store)),
    ensures
        r == decrypt_outcome(*old(store)),
        decrypted_as(*old(store), *final(store), pin@),
        final(store).tokens@.len() == old(store).tokens@.len(),
        forall|i: int|
            0 <= i < final(store).tokens@.len() ==> (#[trigger] final(store).tokens@[i]).key@.len()
                <= usize::MAX / 512,
{
    assert forall|i: int| 0 <= i < store.tokens@.len() implies (#[trigger] store.tokens@[i]).key@.len()
        <= usize::MAX / 1024 by {
        lemma_total_monotone(store.tokens@, i + 1, store.tokens@.len() as int);
    }
    let iv = match decode_iv(&store.nonce) {
        Ok(iv) => iv,
        Err(e) => return Err(e),
    };
    let key = key_from_pin(pin);
    let ghost tokens = store.tokens@;
    let n = store.tokens.len();
    let mut out: Vec<Secret> = Vec::new();
    let mut pos: u64 = 0;
    let mut result: Result<(), DecryptError> = Ok(());
    let mut i: usize = 0;
    while i < n
        invariant
            *store == *old(store),
            tokens == store.tokens@,
            n == tokens.len(),
            within_limits(store),
            forall|j: int| 0 <= j < n ==> (#[trigger] tokens[j]).key@.len() <= usize::MAX / 1024,
            key@ == pin_key(pin@),
            i <= n,
            out@.len() == i,
            pos == stream_offset(tokens, i as int),
            stream_offset(tokens, i as int) <= key_text_total(tokens, i as int),
            forall|j: int|
                0 <= j < i ==> {
                    &&& (#[trigger] out@[j]).name == tokens[j].name
                    &&& decrypted_key(
                        tokens[j].key@,
                        out@[j].key@,
                        key@,
                        iv@,
                        stream_offset(tokens, j),
                    )
                    &&& out@[j].key@.len() <= 2 * tokens[j].key@.len()
                },
            result == (if forall|j: int|
                0 <= j < i ==> (#[trigger] base32_decoded(tokens[j].key@)).is_some() {
                Ok::<(), DecryptError>(())
            } else {
                Err(DecryptError::Base32Decode)
            }),
        decreases n - i,
    {
        let t = &store.tokens[i];
        proof {
            lemma_total_monotone(tokens, i as int + 1, n as int);
        }
        match base32_decode(t.key.as_str()) {
            Ok(raw) => {
                let ghost b = raw@;
                let mut data = raw;
                apply_keystream_at(&key, &iv, pos, &mut data);
                assert(data@ =~= apply_stream(key@, iv@, pos as nat, b));
                let text = base32_encode(data.as_slice());
                let ghost len = b.len();
                let ghost limit = t.key@.len();
                assert((8 * len + 4) / 5 <= 2 * limit) by (nonlinear_arith)
                    requires
                        len <= limit,
                ;
                pos = pos + data.len() as u64;
                out.push(Secret { name: t.name.clone(), key: text });
            },
            Err(_) => {
                out.push(Secret { name: t.name.clone(), key: t.key.clone() });
                result = Err(DecryptError::Base32Decode);
            },
        }
        i += 1;
    }
    store.tokens = out;
    assert(forall|i: int| 0 <= i < n ==> (#[trigger] tokens[i]).key@.len() <= usize::MAX / 1024);
    result
}

impl Secret {
    /// The key as bytes, or `None` where its text is not well-formed base32.
    pub fn key_as_bytes(&self) -> (r: Option<Vec<u8>>)
        requires
            self.key@.len() <= usize::MAX / 32,
        ensures
            match r {
                Some(b) => base32_decoded(self.key@) == Some(b@),
                None => base32_decoded(self.key@).is_none(),
            },
    {
        match base32_decode(self.key.as_str()) {
            Ok(b) => Some(b),
            Err(_) => None,
        }
    }
}

} // verus!
