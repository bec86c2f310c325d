//! Time-based one-time codes (HMAC-SHA1 TOTP with a 30 second step).

use sha1::Digest;
use vstd::prelude::*;

verus! {

/// Length of one time step, in seconds.
pub const STEP: u64 = 30;

/// Block size of SHA-1, the length every HMAC key is padded to.
pub const BLOCK_SIZE: usize = 64;

/// Inner HMAC pad byte.
pub const IPAD: u8 = 0x36;

/// Outer HMAC pad byte.
pub const OPAD: u8 = 0x5C;

/// Largest timestamp whose window end still fits in a `u64`.
pub const MAX_TIMESTAMP: u64 = u64::MAX - STEP;

/// A one-time code and the first second at which it is no longer valid.
#[derive(Clone, Copy, Debug, PartialEq, Eq, Structural)]
pub struct Token {
    pub code: u32,
    pub valid_until: u64,
}

/// The SHA-1 digest of `data`.
pub uninterp spec fn sha1_of(data: Seq<u8>) -> Seq<u8>;

/// Relies on `sha1::Sha1::digest`: a fresh hasher, fed the whole input, then finished.
#[verifier::external_body]
fn sha1_digest(data: &[u8]) -> (r: [u8; 20])
    ensures
        r@ == sha1_of(data@),
{
    sha1::Sha1::digest(data).into()
}

/// The key padded (or first hashed, when longer than a block) to one block.
pub open spec fn key_block(key: Seq<u8>) -> Seq<u8> {
    let k = if key.len() > BLOCK_SIZE {
        sha1_of(key)
    } else {
        key
    };
    Seq::new(BLOCK_SIZE as nat, |i: int| if i < k.len() { k[i] } else { 0u8 })
}

/// Every byte of `block` XORed with `pad`.
pub open spec fn xor_pad(block: Seq<u8>, pad: u8) -> Seq<u8> {
    Seq::new(block.len(), |i: int| block[i] ^ pad)
}

/// HMAC-SHA1 of `msg` under `key`.
pub open spec fn hmac_sha1(key: Seq<u8>, msg: Seq<u8>) -> Seq<u8> {
    let k = key_block(key);
    sha1_of(xor_pad(k, OPAD) + sha1_of(xor_pad(k, IPAD) + msg))
}

/// `n` as eight big-endian bytes.
pub open spec fn be_bytes(n: u64) -> Seq<u8> {
    Seq::new(8, |i: int| (n >> ((56 - 8 * i) as u64)) as u8)
}

/// Dynamic truncation of a 20-byte HMAC value to a six-digit code.
pub open spec fn truncate(h: Seq<u8>) -> u32 {
    let o = (h[19] & 0x0f) as int;
    let v = ((h[o] as u32) << 24u32) | ((h[o + 1] as u32) << 16u32) | ((h[o + 2] as u32)
        << 8u32) | (h[o + 3] as u32);
    (v & 0x7fff_ffff) % 1_000_000
}

/// Index of the time step that holds `timestamp`.
pub open spec fn time_step(timestamp: u64) -> u64 {
    timestamp / STEP
}

/// First second after the window that holds `timestamp`.
pub open spec fn window_end(timestamp: u64) -> int {
    (time_step(timestamp) + 1) * STEP
}

/// The token for `timestamp`, given the HMAC value of its time step.
pub open spec fn token_of_hmac(h: Seq<u8>, timestamp: u64) -> Token {
    Token { code: truncate(h), valid_until: window_end(timestamp) as u64 }
}

/// The token that `key` gives at `timestamp`.
pub open spec fn totp(key: Seq<u8>, timestamp: u64) -> Token {
    token_of_hmac(hmac_sha1(key, be_bytes(time_step(timestamp))), timestamp)
}

/// Within one 30 second window every timestamp gives the same token, expiry
/// included; from one window to the next the expiry moves on by exactly one
/// step, and a later window always expires later.
pub proof fn token_per_window(key: Seq<u8>, t1: u64, t2: u64)
    ensures
        time_step(t1) == time_step(t2) ==> totp(key, t1) == totp(key, t2),
        time_step(t2) == time_step(t1) + 1 ==> window_end(t2) == window_end(t1) + STEP,
        time_step(t1) < time_step(t2) ==> window_end(t1) < window_end(t2),
        t1 <= t2 ==> window_end(t1) <= window_end(t2),
{
    let s1 = time_step(t1);
    let s2 = time_step(t2);
    if t1 <= t2 {
        assert(t1 / 30 <= t2 / 30) by (nonlinear_arith)
            requires
                t1 <= t2,
        ;
    }
    assert(s1 < s2 ==> (s1 + 1) * 30 < (s2 + 1) * 30) by (nonlinear_arith);
    assert(s1 <= s2 ==> (s1 + 1) * 30 <= (s2 + 1) * 30) by (nonlinear_arith);
}

/// The window of a timestamp ends after it, and at most one step later.
pub proof fn window_end_bounds(t: u64)
    ensures
        t < window_end(t) <= t + STEP,
{
    assert(t < (t / 30 + 1) * 30 <= t + 30) by (nonlinear_arith);
}

/// Cuts a 20-byte HMAC value down to a six-digit code.
pub fn truncate_code(h: &[u8; 20]) -> (r: u32)
    ensures
        r == truncate(h@),
        r < 1_000_000,
{
    let last = h[19];
    assert(last & 0x0f <= 15u8) by (bit_vector);
    let o = (last & 0x0f) as usize;
    let v = ((h[o] as u32) << 24u32) | ((h[o + 1] as u32) << 16u32) | ((h[o + 2] as u32)
        << 8u32) | (h[o + 3] as u32);
    (v & 0x7fff_ffff) % 1_000_000
}

/// The token for `timestamp`, given the HMAC value of its time step.
pub fn token_from_hmac(h: &[u8; 20], timestamp: u64) -> (r: Token)
    requires
        timestamp <= MAX_TIMESTAMP,
    ensures
        r == token_of_hmac(h@, timestamp),
        r.code < 1_000_000,
{
    proof {
        window_end_bounds(timestamp);
    }
    let t = timestamp / STEP;
    Token { code: truncate_code(h), valid_until: (t + 1) * STEP }
}

/// The time step counter as eight big-endian bytes.
pub fn counter_bytes(n: u64) -> (r: Vec<u8>)
    ensures
        r@ == be_bytes(n),
{
    let mut r: Vec<u8> = Vec::new();
    let mut i: usize = 0;
    while i < 8
        invariant
            i <= 8,
            r@ == be_bytes(n).subrange(0, i as int),
        decreases 8 - i,
    {
        r.push((n >> ((56 - 8 * i) as u64)) as u8);
        i += 1;
        assert(r@ =~= be_bytes(n).subrange(0, i as int));
    }
    assert(r@ =~= be_bytes(n));
    r
}

/// One block holding `key`, zero-padded; a key longer than a block is
/// replaced by its digest first.
pub fn pad_key(key: &[u8]) -> (r: Vec<u8>)
    ensures
        r@ == key_block(key@),
{
    let digest: [u8; 20];
    let k: &[u8] = if key.len() > BLOCK_SIZE {
        digest = sha1_digest(key);
        digest.as_slice()
    } else {
        key
    };
    let mut r: Vec<u8> = Vec::new();
    let mut i: usize = 0;
    while i < BLOCK_SIZE
        invariant
            i <= BLOCK_SIZE,
            k@ == (if key@.len() > BLOCK_SIZE { sha1_of(key@) } else { key@ }),
            r@ == key_block(key@).subrange(0, i as int),
        decreases BLOCK_SIZE - i,
    {
        r.push(if i < k.len() { k[i] } else { 0u8 });
        i += 1;
        assert(r@ =~= key_block(key@).subrange(0, i as int));
    }
    assert(r@ =~= key_block(key@));
    r
}

/// `block` XORed with `pad`, followed by `tail`: the input of one HMAC pass.
pub fn pad_and_append(block: &[u8], pad: u8, tail: &[u8]) -> (r: Vec<u8>)
    ensures
        r@ == xor_pad(block@, pad) + tail@,
{
    let mut r: Vec<u8> = Vec::new();
    let mut i: usize = 0;
    while i < block.len()
        invariant
            i <= block@.len(),
            r@ == xor_pad(block@, pad).subrange(0, i as int),
        decreases block@.len() - i,
    {
        r.push(block[i] ^ pad);
        i += 1;
        assert(r@ =~= xor_pad(block@, pad).subrange(0, i as int));
    }
    let mut j: usize = 0;
    while j < tail.len()
        invariant
            j <= tail@.len(),
            r@ == xor_pad(block@, pad) + tail@.subrange(0, j as int),
        decreases tail@.len() - j,
    {
        r.push(tail[j]);
        j += 1;
        assert(r@ =~= xor_pad(block@, pad) + tail@.subrange(0, j as int));
    }
    assert(tail@.subrange(0, tail@.len() as int) =~= tail@);
    r
}

/// HMAC-SHA1 of `msg` under `key`, from three independent SHA-1 passes at most.
pub fn hmac(key: &[u8], msg: &[u8]) -> (r: [u8; 20])
    ensures
        r@ == hmac_sha1(key@, msg@),
{
    let block = pad_key(key);
    let inner_input = pad_and_append(block.as_slice(), IPAD, msg);
    let inner = sha1_digest(inner_input.as_slice());
    let outer_input = pad_and_append(block.as_slice(), OPAD, inner.as_slice());
    sha1_digest(outer_input.as_slice())
}

/// The one-time code that `key` gives at `timestamp`, and when it expires.
pub fn token(key: &[u8], timestamp: u64) -> (r: Token)
    requires
        timestamp <= MAX_TIMESTAMP,
    ensures
        r == totp(key@, timestamp),
        r.code < 1_000_000,
        timestamp < r.valid_until <= timestamp + STEP,
{
    proof {
        window_end_bounds(timestamp);
    }
    let msg = counter_bytes(timestamp / STEP);
    let h = hmac(key, msg.as_slice());
    token_from_hmac(&h, timestamp)
}

} // verus!
