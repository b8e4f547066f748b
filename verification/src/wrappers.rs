//! The built-in primitives: X25519, SHA-2, BLAKE2, ChaCha20-Poly1305,
//! AES-256-GCM and the operating system's random source.
//!
//! What each primitive computes is left to the crate that implements it and
//! enters the contracts under a name. The calls stand in small functions
//! whose contracts are taken on trust; everything else here is proved.

use vstd::prelude::*;
use vstd::slice::slice_to_vec;
use aes_gcm::aead::{Aead, KeyInit, Payload};
use sha2::Digest;
use crate::constants::CIPHERKEYLEN;
use crate::params::{CipherChoice, DHChoice, HashChoice};
use crate::types::{Cipher, Dh, Random};
use crate::utils::array32;

verus! {

/// The SHA-256 digest of `data`.
pub uninterp spec fn sha256(data: Seq<u8>) -> Seq<u8>;

/// The SHA-512 digest of `data`.
pub uninterp spec fn sha512(data: Seq<u8>) -> Seq<u8>;

/// The BLAKE2s digest of `data`, 32 bytes long.
pub uninterp spec fn blake2s(data: Seq<u8>) -> Seq<u8>;

/// The BLAKE2b digest of `data`, 64 bytes long.
pub uninterp spec fn blake2b(data: Seq<u8>) -> Seq<u8>;

/// The X25519 function of a scalar and a point, 32 bytes each.
pub uninterp spec fn x25519(scalar: Seq<u8>, point: Seq<u8>) -> Seq<u8>;

/// ChaCha20-Poly1305: ciphertext and tag of `plaintext`.
pub uninterp spec fn chachapoly_seal(
    key: Seq<u8>,
    nonce: Seq<u8>,
    authtext: Seq<u8>,
    plaintext: Seq<u8>,
) -> Seq<u8>;

/// ChaCha20-Poly1305: the plaintext of `ciphertext`, if its tag fits.
pub uninterp spec fn chachapoly_open(
    key: Seq<u8>,
    nonce: Seq<u8>,
    authtext: Seq<u8>,
    ciphertext: Seq<u8>,
) -> Option<Seq<u8>>;

/// AES-256-GCM: ciphertext and tag of `plaintext`.
pub uninterp spec fn aesgcm_seal(
    key: Seq<u8>,
    nonce: Seq<u8>,
    authtext: Seq<u8>,
    plaintext: Seq<u8>,
) -> Seq<u8>;

/// AES-256-GCM: the plaintext of `ciphertext`, if its tag fits.
pub uninterp spec fn aesgcm_open(
    key: Seq<u8>,
    nonce: Seq<u8>,
    authtext: Seq<u8>,
    ciphertext: Seq<u8>,
) -> Option<Seq<u8>>;

/// `sha2::Sha256::digest`: the digest is a function of the data and has 32
/// bytes.
#[verifier::external_body]
fn sha256_digest(data: &[u8]) -> (out: Vec<u8>)
    ensures
        out@ == sha256(data@),
        out@.len() == 32,
{
    sha2::Sha256::digest(data).to_vec()
}

/// `sha2::Sha512::digest`: the digest is a function of the data and has 64
/// bytes.
#[verifier::external_body]
fn sha512_digest(data: &[u8]) -> (out: Vec<u8>)
    ensures
        out@ == sha512(data@),
        out@.len() == 64,
{
    sha2::Sha512::digest(data).to_vec()
}

/// `blake2::Blake2s256::digest`: the digest is a function of the data and
/// has 32 bytes.
#[verifier::external_body]
fn blake2s_digest(data: &[u8]) -> (out: Vec<u8>)
    ensures
        out@ == blake2s(data@),
        out@.len() == 32,
{
    blake2::Blake2s256::digest(data).to_vec()
}

/// `blake2::Blake2b512::digest`: the digest is a function of the data and
/// has 64 bytes.
#[verifier::external_body]
fn blake2b_digest(data: &[u8]) -> (out: Vec<u8>)
    ensures
        out@ == blake2b(data@),
        out@.len() == 64,
{
    blake2::Blake2b512::digest(data).to_vec()
}

/// `x25519_dalek::x25519`: the product is a function of the scalar and the
/// point.
#[verifier::external_body]
fn x25519_mul(scalar: &[u8; 32], point: &[u8; 32]) -> (out: [u8; 32])
    ensures
        out@ == x25519(scalar@, point@),
{
    x25519_dalek::x25519(*scalar, *point)
}

/// `getrandom::getrandom`: fills the buffer in place and reports whether the
/// operating system delivered. Nothing is claimed of the bytes.
#[verifier::external_body]
fn os_random(buffer: &mut Vec<u8>) -> (ok: bool)
    ensures
        final(buffer)@.len() == old(buffer)@.len(),
{
    getrandom::getrandom(buffer.as_mut_slice()).is_ok()
}

/// `encrypt` of `chacha20poly1305::ChaCha20Poly1305`: the output is the
/// plaintext's length plus a tag of 16 bytes, is a function of the four
/// inputs, and opens again to the plaintext. The call is refused only for
/// plaintexts of `64 * (2^32 - 1)` bytes or more.
#[verifier::external_body]
fn chachapoly_encrypt(key: &[u8], nonce: &[u8], authtext: &[u8], plaintext: &[u8]) -> (out: Option<
    Vec<u8>,
>)
    requires
        key@.len() == 32,
        nonce@.len() == 12,
    ensures
        plaintext@.len() <= 65535 ==> out is Some,
        out matches Some(c) ==> c@ == chachapoly_seal(key@, nonce@, authtext@, plaintext@)
            && c@.len() == plaintext@.len() + 16 && chachapoly_open(
            key@,
            nonce@,
            authtext@,
            c@,
        ) == Some(plaintext@),
{
    let cipher = chacha20poly1305::ChaCha20Poly1305::new_from_slice(key).ok()?;
    let nonce = chacha20poly1305::Nonce::from_slice(nonce);
    cipher.encrypt(nonce, Payload { msg: plaintext, aad: authtext }).ok()
}

/// `decrypt` of `chacha20poly1305::ChaCha20Poly1305`: whether the tag fits,
/// and the plaintext if it does, are a function of the four inputs; the
/// plaintext is 16 bytes shorter than the input.
#[verifier::external_body]
fn chachapoly_decrypt(key: &[u8], nonce: &[u8], authtext: &[u8], ciphertext: &[u8]) -> (out:
    Option<Vec<u8>>)
    requires
        key@.len() == 32,
        nonce@.len() == 12,
    ensures
        match out {
            Some(p) => chachapoly_open(key@, nonce@, authtext@, ciphertext@) == Some(p@)
                && p@.len() + 16 == ciphertext@.len(),
            None => chachapoly_open(key@, nonce@, authtext@, ciphertext@) is None,
        },
{
    let cipher = chacha20poly1305::ChaCha20Poly1305::new_from_slice(key).ok()?;
    let nonce = chacha20poly1305::Nonce::from_slice(nonce);
    cipher.decrypt(nonce, Payload { msg: ciphertext, aad: authtext }).ok()
}

/// `encrypt` of `aes_gcm::Aes256Gcm`: the output is the plaintext's length
/// plus a tag of 16 bytes, is a function of the four inputs, and opens again
/// to the plaintext. The call is refused only where the plaintext or the
/// associated data exceeds 2^36 bytes.
#[verifier::external_body]
fn aesgcm_encrypt(key: &[u8], nonce: &[u8], authtext: &[u8], plaintext: &[u8]) -> (out: Option<
    Vec<u8>,
>)
    requires
        key@.len() == 32,
        nonce@.len() == 12,
    ensures
        plaintext@.len() <= 65535 && authtext@.len() <= 65535 ==> out is Some,
        out matches Some(c) ==> c@ == aesgcm_seal(key@, nonce@, authtext@, plaintext@) && c@.len()
            == plaintext@.len() + 16 && aesgcm_open(key@, nonce@, authtext@, c@) == Some(
            plaintext@,
        ),
{
    let cipher = aes_gcm::Aes256Gcm::new_from_slice(key).ok()?;
    let nonce = aes_gcm::Nonce::from_slice(nonce);
    cipher.encrypt(nonce, Payload { msg: plaintext, aad: authtext }).ok()
}

/// `decrypt` of `aes_gcm::Aes256Gcm`: whether the tag fits, and the
/// plaintext if it does, are a function of the four inputs; the plaintext is
/// 16 bytes shorter than the input.
#[verifier::external_body]
fn aesgcm_decrypt(key: &[u8], nonce: &[u8], authtext: &[u8], ciphertext: &[u8]) -> (out: Option<
    Vec<u8>,
>)
    requires
        key@.len() == 32,
        nonce@.len() == 12,
    ensures
        match out {
            Some(p) => aesgcm_open(key@, nonce@, authtext@, ciphertext@) == Some(p@) && p@.len()
                + 16 == ciphertext@.len(),
            None => aesgcm_open(key@, nonce@, authtext@, ciphertext@) is None,
        },
{
    let cipher = aes_gcm::Aes256Gcm::new_from_slice(key).ok()?;
    let nonce = aes_gcm::Nonce::from_slice(nonce);
    cipher.decrypt(nonce, Payload { msg: ciphertext, aad: authtext }).ok()
}

/// Byte `i` of `n`, counted from the least significant.
pub open spec fn byte_of(n: u64, i: int) -> u8 {
    ((n >> ((8 * i) as u64)) & 0xff) as u8
}

/// The 96-bit nonce of ChaChaPoly: four zero bytes, then the counter
/// little-endian.
pub open spec fn nonce_le(n: u64) -> Seq<u8> {
    Seq::new(12, |i: int| if i < 4 { 0u8 } else { byte_of(n, i - 4) })
}

/// The 96-bit nonce of AESGCM: four zero bytes, then the counter big-endian.
pub open spec fn nonce_be(n: u64) -> Seq<u8> {
    Seq::new(12, |i: int| if i < 4 { 0u8 } else { byte_of(n, 11 - i) })
}

fn counter_byte(n: u64, i: usize) -> (b: u8)
    requires
        i < 8,
    ensures
        b == byte_of(n, i as int),
{
    let shift: u64 = 8 * (i as u64);
    let low: u64 = (n >> shift) & 0xff;
    assert(low <= 255) by (bit_vector)
        requires
            low == (n >> shift) & 0xff,
    ;
    low as u8
}

/// Encodes the counter for ChaChaPoly.
pub fn nonce_bytes_le(n: u64) -> (out: Vec<u8>)
    ensures
        out@ == nonce_le(n),
{
    let mut out: Vec<u8> = vec![0u8; 4];
    let mut i: usize = 0;
    while i < 8
        invariant
            i <= 8,
            out@.len() == 4 + i,
            forall|j: int| 0 <= j < 4 + i ==> out@[j] == nonce_le(n)[j],
        decreases 8 - i,
    {
        out.push(counter_byte(n, i));
        i += 1;
    }
    assert(out@ =~= nonce_le(n));
    out
}

/// Encodes the counter for AESGCM.
pub fn nonce_bytes_be(n: u64) -> (out: Vec<u8>)
    ensures
        out@ == nonce_be(n),
{
    let mut out: Vec<u8> = vec![0u8; 4];
    let mut i: usize = 0;
    while i < 8
        invariant
            i <= 8,
            out@.len() == 4 + i,
            forall|j: int| 0 <= j < 4 + i ==> out@[j] == nonce_be(n)[j],
        decreases 8 - i,
    {
        out.push(counter_byte(n, 7 - i));
        i += 1;
    }
    assert(out@ =~= nonce_be(n));
    out
}

/// The operating system's random source.
pub struct RandomOs;

impl RandomOs {
    pub fn new() -> Self {
        RandomOs
    }
}

impl Random for RandomOs {
    fn fill(&mut self, buffer: &mut Vec<u8>) -> (ok: bool) {
        os_random(buffer)
    }
}

/// The base point of X25519: nine, then zeros.
pub open spec fn x25519_basepoint() -> Seq<u8> {
    Seq::new(32, |i: int| if i == 0 { 9u8 } else { 0u8 })
}

/// A private key as X25519 uses it: the three lowest bits and the highest
/// bit cleared, the second highest set.
pub open spec fn clamped(key: Seq<u8>) -> bool {
    &&& key.len() == 32
    &&& key[0] & 7 == 0
    &&& key[31] & 128 == 0
    &&& key[31] & 64 == 64
}

/// What clamping makes of 32 bytes: the first byte loses its three lowest
/// bits, the last byte loses its highest bit and gets the second highest.
pub open spec fn clamp_spec(bytes: Seq<u8>) -> Seq<u8> {
    bytes.update(0, bytes[0] & 248).update(31, (bytes[31] & 127) | 64)
}

/// Makes a private key of 32 bytes, such as a random source delivers.
pub fn clamp(bytes: &[u8]) -> (key: [u8; 32])
    requires
        bytes@.len() == 32,
    ensures
        key@ == clamp_spec(bytes@),
        clamped(key@),
{
    let mut key = array32(bytes);
    let low: u8 = key[0];
    let high: u8 = key[31];
    let first: u8 = low & 248;
    let last: u8 = (high & 127) | 64;
    assert(first & 7 == 0 && last & 128 == 0 && last & 64 == 64) by (bit_vector)
        requires
            first == low & 248,
            last == (high & 127) | 64,
    ;
    key[0] = first;
    key[31] = last;
    assert(key@ =~= clamp_spec(bytes@));
    key
}

fn basepoint() -> (out: [u8; 32])
    ensures
        out@ == x25519_basepoint(),
{
    let mut out: [u8; 32] = [0u8; 32];
    out[0] = 9u8;
    assert(out@ =~= x25519_basepoint());
    out
}

/// Key agreement over Curve25519.
pub struct Dh25519 {
    privkey: [u8; 32],
}

impl Dh25519 {
    /// An instance whose private key is all zeros until one is set or
    /// generated.
    pub fn new() -> (d: Self)
        ensures
            d.choice_spec() == DHChoice::Curve25519,
            d.privkey_spec() == Seq::new(32, |i: int| 0u8),
    {
        let d = Dh25519 { privkey: [0u8; 32] };
        assert(d.privkey@ =~= Seq::new(32, |i: int| 0u8));
        d
    }
}

impl Dh for Dh25519 {
    open spec fn choice_spec(&self) -> DHChoice {
        DHChoice::Curve25519
    }

    closed spec fn privkey_spec(&self) -> Seq<u8> {
        self.privkey@
    }

    open spec fn pubkey_of(choice: DHChoice, privkey: Seq<u8>) -> Seq<u8> {
        x25519(privkey, x25519_basepoint())
    }

    open spec fn shared_of(choice: DHChoice, privkey: Seq<u8>, pubkey: Seq<u8>) -> Seq<u8> {
        x25519(privkey, pubkey)
    }

    fn choice(&self) -> (c: DHChoice) {
        DHChoice::Curve25519
    }

    fn pub_len(&self) -> (n: usize) {
        32
    }

    fn priv_len(&self) -> (n: usize) {
        32
    }

    fn set(&mut self, privkey: &[u8]) {
        self.privkey = array32(privkey);
    }

    /// The fresh key is clamped before it is stored.
    fn generate<G: Random>(&mut self, rng: &mut G) -> (ok: bool)
        ensures
            ok ==> clamped(final(self).privkey_spec()),
    {
        let mut fresh: Vec<u8> = vec![0u8; 32];
        let ok = rng.fill(&mut fresh);
        if ok {
            self.privkey = clamp(fresh.as_slice());
        }
        ok
    }

    fn pubkey(&self) -> (out: Vec<u8>) {
        let base = basepoint();
        let point = x25519_mul(&self.privkey, &base);
        slice_to_vec(point.as_slice())
    }

    fn privkey(&self) -> (out: Vec<u8>) {
        slice_to_vec(self.privkey.as_slice())
    }

    fn dh(&self, pubkey: &[u8]) -> (out: Vec<u8>) {
        let point = array32(pubkey);
        let shared = x25519_mul(&self.privkey, &point);
        slice_to_vec(shared.as_slice())
    }
}

/// Any of the four built-in hash functions.
pub struct HashImpl {
    pub choice: HashChoice,
}

impl HashImpl {
    pub fn new(choice: HashChoice) -> (h: Self)
        ensures
            h.choice == choice,
    {
        HashImpl { choice }
    }
}

impl crate::types::Hash for HashImpl {
    open spec fn choice_spec(&self) -> HashChoice {
        self.choice
    }

    fn choice(&self) -> (c: HashChoice) {
        self.choice
    }

    fn hash_len(&self) -> (n: usize) {
        match self.choice {
            HashChoice::SHA256 => 32,
            HashChoice::SHA512 => 64,
            HashChoice::Blake2s => 32,
            HashChoice::Blake2b => 64,
        }
    }

    fn block_len(&self) -> (n: usize) {
        match self.choice {
            HashChoice::SHA256 => 64,
            HashChoice::SHA512 => 128,
            HashChoice::Blake2s => 64,
            HashChoice::Blake2b => 128,
        }
    }

    fn hash(&self, data: &[u8]) -> (out: Vec<u8>) {
        match self.choice {
            HashChoice::SHA256 => sha256_digest(data),
            HashChoice::SHA512 => sha512_digest(data),
            HashChoice::Blake2s => blake2s_digest(data),
            HashChoice::Blake2b => blake2b_digest(data),
        }
    }
}

/// Either of the two built-in ciphers, with the key it holds.
pub struct CipherImpl {
    choice: CipherChoice,
    key: Vec<u8>,
}

impl CipherImpl {
    /// An instance that holds an all-zero key until one is set.
    pub fn new(choice: CipherChoice) -> (c: Self)
        ensures
            c.choice_spec() == choice,
            c.key_spec().len() == CIPHERKEYLEN,
    {
        CipherImpl { choice, key: vec![0u8; 32] }
    }
}

impl Cipher for CipherImpl {
    closed spec fn choice_spec(&self) -> CipherChoice {
        self.choice
    }

    closed spec fn key_spec(&self) -> Seq<u8> {
        self.key@
    }

    fn choice(&self) -> (c: CipherChoice) {
        self.choice
    }

    fn set(&mut self, key: &[u8]) {
        self.key = slice_to_vec(key);
    }

    fn encrypt(&self, nonce: u64, authtext: &[u8], plaintext: &[u8]) -> (out: Vec<u8>) {
        let sealed = match self.choice {
            CipherChoice::ChaChaPoly => {
                let n = nonce_bytes_le(nonce);
                chachapoly_encrypt(self.key.as_slice(), n.as_slice(), authtext, plaintext)
            },
            CipherChoice::AESGCM => {
                let n = nonce_bytes_be(nonce);
                aesgcm_encrypt(self.key.as_slice(), n.as_slice(), authtext, plaintext)
            },
        };
        sealed.unwrap()
    }

    fn decrypt(&self, nonce: u64, authtext: &[u8], ciphertext: &[u8]) -> (out: Result<
        Vec<u8>,
        (),
    >) {
        let opened = match self.choice {
            CipherChoice::ChaChaPoly => {
                let n = nonce_bytes_le(nonce);
                chachapoly_decrypt(self.key.as_slice(), n.as_slice(), authtext, ciphertext)
            },
            CipherChoice::AESGCM => {
                let n = nonce_bytes_be(nonce);
                aesgcm_decrypt(self.key.as_slice(), n.as_slice(), authtext, ciphertext)
            },
        };
        match opened {
            Some(p) => Ok(p),
            None => Err(()),
        }
    }
}

} // verus!
