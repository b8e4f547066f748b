//! The capabilities that the engine consumes: randomness, key agreement,
//! hashing and authenticated encryption, and the key derivation built on
//! the hash.

use vstd::prelude::*;
use vstd::slice::slice_to_vec;
use crate::constants::{CIPHERKEYLEN, MAXBLOCKLEN, MAXHASHLEN, MAXMSGLEN, TAGLEN};
use crate::params::{CipherChoice, DHChoice, HashChoice};
use crate::wrappers::{
    aesgcm_open, aesgcm_seal, blake2b, blake2s, chachapoly_open, chachapoly_seal, nonce_be,
    nonce_le, sha256, sha512,
};

verus! {

/// Digest length in bytes of each hash function.
pub open spec fn hash_len_spec(choice: HashChoice) -> nat {
    match choice {
        HashChoice::SHA256 => 32,
        HashChoice::SHA512 => 64,
        HashChoice::Blake2s => 32,
        HashChoice::Blake2b => 64,
    }
}

/// Block length in bytes of each hash function.
pub open spec fn block_len_spec(choice: HashChoice) -> nat {
    match choice {
        HashChoice::SHA256 => 64,
        HashChoice::SHA512 => 128,
        HashChoice::Blake2s => 64,
        HashChoice::Blake2b => 128,
    }
}

/// A digest is long enough to cut a cipher key from it, and no longer than
/// a block; digests and blocks stay within the longest that are supported.
pub proof fn lemma_hash_lengths(choice: HashChoice)
    ensures
        CIPHERKEYLEN <= hash_len_spec(choice) <= MAXHASHLEN,
        hash_len_spec(choice) <= block_len_spec(choice) <= MAXBLOCKLEN,
{
}

/// The digest of `data` under the chosen hash function.
pub open spec fn hash_spec(choice: HashChoice, data: Seq<u8>) -> Seq<u8> {
    match choice {
        HashChoice::SHA256 => sha256(data),
        HashChoice::SHA512 => sha512(data),
        HashChoice::Blake2s => blake2s(data),
        HashChoice::Blake2b => blake2b(data),
    }
}

/// Length in bytes of the public and private keys of each key agreement.
pub open spec fn dh_len_spec(choice: DHChoice) -> nat {
    match choice {
        DHChoice::Curve25519 => 32,
        DHChoice::Ed448 => 56,
    }
}

/// The ciphertext and tag for `plaintext` under `key`, counter `nonce` and
/// associated data `authtext`. ChaChaPoly encodes the counter little-endian,
/// AESGCM big-endian, each behind four zero bytes.
pub open spec fn seal_spec(
    choice: CipherChoice,
    key: Seq<u8>,
    nonce: u64,
    authtext: Seq<u8>,
    plaintext: Seq<u8>,
) -> Seq<u8> {
    match choice {
        CipherChoice::ChaChaPoly => chachapoly_seal(key, nonce_le(nonce), authtext, plaintext),
        CipherChoice::AESGCM => aesgcm_seal(key, nonce_be(nonce), authtext, plaintext),
    }
}

/// The plaintext of `ciphertext`, or `None` where it does not authenticate.
pub open spec fn open_spec(
    choice: CipherChoice,
    key: Seq<u8>,
    nonce: u64,
    authtext: Seq<u8>,
    ciphertext: Seq<u8>,
) -> Option<Seq<u8>> {
    match choice {
        CipherChoice::ChaChaPoly => chachapoly_open(key, nonce_le(nonce), authtext, ciphertext),
        CipherChoice::AESGCM => aesgcm_open(key, nonce_be(nonce), authtext, ciphertext),
    }
}

/// A source of random bytes.
pub trait Random {
    /// Overwrites `buffer` with random bytes and keeps its length. Returns
    /// `false` when the source could not deliver.
    fn fill(&mut self, buffer: &mut Vec<u8>) -> (ok: bool)
        ensures
            final(buffer)@.len() == old(buffer)@.len(),
    ;
}

/// A Diffie-Hellman function together with one private key.
pub trait Dh {
    /// The function that this instance computes.
    spec fn choice_spec(&self) -> DHChoice;

    /// The private key held at present.
    spec fn privkey_spec(&self) -> Seq<u8>;

    /// The public key that belongs to `privkey`.
    spec fn pubkey_of(choice: DHChoice, privkey: Seq<u8>) -> Seq<u8>;

    /// The secret shared between `privkey` and the owner of `pubkey`.
    spec fn shared_of(choice: DHChoice, privkey: Seq<u8>, pubkey: Seq<u8>) -> Seq<u8>;

    fn choice(&self) -> (c: DHChoice)
        ensures
            c == self.choice_spec(),
    ;

    /// Length of a public key.
    fn pub_len(&self) -> (n: usize)
        ensures
            n == dh_len_spec(self.choice_spec()),
    ;

    /// Length of a private key.
    fn priv_len(&self) -> (n: usize)
        ensures
            n == dh_len_spec(self.choice_spec()),
    ;

    /// Installs `privkey` as the private key.
    fn set(&mut self, privkey: &[u8])
        requires
            privkey@.len() == dh_len_spec(old(self).choice_spec()),
        ensures
            final(self).privkey_spec() == privkey@,
            final(self).choice_spec() == old(self).choice_spec(),
    ;

    /// Replaces the private key by a fresh one drawn from `rng`. Returns
    /// `false`, with the key unchanged, when `rng` could not deliver.
    fn generate<G: Random>(&mut self, rng: &mut G) -> (ok: bool)
        requires
            old(self).privkey_spec().len() == dh_len_spec(old(self).choice_spec()),
        ensures
            final(self).choice_spec() == old(self).choice_spec(),
            final(self).privkey_spec().len() == dh_len_spec(old(self).choice_spec()),
            !ok ==> final(self).privkey_spec() == old(self).privkey_spec(),
    ;

    /// The public key of the private key held.
    fn pubkey(&self) -> (out: Vec<u8>)
        requires
            self.privkey_spec().len() == dh_len_spec(self.choice_spec()),
        ensures
            out@ == Self::pubkey_of(self.choice_spec(), self.privkey_spec()),
            out@.len() == dh_len_spec(self.choice_spec()),
    ;

    /// The private key held.
    fn privkey(&self) -> (out: Vec<u8>)
        ensures
            out@ == self.privkey_spec(),
    ;

    /// The secret shared with the owner of `pubkey`.
    fn dh(&self, pubkey: &[u8]) -> (out: Vec<u8>)
        requires
            self.privkey_spec().len() == dh_len_spec(self.choice_spec()),
            pubkey@.len() == dh_len_spec(self.choice_spec()),
        ensures
            out@ == Self::shared_of(self.choice_spec(), self.privkey_spec(), pubkey@),
            out@.len() == dh_len_spec(self.choice_spec()),
    ;
}

/// A hash function.
pub trait Hash {
    /// The function that this instance computes.
    spec fn choice_spec(&self) -> HashChoice;

    fn choice(&self) -> (c: HashChoice)
        ensures
            c == self.choice_spec(),
    ;

    /// Length of a digest.
    fn hash_len(&self) -> (n: usize)
        ensures
            n == hash_len_spec(self.choice_spec()),
    ;

    /// Length of a block.
    fn block_len(&self) -> (n: usize)
        ensures
            n == block_len_spec(self.choice_spec()),
    ;

    /// The digest of `data`.
    fn hash(&self, data: &[u8]) -> (out: Vec<u8>)
        ensures
            out@ == hash_spec(self.choice_spec(), data@),
            out@.len() == hash_len_spec(self.choice_spec()),
    ;
}

/// An authenticated cipher that holds one key at a time.
pub trait Cipher {
    /// The algorithm that this instance computes.
    spec fn choice_spec(&self) -> CipherChoice;

    /// The key that was installed last.
    spec fn key_spec(&self) -> Seq<u8>;

    fn choice(&self) -> (c: CipherChoice)
        ensures
            c == self.choice_spec(),
    ;

    /// Installs `key`.
    fn set(&mut self, key: &[u8])
        requires
            key@.len() == CIPHERKEYLEN,
        ensures
            final(self).key_spec() == key@,
            final(self).choice_spec() == old(self).choice_spec(),
    ;

    /// Encrypts `plaintext` and appends the tag. What comes out opens again
    /// to `plaintext` under the same key, counter and associated data.
    fn encrypt(&self, nonce: u64, authtext: &[u8], plaintext: &[u8]) -> (out: Vec<u8>)
        requires
            self.key_spec().len() == CIPHERKEYLEN,
            authtext@.len() <= MAXMSGLEN,
            plaintext@.len() <= MAXMSGLEN,
        ensures
            out@ == seal_spec(self.choice_spec(), self.key_spec(), nonce, authtext@, plaintext@),
            out@.len() == plaintext@.len() + TAGLEN,
            open_spec(self.choice_spec(), self.key_spec(), nonce, authtext@, out@) == Some(
                plaintext@,
            ),
    ;

    /// Checks the tag that ends `ciphertext` and decrypts what stands before
    /// it; `Err` where the tag does not fit.
    fn decrypt(&self, nonce: u64, authtext: &[u8], ciphertext: &[u8]) -> (out: Result<
        Vec<u8>,
        (),
    >)
        requires
            self.key_spec().len() == CIPHERKEYLEN,
            authtext@.len() <= MAXMSGLEN,
            ciphertext@.len() <= MAXMSGLEN + TAGLEN,
        ensures
            match out {
                Ok(p) => open_spec(
                    self.choice_spec(),
                    self.key_spec(),
                    nonce,
                    authtext@,
                    ciphertext@,
                ) == Some(p@) && p@.len() + TAGLEN == ciphertext@.len(),
                Err(_) => open_spec(
                    self.choice_spec(),
                    self.key_spec(),
                    nonce,
                    authtext@,
                    ciphertext@,
                ) is None,
            },
    ;
}

/// A key of at most one block, padded with zeros to a block and combined
/// bytewise with `pad`.
pub open spec fn pad_key(key: Seq<u8>, pad: u8, block_len: nat) -> Seq<u8> {
    Seq::new(block_len, |i: int| if i < key.len() { key[i] ^ pad } else { pad })
}

/// HMAC over the chosen hash function, for keys of at most one block.
pub open spec fn hmac_spec(choice: HashChoice, key: Seq<u8>, data: Seq<u8>) -> Seq<u8> {
    let block_len = block_len_spec(choice);
    hash_spec(
        choice,
        pad_key(key, 0x5c, block_len) + hash_spec(choice, pad_key(key, 0x36, block_len) + data),
    )
}

/// The three outputs of the key derivation from a chaining key and input
/// key material.
pub open spec fn hkdf_spec(choice: HashChoice, chaining_key: Seq<u8>, ikm: Seq<u8>) -> (
    Seq<u8>,
    Seq<u8>,
    Seq<u8>,
) {
    let temp = hmac_spec(choice, chaining_key, ikm);
    let out1 = hmac_spec(choice, temp, seq![1u8]);
    let out2 = hmac_spec(choice, temp, out1 + seq![2u8]);
    let out3 = hmac_spec(choice, temp, out2 + seq![3u8]);
    (out1, out2, out3)
}

fn padded_key(key: &[u8], pad: u8, block_len: usize) -> (out: Vec<u8>)
    requires
        key@.len() <= block_len,
    ensures
        out@ == pad_key(key@, pad, block_len as nat),
{
    let mut out: Vec<u8> = Vec::new();
    let mut i: usize = 0;
    while i < block_len
        invariant
            i <= block_len,
            out@.len() == i,
            forall|j: int| 0 <= j < i ==> out@[j] == pad_key(key@, pad, block_len as nat)[j],
        decreases block_len - i,
    {
        let b: u8 = if i < key.len() {
            key[i] ^ pad
        } else {
            pad
        };
        out.push(b);
        i += 1;
    }
    assert(out@ =~= pad_key(key@, pad, block_len as nat));
    out
}

/// Computes the HMAC of `data` under `key`.
pub fn hmac<H: Hash>(hasher: &H, key: &[u8], data: &[u8]) -> (out: Vec<u8>)
    requires
        key@.len() <= block_len_spec(hasher.choice_spec()),
    ensures
        out@ == hmac_spec(hasher.choice_spec(), key@, data@),
        out@.len() == hash_len_spec(hasher.choice_spec()),
{
    let block_len = hasher.block_len();
    let mut inner = padded_key(key, 0x36, block_len);
    let mut outer = padded_key(key, 0x5c, block_len);
    inner.extend_from_slice(data);
    assert(inner@ =~= pad_key(key@, 0x36, block_len as nat) + data@);
    let digest = hasher.hash(inner.as_slice());
    outer.extend_from_slice(digest.as_slice());
    assert(outer@ =~= pad_key(key@, 0x5c, block_len as nat) + digest@);
    hasher.hash(outer.as_slice())
}

/// Derives `outputs` keys from `chaining_key` and `ikm`. The outputs that
/// were not asked for come back empty.
pub fn hkdf<H: Hash>(hasher: &H, chaining_key: &[u8], ikm: &[u8], outputs: usize) -> (out: (
    Vec<u8>,
    Vec<u8>,
    Vec<u8>,
))
    requires
        chaining_key@.len() <= block_len_spec(hasher.choice_spec()),
    ensures
        out.0@ == hkdf_spec(hasher.choice_spec(), chaining_key@, ikm@).0,
        out.1@ == if outputs >= 2 {
            hkdf_spec(hasher.choice_spec(), chaining_key@, ikm@).1
        } else {
            Seq::<u8>::empty()
        },
        out.2@ == if outputs >= 3 {
            hkdf_spec(hasher.choice_spec(), chaining_key@, ikm@).2
        } else {
            Seq::<u8>::empty()
        },
        out.0@.len() == hash_len_spec(hasher.choice_spec()),
        outputs >= 2 ==> out.1@.len() == hash_len_spec(hasher.choice_spec()),
        outputs >= 3 ==> out.2@.len() == hash_len_spec(hasher.choice_spec()),
{
    let temp = hmac(hasher, chaining_key, ikm);
    proof {
        lemma_hash_lengths(hasher.choice_spec());
    }
    let mut in1: Vec<u8> = Vec::new();
    in1.push(1u8);
    assert(in1@ =~= seq![1u8]);
    let out1 = hmac(hasher, temp.as_slice(), in1.as_slice());
    if outputs < 2 {
        return (out1, Vec::new(), Vec::new());
    }
    let mut in2 = slice_to_vec(out1.as_slice());
    in2.push(2u8);
    assert(in2@ =~= out1@ + seq![2u8]);
    let out2 = hmac(hasher, temp.as_slice(), in2.as_slice());
    if outputs < 3 {
        return (out1, out2, Vec::new());
    }
    let mut in3 = slice_to_vec(out2.as_slice());
    in3.push(3u8);
    assert(in3@ =~= out2@ + seq![3u8]);
    let out3 = hmac(hasher, temp.as_slice(), in3.as_slice());
    (out1, out2, out3)
}

} // verus!
