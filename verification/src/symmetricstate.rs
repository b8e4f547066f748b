//! The running hash and the chaining key of a handshake, with the cipher
//! that the chaining key feeds.

use vstd::prelude::*;
use vstd::slice::{slice_subrange, slice_to_vec};
use vstd::string::StringSliceAdditionalSpecFns;
use crate::cipherstate::{decrypt_spec, encrypt_spec, CipherModel, CipherState};
use crate::constants::{CIPHERKEYLEN, TAGLEN};
use crate::error::ErrorKind;
use crate::params::{CipherChoice, HashChoice};
use crate::types::{hash_len_spec, hash_spec, hkdf, hkdf_spec, lemma_hash_lengths, Cipher};

verus! {

/// What a symmetric state is, apart from the instances that compute.
pub struct SymmetricModel {
    pub hash: HashChoice,
    pub cipher: CipherModel,
    /// The running hash of everything exchanged so far.
    pub h: Seq<u8>,
    /// The chaining key.
    pub ck: Seq<u8>,
}

/// The start of a handshake: a name no longer than a digest is padded with
/// zeros to a digest's length, a longer one is hashed; the chaining key
/// starts as a copy, and there is no key yet.
pub open spec fn sym_initialize(hash: HashChoice, cipher: CipherChoice, name: Seq<u8>)
    -> SymmetricModel {
    let h = if name.len() <= hash_len_spec(hash) {
        Seq::new(hash_len_spec(hash), |i: int| if i < name.len() { name[i] } else { 0u8 })
    } else {
        hash_spec(hash, name)
    };
    SymmetricModel { hash, cipher: CipherModel { choice: cipher, key: None, n: 0 }, h, ck: h }
}

/// Folds `data` into the running hash.
pub open spec fn sym_mix_hash(m: SymmetricModel, data: Seq<u8>) -> SymmetricModel {
    SymmetricModel { h: hash_spec(m.hash, m.h + data), ..m }
}

/// Derives a new chaining key and a new cipher key from the chaining key
/// and `ikm`; the counter starts again at zero.
pub open spec fn sym_mix_key(m: SymmetricModel, ikm: Seq<u8>) -> SymmetricModel {
    let out = hkdf_spec(m.hash, m.ck, ikm);
    SymmetricModel {
        ck: out.0,
        cipher: CipherModel {
            choice: m.cipher.choice,
            key: Some(out.1.take(CIPHERKEYLEN as int)),
            n: 0,
        },
        ..m
    }
}

/// Derives a new chaining key, a value that is folded into the running
/// hash, and a new cipher key.
pub open spec fn sym_mix_key_and_hash(m: SymmetricModel, ikm: Seq<u8>) -> SymmetricModel {
    let out = hkdf_spec(m.hash, m.ck, ikm);
    SymmetricModel {
        ck: out.0,
        h: hash_spec(m.hash, m.h + out.1),
        cipher: CipherModel {
            choice: m.cipher.choice,
            key: Some(out.2.take(CIPHERKEYLEN as int)),
            n: 0,
        },
        ..m
    }
}

/// With a key: encrypts under the running hash as associated data. Without
/// one: passes the plaintext on. Either way what goes out is folded into
/// the running hash.
pub open spec fn sym_encrypt_and_hash(m: SymmetricModel, plaintext: Seq<u8>) -> Result<
    (SymmetricModel, Seq<u8>),
    ErrorKind,
> {
    if m.cipher.key is Some {
        match encrypt_spec(m.cipher, m.h, plaintext) {
            Ok((c, out)) => Ok((sym_mix_hash(SymmetricModel { cipher: c, ..m }, out), out)),
            Err(e) => Err(e),
        }
    } else {
        Ok((sym_mix_hash(m, plaintext), plaintext))
    }
}

/// With a key: decrypts under the running hash as associated data. Without
/// one: passes the data on. Either way what came in is folded into the
/// running hash.
pub open spec fn sym_decrypt_and_hash(m: SymmetricModel, data: Seq<u8>) -> Result<
    (SymmetricModel, Seq<u8>),
    ErrorKind,
> {
    if m.cipher.key is Some {
        match decrypt_spec(m.cipher, m.h, data) {
            Ok((c, out)) => Ok((sym_mix_hash(SymmetricModel { cipher: c, ..m }, data), out)),
            Err(e) => Err(e),
        }
    } else {
        Ok((sym_mix_hash(m, data), data))
    }
}

/// The two transport keys that the final chaining key yields.
pub open spec fn sym_split(m: SymmetricModel) -> (Seq<u8>, Seq<u8>) {
    let out = hkdf_spec(m.hash, m.ck, Seq::<u8>::empty());
    (out.0.take(CIPHERKEYLEN as int), out.1.take(CIPHERKEYLEN as int))
}

/// The running hash, the chaining key, and the cipher state that is keyed
/// from them.
pub struct SymmetricState<H: crate::types::Hash, C: Cipher> {
    cipherstate: CipherState<C>,
    hasher: H,
    h: Vec<u8>,
    ck: Vec<u8>,
}

/// A copy of what `SymmetricState::restore` brings back.
pub struct SymmetricSnapshot {
    cipher: (Option<Vec<u8>>, u64),
    h: Vec<u8>,
    ck: Vec<u8>,
}

impl<H: crate::types::Hash, C: Cipher> View for SymmetricState<H, C> {
    type V = SymmetricModel;

    closed spec fn view(&self) -> SymmetricModel {
        SymmetricModel {
            hash: self.hasher.choice_spec(),
            cipher: self.cipherstate@,
            h: self.h@,
            ck: self.ck@,
        }
    }
}

fn key_prefix(bytes: &Vec<u8>) -> (key: &[u8])
    requires
        bytes@.len() >= CIPHERKEYLEN,
    ensures
        key@ == bytes@.take(CIPHERKEYLEN as int),
        key@.len() == CIPHERKEYLEN,
{
    slice_subrange(bytes.as_slice(), 0, CIPHERKEYLEN)
}

impl<H: crate::types::Hash, C: Cipher> SymmetricState<H, C> {
    /// The cipher state is well formed, and the running hash and the
    /// chaining key have the length of a digest.
    pub closed spec fn wf(&self) -> bool {
        &&& self.cipherstate.wf()
        &&& self.h@.len() == hash_len_spec(self.hasher.choice_spec())
        &&& self.ck@.len() == hash_len_spec(self.hasher.choice_spec())
    }

    /// The state that starts a handshake of the given name.
    pub fn new(cipherstate: CipherState<C>, hasher: H, handshake_name: &str) -> (s: Self)
        requires
            cipherstate.wf(),
            cipherstate@.key is None,
            cipherstate@.n == 0,
        ensures
            s.wf(),
            s@ == sym_initialize(
                hasher.choice_spec(),
                cipherstate@.choice,
                handshake_name.spec_bytes(),
            ),
    {
        let name = handshake_name.as_bytes();
        let hash_len = hasher.hash_len();
        let h = if name.len() <= hash_len {
            let mut padded = slice_to_vec(name);
            let mut i: usize = name.len();
            while i < hash_len
                invariant
                    name@.len() <= i <= hash_len,
                    padded@.len() == i,
                    forall|j: int| 0 <= j < i ==> padded@[j] == if j < name@.len() {
                        name@[j]
                    } else {
                        0u8
                    },
                decreases hash_len - i,
            {
                padded.push(0u8);
                i += 1;
            }
            padded
        } else {
            hasher.hash(name)
        };
        let ck = slice_to_vec(h.as_slice());
        let s = SymmetricState { cipherstate, hasher, h, ck };
        assert(s@.h =~= sym_initialize(
            hasher.choice_spec(),
            cipherstate@.choice,
            handshake_name.spec_bytes(),
        ).h);
        s
    }

    /// Folds `data` into the running hash.
    pub fn mix_hash(&mut self, data: &[u8])
        requires
            old(self).wf(),
        ensures
            final(self).wf(),
            final(self)@ == sym_mix_hash(old(self)@, data@),
    {
        let mut input = slice_to_vec(self.h.as_slice());
        input.extend_from_slice(data);
        assert(input@ =~= self.h@ + data@);
        self.h = self.hasher.hash(input.as_slice());
    }

    /// Derives a new chaining key and a new cipher key.
    pub fn mix_key(&mut self, ikm: &[u8])
        requires
            old(self).wf(),
        ensures
            final(self).wf(),
            final(self)@ == sym_mix_key(old(self)@, ikm@),
    {
        proof {
            lemma_hash_lengths(self.hasher.choice_spec());
        }
        let out = hkdf(&self.hasher, self.ck.as_slice(), ikm, 2);
        self.cipherstate.set(key_prefix(&out.1));
        self.ck = out.0;
    }

    /// Derives a new chaining key, folds the second output into the running
    /// hash, and installs the third as cipher key.
    pub fn mix_key_and_hash(&mut self, ikm: &[u8])
        requires
            old(self).wf(),
        ensures
            final(self).wf(),
            final(self)@ == sym_mix_key_and_hash(old(self)@, ikm@),
    {
        proof {
            lemma_hash_lengths(self.hasher.choice_spec());
        }
        let out = hkdf(&self.hasher, self.ck.as_slice(), ikm, 3);
        self.mix_hash(out.1.as_slice());
        self.cipherstate.set(key_prefix(&out.2));
        self.ck = out.0;
    }

    /// Whether the cipher has a key.
    pub fn has_key(&self) -> (b: bool)
        ensures
            b == self@.cipher.key is Some,
    {
        self.cipherstate.has_key()
    }

    /// Length of a digest of the hash in use.
    pub fn hash_len(&self) -> (n: usize)
        ensures
            n == hash_len_spec(self@.hash),
    {
        self.hasher.hash_len()
    }

    /// Encrypts `plaintext` if there is a key, and folds what goes out into
    /// the running hash. Nothing changes where the cipher refuses.
    pub fn encrypt_and_mix_hash(&mut self, plaintext: &[u8]) -> (out: Result<Vec<u8>, ErrorKind>)
        requires
            old(self).wf(),
        ensures
            final(self).wf(),
            match sym_encrypt_and_hash(old(self)@, plaintext@) {
                Ok((m, c)) => out matches Ok(v) && v@ == c && final(self)@ == m && v@.len() == (
                if old(self)@.cipher.key is Some {
                    plaintext@.len() + TAGLEN
                } else {
                    plaintext@.len() as int
                }) && sym_decrypt_and_hash(old(self)@, c) == Ok::<
                    (SymmetricModel, Seq<u8>),
                    ErrorKind,
                >((m, plaintext@)),
                Err(e) => out == Err::<Vec<u8>, ErrorKind>(e) && final(self)@ == old(self)@,
            },
    {
        let out = if self.cipherstate.has_key() {
            match self.cipherstate.encrypt_ad(self.h.as_slice(), plaintext) {
                Ok(c) => c,
                Err(e) => {
                    return Err(e);
                },
            }
        } else {
            slice_to_vec(plaintext)
        };
        self.mix_hash(out.as_slice());
        Ok(out)
    }

    /// Decrypts `data` if there is a key, and folds `data` into the running
    /// hash. Nothing changes where the cipher refuses or `data` does not
    /// authenticate.
    pub fn decrypt_and_mix_hash(&mut self, data: &[u8]) -> (out: Result<Vec<u8>, ErrorKind>)
        requires
            old(self).wf(),
        ensures
            final(self).wf(),
            match sym_decrypt_and_hash(old(self)@, data@) {
                Ok((m, p)) => out matches Ok(v) && v@ == p && final(self)@ == m && v@.len() == (
                if old(self)@.cipher.key is Some {
                    data@.len() - TAGLEN
                } else {
                    data@.len() as int
                }),
                Err(e) => out == Err::<Vec<u8>, ErrorKind>(e) && final(self)@ == old(self)@,
            },
    {
        let out = if self.cipherstate.has_key() {
            match self.cipherstate.decrypt_ad(self.h.as_slice(), data) {
                Ok(p) => p,
                Err(e) => {
                    return Err(e);
                },
            }
        } else {
            slice_to_vec(data)
        };
        self.mix_hash(data);
        Ok(out)
    }

    /// Keys the two transport cipher states from the chaining key: the
    /// first for the initiator's direction, the second for the responder's.
    pub fn split(&self, child1: &mut CipherState<C>, child2: &mut CipherState<C>)
        requires
            self.wf(),
        ensures
            final(child1).wf(),
            final(child2).wf(),
            final(child1)@ == (CipherModel {
                choice: old(child1)@.choice,
                key: Some(sym_split(self@).0),
                n: 0,
            }),
            final(child2)@ == (CipherModel {
                choice: old(child2)@.choice,
                key: Some(sym_split(self@).1),
                n: 0,
            }),
    {
        let empty: Vec<u8> = Vec::new();
        assert(empty@ =~= Seq::<u8>::empty());
        proof {
            lemma_hash_lengths(self.hasher.choice_spec());
        }
        let out = hkdf(&self.hasher, self.ck.as_slice(), empty.as_slice(), 2);
        child1.set(key_prefix(&out.0));
        child2.set(key_prefix(&out.1));
    }

    /// The running hash.
    pub fn handshake_hash(&self) -> (h: Vec<u8>)
        ensures
            h@ == self@.h,
    {
        slice_to_vec(self.h.as_slice())
    }

    /// A copy of the state, to return to with `restore`.
    pub fn snapshot(&self) -> (saved: SymmetricSnapshot)
        requires
            self.wf(),
        ensures
            saved.wf(self@.hash),
            saved.model(self@.hash, self@.cipher.choice) == self@,
    {
        SymmetricSnapshot {
            cipher: self.cipherstate.snapshot(),
            h: slice_to_vec(self.h.as_slice()),
            ck: slice_to_vec(self.ck.as_slice()),
        }
    }

    /// Returns to a state taken with `snapshot`.
    pub fn restore(&mut self, saved: SymmetricSnapshot)
        requires
            old(self).wf(),
            saved.wf(old(self)@.hash),
        ensures
            final(self).wf(),
            final(self)@ == saved.model(old(self)@.hash, old(self)@.cipher.choice),
            final(self)@.hash == old(self)@.hash,
            final(self)@.cipher.choice == old(self)@.cipher.choice,
    {
        self.cipherstate.restore(saved.cipher);
        self.h = saved.h;
        self.ck = saved.ck;
    }
}

impl SymmetricSnapshot {
    /// The copy fits a state that uses the hash function `hash`.
    pub closed spec fn wf(&self, hash: HashChoice) -> bool {
        &&& self.h@.len() == hash_len_spec(hash)
        &&& self.ck@.len() == hash_len_spec(hash)
        &&& self.cipher.0 matches Some(k) ==> k@.len() == CIPHERKEYLEN
    }

    /// The state that the copy was taken of, given its algorithms.
    pub closed spec fn model(&self, hash: HashChoice, cipher: CipherChoice) -> SymmetricModel {
        SymmetricModel {
            hash,
            cipher: CipherModel {
                choice: cipher,
                key: match self.cipher.0 {
                    Some(k) => Some(k@),
                    None => None,
                },
                n: self.cipher.1,
            },
            h: self.h@,
            ck: self.ck@,
        }
    }
}

} // verus!
