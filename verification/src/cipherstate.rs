//! A cipher with its key and its nonce counter.

use vstd::prelude::*;
use vstd::slice::slice_to_vec;
use crate::constants::{CIPHERKEYLEN, MAXMSGLEN, TAGLEN};
use crate::error::{ErrorKind, InitStage, StateProblem};
use crate::params::CipherChoice;
use crate::types::{open_spec, seal_spec, Cipher};

verus! {

/// What a cipher state is, apart from the instance that computes: the
/// algorithm, the key if one is installed, and the counter.
pub struct CipherModel {
    pub choice: CipherChoice,
    pub key: Option<Seq<u8>>,
    pub n: u64,
}

/// Why a cipher state cannot process a text of `len` bytes under associated
/// data of `ad_len` bytes, if it cannot. `len` counts the tag.
pub open spec fn cipher_refusal(m: CipherModel, ad_len: nat, len: int) -> Option<ErrorKind> {
    if m.key is None {
        Some(ErrorKind::State(StateProblem::MissingKeyMaterial))
    } else if m.n == u64::MAX {
        Some(ErrorKind::State(StateProblem::Exhausted))
    } else if ad_len > MAXMSGLEN || len < TAGLEN || len > MAXMSGLEN {
        Some(ErrorKind::Input)
    } else {
        None
    }
}

/// Encryption in the model: the ciphertext and the state with the counter
/// advanced, or the refusal.
pub open spec fn encrypt_spec(m: CipherModel, authtext: Seq<u8>, plaintext: Seq<u8>) -> Result<
    (CipherModel, Seq<u8>),
    ErrorKind,
> {
    match cipher_refusal(m, authtext.len(), plaintext.len() + TAGLEN) {
        Some(e) => Err(e),
        None => Ok(
            (
                CipherModel { n: (m.n + 1) as u64, ..m },
                seal_spec(m.choice, m.key->0, m.n, authtext, plaintext),
            ),
        ),
    }
}

/// Decryption in the model: the plaintext and the state with the counter
/// advanced, or the refusal. A ciphertext that does not authenticate is
/// refused with `Decrypt`.
pub open spec fn decrypt_spec(m: CipherModel, authtext: Seq<u8>, ciphertext: Seq<u8>) -> Result<
    (CipherModel, Seq<u8>),
    ErrorKind,
> {
    match cipher_refusal(m, authtext.len(), ciphertext.len() as int) {
        Some(e) => Err(e),
        None => match open_spec(m.choice, m.key->0, m.n, authtext, ciphertext) {
            Some(p) => Ok((CipherModel { n: (m.n + 1) as u64, ..m }, p)),
            None => Err(ErrorKind::Decrypt),
        },
    }
}

/// A cipher instance, the key it was given and the number of texts
/// processed under that key.
pub struct CipherState<C: Cipher> {
    cipher: C,
    key: Option<Vec<u8>>,
    n: u64,
}

impl<C: Cipher> View for CipherState<C> {
    type V = CipherModel;

    closed spec fn view(&self) -> CipherModel {
        CipherModel {
            choice: self.cipher.choice_spec(),
            key: match self.key {
                Some(k) => Some(k@),
                None => None,
            },
            n: self.n,
        }
    }
}

impl<C: Cipher> CipherState<C> {
    /// The key recorded here is the one that the instance holds, and has
    /// the cipher's key length.
    pub closed spec fn wf(&self) -> bool {
        match self.key {
            Some(k) => k@.len() == CIPHERKEYLEN && self.cipher.key_spec() == k@,
            None => true,
        }
    }

    /// A state without a key.
    pub fn new(cipher: C) -> (s: Self)
        ensures
            s.wf(),
            s@ == (CipherModel { choice: cipher.choice_spec(), key: None, n: 0 }),
    {
        CipherState { cipher, key: None, n: 0 }
    }

    /// The algorithm.
    pub fn choice(&self) -> (c: CipherChoice)
        ensures
            c == self@.choice,
    {
        self.cipher.choice()
    }

    /// Whether a key is installed.
    pub fn has_key(&self) -> (b: bool)
        ensures
            b == self@.key is Some,
    {
        self.key.is_some()
    }

    /// The counter.
    pub fn nonce(&self) -> (n: u64)
        ensures
            n == self@.n,
    {
        self.n
    }

    /// Installs `key` and starts the counter at zero.
    pub fn set(&mut self, key: &[u8])
        requires
            key@.len() == CIPHERKEYLEN,
        ensures
            final(self).wf(),
            final(self)@ == (CipherModel { choice: old(self)@.choice, key: Some(key@), n: 0 }),
    {
        self.cipher.set(key);
        self.key = Some(slice_to_vec(key));
        self.n = 0;
    }

    /// A copy of the key and the counter, to return to with `restore`.
    pub fn snapshot(&self) -> (saved: (Option<Vec<u8>>, u64))
        requires
            self.wf(),
        ensures
            saved.1 == self@.n,
            match saved.0 {
                Some(k) => self@.key == Some(k@) && k@.len() == CIPHERKEYLEN,
                None => self@.key is None,
            },
    {
        let key = match &self.key {
            Some(k) => Some(slice_to_vec(k.as_slice())),
            None => None,
        };
        (key, self.n)
    }

    /// Returns to a key and counter taken with `snapshot`.
    pub fn restore(&mut self, saved: (Option<Vec<u8>>, u64))
        requires
            saved.0 matches Some(k) ==> k@.len() == CIPHERKEYLEN,
        ensures
            final(self).wf(),
            final(self)@ == (CipherModel {
                choice: old(self)@.choice,
                key: match saved.0 {
                    Some(k) => Some(k@),
                    None => None,
                },
                n: saved.1,
            }),
    {
        match &saved.0 {
            Some(k) => {
                self.cipher.set(k.as_slice());
            },
            None => {},
        }
        self.key = saved.0;
        self.n = saved.1;
    }

    /// Encrypts `plaintext` under the associated data `authtext` and
    /// advances the counter. Nothing changes where the call is refused.
    pub fn encrypt_ad(&mut self, authtext: &[u8], plaintext: &[u8]) -> (out: Result<
        Vec<u8>,
        ErrorKind,
    >)
        requires
            old(self).wf(),
        ensures
            final(self).wf(),
            match encrypt_spec(old(self)@, authtext@, plaintext@) {
                Ok((m, c)) => out matches Ok(v) && v@ == c && final(self)@ == m && v@.len()
                    == plaintext@.len() + TAGLEN && decrypt_spec(old(self)@, authtext@, c) == Ok::<
                    (CipherModel, Seq<u8>),
                    ErrorKind,
                >((m, plaintext@)),
                Err(e) => out == Err::<Vec<u8>, ErrorKind>(e) && final(self)@ == old(self)@,
            },
    {
        if self.key.is_none() {
            return Err(ErrorKind::State(StateProblem::MissingKeyMaterial));
        }
        if self.n == u64::MAX {
            return Err(ErrorKind::State(StateProblem::Exhausted));
        }
        if authtext.len() > MAXMSGLEN || plaintext.len() > MAXMSGLEN - TAGLEN {
            return Err(ErrorKind::Input);
        }
        let out = self.cipher.encrypt(self.n, authtext, plaintext);
        self.n = self.n + 1;
        Ok(out)
    }

    /// Decrypts `ciphertext` under the associated data `authtext` and
    /// advances the counter. Nothing changes where the call is refused or
    /// the ciphertext does not authenticate.
    pub fn decrypt_ad(&mut self, authtext: &[u8], ciphertext: &[u8]) -> (out: Result<
        Vec<u8>,
        ErrorKind,
    >)
        requires
            old(self).wf(),
        ensures
            final(self).wf(),
            match decrypt_spec(old(self)@, authtext@, ciphertext@) {
                Ok((m, p)) => out matches Ok(v) && v@ == p && final(self)@ == m && v@.len()
                    + TAGLEN == ciphertext@.len(),
                Err(e) => out == Err::<Vec<u8>, ErrorKind>(e) && final(self)@ == old(self)@,
            },
    {
        if self.key.is_none() {
            return Err(ErrorKind::State(StateProblem::MissingKeyMaterial));
        }
        if self.n == u64::MAX {
            return Err(ErrorKind::State(StateProblem::Exhausted));
        }
        if authtext.len() > MAXMSGLEN || ciphertext.len() < TAGLEN || ciphertext.len()
            > MAXMSGLEN {
            return Err(ErrorKind::Input);
        }
        match self.cipher.decrypt(self.n, authtext, ciphertext) {
            Ok(p) => {
                self.n = self.n + 1;
                Ok(p)
            },
            Err(_) => Err(ErrorKind::Decrypt),
        }
    }

    /// `encrypt_ad` without associated data.
    pub fn encrypt(&mut self, plaintext: &[u8]) -> (out: Result<Vec<u8>, ErrorKind>)
        requires
            old(self).wf(),
        ensures
            final(self).wf(),
            match encrypt_spec(old(self)@, Seq::<u8>::empty(), plaintext@) {
                Ok((m, c)) => out matches Ok(v) && v@ == c && final(self)@ == m && v@.len()
                    == plaintext@.len() + TAGLEN && decrypt_spec(
                    old(self)@,
                    Seq::<u8>::empty(),
                    c,
                ) == Ok::<(CipherModel, Seq<u8>), ErrorKind>((m, plaintext@)),
                Err(e) => out == Err::<Vec<u8>, ErrorKind>(e) && final(self)@ == old(self)@,
            },
    {
        let empty: Vec<u8> = Vec::new();
        assert(empty@ =~= Seq::<u8>::empty());
        self.encrypt_ad(empty.as_slice(), plaintext)
    }

    /// `decrypt_ad` without associated data.
    pub fn decrypt(&mut self, ciphertext: &[u8]) -> (out: Result<Vec<u8>, ErrorKind>)
        requires
            old(self).wf(),
        ensures
            final(self).wf(),
            match decrypt_spec(old(self)@, Seq::<u8>::empty(), ciphertext@) {
                Ok((m, p)) => out matches Ok(v) && v@ == p && final(self)@ == m && v@.len()
                    + TAGLEN == ciphertext@.len(),
                Err(e) => out == Err::<Vec<u8>, ErrorKind>(e) && final(self)@ == old(self)@,
            },
    {
        let empty: Vec<u8> = Vec::new();
        assert(empty@ =~= Seq::<u8>::empty());
        self.decrypt_ad(empty.as_slice(), ciphertext)
    }
}

/// The two transport cipher states of a finished handshake: first the one
/// for what the initiator sends, then the one for what the responder sends.
pub struct CipherStates<C: Cipher>(pub CipherState<C>, pub CipherState<C>);

impl<C: Cipher> CipherStates<C> {
    /// Pairs two cipher states of one algorithm; two of different
    /// algorithms are refused.
    pub fn new(initiator: CipherState<C>, responder: CipherState<C>) -> (out: Result<
        Self,
        ErrorKind,
    >)
        ensures
            match out {
                Ok(pair) => initiator@.choice == responder@.choice && pair.0 == initiator
                    && pair.1 == responder,
                Err(e) => initiator@.choice != responder@.choice && e == ErrorKind::Init(
                    InitStage::ValidateCipherTypes,
                ),
            },
    {
        if initiator.choice() != responder.choice() {
            return Err(ErrorKind::Init(InitStage::ValidateCipherTypes));
        }
        Ok(CipherStates(initiator, responder))
    }
}

} // verus!
