//! The builder: it takes the key material for a protocol descriptor, checks
//! it against the pattern, obtains the primitives from a resolver and sets
//! up the session.

use vstd::prelude::*;
use crate::cipherstate::{CipherModel, CipherState, CipherStates};
use crate::constants::{MAXDHLEN, MAXPSKS, PSKLEN};
use crate::error::{ErrorKind, InitStage, Prerequisite};
use crate::handshakestate::{psks_view, HandshakeState};
use crate::params::{CipherChoice, DHChoice, HashChoice, NoiseParams, ParamsModel};
use crate::protocol::{handshake_start, HandshakeModel};
use crate::session::{Session, SessionModel};
use crate::types::{dh_len_spec, Cipher, Dh, Random};
use crate::utils::{array32, key_buffer, Toggle};
use crate::wrappers::{CipherImpl, Dh25519, HashImpl, RandomOs};

verus! {

/// A source of primitives. Which choices a resolver can serve is a fixed
/// property of it; every call hands out an instance of its own.
pub trait CryptoResolver {
    type Rng: Random;

    type Dh: Dh;

    type Hash: crate::types::Hash;

    type Cipher: Cipher;

    /// The resolver has a random source.
    spec fn has_rng(&self) -> bool;

    /// The resolver has the key agreement `choice`.
    spec fn has_dh(&self, choice: DHChoice) -> bool;

    /// The resolver has the hash function `choice`.
    spec fn has_hash(&self, choice: HashChoice) -> bool;

    /// The resolver has the cipher `choice`.
    spec fn has_cipher(&self, choice: CipherChoice) -> bool;

    /// A random source, if the resolver has one.
    fn resolve_rng(&self) -> (r: Option<Self::Rng>)
        ensures
            r is Some == self.has_rng(),
    ;

    /// An instance of the key agreement `choice`, with a private key of
    /// the right length in place, if the resolver has it.
    fn resolve_dh(&self, choice: &DHChoice) -> (r: Option<Self::Dh>)
        ensures
            r is Some == self.has_dh(*choice),
            r matches Some(d) ==> d.choice_spec() == *choice && d.privkey_spec().len()
                == dh_len_spec(*choice),
    ;

    /// An instance of the hash function `choice`, if the resolver has it.
    fn resolve_hash(&self, choice: &HashChoice) -> (r: Option<Self::Hash>)
        ensures
            r is Some == self.has_hash(*choice),
            r matches Some(h) ==> <Self::Hash as crate::types::Hash>::choice_spec(&h) == *choice,
    ;

    /// An instance of the cipher `choice`, if the resolver has it.
    fn resolve_cipher(&self, choice: &CipherChoice) -> (r: Option<Self::Cipher>)
        ensures
            r is Some == self.has_cipher(*choice),
            r matches Some(c) ==> c.choice_spec() == *choice,
    ;
}

/// The resolver of the built-in primitives: the operating system's random
/// source, Curve25519, all four hash functions and both ciphers.
pub struct DefaultResolver;

impl CryptoResolver for DefaultResolver {
    type Rng = RandomOs;

    type Dh = Dh25519;

    type Hash = HashImpl;

    type Cipher = CipherImpl;

    open spec fn has_rng(&self) -> bool {
        true
    }

    open spec fn has_dh(&self, choice: DHChoice) -> bool {
        choice == DHChoice::Curve25519
    }

    open spec fn has_hash(&self, choice: HashChoice) -> bool {
        true
    }

    open spec fn has_cipher(&self, choice: CipherChoice) -> bool {
        true
    }

    fn resolve_rng(&self) -> (r: Option<RandomOs>) {
        Some(RandomOs::new())
    }

    fn resolve_dh(&self, choice: &DHChoice) -> (r: Option<Dh25519>) {
        match *choice {
            DHChoice::Curve25519 => Some(Dh25519::new()),
            _ => None,
        }
    }

    fn resolve_hash(&self, choice: &HashChoice) -> (r: Option<HashImpl>) {
        Some(HashImpl::new(*choice))
    }

    fn resolve_cipher(&self, choice: &CipherChoice) -> (r: Option<CipherImpl>) {
        Some(CipherImpl::new(*choice))
    }
}

/// What a builder has been given.
pub struct BuilderModel {
    pub params: ParamsModel,
    /// The protocol name as the descriptor holds it.
    pub name: Seq<char>,
    /// The party's static private key.
    pub s: Option<Seq<u8>>,
    /// An ephemeral private key to use in place of a fresh one.
    pub e_fixed: Option<Seq<u8>>,
    /// The other party's static public key.
    pub rs: Option<Seq<u8>>,
    /// The pre-shared keys, by slot.
    pub psks: Seq<Option<Seq<u8>>>,
    /// The prologue.
    pub plog: Option<Seq<u8>>,
}

/// A pre-shared key was given that does not have the fixed length.
pub open spec fn bad_psk(psks: Seq<Option<Seq<u8>>>) -> bool {
    exists|i: int| 0 <= i < psks.len() && (#[trigger] psks[i]) is Some && psks[i]->0.len() != PSKLEN
}

/// A key was given that does not have the length of the key agreement.
pub open spec fn bad_key(b: BuilderModel) -> bool {
    let len = dh_len_spec(b.params.dh);
    ||| b.s is Some && b.s->0.len() != len
    ||| b.e_fixed is Some && b.e_fixed->0.len() != len
    ||| b.rs is Some && b.rs->0.len() != len
}

/// A transport cipher state before the handshake is finished.
pub open spec fn unkeyed(choice: CipherChoice) -> CipherModel {
    CipherModel { choice, key: None, n: 0 }
}

/// What building a session gives: the first of these refusals that
/// applies, in this order, or else the state before the first message.
///  - a pre-shared key of the wrong length;
///  - no static key although the pattern needs one for this role;
///  - no static key of the other party although the pattern needs it
///    known beforehand;
///  - a primitive that the resolver lacks: random source, cipher, hash
///    function, key agreement;
///  - a key of the wrong length.
pub open spec fn build_outcome<R: CryptoResolver>(b: BuilderModel, resolver: R, initiator: bool)
    -> Result<HandshakeModel, ErrorKind> {
    if bad_psk(b.psks) {
        Err(ErrorKind::Init(InitStage::ValidatePskLengths))
    } else if b.s is None && b.params.pattern.needs_local_static_key_spec(initiator) {
        Err(ErrorKind::Prereq(Prerequisite::LocalPrivateKey))
    } else if b.rs is None && b.params.pattern.need_known_remote_pubkey_spec(initiator) {
        Err(ErrorKind::Prereq(Prerequisite::RemotePublicKey))
    } else if !resolver.has_rng() {
        Err(ErrorKind::Init(InitStage::GetRngImpl))
    } else if !resolver.has_cipher(b.params.cipher) {
        Err(ErrorKind::Init(InitStage::GetCipherImpl))
    } else if !resolver.has_hash(b.params.hash) {
        Err(ErrorKind::Init(InitStage::GetHashImpl))
    } else if !resolver.has_dh(b.params.dh) {
        Err(ErrorKind::Init(InitStage::GetDhImpl))
    } else if bad_key(b) {
        Err(ErrorKind::Init(InitStage::ValidateKeyLengths))
    } else {
        handshake_start::<R::Dh>(
            b.params,
            vstd::utf8::encode_utf8(b.name),
            initiator,
            match b.plog {
                Some(p) => p,
                None => Seq::<u8>::empty(),
            },
            b.s,
            None,
            b.rs,
            None,
            b.psks,
            (unkeyed(b.params.cipher), unkeyed(b.params.cipher)),
        )
    }
}

/// Collects the key material for a session and builds it.
pub struct NoiseBuilder<'builder, R: CryptoResolver> {
    params: NoiseParams,
    resolver: R,
    s: Option<&'builder [u8]>,
    e_fixed: Option<&'builder [u8]>,
    rs: Option<&'builder [u8]>,
    psks: [Option<&'builder [u8]>; MAXPSKS],
    plog: Option<&'builder [u8]>,
}

/// The bytes behind an optional slice.
pub open spec fn bytes_view(key: Option<&[u8]>) -> Option<Seq<u8>> {
    match key {
        Some(k) => Some(k@),
        None => None,
    }
}

impl<'builder, R: CryptoResolver> View for NoiseBuilder<'builder, R> {
    type V = BuilderModel;

    closed spec fn view(&self) -> BuilderModel {
        BuilderModel {
            params: self.params@,
            name: self.params.name@,
            s: bytes_view(self.s),
            e_fixed: bytes_view(self.e_fixed),
            rs: bytes_view(self.rs),
            psks: Seq::new(MAXPSKS as nat, |i: int| bytes_view(self.psks@[i])),
            plog: bytes_view(self.plog),
        }
    }
}

impl<'builder> NoiseBuilder<'builder, DefaultResolver> {
    /// A builder with the resolver of the built-in primitives.
    pub fn new(params: NoiseParams) -> (b: Self)
        ensures
            b@ == (BuilderModel {
                params: params@,
                name: params.name@,
                s: None,
                e_fixed: None,
                rs: None,
                psks: Seq::new(MAXPSKS as nat, |i: int| None),
                plog: None,
            }),
    {
        Self::with_resolver(params, DefaultResolver)
    }
}

impl<'builder, R: CryptoResolver> NoiseBuilder<'builder, R> {
    /// The resolver that the builder asks for primitives.
    pub closed spec fn resolver_spec(&self) -> R {
        self.resolver
    }

    /// A builder with a resolver of the caller's choice.
    pub fn with_resolver(params: NoiseParams, resolver: R) -> (b: Self)
        ensures
            b.resolver_spec() == resolver,
            b@ == (BuilderModel {
                params: params@,
                name: params.name@,
                s: None,
                e_fixed: None,
                rs: None,
                psks: Seq::new(MAXPSKS as nat, |i: int| None),
                plog: None,
            }),
    {
        let b = NoiseBuilder {
            params,
            resolver,
            s: None,
            e_fixed: None,
            rs: None,
            plog: None,
            psks: [None; MAXPSKS],
        };
        assert(b@.psks =~= Seq::new(MAXPSKS as nat, |i: int| None));
        b
    }

    /// Puts a pre-shared key into the slot `location`.
    pub fn psk(self, location: u8, key: &'builder [u8]) -> (b: Self)
        requires
            location < MAXPSKS,
        ensures
            b.resolver_spec() == self.resolver_spec(),
            b@ == (BuilderModel { psks: self@.psks.update(location as int, Some(key@)), ..self@ }),
    {
        let mut b = self;
        b.psks[location as usize] = Some(key);
        assert(b@.psks =~= self@.psks.update(location as int, Some(key@)));
        b
    }

    /// The party's static private key.
    pub fn local_private_key(self, key: &'builder [u8]) -> (b: Self)
        ensures
            b.resolver_spec() == self.resolver_spec(),
            b@ == (BuilderModel { s: Some(key@), ..self@ }),
    {
        let mut b = self;
        b.s = Some(key);
        b
    }

    /// An ephemeral private key to use in place of a fresh one, so that a
    /// handshake can be reproduced in a test.
    pub fn fixed_ephemeral_key_for_testing_only(self, key: &'builder [u8]) -> (b: Self)
        ensures
            b.resolver_spec() == self.resolver_spec(),
            b@ == (BuilderModel { e_fixed: Some(key@), ..self@ }),
    {
        let mut b = self;
        b.e_fixed = Some(key);
        b
    }

    /// Bytes that both parties fold into the running hash before the
    /// first message.
    pub fn prologue(self, key: &'builder [u8]) -> (b: Self)
        ensures
            b.resolver_spec() == self.resolver_spec(),
            b@ == (BuilderModel { plog: Some(key@), ..self@ }),
    {
        let mut b = self;
        b.plog = Some(key);
        b
    }

    /// The other party's static public key.
    pub fn remote_public_key(self, pub_key: &'builder [u8]) -> (b: Self)
        ensures
            b.resolver_spec() == self.resolver_spec(),
            b@ == (BuilderModel { rs: Some(pub_key@), ..self@ }),
    {
        let mut b = self;
        b.rs = Some(pub_key);
        b
    }

    /// A fresh private key for the key agreement of the descriptor. The
    /// call fails where the resolver lacks the random source or the key
    /// agreement, and where the random source does not deliver.
    pub fn generate_private_key(&self) -> (r: Result<Vec<u8>, ErrorKind>)
        ensures
            match r {
                Ok(key) => self.resolver_spec().has_rng() && self.resolver_spec().has_dh(
                    self@.params.dh,
                ) && key@.len() == dh_len_spec(self@.params.dh),
                Err(e) => if !self.resolver_spec().has_rng() {
                    e == ErrorKind::Init(InitStage::GetRngImpl)
                } else if !self.resolver_spec().has_dh(self@.params.dh) {
                    e == ErrorKind::Init(InitStage::GetDhImpl)
                } else {
                    e == ErrorKind::Init(InitStage::GetRngImpl)
                },
            },
    {
        let mut rng = match self.resolver.resolve_rng() {
            Some(rng) => rng,
            None => {
                return Err(ErrorKind::Init(InitStage::GetRngImpl));
            },
        };
        let mut dh = match self.resolver.resolve_dh(&self.params.dh) {
            Some(dh) => dh,
            None => {
                return Err(ErrorKind::Init(InitStage::GetDhImpl));
            },
        };
        if !dh.generate(&mut rng) {
            return Err(ErrorKind::Init(InitStage::GetRngImpl));
        }
        Ok(dh.privkey())
    }

    /// Builds the session of the party that sends the first message.
    pub fn build_initiator(self) -> (r: Result<Session<R::Rng, R::Dh, R::Hash, R::Cipher>, ErrorKind>)
        ensures
            built::<R>(self@, self.resolver_spec(), true, r),
            bad_psk(self@.psks) ==> (r matches Err(e) && e == ErrorKind::Init(
                InitStage::ValidatePskLengths,
            )),
    {
        self.build(true)
    }

    /// Builds the session of the party that receives the first message.
    pub fn build_responder(self) -> (r: Result<Session<R::Rng, R::Dh, R::Hash, R::Cipher>, ErrorKind>)
        ensures
            built::<R>(self@, self.resolver_spec(), false, r),
            bad_psk(self@.psks) ==> (r matches Err(e) && e == ErrorKind::Init(
                InitStage::ValidatePskLengths,
            )),
    {
        self.build(false)
    }

    fn checked_psks(&self) -> (r: Option<[Option<[u8; PSKLEN]>; MAXPSKS]>)
        ensures
            match r {
                Some(psks) => !bad_psk(self@.psks) && psks_view(psks) == self@.psks,
                None => bad_psk(self@.psks),
            },
    {
        let mut psks: [Option<[u8; PSKLEN]>; MAXPSKS] = [None; MAXPSKS];
        let mut i: usize = 0;
        while i < MAXPSKS
            invariant
                i <= MAXPSKS,
                forall|j: int| 0 <= j < i ==> psks_view(psks)[j] == self@.psks[j],
                forall|j: int|
                    0 <= j < i ==> ((#[trigger] self@.psks[j]) is Some ==> self@.psks[j]->0.len()
                        == PSKLEN),
                forall|j: int| i <= j < MAXPSKS ==> psks@[j] is None,
            decreases MAXPSKS - i,
        {
            let ghost before = psks;
            match self.psks[i] {
                Some(key) => {
                    if key.len() != PSKLEN {
                        assert(self@.psks[i as int] is Some);
                        return None;
                    }
                    let copy = array32(key);
                    psks[i] = Some(copy);
                    assert(psks@[i as int] == Some(copy));
                },
                None => {},
            }
            assert(self@.psks[i as int] == bytes_view(self.psks@[i as int]));
            assert(psks_view(psks)[i as int] == self@.psks[i as int]);
            assert forall|j: int| 0 <= j < i implies psks_view(psks)[j] == self@.psks[j] by {
                assert(psks@[j] == before@[j]);
                assert(psks_view(before)[j] == self@.psks[j]);
            }
            i += 1;
        }
        assert(psks_view(psks) =~= self@.psks);
        Some(psks)
    }

    fn build(self, initiator: bool) -> (r: Result<Session<R::Rng, R::Dh, R::Hash, R::Cipher>, ErrorKind>)
        ensures
            built::<R>(self@, self.resolver_spec(), initiator, r),
            bad_psk(self@.psks) ==> (r matches Err(e) && e == ErrorKind::Init(
                InitStage::ValidatePskLengths,
            )),
    {
        let psks = match self.checked_psks() {
            Some(psks) => psks,
            None => {
                return Err(ErrorKind::Init(InitStage::ValidatePskLengths));
            },
        };
        if !self.s.is_some() && self.params.handshake.pattern.needs_local_static_key(initiator) {
            return Err(ErrorKind::Prereq(Prerequisite::LocalPrivateKey));
        }
        if !self.rs.is_some() && self.params.handshake.pattern.need_known_remote_pubkey(
            initiator,
        ) {
            return Err(ErrorKind::Prereq(Prerequisite::RemotePublicKey));
        }
        let rng = match self.resolver.resolve_rng() {
            Some(x) => x,
            None => {
                return Err(ErrorKind::Init(InitStage::GetRngImpl));
            },
        };
        let cipher = match self.resolver.resolve_cipher(&self.params.cipher) {
            Some(x) => x,
            None => {
                return Err(ErrorKind::Init(InitStage::GetCipherImpl));
            },
        };
        let hash = match self.resolver.resolve_hash(&self.params.hash) {
            Some(x) => x,
            None => {
                return Err(ErrorKind::Init(InitStage::GetHashImpl));
            },
        };
        let mut s_dh = match self.resolver.resolve_dh(&self.params.dh) {
            Some(x) => x,
            None => {
                return Err(ErrorKind::Init(InitStage::GetDhImpl));
            },
        };
        let mut e_dh = match self.resolver.resolve_dh(&self.params.dh) {
            Some(x) => x,
            None => {
                return Err(ErrorKind::Init(InitStage::GetDhImpl));
            },
        };
        let cipher1 = match self.resolver.resolve_cipher(&self.params.cipher) {
            Some(x) => x,
            None => {
                return Err(ErrorKind::Init(InitStage::GetCipherImpl));
            },
        };
        let cipher2 = match self.resolver.resolve_cipher(&self.params.cipher) {
            Some(x) => x,
            None => {
                return Err(ErrorKind::Init(InitStage::GetCipherImpl));
            },
        };
        let handshake_cipherstate = CipherState::new(cipher);
        let cipherstates = match CipherStates::new(
            CipherState::new(cipher1),
            CipherState::new(cipher2),
        ) {
            Ok(pair) => pair,
            Err(e) => {
                return Err(e);
            },
        };
        let dh_len = s_dh.pub_len();
        let bad_s = match self.s {
            Some(k) => k.len() != dh_len,
            None => false,
        };
        let bad_e = match self.e_fixed {
            Some(k) => k.len() != dh_len,
            None => false,
        };
        let bad_rs = match self.rs {
            Some(k) => k.len() != dh_len,
            None => false,
        };
        if bad_s || bad_e || bad_rs {
            return Err(ErrorKind::Init(InitStage::ValidateKeyLengths));
        }
        let s = match self.s {
            Some(k) => {
                s_dh.set(k);
                Toggle::on(s_dh)
            },
            None => Toggle::off(s_dh),
        };
        match self.e_fixed {
            Some(k) => {
                e_dh.set(k);
            },
            None => {},
        }
        let e = Toggle::off(e_dh);
        let rs = match self.rs {
            Some(k) => Toggle::on(key_buffer(k)),
            None => Toggle::off([0u8; MAXDHLEN]),
        };
        let re = Toggle::off([0u8; MAXDHLEN]);
        let empty: Vec<u8> = Vec::new();
        assert(empty@ =~= Seq::<u8>::empty());
        let prologue: &[u8] = match self.plog {
            Some(p) => p,
            None => empty.as_slice(),
        };
        let fixed = self.e_fixed.is_some();
        match HandshakeState::new(
            rng,
            handshake_cipherstate,
            hash,
            s,
            e,
            fixed,
            rs,
            re,
            initiator,
            self.params,
            psks,
            prologue,
            cipherstates,
        ) {
            Ok(state) => Ok(Session::Handshake(state)),
            Err(e) => Err(e),
        }
    }
}

/// What `build` returns: the refusal that `build_outcome` names, or a
/// session at the start of the handshake that `build_outcome` describes. A
/// fixed ephemeral key is in place where one was given.
pub open spec fn built<R: CryptoResolver>(
    b: BuilderModel,
    resolver: R,
    initiator: bool,
    r: Result<Session<R::Rng, R::Dh, R::Hash, R::Cipher>, ErrorKind>,
) -> bool {
    match build_outcome::<R>(b, resolver, initiator) {
        Ok(m) => r matches Ok(session) && session.wf() && session@ == SessionModel::Handshake(m)
            && (session matches Session::Handshake(state) && state.is_fixed() == b.e_fixed is Some
            && (b.e_fixed is Some ==> state.e_key() == b.e_fixed->0)),
        Err(e) => r matches Err(x) && x == e,
    }
}

/// Building is refused for the reasons that `build_outcome` lists and for
/// no other: where none of them applies, the session is built.
pub proof fn law_build_succeeds<R: CryptoResolver>(b: BuilderModel, resolver: R, initiator: bool)
    requires
        !bad_psk(b.psks),
        b.params.pattern.needs_local_static_key_spec(initiator) ==> b.s is Some,
        b.params.pattern.need_known_remote_pubkey_spec(initiator) ==> b.rs is Some,
        resolver.has_rng(),
        resolver.has_cipher(b.params.cipher),
        resolver.has_hash(b.params.hash),
        resolver.has_dh(b.params.dh),
        !bad_key(b),
    ensures
        build_outcome::<R>(b, resolver, initiator) is Ok,
{
}

} // verus!
