//! The handshake state machine: the keys of a party, the symmetric state,
//! and the position in the message sequence.

use vstd::prelude::*;
use vstd::slice::slice_subrange;
use vstd::string::StringSliceAdditionalSpecFns;
use crate::cipherstate::{CipherState, CipherStates};
use crate::constants::{MAXDHLEN, MAXMSGLEN, MAXPSKS, PSKLEN, TAGLEN};
use crate::error::{ErrorKind, InitStage, Prerequisite, StateProblem};
use crate::params::NoiseParams;
use crate::patterns::{
    copy_tokens, has_token, message_patterns, resolve_handshake_pattern, tokens_view, Token,
};
use crate::protocol::{
    absorb_ephemeral, advance, finished, handshake_start, mix_token, my_turn, patterns, read_from,
    read_outcome, read_token, token_len, wants_fresh, write_from, write_outcome, write_token,
    HandshakeModel,
};
use crate::symmetricstate::{
    sym_decrypt_and_hash, sym_encrypt_and_hash, SymmetricSnapshot, SymmetricState,
};
use crate::types::{dh_len_spec, Cipher, Dh, Random};
use crate::utils::{copy_into, key_buffer, Toggle};

verus! {

/// One party of a handshake in progress.
pub struct HandshakeState<G: Random, D: Dh, H: crate::types::Hash, C: Cipher> {
    rng: G,
    symmetricstate: SymmetricState<H, C>,
    cipherstates: CipherStates<C>,
    s: Toggle<D>,
    e: Toggle<D>,
    fixed_ephemeral: bool,
    rs: Toggle<[u8; MAXDHLEN]>,
    re: Toggle<[u8; MAXDHLEN]>,
    initiator: bool,
    params: NoiseParams,
    psks: [Option<[u8; PSKLEN]>; MAXPSKS],
    message_patterns: Vec<Vec<Token>>,
    pattern_position: usize,
}

/// The pre-shared keys as the model holds them.
pub open spec fn psks_view(psks: [Option<[u8; PSKLEN]>; MAXPSKS]) -> Seq<Option<Seq<u8>>> {
    Seq::new(
        MAXPSKS as nat,
        |i: int|
            match psks@[i] {
                Some(k) => Some(k@),
                None => None,
            },
    )
}

/// What a key slot holds: the first `len` bytes of the buffer if the slot
/// is on.
pub open spec fn slot_view(slot: Toggle<[u8; MAXDHLEN]>, len: nat) -> Option<Seq<u8>> {
    if slot.on {
        Some(slot.inner@.take(len as int))
    } else {
        None
    }
}

/// The private key of a key agreement instance, if its slot is on.
pub open spec fn dh_view<D: Dh>(slot: Toggle<D>) -> Option<Seq<u8>> {
    if slot.on {
        Some(slot.inner.privkey_spec())
    } else {
        None
    }
}

impl<G: Random, D: Dh, H: crate::types::Hash, C: Cipher> View for HandshakeState<G, D, H, C> {
    type V = HandshakeModel;

    closed spec fn view(&self) -> HandshakeModel {
        HandshakeModel {
            params: self.params@,
            initiator: self.initiator,
            sym: self.symmetricstate@,
            s: dh_view(self.s),
            e: dh_view(self.e),
            rs: slot_view(self.rs, dh_len_spec(self.params.dh)),
            re: slot_view(self.re, dh_len_spec(self.params.dh)),
            psks: psks_view(self.psks),
            position: self.pattern_position as nat,
            transport: (self.cipherstates.0@, self.cipherstates.1@),
        }
    }
}

impl<G: Random, D: Dh, H: crate::types::Hash, C: Cipher> HandshakeState<G, D, H, C> {
    /// The parts are well formed, both key agreement instances compute the
    /// function that the descriptor names, the messages are those of the
    /// descriptor, and the position lies within them.
    pub closed spec fn wf(&self) -> bool {
        &&& self.symmetricstate.wf()
        &&& self.cipherstates.0.wf()
        &&& self.cipherstates.1.wf()
        &&& self.s.inner.choice_spec() == self.params.dh
        &&& self.e.inner.choice_spec() == self.params.dh
        &&& self.s.inner.privkey_spec().len() == dh_len_spec(self.params.dh)
        &&& self.e.inner.privkey_spec().len() == dh_len_spec(self.params.dh)
        &&& tokens_view(self.message_patterns) == patterns(self@)
        &&& self.pattern_position <= self.message_patterns@.len()
    }

    /// The private key that the ephemeral instance holds, in use or not.
    pub closed spec fn e_key(&self) -> Seq<u8> {
        self.e.inner.privkey_spec()
    }

    /// The ephemeral key was supplied and is never replaced.
    pub closed spec fn is_fixed(&self) -> bool {
        self.fixed_ephemeral
    }

    /// What no step of a message changes.
    spec fn same_frame(&self, before: &Self) -> bool {
        &&& self.params == before.params
        &&& self.initiator == before.initiator
        &&& self.s == before.s
        &&& self.e.inner == before.e.inner
        &&& self.fixed_ephemeral == before.fixed_ephemeral
        &&& self.psks == before.psks
        &&& self.message_patterns == before.message_patterns
        &&& self.pattern_position == before.pattern_position
        &&& self.cipherstates == before.cipherstates
        &&& self@.sym.hash == before@.sym.hash
        &&& self@.sym.cipher.choice == before@.sym.cipher.choice
    }

    /// Sets up a party. The running hash takes in the protocol name, the
    /// prologue and the static keys known beforehand; a key that the
    /// pattern lists before the first message and that is off is a missing
    /// prerequisite.
    pub fn new(
        rng: G,
        cipherstate: CipherState<C>,
        hasher: H,
        s: Toggle<D>,
        e: Toggle<D>,
        fixed_ephemeral: bool,
        rs: Toggle<[u8; MAXDHLEN]>,
        re: Toggle<[u8; MAXDHLEN]>,
        initiator: bool,
        params: NoiseParams,
        psks: [Option<[u8; PSKLEN]>; MAXPSKS],
        prologue: &[u8],
        cipherstates: CipherStates<C>,
    ) -> (r: Result<Self, ErrorKind>)
        requires
            cipherstate.wf(),
            cipherstate@.key is None,
            cipherstate@.n == 0,
            cipherstate@.choice == params.cipher,
            hasher.choice_spec() == params.hash,
            cipherstates.0.wf(),
            cipherstates.1.wf(),
            s.inner.choice_spec() == params.dh,
            e.inner.choice_spec() == params.dh,
            s.inner.privkey_spec().len() == dh_len_spec(params.dh),
            e.inner.privkey_spec().len() == dh_len_spec(params.dh),
        ensures
            match handshake_start::<D>(
                params@,
                vstd::utf8::encode_utf8(params.name@),
                initiator,
                prologue@,
                dh_view(s),
                dh_view(e),
                slot_view(rs, dh_len_spec(params.dh)),
                slot_view(re, dh_len_spec(params.dh)),
                psks_view(psks),
                (cipherstates.0@, cipherstates.1@),
            ) {
                Ok(m) => r matches Ok(state) && state.wf() && state@ == m && state.is_fixed()
                    == fixed_ephemeral && state.e_key() == e.inner.privkey_spec(),
                Err(e) => r matches Err(x) && x == e,
            },
    {
        let tokens = resolve_handshake_pattern(&params.handshake);
        let mut symmetricstate = SymmetricState::new(cipherstate, hasher, params.name.as_str());
        symmetricstate.mix_hash(prologue);
        let dh_len = s.inner.pub_len();
        let known_i = has_token(&tokens.premsg_pattern_i, Token::S);
        let known_r = has_token(&tokens.premsg_pattern_r, Token::S);
        if initiator {
            if known_i && !s.on {
                return Err(ErrorKind::Prereq(Prerequisite::LocalPrivateKey));
            }
            if known_r && !rs.on {
                return Err(ErrorKind::Prereq(Prerequisite::RemotePublicKey));
            }
            if known_i {
                let own = s.inner.pubkey();
                symmetricstate.mix_hash(own.as_slice());
            }
            if known_r {
                symmetricstate.mix_hash(slice_subrange(rs.inner.as_slice(), 0, dh_len));
            }
        } else {
            if known_i && !rs.on {
                return Err(ErrorKind::Prereq(Prerequisite::RemotePublicKey));
            }
            if known_r && !s.on {
                return Err(ErrorKind::Prereq(Prerequisite::LocalPrivateKey));
            }
            if known_i {
                symmetricstate.mix_hash(slice_subrange(rs.inner.as_slice(), 0, dh_len));
            }
            if known_r {
                let own = s.inner.pubkey();
                symmetricstate.mix_hash(own.as_slice());
            }
        }
        Ok(
            HandshakeState {
                rng,
                symmetricstate,
                cipherstates,
                s,
                e,
                fixed_ephemeral,
                rs,
                re,
                initiator,
                params,
                psks,
                message_patterns: tokens.msg_patterns,
                pattern_position: 0,
            },
        )
    }

    /// Whether this party sent or will send the first message.
    pub fn is_initiator(&self) -> (b: bool)
        ensures
            b == self@.initiator,
    {
        self.initiator
    }

    /// Whether every message has been written or read.
    pub fn is_finished(&self) -> (b: bool)
        requires
            self.wf(),
        ensures
            b == finished(self@),
    {
        proof {
            assert(tokens_view(self.message_patterns).len() == self.message_patterns@.len());
        }
        self.pattern_position >= self.message_patterns.len()
    }

    /// Whether the next message is this party's to write.
    pub fn is_write_turn(&self) -> (b: bool)
        ensures
            b == my_turn(self@),
    {
        (self.pattern_position % 2 == 0) == self.initiator
    }

    /// The descriptor of the handshake.
    pub fn params(&self) -> (p: &NoiseParams)
        ensures
            p@ == self@.params,
    {
        &self.params
    }

    /// The running hash.
    pub fn handshake_hash(&self) -> (h: Vec<u8>)
        ensures
            h@ == self@.sym.h,
    {
        self.symmetricstate.handshake_hash()
    }

    fn mix_psk(&mut self, n: u8) -> (r: Result<(), ErrorKind>)
        requires
            old(self).wf(),
        ensures
            final(self).wf(),
            final(self).same_frame(old(self)),
            match mix_token::<D>(old(self)@, Token::Psk(n)) {
                Ok(m) => r is Ok && final(self)@ == m,
                Err(e) => r == Err::<(), ErrorKind>(e) && final(self)@ == old(self)@,
            },
    {
        if n as usize >= MAXPSKS {
            return Err(ErrorKind::State(StateProblem::MissingPsk));
        }
        match self.psks[n as usize] {
            Some(key) => {
                self.symmetricstate.mix_key_and_hash(key.as_slice());
                Ok(())
            },
            None => Err(ErrorKind::State(StateProblem::MissingPsk)),
        }
    }

    fn mix_dh(&mut self, t: Token) -> (r: Result<(), ErrorKind>)
        requires
            old(self).wf(),
            t is Dhee || t is Dhes || t is Dhse || t is Dhss,
        ensures
            final(self).wf(),
            final(self).same_frame(old(self)),
            match mix_token::<D>(old(self)@, t) {
                Ok(m) => r is Ok && final(self)@ == m,
                Err(e) => r == Err::<(), ErrorKind>(e) && final(self)@ == old(self)@,
            },
    {
        let local_static = match t {
            Token::Dhee => false,
            Token::Dhes => !self.initiator,
            Token::Dhse => self.initiator,
            _ => true,
        };
        let remote_static = match t {
            Token::Dhee => false,
            Token::Dhes => self.initiator,
            Token::Dhse => !self.initiator,
            _ => true,
        };
        let local_on = if local_static {
            self.s.on
        } else {
            self.e.on
        };
        let remote_on = if remote_static {
            self.rs.on
        } else {
            self.re.on
        };
        if !local_on || !remote_on {
            return Err(ErrorKind::State(StateProblem::MissingKeyMaterial));
        }
        let dh_len = self.s.inner.pub_len();
        let remote = if remote_static {
            slice_subrange(self.rs.inner.as_slice(), 0, dh_len)
        } else {
            slice_subrange(self.re.inner.as_slice(), 0, dh_len)
        };
        let shared = if local_static {
            self.s.inner.dh(remote)
        } else {
            self.e.inner.dh(remote)
        };
        self.symmetricstate.mix_key(shared.as_slice());
        Ok(())
    }

    fn absorb(&mut self, pubkey: &[u8])
        requires
            old(self).wf(),
        ensures
            final(self).wf(),
            final(self).same_frame(old(self)),
            final(self).e.on == old(self).e.on,
            final(self).rs == old(self).rs,
            final(self).re == old(self).re,
            final(self)@ == absorb_ephemeral(old(self)@, pubkey@),
    {
        self.symmetricstate.mix_hash(pubkey);
        if self.params.handshake.is_psk() {
            self.symmetricstate.mix_key(pubkey);
        }
    }

    fn write_token(&mut self, t: Token, message: &mut Vec<u8>) -> (r: Result<(), ErrorKind>)
        requires
            old(self).wf(),
        ensures
            final(self).wf(),
            final(self).same_frame(old(self)),
            match write_token::<D>(old(self)@, t, old(self).e_key()) {
                Ok((m, out)) => r is Ok && final(self)@ == m && final(message)@ == old(message)@
                    + out,
                Err(e) => r == Err::<(), ErrorKind>(e) && final(self)@ == old(self)@,
            },
    {
        match t {
            Token::E => {
                let pubkey = self.e.inner.pubkey();
                self.e.on = true;
                self.absorb(pubkey.as_slice());
                message.extend_from_slice(pubkey.as_slice());
                Ok(())
            },
            Token::S => {
                if !self.s.on {
                    return Err(ErrorKind::State(StateProblem::MissingKeyMaterial));
                }
                let pubkey = self.s.inner.pubkey();
                match self.symmetricstate.encrypt_and_mix_hash(pubkey.as_slice()) {
                    Ok(out) => {
                        message.extend_from_slice(out.as_slice());
                        Ok(())
                    },
                    Err(e) => Err(e),
                }
            },
            Token::Psk(n) => {
                assert(message@ + Seq::<u8>::empty() =~= message@);
                self.mix_psk(n)
            },
            _ => {
                assert(message@ + Seq::<u8>::empty() =~= message@);
                self.mix_dh(t)
            },
        }
    }

    fn token_len(&self, t: Token) -> (n: usize)
        requires
            self.wf(),
        ensures
            n == token_len(self@, t),
    {
        let dh_len = self.s.inner.pub_len();
        match t {
            Token::E => dh_len,
            Token::S => if self.symmetricstate.has_key() {
                dh_len + TAGLEN
            } else {
                dh_len
            },
            _ => 0,
        }
    }

    fn read_token(&mut self, t: Token, bytes: &[u8]) -> (r: Result<(), ErrorKind>)
        requires
            old(self).wf(),
            bytes@.len() == token_len(old(self)@, t),
        ensures
            final(self).wf(),
            final(self).same_frame(old(self)),
            final(self).e.on == old(self).e.on,
            match read_token::<D>(old(self)@, t, bytes@) {
                Ok(m) => r is Ok && final(self)@ == m,
                Err(e) => r == Err::<(), ErrorKind>(e) && final(self)@ == old(self)@,
            },
    {
        match t {
            Token::E => {
                self.re.inner = key_buffer(bytes);
                self.re.on = true;
                self.absorb(bytes);
                Ok(())
            },
            Token::S => {
                match self.symmetricstate.decrypt_and_mix_hash(bytes) {
                    Ok(out) => {
                        self.rs.inner = key_buffer(out.as_slice());
                        self.rs.on = true;
                        Ok(())
                    },
                    Err(e) => Err(e),
                }
            },
            Token::Psk(n) => self.mix_psk(n),
            _ => self.mix_dh(t),
        }
    }

    /// Writes the tokens of a message and then the payload. Where this is
    /// refused, the state is as some prefix of the tokens left it.
    fn write_parts(&mut self, tokens: &Vec<Token>, payload: &[u8]) -> (r: Result<
        Vec<u8>,
        ErrorKind,
    >)
        requires
            old(self).wf(),
        ensures
            final(self).wf(),
            final(self).same_frame(old(self)),
            match write_from::<D>(
                old(self)@,
                tokens@,
                0,
                old(self).e_key(),
                Seq::<u8>::empty(),
            ) {
                Err(e) => r == Err::<Vec<u8>, ErrorKind>(e),
                Ok((after, head)) => match sym_encrypt_and_hash(after.sym, payload@) {
                    Err(e) => r == Err::<Vec<u8>, ErrorKind>(e),
                    Ok((sym, tail)) => r matches Ok(v) && v@ == head + tail && final(self)@ == (
                    HandshakeModel { sym, ..after }),
                },
            },
    {
        let mut message: Vec<u8> = Vec::new();
        let ghost start = self@;
        let ghost fresh = self.e_key();
        let mut i: usize = 0;
        while i < tokens.len()
            invariant
                i <= tokens@.len(),
                self.wf(),
                self.same_frame(old(self)),
                fresh == old(self).e_key(),
                start == old(self)@,
                write_from::<D>(start, tokens@, 0, fresh, Seq::<u8>::empty()) == write_from::<D>(
                    self@,
                    tokens@,
                    i as nat,
                    fresh,
                    message@,
                ),
            decreases tokens@.len() - i,
        {
            match self.write_token(tokens[i], &mut message) {
                Ok(()) => {},
                Err(e) => {
                    return Err(e);
                },
            }
            i += 1;
        }
        match self.symmetricstate.encrypt_and_mix_hash(payload) {
            Ok(tail) => {
                message.extend_from_slice(tail.as_slice());
                Ok(message)
            },
            Err(e) => Err(e),
        }
    }

    /// Reads the tokens of a message and then the payload. Where this is
    /// refused, the state is as some prefix of the tokens left it.
    fn read_parts(&mut self, tokens: &Vec<Token>, message: &[u8]) -> (r: Result<
        Vec<u8>,
        ErrorKind,
    >)
        requires
            old(self).wf(),
            message@.len() <= MAXMSGLEN,
        ensures
            final(self).wf(),
            final(self).same_frame(old(self)),
            final(self).e.on == old(self).e.on,
            match read_from::<D>(old(self)@, tokens@, 0, message@, 0) {
                Err(e) => r == Err::<Vec<u8>, ErrorKind>(e),
                Ok((after, at)) => match sym_decrypt_and_hash(
                    after.sym,
                    message@.subrange(at as int, message@.len() as int),
                ) {
                    Err(e) => r == Err::<Vec<u8>, ErrorKind>(e),
                    Ok((sym, payload)) => r matches Ok(v) && v@ == payload && final(self)@ == (
                    HandshakeModel { sym, ..after }),
                },
            },
    {
        let ghost start = self@;
        let mut at: usize = 0;
        let mut i: usize = 0;
        while i < tokens.len()
            invariant
                i <= tokens@.len(),
                at <= message@.len() <= MAXMSGLEN,
                self.wf(),
                self.same_frame(old(self)),
                self.e.on == old(self).e.on,
                start == old(self)@,
                read_from::<D>(start, tokens@, 0, message@, 0) == read_from::<D>(
                    self@,
                    tokens@,
                    i as nat,
                    message@,
                    at as nat,
                ),
            decreases tokens@.len() - i,
        {
            let len = self.token_len(tokens[i]);
            if len > message.len() - at {
                return Err(ErrorKind::Input);
            }
            let bytes = slice_subrange(message, at, at + len);
            match self.read_token(tokens[i], bytes) {
                Ok(()) => {},
                Err(e) => {
                    return Err(e);
                },
            }
            at = at + len;
            i += 1;
        }
        let rest = slice_subrange(message, at, message.len());
        self.symmetricstate.decrypt_and_mix_hash(rest)
    }

    /// Moves on to the next message and keys the transport cipher states
    /// after the last.
    fn step(&mut self)
        requires
            old(self).wf(),
            !finished(old(self)@),
        ensures
            final(self).wf(),
            final(self)@ == advance(old(self)@),
            final(self).e_key() == old(self).e_key(),
            final(self).is_fixed() == old(self).is_fixed(),
    {
        proof {
            assert(tokens_view(self.message_patterns).len() == self.message_patterns@.len());
        }
        let count = self.message_patterns.len();
        self.pattern_position = self.pattern_position + 1;
        if self.pattern_position >= count {
            self.symmetricstate.split(&mut self.cipherstates.0, &mut self.cipherstates.1);
        }
    }

    /// Returns to the symmetric state and the key slots that were saved
    /// before a message was begun.
    fn undo(
        &mut self,
        saved: SymmetricSnapshot,
        e_on: bool,
        rs: Toggle<[u8; MAXDHLEN]>,
        re: Toggle<[u8; MAXDHLEN]>,
    )
        requires
            old(self).wf(),
            saved.wf(old(self)@.sym.hash),
        ensures
            final(self).wf(),
            final(self).same_frame(old(self)),
            final(self).e.on == e_on,
            final(self).rs == rs,
            final(self).re == re,
            final(self)@.sym == saved.model(old(self)@.sym.hash, old(self)@.sym.cipher.choice),
    {
        self.symmetricstate.restore(saved);
        self.e.on = e_on;
        self.rs = rs;
        self.re = re;
    }

    /// Writes a message with the ephemeral key that the instance holds.
    #[verifier::spinoff_prover]
    #[verifier::rlimit(100)]
    fn write_checked(&mut self, tokens: &Vec<Token>, payload: &[u8], message: &mut [u8]) -> (r:
        Result<usize, ErrorKind>)
        requires
            old(self).wf(),
            !finished(old(self)@),
            my_turn(old(self)@),
            tokens@ == patterns(old(self)@)[old(self)@.position as int],
        ensures
            final(self).wf(),
            final(self).is_fixed() == old(self).is_fixed(),
            final(self).e_key() == old(self).e_key(),
            final(message)@.len() == old(message)@.len(),
            write_outcome::<D>(
                old(self)@,
                payload@,
                old(self).e_key(),
                old(message)@,
                r,
                final(self)@,
                final(message)@,
            ),
    {
        let ghost before = self@;
        let saved = self.symmetricstate.snapshot();
        let saved_e = self.e.on;
        let saved_rs = Toggle { inner: self.rs.inner, on: self.rs.on };
        let saved_re = Toggle { inner: self.re.inner, on: self.re.on };
        let written = self.write_parts(tokens, payload);
        match written {
            Ok(out) => {
                if out.len() <= MAXMSGLEN && out.len() <= message.len() {
                    copy_into(message, out.as_slice());
                    self.step();
                    return Ok(out.len());
                }
                self.undo(saved, saved_e, saved_rs, saved_re);
                assert(self@ == before);
                Err(ErrorKind::Input)
            },
            Err(e) => {
                self.undo(saved, saved_e, saved_rs, saved_re);
                assert(self@ == before);
                Err(e)
            },
        }
    }

    /// Writes the next handshake message, with `payload` behind the
    /// tokens, to the front of `message`, and returns its length.
    ///
    /// The call is refused, with nothing changed, after the last message,
    /// out of turn, where a key or a pre-shared key that a token needs is
    /// absent, and where the message exceeds `message` or the longest
    /// message allowed. Where the party needs a fresh ephemeral key and the
    /// random source fails, the call is refused as well.
    pub fn write_handshake_message(&mut self, payload: &[u8], message: &mut [u8]) -> (r: Result<
        usize,
        ErrorKind,
    >)
        requires
            old(self).wf(),
        ensures
            final(self).wf(),
            final(self).is_fixed() == old(self).is_fixed(),
            old(self).is_fixed() ==> final(self).e_key() == old(self).e_key(),
            final(message)@.len() == old(message)@.len(),
            write_outcome::<D>(
                old(self)@,
                payload@,
                final(self).e_key(),
                old(message)@,
                r,
                final(self)@,
                final(message)@,
            ) || (wants_fresh(old(self)@) && !old(self).is_fixed() && r == Err::<
                usize,
                ErrorKind,
            >(ErrorKind::Init(InitStage::GetRngImpl)) && final(self)@ == old(self)@
                && final(message)@ == old(message)@),
    {
        if self.is_finished() {
            return Err(ErrorKind::State(StateProblem::HandshakeAlreadyFinished));
        }
        if !self.is_write_turn() {
            return Err(ErrorKind::State(StateProblem::NotTurnToWrite));
        }
        proof {
            assert(tokens_view(self.message_patterns)[self.pattern_position as int]
                == self.message_patterns@[self.pattern_position as int]@);
        }
        let tokens = copy_tokens(&self.message_patterns[self.pattern_position]);
        if !self.fixed_ephemeral && !self.e.on && has_token(&tokens, Token::E) {
            if !self.e.inner.generate(&mut self.rng) {
                assert(self@ == old(self)@);
                return Err(ErrorKind::Init(InitStage::GetRngImpl));
            }
        }
        assert(self@ == old(self)@);
        self.write_checked(&tokens, payload, message)
    }

    /// Reads a message of the given tokens.
    #[verifier::spinoff_prover]
    #[verifier::rlimit(100)]
    fn read_checked(&mut self, tokens: &Vec<Token>, message: &[u8], payload: &mut [u8]) -> (r:
        Result<usize, ErrorKind>)
        requires
            old(self).wf(),
            !finished(old(self)@),
            !my_turn(old(self)@),
            message@.len() <= MAXMSGLEN,
            tokens@ == patterns(old(self)@)[old(self)@.position as int],
        ensures
            final(self).wf(),
            final(self).is_fixed() == old(self).is_fixed(),
            final(self).e_key() == old(self).e_key(),
            final(payload)@.len() == old(payload)@.len(),
            read_outcome::<D>(
                old(self)@,
                message@,
                old(payload)@,
                r,
                final(self)@,
                final(payload)@,
            ),
    {
        let ghost before = self@;
        let saved = self.symmetricstate.snapshot();
        let saved_e = self.e.on;
        let saved_rs = Toggle { inner: self.rs.inner, on: self.rs.on };
        let saved_re = Toggle { inner: self.re.inner, on: self.re.on };
        let opened = self.read_parts(tokens, message);
        match opened {
            Ok(out) => {
                if out.len() <= payload.len() {
                    copy_into(payload, out.as_slice());
                    self.step();
                    return Ok(out.len());
                }
                self.undo(saved, saved_e, saved_rs, saved_re);
                assert(self@ == before);
                Err(ErrorKind::Input)
            },
            Err(e) => {
                self.undo(saved, saved_e, saved_rs, saved_re);
                assert(self@ == before);
                Err(e)
            },
        }
    }

    /// Reads the next handshake message and writes its payload to the
    /// front of `payload`, whose length it returns.
    ///
    /// The call is refused, with nothing changed, after the last message,
    /// out of turn, where the message is longer than allowed or too short
    /// for its tokens, where a key or a pre-shared key that a token needs
    /// is absent, where a ciphertext does not authenticate, and where the
    /// payload exceeds `payload`.
    pub fn read_handshake_message(&mut self, message: &[u8], payload: &mut [u8]) -> (r: Result<
        usize,
        ErrorKind,
    >)
        requires
            old(self).wf(),
        ensures
            final(self).wf(),
            final(self).is_fixed() == old(self).is_fixed(),
            final(self).e_key() == old(self).e_key(),
            final(payload)@.len() == old(payload)@.len(),
            read_outcome::<D>(
                old(self)@,
                message@,
                old(payload)@,
                r,
                final(self)@,
                final(payload)@,
            ),
    {
        if self.is_finished() {
            return Err(ErrorKind::State(StateProblem::HandshakeAlreadyFinished));
        }
        if self.is_write_turn() {
            return Err(ErrorKind::State(StateProblem::NotTurnToRead));
        }
        if message.len() > MAXMSGLEN {
            return Err(ErrorKind::Input);
        }
        proof {
            assert(tokens_view(self.message_patterns)[self.pattern_position as int]
                == self.message_patterns@[self.pattern_position as int]@);
        }
        let tokens = copy_tokens(&self.message_patterns[self.pattern_position]);
        self.read_checked(&tokens, message, payload)
    }

    /// Hands over the transport cipher states of a finished handshake: the
    /// first for what the initiator sends, the second for what the
    /// responder sends.
    pub fn finish(self) -> (r: Result<CipherStates<C>, ErrorKind>)
        requires
            self.wf(),
        ensures
            match r {
                Ok(pair) => finished(self@) && pair.0.wf() && pair.1.wf() && pair.0@
                    == self@.transport.0 && pair.1@ == self@.transport.1,
                Err(e) => !finished(self@) && e == ErrorKind::State(
                    StateProblem::HandshakeNotFinished,
                ),
            },
    {
        if !self.is_finished() {
            return Err(ErrorKind::State(StateProblem::HandshakeNotFinished));
        }
        Ok(self.cipherstates)
    }
}

} // verus!
