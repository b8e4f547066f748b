//! A session: a handshake in progress, or the transport phase that follows
//! it.

use vstd::prelude::*;
use crate::cipherstate::{decrypt_spec, encrypt_spec, CipherModel, CipherStates};
use crate::constants::TAGLEN;
use crate::error::{ErrorKind, InitStage, StateProblem};
use crate::handshakestate::HandshakeState;
use crate::patterns::base_messages;
use crate::protocol::{finished, my_turn, read_outcome, wants_fresh, write_outcome, HandshakeModel};
use crate::types::{Cipher, Dh, Random};
use crate::utils::copy_into;

verus! {

/// The transport phase of one party.
pub struct TransportModel {
    /// The cipher state for what the initiator sends, then the one for
    /// what the responder sends.
    pub ciphers: (CipherModel, CipherModel),
    pub initiator: bool,
    /// After a one-way pattern only the initiator sends.
    pub oneway: bool,
}

/// What a session is.
pub enum SessionModel {
    Handshake(HandshakeModel),
    Transport(TransportModel),
}

/// Encrypting a transport message into a buffer of `room` bytes.
pub open spec fn transport_write(t: TransportModel, payload: Seq<u8>, room: nat) -> Result<
    (TransportModel, Seq<u8>),
    ErrorKind,
> {
    if !t.initiator && t.oneway {
        Err(ErrorKind::State(StateProblem::OneWay))
    } else if payload.len() + TAGLEN > room {
        Err(ErrorKind::Input)
    } else if t.initiator {
        match encrypt_spec(t.ciphers.0, Seq::<u8>::empty(), payload) {
            Ok((c, out)) => Ok((TransportModel { ciphers: (c, t.ciphers.1), ..t }, out)),
            Err(e) => Err(e),
        }
    } else {
        match encrypt_spec(t.ciphers.1, Seq::<u8>::empty(), payload) {
            Ok((c, out)) => Ok((TransportModel { ciphers: (t.ciphers.0, c), ..t }, out)),
            Err(e) => Err(e),
        }
    }
}

/// Decrypting a transport message into a buffer of `room` bytes.
pub open spec fn transport_read(t: TransportModel, message: Seq<u8>, room: nat) -> Result<
    (TransportModel, Seq<u8>),
    ErrorKind,
> {
    if t.initiator && t.oneway {
        Err(ErrorKind::State(StateProblem::OneWay))
    } else if message.len() >= TAGLEN && message.len() - TAGLEN > room {
        Err(ErrorKind::Input)
    } else if t.initiator {
        match decrypt_spec(t.ciphers.1, Seq::<u8>::empty(), message) {
            Ok((c, out)) => Ok((TransportModel { ciphers: (t.ciphers.0, c), ..t }, out)),
            Err(e) => Err(e),
        }
    } else {
        match decrypt_spec(t.ciphers.0, Seq::<u8>::empty(), message) {
            Ok((c, out)) => Ok((TransportModel { ciphers: (c, t.ciphers.1), ..t }, out)),
            Err(e) => Err(e),
        }
    }
}

/// What a transport call returns and leaves behind: the length of the
/// output, the output at the front of the buffer and the new state; or the
/// refusal, with state and buffer untouched.
pub open spec fn transport_outcome(
    expected: Result<(TransportModel, Seq<u8>), ErrorKind>,
    before: TransportModel,
    buffer: Seq<u8>,
    r: Result<usize, ErrorKind>,
    after: TransportModel,
    buffer_after: Seq<u8>,
) -> bool {
    match expected {
        Ok((t, out)) => r == Ok::<usize, ErrorKind>(out.len() as usize) && after == t
            && buffer_after == out + buffer.skip(out.len() as int),
        Err(e) => r == Err::<usize, ErrorKind>(e) && after == before && buffer_after == buffer,
    }
}

/// The two transport cipher states with the role of the party.
pub struct TransportState<C: Cipher> {
    cipherstates: CipherStates<C>,
    initiator: bool,
    oneway: bool,
}

impl<C: Cipher> View for TransportState<C> {
    type V = TransportModel;

    closed spec fn view(&self) -> TransportModel {
        TransportModel {
            ciphers: (self.cipherstates.0@, self.cipherstates.1@),
            initiator: self.initiator,
            oneway: self.oneway,
        }
    }
}

impl<C: Cipher> TransportState<C> {
    /// Both cipher states are well formed.
    pub closed spec fn wf(&self) -> bool {
        self.cipherstates.0.wf() && self.cipherstates.1.wf()
    }

    /// The transport phase over the cipher states of a finished handshake.
    pub fn new(cipherstates: CipherStates<C>, initiator: bool, oneway: bool) -> (t: Self)
        requires
            cipherstates.0.wf(),
            cipherstates.1.wf(),
        ensures
            t.wf(),
            t@ == (TransportModel {
                ciphers: (cipherstates.0@, cipherstates.1@),
                initiator,
                oneway,
            }),
    {
        TransportState { cipherstates, initiator, oneway }
    }

    /// Encrypts `payload` to the front of `message` under the cipher state
    /// of this party's direction, and returns the length of the message.
    pub fn write_transport_message(&mut self, payload: &[u8], message: &mut [u8]) -> (r: Result<
        usize,
        ErrorKind,
    >)
        requires
            old(self).wf(),
        ensures
            final(self).wf(),
            final(message)@.len() == old(message)@.len(),
            transport_outcome(
                transport_write(old(self)@, payload@, old(message)@.len()),
                old(self)@,
                old(message)@,
                r,
                final(self)@,
                final(message)@,
            ),
    {
        if !self.initiator && self.oneway {
            return Err(ErrorKind::State(StateProblem::OneWay));
        }
        if payload.len() > message.len() || message.len() - payload.len() < TAGLEN {
            return Err(ErrorKind::Input);
        }
        let sealed = if self.initiator {
            self.cipherstates.0.encrypt(payload)
        } else {
            self.cipherstates.1.encrypt(payload)
        };
        match sealed {
            Ok(out) => {
                copy_into(message, out.as_slice());
                Ok(out.len())
            },
            Err(e) => Err(e),
        }
    }

    /// Decrypts `message` to the front of `payload` under the cipher state
    /// of the other party's direction, and returns the length of the
    /// payload. A message that does not authenticate leaves the counter
    /// where it was.
    pub fn read_transport_message(&mut self, message: &[u8], payload: &mut [u8]) -> (r: Result<
        usize,
        ErrorKind,
    >)
        requires
            old(self).wf(),
        ensures
            final(self).wf(),
            final(payload)@.len() == old(payload)@.len(),
            transport_outcome(
                transport_read(old(self)@, message@, old(payload)@.len()),
                old(self)@,
                old(payload)@,
                r,
                final(self)@,
                final(payload)@,
            ),
    {
        if self.initiator && self.oneway {
            return Err(ErrorKind::State(StateProblem::OneWay));
        }
        if message.len() >= TAGLEN && message.len() - TAGLEN > payload.len() {
            return Err(ErrorKind::Input);
        }
        let opened = if self.initiator {
            self.cipherstates.1.decrypt(message)
        } else {
            self.cipherstates.0.decrypt(message)
        };
        match opened {
            Ok(out) => {
                copy_into(payload, out.as_slice());
                Ok(out.len())
            },
            Err(e) => Err(e),
        }
    }

    /// Whether this party sent the first handshake message.
    pub fn is_initiator(&self) -> (b: bool)
        ensures
            b == self@.initiator,
    {
        self.initiator
    }
}

/// A session in either phase. It begins in the handshake phase and moves
/// to the transport phase once, by `into_transport_mode`.
pub enum Session<G: Random, D: Dh, H: crate::types::Hash, C: Cipher> {
    Handshake(HandshakeState<G, D, H, C>),
    Transport(TransportState<C>),
}

impl<G: Random, D: Dh, H: crate::types::Hash, C: Cipher> View for Session<G, D, H, C> {
    type V = SessionModel;

    open spec fn view(&self) -> SessionModel {
        match self {
            Session::Handshake(state) => SessionModel::Handshake(state@),
            Session::Transport(state) => SessionModel::Transport(state@),
        }
    }
}

/// What the handshake leaves to the transport phase.
pub open spec fn transport_of(m: HandshakeModel) -> TransportModel {
    TransportModel {
        ciphers: m.transport,
        initiator: m.initiator,
        oneway: base_messages(m.params.pattern).len() == 1,
    }
}

impl<G: Random, D: Dh, H: crate::types::Hash, C: Cipher> Session<G, D, H, C> {
    /// The state of the current phase is well formed.
    pub open spec fn wf(&self) -> bool {
        match self {
            Session::Handshake(state) => state.wf(),
            Session::Transport(state) => state.wf(),
        }
    }

    /// Writes the next message to the front of `output` and returns its
    /// length: a handshake message that carries `payload`, or in the
    /// transport phase the encrypted `payload`. A refused call changes
    /// nothing.
    pub fn write_message(&mut self, payload: &[u8], output: &mut [u8]) -> (r: Result<
        usize,
        ErrorKind,
    >)
        requires
            old(self).wf(),
        ensures
            final(self).wf(),
            final(output)@.len() == old(output)@.len(),
            match (*old(self), *final(self)) {
                (Session::Handshake(before), Session::Handshake(after)) => write_outcome::<D>(
                    before@,
                    payload@,
                    after.e_key(),
                    old(output)@,
                    r,
                    after@,
                    final(output)@,
                ) || (wants_fresh(before@) && !before.is_fixed() && r == Err::<usize, ErrorKind>(
                    ErrorKind::Init(InitStage::GetRngImpl),
                ) && after@ == before@ && final(output)@ == old(output)@),
                (Session::Transport(before), Session::Transport(after)) => transport_outcome(
                    transport_write(before@, payload@, old(output)@.len()),
                    before@,
                    old(output)@,
                    r,
                    after@,
                    final(output)@,
                ),
                _ => false,
            },
            old(self)@ matches SessionModel::Handshake(m) && !finished(m) && !my_turn(m) ==> r
                == Err::<usize, ErrorKind>(ErrorKind::State(StateProblem::NotTurnToWrite))
                && final(self)@ == old(self)@,
    {
        match self {
            Session::Handshake(state) => state.write_handshake_message(payload, output),
            Session::Transport(state) => state.write_transport_message(payload, output),
        }
    }

    /// Reads `input` and writes what it carries to the front of `payload`,
    /// whose length comes back: the payload of a handshake message, or in
    /// the transport phase the decrypted message. A refused call changes
    /// nothing.
    pub fn read_message(&mut self, input: &[u8], payload: &mut [u8]) -> (r: Result<
        usize,
        ErrorKind,
    >)
        requires
            old(self).wf(),
        ensures
            final(self).wf(),
            final(payload)@.len() == old(payload)@.len(),
            match (*old(self), *final(self)) {
                (Session::Handshake(before), Session::Handshake(after)) => read_outcome::<D>(
                    before@,
                    input@,
                    old(payload)@,
                    r,
                    after@,
                    final(payload)@,
                ),
                (Session::Transport(before), Session::Transport(after)) => transport_outcome(
                    transport_read(before@, input@, old(payload)@.len()),
                    before@,
                    old(payload)@,
                    r,
                    after@,
                    final(payload)@,
                ),
                _ => false,
            },
            old(self)@ matches SessionModel::Handshake(m) && !finished(m) && my_turn(m) ==> r
                == Err::<usize, ErrorKind>(ErrorKind::State(StateProblem::NotTurnToRead))
                && final(self)@ == old(self)@,
    {
        match self {
            Session::Handshake(state) => state.read_handshake_message(input, payload),
            Session::Transport(state) => state.read_transport_message(input, payload),
        }
    }

    /// Whether the handshake is over: every message was exchanged, or the
    /// session is in the transport phase already.
    pub fn is_handshake_finished(&self) -> (b: bool)
        requires
            self.wf(),
        ensures
            b == match self@ {
                SessionModel::Handshake(m) => finished(m),
                SessionModel::Transport(_) => true,
            },
    {
        match self {
            Session::Handshake(state) => state.is_finished(),
            Session::Transport(_) => true,
        }
    }

    /// Whether this party sent or will send the first handshake message.
    pub fn is_initiator(&self) -> (b: bool)
        ensures
            b == match self@ {
                SessionModel::Handshake(m) => m.initiator,
                SessionModel::Transport(t) => t.initiator,
            },
    {
        match self {
            Session::Handshake(state) => state.is_initiator(),
            Session::Transport(state) => state.is_initiator(),
        }
    }

    /// Moves a finished handshake to the transport phase, where the keys of
    /// the handshake are gone and only the two transport cipher states
    /// remain. A handshake that is not finished is refused, and so is a
    /// session that is in the transport phase already.
    pub fn into_transport_mode(self) -> (r: Result<Self, ErrorKind>)
        requires
            self.wf(),
        ensures
            match self@ {
                SessionModel::Handshake(m) => if finished(m) {
                    r matches Ok(next) && next.wf() && next@ == SessionModel::Transport(
                        transport_of(m),
                    )
                } else {
                    r matches Err(e) && e == ErrorKind::State(StateProblem::HandshakeNotFinished)
                },
                SessionModel::Transport(_) => r matches Err(e) && e == ErrorKind::State(
                    StateProblem::HandshakeAlreadyFinished,
                ),
            },
    {
        match self {
            Session::Handshake(state) => {
                let initiator = state.is_initiator();
                let oneway = state.params().handshake.pattern.is_oneway();
                match state.finish() {
                    Ok(cipherstates) => Ok(
                        Session::Transport(TransportState::new(cipherstates, initiator, oneway)),
                    ),
                    Err(e) => Err(e),
                }
            },
            Session::Transport(_) => Err(ErrorKind::State(StateProblem::HandshakeAlreadyFinished)),
        }
    }
}

} // verus!
