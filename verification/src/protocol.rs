//! The handshake as a function on values: what each token does to the
//! state of a party, what a message consists of, and when a message is
//! refused. The state machine in `handshakestate` is proved to follow it.

use vstd::prelude::*;
use crate::cipherstate::CipherModel;
use crate::constants::{MAXMSGLEN, TAGLEN};
use crate::error::{ErrorKind, Prerequisite, StateProblem};
use crate::params::ParamsModel;
use crate::patterns::{message_patterns, premessage, HandshakeModifierList, Token};
use crate::symmetricstate::{
    sym_decrypt_and_hash, sym_encrypt_and_hash, sym_initialize, sym_mix_hash, sym_mix_key,
    sym_mix_key_and_hash, sym_split, SymmetricModel,
};
use crate::types::{dh_len_spec, Dh};

verus! {

/// The state of one party of a handshake.
pub struct HandshakeModel {
    pub params: ParamsModel,
    pub initiator: bool,
    pub sym: SymmetricModel,
    /// The party's static private key.
    pub s: Option<Seq<u8>>,
    /// The party's ephemeral private key.
    pub e: Option<Seq<u8>>,
    /// The other party's static public key.
    pub rs: Option<Seq<u8>>,
    /// The other party's ephemeral public key.
    pub re: Option<Seq<u8>>,
    /// The pre-shared keys, by slot.
    pub psks: Seq<Option<Seq<u8>>>,
    /// The number of messages written or read so far.
    pub position: nat,
    /// The transport cipher states: keyed once the handshake is finished.
    pub transport: (CipherModel, CipherModel),
}

/// The messages of the handshake.
pub open spec fn patterns(m: HandshakeModel) -> Seq<Seq<Token>> {
    message_patterns(m.params.pattern, m.params.modifiers)
}

/// Whether the handshake uses a pre-shared key.
pub open spec fn uses_psk(m: HandshakeModel) -> bool {
    HandshakeModifierList::is_psk_spec(m.params.modifiers)
}

/// Every message has been written or read.
pub open spec fn finished(m: HandshakeModel) -> bool {
    m.position >= patterns(m).len()
}

/// The next message is this party's to write: the initiator writes the
/// first message and the parties alternate.
pub open spec fn my_turn(m: HandshakeModel) -> bool {
    (m.position % 2 == 0) == m.initiator
}

/// Takes in an ephemeral public key: it is folded into the running hash
/// and, in a handshake with a pre-shared key, into the chaining key too.
pub open spec fn absorb_ephemeral(m: HandshakeModel, pubkey: Seq<u8>) -> HandshakeModel {
    let hashed = sym_mix_hash(m.sym, pubkey);
    HandshakeModel {
        sym: if uses_psk(m) {
            sym_mix_key(hashed, pubkey)
        } else {
            hashed
        },
        ..m
    }
}

/// The private key of this party and the public key of the other that a
/// key agreement token combines. In `es` and `se` the first letter is the
/// initiator's key and the second the responder's.
pub open spec fn dh_keys(m: HandshakeModel, t: Token) -> (Option<Seq<u8>>, Option<Seq<u8>>) {
    match t {
        Token::Dhee => (m.e, m.re),
        Token::Dhes => if m.initiator {
            (m.e, m.rs)
        } else {
            (m.s, m.re)
        },
        Token::Dhse => if m.initiator {
            (m.s, m.re)
        } else {
            (m.e, m.rs)
        },
        Token::Dhss => (m.s, m.rs),
        _ => (None, None),
    }
}

/// What a key agreement token or a pre-shared key token does; the same for
/// the writer and the reader.
pub open spec fn mix_token<D: Dh>(m: HandshakeModel, t: Token) -> Result<
    HandshakeModel,
    ErrorKind,
> {
    match t {
        Token::Psk(n) => if n < m.psks.len() && m.psks[n as int] is Some {
            Ok(HandshakeModel { sym: sym_mix_key_and_hash(m.sym, m.psks[n as int]->0), ..m })
        } else {
            Err(ErrorKind::State(StateProblem::MissingPsk))
        },
        _ => {
            let keys = dh_keys(m, t);
            if keys.0 is Some && keys.1 is Some {
                Ok(
                    HandshakeModel {
                        sym: sym_mix_key(m.sym, D::shared_of(m.params.dh, keys.0->0, keys.1->0)),
                        ..m
                    },
                )
            } else {
                Err(ErrorKind::State(StateProblem::MissingKeyMaterial))
            }
        },
    }
}

/// What writing one token does, and the bytes it adds to the message.
/// `fresh` is the ephemeral private key to take up where the party has
/// none yet.
pub open spec fn write_token<D: Dh>(m: HandshakeModel, t: Token, fresh: Seq<u8>) -> Result<
    (HandshakeModel, Seq<u8>),
    ErrorKind,
> {
    match t {
        Token::E => {
            let key = match m.e {
                Some(k) => k,
                None => fresh,
            };
            let pubkey = D::pubkey_of(m.params.dh, key);
            Ok((absorb_ephemeral(HandshakeModel { e: Some(key), ..m }, pubkey), pubkey))
        },
        Token::S => match m.s {
            None => Err(ErrorKind::State(StateProblem::MissingKeyMaterial)),
            Some(k) => match sym_encrypt_and_hash(m.sym, D::pubkey_of(m.params.dh, k)) {
                Ok((sym, out)) => Ok((HandshakeModel { sym, ..m }, out)),
                Err(e) => Err(e),
            },
        },
        _ => match mix_token::<D>(m, t) {
            Ok(next) => Ok((next, Seq::<u8>::empty())),
            Err(e) => Err(e),
        },
    }
}

/// Writing the tokens from index `i` on, after `acc` has been written.
pub open spec fn write_from<D: Dh>(
    m: HandshakeModel,
    tokens: Seq<Token>,
    i: nat,
    fresh: Seq<u8>,
    acc: Seq<u8>,
) -> Result<(HandshakeModel, Seq<u8>), ErrorKind>
    decreases tokens.len() - i,
{
    if i >= tokens.len() {
        Ok((m, acc))
    } else {
        match write_token::<D>(m, tokens[i as int], fresh) {
            Ok((next, out)) => write_from::<D>(next, tokens, i + 1, fresh, acc + out),
            Err(e) => Err(e),
        }
    }
}

/// The number of message bytes that a token stands for, for the reader.
pub open spec fn token_len(m: HandshakeModel, t: Token) -> nat {
    match t {
        Token::E => dh_len_spec(m.params.dh),
        Token::S => if m.sym.cipher.key is Some {
            dh_len_spec(m.params.dh) + TAGLEN as nat
        } else {
            dh_len_spec(m.params.dh)
        },
        _ => 0,
    }
}

/// What reading one token does, given the bytes of the message that stand
/// for it.
pub open spec fn read_token<D: Dh>(m: HandshakeModel, t: Token, bytes: Seq<u8>) -> Result<
    HandshakeModel,
    ErrorKind,
> {
    match t {
        Token::E => Ok(absorb_ephemeral(HandshakeModel { re: Some(bytes), ..m }, bytes)),
        Token::S => match sym_decrypt_and_hash(m.sym, bytes) {
            Ok((sym, out)) => Ok(HandshakeModel { sym, rs: Some(out), ..m }),
            Err(e) => Err(e),
        },
        _ => mix_token::<D>(m, t),
    }
}

/// Reading the tokens from index `i` on, from position `at` of the
/// message. What comes back with the state is the position that follows
/// the last token. A message too short for a token is refused.
pub open spec fn read_from<D: Dh>(
    m: HandshakeModel,
    tokens: Seq<Token>,
    i: nat,
    message: Seq<u8>,
    at: nat,
) -> Result<(HandshakeModel, nat), ErrorKind>
    decreases tokens.len() - i,
{
    if i >= tokens.len() {
        Ok((m, at))
    } else {
        let len = token_len(m, tokens[i as int]);
        if at + len > message.len() {
            Err(ErrorKind::Input)
        } else {
            match read_token::<D>(m, tokens[i as int], message.subrange(at as int, (at + len) as int)) {
                Ok(next) => read_from::<D>(next, tokens, i + 1, message, at + len),
                Err(e) => Err(e),
            }
        }
    }
}

/// A transport cipher state with its key.
pub open spec fn keyed(c: CipherModel, key: Seq<u8>) -> CipherModel {
    CipherModel { choice: c.choice, key: Some(key), n: 0 }
}

/// Moves on to the next message. After the last message the transport
/// cipher states are keyed from the chaining key: the first for what the
/// initiator sends, the second for what the responder sends.
pub open spec fn advance(m: HandshakeModel) -> HandshakeModel {
    let next = HandshakeModel { position: m.position + 1, ..m };
    if finished(next) {
        HandshakeModel {
            transport: (
                keyed(m.transport.0, sym_split(m.sym).0),
                keyed(m.transport.1, sym_split(m.sym).1),
            ),
            ..next
        }
    } else {
        next
    }
}

/// Writing the next handshake message with `payload` into a buffer of
/// `room` bytes: the state afterwards and the message, or the refusal.
pub open spec fn write_message_spec<D: Dh>(
    m: HandshakeModel,
    payload: Seq<u8>,
    fresh: Seq<u8>,
    room: nat,
) -> Result<(HandshakeModel, Seq<u8>), ErrorKind> {
    if finished(m) {
        Err(ErrorKind::State(StateProblem::HandshakeAlreadyFinished))
    } else if !my_turn(m) {
        Err(ErrorKind::State(StateProblem::NotTurnToWrite))
    } else {
        match write_from::<D>(m, patterns(m)[m.position as int], 0, fresh, Seq::<u8>::empty()) {
            Err(e) => Err(e),
            Ok((after, head)) => match sym_encrypt_and_hash(after.sym, payload) {
                Err(e) => Err(e),
                Ok((sym, tail)) => if (head + tail).len() > MAXMSGLEN || (head + tail).len()
                    > room {
                    Err(ErrorKind::Input)
                } else {
                    Ok((advance(HandshakeModel { sym, ..after }), head + tail))
                },
            },
        }
    }
}

/// Reading the next handshake message into a buffer of `room` bytes: the
/// state afterwards and the payload, or the refusal.
pub open spec fn read_message_spec<D: Dh>(m: HandshakeModel, message: Seq<u8>, room: nat)
    -> Result<(HandshakeModel, Seq<u8>), ErrorKind> {
    if finished(m) {
        Err(ErrorKind::State(StateProblem::HandshakeAlreadyFinished))
    } else if my_turn(m) {
        Err(ErrorKind::State(StateProblem::NotTurnToRead))
    } else if message.len() > MAXMSGLEN {
        Err(ErrorKind::Input)
    } else {
        match read_from::<D>(m, patterns(m)[m.position as int], 0, message, 0) {
            Err(e) => Err(e),
            Ok((after, at)) => match sym_decrypt_and_hash(
                after.sym,
                message.subrange(at as int, message.len() as int),
            ) {
                Err(e) => Err(e),
                Ok((sym, payload)) => if payload.len() > room {
                    Err(ErrorKind::Input)
                } else {
                    Ok((advance(HandshakeModel { sym, ..after }), payload))
                },
            },
        }
    }
}

/// The static public keys that are folded into the running hash before the
/// first message: the initiator's where the responder knows it beforehand,
/// then the responder's where the initiator does.
pub open spec fn premessage_hashes<D: Dh>(m: HandshakeModel) -> Result<SymmetricModel, ErrorKind> {
    let own = if m.s is Some {
        Some(D::pubkey_of(m.params.dh, m.s->0))
    } else {
        None
    };
    let first = if m.initiator {
        own
    } else {
        m.rs
    };
    let second = if m.initiator {
        m.rs
    } else {
        own
    };
    let missing_first = if m.initiator {
        Prerequisite::LocalPrivateKey
    } else {
        Prerequisite::RemotePublicKey
    };
    let missing_second = if m.initiator {
        Prerequisite::RemotePublicKey
    } else {
        Prerequisite::LocalPrivateKey
    };
    if premessage(m.params.pattern, true).contains(Token::S) && first is None {
        Err(ErrorKind::Prereq(missing_first))
    } else if premessage(m.params.pattern, false).contains(Token::S) && second is None {
        Err(ErrorKind::Prereq(missing_second))
    } else {
        let one = if premessage(m.params.pattern, true).contains(Token::S) {
            sym_mix_hash(m.sym, first->0)
        } else {
            m.sym
        };
        Ok(
            if premessage(m.params.pattern, false).contains(Token::S) {
                sym_mix_hash(one, second->0)
            } else {
                one
            },
        )
    }
}

/// A fresh ephemeral key is needed for the next message: the party is to
/// write it, the message carries an ephemeral key, and the party has none.
pub open spec fn wants_fresh(m: HandshakeModel) -> bool {
    !finished(m) && my_turn(m) && m.e is None && patterns(m)[m.position as int].contains(Token::E)
}

/// What a call that writes a handshake message returns and leaves behind:
/// the length of the message, the message at the front of the buffer and
/// the new state; or the refusal, with state and buffer untouched.
pub open spec fn write_outcome<D: Dh>(
    before: HandshakeModel,
    payload: Seq<u8>,
    fresh: Seq<u8>,
    buffer: Seq<u8>,
    r: Result<usize, ErrorKind>,
    after: HandshakeModel,
    buffer_after: Seq<u8>,
) -> bool {
    match write_message_spec::<D>(before, payload, fresh, buffer.len()) {
        Ok((m, msg)) => r == Ok::<usize, ErrorKind>(msg.len() as usize) && after == m
            && buffer_after == msg + buffer.skip(msg.len() as int),
        Err(e) => r == Err::<usize, ErrorKind>(e) && after == before && buffer_after == buffer,
    }
}

/// What a call that reads a handshake message returns and leaves behind:
/// the length of the payload, the payload at the front of the buffer and
/// the new state; or the refusal, with state and buffer untouched.
pub open spec fn read_outcome<D: Dh>(
    before: HandshakeModel,
    message: Seq<u8>,
    buffer: Seq<u8>,
    r: Result<usize, ErrorKind>,
    after: HandshakeModel,
    buffer_after: Seq<u8>,
) -> bool {
    match read_message_spec::<D>(before, message, buffer.len()) {
        Ok((m, payload)) => r == Ok::<usize, ErrorKind>(payload.len() as usize) && after == m
            && buffer_after == payload + buffer.skip(payload.len() as int),
        Err(e) => r == Err::<usize, ErrorKind>(e) && after == before && buffer_after == buffer,
    }
}

/// The state of a party before the first message: the running hash holds
/// the protocol name, the prologue, and the static keys that are known
/// beforehand. A key that the pattern lists before the first message and
/// that the party lacks is a missing prerequisite.
pub open spec fn handshake_start<D: Dh>(
    params: ParamsModel,
    name: Seq<u8>,
    initiator: bool,
    prologue: Seq<u8>,
    s: Option<Seq<u8>>,
    e: Option<Seq<u8>>,
    rs: Option<Seq<u8>>,
    re: Option<Seq<u8>>,
    psks: Seq<Option<Seq<u8>>>,
    transport: (CipherModel, CipherModel),
) -> Result<HandshakeModel, ErrorKind> {
    let m = HandshakeModel {
        params,
        initiator,
        sym: sym_mix_hash(sym_initialize(params.hash, params.cipher, name), prologue),
        s,
        e,
        rs,
        re,
        psks,
        position: 0,
        transport,
    };
    match premessage_hashes::<D>(m) {
        Ok(sym) => Ok(HandshakeModel { sym, ..m }),
        Err(e) => Err(e),
    }
}

} // verus!
