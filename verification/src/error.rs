//! The failures that the engine reports.

use vstd::prelude::*;

verus! {

/// Why a protocol name was refused.
#[derive(Clone, Copy, Debug, PartialEq, Eq, Structural)]
pub enum PatternProblem {
    /// The name is not five fields separated by underscores.
    WrongFieldCount,
    /// The first field is not `Noise`.
    UnsupportedBaseType,
    /// No handshake pattern begins the second field.
    UnsupportedHandshakeType,
    /// A modifier is unknown, repeated, or does not fit the base pattern.
    UnsupportedModifier,
    /// The Diffie-Hellman field names no known function.
    UnsupportedDhType,
    /// The cipher field names no known cipher.
    UnsupportedCipherType,
    /// The hash field names no known hash function.
    UnsupportedHashType,
}

/// The step of initialisation that failed.
#[derive(Clone, Copy, Debug, PartialEq, Eq, Structural)]
pub enum InitStage {
    /// A key does not have the length of the key agreement.
    ValidateKeyLengths,
    /// A pre-shared key does not have the fixed length.
    ValidatePskLengths,
    /// The two transport ciphers are not of one algorithm.
    ValidateCipherTypes,
    /// There is no random source, or it did not deliver.
    GetRngImpl,
    /// There is no implementation of the key agreement.
    GetDhImpl,
    /// There is no implementation of the cipher.
    GetCipherImpl,
    /// There is no implementation of the hash function.
    GetHashImpl,
}

/// Key material that the pattern needs and the caller did not supply.
#[derive(Clone, Copy, Debug, PartialEq, Eq, Structural)]
pub enum Prerequisite {
    /// The party's own static private key.
    LocalPrivateKey,
    /// The other party's static public key.
    RemotePublicKey,
}

/// A call that the current state does not allow.
#[derive(Clone, Copy, Debug, PartialEq, Eq, Structural)]
pub enum StateProblem {
    /// A key that the operation needs is absent.
    MissingKeyMaterial,
    /// The pre-shared key that a token names is absent.
    MissingPsk,
    /// The next handshake message is the other party's to write.
    NotTurnToWrite,
    /// The next handshake message is this party's to write.
    NotTurnToRead,
    /// The transport phase was asked for before the last message.
    HandshakeNotFinished,
    /// A handshake message was asked for after the last message.
    HandshakeAlreadyFinished,
    /// After a one-way pattern only the initiator sends.
    OneWay,
    /// The counter of the cipher state has reached its last value.
    Exhausted,
}

/// Every failure of the engine, by kind.
#[derive(Clone, Copy, Debug, PartialEq, Eq, Structural)]
pub enum ErrorKind {
    /// The protocol name is malformed.
    Pattern(PatternProblem),
    /// A primitive could not be had, or supplied material is malformed.
    Init(InitStage),
    /// Required key material is absent for the pattern and role.
    Prereq(Prerequisite),
    /// The call is out of turn, or the state cannot serve it.
    State(StateProblem),
    /// A buffer is too small or a message too short or too long.
    Input,
    /// A ciphertext did not authenticate.
    Decrypt,
}

} // verus!
