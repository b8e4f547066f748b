//! A verified engine for Noise protocol handshakes.
//!
//! A protocol name such as `Noise_XX_25519_ChaChaPoly_SHA256` is parsed into
//! a descriptor, a builder checks the key material against the pattern, and
//! a session then walks the handshake message by message before it switches
//! to transport encryption.
//!
//! Every function carries a contract over a mathematical model of the
//! protocol state, and Verus proves that the code keeps it:
//!
//! - `params`, `parser`, `patterns`, `text`: protocol names and the tokens
//!   of each handshake pattern;
//! - `types`: the capabilities that the engine consumes, with HMAC and HKDF
//!   built on the hash;
//! - `cipherstate`, `symmetricstate`, `handshakestate`, `session`: the
//!   state machines, each with its model;
//! - `protocol`: the handshake as a function on values;
//! - `agreement`, `prerequisites`: what holds between the two parties of a
//!   handshake;
//! - `noise`: the builder and the resolver of primitives;
//! - `wrappers`: the built-in primitives. What X25519, the hash functions
//!   and the ciphers compute is taken on trust from the crates that
//!   implement them.

pub mod constants;
pub mod error;
pub mod params;
pub mod parser;
pub mod patterns;
pub mod text;
pub mod types;
pub mod utils;
pub mod cipherstate;
pub mod symmetricstate;
pub mod protocol;
pub mod agreement;
pub mod prerequisites;
pub mod handshakestate;
pub mod session;
pub mod noise;
pub mod wrappers;
