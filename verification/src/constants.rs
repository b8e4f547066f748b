//! Fixed sizes of the protocol.

use vstd::prelude::*;

verus! {

/// Length in bytes of a pre-shared key.
pub const PSKLEN: usize = 32;

/// Length in bytes of a symmetric cipher key.
pub const CIPHERKEYLEN: usize = 32;

/// Length in bytes of the authentication tag that follows a ciphertext.
pub const TAGLEN: usize = 16;

/// Longest digest of a supported hash function.
pub const MAXHASHLEN: usize = 64;

/// Longest block of a supported hash function.
pub const MAXBLOCKLEN: usize = 128;

/// Longest key of a supported Diffie-Hellman function.
pub const MAXDHLEN: usize = 56;

/// Longest message that may be written or read.
pub const MAXMSGLEN: usize = 65535;

/// Number of slots for pre-shared keys.
pub const MAXPSKS: usize = 10;

} // verus!
