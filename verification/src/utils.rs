//! A value that is either in use or held in reserve.

use vstd::prelude::*;
use crate::constants::MAXDHLEN;

verus! {

/// A buffer or an instance together with a flag that says whether it holds
/// anything yet. A slot that is off stands for an absent key, whatever its
/// bytes are.
pub struct Toggle<T> {
    pub inner: T,
    pub on: bool,
}

impl<T> Toggle<T> {
    /// A slot that is present.
    pub fn on(inner: T) -> (t: Self)
        ensures
            t.on,
            t.inner == inner,
    {
        Toggle { inner, on: true }
    }

    /// A slot that is absent; `inner` is kept in reserve.
    pub fn off(inner: T) -> (t: Self)
        ensures
            !t.on,
            t.inner == inner,
    {
        Toggle { inner, on: false }
    }

    /// Marks the slot as present.
    pub fn enable(&mut self)
        ensures
            final(self).on,
            final(self).inner == old(self).inner,
    {
        self.on = true;
    }

    /// Whether the slot is present.
    pub fn is_on(&self) -> (b: bool)
        ensures
            b == self.on,
    {
        self.on
    }
}

/// Writes `src` over the beginning of `dst`.
pub fn copy_into(dst: &mut [u8], src: &[u8])
    requires
        src@.len() <= old(dst)@.len(),
    ensures
        final(dst)@.len() == old(dst)@.len(),
        final(dst)@ == src@ + old(dst)@.skip(src@.len() as int),
{
    let mut i: usize = 0;
    while i < src.len()
        invariant
            i <= src@.len() <= dst@.len(),
            dst@.len() == old(dst)@.len(),
            forall|j: int| 0 <= j < i ==> dst@[j] == src@[j],
            forall|j: int| i <= j < dst@.len() ==> dst@[j] == old(dst)@[j],
        decreases src@.len() - i,
    {
        dst[i] = src[i];
        i += 1;
    }
    assert(dst@ =~= src@ + old(dst)@.skip(src@.len() as int));
}

/// A key buffer that begins with `bytes` and is zero behind them.
pub fn key_buffer(bytes: &[u8]) -> (out: [u8; MAXDHLEN])
    requires
        bytes@.len() <= MAXDHLEN,
    ensures
        out@.take(bytes@.len() as int) == bytes@,
{
    let mut out: [u8; MAXDHLEN] = [0u8; MAXDHLEN];
    let mut i: usize = 0;
    while i < bytes.len()
        invariant
            i <= bytes@.len() <= MAXDHLEN,
            forall|j: int| 0 <= j < i ==> out@[j] == bytes@[j],
        decreases bytes@.len() - i,
    {
        out[i] = bytes[i];
        i += 1;
    }
    assert(out@.take(bytes@.len() as int) =~= bytes@);
    out
}

/// The 32 bytes of `bytes` as an array.
pub fn array32(bytes: &[u8]) -> (out: [u8; 32])
    requires
        bytes@.len() == 32,
    ensures
        out@ == bytes@,
{
    let mut out: [u8; 32] = [0u8; 32];
    let mut i: usize = 0;
    while i < 32
        invariant
            i <= 32,
            bytes@.len() == 32,
            forall|j: int| 0 <= j < i ==> out@[j] == bytes@[j],
        decreases 32 - i,
    {
        out[i] = bytes[i];
        i += 1;
    }
    assert(out@ =~= bytes@);
    out
}

} // verus!
