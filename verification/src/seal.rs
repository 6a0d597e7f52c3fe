//! The seal of a piece of evidence: a running checksum over the bytes that
//! the evidence binds together. Each environment has its own scheme.

use vstd::prelude::*;
use crate::environment::EnvironmentKind;

verus! {

/// The offset basis of 64-bit FNV-1a.
pub const FNV_BASIS: u64 = 0xcbf29ce484222325;

/// The prime of 64-bit FNV-1a.
pub const FNV_PRIME: u64 = 0x100000001b3;

/// The modulus of Adler-32: the largest prime below 2^16.
pub const ADLER_MODULUS: u64 = 65521;

/// The weight of the high sum of Adler-32 in the checksum: 2^16.
pub const ADLER_SHIFT: u64 = 65536;

/// One step of FNV-1a: mix the byte in, then multiply, modulo 2^64.
pub open spec fn fnv1a_step(h: u64, b: u8) -> u64 {
    (h ^ (b as u64)).wrapping_mul(FNV_PRIME)
}

/// One step of Adler-32 on a state that holds the low sum in its low 16
/// bits and the high sum above them.
pub open spec fn adler_step(h: u64, b: u8) -> u64 {
    let low = ((h % ADLER_SHIFT) + b as u64) % (ADLER_MODULUS as int);
    let high = ((h / ADLER_SHIFT) + low) % (ADLER_MODULUS as int);
    (high * ADLER_SHIFT + low) as u64
}

/// The state in which a kind's checksum starts.
pub open spec fn seal_start(kind: EnvironmentKind) -> u64 {
    match kind {
        EnvironmentKind::Tdx => FNV_BASIS,
        EnvironmentKind::SevSnp => 1,
    }
}

/// The state after one more byte.
pub open spec fn seal_step(kind: EnvironmentKind, h: u64, b: u8) -> u64 {
    match kind {
        EnvironmentKind::Tdx => fnv1a_step(h, b),
        EnvironmentKind::SevSnp => adler_step(h, b),
    }
}

/// The state after the bytes of `data`, taken in order from state `h`.
pub open spec fn seal_fold(kind: EnvironmentKind, h: u64, data: Seq<u8>) -> u64
    decreases data.len(),
{
    if data.len() == 0 {
        h
    } else {
        seal_step(kind, seal_fold(kind, h, data.drop_last()), data.last())
    }
}

/// The checksum of `data` under the scheme of `kind`: FNV-1a of 64 bits for
/// `Tdx`, Adler-32 for `SevSnp`.
pub open spec fn checksum(kind: EnvironmentKind, data: Seq<u8>) -> u64 {
    seal_fold(kind, seal_start(kind), data)
}

/// Folding over two runs of bytes in turn is folding over both at once.
pub proof fn lemma_seal_fold_concat(kind: EnvironmentKind, h: u64, a: Seq<u8>, b: Seq<u8>)
    ensures
        seal_fold(kind, h, a + b) == seal_fold(kind, seal_fold(kind, h, a), b),
    decreases b.len(),
{
    if b.len() == 0 {
        assert(a + b =~= a);
    } else {
        assert((a + b).drop_last() =~= a + b.drop_last());
        lemma_seal_fold_concat(kind, h, a, b.drop_last());
    }
}

/// The state in which the checksum of `kind` starts.
pub fn start(kind: EnvironmentKind) -> (h: u64)
    ensures
        h == seal_start(kind),
{
    match kind {
        EnvironmentKind::Tdx => FNV_BASIS,
        EnvironmentKind::SevSnp => 1,
    }
}

/// Takes one byte into the running checksum.
pub fn step(kind: EnvironmentKind, h: u64, b: u8) -> (r: u64)
    ensures
        r == seal_step(kind, h, b),
{
    match kind {
        EnvironmentKind::Tdx => (h ^ (b as u64)).wrapping_mul(FNV_PRIME),
        EnvironmentKind::SevSnp => {
            let low: u64 = ((h % ADLER_SHIFT) + b as u64) % ADLER_MODULUS;
            let high: u64 = ((h / ADLER_SHIFT) + low) % ADLER_MODULUS;
            high * ADLER_SHIFT + low
        },
    }
}

/// Takes a run of bytes into the running checksum.
pub fn absorb(kind: EnvironmentKind, h: u64, data: &[u8]) -> (r: u64)
    ensures
        r == seal_fold(kind, h, data@),
{
    let n: usize = data.len();
    let mut state: u64 = h;
    let mut i: usize = 0;
    while i < n
        invariant
            n == data@.len(),
            i <= n,
            state == seal_fold(kind, h, data@.take(i as int)),
        decreases n - i,
    {
        assert(data@.take(i + 1).drop_last() =~= data@.take(i as int));
        state = step(kind, state, data[i]);
        i += 1;
    }
    assert(data@.take(n as int) =~= data@);
    state
}

} // verus!
