//! Addresses as keys of a hash map.

use vstd::prelude::*;

verus! {

/// The key of the address `(frame, slot)`: the frame identifier in the high
/// 64 bits, the slot identifier in the low 64 bits.
pub open spec fn key_of(addr: (u64, u64)) -> u128 {
    (addr.0 * 0x1_0000_0000_0000_0000 + addr.1) as u128
}

/// Two addresses with one key are one address.
pub proof fn lemma_key_injective(a: (u64, u64), b: (u64, u64))
    requires
        key_of(a) == key_of(b),
    ensures
        a == b,
{
}

/// Computes the key of an address.
pub fn key(frame: u64, slot: u64) -> (k: u128)
    ensures
        k == key_of((frame, slot)),
{
    let high: u128 = frame as u128;
    let low: u128 = slot as u128;
    high * 0x1_0000_0000_0000_0000u128 + low
}

} // verus!
