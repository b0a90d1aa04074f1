//! Slot identifiers: the hash of the key that names a place in the source.

use core::hash::Hash;
use core::hash::Hasher;
use std::collections::hash_map::DefaultHasher;
use vstd::prelude::*;
use vstd::std_specs::hash::DefaultHasherAdditionalSpecFns;

verus! {

/// What hashing a string feeds to a hasher: the writes that `str`'s `Hash`
/// makes, each a sequence of bytes.
pub uninterp spec fn str_writes(key: Seq<char>) -> Seq<Seq<u8>>;

/// The slot identifier of a key: what a `DefaultHasher` that was just made
/// gives after the key was fed to it.
pub open spec fn slot_of(key: Seq<char>) -> u64 {
    DefaultHasher::spec_finish(str_writes(key))
}

/// `Hash::hash` of `str`: feeds the string to the hasher. The writes depend
/// on the string alone and come behind those made before.
#[verifier::external_body]
fn feed(key: &str, state: &mut DefaultHasher)
    ensures
        final(state)@ == old(state)@ + str_writes(key@),
{
    key.hash(state)
}

/// The slot identifier of a key, such as a variable's name or an operator.
///
/// One key has one slot identifier, in every frame and in every recorder.
pub fn hash(key: &str) -> (slot: u64)
    ensures
        slot == slot_of(key@),
{
    let mut state = DefaultHasher::new();
    feed(key, &mut state);
    assert(state@ =~= str_writes(key@));
    state.finish()
}

} // verus!
