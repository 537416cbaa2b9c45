//! The 64-bit FNV-1a hash primitive behind every identity.

use vstd::prelude::*;

verus! {

/// The 64-bit FNV-1a hash of a string, a function of its characters alone.
pub uninterp spec fn fnv1a_str(s: Seq<char>) -> u64;

/// The 64-bit FNV-1a hash of a byte sequence, a function of the bytes alone.
pub uninterp spec fn fnv1a_bytes(b: Seq<u8>) -> u64;

/// Relies on `const_fnv1a_hash::fnv1a_hash_str_64`: the 64-bit FNV-1a hash of
/// the string's UTF-8 bytes, a deterministic function of the string alone.
#[verifier::external_body]
pub(crate) fn hash_str(s: &str) -> (r: u64)
    ensures
        r == fnv1a_str(s@),
{
    const_fnv1a_hash::fnv1a_hash_str_64(s)
}

/// Relies on `const_fnv1a_hash::fnv1a_hash_64` called without a byte limit:
/// the 64-bit FNV-1a hash of the whole slice, a deterministic function of the
/// bytes alone.
#[verifier::external_body]
pub(crate) fn hash_bytes(b: &[u8]) -> (r: u64)
    ensures
        r == fnv1a_bytes(b@),
{
    const_fnv1a_hash::fnv1a_hash_64(b, None)
}

} // verus!
