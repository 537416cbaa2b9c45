//! The opaque 64-bit identity value.

use vstd::prelude::*;

use crate::hash::fnv1a_str;
use crate::hash::hash_str;

verus! {

/// A unique identifier generated by hashing a globally unique string key.
///
/// Two identities are equal exactly when their raw 64-bit values are equal;
/// the value carries no provenance.
#[derive(Debug, Clone, Copy, PartialEq, Eq, PartialOrd, Ord, Hash, Structural)]
pub struct ConstId {
    id: u64,
}

impl View for ConstId {
    type V = u64;

    closed spec fn view(&self) -> u64 {
        self.id
    }
}

impl ConstId {
    /// Builds a new id from a raw `value`, bypassing the hash.
    ///
    /// Callers taking this path are themselves responsible for avoiding
    /// collisions with generated ids.
    pub fn from_raw(value: u64) -> (r: Self)
        ensures
            r@ == value,
    {
        Self { id: value }
    }

    /// Generates a new id by hashing a `unique_str`.
    ///
    /// The caller must pass a key that is globally unique for the entity being
    /// identified; the library cannot check this and a reused key silently
    /// yields a colliding id.
    pub fn generate(unique_str: &str) -> (r: Self)
        ensures
            r@ == fnv1a_str(unique_str@),
    {
        Self { id: hash_str(unique_str) }
    }

    /// Returns the inner raw value used in this id.
    pub fn raw_value(&self) -> (r: u64)
        ensures
            r == self@,
    {
        self.id
    }
}

/// Generating an id is a pure function of the key: two calls of
/// [`ConstId::generate`] on equal keys return equal ids.
pub proof fn lemma_generate_pure(s1: Seq<char>, s2: Seq<char>)
    requires
        s1 == s2,
    ensures
        fnv1a_str(s1) == fnv1a_str(s2),
{
}

/// Marks a type as carrying an identity available ahead of time.
///
/// Every implementation must return an id generated from a key that is unique
/// to the implementing type (for example its fully qualified path); two
/// implementations must never share an id.
pub trait ConstIdentify {
    /// The identity assigned to this type.
    fn const_id() -> ConstId;
}

} // verus!
