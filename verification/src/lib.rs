//! Deterministic, compile-time-friendly type identities.
//!
//! A [`ConstId`] is an opaque ordered 64-bit identity generated by hashing a
//! globally unique key. A [`info::TypeInfo`] fingerprint describes one
//! concrete type instantiation (source location, name, nested fingerprints,
//! scalar parameters) and carries a memoized combining hash. Sorted and
//! unique collections of identities live in [`sort`].

pub mod hash;
pub mod id;
pub mod info;
pub mod sort;

pub use id::ConstId;
pub use id::ConstIdentify;
pub use sort::OrderedIdArray;
pub use sort::OrderedIdSlice;
pub use sort::UniqueIdArray;
pub use sort::UniqueIdSlice;
pub use sort::const_cmp;
pub use sort::const_sort;
