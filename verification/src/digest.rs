//! Digests of records, computed by the `xxhash_rust` crate.
//!
//! Nothing here is proved about the digests themselves: each function of
//! `xxhash_rust` is given a name for its result, and the filters state their
//! behaviour in terms of those names.

use std::hash::BuildHasherDefault;
use vstd::prelude::*;

verus! {

/// The standard library's `BuildHasherDefault`, which makes a hasher of the
/// type `H` by `H::default()`. The sets of digests name their hashers
/// through it.
#[verifier::external_type_specification]
#[verifier::external_body]
#[verifier::reject_recursive_types(H)]
pub struct ExBuildHasherDefault<H>(BuildHasherDefault<H>);

/// The XXH3 64-bit digest of `bytes`, with the default seed and secret.
pub uninterp spec fn xxh3_64_of(bytes: Seq<u8>) -> u64;

/// The XXH64 digest of `bytes` under `seed`.
pub uninterp spec fn xxh64_of(bytes: Seq<u8>, seed: u64) -> u64;

/// `xxhash_rust::xxh3::xxh3_64` hashes the whole input in one call. Its
/// result depends on the bytes alone, so it is named [`xxh3_64_of`].
pub assume_specification[ xxhash_rust::xxh3::xxh3_64 ](input: &[u8]) -> (digest: u64)
    ensures
        digest == xxh3_64_of(input@),
;

/// `xxhash_rust::xxh64::xxh64` hashes the whole input in one call. Its result
/// depends on the bytes and the seed alone, so it is named [`xxh64_of`].
pub assume_specification[ xxhash_rust::xxh64::xxh64 ](input: &[u8], seed: u64) -> (digest: u64)
    ensures
        digest == xxh64_of(input@, seed),
;

} // verus!
