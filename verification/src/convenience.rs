use vstd::prelude::*;

verus! {

/// The 64-bit hash std's default hasher gives a text. What the value is
/// is not restated here; every `DefaultHasher` made through `new` is
/// documented identical, so within one build the hash is a function of
/// the text alone.
pub uninterp spec fn hash_of(s: Seq<char>) -> u64;

/// Relies on std's `DefaultHasher` (`new`, `Hash::hash`, `finish`): the
/// 64-bit hash of a value under std's default hasher, a function of the
/// hashed text alone for a fixed build. The hash serves only as a lookup
/// key and a nonce.
#[verifier::external_body]
pub fn hash(x: &String) -> (r: u64)
    ensures
        r == hash_of(x@),
{
    let mut hasher = std::collections::hash_map::DefaultHasher::new();
    std::hash::Hash::hash(x, &mut hasher);
    std::hash::Hasher::finish(&hasher)
}

/// Run a fallible computation; the value is that `?` works inside the
/// closure handed in.
pub fn maybe<T, E, F: FnOnce() -> Result<T, E>>(f: F) -> (r: Result<T, E>)
    requires
        call_requires(f, ()),
    ensures
        call_ensures(f, (), r),
{
    f()
}

} // verus!
