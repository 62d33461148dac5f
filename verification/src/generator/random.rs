//! Random draws used by the generators.
use vstd::prelude::*;
use rand::Rng;
use rand::seq::SliceRandom;

verus! {

/// A uniformly random integer in `low..high`.
///
/// Trusted: `rand::Rng::gen_range` on the thread-local generator returns a
/// value of the half-open range (it panics only on an empty range, which
/// `requires` excludes).  Which value comes out is left to chance.
#[verifier::external_body]
pub fn random_range(low: u64, high: u64) -> (r: u64)
    requires
        low < high,
    ensures
        low <= r < high,
{
    rand::thread_rng().gen_range(low..high)
}

/// Puts the elements of a vector in a random order.
///
/// Trusted: `rand::seq::SliceRandom::shuffle` permutes the slice in place, so
/// the same elements stay, each as often as before; the order is left to
/// chance.
#[verifier::external_body]
pub fn shuffle<T>(v: &mut Vec<T>)
    ensures
        final(v)@.to_multiset() == old(v)@.to_multiset(),
{
    v.shuffle(&mut rand::thread_rng());
}

/// ASCII letters and digits.
pub open spec fn is_ascii_alphanumeric(c: char) -> bool {
    ('a' <= c && c <= 'z') || ('A' <= c && c <= 'Z') || ('0' <= c && c <= '9')
}

/// A random ASCII letter or digit.
///
/// Trusted: sampling `rand::distributions::Alphanumeric` on the thread-local
/// generator yields a byte of `A-Z`, `a-z` or `0-9`, taken here as a `char`;
/// which one is left to chance.
#[verifier::external_body]
pub fn random_alphanumeric() -> (c: char)
    ensures
        is_ascii_alphanumeric(c),
{
    char::from(rand::thread_rng().sample(rand::distributions::Alphanumeric))
}

} // verus!
