//! Fingerprints: the 128-bit digests that interned values are keyed by.
use siphasher::sip128::{Hasher128, SipHasher13};
use std::hash::Hash;
use vstd::prelude::*;

verus! {

/// The fingerprint of a piece of text: the 128-bit SipHash-1-3 digest, under
/// the all-zero key, of what `str`'s `Hash` impl writes for the text. It is
/// not claimed that different text has a different fingerprint.
pub uninterp spec fn str_fingerprint(text: Seq<char>) -> u128;

/// Runs `value`'s `Hash` impl into a fresh `siphasher::sip128::SipHasher13`
/// and packs `finish128()` with `Hash128::as_u128`. The digest is whatever
/// that impl makes of the value, so nothing is claimed of it.
#[verifier::external_body]
pub(crate) fn hash128<T: Hash>(value: &T) -> (digest: u128) {
    let mut hasher = SipHasher13::new();
    value.hash(&mut hasher);
    hasher.finish128().as_u128()
}

/// [`hash128`] for text. `SipHasher13::new()` always starts from the same
/// key and `str` hashes by its bytes alone, so equal text gives an equal
/// digest: the digest is `str_fingerprint` of the text.
#[verifier::external_body]
pub(crate) fn hash128_str(text: &str) -> (digest: u128)
    ensures
        digest == str_fingerprint(text@),
{
    let mut hasher = SipHasher13::new();
    text.hash(&mut hasher);
    hasher.finish128().as_u128()
}

} // verus!
