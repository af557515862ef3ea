//! The library's trusted boundary: thin wrappers around outside crates.
//! Each wrapper's contract states only what the wrapped function's source
//! or documentation shows; nothing here is checked by the verifier.

use vstd::prelude::*;
use rand::RngExt;

verus! {

/// Relies on rand's `RngExt::random_range` over `rand::rng()`: a value
/// uniformly drawn from the given range; nothing is assumed beyond the
/// bounds of that (constant, non-empty) range.
#[verifier::external_body]
pub(crate) fn radial_jitter() -> (r: i64)
    ensures
        -20_000 <= r <= 20_000,
{
    rand::rng().random_range(-20_000i64..=20_000i64)
}

/// What `str::to_lowercase` returns: a function of the characters alone.
pub uninterp spec fn lower_of(s: Seq<char>) -> Seq<char>;

/// Relies on `str::to_lowercase`: the result depends on the characters
/// alone, and an empty string stays empty.
#[verifier::external_body]
pub(crate) fn lowercase(s: &str) -> (r: String)
    ensures
        r@ == lower_of(s@),
        s@.len() == 0 ==> r@.len() == 0,
{
    s.to_lowercase()
}

/// What `str::to_uppercase` returns: a function of the characters alone.
pub uninterp spec fn upper_of(s: Seq<char>) -> Seq<char>;

/// Relies on `str::to_uppercase`: the result depends on the characters
/// alone, and an empty string stays empty.
#[verifier::external_body]
pub(crate) fn uppercase(s: &str) -> (r: String)
    ensures
        r@ == upper_of(s@),
        s@.len() == 0 ==> r@.len() == 0,
{
    s.to_uppercase()
}

/// What `char::is_alphabetic` answers: a predicate on the character alone.
pub uninterp spec fn is_alpha(c: char) -> bool;

/// Relies on `char::is_alphabetic`.
#[verifier::external_body]
pub(crate) fn char_is_alphabetic(c: char) -> (r: bool)
    ensures
        r == is_alpha(c),
{
    c.is_alphabetic()
}

/// The `%Y-%m-%d` rendering of a Unix timestamp, as chrono formats it: a
/// function of the seconds alone.
pub uninterp spec fn date_label_of(secs: int) -> Seq<char>;

/// Relies on chrono's `DateTime::from_timestamp` and `format`: `None` only
/// outside chrono's datetime range, which contains at least the years 1970
/// through 9999.
#[verifier::external_body]
pub(crate) fn date_label(secs: i64) -> (r: Option<String>)
    ensures
        r is Some ==> r->0@ == date_label_of(secs as int),
        0 <= secs <= 253_402_300_799 ==> r is Some,
{
    chrono::DateTime::from_timestamp(secs, 0).map(|d| d.format("%Y-%m-%d").to_string())
}

/// The `%Y-%m-%d %H:%M` rendering of a Unix timestamp, as chrono formats
/// it: a function of the seconds alone.
pub uninterp spec fn datetime_label_of(secs: int) -> Seq<char>;

/// Relies on chrono's `DateTime::from_timestamp` and `format`, as
/// `date_label` does, with the minute-resolution format.
#[verifier::external_body]
pub(crate) fn datetime_label(secs: i64) -> (r: Option<String>)
    ensures
        r is Some ==> r->0@ == datetime_label_of(secs as int),
        0 <= secs <= 253_402_300_799 ==> r is Some,
{
    chrono::DateTime::from_timestamp(secs, 0).map(|d| d.format("%Y-%m-%d %H:%M").to_string())
}

/// The SHA-256 digest of a byte sequence: a function of the bytes alone.
pub uninterp spec fn sha256_of(data: Seq<u8>) -> Seq<u8>;

/// Relies on sha2's `Sha256::digest`: a 32-byte digest of the input alone.
#[verifier::external_body]
pub(crate) fn sha256(data: &Vec<u8>) -> (r: Vec<u8>)
    ensures
        r@ == sha256_of(data@),
        r@.len() == 32,
{
    let digest = <sha2::Sha256 as sha2::Digest>::digest(data.as_slice());
    digest.to_vec()
}

/// Relies on hex's `encode`: each input byte becomes two lowercase hex
/// digits, high nibble first, in input order.
#[verifier::external_body]
pub(crate) fn hex_encode(data: &Vec<u8>) -> (r: String)
    ensures
        r@ == crate::strutil::hex_of(data@),
{
    hex::encode(data.as_slice())
}

} // verus!
