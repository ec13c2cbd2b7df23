//! Confirmation tokens: the one-time credential that travels in the
//! confirmation link.

use vstd::prelude::*;

verus! {

/// The number of characters in a confirmation token.
pub const TOKEN_LENGTH: usize = 25;

/// The ASCII letters and digits.
pub open spec fn is_alphanumeric(c: char) -> bool {
    ||| 'A' <= c <= 'Z'
    ||| 'a' <= c <= 'z'
    ||| '0' <= c <= '9'
}

/// The shape of every generated token: 25 characters, each an ASCII letter
/// or digit, so that it can stand in a URL as it is.
pub open spec fn is_subscription_token(token: Seq<char>) -> bool {
    &&& token.len() == TOKEN_LENGTH
    &&& forall|i: int| 0 <= i < token.len() ==> is_alphanumeric(#[trigger] token[i])
}

/// Calls `rand::distr::Alphanumeric.sample_string` on the thread-local
/// generator `rand::rng()`.
///
/// Believed, not proved: the string has `length` characters and each is an
/// ASCII letter or digit. Which ones is left to chance, so nothing more is
/// said, and two calls need not agree. The length is kept small so that the
/// string can always be allocated; the call does not return if the
/// operating system gives the generator no entropy.
#[verifier::external_body]
fn sample_alphanumeric(length: usize) -> (sample: String)
    requires
        length <= 65535,
    ensures
        sample@.len() == length,
        forall|i: int| 0 <= i < sample@.len() ==> is_alphanumeric(#[trigger] sample@[i]),
{
    rand::distr::SampleString::sample_string(&rand::distr::Alphanumeric, &mut rand::rng(), length)
}

/// A fresh confirmation token, drawn at random.
pub fn generate_subscription_token() -> (token: String)
    ensures
        is_subscription_token(token@),
{
    sample_alphanumeric(TOKEN_LENGTH)
}

} // verus!
