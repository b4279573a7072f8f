//! Fresh identifiers for users and for opaque tokens.

use vstd::prelude::*;

verus! {

/// The length of an identifier: 32 hexadecimal digits and 4 hyphens.
pub const IDENT_LEN: usize = 36;

/// Calls `uuid::Uuid::new_v4` and formats the result with `to_string`.
/// Trusted: the text has 36 characters. The 122 random bits come from the
/// operating system, so two calls are unrelated and nothing else is claimed.
#[verifier::external_body]
pub(crate) fn random_uuid() -> (id: String)
    ensures
        id@.len() == IDENT_LEN,
{
    uuid::Uuid::new_v4().to_string()
}

} // verus!
