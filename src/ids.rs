//! Identifiers that the store mints itself (invoice line items only).

use vstd::prelude::*;

verus! {

/// A character of the URL-safe alphabet: ASCII letters, digits, `_` and `-`.
pub open spec fn url_safe_char(c: char) -> bool {
    ('a' <= c && c <= 'z') || ('A' <= c && c <= 'Z') || ('0' <= c && c <= '9') || c == '_' || c
        == '-'
}

/// An opaque line-item identifier: 21 URL-safe characters.
pub open spec fn is_minted_id(s: Seq<char>) -> bool {
    s.len() == 21 && forall|i: int| 0 <= i < s.len() ==> url_safe_char(#[trigger] s[i])
}

/// Relies on `nanoid::format` with `nanoid::rngs::default` (random bytes from
/// an entropy-seeded `StdRng`) and the 64-character `nanoid::alphabet::SAFE`:
/// it returns `size` characters (here 21), each taken from the alphabet. Nothing is
/// promised about which ones: two calls may even agree. Seeding panics
/// only when the operating system cannot supply entropy, which no argument
/// decides.
#[verifier::external_body]
pub(crate) fn mint_id() -> (r: String)
    ensures
        is_minted_id(r@),
{
    nanoid::format(nanoid::rngs::default, &nanoid::alphabet::SAFE, 21)
}

} // verus!
