//! Fresh identifiers.
use vstd::prelude::*;

verus! {

/// Whether `c` is a digit or an upper-case ASCII letter, the alphabet of
/// the canonical textual form of a SCRU128 identifier.
pub open spec fn is_base36_upper(c: char) -> bool {
    ('0' <= c && c <= '9') || ('A' <= c && c <= 'Z')
}

/// Whether `s` has the shape of a canonical SCRU128 identifier: 25 digits or
/// upper-case letters.
pub open spec fn is_scru128_text(s: Seq<char>) -> bool {
    s.len() == 25 && forall|i: int| 0 <= i < s.len() ==> #[trigger] is_base36_upper(s[i])
}

/// Calls `scru128::new_string`, which returns a new identifier in its
/// 25-digit canonical string form (digits and upper-case letters, as the
/// crate's documentation and its encoder show). Which identifier comes back
/// depends on the clock and on randomness and is not stated.
#[verifier::external_body]
pub(crate) fn new_id() -> (id: String)
    ensures
        is_scru128_text(id@),
{
    scru128::new_string()
}

/// A canonical identifier is ASCII.
pub proof fn lemma_scru128_is_ascii(s: Seq<char>)
    requires
        is_scru128_text(s),
    ensures
        vstd::utf8::is_ascii_chars(s),
{
    assert forall|i: int| 0 <= i < s.len() implies '\0' <= #[trigger] s[i] <= '\u{7f}' by {
        assert(is_base36_upper(s[i]));
    }
}

} // verus!
