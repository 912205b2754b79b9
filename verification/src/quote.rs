//! Names quoted in messages.

use vstd::prelude::*;

verus! {

/// The text `s` in quotes, as a Rust program would write it down.
pub uninterp spec fn quoted(s: Seq<char>) -> Seq<char>;

/// Formats `s` with `core::fmt::Debug` for `str`. Believed of it: what comes
/// out depends on `s` alone. Not said: which characters are escaped, and how.
#[verifier::external_body]
pub(crate) fn quote(s: &str) -> (out: String)
    ensures
        out@ == quoted(s@),
{
    format!("{s:?}")
}

} // verus!
