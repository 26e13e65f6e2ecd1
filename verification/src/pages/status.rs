//! The status line a page shows after it acted.

use vstd::prelude::*;
use crate::text::{chars_of, concat_chars, text_of};

verus! {

/// The status line after a failure: the error after a fixed prefix.
pub open spec fn error_text(e: Seq<char>) -> Seq<char> {
    "Ошибка: "@ + e
}

pub fn error_status(e: &str) -> (s: String)
    ensures
        s@ == error_text(e@),
{
    text_of(&concat_chars(&chars_of("Ошибка: "), &chars_of(e)))
}

/// The status line after a success: a check mark, then what was done.
pub open spec fn done_text(what: Seq<char>) -> Seq<char> {
    "✓ "@ + what
}

pub fn done_status(what: &Vec<char>) -> (s: String)
    ensures
        s@ == done_text(what@),
{
    text_of(&concat_chars(&chars_of("✓ "), what))
}

} // verus!
