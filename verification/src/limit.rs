//! The row cap, and the limit clause that is derived for a statement.
//!
//! A statement is forwarded to the database exactly as it was submitted. The
//! limit-augmented text computed here is a derived copy for whoever wants to
//! look at it; it is never what is sent, and the response is bounded by the
//! row cap on decoding alone.

use vstd::prelude::*;
use vstd::string::StringExecFns;
use crate::text::{contains_word, has_infix, lowercase_of, trim, trimmed};

verus! {

/// The most rows a response ever carries.
pub const MAX_ROWS: usize = 2000;

/// The word whose presence in a normalized statement counts as a limit.
pub open spec fn limit_word() -> Seq<char> {
    "limit"@
}

/// The clause appended to a normalized statement that has no limit.
pub open spec fn limit_clause() -> Seq<char> {
    " LIMIT 2000"@
}

/// A statement in normal form: the white space around it removed, then put
/// in lower case.
pub open spec fn normalized(sql: Seq<char>) -> Seq<char> {
    lowercase_of(trimmed(sql))
}

/// Whether a normalized statement already speaks of a limit: whether the
/// word occurs anywhere in it, be it as a clause, inside a name or in a
/// string.
pub open spec fn mentions_limit(text: Seq<char>) -> bool {
    has_infix(text, limit_word())
}

/// A normalized statement with the default limit clause appended, unless it
/// already speaks of a limit.
pub open spec fn with_limit(text: Seq<char>) -> Seq<char> {
    if mentions_limit(text) {
        text
    } else {
        text + limit_clause()
    }
}

/// The limit-augmented copy of a statement as submitted.
pub open spec fn limited(sql: Seq<char>) -> Seq<char> {
    with_limit(normalized(sql))
}

/// Puts a statement in normal form.
pub fn normalize(sql: &str) -> (out: String)
    ensures
        out@ == normalized(sql@),
{
    let bare = trim(sql);
    bare.as_str().to_lowercase()
}

/// Whether `text` speaks of a limit.
pub fn has_limit(text: &str) -> (found: bool)
    ensures
        found == mentions_limit(text@),
{
    contains_word(text, "limit")
}

/// Appends the default limit clause to a normalized statement that has none.
pub fn with_default_limit(text: String) -> (out: String)
    ensures
        out@ == with_limit(text@),
{
    if has_limit(text.as_str()) {
        text
    } else {
        text.concat(" LIMIT 2000")
    }
}

/// Derives the limit-augmented copy of a statement as submitted.
pub fn limited_copy(sql: &str) -> (out: String)
    ensures
        out@ == limited(sql@),
{
    with_default_limit(normalize(sql))
}

} // verus!
