//! The VALUE column of the variables table.

use vstd::prelude::*;

use crate::deployments::{first_line_or_empty, first_line_or_empty_chars, truncate_chars, truncate_text};
use crate::text::{chars_of, trim, trim_chars};

verus! {

/// Longest variable value shown.
pub const VALUE_MAX: usize = 100;

/// A value as shown: its first line, trimmed, shortened to [`VALUE_MAX`].
pub open spec fn truncate_value_text(s: Seq<char>) -> Seq<char> {
    truncate_text(trim(first_line_or_empty(s)), VALUE_MAX as nat)
}

/// The shown form of a variable value.
pub fn truncate_value(s: &str) -> (r: String)
    ensures
        r@ == truncate_value_text(s@),
{
    let cs = chars_of(s);
    let line = first_line_or_empty_chars(cs.as_slice());
    let t = trim_chars(line.as_slice());
    truncate_chars(t.as_slice(), VALUE_MAX)
}

} // verus!
