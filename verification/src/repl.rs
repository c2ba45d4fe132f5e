//! Helpers for an interactive session: rendering the caret that points
//! at an error's column under an echoed line.

use vstd::prelude::*;
use crate::strutil::chars_to_string;

verus! {

/// A run of `n` spaces.
pub open spec fn spec_spaces(n: int) -> Seq<char>
    decreases n,
{
    if n <= 0 {
        Seq::<char>::empty()
    } else {
        spec_spaces(n - 1).push(' ')
    }
}

/// The caret line for an error column: spaces up to the column (offset
/// by the prompt's width), then a `^`.
pub open spec fn spec_caret(column: int, prompt_len: int) -> Seq<char> {
    spec_spaces(column + prompt_len - 1).push('^')
}

/// Builds the caret line pointing at `column`, shifted right by the
/// width of the prompt.
pub fn build_caret(column: &u32, prompt_len: &u32) -> (r: String)
    requires
        *column + *prompt_len >= 1,
    ensures
        r@ == spec_caret(*column as int, *prompt_len as int),
{
    let n: u64 = *column as u64 + *prompt_len as u64 - 1;
    let mut caret: Vec<char> = Vec::new();
    let mut j: u64 = 0;
    while j < n
        invariant
            j <= n,
            caret@ == spec_spaces(j as int),
        decreases n - j,
    {
        caret.push(' ');
        j = j + 1;
    }
    caret.push('^');
    chars_to_string(&caret)
}

} // verus!
