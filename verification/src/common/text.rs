//! Single characters as text.

use vstd::prelude::*;
use vstd::string::*;

verus! {

/// The text that consists of one character.
///
/// Trusted: calls `String::from(char)`, which std documents as allocating
/// an owned string from a single character.
#[verifier::external_body]
pub(crate) fn char_to_string(c: char) -> (text: String)
    ensures
        text@ == seq![c],
{
    String::from(c)
}

/// The first character of a text, if it has one.
pub fn first_char(text: &str) -> (first: Option<char>)
    ensures
        first == if text@.len() > 0 {
            Some(text@[0])
        } else {
            None
        },
{
    if text.unicode_len() > 0 {
        Some(text.get_char(0))
    } else {
        None
    }
}

} // verus!
