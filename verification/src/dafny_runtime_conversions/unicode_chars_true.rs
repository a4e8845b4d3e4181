//! Text as strings of Unicode scalar values.

use vstd::prelude::*;
use crate::chars::DafnyString;
use crate::text::wrap_chars;
use crate::text::unwrap_chars;
use crate::text::push_char;
use crate::text::string_of;

verus! {

/// The string of the Unicode scalar values of `s`.
pub fn string_to_dafny_string(s: &str) -> (r: DafnyString)
    ensures
        r@ == wrap_chars(s@),
{
    string_of(s)
}

/// The text whose characters are those of `s`.
pub fn dafny_string_to_string(s: &DafnyString) -> (r: String)
    ensures
        r@ == unwrap_chars(s@),
{
    let characters = s.to_array();
    let mut result = String::new();
    let mut i: usize = 0;
    while i < characters.len()
        invariant
            characters@ == s@,
            i <= characters@.len(),
            result@ == unwrap_chars(s@.take(i as int)),
        decreases characters@.len() - i,
    {
        push_char(&mut result, characters[i].0);
        i += 1;
    }
    result
}

} // verus!
