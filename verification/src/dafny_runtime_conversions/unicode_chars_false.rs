//! Text as strings of UTF-16 code units.

use vstd::prelude::*;
use crate::chars::DafnyStringUTF16;
use crate::text::utf16_of;
use crate::text::utf16_lossy;
use crate::text::wrap_units;
use crate::text::unwrap_units;
use crate::text::decode_utf16_lossy;
use crate::text::string_utf16_of;

verus! {

/// The string of the UTF-16 code units of `s`.
pub fn string_to_dafny_string(s: &str) -> (r: DafnyStringUTF16)
    ensures
        r@ == wrap_units(utf16_of(s@)),
{
    string_utf16_of(s)
}

/// The text that the code units of `s` encode, with U+FFFD in place of
/// each unit that encodes nothing.
pub fn dafny_string_to_string(s: &DafnyStringUTF16) -> (r: String)
    ensures
        r@ == utf16_lossy(unwrap_units(s@)),
{
    let array = s.to_array();
    let mut characters: Vec<u16> = Vec::with_capacity(array.len());
    let mut i: usize = 0;
    while i < array.len()
        invariant
            array@ == s@,
            i <= array@.len(),
            characters@ == unwrap_units(s@.take(i as int)),
        decreases array@.len() - i,
    {
        characters.push(array[i].0);
        i += 1;
    }
    proof {
        assert(s@.take(s@.len() as int) =~= s@);
    }
    decode_utf16_lossy(&characters)
}

} // verus!
