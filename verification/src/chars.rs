//! Characters and strings: a string is a sequence of characters, either
//! Unicode scalar values or UTF-16 code units.

use vstd::prelude::*;
use vstd::std_specs::cmp::PartialEqSpecImpl;
use vstd::std_specs::cmp::PartialOrdSpecImpl;
use std::cmp::Ordering;
use crate::sequence::Sequence;

verus! {

/// A character that is one Unicode scalar value.
#[derive(Hash)]
pub struct DafnyChar(pub char);

/// A character that is one UTF-16 code unit.
#[derive(Hash)]
pub struct DafnyCharUTF16(pub u16);

/// A string of Unicode scalar values.
pub type DafnyString = Sequence<DafnyChar>;

/// A string of UTF-16 code units.
pub type DafnyStringUTF16 = Sequence<DafnyCharUTF16>;

/// The number of a character in Unicode.
pub open spec fn code_of(c: char) -> nat {
    c as nat
}

/// The number of a character in Unicode.
pub fn code_point(c: char) -> (r: u32)
    ensures
        r == code_of(c),
        r <= 0x10FFFF,
{
    c as u32
}

/// Whether `left` comes before `right` in Unicode.
pub fn char_lt(left: char, right: char) -> (r: bool)
    ensures
        r == (code_of(left) < code_of(right)),
{
    let left_code = code_point(left);
    let right_code = code_point(right);
    left_code < right_code
}

impl Clone for DafnyChar {
    fn clone(&self) -> (r: Self)
        ensures
            r == *self,
    {
        DafnyChar(self.0)
    }
}

impl PartialEq for DafnyChar {
    fn eq(&self, other: &DafnyChar) -> (r: bool) {
        self.0 == other.0
    }
}

impl PartialEqSpecImpl for DafnyChar {
    open spec fn obeys_eq_spec() -> bool {
        true
    }

    open spec fn eq_spec(&self, other: &DafnyChar) -> bool {
        self.0 == other.0
    }
}

impl Eq for DafnyChar {}

impl PartialOrd for DafnyChar {
    fn partial_cmp(&self, other: &DafnyChar) -> (r: Option<Ordering>) {
        let left = code_point(self.0);
        let right = code_point(other.0);
        if left < right {
            Some(Ordering::Less)
        } else if left == right {
            Some(Ordering::Equal)
        } else {
            Some(Ordering::Greater)
        }
    }
}

impl PartialOrdSpecImpl for DafnyChar {
    open spec fn obeys_partial_cmp_spec() -> bool {
        true
    }

    open spec fn partial_cmp_spec(&self, other: &DafnyChar) -> Option<Ordering> {
        if code_of(self.0) < code_of(other.0) {
            Some(Ordering::Less)
        } else if self.0 == other.0 {
            Some(Ordering::Equal)
        } else {
            Some(Ordering::Greater)
        }
    }
}

/// `char::from_u32`: the character with the number `code`, where there is
/// one. There is none for a surrogate and none beyond U+10FFFF.
#[verifier::external_body]
fn char_with_code(code: u32) -> (r: Option<char>)
    ensures
        r is Some <==> code < 0xD800 || 0xE000 <= code <= 0x10FFFF,
        r matches Some(c) ==> code_of(c) == code,
{
    char::from_u32(code)
}

impl DafnyCharUTF16 {
    /// The character that this code unit encodes by itself, or `None` for a
    /// surrogate, which encodes a character only as one of a pair.
    pub fn as_char(&self) -> (r: Option<char>)
        ensures
            r is Some <==> self.0 < 0xD800 || 0xE000 <= self.0,
            r matches Some(c) ==> code_of(c) == self.0,
    {
        char_with_code(self.0 as u32)
    }
}

impl Clone for DafnyCharUTF16 {
    fn clone(&self) -> (r: Self)
        ensures
            r == *self,
    {
        DafnyCharUTF16(self.0)
    }
}

impl PartialEq for DafnyCharUTF16 {
    fn eq(&self, other: &DafnyCharUTF16) -> (r: bool) {
        self.0 == other.0
    }
}

impl PartialEqSpecImpl for DafnyCharUTF16 {
    open spec fn obeys_eq_spec() -> bool {
        true
    }

    open spec fn eq_spec(&self, other: &DafnyCharUTF16) -> bool {
        self.0 == other.0
    }
}

impl Eq for DafnyCharUTF16 {}

impl PartialOrd for DafnyCharUTF16 {
    fn partial_cmp(&self, other: &DafnyCharUTF16) -> (r: Option<Ordering>) {
        if self.0 < other.0 {
            Some(Ordering::Less)
        } else if self.0 == other.0 {
            Some(Ordering::Equal)
        } else {
            Some(Ordering::Greater)
        }
    }
}

impl PartialOrdSpecImpl for DafnyCharUTF16 {
    open spec fn obeys_partial_cmp_spec() -> bool {
        true
    }

    open spec fn partial_cmp_spec(&self, other: &DafnyCharUTF16) -> Option<Ordering> {
        if self.0 < other.0 {
            Some(Ordering::Less)
        } else if self.0 == other.0 {
            Some(Ordering::Equal)
        } else {
            Some(Ordering::Greater)
        }
    }
}

} // verus!
