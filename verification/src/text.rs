//! Turning text into strings of characters and back.

use vstd::prelude::*;
use crate::chars::DafnyChar;
use crate::chars::DafnyCharUTF16;
use crate::chars::DafnyString;
use crate::chars::DafnyStringUTF16;
use crate::chars::code_point;
use crate::chars::code_of;
use crate::sequence::Sequence;

verus! {

/// What `String::from_utf16_lossy` makes of the code units `units`: the text
/// they encode, with U+FFFD in place of each unit that encodes nothing.
pub uninterp spec fn utf16_lossy(units: Seq<u16>) -> Seq<char>;

/// `String::push`: the text with `c` added at its end.
#[verifier::external_body]
pub(crate) fn push_char(s: &mut String, c: char)
    ensures
        final(s)@ == old(s)@.push(c),
{
    s.push(c)
}

/// `String::from_utf16_lossy`, whose result goes by the name [`utf16_lossy`].
#[verifier::external_body]
pub(crate) fn decode_utf16_lossy(units: &Vec<u16>) -> (r: String)
    ensures
        r@ == utf16_lossy(units@),
{
    String::from_utf16_lossy(units)
}

/// The texts in `parts`, with `between` between each two neighbours.
pub open spec fn joined_with(parts: Seq<Seq<char>>, between: Seq<char>) -> Seq<char>
    decreases parts.len(),
{
    if parts.len() == 0 {
        Seq::empty()
    } else if parts.len() == 1 {
        parts[0]
    } else {
        joined_with(parts.drop_last(), between) + between + parts.last()
    }
}

/// What each of `strings` holds.
pub open spec fn texts_of(strings: Seq<String>) -> Seq<Seq<char>> {
    Seq::new(strings.len(), |i: int| strings[i]@)
}

/// One more part goes after the others, behind a separator unless it is the
/// first.
pub proof fn lemma_joined_with_push(parts: Seq<Seq<char>>, between: Seq<char>, part: Seq<char>)
    ensures
        joined_with(parts.push(part), between) == (if parts.len() == 0 {
            part
        } else {
            joined_with(parts, between) + between + part
        }),
{
    assert(parts.push(part).drop_last() =~= parts);
}

/// `", "`, which stands between the elements of a printed collection.
pub open spec fn comma() -> Seq<char> {
    seq![',', ' ']
}

/// `" := "`, which stands between a printed key and its value.
pub open spec fn becomes() -> Seq<char> {
    seq![' ', ':', '=', ' ']
}

/// The text of a sequence whose elements print as `parts`: the parts in a
/// row for a sequence of characters, and a list in square brackets for any
/// other.
pub open spec fn sequence_text(parts: Seq<Seq<char>>, bare: bool) -> Seq<char> {
    if bare {
        joined_with(parts, Seq::empty())
    } else {
        seq!['['] + joined_with(parts, comma()) + seq![']']
    }
}

/// The text of a set whose elements print as `parts`: a list in braces.
pub open spec fn set_text(parts: Seq<Seq<char>>) -> Seq<char> {
    seq!['{'] + joined_with(parts, comma()) + seq!['}']
}

/// The text of a multiset whose elements print as `parts`: a list in
/// braces after the word `multiset`.
pub open spec fn multiset_text(parts: Seq<Seq<char>>) -> Seq<char> {
    seq!['m', 'u', 'l', 't', 'i', 's', 'e', 't', '{'] + joined_with(parts, comma()) + seq!['}']
}

/// The texts of the entries whose keys print as `keys` and whose values
/// print as `values`.
pub open spec fn entry_texts(keys: Seq<Seq<char>>, values: Seq<Seq<char>>) -> Seq<Seq<char>> {
    Seq::new(keys.len(), |i: int| keys[i] + becomes() + values[i])
}

/// The text of a map whose entries print as `entries`: a list that opens
/// with `map[` and closes with a brace.
pub open spec fn map_text(entries: Seq<Seq<char>>) -> Seq<char> {
    seq!['m', 'a', 'p', '['] + joined_with(entries, comma()) + seq!['}']
}

/// Adds one more part to a list that is being printed, behind a separator
/// unless it is the first.
pub(crate) fn push_part(out: &mut String, part: &String, first: bool, separate: bool)
    ensures
        final(out)@ == old(out)@ + (if first || !separate {
            part@
        } else {
            comma() + part@
        }),
{
    if !first && separate {
        push_char(out, ',');
        push_char(out, ' ');
    }
    out.append(part.as_str());
}

/// Adds the texts of `parts` to `out`, with `", "` between each two
/// neighbours where `separate` is set.
pub(crate) fn push_joined(out: &mut String, parts: &Vec<String>, separate: bool)
    ensures
        final(out)@ == old(out)@ + joined_with(
            texts_of(parts@),
            if separate {
                comma()
            } else {
                Seq::<char>::empty()
            },
        ),
{
    let ghost start = out@;
    let ghost between = if separate {
        comma()
    } else {
        Seq::<char>::empty()
    };
    let mut i: usize = 0;
    while i < parts.len()
        invariant
            i <= parts@.len(),
            between == (if separate {
                comma()
            } else {
                Seq::<char>::empty()
            }),
            out@ == start + joined_with(texts_of(parts@.take(i as int)), between),
        decreases parts@.len() - i,
    {
        push_part(out, &parts[i], i == 0, separate);
        proof {
            assert(parts@.take(i + 1) =~= parts@.take(i as int).push(parts@[i as int]));
            lemma_texts_of_push(parts@.take(i as int), parts@[i as int]);
            lemma_joined_with_push(texts_of(parts@.take(i as int)), between, parts@[i as int]@);
        }
        i += 1;
    }
    proof {
        assert(parts@.take(parts@.len() as int) =~= parts@);
    }
}

/// One more string adds its text.
pub proof fn lemma_texts_of_push(strings: Seq<String>, more: String)
    ensures
        texts_of(strings.push(more)) == texts_of(strings).push(more@),
{
}

/// The UTF-16 code units of one character: itself where it is below
/// U+10000, else a high and a low surrogate that share its twenty bits.
pub open spec fn utf16_of_char(c: char) -> Seq<u16> {
    let code = code_of(c) as int;
    if code < 0x10000 {
        seq![code as u16]
    } else {
        seq![
            (0xD800 + (code - 0x10000) / 0x400) as u16,
            (0xDC00 + (code - 0x10000) % 0x400) as u16,
        ]
    }
}

/// The UTF-16 code units of a text, character after character.
pub open spec fn utf16_of(s: Seq<char>) -> Seq<u16>
    decreases s.len(),
{
    if s.len() == 0 {
        Seq::empty()
    } else {
        utf16_of(s.drop_last()) + utf16_of_char(s.last())
    }
}

/// The character `c`, wrapped.
pub open spec fn wrap_char(c: char) -> DafnyChar {
    DafnyChar(c)
}

/// The code unit `u`, wrapped.
pub open spec fn wrap_unit(u: u16) -> DafnyCharUTF16 {
    DafnyCharUTF16(u)
}

/// The characters of `s`, each wrapped.
pub open spec fn wrap_chars(s: Seq<char>) -> Seq<DafnyChar> {
    Seq::new(s.len(), |i: int| wrap_char(s[i]))
}

/// The characters of `s`, each unwrapped.
pub open spec fn unwrap_chars(s: Seq<DafnyChar>) -> Seq<char> {
    Seq::new(s.len(), |i: int| s[i].0)
}

/// The code units `s`, each wrapped.
pub open spec fn wrap_units(s: Seq<u16>) -> Seq<DafnyCharUTF16> {
    Seq::new(s.len(), |i: int| wrap_unit(s[i]))
}

/// The code units of `s`, each unwrapped.
pub open spec fn unwrap_units(s: Seq<DafnyCharUTF16>) -> Seq<u16> {
    Seq::new(s.len(), |i: int| s[i].0)
}

/// Wrapping goes through `push`.
proof fn lemma_wrap_chars_push(s: Seq<char>, c: char)
    ensures
        wrap_chars(s.push(c)) == wrap_chars(s).push(DafnyChar(c)),
{
}

/// The string of the Unicode scalar values of `s`.
pub fn string_of(s: &str) -> (r: DafnyString)
    ensures
        r@ == wrap_chars(s@),
{
    let mut result: Vec<DafnyChar> = Vec::new();
    for c in it: s.chars()
        invariant
            it.seq() == s@,
            result@ == wrap_chars(s@.take(it.index())),
            it.index() == it.seq().len() ==> result@ == wrap_chars(s@),
    {
        result.push(DafnyChar(c));
        proof {
            lemma_wrap_chars_push(s@.take(it.index()), c);
        }
    }
    Sequence::from_array_owned(result)
}

/// The string of the UTF-16 code units of `s`.
pub fn string_utf16_of(s: &str) -> (r: DafnyStringUTF16)
    ensures
        r@ == wrap_units(utf16_of(s@)),
{
    let mut result: Vec<DafnyCharUTF16> = Vec::new();
    for c in it: s.chars()
        invariant
            it.seq() == s@,
            result@ == wrap_units(utf16_of(s@.take(it.index()))),
            it.index() == it.seq().len() ==> result@ == wrap_units(utf16_of(s@)),
    {
        let code: u32 = code_point(c);
        if code < 0x10000 {
            result.push(DafnyCharUTF16(code as u16));
        } else {
            let rest: u32 = code - 0x10000;
            let high: u16 = (0xD800 + rest / 0x400) as u16;
            let low: u16 = (0xDC00 + rest % 0x400) as u16;
            result.push(DafnyCharUTF16(high));
            result.push(DafnyCharUTF16(low));
        }
        proof {
            assert(s@.take(it.index() + 1).drop_last() =~= s@.take(it.index()));
        }
    }
    Sequence::from_array_owned(result)
}

} // verus!
