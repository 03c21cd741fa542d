//! Small tests on text that the rules of the journal and of device
//! discovery are written with.

use vstd::prelude::*;

verus! {

/// Whether `c` is white space, as `char::is_whitespace` of the standard
/// library decides it.
pub uninterp spec fn is_white_space(c: char) -> bool;

/// Calls `char::is_whitespace`. The contract only gives the answer its
/// name; which characters count as white space is the standard library's
/// matter.
#[verifier::external_body]
fn char_is_white_space(c: char) -> (white: bool)
    ensures
        white == is_white_space(c),
{
    c.is_whitespace()
}

/// Whether `text` holds nothing but white space.
pub open spec fn blank(text: Seq<char>) -> bool {
    forall|i: int| 0 <= i < text.len() ==> is_white_space(#[trigger] text[i])
}

/// Whether the characters of `text` from `from` on are those of `part`.
pub open spec fn matches_at(text: Seq<char>, from: int, part: Seq<char>) -> bool {
    &&& 0 <= from
    &&& from + part.len() <= text.len()
    &&& text.subrange(from, from + part.len()) == part
}

/// Whether the characters of `text` from position `from` on are those of
/// `part`.
fn has_at(text: &str, from: usize, part: &str) -> (found: bool)
    requires
        from + part@.len() <= text@.len(),
    ensures
        found == matches_at(text@, from as int, part@),
{
    let len = text.unicode_len();
    let count = part.unicode_len();
    let mut i: usize = 0;
    while i < count
        invariant
            i <= count,
            count == part@.len(),
            len == text@.len(),
            from + count <= len,
            text@.subrange(from as int, from + i) == part@.subrange(0, i as int),
        decreases count - i,
    {
        if text.get_char(from + i) != part.get_char(i) {
            return false;
        }
        i += 1;
    }
    assert(part@.subrange(0, count as int) =~= part@);
    true
}

/// Whether `text` begins with `prefix`.
pub fn starts_with(text: &str, prefix: &str) -> (found: bool)
    ensures
        found == prefix@.is_prefix_of(text@),
{
    if prefix.unicode_len() > text.unicode_len() {
        false
    } else {
        has_at(text, 0, prefix)
    }
}

/// Whether `text` ends with `suffix`.
pub fn ends_with(text: &str, suffix: &str) -> (found: bool)
    ensures
        found == suffix@.is_suffix_of(text@),
{
    let len = text.unicode_len();
    let count = suffix.unicode_len();
    if count > len {
        false
    } else {
        has_at(text, len - count, suffix)
    }
}

/// Whether `text` is empty or holds only white space, so that nothing is
/// left of it once the white space at both ends is trimmed away.
pub fn is_blank(text: &str) -> (all_white: bool)
    ensures
        all_white == blank(text@),
{
    let len = text.unicode_len();
    let mut i: usize = 0;
    while i < len
        invariant
            i <= len,
            len == text@.len(),
            forall|k: int| 0 <= k < i ==> is_white_space(#[trigger] text@[k]),
        decreases len - i,
    {
        if !char_is_white_space(text.get_char(i)) {
            return false;
        }
        i += 1;
    }
    true
}

} // verus!
