//! Putting strings together, and taking them apart at white space.

use vstd::prelude::*;
use vstd::string::StrSliceExecFns;

verus! {

/// `String::push`: appends a character.
#[verifier::external_body]
pub(crate) fn push_char(text: &mut String, c: char)
    ensures
        final(text)@ == old(text)@.push(c),
{
    text.push(c)
}

/// Whether a character is white space.
pub open spec fn is_space(c: char) -> bool {
    let code = c as u32;
    ||| 0x09 <= code <= 0x0D
    ||| code == 0x20
    ||| code == 0x85
    ||| code == 0xA0
    ||| code == 0x1680
    ||| 0x2000 <= code <= 0x200A
    ||| code == 0x2028
    ||| code == 0x2029
    ||| code == 0x202F
    ||| code == 0x205F
    ||| code == 0x3000
}

/// The number of characters of white space that `text` has from `from` on.
pub open spec fn spaces_from(text: Seq<char>, from: int) -> int
    decreases text.len() - from,
{
    if 0 <= from < text.len() && is_space(text[from]) {
        1 + spaces_from(text, from + 1)
    } else {
        0
    }
}

/// The number of characters that are no white space that `text` has from `from` on.
pub open spec fn letters_from(text: Seq<char>, from: int) -> int
    decreases text.len() - from,
{
    if 0 <= from < text.len() && !is_space(text[from]) {
        1 + letters_from(text, from + 1)
    } else {
        0
    }
}

/// The first word of a text: what stands between the white space at its start and the
/// next white space. A text of white space has the empty word.
pub open spec fn spec_first_word(text: Seq<char>) -> Seq<char> {
    let start = spaces_from(text, 0);
    text.subrange(start, start + letters_from(text, start))
}

pub fn is_space_exec(c: char) -> (space: bool)
    ensures
        space == is_space(c),
{
    let code = c as u32;
    (0x09 <= code && code <= 0x0D) || code == 0x20 || code == 0x85 || code == 0xA0 || code
        == 0x1680 || (0x2000 <= code && code <= 0x200A) || code == 0x2028 || code == 0x2029
        || code == 0x202F || code == 0x205F || code == 0x3000
}

pub fn first_word(text: &str) -> (word: String)
    ensures
        word@ == spec_first_word(text@),
{
    let length = text.unicode_len();
    let mut start: usize = 0;
    while start < length && is_space_exec(text.get_char(start))
        invariant
            start <= length,
            length == text@.len(),
            spaces_from(text@, 0) == start + spaces_from(text@, start as int),
        decreases length - start,
    {
        start += 1;
    }
    let mut word = String::new();
    let mut end: usize = start;
    proof {
        assert(text@.subrange(start as int, start as int) =~= Seq::<char>::empty());
    }
    while end < length && !is_space_exec(text.get_char(end))
        invariant
            start <= end <= length,
            length == text@.len(),
            letters_from(text@, start as int) == (end - start) + letters_from(text@, end as int),
            word@ == text@.subrange(start as int, end as int),
        decreases length - end,
    {
        push_char(&mut word, text.get_char(end));
        proof {
            assert(text@.subrange(start as int, end as int).push(text@[end as int])
                =~= text@.subrange(start as int, end + 1));
        }
        end += 1;
    }
    word
}

} // verus!
