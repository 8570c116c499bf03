//! Values as text. The text of a float is left to whoever prints it: the library hands
//! out the float's bits between the pieces of text around it.

use vstd::prelude::*;
use vstd::string::StringExecFns;
use crate::errors::err::{LanguloErr, VmError};
use crate::text::push_char;
use crate::word::conversions::bits_int;
use crate::word::heap::{float_in, option_in, str_in, table_in, Cell, Heap};
use crate::word::structure::{ValueTag, Word};
use crate::word::table::Table;

verus! {

/// A piece of the text of a value.
#[derive(Debug, PartialEq, Eq)]
pub enum Fragment {
    Text(String),
    /// A float, as its bits.
    Float(u64),
}

/// A piece of the text of a value, as a mathematical value.
pub enum Piece {
    Text(Seq<char>),
    Float(u64),
}

impl View for Fragment {
    type V = Piece;

    open spec fn view(&self) -> Piece {
        match *self {
            Fragment::Text(text) => Piece::Text(text@),
            Fragment::Float(bits) => Piece::Float(bits),
        }
    }
}

/// The pieces of fragments.
pub open spec fn pieces(fragments: Seq<Fragment>) -> Seq<Piece> {
    Seq::new(fragments.len(), |i: int| fragments[i]@)
}

/// The character of a decimal digit.
pub open spec fn digit_char(digit: int) -> char {
    (('0' as int + digit) as u8) as char
}

/// The decimal digits of a natural number, without leading zeros.
pub open spec fn digits_of(n: nat) -> Seq<char>
    decreases n,
{
    if n < 10 {
        seq![digit_char(n as int)]
    } else {
        digits_of(n / 10).push(digit_char((n % 10) as int))
    }
}

/// An integer in decimal notation.
pub open spec fn decimal_text(value: int) -> Seq<char> {
    if value < 0 {
        seq!['-'] + digits_of((-value) as nat)
    } else {
        digits_of(value as nat)
    }
}

pub open spec fn bool_text(value: bool) -> Seq<char> {
    if value {
        seq!['t', 'r', 'u', 'e']
    } else {
        seq!['f', 'a', 'l', 's', 'e']
    }
}

/// The text of a value as pieces: integers in decimal, booleans as `true` and `false`,
/// a character as itself, a float as its bits, a string between double quotes, a table
/// between square brackets with `key: value` for each pair, an option as its value and a
/// question mark or as `no`, and the sentinels as `no` and `_`.
///
/// `fuel` bounds how deep tables and options may nest; a value that nests deeper, as one
/// that holds itself does, has no text.
pub open spec fn rendered(heap: Seq<Cell>, word: Word, fuel: nat) -> Result<Seq<Piece>, VmError>
    decreases fuel, 0int, 0int,
{
    let tag = word@.tag;
    if tag == ValueTag::Int.code() {
        Ok(seq![Piece::Text(decimal_text(bits_int(word@.payload as u32) as int))])
    } else if tag == ValueTag::Bool.code() {
        Ok(seq![Piece::Text(bool_text(word@.payload == 1))])
    } else if tag == ValueTag::Char.code() {
        Ok(seq![Piece::Text(seq![((word@.payload % 256) as u8) as char])])
    } else if tag == ValueTag::Special.code() {
        Ok(seq![Piece::Text(if word@.payload == 1 { seq!['n', 'o'] } else { seq!['_'] })])
    } else if tag == ValueTag::FloatPtr.code() {
        match float_in(heap, word) {
            Some(bits) => Ok(seq![Piece::Float(bits)]),
            None => Err(VmError::BadAddress),
        }
    } else if tag == ValueTag::StrPtr.code() {
        match str_in(heap, word) {
            Some(text) => Ok(seq![Piece::Text(seq!['"'] + text + seq!['"'])]),
            None => Err(VmError::BadAddress),
        }
    } else if tag == ValueTag::OptionPtr.code() {
        match option_in(heap, word) {
            Some(Some(inner)) => if fuel == 0 {
                Err(VmError::BadAddress)
            } else {
                match rendered(heap, inner, (fuel - 1) as nat) {
                    Ok(text) => Ok(text.push(Piece::Text(seq!['?']))),
                    Err(e) => Err(e),
                }
            },
            Some(None) => Ok(seq![Piece::Text(seq!['n', 'o'])]),
            None => Err(VmError::BadAddress),
        }
    } else if tag == ValueTag::TablePtr.code() {
        match table_in(heap, word) {
            Some(pairs) => if fuel == 0 {
                Err(VmError::BadAddress)
            } else {
                match rendered_pairs(heap, pairs, 0, (fuel - 1) as nat) {
                    Ok(text) => Ok(seq![Piece::Text(seq!['['])] + text + seq![Piece::Text(seq![']'])]),
                    Err(e) => Err(e),
                }
            },
            None => Err(VmError::BadAddress),
        }
    } else {
        Err(VmError::BadOperand)
    }
}

/// The text of the pairs of a table from index `from` on.
pub open spec fn rendered_pairs(heap: Seq<Cell>, pairs: Seq<(Word, Word)>, from: int, fuel: nat) -> Result<
    Seq<Piece>,
    VmError,
>
    decreases fuel, 1int, pairs.len() - from,
{
    if 0 <= from < pairs.len() {
        match rendered(heap, pairs[from].0, fuel) {
            Ok(key) => match rendered(heap, pairs[from].1, fuel) {
                Ok(value) => match rendered_pairs(heap, pairs, from + 1, fuel) {
                    Ok(rest) => Ok(key + seq![Piece::Text(seq![':', ' '])] + value + rest),
                    Err(e) => Err(e),
                },
                Err(e) => Err(e),
            },
            Err(e) => Err(e),
        }
    } else {
        Ok(Seq::empty())
    }
}

/// The string of the given characters.
fn string_of(chars: &Vec<char>) -> (text: String)
    ensures
        text@ == chars@,
{
    let mut text = String::new();
    let mut i: usize = 0;
    while i < chars.len()
        invariant
            i <= chars@.len(),
            text@ == chars@.take(i as int),
        decreases chars@.len() - i,
    {
        push_char(&mut text, chars[i]);
        proof {
            assert(chars@.take(i as int).push(chars@[i as int]) =~= chars@.take(i + 1));
        }
        i += 1;
    }
    proof {
        assert(chars@.take(i as int) =~= chars@);
    }
    text
}

/// The decimal digits of `n`.
fn digits(n: u32) -> (out: Vec<char>)
    ensures
        out@ == digits_of(n as nat),
    decreases n,
{
    let last: char = (48u8 + (n % 10) as u8) as char;
    if n < 10 {
        let mut out: Vec<char> = Vec::new();
        out.push(last);
        proof {
            assert(out@ =~= seq![digit_char(n as int)]);
        }
        out
    } else {
        let mut out = digits(n / 10);
        out.push(last);
        out
    }
}

/// An integer in decimal notation.
pub fn decimal(value: i32) -> (text: String)
    ensures
        text@ == decimal_text(value as int),
{
    if value < 0 {
        let magnitude: u32 = (-(value as i64)) as u32;
        let tail = digits(magnitude);
        let mut chars: Vec<char> = Vec::new();
        chars.push('-');
        let mut i: usize = 0;
        while i < tail.len()
            invariant
                i <= tail@.len(),
                chars@ == seq!['-'] + tail@.take(i as int),
            decreases tail@.len() - i,
        {
            chars.push(tail[i]);
            proof {
                assert(chars@ =~= seq!['-'] + tail@.take(i + 1));
            }
            i += 1;
        }
        proof {
            assert(tail@.take(i as int) =~= tail@);
        }
        string_of(&chars)
    } else {
        let chars = digits(value as u32);
        string_of(&chars)
    }
}

fn text_fragment(chars: Vec<char>) -> (fragment: Fragment)
    ensures
        fragment@ == Piece::Text(chars@),
{
    Fragment::Text(string_of(&chars))
}

/// Appends `more` to `out`.
fn append(out: &mut Vec<Fragment>, more: Vec<Fragment>)
    ensures
        pieces(final(out)@) == pieces(old(out)@) + pieces(more@),
{
    let mut more = more;
    let ghost before = out@;
    let ghost added = more@;
    out.append(&mut more);
    proof {
        assert(pieces(out@) =~= pieces(before) + pieces(added));
    }
}

fn push_piece(out: &mut Vec<Fragment>, fragment: Fragment)
    ensures
        pieces(final(out)@) == pieces(old(out)@).push(fragment@),
{
    out.push(fragment);
    proof {
        assert(pieces(out@) =~= pieces(old(out)@).push(fragment@));
    }
}

impl Heap {
    /// The text of the pairs of a table.
    fn render_pairs(&self, table: &Table, fuel: usize) -> (result: Result<Vec<Fragment>, VmError>)
        ensures
            match rendered_pairs(self@, table@, 0, fuel as nat) {
                Ok(text) => result is Ok && pieces(result.unwrap()@) == text,
                Err(e) => result == Err::<Vec<Fragment>, VmError>(e),
            },
        decreases fuel, 1int,
    {
        let entries = table.pairs();
        let n = entries.len();
        // the text of the pairs from `i` on is put together from the last pair down
        let mut out: Vec<Fragment> = Vec::new();
        let mut i: usize = n;
        proof {
            assert(pieces(out@) =~= Seq::<Piece>::empty());
        }
        let mut failed: Option<VmError> = None;
        while i > 0
            invariant
                i <= n,
                n == table@.len(),
                entries@ == table@,
                match rendered_pairs(self@, table@, i as int, fuel as nat) {
                    Ok(text) => failed is None && pieces(out@) == text,
                    Err(e) => failed == Some(e),
                },
            decreases i,
        {
            i -= 1;
            let (key, value) = entries[i];
            let key_text = self.render_fuel(key, fuel);
            let value_text = self.render_fuel(value, fuel);
            match (key_text, value_text, failed) {
                (Ok(key_text), Ok(value_text), None) => {
                    let mut pair: Vec<Fragment> = key_text;
                    let mut colon: Vec<char> = Vec::new();
                    colon.push(':');
                    colon.push(' ');
                    proof {
                        assert(colon@ =~= seq![':', ' ']);
                    }
                    let ghost k = pieces(pair@);
                    push_piece(&mut pair, text_fragment(colon));
                    append(&mut pair, value_text);
                    append(&mut pair, out);
                    proof {
                        assert(k.push(Piece::Text(seq![':', ' '])) =~= k + seq![
                            Piece::Text(seq![':', ' ']),
                        ]);
                    }
                    out = pair;
                },
                (Err(e), _, _) => {
                    failed = Some(e);
                },
                (Ok(_), Err(e), _) => {
                    failed = Some(e);
                },
                (Ok(_), Ok(_), Some(e)) => {},
            }
        }
        match failed {
            None => Ok(out),
            Some(e) => Err(e),
        }
    }

    /// The text of the value of `word`, where tables and options nest no deeper than
    /// `fuel`.
    pub fn render_fuel(&self, word: Word, fuel: usize) -> (result: Result<Vec<Fragment>, VmError>)
        ensures
            match rendered(self@, word, fuel as nat) {
                Ok(text) => result is Ok && pieces(result.unwrap()@) == text,
                Err(e) => result == Err::<Vec<Fragment>, VmError>(e),
            },
        decreases fuel, 0int,
    {
        let tag = word.0 & 0xF;
        let mut out: Vec<Fragment> = Vec::new();
        proof {
            assert(pieces(out@) =~= Seq::<Piece>::empty());
        }
        if tag == 0 {
            push_piece(&mut out, Fragment::Text(decimal(word.to_int())));
        } else if tag == 1 {
            let mut chars: Vec<char> = Vec::new();
            if word.to_bool() {
                chars.push('t');
                chars.push('r');
                chars.push('u');
                chars.push('e');
            } else {
                chars.push('f');
                chars.push('a');
                chars.push('l');
                chars.push('s');
                chars.push('e');
            }
            proof {
                assert(chars@ =~= bool_text(word@.payload == 1));
            }
            push_piece(&mut out, text_fragment(chars));
        } else if tag == 2 {
            let mut chars: Vec<char> = Vec::new();
            chars.push(word.to_char());
            proof {
                assert(chars@ =~= seq![((word@.payload % 256) as u8) as char]);
            }
            push_piece(&mut out, text_fragment(chars));
        } else if tag == 8 {
            let mut chars: Vec<char> = Vec::new();
            if word.value() == 1 {
                chars.push('n');
                chars.push('o');
                proof {
                    assert(chars@ =~= seq!['n', 'o']);
                }
            } else {
                chars.push('_');
                proof {
                    assert(chars@ =~= seq!['_']);
                }
            }
            push_piece(&mut out, text_fragment(chars));
        } else if tag == 4 {
            match self.float_of(word) {
                Some(bits) => {
                    push_piece(&mut out, Fragment::Float(bits));
                },
                None => {
                    return Err(VmError::BadAddress);
                },
            }
        } else if tag == 5 {
            match self.str_of(word) {
                Some(text) => {
                    let mut quoted = String::new();
                    push_char(&mut quoted, '"');
                    quoted.append(text);
                    push_char(&mut quoted, '"');
                    proof {
                        assert(quoted@ =~= seq!['"'] + text@ + seq!['"']);
                    }
                    push_piece(&mut out, Fragment::Text(quoted));
                },
                None => {
                    return Err(VmError::BadAddress);
                },
            }
        } else if tag == 7 {
            match self.option_of(word) {
                Some(Some(inner)) => {
                    if fuel == 0 {
                        return Err(VmError::BadAddress);
                    }
                    match self.render_fuel(inner, fuel - 1) {
                        Ok(text) => {
                            out = text;
                            let mut mark: Vec<char> = Vec::new();
                            mark.push('?');
                            proof {
                                assert(mark@ =~= seq!['?']);
                            }
                            push_piece(&mut out, text_fragment(mark));
                        },
                        Err(e) => {
                            return Err(e);
                        },
                    }
                },
                Some(None) => {
                    let mut chars: Vec<char> = Vec::new();
                    chars.push('n');
                    chars.push('o');
                    proof {
                        assert(chars@ =~= seq!['n', 'o']);
                    }
                    push_piece(&mut out, text_fragment(chars));
                },
                None => {
                    return Err(VmError::BadAddress);
                },
            }
        } else if tag == 6 {
            match self.table_of(word) {
                Some(table) => {
                    if fuel == 0 {
                        return Err(VmError::BadAddress);
                    }
                    match self.render_pairs(table, fuel - 1) {
                        Ok(text) => {
                            let mut open: Vec<char> = Vec::new();
                            open.push('[');
                            let mut close: Vec<char> = Vec::new();
                            close.push(']');
                            proof {
                                assert(open@ =~= seq!['[']);
                                assert(close@ =~= seq![']']);
                            }
                            push_piece(&mut out, text_fragment(open));
                            append(&mut out, text);
                            let ghost inner = pieces(out@);
                            push_piece(&mut out, text_fragment(close));
                            proof {
                                assert(inner.push(Piece::Text(seq![']'])) =~= inner + seq![
                                    Piece::Text(seq![']']),
                                ]);
                            }
                        },
                        Err(e) => {
                            return Err(e);
                        },
                    }
                },
                None => {
                    return Err(VmError::BadAddress);
                },
            }
        } else {
            return Err(VmError::BadOperand);
        }
        Ok(out)
    }

    /// The text of the value of `word`. A value that holds itself has no text.
    pub fn render(&self, word: Word) -> (result: Result<Vec<Fragment>, LanguloErr>)
        ensures
            match rendered(self@, word, self@.len()) {
                Ok(text) => result is Ok && pieces(result.unwrap()@) == text,
                Err(e) => result == Err::<Vec<Fragment>, LanguloErr>(LanguloErr::Vm(e)),
            },
    {
        match self.render_fuel(word, self.len()) {
            Ok(text) => Ok(text),
            Err(e) => Err(LanguloErr::Vm(e)),
        }
    }
}

} // verus!
