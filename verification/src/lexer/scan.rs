//! The scanner: from the text of a source to its tokens. At every place the token is the
//! longest that starts there; of two kinds of token of the same length, the keyword wins
//! over the identifier.

use vstd::prelude::*;
use vstd::string::StrSliceExecFns;
use crate::lexer::tok::Tok;
use crate::lexer::{Lexeme, Scanned};
use crate::text::{is_space, is_space_exec, push_char};

verus! {

broadcast use vstd::string::group_string_axioms;

/// The number of kinds of token.
pub const KINDS: usize = 65;

impl Tok {
    /// The kinds of token in the order in which the scanner tries them.
    pub open spec fn spec_at(index: int) -> Tok {
        if index == 0 {
            Tok::LParen
        } else if index == 1 {
            Tok::RParen
        } else if index == 2 {
            Tok::LBracket
        } else if index == 3 {
            Tok::RBracket
        } else if index == 4 {
            Tok::Colon
        } else if index == 5 {
            Tok::LBrace
        } else if index == 6 {
            Tok::RBrace
        } else if index == 7 {
            Tok::Comma
        } else if index == 8 {
            Tok::Semicolon
        } else if index == 9 {
            Tok::Dot
        } else if index == 10 {
            Tok::Pipe
        } else if index == 11 {
            Tok::Var
        } else if index == 12 {
            Tok::Assign
        } else if index == 13 {
            Tok::PlusAssign
        } else if index == 14 {
            Tok::MinusAssign
        } else if index == 15 {
            Tok::StarAssign
        } else if index == 16 {
            Tok::SlashAssign
        } else if index == 17 {
            Tok::CaretAssign
        } else if index == 18 {
            Tok::ModuloAssign
        } else if index == 19 {
            Tok::TypeInt
        } else if index == 20 {
            Tok::TypeFloat
        } else if index == 21 {
            Tok::TypeStr
        } else if index == 22 {
            Tok::TypeBool
        } else if index == 23 {
            Tok::TypeChar
        } else if index == 24 {
            Tok::Bool
        } else if index == 25 {
            Tok::Int
        } else if index == 26 {
            Tok::Float
        } else if index == 27 {
            Tok::Str
        } else if index == 28 {
            Tok::Char
        } else if index == 29 {
            Tok::Plus
        } else if index == 30 {
            Tok::Minus
        } else if index == 31 {
            Tok::Star
        } else if index == 32 {
            Tok::Slash
        } else if index == 33 {
            Tok::Caret
        } else if index == 34 {
            Tok::Modulo
        } else if index == 35 {
            Tok::Not
        } else if index == 36 {
            Tok::And
        } else if index == 37 {
            Tok::Or
        } else if index == 38 {
            Tok::Xor
        } else if index == 39 {
            Tok::GreaterThan
        } else if index == 40 {
            Tok::LessThan
        } else if index == 41 {
            Tok::Equals
        } else if index == 42 {
            Tok::NotEquals
        } else if index == 43 {
            Tok::GreaterThanEq
        } else if index == 44 {
            Tok::LessThanEq
        } else if index == 45 {
            Tok::If
        } else if index == 46 {
            Tok::Else
        } else if index == 47 {
            Tok::Question
        } else if index == 48 {
            Tok::No
        } else if index == 49 {
            Tok::Bang
        } else if index == 50 {
            Tok::Underscore
        } else if index == 51 {
            Tok::Iter
        } else if index == 52 {
            Tok::List
        } else if index == 53 {
            Tok::SetKeyword
        } else if index == 54 {
            Tok::Range
        } else if index == 55 {
            Tok::Fn
        } else if index == 56 {
            Tok::At
        } else if index == 57 {
            Tok::Return
        } else if index == 58 {
            Tok::Struct
        } else if index == 59 {
            Tok::New
        } else if index == 60 {
            Tok::Dollar
        } else if index == 61 {
            Tok::As
        } else if index == 62 {
            Tok::Whitespace
        } else if index == 63 {
            Tok::Comment
        } else {
            Tok::Identifier
        }
    }

    pub fn at(index: usize) -> (kind: Tok)
        ensures
            kind == Tok::spec_at(index as int),
    {
        match index {
            0 => Tok::LParen,
            1 => Tok::RParen,
            2 => Tok::LBracket,
            3 => Tok::RBracket,
            4 => Tok::Colon,
            5 => Tok::LBrace,
            6 => Tok::RBrace,
            7 => Tok::Comma,
            8 => Tok::Semicolon,
            9 => Tok::Dot,
            10 => Tok::Pipe,
            11 => Tok::Var,
            12 => Tok::Assign,
            13 => Tok::PlusAssign,
            14 => Tok::MinusAssign,
            15 => Tok::StarAssign,
            16 => Tok::SlashAssign,
            17 => Tok::CaretAssign,
            18 => Tok::ModuloAssign,
            19 => Tok::TypeInt,
            20 => Tok::TypeFloat,
            21 => Tok::TypeStr,
            22 => Tok::TypeBool,
            23 => Tok::TypeChar,
            24 => Tok::Bool,
            25 => Tok::Int,
            26 => Tok::Float,
            27 => Tok::Str,
            28 => Tok::Char,
            29 => Tok::Plus,
            30 => Tok::Minus,
            31 => Tok::Star,
            32 => Tok::Slash,
            33 => Tok::Caret,
            34 => Tok::Modulo,
            35 => Tok::Not,
            36 => Tok::And,
            37 => Tok::Or,
            38 => Tok::Xor,
            39 => Tok::GreaterThan,
            40 => Tok::LessThan,
            41 => Tok::Equals,
            42 => Tok::NotEquals,
            43 => Tok::GreaterThanEq,
            44 => Tok::LessThanEq,
            45 => Tok::If,
            46 => Tok::Else,
            47 => Tok::Question,
            48 => Tok::No,
            49 => Tok::Bang,
            50 => Tok::Underscore,
            51 => Tok::Iter,
            52 => Tok::List,
            53 => Tok::SetKeyword,
            54 => Tok::Range,
            55 => Tok::Fn,
            56 => Tok::At,
            57 => Tok::Return,
            58 => Tok::Struct,
            59 => Tok::New,
            60 => Tok::Dollar,
            61 => Tok::As,
            62 => Tok::Whitespace,
            63 => Tok::Comment,
            _ => Tok::Identifier,
        }
    }

    /// The text of a token that is always written the same.
    pub open spec fn spec_literal(self) -> Option<Seq<char>> {
        match self {
            Tok::LParen => Some("("@),
            Tok::RParen => Some(")"@),
            Tok::LBracket => Some("["@),
            Tok::RBracket => Some("]"@),
            Tok::Colon => Some(":"@),
            Tok::LBrace => Some("{"@),
            Tok::RBrace => Some("}"@),
            Tok::Comma => Some(","@),
            Tok::Semicolon => Some(";"@),
            Tok::Dot => Some("."@),
            Tok::Pipe => Some("|"@),
            Tok::Var => Some("var"@),
            Tok::Assign => Some("="@),
            Tok::PlusAssign => Some("+="@),
            Tok::MinusAssign => Some("-="@),
            Tok::StarAssign => Some("*="@),
            Tok::SlashAssign => Some("/="@),
            Tok::CaretAssign => Some("^="@),
            Tok::ModuloAssign => Some("%="@),
            Tok::TypeInt => Some("int"@),
            Tok::TypeFloat => Some("float"@),
            Tok::TypeStr => Some("str"@),
            Tok::TypeBool => Some("bool"@),
            Tok::TypeChar => Some("char"@),
            Tok::Plus => Some("+"@),
            Tok::Minus => Some("-"@),
            Tok::Star => Some("*"@),
            Tok::Slash => Some("/"@),
            Tok::Caret => Some("^"@),
            Tok::Modulo => Some("%"@),
            Tok::Not => Some("not"@),
            Tok::And => Some("and"@),
            Tok::Or => Some("or"@),
            Tok::Xor => Some("xor"@),
            Tok::GreaterThan => Some(">"@),
            Tok::LessThan => Some("<"@),
            Tok::Equals => Some("=="@),
            Tok::NotEquals => Some("!="@),
            Tok::GreaterThanEq => Some(">="@),
            Tok::LessThanEq => Some("<="@),
            Tok::If => Some("if"@),
            Tok::Else => Some("else"@),
            Tok::Question => Some("?"@),
            Tok::No => Some("no"@),
            Tok::Bang => Some("!"@),
            Tok::Underscore => Some("_"@),
            Tok::Iter => Some("iter"@),
            Tok::List => Some("list"@),
            Tok::SetKeyword => Some("set"@),
            Tok::Range => Some(".."@),
            Tok::Fn => Some("fn"@),
            Tok::At => Some("@"@),
            Tok::Return => Some("return"@),
            Tok::Struct => Some("struct"@),
            Tok::New => Some("new"@),
            Tok::Dollar => Some("$"@),
            Tok::As => Some("as"@),
            _ => None,
        }
    }

    pub fn literal(&self) -> (text: Option<&'static str>)
        ensures
            match self.spec_literal() {
                Some(chars) => text is Some && text.unwrap()@ == chars,
                None => text is None,
            },
    {
        match self {
            Tok::LParen => Some("("),
            Tok::RParen => Some(")"),
            Tok::LBracket => Some("["),
            Tok::RBracket => Some("]"),
            Tok::Colon => Some(":"),
            Tok::LBrace => Some("{"),
            Tok::RBrace => Some("}"),
            Tok::Comma => Some(","),
            Tok::Semicolon => Some(";"),
            Tok::Dot => Some("."),
            Tok::Pipe => Some("|"),
            Tok::Var => Some("var"),
            Tok::Assign => Some("="),
            Tok::PlusAssign => Some("+="),
            Tok::MinusAssign => Some("-="),
            Tok::StarAssign => Some("*="),
            Tok::SlashAssign => Some("/="),
            Tok::CaretAssign => Some("^="),
            Tok::ModuloAssign => Some("%="),
            Tok::TypeInt => Some("int"),
            Tok::TypeFloat => Some("float"),
            Tok::TypeStr => Some("str"),
            Tok::TypeBool => Some("bool"),
            Tok::TypeChar => Some("char"),
            Tok::Plus => Some("+"),
            Tok::Minus => Some("-"),
            Tok::Star => Some("*"),
            Tok::Slash => Some("/"),
            Tok::Caret => Some("^"),
            Tok::Modulo => Some("%"),
            Tok::Not => Some("not"),
            Tok::And => Some("and"),
            Tok::Or => Some("or"),
            Tok::Xor => Some("xor"),
            Tok::GreaterThan => Some(">"),
            Tok::LessThan => Some("<"),
            Tok::Equals => Some("=="),
            Tok::NotEquals => Some("!="),
            Tok::GreaterThanEq => Some(">="),
            Tok::LessThanEq => Some("<="),
            Tok::If => Some("if"),
            Tok::Else => Some("else"),
            Tok::Question => Some("?"),
            Tok::No => Some("no"),
            Tok::Bang => Some("!"),
            Tok::Underscore => Some("_"),
            Tok::Iter => Some("iter"),
            Tok::List => Some("list"),
            Tok::SetKeyword => Some("set"),
            Tok::Range => Some(".."),
            Tok::Fn => Some("fn"),
            Tok::At => Some("@"),
            Tok::Return => Some("return"),
            Tok::Struct => Some("struct"),
            Tok::New => Some("new"),
            Tok::Dollar => Some("$"),
            Tok::As => Some("as"),
            _ => None,
        }
    }
}

/// The classes of character that a token may be a run of.
#[derive(Debug, Clone, Copy, PartialEq, Eq, Structural)]
pub enum Class {
    /// white space
    Space,
    /// the decimal digits
    Digit,
    /// the letters and the underscore
    Word,
    /// everything but the end of a line
    Line,
}

pub open spec fn is_letter(c: char) -> bool {
    ('a' <= c <= 'z') || ('A' <= c <= 'Z')
}

pub open spec fn in_class(class: Class, c: char) -> bool {
    match class {
        Class::Space => is_space(c),
        Class::Digit => '0' <= c <= '9',
        Class::Word => is_letter(c) || c == '_',
        Class::Line => c != '\n',
    }
}

/// The number of characters of the class that follow one another from `from` on.
pub open spec fn run(text: Seq<char>, from: int, class: Class) -> int
    decreases text.len() - from,
{
    if 0 <= from < text.len() && in_class(class, text[from]) {
        1 + run(text, from + 1, class)
    } else {
        0
    }
}

/// Whether the text goes on with `literal` at `from`.
pub open spec fn starts_with(text: Seq<char>, from: int, literal: Seq<char>) -> bool {
    &&& 0 <= from
    &&& from + literal.len() <= text.len()
    &&& forall|i: int| 0 <= i < literal.len() ==> text[from + i] == literal[i]
}

/// The length of the number at `from`, read as an integer and read as a float: an
/// optional minus and digits, and for the float a dot and more digits. Zero where there
/// is no such number.
pub open spec fn number_len(text: Seq<char>, from: int) -> (int, int) {
    let sign: int = if 0 <= from < text.len() && text[from] == '-' {
        1
    } else {
        0
    };
    let whole = run(text, from + sign, Class::Digit);
    let dot = from + sign + whole;
    let fraction = if whole > 0 && dot < text.len() && text[dot] == '.' {
        run(text, dot + 1, Class::Digit)
    } else {
        0
    };
    (
        if whole > 0 {
            sign + whole
        } else {
            0
        },
        if fraction > 0 {
            sign + whole + 1 + fraction
        } else {
            0
        },
    )
}

/// The length of the longest string literal that starts at `from`, where the search
/// has come to `at` and `best` is the length of the longest so far. A double quote ends
/// the literal; behind a backslash it may also be part of it.
pub open spec fn string_end(text: Seq<char>, from: int, at: int, best: int) -> int
    decreases text.len() - at,
{
    if !(0 < at < text.len()) {
        best
    } else if text[at] == '"' {
        if text[at - 1] == '\\' {
            string_end(text, from, at + 1, at + 1 - from)
        } else {
            at + 1 - from
        }
    } else {
        string_end(text, from, at + 1, best)
    }
}

/// The length of the token of the given kind at `from`; zero where there is none.
pub open spec fn match_len(kind: Tok, text: Seq<char>, from: int) -> int {
    if !(0 <= from < text.len()) {
        0
    } else {
        match kind {
            Tok::Whitespace => run(text, from, Class::Space),
            Tok::Comment => if starts_with(text, from, "//"@) {
                "//"@.len() + run(text, from + "//"@.len(), Class::Line)
            } else {
                0
            },
            Tok::Int => number_len(text, from).0,
            Tok::Float => number_len(text, from).1,
            Tok::Bool => if starts_with(text, from, "true"@) {
                "true"@.len() as int
            } else if starts_with(text, from, "false"@) {
                "false"@.len() as int
            } else {
                0
            },
            Tok::Str => if text[from] == '"' {
                string_end(text, from, from + 1, 0)
            } else {
                0
            },
            Tok::Char => if text[from] == '\'' && from + 2 < text.len() && text[from + 1] != '\n'
                && text[from + 2] == '\'' {
                3
            } else {
                0
            },
            Tok::Identifier => if is_letter(text[from]) {
                1 + run(text, from + 1, Class::Word)
            } else {
                0
            },
            other => match other.spec_literal() {
                Some(literal) => if starts_with(text, from, literal) {
                    literal.len() as int
                } else {
                    0
                },
                None => 0,
            },
        }
    }
}

/// The longest token at `from` among the first `upto` kinds: the index of its kind and
/// its length. Of two of the same length it is the one that is tried first.
pub open spec fn best(text: Seq<char>, from: int, upto: int) -> (int, int)
    decreases upto,
{
    if upto <= 0 {
        (0, 0)
    } else {
        let before = best(text, from, upto - 1);
        let length = match_len(Tok::spec_at(upto - 1), text, from);
        if length > before.1 {
            (upto - 1, length)
        } else {
            before
        }
    }
}

/// The number of bytes that the text takes in front of the character at `index`.
pub open spec fn offset(text: Seq<char>, index: int) -> int {
    vstd::utf8::encode_utf8(text).len() - vstd::utf8::encode_utf8(text.skip(index)).len()
}

/// The lexemes of the text from `from` on. Where no token starts, one character is
/// given up as invalid, with the bytes that it takes.
pub open spec fn scanned(text: Seq<char>, from: int) -> Seq<Scanned>
    decreases text.len() - from,
{
    if !(0 <= from < text.len()) {
        Seq::empty()
    } else {
        let (index, length) = best(text, from, KINDS as int);
        if 0 < length <= text.len() - from {
            seq![
                Scanned::Token { kind: Tok::spec_at(index), text: text.subrange(from, from + length) },
            ] + scanned(text, from + length)
        } else {
            seq![
                Scanned::Invalid {
                    start: offset(text, from) as usize,
                    end: offset(text, from + 1) as usize,
                },
            ] + scanned(text, from + 1)
        }
    }
}

/// The characters of a text.
pub fn chars_of(source: &str) -> (chars: Vec<char>)
    ensures
        chars@ == source@,
{
    let mut chars: Vec<char> = Vec::new();
    for c in it: source.chars()
        invariant
            chars@ == it.seq().take(it.index() as int),
            it.seq() == source@,
    {
        chars.push(c);
        proof {
            assert(it.seq().take(it.index() as int).push(c) =~= it.seq().take(it.index() + 1));
        }
    }
    proof {
        assert(source@.take(source@.len() as int) =~= source@);
    }
    chars
}

fn in_class_exec(class: Class, c: char) -> (inside: bool)
    ensures
        inside == in_class(class, c),
{
    match class {
        Class::Space => is_space_exec(c),
        Class::Digit => '0' <= c && c <= '9',
        Class::Word => ('a' <= c && c <= 'z') || ('A' <= c && c <= 'Z') || c == '_',
        Class::Line => c != '\n',
    }
}

fn run_exec(text: &Vec<char>, from: usize, class: Class) -> (length: usize)
    requires
        from <= text@.len(),
    ensures
        length == run(text@, from as int, class),
        from + length <= text@.len(),
{
    let mut at: usize = from;
    while at < text.len() && in_class_exec(class, text[at])
        invariant
            from <= at <= text@.len(),
            run(text@, from as int, class) == (at - from) + run(text@, at as int, class),
        decreases text@.len() - at,
    {
        at += 1;
    }
    at - from
}

fn starts_with_exec(text: &Vec<char>, from: usize, literal: &str) -> (found: bool)
    requires
        from <= text@.len(),
    ensures
        found == starts_with(text@, from as int, literal@),
{
    let length = literal.unicode_len();
    let size = text.len();
    if length > size - from {
        return false;
    }
    let mut i: usize = 0;
    while i < length
        invariant
            i <= length,
            length == literal@.len(),
            size == text@.len(),
            from + length <= text@.len(),
            forall|k: int| 0 <= k < i ==> text@[from + k] == literal@[k],
        decreases length - i,
    {
        if text[from + i] != literal.get_char(i) {
            return false;
        }
        i += 1;
    }
    true
}

fn string_end_exec(text: &Vec<char>, from: usize) -> (length: usize)
    requires
        from < text@.len(),
    ensures
        length == string_end(text@, from as int, from + 1, 0),
        from + length <= text@.len(),
{
    let size = text.len();
    let mut at: usize = from + 1;
    let mut found: usize = 0;
    while at < size
        invariant
            size == text@.len(),
            from < at <= text@.len(),
            from + found <= text@.len(),
            string_end(text@, from as int, from + 1, 0) == string_end(
                text@,
                from as int,
                at as int,
                found as int,
            ),
        decreases text@.len() - at,
    {
        if text[at] == '"' {
            found = at + 1 - from;
            if text[at - 1] != '\\' {
                return found;
            }
        }
        at += 1;
    }
    found
}

fn match_length(kind: Tok, text: &Vec<char>, from: usize) -> (length: usize)
    requires
        from < text@.len(),
    ensures
        length == match_len(kind, text@, from as int),
        length <= text@.len() - from,
{
    let size = text.len();
    match kind {
        Tok::Whitespace => run_exec(text, from, Class::Space),
        Tok::Comment => {
            if starts_with_exec(text, from, "//") {
                let start = "//".unicode_len();
                start + run_exec(text, from + start, Class::Line)
            } else {
                0
            }
        },
        Tok::Int | Tok::Float => {
            let sign: usize = if text[from] == '-' { 1 } else { 0 };
            let whole = run_exec(text, from + sign, Class::Digit);
            if whole == 0 {
                return 0;
            }
            if let Tok::Int = kind {
                return sign + whole;
            }
            let dot = from + sign + whole;
            if dot < text.len() && text[dot] == '.' {
                let fraction = run_exec(text, dot + 1, Class::Digit);
                if fraction > 0 {
                    return sign + whole + 1 + fraction;
                }
            }
            0
        },
        Tok::Bool => {
            if starts_with_exec(text, from, "true") {
                "true".unicode_len()
            } else if starts_with_exec(text, from, "false") {
                "false".unicode_len()
            } else {
                0
            }
        },
        Tok::Str => {
            if text[from] == '"' {
                string_end_exec(text, from)
            } else {
                0
            }
        },
        Tok::Char => {
            if text[from] == '\'' && text.len() - from > 2 && text[from + 1] != '\n' && text[from
                + 2] == '\'' {
                3
            } else {
                0
            }
        },
        Tok::Identifier => {
            let c = text[from];
            if ('a' <= c && c <= 'z') || ('A' <= c && c <= 'Z') {
                1 + run_exec(text, from + 1, Class::Word)
            } else {
                0
            }
        },
        other => match other.literal() {
            Some(literal) => {
                if starts_with_exec(text, from, literal) {
                    literal.unicode_len()
                } else {
                    0
                }
            },
            None => 0,
        },
    }
}

/// The number of bytes that a character takes.
fn width(c: char) -> (bytes: usize)
    ensures
        bytes == vstd::utf8::encode_scalar(c as u32).len(),
        1 <= bytes <= 4,
{
    let code = c as u32;
    proof {
        vstd::utf8::char_is_scalar(c);
    }
    if code < 0x80 {
        1
    } else if code < 0x800 {
        2
    } else if code < 0x10000 {
        3
    } else {
        4
    }
}

/// The bytes of a text are the bytes of its first character and those of the rest.
proof fn lemma_offset_step(text: Seq<char>, index: int)
    requires
        0 <= index < text.len(),
    ensures
        offset(text, index + 1) == offset(text, index) + vstd::utf8::encode_scalar(
            text[index] as u32,
        ).len(),
        0 <= offset(text, index) < offset(text, index + 1) <= vstd::utf8::encode_utf8(text).len(),
        offset(text, 0) == 0,
{
    let rest = text.skip(index);
    assert(rest[0] == text[index]);
    assert(rest.drop_first() =~= text.skip(index + 1));
    assert(text.skip(0) =~= text);
    vstd::utf8::char_is_scalar(text[index]);
    lemma_offset_bounds(text, index);
    lemma_offset_bounds(text, index + 1);
}

/// The bytes of the rest of a text are no more than the bytes of the text.
proof fn lemma_offset_bounds(text: Seq<char>, index: int)
    requires
        0 <= index <= text.len(),
    ensures
        0 <= offset(text, index) <= vstd::utf8::encode_utf8(text).len(),
    decreases index,
{
    if index == 0 {
        assert(text.skip(0) =~= text);
    } else {
        lemma_offset_bounds(text, index - 1);
        let rest = text.skip(index - 1);
        assert(rest[0] == text[index - 1]);
        assert(rest.drop_first() =~= text.skip(index));
    }
}

/// The tokens of a source.
pub fn scan(source: &str) -> (lexemes: Vec<Lexeme>)
    ensures
        Seq::new(lexemes@.len(), |i: int| lexemes@[i]@) == scanned(source@, 0),
{
    let text = chars_of(source);
    let total = source.as_bytes().len();
    let mut lexemes: Vec<Lexeme> = Vec::new();
    let mut at: usize = 0;
    let mut byte: usize = 0;
    let ghost mut done: Seq<Scanned> = Seq::empty();
    proof {
        assert(text@.skip(0) =~= text@);
        assert(done + scanned(text@, 0) =~= scanned(text@, 0));
    }
    let size = text.len();
    while at < size
        invariant
            size == text@.len(),
            at <= text@.len(),
            text@ == source@,
            total == vstd::utf8::encode_utf8(text@).len(),
            byte == offset(text@, at as int),
            done == Seq::new(lexemes@.len(), |i: int| lexemes@[i]@),
            scanned(text@, 0) == done + scanned(text@, at as int),
        decreases text@.len() - at,
    {
        let mut kind: usize = 0;
        let mut length: usize = 0;
        let mut i: usize = 0;
        while i < KINDS
            invariant
                i <= KINDS,
                at < text@.len(),
                size == text@.len(),
                (kind as int, length as int) == best(text@, at as int, i as int),
                length <= text@.len() - at,
            decreases KINDS - i,
        {
            let here = match_length(Tok::at(i), &text, at);
            if here > length {
                kind = i;
                length = here;
            }
            i += 1;
        }
        let ghost before = done;
        if length > 0 {
            let mut piece = String::new();
            let mut k: usize = 0;
            while k < length
                invariant
                    k <= length,
                    at + length <= text@.len(),
                    text@.len() <= usize::MAX,
                    piece@ == text@.subrange(at as int, at + k),
                    byte == offset(text@, at + k),
                    total == vstd::utf8::encode_utf8(text@).len(),
                decreases length - k,
            {
                let c = text[at + k];
                proof {
                    lemma_offset_step(text@, at + k);
                    assert(text@.subrange(at as int, at + k).push(c) =~= text@.subrange(
                        at as int,
                        at + k + 1,
                    ));
                }
                push_char(&mut piece, c);
                byte = byte + width(c);
                k += 1;
            }
            let lexeme = Lexeme::Token { kind: Tok::at(kind), text: piece };
            proof {
                done = done.push(lexeme@);
            }
            lexemes.push(lexeme);
            at = at + length;
        } else {
            proof {
                lemma_offset_step(text@, at as int);
            }
            let end = byte + width(text[at]);
            let lexeme = Lexeme::Invalid { start: byte, end };
            proof {
                done = done.push(lexeme@);
            }
            lexemes.push(lexeme);
            byte = end;
            at = at + 1;
        }
        proof {
            assert(done =~= Seq::new(lexemes@.len(), |i: int| lexemes@[i]@));
            assert(before + (seq![done.last()] + scanned(text@, at as int)) =~= done + scanned(
                text@,
                at as int,
            ));
        }
    }
    proof {
        assert(done + Seq::<Scanned>::empty() =~= done);
    }
    lexemes
}

} // verus!
