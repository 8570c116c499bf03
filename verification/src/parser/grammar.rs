//! What the parser makes of a sequence of lexemes, as mathematics: for each rule of the
//! grammar, the pieces of the tree and the position that the rule leaves behind, or the
//! error that it ends with.
//!
//! A rule reads on from a position and adds to the pieces that have been built. A node
//! is closed around the pieces from its first one on; a node around an operand that was
//! built before its operator was seen starts at the first piece of that operand.

use vstd::prelude::*;
use crate::errors::err::{LanguloErr, SemanticError};
use crate::lexer::tok::Tok;
use crate::lexer::{read_at, Scanned};
use crate::parser::ast::node::AstNode;
use crate::parser::tree::{closed, total_bytes, Element};

verus! {

/// Whether a semicolon must, may or need not follow an expression.
#[derive(Debug, Clone, Copy, PartialEq, Eq, Structural)]
pub enum SemicolonPolicy {
    RequiredPresent,
    RequiredAbsent,
    Optional,
}

/// How far the parser has come: the number of lexemes read, and the pieces built.
pub struct Progress {
    pub position: int,
    pub children: Seq<Element>,
}

/// The error of a source that the grammar does not allow.
pub open spec fn malformed() -> LanguloErr {
    LanguloErr::Semantic(SemanticError::Malformed)
}

/// The precedence of a token that has one.
pub open spec fn binding(tok: Tok) -> u8 {
    tok.spec_precedence().unwrap()
}

/// An outcome that lies at `from` or behind it, among the lexemes. No rule goes back or
/// beyond the end, and no outcome is changed by this; the rules say it where they go on
/// reading behind an outcome.
pub open spec fn onward(
    lexemes: Seq<Scanned>,
    from: int,
    outcome: Result<Progress, LanguloErr>,
) -> Result<Progress, LanguloErr> {
    match outcome {
        Ok(next) => if from <= next.position <= lexemes.len() {
            Ok(next)
        } else {
            Err(malformed())
        },
        Err(e) => Err(e),
    }
}

/// An outcome that lies behind `from`, among the lexemes. Every rule that builds a node
/// reads a token, and no outcome is changed by this; the rules say it where they repeat
/// behind an outcome.
pub open spec fn beyond(
    lexemes: Seq<Scanned>,
    from: int,
    outcome: Result<Progress, LanguloErr>,
) -> Result<Progress, LanguloErr> {
    match outcome {
        Ok(next) => if from < next.position <= lexemes.len() {
            Ok(next)
        } else {
            Err(malformed())
        },
        Err(e) => Err(e),
    }
}

/// The pieces with one more token. A tree addresses its text with 32 bits: a token that
/// takes the text beyond that is refused.
pub open spec fn with_token(children: Seq<Element>, kind: AstNode, text: Seq<char>) -> Result<
    Seq<Element>,
    LanguloErr,
> {
    if total_bytes(children, children.len() as int) + vstd::utf8::encode_utf8(text).len()
        <= u32::MAX {
        Ok(children.push(Element::Token { kind: kind.code(), text }))
    } else {
        Err(LanguloErr::Semantic(SemanticError::TooLong))
    }
}

/// The pieces from `base` on become one node.
pub open spec fn wrapped(at: Progress, kind: AstNode, base: int) -> Progress {
    Progress { position: at.position, children: closed(at.children, kind.code(), base) }
}

/// White space and comments are read and become tokens of the tree, up to the first
/// lexeme that is neither.
pub open spec fn trivia(lexemes: Seq<Scanned>, at: Progress) -> Result<Progress, LanguloErr>
    decreases lexemes.len() - at.position,
{
    match read_at(lexemes, at.position) {
        Err(e) => Err(e),
        Ok(None) => Ok(at),
        Ok(Some((kind, text))) => if kind == Tok::Whitespace || kind == Tok::Comment {
            let node = if kind == Tok::Whitespace {
                AstNode::Whitespace
            } else {
                AstNode::Comment
            };
            match with_token(at.children, node, text) {
                Ok(children) => trivia(lexemes, Progress { position: at.position + 1, children }),
                Err(e) => Err(e),
            }
        } else {
            Ok(at)
        },
    }
}

/// The next token that is no trivia, with the trivia around it read.
pub open spec fn next_token(lexemes: Seq<Scanned>, at: Progress) -> Result<
    (Progress, Tok, Seq<char>),
    LanguloErr,
> {
    match trivia(lexemes, at) {
        Err(e) => Err(e),
        Ok(a) => match read_at(lexemes, a.position) {
            Err(e) => Err(e),
            Ok(None) => Err(malformed()),
            Ok(Some((kind, text))) => match beyond(
                lexemes, at.position,
                trivia(lexemes, Progress { position: a.position + 1, children: a.children }),
            ) {
                Ok(b) => Ok((b, kind, text)),
                Err(e) => Err(e),
            },
        },
    }
}

/// The kind of the lexeme at the position, if there is one.
pub open spec fn peeked(lexemes: Seq<Scanned>, at: Progress) -> Result<Option<Tok>, LanguloErr> {
    match read_at(lexemes, at.position) {
        Ok(Some((kind, _))) => Ok(Some(kind)),
        Ok(None) => Ok(None),
        Err(e) => Err(e),
    }
}

/// The next token, which must be of the given kind, is read; its text is handed out.
pub open spec fn expected(lexemes: Seq<Scanned>, at: Progress, tok: Tok) -> Result<
    (Progress, Seq<char>),
    LanguloErr,
> {
    match peeked(lexemes, at) {
        Ok(Some(kind)) => if kind == tok {
            match next_token(lexemes, at) {
                Ok((next, _, text)) => Ok((next, text)),
                Err(e) => Err(e),
            }
        } else {
            Err(malformed())
        },
        Ok(None) => Err(malformed()),
        Err(e) => Err(e),
    }
}

/// The semicolon behind an expression. At the end of the source none is asked for. One
/// that must be absent is left where it is: the expression around may ask for it.
pub open spec fn semicolon(lexemes: Seq<Scanned>, at: Progress, policy: SemicolonPolicy) -> Result<
    Progress,
    LanguloErr,
> {
    match peeked(lexemes, at) {
        Err(e) => Err(e),
        Ok(None) => Ok(at),
        Ok(Some(tok)) => {
            let present = tok == Tok::Semicolon;
            if policy == SemicolonPolicy::RequiredAbsent || (policy == SemicolonPolicy::Optional
                && !present) {
                Ok(at)
            } else if !present {
                Err(LanguloErr::Semantic(SemanticError::MissingTerminator))
            } else {
                match next_token(lexemes, at) {
                    Ok((next, _, _)) => Ok(next),
                    Err(e) => Err(e),
                }
            }
        },
    }
}

/// A node that holds one token.
pub open spec fn leaf(at: Progress, kind: AstNode, text: Seq<char>) -> Result<
    Progress,
    LanguloErr,
> {
    match with_token(at.children, kind, text) {
        Ok(children) => Ok(
            wrapped(Progress { position: at.position, children }, kind, at.children.len() as int),
        ),
        Err(e) => Err(e),
    }
}

/// Question marks behind a type, each of which makes an option type of what stands
/// from `base` on.
pub open spec fn type_options(lexemes: Seq<Scanned>, at: Progress, base: int) -> Result<
    Progress,
    LanguloErr,
>
    decreases lexemes.len() - at.position,
{
    match peeked(lexemes, at) {
        Err(e) => Err(e),
        Ok(next) => if next != Some(Tok::Question) {
            Ok(at)
        } else {
            match next_token(lexemes, at) {
                Err(e) => Err(e),
                Ok((a, _, _)) => type_options(lexemes, wrapped(a, AstNode::TypeOption, base), base),
            }
        },
    }
}

/// A type annotation: the name of a type, the type of a function or of a table, and the
/// question marks behind it.
pub open spec fn annotation(lexemes: Seq<Scanned>, at: Progress) -> Result<Progress, LanguloErr>
    decreases lexemes.len() - at.position, 0int,
{
    match next_token(lexemes, at) {
        Err(e) => Err(e),
        Ok((a, tok, text)) => {
            let first = match tok {
                Tok::TypeChar => leaf(a, AstNode::TypeChar, text),
                Tok::TypeInt => leaf(a, AstNode::TypeInt, text),
                Tok::TypeFloat => leaf(a, AstNode::TypeFloat, text),
                Tok::TypeBool => leaf(a, AstNode::TypeBool, text),
                Tok::TypeStr => leaf(a, AstNode::TypeStr, text),
                Tok::Fn => function_type(lexemes, a),
                Tok::LBracket => table_type(lexemes, a),
                _ => Err(malformed()),
            };
            match first {
                Err(e) => Err(e),
                Ok(b) => type_options(lexemes, b, at.children.len() as int),
            }
        },
    }
}

/// The types of the parameters of a function type, each with a comma behind it, up to
/// the arrow.
pub open spec fn contour_types(lexemes: Seq<Scanned>, at: Progress) -> Result<Progress, LanguloErr>
    decreases lexemes.len() - at.position, 3int,
{
    match peeked(lexemes, at) {
        Err(e) => Err(e),
        Ok(next) => if next == Some(Tok::Minus) {
            Ok(at)
        } else {
            match onward(lexemes, at.position, annotation(lexemes, at)) {
                Err(e) => Err(e),
                Ok(a) => match expected(lexemes, a, Tok::Comma) {
                    Err(e) => Err(e),
                    Ok((b, _)) => contour_types(lexemes, b),
                },
            }
        },
    }
}

/// The start of a function type, behind its opening parenthesis: the type of the
/// principal parameter, where there is one, with its `@` and the comma behind it.
pub open spec fn principal_type(lexemes: Seq<Scanned>, at: Progress) -> Result<Progress, LanguloErr>
    decreases lexemes.len() - at.position, 3int,
{
    match peeked(lexemes, at) {
        Err(e) => Err(e),
        Ok(first) => if first == Some(Tok::At) {
            match next_token(lexemes, at) {
                Err(e) => Err(e),
                Ok((a, _, _)) => match onward(lexemes, a.position, annotation(lexemes, a)) {
                    Err(e) => Err(e),
                    Ok(b) => match expected(lexemes, b, Tok::Comma) {
                        Err(e) => Err(e),
                        Ok((c, _)) => Ok(c),
                    },
                },
            }
        } else {
            Ok(at)
        },
    }
}

/// The end of a function type: an arrow, the type of the result, and the closing
/// parenthesis.
pub open spec fn result_type(lexemes: Seq<Scanned>, at: Progress) -> Result<Progress, LanguloErr>
    decreases lexemes.len() - at.position, 3int,
{
    match expected(lexemes, at, Tok::Minus) {
        Err(e) => Err(e),
        Ok((a, _)) => match expected(lexemes, a, Tok::GreaterThan) {
            Err(e) => Err(e),
            Ok((b, _)) => match annotation(lexemes, b) {
                Err(e) => Err(e),
                Ok(c) => match expected(lexemes, c, Tok::RParen) {
                    Err(e) => Err(e),
                    Ok((d, _)) => Ok(d),
                },
            },
        },
    }
}

/// The types of the parameters of a function type, as one node.
pub open spec fn contour(lexemes: Seq<Scanned>, at: Progress) -> Result<Progress, LanguloErr>
    decreases lexemes.len() - at.position, 4int,
{
    match contour_types(lexemes, at) {
        Err(e) => Err(e),
        Ok(a) => Ok(wrapped(a, AstNode::ContourTypes, at.children.len() as int)),
    }
}

/// The type of a function, behind its `fn`: in parentheses the types of the parameters,
/// an arrow, and the type of the result.
pub open spec fn function_type(lexemes: Seq<Scanned>, at: Progress) -> Result<Progress, LanguloErr>
    decreases lexemes.len() - at.position, 5int,
{
    match expected(lexemes, at, Tok::LParen) {
        Err(e) => Err(e),
        Ok((a, _)) => match onward(lexemes, a.position, principal_type(lexemes, a)) {
            Err(e) => Err(e),
            Ok(b) => match onward(lexemes, b.position, contour(lexemes, b)) {
                Err(e) => Err(e),
                Ok(c) => match result_type(lexemes, c) {
                    Err(e) => Err(e),
                    Ok(d) => Ok(wrapped(d, AstNode::TypeFn, at.children.len() as int)),
                },
            },
        },
    }
}

/// The type of a table, behind its opening bracket: the type of the keys, a colon, and
/// the type of the values.
pub open spec fn table_type(lexemes: Seq<Scanned>, at: Progress) -> Result<Progress, LanguloErr>
    decreases lexemes.len() - at.position, 4int,
{
    match onward(lexemes, at.position, annotation(lexemes, at)) {
        Err(e) => Err(e),
        Ok(a) => match expected(lexemes, a, Tok::Colon) {
            Err(e) => Err(e),
            Ok((b, _)) => match annotation(lexemes, b) {
                Err(e) => Err(e),
                Ok(c) => match expected(lexemes, c, Tok::RBracket) {
                    Err(e) => Err(e),
                    Ok((d, _)) => Ok(wrapped(d, AstNode::TypeTable, at.children.len() as int)),
                },
            },
        },
    }
}

/// The parameters of a function behind the principal one, each a name and a type,
/// between commas, up to the closing parenthesis.
pub open spec fn parameters(lexemes: Seq<Scanned>, at: Progress) -> Result<Progress, LanguloErr>
    decreases lexemes.len() - at.position,
{
    match peeked(lexemes, at) {
        Err(e) => Err(e),
        Ok(next) => if next == Some(Tok::RParen) {
            Ok(at)
        } else {
            match expected(lexemes, at, Tok::Identifier) {
                Err(e) => Err(e),
                Ok((a, name)) => match with_token(a.children, AstNode::ContourParam, name) {
                    Err(e) => Err(e),
                    Ok(children) => match onward(
                        lexemes, a.position,
                        annotation(lexemes, Progress { position: a.position, children }),
                    ) {
                        Err(e) => Err(e),
                        Ok(b) => {
                            let c = wrapped(b, AstNode::ContourParam, a.children.len() as int);
                            match peeked(lexemes, c) {
                                Err(e) => Err(e),
                                Ok(comma) => if comma == Some(Tok::Comma) {
                                    match next_token(lexemes, c) {
                                        Err(e) => Err(e),
                                        Ok((d, _, _)) => parameters(lexemes, d),
                                    }
                                } else {
                                    Ok(c)
                                },
                            }
                        },
                    },
                },
            }
        },
    }
}

/// The principal parameter of a function, where there is one: an `@`, its type, and the
/// comma behind it if one follows.
pub open spec fn principal_parameter(lexemes: Seq<Scanned>, at: Progress) -> Result<
    Progress,
    LanguloErr,
> {
    match peeked(lexemes, at) {
        Err(e) => Err(e),
        Ok(first) => if first == Some(Tok::At) {
            match next_token(lexemes, at) {
                Err(e) => Err(e),
                Ok((a, _, _)) => match annotation(lexemes, a) {
                    Err(e) => Err(e),
                    Ok(b) => {
                        let c = wrapped(b, AstNode::PrincipalParam, at.children.len() as int);
                        match peeked(lexemes, c) {
                            Err(e) => Err(e),
                            Ok(comma) => if comma == Some(Tok::Comma) {
                                match next_token(lexemes, c) {
                                    Err(e) => Err(e),
                                    Ok((d, _, _)) => Ok(d),
                                }
                            } else {
                                Ok(c)
                            },
                        }
                    },
                },
            }
        } else {
            Ok(at)
        },
    }
}

/// An expression: a prefix, the operators behind it that bind tighter than
/// `precedence`, and the semicolon.
pub open spec fn expr(
    lexemes: Seq<Scanned>,
    at: Progress,
    precedence: u8,
    policy: SemicolonPolicy,
) -> Result<Progress, LanguloErr>
    decreases lexemes.len() - at.position, 2int,
{
    match beyond(lexemes, at.position, prefix(lexemes, at)) {
        Err(e) => Err(e),
        Ok(a) => match operators(lexemes, a, at.children.len() as int, precedence) {
            Err(e) => Err(e),
            Ok(b) => semicolon(lexemes, b, policy),
        },
    }
}

/// The operators behind the operand that stands from `base` on, as long as they bind
/// tighter than `precedence`. A token that cannot follow an expression is an error.
pub open spec fn operators(
    lexemes: Seq<Scanned>,
    at: Progress,
    base: int,
    precedence: u8,
) -> Result<Progress, LanguloErr>
    decreases lexemes.len() - at.position, 2int,
{
    match peeked(lexemes, at) {
        Err(e) => Err(e),
        Ok(None) => Ok(at),
        Ok(Some(tok)) => match tok.spec_precedence() {
            None => Err(malformed()),
            Some(binding) => if binding <= precedence {
                Ok(at)
            } else {
                match beyond(lexemes, at.position, postfix(lexemes, at, base, binding)) {
                    Err(e) => Err(e),
                    Ok(a) => operators(lexemes, a, base, precedence),
                }
            },
        },
    }
}

/// An operator with the expression behind it as its operand; with `base` at the first
/// piece of an operand that stands in front of it, an operator between two operands.
pub open spec fn operation(
    lexemes: Seq<Scanned>,
    at: Progress,
    kind: AstNode,
    base: int,
    precedence: u8,
) -> Result<Progress, LanguloErr>
    decreases lexemes.len() - at.position, 4int,
{
    match expr(lexemes, at, precedence, SemicolonPolicy::RequiredAbsent) {
        Err(e) => Err(e),
        Ok(a) => Ok(wrapped(a, kind, base)),
    }
}

/// The start of an expression: a literal, a name, or a construct that starts with a
/// keyword, a prefix operator or an opening bracket.
pub open spec fn prefix(lexemes: Seq<Scanned>, at: Progress) -> Result<Progress, LanguloErr>
    decreases lexemes.len() - at.position, 1int,
{
    match next_token(lexemes, at) {
        Err(e) => Err(e),
        Ok((a, tok, text)) => {
            let base = a.children.len() as int;
            match tok {
                Tok::Int => leaf(a, AstNode::Int, text),
                Tok::Float => leaf(a, AstNode::Float, text),
                Tok::Bool => leaf(a, AstNode::Bool, text),
                Tok::Char => leaf(a, AstNode::Char, text),
                Tok::Str => leaf(a, AstNode::Str, text),
                Tok::Identifier => leaf(a, AstNode::Identifier, text),
                Tok::No => leaf(a, AstNode::Option, text),
                Tok::Not => operation(lexemes, a, AstNode::LogicalNot, base, binding(Tok::Not)),
                Tok::Dollar => operation(lexemes, a, AstNode::Print, base, binding(Tok::Dollar)),
                Tok::Pipe => scope(lexemes, a, AstNode::Lambda, Tok::Pipe),
                Tok::LParen => grouping(lexemes, a),
                Tok::LBrace => scope(lexemes, a, AstNode::Scope, Tok::RBrace),
                Tok::If => conditional(lexemes, a),
                Tok::Var => variable(lexemes, a),
                Tok::LBracket => table(lexemes, a),
                Tok::Fn => function(lexemes, a),
                Tok::At => application(lexemes, a),
                _ => Err(malformed()),
            }
        },
    }
}

/// An expression in parentheses, behind the opening one.
pub open spec fn grouping(lexemes: Seq<Scanned>, at: Progress) -> Result<Progress, LanguloErr>
    decreases lexemes.len() - at.position, 4int,
{
    match expr(lexemes, at, 0, SemicolonPolicy::RequiredAbsent) {
        Err(e) => Err(e),
        Ok(a) => match expected(lexemes, a, Tok::RParen) {
            Err(e) => Err(e),
            Ok((b, _)) => Ok(wrapped(b, AstNode::Grouping, at.children.len() as int)),
        },
    }
}

/// A conditional, behind its `if`: the condition and the body.
pub open spec fn conditional(lexemes: Seq<Scanned>, at: Progress) -> Result<Progress, LanguloErr>
    decreases lexemes.len() - at.position, 4int,
{
    match onward(lexemes, at.position, expr(lexemes, at, 0, SemicolonPolicy::RequiredAbsent)) {
        Err(e) => Err(e),
        Ok(a) => match expr(lexemes, a, binding(Tok::If), SemicolonPolicy::RequiredAbsent) {
            Err(e) => Err(e),
            Ok(b) => Ok(wrapped(b, AstNode::If, at.children.len() as int)),
        },
    }
}

/// The type hint of a variable, where there is one: a colon and a type.
pub open spec fn hint(lexemes: Seq<Scanned>, at: Progress) -> Result<Progress, LanguloErr> {
    match peeked(lexemes, at) {
        Err(e) => Err(e),
        Ok(next) => if next == Some(Tok::Colon) {
            match next_token(lexemes, at) {
                Err(e) => Err(e),
                Ok((a, _, _)) => annotation(lexemes, a),
            }
        } else {
            Ok(at)
        },
    }
}

/// The declaration of a variable, behind its `var`: the name, a type hint if there is
/// one, and the value.
pub open spec fn variable(lexemes: Seq<Scanned>, at: Progress) -> Result<Progress, LanguloErr>
    decreases lexemes.len() - at.position, 4int,
{
    match expected(lexemes, at, Tok::Identifier) {
        Err(e) => Err(e),
        Ok((a, name)) => match with_token(a.children, AstNode::VarDecl, name) {
            Err(e) => Err(e),
            Ok(children) => match onward(
                lexemes, a.position,
                hint(lexemes, Progress { position: a.position, children }),
            ) {
                Err(e) => Err(e),
                Ok(b) => match expected(lexemes, b, Tok::Assign) {
                    Err(e) => Err(e),
                    Ok((c, _)) => match expr(lexemes, c, 0, SemicolonPolicy::RequiredAbsent) {
                        Err(e) => Err(e),
                        Ok(d) => Ok(wrapped(d, AstNode::VarDecl, at.children.len() as int)),
                    },
                },
            },
        },
    }
}

/// The key of a pair of a table: the default key, which a table may have once, or an
/// expression.
pub open spec fn key(lexemes: Seq<Scanned>, at: Progress, default: bool, seen: bool) -> Result<
    Progress,
    LanguloErr,
>
    decreases lexemes.len() - at.position, 3int,
{
    if default {
        if seen {
            Err(LanguloErr::Semantic(SemanticError::DuplicateDefaultKey))
        } else {
            match next_token(lexemes, at) {
                Err(e) => Err(e),
                Ok((a, _, _)) => leaf(a, AstNode::DefaultKey, "_"@),
            }
        }
    } else {
        expr(lexemes, at, 0, SemicolonPolicy::RequiredAbsent)
    }
}

/// The pairs of a table, each a key, a colon and a value, between commas, up to the
/// closing bracket.
pub open spec fn pairs(lexemes: Seq<Scanned>, at: Progress, seen: bool) -> Result<
    Progress,
    LanguloErr,
>
    decreases lexemes.len() - at.position, 4int,
{
    match peeked(lexemes, at) {
        Err(e) => Err(e),
        Ok(next) => if next == Some(Tok::RBracket) {
            Ok(at)
        } else {
            let default = next == Some(Tok::Underscore);
            match onward(lexemes, at.position, key(lexemes, at, default, seen)) {
                Err(e) => Err(e),
                Ok(a) => match expected(lexemes, a, Tok::Colon) {
                    Err(e) => Err(e),
                    Ok((b, _)) => match onward(
                        lexemes, b.position,
                        expr(lexemes, b, 0, SemicolonPolicy::RequiredAbsent),
                    ) {
                        Err(e) => Err(e),
                        Ok(c) => {
                            let d = wrapped(c, AstNode::TablePair, at.children.len() as int);
                            match peeked(lexemes, d) {
                                Err(e) => Err(e),
                                Ok(comma) => if comma == Some(Tok::Comma) {
                                    match next_token(lexemes, d) {
                                        Err(e) => Err(e),
                                        Ok((f, _, _)) => pairs(lexemes, f, seen || default),
                                    }
                                } else {
                                    Ok(d)
                                },
                            }
                        },
                    },
                },
            }
        },
    }
}

/// A table, behind its opening bracket: its pairs and the closing bracket.
pub open spec fn table(lexemes: Seq<Scanned>, at: Progress) -> Result<Progress, LanguloErr>
    decreases lexemes.len() - at.position, 5int,
{
    match pairs(lexemes, at, false) {
        Err(e) => Err(e),
        Ok(a) => match expected(lexemes, a, Tok::RBracket) {
            Err(e) => Err(e),
            Ok((b, _)) => Ok(wrapped(b, AstNode::Table, at.children.len() as int)),
        },
    }
}

/// Expressions between commas, up to a closing parenthesis.
pub open spec fn arguments(lexemes: Seq<Scanned>, at: Progress) -> Result<Progress, LanguloErr>
    decreases lexemes.len() - at.position, 3int,
{
    match peeked(lexemes, at) {
        Err(e) => Err(e),
        Ok(next) => if next == Some(Tok::RParen) {
            Ok(at)
        } else {
            match onward(
                lexemes,
                at.position,
                expr(lexemes, at, 0, SemicolonPolicy::RequiredAbsent),
            ) {
                Err(e) => Err(e),
                Ok(a) => match peeked(lexemes, a) {
                    Err(e) => Err(e),
                    Ok(comma) => if comma == Some(Tok::Comma) {
                        match next_token(lexemes, a) {
                            Err(e) => Err(e),
                            Ok((b, _, _)) => arguments(lexemes, b),
                        }
                    } else {
                        Ok(a)
                    },
                },
            }
        },
    }
}

/// Statements up to the token that ends them. Each has a semicolon behind it; the last
/// one need not.
pub open spec fn statements(lexemes: Seq<Scanned>, at: Progress, end: Tok) -> Result<
    Progress,
    LanguloErr,
>
    decreases lexemes.len() - at.position, 3int,
{
    match peeked(lexemes, at) {
        Err(e) => Err(e),
        Ok(next) => if next == Some(end) {
            Ok(at)
        } else {
            match beyond(
                lexemes,
                at.position,
                expr(lexemes, at, 0, SemicolonPolicy::RequiredAbsent),
            ) {
                Err(e) => Err(e),
                Ok(a) => match peeked(lexemes, a) {
                    Err(e) => Err(e),
                    Ok(after) => {
                        let policy = if after == Some(end) {
                            SemicolonPolicy::Optional
                        } else {
                            SemicolonPolicy::RequiredPresent
                        };
                        match onward(lexemes, a.position, semicolon(lexemes, a, policy)) {
                            Err(e) => Err(e),
                            Ok(b) => statements(lexemes, b, end),
                        }
                    },
                },
            }
        },
    }
}

/// A scope or the body of a lambda, behind the token that starts it: statements, and
/// the token that ends it.
pub open spec fn scope(lexemes: Seq<Scanned>, at: Progress, kind: AstNode, end: Tok) -> Result<
    Progress,
    LanguloErr,
>
    decreases lexemes.len() - at.position, 4int,
{
    match statements(lexemes, at, end) {
        Err(e) => Err(e),
        Ok(a) => match expected(lexemes, a, end) {
            Err(e) => Err(e),
            Ok((b, _)) => Ok(wrapped(b, kind, at.children.len() as int)),
        },
    }
}

/// The parameters of a function, in parentheses: the principal one, where there is
/// one, and the others.
#[verifier::opaque]
pub open spec fn parameter_list(lexemes: Seq<Scanned>, at: Progress) -> Result<
    Progress,
    LanguloErr,
> {
    match expected(lexemes, at, Tok::LParen) {
        Err(e) => Err(e),
        Ok((a, _)) => match principal_parameter(lexemes, a) {
            Err(e) => Err(e),
            Ok(b) => match parameters(lexemes, b) {
                Err(e) => Err(e),
                Ok(c) => match expected(lexemes, c, Tok::RParen) {
                    Err(e) => Err(e),
                    Ok((d, _)) => Ok(d),
                },
            },
        },
    }
}

/// The declaration of a function, behind its `fn`: the parameters, the type of the
/// result, and the body.
pub open spec fn function(lexemes: Seq<Scanned>, at: Progress) -> Result<Progress, LanguloErr>
    decreases lexemes.len() - at.position, 5int,
{
    match onward(lexemes, at.position, parameter_list(lexemes, at)) {
        Err(e) => Err(e),
        Ok(a) => match onward(lexemes, a.position, annotation(lexemes, a)) {
            Err(e) => Err(e),
            Ok(b) => match expected(lexemes, b, Tok::LBrace) {
                Err(e) => Err(e),
                Ok((c, _)) => match scope(lexemes, c, AstNode::Scope, Tok::RBrace) {
                    Err(e) => Err(e),
                    Ok(d) => Ok(wrapped(d, AstNode::FunctionDecl, at.children.len() as int)),
                },
            },
        },
    }
}

/// The application of a function, behind its `@`: the function, and its arguments in
/// parentheses.
pub open spec fn application(lexemes: Seq<Scanned>, at: Progress) -> Result<Progress, LanguloErr>
    decreases lexemes.len() - at.position, 4int,
{
    match onward(lexemes, at.position, expr(lexemes, at, 0, SemicolonPolicy::RequiredAbsent)) {
        Err(e) => Err(e),
        Ok(a) => match expected(lexemes, a, Tok::LParen) {
            Err(e) => Err(e),
            Ok((b, _)) => match arguments(lexemes, b) {
                Err(e) => Err(e),
                Ok(c) => match expected(
                    lexemes,
                    wrapped(c, AstNode::ContourArgs, b.children.len() as int),
                    Tok::RParen,
                ) {
                    Err(e) => Err(e),
                    Ok((d, _)) => Ok(wrapped(d, AstNode::FunctionAppl, at.children.len() as int)),
                },
            },
        },
    }
}

/// The further arguments of a method, where there are any: in parentheses, behind the
/// function.
pub open spec fn further_arguments(lexemes: Seq<Scanned>, at: Progress) -> Result<
    Progress,
    LanguloErr,
>
    decreases lexemes.len() - at.position, 4int,
{
    match peeked(lexemes, at) {
        Err(e) => Err(e),
        Ok(paren) => if paren == Some(Tok::LParen) {
            match next_token(lexemes, at) {
                Err(e) => Err(e),
                Ok((a, _, _)) => match arguments(lexemes, a) {
                    Err(e) => Err(e),
                    Ok(b) => match expected(lexemes, b, Tok::RParen) {
                        Err(e) => Err(e),
                        Ok((c, _)) => Ok(wrapped(c, AstNode::ContourArgs, a.children.len() as int)),
                    },
                },
            }
        } else {
            Ok(at)
        },
    }
}

/// The application of a function to what stands from `base` on, behind its `@`: the
/// function, and further arguments if there are any.
pub open spec fn method(lexemes: Seq<Scanned>, at: Progress, base: int) -> Result<
    Progress,
    LanguloErr,
>
    decreases lexemes.len() - at.position, 5int,
{
    match onward(
        lexemes,
        at.position,
        expr(lexemes, at, binding(Tok::At), SemicolonPolicy::RequiredAbsent),
    ) {
        Err(e) => Err(e),
        Ok(a) => match further_arguments(lexemes, a) {
            Err(e) => Err(e),
            Ok(b) => Ok(wrapped(b, AstNode::FunctionAppl, base)),
        },
    }
}

/// A look into the table that stands from `base` on, behind the opening bracket: the
/// key and the closing bracket.
pub open spec fn indexing(lexemes: Seq<Scanned>, at: Progress, base: int) -> Result<
    Progress,
    LanguloErr,
>
    decreases lexemes.len() - at.position, 4int,
{
    match expr(lexemes, at, 0, SemicolonPolicy::RequiredAbsent) {
        Err(e) => Err(e),
        Ok(a) => match expected(lexemes, a, Tok::RBracket) {
            Err(e) => Err(e),
            Ok((b, _)) => Ok(wrapped(b, AstNode::TableIndexing, base)),
        },
    }
}

/// The node of an operator between two operands, if the token is such an operator.
pub open spec fn infix(tok: Tok) -> Option<AstNode> {
    match tok {
        Tok::Plus => Some(AstNode::Add),
        Tok::Minus => Some(AstNode::Subtract),
        Tok::Star => Some(AstNode::Multiply),
        Tok::Slash => Some(AstNode::Divide),
        Tok::Modulo => Some(AstNode::Modulo),
        Tok::Caret => Some(AstNode::Power),
        Tok::And => Some(AstNode::LogicalAnd),
        Tok::Or => Some(AstNode::LogicalOr),
        Tok::Xor => Some(AstNode::LogicalXor),
        Tok::Equals => Some(AstNode::Equals),
        Tok::NotEquals => Some(AstNode::NotEquals),
        Tok::GreaterThan => Some(AstNode::GreaterThan),
        Tok::LessThan => Some(AstNode::LessThan),
        Tok::GreaterThanEq => Some(AstNode::GreaterThanEq),
        Tok::LessThanEq => Some(AstNode::LessThanEq),
        Tok::Assign => Some(AstNode::Assign),
        Tok::Else => Some(AstNode::Else),
        _ => None,
    }
}

/// An operator behind the operand that stands from `base` on, and what the operator
/// takes to its right.
pub open spec fn postfix(lexemes: Seq<Scanned>, at: Progress, base: int, precedence: u8) -> Result<
    Progress,
    LanguloErr,
>
    decreases lexemes.len() - at.position, 1int,
{
    match next_token(lexemes, at) {
        Err(e) => Err(e),
        Ok((a, tok, _)) => match infix(tok) {
            Some(kind) => operation(lexemes, a, kind, base, precedence),
            None => match tok {
                Tok::Question => Ok(wrapped(a, AstNode::Option, base)),
                Tok::Bang => Ok(wrapped(a, AstNode::UnwrapOption, base)),
                Tok::LBracket => indexing(lexemes, a, base),
                Tok::At => method(lexemes, a, base),
                _ => Err(malformed()),
            },
        },
    }
}

/// The statements of a program, each with a semicolon behind it, up to the end of the
/// source; the last one need not have one.
pub open spec fn program_statements(lexemes: Seq<Scanned>, at: Progress) -> Result<
    Progress,
    LanguloErr,
>
    decreases lexemes.len() - at.position,
{
    match peeked(lexemes, at) {
        Err(e) => Err(e),
        Ok(None) => Ok(at),
        Ok(Some(_)) => match beyond(
            lexemes, at.position,
            expr(lexemes, at, 0, SemicolonPolicy::RequiredPresent),
        ) {
            Err(e) => Err(e),
            Ok(a) => program_statements(lexemes, a),
        },
    }
}

/// A program: its statements, below one root node.
pub open spec fn program(lexemes: Seq<Scanned>, at: Progress) -> Result<Progress, LanguloErr> {
    match program_statements(lexemes, at) {
        Err(e) => Err(e),
        Ok(a) => Ok(wrapped(a, AstNode::Root, at.children.len() as int)),
    }
}

} // verus!
