//! The parser: from tokens to a syntax tree.
//!
//! An expression is parsed by precedence: a prefix, which is a literal, a name or a
//! construct that starts with a keyword or a bracket, and then the operators that follow
//! it, as long as they bind tighter than the operator that the expression is an operand
//! of. The tree is built as the tokens are read: a node that is only known once its
//! operator is seen is opened after the fact, around the pieces since a checkpoint.
//!
//! What each rule makes of the tokens is said in `grammar`; the functions here do that,
//! and keep the tree in shape while they do.

pub mod ast;
pub mod grammar;
pub mod precedence;
pub mod tree;

use vstd::prelude::*;
use rowan::Checkpoint;
use crate::errors::err::{LanguloErr, SemanticError};
use crate::lexer::tok::Tok;
use crate::lexer::{read_at, Lexer, Scanned};
use crate::parser::ast::lang::LanguloSyntaxNode;
use crate::parser::ast::node::AstNode;
use crate::parser::grammar::{Progress, SemicolonPolicy};
use crate::parser::tree::{
    lemma_closed_shaped, lemma_count_same, lemma_count_split, lemma_mirrors_shaped,
    lemma_shaped_same, marked,
    mirrors, node_count, shaped, shaped_all, syntax_tree, Element, TreeBuilder,
};

verus! {

pub struct Parser {
    lexer: Lexer,
    builder: TreeBuilder,
}

/// Whether the pieces before `base` are the same in both.
pub open spec fn kept(before: Seq<Element>, after: Seq<Element>, base: int) -> bool {
    &&& 0 <= base <= before.len()
    &&& base <= after.len()
    &&& forall|i: int| 0 <= i < base ==> after[i] == before[i]
}

impl Parser {
    /// The tokens that the parser reads.
    pub closed spec fn lexemes(&self) -> Seq<Scanned> {
        self.lexer.lexemes()
    }

    /// How many tokens have been read.
    pub closed spec fn position(&self) -> int {
        self.lexer.position()
    }

    /// The pieces of the tree that have been built.
    pub closed spec fn children(&self) -> Seq<Element> {
        self.builder.children()
    }

    /// The nodes that are open.
    pub closed spec fn parents(&self) -> Seq<(u16, nat)> {
        self.builder.parents()
    }

    /// What holds of every parser: its lexer and its builder are in order, and what it has
    /// built is shaped as the language says.
    pub closed spec fn wf(&self) -> bool {
        &&& self.lexer.wf()
        &&& self.builder.wf()
        &&& shaped_all(self.builder.children(), self.builder.children().len() as int)
    }

    /// How far the parser has come.
    pub open spec fn progress(&self) -> Progress {
        Progress { position: self.position(), children: self.children() }
    }

    /// The number of nodes among the pieces from `base` on.
    pub open spec fn nodes_from(&self, base: int) -> nat {
        node_count(self.children(), base, self.children().len() as int)
    }

    /// How many tokens are still to be read.
    pub open spec fn remaining(&self) -> int {
        self.lexemes().len() - self.position()
    }

    /// Whether everything between the two positions is a token.
    pub open spec fn tokens_between(&self, from: int, upto: int) -> bool {
        forall|i: int| from <= i < upto ==> #[trigger] self.lexemes()[i] is Token
    }

    /// Whether the parser has got here from `before` by reading tokens and building
    /// pieces: what it has read were tokens, the same nodes are open, and the pieces in
    /// front of `base` are as they were.
    pub open spec fn continues(&self, before: Parser, base: int) -> bool {
        &&& self.wf()
        &&& self.lexemes() == before.lexemes()
        &&& self.position() >= before.position()
        &&& self.tokens_between(before.position(), self.position())
        &&& self.parents() == before.parents()
        &&& kept(before.children(), self.children(), base)
    }

    /// Whether the parser has got here from `before` as in `continues`, and with `nodes`
    /// more nodes among its pieces than before, counted from any place in front of
    /// `base`.
    pub open spec fn follows(&self, before: Parser, base: int, nodes: int) -> bool {
        &&& self.continues(before, base)
        &&& forall|from: int|
            0 <= from <= base ==> #[trigger] node_count(
                self.children(),
                from,
                self.children().len() as int,
            ) == before.nodes_from(from) + nodes
    }

    /// Whether the parser holds a finished tree: one node, and no node open.
    pub open spec fn finished(&self) -> bool {
        &&& self.children().len() == 1
        &&& self.children()[0] is Node
        &&& self.parents().len() == 0
        &&& shaped(self.children()[0])
    }

    /// A parser for a source.
    pub fn new(input: &str) -> (parser: Parser)
        ensures
            parser.wf(),
            parser.lexemes() == crate::lexer::scan::scanned(input@, 0),
            parser.position() == 0,
            parser.children().len() == 0,
            parser.parents().len() == 0,
    {
        Parser::from_lexer(Lexer::new(input))
    }

    /// A parser for the tokens that the lexer has not read yet.
    pub fn from_lexer(lexer: Lexer) -> (parser: Parser)
        requires
            lexer.wf(),
        ensures
            parser.wf(),
            parser.lexemes() == lexer.lexemes(),
            parser.position() == lexer.position(),
            parser.children().len() == 0,
            parser.parents().len() == 0,
    {
        Parser { lexer, builder: TreeBuilder::new() }
    }

    /// The syntax tree of what was parsed.
    pub fn to_ast(self) -> (node: LanguloSyntaxNode)
        requires
            self.wf(),
            self.finished(),
        ensures
            mirrors(node, self.children()[0]),
            node.shaped(),
    {
        let green = self.builder.finish();
        match syntax_tree(&green) {
            Ok(node) => {
                proof {
                    lemma_mirrors_shaped(node, self.children()[0]);
                }
                node
            },
            Err(_) => vstd::pervasive::unreached(),
        }
    }

    /// Hands the trivia in front of the next token to the tree.
    fn skip_trivia(&mut self) -> (result: Result<(), LanguloErr>)
        requires
            old(self).wf(),
        ensures
            match grammar::trivia(old(self).lexemes(), old(self).progress()) {
                Ok(next) => result is Ok && final(self).progress() == next,
                Err(e) => result == Err::<(), LanguloErr>(e),
            },
            result is Ok ==> final(self).follows(*old(self), old(self).children().len() as int, 0),
            result is Ok ==> !(read_at(final(self).lexemes(), final(self).position()) matches Ok(
                Some((kind, _)),
            ) && (kind == Tok::Whitespace || kind == Tok::Comment)),
    {
        loop
            invariant
                self.follows(*old(self), old(self).children().len() as int, 0),
                grammar::trivia(self.lexemes(), self.progress()) == grammar::trivia(
                    old(self).lexemes(),
                    old(self).progress(),
                ),
            decreases self.remaining(),
        {
            let ghost before = *self;
            let (kind, text) = match self.lexer.peek() {
                Ok(Some((kind, text))) => (kind, text),
                Ok(None) => {
                    return Ok(());
                },
                Err(e) => {
                    return Err(e);
                },
            };
            let node = match kind {
                Tok::Whitespace => AstNode::Whitespace,
                Tok::Comment => AstNode::Comment,
                _ => {
                    return Ok(());
                },
            };
            match self.builder.token(node, text) {
                Ok(()) => {},
                Err(e) => {
                    return Err(e);
                },
            }
            proof {
                self.lemma_token(before);
            }
            match self.lexer.next() {
                Ok(_) => {},
                Err(e) => {
                    return Err(e);
                },
            }
        }
    }

    /// Reads the next token that is no trivia, and the trivia around it.
    fn next_token(&mut self) -> (result: Result<(Tok, String), LanguloErr>)
        requires
            old(self).wf(),
        ensures
            match grammar::next_token(old(self).lexemes(), old(self).progress()) {
                Ok((next, kind, text)) => (result matches Ok((k, t)) && k == kind && t@ == text)
                    && final(self).progress() == next,
                Err(e) => result matches Err(error) && error == e,
            },
            result is Ok ==> final(self).follows(*old(self), old(self).children().len() as int, 0)
                && final(self).position() > old(self).position(),
    {
        match self.skip_trivia() {
            Ok(()) => {},
            Err(e) => {
                return Err(e);
            },
        }
        let token = match self.lexer.next() {
            Ok(Some((kind, text))) => (kind, text.to_owned()),
            Ok(None) => {
                return Err(LanguloErr::Semantic(SemanticError::Malformed));
            },
            Err(e) => {
                return Err(e);
            },
        };
        match self.skip_trivia() {
            Ok(()) => Ok(token),
            Err(e) => Err(e),
        }
    }

    /// The kind of the next token, if there is one.
    fn peek_kind(&mut self) -> (result: Result<Option<Tok>, LanguloErr>)
        requires
            old(self).wf(),
        ensures
            match grammar::peeked(old(self).lexemes(), old(self).progress()) {
                Ok(kind) => result == Ok::<Option<Tok>, LanguloErr>(kind),
                Err(e) => result == Err::<Option<Tok>, LanguloErr>(e),
            },
            result is Ok ==> final(self).follows(*old(self), old(self).children().len() as int, 0)
                && final(self).position() == old(self).position() && final(self).children()
                == old(self).children(),
            result matches Ok(Some(_)) ==> old(self).remaining() > 0,
            result matches Ok(None) ==> old(self).remaining() <= 0,
    {
        match self.lexer.peek() {
            Ok(Some((kind, _))) => Ok(Some(kind)),
            Ok(None) => Ok(None),
            Err(e) => Err(e),
        }
    }

    /// Reads the next token, which must be of the given kind, and returns its text.
    fn assert_tok(&mut self, tok: Tok) -> (result: Result<String, LanguloErr>)
        requires
            old(self).wf(),
        ensures
            match grammar::expected(old(self).lexemes(), old(self).progress(), tok) {
                Ok((next, text)) => (result matches Ok(t) && t@ == text) && final(self).progress()
                    == next,
                Err(e) => result matches Err(error) && error == e,
            },
            result is Ok ==> final(self).follows(*old(self), old(self).children().len() as int, 0)
                && final(self).position() > old(self).position(),
    {
        match self.peek_kind() {
            Ok(Some(kind)) => {
                if kind == tok {
                    match self.next_token() {
                        Ok((_, content)) => Ok(content),
                        Err(e) => Err(e),
                    }
                } else {
                    Err(LanguloErr::Semantic(SemanticError::Malformed))
                }
            },
            Ok(None) => Err(LanguloErr::Semantic(SemanticError::Malformed)),
            Err(e) => Err(e),
        }
    }

    fn handle_semicolon(&mut self, policy: SemicolonPolicy) -> (result: Result<(), LanguloErr>)
        requires
            old(self).wf(),
        ensures
            match grammar::semicolon(old(self).lexemes(), old(self).progress(), policy) {
                Ok(next) => result is Ok && final(self).progress() == next,
                Err(e) => result == Err::<(), LanguloErr>(e),
            },
            result is Ok ==> final(self).follows(*old(self), old(self).children().len() as int, 0),
    {
        // semicolons at eof are optional
        let some_tok = match self.peek_kind() {
            Ok(Some(tok)) => tok,
            Ok(None) => {
                return Ok(());
            },
            Err(e) => {
                return Err(e);
            },
        };
        let next_is_semicolon = some_tok == Tok::Semicolon;
        match (policy, next_is_semicolon) {
            // a semicolon that must be absent is left where it is: the expression
            // around this one may ask for it
            (SemicolonPolicy::RequiredAbsent, _) | (SemicolonPolicy::Optional, false) => Ok(()),
            (SemicolonPolicy::RequiredPresent, false) => Err(
                LanguloErr::Semantic(SemanticError::MissingTerminator),
            ),
            (SemicolonPolicy::RequiredPresent, true) | (SemicolonPolicy::Optional, true) => {
                match self.next_token() {
                    Ok(_) => Ok(()),
                    Err(e) => Err(e),
                }
            },
        }
    }

    /// A node that holds one token.
    fn new_leaf_node(&mut self, expr: AstNode, content: &str) -> (result: Result<(), LanguloErr>)
        requires
            old(self).wf(),
            expr.takes(0),
        ensures
            match grammar::leaf(old(self).progress(), expr, content@) {
                Ok(next) => result is Ok && final(self).progress() == next,
                Err(e) => result == Err::<(), LanguloErr>(e),
            },
            result is Ok ==> final(self).follows(*old(self), old(self).children().len() as int, 1)
                && final(self).position() == old(self).position() && final(self).children().len()
                == old(self).children().len() + 1,
    {
        self.open(expr);
        let ghost opened = *self;
        match self.token(expr, content) {
            Ok(()) => {},
            Err(e) => {
                return Err(e);
            },
        }
        proof {
            self.lemma_still_opened(
                *old(self),
                opened,
                expr.code(),
                old(self).children().len() as int,
            );
        }
        self.close(Ghost(*old(self)), expr, Ghost(old(self).children().len() as int));
        Ok(())
    }

    /// Whether the parser has got here from `start` by opening a node of the given kind
    /// at `base` and then reading tokens and building pieces below it.
    pub open spec fn opened(&self, start: Parser, kind: u16, base: int) -> bool {
        &&& self.wf()
        &&& self.lexemes() == start.lexemes()
        &&& self.position() >= start.position()
        &&& self.tokens_between(start.position(), self.position())
        &&& self.parents() == start.parents().push((kind, base as nat))
        &&& kept(start.children(), self.children(), base)
    }

    /// Reading on below an open node leaves it open.
    proof fn lemma_still_opened(&self, start: Parser, middle: Parser, kind: u16, base: int)
        requires
            middle.opened(start, kind, base),
            self.continues(middle, middle.children().len() as int) || exists|from: int|
                base <= from && self.continues(middle, from),
        ensures
            self.opened(start, kind, base),
    {
    }

    /// Opens a node.
    fn open(&mut self, kind: AstNode)
        requires
            old(self).wf(),
        ensures
            final(self).opened(*old(self), kind.code(), old(self).children().len() as int),
            final(self).position() == old(self).position(),
            final(self).children() == old(self).children(),
    {
        self.builder.start_node(kind);
    }

    /// Opens a node around the pieces since the checkpoint.
    fn open_at(&mut self, checkpoint: Checkpoint, kind: AstNode)
        requires
            old(self).wf(),
            marked(checkpoint) <= old(self).children().len(),
            old(self).parents().len() > 0 ==> old(self).parents().last().1 <= marked(checkpoint),
        ensures
            final(self).opened(*old(self), kind.code(), marked(checkpoint) as int),
            final(self).position() == old(self).position(),
            final(self).children() == old(self).children(),
    {
        self.builder.start_node_at(checkpoint, kind);
    }

    /// Hands one token to the tree.
    fn token(&mut self, kind: AstNode, text: &str) -> (result: Result<(), LanguloErr>)
        requires
            old(self).wf(),
        ensures
            match grammar::with_token(old(self).children(), kind, text@) {
                Ok(children) => result is Ok && final(self).children() == children,
                Err(e) => result == Err::<(), LanguloErr>(e),
            },
            result is Ok ==> final(self).follows(*old(self), old(self).children().len() as int, 0)
                && final(self).position() == old(self).position() && final(self).children().len()
                == old(self).children().len() + 1,
    {
        let outcome = self.builder.token(kind, text);
        proof {
            if outcome is Ok {
                self.lemma_token(*old(self));
            }
        }
        outcome
    }

    /// A token more leaves the pieces shaped, and the nodes as many as they were.
    proof fn lemma_token(&self, before: Parser)
        requires
            before.wf(),
            self.lexer.wf(),
            self.builder.wf(),
            self.children().len() == before.children().len() + 1,
            self.children().last() is Token,
            kept(before.children(), self.children(), before.children().len() as int),
        ensures
            self.wf(),
            forall|from: int|
                0 <= from <= before.children().len() ==> #[trigger] node_count(
                    self.children(),
                    from,
                    self.children().len() as int,
                ) == before.nodes_from(from),
    {
        let size = before.children().len() as int;
        lemma_shaped_same(self.children(), before.children(), size);
        assert(shaped(self.children()[size]));
        assert(shaped_all(self.children(), size + 1));
        assert forall|from: int| 0 <= from <= size implies #[trigger] node_count(
            self.children(),
            from,
            self.children().len() as int,
        ) == before.nodes_from(from) by {
            lemma_count_same(self.children(), before.children(), from, size);
        }
    }

    /// Closes the node that was opened at `base`, behind all the pieces that there were.
    fn close(&mut self, Ghost(start): Ghost<Parser>, kind: AstNode, Ghost(base): Ghost<int>)
        requires
            old(self).opened(start, kind.code(), base),
            base == start.children().len(),
            kind.takes(old(self).nodes_from(base) as int),
        ensures
            final(self).progress() == grammar::wrapped(old(self).progress(), kind, base),
            final(self).follows(start, base, 1),
            final(self).position() == old(self).position(),
            final(self).children().len() == base + 1,
            final(self).children()[base] matches Element::Node { kind: k, .. } && k == kind.code(),
    {
        self.builder.finish_node();
        proof {
            let before = old(self).children();
            assert(start.parents().push((kind.code(), base as nat)).drop_last()
                =~= start.parents());
            lemma_closed_shaped(before, kind, base, base);
            assert forall|from: int| 0 <= from <= base implies #[trigger] node_count(
                self.children(),
                from,
                self.children().len() as int,
            ) == start.nodes_from(from) + 1 by {
                lemma_closed_shaped(before, kind, base, from);
                lemma_count_same(before, start.children(), from, base);
            }
        }
    }

    /// Closes the node that was opened at `base` around the one node that stood there.
    fn close_at(&mut self, Ghost(start): Ghost<Parser>, kind: AstNode, Ghost(base): Ghost<int>)
        requires
            old(self).opened(start, kind.code(), base),
            start.nodes_from(base) == 1,
            kind.takes(old(self).nodes_from(base) as int),
        ensures
            final(self).progress() == grammar::wrapped(old(self).progress(), kind, base),
            final(self).follows(start, base, 0),
            final(self).position() == old(self).position(),
            final(self).children().len() == base + 1,
            final(self).children()[base] matches Element::Node { kind: k, .. } && k == kind.code(),
    {
        self.builder.finish_node();
        proof {
            let before = old(self).children();
            assert(start.parents().push((kind.code(), base as nat)).drop_last()
                =~= start.parents());
            lemma_closed_shaped(before, kind, base, base);
            assert forall|from: int| 0 <= from <= base implies #[trigger] node_count(
                self.children(),
                from,
                self.children().len() as int,
            ) == start.nodes_from(from) by {
                lemma_closed_shaped(before, kind, base, from);
                lemma_count_same(before, start.children(), from, base);
                lemma_count_split(start.children(), from, base, start.children().len() as int);
            }
        }
    }

    /// An operator between two operands: the left one has been parsed since the
    /// checkpoint, the right one follows.
    fn new_binary_node(&mut self, kind: AstNode, checkpoint: Checkpoint, precedence: u8) -> (result:
        Result<(), LanguloErr>)
        requires
            old(self).wf(),
            marked(checkpoint) <= old(self).children().len(),
            old(self).parents().len() > 0 ==> old(self).parents().last().1 <= marked(checkpoint),
            old(self).nodes_from(marked(checkpoint) as int) == 1,
            kind.takes(2),
        ensures
            match grammar::operation(
                old(self).lexemes(),
                old(self).progress(),
                kind,
                marked(checkpoint) as int,
                precedence,
            ) {
                Ok(next) => result is Ok && final(self).progress() == next,
                Err(e) => result == Err::<(), LanguloErr>(e),
            },
            result is Ok ==> final(self).follows(*old(self), marked(checkpoint) as int, 0)
                && final(self).position() > old(self).position() && final(self).children().len()
                > marked(checkpoint),
        decreases old(self).remaining(), 3int,
    {
        self.open_at(checkpoint, kind);
        let ghost opened = *self;
        match self.parse_expr(precedence, SemicolonPolicy::RequiredAbsent) {
            Ok(()) => {},
            Err(e) => {
                return Err(e);
            },
        }
        proof {
            self.lemma_still_opened(*old(self), opened, kind.code(), marked(checkpoint) as int);
        }
        self.close_at(Ghost(*old(self)), kind, Ghost(marked(checkpoint) as int));
        Ok(())
    }

    /// An operator in front of its operand.
    fn new_prefix_unary_node(&mut self, kind: AstNode, precedence: u8) -> (result: Result<
        (),
        LanguloErr,
    >)
        requires
            old(self).wf(),
            kind.takes(1),
        ensures
            match grammar::operation(
                old(self).lexemes(),
                old(self).progress(),
                kind,
                old(self).children().len() as int,
                precedence,
            ) {
                Ok(next) => result is Ok && final(self).progress() == next,
                Err(e) => result == Err::<(), LanguloErr>(e),
            },
            result is Ok ==> final(self).follows(*old(self), old(self).children().len() as int, 1)
                && final(self).position() > old(self).position() && final(self).children().len()
                > old(self).children().len(),
        decreases old(self).remaining(), 3int,
    {
        self.open(kind);
        let ghost opened = *self;
        match self.parse_expr(precedence, SemicolonPolicy::RequiredAbsent) {
            Ok(()) => {},
            Err(e) => {
                return Err(e);
            },
        }
        proof {
            self.lemma_still_opened(
                *old(self),
                opened,
                kind.code(),
                old(self).children().len() as int,
            );
        }
        self.close(
            Ghost(*old(self)),
            kind,
            Ghost(old(self).children().len() as int),
        );
        Ok(())
    }

    /// An operator behind its operand, which has been parsed since the checkpoint.
    fn new_postfix_unary_node(&mut self, kind: AstNode, checkpoint: Checkpoint)
        requires
            old(self).wf(),
            marked(checkpoint) <= old(self).children().len(),
            old(self).parents().len() > 0 ==> old(self).parents().last().1 <= marked(checkpoint),
            old(self).nodes_from(marked(checkpoint) as int) == 1,
            kind.takes(1),
        ensures
            final(self).progress() == grammar::wrapped(
                old(self).progress(),
                kind,
                marked(checkpoint) as int,
            ),
            final(self).follows(*old(self), marked(checkpoint) as int, 0),
            final(self).position() == old(self).position(),
            final(self).children().len() > marked(checkpoint),
    {
        self.open_at(checkpoint, kind);
        self.close_at(Ghost(*old(self)), kind, Ghost(marked(checkpoint) as int));
    }

    /// An expression: a prefix, and the operators behind it that bind tighter than
    /// `precedence`.
    fn parse_expr(&mut self, precedence: u8, check_semicolon: SemicolonPolicy) -> (result: Result<
        (),
        LanguloErr,
    >)
        requires
            old(self).wf(),
        ensures
            match grammar::expr(
                old(self).lexemes(),
                old(self).progress(),
                precedence,
                check_semicolon,
            ) {
                Ok(next) => result is Ok && final(self).progress() == next,
                Err(e) => result == Err::<(), LanguloErr>(e),
            },
            result is Ok ==> final(self).follows(*old(self), old(self).children().len() as int, 1)
                && final(self).position() > old(self).position() && final(self).children().len()
                > old(self).children().len(),
        decreases old(self).remaining(), 2int,
    {
        let checkpoint = self.builder.checkpoint();
        let ghost base = old(self).children().len() as int;
        match self.parse_prefix() {
            Ok(()) => {},
            Err(e) => {
                return Err(e);
            },
        }
        let ghost first = self.progress();
        loop
            invariant_except_break
                grammar::operators(self.lexemes(), self.progress(), base, precedence)
                    == grammar::operators(old(self).lexemes(), first, base, precedence),
            invariant
                grammar::prefix(old(self).lexemes(), old(self).progress()) == Ok::<
                    Progress,
                    LanguloErr,
                >(first),
                first.position > old(self).position(),
                self.follows(*old(self), base, 1),
                base == old(self).children().len(),
                marked(checkpoint) == base,
                self.position() > old(self).position(),
                self.children().len() > base,
                old(self).wf(),
            ensures
                grammar::operators(old(self).lexemes(), first, base, precedence)
                    == Ok::<Progress, LanguloErr>(self.progress()),
            decreases self.remaining(),
        {
            let tok = match self.peek_kind() {
                Ok(Some(tok)) => tok,
                Ok(None) => {
                    break ;
                },
                Err(e) => {
                    return Err(e);
                },
            };
            if !tok.binds() {
                return Err(LanguloErr::Semantic(SemanticError::Malformed));
            }
            let tok_precedence = tok.precedence();
            if tok_precedence <= precedence {
                break ;
            }
            match self.parse_postfix(checkpoint, tok_precedence) {
                Ok(()) => {},
                Err(e) => {
                    return Err(e);
                },
            }
        }
        self.handle_semicolon(check_semicolon)
    }

    /// The start of an expression: a literal, a name, or a construct that starts with a
    /// keyword, a prefix operator or an opening bracket.
    fn parse_prefix(&mut self) -> (result: Result<(), LanguloErr>)
        requires
            old(self).wf(),
        ensures
            match grammar::prefix(old(self).lexemes(), old(self).progress()) {
                Ok(next) => result is Ok && final(self).progress() == next,
                Err(e) => result == Err::<(), LanguloErr>(e),
            },
            result is Ok ==> final(self).follows(*old(self), old(self).children().len() as int, 1)
                && final(self).position() > old(self).position() && final(self).children().len()
                > old(self).children().len(),
        decreases old(self).remaining(), 1int,
    {
        let (tok, content) = match self.next_token() {
            Ok(value) => value,
            Err(e) => {
                return Err(e);
            },
        };
        match tok {
            Tok::Int => self.new_leaf_node(AstNode::Int, content.as_str()),
            Tok::Float => self.new_leaf_node(AstNode::Float, content.as_str()),
            Tok::Bool => self.new_leaf_node(AstNode::Bool, content.as_str()),
            Tok::Char => self.new_leaf_node(AstNode::Char, content.as_str()),
            Tok::Str => self.new_leaf_node(AstNode::Str, content.as_str()),
            Tok::Identifier => self.new_leaf_node(AstNode::Identifier, content.as_str()),
            Tok::No => self.new_leaf_node(AstNode::Option, content.as_str()),
            Tok::Not => self.new_prefix_unary_node(AstNode::LogicalNot, Tok::Not.precedence()),
            Tok::Dollar => self.new_prefix_unary_node(AstNode::Print, Tok::Dollar.precedence()),
            Tok::Pipe => self.parse_scope(AstNode::Lambda, Tok::Pipe),
            Tok::LParen => self.parse_grouping(),
            Tok::LBrace => self.parse_scope(AstNode::Scope, Tok::RBrace),
            Tok::If => self.parse_if(),
            Tok::Var => self.parse_var(),
            Tok::LBracket => self.parse_table(),
            Tok::Fn => self.parse_function(),
            Tok::At => self.parse_application(),
            _ => Err(LanguloErr::Semantic(SemanticError::Malformed)),
        }
    }

    /// An expression in parentheses, behind the opening one.
    fn parse_grouping(&mut self) -> (result: Result<(), LanguloErr>)
        requires
            old(self).wf(),
        ensures
            match grammar::grouping(old(self).lexemes(), old(self).progress()) {
                Ok(next) => result is Ok && final(self).progress() == next,
                Err(e) => result == Err::<(), LanguloErr>(e),
            },
            result is Ok ==> final(self).follows(*old(self), old(self).children().len() as int, 1)
                && final(self).position() > old(self).position() && final(self).children().len()
                > old(self).children().len(),
        decreases old(self).remaining(), 3int,
    {
        let ghost base = old(self).children().len() as int;
        self.open(AstNode::Grouping);
        match self.parse_expr(0, SemicolonPolicy::RequiredAbsent) {
            Ok(_) => {},
            Err(e) => {
                return Err(e);
            },
        }
        match self.assert_tok(Tok::RParen) {
            Ok(_) => {},
            Err(e) => {
                return Err(e);
            },
        }
        self.close(Ghost(*old(self)), AstNode::Grouping, Ghost(base));
        Ok(())
    }

    /// A conditional, behind its `if`: the condition and the body.
    fn parse_if(&mut self) -> (result: Result<(), LanguloErr>)
        requires
            old(self).wf(),
        ensures
            match grammar::conditional(old(self).lexemes(), old(self).progress()) {
                Ok(next) => result is Ok && final(self).progress() == next,
                Err(e) => result == Err::<(), LanguloErr>(e),
            },
            result is Ok ==> final(self).follows(*old(self), old(self).children().len() as int, 1)
                && final(self).position() > old(self).position() && final(self).children().len()
                > old(self).children().len(),
        decreases old(self).remaining(), 3int,
    {
        let ghost base = old(self).children().len() as int;
        self.open(AstNode::If);
        match self.parse_expr(0, SemicolonPolicy::RequiredAbsent) {
            Ok(_) => {},
            Err(e) => {
                return Err(e);
            },
        }
        match self.parse_expr(Tok::If.precedence(), SemicolonPolicy::RequiredAbsent) {
            Ok(_) => {},
            Err(e) => {
                return Err(e);
            },
        }
        self.close(Ghost(*old(self)), AstNode::If, Ghost(base));
        Ok(())
    }

    /// The declaration of a variable, behind its `var`: the name, a type hint if there
    /// is one, and the value.
    fn parse_var(&mut self) -> (result: Result<(), LanguloErr>)
        requires
            old(self).wf(),
        ensures
            match grammar::variable(old(self).lexemes(), old(self).progress()) {
                Ok(next) => result is Ok && final(self).progress() == next,
                Err(e) => result == Err::<(), LanguloErr>(e),
            },
            result is Ok ==> final(self).follows(*old(self), old(self).children().len() as int, 1)
                && final(self).position() > old(self).position() && final(self).children().len()
                > old(self).children().len(),
        decreases old(self).remaining(), 3int,
    {
        let ghost base = old(self).children().len() as int;
        self.open(AstNode::VarDecl);
        let var_name = match self.assert_tok(Tok::Identifier) {
            Ok(value) => value,
            Err(e) => {
                return Err(e);
            },
        };
        match self.token(AstNode::VarDecl, var_name.as_str()) {
            Ok(_) => {},
            Err(e) => {
                return Err(e);
            },
        }
        // optional type hint
        let hint = match self.peek_kind() {
            Ok(value) => value,
            Err(e) => {
                return Err(e);
            },
        };
        if hint == Some(Tok::Colon) {
            match self.next_token() {
                Ok(_) => {},
                Err(e) => {
                    return Err(e);
                },
            }
            match self.parse_type() {
                Ok(_) => {},
                Err(e) => {
                    return Err(e);
                },
            }
        }
        match self.assert_tok(Tok::Assign) {
            Ok(_) => {},
            Err(e) => {
                return Err(e);
            },
        }
        match self.parse_expr(0, SemicolonPolicy::RequiredAbsent) {
            Ok(_) => {},
            Err(e) => {
                return Err(e);
            },
        }
        self.close(Ghost(*old(self)), AstNode::VarDecl, Ghost(base));
        Ok(())
    }

    /// The key of a pair of a table: the default key, which a table may have once, or an
    /// expression.
    fn parse_key(&mut self, default: bool, seen: bool) -> (result: Result<(), LanguloErr>)
        requires
            old(self).wf(),
        ensures
            match grammar::key(old(self).lexemes(), old(self).progress(), default, seen) {
                Ok(next) => result is Ok && final(self).progress() == next,
                Err(e) => result == Err::<(), LanguloErr>(e),
            },
            result is Ok ==> final(self).follows(*old(self), old(self).children().len() as int, 1)
                && final(self).position() > old(self).position() && final(self).children().len()
                > old(self).children().len(),
        decreases old(self).remaining(), 3int,
    {
        if default {
            if seen {
                return Err(LanguloErr::Semantic(SemanticError::DuplicateDefaultKey));
            }
            match self.next_token() {
                Ok(_) => {},
                Err(e) => {
                    return Err(e);
                },
            }
            self.new_leaf_node(AstNode::DefaultKey, "_")
        } else {
            self.parse_expr(0, SemicolonPolicy::RequiredAbsent)
        }
    }

    /// A table, behind its opening bracket: pairs of key and value between commas, of
    /// which one may have the default key.
    fn parse_table(&mut self) -> (result: Result<(), LanguloErr>)
        requires
            old(self).wf(),
        ensures
            match grammar::table(old(self).lexemes(), old(self).progress()) {
                Ok(next) => result is Ok && final(self).progress() == next,
                Err(e) => result == Err::<(), LanguloErr>(e),
            },
            result is Ok ==> final(self).follows(*old(self), old(self).children().len() as int, 1)
                && final(self).position() > old(self).position() && final(self).children().len()
                > old(self).children().len(),
        decreases old(self).remaining(), 4int,
    {
        let ghost base = old(self).children().len() as int;
        self.open(AstNode::Table);
        let mut seen_default_key = false;
        loop
            invariant_except_break
                grammar::pairs(self.lexemes(), self.progress(), seen_default_key)
                    == grammar::pairs(old(self).lexemes(), old(self).progress(), false),
            invariant
                self.opened(*old(self), AstNode::Table.code(), base),
                base == old(self).children().len(),
                old(self).wf(),
            ensures
                grammar::pairs(old(self).lexemes(), old(self).progress(), false)
                    == Ok::<Progress, LanguloErr>(self.progress()),
            decreases self.remaining(),
        {
            let next = match self.peek_kind() {
                Ok(value) => value,
                Err(e) => {
                    return Err(e);
                },
            };
            if next == Some(Tok::RBracket) {
                break ;
            }
            let ghost pair_start = *self;
            self.open(AstNode::TablePair);
            // parse key paying attention to default key
            let default = next == Some(Tok::Underscore);
            match self.parse_key(default, seen_default_key) {
                Ok(_) => {},
                Err(e) => {
                    return Err(e);
                },
            }
            if default {
                seen_default_key = true;
            }
            match self.assert_tok(Tok::Colon) {
                Ok(_) => {},
                Err(e) => {
                    return Err(e);
                },
            }
            match self.parse_expr(0, SemicolonPolicy::RequiredAbsent) {
                Ok(_) => {},
                Err(e) => {
                    return Err(e);
                },
            }
            self.close(
                Ghost(pair_start),
                AstNode::TablePair,
                Ghost(pair_start.children().len() as int),
            );
            let comma = match self.peek_kind() {
                Ok(value) => value,
                Err(e) => {
                    return Err(e);
                },
            };
            if comma == Some(Tok::Comma) {
                match self.next_token() {
                    Ok(_) => {},
                    Err(e) => {
                        return Err(e);
                    },
                }
            } else {
                break ;
            }
        }
        match self.assert_tok(Tok::RBracket) {
            Ok(_) => {},
            Err(e) => {
                return Err(e);
            },
        }
        self.close(Ghost(*old(self)), AstNode::Table, Ghost(base));
        Ok(())
    }

    /// Expressions between commas, up to a closing parenthesis.
    fn parse_comma_separated_exprs(&mut self) -> (result: Result<(), LanguloErr>)
        requires
            old(self).wf(),
        ensures
            match grammar::arguments(old(self).lexemes(), old(self).progress()) {
                Ok(next) => result is Ok && final(self).progress() == next,
                Err(e) => result == Err::<(), LanguloErr>(e),
            },
            result is Ok ==> final(self).continues(*old(self), old(self).children().len() as int),
        decreases old(self).remaining(), 3int,
    {
        let ghost base = old(self).children().len() as int;
        loop
            invariant_except_break
                grammar::arguments(self.lexemes(), self.progress())
                    == grammar::arguments(old(self).lexemes(), old(self).progress()),
            invariant
                self.continues(*old(self), base),
                base == old(self).children().len(),
                old(self).wf(),
            ensures
                grammar::arguments(old(self).lexemes(), old(self).progress())
                    == Ok::<Progress, LanguloErr>(self.progress()),
            decreases self.remaining(),
        {
            let next = match self.peek_kind() {
                Ok(value) => value,
                Err(e) => {
                    return Err(e);
                },
            };
            if next == Some(Tok::RParen) {
                break ;
            }
            match self.parse_expr(0, SemicolonPolicy::RequiredAbsent) {
                Ok(_) => {},
                Err(e) => {
                    return Err(e);
                },
            }
            let comma = match self.peek_kind() {
                Ok(value) => value,
                Err(e) => {
                    return Err(e);
                },
            };
            if comma == Some(Tok::Comma) {
                match self.next_token() {
                    Ok(_) => {},
                    Err(e) => {
                        return Err(e);
                    },
                }
            } else {
                break ;
            }
        }
        Ok(())
    }

    /// Statements up to the token that ends them, behind the token that starts them.
    /// The last statement need not end in a semicolon.
    fn parse_scope(&mut self, scope_kind: AstNode, end_tok: Tok) -> (result: Result<(), LanguloErr>)
        requires
            old(self).wf(),
            scope_kind.operands() == (0int, None::<int>),
        ensures
            match grammar::scope(old(self).lexemes(), old(self).progress(), scope_kind, end_tok) {
                Ok(next) => result is Ok && final(self).progress() == next,
                Err(e) => result == Err::<(), LanguloErr>(e),
            },
            result is Ok ==> final(self).follows(*old(self), old(self).children().len() as int, 1)
                && final(self).position() > old(self).position() && final(self).children().len()
                > old(self).children().len(),
        decreases old(self).remaining(), 3int,
    {
        let ghost base = old(self).children().len() as int;
        self.open(scope_kind);
        loop
            invariant_except_break
                grammar::statements(self.lexemes(), self.progress(), end_tok)
                    == grammar::statements(old(self).lexemes(), old(self).progress(), end_tok),
            invariant
                self.opened(*old(self), scope_kind.code(), base),
                base == old(self).children().len(),
                old(self).wf(),
            ensures
                grammar::statements(old(self).lexemes(), old(self).progress(), end_tok)
                    == Ok::<Progress, LanguloErr>(self.progress()),
            decreases self.remaining(),
        {
            let next = match self.peek_kind() {
                Ok(value) => value,
                Err(e) => {
                    return Err(e);
                },
            };
            if next == Some(end_tok) {
                break ;
            }
            // since we don't know if this will be the last expr until we evaluate it,
            // disable semicolon evaluation in the recursive call, and do it manually after
            match self.parse_expr(0, SemicolonPolicy::RequiredAbsent) {
                Ok(_) => {},
                Err(e) => {
                    return Err(e);
                },
            }
            let after = match self.peek_kind() {
                Ok(value) => value,
                Err(e) => {
                    return Err(e);
                },
            };
            let policy = if after == Some(end_tok) {
                SemicolonPolicy::Optional
            } else {
                SemicolonPolicy::RequiredPresent
            };
            match self.handle_semicolon(policy) {
                Ok(_) => {},
                Err(e) => {
                    return Err(e);
                },
            }
        }
        match self.assert_tok(end_tok) {
            Ok(_) => {},
            Err(e) => {
                return Err(e);
            },
        }
        self.close(Ghost(*old(self)), scope_kind, Ghost(base));
        Ok(())
    }

    /// The principal parameter of a function, where there is one: an `@`, its type, and
    /// the comma behind it if one follows.
    fn parse_principal_parameter(&mut self) -> (result: Result<(), LanguloErr>)
        requires
            old(self).wf(),
        ensures
            match grammar::principal_parameter(old(self).lexemes(), old(self).progress()) {
                Ok(next) => result is Ok && final(self).progress() == next,
                Err(e) => result == Err::<(), LanguloErr>(e),
            },
            result is Ok ==> final(self).continues(*old(self), old(self).children().len() as int),
    {
        // optional @param, force it to be the first one
        let first = match self.peek_kind() {
            Ok(value) => value,
            Err(e) => {
                return Err(e);
            },
        };
        if first == Some(Tok::At) {
            let ghost start = *self;
            self.open(AstNode::PrincipalParam);
            match self.next_token() {
                Ok(_) => {},
                Err(e) => {
                    return Err(e);
                },
            }
            match self.parse_type() {
                Ok(_) => {},
                Err(e) => {
                    return Err(e);
                },
            }
            self.close(
                Ghost(start),
                AstNode::PrincipalParam,
                Ghost(start.children().len() as int),
            );
            let comma = match self.peek_kind() {
                Ok(value) => value,
                Err(e) => {
                    return Err(e);
                },
            };
            if comma == Some(Tok::Comma) {
                match self.next_token() {
                    Ok(_) => {},
                    Err(e) => {
                        return Err(e);
                    },
                }
            }
        }
        Ok(())
    }

    /// The parameters of a function behind the principal one, each a name and a type,
    /// between commas, up to the closing parenthesis.
    fn parse_parameters(&mut self) -> (result: Result<(), LanguloErr>)
        requires
            old(self).wf(),
        ensures
            match grammar::parameters(old(self).lexemes(), old(self).progress()) {
                Ok(next) => result is Ok && final(self).progress() == next,
                Err(e) => result == Err::<(), LanguloErr>(e),
            },
            result is Ok ==> final(self).continues(*old(self), old(self).children().len() as int),
    {
        let ghost base = old(self).children().len() as int;
        loop
            invariant_except_break
                grammar::parameters(self.lexemes(), self.progress()) == grammar::parameters(
                    old(self).lexemes(),
                    old(self).progress(),
                ),
            invariant
                self.continues(*old(self), base),
                base == old(self).children().len(),
                old(self).wf(),
            ensures
                grammar::parameters(old(self).lexemes(), old(self).progress()) == Ok::<
                    Progress,
                    LanguloErr,
                >(self.progress()),
            decreases self.remaining(),
        {
            let next = match self.peek_kind() {
                Ok(value) => value,
                Err(e) => {
                    return Err(e);
                },
            };
            if next == Some(Tok::RParen) {
                break ;
            }
            let param_name = match self.assert_tok(Tok::Identifier) {
                Ok(value) => value,
                Err(e) => {
                    return Err(e);
                },
            };
            let ghost start = *self;
            self.open(AstNode::ContourParam);
            match self.token(AstNode::ContourParam, param_name.as_str()) {
                Ok(_) => {},
                Err(e) => {
                    return Err(e);
                },
            }
            match self.parse_type() {
                Ok(_) => {},
                Err(e) => {
                    return Err(e);
                },
            }
            self.close(
                Ghost(start),
                AstNode::ContourParam,
                Ghost(start.children().len() as int),
            );
            let comma = match self.peek_kind() {
                Ok(value) => value,
                Err(e) => {
                    return Err(e);
                },
            };
            if comma == Some(Tok::Comma) {
                match self.next_token() {
                    Ok(_) => {},
                    Err(e) => {
                        return Err(e);
                    },
                }
            } else {
                break ;
            }
        }
        Ok(())
    }

    /// The parameters of a function, in parentheses: the principal one, where there is
    /// one, and the others.
    fn parse_parameter_list(&mut self) -> (result: Result<(), LanguloErr>)
        requires
            old(self).wf(),
        ensures
            match grammar::parameter_list(old(self).lexemes(), old(self).progress()) {
                Ok(next) => result is Ok && final(self).progress() == next,
                Err(e) => result == Err::<(), LanguloErr>(e),
            },
            result is Ok ==> final(self).continues(*old(self), old(self).children().len() as int)
                && final(self).position() > old(self).position(),
    {
        proof {
            reveal(grammar::parameter_list);
        }
        match self.assert_tok(Tok::LParen) {
            Ok(_) => {},
            Err(e) => {
                return Err(e);
            },
        }
        match self.parse_principal_parameter() {
            Ok(_) => {},
            Err(e) => {
                return Err(e);
            },
        }
        match self.parse_parameters() {
            Ok(_) => {},
            Err(e) => {
                return Err(e);
            },
        }
        match self.assert_tok(Tok::RParen) {
            Ok(_) => {},
            Err(e) => {
                return Err(e);
            },
        }
        Ok(())
    }

    /// The declaration of a function, behind its `fn`: the parameters, of which the
    /// first may be the principal one, the type of the result, and the body.
    fn parse_function(&mut self) -> (result: Result<(), LanguloErr>)
        requires
            old(self).wf(),
        ensures
            match grammar::function(old(self).lexemes(), old(self).progress()) {
                Ok(next) => result is Ok && final(self).progress() == next,
                Err(e) => result == Err::<(), LanguloErr>(e),
            },
            result is Ok ==> final(self).follows(*old(self), old(self).children().len() as int, 1)
                && final(self).position() > old(self).position() && final(self).children().len()
                > old(self).children().len(),
        decreases old(self).remaining(), 3int,
    {
        // fn(@int, other int) int { it + other };
        let ghost base = old(self).children().len() as int;
        let ghost kind = AstNode::FunctionDecl.code();
        self.open(AstNode::FunctionDecl);
        let ghost opened = *self;
        match self.parse_parameter_list() {
            Ok(_) => {},
            Err(e) => {
                return Err(e);
            },
        }
        proof {
            self.lemma_still_opened(*old(self), opened, kind, base);
        }
        // return type
        let ghost listed = *self;
        match self.parse_type() {
            Ok(_) => {},
            Err(e) => {
                return Err(e);
            },
        }
        proof {
            self.lemma_still_opened(*old(self), listed, kind, base);
            assert(self.nodes_from(base) == listed.nodes_from(base) + 1);
        }
        // body
        let ghost typed = *self;
        match self.assert_tok(Tok::LBrace) {
            Ok(_) => {},
            Err(e) => {
                return Err(e);
            },
        }
        proof {
            self.lemma_still_opened(*old(self), typed, kind, base);
            assert(self.nodes_from(base) == typed.nodes_from(base));
        }
        let ghost braced = *self;
        match self.parse_scope(AstNode::Scope, Tok::RBrace) {
            Ok(_) => {},
            Err(e) => {
                return Err(e);
            },
        }
        proof {
            self.lemma_still_opened(*old(self), braced, kind, base);
            assert(self.nodes_from(base) == braced.nodes_from(base) + 1);
        }
        self.close(Ghost(*old(self)), AstNode::FunctionDecl, Ghost(base));
        Ok(())
    }

    /// The application of a function, behind its `@`: the function and its arguments.
    fn parse_application(&mut self) -> (result: Result<(), LanguloErr>)
        requires
            old(self).wf(),
        ensures
            match grammar::application(old(self).lexemes(), old(self).progress()) {
                Ok(next) => result is Ok && final(self).progress() == next,
                Err(e) => result == Err::<(), LanguloErr>(e),
            },
            result is Ok ==> final(self).follows(*old(self), old(self).children().len() as int, 1)
                && final(self).position() > old(self).position() && final(self).children().len()
                > old(self).children().len(),
        decreases old(self).remaining(), 3int,
    {
        // @add(1, 2);
        let ghost base = old(self).children().len() as int;
        self.open(AstNode::FunctionAppl);
        match self.parse_expr(0, SemicolonPolicy::RequiredAbsent) {
            Ok(_) => {},
            Err(e) => {
                return Err(e);
            },
        }
        match self.assert_tok(Tok::LParen) {
            Ok(_) => {},
            Err(e) => {
                return Err(e);
            },
        }
        let ghost start = *self;
        self.open(AstNode::ContourArgs);
        match self.parse_comma_separated_exprs() {
            Ok(_) => {},
            Err(e) => {
                return Err(e);
            },
        }
        self.close(
            Ghost(start),
            AstNode::ContourArgs,
            Ghost(start.children().len() as int),
        );
        match self.assert_tok(Tok::RParen) {
            Ok(_) => {},
            Err(e) => {
                return Err(e);
            },
        }
        self.close(Ghost(*old(self)), AstNode::FunctionAppl, Ghost(base));
        Ok(())
    }

    /// The application of a function to what has been parsed since the checkpoint,
    /// behind its `@`: the function, and further arguments if there are any.
    fn parse_method(&mut self, checkpoint: Checkpoint) -> (result: Result<(), LanguloErr>)
        requires
            old(self).wf(),
            marked(checkpoint) <= old(self).children().len(),
            old(self).parents().len() > 0 ==> old(self).parents().last().1 <= marked(checkpoint),
            old(self).nodes_from(marked(checkpoint) as int) == 1,
        ensures
            match grammar::method(
                old(self).lexemes(),
                old(self).progress(),
                marked(checkpoint) as int,
            ) {
                Ok(next) => result is Ok && final(self).progress() == next,
                Err(e) => result == Err::<(), LanguloErr>(e),
            },
            result is Ok ==> final(self).follows(*old(self), marked(checkpoint) as int, 0)
                && final(self).position() > old(self).position() && final(self).children().len()
                > marked(checkpoint),
        decreases old(self).remaining(), 3int,
    {
        // 3@plus(2);
        let ghost base = marked(checkpoint) as int;
        self.open_at(checkpoint, AstNode::FunctionAppl);
        // fn body
        match self.parse_expr(Tok::At.precedence(), SemicolonPolicy::RequiredAbsent) {
            Ok(_) => {},
            Err(e) => {
                return Err(e);
            },
        }
        let paren = match self.peek_kind() {
            Ok(value) => value,
            Err(e) => {
                return Err(e);
            },
        };
        if paren == Some(Tok::LParen) {
            match self.next_token() {
                Ok(_) => {},
                Err(e) => {
                    return Err(e);
                },
            }
            // contour args
            let ghost start = *self;
            self.open(AstNode::ContourArgs);
            match self.parse_comma_separated_exprs() {
                Ok(_) => {},
                Err(e) => {
                    return Err(e);
                },
            }
            match self.assert_tok(Tok::RParen) {
                Ok(_) => {},
                Err(e) => {
                    return Err(e);
                },
            }
            self.close(
                Ghost(start),
                AstNode::ContourArgs,
                Ghost(start.children().len() as int),
            );
        }
        self.close_at(Ghost(*old(self)), AstNode::FunctionAppl, Ghost(base));
        Ok(())
    }

    /// A look into the table that has been parsed since the checkpoint, behind the
    /// opening bracket: the key.
    fn parse_indexing(&mut self, checkpoint: Checkpoint) -> (result: Result<(), LanguloErr>)
        requires
            old(self).wf(),
            marked(checkpoint) <= old(self).children().len(),
            old(self).parents().len() > 0 ==> old(self).parents().last().1 <= marked(checkpoint),
            old(self).nodes_from(marked(checkpoint) as int) == 1,
        ensures
            match grammar::indexing(
                old(self).lexemes(),
                old(self).progress(),
                marked(checkpoint) as int,
            ) {
                Ok(next) => result is Ok && final(self).progress() == next,
                Err(e) => result == Err::<(), LanguloErr>(e),
            },
            result is Ok ==> final(self).follows(*old(self), marked(checkpoint) as int, 0)
                && final(self).position() > old(self).position() && final(self).children().len()
                > marked(checkpoint),
        decreases old(self).remaining(), 3int,
    {
        let ghost base = marked(checkpoint) as int;
        self.open_at(checkpoint, AstNode::TableIndexing);
        match self.parse_expr(0, SemicolonPolicy::RequiredAbsent) {
            Ok(_) => {},
            Err(e) => {
                return Err(e);
            },
        }
        match self.assert_tok(Tok::RBracket) {
            Ok(_) => {},
            Err(e) => {
                return Err(e);
            },
        }
        self.close_at(Ghost(*old(self)), AstNode::TableIndexing, Ghost(base));
        Ok(())
    }

    /// An operator behind what has been parsed since the checkpoint, and what the
    /// operator takes to its right.
    fn parse_postfix(&mut self, checkpoint: Checkpoint, precedence: u8) -> (result: Result<
        (),
        LanguloErr,
    >)
        requires
            old(self).wf(),
            marked(checkpoint) <= old(self).children().len(),
            old(self).parents().len() > 0 ==> old(self).parents().last().1 <= marked(checkpoint),
            old(self).nodes_from(marked(checkpoint) as int) == 1,
        ensures
            match grammar::postfix(
                old(self).lexemes(),
                old(self).progress(),
                marked(checkpoint) as int,
                precedence,
            ) {
                Ok(next) => result is Ok && final(self).progress() == next,
                Err(e) => result == Err::<(), LanguloErr>(e),
            },
            result is Ok ==> final(self).follows(*old(self), marked(checkpoint) as int, 0)
                && final(self).position() > old(self).position() && final(self).children().len()
                > marked(checkpoint),
        decreases old(self).remaining(), 1int,
    {
        let (tok, _) = match self.next_token() {
            Ok(value) => value,
            Err(e) => {
                return Err(e);
            },
        };
        match tok {
            Tok::Plus => self.new_binary_node(AstNode::Add, checkpoint, precedence),
            Tok::Minus => self.new_binary_node(AstNode::Subtract, checkpoint, precedence),
            Tok::Star => self.new_binary_node(AstNode::Multiply, checkpoint, precedence),
            Tok::Slash => self.new_binary_node(AstNode::Divide, checkpoint, precedence),
            Tok::Modulo => self.new_binary_node(AstNode::Modulo, checkpoint, precedence),
            Tok::Caret => self.new_binary_node(AstNode::Power, checkpoint, precedence),
            Tok::And => self.new_binary_node(AstNode::LogicalAnd, checkpoint, precedence),
            Tok::Or => self.new_binary_node(AstNode::LogicalOr, checkpoint, precedence),
            Tok::Xor => self.new_binary_node(AstNode::LogicalXor, checkpoint, precedence),
            Tok::Equals => self.new_binary_node(AstNode::Equals, checkpoint, precedence),
            Tok::NotEquals => self.new_binary_node(AstNode::NotEquals, checkpoint, precedence),
            Tok::GreaterThan => self.new_binary_node(AstNode::GreaterThan, checkpoint, precedence),
            Tok::LessThan => self.new_binary_node(AstNode::LessThan, checkpoint, precedence),
            Tok::GreaterThanEq => self.new_binary_node(
                AstNode::GreaterThanEq,
                checkpoint,
                precedence,
            ),
            Tok::LessThanEq => self.new_binary_node(AstNode::LessThanEq, checkpoint, precedence),
            Tok::Assign => self.new_binary_node(AstNode::Assign, checkpoint, precedence),
            Tok::Else => self.new_binary_node(AstNode::Else, checkpoint, precedence),
            Tok::Question => {
                self.new_postfix_unary_node(AstNode::Option, checkpoint);
                Ok(())
            },
            Tok::Bang => {
                self.new_postfix_unary_node(AstNode::UnwrapOption, checkpoint);
                Ok(())
            },
            Tok::LBracket => self.parse_indexing(checkpoint),
            Tok::At => self.parse_method(checkpoint),
            _ => Err(LanguloErr::Semantic(SemanticError::Malformed)),
        }
    }

    /// The start of a function type, behind its opening parenthesis: the type of the
    /// principal parameter, where there is one, with its `@` and the comma behind it.
    fn parse_principal_type(&mut self) -> (result: Result<(), LanguloErr>)
        requires
            old(self).wf(),
        ensures
            match grammar::principal_type(old(self).lexemes(), old(self).progress()) {
                Ok(next) => result is Ok && final(self).progress() == next,
                Err(e) => result == Err::<(), LanguloErr>(e),
            },
            result is Ok ==> final(self).follows(*old(self), old(self).children().len() as int, 0)
                || final(self).follows(*old(self), old(self).children().len() as int, 1),
        decreases old(self).remaining(), 3int,
    {
        // don't include @type in contour types
        let first = match self.peek_kind() {
            Ok(value) => value,
            Err(e) => {
                return Err(e);
            },
        };
        if first == Some(Tok::At) {
            match self.next_token() {
                Ok(_) => {},
                Err(e) => {
                    return Err(e);
                },
            }
            match self.parse_type() {
                Ok(_) => {},
                Err(e) => {
                    return Err(e);
                },
            }
            // this can be asserted because a return type must be annotated
            match self.assert_tok(Tok::Comma) {
                Ok(_) => {},
                Err(e) => {
                    return Err(e);
                },
            }
        }
        Ok(())
    }

    /// The types of the parameters of a function type, each with a comma behind it, up
    /// to the arrow, as one node.
    fn parse_contour_types(&mut self) -> (result: Result<(), LanguloErr>)
        requires
            old(self).wf(),
        ensures
            match grammar::contour(old(self).lexemes(), old(self).progress()) {
                Ok(next) => result is Ok && final(self).progress() == next,
                Err(e) => result == Err::<(), LanguloErr>(e),
            },
            result is Ok ==> final(self).follows(*old(self), old(self).children().len() as int, 1),
        decreases old(self).remaining(), 3int,
    {
        let ghost base = old(self).children().len() as int;
        self.open(AstNode::ContourTypes);
        loop
            invariant_except_break
                grammar::contour_types(self.lexemes(), self.progress())
                    == grammar::contour_types(old(self).lexemes(), old(self).progress()),
            invariant
                self.opened(*old(self), AstNode::ContourTypes.code(), base),
                base == old(self).children().len(),
                old(self).wf(),
            ensures
                grammar::contour_types(old(self).lexemes(), old(self).progress())
                    == Ok::<Progress, LanguloErr>(self.progress()),
            decreases self.remaining(),
        {
            let next = match self.peek_kind() {
                Ok(value) => value,
                Err(e) => {
                    return Err(e);
                },
            };
            if next == Some(Tok::Minus) {
                break ;
            }
            match self.parse_type() {
                Ok(_) => {},
                Err(e) => {
                    return Err(e);
                },
            }
            match self.assert_tok(Tok::Comma) {
                Ok(_) => {},
                Err(e) => {
                    return Err(e);
                },
            }
        }
        self.close(Ghost(*old(self)), AstNode::ContourTypes, Ghost(base));
        Ok(())
    }

    /// The end of a function type: an arrow, the type of the result, and the closing
    /// parenthesis.
    fn parse_result_type(&mut self) -> (result: Result<(), LanguloErr>)
        requires
            old(self).wf(),
        ensures
            match grammar::result_type(old(self).lexemes(), old(self).progress()) {
                Ok(next) => result is Ok && final(self).progress() == next,
                Err(e) => result == Err::<(), LanguloErr>(e),
            },
            result is Ok ==> final(self).follows(*old(self), old(self).children().len() as int, 1)
                && final(self).position() > old(self).position(),
        decreases old(self).remaining(), 3int,
    {
        match self.assert_tok(Tok::Minus) {
            Ok(_) => {},
            Err(e) => {
                return Err(e);
            },
        }
        match self.assert_tok(Tok::GreaterThan) {
            Ok(_) => {},
            Err(e) => {
                return Err(e);
            },
        }
        match self.parse_type() {
            Ok(_) => {},
            Err(e) => {
                return Err(e);
            },
        }
        match self.assert_tok(Tok::RParen) {
            Ok(_) => {},
            Err(e) => {
                return Err(e);
            },
        }
        Ok(())
    }

    /// The type of a function, behind its `fn`: the types of the parameters, an arrow
    /// and the type of the result, all in parentheses.
    fn parse_function_type(&mut self) -> (result: Result<(), LanguloErr>)
        requires
            old(self).wf(),
        ensures
            match grammar::function_type(old(self).lexemes(), old(self).progress()) {
                Ok(next) => result is Ok && final(self).progress() == next,
                Err(e) => result == Err::<(), LanguloErr>(e),
            },
            result is Ok ==> final(self).follows(*old(self), old(self).children().len() as int, 1)
                && final(self).position() > old(self).position() && final(self).children().len()
                > old(self).children().len(),
        decreases old(self).remaining(), 4int,
    {
        // fn(@int, str, char, ->bool)
        let ghost base = old(self).children().len() as int;
        let ghost kind = AstNode::TypeFn.code();
        self.open(AstNode::TypeFn);
        let ghost opened = *self;
        assert(self.nodes_from(base) == 0);
        match self.assert_tok(Tok::LParen) {
            Ok(_) => {},
            Err(e) => {
                return Err(e);
            },
        }
        proof {
            self.lemma_still_opened(*old(self), opened, kind, base);
            assert(self.nodes_from(base) == 0);
        }
        let ghost inside = *self;
        match self.parse_principal_type() {
            Ok(_) => {},
            Err(e) => {
                return Err(e);
            },
        }
        proof {
            self.lemma_still_opened(*old(self), inside, kind, base);
            assert(self.nodes_from(base) <= 1);
        }
        let ghost first = *self;
        match self.parse_contour_types() {
            Ok(_) => {},
            Err(e) => {
                return Err(e);
            },
        }
        proof {
            self.lemma_still_opened(*old(self), first, kind, base);
            assert(self.nodes_from(base) == first.nodes_from(base) + 1);
        }
        let ghost second = *self;
        match self.parse_result_type() {
            Ok(_) => {},
            Err(e) => {
                return Err(e);
            },
        }
        proof {
            self.lemma_still_opened(*old(self), second, kind, base);
            assert(self.nodes_from(base) == second.nodes_from(base) + 1);
        }
        self.close(Ghost(*old(self)), AstNode::TypeFn, Ghost(base));
        Ok(())
    }

    /// A type annotation.
    fn parse_type(&mut self) -> (result: Result<(), LanguloErr>)
        requires
            old(self).wf(),
        ensures
            match grammar::annotation(old(self).lexemes(), old(self).progress()) {
                Ok(next) => result is Ok && final(self).progress() == next,
                Err(e) => result == Err::<(), LanguloErr>(e),
            },
            result is Ok ==> final(self).follows(*old(self), old(self).children().len() as int, 1)
                && final(self).position() > old(self).position() && final(self).children().len()
                > old(self).children().len(),
        decreases old(self).remaining(), 0int,
    {
        let checkpoint = self.builder.checkpoint();
        let ghost base = old(self).children().len() as int;
        let (tok, content) = match self.next_token() {
            Ok(value) => value,
            Err(e) => {
                return Err(e);
            },
        };
        let parsed = match tok {
            Tok::TypeChar => self.new_leaf_node(AstNode::TypeChar, content.as_str()),
            Tok::TypeInt => self.new_leaf_node(AstNode::TypeInt, content.as_str()),
            Tok::TypeFloat => self.new_leaf_node(AstNode::TypeFloat, content.as_str()),
            Tok::TypeBool => self.new_leaf_node(AstNode::TypeBool, content.as_str()),
            Tok::TypeStr => self.new_leaf_node(AstNode::TypeStr, content.as_str()),
            Tok::Fn => self.parse_function_type(),
            Tok::LBracket => self.parse_table_type(),
            _ => Err(LanguloErr::Semantic(SemanticError::Malformed)),
        };
        match parsed {
            Ok(_) => {},
            Err(e) => {
                return Err(e);
            },
        }
        let ghost first = self.progress();
        // ? is the only postfix type annotation so explicit precedence handling is not needed
        loop
            invariant
                grammar::annotation(old(self).lexemes(), old(self).progress())
                    == grammar::type_options(old(self).lexemes(), first, base),
                grammar::type_options(self.lexemes(), self.progress(), base)
                    == grammar::type_options(old(self).lexemes(), first, base),
                self.follows(*old(self), base, 1),
                base == old(self).children().len(),
                marked(checkpoint) == base,
                self.position() > old(self).position(),
                self.children().len() > base,
                old(self).wf(),
            ensures
                grammar::type_options(self.lexemes(), self.progress(), base)
                    == Ok::<Progress, LanguloErr>(self.progress()),
            decreases self.remaining(),
        {
            let next = match self.peek_kind() {
                Ok(value) => value,
                Err(e) => {
                    return Err(e);
                },
            };
            if next != Some(Tok::Question) {
                break ;
            }
            match self.next_token() {
                Ok(_) => {},
                Err(e) => {
                    return Err(e);
                },
            }
            self.new_postfix_unary_node(AstNode::TypeOption, checkpoint);
        }
        Ok(())
    }

    /// The type of a table, behind its opening bracket: the type of the keys, a colon,
    /// and the type of the values.
    fn parse_table_type(&mut self) -> (result: Result<(), LanguloErr>)
        requires
            old(self).wf(),
        ensures
            match grammar::table_type(old(self).lexemes(), old(self).progress()) {
                Ok(next) => result is Ok && final(self).progress() == next,
                Err(e) => result == Err::<(), LanguloErr>(e),
            },
            result is Ok ==> final(self).follows(*old(self), old(self).children().len() as int, 1)
                && final(self).position() > old(self).position() && final(self).children().len()
                > old(self).children().len(),
        decreases old(self).remaining(), 4int,
    {
        // [int:char]
        let ghost base = old(self).children().len() as int;
        self.open(AstNode::TypeTable);
        match self.parse_type() {
            Ok(_) => {},
            Err(e) => {
                return Err(e);
            },
        }
        match self.assert_tok(Tok::Colon) {
            Ok(_) => {},
            Err(e) => {
                return Err(e);
            },
        }
        match self.parse_type() {
            Ok(_) => {},
            Err(e) => {
                return Err(e);
            },
        }
        match self.assert_tok(Tok::RBracket) {
            Ok(_) => {},
            Err(e) => {
                return Err(e);
            },
        }
        self.close(Ghost(*old(self)), AstNode::TypeTable, Ghost(base));
        Ok(())
    }

    /// Parses a program: statements, each behind the other, each but the last with a
    /// semicolon at its end. The outcome is the one that the grammar gives: its error,
    /// or its pieces and position. Where that succeeds the source held tokens only,
    /// every one of them has been read, and the parser holds the tree: one root node,
    /// in which every node has as many nodes below it as its kind takes.
    pub fn parse(&mut self) -> (result: Result<(), LanguloErr>)
        requires
            old(self).wf(),
            old(self).children().len() == 0,
            old(self).parents().len() == 0,
        ensures
            match grammar::program(old(self).lexemes(), old(self).progress()) {
                Ok(next) => result is Ok && final(self).progress() == next,
                Err(e) => result == Err::<(), LanguloErr>(e),
            },
            result is Ok ==> final(self).wf(),
            result is Ok ==> final(self).finished(),
            result is Ok ==> final(self).lexemes() == old(self).lexemes(),
            result is Ok ==> final(self).position() == final(self).lexemes().len(),
            result is Ok ==> final(self).tokens_between(
                old(self).position(),
                final(self).lexemes().len() as int,
            ),
            result is Ok ==> (final(self).children()[0] matches Element::Node { kind, .. } && kind
                == AstNode::Root.code()),
    {
        self.open(AstNode::Root);
        loop
            invariant_except_break
                grammar::program_statements(self.lexemes(), self.progress())
                    == grammar::program_statements(old(self).lexemes(), old(self).progress()),
            invariant
                self.opened(*old(self), AstNode::Root.code(), 0),
                old(self).wf(),
                old(self).children().len() == 0,
                old(self).parents().len() == 0,
            ensures
                grammar::program_statements(old(self).lexemes(), old(self).progress())
                    == Ok::<Progress, LanguloErr>(self.progress()),
                self.remaining() == 0,
            decreases self.remaining(),
        {
            let next = match self.peek_kind() {
                Ok(value) => value,
                Err(e) => {
                    return Err(e);
                },
            };
            if next.is_none() {
                break ;
            }
            match self.parse_expr(0, SemicolonPolicy::RequiredPresent) {
                Ok(_) => {},
                Err(e) => {
                    return Err(e);
                },
            }
        }
        self.close(Ghost(*old(self)), AstNode::Root, Ghost(0));
        Ok(())
    }
}

} // verus!
