//! The emitter: from a syntax tree to a sequence of words.
//!
//! The tree is walked depth first. Emitting a node appends the words of what the node
//! needs on the stack and returns one more word, which its parent puts into the code next:
//! as it is, or, where it is a pure value and the parent an operator, as the operator with
//! that value embedded.

pub mod literal;

use vstd::prelude::*;
use crate::artifact::{quads_bytes, serialized, strings_bytes, Artifact};
use crate::emitter::literal::{
    parse_bool, parse_char, parse_int, spec_parse_bool, spec_parse_char, spec_parse_int,
};
use crate::errors::err::{EmitError, LanguloErr, LoadError, SemanticError};
use crate::parser::ast::lang::LanguloSyntaxNode;
use crate::parser::ast::node::AstNode;
use crate::text::{first_word, spec_first_word};
use crate::word::conversions::{char_bits, int_bits};
use crate::word::opcode::OpCode;
use crate::word::structure::{ValueTag, Word, WordView, AUX_MAX};

verus! {

/// What has been emitted so far.
pub struct Emission {
    pub code: Seq<Word>,
    /// The pool of float constants, as bits.
    pub floats: Seq<u64>,
    /// The pool of string constants.
    pub strings: Seq<Seq<char>>,
    /// The local variables in the order of their declaration, each with the depth of
    /// the scope that declares it.
    pub locals: Seq<(Seq<char>, nat)>,
    /// The depth of the scope that is being emitted.
    pub scope: nat,
}

/// The word with the given fields.
pub open spec fn word_of(tag: ValueTag, opcode: OpCode, aux: int, payload: int) -> Word {
    (WordView { tag: tag.code(), opcode: opcode.code(), aux: aux as u64, payload: payload as u64 }).word()
}

/// The word of an instruction that carries nothing.
pub open spec fn instruction(opcode: OpCode) -> Word {
    word_of(ValueTag::Int, opcode, 0, 0)
}

/// The index of the last variable with this name.
pub open spec fn rightmost(locals: Seq<(Seq<char>, nat)>, name: Seq<char>) -> Option<int>
    decreases locals.len(),
{
    if locals.len() == 0 {
        None
    } else if locals.last().0 == name {
        Some(locals.len() - 1)
    } else {
        rightmost(locals.drop_last(), name)
    }
}

/// Whether the scope of depth `scope` declares a variable with this name.
pub open spec fn declared(locals: Seq<(Seq<char>, nat)>, name: Seq<char>, scope: nat) -> bool {
    exists|i: int| 0 <= i < locals.len() && #[trigger] locals[i] == (name, scope)
}

/// What an operator does with the word of its operand: a pure value is embedded in the
/// operator, which is then the word to go into the code next; any other word goes into
/// the code as it is, and the plain operator follows it.
pub open spec fn embed(emission: Emission, word: Word, operator: OpCode) -> (Emission, Word) {
    if word@.opcode == OpCode::Value.code() {
        (emission, (WordView { opcode: operator.spec_embedded().unwrap().code(), ..word@ }).word())
    } else {
        (emission.pushed(word), instruction(operator))
    }
}

impl Emission {
    pub open spec fn pushed(self, word: Word) -> Emission {
        Emission { code: self.code.push(word), ..self }
    }

    /// The emission after the jump at `slot` was told its distance: the number of words
    /// behind the slot, counting the word that the node returns, which goes into the
    /// code next. A jump over that many words lands right behind that word.
    pub open spec fn patched(self, slot: int, jump: OpCode) -> Result<Emission, LanguloErr> {
        if self.code.len() - slot > u32::MAX {
            Err(LanguloErr::Emit(EmitError::TooLarge))
        } else {
            Ok(
                Emission {
                    code: self.code.update(
                        slot,
                        word_of(ValueTag::Int, jump, 0, self.code.len() - slot),
                    ),
                    ..self
                },
            )
        }
    }
}

/// The emission of a node: what has been emitted after it, and the word that it returns.
pub open spec fn emitted(node: LanguloSyntaxNode, start: Emission) -> Result<
    (Emission, Word),
    LanguloErr,
>
    decreases node,
{
    let children = node.children@;
    let malformed = Err::<(Emission, Word), LanguloErr>(
        LanguloErr::Semantic(SemanticError::Malformed),
    );
    let too_large = Err::<(Emission, Word), LanguloErr>(LanguloErr::Emit(EmitError::TooLarge));
    match node.kind {
        AstNode::Int => match spec_parse_int(node.text@) {
            Some(value) => Ok(
                (start, word_of(ValueTag::Int, OpCode::Value, 0, int_bits(value) as int)),
            ),
            None => malformed,
        },
        AstNode::Bool => match spec_parse_bool(node.text@) {
            Some(value) => Ok(
                (start, word_of(ValueTag::Bool, OpCode::Value, 0, if value { 1 } else { 0 })),
            ),
            None => malformed,
        },
        AstNode::Char => match spec_parse_char(node.text@) {
            Some(value) => Ok(
                (start, word_of(ValueTag::Char, OpCode::Value, 0, char_bits(value) as int)),
            ),
            None => malformed,
        },
        AstNode::Float => if start.floats.len() > u32::MAX {
            too_large
        } else {
            Ok(
                (
                    Emission { floats: start.floats.push(node.float_bits), ..start },
                    word_of(
                        ValueTag::FloatPtr,
                        OpCode::ReadFromMap,
                        0,
                        start.floats.len() as int,
                    ),
                ),
            )
        },
        AstNode::Str => if start.strings.len() > u32::MAX {
            too_large
        } else {
            Ok(
                (
                    Emission { strings: start.strings.push(node.text@), ..start },
                    word_of(ValueTag::StrPtr, OpCode::ReadFromMap, 0, start.strings.len() as int),
                ),
            )
        },
        AstNode::DefaultKey => Ok(
            (
                start,
                word_of(ValueTag::Special, OpCode::Value, 0, Word::DEFAULT_ARM_PAYLOAD as int),
            ),
        ),
        AstNode::Table => if children.len() > u32::MAX {
            too_large
        } else {
            match emitted_pairs(children, 0, start) {
                Ok(emission) => Ok(
                    (
                        emission,
                        word_of(ValueTag::TablePtr, OpCode::ReadFromMap, 0, children.len() as int),
                    ),
                ),
                Err(e) => Err(e),
            }
        },
        AstNode::Option => if children.len() == 0 {
            Ok(
                embed(
                    start,
                    word_of(ValueTag::Special, OpCode::Value, 0, Word::NO_OPTION_PAYLOAD as int),
                    OpCode::WrapInOption,
                ),
            )
        } else {
            match emitted(children[0], start) {
                Ok((emission, word)) => Ok(embed(emission, word, OpCode::WrapInOption)),
                Err(e) => Err(e),
            }
        },
        AstNode::Scope => if start.scope >= usize::MAX {
            too_large
        } else {
            match emitted_all(children, 0, Emission { scope: start.scope + 1, ..start }) {
                Ok(emission) => Ok(
                    (Emission { scope: start.scope, ..emission }, instruction(OpCode::Print)),
                ),
                Err(e) => Err(e),
            }
        },
        AstNode::Grouping => if children.len() == 0 {
            malformed
        } else {
            emitted(children[0], start)
        },
        AstNode::Identifier => match rightmost(start.locals, node.text@) {
            Some(index) => if index > AUX_MAX {
                too_large
            } else {
                Ok((start, word_of(ValueTag::Int, OpCode::GetLocal, index, 0)))
            },
            None => Err(LanguloErr::Emit(EmitError::UnknownIdentifier)),
        },
        AstNode::VarDecl => if declared(start.locals, spec_first_word(node.text@), start.scope) {
            Err(LanguloErr::Semantic(SemanticError::DuplicateVariable))
        } else if children.len() == 0 {
            malformed
        } else {
            match emitted(
                children[children.len() - 1],
                Emission {
                    locals: start.locals.push((spec_first_word(node.text@), start.scope)),
                    ..start
                },
            ) {
                Ok((emission, word)) => Ok(embed(emission, word, OpCode::SetLocal)),
                Err(e) => Err(e),
            }
        },
        AstNode::Assign => if rightmost(start.locals, spec_first_word(node.text@)) is None {
            Err(LanguloErr::Emit(EmitError::UnknownIdentifier))
        } else if children.len() == 0 {
            malformed
        } else {
            match emitted(children[children.len() - 1], start) {
                Ok((emission, word)) => Ok(
                    embed(
                        Emission {
                            locals: emission.locals.push(
                                (spec_first_word(node.text@), emission.scope),
                            ),
                            ..emission
                        },
                        word,
                        OpCode::SetLocal,
                    ),
                ),
                Err(e) => Err(e),
            }
        },
        AstNode::If => if children.len() == 0 {
            malformed
        } else {
            match emitted(children[0], start) {
                Ok((emission, condition)) => {
                    let slot = emission.code.len() + 1;
                    match emitted(
                        children[children.len() - 1],
                        emission.pushed(condition).pushed(instruction(OpCode::JumpIfFalse)),
                    ) {
                        Ok((emission, branch)) => {
                            let (emission, wrap) = embed(emission, branch, OpCode::WrapInOption);
                            match emission.patched(slot as int, OpCode::JumpIfFalse) {
                                Ok(emission) => Ok((emission, wrap)),
                                Err(e) => Err(e),
                            }
                        },
                        Err(e) => Err(e),
                    }
                },
                Err(e) => Err(e),
            }
        },
        AstNode::Else => if children.len() == 0 {
            malformed
        } else {
            match emitted(children[0], start) {
                Ok((emission, option)) => {
                    let slot = emission.code.len() + 1;
                    match emitted(
                        children[children.len() - 1],
                        emission.pushed(option).pushed(instruction(OpCode::JumpIfNo)),
                    ) {
                        Ok((emission, branch)) => match emission.patched(
                            slot as int,
                            OpCode::JumpIfNo,
                        ) {
                            Ok(emission) => Ok((emission, branch)),
                            Err(e) => Err(e),
                        },
                        Err(e) => Err(e),
                    }
                },
                Err(e) => Err(e),
            }
        },
        kind => match kind.spec_binary_operator() {
            Some(operator) => if children.len() == 0 {
                malformed
            } else {
                match emitted(children[0], start) {
                    Ok((emission, lhs)) => match emitted(
                        children[children.len() - 1],
                        emission.pushed(lhs),
                    ) {
                        Ok((emission, rhs)) => Ok(embed(emission, rhs, operator)),
                        Err(e) => Err(e),
                    },
                    Err(e) => Err(e),
                }
            },
            None => match kind.spec_unary_operator() {
                Some(operator) => if children.len() == 0 {
                    malformed
                } else {
                    match emitted(children[0], start) {
                        Ok((emission, operand)) => Ok(embed(emission, operand, operator)),
                        Err(e) => Err(e),
                    }
                },
                None => Err(LanguloErr::Emit(EmitError::Unimplemented)),
            },
        },
    }
}

/// The emission of the nodes from index `from` on, each followed by the word that it
/// returns.
pub open spec fn emitted_all(nodes: Seq<LanguloSyntaxNode>, from: int, start: Emission) -> Result<
    Emission,
    LanguloErr,
>
    decreases nodes, nodes.len() - from,
{
    if 0 <= from < nodes.len() {
        match emitted(nodes[from], start) {
            Ok((emission, word)) => emitted_all(nodes, from + 1, emission.pushed(word)),
            Err(e) => Err(e),
        }
    } else {
        Ok(start)
    }
}

/// The emission of the pairs of a table from index `from` on: of each pair the key and
/// then the value, each followed by the word that it returns.
pub open spec fn emitted_pairs(nodes: Seq<LanguloSyntaxNode>, from: int, start: Emission) -> Result<
    Emission,
    LanguloErr,
>
    decreases nodes, nodes.len() - from,
{
    if 0 <= from < nodes.len() {
        let pair = nodes[from].children@;
        if pair.len() == 0 {
            Err(LanguloErr::Semantic(SemanticError::Malformed))
        } else {
            match emitted(pair[0], start) {
                Ok((emission, key)) => match emitted(pair[pair.len() - 1], emission.pushed(key)) {
                    Ok((emission, value)) => emitted_pairs(
                        nodes,
                        from + 1,
                        emission.pushed(value),
                    ),
                    Err(e) => Err(e),
                },
                Err(e) => Err(e),
            }
        }
    } else {
        Ok(start)
    }
}

/// The emission of a program: its statements, and then `Stop`.
pub open spec fn emitted_program(root: LanguloSyntaxNode, start: Emission) -> Result<
    Emission,
    LanguloErr,
> {
    match emitted_all(root.children@, 0, start) {
        Ok(emission) => Ok(emission.pushed(instruction(OpCode::Stop))),
        Err(e) => Err(e),
    }
}

/// Whether `after` holds all the code of `before`, unchanged, at its start.
pub open spec fn extends(before: Emission, after: Emission) -> bool {
    &&& before.code.len() <= after.code.len()
    &&& forall|i: int| 0 <= i < before.code.len() ==> after.code[i] == before.code[i]
}

/// Emitting a node leaves the code that was there as it is.
pub proof fn lemma_emitted_extends(node: LanguloSyntaxNode, start: Emission)
    ensures
        emitted(node, start) matches Ok((emission, _)) ==> extends(start, emission),
    decreases node, 0int,
{
    let children = node.children@;
    match emitted(node, start) {
        Ok((end, _)) => {
            match node.kind {
                AstNode::Int | AstNode::Bool | AstNode::Char | AstNode::Float | AstNode::Str
                | AstNode::DefaultKey | AstNode::Identifier => {},
                AstNode::Table => {
                    lemma_emitted_pairs_extends(children, 0, start);
                },
                AstNode::Option => {
                    if children.len() > 0 {
                        lemma_emitted_extends(children[0], start);
                    }
                },
                AstNode::Scope => {
                    lemma_emitted_all_extends(
                        children,
                        0,
                        Emission { scope: start.scope + 1, ..start },
                    );
                },
                AstNode::Grouping => {
                    lemma_emitted_extends(children[0], start);
                },
                AstNode::VarDecl => {
                    lemma_emitted_extends(
                        children[children.len() - 1],
                        Emission {
                            locals: start.locals.push((spec_first_word(node.text@), start.scope)),
                            ..start
                        },
                    );
                },
                AstNode::Assign => {
                    lemma_emitted_extends(children[children.len() - 1], start);
                },
                AstNode::If => {
                    lemma_emitted_extends(children[0], start);
                    let (first, condition) = emitted(children[0], start).unwrap();
                    lemma_emitted_extends(
                        children[children.len() - 1],
                        first.pushed(condition).pushed(instruction(OpCode::JumpIfFalse)),
                    );
                },
                AstNode::Else => {
                    lemma_emitted_extends(children[0], start);
                    let (first, option) = emitted(children[0], start).unwrap();
                    lemma_emitted_extends(
                        children[children.len() - 1],
                        first.pushed(option).pushed(instruction(OpCode::JumpIfNo)),
                    );
                },
                kind => {
                    if kind.spec_binary_operator() is Some {
                        lemma_emitted_extends(children[0], start);
                        let (first, lhs) = emitted(children[0], start).unwrap();
                        lemma_emitted_extends(children[children.len() - 1], first.pushed(lhs));
                    } else if kind.spec_unary_operator() is Some {
                        lemma_emitted_extends(children[0], start);
                    }
                },
            }
        },
        Err(_) => {},
    }
}

/// Emitting nodes leaves the code that was there as it is.
pub proof fn lemma_emitted_all_extends(nodes: Seq<LanguloSyntaxNode>, from: int, start: Emission)
    ensures
        emitted_all(nodes, from, start) matches Ok(emission) ==> extends(start, emission),
    decreases nodes, nodes.len() - from,
{
    if 0 <= from < nodes.len() {
        lemma_emitted_extends(nodes[from], start);
        match emitted(nodes[from], start) {
            Ok((emission, word)) => {
                lemma_emitted_all_extends(nodes, from + 1, emission.pushed(word));
            },
            Err(_) => {},
        }
    }
}

/// Emitting the pairs of a table leaves the code that was there as it is.
pub proof fn lemma_emitted_pairs_extends(nodes: Seq<LanguloSyntaxNode>, from: int, start: Emission)
    ensures
        emitted_pairs(nodes, from, start) matches Ok(emission) ==> extends(start, emission),
    decreases nodes, nodes.len() - from,
{
    if 0 <= from < nodes.len() {
        let pair = nodes[from].children@;
        if pair.len() > 0 {
            lemma_emitted_extends(pair[0], start);
            match emitted(pair[0], start) {
                Ok((emission, key)) => {
                    lemma_emitted_extends(pair[pair.len() - 1], emission.pushed(key));
                    match emitted(pair[pair.len() - 1], emission.pushed(key)) {
                        Ok((emission, value)) => {
                            lemma_emitted_pairs_extends(nodes, from + 1, emission.pushed(value));
                        },
                        Err(_) => {},
                    }
                },
                Err(_) => {},
            }
        }
    }
}

/// A local variable: its name and the depth of the scope that declares it.
#[derive(Debug)]
struct LocalVarInfo {
    name: String,
    scope: usize,
}

/// What the emitter has produced so far.
pub struct EmitState {
    bytecode: Vec<Word>,
    /// the VM operates on these values by reading/writing a pointer to their location
    /// in the heap. they cannot be allocated while compiling, so they are serialized
    /// along with the bytecode, and the VM loads them to its runtime.
    heap_floats: Vec<u64>,
    heap_strings: Vec<String>,
    local_variables: Vec<LocalVarInfo>,
    curr_scope: usize,
}

impl View for EmitState {
    type V = Emission;

    closed spec fn view(&self) -> Emission {
        Emission {
            code: self.bytecode@,
            floats: self.heap_floats@,
            strings: Seq::new(self.heap_strings@.len(), |i: int| self.heap_strings@[i]@),
            locals: Seq::new(
                self.local_variables@.len(),
                |i: int| (self.local_variables@[i].name@, self.local_variables@[i].scope as nat),
            ),
            scope: self.curr_scope as nat,
        }
    }
}

/// The word of an instruction that carries nothing.
fn instruction_word(opcode: OpCode) -> (word: Word)
    ensures
        word == instruction(opcode),
{
    make_word(ValueTag::Int, opcode, 0, 0)
}

fn make_word(tag: ValueTag, opcode: OpCode, aux: u32, payload: u32) -> (word: Word)
    requires
        aux <= AUX_MAX,
    ensures
        word == word_of(tag, opcode, aux as int, payload as int),
{
    let mut word = Word::new(payload, opcode, tag);
    word.set_aux(aux);
    proof {
        word.lemma_word_of_view(
            WordView {
                tag: tag.code(),
                opcode: opcode.code(),
                aux: aux as u64,
                payload: payload as u64,
            },
        );
    }
    word
}

impl EmitState {
    fn new() -> (state: EmitState)
        ensures
            state@ == (Emission {
                code: Seq::empty(),
                floats: Seq::empty(),
                strings: Seq::empty(),
                locals: Seq::empty(),
                scope: 0,
            }),
    {
        let state = EmitState {
            bytecode: Vec::new(),
            heap_floats: Vec::new(),
            heap_strings: Vec::new(),
            local_variables: Vec::new(),
            curr_scope: 0,
        };
        proof {
            assert(state@.strings =~= Seq::empty());
            assert(state@.locals =~= Seq::empty());
        }
        state
    }

    fn push(&mut self, word: Word)
        ensures
            final(self)@ == old(self)@.pushed(word),
    {
        self.bytecode.push(word);
        proof {
            assert(self@.strings =~= old(self)@.strings);
            assert(self@.locals =~= old(self)@.locals);
        }
    }

    /// The rule of the embedded operand.
    fn embed(&mut self, word: Word, operator: OpCode) -> (next: Word)
        requires
            operator.spec_embedded() is Some,
        ensures
            (final(self)@, next) == embed(old(self)@, word, operator),
    {
        if word.is_embeddable() {
            let mut next = word;
            next.set_opcode(operator.embedded().unwrap());
            proof {
                next.lemma_word_of_view(
                    WordView { opcode: operator.spec_embedded().unwrap().code(), ..word@ },
                );
            }
            next
        } else {
            self.push(word);
            instruction_word(operator)
        }
    }

    /// Writes into the jump at `slot` the distance to the place behind the next word.
    fn patch(&mut self, slot: usize, jump: OpCode) -> (result: Result<(), LanguloErr>)
        requires
            slot < old(self)@.code.len(),
        ensures
            match old(self)@.patched(slot as int, jump) {
                Ok(emission) => result is Ok && final(self)@ == emission,
                Err(e) => result == Err::<(), LanguloErr>(e),
            },
    {
        let distance = self.bytecode.len() - slot;
        if distance > u32::MAX as usize {
            return Err(LanguloErr::Emit(EmitError::TooLarge));
        }
        let word = make_word(ValueTag::Int, jump, 0, distance as u32);
        self.bytecode.set(slot, word);
        proof {
            assert(self@.strings =~= old(self)@.strings);
            assert(self@.locals =~= old(self)@.locals);
        }
        Ok(())
    }

    /// The index of the last variable with this name.
    fn find(&self, name: &String) -> (index: Option<usize>)
        ensures
            match rightmost(self@.locals, name@) {
                Some(i) => index matches Some(k) && k as int == i && i < self@.locals.len(),
                None => index is None,
            },
    {
        let mut i = self.local_variables.len();
        proof {
            assert(self@.locals.take(i as int) =~= self@.locals);
        }
        while i > 0
            invariant
                i <= self.local_variables@.len(),
                rightmost(self@.locals, name@) == rightmost(self@.locals.take(i as int), name@),
            decreases i,
        {
            proof {
                let upto = self@.locals.take(i as int);
                assert(upto.last() == self@.locals[i - 1]);
                assert(upto.drop_last() =~= self@.locals.take(i - 1));
            }
            if self.local_variables[i - 1].name == *name {
                return Some(i - 1);
            }
            i -= 1;
        }
        None
    }

    /// Whether the current scope declares a variable with this name.
    fn is_declared(&self, name: &String) -> (found: bool)
        ensures
            found == declared(self@.locals, name@, self@.scope),
    {
        let mut i: usize = 0;
        while i < self.local_variables.len()
            invariant
                i <= self.local_variables@.len(),
                forall|k: int| 0 <= k < i ==> self@.locals[k] != (name@, self@.scope),
            decreases self.local_variables@.len() - i,
        {
            if self.local_variables[i].name == *name && self.local_variables[i].scope
                == self.curr_scope {
                proof {
                    assert(self@.locals[i as int] == (name@, self@.scope));
                }
                return true;
            }
            i += 1;
        }
        false
    }

    /// Emits the nodes from the first on, each followed by the word that it returns.
    fn emit_all(&mut self, nodes: &Vec<LanguloSyntaxNode>) -> (result: Result<(), LanguloErr>)
        ensures
            match emitted_all(nodes@, 0, old(self)@) {
                Ok(emission) => result is Ok && final(self)@ == emission,
                Err(e) => result == Err::<(), LanguloErr>(e),
            },
        decreases nodes@, 0int,
    {
        let mut i: usize = 0;
        while i < nodes.len()
            invariant
                i <= nodes@.len(),
                emitted_all(nodes@, 0, old(self)@) == emitted_all(nodes@, i as int, self@),
            decreases nodes@.len() - i,
        {
            let word = match self.emit_node(&nodes[i]) {
                Ok(word) => word,
                Err(e) => {
                    return Err(e);
                },
            };
            self.push(word);
            i += 1;
        }
        Ok(())
    }

    /// Emits the pairs of a table.
    fn emit_pairs(&mut self, nodes: &Vec<LanguloSyntaxNode>) -> (result: Result<(), LanguloErr>)
        ensures
            match emitted_pairs(nodes@, 0, old(self)@) {
                Ok(emission) => result is Ok && final(self)@ == emission,
                Err(e) => result == Err::<(), LanguloErr>(e),
            },
        decreases nodes@, 0int,
    {
        let mut i: usize = 0;
        while i < nodes.len()
            invariant
                i <= nodes@.len(),
                emitted_pairs(nodes@, 0, old(self)@) == emitted_pairs(nodes@, i as int, self@),
            decreases nodes@.len() - i,
        {
            let pair = &nodes[i].children;
            let n = pair.len();
            if n == 0 {
                return Err(LanguloErr::Semantic(SemanticError::Malformed));
            }
            let key = match self.emit_node(&pair[0]) {
                Ok(word) => word,
                Err(e) => {
                    return Err(e);
                },
            };
            self.push(key);
            let value = match self.emit_node(&pair[n - 1]) {
                Ok(word) => word,
                Err(e) => {
                    return Err(e);
                },
            };
            self.push(value);
            i += 1;
        }
        Ok(())
    }

    /// Emits a node: appends what the node needs on the stack and returns the word that
    /// goes into the code next.
    pub fn emit_node(&mut self, node: &LanguloSyntaxNode) -> (result: Result<Word, LanguloErr>)
        ensures
            match emitted(*node, old(self)@) {
                Ok((emission, word)) => result == Ok::<Word, LanguloErr>(word) && final(self)@
                    == emission,
                Err(e) => result == Err::<Word, LanguloErr>(e),
            },
        decreases node, 1int,
    {
        match node.kind {
            AstNode::Int | AstNode::Bool | AstNode::Char | AstNode::Float | AstNode::Str
            | AstNode::DefaultKey | AstNode::Identifier => self.emit_leaf(node),
            AstNode::Table => self.emit_table(node),
            AstNode::Option => self.emit_option(node),
            AstNode::Scope => self.emit_scope(node),
            AstNode::Grouping => {
                if node.children.len() == 0 {
                    return Err(LanguloErr::Semantic(SemanticError::Malformed));
                }
                self.emit_node(&node.children[0])
            },
            AstNode::VarDecl => self.emit_var_decl(node),
            AstNode::Assign => self.emit_assign(node),
            AstNode::If => self.emit_if(node),
            AstNode::Else => self.emit_else(node),
            _ => self.emit_operator(node),
        }
    }

    /// A literal, the default key or an identifier.
    fn emit_leaf(&mut self, node: &LanguloSyntaxNode) -> (result: Result<Word, LanguloErr>)
        requires
            node.kind == AstNode::Int || node.kind == AstNode::Bool || node.kind == AstNode::Char
                || node.kind == AstNode::Float || node.kind == AstNode::Str || node.kind
                == AstNode::DefaultKey || node.kind == AstNode::Identifier,
        ensures
            match emitted(*node, old(self)@) {
                Ok((emission, word)) => result == Ok::<Word, LanguloErr>(word) && final(self)@
                    == emission,
                Err(e) => result == Err::<Word, LanguloErr>(e),
            },
        decreases node, 0int,
    {
        let children = &node.children;
        let n = children.len();
        match node.kind {
            AstNode::Int => match parse_int(node.text.as_str()) {
                Some(value) => {
                    let word = Word::integer(value, OpCode::Value);
                    proof {
                        word.lemma_word_of_view(
                            WordView {
                                tag: ValueTag::Int.code(),
                                opcode: OpCode::Value.code(),
                                aux: 0,
                                payload: int_bits(value) as u64,
                            },
                        );
                    }
                    Ok(word)
                },
                None => Err(LanguloErr::Semantic(SemanticError::Malformed)),
            },
            AstNode::Bool => match parse_bool(node.text.as_str()) {
                Some(value) => Ok(
                    make_word(ValueTag::Bool, OpCode::Value, 0, if value { 1 } else { 0 }),
                ),
                None => Err(LanguloErr::Semantic(SemanticError::Malformed)),
            },
            AstNode::Char => match parse_char(node.text.as_str()) {
                Some(value) => {
                    let word = Word::char(value, OpCode::Value);
                    proof {
                        word.lemma_word_of_view(
                            WordView {
                                tag: ValueTag::Char.code(),
                                opcode: OpCode::Value.code(),
                                aux: 0,
                                payload: char_bits(value) as u64,
                            },
                        );
                    }
                    Ok(word)
                },
                None => Err(LanguloErr::Semantic(SemanticError::Malformed)),
            },
            AstNode::Float => {
                let index = self.heap_floats.len();
                if index > u32::MAX as usize {
                    return Err(LanguloErr::Emit(EmitError::TooLarge));
                }
                self.heap_floats.push(node.float_bits);
                proof {
                    assert(self@.strings =~= old(self)@.strings);
                    assert(self@.locals =~= old(self)@.locals);
                }
                Ok(make_word(ValueTag::FloatPtr, OpCode::ReadFromMap, 0, index as u32))
            },
            AstNode::Str => {
                let index = self.heap_strings.len();
                if index > u32::MAX as usize {
                    return Err(LanguloErr::Emit(EmitError::TooLarge));
                }
                self.heap_strings.push(node.text.clone());
                proof {
                    assert(self@.strings =~= old(self)@.strings.push(node.text@));
                    assert(self@.locals =~= old(self)@.locals);
                }
                Ok(make_word(ValueTag::StrPtr, OpCode::ReadFromMap, 0, index as u32))
            },
            AstNode::DefaultKey => Ok(
                make_word(ValueTag::Special, OpCode::Value, 0, Word::DEFAULT_ARM_PAYLOAD),
            ),
            _ => match self.find(&node.text) {
                Some(index) => {
                    if index > AUX_MAX as usize {
                        return Err(LanguloErr::Emit(EmitError::TooLarge));
                    }
                    Ok(make_word(ValueTag::Int, OpCode::GetLocal, index as u32, 0))
                },
                None => Err(LanguloErr::Emit(EmitError::UnknownIdentifier)),
            },
        }
    }

    /// A table literal: its pairs, and the word that tells the machine how many to take.
    fn emit_table(&mut self, node: &LanguloSyntaxNode) -> (result: Result<Word, LanguloErr>)
        requires
            node.kind == AstNode::Table,
        ensures
            match emitted(*node, old(self)@) {
                Ok((emission, word)) => result == Ok::<Word, LanguloErr>(word) && final(self)@
                    == emission,
                Err(e) => result == Err::<Word, LanguloErr>(e),
            },
        decreases node, 0int,
    {
        let children = &node.children;
        let n = children.len();
        if n > u32::MAX as usize {
            return Err(LanguloErr::Emit(EmitError::TooLarge));
        }
        match self.emit_pairs(children) {
            Ok(()) => Ok(make_word(ValueTag::TablePtr, OpCode::ReadFromMap, 0, n as u32)),
            Err(e) => Err(e),
        }
    }

    /// An option around a value, or around nothing.
    fn emit_option(&mut self, node: &LanguloSyntaxNode) -> (result: Result<Word, LanguloErr>)
        requires
            node.kind == AstNode::Option,
        ensures
            match emitted(*node, old(self)@) {
                Ok((emission, word)) => result == Ok::<Word, LanguloErr>(word) && final(self)@
                    == emission,
                Err(e) => result == Err::<Word, LanguloErr>(e),
            },
        decreases node, 0int,
    {
        let children = &node.children;
        let n = children.len();
        let inner = if n == 0 {
            make_word(ValueTag::Special, OpCode::Value, 0, Word::NO_OPTION_PAYLOAD)
        } else {
            match self.emit_node(&children[0]) {
                Ok(word) => word,
                Err(e) => {
                    return Err(e);
                },
            }
        };
        Ok(self.embed(inner, OpCode::WrapInOption))
    }

    /// A scope: its statements, one level deeper.
    fn emit_scope(&mut self, node: &LanguloSyntaxNode) -> (result: Result<Word, LanguloErr>)
        requires
            node.kind == AstNode::Scope,
        ensures
            match emitted(*node, old(self)@) {
                Ok((emission, word)) => result == Ok::<Word, LanguloErr>(word) && final(self)@
                    == emission,
                Err(e) => result == Err::<Word, LanguloErr>(e),
            },
        decreases node, 0int,
    {
        let children = &node.children;
        let n = children.len();
        let depth = self.curr_scope;
        if depth == usize::MAX {
            return Err(LanguloErr::Emit(EmitError::TooLarge));
        }
        self.curr_scope = depth + 1;
        proof {
            assert(self@.strings =~= old(self)@.strings);
            assert(self@.locals =~= old(self)@.locals);
        }
        match self.emit_all(children) {
            Ok(()) => {},
            Err(e) => {
                return Err(e);
            },
        }
        let ghost inside = self@;
        self.curr_scope = depth;
        proof {
            assert(self@.strings =~= inside.strings);
            assert(self@.locals =~= inside.locals);
        }
        Ok(instruction_word(OpCode::Print))
    }

    /// The declaration of a variable: the name is registered, then the initializer emitted.
    fn emit_var_decl(&mut self, node: &LanguloSyntaxNode) -> (result: Result<Word, LanguloErr>)
        requires
            node.kind == AstNode::VarDecl,
        ensures
            match emitted(*node, old(self)@) {
                Ok((emission, word)) => result == Ok::<Word, LanguloErr>(word) && final(self)@
                    == emission,
                Err(e) => result == Err::<Word, LanguloErr>(e),
            },
        decreases node, 0int,
    {
        let children = &node.children;
        let n = children.len();
        let name = first_word(node.text.as_str());
        if self.is_declared(&name) {
            return Err(LanguloErr::Semantic(SemanticError::DuplicateVariable));
        }
        if n == 0 {
            return Err(LanguloErr::Semantic(SemanticError::Malformed));
        }
        self.local_variables.push(LocalVarInfo { name, scope: self.curr_scope });
        proof {
            assert(self@.strings =~= old(self)@.strings);
            assert(self@.locals =~= old(self)@.locals.push(
                (spec_first_word(node.text@), old(self)@.scope),
            ));
        }
        // the first child could be the type hint
        let word = match self.emit_node(&children[n - 1]) {
            Ok(word) => word,
            Err(e) => {
                return Err(e);
            },
        };
        Ok(self.embed(word, OpCode::SetLocal))
    }

    /// An assignment to a variable: the value is emitted, then the name is registered
    /// anew, so that the variable is from then on the one set here.
    fn emit_assign(&mut self, node: &LanguloSyntaxNode) -> (result: Result<Word, LanguloErr>)
        requires
            node.kind == AstNode::Assign,
        ensures
            match emitted(*node, old(self)@) {
                Ok((emission, word)) => result == Ok::<Word, LanguloErr>(word) && final(self)@
                    == emission,
                Err(e) => result == Err::<Word, LanguloErr>(e),
            },
        decreases node, 0int,
    {
        let children = &node.children;
        let n = children.len();
        let name = first_word(node.text.as_str());
        if self.find(&name).is_none() {
            return Err(LanguloErr::Emit(EmitError::UnknownIdentifier));
        }
        if n == 0 {
            return Err(LanguloErr::Semantic(SemanticError::Malformed));
        }
        let word = match self.emit_node(&children[n - 1]) {
            Ok(word) => word,
            Err(e) => {
                return Err(e);
            },
        };
        let ghost emission = self@;
        self.local_variables.push(LocalVarInfo { name, scope: self.curr_scope });
        proof {
            assert(self@.strings =~= emission.strings);
            assert(self@.locals =~= emission.locals.push(
                (spec_first_word(node.text@), emission.scope),
            ));
        }
        Ok(self.embed(word, OpCode::SetLocal))
    }

    /// A conditional: the condition, a jump over the branch, the branch, and the option that wraps the branch's value.
    fn emit_if(&mut self, node: &LanguloSyntaxNode) -> (result: Result<Word, LanguloErr>)
        requires
            node.kind == AstNode::If,
        ensures
            match emitted(*node, old(self)@) {
                Ok((emission, word)) => result == Ok::<Word, LanguloErr>(word) && final(self)@
                    == emission,
                Err(e) => result == Err::<Word, LanguloErr>(e),
            },
        decreases node, 0int,
    {
        let children = &node.children;
        let n = children.len();
        if n == 0 {
            return Err(LanguloErr::Semantic(SemanticError::Malformed));
        }
        let condition = match self.emit_node(&children[0]) {
            Ok(word) => word,
            Err(e) => {
                return Err(e);
            },
        };
        self.push(condition);
        let slot = self.bytecode.len();
        self.push(instruction_word(OpCode::JumpIfFalse));
        let ghost before_branch = self@;
        let branch = match self.emit_node(&children[n - 1]) {
            Ok(word) => word,
            Err(e) => {
                return Err(e);
            },
        };
        let wrap = self.embed(branch, OpCode::WrapInOption);
        proof {
            lemma_emitted_extends(children@[n - 1], before_branch);
        }
        match self.patch(slot, OpCode::JumpIfFalse) {
            Ok(()) => Ok(wrap),
            Err(e) => Err(e),
        }
    }

    /// A fallback: the option, a jump over the fallback, and the fallback.
    fn emit_else(&mut self, node: &LanguloSyntaxNode) -> (result: Result<Word, LanguloErr>)
        requires
            node.kind == AstNode::Else,
        ensures
            match emitted(*node, old(self)@) {
                Ok((emission, word)) => result == Ok::<Word, LanguloErr>(word) && final(self)@
                    == emission,
                Err(e) => result == Err::<Word, LanguloErr>(e),
            },
        decreases node, 0int,
    {
        let children = &node.children;
        let n = children.len();
        if n == 0 {
            return Err(LanguloErr::Semantic(SemanticError::Malformed));
        }
        let option = match self.emit_node(&children[0]) {
            Ok(word) => word,
            Err(e) => {
                return Err(e);
            },
        };
        self.push(option);
        let slot = self.bytecode.len();
        self.push(instruction_word(OpCode::JumpIfNo));
        let ghost before_branch = self@;
        let branch = match self.emit_node(&children[n - 1]) {
            Ok(word) => word,
            Err(e) => {
                return Err(e);
            },
        };
        proof {
            lemma_emitted_extends(children@[n - 1], before_branch);
        }
        match self.patch(slot, OpCode::JumpIfNo) {
            Ok(()) => Ok(branch),
            Err(e) => Err(e),
        }
    }

    /// An operator with one or two operands; any other kind of node cannot be emitted.
    fn emit_operator(&mut self, node: &LanguloSyntaxNode) -> (result: Result<Word, LanguloErr>)
        requires
            node.kind != AstNode::Int && node.kind != AstNode::Bool && node.kind != AstNode::Char
                && node.kind != AstNode::Float && node.kind != AstNode::Str && node.kind
                != AstNode::DefaultKey && node.kind != AstNode::Identifier && node.kind
                != AstNode::Table && node.kind != AstNode::Option && node.kind != AstNode::Scope
                && node.kind != AstNode::Grouping && node.kind != AstNode::VarDecl && node.kind
                != AstNode::If && node.kind != AstNode::Else && node.kind != AstNode::Assign,
        ensures
            match emitted(*node, old(self)@) {
                Ok((emission, word)) => result == Ok::<Word, LanguloErr>(word) && final(self)@
                    == emission,
                Err(e) => result == Err::<Word, LanguloErr>(e),
            },
        decreases node, 0int,
    {
        let children = &node.children;
        let n = children.len();
        match node.kind.binary_operator() {
            Some(operator) => {
                if n == 0 {
                    return Err(LanguloErr::Semantic(SemanticError::Malformed));
                }
                let lhs = match self.emit_node(&children[0]) {
                    Ok(word) => word,
                    Err(e) => {
                        return Err(e);
                    },
                };
                self.push(lhs);
                let rhs = match self.emit_node(&children[n - 1]) {
                    Ok(word) => word,
                    Err(e) => {
                        return Err(e);
                    },
                };
                Ok(self.embed(rhs, operator))
            },
            None => match node.kind.unary_operator() {
                Some(operator) => {
                    if n == 0 {
                        return Err(LanguloErr::Semantic(SemanticError::Malformed));
                    }
                    let operand = match self.emit_node(&children[0]) {
                        Ok(word) => word,
                        Err(e) => {
                            return Err(e);
                        },
                    };
                    Ok(self.embed(operand, operator))
                },
                None => Err(LanguloErr::Emit(EmitError::Unimplemented)),
            },
        }
    }

}

/// The raw bits of words.
pub open spec fn raw_of(code: Seq<Word>) -> Seq<u64> {
    Seq::new(code.len(), |i: int| code[i].0)
}

impl Emission {
    /// What the artifact of this emission holds.
    pub open spec fn artifact(self) -> Artifact {
        Artifact {
            words: raw_of(self.code),
            floats: self.floats,
            strings: self.strings,
            locals: self.locals.len() as u32,
        }
    }

    /// Whether the emission can be written: whether every count fits in 32 bits.
    pub open spec fn writable(self) -> bool {
        self.artifact().fits() && self.locals.len() <= u32::MAX
    }
}

/// The jump of a conditional or of a fallback tells the machine to skip exactly the
/// words that the node has put behind the jump, and the word that the node returns: the
/// jump stands in the slot behind the word of the node's first child, and a machine that
/// takes it goes on right behind the returned word.
pub proof fn lemma_jump_target(node: LanguloSyntaxNode, start: Emission)
    requires
        node.kind == AstNode::If || node.kind == AstNode::Else,
        emitted(node, start) is Ok,
    ensures
        node.children@.len() > 0,
        emitted(node.children@[0], start) is Ok,
        ({
            let end = emitted(node, start).unwrap().0;
            let slot = emitted(node.children@[0], start).unwrap().0.code.len() + 1;
            let jump = end.code[slot as int];
            &&& start.code.len() < slot < end.code.len()
            &&& jump.well_formed()
            &&& jump.spec_opcode() == if node.kind == AstNode::If {
                OpCode::JumpIfFalse
            } else {
                OpCode::JumpIfNo
            }
            &&& jump@.payload == end.code.len() - slot
            &&& slot + 1 + jump@.payload == end.code.len() + 1
        }),
{
    let children = node.children@;
    let opcode = if node.kind == AstNode::If { OpCode::JumpIfFalse } else { OpCode::JumpIfNo };
    let (first, word) = emitted(children[0], start).unwrap();
    lemma_emitted_extends(children[0], start);
    let before = first.pushed(word).pushed(instruction(opcode));
    lemma_emitted_extends(children[children.len() - 1], before);
    let end = emitted(node, start).unwrap().0;
    let slot = first.code.len() + 1;
    let view = WordView {
        tag: ValueTag::Int.code(),
        opcode: opcode.code(),
        aux: 0,
        payload: (end.code.len() - slot) as u64,
    };
    Word::lemma_view_of_word(view);
    opcode.lemma_code_decode();
}

pub struct Emitter {
    ast_root: LanguloSyntaxNode,
    state: EmitState,
}

impl View for Emitter {
    type V = Emission;

    closed spec fn view(&self) -> Emission {
        self.state@
    }
}

/// The bytes of a run of numbers, one number longer.
proof fn lemma_quads_bytes_push(quads: Seq<u64>, last: u64)
    ensures
        quads_bytes(quads.push(last)) == quads_bytes(quads) + vstd::bytes::spec_u64_to_le_bytes(
            last,
        ),
{
    vstd::bytes::lemma_auto_spec_u64_to_from_le_bytes();
    let longer = quads_bytes(quads.push(last));
    let sum = quads_bytes(quads) + vstd::bytes::spec_u64_to_le_bytes(last);
    assert(longer.len() == sum.len());
    assert forall|i: int| 0 <= i < longer.len() implies longer[i] == sum[i] by {
        if i < 8 * quads.len() {
            assert(i / 8 < quads.len());
        } else {
            assert(i / 8 == quads.len());
            assert(i % 8 == i - 8 * quads.len());
        }
    }
    assert(longer =~= sum);
}

/// The bytes of a run of strings, one string longer.
proof fn lemma_strings_bytes_push(strings: Seq<Seq<char>>, last: Seq<char>)
    ensures
        strings_bytes(strings.push(last)) == strings_bytes(strings)
            + vstd::bytes::spec_u32_to_le_bytes(vstd::utf8::encode_utf8(last).len() as u32)
            + vstd::utf8::encode_utf8(last),
    decreases strings.len(),
{
    let longer = strings.push(last);
    let piece = vstd::bytes::spec_u32_to_le_bytes(vstd::utf8::encode_utf8(last).len() as u32)
        + vstd::utf8::encode_utf8(last);
    if strings.len() == 0 {
        assert(longer.drop_first() =~= Seq::<Seq<char>>::empty());
        assert(strings_bytes(longer) =~= piece + strings_bytes(longer.drop_first()));
        assert(strings_bytes(longer) =~= strings_bytes(strings) + piece);
    } else {
        lemma_strings_bytes_push(strings.drop_first(), last);
        assert(longer.drop_first() =~= strings.drop_first().push(last));
        assert(longer[0] == strings[0]);
        let head = vstd::bytes::spec_u32_to_le_bytes(
            vstd::utf8::encode_utf8(strings[0]).len() as u32,
        ) + vstd::utf8::encode_utf8(strings[0]);
        assert(strings_bytes(longer) =~= head + (strings_bytes(strings.drop_first()) + piece));
        assert(strings_bytes(strings) =~= head + strings_bytes(strings.drop_first()));
        assert(strings_bytes(longer) =~= strings_bytes(strings) + piece);
    }
}

fn write_u32(writer: &mut Vec<u8>, value: u32)
    ensures
        final(writer)@ == old(writer)@ + vstd::bytes::spec_u32_to_le_bytes(value),
{
    let bytes = vstd::bytes::u32_to_le_bytes(value);
    writer.extend_from_slice(bytes.as_slice());
}

fn write_header(writer: &mut Vec<u8>, marker: u8, count: u32)
    ensures
        final(writer)@ == old(writer)@ + crate::artifact::header_bytes(marker, count),
{
    writer.push(marker);
    write_u32(writer, count);
    proof {
        assert(writer@ =~= old(writer)@ + crate::artifact::header_bytes(marker, count));
    }
}

impl Emitter {
    /// The tree that is emitted.
    pub closed spec fn root(&self) -> LanguloSyntaxNode {
        self.ast_root
    }

    /// An emitter for the program with the given tree, with nothing emitted yet.
    pub fn new(ast_root: LanguloSyntaxNode) -> (emitter: Emitter)
        ensures
            emitter.root() == ast_root,
            emitter@ == (Emission {
                code: Seq::empty(),
                floats: Seq::empty(),
                strings: Seq::empty(),
                locals: Seq::empty(),
                scope: 0,
            }),
    {
        Emitter { ast_root, state: EmitState::new() }
    }

    /// Emits the program: the statements of the tree, and then `Stop`.
    pub fn emit(&mut self) -> (result: Result<(), LanguloErr>)
        ensures
            final(self).root() == old(self).root(),
            match emitted_program(old(self).root(), old(self)@) {
                Ok(emission) => result is Ok && final(self)@ == emission,
                Err(e) => result == Err::<(), LanguloErr>(e),
            },
    {
        match self.state.emit_all(&self.ast_root.children) {
            Ok(()) => {},
            Err(e) => {
                return Err(e);
            },
        }
        self.state.push(instruction_word(OpCode::Stop));
        Ok(())
    }

    /// The words that have been emitted.
    pub fn to_bytecode(self) -> (bytecode: Vec<Word>)
        ensures
            bytecode@ == self@.code,
    {
        self.state.bytecode
    }

    /// The pool of float constants, as bits.
    pub fn heap_floats(&self) -> (floats: &Vec<u64>)
        ensures
            floats@ == self@.floats,
    {
        &self.state.heap_floats
    }

    /// The pool of string constants.
    pub fn heap_strings(&self) -> (strings: &Vec<String>)
        ensures
            strings@.len() == self@.strings.len(),
            forall|i: int| 0 <= i < strings@.len() ==> strings@[i]@ == self@.strings[i],
    {
        &self.state.heap_strings
    }

    /// Whether the emission can be written.
    fn is_writable(&self) -> (writable: bool)
        ensures
            writable == self@.writable(),
    {
        let state = &self.state;
        if state.bytecode.len() > u32::MAX as usize || state.heap_floats.len() > u32::MAX as usize
            || state.heap_strings.len() > u32::MAX as usize || state.local_variables.len()
            > u32::MAX as usize {
            return false;
        }
        let mut i: usize = 0;
        while i < state.heap_strings.len()
            invariant
                i <= state.heap_strings@.len(),
                state == &self.state,
                forall|k: int|
                    0 <= k < i ==> (#[trigger] vstd::utf8::encode_utf8(self@.strings[k])).len()
                        <= u32::MAX,
            decreases state.heap_strings@.len() - i,
        {
            if state.heap_strings[i].as_str().as_bytes().len() > u32::MAX as usize {
                proof {
                    assert(vstd::utf8::encode_utf8(self@.strings[i as int]).len() > u32::MAX);
                }
                return false;
            }
            i += 1;
        }
        true
    }

    /// Appends the artifact of the emission to `writer`. Nothing is written where a
    /// count of the emission does not fit the 32 bits that the format gives it.
    pub fn write_to_stream(&self, writer: &mut Vec<u8>) -> (result: Result<(), LanguloErr>)
        ensures
            self@.writable() ==> result is Ok && final(writer)@ == old(writer)@ + serialized(
                self@.artifact(),
            ),
            !self@.writable() ==> result == Err::<(), LanguloErr>(
                LanguloErr::Load(LoadError::Oversized),
            ) && final(writer)@ == old(writer)@,
    {
        if !self.is_writable() {
            return Err(LanguloErr::Load(LoadError::Oversized));
        }
        let state = &self.state;
        let ghost artifact = self@.artifact();
        let ghost base = writer@;
        write_header(writer, crate::artifact::SECTION_WORDS, state.bytecode.len() as u32);
        let ghost base1 = writer@;
        let mut i: usize = 0;
        proof {
            assert(quads_bytes(artifact.words.take(0)) =~= Seq::<u8>::empty());
            assert(writer@ =~= base1 + quads_bytes(artifact.words.take(0)));
        }
        while i < state.bytecode.len()
            invariant
                i <= state.bytecode@.len(),
                state == &self.state,
                artifact == self@.artifact(),
                writer@ == base1 + quads_bytes(artifact.words.take(i as int)),
            decreases state.bytecode@.len() - i,
        {
            let bytes = vstd::bytes::u64_to_le_bytes(state.bytecode[i].0);
            writer.extend_from_slice(bytes.as_slice());
            proof {
                lemma_quads_bytes_push(artifact.words.take(i as int), artifact.words[i as int]);
                assert(artifact.words.take(i as int).push(artifact.words[i as int])
                    =~= artifact.words.take(i + 1));
                assert(writer@ =~= base1 + quads_bytes(artifact.words.take(i + 1)));
            }
            i += 1;
        }
        proof {
            assert(artifact.words.take(i as int) =~= artifact.words);
        }
        write_header(writer, crate::artifact::SECTION_FLOATS, state.heap_floats.len() as u32);
        let ghost base2 = writer@;
        let mut i: usize = 0;
        proof {
            assert(quads_bytes(artifact.floats.take(0)) =~= Seq::<u8>::empty());
            assert(writer@ =~= base2 + quads_bytes(artifact.floats.take(0)));
        }
        while i < state.heap_floats.len()
            invariant
                i <= state.heap_floats@.len(),
                state == &self.state,
                artifact == self@.artifact(),
                writer@ == base2 + quads_bytes(artifact.floats.take(i as int)),
            decreases state.heap_floats@.len() - i,
        {
            let bytes = vstd::bytes::u64_to_le_bytes(state.heap_floats[i]);
            writer.extend_from_slice(bytes.as_slice());
            proof {
                lemma_quads_bytes_push(artifact.floats.take(i as int), artifact.floats[i as int]);
                assert(artifact.floats.take(i as int).push(artifact.floats[i as int])
                    =~= artifact.floats.take(i + 1));
                assert(writer@ =~= base2 + quads_bytes(artifact.floats.take(i + 1)));
            }
            i += 1;
        }
        proof {
            assert(artifact.floats.take(i as int) =~= artifact.floats);
        }
        write_header(writer, crate::artifact::SECTION_STRINGS, state.heap_strings.len() as u32);
        let ghost base3 = writer@;
        let mut i: usize = 0;
        proof {
            assert(artifact.strings.take(0) =~= Seq::<Seq<char>>::empty());
            assert(writer@ =~= base3 + strings_bytes(artifact.strings.take(0)));
        }
        while i < state.heap_strings.len()
            invariant
                i <= state.heap_strings@.len(),
                state == &self.state,
                artifact == self@.artifact(),
                artifact.fits(),
                writer@ == base3 + strings_bytes(artifact.strings.take(i as int)),
            decreases state.heap_strings@.len() - i,
        {
            let bytes = state.heap_strings[i].as_str().as_bytes();
            proof {
                assert(bytes@ == vstd::utf8::encode_utf8(artifact.strings[i as int]));
            }
            write_u32(writer, bytes.len() as u32);
            writer.extend_from_slice(bytes);
            proof {
                lemma_strings_bytes_push(artifact.strings.take(i as int), artifact.strings[i as int]);
                assert(artifact.strings.take(i as int).push(artifact.strings[i as int])
                    =~= artifact.strings.take(i + 1));
                assert(writer@ =~= base3 + strings_bytes(artifact.strings.take(i + 1)));
            }
            i += 1;
        }
        proof {
            assert(artifact.strings.take(i as int) =~= artifact.strings);
        }
        write_header(writer, crate::artifact::SECTION_LOCALS, state.local_variables.len() as u32);
        proof {
            crate::artifact::lemma_serialized_sections(artifact);
            assert(writer@ =~= base + serialized(artifact));
        }
        Ok(())
    }
}

} // verus!
