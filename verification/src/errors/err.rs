//! What can go wrong, stage by stage. Every failure ends the stage it happened in and
//! reaches the caller as one value that says what happened and, where the source text is
//! known, where.

use vstd::prelude::*;

verus! {

/// A failure of the virtual machine while it runs.
#[derive(Debug, Clone, Copy, PartialEq, Eq, Structural)]
pub enum VmError {
    /// An instruction needed more values than the stack holds.
    StackUnderflow,
    /// The right operand of a division or a modulo is zero.
    DivisionByZero,
    /// An option without a value was unwrapped.
    UnwrapNone,
    /// The two operands of an operator are of different kinds.
    TagMismatch,
    /// An entry of a constant pool was asked for a second time.
    PoolEntryTaken,
    /// The word at the instruction pointer names no instruction that the machine runs.
    InvalidOpcode,
    /// The operator is not defined on values of this kind.
    BadOperand,
    /// A word refers to a place in the heap that holds no value of its kind.
    BadAddress,
    /// A word refers to an entry that the constant pool does not have.
    BadPoolIndex,
    /// A word refers to a local variable that was never set.
    BadLocal,
    /// The heap has no address left.
    OutOfMemory,
    /// The instruction pointer left the bytecode before a `Stop`.
    EndOfCode,
    /// The machine waits for the result of a float operation.
    FloatPending,
    /// A float result was handed to a machine that waits for none.
    NothingPending,
}

/// A failure to read a compiled artifact.
#[derive(Debug, Clone, Copy, PartialEq, Eq, Structural)]
pub enum LoadError {
    /// A section does not start with the byte that marks it.
    BadSection,
    /// The bytes end before the artifact does.
    Truncated,
    /// A string of the pool is not UTF-8.
    InvalidUtf8,
    /// A section announces more than this machine can hold.
    Oversized,
}

/// A failure to emit a syntax tree.
#[derive(Debug, Clone, Copy, PartialEq, Eq, Structural)]
pub enum EmitError {
    /// An identifier names no variable in scope.
    UnknownIdentifier,
    /// The emitter has no words for this kind of node.
    Unimplemented,
    /// The program needs more words, pool entries or variables than an artifact can
    /// count.
    TooLarge,
}

/// A program whose structure is wrong.
#[derive(Debug, Clone, Copy, PartialEq, Eq, Structural)]
pub enum SemanticError {
    /// A node lacks a child, or a literal cannot be read.
    Malformed,
    /// An expression does not end where it must.
    MissingTerminator,
    /// A table has two default arms.
    DuplicateDefaultKey,
    /// A scope declares the same variable twice.
    DuplicateVariable,
    /// The source has more text than a syntax tree can address.
    TooLong,
}

#[derive(Debug, Clone, Copy, PartialEq, Eq, Structural)]
pub enum LanguloErr {
    /// An invalid token, at a range of bytes of the source.
    Lexical { start: usize, end: usize },
    Semantic(SemanticError),
    /// Operands of incompatible kinds.
    Typecheck,
    Emit(EmitError),
    Load(LoadError),
    Vm(VmError),
}

impl LanguloErr {
    pub fn vm(error: VmError) -> (err: LanguloErr)
        ensures
            err == LanguloErr::Vm(error),
    {
        LanguloErr::Vm(error)
    }

    pub fn lexical(start: usize, end: usize) -> (err: LanguloErr)
        ensures
            err == (LanguloErr::Lexical { start, end }),
    {
        LanguloErr::Lexical { start, end }
    }

    pub fn semantic(error: SemanticError) -> (err: LanguloErr)
        ensures
            err == LanguloErr::Semantic(error),
    {
        LanguloErr::Semantic(error)
    }

    pub fn typecheck() -> (err: LanguloErr)
        ensures
            err == LanguloErr::Typecheck,
    {
        LanguloErr::Typecheck
    }

    /// The range of bytes of the source that the error is about, where it has one.
    pub fn span(&self) -> (span: Option<(usize, usize)>)
        ensures
            span == match *self {
                LanguloErr::Lexical { start, end } => Some((start, end)),
                _ => None::<(usize, usize)>,
            },
    {
        match self {
            LanguloErr::Lexical { start, end } => Some((*start, *end)),
            _ => None,
        }
    }

    /// The message of the error: the stage it belongs to, a dash, and what happened.
    pub open spec fn spec_message(self) -> Seq<char> {
        match self {
            LanguloErr::Lexical { .. } => "LexicalError - invalid token"@,
            LanguloErr::Semantic(SemanticError::Malformed) => "SemanticError - malformed expression"@,
            LanguloErr::Semantic(SemanticError::MissingTerminator) => "SemanticError - expected end of expression"@,
            LanguloErr::Semantic(SemanticError::DuplicateDefaultKey) => "SemanticError - default key already defined"@,
            LanguloErr::Semantic(SemanticError::DuplicateVariable) => "SemanticError - variable already defined in this scope"@,
            LanguloErr::Semantic(SemanticError::TooLong) => "SemanticError - source too long"@,
            LanguloErr::Typecheck => "TypeError - incompatible types"@,
            LanguloErr::Emit(EmitError::UnknownIdentifier) => "EmitError - identifier not in scope"@,
            LanguloErr::Emit(EmitError::Unimplemented) => "EmitError - node kind not implemented"@,
            LanguloErr::Emit(EmitError::TooLarge) => "EmitError - program too large"@,
            LanguloErr::Load(LoadError::BadSection) => "LoadError - bad section marker"@,
            LanguloErr::Load(LoadError::Truncated) => "LoadError - truncated stream"@,
            LanguloErr::Load(LoadError::InvalidUtf8) => "LoadError - invalid UTF-8"@,
            LanguloErr::Load(LoadError::Oversized) => "LoadError - oversized section"@,
            LanguloErr::Vm(VmError::StackUnderflow) => "VMError - stack underflow"@,
            LanguloErr::Vm(VmError::DivisionByZero) => "VMError - division by zero"@,
            LanguloErr::Vm(VmError::UnwrapNone) => "VMError - unwrap option from non-option value"@,
            LanguloErr::Vm(VmError::TagMismatch) => "VMError - tag mismatch"@,
            LanguloErr::Vm(VmError::PoolEntryTaken) => "VMError - pool entry already taken"@,
            LanguloErr::Vm(VmError::InvalidOpcode) => "VMError - invalid opcode"@,
            LanguloErr::Vm(VmError::BadOperand) => "VMError - operator not defined on this value"@,
            LanguloErr::Vm(VmError::BadAddress) => "VMError - invalid heap address"@,
            LanguloErr::Vm(VmError::BadPoolIndex) => "VMError - invalid pool index"@,
            LanguloErr::Vm(VmError::BadLocal) => "VMError - invalid local variable"@,
            LanguloErr::Vm(VmError::OutOfMemory) => "VMError - out of memory"@,
            LanguloErr::Vm(VmError::EndOfCode) => "VMError - end of bytecode"@,
            LanguloErr::Vm(VmError::FloatPending) => "VMError - float operation pending"@,
            LanguloErr::Vm(VmError::NothingPending) => "VMError - no float operation pending"@,
        }
    }

    pub fn message(&self) -> (message: &'static str)
        ensures
            message@ == self.spec_message(),
    {
        match self {
            LanguloErr::Lexical { .. } => "LexicalError - invalid token",
            LanguloErr::Semantic(SemanticError::Malformed) => "SemanticError - malformed expression",
            LanguloErr::Semantic(SemanticError::MissingTerminator) => "SemanticError - expected end of expression",
            LanguloErr::Semantic(SemanticError::DuplicateDefaultKey) => "SemanticError - default key already defined",
            LanguloErr::Semantic(SemanticError::DuplicateVariable) => "SemanticError - variable already defined in this scope",
            LanguloErr::Semantic(SemanticError::TooLong) => "SemanticError - source too long",
            LanguloErr::Typecheck => "TypeError - incompatible types",
            LanguloErr::Emit(EmitError::UnknownIdentifier) => "EmitError - identifier not in scope",
            LanguloErr::Emit(EmitError::Unimplemented) => "EmitError - node kind not implemented",
            LanguloErr::Emit(EmitError::TooLarge) => "EmitError - program too large",
            LanguloErr::Load(LoadError::BadSection) => "LoadError - bad section marker",
            LanguloErr::Load(LoadError::Truncated) => "LoadError - truncated stream",
            LanguloErr::Load(LoadError::InvalidUtf8) => "LoadError - invalid UTF-8",
            LanguloErr::Load(LoadError::Oversized) => "LoadError - oversized section",
            LanguloErr::Vm(VmError::StackUnderflow) => "VMError - stack underflow",
            LanguloErr::Vm(VmError::DivisionByZero) => "VMError - division by zero",
            LanguloErr::Vm(VmError::UnwrapNone) => "VMError - unwrap option from non-option value",
            LanguloErr::Vm(VmError::TagMismatch) => "VMError - tag mismatch",
            LanguloErr::Vm(VmError::PoolEntryTaken) => "VMError - pool entry already taken",
            LanguloErr::Vm(VmError::InvalidOpcode) => "VMError - invalid opcode",
            LanguloErr::Vm(VmError::BadOperand) => "VMError - operator not defined on this value",
            LanguloErr::Vm(VmError::BadAddress) => "VMError - invalid heap address",
            LanguloErr::Vm(VmError::BadPoolIndex) => "VMError - invalid pool index",
            LanguloErr::Vm(VmError::BadLocal) => "VMError - invalid local variable",
            LanguloErr::Vm(VmError::OutOfMemory) => "VMError - out of memory",
            LanguloErr::Vm(VmError::EndOfCode) => "VMError - end of bytecode",
            LanguloErr::Vm(VmError::FloatPending) => "VMError - float operation pending",
            LanguloErr::Vm(VmError::NothingPending) => "VMError - no float operation pending",
        }
    }
}

} // verus!
