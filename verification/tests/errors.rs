use langulo::errors::err::{EmitError, LanguloErr, LoadError, SemanticError, VmError};

#[test]
fn messages_name_their_stage() {
    assert_eq!(LanguloErr::vm(VmError::DivisionByZero).message(), "VMError - division by zero");
    assert_eq!(LanguloErr::vm(VmError::StackUnderflow).message(), "VMError - stack underflow");
    assert_eq!(
        LanguloErr::vm(VmError::UnwrapNone).message(),
        "VMError - unwrap option from non-option value"
    );
    assert_eq!(LanguloErr::lexical(2, 5).message(), "LexicalError - invalid token");
    assert_eq!(
        LanguloErr::semantic(SemanticError::DuplicateDefaultKey).message(),
        "SemanticError - default key already defined"
    );
    assert_eq!(
        LanguloErr::semantic(SemanticError::MissingTerminator).message(),
        "SemanticError - expected end of expression"
    );
    assert_eq!(LanguloErr::typecheck().message(), "TypeError - incompatible types");
    assert_eq!(LanguloErr::Load(LoadError::BadSection).message(), "LoadError - bad section marker");
    assert_eq!(
        LanguloErr::Emit(EmitError::UnknownIdentifier).message(),
        "EmitError - identifier not in scope"
    );
}

#[test]
fn only_lexical_errors_have_a_span() {
    assert_eq!(LanguloErr::lexical(2, 5).span(), Some((2, 5)));
    assert_eq!(LanguloErr::lexical(2, 5), LanguloErr::Lexical { start: 2, end: 5 });
    assert_eq!(LanguloErr::vm(VmError::TagMismatch).span(), None);
    assert_eq!(LanguloErr::typecheck().span(), None);
    assert_eq!(LanguloErr::semantic(SemanticError::Malformed).span(), None);
}

#[test]
fn every_error_has_its_own_message() {
    let all = [
        LanguloErr::Lexical { start: 0, end: 0 },
        LanguloErr::Semantic(SemanticError::Malformed),
        LanguloErr::Semantic(SemanticError::MissingTerminator),
        LanguloErr::Semantic(SemanticError::DuplicateDefaultKey),
        LanguloErr::Semantic(SemanticError::DuplicateVariable),
        LanguloErr::Typecheck,
        LanguloErr::Emit(EmitError::UnknownIdentifier),
        LanguloErr::Emit(EmitError::Unimplemented),
        LanguloErr::Emit(EmitError::TooLarge),
        LanguloErr::Load(LoadError::BadSection),
        LanguloErr::Load(LoadError::Truncated),
        LanguloErr::Load(LoadError::InvalidUtf8),
        LanguloErr::Load(LoadError::Oversized),
        LanguloErr::Vm(VmError::StackUnderflow),
        LanguloErr::Vm(VmError::DivisionByZero),
        LanguloErr::Vm(VmError::UnwrapNone),
        LanguloErr::Vm(VmError::TagMismatch),
        LanguloErr::Vm(VmError::PoolEntryTaken),
        LanguloErr::Vm(VmError::InvalidOpcode),
        LanguloErr::Vm(VmError::BadOperand),
        LanguloErr::Vm(VmError::BadAddress),
        LanguloErr::Vm(VmError::BadPoolIndex),
        LanguloErr::Vm(VmError::BadLocal),
        LanguloErr::Vm(VmError::OutOfMemory),
        LanguloErr::Vm(VmError::EndOfCode),
        LanguloErr::Vm(VmError::FloatPending),
        LanguloErr::Vm(VmError::NothingPending),
    ];
    for (i, a) in all.iter().enumerate() {
        for (j, b) in all.iter().enumerate() {
            assert_eq!(a.message() == b.message(), i == j);
        }
    }
}
