//! Diagnostics. Every error of the pipeline is a fatal diagnostic carrying the
//! offending word's source location, and, where helpful, a secondary
//! "defined here" location.

use vstd::prelude::*;

use crate::checker::DataType;
use crate::lexer::{Word, WordV};

verus! {

/// The closed set of diagnostic categories.
#[derive(Debug)]
pub enum DiagKind {
    // lexical
    InvalidCharacterLiteral,
    UnterminatedString,
    // tokenizing
    UnknownWord,
    IncompleteControl,
    IncompleteImport,
    ImportPathNotString,
    IncompleteConst,
    IncompleteMemory,
    IncompleteFunction,
    BadFunctionSignature,
    BadTypeName,
    /// A name already taken in its namespace.
    DuplicateName,
    // compile-time evaluation
    UndefinedConstant,
    IllegalIntrinsicInConstExpr,
    IllegalTokenInConstExpr,
    ConstExprNotSingleValue,
    /// A memory layout that would outgrow the address space.
    MemoryTooLarge,
    // linking
    /// A definition block that compile-time evaluation should have removed.
    UnevaluatedDefinition,
    DanglingEnd,
    DanglingElse,
    DanglingDo,
    UndefinedReference,
    InvalidEndTarget,
    // type checking
    MissingEnd,
    ArityUnderflow,
    /// An argument had the wrong type; carries the argument's position,
    /// what was expected and where it was declared, and what arrived and
    /// where it was placed.
    TypeMismatch { arg: usize, expected: DataType, expected_at: Word, actual: DataType, actual_at: Word },
    UnhandledStackData,
    MissingStackData,
    LoopMutatesStack,
}

/// The mathematical value of a [`DiagKind`].
pub ghost enum DiagKindV {
    InvalidCharacterLiteral,
    UnterminatedString,
    UnknownWord,
    IncompleteControl,
    IncompleteImport,
    ImportPathNotString,
    IncompleteConst,
    IncompleteMemory,
    IncompleteFunction,
    BadFunctionSignature,
    BadTypeName,
    DuplicateName,
    UndefinedConstant,
    IllegalIntrinsicInConstExpr,
    IllegalTokenInConstExpr,
    ConstExprNotSingleValue,
    MemoryTooLarge,
    UnevaluatedDefinition,
    DanglingEnd,
    DanglingElse,
    DanglingDo,
    UndefinedReference,
    InvalidEndTarget,
    MissingEnd,
    ArityUnderflow,
    TypeMismatch { arg: int, expected: DataType, expected_at: WordV, actual: DataType, actual_at: WordV },
    UnhandledStackData,
    MissingStackData,
    LoopMutatesStack,
}

impl DeepView for DiagKind {
    type V = DiagKindV;

    open spec fn deep_view(&self) -> DiagKindV {
        match self {
            DiagKind::InvalidCharacterLiteral => DiagKindV::InvalidCharacterLiteral,
            DiagKind::UnterminatedString => DiagKindV::UnterminatedString,
            DiagKind::UnknownWord => DiagKindV::UnknownWord,
            DiagKind::IncompleteControl => DiagKindV::IncompleteControl,
            DiagKind::IncompleteImport => DiagKindV::IncompleteImport,
            DiagKind::ImportPathNotString => DiagKindV::ImportPathNotString,
            DiagKind::IncompleteConst => DiagKindV::IncompleteConst,
            DiagKind::IncompleteMemory => DiagKindV::IncompleteMemory,
            DiagKind::IncompleteFunction => DiagKindV::IncompleteFunction,
            DiagKind::BadFunctionSignature => DiagKindV::BadFunctionSignature,
            DiagKind::BadTypeName => DiagKindV::BadTypeName,
            DiagKind::DuplicateName => DiagKindV::DuplicateName,
            DiagKind::UndefinedConstant => DiagKindV::UndefinedConstant,
            DiagKind::IllegalIntrinsicInConstExpr => DiagKindV::IllegalIntrinsicInConstExpr,
            DiagKind::IllegalTokenInConstExpr => DiagKindV::IllegalTokenInConstExpr,
            DiagKind::ConstExprNotSingleValue => DiagKindV::ConstExprNotSingleValue,
            DiagKind::MemoryTooLarge => DiagKindV::MemoryTooLarge,
            DiagKind::UnevaluatedDefinition => DiagKindV::UnevaluatedDefinition,
            DiagKind::DanglingEnd => DiagKindV::DanglingEnd,
            DiagKind::DanglingElse => DiagKindV::DanglingElse,
            DiagKind::DanglingDo => DiagKindV::DanglingDo,
            DiagKind::UndefinedReference => DiagKindV::UndefinedReference,
            DiagKind::InvalidEndTarget => DiagKindV::InvalidEndTarget,
            DiagKind::MissingEnd => DiagKindV::MissingEnd,
            DiagKind::ArityUnderflow => DiagKindV::ArityUnderflow,
            DiagKind::TypeMismatch { arg, expected, expected_at, actual, actual_at } => DiagKindV::TypeMismatch {
                arg: *arg as int,
                expected: *expected,
                expected_at: expected_at.deep_view(),
                actual: *actual,
                actual_at: actual_at.deep_view(),
            },
            DiagKind::UnhandledStackData => DiagKindV::UnhandledStackData,
            DiagKind::MissingStackData => DiagKindV::MissingStackData,
            DiagKind::LoopMutatesStack => DiagKindV::LoopMutatesStack,
        }
    }
}

/// A fatal diagnostic: the word it points at and its category.
#[derive(Debug)]
pub struct Diag {
    pub word: Word,
    pub kind: DiagKind,
}

/// The mathematical value of a [`Diag`].
pub ghost struct DiagV {
    pub word: WordV,
    pub kind: DiagKindV,
}

impl DeepView for Diag {
    type V = DiagV;

    open spec fn deep_view(&self) -> DiagV {
        DiagV { word: self.word.deep_view(), kind: self.kind.deep_view() }
    }
}

} // verus!
