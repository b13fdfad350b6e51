//! Errors reported by semantic analysis.

use vstd::prelude::*;
use crate::ast::TypeSpecifier;

verus! {

/// The first semantic violation found in a program.
#[derive(Debug, PartialEq)]
pub enum SemanticError {
    UndefinedSymbol { name: String },
    DuplicateDeclaration { name: String },
    /// Reserved; return-type mismatches currently surface as
    /// `TypeMismatch`.
    InvalidReturnType { expected: String, found: String },
    InvalidContinue,
    InvalidBreak,
    TypeMismatch { expected: TypeSpecifier, found: TypeSpecifier },
    NotAFunction { name: String },
    ArgumentCountMismatch { expected: usize, found: usize },
    ExpectedPointer { found: TypeSpecifier },
}

/// Mathematical image of a [`SemanticError`].
pub enum SemanticErrorModel {
    UndefinedSymbol(Seq<char>),
    DuplicateDeclaration(Seq<char>),
    InvalidReturnType(Seq<char>, Seq<char>),
    InvalidContinue,
    InvalidBreak,
    TypeMismatch(TypeSpecifier, TypeSpecifier),
    NotAFunction(Seq<char>),
    ArgumentCountMismatch(int, int),
    ExpectedPointer(TypeSpecifier),
}

impl View for SemanticError {
    type V = SemanticErrorModel;

    open spec fn view(&self) -> SemanticErrorModel {
        match self {
            SemanticError::UndefinedSymbol { name } => SemanticErrorModel::UndefinedSymbol(name@),
            SemanticError::DuplicateDeclaration { name } => SemanticErrorModel::DuplicateDeclaration(
                name@,
            ),
            SemanticError::InvalidReturnType { expected, found } =>
                SemanticErrorModel::InvalidReturnType(expected@, found@),
            SemanticError::InvalidContinue => SemanticErrorModel::InvalidContinue,
            SemanticError::InvalidBreak => SemanticErrorModel::InvalidBreak,
            SemanticError::TypeMismatch { expected, found } => SemanticErrorModel::TypeMismatch(
                *expected,
                *found,
            ),
            SemanticError::NotAFunction { name } => SemanticErrorModel::NotAFunction(name@),
            SemanticError::ArgumentCountMismatch { expected, found } =>
                SemanticErrorModel::ArgumentCountMismatch(*expected as int, *found as int),
            SemanticError::ExpectedPointer { found } => SemanticErrorModel::ExpectedPointer(*found),
        }
    }
}

/// How an identifier lookup can fail during resolution.
#[derive(Debug)]
pub enum ResolveError {
    UndefinedSymbol { name: String },
    NotAFunction { name: String },
}

} // verus!
