//! Errors.
use vstd::prelude::*;
use crate::cst::{Kind, KindV, Kinded, KindedV};
use crate::ident::Ident;
use crate::token::{Token, TokenV};

verus! {

/// std's error for bytes that are not valid UTF-8, carried through as the source of
/// [`Error::InvalidUTF8`].
#[verifier::external_type_specification]
#[verifier::external_body]
pub struct ExUtf8Error(std::str::Utf8Error);

/// What a number literal failed on, as `u64` parsing reports it.
#[derive(Debug, Clone, Copy, PartialEq, Eq, Structural)]
pub enum NumberError {
    /// A character that is not a decimal digit.
    InvalidDigit,
    /// A value larger than `u64::MAX`.
    PosOverflow,
}

/// What the parser found where it expected something else.
#[derive(Debug, PartialEq, Eq)]
pub enum Found {
    /// The end of the input.
    EOF,
    /// An unexpected token.
    Token(Token),
}

/// The model of [`Found`].
pub enum FoundV {
    EOF,
    Token(TokenV),
}

impl Found {
    /// The model of this finding.
    pub open spec fn v(&self) -> FoundV {
        match self {
            Found::EOF => FoundV::EOF,
            Found::Token(t) => FoundV::Token(t.v()),
        }
    }
}

/// An error of any stage of the pipeline.
#[derive(Debug, PartialEq, Eq)]
pub enum Error {
    /// A byte that starts no token.
    InvalidByte(u8),
    /// A string literal without its closing quote.
    UnclosedString,
    /// A string literal that is not valid UTF-8.
    InvalidUTF8(std::str::Utf8Error),
    /// A number literal that is not a `u64`.
    InvalidNumber(NumberError),
    /// The parser expected the first thing but found the second.
    Parse(&'static str, Found),
    /// Empty kind parameters, like `struct Foo[] { x: Nat }`.
    EmptyKindedParams,
    /// Empty kind arguments, like `Foo[] { x: 3 }`.
    EmptyKindedArgs,
    /// An identifier that names nothing in scope.
    UndefinedIdentifier(Ident),
    /// An identifier defined twice.
    DuplicateIdentifier(Ident),
    /// A field given twice, in a struct definition or construction.
    DuplicateField(Ident, Ident),
    /// A field that the struct does not have.
    NoSuchField(Ident, Ident),
    /// A struct construction that leaves out the named field of the named struct.
    MissingField(Ident, Ident),
    /// A field get on something that is not a struct.
    NotStruct(Ident),
    /// Expected the first kind, found the second.
    MismatchedKinds(Kind, Kind),
    /// The named item takes the first number of arguments, and got the second.
    WrongNumArgs(Ident, usize, usize),
    /// Arguments applied to an identifier whose kind is not an arrow.
    InvalidKindedApp(Ident, Kind),
    /// Expected the first type, found the second.
    MismatchedTypes(Kinded, Kinded),
    /// A pattern that cannot match values of this type.
    InvalidPattern(Kinded),
    /// A match without arms.
    EmptyMatch,
    /// A block without a final expression.
    NoExprForBlock,
    /// The function performs an effect that its return type does not declare.
    InvalidEffectUse(Ident, Kinded),
    /// No function named `main`.
    NoMain,
    /// A `main` with kind parameters, parameters, `requires` or `ensures`.
    InvalidMain,
    /// The `requires` of the named function did not hold.
    RequiresFailed(Ident),
    /// The `ensures` of the named function did not hold.
    EnsuresFailed(Ident),
    /// No arm of a match matched the value.
    NonExhaustiveMatch,
    /// A construct that an earlier stage removes or rules out: a method call that was not
    /// desugared, or a value of the wrong shape at run time.
    Internal,
    /// Function calls nested deeper than the evaluator's limit.
    DepthExceeded,
}

/// The model of an [`Error`]; the UTF-8 error's details are left out.
pub enum ErrorV {
    InvalidByte(u8),
    UnclosedString,
    InvalidUTF8,
    InvalidNumber(NumberError),
    Parse(Seq<char>, FoundV),
    EmptyKindedParams,
    EmptyKindedArgs,
    UndefinedIdentifier(Seq<char>),
    DuplicateIdentifier(Seq<char>),
    DuplicateField(Seq<char>, Seq<char>),
    NoSuchField(Seq<char>, Seq<char>),
    MissingField(Seq<char>, Seq<char>),
    NotStruct(Seq<char>),
    MismatchedKinds(KindV, KindV),
    WrongNumArgs(Seq<char>, nat, nat),
    InvalidKindedApp(Seq<char>, KindV),
    MismatchedTypes(KindedV, KindedV),
    InvalidPattern(KindedV),
    EmptyMatch,
    NoExprForBlock,
    InvalidEffectUse(Seq<char>, KindedV),
    NoMain,
    InvalidMain,
    RequiresFailed(Seq<char>),
    EnsuresFailed(Seq<char>),
    NonExhaustiveMatch,
    Internal,
    DepthExceeded,
}

impl Error {
    /// The model of this error.
    pub open spec fn v(&self) -> ErrorV {
        match self {
            Error::InvalidByte(b) => ErrorV::InvalidByte(*b),
            Error::UnclosedString => ErrorV::UnclosedString,
            Error::InvalidUTF8(_) => ErrorV::InvalidUTF8,
            Error::InvalidNumber(e) => ErrorV::InvalidNumber(*e),
            Error::Parse(s, f) => ErrorV::Parse(s@, f.v()),
            Error::EmptyKindedParams => ErrorV::EmptyKindedParams,
            Error::EmptyKindedArgs => ErrorV::EmptyKindedArgs,
            Error::UndefinedIdentifier(x) => ErrorV::UndefinedIdentifier(x@),
            Error::DuplicateIdentifier(x) => ErrorV::DuplicateIdentifier(x@),
            Error::DuplicateField(s, f) => ErrorV::DuplicateField(s@, f@),
            Error::NoSuchField(s, f) => ErrorV::NoSuchField(s@, f@),
            Error::MissingField(s, f) => ErrorV::MissingField(s@, f@),
            Error::NotStruct(f) => ErrorV::NotStruct(f@),
            Error::MismatchedKinds(a, b) => ErrorV::MismatchedKinds(a.v(), b.v()),
            Error::WrongNumArgs(x, a, b) => ErrorV::WrongNumArgs(x@, *a as nat, *b as nat),
            Error::InvalidKindedApp(x, k) => ErrorV::InvalidKindedApp(x@, k.v()),
            Error::MismatchedTypes(a, b) => ErrorV::MismatchedTypes(a.v(), b.v()),
            Error::InvalidPattern(t) => ErrorV::InvalidPattern(t.v()),
            Error::EmptyMatch => ErrorV::EmptyMatch,
            Error::NoExprForBlock => ErrorV::NoExprForBlock,
            Error::InvalidEffectUse(f, e) => ErrorV::InvalidEffectUse(f@, e.v()),
            Error::NoMain => ErrorV::NoMain,
            Error::InvalidMain => ErrorV::InvalidMain,
            Error::RequiresFailed(f) => ErrorV::RequiresFailed(f@),
            Error::EnsuresFailed(f) => ErrorV::EnsuresFailed(f@),
            Error::NonExhaustiveMatch => ErrorV::NonExhaustiveMatch,
            Error::Internal => ErrorV::Internal,
            Error::DepthExceeded => ErrorV::DepthExceeded,
        }
    }
}

/// The model of a result: the model of the value on success, of the error otherwise.
pub open spec fn result_v<T, U>(r: Result<T, Error>, f: spec_fn(T) -> U) -> Result<U, ErrorV> {
    match r {
        Ok(x) => Ok(f(x)),
        Err(e) => Err(e.v()),
    }
}

} // verus!
