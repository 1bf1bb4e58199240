//! The error type shared by interpolation, value coercion and resolution.

use vstd::prelude::*;

verus! {

/// Spec-level image of an [`Error`]: the same variants over `Seq<char>`,
/// so that contracts and laws can speak of error contents abstractly.
pub enum ErrorModel {
    /// The reference grammar was violated; carries the offending input.
    InvalidSyntax(Seq<char>),
    /// An operation that forbids interpolation met a genuine reference;
    /// carries the input that would need a variable source.
    ResolutionRequired(Seq<char>),
    /// A reference without a default named a variable the source lacks;
    /// carries the variable name.
    UndefinedVariable(Seq<char>),
    /// Text failed to coerce into the target payload type; carries the
    /// name of the wanted type and the offending text.
    InvalidValue(Seq<char>, Seq<char>),
}

/// An error from interpolating, unescaping, validating or coercing a value.
#[derive(Debug, Clone, PartialEq, Eq)]
pub enum Error {
    /// The reference grammar was violated; carries the offending input.
    InvalidSyntax(String),
    /// An operation that forbids interpolation met a genuine reference;
    /// carries the input that would need a variable source.
    ResolutionRequired(String),
    /// A reference without a default named a variable the source lacks;
    /// carries the variable name.
    UndefinedVariable(String),
    /// Text failed to coerce into the target payload type; carries the
    /// name of the wanted type and the offending text.
    InvalidValue(String, String),
}

impl View for Error {
    type V = ErrorModel;

    open spec fn view(&self) -> ErrorModel {
        match self {
            Error::InvalidSyntax(t) => ErrorModel::InvalidSyntax(t@),
            Error::ResolutionRequired(t) => ErrorModel::ResolutionRequired(t@),
            Error::UndefinedVariable(n) => ErrorModel::UndefinedVariable(n@),
            Error::InvalidValue(w, t) => ErrorModel::InvalidValue(w@, t@),
        }
    }
}

impl Error {
    /// A short machine-readable label for the error kind, so that callers
    /// outside the library can report which kind occurred.
    pub fn kind(&self) -> (r: &'static str)
        ensures
            self is InvalidSyntax ==> r@ == "invalid syntax"@,
            self is ResolutionRequired ==> r@ == "resolution required"@,
            self is UndefinedVariable ==> r@ == "undefined variable"@,
            self is InvalidValue ==> r@ == "invalid value"@,
    {
        match self {
            Error::InvalidSyntax(_) => "invalid syntax",
            Error::ResolutionRequired(_) => "resolution required",
            Error::UndefinedVariable(_) => "undefined variable",
            Error::InvalidValue(_, _) => "invalid value",
        }
    }
}

} // verus!
