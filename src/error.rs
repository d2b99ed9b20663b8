//! The ways one parse can fail.

use vstd::prelude::*;
use crate::text::owned;

verus! {

/// The mathematical content of a parse failure.
pub enum Failure {
    UnknownOption(Seq<char>),
    MissingValue(Seq<char>),
    UnexpectedValue(Seq<char>, Seq<char>),
    InvalidPositional(Seq<char>),
    MissingRequiredPositional(Seq<char>),
    DuplicateNames,
}

/// A parse failure, carrying the text that it names.
#[derive(Debug, PartialEq, Eq)]
pub enum ArgError {
    /// A flag that no declared parameter spells; carries the long flag
    /// token, or the one character of a short flag.
    UnknownOption(String),
    /// A value-taking flag given without a value; carries the option name.
    MissingValue(String),
    /// A flag that takes no value given one; carries the option name and the value.
    UnexpectedValue(String, String),
    /// A bare token with no positional slot left for it; carries the token.
    InvalidPositional(String),
    /// A positional parameter that received no token; carries its name in upper case.
    MissingRequiredPositional(String),
    /// Two declared parameters share a name.
    DuplicateNames,
}

impl View for ArgError {
    type V = Failure;

    open spec fn view(&self) -> Failure {
        match self {
            ArgError::UnknownOption(t) => Failure::UnknownOption(t@),
            ArgError::MissingValue(n) => Failure::MissingValue(n@),
            ArgError::UnexpectedValue(n, v) => Failure::UnexpectedValue(n@, v@),
            ArgError::InvalidPositional(t) => Failure::InvalidPositional(t@),
            ArgError::MissingRequiredPositional(n) => Failure::MissingRequiredPositional(n@),
            ArgError::DuplicateNames => Failure::DuplicateNames,
        }
    }
}

/// The suggestion that closes every error message.
pub open spec fn try_help() -> Seq<char> {
    ". Try --help for usage instructions"@
}

/// The one-line message that describes a failure.
pub open spec fn message_of(f: Failure) -> Seq<char> {
    match f {
        Failure::UnknownOption(t) => t + " is not a valid option"@ + try_help(),
        Failure::MissingValue(n) => "Option "@ + n + " takes a value but none was supplied"@
            + try_help(),
        Failure::UnexpectedValue(n, v) => "Option "@ + n + " does not take a value but "@ + v
            + " was supplied"@ + try_help(),
        Failure::InvalidPositional(t) => "Invalid positional argument: "@ + t + try_help(),
        Failure::MissingRequiredPositional(n) => "Missing required argument: "@ + n + try_help(),
        Failure::DuplicateNames => "Two parameters are declared with the same name"@,
    }
}

impl ArgError {
    /// The one-line, human-readable message for this failure.
    pub fn message(&self) -> (r: String)
        ensures
            r@ == message_of(self@),
    {
        let r = match self {
            ArgError::UnknownOption(t) => {
                let s = owned(t.as_str());
                s.concat(" is not a valid option").concat(". Try --help for usage instructions")
            },
            ArgError::MissingValue(n) => {
                let s = owned("Option ");
                s.concat(n.as_str()).concat(" takes a value but none was supplied").concat(
                    ". Try --help for usage instructions",
                )
            },
            ArgError::UnexpectedValue(n, v) => {
                let s = owned("Option ");
                s.concat(n.as_str()).concat(" does not take a value but ").concat(
                    v.as_str(),
                ).concat(" was supplied").concat(". Try --help for usage instructions")
            },
            ArgError::InvalidPositional(t) => {
                let s = owned("Invalid positional argument: ");
                s.concat(t.as_str()).concat(". Try --help for usage instructions")
            },
            ArgError::MissingRequiredPositional(n) => {
                let s = owned("Missing required argument: ");
                s.concat(n.as_str()).concat(". Try --help for usage instructions")
            },
            ArgError::DuplicateNames => owned("Two parameters are declared with the same name"),
        };
        r
    }
}

} // verus!
