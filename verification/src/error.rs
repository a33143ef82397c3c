//! Errors: those of the derives themselves, and those that generated parsers
//! report.

use vstd::prelude::*;
use crate::text::{debug_text_of, debug_text};

verus! {

/// Why a derive refuses a type.
#[derive(Debug, Clone, Copy, PartialEq, Eq)]
pub enum DeriveError {
    /// The type is a tuple struct.
    UnnamedFields,
    /// The type is a unit struct.
    UnitFields,
    /// The type is a union.
    Union,
}

impl DeriveError {
    /// The message that the compiler shows for the error.
    pub fn message(&self) -> (r: &'static str)
        ensures
            r@ == match *self {
                DeriveError::UnnamedFields => "unnamed fields are not supported"@,
                DeriveError::UnitFields => "unit fields are not supported"@,
                DeriveError::Union => "unions are not supported"@,
            },
    {
        match self {
            DeriveError::UnnamedFields => "unnamed fields are not supported",
            DeriveError::UnitFields => "unit fields are not supported",
            DeriveError::Union => "unions are not supported",
        }
    }
}

/// An error that parsing a CMake command reports.
#[derive(Debug, PartialEq)]
pub enum CommandParseError {
    MissingToken(String),
    UnknownCommand(String),
    UnknownOption(String),
    UnexpectedToken { expected: String, found: String },
    TokenRequired,
    NotFlag,
    Incomplete,
}

/// The text that an error displays.
pub open spec fn message_of(e: CommandParseError) -> Seq<char> {
    match e {
        CommandParseError::MissingToken(s) => "required token is missing: "@ + s@,
        CommandParseError::UnknownCommand(s) => "unknown command: "@ + s@,
        CommandParseError::UnknownOption(s) => "unknown option: "@ + s@,
        CommandParseError::UnexpectedToken { expected, found } =>
            "expected: "@ + debug_text_of(expected@) + ", found: "@ + debug_text_of(found@),
        CommandParseError::TokenRequired => "token required"@,
        CommandParseError::NotFlag => "flag option must have no arguments"@,
        CommandParseError::Incomplete => "all arguments must be parsed"@,
    }
}

impl CommandParseError {
    /// The text that the error displays.
    pub fn message(&self) -> (r: String)
        ensures
            r@ == message_of(*self),
    {
        match self {
            CommandParseError::MissingToken(s) =>
                String::from_str("required token is missing: ").concat(s.as_str()),
            CommandParseError::UnknownCommand(s) =>
                String::from_str("unknown command: ").concat(s.as_str()),
            CommandParseError::UnknownOption(s) =>
                String::from_str("unknown option: ").concat(s.as_str()),
            CommandParseError::UnexpectedToken { expected, found } => {
                let e = debug_text(expected.as_str());
                let f = debug_text(found.as_str());
                String::from_str("expected: ").concat(e.as_str()).concat(", found: ").concat(
                    f.as_str(),
                )
            },
            CommandParseError::TokenRequired => String::from_str("token required"),
            CommandParseError::NotFlag => String::from_str("flag option must have no arguments"),
            CommandParseError::Incomplete => String::from_str("all arguments must be parsed"),
        }
    }
}

} // verus!
