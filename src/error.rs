use vstd::prelude::*;
use vstd::string::*;

use crate::parse_error::ParseErrorKind;

verus! {

/// What went wrong while parsing, as reported by [`crate::argument_parser`].
#[derive(Debug, Clone, Copy, PartialEq, Eq, Structural)]
pub enum ParseError {
    ValueRequired,
    TooManyOrTooLittleValue,
    NotPositional,
    EndOfArgumentFound,
    InvalidValue,
    InvalidKey,
    DuplicateArgument,
    NotEnd,
}

/// The error reported for a failed check of the given kind.
pub open spec fn error_of(k: ParseErrorKind) -> ParseError {
    match k {
        ParseErrorKind::InvalidValue => ParseError::InvalidValue,
        ParseErrorKind::DuplicateArgument => ParseError::DuplicateArgument,
        ParseErrorKind::NoValueGiven => ParseError::ValueRequired,
        ParseErrorKind::NotRequiredArgument => ParseError::NotEnd,
        ParseErrorKind::NotArgumentKey => ParseError::InvalidKey,
        ParseErrorKind::TooManyValueGiven => ParseError::TooManyOrTooLittleValue,
        ParseErrorKind::NotPositional => ParseError::NotPositional,
    }
}

pub fn error_from_kind(k: ParseErrorKind) -> (r: ParseError)
    ensures
        r == error_of(k),
{
    match k {
        ParseErrorKind::InvalidValue => ParseError::InvalidValue,
        ParseErrorKind::DuplicateArgument => ParseError::DuplicateArgument,
        ParseErrorKind::NoValueGiven => ParseError::ValueRequired,
        ParseErrorKind::NotRequiredArgument => ParseError::NotEnd,
        ParseErrorKind::NotArgumentKey => ParseError::InvalidKey,
        ParseErrorKind::TooManyValueGiven => ParseError::TooManyOrTooLittleValue,
        ParseErrorKind::NotPositional => ParseError::NotPositional,
    }
}

/// The name of an error.
pub open spec fn error_name(e: ParseError) -> Seq<char> {
    match e {
        ParseError::ValueRequired => "ValueRequired"@,
        ParseError::TooManyOrTooLittleValue => "TooManyOrTooLittleValue"@,
        ParseError::NotPositional => "NotPositional"@,
        ParseError::EndOfArgumentFound => "EndOfArgumentFound"@,
        ParseError::InvalidValue => "InvalidValue"@,
        ParseError::InvalidKey => "InvalidKey"@,
        ParseError::DuplicateArgument => "DuplicateArgument"@,
        ParseError::NotEnd => "NotEnd"@,
    }
}

impl ParseError {
    /// The name of this error.
    pub fn name(&self) -> (r: &'static str)
        ensures
            r@ == error_name(*self),
    {
        match self {
            ParseError::ValueRequired => "ValueRequired",
            ParseError::TooManyOrTooLittleValue => "TooManyOrTooLittleValue",
            ParseError::NotPositional => "NotPositional",
            ParseError::EndOfArgumentFound => "EndOfArgumentFound",
            ParseError::InvalidValue => "InvalidValue",
            ParseError::InvalidKey => "InvalidKey",
            ParseError::DuplicateArgument => "DuplicateArgument",
            ParseError::NotEnd => "NotEnd",
        }
    }
}

/// An error together with where it arose: a key, or the index of a tier.
#[derive(Debug)]
pub struct ArgParseError {
    pub pos: String,
    pub err: ParseError,
}

impl ArgParseError {
    pub fn new(pos: String, err: ParseError) -> (r: Self)
        ensures
            r.pos@ == pos@,
            r.err == err,
    {
        ArgParseError { pos, err }
    }

    /// The error as one line: where it arose, then its name.
    pub fn to_text(&self) -> (r: String)
        ensures
            r@ == self.pos@ + ": "@ + error_name(self.err),
    {
        self.pos.clone().concat(": ").concat(self.err.name())
    }

    /// Tags `err` with the position `pos`.
    pub fn or_else(pos: String, err: ParseError) -> (r: Self)
        ensures
            r.pos@ == pos@,
            r.err == err,
    {
        Self::new(pos, err)
    }
}

} // verus!
