use vstd::prelude::*;
use vstd::string::*;

verus! {

/// What went wrong while reading a key, a value or a count.
#[derive(Debug, Clone, Copy, PartialEq, Eq, Structural)]
pub enum ParseErrorKind {
    InvalidValue,
    DuplicateArgument,
    NoValueGiven,
    NotRequiredArgument,
    NotArgumentKey,
    TooManyValueGiven,
    NotPositional,
}

/// An error of the schema-driven parser: its kind, a message, and the key
/// (or positional slot name) it is attached to, once known.
#[derive(Debug)]
pub struct ParseError {
    pub kind: ParseErrorKind,
    pub msg: String,
    pub key: Option<String>,
}

/// The name of an error kind.
pub open spec fn kind_name(k: ParseErrorKind) -> Seq<char> {
    match k {
        ParseErrorKind::InvalidValue => "InvalidValue"@,
        ParseErrorKind::DuplicateArgument => "DuplicateArgument"@,
        ParseErrorKind::NoValueGiven => "NoValueGiven"@,
        ParseErrorKind::NotRequiredArgument => "NotRequiredArgument"@,
        ParseErrorKind::NotArgumentKey => "NotArgumentKey"@,
        ParseErrorKind::TooManyValueGiven => "TooManyValueGiven"@,
        ParseErrorKind::NotPositional => "NotPositional"@,
    }
}

impl ParseErrorKind {
    /// The name of this kind.
    pub fn name(&self) -> (r: &'static str)
        ensures
            r@ == kind_name(*self),
    {
        match self {
            ParseErrorKind::InvalidValue => "InvalidValue",
            ParseErrorKind::DuplicateArgument => "DuplicateArgument",
            ParseErrorKind::NoValueGiven => "NoValueGiven",
            ParseErrorKind::NotRequiredArgument => "NotRequiredArgument",
            ParseErrorKind::NotArgumentKey => "NotArgumentKey",
            ParseErrorKind::TooManyValueGiven => "TooManyValueGiven",
            ParseErrorKind::NotPositional => "NotPositional",
        }
    }
}

impl ParseError {
    /// The error as one line: its kind, the key it is attached to if any,
    /// and its message.
    pub open spec fn to_text_spec(&self) -> Seq<char> {
        kind_name(self.kind) + ": "@ + match self.key {
            Some(k) => k@ + " - "@,
            None => Seq::empty(),
        } + self.msg@
    }

    /// The error as one line; see [`ParseError::to_text_spec`].
    pub fn to_text(&self) -> (r: String)
        ensures
            r@ == self.to_text_spec(),
    {
        let head = String::from_str(self.kind.name()).concat(": ");
        match &self.key {
            Some(k) => head.concat(k.as_str()).concat(" - ").concat(self.msg.as_str()),
            None => head.concat(self.msg.as_str()),
        }
    }

    fn from_msg(kind: ParseErrorKind, msg: &str) -> (r: Self)
        ensures
            r.kind == kind,
            r.msg@ == msg@,
            r.key.is_none(),
    {
        ParseError { kind, msg: String::from_str(msg), key: None }
    }

    pub fn invalid_value(msg: &str) -> (r: Self)
        ensures
            r.kind == ParseErrorKind::InvalidValue,
            r.msg@ == msg@,
            r.key.is_none(),
    {
        Self::from_msg(ParseErrorKind::InvalidValue, msg)
    }

    pub fn duplicate_argument(msg: &str) -> (r: Self)
        ensures
            r.kind == ParseErrorKind::DuplicateArgument,
            r.msg@ == msg@,
            r.key.is_none(),
    {
        Self::from_msg(ParseErrorKind::DuplicateArgument, msg)
    }

    pub fn no_value_given(msg: &str) -> (r: Self)
        ensures
            r.kind == ParseErrorKind::NoValueGiven,
            r.msg@ == msg@,
            r.key.is_none(),
    {
        Self::from_msg(ParseErrorKind::NoValueGiven, msg)
    }

    pub fn not_required_argument(msg: &str) -> (r: Self)
        ensures
            r.kind == ParseErrorKind::NotRequiredArgument,
            r.msg@ == msg@,
            r.key.is_none(),
    {
        Self::from_msg(ParseErrorKind::NotRequiredArgument, msg)
    }

    pub fn not_argument_key(msg: &str) -> (r: Self)
        ensures
            r.kind == ParseErrorKind::NotArgumentKey,
            r.msg@ == msg@,
            r.key.is_none(),
    {
        Self::from_msg(ParseErrorKind::NotArgumentKey, msg)
    }

    pub fn too_many_value_given(msg: &str) -> (r: Self)
        ensures
            r.kind == ParseErrorKind::TooManyValueGiven,
            r.msg@ == msg@,
            r.key.is_none(),
    {
        Self::from_msg(ParseErrorKind::TooManyValueGiven, msg)
    }

    pub fn not_positional(msg: &str) -> (r: Self)
        ensures
            r.kind == ParseErrorKind::NotPositional,
            r.msg@ == msg@,
            r.key.is_none(),
    {
        Self::from_msg(ParseErrorKind::NotPositional, msg)
    }

    /// Tags the error with the key (or slot name) it arose at.
    pub fn key(self, k: String) -> (r: Self)
        ensures
            r.kind == self.kind,
            r.msg@ == self.msg@,
            r.key == Some(k),
    {
        ParseError { kind: self.kind, msg: self.msg, key: Some(k) }
    }
}

} // verus!
