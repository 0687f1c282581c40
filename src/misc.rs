use vstd::prelude::*;
use vstd::string::*;

verus! {

/// The kinds of error that an evaluation can end with, each with its message.
#[derive(Debug, Clone, PartialEq)]
pub enum NekoError {
    SyntaxError(String),
    ReferenceError(String),
    TypeError(String),
    UnknownError(String),
}

pub open spec fn kind_text(e: NekoError) -> Seq<char> {
    match e {
        NekoError::SyntaxError(_) => "Syntax Error"@,
        NekoError::ReferenceError(_) => "Reference Error"@,
        NekoError::TypeError(_) => "Type Error"@,
        NekoError::UnknownError(_) => "Unknown Error"@,
    }
}

pub open spec fn message_of(e: NekoError) -> Seq<char> {
    match e {
        NekoError::SyntaxError(m) => m@,
        NekoError::ReferenceError(m) => m@,
        NekoError::TypeError(m) => m@,
        NekoError::UnknownError(m) => m@,
    }
}

impl NekoError {
    /// The message, whatever the kind.
    pub fn message(&self) -> (r: &String)
        ensures
            match self {
                NekoError::SyntaxError(m) => r == m,
                NekoError::ReferenceError(m) => r == m,
                NekoError::TypeError(m) => r == m,
                NekoError::UnknownError(m) => r == m,
            },
    {
        match self {
            NekoError::SyntaxError(m) => m,
            NekoError::ReferenceError(m) => m,
            NekoError::TypeError(m) => m,
            NekoError::UnknownError(m) => m,
        }
    }

    /// The name of the kind, as shown in brackets before the message.
    pub fn kind_name(&self) -> (r: String)
        ensures
            r@ == kind_text(*self),
    {
        match self {
            NekoError::SyntaxError(_) => String::from_str("Syntax Error"),
            NekoError::ReferenceError(_) => String::from_str("Reference Error"),
            NekoError::TypeError(_) => String::from_str("Type Error"),
            NekoError::UnknownError(_) => String::from_str("Unknown Error"),
        }
    }

    /// The error as text without colour: `[Kind]: message`.
    pub fn to_text(&self) -> (r: String)
        ensures
            r@ == "["@ + kind_text(*self) + "]: "@ + message_of(*self),
    {
        let mut text = String::from_str("[");
        text.append(self.kind_name().as_str());
        text.append("]: ");
        text.append(self.message().as_str());
        text
    }
}

impl From<String> for NekoError {
    fn from(message: String) -> (r: Self) {
        NekoError::UnknownError(message)
    }
}

impl vstd::std_specs::convert::FromSpecImpl<String> for NekoError {
    open spec fn obeys_from_spec() -> bool {
        true
    }

    open spec fn from_spec(message: String) -> Self {
        NekoError::UnknownError(message)
    }
}

/// The kind of an error, without its message.
pub enum ErrorKind {
    Syntax,
    Reference,
    Type,
    Unknown,
}

pub open spec fn kind_of(e: NekoError) -> ErrorKind {
    match e {
        NekoError::SyntaxError(_) => ErrorKind::Syntax,
        NekoError::ReferenceError(_) => ErrorKind::Reference,
        NekoError::TypeError(_) => ErrorKind::Type,
        NekoError::UnknownError(_) => ErrorKind::Unknown,
    }
}

} // verus!
