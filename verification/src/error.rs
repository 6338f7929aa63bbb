//! The failure type shared by every phase.

use vstd::prelude::*;
use vstd::string::StringExecFns;

verus! {

/// A failure of one phase, carrying a human-readable message.
#[derive(Debug)]
pub enum CompilerError {
    SyntaxError(String),
    TypeError(String),
    RuntimeError(String),
}

/// The three phases' failure kinds, without the message.
#[derive(Debug, Clone, Copy, PartialEq, Eq, Structural)]
pub enum ErrorKind {
    Syntax,
    Type,
    Runtime,
}

/// The prefix that a rendered failure of the given kind starts with.
pub open spec fn kind_prefix(kind: ErrorKind) -> Seq<char> {
    match kind {
        ErrorKind::Syntax => "Syntax error: "@,
        ErrorKind::Type => "Type error: "@,
        ErrorKind::Runtime => "Runtime error: "@,
    }
}

impl CompilerError {
    /// The kind of this failure.
    pub open spec fn spec_kind(&self) -> ErrorKind {
        match self {
            CompilerError::SyntaxError(_) => ErrorKind::Syntax,
            CompilerError::TypeError(_) => ErrorKind::Type,
            CompilerError::RuntimeError(_) => ErrorKind::Runtime,
        }
    }

    /// The message this failure carries.
    pub open spec fn spec_message(&self) -> Seq<char> {
        match self {
            CompilerError::SyntaxError(m) => m@,
            CompilerError::TypeError(m) => m@,
            CompilerError::RuntimeError(m) => m@,
        }
    }

    /// The rendered text: the kind's prefix followed by the message.
    pub open spec fn spec_text(&self) -> Seq<char> {
        kind_prefix(self.spec_kind()) + self.spec_message()
    }

    #[verifier::when_used_as_spec(spec_kind)]
    pub fn kind(&self) -> (k: ErrorKind)
        ensures
            k == self.spec_kind(),
    {
        match self {
            CompilerError::SyntaxError(_) => ErrorKind::Syntax,
            CompilerError::TypeError(_) => ErrorKind::Type,
            CompilerError::RuntimeError(_) => ErrorKind::Runtime,
        }
    }

    /// The message alone.
    pub fn message(&self) -> (m: &String)
        ensures
            m@ == self.spec_message(),
    {
        match self {
            CompilerError::SyntaxError(m) => m,
            CompilerError::TypeError(m) => m,
            CompilerError::RuntimeError(m) => m,
        }
    }

    /// Renders the failure as `"<Kind> error: <message>"`.
    pub fn render(&self) -> (text: String)
        ensures
            text@ == self.spec_text(),
    {
        match self {
            CompilerError::SyntaxError(m) => String::from_str("Syntax error: ").concat(m.as_str()),
            CompilerError::TypeError(m) => String::from_str("Type error: ").concat(m.as_str()),
            CompilerError::RuntimeError(m) => String::from_str("Runtime error: ").concat(
                m.as_str(),
            ),
        }
    }
}

} // verus!
