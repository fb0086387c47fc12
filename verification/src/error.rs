use vstd::prelude::*;

verus! {

/// The two kinds of error of the interpreter, each with its message.
pub enum ErrorKind {
    ParseError { err: String },
    CompileError { err: String },
}

/// An error of the interpreter.
pub struct Error {
    inner: ErrorKind,
}

impl Error {
    /// The message that the error displays.
    pub closed spec fn message(&self) -> Seq<char> {
        match self.inner {
            ErrorKind::ParseError { err } => err@,
            ErrorKind::CompileError { err } => err@,
        }
    }

    /// Whether the error arose in reading the input.
    pub closed spec fn from_reading(&self) -> bool {
        self.inner is ParseError
    }

    /// An error in reading the input.
    pub fn reading(err: String) -> (r: Error)
        ensures
            r.from_reading(),
            r.message() == err@,
    {
        Error { inner: ErrorKind::ParseError { err } }
    }

    /// An error in compiling an expression.
    pub fn compiling(err: String) -> (r: Error)
        ensures
            !r.from_reading(),
            r.message() == err@,
    {
        Error { inner: ErrorKind::CompileError { err } }
    }

    /// Whether this is an error in reading the input.
    pub fn is_parse_error(&self) -> (r: bool)
        ensures
            r == self.from_reading(),
    {
        match self.inner {
            ErrorKind::ParseError { .. } => true,
            ErrorKind::CompileError { .. } => false,
        }
    }

    /// How the error is displayed: its message alone.
    pub fn to_string(&self) -> (r: String)
        ensures
            r@ == self.message(),
    {
        match &self.inner {
            ErrorKind::ParseError { err } => err.clone(),
            ErrorKind::CompileError { err } => err.clone(),
        }
    }
}

} // verus!
