//! The faults that the service can meet.

use vstd::prelude::*;
use vstd::string::StringExecFns;

verus! {

/// A fault, with the text of what caused it.
#[derive(Clone, Debug, PartialEq, Eq)]
pub enum Error {
    /// Any fault that has no kind of its own.
    Generic(String),
    /// The store failed: it could not be reached, refused a statement, or
    /// abandoned a transaction.
    Sqlx(String),
    /// The variable `input` of the environment is missing or cannot be read.
    Var { input: String, source: String },
    /// The address to listen on could not be parsed.
    AddParse(String),
}

/// What an `Error` holds, as mathematical values.
pub ghost enum ErrorView {
    Generic(Seq<char>),
    Sqlx(Seq<char>),
    Var { input: Seq<char>, source: Seq<char> },
    AddParse(Seq<char>),
}

impl View for Error {
    type V = ErrorView;

    open spec fn view(&self) -> ErrorView {
        match self {
            Error::Generic(text) => ErrorView::Generic(text@),
            Error::Sqlx(text) => ErrorView::Sqlx(text@),
            Error::Var { input, source } => ErrorView::Var { input: input@, source: source@ },
            Error::AddParse(text) => ErrorView::AddParse(text@),
        }
    }
}

/// The message of a fault.
pub open spec fn message_of(error: ErrorView) -> Seq<char> {
    match error {
        ErrorView::Generic(text) => "Generic "@ + text,
        ErrorView::Sqlx(text) => "sqlx error occurred: "@ + text,
        ErrorView::Var { input, source } => "Can not parse variable: "@ + input,
        ErrorView::AddParse(text) => text,
    }
}

impl Error {
    /// The message of this fault, for a log.
    pub fn message(&self) -> (text: String)
        ensures
            text@ == message_of(self@),
    {
        match self {
            Error::Generic(text) => String::from_str("Generic ").concat(text.as_str()),
            Error::Sqlx(text) => String::from_str("sqlx error occurred: ").concat(text.as_str()),
            Error::Var { input, source } => String::from_str("Can not parse variable: ").concat(
                input.as_str(),
            ),
            Error::AddParse(text) => text.clone(),
        }
    }

    /// A copy of this fault.
    pub fn duplicate(&self) -> (copy: Error)
        ensures
            copy@ == self@,
    {
        match self {
            Error::Generic(text) => Error::Generic(text.clone()),
            Error::Sqlx(text) => Error::Sqlx(text.clone()),
            Error::Var { input, source } => Error::Var {
                input: input.clone(),
                source: source.clone(),
            },
            Error::AddParse(text) => Error::AddParse(text.clone()),
        }
    }
}

} // verus!
