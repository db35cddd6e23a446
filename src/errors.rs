use vstd::prelude::*;

verus! {

/// Errors raised while reading the server's start-up arguments.
#[derive(Debug)]
pub enum ErrorType {
    InvalidPort(String),
    InvalidIp(String),
    ParseError(String),
    NotImplemented(String),
}

impl ErrorType {
    /// The text carried by the error, whatever its kind.
    pub open spec fn text(&self) -> String {
        match self {
            ErrorType::InvalidPort(s) => *s,
            ErrorType::InvalidIp(s) => *s,
            ErrorType::ParseError(s) => *s,
            ErrorType::NotImplemented(s) => *s,
        }
    }

    pub fn message(&self) -> (r: &String)
        ensures
            *r == self.text(),
    {
        match self {
            ErrorType::InvalidPort(s) => s,
            ErrorType::InvalidIp(s) => s,
            ErrorType::ParseError(s) => s,
            ErrorType::NotImplemented(s) => s,
        }
    }
}

/// Errors raised while reading from or writing to the data store.
#[derive(Debug)]
pub enum DatabaseError {
    /// The store could not be opened or reached.
    ConnectionError(String),
    /// A statement could not be prepared or run, or its result did not have
    /// the layout that the schema registry expects.
    QueryError(String),
    /// A write was refused: a required field was missing or mistyped, or the
    /// insert failed.
    SubmissionError(String),
    /// The descriptor is known to the router but has no data mapping.
    NotImplemented(String),
}

impl DatabaseError {
    /// The text carried by the error, whatever its kind.
    pub open spec fn text(&self) -> String {
        match self {
            DatabaseError::ConnectionError(s) => *s,
            DatabaseError::QueryError(s) => *s,
            DatabaseError::SubmissionError(s) => *s,
            DatabaseError::NotImplemented(s) => *s,
        }
    }

    pub fn message(&self) -> (r: &String)
        ensures
            *r == self.text(),
    {
        match self {
            DatabaseError::ConnectionError(s) => s,
            DatabaseError::QueryError(s) => s,
            DatabaseError::SubmissionError(s) => s,
            DatabaseError::NotImplemented(s) => s,
        }
    }
}

} // verus!
