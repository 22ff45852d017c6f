//! The errors that the service reports.
use vstd::prelude::*;

verus! {

/// An error, by its origin, with the text that describes it.
#[derive(Debug)]
pub enum ProcessingError {
    Database { context: String },
    Timeout { context: String },
    Deserialization { context: String },
}

impl ProcessingError {
    /// The text that describes an error.
    pub open spec fn context(self) -> Seq<char> {
        match self {
            Self::Database { context } => context@,
            Self::Timeout { context } => context@,
            Self::Deserialization { context } => context@,
        }
    }

    /// An error of the database.
    pub fn database_msg(context: String) -> (r: ProcessingError)
        ensures
            r == (ProcessingError::Database { context }),
    {
        ProcessingError::Database { context }
    }

    /// An operation that took too long.
    pub fn timeout_msg(context: String) -> (r: ProcessingError)
        ensures
            r == (ProcessingError::Timeout { context }),
    {
        ProcessingError::Timeout { context }
    }

    /// A value that cannot be read.
    pub fn deserialization_msg(context: String) -> (r: ProcessingError)
        ensures
            r == (ProcessingError::Deserialization { context }),
    {
        ProcessingError::Deserialization { context }
    }

    /// The text that describes an error.
    pub fn message(&self) -> (r: String)
        ensures
            r@ == self.context(),
    {
        match self {
            Self::Database { context } => context.clone(),
            Self::Timeout { context } => context.clone(),
            Self::Deserialization { context } => context.clone(),
        }
    }
}

} // verus!
