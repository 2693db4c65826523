//! The three classes of failure a run can end with.

use vstd::prelude::*;

verus! {

/// The class of a failure, by which a caller picks its exit status.
#[derive(Clone, Copy, Debug, PartialEq, Eq, Structural)]
pub enum ErrorClass {
    /// The invocation itself was wrong: a bad option, an unknown format id, a malformed template.
    Usage,
    /// The input or a record could not be processed.
    Data,
    /// A file or stream failed.
    Io,
}

/// A failure of a run, with the text shown to the operator.
#[derive(Debug)]
pub enum EachError {
    Usage { message: String },
    Data { message: String },
    Io { message: String },
}

impl EachError {
    /// The class this failure belongs to.
    pub open spec fn spec_class(&self) -> ErrorClass {
        match self {
            EachError::Usage { .. } => ErrorClass::Usage,
            EachError::Data { .. } => ErrorClass::Data,
            EachError::Io { .. } => ErrorClass::Io,
        }
    }

    /// The text carried by this failure.
    pub open spec fn spec_message(&self) -> Seq<char> {
        match self {
            EachError::Usage { message } => message@,
            EachError::Data { message } => message@,
            EachError::Io { message } => message@,
        }
    }

    #[verifier::when_used_as_spec(spec_class)]
    pub fn class(&self) -> (c: ErrorClass)
        ensures
            c == self.spec_class(),
    {
        match self {
            EachError::Usage { .. } => ErrorClass::Usage,
            EachError::Data { .. } => ErrorClass::Data,
            EachError::Io { .. } => ErrorClass::Io,
        }
    }

    pub fn message(&self) -> (m: &String)
        ensures
            m@ == self.spec_message(),
    {
        match self {
            EachError::Usage { message } => message,
            EachError::Data { message } => message,
            EachError::Io { message } => message,
        }
    }
}

} // verus!
