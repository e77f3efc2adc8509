//! Error values for the path, user and environment operations.
//!
//! All errors are plain recoverable values. None of them terminates the
//! process; callers decide what to do with a failure.

use vstd::prelude::*;
use vstd::string::*;

verus! {

/// An error indicating that something went wrong with a path operation.
#[derive(Debug, Clone)]
pub enum PathError {
    /// The path is empty.
    Empty,
    /// The path could not be converted to a display string.
    FailedToString(String),
    /// The path does not contain a filename.
    FileNameNotFound(String),
    /// The path failed to expand properly.
    HomeNotFound(String),
    /// The path requested a home expansion in an invalid position.
    InvalidExpansion(String),
    /// The path contains multiple home symbols, i.e. tildes.
    MultipleHomeSymbols(String),
    /// The path does not have a valid parent path.
    ParentNotFound(String),
}

impl PathError {
    /// Return an error indicating that the path is empty.
    pub fn empty() -> (r: PathError)
        ensures
            r is Empty,
    {
        PathError::Empty
    }

    /// Return an error indicating a failure to convert the path to a string.
    pub fn failed_to_string(path: &str) -> (r: PathError)
        ensures
            r matches PathError::FailedToString(p) && p@ == path@,
    {
        PathError::FailedToString(path.to_owned())
    }

    /// Return an error indicating that the path does not contain a filename.
    pub fn filename_not_found(path: &str) -> (r: PathError)
        ensures
            r matches PathError::FileNameNotFound(p) && p@ == path@,
    {
        PathError::FileNameNotFound(path.to_owned())
    }

    /// Return an error indicating that no home directory was found for the path.
    pub fn home_not_found(path: &str) -> (r: PathError)
        ensures
            r matches PathError::HomeNotFound(p) && p@ == path@,
    {
        PathError::HomeNotFound(path.to_owned())
    }

    /// Return an error indicating that the path failed to expand properly.
    pub fn invalid_expansion(path: &str) -> (r: PathError)
        ensures
            r matches PathError::InvalidExpansion(p) && p@ == path@,
    {
        PathError::InvalidExpansion(path.to_owned())
    }

    /// Return an error indicating that the path contains multiple home symbols.
    pub fn multiple_home_symbols(path: &str) -> (r: PathError)
        ensures
            r matches PathError::MultipleHomeSymbols(p) && p@ == path@,
    {
        PathError::MultipleHomeSymbols(path.to_owned())
    }

    /// Return an error indicating that the path does not have a valid parent path.
    pub fn parent_not_found(path: &str) -> (r: PathError)
        ensures
            r matches PathError::ParentNotFound(p) && p@ == path@,
    {
        PathError::ParentNotFound(path.to_owned())
    }

    /// A human readable description of the error.
    pub fn message(&self) -> (r: String)
        ensures
            self is Empty ==> r@ == "path empty"@,
            self matches PathError::FailedToString(p) ==> r@ == "failed to convert to string for path "@
                + p@,
            self matches PathError::FileNameNotFound(p) ==> r@ == "filename not found for path "@
                + p@,
            self matches PathError::HomeNotFound(p) ==> r@ == "home directory not found for path "@
                + p@,
            self matches PathError::InvalidExpansion(p) ==> r@ == "invalid path expansion for path "@
                + p@,
            self matches PathError::MultipleHomeSymbols(p) ==> r@ == "multiple home symbols for path "@
                + p@,
            self matches PathError::ParentNotFound(p) ==> r@ == "parent not found for path "@ + p@,
    {
        match self {
            PathError::Empty => String::from_str("path empty"),
            PathError::FailedToString(p) => {
                String::from_str("failed to convert to string for path ").concat(p.as_str())
            },
            PathError::FileNameNotFound(p) => {
                String::from_str("filename not found for path ").concat(p.as_str())
            },
            PathError::HomeNotFound(p) => {
                String::from_str("home directory not found for path ").concat(p.as_str())
            },
            PathError::InvalidExpansion(p) => {
                String::from_str("invalid path expansion for path ").concat(p.as_str())
            },
            PathError::MultipleHomeSymbols(p) => {
                String::from_str("multiple home symbols for path ").concat(p.as_str())
            },
            PathError::ParentNotFound(p) => {
                String::from_str("parent not found for path ").concat(p.as_str())
            },
        }
    }
}

/// The structural equality that `==` on [`PathError`] decides: the same
/// variant carrying the same path text.
pub open spec fn path_error_eq(a: &PathError, b: &PathError) -> bool {
    match (a, b) {
        (PathError::Empty, PathError::Empty) => true,
        (PathError::FailedToString(p), PathError::FailedToString(q)) => p@ == q@,
        (PathError::FileNameNotFound(p), PathError::FileNameNotFound(q)) => p@ == q@,
        (PathError::HomeNotFound(p), PathError::HomeNotFound(q)) => p@ == q@,
        (PathError::InvalidExpansion(p), PathError::InvalidExpansion(q)) => p@ == q@,
        (PathError::MultipleHomeSymbols(p), PathError::MultipleHomeSymbols(q)) => p@ == q@,
        (PathError::ParentNotFound(p), PathError::ParentNotFound(q)) => p@ == q@,
        _ => false,
    }
}

impl PartialEq for PathError {
    fn eq(&self, other: &PathError) -> (r: bool) {
        match (self, other) {
            (PathError::Empty, PathError::Empty) => true,
            (PathError::FailedToString(p), PathError::FailedToString(q)) => *p == *q,
            (PathError::FileNameNotFound(p), PathError::FileNameNotFound(q)) => *p == *q,
            (PathError::HomeNotFound(p), PathError::HomeNotFound(q)) => *p == *q,
            (PathError::InvalidExpansion(p), PathError::InvalidExpansion(q)) => *p == *q,
            (PathError::MultipleHomeSymbols(p), PathError::MultipleHomeSymbols(q)) => *p == *q,
            (PathError::ParentNotFound(p), PathError::ParentNotFound(q)) => *p == *q,
            _ => false,
        }
    }
}

impl vstd::std_specs::cmp::PartialEqSpecImpl for PathError {
    open spec fn obeys_eq_spec() -> bool {
        true
    }

    open spec fn eq_spec(&self, other: &PathError) -> bool {
        path_error_eq(self, other)
    }
}

/// An error indicating that something went wrong with a file operation.
#[derive(Debug, Clone, PartialEq, Eq, Structural)]
pub enum FileError {
    /// A string extraction from a file failed.
    FailedToExtractString,
}

impl FileError {
    /// A human readable description of the error.
    pub fn message(&self) -> (r: String)
        ensures
            r@ == "failed to extract string from file"@,
    {
        match self {
            FileError::FailedToExtractString => String::from_str("failed to extract string from file"),
        }
    }
}

/// An error indicating that something went wrong with a user or environment
/// lookup.
#[derive(Debug, Clone)]
pub enum UserError {
    /// No user record exists for the given user id.
    DoesNotExistById(u32),
    /// A required environment variable is not set.
    EnvironmentVariableMissing(String),
}

/// The structural equality that `==` on [`UserError`] decides.
pub open spec fn user_error_eq(a: &UserError, b: &UserError) -> bool {
    match (a, b) {
        (UserError::DoesNotExistById(x), UserError::DoesNotExistById(y)) => x == y,
        (UserError::EnvironmentVariableMissing(p), UserError::EnvironmentVariableMissing(q)) => p@
            == q@,
        _ => false,
    }
}

impl PartialEq for UserError {
    fn eq(&self, other: &UserError) -> (r: bool) {
        match (self, other) {
            (UserError::DoesNotExistById(x), UserError::DoesNotExistById(y)) => *x == *y,
            (UserError::EnvironmentVariableMissing(p), UserError::EnvironmentVariableMissing(q)) => {
                *p == *q
            },
            _ => false,
        }
    }
}

impl vstd::std_specs::cmp::PartialEqSpecImpl for UserError {
    open spec fn obeys_eq_spec() -> bool {
        true
    }

    open spec fn eq_spec(&self, other: &UserError) -> bool {
        user_error_eq(self, other)
    }
}

} // verus!
