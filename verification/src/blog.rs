//! The errors of a small blog server and how they are answered.

use vstd::prelude::*;
use vstd::string::StringExecFns;

verus! {

/// What went wrong in the database, as far as the server tells errors
/// apart.
pub enum DatabaseFault {
    /// A record would have the key of another.
    UniqueViolation,
    /// No record was found.
    NotFound,
    /// Anything else, with its description.
    Other(String),
}

/// The errors of the server.
#[derive(Debug)]
pub enum AppError {
    RecordAlreadyExists,
    RecordNotFound,
    /// An error of the database that is none of the above, with its
    /// description.
    DatabaseError(String),
    OperationCanceled,
}

/// The body of the answer to a failed request.
#[derive(Debug)]
pub struct ErrorResponse {
    pub err: String,
}

impl AppError {
    /// The text that describes the error.
    pub open spec fn message_of(self) -> Seq<char> {
        match self {
            AppError::RecordAlreadyExists => "This record violates a unique constraint"@,
            AppError::RecordNotFound => "This record does not exist"@,
            AppError::DatabaseError(e) => "Database error: "@ + e@,
            AppError::OperationCanceled => "The running operation was canceled"@,
        }
    }

    /// The status that answers the error: 400 for a record that exists
    /// already, 404 for one that does not, 500 for everything else.
    pub open spec fn status_of(self) -> u16 {
        match self {
            AppError::RecordAlreadyExists => 400,
            AppError::RecordNotFound => 404,
            _ => 500,
        }
    }

    /// Describes the error in words.
    pub fn message(&self) -> (text: String)
        ensures
            text@ == self.message_of(),
    {
        match self {
            AppError::RecordAlreadyExists => String::from_str(
                "This record violates a unique constraint",
            ),
            AppError::RecordNotFound => String::from_str("This record does not exist"),
            AppError::DatabaseError(e) => String::from_str("Database error: ").concat(e.as_str()),
            AppError::OperationCanceled => String::from_str("The running operation was canceled"),
        }
    }

    /// The error of the server for an error of the database.
    pub fn from_database(fault: DatabaseFault) -> (error: AppError)
        ensures
            error == (match fault {
                DatabaseFault::UniqueViolation => AppError::RecordAlreadyExists,
                DatabaseFault::NotFound => AppError::RecordNotFound,
                DatabaseFault::Other(e) => AppError::DatabaseError(e),
            }),
    {
        match fault {
            DatabaseFault::UniqueViolation => AppError::RecordAlreadyExists,
            DatabaseFault::NotFound => AppError::RecordNotFound,
            DatabaseFault::Other(e) => AppError::DatabaseError(e),
        }
    }

    /// The error of the server for work that was handed to another
    /// thread and failed there with `inner`, or was canceled.
    pub fn from_blocking(inner: Option<AppError>) -> (error: AppError)
        ensures
            error == (match inner {
                Some(inner) => inner,
                None => AppError::OperationCanceled,
            }),
    {
        match inner {
            Some(inner) => inner,
            None => AppError::OperationCanceled,
        }
    }

    /// The status and the body that answer the error.
    pub fn error_response(&self) -> (response: (u16, ErrorResponse))
        ensures
            response.0 == self.status_of(),
            response.1.err@ == self.message_of(),
    {
        let err = self.message();
        let status: u16 = match self {
            AppError::RecordAlreadyExists => 400,
            AppError::RecordNotFound => 404,
            _ => 500,
        };
        (status, ErrorResponse { err })
    }

    /// The answer as it is rendered: the same as the answer to the
    /// error.
    pub fn render_response(&self) -> (response: (u16, ErrorResponse))
        ensures
            response.0 == self.status_of(),
            response.1.err@ == self.message_of(),
    {
        self.error_response()
    }
}

} // verus!
