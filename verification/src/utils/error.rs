use vstd::prelude::*;

verus! {

/// Errors of the model operations.
#[derive(Debug)]
pub enum AppError {
    Validation(String),
    ElementNotFound(String),
    ElementAlreadyExists(String),
    InvalidOperation(String),
    Config(String),
}

/// The variants of `AppError`, without their messages.
pub enum ErrorKind {
    Validation,
    ElementNotFound,
    ElementAlreadyExists,
    InvalidOperation,
    Config,
}

/// The result type of the model operations.
pub type Result<T> = core::result::Result<T, AppError>;

impl AppError {
    /// The message carried by the error.
    pub open spec fn message(self) -> Seq<char> {
        match self {
            AppError::Validation(m) => m@,
            AppError::ElementNotFound(m) => m@,
            AppError::ElementAlreadyExists(m) => m@,
            AppError::InvalidOperation(m) => m@,
            AppError::Config(m) => m@,
        }
    }

    /// The variant of the error.
    pub open spec fn kind(self) -> ErrorKind {
        match self {
            AppError::Validation(_) => ErrorKind::Validation,
            AppError::ElementNotFound(_) => ErrorKind::ElementNotFound,
            AppError::ElementAlreadyExists(_) => ErrorKind::ElementAlreadyExists,
            AppError::InvalidOperation(_) => ErrorKind::InvalidOperation,
            AppError::Config(_) => ErrorKind::Config,
        }
    }

    /// The message as text.
    pub fn message_text(&self) -> (r: String)
        ensures
            r@ == self.message(),
    {
        match self {
            AppError::Validation(m) => m.clone(),
            AppError::ElementNotFound(m) => m.clone(),
            AppError::ElementAlreadyExists(m) => m.clone(),
            AppError::InvalidOperation(m) => m.clone(),
            AppError::Config(m) => m.clone(),
        }
    }
}

/// `r` is an error of variant `k` whose message is `msg`.
pub open spec fn fails_with<T>(r: Result<T>, k: ErrorKind, msg: Seq<char>) -> bool {
    &&& r is Err
    &&& r->Err_0.kind() == k
    &&& r->Err_0.message() == msg
}

} // verus!
