//! The error taxonomy and its HTTP status projection.
use vstd::prelude::*;

verus! {

/// Every failure the library and its collaborators report.
#[derive(Clone, Debug, PartialEq)]
pub enum Error {
    Auth(AuthError),
    Database(String),
    DatabaseConnection(String),
    User(UserError),
    Register(RegisterError),
    Validation(ValidationError),
    Status(u16, String),
}

/// Failures of token-based authentication.
#[derive(Clone, Debug, PartialEq)]
pub enum AuthError {
    MissingClaim(String),
    InvalidFormat(String),
    TokenExpiredS(i64),
    JwtError(String),
}

/// Failures about user accounts.
#[derive(Clone, Debug, PartialEq)]
pub enum UserError {
    NameTaken(String),
    NotFound(String),
    InvalidCredentials,
    NotConfirmed(String),
}

/// The names of the requirements that a registration failed, per field.
#[derive(Clone, Debug, PartialEq)]
pub struct RegisterError {
    pub username_errors: Vec<String>,
    pub password_errors: Vec<String>,
}

/// Failures of input validation.
#[derive(Clone, Debug, PartialEq)]
pub enum ValidationError {
    Country,
    Query(QueryValidationError),
    ResourceData(ResourceDataValidationError),
}

#[derive(Clone, Debug, PartialEq)]
pub enum UsernameValidationError {
    InvalidLength(i32, i32),
    InvalidCharacters(Vec<char>),
}

#[derive(Clone, Debug, PartialEq)]
pub enum QueryValidationError {
    InvalidColumn(String),
}

#[derive(Clone, Debug, PartialEq)]
pub enum ResourceDataValidationError {
    KeyMismatch(String, String),
    KeyMissing,
    ValueMissing,
}

/// How a database driver failure is classified before it joins the taxonomy.
#[derive(Clone, Debug, PartialEq)]
pub enum DbFailure {
    /// A database error of unknown kind, with the database's message.
    UnknownDatabaseError(String),
    /// A database error of a known kind (a constraint, a serialization
    /// conflict, ...), with the database's message.
    KnownDatabaseError(String),
    /// No row matched; the text describes the failure.
    NotFound(String),
    /// The query or its data could not be built or read; the text describes it.
    InvalidInput(String),
    /// Anything else; the text describes it.
    Other(String),
}

/// The HTTP status code of an error.
pub open spec fn status_of(e: Error) -> u16 {
    match e {
        Error::Auth(AuthError::JwtError(_)) => 500,
        Error::Auth(_) => 400,
        Error::Database(_) => 500,
        Error::DatabaseConnection(_) => 500,
        Error::User(_) => 401,
        Error::Register(_) => 401,
        Error::Validation(_) => 400,
        Error::Status(code, _) => code,
    }
}

/// The error that a classified database failure becomes.
pub open spec fn db_failure_error(f: DbFailure) -> Error {
    match f {
        DbFailure::UnknownDatabaseError(m) => Error::Database(m),
        DbFailure::KnownDatabaseError(m) => Error::Status(400, m),
        DbFailure::NotFound(t) => Error::Status(404, t),
        DbFailure::InvalidInput(t) => Error::Status(400, t),
        DbFailure::Other(t) => Error::Database(t),
    }
}

impl Error {
    /// The HTTP status that this error is answered with.
    pub fn status(&self) -> (r: u16)
        ensures
            r == status_of(*self),
    {
        match self {
            Error::Auth(AuthError::JwtError(_)) => 500,
            Error::Auth(_) => 400,
            Error::Database(_) => 500,
            Error::DatabaseConnection(_) => 500,
            Error::User(_) => 401,
            Error::Register(_) => 401,
            Error::Validation(_) => 400,
            Error::Status(code, _) => *code,
        }
    }

    /// Wraps an authentication failure.
    pub fn from_auth(value: AuthError) -> (r: Error)
        ensures
            r == Error::Auth(value),
    {
        Error::Auth(value)
    }

    /// Folds a classified database failure into the taxonomy.
    pub fn from_db_failure(f: DbFailure) -> (r: Error)
        ensures
            r == db_failure_error(f),
    {
        match f {
            DbFailure::UnknownDatabaseError(m) => Error::Database(m),
            DbFailure::KnownDatabaseError(m) => Error::Status(400, m),
            DbFailure::NotFound(t) => Error::Status(404, t),
            DbFailure::InvalidInput(t) => Error::Status(400, t),
            DbFailure::Other(t) => Error::Database(t),
        }
    }
}

impl From<AuthError> for Error {
    fn from(value: AuthError) -> (r: Error)
        ensures
            r == Error::Auth(value),
    {
        Error::Auth(value)
    }
}

impl vstd::std_specs::convert::FromSpecImpl<AuthError> for Error {
    open spec fn obeys_from_spec() -> bool {
        true
    }

    open spec fn from_spec(v: AuthError) -> Error {
        Error::Auth(v)
    }
}

} // verus!
