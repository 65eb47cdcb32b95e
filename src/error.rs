use vstd::prelude::*;

verus! {

/// Failures raised by the storage layer.
#[derive(Debug)]
pub enum DbError {
    BoundaryViolation(String),
    DuplicateKey(String),
    EntityNotFound(String),
    Conflict(String),
    ConstraintViolation(String),
    NoConnection(String),
    UnknownError(String),
}

/// Failures caused by the shape or values of a request.
#[derive(Debug)]
pub enum ClientError {
    ParameterInvalid(String),
    ParameterMissing(String),
}

/// Either kind of failure, as returned by the request-level operations.
#[derive(Debug)]
pub enum ApiError {
    Db(DbError),
    Client(ClientError),
}

/// The stable classification of a failure, without its human-readable reason.
#[derive(Debug, Clone, Copy, PartialEq, Eq, Structural)]
pub enum ErrorKind {
    BoundaryViolation,
    DuplicateKey,
    EntityNotFound,
    Conflict,
    ConstraintViolation,
    NoConnection,
    UnknownError,
    ParameterInvalid,
    ParameterMissing,
}

impl DbError {
    pub open spec fn spec_kind(&self) -> ErrorKind {
        match self {
            DbError::BoundaryViolation(_) => ErrorKind::BoundaryViolation,
            DbError::DuplicateKey(_) => ErrorKind::DuplicateKey,
            DbError::EntityNotFound(_) => ErrorKind::EntityNotFound,
            DbError::Conflict(_) => ErrorKind::Conflict,
            DbError::ConstraintViolation(_) => ErrorKind::ConstraintViolation,
            DbError::NoConnection(_) => ErrorKind::NoConnection,
            DbError::UnknownError(_) => ErrorKind::UnknownError,
        }
    }

    #[verifier::when_used_as_spec(spec_kind)]
    pub fn kind(&self) -> (k: ErrorKind)
        ensures
            k == self.spec_kind(),
    {
        match self {
            DbError::BoundaryViolation(_) => ErrorKind::BoundaryViolation,
            DbError::DuplicateKey(_) => ErrorKind::DuplicateKey,
            DbError::EntityNotFound(_) => ErrorKind::EntityNotFound,
            DbError::Conflict(_) => ErrorKind::Conflict,
            DbError::ConstraintViolation(_) => ErrorKind::ConstraintViolation,
            DbError::NoConnection(_) => ErrorKind::NoConnection,
            DbError::UnknownError(_) => ErrorKind::UnknownError,
        }
    }

    /// The human-readable reason, prefixed by the kind of failure.
    pub fn message(&self) -> String {
        let (prefix, detail) = match self {
            DbError::BoundaryViolation(v) => ("Value boundary violated: ", v),
            DbError::DuplicateKey(v) => ("Duplicate key in entity ", v),
            DbError::EntityNotFound(v) => ("Entity not found: ", v),
            DbError::Conflict(v) => ("Conflict: ", v),
            DbError::ConstraintViolation(v) => ("Constraint violated: ", v),
            DbError::NoConnection(v) => ("Connection Error: ", v),
            DbError::UnknownError(v) => ("Storage error: ", v),
        };
        let mut s = String::from_str(prefix);
        s.append(detail.as_str());
        s
    }
}

impl ClientError {
    pub open spec fn spec_kind(&self) -> ErrorKind {
        match self {
            ClientError::ParameterInvalid(_) => ErrorKind::ParameterInvalid,
            ClientError::ParameterMissing(_) => ErrorKind::ParameterMissing,
        }
    }

    #[verifier::when_used_as_spec(spec_kind)]
    pub fn kind(&self) -> (k: ErrorKind)
        ensures
            k == self.spec_kind(),
    {
        match self {
            ClientError::ParameterInvalid(_) => ErrorKind::ParameterInvalid,
            ClientError::ParameterMissing(_) => ErrorKind::ParameterMissing,
        }
    }

    /// The human-readable reason, prefixed by the kind of failure.
    pub fn message(&self) -> String {
        let (prefix, detail) = match self {
            ClientError::ParameterInvalid(v) => ("Parameter value invalid: ", v),
            ClientError::ParameterMissing(v) => ("Parameter missing in the request: ", v),
        };
        let mut s = String::from_str(prefix);
        s.append(detail.as_str());
        s
    }
}

impl ApiError {
    pub open spec fn spec_kind(&self) -> ErrorKind {
        match self {
            ApiError::Db(e) => e.spec_kind(),
            ApiError::Client(e) => e.spec_kind(),
        }
    }

    #[verifier::when_used_as_spec(spec_kind)]
    pub fn kind(&self) -> (k: ErrorKind)
        ensures
            k == self.spec_kind(),
    {
        match self {
            ApiError::Db(e) => e.kind(),
            ApiError::Client(e) => e.kind(),
        }
    }

    pub fn message(&self) -> String {
        match self {
            ApiError::Db(e) => e.message(),
            ApiError::Client(e) => e.message(),
        }
    }
}

} // verus!
