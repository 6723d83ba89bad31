//! Error model: the typed error kinds every core operation returns, the
//! wire status codes they map to, and the `code##message` descriptor format
//! used by the surrounding framework.

use vstd::prelude::*;

verus! {

/// Typed outcome of a core operation that failed.
///
/// * `NotFound` — a referenced id does not resolve under the caller's
///   visible scope.
/// * `Forbidden` — the entity is visible but the caller lacks the scope or
///   role required to mutate it.
/// * `Conflict` — a uniqueness rule was violated: duplicate access key,
///   duplicate relation, coexistence limit exceeded, or dependent data
///   still attached.
/// * `BadRequest` — a field rule (length / character class) was violated.
/// * `Unauthorized` — credential validation failed: wrong secret, expired
///   or locked credential.
#[derive(Clone, Copy, Debug, PartialEq, Eq, Structural)]
pub enum RbumError {
    NotFound,
    Forbidden,
    Conflict,
    BadRequest,
    Unauthorized,
}

/// Wire status code families used by the response layer.
#[derive(Clone, Copy, Debug, PartialEq, Eq, Structural)]
pub enum StatusCodeKind {
    Success,
    UnKnown,
    BadRequest,
    NotFound,
    Conflict,
    ConflictExists,
    ConflictExistFieldsAtSomeTime,
    ConflictExistAssociatedData,
}

/// Operation discriminator carried in composed status codes.
#[derive(Clone, Copy, Debug, PartialEq, Eq, Structural)]
pub enum ActionKind {
    Create,
    Modify,
    FetchOne,
    FetchList,
    Delete,
    Exists,
}

impl StatusCodeKind {
    /// The three-digit code this kind renders as.
    pub fn code(&self) -> (r: &'static str)
        ensures
            r@ == self.spec_code(),
    {
        match self {
            StatusCodeKind::Success => "200",
            StatusCodeKind::UnKnown => "000",
            StatusCodeKind::BadRequest => "400",
            StatusCodeKind::NotFound => "404",
            StatusCodeKind::Conflict => "409",
            StatusCodeKind::ConflictExists => "419",
            StatusCodeKind::ConflictExistFieldsAtSomeTime => "429",
            StatusCodeKind::ConflictExistAssociatedData => "439",
        }
    }

    pub open spec fn spec_code(self) -> Seq<char> {
        match self {
            StatusCodeKind::Success => "200"@,
            StatusCodeKind::UnKnown => "000"@,
            StatusCodeKind::BadRequest => "400"@,
            StatusCodeKind::NotFound => "404"@,
            StatusCodeKind::Conflict => "409"@,
            StatusCodeKind::ConflictExists => "419"@,
            StatusCodeKind::ConflictExistFieldsAtSomeTime => "429"@,
            StatusCodeKind::ConflictExistAssociatedData => "439"@,
        }
    }
}

impl ActionKind {
    /// The two-digit code this action renders as.
    pub fn code(&self) -> (r: &'static str)
        ensures
            r@ == self.spec_code(),
    {
        match self {
            ActionKind::Create => "01",
            ActionKind::Modify => "02",
            ActionKind::FetchOne => "03",
            ActionKind::FetchList => "04",
            ActionKind::Delete => "05",
            ActionKind::Exists => "06",
        }
    }

    pub open spec fn spec_code(self) -> Seq<char> {
        match self {
            ActionKind::Create => "01"@,
            ActionKind::Modify => "02"@,
            ActionKind::FetchOne => "03"@,
            ActionKind::FetchList => "04"@,
            ActionKind::Delete => "05"@,
            ActionKind::Exists => "06"@,
        }
    }
}

impl RbumError {
    /// The status-code family an error kind maps to.
    pub fn status(&self) -> (r: StatusCodeKind)
        ensures
            r == self.spec_status(),
    {
        match self {
            RbumError::NotFound => StatusCodeKind::NotFound,
            RbumError::Forbidden => StatusCodeKind::Conflict,
            RbumError::Conflict => StatusCodeKind::ConflictExists,
            RbumError::BadRequest => StatusCodeKind::BadRequest,
            RbumError::Unauthorized => StatusCodeKind::UnKnown,
        }
    }

    pub open spec fn spec_status(self) -> StatusCodeKind {
        match self {
            RbumError::NotFound => StatusCodeKind::NotFound,
            RbumError::Forbidden => StatusCodeKind::Conflict,
            RbumError::Conflict => StatusCodeKind::ConflictExists,
            RbumError::BadRequest => StatusCodeKind::BadRequest,
            RbumError::Unauthorized => StatusCodeKind::UnKnown,
        }
    }
}

} // verus!
