//! Typed errors: a closed enumeration of error kinds, the specific rejected
//! outcomes of engine operations, and the wire-shaped error payloads handed
//! to the HTTP layer.

use vstd::prelude::*;
use vstd::string::StringExecFns;

verus! {

/// The closed set of error categories. Every rejected operation falls in
/// exactly one, and the HTTP layer maps each to a status code.
#[derive(Debug, Clone, Copy, PartialEq, Eq, Structural)]
pub enum ErrorKind {
    NotFound,
    Unauthorized,
    Forbidden,
    Conflict,
    BadRequest,
    Internal,
}

impl ErrorKind {
    /// The HTTP status code this category maps to.
    pub open spec fn spec_code(self) -> u16 {
        match self {
            ErrorKind::NotFound => 404,
            ErrorKind::Unauthorized => 401,
            ErrorKind::Forbidden => 403,
            ErrorKind::Conflict => 409,
            ErrorKind::BadRequest => 400,
            ErrorKind::Internal => 500,
        }
    }

    /// The HTTP status code this category maps to.
    pub fn code(&self) -> (code: u16)
        ensures
            code == self.spec_code(),
    {
        match self {
            ErrorKind::NotFound => 404,
            ErrorKind::Unauthorized => 401,
            ErrorKind::Forbidden => 403,
            ErrorKind::Conflict => 409,
            ErrorKind::BadRequest => 400,
            ErrorKind::Internal => 500,
        }
    }

    /// The HTTP reason phrase this category maps to.
    pub fn reason(&self) -> (reason: String)
        ensures
            reason@ == match self {
                ErrorKind::NotFound => "Not Found"@,
                ErrorKind::Unauthorized => "Unauthorized"@,
                ErrorKind::Forbidden => "Forbidden"@,
                ErrorKind::Conflict => "Conflict"@,
                ErrorKind::BadRequest => "Bad Request"@,
                ErrorKind::Internal => "Internal Server Error"@,
            },
    {
        match self {
            ErrorKind::NotFound => String::from_str("Not Found"),
            ErrorKind::Unauthorized => String::from_str("Unauthorized"),
            ErrorKind::Forbidden => String::from_str("Forbidden"),
            ErrorKind::Conflict => String::from_str("Conflict"),
            ErrorKind::BadRequest => String::from_str("Bad Request"),
            ErrorKind::Internal => String::from_str("Internal Server Error"),
        }
    }
}

/// The specific rejected outcomes of engine operations. Each names the
/// exact rule that was violated; [`AnnotationError::kind`] gives the
/// category it falls in.
#[derive(Debug, Clone, Copy, PartialEq, Eq, Structural)]
pub enum AnnotationError {
    /// The annotation id resolved to no document.
    AnnotationNotFound,
    /// The addressed label is not present in the annotation.
    LabelNotFound,
    /// The addressed token is not present in the annotation.
    TokenNotFound,
    /// The caller is not the annotation's owner.
    NotOwner,
    /// No explicit color was given and every catalogue color is taken.
    PaletteExhausted,
    /// The given color names no catalogue entry.
    InvalidColor,
    /// The given color is already carried by another label.
    ColorInUse,
    /// The given name is already carried by another label.
    NameInUse,
    /// The candidate span ends at or before its start.
    SpanEmpty,
    /// The candidate span starts before the text.
    SpanStartNegative,
    /// The candidate span ends at or past the end of the text.
    SpanEndOutOfBounds,
    /// The candidate span overlaps an existing token.
    SpanOverlap,
    /// The requested page or count is not positive.
    InvalidPage,
    /// The document store reported a failure or an impossible absence.
    StoreFailure,
}

impl AnnotationError {
    /// The category this outcome falls in.
    pub open spec fn spec_kind(self) -> ErrorKind {
        match self {
            AnnotationError::AnnotationNotFound => ErrorKind::NotFound,
            AnnotationError::LabelNotFound => ErrorKind::NotFound,
            AnnotationError::TokenNotFound => ErrorKind::NotFound,
            AnnotationError::NotOwner => ErrorKind::Unauthorized,
            AnnotationError::PaletteExhausted => ErrorKind::Forbidden,
            AnnotationError::InvalidColor => ErrorKind::Conflict,
            AnnotationError::ColorInUse => ErrorKind::Conflict,
            AnnotationError::NameInUse => ErrorKind::Conflict,
            AnnotationError::SpanEmpty => ErrorKind::BadRequest,
            AnnotationError::SpanStartNegative => ErrorKind::BadRequest,
            AnnotationError::SpanEndOutOfBounds => ErrorKind::BadRequest,
            AnnotationError::SpanOverlap => ErrorKind::Conflict,
            AnnotationError::InvalidPage => ErrorKind::BadRequest,
            AnnotationError::StoreFailure => ErrorKind::Internal,
        }
    }

    /// The category this outcome falls in.
    pub fn kind(&self) -> (kind: ErrorKind)
        ensures
            kind == self.spec_kind(),
    {
        match self {
            AnnotationError::AnnotationNotFound => ErrorKind::NotFound,
            AnnotationError::LabelNotFound => ErrorKind::NotFound,
            AnnotationError::TokenNotFound => ErrorKind::NotFound,
            AnnotationError::NotOwner => ErrorKind::Unauthorized,
            AnnotationError::PaletteExhausted => ErrorKind::Forbidden,
            AnnotationError::InvalidColor => ErrorKind::Conflict,
            AnnotationError::ColorInUse => ErrorKind::Conflict,
            AnnotationError::NameInUse => ErrorKind::Conflict,
            AnnotationError::SpanEmpty => ErrorKind::BadRequest,
            AnnotationError::SpanStartNegative => ErrorKind::BadRequest,
            AnnotationError::SpanEndOutOfBounds => ErrorKind::BadRequest,
            AnnotationError::SpanOverlap => ErrorKind::Conflict,
            AnnotationError::InvalidPage => ErrorKind::BadRequest,
            AnnotationError::StoreFailure => ErrorKind::Internal,
        }
    }
}

/// A bare error with a human-readable description.
#[derive(Debug, Clone)]
pub struct CommonError {
    pub description: String,
}

/// The body of a wire-level error: status code, reason phrase, and an
/// optional human-readable description.
#[derive(Debug, Clone)]
pub struct ErrorContent {
    pub code: u16,
    pub reason: String,
    pub description: Option<String>,
}

/// The wire shape of a rejected request: `{ error: { code, reason,
/// description? } }`.
#[derive(Debug, Clone)]
pub struct RequestError {
    pub error: ErrorContent,
}

impl RequestError {
    /// Builds the wire error for an error category and description.
    pub fn new(kind: ErrorKind, description: Option<String>) -> (err: RequestError)
        ensures
            err.error.code == kind.spec_code(),
            err.error.description == description,
    {
        let reason = kind.reason();
        RequestError {
            error: ErrorContent { code: kind.code(), description, reason },
        }
    }
}

/// A rejected request as the middleware-driven HTTP layer reports it:
/// status code, message, low-level error text, and per-field validation
/// messages.
#[derive(Debug, Clone)]
pub struct ApiError {
    pub status: u16,
    pub msg: String,
    pub error: String,
    pub validation: Vec<String>,
}

impl ApiError {
    /// An empty error carrying only a status code.
    pub fn new(status: u16) -> (err: ApiError)
        ensures
            err.status == status,
            err.msg@ == Seq::<char>::empty(),
            err.error@ == Seq::<char>::empty(),
            err.validation@ == Seq::<String>::empty(),
    {
        ApiError { status, msg: String::new(), error: String::new(), validation: Vec::new() }
    }

    /// The same error with its validation messages replaced.
    pub fn set_validation(self, validation: Vec<String>) -> (err: ApiError)
        ensures
            err == (ApiError { validation, ..self }),
    {
        ApiError { validation, ..self }
    }

    /// The same error with its message replaced.
    pub fn set_msg(self, msg: &str) -> (err: ApiError)
        ensures
            err.status == self.status,
            err.msg@ == msg@,
            err.error == self.error,
            err.validation == self.validation,
    {
        ApiError { msg: msg.to_owned(), ..self }
    }

    /// The same error with its low-level error text replaced.
    pub fn set_error(self, error: &str) -> (err: ApiError)
        ensures
            err.status == self.status,
            err.msg == self.msg,
            err.error@ == error@,
            err.validation == self.validation,
    {
        ApiError { error: error.to_owned(), ..self }
    }
}

} // verus!
