//! The library's error type and the HTTP response each error is answered
//! with.

use vstd::prelude::*;

use crate::text::{concat, push_str, to_string};

verus! {

/// One failed validation rule: the field, the rule's code and the message
/// the rule carries, if any.
#[derive(Debug)]
pub struct FieldError {
    pub field: String,
    pub code: String,
    pub message: Option<String>,
}

impl View for FieldError {
    type V = (Seq<char>, Seq<char>, Option<Seq<char>>);

    open spec fn view(&self) -> Self::V {
        (self.field@, self.code@, self.message.deep_view())
    }
}

impl FieldError {
    pub fn new(field: &str, code: &str, message: Option<&str>) -> (r: FieldError)
        ensures
            r.field@ == field@,
            r.code@ == code@,
            r.message.deep_view() == match message {
                Some(m) => Some(m@),
                None => None::<Seq<char>>,
            },
    {
        let message = match message {
            Some(m) => Some(to_string(m)),
            None => None,
        };
        FieldError { field: to_string(field), code: to_string(code), message }
    }
}

/// A validation failure as a plain value: field, rule code, message.
pub type FieldErrorV = (Seq<char>, Seq<char>, Option<Seq<char>>);

/// `r` is the answer of a validation that found exactly the failures
/// `expected`: `Ok` where there are none, else `Validation` listing them in
/// order.
pub open spec fn validation_outcome(r: Result<(), AppError>, expected: Seq<FieldErrorV>) -> bool {
    if expected.len() == 0 {
        r is Ok
    } else {
        r matches Err(AppError::Validation(v)) && v@.map_values(|e: FieldError| e@) == expected
    }
}

/// Turns collected failures into the answer `validation_outcome` describes.
pub fn finish_validation(errors: Vec<FieldError>) -> (r: Result<(), AppError>)
    ensures
        validation_outcome(r, errors@.map_values(|e: FieldError| e@)),
{
    if errors.len() == 0 {
        Ok(())
    } else {
        Err(AppError::Validation(errors))
    }
}

/// What went wrong with a database statement, as far as the callers care.
#[derive(Debug)]
pub enum DbFailure {
    /// The statement expected a row and found none.
    RowNotFound,
    /// A `UNIQUE` constraint refused the statement.
    UniqueViolation,
    /// Any other database error.
    Other,
}

/// Errors of the service layer.
#[derive(Debug)]
pub enum AppError {
    Unauthorized,
    Forbidden,
    NotFound,
    Conflict(String),
    BadRequest(String),
    Validation(Vec<FieldError>),
    Database(DbFailure),
    Internal(String),
    /// A password hashing failure, with the hashing library's message.
    Argon(String),
    /// A token signing or decoding failure, with the token library's message.
    Jwt(String),
}

/// The text of an error, as its `Display` form reads.
pub open spec fn error_text(e: AppError) -> Seq<char> {
    match e {
        AppError::Unauthorized => "unauthorized"@,
        AppError::Forbidden => "forbidden"@,
        AppError::NotFound => "not found"@,
        AppError::Conflict(m) => "conflict: "@ + m@,
        AppError::BadRequest(m) => "bad request: "@ + m@,
        AppError::Validation(_) => "validation failed"@,
        AppError::Database(_) => "database error"@,
        AppError::Internal(_) => "internal error"@,
        AppError::Argon(m) => m@,
        AppError::Jwt(m) => m@,
    }
}

/// A validation failure as the response lists it: `field: message`.
pub open spec fn detail_line(e: (Seq<char>, Seq<char>, Option<Seq<char>>)) -> Seq<char> {
    e.0 + ": "@ + match e.2 {
        Some(m) => m,
        None => Seq::empty(),
    }
}

/// The parts of the HTTP response that answers an error.
#[derive(Debug)]
pub struct ErrorResponse {
    pub status: u16,
    /// The `error` field of the JSON body.
    pub kind: String,
    /// The `message` field of the JSON body.
    pub message: String,
    /// The `details` field, present for validation failures only.
    pub details: Option<Vec<String>>,
    /// Whether the response carries `WWW-Authenticate: Bearer`.
    pub www_authenticate: bool,
}

/// Status code, `error` and `message` of the response to an error.
pub open spec fn response_spec(e: AppError) -> (u16, Seq<char>, Seq<char>) {
    match e {
        AppError::Unauthorized => (401, "unauthorized"@, "unauthorized"@),
        AppError::Forbidden => (403, "forbidden"@, "forbidden"@),
        AppError::NotFound => (404, "not_found"@, "not found"@),
        AppError::Conflict(m) => (409, "conflict"@, m@),
        AppError::BadRequest(m) => (400, "bad_request"@, m@),
        AppError::Validation(_) => (400, "validation_failed"@, "validation failed"@),
        AppError::Database(DbFailure::RowNotFound) => (404, "not_found"@, "resource not found"@),
        AppError::Database(_) => (500, "internal_error"@, "internal server error"@),
        AppError::Internal(_) => (500, "internal_error"@, "internal server error"@),
        AppError::Argon(_) => (500, "internal_error"@, "internal server error"@),
        AppError::Jwt(_) => (500, "internal_error"@, "internal server error"@),
    }
}

impl AppError {
    /// The error's text (its `Display` form).
    pub fn message(&self) -> (r: String)
        ensures
            r@ == error_text(*self),
    {
        match self {
            AppError::Unauthorized => to_string("unauthorized"),
            AppError::Forbidden => to_string("forbidden"),
            AppError::NotFound => to_string("not found"),
            AppError::Conflict(m) => concat("conflict: ", m.as_str()),
            AppError::BadRequest(m) => concat("bad request: ", m.as_str()),
            AppError::Validation(_) => to_string("validation failed"),
            AppError::Database(_) => to_string("database error"),
            AppError::Internal(_) => to_string("internal error"),
            AppError::Argon(m) => m.clone(),
            AppError::Jwt(m) => m.clone(),
        }
    }

    /// The response that answers this error: status, JSON `error`,
    /// `message` and, for validation failures, one `details` line per
    /// failed rule; 401 answers carry `WWW-Authenticate: Bearer`.
    pub fn response_parts(&self) -> (r: ErrorResponse)
        ensures
            (r.status, r.kind@, r.message@) == response_spec(*self),
            r.www_authenticate == (r.status == 401),
            match self {
                AppError::Validation(errs) => r.details matches Some(d) && d@.len() == errs@.len()
                    && forall|i: int|
                    0 <= i < errs@.len() ==> #[trigger] d@[i]@ == detail_line(errs@[i]@),
                _ => r.details is None,
            },
    {
        let (status, kind, message): (u16, &str, Option<&str>) = match self {
            AppError::Unauthorized => (401, "unauthorized", Some("unauthorized")),
            AppError::Forbidden => (403, "forbidden", Some("forbidden")),
            AppError::NotFound => (404, "not_found", Some("not found")),
            AppError::Conflict(m) => (409, "conflict", None),
            AppError::BadRequest(m) => (400, "bad_request", None),
            AppError::Validation(_) => (400, "validation_failed", Some("validation failed")),
            AppError::Database(DbFailure::RowNotFound) => (
                404,
                "not_found",
                Some("resource not found"),
            ),
            _ => (500, "internal_error", Some("internal server error")),
        };
        let message = match message {
            Some(m) => to_string(m),
            None => match self {
                AppError::Conflict(m) => m.clone(),
                AppError::BadRequest(m) => m.clone(),
                _ => String::new(),
            },
        };
        let details = match self {
            AppError::Validation(errs) => {
                let mut lines: Vec<String> = Vec::new();
                let mut i: usize = 0;
                while i < errs.len()
                    invariant
                        i <= errs@.len(),
                        lines@.len() == i,
                        forall|j: int| 0 <= j < i ==> #[trigger] lines@[j]@ == detail_line(errs@[j]@),
                    decreases errs@.len() - i,
                {
                    let e = &errs[i];
                    let mut line = concat(e.field.as_str(), ": ");
                    match &e.message {
                        Some(m) => push_str(&mut line, m.as_str()),
                        None => {},
                    }
                    proof {
                        assert(line@ =~= detail_line(errs@[i as int]@));
                    }
                    lines.push(line);
                    i = i + 1;
                }
                Some(lines)
            },
            _ => None,
        };
        ErrorResponse {
            status,
            kind: to_string(kind),
            message,
            details,
            www_authenticate: status == 401,
        }
    }
}

} // verus!
