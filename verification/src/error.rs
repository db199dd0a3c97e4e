//! Errors of a service and the response that reports one.

use vstd::prelude::*;

verus! {

/// What the canonical reason of a status is, with the status before it, as
/// `actix_web::http::StatusCode` displays it: `404 Not Found`.
pub uninterp spec fn status_display(code: u16) -> Seq<char>;

/// Whether `code` is the number of an HTTP status: from 100 to 999.
pub open spec fn valid_status(code: u16) -> bool {
    100 <= code <= 999
}

/// `actix_web::http::StatusCode::from_u16(code)` and, where that accepts
/// the number, the status's `to_string()`. The first accepts exactly the
/// numbers from 100 to 999; the second writes the number, a blank and the
/// canonical reason of the status, which depends on the number alone.
#[verifier::external_body]
fn status_text(code: u16) -> (r: Option<String>)
    ensures
        r is Some == valid_status(code),
        r matches Some(text) ==> text@ == status_display(code),
{
    match actix_web::http::StatusCode::from_u16(code) {
        Ok(status) => Some(status.to_string()),
        Err(_) => None,
    }
}

/// The kind of an input or output error.
#[derive(Clone, Copy, Debug, PartialEq, Eq)]
pub enum ErrorKind {
    InvalidInput,
    InvalidData,
    Other,
}

/// An error of the service.
#[allow(non_camel_case_types)]
#[derive(Clone, Debug)]
pub enum FallError {
    /// An input or output error, with its kind and its text.
    IO_ERROR(ErrorKind, String),
    /// An HTTP status, with a reason where one was given.
    HTTP_ERROR(u16, Option<String>),
    /// The status and the body that a remote service answered with.
    REMOTE_ERROR(u16, String),
}

/// The JSON body that reports an error.
#[derive(Clone, Debug)]
pub struct ErrorBody {
    pub trace_id: Option<String>,
    pub status: u16,
    pub message: String,
}

/// What an error response carries: a body that is sent as it is, or one
/// that is yet to be written as JSON.
#[derive(Clone, Debug)]
pub enum ErrorContent {
    Raw(String),
    Json(ErrorBody),
}

/// The response that reports an error. Its content type is
/// `application/json`.
#[derive(Clone, Debug)]
pub struct ErrorResponse {
    pub status: u16,
    pub content: ErrorContent,
}

/// Status of a response that reports an input or output error.
pub const INTERNAL_SERVER_ERROR: u16 = 500;

/// Status of a request that cannot be understood.
pub const BAD_REQUEST: u16 = 400;

/// Status of a request that lacks valid credentials.
pub const UNAUTHORIZED: u16 = 401;

/// Status of a request for something that does not exist.
pub const NOT_FOUND: u16 = 404;

impl FallError {
    /// The error holds the number of an HTTP status.
    pub open spec fn wf(&self) -> bool {
        valid_status(self.status())
    }

    /// The status that reports the error.
    pub open spec fn status(&self) -> u16 {
        match self {
            FallError::IO_ERROR(_, _) => INTERNAL_SERVER_ERROR,
            FallError::HTTP_ERROR(code, _) => *code,
            FallError::REMOTE_ERROR(code, _) => *code,
        }
    }

    /// The text of the error: the text of an input or output error, the
    /// reason of an HTTP error or else its status as displayed, the body of
    /// a remote error.
    pub open spec fn message(&self) -> Seq<char> {
        match self {
            FallError::IO_ERROR(_, text) => text@,
            FallError::HTTP_ERROR(_, Some(reason)) => reason@,
            FallError::HTTP_ERROR(code, None) => status_display(*code),
            FallError::REMOTE_ERROR(_, body) => body@,
        }
    }

    /// The error that a remote service reported with status `code` and the
    /// JSON text `body`.
    pub fn remote_err(code: u16, body: String) -> (r: Self)
        requires
            valid_status(code),
        ensures
            r == FallError::REMOTE_ERROR(code, body),
            r.wf(),
    {
        FallError::REMOTE_ERROR(code, body)
    }

    /// An HTTP error with status `code` and the reason `err`.
    pub fn new(code: u16, err: &str) -> (r: Self)
        requires
            valid_status(code),
        ensures
            r matches FallError::HTTP_ERROR(c, Some(reason)) && c == code && reason@ == err@,
            r.wf(),
    {
        FallError::HTTP_ERROR(code, Some(err.to_owned()))
    }

    /// A `400 Bad Request` with the reason `err`.
    pub fn bad_request(err: &str) -> (r: Self)
        ensures
            r matches FallError::HTTP_ERROR(c, Some(reason)) && c == BAD_REQUEST && reason@
                == err@,
            r.wf(),
    {
        FallError::new(BAD_REQUEST, err)
    }

    /// A `401 Unauthorized` with the reason `err`.
    pub fn unauthorized(err: &str) -> (r: Self)
        ensures
            r matches FallError::HTTP_ERROR(c, Some(reason)) && c == UNAUTHORIZED && reason@
                == err@,
            r.wf(),
    {
        FallError::new(UNAUTHORIZED, err)
    }

    /// An input or output error of kind `kind` with the text `text`.
    pub fn io_error(kind: ErrorKind, text: String) -> (r: Self)
        ensures
            r == FallError::IO_ERROR(kind, text),
            r.wf(),
    {
        FallError::IO_ERROR(kind, text)
    }

    /// The status that reports the error: 500 for an input or output
    /// error, else the status that the error holds.
    pub fn status_code(&self) -> (r: u16)
        ensures
            r == self.status(),
    {
        match self {
            FallError::IO_ERROR(_, _) => INTERNAL_SERVER_ERROR,
            FallError::HTTP_ERROR(code, _) => *code,
            FallError::REMOTE_ERROR(code, _) => *code,
        }
    }

    /// The kind of input or output error that stands for this error: the
    /// kind of an input or output error itself, invalid input for an HTTP
    /// error, invalid data for a remote error.
    pub fn io_kind(&self) -> (r: ErrorKind)
        ensures
            r == match self {
                FallError::IO_ERROR(kind, _) => *kind,
                FallError::HTTP_ERROR(_, _) => ErrorKind::InvalidInput,
                FallError::REMOTE_ERROR(_, _) => ErrorKind::InvalidData,
            },
    {
        match self {
            FallError::IO_ERROR(kind, _) => *kind,
            FallError::HTTP_ERROR(_, _) => ErrorKind::InvalidInput,
            FallError::REMOTE_ERROR(_, _) => ErrorKind::InvalidData,
        }
    }

    /// The text of the error.
    pub fn to_string(&self) -> (r: String)
        requires
            self.wf(),
        ensures
            r@ == self.message(),
    {
        match self {
            FallError::IO_ERROR(_, text) => text.clone(),
            FallError::HTTP_ERROR(code, reason) => {
                match reason {
                    Some(text) => text.clone(),
                    None => {
                        match status_text(*code) {
                            Some(text) => text,
                            None => String::new(),
                        }
                    },
                }
            },
            FallError::REMOTE_ERROR(_, body) => body.clone(),
        }
    }

    /// The response that reports the error to a caller whose trace id is
    /// `trace_id`. A remote error is passed on with the body it came with;
    /// any other error is reported by a JSON body with the trace id, the
    /// status and the text of the error.
    pub fn error_response(&self, trace_id: Option<String>) -> (r: ErrorResponse)
        requires
            self.wf(),
        ensures
            r.status == self.status(),
            match self {
                FallError::REMOTE_ERROR(_, body) => r.content matches ErrorContent::Raw(text)
                    && text@ == body@,
                _ => r.content matches ErrorContent::Json(body) && body.trace_id == trace_id
                    && body.status == self.status() && body.message@ == self.message(),
            },
    {
        let status = self.status_code();
        match self {
            FallError::REMOTE_ERROR(_, body) => ErrorResponse {
                status,
                content: ErrorContent::Raw(body.clone()),
            },
            _ => ErrorResponse {
                status,
                content: ErrorContent::Json(
                    ErrorBody { trace_id, status, message: self.to_string() },
                ),
            },
        }
    }
}

} // verus!
