//! The error type of the service and what it answers over HTTP: for each
//! kind the status code and the exact message body. Errors born from outside
//! the library — the driver, the hasher, the signer — arrive here already
//! rendered to text by the boundary that met them.

use vstd::prelude::*;

verus! {

/// The failures the service can answer with. Each variant carries the
/// detail text that completes its message.
#[derive(Debug)]
pub enum AppError {
    EmailNotFound(String),
    EmailAlreadyExists(String),
    FileNotFound(String),
    IoError(String),
    InvalidHeaderValue(String),
    MultipartError(String),
    SqlxError(String),
    PasswordHashError(String),
    SignError(String),
    CreateChatError(String),
    ChatFileError(String),
}

/// The message the error renders to: its prefix, naming the kind, followed
/// by the detail.
pub open spec fn spec_message(e: &AppError) -> Seq<char> {
    match e {
        AppError::EmailNotFound(s) => "email not found: "@ + s@,
        AppError::EmailAlreadyExists(s) => "email already exists: "@ + s@,
        AppError::FileNotFound(s) => "file not found: "@ + s@,
        AppError::IoError(s) => "io error: "@ + s@,
        AppError::InvalidHeaderValue(s) => "invalid header value error: "@ + s@,
        AppError::MultipartError(s) => "multipart error: "@ + s@,
        AppError::SqlxError(s) => "sql error: "@ + s@,
        AppError::PasswordHashError(s) => "password hash error: "@ + s@,
        AppError::SignError(s) => "jwt sign hash error: "@ + s@,
        AppError::CreateChatError(s) => "create chat error: "@ + s@,
        AppError::ChatFileError(s) => "chat file error: "@ + s@,
    }
}

impl AppError {
    /// The HTTP status the error is answered with: `404` for a missing
    /// email, `409` for a taken one, `403` for a failed hash or signature,
    /// `400` for a rejected chat creation, `500` for everything else.
    pub fn status_code(&self) -> (r: u16)
        ensures
            r == match self {
                AppError::EmailNotFound(_) => 404u16,
                AppError::EmailAlreadyExists(_) => 409u16,
                AppError::PasswordHashError(_) => 403u16,
                AppError::SignError(_) => 403u16,
                AppError::CreateChatError(_) => 400u16,
                _ => 500u16,
            },
    {
        match self {
            AppError::EmailNotFound(_) => 404,
            AppError::EmailAlreadyExists(_) => 409,
            AppError::PasswordHashError(_) => 403,
            AppError::SignError(_) => 403,
            AppError::CreateChatError(_) => 400,
            _ => 500,
        }
    }

    /// Renders [`spec_message`].
    pub fn message(&self) -> (r: String)
        ensures
            r@ == spec_message(self),
    {
        let mut out = String::new();
        match self {
            AppError::EmailNotFound(s) => {
                out.append("email not found: ");
                out.append(s.as_str());
            },
            AppError::EmailAlreadyExists(s) => {
                out.append("email already exists: ");
                out.append(s.as_str());
            },
            AppError::FileNotFound(s) => {
                out.append("file not found: ");
                out.append(s.as_str());
            },
            AppError::IoError(s) => {
                out.append("io error: ");
                out.append(s.as_str());
            },
            AppError::InvalidHeaderValue(s) => {
                out.append("invalid header value error: ");
                out.append(s.as_str());
            },
            AppError::MultipartError(s) => {
                out.append("multipart error: ");
                out.append(s.as_str());
            },
            AppError::SqlxError(s) => {
                out.append("sql error: ");
                out.append(s.as_str());
            },
            AppError::PasswordHashError(s) => {
                out.append("password hash error: ");
                out.append(s.as_str());
            },
            AppError::SignError(s) => {
                out.append("jwt sign hash error: ");
                out.append(s.as_str());
            },
            AppError::CreateChatError(s) => {
                out.append("create chat error: ");
                out.append(s.as_str());
            },
            AppError::ChatFileError(s) => {
                out.append("chat file error: ");
                out.append(s.as_str());
            },
        }
        out
    }
}

/// The JSON body an error is answered with.
pub struct ErrorOutput {
    pub error: String,
}

impl ErrorOutput {
    /// Wraps a message for the response body.
    pub fn new(error: String) -> (r: ErrorOutput)
        ensures
            r.error == error,
    {
        ErrorOutput { error }
    }
}

} // verus!
