//! The error type shared by every stage of the parser.

use vstd::prelude::*;

verus! {

/// I/O failures, carried through opaquely.
#[verifier::external_type_specification]
#[verifier::external_body]
pub struct ExIoError(std::io::Error);

/// JSON (de)serialisation failures from `serde_json`, carried through
/// opaquely.
#[verifier::external_type_specification]
#[verifier::external_body]
pub struct ExJsonError(serde_json::Error);

/// Errors of the parsing pipeline.
#[derive(Debug)]
pub enum SpdfError {
    /// An I/O error.
    Io(std::io::Error),
    /// A JSON error.
    Json(serde_json::Error),
    /// The document is password-protected.
    PasswordRequired,
    /// The password does not open the document.
    InvalidPassword,
    /// The input format is not supported.
    UnsupportedFormat(String),
    /// The PDF engine failed.
    Pdf(String),
    /// The OCR engine failed.
    Ocr(String),
    /// Converting the input to PDF failed.
    Conversion(String),
    /// The configuration is invalid.
    InvalidConfig(String),
    /// The input was rejected.
    InvalidInput(String),
}

/// Result alias used throughout the crate.
pub type SpdfResult<T> = Result<T, SpdfError>;

} // verus!
