//! Errors of the storage drivers.

use vstd::prelude::*;
use vstd::string::*;

verus! {

/// What went wrong in a storage driver.
#[derive(Debug, Clone, Copy, PartialEq, Eq, Structural)]
pub enum StorageErrorKind {
    NotFound,
    Auth,
    Permission,
    Misconfigured,
    Precondition,
    RateLimited,
    Transient,
    Unsupported,
    Unknown,
}

/// The code under which the API reports an error.
#[derive(Debug, Clone, Copy, PartialEq, Eq, Structural)]
pub enum ApiErrorCode {
    StorageNotFound,
    StorageAuth,
    StoragePermission,
    StorageMisconfigured,
    StoragePrecondition,
    StorageRateLimited,
    StorageTransient,
    StorageUnsupported,
    StorageUnknown,
}

/// The code under which an error of a kind is reported where it carries none.
pub open spec fn code_of_kind(kind: StorageErrorKind) -> ApiErrorCode {
    match kind {
        StorageErrorKind::NotFound => ApiErrorCode::StorageNotFound,
        StorageErrorKind::Auth => ApiErrorCode::StorageAuth,
        StorageErrorKind::Permission => ApiErrorCode::StoragePermission,
        StorageErrorKind::Misconfigured => ApiErrorCode::StorageMisconfigured,
        StorageErrorKind::Precondition => ApiErrorCode::StoragePrecondition,
        StorageErrorKind::RateLimited => ApiErrorCode::StorageRateLimited,
        StorageErrorKind::Transient => ApiErrorCode::StorageTransient,
        StorageErrorKind::Unsupported => ApiErrorCode::StorageUnsupported,
        StorageErrorKind::Unknown => ApiErrorCode::StorageUnknown,
    }
}

/// An error of a storage driver.
#[derive(Debug, Clone, PartialEq, Eq)]
pub struct AsterError {
    kind: StorageErrorKind,
    code: Option<ApiErrorCode>,
    message: String,
}

/// What an `AsterError` stands for.
pub struct Failure {
    pub kind: StorageErrorKind,
    /// The code that takes the place of the kind's own.
    pub code: Option<ApiErrorCode>,
    pub message: Seq<char>,
}

impl View for AsterError {
    type V = Failure;

    closed spec fn view(&self) -> Failure {
        Failure { kind: self.kind, code: self.code, message: self.message@ }
    }
}

/// The code under which a failure is reported.
pub open spec fn reported_code(failure: Failure) -> ApiErrorCode {
    match failure.code {
        Some(own) => own,
        None => code_of_kind(failure.kind),
    }
}

/// The failure of a step of the driver that is named by `context`.
pub open spec fn failed_step(context: Seq<char>, cause: Seq<char>) -> Failure {
    Failure { kind: StorageErrorKind::Unknown, code: None, message: context + ": "@ + cause }
}

impl AsterError {
    /// The error of a step of the driver that failed for `cause`.
    pub fn storage_driver_error(context: &str, cause: &str) -> (error: AsterError)
        ensures
            error@ == failed_step(context@, cause@),
    {
        let message: String = context.to_string().concat(": ").concat(cause);
        AsterError { kind: StorageErrorKind::Unknown, code: None, message }
    }

    /// What went wrong.
    pub fn kind(&self) -> (kind: StorageErrorKind)
        ensures
            kind == self@.kind,
    {
        self.kind
    }

    /// The text of the error.
    pub fn message(&self) -> (message: &str)
        ensures
            message@ == self@.message,
    {
        self.message.as_str()
    }

    /// The code that takes the place of the kind's own.
    pub fn api_error_code_override(&self) -> (code: Option<ApiErrorCode>)
        ensures
            code == self@.code,
    {
        self.code
    }

    /// The code under which the API reports the error.
    pub fn api_error_code(&self) -> (code: ApiErrorCode)
        ensures
            code == reported_code(self@),
    {
        if let Some(own) = self.code {
            return own;
        }
        match self.kind {
            StorageErrorKind::NotFound => ApiErrorCode::StorageNotFound,
            StorageErrorKind::Auth => ApiErrorCode::StorageAuth,
            StorageErrorKind::Permission => ApiErrorCode::StoragePermission,
            StorageErrorKind::Misconfigured => ApiErrorCode::StorageMisconfigured,
            StorageErrorKind::Precondition => ApiErrorCode::StoragePrecondition,
            StorageErrorKind::RateLimited => ApiErrorCode::StorageRateLimited,
            StorageErrorKind::Transient => ApiErrorCode::StorageTransient,
            StorageErrorKind::Unsupported => ApiErrorCode::StorageUnsupported,
            StorageErrorKind::Unknown => ApiErrorCode::StorageUnknown,
        }
    }
}

/// An error of a kind, reported under the kind's code.
pub fn storage_driver_error(kind: StorageErrorKind, message: String) -> (error: AsterError)
    ensures
        error@ == (Failure { kind, code: None, message: message@ }),
{
    AsterError { kind, code: None, message }
}

/// An error of a kind, reported under the given code.
pub fn storage_driver_error_with_code(
    kind: StorageErrorKind,
    code: ApiErrorCode,
    message: String,
) -> (error: AsterError)
    ensures
        error@ == (Failure { kind, code: Some(code), message: message@ }),
{
    AsterError { kind, code: Some(code), message }
}

} // verus!
