use vstd::prelude::*;

verus! {

/// Internal failure taxonomy: store failure, filesystem failure, missing
/// record, field validation, document decode failure, unclassified failure.
#[derive(Debug, Clone)]
pub enum AppError {
    DbError(String),
    IoError(String),
    NotFound(String),
    ValidationError(String),
    JsonError(String),
    Unknown(String),
}

/// External error shape: a stable code plus a human-readable message.
#[derive(Debug, Clone)]
pub struct ApiError {
    pub code: String,
    pub message: String,
}

/// The stable external code of each internal failure kind.
pub open spec fn code_of(e: AppError) -> Seq<char> {
    match e {
        AppError::DbError(_) => "DB_ERROR"@,
        AppError::IoError(_) => "IO_ERROR"@,
        AppError::NotFound(_) => "NOT_FOUND"@,
        AppError::ValidationError(_) => "VALIDATION_ERROR"@,
        AppError::JsonError(_) => "JSON_ERROR"@,
        AppError::Unknown(_) => "UNKNOWN"@,
    }
}

/// The external message of each internal failure kind: the carried text,
/// prefixed for the kinds that wrap a lower-level failure.
pub open spec fn message_of(e: AppError) -> Seq<char> {
    match e {
        AppError::DbError(m) => "database operation failed: "@ + m@,
        AppError::IoError(m) => "file access failed: "@ + m@,
        AppError::NotFound(m) => m@,
        AppError::ValidationError(m) => m@,
        AppError::JsonError(m) => "document decoding failed: "@ + m@,
        AppError::Unknown(m) => m@,
    }
}

impl ApiError {
    /// Maps an internal failure one-to-one onto the external vocabulary.
    pub fn from(err: AppError) -> (r: ApiError)
        ensures
            r.code@ == code_of(err),
            r.message@ == message_of(err),
    {
        match err {
            AppError::DbError(m) => ApiError {
                code: String::from_str("DB_ERROR"),
                message: String::from_str("database operation failed: ").concat(m.as_str()),
            },
            AppError::IoError(m) => ApiError {
                code: String::from_str("IO_ERROR"),
                message: String::from_str("file access failed: ").concat(m.as_str()),
            },
            AppError::NotFound(m) => ApiError { code: String::from_str("NOT_FOUND"), message: m },
            AppError::ValidationError(m) => ApiError {
                code: String::from_str("VALIDATION_ERROR"),
                message: m,
            },
            AppError::JsonError(m) => ApiError {
                code: String::from_str("JSON_ERROR"),
                message: String::from_str("document decoding failed: ").concat(m.as_str()),
            },
            AppError::Unknown(m) => ApiError { code: String::from_str("UNKNOWN"), message: m },
        }
    }

    /// Renders the error as `[CODE] message`, the display shape of the
    /// external error.
    pub fn render(&self) -> (r: String)
        ensures
            r@ == "["@ + self.code@ + "] "@ + self.message@,
    {
        let mut s = String::from_str("[");
        s.append(self.code.as_str());
        s.append("] ");
        s.append(self.message.as_str());
        s
    }
}

} // verus!
