//! The error type of every operation of the engine.

use crate::text::concat;
use vstd::prelude::*;

verus! {

/// What went wrong, with the detail that the failing operation gives.
#[derive(Debug)]
pub enum AppError {
    FileNotFound(String),
    PermissionDenied(String),
    InvalidPath(String),
    FileExists(String),
    InvalidFileName(String),
    IoError(String),
    DatabaseError(String),
    NotAllowed(String),
    UndoFailed(String),
    Unknown(String),
}

/// An error as contracts see it: the variant and the detail as text.
pub enum AppErrorView {
    FileNotFound(Seq<char>),
    PermissionDenied(Seq<char>),
    InvalidPath(Seq<char>),
    FileExists(Seq<char>),
    InvalidFileName(Seq<char>),
    IoError(Seq<char>),
    DatabaseError(Seq<char>),
    NotAllowed(Seq<char>),
    UndoFailed(Seq<char>),
    Unknown(Seq<char>),
}

impl AppErrorView {
    /// The detail that the variant carries.
    pub open spec fn detail(self) -> Seq<char> {
        match self {
            AppErrorView::FileNotFound(d) => d,
            AppErrorView::PermissionDenied(d) => d,
            AppErrorView::InvalidPath(d) => d,
            AppErrorView::FileExists(d) => d,
            AppErrorView::InvalidFileName(d) => d,
            AppErrorView::IoError(d) => d,
            AppErrorView::DatabaseError(d) => d,
            AppErrorView::NotAllowed(d) => d,
            AppErrorView::UndoFailed(d) => d,
            AppErrorView::Unknown(d) => d,
        }
    }

    /// The stable code by which a caller tells the variants apart.
    pub open spec fn code(self) -> Seq<char> {
        match self {
            AppErrorView::FileNotFound(_) => "FILE_NOT_FOUND"@,
            AppErrorView::PermissionDenied(_) => "PERMISSION_DENIED"@,
            AppErrorView::InvalidPath(_) => "INVALID_PATH"@,
            AppErrorView::FileExists(_) => "FILE_EXISTS"@,
            AppErrorView::InvalidFileName(_) => "INVALID_FILE_NAME"@,
            AppErrorView::IoError(_) => "IO_ERROR"@,
            AppErrorView::DatabaseError(_) => "DATABASE_ERROR"@,
            AppErrorView::NotAllowed(_) => "NOT_ALLOWED"@,
            AppErrorView::UndoFailed(_) => "UNDO_FAILED"@,
            AppErrorView::Unknown(_) => "UNKNOWN_ERROR"@,
        }
    }

    /// The words that open the rendered message.
    pub open spec fn label(self) -> Seq<char> {
        match self {
            AppErrorView::FileNotFound(_) => "File not found: "@,
            AppErrorView::PermissionDenied(_) => "Permission denied: "@,
            AppErrorView::InvalidPath(_) => "Invalid path: "@,
            AppErrorView::FileExists(_) => "File already exists: "@,
            AppErrorView::InvalidFileName(_) => "Invalid file name: "@,
            AppErrorView::IoError(_) => "IO error: "@,
            AppErrorView::DatabaseError(_) => "Database error: "@,
            AppErrorView::NotAllowed(_) => "Operation not allowed: "@,
            AppErrorView::UndoFailed(_) => "Undo failed: "@,
            AppErrorView::Unknown(_) => "Unknown error: "@,
        }
    }

    /// The rendered message: the label, then the detail.
    pub open spec fn rendered(self) -> Seq<char> {
        self.label() + self.detail()
    }
}

impl View for AppError {
    type V = AppErrorView;

    open spec fn view(&self) -> AppErrorView {
        match self {
            AppError::FileNotFound(d) => AppErrorView::FileNotFound(d@),
            AppError::PermissionDenied(d) => AppErrorView::PermissionDenied(d@),
            AppError::InvalidPath(d) => AppErrorView::InvalidPath(d@),
            AppError::FileExists(d) => AppErrorView::FileExists(d@),
            AppError::InvalidFileName(d) => AppErrorView::InvalidFileName(d@),
            AppError::IoError(d) => AppErrorView::IoError(d@),
            AppError::DatabaseError(d) => AppErrorView::DatabaseError(d@),
            AppError::NotAllowed(d) => AppErrorView::NotAllowed(d@),
            AppError::UndoFailed(d) => AppErrorView::UndoFailed(d@),
            AppError::Unknown(d) => AppErrorView::Unknown(d@),
        }
    }
}

impl AppError {
    /// The stable code of the variant.
    pub fn error_code(&self) -> (code: &'static str)
        ensures
            code@ == self@.code(),
    {
        match self {
            AppError::FileNotFound(_) => "FILE_NOT_FOUND",
            AppError::PermissionDenied(_) => "PERMISSION_DENIED",
            AppError::InvalidPath(_) => "INVALID_PATH",
            AppError::FileExists(_) => "FILE_EXISTS",
            AppError::InvalidFileName(_) => "INVALID_FILE_NAME",
            AppError::IoError(_) => "IO_ERROR",
            AppError::DatabaseError(_) => "DATABASE_ERROR",
            AppError::NotAllowed(_) => "NOT_ALLOWED",
            AppError::UndoFailed(_) => "UNDO_FAILED",
            AppError::Unknown(_) => "UNKNOWN_ERROR",
        }
    }

    /// The detail that the variant carries.
    pub fn detail(&self) -> (d: &String)
        ensures
            d@ == self@.detail(),
    {
        match self {
            AppError::FileNotFound(d) => d,
            AppError::PermissionDenied(d) => d,
            AppError::InvalidPath(d) => d,
            AppError::FileExists(d) => d,
            AppError::InvalidFileName(d) => d,
            AppError::IoError(d) => d,
            AppError::DatabaseError(d) => d,
            AppError::NotAllowed(d) => d,
            AppError::UndoFailed(d) => d,
            AppError::Unknown(d) => d,
        }
    }

    /// The message shown to a person: the variant's label, then the detail.
    pub fn to_string(&self) -> (s: String)
        ensures
            s@ == self@.rendered(),
    {
        let label: &str = match self {
            AppError::FileNotFound(_) => "File not found: ",
            AppError::PermissionDenied(_) => "Permission denied: ",
            AppError::InvalidPath(_) => "Invalid path: ",
            AppError::FileExists(_) => "File already exists: ",
            AppError::InvalidFileName(_) => "Invalid file name: ",
            AppError::IoError(_) => "IO error: ",
            AppError::DatabaseError(_) => "Database error: ",
            AppError::NotAllowed(_) => "Operation not allowed: ",
            AppError::UndoFailed(_) => "Undo failed: ",
            AppError::Unknown(_) => "Unknown error: ",
        };
        concat(label, self.detail().as_str())
    }

    /// The error for a failure that the filesystem reported, under its message.
    pub fn from_io(message: String) -> (e: AppError)
        ensures
            e@ == AppErrorView::IoError(message@),
    {
        AppError::IoError(message)
    }

    /// The error for a failure that the journal's store reported, under its message.
    pub fn from_store(message: String) -> (e: AppError)
        ensures
            e@ == AppErrorView::DatabaseError(message@),
    {
        AppError::DatabaseError(message)
    }
}

} // verus!
