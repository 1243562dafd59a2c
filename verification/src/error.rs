//! The library's error type and its user-facing messages.
use vstd::prelude::*;

use crate::text::{push_str, string_of};

verus! {

/// Errors of Domainest operations. Errors that come from the operating
/// system or from JSON decoding carry their message.
#[derive(Debug)]
pub enum AppError {
    HomeDirUnavailable,
    Io { message: String },
    Json { message: String },
    StoreCorrupted { path: String },
    ToolMissing { tool: String, help: String },
    ToolFailed { tool: String, message: String },
}

/// The mathematical value of an [`AppError`].
pub enum ErrorView {
    HomeDirUnavailable,
    Io(Seq<char>),
    Json(Seq<char>),
    StoreCorrupted(Seq<char>),
    ToolMissing(Seq<char>, Seq<char>),
    ToolFailed(Seq<char>, Seq<char>),
}

impl View for AppError {
    type V = ErrorView;

    open spec fn view(&self) -> ErrorView {
        match self {
            AppError::HomeDirUnavailable => ErrorView::HomeDirUnavailable,
            AppError::Io { message } => ErrorView::Io(message@),
            AppError::Json { message } => ErrorView::Json(message@),
            AppError::StoreCorrupted { path } => ErrorView::StoreCorrupted(path@),
            AppError::ToolMissing { tool, help } => ErrorView::ToolMissing(tool@, help@),
            AppError::ToolFailed { tool, message } => ErrorView::ToolFailed(tool@, message@),
        }
    }
}

/// The text shown for an error.
pub open spec fn error_text(e: ErrorView) -> Seq<char> {
    match e {
        ErrorView::HomeDirUnavailable => "failed to determine home directory"@,
        ErrorView::Io(m) => "io error: "@ + m,
        ErrorView::Json(m) => "json error: "@ + m,
        ErrorView::StoreCorrupted(p) => "store is corrupted: "@ + p,
        ErrorView::ToolMissing(t, h) => t + " is not installed. "@ + h,
        ErrorView::ToolFailed(t, m) => t + " failed: "@ + m,
    }
}

/// Whether the command-line front end reports the error with exit code 2
/// (a tool is missing or failed) rather than 1.
pub open spec fn is_tool_error(e: ErrorView) -> bool {
    e is ToolMissing || e is ToolFailed
}

/// Builds `ToolFailed { tool, message }`.
pub fn tool_failed(tool: &str, message: &str) -> (e: AppError)
    ensures
        e@ == ErrorView::ToolFailed(tool@, message@),
{
    AppError::ToolFailed { tool: tool.to_string(), message: message.to_string() }
}

impl AppError {
    /// The text shown for this error.
    pub fn message(&self) -> (s: String)
        ensures
            s@ == error_text(self@),
    {
        let mut v: Vec<char> = Vec::new();
        match self {
            AppError::HomeDirUnavailable => {
                push_str(&mut v, "failed to determine home directory");
            },
            AppError::Io { message } => {
                push_str(&mut v, "io error: ");
                push_str(&mut v, message.as_str());
            },
            AppError::Json { message } => {
                push_str(&mut v, "json error: ");
                push_str(&mut v, message.as_str());
            },
            AppError::StoreCorrupted { path } => {
                push_str(&mut v, "store is corrupted: ");
                push_str(&mut v, path.as_str());
            },
            AppError::ToolMissing { tool, help } => {
                push_str(&mut v, tool.as_str());
                push_str(&mut v, " is not installed. ");
                push_str(&mut v, help.as_str());
            },
            AppError::ToolFailed { tool, message } => {
                push_str(&mut v, tool.as_str());
                push_str(&mut v, " failed: ");
                push_str(&mut v, message.as_str());
            },
        }
        string_of(&v)
    }

    /// The process exit code the command-line front end uses for this
    /// error.
    pub fn exit_code(&self) -> (c: i32)
        ensures
            c == (if is_tool_error(self@) { 2i32 } else { 1i32 }),
    {
        match self {
            AppError::ToolMissing { .. } | AppError::ToolFailed { .. } => 2,
            _ => 1,
        }
    }
}

/// Turns an error into the text handed to the dashboard.
pub fn map_err(e: AppError) -> (s: String)
    ensures
        s@ == error_text(e@),
{
    e.message()
}

} // verus!
