//! Why the tools could not be found or asked.
use vstd::prelude::*;

use crate::backend::{IoError, IoErrorView};
use crate::path::FilePath;
use crate::text;

verus! {

/// Why a tool could not be found or understood.
#[derive(Debug, PartialEq, Eq)]
pub enum BackendError {
    /// A tool is not where it should be.
    ExecutableNotFound {
        /// The tool.
        name: &'static str,
        /// Where it should be.
        path: FilePath,
    },
    /// A tool wrote something that it should not.
    Protocol {
        /// What it was.
        message: String,
    },
}

/// Why a tool could not be found or understood.
pub enum BackendErrorView {
    /// A tool is not where it should be.
    ExecutableNotFound {
        /// The tool.
        name: Seq<char>,
        /// Where it should be.
        path: Seq<u8>,
    },
    /// A tool wrote something that it should not.
    Protocol {
        /// What it was.
        message: Seq<char>,
    },
}

impl View for BackendError {
    type V = BackendErrorView;

    open spec fn view(&self) -> BackendErrorView {
        match self {
            BackendError::ExecutableNotFound { name, path } => BackendErrorView::ExecutableNotFound {
                name: name@,
                path: path@,
            },
            BackendError::Protocol { message } => BackendErrorView::Protocol {
                message: message@,
            },
        }
    }
}

impl DeepView for BackendError {
    type V = BackendErrorView;

    open spec fn deep_view(&self) -> BackendErrorView {
        self@
    }
}

impl BackendErrorView {
    /// The user-facing description.
    pub open spec fn message(self) -> Seq<char> {
        match self {
            BackendErrorView::ExecutableNotFound { name, path } => "required executable `"@ + name + "` was not found at "@ + text::lossy(path),
            BackendErrorView::Protocol { message } => "invalid FFmpeg protocol data: "@ + message,
        }
    }
}

impl BackendError {
    /// The user-facing description.
    pub fn message(&self) -> (r: String)
        ensures
            r@ == self@.message(),
    {
        match self {
            BackendError::ExecutableNotFound { name, path } => {
                let mut out = text::concat3("required executable `", name, "` was not found at ");
                text::push_text(&mut out, path.display().as_str());
                out
            },
            BackendError::Protocol { message } => text::concat2("invalid FFmpeg protocol data: ", message.as_str()),
        }
    }
}

/// Why a tool could not be found or asked.
#[derive(Debug, PartialEq, Eq)]
pub enum ToolError {
    /// A tool is not where it should be.
    ExecutableNotFound {
        /// The tool.
        name: &'static str,
        /// Where it should be.
        path: FilePath,
    },
    /// A path names neither a directory nor the conversion tool.
    InvalidPath {
        /// The path.
        path: FilePath,
    },
    /// A tool is not on the search path.
    PathLookup {
        /// The tool.
        name: &'static str,
    },
    /// A tool could not be started.
    Spawn {
        /// The tool.
        name: &'static str,
        /// Where it is.
        path: FilePath,
        /// What went wrong.
        source: IoError,
    },
    /// A tool could not be read or waited for.
    DiagnosticIo {
        /// The tool.
        name: &'static str,
        /// What was tried.
        operation: &'static str,
        /// What went wrong.
        source: IoError,
    },
    /// A tool reported a failure.
    DiagnosticFailed {
        /// The tool.
        name: &'static str,
        /// Its diagnostics.
        stderr: String,
    },
    /// A tool wrote something that it should not.
    Protocol {
        /// What it was.
        message: String,
    },
    /// The question was cancelled and the tool was reaped.
    Cancelled,
}

/// Why a tool could not be found or asked.
pub enum ToolErrorView {
    /// A tool is not where it should be.
    ExecutableNotFound {
        /// The tool.
        name: Seq<char>,
        /// Where it should be.
        path: Seq<u8>,
    },
    /// A path names neither a directory nor the conversion tool.
    InvalidPath {
        /// The path.
        path: Seq<u8>,
    },
    /// A tool is not on the search path.
    PathLookup {
        /// The tool.
        name: Seq<char>,
    },
    /// A tool could not be started.
    Spawn {
        /// The tool.
        name: Seq<char>,
        /// Where it is.
        path: Seq<u8>,
        /// What went wrong.
        source: IoErrorView,
    },
    /// A tool could not be read or waited for.
    DiagnosticIo {
        /// The tool.
        name: Seq<char>,
        /// What was tried.
        operation: Seq<char>,
        /// What went wrong.
        source: IoErrorView,
    },
    /// A tool reported a failure.
    DiagnosticFailed {
        /// The tool.
        name: Seq<char>,
        /// Its diagnostics.
        stderr: Seq<char>,
    },
    /// A tool wrote something that it should not.
    Protocol {
        /// What it was.
        message: Seq<char>,
    },
    /// The question was cancelled and the tool was reaped.
    Cancelled,
}

impl View for ToolError {
    type V = ToolErrorView;

    open spec fn view(&self) -> ToolErrorView {
        match self {
            ToolError::ExecutableNotFound { name, path } => ToolErrorView::ExecutableNotFound {
                name: name@,
                path: path@,
            },
            ToolError::InvalidPath { path } => ToolErrorView::InvalidPath {
                path: path@,
            },
            ToolError::PathLookup { name } => ToolErrorView::PathLookup {
                name: name@,
            },
            ToolError::Spawn { name, path, source } => ToolErrorView::Spawn {
                name: name@,
                path: path@,
                source: source@,
            },
            ToolError::DiagnosticIo { name, operation, source } => ToolErrorView::DiagnosticIo {
                name: name@,
                operation: operation@,
                source: source@,
            },
            ToolError::DiagnosticFailed { name, stderr } => ToolErrorView::DiagnosticFailed {
                name: name@,
                stderr: stderr@,
            },
            ToolError::Protocol { message } => ToolErrorView::Protocol {
                message: message@,
            },
            ToolError::Cancelled => ToolErrorView::Cancelled,
        }
    }
}

impl DeepView for ToolError {
    type V = ToolErrorView;

    open spec fn deep_view(&self) -> ToolErrorView {
        self@
    }
}

impl ToolErrorView {
    /// The user-facing description.
    pub open spec fn message(self) -> Seq<char> {
        match self {
            ToolErrorView::ExecutableNotFound { name, path } => "required executable `"@ + name + "` was not found at "@ + text::lossy(path),
            ToolErrorView::InvalidPath { path } => "path is neither a directory nor an FFmpeg executable: "@ + text::lossy(path),
            ToolErrorView::PathLookup { name } => "required executable `"@ + name + "` was not found on PATH"@,
            ToolErrorView::Spawn { name, path, source } => "failed to launch `"@ + name + "` at "@ + text::lossy(path) + ": "@ + source.message,
            ToolErrorView::DiagnosticIo { name, operation, source } => "failed to "@ + operation + " `"@ + name + "`: "@ + source.message,
            ToolErrorView::DiagnosticFailed { name, stderr } => "`"@ + name + "` reported a failure: "@ + stderr,
            ToolErrorView::Protocol { message } => "invalid FFmpeg protocol data: "@ + message,
            ToolErrorView::Cancelled => "FFmpeg diagnostic cancelled"@,
        }
    }
}

impl ToolError {
    /// The user-facing description.
    pub fn message(&self) -> (r: String)
        ensures
            r@ == self@.message(),
    {
        match self {
            ToolError::ExecutableNotFound { name, path } => {
                let mut out = text::concat3("required executable `", name, "` was not found at ");
                text::push_text(&mut out, path.display().as_str());
                out
            },
            ToolError::InvalidPath { path } => text::concat2("path is neither a directory nor an FFmpeg executable: ", path.display().as_str()),
            ToolError::PathLookup { name } => text::concat3("required executable `", name, "` was not found on PATH"),
            ToolError::Spawn { name, path, source } => {
                let mut out = text::concat3("failed to launch `", name, "` at ");
                text::push_text(&mut out, path.display().as_str());
                text::push_text(&mut out, ": ");
                text::push_text(&mut out, source.message());
                out
            },
            ToolError::DiagnosticIo { name, operation, source } => {
                let mut out = text::concat3("failed to ", operation, " `");
                text::push_text(&mut out, name);
                text::push_text(&mut out, "`: ");
                text::push_text(&mut out, source.message());
                out
            },
            ToolError::DiagnosticFailed { name, stderr } => {
                let mut out = text::concat3("`", name, "` reported a failure: ");
                text::push_text(&mut out, stderr.as_str());
                out
            },
            ToolError::Protocol { message } => text::concat2("invalid FFmpeg protocol data: ", message.as_str()),
            ToolError::Cancelled => "FFmpeg diagnostic cancelled".to_owned(),
        }
    }
}

} // verus!
