//! Why the work on a file failed.
use vstd::prelude::*;

use crate::backend::{BackendError, BackendErrorView, IoError, IoErrorView};
use crate::error::{CoreError, CoreErrorView};
use crate::execution::{ExecutionError, ExecutionErrorView};
use crate::plan::{PlanError, PlanErrorView};
use crate::text;

verus! {

/// Why the work on a file failed.
#[derive(Debug, PartialEq, Eq)]
pub enum RuntimeError {
    /// The request makes no sense.
    Core(CoreError),
    /// The media backend failed.
    Backend(BackendError),
    /// No plan could be made.
    Plan(PlanError),
    /// No output was published.
    Execution(ExecutionError),
    /// The output path could not be inspected.
    InspectOutput {
        /// What went wrong.
        source: IoError,
    },
}

/// Why the work on a file failed.
pub enum RuntimeErrorView {
    /// The request makes no sense.
    Core(CoreErrorView),
    /// The media backend failed.
    Backend(BackendErrorView),
    /// No plan could be made.
    Plan(PlanErrorView),
    /// No output was published.
    Execution(ExecutionErrorView),
    /// The output path could not be inspected.
    InspectOutput {
        /// What went wrong.
        source: IoErrorView,
    },
}

impl View for RuntimeError {
    type V = RuntimeErrorView;

    open spec fn view(&self) -> RuntimeErrorView {
        match self {
            RuntimeError::Core(value) => RuntimeErrorView::Core(value@),
            RuntimeError::Backend(value) => RuntimeErrorView::Backend(value@),
            RuntimeError::Plan(value) => RuntimeErrorView::Plan(value@),
            RuntimeError::Execution(value) => RuntimeErrorView::Execution(value@),
            RuntimeError::InspectOutput { source } => RuntimeErrorView::InspectOutput {
                source: source@,
            },
        }
    }
}

impl DeepView for RuntimeError {
    type V = RuntimeErrorView;

    open spec fn deep_view(&self) -> RuntimeErrorView {
        self@
    }
}

impl RuntimeErrorView {
    /// The user-facing description.
    pub open spec fn message(self) -> Seq<char> {
        match self {
            RuntimeErrorView::Core(value) => value.message(),
            RuntimeErrorView::Backend(value) => value.message(),
            RuntimeErrorView::Plan(value) => value.message(),
            RuntimeErrorView::Execution(value) => value.message(),
            RuntimeErrorView::InspectOutput { source } => "failed to inspect existing output: "@ + source.message,
        }
    }
}

impl RuntimeError {
    /// The user-facing description.
    pub fn message(&self) -> (r: String)
        ensures
            r@ == self@.message(),
    {
        match self {
            RuntimeError::Core(value) => value.message(),
            RuntimeError::Backend(value) => value.message(),
            RuntimeError::Plan(value) => value.message(),
            RuntimeError::Execution(value) => value.message(),
            RuntimeError::InspectOutput { source } => text::concat2("failed to inspect existing output: ", source.message()),
        }
    }
}

/// Whether a failure is a cancellation.
pub open spec fn is_cancellation(error: RuntimeErrorView) -> bool {
    ||| error matches RuntimeErrorView::Backend(BackendErrorView::Cancelled)
    ||| error matches RuntimeErrorView::Execution(ExecutionErrorView::Cancelled)
}

/// Whether a failure is a cancellation.
pub fn runtime_error_cancelled(error: &RuntimeError) -> (r: bool)
    ensures
        r == is_cancellation(error@),
{
    match error {
        RuntimeError::Backend(BackendError::Cancelled) => true,
        RuntimeError::Execution(ExecutionError::Cancelled) => true,
        _ => false,
    }
}

} // verus!
