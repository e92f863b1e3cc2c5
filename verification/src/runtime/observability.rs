//! What is logged.
use vstd::prelude::*;

use crate::runtime::config::{EnvironmentText, EnvironmentTextView};
use crate::text;

verus! {

/// What is logged where nothing else was asked for.
pub const DEFAULT_FILTER: &'static str = "info";

/// Why logging could not be set up.
#[derive(Debug, PartialEq, Eq)]
pub enum ObservabilityError {
    /// The filter that was asked for cannot be used.
    InvalidFilter {
        /// What is wrong with it, without the filter itself.
        reason: String,
    },
    /// Logging was set up before.
    InstallSubscriber {
        /// What went wrong.
        reason: String,
    },
}

/// Why logging could not be set up.
pub enum ObservabilityErrorView {
    /// The filter that was asked for cannot be used.
    InvalidFilter {
        /// What is wrong with it, without the filter itself.
        reason: Seq<char>,
    },
    /// Logging was set up before.
    InstallSubscriber {
        /// What went wrong.
        reason: Seq<char>,
    },
}

impl View for ObservabilityError {
    type V = ObservabilityErrorView;

    open spec fn view(&self) -> ObservabilityErrorView {
        match self {
            ObservabilityError::InvalidFilter { reason } => ObservabilityErrorView::InvalidFilter {
                reason: reason@,
            },
            ObservabilityError::InstallSubscriber { reason } => ObservabilityErrorView::InstallSubscriber {
                reason: reason@,
            },
        }
    }
}

impl DeepView for ObservabilityError {
    type V = ObservabilityErrorView;

    open spec fn deep_view(&self) -> ObservabilityErrorView {
        self@
    }
}

impl ObservabilityErrorView {
    /// The user-facing description.
    pub open spec fn message(self) -> Seq<char> {
        match self {
            ObservabilityErrorView::InvalidFilter { reason } => "RUST_LOG is not a valid tracing filter: "@ + reason,
            ObservabilityErrorView::InstallSubscriber { reason } => "failed to install the tracing subscriber: "@ + reason,
        }
    }
}

impl ObservabilityError {
    /// The user-facing description.
    pub fn message(&self) -> (r: String)
        ensures
            r@ == self@.message(),
    {
        match self {
            ObservabilityError::InvalidFilter { reason } => text::concat2("RUST_LOG is not a valid tracing filter: ", reason.as_str()),
            ObservabilityError::InstallSubscriber { reason } => text::concat2("failed to install the tracing subscriber: ", reason.as_str()),
        }
    }
}

/// What is to be logged, given what the environment asks for. What is no text is not ignored.
pub fn tracing_filter(variable: EnvironmentText) -> (r: Result<String, ObservabilityError>)
    ensures
        match (r, variable@) {
            (Ok(filter), EnvironmentTextView::Text(value)) => filter@ == value,
            (Ok(filter), EnvironmentTextView::Absent) => filter@ == DEFAULT_FILTER@,
            (Err(e), EnvironmentTextView::NotUnicode) => e@ == (
            ObservabilityErrorView::InvalidFilter { reason: "the value is not valid Unicode"@ }),
            _ => false,
        },
{
    match variable {
        EnvironmentText::Text(value) => Ok(value),
        EnvironmentText::Absent => Ok(DEFAULT_FILTER.to_owned()),
        EnvironmentText::NotUnicode => Err(
            ObservabilityError::InvalidFilter {
                reason: "the value is not valid Unicode".to_owned(),
            },
        ),
    }
}

} // verus!
