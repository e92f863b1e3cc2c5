//! Why a request makes no sense.
use vstd::prelude::*;

use crate::text;

verus! {

/// Why a request makes no sense.
#[derive(Debug, PartialEq, Eq)]
pub enum CoreError {
    /// A setting breaks a rule.
    InvalidConfiguration {
        /// Which.
        message: String,
    },
}

/// Why a request makes no sense.
pub enum CoreErrorView {
    /// A setting breaks a rule.
    InvalidConfiguration {
        /// Which.
        message: Seq<char>,
    },
}

impl View for CoreError {
    type V = CoreErrorView;

    open spec fn view(&self) -> CoreErrorView {
        match self {
            CoreError::InvalidConfiguration { message } => CoreErrorView::InvalidConfiguration {
                message: message@,
            },
        }
    }
}

impl DeepView for CoreError {
    type V = CoreErrorView;

    open spec fn deep_view(&self) -> CoreErrorView {
        self@
    }
}

impl Clone for CoreError {
    fn clone(&self) -> (r: Self)
        ensures
            r@ == self@,
    {
        match self {
            CoreError::InvalidConfiguration { message } => CoreError::InvalidConfiguration {
                message: message.clone(),
            },
        }
    }
}

impl CoreErrorView {
    /// The user-facing description.
    pub open spec fn message(self) -> Seq<char> {
        match self {
            CoreErrorView::InvalidConfiguration { message } => "invalid configuration: "@ + message,
        }
    }
}

impl CoreError {
    /// The user-facing description.
    pub fn message(&self) -> (r: String)
        ensures
            r@ == self@.message(),
    {
        match self {
            CoreError::InvalidConfiguration { message } => text::concat2("invalid configuration: ", message.as_str()),
        }
    }
}

} // verus!
