//! Planning, validation and scheduling of Matroska audio conversions.

pub mod text;
pub mod text_laws;
pub mod number;
pub mod table;
pub mod path;
pub mod path_laws;
pub mod model;
pub mod stream;
pub mod stream_laws;
pub mod media;
pub mod media_laws;
pub mod policy;
pub mod policy_laws;
pub mod target;
pub mod plan;
pub mod plan_laws;
pub mod validate;
pub mod validate_laws;
pub mod backend;
pub mod error;
pub mod execution;
pub mod execution_laws;
pub mod ffmpeg;
pub mod runtime;
pub mod cli;
pub mod session;
pub mod session_laws;
pub mod queue;
pub mod queue_laws;
pub mod tui;
pub mod gui;

use vstd::prelude::*;

verus! {

/// The name of the layer that plans.
pub const CRATE_NAME: &'static str = "sonicmux-core";

} // verus!
