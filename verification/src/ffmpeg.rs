//! The `ffmpeg` and `ffprobe` tools: arguments, protocols and discovery.
pub mod command;
pub mod command_laws;
pub mod progress;
pub mod progress_laws;
pub mod probe;
pub mod probe_laws;
pub mod error;
pub mod discovery;
pub mod capabilities;
pub mod capabilities_laws;
pub mod process;
pub mod execute;

use vstd::prelude::*;

verus! {

/// The name of the layer that runs the tools.
pub const CRATE_NAME: &'static str = "sonicmux-ffmpeg";

/// The name of the layer that plans.
pub fn domain_crate_name() -> (r: &'static str)
    ensures
        r@ == "sonicmux-core"@,
{
    crate::CRATE_NAME
}

} // verus!
