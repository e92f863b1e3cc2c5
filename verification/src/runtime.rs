//! Settings, discovery of inputs and the work on many files.
pub mod config;
pub mod config_laws;
pub mod discovery;
pub mod discovery_laws;
pub mod error;
pub mod application;
pub mod prepare;
pub mod prepare_laws;
pub mod batch;
pub mod batch_laws;
pub mod scheduler;
pub mod scheduler_laws;
pub mod observability;

use vstd::prelude::*;

verus! {

/// The name of the layer that works on many files.
pub const CRATE_NAME: &'static str = "sonicmux-runtime";

/// The names of the layers below the interfaces, from the bottom up.
pub fn application_layers() -> (r: [&'static str; 3])
    ensures
        r@.len() == 3,
        r@[0]@ == "sonicmux-core"@,
        r@[1]@ == "sonicmux-ffmpeg"@,
        r@[2]@ == "sonicmux-runtime"@,
{
    [crate::CRATE_NAME, crate::ffmpeg::CRATE_NAME, CRATE_NAME]
}

} // verus!
