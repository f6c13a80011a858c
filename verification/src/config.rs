//! The gateway's configuration.
use vstd::prelude::*;

verus! {

/// The gateway's configuration, read from its configuration file.
pub struct Config {
    pub runtime: RuntimeConfig,
}

/// How functions are run.
pub struct RuntimeConfig {
    /// The image that function containers are made from (`base-image` in the file).
    pub base_image: String,
}

} // verus!
