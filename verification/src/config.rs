//! Settings that the rendering layer around the game reads: sample
//! counts, mipmap depth and vertical sync. Plain data with fixed
//! defaults; the renderer itself lives outside this crate.

use vstd::prelude::*;

verus! {

/// Renderer settings.
#[derive(Clone, Copy, PartialEq, Eq, Structural, Debug)]
pub struct Config {
    /// Multisample anti-aliasing sample count.
    pub msaa_samples: u32,
    /// Number of texture mipmap levels to generate.
    pub mipmap_levels: u32,
    /// Whether presentation waits for vertical sync.
    pub vsync: bool,
}

impl Config {
    /// The default settings: 4x MSAA, 6 mipmap levels, vsync on.
    pub fn new() -> (c: Config)
        ensures
            c == (Config { msaa_samples: 4u32, mipmap_levels: 6u32, vsync: true }),
    {
        Config { msaa_samples: 4, mipmap_levels: 6, vsync: true }
    }
}

} // verus!
