//! Startup configuration values. The shell parses the config file and
//! hands these plain values in; nothing here is re-read at runtime.
use vstd::prelude::*;

verus! {

/// The performance-display settings read once at startup.
#[derive(Copy, Clone, PartialEq, Eq, Structural, Debug)]
pub struct Performance {
    pub show_fps: bool,
    pub fps_cap: u8,
}

/// One configuration entry.
#[derive(Copy, Clone, PartialEq, Eq, Structural, Debug)]
pub enum Config {
    Performance(Performance),
}

impl Default for Config {
    /// The configuration used when the file supplies none.
    fn default() -> (c: Config)
        ensures
            c == Config::Performance(Performance { show_fps: true, fps_cap: 144 }),
    {
        Config::Performance(Performance { show_fps: true, fps_cap: 144 })
    }
}

} // verus!
