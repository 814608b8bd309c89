use vstd::prelude::*;

verus! {

/// Window settings read once at startup from an external key-value source and
/// held immutably by the engine for the rest of the run.  When the source is
/// missing or unreadable the engine falls back to `WindowConfig::default()`:
/// a 256 x 256 window, neither fullscreen nor resizable.
#[derive(Clone, Copy, Debug, PartialEq, Eq, Structural)]
pub struct WindowConfig {
    pub width: u32,
    pub height: u32,
    pub fullscreen: bool,
    pub resizable: bool,
}

/// Top-level configuration owned by the engine.
#[derive(Clone, Copy, Debug, PartialEq, Eq, Structural)]
pub struct Config {
    pub window: WindowConfig,
}

impl Default for WindowConfig {
    /// The documented fallback: a 256 x 256 window, windowed and fixed-size.
    fn default() -> (c: Self)
        ensures
            c.width == 256,
            c.height == 256,
            !c.fullscreen,
            !c.resizable,
    {
        WindowConfig { width: 256, height: 256, fullscreen: false, resizable: false }
    }
}

impl Default for Config {
    /// A configuration holding the default window settings.
    fn default() -> (c: Self)
        ensures
            c.window.width == 256,
            c.window.height == 256,
            !c.window.fullscreen,
            !c.window.resizable,
    {
        Config { window: WindowConfig::default() }
    }
}

} // verus!
