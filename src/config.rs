//! Feature switches and their defaults.

use vstd::prelude::*;

verus! {

/// Which parts of the replacement pipeline are on.
#[derive(Clone, Copy, Debug, PartialEq, Eq, Structural)]
pub struct Config {
    pub mods: bool,
    pub renderer: Renderer,
    pub display: Display,
    pub logging: Logging,
}

#[derive(Clone, Copy, Debug, PartialEq, Eq, Structural)]
pub struct Display {
    pub hdpi_fix: bool,
    pub vsync: bool,
}

#[derive(Clone, Copy, Debug, PartialEq, Eq, Structural)]
pub struct Renderer {
    pub hq_assets: bool,
    pub quick_toggle: bool,
    pub video_cutouts: bool,
}

#[derive(Clone, Copy, Debug, PartialEq, Eq, Structural)]
pub struct Logging {
    pub enabled: bool,
    pub debug: bool,
}

/// Default of a switch that is on unless turned off.
pub fn default_true() -> (r: bool)
    ensures
        r,
{
    true
}

/// Default of a switch that is off unless turned on.
pub fn default_false() -> (r: bool)
    ensures
        !r,
{
    false
}

impl Config {
    /// Everything on, debug logging off.
    pub fn new() -> (r: Config)
        ensures
            r.mods,
            r.renderer == Renderer::new_spec(),
            r.display == Display::new_spec(),
            r.logging == Logging::new_spec(),
    {
        Config { mods: default_true(), renderer: Renderer::new(), display: Display::new(), logging: Logging::new() }
    }

    /// The parsed configuration when there is one, else the defaults.
    pub fn load(parsed: Option<Config>) -> (r: Config)
        ensures
            parsed is Some ==> r == parsed.unwrap(),
            parsed is None ==> r.mods && r.renderer == Renderer::new_spec() && r.display == Display::new_spec()
                && r.logging == Logging::new_spec(),
    {
        match parsed {
            Some(c) => c,
            None => Config::new(),
        }
    }

    /// Whether replacement assets are hooked in: mods and HQ assets both on.
    pub fn hq_assets_enabled(&self) -> (r: bool)
        ensures
            r == (self.mods && self.renderer.hq_assets),
    {
        self.mods && self.renderer.hq_assets
    }
}

impl Display {
    pub open spec fn new_spec() -> Display {
        Display { hdpi_fix: true, vsync: true }
    }

    pub fn new() -> (r: Display)
        ensures
            r == Display::new_spec(),
    {
        Display { hdpi_fix: default_true(), vsync: default_true() }
    }
}

impl Renderer {
    pub open spec fn new_spec() -> Renderer {
        Renderer { hq_assets: true, quick_toggle: true, video_cutouts: true }
    }

    pub fn new() -> (r: Renderer)
        ensures
            r == Renderer::new_spec(),
    {
        Renderer { hq_assets: default_true(), quick_toggle: default_true(), video_cutouts: default_true() }
    }
}

impl Logging {
    pub open spec fn new_spec() -> Logging {
        Logging { enabled: true, debug: false }
    }

    pub fn new() -> (r: Logging)
        ensures
            r == Logging::new_spec(),
    {
        Logging { enabled: default_true(), debug: default_false() }
    }
}

} // verus!
