//! Which groups of native hooks a configuration turns on.

use vstd::prelude::*;
use crate::config::Config;

verus! {

/// The hook groups to install.
#[derive(Clone, Copy, Debug, PartialEq, Eq, Structural)]
pub struct HookSet {
    /// The render-scene and renderer-init hooks, always installed.
    pub always_on: bool,
    /// File open/close/read, serving modded files.
    pub mods: bool,
    /// Image loading, copying, binding, upload and draw setup.
    pub hq_assets: bool,
    /// The indexed draw, for video cutouts.
    pub video_cutouts: bool,
    /// The swap interval, forcing vsync.
    pub vsync: bool,
    /// Window creation and display queries, for high-DPI screens.
    pub hdpi_fix: bool,
}

/// Some hooks are always installed.
pub fn always_on() -> (r: bool)
    ensures
        r,
{
    true
}

/// Modded files are served when mods are on.
pub fn mods(config: &Config) -> (r: bool)
    ensures
        r == config.mods,
{
    config.mods
}

/// Replacement assets need mods and HQ assets both on.
pub fn hq_assets(config: &Config) -> (r: bool)
    ensures
        r == (config.mods && config.renderer.hq_assets),
{
    config.mods && config.renderer.hq_assets
}

pub fn vsync(config: &Config) -> (r: bool)
    ensures
        r == config.display.vsync,
{
    config.display.vsync
}

pub fn hdpi_fix(config: &Config) -> (r: bool)
    ensures
        r == config.display.hdpi_fix,
{
    config.display.hdpi_fix
}

/// All hook groups that `config` turns on; video cutouts only along with
/// replacement assets.
pub fn init_hooks(config: &Config) -> (r: HookSet)
    ensures
        r.always_on,
        r.mods == config.mods,
        r.hq_assets == (config.mods && config.renderer.hq_assets),
        r.video_cutouts == (config.mods && config.renderer.hq_assets && config.renderer.video_cutouts),
        r.vsync == config.display.vsync,
        r.hdpi_fix == config.display.hdpi_fix,
{
    let hq = hq_assets(config);
    HookSet {
        always_on: always_on(),
        mods: mods(config),
        hq_assets: hq,
        video_cutouts: hq && config.renderer.video_cutouts,
        vsync: vsync(config),
        hdpi_fix: hdpi_fix(config),
    }
}

} // verus!
