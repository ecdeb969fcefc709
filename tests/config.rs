use grimmod::config::{default_false, default_true, Config, Display, Logging, Renderer};
use grimmod::feature::{hq_assets, init_hooks};

#[test]
fn defaults_turn_everything_on_but_debug() {
    let c = Config::new();
    assert!(c.mods);
    assert_eq!(c.renderer, Renderer { hq_assets: true, quick_toggle: true, video_cutouts: true });
    assert_eq!(c.display, Display { hdpi_fix: true, vsync: true });
    assert_eq!(c.logging, Logging { enabled: true, debug: false });
    assert!(default_true());
    assert!(!default_false());
}

#[test]
fn load_prefers_parsed_config() {
    let mut parsed = Config::new();
    parsed.mods = false;
    assert_eq!(Config::load(Some(parsed)), parsed);
    assert_eq!(Config::load(None), Config::new());
}

#[test]
fn hooks_follow_switches() {
    let mut c = Config::new();
    let all = init_hooks(&c);
    assert!(all.always_on && all.mods && all.hq_assets && all.video_cutouts && all.vsync && all.hdpi_fix);
    c.mods = false;
    let h = init_hooks(&c);
    assert!(!h.mods && !h.hq_assets && !h.video_cutouts && h.vsync);
    assert!(!hq_assets(&c));
}
