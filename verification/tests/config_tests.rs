use friendly_filer::config::{AimStyle, Config};

#[test]
fn defaults_match_spec() {
    let c = Config::default();
    assert_eq!(c.lod_individual_max, 20);
    assert_eq!(c.lod_faded_max, 100);
    assert_eq!(c.aim, AimStyle::Keyboard);
    assert!(c.startup_fps_on);
}
