use pylon::config::{CockpitConfig, FontStep, Rgb};

#[test]
fn defaults() {
    let config = CockpitConfig::default();
    assert_eq!(config.font_family, "Hack Nerd Font");
    assert_eq!(config.font_size, 1400);
    assert_eq!(config.scrollback_lines, 10_000);
    assert_eq!(config.sidebar_width, 280);
    assert!(config.sidebar_visible);
    assert_eq!((config.poll_usage_secs, config.poll_sessions_secs), (180, 5));
    assert_eq!(config.colors.foreground, Rgb { r: 131, g: 148, b: 150 });
    assert_eq!(config.colors.background, Rgb { r: 0, g: 43, b: 54 });
    assert_eq!(config.colors.cursor, Rgb { r: 101, g: 123, b: 131 });
    assert_eq!(config.colors.ansi[1], Rgb { r: 220, g: 50, b: 47 });
    assert_eq!(config.colors.ansi[15], Rgb { r: 253, g: 246, b: 227 });
}

#[test]
fn the_font_size_is_stepped_within_its_limits() {
    let mut config = CockpitConfig::default();
    assert!(config.step_font_size(FontStep::Larger));
    assert_eq!(config.font_size, 1500);
    assert!(config.step_font_size(FontStep::Smaller));
    assert_eq!(config.font_size, 1400);
    assert!(!config.step_font_size(FontStep::Reset));
    config.font_size = 7150;
    assert!(config.step_font_size(FontStep::Larger));
    assert_eq!(config.font_size, 7200);
    assert!(!config.step_font_size(FontStep::Larger));
    config.font_size = 850;
    assert!(config.step_font_size(FontStep::Smaller));
    assert_eq!(config.font_size, 800);
    assert!(!config.step_font_size(FontStep::Smaller));
    assert!(config.step_font_size(FontStep::Reset));
    assert_eq!(config.font_size, 1400);
}
