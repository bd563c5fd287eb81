use rust_fps_net::applier::{
    apply_startup_settings, apply_window_settings, parse_resolution, WindowMode, WindowState,
};
use rust_fps_net::config::GameConfig;

fn window() -> WindowState {
    WindowState { mode: WindowMode::Windowed, width: 640, height: 480, vsync: false }
}

#[test]
fn resolution_parses_plain_integers() {
    assert_eq!(parse_resolution("1920x1080"), Some((1920, 1080)));
    assert_eq!(parse_resolution("800x600"), Some((800, 600)));
}

#[test]
fn resolution_accepts_fraction_and_drops_it() {
    assert_eq!(parse_resolution("1920.5x1080.25"), Some((1920, 1080)));
    assert_eq!(parse_resolution("640.x480"), Some((640, 480)));
}

#[test]
fn resolution_rejects_garbage() {
    assert_eq!(parse_resolution("abcxdef"), None);
    assert_eq!(parse_resolution("1920"), None);
    assert_eq!(parse_resolution("x1080"), None);
    assert_eq!(parse_resolution("1920x"), None);
    assert_eq!(parse_resolution(""), None);
    assert_eq!(parse_resolution("800x600x2"), None);
    assert_eq!(parse_resolution("-800x600"), None);
    assert_eq!(parse_resolution("1.2.3x600"), None);
    assert_eq!(parse_resolution("99999999999x600"), None);
}

#[test]
fn defaults_apply_fullscreen_and_resolution() {
    let cfg = GameConfig::load(None);
    let mut w = window();
    apply_window_settings(&cfg, &mut w);
    assert_eq!(w.mode, WindowMode::Fullscreen);
    assert_eq!((w.width, w.height), (1920, 1080));
    assert!(!w.vsync);
}

#[test]
fn bad_resolution_leaves_both_axes_unchanged() {
    let mut cfg = GameConfig::load(None);
    cfg.set(String::from("cl_resolution"), String::from("abcxdef"));
    let mut w = window();
    apply_window_settings(&cfg, &mut w);
    assert_eq!((w.width, w.height), (640, 480));
}

#[test]
fn partial_resolution_applies_neither_axis() {
    let mut cfg = GameConfig::load(None);
    cfg.set(String::from("cl_resolution"), String::from("1024xoops"));
    let mut w = window();
    apply_window_settings(&cfg, &mut w);
    assert_eq!((w.width, w.height), (640, 480));
}

#[test]
fn fullscreen_only_for_exactly_one() {
    let mut cfg = GameConfig::new();
    cfg.set(String::from("cl_fullscreen"), String::from("true"));
    let mut w = window();
    apply_window_settings(&cfg, &mut w);
    assert_eq!(w.mode, WindowMode::Windowed);
    cfg.set(String::from("cl_fullscreen"), String::from("1"));
    apply_window_settings(&cfg, &mut w);
    assert_eq!(w.mode, WindowMode::Fullscreen);
}

#[test]
fn missing_vsync_differs_between_passes() {
    let cfg = GameConfig::new();
    let mut w = window();
    apply_window_settings(&cfg, &mut w);
    assert!(w.vsync);
    let mut w2 = window();
    w2.vsync = true;
    apply_startup_settings(&cfg, &mut w2);
    assert!(!w2.vsync);
}

#[test]
fn vsync_follows_stored_flag_in_both_passes() {
    let mut cfg = GameConfig::new();
    cfg.set(String::from("cl_vsync"), String::from("1"));
    let mut w = window();
    apply_startup_settings(&cfg, &mut w);
    assert!(w.vsync);
    cfg.set(String::from("cl_vsync"), String::from("0"));
    apply_window_settings(&cfg, &mut w);
    assert!(!w.vsync);
}

#[test]
fn missing_keys_leave_mode_windowed_and_size_unchanged() {
    let cfg = GameConfig::new();
    let mut w = window();
    w.mode = WindowMode::Fullscreen;
    apply_window_settings(&cfg, &mut w);
    assert_eq!(w.mode, WindowMode::Windowed);
    assert_eq!((w.width, w.height), (640, 480));
}
