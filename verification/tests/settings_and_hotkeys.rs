use locafetch::hotkey::{parse_hotkey, str_to_code, Hotkey, KeyCode, Modifiers};
use locafetch::settings::{
    default_autostart, default_exclusions, default_hotkey, default_theme, default_true,
    detect_drives, drive_roots, first_run_settings, Settings,
};

#[test]
fn default_values() {
    assert_eq!(default_theme(), "dark");
    assert_eq!(default_hotkey(), "ctrl+space");
    assert!(default_autostart());
    assert!(default_true());
}

#[test]
fn default_settings() {
    let s = Settings::default();
    assert!(s.indexed_folders.is_empty());
    assert_eq!(s.excluded_folders.len(), 9);
    assert_eq!(s.excluded_folders[0], "C:\\Windows");
    assert_eq!(s.excluded_folders[8], "C:\\ProgramData");
    assert_eq!(s.max_results, 50);
    assert_eq!(s.theme, "dark");
    assert!(s.launch_at_startup);
    assert!(s.start_minimized);
    assert!(s.minimize_to_tray);
    assert_eq!(s.hotkey, "ctrl+space");
    assert_eq!(s.reindex_interval_hours, 0);
}

#[test]
fn default_exclusion_list() {
    let ex = default_exclusions();
    assert!(ex.contains(&"C:\\$Recycle.Bin".to_string()));
    assert!(ex.contains(&"C:\\$RECYCLE.BIN".to_string()));
    assert!(ex.contains(&"C:\\Program Files (x86)".to_string()));
}

#[test]
fn drive_roots_run_from_c_to_z() {
    let d = drive_roots();
    assert_eq!(d.len(), 24);
    assert_eq!(d[0], "C:\\");
    assert_eq!(d[1], "D:\\");
    assert_eq!(d[23], "Z:\\");
}

#[test]
fn detect_drives_keeps_present_roots() {
    let mut flags = vec![false; 24];
    flags[0] = true;
    flags[2] = true;
    flags[23] = true;
    assert_eq!(
        detect_drives(&flags),
        vec!["C:\\".to_string(), "E:\\".to_string(), "Z:\\".to_string()]
    );
    assert!(detect_drives(&[false; 24]).is_empty());
}

#[test]
fn first_run_indexes_found_drives() {
    let s = first_run_settings(vec!["C:\\".to_string(), "D:\\".to_string()]);
    assert_eq!(s.indexed_folders, vec!["C:\\".to_string(), "D:\\".to_string()]);
    assert_eq!(s.excluded_folders.len(), 9);
    assert_eq!(s.hotkey, "ctrl+space");
}

#[test]
fn key_names() {
    assert_eq!(str_to_code("space"), Some(KeyCode::Space));
    assert_eq!(str_to_code("esc"), Some(KeyCode::Escape));
    assert_eq!(str_to_code("del"), Some(KeyCode::Delete));
    assert_eq!(str_to_code("f12"), Some(KeyCode::F12));
    assert_eq!(str_to_code("q"), Some(KeyCode::KeyQ));
    assert_eq!(str_to_code("7"), Some(KeyCode::Digit7));
    assert_eq!(str_to_code("f13"), None);
    assert_eq!(str_to_code("Space"), None);
}

#[test]
fn hotkey_with_modifier() {
    let ctrl = Modifiers { control: true, alt: false, shift: false, meta: false };
    assert_eq!(
        parse_hotkey("ctrl+space"),
        Some(Hotkey { modifiers: Some(ctrl), code: KeyCode::Space })
    );
    assert_eq!(
        parse_hotkey("Control + SPACE"),
        Some(Hotkey { modifiers: Some(ctrl), code: KeyCode::Space })
    );
}

#[test]
fn hotkey_modifier_order_does_not_matter() {
    let m = Modifiers { control: false, alt: true, shift: true, meta: true };
    let a = parse_hotkey("shift+alt+win+k");
    let b = parse_hotkey("cmd+K+alt+shift");
    assert_eq!(a, Some(Hotkey { modifiers: Some(m), code: KeyCode::KeyK }));
    assert_eq!(a, b);
}

#[test]
fn hotkey_without_modifier() {
    assert_eq!(parse_hotkey("f5"), Some(Hotkey { modifiers: None, code: KeyCode::F5 }));
}

#[test]
fn hotkey_later_key_wins() {
    assert_eq!(parse_hotkey("a+b"), Some(Hotkey { modifiers: None, code: KeyCode::KeyB }));
}

#[test]
fn hotkey_rejections() {
    assert_eq!(parse_hotkey("ctrl+alt"), None);
    assert_eq!(parse_hotkey("ctrl+banana"), None);
    assert_eq!(parse_hotkey(""), None);
    assert_eq!(parse_hotkey("ctrl++space"), None);
}
