use murmure::keys::{key_name_to_vk, keys_to_string, normalize_key_name, parse_binding_keys, vk_for_key_name, vk_to_key_name};
use murmure::settings::{normalize_shortcut, AppSettings, ShortcutError};

#[test]
fn parse_ctrl_alt_r() {
    assert_eq!(parse_binding_keys("ctrl+alt+r"), vec![0x11, 0x12, 0x52]);
    assert_eq!(keys_to_string(&[0x11, 0x12, 0x52]), "ctrl+alt+r");
}

#[test]
fn parse_ignores_case_and_spaces() {
    assert_eq!(parse_binding_keys(" Ctrl + SHIFT+ F5 "), vec![0x11, 0x10, 0x74]);
}

#[test]
fn parse_accepts_aliases() {
    assert_eq!(parse_binding_keys("meta+control+menu+return+esc+del+ins+up+lmb+mb5"), vec![
        0x5B, 0x11, 0x12, 0x0D, 0x1B, 0x2E, 0x2D, 0x26, 0x01, 0x06,
    ]);
}

#[test]
fn parse_drops_unknown_tokens() {
    assert_eq!(parse_binding_keys("ctrl+banana+x"), vec![0x11, 0x58]);
    assert_eq!(parse_binding_keys("f13+f0+f01+key5"), Vec::<i32>::new());
}

#[test]
fn parse_collapses_duplicates() {
    assert_eq!(parse_binding_keys("a+ctrl+A+control+a"), vec![0x11, 0x41]);
}

#[test]
fn parse_sorts_into_table_order() {
    assert_eq!(parse_binding_keys("r+alt+ctrl"), vec![0x11, 0x12, 0x52]);
    assert_eq!(parse_binding_keys("mb4+f1+9+z+shift+win+space+escape"), vec![
        0x5B, 0x10, 0x5A, 0x39, 0x70, 0x20, 0x1B, 0x05,
    ]);
}

#[test]
fn parse_empty_and_separators_only() {
    assert_eq!(parse_binding_keys(""), Vec::<i32>::new());
    assert_eq!(parse_binding_keys("+++"), Vec::<i32>::new());
}

#[test]
fn parse_kelvin_sign_lowers_to_k() {
    assert_eq!(parse_binding_keys("\u{212A}"), vec![0x4B]);
}

#[test]
fn format_uses_table_order() {
    assert_eq!(keys_to_string(&[0x52, 0x11]), "ctrl+r");
    assert_eq!(keys_to_string(&[0x12, 0x11]), "ctrl+alt");
    assert_eq!(keys_to_string(&[0x11, 0x12]), "ctrl+alt");
    assert_eq!(keys_to_string(&[0x06, 0x27, 0x7B, 0x30, 0x41, 0x10]), "shift+a+0+f12+arrowright+mousebutton5");
    assert_eq!(keys_to_string(&[0x11, 0x11]), "ctrl");
    assert_eq!(keys_to_string(&[0x99, 0x11, 0x98]), "ctrl+key153+key152");
    assert_eq!(keys_to_string(&[]), "");
}

#[test]
fn format_names_every_kind() {
    assert_eq!(vk_to_key_name(0x5B), "win");
    assert_eq!(vk_to_key_name(0x41), "a");
    assert_eq!(vk_to_key_name(0x5A), "z");
    assert_eq!(vk_to_key_name(0x30), "0");
    assert_eq!(vk_to_key_name(0x39), "9");
    assert_eq!(vk_to_key_name(0x70), "f1");
    assert_eq!(vk_to_key_name(0x79), "f10");
    assert_eq!(vk_to_key_name(0x7B), "f12");
    assert_eq!(vk_to_key_name(0x27), "arrowright");
    assert_eq!(vk_to_key_name(0x04), "mousebutton3");
    assert_eq!(vk_to_key_name(0x99), "key153");
    assert_eq!(vk_to_key_name(-7), "key-7");
    assert_eq!(vk_to_key_name(i32::MIN), "key-2147483648");
}

#[test]
fn format_then_parse_is_stable() {
    for s in ["ctrl+alt+r", "r+alt+ctrl", "Shift + a + a + F12", "", "x+win+mb4+rightclick+nothing", "  +LEFT+"] {
        let keys = parse_binding_keys(s);
        let text = keys_to_string(&keys);
        assert_eq!(parse_binding_keys(&text), keys);
        assert_eq!(keys_to_string(&parse_binding_keys(&text)), text);
    }
}

#[test]
fn key_name_lookup() {
    assert_eq!(key_name_to_vk("\t PageDown\n"), Some(0x22));
    assert_eq!(key_name_to_vk("\u{3000}space\u{A0}"), Some(0x20));
    assert_eq!(key_name_to_vk("page down"), None);
    assert_eq!(normalize_key_name("  MidDleClick "), "middleclick".chars().collect::<Vec<char>>());
    assert_eq!(vk_for_key_name(&"esc".chars().collect::<Vec<char>>()), Some(0x1B));
    assert_eq!(vk_for_key_name(&"Esc".chars().collect::<Vec<char>>()), None);
}

#[test]
fn normalize_shortcut_results() {
    let (keys, text) = normalize_shortcut("ALT + Space").unwrap();
    assert_eq!(keys, vec![0x12, 0x20]);
    assert_eq!(text, "alt+space");
    assert!(matches!(normalize_shortcut("hyper+nothing"), Err(ShortcutError::InvalidShortcut)));
    assert!(matches!(normalize_shortcut(""), Err(ShortcutError::InvalidShortcut)));
}

#[test]
fn default_settings() {
    let s = AppSettings::default();
    assert_eq!(s.shortcut, "win+ctrl");
    assert_eq!(s.last_transcript_shortcut, "");
    assert_eq!(parse_binding_keys(&s.shortcut), vec![0x5B, 0x11]);
}
