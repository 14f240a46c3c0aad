use agent_browser::error::Error;
use agent_browser::keys::{
    device_metrics, format_modifiers, key_press, key_to_code, modifier_flags, normalize_key, parse_modifier,
    parse_modifiers, shortcut_keys, simulated_keys, typed_message, KeyModifier,
};

#[test]
fn key_aliases_are_normalized() {
    assert_eq!(normalize_key("enter"), "Enter");
    assert_eq!(normalize_key("RETURN"), "Enter");
    assert_eq!(normalize_key("esc"), "Escape");
    assert_eq!(normalize_key("Del"), "Delete");
    assert_eq!(normalize_key("up"), "ArrowUp");
    assert_eq!(normalize_key("space"), " ");
    assert_eq!(normalize_key("f5"), "F5");
    assert_eq!(normalize_key("a"), "A");
    assert_eq!(normalize_key("MediaPlay"), "mediaplay");
}

#[test]
fn key_codes_follow_the_key() {
    assert_eq!(key_to_code("Enter"), "Enter");
    assert_eq!(key_to_code(" "), "Space");
    assert_eq!(key_to_code("F12"), "F12");
    assert_eq!(key_to_code("a"), "KeyA");
    assert_eq!(key_to_code("Unidentified"), "Unidentified");
}

#[test]
fn modifier_masks_and_names() {
    assert_eq!(modifier_flags(&vec![]), 0);
    assert_eq!(modifier_flags(&vec![KeyModifier::Alt]), 1);
    assert_eq!(modifier_flags(&vec![KeyModifier::Control, KeyModifier::Shift]), 10);
    assert_eq!(modifier_flags(&vec![KeyModifier::Meta, KeyModifier::Meta]), 4);
    assert_eq!(format_modifiers(&vec![KeyModifier::Control, KeyModifier::Shift]), "[Control, Shift]");
    assert_eq!(format_modifiers(&vec![]), "[]");
    assert_eq!(parse_modifier("CTRL"), Some(KeyModifier::Control));
    assert_eq!(parse_modifier("cmd"), Some(KeyModifier::Meta));
    assert_eq!(parse_modifier("hyper"), None);
    let names = vec!["shift".to_string(), "bogus".to_string(), "Alt".to_string()];
    assert_eq!(parse_modifiers(&names), vec![KeyModifier::Shift, KeyModifier::Alt]);
}

#[test]
fn key_press_plans_the_events() {
    let p = key_press("a", &vec![KeyModifier::Control]);
    assert_eq!(p.key, "A");
    assert_eq!(p.code, "KeyA");
    assert_eq!(p.text, Some("A".to_string()));
    assert_eq!(p.modifiers, 2);
    assert_eq!(p.message, "Pressed A with modifiers [Control]");
    let enter = key_press("enter", &vec![]);
    assert_eq!(enter.key, "Enter");
    assert_eq!(enter.text, None);
    assert_eq!(enter.message, "Pressed Enter with modifiers []");
}

#[test]
fn shortcuts_resolve_per_platform() {
    let (key, mods) = shortcut_keys("Copy", false).unwrap();
    assert_eq!(key, "c");
    assert_eq!(mods, vec![KeyModifier::Control]);
    let (key, mods) = shortcut_keys("redo", true).unwrap();
    assert_eq!(key, "z");
    assert_eq!(mods, vec![KeyModifier::Meta, KeyModifier::Shift]);
    let (key, mods) = shortcut_keys("refresh", false).unwrap();
    assert_eq!(key, "F5");
    assert!(mods.is_empty());
    match shortcut_keys("Teleport", false) {
        Err(Error::InvalidParameter(m)) => assert_eq!(m, "Unknown shortcut: teleport"),
        _ => panic!("unknown shortcut must fail"),
    }
}

#[test]
fn devices_and_typing_messages() {
    let m = device_metrics("iPhone SE").unwrap();
    assert_eq!((m.width, m.height, m.scale_milli, m.mobile), (375, 667, 2000, true));
    let p = device_metrics("pixel 7").unwrap();
    assert_eq!((p.width, p.height, p.scale_milli), (412, 915, 2625));
    match device_metrics("Nokia 3310") {
        Err(e) => assert_eq!(e.message(), "Invalid parameter: Unknown device: Nokia 3310"),
        Ok(_) => panic!("unknown device must fail"),
    }
    assert_eq!(typed_message("hello"), "Typed 5 characters");
    assert_eq!(typed_message("é"), "Typed 2 characters");
}

#[test]
fn simulated_typing_presses_one_key_per_character() {
    let keys = simulated_keys("a1ß");
    let pairs: Vec<(String, String)> = keys.into_iter().map(|k| (k.key, k.code)).collect();
    assert_eq!(
        pairs,
        vec![
            ("a".to_string(), "KeyA".to_string()),
            ("1".to_string(), "Key1".to_string()),
            ("ß".to_string(), "KeySS".to_string()),
        ]
    );
    assert!(simulated_keys("").is_empty());
}

#[test]
fn shortcut_combinations_are_parsed() {
    let (key, mods) = shortcut_keys("Ctrl+Shift+I", false).unwrap();
    assert_eq!(key, "i");
    assert_eq!(mods, vec![KeyModifier::Control, KeyModifier::Shift]);
    let (key, mods) = shortcut_keys("cmd+alt+F5", true).unwrap();
    assert_eq!(key, "f5");
    assert_eq!(mods, vec![KeyModifier::Meta, KeyModifier::Alt]);
    for bad in ["Ctrl+", "Hyper+K", "+a", "Ctrl++"] {
        match shortcut_keys(bad, false) {
            Err(Error::InvalidParameter(m)) => assert_eq!(m, format!("Unknown shortcut: {}", bad.to_lowercase())),
            other => panic!("{:?}", other.map(|_| ())),
        }
    }
}

#[test]
fn ascii_names_are_cased_the_ascii_way() {
    assert_eq!(normalize_key("ENTER"), "Enter");
    assert_eq!(normalize_key("q"), "Q");
    assert_eq!(normalize_key("Fn"), "fn");
    assert_eq!(key_to_code("q"), "KeyQ");
    let (key, mods) = shortcut_keys("SAVE", false).unwrap();
    assert_eq!(key, "s");
    assert_eq!(mods, vec![KeyModifier::Control]);
}
