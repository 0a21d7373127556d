use schoolhax::hotkey::{
    parse_hotkey_string, parse_key, HotkeyAction, HotkeyBinding, HotkeyConfig, HotkeyError,
    HotkeySpec, Key, Modifier, Modifiers,
};

fn letter(c: char) -> Key {
    Key::from_char(c).unwrap()
}

fn hotkey(control: bool, shift: bool, alt: bool, meta: bool, key: char) -> HotkeySpec {
    HotkeySpec { modifiers: Modifiers { control, shift, alt, meta }, key: letter(key) }
}

fn parse_error(detail: &str) -> HotkeyError {
    HotkeyError::ParseError(detail.to_string())
}

#[test]
fn parses_control_shift_w() {
    assert_eq!(parse_hotkey_string("Ctrl+Shift+W"), Ok(hotkey(true, true, false, false, 'W')));
}

#[test]
fn parses_a_key_without_modifiers() {
    assert_eq!(parse_hotkey_string("q"), Ok(hotkey(false, false, false, false, 'Q')));
}

#[test]
fn parses_every_modifier_name() {
    assert_eq!(parse_hotkey_string("ctrl+a"), Ok(hotkey(true, false, false, false, 'A')));
    assert_eq!(parse_hotkey_string("control+a"), Ok(hotkey(true, false, false, false, 'A')));
    assert_eq!(parse_hotkey_string("shift+a"), Ok(hotkey(false, true, false, false, 'A')));
    assert_eq!(parse_hotkey_string("alt+a"), Ok(hotkey(false, false, true, false, 'A')));
    assert_eq!(parse_hotkey_string("super+a"), Ok(hotkey(false, false, false, true, 'A')));
    assert_eq!(parse_hotkey_string("meta+a"), Ok(hotkey(false, false, false, true, 'A')));
    assert_eq!(parse_hotkey_string("cmd+a"), Ok(hotkey(false, false, false, true, 'A')));
    assert_eq!(parse_hotkey_string("command+a"), Ok(hotkey(false, false, false, true, 'A')));
}

#[test]
fn parses_three_modifiers_and_a_key() {
    assert_eq!(parse_hotkey_string("Control+ALT+Super+z"), Ok(hotkey(true, false, true, true, 'Z')));
}

#[test]
fn repeated_modifiers_count_once() {
    assert_eq!(parse_hotkey_string("ctrl+Control+CTRL+k"), Ok(hotkey(true, false, false, false, 'K')));
}

#[test]
fn the_key_may_stand_before_a_modifier() {
    assert_eq!(parse_hotkey_string("w+shift"), Ok(hotkey(false, true, false, false, 'W')));
}

#[test]
fn tokens_are_trimmed() {
    assert_eq!(parse_hotkey_string(" Ctrl +\tShift + w "), Ok(hotkey(true, true, false, false, 'W')));
    assert_eq!(parse_hotkey_string("alt+\u{00A0}x\u{3000}"), Ok(hotkey(false, false, true, false, 'X')));
}

#[test]
fn case_does_not_matter() {
    assert_eq!(parse_hotkey_string("ctrl+w"), parse_hotkey_string("CTRL+W"));
    assert_eq!(parse_hotkey_string("cTrL+sHiFt+w"), Ok(hotkey(true, true, false, false, 'W')));
}

#[test]
fn empty_string_is_malformed() {
    assert_eq!(parse_hotkey_string(""), Err(parse_error("Invalid hotkey format: ")));
}

#[test]
fn blank_string_has_an_unsupported_key() {
    assert_eq!(parse_hotkey_string(" "), Err(parse_error("Unsupported key: ")));
    assert_eq!(parse_hotkey_string("+"), Err(parse_error("Unsupported key: ")));
}

#[test]
fn modifiers_alone_have_no_key() {
    assert_eq!(
        parse_hotkey_string("Ctrl+Shift"),
        Err(parse_error("No key specified in hotkey: Ctrl+Shift"))
    );
}

#[test]
fn two_keys_are_rejected() {
    assert_eq!(parse_hotkey_string("A+B"), Err(parse_error("Multiple keys specified in hotkey: A+B")));
}

#[test]
fn five_tokens_are_rejected() {
    assert_eq!(
        parse_hotkey_string("Ctrl+Shift+Alt+Meta+A"),
        Err(parse_error("Invalid hotkey format: Ctrl+Shift+Alt+Meta+A"))
    );
}

#[test]
fn the_four_failures_differ() {
    let failures = vec![
        parse_hotkey_string("").unwrap_err(),
        parse_hotkey_string("Ctrl+Shift").unwrap_err(),
        parse_hotkey_string("A+B").unwrap_err(),
        parse_hotkey_string("Ctrl+Shift+Alt+Meta+A").unwrap_err(),
    ];
    for i in 0..failures.len() {
        assert!(matches!(failures[i], HotkeyError::ParseError(_)));
        for j in 0..i {
            assert_ne!(failures[i], failures[j]);
        }
    }
}

#[test]
fn four_tokens_are_the_limit() {
    assert_eq!(parse_hotkey_string("Ctrl+Shift+Alt+A"), Ok(hotkey(true, true, true, false, 'A')));
    assert_eq!(
        parse_hotkey_string("a++++"),
        Err(parse_error("Invalid hotkey format: a++++"))
    );
}

#[test]
fn the_first_fault_from_the_left_is_reported() {
    assert_eq!(parse_hotkey_string("AB+C"), Err(parse_error("Unsupported key: AB")));
    assert_eq!(parse_hotkey_string("A+BC"), Err(parse_error("Multiple keys specified in hotkey: A+BC")));
    assert_eq!(parse_hotkey_string("ctrl+1+2"), Err(parse_error("Unsupported key: 1")));
}

#[test]
fn an_empty_token_is_an_unsupported_key() {
    assert_eq!(parse_hotkey_string("Ctrl++W"), Err(parse_error("Unsupported key: ")));
    assert_eq!(parse_hotkey_string("Ctrl+ "), Err(parse_error("Unsupported key: ")));
}

#[test]
fn keys_other_than_letters_are_unsupported() {
    assert_eq!(parse_hotkey_string("Ctrl+1"), Err(parse_error("Unsupported key: 1")));
    assert_eq!(parse_hotkey_string("Ctrl+-"), Err(parse_error("Unsupported key: -")));
}

#[test]
fn longer_keys_are_unsupported() {
    assert_eq!(parse_hotkey_string("Ctrl+F1"), Err(parse_error("Unsupported key: F1")));
    assert_eq!(parse_hotkey_string("Ctrl+\u{e9}"), Err(parse_error("Unsupported key: \u{e9}")));
}

#[test]
fn modifier_names_take_ascii_letters_only() {
    assert_eq!(
        parse_hotkey_string("\u{212A}+a"),
        Err(parse_error("Unsupported key: \u{212A}"))
    );
}

#[test]
fn parse_key_takes_a_letter_in_either_case() {
    assert_eq!(parse_key("w"), Ok(letter('W')));
    assert_eq!(parse_key("W"), Ok(letter('W')));
    assert_eq!(parse_key("a").unwrap().letter(), 'A');
    assert_eq!(parse_key("z").unwrap().letter(), 'Z');
}

#[test]
fn parse_key_rejects_the_rest() {
    assert_eq!(parse_key(""), Err(parse_error("Unsupported key: ")));
    assert_eq!(parse_key("ab"), Err(parse_error("Unsupported key: ab")));
    assert_eq!(parse_key(" a"), Err(parse_error("Unsupported key:  a")));
    assert_eq!(parse_key("@"), Err(parse_error("Unsupported key: @")));
    assert_eq!(parse_key("["), Err(parse_error("Unsupported key: [")));
    assert_eq!(parse_key("`"), Err(parse_error("Unsupported key: `")));
    assert_eq!(parse_key("{"), Err(parse_error("Unsupported key: {")));
}

#[test]
fn key_from_char() {
    assert_eq!(Key::from_char('m').unwrap().letter(), 'M');
    assert_eq!(Key::from_char('M').unwrap().letter(), 'M');
    assert_eq!(Key::from_char('m'), Key::from_char('M'));
    assert_eq!(Key::from_char('5'), None);
    assert_eq!(Key::from_char('\u{e9}'), None);
}

#[test]
fn modifier_sets() {
    let none = Modifiers::empty();
    assert_eq!(none, Modifiers { control: false, shift: false, alt: false, meta: false });
    let set = none.with(Modifier::Alt).with(Modifier::Control).with(Modifier::Alt);
    assert_eq!(set, Modifiers { control: true, shift: false, alt: true, meta: false });
    assert!(set.contains(Modifier::Alt));
    assert!(set.contains(Modifier::Control));
    assert!(!set.contains(Modifier::Shift));
    assert!(!set.contains(Modifier::Meta));
    assert_eq!(none.with(Modifier::Meta).with(Modifier::Shift), Modifiers {
        control: false,
        shift: true,
        alt: false,
        meta: true
    });
}

#[test]
fn hotkey_error_messages() {
    assert_eq!(
        HotkeyError::RegistrationError("taken".to_string()).message(),
        "Failed to register hotkey: taken"
    );
    assert_eq!(
        parse_hotkey_string("A+B").unwrap_err().message(),
        "Failed to parse hotkey string: Multiple keys specified in hotkey: A+B"
    );
    assert_eq!(HotkeyError::SystemError("no display".to_string()).message(), "System error: no display");
}

#[test]
fn default_hotkey_config() {
    let config = HotkeyConfig::default();
    assert_eq!(config.wifi_toggle, "Ctrl+Shift+W");
    assert_eq!(config.app_hide, "Ctrl+Shift+H");
    assert_eq!(config.combo_mode, "Ctrl+Shift+C");
    assert_eq!(config.clone(), config);
}

#[test]
fn bindings_of_the_default_config() {
    let bindings = HotkeyConfig::default().bindings().unwrap();
    assert_eq!(
        bindings,
        vec![
            HotkeyBinding { hotkey: hotkey(true, true, false, false, 'W'), action: HotkeyAction::ToggleNetwork },
            HotkeyBinding { hotkey: hotkey(true, true, false, false, 'H'), action: HotkeyAction::HideApp },
            HotkeyBinding { hotkey: hotkey(true, true, false, false, 'C'), action: HotkeyAction::ActivateCombo },
        ]
    );
}

#[test]
fn bindings_stop_at_the_first_bad_string() {
    let config = HotkeyConfig {
        wifi_toggle: "Alt+N".to_string(),
        app_hide: "Alt+".to_string(),
        combo_mode: "Alt+1".to_string(),
    };
    assert_eq!(config.bindings(), Err(parse_error("Unsupported key: ")));
    let config = HotkeyConfig {
        wifi_toggle: "Alt+N".to_string(),
        app_hide: "Alt+H".to_string(),
        combo_mode: "Alt+1".to_string(),
    };
    assert_eq!(config.bindings(), Err(parse_error("Unsupported key: 1")));
    let config = HotkeyConfig {
        wifi_toggle: "Alt".to_string(),
        app_hide: "Alt+".to_string(),
        combo_mode: "Alt+1".to_string(),
    };
    assert_eq!(config.bindings(), Err(parse_error("No key specified in hotkey: Alt")));
}
