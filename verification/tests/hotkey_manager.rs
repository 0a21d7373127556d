use schoolhax::hotkey::{
    HotkeyAction, HotkeyBinding, HotkeyConfig, HotkeyError, HotkeySpec, Key, Modifiers,
};
use schoolhax::manager::{HotkeyManager, HotkeySystem};

/// What a scripted system was asked.
#[derive(Debug, Clone, Copy, PartialEq, Eq)]
enum Asked {
    Bind(HotkeySpec),
    Release(HotkeySpec),
}

/// A hotkey subsystem that keeps the hotkeys it has bound, notes every request
/// and refuses what it is told to refuse, and any hotkey that is bound
/// already.
struct Scripted {
    bound: Vec<HotkeySpec>,
    asked: Vec<Asked>,
    no_bind: Vec<HotkeySpec>,
    no_release: Vec<HotkeySpec>,
}

impl Scripted {
    fn willing() -> Scripted {
        Scripted { bound: vec![], asked: vec![], no_bind: vec![], no_release: vec![] }
    }
}

impl HotkeySystem for Scripted {
    fn bind(&mut self, hotkey: &HotkeySpec) -> Result<(), String> {
        self.asked.push(Asked::Bind(*hotkey));
        if self.no_bind.contains(hotkey) {
            return Err(format!("taken by another program: {}", hotkey.key.letter()));
        }
        if self.bound.contains(hotkey) {
            return Err(format!("already registered: {}", hotkey.key.letter()));
        }
        self.bound.push(*hotkey);
        Ok(())
    }

    fn release(&mut self, hotkey: &HotkeySpec) -> Result<(), String> {
        self.asked.push(Asked::Release(*hotkey));
        if self.no_release.contains(hotkey) {
            return Err(format!("cannot release: {}", hotkey.key.letter()));
        }
        self.bound.retain(|held| held != hotkey);
        Ok(())
    }
}

fn config(wifi_toggle: &str, app_hide: &str, combo_mode: &str) -> HotkeyConfig {
    HotkeyConfig {
        wifi_toggle: wifi_toggle.to_string(),
        app_hide: app_hide.to_string(),
        combo_mode: combo_mode.to_string(),
    }
}

fn alt(key: char) -> HotkeySpec {
    HotkeySpec {
        modifiers: Modifiers { control: false, shift: false, alt: true, meta: false },
        key: Key::from_char(key).unwrap(),
    }
}

fn control_shift(key: char) -> HotkeySpec {
    HotkeySpec {
        modifiers: Modifiers { control: true, shift: true, alt: false, meta: false },
        key: Key::from_char(key).unwrap(),
    }
}

fn bindings(toggle: HotkeySpec, hide: HotkeySpec, combo: HotkeySpec) -> Vec<HotkeyBinding> {
    vec![
        HotkeyBinding { hotkey: toggle, action: HotkeyAction::ToggleNetwork },
        HotkeyBinding { hotkey: hide, action: HotkeyAction::HideApp },
        HotkeyBinding { hotkey: combo, action: HotkeyAction::ActivateCombo },
    ]
}

#[test]
fn a_new_manager_holds_the_defaults() {
    let manager = HotkeyManager::with_system(Scripted::willing());
    assert_eq!(manager.get_config(), HotkeyConfig::default());
    assert_eq!(manager.registered(), vec![]);
    assert_eq!(manager.action_for(&control_shift('W')), None);
    assert_eq!(manager.system().asked, vec![]);
}

#[test]
fn register_all_binds_the_three_hotkeys_in_order() {
    let mut manager = HotkeyManager::with_system(Scripted::willing());
    assert_eq!(manager.register_all(), Ok(()));
    assert_eq!(
        manager.registered(),
        bindings(control_shift('W'), control_shift('H'), control_shift('C'))
    );
    assert_eq!(
        manager.system().asked,
        vec![
            Asked::Bind(control_shift('W')),
            Asked::Bind(control_shift('H')),
            Asked::Bind(control_shift('C'))
        ]
    );
    assert_eq!(manager.get_config(), HotkeyConfig::default());
}

#[test]
fn a_refused_second_hotkey_ends_the_registration() {
    let mut system = Scripted::willing();
    system.no_bind.push(control_shift('H'));
    let mut manager = HotkeyManager::with_system(system);
    assert_eq!(
        manager.register_all(),
        Err(HotkeyError::RegistrationError("taken by another program: H".to_string()))
    );
    assert_eq!(
        manager.registered(),
        vec![HotkeyBinding { hotkey: control_shift('W'), action: HotkeyAction::ToggleNetwork }]
    );
    assert_eq!(manager.system().bound, vec![control_shift('W')]);
    assert_eq!(
        manager.system().asked,
        vec![Asked::Bind(control_shift('W')), Asked::Bind(control_shift('H'))]
    );
}

#[test]
fn a_refused_first_hotkey_registers_nothing() {
    let mut system = Scripted::willing();
    system.no_bind.push(control_shift('W'));
    let mut manager = HotkeyManager::with_system(system);
    assert_eq!(
        manager.register_all(),
        Err(HotkeyError::RegistrationError("taken by another program: W".to_string()))
    );
    assert_eq!(manager.registered(), vec![]);
    assert_eq!(manager.system().asked, vec![Asked::Bind(control_shift('W'))]);
}

#[test]
fn a_refused_third_hotkey_keeps_the_first_two() {
    let mut system = Scripted::willing();
    system.no_bind.push(control_shift('C'));
    let mut manager = HotkeyManager::with_system(system);
    assert_eq!(
        manager.register_all(),
        Err(HotkeyError::RegistrationError("taken by another program: C".to_string()))
    );
    assert_eq!(manager.registered().len(), 2);
    assert_eq!(manager.system().asked.len(), 3);
}

#[test]
fn the_same_hotkey_twice_is_refused_by_the_system() {
    let mut manager = HotkeyManager::with_system(Scripted::willing());
    let result = manager.set_config(config("Alt+M", "alt+m", "Alt+N"));
    assert_eq!(result, Err(HotkeyError::RegistrationError("already registered: M".to_string())));
    assert_eq!(
        manager.registered(),
        vec![HotkeyBinding { hotkey: alt('M'), action: HotkeyAction::ToggleNetwork }]
    );
    assert_eq!(manager.system().asked, vec![Asked::Bind(alt('M')), Asked::Bind(alt('M'))]);
}

#[test]
fn a_bad_string_registers_nothing() {
    let mut manager = HotkeyManager::with_system(Scripted::willing());
    let bad = config("Alt+J", "Alt+", "Alt+L");
    assert_eq!(
        manager.set_config(bad.clone()),
        Err(HotkeyError::ParseError("Unsupported key: ".to_string()))
    );
    assert_eq!(manager.registered(), vec![]);
    assert_eq!(manager.get_config(), bad);
    assert_eq!(manager.system().asked, vec![]);
    assert_eq!(manager.register_all(), Err(HotkeyError::ParseError("Unsupported key: ".to_string())));
    assert_eq!(manager.registered(), vec![]);
    assert_eq!(manager.system().asked, vec![]);
}

#[test]
fn a_bad_string_behind_good_ones_registers_nothing() {
    let mut manager = HotkeyManager::with_system(Scripted::willing());
    assert_eq!(
        manager.set_config(config("Alt+J", "Alt+K", "Alt+K+L")),
        Err(HotkeyError::ParseError("Multiple keys specified in hotkey: Alt+K+L".to_string()))
    );
    assert_eq!(manager.registered(), vec![]);
    assert_eq!(manager.system().asked, vec![]);
}

#[test]
fn set_config_replaces_the_bindings() {
    let mut manager = HotkeyManager::with_system(Scripted::willing());
    assert_eq!(manager.register_all(), Ok(()));
    let chosen = config("Alt+J", "Alt+K", "Alt+L");
    assert_eq!(manager.set_config(chosen.clone()), Ok(()));
    assert_eq!(manager.get_config(), chosen);
    assert_eq!(manager.registered(), bindings(alt('J'), alt('K'), alt('L')));
    assert_eq!(manager.system().bound, vec![alt('J'), alt('K'), alt('L')]);
    assert_eq!(
        manager.system().asked,
        vec![
            Asked::Bind(control_shift('W')),
            Asked::Bind(control_shift('H')),
            Asked::Bind(control_shift('C')),
            Asked::Release(control_shift('W')),
            Asked::Release(control_shift('H')),
            Asked::Release(control_shift('C')),
            Asked::Bind(alt('J')),
            Asked::Bind(alt('K')),
            Asked::Bind(alt('L')),
        ]
    );
}

#[test]
fn an_equal_config_leaves_the_bindings_as_they_are() {
    let mut manager = HotkeyManager::with_system(Scripted::willing());
    let chosen = config("Ctrl+Alt+J", "Ctrl+Alt+K", "Ctrl+Alt+L");
    assert_eq!(manager.set_config(chosen.clone()), Ok(()));
    let before = manager.registered();
    let bound_before = manager.system().bound.clone();
    assert_eq!(manager.set_config(chosen.clone()), Ok(()));
    assert_eq!(manager.registered(), before);
    assert_eq!(manager.system().bound, bound_before);
    assert_eq!(manager.get_config(), chosen);
    assert_eq!(manager.set_config(config("ctrl+alt+j", "CTRL+ALT+K", " Alt + Control + l ")), Ok(()));
    assert_eq!(manager.registered(), before);
    assert_eq!(manager.system().bound, bound_before);
}

#[test]
fn unregister_all_releases_everything() {
    let mut manager = HotkeyManager::with_system(Scripted::willing());
    assert_eq!(manager.register_all(), Ok(()));
    assert_eq!(manager.unregister_all(), Ok(()));
    assert_eq!(manager.registered(), vec![]);
    assert_eq!(manager.system().bound, vec![]);
    assert_eq!(manager.system().asked.len(), 6);
    assert_eq!(manager.unregister_all(), Ok(()));
    assert_eq!(manager.system().asked.len(), 6);
}

#[test]
fn a_refused_release_ends_the_unregistration() {
    let mut system = Scripted::willing();
    system.no_release.push(control_shift('H'));
    let mut manager = HotkeyManager::with_system(system);
    assert_eq!(manager.register_all(), Ok(()));
    assert_eq!(
        manager.unregister_all(),
        Err(HotkeyError::RegistrationError("cannot release: H".to_string()))
    );
    assert_eq!(
        manager.registered(),
        vec![
            HotkeyBinding { hotkey: control_shift('H'), action: HotkeyAction::HideApp },
            HotkeyBinding { hotkey: control_shift('C'), action: HotkeyAction::ActivateCombo },
        ]
    );
    assert_eq!(
        manager.system().asked[3..],
        [Asked::Release(control_shift('W')), Asked::Release(control_shift('H'))]
    );
}

#[test]
fn a_refused_release_keeps_the_old_config() {
    let mut system = Scripted::willing();
    system.no_release.push(control_shift('W'));
    let mut manager = HotkeyManager::with_system(system);
    assert_eq!(manager.register_all(), Ok(()));
    assert_eq!(
        manager.set_config(config("Alt+J", "Alt+K", "Alt+L")),
        Err(HotkeyError::RegistrationError("cannot release: W".to_string()))
    );
    assert_eq!(manager.get_config(), HotkeyConfig::default());
    assert_eq!(manager.registered().len(), 3);
    assert_eq!(manager.system().asked.len(), 4);
}

#[test]
fn a_failed_registration_keeps_the_new_config() {
    let mut system = Scripted::willing();
    system.no_bind.push(alt('K'));
    let mut manager = HotkeyManager::with_system(system);
    assert_eq!(manager.register_all(), Ok(()));
    let chosen = config("Alt+J", "Alt+K", "Alt+L");
    assert_eq!(
        manager.set_config(chosen.clone()),
        Err(HotkeyError::RegistrationError("taken by another program: K".to_string()))
    );
    assert_eq!(manager.get_config(), chosen);
    assert_eq!(
        manager.registered(),
        vec![HotkeyBinding { hotkey: alt('J'), action: HotkeyAction::ToggleNetwork }]
    );
}

#[test]
fn tracked_bindings_are_looked_up_by_hotkey() {
    let mut manager = HotkeyManager::with_system(Scripted::willing());
    assert_eq!(manager.set_config(config("Alt+R", "Alt+S", "Alt+T")), Ok(()));
    assert_eq!(manager.action_for(&alt('R')), Some(HotkeyAction::ToggleNetwork));
    assert_eq!(manager.action_for(&alt('S')), Some(HotkeyAction::HideApp));
    assert_eq!(manager.action_for(&alt('T')), Some(HotkeyAction::ActivateCombo));
    assert_eq!(manager.action_for(&alt('U')), None);
    assert_eq!(manager.action_for(&control_shift('R')), None);
}

#[test]
fn the_running_system_is_asked_too() {
    match HotkeyManager::new() {
        Err(error) => assert!(matches!(error, HotkeyError::SystemError(_))),
        Ok(mut manager) => {
            assert_eq!(manager.get_config(), HotkeyConfig::default());
            assert_eq!(manager.registered(), vec![]);
            let plan = config("Ctrl+Alt+Shift+Y", "Ctrl+Alt+Shift+U", "Ctrl+Alt+Shift+I");
            let wanted = plan.bindings().unwrap();
            let result = manager.set_config(plan.clone());
            let live = manager.registered();
            match result {
                Ok(()) => assert_eq!(live, wanted),
                Err(error) => {
                    assert!(matches!(error, HotkeyError::RegistrationError(_)));
                    assert!(live.len() < wanted.len());
                    assert_eq!(live[..], wanted[..live.len()]);
                }
            }
            assert_eq!(manager.get_config(), plan);
            let released = manager.unregister_all();
            assert_eq!(released.is_ok(), manager.registered().is_empty());
        }
    }
}

#[test]
fn a_granted_binding_is_tracked_behind_the_others() {
    let mut manager = HotkeyManager::with_system(Scripted::willing());
    let first = HotkeyBinding { hotkey: alt('J'), action: HotkeyAction::HideApp };
    let second = HotkeyBinding { hotkey: alt('K'), action: HotkeyAction::ToggleNetwork };
    assert_eq!(manager.note_registration(first, Ok(())), Ok(()));
    assert_eq!(manager.note_registration(second, Ok(())), Ok(()));
    assert_eq!(manager.registered(), vec![first, second]);
    assert_eq!(manager.get_config(), HotkeyConfig::default());
    assert_eq!(manager.system().asked, vec![]);
}

#[test]
fn a_refused_binding_is_not_tracked() {
    let mut manager = HotkeyManager::with_system(Scripted::willing());
    let first = HotkeyBinding { hotkey: alt('J'), action: HotkeyAction::HideApp };
    let second = HotkeyBinding { hotkey: alt('K'), action: HotkeyAction::ToggleNetwork };
    assert_eq!(manager.note_registration(first, Ok(())), Ok(()));
    assert_eq!(
        manager.note_registration(second, Err("held by another program".to_string())),
        Err(HotkeyError::RegistrationError("held by another program".to_string()))
    );
    assert_eq!(manager.registered(), vec![first]);
    assert_eq!(
        manager.note_registration(second, Err(String::new())),
        Err(HotkeyError::RegistrationError(String::new()))
    );
    assert_eq!(manager.registered(), vec![first]);
}

#[test]
fn a_released_binding_is_tracked_no_longer() {
    let mut manager = HotkeyManager::with_system(Scripted::willing());
    assert_eq!(manager.register_all(), Ok(()));
    assert_eq!(manager.note_release(Ok(())), Ok(()));
    assert_eq!(
        manager.registered(),
        vec![
            HotkeyBinding { hotkey: control_shift('H'), action: HotkeyAction::HideApp },
            HotkeyBinding { hotkey: control_shift('C'), action: HotkeyAction::ActivateCombo },
        ]
    );
    assert_eq!(manager.note_release(Ok(())), Ok(()));
    assert_eq!(manager.note_release(Ok(())), Ok(()));
    assert_eq!(manager.registered(), vec![]);
}

#[test]
fn a_refused_release_keeps_every_binding() {
    let mut manager = HotkeyManager::with_system(Scripted::willing());
    assert_eq!(manager.register_all(), Ok(()));
    let before = manager.registered();
    assert_eq!(
        manager.note_release(Err("not now".to_string())),
        Err(HotkeyError::RegistrationError("not now".to_string()))
    );
    assert_eq!(manager.registered(), before);
    assert_eq!(manager.get_config(), HotkeyConfig::default());
}
