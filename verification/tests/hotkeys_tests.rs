//! The binding table and the listener's de-duplication.

use openwhisperai::hotkeys::{
    Hotkey, HotkeyEvent, HotkeyKey, HotkeyManager, HotkeyModifiers, HotkeyState, HotkeyTrigger,
};
use openwhisperai::listener::{KeyInput, ListenerState};

#[test]
fn hotkey_manager_resolves_event() {
    let mut manager = HotkeyManager::new();
    let hotkey = Hotkey {
        key: HotkeyKey::F9,
        modifiers: HotkeyModifiers {
            ctrl: true,
            alt: false,
            shift: false,
            meta: false,
        },
    };

    manager.register(hotkey, "toggle-capture".to_string());

    let event = HotkeyEvent {
        key: HotkeyKey::F9,
        modifiers: HotkeyModifiers {
            ctrl: true,
            alt: false,
            shift: false,
            meta: false,
        },
        state: HotkeyState::Pressed,
    };

    assert_eq!(manager.resolve(&event), Some("toggle-capture".to_string()));
}

#[test]
fn hotkey_manager_requires_exact_modifiers() {
    let mut manager = HotkeyManager::new();
    let hotkey = Hotkey {
        key: HotkeyKey::F9,
        modifiers: HotkeyModifiers {
            ctrl: true,
            alt: false,
            shift: false,
            meta: false,
        },
    };

    manager.register(hotkey, "toggle-capture".to_string());

    let event = HotkeyEvent {
        key: HotkeyKey::F9,
        modifiers: HotkeyModifiers {
            ctrl: false,
            alt: false,
            shift: false,
            meta: false,
        },
        state: HotkeyState::Pressed,
    };

    assert_eq!(manager.resolve(&event), None);
}

#[test]
fn hotkey_manager_respects_trigger_type() {
    let mut manager = HotkeyManager::new();
    let hotkey = Hotkey {
        key: HotkeyKey::F10,
        modifiers: HotkeyModifiers::none(),
    };

    manager.register_with_trigger(hotkey, HotkeyTrigger::Released, "release-only".to_string());

    let pressed_event = HotkeyEvent {
        key: HotkeyKey::F10,
        modifiers: HotkeyModifiers::none(),
        state: HotkeyState::Pressed,
    };
    let released_event = HotkeyEvent {
        key: HotkeyKey::F10,
        modifiers: HotkeyModifiers::none(),
        state: HotkeyState::Released,
    };

    assert_eq!(manager.resolve(&pressed_event), None);
    assert_eq!(manager.resolve(&released_event), Some("release-only".to_string()));
}

#[test]
fn hotkey_manager_supports_multiple_triggers() {
    let mut manager = HotkeyManager::new();
    let hotkey = Hotkey {
        key: HotkeyKey::F11,
        modifiers: HotkeyModifiers::none(),
    };

    manager.register_with_trigger(hotkey, HotkeyTrigger::Pressed, "start".to_string());
    manager.register_with_trigger(hotkey, HotkeyTrigger::Released, "stop".to_string());

    let pressed_event = HotkeyEvent {
        key: HotkeyKey::F11,
        modifiers: HotkeyModifiers::none(),
        state: HotkeyState::Pressed,
    };
    let released_event = HotkeyEvent {
        key: HotkeyKey::F11,
        modifiers: HotkeyModifiers::none(),
        state: HotkeyState::Released,
    };

    assert_eq!(manager.resolve(&pressed_event), Some("start".to_string()));
    assert_eq!(manager.resolve(&released_event), Some("stop".to_string()));
}

#[test]
fn hotkey_manager_unregister_removes_both_triggers() {
    let mut manager = HotkeyManager::new();
    let hotkey = Hotkey {
        key: HotkeyKey::F9,
        modifiers: HotkeyModifiers::none(),
    };
    manager.register_with_trigger(hotkey, HotkeyTrigger::Pressed, "ptt".to_string());
    manager.register_with_trigger(hotkey, HotkeyTrigger::Released, "ptt".to_string());
    manager.unregister(&hotkey);

    let pressed_event = HotkeyEvent {
        key: HotkeyKey::F9,
        modifiers: HotkeyModifiers::none(),
        state: HotkeyState::Pressed,
    };
    assert_eq!(manager.resolve(&pressed_event), None);
}

#[test]
fn hotkey_listener_ignores_repeat_presses() {
    let mut manager = HotkeyManager::new();
    let hotkey = Hotkey {
        key: HotkeyKey::F9,
        modifiers: HotkeyModifiers::none(),
    };
    manager.register(hotkey, "toggle-capture".to_string());

    let mut listener = ListenerState::new();
    let mut result = Vec::new();
    for (key, pressed) in [
        (KeyInput::Key(HotkeyKey::F9), true),
        (KeyInput::Key(HotkeyKey::F9), true),
        (KeyInput::Key(HotkeyKey::F9), false),
    ] {
        if let Some(event) = listener.process(key, pressed, &manager) {
            result.push(event);
        }
    }

    // The release edge has no binding (only Pressed was registered), so
    // exactly one action event comes out.
    assert_eq!(result.len(), 1);
    assert_eq!(result[0].action, "toggle-capture");
    assert_eq!(result[0].state, HotkeyState::Pressed);
}

#[test]
fn hotkey_listener_allows_modifier_variants() {
    let mut manager = HotkeyManager::new();
    let plain_hotkey = Hotkey {
        key: HotkeyKey::F9,
        modifiers: HotkeyModifiers::none(),
    };
    let ctrl_hotkey = Hotkey {
        key: HotkeyKey::F9,
        modifiers: HotkeyModifiers {
            ctrl: true,
            alt: false,
            shift: false,
            meta: false,
        },
    };
    manager.register(plain_hotkey, "plain".to_string());
    manager.register(ctrl_hotkey, "ctrl".to_string());

    let mut listener = ListenerState::new();
    let mut result = Vec::new();
    for (key, pressed) in [
        (KeyInput::Key(HotkeyKey::F9), true),
        (KeyInput::ControlLeft, true),
        (KeyInput::Key(HotkeyKey::F9), true),
        (KeyInput::Key(HotkeyKey::F9), false),
        (KeyInput::ControlLeft, false),
    ] {
        if let Some(event) = listener.process(key, pressed, &manager) {
            result.push(event);
        }
    }

    assert_eq!(result.len(), 2);
    assert_eq!(result[0].action, "plain");
    assert_eq!(result[1].action, "ctrl");
}

#[test]
fn listener_suppresses_release_of_untracked_key() {
    let mut manager = HotkeyManager::new();
    let hotkey = Hotkey {
        key: HotkeyKey::A,
        modifiers: HotkeyModifiers::none(),
    };
    manager.register_with_trigger(hotkey, HotkeyTrigger::Released, "ptt".to_string());

    let mut listener = ListenerState::new();
    let event = listener.process(KeyInput::Key(HotkeyKey::A), false, &manager);
    assert!(event.is_none());
}

#[test]
fn listener_never_emits_for_modifier_keys() {
    let manager = HotkeyManager::new();
    let mut listener = ListenerState::new();
    for key in [
        KeyInput::ControlLeft,
        KeyInput::ControlRight,
        KeyInput::ShiftLeft,
        KeyInput::ShiftRight,
        KeyInput::Alt,
        KeyInput::AltGr,
        KeyInput::MetaLeft,
        KeyInput::MetaRight,
    ] {
        assert!(listener.process(key, true, &manager).is_none());
        assert!(listener.process(key, false, &manager).is_none());
    }
}
