//! The PTT runtime core: hotkey payload parsing, the edge and toggle
//! policies, publication bookkeeping, and the toggle debounce.

use openwhisperai::capture::CaptureLatch;
use openwhisperai::hotkeys::{Hotkey, HotkeyActionEvent, HotkeyKey, HotkeyModifiers, HotkeyState};
use openwhisperai::runtime::{
    duplicate_state, parse_hotkey_key, paste_command_candidates, type_command_candidates,
    state_eq, CompletionEvent, EdgeAction, PttHotkeyModifiers, PttHotkeyPayload, PttRuntime,
    PttState, ToggleDebounce, TogglePlan,
};
use openwhisperai::settings::AppSettings;

#[test]
fn hotkey_payload_parses_letters() {
    let payload = PttHotkeyPayload {
        key: "k".to_string(),
        modifiers: PttHotkeyModifiers {
            ctrl: true,
            alt: false,
            shift: false,
            meta: false,
        },
    };
    let hotkey = payload.to_hotkey().expect("hotkey");
    assert_eq!(hotkey.key, HotkeyKey::K);
    assert!(hotkey.modifiers.ctrl);
}

#[test]
fn hotkey_payload_rejects_unknown_key() {
    let payload = PttHotkeyPayload {
        key: "unknown".to_string(),
        modifiers: PttHotkeyModifiers {
            ctrl: false,
            alt: false,
            shift: false,
            meta: false,
        },
    };
    let result = payload.to_hotkey();
    assert!(result.is_err());
    assert_eq!(result.unwrap_err(), "unsupported hotkey key 'unknown'");
}

#[test]
fn hotkey_key_names_parse_case_insensitively() {
    assert_eq!(parse_hotkey_key("F9"), Some(HotkeyKey::F9));
    assert_eq!(parse_hotkey_key("  space "), Some(HotkeyKey::Space));
    assert_eq!(parse_hotkey_key("ESCAPE"), Some(HotkeyKey::Escape));
    assert_eq!(parse_hotkey_key("Q"), Some(HotkeyKey::Q));
    assert_eq!(parse_hotkey_key("f13"), None);
    assert_eq!(parse_hotkey_key(""), None);
}

#[test]
fn paste_candidates_prefer_wayland_helper() {
    let wayland_candidates = paste_command_candidates(true);
    let x11_candidates = paste_command_candidates(false);

    assert_eq!(
        wayland_candidates.first().map(|(cmd, _)| *cmd),
        Some("wtype")
    );
    assert_eq!(x11_candidates.first().map(|(cmd, _)| *cmd), Some("xdotool"));
}

#[test]
fn type_candidates_carry_the_text() {
    let candidates = type_command_candidates(true, "hello");
    assert_eq!(candidates[0].0, "wtype");
    assert_eq!(candidates[0].1, vec!["--".to_string(), "hello".to_string()]);
    assert_eq!(candidates[1].0, "xdotool");
    assert_eq!(
        candidates[1].1,
        vec![
            "type".to_string(),
            "--clearmodifiers".to_string(),
            "hello".to_string()
        ]
    );
}

fn f9() -> Hotkey {
    Hotkey {
        key: HotkeyKey::F9,
        modifiers: HotkeyModifiers::none(),
    }
}

fn ptt_edge(state: HotkeyState) -> HotkeyActionEvent {
    HotkeyActionEvent {
        action: "ptt".to_string(),
        hotkey: f9(),
        state,
    }
}

#[test]
fn runtime_cycles_through_armed_capturing_processing() {
    let mut runtime = PttRuntime::new(f9());
    let mut published: Vec<PttState> = Vec::new();

    if let Some(state) = runtime.arm(AppSettings::default(), Some("base".to_string())) {
        published.push(state);
    }
    let (action, publish) = runtime.handle_edge(&ptt_edge(HotkeyState::Pressed));
    assert_eq!(action, EdgeAction::StartCapture);
    if let Some(state) = publish {
        published.push(state);
    }
    let (action, publish) = runtime.handle_edge(&ptt_edge(HotkeyState::Released));
    assert_eq!(action, EdgeAction::FinishCapture);
    if let Some(state) = publish {
        published.push(state);
    }
    let (event, publish) = runtime.complete_transcription(Ok("hello world".to_string()));
    assert!(matches!(event, CompletionEvent::Transcript(t) if t == "hello world"));
    if let Some(state) = publish {
        published.push(state);
    }

    let expected = [
        PttState::Armed,
        PttState::Capturing,
        PttState::Processing,
        PttState::Armed,
    ];
    assert_eq!(published.len(), expected.len());
    for (got, want) in published.iter().zip(expected.iter()) {
        assert!(state_eq(got, want));
    }
    // The last published state is the current state.
    assert!(state_eq(&runtime.state(), published.last().unwrap()));
}

#[test]
fn runtime_captures_exactly_the_gated_samples() {
    let mut runtime = PttRuntime::new(f9());
    let mut gate = CaptureLatch::new("ptt".to_string());
    runtime.arm(AppSettings::default(), Some("base".to_string()));

    gate.on_samples(&[900_000]);
    let (action, _) = runtime.handle_edge(&ptt_edge(HotkeyState::Pressed));
    assert_eq!(action, EdgeAction::StartCapture);
    gate.handle_hotkey_action(&ptt_edge(HotkeyState::Pressed));

    gate.on_samples(&[100_000, 200_000, 300_000]);

    let (action, _) = runtime.handle_edge(&ptt_edge(HotkeyState::Released));
    assert_eq!(action, EdgeAction::FinishCapture);
    gate.handle_hotkey_action(&ptt_edge(HotkeyState::Released));

    gate.on_samples(&[800_000]);
    assert_eq!(gate.take_audio(), vec![100_000, 200_000, 300_000]);
    assert!(gate.take_audio().is_empty());
}

#[test]
fn runtime_coerces_press_while_capturing_to_release() {
    let mut runtime = PttRuntime::new(f9());
    runtime.arm(AppSettings::default(), None);
    let (action, _) = runtime.handle_edge(&ptt_edge(HotkeyState::Pressed));
    assert_eq!(action, EdgeAction::StartCapture);
    // The release was missed; a second press finishes the capture.
    let (action, _) = runtime.handle_edge(&ptt_edge(HotkeyState::Pressed));
    assert_eq!(action, EdgeAction::FinishCapture);
    assert!(state_eq(&runtime.state(), &PttState::Processing));
}

#[test]
fn runtime_ignores_edges_while_disarmed_and_foreign_actions() {
    let mut runtime = PttRuntime::new(f9());
    let (action, publish) = runtime.handle_edge(&ptt_edge(HotkeyState::Pressed));
    assert_eq!(action, EdgeAction::Ignored);
    assert!(publish.is_none());

    runtime.arm(AppSettings::default(), None);
    let foreign = HotkeyActionEvent {
        action: "other".to_string(),
        hotkey: f9(),
        state: HotkeyState::Pressed,
    };
    let (action, _) = runtime.handle_edge(&foreign);
    assert_eq!(action, EdgeAction::Ignored);
}

#[test]
fn manual_toggle_is_idempotent_in_processing() {
    let mut runtime = PttRuntime::new(f9());
    runtime.arm(AppSettings::default(), None);
    runtime.handle_edge(&ptt_edge(HotkeyState::Pressed));
    runtime.handle_edge(&ptt_edge(HotkeyState::Released));
    assert!(state_eq(&runtime.state(), &PttState::Processing));
    assert_eq!(runtime.manual_toggle_plan(), TogglePlan::Stay);
}

#[test]
fn manual_toggle_auto_arms_from_idle() {
    let runtime = PttRuntime::new(f9());
    assert_eq!(
        runtime.manual_toggle_plan(),
        TogglePlan::Toggle {
            needs_arm: true,
            edge: HotkeyState::Pressed
        }
    );
}

#[test]
fn manual_toggle_alternates_between_armed_and_capturing() {
    let mut runtime = PttRuntime::new(f9());
    runtime.arm(AppSettings::default(), None);
    assert_eq!(
        runtime.manual_toggle_plan(),
        TogglePlan::Toggle {
            needs_arm: false,
            edge: HotkeyState::Pressed
        }
    );
    runtime.handle_edge(&ptt_edge(HotkeyState::Pressed));
    assert_eq!(
        runtime.manual_toggle_plan(),
        TogglePlan::Toggle {
            needs_arm: false,
            edge: HotkeyState::Released
        }
    );
}

#[test]
fn completion_classifies_blank_text_as_no_speech() {
    let mut runtime = PttRuntime::new(f9());
    runtime.arm(AppSettings::default(), None);
    runtime.handle_edge(&ptt_edge(HotkeyState::Pressed));
    runtime.handle_edge(&ptt_edge(HotkeyState::Released));
    let (event, _) = runtime.complete_transcription(Ok("   \n".to_string()));
    assert!(matches!(event, CompletionEvent::NoSpeech));
    assert!(state_eq(&runtime.state(), &PttState::Armed));
}

#[test]
fn completion_after_error_returns_to_idle_when_not_armed() {
    let mut runtime = PttRuntime::new(f9());
    runtime.arm(AppSettings::default(), None);
    runtime.handle_edge(&ptt_edge(HotkeyState::Pressed));
    runtime.handle_edge(&ptt_edge(HotkeyState::Released));
    runtime.stop();
    let (event, _) = runtime.complete_transcription(Err("engine broke".to_string()));
    assert!(matches!(event, CompletionEvent::Failed(m) if m == "engine broke"));
    assert!(state_eq(&runtime.state(), &PttState::Idle));
}

#[test]
fn stop_always_returns_to_idle() {
    let mut runtime = PttRuntime::new(f9());
    runtime.arm(AppSettings::default(), None);
    runtime.handle_edge(&ptt_edge(HotkeyState::Pressed));
    let publish = runtime.stop();
    assert!(state_eq(&publish.unwrap(), &PttState::Idle));
    assert!(state_eq(&runtime.state(), &PttState::Idle));
    // Stopping again publishes nothing: same-to-same is suppressed.
    assert!(runtime.stop().is_none());
}

#[test]
fn duplicate_state_copies_error_messages() {
    let state = PttState::Error {
        message: "boom".to_string(),
    };
    let copy = duplicate_state(&state);
    assert!(state_eq(&copy, &state));
}

#[test]
fn toggle_debounce_window() {
    let mut debounce = ToggleDebounce::new();
    // Two requests 100 ms apart: the first is accepted, the second dropped.
    assert!(debounce.accept(1_000));
    assert!(!debounce.accept(1_100));
    // 500 ms after the accepted one: accepted again.
    assert!(debounce.accept(1_500));
    assert!(!debounce.accept(1_899));
    assert!(debounce.accept(1_900));
}
