//! The backend state machine, the orchestrator, settings merging, and the
//! version string.

use std::sync::{Arc, Mutex};

use openwhisperai::settings::{
    AppSettings, AppVersion, BackendEvent, BackendState, OverlayPosition, SettingsUpdate,
};
use openwhisperai::state::{BackendOrchestrator, BackendStateEmitter, StateMachine};

#[test]
fn state_machine_happy_path() {
    let mut machine = StateMachine::new();

    assert_eq!(machine.current(), BackendState::Idle);
    assert_eq!(
        machine.apply(BackendEvent::StartRecording).unwrap(),
        BackendState::Recording
    );
    assert_eq!(
        machine.apply(BackendEvent::StopRecording).unwrap(),
        BackendState::Processing
    );
    assert_eq!(
        machine.apply(BackendEvent::FinishProcessing).unwrap(),
        BackendState::Idle
    );
}

#[test]
fn state_machine_processing_from_idle() {
    let mut machine = StateMachine::new();

    assert_eq!(
        machine.apply(BackendEvent::StartProcessing).unwrap(),
        BackendState::Processing
    );
}

#[test]
fn state_machine_error_and_reset() {
    let mut machine = StateMachine::new();

    assert_eq!(
        machine
            .apply(BackendEvent::Fail {
                message: "boom".to_string(),
            })
            .unwrap(),
        BackendState::Error {
            message: "boom".to_string()
        }
    );
    assert_eq!(
        machine.apply(BackendEvent::Reset).unwrap(),
        BackendState::Idle
    );
}

#[test]
fn reset_from_processing_is_allowed() {
    let mut machine = StateMachine::new();
    let _ = machine.apply(BackendEvent::StartProcessing).unwrap();
    assert_eq!(
        machine.apply(BackendEvent::Reset).unwrap(),
        BackendState::Idle
    );
}

#[test]
fn invalid_transition_keeps_state() {
    let mut machine = StateMachine::new();

    let err = machine.apply(BackendEvent::FinishProcessing).unwrap_err();
    assert!(err.contains("invalid transition"));
    assert_eq!(machine.current(), BackendState::Idle);
}

#[test]
fn rejected_events_name_the_rejection() {
    let mut machine = StateMachine::new();
    assert_eq!(
        machine.apply(BackendEvent::StopRecording).unwrap_err(),
        "invalid transition"
    );
}

#[derive(Default)]
struct TestEmitter {
    states: Mutex<Vec<BackendState>>,
}

impl TestEmitter {
    fn states(&self) -> Vec<BackendState> {
        self.states
            .lock()
            .unwrap_or_else(|poisoned| poisoned.into_inner())
            .clone()
    }
}

struct EmitterHandle(Arc<TestEmitter>);

impl BackendStateEmitter for EmitterHandle {
    fn emit_state(&self, state: &BackendState) {
        let mut guard = self
            .0
            .states
            .lock()
            .unwrap_or_else(|poisoned| poisoned.into_inner());
        guard.push(state.clone());
    }
}

#[test]
fn orchestrator_emits_state_changes() {
    let emitter = Arc::new(TestEmitter::default());
    let mut orchestrator = BackendOrchestrator::with_emitter(
        AppSettings::default(),
        EmitterHandle(Arc::clone(&emitter)),
    );

    let next = orchestrator
        .apply_event(BackendEvent::StartRecording)
        .unwrap();

    assert_eq!(next, BackendState::Recording);
    assert_eq!(emitter.states(), vec![BackendState::Recording]);
}

#[test]
fn orchestrator_rejects_invalid_event_and_emits_nothing() {
    let emitter = Arc::new(TestEmitter::default());
    let mut orchestrator = BackendOrchestrator::with_emitter(
        AppSettings::default(),
        EmitterHandle(Arc::clone(&emitter)),
    );

    assert!(orchestrator.apply_event(BackendEvent::StopRecording).is_err());
    assert_eq!(orchestrator.current_state(), BackendState::Idle);
    assert!(emitter.states().is_empty());
}

#[test]
fn settings_update_merges_fields() {
    let settings = AppSettings::default();
    let update = SettingsUpdate {
        input_device: Some("USB Mic".to_string()),
        latency_ms: Some(900),
        overlay_position: Some(OverlayPosition::Floating),
        ..SettingsUpdate::default()
    };

    let merged = settings.apply_update(update);
    assert_eq!(merged.input_device, "USB Mic");
    assert_eq!(merged.latency_ms, 900);
    assert_eq!(merged.overlay_position, OverlayPosition::Floating);
    assert_eq!(merged.auto_export, settings.auto_export);
}

#[test]
fn version_string_formats() {
    let version = AppVersion::new(1, 2, 3);
    assert_eq!(version.as_string(), "1.2.3");
}
