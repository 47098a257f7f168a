//! The shared model store and the published status payload.

use std::collections::HashMap;
use std::sync::Mutex;

use openwhisperai::hotkeys::{Hotkey, HotkeyKey, HotkeyManager, HotkeyModifiers, HotkeyTrigger};
use openwhisperai::model::{model_id_from_name, ModelId, ModelStorage};
use openwhisperai::engine::LocalTranscriber;
use openwhisperai::settings::ModelInstallStatus;
use openwhisperai::state::{build_model_status_payload, ModelStore};

#[derive(Default)]
struct MemStorage {
    files: Mutex<HashMap<String, Vec<u8>>>,
}

impl MemStorage {
    fn with_file(path: &str) -> Self {
        let storage = Self::default();
        storage
            .files
            .lock()
            .unwrap()
            .insert(path.to_string(), vec![0u8]);
        storage
    }
}

impl ModelStorage for MemStorage {
    fn file_size(&self, path: &str) -> Result<Option<u64>, String> {
        Ok(self
            .files
            .lock()
            .unwrap()
            .get(path)
            .map(|bytes| bytes.len() as u64))
    }

    fn file_sha256_hex(&self, _path: &str) -> Result<String, String> {
        Err("no digests here".to_string())
    }

    fn write_file(&mut self, path: &str, bytes: &Vec<u8>) -> Result<(), String> {
        self.files
            .lock()
            .unwrap()
            .insert(path.to_string(), bytes.clone());
        Ok(())
    }

    fn rename(&mut self, _from: &str, _to: &str) -> Result<(), String> {
        Err("no renames here".to_string())
    }
}

#[test]
fn model_store_tracks_overrides_and_transcript() {
    let mut store = ModelStore::new();
    store.set_override("base".to_string(), ModelInstallStatus::Downloading);
    store.set_override("tiny".to_string(), ModelInstallStatus::Failed);
    store.set_override("base".to_string(), ModelInstallStatus::Failed);

    let overrides = store.overrides_snapshot();
    assert_eq!(overrides.len(), 2);
    assert!(overrides
        .iter()
        .any(|(id, st)| id == "base" && *st == ModelInstallStatus::Failed));

    store.clear_override("base");
    assert_eq!(store.overrides_snapshot().len(), 1);

    store.set_last_transcript("hello".to_string());
    assert_eq!(store.last_transcript(), Some("hello".to_string()));

    store.set_active_model(Some("tiny".to_string()));
    let snapshot = store.snapshot();
    assert_eq!(snapshot.active_model, Some("tiny".to_string()));
}

#[test]
fn status_payload_lists_standard_models_and_counts_the_queue() {
    let storage = MemStorage::with_file("root/ggml-base.bin");
    let overrides = vec![("small".to_string(), ModelInstallStatus::Downloading)];
    let active = "base".to_string();

    let payload = build_model_status_payload(&storage, "root", Some(&active), &overrides);

    assert_eq!(payload.models.len(), 5);
    assert_eq!(payload.active_model, Some("base".to_string()));
    let base = &payload.models[1];
    assert_eq!(base.id, "base");
    assert_eq!(base.status, ModelInstallStatus::Ready);
    assert_eq!(base.progress, 100);
    assert!(base.active);
    let small = &payload.models[2];
    assert_eq!(small.status, ModelInstallStatus::Downloading);
    assert_eq!(small.progress, 0);
    // tiny, small, medium, large are pending or downloading: four queued.
    assert_eq!(payload.queue_count, 4);
}

#[test]
fn status_payload_appends_an_active_custom_model() {
    let storage = MemStorage::default();
    let overrides = Vec::new();
    let active = "mine".to_string();

    let payload = build_model_status_payload(&storage, "root", Some(&active), &overrides);

    assert_eq!(payload.models.len(), 6);
    let custom = &payload.models[5];
    assert_eq!(custom.id, "mine");
    assert!(custom.active);
    assert_eq!(custom.status, ModelInstallStatus::Pending);
}

#[test]
fn local_transcriber_registers_standard_and_custom_models() {
    let transcriber = LocalTranscriber::new(
        "root".to_string(),
        ModelId::Custom("mine".to_string()),
    );
    let manager = transcriber.manager();
    assert_eq!(
        manager.model_path(&ModelId::Base).unwrap(),
        "root/ggml-base.bin"
    );
    assert_eq!(
        manager
            .model_path(&ModelId::Custom("mine".to_string()))
            .unwrap(),
        "root/mine.bin"
    );
}

#[test]
fn model_names_resolve_case_insensitively() {
    assert!(matches!(model_id_from_name(None), ModelId::Base));
    assert!(matches!(model_id_from_name(Some(" TINY ")), ModelId::Tiny));
    assert!(matches!(model_id_from_name(Some("Large")), ModelId::Large));
    match model_id_from_name(Some("special")) {
        ModelId::Custom(name) => assert_eq!(name, "special"),
        other => panic!("unexpected id: {:?}", other),
    }
}

#[test]
fn register_with_trigger_returns_the_displaced_binding() {
    let mut manager = HotkeyManager::new();
    let hotkey = Hotkey {
        key: HotkeyKey::F9,
        modifiers: HotkeyModifiers::none(),
    };
    assert!(manager
        .register_with_trigger(hotkey, HotkeyTrigger::Pressed, "first".to_string())
        .is_none());
    let displaced = manager
        .register_with_trigger(hotkey, HotkeyTrigger::Pressed, "second".to_string())
        .expect("the first binding is displaced");
    assert_eq!(displaced.action, "first");
    assert_eq!(displaced.trigger, HotkeyTrigger::Pressed);
}
