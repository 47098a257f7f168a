//! The transcription engines over mock bindings, and the CLI output
//! parser.

use std::cell::Cell;
use std::collections::HashMap;
use std::sync::Mutex;

use sha2::Digest;

use openwhisperai::engine::{
    BindingError, EngineError, TranscriptionPipeline, TranscriptionWrapper, WhisperBindings,
    WhisperCppEngine, parse_cli_output,
};
use openwhisperai::model::{ModelDownloader, ModelError, ModelId, ModelManager, ModelSpec, ModelStorage};

#[derive(Default)]
struct MemStorage {
    files: Mutex<HashMap<String, Vec<u8>>>,
}

impl ModelStorage for MemStorage {
    fn file_size(&self, path: &str) -> Result<Option<u64>, String> {
        Ok(self
            .files
            .lock()
            .unwrap()
            .get(path)
            .map(|bytes| bytes.len() as u64))
    }

    fn file_sha256_hex(&self, path: &str) -> Result<String, String> {
        let files = self.files.lock().unwrap();
        let bytes = files.get(path).ok_or_else(|| "missing file".to_string())?;
        Ok(hex::encode(sha2::Sha256::digest(bytes)))
    }

    fn write_file(&mut self, path: &str, bytes: &Vec<u8>) -> Result<(), String> {
        self.files
            .lock()
            .unwrap()
            .insert(path.to_string(), bytes.clone());
        Ok(())
    }

    fn rename(&mut self, from: &str, to: &str) -> Result<(), String> {
        let mut files = self.files.lock().unwrap();
        let bytes = files.remove(from).ok_or_else(|| "missing file".to_string())?;
        files.insert(to.to_string(), bytes);
        Ok(())
    }
}

struct MockDownloader {
    bytes: Vec<u8>,
    calls: Cell<usize>,
}

impl MockDownloader {
    fn new(bytes: Vec<u8>) -> Self {
        Self {
            bytes,
            calls: Cell::new(0),
        }
    }
}

impl ModelDownloader for MockDownloader {
    fn download(&self, _url: &str) -> Result<Vec<u8>, ModelError> {
        self.calls.set(self.calls.get() + 1);
        Ok(self.bytes.clone())
    }
}

struct MockBindings;

struct MockContext {
    _path: String,
}

impl WhisperBindings for MockBindings {
    type Context = MockContext;

    fn init_from_file(path: &str) -> Result<Self::Context, BindingError> {
        Ok(MockContext {
            _path: path.to_string(),
        })
    }

    fn transcribe(_context: &Self::Context, _audio: &[i32]) -> Result<String, BindingError> {
        Ok("mock transcript".to_string())
    }
}

fn manager_with_mock_model(storage: &mut MemStorage) -> ModelManager {
    let mut manager = ModelManager::new("root".to_string());
    let spec = ModelSpec::new(ModelId::Custom("mock".to_string()), "mock.bin".to_string())
        .with_size(1);
    manager.register_model(spec);
    manager
        .write_model_bytes(&ModelId::Custom("mock".to_string()), &vec![0u8], storage)
        .expect("write model");
    manager
}

#[test]
fn engine_loads_with_mock_bindings() {
    let mut storage = MemStorage::default();
    let manager = manager_with_mock_model(&mut storage);

    let engine = WhisperCppEngine::<MockBindings>::with_bindings(
        &manager,
        ModelId::Custom("mock".to_string()),
        &storage,
    );
    assert!(engine.is_ok());
}

#[test]
fn engine_rejects_empty_audio() {
    let mut storage = MemStorage::default();
    let manager = manager_with_mock_model(&mut storage);

    let engine = WhisperCppEngine::<MockBindings>::with_bindings(
        &manager,
        ModelId::Custom("mock".to_string()),
        &storage,
    )
    .expect("engine loads");
    let result = engine.transcribe_audio(&[]);
    assert!(matches!(result, Err(EngineError::EmptyAudio)));
}

#[test]
fn engine_uses_bindings_for_transcription() {
    let mut storage = MemStorage::default();
    let manager = manager_with_mock_model(&mut storage);

    let engine = WhisperCppEngine::<MockBindings>::with_bindings(
        &manager,
        ModelId::Custom("mock".to_string()),
        &storage,
    )
    .expect("engine loads");
    let result = engine
        .transcribe_audio(&[100_000, 200_000, 300_000])
        .expect("transcribe");
    assert_eq!(result.text, "mock transcript");
}

#[test]
fn engine_returns_binding_errors() {
    struct ErrorBindings;

    impl WhisperBindings for ErrorBindings {
        type Context = MockContext;

        fn init_from_file(path: &str) -> Result<Self::Context, BindingError> {
            Ok(MockContext {
                _path: path.to_string(),
            })
        }

        fn transcribe(_context: &Self::Context, _audio: &[i32]) -> Result<String, BindingError> {
            Err(BindingError::Unavailable)
        }
    }

    let mut storage = MemStorage::default();
    let manager = manager_with_mock_model(&mut storage);

    let engine = WhisperCppEngine::<ErrorBindings>::with_bindings(
        &manager,
        ModelId::Custom("mock".to_string()),
        &storage,
    )
    .expect("engine loads");
    let result = engine.transcribe_audio(&[100_000]);
    assert!(matches!(
        result,
        Err(EngineError::Binding(BindingError::Unavailable))
    ));
}

#[test]
fn pipeline_downloads_model_and_transcribes() {
    let storage = MemStorage::default();
    let mut manager = ModelManager::new("root".to_string());
    let spec = ModelSpec::new(
        ModelId::Custom("pipeline".to_string()),
        "pipeline.bin".to_string(),
    )
    .with_download_url("file://mock".to_string())
    .with_size(4);
    manager.register_model(spec);

    let downloader = MockDownloader::new(vec![0u8; 4]);
    let mut pipeline =
        TranscriptionPipeline::<MockBindings, _, _>::new(manager, downloader, storage);
    let result = pipeline
        .transcribe(ModelId::Custom("pipeline".to_string()), &[100_000])
        .expect("transcribe");
    assert_eq!(result.text, "mock transcript");
}

#[test]
fn pipeline_reuses_cached_model() {
    let storage = MemStorage::default();
    let mut manager = ModelManager::new("root".to_string());
    let spec = ModelSpec::new(
        ModelId::Custom("cached".to_string()),
        "cached.bin".to_string(),
    )
    .with_download_url("file://mock".to_string())
    .with_size(2);
    manager.register_model(spec);

    let downloader = MockDownloader::new(vec![1u8, 2u8]);
    let mut pipeline =
        TranscriptionPipeline::<MockBindings, _, _>::new(manager, downloader, storage);
    let _ = pipeline
        .transcribe(ModelId::Custom("cached".to_string()), &[100_000])
        .expect("transcribe");
    let _ = pipeline
        .transcribe(ModelId::Custom("cached".to_string()), &[200_000])
        .expect("transcribe again");
    let (_manager, downloader, _storage) = pipeline.into_parts();
    assert_eq!(downloader.calls.get(), 1);
}

#[test]
fn wrapper_falls_back_when_bindings_unavailable_at_load() {
    struct UnavailableBindings;

    impl WhisperBindings for UnavailableBindings {
        type Context = MockContext;

        fn init_from_file(_path: &str) -> Result<Self::Context, BindingError> {
            Err(BindingError::Unavailable)
        }

        fn transcribe(_context: &Self::Context, _audio: &[i32]) -> Result<String, BindingError> {
            Err(BindingError::Unavailable)
        }
    }

    let mut storage = MemStorage::default();
    let mut manager = ModelManager::new("root".to_string());
    let spec = ModelSpec::new(
        ModelId::Custom("wrapper".to_string()),
        "wrapper.bin".to_string(),
    )
    .with_size(1);
    manager.register_model(spec);
    manager
        .write_model_bytes(&ModelId::Custom("wrapper".to_string()), &vec![0u8], &mut storage)
        .expect("write model");

    let engine = TranscriptionWrapper::<UnavailableBindings>::with_bindings(
        &manager,
        ModelId::Custom("wrapper".to_string()),
        &storage,
    )
    .expect("wrapper loads");
    assert!(!engine.bindings_available());
    let result = engine
        .transcribe_audio(&[100_000, 200_000])
        .expect("fallback transcribe");
    assert_eq!(result.text, "");
}

#[test]
fn wrapper_falls_back_when_transcribe_unavailable() {
    struct TranscribeUnavailableBindings;

    impl WhisperBindings for TranscribeUnavailableBindings {
        type Context = MockContext;

        fn init_from_file(path: &str) -> Result<Self::Context, BindingError> {
            Ok(MockContext {
                _path: path.to_string(),
            })
        }

        fn transcribe(_context: &Self::Context, _audio: &[i32]) -> Result<String, BindingError> {
            Err(BindingError::Unavailable)
        }
    }

    let mut storage = MemStorage::default();
    let mut manager = ModelManager::new("root".to_string());
    let spec = ModelSpec::new(
        ModelId::Custom("wrapper".to_string()),
        "wrapper.bin".to_string(),
    )
    .with_size(1);
    manager.register_model(spec);
    manager
        .write_model_bytes(&ModelId::Custom("wrapper".to_string()), &vec![0u8], &mut storage)
        .expect("write model");

    let engine = TranscriptionWrapper::<TranscribeUnavailableBindings>::with_bindings(
        &manager,
        ModelId::Custom("wrapper".to_string()),
        &storage,
    )
    .expect("wrapper loads");
    assert!(engine.bindings_available());
    let result = engine.transcribe_audio(&[100_000]).expect("fallback transcribe");
    assert_eq!(result.text, "");
}

#[test]
fn wrapper_propagates_non_unavailable_errors() {
    struct InitFailedBindings;

    impl WhisperBindings for InitFailedBindings {
        type Context = MockContext;

        fn init_from_file(_path: &str) -> Result<Self::Context, BindingError> {
            Err(BindingError::InitFailed)
        }

        fn transcribe(_context: &Self::Context, _audio: &[i32]) -> Result<String, BindingError> {
            Ok("should-not-run".to_string())
        }
    }

    let mut storage = MemStorage::default();
    let mut manager = ModelManager::new("root".to_string());
    let spec = ModelSpec::new(
        ModelId::Custom("wrapper".to_string()),
        "wrapper.bin".to_string(),
    )
    .with_size(1);
    manager.register_model(spec);
    manager
        .write_model_bytes(&ModelId::Custom("wrapper".to_string()), &vec![0u8], &mut storage)
        .expect("write model");

    let result = TranscriptionWrapper::<InitFailedBindings>::with_bindings(
        &manager,
        ModelId::Custom("wrapper".to_string()),
        &storage,
    );
    assert!(matches!(
        result,
        Err(EngineError::Binding(BindingError::InitFailed))
    ));
}

#[test]
fn engine_errors_read_like_their_causes() {
    assert_eq!(
        EngineError::EmptyAudio.message(),
        "audio buffer is empty"
    );
    assert_eq!(
        EngineError::Binding(BindingError::Unavailable).message(),
        "binding error: whisper.cpp bindings unavailable"
    );
}

#[test]
fn parse_cli_output_strips_timestamps() {
    let output = "[00:00.000 --> 00:01.000] Hello\n[00:01.000 --> 00:02.000] world";
    assert_eq!(parse_cli_output(output), "Hello world");
}

#[test]
fn parse_cli_output_keeps_plain_lines_and_drops_blank_ones() {
    let output = "  plain line  \n\n[00:00.000] tail\n[no closing bracket\n[00:01.000]   \n";
    assert_eq!(parse_cli_output(output), "plain line tail");
}
