//! The model manager against an in-memory file store: path resolution,
//! filename safety, size and checksum verification, and download-on-miss.

use std::cell::Cell;
use std::collections::HashMap;
use std::sync::Mutex;

use sha2::Digest;

use openwhisperai::model::{
    ModelDownloader, ModelError, ModelId, ModelManager, ModelSpec, ModelStorage,
};

/// An in-memory tree of files, hashed with the same digest the library
/// uses.
#[derive(Default)]
struct MemStorage {
    files: Mutex<HashMap<String, Vec<u8>>>,
}

impl MemStorage {
    fn contains(&self, path: &str) -> bool {
        self.files.lock().unwrap().contains_key(path)
    }
}

impl ModelStorage for MemStorage {
    fn file_size(&self, path: &str) -> Result<Option<u64>, String> {
        Ok(self
            .files
            .lock()
            .unwrap()
            .get(path)
            .map(|bytes| bytes.len() as u64))
    }

    fn file_sha256_hex(&self, path: &str) -> Result<String, String> {
        let files = self.files.lock().unwrap();
        let bytes = files.get(path).ok_or_else(|| "missing file".to_string())?;
        Ok(hex::encode(sha2::Sha256::digest(bytes)))
    }

    fn write_file(&mut self, path: &str, bytes: &Vec<u8>) -> Result<(), String> {
        self.files
            .lock()
            .unwrap()
            .insert(path.to_string(), bytes.clone());
        Ok(())
    }

    fn rename(&mut self, from: &str, to: &str) -> Result<(), String> {
        let mut files = self.files.lock().unwrap();
        let bytes = files.remove(from).ok_or_else(|| "missing file".to_string())?;
        files.insert(to.to_string(), bytes);
        Ok(())
    }
}

struct MockDownloader {
    bytes: Vec<u8>,
    calls: Cell<usize>,
}

impl MockDownloader {
    fn new(bytes: Vec<u8>) -> Self {
        Self {
            bytes,
            calls: Cell::new(0),
        }
    }
}

impl ModelDownloader for MockDownloader {
    fn download(&self, _url: &str) -> Result<Vec<u8>, ModelError> {
        self.calls.set(self.calls.get() + 1);
        Ok(self.bytes.clone())
    }
}

const HELLO_WHISPER_SHA256: &str =
    "0580f6c2a80757046ff4447551db6a268e1d1dec9d987a8f2f63bec985282a1a";
const CACHED_WHISPER_SHA256: &str =
    "6e71aff1d1c08aabddea9446942d81b9d9769d8cdf443b71551071be6d24e1c0";

#[test]
fn model_manager_resolves_registered_path() {
    let mut manager = ModelManager::new("root".to_string());
    let spec = ModelSpec::new(
        ModelId::Custom("sample".to_string()),
        "sample.bin".to_string(),
    );
    manager.register_model(spec);

    let path = manager
        .model_path(&ModelId::Custom("sample".to_string()))
        .expect("path should resolve");
    assert!(path.ends_with("sample.bin"));
}

#[test]
fn model_manager_validates_checksum_and_size() {
    let mut manager = ModelManager::new("root".to_string());
    let mut storage = MemStorage::default();
    let bytes = b"hello whisper";
    let spec = ModelSpec::new(
        ModelId::Custom("checksum".to_string()),
        "checksum.bin".to_string(),
    )
    .with_sha256(HELLO_WHISPER_SHA256.to_string())
    .with_size(bytes.len() as u64);
    manager.register_model(spec);
    manager
        .write_model_bytes(
            &ModelId::Custom("checksum".to_string()),
            &bytes.to_vec(),
            &mut storage,
        )
        .expect("write model");

    let path = manager
        .ensure_model_available(&ModelId::Custom("checksum".to_string()), &storage)
        .expect("model should be valid");
    assert!(storage.contains(&path));
}

#[test]
fn model_manager_downloads_and_caches_model() {
    let mut manager = ModelManager::new("root".to_string());
    let mut storage = MemStorage::default();
    let bytes = b"cached whisper".to_vec();
    let spec = ModelSpec::new(
        ModelId::Custom("cached".to_string()),
        "cached.bin".to_string(),
    )
    .with_download_url("file://mock".to_string())
    .with_sha256(CACHED_WHISPER_SHA256.to_string())
    .with_size(bytes.len() as u64);
    manager.register_model(spec);

    let downloader = MockDownloader::new(bytes);
    let path = manager
        .ensure_model_cached(&ModelId::Custom("cached".to_string()), &downloader, &mut storage)
        .expect("download model");
    assert!(storage.contains(&path));
    assert_eq!(downloader.calls.get(), 1);

    let path_again = manager
        .ensure_model_cached(&ModelId::Custom("cached".to_string()), &downloader, &mut storage)
        .expect("cached model");
    assert!(storage.contains(&path_again));
    assert_eq!(downloader.calls.get(), 1);
}

#[test]
fn model_manager_requires_download_url() {
    let mut manager = ModelManager::new("root".to_string());
    let mut storage = MemStorage::default();
    let spec = ModelSpec::new(
        ModelId::Custom("missing-url".to_string()),
        "missing.bin".to_string(),
    );
    manager.register_model(spec);

    let downloader = MockDownloader::new(b"data".to_vec());
    let result = manager.ensure_model_cached(
        &ModelId::Custom("missing-url".to_string()),
        &downloader,
        &mut storage,
    );
    assert!(matches!(result, Err(ModelError::MissingDownloadUrl(_))));
}

#[test]
fn model_manager_rejects_invalid_download_bytes() {
    let mut manager = ModelManager::new("root".to_string());
    let mut storage = MemStorage::default();
    let spec = ModelSpec::new(
        ModelId::Custom("bad-download".to_string()),
        "bad.bin".to_string(),
    )
    .with_download_url("file://mock".to_string())
    .with_size(4);
    manager.register_model(spec);

    let downloader = MockDownloader::new(b"toolarge".to_vec());
    let result = manager.ensure_model_cached(
        &ModelId::Custom("bad-download".to_string()),
        &downloader,
        &mut storage,
    );
    assert!(matches!(result, Err(ModelError::SizeMismatch { .. })));
}

#[test]
fn model_manager_rejects_wrong_checksum() {
    let mut manager = ModelManager::new("root".to_string());
    let mut storage = MemStorage::default();
    let bytes = b"hello whisper";
    let spec = ModelSpec::new(ModelId::Custom("bad".to_string()), "bad.bin".to_string())
        .with_sha256("deadbeef".to_string());
    manager.register_model(spec);
    manager
        .write_model_bytes(&ModelId::Custom("bad".to_string()), &bytes.to_vec(), &mut storage)
        .expect("write model");

    let result = manager.ensure_model_available(&ModelId::Custom("bad".to_string()), &storage);
    assert!(matches!(result, Err(ModelError::ChecksumMismatch { .. })));
}

#[test]
fn model_manager_rejects_path_traversal_filenames() {
    let mut manager = ModelManager::new("root".to_string());
    let spec = ModelSpec::new(ModelId::Custom("bad".to_string()), "../bad.bin".to_string());
    manager.register_model(spec);

    let result = manager.model_path(&ModelId::Custom("bad".to_string()));
    assert!(matches!(result, Err(ModelError::InvalidFilename(_))));
}

#[test]
fn model_manager_rejects_absolute_filenames() {
    let mut manager = ModelManager::new("root".to_string());
    let spec = ModelSpec::new(ModelId::Custom("abs".to_string()), "/tmp/abs.bin".to_string());
    manager.register_model(spec);

    let result = manager.model_path(&ModelId::Custom("abs".to_string()));
    assert!(matches!(result, Err(ModelError::InvalidFilename(_))));
}

#[test]
fn unsafe_filenames_fail_every_operation() {
    let mut storage = MemStorage::default();
    let downloader = MockDownloader::new(b"data".to_vec());
    for filename in ["", "/abs.bin", "../up.bin", "a/../b.bin", ".."] {
        let mut manager = ModelManager::new("root".to_string());
        let id = ModelId::Custom("m".to_string());
        manager.register_model(ModelSpec::new(id.clone(), filename.to_string()));
        assert!(
            matches!(manager.model_path(&id), Err(ModelError::InvalidFilename(_))),
            "model_path accepted {:?}",
            filename
        );
        assert!(matches!(
            manager.ensure_model_available(&id, &storage),
            Err(ModelError::InvalidFilename(_))
        ));
        assert!(matches!(
            manager.ensure_model_cached(&id, &downloader, &mut storage),
            Err(ModelError::InvalidFilename(_))
        ));
        assert!(matches!(
            manager.write_model_bytes(&id, &b"x".to_vec(), &mut storage),
            Err(ModelError::InvalidFilename(_))
        ));
    }
}

#[test]
fn dotted_names_inside_components_are_safe() {
    let mut manager = ModelManager::new("root".to_string());
    let id = ModelId::Custom("dots".to_string());
    manager.register_model(ModelSpec::new(id.clone(), "a..b/model..bin".to_string()));
    assert!(manager.model_path(&id).is_ok());
}

#[test]
fn unregistered_model_reports_its_name() {
    let manager = ModelManager::new("root".to_string());
    let result = manager.model_path(&ModelId::Custom("ghost".to_string()));
    match result {
        Err(ModelError::UnregisteredModel(name)) => assert_eq!(name, "ghost"),
        other => panic!("unexpected result: {:?}", other),
    }
}

#[test]
fn checksum_comparison_ignores_ascii_case() {
    let mut manager = ModelManager::new("root".to_string());
    let mut storage = MemStorage::default();
    let bytes = b"hello whisper";
    let spec = ModelSpec::new(ModelId::Custom("up".to_string()), "up.bin".to_string())
        .with_sha256(HELLO_WHISPER_SHA256.to_uppercase());
    manager.register_model(spec);
    manager
        .write_model_bytes(&ModelId::Custom("up".to_string()), &bytes.to_vec(), &mut storage)
        .expect("write model");

    assert!(manager
        .ensure_model_available(&ModelId::Custom("up".to_string()), &storage)
        .is_ok());
}

#[test]
fn mismatched_cache_is_redownloaded_and_installed() {
    let mut manager = ModelManager::new("root".to_string());
    let mut storage = MemStorage::default();
    let good = b"good".to_vec();
    let id = ModelId::Custom("fix".to_string());
    let spec = ModelSpec::new(id.clone(), "fix.bin".to_string())
        .with_download_url("file://mock".to_string())
        .with_sha256("770e607624d689265ca6c44884d0807d9b054d23c473c106c72be9de08b7376c".to_string())
        .with_size(4);
    manager.register_model(spec);
    // A cached file of the right size but the wrong payload.
    manager
        .write_model_bytes(&id, &b"evil".to_vec(), &mut storage)
        .expect("write model");

    let downloader = MockDownloader::new(good);
    let path = manager
        .ensure_model_cached(&id, &downloader, &mut storage)
        .expect("redownload");
    assert_eq!(downloader.calls.get(), 1);
    assert!(storage.contains(&path));
    assert_eq!(
        storage.file_sha256_hex(&path).unwrap(),
        "770e607624d689265ca6c44884d0807d9b054d23c473c106c72be9de08b7376c"
    );
}

#[test]
fn error_messages_carry_their_details() {
    let err = ModelError::SizeMismatch {
        expected: 4,
        actual: 8,
    };
    assert_eq!(
        err.message(),
        "model size mismatch: expected 4 bytes, got 8 bytes"
    );
    let err = ModelError::UnregisteredModel("ghost".to_string());
    assert_eq!(err.message(), "model 'ghost' is not registered");
    let err = ModelError::ChecksumMismatch {
        expected: "aa".to_string(),
        actual: "bb".to_string(),
    };
    assert_eq!(err.message(), "model checksum mismatch: expected aa, got bb");
}

#[test]
fn model_display_names() {
    assert_eq!(ModelId::Tiny.display_name(), "tiny");
    assert_eq!(ModelId::Base.display_name(), "base");
    assert_eq!(ModelId::Small.display_name(), "small");
    assert_eq!(ModelId::Medium.display_name(), "medium");
    assert_eq!(ModelId::Large.display_name(), "large");
    assert_eq!(ModelId::Custom("mine".to_string()).display_name(), "mine");
}
