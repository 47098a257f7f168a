//! The model manager: a content-verified cache of model files.
//!
//! Specs are registered in memory; a model resolves to `root/filename`
//! after the filename passes a safety check.  A cached file counts as
//! present when its size and SHA-256 digest match the spec — size first,
//! the cheap reject.  `ensure_model_cached` re-downloads on a missing or
//! mismatched file, verifies the downloaded bytes, writes them to a
//! sibling `<filename>.download` and renames it over the final path.
//!
//! The file system itself stands behind the [`ModelStorage`] trait and the
//! network behind [`ModelDownloader`]; the decisions between their calls
//! are verified here.

use vstd::prelude::*;
use vstd::string::StrSliceExecFns;
use vstd::string::StringExecFns;
use crate::digest::{hex_of, sha256_of, sha256_hex};
use crate::text::{chars_of, eq_ignore_ascii_case, lower_codes, str_eq, trim_spec};

verus! {

#[derive(Debug, Clone)]
pub enum ModelId {
    Tiny,
    Base,
    Small,
    Medium,
    Large,
    Custom(String),
}

/// The name a model is shown and keyed under.
pub open spec fn spec_display_name(id: ModelId) -> Seq<char> {
    match id {
        ModelId::Tiny => "tiny"@,
        ModelId::Base => "base"@,
        ModelId::Small => "small"@,
        ModelId::Medium => "medium"@,
        ModelId::Large => "large"@,
        ModelId::Custom(name) => name@,
    }
}

/// Identity of model ids: `Custom` names compare by their characters and
/// never equal a standard id.
pub open spec fn id_eq(a: ModelId, b: ModelId) -> bool {
    match (a, b) {
        (ModelId::Tiny, ModelId::Tiny) => true,
        (ModelId::Base, ModelId::Base) => true,
        (ModelId::Small, ModelId::Small) => true,
        (ModelId::Medium, ModelId::Medium) => true,
        (ModelId::Large, ModelId::Large) => true,
        (ModelId::Custom(x), ModelId::Custom(y)) => x@ == y@,
        _ => false,
    }
}

impl ModelId {
    pub fn display_name(&self) -> (r: String)
        ensures
            r@ == spec_display_name(*self),
    {
        match self {
            ModelId::Tiny => String::from_str("tiny"),
            ModelId::Base => String::from_str("base"),
            ModelId::Small => String::from_str("small"),
            ModelId::Medium => String::from_str("medium"),
            ModelId::Large => String::from_str("large"),
            ModelId::Custom(name) => name.clone(),
        }
    }
}

pub fn model_id_eq(a: &ModelId, b: &ModelId) -> (r: bool)
    ensures
        r == id_eq(*a, *b),
{
    match (a, b) {
        (ModelId::Tiny, ModelId::Tiny) => true,
        (ModelId::Base, ModelId::Base) => true,
        (ModelId::Small, ModelId::Small) => true,
        (ModelId::Medium, ModelId::Medium) => true,
        (ModelId::Large, ModelId::Large) => true,
        (ModelId::Custom(x), ModelId::Custom(y)) => str_eq(x.as_str(), y.as_str()),
        _ => false,
    }
}

/// The registered description of one model file.
#[derive(Debug, Clone)]
pub struct ModelSpec {
    pub id: ModelId,
    pub filename: String,
    pub download_url: Option<String>,
    pub sha256: Option<String>,
    pub size_bytes: Option<u64>,
}

impl ModelSpec {
    pub fn new(id: ModelId, filename: String) -> (r: Self)
        ensures
            r.id == id,
            r.filename == filename,
            r.download_url is None,
            r.sha256 is None,
            r.size_bytes is None,
    {
        ModelSpec { id, filename, download_url: None, sha256: None, size_bytes: None }
    }

    pub fn with_download_url(self, url: String) -> (r: Self)
        ensures
            r == (ModelSpec { download_url: Some(url), ..self }),
    {
        ModelSpec { download_url: Some(url), ..self }
    }

    pub fn with_sha256(self, sha256: String) -> (r: Self)
        ensures
            r == (ModelSpec { sha256: Some(sha256), ..self }),
    {
        ModelSpec { sha256: Some(sha256), ..self }
    }

    pub fn with_size(self, size_bytes: u64) -> (r: Self)
        ensures
            r == (ModelSpec { size_bytes: Some(size_bytes), ..self }),
    {
        ModelSpec { size_bytes: Some(size_bytes), ..self }
    }
}

#[derive(Debug)]
pub enum ModelError {
    UnregisteredModel(String),
    InvalidFilename(String),
    MissingFile(String),
    MissingDownloadUrl(String),
    DownloadFailed(String),
    SizeMismatch { expected: u64, actual: u64 },
    ChecksumMismatch { expected: String, actual: String },
    Io(String),
}

/// The human-readable text of a model error.
pub open spec fn spec_model_error_message(e: ModelError) -> Seq<char> {
    match e {
        ModelError::UnregisteredModel(name) => "model '"@ + name@ + "' is not registered"@,
        ModelError::InvalidFilename(filename) => "model filename is invalid: "@ + filename@,
        ModelError::MissingFile(path) => "model file not found at "@ + path@,
        ModelError::MissingDownloadUrl(name) => "model download url missing for '"@ + name@
            + "'"@,
        ModelError::DownloadFailed(url) => "failed to download model from "@ + url@,
        ModelError::SizeMismatch { expected, actual } => "model size mismatch: expected "@
            + crate::text::dec_digits(expected as int) + " bytes, got "@ + crate::text::dec_digits(
            actual as int,
        ) + " bytes"@,
        ModelError::ChecksumMismatch { expected, actual } => "model checksum mismatch: expected "@
            + expected@ + ", got "@ + actual@,
        ModelError::Io(detail) => "io error while handling model file: "@ + detail@,
    }
}

impl ModelError {
    pub fn message(&self) -> (r: String)
        ensures
            r@ == spec_model_error_message(*self),
    {
        match self {
            ModelError::UnregisteredModel(name) => {
                let mut out = String::from_str("model '");
                out.append(name.as_str());
                out.append("' is not registered");
                out
            },
            ModelError::InvalidFilename(filename) => {
                let mut out = String::from_str("model filename is invalid: ");
                out.append(filename.as_str());
                out
            },
            ModelError::MissingFile(path) => {
                let mut out = String::from_str("model file not found at ");
                out.append(path.as_str());
                out
            },
            ModelError::MissingDownloadUrl(name) => {
                let mut out = String::from_str("model download url missing for '");
                out.append(name.as_str());
                out.append("'");
                out
            },
            ModelError::DownloadFailed(url) => {
                let mut out = String::from_str("failed to download model from ");
                out.append(url.as_str());
                out
            },
            ModelError::SizeMismatch { expected, actual } => {
                let mut out = String::from_str("model size mismatch: expected ");
                crate::text::append_u64(&mut out, *expected);
                out.append(" bytes, got ");
                crate::text::append_u64(&mut out, *actual);
                out.append(" bytes");
                out
            },
            ModelError::ChecksumMismatch { expected, actual } => {
                let mut out = String::from_str("model checksum mismatch: expected ");
                out.append(expected.as_str());
                out.append(", got ");
                out.append(actual.as_str());
                out
            },
            ModelError::Io(detail) => {
                let mut out = String::from_str("io error while handling model file: ");
                out.append(detail.as_str());
                out
            },
        }
    }
}

/// Whether a failed cache check is repaired by re-downloading: a missing
/// file and size or checksum mismatches are; everything else is not.
pub open spec fn spec_recoverable(e: ModelError) -> bool {
    match e {
        ModelError::MissingFile(_) => true,
        ModelError::SizeMismatch { .. } => true,
        ModelError::ChecksumMismatch { .. } => true,
        _ => false,
    }
}

/// Fetches the bytes behind a download URL.
pub trait ModelDownloader {
    fn download(&self, url: &str) -> Result<Vec<u8>, ModelError>;
}

/// The file system as the manager sees it.  Outside the library an
/// implementation probes, hashes (streaming, never the whole file at
/// once), writes and renames real files; tests use an in-memory one.
pub trait ModelStorage {
    /// The size of the file at `path`, or `None` if there is no file.
    fn file_size(&self, path: &str) -> Result<Option<u64>, String>;

    /// The lowercase hex SHA-256 digest of the file at `path`.
    fn file_sha256_hex(&self, path: &str) -> Result<String, String>;

    /// Writes `bytes` to `path`, creating parent directories.
    fn write_file(&mut self, path: &str, bytes: &Vec<u8>) -> Result<(), String>;

    /// Atomically renames the file at `from` over `to`.
    fn rename(&mut self, from: &str, to: &str) -> Result<(), String>;
}

/// A `..` path component begins at `i`.
pub open spec fn parent_component_at(s: Seq<char>, i: int) -> bool {
    &&& 0 <= i
    &&& i + 2 <= s.len()
    &&& s[i] == '.'
    &&& s[i + 1] == '.'
    &&& (i == 0 || s[i - 1] == '/')
    &&& (i + 2 == s.len() || s[i + 2] == '/')
}

/// A safe model filename: non-empty, relative, and free of `..`
/// components.
pub open spec fn valid_filename(s: Seq<char>) -> bool {
    &&& s.len() > 0
    &&& s[0] != '/'
    &&& forall|i: int| !parent_component_at(s, i)
}

/// Rejects the empty, absolute and parent-escaping filenames.
#[verifier::loop_isolation(false)]
pub fn validate_model_filename(filename: &str) -> (r: Result<(), ModelError>)
    ensures
        r is Ok <==> valid_filename(filename@),
        r matches Err(e) ==> e matches ModelError::InvalidFilename(f) && f@ == filename@,
{
    let cs = chars_of(filename);
    let n = cs.len();
    if n == 0 {
        return Err(ModelError::InvalidFilename(String::from_str(filename)));
    }
    if cs[0] == '/' {
        return Err(ModelError::InvalidFilename(String::from_str(filename)));
    }
    let mut i: usize = 0;
    while i < n
        invariant
            i <= n,
            forall|k: int| k < i ==> !parent_component_at(filename@, k),
        decreases n - i,
    {
        if n - i >= 2 && cs[i] == '.' && cs[i + 1] == '.' && (i == 0 || cs[i - 1] == '/') && (n - i
            == 2 || cs[i + 2] == '/') {
            assert(parent_component_at(filename@, i as int));
            return Err(ModelError::InvalidFilename(String::from_str(filename)));
        }
        proof {
            assert(!parent_component_at(filename@, i as int));
        }
        i = i + 1;
    }
    proof {
        // Positions at or beyond the end cannot start a component, and
        // every earlier position was checked.
        assert(forall|k: int| !parent_component_at(filename@, k));
    }
    Ok(())
}

/// `root/filename`, with no doubled separator.
pub open spec fn spec_join_path(root: Seq<char>, name: Seq<char>) -> Seq<char> {
    if root.len() == 0 {
        name
    } else if root.last() == '/' {
        root + name
    } else {
        root + seq!['/'] + name
    }
}

pub fn join_path(root: &str, name: &str) -> (r: String)
    ensures
        r@ == spec_join_path(root@, name@),
{
    let n = root.unicode_len();
    let mut out = String::from_str(root);
    if n > 0 && !(root.get_char(n - 1) == '/') {
        out.append("/");
        proof {
            reveal_strlit("/");
            assert(out@ =~= root@ + seq!['/']);
        }
    }
    out.append(name);
    proof {
        if n > 0 && root@.last() != '/' {
            assert(out@ =~= root@ + seq!['/'] + name@);
        } else {
            assert(out@ =~= root@ + name@);
            if n == 0 {
                assert(out@ =~= name@);
            }
        }
    }
    out
}

/// The sibling temp file a download is written to before the rename.
pub open spec fn spec_temp_download_path(path: Seq<char>) -> Seq<char> {
    path + ".download"@
}

pub fn temp_download_path(path: &str) -> (r: String)
    ensures
        r@ == spec_temp_download_path(path@),
{
    let mut out = String::from_str(path);
    out.append(".download");
    out
}

/// Whether a found file size satisfies the spec.
pub open spec fn spec_size_ok(s: ModelSpec, len: int) -> bool {
    match s.size_bytes {
        Some(expected) => expected as int == len,
        None => true,
    }
}

/// Whether a found digest satisfies the spec, compared case-insensitively.
pub open spec fn spec_sum_ok(s: ModelSpec, digest: Seq<char>) -> bool {
    match s.sha256 {
        Some(expected) => lower_codes(expected@) == lower_codes(digest),
        None => true,
    }
}

/// Whether a file with these facts counts as a valid cached copy.
pub open spec fn spec_facts_ok(s: ModelSpec, len: int, digest: Seq<char>) -> bool {
    spec_size_ok(s, len) && spec_sum_ok(s, digest)
}

/// Judges probed file facts against the spec: size first, then checksum.
pub fn verify_model_facts(spec: &ModelSpec, actual_size: u64, digest_hex: &Option<String>) -> (r:
    Result<(), ModelError>)
    requires
        spec.sha256 is Some ==> digest_hex is Some,
    ensures
        ({
            let dig = match digest_hex {
                Some(d) => d@,
                None => Seq::<char>::empty(),
            };
            &&& (r is Ok <==> spec_facts_ok(*spec, actual_size as int, dig))
            &&& !spec_size_ok(*spec, actual_size as int) ==> (r matches Err(
                ModelError::SizeMismatch { expected, actual },
            ) && spec.size_bytes == Some(expected) && actual == actual_size)
            &&& spec_size_ok(*spec, actual_size as int) && !spec_sum_ok(*spec, dig) ==> (r
                matches Err(ModelError::ChecksumMismatch { expected, actual }) && (spec.sha256
                matches Some(e) && expected == e) && actual@ == dig)
        }),
{
    match spec.size_bytes {
        Some(expected) => {
            if actual_size != expected {
                return Err(ModelError::SizeMismatch { expected, actual: actual_size });
            }
        },
        None => {},
    }
    match (&spec.sha256, digest_hex) {
        (Some(expected), Some(actual)) => {
            if !eq_ignore_ascii_case(expected.as_str(), actual.as_str()) {
                return Err(
                    ModelError::ChecksumMismatch { expected: expected.clone(), actual: actual.clone() },
                );
            }
        },
        _ => {},
    }
    Ok(())
}

/// Judges downloaded bytes against the spec: size first, then checksum.
pub fn verify_model_bytes(spec: &ModelSpec, bytes: &[u8]) -> (r: Result<(), ModelError>)
    ensures
        r is Ok <==> spec_facts_ok(*spec, bytes@.len() as int, hex_of(sha256_of(bytes@))),
        !spec_size_ok(*spec, bytes@.len() as int) ==> (r matches Err(
            ModelError::SizeMismatch { expected, actual },
        ) && spec.size_bytes == Some(expected) && actual == bytes@.len()),
        spec_size_ok(*spec, bytes@.len() as int) && !spec_sum_ok(
            *spec,
            hex_of(sha256_of(bytes@)),
        ) ==> (r matches Err(ModelError::ChecksumMismatch { expected, actual }) && (spec.sha256
            matches Some(e) && expected == e) && actual@ == hex_of(sha256_of(bytes@))),
{
    match spec.size_bytes {
        Some(expected) => {
            if bytes.len() as u64 != expected {
                return Err(ModelError::SizeMismatch { expected, actual: bytes.len() as u64 });
            }
        },
        None => {},
    }
    match &spec.sha256 {
        Some(expected) => {
            let actual = sha256_hex(bytes);
            if !eq_ignore_ascii_case(expected.as_str(), actual.as_str()) {
                return Err(
                    ModelError::ChecksumMismatch { expected: expected.clone(), actual },
                );
            }
        },
        None => {},
    }
    Ok(())
}

/// Bytes that pass the byte check leave a file whose facts — their length
/// and their digest — pass the cached-file check, so once a download has
/// installed verified bytes, later calls find a valid cache and invoke the
/// downloader no further time.
pub proof fn lemma_verified_bytes_stay_cached(s: ModelSpec, bytes: Seq<u8>)
    requires
        spec_facts_ok(s, bytes.len() as int, hex_of(sha256_of(bytes))),
    ensures
        spec_size_ok(s, bytes.len() as int),
        spec_sum_ok(s, hex_of(sha256_of(bytes))),
{
}

/// Checks the cached file at `path` against the spec through `storage`:
/// existence, then size, then — only when the spec carries a digest — the
/// streamed SHA-256.
pub fn verify_model_file<S: ModelStorage>(storage: &S, path: &str, spec: &ModelSpec) -> (r: Result<
    (),
    ModelError,
>)
    ensures
        r matches Err(e) ==> match e {
            ModelError::MissingFile(p) => p@ == path@,
            ModelError::SizeMismatch { expected, actual } => spec.size_bytes == Some(expected)
                && expected != actual,
            ModelError::ChecksumMismatch { expected, .. } => spec.sha256 matches Some(x) && expected
                == x,
            ModelError::Io(_) => true,
            _ => false,
        },
{
    let size = match storage.file_size(path) {
        Ok(s) => s,
        Err(message) => {
            return Err(ModelError::Io(message));
        },
    };
    let actual_size = match size {
        Some(s) => s,
        None => {
            return Err(ModelError::MissingFile(String::from_str(path)));
        },
    };
    let digest_hex: Option<String> = match &spec.sha256 {
        Some(_) => match storage.file_sha256_hex(path) {
            Ok(d) => Some(d),
            Err(message) => {
                return Err(ModelError::Io(message));
            },
        },
        None => None,
    };
    verify_model_facts(spec, actual_size, &digest_hex)
}

pub fn is_recoverable(e: &ModelError) -> (r: bool)
    ensures
        r == spec_recoverable(*e),
{
    match e {
        ModelError::MissingFile(_) => true,
        ModelError::SizeMismatch { .. } => true,
        ModelError::ChecksumMismatch { .. } => true,
        _ => false,
    }
}

pub struct ModelManager {
    root: String,
    registry: Vec<ModelSpec>,
}

impl ModelManager {
    pub closed spec fn spec_root(self) -> Seq<char> {
        self.root@
    }

    /// The registered spec for `id`, if any.
    pub closed spec fn spec_find(self, id: ModelId) -> Option<ModelSpec> {
        match spec_index_of_id(self.registry@, id) {
            Some(i) => Some(self.registry@[i]),
            None => None,
        }
    }

    /// Well-formedness: each id is registered at most once.
    pub closed spec fn wf(self) -> bool {
        forall|i: int, j: int|
            0 <= i < j < self.registry@.len() ==> !id_eq(
                self.registry@[i].id,
                self.registry@[j].id,
            )
    }

    pub fn new(root: String) -> (r: Self)
        ensures
            r.wf(),
            r.spec_root() == root@,
            forall|id: ModelId| (r.spec_find(id) is None),
    {
        ModelManager { root, registry: Vec::new() }
    }

    fn find_index(&self, id: &ModelId) -> (r: Option<usize>)
        ensures
            match r {
                Some(i) => spec_index_of_id(self.registry@, *id) == Some(i as int) && i
                    < self.registry@.len() && id_eq(self.registry@[i as int].id, *id),
                None => spec_index_of_id(self.registry@, *id) is None,
            },
    {
        let n = self.registry.len();
        let mut i: usize = 0;
        while i < n
            invariant
                n == self.registry@.len(),
                i <= n,
                forall|k: int| 0 <= k < i ==> !id_eq(self.registry@[k].id, *id),
            decreases n - i,
        {
            if model_id_eq(&self.registry[i].id, id) {
                proof {
                    lemma_index_of_id_found(self.registry@, *id, i as int);
                }
                return Some(i);
            }
            i = i + 1;
        }
        proof {
            lemma_index_of_id_absent(self.registry@, *id);
        }
        None
    }

    /// Registers `spec`, replacing any spec already registered under an
    /// equal id.
    pub fn register_model(&mut self, spec: ModelSpec)
        requires
            old(self).wf(),
        ensures
            final(self).wf(),
            final(self).spec_root() == old(self).spec_root(),
            final(self).spec_find(spec.id) == Some(spec),
            forall|id: ModelId|
                !id_eq(id, spec.id) ==> final(self).spec_find(id) == old(self).spec_find(id),
    {
        let idx = self.find_index(&spec.id);
        let ghost prior = self.registry@;
        match idx {
            Some(i) => {
                self.registry[i] = spec;
                proof {
                    let e = self.registry@[i as int];
                    assert(self.registry@ == prior.update(i as int, e));
                    lemma_index_of_id_update(prior, i as int, e);
                }
            },
            None => {
                self.registry.push(spec);
                proof {
                    let e = self.registry@.last();
                    assert(self.registry@ == prior.push(e));
                    lemma_index_of_id_push(prior, e);
                }
            },
        }
        proof {
            lemma_find_respects_id_eq(self.registry@, spec.id);
        }
    }

    /// Resolves `root/filename` for `id`, after the filename safety check.
    pub fn model_path(&self, id: &ModelId) -> (r: Result<String, ModelError>)
        ensures
            ({
                match r {
                    Ok(p) => self.spec_find(*id) matches Some(s) && valid_filename(s.filename@)
                        && p@ == spec_join_path(self.spec_root(), s.filename@),
                    Err(ModelError::UnregisteredModel(n)) => (self.spec_find(*id) is None) && n@
                        == spec_display_name(*id),
                    Err(ModelError::InvalidFilename(f)) => self.spec_find(*id) matches Some(s)
                        && !valid_filename(s.filename@) && f@ == s.filename@,
                    Err(_) => false,
                }
            }),
    {
        let idx = match self.find_index(id) {
            Some(i) => i,
            None => {
                proof {
                    lemma_find_respects_id_eq(self.registry@, *id);
                }
                return Err(ModelError::UnregisteredModel(id.display_name()));
            },
        };
        let spec = &self.registry[idx];
        proof {
            lemma_find_respects_id_eq(self.registry@, *id);
        }
        match validate_model_filename(spec.filename.as_str()) {
            Ok(_) => Ok(join_path(self.root.as_str(), spec.filename.as_str())),
            Err(e) => Err(e),
        }
    }

    /// Resolves the path and checks the cached file: presence, size,
    /// digest.
    pub fn ensure_model_available<S: ModelStorage>(&self, id: &ModelId, storage: &S) -> (r: Result<
        String,
        ModelError,
    >)
        ensures
            ({
                match r {
                    Ok(p) => self.spec_find(*id) matches Some(s) && valid_filename(s.filename@)
                        && p@ == spec_join_path(self.spec_root(), s.filename@),
                    Err(ModelError::UnregisteredModel(n)) => (self.spec_find(*id) is None) && n@
                        == spec_display_name(*id),
                    Err(ModelError::InvalidFilename(f)) => self.spec_find(*id) matches Some(s)
                        && !valid_filename(s.filename@) && f@ == s.filename@,
                    Err(_) => self.spec_find(*id) matches Some(s) && valid_filename(s.filename@),
                }
            }),
    {
        let path = match self.model_path(id) {
            Ok(p) => p,
            Err(e) => {
                return Err(e);
            },
        };
        let spec = match self.find_index(id) {
            Some(i) => &self.registry[i],
            None => {
                return Err(ModelError::UnregisteredModel(id.display_name()));
            },
        };
        match verify_model_file(storage, path.as_str(), spec) {
            Ok(_) => Ok(path),
            Err(e) => Err(e),
        }
    }

    /// Like `ensure_model_available`, but a missing or mismatched file is
    /// re-downloaded, verified as bytes, written beside the target and
    /// renamed over it.  Any other failure propagates without a download;
    /// a failing download is reported as `DownloadFailed` carrying the
    /// spec's own URL.
    pub fn ensure_model_cached<S: ModelStorage, D: ModelDownloader>(
        &self,
        id: &ModelId,
        downloader: &D,
        storage: &mut S,
    ) -> (r: Result<String, ModelError>)
        ensures
            ({
                match r {
                    Ok(p) => self.spec_find(*id) matches Some(s) && valid_filename(s.filename@)
                        && p@ == spec_join_path(self.spec_root(), s.filename@),
                    Err(ModelError::UnregisteredModel(n)) => (self.spec_find(*id) is None) && n@
                        == spec_display_name(*id),
                    Err(ModelError::InvalidFilename(f)) => self.spec_find(*id) matches Some(s)
                        && !valid_filename(s.filename@) && f@ == s.filename@,
                    Err(ModelError::MissingDownloadUrl(n)) => self.spec_find(*id) matches Some(s)
                        && valid_filename(s.filename@) && (s.download_url is None) && n@
                        == spec_display_name(*id),
                    Err(ModelError::DownloadFailed(u)) => self.spec_find(*id) matches Some(s)
                        && valid_filename(s.filename@) && (s.download_url matches Some(url) && u@
                        == url@),
                    Err(_) => self.spec_find(*id) matches Some(s) && valid_filename(s.filename@),
                }
            }),
            ({
                match self.spec_find(*id) {
                    Some(s) => !valid_filename(s.filename@) ==> (r matches Err(
                        ModelError::InvalidFilename(f),
                    ) && f@ == s.filename@),
                    None => r matches Err(ModelError::UnregisteredModel(n)) && n@
                        == spec_display_name(*id),
                }
            }),
    {
        let path = match self.model_path(id) {
            Ok(p) => p,
            Err(e) => {
                return Err(e);
            },
        };
        let spec = match self.find_index(id) {
            Some(i) => &self.registry[i],
            None => {
                return Err(ModelError::UnregisteredModel(id.display_name()));
            },
        };
        match verify_model_file(storage, path.as_str(), spec) {
            Ok(_) => {
                return Ok(path);
            },
            Err(e) => {
                if !is_recoverable(&e) {
                    return Err(e);
                }
            },
        }
        let url = match &spec.download_url {
            Some(u) => u,
            None => {
                return Err(ModelError::MissingDownloadUrl(id.display_name()));
            },
        };
        let bytes = match downloader.download(url.as_str()) {
            Ok(b) => b,
            Err(_) => {
                return Err(ModelError::DownloadFailed(url.clone()));
            },
        };
        match verify_model_bytes(spec, bytes.as_slice()) {
            Ok(_) => {},
            Err(e) => {
                return Err(e);
            },
        }
        let tmp = temp_download_path(path.as_str());
        match storage.write_file(tmp.as_str(), &bytes) {
            Ok(_) => {},
            Err(message) => {
                return Err(ModelError::Io(message));
            },
        }
        match storage.rename(tmp.as_str(), path.as_str()) {
            Ok(_) => {},
            Err(message) => {
                return Err(ModelError::Io(message));
            },
        }
        Ok(path)
    }

    /// Writes `bytes` straight to the model's resolved path.
    pub fn write_model_bytes<S: ModelStorage>(
        &self,
        id: &ModelId,
        bytes: &Vec<u8>,
        storage: &mut S,
    ) -> (r: Result<String, ModelError>)
        ensures
            ({
                match r {
                    Ok(p) => self.spec_find(*id) matches Some(s) && valid_filename(s.filename@)
                        && p@ == spec_join_path(self.spec_root(), s.filename@),
                    Err(ModelError::UnregisteredModel(n)) => (self.spec_find(*id) is None) && n@
                        == spec_display_name(*id),
                    Err(ModelError::InvalidFilename(f)) => self.spec_find(*id) matches Some(s)
                        && !valid_filename(s.filename@) && f@ == s.filename@,
                    Err(ModelError::Io(_)) => true,
                    Err(_) => false,
                }
            }),
    {
        let path = match self.model_path(id) {
            Ok(p) => p,
            Err(e) => {
                return Err(e);
            },
        };
        match storage.write_file(path.as_str(), bytes) {
            Ok(_) => Ok(path),
            Err(message) => Err(ModelError::Io(message)),
        }
    }
}

spec fn spec_index_of_id(registry: Seq<ModelSpec>, id: ModelId) -> Option<int>
    decreases registry.len(),
{
    if registry.len() == 0 {
        None
    } else if id_eq(registry[0].id, id) {
        Some(0int)
    } else {
        match spec_index_of_id(registry.drop_first(), id) {
            Some(i) => Some(i + 1),
            None => None,
        }
    }
}

proof fn lemma_index_of_id_found(registry: Seq<ModelSpec>, id: ModelId, i: int)
    requires
        0 <= i < registry.len(),
        id_eq(registry[i].id, id),
        forall|k: int| 0 <= k < i ==> !id_eq(registry[k].id, id),
    ensures
        spec_index_of_id(registry, id) == Some(i),
    decreases i,
{
    if i > 0 {
        lemma_index_of_id_found(registry.drop_first(), id, i - 1);
    }
}

proof fn lemma_index_of_id_absent(registry: Seq<ModelSpec>, id: ModelId)
    requires
        forall|k: int| 0 <= k < registry.len() ==> !id_eq(registry[k].id, id),
    ensures
        spec_index_of_id(registry, id) is None,
    decreases registry.len(),
{
    if registry.len() > 0 {
        lemma_index_of_id_absent(registry.drop_first(), id);
    }
}

proof fn lemma_index_of_id_props(registry: Seq<ModelSpec>, id: ModelId)
    ensures
        match spec_index_of_id(registry, id) {
            Some(i) => 0 <= i < registry.len() && id_eq(registry[i].id, id) && (forall|k: int|
                0 <= k < i ==> !id_eq(registry[k].id, id)),
            None => forall|k: int| 0 <= k < registry.len() ==> !id_eq(registry[k].id, id),
        },
    decreases registry.len(),
{
    if registry.len() > 0 && !id_eq(registry[0].id, id) {
        let rest = registry.drop_first();
        lemma_index_of_id_props(rest, id);
        match spec_index_of_id(rest, id) {
            Some(j) => {
                assert(registry[j + 1] == rest[j]);
                assert forall|k: int| 0 <= k < j + 1 implies !id_eq(registry[k].id, id) by {
                    if k > 0 {
                        assert(registry[k] == rest[k - 1]);
                    }
                }
            },
            None => {
                assert forall|k: int| 0 <= k < registry.len() implies !id_eq(
                    registry[k].id,
                    id,
                ) by {
                    if k > 0 {
                        assert(registry[k] == rest[k - 1]);
                    }
                }
            },
        }
    }
}

proof fn lemma_index_of_id_update(registry: Seq<ModelSpec>, i: int, e: ModelSpec)
    requires
        0 <= i < registry.len(),
        id_eq(e.id, registry[i].id),
        forall|p: int, q: int|
            0 <= p < q < registry.len() ==> !id_eq(registry[p].id, registry[q].id),
    ensures
        spec_index_of_id(registry.update(i, e), e.id) == Some(i),
        forall|id: ModelId|
            !id_eq(id, e.id) ==> spec_index_of_id(registry.update(i, e), id) == spec_index_of_id(
                registry,
                id,
            ) && (spec_index_of_id(registry, id) matches Some(j) ==> registry.update(i, e)[j]
                == registry[j]),
        forall|p: int, q: int|
            0 <= p < q < registry.update(i, e).len() ==> !id_eq(
                registry.update(i, e)[p].id,
                registry.update(i, e)[q].id,
            ),
{
    let updated = registry.update(i, e);
    assert(id_eq_reflexive_helper(e.id));
    lemma_id_eq_facts();
    assert forall|k: int| 0 <= k < i implies !id_eq(updated[k].id, e.id) by {
        assert(updated[k] == registry[k]);
        if id_eq(registry[k].id, e.id) {
            assert(id_eq(registry[k].id, registry[i].id));
        }
    }
    lemma_index_of_id_found(updated, e.id, i);
    assert forall|id: ModelId| !id_eq(id, e.id) implies spec_index_of_id(updated, id)
        == spec_index_of_id(registry, id) && (spec_index_of_id(registry, id) matches Some(j)
        ==> updated[j] == registry[j]) by {
        lemma_index_of_id_props(registry, id);
        match spec_index_of_id(registry, id) {
            Some(j) => {
                assert(j != i);
                assert(updated[j] == registry[j]);
                lemma_index_of_id_found(updated, id, j);
            },
            None => {
                assert forall|k: int| 0 <= k < updated.len() implies !id_eq(updated[k].id, id) by {
                    if k != i {
                        assert(updated[k] == registry[k]);
                    } else {
                        if id_eq(updated[k].id, id) {
                            assert(id_eq(registry[i].id, id));
                        }
                    }
                }
                lemma_index_of_id_absent(updated, id);
            },
        }
    }
    assert forall|p: int, q: int| 0 <= p < q < updated.len() implies !id_eq(
        updated[p].id,
        updated[q].id,
    ) by {
        if p != i && q != i {
            assert(updated[p] == registry[p] && updated[q] == registry[q]);
        } else if p == i {
            assert(updated[q] == registry[q]);
            if id_eq(updated[p].id, updated[q].id) {
                assert(id_eq(registry[i].id, registry[q].id));
            }
        } else {
            assert(updated[p] == registry[p]);
            if id_eq(updated[p].id, updated[q].id) {
                assert(id_eq(registry[p].id, registry[i].id));
            }
        }
    }
}

proof fn lemma_index_of_id_push(registry: Seq<ModelSpec>, e: ModelSpec)
    requires
        spec_index_of_id(registry, e.id) is None,
        forall|p: int, q: int|
            0 <= p < q < registry.len() ==> !id_eq(registry[p].id, registry[q].id),
    ensures
        spec_index_of_id(registry.push(e), e.id) == Some(registry.len() as int),
        forall|id: ModelId|
            !id_eq(id, e.id) ==> spec_index_of_id(registry.push(e), id) == spec_index_of_id(
                registry,
                id,
            ) && (spec_index_of_id(registry, id) matches Some(j) ==> registry.push(e)[j]
                == registry[j]),
        forall|p: int, q: int|
            0 <= p < q < registry.push(e).len() ==> !id_eq(
                registry.push(e)[p].id,
                registry.push(e)[q].id,
            ),
{
    let pushed = registry.push(e);
    lemma_id_eq_facts();
    lemma_index_of_id_props(registry, e.id);
    lemma_index_of_id_found(pushed, e.id, registry.len() as int);
    assert forall|id: ModelId| !id_eq(id, e.id) implies spec_index_of_id(pushed, id)
        == spec_index_of_id(registry, id) && (spec_index_of_id(registry, id) matches Some(j)
        ==> pushed[j] == registry[j]) by {
        lemma_index_of_id_props(registry, id);
        match spec_index_of_id(registry, id) {
            Some(j) => {
                assert(pushed[j] == registry[j]);
                lemma_index_of_id_found(pushed, id, j);
            },
            None => {
                assert forall|k: int| 0 <= k < pushed.len() implies !id_eq(pushed[k].id, id) by {
                    if k < registry.len() {
                        assert(pushed[k] == registry[k]);
                    } else {
                        if id_eq(pushed[k].id, id) {
                            assert(id_eq(e.id, id));
                        }
                    }
                }
                lemma_index_of_id_absent(pushed, id);
            },
        }
    }
    assert forall|p: int, q: int| 0 <= p < q < pushed.len() implies !id_eq(
        pushed[p].id,
        pushed[q].id,
    ) by {
        if q < registry.len() {
            assert(pushed[p] == registry[p] && pushed[q] == registry[q]);
        } else {
            assert(pushed[p] == registry[p] && pushed[q] == e);
        }
    }
}

/// `id_eq` is an equivalence: reflexive, symmetric, transitive.
spec fn id_eq_reflexive_helper(id: ModelId) -> bool {
    id_eq(id, id)
}

proof fn lemma_id_eq_facts()
    ensures
        forall|a: ModelId| #[trigger] id_eq(a, a),
        forall|a: ModelId, b: ModelId| #[trigger] id_eq(a, b) ==> id_eq(b, a),
        forall|a: ModelId, b: ModelId, c: ModelId|
            #[trigger] id_eq(a, b) && #[trigger] id_eq(b, c) ==> id_eq(a, c),
{
}

/// Looking a spec up under id-equal keys gives the same answer.
proof fn lemma_find_respects_id_eq(registry: Seq<ModelSpec>, id: ModelId)
    ensures
        forall|other: ModelId|
            id_eq(other, id) ==> #[trigger] spec_index_of_id(registry, other) == spec_index_of_id(
                registry,
                id,
            ),
    decreases registry.len(),
{
    lemma_id_eq_facts();
    if registry.len() > 0 {
        lemma_find_respects_id_eq(registry.drop_first(), id);
        assert forall|other: ModelId| id_eq(other, id) implies #[trigger] spec_index_of_id(
            registry,
            other,
        ) == spec_index_of_id(registry, id) by {
            assert(id_eq(registry[0].id, other) <==> id_eq(registry[0].id, id));
            assert(spec_index_of_id(registry.drop_first(), other) == spec_index_of_id(
                registry.drop_first(),
                id,
            ));
        }
    }
}

/// The standard model's cache filename: `ggml-<name>.bin`.
pub open spec fn spec_standard_filename(id: ModelId) -> Seq<char> {
    "ggml-"@ + spec_display_name(id) + ".bin"@
}

/// The well-known download URL of a standard model file.
pub open spec fn spec_model_download_url(filename: Seq<char>) -> Seq<char> {
    "https://huggingface.co/ggerganov/whisper.cpp/resolve/main/"@ + filename
}

/// A `file://` URL for a local path.
pub open spec fn spec_file_url(path: Seq<char>) -> Seq<char> {
    "file://"@ + path
}

pub fn model_download_url(filename: &str) -> (r: String)
    ensures
        r@ == spec_model_download_url(filename@),
{
    let mut out = String::from_str("https://huggingface.co/ggerganov/whisper.cpp/resolve/main/");
    out.append(filename);
    out
}

pub fn file_url(path: &str) -> (r: String)
    ensures
        r@ == spec_file_url(path@),
{
    let mut out = String::from_str("file://");
    out.append(path);
    out
}

fn standard_filename(id: &ModelId) -> (r: String)
    ensures
        r@ == spec_standard_filename(*id),
{
    let mut out = String::from_str("ggml-");
    let name = id.display_name();
    out.append(name.as_str());
    out.append(".bin");
    out
}

/// Whether `m` registers `id` under its standard filename and download
/// URL, with no pinned size or digest.
pub open spec fn standard_registered(m: ModelManager, id: ModelId) -> bool {
    match m.spec_find(id) {
        Some(s) => {
            &&& id_eq(s.id, id)
            &&& s.filename@ == spec_standard_filename(id)
            &&& s.download_url matches Some(u) && u@ == spec_model_download_url(
                spec_standard_filename(id),
            )
            &&& s.sha256 is None
            &&& s.size_bytes is None
        },
        None => false,
    }
}

/// Registers the five standard models, each under `ggml-<name>.bin` and
/// its well-known download URL.
pub fn register_standard_models(manager: &mut ModelManager)
    requires
        old(manager).wf(),
    ensures
        final(manager).wf(),
        final(manager).spec_root() == old(manager).spec_root(),
        standard_registered(*final(manager), ModelId::Tiny),
        standard_registered(*final(manager), ModelId::Base),
        standard_registered(*final(manager), ModelId::Small),
        standard_registered(*final(manager), ModelId::Medium),
        standard_registered(*final(manager), ModelId::Large),
{
    register_one_standard(manager, ModelId::Tiny);
    let ghost m1 = *manager;
    register_one_standard(manager, ModelId::Base);
    let ghost m2 = *manager;
    proof {
        assert(manager.spec_find(ModelId::Tiny) == m1.spec_find(ModelId::Tiny));
    }
    register_one_standard(manager, ModelId::Small);
    let ghost m3 = *manager;
    proof {
        assert(manager.spec_find(ModelId::Tiny) == m2.spec_find(ModelId::Tiny));
        assert(manager.spec_find(ModelId::Base) == m2.spec_find(ModelId::Base));
    }
    register_one_standard(manager, ModelId::Medium);
    let ghost m4 = *manager;
    proof {
        assert(manager.spec_find(ModelId::Tiny) == m3.spec_find(ModelId::Tiny));
        assert(manager.spec_find(ModelId::Base) == m3.spec_find(ModelId::Base));
        assert(manager.spec_find(ModelId::Small) == m3.spec_find(ModelId::Small));
    }
    register_one_standard(manager, ModelId::Large);
    proof {
        assert(manager.spec_find(ModelId::Tiny) == m4.spec_find(ModelId::Tiny));
        assert(manager.spec_find(ModelId::Base) == m4.spec_find(ModelId::Base));
        assert(manager.spec_find(ModelId::Small) == m4.spec_find(ModelId::Small));
        assert(manager.spec_find(ModelId::Medium) == m4.spec_find(ModelId::Medium));
    }
}

fn register_one_standard(manager: &mut ModelManager, id: ModelId)
    requires
        old(manager).wf(),
    ensures
        final(manager).wf(),
        final(manager).spec_root() == old(manager).spec_root(),
        standard_registered(*final(manager), id),
        forall|other: ModelId|
            #![trigger final(manager).spec_find(other)]
            !id_eq(other, id) ==> final(manager).spec_find(other) == old(manager).spec_find(other),
{
    let ghost id0 = id;
    let filename = standard_filename(&id);
    let url = model_download_url(filename.as_str());
    let spec = ModelSpec::new(id, filename).with_download_url(url);
    manager.register_model(spec);
    proof {
        assert(id_eq(id0, id0)) by {
            match id0 {
                ModelId::Custom(x) => {},
                _ => {},
            }
        }
    }
}

/// Registers a custom model `name` as `<name>.bin` beside the cache root,
/// downloadable from its own `file://` URL.
pub fn register_custom_model(manager: &mut ModelManager, root: &str, name: &str)
    requires
        old(manager).wf(),
    ensures
        final(manager).wf(),
        final(manager).spec_root() == old(manager).spec_root(),
        forall|n: String|
            n@ == name@ ==> match final(manager).spec_find(ModelId::Custom(n)) {
                Some(s) => {
                    &&& s.filename@ == name@ + ".bin"@
                    &&& (s.download_url matches Some(u) && u@ == spec_file_url(
                        spec_join_path(root@, name@ + ".bin"@),
                    ))
                },
                None => false,
            },
{
    let mut filename = String::from_str(name);
    filename.append(".bin");
    let path = join_path(root, filename.as_str());
    let url = file_url(path.as_str());
    let id = ModelId::Custom(String::from_str(name));
    let spec = ModelSpec::new(id, filename).with_download_url(url);
    let ghost registered_id = spec.id;
    manager.register_model(spec);
    proof {
        assert forall|n: String| n@ == name@ implies match manager.spec_find(ModelId::Custom(n)) {
            Some(s) => {
                &&& s.filename@ == name@ + ".bin"@
                &&& (s.download_url matches Some(u) && u@ == spec_file_url(
                    spec_join_path(root@, name@ + ".bin"@),
                ))
            },
            None => false,
        } by {
            lemma_spec_find_id_eq(*manager, ModelId::Custom(n), registered_id);
        }
    }
}

/// Equal ids (custom names compared by their text) look up the same spec.
pub proof fn lemma_spec_find_id_eq(m: ModelManager, a: ModelId, b: ModelId)
    requires
        id_eq(a, b),
    ensures
        m.spec_find(a) == m.spec_find(b),
{
    lemma_find_respects_id_eq(m.registry@, b);
}

/// The trimmed name resolved to a model id: the standard names match
/// case-insensitively, anything else is a custom model.
pub fn model_id_from_name(name: Option<&str>) -> (r: ModelId)
    ensures
        match name {
            None => r is Base,
            Some(given) => {
                let t = trim_spec(given@);
                if lower_codes(t) == lower_codes("tiny"@) {
                    r is Tiny
                } else if lower_codes(t) == lower_codes("base"@) {
                    r is Base
                } else if lower_codes(t) == lower_codes("small"@) {
                    r is Small
                } else if lower_codes(t) == lower_codes("medium"@) {
                    r is Medium
                } else if lower_codes(t) == lower_codes("large"@) {
                    r is Large
                } else {
                    r matches ModelId::Custom(n) && n@ == t
                }
            },
        },
{
    let given = match name {
        Some(given) => given,
        None => {
            return ModelId::Base;
        },
    };
    let t = crate::text::trim_str(given);
    if eq_ignore_ascii_case(t.as_str(), "tiny") {
        ModelId::Tiny
    } else if eq_ignore_ascii_case(t.as_str(), "base") {
        ModelId::Base
    } else if eq_ignore_ascii_case(t.as_str(), "small") {
        ModelId::Small
    } else if eq_ignore_ascii_case(t.as_str(), "medium") {
        ModelId::Medium
    } else if eq_ignore_ascii_case(t.as_str(), "large") {
        ModelId::Large
    } else {
        ModelId::Custom(t)
    }
}

} // verus!
