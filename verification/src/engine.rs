//! The transcription engines: ensure the model is cached, initialize a
//! bindings context, transcribe, and clean the CLI's output into plain
//! text.
//!
//! The whisper bindings are a capability trait: the daemon implements them
//! over the external CLI, tests implement mocks.  Audio reaches the
//! engines as fixed-point samples.

use vstd::prelude::*;
use vstd::string::StrSliceExecFns;
use vstd::string::StringExecFns;
use crate::model::{
    ModelDownloader, ModelError, ModelId, ModelManager, ModelStorage, register_custom_model,
    register_standard_models,
};
use crate::text::{append_chars, chars_of, trim_chars, trim_spec};

verus! {

#[derive(Debug, Clone, Copy, PartialEq, Eq, Structural)]
pub enum BindingError {
    /// The whisper binary or library cannot be found at all.
    Unavailable,
    /// The context could not be built or the run failed.
    InitFailed,
}

/// The whisper.cpp-family binding the engines drive.  The daemon's
/// implementation shells out to the CLI; tests substitute mocks.
pub trait WhisperBindings {
    type Context;

    fn init_from_file(path: &str) -> Result<Self::Context, BindingError>;

    fn transcribe(context: &Self::Context, audio: &[i32]) -> Result<String, BindingError>;
}

#[derive(Debug, Clone, PartialEq, Eq)]
pub struct TranscriptionResult {
    pub text: String,
}

#[derive(Debug)]
pub enum EngineError {
    Model(ModelError),
    Binding(BindingError),
    EmptyAudio,
}

/// The human-readable text of a binding error.
pub open spec fn spec_binding_error_message(e: BindingError) -> Seq<char> {
    match e {
        BindingError::Unavailable => "whisper.cpp bindings unavailable"@,
        BindingError::InitFailed => "failed to initialize whisper.cpp context"@,
    }
}

impl BindingError {
    pub fn message(&self) -> (r: String)
        ensures
            r@ == spec_binding_error_message(*self),
    {
        match self {
            BindingError::Unavailable => String::from_str("whisper.cpp bindings unavailable"),
            BindingError::InitFailed => String::from_str(
                "failed to initialize whisper.cpp context",
            ),
        }
    }
}

/// The human-readable text of an engine error.
pub open spec fn spec_engine_error_message(e: EngineError) -> Seq<char> {
    match e {
        EngineError::Model(inner) => "model error: "@ + crate::model::spec_model_error_message(
            inner,
        ),
        EngineError::Binding(inner) => "binding error: "@ + spec_binding_error_message(inner),
        EngineError::EmptyAudio => "audio buffer is empty"@,
    }
}

impl EngineError {
    pub fn message(&self) -> (r: String)
        ensures
            r@ == spec_engine_error_message(*self),
    {
        match self {
            EngineError::Model(inner) => {
                let mut out = String::from_str("model error: ");
                let detail = inner.message();
                out.append(detail.as_str());
                out
            },
            EngineError::Binding(inner) => {
                let mut out = String::from_str("binding error: ");
                let detail = inner.message();
                out.append(detail.as_str());
                out
            },
            EngineError::EmptyAudio => String::from_str("audio buffer is empty"),
        }
    }
}

/// Whatever can transcribe a block of audio.
pub trait TranscriptionEngine {
    fn transcribe(&self, audio: &[i32]) -> Result<TranscriptionResult, EngineError>;
}

/// Ensures the model is cached (downloading on demand), then builds a
/// fresh bindings context and transcribes.
pub struct TranscriptionPipeline<B: WhisperBindings, D: ModelDownloader, S: ModelStorage> {
    manager: ModelManager,
    downloader: D,
    storage: S,
    marker: core::marker::PhantomData<B>,
}

impl<B: WhisperBindings, D: ModelDownloader, S: ModelStorage> TranscriptionPipeline<B, D, S> {
    pub closed spec fn spec_manager(self) -> ModelManager {
        self.manager
    }

    pub fn new(manager: ModelManager, downloader: D, storage: S) -> (r: Self)
        ensures
            r.spec_manager() == manager,
    {
        TranscriptionPipeline { manager, downloader, storage, marker: core::marker::PhantomData }
    }

    pub closed spec fn spec_parts(self) -> (ModelManager, D, S) {
        (self.manager, self.downloader, self.storage)
    }

    /// Takes the pipeline apart again.
    pub fn into_parts(self) -> (r: (ModelManager, D, S))
        ensures
            r == self.spec_parts(),
    {
        (self.manager, self.downloader, self.storage)
    }

    /// Empty audio is rejected before any model work; otherwise the model
    /// is cached (downloading on a missing or mismatched file) and the
    /// bindings transcribe it.  Model errors carry the cache's exact
    /// accounting; bindings results pass through as `Binding` errors.
    pub fn transcribe(&mut self, model_id: ModelId, audio: &[i32]) -> (r: Result<
        TranscriptionResult,
        EngineError,
    >)
        ensures
            final(self).spec_manager() == old(self).spec_manager(),
            (audio@.len() == 0) <==> (r matches Err(EngineError::EmptyAudio)),
            r matches Err(EngineError::Model(m)) ==> ({
                let found = old(self).spec_manager().spec_find(model_id);
                match m {
                    ModelError::UnregisteredModel(n) => (found is None) && n@
                        == crate::model::spec_display_name(model_id),
                    ModelError::InvalidFilename(f) => found matches Some(s)
                        && !crate::model::valid_filename(s.filename@) && f@ == s.filename@,
                    ModelError::MissingDownloadUrl(n) => found matches Some(s)
                        && crate::model::valid_filename(s.filename@) && (s.download_url is None)
                        && n@ == crate::model::spec_display_name(model_id),
                    ModelError::DownloadFailed(u) => found matches Some(s)
                        && crate::model::valid_filename(s.filename@) && (s.download_url
                        matches Some(url) && u@ == url@),
                    _ => found matches Some(s) && crate::model::valid_filename(s.filename@),
                }
            }),
            r matches Err(EngineError::Binding(_)) ==> (old(self).spec_manager().spec_find(
                model_id,
            ) matches Some(s) && crate::model::valid_filename(s.filename@)),
    {
        if audio.len() == 0 {
            return Err(EngineError::EmptyAudio);
        }
        let model_path = match self.manager.ensure_model_cached(
            &model_id,
            &self.downloader,
            &mut self.storage,
        ) {
            Ok(p) => p,
            Err(e) => {
                return Err(EngineError::Model(e));
            },
        };
        let context = match B::init_from_file(model_path.as_str()) {
            Ok(c) => c,
            Err(e) => {
                return Err(EngineError::Binding(e));
            },
        };
        match B::transcribe(&context, audio) {
            Ok(text) => Ok(TranscriptionResult { text }),
            Err(e) => Err(EngineError::Binding(e)),
        }
    }
}

/// An engine over a context built once from an already-available model.
pub struct WhisperCppEngine<B: WhisperBindings> {
    model_id: ModelId,
    context: B::Context,
}

impl<B: WhisperBindings> WhisperCppEngine<B> {
    /// Verifies the cached model file, then builds the bindings context.
    /// Model errors carry the cache's accounting; a `Binding` error means
    /// the model was registered, safe and resolved.
    pub fn with_bindings<S: ModelStorage>(
        manager: &ModelManager,
        model_id: ModelId,
        storage: &S,
    ) -> (r: Result<Self, EngineError>)
        ensures
            ({
                let found = manager.spec_find(model_id);
                match r {
                    Ok(_) => found matches Some(s) && crate::model::valid_filename(s.filename@),
                    Err(EngineError::Model(ModelError::UnregisteredModel(n))) => (found is None)
                        && n@ == crate::model::spec_display_name(model_id),
                    Err(EngineError::Model(ModelError::InvalidFilename(f))) => found matches Some(
                        s,
                    ) && !crate::model::valid_filename(s.filename@) && f@ == s.filename@,
                    Err(EngineError::Model(_)) => found matches Some(s)
                        && crate::model::valid_filename(s.filename@),
                    Err(EngineError::Binding(_)) => found matches Some(s)
                        && crate::model::valid_filename(s.filename@),
                    Err(EngineError::EmptyAudio) => false,
                }
            }),
    {
        let model_path = match manager.ensure_model_available(&model_id, storage) {
            Ok(p) => p,
            Err(e) => {
                return Err(EngineError::Model(e));
            },
        };
        let context = match B::init_from_file(model_path.as_str()) {
            Ok(c) => c,
            Err(e) => {
                return Err(EngineError::Binding(e));
            },
        };
        Ok(WhisperCppEngine { model_id, context })
    }

    /// Rejects empty audio, then transcribes through the context.
    pub fn transcribe_audio(&self, audio: &[i32]) -> (r: Result<TranscriptionResult, EngineError>)
        ensures
            (audio@.len() == 0) <==> (r matches Err(EngineError::EmptyAudio)),
    {
        if audio.len() == 0 {
            return Err(EngineError::EmptyAudio);
        }
        match B::transcribe(&self.context, audio) {
            Ok(text) => Ok(TranscriptionResult { text }),
            Err(e) => Err(EngineError::Binding(e)),
        }
    }
}

impl<B: WhisperBindings> TranscriptionEngine for WhisperCppEngine<B> {
    fn transcribe(&self, audio: &[i32]) -> Result<TranscriptionResult, EngineError> {
        self.transcribe_audio(audio)
    }
}

/// An engine that treats "bindings unavailable" as silence: the runtime
/// then reports "no speech detected" instead of failing.
pub struct TranscriptionWrapper<B: WhisperBindings> {
    engine: Option<WhisperCppEngine<B>>,
}

impl<B: WhisperBindings> TranscriptionWrapper<B> {
    pub closed spec fn spec_available(self) -> bool {
        self.engine is Some
    }

    /// Builds the inner engine; `Unavailable` at load time leaves the
    /// wrapper running without one, every other failure propagates with
    /// the engine's accounting.
    pub fn with_bindings<S: ModelStorage>(
        manager: &ModelManager,
        model_id: ModelId,
        storage: &S,
    ) -> (r: Result<Self, EngineError>)
        ensures
            r matches Err(e) ==> !(e matches EngineError::Binding(b)
                && b == BindingError::Unavailable),
            r matches Err(EngineError::Model(ModelError::UnregisteredModel(n))) ==> ((
            manager.spec_find(model_id) is None) && n@ == crate::model::spec_display_name(
                model_id,
            )),
            r matches Err(EngineError::Model(ModelError::InvalidFilename(f))) ==> (
            manager.spec_find(model_id) matches Some(s) && !crate::model::valid_filename(
                s.filename@,
            ) && f@ == s.filename@),
            r matches Err(EngineError::EmptyAudio) ==> false,
    {
        match WhisperCppEngine::<B>::with_bindings(manager, model_id, storage) {
            Ok(engine) => Ok(TranscriptionWrapper { engine: Some(engine) }),
            Err(EngineError::Binding(BindingError::Unavailable)) => Ok(
                TranscriptionWrapper { engine: None },
            ),
            Err(e) => Err(e),
        }
    }

    pub fn bindings_available(&self) -> (r: bool)
        ensures
            r == self.spec_available(),
    {
        match &self.engine {
            Some(_) => true,
            None => false,
        }
    }

    /// Rejects empty audio; without bindings, and when the bindings report
    /// `Unavailable`, yields empty text instead of an error.
    pub fn transcribe_audio(&self, audio: &[i32]) -> (r: Result<TranscriptionResult, EngineError>)
        ensures
            (audio@.len() == 0) <==> (r matches Err(EngineError::EmptyAudio)),
            !(r matches Err(EngineError::Binding(b)) && b == BindingError::Unavailable),
            !self.spec_available() && audio@.len() > 0 ==> (r matches Ok(res) && res.text@
                =~= Seq::<char>::empty()),
    {
        if audio.len() == 0 {
            return Err(EngineError::EmptyAudio);
        }
        match &self.engine {
            Some(engine) => match engine.transcribe_audio(audio) {
                Err(EngineError::Binding(BindingError::Unavailable)) => Ok(
                    TranscriptionResult { text: String::new() },
                ),
                other => other,
            },
            None => Ok(TranscriptionResult { text: String::new() }),
        }
    }
}

impl<B: WhisperBindings> TranscriptionEngine for TranscriptionWrapper<B> {
    fn transcribe(&self, audio: &[i32]) -> Result<TranscriptionResult, EngineError> {
        self.transcribe_audio(audio)
    }
}

/// A transcriber bound to one model of a registry rooted at a fixed
/// directory; the daemon drives it against the CLI bindings.
pub struct LocalTranscriber {
    manager: ModelManager,
    model_id: ModelId,
}

impl LocalTranscriber {
    pub closed spec fn spec_manager(self) -> ModelManager {
        self.manager
    }

    pub closed spec fn spec_model_id(self) -> ModelId {
        self.model_id
    }

    /// A registry over `model_root` with the standard models registered,
    /// plus the custom model when one is named.
    pub fn new(model_root: String, model_id: ModelId) -> (r: Self)
        ensures
            r.spec_manager().wf(),
            r.spec_manager().spec_root() == model_root@,
            r.spec_model_id() == model_id,
    {
        let root_copy = String::from_str(model_root.as_str());
        let mut manager = ModelManager::new(model_root);
        register_standard_models(&mut manager);
        match &model_id {
            ModelId::Custom(name) => {
                register_custom_model(&mut manager, root_copy.as_str(), name.as_str());
            },
            _ => {},
        }
        LocalTranscriber { manager, model_id }
    }

    pub fn manager(&self) -> (r: &ModelManager)
        ensures
            *r == self.spec_manager(),
    {
        &self.manager
    }

    pub fn model_id(&self) -> (r: &ModelId)
        ensures
            *r == self.spec_model_id(),
    {
        &self.model_id
    }
}

/// The last position of `c` in `s`, if it occurs.
pub open spec fn last_index_of(s: Seq<char>, c: char) -> Option<int>
    decreases s.len(),
{
    if s.len() == 0 {
        None
    } else if s.last() == c {
        Some(s.len() - 1)
    } else {
        last_index_of(s.drop_last(), c)
    }
}

/// What one line of CLI output contributes: nothing when it trims to
/// nothing; a timestamp-prefixed line (starting with `[`) contributes the
/// trimmed text after its last `]`, if any; every other line contributes
/// itself, trimmed.
pub open spec fn line_part(line: Seq<char>) -> Option<Seq<char>> {
    let t = trim_spec(line);
    if t.len() == 0 {
        None
    } else if t[0] == '[' {
        match last_index_of(t, ']') {
            Some(j) => {
                let txt = trim_spec(t.subrange(j + 1, t.len() as int));
                if txt.len() > 0 {
                    Some(txt)
                } else {
                    None
                }
            },
            None => None,
        }
    } else {
        Some(t)
    }
}

/// A contributed part joins the output after a single space.
pub open spec fn join_part(out: Seq<char>, part: Option<Seq<char>>) -> Seq<char> {
    match part {
        Some(p) => if out.len() == 0 {
            p
        } else {
            out + seq![' '] + p
        },
        None => out,
    }
}

/// The whole parse, one character at a time: lines split at `\n`, each
/// line's part joined to the output.
pub open spec fn cli_fold(s: Seq<char>, i: int, line: Seq<char>, out: Seq<char>) -> Seq<char>
    decreases s.len() - i,
{
    if i < 0 || i >= s.len() {
        join_part(out, line_part(line))
    } else if s[i] == '\n' {
        cli_fold(s, i + 1, Seq::empty(), join_part(out, line_part(line)))
    } else {
        cli_fold(s, i + 1, line.push(s[i]), out)
    }
}

/// The transcript text in a whisper CLI run's output: timestamps stripped,
/// lines joined with single spaces.
pub open spec fn spec_parse_cli_output(s: Seq<char>) -> Seq<char> {
    cli_fold(s, 0, Seq::empty(), Seq::empty())
}

#[verifier::loop_isolation(false)]
fn line_part_exec(line: &Vec<char>) -> (r: Option<Vec<char>>)
    ensures
        match r {
            Some(p) => line_part(line@) == Some(p@),
            None => line_part(line@) is None,
        },
{
    let t = trim_chars(line);
    let n = t.len();
    if n == 0 {
        return None;
    }
    if !(t[0] == '[') {
        return Some(t);
    }
    proof {
        assert(t@.take(n as int) =~= t@);
    }
    let mut j: usize = n;
    let mut found: Option<usize> = None;
    while j > 0 && found.is_none()
        invariant
            j <= n,
            n == t@.len(),
            match found {
                Some(pos) => last_index_of(t@, ']') == Some(pos as int) && pos < n,
                None => last_index_of(t@, ']') == last_index_of(t@.take(j as int), ']'),
            },
        decreases (if found is None {
            1int
        } else {
            0int
        }), j,
    {
        proof {
            assert(t@.take(j as int).drop_last() =~= t@.take(j as int - 1));
            assert(t@.take(j as int).last() == t@[j as int - 1]);
        }
        if t[j - 1] == ']' {
            found = Some(j - 1);
        } else {
            j = j - 1;
        }
    }
    proof {
        if found is None {
            assert(t@.take(0int) =~= Seq::<char>::empty());
        }
    }
    let pos = match found {
        Some(pos) => pos,
        None => {
            return None;
        },
    };
    let mut rest: Vec<char> = Vec::new();
    let mut k: usize = pos + 1;
    while k < n
        invariant
            pos + 1 <= k <= n,
            n == t@.len(),
            rest@ =~= t@.subrange(pos as int + 1, k as int),
        decreases n - k,
    {
        rest.push(t[k]);
        proof {
            assert(rest@ =~= t@.subrange(pos as int + 1, k as int + 1));
        }
        k = k + 1;
    }
    let txt = trim_chars(&rest);
    if txt.len() > 0 {
        Some(txt)
    } else {
        None
    }
}

/// Strips timestamp brackets and joins the CLI's output lines into the
/// transcript.
#[verifier::loop_isolation(false)]
pub fn parse_cli_output(output: &str) -> (r: String)
    ensures
        r@ == spec_parse_cli_output(output@),
{
    let cs = chars_of(output);
    let n = cs.len();
    let mut out = String::new();
    let mut line: Vec<char> = Vec::new();
    let mut i: usize = 0;
    while i < n
        invariant
            i <= n,
            spec_parse_cli_output(output@) == cli_fold(output@, i as int, line@, out@),
        decreases n - i,
    {
        let c = cs[i];
        if c == '\n' {
            flush_line(&mut out, &line);
            line = Vec::new();
        } else {
            line.push(c);
        }
        i = i + 1;
    }
    flush_line(&mut out, &line);
    out
}

fn flush_line(out: &mut String, line: &Vec<char>)
    ensures
        final(out)@ == join_part(old(out)@, line_part(line@)),
{
    match line_part_exec(line) {
        Some(part) => {
            if out.as_str().unicode_len() > 0 {
                out.push(' ');
                proof {
                    assert(out@ =~= old(out)@ + seq![' ']);
                }
            }
            append_chars(out, &part);
            proof {
                if old(out)@.len() > 0 {
                    assert(out@ =~= old(out)@ + seq![' '] + part@);
                } else {
                    assert(out@ =~= part@);
                }
            }
        },
        None => {},
    }
}

} // verus!
