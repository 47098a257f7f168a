//! The backend state machine, the in-memory settings store, the
//! orchestrator that ties them to a state emitter, and the shared model
//! store.
//!
//! Settings persistence and the event transport are external
//! collaborators: the store here keeps the authoritative value in memory,
//! and the emitter is a trait the surrounding process implements.

use vstd::prelude::*;
use vstd::string::StringExecFns;
use crate::settings::{
    AppSettings, BackendEvent, BackendState, ModelInstallStatus, ModelStatusItem,
    ModelStatusPayload, SettingsUpdate, spec_apply_update,
};
use crate::text::str_eq;

verus! {

/// The backend transition function: `None` stands for a rejected event.
pub open spec fn spec_transition(state: BackendState, event: BackendEvent) -> Option<BackendState> {
    match (state, event) {
        (BackendState::Idle, BackendEvent::StartRecording) => Some(BackendState::Recording),
        (BackendState::Idle, BackendEvent::StartProcessing) => Some(BackendState::Processing),
        (BackendState::Recording, BackendEvent::StopRecording) => Some(BackendState::Processing),
        (BackendState::Processing, BackendEvent::FinishProcessing) => Some(BackendState::Idle),
        (_, BackendEvent::Fail { message }) => Some(BackendState::Error { message }),
        (_, BackendEvent::Reset) => Some(BackendState::Idle),
        _ => None,
    }
}

pub struct StateMachine {
    state: BackendState,
}

impl StateMachine {
    pub closed spec fn spec_state(self) -> BackendState {
        self.state
    }

    pub fn new() -> (r: Self)
        ensures
            r.spec_state() is Idle,
    {
        StateMachine { state: BackendState::Idle }
    }

    pub fn current(&self) -> (r: BackendState)
        ensures
            r == self.spec_state(),
    {
        duplicate_state(&self.state)
    }

    /// Applies one event: an accepted event moves the machine and returns
    /// the new state; a rejected one leaves the machine where it was and
    /// names the rejection.
    pub fn apply(&mut self, event: BackendEvent) -> (r: Result<BackendState, String>)
        ensures
            match spec_transition(old(self).spec_state(), event) {
                Some(next) => final(self).spec_state() == next && (r matches Ok(got) && got
                    == next),
                None => final(self).spec_state() == old(self).spec_state() && (r matches Err(m)
                    && m@ == "invalid transition"@),
            },
    {
        let next = match (&self.state, &event) {
            (BackendState::Idle, BackendEvent::StartRecording) => BackendState::Recording,
            (BackendState::Idle, BackendEvent::StartProcessing) => BackendState::Processing,
            (BackendState::Recording, BackendEvent::StopRecording) => BackendState::Processing,
            (BackendState::Processing, BackendEvent::FinishProcessing) => BackendState::Idle,
            (_, BackendEvent::Fail { message }) => BackendState::Error {
                message: message.clone(),
            },
            (_, BackendEvent::Reset) => BackendState::Idle,
            _ => {
                return Err(invalid_transition_message());
            },
        };
        self.state = next;
        Ok(duplicate_state(&self.state))
    }
}

/// The fixed text of a rejected transition's error.
fn invalid_transition_message() -> (r: String)
    ensures
        r@ == "invalid transition"@,
{
    String::from_str("invalid transition")
}

fn duplicate_state(state: &BackendState) -> (r: BackendState)
    ensures
        r == *state,
{
    match state {
        BackendState::Idle => BackendState::Idle,
        BackendState::Recording => BackendState::Recording,
        BackendState::Processing => BackendState::Processing,
        BackendState::Error { message } => BackendState::Error { message: message.clone() },
    }
}

/// A sink for published backend states; the surrounding process decides
/// where they go.
pub trait BackendStateEmitter {
    fn emit_state(&self, state: &BackendState);
}

/// The in-memory settings store.  Persistence is an external collaborator;
/// the daemon shell loads and saves around this store.
pub struct SettingsStore {
    settings: AppSettings,
}

impl SettingsStore {
    pub closed spec fn spec_settings(self) -> AppSettings {
        self.settings
    }

    pub fn new(initial: AppSettings) -> (r: Self)
        ensures
            r.spec_settings() == initial,
    {
        SettingsStore { settings: initial }
    }

    pub fn settings(&self) -> (r: AppSettings)
        ensures
            r == self.spec_settings(),
    {
        self.settings.duplicate()
    }

    /// Replaces the settings wholesale and returns the stored value.
    pub fn set(&mut self, settings: AppSettings) -> (r: Result<AppSettings, String>)
        ensures
            final(self).spec_settings() == settings,
            r matches Ok(got) && got == settings,
    {
        self.settings = settings;
        Ok(self.settings.duplicate())
    }

    /// Merges a partial update and returns the stored value.
    pub fn update(&mut self, update: SettingsUpdate) -> (r: Result<AppSettings, String>)
        ensures
            final(self).spec_settings() == spec_apply_update(old(self).spec_settings(), update),
            r matches Ok(got) && got == final(self).spec_settings(),
    {
        self.settings = self.settings.apply_update(update);
        Ok(self.settings.duplicate())
    }
}

/// The state machine and settings store behind one façade, publishing each
/// accepted transition through the emitter.
pub struct BackendOrchestrator<E: BackendStateEmitter> {
    machine: StateMachine,
    settings: SettingsStore,
    emitter: Option<E>,
}

impl<E: BackendStateEmitter> BackendOrchestrator<E> {
    pub closed spec fn spec_state(self) -> BackendState {
        self.machine.spec_state()
    }

    pub closed spec fn spec_settings(self) -> AppSettings {
        self.settings.spec_settings()
    }

    pub fn new(initial: AppSettings) -> (r: Self)
        ensures
            r.spec_state() is Idle,
            r.spec_settings() == initial,
    {
        BackendOrchestrator { machine: StateMachine::new(), settings: SettingsStore::new(initial), emitter: None }
    }

    pub fn with_emitter(initial: AppSettings, emitter: E) -> (r: Self)
        ensures
            r.spec_state() is Idle,
            r.spec_settings() == initial,
    {
        BackendOrchestrator {
            machine: StateMachine::new(),
            settings: SettingsStore::new(initial),
            emitter: Some(emitter),
        }
    }

    pub fn current_state(&self) -> (r: BackendState)
        ensures
            r == self.spec_state(),
    {
        self.machine.current()
    }

    /// Applies one event; an accepted transition is published through the
    /// emitter before it is returned.
    pub fn apply_event(&mut self, event: BackendEvent) -> (r: Result<BackendState, String>)
        ensures
            final(self).spec_settings() == old(self).spec_settings(),
            match spec_transition(old(self).spec_state(), event) {
                Some(next) => final(self).spec_state() == next && (r matches Ok(got) && got
                    == next),
                None => final(self).spec_state() == old(self).spec_state() && (r matches Err(m)
                    && m@ == "invalid transition"@),
            },
    {
        let next = match self.machine.apply(event) {
            Ok(next) => next,
            Err(e) => {
                return Err(e);
            },
        };
        match &self.emitter {
            Some(emitter) => emitter.emit_state(&next),
            None => {},
        }
        Ok(next)
    }

    pub fn settings(&self) -> (r: AppSettings)
        ensures
            r == self.spec_settings(),
    {
        self.settings.settings()
    }

    pub fn update_settings(&mut self, update: SettingsUpdate) -> (r: Result<AppSettings, String>)
        ensures
            final(self).spec_state() == old(self).spec_state(),
            final(self).spec_settings() == spec_apply_update(old(self).spec_settings(), update),
            r matches Ok(got) && got == final(self).spec_settings(),
    {
        self.settings.update(update)
    }

    pub fn set_settings(&mut self, settings: AppSettings) -> (r: Result<AppSettings, String>)
        ensures
            final(self).spec_state() == old(self).spec_state(),
            final(self).spec_settings() == settings,
            r matches Ok(got) && got == settings,
    {
        self.settings.set(settings)
    }
}

/// How many models are queued for work: downloading, queued or pending.
pub open spec fn spec_queue_count(models: Seq<ModelStatusItem>) -> int
    decreases models.len(),
{
    if models.len() == 0 {
        0
    } else {
        spec_queue_count(models.drop_last()) + if counts_queued(models.last().status) {
            1int
        } else {
            0int
        }
    }
}

pub open spec fn counts_queued(status: ModelInstallStatus) -> bool {
    match status {
        ModelInstallStatus::Downloading => true,
        ModelInstallStatus::Queued => true,
        ModelInstallStatus::Pending => true,
        _ => false,
    }
}

#[verifier::loop_isolation(false)]
pub fn queue_count(models: &Vec<ModelStatusItem>) -> (r: usize)
    ensures
        r as int == spec_queue_count(models@),
{
    let n = models.len();
    let mut count: usize = 0;
    let mut i: usize = 0;
    while i < n
        invariant
            i <= n,
            count as int == spec_queue_count(models@.take(i as int)),
            count <= i,
        decreases n - i,
    {
        let queued = match models[i].status {
            ModelInstallStatus::Downloading => true,
            ModelInstallStatus::Queued => true,
            ModelInstallStatus::Pending => true,
            _ => false,
        };
        if queued {
            count = count + 1;
        }
        proof {
            assert(models@.take(i as int + 1).drop_last() =~= models@.take(i as int));
        }
        i = i + 1;
    }
    proof {
        assert(models@.take(n as int) =~= models@);
    }
    count
}

fn duplicate_item(item: &ModelStatusItem) -> (r: ModelStatusItem)
    ensures
        r == *item,
{
    ModelStatusItem {
        id: item.id.clone(),
        name: item.name.clone(),
        status: item.status,
        total_bytes: item.total_bytes,
        downloaded_bytes: item.downloaded_bytes,
        speed_bytes_per_sec: item.speed_bytes_per_sec,
        eta_seconds: item.eta_seconds,
        progress: item.progress,
        active: item.active,
    }
}

fn duplicate_items(items: &Vec<ModelStatusItem>) -> (r: Vec<ModelStatusItem>)
    ensures
        r@ == items@,
{
    let n = items.len();
    let mut out: Vec<ModelStatusItem> = Vec::new();
    let mut i: usize = 0;
    while i < n
        invariant
            n == items@.len(),
            i <= n,
            out@ =~= items@.take(i as int),
        decreases n - i,
    {
        out.push(duplicate_item(&items[i]));
        proof {
            assert(out@ =~= items@.take(i as int + 1));
        }
        i = i + 1;
    }
    proof {
        assert(items@.take(n as int) =~= items@);
    }
    out
}

fn duplicate_opt_string(v: &Option<String>) -> (r: Option<String>)
    ensures
        r == *v,
{
    match v {
        Some(s) => Some(s.clone()),
        None => None,
    }
}

/// The shared record of model status rows, the active model, and per-model
/// status overrides, read and written from both the runtime and the
/// control surface.
pub struct ModelStore {
    models: Vec<ModelStatusItem>,
    active_model: Option<String>,
    overrides: Vec<(String, ModelInstallStatus)>,
    last_transcript: Option<String>,
}

impl ModelStore {
    pub closed spec fn spec_models(self) -> Seq<ModelStatusItem> {
        self.models@
    }

    pub closed spec fn spec_active_model(self) -> Option<String> {
        self.active_model
    }

    pub closed spec fn spec_last_transcript(self) -> Option<String> {
        self.last_transcript
    }

    /// The override recorded for a model name, if any.
    pub closed spec fn spec_override_of(self, id: Seq<char>) -> Option<ModelInstallStatus> {
        spec_override_lookup(self.overrides@, id)
    }

    /// The override table itself, in insertion order.
    pub closed spec fn spec_overrides(self) -> Seq<(String, ModelInstallStatus)> {
        self.overrides@
    }

    pub closed spec fn wf(self) -> bool {
        forall|i: int, j: int|
            0 <= i < j < self.overrides@.len() ==> self.overrides@[i].0@ != self.overrides@[j].0@
    }

    pub fn new() -> (r: Self)
        ensures
            r.wf(),
            r.spec_models() =~= Seq::<ModelStatusItem>::empty(),
            r.spec_active_model() is None,
            r.spec_last_transcript() is None,
            forall|id: Seq<char>| (r.spec_override_of(id) is None),
    {
        ModelStore { models: Vec::new(), active_model: None, overrides: Vec::new(), last_transcript: None }
    }

    /// The current rows, active model and queue count, as published.
    pub fn snapshot(&self) -> (r: ModelStatusPayload)
        ensures
            r.models@ == self.spec_models(),
            r.active_model == self.spec_active_model(),
            r.queue_count as int == spec_queue_count(self.spec_models()),
    {
        let models = duplicate_items(&self.models);
        let queue = queue_count(&models);
        ModelStatusPayload {
            models,
            active_model: duplicate_opt_string(&self.active_model),
            queue_count: queue,
        }
    }

    /// Replaces rows and active model together.
    pub fn set(&mut self, payload: ModelStatusPayload) -> (r: ModelStatusPayload)
        requires
            old(self).wf(),
        ensures
            final(self).wf(),
            final(self).spec_models() == payload.models@,
            final(self).spec_active_model() == payload.active_model,
            final(self).spec_last_transcript() == old(self).spec_last_transcript(),
            forall|id: Seq<char>| final(self).spec_override_of(id) == old(self).spec_override_of(id),
            r.models@ == payload.models@,
            r.active_model == payload.active_model,
    {
        self.models = payload.models;
        self.active_model = payload.active_model;
        self.snapshot()
    }

    pub fn set_models(&mut self, models: Vec<ModelStatusItem>) -> (r: ModelStatusPayload)
        requires
            old(self).wf(),
        ensures
            final(self).wf(),
            final(self).spec_models() == models@,
            final(self).spec_active_model() == old(self).spec_active_model(),
            final(self).spec_last_transcript() == old(self).spec_last_transcript(),
            forall|id: Seq<char>| final(self).spec_override_of(id) == old(self).spec_override_of(id),
            r.models@ == models@,
    {
        self.models = models;
        self.snapshot()
    }

    pub fn set_active_model(&mut self, active_model: Option<String>) -> (r: ModelStatusPayload)
        requires
            old(self).wf(),
        ensures
            final(self).wf(),
            final(self).spec_models() == old(self).spec_models(),
            final(self).spec_active_model() == active_model,
            final(self).spec_last_transcript() == old(self).spec_last_transcript(),
            forall|id: Seq<char>| final(self).spec_override_of(id) == old(self).spec_override_of(id),
            r.active_model == active_model,
    {
        self.active_model = active_model;
        self.snapshot()
    }

    pub fn active_model(&self) -> (r: Option<String>)
        ensures
            r == self.spec_active_model(),
    {
        duplicate_opt_string(&self.active_model)
    }

    pub fn set_last_transcript(&mut self, text: String)
        ensures
            final(self).spec_last_transcript() == Some(text),
            final(self).spec_models() == old(self).spec_models(),
            final(self).spec_active_model() == old(self).spec_active_model(),
            final(self).wf() == old(self).wf(),
            forall|id: Seq<char>| final(self).spec_override_of(id) == old(self).spec_override_of(id),
    {
        self.last_transcript = Some(text);
    }

    pub fn last_transcript(&self) -> (r: Option<String>)
        ensures
            r == self.spec_last_transcript(),
    {
        duplicate_opt_string(&self.last_transcript)
    }

    fn override_index(&self, id: &str) -> (r: Option<usize>)
        ensures
            match r {
                Some(i) => spec_override_index(self.overrides@, id@) == Some(i as int) && i
                    < self.overrides@.len() && self.overrides@[i as int].0@ == id@,
                None => spec_override_index(self.overrides@, id@) is None,
            },
    {
        let n = self.overrides.len();
        let mut i: usize = 0;
        while i < n
            invariant
                n == self.overrides@.len(),
                i <= n,
                forall|k: int| 0 <= k < i ==> self.overrides@[k].0@ != id@,
            decreases n - i,
        {
            if str_eq(self.overrides[i].0.as_str(), id) {
                proof {
                    lemma_override_index_found(self.overrides@, id@, i as int);
                }
                return Some(i);
            }
            i = i + 1;
        }
        proof {
            lemma_override_index_absent(self.overrides@, id@);
        }
        None
    }

    /// Records a status override for one model name.
    pub fn set_override(&mut self, id: String, status: ModelInstallStatus)
        requires
            old(self).wf(),
        ensures
            final(self).wf(),
            final(self).spec_override_of(id@) == Some(status),
            forall|other: Seq<char>|
                other != id@ ==> final(self).spec_override_of(other) == old(self).spec_override_of(
                    other,
                ),
            final(self).spec_models() == old(self).spec_models(),
            final(self).spec_active_model() == old(self).spec_active_model(),
            final(self).spec_last_transcript() == old(self).spec_last_transcript(),
    {
        let idx = self.override_index(id.as_str());
        let ghost prior = self.overrides@;
        match idx {
            Some(i) => {
                self.overrides[i] = (id, status);
                proof {
                    lemma_override_index_update(prior, i as int, self.overrides@[i as int]);
                }
            },
            None => {
                self.overrides.push((id, status));
                proof {
                    lemma_override_index_push(prior, self.overrides@.last());
                }
            },
        }
    }

    /// Removes any status override for one model name.
    pub fn clear_override(&mut self, id: &str)
        requires
            old(self).wf(),
        ensures
            final(self).wf(),
            final(self).spec_override_of(id@) is None,
            forall|other: Seq<char>|
                other != id@ ==> final(self).spec_override_of(other) == old(self).spec_override_of(
                    other,
                ),
            final(self).spec_models() == old(self).spec_models(),
            final(self).spec_active_model() == old(self).spec_active_model(),
            final(self).spec_last_transcript() == old(self).spec_last_transcript(),
    {
        match self.override_index(id) {
            Some(i) => {
                self.overrides.remove(i);
                proof {
                    lemma_override_index_remove(old(self).overrides@, i as int);
                }
            },
            None => {},
        }
    }

    /// The override table as a list of (name, status) pairs.
    pub fn overrides_snapshot(&self) -> (r: Vec<(String, ModelInstallStatus)>)
        ensures
            r@.len() == self.spec_overrides().len(),
            forall|i: int|
                0 <= i < r@.len() ==> r@[i].0@ == self.spec_overrides()[i].0@ && r@[i].1
                    == self.spec_overrides()[i].1,
    {
        let n = self.overrides.len();
        let mut out: Vec<(String, ModelInstallStatus)> = Vec::new();
        let mut i: usize = 0;
        while i < n
            invariant
                n == self.overrides@.len(),
                i <= n,
                out@.len() == i,
                forall|k: int|
                    0 <= k < i ==> out@[k].0@ == self.overrides@[k].0@ && out@[k].1
                        == self.overrides@[k].1,
            decreases n - i,
        {
            out.push((self.overrides[i].0.clone(), self.overrides[i].1));
            i = i + 1;
        }
        out
    }
}

/// The status override recorded for a model name, if any.
pub open spec fn spec_override_lookup(
    overrides: Seq<(String, ModelInstallStatus)>,
    id: Seq<char>,
) -> Option<ModelInstallStatus> {
    match spec_override_index(overrides, id) {
        Some(i) => Some(overrides[i].1),
        None => None,
    }
}

pub open spec fn spec_override_index(
    overrides: Seq<(String, ModelInstallStatus)>,
    id: Seq<char>,
) -> Option<int>
    decreases overrides.len(),
{
    if overrides.len() == 0 {
        None
    } else if overrides[0].0@ == id {
        Some(0int)
    } else {
        match spec_override_index(overrides.drop_first(), id) {
            Some(i) => Some(i + 1),
            None => None,
        }
    }
}

proof fn lemma_override_index_found(
    overrides: Seq<(String, ModelInstallStatus)>,
    id: Seq<char>,
    i: int,
)
    requires
        0 <= i < overrides.len(),
        overrides[i].0@ == id,
        forall|k: int| 0 <= k < i ==> overrides[k].0@ != id,
    ensures
        spec_override_index(overrides, id) == Some(i),
    decreases i,
{
    if i > 0 {
        lemma_override_index_found(overrides.drop_first(), id, i - 1);
    }
}

proof fn lemma_override_index_absent(overrides: Seq<(String, ModelInstallStatus)>, id: Seq<char>)
    requires
        forall|k: int| 0 <= k < overrides.len() ==> overrides[k].0@ != id,
    ensures
        spec_override_index(overrides, id) is None,
    decreases overrides.len(),
{
    if overrides.len() > 0 {
        lemma_override_index_absent(overrides.drop_first(), id);
    }
}

proof fn lemma_override_index_props(overrides: Seq<(String, ModelInstallStatus)>, id: Seq<char>)
    ensures
        match spec_override_index(overrides, id) {
            Some(i) => 0 <= i < overrides.len() && overrides[i].0@ == id && (forall|k: int|
                0 <= k < i ==> overrides[k].0@ != id),
            None => forall|k: int| 0 <= k < overrides.len() ==> overrides[k].0@ != id,
        },
    decreases overrides.len(),
{
    if overrides.len() > 0 && overrides[0].0@ != id {
        let rest = overrides.drop_first();
        lemma_override_index_props(rest, id);
        match spec_override_index(rest, id) {
            Some(j) => {
                assert(overrides[j + 1] == rest[j]);
                assert forall|k: int| 0 <= k < j + 1 implies overrides[k].0@ != id by {
                    if k > 0 {
                        assert(overrides[k] == rest[k - 1]);
                    }
                }
            },
            None => {
                assert forall|k: int| 0 <= k < overrides.len() implies overrides[k].0@ != id by {
                    if k > 0 {
                        assert(overrides[k] == rest[k - 1]);
                    }
                }
            },
        }
    }
}

proof fn lemma_override_index_update(
    overrides: Seq<(String, ModelInstallStatus)>,
    i: int,
    entry: (String, ModelInstallStatus),
)
    requires
        0 <= i < overrides.len(),
        overrides[i].0@ == entry.0@,
        forall|p: int, q: int| 0 <= p < q < overrides.len() ==> overrides[p].0@ != overrides[q].0@,
    ensures
        spec_override_lookup(overrides.update(i, entry), entry.0@) == Some(entry.1),
        forall|other: Seq<char>|
            other != entry.0@ ==> spec_override_lookup(overrides.update(i, entry), other)
                == spec_override_lookup(overrides, other),
        forall|p: int, q: int|
            0 <= p < q < overrides.update(i, entry).len() ==> overrides.update(i, entry)[p].0@
                != overrides.update(i, entry)[q].0@,
{
    let updated = overrides.update(i, entry);
    lemma_override_index_props(overrides, entry.0@);
    assert(spec_override_index(overrides, entry.0@) == Some(i));
    assert forall|k: int| 0 <= k < i implies updated[k].0@ != entry.0@ by {
        assert(updated[k] == overrides[k]);
    }
    lemma_override_index_found(updated, entry.0@, i);
    assert forall|other: Seq<char>| other != entry.0@ implies spec_override_lookup(updated, other)
        == spec_override_lookup(overrides, other) by {
        lemma_override_index_props(overrides, other);
        match spec_override_index(overrides, other) {
            Some(j) => {
                assert(j != i);
                assert(updated[j] == overrides[j]);
                lemma_override_index_found(updated, other, j);
            },
            None => {
                assert forall|k: int| 0 <= k < updated.len() implies updated[k].0@ != other by {
                    if k != i {
                        assert(updated[k] == overrides[k]);
                    }
                }
                lemma_override_index_absent(updated, other);
            },
        }
    }
    assert forall|p: int, q: int| 0 <= p < q < updated.len() implies updated[p].0@
        != updated[q].0@ by {
        if p != i && q != i {
            assert(updated[p] == overrides[p] && updated[q] == overrides[q]);
        } else if p == i {
            assert(updated[q] == overrides[q]);
        } else {
            assert(updated[p] == overrides[p]);
        }
    }
}

proof fn lemma_override_index_push(
    overrides: Seq<(String, ModelInstallStatus)>,
    entry: (String, ModelInstallStatus),
)
    requires
        spec_override_index(overrides, entry.0@) is None,
        forall|p: int, q: int| 0 <= p < q < overrides.len() ==> overrides[p].0@ != overrides[q].0@,
    ensures
        spec_override_lookup(overrides.push(entry), entry.0@) == Some(entry.1),
        forall|other: Seq<char>|
            other != entry.0@ ==> spec_override_lookup(overrides.push(entry), other)
                == spec_override_lookup(overrides, other),
        forall|p: int, q: int|
            0 <= p < q < overrides.push(entry).len() ==> overrides.push(entry)[p].0@
                != overrides.push(entry)[q].0@,
{
    let pushed = overrides.push(entry);
    lemma_override_index_props(overrides, entry.0@);
    lemma_override_index_found(pushed, entry.0@, overrides.len() as int);
    assert forall|other: Seq<char>| other != entry.0@ implies spec_override_lookup(pushed, other)
        == spec_override_lookup(overrides, other) by {
        lemma_override_index_props(overrides, other);
        match spec_override_index(overrides, other) {
            Some(j) => {
                assert(pushed[j] == overrides[j]);
                lemma_override_index_found(pushed, other, j);
            },
            None => {
                assert forall|k: int| 0 <= k < pushed.len() implies pushed[k].0@ != other by {
                    if k < overrides.len() {
                        assert(pushed[k] == overrides[k]);
                    }
                }
                lemma_override_index_absent(pushed, other);
            },
        }
    }
    assert forall|p: int, q: int| 0 <= p < q < pushed.len() implies pushed[p].0@
        != pushed[q].0@ by {
        if q < overrides.len() {
            assert(pushed[p] == overrides[p] && pushed[q] == overrides[q]);
        } else {
            assert(pushed[p] == overrides[p] && pushed[q] == entry);
        }
    }
}

proof fn lemma_override_index_remove(overrides: Seq<(String, ModelInstallStatus)>, i: int)
    requires
        0 <= i < overrides.len(),
        forall|p: int, q: int| 0 <= p < q < overrides.len() ==> overrides[p].0@ != overrides[q].0@,
    ensures
        spec_override_lookup(overrides.remove(i), overrides[i].0@) is None,
        forall|other: Seq<char>|
            other != overrides[i].0@ ==> spec_override_lookup(overrides.remove(i), other)
                == spec_override_lookup(overrides, other),
        forall|p: int, q: int|
            0 <= p < q < overrides.remove(i).len() ==> overrides.remove(i)[p].0@
                != overrides.remove(i)[q].0@,
{
    let removed = overrides.remove(i);
    assert(forall|k: int| 0 <= k < removed.len() ==> removed[k].0@ != overrides[i].0@);
    lemma_override_index_absent(removed, overrides[i].0@);
    assert forall|other: Seq<char>| other != overrides[i].0@ implies spec_override_lookup(
        removed,
        other,
    ) == spec_override_lookup(overrides, other) by {
        lemma_override_index_props(overrides, other);
        lemma_override_index_props(removed, other);
        match spec_override_index(overrides, other) {
            Some(j) => {
                if j < i {
                    assert(removed[j] == overrides[j]);
                    lemma_override_index_found(removed, other, j);
                } else {
                    assert(removed[j - 1] == overrides[j]);
                    lemma_override_index_found(removed, other, j - 1);
                }
            },
            None => {
                assert forall|k: int| 0 <= k < removed.len() implies removed[k].0@ != other by {
                    if k < i {
                        assert(removed[k] == overrides[k]);
                    } else {
                        assert(removed[k] == overrides[k + 1]);
                    }
                }
                lemma_override_index_absent(removed, other);
            },
        }
    }
    assert forall|p: int, q: int| 0 <= p < q < removed.len() implies removed[p].0@
        != removed[q].0@ by {
        let p0: int = if p < i {
            p
        } else {
            p + 1
        };
        let q0: int = if q < i {
            q
        } else {
            q + 1
        };
        assert(removed[p] == overrides[p0] && removed[q] == overrides[q0]);
    }
}

/// Looks a model name up in an override table.
fn override_for(
    overrides: &Vec<(String, ModelInstallStatus)>,
    id: &str,
) -> (r: Option<ModelInstallStatus>)
    ensures
        r == spec_override_lookup(overrides@, id@),
{
    let n = overrides.len();
    let mut i: usize = 0;
    while i < n
        invariant
            n == overrides@.len(),
            i <= n,
            forall|k: int| 0 <= k < i ==> overrides@[k].0@ != id@,
        decreases n - i,
    {
        if str_eq(overrides[i].0.as_str(), id) {
            proof {
                lemma_override_index_found(overrides@, id@, i as int);
            }
            return Some(overrides[i].1);
        }
        i = i + 1;
    }
    proof {
        lemma_override_index_absent(overrides@, id@);
    }
    None
}

/// One standard row of the status payload.
fn standard_status_item<S: crate::model::ModelStorage>(
    storage: &S,
    root: &str,
    active: Option<&String>,
    overrides: &Vec<(String, ModelInstallStatus)>,
    name: &'static str,
) -> (r: ModelStatusItem)
    ensures
        r.id@ == name@,
        r.name@ == name@,
        r.active <==> (active matches Some(a) && a@ == name@),
        spec_override_lookup(overrides@, name@) matches Some(st) ==> r.status == st,
        r.progress == (if r.status is Ready {
            100u32
        } else {
            0u32
        }),
{
    let mut filename = String::from_str("ggml-");
    filename.append(name);
    filename.append(".bin");
    let path = crate::model::join_path(root, filename.as_str());
    let exists = match storage.file_size(path.as_str()) {
        Ok(Some(_)) => true,
        _ => false,
    };
    let mut status = if exists {
        ModelInstallStatus::Ready
    } else {
        ModelInstallStatus::Pending
    };
    match override_for(overrides, name) {
        Some(st) => {
            status = st;
        },
        None => {},
    }
    let is_active = match active {
        Some(a) => str_eq(a.as_str(), name),
        None => false,
    };
    let progress: u32 = if matches!(status, ModelInstallStatus::Ready) {
        100
    } else {
        0
    };
    ModelStatusItem {
        id: String::from_str(name),
        name: String::from_str(name),
        status,
        total_bytes: 0,
        downloaded_bytes: 0,
        speed_bytes_per_sec: 0,
        eta_seconds: 0,
        progress,
        active: is_active,
    }
}

/// The published model status snapshot: one row per standard model, one
/// more for an active custom model, each marked ready or pending by the
/// cache with a recorded override winning, with the queue count of the
/// whole table.
pub fn build_model_status_payload<S: crate::model::ModelStorage>(
    storage: &S,
    root: &str,
    active: Option<&String>,
    overrides: &Vec<(String, ModelInstallStatus)>,
) -> (r: ModelStatusPayload)
    ensures
        r.queue_count as int == spec_queue_count(r.models@),
        (r.active_model is Some) <==> (active is Some),
        r.active_model matches Some(a) ==> (active matches Some(g) && a@ == g@),
        r.models@.len() == 5 || r.models@.len() == 6,
        r.models@[0].id@ == "tiny"@,
        r.models@[1].id@ == "base"@,
        r.models@[2].id@ == "small"@,
        r.models@[3].id@ == "medium"@,
        r.models@[4].id@ == "large"@,
        r.models@.len() == 6 ==> (active matches Some(g) && r.models@[5].id@ == g@),
        forall|i: int|
            0 <= i < r.models@.len() ==> (#[trigger] r.models@[i].name@) == r.models@[i].id@,
        forall|i: int|
            0 <= i < r.models@.len() ==> ((#[trigger] r.models@[i].active) <==> (active matches Some(
                g,
            ) && g@ == r.models@[i].id@)),
        forall|i: int|
            0 <= i < r.models@.len() ==> (spec_override_lookup(overrides@, r.models@[i].id@)
                matches Some(st) ==> (#[trigger] r.models@[i].status) == st),
        forall|i: int|
            0 <= i < r.models@.len() ==> (#[trigger] r.models@[i].progress) == (
            if r.models@[i].status is Ready {
                100u32
            } else {
                0u32
            }),
{
    let mut items: Vec<ModelStatusItem> = Vec::new();
    items.push(standard_status_item(storage, root, active, overrides, "tiny"));
    items.push(standard_status_item(storage, root, active, overrides, "base"));
    items.push(standard_status_item(storage, root, active, overrides, "small"));
    items.push(standard_status_item(storage, root, active, overrides, "medium"));
    items.push(standard_status_item(storage, root, active, overrides, "large"));
    let active_model: Option<String> = match active {
        Some(a) => {
            let mut listed = false;
            let mut k: usize = 0;
            while k < 5
                invariant
                    k <= 5,
                    items@.len() == 5,
                    listed ==> exists|j: int| 0 <= j < 5 && a@ == #[trigger] items@[j].id@,
                    !listed ==> forall|j: int| 0 <= j < k ==> a@ != #[trigger] items@[j].id@,
                decreases 5 - k,
            {
                if str_eq(a.as_str(), items[k].id.as_str()) {
                    listed = true;
                }
                k = k + 1;
            }
            if !listed {
                let mut filename = String::from_str(a.as_str());
                filename.append(".bin");
                let path = crate::model::join_path(root, filename.as_str());
                let exists_file = match storage.file_size(path.as_str()) {
                    Ok(Some(_)) => true,
                    _ => false,
                };
                let mut status = if exists_file {
                    ModelInstallStatus::Ready
                } else {
                    ModelInstallStatus::Pending
                };
                match override_for(overrides, a.as_str()) {
                    Some(st) => {
                        status = st;
                    },
                    None => {},
                }
                let progress: u32 = if matches!(status, ModelInstallStatus::Ready) {
                    100
                } else {
                    0
                };
                items.push(
                    ModelStatusItem {
                        id: a.clone(),
                        name: a.clone(),
                        status,
                        total_bytes: 0,
                        downloaded_bytes: 0,
                        speed_bytes_per_sec: 0,
                        eta_seconds: 0,
                        progress,
                        active: true,
                    },
                );
            }
            Some(a.clone())
        },
        None => None,
    };
    let queue = queue_count(&items);
    ModelStatusPayload { models: items, active_model, queue_count: queue }
}

} // verus!
