//! The PTT runtime's decision core: the Armed/Capturing/Processing state
//! machine, the manual-toggle policy, the edge-coercion rule, and the
//! bookkeeping of what was last published.
//!
//! The runtime thread outside the library owns the audio stream, the
//! transcriber and the injector; between its blocking calls it feeds this
//! core one command or edge at a time and performs the actions the core
//! hands back.  Every state the core reports for publication equals its
//! current state, so the last published `ptt_state` event always shows
//! where the runtime is.

use vstd::prelude::*;
use vstd::string::StrSliceExecFns;
use vstd::string::StringExecFns;
use crate::hotkeys::{Hotkey, HotkeyActionEvent, HotkeyBinding, HotkeyKey, HotkeyManager,
    HotkeyModifiers, HotkeyState, HotkeyTrigger, lemma_register_find_other,
    lemma_register_find_same, spec_find_binding, spec_register};
use crate::settings::{AppSettings, OutputMode};
use crate::text::{chars_of, char_lower, lower_codes, str_eq, trim_chars, trim_spec};

verus! {

#[derive(Debug, Clone)]
pub enum PttState {
    Idle,
    Armed,
    Capturing,
    Processing,
    Error { message: String },
}

/// Sameness of states, with error messages compared by their text.
pub open spec fn state_like(a: PttState, b: PttState) -> bool {
    match (a, b) {
        (PttState::Idle, PttState::Idle) => true,
        (PttState::Armed, PttState::Armed) => true,
        (PttState::Capturing, PttState::Capturing) => true,
        (PttState::Processing, PttState::Processing) => true,
        (PttState::Error { message: x }, PttState::Error { message: y }) => x@ == y@,
        _ => false,
    }
}

pub fn state_eq(a: &PttState, b: &PttState) -> (r: bool)
    ensures
        r == state_like(*a, *b),
{
    match (a, b) {
        (PttState::Idle, PttState::Idle) => true,
        (PttState::Armed, PttState::Armed) => true,
        (PttState::Capturing, PttState::Capturing) => true,
        (PttState::Processing, PttState::Processing) => true,
        (PttState::Error { message: x }, PttState::Error { message: y }) => str_eq(
            x.as_str(),
            y.as_str(),
        ),
        _ => false,
    }
}

pub fn duplicate_state(state: &PttState) -> (r: PttState)
    ensures
        r == *state,
{
    match state {
        PttState::Idle => PttState::Idle,
        PttState::Armed => PttState::Armed,
        PttState::Capturing => PttState::Capturing,
        PttState::Processing => PttState::Processing,
        PttState::Error { message } => PttState::Error { message: message.clone() },
    }
}

#[derive(Debug, Clone, PartialEq, Eq)]
pub struct PttHotkeyModifiers {
    pub ctrl: bool,
    pub alt: bool,
    pub shift: bool,
    pub meta: bool,
}

/// The hotkey as outside callers describe it: a key name matched
/// case-insensitively, and the four modifier flags.
#[derive(Debug, Clone, PartialEq, Eq)]
pub struct PttHotkeyPayload {
    pub key: String,
    pub modifiers: PttHotkeyModifiers,
}

impl Default for PttHotkeyPayload {
    /// Ctrl+Alt+Space.
    fn default() -> (r: Self)
        ensures
            r.key@ == "space"@,
            r.modifiers == (PttHotkeyModifiers { ctrl: true, alt: true, shift: false, meta: false }),
    {
        PttHotkeyPayload {
            key: String::from_str("space"),
            modifiers: PttHotkeyModifiers { ctrl: true, alt: true, shift: false, meta: false },
        }
    }
}

/// The key a (trimmed, case-folded) name denotes, if any.
pub open spec fn spec_parse_hotkey_key(s: Seq<char>) -> Option<HotkeyKey> {
    let t = trim_spec(s);
    if lower_codes(t) == lower_codes("a"@) {
        Some(HotkeyKey::A)
    } else if lower_codes(t) == lower_codes("b"@) {
        Some(HotkeyKey::B)
    } else if lower_codes(t) == lower_codes("c"@) {
        Some(HotkeyKey::C)
    } else if lower_codes(t) == lower_codes("d"@) {
        Some(HotkeyKey::D)
    } else if lower_codes(t) == lower_codes("e"@) {
        Some(HotkeyKey::E)
    } else if lower_codes(t) == lower_codes("f"@) {
        Some(HotkeyKey::F)
    } else if lower_codes(t) == lower_codes("g"@) {
        Some(HotkeyKey::G)
    } else if lower_codes(t) == lower_codes("h"@) {
        Some(HotkeyKey::H)
    } else if lower_codes(t) == lower_codes("i"@) {
        Some(HotkeyKey::I)
    } else if lower_codes(t) == lower_codes("j"@) {
        Some(HotkeyKey::J)
    } else if lower_codes(t) == lower_codes("k"@) {
        Some(HotkeyKey::K)
    } else if lower_codes(t) == lower_codes("l"@) {
        Some(HotkeyKey::L)
    } else if lower_codes(t) == lower_codes("m"@) {
        Some(HotkeyKey::M)
    } else if lower_codes(t) == lower_codes("n"@) {
        Some(HotkeyKey::N)
    } else if lower_codes(t) == lower_codes("o"@) {
        Some(HotkeyKey::O)
    } else if lower_codes(t) == lower_codes("p"@) {
        Some(HotkeyKey::P)
    } else if lower_codes(t) == lower_codes("q"@) {
        Some(HotkeyKey::Q)
    } else if lower_codes(t) == lower_codes("r"@) {
        Some(HotkeyKey::R)
    } else if lower_codes(t) == lower_codes("s"@) {
        Some(HotkeyKey::S)
    } else if lower_codes(t) == lower_codes("t"@) {
        Some(HotkeyKey::T)
    } else if lower_codes(t) == lower_codes("u"@) {
        Some(HotkeyKey::U)
    } else if lower_codes(t) == lower_codes("v"@) {
        Some(HotkeyKey::V)
    } else if lower_codes(t) == lower_codes("w"@) {
        Some(HotkeyKey::W)
    } else if lower_codes(t) == lower_codes("x"@) {
        Some(HotkeyKey::X)
    } else if lower_codes(t) == lower_codes("y"@) {
        Some(HotkeyKey::Y)
    } else if lower_codes(t) == lower_codes("z"@) {
        Some(HotkeyKey::Z)
    } else if lower_codes(t) == lower_codes("f1"@) {
        Some(HotkeyKey::F1)
    } else if lower_codes(t) == lower_codes("f2"@) {
        Some(HotkeyKey::F2)
    } else if lower_codes(t) == lower_codes("f3"@) {
        Some(HotkeyKey::F3)
    } else if lower_codes(t) == lower_codes("f4"@) {
        Some(HotkeyKey::F4)
    } else if lower_codes(t) == lower_codes("f5"@) {
        Some(HotkeyKey::F5)
    } else if lower_codes(t) == lower_codes("f6"@) {
        Some(HotkeyKey::F6)
    } else if lower_codes(t) == lower_codes("f7"@) {
        Some(HotkeyKey::F7)
    } else if lower_codes(t) == lower_codes("f8"@) {
        Some(HotkeyKey::F8)
    } else if lower_codes(t) == lower_codes("f9"@) {
        Some(HotkeyKey::F9)
    } else if lower_codes(t) == lower_codes("f10"@) {
        Some(HotkeyKey::F10)
    } else if lower_codes(t) == lower_codes("f11"@) {
        Some(HotkeyKey::F11)
    } else if lower_codes(t) == lower_codes("f12"@) {
        Some(HotkeyKey::F12)
    } else if lower_codes(t) == lower_codes("space"@) {
        Some(HotkeyKey::Space)
    } else if lower_codes(t) == lower_codes("enter"@) {
        Some(HotkeyKey::Enter)
    } else if lower_codes(t) == lower_codes("escape"@) {
        Some(HotkeyKey::Escape)
    } else if lower_codes(t) == lower_codes("tab"@) {
        Some(HotkeyKey::Tab)
    } else if lower_codes(t) == lower_codes("backspace"@) {
        Some(HotkeyKey::Backspace)
    } else if lower_codes(t) == lower_codes("left"@) {
        Some(HotkeyKey::Left)
    } else if lower_codes(t) == lower_codes("right"@) {
        Some(HotkeyKey::Right)
    } else if lower_codes(t) == lower_codes("up"@) {
        Some(HotkeyKey::Up)
    } else if lower_codes(t) == lower_codes("down"@) {
        Some(HotkeyKey::Down)
    } else {
        None
    }
}

fn chars_eq_ignore_case(a: &Vec<char>, b: &str) -> (r: bool)
    ensures
        r == (lower_codes(a@) == lower_codes(b@)),
{
    let cb = chars_of(b);
    if a.len() != cb.len() {
        proof {
            assert(lower_codes(a@).len() != lower_codes(b@).len());
        }
        return false;
    }
    let n = a.len();
    let mut i: usize = 0;
    while i < n
        invariant
            n == a@.len() == cb@.len(),
            cb@ == b@,
            i <= n,
            forall|k: int| 0 <= k < i ==> char_lower(a@[k]) == char_lower(b@[k]),
        decreases n - i,
    {
        let ca_l = {
            let u = a[i] as u32;
            if 65 <= u && u <= 90 {
                u + 32
            } else {
                u
            }
        };
        let cb_l = {
            let u = cb[i] as u32;
            if 65 <= u && u <= 90 {
                u + 32
            } else {
                u
            }
        };
        if ca_l != cb_l {
            proof {
                assert(lower_codes(a@)[i as int] != lower_codes(b@)[i as int]);
            }
            return false;
        }
        i = i + 1;
    }
    proof {
        assert forall|k: int| 0 <= k < n implies lower_codes(a@)[k] == lower_codes(b@)[k] by {
            assert(char_lower(a@[k]) == char_lower(b@[k]));
        }
        assert(lower_codes(a@) =~= lower_codes(b@));
    }
    true
}

/// Parses a key name, matched case-insensitively after trimming.
pub fn parse_hotkey_key(name: &str) -> (r: Option<HotkeyKey>)
    ensures
        r == spec_parse_hotkey_key(name@),
{
    let cs = chars_of(name);
    let t = trim_chars(&cs);
    if chars_eq_ignore_case(&t, "a") {
        Some(HotkeyKey::A)
    } else if chars_eq_ignore_case(&t, "b") {
        Some(HotkeyKey::B)
    } else if chars_eq_ignore_case(&t, "c") {
        Some(HotkeyKey::C)
    } else if chars_eq_ignore_case(&t, "d") {
        Some(HotkeyKey::D)
    } else if chars_eq_ignore_case(&t, "e") {
        Some(HotkeyKey::E)
    } else if chars_eq_ignore_case(&t, "f") {
        Some(HotkeyKey::F)
    } else if chars_eq_ignore_case(&t, "g") {
        Some(HotkeyKey::G)
    } else if chars_eq_ignore_case(&t, "h") {
        Some(HotkeyKey::H)
    } else if chars_eq_ignore_case(&t, "i") {
        Some(HotkeyKey::I)
    } else if chars_eq_ignore_case(&t, "j") {
        Some(HotkeyKey::J)
    } else if chars_eq_ignore_case(&t, "k") {
        Some(HotkeyKey::K)
    } else if chars_eq_ignore_case(&t, "l") {
        Some(HotkeyKey::L)
    } else if chars_eq_ignore_case(&t, "m") {
        Some(HotkeyKey::M)
    } else if chars_eq_ignore_case(&t, "n") {
        Some(HotkeyKey::N)
    } else if chars_eq_ignore_case(&t, "o") {
        Some(HotkeyKey::O)
    } else if chars_eq_ignore_case(&t, "p") {
        Some(HotkeyKey::P)
    } else if chars_eq_ignore_case(&t, "q") {
        Some(HotkeyKey::Q)
    } else if chars_eq_ignore_case(&t, "r") {
        Some(HotkeyKey::R)
    } else if chars_eq_ignore_case(&t, "s") {
        Some(HotkeyKey::S)
    } else if chars_eq_ignore_case(&t, "t") {
        Some(HotkeyKey::T)
    } else if chars_eq_ignore_case(&t, "u") {
        Some(HotkeyKey::U)
    } else if chars_eq_ignore_case(&t, "v") {
        Some(HotkeyKey::V)
    } else if chars_eq_ignore_case(&t, "w") {
        Some(HotkeyKey::W)
    } else if chars_eq_ignore_case(&t, "x") {
        Some(HotkeyKey::X)
    } else if chars_eq_ignore_case(&t, "y") {
        Some(HotkeyKey::Y)
    } else if chars_eq_ignore_case(&t, "z") {
        Some(HotkeyKey::Z)
    } else if chars_eq_ignore_case(&t, "f1") {
        Some(HotkeyKey::F1)
    } else if chars_eq_ignore_case(&t, "f2") {
        Some(HotkeyKey::F2)
    } else if chars_eq_ignore_case(&t, "f3") {
        Some(HotkeyKey::F3)
    } else if chars_eq_ignore_case(&t, "f4") {
        Some(HotkeyKey::F4)
    } else if chars_eq_ignore_case(&t, "f5") {
        Some(HotkeyKey::F5)
    } else if chars_eq_ignore_case(&t, "f6") {
        Some(HotkeyKey::F6)
    } else if chars_eq_ignore_case(&t, "f7") {
        Some(HotkeyKey::F7)
    } else if chars_eq_ignore_case(&t, "f8") {
        Some(HotkeyKey::F8)
    } else if chars_eq_ignore_case(&t, "f9") {
        Some(HotkeyKey::F9)
    } else if chars_eq_ignore_case(&t, "f10") {
        Some(HotkeyKey::F10)
    } else if chars_eq_ignore_case(&t, "f11") {
        Some(HotkeyKey::F11)
    } else if chars_eq_ignore_case(&t, "f12") {
        Some(HotkeyKey::F12)
    } else if chars_eq_ignore_case(&t, "space") {
        Some(HotkeyKey::Space)
    } else if chars_eq_ignore_case(&t, "enter") {
        Some(HotkeyKey::Enter)
    } else if chars_eq_ignore_case(&t, "escape") {
        Some(HotkeyKey::Escape)
    } else if chars_eq_ignore_case(&t, "tab") {
        Some(HotkeyKey::Tab)
    } else if chars_eq_ignore_case(&t, "backspace") {
        Some(HotkeyKey::Backspace)
    } else if chars_eq_ignore_case(&t, "left") {
        Some(HotkeyKey::Left)
    } else if chars_eq_ignore_case(&t, "right") {
        Some(HotkeyKey::Right)
    } else if chars_eq_ignore_case(&t, "up") {
        Some(HotkeyKey::Up)
    } else if chars_eq_ignore_case(&t, "down") {
        Some(HotkeyKey::Down)
    } else {
        None
    }
}

impl PttHotkeyPayload {
    /// The structural hotkey this payload denotes, or the message naming
    /// the unknown key.
    pub fn to_hotkey(&self) -> (r: Result<Hotkey, String>)
        ensures
            match spec_parse_hotkey_key(self.key@) {
                Some(k) => r matches Ok(h) && h == (Hotkey {
                    key: k,
                    modifiers: HotkeyModifiers {
                        ctrl: self.modifiers.ctrl,
                        alt: self.modifiers.alt,
                        shift: self.modifiers.shift,
                        meta: self.modifiers.meta,
                    },
                }),
                None => r matches Err(m) && m@ == "unsupported hotkey key '"@ + self.key@
                    + "'"@,
            },
    {
        let key = match parse_hotkey_key(self.key.as_str()) {
            Some(k) => k,
            None => {
                let mut message = String::from_str("unsupported hotkey key '");
                message.append(self.key.as_str());
                message.append("'");
                return Err(message);
            },
        };
        Ok(
            Hotkey {
                key,
                modifiers: HotkeyModifiers {
                    ctrl: self.modifiers.ctrl,
                    alt: self.modifiers.alt,
                    shift: self.modifiers.shift,
                    meta: self.modifiers.meta,
                },
            },
        )
    }
}

/// Registers the PTT action on both triggers of `hotkey`, so that both the
/// press and the release edge reach the runtime.
pub fn register_hotkey_binding(manager: &mut HotkeyManager, hotkey: Hotkey)
    requires
        old(manager).wf(),
    ensures
        final(manager).wf(),
        forall|h: Hotkey|
            h != hotkey ==> final(manager).bindings_of(h) == old(manager).bindings_of(h),
        forall|st: HotkeyState|
            #![trigger spec_find_binding(final(manager).bindings_of(hotkey), st)]
            spec_find_binding(final(manager).bindings_of(hotkey), st) matches Some(b) && b.action@
                == "ptt"@,
{
    let ghost before = manager.bindings_of(hotkey);
    proof {
        crate::hotkeys::lemma_wf_bindings(*manager, hotkey);
    }
    let action_p = String::from_str("ptt");
    let ghost bp = HotkeyBinding { action: action_p, trigger: HotkeyTrigger::Pressed };
    manager.register_with_trigger(hotkey, HotkeyTrigger::Pressed, action_p);
    let ghost m1 = *manager;
    let ghost mid = manager.bindings_of(hotkey);
    proof {
        crate::hotkeys::lemma_wf_bindings(m1, hotkey);
    }
    let action_r = String::from_str("ptt");
    let ghost br = HotkeyBinding { action: action_r, trigger: HotkeyTrigger::Released };
    manager.register_with_trigger(hotkey, HotkeyTrigger::Released, action_r);
    proof {
        assert(mid == spec_register(before, bp));
        assert(manager.bindings_of(hotkey) == spec_register(mid, br));
        lemma_register_find_same(mid, br, HotkeyState::Released);
        lemma_register_find_other(mid, br, HotkeyState::Pressed);
        lemma_register_find_same(before, bp, HotkeyState::Pressed);
        assert forall|st: HotkeyState|
            #![trigger spec_find_binding(manager.bindings_of(hotkey), st)]
            spec_find_binding(manager.bindings_of(hotkey), st) matches Some(b) && b.action@
                == "ptt"@ by {
            match st {
                HotkeyState::Pressed => {
                    assert(spec_find_binding(manager.bindings_of(hotkey), st) == Some(bp));
                },
                HotkeyState::Released => {
                    assert(spec_find_binding(manager.bindings_of(hotkey), st) == Some(br));
                },
            }
        }
    }
}

/// What the runtime asks of its surroundings after digesting a hotkey
/// edge.
#[derive(Debug, Clone, Copy, PartialEq, Eq, Structural)]
pub enum EdgeAction {
    /// Not armed, or not the PTT action: nothing to do.
    Ignored,
    /// Capture began: the latch is to be opened.
    StartCapture,
    /// Capture ended: close the latch, take the audio, transcribe.
    FinishCapture,
}

/// The manual-toggle decision.
#[derive(Debug, Clone, Copy, PartialEq, Eq, Structural)]
pub enum TogglePlan {
    /// Transcription is in flight: the toggle changes nothing.
    Stay,
    /// Synthesize one PTT edge, arming first if not yet armed.
    Toggle { needs_arm: bool, edge: HotkeyState },
}

/// What a finished transcription asks of the surroundings.
#[derive(Debug)]
pub enum CompletionEvent {
    /// The text trimmed to nothing: report "no speech detected".
    NoSpeech,
    /// A transcript to publish and dispatch.
    Transcript(String),
    /// The transcriber failed with this message.
    Failed(String),
}

/// The toggle policy: idempotent while Processing; otherwise a `Released`
/// edge when capturing and a `Pressed` edge when not, arming first if
/// needed.
pub open spec fn spec_toggle_plan(state: PttState, armed: bool) -> TogglePlan {
    if state is Processing {
        TogglePlan::Stay
    } else {
        TogglePlan::Toggle {
            needs_arm: !armed,
            edge: if state is Capturing {
                HotkeyState::Released
            } else {
                HotkeyState::Pressed
            },
        }
    }
}

/// The state after one PTT edge, with the missed-release recovery: a press
/// while already capturing counts as the release that was lost.
pub open spec fn spec_edge_result(state: PttState, edge: HotkeyState) -> (PttState, EdgeAction) {
    if edge is Pressed && !(state is Capturing) {
        (PttState::Capturing, EdgeAction::StartCapture)
    } else {
        (PttState::Processing, EdgeAction::FinishCapture)
    }
}

/// The decision core of the PTT runtime.
pub struct PttRuntime {
    state: PttState,
    armed: bool,
    published: Option<PttState>,
    settings: AppSettings,
    active_model: Option<String>,
    hotkey: Hotkey,
}

impl PttRuntime {
    pub closed spec fn spec_state(self) -> PttState {
        self.state
    }

    pub closed spec fn spec_armed(self) -> bool {
        self.armed
    }

    /// The state most recently handed out for publication.
    pub closed spec fn spec_published(self) -> Option<PttState> {
        self.published
    }

    pub closed spec fn spec_settings(self) -> AppSettings {
        self.settings
    }

    pub closed spec fn spec_active_model(self) -> Option<String> {
        self.active_model
    }

    pub closed spec fn spec_hotkey(self) -> Hotkey {
        self.hotkey
    }

    /// Once anything has been published, the runtime's state is exactly
    /// what was last published.
    pub open spec fn publication_consistent(self) -> bool {
        match self.spec_published() {
            Some(p) => state_like(p, self.spec_state()),
            None => self.spec_state() is Idle,
        }
    }

    pub fn new(hotkey: Hotkey) -> (r: Self)
        ensures
            r.spec_state() is Idle,
            !r.spec_armed(),
            r.spec_published() is None,
            r.spec_hotkey() == hotkey,
            r.spec_active_model() is None,
            r.publication_consistent(),
    {
        PttRuntime {
            state: PttState::Idle,
            armed: false,
            published: None,
            settings: AppSettings::default(),
            active_model: None,
            hotkey,
        }
    }

    pub fn state(&self) -> (r: PttState)
        ensures
            r == self.spec_state(),
    {
        duplicate_state(&self.state)
    }

    pub fn hotkey(&self) -> (r: Hotkey)
        ensures
            r == self.spec_hotkey(),
    {
        self.hotkey
    }

    pub fn settings(&self) -> (r: AppSettings)
        ensures
            r == self.spec_settings(),
    {
        self.settings.duplicate()
    }

    pub fn active_model(&self) -> (r: Option<String>)
        ensures
            r == self.spec_active_model(),
    {
        match &self.active_model {
            Some(s) => Some(s.clone()),
            None => None,
        }
    }

    /// Moves to `next`; returns the state to publish, or nothing when the
    /// runtime is already there (same-to-same transitions are suppressed).
    fn set_state(&mut self, next: PttState) -> (publish: Option<PttState>)
        requires
            old(self).publication_consistent(),
        ensures
            final(self).spec_state() == next,
            final(self).spec_armed() == old(self).spec_armed(),
            final(self).spec_settings() == old(self).spec_settings(),
            final(self).spec_active_model() == old(self).spec_active_model(),
            final(self).spec_hotkey() == old(self).spec_hotkey(),
            state_like(old(self).spec_state(), next) ==> (publish is None
                && final(self).spec_published() == old(self).spec_published()),
            !state_like(old(self).spec_state(), next) ==> (publish matches Some(p) && p == next
                && final(self).spec_published() == Some(next)),
            final(self).publication_consistent(),
    {
        if state_eq(&self.state, &next) {
            self.state = next;
            return None;
        }
        self.published = Some(duplicate_state(&next));
        self.state = next;
        Some(duplicate_state(&self.state))
    }

    /// Replaces the stored settings; nothing else moves.
    pub fn update_settings(&mut self, settings: AppSettings)
        ensures
            final(self).spec_settings() == settings,
            final(self).spec_state() == old(self).spec_state(),
            final(self).spec_armed() == old(self).spec_armed(),
            final(self).spec_published() == old(self).spec_published(),
            final(self).spec_active_model() == old(self).spec_active_model(),
            final(self).spec_hotkey() == old(self).spec_hotkey(),
    {
        self.settings = settings;
    }

    /// Records the active model name; an absent name falls back to the
    /// default model's name.
    pub fn set_active_model(&mut self, name: Option<String>)
        ensures
            final(self).spec_active_model() matches Some(n) && n@ == (match name {
                Some(given) => given@,
                None => "base"@,
            }),
            final(self).spec_state() == old(self).spec_state(),
            final(self).spec_armed() == old(self).spec_armed(),
            final(self).spec_published() == old(self).spec_published(),
            final(self).spec_settings() == old(self).spec_settings(),
            final(self).spec_hotkey() == old(self).spec_hotkey(),
    {
        match name {
            Some(given) => {
                self.active_model = Some(given);
            },
            None => {
                self.active_model = Some(String::from_str("base"));
            },
        }
    }

    /// Accepts a validated hotkey; the caller re-registers the binding
    /// table around this call.
    pub fn set_hotkey(&mut self, hotkey: Hotkey)
        ensures
            final(self).spec_hotkey() == hotkey,
            final(self).spec_state() == old(self).spec_state(),
            final(self).spec_armed() == old(self).spec_armed(),
            final(self).spec_published() == old(self).spec_published(),
            final(self).spec_settings() == old(self).spec_settings(),
            final(self).spec_active_model() == old(self).spec_active_model(),
    {
        self.hotkey = hotkey;
    }

    /// Arms the runtime once its surroundings have the audio stream
    /// running: stores the settings, remembers the model, enters `Armed`.
    pub fn arm(&mut self, settings: AppSettings, active_model: Option<String>) -> (publish: Option<
        PttState,
    >)
        requires
            old(self).publication_consistent(),
        ensures
            final(self).spec_state() is Armed,
            final(self).spec_armed(),
            final(self).spec_settings() == settings,
            final(self).spec_hotkey() == old(self).spec_hotkey(),
            final(self).publication_consistent(),
            state_like(old(self).spec_state(), PttState::Armed) ==> publish is None,
            !state_like(old(self).spec_state(), PttState::Armed) ==> publish == Some(
                PttState::Armed,
            ),
    {
        self.settings = settings;
        self.set_active_model(active_model);
        self.armed = true;
        self.set_state(PttState::Armed)
    }

    /// Stops unconditionally: disarm and return to `Idle`.
    pub fn stop(&mut self) -> (publish: Option<PttState>)
        requires
            old(self).publication_consistent(),
        ensures
            final(self).spec_state() is Idle,
            !final(self).spec_armed(),
            final(self).spec_settings() == old(self).spec_settings(),
            final(self).spec_hotkey() == old(self).spec_hotkey(),
            final(self).publication_consistent(),
            state_like(old(self).spec_state(), PttState::Idle) ==> publish is None,
            !state_like(old(self).spec_state(), PttState::Idle) ==> publish == Some(PttState::Idle),
    {
        self.armed = false;
        self.set_state(PttState::Idle)
    }

    /// Digests one resolved action edge.  Edges while disarmed and edges of
    /// other actions are ignored; a press opens capture unless capture is
    /// already open, in which case — as for a release — the missed-release
    /// recovery finishes the capture.
    pub fn handle_edge(&mut self, event: &HotkeyActionEvent) -> (r: (EdgeAction, Option<PttState>))
        requires
            old(self).publication_consistent(),
        ensures
            final(self).spec_armed() == old(self).spec_armed(),
            final(self).spec_settings() == old(self).spec_settings(),
            final(self).spec_hotkey() == old(self).spec_hotkey(),
            final(self).publication_consistent(),
            (!old(self).spec_armed() || event.action@ != "ptt"@) ==> (r.0 is Ignored
                && *final(self) == *old(self) && r.1 is None),
            (old(self).spec_armed() && event.action@ == "ptt"@) ==> {
                let (next, action) = spec_edge_result(old(self).spec_state(), event.state);
                &&& r.0 == action
                &&& state_like(final(self).spec_state(), next)
                &&& final(self).spec_state() == next
                &&& (state_like(old(self).spec_state(), next) ==> r.1 is None)
                &&& (!state_like(old(self).spec_state(), next) ==> r.1 == Some(next))
            },
    {
        if !self.armed {
            return (EdgeAction::Ignored, None);
        }
        if !str_eq(event.action.as_str(), "ptt") {
            return (EdgeAction::Ignored, None);
        }
        let starting = match event.state {
            HotkeyState::Pressed => !matches!(&self.state, PttState::Capturing),
            HotkeyState::Released => false,
        };
        if starting {
            let publish = self.set_state(PttState::Capturing);
            (EdgeAction::StartCapture, publish)
        } else {
            let publish = self.set_state(PttState::Processing);
            (EdgeAction::FinishCapture, publish)
        }
    }

    /// The manual-toggle policy, decided without moving the runtime.
    pub fn manual_toggle_plan(&self) -> (r: TogglePlan)
        ensures
            r == spec_toggle_plan(self.spec_state(), self.spec_armed()),
    {
        if matches!(&self.state, PttState::Processing) {
            return TogglePlan::Stay;
        }
        let edge = if matches!(&self.state, PttState::Capturing) {
            HotkeyState::Released
        } else {
            HotkeyState::Pressed
        };
        TogglePlan::Toggle { needs_arm: !self.armed, edge }
    }

    /// Digests a finished transcription: classifies the outcome and drops
    /// back to `Armed` or `Idle`, so the next press works even after an
    /// error.
    pub fn complete_transcription(&mut self, result: Result<String, String>) -> (r: (
        CompletionEvent,
        Option<PttState>,
    ))
        requires
            old(self).publication_consistent(),
        ensures
            final(self).spec_armed() == old(self).spec_armed(),
            final(self).spec_settings() == old(self).spec_settings(),
            final(self).spec_hotkey() == old(self).spec_hotkey(),
            final(self).publication_consistent(),
            final(self).spec_state() == (if old(self).spec_armed() {
                PttState::Armed
            } else {
                PttState::Idle
            }),
            state_like(old(self).spec_state(), final(self).spec_state()) ==> (r.1 is None),
            !state_like(old(self).spec_state(), final(self).spec_state()) ==> r.1 == Some(
                final(self).spec_state(),
            ),
            match result {
                Ok(text) => {
                    if crate::text::is_blank(text@) {
                        r.0 is NoSpeech
                    } else {
                        r.0 matches CompletionEvent::Transcript(t) && t == text
                    }
                },
                Err(message) => r.0 matches CompletionEvent::Failed(m) && m == message,
            },
    {
        let event = match result {
            Ok(text) => {
                if crate::text::str_is_blank(text.as_str()) {
                    CompletionEvent::NoSpeech
                } else {
                    CompletionEvent::Transcript(text)
                }
            },
            Err(message) => CompletionEvent::Failed(message),
        };
        let next = if self.armed {
            PttState::Armed
        } else {
            PttState::Idle
        };
        let publish = self.set_state(next);
        (event, publish)
    }

    /// Enters the error state with `message` and publishes it, unless the
    /// runtime already shows that very error.
    pub fn enter_error(&mut self, message: String) -> (publish: Option<PttState>)
        requires
            old(self).publication_consistent(),
        ensures
            final(self).spec_state() matches PttState::Error { message: m } && m == message,
            final(self).spec_armed() == old(self).spec_armed(),
            final(self).spec_settings() == old(self).spec_settings(),
            final(self).spec_active_model() == old(self).spec_active_model(),
            final(self).spec_hotkey() == old(self).spec_hotkey(),
            final(self).publication_consistent(),
            state_like(old(self).spec_state(), final(self).spec_state()) ==> (publish is None),
            !state_like(old(self).spec_state(), final(self).spec_state()) ==> publish == Some(
                final(self).spec_state(),
            ),
    {
        self.set_state(PttState::Error { message })
    }
}

/// The manual toggle is idempotent while Processing, synthesizes a release
/// while Capturing and a press otherwise, and asks to arm first exactly
/// when the runtime is not armed — so it auto-arms from Idle.
pub proof fn lemma_manual_toggle_policy(state: PttState, armed: bool)
    ensures
        state is Processing ==> spec_toggle_plan(state, armed) is Stay,
        !(state is Processing) ==> (spec_toggle_plan(state, armed) matches TogglePlan::Toggle {
            needs_arm,
            edge,
        } && needs_arm == !armed && edge == (if state is Capturing {
            HotkeyState::Released
        } else {
            HotkeyState::Pressed
        })),
{
}

/// After any sequence of runtime steps, the current state equals the last
/// published state: every publication carries the new state, and
/// suppressed transitions never change it.
pub proof fn lemma_state_matches_last_published(r: PttRuntime)
    requires
        r.publication_consistent(),
        r.spec_published() is Some,
    ensures
        state_like(r.spec_published()->0, r.spec_state()),
{
}

/// The debounce in front of the manual-toggle signal: a toggle is
/// accepted when at least the window has passed since the last accepted
/// one.
pub struct ToggleDebounce {
    last_accepted_ms: Option<u64>,
}

/// The debounce window, in milliseconds.
pub const DEBOUNCE_WINDOW_MS: u64 = 400;

/// Whether a toggle arriving at `now_ms` is accepted.
pub open spec fn spec_debounce_accept(last: Option<u64>, now_ms: u64) -> bool {
    match last {
        None => true,
        Some(last_ms) => now_ms >= last_ms + DEBOUNCE_WINDOW_MS,
    }
}

impl ToggleDebounce {
    pub closed spec fn spec_last(self) -> Option<u64> {
        self.last_accepted_ms
    }

    pub fn new() -> (r: Self)
        ensures
            r.spec_last() is None,
    {
        ToggleDebounce { last_accepted_ms: None }
    }

    /// Accepts or drops a toggle request at `now_ms`; an accepted one
    /// starts the next window.
    pub fn accept(&mut self, now_ms: u64) -> (r: bool)
        ensures
            r == spec_debounce_accept(old(self).spec_last(), now_ms),
            final(self).spec_last() == (if r {
                Some(now_ms)
            } else {
                old(self).spec_last()
            }),
    {
        let ok = match self.last_accepted_ms {
            None => true,
            Some(last) => now_ms >= last && now_ms - last >= DEBOUNCE_WINDOW_MS,
        };
        if ok {
            self.last_accepted_ms = Some(now_ms);
        }
        ok
    }
}

/// The wtype/xdotool paste keystroke invocations, preferred order by
/// session type: the Wayland helper first on Wayland, the X11 helper
/// first otherwise.
pub open spec fn spec_wtype_paste_args(args: Seq<&'static str>) -> bool {
    &&& args.len() == 6
    &&& args[0]@ == "-M"@
    &&& args[1]@ == "ctrl"@
    &&& args[2]@ == "-k"@
    &&& args[3]@ == "v"@
    &&& args[4]@ == "-m"@
    &&& args[5]@ == "ctrl"@
}

pub open spec fn spec_xdotool_paste_args(args: Seq<&'static str>) -> bool {
    &&& args.len() == 3
    &&& args[0]@ == "key"@
    &&& args[1]@ == "--clearmodifiers"@
    &&& args[2]@ == "ctrl+v"@
}

pub fn paste_command_candidates(wayland: bool) -> (r: Vec<(&'static str, Vec<&'static str>)>)
    ensures
        r@.len() == 2,
        wayland ==> r@[0].0@ == "wtype"@ && spec_wtype_paste_args(r@[0].1@) && r@[1].0@
            == "xdotool"@ && spec_xdotool_paste_args(r@[1].1@),
        !wayland ==> r@[0].0@ == "xdotool"@ && spec_xdotool_paste_args(r@[0].1@) && r@[1].0@
            == "wtype"@ && spec_wtype_paste_args(r@[1].1@),
{
    let mut wtype_args: Vec<&'static str> = Vec::new();
    wtype_args.push("-M");
    wtype_args.push("ctrl");
    wtype_args.push("-k");
    wtype_args.push("v");
    wtype_args.push("-m");
    wtype_args.push("ctrl");
    let mut xdotool_args: Vec<&'static str> = Vec::new();
    xdotool_args.push("key");
    xdotool_args.push("--clearmodifiers");
    xdotool_args.push("ctrl+v");
    let mut out: Vec<(&'static str, Vec<&'static str>)> = Vec::new();
    if wayland {
        out.push(("wtype", wtype_args));
        out.push(("xdotool", xdotool_args));
    } else {
        out.push(("xdotool", xdotool_args));
        out.push(("wtype", wtype_args));
    }
    out
}

/// The wtype/xdotool direct-typing invocations for a text, preferred
/// order by session type.
pub open spec fn spec_wtype_type_args(args: Seq<String>, text: Seq<char>) -> bool {
    &&& args.len() == 2
    &&& args[0]@ == "--"@
    &&& args[1]@ == text
}

pub open spec fn spec_xdotool_type_args(args: Seq<String>, text: Seq<char>) -> bool {
    &&& args.len() == 3
    &&& args[0]@ == "type"@
    &&& args[1]@ == "--clearmodifiers"@
    &&& args[2]@ == text
}

pub fn type_command_candidates(wayland: bool, text: &str) -> (r: Vec<(&'static str, Vec<String>)>)
    ensures
        r@.len() == 2,
        wayland ==> r@[0].0@ == "wtype"@ && spec_wtype_type_args(r@[0].1@, text@) && r@[1].0@
            == "xdotool"@ && spec_xdotool_type_args(r@[1].1@, text@),
        !wayland ==> r@[0].0@ == "xdotool"@ && spec_xdotool_type_args(r@[0].1@, text@) && r@[1].0@
            == "wtype"@ && spec_wtype_type_args(r@[1].1@, text@),
{
    let mut wtype_args: Vec<String> = Vec::new();
    wtype_args.push(String::from_str("--"));
    wtype_args.push(String::from_str(text));
    let mut xdotool_args: Vec<String> = Vec::new();
    xdotool_args.push(String::from_str("type"));
    xdotool_args.push(String::from_str("--clearmodifiers"));
    xdotool_args.push(String::from_str(text));
    let mut out: Vec<(&'static str, Vec<String>)> = Vec::new();
    if wayland {
        out.push(("wtype", wtype_args));
        out.push(("xdotool", xdotool_args));
    } else {
        out.push(("xdotool", xdotool_args));
        out.push(("wtype", wtype_args));
    }
    out
}

/// What the output mode asks for a finished transcript.
#[derive(Debug, Clone, Copy, PartialEq, Eq, Structural)]
pub enum OutputAction {
    /// Empty text, or UI-only mode: nothing leaves the process.
    Nothing,
    /// Copy the text to the clipboard.
    CopyToClipboard,
    /// Type the text directly; on failure the text still goes to the
    /// clipboard and a warning is surfaced.
    DirectWrite,
}

pub open spec fn spec_output_action(mode: OutputMode, text: Seq<char>) -> OutputAction {
    if text.len() == 0 {
        OutputAction::Nothing
    } else {
        match mode {
            OutputMode::UiOnly => OutputAction::Nothing,
            OutputMode::Clipboard => OutputAction::CopyToClipboard,
            OutputMode::DirectWrite => OutputAction::DirectWrite,
        }
    }
}

/// How a transcript is dispatched under the settings' output mode.
pub fn output_action(mode: OutputMode, text: &str) -> (r: OutputAction)
    ensures
        r == spec_output_action(mode, text@),
{
    if text.is_empty() {
        return OutputAction::Nothing;
    }
    match mode {
        OutputMode::UiOnly => OutputAction::Nothing,
        OutputMode::Clipboard => OutputAction::CopyToClipboard,
        OutputMode::DirectWrite => OutputAction::DirectWrite,
    }
}

/// The policy on a failed direct write: the text still goes to the
/// clipboard, and this warning — carrying the failure's text — is
/// surfaced as an error event.
pub fn direct_write_failure_plan(err: &str) -> (r: (OutputAction, String))
    ensures
        r.0 is CopyToClipboard,
        r.1@ == "direct write failed; copied to clipboard: "@ + err@,
{
    let mut out = String::from_str("direct write failed; copied to clipboard: ");
    out.append(err);
    (OutputAction::CopyToClipboard, out)
}

} // verus!
