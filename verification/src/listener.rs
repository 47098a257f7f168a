//! Keyboard-tap listener logic: modifier tracking, auto-repeat
//! de-duplication, and resolution of key edges against the binding table.
//!
//! The process-wide keyboard tap itself runs outside the library; it hands
//! every observed key transition to [`ListenerState::process`] as a plain
//! [`KeyInput`] value and forwards the action events that come back.

use vstd::prelude::*;
use crate::hotkeys::{
    Hotkey, HotkeyActionEvent, HotkeyEvent, HotkeyKey, HotkeyManager, HotkeyModifiers, HotkeyState,
    spec_find_binding,
};

verus! {

/// A physical key as the keyboard tap reports it: one of the modifier keys
/// (both sides are distinguished by the tap but fold into one flag), a key
/// the binding table can name, or anything else.
#[derive(Debug, Clone, Copy, PartialEq, Eq, Structural)]
pub enum KeyInput {
    ControlLeft,
    ControlRight,
    ShiftLeft,
    ShiftRight,
    Alt,
    AltGr,
    MetaLeft,
    MetaRight,
    Key(HotkeyKey),
    Other,
}

/// Which keys are currently held, folded into the four modifier flags.
#[derive(Debug, Clone, Copy, PartialEq, Eq, Structural)]
pub struct ModifierState {
    pub ctrl: bool,
    pub alt: bool,
    pub shift: bool,
    pub meta: bool,
}

impl ModifierState {
    pub fn new() -> (r: Self)
        ensures
            r == (ModifierState { ctrl: false, alt: false, shift: false, meta: false }),
    {
        ModifierState { ctrl: false, alt: false, shift: false, meta: false }
    }

    /// Folds a key transition into the flags; returns true exactly when the
    /// key was a modifier key (such keys never produce action edges).
    pub fn update(&mut self, key: KeyInput, pressed: bool) -> (is_modifier: bool)
        ensures
            *final(self) == spec_update_modifiers(*old(self), key, pressed),
            is_modifier == spec_is_modifier(key),
    {
        match key {
            KeyInput::ControlLeft | KeyInput::ControlRight => {
                self.ctrl = pressed;
                true
            },
            KeyInput::ShiftLeft | KeyInput::ShiftRight => {
                self.shift = pressed;
                true
            },
            KeyInput::Alt | KeyInput::AltGr => {
                self.alt = pressed;
                true
            },
            KeyInput::MetaLeft | KeyInput::MetaRight => {
                self.meta = pressed;
                true
            },
            _ => false,
        }
    }

    pub fn as_modifiers(&self) -> (r: HotkeyModifiers)
        ensures
            r == spec_as_modifiers(*self),
    {
        HotkeyModifiers { ctrl: self.ctrl, alt: self.alt, shift: self.shift, meta: self.meta }
    }
}

pub open spec fn spec_is_modifier(key: KeyInput) -> bool {
    match key {
        KeyInput::ControlLeft | KeyInput::ControlRight | KeyInput::ShiftLeft
            | KeyInput::ShiftRight | KeyInput::Alt | KeyInput::AltGr | KeyInput::MetaLeft
            | KeyInput::MetaRight => true,
        _ => false,
    }
}

pub open spec fn spec_update_modifiers(m: ModifierState, key: KeyInput, pressed: bool) -> ModifierState {
    match key {
        KeyInput::ControlLeft | KeyInput::ControlRight => ModifierState { ctrl: pressed, ..m },
        KeyInput::ShiftLeft | KeyInput::ShiftRight => ModifierState { shift: pressed, ..m },
        KeyInput::Alt | KeyInput::AltGr => ModifierState { alt: pressed, ..m },
        KeyInput::MetaLeft | KeyInput::MetaRight => ModifierState { meta: pressed, ..m },
        _ => m,
    }
}

pub open spec fn spec_as_modifiers(m: ModifierState) -> HotkeyModifiers {
    HotkeyModifiers { ctrl: m.ctrl, alt: m.alt, shift: m.shift, meta: m.meta }
}

/// The listener's whole memory: the modifier flags and, per mapped key that
/// is currently down, the modifier set observed when it was pressed.
pub struct ListenerState {
    modifiers: ModifierState,
    pressed: Vec<(HotkeyKey, HotkeyModifiers)>,
}

impl ListenerState {
    pub closed spec fn spec_modifiers(self) -> ModifierState {
        self.modifiers
    }

    /// The modifier snapshot recorded for `key`, if it is tracked as down.
    pub closed spec fn tracked_mods(self, key: HotkeyKey) -> Option<HotkeyModifiers> {
        match spec_index_of_key(self.pressed@, key) {
            Some(i) => Some(self.pressed@[i].1),
            None => None,
        }
    }

    pub closed spec fn wf(self) -> bool {
        forall|i: int, j: int|
            0 <= i < j < self.pressed@.len() ==> self.pressed@[i].0 != self.pressed@[j].0
    }

    pub fn new() -> (r: Self)
        ensures
            r.wf(),
            r.spec_modifiers() == (ModifierState {
                ctrl: false,
                alt: false,
                shift: false,
                meta: false,
            }),
            forall|k: HotkeyKey| (r.tracked_mods(k) is None),
    {
        ListenerState { modifiers: ModifierState::new(), pressed: Vec::new() }
    }

    fn key_index(&self, key: HotkeyKey) -> (r: Option<usize>)
        ensures
            match r {
                Some(i) => spec_index_of_key(self.pressed@, key) == Some(i as int) && i
                    < self.pressed@.len() && self.pressed@[i as int].0 == key,
                None => spec_index_of_key(self.pressed@, key) is None,
            },
    {
        let n = self.pressed.len();
        let mut i: usize = 0;
        while i < n
            invariant
                n == self.pressed@.len(),
                i <= n,
                forall|k: int| 0 <= k < i ==> self.pressed@[k].0 != key,
            decreases n - i,
        {
            if self.pressed[i].0 == key {
                proof {
                    lemma_index_of_key_found(self.pressed@, key, i as int);
                }
                return Some(i);
            }
            i = i + 1;
        }
        proof {
            lemma_index_of_key_absent(self.pressed@, key);
        }
        None
    }

    /// Digests one key transition.  Modifier keys only update the flags and
    /// never yield an event.  A press of a mapped key that is already
    /// tracked with the same modifier set is OS auto-repeat and suppressed;
    /// with a different modifier set it is a fresh edge.  A release of an
    /// untracked key is suppressed.
    pub fn handle_key(&mut self, key: KeyInput, pressed: bool) -> (r: Option<HotkeyEvent>)
        requires
            old(self).wf(),
        ensures
            final(self).wf(),
            final(self).spec_modifiers() == spec_update_modifiers(
                old(self).spec_modifiers(),
                key,
                pressed,
            ),
            r == spec_emitted_event(*old(self), key, pressed),
            forall|k: HotkeyKey|
                final(self).tracked_mods(k) == spec_tracked_after(*old(self), key, pressed, k),
    {
        let is_modifier = self.modifiers.update(key, pressed);
        if is_modifier {
            return None;
        }
        let mapped = match key {
            KeyInput::Key(k) => k,
            _ => {
                return None;
            },
        };
        if pressed {
            let snapshot = self.modifiers.as_modifiers();
            let idx = self.key_index(mapped);
            match idx {
                Some(i) => {
                    if self.pressed[i].1 == snapshot {
                        return None;
                    }
                    self.pressed[i] = (mapped, snapshot);
                    proof {
                        lemma_index_of_key_update(old(self).pressed@, i as int, (mapped, snapshot));
                        assert(forall|p: int|
                            0 <= p < self.pressed@.len() ==> self.pressed@[p].0 == old(
                                self,
                            ).pressed@[p].0);
                        assert(self.pressed@ == old(self).pressed@.update(
                            i as int,
                            (mapped, snapshot),
                        ));
                        assert forall|k: HotkeyKey|
                            self.tracked_mods(k) == spec_tracked_after(
                                *old(self),
                                key,
                                pressed,
                                k,
                            ) by {
                            if k == mapped {
                                assert(spec_tracked_entry(self.pressed@, k) == Some(snapshot));
                            } else {
                                assert(spec_tracked_entry(self.pressed@, k) == spec_tracked_entry(
                                    old(self).pressed@,
                                    k,
                                ));
                            }
                        }
                    }
                },
                None => {
                    self.pressed.push((mapped, snapshot));
                    proof {
                        lemma_index_of_key_props(old(self).pressed@, mapped);
                        lemma_index_of_key_push(old(self).pressed@, (mapped, snapshot));
                        assert(self.pressed@ == old(self).pressed@.push((mapped, snapshot)));
                        assert forall|k: HotkeyKey|
                            self.tracked_mods(k) == spec_tracked_after(
                                *old(self),
                                key,
                                pressed,
                                k,
                            ) by {
                            if k == mapped {
                                assert(spec_index_of_key(self.pressed@, k) == Some(
                                    old(self).pressed@.len() as int,
                                ));
                            } else {
                                assert(spec_index_of_key(self.pressed@, k) == spec_index_of_key(
                                    old(self).pressed@,
                                    k,
                                ));
                                match spec_index_of_key(old(self).pressed@, k) {
                                    Some(j) => {
                                        lemma_index_of_key_props(old(self).pressed@, k);
                                        assert(self.pressed@[j] == old(self).pressed@[j]);
                                    },
                                    None => {},
                                }
                            }
                        }
                    }
                },
            }
            Some(HotkeyEvent { key: mapped, modifiers: snapshot, state: HotkeyState::Pressed })
        } else {
            let idx = self.key_index(mapped);
            match idx {
                Some(i) => {
                    self.pressed.remove(i);
                    proof {
                        lemma_index_of_key_remove(old(self).pressed@, i as int);
                        assert(self.pressed@ == old(self).pressed@.remove(i as int));
                        assert forall|k: HotkeyKey|
                            self.tracked_mods(k) == spec_tracked_after(
                                *old(self),
                                key,
                                pressed,
                                k,
                            ) by {
                            if k == mapped {
                                assert(spec_index_of_key(self.pressed@, k) is None);
                            } else {
                                assert(spec_tracked_entry(self.pressed@, k) == spec_tracked_entry(
                                    old(self).pressed@,
                                    k,
                                ));
                            }
                        }
                    }
                    Some(
                        HotkeyEvent {
                            key: mapped,
                            modifiers: self.modifiers.as_modifiers(),
                            state: HotkeyState::Released,
                        },
                    )
                },
                None => None,
            }
        }
    }

    /// Digests one key transition and resolves any resulting edge against
    /// the binding table, as the listener thread does for every tap event.
    pub fn process(&mut self, key: KeyInput, pressed: bool, manager: &HotkeyManager) -> (r: Option<
        HotkeyActionEvent,
    >)
        requires
            old(self).wf(),
        ensures
            final(self).wf(),
            match spec_emitted_event(*old(self), key, pressed) {
                None => r is None,
                Some(ev) => {
                    let hk = Hotkey { key: ev.key, modifiers: ev.modifiers };
                    match spec_find_binding(manager.bindings_of(hk), ev.state) {
                        Some(b) => r matches Some(a) && a.action@ == b.action@ && a.hotkey == hk
                            && a.state == ev.state,
                        None => r is None,
                    }
                },
            },
            final(self).spec_modifiers() == spec_update_modifiers(
                old(self).spec_modifiers(),
                key,
                pressed,
            ),
            forall|k: HotkeyKey|
                final(self).tracked_mods(k) == spec_tracked_after(*old(self), key, pressed, k),
    {
        let event = match self.handle_key(key, pressed) {
            Some(ev) => ev,
            None => {
                return None;
            },
        };
        match manager.resolve(&event) {
            Some(action) => Some(
                HotkeyActionEvent {
                    action,
                    hotkey: Hotkey { key: event.key, modifiers: event.modifiers },
                    state: event.state,
                },
            ),
            None => None,
        }
    }
}

/// The event (if any) that one key transition produces, before resolution.
pub open spec fn spec_emitted_event(s: ListenerState, key: KeyInput, pressed: bool) -> Option<
    HotkeyEvent,
> {
    if spec_is_modifier(key) {
        None
    } else {
        match key {
            KeyInput::Key(mapped) => {
                if pressed {
                    let snapshot = spec_as_modifiers(
                        spec_update_modifiers(s.spec_modifiers(), key, pressed),
                    );
                    if s.tracked_mods(mapped) == Some(snapshot) {
                        None
                    } else {
                        Some(
                            HotkeyEvent {
                                key: mapped,
                                modifiers: snapshot,
                                state: HotkeyState::Pressed,
                            },
                        )
                    }
                } else {
                    if s.tracked_mods(mapped) is Some {
                        Some(
                            HotkeyEvent {
                                key: mapped,
                                modifiers: spec_as_modifiers(
                                    spec_update_modifiers(s.spec_modifiers(), key, pressed),
                                ),
                                state: HotkeyState::Released,
                            },
                        )
                    } else {
                        None
                    }
                }
            },
            _ => None,
        }
    }
}

/// What is tracked for key `k` after one transition is digested.
pub open spec fn spec_tracked_after(
    s: ListenerState,
    key: KeyInput,
    pressed: bool,
    k: HotkeyKey,
) -> Option<HotkeyModifiers> {
    if spec_is_modifier(key) {
        s.tracked_mods(k)
    } else {
        match key {
            KeyInput::Key(mapped) => {
                if k == mapped {
                    if pressed {
                        if s.tracked_mods(mapped) == Some(
                            spec_as_modifiers(
                                spec_update_modifiers(s.spec_modifiers(), key, pressed),
                            ),
                        ) {
                            s.tracked_mods(k)
                        } else {
                            Some(
                                spec_as_modifiers(
                                    spec_update_modifiers(s.spec_modifiers(), key, pressed),
                                ),
                            )
                        }
                    } else {
                        None
                    }
                } else {
                    s.tracked_mods(k)
                }
            },
            _ => s.tracked_mods(k),
        }
    }
}

spec fn spec_index_of_key(pressed: Seq<(HotkeyKey, HotkeyModifiers)>, key: HotkeyKey) -> Option<int>
    decreases pressed.len(),
{
    if pressed.len() == 0 {
        None
    } else if pressed[0].0 == key {
        Some(0int)
    } else {
        match spec_index_of_key(pressed.drop_first(), key) {
            Some(i) => Some(i + 1),
            None => None,
        }
    }
}

proof fn lemma_index_of_key_found(pressed: Seq<(HotkeyKey, HotkeyModifiers)>, key: HotkeyKey, i: int)
    requires
        0 <= i < pressed.len(),
        pressed[i].0 == key,
        forall|k: int| 0 <= k < i ==> pressed[k].0 != key,
    ensures
        spec_index_of_key(pressed, key) == Some(i),
    decreases i,
{
    if i > 0 {
        lemma_index_of_key_found(pressed.drop_first(), key, i - 1);
    }
}

proof fn lemma_index_of_key_absent(pressed: Seq<(HotkeyKey, HotkeyModifiers)>, key: HotkeyKey)
    requires
        forall|k: int| 0 <= k < pressed.len() ==> pressed[k].0 != key,
    ensures
        spec_index_of_key(pressed, key) is None,
    decreases pressed.len(),
{
    if pressed.len() > 0 {
        lemma_index_of_key_absent(pressed.drop_first(), key);
    }
}

proof fn lemma_index_of_key_props(pressed: Seq<(HotkeyKey, HotkeyModifiers)>, key: HotkeyKey)
    ensures
        match spec_index_of_key(pressed, key) {
            Some(i) => 0 <= i < pressed.len() && pressed[i].0 == key && (forall|k: int|
                0 <= k < i ==> pressed[k].0 != key),
            None => forall|k: int| 0 <= k < pressed.len() ==> pressed[k].0 != key,
        },
    decreases pressed.len(),
{
    if pressed.len() > 0 && pressed[0].0 != key {
        let rest = pressed.drop_first();
        lemma_index_of_key_props(rest, key);
        match spec_index_of_key(rest, key) {
            Some(j) => {
                assert(pressed[j + 1] == rest[j]);
                assert forall|k: int| 0 <= k < j + 1 implies pressed[k].0 != key by {
                    if k > 0 {
                        assert(pressed[k] == rest[k - 1]);
                    }
                }
            },
            None => {
                assert forall|k: int| 0 <= k < pressed.len() implies pressed[k].0 != key by {
                    if k > 0 {
                        assert(pressed[k] == rest[k - 1]);
                    }
                }
            },
        }
    }
}

proof fn lemma_index_of_key_update(
    pressed: Seq<(HotkeyKey, HotkeyModifiers)>,
    i: int,
    entry: (HotkeyKey, HotkeyModifiers),
)
    requires
        0 <= i < pressed.len(),
        pressed[i].0 == entry.0,
        forall|p: int, q: int| 0 <= p < q < pressed.len() ==> pressed[p].0 != pressed[q].0,
    ensures
        spec_tracked_entry(pressed.update(i, entry), entry.0) == Some(entry.1),
        forall|k: HotkeyKey|
            k != entry.0 ==> spec_tracked_entry(pressed.update(i, entry), k) == spec_tracked_entry(
                pressed,
                k,
            ),
{
    let updated = pressed.update(i, entry);
    assert forall|k: HotkeyKey|
        spec_index_of_key(updated, k) == spec_index_of_key(pressed, k) by {
        lemma_index_of_key_props(pressed, k);
        match spec_index_of_key(pressed, k) {
            Some(j) => {
                assert(updated[j].0 == k);
                lemma_index_of_key_found(updated, k, j);
            },
            None => {
                lemma_index_of_key_absent(updated, k);
            },
        }
    }
    lemma_index_of_key_props(pressed, entry.0);
    assert(spec_index_of_key(pressed, entry.0) == Some(i));
    assert forall|k: HotkeyKey|
        k != entry.0 implies spec_tracked_entry(updated, k) == spec_tracked_entry(pressed, k) by {
        lemma_index_of_key_props(pressed, k);
        match spec_index_of_key(pressed, k) {
            Some(j) => {
                assert(j != i);
                assert(updated[j] == pressed[j]);
            },
            None => {},
        }
    }
}

proof fn lemma_index_of_key_push(
    pressed: Seq<(HotkeyKey, HotkeyModifiers)>,
    entry: (HotkeyKey, HotkeyModifiers),
)
    requires
        spec_index_of_key(pressed, entry.0) is None,
    ensures
        spec_index_of_key(pressed.push(entry), entry.0) == Some(pressed.len() as int),
        forall|k: HotkeyKey|
            k != entry.0 ==> spec_index_of_key(pressed.push(entry), k) == spec_index_of_key(
                pressed,
                k,
            ),
{
    lemma_index_of_key_props(pressed, entry.0);
    lemma_index_of_key_found(pressed.push(entry), entry.0, pressed.len() as int);
    assert forall|k: HotkeyKey|
        k != entry.0 implies spec_index_of_key(pressed.push(entry), k) == spec_index_of_key(
        pressed,
        k,
    ) by {
        lemma_index_of_key_props(pressed, k);
        match spec_index_of_key(pressed, k) {
            Some(j) => {
                lemma_index_of_key_found(pressed.push(entry), k, j);
            },
            None => {
                lemma_index_of_key_absent(pressed.push(entry), k);
            },
        }
    }
}

proof fn lemma_index_of_key_remove(pressed: Seq<(HotkeyKey, HotkeyModifiers)>, i: int)
    requires
        0 <= i < pressed.len(),
        forall|p: int, q: int| 0 <= p < q < pressed.len() ==> pressed[p].0 != pressed[q].0,
    ensures
        spec_index_of_key(pressed.remove(i), pressed[i].0) is None,
        forall|k: HotkeyKey|
            k != pressed[i].0 ==> spec_tracked_entry(pressed.remove(i), k) == spec_tracked_entry(
                pressed,
                k,
            ),
{
    let removed = pressed.remove(i);
    assert(forall|k: int| 0 <= k < removed.len() ==> removed[k].0 != pressed[i].0);
    lemma_index_of_key_absent(removed, pressed[i].0);
    assert forall|k: HotkeyKey|
        k != pressed[i].0 implies spec_tracked_entry(removed, k) == spec_tracked_entry(
        pressed,
        k,
    ) by {
        lemma_index_of_key_props(pressed, k);
        lemma_index_of_key_props(removed, k);
        match spec_index_of_key(pressed, k) {
            Some(j) => {
                if j < i {
                    assert(removed[j] == pressed[j]);
                    lemma_index_of_key_found(removed, k, j);
                } else {
                    assert(removed[j - 1] == pressed[j]);
                    lemma_index_of_key_found(removed, k, j - 1);
                }
            },
            None => {
                assert(forall|k2: int| 0 <= k2 < removed.len() ==> removed[k2].0 != k);
                lemma_index_of_key_absent(removed, k);
            },
        }
    }
}

spec fn spec_tracked_entry(pressed: Seq<(HotkeyKey, HotkeyModifiers)>, key: HotkeyKey) -> Option<
    HotkeyModifiers,
> {
    match spec_index_of_key(pressed, key) {
        Some(i) => Some(pressed[i].1),
        None => None,
    }
}

/// De-duplication: from a state where `key` is not tracked, a press yields a
/// `Pressed` edge and an immediate second press of the same key with the
/// same modifier flags yields nothing; the release that follows yields one
/// `Released` edge.
pub proof fn lemma_press_press_release_dedup(s0: ListenerState, key: HotkeyKey)
    requires
        s0.wf(),
        s0.tracked_mods(key) is None,
    ensures
        ({
            let mods = spec_as_modifiers(s0.spec_modifiers());
            &&& spec_emitted_event(s0, KeyInput::Key(key), true) == Some(
                HotkeyEvent { key, modifiers: mods, state: HotkeyState::Pressed },
            )
            &&& forall|s1: ListenerState|
                s1.spec_modifiers() == s0.spec_modifiers() && s1.tracked_mods(key) == Some(mods)
                    ==> #[trigger] spec_emitted_event(s1, KeyInput::Key(key), true) is None
                        && spec_emitted_event(s1, KeyInput::Key(key), false) == Some(
                        HotkeyEvent { key, modifiers: mods, state: HotkeyState::Released },
                    )
        }),
{
}

/// Modifier variants: a press of a tracked key with a different modifier
/// set is a fresh `Pressed` edge, not auto-repeat.
pub proof fn lemma_modifier_variant_emits(s: ListenerState, key: HotkeyKey)
    requires
        s.wf(),
        s.tracked_mods(key) is Some,
        s.tracked_mods(key) != Some(spec_as_modifiers(s.spec_modifiers())),
    ensures
        spec_emitted_event(s, KeyInput::Key(key), true) == Some(
            HotkeyEvent {
                key,
                modifiers: spec_as_modifiers(s.spec_modifiers()),
                state: HotkeyState::Pressed,
            },
        ),
{
}

} // verus!
