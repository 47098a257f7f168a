//! Hotkeys and the binding table.
//!
//! A `Hotkey` is a key plus a modifier set; the `HotkeyManager` maps each
//! hotkey to a small list of bindings, at most one per trigger.  `resolve`
//! finds the unique binding whose trigger matches an observed key edge.

use vstd::prelude::*;
use vstd::string::StrSliceExecFns;
use vstd::string::StringExecFns;

verus! {

#[derive(Debug, Clone, Copy, PartialEq, Eq, Structural)]
pub enum HotkeyKey {
    A,
    B,
    C,
    D,
    E,
    F,
    G,
    H,
    I,
    J,
    K,
    L,
    M,
    N,
    O,
    P,
    Q,
    R,
    S,
    T,
    U,
    V,
    W,
    X,
    Y,
    Z,
    F1,
    F2,
    F3,
    F4,
    F5,
    F6,
    F7,
    F8,
    F9,
    F10,
    F11,
    F12,
    Space,
    Enter,
    Escape,
    Tab,
    Backspace,
    Left,
    Right,
    Up,
    Down,
}

#[derive(Debug, Clone, Copy, PartialEq, Eq, Structural)]
pub struct HotkeyModifiers {
    pub ctrl: bool,
    pub alt: bool,
    pub shift: bool,
    pub meta: bool,
}

impl HotkeyModifiers {
    pub fn none() -> (r: Self)
        ensures
            r == (HotkeyModifiers { ctrl: false, alt: false, shift: false, meta: false }),
    {
        HotkeyModifiers { ctrl: false, alt: false, shift: false, meta: false }
    }
}

#[derive(Debug, Clone, Copy, PartialEq, Eq, Structural)]
pub struct Hotkey {
    pub key: HotkeyKey,
    pub modifiers: HotkeyModifiers,
}

#[derive(Debug, Clone, Copy, PartialEq, Eq, Structural)]
pub enum HotkeyState {
    Pressed,
    Released,
}

#[derive(Debug, Clone, Copy, PartialEq, Eq, Structural)]
pub enum HotkeyTrigger {
    Pressed,
    Released,
}

#[derive(Debug, Clone, Copy, PartialEq, Eq, Structural)]
pub struct HotkeyEvent {
    pub key: HotkeyKey,
    pub modifiers: HotkeyModifiers,
    pub state: HotkeyState,
}

#[derive(Debug, Clone)]
pub struct HotkeyBinding {
    pub action: String,
    pub trigger: HotkeyTrigger,
}

#[derive(Debug, Clone)]
pub struct HotkeyActionEvent {
    pub action: String,
    pub hotkey: Hotkey,
    pub state: HotkeyState,
}

/// Failures of the listener side; the manager itself cannot fail.
#[derive(Debug)]
pub enum HotkeyError {
    Listener(String),
    ManagerLockPoisoned,
}

/// The human-readable text of a hotkey error.
pub open spec fn spec_hotkey_error_message(e: HotkeyError) -> Seq<char> {
    match e {
        HotkeyError::Listener(detail) => "hotkey listener error: "@ + detail@,
        HotkeyError::ManagerLockPoisoned => "hotkey manager lock was poisoned"@,
    }
}

impl HotkeyError {
    pub fn message(&self) -> (r: String)
        ensures
            r@ == spec_hotkey_error_message(*self),
    {
        match self {
            HotkeyError::Listener(detail) => {
                let mut out = String::from_str("hotkey listener error: ");
                out.append(detail.as_str());
                out
            },
            HotkeyError::ManagerLockPoisoned => String::from_str(
                "hotkey manager lock was poisoned",
            ),
        }
    }
}

/// Whether a binding registered for `trigger` fires on an edge in `state`.
pub open spec fn spec_trigger_matches(trigger: HotkeyTrigger, state: HotkeyState) -> bool {
    match (trigger, state) {
        (HotkeyTrigger::Pressed, HotkeyState::Pressed) => true,
        (HotkeyTrigger::Released, HotkeyState::Released) => true,
        _ => false,
    }
}

pub fn trigger_matches(trigger: HotkeyTrigger, state: HotkeyState) -> (r: bool)
    ensures
        r == spec_trigger_matches(trigger, state),
{
    match (trigger, state) {
        (HotkeyTrigger::Pressed, HotkeyState::Pressed) => true,
        (HotkeyTrigger::Released, HotkeyState::Released) => true,
        _ => false,
    }
}

/// The first binding in `bindings` that fires on `state`, if any.
pub open spec fn spec_find_binding(bindings: Seq<HotkeyBinding>, state: HotkeyState) -> Option<
    HotkeyBinding,
>
    decreases bindings.len(),
{
    if bindings.len() == 0 {
        None
    } else if spec_trigger_matches(bindings[0].trigger, state) {
        Some(bindings[0])
    } else {
        spec_find_binding(bindings.drop_first(), state)
    }
}

/// The index of the first binding registered for `trigger`, if any.
pub open spec fn spec_find_trigger(bindings: Seq<HotkeyBinding>, trigger: HotkeyTrigger) -> Option<
    int,
>
    decreases bindings.len(),
{
    if bindings.len() == 0 {
        None
    } else if bindings[0].trigger == trigger {
        Some(0int)
    } else {
        match spec_find_trigger(bindings.drop_first(), trigger) {
            Some(i) => Some(i + 1),
            None => None,
        }
    }
}

struct HotkeyMapEntry {
    hotkey: Hotkey,
    bindings: Vec<HotkeyBinding>,
}

/// A mapping from hotkeys to their bindings, at most one per trigger.
pub struct HotkeyManager {
    entries: Vec<HotkeyMapEntry>,
}

impl HotkeyManager {
    /// The bindings registered on `hotkey`, in registration order.
    pub closed spec fn bindings_of(self, hotkey: Hotkey) -> Seq<HotkeyBinding> {
        spec_bindings_of_entries(self.entries@, hotkey)
    }

    /// Well-formedness: hotkeys are unique and each has at most one binding
    /// per trigger.
    pub closed spec fn wf(self) -> bool {
        &&& spec_unique_hotkeys(self.entries@)
        &&& forall|e: int, i: int, j: int|
            0 <= e < self.entries@.len() && 0 <= i < j < self.entries@[e].bindings@.len()
                ==> self.entries@[e].bindings@[i].trigger != self.entries@[e].bindings@[j].trigger
    }

    /// At most one binding per trigger, stated over the view of one hotkey.
    pub open spec fn at_most_one_per_trigger(bindings: Seq<HotkeyBinding>) -> bool {
        forall|i: int, j: int|
            0 <= i < j < bindings.len() ==> bindings[i].trigger != bindings[j].trigger
    }

    pub fn new() -> (r: Self)
        ensures
            r.wf(),
            forall|h: Hotkey| r.bindings_of(h) =~= Seq::<HotkeyBinding>::empty(),
    {
        HotkeyManager { entries: Vec::new() }
    }

    fn entry_index(&self, hotkey: &Hotkey) -> (r: Option<usize>)
        ensures
            match r {
                Some(i) => spec_index_of_hotkey(self.entries@, *hotkey) == Some(i as int) && i
                    < self.entries@.len() && self.entries@[i as int].hotkey == *hotkey,
                None => spec_index_of_hotkey(self.entries@, *hotkey) is None,
            },
    {
        let n = self.entries.len();
        let mut i: usize = 0;
        while i < n
            invariant
                n == self.entries@.len(),
                i <= n,
                forall|k: int| 0 <= k < i ==> self.entries@[k].hotkey != *hotkey,
            decreases n - i,
        {
            if self.entries[i].hotkey == *hotkey {
                proof {
                    lemma_index_of_hotkey_found(self.entries@, *hotkey, i as int);
                }
                return Some(i);
            }
            i = i + 1;
        }
        proof {
            lemma_index_of_hotkey_absent(self.entries@, *hotkey);
        }
        None
    }

    /// Registers `action` on the `Pressed` trigger, replacing any binding
    /// already registered for that trigger and returning it.
    pub fn register(&mut self, hotkey: Hotkey, action: String) -> (displaced: Option<HotkeyBinding>)
        requires
            old(self).wf(),
        ensures
            final(self).wf(),
            final(self).bindings_of(hotkey) == spec_register(
                old(self).bindings_of(hotkey),
                HotkeyBinding { action, trigger: HotkeyTrigger::Pressed },
            ),
            forall|h: Hotkey|
                h != hotkey ==> final(self).bindings_of(h) == old(self).bindings_of(h),
            displaced == spec_displaced(old(self).bindings_of(hotkey), HotkeyTrigger::Pressed),
    {
        self.register_with_trigger(hotkey, HotkeyTrigger::Pressed, action)
    }

    /// Registers `action` on `trigger`, replacing any binding already
    /// registered for that trigger on `hotkey` and returning it.
    pub fn register_with_trigger(
        &mut self,
        hotkey: Hotkey,
        trigger: HotkeyTrigger,
        action: String,
    ) -> (displaced: Option<HotkeyBinding>)
        requires
            old(self).wf(),
        ensures
            final(self).wf(),
            final(self).bindings_of(hotkey) == spec_register(
                old(self).bindings_of(hotkey),
                HotkeyBinding { action, trigger },
            ),
            forall|h: Hotkey|
                h != hotkey ==> final(self).bindings_of(h) == old(self).bindings_of(h),
            displaced == spec_displaced(old(self).bindings_of(hotkey), trigger),
    {
        let binding = HotkeyBinding { action, trigger };
        let idx = match self.entry_index(&hotkey) {
            Some(i) => i,
            None => {
                let i = self.entries.len();
                self.entries.push(HotkeyMapEntry { hotkey, bindings: Vec::new() });
                proof {
                    let prior = old(self).entries@;
                    let e = self.entries@.last();
                    assert(self.entries@ == prior.push(e));
                    lemma_index_of_hotkey_push(prior, e);
                    lemma_index_of_hotkey_props(prior, hotkey);
                    assert forall|h: Hotkey|
                        h != hotkey implies #[trigger] spec_bindings_of_entries(self.entries@, h)
                        == spec_bindings_of_entries(prior, h) by {
                        lemma_bindings_of_push_other(prior, e, h);
                    }
                    assert(spec_unique_hotkeys(self.entries@)) by {
                        lemma_unique_push(prior, e);
                    }
                }
                i
            },
        };
        proof {
            assert(spec_index_of_hotkey(self.entries@, hotkey) == Some(idx as int));
            assert(self.entries@[idx as int].bindings@ =~= old(self).bindings_of(hotkey));
        }
        let ghost mid = self.entries@;
        let ghost before = self.entries@[idx as int].bindings@;
        let entry = &mut self.entries[idx];
        let existing = find_trigger_index(&entry.bindings, trigger);
        let displaced = match existing {
            Some(pos) => {
                let previous = entry.bindings.remove(pos);
                entry.bindings.push(binding);
                Some(previous)
            },
            None => {
                entry.bindings.push(binding);
                None
            },
        };
        proof {
            assert(self.entries@ == mid.update(idx as int, self.entries@[idx as int]));
            assert(self.entries@[idx as int].hotkey == hotkey);
            let after = self.entries@[idx as int].bindings@;
            assert(after =~= spec_register(before, HotkeyBinding { action, trigger }));
            lemma_index_of_hotkey_same_keys(self.entries@, mid);
            assert forall|h: Hotkey|
                h != hotkey implies #[trigger] self.bindings_of(h) == old(self).bindings_of(h) by {
                lemma_index_of_hotkey_props(mid, h);
                match spec_index_of_hotkey(mid, h) {
                    Some(j) => {
                        assert(j != idx as int);
                        assert(self.entries@[j] == mid[j]);
                    },
                    None => {},
                }
            }
            assert(spec_unique_hotkeys(self.entries@)) by {
                assert(forall|p: int|
                    0 <= p < self.entries@.len() ==> self.entries@[p].hotkey == mid[p].hotkey);
            }
            lemma_register_wf(before, HotkeyBinding { action, trigger });
            assert forall|e: int, i: int, j: int|
                0 <= e < self.entries@.len() && 0 <= i < j
                    < self.entries@[e].bindings@.len() implies self.entries@[e].bindings@[i].trigger
                != self.entries@[e].bindings@[j].trigger by {
                if e != idx as int {
                    assert(self.entries@[e] == mid[e]);
                }
            }
        }
        displaced
    }

    /// Removes every binding on `hotkey` and returns the last one, if any.
    pub fn unregister(&mut self, hotkey: &Hotkey) -> (removed: Option<HotkeyBinding>)
        requires
            old(self).wf(),
        ensures
            final(self).wf(),
            final(self).bindings_of(*hotkey) =~= Seq::<HotkeyBinding>::empty(),
            forall|h: Hotkey|
                h != *hotkey ==> final(self).bindings_of(h) == old(self).bindings_of(h),
            removed == (if old(self).bindings_of(*hotkey).len() == 0 {
                Option::<HotkeyBinding>::None
            } else {
                Some(old(self).bindings_of(*hotkey).last())
            }),
    {
        match self.entry_index(hotkey) {
            Some(i) => {
                let mut entry = self.entries.remove(i);
                proof {
                    lemma_index_of_hotkey_remove(old(self).entries@, i as int);
                    lemma_unique_remove(old(self).entries@, i as int);
                    assert forall|e: int, p: int, q: int|
                        0 <= e < self.entries@.len() && 0 <= p < q
                            < self.entries@[e].bindings@.len() implies self.entries@[e].bindings@[p].trigger
                        != self.entries@[e].bindings@[q].trigger by {
                        if e < i as int {
                            assert(self.entries@[e] == old(self).entries@[e]);
                        } else {
                            assert(self.entries@[e] == old(self).entries@[e + 1]);
                        }
                    }
                }
                entry.bindings.pop()
            },
            None => None,
        }
    }

    /// The action of the unique binding on the event's hotkey whose trigger
    /// matches the event's state, if one is registered.
    #[verifier::loop_isolation(false)]
    pub fn resolve(&self, event: &HotkeyEvent) -> (r: Option<String>)
        ensures
            r matches Some(a) ==> spec_find_binding(
                self.bindings_of(Hotkey { key: event.key, modifiers: event.modifiers }),
                event.state,
            ) matches Some(b) && a@ == b.action@,
            r is None ==> spec_find_binding(
                self.bindings_of(Hotkey { key: event.key, modifiers: event.modifiers }),
                event.state,
            ) is None,
    {
        let hotkey = Hotkey { key: event.key, modifiers: event.modifiers };
        match self.entry_index(&hotkey) {
            Some(i) => {
                let bindings = &self.entries[i].bindings;
                let n = bindings.len();
                let mut j: usize = 0;
                while j < n
                    invariant
                        n == bindings@.len(),
                        j <= n,
                        forall|k: int|
                            0 <= k < j ==> !spec_trigger_matches(
                                bindings@[k].trigger,
                                event.state,
                            ),
                    decreases n - j,
                {
                    if trigger_matches(bindings[j].trigger, event.state) {
                        proof {
                            lemma_find_binding_at(bindings@, event.state, j as int);
                            assert(self.bindings_of(hotkey) == bindings@);
                            assert(spec_find_binding(self.bindings_of(hotkey), event.state)
                                == Some(bindings@[j as int]));
                        }
                        return Some(bindings[j].action.clone());
                    }
                    j = j + 1;
                }
                proof {
                    lemma_find_binding_none(bindings@, event.state);
                }
                None
            },
            None => None,
        }
    }
}

/// One binding replaces any earlier binding with the same trigger; the new
/// binding always comes last.
pub open spec fn spec_register(bindings: Seq<HotkeyBinding>, binding: HotkeyBinding) -> Seq<
    HotkeyBinding,
> {
    match spec_find_trigger(bindings, binding.trigger) {
        Some(i) => bindings.remove(i).push(binding),
        None => bindings.push(binding),
    }
}

/// The binding displaced by registering on `trigger`, if any.
pub open spec fn spec_displaced(bindings: Seq<HotkeyBinding>, trigger: HotkeyTrigger) -> Option<
    HotkeyBinding,
> {
    match spec_find_trigger(bindings, trigger) {
        Some(i) => Some(bindings[i]),
        None => None,
    }
}

spec fn spec_unique_hotkeys(entries: Seq<HotkeyMapEntry>) -> bool {
    forall|i: int, j: int| 0 <= i < j < entries.len() ==> entries[i].hotkey != entries[j].hotkey
}

spec fn spec_bindings_of_entries(entries: Seq<HotkeyMapEntry>, hotkey: Hotkey) -> Seq<
    HotkeyBinding,
> {
    match spec_index_of_hotkey(entries, hotkey) {
        Some(i) => entries[i].bindings@,
        None => Seq::empty(),
    }
}

spec fn spec_index_of_hotkey(entries: Seq<HotkeyMapEntry>, hotkey: Hotkey) -> Option<int>
    decreases entries.len(),
{
    if entries.len() == 0 {
        None
    } else if entries[0].hotkey == hotkey {
        Some(0int)
    } else {
        match spec_index_of_hotkey(entries.drop_first(), hotkey) {
            Some(i) => Some(i + 1),
            None => None,
        }
    }
}

proof fn lemma_index_of_hotkey_found(entries: Seq<HotkeyMapEntry>, hotkey: Hotkey, i: int)
    requires
        0 <= i < entries.len(),
        entries[i].hotkey == hotkey,
        forall|k: int| 0 <= k < i ==> entries[k].hotkey != hotkey,
    ensures
        spec_index_of_hotkey(entries, hotkey) == Some(i),
    decreases i,
{
    if i > 0 {
        lemma_index_of_hotkey_found(entries.drop_first(), hotkey, i - 1);
    }
}

proof fn lemma_index_of_hotkey_absent(entries: Seq<HotkeyMapEntry>, hotkey: Hotkey)
    requires
        forall|k: int| 0 <= k < entries.len() ==> entries[k].hotkey != hotkey,
    ensures
        spec_index_of_hotkey(entries, hotkey) is None,
    decreases entries.len(),
{
    if entries.len() > 0 {
        lemma_index_of_hotkey_absent(entries.drop_first(), hotkey);
    }
}

proof fn lemma_index_of_hotkey_props(entries: Seq<HotkeyMapEntry>, hotkey: Hotkey)
    ensures
        match spec_index_of_hotkey(entries, hotkey) {
            Some(i) => 0 <= i < entries.len() && entries[i].hotkey == hotkey && (forall|k: int|
                0 <= k < i ==> entries[k].hotkey != hotkey),
            None => forall|k: int| 0 <= k < entries.len() ==> entries[k].hotkey != hotkey,
        },
    decreases entries.len(),
{
    if entries.len() > 0 && entries[0].hotkey != hotkey {
        let rest = entries.drop_first();
        lemma_index_of_hotkey_props(rest, hotkey);
        match spec_index_of_hotkey(rest, hotkey) {
            Some(j) => {
                assert(entries[j + 1] == rest[j]);
                assert forall|k: int| 0 <= k < j + 1 implies entries[k].hotkey != hotkey by {
                    if k > 0 {
                        assert(entries[k] == rest[k - 1]);
                    }
                }
            },
            None => {
                assert forall|k: int| 0 <= k < entries.len() implies entries[k].hotkey
                    != hotkey by {
                    if k > 0 {
                        assert(entries[k] == rest[k - 1]);
                    }
                }
            },
        }
    }
}

proof fn lemma_index_of_hotkey_push(entries: Seq<HotkeyMapEntry>, e: HotkeyMapEntry)
    requires
        spec_index_of_hotkey(entries, e.hotkey) is None,
    ensures
        spec_index_of_hotkey(entries.push(e), e.hotkey) == Some(entries.len() as int),
        forall|h: Hotkey|
            h != e.hotkey ==> #[trigger] spec_index_of_hotkey(entries.push(e), h)
                == spec_index_of_hotkey(entries, h),
{
    lemma_index_of_hotkey_props(entries, e.hotkey);
    lemma_index_of_hotkey_found(entries.push(e), e.hotkey, entries.len() as int);
    assert forall|h: Hotkey|
        h != e.hotkey implies #[trigger] spec_index_of_hotkey(entries.push(e), h)
        == spec_index_of_hotkey(entries, h) by {
        lemma_index_of_hotkey_props(entries, h);
        match spec_index_of_hotkey(entries, h) {
            Some(i) => {
                lemma_index_of_hotkey_found(entries.push(e), h, i);
            },
            None => {
                lemma_index_of_hotkey_absent(entries.push(e), h);
            },
        }
    }
}

proof fn lemma_bindings_of_push_other(entries: Seq<HotkeyMapEntry>, e: HotkeyMapEntry, h: Hotkey)
    requires
        spec_index_of_hotkey(entries, e.hotkey) is None,
        h != e.hotkey,
    ensures
        spec_bindings_of_entries(entries.push(e), h) == spec_bindings_of_entries(entries, h),
{
    lemma_index_of_hotkey_push(entries, e);
    lemma_index_of_hotkey_props(entries, h);
    match spec_index_of_hotkey(entries, h) {
        Some(i) => {
            assert(entries.push(e)[i] == entries[i]);
        },
        None => {},
    }
}

proof fn lemma_unique_push(entries: Seq<HotkeyMapEntry>, e: HotkeyMapEntry)
    requires
        spec_unique_hotkeys(entries),
        spec_index_of_hotkey(entries, e.hotkey) is None,
    ensures
        spec_unique_hotkeys(entries.push(e)),
{
    lemma_index_of_hotkey_props(entries, e.hotkey);
    let pushed = entries.push(e);
    assert forall|i: int, j: int|
        0 <= i < j < pushed.len() implies pushed[i].hotkey != pushed[j].hotkey by {
        if j < entries.len() {
            assert(pushed[i] == entries[i] && pushed[j] == entries[j]);
        } else {
            assert(pushed[i] == entries[i] && pushed[j] == e);
        }
    }
}

proof fn lemma_unique_remove(entries: Seq<HotkeyMapEntry>, i: int)
    requires
        spec_unique_hotkeys(entries),
        0 <= i < entries.len(),
    ensures
        spec_unique_hotkeys(entries.remove(i)),
{
    let removed = entries.remove(i);
    assert forall|p: int, q: int|
        0 <= p < q < removed.len() implies removed[p].hotkey != removed[q].hotkey by {
        let p0: int = if p < i { p } else { p + 1 };
        let q0: int = if q < i { q } else { q + 1 };
        assert(removed[p] == entries[p0] && removed[q] == entries[q0]);
    }
}

/// Two entry sequences whose hotkeys agree position-wise index identically.
proof fn lemma_index_of_hotkey_same_keys(a: Seq<HotkeyMapEntry>, b: Seq<HotkeyMapEntry>)
    requires
        a.len() == b.len(),
        forall|i: int| 0 <= i < a.len() ==> a[i].hotkey == b[i].hotkey,
    ensures
        forall|h: Hotkey|
            #![trigger spec_index_of_hotkey(a, h)]
            spec_index_of_hotkey(a, h) == spec_index_of_hotkey(b, h),
    decreases a.len(),
{
    if a.len() > 0 {
        lemma_index_of_hotkey_same_keys(a.drop_first(), b.drop_first());
        assert forall|h: Hotkey|
            #![trigger spec_index_of_hotkey(a, h)]
            spec_index_of_hotkey(a, h) == spec_index_of_hotkey(b, h) by {
            assert(spec_index_of_hotkey(a.drop_first(), h) == spec_index_of_hotkey(
                b.drop_first(),
                h,
            ));
        }
    }
}

proof fn lemma_index_of_hotkey_remove(entries: Seq<HotkeyMapEntry>, i: int)
    requires
        0 <= i < entries.len(),
        spec_unique_hotkeys(entries),
        spec_index_of_hotkey(entries, entries[i].hotkey) == Some(i),
    ensures
        spec_bindings_of_entries(entries.remove(i), entries[i].hotkey) =~= Seq::<
            HotkeyBinding,
        >::empty(),
        forall|h: Hotkey|
            h != entries[i].hotkey ==> #[trigger] spec_bindings_of_entries(entries.remove(i), h)
                == spec_bindings_of_entries(entries, h),
{
    let removed = entries.remove(i);
    lemma_index_of_hotkey_props(entries, entries[i].hotkey);
    assert(forall|k: int| 0 <= k < removed.len() ==> removed[k].hotkey != entries[i].hotkey);
    lemma_index_of_hotkey_absent(removed, entries[i].hotkey);
    assert forall|h: Hotkey|
        h != entries[i].hotkey implies #[trigger] spec_bindings_of_entries(removed, h)
        == spec_bindings_of_entries(entries, h) by {
        lemma_index_of_hotkey_props(entries, h);
        lemma_index_of_hotkey_props(removed, h);
        match spec_index_of_hotkey(entries, h) {
            Some(j) => {
                if j < i {
                    assert(removed[j] == entries[j]);
                    lemma_index_of_hotkey_found(removed, h, j);
                } else {
                    assert(removed[j - 1] == entries[j]);
                    lemma_index_of_hotkey_found(removed, h, j - 1);
                }
            },
            None => {
                assert(forall|k: int| 0 <= k < removed.len() ==> removed[k].hotkey != h);
                lemma_index_of_hotkey_absent(removed, h);
            },
        }
    }
}

fn find_trigger_index(bindings: &Vec<HotkeyBinding>, trigger: HotkeyTrigger) -> (r: Option<usize>)
    ensures
        match r {
            Some(i) => spec_find_trigger(bindings@, trigger) == Some(i as int) && i
                < bindings@.len() && bindings@[i as int].trigger == trigger,
            None => spec_find_trigger(bindings@, trigger) is None,
        },
{
    let n = bindings.len();
    let mut i: usize = 0;
    while i < n
        invariant
            n == bindings@.len(),
            i <= n,
            forall|k: int| 0 <= k < i ==> bindings@[k].trigger != trigger,
        decreases n - i,
    {
        if trigger_eq(bindings[i].trigger, trigger) {
            proof {
                lemma_find_trigger_found(bindings@, trigger, i as int);
            }
            return Some(i);
        }
        i = i + 1;
    }
    proof {
        lemma_find_trigger_absent(bindings@, trigger);
    }
    None
}

fn trigger_eq(a: HotkeyTrigger, b: HotkeyTrigger) -> (r: bool)
    ensures
        r == (a == b),
{
    match (a, b) {
        (HotkeyTrigger::Pressed, HotkeyTrigger::Pressed) => true,
        (HotkeyTrigger::Released, HotkeyTrigger::Released) => true,
        _ => false,
    }
}

proof fn lemma_find_trigger_found(bindings: Seq<HotkeyBinding>, trigger: HotkeyTrigger, i: int)
    requires
        0 <= i < bindings.len(),
        bindings[i].trigger == trigger,
        forall|k: int| 0 <= k < i ==> bindings[k].trigger != trigger,
    ensures
        spec_find_trigger(bindings, trigger) == Some(i),
    decreases i,
{
    if i > 0 {
        lemma_find_trigger_found(bindings.drop_first(), trigger, i - 1);
    }
}

proof fn lemma_find_trigger_absent(bindings: Seq<HotkeyBinding>, trigger: HotkeyTrigger)
    requires
        forall|k: int| 0 <= k < bindings.len() ==> bindings[k].trigger != trigger,
    ensures
        spec_find_trigger(bindings, trigger) is None,
    decreases bindings.len(),
{
    if bindings.len() > 0 {
        lemma_find_trigger_absent(bindings.drop_first(), trigger);
    }
}

proof fn lemma_find_trigger_props(bindings: Seq<HotkeyBinding>, trigger: HotkeyTrigger)
    ensures
        match spec_find_trigger(bindings, trigger) {
            Some(i) => 0 <= i < bindings.len() && bindings[i].trigger == trigger && (forall|k: int|
                0 <= k < i ==> bindings[k].trigger != trigger),
            None => forall|k: int| 0 <= k < bindings.len() ==> bindings[k].trigger != trigger,
        },
    decreases bindings.len(),
{
    if bindings.len() > 0 && bindings[0].trigger != trigger {
        let rest = bindings.drop_first();
        lemma_find_trigger_props(rest, trigger);
        match spec_find_trigger(rest, trigger) {
            Some(j) => {
                assert(bindings[j + 1] == rest[j]);
                assert forall|k: int| 0 <= k < j + 1 implies bindings[k].trigger != trigger by {
                    if k > 0 {
                        assert(bindings[k] == rest[k - 1]);
                    }
                }
            },
            None => {
                assert forall|k: int| 0 <= k < bindings.len() implies bindings[k].trigger
                    != trigger by {
                    if k > 0 {
                        assert(bindings[k] == rest[k - 1]);
                    }
                }
            },
        }
    }
}

proof fn lemma_register_wf(bindings: Seq<HotkeyBinding>, binding: HotkeyBinding)
    requires
        HotkeyManager::at_most_one_per_trigger(bindings),
    ensures
        HotkeyManager::at_most_one_per_trigger(spec_register(bindings, binding)),
{
    lemma_find_trigger_props(bindings, binding.trigger);
    match spec_find_trigger(bindings, binding.trigger) {
        Some(i) => {
            let removed = bindings.remove(i);
            assert forall|p: int|
                0 <= p < removed.len() implies removed[p].trigger != binding.trigger by {
                if p < i {
                    assert(removed[p] == bindings[p]);
                } else {
                    assert(removed[p] == bindings[p + 1]);
                }
            }
            let out = removed.push(binding);
            assert forall|p: int, q: int|
                0 <= p < q < out.len() implies out[p].trigger != out[q].trigger by {
                if q < removed.len() {
                    let p0: int = if p < i { p } else { p + 1 };
                    let q0: int = if q < i { q } else { q + 1 };
                    assert(out[p] == bindings[p0] && out[q] == bindings[q0]);
                } else {
                    assert(out[q] == binding);
                }
            }
        },
        None => {
            let out = bindings.push(binding);
            assert forall|p: int, q: int|
                0 <= p < q < out.len() implies out[p].trigger != out[q].trigger by {
                if q < bindings.len() {
                    assert(out[p] == bindings[p] && out[q] == bindings[q]);
                } else {
                    assert(out[p] == bindings[p] && out[q] == binding);
                }
            }
        },
    }
}

proof fn lemma_find_binding_at(bindings: Seq<HotkeyBinding>, state: HotkeyState, i: int)
    requires
        0 <= i < bindings.len(),
        spec_trigger_matches(bindings[i].trigger, state),
        forall|k: int| 0 <= k < i ==> !spec_trigger_matches(bindings[k].trigger, state),
    ensures
        spec_find_binding(bindings, state) == Some(bindings[i]),
    decreases i,
{
    if i > 0 {
        lemma_find_binding_at(bindings.drop_first(), state, i - 1);
    }
}

proof fn lemma_find_binding_none(bindings: Seq<HotkeyBinding>, state: HotkeyState)
    requires
        forall|k: int| 0 <= k < bindings.len() ==> !spec_trigger_matches(bindings[k].trigger, state),
    ensures
        spec_find_binding(bindings, state) is None,
    decreases bindings.len(),
{
    if bindings.len() > 0 {
        lemma_find_binding_none(bindings.drop_first(), state);
    }
}

/// A well-formed manager keeps at most one binding per trigger on every
/// hotkey.
pub proof fn lemma_wf_bindings(m: HotkeyManager, hotkey: Hotkey)
    requires
        m.wf(),
    ensures
        HotkeyManager::at_most_one_per_trigger(m.bindings_of(hotkey)),
{
    lemma_index_of_hotkey_props(m.entries@, hotkey);
}

/// A hotkey registered with trigger `T` and action `A`, and nothing else,
/// resolves an edge to `A` exactly when the edge's state matches `T`.
pub proof fn lemma_resolve_single_binding(
    m: HotkeyManager,
    hotkey: Hotkey,
    trigger: HotkeyTrigger,
    action: Seq<char>,
    state: HotkeyState,
)
    requires
        m.wf(),
        m.bindings_of(hotkey).len() == 1,
        m.bindings_of(hotkey)[0].trigger == trigger,
        m.bindings_of(hotkey)[0].action@ == action,
    ensures
        spec_trigger_matches(trigger, state) ==> (spec_find_binding(m.bindings_of(hotkey), state)
            matches Some(b) && b.action@ == action),
        !spec_trigger_matches(trigger, state) ==> spec_find_binding(m.bindings_of(hotkey), state)
            is None,
{
    let s = m.bindings_of(hotkey);
    assert(s.drop_first().len() == 0);
    if !spec_trigger_matches(trigger, state) {
        assert(spec_find_binding(s.drop_first(), state) is None);
    }
}

/// Where `spec_find_binding` finds its answer, if anywhere.
proof fn lemma_find_binding_props(bindings: Seq<HotkeyBinding>, state: HotkeyState)
    ensures
        match spec_find_binding(bindings, state) {
            Some(b) => exists|i: int|
                0 <= i < bindings.len() && bindings[i] == b && spec_trigger_matches(
                    #[trigger] bindings[i].trigger,
                    state,
                ) && (forall|k: int|
                    0 <= k < i ==> !spec_trigger_matches(bindings[k].trigger, state)),
            None => forall|k: int|
                0 <= k < bindings.len() ==> !spec_trigger_matches(bindings[k].trigger, state),
        },
    decreases bindings.len(),
{
    if bindings.len() > 0 && !spec_trigger_matches(bindings[0].trigger, state) {
        let rest = bindings.drop_first();
        lemma_find_binding_props(rest, state);
        match spec_find_binding(rest, state) {
            Some(b) => {
                let i = choose|i: int|
                    0 <= i < rest.len() && rest[i] == b && spec_trigger_matches(
                        #[trigger] rest[i].trigger,
                        state,
                    ) && (forall|k: int|
                        0 <= k < i ==> !spec_trigger_matches(rest[k].trigger, state));
                assert(bindings[i + 1] == rest[i]);
                assert forall|k: int|
                    0 <= k < i + 1 implies !spec_trigger_matches(bindings[k].trigger, state) by {
                    if k > 0 {
                        assert(bindings[k] == rest[k - 1]);
                    }
                }
            },
            None => {
                assert forall|k: int|
                    0 <= k < bindings.len() implies !spec_trigger_matches(
                    bindings[k].trigger,
                    state,
                ) by {
                    if k > 0 {
                        assert(bindings[k] == rest[k - 1]);
                    }
                }
            },
        }
    }
}

/// After registering `b`, an edge whose state matches `b.trigger` resolves
/// to `b` itself.
pub proof fn lemma_register_find_same(bs: Seq<HotkeyBinding>, b: HotkeyBinding, state: HotkeyState)
    requires
        HotkeyManager::at_most_one_per_trigger(bs),
        spec_trigger_matches(b.trigger, state),
    ensures
        spec_find_binding(spec_register(bs, b), state) == Some(b),
{
    lemma_find_trigger_props(bs, b.trigger);
    match spec_find_trigger(bs, b.trigger) {
        Some(i) => {
            let removed = bs.remove(i);
            assert forall|k: int|
                0 <= k < removed.len() implies !spec_trigger_matches(
                removed[k].trigger,
                state,
            ) by {
                let k0: int = if k < i {
                    k
                } else {
                    k + 1
                };
                assert(removed[k] == bs[k0]);
            }
            lemma_find_binding_at(removed.push(b), state, removed.len() as int);
        },
        None => {
            let pushed = bs.push(b);
            assert forall|k: int|
                0 <= k < bs.len() implies !spec_trigger_matches(pushed[k].trigger, state) by {
                assert(pushed[k] == bs[k]);
            }
            lemma_find_binding_at(pushed, state, bs.len() as int);
        },
    }
}

/// Registering `b` leaves resolution for the other trigger's edges as it
/// was.
pub proof fn lemma_register_find_other(bs: Seq<HotkeyBinding>, b: HotkeyBinding, state: HotkeyState)
    requires
        HotkeyManager::at_most_one_per_trigger(bs),
        !spec_trigger_matches(b.trigger, state),
    ensures
        spec_find_binding(spec_register(bs, b), state) == spec_find_binding(bs, state),
{
    lemma_find_trigger_props(bs, b.trigger);
    lemma_find_binding_props(bs, state);
    match spec_find_binding(bs, state) {
        Some(x) => {
            let i0 = choose|i: int|
                0 <= i < bs.len() && bs[i] == x && spec_trigger_matches(
                    #[trigger] bs[i].trigger,
                    state,
                ) && (forall|k: int|
                    0 <= k < i ==> !spec_trigger_matches(bs[k].trigger, state));
            match spec_find_trigger(bs, b.trigger) {
                Some(j) => {
                    assert(j != i0);
                    let removed = bs.remove(j);
                    let i1: int = if i0 < j {
                        i0
                    } else {
                        i0 - 1
                    };
                    assert(removed[i1] == bs[i0]);
                    assert forall|k: int|
                        0 <= k < i1 implies !spec_trigger_matches(
                        removed.push(b)[k].trigger,
                        state,
                    ) by {
                        let k0: int = if k < j {
                            k
                        } else {
                            k + 1
                        };
                        assert(removed[k] == bs[k0]);
                        assert(k0 < i0);
                    }
                    lemma_find_binding_at(removed.push(b), state, i1);
                },
                None => {
                    let pushed = bs.push(b);
                    assert forall|k: int|
                        0 <= k < i0 implies !spec_trigger_matches(pushed[k].trigger, state) by {
                        assert(pushed[k] == bs[k]);
                    }
                    lemma_find_binding_at(pushed, state, i0);
                },
            }
        },
        None => {
            match spec_find_trigger(bs, b.trigger) {
                Some(j) => {
                    let removed = bs.remove(j);
                    assert forall|k: int|
                        0 <= k < removed.push(b).len() implies !spec_trigger_matches(
                        removed.push(b)[k].trigger,
                        state,
                    ) by {
                        if k < removed.len() {
                            let k0: int = if k < j {
                                k
                            } else {
                                k + 1
                            };
                            assert(removed[k] == bs[k0]);
                        }
                    }
                    lemma_find_binding_none(removed.push(b), state);
                },
                None => {
                    let pushed = bs.push(b);
                    assert forall|k: int|
                        0 <= k < pushed.len() implies !spec_trigger_matches(
                        pushed[k].trigger,
                        state,
                    ) by {
                        if k < bs.len() {
                            assert(pushed[k] == bs[k]);
                        }
                    }
                    lemma_find_binding_none(pushed, state);
                },
            }
        },
    }
}

} // verus!
