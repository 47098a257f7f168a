//! The latched capture buffer.
//!
//! Audio blocks stream in continuously; the latch appends them to its buffer
//! only while a `Pressed` edge of its own action has opened it.  `Released`
//! closes the latch and `take_audio` moves the buffer out.  The surrounding
//! capture service owns a latch behind a lock and feeds it from the audio
//! callback; the latch itself is single-threaded logic.

use vstd::prelude::*;
use vstd::string::StringExecFns;
use crate::hotkeys::{HotkeyActionEvent, HotkeyState};

verus! {

/// Failures of the capture service around the latch; the latch itself cannot
/// fail.
#[derive(Debug)]
pub enum PttCaptureError {
    Audio(crate::audio::AudioError),
    BufferLockPoisoned,
    MeterLockPoisoned,
}

/// The human-readable text of a capture error; audio errors pass their
/// own text through.
pub open spec fn spec_capture_error_message(e: PttCaptureError) -> Seq<char> {
    match e {
        PttCaptureError::Audio(inner) => crate::audio::spec_audio_error_message(inner),
        PttCaptureError::BufferLockPoisoned => "capture buffer lock was poisoned"@,
        PttCaptureError::MeterLockPoisoned => "level meter lock was poisoned"@,
    }
}

impl PttCaptureError {
    pub fn message(&self) -> (r: String)
        ensures
            r@ == spec_capture_error_message(*self),
    {
        match self {
            PttCaptureError::Audio(inner) => inner.message(),
            PttCaptureError::BufferLockPoisoned => String::from_str(
                "capture buffer lock was poisoned",
            ),
            PttCaptureError::MeterLockPoisoned => String::from_str(
                "level meter lock was poisoned",
            ),
        }
    }
}

/// The mathematical state of a latch: whether it is open, and what it holds.
#[verifier::ext_equal]
pub struct LatchModel {
    pub active: bool,
    pub buffer: Seq<i32>,
}

/// A `Pressed` edge opens the latch and clears the buffer.
pub open spec fn latch_press(m: LatchModel) -> LatchModel {
    LatchModel { active: true, buffer: Seq::empty() }
}

/// A `Released` edge closes the latch; the buffer stays.
pub open spec fn latch_release(m: LatchModel) -> LatchModel {
    LatchModel { active: false, buffer: m.buffer }
}

/// A delivered block lands in the buffer only while the latch is open.
pub open spec fn latch_block(m: LatchModel, samples: Seq<i32>) -> LatchModel {
    if m.active {
        LatchModel { active: m.active, buffer: m.buffer + samples }
    } else {
        m
    }
}

/// Taking the audio empties the buffer and yields its old contents.
pub open spec fn latch_take(m: LatchModel) -> (LatchModel, Seq<i32>) {
    (LatchModel { active: m.active, buffer: Seq::empty() }, m.buffer)
}

/// A sequence of blocks delivered one after the other.
pub open spec fn feed_blocks(m: LatchModel, blocks: Seq<Seq<i32>>) -> LatchModel
    decreases blocks.len(),
{
    if blocks.len() == 0 {
        m
    } else {
        latch_block(feed_blocks(m, blocks.drop_last()), blocks.last())
    }
}

/// All blocks of a sequence, concatenated in order.
pub open spec fn concat_blocks(blocks: Seq<Seq<i32>>) -> Seq<i32>
    decreases blocks.len(),
{
    if blocks.len() == 0 {
        Seq::empty()
    } else {
        concat_blocks(blocks.drop_last()) + blocks.last()
    }
}

pub struct CaptureLatch {
    action: String,
    active: bool,
    buffer: Vec<i32>,
}

impl CaptureLatch {
    /// The action tag whose edges drive this latch.
    pub closed spec fn spec_action(self) -> Seq<char> {
        self.action@
    }

    pub closed spec fn model(self) -> LatchModel {
        LatchModel { active: self.active, buffer: self.buffer@ }
    }

    pub fn new(action: String) -> (r: Self)
        ensures
            r.spec_action() == action@,
            r.model() == (LatchModel { active: false, buffer: Seq::<i32>::empty() }),
    {
        CaptureLatch { action, active: false, buffer: Vec::new() }
    }

    /// Reset when the audio stream (re)starts: latch closed, buffer empty.
    pub fn reset(&mut self)
        ensures
            final(self).spec_action() == old(self).spec_action(),
            final(self).model() == (LatchModel { active: false, buffer: Seq::<i32>::empty() }),
    {
        self.active = false;
        self.buffer.clear();
    }

    /// One audio block delivered by the stream callback.
    pub fn on_samples(&mut self, samples: &[i32])
        ensures
            final(self).spec_action() == old(self).spec_action(),
            final(self).model() == latch_block(old(self).model(), samples@),
    {
        if self.active {
            self.buffer.extend_from_slice(samples);
        }
    }

    /// A resolved hotkey edge.  Edges of other actions are ignored; a
    /// `Pressed` edge of this latch's action opens it and clears the buffer,
    /// a `Released` edge closes it.
    pub fn handle_hotkey_action(&mut self, event: &HotkeyActionEvent)
        ensures
            final(self).spec_action() == old(self).spec_action(),
            final(self).model() == (if event.action@ != old(self).spec_action() {
                old(self).model()
            } else if event.state is Pressed {
                latch_press(old(self).model())
            } else {
                latch_release(old(self).model())
            }),
    {
        if !(event.action == self.action) {
            return ;
        }
        match event.state {
            HotkeyState::Pressed => {
                self.active = true;
                self.buffer.clear();
            },
            HotkeyState::Released => {
                self.active = false;
            },
        }
    }

    /// Moves the captured samples out, leaving the buffer empty.
    pub fn take_audio(&mut self) -> (r: Vec<i32>)
        ensures
            final(self).spec_action() == old(self).spec_action(),
            final(self).model() == latch_take(old(self).model()).0,
            r@ == latch_take(old(self).model()).1,
    {
        let mut taken: Vec<i32> = Vec::new();
        core::mem::swap(&mut taken, &mut self.buffer);
        taken
    }
}

proof fn lemma_feed_blocks_active(m: LatchModel, blocks: Seq<Seq<i32>>)
    requires
        m.active,
    ensures
        feed_blocks(m, blocks) == (LatchModel {
            active: true,
            buffer: m.buffer + concat_blocks(blocks),
        }),
    decreases blocks.len(),
{
    if blocks.len() == 0 {
        assert(m.buffer + concat_blocks(blocks) =~= m.buffer);
    } else {
        lemma_feed_blocks_active(m, blocks.drop_last());
        assert(m.buffer + concat_blocks(blocks) =~= (m.buffer + concat_blocks(blocks.drop_last()))
            + blocks.last());
    }
}

proof fn lemma_feed_blocks_inactive(m: LatchModel, blocks: Seq<Seq<i32>>)
    requires
        !m.active,
    ensures
        feed_blocks(m, blocks) == m,
    decreases blocks.len(),
{
    if blocks.len() > 0 {
        lemma_feed_blocks_inactive(m, blocks.drop_last());
    }
}

/// From any starting state: a `Pressed` edge, then blocks `s1`, then a
/// `Released` edge, then blocks `s2`.  Taking the audio yields exactly the
/// blocks of `s1` concatenated, and taking again yields nothing.
pub proof fn lemma_capture_round_trip(m: LatchModel, s1: Seq<Seq<i32>>, s2: Seq<Seq<i32>>)
    ensures
        ({
            let after = feed_blocks(latch_release(feed_blocks(latch_press(m), s1)), s2);
            &&& latch_take(after).1 == concat_blocks(s1)
            &&& latch_take(latch_take(after).0).1 =~= Seq::<i32>::empty()
        }),
{
    let opened = latch_press(m);
    lemma_feed_blocks_active(opened, s1);
    let closed = latch_release(feed_blocks(opened, s1));
    lemma_feed_blocks_inactive(closed, s2);
    assert(Seq::<i32>::empty() + concat_blocks(s1) =~= concat_blocks(s1));
}

} // verus!
