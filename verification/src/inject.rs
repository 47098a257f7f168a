//! Clipboard-based text injection with typing fallback.
//!
//! The clipboard and the synthetic-keystroke typer are capability traits
//! the surrounding process implements; the injector owns the policy: stash
//! the old clipboard text, set the new text, paste, restore — and on any
//! failure along the way fall back to typing the text directly, still
//! restoring the clipboard where it was touched.

use vstd::prelude::*;

verus! {

#[derive(Debug, Clone, PartialEq, Eq)]
pub struct ClipboardError(pub &'static str);

#[derive(Debug, Clone, PartialEq, Eq)]
pub struct TypingError(pub &'static str);

/// The system clipboard and paste keystroke.
pub trait Clipboard {
    fn get_text(&mut self) -> Result<Option<String>, ClipboardError>;

    fn set_text(&mut self, text: &str) -> Result<(), ClipboardError>;

    fn clear(&mut self) -> Result<(), ClipboardError>;

    fn paste(&mut self) -> Result<(), ClipboardError>;
}

/// Direct synthetic typing.
pub trait Typer {
    fn type_text(&mut self, text: &str) -> Result<(), TypingError>;
}

/// How the text reached its destination.
#[derive(Debug, Clone, PartialEq, Eq)]
pub enum InjectOutcome {
    Clipboard,
    TypedFallback,
}

/// What happened to the user's previous clipboard contents.
#[derive(Debug, Clone, PartialEq, Eq)]
pub enum ClipboardRestore {
    NotAttempted,
    Restored,
    Failed(ClipboardError),
}

#[derive(Debug, Clone, PartialEq, Eq)]
pub struct InjectResult {
    pub outcome: InjectOutcome,
    pub restore: ClipboardRestore,
}

/// Injection only fails when typing fails too; the clipboard error that
/// forced the fallback rides along.
#[derive(Debug, Clone, PartialEq, Eq)]
pub enum InjectError {
    ClipboardSet(ClipboardError),
    ClipboardPaste(ClipboardError),
    Typing { source: TypingError, clipboard: Option<ClipboardError> },
}

/// How a restore attempt reads in the result.
pub open spec fn spec_restore_outcome(result: Result<(), ClipboardError>) -> ClipboardRestore {
    match result {
        Ok(_) => ClipboardRestore::Restored,
        Err(e) => ClipboardRestore::Failed(e),
    }
}

pub fn restore_outcome(result: Result<(), ClipboardError>) -> (r: ClipboardRestore)
    ensures
        r == spec_restore_outcome(result),
{
    match result {
        Ok(_) => ClipboardRestore::Restored,
        Err(e) => ClipboardRestore::Failed(e),
    }
}

pub struct Injector<C, T> {
    clipboard: C,
    typer: T,
}

impl<C: Clipboard, T: Typer> Injector<C, T> {
    pub closed spec fn spec_parts(self) -> (C, T) {
        (self.clipboard, self.typer)
    }

    pub fn new(clipboard: C, typer: T) -> (r: Self)
        ensures
            r.spec_parts() == (clipboard, typer),
    {
        Injector { clipboard, typer }
    }

    pub fn into_parts(self) -> (r: (C, T))
        ensures
            r == self.spec_parts(),
    {
        (self.clipboard, self.typer)
    }

    /// Puts `text` where the user is typing.  The clipboard path is tried
    /// first — stash, set, paste, restore; every clipboard failure falls
    /// back to direct typing, so an error comes back only when typing
    /// failed as well, and it always carries the typing failure.
    pub fn inject_text(&mut self, text: &str) -> (r: Result<InjectResult, InjectError>)
        ensures
            r matches Err(e) ==> e is Typing,
    {
        let previous = match self.clipboard.get_text() {
            Ok(value) => value,
            Err(err) => {
                return match self.typer.type_text(text) {
                    Ok(_) => Ok(
                        InjectResult {
                            outcome: InjectOutcome::TypedFallback,
                            restore: ClipboardRestore::NotAttempted,
                        },
                    ),
                    Err(typing_err) => Err(
                        InjectError::Typing { source: typing_err, clipboard: Some(err) },
                    ),
                };
            },
        };
        match self.clipboard.set_text(text) {
            Ok(_) => {},
            Err(err) => {
                let restore_result = restore_clipboard(&mut self.clipboard, previous);
                return self.typing_fallback_after_restore(text, err, restore_result);
            },
        }
        match self.clipboard.paste() {
            Ok(_) => {
                let restore_result = restore_clipboard(&mut self.clipboard, previous);
                Ok(
                    InjectResult {
                        outcome: InjectOutcome::Clipboard,
                        restore: restore_outcome(restore_result),
                    },
                )
            },
            Err(paste_err) => self.typing_fallback_with_restore(text, paste_err, previous),
        }
    }

    /// Falls back to typing after a failed paste, restoring the stashed
    /// clipboard either way.
    pub fn typing_fallback_with_restore(
        &mut self,
        text: &str,
        clipboard_error: ClipboardError,
        previous: Option<String>,
    ) -> (r: Result<InjectResult, InjectError>)
        ensures
            r matches Err(e) ==> e matches InjectError::Typing { source: _, clipboard: c } && c
                is Some,
            r matches Ok(res) ==> res.outcome is TypedFallback,
    {
        let typing_result = self.typer.type_text(text);
        let restore_result = restore_clipboard(&mut self.clipboard, previous);
        match typing_result {
            Ok(_) => Ok(
                InjectResult {
                    outcome: InjectOutcome::TypedFallback,
                    restore: restore_outcome(restore_result),
                },
            ),
            Err(typing_err) => {
                match restore_result {
                    Err(restore_err) => Err(
                        InjectError::Typing { source: typing_err, clipboard: Some(restore_err) },
                    ),
                    Ok(_) => Err(
                        InjectError::Typing {
                            source: typing_err,
                            clipboard: Some(clipboard_error),
                        },
                    ),
                }
            },
        }
    }

    /// Falls back to typing after a failed set, the restore having already
    /// been attempted.
    pub fn typing_fallback_after_restore(
        &mut self,
        text: &str,
        clipboard_error: ClipboardError,
        restore_result: Result<(), ClipboardError>,
    ) -> (r: Result<InjectResult, InjectError>)
        ensures
            r matches Err(e) ==> e matches InjectError::Typing { source: _, clipboard: c } && c
                == Some(clipboard_error),
            r matches Ok(res) ==> res.outcome is TypedFallback && res.restore
                == spec_restore_outcome(restore_result),
    {
        match self.typer.type_text(text) {
            Ok(_) => Ok(
                InjectResult {
                    outcome: InjectOutcome::TypedFallback,
                    restore: restore_outcome(restore_result),
                },
            ),
            Err(typing_err) => Err(
                InjectError::Typing { source: typing_err, clipboard: Some(clipboard_error) },
            ),
        }
    }
}

/// Puts the stashed text back, or clears the clipboard when there was
/// none.
pub fn restore_clipboard<C: Clipboard>(clipboard: &mut C, previous: Option<String>) -> (r: Result<
    (),
    ClipboardError,
>) {
    match previous {
        Some(value) => clipboard.set_text(value.as_str()),
        None => clipboard.clear(),
    }
}

} // verus!
