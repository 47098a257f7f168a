//! The injector's clipboard-first, type-on-failure policy, driven by mock
//! clipboard and typer implementations.

use openwhisperai::inject::{
    Clipboard, ClipboardError, ClipboardRestore, InjectError, InjectOutcome, Injector, Typer,
    TypingError,
};

#[derive(Debug, PartialEq, Eq)]
enum Op {
    Get,
    SetText(String),
    Clear,
    Paste,
}

struct MockClipboard {
    content: Option<String>,
    ops: Vec<Op>,
    fail_get: bool,
    fail_set: bool,
    fail_paste: bool,
    fail_clear: bool,
}

impl MockClipboard {
    fn new(content: Option<String>) -> Self {
        Self {
            content,
            ops: Vec::new(),
            fail_get: false,
            fail_set: false,
            fail_paste: false,
            fail_clear: false,
        }
    }
}

impl Clipboard for MockClipboard {
    fn get_text(&mut self) -> Result<Option<String>, ClipboardError> {
        self.ops.push(Op::Get);
        if self.fail_get {
            return Err(ClipboardError("get failed"));
        }
        Ok(self.content.clone())
    }

    fn set_text(&mut self, text: &str) -> Result<(), ClipboardError> {
        self.ops.push(Op::SetText(text.to_string()));
        if self.fail_set {
            return Err(ClipboardError("set failed"));
        }
        self.content = Some(text.to_string());
        Ok(())
    }

    fn clear(&mut self) -> Result<(), ClipboardError> {
        self.ops.push(Op::Clear);
        if self.fail_clear {
            return Err(ClipboardError("clear failed"));
        }
        self.content = None;
        Ok(())
    }

    fn paste(&mut self) -> Result<(), ClipboardError> {
        self.ops.push(Op::Paste);
        if self.fail_paste {
            return Err(ClipboardError("paste failed"));
        }
        Ok(())
    }
}

#[derive(Default)]
struct MockTyper {
    typed: Vec<String>,
    fail: bool,
}

impl Typer for MockTyper {
    fn type_text(&mut self, text: &str) -> Result<(), TypingError> {
        if self.fail {
            return Err(TypingError("typing failed"));
        }
        self.typed.push(text.to_string());
        Ok(())
    }
}

#[test]
fn restores_clipboard_after_successful_paste() {
    let clipboard = MockClipboard::new(Some("old".to_string()));
    let typer = MockTyper::default();
    let mut injector = Injector::new(clipboard, typer);

    let outcome = injector.inject_text("new").unwrap();
    let (clipboard, typer) = injector.into_parts();

    assert_eq!(outcome.outcome, InjectOutcome::Clipboard);
    assert_eq!(outcome.restore, ClipboardRestore::Restored);
    assert_eq!(clipboard.content, Some("old".to_string()));
    assert_eq!(
        clipboard.ops,
        vec![
            Op::Get,
            Op::SetText("new".to_string()),
            Op::Paste,
            Op::SetText("old".to_string()),
        ]
    );
    assert!(typer.typed.is_empty());
}

#[test]
fn falls_back_to_typing_on_paste_failure_and_restores() {
    let mut clipboard = MockClipboard::new(Some("stash".to_string()));
    clipboard.fail_paste = true;
    let typer = MockTyper::default();
    let mut injector = Injector::new(clipboard, typer);

    let outcome = injector.inject_text("typed").unwrap();
    let (clipboard, typer) = injector.into_parts();

    assert_eq!(outcome.outcome, InjectOutcome::TypedFallback);
    assert_eq!(outcome.restore, ClipboardRestore::Restored);
    assert_eq!(clipboard.content, Some("stash".to_string()));
    assert_eq!(
        clipboard.ops,
        vec![
            Op::Get,
            Op::SetText("typed".to_string()),
            Op::Paste,
            Op::SetText("stash".to_string()),
        ]
    );
    assert_eq!(typer.typed, vec!["typed".to_string()]);
}

#[test]
fn falls_back_to_typing_on_set_failure_without_paste() {
    let mut clipboard = MockClipboard::new(Some("keep".to_string()));
    clipboard.fail_set = true;
    let typer = MockTyper::default();
    let mut injector = Injector::new(clipboard, typer);

    let outcome = injector.inject_text("fallback").unwrap();
    let (clipboard, typer) = injector.into_parts();

    assert_eq!(outcome.outcome, InjectOutcome::TypedFallback);
    assert_eq!(
        outcome.restore,
        ClipboardRestore::Failed(ClipboardError("set failed"))
    );
    assert_eq!(clipboard.content, Some("keep".to_string()));
    assert_eq!(
        clipboard.ops,
        vec![
            Op::Get,
            Op::SetText("fallback".to_string()),
            Op::SetText("keep".to_string()),
        ]
    );
    assert_eq!(typer.typed, vec!["fallback".to_string()]);
}

#[test]
fn clears_clipboard_when_set_fails_and_previous_empty() {
    let mut clipboard = MockClipboard::new(None);
    clipboard.fail_set = true;
    let typer = MockTyper::default();
    let mut injector = Injector::new(clipboard, typer);

    let outcome = injector.inject_text("fallback").unwrap();
    let (clipboard, typer) = injector.into_parts();

    assert_eq!(outcome.outcome, InjectOutcome::TypedFallback);
    assert_eq!(outcome.restore, ClipboardRestore::Restored);
    assert_eq!(clipboard.content, None);
    assert_eq!(
        clipboard.ops,
        vec![Op::Get, Op::SetText("fallback".to_string()), Op::Clear,]
    );
    assert_eq!(typer.typed, vec!["fallback".to_string()]);
}

#[test]
fn clears_clipboard_when_previous_empty() {
    let clipboard = MockClipboard::new(None);
    let typer = MockTyper::default();
    let mut injector = Injector::new(clipboard, typer);

    let outcome = injector.inject_text("alpha").unwrap();
    let (clipboard, _) = injector.into_parts();

    assert_eq!(outcome.outcome, InjectOutcome::Clipboard);
    assert_eq!(outcome.restore, ClipboardRestore::Restored);
    assert_eq!(clipboard.content, None);
    assert_eq!(
        clipboard.ops,
        vec![Op::Get, Op::SetText("alpha".to_string()), Op::Paste, Op::Clear,]
    );
}

#[test]
fn reports_restore_failure_after_successful_paste() {
    let mut clipboard = MockClipboard::new(None);
    clipboard.fail_clear = true;
    let typer = MockTyper::default();
    let mut injector = Injector::new(clipboard, typer);

    let outcome = injector.inject_text("alpha").unwrap();
    let (clipboard, _) = injector.into_parts();

    assert_eq!(outcome.outcome, InjectOutcome::Clipboard);
    assert_eq!(
        outcome.restore,
        ClipboardRestore::Failed(ClipboardError("clear failed"))
    );
    assert_eq!(clipboard.content, Some("alpha".to_string()));
    assert_eq!(
        clipboard.ops,
        vec![Op::Get, Op::SetText("alpha".to_string()), Op::Paste, Op::Clear,]
    );
}

#[test]
fn falls_back_to_typing_when_get_text_fails() {
    let mut clipboard = MockClipboard::new(Some("keep".to_string()));
    clipboard.fail_get = true;
    let typer = MockTyper::default();
    let mut injector = Injector::new(clipboard, typer);

    let outcome = injector.inject_text("typed").unwrap();
    let (clipboard, typer) = injector.into_parts();

    assert_eq!(outcome.outcome, InjectOutcome::TypedFallback);
    assert_eq!(outcome.restore, ClipboardRestore::NotAttempted);
    assert_eq!(clipboard.content, Some("keep".to_string()));
    assert_eq!(clipboard.ops, vec![Op::Get]);
    assert_eq!(typer.typed, vec!["typed".to_string()]);
}

#[test]
fn returns_typing_error_when_get_text_and_typing_fail() {
    let mut clipboard = MockClipboard::new(Some("keep".to_string()));
    clipboard.fail_get = true;
    let mut typer = MockTyper::default();
    typer.fail = true;
    let mut injector = Injector::new(clipboard, typer);

    let result = injector.inject_text("typed");
    let (clipboard, typer) = injector.into_parts();

    assert!(matches!(
        result,
        Err(InjectError::Typing {
            source: TypingError("typing failed"),
            clipboard: Some(ClipboardError("get failed")),
        })
    ));
    assert_eq!(clipboard.content, Some("keep".to_string()));
    assert_eq!(clipboard.ops, vec![Op::Get]);
    assert!(typer.typed.is_empty());
}

#[test]
fn restores_clipboard_when_set_fails_and_typing_fails() {
    let mut clipboard = MockClipboard::new(Some("stash".to_string()));
    clipboard.fail_set = true;
    let mut typer = MockTyper::default();
    typer.fail = true;
    let mut injector = Injector::new(clipboard, typer);

    let result = injector.inject_text("fallback");
    let (clipboard, typer) = injector.into_parts();

    assert!(matches!(
        result,
        Err(InjectError::Typing {
            source: TypingError("typing failed"),
            clipboard: Some(ClipboardError("set failed")),
        })
    ));
    assert_eq!(clipboard.content, Some("stash".to_string()));
    assert_eq!(
        clipboard.ops,
        vec![
            Op::Get,
            Op::SetText("fallback".to_string()),
            Op::SetText("stash".to_string()),
        ]
    );
    assert!(typer.typed.is_empty());
}

#[test]
fn restores_clipboard_when_paste_fails_and_typing_fails() {
    let mut clipboard = MockClipboard::new(Some("stash".to_string()));
    clipboard.fail_paste = true;
    let mut typer = MockTyper::default();
    typer.fail = true;
    let mut injector = Injector::new(clipboard, typer);

    let result = injector.inject_text("typed");
    let (clipboard, typer) = injector.into_parts();

    assert!(matches!(
        result,
        Err(InjectError::Typing {
            source: TypingError("typing failed"),
            clipboard: Some(ClipboardError("paste failed")),
        })
    ));
    assert_eq!(clipboard.content, Some("stash".to_string()));
    assert_eq!(
        clipboard.ops,
        vec![
            Op::Get,
            Op::SetText("typed".to_string()),
            Op::Paste,
            Op::SetText("stash".to_string()),
        ]
    );
    assert!(typer.typed.is_empty());
}
