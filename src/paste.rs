//! The clipboard paste cycle: keep the user's clipboard text, put the
//! transcription there, send the paste keystroke, then put the kept text
//! back, whether or not the keystroke went through. The caller performs
//! each action and reports its outcome.
use vstd::prelude::*;

verus! {

/// Which platform the cycle runs on; it sets the settle delays.
#[derive(Clone, Copy, Debug, PartialEq, Eq, Structural)]
pub enum PastePlatform {
    Windows,
    Linux,
    MacOs,
}

/// Wait after writing the clipboard and before the keystroke, in ms.
pub open spec fn paste_delay(p: PastePlatform) -> u64 {
    match p {
        PastePlatform::Windows => 50,
        PastePlatform::Linux => 100,
        PastePlatform::MacOs => 0,
    }
}

/// Wait after the keystroke and before restoring the clipboard, in ms.
pub open spec fn restore_delay(p: PastePlatform) -> u64 {
    match p {
        PastePlatform::Windows => 100,
        PastePlatform::Linux => 300,
        PastePlatform::MacOs => 0,
    }
}

/// Where the cycle stands: which outcome it waits for.
#[derive(Clone, Copy, Debug, PartialEq, Eq, Structural)]
pub enum PasteStage {
    AwaitRead,
    AwaitWrite,
    AwaitKeystroke,
    AwaitRestore,
    Done,
}

/// Why a paste cycle failed; each carries the collaborator's message.
#[derive(Debug)]
pub enum PasteError {
    /// The transcription could not be written to the clipboard; nothing was changed.
    Write(String),
    /// The paste keystroke could not be sent; the clipboard was restored.
    Keystroke(String),
    /// The kept text could not be written back.
    Restore(String),
}

/// What the caller does next.
#[derive(Debug)]
pub enum PasteAction {
    /// Read the clipboard's text.
    ReadClipboard,
    /// Write `text` to the clipboard.
    WriteClipboard { text: String },
    /// Wait `delay_ms`, then send the paste keystroke.
    SettleThenPaste { delay_ms: u64 },
    /// Wait `delay_ms`, then write `saved` back to the clipboard.
    SettleThenRestore { delay_ms: u64, saved: String },
    /// The cycle is over.
    Finish { outcome: Result<(), PasteError> },
}

/// The kind of an error, for contracts.
#[derive(Clone, Copy, Debug, PartialEq, Eq, Structural)]
pub enum PasteErrorKind {
    Write,
    Keystroke,
    Restore,
}

pub open spec fn error_kind(e: PasteError) -> PasteErrorKind {
    match e {
        PasteError::Write(_) => PasteErrorKind::Write,
        PasteError::Keystroke(_) => PasteErrorKind::Keystroke,
        PasteError::Restore(_) => PasteErrorKind::Restore,
    }
}

pub open spec fn error_message(e: PasteError) -> Seq<char> {
    match e {
        PasteError::Write(m) => m@,
        PasteError::Keystroke(m) => m@,
        PasteError::Restore(m) => m@,
    }
}

/// An action as the contracts see it.
pub enum PasteOp {
    ReadClipboard,
    WriteClipboard(Seq<char>),
    SettleThenPaste(u64),
    SettleThenRestore(u64, Seq<char>),
    Finish(Option<(PasteErrorKind, Seq<char>)>),
}

impl View for PasteAction {
    type V = PasteOp;

    open spec fn view(&self) -> PasteOp {
        match self {
            PasteAction::ReadClipboard => PasteOp::ReadClipboard,
            PasteAction::WriteClipboard { text } => PasteOp::WriteClipboard(text@),
            PasteAction::SettleThenPaste { delay_ms } => PasteOp::SettleThenPaste(*delay_ms),
            PasteAction::SettleThenRestore { delay_ms, saved } => PasteOp::SettleThenRestore(*delay_ms, saved@),
            PasteAction::Finish { outcome } => PasteOp::Finish(
                match outcome {
                    Ok(_) => None,
                    Err(e) => Some((error_kind(*e), error_message(*e))),
                },
            ),
        }
    }
}

/// What the cycle holds.
pub struct PasteView {
    pub platform: PastePlatform,
    pub stage: PasteStage,
    pub text: Seq<char>,
    pub saved: Seq<char>,
    pub keystroke_error: Option<Seq<char>>,
}

/// After the clipboard was read (no text reads as empty): keep it, write the transcription.
pub open spec fn after_read(v: PasteView, content: Option<Seq<char>>) -> (PasteView, PasteOp) {
    let saved = match content {
        Some(c) => c,
        None => Seq::empty(),
    };
    (PasteView { stage: PasteStage::AwaitWrite, saved, ..v }, PasteOp::WriteClipboard(v.text))
}

/// After the write: on failure stop (the clipboard is unchanged), else settle and paste.
pub open spec fn after_write(v: PasteView, error: Option<Seq<char>>) -> (PasteView, PasteOp) {
    match error {
        Some(m) => (PasteView { stage: PasteStage::Done, ..v }, PasteOp::Finish(Some((PasteErrorKind::Write, m)))),
        None => (PasteView { stage: PasteStage::AwaitKeystroke, ..v }, PasteOp::SettleThenPaste(paste_delay(v.platform))),
    }
}

/// After the keystroke, sent or not: settle and restore the kept text.
pub open spec fn after_keystroke(v: PasteView, error: Option<Seq<char>>) -> (PasteView, PasteOp) {
    (
        PasteView { stage: PasteStage::AwaitRestore, keystroke_error: error, ..v },
        PasteOp::SettleThenRestore(restore_delay(v.platform), v.saved),
    )
}

/// After the restore: report the keystroke's failure first, then the restore's.
pub open spec fn after_restore(v: PasteView, error: Option<Seq<char>>) -> (PasteView, PasteOp) {
    (
        PasteView { stage: PasteStage::Done, ..v },
        PasteOp::Finish(
            match v.keystroke_error {
                Some(m) => Some((PasteErrorKind::Keystroke, m)),
                None => match error {
                    Some(m) => Some((PasteErrorKind::Restore, m)),
                    None => None,
                },
            },
        ),
    )
}

pub open spec fn error_view(r: Result<(), String>) -> Option<Seq<char>> {
    match r {
        Ok(_) => None,
        Err(m) => Some(m@),
    }
}

/// One paste cycle.
pub struct PasteCycle {
    platform: PastePlatform,
    stage: PasteStage,
    text: String,
    saved: String,
    keystroke_error: Option<String>,
}

impl View for PasteCycle {
    type V = PasteView;

    closed spec fn view(&self) -> PasteView {
        PasteView {
            platform: self.platform,
            stage: self.stage,
            text: self.text@,
            saved: self.saved@,
            keystroke_error: match self.keystroke_error {
                Some(m) => Some(m@),
                None => None,
            },
        }
    }
}

impl PasteCycle {
    /// A cycle that will paste `text`; its first action is to read the clipboard.
    pub fn new(text: String, platform: PastePlatform) -> (r: (Self, PasteAction))
        ensures
            r.0@ == (PasteView {
                platform,
                stage: PasteStage::AwaitRead,
                text: text@,
                saved: Seq::empty(),
                keystroke_error: None,
            }),
            r.1@ == PasteOp::ReadClipboard,
    {
        (
            PasteCycle { platform, stage: PasteStage::AwaitRead, text, saved: String::new(), keystroke_error: None },
            PasteAction::ReadClipboard,
        )
    }

    pub fn stage(&self) -> (r: PasteStage)
        ensures
            r == self@.stage,
    {
        self.stage
    }

    /// Reports what the clipboard held (`None` when it held no text).
    pub fn clipboard_read(&mut self, content: Option<String>) -> (a: PasteAction)
        requires
            old(self)@.stage == PasteStage::AwaitRead,
        ensures
            (final(self)@, a@) == after_read(
                old(self)@,
                match content {
                    Some(c) => Some(c@),
                    None => None,
                },
            ),
    {
        self.saved = match content {
            Some(c) => c,
            None => String::new(),
        };
        self.stage = PasteStage::AwaitWrite;
        PasteAction::WriteClipboard { text: self.text.clone() }
    }

    /// Reports the outcome of writing the transcription.
    pub fn write_done(&mut self, result: Result<(), String>) -> (a: PasteAction)
        requires
            old(self)@.stage == PasteStage::AwaitWrite,
        ensures
            (final(self)@, a@) == after_write(old(self)@, error_view(result)),
    {
        match result {
            Err(m) => {
                self.stage = PasteStage::Done;
                PasteAction::Finish { outcome: Err(PasteError::Write(m)) }
            },
            Ok(()) => {
                self.stage = PasteStage::AwaitKeystroke;
                PasteAction::SettleThenPaste { delay_ms: platform_paste_delay(self.platform) }
            },
        }
    }

    /// Reports the outcome of the paste keystroke; the kept text is
    /// restored next in either case.
    pub fn keystroke_done(&mut self, result: Result<(), String>) -> (a: PasteAction)
        requires
            old(self)@.stage == PasteStage::AwaitKeystroke,
        ensures
            (final(self)@, a@) == after_keystroke(old(self)@, error_view(result)),
    {
        self.keystroke_error = match result {
            Err(m) => Some(m),
            Ok(()) => None,
        };
        self.stage = PasteStage::AwaitRestore;
        PasteAction::SettleThenRestore { delay_ms: platform_restore_delay(self.platform), saved: self.saved.clone() }
    }

    /// Reports the outcome of restoring the kept text; the cycle ends.
    pub fn restore_done(&mut self, result: Result<(), String>) -> (a: PasteAction)
        requires
            old(self)@.stage == PasteStage::AwaitRestore,
        ensures
            (final(self)@, a@) == after_restore(old(self)@, error_view(result)),
    {
        self.stage = PasteStage::Done;
        let outcome = match &self.keystroke_error {
            Some(m) => Err(PasteError::Keystroke(m.clone())),
            None => match result {
                Err(m) => Err(PasteError::Restore(m)),
                Ok(()) => Ok(()),
            },
        };
        PasteAction::Finish { outcome }
    }
}

fn platform_paste_delay(p: PastePlatform) -> (r: u64)
    ensures
        r == paste_delay(p),
{
    match p {
        PastePlatform::Windows => 50,
        PastePlatform::Linux => 100,
        PastePlatform::MacOs => 0,
    }
}

fn platform_restore_delay(p: PastePlatform) -> (r: u64)
    ensures
        r == restore_delay(p),
{
    match p {
        PastePlatform::Windows => 100,
        PastePlatform::Linux => 300,
        PastePlatform::MacOs => 0,
    }
}

/// Once the transcription is on the clipboard, the text that was there
/// before is written back, and only then does the cycle finish: this holds
/// when the keystroke fails too, and the keystroke's failure is what the
/// cycle reports.
pub proof fn lemma_restore_after_keystroke(
    v: PasteView,
    content: Option<Seq<char>>,
    keystroke_error: Option<Seq<char>>,
    restore_error: Option<Seq<char>>,
)
    requires
        v.stage == PasteStage::AwaitRead,
    ensures
        ({
            let saved = match content {
                Some(c) => c,
                None => Seq::<char>::empty(),
            };
            let (v1, op1) = after_read(v, content);
            let (v2, op2) = after_write(v1, None);
            let (v3, op3) = after_keystroke(v2, keystroke_error);
            let (v4, op4) = after_restore(v3, restore_error);
            &&& op1 == PasteOp::WriteClipboard(v.text)
            &&& op2 == PasteOp::SettleThenPaste(paste_delay(v.platform))
            &&& op3 == PasteOp::SettleThenRestore(restore_delay(v.platform), saved)
            &&& v4.stage == PasteStage::Done
            &&& (keystroke_error matches Some(m) ==> op4 == PasteOp::Finish(Some((PasteErrorKind::Keystroke, m))))
        }),
{
}

} // verus!
