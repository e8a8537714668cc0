//! The recording session controller: the one authority that starts and
//! stops audio capture, shared by the hold-mode (polling) and toggle-mode
//! (native hotkey) sources.
use vstd::prelude::*;
use crate::binding::{binding_satisfied, check_keys_pressed};

verus! {

/// Longest toggle-mode recording, in milliseconds, before the watchdog stops it.
pub const RECORDING_CEILING_MS: u64 = 60_000;

/// Whether a capture is running, and since when (milliseconds on a monotonic clock).
#[derive(Clone, Copy, Debug, PartialEq, Eq, Structural)]
pub enum SessionState {
    Idle,
    Recording { started_at_ms: u64 },
}

/// What a transition asks the caller to do with the capture.
#[derive(Clone, Copy, Debug, PartialEq, Eq, Structural)]
pub enum SessionEvent {
    Started,
    Stopped,
}

/// A request made of the session.
#[derive(Clone, Copy, Debug, PartialEq, Eq, Structural)]
pub enum SessionCommand {
    Start { now_ms: u64 },
    Stop,
    Tick { now_ms: u64 },
}

pub open spec fn is_recording(s: SessionState) -> bool {
    s is Recording
}

/// Start: from Idle a capture begins now; while Recording it is ignored.
pub open spec fn start_step(s: SessionState, now_ms: u64) -> (SessionState, Option<SessionEvent>) {
    match s {
        SessionState::Idle => (SessionState::Recording { started_at_ms: now_ms }, Some(SessionEvent::Started)),
        SessionState::Recording { .. } => (s, None),
    }
}

/// Stop: a running capture ends; while Idle it is ignored.
pub open spec fn stop_step(s: SessionState) -> (SessionState, Option<SessionEvent>) {
    match s {
        SessionState::Recording { .. } => (SessionState::Idle, Some(SessionEvent::Stopped)),
        SessionState::Idle => (s, None),
    }
}

/// The ceiling is reached: recording for at least `RECORDING_CEILING_MS`.
pub open spec fn timeout_due(s: SessionState, now_ms: u64) -> bool {
    match s {
        SessionState::Recording { started_at_ms } => now_ms as int - started_at_ms as int
            >= RECORDING_CEILING_MS as int,
        SessionState::Idle => false,
    }
}

/// Watchdog tick: stops the capture once the ceiling is reached.
pub open spec fn tick_step(s: SessionState, now_ms: u64) -> (SessionState, Option<SessionEvent>) {
    if timeout_due(s, now_ms) {
        (SessionState::Idle, Some(SessionEvent::Stopped))
    } else {
        (s, None)
    }
}

pub open spec fn command_step(s: SessionState, c: SessionCommand) -> (SessionState, Option<SessionEvent>) {
    match c {
        SessionCommand::Start { now_ms } => start_step(s, now_ms),
        SessionCommand::Stop => stop_step(s),
        SessionCommand::Tick { now_ms } => tick_step(s, now_ms),
    }
}

/// The events that a run of commands produces.
pub open spec fn run_events(s: SessionState, cmds: Seq<SessionCommand>) -> Seq<SessionEvent>
    decreases cmds.len(),
{
    if cmds.len() == 0 {
        Seq::empty()
    } else {
        let (next, ev) = command_step(s, cmds[0]);
        let rest = run_events(next, cmds.drop_first());
        match ev {
            Some(e) => seq![e] + rest,
            None => rest,
        }
    }
}

/// Starts and stops alternate, beginning with a stop if a capture runs:
/// no two recording intervals overlap.
pub open spec fn alternating(recording: bool, evs: Seq<SessionEvent>) -> bool
    decreases evs.len(),
{
    if evs.len() == 0 {
        true
    } else {
        &&& evs[0] == (if recording { SessionEvent::Stopped } else { SessionEvent::Started })
        &&& alternating(!recording, evs.drop_first())
    }
}

/// Whatever sequence of start, stop and watchdog requests arrives, the
/// captures it starts and stops never overlap: a start only follows a stop
/// (or the idle beginning), and a stop only follows a start.
pub proof fn lemma_sessions_never_overlap(s: SessionState, cmds: Seq<SessionCommand>)
    ensures
        alternating(is_recording(s), run_events(s, cmds)),
    decreases cmds.len(),
{
    if cmds.len() > 0 {
        let (next, ev) = command_step(s, cmds[0]);
        lemma_sessions_never_overlap(next, cmds.drop_first());
        let rest = run_events(next, cmds.drop_first());
        match ev {
            Some(e) => {
                assert((seq![e] + rest).drop_first() =~= rest);
            },
            None => {
                assert(next == s);
            },
        }
    }
}

/// The watchdog fires at the ceiling and not before, and once it has fired
/// the session is Idle, so the next tick, whenever it comes, does not fire.
pub proof fn lemma_timeout_fires_once(started_at_ms: u64, now_ms: u64, later_ms: u64)
    ensures
        ({
            let s = SessionState::Recording { started_at_ms };
            let (next, ev) = tick_step(s, now_ms);
            &&& (ev == Some(SessionEvent::Stopped)) == (now_ms as int >= started_at_ms as int
                + RECORDING_CEILING_MS as int)
            &&& ev is Some ==> next == SessionState::Idle && tick_step(next, later_ms).1 is None
        }),
{
}

/// What the controller's view holds.
pub struct ControllerView {
    pub session: SessionState,
    pub suspended: bool,
    pub last_transcript_held: bool,
}

/// What a shortcut decision asks the caller to do.
#[derive(Clone, Copy, Debug, PartialEq, Eq, Structural)]
pub struct ShortcutEffects {
    /// Start the capture and announce `shortcut:start`.
    pub start: bool,
    /// Stop the capture, hand the file on, and announce `shortcut:stop`.
    pub stop: bool,
    /// Paste the last transcription again.
    pub paste_last: bool,
}

/// The single recording session of the process, with the suspension flag
/// and the latch of the last-transcript shortcut.
pub struct SessionController {
    session: SessionState,
    suspended: bool,
    last_transcript_held: bool,
}

impl View for SessionController {
    type V = ControllerView;

    closed spec fn view(&self) -> ControllerView {
        ControllerView {
            session: self.session,
            suspended: self.suspended,
            last_transcript_held: self.last_transcript_held,
        }
    }
}

impl SessionController {
    pub fn new() -> (r: Self)
        ensures
            r@.session == SessionState::Idle,
            !r@.suspended,
            !r@.last_transcript_held,
    {
        SessionController { session: SessionState::Idle, suspended: false, last_transcript_held: false }
    }

    pub fn session(&self) -> (r: SessionState)
        ensures
            r == self@.session,
    {
        self.session
    }

    pub fn is_recording(&self) -> (r: bool)
        ensures
            r == is_recording(self@.session),
    {
        match self.session {
            SessionState::Recording { .. } => true,
            SessionState::Idle => false,
        }
    }

    pub fn is_suspended(&self) -> (r: bool)
        ensures
            r == self@.suspended,
    {
        self.suspended
    }

    /// Sets or clears the suspension: while set, shortcut signals are
    /// observed but change nothing.
    pub fn set_suspended(&mut self, suspended: bool)
        ensures
            final(self)@ == (ControllerView { suspended, ..old(self)@ }),
    {
        self.suspended = suspended;
    }

    /// Starts a session unless one is running; true when the caller must
    /// start the capture.
    pub fn request_start(&mut self, now_ms: u64) -> (started: bool)
        ensures
            (final(self)@.session, if started { Some(SessionEvent::Started) } else { None }) == start_step(
                old(self)@.session,
                now_ms,
            ),
            final(self)@.suspended == old(self)@.suspended,
            final(self)@.last_transcript_held == old(self)@.last_transcript_held,
    {
        match self.session {
            SessionState::Idle => {
                self.session = SessionState::Recording { started_at_ms: now_ms };
                true
            },
            SessionState::Recording { .. } => false,
        }
    }

    /// Stops the running session, if any; true when the caller must stop
    /// the capture.
    pub fn request_stop(&mut self) -> (stopped: bool)
        ensures
            (final(self)@.session, if stopped { Some(SessionEvent::Stopped) } else { None }) == stop_step(
                old(self)@.session,
            ),
            final(self)@.suspended == old(self)@.suspended,
            final(self)@.last_transcript_held == old(self)@.last_transcript_held,
    {
        match self.session {
            SessionState::Recording { .. } => {
                self.session = SessionState::Idle;
                true
            },
            SessionState::Idle => false,
        }
    }

    /// Watchdog tick of toggle mode: stops a session that has run for the
    /// ceiling; true when the caller must stop the capture.
    pub fn check_timeout(&mut self, now_ms: u64) -> (fired: bool)
        ensures
            (final(self)@.session, if fired { Some(SessionEvent::Stopped) } else { None }) == tick_step(
                old(self)@.session,
                now_ms,
            ),
            final(self)@.suspended == old(self)@.suspended,
            final(self)@.last_transcript_held == old(self)@.last_transcript_held,
    {
        match self.session {
            SessionState::Recording { started_at_ms } => {
                if now_ms >= started_at_ms && now_ms - started_at_ms >= RECORDING_CEILING_MS {
                    self.session = SessionState::Idle;
                    true
                } else {
                    false
                }
            },
            SessionState::Idle => false,
        }
    }

    /// One poll of hold mode, given the keys that are down now. Recording
    /// runs exactly while the record binding is held; the last-transcript
    /// binding fires once per press. An empty record binding is disabled:
    /// it neither starts nor stops a session, and the last-transcript
    /// binding is still served. The suspension makes the poll change nothing.
    pub fn poll_hold(&mut self, record_keys: &[i32], last_keys: &[i32], down: &[i32], now_ms: u64) -> (e:
        ShortcutEffects)
        ensures
            ({
                let rec = binding_satisfied(record_keys@, down@);
                let last = binding_satisfied(last_keys@, down@);
                let o = old(self)@;
                let f = final(self)@;
                if o.suspended {
                    f == o && !e.start && !e.stop && !e.paste_last
                } else {
                    &&& (record_keys@.len() == 0 ==> !e.start && !e.stop && f.session == o.session)
                    &&& (record_keys@.len() > 0 ==> {
                        &&& e.start == (!is_recording(o.session) && rec)
                        &&& e.stop == (is_recording(o.session) && !rec)
                        &&& f.session == (if e.start {
                            start_step(o.session, now_ms).0
                        } else if e.stop {
                            stop_step(o.session).0
                        } else {
                            o.session
                        })
                        &&& is_recording(f.session) == rec
                    })
                    &&& e.paste_last == (!o.last_transcript_held && last)
                    &&& f.last_transcript_held == last
                    &&& f.suspended == o.suspended
                }
            }),
    {
        if self.suspended {
            return ShortcutEffects { start: false, stop: false, paste_last: false };
        }
        let mut start = false;
        let mut stop = false;
        if record_keys.len() > 0 {
            if check_keys_pressed(record_keys, down) {
                start = self.request_start(now_ms);
            } else {
                stop = self.request_stop();
            }
        }
        let last = check_keys_pressed(last_keys, down);
        let paste_last = !self.last_transcript_held && last;
        self.last_transcript_held = last;
        ShortcutEffects { start, stop, paste_last }
    }

    /// A hotkey press of toggle mode: a press of the record hotkey starts a
    /// session when Idle and stops it when Recording; a press of the
    /// last-transcript hotkey pastes it again. Ignored while suspended.
    pub fn press_toggle(&mut self, record_pressed: bool, last_pressed: bool, now_ms: u64) -> (e: ShortcutEffects)
        ensures
            ({
                let o = old(self)@;
                let f = final(self)@;
                if o.suspended {
                    f == o && !e.start && !e.stop && !e.paste_last
                } else {
                    &&& e.start == (record_pressed && !is_recording(o.session))
                    &&& e.stop == (record_pressed && is_recording(o.session))
                    &&& f.session == (if e.start {
                        start_step(o.session, now_ms).0
                    } else if e.stop {
                        stop_step(o.session).0
                    } else {
                        o.session
                    })
                    &&& e.paste_last == last_pressed
                    &&& f.suspended == o.suspended
                    &&& f.last_transcript_held == o.last_transcript_held
                }
            }),
    {
        if self.suspended {
            return ShortcutEffects { start: false, stop: false, paste_last: false };
        }
        let mut start = false;
        let mut stop = false;
        if record_pressed {
            if self.is_recording() {
                stop = self.request_stop();
            } else {
                start = self.request_start(now_ms);
            }
        }
        ShortcutEffects { start, stop, paste_last: last_pressed }
    }
}

} // verus!
