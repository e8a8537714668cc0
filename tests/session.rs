use murmure::binding::{check_keys_pressed, LastTranscriptShortcutKeys, RecordShortcutKeys};
use murmure::session::{SessionController, SessionState, RECORDING_CEILING_MS};

#[test]
fn empty_binding_never_matches() {
    assert!(!check_keys_pressed(&[], &[0x11, 0x12]));
    assert!(check_keys_pressed(&[0x11, 0x12], &[0x12, 0x41, 0x11]));
    assert!(!check_keys_pressed(&[0x11, 0x12], &[0x12]));
}

#[test]
fn shortcut_holders_replace_wholesale() {
    let mut r = RecordShortcutKeys::new(vec![0x11]);
    assert_eq!(r.get(), vec![0x11]);
    r.set(vec![0x12, 0x52]);
    assert_eq!(r.get(), vec![0x12, 0x52]);
    let mut l = LastTranscriptShortcutKeys::new(vec![]);
    assert_eq!(l.get(), Vec::<i32>::new());
    l.set(vec![0x70]);
    assert_eq!(l.get(), vec![0x70]);
}

#[test]
fn start_while_recording_and_stop_while_idle_are_no_ops() {
    let mut c = SessionController::new();
    assert!(!c.request_stop());
    assert_eq!(c.session(), SessionState::Idle);
    assert!(c.request_start(10));
    assert!(!c.request_start(20));
    assert_eq!(c.session(), SessionState::Recording { started_at_ms: 10 });
    assert!(c.request_stop());
    assert!(!c.request_stop());
    assert!(!c.is_recording());
}

#[test]
fn hold_mode_records_while_held() {
    let mut c = SessionController::new();
    let rec = [0x11, 0x5B];
    let last = [0x12, 0x4C];
    let e = c.poll_hold(&rec, &last, &[0x11], 0);
    assert!(!e.start && !e.stop && !e.paste_last);
    let e = c.poll_hold(&rec, &last, &[0x11, 0x5B], 32);
    assert!(e.start && !e.stop);
    let e = c.poll_hold(&rec, &last, &[0x11, 0x5B, 0x41], 64);
    assert!(!e.start && !e.stop);
    let e = c.poll_hold(&rec, &last, &[0x5B], 96);
    assert!(e.stop && !e.start);
    assert!(!c.is_recording());
}

#[test]
fn hold_mode_last_transcript_fires_once_per_press() {
    let mut c = SessionController::new();
    let rec = [0x11, 0x5B];
    let last = [0x12, 0x4C];
    assert!(c.poll_hold(&rec, &last, &[0x12, 0x4C], 0).paste_last);
    assert!(!c.poll_hold(&rec, &last, &[0x12, 0x4C], 32).paste_last);
    assert!(!c.poll_hold(&rec, &last, &[0x12], 64).paste_last);
    assert!(c.poll_hold(&rec, &last, &[0x12, 0x4C], 96).paste_last);
    assert!(!c.poll_hold(&rec, &[], &[0x12, 0x4C], 128).paste_last);
}

#[test]
fn hold_mode_empty_record_binding_only_disables_recording() {
    let mut c = SessionController::new();
    let e = c.poll_hold(&[], &[0x12], &[0x12], 0);
    assert!(!e.start && !e.stop && e.paste_last);
    assert!(c.request_start(10));
    let e = c.poll_hold(&[], &[0x12], &[], 32);
    assert!(!e.start && !e.stop && !e.paste_last);
    assert!(c.is_recording());
}

#[test]
fn suspension_makes_signals_inert() {
    let mut c = SessionController::new();
    c.set_suspended(true);
    assert!(c.is_suspended());
    let e = c.poll_hold(&[0x11], &[], &[0x11], 0);
    assert!(!e.start);
    let e = c.press_toggle(true, true, 0);
    assert!(!e.start && !e.paste_last);
    assert!(!c.is_recording());
    c.set_suspended(false);
    assert!(c.press_toggle(true, false, 5).start);
}

#[test]
fn toggle_mode_press_starts_then_stops() {
    let mut c = SessionController::new();
    let e = c.press_toggle(true, false, 1000);
    assert!(e.start && !e.stop);
    let e = c.press_toggle(false, true, 1500);
    assert!(!e.start && !e.stop && e.paste_last);
    let e = c.press_toggle(true, false, 2000);
    assert!(e.stop && !e.start);
    assert!(!c.is_recording());
}

#[test]
fn toggle_timeout_fires_at_ceiling_once() {
    let mut c = SessionController::new();
    assert!(c.request_start(5_000));
    assert!(!c.check_timeout(5_000 + RECORDING_CEILING_MS - 1));
    assert!(c.is_recording());
    assert!(c.check_timeout(5_000 + RECORDING_CEILING_MS));
    assert!(!c.is_recording());
    assert!(!c.check_timeout(5_000 + RECORDING_CEILING_MS + 1_000));
    assert_eq!(RECORDING_CEILING_MS, 60_000);
}

#[test]
fn timeout_ignores_clock_going_back() {
    let mut c = SessionController::new();
    assert!(c.request_start(100_000));
    assert!(!c.check_timeout(10));
    assert!(c.is_recording());
}
