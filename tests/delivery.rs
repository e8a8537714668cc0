use murmure::hotkey::{plan_registration, registered_after, vk_codes_to_hotkey, vk_has_hotkey_code, HotkeyCombo, RegistrationPlan};
use murmure::paste::{PasteAction, PasteCycle, PasteError, PastePlatform, PasteStage};
use murmure::recording::{generate_unique_wav_name, wav_file_name, Handoff, HandoffAction, HandoffError, HandoffStage};

/// Runs a paste cycle against an in-memory clipboard; the keystroke fails
/// when `keystroke_fails` is set. Returns the outcome, the clipboard at the
/// end, and every text written to it, in order.
fn run_paste(
    clipboard: Option<&str>,
    text: &str,
    platform: PastePlatform,
    keystroke_fails: bool,
    write_fails: bool,
) -> (Result<(), PasteError>, Option<String>, Vec<String>, Vec<u64>) {
    let mut board: Option<String> = clipboard.map(|s| s.to_string());
    let mut writes: Vec<String> = Vec::new();
    let mut delays: Vec<u64> = Vec::new();
    let (mut cycle, mut action) = PasteCycle::new(text.to_string(), platform);
    loop {
        action = match action {
            PasteAction::ReadClipboard => cycle.clipboard_read(board.clone()),
            PasteAction::WriteClipboard { text } => {
                if write_fails {
                    cycle.write_done(Err("clipboard busy".to_string()))
                } else {
                    writes.push(text.clone());
                    board = Some(text);
                    cycle.write_done(Ok(()))
                }
            },
            PasteAction::SettleThenPaste { delay_ms } => {
                delays.push(delay_ms);
                if keystroke_fails {
                    cycle.keystroke_done(Err("no input device".to_string()))
                } else {
                    cycle.keystroke_done(Ok(()))
                }
            },
            PasteAction::SettleThenRestore { delay_ms, saved } => {
                delays.push(delay_ms);
                writes.push(saved.clone());
                board = Some(saved);
                cycle.restore_done(Ok(()))
            },
            PasteAction::Finish { outcome } => {
                assert_eq!(cycle.stage(), PasteStage::Done);
                return (outcome, board, writes, delays);
            },
        };
    }
}

#[test]
fn paste_restores_clipboard() {
    let (outcome, board, writes, delays) = run_paste(Some("mine"), "hello", PastePlatform::Windows, false, false);
    assert!(outcome.is_ok());
    assert_eq!(board.as_deref(), Some("mine"));
    assert_eq!(writes, vec!["hello".to_string(), "mine".to_string()]);
    assert_eq!(delays, vec![50, 100]);
}

#[test]
fn failed_keystroke_still_restores_clipboard() {
    let (outcome, board, writes, delays) = run_paste(Some("precious"), "dictated", PastePlatform::Linux, true, false);
    assert!(matches!(outcome, Err(PasteError::Keystroke(ref m)) if m == "no input device"));
    assert_eq!(board.as_deref(), Some("precious"));
    assert_eq!(writes, vec!["dictated".to_string(), "precious".to_string()]);
    assert_eq!(delays, vec![100, 300]);
}

#[test]
fn empty_clipboard_restores_as_empty_text() {
    let (outcome, board, _, delays) = run_paste(None, "x", PastePlatform::MacOs, false, false);
    assert!(outcome.is_ok());
    assert_eq!(board.as_deref(), Some(""));
    assert_eq!(delays, vec![0, 0]);
}

#[test]
fn failed_write_leaves_clipboard_alone() {
    let (outcome, board, writes, _) = run_paste(Some("mine"), "hello", PastePlatform::Windows, false, true);
    assert!(matches!(outcome, Err(PasteError::Write(ref m)) if m == "clipboard busy"));
    assert_eq!(board.as_deref(), Some("mine"));
    assert!(writes.is_empty());
}

#[test]
fn failed_restore_is_reported() {
    let (mut cycle, _) = PasteCycle::new("t".to_string(), PastePlatform::Windows);
    cycle.clipboard_read(Some("old".to_string()));
    cycle.write_done(Ok(()));
    cycle.keystroke_done(Ok(()));
    let a = cycle.restore_done(Err("denied".to_string()));
    assert!(matches!(a, PasteAction::Finish { outcome: Err(PasteError::Restore(ref m)) } if m == "denied"));
}

#[test]
fn hotkey_from_binding() {
    assert_eq!(vk_codes_to_hotkey(&[]), None);
    assert_eq!(vk_codes_to_hotkey(&[0x11, 0x5B]), None);
    assert_eq!(vk_codes_to_hotkey(&[0x11, 0x01]), None);
    assert_eq!(
        vk_codes_to_hotkey(&[0x11, 0x52, 0x10, 0x70]),
        Some(HotkeyCombo { meta: false, ctrl: true, alt: false, shift: true, key: 0x70 })
    );
    assert_eq!(
        vk_codes_to_hotkey(&[0x5B, 0x12, 0x20]),
        Some(HotkeyCombo { meta: true, ctrl: false, alt: true, shift: false, key: 0x20 })
    );
    assert!(vk_has_hotkey_code(0x27));
    assert!(!vk_has_hotkey_code(0x11));
    assert!(!vk_has_hotkey_code(0x05));
}

#[test]
fn registration_follows_configuration() {
    let a = HotkeyCombo { meta: false, ctrl: true, alt: false, shift: false, key: 0x52 };
    let b = HotkeyCombo { meta: false, ctrl: true, alt: false, shift: false, key: 0x53 };
    let plan = plan_registration(Some(a), Some(a));
    assert_eq!(plan, RegistrationPlan { unregister: None, register: None });
    assert_eq!(registered_after(plan, Some(a), true), Some(a));
    let plan = plan_registration(Some(b), Some(a));
    assert_eq!(plan, RegistrationPlan { unregister: Some(a), register: Some(b) });
    assert_eq!(registered_after(plan, Some(a), true), Some(b));
    assert_eq!(registered_after(plan, Some(a), false), None);
    let plan = plan_registration(None, Some(a));
    assert_eq!(plan, RegistrationPlan { unregister: Some(a), register: None });
    assert_eq!(registered_after(plan, Some(a), true), None);
    let plan = plan_registration(Some(a), None);
    assert_eq!(plan, RegistrationPlan { unregister: None, register: Some(a) });
}

#[test]
fn recording_file_names() {
    assert_eq!(wav_file_name(1_700_000_000), "murmure-1700000000.wav");
    assert_eq!(wav_file_name(0), "murmure-0.wav");
    let name = generate_unique_wav_name();
    assert!(name.starts_with("murmure-") && name.ends_with(".wav"));
    let digits = &name["murmure-".len()..name.len() - 4];
    assert!(digits.parse::<u64>().unwrap() > 1_600_000_000);
}

#[test]
fn handoff_success_sweeps_after_delivery() {
    let (mut h, a) = Handoff::new(false);
    assert!(matches!(a, HandoffAction::LoadEngine));
    assert!(matches!(h.engine_ready(Ok(())), HandoffAction::Transcribe));
    let a = h.transcribed(Ok("bonjour".to_string()));
    assert!(matches!(a, HandoffAction::Deliver { ref text } if text == "bonjour"));
    assert!(matches!(h.delivered(), HandoffAction::SweepRecordings));
    assert!(matches!(h.swept(), HandoffAction::Finish { outcome: Ok(()) }));
    assert_eq!(h.stage(), HandoffStage::Done);
}

#[test]
fn handoff_failures_end_without_sweep() {
    let (mut h, _) = Handoff::new(false);
    let a = h.engine_ready(Err("model missing".to_string()));
    assert!(matches!(a, HandoffAction::Finish { outcome: Err(HandoffError::EngineUnavailable(ref m)) } if m == "model missing"));
    let (mut h, a) = Handoff::new(true);
    assert!(matches!(a, HandoffAction::Transcribe));
    let a = h.transcribed(Err("decode".to_string()));
    assert!(matches!(a, HandoffAction::Finish { outcome: Err(HandoffError::TranscriptionFailed(_)) }));
    assert_eq!(h.stage(), HandoffStage::Done);
}
