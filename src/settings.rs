//! Persisted settings and the validation of a binding the user enters.
use vstd::prelude::*;
use crate::keys::{format_keys, keys_to_string, parse_binding, parse_binding_keys};

verus! {

/// What is kept between runs.
pub struct AppSettings {
    /// Binding of the record shortcut.
    pub shortcut: String,
    /// Binding that pastes the last transcription again; empty when disabled.
    pub last_transcript_shortcut: String,
}

impl Default for AppSettings {
    fn default() -> (r: Self)
        ensures
            r.shortcut@ == "win+ctrl"@,
            r.last_transcript_shortcut@ == Seq::<char>::empty(),
    {
        AppSettings { shortcut: String::from_str("win+ctrl"), last_transcript_shortcut: String::new() }
    }
}

/// A binding that names no known key.
#[derive(Clone, Copy, Debug, PartialEq, Eq, Structural)]
pub enum ShortcutError {
    InvalidShortcut,
}

/// A binding the user entered, checked: its keys and its canonical string,
/// or an error when it names no known key.
pub fn normalize_shortcut(binding: &str) -> (r: Result<(Vec<i32>, String), ShortcutError>)
    ensures
        r is Err <==> parse_binding(binding@).len() == 0,
        r matches Ok((keys, text)) ==> keys@ == parse_binding(binding@) && text@ == format_keys(
            parse_binding(binding@),
        ),
{
    let keys = parse_binding_keys(binding);
    if keys.len() == 0 {
        return Err(ShortcutError::InvalidShortcut);
    }
    let text = keys_to_string(keys.as_slice());
    Ok((keys, text))
}

} // verus!
