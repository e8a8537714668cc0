//! Recording session core of a push-to-talk dictation tool: key-binding
//! codec, hotkey decision logic, session controller, level metering,
//! resampling and the clipboard paste cycle.

pub mod decimal;
pub mod keys;
pub mod key_order;
pub mod binding;
pub mod session;
pub mod meter;
pub mod pcm;
pub mod paste;
pub mod hotkey;
pub mod recording;
pub mod settings;
