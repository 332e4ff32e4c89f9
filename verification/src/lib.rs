//! Dictation helper library: configuration, hotkey grammar, WAV framing,
//! the transcription pipeline's decisions and the settings dialog's state.
use vstd::prelude::*;

pub mod audio;
pub mod config;
pub mod hotkey;
pub mod session;
pub mod settings_dialog;
pub mod text;
pub mod tray;
pub mod tray_balloon;

verus! {
} // verus!
