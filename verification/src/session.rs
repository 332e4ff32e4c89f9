//! Decisions of the application's event loop: the starting mode, the prompt of
//! the active mode, the tray tooltip, what a press of the recording hotkey does,
//! and what an applied settings dialog changes.
use vstd::prelude::*;
use global_hotkey::hotkey::HotKey;
use crate::config::{ModeConfig, modes_view};
use crate::hotkey::{hotkey_for, parse_hotkey, parse_hotkey_spec};
use crate::settings_dialog::{find_mode, first_mode, SettingsResult};
use crate::text::{chars_of, push_all, string_of};

verus! {

/// Tray status while recording.
pub const RECORDING_STATUS: &'static str = "Recording...";

/// Tray status while the recording is framed and transcribed.
pub const PROCESSING_STATUS: &'static str = "Processing...";

/// Tray status shown when the microphone cannot be opened.
pub const MICROPHONE_ERROR: &'static str = "Microphone error";

/// What a press of the recording hotkey does.
#[derive(Clone, Copy, Debug, PartialEq, Eq, Structural)]
pub enum HotkeyPress {
    /// Open the microphone and start a recording.
    StartRecording,
    /// Stop the running recording and process it.
    StopAndProcess,
}

/// A press stops the recording that is running, else starts one.
pub fn on_hotkey_press(recording: bool) -> (r: HotkeyPress)
    ensures
        r == (if recording {
            HotkeyPress::StopAndProcess
        } else {
            HotkeyPress::StartRecording
        }),
{
    if recording {
        HotkeyPress::StopAndProcess
    } else {
        HotkeyPress::StartRecording
    }
}

/// The tray status after a press: a started recording shows the recording status,
/// a microphone that could not be opened the microphone error, a stop the
/// processing status (`started` is read only for a start).
pub fn status_after_press(press: HotkeyPress, started: bool) -> (r: &'static str)
    ensures
        r@ == match press {
            HotkeyPress::StartRecording => if started {
                RECORDING_STATUS@
            } else {
                MICROPHONE_ERROR@
            },
            HotkeyPress::StopAndProcess => PROCESSING_STATUS@,
        },
{
    match press {
        HotkeyPress::StartRecording => if started {
            RECORDING_STATUS
        } else {
            MICROPHONE_ERROR
        },
        HotkeyPress::StopAndProcess => PROCESSING_STATUS,
    }
}

/// The mode active at start: the configured one, else the first listed, else none.
pub open spec fn initial_mode_spec(
    distill_mode: Option<Seq<char>>,
    modes: Seq<(Seq<char>, Seq<char>)>,
) -> Seq<char> {
    match distill_mode {
        Some(m) => m,
        None => if modes.len() > 0 {
            modes[0].0
        } else {
            Seq::<char>::empty()
        },
    }
}

/// The mode active at start (see `initial_mode_spec`).
pub fn initial_mode(distill_mode: Option<&str>, modes: &[ModeConfig]) -> (r: String)
    ensures
        r@ == initial_mode_spec(
            match distill_mode {
                Some(m) => Some(m@),
                None => None,
            },
            modes_view(modes@),
        ),
{
    match distill_mode {
        Some(m) => m.to_owned(),
        None => if modes.len() > 0 {
            modes[0].name.clone()
        } else {
            String::new()
        },
    }
}

/// The prompt of the first mode named `mode_name`, else the configuration's prompt.
pub open spec fn active_prompt_spec(
    modes: Seq<(Seq<char>, Seq<char>)>,
    mode_name: Seq<char>,
    fallback: Seq<char>,
) -> Seq<char> {
    match first_mode(modes, mode_name) {
        Some(i) => modes[i].1,
        None => fallback,
    }
}

/// The prompt that the active mode puts before the transcript.
pub fn active_prompt(modes: &[ModeConfig], mode_name: &str, fallback: &str) -> (r: String)
    ensures
        r@ == active_prompt_spec(modes_view(modes@), mode_name@, fallback@),
{
    match find_mode(modes, mode_name) {
        Some(i) => modes[i].prompt.clone(),
        None => fallback.to_owned(),
    }
}

/// The tray tooltip while idle.
pub open spec fn idle_tooltip_spec(hotkey: Seq<char>) -> Seq<char> {
    "Dictaship \u{2013} "@ + hotkey + " to record"@
}

/// The tray tooltip while idle, naming the hotkey.
pub fn idle_tooltip(hotkey: &str) -> (r: String)
    ensures
        r@ == idle_tooltip_spec(hotkey@),
{
    let mut v = chars_of("Dictaship \u{2013} ");
    let h = chars_of(hotkey);
    push_all(&mut v, h.as_slice());
    let t = chars_of(" to record");
    push_all(&mut v, t.as_slice());
    string_of(v.as_slice())
}

/// The tray tooltip: the status where there is one, else the idle text.
pub fn tooltip_for(status: Option<&str>, hotkey: &str) -> (r: String)
    ensures
        r@ == match status {
            Some(s) => s@,
            None => idle_tooltip_spec(hotkey@),
        },
{
    match status {
        Some(s) => s.to_owned(),
        None => idle_tooltip(hotkey),
    }
}

/// What an applied settings dialog changes: the hotkey where its text parses
/// (with that text), the active mode and the LLM endpoint always, the modes where
/// the list is not empty.
pub struct SettingsUpdate {
    pub hotkey: Option<(HotKey, String)>,
    pub mode_name: String,
    pub modes: Option<Vec<ModeConfig>>,
    pub ollama_url: String,
}

/// Plans the changes of an applied settings dialog (see `SettingsUpdate`).
pub fn plan_settings_update(result: SettingsResult) -> (r: SettingsUpdate)
    ensures
        (r.hotkey is Some) == (parse_hotkey_spec(result.hotkey@) is Some),
        r.hotkey matches Some((k, text)) ==> text@ == result.hotkey@ && k == hotkey_for(
            parse_hotkey_spec(result.hotkey@).unwrap(),
        ),
        r.mode_name@ == result.mode_name@,
        (r.modes is Some) == (result.modes@.len() > 0),
        r.modes matches Some(m) ==> modes_view(m@) == modes_view(result.modes@),
        r.ollama_url@ == result.ollama_url@,
{
    let SettingsResult { hotkey, mode_name, modes, ollama_url } = result;
    let parsed = match parse_hotkey(hotkey.as_str()) {
        Some(k) => Some((k, hotkey)),
        None => None,
    };
    let new_modes = if modes.len() > 0 {
        Some(modes)
    } else {
        None
    };
    SettingsUpdate { hotkey: parsed, mode_name, modes: new_modes, ollama_url }
}

} // verus!
