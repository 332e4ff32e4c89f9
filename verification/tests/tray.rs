use dictaphile::session::{
    active_prompt, idle_tooltip, initial_mode, on_hotkey_press, plan_settings_update,
    status_after_press, tooltip_for, HotkeyPress,
};
use dictaphile::config::ModeConfig;
use dictaphile::settings_dialog::SettingsResult;
use dictaphile::tray::{icon_rgba, status_color};
use dictaphile::tray_balloon::{clear, show, wide, wide_truncate};

#[test]
fn wide_truncate_short_string() {
    let buf = wide_truncate("Hi", 8);
    assert_eq!(buf[0], b'H' as u16);
    assert_eq!(buf[1], b'i' as u16);
    assert_eq!(buf[2], 0);
}

#[test]
fn wide_truncate_empty_string() {
    let buf = wide_truncate("", 8);
    assert!(buf.iter().all(|&c| c == 0));
}

#[test]
fn wide_truncate_clips_and_null_terminates() {
    // 4-element buffer: max 3 chars + NUL
    let buf = wide_truncate("ABCDEF", 4);
    assert_eq!(buf[0], b'A' as u16);
    assert_eq!(buf[1], b'B' as u16);
    assert_eq!(buf[2], b'C' as u16);
    assert_eq!(buf[3], 0);
}

#[test]
fn wide_encodes_utf16_with_nul() {
    let expected: Vec<u16> = "Dictaphile – 😀".encode_utf16().chain([0]).collect();
    assert_eq!(wide("Dictaphile – 😀"), expected);
    assert_eq!(wide_truncate("😀x", 2), vec![0xD83D, 0]);
}

#[test]
fn balloon_fields() {
    let b = show(0x1234, "Recording...").unwrap();
    assert_eq!((b.message, b.hwnd, b.id, b.flags, b.info_flags), (1, 0x1234, 1, 0x10, 0x10));
    assert_eq!(b.info.len(), 256);
    assert_eq!(&b.info[..13], &wide("Recording...")[..]);
    assert_eq!(b.title.len(), 64);
    assert_eq!(&b.title[..9], &wide("Partizan")[..]);
    let c = clear(0x1234).unwrap();
    assert_eq!((c.hwnd, c.id, c.flags), (0x1234, 1, 0x10));
    assert!(c.info.iter().all(|&u| u == 0));
}

#[test]
fn no_balloon_without_a_tray_window() {
    assert!(show(0, "Recording...").is_none());
    assert!(clear(0).is_none());
}

#[test]
fn status_colors() {
    assert_eq!(status_color(Some("Recording...")), (239, 68, 68));
    assert_eq!(status_color(Some("Processing...")), (251, 146, 60));
    assert_eq!(status_color(Some("Distilling...")), (168, 85, 247));
    assert_eq!(status_color(Some("Paste failed")), (34, 197, 94));
    assert_eq!(status_color(None), (34, 197, 94));
}

#[test]
fn icon_is_a_disc() {
    let px = icon_rgba(1, 2, 3);
    assert_eq!(px.len(), 32 * 32 * 4);
    let at = |x: usize, y: usize| &px[(y * 32 + x) * 4..(y * 32 + x) * 4 + 4];
    assert_eq!(at(16, 16), &[1, 2, 3, 255]);
    assert_eq!(at(1, 16), &[1, 2, 3, 255]);
    assert_eq!(at(0, 16), &[0, 0, 0, 0]);
    assert_eq!(at(0, 0), &[0, 0, 0, 0]);
    assert_eq!(at(27, 27), &[0, 0, 0, 0]);
    assert_eq!(at(26, 26), &[1, 2, 3, 255]);
}

fn mode(name: &str, prompt: &str) -> ModeConfig {
    ModeConfig { name: name.to_string(), prompt: prompt.to_string() }
}

#[test]
fn session_decisions() {
    let modes = vec![mode("A", "pa"), mode("B", "pb"), mode("B", "pb2")];
    assert_eq!(initial_mode(Some("B"), &modes), "B");
    assert_eq!(initial_mode(None, &modes), "A");
    assert_eq!(initial_mode(None, &[]), "");
    assert_eq!(active_prompt(&modes, "B", "fallback"), "pb");
    assert_eq!(active_prompt(&modes, "Z", "fallback"), "fallback");
    assert_eq!(idle_tooltip("Alt+R"), "Dictaship – Alt+R to record");
    assert_eq!(tooltip_for(Some("Processing..."), "Alt+R"), "Processing...");
    assert_eq!(tooltip_for(None, "F9"), "Dictaship – F9 to record");
}

#[test]
fn settings_update_plan() {
    let u = plan_settings_update(SettingsResult {
        hotkey: "Ctrl+Q".to_string(),
        mode_name: "A".to_string(),
        modes: vec![mode("A", "pa")],
        ollama_url: "http://gpu-box:11434/api/generate".to_string(),
    });
    assert_eq!(u.hotkey.as_ref().map(|(_, t)| t.as_str()), Some("Ctrl+Q"));
    assert_eq!(u.mode_name, "A");
    assert_eq!(u.modes.map(|m| m.len()), Some(1));
    assert_eq!(u.ollama_url, "http://gpu-box:11434/api/generate");
    let u = plan_settings_update(SettingsResult {
        hotkey: "Ctrl+?".to_string(),
        mode_name: "A".to_string(),
        modes: Vec::new(),
        ollama_url: String::new(),
    });
    assert!(u.hotkey.is_none());
    assert!(u.modes.is_none());
}

#[test]
fn hotkey_press_toggles_recording() {
    assert_eq!(on_hotkey_press(false), HotkeyPress::StartRecording);
    assert_eq!(on_hotkey_press(true), HotkeyPress::StopAndProcess);
    assert_eq!(status_after_press(HotkeyPress::StartRecording, true), "Recording...");
    assert_eq!(status_after_press(HotkeyPress::StartRecording, false), "Microphone error");
    assert_eq!(status_after_press(HotkeyPress::StopAndProcess, true), "Processing...");
}
