use dictaphile::config::ModeConfig;
use dictaphile::settings_dialog::{
    command_parts, is_modifier_vkey, layout_settings, logical_size, min_track_size, scale,
    size_parts, take_result, unscale, SettingsResult, SettingsState, DEFAULT_HOTKEY,
};

#[test]
fn dpi_scale_at_100pct_is_identity() {
    assert_eq!(scale(100, 96), 100);
    assert_eq!(scale(480, 96), 480);
    assert_eq!(scale(290, 96), 290);
    assert_eq!(scale(0,   96), 0);
}

#[test]
fn dpi_scale_at_200pct_doubles() {
    assert_eq!(scale(100, 192), 200);
    assert_eq!(scale(480, 192), 960);
    assert_eq!(scale(290, 192), 580);
}

#[test]
fn dpi_scale_at_150pct() {
    assert_eq!(scale(100, 144), 150);
    assert_eq!(scale(480, 144), 720);
}

#[test]
fn dpi_scale_round_trips_via_unscale() {
    for dpi in [96u32, 120, 144, 192] {
        let logical = 480i32;
        let physical = scale(logical, dpi);
        // physical * 96 / dpi should recover logical
        assert_eq!(physical * 96 / dpi as i32, logical, "dpi={dpi}");
        assert_eq!(unscale(physical, dpi), logical, "dpi={dpi}");
    }
}

#[test]
fn dpi_scale_zero_input() {
    for dpi in [96u32, 120, 144, 192] {
        assert_eq!(scale(0, dpi), 0, "dpi={dpi}");
    }
}

#[test]
fn dpi_scale_large_realistic_value() {
    // 8K display width (7680 logical px) at common DPI settings
    assert_eq!(scale(7680, 96),  7680);
    assert_eq!(scale(7680, 192), 15360);
    assert_eq!(scale(7680, 144), 11520);
}

#[test]
fn scaling_truncates_toward_zero() {
    assert_eq!(scale(-1, 120), -1);
    assert_eq!(scale(1, 120), 1);
    assert_eq!(scale(-100, 144), -150);
    assert_eq!(unscale(-7, 192), -3);
    assert_eq!(logical_size(960, 192), 480);
}

#[test]
fn layout_at_150pct() {
    let l = layout_settings(720, 435, 144);
    assert_eq!((l.instruction.x, l.instruction.y, l.instruction.w, l.instruction.h), (18, 18, 684, 27));
    assert_eq!((l.combo.y, l.combo.h), (177, 180));
    assert_eq!((l.add_btn.x, l.del_btn.x), (18 + 114, 18 + 228));
    assert_eq!((l.apply_btn.y, l.cancel_btn.x), (435 - 18 - 39, 18 + 270));
    assert_eq!((l.endpoint_label.x, l.endpoint_label.y, l.endpoint_label.w, l.endpoint_label.h), (18, 276, 144, 27));
    assert_eq!((l.endpoint_edit.x, l.endpoint_edit.y, l.endpoint_edit.w, l.endpoint_edit.h), (168, 270, 534, 36));
    assert_eq!(min_track_size(144), (495, 405));
}

#[test]
fn message_parameters_decode() {
    assert_eq!(command_parts(0x0008_0069), (105, 8));
    assert_eq!(size_parts(0x0123_0456), (0x456, 0x123));
    assert!(is_modifier_vkey(0x11));
    assert!(!is_modifier_vkey(0x52));
}

fn mode(name: &str, prompt: &str) -> ModeConfig {
    ModeConfig { name: name.to_string(), prompt: prompt.to_string() }
}

#[test]
fn dialog_edits_modes() {
    let mut st = SettingsState::new("Alt+R", vec![mode("A", "a\n"), mode("B", "b")], "B", "http://a/api");
    assert_eq!(st.selection(), 1);
    assert_eq!(st.capture_hotkey(true, false, true, "K"), "Ctrl+Shift+K");
    assert_eq!(st.edit_fields(0), ("A".to_string(), "a\r\n".to_string()));
    assert!(st.save_edit(usize::MAX, "C", "x\r\ny"));
    assert_eq!(st.modes[2], mode("C", "x\ny"));
    assert_eq!(st.selection(), 2);
    assert!(!st.save_edit(0, "", "ignored"));
    assert_eq!(st.delete_mode(0), Some(0));
    assert_eq!(st.pending_mode, "B");
    st.select_mode(1);
    assert_eq!(st.pending_mode, "C");
    st.select_mode(usize::MAX);
    assert_eq!(st.pending_mode, "C");
    st.reset_hotkey();
    let r = st.apply();
    assert_eq!((r.hotkey.as_str(), r.mode_name.as_str()), (DEFAULT_HOTKEY, "C"));
    assert_eq!(r.modes, vec![mode("B", "b"), mode("C", "x\ny")]);
    assert_eq!(r.ollama_url, "http://a/api");
}

#[test]
fn dialog_hands_on_the_typed_endpoint() {
    let mut st = SettingsState::new("F1", vec![mode("A", "")], "A", "http://localhost:11434/api/generate");
    assert_eq!(st.apply().ollama_url, "http://localhost:11434/api/generate");
    st.set_ollama_url("http://gpu-box:11434/api/generate");
    st.reset_hotkey();
    st.select_mode(0);
    assert!(st.save_edit(0, "B", "p"));
    let r = st.apply();
    assert_eq!(r.ollama_url, "http://gpu-box:11434/api/generate");
    assert_eq!((r.hotkey.as_str(), r.mode_name.as_str()), (DEFAULT_HOTKEY, "B"));
}

#[test]
fn last_mode_is_never_deleted() {
    let mut st = SettingsState::new("F1", vec![mode("Only", "")], "Only", "");
    assert_eq!(st.delete_mode(0), None);
    assert_eq!(st.modes.len(), 1);
}

#[test]
fn result_slot_is_taken_once() {
    let mut slot = Some(SettingsResult {
        hotkey: "F2".to_string(),
        mode_name: String::new(),
        modes: Vec::new(),
        ollama_url: String::new(),
    });
    assert_eq!(take_result(&mut slot).map(|r| r.hotkey), Some("F2".to_string()));
    assert!(take_result(&mut slot).is_none());
}

#[test]
fn unchanged_edit_keeps_modes() {
    let modes = vec![mode("A", "line one\nline two\r\n\rx\n"), mode("B", "")];
    let mut st = SettingsState::new("F1", modes.clone(), "B", "http://h/api");
    let (name, shown) = st.edit_fields(0);
    assert_eq!(shown, "line one\r\nline two\r\r\n\rx\r\n");
    assert!(st.save_edit(0, &name, &shown));
    assert_eq!(st.modes, modes);
    assert_eq!(st.pending_mode, "A");
    assert_eq!(st.pending_url, "http://h/api");
}
