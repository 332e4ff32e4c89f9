use global_hotkey::hotkey::{Code, HotKey, Modifiers};
use dictaphile::hotkey::{apply_hotkey, parse_hotkey, parse_hotkey_keys, HotkeySpec, KeyCode};

#[test]
fn alt_q_parses() {
    assert!(parse_hotkey("Alt+Q").is_some());
}

#[test]
fn ctrl_alt_r_parses() {
    assert!(parse_hotkey("Ctrl+Alt+R").is_some());
}

#[test]
fn function_keys_parse() {
    assert!(parse_hotkey("F9").is_some());
    assert!(parse_hotkey("F12").is_some());
}

#[test]
fn unknown_key_fails() {
    assert!(parse_hotkey("Alt+7").is_none());
    assert!(parse_hotkey("Foo+Q").is_none());
    assert!(parse_hotkey("").is_none());
}

#[test]
fn default_hotkey_is_valid() {
    assert!(parse_hotkey(dictaphile::settings_dialog::DEFAULT_HOTKEY).is_some());
}

#[test]
fn hotkey_parsing_is_case_insensitive() {
    let lower = parse_hotkey("ctrl+alt+r").unwrap();
    let mixed = parse_hotkey("Ctrl+Alt+R").unwrap();
    assert_eq!(lower.id(), mixed.id());
}

#[test]
fn win_modifier_parses() {
    assert!(parse_hotkey("Win+R").is_some());
    assert!(parse_hotkey("Meta+R").is_some());
    // Both spellings produce the same hotkey
    assert_eq!(
        parse_hotkey("Win+R").unwrap().id(),
        parse_hotkey("Meta+R").unwrap().id(),
    );
}

#[test]
fn bare_key_without_modifier_parses() {
    assert!(parse_hotkey("Q").is_some());
    assert!(parse_hotkey("F5").is_some());
}

#[test]
fn parsed_hotkey_matches_global_hotkey() {
    let k = parse_hotkey(" Ctrl + shift +f10 ").unwrap();
    let expected = HotKey::new(Some(Modifiers::CONTROL | Modifiers::SHIFT), Code::F10);
    assert_eq!(k.id(), expected.id());
    assert_eq!(parse_hotkey("Alt+R").unwrap().id(), HotKey::new(Some(Modifiers::ALT), Code::KeyR).id());
}

#[test]
fn grammar_edge_cases() {
    let spec = |s: &str| parse_hotkey_keys(s);
    assert_eq!(
        spec("control+Z"),
        Some(HotkeySpec { ctrl: true, alt: false, shift: false, meta: false, key: KeyCode::Letter(25) })
    );
    assert_eq!(spec("F13"), None);
    assert_eq!(spec("F0"), None);
    assert_eq!(spec("F01"), None);
    assert_eq!(spec("Alt+"), None);
    assert_eq!(spec("Alt+Q+R"), None);
    assert_eq!(spec("ı").map(|h| h.key), Some(KeyCode::Letter(8)));
    assert_eq!(spec("Shift+ſ").map(|h| (h.shift, h.key)), Some((true, KeyCode::Letter(18))));
}

#[test]
fn save_hotkey_replaces_existing_line() {
    let content = "whisper_url = \"x\"\nhotkey = \"Alt+R\"\nllm_model = \"y\"";
    let result = apply_hotkey(content, "Alt+W");
    assert!(result.contains("hotkey = \"Alt+W\""), "new key present");
    assert!(!result.contains("Alt+R"),             "old key removed");
    assert!(result.contains("whisper_url"),        "other fields preserved");
    assert!(result.contains("llm_model"),          "other fields preserved");
    let hotkey_lines = result.lines().filter(|l| l.trim_start().starts_with("hotkey")).count();
    assert_eq!(hotkey_lines, 1, "exactly one hotkey line");
}

#[test]
fn save_hotkey_appends_when_missing() {
    let content = "whisper_url = \"x\"\nllm_model = \"y\"";
    let result = apply_hotkey(content, "Alt+W");
    assert!(result.contains("hotkey = \"Alt+W\""), "hotkey appended");
    assert!(result.contains("whisper_url"),        "other fields preserved");
    assert!(result.contains("llm_model"),          "other fields preserved");
    let hotkey_lines = result.lines().filter(|l| l.trim_start().starts_with("hotkey")).count();
    assert_eq!(hotkey_lines, 1, "exactly one hotkey line");
}

#[test]
fn apply_hotkey_exact_output() {
    assert_eq!(
        apply_hotkey("a = 1\r\n  hotkey = \"X\"\nb = 2\n", "F5"),
        "a = 1\r\nhotkey = \"F5\"\r\nb = 2"
    );
    assert_eq!(apply_hotkey("a = 1\n\n \t", "F5"), "a = 1\nhotkey = \"F5\"\n");
    assert_eq!(apply_hotkey("", "Q"), "\nhotkey = \"Q\"\n");
}
