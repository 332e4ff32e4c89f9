use dictaphile::config::{
    complete_modes, default_modes, save_distill_mode_to_config, save_modes_to_config,
    save_ollama_url_to_config, save_settings_size_to_config, settings_size_of, Config, ModeConfig, DEFAULT_SETTINGS_H,
    DEFAULT_SETTINGS_W, PASSTHROUGH_MODE_NAME,
};

fn base_config() -> Config {
    Config {
        whisper_url: "http://localhost:8080/v1/audio/transcriptions".to_string(),
        ollama_url: "http://localhost:11434/api/generate".to_string(),
        whisper_model: "whisper-large-turbo".to_string(),
        llm_model: "qwen2.5:7b-instruct".to_string(),
        hotkey: None,
        prompt: "Fix grammar.\n\n---\n".to_string(),
        distill_mode: None,
        modes: Vec::new(),
        settings_w: None,
        settings_h: None,
    }
}

fn mode(name: &str, prompt: &str) -> ModeConfig {
    ModeConfig { name: name.to_string(), prompt: prompt.to_string() }
}

#[test]
fn default_modes_uses_legacy_prompt() {
    let modes = default_modes("my-prompt");
    assert_eq!(modes[0].name, "Prompt");
    assert_eq!(modes[0].prompt, "my-prompt");
    assert!(modes.len() >= 2);
}

#[test]
fn default_modes_includes_passthrough() {
    let modes = default_modes("prompt");
    assert!(modes.iter().any(|m| m.name == PASSTHROUGH_MODE_NAME));
    let pt = modes.iter().find(|m| m.name == PASSTHROUGH_MODE_NAME).unwrap();
    assert!(pt.prompt.is_empty());
}

#[test]
fn default_modes_are_exact() {
    let modes = default_modes("p");
    assert_eq!(modes.len(), 3);
    assert_eq!(modes[1].name, "Clean text");
    assert_eq!(
        modes[1].prompt,
        "Remove all filler words, interjections, and hesitations. Fix punctuation. Output ONLY the cleaned text.\n\n---\n"
    );
    assert_eq!(modes[2].name, "Verbatim");
}

#[test]
fn completing_empty_modes_gives_defaults() {
    let mut cfg = base_config();
    complete_modes(&mut cfg);
    assert_eq!(cfg.modes, default_modes("Fix grammar.\n\n---\n"));
}

#[test]
fn completing_adds_passthrough_when_missing() {
    let mut cfg = base_config();
    cfg.modes = vec![mode("Distill", "Fix grammar.\n")];
    complete_modes(&mut cfg);
    assert_eq!(cfg.modes, vec![mode("Distill", "Fix grammar.\n"), mode(PASSTHROUGH_MODE_NAME, "")]);
}

#[test]
fn completing_does_not_duplicate_passthrough() {
    let mut cfg = base_config();
    cfg.modes = vec![mode("Distill", "Fix grammar.\n"), mode("Verbatim", "")];
    complete_modes(&mut cfg);
    let count = cfg.modes.iter().filter(|m| m.name == PASSTHROUGH_MODE_NAME).count();
    assert_eq!(count, 1);
    assert_eq!(cfg.modes.len(), 2);
    complete_modes(&mut cfg);
    assert_eq!(cfg.modes.len(), 2);
}

#[test]
fn saving_fields_keeps_the_rest() {
    let mut cfg = base_config();
    save_distill_mode_to_config(&mut cfg, "Translate to English");
    save_modes_to_config(&mut cfg, &[mode("A", "a"), mode("B", "b")]);
    save_settings_size_to_config(&mut cfg, 500, 350);
    assert_eq!(cfg.distill_mode.as_deref(), Some("Translate to English"));
    assert_eq!(cfg.modes, vec![mode("A", "a"), mode("B", "b")]);
    assert_eq!((cfg.settings_w, cfg.settings_h), (Some(500), Some(350)));
    assert_eq!(cfg.llm_model, "qwen2.5:7b-instruct");
    assert_eq!(cfg.whisper_url, "http://localhost:8080/v1/audio/transcriptions");
    assert_eq!(cfg.hotkey, None);
}

#[test]
fn saved_settings_size_is_loaded() {
    assert_eq!(settings_size_of(None), (DEFAULT_SETTINGS_W, DEFAULT_SETTINGS_H));
    let mut cfg = base_config();
    assert_eq!(settings_size_of(Some(&cfg)), (480, 290));
    cfg.settings_w = Some(640);
    assert_eq!(settings_size_of(Some(&cfg)), (640, 290));
    save_settings_size_to_config(&mut cfg, 500, 350);
    assert_eq!(settings_size_of(Some(&cfg)), (500, 350));
}

#[test]
fn saving_the_endpoint_keeps_the_rest() {
    let mut cfg = base_config();
    cfg.hotkey = Some("Alt+X".to_string());
    save_ollama_url_to_config(&mut cfg, "http://gpu-box:11434/api/generate");
    assert_eq!(cfg.ollama_url, "http://gpu-box:11434/api/generate");
    assert_eq!(cfg.whisper_url, "http://localhost:8080/v1/audio/transcriptions");
    assert_eq!(cfg.llm_model, "qwen2.5:7b-instruct");
    assert_eq!(cfg.hotkey.as_deref(), Some("Alt+X"));
    assert_eq!(cfg.modes, Vec::<ModeConfig>::new());
    assert_eq!((cfg.settings_w, cfg.settings_h), (None, None));
}
