use chatbot::cmd::config::{
    activate_profile, add_profile, apply_setting, confirm_line, delete_profile, edited_secret, initial_selection,
    is_maskable, is_showable, key_after_prompt, mask_key, needs_llm_setup, optional_input, parse_setting, show_lines,
    shown_active,
    upsert_profile, SetError, Setting,
};
use chatbot::config::store::{AppConfig, LlmProfile};
use chatbot::ui::theme::{BOLD, BR_GREEN, RESET};

fn profile(name: &str, key: &str) -> LlmProfile {
    LlmProfile { name: name.into(), base_url: "u".into(), model: "m".into(), api_key: key.into() }
}

#[test]
fn secrets_are_masked() {
    assert_eq!(mask_key(""), "");
    assert_eq!(mask_key("ollama"), "ollama");
    assert_eq!(mask_key("abc"), "***");
    assert_eq!(mask_key("12345678"), "********");
    assert_eq!(mask_key("sk-1234567890abcd"), "sk-1...abcd");
    assert!(is_maskable("sk-1234567890abcd"));
    assert!(!is_maskable("密钥密钥密钥"));
}

#[test]
fn settings_parse() {
    assert!(matches!(parse_setting("persona.name", "Jarvis"), Ok(Setting::Name(n)) if n == "Jarvis"));
    assert!(matches!(parse_setting("locale", "en"), Ok(Setting::Language(l)) if l == "en"));
    assert!(matches!(parse_setting("persona.language", "fr"), Err(SetError::BadLanguage)));
    assert!(matches!(parse_setting("wake_word.enabled", "on"), Ok(Setting::WakeEnabled(true))));
    assert!(matches!(parse_setting("persona.wake_word.enabled", "no"), Ok(Setting::WakeEnabled(false))));
    assert!(matches!(parse_setting("speech.doubao.tts_speed", "1.5"), Ok(Setting::TtsSpeed(s)) if s == "1.5"));
    let err = parse_setting("llm.model", "x").err().unwrap();
    assert!(matches!(&err, SetError::Unknown(k) if k == "llm.model"));
    assert!(err.to_string().starts_with("未知 key: llm.model\n可用: persona.name"));
    assert_eq!(SetError::BadLanguage.to_string(), "language 必须是 'en' 或 'zh'");
}

#[test]
fn settings_apply() {
    let mut cfg = AppConfig::default();
    apply_setting(&mut cfg, Setting::Name("Jarvis".into()));
    apply_setting(&mut cfg, Setting::WakeWord("Hey Jarvis".into()));
    apply_setting(&mut cfg, Setting::VoiceType("v2".into()));
    assert_eq!(cfg.persona.name, "Jarvis");
    assert_eq!(cfg.persona.wake_word.word, "Hey Jarvis");
    assert_eq!(cfg.speech.doubao.voice_type, "v2");
    assert_eq!(confirm_line("persona.name", "Jarvis"), format!("   {BR_GREEN}✓{RESET}  persona.name = {BOLD}Jarvis{RESET}"));
}

#[test]
fn profile_editing() {
    let mut cfg = AppConfig::default();
    assert!(needs_llm_setup(&cfg));
    upsert_profile(&mut cfg, profile("A", "k1"));
    upsert_profile(&mut cfg, profile("A", "k2"));
    assert_eq!(cfg.llm_profiles.len(), 1);
    assert_eq!(cfg.llm_profiles[0].api_key, "k2");
    assert!(!needs_llm_setup(&cfg));
    add_profile(&mut cfg, profile("B", "k3"));
    assert_eq!(cfg.active_llm, "B");
    assert_eq!(initial_selection(&cfg), 1);
    assert!(shown_active(&cfg, 1) && !shown_active(&cfg, 0));
    activate_profile(&mut cfg, 0);
    assert_eq!(cfg.active_llm, "A");
    assert!(delete_profile(&mut cfg, 0));
    assert_eq!(cfg.active_llm, "B");
    assert!(!delete_profile(&mut cfg, 0));
    assert_eq!(cfg.llm_profiles.len(), 1);
    assert!(shown_active(&cfg, 0));
}

#[test]
fn secret_prompts() {
    assert_eq!(key_after_prompt("old", None), "old");
    assert_eq!(key_after_prompt("old", Some("new".into())), "new");
    assert_eq!(edited_secret("sk-1234567890abcd", None), "sk-1234567890abcd");
    assert_eq!(edited_secret("sk-1234567890abcd", Some("sk-1...abcd".into())), "sk-1234567890abcd");
    assert_eq!(edited_secret("sk-1234567890abcd", Some("sk-new".into())), "sk-new");
}

#[test]
fn show_lists_profiles_and_speech() {
    let mut cfg = AppConfig::default();
    cfg.llm_profiles.push(profile("A", "sk-1234567890abcd"));
    cfg.active_llm = "A".into();
    assert!(is_showable(&cfg));
    let lines = show_lines(&cfg, "1.3");
    assert!(lines.iter().any(|l| l.contains("sk-1...abcd")));
    assert!(lines.iter().any(|l| l.contains("1.3x")));
    assert!(lines.iter().any(|l| l.contains("~/.config/chatbot/config.toml")));
    assert!(!lines.iter().any(|l| l.contains("sk-1234567890abcd")));
}

#[test]
fn optional_input_blank_keeps_current() {
    assert_eq!(optional_input("\n"), None);
    assert_eq!(optional_input("   \t\r\n"), None);
    assert_eq!(optional_input(""), None);
    assert_eq!(optional_input("  sk-new \n"), Some("sk-new".to_string()));
    assert_eq!(optional_input("嘿 小派\n"), Some("嘿 小派".to_string()));
}
