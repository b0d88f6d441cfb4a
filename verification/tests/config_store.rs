use chatbot::config::store::{
    guess_provider_name, is_real_value, AppConfig, ConfigError, EnvOverrides, LegacyLlmConfig,
    LegacyWakeWordConfig, LlmProfile,
};

fn profile(name: &str, key: &str) -> LlmProfile {
    LlmProfile {
        name: name.into(),
        base_url: "https://api.openai.com/v1".into(),
        model: "gpt-4o".into(),
        api_key: key.into(),
    }
}

fn no_env() -> EnvOverrides {
    EnvOverrides {
        ai_api_key: None,
        ai_base_url: None,
        ai_model: None,
        doubao_api_key: None,
        doubao_app_id: None,
        doubao_access_token: None,
        doubao_asr_resource_id: None,
        doubao_tts_resource_id: None,
        doubao_voice_type: None,
        doubao_voice_instruction: None,
        doubao_tts_url: None,
        doubao_asr_url: None,
    }
}

#[test]
fn placeholders_are_not_real_values() {
    assert!(is_real_value("sk-abc"));
    assert!(!is_real_value(""));
    assert!(!is_real_value("your-key"));
    assert!(!is_real_value("sk-xxx"));
    assert!(!is_real_value("placeholder"));
}

#[test]
fn provider_names_from_urls() {
    assert_eq!(guess_provider_name("https://api.deepseek.com"), "DeepSeek");
    assert_eq!(guess_provider_name("https://api.anthropic.com/v1"), "Anthropic");
    assert_eq!(guess_provider_name("https://api.openai.com/v1"), "OpenAI");
    assert_eq!(guess_provider_name("https://api.groq.com/openai/v1"), "OpenAI");
    assert_eq!(guess_provider_name("http://127.0.0.1:11434/v1"), "Ollama");
    assert_eq!(guess_provider_name("https://example.com"), "Custom");
}

#[test]
fn legacy_fields_fold_into_current_structure() {
    let mut cfg = AppConfig {
        locale: Some("en".into()),
        llm: Some(LegacyLlmConfig {
            api_key: "sk-real".into(),
            base_url: "https://api.deepseek.com/".into(),
            model: "deepseek-chat".into(),
        }),
        wake_word: Some(LegacyWakeWordConfig { enabled: false, word_en: "hey bot".into(), word_zh: "".into() }),
        ..AppConfig::default()
    };
    cfg.migrate_legacy();
    assert_eq!(cfg.persona.language, "en");
    assert_eq!(cfg.llm_profiles.len(), 1);
    assert_eq!(cfg.llm_profiles[0].name, "DeepSeek");
    assert_eq!(cfg.llm_profiles[0].base_url, "https://api.deepseek.com/v1");
    assert_eq!(cfg.active_llm, "DeepSeek");
    assert!(!cfg.persona.wake_word.enabled);
    assert_eq!(cfg.persona.wake_word.word, "hey bot");
    assert!(cfg.locale.is_none() && cfg.llm.is_none() && cfg.wake_word.is_none());
}

#[test]
fn migration_twice_is_migration_once() {
    let mut cfg = AppConfig {
        active_llm: "gone".into(),
        llm_profiles: vec![profile("A", "k1"), profile("B", "k2")],
        ..AppConfig::default()
    };
    cfg.migrate_legacy();
    assert_eq!(cfg.active_llm, "A");
    let once = cfg.clone();
    cfg.migrate_legacy();
    assert_eq!(cfg.active_llm, once.active_llm);
    assert_eq!(cfg.llm_profiles.len(), once.llm_profiles.len());
}

#[test]
fn validation_names_what_is_missing() {
    let mut cfg = AppConfig::default();
    assert_eq!(cfg.validate(), Err(ConfigError::NoProfile));
    assert_eq!(ConfigError::NoProfile.to_string(), "No LLM profile configured. Run `cb config`");
    cfg.llm_profiles.push(profile("Mine", ""));
    assert_eq!(cfg.validate(), Err(ConfigError::MissingKey("Mine".into())));
    assert_eq!(
        ConfigError::MissingKey("Mine".into()).to_string(),
        "LLM API key not set for profile 'Mine'. Run `cb config`"
    );
    cfg.llm_profiles[0].api_key = "sk-1".into();
    assert_eq!(cfg.validate(), Err(ConfigError::MissingSpeechCredentials));
    cfg.speech.doubao.api_key = "key".into();
    assert_eq!(cfg.validate(), Ok(()));
    assert!(cfg.is_complete());
}

#[test]
fn active_profile_falls_back_to_first() {
    let mut cfg = AppConfig { llm_profiles: vec![profile("A", "k1"), profile("B", "k2")], ..AppConfig::default() };
    cfg.active_llm = "B".into();
    assert_eq!(cfg.active_llm_index(), Some(1));
    cfg.active_llm = "nope".into();
    assert_eq!(cfg.active_llm_index(), Some(0));
    assert_eq!(cfg.active_llm_config().unwrap().api_key, "k1");
}

#[test]
fn environment_patches_active_profile_and_speech() {
    let mut cfg = AppConfig { llm_profiles: vec![profile("A", "k1")], active_llm: "A".into(), ..AppConfig::default() };
    let mut env = no_env();
    env.ai_model = Some("m2".into());
    env.doubao_app_id = Some("app".into());
    cfg.apply_env_overrides(&env);
    assert_eq!(cfg.llm_profiles[0].model, "m2");
    assert_eq!(cfg.llm_profiles[0].api_key, "k1");
    assert_eq!(cfg.speech.doubao.app_id, "app");
    let before = cfg.clone();
    cfg.apply_env_overrides(&no_env());
    assert_eq!(cfg.llm_profiles[0].model, before.llm_profiles[0].model);
}

#[test]
fn speech_credentials_either_pair() {
    let mut cfg = AppConfig::default();
    assert!(!cfg.speech.doubao.has_credentials());
    cfg.speech.doubao.app_id = "id".into();
    assert!(!cfg.speech.doubao.has_credentials());
    cfg.speech.doubao.access_token = "tok".into();
    assert!(cfg.speech.doubao.has_credentials());
}

#[test]
fn environment_creates_profile_when_none() {
    let mut cfg = AppConfig::default();
    assert!(cfg.llm_profiles.is_empty());
    let mut env = no_env();
    env.ai_api_key = Some("k1".into());
    env.ai_base_url = Some("https://api.example.com/v1".into());
    env.ai_model = Some("m1".into());
    let speech_before = cfg.speech.clone();
    cfg.apply_env_overrides(&env);
    assert_eq!(cfg.llm_profiles.len(), 1);
    assert_eq!(cfg.llm_profiles[0].api_key, "k1");
    assert_eq!(cfg.llm_profiles[0].base_url, "https://api.example.com/v1");
    assert_eq!(cfg.llm_profiles[0].model, "m1");
    assert_eq!(cfg.llm_profiles[0].name, "Custom");
    assert_eq!(cfg.active_llm, "Custom");
    assert_eq!(cfg.speech.doubao.app_id, speech_before.doubao.app_id);
    assert_eq!(cfg.active_llm_config().unwrap().model, "m1");
}

#[test]
fn default_wake_word_is_hey_xiaopai() {
    assert_eq!(AppConfig::default().persona.wake_word.word, "嘿小派");
}
