use chatbot::cmd::wizard::{preset_badge, preset_model};
use chatbot::config::store::{AppConfig, LlmProfile};

fn with_profile(name: &str, model: &str) -> AppConfig {
    AppConfig {
        llm_profiles: vec![LlmProfile {
            name: name.into(),
            base_url: "https://api.deepseek.com/v1".into(),
            model: model.into(),
            api_key: "sk-1".into(),
        }],
        active_llm: name.into(),
        ..AppConfig::default()
    }
}

#[test]
fn badge_marks_configured_providers() {
    let cfg = with_profile("DeepSeek", "deepseek-reasoner");
    assert_eq!(preset_badge(&cfg, "DeepSeek"), "已配置");
    assert_eq!(preset_badge(&cfg, "OpenAI"), "");
    assert_eq!(preset_badge(&AppConfig::default(), "DeepSeek"), "");
}

#[test]
fn model_offered_is_existing_or_default() {
    let cfg = with_profile("DeepSeek", "deepseek-reasoner");
    assert_eq!(preset_model(&cfg, "DeepSeek", "deepseek-chat"), "deepseek-reasoner");
    assert_eq!(preset_model(&cfg, "OpenAI", "gpt-4o"), "gpt-4o");
}
