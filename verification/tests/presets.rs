use chatbot::config::presets::{doubao_voices, llm_presets, migrate_voice, DEFAULT_VOICE};

#[test]
fn migrates_known_and_unknown_v1_voices() {
    assert_eq!(migrate_voice("BV700_V2_streaming"), Some(DEFAULT_VOICE));
    assert_eq!(migrate_voice("BV406_V2_streaming"), Some("zh_female_xiaohe_uranus_bigtts"));
    assert_eq!(migrate_voice("BV999_streaming"), Some(DEFAULT_VOICE));
    assert_eq!(migrate_voice("zh_female_xxx_mars_bigtts"), Some(DEFAULT_VOICE));
}

#[test]
fn leaves_v2_and_cloned_voices_alone() {
    assert_eq!(migrate_voice("zh_female_vv_uranus_bigtts"), None);
    assert_eq!(migrate_voice("S_abc123"), None);
    assert_eq!(migrate_voice(""), None);
}

#[test]
fn default_voice_is_in_presets() {
    assert!(doubao_voices().iter().any(|v| v.id == DEFAULT_VOICE));
}

#[test]
fn migrated_voices_are_offered() {
    for old in ["BV700_V2_streaming", "BV406_V2_streaming", "BV001_streaming", "x_mars_bigtts"] {
        let new = migrate_voice(old).unwrap();
        assert!(doubao_voices().iter().any(|v| v.id == new));
    }
}

#[test]
fn anthropic_preset_points_at_its_api() {
    let p = llm_presets();
    assert_eq!(p.len(), 4);
    assert_eq!(p[1].base_url, "https://api.anthropic.com/v1");
    assert!(p[1].needs_key);
}
