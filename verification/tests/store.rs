use chatbot::config::presets::DEFAULT_VOICE;
use chatbot::config::store::DoubaoConfig;

#[test]
fn migrate_v1_values_to_v2() {
    let mut d = DoubaoConfig {
        asr_resource_id: "volc.bigasr.sauc.duration".into(),
        tts_resource_id: "volc.service_type.10029".into(),
        tts_url: "https://openspeech.bytedance.com/api/v1/tts".into(),
        asr_url: "wss://openspeech.bytedance.com/api/v3/sauc/bigmodel".into(),
        voice_type: "BV700_V2_streaming".into(),
        ..Default::default()
    };
    d.migrate_to_v2();
    assert_eq!(d.asr_resource_id, "volc.seedasr.sauc.duration");
    assert_eq!(d.tts_resource_id, "seed-tts-2.0");
    assert!(d.tts_url.ends_with("/api/v3/tts/unidirectional"));
    assert!(d.asr_url.ends_with("/sauc/bigmodel_async"));
    assert_eq!(d.voice_type, DEFAULT_VOICE);
}

#[test]
fn migrate_is_idempotent_and_keeps_cloned_voices() {
    let mut d = DoubaoConfig { voice_type: "S_abc123".into(), ..Default::default() };
    let before = d.clone();
    d.migrate_to_v2();
    assert_eq!(d.voice_type, before.voice_type);
    assert_eq!(d.asr_resource_id, before.asr_resource_id);
}

#[test]
fn migrating_twice_changes_nothing_more() {
    let mut d = DoubaoConfig {
        asr_resource_id: "volc.bigasr.sauc.concurrent".into(),
        tts_resource_id: "seed-tts-1.0-concurr".into(),
        voice_type: "zh_female_cancan_mars_bigtts".into(),
        ..Default::default()
    };
    d.migrate_to_v2();
    assert_eq!(d.asr_resource_id, "volc.seedasr.sauc.concurrent");
    assert_eq!(d.tts_resource_id, "seed-tts-2.0");
    assert_eq!(d.voice_type, "zh_female_cancan_uranus_bigtts");
    let once = d.clone();
    d.migrate_to_v2();
    assert_eq!(d.asr_resource_id, once.asr_resource_id);
    assert_eq!(d.tts_resource_id, once.tts_resource_id);
    assert_eq!(d.tts_url, once.tts_url);
    assert_eq!(d.asr_url, once.asr_url);
    assert_eq!(d.voice_type, once.voice_type);
}
