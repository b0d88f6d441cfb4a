use chatbot::domain::health::{build_health_warnings, scan_lines_for_mic_failure};

#[test]
fn health_mic_failure_detected_when_tail_shows_retry_loop() {
    let lines = vec![
        "   录音失败: Failed to get default microphone config",
        "   麦克风仍不可用，每 60 秒自动检测，连接后自动恢复...",
        "   录音失败: Failed to get default microphone config",
        "   麦克风仍不可用，每 60 秒自动检测，连接后自动恢复...",
        "   录音失败: Failed to get default microphone config",
    ];
    let (count, last) = scan_lines_for_mic_failure(&lines);
    assert_eq!(count, 5);
    assert!(last);
    assert!(!build_health_warnings(&lines).is_empty());
}

#[test]
fn health_clean_log_produces_no_warning() {
    let lines = vec!["   ● session start s123", "   ✓ LLM OK", "   ✓ 语音 API OK"];
    let (count, _) = scan_lines_for_mic_failure(&lines);
    assert_eq!(count, 0);
    assert!(build_health_warnings(&lines).is_empty());
}

#[test]
fn health_past_failure_flagged_softly_when_recovered() {
    let mut lines = vec![
        "   录音失败: Failed to get default microphone config",
        "   录音失败: Failed to get default microphone config",
        "   录音失败: Failed to get default microphone config",
    ];
    lines.push("   ● session start s999");
    let warnings = build_health_warnings(&lines);
    assert_eq!(warnings.len(), 1);
    assert!(warnings[0].contains("可能已恢复"));
}

#[test]
fn install_mic_failure_detected_when_tail_shows_retry_loop() {
    let lines = vec![
        "   录音失败: Failed to get default microphone config",
        "   麦克风仍不可用，每 60 秒自动检测，连接后自动恢复...",
        "   录音失败: Failed to get default microphone config",
        "   麦克风仍不可用，每 60 秒自动检测，连接后自动恢复...",
        "   录音失败: Failed to get default microphone config",
    ];
    let (count, last) = scan_lines_for_mic_failure(&lines);
    assert_eq!(count, 5);
    assert!(last);
    assert!(!build_health_warnings(&lines).is_empty());
}

#[test]
fn install_clean_log_produces_no_warning() {
    let lines = vec!["   ● session start s123", "   ✓ LLM OK", "   ✓ 语音 API OK"];
    let (count, _) = scan_lines_for_mic_failure(&lines);
    assert_eq!(count, 0);
    assert!(build_health_warnings(&lines).is_empty());
}

#[test]
fn install_past_failure_flagged_softly_when_recovered() {
    let mut lines = vec![
        "   录音失败: Failed to get default microphone config",
        "   录音失败: Failed to get default microphone config",
        "   录音失败: Failed to get default microphone config",
    ];
    lines.push("   ● session start s999");
    let warnings = build_health_warnings(&lines);
    assert_eq!(warnings.len(), 1);
    assert!(warnings[0].contains("可能已恢复"));
}

#[test]
fn persistent_failure_message_names_counts() {
    let lines = vec!["ok", "mic disconnected", "mic calibration failed", "麦克风断开"];
    let warnings = build_health_warnings(&lines);
    assert_eq!(warnings, vec!["麦克风持续不可用（最近 4 行中有 3 条录音失败日志）".to_string()]);
}

#[test]
fn two_failures_are_not_enough() {
    let lines = vec!["mic disconnected", "mic disconnected"];
    assert_eq!(scan_lines_for_mic_failure(&lines), (2, true));
    assert!(build_health_warnings(&lines).is_empty());
    let empty: Vec<&str> = Vec::new();
    assert_eq!(scan_lines_for_mic_failure(&empty), (0, false));
}
