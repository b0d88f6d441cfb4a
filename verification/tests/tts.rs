use chatbot::speech::doubao::tts::{build_instruction, collect_audio, TtsChunk};
use chatbot::speech::tts::TtsOptions;

#[test]
fn instruction_combines_style_and_context() {
    let none = build_instruction(&TtsOptions::default());
    assert!(none.is_empty());
    let full = build_instruction(&TtsOptions {
        instruction: Some("自然地说".into()),
        context_text: Some("  今天心情不好 ".into()),
        section_id: None,
    });
    assert!(full.starts_with("自然地说，"));
    assert!(full.contains("「今天心情不好」"));
}

#[test]
fn collect_audio_decodes_pieces_in_order() {
    let chunks = vec![
        Some(TtsChunk { code: 0, message: String::new(), data: Some("AAE=".into()) }),
        None,
        Some(TtsChunk { code: 20000000, message: "ok".into(), data: Some("AgM=".into()) }),
        Some(TtsChunk { code: 0, message: String::new(), data: None }),
    ];
    assert_eq!(collect_audio(&chunks, "L").unwrap(), vec![0, 1, 2, 3]);
}

#[test]
fn collect_audio_reports_error_code_and_logid() {
    let chunks = vec![Some(TtsChunk { code: 3001, message: "bad voice".into(), data: None })];
    let err = collect_audio(&chunks, "log-1").unwrap_err().to_string();
    assert_eq!(err, "TTS error code=3001 msg=bad voice (x-tt-logid=log-1)");
}

#[test]
fn collect_audio_rejects_bad_base64_and_empty_reply() {
    let bad = vec![Some(TtsChunk { code: 0, message: String::new(), data: Some("!!".into()) })];
    assert!(collect_audio(&bad, "x").unwrap_err().to_string().starts_with("TTS audio base64 decode failed: "));
    let empty: Vec<Option<TtsChunk>> = vec![None];
    assert_eq!(collect_audio(&empty, "z").unwrap_err().to_string(), "TTS 返回空音频 (x-tt-logid=z)");
}

#[test]
fn instruction_with_only_context() {
    let s = build_instruction(&TtsOptions {
        instruction: None,
        context_text: Some("好".into()),
        section_id: None,
    });
    assert!(s.contains("「好」"));
    assert!(!s.starts_with("，"));
}
