use chatbot::speech::asr::{AsrContext, DialogTurn, Speaker};
use chatbot::speech::doubao::asr::{audio_frames, build_corpus, strip_wav_header, CHUNK_BYTES};

#[test]
fn strips_riff_header_only_when_present() {
    let mut wav = b"RIFF\0\0\0\0WAVE".to_vec();
    wav.resize(44, 0);
    wav.extend_from_slice(&[1, 2, 3]);
    assert_eq!(strip_wav_header(&wav), &[1, 2, 3]);
    assert_eq!(strip_wav_header(&[9, 9]), &[9, 9]);
}

#[test]
fn corpus_serializes_hotwords_and_dialog_as_json_string() {
    let ctx = AsrContext {
        hotwords: vec!["小派".into(), " ".into()],
        dialog: vec![
            DialogTurn { speaker: Speaker::User, text: "你好".into() },
            DialogTurn { speaker: Speaker::Bot, text: "嗨".into() },
        ],
    };
    let corpus_text = build_corpus(&ctx).unwrap();
    let corpus: serde_json::Value = serde_json::from_str(&corpus_text).unwrap();
    let inner: serde_json::Value = serde_json::from_str(corpus["context"].as_str().unwrap()).unwrap();
    let hotwords = inner["hotwords"].as_array().unwrap();
    assert_eq!(hotwords.len(), 1);
    assert_eq!(hotwords[0]["word"], "小派");
    assert_eq!(hotwords[0].as_object().unwrap().len(), 1);
    assert_eq!(inner["context_type"], "dialog_ctx");
    assert_eq!(inner["context_data"][1]["speaker"], "bot");
    assert!(build_corpus(&AsrContext::default()).is_none());
}

#[test]
fn frames_cover_all_audio_in_order() {
    let pcm: Vec<u8> = (0..(CHUNK_BYTES * 2 + 5)).map(|i| (i % 251) as u8).collect();
    let frames = audio_frames(&pcm);
    assert_eq!(frames.len(), 3);
}

#[test]
fn empty_audio_still_sends_a_last_frame() {
    let frames = audio_frames(&[]);
    assert_eq!(frames.len(), 1);
}
