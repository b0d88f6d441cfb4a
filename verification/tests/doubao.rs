use chatbot::config::store::DoubaoConfig;
use chatbot::speech::check_provider;
use chatbot::speech::doubao::asr::{connect_error_message, final_transcript, take_frame, wants_text};
use chatbot::speech::doubao::protocol::{FLAG_LAST, MSG_FULL_SERVER, ServerFrame};
use chatbot::speech::doubao::tts::{http_error, reply_lines, tts_request_json};
use chatbot::speech::doubao::{auth_headers, credentials_hint, is_transient_error, next_retry};
use chatbot::speech::tts::TtsOptions;

#[test]
fn api_key_wins_over_app_id() {
    let d = DoubaoConfig { api_key: " k1 ".into(), app_id: "a".into(), access_token: "t".into(), ..Default::default() };
    assert_eq!(auth_headers(&d), vec![("X-Api-Key", "k1".to_string())]);
    let d = DoubaoConfig { app_id: "a".into(), access_token: "t".into(), ..Default::default() };
    assert_eq!(
        auth_headers(&d),
        vec![("X-Api-App-Key", "a".to_string()), ("X-Api-App-Id", "a".to_string()), ("X-Api-Access-Key", "t".to_string())]
    );
}

#[test]
fn transient_errors_and_retries() {
    assert!(is_transient_error("TTS HTTP 502 Bad Gateway"));
    assert!(is_transient_error("error sending request: connection closed"));
    assert!(!is_transient_error("TTS HTTP 401 Unauthorized"));
    assert!(!is_transient_error("bad input"));
    assert_eq!(next_retry(0, true), Some((1, 500)));
    assert_eq!(next_retry(1, true), None);
    assert_eq!(next_retry(0, false), None);
}

#[test]
fn only_doubao_is_supported() {
    assert_eq!(check_provider("doubao"), Ok(()));
    assert_eq!(check_provider("azure"), Err("不支持的语音供应商: azure（目前仅支持 doubao）".to_string()));
}

#[test]
fn asr_results_keep_last_text_until_final_frame() {
    let mut last = String::new();
    let frame = ServerFrame { msg_type: MSG_FULL_SERVER, flags: 1, sequence: Some(1), is_json: true, payload: b"{}".to_vec() };
    assert!(wants_text(&frame));
    assert!(!take_frame(&mut last, &frame, Some(" 你好 ".into())));
    assert!(!take_frame(&mut last, &frame, Some(String::new())));
    assert_eq!(last, " 你好 ");
    let end = ServerFrame { msg_type: MSG_FULL_SERVER, flags: FLAG_LAST, sequence: None, is_json: true, payload: vec![] };
    assert!(take_frame(&mut last, &end, Some("ignored".into())));
    assert_eq!(last, " 你好 ");
    assert_eq!(final_transcript(&last), "你好");
}

#[test]
fn connection_refusals_point_at_credentials() {
    assert_eq!(
        connect_error_message(401, "401 Unauthorized", "L1"),
        format!("ASR 连接被拒 HTTP 401 Unauthorized (x-tt-logid=L1)：{}", credentials_hint())
    );
    assert_eq!(
        connect_error_message(500, "500 Internal Server Error", "-"),
        "ASR WebSocket connection failed: HTTP 500 Internal Server Error (x-tt-logid=-)"
    );
}

#[test]
fn tts_request_body() {
    let opts = TtsOptions { section_id: Some("s1".into()), context_text: None, instruction: None };
    let body = tts_request_json("你好", "v1", -20, &opts, "轻松");
    assert_eq!(
        body,
        r#"{"req_params":{"additions":"{\"context_texts\":[\"轻松\"],\"disable_emoji_filter\":true,\"disable_markdown_filter\":true,\"section_id\":\"s1\"}","audio_params":{"format":"mp3","sample_rate":24000,"speech_rate":-20},"speaker":"v1","text":"你好"},"user":{"uid":"chatbot_cli"}}"#
    );
    let v: serde_json::Value = serde_json::from_str(&body).unwrap();
    assert_eq!(v["req_params"]["speaker"], "v1");
}

#[test]
fn reply_lines_are_trimmed_and_decoded_leniently() {
    let raw = b" {\"code\":0} \r\n\n\xff\xfe\n";
    assert_eq!(reply_lines(raw), vec!["{\"code\":0}".to_string(), "\u{FFFD}\u{FFFD}".to_string()]);
}

#[test]
fn http_errors_quote_the_body() {
    let e = http_error(500, "500 Internal Server Error", "L", b"oops");
    assert_eq!(e.to_string(), "TTS HTTP 500 Internal Server Error (x-tt-logid=L) oops");
    let e = http_error(403, "403 Forbidden", "L", b"no");
    assert_eq!(e.to_string(), format!("TTS HTTP 403 Forbidden (x-tt-logid=L)：{}\nno", credentials_hint()));
}
