use chatbot::llm::{chat_request_json, completions_url, ChatMessage, SseDecoder};

#[test]
fn completions_url_trims_trailing_slashes() {
    assert_eq!(completions_url("https://api.deepseek.com/v1//"), "https://api.deepseek.com/v1/chat/completions");
    assert_eq!(completions_url("http://x"), "http://x/chat/completions");
}

#[test]
fn request_body_is_the_documented_json() {
    let msgs = vec![
        ChatMessage { role: "system".into(), content: "be \"brief\"".into() },
        ChatMessage { role: "user".into(), content: "你好".into() },
    ];
    let body = chat_request_json("m1", &msgs);
    assert_eq!(
        body,
        r#"{"max_tokens":1000,"messages":[{"content":"be \"brief\"","role":"system"},{"content":"你好","role":"user"}],"model":"m1","stream":true}"#
    );
    let v: serde_json::Value = serde_json::from_str(&body).unwrap();
    assert_eq!(v["messages"][1]["content"], "你好");
}

#[test]
fn sse_tokens_across_chunk_boundaries() {
    let mut d = SseDecoder::new();
    let a = d.feed(b"data: {\"choices\":[{\"delta\":{\"content\":\"He\"}}]}\ndata: {\"choi");
    assert_eq!(a, vec!["He".to_string()]);
    let b = d.feed(b"ces\":[{\"delta\":{\"content\":\"llo\"}}]}\n: keep-alive\n");
    assert_eq!(b, vec!["llo".to_string()]);
    assert!(!d.is_finished());
    let c = d.feed(b"data: [DONE]\ndata: {\"choices\":[{\"delta\":{\"content\":\"x\"}}]}\n");
    assert!(c.is_empty());
    assert!(d.is_finished());
    assert!(d.feed(b"data: {\"choices\":[{\"delta\":{\"content\":\"y\"}}]}\n").is_empty());
}

#[test]
fn request_body_escapes_controls_and_backslashes() {
    let msgs = vec![ChatMessage { role: "user".into(), content: "a\\b\n\t\r\u{8}\u{c}\u{1}\u{1f}\u{7f}é".into() }];
    let body = chat_request_json("m", &msgs);
    assert_eq!(
        body,
        "{\"max_tokens\":1000,\"messages\":[{\"content\":\"a\\\\b\\n\\t\\r\\b\\f\\u0001\\u001f\u{7f}é\",\"role\":\"user\"}],\"model\":\"m\",\"stream\":true}"
    );
}
