use chatbot::history::{conversation_id, file_name, summarize, Conversation, Turn};

#[test]
fn id_is_compact_timestamp() {
    assert_eq!(conversation_id("2024-05-01T12:34:56Z"), "20240501123456");
    assert_eq!(conversation_id("2024-05-01 12:34"), "202405011234");
    assert_eq!(file_name("20240501123456"), "20240501123456.json");
}

#[test]
fn started_at_uses_utc_timestamp() {
    let c = Conversation::started_at(1_700_000_000);
    assert_eq!(c.created_at, "2023-11-14T22:13:20Z");
    assert_eq!(c.id, "20231114221320");
    assert!(c.turns.is_empty());
}

#[test]
fn summary_previews_first_user_turn() {
    let long: String = "字".repeat(81);
    let conv = Conversation {
        id: "i".into(),
        created_at: "c".into(),
        turns: vec![
            Turn { role: "assistant".into(), content: "hi".into(), timestamp: "t".into() },
            Turn { role: "user".into(), content: long, timestamp: "t".into() },
        ],
    };
    let s = summarize(conv);
    assert_eq!(s.turn_count, 2);
    assert_eq!(s.preview, format!("{}...", "字".repeat(80)));
    let empty = summarize(Conversation { id: "j".into(), created_at: "c".into(), turns: vec![] });
    assert_eq!(empty.preview, "");
}
