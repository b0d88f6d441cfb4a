use chatbot::domain::sentence::{is_speakable, SentenceBuffer};

#[test]
fn splits_on_full_stop_not_comma() {
    let mut b = SentenceBuffer::new();
    assert_eq!(b.push("今天"), None);
    assert_eq!(b.push("天气，"), None);
    assert_eq!(b.push("不错。"), Some("今天天气，不错。".into()));
    assert_eq!(b.push("再见"), None);
    assert_eq!(b.flush(), Some("再见".into()));
    assert_eq!(b.flush(), None);
}

#[test]
fn speakable_requires_two_alnum_chars() {
    assert!(!is_speakable("。"));
    assert!(!is_speakable("呢"));
    assert!(is_speakable("好的"));
    assert!(is_speakable("ok"));
}

#[test]
fn sentence_is_trimmed_and_buffer_cleared() {
    let mut b = SentenceBuffer::new();
    assert_eq!(b.push("  嗯。"), Some("嗯。".into()));
    assert_eq!(b.flush(), None);
    assert_eq!(b.push("Hi there! "), Some("Hi there!".into()));
    assert_eq!(b.push("   "), None);
    assert_eq!(b.flush(), None);
}
