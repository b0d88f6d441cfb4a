use chatbot::domain::wake::{decide, is_deactivation, strip_wake_word, WakeDecision, WakeState};

#[test]
fn exact_match_strips_wake_word_and_punctuation() {
    assert_eq!(strip_wake_word("嘿小派，今天天气怎么样", "嘿小派"), Some("今天天气怎么样".into()));
    assert_eq!(strip_wake_word("嘿小派", "嘿小派"), Some("".into()));
}

#[test]
fn pinyin_match_handles_homophones() {
    assert_eq!(strip_wake_word("黑小派 几点了", "嘿小派"), Some("几点了".into()));
}

#[test]
fn no_match_returns_none() {
    assert_eq!(strip_wake_word("今天天气怎么样", "嘿小派"), None);
    assert_eq!(strip_wake_word("随便说说", ""), None);
}

#[test]
fn deactivation_phrases() {
    assert!(is_deactivation("好了，退下吧"));
    assert!(is_deactivation("Stop listening!"));
    assert!(!is_deactivation("讲个笑话"));
}

#[test]
fn state_machine_flow() {
    let mut st = WakeState::Sleeping;
    assert_eq!(decide(&mut st, true, "嘿小派", "几点了"), WakeDecision::Ignore);
    assert_eq!(decide(&mut st, true, "嘿小派", "嘿小派几点了"), WakeDecision::JustWoke("几点了".into()));
    assert!(st.is_awake());
    assert_eq!(decide(&mut st, true, "嘿小派", "再讲一个"), WakeDecision::Proceed("再讲一个".into()));
    assert_eq!(decide(&mut st, true, "嘿小派", "退下"), WakeDecision::Deactivate);
    assert!(!st.is_awake());
    assert_eq!(decide(&mut st, false, "嘿小派", "几点了"), WakeDecision::Proceed("几点了".into()));
}

#[test]
fn asleep_utterance_leaves_state_asleep() {
    let mut st = WakeState::Sleeping;
    assert_eq!(decide(&mut st, true, "嘿小派", "退下"), WakeDecision::Ignore);
    assert!(!st.is_awake());
}
