use chatbot::domain::wake::{decide_at, WakeDecision, WakeState, WAKE_DURATION_MS};
use chatbot::pipeline::voice::{
    asr_context, assistant_record, initial_history, instruction_option, last_reply, message, mic_polling,
    next_calibration_backoff, next_mic_backoff, plan_turn_at, session_id_for, update_notice_line, TurnPlan,
};
use chatbot::speech::asr::Speaker;
use chatbot::ui::theme::{BOLD, BR_CYAN, RESET};

#[test]
fn mic_backoff_doubles_up_to_a_minute() {
    let mut b = 0;
    let mut seen = vec![];
    for _ in 0..8 {
        b = next_mic_backoff(b);
        seen.push(b);
    }
    assert_eq!(seen, vec![1, 2, 4, 8, 16, 32, 60, 60]);
    assert!(!mic_polling(32));
    assert!(mic_polling(60));
    assert_eq!(next_calibration_backoff(1), 2);
    assert_eq!(next_calibration_backoff(40), 60);
}

#[test]
fn turn_plans() {
    let mut st = WakeState::Sleeping;
    assert!(matches!(plan_turn_at(&mut st, 0, true, "嘿小派", "嗯"), TurnPlan::TooShort));
    assert!(matches!(plan_turn_at(&mut st, 0, true, "嘿小派", "几点了"), TurnPlan::Ignored));
    assert!(matches!(plan_turn_at(&mut st, 10, true, "嘿小派", "嘿小派"), TurnPlan::WokeOnly));
    assert_eq!(st, WakeState::Awake { expires_at: 10 + WAKE_DURATION_MS });
    match plan_turn_at(&mut st, 20, true, "嘿小派", "讲个笑话") {
        TurnPlan::Chat(t) => assert_eq!(t, "讲个笑话"),
        _ => panic!("expected chat"),
    }
    assert!(matches!(plan_turn_at(&mut st, 30, true, "嘿小派", "退下吧"), TurnPlan::Deactivated));
    assert_eq!(st, WakeState::Sleeping);
    match plan_turn_at(&mut st, 40, true, "嘿小派", "嘿小派，几点了") {
        TurnPlan::WokeAndChat(t) => assert_eq!(t, "几点了"),
        _ => panic!("expected wake and chat"),
    }
}

#[test]
fn wake_expires_after_the_period() {
    let mut st = WakeState::Sleeping;
    assert_eq!(decide_at(&mut st, 1_000, true, "小派", "小派你好"), WakeDecision::JustWoke("你好".into()));
    assert!(st.is_awake_at(1_000 + WAKE_DURATION_MS - 1));
    assert!(!st.is_awake_at(1_000 + WAKE_DURATION_MS));
    // Asleep again after the period: the plain question is ignored.
    assert_eq!(decide_at(&mut st, 1_000 + WAKE_DURATION_MS, true, "小派", "再来一个"), WakeDecision::Ignore);
}

#[test]
fn interrupted_replies_keep_what_was_said() {
    assert_eq!(assistant_record("全文", "", false), "全文");
    assert_eq!(assistant_record("全文", "  ", true), "（还没来得及回答就被用户打断了）");
    assert_eq!(assistant_record("全文", " 前半句 ", true), "前半句（说到这里被用户打断了）");
}

#[test]
fn recognition_context_from_history() {
    let mut history = initial_history("zh", "小派", true, "嘿小派");
    assert_eq!(history.len(), 1);
    assert_eq!(history[0].role, "system");
    for i in 0..4 {
        history.push(message("user", &format!("问{i}")));
        history.push(message("assistant", &format!("答{i}")));
    }
    let ctx = asr_context("小派", true, "嘿小派", &history);
    assert_eq!(ctx.hotwords, vec!["小派".to_string(), "嘿小派".to_string()]);
    assert_eq!(ctx.dialog.len(), 6);
    assert_eq!(ctx.dialog[0].text, "问1");
    assert_eq!(ctx.dialog[0].speaker, Speaker::User);
    assert_eq!(ctx.dialog[5].speaker, Speaker::Bot);
    let same = asr_context("小派", true, "小派", &history);
    assert_eq!(same.hotwords, vec!["小派".to_string()]);
    assert_eq!(last_reply(&history), "答3");
}

#[test]
fn small_texts() {
    assert_eq!(session_id_for(1_700_000_000), "s1700000000");
    assert_eq!(instruction_option("  "), None);
    assert_eq!(instruction_option("温柔地说"), Some("温柔地说".to_string()));
    assert_eq!(
        update_notice_line("0.3.0", "cb update"),
        format!("   {BR_CYAN}⬆  发现新版本 v0.3.0，运行 {BOLD}cb update{RESET}{BR_CYAN} 升级{RESET}")
    );
}

#[test]
fn wake_near_clock_end_saturates_and_lasts() {
    let mut st = WakeState::Sleeping;
    st.renew_at(5);
    assert_eq!(st, WakeState::Sleeping);
    st.wake_at(u64::MAX - 10);
    assert_eq!(st, WakeState::Awake { expires_at: u64::MAX });
    assert!(st.is_awake_at(u64::MAX - 1));
    assert!(!st.is_awake_at(u64::MAX));
    st.wake_at(1_000);
    assert!(st.is_awake_at(1_000 + WAKE_DURATION_MS - 1));
    assert!(!st.is_awake_at(1_000 + WAKE_DURATION_MS));
    st.renew_at(2_000);
    assert_eq!(st, WakeState::Awake { expires_at: 2_000 + WAKE_DURATION_MS });
}
