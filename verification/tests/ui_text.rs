use chatbot::i18n;
use chatbot::ui::art::Face;
use chatbot::ui::banner::{banner_text, display_width, ready_lines, separator_line};
use chatbot::ui::i18n::{build_system_prompt, get};
use chatbot::ui::select::{drawn_lines, fallback_choice, fallback_prompt, format_option, numbered_rows, SelectOption};
use chatbot::ui::theme::{CYAN, MUTED, RESET};

#[test]
fn widths_count_wide_characters_twice() {
    assert_eq!(display_width("abc"), 3);
    assert_eq!(display_width("你好"), 4);
    assert_eq!(display_width("a你"), 3);
}

#[test]
fn ready_box_pads_rows() {
    let lines = ready_lines(&["ab", "", "你好"]);
    assert_eq!(lines.len(), 6);
    assert_eq!(lines[0], "");
    assert!(lines[2].contains(&format!("ab{RESET}{}", " ".repeat(29))));
    assert!(lines[3].contains(&format!("你好{RESET}{}", " ".repeat(27))));
    assert_eq!(separator_line(), format!("   {MUTED}─────────────────────────────────────{RESET}"));
    assert!(banner_text("1.2.3").contains("v1.2.3"));
}

#[test]
fn selector_rows_and_fallback() {
    let opts = vec![SelectOption::new("One", "h1").with_badge("● 当前"), SelectOption::new("Two", "")];
    assert_eq!(drawn_lines(2), 3);
    assert_eq!(format_option(0, 0, &opts[0]), "   \x1b[96m►\x1b[0m \x1b[1mOne\x1b[0m  \x1b[90mh1\x1b[0m  \x1b[96m● 当前\x1b[0m");
    assert_eq!(format_option(1, 0, &opts[1]), "     \x1b[0mTwo");
    assert_eq!(numbered_rows(&opts), vec!["   1  One".to_string(), "   2  Two".to_string()]);
    assert_eq!(fallback_prompt(0), "   选择 [1]: ");
    assert_eq!(fallback_choice("2\n", 2, 0), 1);
    assert_eq!(fallback_choice("\n", 2, 1), 1);
    assert_eq!(fallback_choice("9", 2, 0), 0);
    assert_eq!(fallback_choice("x", 2, 1), 1);
    assert!(SelectOption::new("a", "b").with_badge("").badge.is_none());
}

#[test]
fn texts_by_language() {
    assert_eq!(get("en").listening, "Listening...");
    assert_ne!(get("zh").listening, get("en").listening);
    assert_eq!(get("fr").listening, get("en").listening);
    assert_eq!(i18n::get("en").starting, "Starting voice assistant (cb)");
    let p = build_system_prompt("zh", "小派", true, "嘿小派");
    assert!(p.contains("小派"));
}

#[test]
fn faces() {
    assert!(Face::idle().contains(CYAN));
    assert!(!Face::think_frames().is_empty());
    assert!(!Face::listen_frames().is_empty());
    assert!(Face::error().contains("✖"));
}
