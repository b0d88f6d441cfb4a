use chatbot::platform::notify::{notification_text, osascript_source};
use chatbot::platform::service::{daemon_health_warnings, join, log_dir_in, log_tail, plist_path_in, unit_path_in};
use chatbot::platform::update::{
    channel_of, pending_notice, releases_url, should_check, upgrade_hint, version_of_tag, Channel,
};

#[test]
fn install_channel_from_path() {
    assert_eq!(channel_of(Some("/opt/homebrew/Cellar/cb/0.2.0/bin/cb")), Channel::Brew);
    assert_eq!(channel_of(Some("/usr/lib/node_modules/@erchoc/chatbot/bin/cb")), Channel::Npm);
    assert_eq!(channel_of(Some("/home/u/.local/bin/cb")), Channel::Curl);
    assert_eq!(channel_of(Some("/tmp/cb")), Channel::Direct);
    assert_eq!(channel_of(None), Channel::Direct);
    assert_eq!(upgrade_hint(Channel::Curl), "cb update");
    assert_eq!(upgrade_hint(Channel::Direct), "从 https://github.com/erchoc/chatbot/releases/latest 下载新二进制");
}

#[test]
fn release_notices() {
    assert_eq!(pending_notice("0.2.5", "0.3.0"), Some("0.3.0".to_string()));
    assert_eq!(pending_notice("0.2.5", "1.0.0"), Some("1.0.0".to_string()));
    assert_eq!(pending_notice("0.2.5", "0.2.9"), None);
    assert_eq!(pending_notice("0.2.5", "garbage"), None);
    assert!(should_check(100, None));
    assert!(!should_check(100, Some(50)));
    assert!(should_check(86_450, Some(50)));
    assert!(!should_check(10, Some(50)));
    assert_eq!(releases_url(false), "https://api.github.com/repos/erchoc/chatbot/releases/latest");
    assert_eq!(releases_url(true), "https://api.github.com/repos/erchoc/chatbot/releases?per_page=1");
    assert_eq!(version_of_tag("v1.2.3"), "1.2.3");
}

#[test]
fn notifications() {
    let (title, body) = notification_text("0.3.0", "cb update");
    assert_eq!(title, "chatbot — 新版本 v0.3.0");
    assert_eq!(body, "运行 cb update 升级");
    assert_eq!(osascript_source("t \"q\"", "b"), r#"display notification "b" with title "t \"q\"""#);
}

#[test]
fn service_paths() {
    assert_eq!(join("/a", "b"), "/a/b");
    assert_eq!(join("/a/", "b"), "/a/b");
    assert_eq!(join("/a", "/b"), "/b");
    assert_eq!(plist_path_in(Some("/Users/u".into())), "/Users/u/Library/LaunchAgents/com.erchoc.chatbot.plist");
    assert_eq!(log_dir_in(None), "~/Library/Logs/chatbot");
    assert_eq!(unit_path_in(None, Some("/home/u".into())), "/home/u/.config/systemd/user/chatbot.service");
    assert_eq!(unit_path_in(Some("/cfg".into()), None), "/cfg/systemd/user/chatbot.service");
}

#[test]
fn daemon_output_tail_and_health() {
    let mut out = String::new();
    for i in 0..100 {
        out.push_str(&format!("line {i}\n"));
    }
    let t = log_tail(&out);
    assert_eq!(t.len(), 80);
    assert_eq!(t[0], "line 20");
    assert!(daemon_health_warnings(&out).is_empty());
    out.push_str("录音失败\n录音失败\n录音失败\n");
    assert_eq!(daemon_health_warnings(&out).len(), 1);
}
