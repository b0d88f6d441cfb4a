use chatbot::cmd::install::{
    daemon_status, is_dev_binary, launchd_plist, pids_to_kill, smoke_test_failure, systemd_unit, usage_lines,
    DaemonStatus,
};
use chatbot::cmd::open::{content_type, not_found, request_path, response_head, route, Route};
use chatbot::cmd::update::{artifact_for, download_url, package_manager_command, update_step, UpdateStep};
use chatbot::platform::update::Channel;

#[test]
fn request_paths_and_routes() {
    assert_eq!(request_path("GET /api/history HTTP/1.1\r\nHost: x\r\n\r\n"), "/api/history");
    assert_eq!(request_path(""), "/");
    assert_eq!(request_path("GET"), "/");
    assert_eq!(route("/"), Route::Index);
    assert_eq!(route("/index.html"), Route::Index);
    assert_eq!(route("/api/history"), Route::HistoryList);
    assert_eq!(route("/api/history/2024"), Route::HistoryItem("2024".into()));
    assert_eq!(route("/nope"), Route::NotFound);
    assert_eq!(not_found(&Route::NotFound), ("404 Not Found", "text/plain", "Not Found"));
    assert_eq!(not_found(&Route::HistoryItem("x".into())), ("404 Not Found", "application/json", r#"{"error":"not found"}"#));
    assert_eq!(content_type(&Route::Index), "text/html; charset=utf-8");
    assert_eq!(content_type(&Route::HistoryList), "application/json; charset=utf-8");
    assert_eq!(
        response_head("200 OK", "text/plain", 12),
        "HTTP/1.1 200 OK\r\nContent-Type: text/plain\r\nContent-Length: 12\r\nAccess-Control-Allow-Origin: *\r\nConnection: close\r\n\r\n"
    );
}

#[test]
fn update_decisions() {
    assert_eq!(update_step("0.2.0", "v0.2.0", false), UpdateStep::UpToDate);
    assert_eq!(update_step("0.2.1-beta.1", "v0.2.0", false), UpdateStep::AheadOfStable);
    assert_eq!(update_step("0.1.0", "v0.2.0", false), UpdateStep::Install { reinstall: false });
    assert_eq!(update_step("0.2.0", "v0.2.0", true), UpdateStep::Install { reinstall: true });
    assert_eq!(update_step("0.3.0", "v0.2.0", true), UpdateStep::Install { reinstall: false });
    assert_eq!(package_manager_command(Channel::Brew), Some("brew upgrade erchoc/tap/cb"));
    assert_eq!(package_manager_command(Channel::Npm), Some("npm install -g @erchoc/chatbot@latest"));
    assert_eq!(package_manager_command(Channel::Curl), None);
    assert_eq!(artifact_for("macos", "aarch64"), Ok("cb-macos-universal"));
    assert_eq!(artifact_for("linux", "aarch64"), Ok("cb-linux-arm64"));
    assert_eq!(artifact_for("windows", "x86_64"), Err("不支持的平台: windows/x86_64".to_string()));
    assert_eq!(
        download_url("v0.2.0", "cb-linux-x86_64"),
        "https://github.com/erchoc/chatbot/releases/download/v0.2.0/cb-linux-x86_64"
    );
}

#[test]
fn service_files() {
    let unit = systemd_unit("/usr/local/bin/cb");
    assert!(unit.contains("ExecStart=/usr/local/bin/cb chat\n"));
    assert!(unit.starts_with("[Unit]\nDescription=Chatbox voice assistant daemon\n"));
    let plist = launchd_plist("/bin/cb", "/l/out.log", "/l/err.log");
    assert!(plist.contains("<string>/bin/cb</string>"));
    assert!(plist.contains("<key>StandardErrorPath</key>\n    <string>/l/err.log</string>"));
    assert!(is_dev_binary("/home/u/x/target/debug/cb"));
    assert!(!is_dev_binary("/usr/local/bin/cb"));
}

#[test]
fn leftover_processes_and_status() {
    assert_eq!(pids_to_kill("12\n 34 \nabc\n99\n", 99), vec!["12".to_string(), "34".to_string()]);
    assert_eq!(daemon_status(true, false), DaemonStatus::Running);
    assert_eq!(daemon_status(false, true), DaemonStatus::InstalledStopped);
    assert_eq!(daemon_status(false, false), DaemonStatus::NotInstalled);
    assert_eq!(usage_lines(false, "x"), vec!["  \x1b[1m使用方式:\x1b[0m  直接说话即可对话".to_string()]);
    assert_eq!(usage_lines(true, "小派").len(), 2);
}

#[test]
fn smoke_test_rolls_back_on_mic_loop() {
    assert_eq!(smoke_test_failure(&["ok", "录音失败: x"]), None);
    let msg = smoke_test_failure(&["a", "b", "c", "录音失败: 1", "d", "录音失败: 2"]).unwrap();
    assert!(msg.starts_with("Daemon started but mic is unavailable under launchd.\n"));
    assert!(msg.ends_with("守护进程 stderr 最后几行:\nb\nc\n录音失败: 1\nd\n录音失败: 2"));
}
