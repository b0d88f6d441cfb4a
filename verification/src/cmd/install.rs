//! `cb install` / `cb uninstall` / `cb status`: the service files the
//! daemon is installed with, the start-up smoke test, which leftover
//! processes to stop, and what the user is told. Running launchctl,
//! systemctl and codesign stays with the program.
use vstd::prelude::*;

use crate::domain::health::{count_failures, lines_view, scan_lines_for_mic_failure};
use crate::platform::service::SERVICE_LABEL;
use crate::text::{chars_of, has_infix, lines, lines_of, owned, parse_u32, parse_u32_chars, str_contains, trim, trim_str};

verus! {

/// The description written into the service files.
pub const DAEMON_DESC: &'static str = "Chatbox voice assistant daemon";

/// The launchd job: run `<bin> chat` at load, keep it alive, send its
/// output to the log files, interactive priority.
pub open spec fn plist_spec(bin: Seq<char>, stdout_log: Seq<char>, stderr_log: Seq<char>) -> Seq<char> {
    "<?xml version=\"1.0\" encoding=\"UTF-8\"?>\n<!DOCTYPE plist PUBLIC \"-//Apple//DTD PLIST 1.0//EN\" \"http://www.apple.com/DTDs/PropertyList-1.0.dtd\">\n<plist version=\"1.0\">\n<dict>\n    <key>Label</key>\n    <string>"@
    + SERVICE_LABEL@
    + "</string>\n    <key>Comment</key>\n    <string>"@
    + DAEMON_DESC@
    + "</string>\n    <key>ProgramArguments</key>\n    <array>\n        <string>"@
    + bin
    + "</string>\n        <string>chat</string>\n    </array>\n    <key>RunAtLoad</key>\n    <true/>\n    <key>KeepAlive</key>\n    <true/>\n    <key>StandardOutPath</key>\n    <string>"@
    + stdout_log
    + "</string>\n    <key>StandardErrorPath</key>\n    <string>"@
    + stderr_log
    + "</string>\n    <key>ProcessType</key>\n    <string>Interactive</string>\n</dict>\n</plist>"@
}

pub fn launchd_plist(bin: &str, stdout_log: &str, stderr_log: &str) -> (r: String)
    ensures
        r@ == plist_spec(bin@, stdout_log@, stderr_log@),
{
    let mut s = String::new();
    s.append("<?xml version=\"1.0\" encoding=\"UTF-8\"?>\n<!DOCTYPE plist PUBLIC \"-//Apple//DTD PLIST 1.0//EN\" \"http://www.apple.com/DTDs/PropertyList-1.0.dtd\">\n<plist version=\"1.0\">\n<dict>\n    <key>Label</key>\n    <string>");
    s.append(SERVICE_LABEL);
    s.append("</string>\n    <key>Comment</key>\n    <string>");
    s.append(DAEMON_DESC);
    s.append("</string>\n    <key>ProgramArguments</key>\n    <array>\n        <string>");
    s.append(bin);
    s.append("</string>\n        <string>chat</string>\n    </array>\n    <key>RunAtLoad</key>\n    <true/>\n    <key>KeepAlive</key>\n    <true/>\n    <key>StandardOutPath</key>\n    <string>");
    s.append(stdout_log);
    s.append("</string>\n    <key>StandardErrorPath</key>\n    <string>");
    s.append(stderr_log);
    s.append("</string>\n    <key>ProcessType</key>\n    <string>Interactive</string>\n</dict>\n</plist>");
    assert(s@ =~= plist_spec(bin@, stdout_log@, stderr_log@));
    s
}

/// The systemd user unit: `<bin> chat`, restarted five seconds after any
/// exit, started with the default target once sound is up.
pub open spec fn unit_spec(bin: Seq<char>) -> Seq<char> {
    "[Unit]\nDescription="@
    + DAEMON_DESC@
    + "\nAfter=default.target sound.target\n\n[Service]\nType=simple\nExecStart="@
    + bin
    + " chat\nRestart=always\nRestartSec=5\n\n[Install]\nWantedBy=default.target\n"@
}

pub fn systemd_unit(bin: &str) -> (r: String)
    ensures
        r@ == unit_spec(bin@),
{
    let mut s = String::new();
    s.append("[Unit]\nDescription=");
    s.append(DAEMON_DESC);
    s.append("\nAfter=default.target sound.target\n\n[Service]\nType=simple\nExecStart=");
    s.append(bin);
    s.append(" chat\nRestart=always\nRestartSec=5\n\n[Install]\nWantedBy=default.target\n");
    assert(s@ =~= unit_spec(bin@));
    s
}

/// The entitlements the binary is signed with on macOS: microphone input.
pub fn entitlements_plist() -> (r: &'static str)
    ensures
        r@ == "<?xml version=\"1.0\" encoding=\"UTF-8\"?>\n<!DOCTYPE plist PUBLIC \"-//Apple//DTD PLIST 1.0//EN\" \"http://www.apple.com/DTDs/PropertyList-1.0.dtd\">\n<plist version=\"1.0\">\n<dict>\n    <key>com.apple.security.device.audio-input</key>\n    <true/>\n</dict>\n</plist>"@,
{
    "<?xml version=\"1.0\" encoding=\"UTF-8\"?>\n<!DOCTYPE plist PUBLIC \"-//Apple//DTD PLIST 1.0//EN\" \"http://www.apple.com/DTDs/PropertyList-1.0.dtd\">\n<plist version=\"1.0\">\n<dict>\n    <key>com.apple.security.device.audio-input</key>\n    <true/>\n</dict>\n</plist>"
}

/// A binary run from a cargo target directory (a development build).
pub fn is_dev_binary(path: &str) -> (r: bool)
    ensures
        r == (has_infix(path@, "/target/debug/"@) || has_infix(path@, "/target/release/"@)),
{
    str_contains(path, "/target/debug/") || str_contains(path, "/target/release/")
}

/// `items` joined with line feeds.
pub open spec fn joined_lines(items: Seq<Seq<char>>) -> Seq<char>
    decreases items.len(),
{
    if items.len() == 0 {
        Seq::empty()
    } else if items.len() == 1 {
        items[0]
    } else {
        joined_lines(items.drop_last()) + "\n"@ + items.last()
    }
}

/// The last five items (all when fewer).
pub open spec fn last5(s: Seq<Seq<char>>) -> Seq<Seq<char>> {
    if s.len() <= 5 {
        s
    } else {
        s.subrange(s.len() - 5, s.len() as int)
    }
}

/// The smoke test's verdict on the daemon's fresh standard-error lines:
/// two or more microphone failures mean the daemon cannot get the
/// microphone under launchd; the install is rolled back with this message
/// (the last five lines quoted).
pub open spec fn smoke_spec(lines: Seq<Seq<char>>) -> Option<Seq<char>> {
    if count_failures(lines) >= 2 {
        Some("Daemon started but mic is unavailable under launchd.\n前台权限通过不等于 launchd 上下文能拿到麦克风。\n已回滚安装。\n\n修复步骤:\n1. 系统设置 → 隐私与安全性 → 麦克风: 删除任何已有的 cb / Desktop 条目\n2. 删掉其他位置可能遗留的老 cb 二进制 (特别是 Desktop、Downloads)\n3. 重新 `cb install`，允许新弹出的权限对话框\n\n守护进程 stderr 最后几行:\n"@ + joined_lines(last5(lines)))
    } else {
        None
    }
}

pub fn smoke_test_failure(lines: &[&str]) -> (r: Option<String>)
    ensures
        match r {
            Some(m) => smoke_spec(lines_view(lines@)) == Some(m@),
            None => smoke_spec(lines_view(lines@)) is None,
        },
{
    let (count, _) = scan_lines_for_mic_failure(lines);
    if count < 2 {
        return None;
    }
    let ghost all = lines_view(lines@);
    let n = lines.len();
    let start = if n > 5 {
        n - 5
    } else {
        0
    };
    let mut tail = String::new();
    let mut k = start;
    while k < n
        invariant
            start <= k <= n,
            n == lines@.len(),
            all == lines_view(lines@),
            tail@ == joined_lines(all.subrange(start as int, k as int)),
        decreases n - k,
    {
        let ghost items = all.subrange(start as int, k + 1);
        assert(items.drop_last() =~= all.subrange(start as int, k as int));
        assert(items.last() == lines@[k as int]@);
        if k > start {
            tail.append("\n");
        }
        tail.append(lines[k]);
        proof {
            if k == start {
                assert(items.len() == 1);
            }
        }
        assert(tail@ =~= joined_lines(items));
        k += 1;
    }
    assert(all.subrange(start as int, n as int) =~= last5(all));
    let mut m = owned("Daemon started but mic is unavailable under launchd.\n前台权限通过不等于 launchd 上下文能拿到麦克风。\n已回滚安装。\n\n修复步骤:\n1. 系统设置 → 隐私与安全性 → 麦克风: 删除任何已有的 cb / Desktop 条目\n2. 删掉其他位置可能遗留的老 cb 二进制 (特别是 Desktop、Downloads)\n3. 重新 `cb install`，允许新弹出的权限对话框\n\n守护进程 stderr 最后几行:\n");
    m.append(tail.as_str());
    Some(m)
}

/// The pids `pgrep` printed, one per line, other than our own.
pub open spec fn pids_spec(ls: Seq<Seq<char>>, ours: u32) -> Seq<Seq<char>>
    decreases ls.len(),
{
    if ls.len() == 0 {
        Seq::empty()
    } else {
        let r = pids_spec(ls.drop_last(), ours);
        let t = trim(ls.last());
        match parse_u32(t) {
            Some(p) => if p != ours {
                r.push(t)
            } else {
                r
            },
            None => r,
        }
    }
}

/// Uninstalling never stops the running `cb` itself: every pid picked from
/// `pgrep` output is a number other than our own.
pub proof fn law_never_kills_self(ls: Seq<Seq<char>>, ours: u32)
    ensures
        forall|k: int|
            0 <= k < pids_spec(ls, ours).len() ==> (parse_u32(#[trigger] pids_spec(ls, ours)[k])
                matches Some(p) && p != ours),
    decreases ls.len(),
{
    if ls.len() > 0 {
        law_never_kills_self(ls.drop_last(), ours);
    }
}

/// The leftover `cb chat` processes to stop, from `pgrep -f` output.
pub fn pids_to_kill(pgrep_output: &str, our_pid: u32) -> (r: Vec<String>)
    ensures
        r@.map_values(|p: String| p@) == pids_spec(lines_of(pgrep_output@), our_pid),
{
    let all = lines(pgrep_output);
    let ghost ls = lines_of(pgrep_output@);
    let mut r: Vec<String> = Vec::new();
    let mut i: usize = 0;
    while i < all.len()
        invariant
            i <= all@.len(),
            all@.map_values(|l: String| l@) == ls,
            r@.map_values(|p: String| p@) == pids_spec(ls.subrange(0, i as int), our_pid),
        decreases all.len() - i,
    {
        assert(ls.subrange(0, i + 1).drop_last() =~= ls.subrange(0, i as int));
        assert(ls.subrange(0, i + 1).last() == all@[i as int]@);
        let t = trim_str(all[i].as_str());
        let tv = chars_of(t.as_str());
        match parse_u32_chars(tv.as_slice()) {
            Some(p) => {
                if p != our_pid {
                    let ghost before = r@;
                    r.push(t);
                    assert(r@.map_values(|p: String| p@) =~= before.map_values(|p: String| p@).push(
                        tv@,
                    ));
                }
            },
            None => {},
        }
        i += 1;
    }
    assert(ls.subrange(0, ls.len() as int) =~= ls);
    r
}

/// How to use the assistant once the daemon runs: with the wake word on,
/// say it before the question.
pub open spec fn usage_spec(wake_enabled: bool, wake_word: Seq<char>) -> Seq<Seq<char>> {
    if wake_enabled {
        seq![
            "  \x1b[1m使用方式:\x1b[0m  说「"@ + wake_word + "」+ 你的问题"@,
            "  \x1b[90m示例: \""@ + wake_word + "，今天天气怎么样\"\x1b[0m"@,
        ]
    } else {
        seq!["  \x1b[1m使用方式:\x1b[0m  直接说话即可对话"@]
    }
}

pub fn usage_lines(wake_enabled: bool, wake_word: &str) -> (r: Vec<String>)
    ensures
        r@.map_values(|l: String| l@) == usage_spec(wake_enabled, wake_word@),
{
    let mut r: Vec<String> = Vec::new();
    if wake_enabled {
        let mut a = owned("  \x1b[1m使用方式:\x1b[0m  说「");
        a.append(wake_word);
        a.append("」+ 你的问题");
        let mut b = owned("  \x1b[90m示例: \"");
        b.append(wake_word);
        b.append("，今天天气怎么样\"\x1b[0m");
        r.push(a);
        r.push(b);
    } else {
        r.push(owned("  \x1b[1m使用方式:\x1b[0m  直接说话即可对话"));
    }
    assert(r@.map_values(|l: String| l@) =~= usage_spec(wake_enabled, wake_word@));
    r
}

/// What `cb status` reports.
#[derive(Debug, Clone, Copy, PartialEq, Eq, Structural)]
pub enum DaemonStatus {
    Running,
    InstalledStopped,
    NotInstalled,
}

/// Running when the service manager says so; installed but stopped when
/// only its file exists; otherwise not installed.
pub fn daemon_status(running: bool, service_file_exists: bool) -> (r: DaemonStatus)
    ensures
        r == if running {
            DaemonStatus::Running
        } else if service_file_exists {
            DaemonStatus::InstalledStopped
        } else {
            DaemonStatus::NotInstalled
        },
{
    if running {
        DaemonStatus::Running
    } else if service_file_exists {
        DaemonStatus::InstalledStopped
    } else {
        DaemonStatus::NotInstalled
    }
}

} // verus!
